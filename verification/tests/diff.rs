use backup_helper::path_map::PathMap;
use backup_helper::sync::diff::three_way;
use backup_helper::sync::types::{ConflictKind, Direction, HashIndex, OpKind, Plan, Side};

fn idx(pairs: &[(&str, &str)]) -> HashIndex {
    let mut m = PathMap::new();
    for (k, v) in pairs {
        m.insert(k.to_string(), v.to_string());
    }
    m
}

fn op(plan: &Plan, path: &str) -> Option<OpKind> {
    plan.ops.iter().find(|o| o.rel_path == path).map(|o| o.kind.clone())
}

fn conf(plan: &Plan, path: &str) -> Option<ConflictKind> {
    plan.conflicts.iter().find(|c| c.rel_path == path).map(|c| c.kind.clone())
}

#[test]
fn only_origin_modified_propagates_forward() {
    let base = idx(&[("a", "h1")]);
    let origin = idx(&[("a", "h2")]);
    let working = idx(&[("a", "h1")]);
    let p = three_way(&origin, &working, &base);
    assert_eq!(op(&p, "a"), Some(OpKind::Copy(Direction::OriginToWorking)));
    assert!(p.conflicts.is_empty());
}

#[test]
fn only_working_modified_reverse_syncs() {
    let base = idx(&[("a", "h1")]);
    let origin = idx(&[("a", "h1")]);
    let working = idx(&[("a", "h2")]);
    let p = three_way(&origin, &working, &base);
    assert_eq!(op(&p, "a"), Some(OpKind::Copy(Direction::WorkingToOrigin)));
}

#[test]
fn both_modified_same_content_converges_no_op() {
    let base = idx(&[("a", "h1")]);
    let origin = idx(&[("a", "h2")]);
    let working = idx(&[("a", "h2")]);
    let p = three_way(&origin, &working, &base);
    assert!(p.is_empty(), "cùng nội dung -> hội tụ, không thao tác");
}

#[test]
fn both_modified_diff_content_is_conflict() {
    let base = idx(&[("a", "h1")]);
    let origin = idx(&[("a", "h2")]);
    let working = idx(&[("a", "h3")]);
    let p = three_way(&origin, &working, &base);
    assert_eq!(conf(&p, "a"), Some(ConflictKind::BothModified));
    assert!(p.ops.is_empty());
}

#[test]
fn created_only_on_working_propagates_back() {
    let base = idx(&[]);
    let origin = idx(&[]);
    let working = idx(&[("new", "h1")]);
    let p = three_way(&origin, &working, &base);
    assert_eq!(op(&p, "new"), Some(OpKind::Copy(Direction::WorkingToOrigin)));
}

#[test]
fn both_created_diff_is_conflict() {
    let base = idx(&[]);
    let origin = idx(&[("x", "h1")]);
    let working = idx(&[("x", "h2")]);
    let p = three_way(&origin, &working, &base);
    assert_eq!(conf(&p, "x"), Some(ConflictKind::BothCreated));
}

#[test]
fn deleted_on_origin_propagates_delete() {
    let base = idx(&[("a", "h1")]);
    let origin = idx(&[]);
    let working = idx(&[("a", "h1")]);
    let p = three_way(&origin, &working, &base);
    assert_eq!(op(&p, "a"), Some(OpKind::Delete(Side::Working)));
}

#[test]
fn edit_vs_delete_is_conflict() {
    let base = idx(&[("a", "h1")]);
    let origin = idx(&[]); // origin xóa
    let working = idx(&[("a", "h2")]); // working sửa
    let p = three_way(&origin, &working, &base);
    assert_eq!(
        conf(&p, "a"),
        Some(ConflictKind::EditVsDelete { deleted: Side::Origin })
    );
}

#[test]
fn both_deleted_converges() {
    let base = idx(&[("a", "h1")]);
    let origin = idx(&[]);
    let working = idx(&[]);
    let p = three_way(&origin, &working, &base);
    assert!(p.is_empty());
}
