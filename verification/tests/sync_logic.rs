use backup_helper::path_map::PathMap;
use backup_helper::sync::apply::{baseline_updates, resolution_plan};
use backup_helper::sync::db::{JournalEntry, UndoStep};
use backup_helper::sync::diff::three_way;
use backup_helper::sync::ops::{baseline_record, copy_record, copy_steps, delete_record, delete_steps, OpStep, VersionOp};
use backup_helper::sync::scan::{content_hash, normalize_rel, reuse_entry};
use backup_helper::sync::store::Store;
use backup_helper::sync::types::{
    to_hash_index, ConflictKind, Direction, HashIndex, Meta, MetaIndex, OpKind, Side,
};
use std::path::PathBuf;

fn idx(pairs: &[(&str, &str)]) -> HashIndex {
    let mut m = PathMap::new();
    for (k, v) in pairs {
        m.insert(k.to_string(), v.to_string());
    }
    m
}

fn get(m: &HashIndex, k: &str) -> Option<String> {
    m.get(k).cloned()
}

#[test]
fn path_map_keeps_keys_sorted_and_replaces() {
    let m = idx(&[("b", "2"), ("a", "1"), ("c", "3"), ("a", "9")]);
    assert_eq!(m.len(), 3);
    assert_eq!(m.key_at(0), "a");
    assert_eq!(m.key_at(1), "b");
    assert_eq!(m.key_at(2), "c");
    assert_eq!(get(&m, "a"), Some("9".to_string()));
    assert_eq!(get(&m, "zz"), None);
    assert!(m.contains("c"));
    assert!(!m.contains("d"));
}

#[test]
fn plan_lists_paths_in_order_each_once() {
    let base = idx(&[("b.txt", "h1"), ("a.txt", "h1"), ("c.txt", "h1")]);
    let origin = idx(&[("c.txt", "h2"), ("a.txt", "h2"), ("b.txt", "h3")]);
    let working = idx(&[("a.txt", "h1"), ("b.txt", "h4"), ("c.txt", "h1"), ("d.txt", "n")]);
    let p = three_way(&origin, &working, &base);
    let paths: Vec<&str> = p.ops.iter().map(|o| o.rel_path.as_str()).collect();
    assert_eq!(paths, vec!["a.txt", "c.txt", "d.txt"]);
    assert_eq!(p.ops[2].kind, OpKind::Copy(Direction::WorkingToOrigin));
    assert_eq!(p.conflicts.len(), 1);
    assert_eq!(p.conflicts[0].rel_path, "b.txt");
    assert_eq!(p.conflicts[0].kind, ConflictKind::BothModified);
}

#[test]
fn plan_empty_exactly_when_sides_agree() {
    let base = idx(&[("x", "old")]);
    let same = idx(&[("x", "new"), ("y", "h")]);
    assert!(three_way(&same, &same, &base).is_empty());
    let other = idx(&[("x", "new")]);
    assert!(!three_way(&same, &other, &base).is_empty());
}

#[test]
fn deleted_on_working_propagates_delete_to_origin() {
    let base = idx(&[("a", "h1")]);
    let origin = idx(&[("a", "h1")]);
    let working = idx(&[]);
    let p = three_way(&origin, &working, &base);
    assert_eq!(p.ops[0].kind, OpKind::Delete(Side::Origin));
    let p2 = three_way(&idx(&[("a", "h2")]), &working, &base);
    assert_eq!(p2.conflicts[0].kind, ConflictKind::EditVsDelete { deleted: Side::Working });
}

#[test]
fn applying_a_plan_then_replanning_converges() {
    // origin changed a, working created n, both changed c differently.
    let base = idx(&[("a", "1"), ("c", "1")]);
    let origin = idx(&[("a", "2"), ("c", "2")]);
    let working = idx(&[("a", "1"), ("c", "3"), ("n", "5")]);
    let plan = three_way(&origin, &working, &base);
    assert_eq!(plan.ops.len(), 2);
    assert_eq!(plan.conflicts.len(), 1);
    // Model the copies on the indexes, then reconcile the baseline.
    let origin2 = idx(&[("a", "2"), ("c", "2"), ("n", "5")]);
    let working2 = idx(&[("a", "2"), ("c", "3"), ("n", "5")]);
    let ups = baseline_updates(&origin2, &working2, &base);
    let mut base2 = idx(&[("a", "1"), ("c", "1")]);
    for u in &ups {
        match &u.hash {
            Some(h) => base2.insert(u.rel_path.clone(), h.clone()),
            None => {}
        }
    }
    let again = three_way(&origin2, &working2, &base2);
    assert!(again.ops.is_empty());
    assert_eq!(again.conflicts.len(), 1);
    assert_eq!(again.conflicts[0].rel_path, "c");
}

#[test]
fn baseline_updates_cover_agreed_paths_only() {
    let base = idx(&[("gone", "1"), ("c", "1")]);
    let origin = idx(&[("a", "2"), ("c", "2")]);
    let working = idx(&[("a", "2"), ("c", "3")]);
    let ups = baseline_updates(&origin, &working, &base);
    assert_eq!(ups.len(), 2);
    assert_eq!(ups[0].rel_path, "a");
    assert_eq!(ups[0].hash, Some("2".to_string()));
    assert_eq!(ups[1].rel_path, "gone");
    assert_eq!(ups[1].hash, None);
}

#[test]
fn resolution_keeps_chosen_side() {
    let p = resolution_plan("f.txt", Side::Working, true, true);
    assert_eq!(p.ops.len(), 1);
    assert_eq!(p.ops[0].rel_path, "f.txt");
    assert_eq!(p.ops[0].kind, OpKind::Copy(Direction::WorkingToOrigin));
    assert!(p.conflicts.is_empty());
    let p = resolution_plan("f.txt", Side::Working, true, false);
    assert_eq!(p.ops[0].kind, OpKind::Delete(Side::Origin));
    let p = resolution_plan("f.txt", Side::Origin, true, false);
    assert_eq!(p.ops[0].kind, OpKind::Copy(Direction::OriginToWorking));
    let p = resolution_plan("f.txt", Side::Origin, false, true);
    assert_eq!(p.ops[0].kind, OpKind::Delete(Side::Working));
}

#[test]
fn op_target_and_source_sides() {
    assert_eq!(OpKind::Copy(Direction::OriginToWorking).target(), Side::Working);
    assert_eq!(OpKind::Copy(Direction::OriginToWorking).source(), Some(Side::Origin));
    assert_eq!(OpKind::Copy(Direction::WorkingToOrigin).target(), Side::Origin);
    assert_eq!(OpKind::Delete(Side::Working).target(), Side::Working);
    assert_eq!(OpKind::Delete(Side::Working).source(), None);
    assert_eq!(Side::Origin.as_str(), "origin");
    assert_eq!(Side::Working.as_str(), "working");
}

fn entry(kind: &str, pre: Option<&str>) -> JournalEntry {
    JournalEntry {
        run_id: "run-1".into(),
        ts: 1,
        kind: kind.into(),
        pair: "p".into(),
        rel_path: "x".into(),
        abs_path: "/w/x".into(),
        pre_hash: pre.map(|s| s.to_string()),
        post_hash: None,
        pre_base: None,
    }
}

#[test]
fn undo_steps_follow_journal_kind() {
    assert!(matches!(entry("copy", Some("h")).undo_step(), UndoStep::Restore(h) if h == "h"));
    assert!(matches!(entry("copy", None).undo_step(), UndoStep::Remove));
    assert!(matches!(entry("delete", Some("k")).undo_step(), UndoStep::Restore(h) if h == "k"));
    assert!(matches!(entry("delete", None).undo_step(), UndoStep::Keep));
    assert!(matches!(entry("other", Some("k")).undo_step(), UndoStep::Keep));
}

#[test]
fn content_hash_is_blake3_hex() {
    assert_eq!(
        content_hash(b""),
        "af1349b9f5f9a1a6a0404dea36dcc9499bcb25c9adc112b7cc9a93cae41f3262"
    );
    let h = content_hash(b"hello");
    assert_eq!(h.len(), 64);
    assert_ne!(h, content_hash(b"hello!"));
}

#[test]
fn rel_paths_use_forward_slashes() {
    assert_eq!(normalize_rel("sub\\dir\\a.txt"), "sub/dir/a.txt");
    assert_eq!(normalize_rel("plain/x"), "plain/x");
}

#[test]
fn scan_reuses_hash_only_for_same_stat() {
    let mut prev: MetaIndex = PathMap::new();
    prev.insert("a".into(), Meta { size: 5, mtime: 100, hash: "hh".into() });
    let m = reuse_entry(&prev, "a", 5, 100).unwrap();
    assert_eq!(m.hash, "hh");
    assert!(reuse_entry(&prev, "a", 6, 100).is_none());
    assert!(reuse_entry(&prev, "a", 5, 101).is_none());
    assert!(reuse_entry(&prev, "b", 5, 100).is_none());
    let h = to_hash_index(&prev);
    assert_eq!(get(&h, "a"), Some("hh".to_string()));
}

#[test]
fn blob_paths_split_after_two_characters() {
    let (a, b) = Store::blob_name("abcdef");
    assert_eq!((a, b), ("ab", "cdef"));
    let (a, b) = Store::blob_name("x");
    assert_eq!((a, b), ("x", ""));
    let store = Store { root: PathBuf::from("/store") };
    assert_eq!(store.blob_path("abcdef"), PathBuf::from("/store").join("ab").join("cdef"));
    assert!(!store.has("abcdef"));
}

#[test]
fn old_content_is_kept_before_overwrite_or_delete() {
    assert_eq!(
        copy_steps(true),
        vec![
            OpStep::StoreOld,
            OpStep::AddVersion(VersionOp::Overwrite),
            OpStep::WriteCopy,
            OpStep::StoreNew,
            OpStep::Journal
        ]
    );
    assert_eq!(copy_steps(false), vec![OpStep::WriteCopy, OpStep::StoreNew, OpStep::Journal]);
    assert_eq!(
        delete_steps(true),
        vec![OpStep::StoreOld, OpStep::AddVersion(VersionOp::Delete), OpStep::Remove, OpStep::Journal]
    );
    assert!(delete_steps(false).is_empty());
    assert_eq!(VersionOp::Overwrite.as_str(), "overwrite");
    assert_eq!(VersionOp::Delete.as_str(), "delete");
}

#[test]
fn journal_records_undo_to_the_kept_content() {
    let c = copy_record(
        "run-1".into(),
        7,
        "p".into(),
        "a.txt".into(),
        "/w/a.txt".into(),
        Some("old".into()),
        "new".into(),
        Some("base".into()),
    );
    assert_eq!(c.kind, "copy");
    assert_eq!(c.pre_hash.as_deref(), Some("old"));
    assert_eq!(c.post_hash.as_deref(), Some("new"));
    assert_eq!(c.pre_base.as_deref(), Some("base"));
    assert!(matches!(c.undo_step(), UndoStep::Restore(h) if h == "old"));
    let created = copy_record("r".into(), 1, "p".into(), "b".into(), "/w/b".into(), None, "n".into(), None);
    assert!(matches!(created.undo_step(), UndoStep::Remove));
    let d = delete_record("r".into(), 2, "p".into(), "c".into(), "/o/c".into(), "gone".into(), None);
    assert_eq!(d.kind, "delete");
    assert!(d.post_hash.is_none());
    assert!(matches!(d.undo_step(), UndoStep::Restore(h) if h == "gone"));
}

#[test]
fn swapping_sides_mirrors_the_plan() {
    let b = idx(&[("a", "1"), ("b", "1"), ("c", "1"), ("d", "1")]);
    // origin edits a, deletes b; working edits c and d, deletes nothing of those; e is new on origin.
    let o = idx(&[("a", "2"), ("c", "1"), ("d", "3"), ("e", "9")]);
    let w = idx(&[("a", "1"), ("b", "1"), ("c", "5"), ("d", "4")]);
    let p = three_way(&o, &w, &b);
    let q = three_way(&w, &o, &b);
    let flip = |k: &OpKind| match k {
        OpKind::Copy(Direction::OriginToWorking) => OpKind::Copy(Direction::WorkingToOrigin),
        OpKind::Copy(Direction::WorkingToOrigin) => OpKind::Copy(Direction::OriginToWorking),
        OpKind::Delete(Side::Origin) => OpKind::Delete(Side::Working),
        OpKind::Delete(Side::Working) => OpKind::Delete(Side::Origin),
    };
    assert_eq!(p.ops.len(), q.ops.len());
    for (x, y) in p.ops.iter().zip(q.ops.iter()) {
        assert_eq!(x.rel_path, y.rel_path);
        assert_eq!(flip(&x.kind), y.kind);
    }
    assert_eq!(
        p.ops.iter().map(|x| (x.rel_path.as_str(), x.kind)).collect::<Vec<_>>(),
        vec![
            ("a", OpKind::Copy(Direction::OriginToWorking)),
            ("b", OpKind::Delete(Side::Working)),
            ("c", OpKind::Copy(Direction::WorkingToOrigin)),
            ("e", OpKind::Copy(Direction::OriginToWorking)),
        ]
    );
    assert_eq!(p.conflicts.len(), 1);
    assert_eq!(q.conflicts.len(), 1);
    assert_eq!(p.conflicts[0].rel_path, "d");
    assert_eq!(p.conflicts[0].kind, ConflictKind::BothModified);
    assert_eq!(q.conflicts[0].kind, ConflictKind::BothModified);
}

#[test]
fn baseline_moves_undo_to_the_old_baseline_only() {
    let b = baseline_record("run-2".into(), 3, "p".into(), "a.txt".into(), Some("h2".into()), Some("h1".into()));
    assert_eq!(b.kind, "baseline");
    assert_eq!(b.pre_base.as_deref(), Some("h1"));
    assert_eq!(b.post_hash.as_deref(), Some("h2"));
    assert!(b.pre_hash.is_none());
    assert!(matches!(b.undo_step(), UndoStep::Keep));
}
