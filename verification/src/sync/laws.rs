//! Properties of the three-way plan that hold for every input: how paths are
//! ordered, when a plan is empty, which way one-sided changes flow, that the
//! two sides play mirror roles, and that applying a plan converges.
use crate::path_map::{lemma_sorted_paths, lemma_sorted_unique, sorted_paths, strictly_sorted};
use crate::sync::apply::{origin_after_op, working_after_op};
use crate::sync::diff::{
    conflict_for, decide_at, lookup, op_for, path_union, three_way_spec, Decision,
};
use crate::sync::types::{ConflictKind, ConflictView, Direction, OpKind, PlanView, PlannedOpView, Side};
use crate::text::seq_lt;
use vstd::prelude::*;

verus! {

/// Filtering a strictly sorted key sequence keeps the chosen keys, in order.
pub(crate) proof fn lemma_filter_sorted<T>(
    ks: Seq<Seq<char>>,
    f: spec_fn(Seq<char>) -> Option<T>,
    path: spec_fn(T) -> Seq<char>,
)
    requires
        strictly_sorted(ks),
        forall|k: Seq<char>| #[trigger] f(k) is Some ==> path(f(k)->0) == k,
    ensures
        strictly_sorted(ks.filter_map(f).map_values(path)),
        forall|k: Seq<char>| #[trigger] ks.filter_map(f).map_values(path).contains(k) <==> ks.contains(k) && f(k) is Some,
        forall|i: int| 0 <= i < ks.filter_map(f).len() ==> f(path(#[trigger] ks.filter_map(f)[i])) == Some(ks.filter_map(f)[i]),
    decreases ks.len(),
{
    let r = ks.filter_map(f);
    let rp = r.map_values(path);
    if ks.len() > 0 {
        let t = ks.drop_last();
        let x = ks.last();
        assert forall|a: int, b: int| 0 <= a < b < t.len() implies seq_lt(#[trigger] t[a], #[trigger] t[b]) by {
            assert(t[a] == ks[a] && t[b] == ks[b]);
        }
        lemma_filter_sorted(t, f, path);
        let rt = t.filter_map(f);
        let rtp = rt.map_values(path);
        assert forall|k: Seq<char>| #[trigger] ks.contains(k) <==> t.contains(k) || k == x by {
            if ks.contains(k) {
                let i = choose|i: int| 0 <= i < ks.len() && ks[i] == k;
                if i < ks.len() - 1 {
                    assert(t[i] == k);
                }
            }
            if t.contains(k) {
                let i = choose|i: int| 0 <= i < t.len() && t[i] == k;
                assert(ks[i] == k);
            }
        }
        // Every kept key before the last is below the last key.
        assert forall|i: int| 0 <= i < rtp.len() implies seq_lt(#[trigger] rtp[i], x) by {
            assert(rtp.contains(rtp[i]));
            let j = choose|j: int| 0 <= j < t.len() && t[j] == rtp[i];
            assert(ks[j] == t[j]);
            assert(seq_lt(ks[j], ks[ks.len() - 1]));
        }
        if f(x) is Some {
            assert(r =~= rt + seq![f(x)->0]);
            assert(rp =~= rtp.push(x));
            assert forall|a: int, b: int| 0 <= a < b < rp.len() implies seq_lt(#[trigger] rp[a], #[trigger] rp[b]) by {
                if b == rp.len() - 1 {
                    assert(rp[a] == rtp[a]);
                } else {
                    assert(rp[a] == rtp[a] && rp[b] == rtp[b]);
                }
            }
            assert forall|k: Seq<char>| #[trigger] rp.contains(k) <==> ks.contains(k) && f(k) is Some by {
                if rp.contains(k) {
                    let i = choose|i: int| 0 <= i < rp.len() && rp[i] == k;
                    if i < rtp.len() {
                        assert(rtp[i] == k);
                        assert(rtp.contains(k));
                        assert(t.contains(k));
                    } else {
                        assert(k == x);
                        assert(ks[ks.len() - 1] == x);
                    }
                }
                if ks.contains(k) && f(k) is Some {
                    if k == x {
                        assert(rp[rp.len() - 1] == x);
                    } else {
                        assert(rtp.contains(k));
                        let i = choose|i: int| 0 <= i < rtp.len() && rtp[i] == k;
                        assert(rp[i] == k);
                    }
                }
            }
            assert forall|i: int| 0 <= i < r.len() implies f(path(#[trigger] r[i])) == Some(r[i]) by {
                if i < rt.len() {
                    assert(r[i] == rt[i]);
                }
            }
        } else {
            assert(r =~= rt);
            assert forall|k: Seq<char>| #[trigger] rp.contains(k) <==> ks.contains(k) && f(k) is Some by {
                if rp.contains(k) {
                    assert(rtp.contains(k));
                }
            }
        }
    }
}

/// The filtered sequence is determined by the set of chosen keys alone.
proof fn lemma_filter_same_choice<T>(
    ks1: Seq<Seq<char>>,
    ks2: Seq<Seq<char>>,
    f: spec_fn(Seq<char>) -> Option<T>,
    path: spec_fn(T) -> Seq<char>,
)
    requires
        strictly_sorted(ks1),
        strictly_sorted(ks2),
        forall|k: Seq<char>| #[trigger] f(k) is Some ==> path(f(k)->0) == k,
        forall|k: Seq<char>| #[trigger] f(k) is Some ==> (ks1.contains(k) <==> ks2.contains(k)),
    ensures
        ks1.filter_map(f) == ks2.filter_map(f),
{
    lemma_filter_sorted(ks1, f, path);
    lemma_filter_sorted(ks2, f, path);
    let r1 = ks1.filter_map(f);
    let r2 = ks2.filter_map(f);
    lemma_sorted_unique(r1.map_values(path), r2.map_values(path));
    assert(r1.len() == r2.len()) by {
        assert(r1.map_values(path).len() == r2.map_values(path).len());
    }
    assert forall|i: int| 0 <= i < r1.len() implies r1[i] == r2[i] by {
        assert(r1.map_values(path)[i] == r2.map_values(path)[i]);
    }
    assert(r1 =~= r2);
}

pub open spec fn op_path(x: PlannedOpView) -> Seq<char> {
    x.rel_path
}

pub open spec fn conflict_path(x: ConflictView) -> Seq<char> {
    x.rel_path
}

/// Paths in a plan come in strictly increasing order, each path at most once:
/// no path has two operations, two conflicts, or both an operation and a
/// conflict; every operation and conflict is the decision for its own path.
pub proof fn law_plan_paths_distinct(
    o: Map<Seq<char>, Seq<char>>,
    w: Map<Seq<char>, Seq<char>>,
    b: Map<Seq<char>, Seq<char>>,
)
    requires
        o.dom().finite(),
        w.dom().finite(),
        b.dom().finite(),
    ensures
        strictly_sorted(three_way_spec(o, w, b).ops.map_values(|x: PlannedOpView| x.rel_path)),
        strictly_sorted(three_way_spec(o, w, b).conflicts.map_values(|x: ConflictView| x.rel_path)),
        forall|i: int, j: int|
            0 <= i < three_way_spec(o, w, b).ops.len() && 0 <= j < three_way_spec(o, w, b).conflicts.len()
                ==> (#[trigger] three_way_spec(o, w, b).ops[i]).rel_path
                    != (#[trigger] three_way_spec(o, w, b).conflicts[j]).rel_path,
        forall|i: int| 0 <= i < three_way_spec(o, w, b).ops.len() ==> decide_at(o, w, b, (#[trigger] three_way_spec(o, w, b).ops[i]).rel_path)
            == Decision::Propagate(three_way_spec(o, w, b).ops[i].kind),
        forall|i: int| 0 <= i < three_way_spec(o, w, b).conflicts.len() ==> decide_at(o, w, b, (#[trigger] three_way_spec(o, w, b).conflicts[i]).rel_path)
            == Decision::Clash(three_way_spec(o, w, b).conflicts[i].kind),
{
    let ks = sorted_paths(path_union(o, w, b));
    lemma_sorted_paths(path_union(o, w, b), ks);
    let p = three_way_spec(o, w, b);
    lemma_filter_sorted(ks, op_for(o, w, b), |x: PlannedOpView| x.rel_path);
    lemma_filter_sorted(ks, conflict_for(o, w, b), |x: ConflictView| x.rel_path);
    assert(p.ops.map_values(|x: PlannedOpView| x.rel_path) == ks.filter_map(op_for(o, w, b)).map_values(|x: PlannedOpView| x.rel_path));
    assert forall|i: int| 0 <= i < p.ops.len() implies decide_at(o, w, b, (#[trigger] p.ops[i]).rel_path)
        == Decision::Propagate(p.ops[i].kind) by {
        assert(op_for(o, w, b)(p.ops[i].rel_path) == Some(p.ops[i]));
    }
    assert forall|i: int| 0 <= i < p.conflicts.len() implies decide_at(o, w, b, (#[trigger] p.conflicts[i]).rel_path)
        == Decision::Clash(p.conflicts[i].kind) by {
        assert(conflict_for(o, w, b)(p.conflicts[i].rel_path) == Some(p.conflicts[i]));
    }
    assert forall|i: int, j: int|
        0 <= i < p.ops.len() && 0 <= j < p.conflicts.len() implies (#[trigger] p.ops[i]).rel_path
            != (#[trigger] p.conflicts[j]).rel_path by {
        assert(op_for(o, w, b)(p.ops[i].rel_path) == Some(p.ops[i]));
        assert(conflict_for(o, w, b)(p.conflicts[j].rel_path) == Some(p.conflicts[j]));
    }
}

/// No operation is planned for any key when no decision is a propagation.
proof fn lemma_no_ops<T>(ks: Seq<Seq<char>>, f: spec_fn(Seq<char>) -> Option<T>)
    requires
        forall|k: Seq<char>| #[trigger] f(k) is None,
    ensures
        ks.filter_map(f).len() == 0,
    decreases ks.len(),
{
    if ks.len() > 0 {
        lemma_no_ops(ks.drop_last(), f);
        assert(f(ks.last()) is None);
    }
}

/// A plan is empty exactly when both sides already hold the same files with
/// the same content, whatever the baseline.
pub proof fn law_plan_empty_iff_sides_agree(
    o: Map<Seq<char>, Seq<char>>,
    w: Map<Seq<char>, Seq<char>>,
    b: Map<Seq<char>, Seq<char>>,
)
    requires
        o.dom().finite(),
        w.dom().finite(),
        b.dom().finite(),
    ensures
        (three_way_spec(o, w, b).ops.len() == 0 && three_way_spec(o, w, b).conflicts.len() == 0) <==> o == w,
{
    let ks = sorted_paths(path_union(o, w, b));
    lemma_sorted_paths(path_union(o, w, b), ks);
    let fo = op_for(o, w, b);
    let fc = conflict_for(o, w, b);
    lemma_filter_sorted(ks, fo, |x: PlannedOpView| x.rel_path);
    lemma_filter_sorted(ks, fc, |x: ConflictView| x.rel_path);
    if o == w {
        assert forall|k: Seq<char>| #[trigger] fo(k) is None by {}
        assert forall|k: Seq<char>| #[trigger] fc(k) is None by {}
        lemma_no_ops(ks, fo);
        lemma_no_ops(ks, fc);
    } else {
        // Some path differs between the sides; it is known, so it is planned.
        let k = if exists|k: Seq<char>| o.contains_key(k) && !w.contains_key(k) {
            choose|k: Seq<char>| o.contains_key(k) && !w.contains_key(k)
        } else if exists|k: Seq<char>| w.contains_key(k) && !o.contains_key(k) {
            choose|k: Seq<char>| w.contains_key(k) && !o.contains_key(k)
        } else {
            choose|k: Seq<char>| o.contains_key(k) && w.contains_key(k) && o[k] != w[k]
        };
        if !(exists|k: Seq<char>| o.contains_key(k) && !w.contains_key(k))
            && !(exists|k: Seq<char>| w.contains_key(k) && !o.contains_key(k)) {
            if !(exists|k: Seq<char>| o.contains_key(k) && w.contains_key(k) && o[k] != w[k]) {
                assert(o =~= w);
            }
        }
        assert(lookup(o, k) != lookup(w, k));
        assert(path_union(o, w, b).contains(k));
        assert(ks.contains(k));
        if fo(k) is Some {
            assert(ks.filter_map(fo).map_values(|x: PlannedOpView| x.rel_path).contains(k));
        } else {
            assert(fc(k) is Some);
            assert(ks.filter_map(fc).map_values(|x: ConflictView| x.rel_path).contains(k));
        }
    }
}

/// When only one side changed since the baseline, the plan has no conflict and
/// every operation carries that side's change over to the other side.
pub proof fn law_one_sided_change_never_conflicts(
    o: Map<Seq<char>, Seq<char>>,
    w: Map<Seq<char>, Seq<char>>,
    b: Map<Seq<char>, Seq<char>>,
)
    requires
        o.dom().finite(),
        w.dom().finite(),
        b.dom().finite(),
    ensures
        w == b ==> three_way_spec(o, w, b).conflicts.len() == 0 && forall|i: int|
            0 <= i < three_way_spec(o, w, b).ops.len() ==> #[trigger] three_way_spec(o, w, b).ops[i].kind
                == OpKind::Copy(Direction::OriginToWorking) || three_way_spec(o, w, b).ops[i].kind
                == OpKind::Delete(Side::Working),
        o == b ==> three_way_spec(o, w, b).conflicts.len() == 0 && forall|i: int|
            0 <= i < three_way_spec(o, w, b).ops.len() ==> #[trigger] three_way_spec(o, w, b).ops[i].kind
                == OpKind::Copy(Direction::WorkingToOrigin) || three_way_spec(o, w, b).ops[i].kind
                == OpKind::Delete(Side::Origin),
{
    let ks = sorted_paths(path_union(o, w, b));
    let fc = conflict_for(o, w, b);
    law_plan_paths_distinct(o, w, b);
    if w == b || o == b {
        assert forall|k: Seq<char>| #[trigger] fc(k) is None by {}
        lemma_no_ops(ks, fc);
    }
}

/// A side's state of a path after the plan's operation for it has been applied.
pub open spec fn origin_after_at(
    o: Map<Seq<char>, Seq<char>>,
    w: Map<Seq<char>, Seq<char>>,
    b: Map<Seq<char>, Seq<char>>,
    k: Seq<char>,
) -> Option<Seq<char>> {
    match decide_at(o, w, b, k) {
        Decision::Propagate(kind) => origin_after_op(kind, lookup(o, k), lookup(w, k)),
        _ => lookup(o, k),
    }
}

pub open spec fn working_after_at(
    o: Map<Seq<char>, Seq<char>>,
    w: Map<Seq<char>, Seq<char>>,
    b: Map<Seq<char>, Seq<char>>,
    k: Seq<char>,
) -> Option<Seq<char>> {
    match decide_at(o, w, b, k) {
        Decision::Propagate(kind) => working_after_op(kind, lookup(o, k), lookup(w, k)),
        _ => lookup(w, k),
    }
}

/// The origin index once the plan's operations are done.
pub open spec fn origin_after(
    o: Map<Seq<char>, Seq<char>>,
    w: Map<Seq<char>, Seq<char>>,
    b: Map<Seq<char>, Seq<char>>,
) -> Map<Seq<char>, Seq<char>> {
    Map::new(|k: Seq<char>| origin_after_at(o, w, b, k) is Some, |k: Seq<char>| origin_after_at(o, w, b, k)->0)
}

/// The working index once the plan's operations are done.
pub open spec fn working_after(
    o: Map<Seq<char>, Seq<char>>,
    w: Map<Seq<char>, Seq<char>>,
    b: Map<Seq<char>, Seq<char>>,
) -> Map<Seq<char>, Seq<char>> {
    Map::new(|k: Seq<char>| working_after_at(o, w, b, k) is Some, |k: Seq<char>| working_after_at(o, w, b, k)->0)
}

/// The baseline after reconciling: every path on which the two sides agree
/// takes their common state; every other path keeps its baseline entry.
pub open spec fn advanced_baseline(
    o: Map<Seq<char>, Seq<char>>,
    w: Map<Seq<char>, Seq<char>>,
    b: Map<Seq<char>, Seq<char>>,
) -> Map<Seq<char>, Seq<char>> {
    Map::new(
        |k: Seq<char>| if lookup(o, k) == lookup(w, k) { o.contains_key(k) } else { b.contains_key(k) },
        |k: Seq<char>| if lookup(o, k) == lookup(w, k) { o[k] } else { b[k] },
    )
}

/// Sync converges: after the plan's operations are applied and the baseline is
/// reconciled, planning again proposes no operation at all, and exactly the same
/// conflicts remain (conflicting files are left untouched).
pub proof fn law_apply_converges(
    o: Map<Seq<char>, Seq<char>>,
    w: Map<Seq<char>, Seq<char>>,
    b: Map<Seq<char>, Seq<char>>,
)
    requires
        o.dom().finite(),
        w.dom().finite(),
        b.dom().finite(),
    ensures
        ({
            let o2 = origin_after(o, w, b);
            let w2 = working_after(o, w, b);
            let b2 = advanced_baseline(o2, w2, b);
            &&& three_way_spec(o2, w2, b2).ops.len() == 0
            &&& three_way_spec(o2, w2, b2).conflicts == three_way_spec(o, w, b).conflicts
        }),
{
    let o2 = origin_after(o, w, b);
    let w2 = working_after(o, w, b);
    let b2 = advanced_baseline(o2, w2, b);
    let f1 = conflict_for(o, w, b);
    let f2 = conflict_for(o2, w2, b2);
    let g2 = op_for(o2, w2, b2);
    assert forall|k: Seq<char>| lookup(o2, k) == origin_after_at(o, w, b, k) && lookup(w2, k) == working_after_at(o, w, b, k) by {}
    assert forall|k: Seq<char>| #[trigger] g2(k) is None && f2(k) == f1(k) by {
        assert(lookup(o2, k) == origin_after_at(o, w, b, k));
        assert(lookup(w2, k) == working_after_at(o, w, b, k));
        if lookup(o2, k) != lookup(w2, k) {
            assert(lookup(b2, k) == lookup(b, k));
        }
    }
    assert(o2.dom() =~= o.dom().union(w.dom()).filter(|k: Seq<char>| origin_after_at(o, w, b, k) is Some)) by {
        assert forall|k: Seq<char>| o2.dom().contains(k) implies o.dom().union(w.dom()).contains(k) by {}
    }
    assert(w2.dom() =~= o.dom().union(w.dom()).filter(|k: Seq<char>| working_after_at(o, w, b, k) is Some)) by {
        assert forall|k: Seq<char>| w2.dom().contains(k) implies o.dom().union(w.dom()).contains(k) by {}
    }
    assert(b2.dom() =~= o2.dom().union(b.dom()).filter(|k: Seq<char>|
        if lookup(o2, k) == lookup(w2, k) { o2.contains_key(k) } else { b.contains_key(k) }));
    let ks1 = sorted_paths(path_union(o, w, b));
    let ks2 = sorted_paths(path_union(o2, w2, b2));
    lemma_sorted_paths(path_union(o, w, b), ks1);
    lemma_sorted_paths(path_union(o2, w2, b2), ks2);
    lemma_no_ops(ks2, g2);
    assert forall|k: Seq<char>| #[trigger] f1(k) is Some implies (ks1.contains(k) <==> ks2.contains(k)) by {
        assert(lookup(o, k) != lookup(w, k));
        assert(lookup(o2, k) == lookup(o, k));
        assert(lookup(w2, k) == lookup(w, k));
    }
    assert(f1 == f2) by {
        assert(f1 =~= f2);
    }
    lemma_filter_same_choice(ks1, ks2, f1, |x: ConflictView| x.rel_path);
}

/// The other side.
pub open spec fn other_side(s: Side) -> Side {
    match s {
        Side::Origin => Side::Working,
        Side::Working => Side::Origin,
    }
}

/// An operation with the roles of origin and working exchanged.
pub open spec fn mirror_op(k: OpKind) -> OpKind {
    match k {
        OpKind::Copy(Direction::OriginToWorking) => OpKind::Copy(Direction::WorkingToOrigin),
        OpKind::Copy(Direction::WorkingToOrigin) => OpKind::Copy(Direction::OriginToWorking),
        OpKind::Delete(s) => OpKind::Delete(other_side(s)),
    }
}

/// A conflict kind with the roles of origin and working exchanged.
pub open spec fn mirror_conflict(k: ConflictKind) -> ConflictKind {
    match k {
        ConflictKind::EditVsDelete { deleted } => ConflictKind::EditVsDelete { deleted: other_side(deleted) },
        _ => k,
    }
}

pub open spec fn mirror_planned(x: PlannedOpView) -> PlannedOpView {
    PlannedOpView { rel_path: x.rel_path, kind: mirror_op(x.kind) }
}

pub open spec fn mirror_conflict_view(x: ConflictView) -> ConflictView {
    ConflictView { rel_path: x.rel_path, kind: mirror_conflict(x.kind) }
}

/// A plan with the roles of origin and working exchanged.
pub open spec fn mirror_plan(p: PlanView) -> PlanView {
    PlanView {
        ops: p.ops.map_values(|x: PlannedOpView| mirror_planned(x)),
        conflicts: p.conflicts.map_values(|x: ConflictView| mirror_conflict_view(x)),
    }
}

proof fn lemma_mirror_filter_map(
    ks: Seq<Seq<char>>,
    o: Map<Seq<char>, Seq<char>>,
    w: Map<Seq<char>, Seq<char>>,
    b: Map<Seq<char>, Seq<char>>,
)
    ensures
        ks.filter_map(op_for(w, o, b)) == ks.filter_map(op_for(o, w, b)).map_values(|x: PlannedOpView| mirror_planned(x)),
        ks.filter_map(conflict_for(w, o, b)) == ks.filter_map(conflict_for(o, w, b)).map_values(
            |x: ConflictView| mirror_conflict_view(x),
        ),
    decreases ks.len(),
{
    if ks.len() > 0 {
        let rest = ks.drop_last();
        let k = ks.last();
        lemma_mirror_filter_map(rest, o, w, b);
        let fm = |x: PlannedOpView| mirror_planned(x);
        let cm = |x: ConflictView| mirror_conflict_view(x);
        let a = rest.filter_map(op_for(o, w, b));
        let c = rest.filter_map(conflict_for(o, w, b));
        match op_for(o, w, b)(k) {
            Some(s) => {
                assert((a + seq![s]).map_values(fm) =~= a.map_values(fm) + seq![mirror_planned(s)]);
            },
            None => {},
        }
        match conflict_for(o, w, b)(k) {
            Some(s) => {
                assert((c + seq![s]).map_values(cm) =~= c.map_values(cm) + seq![mirror_conflict_view(s)]);
            },
            None => {},
        }
    } else {
        assert(ks.filter_map(op_for(o, w, b)).map_values(|x: PlannedOpView| mirror_planned(x)) =~= Seq::empty());
        assert(ks.filter_map(conflict_for(o, w, b)).map_values(|x: ConflictView| mirror_conflict_view(x))
            =~= Seq::empty());
    }
}

/// Origin and working play mirror roles: swapping the two sides gives the
/// same plan with every copy direction, deleted side and edit-versus-delete
/// conflict turned round.
pub proof fn law_swap_sides_mirrors_plan(
    o: Map<Seq<char>, Seq<char>>,
    w: Map<Seq<char>, Seq<char>>,
    b: Map<Seq<char>, Seq<char>>,
)
    ensures
        three_way_spec(w, o, b) == mirror_plan(three_way_spec(o, w, b)),
{
    assert(path_union(w, o, b) =~= path_union(o, w, b));
    lemma_mirror_filter_map(sorted_paths(path_union(o, w, b)), o, w, b);
}

} // verus!
