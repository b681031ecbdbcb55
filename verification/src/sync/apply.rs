//! Decisions around applying a plan: what each operation touches, how the
//! baseline is reconciled after a run, and how a conflict is resolved.
use crate::path_map::{lemma_sorted_paths, sorted_paths, strictly_sorted};
use crate::sync::diff::{lookup, path_union, union_paths};
use crate::sync::laws::advanced_baseline;
use crate::sync::types::{hash_view, Direction, HashIndex, OpKind, Plan, PlannedOp, PlannedOpView, Side};
use vstd::prelude::*;

verus! {

/// The state of a path on the origin side after an operation.
pub open spec fn origin_after_op(kind: OpKind, o: Option<Seq<char>>, w: Option<Seq<char>>) -> Option<Seq<char>> {
    match kind {
        OpKind::Copy(Direction::WorkingToOrigin) => w,
        OpKind::Delete(Side::Origin) => None,
        _ => o,
    }
}

/// The state of a path on the working side after an operation.
pub open spec fn working_after_op(kind: OpKind, o: Option<Seq<char>>, w: Option<Seq<char>>) -> Option<Seq<char>> {
    match kind {
        OpKind::Copy(Direction::OriginToWorking) => o,
        OpKind::Delete(Side::Working) => None,
        _ => w,
    }
}

impl OpKind {
    /// The side whose file the operation writes or deletes.
    pub fn target(&self) -> (s: Side)
        ensures
            s == match *self {
                OpKind::Copy(Direction::OriginToWorking) => Side::Working,
                OpKind::Copy(Direction::WorkingToOrigin) => Side::Origin,
                OpKind::Delete(side) => side,
            },
    {
        match self {
            OpKind::Copy(Direction::OriginToWorking) => Side::Working,
            OpKind::Copy(Direction::WorkingToOrigin) => Side::Origin,
            OpKind::Delete(side) => *side,
        }
    }

    /// The side a copy reads from (none for a deletion).
    pub fn source(&self) -> (s: Option<Side>)
        ensures
            s == match *self {
                OpKind::Copy(Direction::OriginToWorking) => Some(Side::Origin),
                OpKind::Copy(Direction::WorkingToOrigin) => Some(Side::Working),
                OpKind::Delete(_) => None::<Side>,
            },
    {
        match self {
            OpKind::Copy(Direction::OriginToWorking) => Some(Side::Origin),
            OpKind::Copy(Direction::WorkingToOrigin) => Some(Side::Working),
            OpKind::Delete(_) => None,
        }
    }
}

/// A new baseline entry for a path: its agreed hash, or none (both sides
/// lack the file).
#[derive(Debug)]
pub struct BaselineUpdate {
    pub rel_path: String,
    pub hash: Option<String>,
}

pub struct BaselineUpdateView {
    pub rel_path: Seq<char>,
    pub hash: Option<Seq<char>>,
}

impl View for BaselineUpdate {
    type V = BaselineUpdateView;

    open spec fn view(&self) -> BaselineUpdateView {
        BaselineUpdateView {
            rel_path: self.rel_path@,
            hash: match self.hash {
                Some(h) => Some(h@),
                None => None,
            },
        }
    }
}

/// The update for a path, when both sides agree on it.
pub open spec fn update_for(
    o: Map<Seq<char>, Seq<char>>,
    w: Map<Seq<char>, Seq<char>>,
) -> spec_fn(Seq<char>) -> Option<BaselineUpdateView> {
    |k: Seq<char>|
        if lookup(o, k) == lookup(w, k) {
            Some(BaselineUpdateView { rel_path: k, hash: lookup(o, k) })
        } else {
            None
        }
}

/// The baseline updates after a run, in path order: every known path on which
/// the rescanned sides agree takes their common hash (or is removed when both
/// lack it); paths still in conflict keep their old baseline.
pub fn baseline_updates(origin: &HashIndex, working: &HashIndex, baseline: &HashIndex) -> (ups: Vec<BaselineUpdate>)
    requires
        origin.wf(),
        working.wf(),
        baseline.wf(),
    ensures
        ups@.map_values(|u: BaselineUpdate| u@) == sorted_paths(
            path_union(hash_view(origin), hash_view(working), hash_view(baseline)),
        ).filter_map(update_for(hash_view(origin), hash_view(working))),
{
    let ghost o = hash_view(origin);
    let ghost w = hash_view(working);
    let ghost b = hash_view(baseline);
    let paths = union_paths(origin, working, baseline);
    let mut ups: Vec<BaselineUpdate> = Vec::new();
    let n = paths.len();
    for i in 0..n
        invariant
            n == paths.keys().len(),
            paths.wf(),
            origin.wf(),
            working.wf(),
            o == hash_view(origin),
            w == hash_view(working),
            ups@.map_values(|u: BaselineUpdate| u@) == paths.keys().take(i as int).filter_map(update_for(o, w)),
    {
        let rel = paths.key_at(i);
        let ov = origin.get(rel.as_str());
        let wv = working.get(rel.as_str());
        let ghost k = rel@;
        let ghost before = ups@.map_values(|u: BaselineUpdate| u@);
        assert(lookup(o, k) == match ov { Some(s) => Some(s@), None => None::<Seq<char>> });
        assert(lookup(w, k) == match wv { Some(s) => Some(s@), None => None::<Seq<char>> });
        match (ov, wv) {
            (Some(a), Some(c)) => {
                if *a == *c {
                    ups.push(BaselineUpdate { rel_path: rel.clone(), hash: Some(a.clone()) });
                }
            },
            (None, None) => {
                ups.push(BaselineUpdate { rel_path: rel.clone(), hash: None });
            },
            _ => {},
        }
        proof {
            let ks = paths.keys();
            assert(ks.take(i + 1).drop_last() =~= ks.take(i as int));
            assert(ks.take(i + 1).last() == k);
            if lookup(o, k) == lookup(w, k) {
                assert(ups@.map_values(|u: BaselineUpdate| u@) =~= before + seq![
                    BaselineUpdateView { rel_path: k, hash: lookup(o, k) },
                ]);
            } else {
                assert(ups@.map_values(|u: BaselineUpdate| u@) =~= before);
            }
        }
    }
    proof {
        assert(paths.keys().take(n as int) =~= paths.keys());
        paths.lemma_view();
        lemma_sorted_paths(path_union(o, w, b), paths.keys());
    }
    ups
}

/// Writing the updates over the baseline gives the reconciled baseline: each
/// updated path takes the update's hash, every other path keeps its entry.
pub proof fn law_updates_reconcile_baseline(
    o: Map<Seq<char>, Seq<char>>,
    w: Map<Seq<char>, Seq<char>>,
    b: Map<Seq<char>, Seq<char>>,
)
    requires
        o.dom().finite(),
        w.dom().finite(),
        b.dom().finite(),
    ensures
        ({
            let ups = sorted_paths(path_union(o, w, b)).filter_map(update_for(o, w));
            &&& forall|i: int| 0 <= i < ups.len() ==> lookup(advanced_baseline(o, w, b), (#[trigger] ups[i]).rel_path)
                == ups[i].hash
            &&& forall|k: Seq<char>| !ups.map_values(|u: BaselineUpdateView| u.rel_path).contains(k) ==> lookup(
                advanced_baseline(o, w, b),
                k,
            ) == #[trigger] lookup(b, k)
            &&& strictly_sorted(ups.map_values(|u: BaselineUpdateView| u.rel_path))
        }),
{
    let ks = sorted_paths(path_union(o, w, b));
    lemma_sorted_paths(path_union(o, w, b), ks);
    let f = update_for(o, w);
    let ups = ks.filter_map(f);
    crate::sync::laws::lemma_filter_sorted(ks, f, |u: BaselineUpdateView| u.rel_path);
    assert forall|i: int| 0 <= i < ups.len() implies lookup(advanced_baseline(o, w, b), (#[trigger] ups[i]).rel_path)
        == ups[i].hash by {
        assert(f(ups[i].rel_path) == Some(ups[i]));
    }
    assert forall|k: Seq<char>| !ups.map_values(|u: BaselineUpdateView| u.rel_path).contains(k) implies lookup(
        advanced_baseline(o, w, b),
        k,
    ) == #[trigger] lookup(b, k) by {
        if lookup(o, k) == lookup(w, k) && !ks.contains(k) {
            assert(!o.contains_key(k));
        }
    }
}

/// The operation that resolves a conflict at one path by keeping one side:
/// copy the kept side over the other if it has the file, otherwise delete the
/// file on the other side.
pub open spec fn resolution_op_spec(keep: Side, origin_has: bool, working_has: bool) -> OpKind {
    match keep {
        Side::Working => if working_has {
            OpKind::Copy(Direction::WorkingToOrigin)
        } else {
            OpKind::Delete(Side::Origin)
        },
        Side::Origin => if origin_has {
            OpKind::Copy(Direction::OriginToWorking)
        } else {
            OpKind::Delete(Side::Working)
        },
    }
}

/// A one-operation plan that resolves the conflict at `rel` by keeping `keep`,
/// given which sides still have the file.
pub fn resolution_plan(rel: &str, keep: Side, origin_has: bool, working_has: bool) -> (p: Plan)
    ensures
        p@.ops == seq![PlannedOpView { rel_path: rel@, kind: resolution_op_spec(keep, origin_has, working_has) }],
        p@.conflicts.len() == 0,
{
    let kind = match keep {
        Side::Working => {
            if working_has {
                OpKind::Copy(Direction::WorkingToOrigin)
            } else {
                OpKind::Delete(Side::Origin)
            }
        },
        Side::Origin => {
            if origin_has {
                OpKind::Copy(Direction::OriginToWorking)
            } else {
                OpKind::Delete(Side::Working)
            }
        },
    };
    let p = Plan { ops: vec![PlannedOp { rel_path: rel.to_owned(), kind }], conflicts: Vec::new() };
    assert(p@.ops =~= seq![PlannedOpView { rel_path: rel@, kind }]);
    p
}

/// Resolving a conflict leaves both sides holding the kept side's content (or
/// both without the file when the kept side has none).
pub proof fn law_resolution_keeps_chosen_side(keep: Side, o: Option<Seq<char>>, w: Option<Seq<char>>)
    ensures
        ({
            let kind = resolution_op_spec(keep, o is Some, w is Some);
            let kept = match keep {
                Side::Origin => o,
                Side::Working => w,
            };
            origin_after_op(kind, o, w) == kept && working_after_op(kind, o, w) == kept
        }),
{
}

} // verus!
