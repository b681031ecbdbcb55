//! Three-way diff: compares origin and working with the baseline to produce a
//! sync plan (safe operations plus conflicts for the user to decide).
use crate::path_map::{lemma_sorted_paths, sorted_paths, PathMap};
use crate::sync::types::{
    hash_view, Change, Conflict, ConflictKind, ConflictView, Direction, HashIndex, OpKind, Plan,
    PlanView, PlannedOp, PlannedOpView, Side,
};
use vstd::prelude::*;

verus! {

/// The entry of `m` at `k`, if any.
pub open spec fn lookup(m: Map<Seq<char>, Seq<char>>, k: Seq<char>) -> Option<Seq<char>> {
    if m.contains_key(k) {
        Some(m[k])
    } else {
        None
    }
}

/// How a side's current state `cur` differs from the baseline `base`.
pub open spec fn change_of(cur: Option<Seq<char>>, base: Option<Seq<char>>) -> Change {
    match (cur, base) {
        (None, None) => Change::Unchanged,
        (Some(_), None) => Change::Created,
        (None, Some(_)) => Change::Deleted,
        (Some(c), Some(b)) => if c == b {
            Change::Unchanged
        } else {
            Change::Modified
        },
    }
}

/// What the plan holds for one path.
pub enum Decision {
    /// Nothing to do: both sides already agree.
    Nothing,
    /// A safe operation carrying the one changed side over to the other.
    Propagate(OpKind),
    /// Both sides changed, differently.
    Clash(ConflictKind),
}

/// The decision for one path from its origin, working and baseline hashes:
/// agreeing sides need nothing; a side equal to the baseline takes the other
/// side's change; otherwise the sides conflict.
pub open spec fn decide(o: Option<Seq<char>>, w: Option<Seq<char>>, b: Option<Seq<char>>) -> Decision {
    if o == w {
        Decision::Nothing
    } else if o == b {
        if w is None {
            Decision::Propagate(OpKind::Delete(Side::Origin))
        } else {
            Decision::Propagate(OpKind::Copy(Direction::WorkingToOrigin))
        }
    } else if w == b {
        if o is None {
            Decision::Propagate(OpKind::Delete(Side::Working))
        } else {
            Decision::Propagate(OpKind::Copy(Direction::OriginToWorking))
        }
    } else if o is None {
        Decision::Clash(ConflictKind::EditVsDelete { deleted: Side::Origin })
    } else if w is None {
        Decision::Clash(ConflictKind::EditVsDelete { deleted: Side::Working })
    } else if b is None {
        Decision::Clash(ConflictKind::BothCreated)
    } else {
        Decision::Clash(ConflictKind::BothModified)
    }
}

pub open spec fn decide_at(
    o: Map<Seq<char>, Seq<char>>,
    w: Map<Seq<char>, Seq<char>>,
    b: Map<Seq<char>, Seq<char>>,
    k: Seq<char>,
) -> Decision {
    decide(lookup(o, k), lookup(w, k), lookup(b, k))
}

/// The planned operation for a path, if its decision is one.
pub open spec fn op_for(
    o: Map<Seq<char>, Seq<char>>,
    w: Map<Seq<char>, Seq<char>>,
    b: Map<Seq<char>, Seq<char>>,
) -> spec_fn(Seq<char>) -> Option<PlannedOpView> {
    |k: Seq<char>|
        match decide_at(o, w, b, k) {
            Decision::Propagate(kind) => Some(PlannedOpView { rel_path: k, kind }),
            _ => None,
        }
}

/// The conflict for a path, if its decision is one.
pub open spec fn conflict_for(
    o: Map<Seq<char>, Seq<char>>,
    w: Map<Seq<char>, Seq<char>>,
    b: Map<Seq<char>, Seq<char>>,
) -> spec_fn(Seq<char>) -> Option<ConflictView> {
    |k: Seq<char>|
        match decide_at(o, w, b, k) {
            Decision::Clash(kind) => Some(ConflictView { rel_path: k, kind }),
            _ => None,
        }
}

/// The plan over the paths `keys`, taken in that order.
pub open spec fn plan_over(
    keys: Seq<Seq<char>>,
    o: Map<Seq<char>, Seq<char>>,
    w: Map<Seq<char>, Seq<char>>,
    b: Map<Seq<char>, Seq<char>>,
) -> PlanView {
    PlanView { ops: keys.filter_map(op_for(o, w, b)), conflicts: keys.filter_map(conflict_for(o, w, b)) }
}

/// Every path known to any of the three indexes.
pub open spec fn path_union(
    o: Map<Seq<char>, Seq<char>>,
    w: Map<Seq<char>, Seq<char>>,
    b: Map<Seq<char>, Seq<char>>,
) -> Set<Seq<char>> {
    o.dom() + w.dom() + b.dom()
}

/// The plan for three indexes: the decision of every known path, in path order.
pub open spec fn three_way_spec(
    o: Map<Seq<char>, Seq<char>>,
    w: Map<Seq<char>, Seq<char>>,
    b: Map<Seq<char>, Seq<char>>,
) -> PlanView {
    plan_over(sorted_paths(path_union(o, w, b)), o, w, b)
}

pub open spec fn opt_view(x: Option<&String>) -> Option<Seq<char>> {
    match x {
        Some(s) => Some(s@),
        None => None,
    }
}

fn same_entry(a: Option<&String>, b: Option<&String>) -> (r: bool)
    ensures
        r == (opt_view(a) == opt_view(b)),
{
    match (a, b) {
        (None, None) => true,
        (Some(x), Some(y)) => *x == *y,
        _ => false,
    }
}

/// Classifies one side's change (current value `cur`) against the baseline `base`.
fn classify(cur: Option<&String>, base: Option<&String>) -> (c: Change)
    ensures
        c == change_of(opt_view(cur), opt_view(base)),
{
    match (cur, base) {
        (None, None) => Change::Unchanged,
        (Some(_), None) => Change::Created,
        (None, Some(_)) => Change::Deleted,
        (Some(c), Some(b)) => {
            if *c == *b {
                Change::Unchanged
            } else {
                Change::Modified
            }
        },
    }
}

/// Adds every key of `m` to the key set `u`.
fn add_keys<V>(u: &mut PathMap<()>, m: &PathMap<V>)
    requires
        old(u).wf(),
        m.wf(),
    ensures
        final(u).wf(),
        final(u).view().dom() == old(u).view().dom() + m.view().dom(),
{
    proof { m.lemma_view(); }
    let n = m.len();
    for i in 0..n
        invariant
            n == m.keys().len(),
            m.wf(),
            u.wf(),
            forall|k: Seq<char>| #[trigger] m.view().contains_key(k) <==> m.keys().contains(k),
            forall|k: Seq<char>| #[trigger] u.view().contains_key(k)
                <==> old(u).view().contains_key(k) || m.keys().take(i as int).contains(k),
    {
        let k = m.key_at(i);
        u.insert(k.clone(), ());
        proof {
            assert(m.keys().take(i + 1) =~= m.keys().take(i as int).push(m.keys()[i as int]));
            assert forall|x: Seq<char>| #[trigger] u.view().contains_key(x)
                <==> old(u).view().contains_key(x) || m.keys().take(i + 1).contains(x) by {
                if m.keys().take(i as int).contains(x) {
                    let j = choose|j: int| 0 <= j < i && #[trigger] m.keys().take(i as int)[j] == x;
                    assert(m.keys().take(i + 1)[j] == x);
                }
                if m.keys().take(i + 1).contains(x) {
                    let j = choose|j: int| 0 <= j < i + 1 && #[trigger] m.keys().take(i + 1)[j] == x;
                    if j < i {
                        assert(m.keys().take(i as int)[j] == x);
                    }
                }
                assert(m.keys().take(i + 1)[i as int] == k@);
            }
        }
    }
    proof {
        assert(m.keys().take(n as int) =~= m.keys());
        assert(u.view().dom() =~= old(u).view().dom() + m.view().dom());
    }
}

/// The set of paths known to any of the three indexes.
pub(crate) fn union_paths(origin: &HashIndex, working: &HashIndex, baseline: &HashIndex) -> (paths: PathMap<()>)
    requires
        origin.wf(),
        working.wf(),
        baseline.wf(),
    ensures
        paths.wf(),
        paths.view().dom() == path_union(hash_view(origin), hash_view(working), hash_view(baseline)),
{
    let mut paths: PathMap<()> = PathMap::new();
    add_keys(&mut paths, origin);
    add_keys(&mut paths, working);
    add_keys(&mut paths, baseline);
    proof {
        assert(paths.view().dom() =~= path_union(hash_view(origin), hash_view(working), hash_view(baseline)));
    }
    paths
}

/// Compares the three sides and returns the plan (safe operations plus conflicts).
pub fn three_way(origin: &HashIndex, working: &HashIndex, baseline: &HashIndex) -> (plan: Plan)
    requires
        origin.wf(),
        working.wf(),
        baseline.wf(),
    ensures
        plan@ == three_way_spec(hash_view(origin), hash_view(working), hash_view(baseline)),
{
    let ghost o = hash_view(origin);
    let ghost w = hash_view(working);
    let ghost b = hash_view(baseline);
    let mut plan = Plan::default();

    let paths = union_paths(origin, working, baseline);

    let n = paths.len();
    for i in 0..n
        invariant
            n == paths.keys().len(),
            paths.wf(),
            origin.wf(),
            working.wf(),
            baseline.wf(),
            o == hash_view(origin),
            w == hash_view(working),
            b == hash_view(baseline),
            plan@.ops == paths.keys().take(i as int).filter_map(op_for(o, w, b)),
            plan@.conflicts == paths.keys().take(i as int).filter_map(conflict_for(o, w, b)),
    {
        let path = paths.key_at(i);
        let ov = origin.get(path.as_str());
        let wv = working.get(path.as_str());
        let bv = baseline.get(path.as_str());
        let ghost k = path@;
        assert(lookup(o, k) == opt_view(ov));
        assert(lookup(w, k) == opt_view(wv));
        assert(lookup(b, k) == opt_view(bv));
        let oc = classify(ov, bv);
        let wc = classify(wv, bv);
        let ghost before = plan@;

        match (oc, wc) {
            // Neither side changed.
            (Change::Unchanged, Change::Unchanged) => {},
            // Only origin changed -> carry it over to working.
            (_, Change::Unchanged) => match oc {
                Change::Deleted => plan.ops.push(
                    PlannedOp { rel_path: path.clone(), kind: OpKind::Delete(Side::Working) },
                ),
                Change::Created | Change::Modified => plan.ops.push(
                    PlannedOp {
                        rel_path: path.clone(),
                        kind: OpKind::Copy(Direction::OriginToWorking),
                    },
                ),
                Change::Unchanged => {},
            },
            // Only working changed -> carry it back to origin (reverse sync).
            (Change::Unchanged, _) => match wc {
                Change::Deleted => plan.ops.push(
                    PlannedOp { rel_path: path.clone(), kind: OpKind::Delete(Side::Origin) },
                ),
                Change::Created | Change::Modified => plan.ops.push(
                    PlannedOp {
                        rel_path: path.clone(),
                        kind: OpKind::Copy(Direction::WorkingToOrigin),
                    },
                ),
                Change::Unchanged => {},
            },
            // Both sides changed.
            _ => {
                if same_entry(ov, wv) {
                    // Converged: both reached the same state.
                } else if ov.is_none() {
                    plan.conflicts.push(
                        Conflict {
                            rel_path: path.clone(),
                            kind: ConflictKind::EditVsDelete { deleted: Side::Origin },
                        },
                    );
                } else if wv.is_none() {
                    plan.conflicts.push(
                        Conflict {
                            rel_path: path.clone(),
                            kind: ConflictKind::EditVsDelete { deleted: Side::Working },
                        },
                    );
                } else if bv.is_none() {
                    plan.conflicts.push(
                        Conflict { rel_path: path.clone(), kind: ConflictKind::BothCreated },
                    );
                } else {
                    plan.conflicts.push(
                        Conflict { rel_path: path.clone(), kind: ConflictKind::BothModified },
                    );
                }
            },
        }
        proof {
            let ks = paths.keys();
            assert(ks.take(i + 1).drop_last() =~= ks.take(i as int));
            assert(ks.take(i + 1).last() == k);
            let fo = op_for(o, w, b);
            let fc = conflict_for(o, w, b);
            match decide(lookup(o, k), lookup(w, k), lookup(b, k)) {
                Decision::Nothing => {
                    assert(plan@.ops =~= before.ops);
                    assert(plan@.conflicts =~= before.conflicts);
                },
                Decision::Propagate(kind) => {
                    assert(plan@.ops =~= before.ops + seq![PlannedOpView { rel_path: k, kind }]);
                    assert(plan@.conflicts =~= before.conflicts);
                },
                Decision::Clash(kind) => {
                    assert(plan@.ops =~= before.ops);
                    assert(plan@.conflicts =~= before.conflicts + seq![ConflictView { rel_path: k, kind }]);
                },
            }
        }
    }
    proof {
        assert(paths.keys().take(n as int) =~= paths.keys());
        paths.lemma_view();
        lemma_sorted_paths(path_union(o, w, b), paths.keys());
    }
    plan
}

} // verus!
