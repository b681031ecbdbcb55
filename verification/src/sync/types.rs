//! Shared data types of the two-way sync engine.
use crate::path_map::PathMap;
use vstd::prelude::*;

verus! {

/// Metadata of one file in an index (stat fast path plus content hash).
#[derive(Debug)]
pub struct Meta {
    pub size: u64,
    pub mtime: i64,
    pub hash: String,
}

impl Clone for Meta {
    fn clone(&self) -> (r: Self)
        ensures
            r == *self,
    {
        Meta { size: self.size, mtime: self.mtime, hash: self.hash.clone() }
    }
}

/// Full index: relative path -> metadata.
pub type MetaIndex = PathMap<Meta>;

/// Reduced index used by the diff: relative path -> content hash.
pub type HashIndex = PathMap<String>;

/// The content hashes of an index, as a map of character sequences.
pub open spec fn hash_view(idx: &HashIndex) -> Map<Seq<char>, Seq<char>> {
    idx.view().map_values(|v: String| v@)
}

/// The content hashes held by a metadata index.
pub open spec fn meta_hashes(idx: &MetaIndex) -> Map<Seq<char>, Seq<char>> {
    idx.view().map_values(|m: Meta| m.hash@)
}

/// Keeps only the content hash of every entry.
pub fn to_hash_index(m: &MetaIndex) -> (h: HashIndex)
    requires
        m.wf(),
    ensures
        h.wf(),
        hash_view(&h) == meta_hashes(m),
{
    let mut h: HashIndex = PathMap::new();
    let n = m.len();
    proof { m.lemma_view(); }
    for i in 0..n
        invariant
            n == m.keys().len(),
            m.wf(),
            h.wf(),
            forall|k: Seq<char>| #[trigger] h.view().contains_key(k) <==> m.keys().take(i as int).contains(k),
            forall|k: Seq<char>| #[trigger] h.view().contains_key(k) ==> h.view()[k]@ == m.view()[k].hash@,
            forall|j: int| 0 <= j < m.keys().len() ==> #[trigger] m.view().contains_key(m.keys()[j])
                && m.view()[m.keys()[j]] == m.values()[j],
            forall|k: Seq<char>| #[trigger] m.view().contains_key(k) <==> m.keys().contains(k),
    {
        let k = m.key_at(i);
        let v = m.value_at(i);
        let ghost before = h.view();
        h.insert(k.clone(), v.hash.clone());
        proof {
            assert(k@ == m.keys()[i as int]);
            assert(m.view().contains_key(m.keys()[i as int]));
            assert(m.view()[k@] == *v);
            assert(h.view() == before.insert(k@, v.hash));
            assert(m.keys().take(i + 1)[i as int] == k@);
            assert(m.keys().take(i + 1) =~= m.keys().take(i as int).push(m.keys()[i as int]));
            assert forall|x: Seq<char>| #[trigger] h.view().contains_key(x) <==> m.keys().take(i + 1).contains(x) by {
                if m.keys().take(i as int).contains(x) {
                    let j = choose|j: int| 0 <= j < i && #[trigger] m.keys().take(i as int)[j] == x;
                    assert(m.keys().take(i + 1)[j] == x);
                }
                if x != k@ {
                    assert(h.view().contains_key(x) == before.contains_key(x));
                }
                if m.keys().take(i + 1).contains(x) {
                    let j = choose|j: int| 0 <= j < i + 1 && #[trigger] m.keys().take(i + 1)[j] == x;
                    if j < i {
                        assert(m.keys().take(i as int)[j] == x);
                    }
                }
            }
        }
    }
    proof {
        assert(m.keys().take(n as int) =~= m.keys());
        assert(hash_view(&h) =~= meta_hashes(m));
    }
    h
}

/// A side taking part in the sync.
#[derive(Debug, Clone, Copy, PartialEq, Eq, Structural)]
pub enum Side {
    Origin,
    Working,
}

impl Side {
    /// The name stored in the database for this side.
    pub fn as_str(&self) -> (s: &'static str)
        ensures
            s@ == (match *self {
                Side::Origin => "origin"@,
                Side::Working => "working"@,
            }),
    {
        match self {
            Side::Origin => "origin",
            Side::Working => "working",
        }
    }
}

/// How one side changed relative to the baseline.
#[derive(Debug, Clone, Copy, PartialEq, Eq, Structural)]
pub enum Change {
    Unchanged,
    Created,
    Modified,
    Deleted,
}

/// Direction of a propagating copy.
#[derive(Debug, Clone, Copy, PartialEq, Eq, Structural)]
pub enum Direction {
    OriginToWorking,
    WorkingToOrigin,
}

/// One safe (non-conflicting) operation of a plan.
#[derive(Debug, Clone, Copy, PartialEq, Eq, Structural)]
pub enum OpKind {
    Copy(Direction),
    Delete(Side),
}

#[derive(Debug, Clone)]
pub struct PlannedOp {
    pub rel_path: String,
    pub kind: OpKind,
}

/// A planned operation, with its path as characters.
pub struct PlannedOpView {
    pub rel_path: Seq<char>,
    pub kind: OpKind,
}

impl View for PlannedOp {
    type V = PlannedOpView;

    open spec fn view(&self) -> PlannedOpView {
        PlannedOpView { rel_path: self.rel_path@, kind: self.kind }
    }
}

/// Kind of conflict that the user has to decide.
#[derive(Debug, Clone, Copy, PartialEq, Eq, Structural)]
pub enum ConflictKind {
    /// Both sides changed the content, differently.
    BothModified,
    /// Both sides created the file, with different content.
    BothCreated,
    /// One side deleted, the other changed.
    EditVsDelete { deleted: Side },
}

#[derive(Debug, Clone)]
pub struct Conflict {
    pub rel_path: String,
    pub kind: ConflictKind,
}

/// A conflict, with its path as characters.
pub struct ConflictView {
    pub rel_path: Seq<char>,
    pub kind: ConflictKind,
}

impl View for Conflict {
    type V = ConflictView;

    open spec fn view(&self) -> ConflictView {
        ConflictView { rel_path: self.rel_path@, kind: self.kind }
    }
}

/// A sync plan: safe operations plus conflicts.
#[derive(Debug, Clone)]
pub struct Plan {
    pub ops: Vec<PlannedOp>,
    pub conflicts: Vec<Conflict>,
}

pub struct PlanView {
    pub ops: Seq<PlannedOpView>,
    pub conflicts: Seq<ConflictView>,
}

impl View for Plan {
    type V = PlanView;

    open spec fn view(&self) -> PlanView {
        PlanView {
            ops: self.ops@.map_values(|o: PlannedOp| o@),
            conflicts: self.conflicts@.map_values(|c: Conflict| c@),
        }
    }
}

impl Default for Plan {
    fn default() -> (p: Self)
        ensures
            p.ops@.len() == 0,
            p.conflicts@.len() == 0,
    {
        Plan { ops: Vec::new(), conflicts: Vec::new() }
    }
}

impl Plan {
    /// True when the plan has neither operations nor conflicts.
    pub fn is_empty(&self) -> (b: bool)
        ensures
            b == (self.ops@.len() == 0 && self.conflicts@.len() == 0),
    {
        self.ops.len() == 0 && self.conflicts.len() == 0
    }
}

} // verus!
