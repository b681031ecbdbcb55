//! The steps of one planned operation on disk, in order, and the journal
//! record it leaves. Safety rule: the old content of a file is put into the
//! version store, and recorded as a version, before the file is overwritten
//! or deleted; every copy or deletion is journaled once, last.
use crate::sync::db::{undo_spec, JournalEntry, UndoStep};
use vstd::prelude::*;

verus! {

/// Why a version was kept.
#[derive(Debug, Clone, Copy, PartialEq, Eq, Structural)]
pub enum VersionOp {
    /// The file was about to be overwritten.
    Overwrite,
    /// The file was about to be deleted.
    Delete,
}

impl VersionOp {
    /// The name the metadata database stores.
    pub fn as_str(&self) -> (s: &'static str)
        ensures
            s@ == (match self {
                VersionOp::Overwrite => "overwrite"@,
                VersionOp::Delete => "delete"@,
            }),
    {
        match self {
            VersionOp::Overwrite => "overwrite",
            VersionOp::Delete => "delete",
        }
    }
}

/// One step of carrying out an operation on a target file.
#[derive(Debug, Clone, Copy, PartialEq, Eq, Structural)]
pub enum OpStep {
    /// Put the target's current content into the version store.
    StoreOld,
    /// Record that stored content as a version of the file.
    AddVersion(VersionOp),
    /// Copy the source over the target (atomically).
    WriteCopy,
    /// Put the target's new content into the version store.
    StoreNew,
    /// Delete the target.
    Remove,
    /// Write the journal entry of the operation.
    Journal,
}

/// The steps of copying onto a target that exists (`existed`) or not.
pub open spec fn copy_seq(existed: bool) -> Seq<OpStep> {
    if existed {
        seq![OpStep::StoreOld, OpStep::AddVersion(VersionOp::Overwrite), OpStep::WriteCopy, OpStep::StoreNew, OpStep::Journal]
    } else {
        seq![OpStep::WriteCopy, OpStep::StoreNew, OpStep::Journal]
    }
}

/// The steps of deleting a target that exists (`existed`) or not: a target
/// that is already gone needs nothing.
pub open spec fn delete_seq(existed: bool) -> Seq<OpStep> {
    if existed {
        seq![OpStep::StoreOld, OpStep::AddVersion(VersionOp::Delete), OpStep::Remove, OpStep::Journal]
    } else {
        Seq::empty()
    }
}

/// The steps of copying a file onto its target.
pub fn copy_steps(target_exists: bool) -> (s: Vec<OpStep>)
    ensures
        s@ == copy_seq(target_exists),
{
    if target_exists {
        let s = vec![OpStep::StoreOld, OpStep::AddVersion(VersionOp::Overwrite), OpStep::WriteCopy, OpStep::StoreNew, OpStep::Journal];
        assert(s@ =~= copy_seq(target_exists));
        s
    } else {
        let s = vec![OpStep::WriteCopy, OpStep::StoreNew, OpStep::Journal];
        assert(s@ =~= copy_seq(target_exists));
        s
    }
}

/// The steps of deleting a target file.
pub fn delete_steps(target_exists: bool) -> (s: Vec<OpStep>)
    ensures
        s@ == delete_seq(target_exists),
{
    if target_exists {
        let s = vec![OpStep::StoreOld, OpStep::AddVersion(VersionOp::Delete), OpStep::Remove, OpStep::Journal];
        assert(s@ =~= delete_seq(target_exists));
        s
    } else {
        let s: Vec<OpStep> = Vec::new();
        assert(s@ =~= delete_seq(target_exists));
        s
    }
}

/// A step that destroys the target's current content.
pub open spec fn destroys(s: OpStep) -> bool {
    s == OpStep::WriteCopy || s == OpStep::Remove
}

/// Before position `i`, the old content was stored and then recorded as a
/// version.
pub open spec fn kept_before(steps: Seq<OpStep>, i: int) -> bool {
    exists|j: int, k: int| #![trigger steps[j], steps[k]] 0 <= j < k < i && steps[j] == OpStep::StoreOld && steps[k] is AddVersion
}

/// Every step that destroys an existing target's content comes after its old
/// content was stored and versioned.
pub open spec fn keeps_old_content(steps: Seq<OpStep>, existed: bool) -> bool {
    forall|i: int| 0 <= i < steps.len() && existed && destroys(#[trigger] steps[i]) ==> kept_before(steps, i)
}

/// The operation is journaled exactly once, as its last step.
pub open spec fn journaled_once_last(steps: Seq<OpStep>) -> bool {
    &&& steps.len() > 0
    &&& steps.last() == OpStep::Journal
    &&& forall|i: int| 0 <= i < steps.len() - 1 ==> #[trigger] steps[i] != OpStep::Journal
}

/// Nothing is stored, overwritten or deleted: no step at all.
pub open spec fn does_nothing(steps: Seq<OpStep>) -> bool {
    steps.len() == 0
}

/// The safety rule: a copy or a delete never overwrites or removes content
/// that has not first been put into the version store and recorded as a
/// version, and each operation that touches a file is journaled once, as its
/// last step. Deleting a file that is already gone does nothing.
pub proof fn law_old_content_kept_first(existed: bool)
    ensures
        keeps_old_content(copy_seq(existed), existed),
        journaled_once_last(copy_seq(existed)),
        keeps_old_content(delete_seq(existed), existed),
        existed ==> journaled_once_last(delete_seq(existed)),
        !existed ==> does_nothing(delete_seq(existed)),
{
    let c = copy_seq(existed);
    let d = delete_seq(existed);
    if existed {
        assert(c[1] is AddVersion);
        assert(d[1] is AddVersion);
        assert forall|i: int| 0 <= i < c.len() && existed && destroys(#[trigger] c[i]) implies kept_before(c, i) by {
            assert(i == 2);
            assert(c[0] == OpStep::StoreOld);
        }
        assert forall|i: int| 0 <= i < d.len() && existed && destroys(#[trigger] d[i]) implies kept_before(d, i) by {
            assert(i == 2);
            assert(d[0] == OpStep::StoreOld);
        }
    }
}

/// The journal record of a copy: `old` is the hash under which the
/// overwritten content was stored (None: the target did not exist), `new` the
/// hash of the content written, `pre_base` the path's baseline before the run.
pub fn copy_record(
    run_id: String,
    ts: i64,
    pair: String,
    rel_path: String,
    abs_path: String,
    old: Option<String>,
    new: String,
    pre_base: Option<String>,
) -> (e: JournalEntry)
    ensures
        e.kind@ == "copy"@,
        e.run_id == run_id,
        e.ts == ts,
        e.pair == pair,
        e.rel_path == rel_path,
        e.abs_path == abs_path,
        e.pre_hash == old,
        e.post_hash == Some(new),
        e.pre_base == pre_base,
{
    JournalEntry {
        run_id,
        ts,
        kind: "copy".to_owned(),
        pair,
        rel_path,
        abs_path,
        pre_hash: old,
        post_hash: Some(new),
        pre_base,
    }
}

/// The journal record of a deletion: `old` is the hash under which the
/// deleted content was stored, `pre_base` the path's baseline before the run.
pub fn delete_record(
    run_id: String,
    ts: i64,
    pair: String,
    rel_path: String,
    abs_path: String,
    old: String,
    pre_base: Option<String>,
) -> (e: JournalEntry)
    ensures
        e.kind@ == "delete"@,
        e.run_id == run_id,
        e.ts == ts,
        e.pair == pair,
        e.rel_path == rel_path,
        e.abs_path == abs_path,
        e.pre_hash == Some(old),
        e.post_hash is None,
        e.pre_base == pre_base,
{
    JournalEntry {
        run_id,
        ts,
        kind: "delete".to_owned(),
        pair,
        rel_path,
        abs_path,
        pre_hash: Some(old),
        post_hash: None,
        pre_base,
    }
}

/// The journal record of a baseline move made when a run reconciles: `new`
/// is the path's new baseline (None: dropped), `pre_base` its baseline before
/// the run. No file is touched, so undoing it only puts the baseline back.
pub fn baseline_record(
    run_id: String,
    ts: i64,
    pair: String,
    rel_path: String,
    new: Option<String>,
    pre_base: Option<String>,
) -> (e: JournalEntry)
    ensures
        e.kind@ == "baseline"@,
        e.run_id == run_id,
        e.ts == ts,
        e.pair == pair,
        e.rel_path == rel_path,
        e.abs_path@.len() == 0,
        e.pre_hash is None,
        e.post_hash == new,
        e.pre_base == pre_base,
        undo_spec(e) == UndoStep::Keep,
{
    let e = JournalEntry {
        run_id,
        ts,
        kind: "baseline".to_owned(),
        pair,
        rel_path,
        abs_path: String::new(),
        pre_hash: None,
        post_hash: new,
        pre_base,
    };
    proof {
        reveal_strlit("baseline");
        reveal_strlit("copy");
        reveal_strlit("delete");
        assert("baseline"@.len() != "copy"@.len());
        assert("baseline"@.len() != "delete"@.len());
    }
    e
}

/// Undoing a journaled operation puts back exactly the content kept before
/// it: a copy's overwritten content (or, if the copy created the file,
/// removes it), a deletion's deleted content.
pub proof fn law_undo_puts_back_kept_content(e: JournalEntry, old: Option<String>)
    requires
        (e.kind@ == "copy"@ && e.pre_hash == old) || (e.kind@ == "delete"@ && e.pre_hash == old && old is Some),
    ensures
        match old {
            Some(h) => undo_spec(e) == UndoStep::Restore(h),
            None => undo_spec(e) == UndoStep::Remove,
        },
{
    reveal_strlit("copy");
    reveal_strlit("delete");
    assert("copy"@.len() != "delete"@.len());
}

} // verus!
