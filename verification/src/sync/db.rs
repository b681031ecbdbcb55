//! Records kept by the metadata database: file versions and the journal of
//! operations, and what undoing a journal entry means.
use crate::text::str_eq;
use vstd::prelude::*;

verus! {

/// A stored version of a file, kept before it was overwritten or deleted.
#[derive(Debug)]
pub struct Version {
    pub id: i64,
    pub pair: String,
    pub rel_path: String,
    pub side: String,
    pub hash: String,
    pub size: i64,
    pub created_at: i64,
    pub op: String,
}

/// One journaled operation of a sync run.
#[derive(Debug)]
pub struct JournalEntry {
    pub run_id: String,
    pub ts: i64,
    /// "copy" or "delete".
    pub kind: String,
    pub pair: String,
    pub rel_path: String,
    /// The file that the operation changed.
    pub abs_path: String,
    /// Content before the operation (None: the file did not exist).
    pub pre_hash: Option<String>,
    /// Content after the operation (None: the file was deleted).
    pub post_hash: Option<String>,
    /// Baseline of this path before the run (to undo it).
    pub pre_base: Option<String>,
}

/// What undoing one journal entry does to its file.
#[derive(Debug)]
pub enum UndoStep {
    /// Put back the stored content with this hash.
    Restore(String),
    /// Remove the file (it did not exist before the copy).
    Remove,
    /// Leave the file alone.
    Keep,
}

/// What undoing a journal entry does: undoing a copy puts the overwritten
/// content back, or removes the file if the copy created it; undoing a
/// deletion restores the deleted content; anything else is left alone.
pub open spec fn undo_spec(e: JournalEntry) -> UndoStep {
    if e.kind@ == "copy"@ {
        match e.pre_hash {
            Some(h) => UndoStep::Restore(h),
            None => UndoStep::Remove,
        }
    } else if e.kind@ == "delete"@ {
        match e.pre_hash {
            Some(h) => UndoStep::Restore(h),
            None => UndoStep::Keep,
        }
    } else {
        UndoStep::Keep
    }
}

impl JournalEntry {
    /// Undoing a copy puts the overwritten content back, or removes the file
    /// if the copy created it; undoing a deletion restores the deleted content.
    pub fn undo_step(&self) -> (u: UndoStep)
        ensures
            u == undo_spec(*self),
    {
        proof {
            reveal_strlit("copy");
            reveal_strlit("delete");
            assert("copy"@.len() == 4);
            assert("delete"@.len() == 6);
            assert("copy"@ != "delete"@);
        }
        if str_eq(self.kind.as_str(), "copy") {
            match &self.pre_hash {
                Some(pre) => UndoStep::Restore(pre.clone()),
                None => UndoStep::Remove,
            }
        } else if str_eq(self.kind.as_str(), "delete") {
            match &self.pre_hash {
                Some(pre) => UndoStep::Restore(pre.clone()),
                None => UndoStep::Keep,
            }
        } else {
            UndoStep::Keep
        }
    }
}

} // verus!
