//! One-way incremental backup of a folder pair: the decisions of the walk
//! (what to copy, what to skip, what mirror mode deletes) and the tally.
use crate::path_map::PathMap;
use vstd::prelude::*;

verus! {

/// Where the backup writes its log lines; the service logs to files, tests
/// to nothing.
pub trait SyncLog {
    fn log(&self, level: &str, msg: &str);
}

/// Tally of one backup run.
#[derive(Debug, Clone, Copy)]
pub struct SyncResult {
    pub copied: u64,
    pub deleted: u64,
    pub skipped: u64,
    pub errors: u64,
    pub bytes: u64,
}

impl Default for SyncResult {
    fn default() -> (r: Self)
        ensures
            r.copied == 0 && r.deleted == 0 && r.skipped == 0 && r.errors == 0 && r.bytes == 0,
    {
        SyncResult { copied: 0, deleted: 0, skipped: 0, errors: 0, bytes: 0 }
    }
}

impl SyncResult {
    /// Adds another run's tally to this one.
    pub fn absorb(&mut self, other: &SyncResult)
        requires
            old(self).copied + other.copied <= u64::MAX,
            old(self).deleted + other.deleted <= u64::MAX,
            old(self).skipped + other.skipped <= u64::MAX,
            old(self).errors + other.errors <= u64::MAX,
            old(self).bytes + other.bytes <= u64::MAX,
        ensures
            final(self).copied == old(self).copied + other.copied,
            final(self).deleted == old(self).deleted + other.deleted,
            final(self).skipped == old(self).skipped + other.skipped,
            final(self).errors == old(self).errors + other.errors,
            final(self).bytes == old(self).bytes + other.bytes,
    {
        self.copied = self.copied + other.copied;
        self.deleted = self.deleted + other.deleted;
        self.skipped = self.skipped + other.skipped;
        self.errors = self.errors + other.errors;
        self.bytes = self.bytes + other.bytes;
    }
}

/// Size and modification time (whole seconds since the epoch) of a file.
#[derive(Debug, Clone, Copy, PartialEq, Eq, Structural)]
pub struct FileStamp {
    pub len: u64,
    pub mtime_secs: i64,
}

/// Whether a source file must be copied to its destination: copy when the
/// destination is missing, the sizes differ, or the source is newer by more
/// than the two seconds of timestamp tolerance. A missing source is never copied.
pub open spec fn need_copy_spec(src: Option<FileStamp>, dst: Option<FileStamp>) -> bool {
    match (src, dst) {
        (None, _) => false,
        (Some(_), None) => true,
        (Some(s), Some(d)) => s.len != d.len || s.mtime_secs > d.mtime_secs + 2,
    }
}

/// Decides whether the source file (its stamp, if readable) must be copied
/// over the destination file (its stamp, if present).
pub fn need_copy(src: Option<FileStamp>, dst: Option<FileStamp>) -> (b: bool)
    ensures
        b == need_copy_spec(src, dst),
        src is None ==> !b,
        src is Some && dst is None ==> b,
        src is Some && dst is Some && src->0.len != dst->0.len ==> b,
        src is Some && dst is Some && src->0.len == dst->0.len ==> (b <==> src->0.mtime_secs
            > dst->0.mtime_secs + 2),
{
    match (src, dst) {
        (None, _) => false,
        (Some(_), None) => true,
        (Some(s), Some(d)) => {
            if s.len != d.len {
                true
            } else {
                (s.mtime_secs as i128) > (d.mtime_secs as i128) + 2
            }
        },
    }
}

/// What the walk of the source found at one entry.
#[derive(Debug, Clone, Copy, PartialEq, Eq, Structural)]
pub enum SourceEntry {
    Dir,
    /// A regular file; `changed` is the verdict of `need_copy` for it.
    File { changed: bool },
    /// Symlinks and special files.
    Other,
}

/// What to do with one source entry.
#[derive(Debug, Clone, Copy, PartialEq, Eq, Structural)]
pub enum EntryAction {
    /// Nothing (the root itself, symlinks, special files).
    Ignore,
    /// Make sure the matching destination folder exists.
    CreateDir,
    /// Copy the file to the destination.
    Copy,
    /// The file is unchanged; it was counted as skipped.
    Skip,
}

/// The state of one pair's backup run: the tally and the relative paths
/// present in the source.
pub struct PairRun {
    result: SyncResult,
    present: PathMap<()>,
}

/// A tally with every count at zero.
pub open spec fn zero_tally() -> SyncResult {
    SyncResult { copied: 0, deleted: 0, skipped: 0, errors: 0, bytes: 0 }
}

impl PairRun {
    /// The tally so far.
    pub closed spec fn tally(&self) -> SyncResult {
        self.result
    }

    /// The tally so far.
    pub fn result(&self) -> (r: SyncResult)
        ensures
            r == self.tally(),
    {
        self.result
    }

    /// The relative paths seen in the source so far.
    pub closed spec fn present(&self) -> Set<Seq<char>> {
        self.present.view().dom()
    }

    pub closed spec fn inv(&self) -> bool {
        self.present.wf()
    }

    /// A run that has seen nothing yet.
    pub fn new() -> (r: Self)
        ensures
            r.inv(),
            r.present() == Set::<Seq<char>>::empty(),
            r.tally() == zero_tally(),
    {
        let r = PairRun { result: SyncResult { copied: 0, deleted: 0, skipped: 0, errors: 0, bytes: 0 }, present: PathMap::new() };
        assert(r.present() =~= Set::<Seq<char>>::empty());
        r
    }

    /// Counts an error (missing source, destination that cannot be made,
    /// folder that cannot be created, copy or removal that failed).
    pub fn record_error(&mut self)
        requires
            old(self).tally().errors < u64::MAX,
        ensures
            final(self).tally() == (SyncResult { errors: (old(self).tally().errors + 1) as u64, ..old(self).tally() }),
            final(self).present() == old(self).present(),
            final(self).inv() == old(self).inv(),
    {
        self.result.errors = self.result.errors + 1;
    }

    /// Records a source entry at relative path `rel` (empty for the root) and
    /// says what to do with it; an unchanged file is counted as skipped.
    pub fn visit(&mut self, rel: String, entry: SourceEntry) -> (a: EntryAction)
        requires
            old(self).inv(),
            old(self).tally().skipped < u64::MAX,
        ensures
            final(self).inv(),
            final(self).present() == (if rel@.len() == 0 { old(self).present() } else { old(self).present().insert(rel@) }),
            a == (if rel@.len() == 0 {
                EntryAction::Ignore
            } else {
                match entry {
                    SourceEntry::Dir => EntryAction::CreateDir,
                    SourceEntry::Other => EntryAction::Ignore,
                    SourceEntry::File { changed } => if changed {
                        EntryAction::Copy
                    } else {
                        EntryAction::Skip
                    },
                }
            }),
            final(self).tally() == (if a == EntryAction::Skip {
                SyncResult { skipped: (old(self).tally().skipped + 1) as u64, ..old(self).tally() }
            } else {
                old(self).tally()
            }),
    {
        if rel.as_str().is_empty() {
            return EntryAction::Ignore;
        }
        self.present.insert(rel, ());
        proof {
            assert(self.present.view().dom() =~= old(self).present.view().dom().insert(rel@));
        }
        match entry {
            SourceEntry::Dir => EntryAction::CreateDir,
            SourceEntry::Other => EntryAction::Ignore,
            SourceEntry::File { changed } => {
                if changed {
                    EntryAction::Copy
                } else {
                    self.result.skipped = self.result.skipped + 1;
                    EntryAction::Skip
                }
            },
        }
    }

    /// Counts a completed copy of `bytes` bytes.
    pub fn record_copy(&mut self, bytes: u64)
        requires
            old(self).tally().copied < u64::MAX,
            old(self).tally().bytes + bytes <= u64::MAX,
        ensures
            final(self).tally() == (SyncResult {
                copied: (old(self).tally().copied + 1) as u64,
                bytes: (old(self).tally().bytes + bytes) as u64,
                ..old(self).tally()
            }),
            final(self).present() == old(self).present(),
            final(self).inv() == old(self).inv(),
    {
        self.result.copied = self.result.copied + 1;
        self.result.bytes = self.result.bytes + bytes;
    }

    /// Whether the destination entry at relative path `rel` (empty for the
    /// root) is to be deleted: only in mirror mode, and only when it is no
    /// longer in the source. In keep mode nothing is ever deleted.
    pub fn is_stale(&self, mirror: bool, rel: &str) -> (b: bool)
        requires
            self.inv(),
        ensures
            b == (mirror && rel@.len() > 0 && !self.present().contains(rel@)),
    {
        if !mirror || rel.is_empty() {
            return false;
        }
        !self.present.contains(rel)
    }

    /// Counts a completed deletion at the destination.
    pub fn record_delete(&mut self)
        requires
            old(self).tally().deleted < u64::MAX,
        ensures
            final(self).tally() == (SyncResult { deleted: (old(self).tally().deleted + 1) as u64, ..old(self).tally() }),
            final(self).present() == old(self).present(),
            final(self).inv() == old(self).inv(),
    {
        self.result.deleted = self.result.deleted + 1;
    }
}

/// An unchanged file is never copied again: identical stamps on both sides
/// mean no copy, so a second run over an unchanged tree skips every file.
pub proof fn law_unchanged_file_not_copied(s: FileStamp)
    ensures
        !need_copy_spec(Some(s), Some(s)),
{
}

/// A file missing at the destination is always copied; a source that cannot
/// be read is never copied.
pub proof fn law_missing_destination_copied(s: FileStamp, d: Option<FileStamp>)
    ensures
        need_copy_spec(Some(s), None),
        !need_copy_spec(None, d),
{
}

/// A size change in either direction is always copied: a source that became
/// shorter or longer than its backup is copied again, whatever the times say.
pub proof fn law_size_change_copied(s: FileStamp, d: FileStamp)
    requires
        s.len != d.len,
    ensures
        need_copy_spec(Some(s), Some(d)),
        need_copy_spec(Some(d), Some(s)),
{
}

/// With equal sizes, a file is copied exactly when the source is newer than
/// the backup by more than the two seconds of timestamp tolerance: a backup
/// that is newer, as new, or at most two seconds older is left alone.
pub proof fn law_same_size_copied_only_when_newer(s: FileStamp, d: FileStamp)
    requires
        s.len == d.len,
    ensures
        need_copy_spec(Some(s), Some(d)) <==> s.mtime_secs - d.mtime_secs > 2,
        s.mtime_secs <= d.mtime_secs + 2 ==> !need_copy_spec(Some(s), Some(d)),
{
}

} // verus!
