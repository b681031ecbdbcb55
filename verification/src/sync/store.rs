//! Content-addressed version store: each file content is kept once, under its
//! hash. Before any overwrite or delete the old bytes are put here.
use vstd::prelude::*;
use std::path::PathBuf;
use vstd::utf8::{decode_utf8, encode_utf8_decode_utf8, is_char_boundary};
use vstd::string::StringSliceAdditionalSpecFns;

verus! {

#[verifier::external_type_specification]
#[verifier::external_body]
pub struct ExPathBuf(PathBuf);

/// `PathBuf::clone` gives an equal path. The derived `Clone` of `Rclone`
/// calls it.
pub assume_specification[ <PathBuf as Clone>::clone ](p: &PathBuf) -> (r: PathBuf)
    ensures
        r == *p,
;

/// The store rooted at a folder.
pub struct Store {
    pub root: PathBuf,
}

/// Where a blob is split: after its first two bytes (or all of a shorter hash).
pub open spec fn blob_split_at(hash: &str) -> int {
    if hash.spec_bytes().len() < 2 {
        hash.spec_bytes().len() as int
    } else {
        2
    }
}

/// The path `Path::join` makes of a base path and a relative part. The
/// separator it puts between them is `std::path::MAIN_SEPARATOR`, a constant
/// of the target the crate is built for, so in one build the result is a
/// function of the two arguments alone.
pub uninterp spec fn path_join(base: PathBuf, part: Seq<char>) -> PathBuf;

/// The name of the subfolder that holds a blob: the hash's first two bytes
/// (all of a shorter hash).
pub open spec fn blob_dir_name(hash: &str) -> Seq<char> {
    decode_utf8(hash.spec_bytes().subrange(0, blob_split_at(hash)))
}

/// The file name of a blob: the hash after its first two bytes.
pub open spec fn blob_file_name(hash: &str) -> Seq<char> {
    decode_utf8(hash.spec_bytes().subrange(blob_split_at(hash), hash.spec_bytes().len() as int))
}

/// Calls `Path::join` (`PathBuf` derefs to `Path`). Claimed: the result is a
/// function of the base path and the part. How the two are put together is
/// left unsaid.
#[verifier::external_body]
fn join_path(base: &PathBuf, part: &str) -> (r: PathBuf)
    ensures
        r == path_join(*base, part@),
{
    base.join(part)
}

/// Calls `Path::exists`. Nothing is claimed of the result: it depends on what
/// is on disk.
#[verifier::external_body]
fn path_exists(p: &PathBuf) -> bool {
    p.exists()
}

impl Store {
    /// The folder and file name of a blob: the first two bytes of the hash
    /// name a subfolder (so that no folder holds too many files), the rest
    /// names the file.
    pub fn blob_name(hash: &str) -> (parts: (&str, &str))
        requires
            hash.spec_bytes().len() <= usize::MAX,
            is_char_boundary(hash.spec_bytes(), blob_split_at(hash)),
        ensures
            parts.0.spec_bytes() == hash.spec_bytes().subrange(0, blob_split_at(hash)),
            parts.1.spec_bytes() == hash.spec_bytes().subrange(blob_split_at(hash), hash.spec_bytes().len() as int),
    {
        let n = hash.len();
        let mid = if n < 2 { n } else { 2 };
        hash.split_at(mid)
    }

    /// The path of the blob holding the content with this hash: the root
    /// joined with the hash's leading part, then with the rest.
    pub fn blob_path(&self, hash: &str) -> (p: PathBuf)
        requires
            hash.spec_bytes().len() <= usize::MAX,
            is_char_boundary(hash.spec_bytes(), blob_split_at(hash)),
        ensures
            p == path_join(path_join(self.root, blob_dir_name(hash)), blob_file_name(hash)),
    {
        let (a, b) = Self::blob_name(hash);
        proof {
            encode_utf8_decode_utf8(a@);
            encode_utf8_decode_utf8(b@);
        }
        let dir = join_path(&self.root, a);
        join_path(&dir, b)
    }

    /// Whether the store holds the content with this hash.
    pub fn has(&self, hash: &str) -> bool
        requires
            hash.spec_bytes().len() <= usize::MAX,
            is_char_boundary(hash.spec_bytes(), blob_split_at(hash)),
    {
        path_exists(&self.blob_path(hash))
    }
}

} // verus!
