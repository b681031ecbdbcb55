//! Decisions of a directory scan: path normalisation, the stat fast path that
//! reuses a known hash, and content hashing with BLAKE3.
use crate::sync::types::{Meta, MetaIndex};
use vstd::prelude::*;

verus! {

/// The BLAKE3 hash of `data`, as lowercase hexadecimal.
pub uninterp spec fn blake3_hex(data: Seq<u8>) -> Seq<char>;

/// A lowercase hexadecimal digit.
pub open spec fn is_lower_hex(c: char) -> bool {
    ('0' <= c && c <= '9') || ('a' <= c && c <= 'f')
}

/// Calls `blake3::hash` on `data` and encodes the digest with `Hash::to_hex`.
/// Claimed: the result is the BLAKE3 hash of exactly these bytes (a function of
/// them alone), written as 64 lowercase hexadecimal digits (`to_hex` writes two
/// digits from "0123456789abcdef" for each of the 32 digest bytes).
#[verifier::external_body]
fn blake3_hash_hex(data: &[u8]) -> (h: String)
    ensures
        h@ == blake3_hex(data@),
        h@.len() == 64,
        forall|i: int| 0 <= i < h@.len() ==> is_lower_hex(#[trigger] h@[i]),
{
    blake3::hash(data).to_hex().to_string()
}

/// The content hash of a file's bytes: BLAKE3, lowercase hexadecimal.
pub fn content_hash(data: &[u8]) -> (h: String)
    ensures
        h@ == blake3_hex(data@),
        h@.len() == 64,
        forall|i: int| 0 <= i < h@.len() ==> is_lower_hex(#[trigger] h@[i]),
{
    blake3_hash_hex(data)
}

/// A relative path with every backslash turned into a forward slash.
pub open spec fn slash_path(s: Seq<char>) -> Seq<char> {
    s.map_values(|c: char| if c == '\\' { '/' } else { c })
}

/// Writes a relative path with forward slashes only, so that both platforms
/// index a file under the same key.
pub fn normalize_rel(s: &str) -> (r: String)
    ensures
        r@ == slash_path(s@),
{
    let mut r = String::new();
    for c in it: s.chars()
        invariant
            it.seq() == s@,
            r@ == slash_path(it.seq().take(it.index() as int)),
    {
        let ghost before = r@;
        if c == '\\' {
            r.push('/');
        } else {
            r.push(c);
        }
        proof {
            assert(slash_path(it.seq().take(it.index() + 1)) =~= before.push(if c == '\\' { '/' } else { c }));
        }
    }
    proof {
        assert(s@.take(s@.len() as int) =~= s@);
    }
    r
}

/// Fast path of a scan: when the previous index holds this path with the same
/// size and modification time, its entry (and hash) is reused without reading
/// the file again; otherwise the file has to be hashed.
pub fn reuse_entry(prev: &MetaIndex, rel: &str, size: u64, mtime: i64) -> (r: Option<Meta>)
    requires
        prev.wf(),
    ensures
        r == (if prev.view().contains_key(rel@) && prev.view()[rel@].size == size && prev.view()[rel@].mtime
            == mtime {
            Some(prev.view()[rel@])
        } else {
            None::<Meta>
        }),
{
    match prev.get(rel) {
        Some(old) => {
            if old.size == size && old.mtime == mtime {
                Some(old.clone())
            } else {
                None
            }
        },
        None => None,
    }
}

} // verus!
