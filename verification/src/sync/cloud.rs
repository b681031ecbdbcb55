//! Cloud replication through the rclone command line tool: the targets, and
//! the reading of rclone's output. Running rclone itself is left to the caller.
use crate::text::{lines_of, lines_spec, lossy_text, trim_text, trimmed, utf8_lossy};
use std::path::PathBuf;
use vstd::prelude::*;
use vstd::utf8::{decode_utf8, valid_utf8};

verus! {

/// The rclone program and the configuration file it uses.
#[derive(Clone)]
pub struct Rclone {
    pub bin: PathBuf,
    pub config: Option<PathBuf>,
}

impl Rclone {
    /// rclone at the given path, with its default configuration.
    pub fn with_bin(bin: PathBuf) -> (r: Rclone)
        ensures
            r.bin == bin,
            r.config is None,
    {
        Rclone { bin, config: None }
    }

    /// Uses the given configuration file from now on.
    pub fn set_config(&mut self, path: PathBuf)
        ensures
            final(self).bin == old(self).bin,
            final(self).config == Some(path),
    {
        self.config = Some(path);
    }

    /// The subcommand that pushes a folder: `sync` (delete extra files at the
    /// destination) in mirror mode, `copy` otherwise.
    pub fn push_subcommand(mirror: bool) -> (s: &'static str)
        ensures
            s@ == (if mirror { "sync"@ } else { "copy"@ }),
    {
        if mirror {
            "sync"
        } else {
            "copy"
        }
    }
}

/// The text of a byte output, decoded as UTF-8 (valid input unchanged).
pub open spec fn output_text(bytes: Seq<u8>) -> Seq<char> {
    if valid_utf8(bytes) {
        decode_utf8(bytes)
    } else {
        utf8_lossy(bytes)
    }
}

/// The version line: the first line of `rclone version`'s output (empty when
/// there is none).
pub fn version_line(stdout: &[u8]) -> (v: String)
    ensures
        v@ == (if lines_spec(output_text(stdout@)).len() > 0 {
            lines_spec(output_text(stdout@))[0]
        } else {
            Seq::<char>::empty()
        }),
{
    let text = lossy_text(stdout);
    let lines = lines_of(text.as_str());
    assert(lines@.map_values(|l: String| l@).len() == lines@.len());
    if lines.len() > 0 {
        assert(lines@.map_values(|l: String| l@)[0] == lines@[0]@);
        lines[0].clone()
    } else {
        String::new()
    }
}

/// The trimmed, non-empty lines of `lines`.
pub open spec fn nonblank_trimmed(lines: Seq<Seq<char>>) -> Seq<Seq<char>> {
    lines.map_values(|l: Seq<char>| trimmed(l)).filter(|l: Seq<char>| l.len() > 0)
}

/// The configured remotes: the non-blank lines of `rclone listremotes`'s
/// output, trimmed.
pub fn remote_names(stdout: &[u8]) -> (names: Vec<String>)
    ensures
        names@.map_values(|s: String| s@) == nonblank_trimmed(lines_spec(output_text(stdout@))),
{
    let text = lossy_text(stdout);
    let lines = lines_of(text.as_str());
    let ghost ls = lines@.map_values(|l: String| l@);
    let mut names: Vec<String> = Vec::new();
    for i in 0..lines.len()
        invariant
            ls == lines@.map_values(|l: String| l@),
            names@.map_values(|s: String| s@) == nonblank_trimmed(ls.take(i as int)),
    {
        let t = trim_text(lines[i].as_str());
        let ghost before = names@.map_values(|s: String| s@);
        let keep = t.as_str().unicode_len() > 0;
        if keep {
            names.push(t);
        }
        proof {
            reveal(Seq::filter);
            let f = |l: Seq<char>| trimmed(l);
            assert(ls.take(i + 1).map_values(f) =~= ls.take(i as int).map_values(f).push(trimmed(ls[i as int])));
            assert(ls[i as int] == lines@[i as int]@);
            assert(ls.take(i + 1).map_values(f).drop_last() =~= ls.take(i as int).map_values(f));
            if keep {
                assert(names@.map_values(|s: String| s@) =~= before.push(t@));
            } else {
                assert(names@.map_values(|s: String| s@) =~= before);
            }
        }
    }
    proof {
        assert(ls.take(lines@.len() as int) =~= ls);
    }
    names
}

/// The result of one rclone run.
#[derive(Debug, Clone)]
pub struct CopyOutcome {
    pub success: bool,
    pub output: String,
}

/// Builds the outcome of an rclone run from its exit status and its standard
/// output and error streams: the two texts, joined and trimmed.
pub fn run_outcome(success: bool, stdout: &[u8], stderr: &[u8]) -> (o: CopyOutcome)
    ensures
        o.success == success,
        o.output@ == trimmed(output_text(stdout@) + output_text(stderr@)),
{
    let mut combined = lossy_text(stdout);
    let err = lossy_text(stderr);
    combined.append(err.as_str());
    let output = trim_text(combined.as_str());
    CopyOutcome { success, output }
}

/// One cloud destination. `remote` names an rclone remote (such as
/// "gdrive:"), `dest_path` a folder in it (such as "backup/working").
#[derive(Debug)]
pub struct CloudTarget {
    pub id: String,
    pub name: String,
    pub remote: String,
    pub dest_path: String,
    /// true = mirror (sync, delete extra files in the cloud); false = only add/update.
    pub mirror: bool,
    pub enabled: bool,
}

impl Clone for CloudTarget {
    fn clone(&self) -> (r: Self)
        ensures
            r == *self,
    {
        CloudTarget {
            id: self.id.clone(),
            name: self.name.clone(),
            remote: self.remote.clone(),
            dest_path: self.dest_path.clone(),
            mirror: self.mirror,
            enabled: self.enabled,
        }
    }
}

impl CloudTarget {
    /// The rclone destination "remote:dest_path"; with no remote the
    /// destination path is a local folder.
    pub fn dest(&self) -> (d: String)
        ensures
            d@ == (if self.remote@.len() == 0 { self.dest_path@ } else { self.remote@ + self.dest_path@ }),
    {
        if self.remote.as_str().is_empty() {
            self.dest_path.clone()
        } else {
            let mut d = self.remote.clone();
            d.append(self.dest_path.as_str());
            d
        }
    }
}

/// The outcome of pushing to one target.
#[derive(Debug)]
pub struct TargetResult {
    pub target_id: String,
    pub target_name: String,
    pub outcome: Result<CopyOutcome, String>,
}

/// The enabled targets, in order.
pub fn enabled_targets(targets: &Vec<CloudTarget>) -> (r: Vec<CloudTarget>)
    ensures
        r@ == targets@.filter(|t: CloudTarget| t.enabled),
{
    let mut r: Vec<CloudTarget> = Vec::new();
    for i in 0..targets.len()
        invariant
            r@ == targets@.take(i as int).filter(|t: CloudTarget| t.enabled),
    {
        if targets[i].enabled {
            r.push(targets[i].clone());
        }
        proof {
            reveal(Seq::filter);
            assert(targets@.take(i + 1).drop_last() =~= targets@.take(i as int));
        }
    }
    proof {
        assert(targets@.take(targets@.len() as int) =~= targets@);
    }
    r
}

} // verus!
