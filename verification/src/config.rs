//! Configuration of the one-way backup: folder pairs, mode and switches.
use crate::text::str_eq;
use vstd::prelude::*;

verus! {

/// One pair of folders to back up: source -> destination.
#[derive(Debug)]
pub struct Pair {
    pub id: String,
    pub source: String,
    pub dest: String,
    /// true = mirror mode (delete at the destination what the source deleted).
    /// false = only add/update, keep old files at the destination.
    pub mirror: bool,
    pub enabled: bool,
}

impl Clone for Pair {
    fn clone(&self) -> (r: Self)
        ensures
            r == *self,
    {
        Pair {
            id: self.id.clone(),
            source: self.source.clone(),
            dest: self.dest.clone(),
            mirror: self.mirror,
            enabled: self.enabled,
        }
    }
}

/// Value of a switch that is absent from a stored configuration.
pub fn default_true() -> (b: bool)
    ensures
        b,
{
    true
}

#[derive(Clone, Copy, Debug, PartialEq, Eq, Structural)]
pub enum Mode {
    /// Watch for changes and back up at once.
    Realtime,
    /// Back up every few minutes.
    Periodic,
}

/// Mode of a stored configuration that names none.
pub fn default_mode() -> (m: Mode)
    ensures
        m == Mode::Periodic,
{
    Mode::Periodic
}

/// Interval of a stored configuration that names none.
pub fn default_interval() -> (n: u64)
    ensures
        n == 30,
{
    30
}

#[derive(Debug)]
pub struct Config {
    pub pairs: Vec<Pair>,
    pub mode: Mode,
    pub interval_minutes: u64,
    pub autostart: bool,
    /// Whether automatic backup is on (the user can pause it).
    pub running: bool,
}

impl Clone for Config {
    fn clone(&self) -> (r: Self)
        ensures
            r.pairs@ == self.pairs@,
            r.mode == self.mode,
            r.interval_minutes == self.interval_minutes,
            r.autostart == self.autostart,
            r.running == self.running,
    {
        Config {
            pairs: clone_pairs(&self.pairs),
            mode: self.mode,
            interval_minutes: self.interval_minutes,
            autostart: self.autostart,
            running: self.running,
        }
    }
}

fn clone_pairs(v: &Vec<Pair>) -> (r: Vec<Pair>)
    ensures
        r@ == v@,
{
    let mut r: Vec<Pair> = Vec::new();
    for i in 0..v.len()
        invariant
            r@ == v@.take(i as int),
    {
        r.push(v[i].clone());
        proof {
            assert(v@.take(i + 1) =~= v@.take(i as int).push(v@[i as int]));
        }
    }
    proof {
        assert(v@.take(v@.len() as int) =~= v@);
    }
    r
}

impl Default for Config {
    fn default() -> (c: Self)
        ensures
            c.pairs@.len() == 0,
            c.mode == Mode::Periodic,
            c.interval_minutes == 30,
            c.autostart,
            c.running,
    {
        Config { pairs: Vec::new(), mode: Mode::Periodic, interval_minutes: 30, autostart: true, running: true }
    }
}

/// The enabled pairs, in order.
pub open spec fn enabled_of(pairs: Seq<Pair>) -> Seq<Pair> {
    pairs.filter(|p: Pair| p.enabled)
}

/// The first position of a pair with the given id, if any.
pub open spec fn first_with_id(pairs: Seq<Pair>, id: Seq<char>, i: int) -> bool {
    &&& 0 <= i < pairs.len()
    &&& pairs[i].id@ == id
    &&& forall|j: int| 0 <= j < i ==> (#[trigger] pairs[j]).id@ != id
}

/// Position of the first pair with this id.
fn position_of(pairs: &Vec<Pair>, id: &str) -> (r: Option<usize>)
    ensures
        match r {
            Some(i) => first_with_id(pairs@, id@, i as int),
            None => forall|j: int| 0 <= j < pairs@.len() ==> (#[trigger] pairs@[j]).id@ != id@,
        },
{
    for i in 0..pairs.len()
        invariant
            forall|j: int| 0 <= j < i ==> (#[trigger] pairs@[j]).id@ != id@,
    {
        if str_eq(pairs[i].id.as_str(), id) {
            return Some(i);
        }
    }
    None
}

impl Config {
    /// Appends a new, enabled pair.
    pub fn add_pair(&mut self, id: String, source: String, dest: String, mirror: bool)
        ensures
            final(self).pairs@ == old(self).pairs@.push(Pair { id, source, dest, mirror, enabled: true }),
            final(self).mode == old(self).mode,
            final(self).interval_minutes == old(self).interval_minutes,
            final(self).autostart == old(self).autostart,
            final(self).running == old(self).running,
    {
        self.pairs.push(Pair { id, source, dest, mirror, enabled: true });
    }

    /// Removes every pair with this id, keeping the others in order.
    pub fn remove_pair(&mut self, id: &str)
        ensures
            final(self).pairs@ == old(self).pairs@.filter(|p: Pair| p.id@ != id@),
            final(self).mode == old(self).mode,
            final(self).interval_minutes == old(self).interval_minutes,
            final(self).autostart == old(self).autostart,
            final(self).running == old(self).running,
    {
        let ghost old_pairs = self.pairs@;
        let mut kept: Vec<Pair> = Vec::new();
        for i in 0..self.pairs.len()
            invariant
                self.pairs@ == old_pairs,
                kept@ == old_pairs.take(i as int).filter(|p: Pair| p.id@ != id@),
        {
            if !str_eq(self.pairs[i].id.as_str(), id) {
                kept.push(self.pairs[i].clone());
            }
            proof {
                reveal(Seq::filter);
                assert(old_pairs.take(i + 1).drop_last() =~= old_pairs.take(i as int));
            }
        }
        proof {
            assert(old_pairs.take(old_pairs.len() as int) =~= old_pairs);
        }
        self.pairs = kept;
    }

    /// Switches the first pair with this id on or off.
    pub fn set_pair_enabled(&mut self, id: &str, enabled: bool)
        ensures
            forall|i: int| first_with_id(old(self).pairs@, id@, i) ==> final(self).pairs@ == old(self).pairs@.update(
                i,
                Pair { enabled, ..old(self).pairs@[i] },
            ),
            (forall|j: int| 0 <= j < old(self).pairs@.len() ==> (#[trigger] old(self).pairs@[j]).id@ != id@)
                ==> final(self).pairs@ == old(self).pairs@,
            final(self).mode == old(self).mode,
            final(self).interval_minutes == old(self).interval_minutes,
            final(self).autostart == old(self).autostart,
            final(self).running == old(self).running,
    {
        match position_of(&self.pairs, id) {
            Some(i) => {
                let mut p = self.pairs[i].clone();
                p.enabled = enabled;
                self.pairs.set(i, p);
                proof {
                    assert forall|k: int| first_with_id(old(self).pairs@, id@, k) implies k == i by {
                        if k < i {
                            assert(old(self).pairs@[k].id@ != id@);
                        } else if k > i {
                            assert(old(self).pairs@[i as int].id@ != id@);
                        }
                    }
                }
            },
            None => {},
        }
    }

    /// Sets the mirror switch of the first pair with this id.
    pub fn set_pair_mirror(&mut self, id: &str, mirror: bool)
        ensures
            forall|i: int| first_with_id(old(self).pairs@, id@, i) ==> final(self).pairs@ == old(self).pairs@.update(
                i,
                Pair { mirror, ..old(self).pairs@[i] },
            ),
            (forall|j: int| 0 <= j < old(self).pairs@.len() ==> (#[trigger] old(self).pairs@[j]).id@ != id@)
                ==> final(self).pairs@ == old(self).pairs@,
            final(self).mode == old(self).mode,
            final(self).interval_minutes == old(self).interval_minutes,
            final(self).autostart == old(self).autostart,
            final(self).running == old(self).running,
    {
        match position_of(&self.pairs, id) {
            Some(i) => {
                let mut p = self.pairs[i].clone();
                p.mirror = mirror;
                self.pairs.set(i, p);
                proof {
                    assert forall|k: int| first_with_id(old(self).pairs@, id@, k) implies k == i by {
                        if k < i {
                            assert(old(self).pairs@[k].id@ != id@);
                        } else if k > i {
                            assert(old(self).pairs@[i as int].id@ != id@);
                        }
                    }
                }
            },
            None => {},
        }
    }

    /// Sets the mode ("realtime", anything else is periodic) and the interval
    /// (at least one minute).
    pub fn set_mode(&mut self, mode: &str, interval_minutes: u64)
        ensures
            final(self).mode == (if mode@ == "realtime"@ { Mode::Realtime } else { Mode::Periodic }),
            final(self).interval_minutes == (if interval_minutes >= 1 { interval_minutes } else { 1 }),
            final(self).pairs@ == old(self).pairs@,
            final(self).autostart == old(self).autostart,
            final(self).running == old(self).running,
    {
        self.mode = if str_eq(mode, "realtime") { Mode::Realtime } else { Mode::Periodic };
        self.interval_minutes = if interval_minutes >= 1 { interval_minutes } else { 1 };
    }

    /// The enabled pairs, in order.
    pub fn enabled_pairs(&self) -> (r: Vec<Pair>)
        ensures
            r@ == enabled_of(self.pairs@),
    {
        let mut r: Vec<Pair> = Vec::new();
        for i in 0..self.pairs.len()
            invariant
                r@ == enabled_of(self.pairs@.take(i as int)),
        {
            if self.pairs[i].enabled {
                r.push(self.pairs[i].clone());
            }
            proof {
                reveal(Seq::filter);
                assert(self.pairs@.take(i + 1).drop_last() =~= self.pairs@.take(i as int));
            }
        }
        proof {
            assert(self.pairs@.take(self.pairs@.len() as int) =~= self.pairs@);
        }
        r
    }

    /// Number of enabled pairs.
    pub fn enabled_count(&self) -> (n: usize)
        ensures
            n == enabled_of(self.pairs@).len(),
    {
        let mut n: usize = 0;
        for i in 0..self.pairs.len()
            invariant
                n == enabled_of(self.pairs@.take(i as int)).len(),
                n <= i,
        {
            proof {
                reveal(Seq::filter);
                assert(self.pairs@.take(i + 1).drop_last() =~= self.pairs@.take(i as int));
            }
            if self.pairs[i].enabled {
                n = n + 1;
            }
        }
        proof {
            assert(self.pairs@.take(self.pairs@.len() as int) =~= self.pairs@);
        }
        n
    }

    /// The source folders to watch for changes: none unless backup is running
    /// in realtime mode; then the sources of the enabled pairs, in order.
    pub fn watch_sources(&self, running: bool) -> (r: Option<Vec<String>>)
        ensures
            !running || self.mode != Mode::Realtime ==> r is None,
            running && self.mode == Mode::Realtime ==> r is Some && r->0@ == enabled_of(self.pairs@).map_values(
                |p: Pair| p.source,
            ),
    {
        if !running || self.mode != Mode::Realtime {
            return None;
        }
        let enabled = self.enabled_pairs();
        let mut out: Vec<String> = Vec::new();
        for i in 0..enabled.len()
            invariant
                out@ == enabled@.take(i as int).map_values(|p: Pair| p.source),
        {
            out.push(enabled[i].source.clone());
            proof {
                assert(enabled@.take(i + 1).map_values(|p: Pair| p.source) =~= enabled@.take(i as int).map_values(
                    |p: Pair| p.source,
                ).push(enabled@[i as int].source));
            }
        }
        proof {
            assert(enabled@.take(enabled@.len() as int) =~= enabled@);
        }
        Some(out)
    }
}

} // verus!
