//! What the user interface shows about the backup service.
use crate::config::{enabled_of, Config, Mode};
use vstd::prelude::*;

verus! {

/// Status shown to the user interface.
#[derive(Debug)]
pub struct Status {
    pub running: bool,
    pub mode: String,
    /// "idle" or "syncing".
    pub activity: String,
    pub interval_minutes: u64,
    pub pairs: usize,
    pub last_run: Option<String>,
    pub last_summary: String,
}

impl Clone for Status {
    fn clone(&self) -> (r: Self)
        ensures
            r == *self,
    {
        Status {
            running: self.running,
            mode: self.mode.clone(),
            activity: self.activity.clone(),
            interval_minutes: self.interval_minutes,
            pairs: self.pairs,
            last_run: match &self.last_run {
                Some(s) => Some(s.clone()),
                None => None,
            },
            last_summary: self.last_summary.clone(),
        }
    }
}

/// The name of a mode as the user interface knows it.
pub open spec fn mode_name(m: Mode) -> Seq<char> {
    match m {
        Mode::Realtime => "realtime"@,
        Mode::Periodic => "periodic"@,
    }
}

fn mode_text(m: Mode) -> (s: String)
    ensures
        s@ == mode_name(m),
{
    match m {
        Mode::Realtime => "realtime".to_owned(),
        Mode::Periodic => "periodic".to_owned(),
    }
}

impl Status {
    /// The status of a freshly loaded configuration: idle, never run.
    pub fn from_cfg(cfg: &Config) -> (s: Self)
        ensures
            s.running == cfg.running,
            s.mode@ == mode_name(cfg.mode),
            s.activity@ == "idle"@,
            s.interval_minutes == cfg.interval_minutes,
            s.pairs == enabled_of(cfg.pairs@).len(),
            s.last_run is None,
            s.last_summary@ == Seq::<char>::empty(),
    {
        Status {
            running: cfg.running,
            mode: mode_text(cfg.mode),
            activity: "idle".to_owned(),
            interval_minutes: cfg.interval_minutes,
            pairs: cfg.enabled_count(),
            last_run: None,
            last_summary: String::new(),
        }
    }

    /// Brings the status up to date with the configuration and the current
    /// activity; a finished run (`summary`) also records when it ended.
    pub fn refresh(&mut self, cfg: &Config, running: bool, activity: &str, summary: Option<String>, now: String)
        ensures
            final(self).running == running,
            final(self).mode@ == mode_name(cfg.mode),
            final(self).interval_minutes == cfg.interval_minutes,
            final(self).activity@ == activity@,
            final(self).pairs == enabled_of(cfg.pairs@).len(),
            match summary {
                Some(sum) => final(self).last_summary == sum && final(self).last_run == Some(now),
                None => final(self).last_summary == old(self).last_summary && final(self).last_run == old(
                    self,
                ).last_run,
            },
    {
        self.running = running;
        self.mode = mode_text(cfg.mode);
        self.interval_minutes = cfg.interval_minutes;
        self.activity = activity.to_owned();
        self.pairs = cfg.enabled_count();
        if let Some(sum) = summary {
            self.last_summary = sum;
            self.last_run = Some(now);
        }
    }
}

} // verus!
