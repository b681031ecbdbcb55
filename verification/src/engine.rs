//! Decisions of the background backup service: what each message or timeout
//! leads to, and how long to wait for the next one.
use crate::config::{Config, Mode};
use vstd::prelude::*;

verus! {

/// Messages sent to the background service.
pub enum Msg {
    RunNow,
    Reload(Config),
    SetRunning(bool),
    Changed,
    Shutdown,
}

/// One thing the service does, in the order given.
#[derive(Debug, Clone, Copy, PartialEq, Eq, Structural)]
pub enum WorkerAction {
    /// Back up every enabled pair.
    RunAll,
    /// Drop the change watchers and set up those the configuration asks for.
    RebuildWatchers,
    /// Report the idle status.
    PushIdle,
    /// Log that the service started.
    LogStarted,
    /// Log that backup resumed.
    LogResumed,
    /// Log that backup is paused.
    LogPaused,
    /// Log that the service stops.
    LogStopped,
    /// Leave the service loop.
    Exit,
}

/// The state of the background service.
pub struct WorkerState {
    pub cfg: Config,
    pub running: bool,
}

/// The state of the service for a configuration just loaded.
pub open spec fn initial_state(cfg: Config) -> WorkerState {
    WorkerState { cfg, running: cfg.running }
}

/// What the service does when it starts: watch, report, log, and back up
/// once at once if backup is on.
pub open spec fn startup_spec(s: WorkerState) -> Seq<WorkerAction> {
    if s.running {
        seq![WorkerAction::RebuildWatchers, WorkerAction::PushIdle, WorkerAction::LogStarted, WorkerAction::RunAll]
    } else {
        seq![WorkerAction::RebuildWatchers, WorkerAction::PushIdle, WorkerAction::LogStarted]
    }
}

/// The next state and the actions for one wake-up of the service: a message,
/// or `None` when the wait timed out.
pub open spec fn step_spec(s: WorkerState, msg: Option<Msg>) -> (WorkerState, Seq<WorkerAction>) {
    match msg {
        None => (s, seq![WorkerAction::RunAll]),
        Some(Msg::RunNow) => (s, seq![WorkerAction::RunAll]),
        Some(Msg::Changed) => (s, if s.running && s.cfg.mode == Mode::Realtime {
            seq![WorkerAction::RunAll]
        } else {
            Seq::<WorkerAction>::empty()
        }),
        Some(Msg::SetRunning(b)) => (WorkerState { cfg: s.cfg, running: b }, if b {
            seq![WorkerAction::LogResumed, WorkerAction::RunAll]
        } else {
            seq![WorkerAction::LogPaused, WorkerAction::PushIdle]
        }),
        Some(Msg::Reload(c)) => (WorkerState { cfg: c, running: c.running }, if c.running {
            seq![WorkerAction::RebuildWatchers, WorkerAction::PushIdle, WorkerAction::RunAll]
        } else {
            seq![WorkerAction::RebuildWatchers, WorkerAction::PushIdle]
        }),
        Some(Msg::Shutdown) => (s, seq![WorkerAction::LogStopped, WorkerAction::Exit]),
    }
}

impl WorkerState {
    /// The state for a configuration just loaded.
    pub fn new(cfg: Config) -> (s: Self)
        ensures
            s == initial_state(cfg),
    {
        let running = cfg.running;
        WorkerState { cfg, running }
    }

    /// What the service does when it starts: watch, report, log, and back up
    /// once at once if backup is on.
    pub fn startup(&self) -> (a: Vec<WorkerAction>)
        ensures
            a@ == startup_spec(*self),
    {
        let mut a = vec![WorkerAction::RebuildWatchers, WorkerAction::PushIdle, WorkerAction::LogStarted];
        if self.running {
            a.push(WorkerAction::RunAll);
        }
        proof {
            if self.running {
                assert(a@ =~= seq![WorkerAction::RebuildWatchers, WorkerAction::PushIdle, WorkerAction::LogStarted, WorkerAction::RunAll]);
            } else {
                assert(a@ =~= seq![WorkerAction::RebuildWatchers, WorkerAction::PushIdle, WorkerAction::LogStarted]);
            }
        }
        a
    }

    /// How long to wait for a message, in seconds: the period (at least one
    /// minute) when backup runs periodically; otherwise wait with no limit.
    pub fn wait_secs(&self) -> (t: Option<u64>)
        requires
            self.cfg.interval_minutes <= u64::MAX / 60,
        ensures
            t == (if self.running && self.cfg.mode == Mode::Periodic {
                Some(((if self.cfg.interval_minutes >= 1 { self.cfg.interval_minutes } else { 1 }) * 60) as u64)
            } else {
                None::<u64>
            }),
    {
        if self.running && self.cfg.mode == Mode::Periodic {
            let minutes = if self.cfg.interval_minutes >= 1 { self.cfg.interval_minutes } else { 1 };
            Some(minutes * 60)
        } else {
            None
        }
    }

    /// Handles a message (`None`: the wait timed out) and returns what to do.
    pub fn step(&mut self, msg: Option<Msg>) -> (a: Vec<WorkerAction>)
        ensures
            (*final(self), a@) == step_spec(*old(self), msg),
            msg matches Some(Msg::Reload(c)) ==> final(self).cfg == c && final(self).running == c.running,
            msg matches Some(Msg::SetRunning(b)) ==> final(self).cfg == old(self).cfg && final(self).running == b,
            (msg is None || (msg matches Some(Msg::RunNow)) || (msg matches Some(Msg::Changed)) || (msg matches Some(
                Msg::Shutdown,
            ))) ==> *final(self) == *old(self),
    {
        match msg {
            None => vec![WorkerAction::RunAll],
            Some(Msg::RunNow) => vec![WorkerAction::RunAll],
            Some(Msg::Changed) => {
                if self.running && self.cfg.mode == Mode::Realtime {
                    vec![WorkerAction::RunAll]
                } else {
                    Vec::new()
                }
            },
            Some(Msg::SetRunning(b)) => {
                self.running = b;
                if b {
                    vec![WorkerAction::LogResumed, WorkerAction::RunAll]
                } else {
                    vec![WorkerAction::LogPaused, WorkerAction::PushIdle]
                }
            },
            Some(Msg::Reload(c)) => {
                self.running = c.running;
                self.cfg = c;
                if self.running {
                    vec![WorkerAction::RebuildWatchers, WorkerAction::PushIdle, WorkerAction::RunAll]
                } else {
                    vec![WorkerAction::RebuildWatchers, WorkerAction::PushIdle]
                }
            },
            Some(Msg::Shutdown) => vec![WorkerAction::LogStopped, WorkerAction::Exit],
        }
    }
}

/// The actions of the service over a run of wake-ups (`None`: the wait timed
/// out), one list per wake-up, up to and including the one that exits.
pub open spec fn trace(s: WorkerState, msgs: Seq<Option<Msg>>) -> Seq<Seq<WorkerAction>>
    decreases msgs.len(),
{
    if msgs.len() == 0 {
        Seq::empty()
    } else {
        let (n, a) = step_spec(s, msgs[0]);
        if a.contains(WorkerAction::Exit) {
            seq![a]
        } else {
            seq![a] + trace(n, msgs.drop_first())
        }
    }
}

/// The state of the service just before wake-up `i` of a run.
pub open spec fn state_before(s: WorkerState, msgs: Seq<Option<Msg>>, i: int) -> WorkerState
    decreases i,
{
    if i <= 0 || msgs.len() == 0 {
        s
    } else {
        state_before(step_spec(s, msgs[0]).0, msgs.drop_first(), i - 1)
    }
}

/// Whether a wake-up backs up: on a timeout, on every "back up now" (paused
/// or not), on a change notice only while running in realtime mode, on
/// resuming, on a reload whose configuration runs; never on pausing or
/// stopping.
pub open spec fn backs_up(s: WorkerState, msg: Option<Msg>) -> bool {
    match msg {
        None => true,
        Some(Msg::RunNow) => true,
        Some(Msg::Changed) => s.running && s.cfg.mode == Mode::Realtime,
        Some(Msg::SetRunning(b)) => b,
        Some(Msg::Reload(c)) => c.running,
        Some(Msg::Shutdown) => false,
    }
}

pub open spec fn is_shutdown(msg: Option<Msg>) -> bool {
    msg matches Some(Msg::Shutdown)
}

proof fn lemma_step_runs_and_exits(s: WorkerState, msg: Option<Msg>)
    ensures
        step_spec(s, msg).1.contains(WorkerAction::RunAll) <==> backs_up(s, msg),
        step_spec(s, msg).1.contains(WorkerAction::Exit) <==> is_shutdown(msg),
{
    let a = step_spec(s, msg).1;
    if a.contains(WorkerAction::RunAll) {
        let i = choose|i: int| 0 <= i < a.len() && a[i] == WorkerAction::RunAll;
        assert(a[i] == WorkerAction::RunAll);
    }
    if a.contains(WorkerAction::Exit) {
        let i = choose|i: int| 0 <= i < a.len() && a[i] == WorkerAction::Exit;
        assert(a[i] == WorkerAction::Exit);
    }
    match msg {
        None => assert(a[0] == WorkerAction::RunAll),
        Some(Msg::RunNow) => assert(a[0] == WorkerAction::RunAll),
        Some(Msg::Changed) => {
            if backs_up(s, msg) {
                assert(a[0] == WorkerAction::RunAll);
            }
        },
        Some(Msg::SetRunning(b)) => {
            if b {
                assert(a[1] == WorkerAction::RunAll);
            }
        },
        Some(Msg::Reload(c)) => {
            if c.running {
                assert(a[2] == WorkerAction::RunAll);
            }
        },
        Some(Msg::Shutdown) => assert(a[1] == WorkerAction::Exit),
    }
}

proof fn lemma_trace(s: WorkerState, msgs: Seq<Option<Msg>>)
    ensures
        trace(s, msgs).len() <= msgs.len(),
        forall|i: int| 0 <= i < trace(s, msgs).len() ==> #[trigger] trace(s, msgs)[i] == step_spec(state_before(s, msgs, i), msgs[i]).1,
        forall|i: int| 0 <= i < trace(s, msgs).len() - 1 ==> !is_shutdown(#[trigger] msgs[i]),
        trace(s, msgs).len() == msgs.len() || (trace(s, msgs).len() > 0 && is_shutdown(msgs[trace(s, msgs).len() - 1])),
    decreases msgs.len(),
{
    if msgs.len() > 0 {
        let (n, a) = step_spec(s, msgs[0]);
        let rest = msgs.drop_first();
        lemma_step_runs_and_exits(s, msgs[0]);
        lemma_trace(n, rest);
        let t = trace(s, msgs);
        if !a.contains(WorkerAction::Exit) {
            let tr = trace(n, rest);
            assert(t == seq![a] + tr);
            assert forall|i: int| 0 <= i < t.len() implies #[trigger] t[i] == step_spec(state_before(s, msgs, i), msgs[i]).1 by {
                if i > 0 {
                    assert(t[i] == tr[i - 1]);
                    assert(state_before(s, msgs, i) == state_before(n, rest, i - 1));
                    assert(rest[i - 1] == msgs[i]);
                }
            }
            assert forall|i: int| 0 <= i < t.len() - 1 implies !is_shutdown(#[trigger] msgs[i]) by {
                if i > 0 {
                    assert(rest[i - 1] == msgs[i]);
                }
            }
            if tr.len() > 0 {
                assert(rest[tr.len() - 1] == msgs[t.len() - 1]);
            }
        } else {
            assert(t == seq![a]);
            assert(state_before(s, msgs, 0) == s);
        }
    }
}

/// How the backup service answers its wake-ups. It backs up once when it
/// starts exactly when backup is on. Over any run of wake-ups (a message, or
/// `None` when the wait timed out), each wake-up backs up exactly when
/// `backs_up` says so for the state the service is in at that moment: on a
/// timeout, on every "back up now" (paused or not), on a change notice only
/// while running in realtime mode, on resuming, on a reload whose
/// configuration runs, and never on pausing or stopping. The service stops at
/// the first "stop" message and answers nothing after it.
pub proof fn law_service_backs_up_when_expected(cfg: Config, msgs: Seq<Option<Msg>>)
    ensures
        startup_spec(initial_state(cfg)).contains(WorkerAction::RunAll) <==> cfg.running,
        forall|i: int| 0 <= i < trace(initial_state(cfg), msgs).len() ==>
            ((#[trigger] trace(initial_state(cfg), msgs)[i]).contains(WorkerAction::RunAll)
                <==> backs_up(state_before(initial_state(cfg), msgs, i), msgs[i])),
        forall|i: int| 0 <= i < trace(initial_state(cfg), msgs).len() ==>
            ((#[trigger] trace(initial_state(cfg), msgs)[i]).contains(WorkerAction::Exit) <==> is_shutdown(msgs[i])),
        forall|i: int| 0 <= i < trace(initial_state(cfg), msgs).len() - 1 ==> !is_shutdown(#[trigger] msgs[i]),
        trace(initial_state(cfg), msgs).len() == msgs.len()
            || is_shutdown(msgs[trace(initial_state(cfg), msgs).len() - 1]),
{
    let s0 = initial_state(cfg);
    let st = startup_spec(s0);
    if cfg.running {
        assert(st[3] == WorkerAction::RunAll);
    } else if st.contains(WorkerAction::RunAll) {
        let i = choose|i: int| 0 <= i < st.len() && st[i] == WorkerAction::RunAll;
        assert(st[i] == WorkerAction::RunAll);
    }
    lemma_trace(s0, msgs);
    let t = trace(s0, msgs);
    assert forall|i: int| 0 <= i < t.len() implies
        (#[trigger] t[i]).contains(WorkerAction::RunAll) <==> backs_up(state_before(s0, msgs, i), msgs[i]) by {
        lemma_step_runs_and_exits(state_before(s0, msgs, i), msgs[i]);
        assert(t[i] == step_spec(state_before(s0, msgs, i), msgs[i]).1);
    }
    assert forall|i: int| 0 <= i < t.len() implies
        (#[trigger] t[i]).contains(WorkerAction::Exit) <==> is_shutdown(msgs[i]) by {
        lemma_step_runs_and_exits(state_before(s0, msgs, i), msgs[i]);
        assert(t[i] == step_spec(state_before(s0, msgs, i), msgs[i]).1);
    }
}

/// After a reload the service follows the reloaded configuration, its
/// running switch included: reloading while paused with a configuration that
/// is paused keeps the service paused, and one that runs resumes it.
pub proof fn law_reload_takes_new_switch(s: WorkerState, c: Config)
    ensures
        step_spec(s, Some(Msg::Reload(c))).0.cfg == c,
        step_spec(s, Some(Msg::Reload(c))).0.running == c.running,
        !c.running ==> !step_spec(step_spec(s, Some(Msg::Reload(c))).0, Some(Msg::Changed)).1.contains(
            WorkerAction::RunAll,
        ),
{
    let n = step_spec(s, Some(Msg::Reload(c))).0;
    let a = step_spec(n, Some(Msg::Changed)).1;
    if a.contains(WorkerAction::RunAll) {
        let i = choose|i: int| 0 <= i < a.len() && a[i] == WorkerAction::RunAll;
        assert(a[i] == WorkerAction::RunAll);
    }
}

/// Pausing and resuming change only the running switch, to the value asked
/// for; the configuration stays.
pub proof fn law_set_running_changes_only_switch(s: WorkerState, b: bool)
    ensures
        step_spec(s, Some(Msg::SetRunning(b))).0.running == b,
        step_spec(s, Some(Msg::SetRunning(b))).0.cfg == s.cfg,
{
}

/// Only the running switch and a reload change the service's state: a timed
/// out wait, "back up now" (even while paused), a change notice and "stop"
/// leave it as it was, so a one-off backup never un-pauses the service.
pub proof fn law_other_wakeups_keep_state(s: WorkerState)
    ensures
        step_spec(s, None).0 == s,
        step_spec(s, Some(Msg::RunNow)).0 == s,
        step_spec(s, Some(Msg::Changed)).0 == s,
        step_spec(s, Some(Msg::Shutdown)).0 == s,
        !s.running ==> !step_spec(step_spec(s, Some(Msg::RunNow)).0, Some(Msg::Changed)).1.contains(
            WorkerAction::RunAll,
        ),
{
    let a = step_spec(step_spec(s, Some(Msg::RunNow)).0, Some(Msg::Changed)).1;
    if a.contains(WorkerAction::RunAll) {
        let i = choose|i: int| 0 <= i < a.len() && a[i] == WorkerAction::RunAll;
        assert(a[i] == WorkerAction::RunAll);
    }
}

/// A reload first drops and rebuilds the change watchers and reports the idle
/// status, whatever the new configuration says; the service starts the same
/// way.
pub proof fn law_reload_rebuilds_watchers(s: WorkerState, c: Config)
    ensures
        step_spec(s, Some(Msg::Reload(c))).1.len() >= 2,
        step_spec(s, Some(Msg::Reload(c))).1[0] == WorkerAction::RebuildWatchers,
        step_spec(s, Some(Msg::Reload(c))).1[1] == WorkerAction::PushIdle,
        startup_spec(s)[0] == WorkerAction::RebuildWatchers,
        startup_spec(s)[1] == WorkerAction::PushIdle,
{
}

/// Pausing logs it and reports the idle status and nothing else; resuming
/// logs it and then backs up; stopping logs it and then leaves the loop.
pub proof fn law_switch_and_stop_actions(s: WorkerState)
    ensures
        step_spec(s, Some(Msg::SetRunning(false))).1 =~= seq![WorkerAction::LogPaused, WorkerAction::PushIdle],
        step_spec(s, Some(Msg::SetRunning(true))).1 =~= seq![WorkerAction::LogResumed, WorkerAction::RunAll],
        step_spec(s, Some(Msg::Shutdown)).1.last() == WorkerAction::Exit,
        step_spec(s, Some(Msg::Shutdown)).1[0] == WorkerAction::LogStopped,
{
}

} // verus!
