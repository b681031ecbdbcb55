use backup_helper::backup::{need_copy, EntryAction, FileStamp, PairRun, SourceEntry, SyncResult};
use backup_helper::config::{default_interval, default_mode, default_true, Config, Mode, Pair};
use backup_helper::engine::{Msg, WorkerAction, WorkerState};
use backup_helper::status::Status;

fn stamp(len: u64, mtime_secs: i64) -> Option<FileStamp> {
    Some(FileStamp { len, mtime_secs })
}

#[test]
fn need_copy_rules() {
    // Destination missing -> copy; source unreadable -> never.
    assert!(need_copy(stamp(5, 10), None));
    assert!(!need_copy(None, stamp(5, 10)));
    // Same stamp -> skip (second run over an unchanged tree).
    assert!(!need_copy(stamp(5, 10), stamp(5, 10)));
    // Different size -> copy.
    assert!(need_copy(stamp(13, 10), stamp(5, 10)));
    // Newer within the 2 s tolerance -> skip; beyond -> copy.
    assert!(!need_copy(stamp(5, 12), stamp(5, 10)));
    assert!(need_copy(stamp(5, 13), stamp(5, 10)));
    // Older source with same size -> skip.
    assert!(!need_copy(stamp(5, 1), stamp(5, 10)));
    // No overflow at the extremes.
    assert!(!need_copy(stamp(5, i64::MAX), stamp(5, i64::MAX)));
    assert!(need_copy(stamp(5, i64::MAX), stamp(5, i64::MIN)));
}

#[test]
fn pair_run_tallies_and_finds_stale_paths() {
    let mut run = PairRun::new();
    assert_eq!(run.visit(String::new(), SourceEntry::Dir), EntryAction::Ignore);
    assert_eq!(run.visit("sub".into(), SourceEntry::Dir), EntryAction::CreateDir);
    assert_eq!(run.visit("a.txt".into(), SourceEntry::File { changed: true }), EntryAction::Copy);
    run.record_copy(5);
    assert_eq!(run.visit("sub/b.txt".into(), SourceEntry::File { changed: false }), EntryAction::Skip);
    assert_eq!(run.visit("link".into(), SourceEntry::Other), EntryAction::Ignore);
    run.record_error();
    let r = run.result();
    assert_eq!((r.copied, r.skipped, r.errors, r.bytes, r.deleted), (1, 1, 1, 5, 0));
    // Mirror: only paths absent from the source are stale.
    assert!(!run.is_stale(true, ""));
    assert!(!run.is_stale(true, "a.txt"));
    assert!(!run.is_stale(true, "sub"));
    assert!(!run.is_stale(true, "link"));
    assert!(run.is_stale(true, "old.txt"));
    // Keep mode never deletes.
    assert!(!run.is_stale(false, "old.txt"));
    run.record_delete();
    assert_eq!(run.result().deleted, 1);
}

#[test]
fn sync_results_add_up() {
    let mut total = SyncResult::default();
    let a = SyncResult { copied: 2, deleted: 1, skipped: 3, errors: 0, bytes: 10 };
    total.absorb(&a);
    total.absorb(&a);
    assert_eq!((total.copied, total.deleted, total.skipped, total.errors, total.bytes), (4, 2, 6, 0, 20));
}

fn pair(id: &str, src: &str, enabled: bool) -> Pair {
    Pair { id: id.into(), source: src.into(), dest: format!("{}-bak", src), mirror: false, enabled }
}

#[test]
fn config_defaults() {
    let c = Config::default();
    assert!(c.pairs.is_empty());
    assert_eq!(c.mode, Mode::Periodic);
    assert_eq!(c.interval_minutes, 30);
    assert!(c.autostart && c.running);
    assert!(default_true());
    assert_eq!(default_mode(), Mode::Periodic);
    assert_eq!(default_interval(), 30);
}

#[test]
fn config_pair_commands() {
    let mut c = Config::default();
    c.add_pair("p1".into(), "/a".into(), "/b".into(), true);
    assert_eq!(c.pairs.len(), 1);
    assert!(c.pairs[0].enabled && c.pairs[0].mirror);
    c.pairs.push(pair("p2", "/c", true));
    c.pairs.push(pair("p1", "/e", true));
    c.set_pair_enabled("p1", false);
    assert!(!c.pairs[0].enabled);
    assert!(c.pairs[2].enabled, "only the first pair with the id changes");
    c.set_pair_mirror("p2", true);
    assert!(c.pairs[1].mirror);
    c.set_pair_enabled("nope", false);
    assert_eq!(c.enabled_count(), 2);
    let en = c.enabled_pairs();
    assert_eq!(en.iter().map(|p| p.source.as_str()).collect::<Vec<_>>(), vec!["/c", "/e"]);
    c.remove_pair("p1");
    assert_eq!(c.pairs.len(), 1);
    assert_eq!(c.pairs[0].id, "p2");
}

#[test]
fn config_mode_and_watchers() {
    let mut c = Config::default();
    c.pairs.push(pair("p1", "/src1", true));
    c.pairs.push(pair("p2", "/src2", false));
    c.set_mode("realtime", 0);
    assert_eq!(c.mode, Mode::Realtime);
    assert_eq!(c.interval_minutes, 1);
    assert_eq!(c.watch_sources(true), Some(vec!["/src1".to_string()]));
    assert_eq!(c.watch_sources(false), None);
    c.set_mode("periodic", 45);
    assert_eq!(c.mode, Mode::Periodic);
    assert_eq!(c.interval_minutes, 45);
    assert_eq!(c.watch_sources(true), None);
    c.set_mode("anything", 5);
    assert_eq!(c.mode, Mode::Periodic);
}

#[test]
fn status_follows_config() {
    let mut c = Config::default();
    c.pairs.push(pair("p1", "/a", true));
    c.pairs.push(pair("p2", "/b", false));
    let mut s = Status::from_cfg(&c);
    assert!(s.running);
    assert_eq!(s.mode, "periodic");
    assert_eq!(s.activity, "idle");
    assert_eq!(s.pairs, 1);
    assert_eq!(s.last_run, None);
    assert_eq!(s.last_summary, "");
    c.mode = Mode::Realtime;
    s.refresh(&c, false, "syncing", None, "t0".into());
    assert_eq!(s.mode, "realtime");
    assert_eq!(s.activity, "syncing");
    assert!(!s.running);
    assert_eq!(s.last_run, None);
    s.refresh(&c, true, "idle", Some("done".into()), "2024-01-02 03:04:05".into());
    assert_eq!(s.last_summary, "done");
    assert_eq!(s.last_run.as_deref(), Some("2024-01-02 03:04:05"));
}

#[test]
fn worker_reacts_to_messages() {
    let mut c = Config::default();
    c.running = true;
    let mut w = WorkerState::new(c);
    assert_eq!(
        w.startup(),
        vec![WorkerAction::RebuildWatchers, WorkerAction::PushIdle, WorkerAction::LogStarted, WorkerAction::RunAll]
    );
    assert_eq!(w.wait_secs(), Some(30 * 60));
    assert_eq!(w.step(None), vec![WorkerAction::RunAll]);
    assert_eq!(w.step(Some(Msg::RunNow)), vec![WorkerAction::RunAll]);
    // Changes only trigger a run in realtime mode.
    assert_eq!(w.step(Some(Msg::Changed)), vec![]);
    assert_eq!(w.step(Some(Msg::SetRunning(false))), vec![WorkerAction::LogPaused, WorkerAction::PushIdle]);
    assert!(!w.running);
    assert_eq!(w.wait_secs(), None);
    let mut c2 = Config::default();
    c2.mode = Mode::Realtime;
    assert_eq!(
        w.step(Some(Msg::Reload(c2))),
        vec![WorkerAction::RebuildWatchers, WorkerAction::PushIdle, WorkerAction::RunAll]
    );
    assert!(w.running);
    assert_eq!(w.step(Some(Msg::Changed)), vec![WorkerAction::RunAll]);
    assert_eq!(w.step(Some(Msg::SetRunning(true))), vec![WorkerAction::LogResumed, WorkerAction::RunAll]);
    assert_eq!(w.step(Some(Msg::Shutdown)), vec![WorkerAction::LogStopped, WorkerAction::Exit]);
}

#[test]
fn paused_service_starts_without_backup() {
    let mut c = Config::default();
    c.running = false;
    c.interval_minutes = 0;
    let w = WorkerState::new(c);
    assert_eq!(w.startup(), vec![WorkerAction::RebuildWatchers, WorkerAction::PushIdle, WorkerAction::LogStarted]);
}

#[test]
fn service_answers_a_message_sequence() {
    let mut c = Config::default();
    c.running = false;
    c.mode = Mode::Realtime;
    let mut w = WorkerState::new(c);
    assert!(!w.startup().contains(&WorkerAction::RunAll));
    let mut paused_reload = Config::default();
    paused_reload.running = false;
    let msgs = vec![
        Some(Msg::Changed),            // paused: no backup
        Some(Msg::RunNow),             // backs up even when paused
        Some(Msg::SetRunning(true)),   // resuming backs up
        Some(Msg::Changed),            // running, realtime: backs up
        Some(Msg::SetRunning(false)),  // pausing never backs up
        Some(Msg::Reload(paused_reload)), // reload that does not run
        None,                          // a timed-out wait backs up
        Some(Msg::Shutdown),
        Some(Msg::RunNow),             // never reached
    ];
    let mut runs = Vec::new();
    for m in msgs {
        let a = w.step(m);
        runs.push(a.contains(&WorkerAction::RunAll));
        if a.contains(&WorkerAction::Exit) {
            break;
        }
    }
    assert_eq!(runs, vec![false, true, true, true, false, false, true, false]);
}
