use backup_helper::logger::{is_expired_log, log_date_part, log_file_name, log_line, recent_log_names};
use backup_helper::sync::cloud::{
    enabled_targets, remote_names, run_outcome, version_line, CloudTarget, Rclone,
};
use backup_helper::sync::db::Version;
use backup_helper::sync::types::{Conflict, ConflictKind, Direction, OpKind, Plan, PlannedOp, Side};
use backup_helper::text::{compare_str, lines_of, prefixed_decimal, str_eq, trim_text, PathOrder};
use backup_helper::v2::{
    conn_transition, d_interval, pair_access_check, parse_side, ApplyReport, ConnEvent,
    V2Config, V2Pair, VersionDto,
};
use std::path::PathBuf;

#[test]
fn text_order_and_equality() {
    assert_eq!(compare_str("a", "b"), PathOrder::Less);
    assert_eq!(compare_str("ab", "a"), PathOrder::Greater);
    assert_eq!(compare_str("dir/x", "dir/x"), PathOrder::Equal);
    assert_eq!(compare_str("", "a"), PathOrder::Less);
    assert!(str_eq("héllo", "héllo"));
    assert!(!str_eq("a", "b"));
    assert_eq!(prefixed_decimal("run-", 1234567), "run-1234567");
    assert_eq!(prefixed_decimal("p", 0), "p0");
    assert_eq!(prefixed_decimal("p", -42), "p-42");
    assert_eq!(prefixed_decimal("", i64::MIN), "-9223372036854775808");
}

#[test]
fn lines_split_like_str_lines() {
    for s in ["", "a", "a\n", "a\nb", "a\r\nb\r\n", "\n\nx", "x\r", "a\n\n"] {
        let expected: Vec<String> = s.lines().map(|l| l.to_string()).collect();
        assert_eq!(lines_of(s), expected, "input {:?}", s);
    }
}

#[test]
fn rclone_output_reading() {
    assert_eq!(version_line(b"rclone v1.66.0\n- os/version: x\n"), "rclone v1.66.0");
    assert_eq!(version_line(b""), "");
    assert_eq!(version_line(b"bad \xff byte"), "bad \u{fffd} byte");
    assert_eq!(remote_names(b"gdrive:\n  onedrive:  \n\n"), vec!["gdrive:".to_string(), "onedrive:".to_string()]);
    assert_eq!(remote_names("\tgdrive:\r\n \u{3000}\n".as_bytes()), vec!["gdrive:".to_string()]);
    let o = run_outcome(true, b"  done\n", b"warn  \n");
    assert!(o.success);
    assert_eq!(o.output, "done\nwarn");
    assert_eq!(Rclone::push_subcommand(true), "sync");
    assert_eq!(Rclone::push_subcommand(false), "copy");
    let mut rc = Rclone::with_bin(PathBuf::from("/usr/bin/rclone"));
    assert!(rc.config.is_none());
    rc.set_config(PathBuf::from("/tmp/rclone.conf"));
    assert_eq!(rc.config, Some(PathBuf::from("/tmp/rclone.conf")));
    assert_eq!(rc.bin, PathBuf::from("/usr/bin/rclone"));
}

fn target(id: &str, remote: &str, enabled: bool) -> CloudTarget {
    CloudTarget {
        id: id.into(),
        name: format!("Cloud {}", id),
        remote: remote.into(),
        dest_path: "backup/working".into(),
        mirror: false,
        enabled,
    }
}

#[test]
fn cloud_targets() {
    assert_eq!(target("t", "gdrive:", true).dest(), "gdrive:backup/working");
    assert_eq!(target("t", "", true).dest(), "backup/working");
    let ts = vec![target("a", "", true), target("b", "", false), target("c", "", true)];
    let en = enabled_targets(&ts);
    assert_eq!(en.iter().map(|t| t.id.as_str()).collect::<Vec<_>>(), vec!["a", "c"]);
}

#[test]
fn apply_report_counts_ops() {
    let plan = Plan {
        ops: vec![
            PlannedOp { rel_path: "a".into(), kind: OpKind::Copy(Direction::OriginToWorking) },
            PlannedOp { rel_path: "b".into(), kind: OpKind::Delete(Side::Working) },
            PlannedOp { rel_path: "c".into(), kind: OpKind::Copy(Direction::WorkingToOrigin) },
        ],
        conflicts: vec![Conflict { rel_path: "d".into(), kind: ConflictKind::BothCreated }],
    };
    let r = ApplyReport::new("run-1".into(), plan);
    assert_eq!((r.copied, r.deleted), (2, 1));
    assert_eq!(r.conflicts.len(), 1);
    assert_eq!(r.run_id, "run-1");
}

fn v2pair(id: &str) -> V2Pair {
    V2Pair { id: id.into(), name: "n".into(), origin: "/o".into(), working: "/w".into() }
}

#[test]
fn v2_config_commands() {
    let mut c = V2Config::default();
    assert_eq!(c.interval_minutes, d_interval());
    assert_eq!(c.add_pair("p1".into(), "".into(), "/x".into(), "/x".into()), Err("Nguồn và đích không được trùng".to_string()));
    assert!(c.pairs.is_empty());
    assert_eq!(c.add_pair("p1".into(), "".into(), "/o".into(), "/w".into()), Ok(()));
    assert_eq!(c.pairs[0].name, "Cặp thư mục");
    c.add_pair("p2".into(), "Mine".into(), "/o2".into(), "/w2".into()).unwrap();
    assert_eq!(c.pairs[1].name, "Mine");
    assert_eq!(c.find_pair("p2").unwrap().origin, "/o2");
    assert_eq!(c.find_pair("zz").unwrap_err(), "không tìm thấy cặp thư mục");
    assert_eq!(c.scheduled_pairs(), None);
    c.set_auto(true, 0);
    assert_eq!(c.interval_minutes, 1);
    assert_eq!(c.schedule_minutes(), 1);
    assert_eq!(c.scheduled_pairs(), Some(vec!["p1".to_string(), "p2".to_string()]));
    c.remove_pair("p1");
    assert_eq!(c.pairs.len(), 1);
    assert_eq!(c.last_run_id(), Err("chưa có lần đồng bộ nào để hoàn tác".to_string()));
    c.last_run = Some("run-9".into());
    assert_eq!(c.last_run_id(), Ok("run-9".to_string()));
}

#[test]
fn side_choice_parsing() {
    assert_eq!(parse_side("working"), Ok(Side::Working));
    assert_eq!(parse_side("origin"), Ok(Side::Origin));
    assert_eq!(parse_side("both"), Err("lựa chọn không hợp lệ".to_string()));
}

#[test]
fn connection_events_only_on_change() {
    assert_eq!(conn_transition(None, true), None);
    assert_eq!(conn_transition(None, false), None);
    assert_eq!(conn_transition(Some(true), true), None);
    assert_eq!(conn_transition(Some(false), false), None);
    assert_eq!(conn_transition(Some(true), false), Some(ConnEvent::Disconnected));
    assert_eq!(conn_transition(Some(false), true), Some(ConnEvent::Reconnected));
}

#[test]
fn unreachable_folders_block_sync() {
    let p = V2Pair { id: "t".into(), name: "t".into(), origin: "/tmp".into(), working: "/khong/ton/tai/usb-rut-ra".into() };
    let err = pair_access_check(&p, true, false).unwrap_err();
    assert!(err.contains("không truy cập được"), "phải nêu rõ lý do: {}", err);
    assert!(err.contains("/khong/ton/tai/usb-rut-ra"));
    assert!(pair_access_check(&p, false, true).unwrap_err().starts_with("Thư mục gốc"));
    assert!(pair_access_check(&p, true, true).is_ok());
    let _ = v2pair("x");
}

#[test]
fn version_dto_copies_fields() {
    let v = Version {
        id: 7,
        pair: "p".into(),
        rel_path: "k.txt".into(),
        side: "working".into(),
        hash: "h".into(),
        size: 6,
        created_at: 99,
        op: "delete".into(),
    };
    let d = VersionDto::from_version(&v);
    assert_eq!((d.id, d.created_at, d.size, d.op.as_str()), (7, 99, 6, "delete"));
}

#[test]
fn log_file_names_and_expiry() {
    assert_eq!(log_file_name("2024-01-10"), "backup-2024-01-10.log");
    assert_eq!(log_date_part("backup-2024-01-10.log"), Some("2024-01-10".to_string()));
    assert_eq!(log_date_part("other.log"), None);
    assert_eq!(log_date_part("backup-2024-01-10.txt"), None);
    // 2024-01-10 is day 738895 of the common era.
    let day = 738895;
    assert!(!is_expired_log("backup-2024-01-10.log", day));
    assert!(!is_expired_log("backup-2024-01-10.log", day + 1));
    assert!(is_expired_log("backup-2024-01-10.log", day + 2));
    assert!(!is_expired_log("backup-notadate.log", day + 10));
    assert!(!is_expired_log("notes.txt", day + 10));
    assert_eq!(
        recent_log_names(day),
        vec!["backup-2024-01-09.log".to_string(), "backup-2024-01-10.log".to_string()]
    );
}

#[test]
fn log_lines_pad_the_level() {
    assert_eq!(log_line("2024-01-10 10:00:00", "INFO", "x"), "[2024-01-10 10:00:00] INFO  x");
    assert_eq!(log_line("t", "ERROR", "y"), "[t] ERROR y");
    assert_eq!(log_line("t", "DELETE", "z"), "[t] DELETE z");
    assert_eq!(log_line("t", "COPY", "a"), format!("[t] {:<5} a", "COPY"));
}

#[test]
fn trimming_removes_unicode_white_space_at_both_ends() {
    assert_eq!(trim_text("gdrive:"), "gdrive:");
    assert_eq!(trim_text(" \t a b \r\n"), "a b");
    assert_eq!(trim_text("\u{3000}\u{2028}x\u{00A0}"), "x");
    assert_eq!(trim_text(" \u{0085} "), "");
    assert_eq!(trim_text(""), "");
    assert_eq!(trim_text("\u{200B}y"), "\u{200B}y");
}
