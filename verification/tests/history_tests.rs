use motion_desk::history::{heartbeat_sample, HEARTBEAT_SECS, now_ts, record_fields, recent_from_lines, recent_samples, timestamp_from_secs, NotifyLog};

#[test]
fn now_is_after_2020() {
    assert!(now_ts() > 1_577_836_800);
}

#[test]
fn timestamps_from_clock() {
    assert_eq!(timestamp_from_secs(Some(1_700_000_000)), 1_700_000_000);
    assert_eq!(timestamp_from_secs(None), 0);
    assert_eq!(timestamp_from_secs(Some(u64::MAX)), -1);
    assert_eq!(timestamp_from_secs(Some(1u64 << 63)), i64::MIN);
}

#[test]
fn record_fields_split_at_first_comma() {
    let line = b"1700000000,78.5";
    assert_eq!(record_fields(line), Some((1_700_000_000, 11)));
    assert_eq!(&line[11..], b"78.5");
    assert_eq!(record_fields(b"12,3,4"), Some((12, 3)));
}

#[test]
fn record_fields_rejects() {
    assert_eq!(record_fields(b"1700000000"), None);
    assert_eq!(record_fields(b"abc,78.5"), None);
    assert_eq!(record_fields(b",78.5"), None);
    assert_eq!(record_fields(b""), None);
}

#[test]
fn notify_log_first_is_recorded() {
    let mut log = NotifyLog::new();
    assert!(log.record(100, 1500));
    assert_eq!(log.last_logged, Some((100, 1500)));
}

#[test]
fn notify_log_once_per_second_while_moving() {
    let mut log = NotifyLog::new();
    assert!(log.record(100, 1500));
    assert!(!log.record(100, 1510)); // same second
    assert!(!log.record(101, 1500)); // same position
    assert!(log.record(101, 1520));
    assert_eq!(log.last_logged, Some((101, 1520)));
}

#[test]
fn window_carries_last_earlier_sample() {
    let records = vec![(10i64, 70.0f32), (20, 75.0), (40, 110.0), (50, 75.0)];
    let w = recent_samples(&records, 60, 30);
    assert_eq!(w, vec![(30, 75.0), (40, 110.0), (50, 75.0)]);
}

#[test]
fn window_without_earlier_sample() {
    let records = vec![(40i64, 110.0f32), (50, 75.0)];
    assert_eq!(recent_samples(&records, 60, 30), records);
    let empty: Vec<(i64, f32)> = Vec::new();
    assert_eq!(recent_samples(&empty, 60, 30), empty);
}

#[test]
fn window_keeps_file_order() {
    let records = vec![(45i64, 1u8), (10, 2), (35, 3), (20, 4)];
    assert_eq!(recent_samples(&records, 60, 30), vec![(30, 4), (45, 1), (35, 3)]);
}

#[test]
fn malformed_lines_change_nothing() {
    let clean = vec![Some((10i64, 70.0f32)), Some((40, 110.0))];
    let noisy = vec![None, Some((10i64, 70.0f32)), None, None, Some((40, 110.0)), None];
    let w = recent_from_lines(&clean, 60, 30);
    assert_eq!(w, vec![(30, 70.0), (40, 110.0)]);
    assert_eq!(recent_from_lines(&noisy, 60, 30), w);
}

#[test]
fn heartbeat_skips_first_tick() {
    assert_eq!(HEARTBEAT_SECS, 300);
    assert_eq!(heartbeat_sample(0, Some(78.0f32)), None);
    assert_eq!(heartbeat_sample(1, Some(78.0f32)), Some(78.0));
    assert_eq!(heartbeat_sample::<f32>(5, None), None);
}

#[test]
fn appended_record_ends_window() {
    let lines = vec![Some((10i64, 70.0f32)), None, Some((90, 110.0)), Some((100, 75.5))];
    let w = recent_from_lines(&lines, 100, 86400);
    assert_eq!(w.last(), Some(&(100, 75.5)));
    let w = recent_from_lines(&lines, 100, 0);
    assert_eq!(w, vec![(100, 110.0), (100, 75.5)]);
}
