use goop_converter::progress::{parse_kv_line, ProgressState, MIN_EMIT_INTERVAL_MS};

#[test]
fn parses_plain_kv() {
    assert_eq!(parse_kv_line("speed=1.23x"), Some(("speed", "1.23x")));
    assert_eq!(parse_kv_line("  progress = end  "), Some(("progress", "end")));
}

#[test]
fn rejects_malformed() {
    assert_eq!(parse_kv_line(""), None);
    assert_eq!(parse_kv_line("  "), None);
    assert_eq!(parse_kv_line("no_equals"), None);
    assert_eq!(parse_kv_line("=noval"), None);
}

#[test]
fn progress_lines_update_the_state() {
    let mut s = ProgressState::new(10_000);
    assert_eq!(s.ingest("out_time_us=5000000", 0), None);
    assert_eq!(s.out_time_ms, 5_000);
    assert_eq!(s.ingest("speed=2.0x", 0), None);
    assert_eq!(s.speed_text.as_deref(), Some("2.0x"));
    assert_eq!(s.ingest("total_size=1048576", 0), None);
    assert_eq!(s.bytes, Some(1_048_576));
}

#[test]
fn throttle_elides_rapid_updates() {
    let mut s = ProgressState::new(10_000);
    assert_eq!(s.ingest("progress=continue", 1_000), Some(false));
    assert_eq!(s.ingest("progress=continue", 1_000 + MIN_EMIT_INTERVAL_MS - 1), None);
    assert_eq!(s.ingest("progress=continue", 1_000 + MIN_EMIT_INTERVAL_MS), Some(false));
}

#[test]
fn end_is_always_emitted() {
    let mut s = ProgressState::new(1_000);
    assert_eq!(s.ingest("progress=continue", 5), Some(false));
    assert_eq!(s.ingest("progress=end", 6), Some(true));
}

#[test]
fn unrecognised_lines_change_nothing() {
    let mut s = ProgressState::new(1_000);
    let before = s.clone();
    assert_eq!(s.ingest("garbage", 10), None);
    assert_eq!(s, before);
}
