use systemd_dashboard::logging::{log_dir_from_env, TestWriter};

#[test]
fn default_log_dir_prefers_xdg_data_home() {
    let dir = log_dir_from_env(Some("/tmp/xdg-fixture".into()), Some("/home/u".into())).unwrap();
    assert_eq!(dir, "/tmp/xdg-fixture/systemd-dashboard");
}

#[test]
fn default_log_dir_falls_back_to_home() {
    let dir = log_dir_from_env(None, Some("/home/u".into())).unwrap();
    assert!(dir.ends_with(".local/share/systemd-dashboard"));
    assert_eq!(dir, "/home/u/.local/share/systemd-dashboard");
}

#[test]
fn default_log_dir_errors_when_home_missing() {
    let res = log_dir_from_env(None, None);
    assert!(res.is_err());
    let msg = res.unwrap_err();
    assert!(msg.contains("HOME"), "unexpected error: {}", msg);
}

#[test]
fn default_log_dir_ignores_empty_xdg_data_home() {
    let dir = log_dir_from_env(Some(String::new()), Some("/home/u".into())).unwrap();
    assert!(dir.ends_with(".local/share/systemd-dashboard"));
}

#[test]
fn trailing_slash_is_not_doubled() {
    assert_eq!(
        log_dir_from_env(Some("/data/".into()), None).unwrap(),
        "/data/systemd-dashboard"
    );
    assert_eq!(
        log_dir_from_env(None, Some("/".into())).unwrap(),
        "/.local/share/systemd-dashboard"
    );
}

#[test]
fn test_writer_default_matches_new() {
    let w = TestWriter::default();
    let _ = w.snapshot();
}

#[test]
fn test_writer_handle_flush_succeeds() {
    let writer = TestWriter::new();
    let handle = writer.handle();
    assert_eq!(handle.write_bytes(b"test data"), 9);
    assert_eq!(writer.snapshot(), "test data");
}

#[test]
fn clones_and_handles_share_one_buffer() {
    let writer = TestWriter::new();
    let copy = writer.clone();
    assert_eq!(writer.snapshot(), "");
    copy.handle().write_bytes(b"a\xff");
    writer.handle().write_bytes(b"b");
    assert_eq!(writer.snapshot(), "a\u{FFFD}b");
    assert_eq!(copy.snapshot(), writer.snapshot());
}
