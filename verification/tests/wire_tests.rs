use download_core::events::EventStatus;
use download_core::wire::cancel_command;
use download_core::wire::parse_status_line;
use download_core::wire::start_command;
use download_core::wire::LineError;

#[test]
fn start_command_shape() {
    let cmd = start_command(
        &"http://x/file.zip".to_string(),
        &"/downloads".to_string(),
        &"d1".to_string(),
        &"file.zip".to_string(),
    );
    assert_eq!(
        cmd,
        "{\"action\":\"setDownload\",\"url\":\"http://x/file.zip\",\
         \"saveFolder\":\"/downloads\",\"downloadId\":\"d1\",\"filename\":\"file.zip\"}"
    );
}

#[test]
fn cancel_command_shape() {
    let cmd = cancel_command(&"d1".to_string());
    assert_eq!(cmd, "{\"action\":\"cancelDownload\",\"downloadId\":\"d1\"}");
}

#[test]
fn command_escapes_quotes_and_backslashes() {
    let cmd = cancel_command(&"a\"b\\c".to_string());
    assert_eq!(cmd, "{\"action\":\"cancelDownload\",\"downloadId\":\"a\\\"b\\\\c\"}");
}

#[test]
fn parse_full_event() {
    let ev = parse_status_line(
        "{\"downloadId\":\"d1\",\"status\":\"success\",\"path\":\"/tmp/f\",\
         \"filename\":\"f.zip\",\"message\":\"ok\",\"downloadStarted\":true}",
    )
    .expect("well-formed event");
    assert_eq!(ev.download_id, "d1");
    assert!(matches!(ev.status, EventStatus::Success));
    assert_eq!(ev.path.as_deref(), Some("/tmp/f"));
    assert_eq!(ev.filename.as_deref(), Some("f.zip"));
    assert_eq!(ev.message.as_deref(), Some("ok"));
    assert!(ev.download_started);
    assert_eq!(ev.progress, None);
}

#[test]
fn parse_tolerates_spacing_and_key_order() {
    let ev = parse_status_line(
        "  { \"progress\" : 42.5 , \"downloadId\" : \"d2\" , \"status\" : \"progress\" }  ",
    )
    .expect("spacing is allowed");
    assert_eq!(ev.download_id, "d2");
    assert!(matches!(ev.status, EventStatus::Progress));
    assert_eq!(ev.progress, Some(4250));
    assert!(!ev.download_started);
}

#[test]
fn parse_integer_progress() {
    let ev = parse_status_line("{\"downloadId\":\"d\",\"status\":\"progress\",\"progress\":7}")
        .unwrap();
    assert_eq!(ev.progress, Some(700));
}

#[test]
fn parse_negative_progress_reads_zero() {
    let ev = parse_status_line("{\"downloadId\":\"d\",\"status\":\"progress\",\"progress\":-3.5}")
        .unwrap();
    assert_eq!(ev.progress, Some(0));
}

#[test]
fn parse_fraction_truncates_after_two_digits() {
    let ev = parse_status_line("{\"downloadId\":\"d\",\"progress\":12.3456}").unwrap();
    assert_eq!(ev.progress, Some(1234));
}

#[test]
fn parse_huge_progress_saturates() {
    let ev = parse_status_line("{\"downloadId\":\"d\",\"progress\":99999999999999999999}")
        .unwrap();
    assert_eq!(ev.progress, Some(u32::MAX));
}

#[test]
fn parse_unknown_status_word() {
    let ev = parse_status_line("{\"downloadId\":\"d\",\"status\":\"paused\"}").unwrap();
    match ev.status {
        EventStatus::Other(w) => assert_eq!(w, "paused"),
        _ => panic!("expected the unknown word to be carried"),
    }
}

#[test]
fn parse_missing_status_reads_unknown() {
    let ev = parse_status_line("{\"downloadId\":\"d\"}").unwrap();
    match ev.status {
        EventStatus::Other(w) => assert_eq!(w, "unknown"),
        _ => panic!("a missing status reads as the unknown word"),
    }
}

#[test]
fn parse_non_json_line_is_dropped() {
    assert!(matches!(
        parse_status_line("starting engine v1.2"),
        Err(LineError::NotJson)
    ));
    assert!(matches!(parse_status_line(""), Err(LineError::NotJson)));
    assert!(matches!(
        parse_status_line("{\"downloadId\":\"d\""),
        Err(LineError::NotJson)
    ));
    assert!(matches!(
        parse_status_line("{\"downloadId\":\"d\"} trailing"),
        Err(LineError::NotJson)
    ));
}

#[test]
fn parse_missing_download_id() {
    assert!(matches!(
        parse_status_line("{\"status\":\"error\"}"),
        Err(LineError::MissingDownloadId)
    ));
    // A non-string downloadId is as good as none.
    assert!(matches!(
        parse_status_line("{\"downloadId\":7}"),
        Err(LineError::MissingDownloadId)
    ));
}

#[test]
fn parse_repeated_key_last_wins() {
    let ev = parse_status_line("{\"downloadId\":\"a\",\"downloadId\":\"b\"}").unwrap();
    assert_eq!(ev.download_id, "b");
}

#[test]
fn parse_escaped_strings_in_event() {
    let ev = parse_status_line(
        "{\"downloadId\":\"d\",\"message\":\"disk \\\"full\\\" on C:\\\\\"}",
    )
    .unwrap();
    assert_eq!(ev.message.as_deref(), Some("disk \"full\" on C:\\"));
}

#[test]
fn parse_empty_object_misses_id() {
    assert!(matches!(parse_status_line("{}"), Err(LineError::MissingDownloadId)));
    assert!(matches!(
        parse_status_line("  { }  "),
        Err(LineError::MissingDownloadId)
    ));
}

#[test]
fn parse_null_and_bool_values() {
    let ev = parse_status_line(
        "{\"downloadId\":\"d\",\"path\":null,\"downloadStarted\":false}",
    )
    .unwrap();
    assert_eq!(ev.path, None);
    assert!(!ev.download_started);
}
