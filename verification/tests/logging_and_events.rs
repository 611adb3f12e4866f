use ssmt::launch_barrier::{
    barrier_id, ready_event_name, release_event_name, run_argument, wait_outcome, wait_timeout_ms,
    windows_error_text, LaunchBarrierError, WAIT_OBJECT_0, WAIT_TIMEOUT,
};
use ssmt::launch_events::{accept_launch_event, check_launch_line, trim_text, LaunchEvent, LaunchEventParseError};
use ssmt::logging::{log_entry, log_file_name, log_trim_start, validate_plugin_id, PluginLogWriter, MAX_LOG_BYTES};

#[test]
fn rejects_path_injection() {
    assert!(validate_plugin_id("../escape").is_err());
    assert!(validate_plugin_id("ssmt.fixture").is_ok());
}

#[test]
fn log_ids_lines_and_trimming() {
    assert!(validate_plugin_id("").is_err());
    assert!(validate_plugin_id(&"a".repeat(128)).is_ok());
    assert!(validate_plugin_id(&"a".repeat(129)).is_err());
    assert!(validate_plugin_id("a:b").is_err());
    assert_eq!(validate_plugin_id("a/b").unwrap_err().kind(), std::io::ErrorKind::InvalidInput);
    assert_eq!(log_file_name("ssmt.fixture"), "ssmt.fixture.log");
    assert_eq!(log_entry("ssmt.fixture", "stdout", "hello"), "[Plugin:ssmt.fixture] [stdout] hello\n");
    assert_eq!(log_trim_start(10), None);
    assert_eq!(log_trim_start(MAX_LOG_BYTES as u64), None);
    assert_eq!(log_trim_start(MAX_LOG_BYTES as u64 + 5), Some(5));
    let writer = PluginLogWriter::new("/logs", "ssmt.fixture").unwrap();
    assert_eq!(writer.path(), "/logs/ssmt.fixture.log");
    assert_eq!(writer.plugin_id(), "ssmt.fixture");
    assert_eq!(writer.entry("stderr", "x"), "[Plugin:ssmt.fixture] [stderr] x\n");
    assert!(PluginLogWriter::new("/logs", "../x").is_err());
}

#[test]
fn ignores_blank_lines_and_rejects_missing_event() {
    assert_eq!(check_launch_line("  \n").unwrap(), None);
    assert!(matches!(check_launch_line(r#"{"pid":42}"#), Err(LaunchEventParseError::MissingEvent)));
    assert!(matches!(check_launch_line(r#"{"event":42}"#), Err(LaunchEventParseError::MissingEvent)));
    assert!(matches!(check_launch_line("{oops"), Err(LaunchEventParseError::InvalidJson(_))));
    assert_eq!(
        check_launch_line("  {\"event\":\"target_created\",\"pid\":42}\r\n").unwrap(),
        Some("{\"event\":\"target_created\",\"pid\":42}".to_string())
    );
    assert_eq!(trim_text("\t a b \n"), "a b");
    assert_eq!(trim_text("   "), "");
}

#[test]
fn blank_event_names_are_missing_events() {
    let event = LaunchEvent {
        event: " ".to_string(),
        pid: Some(42),
        module: None,
        stage: None,
        code: None,
        message: None,
        details: serde_json::Map::new(),
    };
    assert!(matches!(accept_launch_event(event), Err(LaunchEventParseError::MissingEvent)));
    let event = LaunchEvent {
        event: "target_created".to_string(),
        pid: Some(42),
        module: None,
        stage: None,
        code: None,
        message: None,
        details: serde_json::Map::new(),
    };
    let accepted = accept_launch_event(event).unwrap().unwrap();
    assert_eq!(accepted.event, "target_created");
    assert_eq!(accepted.pid, Some(42));
    assert_eq!(LaunchEventParseError::MissingEvent.message(), "launch event is missing event");
}

#[test]
fn barrier_names_and_waits() {
    assert_eq!(barrier_id(0x1f, 255, 1), "1f-ff-1");
    assert_eq!(ready_event_name("1f-ff-1"), "Local\\SSMT4.Launch.1f-ff-1.Ready");
    assert_eq!(release_event_name("1f-ff-1"), "Local\\SSMT4.Launch.1f-ff-1.Release");
    assert_eq!(run_argument("1f-ff-1"), "--launch-barrier 1f-ff-1");
    assert_eq!(wait_timeout_ms(1500), 1500);
    assert_eq!(wait_timeout_ms(u128::MAX), u32::MAX);
    assert_eq!(wait_outcome(WAIT_OBJECT_0, "x"), Ok(()));
    assert_eq!(wait_outcome(WAIT_TIMEOUT, "x"), Err(LaunchBarrierError::ArrivalTimeout));
    assert_eq!(wait_outcome(0xFFFF_FFFF, "Windows error 6"), Err(LaunchBarrierError::WaitFailed("Windows error 6".to_string())));
    assert_eq!(windows_error_text(6), "Windows error 6");
    assert_eq!(
        LaunchBarrierError::ArrivalTimeout.message(),
        "Run.exe did not reach before-resume barrier in time"
    );
    assert_eq!(LaunchBarrierError::UnsupportedPlatform.message(), "launch barrier requires Windows");
}

#[test]
fn parses_known_and_future_fields_without_losing_data() {
    let line = r#"{"event":"target_created","pid":42,"future":"kept"}"#;
    assert_eq!(check_launch_line(line).unwrap(), Some(line.to_string()));
    // The decoded event keeps unknown members in `details`, and acceptance keeps it whole.
    let mut details = serde_json::Map::new();
    details.insert("future".to_string(), serde_json::Value::from("kept"));
    let decoded = LaunchEvent {
        event: "target_created".to_string(),
        pid: Some(42),
        module: None,
        stage: None,
        code: None,
        message: None,
        details,
    };
    let event = accept_launch_event(decoded).unwrap().unwrap();
    assert_eq!(event.event, "target_created");
    assert_eq!(event.pid, Some(42));
    assert_eq!(event.details["future"], "kept");
}
