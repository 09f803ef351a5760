use lally::aol::format_record;
use lally::operation::Operation;
use lally::record::{parse_aof_log, LogParseError};
use lally::timestamp::{
    compare_timestamps, create_timestamp, is_newer, is_representable, timestamp_from_rfc3339, timestamp_to_rfc3339,
    Timestamp,
};
use std::cmp::Ordering;

#[test]
fn format_record_writes_all_fields() {
    let op = Operation {
        name: "ADD".to_string(),
        level: "INFO".to_string(),
        key: "foo".to_string(),
        value: Some("bar".to_string()),
        timestamp: Timestamp { seconds: 1_705_322_096, nanos: 789_000_000 },
    };
    assert_eq!(
        format_record(&op),
        "timestamp=2024-01-15T12:34:56.789+00:00 operation=ADD level=INFO key=\"foo\" value=\"bar\""
    );
    let remove = Operation { name: "REMOVE".to_string(), value: None, ..op };
    assert_eq!(
        format_record(&remove),
        "timestamp=2024-01-15T12:34:56.789+00:00 operation=REMOVE level=INFO key=\"foo\""
    );
}

#[test]
fn parse_reads_documented_record() {
    let op = parse_aof_log("timestamp=2024-01-15T12:34:56.789Z operation=ADD level=INFO key=\"foo\" value=\"bar\"")
        .unwrap();
    assert_eq!(op.name, "ADD");
    assert_eq!(op.level, "INFO");
    assert_eq!(op.key, "foo");
    assert_eq!(op.value, Some("bar".to_string()));
    assert_eq!(op.timestamp, Timestamp { seconds: 1_705_322_096, nanos: 789_000_000 });
    let rm = parse_aof_log("timestamp=2024-01-15T12:34:57.001Z operation=REMOVE level=INFO key=\"foo\"").unwrap();
    assert_eq!(rm.name, "REMOVE");
    assert_eq!(rm.value, None);
    assert_eq!(rm.timestamp, Timestamp { seconds: 1_705_322_097, nanos: 1_000_000 });
}

#[test]
fn parse_last_field_wins_and_quotes_are_trimmed() {
    let op = parse_aof_log(
        "\tkey=\"a\"  noise key=\"\"b=c\"\" operation=ADD level=\"WARN\" timestamp=\"2024-01-15T12:34:56+01:00\"",
    )
    .unwrap();
    assert_eq!(op.key, "b=c");
    assert_eq!(op.level, "WARN");
    assert_eq!(op.timestamp, Timestamp { seconds: 1_705_318_496, nanos: 0 });
}

#[test]
fn parse_errors_name_the_missing_field() {
    let t = "timestamp=2024-01-15T12:34:56Z";
    assert_eq!(parse_aof_log("").unwrap_err(), LogParseError::EmptyLine);
    assert_eq!(parse_aof_log(" \t ").unwrap_err(), LogParseError::EmptyLine);
    assert_eq!(parse_aof_log(&format!("{t} level=INFO key=\"k\"")).unwrap_err(), LogParseError::MissingOperation);
    assert_eq!(parse_aof_log(&format!("{t} operation=ADD level=INFO")).unwrap_err(), LogParseError::MissingKey);
    assert_eq!(parse_aof_log(&format!("{t} operation=ADD key=\"k\"")).unwrap_err(), LogParseError::MissingLevel);
    assert_eq!(parse_aof_log("operation=ADD level=INFO key=\"k\"").unwrap_err(), LogParseError::MissingTimestamp);
    assert_eq!(
        parse_aof_log("timestamp=yesterday operation=ADD level=INFO key=\"k\"").unwrap_err(),
        LogParseError::BadTimestamp
    );
}

#[test]
fn rfc3339_texts_round_trip() {
    let t = Timestamp { seconds: 1_705_322_096, nanos: 789_000_000 };
    let text = timestamp_to_rfc3339(&t);
    assert_eq!(text, "2024-01-15T12:34:56.789+00:00");
    assert_eq!(timestamp_from_rfc3339(&text).unwrap(), t);
    assert!(timestamp_from_rfc3339("2024-13-01T00:00:00Z").is_err());
}

#[test]
fn timestamps_order_by_seconds_then_nanos() {
    let a = Timestamp { seconds: 10, nanos: 5 };
    let b = Timestamp { seconds: 10, nanos: 6 };
    let c = Timestamp { seconds: 11, nanos: 0 };
    assert_eq!(compare_timestamps(&a, &b), Ordering::Less);
    assert_eq!(compare_timestamps(&c, &b), Ordering::Greater);
    assert_eq!(compare_timestamps(&a, &a), Ordering::Equal);
    assert!(is_newer(&c, &a));
    assert!(!is_newer(&a, &a));
}

#[test]
fn clock_timestamps_are_representable_and_advance() {
    let first = create_timestamp();
    let second = create_timestamp();
    assert!(is_representable(&first));
    assert!(first.seconds > 1_700_000_000);
    assert_ne!(compare_timestamps(&first, &second), Ordering::Greater);
    assert!(!is_representable(&Timestamp { seconds: 0, nanos: 1_000_000_000 }));
    assert!(!is_representable(&Timestamp { seconds: i64::MAX, nanos: 0 }));
}
