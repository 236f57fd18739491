use remi_client_sdk::clock::DomainTime;
use remi_client_sdk::json::Json;
use remi_client_sdk::telemetry::{
    ack_to_json, finish_report, parse_signed, prepare_report, read_event_timestamp, round_float,
    ReportAck, ReportOutcome, FIRST_SECOND, LAST_SECOND,
};

const REPORT: &str = r#"{
    "deviceId": "d", "generatedAt": "now", "eventCount": 2, "manual": true, "trigger": "t",
    "events": [
        {"type": "a", "timestamp": 1767225600},
        {"type": "b", "timestamp": "2026-01-01T08:00:00+08:00", "metadata": {"k": [1, null]}}
    ]
}"#;

#[test]
fn a_report_is_read() {
    let report = prepare_report(true, REPORT).unwrap();
    assert_eq!(report.device_id, "d");
    assert_eq!(report.generated_at, "now");
    assert_eq!(report.event_count, 2);
    assert!(report.manual);
    assert_eq!(report.trigger, "t");
    assert_eq!(report.events.len(), 2);
    assert_eq!(report.events[0].event_type, "a");
    assert_eq!(report.events[0].timestamp, "2026-01-01T00:00:00+00:00");
    assert_eq!(report.events[0].metadata_json, "{}");
    assert_eq!(report.events[1].timestamp, "2026-01-01T00:00:00+00:00");
    assert_eq!(report.events[1].metadata_json, r#"{"k":[1,null]}"#);
}

#[test]
fn a_report_needs_a_client_and_all_its_fields() {
    assert_eq!(prepare_report(false, REPORT).unwrap_err(), "Telemetry client is not configured");
    let err = prepare_report(true, "{").unwrap_err();
    assert!(err.starts_with("Invalid telemetry payload: "), "{err}");
    let err = prepare_report(true, "{}").unwrap_err();
    assert_eq!(err, "Invalid telemetry payload: missing field `deviceId`");
    let err = prepare_report(true, &REPORT.replace("\"type\": \"b\", ", "")).unwrap_err();
    assert_eq!(err, "Invalid telemetry payload: missing field `type`");
    let err = prepare_report(true, &REPORT.replace("1767225600", "true")).unwrap_err();
    assert!(err.contains("expected a unix timestamp"), "{err}");
}

fn seconds(value: Json) -> Result<i64, String> {
    read_event_timestamp(&value).map(|t| {
        assert_eq!(t.nanos, 0);
        t.seconds
    })
}

#[test]
fn a_time_is_a_number_or_a_text() {
    assert_eq!(seconds(Json::Number("-5".to_string())), Ok(-5));
    assert_eq!(seconds(Json::Number("1.5".to_string())), Ok(2));
    assert_eq!(seconds(Json::Number("-1.5".to_string())), Ok(-2));
    assert_eq!(seconds(Json::Number("1e3".to_string())), Ok(1000));
    assert_eq!(seconds(Json::text("+12")), Ok(12));
    assert_eq!(seconds(Json::text("-12")), Ok(-12));
    assert_eq!(seconds(Json::text("1970-01-01T00:01:00Z")), Ok(60));
    assert_eq!(
        seconds(Json::Number("18446744073709551615".to_string())),
        Err("Unix timestamp out of range: 18446744073709551615".to_string())
    );
    assert_eq!(
        seconds(Json::signed(i64::MAX)),
        Err("Invalid unix timestamp: 9223372036854775807".to_string())
    );
    assert_eq!(seconds(Json::text("noon")), Err("Invalid timestamp 'noon'".to_string()));
    assert!(seconds(Json::Null).is_err());
    let time = read_event_timestamp(&Json::text("1970-01-01T00:00:00.5Z")).unwrap();
    assert_eq!(time, DomainTime { seconds: 0, nanos: 500_000_000 });
}

#[test]
fn the_seconds_that_are_known_are_those_of_chrono() {
    assert!(chrono::DateTime::from_timestamp(FIRST_SECOND, 0).is_some());
    assert!(chrono::DateTime::from_timestamp(FIRST_SECOND - 1, 0).is_none());
    assert!(chrono::DateTime::from_timestamp(LAST_SECOND, 0).is_some());
    assert!(chrono::DateTime::from_timestamp(LAST_SECOND + 1, 0).is_none());
    assert_eq!(seconds(Json::signed(LAST_SECOND)), Ok(LAST_SECOND));
    assert!(seconds(Json::signed(LAST_SECOND + 1)).is_err());
    assert!(seconds(Json::signed(FIRST_SECOND - 1)).is_err());
}

#[test]
fn signs_and_bounds_of_whole_numbers() {
    for text in [
        "0", "-0", "+7", "-7", "9223372036854775807", "-9223372036854775808",
        "9223372036854775808", "-9223372036854775809", "", "+", "-", "-+1", "+-1", "1 ", "1.0",
    ] {
        assert_eq!(parse_signed(text), text.parse::<i64>().ok(), "{text}");
    }
}

#[test]
fn what_the_sender_is_told() {
    let ack = ReportAck { status: "ok".to_string(), received_at: "then".to_string() };
    assert_eq!(ack_to_json(&ack), r#"{"receivedAt":"then","status":"ok"}"#);
    let (told, kept) = finish_report(&ReportOutcome::Acknowledged { ack });
    assert_eq!(told.unwrap(), r#"{"receivedAt":"then","status":"ok"}"#);
    assert!(kept);
    let (told, kept) = finish_report(&ReportOutcome::Unreachable { fault: "no way".to_string() });
    assert_eq!(told, Err("no way".to_string()));
    assert!(kept);
    let (told, kept) = finish_report(&ReportOutcome::NoToken);
    assert_eq!(told.unwrap_err(), "Authentication bearer token is not configured");
    assert!(kept);
    let (told, kept) = finish_report(&ReportOutcome::TimedOut);
    assert_eq!(told.unwrap_err(), "Telemetry report request timed out");
    assert!(!kept);
    let (told, kept) = finish_report(&ReportOutcome::Refused { fault: "no".to_string() });
    assert_eq!(told.unwrap_err(), "Failed to send telemetry report: no");
    assert!(!kept);
}

#[test]
fn a_report_may_be_a_list_of_its_fields() {
    let report = prepare_report(
        true,
        r#"["d", "now", 2, [["a", 5], ["b", "6", {"k": 1}]], true, "t"]"#,
    )
    .unwrap();
    assert_eq!(report.device_id, "d");
    assert_eq!(report.event_count, 2);
    assert!(report.manual);
    assert_eq!(report.trigger, "t");
    assert_eq!(report.events[0].event_type, "a");
    assert_eq!(report.events[0].timestamp, "1970-01-01T00:00:05+00:00");
    assert_eq!(report.events[0].metadata_json, "{}");
    assert_eq!(report.events[1].metadata_json, r#"{"k":1}"#);
    assert!(prepare_report(true, r#"["d", "now", 0, [], true]"#).is_err());
    assert!(prepare_report(true, r#"["d", "now", 0, [], true, "t", 1]"#).is_err());
    assert!(prepare_report(true, r#"["d", "now", 1, [["a"]], true, "t"]"#).is_err());
}

#[test]
fn numbers_are_rounded_away_from_zero_at_a_half() {
    for value in [
        0.0, -0.0, 0.25, 0.5, -0.5, 0.49999999999999994, 1.5, -1.5, 2.5, -2.5, 1e-300, -1e-300,
        5e-324, 4503599627370495.5, 4503599627370496.5, 9007199254740993.0, 1e18, -1e18, 9.3e18,
        -9.3e18, 1e300, -1e300, f64::MAX, f64::INFINITY, f64::NEG_INFINITY, f64::NAN,
    ] {
        assert_eq!(round_float(value.to_bits()), value.round() as i64, "{value}");
    }
    assert_eq!(round_float(2.5f64.to_bits()), 3);
    assert_eq!(round_float((-2.5f64).to_bits()), -3);
    assert_eq!(round_float(f64::INFINITY.to_bits()), i64::MAX);
    assert_eq!(round_float(f64::NEG_INFINITY.to_bits()), i64::MIN);
}
