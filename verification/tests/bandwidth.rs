use vibe_easytier_service::bandwidth::{
    check_test_request, classify_iperf3_message, diagnostic_failure_kind,
    iperf3_client_arguments, iperf3_direction_from_value, iperf3_failure_kind,
    iperf3_server_arguments, parse_iperf3_json, should_retry, validate_duration,
    BandwidthErrorKind, BandwidthMeasurement, DirectionMeasurement, Iperf3BindTarget,
    Iperf3ServerPolicy, BANDWIDTH_TEST_PORT,
};
use vibe_easytier_service::telemetry::{DecimalReader, JsonNumber, JsonValue};

/// Reads decimal text the way the service host does, with floating point.
struct FloatReader;

impl DecimalReader for FloatReader {
    fn read_rounded(&self, text: &str) -> Option<u64> {
        text.parse::<f64>()
            .ok()
            .filter(|number| number.is_finite() && *number >= 0.0)
            .map(|number| number.round().min(u64::MAX as f64) as u64)
    }

    fn read_byte_size(&self, _text: &str) -> Option<u64> {
        None
    }

    fn read_whole(&self, text: &str) -> Option<u64> {
        text.parse::<f64>()
            .ok()
            .filter(|value| value.is_finite() && *value >= 0.0 && *value <= u64::MAX as f64)
            .map(|value| value.round() as u64)
    }
}

#[test]
fn bind_target_extracts_a_valid_virtual_ipv4() {
    assert_eq!(
        Iperf3BindTarget::from_cidr("100.76.1.2/32"),
        Some(Iperf3BindTarget {
            address: "100.76.1.2".to_owned()
        })
    );
    assert_eq!(Iperf3BindTarget::from_cidr("100.76.1.2/33"), None);
    assert_eq!(Iperf3BindTarget::from_cidr("not-an-address/24"), None);
}

#[test]
fn client_arguments_bind_the_virtual_interface_and_request_json() {
    let arguments = iperf3_client_arguments("100.76.1.2", "100.76.1.9", 29_999, 3, true);

    assert!(arguments
        .windows(2)
        .any(|pair| pair == ["--bind", "100.76.1.2"]));
    assert!(arguments
        .windows(2)
        .any(|pair| pair == ["--client", "100.76.1.9"]));
    assert!(arguments.windows(2).any(|pair| pair == ["--port", "29999"]));
    assert!(arguments.contains(&"--json".to_owned()));
    assert!(arguments.contains(&"--reverse".to_owned()));
}

#[test]
fn parser_uses_the_received_summary_from_iperf3_json() {
    let output = br#"{
        "end": {
            "sum_sent": { "bytes": 8000, "bits_per_second": 64000.0 },
            "sum_received": { "bytes": 7500, "bits_per_second": 60000.4 }
        }
    }"#;
    assert_eq!(
        parse_iperf3_json(output, &FloatReader).unwrap(),
        DirectionMeasurement {
            bits_per_second: 60_000,
            bytes: 7_500,
        }
    );
}

#[test]
fn parser_rejects_missing_or_malformed_transfer_summaries() {
    assert_eq!(
        parse_iperf3_json(br#"{"end":{}}"#, &FloatReader)
            .unwrap_err()
            .kind,
        BandwidthErrorKind::InvalidData
    );
    assert_eq!(
        parse_iperf3_json(b"not json", &FloatReader).unwrap_err().kind,
        BandwidthErrorKind::InvalidData
    );
}

#[test]
fn iperf3_busy_response_is_a_retryable_busy_error() {
    let error = parse_iperf3_json(br#"{"error":"the server is busy running a test"}"#, &FloatReader)
        .unwrap_err();
    assert_eq!(error.kind, BandwidthErrorKind::WouldBlock);
}

#[test]
fn test_rejects_the_local_node_as_its_own_peer() {
    let error = check_test_request("100.76.1.2", "100.76.1.2", 3).unwrap_err();
    assert_eq!(error.kind, BandwidthErrorKind::InvalidInput);
}

#[test]
fn durations_outside_one_to_ten_seconds_are_refused() {
    assert!(validate_duration(0).is_err());
    assert!(validate_duration(1).is_ok());
    assert!(validate_duration(10).is_ok());
    assert_eq!(
        validate_duration(11).unwrap_err().message,
        "iperf3 test duration is out of range"
    );
    assert!(check_test_request("100.76.1.2", "100.76.1.9", 3).is_ok());
}

#[test]
fn failures_are_classified_by_their_text() {
    assert_eq!(
        classify_iperf3_message("Unable to connect to server").kind,
        BandwidthErrorKind::ConnectionRefused
    );
    assert_eq!(
        classify_iperf3_message("control socket has TIMED OUT").kind,
        BandwidthErrorKind::TimedOut
    );
    assert_eq!(
        classify_iperf3_message("Cannot assign requested address").kind,
        BandwidthErrorKind::AddrNotAvailable
    );
    assert_eq!(classify_iperf3_message("weird").kind, BandwidthErrorKind::Other);
    assert_eq!(
        iperf3_failure_kind(b"", b"iperf3: error - the server is BUSY running a test"),
        BandwidthErrorKind::WouldBlock
    );
    assert_eq!(
        iperf3_failure_kind(b"no route to host\xff", b""),
        BandwidthErrorKind::ConnectionRefused
    );
    assert!(should_retry(0, BandwidthErrorKind::ConnectionRefused));
    assert!(should_retry(1, BandwidthErrorKind::NotConnected));
    assert!(!should_retry(2, BandwidthErrorKind::ConnectionRefused));
    assert!(!should_retry(0, BandwidthErrorKind::TimedOut));
}

#[test]
fn the_server_binds_the_virtual_address_on_the_test_port() {
    let arguments = iperf3_server_arguments("100.76.1.2");
    assert_eq!(
        arguments,
        vec![
            "--server",
            "--bind",
            "100.76.1.2",
            "--port",
            "29999",
            "--interval",
            "0",
            "--server-max-duration",
            "60",
            "--version4"
        ]
    );
    assert_eq!(BANDWIDTH_TEST_PORT, 29_999);
    let client = iperf3_client_arguments("a", "b", 1, 2, false);
    assert_eq!(client.len(), 16);
    assert!(!client.contains(&"--reverse".to_owned()));
    assert!(client.windows(2).any(|pair| pair == ["--connect-timeout", "4000"]));
    assert!(client.windows(2).any(|pair| pair == ["--omit", "1"]));
}

#[test]
fn the_server_follows_the_active_address_and_retries_after_a_failure() {
    let mut policy = Iperf3ServerPolicy::new();
    let step = policy.poll(None, false, 0);
    assert!(!step.stop);
    assert_eq!(step.start, None);

    let step = policy.poll(Some("10.0.0.1".to_owned()), false, 10);
    assert_eq!(step.start.as_deref(), Some("10.0.0.1"));
    policy.started(false, 10);
    assert_eq!(policy.poll(Some("10.0.0.1".to_owned()), false, 11).start, None);
    let step = policy.poll(Some("10.0.0.1".to_owned()), false, 2_010);
    assert_eq!(step.start.as_deref(), Some("10.0.0.1"));
    policy.started(true, 2_010);

    // Running: nothing to do until it exits.
    let step = policy.poll(Some("10.0.0.1".to_owned()), false, 2_020);
    assert!(!step.stop);
    assert_eq!(step.start, None);
    let step = policy.poll(Some("10.0.0.1".to_owned()), true, 2_030);
    assert_eq!(step.start, None);
    let step = policy.poll(Some("10.0.0.1".to_owned()), false, 4_030);
    assert_eq!(step.start.as_deref(), Some("10.0.0.1"));
    policy.started(true, 4_030);

    // A new address replaces the running server at once.
    let step = policy.poll(Some("10.0.0.2".to_owned()), false, 4_040);
    assert!(step.stop);
    assert_eq!(step.start.as_deref(), Some("10.0.0.2"));
    policy.started(true, 4_040);
    let step = policy.poll(None, false, 4_050);
    assert!(step.stop);
    assert_eq!(step.start, None);
}

#[test]
fn a_measurement_pairs_the_two_directions() {
    let m = BandwidthMeasurement::from_directions(
        DirectionMeasurement {
            bits_per_second: 10,
            bytes: 20,
        },
        DirectionMeasurement {
            bits_per_second: 30,
            bytes: 40,
        },
        3,
    );
    assert_eq!(m.upload_bps, 10);
    assert_eq!(m.upload_bytes, 20);
    assert_eq!(m.download_bps, 30);
    assert_eq!(m.download_bytes, 40);
    assert_eq!(m.duration_seconds, 3);
}


fn member(key: &str, value: JsonValue) -> (String, JsonValue) {
    (key.to_owned(), value)
}

fn number(text: &str, integer: Option<u64>) -> JsonValue {
    JsonValue::Number(JsonNumber {
        integer,
        text: text.to_owned(),
    })
}

#[test]
fn a_parsed_report_gives_the_received_summary() {
    let report = JsonValue::Object(vec![member(
        "end",
        JsonValue::Object(vec![
            member(
                "sum_received",
                JsonValue::Object(vec![
                    member("bytes", number("1000", Some(1000))),
                    member("bits_per_second", number("8000.4", None)),
                ]),
            ),
            member(
                "sum_sent",
                JsonValue::Object(vec![
                    member("bytes", number("5", Some(5))),
                    member("bits_per_second", number("1", Some(1))),
                ]),
            ),
        ]),
    )]);
    let measured = iperf3_direction_from_value(&report, &FloatReader).unwrap();
    assert_eq!(
        measured,
        DirectionMeasurement {
            bits_per_second: 8000,
            bytes: 1000
        }
    );
    let failed = JsonValue::Object(vec![member(
        "error",
        JsonValue::String("the server is busy running a test".to_owned()),
    )]);
    assert_eq!(
        iperf3_direction_from_value(&failed, &FloatReader).unwrap_err().kind,
        BandwidthErrorKind::WouldBlock
    );
    assert_eq!(
        iperf3_direction_from_value(&JsonValue::Null, &FloatReader)
            .unwrap_err()
            .message,
        "iperf3 JSON did not contain a transfer summary"
    );
}

#[test]
fn diagnostics_are_searched_across_both_streams() {
    assert_eq!(
        diagnostic_failure_kind("iperf3: error - unable to ", "connect to server"),
        BandwidthErrorKind::ConnectionRefused
    );
    assert_eq!(
        diagnostic_failure_kind("all good", "nothing to see"),
        BandwidthErrorKind::Other
    );
    assert_eq!(
        diagnostic_failure_kind("control socket timed", " out"),
        BandwidthErrorKind::TimedOut
    );
}
