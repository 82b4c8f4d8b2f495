use vibe_easytier_service::telemetry::{
    health_sample_from_cli, is_local_peer, merge_connected_peer_rows, peer_count_from_cli_json,
    peer_count_from_cli_value, peers_from_cli_value, route_count_from_cli_value,
    traffic_from_cli_value, JsonNumber, JsonValue,
    peers_from_cli_json, protocol_csv, route_count_from_cli_json, sanitize_tunnel_protocol,
    traffic_from_cli_json, CoreTraffic, DecimalReader,
};
use vibe_easytier_service::protocol::ConnectedPeer;

/// Reads decimal text the way the service host does, with floating point.
struct FloatReader;

impl DecimalReader for FloatReader {
    fn read_rounded(&self, text: &str) -> Option<u64> {
        text.parse::<f64>()
            .ok()
            .filter(|number| number.is_finite() && *number >= 0.0)
            .map(|number| number.round().min(u64::MAX as f64) as u64)
    }

    fn read_byte_size(&self, text: &str) -> Option<u64> {
        let value = text.trim();
        let unit_start = value
            .char_indices()
            .find_map(|(index, character)| {
                (!character.is_ascii_digit() && character != '.' && character != ',')
                    .then_some(index)
            })
            .unwrap_or(value.len());
        let number = value[..unit_start].replace(',', "").parse::<f64>().ok()?;
        if !number.is_finite() || number < 0.0 {
            return None;
        }
        let multiplier = match value[unit_start..].trim().to_ascii_lowercase().as_str() {
            "" | "b" => 1_f64,
            "kb" | "kib" => 1_024_f64,
            "mb" | "mib" => 1_024_f64.powi(2),
            "gb" | "gib" => 1_024_f64.powi(3),
            "tb" | "tib" => 1_024_f64.powi(4),
            _ => return None,
        };
        Some((number * multiplier).round().min(u64::MAX as f64) as u64)
    }

    fn read_whole(&self, text: &str) -> Option<u64> {
        text.parse::<f64>()
            .ok()
            .filter(|value| value.is_finite() && *value >= 0.0 && *value <= u64::MAX as f64)
            .map(|value| value.round() as u64)
    }
}

/// A reader that cannot read anything, so only JSON integers count.
struct NoReader;

impl DecimalReader for NoReader {
    fn read_rounded(&self, _text: &str) -> Option<u64> {
        None
    }

    fn read_byte_size(&self, _text: &str) -> Option<u64> {
        None
    }

    fn read_whole(&self, _text: &str) -> Option<u64> {
        None
    }
}

#[test]
fn cli_peer_json_parser_accepts_known_list_shapes_without_guessing() {
    assert_eq!(peer_count_from_cli_json("[]"), Some(0));
    assert_eq!(peer_count_from_cli_json(r#"{"peers":[{},{}]}"#), Some(2));
    assert_eq!(
        peer_count_from_cli_json(r#"{"data":{"peer_infos":[{}]}}"#),
        Some(1)
    );
    assert_eq!(peer_count_from_cli_json(r#"{"unexpected":[]}"#), None);
}

#[test]
fn cli_peer_json_parser_sanitizes_peer_rows() {
    let peers = peers_from_cli_json(
        r#"[
          {
            "cidr": "10.251.0.1/24",
            "ipv4": "10.251.0.1",
            "hostname": "probe-one",
            "cost": "Local",
            "lat_ms": "12.6",
            "rx_bytes": "123",
            "tx_bytes": "456",
            "tunnel_proto": "tcp",
            "nat_type": "Unknown",
            "id": "2857754789",
            "version": "2.6.4-8428a89d"
          }
        ]"#,
        &FloatReader,
    )
    .unwrap();

    assert_eq!(peers.len(), 1);
    assert_eq!(peers[0].id, "2857754789");
    assert_eq!(peers[0].hostname, "probe-one");
    assert_eq!(peers[0].ipv4, "10.251.0.1");
    assert_eq!(peers[0].latency_ms, Some(13));
    assert_eq!(peers[0].rx_bytes, Some(123));
    assert_eq!(peers[0].tx_bytes, Some(456));
    assert_eq!(peers[0].protocols, vec!["tcp"]);
    assert_eq!(peers[0].tunnel_protocol.as_deref(), Some("tcp"));
}

#[test]
fn cli_route_and_stats_parsers_use_live_core_metrics() {
    assert_eq!(
        route_count_from_cli_json(r#"[{"ipv4":"local"},{"ipv4":"remote"}]"#),
        Some(2)
    );
    assert_eq!(
        route_count_from_cli_json(r#"{"data":{"routes":[{}, {}, {}]}}"#),
        Some(3)
    );
    assert_eq!(route_count_from_cli_json(r#"{"unknown":[]}"#), None);

    let traffic = traffic_from_cli_json(
        r#"[
          {"name":"traffic_bytes_tx","value":999},
          {"name":"traffic_bytes_rx","value":"888"},
          {"name":"traffic_bytes_self_tx","value":10802127},
          {"name":"traffic_bytes_self_rx","value":122278646}
        ]"#,
        &FloatReader,
    )
    .unwrap();
    assert_eq!(
        traffic,
        CoreTraffic {
            tx_bytes: 10_802_127,
            rx_bytes: 122_278_646,
        }
    );

    let fallback = traffic_from_cli_json(
        r#"{"stats":[{"name":"traffic_bytes_tx","value":42},{"name":"traffic_bytes_rx","value":84}]}"#,
        &FloatReader,
    )
    .unwrap();
    assert_eq!(
        fallback,
        CoreTraffic {
            tx_bytes: 42,
            rx_bytes: 84
        }
    );
}

#[test]
fn cli_peer_json_parser_exposes_multiple_sanitized_protocols_per_peer() {
    let peers = peers_from_cli_json(
        r#"[
          {
            "id": "remote",
            "hostname": "remote-node",
            "ipv4": "10.44.0.3",
            "tunnel_proto": " TCP, wg, tcp6, bad://secret, WSS "
          }
        ]"#,
        &FloatReader,
    )
    .unwrap();

    assert_eq!(peers.len(), 1);
    assert_eq!(peers[0].protocols, vec!["tcp", "wg", "tcp6", "wss"]);
    assert_eq!(peers[0].tunnel_protocol.as_deref(), Some("tcp,wg,tcp6,wss"));
}

#[test]
fn cli_peer_json_parser_accepts_a_future_protocol_array_and_merges_duplicate_rows() {
    let peers = peers_from_cli_json(
        r#"{
          "peers": [
            {
              "id": "remote",
              "hostname": "first-name-wins",
              "ipv4": "10.44.0.3",
              "tunnel_protocols": ["udp", "wg", "unsafe:value"]
            },
            {
              "id": "remote",
              "hostname": "must-not-replace",
              "ipv4": "10.44.0.4",
              "tunnel_proto": "tcp,wg,quic"
            }
          ]
        }"#,
        &FloatReader,
    )
    .unwrap();

    assert_eq!(peers.len(), 1);
    assert_eq!(peers[0].hostname, "first-name-wins");
    assert_eq!(peers[0].ipv4, "10.44.0.3");
    assert_eq!(peers[0].protocols, vec!["udp", "wg", "tcp", "quic"]);
    assert_eq!(peers[0].tunnel_protocol.as_deref(), Some("udp,wg,tcp,quic"));
}

#[test]
fn transport_labels_are_a_closed_vocabulary() {
    assert_eq!(sanitize_tunnel_protocol(" TCP ").as_deref(), Some("tcp"));
    assert_eq!(sanitize_tunnel_protocol("udp6").as_deref(), Some("udp6"));
    assert_eq!(
        sanitize_tunnel_protocol("txt-wss").as_deref(),
        Some("txt-wss")
    );
    assert_eq!(
        sanitize_tunnel_protocol("faketcp_windivert").as_deref(),
        Some("faketcp_windivert")
    );
    assert_eq!(sanitize_tunnel_protocol("faketcp_other"), None);
    assert_eq!(sanitize_tunnel_protocol("evil-tcp"), None);
    assert_eq!(sanitize_tunnel_protocol("-"), None);
    assert_eq!(sanitize_tunnel_protocol(""), None);
    assert_eq!(sanitize_tunnel_protocol("bad://secret"), None);
    assert_eq!(sanitize_tunnel_protocol("tcpé"), None);
    assert_eq!(sanitize_tunnel_protocol(&"a".repeat(49)), None);
}

#[test]
fn at_most_twelve_transports_are_kept() {
    let many = (0..20)
        .map(|index| format!("txt-tcp{}", if index % 2 == 0 { "6" } else { "" }))
        .chain(
            [
                "tcp", "udp", "wg", "ws", "wss", "quic", "faketcp", "ring", "unix", "udp6",
                "wg6", "ws6", "wss6", "quic6",
            ]
            .iter()
            .map(|s| (*s).to_owned()),
        )
        .collect::<Vec<_>>()
        .join(",");
    let json = format!(r#"[{{"id":"p","tunnel_proto":"{many}"}}]"#);
    let peers = peers_from_cli_json(&json, &FloatReader).unwrap();
    assert_eq!(peers[0].protocols.len(), 12);
    assert_eq!(peers[0].protocols[0], "txt-tcp6");
    assert_eq!(peers[0].protocols[1], "txt-tcp");
}

#[test]
fn rows_without_an_id_are_skipped_and_missing_fields_have_defaults() {
    let peers = peers_from_cli_json(
        r#"[{"hostname":"no-id"},{"id":""},{"peer_id":7,"cidr":"10.1.2.3/24","cost":"-","lat_ms":5000000000},"text"]"#,
        &NoReader,
    )
    .unwrap();
    assert_eq!(peers.len(), 1);
    assert_eq!(peers[0].id, "7");
    assert_eq!(peers[0].hostname, "7");
    assert_eq!(peers[0].ipv4, "10.1.2.3");
    assert_eq!(peers[0].cidr.as_deref(), Some("10.1.2.3/24"));
    assert_eq!(peers[0].cost, None);
    assert_eq!(peers[0].latency_ms, None);
    assert!(peers[0].protocols.is_empty());
    assert_eq!(peers[0].tunnel_protocol, None);

    let no_address = peers_from_cli_json(r#"[{"id":"x"}]"#, &NoReader).unwrap();
    assert_eq!(no_address[0].ipv4, "--");
    assert_eq!(peers_from_cli_json("not json", &NoReader), None);
}

#[test]
fn text_numbers_need_the_host_reader() {
    let peers = peers_from_cli_json(
        r#"[{"id":"r","lat_ms":"12.6","latency_ms":7,"rx_bytes":"1 KiB"}]"#,
        &NoReader,
    )
    .unwrap();
    // The unreadable text is passed over for the next key.
    assert_eq!(peers[0].latency_ms, Some(7));
    assert_eq!(peers[0].rx_bytes, None);
    let peers = peers_from_cli_json(r#"[{"id":"r","rx_bytes":"1 KiB"}]"#, &FloatReader).unwrap();
    assert_eq!(peers[0].rx_bytes, Some(1024));
}

fn row(id: &str, cost: Option<&str>, protocols: &[&str]) -> ConnectedPeer {
    ConnectedPeer {
        id: id.to_owned(),
        hostname: id.to_owned(),
        ipv4: "10.0.0.1".to_owned(),
        cidr: None,
        cost: cost.map(str::to_owned),
        latency_ms: None,
        rx_bytes: None,
        tx_bytes: None,
        protocols: protocols.iter().map(|p| (*p).to_owned()).collect(),
        tunnel_protocol: None,
        nat_type: None,
        version: None,
    }
}

#[test]
fn merging_keeps_the_first_row_of_each_peer() {
    let merged = merge_connected_peer_rows(vec![
        row("a", None, &["tcp"]),
        row("b", None, &["udp"]),
        row("a", Some("x"), &["tcp", "wg"]),
    ]);
    assert_eq!(merged.len(), 2);
    assert_eq!(merged[0].id, "a");
    assert_eq!(merged[0].protocols, vec!["tcp", "wg"]);
    assert_eq!(merged[0].tunnel_protocol.as_deref(), Some("tcp,wg"));
    assert_eq!(merged[0].cost, None);
    assert_eq!(merged[1].id, "b");
    assert_eq!(protocol_csv(&vec![]), None);
    assert!(is_local_peer(&row("me", Some("LOCAL"), &[])));
    assert!(!is_local_peer(&row("you", Some("p2p"), &[])));
}

#[test]
fn health_samples_count_only_remote_peers() {
    let sample = health_sample_from_cli(
        true,
        true,
        Some(r#"[{"id":"me","cost":"Local"},{"id":"peer","cost":"p2p"}]"#.to_owned()),
        Some("[{},{}]".to_owned()),
        Some(r#"[{"name":"traffic_bytes_tx","value":5},{"name":"traffic_bytes_rx","value":6}]"#.to_owned()),
        &FloatReader,
    );
    assert!(sample.core_process_running);
    assert!(sample.control_plane_healthy);
    assert_eq!(sample.connected_peer_count, Some(1));
    assert_eq!(sample.connected_peers.unwrap()[0].id, "peer");
    assert_eq!(sample.route_count, Some(2));
    assert_eq!(sample.traffic_tx_bytes, Some(5));
    assert_eq!(sample.traffic_rx_bytes, Some(6));

    let silent = health_sample_from_cli(true, true, None, None, None, &FloatReader);
    assert!(!silent.control_plane_healthy);
    assert_eq!(silent.connected_peer_count, None);
    assert_eq!(silent.route_count, None);

    let unreachable = health_sample_from_cli(true, false, Some("[]".to_owned()), None, None, &FloatReader);
    assert!(!unreachable.control_plane_healthy);
    assert_eq!(unreachable.connected_peer_count, Some(0));
}

#[test]
fn cli_peer_json_parser_accepts_human_readable_traffic_units() {
    let peers = peers_from_cli_json(
        r#"[{"id":"remote","hostname":"remote","ipv4":"10.44.0.3","rx_bytes":"122.65 MB","tx_bytes":"9.89 MB"}]"#,
        &FloatReader,
    )
    .unwrap();

    assert_eq!(peers[0].rx_bytes, Some(128_607_846));
    assert_eq!(peers[0].tx_bytes, Some(10_370_417));
    assert_eq!(FloatReader.read_byte_size("1.5 GiB"), Some(1_610_612_736));
    assert_eq!(FloatReader.read_byte_size("-"), None);
}

fn text(s: &str) -> JsonValue {
    JsonValue::String(s.to_owned())
}

fn whole(n: u64) -> JsonValue {
    JsonValue::Number(JsonNumber {
        integer: Some(n),
        text: n.to_string(),
    })
}

fn object(members: Vec<(&str, JsonValue)>) -> JsonValue {
    JsonValue::Object(
        members
            .into_iter()
            .map(|(key, value)| (key.to_owned(), value))
            .collect(),
    )
}

#[test]
fn parsed_cli_answers_are_counted_under_their_list_keys() {
    let peers = object(vec![(
        "data",
        object(vec![(
            "peer_infos",
            JsonValue::Array(vec![object(vec![]), object(vec![]), object(vec![])]),
        )]),
    )]);
    assert_eq!(peer_count_from_cli_value(&peers), Some(3));
    assert_eq!(route_count_from_cli_value(&peers), None);
    let routes = JsonValue::Array(vec![object(vec![]), object(vec![])]);
    assert_eq!(route_count_from_cli_value(&routes), Some(2));
    assert_eq!(peer_count_from_cli_value(&text("not a list")), None);
}

#[test]
fn parsed_peer_rows_are_merged_and_parsed_stats_summed() {
    let rows = JsonValue::Array(vec![
        object(vec![
            ("id", text("a")),
            ("hostname", text("node-a")),
            ("ipv4", text("10.44.0.3")),
            ("tunnel_proto", text("tcp")),
        ]),
        object(vec![
            ("id", text("a")),
            ("hostname", text("node-a")),
            ("ipv4", text("10.44.0.3")),
            ("tunnel_proto", text("udp")),
        ]),
    ]);
    let peers = peers_from_cli_value(&rows, &NoReader).unwrap();
    assert_eq!(peers.len(), 1);
    assert_eq!(peers[0].protocols, vec!["tcp".to_owned(), "udp".to_owned()]);

    let stats = JsonValue::Array(vec![
        object(vec![("name", text("traffic_bytes_tx")), ("value", whole(10))]),
        object(vec![("name", text("traffic_bytes_rx")), ("value", whole(20))]),
        object(vec![("name", text("traffic_bytes_tx")), ("value", whole(5))]),
    ]);
    assert_eq!(
        traffic_from_cli_value(&stats, &NoReader),
        Some(CoreTraffic {
            tx_bytes: 15,
            rx_bytes: 20
        })
    );
    assert_eq!(traffic_from_cli_value(&JsonValue::Null, &NoReader), None);
}
