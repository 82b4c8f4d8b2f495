use vibe_easytier_service::desktop::{
    auto_connect_intent, boot_status_from_sc, check_theme, connected_snapshot, core_log,
    default_theme, desktop_reply, localize_profile_validation_error, localize_service_error,
    localize_text_field_error, log_level, managed_instance_name, parse_bps_limit,
    profile_upsert_from_form, timestamp_to_iso, ui_phase, unavailable_snapshot,
    unavailable_warning, ExpectedReply, ServiceBootStatus, UiEasyTierFlags, UiLog,
    UiNetworkProfile, UiPeer, UiProfile,
};
use vibe_easytier_service::ipc::IpcError;
use vibe_easytier_service::protocol::{
    ConnectionIntent, RpcErrorCode, RpcResponse, RpcResult, ServiceStatus,
};
use vibe_easytier_service::profile::{AddressMode, EasyTierFlags, EASYTIER_V2_6_4_FLAG_COUNT};
use vibe_easytier_service::protocol::{ConnectedPeer, ProfileView, ServiceConnectionState};
use vibe_easytier_service::service::CORE_CONFIG_VALIDATION_ERROR_PREFIX;

#[test]
fn ui_flags_round_trip_all_core_fields_without_losing_large_limits() {
    let mut service_flags = EasyTierFlags::default();
    service_flags.default_protocol = "udp".to_owned();
    service_flags.data_compress_algo = 2;
    service_flags.foreign_relay_bps_limit = 123_456_789_012_345;
    service_flags.instance_recv_bps_limit = u64::MAX;
    service_flags.enable_udp_broadcast_relay = true;

    let ui_flags = UiEasyTierFlags::from_flags(service_flags.clone());
    let encoded = format!("{ui_flags:?}");

    assert_eq!(encoded.matches(": ").count(), EASYTIER_V2_6_4_FLAG_COUNT);
    assert_eq!(ui_flags.data_compress_algo, "zstd");
    assert_eq!(ui_flags.foreign_relay_bps_limit, "123456789012345");
    assert_eq!(ui_flags.instance_recv_bps_limit, u64::MAX.to_string());
    assert!(ui_flags.enable_udp_broadcast_relay);
    assert!(!encoded.contains("network_secret"));

    assert_eq!(ui_flags.into_flags().unwrap(), service_flags);
}

#[test]
fn blank_bps_limit_means_unlimited_and_invalid_values_are_chinese_errors() {
    assert_eq!(parse_bps_limit("", "速率").unwrap(), u64::MAX);
    assert_eq!(parse_bps_limit(" 42 ", "速率").unwrap(), 42);
    assert!(parse_bps_limit("1.5", "速率")
        .unwrap_err()
        .contains("十进制"));
    assert!(parse_bps_limit("9223372036854775808", "速率")
        .unwrap_err()
        .contains("不能超过"));

    let mut ui_flags = UiEasyTierFlags::default();
    ui_flags.data_compress_algo = "gzip".to_owned();
    assert!(ui_flags.into_flags().unwrap_err().contains("数据压缩"));
}

#[test]
fn profile_response_keeps_the_network_secret_out_of_the_webview() {
    let profile = ProfileView {
        id: "office".to_owned(),
        name: "办公室".to_owned(),
        instance_name: "vibe-office".to_owned(),
        hostname: "workstation".to_owned(),
        network_name: "office-net".to_owned(),
        address_mode: AddressMode::Static {
            cidr: "100.76.1.2/24".to_owned(),
        },
        static_ipv4_cidr: Some("100.76.1.2/24".to_owned()),
        peers: vec!["tcp://seed.example:11010".to_owned()],
        flags: EasyTierFlags::default(),
        auto_connect: true,
        secret_configured: true,
    };

    let ui = UiProfile::from_view(profile, "2026-01-01T00:00:00+00:00".to_owned());
    let encoded = format!("{ui:?}");
    assert!(!encoded.contains("correct horse battery staple"));
    assert!(encoded.contains("network_secret: \"\""));
    assert_eq!(ui.device_name, "workstation");
    assert_eq!(ui.virtual_ip, "100.76.1.2/24");
    assert_eq!(ui.updated_at, "2026-01-01T00:00:00+00:00");
}

#[test]
fn ui_peer_exposes_all_active_connection_protocols() {
    let peer = UiPeer::from_peer(
        ConnectedPeer {
            id: "remote".to_owned(),
            hostname: "remote-node".to_owned(),
            ipv4: "10.44.0.3".to_owned(),
            cidr: Some("10.44.0.3/24".to_owned()),
            cost: Some("p2p".to_owned()),
            latency_ms: Some(8),
            rx_bytes: Some(12),
            tx_bytes: Some(34),
            protocols: vec!["tcp".to_owned(), "wg".to_owned()],
            tunnel_protocol: Some("tcp,wg".to_owned()),
            nat_type: None,
            version: Some("2.6.4".to_owned()),
        },
        "2026-01-01T00:00:00+00:00".to_owned(),
    );

    assert_eq!(peer.protocols, vec!["tcp", "wg"]);
    let encoded = format!("{peer:?}");
    assert!(!encoded.contains("tunnel_protocol"));
    assert_eq!(peer.name, "remote-node");
    assert_eq!(peer.sent, 34);
    assert_eq!(peer.received, 12);
    assert_eq!(peer.latency_ms, 8);
    assert_eq!(peer.version, "2.6.4");
    assert_eq!(peer.role, "Peer");
    assert_eq!(peer.state, "online");
}

#[test]
fn core_config_validation_errors_are_specific_chinese_and_safe_for_webview() {
    let cases = [
        (
            "easytier-core configuration validation failed: exit code 19; reason=network_identity",
            "网络名称或网络密钥",
        ),
        (
            "easytier-core configuration validation failed: exit code 3; reason=virtual_address",
            "固定虚拟 IPv4/CIDR",
        ),
        (
            "easytier-core configuration validation failed: exit code 1; reason=bootstrap_peer",
            "Bootstrap Peer 地址或端口",
        ),
        (
            "easytier-core configuration validation failed: exit code 101; reason=core_option",
            "Core 选项的取值或组合",
        ),
        (
            "easytier-core configuration validation failed: exit code 7; reason=unknown",
            "配置未被 Core 接受",
        ),
    ];

    for (service_error, expected_reason) in cases {
        let message = localize_service_error(service_error);
        assert!(message.contains("EasyTier Core 配置校验未通过"));
        assert!(message.contains(expected_reason));
        assert!(message.contains("档案未保存"));
        assert!(message.contains("之前可用的档案和连接已保留"));
    }

    let timeout =
        localize_service_error("easytier-core configuration validation failed: validation timed out");
    assert!(timeout.contains("配置校验超时"));
    assert!(timeout.contains("10 秒"));
}

#[test]
fn core_config_validation_never_renders_untrusted_detail() {
    let secret = "correct-horse-battery-staple";
    let path = r"C:\ProgramData\VibeEasyTier\runtime\office.validate.toml";
    let error = format!(
        "{CORE_CONFIG_VALIDATION_ERROR_PREFIX}exit code 9; reason=network_identity; secret={secret}; path={path}"
    );
    let message = localize_service_error(&error);

    assert!(message.contains("配置未被 Core 接受"));
    assert!(!message.contains(secret));
    assert!(!message.contains(path));
}

#[test]
fn local_profile_validation_keeps_a_useful_field_name() {
    let cases = [
        (
            "invalid profile: invalid static ipv4: must use address/prefix notation",
            "固定虚拟 IPv4 必须使用“IP/前缀长度”格式",
        ),
        (
            "invalid profile: invalid static ipv4: contains an invalid IPv4 address",
            "固定虚拟 IPv4 地址无效",
        ),
        (
            "invalid profile: invalid static ipv4: prefix length must be at most 32",
            "前缀长度无效",
        ),
        (
            "invalid profile: invalid peer: must include a host and port",
            "Bootstrap Peer 必须包含主机和端口",
        ),
        (
            "invalid profile: invalid peer: only tcp, udp, wg, ws, and wss are supported",
            "仅支持 tcp、udp、wg、ws 或 wss 协议",
        ),
        (
            "invalid profile: invalid peer: only tcp, udp, ws, and wss are supported",
            "当前后台服务版本仅支持 tcp、udp、ws 或 wss 协议；升级服务后可使用 wg",
        ),
        (
            "invalid profile: invalid peers: duplicate bootstrap peer",
            "Bootstrap Peer 不能重复",
        ),
        (
            "invalid profile: invalid peers: at most 8 peers are allowed",
            "Bootstrap Peer 最多添加 8 个",
        ),
    ];

    for (service_error, expected) in cases {
        assert!(
            localize_service_error(service_error).contains(expected),
            "expected {service_error:?} to describe {expected:?}"
        );
    }
}

#[test]
fn core_config_messages_have_the_exact_wording() {
    assert_eq!(
        localize_service_error(
            "easytier-core configuration validation failed: exit code -2; reason=toml_format"
        ),
        "EasyTier Core 配置校验未通过（退出码 -2）：配置字段的类型或格式不正确。档案未保存，之前可用的档案和连接已保留。"
    );
    assert_eq!(
        localize_service_error(
            "easytier-core configuration validation failed: terminated by the operating system; reason=file_access"
        ),
        "EasyTier Core 配置校验未通过（校验进程异常结束）：Core 无法读取临时校验配置。档案未保存，之前可用的档案和连接已保留。"
    );
    assert_eq!(
        localize_service_error("easytier-core configuration validation failed: something else"),
        "EasyTier Core 未能完成配置校验，档案未保存；之前可用的档案和连接已保留。"
    );
    // An exit code that is not a number falls back to the generic messages.
    assert_eq!(
        localize_service_error("easytier-core configuration validation failed: exit code x; reason=unknown"),
        "后台服务未能完成请求，请稍后重试。"
    );
}

#[test]
fn other_service_errors_have_fixed_messages() {
    assert_eq!(
        localize_service_error("profile \"home\" does not exist"),
        "找不到指定的私有网络档案。"
    );
    assert_eq!(
        localize_service_error("No active profile is configured"),
        "当前没有活动的私有网络档案。"
    );
    assert_eq!(
        localize_service_error("invalid EasyTier TOML: expected a table"),
        "导入的 EasyTier TOML 格式无效。"
    );
    assert_eq!(
        localize_service_error("unsupported EasyTier TOML key: dhcp"),
        "导入的 EasyTier TOML 包含当前版本不支持的配置项。"
    );
    assert_eq!(
        localize_service_error("the Vibe EasyTier service is unavailable: pipe"),
        "后台服务暂时不可用，请确认服务正在运行后重试。"
    );
    assert_eq!(
        localize_service_error("something odd"),
        "后台服务未能完成请求，请稍后重试。"
    );
}

#[test]
fn text_field_errors_name_the_field() {
    assert_eq!(
        localize_text_field_error("网络名称", "invalid network name: must not be empty"),
        "网络名称 不能为空。"
    );
    assert_eq!(
        localize_profile_validation_error("invalid profile: invalid hostname: must not exceed 63 characters"),
        "设备名称 超过允许长度。"
    );
    assert_eq!(
        localize_profile_validation_error("invalid profile: invalid network secret: must not contain control characters"),
        "网络密钥 不能包含控制字符。"
    );
    assert_eq!(
        localize_profile_validation_error("invalid profile: invalid flags.mtu: must be greater than zero"),
        "MTU 必须大于 0。"
    );
    assert_eq!(
        localize_profile_validation_error("invalid profile: invalid address mode: dhcp"),
        "当前版本仅支持固定虚拟 IPv4/CIDR，不支持 DHCP。"
    );
}

#[test]
fn phases_health_levels_and_instance_names() {
    assert_eq!(ui_phase(ServiceConnectionState::Recovering), "recovering");
    assert_eq!(ui_phase(ServiceConnectionState::Connected), "connected");
    assert_eq!(
        ServiceBootStatus {
            configured: true,
            running: true
        }
        .health(),
        "healthy"
    );
    assert_eq!(
        ServiceBootStatus {
            configured: true,
            running: false
        }
        .health(),
        "attention"
    );
    assert_eq!(
        ServiceBootStatus {
            configured: false,
            running: true
        }
        .health(),
        "unavailable"
    );
    assert_eq!(log_level("2026 ERROR core failed"), "error");
    assert_eq!(log_level("warn: retry"), "warning");
    assert_eq!(log_level("all good"), "info");
    assert_eq!(managed_instance_name("home net/1"), "vibe-homenet1");
    let long = "a".repeat(80);
    assert_eq!(managed_instance_name(&long), format!("vibe-{}", "a".repeat(56)));
}

#[test]
fn sc_output_is_read_case_insensitively() {
    let status = boot_status_from_sc(
        Some("START_TYPE : 2 auto_start (delayed)"),
        Some("STATE              : 4  RUNNING"),
    );
    assert!(status.configured);
    assert!(status.running);
    let status = boot_status_from_sc(Some("START_TYPE : 3 DEMAND_START"), None);
    assert!(!status.configured);
    assert!(!status.running);
}

fn form() -> UiNetworkProfile {
    UiNetworkProfile {
        id: "office".to_owned(),
        name: "Office".to_owned(),
        device_name: "workstation".to_owned(),
        network_name: "office-net".to_owned(),
        network_secret: "secret".to_owned(),
        peers: vec!["tcp://seed.example:11010".to_owned()],
        virtual_ip: "100.76.1.2/24".to_owned(),
        flags: UiEasyTierFlags::default(),
    }
}

#[test]
fn a_profile_form_becomes_a_service_request() {
    let upsert = profile_upsert_from_form(form(), Some("office"), true).unwrap();
    assert!(upsert.make_active);
    assert_eq!(upsert.profile.instance_name, "vibe-office");
    assert_eq!(upsert.profile.network_secret.expose(), "secret");
    assert_eq!(
        upsert.profile.address_mode,
        AddressMode::Static {
            cidr: "100.76.1.2/24".to_owned()
        }
    );
    assert!(upsert.profile.auto_connect);
    assert_eq!(upsert.profile.flags, EasyTierFlags::default());

    let other = profile_upsert_from_form(form(), Some("home"), false).unwrap();
    assert!(!other.make_active);

    let mut blank = form();
    blank.network_secret = "  ".to_owned();
    assert_eq!(
        profile_upsert_from_form(blank, None, false).err(),
        Some("保存档案需要填写网络密钥。".to_owned())
    );
}


#[test]
fn desktop_replies_are_checked_and_localized() {
    assert_eq!(
        desktop_reply(Err(IpcError::Unavailable("down".to_owned())), ExpectedReply::Status),
        Err("无法连接后台服务，请确认 VibeEasyTierService 正在运行。".to_owned())
    );
    assert_eq!(
        desktop_reply(
            Ok(RpcResponse::error(1, RpcErrorCode::NotFound, "profile \"x\" was not found".to_owned())),
            ExpectedReply::ProfileDeleted,
        ),
        Err(localize_service_error("profile \"x\" was not found"))
    );
    assert_eq!(
        desktop_reply(
            Ok(RpcResponse {
                protocol_version: 1,
                request_id: 2,
                result: None,
                error: None,
            }),
            ExpectedReply::Logs,
        ),
        Err("后台服务返回了空响应。".to_owned())
    );
    assert_eq!(
        desktop_reply(Ok(RpcResponse::ok(3, RpcResult::LogsCleared)), ExpectedReply::LogsCleared),
        Ok(RpcResult::LogsCleared)
    );
    assert_eq!(
        desktop_reply(Ok(RpcResponse::ok(4, RpcResult::Pong)), ExpectedReply::FlagsSaved),
        Err("后台服务返回了无效的 Core 选项保存响应。".to_owned())
    );
    assert_eq!(
        desktop_reply(Ok(RpcResponse::ok(5, RpcResult::Pong)), ExpectedReply::Status),
        Err("后台服务返回了无效的状态响应。".to_owned())
    );
}

#[test]
fn auto_connect_needs_a_selected_profile() {
    assert_eq!(
        auto_connect_intent(None, true),
        Err("请先选择一个私有网络，再设置自动连接。".to_owned())
    );
    assert_eq!(
        auto_connect_intent(Some("home".to_owned()), false),
        Ok(ConnectionIntent::SetAutoConnect {
            profile_id: "home".to_owned(),
            enabled: false,
        })
    );
}

#[test]
fn only_three_themes_are_accepted() {
    assert_eq!(default_theme(), "system");
    assert_eq!(check_theme("system"), Ok(()));
    assert_eq!(check_theme("light"), Ok(()));
    assert_eq!(check_theme("dark"), Ok(()));
    assert_eq!(
        check_theme("Dark"),
        Err("主题仅支持系统、浅色或深色。".to_owned())
    );
}

#[test]
fn timestamps_are_rendered_as_rfc3339_utc() {
    assert_eq!(
        timestamp_to_iso(0),
        Some("1970-01-01T00:00:00+00:00".to_owned())
    );
    assert_eq!(
        timestamp_to_iso(1_700_000_000_123),
        Some("2023-11-14T22:13:20.123+00:00".to_owned())
    );
    assert_eq!(timestamp_to_iso(u64::MAX), None);
    assert_eq!(timestamp_to_iso(i64::MAX as u64), None);
}

fn entry(id: &str) -> UiLog {
    UiLog {
        id: id.to_owned(),
        at: "2026-01-01T00:00:00+00:00".to_owned(),
        level: "info".to_owned(),
        source: "Desktop".to_owned(),
        message: id.to_owned(),
    }
}

fn status() -> ServiceStatus {
    let mut status = ServiceStatus::stopped();
    status.state = ServiceConnectionState::Connected;
    status.active_profile_id = Some("home".to_owned());
    status.auto_connect_profile_id = Some("home".to_owned());
    status.peer_count = 3;
    status.peer_count_available = true;
    status.retry_at_unix_ms = Some(0);
    status.last_error = Some("service is running".to_owned());
    status.route_count = 9;
    status
}

#[test]
fn a_connected_snapshot_follows_the_service_status() {
    let service_logs: Vec<UiLog> = (0..150).map(|i| entry(&format!("core-{i}"))).collect();
    let desktop_logs: Vec<UiLog> = (0..100).map(|i| entry(&format!("desktop-{i}"))).collect();
    let snapshot = connected_snapshot(
        "dark".to_owned(),
        ServiceBootStatus {
            configured: true,
            running: false,
        },
        status(),
        Vec::new(),
        Vec::new(),
        service_logs,
        desktop_logs,
    );
    assert_eq!(snapshot.runtime.phase, "connected");
    assert_eq!(snapshot.runtime.active_profile_id.as_deref(), Some("home"));
    assert_eq!(
        snapshot.runtime.retry_at.as_deref(),
        Some("1970-01-01T00:00:00+00:00")
    );
    assert_eq!(
        snapshot.runtime.error,
        Some(localize_service_error("service is running"))
    );
    assert_eq!(snapshot.runtime.peer_count, 3);
    assert!(snapshot.runtime.peer_count_available);
    assert_eq!(snapshot.runtime.routes, 0);
    assert_eq!(snapshot.runtime.daemon_version, "EasyTier Core 2.6.4（由服务管理）");
    assert!(snapshot.preferences.auto_connect);
    assert!(snapshot.preferences.service_at_boot);
    assert_eq!(snapshot.preferences.service_health, "healthy");
    assert_eq!(snapshot.preferences.theme, "dark");
    assert_eq!(snapshot.logs.len(), 200);
    assert_eq!(snapshot.logs[0].id, "core-0");
    assert_eq!(snapshot.logs[150].id, "desktop-0");
    assert_eq!(snapshot.logs[199].id, "desktop-49");
}

#[test]
fn an_unavailable_service_gives_a_failed_snapshot_with_a_warning_first() {
    let warning = unavailable_warning("w".to_owned(), "now".to_owned(), "管道断开");
    assert_eq!(warning.level, "warning");
    assert_eq!(warning.source, "Desktop");
    assert_eq!(warning.message, "后台服务状态不可用：管道断开");
    let snapshot = unavailable_snapshot(
        "system".to_owned(),
        ServiceBootStatus {
            configured: true,
            running: false,
        },
        "管道断开".to_owned(),
        warning,
        vec![entry("older")],
    );
    assert!(snapshot.profiles.is_empty());
    assert!(snapshot.peers.is_empty());
    assert_eq!(snapshot.runtime.phase, "failed");
    assert_eq!(snapshot.runtime.error.as_deref(), Some("管道断开"));
    assert_eq!(snapshot.runtime.daemon_version, "EasyTier Core 2.6.4（服务不可用）");
    assert!(!snapshot.runtime.peer_count_available);
    assert!(!snapshot.preferences.auto_connect);
    assert_eq!(snapshot.preferences.service_health, "attention");
    assert_eq!(snapshot.logs.len(), 2);
    assert_eq!(snapshot.logs[0].id, "w");
    assert_eq!(snapshot.logs[1].id, "older");
}

#[test]
fn core_log_entries_carry_their_severity() {
    let log = core_log(
        "1".to_owned(),
        "now".to_owned(),
        "2026-08-01T15:29:22Z ERROR easytier: tunnel lost".to_owned(),
    );
    assert_eq!(log.level, "error");
    assert_eq!(log.source, "EasyTier Core");
    assert_eq!(log.message, "2026-08-01T15:29:22Z ERROR easytier: tunnel lost");
}
