use vibe_easytier_service::profile::{AddressMode, EasyTierFlags, NetworkProfile, SecretString};
use vibe_easytier_service::protocol::{
    default_protocol_version, ProfileSummary, ProfileView, RpcCommand, RpcErrorCode, RpcRequest,
    RpcResponse, RpcResult, ServiceConnectionState, ServiceStatus, PROTOCOL_VERSION,
};

fn profile() -> NetworkProfile {
    NetworkProfile {
        id: "home".to_owned(),
        name: "Home".to_owned(),
        instance_name: "home".to_owned(),
        hostname: "laptop".to_owned(),
        network_name: "private-home".to_owned(),
        network_secret: SecretString::new("correct horse battery staple".to_owned()),
        address_mode: AddressMode::Static {
            cidr: "10.44.0.2/24".to_owned(),
        },
        peers: vec!["tcp://seed.example.net:11010".to_owned()],
        flags: EasyTierFlags::default(),
        auto_connect: true,
    }
}

#[test]
fn public_profile_view_does_not_contain_network_secret_material() {
    let view = ProfileView::from_profile(&profile());
    let encoded = format!("{view:?}");

    assert!(!encoded.contains("correct horse battery staple"));
    assert!(view.secret_configured);
    assert_eq!(view.static_ipv4_cidr.as_deref(), Some("10.44.0.2/24"));
    assert_eq!(view.id, "home");
    assert_eq!(view.flags, EasyTierFlags::default());
}

#[test]
fn a_blank_secret_is_reported_as_not_configured() {
    let mut value = profile();
    value.network_secret = SecretString::new(String::new());
    value.address_mode = AddressMode::Dhcp;
    let view = ProfileView::from_profile(&value);
    assert!(!view.secret_configured);
    assert_eq!(view.static_ipv4_cidr, None);
}

#[test]
fn summaries_count_peers() {
    let summary = ProfileSummary::from_profile(&profile());
    assert_eq!(summary.id, "home");
    assert_eq!(summary.network_name, "private-home");
    assert_eq!(summary.peer_count, 1);
    assert!(summary.auto_connect);
}

#[test]
fn requests_carry_the_current_protocol_version() {
    let request = RpcRequest::new(7, RpcCommand::GetStatus);
    assert_eq!(request.protocol_version, PROTOCOL_VERSION);
    assert_eq!(default_protocol_version(), PROTOCOL_VERSION);
    assert!(request.is_compatible());
    let mut old = RpcRequest::new(8, RpcCommand::Ping);
    old.protocol_version = 0;
    assert!(!old.is_compatible());
}

#[test]
fn responses_carry_either_a_result_or_an_error() {
    let ok = RpcResponse::ok(3, RpcResult::Pong);
    assert_eq!(ok.request_id, 3);
    assert_eq!(ok.result, Some(RpcResult::Pong));
    assert!(ok.error.is_none());

    let failed = RpcResponse::error(4, RpcErrorCode::NotFound, "missing".to_owned());
    assert!(failed.result.is_none());
    let error = failed.error.unwrap();
    assert_eq!(error.code, RpcErrorCode::NotFound);
    assert_eq!(error.message, "missing");
    assert_eq!(failed.protocol_version, PROTOCOL_VERSION);
}

#[test]
fn a_stopped_status_reports_nothing_running() {
    let status = ServiceStatus::stopped();
    assert_eq!(status.state, ServiceConnectionState::Disconnected);
    assert_eq!(status.core_pid, None);
    assert_eq!(status.peer_count, 0);
    assert!(!status.peer_count_available);
    assert_eq!(status.protocol_version, PROTOCOL_VERSION);
}
