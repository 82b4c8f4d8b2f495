use vibe_easytier_service::config::TomlValue;
use vibe_easytier_service::profile::{
    computer_name_from, easytier_flag_keys, is_usable_hostname, validate_ipv4_cidr, validate_peer_uri, AddressMode,
    EasyTierFlags, NetworkProfile, ProfileError, SecretString, EASYTIER_V2_6_4_FLAG_COUNT,
    MAX_PEERS,
};

fn profile() -> NetworkProfile {
    NetworkProfile {
        id: "home".to_owned(),
        name: "Home network".to_owned(),
        instance_name: "home".to_owned(),
        hostname: "laptop".to_owned(),
        network_name: "private-home".to_owned(),
        network_secret: SecretString::new("correct horse battery staple".to_owned()),
        address_mode: AddressMode::Static {
            cidr: "10.44.0.2/24".to_owned(),
        },
        peers: vec![
            "tcp://seed-a.example.net:11010".to_owned(),
            "udp://seed-b.example.net:11010".to_owned(),
        ],
        flags: EasyTierFlags::default(),
        auto_connect: true,
    }
}

fn imported(toml: &str) -> NetworkProfile {
    match NetworkProfile::from_whitelisted_toml(toml, "WINDOWS-DESKTOP".to_owned()) {
        Ok(profile) => profile,
        Err(error) => panic!("import failed: {error:?}"),
    }
}

fn import_error(toml: &str) -> Option<ProfileError> {
    NetworkProfile::from_whitelisted_toml(toml, "WINDOWS-DESKTOP".to_owned()).err()
}

fn rendered_flags(rendered: &str) -> toml::map::Map<String, toml::Value> {
    let parsed: toml::Value = toml::from_str(rendered).unwrap();
    parsed["flags"].as_table().unwrap().clone()
}

#[test]
fn render_toml_keeps_secret_out_of_process_arguments() {
    let rendered = profile().render_core_toml().unwrap();

    assert!(rendered.contains("private_mode = true"));
    assert!(!rendered.contains("rpc_portal"));
    assert!(rendered.contains("network_secret = \"correct horse battery staple\""));
}

#[test]
fn wireguard_transport_bootstrap_peer_is_accepted_and_rendered() {
    let mut configured = profile();
    configured.peers = vec![
        "tcp://seed.example.net:11010".to_owned(),
        "udp://seed.example.net:11010".to_owned(),
        "wg://seed.example.net:11012".to_owned(),
    ];

    let rendered = configured.render_core_toml().unwrap();

    assert!(rendered.contains("uri = \"wg://seed.example.net:11012\""));
}

#[test]
fn multiple_bootstrap_transports_for_one_seed_are_preserved() {
    let mut configured = profile();
    configured.peers = vec![
        "tcp://seed.example.net:11010".to_owned(),
        "udp://seed.example.net:11010".to_owned(),
        "wg://seed.example.net:11012".to_owned(),
    ];

    let rendered = configured.render_core_toml().unwrap();
    let parsed: toml::Value = toml::from_str(&rendered).unwrap();
    let peer_uris = parsed["peer"]
        .as_array()
        .unwrap()
        .iter()
        .map(|peer| peer["uri"].as_str().unwrap())
        .collect::<Vec<_>>();

    assert_eq!(
        peer_uris,
        vec![
            "tcp://seed.example.net:11010",
            "udp://seed.example.net:11010",
            "wg://seed.example.net:11012",
        ]
    );
}

#[test]
fn peer_validation_accepts_an_explicit_wss_default_port_but_requires_a_literal_port() {
    assert!(validate_peer_uri("wss://seed.example.net:443").is_ok());
    assert_eq!(
        validate_peer_uri("wss://seed.example.net"),
        Err(ProfileError::InvalidField {
            field: "peer",
            reason: "must include a host and port".to_owned(),
        })
    );
}

#[test]
fn blank_hostname_uses_the_local_computer_name_before_validation() {
    let mut value = profile();
    value.hostname = " \t ".to_owned();
    value.apply_default_hostname_with(|| "WINDOWS-DESKTOP".to_owned());

    assert_eq!(value.hostname, "WINDOWS-DESKTOP");
    assert!(value.validate().is_ok());
}

#[test]
fn explicit_hostname_is_not_replaced_by_the_local_computer_name() {
    let mut value = profile();
    value.hostname = "work-laptop".to_owned();
    value.apply_default_hostname_with(|| panic!("explicit hostname must not be replaced"));

    assert_eq!(value.hostname, "work-laptop");
}

#[test]
fn whitelisted_import_resolves_a_blank_hostname() {
    let toml = r#"
instance_name = "home"
hostname = ""
ipv4 = "10.44.0.2/24"

[[peer]]
uri = "tcp://seed.example.net:11010"

[network_identity]
network_name = "private-home"
network_secret = "secret"

[flags]
private_mode = true
enable_encryption = true
accept_dns = false
"#;

    let imported = imported(toml);
    assert!(is_usable_hostname(&imported.hostname));
    assert_eq!(imported.hostname, "WINDOWS-DESKTOP");
}

#[test]
fn whitelisted_import_accepts_wireguard_transport_bootstrap_peer() {
    let toml = r#"
instance_name = "home"
hostname = "laptop"
ipv4 = "10.44.0.2/24"

[[peer]]
uri = "wg://seed-wg.example.net:11012"

[network_identity]
network_name = "private-home"
network_secret = "secret"

[flags]
private_mode = true
enable_encryption = true
"#;

    let imported = imported(toml);

    assert_eq!(
        imported.peers,
        vec!["wg://seed-wg.example.net:11012".to_owned()]
    );
}

#[test]
fn whitelisted_import_rejects_advanced_core_options() {
    let toml = r#"
instance_name = "home"
hostname = "laptop"
ipv4 = "10.44.0.2/24"
rpc_portal = "0.0.0.0:15888"

[[peer]]
uri = "tcp://seed.example.net:11010"

[network_identity]
network_name = "private-home"
network_secret = "secret"

[flags]
private_mode = true
enable_encryption = true
"#;

    assert_eq!(
        import_error(toml),
        Some(ProfileError::DisallowedTomlKey {
            path: "rpc_portal".to_owned()
        })
    );
}

#[test]
fn whitelisted_import_preserves_explicit_security_flags() {
    let toml = r#"
instance_name = "home"
hostname = "laptop"
ipv4 = "10.44.0.2/24"

[[peer]]
uri = "tcp://seed.example.net:11010"

[network_identity]
network_name = "private-home"
network_secret = "secret"

[flags]
private_mode = false
enable_encryption = false
"#;

    let imported = imported(toml);
    assert!(!imported.flags.private_mode);
    assert!(!imported.flags.enable_encryption);
}

#[test]
fn imports_and_renders_all_v264_flags() {
    let toml = r#"
instance_name = "home"
hostname = "laptop"
ipv4 = "10.44.0.2/24"

[[peer]]
uri = "tcp://seed.example.net:11010"

[network_identity]
network_name = "private-home"
network_secret = "secret"

[flags]
default_protocol = "udp"
dev_name = "VibeTun"
enable_encryption = false
enable_ipv6 = false
mtu = 1300
latency_first = true
enable_exit_node = true
no_tun = true
use_smoltcp = true
relay_network_whitelist = "private-* backup"
disable_p2p = true
relay_all_peer_rpc = true
disable_udp_hole_punching = true
multi_thread = false
data_compress_algo = 2
bind_device = false
enable_kcp_proxy = true
disable_kcp_input = true
disable_relay_kcp = true
proxy_forward_by_system = true
accept_dns = true
private_mode = false
enable_quic_proxy = true
disable_quic_input = true
disable_relay_quic = true
quic_listen_port = 11012
foreign_relay_bps_limit = 123456
multi_thread_count = 4
enable_relay_foreign_network_kcp = true
enable_relay_foreign_network_quic = true
encryption_algorithm = "chacha20"
disable_sym_hole_punching = true
tld_dns_zone = "mesh.internal."
p2p_only = true
disable_tcp_hole_punching = true
lazy_p2p = true
need_p2p = true
instance_recv_bps_limit = 654321
disable_upnp = true
disable_relay_data = true
enable_udp_broadcast_relay = true
"#;

    let imported = imported(toml);
    assert_eq!(imported.flags.default_protocol, "udp");
    assert_eq!(imported.flags.data_compress_algo, 2);
    assert_eq!(imported.flags.foreign_relay_bps_limit, 123456);
    assert_eq!(imported.flags.instance_recv_bps_limit, 654321);
    assert!(imported.flags.enable_udp_broadcast_relay);

    let rendered = imported.render_core_toml().unwrap();
    let rendered_flags = rendered_flags(&rendered);
    let keys = easytier_flag_keys();
    assert_eq!(keys.len(), EASYTIER_V2_6_4_FLAG_COUNT);
    assert_eq!(rendered_flags.len(), EASYTIER_V2_6_4_FLAG_COUNT);
    for key in keys {
        assert!(
            rendered_flags.contains_key(key),
            "missing rendered flag: {key}"
        );
    }
}

#[test]
fn unlimited_bps_limits_are_omitted_from_toml() {
    let rendered = profile().render_core_toml().unwrap();
    let rendered_flags = rendered_flags(&rendered);

    assert!(!rendered_flags.contains_key("foreign_relay_bps_limit"));
    assert!(!rendered_flags.contains_key("instance_recv_bps_limit"));
    assert!(!rendered_flags.contains_key("quic_listen_port"));
    assert_eq!(rendered_flags.len(), EASYTIER_V2_6_4_FLAG_COUNT - 3);
}

#[test]
fn unknown_v264_flag_is_rejected() {
    let toml = r#"
instance_name = "home"
hostname = "laptop"
ipv4 = "10.44.0.2/24"

[[peer]]
uri = "tcp://seed.example.net:11010"

[network_identity]
network_name = "private-home"
network_secret = "secret"

[flags]
future_core_flag = true
"#;

    assert_eq!(
        import_error(toml),
        Some(ProfileError::DisallowedTomlKey {
            path: "flags.future_core_flag".to_owned(),
        })
    );
}

#[test]
fn duplicate_peers_are_rejected() {
    let mut value = profile();
    value.peers.push(value.peers[0].clone());
    assert!(matches!(
        value.validate(),
        Err(ProfileError::InvalidField { field: "peers", .. })
    ));
}

#[test]
fn dhcp_is_rejected_for_new_and_imported_profiles() {
    let mut value = profile();
    value.address_mode = AddressMode::Dhcp;
    assert!(matches!(
        value.validate(),
        Err(ProfileError::InvalidField {
            field: "address mode",
            ..
        })
    ));

    let toml = r#"
instance_name = "home"
hostname = "laptop"
dhcp = true

[[peer]]
uri = "tcp://seed.example.net:11010"

[network_identity]
network_name = "private-home"
network_secret = "secret"

[flags]
private_mode = true
enable_encryption = true
"#;
    assert_eq!(
        import_error(toml),
        Some(ProfileError::DisallowedTomlKey {
            path: "dhcp".to_owned()
        })
    );
}

#[test]
fn default_flags_are_private_and_encrypted_and_valid() {
    let flags = EasyTierFlags::default();
    assert!(flags.private_mode);
    assert!(flags.enable_encryption);
    assert!(!flags.accept_dns);
    assert!(flags.validate().is_ok());
    assert!(profile().validate().is_ok());
}

#[test]
fn rendered_toml_imports_back_to_the_same_profile_fields() {
    let original = profile();
    let rendered = original.render_core_toml().unwrap();
    let back = imported(&rendered);
    assert_eq!(back.instance_name, original.instance_name);
    assert_eq!(back.hostname, original.hostname);
    assert_eq!(back.network_name, original.network_name);
    assert_eq!(back.network_secret.expose(), original.network_secret.expose());
    assert_eq!(back.address_mode, original.address_mode);
    assert_eq!(back.peers, original.peers);
    assert_eq!(back.flags, original.flags);
}

#[test]
fn too_many_peers_are_rejected() {
    let mut value = profile();
    value.peers = (0..=MAX_PEERS)
        .map(|index| format!("tcp://seed-{index}.example.net:11010"))
        .collect();
    assert!(matches!(
        value.validate(),
        Err(ProfileError::InvalidField { field: "peers", .. })
    ));
    value.peers.clear();
    assert!(matches!(
        value.validate(),
        Err(ProfileError::InvalidField { field: "peers", .. })
    ));
}

#[test]
fn peer_uris_need_a_known_scheme_and_port() {
    assert!(validate_peer_uri("tcp://seed.example.net:11010").is_ok());
    assert!(validate_peer_uri("udp://10.0.0.1:11010").is_ok());
    assert!(validate_peer_uri("http://seed.example.net:80").is_err());
    assert!(validate_peer_uri("tcp://seed.example.net").is_err());
    assert!(validate_peer_uri("not a uri").is_err());
}

#[test]
fn virtual_addresses_are_ipv4_cidrs() {
    assert!(validate_ipv4_cidr("10.44.0.2/24").is_ok());
    assert!(validate_ipv4_cidr("10.44.0.2/33").is_err());
    assert!(validate_ipv4_cidr("10.44.0/24").is_err());
    assert!(validate_ipv4_cidr("10.44.0.256/24").is_err());
    assert!(validate_ipv4_cidr("10.44.0.2").is_err());
}

#[test]
fn profile_errors_have_readable_messages() {
    assert_eq!(
        ProfileError::InvalidField {
            field: "peer",
            reason: "must include a host and port".to_owned()
        }
        .message(),
        "invalid peer: must include a host and port"
    );
    assert_eq!(
        ProfileError::DisallowedTomlKey {
            path: "dhcp".to_owned()
        }
        .message(),
        "unsupported EasyTier TOML key: dhcp"
    );
}

#[test]
fn malformed_toml_is_an_invalid_toml_error() {
    assert!(matches!(
        import_error("instance_name = "),
        Some(ProfileError::InvalidToml(_))
    ));
}

#[test]
fn computer_name_prefers_the_system_name_then_the_environment() {
    assert_eq!(
        computer_name_from(Some("DESKTOP-1".to_owned()), vec!["ENV-NAME".to_owned()]),
        "DESKTOP-1"
    );
    assert_eq!(
        computer_name_from(Some("   ".to_owned()), vec!["  ".to_owned(), " env-name ".to_owned()]),
        "env-name"
    );
    assert_eq!(computer_name_from(None, vec!["HOST".to_owned()]), "HOST");
    assert_eq!(computer_name_from(None, Vec::new()), "vibe-easytier");
    assert_eq!(
        computer_name_from(Some("x".repeat(64)), vec!["bad\u{7}".to_owned()]),
        "vibe-easytier"
    );
}

fn entry(key: &str, value: TomlValue) -> (String, TomlValue) {
    (key.to_owned(), value)
}

fn toml_text(value: &str) -> TomlValue {
    TomlValue::String(value.to_owned())
}

#[test]
fn a_parsed_document_is_imported_like_its_text() {
    let document = TomlValue::Table(vec![
        entry("hostname", toml_text("  ")),
        entry("instance_name", toml_text("office")),
        entry("ipv4", toml_text("10.44.0.9/24")),
        entry(
            "network_identity",
            TomlValue::Table(vec![
                entry("network_name", toml_text("private-office")),
                entry("network_secret", toml_text("s3cret")),
            ]),
        ),
        entry(
            "peer",
            TomlValue::Array(vec![TomlValue::Table(vec![entry(
                "uri",
                toml_text("tcp://seed.example.net:11010"),
            )])]),
        ),
    ]);
    let profile = NetworkProfile::from_toml_document(&document, "DESKTOP-9".to_owned()).unwrap();
    assert_eq!(profile.id, "office");
    assert_eq!(profile.hostname, "DESKTOP-9");
    assert_eq!(profile.network_secret.expose(), "s3cret");
    assert_eq!(
        profile.address_mode,
        AddressMode::Static {
            cidr: "10.44.0.9/24".to_owned()
        }
    );
    assert_eq!(profile.flags, EasyTierFlags::default());
    assert!(!profile.auto_connect);

    assert!(matches!(
        NetworkProfile::from_toml_document(&TomlValue::Integer(1), "PC".to_owned()),
        Err(ProfileError::InvalidToml(message)) if message == "root must be a TOML table"
    ));
}
