use vibe_easytier_service::profile::{AddressMode, EasyTierFlags, NetworkProfile, SecretString};
use vibe_easytier_service::state::{
    runtime_profile_file_name, staged_profile_file_name, temporary_file_name, PersistedState,
    StateError, STATE_SCHEMA_VERSION,
};

fn profile(id: &str, auto_connect: bool) -> NetworkProfile {
    NetworkProfile {
        id: id.to_owned(),
        name: "Home".to_owned(),
        instance_name: id.to_owned(),
        hostname: "laptop".to_owned(),
        network_name: "private-home".to_owned(),
        network_secret: SecretString::new("only-in-encrypted-state".to_owned()),
        address_mode: AddressMode::Static {
            cidr: "10.44.0.2/24".to_owned(),
        },
        peers: vec!["tcp://seed.example.net:11010".to_owned()],
        flags: EasyTierFlags::default(),
        auto_connect,
    }
}

#[test]
fn state_rejects_multiple_auto_connect_profiles() {
    let mut state = PersistedState::new();
    state.upsert(profile("home", true));
    state.upsert(profile("office", true));

    assert!(matches!(state.validate(), Err(StateError::InvalidState(_))));
}

#[test]
fn an_empty_state_is_valid() {
    let state = PersistedState::new();
    assert_eq!(state.schema_version, STATE_SCHEMA_VERSION);
    assert!(state.profiles.is_empty());
    assert!(state.active_profile_id.is_none());
    assert!(state.validate().is_ok());
}

#[test]
fn upsert_keeps_profiles_ordered_by_id_and_replaces_by_id() {
    let mut state = PersistedState::new();
    state.upsert(profile("zebra", false));
    state.upsert(profile("alpha", false));
    state.upsert(profile("mid", false));
    let ids: Vec<&str> = state.profiles.iter().map(|p| p.id.as_str()).collect();
    assert_eq!(ids, vec!["alpha", "mid", "zebra"]);

    let mut renamed = profile("mid", false);
    renamed.name = "Renamed".to_owned();
    state.upsert(renamed);
    assert_eq!(state.profiles.len(), 3);
    assert_eq!(state.get("mid").unwrap().name, "Renamed");
    assert_eq!(state.find("zebra"), Some(2));
    assert!(state.contains("alpha"));
    assert!(!state.contains("beta"));
    assert!(state.validate().is_ok());
}

#[test]
fn the_auto_connect_profile_must_be_active() {
    let mut state = PersistedState::new();
    state.upsert(profile("home", true));
    assert!(matches!(state.validate(), Err(StateError::InvalidState(_))));
    state.active_profile_id = Some("home".to_owned());
    assert!(state.validate().is_ok());
    assert_eq!(state.auto_connect_profile().unwrap().id, "home");

    state.clear_auto_connect();
    assert!(state.auto_connect_profile().is_none());
    assert!(state.validate().is_ok());
}

#[test]
fn an_unknown_active_profile_is_invalid() {
    let mut state = PersistedState::new();
    state.active_profile_id = Some("ghost".to_owned());
    match state.validate() {
        Err(StateError::InvalidState(reason)) => {
            assert_eq!(reason, "active profile \"ghost\" does not exist")
        }
        other => panic!("expected an invalid state, got {other:?}"),
    }
}

#[test]
fn an_unknown_schema_is_unsupported() {
    let mut state = PersistedState::new();
    state.schema_version = 7;
    assert!(matches!(
        state.validate(),
        Err(StateError::UnsupportedSchema(7))
    ));
    assert_eq!(
        StateError::UnsupportedSchema(7).message(),
        "state schema 7 is unsupported"
    );
}

#[test]
fn invalid_profiles_make_the_state_invalid() {
    let mut state = PersistedState::new();
    let mut broken = profile("home", false);
    broken.peers.clear();
    state.upsert(broken);
    assert!(matches!(state.validate(), Err(StateError::Profile(_))));
}

#[test]
fn removing_and_selecting_auto_connect_by_position() {
    let mut state = PersistedState::new();
    state.upsert(profile("alpha", false));
    state.upsert(profile("beta", false));
    state.set_auto_connect_at(1, true);
    assert!(state.profiles[1].auto_connect);
    state.remove_at(0);
    assert_eq!(state.profiles.len(), 1);
    assert_eq!(state.profiles[0].id, "beta");
}

use vibe_easytier_service::crypto::{CryptoError, StateProtector};
use vibe_easytier_service::state::{
    open_envelope, open_state, seal_envelope, seal_state, EncryptedEnvelope,
    ENVELOPE_FORMAT_VERSION,
};

#[test]
fn an_envelope_opens_to_the_ciphertext_it_was_sealed_with() {
    let envelope = seal_envelope("test-xor", b"\x00\x01secret bytes\xff");
    assert_eq!(envelope.format_version, ENVELOPE_FORMAT_VERSION);
    assert_eq!(envelope.algorithm, "test-xor");
    assert_eq!(envelope.ciphertext, "AAFzZWNyZXQgYnl0ZXP/");
    assert_eq!(
        open_envelope(&envelope, "test-xor").unwrap(),
        b"\x00\x01secret bytes\xff".to_vec()
    );
}

#[test]
fn foreign_envelopes_are_refused() {
    let mut envelope = seal_envelope("dpapi-machine", b"x");
    match open_envelope(&envelope, "test-xor") {
        Err(StateError::InvalidState(message)) => {
            assert_eq!(message, "state uses dpapi-machine, expected test-xor")
        }
        other => panic!("expected a refused algorithm, got {other:?}"),
    }
    envelope.format_version = 2;
    match open_envelope(&envelope, "dpapi-machine") {
        Err(StateError::InvalidState(message)) => {
            assert_eq!(message, "unsupported envelope version 2")
        }
        other => panic!("expected a refused version, got {other:?}"),
    }
    let corrupt = EncryptedEnvelope {
        format_version: ENVELOPE_FORMAT_VERSION,
        algorithm: "dpapi-machine".to_owned(),
        ciphertext: "not base64!".to_owned(),
    };
    assert!(matches!(
        open_envelope(&corrupt, "dpapi-machine"),
        Err(StateError::Serialization(_))
    ));
}

struct XorProtector;

impl StateProtector for XorProtector {
    fn algorithm(&self) -> &'static str {
        "test-xor"
    }

    fn protect(&self, plaintext: &[u8]) -> Result<Vec<u8>, CryptoError> {
        Ok(plaintext.iter().map(|byte| byte ^ 0x5a).collect())
    }

    fn unprotect(&self, ciphertext: &[u8]) -> Result<Vec<u8>, CryptoError> {
        Ok(ciphertext.iter().map(|byte| byte ^ 0x5a).collect())
    }
}

#[test]
fn state_round_trip_is_encrypted() {
    let plaintext = br#"{"profiles":{"home":{"network_secret":"only-in-encrypted-state"}}}"#;
    let envelope = seal_state(&XorProtector, plaintext).unwrap();
    assert!(!envelope.ciphertext.contains("only-in-encrypted-state"));
    assert_eq!(open_state(&XorProtector, &envelope).unwrap(), plaintext.to_vec());
}

#[test]
fn service_file_names_follow_the_naming_scheme() {
    assert_eq!(runtime_profile_file_name("home"), "home.toml");
    assert_eq!(
        staged_profile_file_name("home", 4242, 7),
        ".home.validate.4242.7.toml"
    );
    assert_eq!(
        temporary_file_name("state.v1.json", 0, 18_446_744_073_709_551_615),
        ".state.v1.json.0.18446744073709551615.tmp"
    );
}

#[test]
fn keyed_profiles_refuse_a_key_that_is_not_the_profile_id() {
    let entries = vec![
        ("home".to_owned(), profile("home", false)),
        ("office".to_owned(), profile("work", false)),
    ];
    match PersistedState::from_keyed_profiles(STATE_SCHEMA_VERSION, &entries, None) {
        Err(StateError::InvalidState(reason)) => assert_eq!(
            reason,
            "profile map key \"office\" does not match profile id \"work\""
        ),
        Err(other) => panic!("unexpected {other:?}"),
        Ok(_) => panic!("a mismatched key was accepted"),
    }
}

#[test]
fn keyed_profiles_become_the_state_in_key_order() {
    let entries = vec![
        ("home".to_owned(), profile("home", true)),
        ("office".to_owned(), profile("office", false)),
    ];
    let state =
        PersistedState::from_keyed_profiles(STATE_SCHEMA_VERSION, &entries, Some("home".to_owned()))
            .unwrap();
    assert_eq!(state.profiles.len(), 2);
    assert_eq!(state.profiles[0].id, "home");
    assert_eq!(state.profiles[1].id, "office");
    assert_eq!(state.active_profile_id.as_deref(), Some("home"));
    assert!(matches!(
        PersistedState::from_keyed_profiles(STATE_SCHEMA_VERSION + 1, &entries, None),
        Err(StateError::UnsupportedSchema(_))
    ));
}
