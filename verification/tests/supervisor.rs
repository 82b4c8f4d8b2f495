use std::time::Duration;

use vibe_easytier_service::protocol::ConnectedPeer;
use vibe_easytier_service::supervisor::{
    HealthSample, RetryPolicy, Supervisor, SupervisorAction, SupervisorState,
};

fn policy() -> RetryPolicy {
    RetryPolicy {
        initial_backoff_ms: 10,
        maximum_backoff_ms: 40,
        health_probe_interval_ms: 5,
        stable_connection_window_ms: 20,
        max_consecutive_failures_before_degraded: 3,
        max_consecutive_health_failures: 2,
        no_peer_restart_after_ms: 10,
        no_peer_restart_min_interval_ms: 15,
    }
}

fn home(desired: bool, policy: RetryPolicy) -> Supervisor {
    Supervisor::new("home".to_owned(), desired, policy)
}

fn unhealthy() -> HealthSample {
    HealthSample {
        core_process_running: true,
        control_plane_healthy: false,
        private_network_reachable: Some(false),
        connected_peer_count: None,
        connected_peers: None,
        route_count: None,
        traffic_tx_bytes: None,
        traffic_rx_bytes: None,
    }
}

fn no_peers() -> HealthSample {
    HealthSample {
        core_process_running: true,
        control_plane_healthy: true,
        private_network_reachable: None,
        connected_peer_count: Some(0),
        connected_peers: Some(Vec::new()),
        route_count: Some(1),
        traffic_tx_bytes: Some(0),
        traffic_rx_bytes: Some(0),
    }
}

fn one_peer() -> HealthSample {
    HealthSample {
        connected_peer_count: Some(1),
        connected_peers: Some(vec![ConnectedPeer {
            id: "remote".to_owned(),
            hostname: "remote-node".to_owned(),
            ipv4: "10.44.0.3".to_owned(),
            cidr: None,
            cost: None,
            latency_ms: None,
            rx_bytes: None,
            tx_bytes: None,
            protocols: Vec::new(),
            tunnel_protocol: None,
            nat_type: None,
            version: None,
        }]),
        ..no_peers()
    }
}

#[test]
fn boot_starts_the_durable_auto_connect_profile() {
    let mut supervisor = home(true, policy());

    assert_eq!(
        supervisor.initialize(0, true),
        SupervisorAction::StartCore {
            profile_id: "home".to_owned()
        }
    );
    assert_eq!(supervisor.state(), SupervisorState::Starting);
    assert_eq!(supervisor.on_core_started(1), SupervisorAction::Noop);
    assert_eq!(supervisor.state(), SupervisorState::Running);
}

#[test]
fn failed_starts_back_off_and_retry() {
    let mut supervisor = home(true, policy());
    supervisor.initialize(0, true);
    supervisor.on_core_start_failed(1);

    assert_eq!(supervisor.state(), SupervisorState::BackingOff);
    let retry_at = supervisor.retry_at_ms().unwrap();
    assert!((9..=11).contains(&retry_at));
    assert_eq!(
        supervisor.tick(retry_at.saturating_sub(1)),
        SupervisorAction::Noop
    );
    assert!(matches!(
        supervisor.tick(retry_at),
        SupervisorAction::StartCore { .. }
    ));
}

#[test]
fn default_backoff_is_jittered_and_never_exceeds_five_minutes() {
    let mut home = Supervisor::new("home".to_owned(), true, RetryPolicy::default());
    let mut office = Supervisor::new("office".to_owned(), true, RetryPolicy::default());
    home.initialize(0, true);
    office.initialize(0, true);

    for now_ms in 1..=40 {
        home.on_core_start_failed(now_ms);
        office.on_core_start_failed(now_ms);
    }

    let home_delay = home.retry_at_ms().unwrap().saturating_sub(40);
    let office_delay = office.retry_at_ms().unwrap().saturating_sub(40);
    assert!(home_delay <= Duration::from_secs(5 * 60).as_millis() as u64);
    assert!(office_delay <= Duration::from_secs(5 * 60).as_millis() as u64);
    assert_ne!(home_delay, office_delay);
}

#[test]
fn explicit_disconnect_prevents_automatic_relaunch() {
    let mut supervisor = home(true, policy());
    supervisor.initialize(0, true);
    supervisor.on_core_started(1);

    assert_eq!(supervisor.set_desired(false, 2), SupervisorAction::StopCore);
    supervisor.on_core_exited(3);
    assert_eq!(supervisor.tick(100), SupervisorAction::Noop);
    assert_eq!(supervisor.state(), SupervisorState::Stopped);
}

#[test]
fn unhealthy_running_core_is_restarted_after_the_threshold() {
    let mut supervisor = home(true, policy());
    supervisor.initialize(0, true);
    supervisor.on_core_started(1);

    assert_eq!(
        supervisor.on_health_sample(unhealthy(), 2),
        SupervisorAction::Noop
    );
    assert_eq!(
        supervisor.on_health_sample(unhealthy(), 3),
        SupervisorAction::RestartCore {
            profile_id: "home".to_owned()
        }
    );
}

#[test]
fn network_loss_stops_core_and_resume_restarts_it() {
    let mut supervisor = home(true, policy());
    supervisor.initialize(0, true);
    supervisor.on_core_started(1);

    assert_eq!(
        supervisor.on_network_changed(false, 2),
        SupervisorAction::StopCore
    );
    assert_eq!(supervisor.state(), SupervisorState::WaitingForNetwork);
    assert!(matches!(
        supervisor.on_system_resume(3, true),
        SupervisorAction::StartCore { .. }
    ));
}

#[test]
fn no_peer_recovery_is_conservative_and_rate_limited() {
    let mut supervisor = home(true, policy());
    supervisor.initialize(0, true);
    supervisor.on_core_started(1);

    assert_eq!(
        supervisor.on_health_sample(no_peers(), 2),
        SupervisorAction::Noop
    );
    assert_eq!(
        supervisor.on_health_sample(no_peers(), 11),
        SupervisorAction::Noop
    );
    assert_eq!(
        supervisor.on_health_sample(no_peers(), 12),
        SupervisorAction::RestartCore {
            profile_id: "home".to_owned()
        }
    );
    supervisor.on_core_started(13);
    assert_eq!(
        supervisor.on_health_sample(no_peers(), 20),
        SupervisorAction::Noop
    );
}

#[test]
fn default_policy_has_the_documented_timings() {
    let policy = RetryPolicy::default();
    assert_eq!(policy.initial_backoff_ms, 2_000);
    assert_eq!(policy.maximum_backoff_ms, 300_000);
    assert_eq!(policy.health_probe_interval_ms, 15_000);
    assert_eq!(policy.stable_connection_window_ms, 60_000);
    assert_eq!(policy.max_consecutive_failures_before_degraded, 5);
    assert_eq!(policy.max_consecutive_health_failures, 3);
    assert_eq!(policy.no_peer_restart_after_ms, 600_000);
    assert_eq!(policy.no_peer_restart_min_interval_ms, 900_000);
}

#[test]
fn a_profile_that_is_not_desired_never_starts() {
    let mut supervisor = home(false, policy());
    assert_eq!(supervisor.initialize(0, true), SupervisorAction::Noop);
    assert_eq!(supervisor.state(), SupervisorState::Stopped);
    assert_eq!(supervisor.on_system_resume(5, true), SupervisorAction::Noop);
    assert_eq!(supervisor.on_network_changed(true, 6), SupervisorAction::Noop);
    assert_eq!(supervisor.tick(1_000), SupervisorAction::Noop);
    assert_eq!(supervisor.state(), SupervisorState::Stopped);
}

#[test]
fn offline_boot_waits_for_the_network() {
    let mut supervisor = home(true, policy());
    assert_eq!(supervisor.initialize(0, false), SupervisorAction::Noop);
    assert_eq!(supervisor.state(), SupervisorState::WaitingForNetwork);
    assert_eq!(supervisor.tick(500), SupervisorAction::Noop);
    assert_eq!(
        supervisor.on_network_changed(true, 501),
        SupervisorAction::StartCore {
            profile_id: "home".to_owned()
        }
    );
}

#[test]
fn repeated_start_failures_become_degraded_and_the_delay_doubles_up_to_the_cap() {
    let mut supervisor = home(true, policy());
    supervisor.initialize(0, true);
    supervisor.on_core_start_failed(0);
    let first = supervisor.retry_at_ms().unwrap();
    assert!((8..=10).contains(&first));
    supervisor.on_core_start_failed(0);
    let second = supervisor.retry_at_ms().unwrap();
    assert!((16..=20).contains(&second));
    supervisor.on_core_start_failed(0);
    assert_eq!(supervisor.consecutive_failures(), 3);
    assert_eq!(supervisor.state(), SupervisorState::Degraded);
    for _ in 0..10 {
        supervisor.on_core_start_failed(0);
    }
    assert!(supervisor.retry_at_ms().unwrap() <= 40);
}

#[test]
fn a_peer_observation_keeps_a_healthy_core_running() {
    let mut supervisor = home(true, policy());
    supervisor.initialize(0, true);
    supervisor.on_core_started(1);
    for now in [2, 20, 40, 80] {
        assert_eq!(
            supervisor.on_health_sample(one_peer(), now),
            SupervisorAction::Noop
        );
    }
    assert_eq!(supervisor.state(), SupervisorState::Running);
}

#[test]
fn health_probes_follow_the_probe_interval() {
    let mut supervisor = home(true, policy());
    supervisor.initialize(0, true);
    supervisor.on_core_started(1);
    assert_eq!(supervisor.tick(5), SupervisorAction::Noop);
    assert_eq!(supervisor.tick(6), SupervisorAction::ProbeHealth);
}

#[test]
fn an_unexpected_exit_schedules_a_retry() {
    let mut supervisor = home(true, policy());
    supervisor.initialize(0, true);
    supervisor.on_core_started(1);
    supervisor.on_core_exited(2);
    assert_eq!(supervisor.state(), SupervisorState::BackingOff);
    let retry_at = supervisor.retry_at_ms().unwrap();
    assert!(retry_at > 2 && retry_at <= 2 + 40);
    assert_eq!(supervisor.profile_id(), "home");
    assert!(supervisor.desired());
}

#[test]
fn retry_is_scheduled_exactly_while_backing_off_or_degraded() {
    let mut supervisor = home(true, policy());
    let check = |s: &Supervisor| {
        assert_eq!(
            s.retry_at_ms().is_some(),
            matches!(s.state(), SupervisorState::BackingOff | SupervisorState::Degraded)
        );
        assert!(s.desired() || s.state() == SupervisorState::Stopped);
    };
    check(&supervisor);
    supervisor.initialize(0, true);
    check(&supervisor);
    supervisor.on_core_start_failed(1);
    assert_eq!(supervisor.state(), SupervisorState::BackingOff);
    check(&supervisor);
    supervisor.on_core_start_failed(2);
    supervisor.on_core_start_failed(3);
    assert_eq!(supervisor.state(), SupervisorState::Degraded);
    check(&supervisor);
    supervisor.tick(1_000);
    assert_eq!(supervisor.state(), SupervisorState::Starting);
    check(&supervisor);
    supervisor.set_desired(false, 1_001);
    assert!(!supervisor.desired());
    assert_eq!(supervisor.state(), SupervisorState::Stopped);
    check(&supervisor);
    supervisor.on_network_changed(false, 1_002);
    supervisor.tick(1_003);
    assert!(!supervisor.desired());
    check(&supervisor);
}
