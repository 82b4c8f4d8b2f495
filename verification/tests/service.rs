use std::cell::RefCell;
use std::collections::VecDeque;
use std::rc::Rc;
use std::time::Duration;

use vibe_easytier_service::profile::{AddressMode, EasyTierFlags, NetworkProfile, SecretString};
use vibe_easytier_service::protocol::{
    ConnectedPeer, ConnectionIntent, ProfileUpsert, RpcCommand, RpcErrorCode, RpcRequest,
    RpcResponse, RpcResult, ServiceConnectionState,
};
use vibe_easytier_service::service::{
    append_capped, apply_supervisor_action, classify_core_config_stderr, core_check_result,
    core_command_arguments, core_config_check_arguments, is_resume_gap, observe_core_exit,
    CoreCheckRun, CoreConfigCheckFailure, CoreConfigFailureReason, CoreRuntime, HostMode,
    ServiceController, ServiceError, ServiceHost, ServiceLogFile, ServiceOptions,
    CORE_CONFIG_VALIDATION_ERROR_PREFIX, MAX_CORE_CONFIG_STDERR_BYTES,
};
use vibe_easytier_service::state::{PersistedState, StateError};
use vibe_easytier_service::supervisor::{HealthSample, RetryPolicy, SupervisorAction};

/// In-memory host: the durable state, the answer of the core's
/// configuration check and the core log files.
#[derive(Clone, Default)]
struct TestHost {
    /// `Some(stderr)` makes the configuration check fail as a core killed by
    /// the operating system that wrote `stderr`.
    reject: Rc<RefCell<Option<String>>>,
    saved: Rc<RefCell<Option<PersistedState>>>,
    saves: Rc<RefCell<usize>>,
    checks: Rc<RefCell<Vec<String>>>,
    logs: Rc<RefCell<Vec<(String, String)>>>,
}

impl ServiceHost for TestHost {
    fn save_state(&mut self, state: &PersistedState) -> Result<(), StateError> {
        *self.saved.borrow_mut() = Some(state.clone());
        *self.saves.borrow_mut() += 1;
        Ok(())
    }

    fn run_core_config_check(&mut self, _profile_id: &str, config: &str) -> CoreCheckRun {
        self.checks.borrow_mut().push(config.to_owned());
        match self.reject.borrow().as_ref() {
            None => CoreCheckRun::Passed,
            Some(stderr) => CoreCheckRun::Exited {
                code: None,
                stderr: stderr.as_bytes().to_vec(),
            },
        }
    }

    fn local_computer_name(&mut self) -> String {
        "TEST-PC".to_owned()
    }

    fn core_log_files(&mut self) -> Result<Vec<ServiceLogFile>, ServiceError> {
        Ok(self
            .logs
            .borrow()
            .iter()
            .map(|(source, content)| ServiceLogFile {
                source: source.clone(),
                content: content.clone(),
            })
            .collect())
    }

    fn clear_core_logs(&mut self) -> Result<(), ServiceError> {
        self.logs.borrow_mut().clear();
        Ok(())
    }
}

fn profile(id: &str) -> NetworkProfile {
    NetworkProfile {
        id: id.to_owned(),
        name: id.to_owned(),
        instance_name: id.to_owned(),
        hostname: "laptop".to_owned(),
        network_name: "private-network".to_owned(),
        network_secret: SecretString::new("test-secret".to_owned()),
        address_mode: AddressMode::Static {
            cidr: "10.44.0.2/24".to_owned(),
        },
        peers: vec!["tcp://seed.example.net:11010".to_owned()],
        flags: EasyTierFlags::default(),
        auto_connect: false,
    }
}

fn controller_on(host: TestHost, retry_policy: RetryPolicy) -> ServiceController<TestHost> {
    ServiceController::load(host, PersistedState::new(), retry_policy).unwrap()
}

fn controller() -> (ServiceController<TestHost>, TestHost) {
    let host = TestHost::default();
    (controller_on(host.clone(), RetryPolicy::default()), host)
}

fn fake_core_policy() -> RetryPolicy {
    RetryPolicy {
        initial_backoff_ms: 10,
        maximum_backoff_ms: 40,
        health_probe_interval_ms: 1,
        stable_connection_window_ms: 20,
        max_consecutive_failures_before_degraded: 3,
        max_consecutive_health_failures: 2,
        no_peer_restart_after_ms: 10,
        no_peer_restart_min_interval_ms: 15,
    }
}

fn rpc(controller: &mut ServiceController<TestHost>, id: u64, command: RpcCommand) -> RpcResponse {
    controller.handle_request(RpcRequest::new(id, command))
}

fn upsert(id: &str, make_active: bool) -> RpcCommand {
    RpcCommand::UpsertProfile(ProfileUpsert {
        profile: profile(id),
        make_active,
    })
}

fn connect(id: &str) -> RpcCommand {
    RpcCommand::SetConnectionIntent {
        intent: ConnectionIntent::Connect {
            profile_id: id.to_owned(),
        },
    }
}

fn stored<'a>(controller: &'a ServiceController<TestHost>, id: &str) -> &'a NetworkProfile {
    controller
        .persisted_state()
        .get(id)
        .expect("the profile is stored")
}

fn auto_connect_controller() -> ServiceController<TestHost> {
    let mut controller = controller_on(TestHost::default(), fake_core_policy());
    let response = rpc(&mut controller, 1, upsert("home", true));
    assert!(response.error.is_none());
    let response = rpc(&mut controller, 2, connect("home"));
    assert!(response.error.is_none());
    controller
}

#[derive(Default)]
struct FakeCore {
    running: bool,
    exit_on_next_poll: bool,
    next_pid: u32,
    starts: usize,
    replacements: usize,
    stops: usize,
    health_samples: VecDeque<HealthSample>,
}

impl FakeCore {
    fn exit_on_next_poll(&mut self) {
        self.exit_on_next_poll = true;
    }

    fn queue_health(&mut self, sample: HealthSample) {
        self.health_samples.push_back(sample);
    }
}

impl CoreRuntime<TestHost> for FakeCore {
    fn start(
        &mut self,
        _controller: &ServiceController<TestHost>,
        _options: &ServiceOptions,
        _profile_id: &str,
    ) -> Result<u32, ServiceError> {
        if self.running {
            // The production runner replaces an existing child.
            self.replacements += 1;
        }
        self.running = true;
        self.starts += 1;
        self.next_pid = self.next_pid.saturating_add(1);
        Ok(self.next_pid)
    }

    fn poll_exit(&mut self) -> Result<Option<String>, ServiceError> {
        if self.running && self.exit_on_next_poll {
            self.running = false;
            self.exit_on_next_poll = false;
            return Ok(Some("fake core exited immediately".to_owned()));
        }
        Ok(None)
    }

    fn stop(&mut self) -> Result<(), ServiceError> {
        if self.running {
            self.running = false;
            self.stops += 1;
        }
        Ok(())
    }

    fn health_sample(&mut self) -> Result<HealthSample, ServiceError> {
        assert!(
            self.running,
            "a stopped fake core must not be health-probed"
        );
        Ok(self
            .health_samples
            .pop_front()
            .expect("test must queue each requested fake-core health sample"))
    }
}

fn apply_fake_action(
    action: SupervisorAction,
    controller: &mut ServiceController<TestHost>,
    core: &mut FakeCore,
    now_ms: u64,
) {
    apply_supervisor_action(
        action,
        controller,
        core,
        &ServiceOptions::defaults(None),
        now_ms,
    );
}

fn peer(index: usize) -> ConnectedPeer {
    ConnectedPeer {
        id: format!("peer-{index}"),
        hostname: format!("node-{index}"),
        ipv4: format!("10.44.0.{}", index + 3),
        cidr: Some(format!("10.44.0.{}/24", index + 3)),
        cost: Some("10".to_owned()),
        latency_ms: Some(5),
        rx_bytes: None,
        tx_bytes: None,
        protocols: Vec::new(),
        tunnel_protocol: None,
        nat_type: None,
        version: None,
    }
}

fn healthy_sample(peer_count: usize) -> HealthSample {
    HealthSample {
        core_process_running: true,
        control_plane_healthy: true,
        private_network_reachable: None,
        connected_peer_count: Some(peer_count),
        connected_peers: Some((0..peer_count).map(peer).collect()),
        route_count: Some(peer_count.saturating_add(1)),
        traffic_tx_bytes: Some(1_024),
        traffic_rx_bytes: Some(2_048),
    }
}

fn hung_rpc_sample() -> HealthSample {
    HealthSample {
        core_process_running: true,
        control_plane_healthy: false,
        private_network_reachable: None,
        connected_peer_count: None,
        connected_peers: None,
        route_count: None,
        traffic_tx_bytes: None,
        traffic_rx_bytes: None,
    }
}

#[test]
fn fake_core_immediate_exit_retries_without_losing_auto_connect_intent() {
    let mut controller = auto_connect_controller();
    let mut core = FakeCore::default();

    apply_fake_action(controller.reconcile(0, true), &mut controller, &mut core, 0);
    assert_eq!(core.starts, 1);
    assert_eq!(controller.status().core_pid, Some(1));

    core.exit_on_next_poll();
    observe_core_exit(&mut core, &mut controller, 1);

    assert!(!core.running);
    assert!(stored(&controller, "home").auto_connect);
    assert_eq!(controller.status().core_pid, None);
    assert_eq!(
        controller.status().state,
        ServiceConnectionState::Recovering
    );
    assert_eq!(
        controller.status().last_error.as_deref(),
        Some("fake core exited immediately")
    );

    let retry_at = controller
        .supervisor()
        .and_then(|supervisor| supervisor.retry_at_ms())
        .expect("an immediately exited core must be retried");
    apply_fake_action(
        controller.tick(retry_at),
        &mut controller,
        &mut core,
        retry_at,
    );

    assert_eq!(core.starts, 2);
    assert!(core.running);
    assert_eq!(controller.status().core_pid, Some(2));
}

#[test]
fn fake_core_hung_rpc_is_restarted_after_the_health_threshold() {
    let mut controller = auto_connect_controller();
    let mut core = FakeCore::default();
    core.queue_health(hung_rpc_sample());
    core.queue_health(hung_rpc_sample());

    apply_fake_action(controller.reconcile(0, true), &mut controller, &mut core, 0);
    apply_fake_action(controller.tick(1), &mut controller, &mut core, 1);
    assert_eq!(core.starts, 1);
    assert_eq!(core.replacements, 0);

    apply_fake_action(controller.tick(2), &mut controller, &mut core, 2);

    assert_eq!(core.starts, 2);
    assert_eq!(core.replacements, 1);
    assert!(core.running);
    assert_eq!(controller.status().core_pid, Some(2));
    assert_eq!(
        controller.status().state,
        ServiceConnectionState::Connecting
    );
}

#[test]
fn fake_core_no_peers_restarts_conservatively_then_reports_recovered_peer() {
    let mut controller = auto_connect_controller();
    let mut core = FakeCore::default();
    core.queue_health(healthy_sample(0));
    core.queue_health(healthy_sample(0));
    core.queue_health(healthy_sample(1));

    apply_fake_action(controller.reconcile(0, true), &mut controller, &mut core, 0);
    apply_fake_action(controller.tick(1), &mut controller, &mut core, 1);
    assert_eq!(core.starts, 1, "a lone healthy core is not restarted early");
    assert_eq!(
        controller.status().state,
        ServiceConnectionState::Connecting
    );
    assert_eq!(controller.status().peer_count, 0);
    assert!(controller.status().peer_count_available);

    apply_fake_action(controller.tick(11), &mut controller, &mut core, 11);
    assert_eq!(
        core.starts, 2,
        "the no-peer timeout replaces the child once"
    );
    assert_eq!(core.replacements, 1);

    apply_fake_action(controller.tick(12), &mut controller, &mut core, 12);
    let status = controller.status();
    assert_eq!(status.state, ServiceConnectionState::Connected);
    assert_eq!(status.peer_count, 1);
    assert!(status.peer_count_available);
    assert_eq!(
        core.starts, 2,
        "a recovered peer does not trigger another restart"
    );
}

#[test]
fn fake_core_waits_offline_and_restarts_when_network_returns() {
    let mut controller = auto_connect_controller();
    let mut core = FakeCore::default();

    apply_fake_action(controller.reconcile(0, true), &mut controller, &mut core, 0);
    assert_eq!(core.starts, 1);

    apply_fake_action(
        controller.on_network_changed(false, 1),
        &mut controller,
        &mut core,
        1,
    );
    assert_eq!(core.stops, 1);
    assert!(!core.running);
    assert_eq!(controller.status().core_pid, None);
    assert!(stored(&controller, "home").auto_connect);
    assert_eq!(controller.tick(100), SupervisorAction::Noop);

    apply_fake_action(
        controller.on_network_changed(true, 101),
        &mut controller,
        &mut core,
        101,
    );
    assert_eq!(core.starts, 2);
    assert!(core.running);
    assert_eq!(controller.status().core_pid, Some(2));
}

#[test]
fn connect_intent_is_durable_and_starts_after_service_restart() {
    let host = TestHost::default();
    let mut controller = controller_on(host.clone(), RetryPolicy::default());
    let response = rpc(&mut controller, 1, upsert("home", true));
    assert!(response.error.is_none());

    let response = rpc(&mut controller, 2, connect("home"));
    assert!(response.error.is_none());
    assert!(matches!(
        controller.reconcile(1, true),
        SupervisorAction::StartCore { profile_id } if profile_id == "home"
    ));
    assert!(stored(&controller, "home").auto_connect);

    drop(controller);
    let saved = host.saved.borrow().clone().expect("the intent was saved");
    let mut restarted =
        ServiceController::load(TestHost::default(), saved, RetryPolicy::default()).unwrap();
    assert!(matches!(
        restarted.reconcile(2, true),
        SupervisorAction::StartCore { profile_id } if profile_id == "home"
    ));
}

#[test]
fn disconnect_stops_and_persists_the_non_reconnecting_intent() {
    let (mut controller, host) = controller();
    rpc(&mut controller, 1, upsert("home", true));
    rpc(&mut controller, 2, connect("home"));
    controller.reconcile(1, true);
    controller.on_core_started(123, 2);

    let response = rpc(
        &mut controller,
        3,
        RpcCommand::SetConnectionIntent {
            intent: ConnectionIntent::Disconnect { profile_id: None },
        },
    );
    assert!(response.error.is_none());
    assert_eq!(controller.reconcile(3, true), SupervisorAction::StopCore);
    controller.on_core_stopped();
    assert_eq!(controller.tick(100), SupervisorAction::Noop);
    assert_eq!(
        controller.status().state,
        ServiceConnectionState::Disconnected
    );
    assert!(!stored(&controller, "home").auto_connect);
    let saved = host.saved.borrow().clone().unwrap();
    assert!(!saved.get("home").unwrap().auto_connect);
}

#[test]
fn failed_restart_does_not_leave_the_previous_pid_in_status() {
    let (mut controller, _host) = controller();
    rpc(&mut controller, 1, upsert("home", true));
    rpc(&mut controller, 2, connect("home"));
    controller.reconcile(1, true);
    controller.on_core_started(456, 2);

    // The host clears the old PID before it attempts a replacement child.
    controller.on_core_stopped();
    controller.on_core_start_failed(3);

    assert_eq!(controller.status().core_pid, None);
    assert_eq!(
        controller.status().state,
        ServiceConnectionState::Recovering
    );
}

#[test]
fn log_tail_redacts_network_material() {
    let (mut controller, host) = controller();
    rpc(&mut controller, 1, upsert("home", true));
    host.logs.borrow_mut().push((
        "easytier-core.log".to_owned(),
        "ordinary line\npeer joined with test-secret\n--network-secret test-secret\n".to_owned(),
    ));

    let logs = controller.tail_logs(10).unwrap();
    assert!(logs.iter().all(|line| !line.line.contains("test-secret")));
    assert!(logs.iter().any(|line| line.line == "ordinary line"));
}

#[test]
fn log_tail_groups_multiline_core_events_into_single_records() {
    let (mut controller, host) = controller();
    host.logs.borrow_mut().push((
        "easytier-core.log".to_owned(),
        [
            "2026-08-01T15:29:22.000Z  INFO easytier::launcher: Core started\n",
            "2026-08-01T15:29:23.000Z  INFO easytier::connector: lookup failed: Error {\n",
            "    context: \"hickory dns lookup_ip failed\",\n",
            "    source: ResolveError {\n",
            "        kind: Proto(\n",
            "            ProtoError {\n",
            "                response_code: NXDomain,\n",
            "            },\n",
            "        ),\n",
            "    },\n",
            "}\n",
            "2026-08-01T15:29:24.000Z  WARN easytier::connector: retry scheduled\n",
        ]
        .concat(),
    ));

    let logs = controller.tail_logs(10).unwrap();
    assert_eq!(logs.len(), 3);
    assert!(logs[0].line.contains("retry scheduled"));
    assert!(logs[1].line.contains("lookup failed: Error {"));
    assert!(logs[1].line.contains("response_code: NXDomain"));
    assert_eq!(logs[1].line.lines().count(), 10);
    assert!(logs[2].line.contains("Core started"));

    let latest = controller.tail_logs(1).unwrap();
    assert_eq!(latest.len(), 1);
    assert!(latest[0].line.contains("retry scheduled"));
}

#[test]
fn clear_logs_removes_service_owned_log_history() {
    let (mut controller, host) = controller();
    host.logs
        .borrow_mut()
        .push(("easytier-core.log".to_owned(), "old log line\n".to_owned()));

    controller.clear_logs().unwrap();
    assert!(host.logs.borrow().is_empty());
    assert!(controller.tail_logs(10).unwrap().is_empty());
}

fn args(values: &[&str]) -> Vec<String> {
    values.iter().map(|value| (*value).to_owned()).collect()
}

#[test]
fn parser_requires_a_single_host_mode() {
    assert!(matches!(
        ServiceOptions::parse(args(&["--service", "--console"]), None),
        Err(ServiceError::InvalidArguments(_))
    ));
    let options = ServiceOptions::parse(
        args(&[
            "--service",
            "--state-root",
            "C:\\state",
            "--iperf3",
            "C:\\runtime\\iperf3.exe",
        ]),
        None,
    )
    .unwrap();
    assert_eq!(options.mode, HostMode::Service);
    assert_eq!(options.state_root.as_deref(), Some("C:\\state"));
    assert_eq!(
        options.iperf3_executable.as_deref(),
        Some("C:\\runtime\\iperf3.exe")
    );
    assert!(matches!(
        ServiceOptions::parse(args(&["--service", "--owner-sid", "not-a-sid"]), None),
        Err(ServiceError::InvalidArguments(_))
    ));
}

#[test]
fn core_command_keeps_the_secret_out_of_cli_arguments_and_configures_file_logs() {
    let args = core_command_arguments(
        "C:\\ProgramData\\VibeEasyTier\\runtime\\home.toml",
        "C:\\ProgramData\\VibeEasyTier\\logs",
    );

    assert!(!args.iter().any(|argument| argument == "--network-secret"));
    assert!(args
        .windows(2)
        .any(|pair| { pair[0] == "--rpc-portal" && pair[1] == "127.0.0.1:15888" }));
    assert!(args
        .windows(2)
        .any(|pair| { pair[0] == "--rpc-portal-whitelist" && pair[1] == "127.0.0.1/32" }));
    assert!(args.windows(2).any(|pair| {
        pair[0] == "--file-log-dir" && pair[1] == "C:\\ProgramData\\VibeEasyTier\\logs"
    }));
    assert!(args
        .windows(2)
        .any(|pair| pair[0] == "--file-log-count" && pair[1] == "5"));
}

#[test]
fn staged_core_check_keeps_the_secret_out_of_cli_arguments() {
    let args =
        core_config_check_arguments("C:\\ProgramData\\VibeEasyTier\\runtime\\home.validate.toml");

    assert!(!args.iter().any(|argument| argument == "--network-secret"));
    assert!(args.iter().any(|argument| argument == "--check-config"));
}

#[test]
fn core_config_stderr_is_classified_without_leaking_secret_or_path() {
    let secret = "correct-horse-battery-staple";
    let path = r"C:\ProgramData\VibeEasyTier\runtime\office.validate.toml";
    let stderr =
        format!("failed to deserialize network_secret = {secret:?} from {path}: invalid value");
    let failure = CoreConfigCheckFailure::exited(Some(19), stderr.as_bytes());
    let message = failure.message();

    assert_eq!(message, "exit code 19; reason=network_identity");
    assert!(!message.contains(secret));
    assert!(!message.contains(path));
}

#[test]
fn core_config_stderr_categories_cover_common_profile_fields() {
    let cases = [
        (
            "invalid network_name in the staged file",
            CoreConfigFailureReason::NetworkIdentity,
        ),
        (
            "invalid ipv4 CIDR prefix length",
            CoreConfigFailureReason::VirtualAddress,
        ),
        (
            "bootstrap peer URI must include a port",
            CoreConfigFailureReason::BootstrapPeer,
        ),
        (
            "data_compress_algo has invalid type",
            CoreConfigFailureReason::CoreOption,
        ),
        (
            "could not deserialize TOML document",
            CoreConfigFailureReason::TomlFormat,
        ),
        ("unrecognised failure", CoreConfigFailureReason::Unknown),
    ];

    for (stderr, expected) in cases {
        assert_eq!(classify_core_config_stderr(stderr.as_bytes()), expected);
    }
}

#[test]
fn core_config_timeout_and_stderr_capture_are_bounded() {
    assert_eq!(
        CoreConfigCheckFailure::timed_out().message(),
        "validation timed out"
    );

    let noisy = vec![b'x'; MAX_CORE_CONFIG_STDERR_BYTES + 4096];
    let mut captured = Vec::new();
    for chunk in noisy.chunks(4096) {
        append_capped(&mut captured, chunk);
    }
    assert_eq!(captured.len(), MAX_CORE_CONFIG_STDERR_BYTES);
}

#[test]
fn core_config_failure_rpc_never_returns_raw_stderr() {
    let (mut controller, host) = controller();
    *host.reject.borrow_mut() = Some(
        "failed network_secret = \"test-secret\" in C:\\ProgramData\\VibeEasyTier\\runtime\\home.validate.toml"
            .to_owned(),
    );

    let response = rpc(&mut controller, 1, upsert("home", true));
    let message = response
        .error
        .expect("validation failure should return an RPC error")
        .message;

    assert_eq!(
        message,
        "easytier-core configuration validation failed: terminated by the operating system; reason=network_identity"
    );
    assert!(message.starts_with(CORE_CONFIG_VALIDATION_ERROR_PREFIX));
    assert!(!message.contains("test-secret"));
    assert!(!message.contains("C:\\ProgramData"));
    assert!(controller.persisted_state().profiles.is_empty());
}

#[test]
fn core_validation_failure_keeps_the_current_durable_connection() {
    let (mut controller, host) = controller();
    rpc(&mut controller, 1, upsert("home", true));
    rpc(&mut controller, 2, connect("home"));
    let before = controller.persisted_state().clone();
    *host.reject.borrow_mut() = Some("invalid test configuration".to_owned());

    let mut replacement = profile("home");
    replacement.name = "replacement".to_owned();
    let response = rpc(
        &mut controller,
        3,
        RpcCommand::UpsertProfile(ProfileUpsert {
            profile: replacement,
            make_active: true,
        }),
    );

    assert!(response.error.is_some());
    assert!(controller.persisted_state() == &before);
}

#[test]
fn flag_update_keeps_the_secret_and_restarts_an_active_profile() {
    let (mut controller, _host) = controller();
    rpc(&mut controller, 1, upsert("home", true));
    let original_secret = stored(&controller, "home").network_secret.clone();
    let mut flags = EasyTierFlags::default();
    flags.latency_first = true;
    flags.enable_quic_proxy = true;
    flags.foreign_relay_bps_limit = 42_000;

    let response = rpc(
        &mut controller,
        2,
        RpcCommand::UpdateProfileFlags {
            profile_id: "home".to_owned(),
            flags: flags.clone(),
        },
    );

    let Some(RpcResult::ProfileSaved(view)) = response.result else {
        panic!("expected a profile-save response");
    };
    assert!(response.error.is_none());
    assert_eq!(view.flags, flags);
    assert!(stored(&controller, "home").network_secret == original_secret);
    assert_eq!(stored(&controller, "home").flags, view.flags);
    assert!(controller.force_restart_pending());
}

#[test]
fn rejected_flag_update_does_not_replace_the_old_profile() {
    let (mut controller, host) = controller();
    rpc(&mut controller, 1, upsert("home", true));
    let before = controller.persisted_state().clone();
    *host.reject.borrow_mut() = Some("invalid flag TOML".to_owned());

    let mut flags = EasyTierFlags::default();
    flags.enable_kcp_proxy = true;
    let response = rpc(
        &mut controller,
        2,
        RpcCommand::UpdateProfileFlags {
            profile_id: "home".to_owned(),
            flags,
        },
    );

    assert!(response.error.is_some());
    assert!(controller.persisted_state() == &before);
}

#[test]
fn flag_update_of_unknown_profile_is_not_created() {
    let (mut controller, _host) = controller();
    let response = rpc(
        &mut controller,
        1,
        RpcCommand::UpdateProfileFlags {
            profile_id: "missing".to_owned(),
            flags: EasyTierFlags::default(),
        },
    );

    assert_eq!(
        response.error.as_ref().map(|error| error.code),
        Some(RpcErrorCode::NotFound)
    );
    assert!(controller.persisted_state().profiles.is_empty());
}

#[test]
fn blank_device_name_is_resolved_and_persisted_by_profile_upsert() {
    let (mut controller, _host) = controller();
    let mut requested = profile("home");
    requested.hostname = "   ".to_owned();

    let response = rpc(
        &mut controller,
        1,
        RpcCommand::UpsertProfile(ProfileUpsert {
            profile: requested,
            make_active: true,
        }),
    );

    let saved_hostname = match response.result {
        Some(RpcResult::ProfileSaved(profile)) => profile.hostname,
        other => panic!("expected saved profile response, got {other:?}"),
    };
    assert!(response.error.is_none());
    assert!(!saved_hostname.trim().is_empty());
    assert_eq!(stored(&controller, "home").hostname, saved_hostname);
    assert_eq!(saved_hostname, "TEST-PC");
}

const IMPORTED: &str = r#"
instance_name = "home"
hostname = "laptop"
ipv4 = "10.44.0.2/24"

[[peer]]
uri = "tcp://seed.example.net:11010"

[network_identity]
network_name = "private-network"
network_secret = "test-secret"

[flags]
private_mode = true
enable_encryption = true
accept_dns = false
"#;

#[test]
fn toml_import_uses_the_service_whitelist_and_selects_the_first_profile() {
    let (mut controller, _host) = controller();
    let response = rpc(
        &mut controller,
        1,
        RpcCommand::ImportProfile {
            toml: IMPORTED.to_owned(),
            make_active: true,
        },
    );

    assert!(response.error.is_none());
    assert_eq!(
        controller.status().active_profile_id.as_deref(),
        Some("home")
    );
    assert_eq!(controller.persisted_state().profiles.len(), 1);
    assert_eq!(stored(&controller, "home").network_name, "private-network");
}

#[test]
fn profile_export_returns_a_complete_core_toml_without_mutating_state() {
    let (mut controller, _host) = controller();
    let saved = rpc(&mut controller, 1, upsert("home", true));
    assert!(saved.error.is_none());

    let before = controller.persisted_state().clone();
    let exported = rpc(
        &mut controller,
        2,
        RpcCommand::ExportProfile {
            profile_id: "home".to_owned(),
        },
    );
    let toml = match exported.result {
        Some(RpcResult::ProfileToml { profile_id, toml }) => {
            assert_eq!(profile_id, "home");
            toml
        }
        other => panic!("expected exported profile TOML, got {other:?}"),
    };

    let parsed = toml.parse::<toml::Value>().unwrap();
    assert_eq!(
        parsed["network_identity"]["network_name"].as_str(),
        Some("private-network")
    );
    assert_eq!(
        parsed["network_identity"]["network_secret"].as_str(),
        Some("test-secret")
    );
    assert!(controller.persisted_state() == &before);
}

#[test]
fn exporting_an_unknown_profile_is_a_not_found_error() {
    let (mut controller, _host) = controller();
    let response = rpc(
        &mut controller,
        1,
        RpcCommand::ExportProfile {
            profile_id: "missing".to_owned(),
        },
    );

    assert_eq!(
        response.error.as_ref().map(|error| error.code),
        Some(RpcErrorCode::NotFound)
    );
}

#[test]
fn status_marks_unknown_peers_separately_from_zero_peers() {
    let (mut controller, _host) = controller();
    rpc(&mut controller, 1, upsert("home", true));
    rpc(&mut controller, 2, connect("home"));
    controller.reconcile(1, true);
    controller.on_core_started(99, 2);
    assert_eq!(
        controller.status().state,
        ServiceConnectionState::Connecting,
        "a spawned core is not a connected private network before a remote peer is observed"
    );
    controller.on_health_sample(
        HealthSample {
            core_process_running: true,
            control_plane_healthy: true,
            private_network_reachable: None,
            connected_peer_count: Some(0),
            connected_peers: Some(Vec::new()),
            route_count: Some(1),
            traffic_tx_bytes: Some(10),
            traffic_rx_bytes: Some(20),
        },
        3,
    );
    let status = controller.status();
    assert_eq!(status.peer_count, 0);
    assert!(status.peer_count_available);
    assert_eq!(status.last_success_unix_ms, Some(3));
    assert_eq!(status.state, ServiceConnectionState::Connecting);

    controller.on_health_sample(
        HealthSample {
            core_process_running: true,
            control_plane_healthy: true,
            private_network_reachable: None,
            connected_peer_count: None,
            connected_peers: None,
            route_count: None,
            traffic_tx_bytes: None,
            traffic_rx_bytes: None,
        },
        4,
    );
    let status = controller.status();
    assert_eq!(status.peer_count, 0);
    assert!(!status.peer_count_available);
    assert_eq!(status.route_count, 1);
    assert_eq!(status.traffic_tx_bytes, 10);
    assert_eq!(status.traffic_rx_bytes, 20);
    assert_eq!(status.last_success_unix_ms, Some(4));
    assert_eq!(status.state, ServiceConnectionState::Connecting);

    controller.on_health_sample(
        HealthSample {
            core_process_running: true,
            control_plane_healthy: true,
            private_network_reachable: None,
            connected_peer_count: Some(1),
            connected_peers: Some(vec![ConnectedPeer {
                id: "remote".to_owned(),
                hostname: "remote-node".to_owned(),
                ipv4: "10.44.0.3".to_owned(),
                cidr: Some("10.44.0.3/24".to_owned()),
                cost: Some("10".to_owned()),
                latency_ms: Some(12),
                rx_bytes: None,
                tx_bytes: None,
                protocols: Vec::new(),
                tunnel_protocol: None,
                nat_type: None,
                version: None,
            }]),
            route_count: Some(2),
            traffic_tx_bytes: Some(30),
            traffic_rx_bytes: Some(40),
        },
        5,
    );
    let status = controller.status();
    assert_eq!(status.state, ServiceConnectionState::Connected);
    assert_eq!(status.route_count, 2);
    assert_eq!(status.traffic_tx_bytes, 30);
    assert_eq!(status.traffic_rx_bytes, 40);
}

#[test]
fn profile_views_are_stably_sorted_by_id() {
    let (mut controller, _host) = controller();
    rpc(&mut controller, 1, upsert("zebra", false));
    rpc(&mut controller, 2, upsert("alpha", false));

    let ids = controller
        .profile_views()
        .into_iter()
        .map(|profile| profile.id)
        .collect::<Vec<_>>();
    assert_eq!(ids, vec!["alpha", "zebra"]);
}

#[test]
fn long_loop_gap_is_treated_as_a_resume_signal() {
    let poll = Duration::from_secs(1).as_millis() as u64;
    assert!(!is_resume_gap(Duration::from_secs(3).as_millis() as u64, poll));
    assert!(is_resume_gap(Duration::from_millis(3_001).as_millis() as u64, poll));
}

#[test]
fn every_successful_mutation_is_saved_before_it_is_visible() {
    let (mut controller, host) = controller();
    rpc(&mut controller, 1, upsert("home", true));
    assert_eq!(*host.saves.borrow(), 1);
    assert!(host.saved.borrow().as_ref() == Some(controller.persisted_state()));
    assert_eq!(host.checks.borrow().len(), 1);
    assert!(host.checks.borrow()[0].contains("network_secret = \"test-secret\""));

    let response = rpc(&mut controller, 2, upsert("bad id!", false));
    assert!(response.error.is_some());
    assert_eq!(*host.saves.borrow(), 1);
}

#[test]
fn deleting_the_active_profile_clears_the_selection() {
    let (mut controller, _host) = controller();
    rpc(&mut controller, 1, upsert("home", true));
    rpc(&mut controller, 2, connect("home"));
    let response = rpc(
        &mut controller,
        3,
        RpcCommand::DeleteProfile {
            profile_id: "home".to_owned(),
        },
    );
    assert!(matches!(
        response.result,
        Some(RpcResult::ProfileDeleted { ref profile_id }) if profile_id == "home"
    ));
    assert!(controller.persisted_state().profiles.is_empty());
    assert_eq!(controller.status().active_profile_id, None);
    assert_eq!(controller.status().auto_connect_profile_id, None);

    let missing = rpc(
        &mut controller,
        4,
        RpcCommand::DeleteProfile {
            profile_id: "home".to_owned(),
        },
    );
    assert_eq!(
        missing.error.map(|error| error.code),
        Some(RpcErrorCode::NotFound)
    );
}

#[test]
fn ping_and_incompatible_requests() {
    let (mut controller, _host) = controller();
    let pong = rpc(&mut controller, 5, RpcCommand::Ping);
    assert_eq!(pong.result, Some(RpcResult::Pong));
    assert_eq!(pong.request_id, 5);

    let mut request = RpcRequest::new(6, RpcCommand::Ping);
    request.protocol_version = 99;
    let refused = controller.handle_request(request);
    assert!(refused.result.is_none());
    assert!(refused.error.is_some());
}

#[test]
fn connecting_an_unknown_profile_is_not_found() {
    let (mut controller, _host) = controller();
    let response = rpc(&mut controller, 1, connect("missing"));
    assert_eq!(
        response.error.map(|error| error.code),
        Some(RpcErrorCode::NotFound)
    );
    assert_eq!(controller.status().state, ServiceConnectionState::Disconnected);
}

#[test]
fn the_resume_gap_needs_more_than_three_poll_intervals() {
    assert!(!is_resume_gap(0, 1_000));
    assert!(is_resume_gap(u64::MAX, 1_000));
    assert!(!is_resume_gap(3_000, 1_000));
}

#[test]
fn iperf3_binds_the_running_profile_virtual_address_only() {
    let (mut controller, _host) = controller();
    assert_eq!(controller.iperf3_bind_target(), None);
    rpc(&mut controller, 1, upsert("home", true));
    rpc(&mut controller, 2, connect("home"));
    // Selected but not running: nothing to bind.
    assert_eq!(controller.iperf3_bind_target(), None);
    controller.reconcile(1, true);
    controller.on_core_started(456, 2);
    assert_eq!(
        controller.iperf3_bind_target().map(|target| target.address),
        Some("10.44.0.2".to_owned())
    );
    controller.on_core_stopped();
    assert_eq!(controller.iperf3_bind_target(), None);
}

#[test]
fn iperf3_target_follows_the_running_profile_after_a_switch() {
    let (mut controller, _host) = controller();
    let mut office = profile("office");
    office.address_mode = AddressMode::Static {
        cidr: "10.55.0.7/24".to_owned(),
    };
    rpc(&mut controller, 1, upsert("home", true));
    rpc(
        &mut controller,
        2,
        RpcCommand::UpsertProfile(ProfileUpsert {
            profile: office,
            make_active: false,
        }),
    );
    rpc(&mut controller, 3, connect("office"));
    controller.reconcile(1, true);
    controller.on_core_started(77, 2);
    assert_eq!(
        controller.iperf3_bind_target().map(|target| target.address),
        Some("10.55.0.7".to_owned())
    );
}

#[test]
fn log_tail_never_shows_any_stored_secret() {
    let (mut controller, host) = controller();
    rpc(&mut controller, 1, upsert("home", true));
    let mut office = profile("office");
    office.network_secret = SecretString::new("office-key-42".to_owned());
    rpc(
        &mut controller,
        2,
        RpcCommand::UpsertProfile(ProfileUpsert {
            profile: office,
            make_active: false,
        }),
    );
    host.logs.borrow_mut().push((
        "easytier-core.log".to_owned(),
        "handshake office-key-42 then test-secret and office-key-42office-key-42\n".to_owned(),
    ));

    let logs = controller.tail_logs(10).unwrap();
    assert_eq!(logs.len(), 1);
    assert_eq!(
        logs[0].line,
        "handshake [redacted] then [redacted] and [redacted][redacted]"
    );
}

#[test]
fn core_check_result_passes_only_a_passed_check() {
    assert!(core_check_result(CoreCheckRun::Passed).is_ok());
    let timed_out = core_check_result(CoreCheckRun::TimedOut).unwrap_err();
    assert_eq!(
        timed_out.message(),
        "easytier-core configuration validation failed: validation timed out"
    );
    match core_check_result(CoreCheckRun::MissingCore("C:\\core.exe".to_owned())) {
        Err(ServiceError::MissingCore(path)) => assert_eq!(path, "C:\\core.exe"),
        other => panic!("unexpected {other:?}"),
    }
    match core_check_result(CoreCheckRun::Failed("access denied".to_owned())) {
        Err(ServiceError::CoreProcess(message)) => assert_eq!(message, "access denied"),
        other => panic!("unexpected {other:?}"),
    }
}

#[test]
fn core_check_result_keeps_only_the_category_of_core_output() {
    let run = CoreCheckRun::Exited {
        code: Some(2),
        stderr: b"network_secret = \"test-secret\" in C:\\ProgramData\\home.toml".to_vec(),
    };
    let message = core_check_result(run).unwrap_err().message();
    assert!(message.starts_with(CORE_CONFIG_VALIDATION_ERROR_PREFIX));
    assert!(message.ends_with("reason=network_identity"));
    assert!(!message.contains("test-secret"));
    assert!(!message.contains("ProgramData"));
}

#[test]
fn reconciliation_settles_until_a_durable_change() {
    let (mut controller, _host) = controller();
    rpc(&mut controller, 1, upsert("home", true));
    rpc(&mut controller, 2, connect("home"));
    let first = controller.reconcile(0, true);
    assert!(matches!(first, SupervisorAction::StartCore { .. }));
    assert_eq!(controller.reconcile(5, false), SupervisorAction::Noop);
    controller.on_core_start_failed(6);
    controller.tick(7);
    assert_eq!(controller.reconcile(8, true), SupervisorAction::Noop);
    let status = controller.status();
    assert_eq!(
        status.retry_at_unix_ms.is_some(),
        matches!(
            status.state,
            ServiceConnectionState::Recovering | ServiceConnectionState::Failed
        )
    );
}

#[test]
fn export_of_a_missing_profile_is_not_found() {
    let (mut controller, _host) = controller();
    let response = rpc(&mut controller, 1, RpcCommand::ExportProfile { profile_id: "nope".to_owned() });
    assert_eq!(response.error.unwrap().code, RpcErrorCode::NotFound);
    assert!(response.result.is_none());
}
