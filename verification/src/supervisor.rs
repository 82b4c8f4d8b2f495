//! Deterministic process-supervision policy for the EasyTier core child.
//!
//! The service host supplies time and observations; this module decides when
//! to start, stop, probe, and restart.  Every transition is stated as a spec
//! function over [`SupervisorView`], and the executable methods are proved to
//! follow it.

use vstd::prelude::*;
use vstd::utf8::encode_utf8;

use crate::protocol::ConnectedPeer;

verus! {

broadcast use vstd::string::group_string_axioms;

#[derive(Clone, Copy, Debug, PartialEq, Eq, Structural)]
pub enum SupervisorState {
    Stopped,
    WaitingForNetwork,
    Starting,
    Running,
    BackingOff,
    Degraded,
}

#[derive(Clone, Debug, PartialEq, Eq)]
pub enum SupervisorAction {
    Noop,
    StartCore { profile_id: String },
    StopCore,
    ProbeHealth,
    RestartCore { profile_id: String },
}

/// The mathematical form of a [`SupervisorAction`].
pub ghost enum ActionView {
    Noop,
    StartCore(Seq<char>),
    StopCore,
    ProbeHealth,
    RestartCore(Seq<char>),
}

impl View for SupervisorAction {
    type V = ActionView;

    open spec fn view(&self) -> ActionView {
        match self {
            SupervisorAction::Noop => ActionView::Noop,
            SupervisorAction::StartCore { profile_id } => ActionView::StartCore(profile_id@),
            SupervisorAction::StopCore => ActionView::StopCore,
            SupervisorAction::ProbeHealth => ActionView::ProbeHealth,
            SupervisorAction::RestartCore { profile_id } => ActionView::RestartCore(profile_id@),
        }
    }
}

#[derive(Clone, Debug, PartialEq, Eq)]
pub struct HealthSample {
    pub core_process_running: bool,
    pub control_plane_healthy: bool,
    /// `None` means the profile has no separate reachability probe configured.
    pub private_network_reachable: Option<bool>,
    /// A successful `easytier-cli peer list` observation. `None` deliberately
    /// means that peer data could not be obtained; it is not a claim that the
    /// private network currently has zero remote peers.
    pub connected_peer_count: Option<usize>,
    /// Sanitized rows from the same CLI observation that produced
    /// `connected_peer_count`. `None` means the CLI output was unavailable or
    /// could not be parsed, while `Some(vec![])` is a confirmed empty list.
    pub connected_peers: Option<Vec<ConnectedPeer>>,
    /// Number of entries returned by `easytier-cli route list`.
    pub route_count: Option<usize>,
    /// Host-originated payload counters from EasyTier's statistics registry.
    pub traffic_tx_bytes: Option<u64>,
    pub traffic_rx_bytes: Option<u64>,
}

/// A sample is healthy when the process runs, the control plane answers and
/// no configured reachability probe failed.
pub open spec fn sample_is_healthy(
    core_process_running: bool,
    control_plane_healthy: bool,
    private_network_reachable: Option<bool>,
) -> bool {
    core_process_running && control_plane_healthy && match private_network_reachable {
        Some(reachable) => reachable,
        None => true,
    }
}

impl HealthSample {
    pub open spec fn spec_healthy(&self) -> bool {
        sample_is_healthy(
            self.core_process_running,
            self.control_plane_healthy,
            self.private_network_reachable,
        )
    }

    pub fn healthy(&self) -> (r: bool)
        ensures
            r == self.spec_healthy(),
    {
        self.core_process_running && self.control_plane_healthy && match self.private_network_reachable {
            Some(reachable) => reachable,
            None => true,
        }
    }
}

/// Recovery timing, in milliseconds.
#[derive(Clone, Copy, Debug, PartialEq, Eq, Structural)]
pub struct RetryPolicy {
    pub initial_backoff_ms: u64,
    pub maximum_backoff_ms: u64,
    pub health_probe_interval_ms: u64,
    pub stable_connection_window_ms: u64,
    pub max_consecutive_failures_before_degraded: u32,
    pub max_consecutive_health_failures: u32,
    /// A healthy core with no remote peers is degraded connectivity, not a
    /// hung core. Give it time to converge before one conservative restart.
    pub no_peer_restart_after_ms: u64,
    pub no_peer_restart_min_interval_ms: u64,
}

impl Default for RetryPolicy {
    fn default() -> (r: Self)
        ensures
            r.initial_backoff_ms == 2_000,
            r.maximum_backoff_ms == 300_000,
            r.health_probe_interval_ms == 15_000,
            r.stable_connection_window_ms == 60_000,
            r.max_consecutive_failures_before_degraded == 5,
            r.max_consecutive_health_failures == 3,
            r.no_peer_restart_after_ms == 600_000,
            r.no_peer_restart_min_interval_ms == 900_000,
    {
        RetryPolicy {
            initial_backoff_ms: 2_000,
            maximum_backoff_ms: 5 * 60 * 1_000,
            health_probe_interval_ms: 15_000,
            stable_connection_window_ms: 60_000,
            max_consecutive_failures_before_degraded: 5,
            max_consecutive_health_failures: 3,
            no_peer_restart_after_ms: 10 * 60 * 1_000,
            no_peer_restart_min_interval_ms: 15 * 60 * 1_000,
        }
    }
}

/// The abstract state of a [`Supervisor`].
pub ghost struct SupervisorView {
    pub profile_id: Seq<char>,
    pub desired: bool,
    pub network_available: bool,
    pub state: SupervisorState,
    pub policy: RetryPolicy,
    pub consecutive_start_failures: u32,
    pub consecutive_health_failures: u32,
    pub retry_at_ms: Option<u64>,
    pub started_at_ms: Option<u64>,
    pub next_health_probe_at_ms: Option<u64>,
    pub no_peer_since_ms: Option<u64>,
    pub last_no_peer_restart_ms: Option<u64>,
}

/// State machine for a single selected profile.
pub struct Supervisor {
    profile_id: String,
    desired: bool,
    network_available: bool,
    state: SupervisorState,
    policy: RetryPolicy,
    consecutive_start_failures: u32,
    consecutive_health_failures: u32,
    retry_at_ms: Option<u64>,
    started_at_ms: Option<u64>,
    next_health_probe_at_ms: Option<u64>,
    no_peer_since_ms: Option<u64>,
    last_no_peer_restart_ms: Option<u64>,
}

impl View for Supervisor {
    type V = SupervisorView;

    closed spec fn view(&self) -> SupervisorView {
        SupervisorView {
            profile_id: self.profile_id@,
            desired: self.desired,
            network_available: self.network_available,
            state: self.state,
            policy: self.policy,
            consecutive_start_failures: self.consecutive_start_failures,
            consecutive_health_failures: self.consecutive_health_failures,
            retry_at_ms: self.retry_at_ms,
            started_at_ms: self.started_at_ms,
            next_health_probe_at_ms: self.next_health_probe_at_ms,
            no_peer_since_ms: self.no_peer_since_ms,
            last_no_peer_restart_ms: self.last_no_peer_restart_ms,
        }
    }
}

// ---------------------------------------------------------------------------
// Arithmetic on timestamps
// ---------------------------------------------------------------------------

pub open spec fn sat_add(a: u64, b: u64) -> u64 {
    if a + b > u64::MAX {
        u64::MAX
    } else {
        (a + b) as u64
    }
}

pub open spec fn sat_sub(a: u64, b: u64) -> u64 {
    if a < b {
        0
    } else {
        (a - b) as u64
    }
}

pub open spec fn sat_mul(a: u64, b: u64) -> u64 {
    if a * b > u64::MAX {
        u64::MAX
    } else {
        (a * b) as u64
    }
}

pub open spec fn u32_sat_inc(a: u32) -> u32 {
    if a == u32::MAX {
        a
    } else {
        (a + 1) as u32
    }
}

/// At least one, as the thresholds are applied.
pub open spec fn at_least_one(a: u32) -> u32 {
    if a < 1 {
        1
    } else {
        a
    }
}

// ---------------------------------------------------------------------------
// Deterministic jitter (FNV-1a)
// ---------------------------------------------------------------------------

pub open spec fn fnv_offset_basis() -> u64 {
    0xcbf2_9ce4_8422_2325
}

pub open spec fn fnv_prime() -> u64 {
    0x0000_0100_0000_01b3
}

pub open spec fn fnv1a_step(hash: u64, byte: u8) -> u64 {
    vstd::wrapping::u64_specs::wrapping_mul(hash ^ (byte as u64), fnv_prime())
}

/// FNV-1a over `bytes`, starting from `hash`.
pub open spec fn fnv1a_from(hash: u64, bytes: Seq<u8>) -> u64
    decreases bytes.len(),
{
    if bytes.len() == 0 {
        hash
    } else {
        fnv1a_from(fnv1a_step(hash, bytes[0]), bytes.drop_first())
    }
}

pub open spec fn u32_le_bytes(x: u32) -> Seq<u8> {
    seq![
        (x % 256) as u8,
        ((x / 256) % 256) as u8,
        ((x / 65536) % 256) as u8,
        (x / 16777216) as u8,
    ]
}

/// The jitter source: FNV-1a over the profile id's UTF-8 bytes followed by
/// the little-endian failure count.
pub open spec fn jitter_of(profile_id: Seq<char>, failures: u32) -> u64 {
    fnv1a_from(fnv_offset_basis(), encode_utf8(profile_id) + u32_le_bytes(failures))
}

// ---------------------------------------------------------------------------
// The transition relation
// ---------------------------------------------------------------------------

pub open spec fn reset_to_stopped(s: SupervisorView) -> SupervisorView {
    SupervisorView {
        state: SupervisorState::Stopped,
        retry_at_ms: None,
        started_at_ms: None,
        next_health_probe_at_ms: None,
        consecutive_health_failures: 0,
        no_peer_since_ms: None,
        ..s
    }
}

pub open spec fn reset_to_waiting(s: SupervisorView) -> SupervisorView {
    SupervisorView {
        state: SupervisorState::WaitingForNetwork,
        retry_at_ms: None,
        started_at_ms: None,
        next_health_probe_at_ms: None,
        consecutive_health_failures: 0,
        no_peer_since_ms: None,
        ..s
    }
}

pub open spec fn with_network(s: SupervisorView, network_available: bool) -> SupervisorView {
    SupervisorView { network_available, ..s }
}

pub open spec fn with_desired(s: SupervisorView, desired: bool) -> SupervisorView {
    SupervisorView { desired, ..s }
}

pub open spec fn clear_timers(s: SupervisorView) -> SupervisorView {
    SupervisorView { retry_at_ms: None, started_at_ms: None, next_health_probe_at_ms: None, ..s }
}

/// Entering `Starting` clears every timer.
pub open spec fn to_starting(s: SupervisorView) -> SupervisorView {
    SupervisorView {
        state: SupervisorState::Starting,
        retry_at_ms: None,
        started_at_ms: None,
        next_health_probe_at_ms: None,
        ..s
    }
}

pub open spec fn begin_start(s: SupervisorView) -> (SupervisorView, ActionView) {
    (to_starting(s), ActionView::StartCore(s.profile_id))
}

pub open spec fn retry_due(s: SupervisorView, now_ms: u64) -> bool {
    match s.retry_at_ms {
        Some(retry_at) => now_ms >= retry_at,
        None => false,
    }
}

/// Brings the state in line with the desired flag and the network.
pub open spec fn reconcile(s: SupervisorView, now_ms: u64) -> (SupervisorView, ActionView) {
    if !s.desired {
        (
            reset_to_stopped(s),
            if s.state != SupervisorState::Stopped {
                ActionView::StopCore
            } else {
                ActionView::Noop
            },
        )
    } else if !s.network_available {
        (
            reset_to_waiting(s),
            if s.state == SupervisorState::Starting || s.state == SupervisorState::Running {
                ActionView::StopCore
            } else {
                ActionView::Noop
            },
        )
    } else {
        match s.state {
            SupervisorState::Running | SupervisorState::Starting => (s, ActionView::Noop),
            SupervisorState::BackingOff | SupervisorState::Degraded => if retry_due(s, now_ms) {
                begin_start(s)
            } else {
                (s, ActionView::Noop)
            },
            SupervisorState::Stopped | SupervisorState::WaitingForNetwork => begin_start(s),
        }
    }
}

/// The capped exponential delay for the `failures`-th consecutive failure.
pub open spec fn exponential_delay(policy: RetryPolicy, failures: u32) -> u64 {
    let shift: u32 = if failures < 1 {
        0
    } else if failures - 1 > 31 {
        31
    } else {
        (failures - 1) as u32
    };
    let product = sat_mul(policy.initial_backoff_ms, 1u64 << shift);
    if product < policy.maximum_backoff_ms {
        product
    } else {
        policy.maximum_backoff_ms
    }
}

/// The jittered delay: within the upper fifth below the exponential delay.
pub open spec fn backoff_delay(profile_id: Seq<char>, policy: RetryPolicy, failures: u32) -> u64 {
    let exponential = exponential_delay(policy, failures);
    let lower = sat_mul(exponential, 80) / 100;
    let spread = sat_sub(exponential, lower);
    sat_add(lower, jitter_of(profile_id, failures) % sat_add(spread, 1))
}

pub open spec fn schedule_backoff(s: SupervisorView, now_ms: u64) -> SupervisorView {
    let failures = u32_sat_inc(s.consecutive_start_failures);
    SupervisorView {
        consecutive_start_failures: failures,
        retry_at_ms: Some(sat_add(now_ms, backoff_delay(s.profile_id, s.policy, failures))),
        started_at_ms: None,
        next_health_probe_at_ms: None,
        state: if failures >= at_least_one(s.policy.max_consecutive_failures_before_degraded) {
            SupervisorState::Degraded
        } else {
            SupervisorState::BackingOff
        },
        ..s
    }
}

/// A start failure or an exit: back off unless intent or network say stop.
pub open spec fn on_failure(s: SupervisorView, now_ms: u64) -> SupervisorView {
    if !s.desired {
        reset_to_stopped(s)
    } else if !s.network_available {
        reset_to_waiting(s)
    } else {
        schedule_backoff(s, now_ms)
    }
}

pub open spec fn on_core_started(s: SupervisorView, now_ms: u64) -> (SupervisorView, ActionView) {
    if !s.desired {
        (reset_to_stopped(s), ActionView::StopCore)
    } else if !s.network_available {
        (reset_to_waiting(s), ActionView::StopCore)
    } else {
        (
            SupervisorView {
                state: SupervisorState::Running,
                retry_at_ms: None,
                started_at_ms: Some(now_ms),
                next_health_probe_at_ms: Some(sat_add(now_ms, s.policy.health_probe_interval_ms)),
                consecutive_health_failures: 0,
                ..s
            },
            ActionView::Noop,
        )
    }
}

pub open spec fn on_system_resume(s: SupervisorView, now_ms: u64, network_available: bool) -> (
    SupervisorView,
    ActionView,
) {
    let s1 = SupervisorView { network_available, ..s };
    if s.state == SupervisorState::Running && s.desired && network_available {
        (SupervisorView { next_health_probe_at_ms: Some(now_ms), ..s1 }, ActionView::ProbeHealth)
    } else {
        reconcile(s1, now_ms)
    }
}

/// A healthy sample's peer count: restart only after a long, rate-limited
/// period without remote peers.
pub open spec fn on_healthy_peer_observation(
    s: SupervisorView,
    connected_peer_count: Option<usize>,
    now_ms: u64,
) -> (SupervisorView, ActionView) {
    match connected_peer_count {
        None => (s, ActionView::Noop),
        Some(count) => if count > 0 {
            (SupervisorView { no_peer_since_ms: None, ..s }, ActionView::Noop)
        } else {
            let since = match s.no_peer_since_ms {
                Some(t) => t,
                None => now_ms,
            };
            let s1 = SupervisorView { no_peer_since_ms: Some(since), ..s };
            let long_enough = sat_sub(now_ms, since) >= s.policy.no_peer_restart_after_ms;
            let rate_limited = match s.last_no_peer_restart_ms {
                Some(last) => sat_sub(now_ms, last) < s.policy.no_peer_restart_min_interval_ms,
                None => false,
            };
            if !s.network_available || !long_enough || rate_limited {
                (s1, ActionView::Noop)
            } else {
                (
                    SupervisorView {
                        last_no_peer_restart_ms: Some(now_ms),
                        ..to_starting(s1)
                    },
                    ActionView::RestartCore(s.profile_id),
                )
            }
        },
    }
}

pub open spec fn on_health_sample(
    s: SupervisorView,
    healthy: bool,
    core_process_running: bool,
    connected_peer_count: Option<usize>,
    now_ms: u64,
) -> (SupervisorView, ActionView) {
    if !s.desired || s.state != SupervisorState::Running {
        (s, ActionView::Noop)
    } else if healthy {
        on_healthy_peer_observation(
            SupervisorView { consecutive_health_failures: 0, ..s },
            connected_peer_count,
            now_ms,
        )
    } else if !core_process_running {
        (on_failure(s, now_ms), ActionView::Noop)
    } else {
        let failures = u32_sat_inc(s.consecutive_health_failures);
        let s1 = SupervisorView { consecutive_health_failures: failures, ..s };
        if failures < at_least_one(s.policy.max_consecutive_health_failures) {
            (s1, ActionView::Noop)
        } else {
            (to_starting(s1), ActionView::RestartCore(s.profile_id))
        }
    }
}

pub open spec fn tick(s: SupervisorView, now_ms: u64) -> (SupervisorView, ActionView) {
    if !s.desired || !s.network_available {
        (s, ActionView::Noop)
    } else {
        match s.state {
            SupervisorState::Stopped | SupervisorState::WaitingForNetwork => begin_start(s),
            SupervisorState::BackingOff | SupervisorState::Degraded => if retry_due(s, now_ms) {
                begin_start(s)
            } else {
                (s, ActionView::Noop)
            },
            SupervisorState::Starting => (s, ActionView::Noop),
            SupervisorState::Running => {
                let stable = match s.started_at_ms {
                    Some(started) => sat_sub(now_ms, started)
                        >= s.policy.stable_connection_window_ms,
                    None => false,
                };
                let s1 = if stable {
                    SupervisorView { consecutive_start_failures: 0, ..s }
                } else {
                    s
                };
                let probe_due = match s.next_health_probe_at_ms {
                    Some(next) => now_ms >= next,
                    None => false,
                };
                if probe_due {
                    (
                        SupervisorView {
                            next_health_probe_at_ms: Some(
                                sat_add(now_ms, s.policy.health_probe_interval_ms),
                            ),
                            ..s1
                        },
                        ActionView::ProbeHealth,
                    )
                } else {
                    (s1, ActionView::Noop)
                }
            },
        }
    }
}

/// The initial abstract state of a new supervisor.
pub open spec fn initial_view(profile_id: Seq<char>, desired: bool, policy: RetryPolicy) -> SupervisorView {
    SupervisorView {
        profile_id,
        desired,
        network_available: false,
        state: SupervisorState::Stopped,
        policy,
        consecutive_start_failures: 0,
        consecutive_health_failures: 0,
        retry_at_ms: None,
        started_at_ms: None,
        next_health_probe_at_ms: None,
        no_peer_since_ms: None,
        last_no_peer_restart_ms: None,
    }
}

pub open spec fn max_u32(a: u32, b: u32) -> u32 {
    if a >= b {
        a
    } else {
        b
    }
}


// ---------------------------------------------------------------------------
// Laws of the supervision policy
// ---------------------------------------------------------------------------

/// An action that launches a core process.
pub open spec fn launches(a: ActionView) -> bool {
    a is StartCore || a is RestartCore
}

/// Only a desired profile on an available network is starting or running.
pub open spec fn consistent(s: SupervisorView) -> bool {
    (s.state == SupervisorState::Starting || s.state == SupervisorState::Running) ==> (s.desired
        && s.network_available)
}

/// The retry delay never exceeds the configured maximum backoff, and it is at
/// least four fifths of the capped exponential delay.
pub proof fn law_backoff_is_capped(profile_id: Seq<char>, policy: RetryPolicy, failures: u32)
    ensures
        backoff_delay(profile_id, policy, failures) <= policy.maximum_backoff_ms,
        backoff_delay(profile_id, policy, failures) <= exponential_delay(policy, failures),
        backoff_delay(profile_id, policy, failures) >= sat_mul(
            exponential_delay(policy, failures),
            80,
        ) / 100,
{
    let e = exponential_delay(policy, failures);
    let lower = sat_mul(e, 80) / 100;
    assert(lower <= e) by (nonlinear_arith)
        requires
            lower == sat_mul(e, 80) / 100,
            sat_mul(e, 80) == (if e * 80 > u64::MAX {
                u64::MAX as int
            } else {
                e * 80
            }),
    ;
    let spread = sat_sub(e, lower);
    let j = jitter_of(profile_id, failures) % sat_add(spread, 1);
    assert(j <= spread);
}

/// A connection that stayed up for the stable window is forgiven its
/// earlier start failures: a tick of a running supervisor started at least
/// `stable_connection_window_ms` ago clears the count, so the next failure is
/// the first again.  It backs off (degraded only when one failure is the
/// threshold) and retries within four fifths to all of the initial backoff
/// (no more than the maximum backoff) after it.
pub proof fn law_stable_run_forgives_start_failures(s: SupervisorView, now_ms: u64, later_ms: u64)
    requires
        s.state == SupervisorState::Running,
        s.desired,
        s.network_available,
        s.started_at_ms matches Some(t) && t + s.policy.stable_connection_window_ms <= now_ms,
    ensures
        tick(s, now_ms).0.consecutive_start_failures == 0,
        on_failure(tick(s, now_ms).0, later_ms).consecutive_start_failures == 1,
        s.policy.max_consecutive_failures_before_degraded > 1 ==> on_failure(tick(s, now_ms).0, later_ms).state
            == SupervisorState::BackingOff,
        exists|d: u64|
            {
                &&& on_failure(tick(s, now_ms).0, later_ms).retry_at_ms == Some(sat_add(later_ms, d))
                &&& d <= s.policy.initial_backoff_ms
                &&& d <= s.policy.maximum_backoff_ms
                &&& (s.policy.initial_backoff_ms <= s.policy.maximum_backoff_ms ==> d >= sat_mul(
                    s.policy.initial_backoff_ms,
                    80,
                ) / 100)
            },
{
    let policy = s.policy;
    let d = backoff_delay(s.profile_id, policy, 1);
    law_backoff_is_capped(s.profile_id, policy, 1);
    assert(1u64 << 0u32 == 1u64) by (bit_vector);
    assert(sat_mul(policy.initial_backoff_ms, 1) == policy.initial_backoff_ms);
    let shift: u32 = 0;
    assert(sat_mul(policy.initial_backoff_ms, 1u64 << shift) == policy.initial_backoff_ms);
    assert(exponential_delay(policy, 1) == (if policy.initial_backoff_ms < policy.maximum_backoff_ms {
        policy.initial_backoff_ms
    } else {
        policy.maximum_backoff_ms
    }));
    let f = on_failure(tick(s, now_ms).0, later_ms);
    assert(f.retry_at_ms == Some(sat_add(later_ms, d)));
}

/// A scheduled retry lies no later than the maximum backoff after the failure.
pub proof fn law_retry_at_most_maximum_backoff_later(s: SupervisorView, now_ms: u64)
    ensures
        schedule_backoff(s, now_ms).retry_at_ms matches Some(t) && t <= sat_add(
            now_ms,
            s.policy.maximum_backoff_ms,
        ),
{
    law_backoff_is_capped(s.profile_id, s.policy, u32_sat_inc(s.consecutive_start_failures));
}

/// Explicit user intent wins: while the profile is not desired, no event
/// launches the core, ticks change nothing, and every reconciling event
/// leaves the supervisor stopped.
pub proof fn law_disconnect_prevents_relaunch(
    s: SupervisorView,
    now_ms: u64,
    network_available: bool,
    healthy: bool,
    core_process_running: bool,
    connected_peer_count: Option<usize>,
)
    requires
        !s.desired,
    ensures
        tick(s, now_ms) == (s, ActionView::Noop),
        !launches(reconcile(s, now_ms).1),
        reconcile(s, now_ms).0.state == SupervisorState::Stopped,
        !launches(reconcile(with_network(s, network_available), now_ms).1),
        reconcile(with_network(s, network_available), now_ms).0.state == SupervisorState::Stopped,
        !launches(on_system_resume(s, now_ms, network_available).1),
        on_system_resume(s, now_ms, network_available).0.state == SupervisorState::Stopped,
        on_core_started(s, now_ms).1 == ActionView::StopCore,
        on_core_started(s, now_ms).0.state == SupervisorState::Stopped,
        on_failure(s, now_ms).state == SupervisorState::Stopped,
        on_health_sample(s, healthy, core_process_running, connected_peer_count, now_ms) == (
        s, ActionView::Noop),
{
}

/// The automatic connection is pursued: a desired profile that is stopped
/// or waiting for the network is started as soon as the network is back or
/// the machine wakes with a network, and one that backs off is started by
/// the first tick at or after its retry time.
pub proof fn law_desired_profile_is_pursued(s: SupervisorView, now_ms: u64)
    requires
        s.desired,
    ensures
        (s.state == SupervisorState::Stopped || s.state == SupervisorState::WaitingForNetwork)
            ==> reconcile(with_network(s, true), now_ms).1 == ActionView::StartCore(s.profile_id),
        (s.state == SupervisorState::Stopped || s.state == SupervisorState::WaitingForNetwork)
            ==> on_system_resume(s, now_ms, true).1 == ActionView::StartCore(s.profile_id),
        (s.state == SupervisorState::BackingOff || s.state == SupervisorState::Degraded)
            && s.network_available && retry_due(s, now_ms) ==> tick(s, now_ms).1
            == ActionView::StartCore(s.profile_id),
{
}

/// Every transition keeps the supervisor consistent: `Starting` and
/// `Running` only ever hold for a desired profile on an available network.
pub proof fn law_transitions_stay_consistent(
    s: SupervisorView,
    now_ms: u64,
    flag: bool,
    healthy: bool,
    core_process_running: bool,
    connected_peer_count: Option<usize>,
)
    requires
        consistent(s),
    ensures
        consistent(tick(s, now_ms).0),
        consistent(reconcile(s, now_ms).0),
        consistent(reconcile(with_network(s, flag), now_ms).0),
        consistent(reconcile(with_desired(s, flag), now_ms).0),
        consistent(on_system_resume(s, now_ms, flag).0),
        consistent(on_core_started(s, now_ms).0),
        consistent(on_failure(s, now_ms)),
        consistent(on_health_sample(s, healthy, core_process_running, connected_peer_count, now_ms).0),
{
}

/// A retry is scheduled exactly while backing off or degraded, and an
/// undesired profile is stopped.
pub open spec fn timers_follow_state(s: SupervisorView) -> bool {
    &&& (s.retry_at_ms is Some <==> (s.state == SupervisorState::BackingOff || s.state
        == SupervisorState::Degraded))
    &&& (!s.desired ==> s.state == SupervisorState::Stopped)
}

/// Every supervisor reached from a new one keeps `timers_follow_state`: a
/// new supervisor has it, and every transition keeps it.  The desired flag
/// is the one given last: only `set_desired` changes it, to its argument.
pub proof fn law_reachable_supervisors_keep_timers_and_intent(
    s: SupervisorView,
    now_ms: u64,
    flag: bool,
    healthy: bool,
    core_process_running: bool,
    connected_peer_count: Option<usize>,
    profile_id: Seq<char>,
    policy: RetryPolicy,
)
    requires
        timers_follow_state(s),
    ensures
        timers_follow_state(initial_view(profile_id, flag, policy)),
        initial_view(profile_id, flag, policy).desired == flag,
        timers_follow_state(tick(s, now_ms).0),
        timers_follow_state(reconcile(s, now_ms).0),
        timers_follow_state(reconcile(with_network(s, flag), now_ms).0),
        timers_follow_state(reconcile(with_desired(s, flag), now_ms).0),
        timers_follow_state(on_system_resume(s, now_ms, flag).0),
        timers_follow_state(on_core_started(s, now_ms).0),
        timers_follow_state(on_failure(s, now_ms)),
        timers_follow_state(on_health_sample(s, healthy, core_process_running, connected_peer_count, now_ms).0),
        reconcile(with_desired(s, flag), now_ms).0.desired == flag,
        tick(s, now_ms).0.desired == s.desired,
        reconcile(s, now_ms).0.desired == s.desired,
        reconcile(with_network(s, flag), now_ms).0.desired == s.desired,
        on_system_resume(s, now_ms, flag).0.desired == s.desired,
        on_core_started(s, now_ms).0.desired == s.desired,
        on_failure(s, now_ms).desired == s.desired,
        on_health_sample(s, healthy, core_process_running, connected_peer_count, now_ms).0.desired
            == s.desired,
{
}

/// Without a network no event launches the core.
pub proof fn law_offline_never_launches(
    s: SupervisorView,
    now_ms: u64,
    healthy: bool,
    core_process_running: bool,
    connected_peer_count: Option<usize>,
)
    requires
        consistent(s),
        !s.network_available,
    ensures
        !launches(tick(s, now_ms).1),
        !launches(reconcile(s, now_ms).1),
        !launches(on_system_resume(s, now_ms, false).1),
        !launches(on_core_started(s, now_ms).1),
        !launches(on_health_sample(s, healthy, core_process_running, connected_peer_count, now_ms).1),
{
}

/// An unhealthy but running core is restarted only once the consecutive
/// failure count reaches the threshold (at least one).
pub proof fn law_health_restart_needs_threshold(
    s: SupervisorView,
    core_process_running: bool,
    connected_peer_count: Option<usize>,
    now_ms: u64,
)
    requires
        launches(on_health_sample(s, false, core_process_running, connected_peer_count, now_ms).1),
    ensures
        u32_sat_inc(s.consecutive_health_failures) >= at_least_one(
            s.policy.max_consecutive_health_failures,
        ),
        core_process_running,
        s.state == SupervisorState::Running,
{
}

/// A healthy core without remote peers is restarted only after the no-peer
/// period, never twice within the minimum interval, and never when peer data
/// was unavailable.
pub proof fn law_no_peer_restart_is_conservative(
    s: SupervisorView,
    connected_peer_count: Option<usize>,
    now_ms: u64,
)
    requires
        launches(on_health_sample(s, true, true, connected_peer_count, now_ms).1),
    ensures
        connected_peer_count == Some(0usize),
        s.network_available,
        sat_sub(
            now_ms,
            match s.no_peer_since_ms {
                Some(t) => t,
                None => now_ms,
            },
        ) >= s.policy.no_peer_restart_after_ms,
        s.last_no_peer_restart_ms matches Some(last) ==> sat_sub(now_ms, last)
            >= s.policy.no_peer_restart_min_interval_ms,
        on_health_sample(s, true, true, connected_peer_count, now_ms).0.last_no_peer_restart_ms
            == Some(now_ms),
{
}

/// A failed health telemetry observation (no peer count) never restarts a
/// healthy core.
pub proof fn law_unknown_peer_count_never_restarts(s: SupervisorView, now_ms: u64)
    ensures
        !launches(on_health_sample(s, true, true, None, now_ms).1),
{
}

fn saturating_mul(a: u64, b: u64) -> (r: u64)
    ensures
        r == sat_mul(a, b),
{
    match a.checked_mul(b) {
        Some(product) => product,
        None => u64::MAX,
    }
}

fn add_duration(now_ms: u64, duration_ms: u64) -> (r: u64)
    ensures
        r == sat_add(now_ms, duration_ms),
{
    now_ms.saturating_add(duration_ms)
}

/// FNV-1a over the profile id and the failure count; a repeatable, small
/// jitter source that is never used for secrets.
fn deterministic_jitter(profile_id: &str, failures: u32) -> (r: u64)
    ensures
        r == jitter_of(profile_id@, failures),
{
    let bytes = profile_id.as_bytes();
    let mut value: u64 = 0xcbf2_9ce4_8422_2325;
    let ghost all = bytes@ + u32_le_bytes(failures);
    let mut i: usize = 0;
    assert(all.skip(0) =~= all);
    while i < bytes.len()
        invariant
            i <= bytes@.len(),
            all == bytes@ + u32_le_bytes(failures),
            fnv1a_from(fnv_offset_basis(), all) == fnv1a_from(value, all.skip(i as int)),
        decreases bytes@.len() - i,
    {
        assert(all.skip(i as int).drop_first() =~= all.skip(i + 1));
        value = (value ^ (bytes[i] as u64)).wrapping_mul(0x0000_0100_0000_01b3);
        i = i + 1;
    }
    let le: [u8; 4] = [
        (failures % 256) as u8,
        ((failures / 256) % 256) as u8,
        ((failures / 65536) % 256) as u8,
        (failures / 16777216) as u8,
    ];
    assert(le@ =~= u32_le_bytes(failures));
    let mut j: usize = 0;
    while j < 4
        invariant
            j <= 4,
            i == bytes@.len(),
            le@ == u32_le_bytes(failures),
            all == bytes@ + u32_le_bytes(failures),
            fnv1a_from(fnv_offset_basis(), all) == fnv1a_from(value, all.skip(i + j)),
        decreases 4 - j,
    {
        assert(all.skip(i + j).drop_first() =~= all.skip(i + j + 1));
        assert(all[i + j] == le@[j as int]);
        value = (value ^ (le[j] as u64)).wrapping_mul(0x0000_0100_0000_01b3);
        j = j + 1;
    }
    assert(all.skip(i + 4) =~= Seq::<u8>::empty());
    value
}

impl Supervisor {
    pub fn new(profile_id: String, desired: bool, policy: RetryPolicy) -> (r: Self)
        ensures
            r@ == initial_view(profile_id@, desired, policy),
    {
        Supervisor {
            profile_id,
            desired,
            network_available: false,
            state: SupervisorState::Stopped,
            policy,
            consecutive_start_failures: 0,
            consecutive_health_failures: 0,
            retry_at_ms: None,
            started_at_ms: None,
            next_health_probe_at_ms: None,
            no_peer_since_ms: None,
            last_no_peer_restart_ms: None,
        }
    }

    pub fn profile_id(&self) -> (r: &str)
        ensures
            r@ == self@.profile_id,
    {
        self.profile_id.as_str()
    }

    pub fn state(&self) -> (r: SupervisorState)
        ensures
            r == self@.state,
    {
        self.state
    }

    pub fn desired(&self) -> (r: bool)
        ensures
            r == self@.desired,
    {
        self.desired
    }

    pub fn retry_at_ms(&self) -> (r: Option<u64>)
        ensures
            r == self@.retry_at_ms,
    {
        self.retry_at_ms
    }

    pub fn consecutive_failures(&self) -> (r: u32)
        ensures
            r == max_u32(self@.consecutive_start_failures, self@.consecutive_health_failures),
    {
        if self.consecutive_start_failures >= self.consecutive_health_failures {
            self.consecutive_start_failures
        } else {
            self.consecutive_health_failures
        }
    }

    fn action_start(&self) -> (r: SupervisorAction)
        ensures
            r@ == ActionView::StartCore(self@.profile_id),
    {
        SupervisorAction::StartCore { profile_id: self.profile_id.clone() }
    }

    fn action_restart(&self) -> (r: SupervisorAction)
        ensures
            r@ == ActionView::RestartCore(self@.profile_id),
    {
        SupervisorAction::RestartCore { profile_id: self.profile_id.clone() }
    }

    fn clear_timers(&mut self)
        ensures
            final(self)@ == clear_timers(old(self)@),
    {
        self.retry_at_ms = None;
        self.started_at_ms = None;
        self.next_health_probe_at_ms = None;
    }

    fn reset_to_stopped(&mut self)
        ensures
            final(self)@ == reset_to_stopped(old(self)@),
    {
        self.state = SupervisorState::Stopped;
        self.clear_timers();
        self.consecutive_health_failures = 0;
        self.no_peer_since_ms = None;
    }

    fn reset_to_waiting(&mut self)
        ensures
            final(self)@ == reset_to_waiting(old(self)@),
    {
        self.state = SupervisorState::WaitingForNetwork;
        self.clear_timers();
        self.consecutive_health_failures = 0;
        self.no_peer_since_ms = None;
    }

    fn begin_start(&mut self) -> (r: SupervisorAction)
        ensures
            (final(self)@, r@) == begin_start(old(self)@),
    {
        self.state = SupervisorState::Starting;
        self.clear_timers();
        self.action_start()
    }

    fn retry_due(&self, now_ms: u64) -> (r: bool)
        ensures
            r == retry_due(self@, now_ms),
    {
        match self.retry_at_ms {
            Some(retry_at) => now_ms >= retry_at,
            None => false,
        }
    }

    fn reconcile_desired_state(&mut self, now_ms: u64) -> (r: SupervisorAction)
        ensures
            (final(self)@, r@) == reconcile(old(self)@, now_ms),
    {
        if !self.desired {
            let must_stop = self.state != SupervisorState::Stopped;
            self.reset_to_stopped();
            return if must_stop {
                SupervisorAction::StopCore
            } else {
                SupervisorAction::Noop
            };
        }
        if !self.network_available {
            let must_stop = self.state == SupervisorState::Starting || self.state
                == SupervisorState::Running;
            self.reset_to_waiting();
            return if must_stop {
                SupervisorAction::StopCore
            } else {
                SupervisorAction::Noop
            };
        }
        match self.state {
            SupervisorState::Running | SupervisorState::Starting => SupervisorAction::Noop,
            SupervisorState::BackingOff | SupervisorState::Degraded => {
                if self.retry_due(now_ms) {
                    self.begin_start()
                } else {
                    SupervisorAction::Noop
                }
            },
            SupervisorState::Stopped | SupervisorState::WaitingForNetwork => self.begin_start(),
        }
    }

    fn backoff_delay(&self) -> (r: u64)
        ensures
            r == backoff_delay(self@.profile_id, self@.policy, self@.consecutive_start_failures),
    {
        let failures = self.consecutive_start_failures;
        let shift: u32 = if failures < 1 {
            0
        } else if failures - 1 > 31 {
            31
        } else {
            failures - 1
        };
        let multiplier: u64 = 1u64 << shift;
        let product = saturating_mul(self.policy.initial_backoff_ms, multiplier);
        let exponential = if product < self.policy.maximum_backoff_ms {
            product
        } else {
            self.policy.maximum_backoff_ms
        };
        let lower = saturating_mul(exponential, 80) / 100;
        let spread = exponential.saturating_sub(lower);
        let jitter = deterministic_jitter(self.profile_id.as_str(), failures)
            % spread.saturating_add(1);
        lower.saturating_add(jitter)
    }

    fn schedule_backoff(&mut self, now_ms: u64)
        ensures
            final(self)@ == schedule_backoff(old(self)@, now_ms),
    {
        self.consecutive_start_failures = self.consecutive_start_failures.saturating_add(1);
        let delay = self.backoff_delay();
        self.retry_at_ms = Some(add_duration(now_ms, delay));
        self.started_at_ms = None;
        self.next_health_probe_at_ms = None;
        let threshold = if self.policy.max_consecutive_failures_before_degraded < 1 {
            1
        } else {
            self.policy.max_consecutive_failures_before_degraded
        };
        self.state = if self.consecutive_start_failures >= threshold {
            SupervisorState::Degraded
        } else {
            SupervisorState::BackingOff
        };
    }

    fn on_failure(&mut self, now_ms: u64)
        ensures
            final(self)@ == on_failure(old(self)@, now_ms),
    {
        if !self.desired {
            self.reset_to_stopped();
            return;
        }
        if !self.network_available {
            self.reset_to_waiting();
            return;
        }
        self.schedule_backoff(now_ms);
    }

    /// Called once when the service process begins managing this profile.
    pub fn initialize(&mut self, now_ms: u64, network_available: bool) -> (r: SupervisorAction)
        ensures
            (final(self)@, r@) == reconcile(with_network(old(self)@, network_available), now_ms),
    {
        self.network_available = network_available;
        self.reconcile_desired_state(now_ms)
    }

    /// Explicit user intent always wins over automatic recovery.
    pub fn set_desired(&mut self, desired: bool, now_ms: u64) -> (r: SupervisorAction)
        ensures
            (final(self)@, r@) == reconcile(with_desired(old(self)@, desired), now_ms),
    {
        self.desired = desired;
        self.reconcile_desired_state(now_ms)
    }

    pub fn on_network_changed(&mut self, network_available: bool, now_ms: u64) -> (r:
        SupervisorAction)
        ensures
            (final(self)@, r@) == reconcile(with_network(old(self)@, network_available), now_ms),
    {
        self.network_available = network_available;
        self.reconcile_desired_state(now_ms)
    }

    /// Resume has a useful fast path: probe an existing child immediately, or
    /// start recovery right away if the core had stopped while suspended.
    pub fn on_system_resume(&mut self, now_ms: u64, network_available: bool) -> (r:
        SupervisorAction)
        ensures
            (final(self)@, r@) == on_system_resume(old(self)@, now_ms, network_available),
    {
        self.network_available = network_available;
        if self.state == SupervisorState::Running && self.desired && network_available {
            self.next_health_probe_at_ms = Some(now_ms);
            return SupervisorAction::ProbeHealth;
        }
        self.reconcile_desired_state(now_ms)
    }

    pub fn on_core_started(&mut self, now_ms: u64) -> (r: SupervisorAction)
        ensures
            (final(self)@, r@) == on_core_started(old(self)@, now_ms),
    {
        if !self.desired {
            self.reset_to_stopped();
            return SupervisorAction::StopCore;
        }
        if !self.network_available {
            self.reset_to_waiting();
            return SupervisorAction::StopCore;
        }
        self.state = SupervisorState::Running;
        self.retry_at_ms = None;
        self.started_at_ms = Some(now_ms);
        self.next_health_probe_at_ms = Some(add_duration(now_ms, self.policy.health_probe_interval_ms));
        self.consecutive_health_failures = 0;
        SupervisorAction::Noop
    }

    pub fn on_core_start_failed(&mut self, now_ms: u64)
        ensures
            final(self)@ == on_failure(old(self)@, now_ms),
    {
        self.on_failure(now_ms);
    }

    pub fn on_core_exited(&mut self, now_ms: u64)
        ensures
            final(self)@ == on_failure(old(self)@, now_ms),
    {
        self.on_failure(now_ms);
    }

    fn on_healthy_peer_observation(&mut self, connected_peer_count: Option<usize>, now_ms: u64) -> (r:
        SupervisorAction)
        ensures
            (final(self)@, r@) == on_healthy_peer_observation(
                old(self)@,
                connected_peer_count,
                now_ms,
            ),
    {
        let peer_count = match connected_peer_count {
            None => {
                return SupervisorAction::Noop;
            },
            Some(count) => count,
        };
        if peer_count > 0 {
            self.no_peer_since_ms = None;
            return SupervisorAction::Noop;
        }
        let since = match self.no_peer_since_ms {
            Some(t) => t,
            None => now_ms,
        };
        self.no_peer_since_ms = Some(since);
        let long_enough = now_ms.saturating_sub(since) >= self.policy.no_peer_restart_after_ms;
        let rate_limited = match self.last_no_peer_restart_ms {
            Some(last) => now_ms.saturating_sub(last) < self.policy.no_peer_restart_min_interval_ms,
            None => false,
        };
        if !self.network_available || !long_enough || rate_limited {
            return SupervisorAction::Noop;
        }
        self.last_no_peer_restart_ms = Some(now_ms);
        self.state = SupervisorState::Starting;
        self.clear_timers();
        self.action_restart()
    }

    pub fn on_health_sample(&mut self, sample: HealthSample, now_ms: u64) -> (r: SupervisorAction)
        ensures
            (final(self)@, r@) == on_health_sample(
                old(self)@,
                sample.spec_healthy(),
                sample.core_process_running,
                sample.connected_peer_count,
                now_ms,
            ),
    {
        if !self.desired || self.state != SupervisorState::Running {
            return SupervisorAction::Noop;
        }
        if sample.healthy() {
            self.consecutive_health_failures = 0;
            return self.on_healthy_peer_observation(sample.connected_peer_count, now_ms);
        }
        if !sample.core_process_running {
            self.on_failure(now_ms);
            return SupervisorAction::Noop;
        }
        self.consecutive_health_failures = self.consecutive_health_failures.saturating_add(1);
        let threshold = if self.policy.max_consecutive_health_failures < 1 {
            1
        } else {
            self.policy.max_consecutive_health_failures
        };
        if self.consecutive_health_failures < threshold {
            return SupervisorAction::Noop;
        }
        self.state = SupervisorState::Starting;
        self.clear_timers();
        self.action_restart()
    }

    /// Advances timers and returns at most one action for the service host.
    pub fn tick(&mut self, now_ms: u64) -> (r: SupervisorAction)
        ensures
            (final(self)@, r@) == tick(old(self)@, now_ms),
    {
        if !self.desired || !self.network_available {
            return SupervisorAction::Noop;
        }
        match self.state {
            SupervisorState::Stopped | SupervisorState::WaitingForNetwork => self.begin_start(),
            SupervisorState::BackingOff | SupervisorState::Degraded => {
                if self.retry_due(now_ms) {
                    self.begin_start()
                } else {
                    SupervisorAction::Noop
                }
            },
            SupervisorState::Starting => SupervisorAction::Noop,
            SupervisorState::Running => {
                let stable = match self.started_at_ms {
                    Some(started) => now_ms.saturating_sub(started)
                        >= self.policy.stable_connection_window_ms,
                    None => false,
                };
                if stable {
                    self.consecutive_start_failures = 0;
                }
                let probe_due = match self.next_health_probe_at_ms {
                    Some(next) => now_ms >= next,
                    None => false,
                };
                if probe_due {
                    self.next_health_probe_at_ms = Some(
                        add_duration(now_ms, self.policy.health_probe_interval_ms),
                    );
                    SupervisorAction::ProbeHealth
                } else {
                    SupervisorAction::Noop
                }
            },
        }
    }
}

} // verus!
