//! The durable RPC controller of the service host and the policy around the
//! EasyTier core process.
//!
//! The host process owns `easytier-core`; the desktop UI only changes
//! durable desired state through the local RPC protocol.  Everything that
//! touches files, processes or the clock is supplied by the host through
//! [`ServiceHost`] and [`CoreRuntime`]; the decisions are made here.

use vstd::prelude::*;

use crate::bandwidth::{bind_address, Iperf3BindTarget};
use crate::crypto::StateProtector;
use crate::ipc::{is_owner_sid, is_valid_owner_sid, RpcHandler};
use crate::profile::{
    AddressMode, EasyTierFlags, NetworkProfile, ProfileError, ProfileFault, ProfileModel,
    CORE_RPC_PORTAL, CORE_RPC_PORTAL_WHITELIST,
};
use crate::protocol::{
    ConnectedPeer, ConnectionIntent, PeerModel, ProfileSummary, ProfileUpsert, ProfileView,
    RpcCommand, RpcErrorCode, RpcRequest, RpcResponse, RpcResult, ServiceConnectionState,
    ServiceLogLine, ServiceStatus, StatusModel, PROTOCOL_VERSION,
};
use crate::state::{PersistedState, StateError, StateFault, StateModel};
use crate::supervisor::{
    ActionView, HealthSample, RetryPolicy, Supervisor, SupervisorAction, SupervisorState,
    SupervisorView,
};
use crate::profile::{is_usable_hostname, profile_fault};
use crate::text::{
    is_blank, ascii_lower, chars_contain, chars_lower, chars_vec, concat2, concat3, contains_text,
    debug_quoted, debug_text, decimal_string, decimal_text, owned, parse_u64, parse_u64_text,
    signed_decimal_string, signed_decimal_text, str_eq,
};

verus! {

broadcast use vstd::string::group_string_axioms;

pub const WINDOWS_SERVICE_NAME: &'static str = "VibeEasyTierService";

pub const CORE_PATH_ENV: &'static str = "VIBE_EASYTIER_CORE_PATH";

pub const IPERF3_PATH_ENV: &'static str = "VIBE_EASYTIER_IPERF3_PATH";

pub const OWNER_SID_ENV: &'static str = "VIBE_EASYTIER_OWNER_SID";

/// Stable, sanitized marker used when a staged core configuration fails
/// validation.  The desktop maps the small token vocabulary after it to
/// localized text; it never renders raw core output.
pub const CORE_CONFIG_VALIDATION_ERROR_PREFIX: &'static str =
    "easytier-core configuration validation failed: ";

// ---------------------------------------------------------------------------
// Core configuration check results
// ---------------------------------------------------------------------------

/// The broad category of a failed configuration check.
#[derive(Clone, Copy, Debug, PartialEq, Eq, Structural)]
pub enum CoreConfigFailureReason {
    NetworkIdentity,
    VirtualAddress,
    BootstrapPeer,
    CoreOption,
    TomlFormat,
    FileAccess,
    Unknown,
}

#[derive(Clone, Copy, Debug, PartialEq, Eq, Structural)]
pub enum CoreConfigCheckOutcome {
    TimedOut,
    Exited { code: Option<i32>, reason: CoreConfigFailureReason },
}

/// A deliberately small, non-sensitive result of `easytier-core
/// --check-config`.  Its text holds only a fixed token and, when available,
/// an exit code; it never keeps core output, which may contain the staged
/// configuration's path or network secret.
#[derive(Clone, Copy, Debug, PartialEq, Eq, Structural)]
pub struct CoreConfigCheckFailure(pub CoreConfigCheckOutcome);

pub open spec fn reason_token(reason: CoreConfigFailureReason) -> Seq<char> {
    match reason {
        CoreConfigFailureReason::NetworkIdentity => "network_identity"@,
        CoreConfigFailureReason::VirtualAddress => "virtual_address"@,
        CoreConfigFailureReason::BootstrapPeer => "bootstrap_peer"@,
        CoreConfigFailureReason::CoreOption => "core_option"@,
        CoreConfigFailureReason::TomlFormat => "toml_format"@,
        CoreConfigFailureReason::FileAccess => "file_access"@,
        CoreConfigFailureReason::Unknown => "unknown"@,
    }
}

impl CoreConfigFailureReason {
    pub fn token(self) -> (r: &'static str)
        ensures
            r@ == reason_token(self),
    {
        match self {
            CoreConfigFailureReason::NetworkIdentity => "network_identity",
            CoreConfigFailureReason::VirtualAddress => "virtual_address",
            CoreConfigFailureReason::BootstrapPeer => "bootstrap_peer",
            CoreConfigFailureReason::CoreOption => "core_option",
            CoreConfigFailureReason::TomlFormat => "toml_format",
            CoreConfigFailureReason::FileAccess => "file_access",
            CoreConfigFailureReason::Unknown => "unknown",
        }
    }
}

/// The characters of `bytes`, where every non-ASCII byte stands for an
/// undecodable character.  The classification only looks for ASCII terms,
/// which occur in this text exactly where they occur in the decoded output.
pub open spec fn ascii_projection(bytes: Seq<u8>) -> Seq<char> {
    bytes.map_values(|b: u8| if b < 128 { b as char } else { '\u{fffd}' })
}

pub open spec fn contains_any(value: Seq<char>, terms: Seq<Seq<char>>) -> bool {
    exists|k: int| 0 <= k < terms.len() && contains_text(value, #[trigger] terms[k])
}

pub open spec fn identity_terms() -> Seq<Seq<char>> {
    seq!["network_secret"@, "network secret"@, "network_name"@, "network name"@]
}

pub open spec fn address_terms() -> Seq<Seq<char>> {
    seq!["ipv4"@, "ipv6"@, "cidr"@, "prefix length"@]
}

pub open spec fn peer_terms() -> Seq<Seq<char>> {
    seq!["bootstrap"@, "peer"@, "peer uri"@, "uri"@]
}

pub open spec fn option_terms() -> Seq<Seq<char>> {
    seq![
        "[flags]"@,
        "flags."@,
        "mtu"@,
        "data_compress"@,
        "compression"@,
        "encryption_algorithm"@,
        "default_protocol"@,
        "quic"@,
        "kcp"@,
        "p2p"@,
        "upnp"@,
        "relay"@,
        "no_tun"@,
        "smoltcp"@,
        "accept_dns"@,
        "broadcast"@,
    ]
}

pub open spec fn file_terms() -> Seq<Seq<char>> {
    seq![
        "permission denied"@,
        "access is denied"@,
        "os error 5"@,
        "no such file or directory"@,
        "the system cannot find the file"@,
    ]
}

pub open spec fn toml_terms() -> Seq<Seq<char>> {
    seq!["toml"@, "parse"@, "deserialize"@, "invalid type"@, "expected "@, "missing field"@]
}

/// The category of a failed check, from the lower-cased core output.  The
/// first matching category in this order wins.
pub open spec fn classify_text(t: Seq<char>) -> CoreConfigFailureReason {
    if contains_any(t, identity_terms()) {
        CoreConfigFailureReason::NetworkIdentity
    } else if contains_any(t, address_terms()) {
        CoreConfigFailureReason::VirtualAddress
    } else if contains_any(t, peer_terms()) {
        CoreConfigFailureReason::BootstrapPeer
    } else if contains_any(t, option_terms()) {
        CoreConfigFailureReason::CoreOption
    } else if contains_any(t, file_terms()) {
        CoreConfigFailureReason::FileAccess
    } else if contains_any(t, toml_terms()) {
        CoreConfigFailureReason::TomlFormat
    } else {
        CoreConfigFailureReason::Unknown
    }
}

pub open spec fn classify_stderr(stderr: Seq<u8>) -> CoreConfigFailureReason {
    classify_text(ascii_lower(ascii_projection(stderr)))
}

fn contains_any_term(value: &[char], terms: &[&'static str]) -> (r: bool)
    ensures
        r == exists|k: int| 0 <= k < terms@.len() && contains_text(value@, #[trigger] terms@[k]@),
{
    let mut k: usize = 0;
    while k < terms.len()
        invariant
            k <= terms@.len(),
            forall|j: int| 0 <= j < k ==> !contains_text(value@, #[trigger] terms@[j]@),
        decreases terms@.len() - k,
    {
        let term = chars_vec(terms[k]);
        if chars_contain(value, term.as_slice()) {
            return true;
        }
        k = k + 1;
    }
    false
}

/// Whether one of `terms` occurs in `value`.
fn contains_any_of(value: &[char], terms: &[&'static str], spec_terms: Ghost<Seq<Seq<char>>>) -> (r: bool)
    requires
        terms@.len() == spec_terms@.len(),
        forall|k: int| 0 <= k < terms@.len() ==> #[trigger] terms@[k]@ == spec_terms@[k],
    ensures
        r == contains_any(value@, spec_terms@),
{
    let r = contains_any_term(value, terms);
    proof {
        if r {
            let k = choose|k: int| 0 <= k < terms@.len() && contains_text(value@, #[trigger] terms@[k]@);
            assert(contains_text(value@, spec_terms@[k]));
        } else {
            assert forall|k: int| 0 <= k < spec_terms@.len() implies !contains_text(value@, #[trigger] spec_terms@[k]) by {
                assert(terms@[k]@ == spec_terms@[k]);
            }
        }
    }
    r
}

/// At most this much of a configuration check's error output is kept.
pub const MAX_CORE_CONFIG_STDERR_BYTES: usize = 16384;

/// Appends as much of `chunk`, a piece of a configuration check's error
/// output, as fits within [`MAX_CORE_CONFIG_STDERR_BYTES`]; the rest is
/// dropped, so a noisy core cannot make the service hold unbounded output.
pub fn append_capped(captured: &mut Vec<u8>, chunk: &[u8])
    ensures
        old(captured)@.len() >= MAX_CORE_CONFIG_STDERR_BYTES ==> final(captured)@ == old(captured)@,
        old(captured)@.len() < MAX_CORE_CONFIG_STDERR_BYTES ==> final(captured)@ == old(captured)@
            + chunk@.take(
            if chunk@.len() <= MAX_CORE_CONFIG_STDERR_BYTES - old(captured)@.len() {
                chunk@.len() as int
            } else {
                MAX_CORE_CONFIG_STDERR_BYTES - old(captured)@.len()
            },
        ),
{
    if captured.len() >= MAX_CORE_CONFIG_STDERR_BYTES {
        return;
    }
    let remaining = MAX_CORE_CONFIG_STDERR_BYTES - captured.len();
    let take = if chunk.len() <= remaining {
        chunk.len()
    } else {
        remaining
    };
    let ghost start = captured@;
    let mut i: usize = 0;
    while i < take
        invariant
            take <= chunk@.len(),
            i <= take,
            captured@ == start + chunk@.take(i as int),
        decreases take - i,
    {
        captured.push(chunk[i]);
        i = i + 1;
        assert(chunk@.take(i as int) =~= chunk@.take(i - 1).push(chunk@[i - 1]));
    }
}

/// Classifies core output without ever returning any of its text.  Core
/// output can hold the staged configuration's location and literal values,
/// including the network secret, so only a fixed set of categories may
/// cross the service IPC boundary.
pub fn classify_core_config_stderr(stderr: &[u8]) -> (r: CoreConfigFailureReason)
    ensures
        r == classify_stderr(stderr@),
{
    let mut projected: Vec<char> = Vec::new();
    let mut i: usize = 0;
    while i < stderr.len()
        invariant
            i <= stderr@.len(),
            projected@ =~= ascii_projection(stderr@.take(i as int)),
        decreases stderr@.len() - i,
    {
        let b = stderr[i];
        let c = if b < 128 { b as char } else { '\u{fffd}' };
        projected.push(c);
        i = i + 1;
    }
    assert(stderr@.take(i as int) =~= stderr@);
    let t = chars_lower(projected.as_slice());
    let identity: [&'static str; 4] = ["network_secret", "network secret", "network_name", "network name"];
    assert(identity@ =~= seq!["network_secret", "network secret", "network_name", "network name"]);
    if contains_any_of(t.as_slice(), &identity, Ghost(identity_terms())) {
        return CoreConfigFailureReason::NetworkIdentity;
    }
    let address: [&'static str; 4] = ["ipv4", "ipv6", "cidr", "prefix length"];
    if contains_any_of(t.as_slice(), &address, Ghost(address_terms())) {
        return CoreConfigFailureReason::VirtualAddress;
    }
    let peer: [&'static str; 4] = ["bootstrap", "peer", "peer uri", "uri"];
    if contains_any_of(t.as_slice(), &peer, Ghost(peer_terms())) {
        return CoreConfigFailureReason::BootstrapPeer;
    }
    let option: [&'static str; 16] = [
        "[flags]",
        "flags.",
        "mtu",
        "data_compress",
        "compression",
        "encryption_algorithm",
        "default_protocol",
        "quic",
        "kcp",
        "p2p",
        "upnp",
        "relay",
        "no_tun",
        "smoltcp",
        "accept_dns",
        "broadcast",
    ];
    if contains_any_of(t.as_slice(), &option, Ghost(option_terms())) {
        return CoreConfigFailureReason::CoreOption;
    }
    let file: [&'static str; 5] = [
        "permission denied",
        "access is denied",
        "os error 5",
        "no such file or directory",
        "the system cannot find the file",
    ];
    if contains_any_of(t.as_slice(), &file, Ghost(file_terms())) {
        return CoreConfigFailureReason::FileAccess;
    }
    let toml: [&'static str; 6] = [
        "toml",
        "parse",
        "deserialize",
        "invalid type",
        "expected ",
        "missing field",
    ];
    if contains_any_of(t.as_slice(), &toml, Ghost(toml_terms())) {
        return CoreConfigFailureReason::TomlFormat;
    }
    CoreConfigFailureReason::Unknown
}


pub open spec fn failure_text(f: CoreConfigCheckFailure) -> Seq<char> {
    match f.0 {
        CoreConfigCheckOutcome::TimedOut => "validation timed out"@,
        CoreConfigCheckOutcome::Exited { code, reason } => match code {
            Some(c) => "exit code "@ + signed_decimal_text(c as int) + "; reason="@ + reason_token(
                reason,
            ),
            None => "terminated by the operating system; reason="@ + reason_token(reason),
        },
    }
}

impl CoreConfigCheckFailure {
    pub fn timed_out() -> (r: Self)
        ensures
            r.0 == CoreConfigCheckOutcome::TimedOut,
    {
        CoreConfigCheckFailure(CoreConfigCheckOutcome::TimedOut)
    }

    /// The result of a check that exited unsuccessfully with `code` (`None`
    /// when the operating system terminated it) and wrote `stderr`.
    pub fn exited(code: Option<i32>, stderr: &[u8]) -> (r: Self)
        ensures
            r.0 == (CoreConfigCheckOutcome::Exited { code, reason: classify_stderr(stderr@) }),
    {
        CoreConfigCheckFailure(
            CoreConfigCheckOutcome::Exited { code, reason: classify_core_config_stderr(stderr) },
        )
    }

    /// The text of this result, the only form in which it leaves the service.
    pub fn message(&self) -> (r: String)
        ensures
            r@ == failure_text(*self),
    {
        match self.0 {
            CoreConfigCheckOutcome::TimedOut => owned("validation timed out"),
            CoreConfigCheckOutcome::Exited { code, reason } => match code {
                Some(c) => {
                    let mut r = concat3(
                        "exit code ",
                        signed_decimal_string(c as i64).as_str(),
                        "; reason=",
                    );
                    crate::text::append_str(&mut r, reason.token());
                    r
                },
                None => concat2("terminated by the operating system; reason=", reason.token()),
            },
        }
    }
}

// ---------------------------------------------------------------------------
// Errors
// ---------------------------------------------------------------------------

#[derive(Debug)]
pub enum ServiceError {
    InvalidArguments(String),
    State(StateError),
    Profile(ProfileError),
    UnsupportedPlatform,
    /// An operating-system failure around the core process, by its message.
    CoreProcess(String),
    /// The missing core executable, by its displayed path.
    MissingCore(String),
    CoreConfigRejected(CoreConfigCheckFailure),
    NoActiveProfile,
    ProfileNotFound(String),
    Synchronization,
}

/// The mathematical form of a [`ServiceError`].
pub ghost enum ServiceFault {
    InvalidArguments(Seq<char>),
    State(StateFault),
    Profile(ProfileFault),
    UnsupportedPlatform,
    CoreProcess(Seq<char>),
    MissingCore(Seq<char>),
    CoreConfigRejected(CoreConfigCheckFailure),
    NoActiveProfile,
    ProfileNotFound(Seq<char>),
    Synchronization,
}

impl View for ServiceError {
    type V = ServiceFault;

    open spec fn view(&self) -> ServiceFault {
        match self {
            ServiceError::InvalidArguments(d) => ServiceFault::InvalidArguments(d@),
            ServiceError::State(e) => ServiceFault::State(e@),
            ServiceError::Profile(e) => ServiceFault::Profile(e@),
            ServiceError::UnsupportedPlatform => ServiceFault::UnsupportedPlatform,
            ServiceError::CoreProcess(d) => ServiceFault::CoreProcess(d@),
            ServiceError::MissingCore(d) => ServiceFault::MissingCore(d@),
            ServiceError::CoreConfigRejected(f) => ServiceFault::CoreConfigRejected(*f),
            ServiceError::NoActiveProfile => ServiceFault::NoActiveProfile,
            ServiceError::ProfileNotFound(id) => ServiceFault::ProfileNotFound(id@),
            ServiceError::Synchronization => ServiceFault::Synchronization,
        }
    }
}

pub open spec fn service_fault_text(f: ServiceFault) -> Seq<char> {
    match f {
        ServiceFault::InvalidArguments(d) => "invalid service arguments: "@ + d,
        ServiceFault::State(e) => "state operation failed: "@ + crate::state::state_fault_text(e),
        ServiceFault::Profile(e) => "invalid profile: "@ + crate::profile::profile_fault_text(e),
        ServiceFault::UnsupportedPlatform => "Windows service mode is unavailable on this platform"@,
        ServiceFault::CoreProcess(d) => "core process operation failed: "@ + d,
        ServiceFault::MissingCore(d) => "core executable does not exist: "@ + d,
        ServiceFault::CoreConfigRejected(c) => CORE_CONFIG_VALIDATION_ERROR_PREFIX@ + failure_text(c),
        ServiceFault::NoActiveProfile => "no active profile is configured"@,
        ServiceFault::ProfileNotFound(id) => "profile "@ + debug_text(id) + " does not exist"@,
        ServiceFault::Synchronization => "service state lock was poisoned"@,
    }
}

impl ServiceError {
    /// The human-readable message of this error.
    pub fn message(&self) -> (r: String)
        ensures
            r@ == service_fault_text(self@),
    {
        match self {
            ServiceError::InvalidArguments(d) => concat2("invalid service arguments: ", d.as_str()),
            ServiceError::State(e) => concat2("state operation failed: ", e.message().as_str()),
            ServiceError::Profile(e) => concat2("invalid profile: ", e.message().as_str()),
            ServiceError::UnsupportedPlatform => owned(
                "Windows service mode is unavailable on this platform",
            ),
            ServiceError::CoreProcess(d) => concat2("core process operation failed: ", d.as_str()),
            ServiceError::MissingCore(d) => concat2("core executable does not exist: ", d.as_str()),
            ServiceError::CoreConfigRejected(c) => concat2(
                CORE_CONFIG_VALIDATION_ERROR_PREFIX,
                c.message().as_str(),
            ),
            ServiceError::NoActiveProfile => owned("no active profile is configured"),
            ServiceError::ProfileNotFound(id) => concat3(
                "profile ",
                debug_quoted(id.as_str()).as_str(),
                " does not exist",
            ),
            ServiceError::Synchronization => owned("service state lock was poisoned"),
        }
    }
}

/// The RPC error code for a service error.
pub open spec fn error_code(f: ServiceFault) -> RpcErrorCode {
    match f {
        ServiceFault::ProfileNotFound(_) | ServiceFault::NoActiveProfile => RpcErrorCode::NotFound,
        ServiceFault::Profile(_) | ServiceFault::State(StateFault::Profile(_))
        | ServiceFault::CoreConfigRejected(_) => RpcErrorCode::InvalidProfile,
        ServiceFault::State(StateFault::InvalidState(_)) => RpcErrorCode::Conflict,
        ServiceFault::InvalidArguments(_) => RpcErrorCode::InvalidRequest,
        ServiceFault::UnsupportedPlatform | ServiceFault::MissingCore(_) => RpcErrorCode::Unavailable,
        ServiceFault::State(_) | ServiceFault::CoreProcess(_) | ServiceFault::Synchronization => RpcErrorCode::Internal,
    }
}

pub fn rpc_error_code(error: &ServiceError) -> (r: RpcErrorCode)
    ensures
        r == error_code(error@),
{
    match error {
        ServiceError::ProfileNotFound(_) | ServiceError::NoActiveProfile => RpcErrorCode::NotFound,
        ServiceError::Profile(_) | ServiceError::CoreConfigRejected(_) => RpcErrorCode::InvalidProfile,
        ServiceError::State(StateError::Profile(_)) => RpcErrorCode::InvalidProfile,
        ServiceError::State(StateError::InvalidState(_)) => RpcErrorCode::Conflict,
        ServiceError::InvalidArguments(_) => RpcErrorCode::InvalidRequest,
        ServiceError::UnsupportedPlatform | ServiceError::MissingCore(_) => RpcErrorCode::Unavailable,
        ServiceError::State(_) | ServiceError::CoreProcess(_) | ServiceError::Synchronization => RpcErrorCode::Internal,
    }
}

// ---------------------------------------------------------------------------
// Host options
// ---------------------------------------------------------------------------

#[derive(Clone, Copy, Debug, PartialEq, Eq, Structural)]
pub enum HostMode {
    Console,
    Service,
}

/// How the host process was asked to run.  Paths are kept as the text the
/// host was given.
#[derive(Clone, Debug)]
pub struct ServiceOptions {
    pub mode: HostMode,
    pub state_root: Option<String>,
    pub core_executable: Option<String>,
    pub iperf3_executable: Option<String>,
    /// The Windows SID allowed to issue mutating local-pipe requests.
    pub owner_sid: Option<String>,
    pub poll_interval_ms: u64,
}

/// The mathematical form of [`ServiceOptions`].
pub ghost struct OptionsModel {
    pub mode: HostMode,
    pub state_root: Option<Seq<char>>,
    pub core_executable: Option<Seq<char>>,
    pub iperf3_executable: Option<Seq<char>>,
    pub owner_sid: Option<Seq<char>>,
    pub poll_interval_ms: u64,
}

impl View for ServiceOptions {
    type V = OptionsModel;

    open spec fn view(&self) -> OptionsModel {
        OptionsModel {
            mode: self.mode,
            state_root: crate::protocol::opt_text(self.state_root),
            core_executable: crate::protocol::opt_text(self.core_executable),
            iperf3_executable: crate::protocol::opt_text(self.iperf3_executable),
            owner_sid: crate::protocol::opt_text(self.owner_sid),
            poll_interval_ms: self.poll_interval_ms,
        }
    }
}

pub open spec fn default_options(env_owner_sid: Option<Seq<char>>) -> OptionsModel {
    OptionsModel {
        mode: HostMode::Console,
        state_root: None,
        core_executable: None,
        iperf3_executable: None,
        owner_sid: env_owner_sid,
        poll_interval_ms: 1000,
    }
}

pub open spec fn usage_text() -> Seq<char> {
    "usage: vibe-easytier-service (--service|--console) [--state-root PATH] [--core PATH] [--iperf3 PATH] [--owner-sid SID] [--poll-ms N]"@
}

/// What the remaining arguments from `i` on make of `acc`; an error is the
/// text of the invalid-arguments message.
pub open spec fn parse_from(args: Seq<Seq<char>>, i: int, acc: OptionsModel, mode_set: bool) -> Result<
    OptionsModel,
    Seq<char>,
>
    decreases args.len() - i,
{
    if i < 0 || i >= args.len() {
        if acc.owner_sid is Some && !is_owner_sid(acc.owner_sid->0) {
            Err("VIBE_EASYTIER_OWNER_SID is not a canonical Windows SID"@)
        } else {
            Ok(acc)
        }
    } else {
        let a = args[i];
        let has_value = i + 1 < args.len();
        if a == "--console"@ || a == "--service"@ {
            let mode = if a == "--console"@ {
                HostMode::Console
            } else {
                HostMode::Service
            };
            if mode_set && acc.mode != mode {
                Err("choose either --service or --console, not both"@)
            } else {
                parse_from(args, i + 1, OptionsModel { mode, ..acc }, true)
            }
        } else if a == "--state-root"@ {
            if !has_value {
                Err("--state-root requires a path"@)
            } else {
                parse_from(args, i + 2, OptionsModel { state_root: Some(args[i + 1]), ..acc }, mode_set)
            }
        } else if a == "--core"@ {
            if !has_value {
                Err("--core requires an executable path"@)
            } else {
                parse_from(args, i + 2, OptionsModel { core_executable: Some(args[i + 1]), ..acc }, mode_set)
            }
        } else if a == "--iperf3"@ {
            if !has_value {
                Err("--iperf3 requires an executable path"@)
            } else {
                parse_from(args, i + 2, OptionsModel { iperf3_executable: Some(args[i + 1]), ..acc }, mode_set)
            }
        } else if a == "--owner-sid"@ {
            if !has_value {
                Err("--owner-sid requires a Windows SID"@)
            } else if !is_owner_sid(args[i + 1]) {
                Err("--owner-sid is not a canonical Windows SID"@)
            } else {
                parse_from(args, i + 2, OptionsModel { owner_sid: Some(args[i + 1]), ..acc }, mode_set)
            }
        } else if a == "--poll-ms"@ {
            if !has_value {
                Err("--poll-ms requires a positive integer"@)
            } else if parse_u64_text(args[i + 1]) is None {
                Err("--poll-ms must be a positive integer"@)
            } else if parse_u64_text(args[i + 1])->0 == 0 {
                Err("--poll-ms must be greater than zero"@)
            } else {
                parse_from(
                    args,
                    i + 2,
                    OptionsModel { poll_interval_ms: parse_u64_text(args[i + 1])->0, ..acc },
                    mode_set,
                )
            }
        } else if a == "--help"@ || a == "-h"@ {
            Err(usage_text())
        } else {
            Err("unrecognized argument "@ + debug_text(a) + "; "@ + usage_text())
        }
    }
}

/// Parsing more arguments after a prefix that parses picks up where the
/// prefix ended: with the prefix's options, and some mode flag.
proof fn lemma_parse_continues_after_prefix(
    args: Seq<Seq<char>>,
    tail: Seq<Seq<char>>,
    i: int,
    acc: OptionsModel,
    mode_set: bool,
) -> (ms: bool)
    requires
        0 <= i <= args.len(),
        parse_from(args, i, acc, mode_set) is Ok,
    ensures
        parse_from(args + tail, i, acc, mode_set) == parse_from(
            args + tail,
            args.len() as int,
            parse_from(args, i, acc, mode_set)->Ok_0,
            ms,
        ),
        parse_from(args, i, acc, mode_set)->Ok_0.owner_sid is Some ==> is_owner_sid(
            parse_from(args, i, acc, mode_set)->Ok_0.owner_sid->0,
        ),
    decreases args.len() - i,
{
    let at = args + tail;
    if i >= args.len() {
        mode_set
    } else {
        let a = args[i];
        assert(at[i] == a);
        if i + 1 < args.len() {
            assert(at[i + 1] == args[i + 1]);
        }
        if a == "--console"@ || a == "--service"@ {
            let mode = if a == "--console"@ {
                HostMode::Console
            } else {
                HostMode::Service
            };
            lemma_parse_continues_after_prefix(args, tail, i + 1, OptionsModel { mode, ..acc }, true)
        } else if a == "--state-root"@ {
            lemma_parse_continues_after_prefix(
                args,
                tail,
                i + 2,
                OptionsModel { state_root: Some(args[i + 1]), ..acc },
                mode_set,
            )
        } else if a == "--core"@ {
            lemma_parse_continues_after_prefix(
                args,
                tail,
                i + 2,
                OptionsModel { core_executable: Some(args[i + 1]), ..acc },
                mode_set,
            )
        } else if a == "--iperf3"@ {
            lemma_parse_continues_after_prefix(
                args,
                tail,
                i + 2,
                OptionsModel { iperf3_executable: Some(args[i + 1]), ..acc },
                mode_set,
            )
        } else if a == "--owner-sid"@ {
            lemma_parse_continues_after_prefix(
                args,
                tail,
                i + 2,
                OptionsModel { owner_sid: Some(args[i + 1]), ..acc },
                mode_set,
            )
        } else {
            lemma_parse_continues_after_prefix(
                args,
                tail,
                i + 2,
                OptionsModel { poll_interval_ms: parse_u64_text(args[i + 1])->0, ..acc },
                mode_set,
            )
        }
    }
}

/// The poll interval is the one asked for: arguments that parse, followed
/// by `--poll-ms N` with a positive decimal `N`, parse to the same options
/// with a poll interval of `N` milliseconds.
pub proof fn law_poll_option_sets_interval(
    args: Seq<Seq<char>>,
    value: Seq<char>,
    env_owner_sid: Option<Seq<char>>,
)
    requires
        parse_from(args, 0, default_options(env_owner_sid), false) is Ok,
        parse_u64_text(value) matches Some(n) && n > 0,
    ensures
        parse_from(args + seq!["--poll-ms"@, value], 0, default_options(env_owner_sid), false) == Ok::<
            OptionsModel,
            Seq<char>,
        >(
            OptionsModel {
                poll_interval_ms: parse_u64_text(value)->0,
                ..parse_from(args, 0, default_options(env_owner_sid), false)->Ok_0
            },
        ),
{
    let tail = seq!["--poll-ms"@, value];
    let at = args + tail;
    let m = parse_from(args, 0, default_options(env_owner_sid), false)->Ok_0;
    let ms = lemma_parse_continues_after_prefix(args, tail, 0, default_options(env_owner_sid), false);
    reveal_strlit("--poll-ms");
    reveal_strlit("--console");
    reveal_strlit("--service");
    reveal_strlit("--state-root");
    reveal_strlit("--core");
    reveal_strlit("--iperf3");
    reveal_strlit("--owner-sid");
    assert("--poll-ms"@.len() == 9);
    assert("--console"@.len() == 9);
    assert("--service"@.len() == 9);
    assert("--state-root"@.len() == 12);
    assert("--core"@.len() == 6);
    assert("--iperf3"@.len() == 8);
    assert("--owner-sid"@.len() == 11);
    assert("--poll-ms"@[2] != "--console"@[2]);
    assert("--poll-ms"@[2] != "--service"@[2]);
    assert(at[args.len() as int] == "--poll-ms"@);
    assert(at[args.len() + 1int] == value);
    assert(at.len() == args.len() + 2);
    let m2 = OptionsModel { poll_interval_ms: parse_u64_text(value)->0, ..m };
    assert(parse_from(at, args.len() + 2int, m2, ms) == Ok::<OptionsModel, Seq<char>>(m2));
}

fn invalid_arguments(message: &str) -> (r: ServiceError)
    ensures
        r@ == ServiceFault::InvalidArguments(message@),
{
    ServiceError::InvalidArguments(owned(message))
}

impl ServiceOptions {
    /// The options when nothing was asked for.
    pub fn defaults(env_owner_sid: Option<String>) -> (r: Self)
        ensures
            r@ == default_options(crate::protocol::opt_text(env_owner_sid)),
    {
        ServiceOptions {
            mode: HostMode::Console,
            state_root: None,
            core_executable: None,
            iperf3_executable: None,
            owner_sid: env_owner_sid,
            poll_interval_ms: 1000,
        }
    }

    pub fn usage() -> (r: &'static str)
        ensures
            r@ == usage_text(),
    {
        "usage: vibe-easytier-service (--service|--console) [--state-root PATH] [--core PATH] [--iperf3 PATH] [--owner-sid SID] [--poll-ms N]"
    }

    /// Parses the arguments after the executable name.  `env_owner_sid` is
    /// the value of the owner SID environment variable, if set.  The
    /// installer uses `--service`; `--console` serves foreground
    /// diagnostics.
    pub fn parse(arguments: Vec<String>, env_owner_sid: Option<String>) -> (r: Result<Self, ServiceError>)
        ensures
            match parse_from(
                crate::profile::texts(arguments@),
                0,
                default_options(crate::protocol::opt_text(env_owner_sid)),
                false,
            ) {
                Ok(m) => (r matches Ok(o) && o@ == m),
                Err(msg) => (r matches Err(e) && e@ == ServiceFault::InvalidArguments(msg)),
            },
    {
        let ghost args = crate::profile::texts(arguments@);
        let mut options = Self::defaults(env_owner_sid);
        let ghost start = options@;
        let mut mode_set = false;
        let mut i: usize = 0;
        while i < arguments.len()
            invariant
                i <= arguments@.len(),
                args == crate::profile::texts(arguments@),
                start == default_options(crate::protocol::opt_text(env_owner_sid)),
                parse_from(args, 0, start, false) == parse_from(args, i as int, options@, mode_set),
            decreases arguments@.len() - i,
        {
            let a = arguments[i].as_str();
            let has_value = i + 1 < arguments.len();
            assert(args[i as int] == a@);
            assert(args.len() == arguments@.len());
            if str_eq(a, "--console") || str_eq(a, "--service") {
                let mode = if str_eq(a, "--console") {
                    HostMode::Console
                } else {
                    HostMode::Service
                };
                if mode_set && options.mode != mode {
                    return Err(invalid_arguments("choose either --service or --console, not both"));
                }
                options.mode = mode;
                mode_set = true;
                i = i + 1;
            } else if str_eq(a, "--state-root") || str_eq(a, "--core") || str_eq(a, "--iperf3") {
                if !has_value {
                    if str_eq(a, "--state-root") {
                        return Err(invalid_arguments("--state-root requires a path"));
                    } else if str_eq(a, "--core") {
                        return Err(invalid_arguments("--core requires an executable path"));
                    } else {
                        return Err(invalid_arguments("--iperf3 requires an executable path"));
                    }
                }
                assert(args[i + 1] == arguments@[i + 1]@);
                let value = arguments[i + 1].clone();
                if str_eq(a, "--state-root") {
                    options.state_root = Some(value);
                } else if str_eq(a, "--core") {
                    options.core_executable = Some(value);
                } else {
                    options.iperf3_executable = Some(value);
                }
                i = i + 2;
            } else if str_eq(a, "--owner-sid") {
                if !has_value {
                    return Err(invalid_arguments("--owner-sid requires a Windows SID"));
                }
                assert(args[i + 1] == arguments@[i + 1]@);
                if !is_valid_owner_sid(arguments[i + 1].as_str()) {
                    return Err(invalid_arguments("--owner-sid is not a canonical Windows SID"));
                }
                options.owner_sid = Some(arguments[i + 1].clone());
                i = i + 2;
            } else if str_eq(a, "--poll-ms") {
                if !has_value {
                    return Err(invalid_arguments("--poll-ms requires a positive integer"));
                }
                assert(args[i + 1] == arguments@[i + 1]@);
                let value = chars_vec(arguments[i + 1].as_str());
                let milliseconds = match parse_u64(value.as_slice()) {
                    Some(v) => v,
                    None => {
                        return Err(invalid_arguments("--poll-ms must be a positive integer"));
                    },
                };
                if milliseconds == 0 {
                    return Err(invalid_arguments("--poll-ms must be greater than zero"));
                }
                options.poll_interval_ms = milliseconds;
                i = i + 2;
            } else if str_eq(a, "--help") || str_eq(a, "-h") {
                return Err(invalid_arguments(Self::usage()));
            } else {
                let mut message = concat3("unrecognized argument ", debug_quoted(a).as_str(), "; ");
                crate::text::append_str(&mut message, Self::usage());
                return Err(ServiceError::InvalidArguments(message));
            }
        }
        match &options.owner_sid {
            Some(sid) => {
                if !is_valid_owner_sid(sid.as_str()) {
                    return Err(invalid_arguments("VIBE_EASYTIER_OWNER_SID is not a canonical Windows SID"));
                }
            },
            None => {},
        }
        Ok(options)
    }
}

pub open spec fn mode_changed(o: OptionsModel, mode: HostMode) -> OptionsModel {
    OptionsModel { mode, ..o }
}

/// Records the requested host mode; asking for both modes is an error.
pub fn set_mode(options: &mut ServiceOptions, mode_set: &mut bool, mode: HostMode) -> (r: Result<(), ServiceError>)
    ensures
        *old(mode_set) && old(options).mode != mode ==> (r matches Err(e) && e@
            == ServiceFault::InvalidArguments("choose either --service or --console, not both"@))
            && final(options)@ == old(options)@ && *final(mode_set) == *old(mode_set),
        !(*old(mode_set) && old(options).mode != mode) ==> r is Ok && final(options)@
            == mode_changed(old(options)@, mode) && *final(mode_set),
{
    if *mode_set && options.mode != mode {
        return Err(invalid_arguments("choose either --service or --console, not both"));
    }
    options.mode = mode;
    *mode_set = true;
    Ok(())
}

/// The command line that starts the core: the configuration file and a
/// local-only management portal, with file logging.  The network secret is
/// never an argument.
pub open spec fn core_command_line(config_path: Seq<char>, log_dir: Seq<char>) -> Seq<Seq<char>> {
    seq![
        "-c"@,
        config_path,
        "--rpc-portal"@,
        CORE_RPC_PORTAL@,
        "--rpc-portal-whitelist"@,
        CORE_RPC_PORTAL_WHITELIST@,
        "--file-log-dir"@,
        log_dir,
        "--file-log-level"@,
        "info"@,
        "--file-log-size"@,
        "5"@,
        "--file-log-count"@,
        "5"@,
    ]
}

pub fn core_command_arguments(config_path: &str, log_dir: &str) -> (r: Vec<String>)
    ensures
        crate::profile::texts(r@) == core_command_line(config_path@, log_dir@),
{
    let r = vec![
        owned("-c"),
        owned(config_path),
        owned("--rpc-portal"),
        owned(CORE_RPC_PORTAL),
        owned("--rpc-portal-whitelist"),
        owned(CORE_RPC_PORTAL_WHITELIST),
        owned("--file-log-dir"),
        owned(log_dir),
        owned("--file-log-level"),
        owned("info"),
        owned("--file-log-size"),
        owned("5"),
        owned("--file-log-count"),
        owned("5"),
    ];
    assert(crate::profile::texts(r@) =~= core_command_line(config_path@, log_dir@));
    r
}

/// The command line that checks a staged configuration.
pub fn core_config_check_arguments(config_path: &str) -> (r: Vec<String>)
    ensures
        crate::profile::texts(r@) == seq!["-c"@, config_path@, "--check-config"@],
{
    let r = vec![owned("-c"), owned(config_path), owned("--check-config")];
    assert(crate::profile::texts(r@) =~= seq!["-c"@, config_path@, "--check-config"@]);
    r
}

/// A gap between two loop passes of more than three poll intervals means the
/// machine slept in between.
pub open spec fn resume_gap(elapsed_ms: u64, poll_interval_ms: u64) -> bool {
    elapsed_ms > crate::supervisor::sat_mul(poll_interval_ms, 3)
}

pub fn is_resume_gap(elapsed_ms: u64, poll_interval_ms: u64) -> (r: bool)
    ensures
        r == resume_gap(elapsed_ms, poll_interval_ms),
{
    let limit = match poll_interval_ms.checked_mul(3) {
        Some(v) => v,
        None => u64::MAX,
    };
    elapsed_ms > limit
}

/// What the service reports for a supervisor state and the last peer count.
/// A running core is only connected once a remote peer was observed.
pub open spec fn connection_state_of(state: SupervisorState, peer_count: Option<usize>) -> ServiceConnectionState {
    match state {
        SupervisorState::Stopped => ServiceConnectionState::Disconnected,
        SupervisorState::WaitingForNetwork | SupervisorState::Starting => ServiceConnectionState::Connecting,
        SupervisorState::Running => if peer_count is Some && peer_count->0 > 0 {
            ServiceConnectionState::Connected
        } else {
            ServiceConnectionState::Connecting
        },
        SupervisorState::BackingOff => ServiceConnectionState::Recovering,
        SupervisorState::Degraded => ServiceConnectionState::Failed,
    }
}

/// The connection state the desktop sees names the supervisor's recovery
/// exactly: failed exactly while degraded, recovering exactly while backing
/// off, disconnected exactly while stopped, and connected only while running
/// with a known, positive number of peers.
pub proof fn law_connection_state_names_recovery(state: SupervisorState, peer_count: Option<usize>)
    ensures
        (connection_state_of(state, peer_count) == ServiceConnectionState::Failed) <==> (state
            == SupervisorState::Degraded),
        (connection_state_of(state, peer_count) == ServiceConnectionState::Recovering) <==> (state
            == SupervisorState::BackingOff),
        (connection_state_of(state, peer_count) == ServiceConnectionState::Disconnected) <==> (state
            == SupervisorState::Stopped),
        (connection_state_of(state, peer_count) == ServiceConnectionState::Connected) <==> (state
            == SupervisorState::Running && (peer_count is Some && peer_count->0 > 0)),
{
}

pub fn connection_state(supervisor: &Supervisor, peer_count: Option<usize>) -> (r: ServiceConnectionState)
    ensures
        r == connection_state_of(supervisor@.state, peer_count),
{
    match supervisor.state() {
        SupervisorState::Stopped => ServiceConnectionState::Disconnected,
        SupervisorState::WaitingForNetwork | SupervisorState::Starting => ServiceConnectionState::Connecting,
        SupervisorState::Running => match peer_count {
            Some(count) => if count > 0 {
                ServiceConnectionState::Connected
            } else {
                ServiceConnectionState::Connecting
            },
            None => ServiceConnectionState::Connecting,
        },
        SupervisorState::BackingOff => ServiceConnectionState::Recovering,
        SupervisorState::Degraded => ServiceConnectionState::Failed,
    }
}


// ---------------------------------------------------------------------------
// The controller
// ---------------------------------------------------------------------------

/// What a configuration check of the bundled core reported.
pub enum CoreCheckRun {
    Passed,
    TimedOut,
    /// Exited unsuccessfully; `code` is `None` when the operating system
    /// terminated it.
    Exited { code: Option<i32>, stderr: Vec<u8> },
    /// The core executable, by its displayed path, does not exist.
    MissingCore(String),
    /// Staging the configuration failed.
    StagingFailed(StateError),
    /// Running the check failed, with the operating system's message.
    Failed(String),
}

/// The mathematical form of a [`CoreCheckRun`].
pub ghost enum CoreCheckView {
    Passed,
    TimedOut,
    Exited { code: Option<i32>, stderr: Seq<u8> },
    MissingCore(Seq<char>),
    StagingFailed(StateFault),
    Failed(Seq<char>),
}

impl View for CoreCheckRun {
    type V = CoreCheckView;

    open spec fn view(&self) -> CoreCheckView {
        match self {
            CoreCheckRun::Passed => CoreCheckView::Passed,
            CoreCheckRun::TimedOut => CoreCheckView::TimedOut,
            CoreCheckRun::Exited { code, stderr } => CoreCheckView::Exited { code: *code, stderr: stderr@ },
            CoreCheckRun::MissingCore(path) => CoreCheckView::MissingCore(path@),
            CoreCheckRun::StagingFailed(e) => CoreCheckView::StagingFailed(e@),
            CoreCheckRun::Failed(message) => CoreCheckView::Failed(message@),
        }
    }
}

/// Why a configuration check refuses a profile, if it does.  Of an
/// unsuccessful exit only the exit code and the category of the core's
/// output are kept.
pub open spec fn core_check_fault(run: CoreCheckView) -> Option<ServiceFault> {
    match run {
        CoreCheckView::Passed => None,
        CoreCheckView::TimedOut => Some(
            ServiceFault::CoreConfigRejected(CoreConfigCheckFailure(CoreConfigCheckOutcome::TimedOut)),
        ),
        CoreCheckView::Exited { code, stderr } => Some(
            ServiceFault::CoreConfigRejected(
                CoreConfigCheckFailure(CoreConfigCheckOutcome::Exited { code, reason: classify_stderr(stderr) }),
            ),
        ),
        CoreCheckView::MissingCore(path) => Some(ServiceFault::MissingCore(path)),
        CoreCheckView::StagingFailed(e) => Some(ServiceFault::State(e)),
        CoreCheckView::Failed(message) => Some(ServiceFault::CoreProcess(message)),
    }
}

/// The outcome of a configuration check of the core.
pub fn core_check_result(run: CoreCheckRun) -> (r: Result<(), ServiceError>)
    ensures
        match core_check_fault(run@) {
            None => r is Ok,
            Some(f) => r matches Err(e) && e@ == f,
        },
{
    match run {
        CoreCheckRun::Passed => Ok(()),
        CoreCheckRun::TimedOut => Err(ServiceError::CoreConfigRejected(CoreConfigCheckFailure::timed_out())),
        CoreCheckRun::Exited { code, stderr } => Err(
            ServiceError::CoreConfigRejected(CoreConfigCheckFailure::exited(code, stderr.as_slice())),
        ),
        CoreCheckRun::MissingCore(path) => Err(ServiceError::MissingCore(path)),
        CoreCheckRun::StagingFailed(e) => Err(ServiceError::State(e)),
        CoreCheckRun::Failed(message) => Err(ServiceError::CoreProcess(message)),
    }
}

/// A refused check reaches the user by the same text whatever the core
/// wrote, as long as the exit code and the category of its output agree:
/// the core's output never leaves the service.
pub proof fn law_core_check_text_hides_output(code: Option<i32>, first: Seq<u8>, second: Seq<u8>)
    requires
        classify_stderr(first) == classify_stderr(second),
    ensures
        core_check_fault(CoreCheckView::Exited { code, stderr: first }) == core_check_fault(
            CoreCheckView::Exited { code, stderr: second },
        ),
        service_fault_text(core_check_fault(CoreCheckView::Exited { code, stderr: first })->0)
            == service_fault_text(core_check_fault(CoreCheckView::Exited { code, stderr: second })->0),
{
}

/// The outcome of checking profile `p` with the core, whose check reported
/// `run`: a profile without a rendered configuration is refused before the
/// check runs.
pub open spec fn profile_check(p: ProfileModel, run: CoreCheckView) -> Option<ServiceFault> {
    match crate::profile::rendered_core_toml(p) {
        Err(f) => Some(ServiceFault::State(StateFault::Profile(f))),
        Ok(_) => core_check_fault(run),
    }
}

/// A log file of the core.
pub struct ServiceLogFile {
    pub source: String,
    pub content: String,
}

/// The files, processes and names the controller needs from the host.
pub trait ServiceHost {
    /// Durably replaces the encrypted state.
    fn save_state(&mut self, state: &PersistedState) -> Result<(), StateError>;

    /// Runs the bundled core's configuration check on `config`, the rendered
    /// configuration of profile `profile_id`, staged where only the service
    /// can read it.
    fn run_core_config_check(&mut self, profile_id: &str, config: &str) -> CoreCheckRun;

    /// The name of the local computer.
    fn local_computer_name(&mut self) -> String;

    /// The core's log files, most recently modified first.
    fn core_log_files(&mut self) -> Result<Vec<ServiceLogFile>, ServiceError>;

    /// Removes the core's log files.
    fn clear_core_logs(&mut self) -> Result<(), ServiceError>;
}

/// Service state owned by one thread; a host that answers RPCs on another
/// thread puts it behind a lock.
pub struct ServiceController<H> {
    host: H,
    state: PersistedState,
    retry_policy: RetryPolicy,
    supervisor: Option<Supervisor>,
    core_pid: Option<u32>,
    observed_peer_count: Option<usize>,
    observed_peers: Option<Vec<ConnectedPeer>>,
    observed_route_count: Option<usize>,
    observed_traffic_tx_bytes: Option<u64>,
    observed_traffic_rx_bytes: Option<u64>,
    last_success_unix_ms: Option<u64>,
    last_error: Option<String>,
    reconciliation_needed: bool,
    force_restart: bool,
    host_calls: Ghost<Seq<HostCall>>,
}

/// What the controller handed to its host, call by call: a durable state
/// to save, or a profile's rendered configuration to check with the core.
pub ghost enum HostCall {
    SaveState(StateModel),
    CheckCore { profile_id: Seq<char>, config: Seq<char> },
}

/// The mathematical form of a [`ServiceController`].
pub ghost struct ControllerModel {
    pub state: StateModel,
    pub retry_policy: RetryPolicy,
    pub supervisor: Option<SupervisorView>,
    pub core_pid: Option<u32>,
    pub observed_peer_count: Option<usize>,
    pub observed_peers: Option<Seq<PeerModel>>,
    pub observed_route_count: Option<usize>,
    pub observed_traffic_tx_bytes: Option<u64>,
    pub observed_traffic_rx_bytes: Option<u64>,
    pub last_success_unix_ms: Option<u64>,
    pub last_error: Option<Seq<char>>,
    pub reconciliation_needed: bool,
    pub force_restart: bool,
    pub host_calls: Seq<HostCall>,
}

pub open spec fn opt_peers(p: Option<Vec<ConnectedPeer>>) -> Option<Seq<PeerModel>> {
    match p {
        Some(v) => Some(crate::protocol::peer_models(v@)),
        None => None,
    }
}

pub open spec fn opt_supervisor(s: Option<Supervisor>) -> Option<SupervisorView> {
    match s {
        Some(v) => Some(v@),
        None => None,
    }
}

impl<H> View for ServiceController<H> {
    type V = ControllerModel;

    closed spec fn view(&self) -> ControllerModel {
        ControllerModel {
            state: self.state@,
            retry_policy: self.retry_policy,
            supervisor: opt_supervisor(self.supervisor),
            core_pid: self.core_pid,
            observed_peer_count: self.observed_peer_count,
            observed_peers: opt_peers(self.observed_peers),
            observed_route_count: self.observed_route_count,
            observed_traffic_tx_bytes: self.observed_traffic_tx_bytes,
            observed_traffic_rx_bytes: self.observed_traffic_rx_bytes,
            last_success_unix_ms: self.last_success_unix_ms,
            last_error: crate::protocol::opt_text(self.last_error),
            reconciliation_needed: self.reconciliation_needed,
            force_restart: self.force_restart,
            host_calls: self.host_calls@,
        }
    }
}

/// A controller freshly loaded from `state`: no supervisor until the first
/// reconciliation knows the network, nothing observed, a reconciliation due.
pub open spec fn loaded(state: StateModel, retry_policy: RetryPolicy) -> ControllerModel {
    ControllerModel {
        state,
        retry_policy,
        supervisor: None,
        core_pid: None,
        observed_peer_count: None,
        observed_peers: None,
        observed_route_count: None,
        observed_traffic_tx_bytes: None,
        observed_traffic_rx_bytes: None,
        last_success_unix_ms: None,
        last_error: None,
        reconciliation_needed: true,
        force_restart: false,
        host_calls: Seq::empty(),
    }
}

/// The selected profile, if it is stored.
pub open spec fn active_profile_of(s: StateModel) -> Option<ProfileModel> {
    match s.active_profile_id {
        Some(id) => match crate::state::find_profile(s.profiles, id) {
            Some(k) => Some(s.profiles[k]),
            None => None,
        },
        None => None,
    }
}

/// The address the bundled iperf3 server binds to, if any.
pub open spec fn bind_target_of(c: ControllerModel) -> Option<Seq<char>> {
    match (c.core_pid, active_profile_of(c.state)) {
        (Some(_), Some(p)) => match p.address_mode {
            crate::profile::AddressModel::Static(cidr) => bind_address(cidr),
            crate::profile::AddressModel::Dhcp => None,
        },
        _ => None,
    }
}

/// The status the service reports.
pub open spec fn status_of(c: ControllerModel) -> StatusModel {
    StatusModel {
        protocol_version: PROTOCOL_VERSION,
        state: match c.supervisor {
            Some(s) => connection_state_of(s.state, c.observed_peer_count),
            None => ServiceConnectionState::Disconnected,
        },
        active_profile_id: c.state.active_profile_id,
        auto_connect_profile_id: match crate::state::auto_from(c.state.profiles, 0) {
            Some(k) => Some(c.state.profiles[k].id),
            None => None,
        },
        core_pid: c.core_pid,
        retry_at_unix_ms: match c.supervisor {
            Some(s) => s.retry_at_ms,
            None => None,
        },
        consecutive_failures: match c.supervisor {
            Some(s) => crate::supervisor::max_u32(
                s.consecutive_start_failures,
                s.consecutive_health_failures,
            ),
            None => 0,
        },
        peer_count: match c.observed_peer_count {
            Some(n) => n,
            None => 0,
        },
        peer_count_available: c.observed_peer_count is Some,
        route_count: match c.observed_route_count {
            Some(n) => n,
            None => 0,
        },
        traffic_tx_bytes: match c.observed_traffic_tx_bytes {
            Some(n) => n,
            None => 0,
        },
        traffic_rx_bytes: match c.observed_traffic_rx_bytes {
            Some(n) => n,
            None => 0,
        },
        last_success_unix_ms: c.last_success_unix_ms,
        last_error: c.last_error,
    }
}

/// `c` with nothing observed of a core.
pub open spec fn without_observations(c: ControllerModel) -> ControllerModel {
    ControllerModel {
        observed_peer_count: None,
        observed_peers: None,
        observed_route_count: None,
        observed_traffic_tx_bytes: None,
        observed_traffic_rx_bytes: None,
        ..c
    }
}

pub open spec fn with_supervisor(c: ControllerModel, s: Option<SupervisorView>) -> ControllerModel {
    ControllerModel { supervisor: s, ..c }
}

/// Brings the supervisor in line with the durable state: a new selection
/// gets a fresh supervisor, a changed intent reaches the existing one, and
/// a pending forced restart replaces a running core.
pub open spec fn reconcile_of(c: ControllerModel, now_ms: u64, network_available: bool) -> (
    ControllerModel,
    ActionView,
) {
    if !c.reconciliation_needed {
        (c, ActionView::Noop)
    } else {
        let c1 = ControllerModel { reconciliation_needed: false, force_restart: false, ..c };
        let running = c.core_pid is Some;
        match active_profile_of(c.state) {
            None => (
                with_supervisor(c1, None),
                if running {
                    ActionView::StopCore
                } else {
                    ActionView::Noop
                },
            ),
            Some(p) => {
                let desired = p.auto_connect;
                let changed = c.supervisor is None || c.supervisor->0.profile_id != p.id;
                if changed {
                    let fresh = crate::supervisor::initial_view(p.id, desired, c.retry_policy);
                    let (s1, a) = crate::supervisor::reconcile(
                        crate::supervisor::with_network(fresh, network_available),
                        now_ms,
                    );
                    (
                        with_supervisor(c1, Some(s1)),
                        if running {
                            if desired && network_available {
                                ActionView::RestartCore(p.id)
                            } else {
                                ActionView::StopCore
                            }
                        } else {
                            a
                        },
                    )
                } else {
                    let (s1, a) = crate::supervisor::reconcile(
                        crate::supervisor::with_desired(c.supervisor->0, desired),
                        now_ms,
                    );
                    (
                        with_supervisor(c1, Some(s1)),
                        if running && c.force_restart {
                            if desired && network_available {
                                ActionView::RestartCore(p.id)
                            } else {
                                ActionView::StopCore
                            }
                        } else {
                            a
                        },
                    )
                }
            },
        }
    }
}

/// An event for the supervisor, if there is one.
pub open spec fn supervisor_step(c: ControllerModel, step: (SupervisorView, ActionView)) -> (
    ControllerModel,
    ActionView,
) {
    (with_supervisor(c, Some(step.0)), step.1)
}

pub open spec fn health_observed(c: ControllerModel, sample: HealthSample, now_ms: u64) -> ControllerModel {
    ControllerModel {
        last_success_unix_ms: if sample.control_plane_healthy {
            Some(now_ms)
        } else {
            c.last_success_unix_ms
        },
        observed_peer_count: sample.connected_peer_count,
        observed_peers: opt_peers(sample.connected_peers),
        observed_route_count: if sample.route_count is Some {
            sample.route_count
        } else {
            c.observed_route_count
        },
        observed_traffic_tx_bytes: if sample.traffic_tx_bytes is Some {
            sample.traffic_tx_bytes
        } else {
            c.observed_traffic_tx_bytes
        },
        observed_traffic_rx_bytes: if sample.traffic_rx_bytes is Some {
            sample.traffic_rx_bytes
        } else {
            c.observed_traffic_rx_bytes
        },
        ..c
    }
}

impl<H: ServiceHost> ServiceController<H> {
    /// A controller of `state`, as the host loaded and decrypted it.  The
    /// state is checked again here; no supervisor is restored until the first
    /// reconciliation knows the current network.
    pub fn load(host: H, state: PersistedState, retry_policy: RetryPolicy) -> (r: Result<Self, ServiceError>)
        ensures
            match r {
                Ok(c) => crate::state::state_valid(state@) && c@ == loaded(state@, retry_policy),
                Err(e) => crate::state::state_fault(state@) is Some && e@ == ServiceFault::State(
                    crate::state::state_fault(state@)->0,
                ),
            },
    {
        match state.validate() {
            Err(e) => {
                return Err(ServiceError::State(e));
            },
            Ok(()) => {},
        }
        Ok(
            ServiceController {
                host,
                state,
                retry_policy,
                supervisor: None,
                core_pid: None,
                observed_peer_count: None,
                observed_peers: None,
                observed_route_count: None,
                observed_traffic_tx_bytes: None,
                observed_traffic_rx_bytes: None,
                last_success_unix_ms: None,
                last_error: None,
                reconciliation_needed: true,
                force_restart: false,
                host_calls: Ghost(Seq::empty()),
            },
        )
    }

    pub fn persisted_state(&self) -> (r: &PersistedState)
        ensures
            r@ == self@.state,
    {
        &self.state
    }

    /// The supervisor of the selected profile, once one was reconciled.
    pub fn supervisor(&self) -> (r: Option<&Supervisor>)
        ensures
            match r {
                Some(s) => self@.supervisor == Some(s@),
                None => self@.supervisor is None,
            },
    {
        match &self.supervisor {
            Some(s) => Some(s),
            None => None,
        }
    }

    /// Whether a committed change still has to replace a running core.
    pub fn force_restart_pending(&self) -> (r: bool)
        ensures
            r == self@.force_restart,
    {
        self.force_restart
    }

    pub fn status(&self) -> (r: ServiceStatus)
        ensures
            r@ == status_of(self@),
    {
        let (state, retry_at_unix_ms, consecutive_failures) = match &self.supervisor {
            Some(s) => (
                connection_state(s, self.observed_peer_count),
                s.retry_at_ms(),
                s.consecutive_failures(),
            ),
            None => (ServiceConnectionState::Disconnected, None, 0),
        };
        let auto_connect_profile_id = match self.state.auto_connect_profile() {
            Some(p) => Some(p.id.clone()),
            None => None,
        };
        ServiceStatus {
            protocol_version: PROTOCOL_VERSION,
            state,
            active_profile_id: crate::protocol::copy_opt_string(&self.state.active_profile_id),
            auto_connect_profile_id,
            core_pid: self.core_pid,
            retry_at_unix_ms,
            consecutive_failures,
            peer_count: match self.observed_peer_count {
                Some(n) => n,
                None => 0,
            },
            peer_count_available: self.observed_peer_count.is_some(),
            route_count: match self.observed_route_count {
                Some(n) => n,
                None => 0,
            },
            traffic_tx_bytes: match self.observed_traffic_tx_bytes {
                Some(n) => n,
                None => 0,
            },
            traffic_rx_bytes: match self.observed_traffic_rx_bytes {
                Some(n) => n,
                None => 0,
            },
            last_success_unix_ms: self.last_success_unix_ms,
            last_error: crate::protocol::copy_opt_string(&self.last_error),
        }
    }

    /// The listing rows of the stored profiles, in id order.
    pub fn profile_summaries(&self) -> (r: Vec<ProfileSummary>)
        ensures
            r@.len() == self@.state.profiles.len(),
            forall|i: int|
                0 <= i < r@.len() ==> (#[trigger] r@[i])@ == crate::protocol::summary_of(
                    self@.state.profiles[i],
                ),
    {
        let mut r: Vec<ProfileSummary> = Vec::new();
        let mut i: usize = 0;
        while i < self.state.profiles.len()
            invariant
                i <= self.state.profiles@.len(),
                r@.len() == i,
                forall|j: int|
                    0 <= j < i ==> (#[trigger] r@[j])@ == crate::protocol::summary_of(
                        self@.state.profiles[j],
                    ),
            decreases self.state.profiles@.len() - i,
        {
            r.push(ProfileSummary::from_profile(&self.state.profiles[i]));
            i = i + 1;
        }
        r
    }

    /// What the desktop may see of the stored profiles, ordered by id.
    pub fn profile_views(&self) -> (r: Vec<ProfileView>)
        ensures
            r@.len() == self@.state.profiles.len(),
            forall|i: int|
                0 <= i < r@.len() ==> (#[trigger] r@[i])@ == crate::protocol::view_of(
                    self@.state.profiles[i],
                ),
    {
        let mut r: Vec<ProfileView> = Vec::new();
        let mut i: usize = 0;
        while i < self.state.profiles.len()
            invariant
                i <= self.state.profiles@.len(),
                r@.len() == i,
                forall|j: int|
                    0 <= j < i ==> (#[trigger] r@[j])@ == crate::protocol::view_of(
                        self@.state.profiles[j],
                    ),
            decreases self.state.profiles@.len() - i,
        {
            r.push(ProfileView::from_profile(&self.state.profiles[i]));
            i = i + 1;
        }
        r
    }

    /// The remote peers of the last successful peer listing.
    pub fn connected_peers(&self) -> (r: Vec<ConnectedPeer>)
        ensures
            crate::protocol::peer_models(r@) == match self@.observed_peers {
                Some(p) => p,
                None => Seq::empty(),
            },
    {
        match &self.observed_peers {
            Some(p) => crate::protocol::copy_peers(p),
            None => {
                let r: Vec<ConnectedPeer> = Vec::new();
                assert(crate::protocol::peer_models(r@) =~= Seq::empty());
                r
            },
        }
    }

    fn active_profile(&self) -> (r: Option<&NetworkProfile>)
        ensures
            match r {
                Some(p) => active_profile_of(self@.state) == Some(p@),
                None => active_profile_of(self@.state) is None,
            },
    {
        match &self.state.active_profile_id {
            Some(id) => self.state.get(id.as_str()),
            None => None,
        }
    }

    /// The address the bundled iperf3 server binds to: the active profile's
    /// fixed virtual address, while a core process runs.
    pub fn iperf3_bind_target(&self) -> (r: Option<Iperf3BindTarget>)
        ensures
            match r {
                Some(t) => bind_target_of(self@) == Some(t.address@),
                None => bind_target_of(self@) is None,
            },
    {
        if self.core_pid.is_none() {
            return None;
        }
        match self.active_profile() {
            Some(p) => match &p.address_mode {
                AddressMode::Static { cidr } => Iperf3BindTarget::from_cidr(cidr.as_str()),
                AddressMode::Dhcp => None,
            },
            None => None,
        }
    }

    /// Brings the supervisor in line with the durable state; see
    /// [`reconcile_of`].
    pub fn reconcile(&mut self, now_ms: u64, network_available: bool) -> (r: SupervisorAction)
        ensures
            (final(self)@, r@) == reconcile_of(old(self)@, now_ms, network_available),
    {
        if !self.reconciliation_needed {
            return SupervisorAction::Noop;
        }
        self.reconciliation_needed = false;
        let force_restart = self.force_restart;
        self.force_restart = false;
        let core_running = self.core_pid.is_some();
        let selected = match self.active_profile() {
            Some(p) => Some((p.id.clone(), p.auto_connect)),
            None => None,
        };
        let (profile_id, desired) = match selected {
            None => {
                self.supervisor = None;
                return if core_running {
                    SupervisorAction::StopCore
                } else {
                    SupervisorAction::Noop
                };
            },
            Some(selection) => selection,
        };
        let changed = match &self.supervisor {
            Some(s) => !str_eq(s.profile_id(), profile_id.as_str()),
            None => true,
        };
        if changed {
            let mut fresh = Supervisor::new(profile_id.clone(), desired, self.retry_policy);
            let initial_action = fresh.initialize(now_ms, network_available);
            self.supervisor = Some(fresh);
            if core_running {
                return if desired && network_available {
                    SupervisorAction::RestartCore { profile_id }
                } else {
                    SupervisorAction::StopCore
                };
            }
            return initial_action;
        }
        let mut s = match self.supervisor.take() {
            Some(s) => s,
            None => {
                return SupervisorAction::Noop;
            },
        };
        let action = s.set_desired(desired, now_ms);
        self.supervisor = Some(s);
        if core_running && force_restart {
            return if desired && network_available {
                SupervisorAction::RestartCore { profile_id }
            } else {
                SupervisorAction::StopCore
            };
        }
        action
    }

    pub fn tick(&mut self, now_ms: u64) -> (r: SupervisorAction)
        ensures
            (final(self)@, r@) == match old(self)@.supervisor {
                Some(s) => supervisor_step(old(self)@, crate::supervisor::tick(s, now_ms)),
                None => (old(self)@, ActionView::Noop),
            },
    {
        match self.supervisor.take() {
            Some(mut s) => {
                let action = s.tick(now_ms);
                self.supervisor = Some(s);
                action
            },
            None => SupervisorAction::Noop,
        }
    }

    pub fn on_network_changed(&mut self, network_available: bool, now_ms: u64) -> (r: SupervisorAction)
        ensures
            (final(self)@, r@) == match old(self)@.supervisor {
                Some(s) => supervisor_step(
                    old(self)@,
                    crate::supervisor::reconcile(crate::supervisor::with_network(s, network_available), now_ms),
                ),
                None => (old(self)@, ActionView::Noop),
            },
    {
        match self.supervisor.take() {
            Some(mut s) => {
                let action = s.on_network_changed(network_available, now_ms);
                self.supervisor = Some(s);
                action
            },
            None => SupervisorAction::Noop,
        }
    }

    pub fn on_system_resume(&mut self, now_ms: u64, network_available: bool) -> (r: SupervisorAction)
        ensures
            (final(self)@, r@) == match old(self)@.supervisor {
                Some(s) => supervisor_step(
                    old(self)@,
                    crate::supervisor::on_system_resume(s, now_ms, network_available),
                ),
                None => (old(self)@, ActionView::Noop),
            },
    {
        match self.supervisor.take() {
            Some(mut s) => {
                let action = s.on_system_resume(now_ms, network_available);
                self.supervisor = Some(s);
                action
            },
            None => SupervisorAction::Noop,
        }
    }

    /// Records a started core.  Without a supervisor the core must stop.
    pub fn on_core_started(&mut self, pid: u32, now_ms: u64) -> (r: SupervisorAction)
        ensures
            ({
                let c = ControllerModel {
                    core_pid: Some(pid),
                    last_error: None,
                    ..without_observations(old(self)@)
                };
                (final(self)@, r@) == match old(self)@.supervisor {
                    Some(s) => supervisor_step(c, crate::supervisor::on_core_started(s, now_ms)),
                    None => (c, ActionView::StopCore),
                }
            }),
    {
        self.core_pid = Some(pid);
        self.clear_observations();
        self.last_error = None;
        match self.supervisor.take() {
            Some(mut s) => {
                let action = s.on_core_started(now_ms);
                self.supervisor = Some(s);
                action
            },
            None => SupervisorAction::StopCore,
        }
    }

    fn clear_observations(&mut self)
        ensures
            final(self)@ == without_observations(old(self)@),
    {
        self.observed_peer_count = None;
        self.observed_peers = None;
        self.observed_route_count = None;
        self.observed_traffic_tx_bytes = None;
        self.observed_traffic_rx_bytes = None;
    }

    /// Records that the core exited, with the host's description.
    pub fn on_core_exited(&mut self, now_ms: u64, detail: String)
        ensures
            ({
                let c = ControllerModel {
                    core_pid: None,
                    last_error: Some(detail@),
                    ..without_observations(old(self)@)
                };
                final(self)@ == match old(self)@.supervisor {
                    Some(s) => with_supervisor(c, Some(crate::supervisor::on_failure(s, now_ms))),
                    None => c,
                }
            }),
    {
        self.core_pid = None;
        self.clear_observations();
        self.last_error = Some(detail);
        match self.supervisor.take() {
            Some(mut s) => {
                s.on_core_exited(now_ms);
                self.supervisor = Some(s);
            },
            None => {},
        }
    }

    /// Records that a core start failed.
    pub fn on_core_start_failed(&mut self, now_ms: u64)
        ensures
            final(self)@ == match old(self)@.supervisor {
                Some(s) => with_supervisor(old(self)@, Some(crate::supervisor::on_failure(s, now_ms))),
                None => old(self)@,
            },
    {
        match self.supervisor.take() {
            Some(mut s) => {
                s.on_core_start_failed(now_ms);
                self.supervisor = Some(s);
            },
            None => {},
        }
    }

    /// Records that the host stopped the core.
    pub fn on_core_stopped(&mut self)
        ensures
            final(self)@ == (ControllerModel { core_pid: None, ..without_observations(old(self)@) }),
    {
        self.core_pid = None;
        self.clear_observations();
    }

    /// Records a health sample of the running core.
    pub fn on_health_sample(&mut self, sample: HealthSample, now_ms: u64) -> (r: SupervisorAction)
        ensures
            (final(self)@, r@) == match old(self)@.supervisor {
                Some(s) => supervisor_step(
                    health_observed(old(self)@, sample, now_ms),
                    crate::supervisor::on_health_sample(
                        s,
                        sample.spec_healthy(),
                        sample.core_process_running,
                        sample.connected_peer_count,
                        now_ms,
                    ),
                ),
                None => (health_observed(old(self)@, sample, now_ms), ActionView::Noop),
            },
    {
        if sample.control_plane_healthy {
            self.last_success_unix_ms = Some(now_ms);
        }
        self.observed_peer_count = sample.connected_peer_count;
        self.observed_peers = match &sample.connected_peers {
            Some(p) => Some(crate::protocol::copy_peers(p)),
            None => None,
        };
        if sample.route_count.is_some() {
            self.observed_route_count = sample.route_count;
        }
        if sample.traffic_tx_bytes.is_some() {
            self.observed_traffic_tx_bytes = sample.traffic_tx_bytes;
        }
        if sample.traffic_rx_bytes.is_some() {
            self.observed_traffic_rx_bytes = sample.traffic_rx_bytes;
        }
        match self.supervisor.take() {
            Some(mut s) => {
                let action = s.on_health_sample(sample, now_ms);
                self.supervisor = Some(s);
                action
            },
            None => SupervisorAction::Noop,
        }
    }

    /// Records an error for the status.
    pub fn record_error(&mut self, error: String)
        ensures
            final(self)@ == (ControllerModel { last_error: Some(error@), ..old(self)@ }),
    {
        self.last_error = Some(error);
    }
}


// ---------------------------------------------------------------------------
// Durable changes
// ---------------------------------------------------------------------------

/// `c` after `next` was validated and saved: a reconciliation is due, and a
/// forced restart when `force` asks for one.
pub open spec fn committed(c: ControllerModel, next: StateModel, force: bool) -> ControllerModel {
    ControllerModel {
        state: next,
        reconciliation_needed: true,
        force_restart: c.force_restart || force,
        ..with_host_call(c, HostCall::SaveState(next))
    }
}

/// `c` after it handed `call` to its host.
pub open spec fn with_host_call(c: ControllerModel, call: HostCall) -> ControllerModel {
    ControllerModel { host_calls: c.host_calls.push(call), ..c }
}

/// `c2` is `c` but for what was handed to the host.
pub open spec fn same_but_host_calls(c: ControllerModel, c2: ControllerModel) -> bool {
    c2 == ControllerModel { host_calls: c2.host_calls, ..c }
}

/// How an attempt to commit `next` can end: refused without a save when it
/// is invalid; otherwise handed to the host to save, and then adopted as
/// [`committed`] says, or refused when the save failed.
pub open spec fn commit_done(c: ControllerModel, next: StateModel, force: bool, c2: ControllerModel, r: Result<(), ServiceFault>) -> bool {
    match crate::state::state_fault(next) {
        Some(g) => c2 == c && r == Err::<(), ServiceFault>(ServiceFault::State(g)),
        None => match r {
            Ok(_) => c2 == committed(c, next, force),
            Err(f) => c2 == with_host_call(c, HostCall::SaveState(next)) && f is State,
        },
    }
}

pub open spec fn unit_outcome(r: Result<(), ServiceError>) -> Result<(), ServiceFault> {
    match r {
        Ok(_) => Ok(()),
        Err(e) => Err(e@),
    }
}

/// A profile whose blank device name was resolved to `name`.
pub open spec fn resolved_hostname(p: ProfileModel, name: Seq<char>) -> ProfileModel {
    if is_blank(p.hostname) {
        crate::profile::with_hostname(p, name)
    } else {
        p
    }
}

/// The durable state after storing `p`: making it active, or connecting it
/// automatically, switches automatic connection off for the others and
/// selects it; the first stored profile is selected too.
pub open spec fn upsert_state(s: StateModel, p: ProfileModel, make_active: bool) -> StateModel {
    let s1 = if make_active || p.auto_connect {
        StateModel {
            profiles: crate::state::all_manual(s.profiles),
            active_profile_id: Some(p.id),
            ..s
        }
    } else if s.active_profile_id is None {
        StateModel { active_profile_id: Some(p.id), ..s }
    } else {
        s
    };
    StateModel { profiles: crate::state::upserted(s1.profiles, p), ..s1 }
}

pub open spec fn upsert_ok(c: ControllerModel, input: ProfileModel, make_active: bool, c2: ControllerModel, v: crate::protocol::ProfileViewModel, name: Seq<char>) -> bool {
    let p = resolved_hostname(input, name);
    let next = upsert_state(c.state, p, make_active);
    &&& profile_fault(p) is None
    &&& crate::state::state_valid(next)
    &&& crate::profile::rendered_core_toml(p) is Ok
    &&& c2 == committed(
        checked(c, p),
        next,
        c.state.active_profile_id == Some(p.id) || next.active_profile_id == Some(p.id),
    )
    &&& v == crate::protocol::view_of(p)
}

/// `c` after it handed the rendered configuration of `p` to its host for a
/// check by the core; unchanged when `p` renders none.
pub open spec fn checked(c: ControllerModel, p: ProfileModel) -> ControllerModel {
    match crate::profile::rendered_core_toml(p) {
        Ok(t) => with_host_call(c, HostCall::CheckCore { profile_id: p.id, config: t }),
        Err(_) => c,
    }
}

/// How storing `input` can end: stored with its device name resolved, or
/// refused with the controller unchanged.  A refusal for the profile itself
/// names the profile's first fault.
pub open spec fn upsert_done(c: ControllerModel, input: ProfileModel, make_active: bool, c2: ControllerModel, r: Result<crate::protocol::ProfileViewModel, ServiceFault>) -> bool {
    exists|name: Seq<char>, run: CoreCheckView| #[trigger] upsert_reached(c, input, make_active, name, run, c2, r)
}

/// How storing `input` ends when the host names the computer `name` and the
/// core's check of the resolved profile reports `run`: the profile's first
/// fault, then the check's refusal, refuse it with the controller
/// unchanged; otherwise it is committed, or the commit is refused.
pub open spec fn upsert_reached(
    c: ControllerModel,
    input: ProfileModel,
    make_active: bool,
    name: Seq<char>,
    run: CoreCheckView,
    c2: ControllerModel,
    r: Result<crate::protocol::ProfileViewModel, ServiceFault>,
) -> bool {
    let p = resolved_hostname(input, name);
    let next = upsert_state(c.state, p, make_active);
    match profile_fault(p) {
        Some(f) => c2 == c && r == Err::<crate::protocol::ProfileViewModel, ServiceFault>(ServiceFault::Profile(f)),
        None => match profile_check(p, run) {
            Some(f) => c2 == checked(c, p) && r == Err::<crate::protocol::ProfileViewModel, ServiceFault>(f),
            None => match r {
                Ok(v) => upsert_ok(c, input, make_active, c2, v, name),
                Err(f) => f is State && match crate::state::state_fault(next) {
                    Some(g) => c2 == checked(c, p) && f == ServiceFault::State(g),
                    None => c2 == with_host_call(checked(c, p), HostCall::SaveState(next)),
                },
            },
        },
    }
}

/// How replacing the flags of profile `id` with `flags` can end: refused
/// when no such profile is stored, otherwise stored as an upsert of the
/// stored profile with the new flags, kept selected if it was.
pub open spec fn flags_updated(c: ControllerModel, id: Seq<char>, flags: crate::profile::EasyTierFlags, c2: ControllerModel, r: Result<crate::protocol::ProfileViewModel, ServiceFault>) -> bool {
    match stored(c.state, id) {
        None => c2 == c && r == Err::<crate::protocol::ProfileViewModel, ServiceFault>(not_found(id)),
        Some(p) => upsert_done(
            c,
            crate::profile::ProfileModel { flags, ..p },
            c.state.active_profile_id == Some(id),
            c2,
            r,
        ),
    }
}

/// How importing the core configuration document `toml` can end: refused
/// for the document's first fault, or for the first fault of the profile it
/// describes, with the controller unchanged; otherwise stored as an upsert
/// of that profile.
pub open spec fn imported(c: ControllerModel, toml: Seq<char>, make_active: bool, c2: ControllerModel, r: Result<crate::protocol::ProfileViewModel, ServiceFault>) -> bool {
    match crate::profile::import_fault(toml) {
        Some(f) => c2 == c && r == Err::<crate::protocol::ProfileViewModel, ServiceFault>(ServiceFault::Profile(f)),
        None => exists|p: ProfileModel, name: Seq<char>|
            #[trigger] crate::profile::import_matches(p, toml, name) && (upsert_done(c, p, make_active, c2, r) || (
            c2 == c && (r matches Err(ServiceFault::Profile(f)) && (crate::profile::flags_fault(p.flags)
                == Some(f) || (crate::profile::flags_fault(p.flags) is None && profile_fault(p) == Some(
                f,
            )))))),
    }
}

pub open spec fn view_outcome(r: Result<ProfileView, ServiceError>) -> Result<crate::protocol::ProfileViewModel, ServiceFault> {
    match r {
        Ok(v) => Ok(v@),
        Err(e) => Err(e@),
    }
}

/// The profile stored under `id`.
pub open spec fn stored(s: StateModel, id: Seq<char>) -> Option<ProfileModel> {
    match crate::state::find_profile(s.profiles, id) {
        Some(k) => Some(s.profiles[k]),
        None => None,
    }
}

/// The core configuration document that exporting profile `id` gives, or
/// why there is none.
pub open spec fn exported(s: StateModel, id: Seq<char>) -> Result<Seq<char>, ServiceFault> {
    match stored(s, id) {
        None => Err(not_found(id)),
        Some(p) => match crate::profile::rendered_core_toml(p) {
            Ok(t) => Ok(t),
            Err(f) => Err(ServiceFault::Profile(f)),
        },
    }
}

pub open spec fn text_outcome(r: Result<String, ServiceError>) -> Result<Seq<char>, ServiceFault> {
    match r {
        Ok(t) => Ok(t@),
        Err(e) => Err(e@),
    }
}

pub open spec fn not_found(id: Seq<char>) -> ServiceFault {
    ServiceFault::ProfileNotFound(id)
}

/// The durable state after removing profile `id`; removing the selected
/// profile selects the first remaining one.
pub open spec fn deleted_state(s: StateModel, k: int) -> StateModel {
    let profiles = s.profiles.remove(k);
    let was_active = s.active_profile_id == Some(s.profiles[k].id);
    StateModel {
        profiles,
        active_profile_id: if was_active {
            if profiles.len() > 0 {
                Some(profiles[0].id)
            } else {
                None
            }
        } else {
            s.active_profile_id
        },
        ..s
    }
}

/// The durable state after selecting the profile at `k`: no profile
/// connects automatically.
pub open spec fn selected_state(s: StateModel, k: int) -> StateModel {
    StateModel {
        profiles: crate::state::all_manual(s.profiles),
        active_profile_id: Some(s.profiles[k].id),
        ..s
    }
}

pub open spec fn set_auto(ps: Seq<ProfileModel>, k: int, enabled: bool) -> Seq<ProfileModel> {
    ps.update(k, crate::state::with_auto_connect(ps[k], enabled))
}

/// The mathematical form of a [`ConnectionIntent`].
pub ghost enum IntentModel {
    Connect(Seq<char>),
    Disconnect(Option<Seq<char>>),
    SetAutoConnect(Seq<char>, bool),
}

impl View for ConnectionIntent {
    type V = IntentModel;

    open spec fn view(&self) -> IntentModel {
        match self {
            ConnectionIntent::Connect { profile_id } => IntentModel::Connect(profile_id@),
            ConnectionIntent::Disconnect { profile_id } => IntentModel::Disconnect(
                crate::protocol::opt_text(*profile_id),
            ),
            ConnectionIntent::SetAutoConnect { profile_id, enabled } => IntentModel::SetAutoConnect(
                profile_id@,
                *enabled,
            ),
        }
    }
}

/// The durable state an intent asks for, and whether it replaces a running
/// core; or why it cannot be applied.
pub open spec fn intent_plan(s: StateModel, intent: IntentModel) -> Result<(StateModel, bool), ServiceFault> {
    match intent {
        IntentModel::Connect(id) => match crate::state::find_profile(s.profiles, id) {
            None => Err(not_found(id)),
            Some(k) => Ok(
                (
                    StateModel {
                        profiles: set_auto(crate::state::all_manual(s.profiles), k, true),
                        active_profile_id: Some(id),
                        ..s
                    },
                    true,
                ),
            ),
        },
        IntentModel::Disconnect(requested) => {
            let id = if requested is Some {
                requested
            } else {
                s.active_profile_id
            };
            match id {
                None => Err(ServiceFault::NoActiveProfile),
                Some(id) => match crate::state::find_profile(s.profiles, id) {
                    None => Err(not_found(id)),
                    Some(k) => Ok((StateModel { profiles: set_auto(s.profiles, k, false), ..s }, true)),
                },
            }
        },
        IntentModel::SetAutoConnect(id, enabled) => match crate::state::find_profile(s.profiles, id) {
            None => Err(not_found(id)),
            Some(k) => {
                let s1 = if enabled {
                    StateModel {
                        profiles: crate::state::all_manual(s.profiles),
                        active_profile_id: Some(id),
                        ..s
                    }
                } else {
                    s
                };
                Ok(
                    (
                        StateModel { profiles: set_auto(s1.profiles, k, enabled), ..s1 },
                        s1.active_profile_id == Some(id),
                    ),
                )
            },
        },
    }
}

/// How applying a planned change can end: an unapplicable plan is refused
/// with its fault, an applicable one is committed.
pub open spec fn plan_done(c: ControllerModel, plan: Result<(StateModel, bool), ServiceFault>, c2: ControllerModel, r: Result<(), ServiceFault>) -> bool {
    match plan {
        Err(f) => c2 == c && r == Err::<(), ServiceFault>(f),
        Ok((next, force)) => commit_done(c, next, force, c2, r),
    }
}

pub open spec fn delete_plan(s: StateModel, id: Seq<char>) -> Result<(StateModel, bool), ServiceFault> {
    match crate::state::find_profile(s.profiles, id) {
        None => Err(not_found(id)),
        Some(k) => Ok((deleted_state(s, k), s.active_profile_id == Some(id))),
    }
}

pub open spec fn select_plan(s: StateModel, id: Seq<char>) -> Result<(StateModel, bool), ServiceFault> {
    match crate::state::find_profile(s.profiles, id) {
        None => Err(not_found(id)),
        Some(k) => Ok((selected_state(s, k), s.active_profile_id != Some(id))),
    }
}

/// The profiles after an intent's change of automatic connection keep
/// their ids in their places.
proof fn lemma_intent_keeps_ids(ps: Seq<ProfileModel>, k: int, enabled: bool, clear: bool)
    requires
        0 <= k < ps.len(),
    ensures
        ({
            let base = if clear {
                crate::state::all_manual(ps)
            } else {
                ps
            };
            let qs = set_auto(base, k, enabled);
            &&& qs.len() == ps.len()
            &&& forall|i: int| 0 <= i < ps.len() ==> #[trigger] ps[i].id == qs[i].id
            &&& qs[k].auto_connect == enabled
            &&& qs[k].id == ps[k].id
        }),
{
}

/// An automatic connection survives a restart of the service: once a
/// `Connect` intent is committed, the last state handed to the host to save
/// is the committed one, and a controller loaded from it starts the core
/// for that profile as soon as the network is available.
pub proof fn law_connect_survives_restart(
    c: ControllerModel,
    id: Seq<char>,
    c2: ControllerModel,
    retry_policy: RetryPolicy,
    now_ms: u64,
)
    requires
        plan_done(c, intent_plan(c.state, IntentModel::Connect(id)), c2, Ok::<(), ServiceFault>(())),
    ensures
        active_profile_of(c2.state) matches Some(p) && p.id == id && p.auto_connect,
        c2.host_calls.len() > 0 && c2.host_calls.last() == HostCall::SaveState(c2.state),
        reconcile_of(loaded(c2.state, retry_policy), now_ms, true).1 == ActionView::StartCore(id),
{
    let ps = c.state.profiles;
    crate::state::lemma_find_profile(ps, id);
    let k = find_profile_index(ps, id);
    lemma_intent_keeps_ids(ps, k, true, true);
    let qs = set_auto(crate::state::all_manual(ps), k, true);
    crate::state::lemma_find_profile_same_ids(ps, qs, id);
    assert(c2.state.profiles == qs);
}

/// A manual disconnect is durable: once `Disconnect` of the selected
/// profile is committed, the running service launches no core in the
/// reconciliation that follows, the last state handed to the host to save
/// is the committed one, and a service restarted from it starts nothing.
pub proof fn law_disconnect_survives_restart(
    c: ControllerModel,
    requested: Option<Seq<char>>,
    c2: ControllerModel,
    retry_policy: RetryPolicy,
    now_ms: u64,
    network_available: bool,
)
    requires
        requested is None || requested == c.state.active_profile_id,
        plan_done(c, intent_plan(c.state, IntentModel::Disconnect(requested)), c2, Ok::<(), ServiceFault>(())),
    ensures
        active_profile_of(c2.state) matches Some(p) && !p.auto_connect,
        c2.host_calls.len() > 0 && c2.host_calls.last() == HostCall::SaveState(c2.state),
        !crate::supervisor::launches(reconcile_of(c2, now_ms, network_available).1),
        reconcile_of(c2, now_ms, network_available).0.supervisor matches Some(s) && !s.desired,
        reconcile_of(loaded(c2.state, retry_policy), now_ms, network_available).1 == ActionView::Noop,
{
    let ps = c.state.profiles;
    let id = c.state.active_profile_id->0;
    crate::state::lemma_find_profile(ps, id);
    let k = find_profile_index(ps, id);
    lemma_intent_keeps_ids(ps, k, false, false);
    let qs = set_auto(ps, k, false);
    crate::state::lemma_find_profile_same_ids(ps, qs, id);
    assert(c2.state.profiles == qs);
}

/// Storing a profile (also by import or by a change of its flags) keeps
/// the durable state valid: it commits a valid state, or it is refused and
/// the controller, its live connection included, stays as it was.
pub proof fn law_upsert_keeps_state_valid(
    c: ControllerModel,
    input: ProfileModel,
    make_active: bool,
    c2: ControllerModel,
    r: Result<crate::protocol::ProfileViewModel, ServiceFault>,
)
    requires
        crate::state::state_valid(c.state),
        upsert_done(c, input, make_active, c2, r),
    ensures
        crate::state::state_valid(c2.state),
        r is Err ==> same_but_host_calls(c, c2),
{
    match r {
        Ok(v) => {
            let name = choose|name: Seq<char>| #[trigger] upsert_ok(c, input, make_active, c2, v, name);
            assert(upsert_ok(c, input, make_active, c2, v, name));
        },
        Err(_) => {},
    }
}

/// Deleting or selecting a profile and applying a connection intent keep
/// the durable state valid: each commits a valid state, or is refused and
/// leaves the controller as it was.
pub proof fn law_plan_keeps_state_valid(
    c: ControllerModel,
    plan: Result<(StateModel, bool), ServiceFault>,
    c2: ControllerModel,
    r: Result<(), ServiceFault>,
)
    requires
        crate::state::state_valid(c.state),
        plan_done(c, plan, c2, r),
    ensures
        crate::state::state_valid(c2.state),
        r is Err ==> same_but_host_calls(c, c2),
{
}

/// The position [`crate::state::find_profile`] finds, or zero.
pub open spec fn find_profile_index(ps: Seq<ProfileModel>, id: Seq<char>) -> int {
    match crate::state::find_profile(ps, id) {
        Some(k) => k,
        None => 0,
    }
}

impl<H: ServiceHost> ServiceController<H> {
    /// Validates and saves `next`, then adopts it.
    pub fn commit(&mut self, next: PersistedState, force_restart: bool) -> (r: Result<(), ServiceError>)
        ensures
            commit_done(old(self)@, next@, force_restart, final(self)@, unit_outcome(r)),
    {
        match next.validate() {
            Err(e) => {
                return Err(ServiceError::State(e));
            },
            Ok(()) => {},
        }
        match self.save_with_host(&next) {
            Err(e) => {
                return Err(ServiceError::State(e));
            },
            Ok(()) => {},
        }
        self.state = next;
        self.reconciliation_needed = true;
        self.force_restart = self.force_restart || force_restart;
        Ok(())
    }

    /// Hands `state` to the host to save durably.
    fn save_with_host(&mut self, state: &PersistedState) -> (r: Result<(), StateError>)
        ensures
            final(self)@ == with_host_call(old(self)@, HostCall::SaveState(state@)),
    {
        let r = self.host.save_state(state);
        proof {
            self.host_calls@ = self.host_calls@.push(HostCall::SaveState(state@));
        }
        r
    }

    /// Hands the rendered configuration `config` of profile `profile_id`
    /// to the host for a check by the bundled core.
    fn check_with_host(&mut self, profile_id: &str, config: &str) -> (r: CoreCheckRun)
        ensures
            final(self)@ == with_host_call(
                old(self)@,
                HostCall::CheckCore { profile_id: profile_id@, config: config@ },
            ),
    {
        let r = self.host.run_core_config_check(profile_id, config);
        proof {
            self.host_calls@ = self.host_calls@.push(
                HostCall::CheckCore { profile_id: profile_id@, config: config@ },
            );
        }
        r
    }

    /// Checks the profile's rendered configuration with the bundled core.
    /// Only the category of a failure, never the core's output, is kept.
    fn validate_profile_with_core(&mut self, profile: &NetworkProfile) -> (r: Result<(), ServiceError>)
        ensures
            final(self)@ == checked(old(self)@, profile@),
            exists|run: CoreCheckView|
                match #[trigger] profile_check(profile@, run) {
                    None => r is Ok,
                    Some(f) => r matches Err(e) && e@ == f,
                },
    {
        let config = match profile.render_core_toml() {
            Ok(t) => t,
            Err(e) => {
                assert(profile_check(profile@, CoreCheckView::Passed) == Some(
                    ServiceFault::State(StateFault::Profile(e@)),
                ));
                return Err(ServiceError::State(StateError::Profile(e)));
            },
        };
        let run = self.check_with_host(profile.id.as_str(), config.as_str());
        let ghost seen = run@;
        let r = core_check_result(run);
        assert(profile_check(profile@, seen) == core_check_fault(seen));
        r
    }

    /// Stores a profile after resolving a blank device name, validating it
    /// and checking it with the bundled core; an invalid change leaves the
    /// stored profile and its live connection untouched.
    pub fn upsert_profile(&mut self, input: ProfileUpsert) -> (r: Result<ProfileView, ServiceError>)
        ensures
            upsert_done(old(self)@, input.profile@, input.make_active, final(self)@, view_outcome(r)),
    {
        let ProfileUpsert { mut profile, make_active } = input;
        let ghost original = profile@;
        let ghost mut name_text: Seq<char> = Seq::empty();
        if crate::text::str_blank(profile.hostname.as_str()) {
            let name = self.host.local_computer_name();
            proof {
                name_text = name@;
            }
            profile.apply_default_hostname(name);
        }
        assert(profile@ == resolved_hostname(original, name_text));
        match profile.validate() {
            Err(e) => {
                assert(upsert_reached(old(self)@, original, make_active, name_text, CoreCheckView::Passed, self@, Err(ServiceFault::Profile(e@))));
                return Err(ServiceError::Profile(e));
            },
            Ok(()) => {},
        }
        match self.validate_profile_with_core(&profile) {
            Ok(()) => {},
            Err(e) => {
                proof {
                    let run = choose|run: CoreCheckView|
                        match #[trigger] profile_check(profile@, run) {
                            None => false,
                            Some(f) => e@ == f,
                        };
                    assert(upsert_reached(old(self)@, original, make_active, name_text, run, self@, Err(e@)));
                }
                return Err(e);
            },
        }
        let ghost passed = choose|run: CoreCheckView| #[trigger] profile_check(profile@, run) is None;
        let view = ProfileView::from_profile(&profile);
        let was_active = match &self.state.active_profile_id {
            Some(active) => str_eq(active.as_str(), profile.id.as_str()),
            None => false,
        };
        let mut next = self.state.duplicate();
        if make_active || profile.auto_connect {
            next.clear_auto_connect();
            next.active_profile_id = Some(profile.id.clone());
        } else if next.active_profile_id.is_none() {
            next.active_profile_id = Some(profile.id.clone());
        }
        let id = profile.id.clone();
        let ghost p = profile@;
        next.upsert(profile);
        let is_active = match &next.active_profile_id {
            Some(active) => str_eq(active.as_str(), id.as_str()),
            None => false,
        };
        assert(next@ == upsert_state(old(self)@.state, p, make_active));
        match self.commit(next, was_active || is_active) {
            Ok(()) => {
                assert(upsert_ok(old(self)@, original, make_active, self@, view@, name_text));
                assert(upsert_reached(old(self)@, original, make_active, name_text, passed, self@, Ok(view@)));
                Ok(view)
            },
            Err(e) => {
                assert(upsert_reached(old(self)@, original, make_active, name_text, passed, self@, Err(e@)));
                Err(e)
            },
        }
    }

    /// Replaces the flags of a stored profile, keeping its secret; stored as
    /// [`ServiceController::upsert_profile`] stores, keeping it selected if
    /// it was.
    pub fn update_profile_flags(&mut self, profile_id: String, flags: EasyTierFlags) -> (r: Result<ProfileView, ServiceError>)
        ensures
            flags_updated(old(self)@, profile_id@, flags, final(self)@, view_outcome(r)),
    {
        let was_active = match &self.state.active_profile_id {
            Some(active) => str_eq(active.as_str(), profile_id.as_str()),
            None => false,
        };
        let mut profile = match self.state.get(profile_id.as_str()) {
            Some(p) => p.duplicate(),
            None => {
                return Err(ServiceError::ProfileNotFound(profile_id));
            },
        };
        profile.flags = flags;
        self.upsert_profile(ProfileUpsert { profile, make_active: was_active })
    }

    /// Imports a core configuration document and stores it as
    /// [`ServiceController::upsert_profile`] stores.
    pub fn import_profile(&mut self, toml: String, make_active: bool) -> (r: Result<ProfileView, ServiceError>)
        ensures
            imported(old(self)@, toml@, make_active, final(self)@, view_outcome(r)),
    {
        let name = self.host.local_computer_name();
        let ghost name_text = name@;
        let profile = match NetworkProfile::from_whitelisted_toml(toml.as_str(), name) {
            Ok(p) => p,
            Err(e) => {
                proof {
                    if crate::profile::import_fault(toml@) is None {
                        let q = choose|q: ProfileModel|
                            #[trigger] crate::profile::import_matches(q, toml@, name_text) && (
                            crate::profile::flags_fault(q.flags) == Some(e@) || (
                            crate::profile::flags_fault(q.flags) is None && profile_fault(q) == Some(
                                e@,
                            )));
                        assert(crate::profile::import_matches(q, toml@, name_text));
                    }
                }
                return Err(ServiceError::Profile(e));
            },
        };
        let ghost p = profile@;
        let r = self.upsert_profile(ProfileUpsert { profile, make_active });
        assert(crate::profile::import_matches(p, toml@, name_text));
        r
    }

    /// The core configuration document of a stored profile; nothing changes.
    pub fn export_profile_toml(&self, profile_id: &str) -> (r: Result<String, ServiceError>)
        ensures
            text_outcome(r) == exported(self@.state, profile_id@),
    {
        match self.state.get(profile_id) {
            None => Err(ServiceError::ProfileNotFound(owned(profile_id))),
            Some(p) => match p.render_core_toml() {
                Ok(t) => Ok(t),
                Err(e) => Err(ServiceError::Profile(e)),
            },
        }
    }

    /// Removes a stored profile.
    pub fn delete_profile(&mut self, profile_id: &str) -> (r: Result<(), ServiceError>)
        ensures
            plan_done(old(self)@, delete_plan(old(self)@.state, profile_id@), final(self)@, unit_outcome(r)),
    {
        let k = match self.state.find(profile_id) {
            Some(k) => k,
            None => {
                return Err(ServiceError::ProfileNotFound(owned(profile_id)));
            },
        };
        let was_active = match &self.state.active_profile_id {
            Some(active) => str_eq(active.as_str(), profile_id),
            None => false,
        };
        let mut next = self.state.duplicate();
        next.remove_at(k);
        if was_active {
            next.active_profile_id = if next.profiles.len() > 0 {
                Some(next.profiles[0].id.clone())
            } else {
                None
            };
        }
        assert(next@ == deleted_state(old(self)@.state, k as int));
        self.commit(next, was_active)
    }

    /// Selects a stored profile; no profile connects automatically after.
    pub fn select_active_profile(&mut self, profile_id: &str) -> (r: Result<(), ServiceError>)
        ensures
            plan_done(old(self)@, select_plan(old(self)@.state, profile_id@), final(self)@, unit_outcome(r)),
    {
        let k = match self.state.find(profile_id) {
            Some(k) => k,
            None => {
                return Err(ServiceError::ProfileNotFound(owned(profile_id)));
            },
        };
        let was_active = match &self.state.active_profile_id {
            Some(active) => str_eq(active.as_str(), profile_id),
            None => false,
        };
        let mut next = self.state.duplicate();
        next.clear_auto_connect();
        next.active_profile_id = Some(owned(profile_id));
        assert(next@ == selected_state(old(self)@.state, k as int));
        self.commit(next, !was_active)
    }

    /// Applies a durable connection intent.
    pub fn apply_intent(&mut self, intent: ConnectionIntent) -> (r: Result<(), ServiceError>)
        ensures
            plan_done(old(self)@, intent_plan(old(self)@.state, intent@), final(self)@, unit_outcome(r)),
    {
        let mut next = self.state.duplicate();
        let restart = match intent {
            ConnectionIntent::Connect { profile_id } => {
                let k = match next.find(profile_id.as_str()) {
                    Some(k) => k,
                    None => {
                        return Err(ServiceError::ProfileNotFound(profile_id));
                    },
                };
                next.clear_auto_connect();
                next.set_auto_connect_at(k, true);
                next.active_profile_id = Some(profile_id);
                true
            },
            ConnectionIntent::Disconnect { profile_id } => {
                let id = match profile_id {
                    Some(id) => id,
                    None => match &next.active_profile_id {
                        Some(active) => active.clone(),
                        None => {
                            return Err(ServiceError::NoActiveProfile);
                        },
                    },
                };
                let k = match next.find(id.as_str()) {
                    Some(k) => k,
                    None => {
                        return Err(ServiceError::ProfileNotFound(id));
                    },
                };
                next.set_auto_connect_at(k, false);
                true
            },
            ConnectionIntent::SetAutoConnect { profile_id, enabled } => {
                let k = match next.find(profile_id.as_str()) {
                    Some(k) => k,
                    None => {
                        return Err(ServiceError::ProfileNotFound(profile_id));
                    },
                };
                if enabled {
                    next.clear_auto_connect();
                    next.active_profile_id = Some(profile_id.clone());
                }
                next.set_auto_connect_at(k, enabled);
                match &next.active_profile_id {
                    Some(active) => str_eq(active.as_str(), profile_id.as_str()),
                    None => false,
                }
            },
        };
        self.commit(next, restart)
    }
}


// ---------------------------------------------------------------------------
// RPC
// ---------------------------------------------------------------------------

/// `r` answers request `request_id`: with a result that `ok` accepts, or
/// with the code and message of fault `f`.
pub open spec fn replies(r: RpcResponse, request_id: u64, outcome: Result<spec_fn(RpcResult) -> bool, ServiceFault>) -> bool {
    &&& r.protocol_version == PROTOCOL_VERSION
    &&& r.request_id == request_id
    &&& match outcome {
        Ok(ok) => r.error is None && r.result is Some && ok(r.result->0),
        Err(f) => r.result is None && r.error is Some && r.error->0.code == error_code(f)
            && r.error->0.message@ == service_fault_text(f),
    }
}

/// The reply for an operation that ends in `outcome`, whose success `ok`
/// describes.
pub open spec fn reply_for<T>(outcome: Result<T, ServiceFault>, ok: spec_fn(T, RpcResult) -> bool) -> Result<
    spec_fn(RpcResult) -> bool,
    ServiceFault,
> {
    match outcome {
        Ok(v) => Ok(|x: RpcResult| ok(v, x)),
        Err(f) => Err(f),
    }
}

pub open spec fn saved(v: crate::protocol::ProfileViewModel, x: RpcResult) -> bool {
    x matches RpcResult::ProfileSaved(pv) && pv@ == v
}

pub open spec fn saved_reply() -> spec_fn(crate::protocol::ProfileViewModel, RpcResult) -> bool {
    |v: crate::protocol::ProfileViewModel, x: RpcResult| saved(v, x)
}

pub open spec fn deleted_reply(profile_id: Seq<char>) -> spec_fn((), RpcResult) -> bool {
    |u: (), x: RpcResult| (x matches RpcResult::ProfileDeleted { profile_id: id } && id@ == profile_id)
}

pub open spec fn status_reply(c: ControllerModel) -> spec_fn((), RpcResult) -> bool {
    |u: (), x: RpcResult|
        (x matches RpcResult::ActiveProfileSelected(s) && s@ == status_of(c)) || (
        x matches RpcResult::IntentApplied(s) && s@ == status_of(c))
}

fn error_response(request_id: u64, error: ServiceError) -> (r: RpcResponse)
    ensures
        replies(r, request_id, Err::<spec_fn(RpcResult) -> bool, ServiceFault>(error@)),
{
    let code = rpc_error_code(&error);
    RpcResponse::error(request_id, code, error.message())
}

/// Whether the controller's supervisor, if any, schedules a retry exactly
/// while backing off or degraded and stops an undesired profile.
pub open spec fn supervisor_timed(c: ControllerModel) -> bool {
    match c.supervisor {
        Some(s) => crate::supervisor::timers_follow_state(s),
        None => true,
    }
}

/// A loaded controller has no supervisor, and every change of the
/// controller by reconciliation, by a carried-out supervisor action, by a
/// poll for an exit, by a commit or by a supervisor transition keeps
/// `supervisor_timed`.
pub proof fn law_controller_keeps_supervisor_timed(
    c: ControllerModel,
    state: StateModel,
    next: StateModel,
    force: bool,
    now_ms: u64,
    network_available: bool,
    a: ActionView,
    reports: RunnerReports,
    polled: Result<Option<Seq<char>>, ServiceFault>,
    s: SupervisorView,
)
    requires
        supervisor_timed(c),
        crate::supervisor::timers_follow_state(s),
    ensures
        supervisor_timed(loaded(state, c.retry_policy)),
        supervisor_timed(reconcile_of(c, now_ms, network_available).0),
        supervisor_timed(action_carried_out(c, a, now_ms, reports).0),
        supervisor_timed(poll_recorded(c, polled, now_ms)),
        supervisor_timed(committed(c, next, force)),
        supervisor_timed(with_supervisor(c, Some(s))),
{
    let healthy = match reports.sampled {
        Ok(sample) => sample.spec_healthy(),
        Err(_) => false,
    };
    let running = match reports.sampled {
        Ok(sample) => sample.core_process_running,
        Err(_) => false,
    };
    let peers = match reports.sampled {
        Ok(sample) => sample.connected_peer_count,
        Err(_) => None,
    };
    let policy = c.retry_policy;
    match active_profile_of(c.state) {
        Some(p) => {
            crate::supervisor::law_reachable_supervisors_keep_timers_and_intent(
                crate::supervisor::initial_view(p.id, p.auto_connect, policy),
                now_ms,
                network_available,
                healthy,
                running,
                peers,
                p.id,
                policy,
            );
            crate::supervisor::law_reachable_supervisors_keep_timers_and_intent(
                crate::supervisor::initial_view(p.id, p.auto_connect, policy),
                now_ms,
                p.auto_connect,
                healthy,
                running,
                peers,
                p.id,
                policy,
            );
        },
        None => {},
    }
    match c.supervisor {
        Some(s0) => {
            crate::supervisor::law_reachable_supervisors_keep_timers_and_intent(
                s0,
                now_ms,
                network_available,
                healthy,
                running,
                peers,
                s0.profile_id,
                policy,
            );
            match active_profile_of(c.state) {
                Some(p) => {
                    crate::supervisor::law_reachable_supervisors_keep_timers_and_intent(
                        s0,
                        now_ms,
                        p.auto_connect,
                        healthy,
                        running,
                        peers,
                        p.id,
                        policy,
                    );
                },
                None => {},
            }
        },
        None => {},
    }
}

/// The status that a controller with `supervisor_timed` reports: the
/// current protocol version; connected only with a known, positive peer
/// count; a retry time exactly while recovering or failed.
pub proof fn law_status_reports_retry_while_recovering(c: ControllerModel)
    requires
        supervisor_timed(c),
    ensures
        status_of(c).protocol_version == PROTOCOL_VERSION,
        status_of(c).state == ServiceConnectionState::Connected ==> status_of(c).peer_count_available
            && status_of(c).peer_count > 0,
        status_of(c).retry_at_unix_ms is Some <==> (status_of(c).state == ServiceConnectionState::Recovering
            || status_of(c).state == ServiceConnectionState::Failed),
{
}

/// Reconciliation settles: right after it, a further reconciliation does
/// nothing at any time and on any network, and no supervisor event, carried
/// out action or poll for an exit asks for one again; only a durable change
/// does.
pub proof fn law_reconcile_settles(
    c: ControllerModel,
    t1: u64,
    n1: bool,
    t2: u64,
    n2: bool,
    a: ActionView,
    reports: RunnerReports,
    polled: Result<Option<Seq<char>>, ServiceFault>,
    s: SupervisorView,
)
    ensures
        !reconcile_of(c, t1, n1).0.reconciliation_needed,
        reconcile_of(reconcile_of(c, t1, n1).0, t2, n2) == (reconcile_of(c, t1, n1).0, ActionView::Noop),
        !c.reconciliation_needed ==> !action_carried_out(c, a, t2, reports).0.reconciliation_needed,
        !c.reconciliation_needed ==> !poll_recorded(c, polled, t2).reconciliation_needed,
        !c.reconciliation_needed ==> !with_supervisor(c, Some(s)).reconciliation_needed,
{
}

/// How one RPC request is answered: a request of another protocol version
/// is refused without effect; otherwise each command changes the controller
/// `c` into `c2` and replies with `r` as the method of the same name
/// describes.
pub open spec fn request_handled(c: ControllerModel, request: RpcRequest, c2: ControllerModel, r: RpcResponse) -> bool {
    &&& (r.protocol_version == PROTOCOL_VERSION)
    &&& (r.request_id == request.request_id)
    &&& (request.protocol_version != PROTOCOL_VERSION ==> c2 == c && r.result is None
            && (r.error matches Some(err) && err.code == RpcErrorCode::UnsupportedVersion
            && err.message@ == "protocol version "@ + decimal_text(request.protocol_version as nat)
            + " is unsupported"@))
    &&& (request.protocol_version == PROTOCOL_VERSION ==> match request.command {
            RpcCommand::Ping => c2 == c && r.error is None && r.result == Some(RpcResult::Pong),
            RpcCommand::GetStatus => c2 == c && r.error is None && (r.result matches Some(
                RpcResult::Status(s),
            ) && s@ == status_of(c)),
            RpcCommand::ListProfiles => c2 == c && r.error is None && (r.result matches Some(
                RpcResult::Profiles(v),
            ) && v@.len() == c.state.profiles.len() && forall|i: int|
                0 <= i < v@.len() ==> (#[trigger] v@[i])@ == crate::protocol::view_of(
                    c.state.profiles[i],
                )),
            RpcCommand::ListPeers => c2 == c && r.error is None && (r.result matches Some(
                RpcResult::Peers(v),
            ) && crate::protocol::peer_models(v@) == match c.observed_peers {
                Some(p) => p,
                None => Seq::empty(),
            }),
            RpcCommand::UpsertProfile(input) => exists|
                outcome: Result<crate::protocol::ProfileViewModel, ServiceFault>,
            |
                upsert_done(c, input.profile@, input.make_active, c2, outcome)
                    && #[trigger] replies(r, request.request_id, reply_for(outcome, saved_reply())),
            RpcCommand::DeleteProfile { profile_id } => exists|outcome: Result<(), ServiceFault>|
                plan_done(
                    c,
                    delete_plan(c.state, profile_id@),
                    c2,
                    outcome,
                ) && #[trigger] replies(r, request.request_id, reply_for(outcome, deleted_reply(profile_id@))),
            RpcCommand::SetActiveProfile { profile_id } => exists|outcome: Result<(), ServiceFault>|
                plan_done(
                    c,
                    select_plan(c.state, profile_id@),
                    c2,
                    outcome,
                ) && #[trigger] replies(r, request.request_id, reply_for(outcome, status_reply(c2))),
            RpcCommand::SetConnectionIntent { intent } => exists|outcome: Result<(), ServiceFault>|
                plan_done(
                    c,
                    intent_plan(c.state, intent@),
                    c2,
                    outcome,
                ) && #[trigger] replies(r, request.request_id, reply_for(outcome, status_reply(c2))),
            RpcCommand::UpdateProfileFlags { profile_id, flags } => exists|
                outcome: Result<crate::protocol::ProfileViewModel, ServiceFault>,
            |
                flags_updated(c, profile_id@, flags, c2, outcome)
                    && #[trigger] replies(r, request.request_id, reply_for(outcome, saved_reply())),
            RpcCommand::ImportProfile { toml, make_active } => exists|
                outcome: Result<crate::protocol::ProfileViewModel, ServiceFault>,
            |
                imported(c, toml@, make_active, c2, outcome)
                    && #[trigger] replies(r, request.request_id, reply_for(outcome, saved_reply())),
            RpcCommand::ExportProfile { profile_id } => c2 == c && replies(
                r,
                request.request_id,
                reply_for(exported(c.state, profile_id@), exported_reply(profile_id@)),
            ),
            RpcCommand::TailLogs { limit } => c2 == c && exists|
                outcome: Result<Seq<(Seq<char>, Seq<char>)>, ServiceFault>,
            |
                (outcome matches Ok(lines) ==> exists|files: Seq<(Seq<char>, Seq<char>)>|
                    lines == #[trigger] tail_of(files, secrets_of(c.state.profiles), limit))
                    && #[trigger] replies(r, request.request_id, reply_for(outcome, logs_reply())),
            RpcCommand::ClearLogs => c2 == c && exists|outcome: Result<(), ServiceFault>|
                #[trigger] replies(r, request.request_id, reply_for(outcome, cleared_reply())),
        })
}

pub open spec fn exported_reply(profile_id: Seq<char>) -> spec_fn(Seq<char>, RpcResult) -> bool {
    |t: Seq<char>, x: RpcResult|
        (x matches RpcResult::ProfileToml { profile_id: id, toml } && id@ == profile_id && toml@ == t)
}

pub open spec fn logs_reply() -> spec_fn(Seq<(Seq<char>, Seq<char>)>, RpcResult) -> bool {
    |lines: Seq<(Seq<char>, Seq<char>)>, x: RpcResult| (x matches RpcResult::Logs(v) && line_models(v@) == lines)
}

pub open spec fn cleared_reply() -> spec_fn((), RpcResult) -> bool {
    |u: (), x: RpcResult| x == RpcResult::LogsCleared
}

impl<H: ServiceHost> RpcHandler for ServiceController<H> {
    /// Answers the request as [`ServiceController::handle_request`] does.
    fn handle_rpc(&mut self, request: RpcRequest) -> (r: RpcResponse)
        ensures
            request_handled(old(self)@, request, final(self)@, r),
    {
        self.handle_request(request)
    }
}

impl<H: ServiceHost> ServiceController<H> {
    /// Answers one RPC request.  A request of another protocol version is
    /// refused without effect; otherwise the command runs as the method of
    /// the same name describes, and an error is reported by its RPC code
    /// and message.
    #[verifier::rlimit(100)]
    #[verifier::spinoff_prover]
    pub fn handle_request(&mut self, request: RpcRequest) -> (r: RpcResponse)
        ensures
            request_handled(old(self)@, request, final(self)@, r),
    {
        if request.protocol_version != PROTOCOL_VERSION {
            let message = concat3(
                "protocol version ",
                decimal_string(request.protocol_version as u64).as_str(),
                " is unsupported",
            );
            return RpcResponse::error(request.request_id, RpcErrorCode::UnsupportedVersion, message);
        }
        let id = request.request_id;
        match request.command {
            RpcCommand::Ping => RpcResponse::ok(id, RpcResult::Pong),
            RpcCommand::GetStatus => RpcResponse::ok(id, RpcResult::Status(self.status())),
            RpcCommand::ListProfiles => RpcResponse::ok(id, RpcResult::Profiles(self.profile_views())),
            RpcCommand::ListPeers => RpcResponse::ok(id, RpcResult::Peers(self.connected_peers())),
            RpcCommand::UpsertProfile(input) => self.rpc_upsert(id, input),
            RpcCommand::UpdateProfileFlags { profile_id, flags } => {
                let r = self.update_profile_flags(profile_id, flags);
                let ghost o = view_outcome(r);
                let response = Self::rpc_saved(r, id);
                assert(replies(response, id, reply_for(o, saved_reply())));
                response
            },
            RpcCommand::ImportProfile { toml, make_active } => {
                let r = self.import_profile(toml, make_active);
                let ghost o = view_outcome(r);
                let response = Self::rpc_saved(r, id);
                assert(replies(response, id, reply_for(o, saved_reply())));
                response
            },
            RpcCommand::ExportProfile { profile_id } => {
                let ghost text = profile_id@;
                match self.export_profile_toml(profile_id.as_str()) {
                    Ok(toml) => {
                        let response = RpcResponse::ok(id, RpcResult::ProfileToml { profile_id, toml });
                        proof {
                            let ok = reply_for(exported(self@.state, text), exported_reply(text));
                            assert((ok->Ok_0)(response.result->0));
                        }
                        response
                    },
                    Err(e) => error_response(id, e),
                }
            },
            RpcCommand::DeleteProfile { profile_id } => {
                let r = self.delete_profile(profile_id.as_str());
                let ghost text = profile_id@;
                Self::rpc_unit(
                    r,
                    id,
                    RpcResult::ProfileDeleted { profile_id },
                    Ghost(deleted_reply(text)),
                )
            },
            RpcCommand::SetActiveProfile { profile_id } => {
                let r = self.select_active_profile(profile_id.as_str());
                let status = self.status();
                Self::rpc_unit(r, id, RpcResult::ActiveProfileSelected(status), Ghost(status_reply(self@)))
            },
            RpcCommand::SetConnectionIntent { intent } => {
                let r = self.apply_intent(intent);
                let status = self.status();
                Self::rpc_unit(r, id, RpcResult::IntentApplied(status), Ghost(status_reply(self@)))
            },
            RpcCommand::TailLogs { limit } => {
                match self.tail_logs(limit) {
                    Ok(lines) => {
                        let ghost l = line_models(lines@);
                        let response = RpcResponse::ok(id, RpcResult::Logs(lines));
                        proof {
                            let ok = reply_for(Ok::<Seq<(Seq<char>, Seq<char>)>, ServiceFault>(l), logs_reply());
                            assert((ok->Ok_0)(response.result->0));
                            assert(replies(response, id, ok));
                        }
                        response
                    },
                    Err(e) => {
                        let ghost f = e@;
                        let response = error_response(id, e);
                        assert(replies(response, id, reply_for(Err::<Seq<(Seq<char>, Seq<char>)>, ServiceFault>(f), logs_reply())));
                        response
                    },
                }
            },
            RpcCommand::ClearLogs => {
                let r = self.clear_logs();
                let ghost o = unit_outcome(r);
                let response = Self::rpc_unit(r, id, RpcResult::LogsCleared, Ghost(cleared_reply()));
                assert(replies(response, id, reply_for(o, cleared_reply())));
                response
            },
        }
    }

    fn rpc_upsert(&mut self, id: u64, input: ProfileUpsert) -> (r: RpcResponse)
        ensures
            exists|outcome: Result<crate::protocol::ProfileViewModel, ServiceFault>|
                upsert_done(old(self)@, input.profile@, input.make_active, final(self)@, outcome)
                    && #[trigger] replies(r, id, reply_for(outcome, saved_reply())),
    {
        let ghost profile = input.profile@;
        let ghost make_active = input.make_active;
        let outcome = self.upsert_profile(input);
        let ghost o = view_outcome(outcome);
        match outcome {
            Ok(view) => {
                let r = RpcResponse::ok(id, RpcResult::ProfileSaved(view));
                proof {
                    let ok = reply_for(o, saved_reply());
                    assert(ok is Ok);
                    assert((ok->Ok_0)(r.result->0));
                    assert(replies(r, id, ok));
                }
                r
            },
            Err(e) => error_response(id, e),
        }
    }

    fn rpc_saved(r: Result<ProfileView, ServiceError>, id: u64) -> (response: RpcResponse)
        ensures
            replies(response, id, reply_for(view_outcome(r), saved_reply())),
    {
        let ghost o = view_outcome(r);
        match r {
            Ok(view) => {
                let response = RpcResponse::ok(id, RpcResult::ProfileSaved(view));
                proof {
                    let ok = reply_for(o, saved_reply());
                    assert((ok->Ok_0)(response.result->0));
                }
                response
            },
            Err(e) => error_response(id, e),
        }
    }

    fn rpc_unit(r: Result<(), ServiceError>, id: u64, success: RpcResult, ok: Ghost<spec_fn((), RpcResult) -> bool>) -> (response: RpcResponse)
        requires
            r is Ok ==> ok@((), success),
        ensures
            replies(response, id, reply_for(unit_outcome(r), ok@)),
    {
        match r {
            Ok(()) => {
                let response = RpcResponse::ok(id, success);
                proof {
                    let f = reply_for(unit_outcome(r), ok@);
                    assert((f->Ok_0)(response.result->0));
                }
                response
            },
            Err(e) => error_response(id, e),
        }
    }

    /// Removes the core's log history.
    pub fn clear_logs(&mut self) -> (r: Result<(), ServiceError>)
        ensures
            final(self)@ == old(self)@,
    {
        self.host.clear_core_logs()
    }
}


// ---------------------------------------------------------------------------
// Core log records
// ---------------------------------------------------------------------------

/// A log line without a leading byte-order mark and `[`.
pub open spec fn without_log_prefix(l: Seq<char>) -> Seq<char> {
    let a = if l.len() > 0 && l[0] == '\u{feff}' {
        l.drop_first()
    } else {
        l
    };
    if a.len() > 0 && a[0] == '[' {
        a.drop_first()
    } else {
        a
    }
}

pub open spec fn digits_at(b: Seq<char>, lo: int, hi: int) -> bool {
    forall|k: int| lo <= k < hi ==> crate::text::is_ascii_digit(#[trigger] b[k])
}

/// A line that starts a core log record: an ISO-8601 timestamp
/// `YYYY-MM-DDTHH:MM:SS` (or with a space before the time), optionally after
/// a byte-order mark and `[`.
pub open spec fn record_start(l: Seq<char>) -> bool {
    let b = without_log_prefix(l);
    &&& b.len() >= 19
    &&& digits_at(b, 0, 4)
    &&& b[4] == '-'
    &&& digits_at(b, 5, 7)
    &&& b[7] == '-'
    &&& digits_at(b, 8, 10)
    &&& (b[10] == 'T' || b[10] == ' ')
    &&& digits_at(b, 11, 13)
    &&& b[13] == ':'
    &&& digits_at(b, 14, 16)
    &&& b[16] == ':'
    &&& digits_at(b, 17, 19)
}

fn digits_in(b: &[char], lo: usize, hi: usize) -> (r: bool)
    requires
        lo <= hi <= b@.len(),
    ensures
        r == digits_at(b@, lo as int, hi as int),
{
    let mut k: usize = lo;
    while k < hi
        invariant
            lo <= k <= hi <= b@.len(),
            forall|j: int| lo <= j < k ==> crate::text::is_ascii_digit(#[trigger] b@[j]),
        decreases hi - k,
    {
        if !crate::text::is_digit(b[k]) {
            return false;
        }
        k = k + 1;
    }
    true
}

fn record_start_chars(line: &[char]) -> (r: bool)
    ensures
        r == record_start(line@),
{
    let mut lo: usize = 0;
    if line.len() > 0 && line[0] == '\u{feff}' {
        lo = 1;
    }
    if lo < line.len() && line[lo] == '[' {
        lo = lo + 1;
    }
    let b = crate::text::chars_slice(line, lo, line.len());
    proof {
        let a = if line@.len() > 0 && line@[0] == '\u{feff}' {
            line@.drop_first()
        } else {
            line@
        };
        if line@.len() > 0 && line@[0] == '\u{feff}' {
            assert(a =~= line@.subrange(1, line@.len() as int));
        } else {
            assert(a =~= line@.subrange(0, line@.len() as int));
        }
        if a.len() > 0 && a[0] == '[' {
            assert(a.drop_first() =~= b@);
        } else {
            assert(a =~= b@);
        }
    }
    b.len() >= 19 && digits_in(b.as_slice(), 0, 4) && b[4] == '-' && digits_in(b.as_slice(), 5, 7)
        && b[7] == '-' && digits_in(b.as_slice(), 8, 10) && (b[10] == 'T' || b[10] == ' ')
        && digits_in(b.as_slice(), 11, 13) && b[13] == ':' && digits_in(b.as_slice(), 14, 16)
        && b[16] == ':' && digits_in(b.as_slice(), 17, 19)
}

pub fn is_core_log_record_start(line: &str) -> (r: bool)
    ensures
        r == record_start(line@),
{
    let chars = chars_vec(line);
    record_start_chars(chars.as_slice())
}

/// Grouping step: a record start closes the open record; other lines
/// continue it, or stand alone when no record is open and they are not
/// blank (the tail of a rotated file).
pub open spec fn group_step(acc: (Seq<Seq<char>>, Option<Seq<char>>), line: Seq<char>) -> (
    Seq<Seq<char>>,
    Option<Seq<char>>,
) {
    if record_start(line) {
        (
            match acc.1 {
                Some(r) => acc.0.push(crate::text::trim_end(r)),
                None => acc.0,
            },
            Some(line),
        )
    } else {
        match acc.1 {
            Some(r) => (acc.0, Some(r + seq!['\n'] + line)),
            None => if !is_blank(line) {
                (acc.0.push(line), None)
            } else {
                (acc.0, None)
            },
        }
    }
}

pub open spec fn group_upto(ls: Seq<Seq<char>>, n: int) -> (Seq<Seq<char>>, Option<Seq<char>>)
    decreases n,
{
    if n <= 0 {
        (Seq::empty(), None)
    } else {
        group_step(group_upto(ls, n - 1), ls[n - 1])
    }
}

pub open spec fn nonblank_upto(ls: Seq<Seq<char>>, n: int) -> Seq<Seq<char>>
    decreases n,
{
    if n <= 0 {
        Seq::empty()
    } else if is_blank(ls[n - 1]) {
        nonblank_upto(ls, n - 1)
    } else {
        nonblank_upto(ls, n - 1).push(ls[n - 1])
    }
}

/// The records of a core log: multi-line events grouped under their
/// timestamped first line; without any timestamped line, the non-blank
/// lines.
pub open spec fn log_records(content: Seq<char>) -> Seq<Seq<char>> {
    let ls = crate::text::lines_of(content);
    if exists|i: int| 0 <= i < ls.len() && record_start(#[trigger] ls[i]) {
        let acc = group_upto(ls, ls.len() as int);
        match acc.1 {
            Some(r) => acc.0.push(crate::text::trim_end(r)),
            None => acc.0,
        }
    } else {
        nonblank_upto(ls, ls.len() as int)
    }
}

fn push_line(record: &mut Vec<char>, line: &[char])
    ensures
        final(record)@ == old(record)@ + seq!['\n'] + line@,
{
    record.push('\n');
    let ghost base = record@;
    let mut k: usize = 0;
    while k < line.len()
        invariant
            k <= line@.len(),
            record@ == base + line@.take(k as int),
        decreases line@.len() - k,
    {
        record.push(line[k]);
        k = k + 1;
        assert(line@.take(k as int) =~= line@.take(k - 1).push(line@[k - 1]));
    }
    assert(line@.take(k as int) =~= line@);
}

pub fn parse_core_log_records(content: &str) -> (r: Vec<String>)
    ensures
        crate::profile::texts(r@) == log_records(content@),
{
    let chars = chars_vec(content);
    let lines = crate::text::chars_lines(chars.as_slice());
    let ghost ls = crate::text::lines_of(content@);
    assert(crate::text::char_rows(lines@) == ls);
    let mut structured = false;
    let mut i: usize = 0;
    while i < lines.len()
        invariant
            i <= lines@.len(),
            crate::text::char_rows(lines@) == ls,
            structured == exists|j: int| 0 <= j < i && record_start(#[trigger] ls[j]),
        decreases lines@.len() - i,
    {
        assert(ls[i as int] == lines@[i as int]@);
        if record_start_chars(lines[i].as_slice()) {
            structured = true;
        }
        i = i + 1;
    }
    let mut out: Vec<String> = Vec::new();
    if !structured {
        let mut i: usize = 0;
        while i < lines.len()
            invariant
                i <= lines@.len(),
                crate::text::char_rows(lines@) == ls,
                crate::profile::texts(out@) == nonblank_upto(ls, i as int),
            decreases lines@.len() - i,
        {
            assert(ls[i as int] == lines@[i as int]@);
            if !crate::text::chars_blank(lines[i].as_slice()) {
                let line = crate::text::string_from_chars(lines[i].as_slice());
                proof {
                    assert(crate::profile::texts(out@.push(line)) =~= crate::profile::texts(out@).push(line@));
                }
                out.push(line);
            }
            i = i + 1;
        }
        return out;
    }
    let mut current: Option<Vec<char>> = None;
    let mut i: usize = 0;
    while i < lines.len()
        invariant
            i <= lines@.len(),
            crate::text::char_rows(lines@) == ls,
            (crate::profile::texts(out@), match current {
                Some(c) => Some(c@),
                None => None,
            }) == group_upto(ls, i as int),
        decreases lines@.len() - i,
    {
        assert(ls[i as int] == lines@[i as int]@);
        let line = lines[i].as_slice();
        if record_start_chars(line) {
            match current {
                Some(c) => {
                    let trimmed = crate::text::chars_trim_end(c.as_slice());
                    let record = crate::text::string_from_chars(trimmed.as_slice());
                    proof {
                        assert(crate::profile::texts(out@.push(record)) =~= crate::profile::texts(out@).push(record@));
                    }
                    out.push(record);
                },
                None => {},
            }
            current = Some(crate::text::chars_slice(line, 0, line.len()));
        } else {
            match current {
                Some(mut c) => {
                    push_line(&mut c, line);
                    current = Some(c);
                },
                None => {
                    if !crate::text::chars_blank(line) {
                        let record = crate::text::string_from_chars(line);
                        proof {
                            assert(crate::profile::texts(out@.push(record)) =~= crate::profile::texts(out@).push(record@));
                        }
                        out.push(record);
                    }
                    current = None;
                },
            }
        }
        i = i + 1;
    }
    match current {
        Some(c) => {
            let trimmed = crate::text::chars_trim_end(c.as_slice());
            let record = crate::text::string_from_chars(trimmed.as_slice());
            proof {
                assert(crate::profile::texts(out@.push(record)) =~= crate::profile::texts(out@).push(record@));
            }
            out.push(record);
        },
        None => {},
    }
    out
}

/// Lines that mention the secret option or key are dropped whole.
pub open spec fn keeps_line(l: Seq<char>) -> bool {
    !contains_text(l, "--network-secret"@) && !contains_text(l, "network_secret"@)
}

pub open spec fn kept_upto(ls: Seq<Seq<char>>, n: int) -> Seq<Seq<char>>
    decreases n,
{
    if n <= 0 {
        Seq::empty()
    } else if keeps_line(ls[n - 1]) {
        kept_upto(ls, n - 1).push(ls[n - 1])
    } else {
        kept_upto(ls, n - 1)
    }
}

/// `s` with every occurrence of the first `n` non-empty secrets replaced,
/// in order.
pub open spec fn redacted(s: Seq<char>, secrets: Seq<Seq<char>>, n: int) -> Seq<char>
    decreases n,
{
    if n <= 0 {
        s
    } else {
        let t = redacted(s, secrets, n - 1);
        if secrets[n - 1].len() == 0 {
            t
        } else {
            crate::text::replace_text(t, secrets[n - 1], "[redacted]"@)
        }
    }
}

/// A record as the desktop may see it, or `None` when nothing is left.
pub open spec fn sanitized(record: Seq<char>, secrets: Seq<Seq<char>>) -> Option<Seq<char>> {
    let ls = crate::text::lines_of(record);
    let t = redacted(
        crate::text::join_lines(kept_upto(ls, ls.len() as int)),
        secrets,
        secrets.len() as int,
    );
    if is_blank(t) {
        None
    } else {
        Some(t)
    }
}

/// Removes network material from a log record: lines that mention the
/// secret option or key, and every occurrence of a known secret.
pub fn sanitize_core_log_record(record: &str, secrets: &Vec<String>) -> (r: Option<String>)
    ensures
        match r {
            Some(t) => sanitized(record@, crate::profile::texts(secrets@)) == Some(t@),
            None => sanitized(record@, crate::profile::texts(secrets@)) is None,
        },
{
    let chars = chars_vec(record);
    let lines = crate::text::chars_lines(chars.as_slice());
    let ghost ls = crate::text::lines_of(record@);
    let option_text = chars_vec("--network-secret");
    let key_text = chars_vec("network_secret");
    let mut kept: Vec<Vec<char>> = Vec::new();
    let mut i: usize = 0;
    while i < lines.len()
        invariant
            i <= lines@.len(),
            crate::text::char_rows(lines@) == ls,
            option_text@ == "--network-secret"@,
            key_text@ == "network_secret"@,
            crate::text::char_rows(kept@) == kept_upto(ls, i as int),
        decreases lines@.len() - i,
    {
        assert(ls[i as int] == lines@[i as int]@);
        let line = lines[i].as_slice();
        if !chars_contain(line, option_text.as_slice()) && !chars_contain(line, key_text.as_slice()) {
            let copy = crate::text::chars_slice(line, 0, line.len());
            proof {
                assert(copy@ =~= ls[i as int]);
                assert(crate::text::char_rows(kept@.push(copy)) =~= crate::text::char_rows(kept@).push(copy@));
            }
            kept.push(copy);
        }
        i = i + 1;
    }
    let mut text = crate::text::chars_join_lines(&kept);
    let redaction = chars_vec("[redacted]");
    let ghost joined = text@;
    let mut k: usize = 0;
    while k < secrets.len()
        invariant
            k <= secrets@.len(),
            redaction@ == "[redacted]"@,
            text@ == redacted(joined, crate::profile::texts(secrets@), k as int),
        decreases secrets@.len() - k,
    {
        let secret = chars_vec(secrets[k].as_str());
        if secret.len() > 0 {
            text = crate::text::chars_replace(text.as_slice(), secret.as_slice(), redaction.as_slice());
        }
        k = k + 1;
    }
    if crate::text::chars_blank(text.as_slice()) {
        None
    } else {
        Some(crate::text::string_from_chars(text.as_slice()))
    }
}

pub open spec fn line_models(v: Seq<ServiceLogLine>) -> Seq<(Seq<char>, Seq<char>)> {
    v.map_values(|l: ServiceLogLine| (l.source@, l.line@))
}

/// The sanitized records of the first `n` of `records`, under `source`.
pub open spec fn sanitized_upto(records: Seq<Seq<char>>, secrets: Seq<Seq<char>>, source: Seq<char>, n: int) -> Seq<
    (Seq<char>, Seq<char>),
>
    decreases n,
{
    if n <= 0 {
        Seq::empty()
    } else {
        let prev = sanitized_upto(records, secrets, source, n - 1);
        match sanitized(records[n - 1], secrets) {
            Some(t) => prev.push((source, t)),
            None => prev,
        }
    }
}

/// The lines a log file contributes, newest record first.
pub open spec fn file_lines(source: Seq<char>, content: Seq<char>, secrets: Seq<Seq<char>>) -> Seq<
    (Seq<char>, Seq<char>),
> {
    let records = log_records(content).reverse();
    sanitized_upto(records, secrets, source, records.len() as int)
}

pub open spec fn files_lines(files: Seq<(Seq<char>, Seq<char>)>, secrets: Seq<Seq<char>>, n: int) -> Seq<
    (Seq<char>, Seq<char>),
>
    decreases n,
{
    if n <= 0 {
        Seq::empty()
    } else {
        files_lines(files, secrets, n - 1) + file_lines(files[n - 1].0, files[n - 1].1, secrets)
    }
}

pub open spec fn clamp_limit(limit: usize) -> nat {
    if limit < 1 {
        1
    } else if limit > 500 {
        500
    } else {
        limit as nat
    }
}

/// The newest sanitized records of the given files, at most `limit`
/// (clamped to 1..=500) of them.
pub open spec fn tail_of(files: Seq<(Seq<char>, Seq<char>)>, secrets: Seq<Seq<char>>, limit: usize) -> Seq<
    (Seq<char>, Seq<char>),
> {
    let all = files_lines(files, secrets, files.len() as int);
    if all.len() <= clamp_limit(limit) {
        all
    } else {
        all.take(clamp_limit(limit) as int)
    }
}

pub open spec fn file_models(v: Seq<ServiceLogFile>) -> Seq<(Seq<char>, Seq<char>)> {
    v.map_values(|f: ServiceLogFile| (f.source@, f.content@))
}

pub open spec fn secrets_of(ps: Seq<ProfileModel>) -> Seq<Seq<char>> {
    ps.map_values(|p: ProfileModel| p.network_secret)
}

proof fn lemma_files_lines_prefix(files: Seq<(Seq<char>, Seq<char>)>, secrets: Seq<Seq<char>>, i: int, n: int)
    requires
        0 <= i <= n,
    ensures
        files_lines(files, secrets, i).len() <= files_lines(files, secrets, n).len(),
        files_lines(files, secrets, n).take(files_lines(files, secrets, i).len() as int)
            == files_lines(files, secrets, i),
    decreases n - i,
{
    if i < n {
        lemma_files_lines_prefix(files, secrets, i, n - 1);
        let a = files_lines(files, secrets, i);
        let b = files_lines(files, secrets, n - 1);
        let c = file_lines(files[n - 1].0, files[n - 1].1, secrets);
        assert((b + c).take(a.len() as int) =~= b.take(a.len() as int));
    } else {
        assert(files_lines(files, secrets, n).take(files_lines(files, secrets, n).len() as int)
            =~= files_lines(files, secrets, n));
    }
}

proof fn lemma_sanitized_prefix(records: Seq<Seq<char>>, secrets: Seq<Seq<char>>, source: Seq<char>, j: int, n: int)
    requires
        0 <= j <= n,
    ensures
        sanitized_upto(records, secrets, source, j).len() <= sanitized_upto(records, secrets, source, n).len(),
        sanitized_upto(records, secrets, source, n).take(
            sanitized_upto(records, secrets, source, j).len() as int,
        ) == sanitized_upto(records, secrets, source, j),
    decreases n - j,
{
    if j < n {
        lemma_sanitized_prefix(records, secrets, source, j, n - 1);
        let a = sanitized_upto(records, secrets, source, j);
        let b = sanitized_upto(records, secrets, source, n - 1);
        match sanitized(records[n - 1], secrets) {
            Some(t) => {
                assert(b.push((source, t)).take(a.len() as int) =~= b.take(a.len() as int));
            },
            None => {},
        }
    } else {
        let a = sanitized_upto(records, secrets, source, j);
        assert(a.take(a.len() as int) =~= a);
    }
}

/// A secret that redaction hides for good: not empty, and sharing no
/// character with the `[redacted]` marker that replaces it.
pub open spec fn redactable(secret: Seq<char>) -> bool {
    secret.len() > 0 && crate::text::shares_no_char(secret, "[redacted]"@)
}

proof fn lemma_redacted_hides(s: Seq<char>, secrets: Seq<Seq<char>>, n: int, k: int)
    requires
        0 <= k < n <= secrets.len(),
        redactable(secrets[k]),
    ensures
        !contains_text(redacted(s, secrets, n), secrets[k]),
    decreases n,
{
    reveal_strlit("[redacted]");
    let t = redacted(s, secrets, n - 1);
    if k == n - 1 {
        crate::text::lemma_replace_removes(t, secrets[k], "[redacted]"@);
    } else {
        lemma_redacted_hides(s, secrets, n - 1, k);
        crate::text::lemma_replace_keeps_absent(t, secrets[n - 1], "[redacted]"@, secrets[k]);
    }
}

proof fn lemma_sanitized_upto_hides(records: Seq<Seq<char>>, secrets: Seq<Seq<char>>, source: Seq<char>, n: int, k: int)
    requires
        0 <= k < secrets.len(),
        redactable(secrets[k]),
    ensures
        forall|j: int|
            0 <= j < sanitized_upto(records, secrets, source, n).len() ==> !contains_text(
                #[trigger] sanitized_upto(records, secrets, source, n)[j].1,
                secrets[k],
            ),
    decreases n,
{
    if n > 0 {
        lemma_sanitized_upto_hides(records, secrets, source, n - 1, k);
        let ls = crate::text::lines_of(records[n - 1]);
        lemma_redacted_hides(
            crate::text::join_lines(kept_upto(ls, ls.len() as int)),
            secrets,
            secrets.len() as int,
            k,
        );
        let prev = sanitized_upto(records, secrets, source, n - 1);
        match sanitized(records[n - 1], secrets) {
            Some(t) => {
                assert forall|j: int| 0 <= j < prev.push((source, t)).len() implies !contains_text(
                    #[trigger] prev.push((source, t))[j].1,
                    secrets[k],
                ) by {
                    if j < prev.len() {
                        assert(prev.push((source, t))[j] == prev[j]);
                    }
                }
            },
            None => {},
        }
    }
}

proof fn lemma_files_lines_hide(files: Seq<(Seq<char>, Seq<char>)>, secrets: Seq<Seq<char>>, n: int, k: int)
    requires
        0 <= k < secrets.len(),
        redactable(secrets[k]),
    ensures
        forall|j: int|
            0 <= j < files_lines(files, secrets, n).len() ==> !contains_text(
                #[trigger] files_lines(files, secrets, n)[j].1,
                secrets[k],
            ),
    decreases n,
{
    if n > 0 {
        lemma_files_lines_hide(files, secrets, n - 1, k);
        let records = log_records(files[n - 1].1).reverse();
        lemma_sanitized_upto_hides(records, secrets, files[n - 1].0, records.len() as int, k);
        let a = files_lines(files, secrets, n - 1);
        let b = file_lines(files[n - 1].0, files[n - 1].1, secrets);
        assert forall|j: int| 0 <= j < (a + b).len() implies !contains_text(#[trigger] (a + b)[j].1, secrets[k]) by {
            if j >= a.len() {
                assert((a + b)[j] == b[j - a.len()]);
            }
        }
    }
}

/// The log tail never shows a stored network secret: no line of
/// [`tail_of`] contains one of the secrets it was given, if that secret is
/// not empty and shares no character with the `[redacted]` marker.
pub proof fn law_log_tail_hides_secrets(
    files: Seq<(Seq<char>, Seq<char>)>,
    secrets: Seq<Seq<char>>,
    limit: usize,
    secret: Seq<char>,
)
    requires
        secrets.contains(secret),
        redactable(secret),
    ensures
        forall|j: int|
            0 <= j < tail_of(files, secrets, limit).len() ==> !contains_text(
                #[trigger] tail_of(files, secrets, limit)[j].1,
                secret,
            ),
{
    let k = choose|k: int| 0 <= k < secrets.len() && secrets[k] == secret;
    lemma_files_lines_hide(files, secrets, files.len() as int, k);
    let all = files_lines(files, secrets, files.len() as int);
    assert forall|j: int| 0 <= j < tail_of(files, secrets, limit).len() implies !contains_text(
        #[trigger] tail_of(files, secrets, limit)[j].1,
        secret,
    ) by {
        assert(tail_of(files, secrets, limit)[j] == all[j]);
    }
}

impl<H: ServiceHost> ServiceController<H> {
    /// The newest sanitized core log records, at most `requested_limit`
    /// (clamped to 1..=500) of them; network secrets never appear.
    pub fn tail_logs(&mut self, requested_limit: usize) -> (r: Result<Vec<ServiceLogLine>, ServiceError>)
        ensures
            final(self)@ == old(self)@,
            r matches Ok(lines) ==> exists|files: Seq<(Seq<char>, Seq<char>)>|
                line_models(lines@) == #[trigger] tail_of(files, secrets_of(old(self)@.state.profiles), requested_limit),
    {
        let files = self.host.core_log_files()?;
        let lines = self.tail_of_files(&files, requested_limit);
        assert(line_models(lines@) == tail_of(file_models(files@), secrets_of(self@.state.profiles), requested_limit));
        Ok(lines)
    }

    /// The newest sanitized records of `files`, at most `requested_limit`
    /// (clamped to 1..=500) of them.
    pub fn tail_of_files(&self, files: &Vec<ServiceLogFile>, requested_limit: usize) -> (r: Vec<ServiceLogLine>)
        ensures
            line_models(r@) == tail_of(file_models(files@), secrets_of(self@.state.profiles), requested_limit),
    {
        let limit: usize = if requested_limit < 1 {
            1
        } else if requested_limit > 500 {
            500
        } else {
            requested_limit
        };
        let ghost fm = file_models(files@);
        let mut secrets: Vec<String> = Vec::new();
        let mut s: usize = 0;
        while s < self.state.profiles.len()
            invariant
                s <= self.state.profiles@.len(),
                crate::profile::texts(secrets@) =~= secrets_of(self@.state.profiles).take(s as int),
            decreases self.state.profiles@.len() - s,
        {
            let secret = owned(self.state.profiles[s].network_secret.expose());
            proof {
                assert(crate::profile::texts(secrets@.push(secret)) =~= crate::profile::texts(secrets@).push(secret@));
            }
            secrets.push(secret);
            s = s + 1;
        }
        assert(secrets_of(self@.state.profiles).take(s as int) =~= secrets_of(self@.state.profiles));
        let ghost sec = crate::profile::texts(secrets@);
        let mut records: Vec<ServiceLogLine> = Vec::new();
        let mut i: usize = 0;
        while i < files.len()
            invariant
                i <= files@.len(),
                fm == file_models(files@),
                sec == crate::profile::texts(secrets@),
                sec == secrets_of(self@.state.profiles),
                limit == clamp_limit(requested_limit),
                line_models(records@) == files_lines(fm, sec, i as int),
                records@.len() < limit,
            decreases files@.len() - i,
        {
            let parsed = parse_core_log_records(files[i].content.as_str());
            let ghost recs = log_records(fm[i as int].1).reverse();
            let ghost base = line_models(records@);
            let n = parsed.len();
            let mut j: usize = 0;
            while j < n
                invariant
                    j <= n == parsed@.len(),
                    i < files@.len(),
                    fm == file_models(files@),
                    sec == crate::profile::texts(secrets@),
                    sec == secrets_of(self@.state.profiles),
                    limit == clamp_limit(requested_limit),
                    crate::profile::texts(parsed@) == log_records(fm[i as int].1),
                    recs == log_records(fm[i as int].1).reverse(),
                    base == files_lines(fm, sec, i as int),
                    line_models(records@) == base + sanitized_upto(recs, sec, fm[i as int].0, j as int),
                    records@.len() < limit,
                decreases n - j,
            {
                assert(recs[j as int] == parsed@[n - 1 - j]@);
                match sanitize_core_log_record(parsed[n - 1 - j].as_str(), &secrets) {
                    None => {},
                    Some(line) => {
                        let entry = ServiceLogLine { source: files[i].source.clone(), line };
                        proof {
                            assert(line_models(records@.push(entry)) =~= line_models(records@).push((entry.source@, entry.line@)));
                        }
                        records.push(entry);
                        if records.len() == limit {
                            proof {
                                let all = files_lines(fm, sec, fm.len() as int);
                                lemma_sanitized_prefix(recs, sec, fm[i as int].0, j + 1, recs.len() as int);
                                lemma_files_lines_prefix(fm, sec, i + 1, fm.len() as int);
                                let upto = files_lines(fm, sec, i + 1);
                                assert(upto == base + file_lines(fm[i as int].0, fm[i as int].1, sec));
                                assert(line_models(records@) =~= upto.take(limit as int));
                                assert(all.take(limit as int) =~= upto.take(limit as int));
                                assert(line_models(records@) == tail_of(fm, sec, requested_limit));
                            }
                            return records;
                        }
                    },
                }
                j = j + 1;
            }
            assert(line_models(records@) == files_lines(fm, sec, i + 1));
            i = i + 1;
        }
        assert(line_models(records@) == tail_of(fm, sec, requested_limit));
        records
    }
}


// ---------------------------------------------------------------------------
// The core process
// ---------------------------------------------------------------------------

/// What the host needs to start the core for a profile: its rendered
/// configuration, which the host writes beneath the service-owned runtime
/// directory.
pub struct CoreLaunch {
    pub profile_id: String,
    pub config: String,
}

/// A report of the core process, with its error taken by its view.
pub open spec fn reported<T>(r: Result<T, ServiceError>) -> Result<T, ServiceFault> {
    match r {
        Ok(v) => Ok(v),
        Err(e) => Err(e@),
    }
}

/// A poll of the core process, with the exit description and the error
/// taken by their views.
pub open spec fn poll_reported(r: Result<Option<String>, ServiceError>) -> Result<Option<Seq<char>>, ServiceFault> {
    match r {
        Ok(Some(detail)) => Ok(Some(detail@)),
        Ok(None) => Ok(None),
        Err(e) => Err(e@),
    }
}

/// `c` after a failure of the core, counted by its supervisor if it has one.
pub open spec fn failure_counted(c: ControllerModel, now_ms: u64) -> ControllerModel {
    match c.supervisor {
        Some(s) => with_supervisor(c, Some(crate::supervisor::on_failure(s, now_ms))),
        None => c,
    }
}

/// `c` after the core was stopped, with what stopping it reported.
pub open spec fn stop_recorded(c: ControllerModel, report: Result<(), ServiceFault>) -> ControllerModel {
    ControllerModel {
        core_pid: None,
        last_error: match report {
            Ok(_) => c.last_error,
            Err(e) => Some(service_fault_text(e)),
        },
        ..without_observations(c)
    }
}

/// `c` after an attempt to start the core, and the action that follows: a
/// started core is reported to the supervisor (and stopped again where
/// there is none), a failed start counts as a failure.
pub open spec fn start_recorded(c: ControllerModel, report: Result<u32, ServiceFault>, now_ms: u64) -> (
    ControllerModel,
    ActionView,
) {
    match report {
        Ok(pid) => {
            let c1 = ControllerModel { core_pid: Some(pid), last_error: None, ..without_observations(c) };
            match c.supervisor {
                Some(s) => supervisor_step(c1, crate::supervisor::on_core_started(s, now_ms)),
                None => (c1, ActionView::StopCore),
            }
        },
        Err(e) => (failure_counted(ControllerModel { last_error: Some(service_fault_text(e)), ..c }, now_ms), ActionView::Noop),
    }
}

/// `c` after a health probe, and the action that follows.  A probe that
/// found no running core counts as an exit.
pub open spec fn sample_recorded(c: ControllerModel, report: Result<HealthSample, ServiceFault>, now_ms: u64) -> (
    ControllerModel,
    ActionView,
) {
    match report {
        Ok(sample) => if sample.core_process_running {
            match c.supervisor {
                Some(s) => supervisor_step(
                    health_observed(c, sample, now_ms),
                    crate::supervisor::on_health_sample(
                        s,
                        sample.spec_healthy(),
                        sample.core_process_running,
                        sample.connected_peer_count,
                        now_ms,
                    ),
                ),
                None => (health_observed(c, sample, now_ms), ActionView::Noop),
            }
        } else {
            (
                failure_counted(
                    ControllerModel {
                        core_pid: None,
                        last_error: Some("easytier-core exited during health probe"@),
                        ..without_observations(c)
                    },
                    now_ms,
                ),
                ActionView::Noop,
            )
        },
        Err(e) => (ControllerModel { last_error: Some(service_fault_text(e)), ..c }, ActionView::Noop),
    }
}

/// `c` after a poll for an exit of the core.
pub open spec fn poll_recorded(c: ControllerModel, report: Result<Option<Seq<char>>, ServiceFault>, now_ms: u64) -> ControllerModel {
    match report {
        Ok(Some(detail)) => failure_counted(
            ControllerModel { core_pid: None, last_error: Some(detail), ..without_observations(c) },
            now_ms,
        ),
        Ok(None) => c,
        Err(e) => ControllerModel { last_error: Some(service_fault_text(e)), ..c },
    }
}

/// What the core process reports to each kind of supervisor action; the
/// report for a kind that is not carried out goes unread.
pub ghost struct RunnerReports {
    pub stopped: Result<(), ServiceFault>,
    pub started: Result<u32, ServiceFault>,
    pub sampled: Result<HealthSample, ServiceFault>,
    /// The profile id the core was started for.
    pub started_for: Seq<char>,
}

/// A start or restart of the core was asked for the profile the action
/// names.
pub open spec fn start_named(a: ActionView, reports: RunnerReports) -> bool {
    match a {
        ActionView::StartCore(id) => reports.started_for == id,
        ActionView::RestartCore(id) => reports.started_for == id,
        _ => true,
    }
}

/// Every start or restart among the actions carried out from `a` with
/// `reports` was asked for the profile its action names.
pub open spec fn starts_named(c: ControllerModel, a: ActionView, now_ms: u64, reports: Seq<RunnerReports>) -> bool
    decreases reports.len(),
{
    if reports.len() == 0 {
        true
    } else {
        starts_named(c, a, now_ms, reports.drop_last()) && start_named(
            actions_carried_out(c, a, now_ms, reports.drop_last()).1,
            reports.last(),
        )
    }
}

/// `c` after carrying out `a` once with the core's `reports`, and the action
/// that follows.  A start or restart first forgets the running core, which
/// the host replaces.
pub open spec fn action_carried_out(c: ControllerModel, a: ActionView, now_ms: u64, reports: RunnerReports) -> (
    ControllerModel,
    ActionView,
) {
    match a {
        ActionView::Noop => (c, ActionView::Noop),
        ActionView::StopCore => (stop_recorded(c, reports.stopped), ActionView::Noop),
        ActionView::StartCore(_) | ActionView::RestartCore(_) => start_recorded(
            ControllerModel { core_pid: None, ..without_observations(c) },
            reports.started,
            now_ms,
        ),
        ActionView::ProbeHealth => sample_recorded(c, reports.sampled, now_ms),
    }
}

/// `c` after carrying out `a` and the actions that follow it, one for each
/// entry of `reports`, in order.
pub open spec fn actions_carried_out(c: ControllerModel, a: ActionView, now_ms: u64, reports: Seq<RunnerReports>) -> (
    ControllerModel,
    ActionView,
)
    decreases reports.len(),
{
    if reports.len() == 0 {
        (c, a)
    } else {
        let (c1, a1) = actions_carried_out(c, a, now_ms, reports.drop_last());
        action_carried_out(c1, a1, now_ms, reports.last())
    }
}

impl<H: ServiceHost> ServiceController<H> {
    /// The launch of the selected profile, which must be `expected_profile_id`.
    pub fn prepare_core_launch(&self, expected_profile_id: &str) -> (r: Result<CoreLaunch, ServiceError>)
        ensures
            match active_profile_of(self@.state) {
                None => r matches Err(e) && e@ == ServiceFault::NoActiveProfile,
                Some(p) => if p.id != expected_profile_id@ {
                    r matches Err(e) && e@ == ServiceFault::NoActiveProfile
                } else {
                    match crate::profile::rendered_core_toml(p) {
                        Ok(t) => r matches Ok(launch) && launch.profile_id@ == p.id && launch.config@ == t,
                        Err(f) => r matches Err(e) && e@ == ServiceFault::State(StateFault::Profile(f)),
                    }
                },
            },
    {
        let profile = match self.active_profile() {
            Some(p) => p,
            None => {
                return Err(ServiceError::NoActiveProfile);
            },
        };
        if !str_eq(profile.id.as_str(), expected_profile_id) {
            return Err(ServiceError::NoActiveProfile);
        }
        match profile.render_core_toml() {
            Ok(config) => Ok(CoreLaunch { profile_id: profile.id.clone(), config }),
            Err(e) => Err(ServiceError::State(StateError::Profile(e))),
        }
    }

    /// Records what stopping the core reported.
    pub fn after_stop(&mut self, result: Result<(), ServiceError>)
        ensures
            final(self)@ == stop_recorded(old(self)@, reported(result)),
    {
        match result {
            Ok(()) => {},
            Err(e) => self.record_error(e.message()),
        }
        self.on_core_stopped();
    }

    /// Records what starting the core reported: a started core, or a failed
    /// start that schedules a retry.
    pub fn after_start(&mut self, result: Result<u32, ServiceError>, now_ms: u64) -> (r: SupervisorAction)
        ensures
            (final(self)@, r@) == start_recorded(old(self)@, reported(result), now_ms),
    {
        match result {
            Ok(pid) => self.on_core_started(pid, now_ms),
            Err(e) => {
                self.record_error(e.message());
                self.on_core_start_failed(now_ms);
                SupervisorAction::Noop
            },
        }
    }

    /// Records what a health probe reported.  A probe that found no running
    /// core counts as an exit.
    pub fn after_health_sample(&mut self, result: Result<HealthSample, ServiceError>, now_ms: u64) -> (r: SupervisorAction)
        ensures
            (final(self)@, r@) == sample_recorded(old(self)@, reported(result), now_ms),
    {
        match result {
            Ok(sample) => {
                if sample.core_process_running {
                    self.on_health_sample(sample, now_ms)
                } else {
                    self.on_core_exited(now_ms, owned("easytier-core exited during health probe"));
                    SupervisorAction::Noop
                }
            },
            Err(e) => {
                self.record_error(e.message());
                SupervisorAction::Noop
            },
        }
    }

    /// Records what polling the core for an exit reported.
    pub fn after_poll(&mut self, result: Result<Option<String>, ServiceError>, now_ms: u64)
        ensures
            final(self)@ == poll_recorded(old(self)@, poll_reported(result), now_ms),
    {
        match result {
            Ok(Some(detail)) => self.on_core_exited(now_ms, detail),
            Ok(None) => {},
            Err(e) => self.record_error(e.message()),
        }
    }
}

/// The process boundary of the service loop: starting, polling, stopping and
/// probing the core.  A host runs the real process; tests run a fake one.
pub trait CoreRuntime<H> {
    /// Starts, or replaces, the core for `profile_id` and returns its process
    /// id.
    fn start(&mut self, controller: &ServiceController<H>, options: &ServiceOptions, profile_id: &str) -> Result<u32, ServiceError>;

    /// A description of the core's exit when it exited since the last poll.
    fn poll_exit(&mut self) -> Result<Option<String>, ServiceError>;

    fn stop(&mut self) -> Result<(), ServiceError>;

    fn health_sample(&mut self) -> Result<HealthSample, ServiceError>;
}

/// Starts the core for `profile_id`; the ghost result is the profile id the
/// runner was asked to start.
fn start_core<H: ServiceHost, R: CoreRuntime<H>>(
    runner: &mut R,
    controller: &ServiceController<H>,
    options: &ServiceOptions,
    profile_id: &str,
) -> (r: (Result<u32, ServiceError>, Ghost<Seq<char>>))
    ensures
        r.1@ == profile_id@,
{
    let started = runner.start(controller, options, profile_id);
    (started, Ghost(profile_id@))
}

/// Polls the core for an exit and records it.
pub fn observe_core_exit<H: ServiceHost, R: CoreRuntime<H>>(runner: &mut R, controller: &mut ServiceController<H>, now_ms: u64)
    ensures
        final(controller)@.state == old(controller)@.state,
        final(controller)@.retry_policy == old(controller)@.retry_policy,
        exists|report: Result<Option<Seq<char>>, ServiceFault>|
            final(controller)@ == #[trigger] poll_recorded(old(controller)@, report, now_ms),
{
    let polled = runner.poll_exit();
    let ghost report = poll_reported(polled);
    controller.after_poll(polled, now_ms);
    assert(final(controller)@ == poll_recorded(old(controller)@, report, now_ms));
}

/// Carries out a supervisor action, and the actions it leads to, at most
/// three in a row: a start can immediately become a stop when the desired
/// state changed while the process was being created.  The durable state is
/// never changed here.
pub fn apply_supervisor_action<H: ServiceHost, R: CoreRuntime<H>>(
    action: SupervisorAction,
    controller: &mut ServiceController<H>,
    runner: &mut R,
    options: &ServiceOptions,
    now_ms: u64,
)
    ensures
        final(controller)@.state == old(controller)@.state,
        final(controller)@.retry_policy == old(controller)@.retry_policy,
        final(controller)@.reconciliation_needed == old(controller)@.reconciliation_needed,
        final(controller)@.force_restart == old(controller)@.force_restart,
        exists|reports: Seq<RunnerReports>|
            {
                let (c, next) = #[trigger] actions_carried_out(old(controller)@, action@, now_ms, reports);
                &&& reports.len() <= 3
                &&& starts_named(old(controller)@, action@, now_ms, reports)
                &&& final(controller)@ == c
                &&& reports.len() == 3 || next == ActionView::Noop
            },
{
    let ghost first = action@;
    let mut action = action;
    let mut step: usize = 0;
    let ghost mut taken: Seq<RunnerReports> = Seq::empty();
    let ghost unread = RunnerReports {
        stopped: Err(ServiceFault::Synchronization),
        started: Err(ServiceFault::Synchronization),
        sampled: Err(ServiceFault::Synchronization),
        started_for: Seq::empty(),
    };
    while step < 3
        invariant
            step <= 3,
            taken.len() == step,
            actions_carried_out(old(controller)@, first, now_ms, taken) == (controller@, action@),
            starts_named(old(controller)@, first, now_ms, taken),
            controller@.state == old(controller)@.state,
            controller@.retry_policy == old(controller)@.retry_policy,
            controller@.reconciliation_needed == old(controller)@.reconciliation_needed,
            controller@.force_restart == old(controller)@.force_restart,
        ensures
            step == 3 || action@ == ActionView::Noop,
        decreases 3 - step,
    {
        let ghost before = controller@;
        let ghost a = action@;
        let ghost mut reports = unread;
        action = match action {
            SupervisorAction::Noop => {
                break;
            },
            SupervisorAction::StopCore => {
                let stopped = runner.stop();
                proof {
                    reports = RunnerReports { stopped: reported(stopped), ..unread };
                }
                controller.after_stop(stopped);
                SupervisorAction::Noop
            },
            SupervisorAction::StartCore { profile_id } | SupervisorAction::RestartCore { profile_id } => {
                // The host's start replaces any running child; clear the
                // visible process id first, so a failed restart never
                // reports a stale process.
                controller.on_core_stopped();
                let (started, Ghost(given)) = start_core(runner, controller, options, profile_id.as_str());
                proof {
                    reports = RunnerReports { started: reported(started), started_for: given, ..unread };
                }
                controller.after_start(started, now_ms)
            },
            SupervisorAction::ProbeHealth => {
                let sampled = runner.health_sample();
                proof {
                    reports = RunnerReports { sampled: reported(sampled), ..unread };
                }
                controller.after_health_sample(sampled, now_ms)
            },
        };
        proof {
            assert((controller@, action@) == action_carried_out(before, a, now_ms, reports));
            assert(start_named(a, reports));
            assert(taken.push(reports).drop_last() =~= taken);
            taken = taken.push(reports);
        }
        step = step + 1;
    }
    assert(actions_carried_out(old(controller)@, first, now_ms, taken) == (controller@, action@));
}

} // verus!
