//! Versioned, local-only RPC types shared by the desktop app and the service.
//!
//! The surface is intentionally narrow: status and profile listings never
//! carry a network secret.

use vstd::prelude::*;

use crate::profile::{
    copy_strings, texts, AddressMode, AddressModel, EasyTierFlags, NetworkProfile, ProfileModel,
};

verus! {

broadcast use vstd::string::group_string_axioms;

pub const PROTOCOL_VERSION: u32 = 1;

pub struct ProfileUpsert {
    pub profile: NetworkProfile,
    pub make_active: bool,
}

/// A requested durable connection state.  `Connect` enables automatic
/// reconnection; `Disconnect` disables it before the core process stops.
#[derive(Clone, Debug, PartialEq, Eq)]
pub enum ConnectionIntent {
    Connect { profile_id: String },
    Disconnect { profile_id: Option<String> },
    SetAutoConnect { profile_id: String, enabled: bool },
}

#[derive(Clone, Copy, Debug, PartialEq, Eq, Structural)]
pub enum ServiceConnectionState {
    Disconnected,
    Connecting,
    Connected,
    Recovering,
    Failed,
}

#[derive(Clone, Debug, PartialEq, Eq)]
pub struct ServiceStatus {
    pub protocol_version: u32,
    pub state: ServiceConnectionState,
    pub active_profile_id: Option<String>,
    pub auto_connect_profile_id: Option<String>,
    pub core_pid: Option<u32>,
    pub retry_at_unix_ms: Option<u64>,
    pub consecutive_failures: u32,
    /// Connected remote peers of the last successful peer listing.  It is
    /// zero both when no peer was seen and when no listing was available;
    /// `peer_count_available` tells the two apart.
    pub peer_count: usize,
    pub peer_count_available: bool,
    pub route_count: usize,
    pub traffic_tx_bytes: u64,
    pub traffic_rx_bytes: u64,
    /// Unix milliseconds of the last successful local control-plane sample.
    pub last_success_unix_ms: Option<u64>,
    pub last_error: Option<String>,
}

/// The text of an optional string.
pub open spec fn opt_text(s: Option<String>) -> Option<Seq<char>> {
    match s {
        Some(t) => Some(t@),
        None => None,
    }
}

/// The mathematical form of a [`ServiceStatus`].
pub ghost struct StatusModel {
    pub protocol_version: u32,
    pub state: ServiceConnectionState,
    pub active_profile_id: Option<Seq<char>>,
    pub auto_connect_profile_id: Option<Seq<char>>,
    pub core_pid: Option<u32>,
    pub retry_at_unix_ms: Option<u64>,
    pub consecutive_failures: u32,
    pub peer_count: usize,
    pub peer_count_available: bool,
    pub route_count: usize,
    pub traffic_tx_bytes: u64,
    pub traffic_rx_bytes: u64,
    pub last_success_unix_ms: Option<u64>,
    pub last_error: Option<Seq<char>>,
}

impl View for ServiceStatus {
    type V = StatusModel;

    open spec fn view(&self) -> StatusModel {
        StatusModel {
            protocol_version: self.protocol_version,
            state: self.state,
            active_profile_id: opt_text(self.active_profile_id),
            auto_connect_profile_id: opt_text(self.auto_connect_profile_id),
            core_pid: self.core_pid,
            retry_at_unix_ms: self.retry_at_unix_ms,
            consecutive_failures: self.consecutive_failures,
            peer_count: self.peer_count,
            peer_count_available: self.peer_count_available,
            route_count: self.route_count,
            traffic_tx_bytes: self.traffic_tx_bytes,
            traffic_rx_bytes: self.traffic_rx_bytes,
            last_success_unix_ms: self.last_success_unix_ms,
            last_error: opt_text(self.last_error),
        }
    }
}

/// The status of a service with no profile selected.
pub open spec fn stopped_status() -> StatusModel {
    StatusModel {
        protocol_version: PROTOCOL_VERSION,
        state: ServiceConnectionState::Disconnected,
        active_profile_id: None,
        auto_connect_profile_id: None,
        core_pid: None,
        retry_at_unix_ms: None,
        consecutive_failures: 0,
        peer_count: 0,
        peer_count_available: false,
        route_count: 0,
        traffic_tx_bytes: 0,
        traffic_rx_bytes: 0,
        last_success_unix_ms: None,
        last_error: None,
    }
}

impl ServiceStatus {
    pub fn stopped() -> (r: Self)
        ensures
            r@ == stopped_status(),
    {
        ServiceStatus {
            protocol_version: PROTOCOL_VERSION,
            state: ServiceConnectionState::Disconnected,
            active_profile_id: None,
            auto_connect_profile_id: None,
            core_pid: None,
            retry_at_unix_ms: None,
            consecutive_failures: 0,
            peer_count: 0,
            peer_count_available: false,
            route_count: 0,
            traffic_tx_bytes: 0,
            traffic_rx_bytes: 0,
            last_success_unix_ms: None,
            last_error: None,
        }
    }
}

#[derive(Clone, Debug, PartialEq, Eq)]
pub struct ProfileSummary {
    pub id: String,
    pub name: String,
    pub hostname: String,
    pub network_name: String,
    pub peer_count: usize,
    pub auto_connect: bool,
}

/// The mathematical form of a [`ProfileSummary`].
pub ghost struct SummaryModel {
    pub id: Seq<char>,
    pub name: Seq<char>,
    pub hostname: Seq<char>,
    pub network_name: Seq<char>,
    pub peer_count: nat,
    pub auto_connect: bool,
}

impl View for ProfileSummary {
    type V = SummaryModel;

    open spec fn view(&self) -> SummaryModel {
        SummaryModel {
            id: self.id@,
            name: self.name@,
            hostname: self.hostname@,
            network_name: self.network_name@,
            peer_count: self.peer_count as nat,
            auto_connect: self.auto_connect,
        }
    }
}

/// The listing row of a profile.
pub open spec fn summary_of(p: ProfileModel) -> SummaryModel {
    SummaryModel {
        id: p.id,
        name: p.name,
        hostname: p.hostname,
        network_name: p.network_name,
        peer_count: p.peers.len(),
        auto_connect: p.auto_connect,
    }
}

impl ProfileSummary {
    pub fn from_profile(profile: &NetworkProfile) -> (r: Self)
        ensures
            r@ == summary_of(profile@),
    {
        ProfileSummary {
            id: profile.id.clone(),
            name: profile.name.clone(),
            hostname: profile.hostname.clone(),
            network_name: profile.network_name.clone(),
            peer_count: profile.peers.len(),
            auto_connect: profile.auto_connect,
        }
    }
}

/// Complete renderable profile data.  It excludes the network secret but
/// keeps the address and bootstrap configuration the desktop displays.
#[derive(Clone, Debug, PartialEq, Eq)]
pub struct ProfileView {
    pub id: String,
    pub name: String,
    pub instance_name: String,
    pub hostname: String,
    pub network_name: String,
    pub address_mode: AddressMode,
    pub static_ipv4_cidr: Option<String>,
    pub peers: Vec<String>,
    /// The complete typed `[flags]` data; it holds no secret material.
    pub flags: EasyTierFlags,
    pub auto_connect: bool,
    pub secret_configured: bool,
}

/// The mathematical form of a [`ProfileView`].
pub ghost struct ProfileViewModel {
    pub id: Seq<char>,
    pub name: Seq<char>,
    pub instance_name: Seq<char>,
    pub hostname: Seq<char>,
    pub network_name: Seq<char>,
    pub address_mode: AddressModel,
    pub static_ipv4_cidr: Option<Seq<char>>,
    pub peers: Seq<Seq<char>>,
    pub flags: EasyTierFlags,
    pub auto_connect: bool,
    pub secret_configured: bool,
}

impl View for ProfileView {
    type V = ProfileViewModel;

    open spec fn view(&self) -> ProfileViewModel {
        ProfileViewModel {
            id: self.id@,
            name: self.name@,
            instance_name: self.instance_name@,
            hostname: self.hostname@,
            network_name: self.network_name@,
            address_mode: self.address_mode@,
            static_ipv4_cidr: opt_text(self.static_ipv4_cidr),
            peers: texts(self.peers@),
            flags: self.flags,
            auto_connect: self.auto_connect,
            secret_configured: self.secret_configured,
        }
    }
}

/// What the desktop may see of a profile: everything but the secret, and
/// whether a secret is set.
pub open spec fn view_of(p: ProfileModel) -> ProfileViewModel {
    ProfileViewModel {
        id: p.id,
        name: p.name,
        instance_name: p.instance_name,
        hostname: p.hostname,
        network_name: p.network_name,
        address_mode: p.address_mode,
        static_ipv4_cidr: match p.address_mode {
            AddressModel::Dhcp => None,
            AddressModel::Static(cidr) => Some(cidr),
        },
        peers: p.peers,
        flags: p.flags,
        auto_connect: p.auto_connect,
        secret_configured: p.network_secret.len() != 0,
    }
}

impl ProfileView {
    pub fn from_profile(profile: &NetworkProfile) -> (r: Self)
        ensures
            r@ == view_of(profile@),
    {
        let static_ipv4_cidr = match &profile.address_mode {
            AddressMode::Dhcp => None,
            AddressMode::Static { cidr } => Some(cidr.clone()),
        };
        let flags = profile.flags.duplicate();
        let r = ProfileView {
            id: profile.id.clone(),
            name: profile.name.clone(),
            instance_name: profile.instance_name.clone(),
            hostname: profile.hostname.clone(),
            network_name: profile.network_name.clone(),
            address_mode: profile.address_mode.duplicate(),
            static_ipv4_cidr,
            peers: copy_strings(&profile.peers),
            flags,
            auto_connect: profile.auto_connect,
            secret_configured: !profile.network_secret.expose().is_empty(),
        };
        assert(r.flags == profile.flags);
        r
    }
}

#[derive(Clone, Debug, PartialEq, Eq)]
pub struct ServiceLogLine {
    pub source: String,
    pub line: String,
}

/// A sanitized peer row obtained by the service from the bundled EasyTier
/// CLI.  It omits every configuration or management endpoint.
#[derive(Clone, Debug, PartialEq, Eq)]
pub struct ConnectedPeer {
    pub id: String,
    pub hostname: String,
    pub ipv4: String,
    pub cidr: Option<String>,
    pub cost: Option<String>,
    pub latency_ms: Option<u32>,
    pub rx_bytes: Option<u64>,
    pub tx_bytes: Option<u64>,
    /// Every active direct tunnel transport reported for this remote peer,
    /// normalized, ordered and de-duplicated.
    pub protocols: Vec<String>,
    /// Compatibility mirror of `protocols` for older local consumers.
    pub tunnel_protocol: Option<String>,
    pub nat_type: Option<String>,
    pub version: Option<String>,
}

/// The mathematical form of a [`ConnectedPeer`].
pub ghost struct PeerModel {
    pub id: Seq<char>,
    pub hostname: Seq<char>,
    pub ipv4: Seq<char>,
    pub cidr: Option<Seq<char>>,
    pub cost: Option<Seq<char>>,
    pub latency_ms: Option<u32>,
    pub rx_bytes: Option<u64>,
    pub tx_bytes: Option<u64>,
    pub protocols: Seq<Seq<char>>,
    pub tunnel_protocol: Option<Seq<char>>,
    pub nat_type: Option<Seq<char>>,
    pub version: Option<Seq<char>>,
}

impl View for ConnectedPeer {
    type V = PeerModel;

    open spec fn view(&self) -> PeerModel {
        PeerModel {
            id: self.id@,
            hostname: self.hostname@,
            ipv4: self.ipv4@,
            cidr: opt_text(self.cidr),
            cost: opt_text(self.cost),
            latency_ms: self.latency_ms,
            rx_bytes: self.rx_bytes,
            tx_bytes: self.tx_bytes,
            protocols: texts(self.protocols@),
            tunnel_protocol: opt_text(self.tunnel_protocol),
            nat_type: opt_text(self.nat_type),
            version: opt_text(self.version),
        }
    }
}

/// The models of a list of peers.
pub open spec fn peer_models(v: Seq<ConnectedPeer>) -> Seq<PeerModel> {
    v.map_values(|p: ConnectedPeer| p@)
}

pub fn copy_opt_string(s: &Option<String>) -> (r: Option<String>)
    ensures
        r == *s,
{
    match s {
        Some(t) => Some(t.clone()),
        None => None,
    }
}

impl ConnectedPeer {
    pub fn duplicate(&self) -> (r: Self)
        ensures
            r@ == self@,
    {
        ConnectedPeer {
            id: self.id.clone(),
            hostname: self.hostname.clone(),
            ipv4: self.ipv4.clone(),
            cidr: copy_opt_string(&self.cidr),
            cost: copy_opt_string(&self.cost),
            latency_ms: self.latency_ms,
            rx_bytes: self.rx_bytes,
            tx_bytes: self.tx_bytes,
            protocols: copy_strings(&self.protocols),
            tunnel_protocol: copy_opt_string(&self.tunnel_protocol),
            nat_type: copy_opt_string(&self.nat_type),
            version: copy_opt_string(&self.version),
        }
    }
}

/// An element-by-element copy of a peer list.
pub fn copy_peers(v: &Vec<ConnectedPeer>) -> (r: Vec<ConnectedPeer>)
    ensures
        peer_models(r@) == peer_models(v@),
{
    let mut r: Vec<ConnectedPeer> = Vec::new();
    let mut i: usize = 0;
    while i < v.len()
        invariant
            i <= v@.len(),
            peer_models(r@) =~= peer_models(v@.take(i as int)),
        decreases v@.len() - i,
    {
        let p = v[i].duplicate();
        proof {
            assert(v@.take(i + 1) =~= v@.take(i as int).push(v@[i as int]));
            assert(peer_models(r@.push(p)) =~= peer_models(r@).push(p@));
            assert(peer_models(v@.take(i + 1)) =~= peer_models(v@.take(i as int)).push(v@[i as int]@));
        }
        r.push(p);
        i = i + 1;
    }
    assert(v@.take(i as int) =~= v@);
    r
}

pub enum RpcCommand {
    Ping,
    GetStatus,
    ListProfiles,
    ListPeers,
    UpsertProfile(ProfileUpsert),
    /// Changes only an existing profile's typed flag set.  The service keeps
    /// its network secret, validates the staged core configuration and
    /// commits only after that validation succeeds.
    UpdateProfileFlags { profile_id: String, flags: EasyTierFlags },
    ImportProfile { toml: String, make_active: bool },
    ExportProfile { profile_id: String },
    DeleteProfile { profile_id: String },
    SetActiveProfile { profile_id: String },
    SetConnectionIntent { intent: ConnectionIntent },
    TailLogs { limit: usize },
    ClearLogs,
}

pub struct RpcRequest {
    pub protocol_version: u32,
    pub request_id: u64,
    pub command: RpcCommand,
}

impl RpcRequest {
    pub fn new(request_id: u64, command: RpcCommand) -> (r: Self)
        ensures
            r.protocol_version == PROTOCOL_VERSION,
            r.request_id == request_id,
            r.command == command,
    {
        RpcRequest { protocol_version: PROTOCOL_VERSION, request_id, command }
    }

    pub fn is_compatible(&self) -> (r: bool)
        ensures
            r == (self.protocol_version == PROTOCOL_VERSION),
    {
        self.protocol_version == PROTOCOL_VERSION
    }
}

/// The protocol version a request carries when it names none.
pub fn default_protocol_version() -> (r: u32)
    ensures
        r == PROTOCOL_VERSION,
{
    PROTOCOL_VERSION
}

#[derive(Clone, Debug, PartialEq, Eq)]
pub enum RpcResult {
    Pong,
    Status(ServiceStatus),
    Profiles(Vec<ProfileView>),
    Peers(Vec<ConnectedPeer>),
    ProfileSaved(ProfileView),
    ProfileToml { profile_id: String, toml: String },
    ProfileDeleted { profile_id: String },
    ActiveProfileSelected(ServiceStatus),
    IntentApplied(ServiceStatus),
    Logs(Vec<ServiceLogLine>),
    LogsCleared,
}

#[derive(Clone, Copy, Debug, PartialEq, Eq, Structural)]
pub enum RpcErrorCode {
    InvalidRequest,
    InvalidProfile,
    NotFound,
    Conflict,
    UnsupportedVersion,
    Unavailable,
    Internal,
}

#[derive(Clone, Debug, PartialEq, Eq)]
pub struct RpcError {
    pub code: RpcErrorCode,
    pub message: String,
}

#[derive(Clone, Debug, PartialEq, Eq)]
pub struct RpcResponse {
    pub protocol_version: u32,
    pub request_id: u64,
    pub result: Option<RpcResult>,
    pub error: Option<RpcError>,
}

impl RpcResponse {
    pub fn ok(request_id: u64, result: RpcResult) -> (r: Self)
        ensures
            r.protocol_version == PROTOCOL_VERSION,
            r.request_id == request_id,
            r.result == Some(result),
            r.error is None,
    {
        RpcResponse { protocol_version: PROTOCOL_VERSION, request_id, result: Some(result), error: None }
    }

    pub fn error(request_id: u64, code: RpcErrorCode, message: String) -> (r: Self)
        ensures
            r.protocol_version == PROTOCOL_VERSION,
            r.request_id == request_id,
            r.result is None,
            r.error == Some(RpcError { code, message }),
    {
        RpcResponse {
            protocol_version: PROTOCOL_VERSION,
            request_id,
            result: None,
            error: Some(RpcError { code, message }),
        }
    }
}

} // verus!
