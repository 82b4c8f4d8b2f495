//! Service-owned EasyTier profiles: the typed `[flags]` schema of the bundled
//! core, the validation rules every stored profile satisfies, and the import
//! and export of the core's TOML configuration.

use vstd::prelude::*;

use crate::config::{
    ensure_allowed_keys, entries_model, first_found, keys_fault, lemma_lookup_concat, lookup, table_get,
    TomlModel, TomlValue,
};
use crate::text::{
    ascii_lower, chars_lower,
    all_ascii_digits, chars_all_digits, chars_blank, chars_eq, chars_find, chars_have_control,
    chars_index_of, chars_last_index_of, chars_slice, chars_vec, concat3, decimal_string,
    decimal_text, digits_value, find_text_from, has_control, index_of_from, is_ascii_alphanumeric,
    is_blank, is_digit, is_alphanumeric, last_index_before, owned, str_blank, str_eq, trim,
    chars_trim,
};

verus! {

broadcast use vstd::string::group_string_axioms;

/// Local-only management endpoint pinned on the core's command line.
pub const CORE_RPC_PORTAL: &'static str = "127.0.0.1:15888";

pub const CORE_RPC_PORTAL_WHITELIST: &'static str = "127.0.0.1/32";

pub const MAX_PEERS: usize = 8;

/// Number of fields of the core's `FlagsInConfig` in the bundled version.
pub const EASYTIER_V2_6_4_FLAG_COUNT: usize = 41;

/// Typed `[flags]` configuration of the bundled EasyTier core.
///
/// The two BPS limits use `u64::MAX` as the in-memory unlimited sentinel, as
/// EasyTier does.  TOML has signed 64-bit integers, so the renderer omits
/// those fields while they hold the sentinel.
#[derive(Clone, Debug, PartialEq, Eq)]
pub struct EasyTierFlags {
    pub default_protocol: String,
    pub dev_name: String,
    pub enable_encryption: bool,
    pub enable_ipv6: bool,
    pub mtu: u32,
    pub latency_first: bool,
    pub enable_exit_node: bool,
    pub no_tun: bool,
    pub use_smoltcp: bool,
    pub relay_network_whitelist: String,
    pub disable_p2p: bool,
    pub relay_all_peer_rpc: bool,
    pub disable_udp_hole_punching: bool,
    pub multi_thread: bool,
    /// EasyTier protobuf `CompressionAlgoPb`: `1` is none and `2` is zstd.
    pub data_compress_algo: i32,
    pub bind_device: bool,
    pub enable_kcp_proxy: bool,
    pub disable_kcp_input: bool,
    pub disable_relay_kcp: bool,
    pub proxy_forward_by_system: bool,
    pub accept_dns: bool,
    pub private_mode: bool,
    pub enable_quic_proxy: bool,
    pub disable_quic_input: bool,
    pub disable_relay_quic: bool,
    /// Deprecated upstream but still read by the bundled core.
    pub quic_listen_port: u32,
    pub foreign_relay_bps_limit: u64,
    pub multi_thread_count: u32,
    pub enable_relay_foreign_network_kcp: bool,
    pub enable_relay_foreign_network_quic: bool,
    pub encryption_algorithm: String,
    pub disable_sym_hole_punching: bool,
    pub tld_dns_zone: String,
    pub p2p_only: bool,
    pub disable_tcp_hole_punching: bool,
    pub lazy_p2p: bool,
    pub need_p2p: bool,
    pub instance_recv_bps_limit: u64,
    pub disable_upnp: bool,
    pub disable_relay_data: bool,
    pub enable_udp_broadcast_relay: bool,
}

/// The flag values a new profile starts with: the core's own defaults, except
/// that private mode starts enabled.
pub open spec fn is_default_flags(f: EasyTierFlags) -> bool {
    &&& f.default_protocol@ == "tcp"@
    &&& f.dev_name@ == ""@
    &&& f.enable_encryption == true
    &&& f.enable_ipv6 == true
    &&& f.mtu == 1380
    &&& f.latency_first == false
    &&& f.enable_exit_node == false
    &&& f.no_tun == false
    &&& f.use_smoltcp == false
    &&& f.relay_network_whitelist@ == "*"@
    &&& f.disable_p2p == false
    &&& f.relay_all_peer_rpc == false
    &&& f.disable_udp_hole_punching == false
    &&& f.multi_thread == true
    &&& f.data_compress_algo == 1
    &&& f.bind_device == true
    &&& f.enable_kcp_proxy == false
    &&& f.disable_kcp_input == false
    &&& f.disable_relay_kcp == false
    &&& f.proxy_forward_by_system == false
    &&& f.accept_dns == false
    &&& f.private_mode == true
    &&& f.enable_quic_proxy == false
    &&& f.disable_quic_input == false
    &&& f.disable_relay_quic == false
    &&& f.quic_listen_port == u32::MAX
    &&& f.foreign_relay_bps_limit == u64::MAX
    &&& f.multi_thread_count == 2
    &&& f.enable_relay_foreign_network_kcp == false
    &&& f.enable_relay_foreign_network_quic == false
    &&& f.encryption_algorithm@ == "aes-gcm"@
    &&& f.disable_sym_hole_punching == false
    &&& f.tld_dns_zone@ == "et.net."@
    &&& f.p2p_only == false
    &&& f.disable_tcp_hole_punching == false
    &&& f.lazy_p2p == false
    &&& f.need_p2p == false
    &&& f.instance_recv_bps_limit == u64::MAX
    &&& f.disable_upnp == false
    &&& f.disable_relay_data == false
    &&& f.enable_udp_broadcast_relay == false
}

impl Default for EasyTierFlags {
    fn default() -> (r: Self)
        ensures
            is_default_flags(r),
    {
        EasyTierFlags {
            default_protocol: owned("tcp"),
            dev_name: owned(""),
            enable_encryption: true,
            enable_ipv6: true,
            mtu: 1380,
            latency_first: false,
            enable_exit_node: false,
            no_tun: false,
            use_smoltcp: false,
            relay_network_whitelist: owned("*"),
            disable_p2p: false,
            relay_all_peer_rpc: false,
            disable_udp_hole_punching: false,
            multi_thread: true,
            data_compress_algo: 1,
            bind_device: true,
            enable_kcp_proxy: false,
            disable_kcp_input: false,
            disable_relay_kcp: false,
            proxy_forward_by_system: false,
            accept_dns: false,
            private_mode: true,
            enable_quic_proxy: false,
            disable_quic_input: false,
            disable_relay_quic: false,
            quic_listen_port: u32::MAX,
            foreign_relay_bps_limit: u64::MAX,
            multi_thread_count: 2,
            enable_relay_foreign_network_kcp: false,
            enable_relay_foreign_network_quic: false,
            encryption_algorithm: owned("aes-gcm"),
            disable_sym_hole_punching: false,
            tld_dns_zone: owned("et.net."),
            p2p_only: false,
            disable_tcp_hole_punching: false,
            lazy_p2p: false,
            need_p2p: false,
            instance_recv_bps_limit: u64::MAX,
            disable_upnp: false,
            disable_relay_data: false,
            enable_udp_broadcast_relay: false,
        }
    }
}

impl EasyTierFlags {
    /// A field-by-field copy.
    pub fn duplicate(&self) -> (r: Self)
        ensures
            r == *self,
    {
        EasyTierFlags {
            default_protocol: self.default_protocol.clone(),
            dev_name: self.dev_name.clone(),
            enable_encryption: self.enable_encryption,
            enable_ipv6: self.enable_ipv6,
            mtu: self.mtu,
            latency_first: self.latency_first,
            enable_exit_node: self.enable_exit_node,
            no_tun: self.no_tun,
            use_smoltcp: self.use_smoltcp,
            relay_network_whitelist: self.relay_network_whitelist.clone(),
            disable_p2p: self.disable_p2p,
            relay_all_peer_rpc: self.relay_all_peer_rpc,
            disable_udp_hole_punching: self.disable_udp_hole_punching,
            multi_thread: self.multi_thread,
            data_compress_algo: self.data_compress_algo,
            bind_device: self.bind_device,
            enable_kcp_proxy: self.enable_kcp_proxy,
            disable_kcp_input: self.disable_kcp_input,
            disable_relay_kcp: self.disable_relay_kcp,
            proxy_forward_by_system: self.proxy_forward_by_system,
            accept_dns: self.accept_dns,
            private_mode: self.private_mode,
            enable_quic_proxy: self.enable_quic_proxy,
            disable_quic_input: self.disable_quic_input,
            disable_relay_quic: self.disable_relay_quic,
            quic_listen_port: self.quic_listen_port,
            foreign_relay_bps_limit: self.foreign_relay_bps_limit,
            multi_thread_count: self.multi_thread_count,
            enable_relay_foreign_network_kcp: self.enable_relay_foreign_network_kcp,
            enable_relay_foreign_network_quic: self.enable_relay_foreign_network_quic,
            encryption_algorithm: self.encryption_algorithm.clone(),
            disable_sym_hole_punching: self.disable_sym_hole_punching,
            tld_dns_zone: self.tld_dns_zone.clone(),
            p2p_only: self.p2p_only,
            disable_tcp_hole_punching: self.disable_tcp_hole_punching,
            lazy_p2p: self.lazy_p2p,
            need_p2p: self.need_p2p,
            instance_recv_bps_limit: self.instance_recv_bps_limit,
            disable_upnp: self.disable_upnp,
            disable_relay_data: self.disable_relay_data,
            enable_udp_broadcast_relay: self.enable_udp_broadcast_relay,
        }
    }
}


/// A network secret.  It has no `Debug` form, so it cannot reach a log line
/// through formatting.
#[derive(Clone, PartialEq, Eq)]
pub struct SecretString(String);

impl View for SecretString {
    type V = Seq<char>;

    closed spec fn view(&self) -> Seq<char> {
        self.0@
    }
}

impl SecretString {
    pub fn new(value: String) -> (r: Self)
        ensures
            r@ == value@,
    {
        SecretString(value)
    }

    pub fn expose(&self) -> (r: &str)
        ensures
            r@ == self@,
    {
        self.0.as_str()
    }

    pub fn duplicate(&self) -> (r: Self)
        ensures
            r == *self,
    {
        SecretString(self.0.clone())
    }
}

#[derive(Clone, Debug, PartialEq, Eq)]
pub enum AddressMode {
    Dhcp,
    Static { cidr: String },
}

impl AddressMode {
    pub fn duplicate(&self) -> (r: Self)
        ensures
            r == *self,
    {
        match self {
            AddressMode::Dhcp => AddressMode::Dhcp,
            AddressMode::Static { cidr } => AddressMode::Static { cidr: cidr.clone() },
        }
    }
}

/// Service-owned EasyTier profile data.  Network identity and runtime
/// placement stay service-controlled; all flags offered by the bundled core
/// are stored as typed data.
#[derive(Clone, PartialEq, Eq)]
pub struct NetworkProfile {
    pub id: String,
    pub name: String,
    pub instance_name: String,
    pub hostname: String,
    pub network_name: String,
    pub network_secret: SecretString,
    pub address_mode: AddressMode,
    pub peers: Vec<String>,
    pub flags: EasyTierFlags,
    pub auto_connect: bool,
}

/// The mathematical form of an [`AddressMode`].
pub ghost enum AddressModel {
    Dhcp,
    Static(Seq<char>),
}

impl View for AddressMode {
    type V = AddressModel;

    open spec fn view(&self) -> AddressModel {
        match self {
            AddressMode::Dhcp => AddressModel::Dhcp,
            AddressMode::Static { cidr } => AddressModel::Static(cidr@),
        }
    }
}

/// The mathematical form of a [`NetworkProfile`].
pub ghost struct ProfileModel {
    pub id: Seq<char>,
    pub name: Seq<char>,
    pub instance_name: Seq<char>,
    pub hostname: Seq<char>,
    pub network_name: Seq<char>,
    pub network_secret: Seq<char>,
    pub address_mode: AddressModel,
    pub peers: Seq<Seq<char>>,
    pub flags: EasyTierFlags,
    pub auto_connect: bool,
}

/// The texts of a list of strings.
pub open spec fn texts(v: Seq<String>) -> Seq<Seq<char>> {
    v.map_values(|s: String| s@)
}

impl View for NetworkProfile {
    type V = ProfileModel;

    open spec fn view(&self) -> ProfileModel {
        ProfileModel {
            id: self.id@,
            name: self.name@,
            instance_name: self.instance_name@,
            hostname: self.hostname@,
            network_name: self.network_name@,
            network_secret: self.network_secret@,
            address_mode: self.address_mode@,
            peers: texts(self.peers@),
            flags: self.flags,
            auto_connect: self.auto_connect,
        }
    }
}

#[derive(Clone, Debug, PartialEq, Eq)]
pub enum ProfileError {
    InvalidField { field: &'static str, reason: String },
    DisallowedTomlKey { path: String },
    InvalidToml(String),
}

/// The mathematical form of a [`ProfileError`].
pub ghost enum ProfileFault {
    InvalidField(Seq<char>, Seq<char>),
    DisallowedTomlKey(Seq<char>),
    InvalidToml(Seq<char>),
}

impl View for ProfileError {
    type V = ProfileFault;

    open spec fn view(&self) -> ProfileFault {
        match self {
            ProfileError::InvalidField { field, reason } => ProfileFault::InvalidField(
                field@,
                reason@,
            ),
            ProfileError::DisallowedTomlKey { path } => ProfileFault::DisallowedTomlKey(path@),
            ProfileError::InvalidToml(detail) => ProfileFault::InvalidToml(detail@),
        }
    }
}

/// The text that `Display` gives a profile error.
pub open spec fn profile_fault_text(f: ProfileFault) -> Seq<char> {
    match f {
        ProfileFault::InvalidField(field, reason) => "invalid "@ + field + ": "@ + reason,
        ProfileFault::DisallowedTomlKey(path) => "unsupported EasyTier TOML key: "@ + path,
        ProfileFault::InvalidToml(detail) => "invalid EasyTier TOML: "@ + detail,
    }
}

impl ProfileError {
    /// The human-readable message of this error.
    pub fn message(&self) -> (r: String)
        ensures
            r@ == profile_fault_text(self@),
    {
        match self {
            ProfileError::InvalidField { field, reason } => {
                let mut r = concat3("invalid ", field, ": ");
                crate::text::append_str(&mut r, reason.as_str());
                r
            },
            ProfileError::DisallowedTomlKey { path } => crate::text::concat2(
                "unsupported EasyTier TOML key: ",
                path.as_str(),
            ),
            ProfileError::InvalidToml(detail) => crate::text::concat2(
                "invalid EasyTier TOML: ",
                detail.as_str(),
            ),
        }
    }
}

/// How a check turned out: `Ok` exactly when no fault was found, and the
/// first fault otherwise.
pub open spec fn outcome_is(r: Result<(), ProfileError>, f: Option<ProfileFault>) -> bool {
    match r {
        Ok(_) => f is None,
        Err(e) => f == Some(e@),
    }
}

/// The first of two faults.
pub open spec fn first_fault(a: Option<ProfileFault>, b: Option<ProfileFault>) -> Option<
    ProfileFault,
> {
    if a is Some {
        a
    } else {
        b
    }
}

pub open spec fn field_fault(field: Seq<char>, reason: Seq<char>) -> Option<ProfileFault> {
    Some(ProfileFault::InvalidField(field, reason))
}

pub fn invalid(field: &'static str, reason: &str) -> (r: ProfileError)
    ensures
        r@ == ProfileFault::InvalidField(field@, reason@),
{
    ProfileError::InvalidField { field, reason: owned(reason) }
}

// ---------------------------------------------------------------------------
// Text fields
// ---------------------------------------------------------------------------

pub open spec fn too_long_reason(max_chars: nat) -> Seq<char> {
    "must not exceed "@ + decimal_text(max_chars) + " characters"@
}

/// A free-text field: not blank (unless allowed), at most `max_chars`
/// characters and no control characters.
pub open spec fn text_fault(field: Seq<char>, value: Seq<char>, max_chars: nat, allow_empty: bool) -> Option<
    ProfileFault,
> {
    if !allow_empty && is_blank(value) {
        field_fault(field, "must not be empty"@)
    } else if value.len() > max_chars {
        field_fault(field, too_long_reason(max_chars))
    } else if has_control(value) {
        field_fault(field, "must not contain control characters"@)
    } else {
        None
    }
}

pub fn validate_flag_text(field: &'static str, value: &str, max_chars: usize, allow_empty: bool) -> (r:
    Result<(), ProfileError>)
    ensures
        outcome_is(r, text_fault(field@, value@, max_chars as nat, allow_empty)),
{
    let chars = chars_vec(value);
    if !allow_empty && chars_blank(chars.as_slice()) {
        return Err(invalid(field, "must not be empty"));
    }
    if chars.len() > max_chars {
        let reason = concat3("must not exceed ", decimal_string(max_chars as u64).as_str(), " characters");
        return Err(ProfileError::InvalidField { field, reason });
    }
    if chars_have_control(chars.as_slice()) {
        return Err(invalid(field, "must not contain control characters"));
    }
    Ok(())
}

pub fn validate_text(field: &'static str, value: &str, max_chars: usize) -> (r: Result<(), ProfileError>)
    ensures
        outcome_is(r, text_fault(field@, value@, max_chars as nat, false)),
{
    validate_flag_text(field, value, max_chars, false)
}

/// A name the host may use as a device name.
pub open spec fn usable_hostname(value: Seq<char>) -> bool {
    !is_blank(value) && value.len() <= 63 && !has_control(value)
}

pub fn is_usable_hostname(value: &str) -> (r: bool)
    ensures
        r == usable_hostname(value@),
{
    let chars = chars_vec(value);
    !chars_blank(chars.as_slice()) && chars.len() <= 63 && !chars_have_control(chars.as_slice())
}

/// The first usable of the environment's name values, each trimmed.
pub open spec fn first_usable(values: Seq<Seq<char>>) -> Option<Seq<char>>
    decreases values.len(),
{
    if values.len() == 0 {
        None
    } else if usable_hostname(trim(values[0])) {
        Some(trim(values[0]))
    } else {
        first_usable(values.drop_first())
    }
}

/// The name of the local computer: the system's own name when it is
/// usable, else the first usable of the `COMPUTERNAME` and `HOSTNAME`
/// values, else `vibe-easytier`.
pub open spec fn computer_name_of(system_name: Option<Seq<char>>, env_values: Seq<Seq<char>>) -> Seq<char> {
    match system_name {
        Some(n) if usable_hostname(n) => n,
        _ => match first_usable(env_values) {
            Some(v) => v,
            None => "vibe-easytier"@,
        },
    }
}

pub fn computer_name_from(system_name: Option<String>, env_values: Vec<String>) -> (r: String)
    ensures
        r@ == computer_name_of(crate::protocol::opt_text(system_name), texts(env_values@)),
{
    match &system_name {
        Some(n) => {
            if is_usable_hostname(n.as_str()) {
                return n.clone();
            }
        },
        None => {},
    }
    let ghost all = texts(env_values@);
    assert(all.skip(0) =~= all);
    let mut i: usize = 0;
    while i < env_values.len()
        invariant
            i <= env_values@.len(),
            all == texts(env_values@),
            first_usable(all) == first_usable(all.skip(i as int)),
            computer_name_of(crate::protocol::opt_text(system_name), all) == match first_usable(all) {
                Some(v) => v,
                None => "vibe-easytier"@,
            },
        decreases env_values@.len() - i,
    {
        assert(all.skip(i as int)[0] == env_values@[i as int]@);
        assert(all.skip(i as int).drop_first() =~= all.skip(i + 1));
        let t = crate::text::string_from_chars(chars_trim(chars_vec(env_values[i].as_str()).as_slice()).as_slice());
        if is_usable_hostname(t.as_str()) {
            return t;
        }
        i = i + 1;
    }
    assert(all.skip(env_values@.len() as int) =~= Seq::<Seq<char>>::empty());
    owned("vibe-easytier")
}

pub open spec fn is_identifier_char(c: char) -> bool {
    is_ascii_alphanumeric(c) || c == '-' || c == '_'
}

/// Identifiers: 1 to 64 ASCII letters, digits, hyphens or underscores.
pub open spec fn is_identifier(value: Seq<char>) -> bool {
    &&& 1 <= value.len() <= 64
    &&& forall|i: int| 0 <= i < value.len() ==> is_identifier_char(#[trigger] value[i])
}

pub open spec fn identifier_fault(field: Seq<char>, value: Seq<char>) -> Option<ProfileFault> {
    if is_identifier(value) {
        None
    } else {
        field_fault(field, "use 1-64 ASCII letters, numbers, hyphens, or underscores"@)
    }
}

pub fn validate_identifier(field: &'static str, value: &str) -> (r: Result<(), ProfileError>)
    ensures
        outcome_is(r, identifier_fault(field@, value@)),
{
    let chars = chars_vec(value);
    let mut valid = chars.len() >= 1 && chars.len() <= 64;
    let mut i: usize = 0;
    while valid && i < chars.len()
        invariant
            i <= chars@.len(),
            chars@ == value@,
            valid ==> 1 <= chars@.len() <= 64,
            valid ==> forall|j: int| 0 <= j < i ==> is_identifier_char(#[trigger] chars@[j]),
            !valid ==> !is_identifier(value@),
        decreases chars@.len() - i,
    {
        let c = chars[i];
        if !(is_alphanumeric(c) || c == '-' || c == '_') {
            valid = false;
        }
        i = i + 1;
    }
    if valid {
        Ok(())
    } else {
        Err(invalid(field, "use 1-64 ASCII letters, numbers, hyphens, or underscores"))
    }
}


// ---------------------------------------------------------------------------
// Virtual IPv4 address
// ---------------------------------------------------------------------------

/// One dotted-quad group as `Ipv4Addr::from_str` accepts it: one to three
/// decimal digits, no leading zero, at most 255.
pub open spec fn octet_ok(p: Seq<char>) -> bool {
    &&& 1 <= p.len() <= 3
    &&& all_ascii_digits(p)
    &&& (p.len() == 1 || p[0] != '0')
    &&& digits_value(p) <= 255
}

/// A dotted-quad IPv4 address: exactly four groups separated by dots.
pub open spec fn is_ipv4_text(s: Seq<char>) -> bool {
    match index_of_from(s, '.', 0) {
        None => false,
        Some(a) => match index_of_from(s, '.', a + 1) {
            None => false,
            Some(b) => match index_of_from(s, '.', b + 1) {
                None => false,
                Some(c) => {
                    &&& index_of_from(s, '.', c + 1) is None
                    &&& octet_ok(s.subrange(0, a))
                    &&& octet_ok(s.subrange(a + 1, b))
                    &&& octet_ok(s.subrange(b + 1, c))
                    &&& octet_ok(s.subrange(c + 1, s.len() as int))
                },
            },
        },
    }
}

fn octet_valid(p: &[char]) -> (r: bool)
    ensures
        r == octet_ok(p@),
{
    if p.len() < 1 || p.len() > 3 || !chars_all_digits(p) {
        return false;
    }
    if p.len() > 1 && p[0] == '0' {
        return false;
    }
    assert(p@[0] != '+');
    match crate::text::parse_u64(p) {
        Some(v) => v <= 255,
        None => false,
    }
}

pub fn is_ipv4_address(s: &[char]) -> (r: bool)
    ensures
        r == is_ipv4_text(s@),
{
    proof {
        crate::text::lemma_index_of_from(s@, '.', 0);
    }
    let a = match chars_index_of(s, '.', 0) {
        Some(a) => a,
        None => {
            return false;
        },
    };
    proof {
        crate::text::lemma_index_of_from(s@, '.', a + 1);
    }
    let b = match chars_index_of(s, '.', a + 1) {
        Some(b) => b,
        None => {
            return false;
        },
    };
    proof {
        crate::text::lemma_index_of_from(s@, '.', b + 1);
    }
    let c = match chars_index_of(s, '.', b + 1) {
        Some(c) => c,
        None => {
            return false;
        },
    };
    if chars_index_of(s, '.', c + 1).is_some() {
        return false;
    }
    let p0 = chars_slice(s, 0, a);
    let p1 = chars_slice(s, a + 1, b);
    let p2 = chars_slice(s, b + 1, c);
    let p3 = chars_slice(s, c + 1, s.len());
    octet_valid(p0.as_slice()) && octet_valid(p1.as_slice()) && octet_valid(p2.as_slice())
        && octet_valid(p3.as_slice())
}

pub open spec fn ipv4_field() -> Seq<char> {
    "static ipv4"@
}

/// A fixed virtual address in `address/prefix` form.
pub open spec fn ipv4_cidr_fault(cidr: Seq<char>) -> Option<ProfileFault> {
    match index_of_from(cidr, '/', 0) {
        None => field_fault(ipv4_field(), "must use address/prefix notation"@),
        Some(i) => {
            let prefix = crate::text::parse_u64_text(cidr.subrange(i + 1, cidr.len() as int));
            if !is_ipv4_text(cidr.subrange(0, i)) {
                field_fault(ipv4_field(), "contains an invalid IPv4 address"@)
            } else if prefix is None || prefix->0 > 255 {
                field_fault(ipv4_field(), "contains an invalid prefix length"@)
            } else if prefix->0 > 32 {
                field_fault(ipv4_field(), "prefix length must be at most 32"@)
            } else {
                None
            }
        },
    }
}

pub fn validate_ipv4_cidr(cidr: &str) -> (r: Result<(), ProfileError>)
    ensures
        outcome_is(r, ipv4_cidr_fault(cidr@)),
{
    let chars = chars_vec(cidr);
    proof {
        crate::text::lemma_index_of_from(chars@, '/', 0);
    }
    let slash = match chars_index_of(chars.as_slice(), '/', 0) {
        Some(i) => i,
        None => {
            return Err(invalid("static ipv4", "must use address/prefix notation"));
        },
    };
    let address = chars_slice(chars.as_slice(), 0, slash);
    let prefix = chars_slice(chars.as_slice(), slash + 1, chars.len());
    if !is_ipv4_address(address.as_slice()) {
        return Err(invalid("static ipv4", "contains an invalid IPv4 address"));
    }
    match crate::text::parse_u64(prefix.as_slice()) {
        Some(v) => {
            if v > 255 {
                Err(invalid("static ipv4", "contains an invalid prefix length"))
            } else if v > 32 {
                Err(invalid("static ipv4", "prefix length must be at most 32"))
            } else {
                Ok(())
            }
        },
        None => Err(invalid("static ipv4", "contains an invalid prefix length")),
    }
}

// ---------------------------------------------------------------------------
// Bootstrap peers
// ---------------------------------------------------------------------------

/// The parts of a parsed URL that the peer rules read, as `url::Url`
/// reports them.
#[derive(Clone, Debug, PartialEq, Eq)]
pub struct UrlParts {
    pub scheme: String,
    pub host: Option<String>,
    pub port: Option<u16>,
    pub username: String,
    pub password: Option<String>,
    pub query: Option<String>,
    pub fragment: Option<String>,
}

/// What `url::Url::parse` makes of `input`: `None` where it reports an error.
pub uninterp spec fn url_parse(input: Seq<char>) -> Option<UrlParts>;

/// `url::Url::parse`, read through its accessors.
#[verifier::external_body]
fn parse_url(input: &str) -> (r: Option<UrlParts>)
    ensures
        r == url_parse(input@),
{
    url::Url::parse(input).ok().map(|url| UrlParts {
        scheme: url.scheme().to_owned(),
        host: url.host_str().map(str::to_owned),
        port: url.port(),
        username: url.username().to_owned(),
        password: url.password().map(str::to_owned),
        query: url.query().map(str::to_owned),
        fragment: url.fragment().map(str::to_owned),
    })
}

pub open spec fn scheme_separator() -> Seq<char> {
    seq![':', '/', '/']
}

pub open spec fn is_authority_delimiter(c: char) -> bool {
    c == '/' || c == '?' || c == '#'
}

/// The position of the first `/`, `?` or `#` at or after `i`, or the end.
pub open spec fn authority_end_from(s: Seq<char>, i: int) -> int
    decreases s.len() - i,
{
    if i < 0 || i >= s.len() {
        s.len() as int
    } else if is_authority_delimiter(s[i]) {
        i
    } else {
        authority_end_from(s, i + 1)
    }
}

/// The authority with any `user:password@` part removed.
pub open spec fn host_and_port(authority: Seq<char>) -> Seq<char> {
    match last_index_before(authority, '@', authority.len() as int) {
        Some(a) => authority.subrange(a + 1, authority.len() as int),
        None => authority,
    }
}

/// The text after the port colon, if the host part has one.
pub open spec fn port_text(hp: Seq<char>) -> Option<Seq<char>> {
    if hp.len() > 0 && hp[0] == '[' {
        let inner = hp.subrange(1, hp.len() as int);
        match index_of_from(inner, ']', 0) {
            None => None,
            Some(c) => {
                let after = inner.subrange(c + 1, inner.len() as int);
                if after.len() > 0 && after[0] == ':' {
                    Some(after.subrange(1, after.len() as int))
                } else {
                    None
                }
            },
        }
    } else {
        match last_index_before(hp, ':', hp.len() as int) {
            Some(c) => if c > 0 {
                Some(hp.subrange(c + 1, hp.len() as int))
            } else {
                None
            },
            None => None,
        }
    }
}

/// Whether the URI text itself names a port: `url` drops a scheme's default
/// port, so the literal text is inspected too.
pub open spec fn explicit_port(value: Seq<char>) -> bool {
    match find_text_from(value, scheme_separator(), 0) {
        None => false,
        Some(k) => {
            let rest = value.subrange(k + 3, value.len() as int);
            let authority = rest.subrange(0, authority_end_from(rest, 0));
            match port_text(host_and_port(authority)) {
                Some(p) => p.len() > 0 && all_ascii_digits(p),
                None => false,
            }
        },
    }
}

proof fn lemma_authority_end(s: Seq<char>, i: int)
    requires
        0 <= i <= s.len(),
    ensures
        i <= authority_end_from(s, i) <= s.len(),
    decreases s.len() - i,
{
    if i < s.len() && !is_authority_delimiter(s[i]) {
        lemma_authority_end(s, i + 1);
    }
}

fn authority_end(s: &[char]) -> (r: usize)
    ensures
        r as int == authority_end_from(s@, 0),
        r <= s@.len(),
{
    proof {
        lemma_authority_end(s@, 0);
    }
    let mut i: usize = 0;
    while i < s.len()
        invariant
            i <= s@.len(),
            authority_end_from(s@, 0) == authority_end_from(s@, i as int),
        decreases s@.len() - i,
    {
        let c = s[i];
        if c == '/' || c == '?' || c == '#' {
            return i;
        }
        i = i + 1;
    }
    i
}

fn port_text_of(hp: &[char]) -> (r: Option<Vec<char>>)
    ensures
        match r {
            Some(p) => port_text(hp@) == Some(p@),
            None => port_text(hp@) is None,
        },
{
    if hp.len() > 0 && hp[0] == '[' {
        let inner = chars_slice(hp, 1, hp.len());
        proof {
            crate::text::lemma_index_of_from(inner@, ']', 0);
        }
        match chars_index_of(inner.as_slice(), ']', 0) {
            None => None,
            Some(c) => {
                let after = chars_slice(inner.as_slice(), c + 1, inner.len());
                if after.len() > 0 && after[0] == ':' {
                    Some(chars_slice(after.as_slice(), 1, after.len()))
                } else {
                    None
                }
            },
        }
    } else {
        proof {
            crate::text::lemma_last_index_before(hp@, ':', hp@.len() as int);
        }
        match chars_last_index_of(hp, ':') {
            Some(c) => {
                if c > 0 {
                    Some(chars_slice(hp, c + 1, hp.len()))
                } else {
                    None
                }
            },
            None => None,
        }
    }
}

pub fn has_explicit_port(value: &str) -> (r: bool)
    ensures
        r == explicit_port(value@),
{
    let chars = chars_vec(value);
    let separator = vec![':', '/', '/'];
    assert(separator@ =~= scheme_separator());
    proof {
        crate::text::lemma_find_text_from(chars@, scheme_separator(), 0);
    }
    let k = match chars_find(chars.as_slice(), separator.as_slice(), 0) {
        Some(k) => k,
        None => {
            return false;
        },
    };
    let rest = chars_slice(chars.as_slice(), k + 3, chars.len());
    let end = authority_end(rest.as_slice());
    let authority = chars_slice(rest.as_slice(), 0, end);
    proof {
        crate::text::lemma_last_index_before(authority@, '@', authority@.len() as int);
    }
    let hp = match chars_last_index_of(authority.as_slice(), '@') {
        Some(a) => chars_slice(authority.as_slice(), a + 1, authority.len()),
        None => authority,
    };
    match port_text_of(hp.as_slice()) {
        Some(p) => p.len() > 0 && chars_all_digits(p.as_slice()),
        None => false,
    }
}

pub open spec fn is_peer_scheme(s: Seq<char>) -> bool {
    s == "tcp"@ || s == "udp"@ || s == "wg"@ || s == "ws"@ || s == "wss"@
}

pub open spec fn peer_field() -> Seq<char> {
    "peer"@
}

/// The peer rules applied to a URI and what `url` parsed from it.
pub open spec fn peer_uri_fault(value: Seq<char>, parsed: Option<UrlParts>) -> Option<ProfileFault> {
    match parsed {
        None => field_fault(peer_field(), "must be a valid URI"@),
        Some(u) => if !is_peer_scheme(u.scheme@) {
            field_fault(peer_field(), "only tcp, udp, wg, ws, and wss are supported"@)
        } else if u.host is None || (u.port is None && !explicit_port(value)) {
            field_fault(peer_field(), "must include a host and port"@)
        } else if u.username@.len() != 0 || u.password is Some || u.query is Some
            || u.fragment is Some {
            field_fault(peer_field(), "must not contain credentials, query, or fragment"@)
        } else {
            None
        },
    }
}

/// Applies the peer rules to `value`, given what `url` parsed from it.
pub fn check_peer_uri(value: &str, parsed: &Option<UrlParts>) -> (r: Result<(), ProfileError>)
    ensures
        outcome_is(r, peer_uri_fault(value@, *parsed)),
{
    let u = match parsed {
        None => {
            return Err(invalid("peer", "must be a valid URI"));
        },
        Some(u) => u,
    };
    let scheme = u.scheme.as_str();
    if !(str_eq(scheme, "tcp") || str_eq(scheme, "udp") || str_eq(scheme, "wg") || str_eq(
        scheme,
        "ws",
    ) || str_eq(scheme, "wss")) {
        return Err(invalid("peer", "only tcp, udp, wg, ws, and wss are supported"));
    }
    if u.host.is_none() || (u.port.is_none() && !has_explicit_port(value)) {
        return Err(invalid("peer", "must include a host and port"));
    }
    if !u.username.as_str().is_empty() || u.password.is_some() || u.query.is_some()
        || u.fragment.is_some() {
        return Err(invalid("peer", "must not contain credentials, query, or fragment"));
    }
    Ok(())
}

pub open spec fn peer_fault(value: Seq<char>) -> Option<ProfileFault> {
    peer_uri_fault(value, url_parse(value))
}

/// A bootstrap peer: a `tcp`, `udp`, `wg`, `ws` or `wss` URI with a host and
/// a literal port, and no credentials, query or fragment.
pub fn validate_peer_uri(value: &str) -> (r: Result<(), ProfileError>)
    ensures
        outcome_is(r, peer_fault(value@)),
{
    let parsed = parse_url(value);
    check_peer_uri(value, &parsed)
}

/// Whether peer `i` repeats an earlier one.
pub open spec fn repeats_earlier(peers: Seq<Seq<char>>, i: int) -> bool {
    exists|j: int| 0 <= j < i && #[trigger] peers[j] == peers[i]
}

pub open spec fn peer_fault_at(peers: Seq<Seq<char>>, i: int) -> Option<ProfileFault> {
    first_fault(
        peer_fault(peers[i]),
        if repeats_earlier(peers, i) {
            field_fault("peers"@, "duplicate bootstrap peer"@)
        } else {
            None
        },
    )
}

/// The first fault among the first `n` peers, in list order.
pub open spec fn peer_list_fault(peers: Seq<Seq<char>>, n: int) -> Option<ProfileFault>
    decreases n,
{
    if n <= 0 {
        None
    } else {
        first_fault(peer_list_fault(peers, n - 1), peer_fault_at(peers, n - 1))
    }
}

pub open spec fn peers_fault(peers: Seq<Seq<char>>) -> Option<ProfileFault> {
    if peers.len() == 0 {
        field_fault("peers"@, "at least one private bootstrap peer is required"@)
    } else if peers.len() > MAX_PEERS {
        field_fault("peers"@, "at most "@ + decimal_text(MAX_PEERS as nat) + " peers are allowed"@)
    } else {
        peer_list_fault(peers, peers.len() as int)
    }
}

proof fn lemma_peer_list_fault_stays(peers: Seq<Seq<char>>, k: int, n: int)
    requires
        0 <= k <= n,
        peer_list_fault(peers, k) is Some,
    ensures
        peer_list_fault(peers, n) == peer_list_fault(peers, k),
    decreases n - k,
{
    if n > k {
        lemma_peer_list_fault_stays(peers, k, n - 1);
    }
}

fn repeats_earlier_exec(peers: &Vec<String>, i: usize) -> (r: bool)
    requires
        i < peers@.len(),
    ensures
        r == repeats_earlier(texts(peers@), i as int),
{
    let mut j: usize = 0;
    while j < i
        invariant
            i < peers@.len(),
            j <= i,
            forall|k: int| 0 <= k < j ==> peers@[k]@ != peers@[i as int]@,
        decreases i - j,
    {
        if peers[j] == peers[i] {
            assert(texts(peers@)[j as int] == texts(peers@)[i as int]);
            return true;
        }
        j = j + 1;
    }
    assert forall|k: int| 0 <= k < i implies texts(peers@)[k] != texts(peers@)[i as int] by {
        assert(texts(peers@)[k] == peers@[k]@);
    }
    false
}

pub fn validate_peers(peers: &Vec<String>) -> (r: Result<(), ProfileError>)
    ensures
        outcome_is(r, peers_fault(texts(peers@))),
{
    if peers.len() == 0 {
        return Err(invalid("peers", "at least one private bootstrap peer is required"));
    }
    if peers.len() > MAX_PEERS {
        let reason = concat3("at most ", decimal_string(MAX_PEERS as u64).as_str(), " peers are allowed");
        return Err(ProfileError::InvalidField { field: "peers", reason });
    }
    let mut i: usize = 0;
    while i < peers.len()
        invariant
            i <= peers@.len(),
            0 < peers@.len() <= MAX_PEERS,
            peer_list_fault(texts(peers@), i as int) is None,
        decreases peers@.len() - i,
    {
        match validate_peer_uri(peers[i].as_str()) {
            Err(e) => {
                proof {
                    assert(peer_fault_at(texts(peers@), i as int) == Some(e@));
                    assert(peer_list_fault(texts(peers@), i + 1) == Some(e@));
                    lemma_peer_list_fault_stays(texts(peers@), i + 1, peers@.len() as int);
                }
                return Err(e);
            },
            Ok(()) => {},
        }
        if repeats_earlier_exec(peers, i) {
            proof {
                assert(peer_list_fault(texts(peers@), i + 1) == field_fault(
                    "peers"@,
                    "duplicate bootstrap peer"@,
                ));
                lemma_peer_list_fault_stays(texts(peers@), i + 1, peers@.len() as int);
            }
            return Err(invalid("peers", "duplicate bootstrap peer"));
        }
        i = i + 1;
    }
    Ok(())
}


// ---------------------------------------------------------------------------
// Flags
// ---------------------------------------------------------------------------

/// TOML integers are signed: a BPS limit is either the unlimited sentinel or
/// fits in `i64`.
pub open spec fn bps_limit_fault(field: Seq<char>, value: u64) -> Option<ProfileFault> {
    if value != u64::MAX && value > i64::MAX {
        field_fault(field, "must not exceed TOML's signed 64-bit integer range unless unlimited"@)
    } else {
        None
    }
}

pub fn validate_toml_bps_limit(field: &'static str, value: u64) -> (r: Result<(), ProfileError>)
    ensures
        outcome_is(r, bps_limit_fault(field@, value)),
{
    if value != u64::MAX && value > i64::MAX as u64 {
        return Err(
            invalid(field, "must not exceed TOML's signed 64-bit integer range unless unlimited"),
        );
    }
    Ok(())
}

pub open spec fn is_encryption_algorithm(s: Seq<char>) -> bool {
    s == ""@ || s == "xor"@ || s == "aes-gcm"@ || s == "aes-256-gcm"@ || s == "chacha20"@
}

/// The flag rules, checked in this order.
pub open spec fn flags_fault(f: EasyTierFlags) -> Option<ProfileFault> {
    first_fault(
        text_fault("flags.default_protocol"@, f.default_protocol@, 32, false),
        first_fault(
            text_fault("flags.dev_name"@, f.dev_name@, 128, true),
            first_fault(
                text_fault("flags.relay_network_whitelist"@, f.relay_network_whitelist@, 4096, true),
                if f.mtu == 0 {
                    field_fault("flags.mtu"@, "must be greater than zero"@)
                } else if !(f.data_compress_algo == 1 || f.data_compress_algo == 2) {
                    field_fault("flags.data_compress_algo"@, "must be 1 (none) or 2 (zstd)"@)
                } else if f.multi_thread_count == 0 {
                    field_fault("flags.multi_thread_count"@, "must be greater than zero"@)
                } else if f.quic_listen_port != u32::MAX && f.quic_listen_port > u16::MAX {
                    field_fault(
                        "flags.quic_listen_port"@,
                        "must be a TCP/UDP port (0-65535) or the unlimited sentinel"@,
                    )
                } else {
                    first_fault(
                        bps_limit_fault("flags.foreign_relay_bps_limit"@, f.foreign_relay_bps_limit),
                        first_fault(
                            bps_limit_fault(
                                "flags.instance_recv_bps_limit"@,
                                f.instance_recv_bps_limit,
                            ),
                            if !is_encryption_algorithm(f.encryption_algorithm@) {
                                field_fault(
                                    "flags.encryption_algorithm"@,
                                    "must be xor, aes-gcm, aes-256-gcm, chacha20, or empty for the core default"@,
                                )
                            } else {
                                text_fault("flags.tld_dns_zone"@, f.tld_dns_zone@, 253, false)
                            },
                        ),
                    )
                },
            ),
        ),
    )
}

impl EasyTierFlags {
    pub fn validate(&self) -> (r: Result<(), ProfileError>)
        ensures
            outcome_is(r, flags_fault(*self)),
    {
        validate_flag_text("flags.default_protocol", self.default_protocol.as_str(), 32, false)?;
        validate_flag_text("flags.dev_name", self.dev_name.as_str(), 128, true)?;
        validate_flag_text(
            "flags.relay_network_whitelist",
            self.relay_network_whitelist.as_str(),
            4096,
            true,
        )?;
        if self.mtu == 0 {
            return Err(invalid("flags.mtu", "must be greater than zero"));
        }
        if !(self.data_compress_algo == 1 || self.data_compress_algo == 2) {
            return Err(invalid("flags.data_compress_algo", "must be 1 (none) or 2 (zstd)"));
        }
        if self.multi_thread_count == 0 {
            return Err(invalid("flags.multi_thread_count", "must be greater than zero"));
        }
        if self.quic_listen_port != u32::MAX && self.quic_listen_port > 65535 {
            return Err(
                invalid(
                    "flags.quic_listen_port",
                    "must be a TCP/UDP port (0-65535) or the unlimited sentinel",
                ),
            );
        }
        validate_toml_bps_limit("flags.foreign_relay_bps_limit", self.foreign_relay_bps_limit)?;
        validate_toml_bps_limit("flags.instance_recv_bps_limit", self.instance_recv_bps_limit)?;
        let algorithm = self.encryption_algorithm.as_str();
        if !(str_eq(algorithm, "") || str_eq(algorithm, "xor") || str_eq(algorithm, "aes-gcm")
            || str_eq(algorithm, "aes-256-gcm") || str_eq(algorithm, "chacha20")) {
            return Err(
                invalid(
                    "flags.encryption_algorithm",
                    "must be xor, aes-gcm, aes-256-gcm, chacha20, or empty for the core default",
                ),
            );
        }
        validate_flag_text("flags.tld_dns_zone", self.tld_dns_zone.as_str(), 253, false)
    }
}

// ---------------------------------------------------------------------------
// Profiles
// ---------------------------------------------------------------------------

pub open spec fn address_mode_fault(mode: AddressModel) -> Option<ProfileFault> {
    match mode {
        AddressModel::Dhcp => field_fault("address mode"@, "v1 requires a fixed virtual IPv4/CIDR"@),
        AddressModel::Static(cidr) => ipv4_cidr_fault(cidr),
    }
}

/// The core configuration document of `p` as text, or why there is none:
/// the profile's first fault, or the renderer's error.
pub open spec fn rendered_core_toml(p: ProfileModel) -> Result<Seq<char>, ProfileFault> {
    match profile_fault(p) {
        Some(f) => Err(f),
        None => match crate::config::toml_text(core_document_of(p)) {
            Ok(t) => Ok(t),
            Err(m) => Err(ProfileFault::InvalidToml(m)),
        },
    }
}

/// Every rule a stored profile satisfies, checked in this order.
pub open spec fn profile_fault(p: ProfileModel) -> Option<ProfileFault> {
    first_fault(
        identifier_fault("profile id"@, p.id),
        first_fault(
            identifier_fault("instance name"@, p.instance_name),
            first_fault(
                text_fault("profile name"@, p.name, 96, false),
                first_fault(
                    text_fault("hostname"@, p.hostname, 63, false),
                    first_fault(
                        text_fault("network name"@, p.network_name, 128, false),
                        first_fault(
                            text_fault("network secret"@, p.network_secret, 512, false),
                            first_fault(
                                address_mode_fault(p.address_mode),
                                first_fault(peers_fault(p.peers), flags_fault(p.flags)),
                            ),
                        ),
                    ),
                ),
            ),
        ),
    )
}

/// An element-by-element copy of a list of strings.
pub fn copy_strings(v: &Vec<String>) -> (r: Vec<String>)
    ensures
        r@ == v@,
        texts(r@) == texts(v@),
{
    let mut r: Vec<String> = Vec::new();
    let mut i: usize = 0;
    while i < v.len()
        invariant
            i <= v@.len(),
            r@ =~= v@.take(i as int),
        decreases v@.len() - i,
    {
        r.push(v[i].clone());
        i = i + 1;
    }
    assert(v@.take(i as int) =~= v@);
    r
}

/// `p` with its device name replaced.
pub open spec fn with_hostname(p: ProfileModel, hostname: Seq<char>) -> ProfileModel {
    ProfileModel { hostname, ..p }
}

impl NetworkProfile {
    /// A field-by-field copy.
    pub fn duplicate(&self) -> (r: Self)
        ensures
            r@ == self@,
    {
        let peers = copy_strings(&self.peers);
        let flags = self.flags.duplicate();
        let r = NetworkProfile {
            id: self.id.clone(),
            name: self.name.clone(),
            instance_name: self.instance_name.clone(),
            hostname: self.hostname.clone(),
            network_name: self.network_name.clone(),
            network_secret: self.network_secret.duplicate(),
            address_mode: self.address_mode.duplicate(),
            peers,
            flags,
            auto_connect: self.auto_connect,
        };
        assert(r.flags == self.flags);
        r
    }

    /// Resolves a blank device name to `computer_name`, the local computer's
    /// name.  An explicit name is kept, so a device may deliberately use a
    /// network name that differs from its computer name.
    pub fn apply_default_hostname(&mut self, computer_name: String)
        ensures
            final(self)@ == if is_blank(old(self).hostname@) {
                with_hostname(old(self)@, computer_name@)
            } else {
                old(self)@
            },
    {
        if str_blank(self.hostname.as_str()) {
            self.hostname = computer_name;
        }
    }

    /// As [`NetworkProfile::apply_default_hostname`], asking `computer_name`
    /// for the name only when the device name is blank.
    pub fn apply_default_hostname_with<F: FnOnce() -> String>(&mut self, computer_name: F)
        requires
            computer_name.requires(()),
        ensures
            !is_blank(old(self).hostname@) ==> final(self)@ == old(self)@,
            is_blank(old(self).hostname@) ==> exists|name: String|
                computer_name.ensures((), name) && final(self)@ == with_hostname(old(self)@, name@),
    {
        if str_blank(self.hostname.as_str()) {
            let name = computer_name();
            self.hostname = name;
            assert(self@ == with_hostname(old(self)@, name@));
        }
    }

    pub fn validate(&self) -> (r: Result<(), ProfileError>)
        ensures
            outcome_is(r, profile_fault(self@)),
    {
        validate_identifier("profile id", self.id.as_str())?;
        validate_identifier("instance name", self.instance_name.as_str())?;
        validate_text("profile name", self.name.as_str(), 96)?;
        validate_text("hostname", self.hostname.as_str(), 63)?;
        validate_text("network name", self.network_name.as_str(), 128)?;
        validate_text("network secret", self.network_secret.expose(), 512)?;
        match &self.address_mode {
            AddressMode::Dhcp => {
                return Err(invalid("address mode", "v1 requires a fixed virtual IPv4/CIDR"));
            },
            AddressMode::Static { cidr } => validate_ipv4_cidr(cidr.as_str())?,
        }
        validate_peers(&self.peers)?;
        self.flags.validate()
    }
}


// ---------------------------------------------------------------------------
// Reading the core's TOML configuration
// ---------------------------------------------------------------------------

/// The `[flags]` keys of the bundled core, in the order of its schema.
pub open spec fn flag_keys() -> Seq<Seq<char>> {
    seq![
        "default_protocol"@,
        "dev_name"@,
        "enable_encryption"@,
        "enable_ipv6"@,
        "mtu"@,
        "latency_first"@,
        "enable_exit_node"@,
        "no_tun"@,
        "use_smoltcp"@,
        "relay_network_whitelist"@,
        "disable_p2p"@,
        "relay_all_peer_rpc"@,
        "disable_udp_hole_punching"@,
        "multi_thread"@,
        "data_compress_algo"@,
        "bind_device"@,
        "enable_kcp_proxy"@,
        "disable_kcp_input"@,
        "disable_relay_kcp"@,
        "proxy_forward_by_system"@,
        "accept_dns"@,
        "private_mode"@,
        "enable_quic_proxy"@,
        "disable_quic_input"@,
        "disable_relay_quic"@,
        "quic_listen_port"@,
        "foreign_relay_bps_limit"@,
        "multi_thread_count"@,
        "enable_relay_foreign_network_kcp"@,
        "enable_relay_foreign_network_quic"@,
        "encryption_algorithm"@,
        "disable_sym_hole_punching"@,
        "tld_dns_zone"@,
        "p2p_only"@,
        "disable_tcp_hole_punching"@,
        "lazy_p2p"@,
        "need_p2p"@,
        "instance_recv_bps_limit"@,
        "disable_upnp"@,
        "disable_relay_data"@,
        "enable_udp_broadcast_relay"@,
    ]
}

/// The `[flags]` keys of the bundled core, in the order of its schema.  The
/// deprecated `quic_listen_port` stays for existing configuration files.
pub fn easytier_flag_keys() -> (r: [&'static str; 41])
    ensures
        crate::config::str_texts(r@) == flag_keys(),
{
    let r = [
    "default_protocol",
    "dev_name",
    "enable_encryption",
    "enable_ipv6",
    "mtu",
    "latency_first",
    "enable_exit_node",
    "no_tun",
    "use_smoltcp",
    "relay_network_whitelist",
    "disable_p2p",
    "relay_all_peer_rpc",
    "disable_udp_hole_punching",
    "multi_thread",
    "data_compress_algo",
    "bind_device",
    "enable_kcp_proxy",
    "disable_kcp_input",
    "disable_relay_kcp",
    "proxy_forward_by_system",
    "accept_dns",
    "private_mode",
    "enable_quic_proxy",
    "disable_quic_input",
    "disable_relay_quic",
    "quic_listen_port",
    "foreign_relay_bps_limit",
    "multi_thread_count",
    "enable_relay_foreign_network_kcp",
    "enable_relay_foreign_network_quic",
    "encryption_algorithm",
    "disable_sym_hole_punching",
    "tld_dns_zone",
    "p2p_only",
    "disable_tcp_hole_punching",
    "lazy_p2p",
    "need_p2p",
    "instance_recv_bps_limit",
    "disable_upnp",
    "disable_relay_data",
    "enable_udp_broadcast_relay",
];
    assert(crate::config::str_texts(r@) =~= flag_keys());
    r
}

/// The fault of a failed read, if it failed.
pub open spec fn fault_of<T>(r: Result<T, ProfileFault>) -> Option<ProfileFault> {
    match r {
        Ok(_) => None,
        Err(f) => Some(f),
    }
}

/// The value read, or `default` when the key was absent.
pub open spec fn value_or<T>(r: Result<Option<T>, ProfileFault>, default: T) -> T {
    match r {
        Ok(Some(v)) => v,
        _ => default,
    }
}

pub open spec fn text_or(r: Result<Option<Seq<char>>, ProfileFault>, default: Seq<char>) -> Seq<char> {
    match r {
        Ok(Some(v)) => v,
        _ => default,
    }
}

pub open spec fn read_bool(e: Seq<(Seq<char>, TomlModel)>, key: Seq<char>, field: Seq<char>) -> Result<
    Option<bool>,
    ProfileFault,
> {
    match lookup(e, key) {
        None => Ok(None),
        Some(TomlModel::Boolean(b)) => Ok(Some(b)),
        Some(_) => Err(ProfileFault::InvalidField(field, "must be a boolean"@)),
    }
}

pub open spec fn read_string(e: Seq<(Seq<char>, TomlModel)>, key: Seq<char>, field: Seq<char>) -> Result<
    Option<Seq<char>>,
    ProfileFault,
> {
    match lookup(e, key) {
        None => Ok(None),
        Some(TomlModel::String(s)) => Ok(Some(s)),
        Some(_) => Err(ProfileFault::InvalidField(field, "must be a string"@)),
    }
}

pub open spec fn read_integer(e: Seq<(Seq<char>, TomlModel)>, key: Seq<char>, field: Seq<char>) -> Result<
    Option<i64>,
    ProfileFault,
> {
    match lookup(e, key) {
        None => Ok(None),
        Some(TomlModel::Integer(i)) => Ok(Some(i)),
        Some(_) => Err(ProfileFault::InvalidField(field, "must be an integer"@)),
    }
}

pub open spec fn read_u32(e: Seq<(Seq<char>, TomlModel)>, key: Seq<char>, field: Seq<char>) -> Result<
    Option<u32>,
    ProfileFault,
> {
    match read_integer(e, key, field) {
        Err(f) => Err(f),
        Ok(None) => Ok(None),
        Ok(Some(v)) => if 0 <= v <= u32::MAX {
            Ok(Some(v as u32))
        } else {
            Err(ProfileFault::InvalidField(field, "must be an unsigned 32-bit integer"@))
        },
    }
}

pub open spec fn read_u64(e: Seq<(Seq<char>, TomlModel)>, key: Seq<char>, field: Seq<char>) -> Result<
    Option<u64>,
    ProfileFault,
> {
    match read_integer(e, key, field) {
        Err(f) => Err(f),
        Ok(None) => Ok(None),
        Ok(Some(v)) => if 0 <= v {
            Ok(Some(v as u64))
        } else {
            Err(ProfileFault::InvalidField(field, "must be an unsigned integer"@))
        },
    }
}

pub open spec fn compression_reason() -> Seq<char> {
    "must be 1 (none) or 2 (zstd)"@
}

/// `data_compress_algo`: the numeric value, or the names `none` and `zstd`
/// in any ASCII case.
pub open spec fn read_compression(e: Seq<(Seq<char>, TomlModel)>) -> Result<Option<i32>, ProfileFault> {
    match lookup(e, "data_compress_algo"@) {
        None => Ok(None),
        Some(TomlModel::Integer(v)) => if i32::MIN <= v <= i32::MAX {
            Ok(Some(v as i32))
        } else {
            Err(ProfileFault::InvalidField("flags.data_compress_algo"@, compression_reason()))
        },
        Some(TomlModel::String(s)) => if ascii_lower(s) == "none"@ {
            Ok(Some(1))
        } else if ascii_lower(s) == "zstd"@ {
            Ok(Some(2))
        } else {
            Err(ProfileFault::InvalidField("flags.data_compress_algo"@, compression_reason()))
        },
        Some(_) => Err(ProfileFault::InvalidField("flags.data_compress_algo"@, compression_reason())),
    }
}

/// How a read turned out, against its specification.
pub open spec fn read_is<T>(r: Result<Option<T>, ProfileError>, s: Result<Option<T>, ProfileFault>) -> bool {
    match r {
        Ok(v) => s == Ok::<Option<T>, ProfileFault>(v),
        Err(e) => s == Err::<Option<T>, ProfileFault>(e@),
    }
}

pub fn optional_flag_bool(table: &Vec<(String, TomlValue)>, key: &str, field: &'static str) -> (r:
    Result<Option<bool>, ProfileError>)
    ensures
        read_is(r, read_bool(entries_model(table@), key@, field@)),
{
    match table_get(table, key) {
        None => Ok(None),
        Some(TomlValue::Boolean(b)) => Ok(Some(*b)),
        Some(_) => Err(invalid(field, "must be a boolean")),
    }
}

pub fn optional_flag_string(table: &Vec<(String, TomlValue)>, key: &str, field: &'static str) -> (r:
    Result<Option<String>, ProfileError>)
    ensures
        match r {
            Ok(Some(s)) => read_string(entries_model(table@), key@, field@) == Ok::<
                Option<Seq<char>>,
                ProfileFault,
            >(Some(s@)),
            Ok(None) => read_string(entries_model(table@), key@, field@) == Ok::<
                Option<Seq<char>>,
                ProfileFault,
            >(None),
            Err(e) => read_string(entries_model(table@), key@, field@) == Err::<
                Option<Seq<char>>,
                ProfileFault,
            >(e@),
        },
{
    match table_get(table, key) {
        None => Ok(None),
        Some(TomlValue::String(s)) => Ok(Some(s.clone())),
        Some(_) => Err(invalid(field, "must be a string")),
    }
}

pub fn optional_flag_integer(table: &Vec<(String, TomlValue)>, key: &str, field: &'static str) -> (r:
    Result<Option<i64>, ProfileError>)
    ensures
        read_is(r, read_integer(entries_model(table@), key@, field@)),
{
    match table_get(table, key) {
        None => Ok(None),
        Some(TomlValue::Integer(i)) => Ok(Some(*i)),
        Some(_) => Err(invalid(field, "must be an integer")),
    }
}

pub fn optional_flag_u32(table: &Vec<(String, TomlValue)>, key: &str, field: &'static str) -> (r:
    Result<Option<u32>, ProfileError>)
    ensures
        read_is(r, read_u32(entries_model(table@), key@, field@)),
{
    match optional_flag_integer(table, key, field)? {
        None => Ok(None),
        Some(v) => if 0 <= v && v <= u32::MAX as i64 {
            Ok(Some(v as u32))
        } else {
            Err(invalid(field, "must be an unsigned 32-bit integer"))
        },
    }
}

pub fn optional_flag_u64(table: &Vec<(String, TomlValue)>, key: &str, field: &'static str) -> (r:
    Result<Option<u64>, ProfileError>)
    ensures
        read_is(r, read_u64(entries_model(table@), key@, field@)),
{
    match optional_flag_integer(table, key, field)? {
        None => Ok(None),
        Some(v) => if 0 <= v {
            Ok(Some(v as u64))
        } else {
            Err(invalid(field, "must be an unsigned integer"))
        },
    }
}

pub fn optional_compression_algo(table: &Vec<(String, TomlValue)>) -> (r: Result<Option<i32>, ProfileError>)
    ensures
        read_is(r, read_compression(entries_model(table@))),
{
    match table_get(table, "data_compress_algo") {
        None => Ok(None),
        Some(TomlValue::Integer(v)) => if i32::MIN as i64 <= *v && *v <= i32::MAX as i64 {
            Ok(Some(*v as i32))
        } else {
            Err(invalid("flags.data_compress_algo", "must be 1 (none) or 2 (zstd)"))
        },
        Some(TomlValue::String(s)) => {
            let lowered = chars_lower(chars_vec(s.as_str()).as_slice());
            let none = chars_vec("none");
            let zstd = chars_vec("zstd");
            if chars_eq(lowered.as_slice(), none.as_slice()) {
                Ok(Some(1))
            } else if chars_eq(lowered.as_slice(), zstd.as_slice()) {
                Ok(Some(2))
            } else {
                Err(invalid("flags.data_compress_algo", "must be 1 (none) or 2 (zstd)"))
            }
        },
        Some(_) => Err(invalid("flags.data_compress_algo", "must be 1 (none) or 2 (zstd)")),
    }
}

#[verifier::opaque]
pub open spec fn flag_group_fault_1(e: Seq<(Seq<char>, TomlModel)>) -> Option<ProfileFault> {
    first_fault(
        fault_of(read_string(e, "default_protocol"@, "flags.default_protocol"@)),
        first_fault(
        fault_of(read_string(e, "dev_name"@, "flags.dev_name"@)),
        first_fault(
        fault_of(read_bool(e, "enable_encryption"@, "flags.enable_encryption"@)),
        first_fault(
        fault_of(read_bool(e, "enable_ipv6"@, "flags.enable_ipv6"@)),
        first_fault(
        fault_of(read_u32(e, "mtu"@, "flags.mtu"@)),
        first_fault(
        fault_of(read_bool(e, "latency_first"@, "flags.latency_first"@)),
        fault_of(read_bool(e, "enable_exit_node"@, "flags.enable_exit_node"@)),
    ),
    ),
    ),
    ),
    ),
    )
}

/// The values of `[flags]` group 1 that a table sets, with the defaults
/// elsewhere.
#[verifier::opaque]
pub open spec fn flag_group_values_1(v: (String, String, bool, bool, u32, bool, bool), e: Seq<(Seq<char>, TomlModel)>) -> bool {
    &&& v.0@ == text_or(read_string(e, "default_protocol"@, "flags.default_protocol"@), "tcp"@)
    &&& v.1@ == text_or(read_string(e, "dev_name"@, "flags.dev_name"@), ""@)
    &&& v.2 == value_or(read_bool(e, "enable_encryption"@, "flags.enable_encryption"@), true)
    &&& v.3 == value_or(read_bool(e, "enable_ipv6"@, "flags.enable_ipv6"@), true)
    &&& v.4 == value_or(read_u32(e, "mtu"@, "flags.mtu"@), 1380)
    &&& v.5 == value_or(read_bool(e, "latency_first"@, "flags.latency_first"@), false)
    &&& v.6 == value_or(read_bool(e, "enable_exit_node"@, "flags.enable_exit_node"@), false)
}

fn read_flag_group_1(table: &Vec<(String, TomlValue)>) -> (r: Result<(String, String, bool, bool, u32, bool, bool), ProfileError>)
    ensures
        match r {
            Ok(v) => flag_group_fault_1(entries_model(table@)) is None && flag_group_values_1(v, entries_model(table@)),
            Err(e) => flag_group_fault_1(entries_model(table@)) == Some(e@),
        },
{
    proof {
        reveal(flag_group_fault_1);
        reveal(flag_group_values_1);
    }
    let default_protocol = match optional_flag_string(table, "default_protocol", "flags.default_protocol") {
        Ok(Some(value)) => value,
        Ok(None) => owned("tcp"),
        Err(e) => {
            return Err(e);
        },
    };
    let dev_name = match optional_flag_string(table, "dev_name", "flags.dev_name") {
        Ok(Some(value)) => value,
        Ok(None) => owned(""),
        Err(e) => {
            return Err(e);
        },
    };
    let enable_encryption = match optional_flag_bool(table, "enable_encryption", "flags.enable_encryption") {
        Ok(Some(value)) => value,
        Ok(None) => true,
        Err(e) => {
            return Err(e);
        },
    };
    let enable_ipv6 = match optional_flag_bool(table, "enable_ipv6", "flags.enable_ipv6") {
        Ok(Some(value)) => value,
        Ok(None) => true,
        Err(e) => {
            return Err(e);
        },
    };
    let mtu = match optional_flag_u32(table, "mtu", "flags.mtu") {
        Ok(Some(value)) => value,
        Ok(None) => 1380,
        Err(e) => {
            return Err(e);
        },
    };
    let latency_first = match optional_flag_bool(table, "latency_first", "flags.latency_first") {
        Ok(Some(value)) => value,
        Ok(None) => false,
        Err(e) => {
            return Err(e);
        },
    };
    let enable_exit_node = match optional_flag_bool(table, "enable_exit_node", "flags.enable_exit_node") {
        Ok(Some(value)) => value,
        Ok(None) => false,
        Err(e) => {
            return Err(e);
        },
    };
    Ok((default_protocol, dev_name, enable_encryption, enable_ipv6, mtu, latency_first, enable_exit_node))
}

#[verifier::opaque]
pub open spec fn flag_group_fault_2(e: Seq<(Seq<char>, TomlModel)>) -> Option<ProfileFault> {
    first_fault(
        fault_of(read_bool(e, "no_tun"@, "flags.no_tun"@)),
        first_fault(
        fault_of(read_bool(e, "use_smoltcp"@, "flags.use_smoltcp"@)),
        first_fault(
        fault_of(read_string(e, "relay_network_whitelist"@, "flags.relay_network_whitelist"@)),
        first_fault(
        fault_of(read_bool(e, "disable_p2p"@, "flags.disable_p2p"@)),
        first_fault(
        fault_of(read_bool(e, "relay_all_peer_rpc"@, "flags.relay_all_peer_rpc"@)),
        first_fault(
        fault_of(read_bool(e, "disable_udp_hole_punching"@, "flags.disable_udp_hole_punching"@)),
        fault_of(read_bool(e, "multi_thread"@, "flags.multi_thread"@)),
    ),
    ),
    ),
    ),
    ),
    )
}

/// The values of `[flags]` group 2 that a table sets, with the defaults
/// elsewhere.
#[verifier::opaque]
pub open spec fn flag_group_values_2(v: (bool, bool, String, bool, bool, bool, bool), e: Seq<(Seq<char>, TomlModel)>) -> bool {
    &&& v.0 == value_or(read_bool(e, "no_tun"@, "flags.no_tun"@), false)
    &&& v.1 == value_or(read_bool(e, "use_smoltcp"@, "flags.use_smoltcp"@), false)
    &&& v.2@ == text_or(read_string(e, "relay_network_whitelist"@, "flags.relay_network_whitelist"@), "*"@)
    &&& v.3 == value_or(read_bool(e, "disable_p2p"@, "flags.disable_p2p"@), false)
    &&& v.4 == value_or(read_bool(e, "relay_all_peer_rpc"@, "flags.relay_all_peer_rpc"@), false)
    &&& v.5 == value_or(read_bool(e, "disable_udp_hole_punching"@, "flags.disable_udp_hole_punching"@), false)
    &&& v.6 == value_or(read_bool(e, "multi_thread"@, "flags.multi_thread"@), true)
}

fn read_flag_group_2(table: &Vec<(String, TomlValue)>) -> (r: Result<(bool, bool, String, bool, bool, bool, bool), ProfileError>)
    ensures
        match r {
            Ok(v) => flag_group_fault_2(entries_model(table@)) is None && flag_group_values_2(v, entries_model(table@)),
            Err(e) => flag_group_fault_2(entries_model(table@)) == Some(e@),
        },
{
    proof {
        reveal(flag_group_fault_2);
        reveal(flag_group_values_2);
    }
    let no_tun = match optional_flag_bool(table, "no_tun", "flags.no_tun") {
        Ok(Some(value)) => value,
        Ok(None) => false,
        Err(e) => {
            return Err(e);
        },
    };
    let use_smoltcp = match optional_flag_bool(table, "use_smoltcp", "flags.use_smoltcp") {
        Ok(Some(value)) => value,
        Ok(None) => false,
        Err(e) => {
            return Err(e);
        },
    };
    let relay_network_whitelist = match optional_flag_string(table, "relay_network_whitelist", "flags.relay_network_whitelist") {
        Ok(Some(value)) => value,
        Ok(None) => owned("*"),
        Err(e) => {
            return Err(e);
        },
    };
    let disable_p2p = match optional_flag_bool(table, "disable_p2p", "flags.disable_p2p") {
        Ok(Some(value)) => value,
        Ok(None) => false,
        Err(e) => {
            return Err(e);
        },
    };
    let relay_all_peer_rpc = match optional_flag_bool(table, "relay_all_peer_rpc", "flags.relay_all_peer_rpc") {
        Ok(Some(value)) => value,
        Ok(None) => false,
        Err(e) => {
            return Err(e);
        },
    };
    let disable_udp_hole_punching = match optional_flag_bool(table, "disable_udp_hole_punching", "flags.disable_udp_hole_punching") {
        Ok(Some(value)) => value,
        Ok(None) => false,
        Err(e) => {
            return Err(e);
        },
    };
    let multi_thread = match optional_flag_bool(table, "multi_thread", "flags.multi_thread") {
        Ok(Some(value)) => value,
        Ok(None) => true,
        Err(e) => {
            return Err(e);
        },
    };
    Ok((no_tun, use_smoltcp, relay_network_whitelist, disable_p2p, relay_all_peer_rpc, disable_udp_hole_punching, multi_thread))
}

#[verifier::opaque]
pub open spec fn flag_group_fault_3(e: Seq<(Seq<char>, TomlModel)>) -> Option<ProfileFault> {
    first_fault(
        fault_of(read_compression(e)),
        first_fault(
        fault_of(read_bool(e, "bind_device"@, "flags.bind_device"@)),
        first_fault(
        fault_of(read_bool(e, "enable_kcp_proxy"@, "flags.enable_kcp_proxy"@)),
        first_fault(
        fault_of(read_bool(e, "disable_kcp_input"@, "flags.disable_kcp_input"@)),
        first_fault(
        fault_of(read_bool(e, "disable_relay_kcp"@, "flags.disable_relay_kcp"@)),
        first_fault(
        fault_of(read_bool(e, "proxy_forward_by_system"@, "flags.proxy_forward_by_system"@)),
        fault_of(read_bool(e, "accept_dns"@, "flags.accept_dns"@)),
    ),
    ),
    ),
    ),
    ),
    )
}

/// The values of `[flags]` group 3 that a table sets, with the defaults
/// elsewhere.
#[verifier::opaque]
pub open spec fn flag_group_values_3(v: (i32, bool, bool, bool, bool, bool, bool), e: Seq<(Seq<char>, TomlModel)>) -> bool {
    &&& v.0 == value_or(read_compression(e), 1)
    &&& v.1 == value_or(read_bool(e, "bind_device"@, "flags.bind_device"@), true)
    &&& v.2 == value_or(read_bool(e, "enable_kcp_proxy"@, "flags.enable_kcp_proxy"@), false)
    &&& v.3 == value_or(read_bool(e, "disable_kcp_input"@, "flags.disable_kcp_input"@), false)
    &&& v.4 == value_or(read_bool(e, "disable_relay_kcp"@, "flags.disable_relay_kcp"@), false)
    &&& v.5 == value_or(read_bool(e, "proxy_forward_by_system"@, "flags.proxy_forward_by_system"@), false)
    &&& v.6 == value_or(read_bool(e, "accept_dns"@, "flags.accept_dns"@), false)
}

fn read_flag_group_3(table: &Vec<(String, TomlValue)>) -> (r: Result<(i32, bool, bool, bool, bool, bool, bool), ProfileError>)
    ensures
        match r {
            Ok(v) => flag_group_fault_3(entries_model(table@)) is None && flag_group_values_3(v, entries_model(table@)),
            Err(e) => flag_group_fault_3(entries_model(table@)) == Some(e@),
        },
{
    proof {
        reveal(flag_group_fault_3);
        reveal(flag_group_values_3);
    }
    let data_compress_algo = match optional_compression_algo(table) {
        Ok(Some(value)) => value,
        Ok(None) => 1,
        Err(e) => {
            return Err(e);
        },
    };
    let bind_device = match optional_flag_bool(table, "bind_device", "flags.bind_device") {
        Ok(Some(value)) => value,
        Ok(None) => true,
        Err(e) => {
            return Err(e);
        },
    };
    let enable_kcp_proxy = match optional_flag_bool(table, "enable_kcp_proxy", "flags.enable_kcp_proxy") {
        Ok(Some(value)) => value,
        Ok(None) => false,
        Err(e) => {
            return Err(e);
        },
    };
    let disable_kcp_input = match optional_flag_bool(table, "disable_kcp_input", "flags.disable_kcp_input") {
        Ok(Some(value)) => value,
        Ok(None) => false,
        Err(e) => {
            return Err(e);
        },
    };
    let disable_relay_kcp = match optional_flag_bool(table, "disable_relay_kcp", "flags.disable_relay_kcp") {
        Ok(Some(value)) => value,
        Ok(None) => false,
        Err(e) => {
            return Err(e);
        },
    };
    let proxy_forward_by_system = match optional_flag_bool(table, "proxy_forward_by_system", "flags.proxy_forward_by_system") {
        Ok(Some(value)) => value,
        Ok(None) => false,
        Err(e) => {
            return Err(e);
        },
    };
    let accept_dns = match optional_flag_bool(table, "accept_dns", "flags.accept_dns") {
        Ok(Some(value)) => value,
        Ok(None) => false,
        Err(e) => {
            return Err(e);
        },
    };
    Ok((data_compress_algo, bind_device, enable_kcp_proxy, disable_kcp_input, disable_relay_kcp, proxy_forward_by_system, accept_dns))
}

#[verifier::opaque]
pub open spec fn flag_group_fault_4(e: Seq<(Seq<char>, TomlModel)>) -> Option<ProfileFault> {
    first_fault(
        fault_of(read_bool(e, "private_mode"@, "flags.private_mode"@)),
        first_fault(
        fault_of(read_bool(e, "enable_quic_proxy"@, "flags.enable_quic_proxy"@)),
        first_fault(
        fault_of(read_bool(e, "disable_quic_input"@, "flags.disable_quic_input"@)),
        first_fault(
        fault_of(read_bool(e, "disable_relay_quic"@, "flags.disable_relay_quic"@)),
        first_fault(
        fault_of(read_u32(e, "quic_listen_port"@, "flags.quic_listen_port"@)),
        first_fault(
        fault_of(read_u64(e, "foreign_relay_bps_limit"@, "flags.foreign_relay_bps_limit"@)),
        fault_of(read_u32(e, "multi_thread_count"@, "flags.multi_thread_count"@)),
    ),
    ),
    ),
    ),
    ),
    )
}

/// The values of `[flags]` group 4 that a table sets, with the defaults
/// elsewhere.
#[verifier::opaque]
pub open spec fn flag_group_values_4(v: (bool, bool, bool, bool, u32, u64, u32), e: Seq<(Seq<char>, TomlModel)>) -> bool {
    &&& v.0 == value_or(read_bool(e, "private_mode"@, "flags.private_mode"@), true)
    &&& v.1 == value_or(read_bool(e, "enable_quic_proxy"@, "flags.enable_quic_proxy"@), false)
    &&& v.2 == value_or(read_bool(e, "disable_quic_input"@, "flags.disable_quic_input"@), false)
    &&& v.3 == value_or(read_bool(e, "disable_relay_quic"@, "flags.disable_relay_quic"@), false)
    &&& v.4 == value_or(read_u32(e, "quic_listen_port"@, "flags.quic_listen_port"@), u32::MAX)
    &&& v.5 == value_or(read_u64(e, "foreign_relay_bps_limit"@, "flags.foreign_relay_bps_limit"@), u64::MAX)
    &&& v.6 == value_or(read_u32(e, "multi_thread_count"@, "flags.multi_thread_count"@), 2)
}

fn read_flag_group_4(table: &Vec<(String, TomlValue)>) -> (r: Result<(bool, bool, bool, bool, u32, u64, u32), ProfileError>)
    ensures
        match r {
            Ok(v) => flag_group_fault_4(entries_model(table@)) is None && flag_group_values_4(v, entries_model(table@)),
            Err(e) => flag_group_fault_4(entries_model(table@)) == Some(e@),
        },
{
    proof {
        reveal(flag_group_fault_4);
        reveal(flag_group_values_4);
    }
    let private_mode = match optional_flag_bool(table, "private_mode", "flags.private_mode") {
        Ok(Some(value)) => value,
        Ok(None) => true,
        Err(e) => {
            return Err(e);
        },
    };
    let enable_quic_proxy = match optional_flag_bool(table, "enable_quic_proxy", "flags.enable_quic_proxy") {
        Ok(Some(value)) => value,
        Ok(None) => false,
        Err(e) => {
            return Err(e);
        },
    };
    let disable_quic_input = match optional_flag_bool(table, "disable_quic_input", "flags.disable_quic_input") {
        Ok(Some(value)) => value,
        Ok(None) => false,
        Err(e) => {
            return Err(e);
        },
    };
    let disable_relay_quic = match optional_flag_bool(table, "disable_relay_quic", "flags.disable_relay_quic") {
        Ok(Some(value)) => value,
        Ok(None) => false,
        Err(e) => {
            return Err(e);
        },
    };
    let quic_listen_port = match optional_flag_u32(table, "quic_listen_port", "flags.quic_listen_port") {
        Ok(Some(value)) => value,
        Ok(None) => u32::MAX,
        Err(e) => {
            return Err(e);
        },
    };
    let foreign_relay_bps_limit = match optional_flag_u64(table, "foreign_relay_bps_limit", "flags.foreign_relay_bps_limit") {
        Ok(Some(value)) => value,
        Ok(None) => u64::MAX,
        Err(e) => {
            return Err(e);
        },
    };
    let multi_thread_count = match optional_flag_u32(table, "multi_thread_count", "flags.multi_thread_count") {
        Ok(Some(value)) => value,
        Ok(None) => 2,
        Err(e) => {
            return Err(e);
        },
    };
    Ok((private_mode, enable_quic_proxy, disable_quic_input, disable_relay_quic, quic_listen_port, foreign_relay_bps_limit, multi_thread_count))
}

#[verifier::opaque]
pub open spec fn flag_group_fault_5(e: Seq<(Seq<char>, TomlModel)>) -> Option<ProfileFault> {
    first_fault(
        fault_of(read_bool(e, "enable_relay_foreign_network_kcp"@, "flags.enable_relay_foreign_network_kcp"@)),
        first_fault(
        fault_of(read_bool(e, "enable_relay_foreign_network_quic"@, "flags.enable_relay_foreign_network_quic"@)),
        first_fault(
        fault_of(read_string(e, "encryption_algorithm"@, "flags.encryption_algorithm"@)),
        first_fault(
        fault_of(read_bool(e, "disable_sym_hole_punching"@, "flags.disable_sym_hole_punching"@)),
        first_fault(
        fault_of(read_string(e, "tld_dns_zone"@, "flags.tld_dns_zone"@)),
        first_fault(
        fault_of(read_bool(e, "p2p_only"@, "flags.p2p_only"@)),
        fault_of(read_bool(e, "disable_tcp_hole_punching"@, "flags.disable_tcp_hole_punching"@)),
    ),
    ),
    ),
    ),
    ),
    )
}

/// The values of `[flags]` group 5 that a table sets, with the defaults
/// elsewhere.
#[verifier::opaque]
pub open spec fn flag_group_values_5(v: (bool, bool, String, bool, String, bool, bool), e: Seq<(Seq<char>, TomlModel)>) -> bool {
    &&& v.0 == value_or(read_bool(e, "enable_relay_foreign_network_kcp"@, "flags.enable_relay_foreign_network_kcp"@), false)
    &&& v.1 == value_or(read_bool(e, "enable_relay_foreign_network_quic"@, "flags.enable_relay_foreign_network_quic"@), false)
    &&& v.2@ == text_or(read_string(e, "encryption_algorithm"@, "flags.encryption_algorithm"@), "aes-gcm"@)
    &&& v.3 == value_or(read_bool(e, "disable_sym_hole_punching"@, "flags.disable_sym_hole_punching"@), false)
    &&& v.4@ == text_or(read_string(e, "tld_dns_zone"@, "flags.tld_dns_zone"@), "et.net."@)
    &&& v.5 == value_or(read_bool(e, "p2p_only"@, "flags.p2p_only"@), false)
    &&& v.6 == value_or(read_bool(e, "disable_tcp_hole_punching"@, "flags.disable_tcp_hole_punching"@), false)
}

fn read_flag_group_5(table: &Vec<(String, TomlValue)>) -> (r: Result<(bool, bool, String, bool, String, bool, bool), ProfileError>)
    ensures
        match r {
            Ok(v) => flag_group_fault_5(entries_model(table@)) is None && flag_group_values_5(v, entries_model(table@)),
            Err(e) => flag_group_fault_5(entries_model(table@)) == Some(e@),
        },
{
    proof {
        reveal(flag_group_fault_5);
        reveal(flag_group_values_5);
    }
    let enable_relay_foreign_network_kcp = match optional_flag_bool(table, "enable_relay_foreign_network_kcp", "flags.enable_relay_foreign_network_kcp") {
        Ok(Some(value)) => value,
        Ok(None) => false,
        Err(e) => {
            return Err(e);
        },
    };
    let enable_relay_foreign_network_quic = match optional_flag_bool(table, "enable_relay_foreign_network_quic", "flags.enable_relay_foreign_network_quic") {
        Ok(Some(value)) => value,
        Ok(None) => false,
        Err(e) => {
            return Err(e);
        },
    };
    let encryption_algorithm = match optional_flag_string(table, "encryption_algorithm", "flags.encryption_algorithm") {
        Ok(Some(value)) => value,
        Ok(None) => owned("aes-gcm"),
        Err(e) => {
            return Err(e);
        },
    };
    let disable_sym_hole_punching = match optional_flag_bool(table, "disable_sym_hole_punching", "flags.disable_sym_hole_punching") {
        Ok(Some(value)) => value,
        Ok(None) => false,
        Err(e) => {
            return Err(e);
        },
    };
    let tld_dns_zone = match optional_flag_string(table, "tld_dns_zone", "flags.tld_dns_zone") {
        Ok(Some(value)) => value,
        Ok(None) => owned("et.net."),
        Err(e) => {
            return Err(e);
        },
    };
    let p2p_only = match optional_flag_bool(table, "p2p_only", "flags.p2p_only") {
        Ok(Some(value)) => value,
        Ok(None) => false,
        Err(e) => {
            return Err(e);
        },
    };
    let disable_tcp_hole_punching = match optional_flag_bool(table, "disable_tcp_hole_punching", "flags.disable_tcp_hole_punching") {
        Ok(Some(value)) => value,
        Ok(None) => false,
        Err(e) => {
            return Err(e);
        },
    };
    Ok((enable_relay_foreign_network_kcp, enable_relay_foreign_network_quic, encryption_algorithm, disable_sym_hole_punching, tld_dns_zone, p2p_only, disable_tcp_hole_punching))
}

#[verifier::opaque]
pub open spec fn flag_group_fault_6(e: Seq<(Seq<char>, TomlModel)>) -> Option<ProfileFault> {
    first_fault(
        fault_of(read_bool(e, "lazy_p2p"@, "flags.lazy_p2p"@)),
        first_fault(
        fault_of(read_bool(e, "need_p2p"@, "flags.need_p2p"@)),
        first_fault(
        fault_of(read_u64(e, "instance_recv_bps_limit"@, "flags.instance_recv_bps_limit"@)),
        first_fault(
        fault_of(read_bool(e, "disable_upnp"@, "flags.disable_upnp"@)),
        first_fault(
        fault_of(read_bool(e, "disable_relay_data"@, "flags.disable_relay_data"@)),
        fault_of(read_bool(e, "enable_udp_broadcast_relay"@, "flags.enable_udp_broadcast_relay"@)),
    ),
    ),
    ),
    ),
    )
}

/// The values of `[flags]` group 6 that a table sets, with the defaults
/// elsewhere.
#[verifier::opaque]
pub open spec fn flag_group_values_6(v: (bool, bool, u64, bool, bool, bool), e: Seq<(Seq<char>, TomlModel)>) -> bool {
    &&& v.0 == value_or(read_bool(e, "lazy_p2p"@, "flags.lazy_p2p"@), false)
    &&& v.1 == value_or(read_bool(e, "need_p2p"@, "flags.need_p2p"@), false)
    &&& v.2 == value_or(read_u64(e, "instance_recv_bps_limit"@, "flags.instance_recv_bps_limit"@), u64::MAX)
    &&& v.3 == value_or(read_bool(e, "disable_upnp"@, "flags.disable_upnp"@), false)
    &&& v.4 == value_or(read_bool(e, "disable_relay_data"@, "flags.disable_relay_data"@), false)
    &&& v.5 == value_or(read_bool(e, "enable_udp_broadcast_relay"@, "flags.enable_udp_broadcast_relay"@), false)
}

fn read_flag_group_6(table: &Vec<(String, TomlValue)>) -> (r: Result<(bool, bool, u64, bool, bool, bool), ProfileError>)
    ensures
        match r {
            Ok(v) => flag_group_fault_6(entries_model(table@)) is None && flag_group_values_6(v, entries_model(table@)),
            Err(e) => flag_group_fault_6(entries_model(table@)) == Some(e@),
        },
{
    proof {
        reveal(flag_group_fault_6);
        reveal(flag_group_values_6);
    }
    let lazy_p2p = match optional_flag_bool(table, "lazy_p2p", "flags.lazy_p2p") {
        Ok(Some(value)) => value,
        Ok(None) => false,
        Err(e) => {
            return Err(e);
        },
    };
    let need_p2p = match optional_flag_bool(table, "need_p2p", "flags.need_p2p") {
        Ok(Some(value)) => value,
        Ok(None) => false,
        Err(e) => {
            return Err(e);
        },
    };
    let instance_recv_bps_limit = match optional_flag_u64(table, "instance_recv_bps_limit", "flags.instance_recv_bps_limit") {
        Ok(Some(value)) => value,
        Ok(None) => u64::MAX,
        Err(e) => {
            return Err(e);
        },
    };
    let disable_upnp = match optional_flag_bool(table, "disable_upnp", "flags.disable_upnp") {
        Ok(Some(value)) => value,
        Ok(None) => false,
        Err(e) => {
            return Err(e);
        },
    };
    let disable_relay_data = match optional_flag_bool(table, "disable_relay_data", "flags.disable_relay_data") {
        Ok(Some(value)) => value,
        Ok(None) => false,
        Err(e) => {
            return Err(e);
        },
    };
    let enable_udp_broadcast_relay = match optional_flag_bool(table, "enable_udp_broadcast_relay", "flags.enable_udp_broadcast_relay") {
        Ok(Some(value)) => value,
        Ok(None) => false,
        Err(e) => {
            return Err(e);
        },
    };
    Ok((lazy_p2p, need_p2p, instance_recv_bps_limit, disable_upnp, disable_relay_data, enable_udp_broadcast_relay))
}

/// The first failed read of a `[flags]` table, in schema order.
pub open spec fn flags_read_fault(e: Seq<(Seq<char>, TomlModel)>) -> Option<ProfileFault> {
    first_fault(
        flag_group_fault_1(e),
        first_fault(
        flag_group_fault_2(e),
        first_fault(
        flag_group_fault_3(e),
        first_fault(
        flag_group_fault_4(e),
        first_fault(
        flag_group_fault_5(e),
        flag_group_fault_6(e),
    ),
    ),
    ),
    ),
    )
}

/// `f` holds what a `[flags]` table sets, and the defaults elsewhere.
pub open spec fn flags_match(f: EasyTierFlags, e: Seq<(Seq<char>, TomlModel)>) -> bool {
    &&& flag_group_values_1((f.default_protocol, f.dev_name, f.enable_encryption, f.enable_ipv6, f.mtu, f.latency_first, f.enable_exit_node), e)
    &&& flag_group_values_2((f.no_tun, f.use_smoltcp, f.relay_network_whitelist, f.disable_p2p, f.relay_all_peer_rpc, f.disable_udp_hole_punching, f.multi_thread), e)
    &&& flag_group_values_3((f.data_compress_algo, f.bind_device, f.enable_kcp_proxy, f.disable_kcp_input, f.disable_relay_kcp, f.proxy_forward_by_system, f.accept_dns), e)
    &&& flag_group_values_4((f.private_mode, f.enable_quic_proxy, f.disable_quic_input, f.disable_relay_quic, f.quic_listen_port, f.foreign_relay_bps_limit, f.multi_thread_count), e)
    &&& flag_group_values_5((f.enable_relay_foreign_network_kcp, f.enable_relay_foreign_network_quic, f.encryption_algorithm, f.disable_sym_hole_punching, f.tld_dns_zone, f.p2p_only, f.disable_tcp_hole_punching), e)
    &&& flag_group_values_6((f.lazy_p2p, f.need_p2p, f.instance_recv_bps_limit, f.disable_upnp, f.disable_relay_data, f.enable_udp_broadcast_relay), e)
}

/// The import of a `[flags]` table: only known keys, each of the right type.
pub open spec fn flags_import_fault(e: Seq<(Seq<char>, TomlModel)>) -> Option<ProfileFault> {
    first_fault(keys_fault(e, "flags"@, flag_keys()), flags_read_fault(e))
}

impl EasyTierFlags {
    /// Reads a `[flags]` table.  Absent keys keep their defaults; the result
    /// is validated.
    pub fn from_toml_table(table: &Vec<(String, TomlValue)>) -> (r: Result<Self, ProfileError>)
        ensures
            match r {
                Ok(f) => flags_import_fault(entries_model(table@)) is None && flags_match(
                    f,
                    entries_model(table@),
                ) && flags_fault(f) is None,
                Err(err) => flags_import_fault(entries_model(table@)) == Some(err@) || (
                flags_import_fault(entries_model(table@)) is None && exists|f: EasyTierFlags|
                    flags_match(f, entries_model(table@)) && flags_fault(f) == Some(err@)),
            },
    {
        let keys = easytier_flag_keys();
        ensure_allowed_keys(table, "flags", &keys)?;
        let g1 = read_flag_group_1(table)?;
        let g2 = read_flag_group_2(table)?;
        let g3 = read_flag_group_3(table)?;
        let g4 = read_flag_group_4(table)?;
        let g5 = read_flag_group_5(table)?;
        let g6 = read_flag_group_6(table)?;
        let flags = EasyTierFlags {
            default_protocol: g1.0,
            dev_name: g1.1,
            enable_encryption: g1.2,
            enable_ipv6: g1.3,
            mtu: g1.4,
            latency_first: g1.5,
            enable_exit_node: g1.6,
            no_tun: g2.0,
            use_smoltcp: g2.1,
            relay_network_whitelist: g2.2,
            disable_p2p: g2.3,
            relay_all_peer_rpc: g2.4,
            disable_udp_hole_punching: g2.5,
            multi_thread: g2.6,
            data_compress_algo: g3.0,
            bind_device: g3.1,
            enable_kcp_proxy: g3.2,
            disable_kcp_input: g3.3,
            disable_relay_kcp: g3.4,
            proxy_forward_by_system: g3.5,
            accept_dns: g3.6,
            private_mode: g4.0,
            enable_quic_proxy: g4.1,
            disable_quic_input: g4.2,
            disable_relay_quic: g4.3,
            quic_listen_port: g4.4,
            foreign_relay_bps_limit: g4.5,
            multi_thread_count: g4.6,
            enable_relay_foreign_network_kcp: g5.0,
            enable_relay_foreign_network_quic: g5.1,
            encryption_algorithm: g5.2,
            disable_sym_hole_punching: g5.3,
            tld_dns_zone: g5.4,
            p2p_only: g5.5,
            disable_tcp_hole_punching: g5.6,
            lazy_p2p: g6.0,
            need_p2p: g6.1,
            instance_recv_bps_limit: g6.2,
            disable_upnp: g6.3,
            disable_relay_data: g6.4,
            enable_udp_broadcast_relay: g6.5,
        };
        let ghost e = entries_model(table@);
        assert(flags_match(flags, e));
        match flags.validate() {
            Ok(()) => Ok(flags),
            Err(err) => {
                assert(flags_match(flags, e) && flags_fault(flags) == Some(err@));
                Err(err)
            },
        }
    }
}


/// The default flags pass the flag rules.
pub proof fn lemma_default_flags_valid(f: EasyTierFlags)
    requires
        is_default_flags(f),
    ensures
        flags_fault(f) is None,
{
    reveal_strlit("tcp");
    reveal_strlit("");
    reveal_strlit("*");
    reveal_strlit("aes-gcm");
    reveal_strlit("et.net.");
    assert(!is_blank(f.default_protocol@)) by {
        assert(!crate::text::is_white_space(f.default_protocol@[0]));
    }
    assert(!has_control(f.default_protocol@)) by {
        assert forall|i: int| 0 <= i < f.default_protocol@.len() implies !crate::text::is_control_char(
            f.default_protocol@[i],
        ) by {}
    }
    assert(!has_control(f.dev_name@));
    assert(!has_control(f.relay_network_whitelist@)) by {
        assert forall|i: int| 0 <= i < f.relay_network_whitelist@.len() implies !crate::text::is_control_char(
            f.relay_network_whitelist@[i],
        ) by {}
    }
    assert(!is_blank(f.tld_dns_zone@)) by {
        assert(!crate::text::is_white_space(f.tld_dns_zone@[0]));
    }
    assert(!has_control(f.tld_dns_zone@)) by {
        assert forall|i: int| 0 <= i < f.tld_dns_zone@.len() implies !crate::text::is_control_char(
            f.tld_dns_zone@[i],
        ) by {}
    }
}

pub open spec fn req_string(e: Seq<(Seq<char>, TomlModel)>, key: Seq<char>) -> Result<Seq<char>, ProfileFault> {
    match lookup(e, key) {
        Some(TomlModel::String(s)) => Ok(s),
        _ => Err(ProfileFault::InvalidField(key, "is required and must be a string"@)),
    }
}

pub open spec fn req_table(e: Seq<(Seq<char>, TomlModel)>, key: Seq<char>) -> Result<
    Seq<(Seq<char>, TomlModel)>,
    ProfileFault,
> {
    match lookup(e, key) {
        Some(TomlModel::Table(t)) => Ok(t),
        _ => Err(ProfileFault::InvalidField(key, "is required and must be a table"@)),
    }
}

pub fn required_string(table: &Vec<(String, TomlValue)>, key: &'static str) -> (r: Result<String, ProfileError>)
    ensures
        match r {
            Ok(s) => req_string(entries_model(table@), key@) == Ok::<Seq<char>, ProfileFault>(s@),
            Err(e) => req_string(entries_model(table@), key@) == Err::<Seq<char>, ProfileFault>(e@),
        },
{
    match table_get(table, key) {
        Some(TomlValue::String(s)) => Ok(s.clone()),
        _ => Err(invalid(key, "is required and must be a string")),
    }
}

pub fn required_table<'a>(table: &'a Vec<(String, TomlValue)>, key: &'static str) -> (r: Result<
    &'a Vec<(String, TomlValue)>,
    ProfileError,
>)
    ensures
        match r {
            Ok(t) => req_table(entries_model(table@), key@) == Ok::<
                Seq<(Seq<char>, TomlModel)>,
                ProfileFault,
            >(entries_model(t@)),
            Err(e) => req_table(entries_model(table@), key@) == Err::<
                Seq<(Seq<char>, TomlModel)>,
                ProfileFault,
            >(e@),
        },
{
    match table_get(table, key) {
        Some(TomlValue::Table(t)) => {
            proof {
                crate::config::lemma_table_model(*t);
            }
            Ok(t)
        },
        _ => Err(invalid(key, "is required and must be a table")),
    }
}

pub open spec fn peer_prefix(i: int) -> Seq<char> {
    "peer["@ + decimal_text(i as nat) + "]"@
}

/// The URIs of the `[[peer]]` tables from position `i` on.
pub open spec fn peer_uris_from(items: Seq<TomlModel>, i: int) -> Result<Seq<Seq<char>>, ProfileFault>
    decreases items.len() - i,
{
    if i < 0 || i >= items.len() {
        Ok(Seq::empty())
    } else {
        match items[i] {
            TomlModel::Table(t) => match keys_fault(t, peer_prefix(i), seq!["uri"@]) {
                Some(f) => Err(f),
                None => match req_string(t, "uri"@) {
                    Err(f) => Err(f),
                    Ok(u) => match peer_uris_from(items, i + 1) {
                        Ok(rest) => Ok(seq![u] + rest),
                        Err(f) => Err(f),
                    },
                },
            },
            _ => Err(ProfileFault::InvalidField(peer_field(), "entries must be tables"@)),
        }
    }
}

/// The bootstrap peers of a configuration: an array of tables, each with
/// only a `uri` string.
pub open spec fn peers_of(root: Seq<(Seq<char>, TomlModel)>) -> Result<Seq<Seq<char>>, ProfileFault> {
    match lookup(root, "peer"@) {
        Some(TomlModel::Array(items)) => peer_uris_from(items, 0),
        _ => Err(ProfileFault::InvalidField(peer_field(), "must be a non-empty array of tables"@)),
    }
}

pub fn parse_peers(root: &Vec<(String, TomlValue)>) -> (r: Result<Vec<String>, ProfileError>)
    ensures
        match r {
            Ok(v) => peers_of(entries_model(root@)) == Ok::<Seq<Seq<char>>, ProfileFault>(texts(v@)),
            Err(e) => peers_of(entries_model(root@)) == Err::<Seq<Seq<char>>, ProfileFault>(e@),
        },
{
    let items = match table_get(root, "peer") {
        Some(TomlValue::Array(items)) => items,
        _ => {
            return Err(invalid("peer", "must be a non-empty array of tables"));
        },
    };
    proof {
        crate::config::lemma_array_model(*items);
    }
    let ghost ms = crate::config::values_model(items@);
    let mut out: Vec<String> = Vec::new();
    let mut i: usize = 0;
    while i < items.len()
        invariant
            i <= items@.len(),
            ms == crate::config::values_model(items@),
            peers_of(entries_model(root@)) == peer_uris_from(ms, 0),
            peer_uris_from(ms, 0) == match peer_uris_from(ms, i as int) {
                Ok(rest) => Ok::<Seq<Seq<char>>, ProfileFault>(texts(out@) + rest),
                Err(f) => Err::<Seq<Seq<char>>, ProfileFault>(f),
            },
        decreases items@.len() - i,
    {
        assert(ms[i as int] == items@[i as int]@);
        let table = match &items[i] {
            TomlValue::Table(t) => t,
            _ => {
                return Err(invalid("peer", "entries must be tables"));
            },
        };
        proof {
            crate::config::lemma_table_model(*table);
        }
        let prefix = concat3("peer[", decimal_string(i as u64).as_str(), "]");
        let allowed: [&str; 1] = ["uri"];
        assert(crate::config::str_texts(allowed@) =~= seq!["uri"@]);
        match ensure_allowed_keys(table, prefix.as_str(), &allowed) {
            Err(e) => {
                return Err(e);
            },
            Ok(()) => {},
        }
        let uri = required_string(table, "uri")?;
        proof {
            let rest = peer_uris_from(ms, i + 1);
            assert(texts(out@.push(uri)) =~= texts(out@) + seq![uri@]);
            if rest is Ok {
                assert(texts(out@) + (seq![uri@] + rest->Ok_0) =~= texts(out@) + seq![uri@] + rest->Ok_0);
            }
        }
        out.push(uri);
        i = i + 1;
    }
    assert(peer_uris_from(ms, i as int) == Ok::<Seq<Seq<char>>, ProfileFault>(Seq::empty()));
    assert(texts(out@) + Seq::<Seq<char>>::empty() =~= texts(out@));
    Ok(out)
}

pub open spec fn root_keys() -> Seq<Seq<char>> {
    seq!["instance_name"@, "hostname"@, "ipv4"@, "peer"@, "network_identity"@, "flags"@]
}

pub open spec fn identity_keys() -> Seq<Seq<char>> {
    seq!["network_name"@, "network_secret"@]
}

/// The `[flags]` entries of a configuration; none when it has no `[flags]`.
pub open spec fn flags_entries_of(root: Seq<(Seq<char>, TomlModel)>) -> Result<
    Seq<(Seq<char>, TomlModel)>,
    ProfileFault,
> {
    match lookup(root, "flags"@) {
        None => Ok(Seq::empty()),
        Some(TomlModel::Table(t)) => Ok(t),
        Some(_) => Err(ProfileFault::InvalidField("flags"@, "must be a table"@)),
    }
}

/// Why a configuration's identity and flags cannot be imported, if they
/// cannot.
pub open spec fn identity_import_fault(root: Seq<(Seq<char>, TomlModel)>) -> Option<ProfileFault> {
    match req_table(root, "network_identity"@) {
        Err(f) => Some(f),
        Ok(id) => first_fault(
            keys_fault(id, "network_identity"@, identity_keys()),
            first_fault(
                fault_of(req_string(id, "network_name"@)),
                first_fault(
                    fault_of(req_string(id, "network_secret"@)),
                    match flags_entries_of(root) {
                        Err(f) => Some(f),
                        Ok(fe) => flags_import_fault(fe),
                    },
                ),
            ),
        ),
    }
}

/// Why a parsed configuration document cannot be imported, before the
/// imported profile itself is validated.
pub open spec fn document_fault(doc: TomlModel) -> Option<ProfileFault> {
    match doc {
        TomlModel::Table(root) => first_fault(
            keys_fault(root, Seq::empty(), root_keys()),
            first_fault(
                fault_of(req_string(root, "instance_name"@)),
                first_fault(
                    fault_of(req_string(root, "hostname"@)),
                    first_fault(
                        fault_of(req_string(root, "ipv4"@)),
                        first_fault(fault_of(peers_of(root)), identity_import_fault(root)),
                    ),
                ),
            ),
        ),
        _ => Some(ProfileFault::InvalidToml("root must be a TOML table"@)),
    }
}

/// Why a configuration document cannot be imported, before the imported
/// profile itself is validated.
pub open spec fn import_fault(input: Seq<char>) -> Option<ProfileFault> {
    match crate::config::toml_document(input) {
        Err(msg) => Some(ProfileFault::InvalidToml(msg)),
        Ok(doc) => document_fault(doc),
    }
}

/// `p` is what the import makes of the parsed document `doc` on a computer
/// named `computer_name`: the id and name are the instance name, a blank
/// device name becomes the computer name, and automatic connection is off.
pub open spec fn document_matches(p: ProfileModel, doc: TomlModel, computer_name: Seq<char>) -> bool {
    match doc {
        TomlModel::Table(root) => {
            let instance = req_string(root, "instance_name"@)->Ok_0;
            let hostname = req_string(root, "hostname"@)->Ok_0;
            let identity = req_table(root, "network_identity"@)->Ok_0;
            &&& p.id == instance
            &&& p.name == instance
            &&& p.instance_name == instance
            &&& p.hostname == (if is_blank(hostname) {
                computer_name
            } else {
                hostname
            })
            &&& p.network_name == req_string(identity, "network_name"@)->Ok_0
            &&& p.network_secret == req_string(identity, "network_secret"@)->Ok_0
            &&& p.address_mode == AddressModel::Static(req_string(root, "ipv4"@)->Ok_0)
            &&& p.peers == peers_of(root)->Ok_0
            &&& flags_match(p.flags, flags_entries_of(root)->Ok_0)
            &&& !p.auto_connect
        },
        _ => false,
    }
}

/// `p` is what the import makes of `input` on a computer named
/// `computer_name`.
pub open spec fn import_matches(p: ProfileModel, input: Seq<char>, computer_name: Seq<char>) -> bool {
    match crate::config::toml_document(input) {
        Ok(doc) => document_matches(p, doc, computer_name),
        Err(_) => false,
    }
}

impl NetworkProfile {
    /// Imports a core configuration document.  Only the root fields this
    /// client owns are accepted, with every `[flags]` key of the bundled
    /// core; listeners and other topology-changing fields stay
    /// service-managed.  A blank device name becomes `computer_name`.
    pub fn from_whitelisted_toml(input: &str, computer_name: String) -> (r: Result<Self, ProfileError>)
        ensures
            match r {
                Ok(p) => import_fault(input@) is None && import_matches(p@, input@, computer_name@)
                    && profile_fault(p@) is None,
                Err(e) => import_fault(input@) == Some(e@) || (import_fault(input@) is None
                    && exists|p: ProfileModel|
                    #[trigger] import_matches(p, input@, computer_name@) && (flags_fault(p.flags) == Some(e@)
                        || (flags_fault(p.flags) is None && profile_fault(p) == Some(e@)))),
            },
    {
        let value = match crate::config::parse_toml(input) {
            Ok(v) => v,
            Err(message) => {
                return Err(ProfileError::InvalidToml(message));
            },
        };
        let ghost name = computer_name@;
        let r = NetworkProfile::from_toml_document(&value, computer_name);
        proof {
            assert forall|p: ProfileModel| #[trigger] import_matches(p, input@, name) == document_matches(p, value@, name) by {}
            if r is Err {
                let e = r->Err_0;
                {
                    if document_fault(value@) != Some(e@) {
                        let p = choose|p: ProfileModel|
                            #[trigger] document_matches(p, value@, name) && (flags_fault(p.flags) == Some(e@)
                                || (flags_fault(p.flags) is None && profile_fault(p) == Some(e@)));
                        assert(import_matches(p, input@, name));
                    }
                }
            }
        }
        r
    }

    /// Imports a parsed core configuration document, as
    /// [`NetworkProfile::from_whitelisted_toml`] imports its text.
    pub fn from_toml_document(value: &TomlValue, computer_name: String) -> (r: Result<Self, ProfileError>)
        ensures
            match r {
                Ok(p) => document_fault(value@) is None && document_matches(p@, value@, computer_name@)
                    && profile_fault(p@) is None,
                Err(e) => document_fault(value@) == Some(e@) || (document_fault(value@) is None
                    && exists|p: ProfileModel|
                    #[trigger] document_matches(p, value@, computer_name@) && (flags_fault(p.flags) == Some(e@)
                        || (flags_fault(p.flags) is None && profile_fault(p) == Some(e@)))),
            },
    {
        let root = match value {
            TomlValue::Table(root) => root,
            _ => {
                return Err(ProfileError::InvalidToml(owned("root must be a TOML table")));
            },
        };
        proof {
            crate::config::lemma_table_model(*root);
        }
        let ghost rm = entries_model(root@);
        let root_allowed: [&str; 6] = [
            "instance_name",
            "hostname",
            "ipv4",
            "peer",
            "network_identity",
            "flags",
        ];
        assert(crate::config::str_texts(root_allowed@) =~= root_keys());
        proof {
            reveal_strlit("");
        }
        ensure_allowed_keys(root, "", &root_allowed)?;
        let instance_name = required_string(root, "instance_name")?;
        let hostname = required_string(root, "hostname")?;
        let ipv4 = required_string(root, "ipv4")?;
        let peers = parse_peers(root)?;
        let identity = required_table(root, "network_identity")?;
        let identity_allowed: [&str; 2] = ["network_name", "network_secret"];
        assert(crate::config::str_texts(identity_allowed@) =~= identity_keys());
        ensure_allowed_keys(identity, "network_identity", &identity_allowed)?;
        let network_name = required_string(identity, "network_name")?;
        let network_secret = required_string(identity, "network_secret")?;
        let flags = match table_get(root, "flags") {
            None => {
                let f = EasyTierFlags::default();
                proof {
                    lemma_default_flags_valid(f);
                    reveal(flag_group_values_1);
                    reveal(flag_group_values_2);
                    reveal(flag_group_values_3);
                    reveal(flag_group_values_4);
                    reveal(flag_group_values_5);
                    reveal(flag_group_values_6);
                    reveal(flag_group_fault_1);
                    reveal(flag_group_fault_2);
                    reveal(flag_group_fault_3);
                    reveal(flag_group_fault_4);
                    reveal(flag_group_fault_5);
                    reveal(flag_group_fault_6);
                    assert(flags_match(f, Seq::empty()));
                    assert(flags_import_fault(Seq::empty()) is None);
                }
                f
            },
            Some(TomlValue::Table(t)) => {
                proof {
                    crate::config::lemma_table_model(*t);
                }
                match EasyTierFlags::from_toml_table(t) {
                    Ok(f) => f,
                    Err(e) => {
                        proof {
                            let fe = entries_model(t@);
                            if flags_import_fault(fe) != Some(e@) {
                                let f = choose|f: EasyTierFlags|
                                    flags_match(f, fe) && flags_fault(f) == Some(e@);
                                let p = ProfileModel {
                                    id: instance_name@,
                                    name: instance_name@,
                                    instance_name: instance_name@,
                                    hostname: if is_blank(hostname@) {
                                        computer_name@
                                    } else {
                                        hostname@
                                    },
                                    network_name: network_name@,
                                    network_secret: network_secret@,
                                    address_mode: AddressModel::Static(ipv4@),
                                    peers: texts(peers@),
                                    flags: f,
                                    auto_connect: false,
                                };
                                assert(document_matches(p, value@, computer_name@));
                                assert(flags_entries_of(rm) == Ok::<Seq<(Seq<char>, TomlModel)>, ProfileFault>(fe));
                                assert(identity_import_fault(rm) is None);
                                assert(document_fault(value@) is None);
                                assert(flags_fault(p.flags) == Some(e@));
                            } else {
                                assert(flags_entries_of(rm) == Ok::<Seq<(Seq<char>, TomlModel)>, ProfileFault>(fe));
                                assert(identity_import_fault(rm) == Some(e@));
                                assert(document_fault(value@) == Some(e@));
                            }
                        }
                        return Err(e);
                    },
                }
            },
            Some(_) => {
                return Err(invalid("flags", "must be a table"));
            },
        };
        let mut profile = NetworkProfile {
            id: instance_name.clone(),
            name: instance_name.clone(),
            instance_name,
            hostname,
            network_name,
            network_secret: SecretString::new(network_secret),
            address_mode: AddressMode::Static { cidr: ipv4 },
            peers,
            flags,
            auto_connect: false,
        };
        profile.apply_default_hostname(computer_name);
        assert(document_matches(profile@, value@, computer_name@));
        match profile.validate() {
            Ok(()) => Ok(profile),
            Err(e) => {
                assert(document_matches(profile@, value@, computer_name@) && (flags_fault(profile@.flags) == Some(e@) || (
                flags_fault(profile@.flags) is None && profile_fault(profile@) == Some(e@))));
                Err(e)
            },
        }
    }
}



// ---------------------------------------------------------------------------
// Rendering the core's TOML configuration
// ---------------------------------------------------------------------------

/// The `[flags]` table written for `f`.  The unlimited sentinels of the two
/// BPS limits and of the deprecated QUIC port are left out, so the core
/// applies its own defaults and no value exceeds TOML's integer range.
pub open spec fn flag_entries(f: EasyTierFlags) -> Seq<(Seq<char>, TomlModel)> {
    flag_group_entries_1(f)
    + flag_group_entries_2(f)
    + flag_group_entries_3(f)
    + flag_group_entries_4(f)
    + flag_group_entries_5(f)
    + flag_group_entries_6(f)
}

pub open spec fn cidr_of(mode: AddressModel) -> Seq<char> {
    match mode {
        AddressModel::Static(cidr) => cidr,
        AddressModel::Dhcp => Seq::empty(),
    }
}

pub open spec fn peer_table(uri: Seq<char>) -> TomlModel {
    TomlModel::Table(seq![("uri"@, TomlModel::String(uri))])
}

pub open spec fn peer_tables(uris: Seq<Seq<char>>) -> Seq<TomlModel> {
    uris.map_values(|u: Seq<char>| peer_table(u))
}

/// The slim, service-controlled configuration document of a profile.
pub open spec fn core_document_of(p: ProfileModel) -> TomlModel {
    TomlModel::Table(
        seq![
            ("instance_name"@, TomlModel::String(p.instance_name)),
            ("hostname"@, TomlModel::String(p.hostname)),
            ("ipv4"@, TomlModel::String(cidr_of(p.address_mode))),
            ("peer"@, TomlModel::Array(peer_tables(p.peers))),
            (
                "network_identity"@,
                TomlModel::Table(
                    seq![
                        ("network_name"@, TomlModel::String(p.network_name)),
                        ("network_secret"@, TomlModel::String(p.network_secret)),
                    ],
                ),
            ),
            ("flags"@, TomlModel::Table(flag_entries(p.flags))),
        ],
    )
}

fn push_entry(entries: &mut Vec<(String, TomlValue)>, key: &str, value: TomlValue)
    ensures
        entries_model(final(entries)@) == entries_model(old(entries)@).push((key@, value@)),
{
    let ghost before = entries@;
    entries.push((owned(key), value));
    assert(entries_model(entries@) =~= entries_model(before).push((key@, value@)));
}

pub open spec fn flag_group_entries_1(f: EasyTierFlags) -> Seq<(Seq<char>, TomlModel)> {
    seq![
        ("default_protocol"@, TomlModel::String(f.default_protocol@)),
        ("dev_name"@, TomlModel::String(f.dev_name@)),
        ("enable_encryption"@, TomlModel::Boolean(f.enable_encryption)),
        ("enable_ipv6"@, TomlModel::Boolean(f.enable_ipv6)),
        ("mtu"@, TomlModel::Integer(f.mtu as i64)),
        ("latency_first"@, TomlModel::Boolean(f.latency_first)),
        ("enable_exit_node"@, TomlModel::Boolean(f.enable_exit_node)),
    ]
}

fn flag_group_table_1(f: &EasyTierFlags) -> (r: Vec<(String, TomlValue)>)
    ensures
        entries_model(r@) == flag_group_entries_1(*f),
{
    let mut entries: Vec<(String, TomlValue)> = Vec::new();
    assert(entries_model(entries@) =~= Seq::empty());
    push_entry(&mut entries, "default_protocol", string_value(f.default_protocol.as_str()));
    push_entry(&mut entries, "dev_name", string_value(f.dev_name.as_str()));
    push_entry(&mut entries, "enable_encryption", TomlValue::Boolean(f.enable_encryption));
    push_entry(&mut entries, "enable_ipv6", TomlValue::Boolean(f.enable_ipv6));
    push_entry(&mut entries, "mtu", TomlValue::Integer(f.mtu as i64));
    push_entry(&mut entries, "latency_first", TomlValue::Boolean(f.latency_first));
    push_entry(&mut entries, "enable_exit_node", TomlValue::Boolean(f.enable_exit_node));
    assert(entries_model(entries@) =~= flag_group_entries_1(*f));
    entries
}

pub open spec fn flag_group_entries_2(f: EasyTierFlags) -> Seq<(Seq<char>, TomlModel)> {
    seq![
        ("no_tun"@, TomlModel::Boolean(f.no_tun)),
        ("use_smoltcp"@, TomlModel::Boolean(f.use_smoltcp)),
        ("relay_network_whitelist"@, TomlModel::String(f.relay_network_whitelist@)),
        ("disable_p2p"@, TomlModel::Boolean(f.disable_p2p)),
        ("relay_all_peer_rpc"@, TomlModel::Boolean(f.relay_all_peer_rpc)),
        ("disable_udp_hole_punching"@, TomlModel::Boolean(f.disable_udp_hole_punching)),
        ("multi_thread"@, TomlModel::Boolean(f.multi_thread)),
    ]
}

fn flag_group_table_2(f: &EasyTierFlags) -> (r: Vec<(String, TomlValue)>)
    ensures
        entries_model(r@) == flag_group_entries_2(*f),
{
    let mut entries: Vec<(String, TomlValue)> = Vec::new();
    assert(entries_model(entries@) =~= Seq::empty());
    push_entry(&mut entries, "no_tun", TomlValue::Boolean(f.no_tun));
    push_entry(&mut entries, "use_smoltcp", TomlValue::Boolean(f.use_smoltcp));
    push_entry(&mut entries, "relay_network_whitelist", string_value(f.relay_network_whitelist.as_str()));
    push_entry(&mut entries, "disable_p2p", TomlValue::Boolean(f.disable_p2p));
    push_entry(&mut entries, "relay_all_peer_rpc", TomlValue::Boolean(f.relay_all_peer_rpc));
    push_entry(&mut entries, "disable_udp_hole_punching", TomlValue::Boolean(f.disable_udp_hole_punching));
    push_entry(&mut entries, "multi_thread", TomlValue::Boolean(f.multi_thread));
    assert(entries_model(entries@) =~= flag_group_entries_2(*f));
    entries
}

pub open spec fn flag_group_entries_3(f: EasyTierFlags) -> Seq<(Seq<char>, TomlModel)> {
    seq![
        ("data_compress_algo"@, TomlModel::Integer(f.data_compress_algo as i64)),
        ("bind_device"@, TomlModel::Boolean(f.bind_device)),
        ("enable_kcp_proxy"@, TomlModel::Boolean(f.enable_kcp_proxy)),
        ("disable_kcp_input"@, TomlModel::Boolean(f.disable_kcp_input)),
        ("disable_relay_kcp"@, TomlModel::Boolean(f.disable_relay_kcp)),
        ("proxy_forward_by_system"@, TomlModel::Boolean(f.proxy_forward_by_system)),
        ("accept_dns"@, TomlModel::Boolean(f.accept_dns)),
    ]
}

fn flag_group_table_3(f: &EasyTierFlags) -> (r: Vec<(String, TomlValue)>)
    ensures
        entries_model(r@) == flag_group_entries_3(*f),
{
    let mut entries: Vec<(String, TomlValue)> = Vec::new();
    assert(entries_model(entries@) =~= Seq::empty());
    push_entry(&mut entries, "data_compress_algo", TomlValue::Integer(f.data_compress_algo as i64));
    push_entry(&mut entries, "bind_device", TomlValue::Boolean(f.bind_device));
    push_entry(&mut entries, "enable_kcp_proxy", TomlValue::Boolean(f.enable_kcp_proxy));
    push_entry(&mut entries, "disable_kcp_input", TomlValue::Boolean(f.disable_kcp_input));
    push_entry(&mut entries, "disable_relay_kcp", TomlValue::Boolean(f.disable_relay_kcp));
    push_entry(&mut entries, "proxy_forward_by_system", TomlValue::Boolean(f.proxy_forward_by_system));
    push_entry(&mut entries, "accept_dns", TomlValue::Boolean(f.accept_dns));
    assert(entries_model(entries@) =~= flag_group_entries_3(*f));
    entries
}

pub open spec fn flag_group_entries_4(f: EasyTierFlags) -> Seq<(Seq<char>, TomlModel)> {
    seq![
        ("private_mode"@, TomlModel::Boolean(f.private_mode)),
        ("enable_quic_proxy"@, TomlModel::Boolean(f.enable_quic_proxy)),
        ("disable_quic_input"@, TomlModel::Boolean(f.disable_quic_input)),
        ("disable_relay_quic"@, TomlModel::Boolean(f.disable_relay_quic)),
    ]
    + (if f.quic_listen_port != u32::MAX {
        seq![("quic_listen_port"@, TomlModel::Integer(f.quic_listen_port as i64))]
    } else {
        Seq::empty()
    })
    + (if f.foreign_relay_bps_limit != u64::MAX {
        seq![("foreign_relay_bps_limit"@, TomlModel::Integer(f.foreign_relay_bps_limit as i64))]
    } else {
        Seq::empty()
    })
    + seq![
        ("multi_thread_count"@, TomlModel::Integer(f.multi_thread_count as i64)),
    ]
}

fn flag_group_table_4(f: &EasyTierFlags) -> (r: Vec<(String, TomlValue)>)
    requires
        bps_limit_fault(Seq::empty(), f.foreign_relay_bps_limit) is None,
    ensures
        entries_model(r@) == flag_group_entries_4(*f),
{
    let mut entries: Vec<(String, TomlValue)> = Vec::new();
    assert(entries_model(entries@) =~= Seq::empty());
    push_entry(&mut entries, "private_mode", TomlValue::Boolean(f.private_mode));
    push_entry(&mut entries, "enable_quic_proxy", TomlValue::Boolean(f.enable_quic_proxy));
    push_entry(&mut entries, "disable_quic_input", TomlValue::Boolean(f.disable_quic_input));
    push_entry(&mut entries, "disable_relay_quic", TomlValue::Boolean(f.disable_relay_quic));
    if f.quic_listen_port != u32::MAX {
        push_entry(&mut entries, "quic_listen_port", TomlValue::Integer(f.quic_listen_port as i64));
    }
    if f.foreign_relay_bps_limit != u64::MAX {
        push_entry(&mut entries, "foreign_relay_bps_limit", TomlValue::Integer(f.foreign_relay_bps_limit as i64));
    }
    push_entry(&mut entries, "multi_thread_count", TomlValue::Integer(f.multi_thread_count as i64));
    assert(entries_model(entries@) =~= flag_group_entries_4(*f));
    entries
}

pub open spec fn flag_group_entries_5(f: EasyTierFlags) -> Seq<(Seq<char>, TomlModel)> {
    seq![
        ("enable_relay_foreign_network_kcp"@, TomlModel::Boolean(f.enable_relay_foreign_network_kcp)),
        ("enable_relay_foreign_network_quic"@, TomlModel::Boolean(f.enable_relay_foreign_network_quic)),
        ("encryption_algorithm"@, TomlModel::String(f.encryption_algorithm@)),
        ("disable_sym_hole_punching"@, TomlModel::Boolean(f.disable_sym_hole_punching)),
        ("tld_dns_zone"@, TomlModel::String(f.tld_dns_zone@)),
        ("p2p_only"@, TomlModel::Boolean(f.p2p_only)),
        ("disable_tcp_hole_punching"@, TomlModel::Boolean(f.disable_tcp_hole_punching)),
    ]
}

fn flag_group_table_5(f: &EasyTierFlags) -> (r: Vec<(String, TomlValue)>)
    ensures
        entries_model(r@) == flag_group_entries_5(*f),
{
    let mut entries: Vec<(String, TomlValue)> = Vec::new();
    assert(entries_model(entries@) =~= Seq::empty());
    push_entry(&mut entries, "enable_relay_foreign_network_kcp", TomlValue::Boolean(f.enable_relay_foreign_network_kcp));
    push_entry(&mut entries, "enable_relay_foreign_network_quic", TomlValue::Boolean(f.enable_relay_foreign_network_quic));
    push_entry(&mut entries, "encryption_algorithm", string_value(f.encryption_algorithm.as_str()));
    push_entry(&mut entries, "disable_sym_hole_punching", TomlValue::Boolean(f.disable_sym_hole_punching));
    push_entry(&mut entries, "tld_dns_zone", string_value(f.tld_dns_zone.as_str()));
    push_entry(&mut entries, "p2p_only", TomlValue::Boolean(f.p2p_only));
    push_entry(&mut entries, "disable_tcp_hole_punching", TomlValue::Boolean(f.disable_tcp_hole_punching));
    assert(entries_model(entries@) =~= flag_group_entries_5(*f));
    entries
}

pub open spec fn flag_group_entries_6(f: EasyTierFlags) -> Seq<(Seq<char>, TomlModel)> {
    seq![
        ("lazy_p2p"@, TomlModel::Boolean(f.lazy_p2p)),
        ("need_p2p"@, TomlModel::Boolean(f.need_p2p)),
    ]
    + (if f.instance_recv_bps_limit != u64::MAX {
        seq![("instance_recv_bps_limit"@, TomlModel::Integer(f.instance_recv_bps_limit as i64))]
    } else {
        Seq::empty()
    })
    + seq![
        ("disable_upnp"@, TomlModel::Boolean(f.disable_upnp)),
        ("disable_relay_data"@, TomlModel::Boolean(f.disable_relay_data)),
        ("enable_udp_broadcast_relay"@, TomlModel::Boolean(f.enable_udp_broadcast_relay)),
    ]
}

fn flag_group_table_6(f: &EasyTierFlags) -> (r: Vec<(String, TomlValue)>)
    requires
        bps_limit_fault(Seq::empty(), f.instance_recv_bps_limit) is None,
    ensures
        entries_model(r@) == flag_group_entries_6(*f),
{
    let mut entries: Vec<(String, TomlValue)> = Vec::new();
    assert(entries_model(entries@) =~= Seq::empty());
    push_entry(&mut entries, "lazy_p2p", TomlValue::Boolean(f.lazy_p2p));
    push_entry(&mut entries, "need_p2p", TomlValue::Boolean(f.need_p2p));
    if f.instance_recv_bps_limit != u64::MAX {
        push_entry(&mut entries, "instance_recv_bps_limit", TomlValue::Integer(f.instance_recv_bps_limit as i64));
    }
    push_entry(&mut entries, "disable_upnp", TomlValue::Boolean(f.disable_upnp));
    push_entry(&mut entries, "disable_relay_data", TomlValue::Boolean(f.disable_relay_data));
    push_entry(&mut entries, "enable_udp_broadcast_relay", TomlValue::Boolean(f.enable_udp_broadcast_relay));
    assert(entries_model(entries@) =~= flag_group_entries_6(*f));
    entries
}

fn string_value(s: &str) -> (r: TomlValue)
    ensures
        r@ == TomlModel::String(s@),
{
    TomlValue::String(owned(s))
}

fn flags_table(f: &EasyTierFlags) -> (r: Vec<(String, TomlValue)>)
    requires
        bps_limit_fault(Seq::empty(), f.foreign_relay_bps_limit) is None,
        bps_limit_fault(Seq::empty(), f.instance_recv_bps_limit) is None,
    ensures
        entries_model(r@) == flag_entries(*f),
{
    let mut entries = flag_group_table_1(f);
    let mut next = flag_group_table_2(f);
    proof {
        crate::config::lemma_entries_model_append(entries@, next@);
    }
    entries.append(&mut next);
    let mut next = flag_group_table_3(f);
    proof {
        crate::config::lemma_entries_model_append(entries@, next@);
    }
    entries.append(&mut next);
    let mut next = flag_group_table_4(f);
    proof {
        crate::config::lemma_entries_model_append(entries@, next@);
    }
    entries.append(&mut next);
    let mut next = flag_group_table_5(f);
    proof {
        crate::config::lemma_entries_model_append(entries@, next@);
    }
    entries.append(&mut next);
    let mut next = flag_group_table_6(f);
    proof {
        crate::config::lemma_entries_model_append(entries@, next@);
    }
    entries.append(&mut next);
    entries
}

impl NetworkProfile {
    /// The configuration document of this profile.
    pub fn core_document(&self) -> (r: TomlValue)
        requires
            flags_fault(self.flags) is None,
        ensures
            r@ == core_document_of(self@),
    {
        let cidr = match &self.address_mode {
            AddressMode::Static { cidr } => cidr.as_str(),
            AddressMode::Dhcp => "",
        };
        proof {
            reveal_strlit("");
        }
        let mut peers: Vec<TomlValue> = Vec::new();
        assert(crate::config::values_model(peers@) =~= peer_tables(texts(self.peers@).take(0)));
        let mut i: usize = 0;
        while i < self.peers.len()
            invariant
                i <= self.peers@.len(),
                crate::config::values_model(peers@) == peer_tables(texts(self.peers@).take(i as int)),
            decreases self.peers@.len() - i,
        {
            let mut entry: Vec<(String, TomlValue)> = Vec::new();
            assert(entries_model(entry@) =~= Seq::empty());
            push_entry(&mut entry, "uri", string_value(self.peers[i].as_str()));
            proof {
                crate::config::lemma_table_model(entry);
                assert(entries_model(entry@) =~= seq![("uri"@, TomlModel::String(self.peers@[i as int]@))]);
            }
            let table = TomlValue::Table(entry);
            proof {
                assert(table@ == peer_table(texts(self.peers@)[i as int]));
                assert(texts(self.peers@).take(i + 1) =~= texts(self.peers@).take(i as int).push(
                    texts(self.peers@)[i as int],
                ));
                assert(crate::config::values_model(peers@.push(table)) =~= crate::config::values_model(peers@).push(table@));
                assert(peer_tables(texts(self.peers@).take(i + 1)) =~= peer_tables(texts(self.peers@).take(i as int)).push(table@));
            }
            peers.push(table);
            i = i + 1;
        }
        assert(texts(self.peers@).take(i as int) =~= texts(self.peers@));
        let peer_array = TomlValue::Array(peers);
        proof {
            crate::config::lemma_array_model(peers);
        }
        let mut identity: Vec<(String, TomlValue)> = Vec::new();
        assert(entries_model(identity@) =~= Seq::empty());
        push_entry(&mut identity, "network_name", string_value(self.network_name.as_str()));
        push_entry(&mut identity, "network_secret", string_value(self.network_secret.expose()));
        let identity_value = TomlValue::Table(identity);
        proof {
            crate::config::lemma_table_model(identity);
            assert(entries_model(identity@) =~= seq![
                ("network_name"@, TomlModel::String(self@.network_name)),
                ("network_secret"@, TomlModel::String(self@.network_secret)),
            ]);
        }
        let flags = flags_table(&self.flags);
        let flags_value = TomlValue::Table(flags);
        proof {
            crate::config::lemma_table_model(flags);
        }
        let mut root: Vec<(String, TomlValue)> = Vec::new();
        assert(entries_model(root@) =~= Seq::empty());
        push_entry(&mut root, "instance_name", string_value(self.instance_name.as_str()));
        push_entry(&mut root, "hostname", string_value(self.hostname.as_str()));
        push_entry(&mut root, "ipv4", string_value(cidr));
        push_entry(&mut root, "peer", peer_array);
        push_entry(&mut root, "network_identity", identity_value);
        push_entry(&mut root, "flags", flags_value);
        let r = TomlValue::Table(root);
        proof {
            crate::config::lemma_table_model(root);
            assert(cidr@ == cidr_of(self@.address_mode));
            assert(peer_array@ == TomlModel::Array(peer_tables(self@.peers)));
            assert(identity_value@ == core_document_of(self@)->Table_0[4].1);
            assert(flags_value@ == TomlModel::Table(flag_entries(self.flags)));
            assert(entries_model(root@) =~= core_document_of(self@)->Table_0);
        }
        r
    }

    /// Renders the service-controlled core configuration.  The secret goes
    /// into this file, beneath the service-owned data directory, and never
    /// onto the core's command line.
    pub fn render_core_toml(&self) -> (r: Result<String, ProfileError>)
        ensures
            match r {
                Ok(t) => rendered_core_toml(self@) == Ok::<Seq<char>, ProfileFault>(t@),
                Err(e) => rendered_core_toml(self@) == Err::<Seq<char>, ProfileFault>(e@),
            },
            match r {
                Ok(t) => profile_fault(self@) is None && crate::config::toml_text(
                    core_document_of(self@),
                ) == Ok::<Seq<char>, Seq<char>>(t@),
                Err(e) => profile_fault(self@) == Some(e@) || (profile_fault(self@) is None
                    && crate::config::toml_text(core_document_of(self@)) == Err::<
                    Seq<char>,
                    Seq<char>,
                >(e@->InvalidToml_0) && e@ is InvalidToml),
            },
    {
        self.validate()?;
        let document = self.core_document();
        match crate::config::render_toml(&document) {
            Ok(text) => Ok(text),
            Err(message) => Err(ProfileError::InvalidToml(message)),
        }
    }
}

/// The lengths of the keys of the core configuration document, and a
/// character that tells apart any two of the same length.
proof fn lemma_document_key_texts()
    ensures
        "default_protocol"@.len() == 16,
        "dev_name"@.len() == 8,
        "enable_encryption"@.len() == 17,
        "enable_ipv6"@.len() == 11,
        "mtu"@.len() == 3,
        "latency_first"@.len() == 13,
        "enable_exit_node"@.len() == 16,
        "no_tun"@.len() == 6,
        "use_smoltcp"@.len() == 11,
        "relay_network_whitelist"@.len() == 23,
        "disable_p2p"@.len() == 11,
        "relay_all_peer_rpc"@.len() == 18,
        "disable_udp_hole_punching"@.len() == 25,
        "multi_thread"@.len() == 12,
        "data_compress_algo"@.len() == 18,
        "bind_device"@.len() == 11,
        "enable_kcp_proxy"@.len() == 16,
        "disable_kcp_input"@.len() == 17,
        "disable_relay_kcp"@.len() == 17,
        "proxy_forward_by_system"@.len() == 23,
        "accept_dns"@.len() == 10,
        "private_mode"@.len() == 12,
        "enable_quic_proxy"@.len() == 17,
        "disable_quic_input"@.len() == 18,
        "disable_relay_quic"@.len() == 18,
        "quic_listen_port"@.len() == 16,
        "foreign_relay_bps_limit"@.len() == 23,
        "multi_thread_count"@.len() == 18,
        "enable_relay_foreign_network_kcp"@.len() == 32,
        "enable_relay_foreign_network_quic"@.len() == 33,
        "encryption_algorithm"@.len() == 20,
        "disable_sym_hole_punching"@.len() == 25,
        "tld_dns_zone"@.len() == 12,
        "p2p_only"@.len() == 8,
        "disable_tcp_hole_punching"@.len() == 25,
        "lazy_p2p"@.len() == 8,
        "need_p2p"@.len() == 8,
        "instance_recv_bps_limit"@.len() == 23,
        "disable_upnp"@.len() == 12,
        "disable_relay_data"@.len() == 18,
        "enable_udp_broadcast_relay"@.len() == 26,
        "instance_name"@.len() == 13,
        "hostname"@.len() == 8,
        "ipv4"@.len() == 4,
        "peer"@.len() == 4,
        "network_identity"@.len() == 16,
        "flags"@.len() == 5,
        "network_name"@.len() == 12,
        "network_secret"@.len() == 14,
        "uri"@.len() == 3,
        "default_protocol"@[0] != "enable_exit_node"@[0],
        "default_protocol"@[0] != "enable_kcp_proxy"@[0],
        "default_protocol"@[0] != "quic_listen_port"@[0],
        "default_protocol"@[0] != "network_identity"@[0],
        "dev_name"@[0] != "p2p_only"@[0],
        "dev_name"@[0] != "lazy_p2p"@[0],
        "dev_name"@[0] != "need_p2p"@[0],
        "dev_name"@[0] != "hostname"@[0],
        "enable_encryption"@[0] != "disable_kcp_input"@[0],
        "enable_encryption"@[0] != "disable_relay_kcp"@[0],
        "enable_encryption"@[7] != "enable_quic_proxy"@[7],
        "enable_ipv6"@[0] != "use_smoltcp"@[0],
        "enable_ipv6"@[0] != "disable_p2p"@[0],
        "enable_ipv6"@[0] != "bind_device"@[0],
        "mtu"@[0] != "uri"@[0],
        "latency_first"@[0] != "instance_name"@[0],
        "enable_exit_node"@[7] != "enable_kcp_proxy"@[7],
        "enable_exit_node"@[0] != "quic_listen_port"@[0],
        "enable_exit_node"@[0] != "network_identity"@[0],
        "use_smoltcp"@[0] != "disable_p2p"@[0],
        "use_smoltcp"@[0] != "bind_device"@[0],
        "relay_network_whitelist"@[0] != "proxy_forward_by_system"@[0],
        "relay_network_whitelist"@[0] != "foreign_relay_bps_limit"@[0],
        "relay_network_whitelist"@[0] != "instance_recv_bps_limit"@[0],
        "disable_p2p"@[0] != "bind_device"@[0],
        "relay_all_peer_rpc"@[0] != "data_compress_algo"@[0],
        "relay_all_peer_rpc"@[0] != "disable_quic_input"@[0],
        "relay_all_peer_rpc"@[0] != "disable_relay_quic"@[0],
        "relay_all_peer_rpc"@[0] != "multi_thread_count"@[0],
        "relay_all_peer_rpc"@[0] != "disable_relay_data"@[0],
        "disable_udp_hole_punching"@[8] != "disable_sym_hole_punching"@[8],
        "disable_udp_hole_punching"@[8] != "disable_tcp_hole_punching"@[8],
        "multi_thread"@[0] != "private_mode"@[0],
        "multi_thread"@[0] != "tld_dns_zone"@[0],
        "multi_thread"@[0] != "disable_upnp"@[0],
        "multi_thread"@[0] != "network_name"@[0],
        "data_compress_algo"@[1] != "disable_quic_input"@[1],
        "data_compress_algo"@[1] != "disable_relay_quic"@[1],
        "data_compress_algo"@[0] != "multi_thread_count"@[0],
        "data_compress_algo"@[1] != "disable_relay_data"@[1],
        "enable_kcp_proxy"@[0] != "quic_listen_port"@[0],
        "enable_kcp_proxy"@[0] != "network_identity"@[0],
        "disable_kcp_input"@[8] != "disable_relay_kcp"@[8],
        "disable_kcp_input"@[0] != "enable_quic_proxy"@[0],
        "disable_relay_kcp"@[0] != "enable_quic_proxy"@[0],
        "proxy_forward_by_system"@[0] != "foreign_relay_bps_limit"@[0],
        "proxy_forward_by_system"@[0] != "instance_recv_bps_limit"@[0],
        "private_mode"@[0] != "tld_dns_zone"@[0],
        "private_mode"@[0] != "disable_upnp"@[0],
        "private_mode"@[0] != "network_name"@[0],
        "disable_quic_input"@[8] != "disable_relay_quic"@[8],
        "disable_quic_input"@[0] != "multi_thread_count"@[0],
        "disable_quic_input"@[8] != "disable_relay_data"@[8],
        "disable_relay_quic"@[0] != "multi_thread_count"@[0],
        "disable_relay_quic"@[14] != "disable_relay_data"@[14],
        "quic_listen_port"@[0] != "network_identity"@[0],
        "foreign_relay_bps_limit"@[0] != "instance_recv_bps_limit"@[0],
        "multi_thread_count"@[0] != "disable_relay_data"@[0],
        "disable_sym_hole_punching"@[8] != "disable_tcp_hole_punching"@[8],
        "tld_dns_zone"@[0] != "disable_upnp"@[0],
        "tld_dns_zone"@[0] != "network_name"@[0],
        "p2p_only"@[0] != "lazy_p2p"@[0],
        "p2p_only"@[0] != "need_p2p"@[0],
        "p2p_only"@[0] != "hostname"@[0],
        "lazy_p2p"@[0] != "need_p2p"@[0],
        "lazy_p2p"@[0] != "hostname"@[0],
        "need_p2p"@[0] != "hostname"@[0],
        "disable_upnp"@[0] != "network_name"@[0],
        "ipv4"@[0] != "peer"@[0],
{
    reveal_strlit("default_protocol");
    reveal_strlit("dev_name");
    reveal_strlit("enable_encryption");
    reveal_strlit("enable_ipv6");
    reveal_strlit("mtu");
    reveal_strlit("latency_first");
    reveal_strlit("enable_exit_node");
    reveal_strlit("no_tun");
    reveal_strlit("use_smoltcp");
    reveal_strlit("relay_network_whitelist");
    reveal_strlit("disable_p2p");
    reveal_strlit("relay_all_peer_rpc");
    reveal_strlit("disable_udp_hole_punching");
    reveal_strlit("multi_thread");
    reveal_strlit("data_compress_algo");
    reveal_strlit("bind_device");
    reveal_strlit("enable_kcp_proxy");
    reveal_strlit("disable_kcp_input");
    reveal_strlit("disable_relay_kcp");
    reveal_strlit("proxy_forward_by_system");
    reveal_strlit("accept_dns");
    reveal_strlit("private_mode");
    reveal_strlit("enable_quic_proxy");
    reveal_strlit("disable_quic_input");
    reveal_strlit("disable_relay_quic");
    reveal_strlit("quic_listen_port");
    reveal_strlit("foreign_relay_bps_limit");
    reveal_strlit("multi_thread_count");
    reveal_strlit("enable_relay_foreign_network_kcp");
    reveal_strlit("enable_relay_foreign_network_quic");
    reveal_strlit("encryption_algorithm");
    reveal_strlit("disable_sym_hole_punching");
    reveal_strlit("tld_dns_zone");
    reveal_strlit("p2p_only");
    reveal_strlit("disable_tcp_hole_punching");
    reveal_strlit("lazy_p2p");
    reveal_strlit("need_p2p");
    reveal_strlit("instance_recv_bps_limit");
    reveal_strlit("disable_upnp");
    reveal_strlit("disable_relay_data");
    reveal_strlit("enable_udp_broadcast_relay");
    reveal_strlit("instance_name");
    reveal_strlit("hostname");
    reveal_strlit("ipv4");
    reveal_strlit("peer");
    reveal_strlit("network_identity");
    reveal_strlit("flags");
    reveal_strlit("network_name");
    reveal_strlit("network_secret");
    reveal_strlit("uri");
}

/// A key of the `[flags]` entries of `f` is looked up group by group.
proof fn lemma_flag_entries_lookup(f: EasyTierFlags, k: Seq<char>)
    ensures
        lookup(flag_entries(f), k) == first_found(
            first_found(
                first_found(
                    first_found(
                        first_found(lookup(flag_group_entries_1(f), k), lookup(flag_group_entries_2(f), k)),
                        lookup(flag_group_entries_3(f), k),
                    ),
                    lookup(flag_group_entries_4(f), k),
                ),
                lookup(flag_group_entries_5(f), k),
            ),
            lookup(flag_group_entries_6(f), k),
        ),
{
    let g1 = flag_group_entries_1(f);
    let g2 = flag_group_entries_2(f);
    let g3 = flag_group_entries_3(f);
    let g4 = flag_group_entries_4(f);
    let g5 = flag_group_entries_5(f);
    let g6 = flag_group_entries_6(f);
    lemma_lookup_concat(g1, g2, k);
    lemma_lookup_concat(g1 + g2, g3, k);
    lemma_lookup_concat(g1 + g2 + g3, g4, k);
    lemma_lookup_concat(g1 + g2 + g3 + g4, g5, k);
    lemma_lookup_concat(g1 + g2 + g3 + g4 + g5, g6, k);
}

/// Group 1 of the `[flags]` entries of `f` reads back as `f` sets it.
proof fn lemma_flag_group_1_reads_back(f: EasyTierFlags)
    ensures
        flag_group_fault_1(flag_entries(f)) is None,
        flag_group_values_1((f.default_protocol, f.dev_name, f.enable_encryption, f.enable_ipv6, f.mtu, f.latency_first, f.enable_exit_node), flag_entries(f)),
{
    assert(lookup(flag_entries(f), "default_protocol"@) == Some(TomlModel::String(f.default_protocol@))) by {
        lemma_document_key_texts();
        reveal_with_fuel(crate::config::lookup_from, 8);
        lemma_flag_entries_lookup(f, "default_protocol"@);
    }
    assert(lookup(flag_entries(f), "dev_name"@) == Some(TomlModel::String(f.dev_name@))) by {
        lemma_document_key_texts();
        reveal_with_fuel(crate::config::lookup_from, 8);
        lemma_flag_entries_lookup(f, "dev_name"@);
    }
    assert(lookup(flag_entries(f), "enable_encryption"@) == Some(TomlModel::Boolean(f.enable_encryption))) by {
        lemma_document_key_texts();
        reveal_with_fuel(crate::config::lookup_from, 8);
        lemma_flag_entries_lookup(f, "enable_encryption"@);
    }
    assert(lookup(flag_entries(f), "enable_ipv6"@) == Some(TomlModel::Boolean(f.enable_ipv6))) by {
        lemma_document_key_texts();
        reveal_with_fuel(crate::config::lookup_from, 8);
        lemma_flag_entries_lookup(f, "enable_ipv6"@);
    }
    assert(lookup(flag_entries(f), "mtu"@) == Some(TomlModel::Integer(f.mtu as i64))) by {
        lemma_document_key_texts();
        reveal_with_fuel(crate::config::lookup_from, 8);
        lemma_flag_entries_lookup(f, "mtu"@);
    }
    assert(lookup(flag_entries(f), "latency_first"@) == Some(TomlModel::Boolean(f.latency_first))) by {
        lemma_document_key_texts();
        reveal_with_fuel(crate::config::lookup_from, 8);
        lemma_flag_entries_lookup(f, "latency_first"@);
    }
    assert(lookup(flag_entries(f), "enable_exit_node"@) == Some(TomlModel::Boolean(f.enable_exit_node))) by {
        lemma_document_key_texts();
        reveal_with_fuel(crate::config::lookup_from, 8);
        lemma_flag_entries_lookup(f, "enable_exit_node"@);
    }
    reveal(flag_group_fault_1);
    reveal(flag_group_values_1);
}

/// Group 2 of the `[flags]` entries of `f` reads back as `f` sets it.
proof fn lemma_flag_group_2_reads_back(f: EasyTierFlags)
    ensures
        flag_group_fault_2(flag_entries(f)) is None,
        flag_group_values_2((f.no_tun, f.use_smoltcp, f.relay_network_whitelist, f.disable_p2p, f.relay_all_peer_rpc, f.disable_udp_hole_punching, f.multi_thread), flag_entries(f)),
{
    assert(lookup(flag_entries(f), "no_tun"@) == Some(TomlModel::Boolean(f.no_tun))) by {
        lemma_document_key_texts();
        reveal_with_fuel(crate::config::lookup_from, 8);
        lemma_flag_entries_lookup(f, "no_tun"@);
    }
    assert(lookup(flag_entries(f), "use_smoltcp"@) == Some(TomlModel::Boolean(f.use_smoltcp))) by {
        lemma_document_key_texts();
        reveal_with_fuel(crate::config::lookup_from, 8);
        lemma_flag_entries_lookup(f, "use_smoltcp"@);
    }
    assert(lookup(flag_entries(f), "relay_network_whitelist"@) == Some(TomlModel::String(f.relay_network_whitelist@))) by {
        lemma_document_key_texts();
        reveal_with_fuel(crate::config::lookup_from, 8);
        lemma_flag_entries_lookup(f, "relay_network_whitelist"@);
    }
    assert(lookup(flag_entries(f), "disable_p2p"@) == Some(TomlModel::Boolean(f.disable_p2p))) by {
        lemma_document_key_texts();
        reveal_with_fuel(crate::config::lookup_from, 8);
        lemma_flag_entries_lookup(f, "disable_p2p"@);
    }
    assert(lookup(flag_entries(f), "relay_all_peer_rpc"@) == Some(TomlModel::Boolean(f.relay_all_peer_rpc))) by {
        lemma_document_key_texts();
        reveal_with_fuel(crate::config::lookup_from, 8);
        lemma_flag_entries_lookup(f, "relay_all_peer_rpc"@);
    }
    assert(lookup(flag_entries(f), "disable_udp_hole_punching"@) == Some(TomlModel::Boolean(f.disable_udp_hole_punching))) by {
        lemma_document_key_texts();
        reveal_with_fuel(crate::config::lookup_from, 8);
        lemma_flag_entries_lookup(f, "disable_udp_hole_punching"@);
    }
    assert(lookup(flag_entries(f), "multi_thread"@) == Some(TomlModel::Boolean(f.multi_thread))) by {
        lemma_document_key_texts();
        reveal_with_fuel(crate::config::lookup_from, 8);
        lemma_flag_entries_lookup(f, "multi_thread"@);
    }
    reveal(flag_group_fault_2);
    reveal(flag_group_values_2);
}

/// Group 3 of the `[flags]` entries of `f` reads back as `f` sets it.
proof fn lemma_flag_group_3_reads_back(f: EasyTierFlags)
    ensures
        flag_group_fault_3(flag_entries(f)) is None,
        flag_group_values_3((f.data_compress_algo, f.bind_device, f.enable_kcp_proxy, f.disable_kcp_input, f.disable_relay_kcp, f.proxy_forward_by_system, f.accept_dns), flag_entries(f)),
{
    assert(lookup(flag_entries(f), "data_compress_algo"@) == Some(TomlModel::Integer(f.data_compress_algo as i64))) by {
        lemma_document_key_texts();
        reveal_with_fuel(crate::config::lookup_from, 8);
        lemma_flag_entries_lookup(f, "data_compress_algo"@);
    }
    assert(lookup(flag_entries(f), "bind_device"@) == Some(TomlModel::Boolean(f.bind_device))) by {
        lemma_document_key_texts();
        reveal_with_fuel(crate::config::lookup_from, 8);
        lemma_flag_entries_lookup(f, "bind_device"@);
    }
    assert(lookup(flag_entries(f), "enable_kcp_proxy"@) == Some(TomlModel::Boolean(f.enable_kcp_proxy))) by {
        lemma_document_key_texts();
        reveal_with_fuel(crate::config::lookup_from, 8);
        lemma_flag_entries_lookup(f, "enable_kcp_proxy"@);
    }
    assert(lookup(flag_entries(f), "disable_kcp_input"@) == Some(TomlModel::Boolean(f.disable_kcp_input))) by {
        lemma_document_key_texts();
        reveal_with_fuel(crate::config::lookup_from, 8);
        lemma_flag_entries_lookup(f, "disable_kcp_input"@);
    }
    assert(lookup(flag_entries(f), "disable_relay_kcp"@) == Some(TomlModel::Boolean(f.disable_relay_kcp))) by {
        lemma_document_key_texts();
        reveal_with_fuel(crate::config::lookup_from, 8);
        lemma_flag_entries_lookup(f, "disable_relay_kcp"@);
    }
    assert(lookup(flag_entries(f), "proxy_forward_by_system"@) == Some(TomlModel::Boolean(f.proxy_forward_by_system))) by {
        lemma_document_key_texts();
        reveal_with_fuel(crate::config::lookup_from, 8);
        lemma_flag_entries_lookup(f, "proxy_forward_by_system"@);
    }
    assert(lookup(flag_entries(f), "accept_dns"@) == Some(TomlModel::Boolean(f.accept_dns))) by {
        lemma_document_key_texts();
        reveal_with_fuel(crate::config::lookup_from, 8);
        lemma_flag_entries_lookup(f, "accept_dns"@);
    }
    reveal(flag_group_fault_3);
    reveal(flag_group_values_3);
}

/// A key of group 4 of the `[flags]` entries is looked up piece by piece.
proof fn lemma_flag_group_4_lookup(f: EasyTierFlags, k: Seq<char>)
    ensures
        lookup(flag_group_entries_4(f), k) == first_found(
            first_found(first_found(lookup(seq![
            ("private_mode"@, TomlModel::Boolean(f.private_mode)),
            ("enable_quic_proxy"@, TomlModel::Boolean(f.enable_quic_proxy)),
            ("disable_quic_input"@, TomlModel::Boolean(f.disable_quic_input)),
            ("disable_relay_quic"@, TomlModel::Boolean(f.disable_relay_quic)),
        ], k), lookup((if f.quic_listen_port != u32::MAX {
            seq![("quic_listen_port"@, TomlModel::Integer(f.quic_listen_port as i64))]
        } else {
            Seq::empty()
        }), k)), lookup((if f.foreign_relay_bps_limit != u64::MAX {
            seq![("foreign_relay_bps_limit"@, TomlModel::Integer(f.foreign_relay_bps_limit as i64))]
        } else {
            Seq::empty()
        }), k)),
            lookup(seq![("multi_thread_count"@, TomlModel::Integer(f.multi_thread_count as i64))], k),
        ),
{
    let a = seq![
            ("private_mode"@, TomlModel::Boolean(f.private_mode)),
            ("enable_quic_proxy"@, TomlModel::Boolean(f.enable_quic_proxy)),
            ("disable_quic_input"@, TomlModel::Boolean(f.disable_quic_input)),
            ("disable_relay_quic"@, TomlModel::Boolean(f.disable_relay_quic)),
        ];
    let c1 = (if f.quic_listen_port != u32::MAX {
            seq![("quic_listen_port"@, TomlModel::Integer(f.quic_listen_port as i64))]
        } else {
            Seq::empty()
        });
    let c2 = (if f.foreign_relay_bps_limit != u64::MAX {
            seq![("foreign_relay_bps_limit"@, TomlModel::Integer(f.foreign_relay_bps_limit as i64))]
        } else {
            Seq::empty()
        });
    let b = seq![("multi_thread_count"@, TomlModel::Integer(f.multi_thread_count as i64))];
    assert(flag_group_entries_4(f) =~= a + c1 + c2 + b);
    lemma_lookup_concat(a, c1, k);
    lemma_lookup_concat(a + c1, c2, k);
    lemma_lookup_concat(a + c1 + c2, b, k);
}

/// Group 4 of the `[flags]` entries of `f` reads back as `f` sets it.
proof fn lemma_flag_group_4_reads_back(f: EasyTierFlags)
    requires
        f.foreign_relay_bps_limit == u64::MAX || f.foreign_relay_bps_limit <= i64::MAX,
    ensures
        flag_group_fault_4(flag_entries(f)) is None,
        flag_group_values_4((f.private_mode, f.enable_quic_proxy, f.disable_quic_input, f.disable_relay_quic, f.quic_listen_port, f.foreign_relay_bps_limit, f.multi_thread_count), flag_entries(f)),
{
    assert(lookup(flag_entries(f), "private_mode"@) == Some(TomlModel::Boolean(f.private_mode))) by {
        lemma_document_key_texts();
        reveal_with_fuel(crate::config::lookup_from, 8);
        lemma_flag_entries_lookup(f, "private_mode"@);
        lemma_flag_group_4_lookup(f, "private_mode"@);
    }
    assert(lookup(flag_entries(f), "enable_quic_proxy"@) == Some(TomlModel::Boolean(f.enable_quic_proxy))) by {
        lemma_document_key_texts();
        reveal_with_fuel(crate::config::lookup_from, 8);
        lemma_flag_entries_lookup(f, "enable_quic_proxy"@);
        lemma_flag_group_4_lookup(f, "enable_quic_proxy"@);
    }
    assert(lookup(flag_entries(f), "disable_quic_input"@) == Some(TomlModel::Boolean(f.disable_quic_input))) by {
        lemma_document_key_texts();
        reveal_with_fuel(crate::config::lookup_from, 8);
        lemma_flag_entries_lookup(f, "disable_quic_input"@);
        lemma_flag_group_4_lookup(f, "disable_quic_input"@);
    }
    assert(lookup(flag_entries(f), "disable_relay_quic"@) == Some(TomlModel::Boolean(f.disable_relay_quic))) by {
        lemma_document_key_texts();
        reveal_with_fuel(crate::config::lookup_from, 8);
        lemma_flag_entries_lookup(f, "disable_relay_quic"@);
        lemma_flag_group_4_lookup(f, "disable_relay_quic"@);
    }
    assert(lookup(flag_entries(f), "quic_listen_port"@) == (if f.quic_listen_port != u32::MAX { Some(TomlModel::Integer(f.quic_listen_port as i64)) } else { None })) by {
        lemma_document_key_texts();
        reveal_with_fuel(crate::config::lookup_from, 8);
        lemma_flag_entries_lookup(f, "quic_listen_port"@);
        lemma_flag_group_4_lookup(f, "quic_listen_port"@);
    }
    assert(lookup(flag_entries(f), "foreign_relay_bps_limit"@) == (if f.foreign_relay_bps_limit != u64::MAX { Some(TomlModel::Integer(f.foreign_relay_bps_limit as i64)) } else { None })) by {
        lemma_document_key_texts();
        reveal_with_fuel(crate::config::lookup_from, 8);
        lemma_flag_entries_lookup(f, "foreign_relay_bps_limit"@);
        lemma_flag_group_4_lookup(f, "foreign_relay_bps_limit"@);
    }
    assert(lookup(flag_entries(f), "multi_thread_count"@) == Some(TomlModel::Integer(f.multi_thread_count as i64))) by {
        lemma_document_key_texts();
        reveal_with_fuel(crate::config::lookup_from, 8);
        lemma_flag_entries_lookup(f, "multi_thread_count"@);
        lemma_flag_group_4_lookup(f, "multi_thread_count"@);
    }
    reveal(flag_group_fault_4);
    reveal(flag_group_values_4);
}

/// Group 5 of the `[flags]` entries of `f` reads back as `f` sets it.
proof fn lemma_flag_group_5_reads_back(f: EasyTierFlags)
    ensures
        flag_group_fault_5(flag_entries(f)) is None,
        flag_group_values_5((f.enable_relay_foreign_network_kcp, f.enable_relay_foreign_network_quic, f.encryption_algorithm, f.disable_sym_hole_punching, f.tld_dns_zone, f.p2p_only, f.disable_tcp_hole_punching), flag_entries(f)),
{
    assert(lookup(flag_entries(f), "enable_relay_foreign_network_kcp"@) == Some(TomlModel::Boolean(f.enable_relay_foreign_network_kcp))) by {
        lemma_document_key_texts();
        reveal_with_fuel(crate::config::lookup_from, 8);
        lemma_flag_entries_lookup(f, "enable_relay_foreign_network_kcp"@);
    }
    assert(lookup(flag_entries(f), "enable_relay_foreign_network_quic"@) == Some(TomlModel::Boolean(f.enable_relay_foreign_network_quic))) by {
        lemma_document_key_texts();
        reveal_with_fuel(crate::config::lookup_from, 8);
        lemma_flag_entries_lookup(f, "enable_relay_foreign_network_quic"@);
    }
    assert(lookup(flag_entries(f), "encryption_algorithm"@) == Some(TomlModel::String(f.encryption_algorithm@))) by {
        lemma_document_key_texts();
        reveal_with_fuel(crate::config::lookup_from, 8);
        lemma_flag_entries_lookup(f, "encryption_algorithm"@);
    }
    assert(lookup(flag_entries(f), "disable_sym_hole_punching"@) == Some(TomlModel::Boolean(f.disable_sym_hole_punching))) by {
        lemma_document_key_texts();
        reveal_with_fuel(crate::config::lookup_from, 8);
        lemma_flag_entries_lookup(f, "disable_sym_hole_punching"@);
    }
    assert(lookup(flag_entries(f), "tld_dns_zone"@) == Some(TomlModel::String(f.tld_dns_zone@))) by {
        lemma_document_key_texts();
        reveal_with_fuel(crate::config::lookup_from, 8);
        lemma_flag_entries_lookup(f, "tld_dns_zone"@);
    }
    assert(lookup(flag_entries(f), "p2p_only"@) == Some(TomlModel::Boolean(f.p2p_only))) by {
        lemma_document_key_texts();
        reveal_with_fuel(crate::config::lookup_from, 8);
        lemma_flag_entries_lookup(f, "p2p_only"@);
    }
    assert(lookup(flag_entries(f), "disable_tcp_hole_punching"@) == Some(TomlModel::Boolean(f.disable_tcp_hole_punching))) by {
        lemma_document_key_texts();
        reveal_with_fuel(crate::config::lookup_from, 8);
        lemma_flag_entries_lookup(f, "disable_tcp_hole_punching"@);
    }
    reveal(flag_group_fault_5);
    reveal(flag_group_values_5);
}

/// Group 6 of the `[flags]` entries of `f` reads back as `f` sets it.
proof fn lemma_flag_group_6_reads_back(f: EasyTierFlags)
    requires
        f.instance_recv_bps_limit == u64::MAX || f.instance_recv_bps_limit <= i64::MAX,
    ensures
        flag_group_fault_6(flag_entries(f)) is None,
        flag_group_values_6((f.lazy_p2p, f.need_p2p, f.instance_recv_bps_limit, f.disable_upnp, f.disable_relay_data, f.enable_udp_broadcast_relay), flag_entries(f)),
{
    assert(lookup(flag_entries(f), "lazy_p2p"@) == Some(TomlModel::Boolean(f.lazy_p2p))) by {
        lemma_document_key_texts();
        reveal_with_fuel(crate::config::lookup_from, 8);
        lemma_flag_entries_lookup(f, "lazy_p2p"@);
    }
    assert(lookup(flag_entries(f), "need_p2p"@) == Some(TomlModel::Boolean(f.need_p2p))) by {
        lemma_document_key_texts();
        reveal_with_fuel(crate::config::lookup_from, 8);
        lemma_flag_entries_lookup(f, "need_p2p"@);
    }
    assert(lookup(flag_entries(f), "instance_recv_bps_limit"@) == (if f.instance_recv_bps_limit != u64::MAX { Some(TomlModel::Integer(f.instance_recv_bps_limit as i64)) } else { None })) by {
        lemma_document_key_texts();
        reveal_with_fuel(crate::config::lookup_from, 8);
        lemma_flag_entries_lookup(f, "instance_recv_bps_limit"@);
    }
    assert(lookup(flag_entries(f), "disable_upnp"@) == Some(TomlModel::Boolean(f.disable_upnp))) by {
        lemma_document_key_texts();
        reveal_with_fuel(crate::config::lookup_from, 8);
        lemma_flag_entries_lookup(f, "disable_upnp"@);
    }
    assert(lookup(flag_entries(f), "disable_relay_data"@) == Some(TomlModel::Boolean(f.disable_relay_data))) by {
        lemma_document_key_texts();
        reveal_with_fuel(crate::config::lookup_from, 8);
        lemma_flag_entries_lookup(f, "disable_relay_data"@);
    }
    assert(lookup(flag_entries(f), "enable_udp_broadcast_relay"@) == Some(TomlModel::Boolean(f.enable_udp_broadcast_relay))) by {
        lemma_document_key_texts();
        reveal_with_fuel(crate::config::lookup_from, 8);
        lemma_flag_entries_lookup(f, "enable_udp_broadcast_relay"@);
    }
    reveal(flag_group_fault_6);
    reveal(flag_group_values_6);
}

/// Every key of the `[flags]` entries of `f` is a key of the bundled core.
proof fn lemma_flag_keys_allowed(f: EasyTierFlags)
    ensures
        keys_fault(flag_entries(f), "flags"@, flag_keys()) is None,
{
    let ks = flag_keys();
    assert(crate::config::disallowed_from(flag_group_entries_1(f), ks, 0) is None) by {
        assert(ks[0] == "default_protocol"@);
        assert(ks[1] == "dev_name"@);
        assert(ks[2] == "enable_encryption"@);
        assert(ks[3] == "enable_ipv6"@);
        assert(ks[4] == "mtu"@);
        assert(ks[5] == "latency_first"@);
        assert(ks[6] == "enable_exit_node"@);
        reveal_with_fuel(crate::config::disallowed_from, 9);
    }
    assert(crate::config::disallowed_from(flag_group_entries_2(f), ks, 0) is None) by {
        assert(ks[7] == "no_tun"@);
        assert(ks[8] == "use_smoltcp"@);
        assert(ks[9] == "relay_network_whitelist"@);
        assert(ks[10] == "disable_p2p"@);
        assert(ks[11] == "relay_all_peer_rpc"@);
        assert(ks[12] == "disable_udp_hole_punching"@);
        assert(ks[13] == "multi_thread"@);
        reveal_with_fuel(crate::config::disallowed_from, 9);
    }
    assert(crate::config::disallowed_from(flag_group_entries_3(f), ks, 0) is None) by {
        assert(ks[14] == "data_compress_algo"@);
        assert(ks[15] == "bind_device"@);
        assert(ks[16] == "enable_kcp_proxy"@);
        assert(ks[17] == "disable_kcp_input"@);
        assert(ks[18] == "disable_relay_kcp"@);
        assert(ks[19] == "proxy_forward_by_system"@);
        assert(ks[20] == "accept_dns"@);
        reveal_with_fuel(crate::config::disallowed_from, 9);
    }
    assert(crate::config::disallowed_from(flag_group_entries_4(f), ks, 0) is None) by {
        assert(ks[21] == "private_mode"@);
        assert(ks[22] == "enable_quic_proxy"@);
        assert(ks[23] == "disable_quic_input"@);
        assert(ks[24] == "disable_relay_quic"@);
        assert(ks[25] == "quic_listen_port"@);
        assert(ks[26] == "foreign_relay_bps_limit"@);
        assert(ks[27] == "multi_thread_count"@);
        reveal_with_fuel(crate::config::disallowed_from, 9);
    }
    assert(crate::config::disallowed_from(flag_group_entries_5(f), ks, 0) is None) by {
        assert(ks[28] == "enable_relay_foreign_network_kcp"@);
        assert(ks[29] == "enable_relay_foreign_network_quic"@);
        assert(ks[30] == "encryption_algorithm"@);
        assert(ks[31] == "disable_sym_hole_punching"@);
        assert(ks[32] == "tld_dns_zone"@);
        assert(ks[33] == "p2p_only"@);
        assert(ks[34] == "disable_tcp_hole_punching"@);
        reveal_with_fuel(crate::config::disallowed_from, 9);
    }
    assert(crate::config::disallowed_from(flag_group_entries_6(f), ks, 0) is None) by {
        assert(ks[35] == "lazy_p2p"@);
        assert(ks[36] == "need_p2p"@);
        assert(ks[37] == "instance_recv_bps_limit"@);
        assert(ks[38] == "disable_upnp"@);
        assert(ks[39] == "disable_relay_data"@);
        assert(ks[40] == "enable_udp_broadcast_relay"@);
        reveal_with_fuel(crate::config::disallowed_from, 9);
    }
    let g1 = flag_group_entries_1(f);
    let g2 = flag_group_entries_2(f);
    let g3 = flag_group_entries_3(f);
    let g4 = flag_group_entries_4(f);
    let g5 = flag_group_entries_5(f);
    let g6 = flag_group_entries_6(f);
    crate::config::lemma_disallowed_concat(g1, g2, ks);
    crate::config::lemma_disallowed_concat(g1 + g2, g3, ks);
    crate::config::lemma_disallowed_concat(g1 + g2 + g3, g4, ks);
    crate::config::lemma_disallowed_concat(g1 + g2 + g3 + g4, g5, ks);
    crate::config::lemma_disallowed_concat(g1 + g2 + g3 + g4 + g5, g6, ks);
}

/// The `[flags]` entries of valid flags read back as the flags.
proof fn lemma_flags_read_back(f: EasyTierFlags)
    requires
        f.foreign_relay_bps_limit == u64::MAX || f.foreign_relay_bps_limit <= i64::MAX,
        f.instance_recv_bps_limit == u64::MAX || f.instance_recv_bps_limit <= i64::MAX,
    ensures
        flags_import_fault(flag_entries(f)) is None,
        flags_match(f, flag_entries(f)),
{
    lemma_flag_keys_allowed(f);
    lemma_flag_group_1_reads_back(f);
    lemma_flag_group_2_reads_back(f);
    lemma_flag_group_3_reads_back(f);
    lemma_flag_group_4_reads_back(f);
    lemma_flag_group_5_reads_back(f);
    lemma_flag_group_6_reads_back(f);
}

/// The `[[peer]]` tables of `uris` read back as `uris`.
proof fn lemma_peer_tables_read_back(uris: Seq<Seq<char>>, i: int)
    requires
        0 <= i <= uris.len(),
    ensures
        peer_uris_from(peer_tables(uris), i) == Ok::<Seq<Seq<char>>, ProfileFault>(uris.skip(i)),
    decreases uris.len() - i,
{
    if i < uris.len() {
        lemma_peer_tables_read_back(uris, i + 1);
        let t = seq![("uri"@, TomlModel::String(uris[i]))];
        assert(peer_tables(uris)[i] == TomlModel::Table(t));
        assert(seq!["uri"@][0] == "uri"@);
        assert(crate::config::disallowed_from(t, seq!["uri"@], 0) is None) by {
            reveal_with_fuel(crate::config::disallowed_from, 2);
        }
        assert(req_string(t, "uri"@) == Ok::<Seq<char>, ProfileFault>(uris[i])) by {
            reveal_with_fuel(crate::config::lookup_from, 2);
        }
        assert(uris.skip(i) =~= seq![uris[i]] + uris.skip(i + 1));
    } else {
        assert(uris.skip(i) =~= Seq::<Seq<char>>::empty());
    }
}

/// What importing the core configuration document of `p` makes of it: the
/// id and name become the instance name, and automatic connection is off.
pub open spec fn imported_form(p: ProfileModel) -> ProfileModel {
    ProfileModel { id: p.instance_name, name: p.instance_name, auto_connect: false, ..p }
}

/// Exporting and importing a valid profile gives it back: its core
/// configuration document has no import fault, and the import makes of it
/// the profile with its instance name as id and name and automatic
/// connection off, on any computer.  So does any text that parses to that
/// document.
pub proof fn law_core_document_imports_back(p: ProfileModel, computer_name: Seq<char>, input: Seq<char>)
    requires
        profile_fault(p) is None,
    ensures
        document_fault(core_document_of(p)) is None,
        document_matches(imported_form(p), core_document_of(p), computer_name),
        crate::config::toml_document(input) == Ok::<TomlModel, Seq<char>>(core_document_of(p)) ==> import_fault(input)
            is None && import_matches(imported_form(p), input, computer_name),
{
    let f = p.flags;
    assert(flags_fault(f) is None);
    assert(!is_blank(p.hostname));
    assert(p.address_mode is Static);
    lemma_flags_read_back(f);
    lemma_peer_tables_read_back(p.peers, 0);
    assert(p.peers.skip(0) =~= p.peers);
    let root = seq![
        ("instance_name"@, TomlModel::String(p.instance_name)),
        ("hostname"@, TomlModel::String(p.hostname)),
        ("ipv4"@, TomlModel::String(cidr_of(p.address_mode))),
        ("peer"@, TomlModel::Array(peer_tables(p.peers))),
        (
            "network_identity"@,
            TomlModel::Table(
                seq![
                    ("network_name"@, TomlModel::String(p.network_name)),
                    ("network_secret"@, TomlModel::String(p.network_secret)),
                ],
            ),
        ),
        ("flags"@, TomlModel::Table(flag_entries(f))),
    ];
    let identity = seq![
        ("network_name"@, TomlModel::String(p.network_name)),
        ("network_secret"@, TomlModel::String(p.network_secret)),
    ];
    assert(core_document_of(p) == TomlModel::Table(root));
    lemma_document_key_texts();
    assert(crate::config::disallowed_from(root, root_keys(), 0) is None) by {
        assert(root_keys()[0] == "instance_name"@);
        assert(root_keys()[1] == "hostname"@);
        assert(root_keys()[2] == "ipv4"@);
        assert(root_keys()[3] == "peer"@);
        assert(root_keys()[4] == "network_identity"@);
        assert(root_keys()[5] == "flags"@);
        reveal_with_fuel(crate::config::disallowed_from, 7);
    }
    assert(crate::config::disallowed_from(identity, identity_keys(), 0) is None) by {
        assert(identity_keys()[0] == "network_name"@);
        assert(identity_keys()[1] == "network_secret"@);
        reveal_with_fuel(crate::config::disallowed_from, 3);
    }
    assert(req_string(root, "instance_name"@) == Ok::<Seq<char>, ProfileFault>(p.instance_name)) by {
        reveal_with_fuel(crate::config::lookup_from, 7);
    }
    assert(req_string(root, "hostname"@) == Ok::<Seq<char>, ProfileFault>(p.hostname)) by {
        reveal_with_fuel(crate::config::lookup_from, 7);
    }
    assert(req_string(root, "ipv4"@) == Ok::<Seq<char>, ProfileFault>(cidr_of(p.address_mode))) by {
        reveal_with_fuel(crate::config::lookup_from, 7);
    }
    assert(lookup(root, "peer"@) == Some(TomlModel::Array(peer_tables(p.peers)))) by {
        reveal_with_fuel(crate::config::lookup_from, 7);
    }
    assert(req_table(root, "network_identity"@) == Ok::<Seq<(Seq<char>, TomlModel)>, ProfileFault>(identity)) by {
        reveal_with_fuel(crate::config::lookup_from, 7);
    }
    assert(lookup(root, "flags"@) == Some(TomlModel::Table(flag_entries(f)))) by {
        reveal_with_fuel(crate::config::lookup_from, 7);
    }
    assert(req_string(identity, "network_name"@) == Ok::<Seq<char>, ProfileFault>(p.network_name)) by {
        reveal_with_fuel(crate::config::lookup_from, 3);
    }
    assert(req_string(identity, "network_secret"@) == Ok::<Seq<char>, ProfileFault>(p.network_secret)) by {
        reveal_with_fuel(crate::config::lookup_from, 3);
    }
    assert(peers_of(root) == Ok::<Seq<Seq<char>>, ProfileFault>(p.peers));
    assert(flags_entries_of(root) == Ok::<Seq<(Seq<char>, TomlModel)>, ProfileFault>(flag_entries(f)));
    assert(identity_import_fault(root) is None);
    assert(document_fault(core_document_of(p)) is None);
    assert(document_matches(imported_form(p), core_document_of(p), computer_name));
}

} // verus!
