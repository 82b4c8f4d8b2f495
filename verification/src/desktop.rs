//! The desktop client's side of the service protocol: the flag form as the
//! user interface edits it, the profile form, and the Chinese messages that
//! replace service errors before they reach the web view.

use vstd::prelude::*;

use crate::profile::{AddressMode, EasyTierFlags, NetworkProfile, SecretString};
use crate::ipc::IpcError;
use crate::protocol::{
    ConnectedPeer, ConnectionIntent, ProfileUpsert, ProfileView, RpcResponse, RpcResult,
    ServiceConnectionState, ServiceStatus,
};
use crate::service::CORE_CONFIG_VALIDATION_ERROR_PREFIX;
use crate::text::{
    all_ascii_digits, append_str, ascii_lower, chars_all_digits, chars_contain, chars_eq,
    chars_find, chars_lower, chars_slice, chars_start_with, chars_trim, chars_vec, concat2,
    concat3, contains_text, decimal_string, decimal_text, digits_value, find_text_from, owned,
    parse_u64, parse_u64_text, signed_decimal_string, signed_decimal_text, starts_with_text,
    str_eq, string_from_chars, trim, trim_start, is_ascii_alphanumeric, is_alphanumeric,
    is_blank, str_blank,
};

verus! {

broadcast use vstd::string::group_string_axioms;

/// `parse_bps_limit`'s answer for `value`: a blank value is the core's
/// unlimited sentinel; otherwise decimal digits whose value is either the
/// sentinel or at most `i64::MAX`.  Errors name the field by `label`.
pub open spec fn bps_limit(value: Seq<char>, label: Seq<char>) -> Result<u64, Seq<char>> {
    let t = trim(value);
    if t.len() == 0 {
        Ok(u64::MAX)
    } else if !all_ascii_digits(t) {
        Err(label + "必须是十进制非负整数，留空表示不限制。"@)
    } else {
        match parse_u64_text(t) {
            None => Err(label + "超出了 64 位无符号整数范围。"@),
            Some(v) => if v != u64::MAX && v > i64::MAX {
                Err(label + "不能超过 9223372036854775807，留空表示不限制。"@)
            } else {
                Ok(v)
            },
        }
    }
}

/// Reads a rate limit typed into the form.  JavaScript cannot hold every
/// `u64` exactly, so the form sends the limits as decimal text.
pub fn parse_bps_limit(value: &str, label: &str) -> (r: Result<u64, String>)
    ensures
        match r {
            Ok(v) => bps_limit(value@, label@) == Ok::<u64, Seq<char>>(v),
            Err(e) => bps_limit(value@, label@) == Err::<u64, Seq<char>>(e@),
        },
{
    let chars = chars_vec(value);
    let t = chars_trim(chars.as_slice());
    if t.len() == 0 {
        return Ok(u64::MAX);
    }
    if !chars_all_digits(t.as_slice()) {
        return Err(concat2(label, "必须是十进制非负整数，留空表示不限制。"));
    }
    match parse_u64(t.as_slice()) {
        None => Err(concat2(label, "超出了 64 位无符号整数范围。")),
        Some(v) => {
            if v != u64::MAX && v > 9223372036854775807u64 {
                Err(concat2(label, "不能超过 9223372036854775807，留空表示不限制。"))
            } else {
                Ok(v)
            }
        },
    }
}

/// The form's label of a stored compression code: `2` is Zstandard, any
/// other code shows as no compression.
pub open spec fn compression_label(code: i32) -> Seq<char> {
    if code == 2 {
        "zstd"@
    } else {
        "none"@
    }
}

/// The compression code of a form label.
pub open spec fn compression_code(label: Seq<char>) -> Option<i32> {
    if trim(label) == "none"@ {
        Some(1i32)
    } else if trim(label) == "zstd"@ {
        Some(2i32)
    } else {
        None
    }
}

pub open spec fn compression_error() -> Seq<char> {
    "数据压缩仅支持“不压缩”或 Zstandard。"@
}

pub open spec fn foreign_relay_label() -> Seq<char> {
    "外部网络中继速率上限"@
}

pub open spec fn instance_recv_label() -> Seq<char> {
    "实例接收速率上限"@
}

/// Every core flag, as the desktop form edits it.  The compression code is a
/// label and the two rate limits are decimal text; the rest are the core's
/// own values.
#[derive(Clone, Debug, PartialEq, Eq)]
pub struct UiEasyTierFlags {
    pub default_protocol: String,
    pub dev_name: String,
    pub enable_encryption: bool,
    pub enable_ipv6: bool,
    pub mtu: u32,
    pub latency_first: bool,
    pub enable_exit_node: bool,
    pub no_tun: bool,
    pub use_smoltcp: bool,
    pub relay_network_whitelist: String,
    pub disable_p2p: bool,
    pub relay_all_peer_rpc: bool,
    pub disable_udp_hole_punching: bool,
    pub multi_thread: bool,
    pub data_compress_algo: String,
    pub bind_device: bool,
    pub enable_kcp_proxy: bool,
    pub disable_kcp_input: bool,
    pub disable_relay_kcp: bool,
    pub proxy_forward_by_system: bool,
    pub accept_dns: bool,
    pub private_mode: bool,
    pub enable_quic_proxy: bool,
    pub disable_quic_input: bool,
    pub disable_relay_quic: bool,
    pub quic_listen_port: u32,
    pub foreign_relay_bps_limit: String,
    pub multi_thread_count: u32,
    pub enable_relay_foreign_network_kcp: bool,
    pub enable_relay_foreign_network_quic: bool,
    pub encryption_algorithm: String,
    pub disable_sym_hole_punching: bool,
    pub tld_dns_zone: String,
    pub p2p_only: bool,
    pub disable_tcp_hole_punching: bool,
    pub lazy_p2p: bool,
    pub need_p2p: bool,
    pub instance_recv_bps_limit: String,
    pub disable_upnp: bool,
    pub disable_relay_data: bool,
    pub enable_udp_broadcast_relay: bool,
}

/// The flags that the form carries unchanged.
pub open spec fn same_plain_flags(ui: UiEasyTierFlags, f: EasyTierFlags) -> bool {
    &&& ui.default_protocol == f.default_protocol
    &&& ui.dev_name == f.dev_name
    &&& ui.enable_encryption == f.enable_encryption
    &&& ui.enable_ipv6 == f.enable_ipv6
    &&& ui.mtu == f.mtu
    &&& ui.latency_first == f.latency_first
    &&& ui.enable_exit_node == f.enable_exit_node
    &&& ui.no_tun == f.no_tun
    &&& ui.use_smoltcp == f.use_smoltcp
    &&& ui.relay_network_whitelist == f.relay_network_whitelist
    &&& ui.disable_p2p == f.disable_p2p
    &&& ui.relay_all_peer_rpc == f.relay_all_peer_rpc
    &&& ui.disable_udp_hole_punching == f.disable_udp_hole_punching
    &&& ui.multi_thread == f.multi_thread
    &&& ui.bind_device == f.bind_device
    &&& ui.enable_kcp_proxy == f.enable_kcp_proxy
    &&& ui.disable_kcp_input == f.disable_kcp_input
    &&& ui.disable_relay_kcp == f.disable_relay_kcp
    &&& ui.proxy_forward_by_system == f.proxy_forward_by_system
    &&& ui.accept_dns == f.accept_dns
    &&& ui.private_mode == f.private_mode
    &&& ui.enable_quic_proxy == f.enable_quic_proxy
    &&& ui.disable_quic_input == f.disable_quic_input
    &&& ui.disable_relay_quic == f.disable_relay_quic
    &&& ui.quic_listen_port == f.quic_listen_port
    &&& ui.multi_thread_count == f.multi_thread_count
    &&& ui.enable_relay_foreign_network_kcp == f.enable_relay_foreign_network_kcp
    &&& ui.enable_relay_foreign_network_quic == f.enable_relay_foreign_network_quic
    &&& ui.encryption_algorithm == f.encryption_algorithm
    &&& ui.disable_sym_hole_punching == f.disable_sym_hole_punching
    &&& ui.tld_dns_zone == f.tld_dns_zone
    &&& ui.p2p_only == f.p2p_only
    &&& ui.disable_tcp_hole_punching == f.disable_tcp_hole_punching
    &&& ui.lazy_p2p == f.lazy_p2p
    &&& ui.need_p2p == f.need_p2p
    &&& ui.disable_upnp == f.disable_upnp
    &&& ui.disable_relay_data == f.disable_relay_data
    &&& ui.enable_udp_broadcast_relay == f.enable_udp_broadcast_relay
}

/// The form of `f`.
pub open spec fn is_form_of(ui: UiEasyTierFlags, f: EasyTierFlags) -> bool {
    &&& same_plain_flags(ui, f)
    &&& ui.data_compress_algo@ == compression_label(f.data_compress_algo)
    &&& ui.foreign_relay_bps_limit@ == decimal_text(f.foreign_relay_bps_limit as nat)
    &&& ui.instance_recv_bps_limit@ == decimal_text(f.instance_recv_bps_limit as nat)
}

/// The compression code and the two rate limits that a form holds, or the
/// first error among them, in the order the form is read.
pub open spec fn form_values(ui: UiEasyTierFlags) -> Result<(i32, u64, u64), Seq<char>> {
    match compression_code(ui.data_compress_algo@) {
        None => Err(compression_error()),
        Some(c) => match bps_limit(ui.foreign_relay_bps_limit@, foreign_relay_label()) {
            Err(e) => Err(e),
            Ok(foreign) => match bps_limit(ui.instance_recv_bps_limit@, instance_recv_label()) {
                Err(e) => Err(e),
                Ok(instance) => Ok((c, foreign, instance)),
            },
        },
    }
}

impl UiEasyTierFlags {
    /// The form of stored flags.
    pub fn from_flags(flags: EasyTierFlags) -> (r: Self)
        ensures
            is_form_of(r, flags),
    {
        let data_compress_algo = if flags.data_compress_algo == 2 {
            owned("zstd")
        } else {
            owned("none")
        };
        let foreign_relay_bps_limit = decimal_string(flags.foreign_relay_bps_limit);
        let instance_recv_bps_limit = decimal_string(flags.instance_recv_bps_limit);
        UiEasyTierFlags {
            default_protocol: flags.default_protocol,
            dev_name: flags.dev_name,
            enable_encryption: flags.enable_encryption,
            enable_ipv6: flags.enable_ipv6,
            mtu: flags.mtu,
            latency_first: flags.latency_first,
            enable_exit_node: flags.enable_exit_node,
            no_tun: flags.no_tun,
            use_smoltcp: flags.use_smoltcp,
            relay_network_whitelist: flags.relay_network_whitelist,
            disable_p2p: flags.disable_p2p,
            relay_all_peer_rpc: flags.relay_all_peer_rpc,
            disable_udp_hole_punching: flags.disable_udp_hole_punching,
            multi_thread: flags.multi_thread,
            data_compress_algo,
            bind_device: flags.bind_device,
            enable_kcp_proxy: flags.enable_kcp_proxy,
            disable_kcp_input: flags.disable_kcp_input,
            disable_relay_kcp: flags.disable_relay_kcp,
            proxy_forward_by_system: flags.proxy_forward_by_system,
            accept_dns: flags.accept_dns,
            private_mode: flags.private_mode,
            enable_quic_proxy: flags.enable_quic_proxy,
            disable_quic_input: flags.disable_quic_input,
            disable_relay_quic: flags.disable_relay_quic,
            quic_listen_port: flags.quic_listen_port,
            foreign_relay_bps_limit,
            multi_thread_count: flags.multi_thread_count,
            enable_relay_foreign_network_kcp: flags.enable_relay_foreign_network_kcp,
            enable_relay_foreign_network_quic: flags.enable_relay_foreign_network_quic,
            encryption_algorithm: flags.encryption_algorithm,
            disable_sym_hole_punching: flags.disable_sym_hole_punching,
            tld_dns_zone: flags.tld_dns_zone,
            p2p_only: flags.p2p_only,
            disable_tcp_hole_punching: flags.disable_tcp_hole_punching,
            lazy_p2p: flags.lazy_p2p,
            need_p2p: flags.need_p2p,
            instance_recv_bps_limit,
            disable_upnp: flags.disable_upnp,
            disable_relay_data: flags.disable_relay_data,
            enable_udp_broadcast_relay: flags.enable_udp_broadcast_relay,
        }
    }

    /// The flags a submitted form asks for.
    pub fn into_flags(self) -> (r: Result<EasyTierFlags, String>)
        ensures
            match r {
                Ok(f) => {
                    &&& same_plain_flags(self, f)
                    &&& form_values(self) == Ok::<(i32, u64, u64), Seq<char>>((
                        f.data_compress_algo,
                        f.foreign_relay_bps_limit,
                        f.instance_recv_bps_limit,
                    ))
                },
                Err(e) => form_values(self) == Err::<(i32, u64, u64), Seq<char>>(e@),
            },
    {
        let label = chars_vec(self.data_compress_algo.as_str());
        let label = chars_trim(label.as_slice());
        let none = chars_vec("none");
        let zstd = chars_vec("zstd");
        let data_compress_algo: i32 = if crate::text::chars_eq(label.as_slice(), none.as_slice()) {
            1
        } else if crate::text::chars_eq(label.as_slice(), zstd.as_slice()) {
            2
        } else {
            return Err(owned("数据压缩仅支持“不压缩”或 Zstandard。"));
        };
        let foreign_relay_bps_limit = parse_bps_limit(
            self.foreign_relay_bps_limit.as_str(),
            "外部网络中继速率上限",
        )?;
        let instance_recv_bps_limit = parse_bps_limit(
            self.instance_recv_bps_limit.as_str(),
            "实例接收速率上限",
        )?;
        Ok(EasyTierFlags {
            default_protocol: self.default_protocol,
            dev_name: self.dev_name,
            enable_encryption: self.enable_encryption,
            enable_ipv6: self.enable_ipv6,
            mtu: self.mtu,
            latency_first: self.latency_first,
            enable_exit_node: self.enable_exit_node,
            no_tun: self.no_tun,
            use_smoltcp: self.use_smoltcp,
            relay_network_whitelist: self.relay_network_whitelist,
            disable_p2p: self.disable_p2p,
            relay_all_peer_rpc: self.relay_all_peer_rpc,
            disable_udp_hole_punching: self.disable_udp_hole_punching,
            multi_thread: self.multi_thread,
            data_compress_algo,
            bind_device: self.bind_device,
            enable_kcp_proxy: self.enable_kcp_proxy,
            disable_kcp_input: self.disable_kcp_input,
            disable_relay_kcp: self.disable_relay_kcp,
            proxy_forward_by_system: self.proxy_forward_by_system,
            accept_dns: self.accept_dns,
            private_mode: self.private_mode,
            enable_quic_proxy: self.enable_quic_proxy,
            disable_quic_input: self.disable_quic_input,
            disable_relay_quic: self.disable_relay_quic,
            quic_listen_port: self.quic_listen_port,
            foreign_relay_bps_limit,
            multi_thread_count: self.multi_thread_count,
            enable_relay_foreign_network_kcp: self.enable_relay_foreign_network_kcp,
            enable_relay_foreign_network_quic: self.enable_relay_foreign_network_quic,
            encryption_algorithm: self.encryption_algorithm,
            disable_sym_hole_punching: self.disable_sym_hole_punching,
            tld_dns_zone: self.tld_dns_zone,
            p2p_only: self.p2p_only,
            disable_tcp_hole_punching: self.disable_tcp_hole_punching,
            lazy_p2p: self.lazy_p2p,
            need_p2p: self.need_p2p,
            instance_recv_bps_limit,
            disable_upnp: self.disable_upnp,
            disable_relay_data: self.disable_relay_data,
            enable_udp_broadcast_relay: self.enable_udp_broadcast_relay,
        })
    }
}

/// The desktop form loses nothing: the form of stored flags whose compression
/// code is one the form offers and whose rate limits are unlimited or fit an
/// `i64` reads back as exactly those flags.
pub proof fn law_flag_form_round_trip(ui: UiEasyTierFlags, f: EasyTierFlags)
    requires
        is_form_of(ui, f),
        f.data_compress_algo == 1 || f.data_compress_algo == 2,
        f.foreign_relay_bps_limit == u64::MAX || f.foreign_relay_bps_limit <= i64::MAX,
        f.instance_recv_bps_limit == u64::MAX || f.instance_recv_bps_limit <= i64::MAX,
    ensures
        form_values(ui) == Ok::<(i32, u64, u64), Seq<char>>((
            f.data_compress_algo,
            f.foreign_relay_bps_limit,
            f.instance_recv_bps_limit,
        )),
{
    reveal_strlit("none");
    reveal_strlit("zstd");
    lemma_trim_digits_free("none"@);
    lemma_trim_digits_free("zstd"@);
    crate::text::lemma_parse_decimal_text(f.foreign_relay_bps_limit);
    crate::text::lemma_parse_decimal_text(f.instance_recv_bps_limit);
    crate::text::lemma_decimal_text_digits(f.foreign_relay_bps_limit as nat);
    crate::text::lemma_decimal_text_digits(f.instance_recv_bps_limit as nat);
}

/// A word of lower-case letters has no white space to trim.
proof fn lemma_trim_digits_free(s: Seq<char>)
    requires
        s.len() > 0,
        forall|i: int| 0 <= i < s.len() ==> 'a' <= #[trigger] s[i] && s[i] <= 'z',
    ensures
        trim(s) == s,
{
    assert('a' <= s[0] && s[0] <= 'z');
    assert('a' <= s.last() && s.last() <= 'z');
    assert(trim_start(s) == s);
}

impl Default for UiEasyTierFlags {
    fn default() -> (r: Self)
        ensures
            exists|f: EasyTierFlags| crate::profile::is_default_flags(f) && is_form_of(r, f),
    {
        let f = EasyTierFlags::default();
        let ghost g = f;
        let r = UiEasyTierFlags::from_flags(f);
        assert(crate::profile::is_default_flags(g) && is_form_of(r, g));
        r
    }
}


// ---------------------------------------------------------------------------
// Messages for the web view
// ---------------------------------------------------------------------------

/// The explanation of a configuration-check category token.
pub open spec fn reason_description(reason: Seq<char>) -> Seq<char> {
    if reason == "network_identity"@ {
        "网络名称或网络密钥的格式不正确"@
    } else if reason == "virtual_address"@ {
        "固定虚拟 IPv4/CIDR 设置不正确"@
    } else if reason == "bootstrap_peer"@ {
        "Bootstrap Peer 地址或端口不正确"@
    } else if reason == "core_option"@ {
        "Core 选项的取值或组合不正确"@
    } else if reason == "toml_format"@ {
        "配置字段的类型或格式不正确"@
    } else if reason == "file_access"@ {
        "Core 无法读取临时校验配置"@
    } else {
        "配置未被 Core 接受，请检查网络名称、网络密钥、虚拟 IP、Bootstrap Peer 和 Core 选项"@
    }
}

pub fn core_config_reason_description(reason: &str) -> (r: &'static str)
    ensures
        r@ == reason_description(reason@),
{
    if str_eq(reason, "network_identity") {
        "网络名称或网络密钥的格式不正确"
    } else if str_eq(reason, "virtual_address") {
        "固定虚拟 IPv4/CIDR 设置不正确"
    } else if str_eq(reason, "bootstrap_peer") {
        "Bootstrap Peer 地址或端口不正确"
    } else if str_eq(reason, "core_option") {
        "Core 选项的取值或组合不正确"
    } else if str_eq(reason, "toml_format") {
        "配置字段的类型或格式不正确"
    } else if str_eq(reason, "file_access") {
        "Core 无法读取临时校验配置"
    } else {
        "配置未被 Core 接受，请检查网络名称、网络密钥、虚拟 IP、Bootstrap Peer 和 Core 选项"
    }
}

/// `i32::from_str`: an optional sign, then at least one decimal digit, and a
/// value that fits.
pub open spec fn parse_i32_text(s: Seq<char>) -> Option<i32> {
    if s.len() > 0 && s[0] == '-' {
        let b = s.drop_first();
        if b.len() > 0 && all_ascii_digits(b) && digits_value(b) <= 2147483648 {
            Some((0 - digits_value(b)) as i32)
        } else {
            None
        }
    } else {
        let b = if s.len() > 0 && s[0] == '+' {
            s.drop_first()
        } else {
            s
        };
        if b.len() > 0 && all_ascii_digits(b) && digits_value(b) <= 2147483647 {
            Some(digits_value(b) as i32)
        } else {
            None
        }
    }
}

fn parse_i32(s: &[char]) -> (r: Option<i32>)
    ensures
        r == parse_i32_text(s@),
{
    let negative = s.len() > 0 && s[0] == '-';
    let start: usize = if s.len() > 0 && (s[0] == '-' || s[0] == '+') {
        1
    } else {
        0
    };
    let body = chars_slice(s, start, s.len());
    assert(start == 1 ==> body@ =~= s@.drop_first());
    assert(start == 0 ==> body@ =~= s@);
    if body.len() == 0 || !chars_all_digits(body.as_slice()) {
        return None;
    }
    assert(body@[0] != '+');
    match parse_u64(body.as_slice()) {
        None => None,
        Some(v) => {
            if negative {
                if v <= 2147483648 {
                    let w: i64 = 0 - (v as i64);
                    Some(w as i32)
                } else {
                    None
                }
            } else if v <= 2147483647 {
                Some(v as i32)
            } else {
                None
            }
        },
    }
}

/// The message for a failed configuration check with this outcome and reason.
pub open spec fn core_check_message(outcome: Seq<char>, reason: Seq<char>) -> Seq<char> {
    "EasyTier Core 配置校验未通过（"@ + outcome + "）："@ + reason
        + "。档案未保存，之前可用的档案和连接已保留。"@
}

/// The Chinese message for a service error that carries the fixed marker of
/// a failed configuration check, if it does.  Only the fixed vocabulary after
/// the marker is read; anything else in the text is never shown.
pub open spec fn core_config_message(error: Seq<char>) -> Option<Seq<char>> {
    let prefix = "easytier-core configuration validation failed: "@;
    if !starts_with_text(error, prefix) {
        None
    } else {
        let d = error.skip(prefix.len() as int);
        if d == "validation timed out"@ {
            Some(core_check_message("配置校验超时"@, "Core 未能在 10 秒内完成校验，请稍后重试"@))
        } else if starts_with_text(d, "exit code "@) {
            let rest = d.skip("exit code "@.len() as int);
            match find_text_from(rest, "; reason="@, 0) {
                None => None,
                Some(i) => match parse_i32_text(rest.take(i)) {
                    None => None,
                    Some(code) => Some(core_check_message(
                        "退出码 "@ + signed_decimal_text(code as int),
                        reason_description(rest.skip(i + "; reason="@.len())),
                    )),
                },
            }
        } else if starts_with_text(d, "terminated by the operating system; reason="@) {
            Some(core_check_message(
                "校验进程异常结束"@,
                reason_description(d.skip("terminated by the operating system; reason="@.len() as int)),
            ))
        } else {
            Some("EasyTier Core 未能完成配置校验，档案未保存；之前可用的档案和连接已保留。"@)
        }
    }
}

fn core_check_text(outcome: &str, reason: &str) -> (r: String)
    ensures
        r@ == core_check_message(outcome@, reason@),
{
    let mut r = concat3("EasyTier Core 配置校验未通过（", outcome, "）：");
    append_str(&mut r, reason);
    append_str(&mut r, "。档案未保存，之前可用的档案和连接已保留。");
    r
}

pub fn localize_core_config_validation_failure(error: &str) -> (r: Option<String>)
    ensures
        match r {
            Some(m) => core_config_message(error@) == Some(m@),
            None => core_config_message(error@) is None,
        },
{
    let e = chars_vec(error);
    let prefix = chars_vec(CORE_CONFIG_VALIDATION_ERROR_PREFIX);
    proof {
        reveal_strlit("easytier-core configuration validation failed: ");
    }
    if !chars_start_with(e.as_slice(), prefix.as_slice()) {
        return None;
    }
    let d = chars_slice(e.as_slice(), prefix.len(), e.len());
    let timed_out = chars_vec("validation timed out");
    if chars_eq(d.as_slice(), timed_out.as_slice()) {
        return Some(core_check_text("配置校验超时", "Core 未能在 10 秒内完成校验，请稍后重试"));
    }
    let exit = chars_vec("exit code ");
    let terminated = chars_vec("terminated by the operating system; reason=");
    if chars_start_with(d.as_slice(), exit.as_slice()) {
        let rest = chars_slice(d.as_slice(), exit.len(), d.len());
        let marker = chars_vec("; reason=");
        match chars_find(rest.as_slice(), marker.as_slice(), 0) {
            None => None,
            Some(i) => {
                let code_text = chars_slice(rest.as_slice(), 0, i);
                match parse_i32(code_text.as_slice()) {
                    None => None,
                    Some(code) => {
                        let reason = string_from_chars(
                            chars_slice(rest.as_slice(), i + marker.len(), rest.len()).as_slice(),
                        );
                        let outcome = concat2("退出码 ", signed_decimal_string(code as i64).as_str());
                        proof {
                            assert(code_text@ =~= rest@.take(i as int));
                        }
                        Some(core_check_text(
                            outcome.as_str(),
                            core_config_reason_description(reason.as_str()),
                        ))
                    },
                }
            },
        }
    } else if chars_start_with(d.as_slice(), terminated.as_slice()) {
        let reason = string_from_chars(
            chars_slice(d.as_slice(), terminated.len(), d.len()).as_slice(),
        );
        Some(core_check_text("校验进程异常结束", core_config_reason_description(reason.as_str())))
    } else {
        Some(owned("EasyTier Core 未能完成配置校验，档案未保存；之前可用的档案和连接已保留。"))
    }
}

/// What went wrong with a profile text field named `field`.
pub open spec fn text_field_message(field: Seq<char>, normalized: Seq<char>) -> Seq<char> {
    if contains_text(normalized, "must not be empty"@) {
        field + " 不能为空。"@
    } else if contains_text(normalized, "must not exceed"@) {
        field + " 超过允许长度。"@
    } else if contains_text(normalized, "must not contain control characters"@) {
        field + " 不能包含控制字符。"@
    } else {
        field + " 无效，请检查填写内容后重试。"@
    }
}

/// Whether `needle` occurs in `hay`.
fn has(hay: &[char], needle: &str) -> (r: bool)
    ensures
        r == contains_text(hay@, needle@),
{
    let n = chars_vec(needle);
    chars_contain(hay, n.as_slice())
}

fn text_field_error(field: &str, normalized: &[char]) -> (r: String)
    ensures
        r@ == text_field_message(field@, normalized@),
{
    if has(normalized, "must not be empty") {
        concat2(field, " 不能为空。")
    } else if has(normalized, "must not exceed") {
        concat2(field, " 超过允许长度。")
    } else if has(normalized, "must not contain control characters") {
        concat2(field, " 不能包含控制字符。")
    } else {
        concat2(field, " 无效，请检查填写内容后重试。")
    }
}

pub fn localize_text_field_error(field: &str, normalized: &str) -> (r: String)
    ensures
        r@ == text_field_message(field@, normalized@),
{
    let n = chars_vec(normalized);
    text_field_error(field, n.as_slice())
}

/// The message for a profile that failed the service's checks; `normalized`
/// is the service's message in lower case.
pub open spec fn profile_validation_message(n: Seq<char>) -> Seq<char> {
    if contains_text(n, "static ipv4"@) {
        if contains_text(n, "must use address/prefix notation"@) {
            "固定虚拟 IPv4 必须使用“IP/前缀长度”格式，例如 100.76.1.2/24。"@
        } else if contains_text(n, "invalid ipv4 address"@) {
            "固定虚拟 IPv4 地址无效，请检查 IP 地址。"@
        } else if contains_text(n, "invalid prefix length"@) || contains_text(n, "prefix length must"@) {
            "固定虚拟 IPv4 的前缀长度无效，必须为 0 到 32。"@
        } else {
            "固定虚拟 IPv4/CIDR 设置无效，请检查填写内容后重试。"@
        }
    } else if contains_text(n, "address mode"@) {
        "当前版本仅支持固定虚拟 IPv4/CIDR，不支持 DHCP。"@
    } else if contains_text(n, "peer"@) {
        peer_validation_message(n)
    } else if contains_text(n, "network secret"@) {
        text_field_message("网络密钥"@, n)
    } else if contains_text(n, "network name"@) {
        text_field_message("网络名称"@, n)
    } else if contains_text(n, "hostname"@) {
        text_field_message("设备名称"@, n)
    } else if contains_text(n, "profile name"@) || contains_text(n, "invalid name"@) {
        text_field_message("档案名称"@, n)
    } else if contains_text(n, "flags.mtu"@) && contains_text(n, "greater than zero"@) {
        "MTU 必须大于 0。"@
    } else if contains_text(n, "flags."@) {
        "Core 选项无效，请检查取值或组合后重试。"@
    } else {
        "私有网络或 Core 选项无效，请检查填写内容后重试。"@
    }
}

/// The message for a rejected bootstrap peer list.
pub open spec fn peer_validation_message(n: Seq<char>) -> Seq<char> {
    if contains_text(n, "at least one private bootstrap peer"@) {
        "至少添加一个 Bootstrap Peer。"@
    } else if contains_text(n, "at most 8 peers"@) {
        "Bootstrap Peer 最多添加 8 个。"@
    } else if contains_text(n, "duplicate bootstrap peer"@) {
        "Bootstrap Peer 不能重复。"@
    } else if contains_text(n, "must include a host and port"@) {
        "Bootstrap Peer 必须包含主机和端口，例如 tcp://seed.example:11010。"@
    } else if contains_text(n, "only tcp, udp, wg, ws, and wss are supported"@) {
        "Bootstrap Peer 仅支持 tcp、udp、wg、ws 或 wss 协议。"@
    } else if contains_text(n, "only tcp, udp, ws, and wss are supported"@) {
        "当前后台服务版本仅支持 tcp、udp、ws 或 wss 协议；升级服务后可使用 wg。"@
    } else if contains_text(n, "must not contain credentials, query, or fragment"@) {
        "Bootstrap Peer 不可包含账户、密码、查询参数或片段。"@
    } else if contains_text(n, "must be a valid uri"@) {
        "Bootstrap Peer 地址格式无效。"@
    } else {
        "Bootstrap Peer 设置无效，请检查填写内容后重试。"@
    }
}

fn peer_validation_error(n: &[char]) -> (r: String)
    ensures
        r@ == peer_validation_message(n@),
{
    if has(n, "at least one private bootstrap peer") {
        owned("至少添加一个 Bootstrap Peer。")
    } else if has(n, "at most 8 peers") {
        owned("Bootstrap Peer 最多添加 8 个。")
    } else if has(n, "duplicate bootstrap peer") {
        owned("Bootstrap Peer 不能重复。")
    } else if has(n, "must include a host and port") {
        owned("Bootstrap Peer 必须包含主机和端口，例如 tcp://seed.example:11010。")
    } else if has(n, "only tcp, udp, wg, ws, and wss are supported") {
        owned("Bootstrap Peer 仅支持 tcp、udp、wg、ws 或 wss 协议。")
    } else if has(n, "only tcp, udp, ws, and wss are supported") {
        owned("当前后台服务版本仅支持 tcp、udp、ws 或 wss 协议；升级服务后可使用 wg。")
    } else if has(n, "must not contain credentials, query, or fragment") {
        owned("Bootstrap Peer 不可包含账户、密码、查询参数或片段。")
    } else if has(n, "must be a valid uri") {
        owned("Bootstrap Peer 地址格式无效。")
    } else {
        owned("Bootstrap Peer 设置无效，请检查填写内容后重试。")
    }
}

fn profile_validation_error(n: &[char]) -> (r: String)
    ensures
        r@ == profile_validation_message(n@),
{
    if has(n, "static ipv4") {
        if has(n, "must use address/prefix notation") {
            owned("固定虚拟 IPv4 必须使用“IP/前缀长度”格式，例如 100.76.1.2/24。")
        } else if has(n, "invalid ipv4 address") {
            owned("固定虚拟 IPv4 地址无效，请检查 IP 地址。")
        } else if has(n, "invalid prefix length") || has(n, "prefix length must") {
            owned("固定虚拟 IPv4 的前缀长度无效，必须为 0 到 32。")
        } else {
            owned("固定虚拟 IPv4/CIDR 设置无效，请检查填写内容后重试。")
        }
    } else if has(n, "address mode") {
        owned("当前版本仅支持固定虚拟 IPv4/CIDR，不支持 DHCP。")
    } else if has(n, "peer") {
        peer_validation_error(n)
    } else if has(n, "network secret") {
        text_field_error("网络密钥", n)
    } else if has(n, "network name") {
        text_field_error("网络名称", n)
    } else if has(n, "hostname") {
        text_field_error("设备名称", n)
    } else if has(n, "profile name") || has(n, "invalid name") {
        text_field_error("档案名称", n)
    } else if has(n, "flags.mtu") && has(n, "greater than zero") {
        owned("MTU 必须大于 0。")
    } else if has(n, "flags.") {
        owned("Core 选项无效，请检查取值或组合后重试。")
    } else {
        owned("私有网络或 Core 选项无效，请检查填写内容后重试。")
    }
}

pub fn localize_profile_validation_error(normalized: &str) -> (r: String)
    ensures
        r@ == profile_validation_message(normalized@),
{
    let n = chars_vec(normalized);
    profile_validation_error(n.as_slice())
}

/// The Chinese message that replaces a service error before it reaches the
/// web view.  Service text can carry paths, command output or TOML context,
/// so it is reduced to a fixed set of messages.
pub open spec fn service_error_message(error: Seq<char>) -> Seq<char> {
    match core_config_message(error) {
        Some(m) => m,
        None => {
            let n = ascii_lower(error);
            if contains_text(n, "profile"@) && contains_text(n, "does not exist"@) {
                "找不到指定的私有网络档案。"@
            } else if contains_text(n, "no active profile"@) {
                "当前没有活动的私有网络档案。"@
            } else if contains_text(n, "rejected the staged profile configuration"@)
                || contains_text(n, "core config rejected"@) {
                "EasyTier Core 拒绝了本次配置，之前可用的档案和连接已保留。"@
            } else if contains_text(n, "invalid easytier toml"@) {
                "导入的 EasyTier TOML 格式无效。"@
            } else if contains_text(n, "unsupported easytier toml key"@) {
                "导入的 EasyTier TOML 包含当前版本不支持的配置项。"@
            } else if contains_text(n, "invalid profile"@) {
                profile_validation_message(n)
            } else if contains_text(n, "unavailable"@) || contains_text(n, "named pipe"@) {
                "后台服务暂时不可用，请确认服务正在运行后重试。"@
            } else {
                "后台服务未能完成请求，请稍后重试。"@
            }
        },
    }
}

pub fn localize_service_error(error: &str) -> (r: String)
    ensures
        r@ == service_error_message(error@),
{
    match localize_core_config_validation_failure(error) {
        Some(m) => {
            return m;
        },
        None => {},
    }
    let e = chars_vec(error);
    let n = chars_lower(e.as_slice());
    if has(n.as_slice(), "profile") && has(n.as_slice(), "does not exist") {
        owned("找不到指定的私有网络档案。")
    } else if has(n.as_slice(), "no active profile") {
        owned("当前没有活动的私有网络档案。")
    } else if has(n.as_slice(), "rejected the staged profile configuration") || has(
        n.as_slice(),
        "core config rejected",
    ) {
        owned("EasyTier Core 拒绝了本次配置，之前可用的档案和连接已保留。")
    } else if has(n.as_slice(), "invalid easytier toml") {
        owned("导入的 EasyTier TOML 格式无效。")
    } else if has(n.as_slice(), "unsupported easytier toml key") {
        owned("导入的 EasyTier TOML 包含当前版本不支持的配置项。")
    } else if has(n.as_slice(), "invalid profile") {
        profile_validation_error(n.as_slice())
    } else if has(n.as_slice(), "unavailable") || has(n.as_slice(), "named pipe") {
        owned("后台服务暂时不可用，请确认服务正在运行后重试。")
    } else {
        owned("后台服务未能完成请求，请稍后重试。")
    }
}

// ---------------------------------------------------------------------------
// What the desktop shows
// ---------------------------------------------------------------------------

/// The connection phase the web view shows for a service state.
pub open spec fn phase_text(state: ServiceConnectionState) -> Seq<char> {
    match state {
        ServiceConnectionState::Disconnected => "disconnected"@,
        ServiceConnectionState::Connecting => "connecting"@,
        ServiceConnectionState::Connected => "connected"@,
        ServiceConnectionState::Recovering => "recovering"@,
        ServiceConnectionState::Failed => "failed"@,
    }
}

pub fn ui_phase(state: ServiceConnectionState) -> (r: &'static str)
    ensures
        r@ == phase_text(state),
{
    match state {
        ServiceConnectionState::Disconnected => "disconnected",
        ServiceConnectionState::Connecting => "connecting",
        ServiceConnectionState::Connected => "connected",
        ServiceConnectionState::Recovering => "recovering",
        ServiceConnectionState::Failed => "failed",
    }
}

/// Whether the service is registered to start at boot, and whether it runs.
#[derive(Clone, Copy, Debug, PartialEq, Eq, Structural)]
pub struct ServiceBootStatus {
    pub configured: bool,
    pub running: bool,
}

pub open spec fn boot_health(status: ServiceBootStatus) -> Seq<char> {
    if status.configured && status.running {
        "healthy"@
    } else if status.configured {
        "attention"@
    } else {
        "unavailable"@
    }
}

impl ServiceBootStatus {
    pub fn health(self) -> (r: &'static str)
        ensures
            r@ == boot_health(self),
    {
        if self.configured && self.running {
            "healthy"
        } else if self.configured {
            "attention"
        } else {
            "unavailable"
        }
    }
}

pub open spec fn ascii_upper_char(c: char) -> char {
    if 'a' <= c && c <= 'z' {
        ((c as u32) - 32) as char
    } else {
        c
    }
}

/// `str::to_ascii_uppercase`.
pub open spec fn ascii_upper(s: Seq<char>) -> Seq<char> {
    Seq::new(s.len(), |i: int| ascii_upper_char(s[i]))
}

fn chars_upper(s: &[char]) -> (r: Vec<char>)
    ensures
        r@ == ascii_upper(s@),
{
    let mut r: Vec<char> = Vec::new();
    let mut i: usize = 0;
    while i < s.len()
        invariant
            i <= s@.len(),
            r@ =~= ascii_upper(s@).take(i as int),
        decreases s@.len() - i,
    {
        let c = s[i];
        let u = if 'a' <= c && c <= 'z' {
            ((c as u32) - 32) as u8 as char
        } else {
            c
        };
        assert(u == ascii_upper_char(c)) by {
            if 'a' <= c && c <= 'z' {
                assert(((c as u32) - 32) < 256);
            }
        }
        r.push(u);
        i = i + 1;
    }
    assert(ascii_upper(s@).take(s@.len() as int) =~= ascii_upper(s@));
    r
}

/// Whether `sc qc` output describes a delayed automatic start.
pub open spec fn sc_configured(qc_output: Seq<char>) -> bool {
    let u = ascii_upper(qc_output);
    contains_text(u, "AUTO_START"@) && contains_text(u, "DELAYED"@)
}

/// Whether `sc query` output describes a running service.
pub open spec fn sc_running(query_output: Seq<char>) -> bool {
    let u = ascii_upper(query_output);
    contains_text(u, "RUNNING"@) || contains_text(u, "STATE              : 4"@)
}

/// The boot status from the text of `sc qc` and `sc query`, each `None` when
/// the command failed.
pub fn boot_status_from_sc(qc_output: Option<&str>, query_output: Option<&str>) -> (r: ServiceBootStatus)
    ensures
        r.configured == match qc_output {
            Some(t) => sc_configured(t@),
            None => false,
        },
        r.running == match query_output {
            Some(t) => sc_running(t@),
            None => false,
        },
{
    let configured = match qc_output {
        Some(t) => {
            let u = chars_upper(chars_vec(t).as_slice());
            has(u.as_slice(), "AUTO_START") && has(u.as_slice(), "DELAYED")
        },
        None => false,
    };
    let running = match query_output {
        Some(t) => {
            let u = chars_upper(chars_vec(t).as_slice());
            has(u.as_slice(), "RUNNING") || has(u.as_slice(), "STATE              : 4")
        },
        None => false,
    };
    ServiceBootStatus { configured, running }
}

/// The severity the web view gives a core log line.
pub open spec fn log_level_text(line: Seq<char>) -> Seq<char> {
    let l = ascii_lower(line);
    if contains_text(l, " error"@) || starts_with_text(l, "error"@) {
        "error"@
    } else if contains_text(l, " warn"@) || starts_with_text(l, "warn"@) {
        "warning"@
    } else {
        "info"@
    }
}

pub fn log_level(line: &str) -> (r: &'static str)
    ensures
        r@ == log_level_text(line@),
{
    let l = chars_lower(chars_vec(line).as_slice());
    let error = chars_vec("error");
    let warn = chars_vec("warn");
    if has(l.as_slice(), " error") || chars_start_with(l.as_slice(), error.as_slice()) {
        "error"
    } else if has(l.as_slice(), " warn") || chars_start_with(l.as_slice(), warn.as_slice()) {
        "warning"
    } else {
        "info"
    }
}

pub open spec fn is_instance_char(c: char) -> bool {
    is_ascii_alphanumeric(c) || c == '-' || c == '_'
}

/// The characters of `s` that an instance name may hold, in order.
pub open spec fn instance_chars(s: Seq<char>) -> Seq<char>
    decreases s.len(),
{
    if s.len() == 0 {
        Seq::empty()
    } else if is_instance_char(s.last()) {
        instance_chars(s.drop_last()).push(s.last())
    } else {
        instance_chars(s.drop_last())
    }
}

pub open spec fn at_most_56(s: Seq<char>) -> Seq<char> {
    if s.len() <= 56 {
        s
    } else {
        s.take(56)
    }
}

/// The core instance name the desktop gives a profile: `vibe-` and the
/// first 56 letters, digits, hyphens and underscores of its id.
pub open spec fn instance_name_of(profile_id: Seq<char>) -> Seq<char> {
    "vibe-"@ + at_most_56(instance_chars(profile_id))
}

pub fn managed_instance_name(profile_id: &str) -> (r: String)
    ensures
        r@ == instance_name_of(profile_id@),
{
    let s = chars_vec(profile_id);
    let mut picked: Vec<char> = Vec::new();
    let mut i: usize = 0;
    while i < s.len()
        invariant
            i <= s@.len(),
            s@ == profile_id@,
            picked@ == at_most_56(instance_chars(s@.take(i as int))),
        decreases s@.len() - i,
    {
        let c = s[i];
        let ghost before = instance_chars(s@.take(i as int));
        assert(s@.take(i + 1).drop_last() =~= s@.take(i as int));
        assert(s@.take(i + 1).last() == c);
        if (is_alphanumeric(c) || c == '-' || c == '_') && picked.len() < 56 {
            assert(picked@ == before);
            picked.push(c);
            assert(at_most_56(before.push(c)) =~= before.push(c));
        } else if is_alphanumeric(c) || c == '-' || c == '_' {
            assert(before.len() >= 56);
            assert(at_most_56(before.push(c)) =~= at_most_56(before));
        }
        i = i + 1;
    }
    assert(s@.take(s@.len() as int) =~= s@);
    let mut r = owned("vibe-");
    append_str(&mut r, string_from_chars(picked.as_slice()).as_str());
    r
}

/// A connected peer as the web view lists it.
#[derive(Clone, Debug, PartialEq, Eq)]
pub struct UiPeer {
    pub id: String,
    pub name: String,
    pub hostname: String,
    pub virtual_ip: String,
    /// The peer's live transports; not the configured bootstrap list.
    pub protocols: Vec<String>,
    pub role: String,
    pub state: String,
    pub latency_ms: u32,
    pub last_seen: String,
    pub version: String,
    pub sent: u64,
    pub received: u64,
}

impl UiPeer {
    /// The row for `peer`, seen at `last_seen`.
    pub fn from_peer(peer: ConnectedPeer, last_seen: String) -> (r: Self)
        ensures
            r.id@ == peer.id@,
            r.name@ == peer.hostname@,
            r.hostname@ == peer.hostname@,
            r.virtual_ip@ == peer.ipv4@,
            r.protocols@ == peer.protocols@,
            r.role@ == "Peer"@,
            r.state@ == "online"@,
            r.latency_ms == match peer.latency_ms {
                Some(l) => l,
                None => 0u32,
            },
            r.last_seen@ == last_seen@,
            r.version@ == match peer.version {
                Some(v) => v@,
                None => "Unknown"@,
            },
            r.sent == match peer.tx_bytes {
                Some(n) => n,
                None => 0u64,
            },
            r.received == match peer.rx_bytes {
                Some(n) => n,
                None => 0u64,
            },
    {
        let name = peer.hostname.clone();
        UiPeer {
            id: peer.id,
            name,
            hostname: peer.hostname,
            virtual_ip: peer.ipv4,
            protocols: peer.protocols,
            role: owned("Peer"),
            state: owned("online"),
            latency_ms: match peer.latency_ms {
                Some(l) => l,
                None => 0,
            },
            last_seen,
            version: match peer.version {
                Some(v) => v,
                None => owned("Unknown"),
            },
            sent: match peer.tx_bytes {
                Some(n) => n,
                None => 0,
            },
            received: match peer.rx_bytes {
                Some(n) => n,
                None => 0,
            },
        }
    }
}

/// A stored profile as the web view edits it.  The network secret is always
/// empty: an edit must supply it again, and the service never returns it.
#[derive(Clone, Debug, PartialEq, Eq)]
pub struct UiProfile {
    pub id: String,
    pub name: String,
    pub device_name: String,
    pub network_name: String,
    pub network_secret: String,
    pub peers: Vec<String>,
    pub virtual_ip: String,
    pub flags: UiEasyTierFlags,
    pub updated_at: String,
}

impl UiProfile {
    /// The form of `profile`, stamped `updated_at`.
    pub fn from_view(profile: ProfileView, updated_at: String) -> (r: Self)
        ensures
            r.id@ == profile.id@,
            r.name@ == profile.name@,
            r.device_name@ == profile.hostname@,
            r.network_name@ == profile.network_name@,
            r.network_secret@ == Seq::<char>::empty(),
            r.peers@ == profile.peers@,
            r.virtual_ip@ == match profile.static_ipv4_cidr {
                Some(c) => c@,
                None => Seq::<char>::empty(),
            },
            is_form_of(r.flags, profile.flags),
            r.updated_at@ == updated_at@,
    {
        let virtual_ip = match profile.static_ipv4_cidr {
            Some(c) => c,
            None => String::new(),
        };
        UiProfile {
            id: profile.id,
            name: profile.name,
            device_name: profile.hostname,
            network_name: profile.network_name,
            network_secret: String::new(),
            peers: profile.peers,
            virtual_ip,
            flags: UiEasyTierFlags::from_flags(profile.flags),
            updated_at,
        }
    }
}

/// A profile form submitted by the web view.
#[derive(Clone, Debug, PartialEq, Eq)]
pub struct UiNetworkProfile {
    pub id: String,
    pub name: String,
    pub device_name: String,
    pub network_name: String,
    pub network_secret: String,
    pub peers: Vec<String>,
    pub virtual_ip: String,
    pub flags: UiEasyTierFlags,
}

pub open spec fn missing_secret_message() -> Seq<char> {
    "保存档案需要填写网络密钥。"@
}

/// The service request that saves a submitted profile form.  The secret
/// must be given; the stored auto-connect choice is kept; the profile stays
/// selected when it is the active one.
pub fn profile_upsert_from_form(
    form: UiNetworkProfile,
    active_profile_id: Option<&str>,
    existing_auto_connect: bool,
) -> (r: Result<ProfileUpsert, String>)
    ensures
        is_blank(form.network_secret@) ==> (r matches Err(e) && e@ == missing_secret_message()),
        !is_blank(form.network_secret@) ==> match form_values(form.flags) {
            Err(msg) => r matches Err(e) && e@ == msg,
            Ok(_) => r is Ok,
        },
        r matches Ok(u) ==> {
            &&& u.make_active == match active_profile_id {
                Some(a) => a@ == form.id@,
                None => false,
            }
            &&& u.profile.id@ == form.id@
            &&& u.profile.name@ == form.name@
            &&& u.profile.instance_name@ == instance_name_of(form.id@)
            &&& u.profile.hostname@ == form.device_name@
            &&& u.profile.network_name@ == form.network_name@
            &&& u.profile.network_secret@ == form.network_secret@
            &&& u.profile.address_mode@ == crate::profile::AddressModel::Static(form.virtual_ip@)
            &&& u.profile.peers@ == form.peers@
            &&& same_plain_flags(form.flags, u.profile.flags)
            &&& form_values(form.flags) == Ok::<(i32, u64, u64), Seq<char>>((
                u.profile.flags.data_compress_algo,
                u.profile.flags.foreign_relay_bps_limit,
                u.profile.flags.instance_recv_bps_limit,
            ))
            &&& u.profile.auto_connect == existing_auto_connect
        },
{
    if str_blank(form.network_secret.as_str()) {
        return Err(owned("保存档案需要填写网络密钥。"));
    }
    let ghost ui_flags = form.flags;
    let flags = form.flags.into_flags()?;
    let make_active = match active_profile_id {
        Some(a) => str_eq(a, form.id.as_str()),
        None => false,
    };
    let instance_name = managed_instance_name(form.id.as_str());
    Ok(ProfileUpsert {
        profile: NetworkProfile {
            id: form.id,
            name: form.name,
            instance_name,
            hostname: form.device_name,
            network_name: form.network_name,
            network_secret: SecretString::new(form.network_secret),
            address_mode: AddressMode::Static { cidr: form.virtual_ip },
            peers: form.peers,
            flags,
            auto_connect: existing_auto_connect,
        },
        make_active,
    })
}

// ---------------------------------------------------------------------------
// Talking to the service
// ---------------------------------------------------------------------------

/// The reply each desktop request expects from the service.
#[derive(Clone, Copy, Debug, PartialEq, Eq, Structural)]
pub enum ExpectedReply {
    Status,
    Profiles,
    Peers,
    Logs,
    ProfileSaved,
    FlagsSaved,
    ProfileImported,
    ProfileDeleted,
    ActiveProfileSelected,
    IntentApplied,
    LogsCleared,
}

pub open spec fn reply_matches(result: RpcResult, expected: ExpectedReply) -> bool {
    match expected {
        ExpectedReply::Status => result is Status,
        ExpectedReply::Profiles => result is Profiles,
        ExpectedReply::Peers => result is Peers,
        ExpectedReply::Logs => result is Logs,
        ExpectedReply::ProfileSaved | ExpectedReply::FlagsSaved | ExpectedReply::ProfileImported => result is ProfileSaved,
        ExpectedReply::ProfileDeleted => result is ProfileDeleted,
        ExpectedReply::ActiveProfileSelected => result is ActiveProfileSelected,
        ExpectedReply::IntentApplied => result is IntentApplied,
        ExpectedReply::LogsCleared => result is LogsCleared,
    }
}

pub open spec fn invalid_reply_message(expected: ExpectedReply) -> Seq<char> {
    match expected {
        ExpectedReply::Status => "后台服务返回了无效的状态响应。"@,
        ExpectedReply::Profiles => "后台服务返回了无效的档案响应。"@,
        ExpectedReply::Peers => "后台服务返回了无效的节点响应。"@,
        ExpectedReply::Logs => "后台服务返回了无效的日志响应。"@,
        ExpectedReply::ProfileSaved => "后台服务返回了无效的档案保存响应。"@,
        ExpectedReply::FlagsSaved => "后台服务返回了无效的 Core 选项保存响应。"@,
        ExpectedReply::ProfileImported => "后台服务返回了无效的档案导入响应。"@,
        ExpectedReply::ProfileDeleted => "后台服务返回了无效的档案删除响应。"@,
        ExpectedReply::ActiveProfileSelected => "后台服务返回了无效的活动档案选择响应。"@,
        ExpectedReply::IntentApplied => "后台服务返回了无效的连接意图响应。"@,
        ExpectedReply::LogsCleared => "后台服务返回了无效的日志清理响应。"@,
    }
}

fn invalid_reply(expected: ExpectedReply) -> (r: String)
    ensures
        r@ == invalid_reply_message(expected),
{
    owned(
        match expected {
            ExpectedReply::Status => "后台服务返回了无效的状态响应。",
            ExpectedReply::Profiles => "后台服务返回了无效的档案响应。",
            ExpectedReply::Peers => "后台服务返回了无效的节点响应。",
            ExpectedReply::Logs => "后台服务返回了无效的日志响应。",
            ExpectedReply::ProfileSaved => "后台服务返回了无效的档案保存响应。",
            ExpectedReply::FlagsSaved => "后台服务返回了无效的 Core 选项保存响应。",
            ExpectedReply::ProfileImported => "后台服务返回了无效的档案导入响应。",
            ExpectedReply::ProfileDeleted => "后台服务返回了无效的档案删除响应。",
            ExpectedReply::ActiveProfileSelected => "后台服务返回了无效的活动档案选择响应。",
            ExpectedReply::IntentApplied => "后台服务返回了无效的连接意图响应。",
            ExpectedReply::LogsCleared => "后台服务返回了无效的日志清理响应。",
        },
    )
}

pub open spec fn unreachable_service_message() -> Seq<char> {
    "无法连接后台服务，请确认 VibeEasyTierService 正在运行。"@
}

pub open spec fn empty_reply_message() -> Seq<char> {
    "后台服务返回了空响应。"@
}

/// What the web view is told of a call to the service: the result when it
/// is the expected kind; otherwise the call failed, the service refused the
/// request (its message localized), or the reply was empty or of another
/// kind.
pub fn desktop_reply(response: Result<RpcResponse, IpcError>, expected: ExpectedReply) -> (r: Result<
    RpcResult,
    String,
>)
    ensures
        match response {
            Err(_) => r matches Err(e) && e@ == unreachable_service_message(),
            Ok(reply) => match reply.error {
                Some(error) => r matches Err(e) && e@ == service_error_message(error.message@),
                None => match reply.result {
                    None => r matches Err(e) && e@ == empty_reply_message(),
                    Some(result) => if reply_matches(result, expected) {
                        r == Ok::<RpcResult, String>(result)
                    } else {
                        r matches Err(e) && e@ == invalid_reply_message(expected)
                    },
                },
            },
        },
{
    let reply = match response {
        Err(_) => {
            return Err(owned("无法连接后台服务，请确认 VibeEasyTierService 正在运行。"));
        },
        Ok(reply) => reply,
    };
    if let Some(error) = &reply.error {
        return Err(localize_service_error(error.message.as_str()));
    }
    let result = match reply.result {
        None => {
            return Err(owned("后台服务返回了空响应。"));
        },
        Some(result) => result,
    };
    let matches = match (&result, expected) {
        (RpcResult::Status(_), ExpectedReply::Status) => true,
        (RpcResult::Profiles(_), ExpectedReply::Profiles) => true,
        (RpcResult::Peers(_), ExpectedReply::Peers) => true,
        (RpcResult::Logs(_), ExpectedReply::Logs) => true,
        (RpcResult::ProfileSaved(_), ExpectedReply::ProfileSaved) => true,
        (RpcResult::ProfileSaved(_), ExpectedReply::FlagsSaved) => true,
        (RpcResult::ProfileSaved(_), ExpectedReply::ProfileImported) => true,
        (RpcResult::ProfileDeleted { .. }, ExpectedReply::ProfileDeleted) => true,
        (RpcResult::ActiveProfileSelected(_), ExpectedReply::ActiveProfileSelected) => true,
        (RpcResult::IntentApplied(_), ExpectedReply::IntentApplied) => true,
        (RpcResult::LogsCleared, ExpectedReply::LogsCleared) => true,
        _ => false,
    };
    if matches {
        Ok(result)
    } else {
        Err(invalid_reply(expected))
    }
}

pub open spec fn no_active_profile_message() -> Seq<char> {
    "请先选择一个私有网络，再设置自动连接。"@
}

/// The intent that switches automatic connection for the selected profile;
/// without a selected profile there is nothing to switch.
pub fn auto_connect_intent(active_profile_id: Option<String>, enabled: bool) -> (r: Result<
    ConnectionIntent,
    String,
>)
    ensures
        match active_profile_id {
            None => r matches Err(e) && e@ == no_active_profile_message(),
            Some(id) => r matches Ok(ConnectionIntent::SetAutoConnect { profile_id, enabled: on })
                && profile_id@ == id@ && on == enabled,
        },
{
    match active_profile_id {
        None => Err(owned("请先选择一个私有网络，再设置自动连接。")),
        Some(profile_id) => Ok(ConnectionIntent::SetAutoConnect { profile_id, enabled }),
    }
}

// ---------------------------------------------------------------------------
// Preferences and the snapshot the web view renders
// ---------------------------------------------------------------------------

pub open spec fn theme_supported(theme: Seq<char>) -> bool {
    theme == "system"@ || theme == "light"@ || theme == "dark"@
}

pub open spec fn unsupported_theme_message() -> Seq<char> {
    "主题仅支持系统、浅色或深色。"@
}

/// The theme a fresh installation uses.
pub fn default_theme() -> (r: String)
    ensures
        r@ == "system"@,
{
    owned("system")
}

/// Checks a theme the user picked: the system's, light or dark.
pub fn check_theme(theme: &str) -> (r: Result<(), String>)
    ensures
        match r {
            Ok(()) => theme_supported(theme@),
            Err(e) => !theme_supported(theme@) && e@ == unsupported_theme_message(),
        },
{
    if str_eq(theme, "system") || str_eq(theme, "light") || str_eq(theme, "dark") {
        Ok(())
    } else {
        Err(owned("主题仅支持系统、浅色或深色。"))
    }
}

/// `DateTime::<Utc>::from_timestamp_millis(millis)` rendered by
/// `to_rfc3339`: the UTC time of a Unix millisecond timestamp as RFC 3339
/// text, or `None` beyond the range chrono represents.
pub uninterp spec fn rfc3339_of_millis(millis: i64) -> Option<Seq<char>>;

/// `chrono::DateTime::<Utc>::from_timestamp_millis`, its result rendered
/// with `to_rfc3339` (writing to a `String` cannot fail there).
#[verifier::external_body]
fn rfc3339_from_millis(millis: i64) -> (r: Option<String>)
    ensures
        match r {
            Some(t) => rfc3339_of_millis(millis) == Some(t@),
            None => rfc3339_of_millis(millis) is None,
        },
{
    chrono::DateTime::<chrono::Utc>::from_timestamp_millis(millis).map(|time| time.to_rfc3339())
}

/// The RFC 3339 text of a Unix millisecond timestamp; `None` past the
/// signed 64-bit range or beyond what chrono represents.
pub open spec fn iso_of(timestamp_ms: u64) -> Option<Seq<char>> {
    if timestamp_ms <= i64::MAX {
        rfc3339_of_millis(timestamp_ms as i64)
    } else {
        None
    }
}

pub fn timestamp_to_iso(timestamp_ms: u64) -> (r: Option<String>)
    ensures
        crate::protocol::opt_text(r) == iso_of(timestamp_ms),
{
    if timestamp_ms > i64::MAX as u64 {
        None
    } else {
        rfc3339_from_millis(timestamp_ms as i64)
    }
}

fn opt_iso(timestamp_ms: Option<u64>) -> (r: Option<String>)
    ensures
        crate::protocol::opt_text(r) == match timestamp_ms {
            Some(t) => iso_of(t),
            None => None,
        },
{
    match timestamp_ms {
        Some(t) => timestamp_to_iso(t),
        None => None,
    }
}

/// A log entry as the web view lists it.
#[derive(Clone, Debug, PartialEq, Eq)]
pub struct UiLog {
    pub id: String,
    pub at: String,
    pub level: String,
    pub source: String,
    pub message: String,
}

/// The entry of a core log record, with its severity read from its text.
pub fn core_log(id: String, at: String, line: String) -> (r: UiLog)
    ensures
        r.id@ == id@,
        r.at@ == at@,
        r.level@ == log_level_text(line@),
        r.source@ == "EasyTier Core"@,
        r.message@ == line@,
{
    let level = owned(log_level(line.as_str()));
    UiLog { id, at, level, source: owned("EasyTier Core"), message: line }
}

/// The warning the desktop adds when the service cannot be asked.
pub fn unavailable_warning(id: String, at: String, error: &str) -> (r: UiLog)
    ensures
        r.id@ == id@,
        r.at@ == at@,
        r.level@ == "warning"@,
        r.source@ == "Desktop"@,
        r.message@ == "后台服务状态不可用："@ + error@,
{
    UiLog {
        id,
        at,
        level: owned("warning"),
        source: owned("Desktop"),
        message: concat2("后台服务状态不可用：", error),
    }
}

/// The connection as the overview page shows it.
#[derive(Clone, Debug, PartialEq, Eq)]
pub struct UiRuntime {
    pub phase: String,
    pub active_profile_id: Option<String>,
    pub started_at: Option<String>,
    pub retry_at: Option<String>,
    pub error: Option<String>,
    pub peer_count: usize,
    pub peer_count_available: bool,
    pub last_success_at: Option<String>,
    pub routes: u32,
    pub sent: u64,
    pub received: u64,
    pub daemon_version: String,
}

/// The preferences the settings page shows.
#[derive(Clone, Debug, PartialEq, Eq)]
pub struct UiPreferences {
    pub auto_connect: bool,
    pub service_at_boot: bool,
    pub service_health: String,
    pub theme: String,
}

/// Everything the web view renders at once.
#[derive(Clone, Debug, PartialEq, Eq)]
pub struct DesktopSnapshot {
    pub profiles: Vec<UiProfile>,
    pub peers: Vec<UiPeer>,
    pub runtime: UiRuntime,
    pub preferences: UiPreferences,
    pub logs: Vec<UiLog>,
}

/// The most log entries a snapshot carries.
pub const MAX_LOG_LINES: usize = 200;

pub open spec fn at_most_lines(logs: Seq<UiLog>) -> Seq<UiLog> {
    if logs.len() <= 200 {
        logs
    } else {
        logs.take(200)
    }
}

pub open spec fn managed_by_service_text() -> Seq<char> {
    "EasyTier Core 2.6.4（由服务管理）"@
}

pub open spec fn service_unavailable_text() -> Seq<char> {
    "EasyTier Core 2.6.4（服务不可用）"@
}

/// The overview of a service that answered with `status`.  Route and
/// traffic totals are not shown on this page and stay zero.
pub fn runtime_from_status(status: &ServiceStatus) -> (r: UiRuntime)
    ensures
        r.phase@ == phase_text(status.state),
        crate::protocol::opt_text(r.active_profile_id) == crate::protocol::opt_text(status.active_profile_id),
        r.started_at is None,
        crate::protocol::opt_text(r.retry_at) == match status.retry_at_unix_ms {
            Some(t) => iso_of(t),
            None => None,
        },
        crate::protocol::opt_text(r.error) == match status.last_error {
            Some(e) => Some(service_error_message(e@)),
            None => None,
        },
        r.peer_count == status.peer_count,
        r.peer_count_available == status.peer_count_available,
        crate::protocol::opt_text(r.last_success_at) == match status.last_success_unix_ms {
            Some(t) => iso_of(t),
            None => None,
        },
        r.routes == 0,
        r.sent == 0,
        r.received == 0,
        r.daemon_version@ == managed_by_service_text(),
{
    let active_profile_id = match &status.active_profile_id {
        Some(id) => Some(id.clone()),
        None => None,
    };
    let error = match &status.last_error {
        Some(e) => Some(localize_service_error(e.as_str())),
        None => None,
    };
    UiRuntime {
        phase: owned(ui_phase(status.state)),
        active_profile_id,
        started_at: None,
        retry_at: opt_iso(status.retry_at_unix_ms),
        error,
        peer_count: status.peer_count,
        peer_count_available: status.peer_count_available,
        last_success_at: opt_iso(status.last_success_unix_ms),
        routes: 0,
        sent: 0,
        received: 0,
        daemon_version: owned("EasyTier Core 2.6.4（由服务管理）"),
    }
}

fn joined_logs(first: Vec<UiLog>, second: Vec<UiLog>) -> (r: Vec<UiLog>)
    ensures
        r@ == at_most_lines(first@ + second@),
{
    let mut logs = first;
    let mut rest = second;
    logs.append(&mut rest);
    logs.truncate(MAX_LOG_LINES);
    logs
}

/// The snapshot of a service that answered: its profiles, peers and logs
/// (the service's first, then the desktop's, at most 200), its overview,
/// and preferences in which a successful answer counts as proof that the
/// service runs.
pub fn connected_snapshot(
    theme: String,
    boot: ServiceBootStatus,
    status: ServiceStatus,
    profiles: Vec<UiProfile>,
    peers: Vec<UiPeer>,
    service_logs: Vec<UiLog>,
    desktop_logs: Vec<UiLog>,
) -> (r: DesktopSnapshot)
    ensures
        r.profiles@ == profiles@,
        r.peers@ == peers@,
        r.logs@ == at_most_lines(service_logs@ + desktop_logs@),
        r.runtime.phase@ == phase_text(status.state),
        crate::protocol::opt_text(r.runtime.active_profile_id) == crate::protocol::opt_text(status.active_profile_id),
        r.runtime.peer_count == status.peer_count,
        r.runtime.peer_count_available == status.peer_count_available,
        r.runtime.daemon_version@ == managed_by_service_text(),
        r.preferences.auto_connect == status.auto_connect_profile_id is Some,
        r.preferences.service_at_boot == boot.configured,
        r.preferences.service_health@ == boot_health(ServiceBootStatus { running: true, ..boot }),
        r.preferences.theme@ == theme@,
{
    let runtime = runtime_from_status(&status);
    let alive = ServiceBootStatus { configured: boot.configured, running: true };
    DesktopSnapshot {
        profiles,
        peers,
        runtime,
        preferences: UiPreferences {
            auto_connect: status.auto_connect_profile_id.is_some(),
            service_at_boot: boot.configured,
            service_health: owned(alive.health()),
            theme,
        },
        logs: joined_logs(service_logs, desktop_logs),
    }
}

/// The snapshot when the service could not be asked: no profiles or peers,
/// a failed overview carrying `error`, and `warning` ahead of the desktop's
/// own log entries (at most 200).
pub fn unavailable_snapshot(
    theme: String,
    boot: ServiceBootStatus,
    error: String,
    warning: UiLog,
    logs: Vec<UiLog>,
) -> (r: DesktopSnapshot)
    ensures
        r.profiles@.len() == 0,
        r.peers@.len() == 0,
        r.logs@ == at_most_lines(seq![warning] + logs@),
        r.runtime == (UiRuntime {
            phase: r.runtime.phase,
            error: r.runtime.error,
            daemon_version: r.runtime.daemon_version,
            active_profile_id: None,
            started_at: None,
            retry_at: None,
            peer_count: 0,
            peer_count_available: false,
            last_success_at: None,
            routes: 0,
            sent: 0,
            received: 0,
        }),
        r.runtime.phase@ == "failed"@,
        r.runtime.error matches Some(e) && e@ == error@,
        r.runtime.daemon_version@ == service_unavailable_text(),
        !r.preferences.auto_connect,
        r.preferences.service_at_boot == boot.configured,
        r.preferences.service_health@ == boot_health(boot),
        r.preferences.theme@ == theme@,
{
    let first = vec![warning];
    DesktopSnapshot {
        profiles: Vec::new(),
        peers: Vec::new(),
        runtime: UiRuntime {
            phase: owned("failed"),
            active_profile_id: None,
            started_at: None,
            retry_at: None,
            error: Some(error),
            peer_count: 0,
            peer_count_available: false,
            last_success_at: None,
            routes: 0,
            sent: 0,
            received: 0,
            daemon_version: owned("EasyTier Core 2.6.4（服务不可用）"),
        },
        preferences: UiPreferences {
            auto_connect: false,
            service_at_boot: boot.configured,
            service_health: owned(boot.health()),
            theme,
        },
        logs: joined_logs(first, logs),
    }
}

} // verus!
