//! Bounded iperf3 probes over the active EasyTier virtual interface.
//!
//! The service keeps one bundled iperf3 server bound to the active profile's
//! virtual IPv4 address, and desktop-initiated clients bind to the same
//! address, so a test cannot silently fall back to a physical route.  The
//! processes are run by the host; this module decides their arguments, reads
//! their reports and keeps the server aligned with the active address.

use vstd::prelude::*;

use crate::profile::{is_ipv4_address, is_ipv4_text};
use crate::telemetry::{find_member, json_model, parse_json_bytes, DecimalReader, JsonModel, JsonValue, json_bytes_document, member};
use crate::text::{
    all_ascii_digits, chars_all_digits, digits_value, ascii_lower, chars_index_of, chars_lower, chars_contain, chars_slice, chars_trim, chars_vec,
    contains_text, decimal_string, decimal_text, index_of_from, owned, parse_u64,
    parse_u64_text, str_eq, string_from_chars, trim,
};

verus! {

broadcast use vstd::string::group_string_axioms;

pub const BANDWIDTH_TEST_PORT: u16 = 29999;

pub const DEFAULT_TEST_DURATION_SECONDS: u8 = 3;

pub const MIN_TEST_DURATION_SECONDS: u8 = 1;

pub const MAX_TEST_DURATION_SECONDS: u8 = 10;

/// Seconds of each test that iperf3 leaves out of its totals.
pub const OMIT_SECONDS: u8 = 1;

pub const CONNECT_TIMEOUT_MILLISECONDS: u32 = 4000;

/// At most this much of an iperf3 process's output is read.
pub const MAX_IPERF_OUTPUT_BYTES: u64 = 1048576;

/// A failed server is started again after this long.
pub const SERVER_RESTART_DELAY_MS: u64 = 2000;

/// The server ends any single test after this many seconds.
pub const SERVER_MAX_DURATION_SECONDS: u32 = 60;

/// The virtual IPv4 address that iperf3 binds to, in dotted-quad form.
#[derive(Clone, Debug, PartialEq, Eq)]
pub struct Iperf3BindTarget {
    pub address: String,
}

/// The address of a virtual `address/prefix` when it is a valid IPv4 CIDR.
pub open spec fn bind_address(cidr: Seq<char>) -> Option<Seq<char>> {
    let t = trim(cidr);
    match index_of_from(t, '/', 0) {
        None => None,
        Some(i) => {
            let address = t.take(i);
            let prefix = parse_u64_text(t.skip(i + 1));
            if is_ipv4_text(address) && prefix is Some && prefix->0 <= 32 {
                Some(address)
            } else {
                None
            }
        },
    }
}

impl Iperf3BindTarget {
    /// The target for a profile's virtual `address/prefix`.
    pub fn from_cidr(cidr: &str) -> (r: Option<Self>)
        ensures
            match r {
                Some(t) => bind_address(cidr@) == Some(t.address@),
                None => bind_address(cidr@) is None,
            },
    {
        let t = chars_trim(chars_vec(cidr).as_slice());
        let slash = match chars_index_of(t.as_slice(), '/', 0) {
            Some(i) => i,
            None => {
                return None;
            },
        };
        let address = chars_slice(t.as_slice(), 0, slash);
        let prefix = chars_slice(t.as_slice(), slash + 1, t.len());
        assert(address@ =~= t@.take(slash as int));
        assert(prefix@ =~= t@.skip(slash + 1));
        if !is_ipv4_address(address.as_slice()) {
            return None;
        }
        match parse_u64(prefix.as_slice()) {
            Some(p) => if p <= 32 {
                Some(Iperf3BindTarget { address: string_from_chars(address.as_slice()) })
            } else {
                None
            },
            None => None,
        }
    }
}

/// A finished test: each direction's rate in bits per second and its bytes.
#[derive(Clone, Copy, Debug, PartialEq, Eq, Structural)]
pub struct BandwidthMeasurement {
    pub download_bps: u64,
    pub upload_bps: u64,
    pub download_bytes: u64,
    pub upload_bytes: u64,
    pub duration_seconds: u8,
}

/// One direction of a test.
#[derive(Clone, Copy, Debug, PartialEq, Eq, Structural)]
pub struct DirectionMeasurement {
    pub bits_per_second: u64,
    pub bytes: u64,
}

impl BandwidthMeasurement {
    /// The test of an upload and a reverse (download) run of
    /// `duration_seconds` each.
    pub fn from_directions(upload: DirectionMeasurement, download: DirectionMeasurement, duration_seconds: u8) -> (r: Self)
        ensures
            r == (BandwidthMeasurement {
                download_bps: download.bits_per_second,
                upload_bps: upload.bits_per_second,
                download_bytes: download.bytes,
                upload_bytes: upload.bytes,
                duration_seconds,
            }),
    {
        BandwidthMeasurement {
            download_bps: download.bits_per_second,
            upload_bps: upload.bits_per_second,
            download_bytes: download.bytes,
            upload_bytes: upload.bytes,
            duration_seconds,
        }
    }
}

/// The kind of a failed test, as `std::io::ErrorKind` names it.
#[derive(Clone, Copy, Debug, PartialEq, Eq, Structural)]
pub enum BandwidthErrorKind {
    InvalidInput,
    InvalidData,
    WouldBlock,
    ConnectionRefused,
    NotConnected,
    TimedOut,
    AddrNotAvailable,
    Other,
}

/// A failed test and its message.
#[derive(Clone, Debug, PartialEq, Eq)]
pub struct BandwidthError {
    pub kind: BandwidthErrorKind,
    pub message: String,
}

fn bandwidth_error(kind: BandwidthErrorKind, message: &str) -> (r: BandwidthError)
    ensures
        r.kind == kind,
        r.message@ == message@,
{
    BandwidthError { kind, message: owned(message) }
}

/// Whether the duration of a test is one iperf3 may run.
pub open spec fn duration_ok(duration_seconds: u8) -> bool {
    1 <= duration_seconds <= 10
}

pub fn validate_duration(duration_seconds: u8) -> (r: Result<(), BandwidthError>)
    ensures
        match r {
            Ok(()) => duration_ok(duration_seconds),
            Err(e) => !duration_ok(duration_seconds) && e.kind == BandwidthErrorKind::InvalidInput
                && e.message@ == "iperf3 test duration is out of range"@,
        },
{
    if MIN_TEST_DURATION_SECONDS <= duration_seconds && duration_seconds <= MAX_TEST_DURATION_SECONDS {
        Ok(())
    } else {
        Err(bandwidth_error(BandwidthErrorKind::InvalidInput, "iperf3 test duration is out of range"))
    }
}

/// Checks a test request before any process runs: the duration must be in
/// range and the peer must not be the local node itself.
pub fn check_test_request(local_address: &str, peer_address: &str, duration_seconds: u8) -> (r: Result<(), BandwidthError>)
    ensures
        match r {
            Ok(()) => duration_ok(duration_seconds) && local_address@ != peer_address@,
            Err(e) => e.kind == BandwidthErrorKind::InvalidInput && if !duration_ok(duration_seconds) {
                e.message@ == "iperf3 test duration is out of range"@
            } else {
                local_address@ == peer_address@ && e.message@
                    == "iperf3 peer address is the local virtual address"@
            },
        },
{
    validate_duration(duration_seconds)?;
    if str_eq(local_address, peer_address) {
        return Err(
            bandwidth_error(
                BandwidthErrorKind::InvalidInput,
                "iperf3 peer address is the local virtual address",
            ),
        );
    }
    Ok(())
}

/// Whether a failed client run is tried again: the first two attempts are,
/// when the server refused or was not connected yet.
pub open spec fn retries(attempt: u32, kind: BandwidthErrorKind) -> bool {
    attempt < 2 && (kind == BandwidthErrorKind::ConnectionRefused || kind
        == BandwidthErrorKind::NotConnected)
}

pub fn should_retry(attempt: u32, kind: BandwidthErrorKind) -> (r: bool)
    ensures
        r == retries(attempt, kind),
{
    attempt < 2 && (kind == BandwidthErrorKind::ConnectionRefused || kind
        == BandwidthErrorKind::NotConnected)
}

/// The client arguments of one direction of a test.
pub open spec fn client_arguments(local: Seq<char>, peer: Seq<char>, port: u16, duration_seconds: u8, reverse: bool) -> Seq<Seq<char>> {
    let base = seq![
        "--client"@,
        peer,
        "--bind"@,
        local,
        "--port"@,
        decimal_text(port as nat),
        "--time"@,
        decimal_text(duration_seconds as nat),
        "--omit"@,
        "1"@,
        "--interval"@,
        "0"@,
        "--connect-timeout"@,
        "4000"@,
        "--json"@,
        "--version4"@,
    ];
    if reverse {
        base.push("--reverse"@)
    } else {
        base
    }
}

pub fn iperf3_client_arguments(local_address: &str, peer_address: &str, port: u16, duration_seconds: u8, reverse: bool) -> (r: Vec<String>)
    ensures
        crate::profile::texts(r@) == client_arguments(local_address@, peer_address@, port, duration_seconds, reverse),
{
    let mut r = vec![
        owned("--client"),
        owned(peer_address),
        owned("--bind"),
        owned(local_address),
        owned("--port"),
        decimal_string(port as u64),
        owned("--time"),
        decimal_string(duration_seconds as u64),
        owned("--omit"),
        decimal_string(OMIT_SECONDS as u64),
        owned("--interval"),
        owned("0"),
        owned("--connect-timeout"),
        decimal_string(CONNECT_TIMEOUT_MILLISECONDS as u64),
        owned("--json"),
        owned("--version4"),
    ];
    proof {
        reveal_strlit("1");
        reveal_strlit("4000");
        assert(decimal_text(1) =~= "1"@);
        assert(decimal_text(4) =~= seq!['4']);
        assert(decimal_text(40) =~= seq!['4', '0']);
        assert(decimal_text(400) =~= seq!['4', '0', '0']);
        assert(decimal_text(4000) =~= seq!['4', '0', '0', '0']);
        assert("4000"@ =~= seq!['4', '0', '0', '0']);
    }
    if reverse {
        r.push(owned("--reverse"));
    }
    assert(crate::profile::texts(r@) =~= client_arguments(
        local_address@,
        peer_address@,
        port,
        duration_seconds,
        reverse,
    ));
    r
}

/// The arguments of the bundled server bound to `address`.
pub open spec fn server_arguments(address: Seq<char>) -> Seq<Seq<char>> {
    seq![
        "--server"@,
        "--bind"@,
        address,
        "--port"@,
        "29999"@,
        "--interval"@,
        "0"@,
        "--server-max-duration"@,
        "60"@,
        "--version4"@,
    ]
}

pub fn iperf3_server_arguments(address: &str) -> (r: Vec<String>)
    ensures
        crate::profile::texts(r@) == server_arguments(address@),
{
    let r = vec![
        owned("--server"),
        owned("--bind"),
        owned(address),
        owned("--port"),
        decimal_string(BANDWIDTH_TEST_PORT as u64),
        owned("--interval"),
        owned("0"),
        owned("--server-max-duration"),
        decimal_string(SERVER_MAX_DURATION_SECONDS as u64),
        owned("--version4"),
    ];
    proof {
        reveal_strlit("29999");
        reveal_strlit("60");
        assert(decimal_text(2) =~= seq!['2']);
        assert(decimal_text(29) =~= seq!['2', '9']);
        assert(decimal_text(299) =~= seq!['2', '9', '9']);
        assert(decimal_text(2999) =~= seq!['2', '9', '9', '9']);
        assert(decimal_text(29999) =~= seq!['2', '9', '9', '9', '9']);
        assert("29999"@ =~= seq!['2', '9', '9', '9', '9']);
        assert(decimal_text(6) =~= seq!['6']);
        assert(decimal_text(60) =~= seq!['6', '0']);
        assert("60"@ =~= seq!['6', '0']);
    }
    assert(crate::profile::texts(r@) =~= server_arguments(address@));
    r
}

// ---------------------------------------------------------------------------
// Reading what iperf3 reports
// ---------------------------------------------------------------------------

/// The kind of failure that lower-case iperf3 output describes.
pub open spec fn failure_kind(l: Seq<char>) -> BandwidthErrorKind {
    if contains_text(l, "server is busy"@) {
        BandwidthErrorKind::WouldBlock
    } else if contains_text(l, "connection refused"@) || contains_text(l, "unable to connect"@)
        || contains_text(l, "no route to host"@) {
        BandwidthErrorKind::ConnectionRefused
    } else if contains_text(l, "timed out"@) || contains_text(l, "timeout"@) {
        BandwidthErrorKind::TimedOut
    } else if contains_text(l, "cannot assign requested address"@) || contains_text(
        l,
        "address not available"@,
    ) {
        BandwidthErrorKind::AddrNotAvailable
    } else {
        BandwidthErrorKind::Other
    }
}

fn has(hay: &[char], needle: &str) -> (r: bool)
    ensures
        r == contains_text(hay@, needle@),
{
    let n = chars_vec(needle);
    chars_contain(hay, n.as_slice())
}

fn kind_of(l: &[char]) -> (r: BandwidthErrorKind)
    ensures
        r == failure_kind(l@),
{
    if has(l, "server is busy") {
        BandwidthErrorKind::WouldBlock
    } else if has(l, "connection refused") || has(l, "unable to connect") || has(l, "no route to host") {
        BandwidthErrorKind::ConnectionRefused
    } else if has(l, "timed out") || has(l, "timeout") {
        BandwidthErrorKind::TimedOut
    } else if has(l, "cannot assign requested address") || has(l, "address not available") {
        BandwidthErrorKind::AddrNotAvailable
    } else {
        BandwidthErrorKind::Other
    }
}

/// The error for the `error` text of an iperf3 JSON report.
pub fn classify_iperf3_message(message: &str) -> (r: BandwidthError)
    ensures
        r.kind == failure_kind(ascii_lower(message@)),
        r.message@ == "iperf3 reported a test failure"@,
{
    let l = chars_lower(chars_vec(message).as_slice());
    bandwidth_error(kind_of(l.as_slice()), "iperf3 reported a test failure")
}

/// `String::from_utf8_lossy`: the bytes as text, each invalid sequence
/// replaced.
pub uninterp spec fn utf8_lossy(bytes: Seq<u8>) -> Seq<char>;

/// `str::to_lowercase`: the Unicode lower case of a text.
pub uninterp spec fn unicode_lower(s: Seq<char>) -> Seq<char>;

/// `String::from_utf8_lossy`.
#[verifier::external_body]
fn lossy_text(bytes: &[u8]) -> (r: String)
    ensures
        r@ == utf8_lossy(bytes@),
{
    String::from_utf8_lossy(bytes).into_owned()
}

/// `str::to_lowercase`.
#[verifier::external_body]
fn lower_text(s: &str) -> (r: String)
    ensures
        r@ == unicode_lower(s@),
{
    s.to_lowercase()
}

/// The kind of a failed iperf3 run, from what it wrote to its output and
/// error streams.
pub fn iperf3_failure_kind(stdout: &[u8], stderr: &[u8]) -> (r: BandwidthErrorKind)
    ensures
        r == failure_kind(unicode_lower(utf8_lossy(stdout@)) + unicode_lower(utf8_lossy(stderr@))),
{
    let out = lower_text(lossy_text(stdout).as_str());
    let err = lower_text(lossy_text(stderr).as_str());
    diagnostic_failure_kind(out.as_str(), err.as_str())
}

/// The kind of a failed iperf3 run from its lower-cased output and error
/// texts, searched as one text.
pub fn diagnostic_failure_kind(out: &str, err: &str) -> (r: BandwidthErrorKind)
    ensures
        r == failure_kind(out@ + err@),
{
    let mut both = chars_vec(out);
    let e = chars_vec(err);
    let mut i: usize = 0;
    let ghost start = both@;
    while i < e.len()
        invariant
            i <= e@.len(),
            both@ == start + e@.take(i as int),
        decreases e@.len() - i,
    {
        both.push(e[i]);
        i = i + 1;
        assert(e@.take(i as int) =~= e@.take(i - 1).push(e@[i - 1]));
    }
    assert(e@.take(e@.len() as int) =~= e@);
    kind_of(both.as_slice())
}

/// The transfer summary of a report: received, else the sum, else sent.
pub open spec fn summary_of(doc: JsonModel) -> Option<JsonModel> {
    match doc {
        JsonModel::Object(ms) => match member(ms, "end"@) {
            Some(JsonModel::Object(end)) => match member(end, "sum_received"@) {
                Some(s) => Some(s),
                None => match member(end, "sum"@) {
                    Some(s) => Some(s),
                    None => member(end, "sum_sent"@),
                },
            },
            _ => None,
        },
        _ => None,
    }
}

/// The `error` text of a report, if it has one.
pub open spec fn report_error(doc: JsonModel) -> Option<Seq<char>> {
    match doc {
        JsonModel::Object(ms) => match member(ms, "error"@) {
            Some(JsonModel::Str(e)) => Some(e),
            _ => None,
        },
        _ => None,
    }
}

/// A number member of a summary.
pub open spec fn summary_number(summary: JsonModel, key: Seq<char>) -> Option<(Option<u64>, Seq<char>)> {
    match summary {
        JsonModel::Object(ms) => match member(ms, key) {
            Some(JsonModel::Number(n, t)) => Some((n, t)),
            _ => None,
        },
        _ => None,
    }
}

/// The byte count of a summary when it is a whole JSON number.
pub open spec fn whole_bytes(summary: JsonModel) -> Option<u64> {
    match summary_number(summary, "bytes"@) {
        Some((n, _)) => n,
        None => None,
    }
}

/// What a report says before any of its numbers is read: its error text, a
/// missing summary, or a byte count that is not a JSON number.
pub open spec fn document_fault(doc: JsonModel) -> Option<(BandwidthErrorKind, Seq<char>)> {
    match report_error(doc) {
        Some(e) => Some((failure_kind(ascii_lower(e)), "iperf3 reported a test failure"@)),
        None => match summary_of(doc) {
            None => Some((BandwidthErrorKind::InvalidData, "iperf3 JSON did not contain a transfer summary"@)),
            Some(s) => if summary_number(s, "bytes"@) is None {
                Some((BandwidthErrorKind::InvalidData, "invalid iperf3 byte count"@))
            } else {
                None
            },
        },
    }
}

/// Below this whole part a double holds every half-integer, so rounding a
/// rate's shortest round-tripping decimal text half up gives what rounding
/// the double gives.
pub const EXACT_HALVES_LIMIT: u64 = 4503599627370496;

/// Up to this value every whole number is exactly a double.
pub const EXACT_WHOLE_LIMIT: u64 = 9007199254740992;

/// A rate text of the plain form `W` or `W.F` (non-empty runs of ASCII
/// digits) with `W` below [`EXACT_HALVES_LIMIT`], rounded half up.
pub open spec fn plain_decimal_rounded(t: Seq<char>) -> Option<u64> {
    match index_of_from(t, '.', 0) {
        None => if t.len() > 0 && all_ascii_digits(t) && digits_value(t) < EXACT_HALVES_LIMIT {
            Some(digits_value(t) as u64)
        } else {
            None
        },
        Some(k) => {
            let w = t.subrange(0, k);
            let f = t.subrange(k + 1, t.len() as int);
            if w.len() > 0 && all_ascii_digits(w) && f.len() > 0 && all_ascii_digits(f) && digits_value(w)
                < EXACT_HALVES_LIMIT {
                Some((digits_value(w) + if f[0] >= '5' {
                    1int
                } else {
                    0int
                }) as u64)
            } else {
                None
            }
        },
    }
}

/// The rate a summary number gives without the host's reader: a whole
/// number that a double holds exactly, or a plain decimal text.
pub open spec fn exact_rate(n: Option<u64>, t: Seq<char>) -> Option<u64> {
    match n {
        Some(v) => if v <= EXACT_WHOLE_LIMIT {
            Some(v)
        } else {
            plain_decimal_rounded(t)
        },
        None => plain_decimal_rounded(t),
    }
}

/// The rate of a direction is the summary's own rate, whatever the test's
/// length or byte count: a whole number that a double holds exactly is taken
/// as it is, and a plain decimal `W.F` is rounded half up, to `W` or `W + 1`
/// by its first fractional digit.
pub proof fn law_reported_rate_is_the_summary_rate(
    doc: JsonModel,
    r: Result<DirectionMeasurement, BandwidthError>,
    whole: Seq<char>,
    fraction: Seq<char>,
)
    requires
        measurement_outcome(doc, r),
        r is Ok,
    ensures
        summary_number(summary_of(doc)->0, "bits_per_second"@) matches Some((n, _)) ==> (n matches Some(v)
            ==> (v <= EXACT_WHOLE_LIMIT ==> r->Ok_0.bits_per_second == v)),
        (summary_number(summary_of(doc)->0, "bits_per_second"@) matches Some((n, t)) && !(n is Some
            && n->0 <= EXACT_WHOLE_LIMIT) && t == whole + "."@ + fraction && whole.len() > 0
            && all_ascii_digits(whole) && fraction.len() > 0 && all_ascii_digits(fraction)
            && digits_value(whole) < EXACT_HALVES_LIMIT) ==> r->Ok_0.bits_per_second == digits_value(whole)
            + (if fraction[0] >= '5' {
            1int
        } else {
            0int
        }),
{
    reveal_strlit(".");
    let t = whole + "."@ + fraction;
    crate::text::lemma_index_of_from(t, '.', 0);
    if index_of_from(t, '.', 0) != Some(whole.len() as int) && all_ascii_digits(whole) && t.len() > whole.len() {
        assert(t[whole.len() as int] == '.');
        match index_of_from(t, '.', 0) {
            Some(k) => {
                assert(t[k] == whole[k]);
            },
            None => {},
        }
    }
    assert(t.subrange(0, whole.len() as int) =~= whole);
    assert(t.subrange(whole.len() + 1int, t.len() as int) =~= fraction);
}

/// The rate a summary number gives without the host's reader.
pub fn exact_rate_of(whole: Option<u64>, text: &str) -> (r: Option<u64>)
    ensures
        r == exact_rate(whole, text@),
{
    match whole {
        Some(v) => if v <= EXACT_WHOLE_LIMIT {
            Some(v)
        } else {
            read_plain_decimal(text)
        },
        None => read_plain_decimal(text),
    }
}

/// Reads a plain decimal rate text exactly, rounding half up.
pub fn read_plain_decimal(text: &str) -> (r: Option<u64>)
    ensures
        r == plain_decimal_rounded(text@),
{
    let chars = chars_vec(text);
    let dot = chars_index_of(chars.as_slice(), '.', 0);
    let (w, f) = match dot {
        Some(k) => (chars_slice(chars.as_slice(), 0, k), chars_slice(chars.as_slice(), k + 1, chars.len())),
        None => (chars_slice(chars.as_slice(), 0, chars.len()), Vec::new()),
    };
    assert(chars@.subrange(0, chars@.len() as int) =~= chars@);
    if w.len() == 0 || !chars_all_digits(w.as_slice()) {
        return None;
    }
    if dot.is_some() && (f.len() == 0 || !chars_all_digits(f.as_slice())) {
        return None;
    }
    assert(crate::text::is_ascii_digit(w@[0]));
    let v = match parse_u64(w.as_slice()) {
        Some(v) => v,
        None => {
            return None;
        },
    };
    if v >= EXACT_HALVES_LIMIT {
        return None;
    }
    if dot.is_some() && f[0] >= '5' {
        Some(v + 1)
    } else {
        Some(v)
    }
}

/// Whether `r` is what a report says of one direction: its fault, or a
/// measurement whose rate was readable and whose byte count is the whole
/// JSON number when it is one.
pub open spec fn measurement_outcome(doc: JsonModel, r: Result<DirectionMeasurement, BandwidthError>) -> bool {
    match document_fault(doc) {
        Some((kind, message)) => r matches Err(e) && e.kind == kind && e.message@ == message,
        None => {
            let s = summary_of(doc)->0;
            &&& r matches Ok(m) ==> summary_number(s, "bits_per_second"@) is Some && (whole_bytes(s) matches Some(
                b,
            ) ==> m.bytes == b)
            &&& r matches Ok(m) ==> (summary_number(s, "bits_per_second"@) matches Some((n, t)) && (exact_rate(
                n,
                t,
            ) matches Some(v) ==> m.bits_per_second == v))
            &&& (summary_number(s, "bits_per_second"@) matches Some((n, t)) && exact_rate(n, t) is Some)
                ==> !(r matches Err(e) && e.message@ == "invalid iperf3 throughput value"@)
            &&& r matches Err(e) ==> e.kind == BandwidthErrorKind::InvalidData && ((e.message@
                == "invalid iperf3 byte count"@ && whole_bytes(s) is None) || e.message@
                == "invalid iperf3 throughput value"@)
            &&& (whole_bytes(s) is Some && summary_number(s, "bits_per_second"@) is None) ==> (r matches Err(
                e,
            ) && e.message@ == "invalid iperf3 throughput value"@)
        },
    }
}

fn number_member(value: &JsonValue, key: &str) -> (r: Option<(Option<u64>, String)>)
    ensures
        match r {
            Some((n, t)) => summary_number(value@, key@) == Some((n, t@)),
            None => summary_number(value@, key@) is None,
        },
{
    match value {
        JsonValue::Object(ms) => {
            let ghost m = json_model(JsonValue::Object(*ms))->Object_0;
            assert(value@ == JsonModel::Object(m));
            match find_member(ms, key) {
                Some(j) => {
                    assert(m[j as int].1 == ms@[j as int].1@);
                    match &ms[j].1 {
                        JsonValue::Number(n) => Some((n.integer, n.text.clone())),
                        _ => None,
                    }
                },
                None => None,
            }
        },
        _ => None,
    }
}

fn object_member<'a>(value: &'a JsonValue, key: &str) -> (r: Option<&'a JsonValue>)
    ensures
        match r {
            Some(v) => value@ is Object && member(value@->Object_0, key@) == Some(v@),
            None => !(value@ is Object) || member(value@->Object_0, key@) is None,
        },
{
    match value {
        JsonValue::Object(ms) => {
            let ghost m = json_model(JsonValue::Object(*ms))->Object_0;
            assert(value@ == JsonModel::Object(m));
            match find_member(ms, key) {
                Some(j) => {
                    assert(m[j as int].1 == ms@[j as int].1@);
                    Some(&ms[j].1)
                },
                None => None,
            }
        },
        _ => None,
    }
}

/// One direction's result from iperf3's JSON report.  A report with an
/// `error` text is classified like any iperf3 failure.  The byte count is
/// taken as it is when it is a whole JSON number; the rate, and a byte count
/// given with a fraction, are read by the host, which holds floating point.
pub fn parse_iperf3_json<R: DecimalReader>(output: &[u8], reader: &R) -> (r: Result<DirectionMeasurement, BandwidthError>)
    ensures
        match json_bytes_document(output@) {
            None => r matches Err(e) && e.kind == BandwidthErrorKind::InvalidData && e.message@
                == "iperf3 returned invalid JSON"@,
            Some(doc) => measurement_outcome(doc, r),
        },
{
    match parse_json_bytes(output) {
        Some(document) => iperf3_direction_from_value(&document, reader),
        None => Err(bandwidth_error(BandwidthErrorKind::InvalidData, "iperf3 returned invalid JSON")),
    }
}

/// One direction's result from a parsed iperf3 report, as
/// [`parse_iperf3_json`] reads it.
pub fn iperf3_direction_from_value<R: DecimalReader>(document: &JsonValue, reader: &R) -> (r: Result<
    DirectionMeasurement,
    BandwidthError,
>)
    ensures
        measurement_outcome(document@, r),
{
    proof {
        reveal_strlit("invalid iperf3 byte count");
        reveal_strlit("invalid iperf3 throughput value");
        assert("invalid iperf3 byte count"@.len() != "invalid iperf3 throughput value"@.len());
    }
    match object_member(document, "error") {
        Some(JsonValue::String(e)) => {
            return Err(classify_iperf3_message(e.as_str()));
        },
        _ => {},
    }
    let summary = match object_member(document, "end") {
        Some(end) => match end {
            JsonValue::Object(_) => match object_member(end, "sum_received") {
                Some(s) => s,
                None => match object_member(end, "sum") {
                    Some(s) => s,
                    None => match object_member(end, "sum_sent") {
                        Some(s) => s,
                        None => {
                            return Err(bandwidth_error(BandwidthErrorKind::InvalidData, "iperf3 JSON did not contain a transfer summary"));
                        },
                    },
                },
            },
            _ => {
                return Err(bandwidth_error(BandwidthErrorKind::InvalidData, "iperf3 JSON did not contain a transfer summary"));
            },
        },
        None => {
            return Err(bandwidth_error(BandwidthErrorKind::InvalidData, "iperf3 JSON did not contain a transfer summary"));
        },
    };
    let bytes = match number_member(summary, "bytes") {
        Some((Some(n), _)) => n,
        Some((None, text)) => match reader.read_whole(text.as_str()) {
            Some(n) => n,
            None => {
                return Err(bandwidth_error(BandwidthErrorKind::InvalidData, "invalid iperf3 byte count"));
            },
        },
        None => {
            return Err(bandwidth_error(BandwidthErrorKind::InvalidData, "invalid iperf3 byte count"));
        },
    };
    let bits_per_second = match number_member(summary, "bits_per_second") {
        Some((whole, text)) => match exact_rate_of(whole, text.as_str()) {
            Some(n) => n,
            None => match reader.read_rounded(text.as_str()) {
                Some(n) => n,
                None => {
                    return Err(bandwidth_error(BandwidthErrorKind::InvalidData, "invalid iperf3 throughput value"));
                },
            },
        },
        None => {
            return Err(bandwidth_error(BandwidthErrorKind::InvalidData, "invalid iperf3 throughput value"));
        },
    };
    Ok(DirectionMeasurement { bits_per_second, bytes })
}

// ---------------------------------------------------------------------------
// Keeping the server aligned with the active address
// ---------------------------------------------------------------------------

/// What the host does for the bundled server after one look at it.
#[derive(Clone, Debug, PartialEq, Eq)]
pub struct ServerStep {
    /// Stop the running server.
    pub stop: bool,
    /// Start a server bound to this address.
    pub start: Option<String>,
}

/// The server's supervision: the address it should be bound to, whether one
/// runs, and when a failed one may be started again.
pub struct Iperf3ServerPolicy {
    configured: Option<String>,
    running: bool,
    retry_at_ms: u64,
}

pub ghost struct ServerModel {
    pub configured: Option<Seq<char>>,
    pub running: bool,
    pub retry_at_ms: u64,
}

impl View for Iperf3ServerPolicy {
    type V = ServerModel;

    closed spec fn view(&self) -> ServerModel {
        ServerModel {
            configured: crate::protocol::opt_text(self.configured),
            running: self.running,
            retry_at_ms: self.retry_at_ms,
        }
    }
}

pub open spec fn later(now_ms: u64) -> u64 {
    if now_ms + 2000 > u64::MAX {
        u64::MAX
    } else {
        (now_ms + 2000) as u64
    }
}

/// One look at the server: a changed address stops the server and allows an
/// immediate start; a server that exited is started again two seconds later;
/// nothing runs without an address.
pub open spec fn server_poll(s: ServerModel, desired: Option<Seq<char>>, exited: bool, now_ms: u64) -> (ServerModel, bool, Option<Seq<char>>) {
    let changed = desired != s.configured;
    let s1 = if changed {
        ServerModel { configured: desired, running: false, retry_at_ms: now_ms }
    } else {
        s
    };
    let stop = changed && s.running;
    let s2 = if !changed && s1.running && exited {
        ServerModel { running: false, retry_at_ms: later(now_ms), ..s1 }
    } else {
        s1
    };
    let start = if !s2.running && now_ms >= s2.retry_at_ms {
        s2.configured
    } else {
        None
    };
    (s2, stop, start)
}

/// The listener follows the active address: without an address nothing is
/// started; a changed address stops a running listener and starts one on
/// the new address at once; and a listener that exited is not restarted
/// before its delay has passed.
pub proof fn law_server_follows_the_address(s: ServerModel, desired: Option<Seq<char>>, exited: bool, now_ms: u64)
    ensures
        desired is None ==> server_poll(s, desired, exited, now_ms).2 is None,
        desired != s.configured ==> server_poll(s, desired, exited, now_ms).1 == s.running
            && server_poll(s, desired, exited, now_ms).2 == desired,
        desired == s.configured && s.running && exited && now_ms < u64::MAX - 2000 ==> server_poll(
            s,
            desired,
            exited,
            now_ms,
        ).2 is None,
{
}

impl Iperf3ServerPolicy {
    pub fn new() -> (r: Self)
        ensures
            r@ == (ServerModel { configured: None, running: false, retry_at_ms: 0 }),
    {
        Iperf3ServerPolicy { configured: None, running: false, retry_at_ms: 0 }
    }

    /// Looks at the server once.  `desired` is the address of the active
    /// profile, and `exited` whether the running server has exited.
    pub fn poll(&mut self, desired: Option<String>, exited: bool, now_ms: u64) -> (r: ServerStep)
        ensures
            server_poll(old(self)@, crate::protocol::opt_text(desired), exited, now_ms) == (
                final(self)@,
                r.stop,
                crate::protocol::opt_text(r.start),
            ),
    {
        let changed = match (&desired, &self.configured) {
            (Some(a), Some(b)) => !str_eq(a.as_str(), b.as_str()),
            (None, None) => false,
            _ => true,
        };
        let mut stop = false;
        if changed {
            stop = self.running;
            self.configured = desired;
            self.running = false;
            self.retry_at_ms = now_ms;
        } else if self.running && exited {
            self.running = false;
            self.retry_at_ms = now_ms.saturating_add(SERVER_RESTART_DELAY_MS);
        }
        let start = if !self.running && now_ms >= self.retry_at_ms {
            match &self.configured {
                Some(a) => Some(a.clone()),
                None => None,
            }
        } else {
            None
        };
        ServerStep { stop, start }
    }

    /// Records the outcome of a start the last look asked for.
    pub fn started(&mut self, ok: bool, now_ms: u64)
        ensures
            final(self)@ == if ok {
                ServerModel { running: true, ..old(self)@ }
            } else {
                ServerModel { retry_at_ms: later(now_ms), ..old(self)@ }
            },
    {
        if ok {
            self.running = true;
        } else {
            self.retry_at_ms = now_ms.saturating_add(SERVER_RESTART_DELAY_MS);
        }
    }
}

} // verus!
