//! Reading the JSON that the bundled `easytier-cli` prints about a running
//! core: its peers, its routes and its traffic counters.
//!
//! `serde_json` parses the text; these rules read the parsed values.  The
//! CLI's list may stand at the top or under one of a few known keys; nothing
//! else is guessed.

use vstd::prelude::*;

use crate::profile::texts;
use crate::protocol::{peer_models, ConnectedPeer, PeerModel};
use crate::supervisor::HealthSample;
use crate::text::{
    append_str, char_rows, pieces_from, push_char, split_chars,
    ascii_lower, chars_eq, chars_index_of, chars_last_index_of, chars_lower, chars_slice,
    chars_trim, chars_vec, index_of_from, last_index_before, owned, str_eq, string_from_chars,
    trim, lemma_index_of_from,
};

verus! {

broadcast use vstd::string::group_string_axioms;

/// A JSON number: its value when it is a whole number that fits a `u64`,
/// and its text.
pub struct JsonNumber {
    pub integer: Option<u64>,
    pub text: String,
}

/// A parsed JSON value.  An object's members are in key order, each key once.
pub enum JsonValue {
    Null,
    Bool(bool),
    Number(JsonNumber),
    String(String),
    Array(Vec<JsonValue>),
    Object(Vec<(String, JsonValue)>),
}

/// The mathematical form of a [`JsonValue`].
pub ghost enum JsonModel {
    Null,
    Bool(bool),
    Number(Option<u64>, Seq<char>),
    Str(Seq<char>),
    Array(Seq<JsonModel>),
    Object(Seq<(Seq<char>, JsonModel)>),
}

pub open spec fn json_model(v: JsonValue) -> JsonModel
    decreases v,
{
    match v {
        JsonValue::Null => JsonModel::Null,
        JsonValue::Bool(b) => JsonModel::Bool(b),
        JsonValue::Number(n) => JsonModel::Number(n.integer, n.text@),
        JsonValue::String(s) => JsonModel::Str(s@),
        JsonValue::Array(items) => JsonModel::Array(
            Seq::new(
                items@.len(),
                |i: int|
                    if 0 <= i < items@.len() {
                        proof {
                            vstd::std_specs::vec::axiom_vec_index_decreases(items, i);
                        }
                        json_model(items@[i])
                    } else {
                        JsonModel::Null
                    },
            ),
        ),
        JsonValue::Object(members) => JsonModel::Object(
            Seq::new(
                members@.len(),
                |i: int|
                    if 0 <= i < members@.len() {
                        proof {
                            vstd::std_specs::vec::axiom_vec_index_decreases(members, i);
                        }
                        (members@[i].0@, json_model(members@[i].1))
                    } else {
                        (Seq::empty(), JsonModel::Null)
                    },
            ),
        ),
    }
}

impl View for JsonValue {
    type V = JsonModel;

    open spec fn view(&self) -> JsonModel {
        json_model(*self)
    }
}

/// What `serde_json::from_str` makes of a text, or `None` when it is not
/// JSON.
pub uninterp spec fn json_document(input: Seq<char>) -> Option<JsonModel>;

/// Declares `serde_json::Value` so the conversion below can name it.
#[verifier::external_type_specification]
#[verifier::external_body]
pub struct ExJsonValue(serde_json::Value);

/// Converts a `serde_json::Value`, variant by variant.
#[verifier::external_body]
fn from_json_value(value: serde_json::Value) -> JsonValue {
    match value {
        serde_json::Value::Null => JsonValue::Null,
        serde_json::Value::Bool(b) => JsonValue::Bool(b),
        serde_json::Value::Number(n) => JsonValue::Number(
            JsonNumber { integer: n.as_u64(), text: n.to_string() },
        ),
        serde_json::Value::String(s) => JsonValue::String(s),
        serde_json::Value::Array(a) => JsonValue::Array(a.into_iter().map(from_json_value).collect()),
        serde_json::Value::Object(o) => JsonValue::Object(
            o.into_iter().map(|(k, v)| (k, from_json_value(v))).collect(),
        ),
    }
}

/// `serde_json::from_str` into a `serde_json::Value`.
#[verifier::external_body]
fn parse_json(input: &str) -> (r: Option<JsonValue>)
    ensures
        match r {
            Some(v) => json_document(input@) == Some(v@),
            None => json_document(input@) is None,
        },
{
    serde_json::from_str::<serde_json::Value>(input).ok().map(from_json_value)
}

/// What `serde_json::from_slice` makes of bytes, or `None` when they are not
/// JSON.
pub uninterp spec fn json_bytes_document(input: Seq<u8>) -> Option<JsonModel>;

/// `serde_json::from_slice` into a `serde_json::Value`.
#[verifier::external_body]
pub(crate) fn parse_json_bytes(input: &[u8]) -> (r: Option<JsonValue>)
    ensures
        match r {
            Some(v) => json_bytes_document(input@) == Some(v@),
            None => json_bytes_document(input@) is None,
        },
{
    serde_json::from_slice::<serde_json::Value>(input).ok().map(from_json_value)
}

// ---------------------------------------------------------------------------
// Finding the CLI's list
// ---------------------------------------------------------------------------

/// The position of the member named `key`.
pub open spec fn member_index(members: Seq<(Seq<char>, JsonModel)>, key: Seq<char>, from: int) -> Option<int>
    decreases members.len() - from,
{
    if from < 0 || from >= members.len() {
        None
    } else if members[from].0 == key {
        Some(from)
    } else {
        member_index(members, key, from + 1)
    }
}

/// The value of the member named `key`.
pub open spec fn member(members: Seq<(Seq<char>, JsonModel)>, key: Seq<char>) -> Option<JsonModel> {
    match member_index(members, key, 0) {
        Some(j) => Some(members[j].1),
        None => None,
    }
}

pub proof fn lemma_member_index(members: Seq<(Seq<char>, JsonModel)>, key: Seq<char>, from: int)
    requires
        0 <= from,
    ensures
        match member_index(members, key, from) {
            Some(j) => from <= j < members.len() && members[j].0 == key,
            None => forall|j: int| from <= j < members.len() ==> members[j].0 != key,
        },
    decreases members.len() - from,
{
    if 0 <= from < members.len() && members[from].0 != key {
        lemma_member_index(members, key, from + 1);
    }
}

/// The list that the CLI printed: the value itself when it is an array, or
/// the list found under the first of `keys` that leads to one.
pub open spec fn list_at(v: JsonModel, keys: Seq<Seq<char>>) -> Option<Seq<JsonModel>>
    decreases v, keys.len() + 1,
{
    match v {
        JsonModel::Array(items) => Some(items),
        JsonModel::Object(members) => list_under(v, keys, 0),
        _ => None,
    }
}

/// The list under the first of `keys[k..]` that leads to one.
pub open spec fn list_under(v: JsonModel, keys: Seq<Seq<char>>, k: int) -> Option<Seq<JsonModel>>
    decreases v, keys.len() - k,
{
    if k < 0 || k >= keys.len() {
        None
    } else {
        match v {
            JsonModel::Object(members) => match member_index(members, keys[k], 0) {
                Some(j) => if 0 <= j < members.len() {
                    match list_at(members[j].1, keys) {
                        Some(items) => Some(items),
                        None => list_under(v, keys, k + 1),
                    }
                } else {
                    None
                },
                None => list_under(v, keys, k + 1),
            },
            _ => None,
        }
    }
}

pub open spec fn peer_list_keys() -> Seq<Seq<char>> {
    seq!["peers"@, "peer_infos"@, "peer_info"@, "peer_list"@, "items"@, "data"@, "result"@]
}

pub open spec fn route_list_keys() -> Seq<Seq<char>> {
    seq!["routes"@, "route_list"@, "items"@, "data"@, "result"@]
}

pub open spec fn stats_list_keys() -> Seq<Seq<char>> {
    seq!["stats"@, "metrics"@, "items"@, "data"@, "result"@]
}

/// The member named `key`, found by position.
pub(crate) fn find_member(members: &Vec<(String, JsonValue)>, key: &str) -> (r: Option<usize>)
    ensures
        match r {
            Some(j) => member_index(json_model(JsonValue::Object(*members))->Object_0, key@, 0)
                == Some(j as int) && j < members@.len(),
            None => member_index(json_model(JsonValue::Object(*members))->Object_0, key@, 0) is None,
        },
{
    let ghost ms = json_model(JsonValue::Object(*members))->Object_0;
    let mut i: usize = 0;
    while i < members.len()
        invariant
            i <= members@.len(),
            ms == json_model(JsonValue::Object(*members))->Object_0,
            ms.len() == members@.len(),
            member_index(ms, key@, 0) == member_index(ms, key@, i as int),
        decreases members@.len() - i,
    {
        assert(ms[i as int].0 == members@[i as int].0@);
        if str_eq(members[i].0.as_str(), key) {
            return Some(i);
        }
        i = i + 1;
    }
    None
}

/// The list under `keys`, as [`list_at`] finds it.
fn list_in<'a>(value: &'a JsonValue, keys: &[&'static str], spec_keys: Ghost<Seq<Seq<char>>>) -> (r: Option<&'a Vec<JsonValue>>)
    requires
        keys@.len() == spec_keys@.len(),
        forall|k: int| 0 <= k < keys@.len() ==> #[trigger] keys@[k]@ == spec_keys@[k],
    ensures
        match r {
            Some(items) => list_at(value@, spec_keys@) == Some(json_model(JsonValue::Array(*items))->Array_0),
            None => list_at(value@, spec_keys@) is None,
        },
    decreases *value,
{
    match value {
        JsonValue::Array(items) => Some(items),
        JsonValue::Object(members) => {
            let ghost v = value@;
            let ghost ms = json_model(JsonValue::Object(*members))->Object_0;
            assert(v == JsonModel::Object(ms));
            let mut k: usize = 0;
            while k < keys.len()
                invariant
                    k <= keys@.len(),
                    keys@.len() == spec_keys@.len(),
                    forall|q: int| 0 <= q < keys@.len() ==> #[trigger] keys@[q]@ == spec_keys@[q],
                    v == value@,
                    v == JsonModel::Object(ms),
                    ms == json_model(JsonValue::Object(*members))->Object_0,
                    *value == JsonValue::Object(*members),
                    list_at(v, spec_keys@) == list_under(v, spec_keys@, k as int),
                decreases keys@.len() - k,
            {
                assert(keys@[k as int]@ == spec_keys@[k as int]);
                match find_member(members, keys[k]) {
                    None => {
                        assert(list_under(v, spec_keys@, k as int) == list_under(v, spec_keys@, k + 1));
                    },
                    Some(j) => {
                        proof {
                            vstd::std_specs::vec::axiom_vec_index_decreases(*members, j as int);
                        }
                        assert(ms[j as int].1 == members@[j as int].1@);
                        assert(member_index(ms, spec_keys@[k as int], 0) == Some(j as int));
                        match list_in(&members[j].1, keys, spec_keys) {
                            Some(items) => {
                                assert(list_at(ms[j as int].1, spec_keys@) == Some(json_model(JsonValue::Array(*items))->Array_0));
                                assert(list_under(v, spec_keys@, k as int) == Some(json_model(JsonValue::Array(*items))->Array_0));
                                return Some(items);
                            },
                            None => {
                                assert(list_under(v, spec_keys@, k as int) == list_under(v, spec_keys@, k + 1));
                            },
                        }
                    },
                }
                k = k + 1;
            }
            None
        },
        _ => None,
    }
}

// ---------------------------------------------------------------------------
// Counting
// ---------------------------------------------------------------------------

/// The length of the list under `keys` in the CLI output `output`.
pub open spec fn list_len(output: Seq<char>, keys: Seq<Seq<char>>) -> Option<nat> {
    match json_document(output) {
        Some(v) => match list_at(v, keys) {
            Some(items) => Some(items.len()),
            None => None,
        },
        None => None,
    }
}

/// The number of entries of the list under `keys` in a parsed CLI answer.
fn list_count(value: &JsonValue, keys: &[&'static str], spec_keys: Ghost<Seq<Seq<char>>>) -> (r: Option<usize>)
    requires
        keys@.len() == spec_keys@.len(),
        forall|k: int| 0 <= k < keys@.len() ==> #[trigger] keys@[k]@ == spec_keys@[k],
    ensures
        match r {
            Some(n) => list_at(value@, spec_keys@) matches Some(items) && items.len() == n,
            None => list_at(value@, spec_keys@) is None,
        },
{
    match list_in(value, keys, spec_keys) {
        Some(items) => Some(items.len()),
        None => None,
    }
}

/// The number of rows of a parsed `easytier-cli peer list` answer, the
/// local node included.
pub fn peer_count_from_cli_value(value: &JsonValue) -> (r: Option<usize>)
    ensures
        match r {
            Some(n) => list_at(value@, peer_list_keys()) matches Some(items) && items.len() == n,
            None => list_at(value@, peer_list_keys()) is None,
        },
{
    let keys: [&'static str; 7] = ["peers", "peer_infos", "peer_info", "peer_list", "items", "data", "result"];
    assert(keys@ =~= seq!["peers", "peer_infos", "peer_info", "peer_list", "items", "data", "result"]);
    list_count(value, &keys, Ghost(peer_list_keys()))
}

/// The number of rows of `easytier-cli peer list` output, the local node
/// included.
pub fn peer_count_from_cli_json(output: &str) -> (r: Option<usize>)
    ensures
        match r {
            Some(n) => list_len(output@, peer_list_keys()) == Some(n as nat),
            None => list_len(output@, peer_list_keys()) is None,
        },
{
    let value = parse_json(output)?;
    peer_count_from_cli_value(&value)
}

/// The number of routes in a parsed `easytier-cli route list` answer.
pub fn route_count_from_cli_value(value: &JsonValue) -> (r: Option<usize>)
    ensures
        match r {
            Some(n) => list_at(value@, route_list_keys()) matches Some(items) && items.len() == n,
            None => list_at(value@, route_list_keys()) is None,
        },
{
    let keys: [&'static str; 5] = ["routes", "route_list", "items", "data", "result"];
    assert(keys@ =~= seq!["routes", "route_list", "items", "data", "result"]);
    list_count(value, &keys, Ghost(route_list_keys()))
}

/// The number of routes in `easytier-cli route list` output.
pub fn route_count_from_cli_json(output: &str) -> (r: Option<usize>)
    ensures
        match r {
            Some(n) => list_len(output@, route_list_keys()) == Some(n as nat),
            None => list_len(output@, route_list_keys()) is None,
        },
{
    let value = parse_json(output)?;
    route_count_from_cli_value(&value)
}

// ---------------------------------------------------------------------------
// Transport labels
// ---------------------------------------------------------------------------

/// At most this many transports are kept for one peer.
pub const MAX_PROTOCOLS_PER_PEER: usize = 12;

/// A transport label longer than this is refused.
pub const MAX_PROTOCOL_TOKEN_BYTES: usize = 48;

/// At most this many comma-separated parts, or array items, of one value
/// are read.
pub const MAX_PROTOCOL_PARTS_PER_VALUE: usize = 48;

pub open spec fn is_label_char(c: char) -> bool {
    ('a' <= c && c <= 'z') || ('0' <= c && c <= '9') || c == '-' || c == '_'
}

pub open spec fn all_ascii(s: Seq<char>) -> bool {
    forall|i: int| 0 <= i < s.len() ==> crate::text::is_ascii_char(#[trigger] s[i])
}

pub open spec fn driver_names() -> Seq<Seq<char>> {
    seq!["pnet"@, "windivert"@, "bpf"@]
}

pub open spec fn transport_names() -> Seq<Seq<char>> {
    seq!["tcp"@, "udp"@, "wg"@, "ws"@, "wss"@, "quic"@, "faketcp"@, "ring"@, "unix"@]
}

pub open spec fn prefix_names() -> Seq<Seq<char>> {
    seq!["txt"@, "srv"@, "http"@, "https"@, "dns"@]
}

/// Whether `t`, without a connector prefix and `6` suffix, is a transport of
/// the bundled core.
pub open spec fn known_transport(t: Seq<char>) -> bool {
    match index_of_from(t, '_', 0) {
        Some(i) => t.take(i) == "faketcp"@ && driver_names().contains(t.skip(i + 1)),
        None => transport_names().contains(t),
    }
}

/// Whether `p` is a connector prefix of the bundled core.
pub open spec fn known_prefix(p: Seq<char>) -> bool {
    p.len() == 0 || prefix_names().contains(p)
}

/// A transport label as the service shows it: trimmed, lower case, and one
/// of the core's transports with an optional connector prefix and an
/// optional `6`.  Anything else, such as a peer's arbitrary metadata, is
/// dropped.
pub open spec fn sanitized_protocol(value: Seq<char>) -> Option<Seq<char>> {
    let v = trim(value);
    if v.len() == 0 || v == "-"@ || v.len() > 48 || !all_ascii(v) {
        None
    } else {
        let l = ascii_lower(v);
        if !(forall|i: int| 0 <= i < l.len() ==> is_label_char(#[trigger] l[i])) {
            None
        } else {
            let (prefix, t0) = match last_index_before(l, '-', l.len() as int) {
                Some(i) => (l.take(i), l.skip(i + 1)),
                None => (Seq::<char>::empty(), l),
            };
            let t = if t0.len() > 0 && t0.last() == '6' {
                t0.drop_last()
            } else {
                t0
            };
            if known_transport(t) && known_prefix(prefix) {
                Some(l)
            } else {
                None
            }
        }
    }
}

fn is_one_of(s: &[char], options: &[&'static str], spec_options: Ghost<Seq<Seq<char>>>) -> (r: bool)
    requires
        options@.len() == spec_options@.len(),
        forall|k: int| 0 <= k < options@.len() ==> #[trigger] options@[k]@ == spec_options@[k],
    ensures
        r == spec_options@.contains(s@),
{
    let mut k: usize = 0;
    while k < options.len()
        invariant
            k <= options@.len(),
            options@.len() == spec_options@.len(),
            forall|q: int| 0 <= q < options@.len() ==> #[trigger] options@[q]@ == spec_options@[q],
            forall|q: int| 0 <= q < k ==> spec_options@[q] != s@,
        decreases options@.len() - k,
    {
        assert(options@[k as int]@ == spec_options@[k as int]);
        if str_eq_chars(s, options[k]) {
            return true;
        }
        k = k + 1;
    }
    false
}

fn str_eq_chars(s: &[char], t: &str) -> (r: bool)
    ensures
        r == (s@ == t@),
{
    let tc = chars_vec(t);
    chars_eq(s, tc.as_slice())
}

pub fn sanitize_tunnel_protocol(value: &str) -> (r: Option<String>)
    ensures
        match r {
            Some(p) => sanitized_protocol(value@) == Some(p@),
            None => sanitized_protocol(value@) is None,
        },
{
    let v = chars_trim(chars_vec(value).as_slice());
    let mut ascii = true;
    let mut i: usize = 0;
    while i < v.len()
        invariant
            i <= v@.len(),
            ascii == forall|j: int| 0 <= j < i ==> crate::text::is_ascii_char(#[trigger] v@[j]),
        decreases v@.len() - i,
    {
        if (v[i] as u32) >= 0x80 {
            ascii = false;
        }
        i = i + 1;
    }
    assert(v@ == trim(value@));
    if v.len() == 0 || v.len() > 48 || !ascii {
        return None;
    }
    if v.len() == 1 && v[0] == '-' {
        assert(v@ =~= "-"@) by {
            reveal_strlit("-");
        }
        return None;
    }
    assert(v@ != "-"@) by {
        reveal_strlit("-");
    }
    let l = chars_lower(v.as_slice());
    let mut k: usize = 0;
    while k < l.len()
        invariant
            k <= l@.len(),
            forall|j: int| 0 <= j < k ==> is_label_char(#[trigger] l@[j]),
            v@ == trim(value@),
            0 < v@.len() <= 48,
            all_ascii(v@),
            v@ != "-"@,
            l@ == ascii_lower(v@),
        decreases l@.len() - k,
    {
        let c = l[k];
        if !(('a' <= c && c <= 'z') || ('0' <= c && c <= '9') || c == '-' || c == '_') {
            assert(!is_label_char(l@[k as int]));
            return None;
        }
        k = k + 1;
    }
    let (prefix, t0) = match chars_last_index_of(l.as_slice(), '-') {
        Some(i) => (chars_slice(l.as_slice(), 0, i), chars_slice(l.as_slice(), i + 1, l.len())),
        None => (Vec::new(), chars_slice(l.as_slice(), 0, l.len())),
    };
    assert(l@.subrange(0, l@.len() as int) =~= l@);
    proof {
        match last_index_before(l@, '-', l@.len() as int) {
            Some(i) => {
                assert(prefix@ =~= l@.take(i));
                assert(t0@ =~= l@.skip(i + 1));
            },
            None => {
                assert(prefix@ =~= Seq::<char>::empty());
            },
        }
    }
    let t = if t0.len() > 0 && t0[t0.len() - 1] == '6' {
        chars_slice(t0.as_slice(), 0, t0.len() - 1)
    } else {
        chars_slice(t0.as_slice(), 0, t0.len())
    };
    assert(t0@.subrange(0, t0@.len() as int) =~= t0@);
    assert(t0@.len() > 0 ==> t0@.subrange(0, t0@.len() - 1) =~= t0@.drop_last());
    let transport_ok = match chars_index_of(t.as_slice(), '_', 0) {
        Some(i) => {
            let head = chars_slice(t.as_slice(), 0, i);
            let driver = chars_slice(t.as_slice(), i + 1, t.len());
            let drivers: [&'static str; 3] = ["pnet", "windivert", "bpf"];
            assert(drivers@ =~= seq!["pnet", "windivert", "bpf"]);
            let ok = str_eq_chars(head.as_slice(), "faketcp") && is_one_of(
                driver.as_slice(),
                &drivers,
                Ghost(driver_names()),
            );
            assert(head@ =~= t@.take(i as int));
            assert(driver@ =~= t@.skip(i + 1));
            ok
        },
        None => {
            let names: [&'static str; 9] = ["tcp", "udp", "wg", "ws", "wss", "quic", "faketcp", "ring", "unix"];
            assert(names@ =~= seq!["tcp", "udp", "wg", "ws", "wss", "quic", "faketcp", "ring", "unix"]);
            is_one_of(
                t.as_slice(),
                &names,
                Ghost(transport_names()),
            )
        },
    };
    let prefixes: [&'static str; 5] = ["txt", "srv", "http", "https", "dns"];
    assert(prefixes@ =~= seq!["txt", "srv", "http", "https", "dns"]);
    let prefix_ok = prefix.len() == 0 || is_one_of(
        prefix.as_slice(),
        &prefixes,
        Ghost(prefix_names()),
    );
    if transport_ok && prefix_ok {
        Some(string_from_chars(l.as_slice()))
    } else {
        None
    }
}

/// The parts of a comma-separated value that are read: at most
/// [`MAX_PROTOCOL_PARTS_PER_VALUE`] of them.
pub open spec fn protocol_parts(s: Seq<char>) -> Seq<Seq<char>> {
    let parts = pieces_from(s, ',', 0);
    if parts.len() <= 48 {
        parts
    } else {
        parts.take(48)
    }
}

/// Adds the sanitized labels of `parts[i..]` to `acc`, skipping repeats and
/// stopping once `acc` holds twelve.
pub open spec fn add_parts(parts: Seq<Seq<char>>, i: int, acc: Seq<Seq<char>>) -> Seq<Seq<char>>
    decreases parts.len() - i,
{
    if i < 0 || i >= parts.len() {
        acc
    } else {
        match sanitized_protocol(parts[i]) {
            None => add_parts(parts, i + 1, acc),
            Some(p) => if acc.contains(p) {
                add_parts(parts, i + 1, acc)
            } else if acc.len() + 1 == 12 {
                acc.push(p)
            } else {
                add_parts(parts, i + 1, acc.push(p))
            },
        }
    }
}

/// Adds the transports of one CLI value to `acc`: a comma-separated text, or
/// an array of such values.
pub open spec fn add_protocols(v: JsonModel, acc: Seq<Seq<char>>) -> Seq<Seq<char>>
    decreases v, 49int,
{
    match v {
        JsonModel::Str(s) => add_parts(protocol_parts(s), 0, acc),
        JsonModel::Array(items) => add_items(v, 0, acc),
        _ => acc,
    }
}

/// Adds the transports of the array items `i..` of `v`, at most 48 items,
/// until `acc` holds twelve.
pub open spec fn add_items(v: JsonModel, i: int, acc: Seq<Seq<char>>) -> Seq<Seq<char>>
    decreases v, 48 - i,
{
    match v {
        JsonModel::Array(items) => if i < 0 || i >= items.len() || i >= 48 || acc.len() == 12 {
            acc
        } else {
            add_items(v, i + 1, add_protocols(items[i], acc))
        },
        _ => acc,
    }
}

pub open spec fn protocol_keys() -> Seq<Seq<char>> {
    seq!["tunnel_proto"@, "tunnel_protocol"@, "tunnel_protos"@, "tunnel_protocols"@]
}

/// The transports of a CLI peer row, read from its protocol members in
/// order until twelve are known.
pub open spec fn row_protocols_from(members: Seq<(Seq<char>, JsonModel)>, k: int, acc: Seq<Seq<char>>) -> Seq<Seq<char>>
    decreases 4 - k,
{
    if k < 0 || k >= 4 {
        acc
    } else {
        match member(members, protocol_keys()[k]) {
            None => row_protocols_from(members, k + 1, acc),
            Some(v) => {
                let a = add_protocols(v, acc);
                if a.len() == 12 {
                    a
                } else {
                    row_protocols_from(members, k + 1, a)
                }
            },
        }
    }
}

pub open spec fn row_protocols(members: Seq<(Seq<char>, JsonModel)>) -> Seq<Seq<char>> {
    row_protocols_from(members, 0, Seq::empty())
}

fn contains_string(v: &Vec<String>, s: &str) -> (r: bool)
    ensures
        r == texts(v@).contains(s@),
{
    let mut i: usize = 0;
    while i < v.len()
        invariant
            i <= v@.len(),
            forall|j: int| 0 <= j < i ==> texts(v@)[j] != s@,
        decreases v@.len() - i,
    {
        if str_eq(v[i].as_str(), s) {
            assert(texts(v@)[i as int] == s@);
            return true;
        }
        i = i + 1;
    }
    proof {
        if texts(v@).contains(s@) {
            let j = choose|j: int| 0 <= j < texts(v@).len() && texts(v@)[j] == s@;
            assert(texts(v@)[j] != s@);
        }
    }
    false
}

fn push_text(v: &mut Vec<String>, s: String)
    ensures
        texts(final(v)@) == texts(old(v)@).push(s@),
{
    v.push(s);
    assert(texts(v@) =~= texts(old(v)@).push(s@));
}

/// Adds the sanitized labels of a comma-separated text.
fn append_text_protocols(value: &str, protocols: &mut Vec<String>)
    ensures
        texts(final(protocols)@) == add_parts(protocol_parts(value@), 0, texts(old(protocols)@)),
{
    let parts = split_chars(chars_vec(value).as_slice(), ',');
    let ghost all = pieces_from(value@, ',', 0);
    let ghost read = protocol_parts(value@);
    let n = if parts.len() <= 48 {
        parts.len()
    } else {
        48
    };
    assert(read.len() == n);
    let mut i: usize = 0;
    while i < n
        invariant
            i <= n <= parts@.len(),
            char_rows(parts@) == all,
            read == protocol_parts(value@),
            read.len() == n,
            all == pieces_from(value@, ',', 0),
            n <= 48,
            add_parts(read, 0, texts(old(protocols)@)) == add_parts(read, i as int, texts(protocols@)),
        decreases n - i,
    {
        let ghost acc = texts(protocols@);
        assert(read[i as int] == parts@[i as int]@);
        let part = string_from_chars(parts[i].as_slice());
        match sanitize_tunnel_protocol(part.as_str()) {
            None => {},
            Some(p) => {
                if !contains_string(protocols, p.as_str()) {
                    push_text(protocols, p);
                    if protocols.len() == 12 {
                        return;
                    }
                }
            },
        }
        i = i + 1;
    }
}

/// Adds the transports of one CLI value, as [`add_protocols`] reads it.
fn append_cli_protocols(value: &JsonValue, protocols: &mut Vec<String>)
    ensures
        texts(final(protocols)@) == add_protocols(value@, texts(old(protocols)@)),
    decreases *value,
{
    match value {
        JsonValue::String(s) => {
            append_text_protocols(s.as_str(), protocols);
        },
        JsonValue::Array(items) => {
            let ghost v = value@;
            let ghost ms = json_model(JsonValue::Array(*items))->Array_0;
            assert(v == JsonModel::Array(ms));
            let mut i: usize = 0;
            while i < items.len()
                invariant
                    i <= items@.len(),
                    v == value@,
                    v == JsonModel::Array(ms),
                    ms == json_model(JsonValue::Array(*items))->Array_0,
                    ms.len() == items@.len(),
                    *value == JsonValue::Array(*items),
                    i <= 48,
                    add_items(v, 0, texts(old(protocols)@)) == add_items(v, i as int, texts(protocols@)),
                decreases items@.len() - i,
            {
                if i >= 48 || protocols.len() == 12 {
                    return;
                }
                proof {
                    vstd::std_specs::vec::axiom_vec_index_decreases(*items, i as int);
                }
                assert(ms[i as int] == items@[i as int]@);
                append_cli_protocols(&items[i], protocols);
                i = i + 1;
            }
        },
        _ => {},
    }
}

/// The transports of a CLI peer row.
fn cli_protocols(members: &Vec<(String, JsonValue)>) -> (r: Vec<String>)
    ensures
        texts(r@) == row_protocols(json_model(JsonValue::Object(*members))->Object_0),
{
    let ghost ms = json_model(JsonValue::Object(*members))->Object_0;
    let keys: [&'static str; 4] = ["tunnel_proto", "tunnel_protocol", "tunnel_protos", "tunnel_protocols"];
    assert(keys@ =~= seq!["tunnel_proto", "tunnel_protocol", "tunnel_protos", "tunnel_protocols"]);
    let mut protocols: Vec<String> = Vec::new();
    assert(texts(protocols@) =~= Seq::<Seq<char>>::empty());
    let mut k: usize = 0;
    while k < 4
        invariant
            k <= 4,
            keys@.len() == 4,
            forall|q: int| 0 <= q < 4 ==> #[trigger] keys@[q]@ == protocol_keys()[q],
            ms == json_model(JsonValue::Object(*members))->Object_0,
            row_protocols(ms) == row_protocols_from(ms, k as int, texts(protocols@)),
        decreases 4 - k,
    {
        assert(keys@[k as int]@ == protocol_keys()[k as int]);
        match find_member(members, keys[k]) {
            None => {},
            Some(j) => {
                assert(ms[j as int].1 == members@[j as int].1@);
                append_cli_protocols(&members[j].1, &mut protocols);
                if protocols.len() == 12 {
                    return protocols;
                }
            },
        }
        k = k + 1;
    }
    protocols
}

/// The transports joined by commas, or `None` when there are none.
pub open spec fn protocol_csv_text(protocols: Seq<Seq<char>>) -> Option<Seq<char>> {
    if protocols.len() == 0 {
        None
    } else {
        Some(joined(protocols))
    }
}

/// `protocols` joined by commas.
pub open spec fn joined(protocols: Seq<Seq<char>>) -> Seq<char>
    decreases protocols.len(),
{
    if protocols.len() == 0 {
        Seq::empty()
    } else if protocols.len() == 1 {
        protocols[0]
    } else {
        joined(protocols.drop_last()) + seq![','] + protocols.last()
    }
}

pub fn protocol_csv(protocols: &Vec<String>) -> (r: Option<String>)
    ensures
        match r {
            Some(t) => protocol_csv_text(texts(protocols@)) == Some(t@),
            None => protocol_csv_text(texts(protocols@)) is None,
        },
{
    if protocols.len() == 0 {
        return None;
    }
    let mut r = protocols[0].clone();
    let mut i: usize = 1;
    assert(texts(protocols@).take(1).drop_last() =~= Seq::<Seq<char>>::empty());
    while i < protocols.len()
        invariant
            1 <= i <= protocols@.len(),
            r@ == joined(texts(protocols@).take(i as int)),
        decreases protocols@.len() - i,
    {
        assert(texts(protocols@).take(i + 1).drop_last() =~= texts(protocols@).take(i as int));
        push_char(&mut r, ',');
        append_str(&mut r, protocols[i].as_str());
        i = i + 1;
    }
    assert(texts(protocols@).take(protocols@.len() as int) =~= texts(protocols@));
    Some(r)
}

// ---------------------------------------------------------------------------
// Peer rows
// ---------------------------------------------------------------------------

/// The first of `keys[k..]` whose member is text other than `-`, or a
/// number, as text.
pub open spec fn text_member(members: Seq<(Seq<char>, JsonModel)>, keys: Seq<Seq<char>>, k: int) -> Option<Seq<char>>
    decreases keys.len() - k,
{
    if k < 0 || k >= keys.len() {
        None
    } else {
        match member(members, keys[k]) {
            Some(JsonModel::Str(s)) => if s != "-"@ {
                Some(s)
            } else {
                text_member(members, keys, k + 1)
            },
            Some(JsonModel::Number(_, t)) => Some(t),
            _ => text_member(members, keys, k + 1),
        }
    }
}

fn cli_string(members: &Vec<(String, JsonValue)>, keys: &[&'static str], spec_keys: Ghost<Seq<Seq<char>>>) -> (r: Option<String>)
    requires
        keys@.len() == spec_keys@.len(),
        forall|k: int| 0 <= k < keys@.len() ==> #[trigger] keys@[k]@ == spec_keys@[k],
    ensures
        match r {
            Some(t) => text_member(json_model(JsonValue::Object(*members))->Object_0, spec_keys@, 0) == Some(t@),
            None => text_member(json_model(JsonValue::Object(*members))->Object_0, spec_keys@, 0) is None,
        },
{
    let ghost ms = json_model(JsonValue::Object(*members))->Object_0;
    let mut k: usize = 0;
    while k < keys.len()
        invariant
            k <= keys@.len(),
            keys@.len() == spec_keys@.len(),
            forall|q: int| 0 <= q < keys@.len() ==> #[trigger] keys@[q]@ == spec_keys@[q],
            ms == json_model(JsonValue::Object(*members))->Object_0,
            text_member(ms, spec_keys@, 0) == text_member(ms, spec_keys@, k as int),
        decreases keys@.len() - k,
    {
        assert(keys@[k as int]@ == spec_keys@[k as int]);
        match find_member(members, keys[k]) {
            None => {},
            Some(j) => {
                assert(ms[j as int].1 == members@[j as int].1@);
                match &members[j].1 {
                    JsonValue::String(s) => {
                        if !str_eq(s.as_str(), "-") {
                            return Some(s.clone());
                        }
                    },
                    JsonValue::Number(n) => {
                        return Some(n.text.clone());
                    },
                    _ => {},
                }
            },
        }
        k = k + 1;
    }
    None
}

/// Readings of the CLI's decimal texts.  They need floating point, which
/// this library does not hold, so the service host supplies them.
pub trait DecimalReader {
    /// `text` read as a non-negative decimal and rounded to a whole number.
    fn read_rounded(&self, text: &str) -> Option<u64>;

    /// `text` read as a byte count with an optional binary unit, rounded.
    fn read_byte_size(&self, text: &str) -> Option<u64>;

    /// `text` read as a non-negative decimal no larger than `u64::MAX` and
    /// rounded; `None` beyond that range.
    fn read_whole(&self, text: &str) -> Option<u64>;
}

/// What the first usable member of `keys[k..]` holds: a whole number, text
/// for the host to read, or nothing.
pub ghost enum Reading {
    Whole(u64),
    Text(Seq<char>),
    Nothing,
}

/// The first member of `keys[k..]` that is a whole number, or text other
/// than `-`.  A number that is not a whole `u64` is passed over.
pub open spec fn first_reading(members: Seq<(Seq<char>, JsonModel)>, keys: Seq<Seq<char>>, k: int) -> Reading
    decreases keys.len() - k,
{
    if k < 0 || k >= keys.len() {
        Reading::Nothing
    } else {
        match member(members, keys[k]) {
            Some(JsonModel::Number(Some(n), _)) => Reading::Whole(n),
            Some(JsonModel::Str(s)) => if s != "-"@ {
                Reading::Text(s)
            } else {
                first_reading(members, keys, k + 1)
            },
            _ => first_reading(members, keys, k + 1),
        }
    }
}

/// What a reading of `r` says of a number read from a row: a whole number is
/// taken as it is, and nothing gives nothing; text is read by the host.
pub open spec fn read_as(reading: Reading, r: Option<u64>) -> bool {
    match reading {
        Reading::Whole(n) => r == Some(n),
        Reading::Nothing => r is None,
        Reading::Text(_) => true,
    }
}

fn cli_number<R: DecimalReader>(
    members: &Vec<(String, JsonValue)>,
    keys: &[&'static str],
    spec_keys: Ghost<Seq<Seq<char>>>,
    reader: &R,
    byte_size: bool,
) -> (r: Option<u64>)
    requires
        keys@.len() == spec_keys@.len(),
        forall|k: int| 0 <= k < keys@.len() ==> #[trigger] keys@[k]@ == spec_keys@[k],
    ensures
        read_as(first_reading(json_model(JsonValue::Object(*members))->Object_0, spec_keys@, 0), r),
{
    let ghost ms = json_model(JsonValue::Object(*members))->Object_0;
    let ghost mut passed_text = false;
    let mut k: usize = 0;
    while k < keys.len()
        invariant
            k <= keys@.len(),
            keys@.len() == spec_keys@.len(),
            forall|q: int| 0 <= q < keys@.len() ==> #[trigger] keys@[q]@ == spec_keys@[q],
            ms == json_model(JsonValue::Object(*members))->Object_0,
            !passed_text ==> first_reading(ms, spec_keys@, 0) == first_reading(ms, spec_keys@, k as int),
            passed_text ==> first_reading(ms, spec_keys@, 0) is Text,
        decreases keys@.len() - k,
    {
        assert(keys@[k as int]@ == spec_keys@[k as int]);
        match find_member(members, keys[k]) {
            None => {},
            Some(j) => {
                assert(ms[j as int].1 == members@[j as int].1@);
                match &members[j].1 {
                    JsonValue::Number(n) => {
                        if n.integer.is_some() {
                            return n.integer;
                        }
                    },
                    JsonValue::String(s) => {
                        if !str_eq(s.as_str(), "-") {
                            let read = if byte_size {
                                reader.read_byte_size(s.as_str())
                            } else {
                                reader.read_rounded(s.as_str())
                            };
                            if read.is_some() {
                                return read;
                            }
                            proof {
                                passed_text = true;
                            }
                        }
                    },
                    _ => {},
                }
            },
        }
        k = k + 1;
    }
    None
}

pub open spec fn id_keys() -> Seq<Seq<char>> {
    seq!["id"@, "peer_id"@]
}

pub open spec fn cidr_keys() -> Seq<Seq<char>> {
    seq!["cidr"@]
}

pub open spec fn ipv4_keys() -> Seq<Seq<char>> {
    seq!["ipv4"@, "virtual_ip"@]
}

pub open spec fn hostname_keys() -> Seq<Seq<char>> {
    seq!["hostname"@, "host_name"@, "name"@]
}

pub open spec fn cost_keys() -> Seq<Seq<char>> {
    seq!["cost"@]
}

pub open spec fn latency_keys() -> Seq<Seq<char>> {
    seq!["lat_ms"@, "latency_ms"@]
}

pub open spec fn rx_keys() -> Seq<Seq<char>> {
    seq!["rx_bytes"@, "received"@, "received_bytes"@]
}

pub open spec fn tx_keys() -> Seq<Seq<char>> {
    seq!["tx_bytes"@, "sent"@, "sent_bytes"@]
}

pub open spec fn nat_keys() -> Seq<Seq<char>> {
    seq!["nat_type"@]
}

pub open spec fn version_keys() -> Seq<Seq<char>> {
    seq!["version"@]
}

/// The id of a CLI peer row: a row is an object with a non-empty id.
pub open spec fn row_id(v: JsonModel) -> Option<Seq<char>> {
    match v {
        JsonModel::Object(ms) => match text_member(ms, id_keys(), 0) {
            Some(id) => if id.len() > 0 {
                Some(id)
            } else {
                None
            },
            None => None,
        },
        _ => None,
    }
}

/// The address part of a CIDR text.
pub open spec fn before_slash(c: Seq<char>) -> Seq<char> {
    match index_of_from(c, '/', 0) {
        Some(i) => c.take(i),
        None => c,
    }
}

/// Whether `p` is the peer that the CLI row `v` describes.  Every field is
/// fixed by the row, except a number given as text, which the host reads.
pub open spec fn is_row_peer(v: JsonModel, p: PeerModel) -> bool {
    match v {
        JsonModel::Object(ms) => {
            &&& row_id(v) == Some(p.id)
            &&& p.cidr == text_member(ms, cidr_keys(), 0)
            &&& p.ipv4 == match text_member(ms, ipv4_keys(), 0) {
                Some(t) => t,
                None => match p.cidr {
                    Some(c) => before_slash(c),
                    None => "--"@,
                },
            }
            &&& p.hostname == match text_member(ms, hostname_keys(), 0) {
                Some(t) => t,
                None => p.id,
            }
            &&& p.cost == text_member(ms, cost_keys(), 0)
            &&& match first_reading(ms, latency_keys(), 0) {
                Reading::Whole(n) => p.latency_ms == (if n <= u32::MAX {
                    Some(n as u32)
                } else {
                    None
                }),
                Reading::Nothing => p.latency_ms is None,
                Reading::Text(_) => true,
            }
            &&& read_as(first_reading(ms, rx_keys(), 0), p.rx_bytes)
            &&& read_as(first_reading(ms, tx_keys(), 0), p.tx_bytes)
            &&& p.protocols == row_protocols(ms)
            &&& p.tunnel_protocol == protocol_csv_text(row_protocols(ms))
            &&& p.nat_type == text_member(ms, nat_keys(), 0)
            &&& p.version == text_member(ms, version_keys(), 0)
        },
        _ => false,
    }
}

/// The sanitized peer that a CLI row describes, when it is a row.
pub fn connected_peer_from_cli_value<R: DecimalReader>(value: &JsonValue, reader: &R) -> (r: Option<ConnectedPeer>)
    ensures
        match r {
            Some(p) => is_row_peer(value@, p@),
            None => row_id(value@) is None,
        },
{
    let members = match value {
        JsonValue::Object(members) => members,
        _ => {
            return None;
        },
    };
    let ghost ms = json_model(JsonValue::Object(*members))->Object_0;
    assert(value@ == JsonModel::Object(ms));
    let id_k: [&'static str; 2] = ["id", "peer_id"];
    assert(id_k@ =~= seq!["id", "peer_id"]);
    let id = match cli_string(members, &id_k, Ghost(id_keys())) {
        Some(id) => id,
        None => {
            return None;
        },
    };
    if id.as_str().is_empty() {
        return None;
    }
    let cidr_k: [&'static str; 1] = ["cidr"];
    assert(cidr_k@ =~= seq!["cidr"]);
    let cidr = cli_string(members, &cidr_k, Ghost(cidr_keys()));
    let ipv4_k: [&'static str; 2] = ["ipv4", "virtual_ip"];
    assert(ipv4_k@ =~= seq!["ipv4", "virtual_ip"]);
    let ipv4 = match cli_string(members, &ipv4_k, Ghost(ipv4_keys())) {
        Some(t) => t,
        None => match &cidr {
            Some(c) => {
                let cc = chars_vec(c.as_str());
                match chars_index_of(cc.as_slice(), '/', 0) {
                    Some(i) => string_from_chars(chars_slice(cc.as_slice(), 0, i).as_slice()),
                    None => c.clone(),
                }
            },
            None => owned("--"),
        },
    };
    let host_k: [&'static str; 3] = ["hostname", "host_name", "name"];
    assert(host_k@ =~= seq!["hostname", "host_name", "name"]);
    let hostname = match cli_string(members, &host_k, Ghost(hostname_keys())) {
        Some(t) => t,
        None => id.clone(),
    };
    let protocols = cli_protocols(members);
    let cost_k: [&'static str; 1] = ["cost"];
    assert(cost_k@ =~= seq!["cost"]);
    let lat_k: [&'static str; 2] = ["lat_ms", "latency_ms"];
    assert(lat_k@ =~= seq!["lat_ms", "latency_ms"]);
    let rx_k: [&'static str; 3] = ["rx_bytes", "received", "received_bytes"];
    assert(rx_k@ =~= seq!["rx_bytes", "received", "received_bytes"]);
    let tx_k: [&'static str; 3] = ["tx_bytes", "sent", "sent_bytes"];
    assert(tx_k@ =~= seq!["tx_bytes", "sent", "sent_bytes"]);
    let nat_k: [&'static str; 1] = ["nat_type"];
    assert(nat_k@ =~= seq!["nat_type"]);
    let version_k: [&'static str; 1] = ["version"];
    assert(version_k@ =~= seq!["version"]);
    let latency_ms = match cli_number(members, &lat_k, Ghost(latency_keys()), reader, false) {
        Some(n) => if n <= 4294967295 {
            Some(n as u32)
        } else {
            None
        },
        None => None,
    };
    let tunnel_protocol = protocol_csv(&protocols);
    let peer = ConnectedPeer {
        id,
        hostname,
        ipv4,
        cidr,
        cost: cli_string(members, &cost_k, Ghost(cost_keys())),
        latency_ms,
        rx_bytes: cli_number(members, &rx_k, Ghost(rx_keys()), reader, true),
        tx_bytes: cli_number(members, &tx_k, Ghost(tx_keys()), reader, true),
        protocols,
        tunnel_protocol,
        nat_type: cli_string(members, &nat_k, Ghost(nat_keys())),
        version: cli_string(members, &version_k, Ghost(version_keys())),
    };
    proof {
        let c = peer@.cidr;
        if c is Some {
            lemma_index_of_from(c->0, '/', 0);
        }
    }
    Some(peer)
}

/// Whether a peer row is the local node, which the CLI lists with cost
/// `Local`.
pub open spec fn is_local(p: PeerModel) -> bool {
    match p.cost {
        Some(c) => ascii_lower(c) == "local"@,
        None => false,
    }
}

pub fn is_local_peer(peer: &ConnectedPeer) -> (r: bool)
    ensures
        r == is_local(peer@),
{
    match &peer.cost {
        Some(c) => {
            let l = chars_lower(chars_vec(c.as_str()).as_slice());
            str_eq_chars(l.as_slice(), "local")
        },
        None => false,
    }
}

// ---------------------------------------------------------------------------
// Merging rows of one peer
// ---------------------------------------------------------------------------

/// Adds `incoming[i..]` to `acc`, skipping repeats, until `acc` holds twelve.
pub open spec fn add_incoming(acc: Seq<Seq<char>>, incoming: Seq<Seq<char>>, i: int) -> Seq<Seq<char>>
    decreases incoming.len() - i,
{
    if i < 0 || i >= incoming.len() || acc.len() == 12 {
        acc
    } else if acc.contains(incoming[i]) {
        add_incoming(acc, incoming, i + 1)
    } else {
        add_incoming(acc.push(incoming[i]), incoming, i + 1)
    }
}

/// `p` with the transports of another row of the same peer added.
pub open spec fn with_more_protocols(p: PeerModel, incoming: Seq<Seq<char>>) -> PeerModel {
    let ps = add_incoming(p.protocols, incoming, 0);
    PeerModel { protocols: ps, tunnel_protocol: protocol_csv_text(ps), ..p }
}

/// The first position of a peer with id `id`.
pub open spec fn peer_position(peers: Seq<PeerModel>, id: Seq<char>, from: int) -> Option<int>
    decreases peers.len() - from,
{
    if from < 0 || from >= peers.len() {
        None
    } else if peers[from].id == id {
        Some(from)
    } else {
        peer_position(peers, id, from + 1)
    }
}

/// The rows merged by peer id: the first row of each peer stays, in order,
/// and later rows of that peer only add transports.
pub open spec fn merged_rows(rows: Seq<PeerModel>) -> Seq<PeerModel>
    decreases rows.len(),
{
    if rows.len() == 0 {
        Seq::empty()
    } else {
        let acc = merged_rows(rows.drop_last());
        let row = rows.last();
        match peer_position(acc, row.id, 0) {
            Some(j) => acc.update(j, with_more_protocols(acc[j], row.protocols)),
            None => acc.push(row),
        }
    }
}

fn merge_connected_peer_protocols(peer: &mut ConnectedPeer, incoming: Vec<String>)
    ensures
        final(peer)@ == with_more_protocols(old(peer)@, texts(incoming@)),
{
    let ghost start = peer@;
    let mut i: usize = 0;
    while i < incoming.len() && peer.protocols.len() != 12
        invariant
            i <= incoming@.len(),
            add_incoming(start.protocols, texts(incoming@), 0) == add_incoming(
                texts(peer.protocols@),
                texts(incoming@),
                i as int,
            ),
            peer@ == (PeerModel { protocols: texts(peer.protocols@), tunnel_protocol: peer@.tunnel_protocol, ..start }),
        decreases incoming@.len() - i,
    {
        if !contains_string(&peer.protocols, incoming[i].as_str()) {
            let p = incoming[i].clone();
            push_text(&mut peer.protocols, p);
        }
        i = i + 1;
    }
    peer.tunnel_protocol = protocol_csv(&peer.protocols);
}

fn find_peer(peers: &Vec<ConnectedPeer>, id: &str) -> (r: Option<usize>)
    ensures
        match r {
            Some(j) => peer_position(peer_models(peers@), id@, 0) == Some(j as int) && j < peers@.len(),
            None => peer_position(peer_models(peers@), id@, 0) is None,
        },
{
    let ghost ps = peer_models(peers@);
    let mut i: usize = 0;
    while i < peers.len()
        invariant
            i <= peers@.len(),
            ps == peer_models(peers@),
            peer_position(ps, id@, 0) == peer_position(ps, id@, i as int),
        decreases peers@.len() - i,
    {
        assert(ps[i as int] == peers@[i as int]@);
        if str_eq(peers[i].id.as_str(), id) {
            return Some(i);
        }
        i = i + 1;
    }
    None
}

/// Merges CLI rows by peer id, so a peer with several connections is shown,
/// and counted, once.
pub fn merge_connected_peer_rows(rows: Vec<ConnectedPeer>) -> (r: Vec<ConnectedPeer>)
    ensures
        peer_models(r@) == merged_rows(peer_models(rows@)),
{
    let ghost all = peer_models(rows@);
    let mut peers: Vec<ConnectedPeer> = Vec::new();
    let mut rest = rows;
    let total = rest.len();
    let ghost n = all.len();
    let mut i: usize = 0;
    assert(merged_rows(all.take(0)) =~= Seq::<PeerModel>::empty());
    assert(peer_models(peers@) =~= Seq::<PeerModel>::empty());
    assert(peer_models(rest@) =~= all.skip(0));
    while rest.len() > 0
        invariant
            i + rest@.len() == n,
            n == all.len(),
            n == total,
            peer_models(rest@) == all.skip(i as int),
            peer_models(peers@) == merged_rows(all.take(i as int)),
        decreases rest@.len(),
    {
        let ghost before = rest@;
        let row = rest.remove(0);
        proof {
            assert(row@ == peer_models(before)[0]);
            assert(rest@ =~= before.subrange(1, before.len() as int));
            assert forall|k: int| 0 <= k < rest@.len() implies #[trigger] peer_models(rest@)[k] == all.skip(i + 1)[k] by {
                assert(peer_models(rest@)[k] == before[k + 1]@);
                assert(peer_models(before)[k + 1] == all.skip(i as int)[k + 1]);
            }
            assert(peer_models(rest@) =~= all.skip(i + 1));
            assert(all.take(i + 1).drop_last() =~= all.take(i as int));
            assert(all.take(i + 1).last() == all[i as int]);
        }
        match find_peer(&peers, row.id.as_str()) {
            Some(j) => {
                let ghost acc = peer_models(peers@);
                let mut target = peers.remove(j);
                merge_connected_peer_protocols(&mut target, row.protocols);
                peers.insert(j, target);
                proof {
                    assert(peer_models(peers@) =~= acc.update(j as int, with_more_protocols(acc[j as int], all[i as int].protocols)));
                }
            },
            None => {
                let ghost acc = peer_models(peers@);
                peers.push(row);
                proof {
                    assert(peer_models(peers@) =~= acc.push(all[i as int]));
                }
            },
        }
        i = i + 1;
    }
    assert(all.take(n as int) =~= all);
    peers
}

// ---------------------------------------------------------------------------
// Whole CLI outputs
// ---------------------------------------------------------------------------

/// The rows of the peer list in `output`, if it has one.
pub open spec fn peer_list(output: Seq<char>) -> Option<Seq<JsonModel>> {
    match json_document(output) {
        Some(v) => list_at(v, peer_list_keys()),
        None => None,
    }
}

/// Whether `rows` are the peers of the CLI rows `items`, in order: items that
/// are not rows are skipped.
pub open spec fn rows_of(items: Seq<JsonModel>, rows: Seq<PeerModel>) -> bool
    decreases items.len(),
{
    if items.len() == 0 {
        rows.len() == 0
    } else {
        match row_id(items.last()) {
            None => rows_of(items.drop_last(), rows),
            Some(_) => rows.len() > 0 && is_row_peer(items.last(), rows.last()) && rows_of(
                items.drop_last(),
                rows.drop_last(),
            ),
        }
    }
}

fn rows_from_items<R: DecimalReader>(items: &Vec<JsonValue>, reader: &R) -> (r: Vec<ConnectedPeer>)
    ensures
        rows_of(json_model(JsonValue::Array(*items))->Array_0, peer_models(r@)),
{
    let ghost ims = json_model(JsonValue::Array(*items))->Array_0;
    let mut rows: Vec<ConnectedPeer> = Vec::new();
    let mut i: usize = 0;
    assert(ims.take(0) =~= Seq::<JsonModel>::empty());
    assert(peer_models(rows@) =~= Seq::<PeerModel>::empty());
    while i < items.len()
        invariant
            i <= items@.len(),
            ims == json_model(JsonValue::Array(*items))->Array_0,
            ims.len() == items@.len(),
            rows_of(ims.take(i as int), peer_models(rows@)),
        decreases items@.len() - i,
    {
        assert(ims[i as int] == items@[i as int]@);
        assert(ims.take(i + 1).drop_last() =~= ims.take(i as int));
        assert(ims.take(i + 1).last() == ims[i as int]);
        match connected_peer_from_cli_value(&items[i], reader) {
            Some(p) => {
                let ghost before = peer_models(rows@);
                rows.push(p);
                assert(peer_models(rows@).drop_last() =~= before);
            },
            None => {},
        }
        i = i + 1;
    }
    assert(ims.take(items@.len() as int) =~= ims);
    rows
}

/// Whether `r` is the peer list of a parsed answer, merged by id, for some
/// readings of its texts.
pub open spec fn peers_outcome_of(v: JsonModel, r: Option<Seq<PeerModel>>) -> bool {
    match list_at(v, peer_list_keys()) {
        None => r is None,
        Some(items) => r is Some && exists|rows: Seq<PeerModel>|
            #[trigger] rows_of(items, rows) && r->0 == merged_rows(rows),
    }
}

/// Whether `r` is the peer list of `output`, merged by id, for some
/// readings of its texts.
pub open spec fn peers_outcome(output: Seq<char>, r: Option<Seq<PeerModel>>) -> bool {
    match json_document(output) {
        None => r is None,
        Some(v) => peers_outcome_of(v, r),
    }
}

pub open spec fn opt_peer_models(r: Option<Vec<ConnectedPeer>>) -> Option<Seq<PeerModel>> {
    match r {
        Some(peers) => Some(peer_models(peers@)),
        None => None,
    }
}

/// The peers of a parsed `easytier-cli peer list` answer, merged by id;
/// `None` when it holds no peer list.
pub fn peers_from_cli_value<R: DecimalReader>(value: &JsonValue, reader: &R) -> (r: Option<Vec<ConnectedPeer>>)
    ensures
        peers_outcome_of(value@, opt_peer_models(r)),
{
    let keys: [&'static str; 7] = ["peers", "peer_infos", "peer_info", "peer_list", "items", "data", "result"];
    assert(keys@ =~= seq!["peers", "peer_infos", "peer_info", "peer_list", "items", "data", "result"]);
    match list_in(value, &keys, Ghost(peer_list_keys())) {
        Some(items) => {
            let rows = rows_from_items(items, reader);
            let ghost models = peer_models(rows@);
            let merged = merge_connected_peer_rows(rows);
            assert(rows_of(json_model(JsonValue::Array(*items))->Array_0, models));
            assert(peer_models(merged@) == merged_rows(models));
            let r = Some(merged);
            assert(opt_peer_models(r)->0 == merged_rows(models));
            assert(opt_peer_models(r) is Some);
            assert(rows_of(list_at(value@, peer_list_keys())->0, models));
            assert(peers_outcome_of(value@, opt_peer_models(r)));
            r
        },
        None => None,
    }
}

/// The peers of `easytier-cli peer list` output, merged by id; `None` when
/// the output is not JSON or holds no peer list.
pub fn peers_from_cli_json<R: DecimalReader>(output: &str, reader: &R) -> (r: Option<Vec<ConnectedPeer>>)
    ensures
        peers_outcome(output@, opt_peer_models(r)),
{
    let value = parse_json(output)?;
    peers_from_cli_value(&value, reader)
}

/// Traffic counters of the core.
#[derive(Clone, Copy, Debug, PartialEq, Eq, Structural)]
pub struct CoreTraffic {
    pub tx_bytes: u64,
    pub rx_bytes: u64,
}

pub open spec fn sat_plus(total: Option<u64>, v: u64) -> Option<u64> {
    let t: u64 = match total {
        Some(t) => t,
        None => 0,
    };
    Some(if t + v > u64::MAX {
        u64::MAX
    } else {
        (t + v) as u64
    })
}

pub open spec fn name_keys() -> Seq<Seq<char>> {
    seq!["name"@]
}

pub open spec fn value_keys() -> Seq<Seq<char>> {
    seq!["value"@]
}

/// The name of a statistics entry, when it is an object with one.
pub open spec fn stat_name(e: JsonModel) -> Option<Seq<char>> {
    match e {
        JsonModel::Object(ms) => text_member(ms, name_keys(), 0),
        _ => None,
    }
}

/// The four sums `(self tx, self rx, data tx, data rx)` over the entries,
/// each entry's value taken from `vals`.
pub open spec fn traffic_sums(entries: Seq<JsonModel>, vals: Seq<Option<u64>>) -> (
    Option<u64>,
    Option<u64>,
    Option<u64>,
    Option<u64>,
)
    decreases entries.len(),
{
    if entries.len() == 0 || vals.len() != entries.len() {
        (None, None, None, None)
    } else {
        let (st, sr, dt, dr) = traffic_sums(entries.drop_last(), vals.drop_last());
        match (stat_name(entries.last()), vals.last()) {
            (Some(name), Some(v)) => if name == "traffic_bytes_self_tx"@ {
                (sat_plus(st, v), sr, dt, dr)
            } else if name == "traffic_bytes_self_rx"@ {
                (st, sat_plus(sr, v), dt, dr)
            } else if name == "traffic_bytes_tx"@ {
                (st, sr, sat_plus(dt, v), dr)
            } else if name == "traffic_bytes_rx"@ {
                (st, sr, dt, sat_plus(dr, v))
            } else {
                (st, sr, dt, dr)
            },
            _ => (st, sr, dt, dr),
        }
    }
}

/// Whether `vals` holds what could be read of each named entry's value.
pub open spec fn readings_of(entries: Seq<JsonModel>, vals: Seq<Option<u64>>) -> bool {
    &&& vals.len() == entries.len()
    &&& forall|i: int|
        0 <= i < entries.len() ==> match #[trigger] entries[i] {
            JsonModel::Object(ms) => text_member(ms, name_keys(), 0) is Some ==> read_as(
                first_reading(ms, value_keys(), 0),
                vals[i],
            ),
            _ => true,
        }
}

/// The core's own traffic when it reports it, else its data-plane traffic;
/// `None` when either direction is missing.
pub open spec fn traffic_of(entries: Seq<JsonModel>, vals: Seq<Option<u64>>) -> Option<(u64, u64)> {
    let (st, sr, dt, dr) = traffic_sums(entries, vals);
    let tx = if st is Some {
        st
    } else {
        dt
    };
    let rx = if sr is Some {
        sr
    } else {
        dr
    };
    if tx is Some && rx is Some {
        Some((tx->0, rx->0))
    } else {
        None
    }
}

fn add_saturating(total: Option<u64>, v: u64) -> (r: Option<u64>)
    ensures
        r == sat_plus(total, v),
{
    let t = match total {
        Some(t) => t,
        None => 0,
    };
    Some(t.saturating_add(v))
}

/// Whether `r` is what [`traffic_of`] gives.
pub open spec fn traffic_matches(t: Option<(u64, u64)>, r: Option<CoreTraffic>) -> bool {
    match t {
        Some((tx, rx)) => r == Some(CoreTraffic { tx_bytes: tx, rx_bytes: rx }),
        None => r is None,
    }
}

/// Whether `r` is the traffic of a parsed answer, for some readings of its
/// texts.
pub open spec fn traffic_outcome_of(v: JsonModel, r: Option<CoreTraffic>) -> bool {
    match list_at(v, stats_list_keys()) {
        None => r is None,
        Some(entries) => exists|vals: Seq<Option<u64>>|
            #[trigger] readings_of(entries, vals) && traffic_matches(traffic_of(entries, vals), r),
    }
}

/// Whether `r` is the traffic of `output`, for some readings of its texts.
pub open spec fn traffic_outcome(output: Seq<char>, r: Option<CoreTraffic>) -> bool {
    match json_document(output) {
        None => r is None,
        Some(v) => traffic_outcome_of(v, r),
    }
}

/// The traffic counters in `easytier-cli stats show` output.
pub fn traffic_from_cli_json<R: DecimalReader>(output: &str, reader: &R) -> (r: Option<CoreTraffic>)
    ensures
        traffic_outcome(output@, r),
{
    let value = parse_json(output)?;
    traffic_from_cli_value(&value, reader)
}

/// The traffic counters in a parsed `easytier-cli stats show` answer.
pub fn traffic_from_cli_value<R: DecimalReader>(value: &JsonValue, reader: &R) -> (r: Option<CoreTraffic>)
    ensures
        traffic_outcome_of(value@, r),
{
    let keys: [&'static str; 5] = ["stats", "metrics", "items", "data", "result"];
    assert(keys@ =~= seq!["stats", "metrics", "items", "data", "result"]);
    let entries = match list_in(value, &keys, Ghost(stats_list_keys())) {
        Some(entries) => entries,
        None => {
            return None;
        },
    };
    let ghost es = json_model(JsonValue::Array(*entries))->Array_0;
    let name_k: [&'static str; 1] = ["name"];
    assert(name_k@ =~= seq!["name"]);
    let value_k: [&'static str; 1] = ["value"];
    assert(value_k@ =~= seq!["value"]);
    let mut self_tx: Option<u64> = None;
    let mut self_rx: Option<u64> = None;
    let mut data_tx: Option<u64> = None;
    let mut data_rx: Option<u64> = None;
    let ghost mut vals: Seq<Option<u64>> = Seq::empty();
    let mut i: usize = 0;
    while i < entries.len()
        invariant
            i <= entries@.len(),
            es == json_model(JsonValue::Array(*entries))->Array_0,
            es.len() == entries@.len(),
            vals.len() == i,
            name_k@.len() == 1 && name_k@[0]@ == "name"@,
            value_k@.len() == 1 && value_k@[0]@ == "value"@,
            readings_of(es.take(i as int), vals),
            traffic_sums(es.take(i as int), vals) == (self_tx, self_rx, data_tx, data_rx),
        decreases entries@.len() - i,
    {
        assert(es[i as int] == entries@[i as int]@);
        assert(es.take(i + 1).drop_last() =~= es.take(i as int));
        assert(es.take(i + 1).last() == es[i as int]);
        let ghost before = vals;
        let mut read: Option<u64> = None;
        match &entries[i] {
            JsonValue::Object(ms) => {
                match cli_string(ms, &name_k, Ghost(name_keys())) {
                    Some(name) => {
                        match cli_number(ms, &value_k, Ghost(value_keys()), reader, false) {
                            Some(v) => {
                                read = Some(v);
                                if str_eq(name.as_str(), "traffic_bytes_self_tx") {
                                    self_tx = add_saturating(self_tx, v);
                                } else if str_eq(name.as_str(), "traffic_bytes_self_rx") {
                                    self_rx = add_saturating(self_rx, v);
                                } else if str_eq(name.as_str(), "traffic_bytes_tx") {
                                    data_tx = add_saturating(data_tx, v);
                                } else if str_eq(name.as_str(), "traffic_bytes_rx") {
                                    data_rx = add_saturating(data_rx, v);
                                }
                            },
                            None => {},
                        }
                    },
                    None => {},
                }
            },
            _ => {},
        }
        proof {
            vals = before.push(read);
            assert(vals.drop_last() =~= before);
            assert forall|k: int| 0 <= k < i + 1 implies match #[trigger] es.take(i + 1)[k] {
                JsonModel::Object(ms) => text_member(ms, name_keys(), 0) is Some ==> read_as(
                    first_reading(ms, value_keys(), 0),
                    vals[k],
                ),
                _ => true,
            } by {
                if k < i {
                    assert(es.take(i + 1)[k] == es.take(i as int)[k]);
                }
            }
        }
        i = i + 1;
    }
    assert(es.take(entries@.len() as int) =~= es);
    assert(readings_of(es, vals));
    assert(list_at(value@, stats_list_keys()) == Some(es));
    let tx = match self_tx {
        Some(t) => t,
        None => match data_tx {
            Some(t) => t,
            None => {
                assert(traffic_of(es, vals) is None);
                assert(traffic_matches(traffic_of(es, vals), None));
                return None;
            },
        },
    };
    let rx = match self_rx {
        Some(t) => t,
        None => match data_rx {
            Some(t) => t,
            None => {
                assert(traffic_of(es, vals) is None);
                assert(traffic_matches(traffic_of(es, vals), None));
                return None;
            },
        },
    };
    assert(traffic_of(es, vals) == Some((tx, rx)));
    let r = Some(CoreTraffic { tx_bytes: tx, rx_bytes: rx });
    assert(traffic_matches(traffic_of(es, vals), r));
    r
}

// ---------------------------------------------------------------------------
// A health sample
// ---------------------------------------------------------------------------

/// The remote peers of a list: the local node is left out.
pub open spec fn remote_peers(ps: Seq<PeerModel>) -> Seq<PeerModel>
    decreases ps.len(),
{
    if ps.len() == 0 {
        Seq::empty()
    } else if is_local(ps.last()) {
        remote_peers(ps.drop_last())
    } else {
        remote_peers(ps.drop_last()).push(ps.last())
    }
}

fn remote_only(peers: Vec<ConnectedPeer>) -> (r: Vec<ConnectedPeer>)
    ensures
        peer_models(r@) == remote_peers(peer_models(peers@)),
{
    let ghost all = peer_models(peers@);
    let mut r: Vec<ConnectedPeer> = Vec::new();
    let mut rest = peers;
    let total = rest.len();
    let mut i: usize = 0;
    assert(peer_models(rest@) =~= all.skip(0));
    assert(all.take(0) =~= Seq::<PeerModel>::empty());
    assert(peer_models(r@) =~= Seq::<PeerModel>::empty());
    while rest.len() > 0
        invariant
            i + rest@.len() == total,
            total == all.len(),
            peer_models(rest@) == all.skip(i as int),
            peer_models(r@) == remote_peers(all.take(i as int)),
        decreases rest@.len(),
    {
        let ghost before = rest@;
        let p = rest.remove(0);
        proof {
            assert(p@ == peer_models(before)[0]);
            assert(rest@ =~= before.subrange(1, before.len() as int));
            assert forall|k: int| 0 <= k < rest@.len() implies #[trigger] peer_models(rest@)[k] == all.skip(i + 1)[k] by {
                assert(peer_models(rest@)[k] == before[k + 1]@);
                assert(peer_models(before)[k + 1] == all.skip(i as int)[k + 1]);
            }
            assert(peer_models(rest@) =~= all.skip(i + 1));
            assert(all.take(i + 1).drop_last() =~= all.take(i as int));
            assert(all.take(i + 1).last() == all[i as int]);
        }
        if !is_local_peer(&p) {
            let ghost acc = peer_models(r@);
            r.push(p);
            assert(peer_models(r@) =~= acc.push(all[i as int]));
        }
        i = i + 1;
    }
    assert(all.take(total as int) =~= all);
    r
}

/// What a health probe observed of a running core, from the answers of the
/// CLI's `peer list`, `route list` and `stats show` (each `None` when the
/// command failed or timed out).  The control plane is healthy only when the
/// core runs, its RPC port accepts a connection and the peer list answered;
/// the local node never counts as a peer.
pub fn health_sample_from_cli<R: DecimalReader>(
    running: bool,
    rpc_reachable: bool,
    peer_output: Option<String>,
    route_output: Option<String>,
    stats_output: Option<String>,
    reader: &R,
) -> (r: HealthSample)
    ensures
        r.core_process_running == running,
        r.control_plane_healthy == (running && rpc_reachable && peer_output is Some),
        r.private_network_reachable is None,
        match peer_output {
            None => r.connected_peers is None && r.connected_peer_count is None,
            Some(o) => match peer_list(o@) {
                None => r.connected_peers is None && r.connected_peer_count is None,
                Some(items) => r.connected_peers matches Some(ps) && r.connected_peer_count == Some(
                    ps@.len() as usize,
                ) && exists|rows: Seq<PeerModel>|
                    #[trigger] rows_of(items, rows) && peer_models(ps@) == remote_peers(merged_rows(rows)),
            },
        },
        r.route_count == match route_output {
            Some(o) => match list_len(o@, route_list_keys()) {
                Some(n) => Some(n as usize),
                None => None::<usize>,
            },
            None => None::<usize>,
        },
        match stats_output {
            None => r.traffic_tx_bytes is None && r.traffic_rx_bytes is None,
            Some(o) => exists|t: Option<CoreTraffic>|
                #[trigger] traffic_outcome(o@, t) && r.traffic_tx_bytes == match t {
                    Some(c) => Some(c.tx_bytes),
                    None => None::<u64>,
                } && r.traffic_rx_bytes == match t {
                    Some(c) => Some(c.rx_bytes),
                    None => None::<u64>,
                },
        },
{
    let control_plane_healthy = running && rpc_reachable && peer_output.is_some();
    let (connected_peer_count, connected_peers) = match &peer_output {
        Some(o) => match peers_from_cli_json(o.as_str(), reader) {
            Some(peers) => {
                let ghost merged = peer_models(peers@);
                let remote = remote_only(peers);
                proof {
                    let items = peer_list(o@)->0;
                    let rows = choose|rows: Seq<PeerModel>| #[trigger] rows_of(items, rows) && merged == merged_rows(rows);
                    assert(rows_of(items, rows) && peer_models(remote@) == remote_peers(merged_rows(rows)));
                }
                (Some(remote.len()), Some(remote))
            },
            None => (None, None),
        },
        None => (None, None),
    };
    let route_count = match &route_output {
        Some(o) => route_count_from_cli_json(o.as_str()),
        None => None,
    };
    let traffic = match &stats_output {
        Some(o) => {
            let t = traffic_from_cli_json(o.as_str(), reader);
            assert(traffic_outcome(o@, t));
            t
        },
        None => None,
    };
    HealthSample {
        core_process_running: running,
        control_plane_healthy,
        private_network_reachable: None,
        connected_peer_count,
        connected_peers,
        route_count,
        traffic_tx_bytes: match traffic {
            Some(c) => Some(c.tx_bytes),
            None => None,
        },
        traffic_rx_bytes: match traffic {
            Some(c) => Some(c.rx_bytes),
            None => None,
        },
    }
}

} // verus!
