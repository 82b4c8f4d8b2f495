//! Length-prefixed framing for the local RPC pipe, owner SID checks and the
//! client-side protocol checks.
//!
//! Framing is platform independent, so a service host can apply its own
//! pipe ACL and still use the same request handler in tests.

use vstd::prelude::*;

use crate::protocol::{RpcRequest, RpcResponse, PROTOCOL_VERSION};
use crate::text::{
    char_rows, chars_vec, concat2, concat3, decimal_string, decimal_text, owned, parse_u64,
    parse_u64_text, pieces_from, split_chars,
};

verus! {

broadcast use vstd::string::group_string_axioms;

pub const DEFAULT_PIPE_ENDPOINT: &'static str = "\\\\.\\pipe\\VibeEasyTierService";

pub const WINDOWS_SERVICE_NAME: &'static str = "VibeEasyTierService";

pub const MAX_FRAME_BYTES: usize = 1048576;

/// The canonical textual form Windows gives a user SID: `S-1-` followed by
/// at least two more decimal sub-authorities, at most 184 characters.
pub open spec fn is_owner_sid(value: Seq<char>) -> bool {
    let pieces = pieces_from(value, '-', 0);
    &&& pieces.len() >= 4
    &&& pieces[0] == seq!['S']
    &&& pieces[1] == seq!['1']
    &&& value.len() <= 184
    &&& forall|k: int|
        2 <= k < pieces.len() ==> #[trigger] parse_u64_text(pieces[k]) is Some
}

pub fn is_valid_owner_sid(value: &str) -> (r: bool)
    ensures
        r == is_owner_sid(value@),
{
    let chars = chars_vec(value);
    let pieces = split_chars(chars.as_slice(), '-');
    let ghost rows = char_rows(pieces@);
    if pieces.len() < 4 || chars.len() > 184 {
        return false;
    }
    assert(rows[0] == pieces@[0]@);
    assert(rows[1] == pieces@[1]@);
    if !(pieces[0].len() == 1 && pieces[0][0] == 'S') {
        assert(rows[0] != seq!['S']);
        return false;
    }
    assert(rows[0] =~= seq!['S']);
    if !(pieces[1].len() == 1 && pieces[1][0] == '1') {
        assert(rows[1] != seq!['1']);
        return false;
    }
    assert(rows[1] =~= seq!['1']);
    let mut k: usize = 2;
    while k < pieces.len()
        invariant
            2 <= k <= pieces@.len(),
            rows == char_rows(pieces@),
            rows == pieces_from(value@, '-', 0),
            rows.len() >= 4,
            rows[0] == seq!['S'],
            rows[1] == seq!['1'],
            value@.len() <= 184,
            forall|j: int| 2 <= j < k ==> #[trigger] parse_u64_text(rows[j]) is Some,
        decreases pieces@.len() - k,
    {
        assert(rows[k as int] == pieces@[k as int]@);
        if parse_u64(pieces[k].as_slice()).is_none() {
            assert(parse_u64_text(pieces_from(value@, '-', 0)[k as int]) is None);
            return false;
        }
        k = k + 1;
    }
    true
}

#[derive(Debug)]
pub enum IpcError {
    Unavailable(String),
    Io(String),
    Serialization(String),
    FrameTooLarge { size: usize, limit: usize },
    Protocol(String),
}

impl IpcError {
    /// The human-readable message of this error.
    pub fn message(&self) -> (r: String)
        ensures
            r@ == match self {
                IpcError::Unavailable(d) => "the Vibe EasyTier service is unavailable: "@ + d@,
                IpcError::Io(d) => "IPC I/O failure: "@ + d@,
                IpcError::Serialization(d) => "IPC serialization failed: "@ + d@,
                IpcError::FrameTooLarge { size, limit } => "IPC frame is too large: "@
                    + decimal_text(*size as nat) + " bytes (limit "@ + decimal_text(*limit as nat)
                    + ")"@,
                IpcError::Protocol(d) => "IPC protocol mismatch: "@ + d@,
            },
    {
        match self {
            IpcError::Unavailable(d) => concat2(
                "the Vibe EasyTier service is unavailable: ",
                d.as_str(),
            ),
            IpcError::Io(d) => concat2("IPC I/O failure: ", d.as_str()),
            IpcError::Serialization(d) => concat2("IPC serialization failed: ", d.as_str()),
            IpcError::FrameTooLarge { size, limit } => {
                let mut r = concat3(
                    "IPC frame is too large: ",
                    decimal_string(*size as u64).as_str(),
                    " bytes (limit ",
                );
                crate::text::append_str(&mut r, decimal_string(*limit as u64).as_str());
                crate::text::append_str(&mut r, ")");
                r
            },
            IpcError::Protocol(d) => concat2("IPC protocol mismatch: ", d.as_str()),
        }
    }
}

/// Something that answers RPC requests.
pub trait RpcHandler {
    fn handle_rpc(&mut self, request: RpcRequest) -> RpcResponse;
}

/// The value of four little-endian bytes.
pub open spec fn le_u32(b: Seq<u8>) -> nat {
    (b[0] + 256 * b[1] + 65536 * b[2] + 16777216 * b[3]) as nat
}

/// The message `std::io::Read::read_exact` reports for a short stream.
pub open spec fn short_read_text() -> Seq<char> {
    "failed to fill whole buffer"@
}

/// Reads one frame from the front of `bytes`.  The declared size is checked
/// against the limit before any payload is taken.
pub fn read_frame(bytes: &[u8]) -> (r: Result<Vec<u8>, IpcError>)
    ensures
        match r {
            Ok(payload) => {
                &&& bytes@.len() >= 4
                &&& le_u32(bytes@) <= MAX_FRAME_BYTES
                &&& bytes@.len() >= 4 + le_u32(bytes@)
                &&& payload@ == bytes@.subrange(4, 4 + le_u32(bytes@) as int)
            },
            Err(IpcError::FrameTooLarge { size, limit }) => {
                &&& bytes@.len() >= 4
                &&& size == le_u32(bytes@)
                &&& size > MAX_FRAME_BYTES
                &&& limit == MAX_FRAME_BYTES
            },
            Err(IpcError::Io(detail)) => {
                &&& detail@ == short_read_text()
                &&& (bytes@.len() < 4 || (le_u32(bytes@) <= MAX_FRAME_BYTES && bytes@.len() < 4
                    + le_u32(bytes@)))
            },
            Err(_) => false,
        },
{
    if bytes.len() < 4 {
        return Err(IpcError::Io(owned("failed to fill whole buffer")));
    }
    let size: u32 = bytes[0] as u32 + 256 * (bytes[1] as u32) + 65536 * (bytes[2] as u32)
        + 16777216 * (bytes[3] as u32);
    if size as usize > MAX_FRAME_BYTES {
        return Err(IpcError::FrameTooLarge { size: size as usize, limit: MAX_FRAME_BYTES });
    }
    let end: usize = 4 + size as usize;
    if bytes.len() < end {
        return Err(IpcError::Io(owned("failed to fill whole buffer")));
    }
    let mut payload: Vec<u8> = Vec::new();
    let mut i: usize = 4;
    while i < end
        invariant
            4 <= i <= end <= bytes@.len(),
            payload@ =~= bytes@.subrange(4, i as int),
        decreases end - i,
    {
        payload.push(bytes[i]);
        i = i + 1;
    }
    Ok(payload)
}


/// The payload size that a frame's four-byte header declares, checked
/// against the limit before anything is read or allocated for it.
pub fn frame_payload_size(header: [u8; 4]) -> (r: Result<usize, IpcError>)
    ensures
        match r {
            Ok(n) => n == le_u32(header@) && n <= MAX_FRAME_BYTES,
            Err(IpcError::FrameTooLarge { size, limit }) => size == le_u32(header@) && size
                > MAX_FRAME_BYTES && limit == MAX_FRAME_BYTES,
            Err(_) => false,
        },
{
    let size: u32 = header[0] as u32 + 256 * (header[1] as u32) + 65536 * (header[2] as u32)
        + 16777216 * (header[3] as u32);
    if size as usize > MAX_FRAME_BYTES {
        return Err(IpcError::FrameTooLarge { size: size as usize, limit: MAX_FRAME_BYTES });
    }
    Ok(size as usize)
}

/// The four little-endian bytes of `n`.
pub open spec fn le_bytes(n: nat) -> Seq<u8> {
    seq![(n % 256) as u8, ((n / 256) % 256) as u8, ((n / 65536) % 256) as u8, ((n / 16777216) % 256) as u8]
}

/// A written frame reads back as its payload: the frame that
/// [`write_frame`] makes of a payload within the limit declares the
/// payload's length, is complete, and carries the payload after its header,
/// so [`read_frame`] returns exactly that payload.
pub proof fn law_frame_round_trip(payload: Seq<u8>)
    requires
        payload.len() <= MAX_FRAME_BYTES,
    ensures
        le_u32(le_bytes(payload.len()) + payload) == payload.len(),
        !read_frame_fails(le_bytes(payload.len()) + payload),
        (le_bytes(payload.len()) + payload).subrange(4, 4 + payload.len() as int) == payload,
{
    let n: u64 = payload.len() as u64;
    let frame = le_bytes(payload.len()) + payload;
    assert(n == (n % 256) + 256 * ((n / 256) % 256) + 65536 * ((n / 65536) % 256) + 16777216 * ((n
        / 16777216) % 256)) by (bit_vector)
        requires
            n <= 1048576,
    ;
    assert(frame[0] == n % 256);
    assert(frame[1] == (n / 256) % 256);
    assert(frame[2] == (n / 65536) % 256);
    assert(frame[3] == (n / 16777216) % 256);
    assert(frame.subrange(4, 4 + payload.len() as int) =~= payload);
}

/// Frames `payload`: its length as four little-endian bytes, then the
/// payload itself.
pub fn write_frame(payload: &[u8]) -> (r: Result<Vec<u8>, IpcError>)
    ensures
        match r {
            Ok(frame) => payload@.len() <= MAX_FRAME_BYTES && frame@ == le_bytes(payload@.len())
                + payload@,
            Err(IpcError::FrameTooLarge { size, limit }) => payload@.len() > MAX_FRAME_BYTES
                && size == payload@.len() && limit == MAX_FRAME_BYTES,
            Err(_) => false,
        },
{
    let n = payload.len();
    if n > MAX_FRAME_BYTES {
        return Err(IpcError::FrameTooLarge { size: n, limit: MAX_FRAME_BYTES });
    }
    let mut frame: Vec<u8> = Vec::new();
    frame.push((n % 256) as u8);
    frame.push(((n / 256) % 256) as u8);
    frame.push(((n / 65536) % 256) as u8);
    frame.push(((n / 16777216) % 256) as u8);
    assert(frame@ =~= le_bytes(n as nat));
    let mut i: usize = 0;
    while i < n
        invariant
            i <= n == payload@.len(),
            frame@ =~= le_bytes(n as nat) + payload@.subrange(0, i as int),
        decreases n - i,
    {
        frame.push(payload[i]);
        i = i + 1;
    }
    assert(payload@.subrange(0, n as int) =~= payload@);
    Ok(frame)
}

/// Turns frame payloads into requests and responses into payloads.  The
/// service host supplies the JSON encoding.
pub trait RpcCodec {
    fn decode_request(&mut self, payload: &[u8]) -> Result<RpcRequest, IpcError>;

    fn encode_response(&mut self, response: &RpcResponse) -> Result<Vec<u8>, IpcError>;
}

/// What [`serve_one`] handed to the codec and the handler, call by call:
/// the payload given to decode, the request given to the handler and its
/// answer, the response given to encode and the bytes encode returned.
pub ghost struct ServeTrace {
    pub decode_input: Option<Seq<u8>>,
    pub decode_output: Option<RpcRequest>,
    pub handler_request: Option<RpcRequest>,
    pub handler_answer: Option<RpcResponse>,
    pub encode_input: Option<RpcResponse>,
    pub encode_output: Option<Seq<u8>>,
}

pub open spec fn ok_request(r: Result<RpcRequest, IpcError>) -> Option<RpcRequest> {
    match r {
        Ok(q) => Some(q),
        Err(_) => None,
    }
}

/// Decodes `payload` with the codec; the ghost result is the payload it
/// was given and the request it returned.
fn decode_with<C: RpcCodec>(codec: &mut C, payload: &[u8]) -> (r: (
    Result<RpcRequest, IpcError>,
    Ghost<(Seq<u8>, Option<RpcRequest>)>,
))
    ensures
        r.1@.0 == payload@,
        match r.0 {
            Ok(q) => r.1@.1 == Some(q),
            Err(_) => r.1@.1 is None,
        },
{
    let decoded = codec.decode_request(payload);
    let ghost out = ok_request(decoded);
    (decoded, Ghost((payload@, out)))
}

/// Asks the handler to answer `request`; the ghost result is the request
/// it was given.
fn handle_with<H: RpcHandler>(handler: &mut H, request: RpcRequest) -> (r: (RpcResponse, Ghost<RpcRequest>))
    ensures
        r.1@ == request,
{
    let ghost given = request;
    let answer = handler.handle_rpc(request);
    (answer, Ghost(given))
}

/// Encodes `response` with the codec; the ghost result is the response it
/// was given.
fn encode_with<C: RpcCodec>(codec: &mut C, response: &RpcResponse) -> (r: (Result<Vec<u8>, IpcError>, Ghost<RpcResponse>))
    ensures
        r.1@ == *response,
{
    let encoded = codec.encode_response(response);
    (encoded, Ghost(*response))
}

/// Handles exactly one framed request and returns the framed response,
/// with what was handed to the codec and the handler.
pub fn serve_one<H: RpcHandler, C: RpcCodec>(input: &[u8], handler: &mut H, codec: &mut C) -> (r: (
    Result<Vec<u8>, IpcError>,
    Ghost<ServeTrace>,
))
    ensures
        ({
            let t = r.1@;
            &&& read_frame_fails(input@) ==> t.decode_input is None && t.handler_request is None
            &&& !read_frame_fails(input@) ==> t.decode_input == Some(
                input@.subrange(4, 4 + le_u32(input@) as int),
            )
            &&& t.handler_request is Some ==> t.decode_input is Some && t.handler_request
                == t.decode_output
            &&& t.encode_input == t.handler_answer
            &&& match r.0 {
                Ok(out) => {
                    &&& !read_frame_fails(input@)
                    &&& t.handler_request is Some
                    &&& t.handler_answer is Some
                    &&& t.encode_output matches Some(bytes) && bytes.len() <= MAX_FRAME_BYTES && out@
                        == le_bytes(bytes.len()) + bytes
                },
                Err(_) => true,
            }
        }),
        read_frame_fails(input@) ==> *final(handler) == *old(handler) && *final(codec) == *old(codec),
        r.1@.handler_request is None ==> *final(handler) == *old(handler),
        input@.len() < 4 ==> (r.0 matches Err(IpcError::Io(detail)) && detail@ == short_read_text()),
        input@.len() >= 4 && le_u32(input@) > MAX_FRAME_BYTES ==> (r.0 matches Err(
            IpcError::FrameTooLarge { size, limit },
        ) && size == le_u32(input@) && limit == MAX_FRAME_BYTES),
        input@.len() >= 4 && le_u32(input@) <= MAX_FRAME_BYTES && input@.len() < 4 + le_u32(input@)
            ==> (r.0 matches Err(IpcError::Io(detail)) && detail@ == short_read_text()),
{
    let ghost mut trace = ServeTrace {
        decode_input: None,
        decode_output: None,
        handler_request: None,
        handler_answer: None,
        encode_input: None,
        encode_output: None,
    };
    let payload = match read_frame(input) {
        Ok(p) => p,
        Err(e) => {
            return (Err(e), Ghost(trace));
        },
    };
    let (decoded, Ghost(seen)) = decode_with(codec, payload.as_slice());
    proof {
        trace.decode_input = Some(seen.0);
        trace.decode_output = seen.1;
    }
    let request = match decoded {
        Ok(q) => q,
        Err(e) => {
            return (Err(e), Ghost(trace));
        },
    };
    let (response, Ghost(asked)) = handle_with(handler, request);
    proof {
        trace.handler_request = Some(asked);
        trace.handler_answer = Some(response);
    }
    let (encoded, Ghost(given)) = encode_with(codec, &response);
    proof {
        trace.encode_input = Some(given);
    }
    let bytes = match encoded {
        Ok(b) => b,
        Err(e) => {
            return (Err(e), Ghost(trace));
        },
    };
    proof {
        trace.encode_output = Some(bytes@);
    }
    let r = write_frame(bytes.as_slice());
    proof {
        if r is Ok {
            assert(r->Ok_0@ == le_bytes(bytes@.len()) + bytes@);
        }
    }
    (r, Ghost(trace))
}

/// Whether no complete frame within the size limit starts `bytes`.
pub open spec fn read_frame_fails(bytes: Seq<u8>) -> bool {
    bytes.len() < 4 || le_u32(bytes) > MAX_FRAME_BYTES || bytes.len() < 4 + le_u32(bytes)
}

/// The exchange of one request over the local pipe, performed by the host.
pub trait PipeTransport {
    fn exchange(&mut self, endpoint: &str, connect_timeout_ms: u64, request: &RpcRequest) -> Result<
        RpcResponse,
        IpcError,
    >;
}

/// Client of the service's local pipe.
pub struct IpcClient {
    endpoint: String,
    connect_timeout_ms: u64,
}

/// The name the desktop uses for [`IpcClient`].
pub type Client = IpcClient;

impl View for IpcClient {
    type V = (Seq<char>, u64);

    closed spec fn view(&self) -> (Seq<char>, u64) {
        (self.endpoint@, self.connect_timeout_ms)
    }
}

impl IpcClient {
    /// A client of `endpoint` that waits up to three seconds to connect.
    pub fn new(endpoint: String) -> (r: Self)
        ensures
            r@ == (endpoint@, 3000u64),
    {
        IpcClient { endpoint, connect_timeout_ms: 3000 }
    }

    /// A client of the installed service's pipe.
    pub fn windows_default() -> (r: Self)
        ensures
            r@ == (DEFAULT_PIPE_ENDPOINT@, 3000u64),
    {
        Self::new(owned(DEFAULT_PIPE_ENDPOINT))
    }

    pub fn endpoint(&self) -> (r: &str)
        ensures
            r@ == self@.0,
    {
        self.endpoint.as_str()
    }

    pub fn connect_timeout_ms(&self) -> (r: u64)
        ensures
            r == self@.1,
    {
        self.connect_timeout_ms
    }

    pub fn with_connect_timeout(self, timeout_ms: u64) -> (r: Self)
        ensures
            r@ == (self@.0, timeout_ms),
    {
        IpcClient { endpoint: self.endpoint, connect_timeout_ms: timeout_ms }
    }

    /// Sends `request` through `transport`, and returns the answer with what
    /// was handed to the transport: the endpoint, the connect timeout and
    /// the request, or nothing.  A request of another protocol version is
    /// refused before anything is sent, and a response of another version or
    /// for another request is refused.
    pub fn call<T: PipeTransport>(&self, transport: &mut T, request: &RpcRequest) -> (r: (
        Result<RpcResponse, IpcError>,
        Ghost<Option<(Seq<char>, u64, RpcRequest)>>,
    ))
        ensures
            request.protocol_version != PROTOCOL_VERSION ==> (r.0 matches Err(IpcError::Protocol(m))
                && m@ == "request protocol version "@ + decimal_text(
                request.protocol_version as nat,
            ) + " is unsupported (expected "@ + decimal_text(PROTOCOL_VERSION as nat) + ")"@),
            request.protocol_version != PROTOCOL_VERSION ==> *final(transport) == *old(transport)
                && r.1@ is None,
            request.protocol_version == PROTOCOL_VERSION ==> r.1@ == Some((self@.0, self@.1, *request)),
            r.0 is Ok ==> request.protocol_version == PROTOCOL_VERSION,
            r.0 matches Ok(response) ==> response.protocol_version == PROTOCOL_VERSION,
            r.0 matches Ok(response) ==> response.request_id == request.request_id,
    {
        if !request.is_compatible() {
            let mut m = concat3(
                "request protocol version ",
                decimal_string(request.protocol_version as u64).as_str(),
                " is unsupported (expected ",
            );
            crate::text::append_str(&mut m, decimal_string(PROTOCOL_VERSION as u64).as_str());
            crate::text::append_str(&mut m, ")");
            return (Err(IpcError::Protocol(m)), Ghost(None));
        }
        let (exchanged, Ghost(sent)) = exchange_with(
            transport,
            self.endpoint.as_str(),
            self.connect_timeout_ms,
            request,
        );
        let response = match exchanged {
            Ok(resp) => resp,
            Err(e) => {
                return (Err(e), Ghost(Some(sent)));
            },
        };
        if response.protocol_version != PROTOCOL_VERSION {
            return (
                Err(
                    IpcError::Protocol(
                        concat3(
                            "service protocol version ",
                            decimal_string(response.protocol_version as u64).as_str(),
                            " is unsupported",
                        ),
                    ),
                ),
                Ghost(Some(sent)),
            );
        }
        if response.request_id != request.request_id {
            return (
                Err(
                    IpcError::Protocol(owned("service response request_id does not match the request")),
                ),
                Ghost(Some(sent)),
            );
        }
        (Ok(response), Ghost(Some(sent)))
    }
}

/// Exchanges `request` through `transport`; the ghost result is the
/// endpoint, the connect timeout and the request it was given.
fn exchange_with<T: PipeTransport>(
    transport: &mut T,
    endpoint: &str,
    connect_timeout_ms: u64,
    request: &RpcRequest,
) -> (r: (Result<RpcResponse, IpcError>, Ghost<(Seq<char>, u64, RpcRequest)>))
    ensures
        r.1@ == (endpoint@, connect_timeout_ms, *request),
{
    let answer = transport.exchange(endpoint, connect_timeout_ms, request);
    (answer, Ghost((endpoint@, connect_timeout_ms, *request)))
}

} // verus!
