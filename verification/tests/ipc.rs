use vibe_easytier_service::ipc::{
    frame_payload_size, is_valid_owner_sid, read_frame, serve_one, write_frame, IpcClient, IpcError, PipeTransport,
    RpcCodec, RpcHandler, DEFAULT_PIPE_ENDPOINT, MAX_FRAME_BYTES,
};
use vibe_easytier_service::protocol::{
    RpcCommand, RpcRequest, RpcResponse, RpcResult, PROTOCOL_VERSION,
};

/// A tiny text encoding of the requests and responses these tests send.
struct TextCodec;

fn encode_request(request: &RpcRequest) -> Vec<u8> {
    let method = match request.command {
        RpcCommand::Ping => "ping",
        RpcCommand::GetStatus => "get_status",
        _ => "other",
    };
    format!("{} {} {}", request.protocol_version, request.request_id, method).into_bytes()
}

fn decode_response(payload: &[u8]) -> (u64, Option<RpcResult>) {
    let text = String::from_utf8(payload.to_vec()).unwrap();
    let mut parts = text.split(' ');
    let id: u64 = parts.next().unwrap().parse().unwrap();
    let result = match parts.next() {
        Some("pong") => Some(RpcResult::Pong),
        _ => None,
    };
    (id, result)
}

impl RpcCodec for TextCodec {
    fn decode_request(&mut self, payload: &[u8]) -> Result<RpcRequest, IpcError> {
        let text = String::from_utf8(payload.to_vec())
            .map_err(|error| IpcError::Serialization(error.to_string()))?;
        let parts: Vec<&str> = text.split(' ').collect();
        if parts.len() != 3 {
            return Err(IpcError::Serialization("malformed request".to_owned()));
        }
        let command = match parts[2] {
            "ping" => RpcCommand::Ping,
            "get_status" => RpcCommand::GetStatus,
            _ => return Err(IpcError::Serialization("unknown method".to_owned())),
        };
        Ok(RpcRequest {
            protocol_version: parts[0].parse().unwrap(),
            request_id: parts[1].parse().unwrap(),
            command,
        })
    }

    fn encode_response(&mut self, response: &RpcResponse) -> Result<Vec<u8>, IpcError> {
        let result = match response.result {
            Some(RpcResult::Pong) => "pong",
            _ => "other",
        };
        Ok(format!("{} {}", response.request_id, result).into_bytes())
    }
}

struct Echo;

impl RpcHandler for Echo {
    fn handle_rpc(&mut self, request: RpcRequest) -> RpcResponse {
        RpcResponse::ok(request.request_id, RpcResult::Pong)
    }
}

#[test]
fn length_prefixed_requests_round_trip() {
    let request = RpcRequest::new(9, RpcCommand::Ping);
    let bytes = write_frame(&encode_request(&request)).unwrap();

    let payload = read_frame(&bytes).unwrap();
    let decoded = TextCodec.decode_request(&payload).unwrap();
    assert_eq!(decoded.request_id, request.request_id);
    assert_eq!(decoded.protocol_version, request.protocol_version);
    assert!(matches!(decoded.command, RpcCommand::Ping));
}

#[test]
fn frame_limit_is_enforced_before_allocating() {
    let mut bytes = ((MAX_FRAME_BYTES + 1) as u32).to_le_bytes().to_vec();
    bytes.extend_from_slice(b"ignored");

    assert!(matches!(
        read_frame(&bytes),
        Err(IpcError::FrameTooLarge { .. })
    ));
}

#[test]
fn server_helper_handles_a_single_request() {
    let input = write_frame(&encode_request(&RpcRequest::new(4, RpcCommand::Ping))).unwrap();
    let mut handler = Echo;

    let output = serve_one(&input, &mut handler, &mut TextCodec).0.unwrap();
    let (id, result) = decode_response(&read_frame(&output).unwrap());
    assert_eq!(id, 4);
    assert_eq!(result, Some(RpcResult::Pong));
}

#[test]
fn owner_sid_validation_rejects_non_sid_strings() {
    assert!(is_valid_owner_sid("S-1-5-21-123-456-789-1001"));
    assert!(!is_valid_owner_sid("interactive-users"));
    assert!(!is_valid_owner_sid("S-1-5"));
}

#[test]
fn frames_carry_a_little_endian_length_prefix() {
    let frame = write_frame(b"abc").unwrap();
    assert_eq!(frame, vec![3, 0, 0, 0, b'a', b'b', b'c']);
    let long = vec![7u8; 300];
    let frame = write_frame(&long).unwrap();
    assert_eq!(&frame[..4], &[44, 1, 0, 0]);
    assert_eq!(read_frame(&frame).unwrap(), long);
}

#[test]
fn short_frames_are_io_errors() {
    assert!(matches!(read_frame(&[1, 0]), Err(IpcError::Io(_))));
    assert!(matches!(read_frame(&[5, 0, 0, 0, 1, 2]), Err(IpcError::Io(_))));
    assert_eq!(read_frame(&[0, 0, 0, 0]).unwrap(), Vec::<u8>::new());
}

#[test]
fn oversized_payloads_are_not_framed() {
    let payload = vec![0u8; MAX_FRAME_BYTES + 1];
    match write_frame(&payload) {
        Err(IpcError::FrameTooLarge { size, limit }) => {
            assert_eq!(size, MAX_FRAME_BYTES + 1);
            assert_eq!(limit, MAX_FRAME_BYTES);
        }
        _ => panic!("an oversized payload must be refused"),
    }
    let error = IpcError::FrameTooLarge { size: 5, limit: 4 };
    assert_eq!(error.message(), "IPC frame is too large: 5 bytes (limit 4)");
}

#[test]
fn a_truncated_request_is_refused_by_the_server_helper() {
    let mut handler = Echo;
    assert!(serve_one(&[9, 0, 0], &mut handler, &mut TextCodec).0.is_err());
}

#[test]
fn owner_sids_need_a_revision_authority_and_sub_authorities() {
    assert!(is_valid_owner_sid("S-1-5-18-1"));
    assert!(!is_valid_owner_sid("S-1-5-"));
    assert!(!is_valid_owner_sid("S-1-5-x-1"));
    assert!(!is_valid_owner_sid("s-1-5-21-1"));
    assert!(!is_valid_owner_sid(""));
}

struct Replying {
    response: Option<RpcResponse>,
    calls: usize,
}

impl PipeTransport for Replying {
    fn exchange(
        &mut self,
        _endpoint: &str,
        _connect_timeout_ms: u64,
        _request: &RpcRequest,
    ) -> Result<RpcResponse, IpcError> {
        self.calls += 1;
        self.response
            .take()
            .ok_or_else(|| IpcError::Unavailable("no response".to_owned()))
    }
}

#[test]
fn client_refuses_mismatched_versions_and_request_ids() {
    let client = IpcClient::windows_default().with_connect_timeout(2_000);
    assert_eq!(client.endpoint(), DEFAULT_PIPE_ENDPOINT);
    assert_eq!(client.connect_timeout_ms(), 2_000);
    assert_eq!(IpcClient::new("pipe".to_owned()).connect_timeout_ms(), 3_000);

    let mut transport = Replying {
        response: Some(RpcResponse::ok(1, RpcResult::Pong)),
        calls: 0,
    };
    let response = client
        .call(&mut transport, &RpcRequest::new(1, RpcCommand::Ping))
        .0
        .unwrap();
    assert_eq!(response.result, Some(RpcResult::Pong));

    let mut wrong_id = Replying {
        response: Some(RpcResponse::ok(2, RpcResult::Pong)),
        calls: 0,
    };
    assert!(matches!(
        client.call(&mut wrong_id, &RpcRequest::new(1, RpcCommand::Ping)).0,
        Err(IpcError::Protocol(_))
    ));

    let mut untouched = Replying {
        response: None,
        calls: 0,
    };
    let mut old = RpcRequest::new(3, RpcCommand::Ping);
    old.protocol_version = PROTOCOL_VERSION + 1;
    match client.call(&mut untouched, &old).0 {
        Err(IpcError::Protocol(message)) => assert_eq!(
            message,
            "request protocol version 2 is unsupported (expected 1)"
        ),
        _ => panic!("an incompatible request must be refused"),
    }
    assert_eq!(untouched.calls, 0);
}

#[test]
fn frame_header_is_little_endian_and_bounded_before_reading() {
    assert_eq!(frame_payload_size([5, 0, 0, 0]).unwrap(), 5);
    assert_eq!(frame_payload_size([0, 1, 0, 0]).unwrap(), 256);
    assert_eq!(frame_payload_size([0, 0, 16, 0]).unwrap(), MAX_FRAME_BYTES);
    match frame_payload_size([1, 0, 16, 0]) {
        Err(IpcError::FrameTooLarge { size, limit }) => {
            assert_eq!(size, MAX_FRAME_BYTES + 1);
            assert_eq!(limit, MAX_FRAME_BYTES);
        }
        other => panic!("unexpected result: {other:?}"),
    }
}
