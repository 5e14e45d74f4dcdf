//! Frames of the local control protocol, and what a client makes of an answer.

use vstd::prelude::*;
use vstd::string::*;

use crate::ids;
use crate::json::Json;
use crate::protocol::{RpcRequest, RpcResponse, MAX_FRAME_BYTES, PROTOCOL_VERSION};
use crate::text;

verus! {

/// How long an answer of the service is waited for.
pub const REQUEST_TIMEOUT_SECONDS: u64 = 35;

/// A client of the service behind a socket.
#[derive(Debug)]
pub struct WatchcatClient {
    socket_path: String,
}

impl WatchcatClient {
    /// The path of the socket.
    pub closed spec fn socket_path_view(&self) -> String {
        self.socket_path
    }

    /// A client of the service behind the socket at a path.
    pub fn new(socket_path: String) -> (r: Self)
        ensures
            r.socket_path_view() == socket_path,
    {
        WatchcatClient { socket_path }
    }

    /// The path of the socket.
    pub fn socket_path(&self) -> (r: &String)
        ensures
            *r == self.socket_path_view(),
    {
        &self.socket_path
    }
}

/// A request of the service, under a random identifier. Nothing is said of the identifier but its
/// length.
pub fn new_request(method: &str, params: Json, expected_revision: Option<u64>) -> (r: RpcRequest)
    ensures
        r.version == PROTOCOL_VERSION,
        r.id@.len() == 36,
        r.method@ == method@,
        r.params == params,
        r.expected_revision == expected_revision,
{
    RpcRequest {
        version: PROTOCOL_VERSION,
        id: ids::random_id(),
        method: method.to_owned(),
        params,
        expected_revision,
    }
}

/// Why an answer is of no use.
#[derive(Debug)]
pub enum ClientError {
    /// The service speaks another version of the protocol.
    ProtocolMismatch(u32),
    /// The answer is one to another request.
    WrongRequest,
    /// The service says that the request failed.
    Failed { code: String, message: String },
}

impl ClientError {
    /// The error in words.
    pub open spec fn message_view(self) -> Seq<char> {
        match self {
            ClientError::ProtocolMismatch(version) => "Watchcat service protocol "@
                + text::decimal_view(version as nat) + " is not supported; expected "@
                + text::decimal_view(PROTOCOL_VERSION as nat),
            ClientError::WrongRequest =>
                "Watchcat service returned a response for another request"@,
            ClientError::Failed { code, message } => code@ + ": "@ + message@,
        }
    }

    /// The error in words.
    pub fn message(&self) -> (r: String)
        ensures
            r@ == self.message_view(),
    {
        match self {
            ClientError::ProtocolMismatch(version) => "Watchcat service protocol ".to_owned().concat(
                text::decimal(*version as u64).as_str(),
            ).concat(" is not supported; expected ").concat(
                text::decimal(PROTOCOL_VERSION as u64).as_str(),
            ),
            ClientError::WrongRequest =>
                "Watchcat service returned a response for another request".to_owned(),
            ClientError::Failed { code, message } => code.clone().concat(": ").concat(
                message.as_str(),
            ),
        }
    }
}

/// Checks the protocol version of an answer.
pub fn validate_response_version(version: u32) -> (r: Result<(), ClientError>)
    ensures
        match r {
            Ok(()) => version == PROTOCOL_VERSION,
            Err(ClientError::ProtocolMismatch(found)) => version != PROTOCOL_VERSION && found
                == version,
            Err(_) => false,
        },
{
    if version != PROTOCOL_VERSION {
        Err(ClientError::ProtocolMismatch(version))
    } else {
        Ok(())
    }
}

/// Takes the result and the revision out of the answer to a request.
pub fn accept_response(request_id: &str, response: RpcResponse) -> (r: Result<
    (Json, u64),
    ClientError,
>)
    ensures
        match r {
            Ok((result, revision)) => {
                &&& response.version == PROTOCOL_VERSION
                &&& response.id@ == request_id@
                &&& response.error is None
                &&& revision == response.revision
                &&& result == (match response.result {
                    Some(value) => value,
                    None => Json::Null,
                })
            },
            Err(ClientError::ProtocolMismatch(version)) => version == response.version
                && response.version != PROTOCOL_VERSION,
            Err(ClientError::WrongRequest) => response.version == PROTOCOL_VERSION
                && response.id@ != request_id@,
            Err(ClientError::Failed { code, message }) => {
                &&& response.version == PROTOCOL_VERSION
                &&& response.id@ == request_id@
                &&& response.error is Some
                &&& code == response.error->0.code
                &&& message == response.error->0.message
            },
        },
{
    match validate_response_version(response.version) {
        Err(error) => {
            return Err(error);
        },
        Ok(()) => {},
    }
    if !text::same(response.id.as_str(), request_id) {
        return Err(ClientError::WrongRequest);
    }
    match response.error {
        Some(error) => {
            return Err(ClientError::Failed { code: error.code, message: error.message });
        },
        None => {},
    }
    let result = match response.result {
        Some(value) => value,
        None => Json::Null,
    };
    Ok((result, response.revision))
}

/// The frame is longer than what is allowed.
#[derive(Clone, Copy, Debug, PartialEq, Eq, Structural)]
pub struct FrameTooLarge {
    pub limit: usize,
}

impl FrameTooLarge {
    /// What is said of it.
    pub fn message(self) -> (r: String)
        ensures
            r@ == "RPC frame exceeds "@ + text::decimal_view(self.limit as nat) + " bytes"@,
    {
        "RPC frame exceeds ".to_owned().concat(text::decimal(self.limit as u64).as_str()).concat(
            " bytes",
        )
    }
}

/// A length in four bytes, the most significant first.
pub open spec fn length_prefix(n: nat) -> Seq<u8> {
    seq![
        (n / 16_777_216) as u8,
        (n / 65_536 % 256) as u8,
        (n / 256 % 256) as u8,
        (n % 256) as u8,
    ]
}

/// The length that four bytes stand for.
pub open spec fn prefix_length(prefix: Seq<u8>) -> nat {
    (prefix[0] * 16_777_216 + prefix[1] * 65_536 + prefix[2] * 256 + prefix[3]) as nat
}

/// Reading a length prefix gives back the length that was written.
pub proof fn prefix_round_trips(n: nat)
    requires
        n < 4_294_967_296,
    ensures
        length_prefix(n).len() == 4,
        prefix_length(length_prefix(n)) == n,
{
}

/// A frame: the length of the payload, then the payload.
pub open spec fn framed(payload: Seq<u8>) -> Seq<u8> {
    length_prefix(payload.len()) + payload
}

/// Puts a payload into a frame, unless it is too long.
pub fn write_frame(payload: &Vec<u8>) -> (r: Result<Vec<u8>, FrameTooLarge>)
    ensures
        match r {
            Ok(frame) => payload@.len() <= MAX_FRAME_BYTES && frame@ == framed(payload@),
            Err(error) => payload@.len() > MAX_FRAME_BYTES && error.limit == MAX_FRAME_BYTES,
        },
{
    let length: usize = payload.len();
    if length > MAX_FRAME_BYTES {
        return Err(FrameTooLarge { limit: MAX_FRAME_BYTES });
    }
    let mut frame: Vec<u8> = Vec::new();
    frame.push((length / 16_777_216) as u8);
    frame.push((length / 65_536 % 256) as u8);
    frame.push((length / 256 % 256) as u8);
    frame.push((length % 256) as u8);
    assert(frame@ =~= length_prefix(payload@.len()));
    let mut i: usize = 0;
    while i < payload.len()
        invariant
            i <= payload@.len(),
            length == payload@.len(),
            frame@ == length_prefix(payload@.len()) + payload@.take(i as int),
        decreases payload@.len() - i,
    {
        frame.push(payload[i]);
        i += 1;
        assert(frame@ =~= length_prefix(payload@.len()) + payload@.take(i as int));
    }
    assert(payload@.take(i as int) =~= payload@);
    Ok(frame)
}

/// Reads the length of a payload from the first four bytes of a frame, unless it is too long.
pub fn read_frame_length(prefix: [u8; 4], limit: usize) -> (r: Result<usize, FrameTooLarge>)
    ensures
        match r {
            Ok(length) => length == prefix_length(prefix@) && length <= limit,
            Err(error) => prefix_length(prefix@) > limit && error.limit == limit,
        },
{
    let length: u64 = prefix[0] as u64 * 16_777_216 + prefix[1] as u64 * 65_536 + prefix[2] as u64
        * 256 + prefix[3] as u64;
    if length > limit as u64 {
        return Err(FrameTooLarge { limit });
    }
    Ok(length as usize)
}

/// What the bytes at the start of a stream hold.
#[derive(Debug)]
pub enum FrameRead {
    /// More bytes are needed.
    Incomplete,
    /// The payload is too long.
    TooLarge(FrameTooLarge),
    /// A payload, and how many bytes it took.
    Frame { payload: Vec<u8>, taken: usize },
}

/// `r` is what the bytes at the start of a stream hold, where payloads are at most `limit` long.
pub open spec fn is_first_frame(r: FrameRead, bytes: Seq<u8>, limit: nat) -> bool {
    match r {
        FrameRead::Incomplete => bytes.len() < 4 || (prefix_length(bytes.take(4)) <= limit
            && bytes.len() < 4 + prefix_length(bytes.take(4))),
        FrameRead::TooLarge(error) => bytes.len() >= 4 && prefix_length(bytes.take(4)) > limit
            && error.limit == limit,
        FrameRead::Frame { payload, taken } => {
            &&& bytes.len() >= 4
            &&& prefix_length(bytes.take(4)) <= limit
            &&& taken == 4 + prefix_length(bytes.take(4))
            &&& taken <= bytes.len()
            &&& payload@ == bytes.subrange(4, taken as int)
        },
    }
}

/// Takes the first frame from the bytes of a stream.
pub fn read_frame(bytes: &Vec<u8>) -> (r: FrameRead)
    ensures
        is_first_frame(r, bytes@, MAX_FRAME_BYTES as nat),
{
    read_frame_with_limit(bytes, MAX_FRAME_BYTES)
}

/// Takes the first frame from the bytes of a stream, where payloads are at most `limit` long. A
/// payload that is too long is refused before any of it has come.
pub fn read_frame_with_limit(bytes: &Vec<u8>, limit: usize) -> (r: FrameRead)
    ensures
        is_first_frame(r, bytes@, limit as nat),
{
    if bytes.len() < 4 {
        return FrameRead::Incomplete;
    }
    let prefix: [u8; 4] = [bytes[0], bytes[1], bytes[2], bytes[3]];
    assert(prefix@ =~= bytes@.take(4));
    let length: usize = match read_frame_length(prefix, limit) {
        Err(error) => {
            return FrameRead::TooLarge(error);
        },
        Ok(length) => length,
    };
    let total: usize = bytes.len();
    if total - 4 < length {
        return FrameRead::Incomplete;
    }
    let mut payload: Vec<u8> = Vec::new();
    let mut i: usize = 4;
    while i < 4 + length
        invariant
            4 <= i <= 4 + length,
            4 + length <= bytes@.len(),
            total == bytes@.len(),
            payload@ == bytes@.subrange(4, i as int),
        decreases 4 + length - i,
    {
        payload.push(bytes[i]);
        i += 1;
        assert(payload@ =~= bytes@.subrange(4, i as int));
    }
    FrameRead::Frame { payload, taken: 4 + length }
}

/// A frame that was written is read back, whatever follows it in the stream.
pub proof fn frames_round_trip(payload: Seq<u8>, rest: Seq<u8>)
    requires
        payload.len() <= MAX_FRAME_BYTES,
    ensures
        ({
            let stream = framed(payload) + rest;
            &&& prefix_length(stream.take(4)) == payload.len()
            &&& stream.len() >= 4 + payload.len()
            &&& stream.subrange(4, 4 + payload.len() as int) == payload
            &&& stream.skip(4 + payload.len() as int) == rest
        }),
{
    let stream = framed(payload) + rest;
    prefix_round_trips(payload.len());
    assert(stream.take(4) =~= length_prefix(payload.len()));
    assert(stream.subrange(4, 4 + payload.len() as int) =~= payload);
    assert(stream.skip(4 + payload.len() as int) =~= rest);
}

} // verus!
