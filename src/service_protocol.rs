//! Wire vocabulary and binary framing of the helper-process command protocol:
//! each message is a little-endian `u32` byte count followed by a JSON payload.

use vstd::prelude::*;

verus! {

/// Largest response payload accepted for a command (10 MiB).
pub const MAX_RESPONSE_LEN: usize = 10 * 1024 * 1024;

/// Largest single frame accepted while streaming log lines (1 MiB).
pub const MAX_LOG_FRAME_LEN: usize = 1024 * 1024;

/// Commands understood by the helper process.
pub enum IpcCommand {
    Ping,
    Heartbeat,
    GetStatus,
    StartClash {
        core_path: String,
        config_path: String,
        data_dir: String,
        external_controller: String,
    },
    StopClash,
    StreamLogs,
}

/// Responses sent back by the helper process.
#[allow(inconsistent_fields)]
pub enum IpcResponse {
    Pong,
    HeartbeatAck,
    Status { clash_running: bool, clash_pid: Option<u32>, service_uptime: u64 },
    Success { message: Option<String> },
    Error { code: i32, message: String },
    LogStream { line: String },
}

/// Failures of the command protocol.
pub enum IpcError {
    /// The endpoint could not be opened.
    ConnectionFailed(String),
    /// A read or write on an open connection failed.
    Io(String),
    /// A wait exceeded the per-attempt deadline.
    Timeout,
    /// A payload could not be encoded or decoded.
    Serialization(String),
    /// The helper answered with an explicit `Error` response.
    ServiceError(i32, String),
    /// A length prefix announced more bytes than the applicable cap.
    ResponseTooLarge(usize),
    /// The acknowledgement of a log stream was neither `Success` nor `Error`.
    UnexpectedInitialResponse,
    /// A log-stream frame was neither `LogStream` nor `Error`.
    UnexpectedLogResponse,
    /// The stream ended, or was already closed, where more data was required.
    StreamClosed,
    /// An event was reported that the session was not waiting for.
    OutOfOrderEvent,
}

impl IpcError {
    /// Transport-level failures (connect, read/write, timeout) are worth retrying;
    /// protocol and server-reported failures are not.
    pub open spec fn spec_is_retryable(&self) -> bool {
        match self {
            IpcError::ConnectionFailed(_) | IpcError::Io(_) | IpcError::Timeout => true,
            _ => false,
        }
    }

    pub fn is_retryable(&self) -> (r: bool)
        ensures
            r == self.spec_is_retryable(),
    {
        match self {
            IpcError::ConnectionFailed(_) | IpcError::Io(_) | IpcError::Timeout => true,
            _ => false,
        }
    }
}

/// The four little-endian bytes of `n`.
pub open spec fn u32_le_bytes(n: u32) -> Seq<u8> {
    seq![
        (n % 256) as u8,
        ((n / 256) % 256) as u8,
        ((n / 65536) % 256) as u8,
        (n / 16777216) as u8,
    ]
}

/// The number that four little-endian bytes denote.
pub open spec fn u32_from_le(b: Seq<u8>) -> nat
    recommends
        b.len() == 4,
{
    (b[0] as nat) + 256 * (b[1] as nat) + 65536 * (b[2] as nat) + 16777216 * (b[3] as nat)
}

/// A complete frame: the payload's length as a little-endian `u32`, then the payload.
pub open spec fn frame_of(payload: Seq<u8>) -> Seq<u8>
    recommends
        payload.len() <= u32::MAX,
{
    u32_le_bytes(payload.len() as u32) + payload
}

/// Encodes `n` as four little-endian bytes.
pub fn u32_to_le(n: u32) -> (r: [u8; 4])
    ensures
        r@ == u32_le_bytes(n),
        u32_from_le(r@) == n,
{
    let r = [
        (n % 256) as u8,
        ((n / 256) % 256) as u8,
        ((n / 65536) % 256) as u8,
        (n / 16777216) as u8,
    ];
    assert(r@ =~= u32_le_bytes(n));
    r
}

/// Decodes four little-endian bytes.
pub fn u32_from_le_bytes(b: [u8; 4]) -> (r: u32)
    ensures
        r as nat == u32_from_le(b@),
{
    (b[0] as u32) + 256 * (b[1] as u32) + 65536 * (b[2] as u32) + 16777216 * (b[3] as u32)
}

/// Builds the frame that carries `payload`.
pub fn encode_frame(payload: &[u8]) -> (r: Vec<u8>)
    requires
        payload@.len() <= u32::MAX,
    ensures
        r@ == frame_of(payload@),
{
    let prefix = u32_to_le(payload.len() as u32);
    let mut r: Vec<u8> = Vec::new();
    r.push(prefix[0]);
    r.push(prefix[1]);
    r.push(prefix[2]);
    r.push(prefix[3]);
    let mut i: usize = 0;
    while i < payload.len()
        invariant
            i <= payload@.len(),
            r@ == u32_le_bytes(payload@.len() as u32) + payload@.subrange(0, i as int),
        decreases payload@.len() - i,
    {
        r.push(payload[i]);
        i = i + 1;
        assert(r@ =~= u32_le_bytes(payload@.len() as u32) + payload@.subrange(0, i as int));
    }
    assert(payload@.subrange(0, i as int) =~= payload@);
    r
}

/// Checks a received length prefix against `cap`: a larger length is refused before
/// any payload byte is read; otherwise the payload length is returned.
pub fn check_frame_len(prefix: [u8; 4], cap: usize) -> (r: Result<usize, IpcError>)
    ensures
        u32_from_le(prefix@) <= cap ==> r == Ok::<usize, IpcError>(u32_from_le(prefix@) as usize),
        u32_from_le(prefix@) > cap ==> r == Err::<usize, IpcError>(
            IpcError::ResponseTooLarge(u32_from_le(prefix@) as usize),
        ),
{
    let len = u32_from_le_bytes(prefix) as usize;
    if len > cap {
        Err(IpcError::ResponseTooLarge(len))
    } else {
        Ok(len)
    }
}

} // verus!
