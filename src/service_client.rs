//! Client-side decisions of the helper-process command protocol: retry policy of a
//! single command, the heartbeat probe, and the log-streaming session. The caller
//! performs the I/O each decision asks for and reports back what happened.

use vstd::prelude::*;
use crate::service_protocol::{
    check_frame_len, u32_from_le, IpcError, IpcResponse, MAX_LOG_FRAME_LEN, MAX_RESPONSE_LEN,
};

verus! {

/// Per-attempt deadline used when none is configured (milliseconds).
pub const DEFAULT_TIMEOUT_MS: u64 = 5000;

/// Extra attempts made after a transport failure when none is configured.
pub const DEFAULT_MAX_RETRIES: usize = 3;

/// Deadline of the heartbeat probe (milliseconds).
pub const HEARTBEAT_TIMEOUT_MS: u64 = 500;

/// Unit of the linear back-off between attempts (milliseconds).
pub const BACKOFF_STEP_MS: u64 = 100;

/// Settings of a command client. Each command uses a fresh connection.
pub struct IpcClient {
    /// Deadline for every wait of one attempt, in milliseconds.
    pub timeout_ms: u64,
    /// Number of additional attempts after a transport failure.
    pub max_retries: usize,
}

impl IpcClient {
    pub fn default() -> (r: IpcClient)
        ensures
            r.timeout_ms == DEFAULT_TIMEOUT_MS,
            r.max_retries == DEFAULT_MAX_RETRIES,
    {
        IpcClient { timeout_ms: DEFAULT_TIMEOUT_MS, max_retries: DEFAULT_MAX_RETRIES }
    }

    pub fn new() -> (r: IpcClient)
        ensures
            r.timeout_ms == DEFAULT_TIMEOUT_MS,
            r.max_retries == DEFAULT_MAX_RETRIES,
    {
        IpcClient::default()
    }

    pub fn with_timeout(self, timeout_ms: u64) -> (r: IpcClient)
        ensures
            r.timeout_ms == timeout_ms,
            r.max_retries == self.max_retries,
    {
        IpcClient { timeout_ms, max_retries: self.max_retries }
    }

    pub fn with_max_retries(self, max_retries: usize) -> (r: IpcClient)
        ensures
            r.timeout_ms == self.timeout_ms,
            r.max_retries == max_retries,
    {
        IpcClient { timeout_ms: self.timeout_ms, max_retries }
    }

    /// Starts the retry bookkeeping of one command.
    pub fn start_send(&self) -> (r: SendAttempts)
        ensures
            r.attempt == 0,
            r.max_retries == self.max_retries,
    {
        SendAttempts { attempt: 0, max_retries: self.max_retries }
    }
}

/// What to do after one attempt of a command.
pub enum SendDecision {
    /// The command is over, with this result.
    Return(Result<IpcResponse, IpcError>),
    /// Wait this many milliseconds, then make another attempt.
    RetryAfterMs(u64),
}

/// Retry bookkeeping of one command: `attempt` is the zero-based number of the
/// attempt whose outcome is reported next.
pub struct SendAttempts {
    pub attempt: usize,
    pub max_retries: usize,
}

/// Back-off before attempt number `next` (1-based among the retries): `100 * next`
/// milliseconds, saturated at the largest `u64`.
pub open spec fn backoff_ms(next: nat) -> u64 {
    if BACKOFF_STEP_MS * next > u64::MAX {
        u64::MAX
    } else {
        (BACKOFF_STEP_MS * next) as u64
    }
}

/// The decision after an attempt numbered `attempt` (zero-based) ended with
/// `outcome`: an `Error` response is terminal and surfaced as a service error, any
/// other response is the result, a transport failure is retried while retries
/// remain, and any other failure is returned as it is.
pub open spec fn send_decision(attempt: nat, max_retries: nat, outcome: Result<IpcResponse, IpcError>) -> SendDecision {
    match outcome {
        Ok(IpcResponse::Error { code, message }) => SendDecision::Return(Err(IpcError::ServiceError(code, message))),
        Ok(resp) => SendDecision::Return(Ok(resp)),
        Err(e) => if e.spec_is_retryable() && attempt < max_retries {
            SendDecision::RetryAfterMs(backoff_ms(attempt + 1))
        } else {
            SendDecision::Return(Err(e))
        },
    }
}

impl SendAttempts {
    /// Reports the outcome of the current attempt and returns what to do next.
    pub fn on_attempt(&mut self, outcome: Result<IpcResponse, IpcError>) -> (r: SendDecision)
        requires
            old(self).attempt <= old(self).max_retries,
        ensures
            r == send_decision(old(self).attempt as nat, old(self).max_retries as nat, outcome),
            final(self).max_retries == old(self).max_retries,
            r is RetryAfterMs ==> final(self).attempt == old(self).attempt + 1,
            r is Return ==> final(self).attempt == old(self).attempt,
            final(self).attempt <= final(self).max_retries,
    {
        match outcome {
            Ok(IpcResponse::Error { code, message }) => SendDecision::Return(Err(IpcError::ServiceError(code, message))),
            Ok(resp) => SendDecision::Return(Ok(resp)),
            Err(e) => {
                if e.is_retryable() && self.attempt < self.max_retries {
                    self.attempt = self.attempt + 1;
                    let next = self.attempt as u64;
                    let delay = if next > u64::MAX / BACKOFF_STEP_MS {
                        u64::MAX
                    } else {
                        BACKOFF_STEP_MS * next
                    };
                    SendDecision::RetryAfterMs(delay)
                } else {
                    SendDecision::Return(Err(e))
                }
            },
        }
    }
}

/// Two transport failures followed by a regular response end the command with that
/// response, after back-offs of 100 and then 200 milliseconds, whenever at least two
/// retries are allowed.
pub proof fn lemma_two_failures_then_success(
    max_retries: nat,
    e1: IpcError,
    e2: IpcError,
    resp: IpcResponse,
)
    requires
        max_retries >= 2,
        e1.spec_is_retryable(),
        e2.spec_is_retryable(),
        !(resp is Error),
    ensures
        send_decision(0, max_retries, Err(e1)) == SendDecision::RetryAfterMs(100),
        send_decision(1, max_retries, Err(e2)) == SendDecision::RetryAfterMs(200),
        send_decision(2, max_retries, Ok(resp)) == SendDecision::Return(Ok::<IpcResponse, IpcError>(resp)),
{
}

/// True exactly when a heartbeat completed in time (`Some`) with a `HeartbeatAck`.
pub fn is_heartbeat_ack(outcome: &Option<Result<IpcResponse, IpcError>>) -> (r: bool)
    ensures
        r <==> (outcome matches Some(Ok(IpcResponse::HeartbeatAck))),
{
    match outcome {
        Some(Ok(IpcResponse::HeartbeatAck)) => true,
        _ => false,
    }
}

/// Where a log-streaming session stands.
#[derive(Clone, Copy, PartialEq, Eq, Structural)]
pub enum LogStreamPhase {
    /// Waiting for the length prefix of the acknowledgement.
    AckLength,
    /// Waiting for the decoded acknowledgement.
    AckBody,
    /// Waiting for the length prefix of the next log frame.
    LineLength,
    /// Waiting for the decoded log frame.
    LineBody,
    /// Waiting for the callback's verdict on the line just delivered.
    Callback,
    /// The session is over; the connection is closed from this side.
    Closed,
}

/// What the caller observed since the last action.
pub enum LogStreamEvent {
    /// Four bytes of a length prefix were read.
    FrameLength([u8; 4]),
    /// The stream ended cleanly before a length prefix.
    EndOfStream,
    /// A frame's payload was read and decoded.
    Frame(IpcResponse),
    /// The callback returned this verdict.
    CallbackReturned(bool),
    /// A read or decode failed.
    Failed(IpcError),
}

/// What the caller must do next.
pub enum LogStreamAction {
    /// Read a four-byte length prefix.
    ReadLength,
    /// Read exactly this many bytes and decode them as a response.
    ReadBody(usize),
    /// Pass this line to the callback.
    Deliver(String),
    /// Close the connection; the session ends with this result.
    Finish(Result<(), IpcError>),
}

/// One step of the log-streaming session.
pub open spec fn log_transition(phase: LogStreamPhase, event: LogStreamEvent) -> (LogStreamPhase, LogStreamAction) {
    match (phase, event) {
        (LogStreamPhase::Closed, _) => (LogStreamPhase::Closed, LogStreamAction::Finish(Err(IpcError::StreamClosed))),
        (_, LogStreamEvent::Failed(e)) => (LogStreamPhase::Closed, LogStreamAction::Finish(Err(e))),
        (LogStreamPhase::AckLength, LogStreamEvent::FrameLength(p)) =>
            if u32_from_le(p@) > MAX_RESPONSE_LEN {
                (LogStreamPhase::Closed, LogStreamAction::Finish(Err(IpcError::ResponseTooLarge(u32_from_le(p@) as usize))))
            } else {
                (LogStreamPhase::AckBody, LogStreamAction::ReadBody(u32_from_le(p@) as usize))
            },
        (LogStreamPhase::AckBody, LogStreamEvent::Frame(resp)) => match resp {
            IpcResponse::Success { .. } => (LogStreamPhase::LineLength, LogStreamAction::ReadLength),
            IpcResponse::Error { code, message } =>
                (LogStreamPhase::Closed, LogStreamAction::Finish(Err(IpcError::ServiceError(code, message)))),
            _ => (LogStreamPhase::Closed, LogStreamAction::Finish(Err(IpcError::UnexpectedInitialResponse))),
        },
        (LogStreamPhase::LineLength, LogStreamEvent::FrameLength(p)) =>
            if u32_from_le(p@) > MAX_LOG_FRAME_LEN {
                (LogStreamPhase::Closed, LogStreamAction::Finish(Err(IpcError::ResponseTooLarge(u32_from_le(p@) as usize))))
            } else {
                (LogStreamPhase::LineBody, LogStreamAction::ReadBody(u32_from_le(p@) as usize))
            },
        (LogStreamPhase::LineLength, LogStreamEvent::EndOfStream) =>
            (LogStreamPhase::Closed, LogStreamAction::Finish(Ok(()))),
        (LogStreamPhase::LineBody, LogStreamEvent::Frame(resp)) => match resp {
            IpcResponse::LogStream { line } => (LogStreamPhase::Callback, LogStreamAction::Deliver(line)),
            IpcResponse::Error { code, message } =>
                (LogStreamPhase::Closed, LogStreamAction::Finish(Err(IpcError::ServiceError(code, message)))),
            _ => (LogStreamPhase::Closed, LogStreamAction::Finish(Err(IpcError::UnexpectedLogResponse))),
        },
        (LogStreamPhase::Callback, LogStreamEvent::CallbackReturned(go_on)) =>
            if go_on {
                (LogStreamPhase::LineLength, LogStreamAction::ReadLength)
            } else {
                (LogStreamPhase::Closed, LogStreamAction::Finish(Ok(())))
            },
        (_, LogStreamEvent::EndOfStream) => (LogStreamPhase::Closed, LogStreamAction::Finish(Err(IpcError::StreamClosed))),
        _ => (LogStreamPhase::Closed, LogStreamAction::Finish(Err(IpcError::OutOfOrderEvent))),
    }
}

/// Runs a sequence of events from `phase`: the phase reached and the actions asked for.
pub open spec fn run_log(phase: LogStreamPhase, events: Seq<LogStreamEvent>) -> (LogStreamPhase, Seq<LogStreamAction>)
    decreases events.len(),
{
    if events.len() == 0 {
        (phase, Seq::empty())
    } else {
        let (mid, actions) = run_log(phase, events.drop_last());
        let (next, action) = log_transition(mid, events.last());
        (next, actions.push(action))
    }
}

/// Three log lines whose callback returns `true`, `true`, then `false` are each
/// delivered once, after which the session closes with success and asks for no
/// further read, whatever is reported afterwards.
pub proof fn lemma_callback_stop_after_third_line(
    len_a: [u8; 4],
    len_b: [u8; 4],
    len_c: [u8; 4],
    line_a: String,
    line_b: String,
    line_c: String,
)
    requires
        u32_from_le(len_a@) <= MAX_LOG_FRAME_LEN,
        u32_from_le(len_b@) <= MAX_LOG_FRAME_LEN,
        u32_from_le(len_c@) <= MAX_LOG_FRAME_LEN,
    ensures
        run_log(
            LogStreamPhase::LineLength,
            seq![
                LogStreamEvent::FrameLength(len_a),
                LogStreamEvent::Frame(IpcResponse::LogStream { line: line_a }),
                LogStreamEvent::CallbackReturned(true),
                LogStreamEvent::FrameLength(len_b),
                LogStreamEvent::Frame(IpcResponse::LogStream { line: line_b }),
                LogStreamEvent::CallbackReturned(true),
                LogStreamEvent::FrameLength(len_c),
                LogStreamEvent::Frame(IpcResponse::LogStream { line: line_c }),
                LogStreamEvent::CallbackReturned(false),
            ],
        ) == (
            LogStreamPhase::Closed,
            seq![
                LogStreamAction::ReadBody(u32_from_le(len_a@) as usize),
                LogStreamAction::Deliver(line_a),
                LogStreamAction::ReadLength,
                LogStreamAction::ReadBody(u32_from_le(len_b@) as usize),
                LogStreamAction::Deliver(line_b),
                LogStreamAction::ReadLength,
                LogStreamAction::ReadBody(u32_from_le(len_c@) as usize),
                LogStreamAction::Deliver(line_c),
                LogStreamAction::Finish(Ok(())),
            ],
        ),
        forall|e: LogStreamEvent| (#[trigger] log_transition(LogStreamPhase::Closed, e)).1 is Finish,
{
    let events = seq![
        LogStreamEvent::FrameLength(len_a),
        LogStreamEvent::Frame(IpcResponse::LogStream { line: line_a }),
        LogStreamEvent::CallbackReturned(true),
        LogStreamEvent::FrameLength(len_b),
        LogStreamEvent::Frame(IpcResponse::LogStream { line: line_b }),
        LogStreamEvent::CallbackReturned(true),
        LogStreamEvent::FrameLength(len_c),
        LogStreamEvent::Frame(IpcResponse::LogStream { line: line_c }),
        LogStreamEvent::CallbackReturned(false),
    ];
    assert forall|i: int| 1 <= i <= 9 implies #[trigger] events.subrange(0, i).drop_last() =~= events.subrange(0, i - 1) by {}
    assert(events.subrange(0, 9) =~= events);
    let r1 = run_log(LogStreamPhase::LineLength, events.subrange(0, 1));
    let r2 = run_log(LogStreamPhase::LineLength, events.subrange(0, 2));
    let r3 = run_log(LogStreamPhase::LineLength, events.subrange(0, 3));
    let r4 = run_log(LogStreamPhase::LineLength, events.subrange(0, 4));
    let r5 = run_log(LogStreamPhase::LineLength, events.subrange(0, 5));
    let r6 = run_log(LogStreamPhase::LineLength, events.subrange(0, 6));
    let r7 = run_log(LogStreamPhase::LineLength, events.subrange(0, 7));
    let r8 = run_log(LogStreamPhase::LineLength, events.subrange(0, 8));
    let r9 = run_log(LogStreamPhase::LineLength, events.subrange(0, 9));
    assert(run_log(LogStreamPhase::LineLength, events.subrange(0, 0)) == (LogStreamPhase::LineLength, Seq::<LogStreamAction>::empty()));
    assert(r1.0 == LogStreamPhase::LineBody);
    assert(r2.0 == LogStreamPhase::Callback);
    assert(r3.0 == LogStreamPhase::LineLength);
    assert(r4.0 == LogStreamPhase::LineBody);
    assert(r5.0 == LogStreamPhase::Callback);
    assert(r6.0 == LogStreamPhase::LineLength);
    assert(r7.0 == LogStreamPhase::LineBody);
    assert(r8.0 == LogStreamPhase::Callback);
    assert(r9.0 == LogStreamPhase::Closed);
    assert(r9.1 =~= seq![
        LogStreamAction::ReadBody(u32_from_le(len_a@) as usize),
        LogStreamAction::Deliver(line_a),
        LogStreamAction::ReadLength,
        LogStreamAction::ReadBody(u32_from_le(len_b@) as usize),
        LogStreamAction::Deliver(line_b),
        LogStreamAction::ReadLength,
        LogStreamAction::ReadBody(u32_from_le(len_c@) as usize),
        LogStreamAction::Deliver(line_c),
        LogStreamAction::Finish(Ok(())),
    ]);
}

/// A log-streaming session: `delivered` counts the lines handed to the callback.
pub struct LogStreamSession {
    pub phase: LogStreamPhase,
    pub delivered: u64,
}

impl LogStreamSession {
    /// A session whose `StreamLogs` command has just been written; the first action
    /// is to read the acknowledgement's length prefix.
    pub fn new() -> (r: LogStreamSession)
        ensures
            r.phase == LogStreamPhase::AckLength,
            r.delivered == 0,
    {
        LogStreamSession { phase: LogStreamPhase::AckLength, delivered: 0 }
    }

    /// Feeds one event and returns the next action.
    pub fn step(&mut self, event: LogStreamEvent) -> (r: LogStreamAction)
        requires
            old(self).delivered < u64::MAX,
        ensures
            (final(self).phase, r) == log_transition(old(self).phase, event),
            final(self).delivered == if r is Deliver { old(self).delivered + 1 } else { old(self).delivered as int },
    {
        let phase = self.phase;
        self.phase = LogStreamPhase::Closed;
        match (phase, event) {
            (LogStreamPhase::Closed, _) => LogStreamAction::Finish(Err(IpcError::StreamClosed)),
            (_, LogStreamEvent::Failed(e)) => LogStreamAction::Finish(Err(e)),
            (LogStreamPhase::AckLength, LogStreamEvent::FrameLength(p)) => {
                match check_frame_len(p, MAX_RESPONSE_LEN) {
                    Ok(n) => {
                        self.phase = LogStreamPhase::AckBody;
                        LogStreamAction::ReadBody(n)
                    },
                    Err(e) => LogStreamAction::Finish(Err(e)),
                }
            },
            (LogStreamPhase::AckBody, LogStreamEvent::Frame(resp)) => match resp {
                IpcResponse::Success { .. } => {
                    self.phase = LogStreamPhase::LineLength;
                    LogStreamAction::ReadLength
                },
                IpcResponse::Error { code, message } => LogStreamAction::Finish(Err(IpcError::ServiceError(code, message))),
                _ => LogStreamAction::Finish(Err(IpcError::UnexpectedInitialResponse)),
            },
            (LogStreamPhase::LineLength, LogStreamEvent::FrameLength(p)) => {
                match check_frame_len(p, MAX_LOG_FRAME_LEN) {
                    Ok(n) => {
                        self.phase = LogStreamPhase::LineBody;
                        LogStreamAction::ReadBody(n)
                    },
                    Err(e) => LogStreamAction::Finish(Err(e)),
                }
            },
            (LogStreamPhase::LineLength, LogStreamEvent::EndOfStream) => LogStreamAction::Finish(Ok(())),
            (LogStreamPhase::LineBody, LogStreamEvent::Frame(resp)) => match resp {
                IpcResponse::LogStream { line } => {
                    self.phase = LogStreamPhase::Callback;
                    self.delivered = self.delivered + 1;
                    LogStreamAction::Deliver(line)
                },
                IpcResponse::Error { code, message } => LogStreamAction::Finish(Err(IpcError::ServiceError(code, message))),
                _ => LogStreamAction::Finish(Err(IpcError::UnexpectedLogResponse)),
            },
            (LogStreamPhase::Callback, LogStreamEvent::CallbackReturned(go_on)) => {
                if go_on {
                    self.phase = LogStreamPhase::LineLength;
                    LogStreamAction::ReadLength
                } else {
                    LogStreamAction::Finish(Ok(()))
                }
            },
            (_, LogStreamEvent::EndOfStream) => LogStreamAction::Finish(Err(IpcError::StreamClosed)),
            _ => LogStreamAction::Finish(Err(IpcError::OutOfOrderEvent)),
        }
    }
}

} // verus!
