use stelliberty_ipc::service_client::{
    is_heartbeat_ack, IpcClient, LogStreamAction, LogStreamEvent, LogStreamPhase, LogStreamSession,
    SendDecision,
};
use stelliberty_ipc::service_protocol::{
    check_frame_len, encode_frame, u32_from_le_bytes, u32_to_le, IpcError, IpcResponse,
    MAX_LOG_FRAME_LEN, MAX_RESPONSE_LEN,
};

#[test]
fn frame_has_little_endian_prefix() {
    let f = encode_frame(b"{\"a\":1}");
    assert_eq!(f, vec![7, 0, 0, 0, b'{', b'"', b'a', b'"', b':', b'1', b'}']);
    assert_eq!(u32_to_le(0x0102_0304), [4, 3, 2, 1]);
    assert_eq!(u32_from_le_bytes([4, 3, 2, 1]), 0x0102_0304);
}

#[test]
fn oversized_response_prefix_is_rejected() {
    let prefix = u32_to_le(11 * 1024 * 1024);
    assert!(matches!(
        check_frame_len(prefix, MAX_RESPONSE_LEN),
        Err(IpcError::ResponseTooLarge(n)) if n == 11 * 1024 * 1024
    ));
    assert!(matches!(check_frame_len(u32_to_le(10 * 1024 * 1024), MAX_RESPONSE_LEN), Ok(n) if n == 10 * 1024 * 1024));
    assert!(matches!(check_frame_len(u32_to_le(1024 * 1024 + 1), MAX_LOG_FRAME_LEN), Err(IpcError::ResponseTooLarge(_))));
}

#[test]
fn client_settings() {
    let c = IpcClient::new();
    assert_eq!(c.timeout_ms, 5000);
    assert_eq!(c.max_retries, 3);
    let c = c.with_max_retries(7).with_timeout(250);
    assert_eq!(c.timeout_ms, 250);
    assert_eq!(c.max_retries, 7);
}

#[test]
fn two_transport_failures_then_success() {
    let client = IpcClient::new();
    let mut attempts = client.start_send();
    assert!(matches!(
        attempts.on_attempt(Err(IpcError::ConnectionFailed("refused".to_string()))),
        SendDecision::RetryAfterMs(100)
    ));
    assert!(matches!(attempts.on_attempt(Err(IpcError::Timeout)), SendDecision::RetryAfterMs(200)));
    assert!(matches!(
        attempts.on_attempt(Ok(IpcResponse::Pong)),
        SendDecision::Return(Ok(IpcResponse::Pong))
    ));
}

#[test]
fn retries_run_out() {
    let client = IpcClient::new().with_max_retries(1);
    let mut attempts = client.start_send();
    assert!(matches!(attempts.on_attempt(Err(IpcError::Timeout)), SendDecision::RetryAfterMs(100)));
    assert!(matches!(attempts.on_attempt(Err(IpcError::Timeout)), SendDecision::Return(Err(IpcError::Timeout))));
}

#[test]
fn service_error_is_never_retried() {
    let mut attempts = IpcClient::new().start_send();
    let d = attempts.on_attempt(Ok(IpcResponse::Error { code: 5, message: "denied".to_string() }));
    assert!(matches!(d, SendDecision::Return(Err(IpcError::ServiceError(5, ref m))) if m == "denied"));
}

#[test]
fn protocol_error_is_not_retried() {
    let mut attempts = IpcClient::new().start_send();
    let d = attempts.on_attempt(Err(IpcError::ResponseTooLarge(20_000_000)));
    assert!(matches!(d, SendDecision::Return(Err(IpcError::ResponseTooLarge(20_000_000)))));
}

#[test]
fn heartbeat_probe() {
    assert!(is_heartbeat_ack(&Some(Ok(IpcResponse::HeartbeatAck))));
    assert!(!is_heartbeat_ack(&Some(Ok(IpcResponse::Pong))));
    assert!(!is_heartbeat_ack(&Some(Err(IpcError::Timeout))));
    assert!(!is_heartbeat_ack(&None));
}

fn line(s: &str) -> LogStreamEvent {
    LogStreamEvent::Frame(IpcResponse::LogStream { line: s.to_string() })
}

#[test]
fn callback_false_after_third_line_stops_stream() {
    let mut s = LogStreamSession::new();
    assert!(matches!(s.step(LogStreamEvent::FrameLength(u32_to_le(20))), LogStreamAction::ReadBody(20)));
    assert!(matches!(
        s.step(LogStreamEvent::Frame(IpcResponse::Success { message: None })),
        LogStreamAction::ReadLength
    ));
    let mut delivered = Vec::new();
    let verdicts = [true, true, false];
    for (i, go_on) in verdicts.iter().enumerate() {
        assert!(matches!(s.step(LogStreamEvent::FrameLength(u32_to_le(30))), LogStreamAction::ReadBody(30)));
        match s.step(line(&format!("line {}", i))) {
            LogStreamAction::Deliver(l) => delivered.push(l),
            _ => panic!("expected a line"),
        }
        let next = s.step(LogStreamEvent::CallbackReturned(*go_on));
        if *go_on {
            assert!(matches!(next, LogStreamAction::ReadLength));
        } else {
            assert!(matches!(next, LogStreamAction::Finish(Ok(()))));
        }
    }
    assert_eq!(delivered, vec!["line 0", "line 1", "line 2"]);
    assert_eq!(s.delivered, 3);
    assert!(s.phase == LogStreamPhase::Closed);
}

#[test]
fn stream_ack_error_and_unexpected() {
    let mut s = LogStreamSession::new();
    s.step(LogStreamEvent::FrameLength(u32_to_le(10)));
    assert!(matches!(
        s.step(LogStreamEvent::Frame(IpcResponse::Error { code: 2, message: "busy".to_string() })),
        LogStreamAction::Finish(Err(IpcError::ServiceError(2, _)))
    ));
    let mut s = LogStreamSession::new();
    s.step(LogStreamEvent::FrameLength(u32_to_le(10)));
    assert!(matches!(
        s.step(LogStreamEvent::Frame(IpcResponse::Pong)),
        LogStreamAction::Finish(Err(IpcError::UnexpectedInitialResponse))
    ));
}

#[test]
fn stream_clean_end_and_oversized_line() {
    let mut s = LogStreamSession::new();
    s.step(LogStreamEvent::FrameLength(u32_to_le(10)));
    s.step(LogStreamEvent::Frame(IpcResponse::Success { message: Some("ok".to_string()) }));
    assert!(matches!(s.step(LogStreamEvent::EndOfStream), LogStreamAction::Finish(Ok(()))));

    let mut s = LogStreamSession::new();
    s.step(LogStreamEvent::FrameLength(u32_to_le(10)));
    s.step(LogStreamEvent::Frame(IpcResponse::Success { message: None }));
    assert!(matches!(
        s.step(LogStreamEvent::FrameLength(u32_to_le(2 * 1024 * 1024))),
        LogStreamAction::Finish(Err(IpcError::ResponseTooLarge(_)))
    ));
}

#[test]
fn stream_wrong_frame_kind() {
    let mut s = LogStreamSession::new();
    s.step(LogStreamEvent::FrameLength(u32_to_le(10)));
    s.step(LogStreamEvent::Frame(IpcResponse::Success { message: None }));
    s.step(LogStreamEvent::FrameLength(u32_to_le(10)));
    assert!(matches!(
        s.step(LogStreamEvent::Frame(IpcResponse::HeartbeatAck)),
        LogStreamAction::Finish(Err(IpcError::UnexpectedLogResponse))
    ));
    assert!(matches!(s.step(LogStreamEvent::EndOfStream), LogStreamAction::Finish(Err(IpcError::StreamClosed))));
}
