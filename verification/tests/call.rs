use jsonrpc_udp::call::{check_sent, Accepted, CallError, CallSession};
use jsonrpc_udp::document::SyntaxError;
use jsonrpc_udp::envelope::ValidationError;
use jsonrpc_udp::message::EnvelopeError;
use jsonrpc_udp::packer::ConfigError;

const CALL: &str = r#"{"jsonrpc":"2.0","method":"m","id":1}"#;
const NOTIFICATION: &str = r#"{"jsonrpc":"2.0","method":"m"}"#;

#[test]
fn settings_are_checked() {
    assert_eq!(
        CallSession::new(0, 5000, false).err(),
        Some(CallError::BufferSize(ConfigError::ZeroCapacity))
    );
    assert_eq!(
        CallSession::new(65508, 5000, false).err(),
        Some(CallError::BufferSize(ConfigError::CapacityTooLarge))
    );
    assert_eq!(CallSession::new(1200, 0, false).err(), Some(CallError::ZeroTimeout));
    assert_eq!(
        CallSession::new(0, 0, false).err(),
        Some(CallError::BufferSize(ConfigError::ZeroCapacity))
    );
    let session = CallSession::new(65507, 1, true).ok().unwrap();
    assert_eq!(session.buf_size(), 65507);
    assert_eq!(session.pending_responses(), 0);
    assert_eq!(session.received(), 0);
    assert!(!session.awaits_response());
}

#[test]
fn one_call_and_one_notification_await_one_response() {
    let mut session = CallSession::new(1200, 5000, false).ok().unwrap();
    assert_eq!(session.push_request(CALL), Ok(None));
    assert_eq!(session.pending_responses(), 1);
    assert_eq!(session.push_request(NOTIFICATION), Ok(None));
    assert_eq!(session.pending_responses(), 1);
    let sent = session.finish().unwrap();
    assert_eq!(sent, format!("{CALL}\n{NOTIFICATION}").into_bytes());
    assert_eq!(session.finish(), None);
    assert!(session.awaits_response());
}

#[test]
fn calls_are_counted_one_by_one() {
    let mut session = CallSession::new(1200, 5000, false).ok().unwrap();
    for round in 0..5 {
        session.push_request(CALL).unwrap();
        assert_eq!(session.pending_responses(), 2 * round + 1);
        session.push_request(NOTIFICATION).unwrap();
        assert_eq!(session.pending_responses(), 2 * round + 1);
        session.push_request(r#"{"jsonrpc":"2.0","method":"m","id":"s"}"#).unwrap();
        assert_eq!(session.pending_responses(), 2 * round + 2);
        session.finish();
        session.push_request(NOTIFICATION).unwrap();
        assert_eq!(session.pending_responses(), 2 * round + 2);
    }
}

#[test]
fn notification_alone_awaits_nothing() {
    let mut session = CallSession::new(1200, 5000, false).ok().unwrap();
    assert_eq!(session.push_request(NOTIFICATION), Ok(None));
    assert_eq!(session.finish(), Some(NOTIFICATION.as_bytes().to_vec()));
    assert_eq!(session.pending_responses(), 0);
    assert!(!session.awaits_response());
}

#[test]
fn two_requests_of_30_bytes_in_50_flush_once_in_between() {
    let first = r#"{"jsonrpc":"2.0","method":"a"}"#;
    let second = r#"{"jsonrpc":"2.0","method":"b"}"#;
    assert_eq!(first.len(), 30);
    assert_eq!(second.len(), 30);
    let mut session = CallSession::new(50, 5000, false).ok().unwrap();
    assert_eq!(session.push_request(first), Ok(None));
    assert_eq!(session.push_request(second), Ok(Some(first.as_bytes().to_vec())));
    assert_eq!(session.finish(), Some(second.as_bytes().to_vec()));
    assert_eq!(session.finish(), None);
}

#[test]
fn request_that_fills_the_datagram_is_not_flushed() {
    let line = r#"{"jsonrpc":"2.0","method":"a"}"#;
    let mut session = CallSession::new(61, 5000, false).ok().unwrap();
    assert_eq!(session.push_request(line), Ok(None));
    assert_eq!(session.push_request(line), Ok(None));
    assert_eq!(session.finish().unwrap().len(), 61);
    let mut session = CallSession::new(60, 5000, false).ok().unwrap();
    assert_eq!(session.push_request(line), Ok(None));
    assert_eq!(session.push_request(line), Ok(Some(line.as_bytes().to_vec())));
}

#[test]
fn bad_request_line_ends_the_run() {
    let mut session = CallSession::new(1200, 5000, false).ok().unwrap();
    session.push_request(CALL).unwrap();
    assert_eq!(
        session.push_request("{"),
        Err(CallError::Request(EnvelopeError::Syntax(SyntaxError { position: 1 })))
    );
    assert_eq!(
        session.push_request(""),
        Err(CallError::Request(EnvelopeError::Syntax(SyntaxError { position: 0 })))
    );
    assert_eq!(
        session.push_request("[1,2]"),
        Err(CallError::Request(EnvelopeError::Invalid(ValidationError::BatchRequest)))
    );
    assert_eq!(session.pending_responses(), 1);
    assert_eq!(session.finish(), Some(CALL.as_bytes().to_vec()));
}

#[test]
fn request_longer_than_the_buffer_ends_the_run() {
    let mut session = CallSession::new(36, 5000, false).ok().unwrap();
    assert_eq!(CALL.len(), 37);
    assert_eq!(session.push_request(NOTIFICATION), Ok(None));
    assert_eq!(session.push_request(CALL), Err(CallError::RequestTooLarge));
    assert_eq!(session.pending_responses(), 0);
    assert_eq!(session.finish(), Some(NOTIFICATION.as_bytes().to_vec()));
    let mut session = CallSession::new(37, 5000, false).ok().unwrap();
    assert_eq!(session.push_request(CALL), Ok(None));
    // An invalid line is refused for what it is, however long it is.
    let mut session = CallSession::new(2, 5000, false).ok().unwrap();
    assert_eq!(
        session.push_request("[1,2]"),
        Err(CallError::Request(EnvelopeError::Invalid(ValidationError::BatchRequest)))
    );
}

#[test]
fn responses_are_counted_and_written_out() {
    let mut session = CallSession::new(1200, 5000, false).ok().unwrap();
    session.push_request(CALL).unwrap();
    session.push_request(CALL).unwrap();
    session.finish();
    let accepted = session.accept_datagram(
        b"{\"jsonrpc\": \"2.0\", \"id\": 1, \"result\": 1}\n\n{\"jsonrpc\":\"2.0\",\"id\":1,\"error\":{}}\n",
    );
    assert_eq!(
        accepted,
        Accepted {
            lines: vec![
                r#"{"jsonrpc":"2.0","id":1,"result":1}"#.to_owned(),
                r#"{"jsonrpc":"2.0","id":1,"error":{}}"#.to_owned(),
            ],
            failure: None,
        }
    );
    assert_eq!(session.received(), 2);
    assert!(!session.awaits_response());
}

#[test]
fn responses_beyond_the_awaited_are_still_written_out() {
    let mut session = CallSession::new(1200, 5000, true).ok().unwrap();
    session.push_request(CALL).unwrap();
    let accepted =
        session.accept_datagram(b"{\"jsonrpc\":\"2.0\",\"result\":1}\n{\"jsonrpc\":\"2.0\",\"result\":2}");
    assert_eq!(
        accepted.lines,
        vec![
            "{\n  \"jsonrpc\": \"2.0\",\n  \"result\": 1\n}".to_owned(),
            "{\n  \"jsonrpc\": \"2.0\",\n  \"result\": 2\n}".to_owned(),
        ]
    );
    assert_eq!(accepted.failure, None);
    assert_eq!(session.received(), 2);
    assert_eq!(session.pending_responses(), 1);
    assert!(!session.awaits_response());
}

#[test]
fn malformed_response_ends_the_run_after_the_lines_in_front_of_it() {
    let mut session = CallSession::new(1200, 5000, false).ok().unwrap();
    session.push_request(CALL).unwrap();
    let accepted = session.accept_datagram(
        b"{\"jsonrpc\":\"2.0\",\"result\":1}\n{\"jsonrpc\":\"2.0\"}\n{\"jsonrpc\":\"2.0\",\"result\":3}",
    );
    assert_eq!(accepted.lines, vec![r#"{"jsonrpc":"2.0","result":1}"#.to_owned()]);
    assert_eq!(
        accepted.failure,
        Some(CallError::Response(EnvelopeError::Invalid(ValidationError::MissingResultOrError)))
    );
    assert_eq!(session.received(), 1);
    let accepted = session.accept_datagram(b"nope");
    assert_eq!(accepted.lines, Vec::<String>::new());
    assert_eq!(
        accepted.failure,
        Some(CallError::Response(EnvelopeError::Syntax(SyntaxError { position: 1 })))
    );
    assert_eq!(session.received(), 1);
}

#[test]
fn datagram_that_is_not_utf8_ends_the_run() {
    let mut session = CallSession::new(1200, 5000, false).ok().unwrap();
    session.push_request(CALL).unwrap();
    let accepted = session.accept_datagram(b"{\"jsonrpc\":\"2.0\",\"result\":1}\n\xff");
    assert_eq!(accepted, Accepted { lines: vec![], failure: Some(CallError::InvalidEncoding) });
    assert_eq!(session.received(), 0);
}

#[test]
fn empty_datagram_counts_for_nothing() {
    let mut session = CallSession::new(1200, 5000, false).ok().unwrap();
    session.push_request(CALL).unwrap();
    assert_eq!(session.accept_datagram(b""), Accepted { lines: vec![], failure: None });
    assert_eq!(session.accept_datagram(b"\n\n"), Accepted { lines: vec![], failure: None });
    assert!(session.awaits_response());
}

#[test]
fn timeout_reports_how_many_responses_were_there() {
    let mut session = CallSession::new(1200, 5000, false).ok().unwrap();
    for _ in 0..3 {
        session.push_request(CALL).unwrap();
    }
    session.accept_datagram(b"{\"jsonrpc\":\"2.0\",\"result\":1}");
    let error = session.timed_out();
    assert_eq!(error, CallError::TimedOut { received: 1, expected: 3 });
    assert_eq!(error.message(), "timed out waiting for responses (received 1 of 3)");
}

#[test]
fn datagram_must_be_sent_whole() {
    assert_eq!(check_sent(5, b"abcde"), Ok(()));
    assert_eq!(check_sent(4, b"abcde"), Err(CallError::IncompleteSend));
    assert_eq!(check_sent(0, b""), Ok(()));
    assert_eq!(check_sent(6, b"abcde"), Err(CallError::IncompleteSend));
}

#[test]
fn call_error_messages() {
    assert_eq!(
        CallError::BufferSize(ConfigError::ZeroCapacity).message(),
        "buf-size must be greater than 0"
    );
    assert_eq!(CallError::BufferSize(ConfigError::CapacityTooLarge).message(), "buf-size must be <= 65507");
    assert_eq!(CallError::ZeroTimeout.message(), "timeout must be greater than 0");
    assert_eq!(CallError::RequestTooLarge.message(), "request exceeds buffer capacity");
    assert_eq!(CallError::IncompleteSend.message(), "failed to send complete request packet");
    assert_eq!(CallError::InvalidEncoding.message(), "response is not valid UTF-8");
    assert_eq!(
        CallError::Request(EnvelopeError::Invalid(ValidationError::MissingMethod)).message(),
        "method field is required"
    );
    assert_eq!(
        CallError::Response(EnvelopeError::Syntax(SyntaxError { position: 12 })).message(),
        "invalid JSON at byte position 12"
    );
}
