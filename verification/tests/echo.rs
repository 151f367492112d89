use jsonrpc_udp::echo::{
    check_sent, line_outcome, EchoServer, IncompleteSend, LineOutcome, Reply, RpcError,
};
use jsonrpc_udp::packer::ConfigError;

fn text(reply: &Reply) -> String {
    match reply {
        Reply::Error(bytes) | Reply::Responses(bytes) => String::from_utf8(bytes.clone()).unwrap(),
    }
}

#[test]
fn call_is_echoed() {
    let server = EchoServer::new(65507).unwrap();
    let sent = server.handle_datagram(br#"{"jsonrpc":"2.0","method":"ping","id":"abc"}"#);
    assert_eq!(
        sent,
        vec![Reply::Responses(
            br#"{"jsonrpc":"2.0","id":"abc","result":{"jsonrpc":"2.0","method":"ping","id":"abc"}}"#
                .to_vec()
        )]
    );
}

#[test]
fn batch_array_is_an_invalid_request() {
    let server = EchoServer::new(65507).unwrap();
    let sent = server.handle_datagram(b"[1,2]");
    assert_eq!(
        sent,
        vec![Reply::Error(
            br#"{"jsonrpc":"2.0","id":null,"error":{"code":-32600,"message":"invalid request"}}"#
                .to_vec()
        )]
    );
}

#[test]
fn malformed_line_is_a_parse_error_and_the_next_line_is_answered() {
    let server = EchoServer::new(65507).unwrap();
    let sent = server.handle_datagram(b"{oops\n{\"jsonrpc\":\"2.0\",\"method\":\"m\",\"id\":7}\n");
    assert_eq!(sent.len(), 2);
    assert_eq!(
        text(&sent[0]),
        r#"{"jsonrpc":"2.0","id":null,"error":{"code":-32700,"message":"parse error"}}"#
    );
    assert!(matches!(sent[0], Reply::Error(_)));
    assert_eq!(
        text(&sent[1]),
        r#"{"jsonrpc":"2.0","id":7,"result":{"jsonrpc":"2.0","method":"m","id":7}}"#
    );
    assert!(matches!(sent[1], Reply::Responses(_)));
}

#[test]
fn invalid_utf8_gets_one_parse_error() {
    let server = EchoServer::new(65507).unwrap();
    let sent = server.handle_datagram(b"{\"jsonrpc\":\"2.0\",\"method\":\"m\",\"id\":1}\n\xff\xfe");
    assert_eq!(sent, vec![Reply::Error(RpcError::ParseError.response())]);
}

#[test]
fn empty_datagram_and_empty_lines_are_passed_over() {
    let server = EchoServer::new(100).unwrap();
    assert_eq!(server.handle_datagram(b""), Vec::<Reply>::new());
    assert_eq!(server.handle_datagram(b"\n\n\n"), Vec::<Reply>::new());
}

#[test]
fn notification_gets_no_reply() {
    let server = EchoServer::new(100).unwrap();
    assert_eq!(
        server.handle_datagram(br#"{"jsonrpc":"2.0","method":"m"}"#),
        Vec::<Reply>::new()
    );
    assert_eq!(line_outcome(br#"{"jsonrpc":"2.0","method":"m"}"#), LineOutcome::Silent);
}

#[test]
fn request_is_written_on_one_line_in_the_result() {
    let outcome = line_outcome(b" { \"jsonrpc\" : \"2.0\", \"method\" : \"a\\u0062\", \"id\" : -5 } ");
    assert_eq!(
        outcome,
        LineOutcome::Answered(
            br#"{"jsonrpc":"2.0","id":-5,"result":{"jsonrpc":"2.0","method":"ab","id":-5}}"#.to_vec()
        )
    );
}

#[test]
fn string_id_is_escaped_in_the_response() {
    let outcome = line_outcome(br#"{"jsonrpc":"2.0","method":"m","id":"a\"b\n"}"#);
    assert_eq!(
        outcome,
        LineOutcome::Answered(
            br#"{"jsonrpc":"2.0","id":"a\"b\n","result":{"jsonrpc":"2.0","method":"m","id":"a\"b\n"}}"#
                .to_vec()
        )
    );
}

#[test]
fn oversized_response_is_an_internal_error_and_leaves_the_batch_alone() {
    let server = EchoServer::new(80).unwrap();
    let small = LineOutcome::Answered(vec![b'a'; 30]);
    let large = LineOutcome::Answered(vec![b'b'; 81]);
    let sent = server.replies(&vec![small.clone(), large, small]);
    let mut batch = vec![b'a'; 30];
    batch.push(b'\n');
    batch.extend_from_slice(&[b'a'; 30]);
    assert_eq!(
        sent,
        vec![Reply::Error(RpcError::InternalError.response()), Reply::Responses(batch)]
    );
    assert_eq!(
        text(&sent[0]),
        r#"{"jsonrpc":"2.0","id":null,"error":{"code":-32603,"message":"internal error"}}"#
    );
}

#[test]
fn responses_are_flushed_when_the_next_does_not_fit() {
    let server = EchoServer::new(50).unwrap();
    let a = LineOutcome::Answered(vec![b'a'; 30]);
    let b = LineOutcome::Answered(vec![b'b'; 30]);
    let sent = server.replies(&vec![a, LineOutcome::Refused(RpcError::InvalidRequest), b]);
    assert_eq!(
        sent,
        vec![
            Reply::Error(RpcError::InvalidRequest.response()),
            Reply::Responses(vec![b'a'; 30]),
            Reply::Responses(vec![b'b'; 30]),
        ]
    );
}

#[test]
fn response_that_fills_the_capacity_is_batched() {
    let server = EchoServer::new(61).unwrap();
    let a = LineOutcome::Answered(vec![b'a'; 30]);
    let sent = server.replies(&vec![a.clone(), a]);
    assert_eq!(sent.len(), 1);
    assert_eq!(text(&sent[0]).len(), 61);
}

#[test]
fn server_capacity_is_checked() {
    assert!(matches!(EchoServer::new(0), Err(ConfigError::ZeroCapacity)));
    assert!(matches!(EchoServer::new(65508), Err(ConfigError::CapacityTooLarge)));
    assert_eq!(EchoServer::new(65507).unwrap().capacity(), 65507);
    assert_eq!(EchoServer::new(1).unwrap().capacity(), 1);
}

#[test]
fn error_codes_and_messages() {
    assert_eq!(RpcError::ParseError.code(), -32700);
    assert_eq!(RpcError::InvalidRequest.code(), -32600);
    assert_eq!(RpcError::InternalError.code(), -32603);
    assert_eq!(RpcError::ParseError.message(), "parse error");
    assert_eq!(RpcError::InvalidRequest.message(), "invalid request");
    assert_eq!(RpcError::InternalError.message(), "internal error");
}

#[test]
fn batch_of_responses_must_be_sent_whole() {
    assert_eq!(check_sent(3, b"abc"), Ok(()));
    assert_eq!(check_sent(2, b"abc"), Err(IncompleteSend));
    assert_eq!(IncompleteSend.message(), "failed to send complete response");
}
