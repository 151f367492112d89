use jsonrpc_udp::utils::{normalize_server_addr, parse_duration_secs, DurationError};
use std::time::Duration;

#[test]
fn port_only_address_gets_local_host() {
    assert_eq!(normalize_server_addr(":9000"), "127.0.0.1:9000");
}

#[test]
fn full_address_is_kept() {
    assert_eq!(normalize_server_addr("10.0.0.1:80"), "10.0.0.1:80");
    assert_eq!(normalize_server_addr(""), "");
}

#[test]
fn duration_in_seconds() {
    assert_eq!(parse_duration_secs("1.5"), Ok(Duration::from_millis(1500)));
    assert_eq!(parse_duration_secs("2"), Ok(Duration::from_secs(2)));
}

#[test]
fn duration_errors() {
    assert_eq!(parse_duration_secs("abc"), Err(DurationError::NotANumber));
    assert_eq!(parse_duration_secs("-1"), Err(DurationError::OutOfRange));
    assert_eq!(parse_duration_secs("NaN"), Err(DurationError::OutOfRange));
}
