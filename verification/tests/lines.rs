use jsonrpc_udp::lines::{lines, SEPARATOR};

#[test]
fn payload_is_split_at_line_feeds() {
    assert_eq!(SEPARATOR, b'\n');
    assert_eq!(lines(b"ab\ncd\nef"), vec![b"ab".to_vec(), b"cd".to_vec(), b"ef".to_vec()]);
    assert_eq!(lines(b"ab"), vec![b"ab".to_vec()]);
}

#[test]
fn empty_lines_are_left_out() {
    assert_eq!(lines(b""), Vec::<Vec<u8>>::new());
    assert_eq!(lines(b"\n"), Vec::<Vec<u8>>::new());
    assert_eq!(lines(b"\n\n\n"), Vec::<Vec<u8>>::new());
    assert_eq!(lines(b"\nab\n\ncd\n"), vec![b"ab".to_vec(), b"cd".to_vec()]);
}

#[test]
fn carriage_return_stays_in_the_line() {
    assert_eq!(lines(b"ab\r\ncd"), vec![b"ab\r".to_vec(), b"cd".to_vec()]);
}
