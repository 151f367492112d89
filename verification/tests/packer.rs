use jsonrpc_udp::packer::{
    AppendResult, ConfigError, DatagramBuffer, CapacityError, MAX_UDP_PAYLOAD,
};

#[test]
fn capacity_must_be_within_a_datagram() {
    assert!(matches!(DatagramBuffer::new(0), Err(ConfigError::ZeroCapacity)));
    assert!(matches!(DatagramBuffer::new(65508), Err(ConfigError::CapacityTooLarge)));
    assert!(matches!(DatagramBuffer::new(usize::MAX), Err(ConfigError::CapacityTooLarge)));
    assert_eq!(MAX_UDP_PAYLOAD, 65507);
    let buffer = DatagramBuffer::new(65507).unwrap();
    assert_eq!(buffer.capacity(), 65507);
    assert!(buffer.is_empty());
    assert_eq!(buffer.len(), 0);
    assert_eq!(DatagramBuffer::new(1).unwrap().capacity(), 1);
}

#[test]
fn entries_are_joined_by_line_feeds() {
    let mut buffer = DatagramBuffer::new(20).unwrap();
    assert_eq!(buffer.try_append(b"abc"), AppendResult::Appended);
    assert_eq!(buffer.as_slice(), b"abc");
    assert_eq!(buffer.try_append(b"de"), AppendResult::Appended);
    assert_eq!(buffer.try_append(b"f"), AppendResult::Appended);
    assert_eq!(buffer.as_slice(), b"abc\nde\nf");
    assert_eq!(buffer.len(), 8);
    assert!(!buffer.is_empty());
}

#[test]
fn entry_that_fills_the_buffer_is_appended() {
    let mut buffer = DatagramBuffer::new(10).unwrap();
    assert_eq!(buffer.try_append(b"abcd"), AppendResult::Appended);
    assert_eq!(buffer.try_append(b"12345"), AppendResult::Appended);
    assert_eq!(buffer.as_slice(), b"abcd\n12345");
    assert_eq!(buffer.len(), buffer.capacity());
    let mut buffer = DatagramBuffer::new(4).unwrap();
    assert_eq!(buffer.try_append(b"abcd"), AppendResult::Appended);
    assert_eq!(buffer.as_slice(), b"abcd");
}

#[test]
fn entry_one_byte_too_long_would_overflow() {
    let mut buffer = DatagramBuffer::new(10).unwrap();
    assert_eq!(buffer.try_append(b"abcd"), AppendResult::Appended);
    assert_eq!(buffer.try_append(b"123456"), AppendResult::WouldOverflow);
    assert_eq!(buffer.as_slice(), b"abcd");
    let mut buffer = DatagramBuffer::new(4).unwrap();
    assert_eq!(buffer.try_append(b"abcde"), AppendResult::WouldOverflow);
    assert!(buffer.is_empty());
}

#[test]
fn flush_hands_out_the_bytes_and_clears() {
    let mut buffer = DatagramBuffer::new(10).unwrap();
    buffer.try_append(b"ab");
    buffer.try_append(b"cd");
    assert_eq!(buffer.flush(), b"ab\ncd".to_vec());
    assert!(buffer.is_empty());
    assert_eq!(buffer.capacity(), 10);
    assert_eq!(buffer.flush(), Vec::<u8>::new());
    assert_eq!(buffer.try_append(b"ef"), AppendResult::Appended);
    assert_eq!(buffer.as_slice(), b"ef");
}

#[test]
fn push_flushes_once_when_the_entry_does_not_fit() {
    let mut buffer = DatagramBuffer::new(10).unwrap();
    assert_eq!(buffer.push(b"abcd"), Ok(None));
    assert_eq!(buffer.push(b"12345"), Ok(None));
    assert_eq!(buffer.push(b"x"), Ok(Some(b"abcd\n12345".to_vec())));
    assert_eq!(buffer.as_slice(), b"x");
    assert_eq!(buffer.push(b"123456789"), Ok(Some(b"x".to_vec())));
    assert_eq!(buffer.as_slice(), b"123456789");
}

#[test]
fn push_boundary() {
    let mut buffer = DatagramBuffer::new(10).unwrap();
    buffer.push(b"abcd").unwrap();
    assert_eq!(buffer.push(b"12345"), Ok(None));
    let mut buffer = DatagramBuffer::new(10).unwrap();
    buffer.push(b"abcd").unwrap();
    assert_eq!(buffer.push(b"123456"), Ok(Some(b"abcd".to_vec())));
    assert_eq!(buffer.as_slice(), b"123456");
}

#[test]
fn push_refuses_an_entry_longer_than_the_capacity() {
    let mut buffer = DatagramBuffer::new(5).unwrap();
    buffer.push(b"ab").unwrap();
    assert_eq!(buffer.push(b"123456"), Err(CapacityError));
    assert_eq!(buffer.as_slice(), b"ab");
    assert_eq!(buffer.push(b"12345"), Ok(Some(b"ab".to_vec())));
}

#[test]
fn empty_entry_in_an_empty_buffer_leaves_it_empty() {
    let mut buffer = DatagramBuffer::new(5).unwrap();
    assert_eq!(buffer.try_append(b""), AppendResult::Appended);
    assert!(buffer.is_empty());
    buffer.try_append(b"a");
    assert_eq!(buffer.try_append(b""), AppendResult::Appended);
    assert_eq!(buffer.as_slice(), b"a\n");
}

#[test]
fn packed_payloads_split_back_into_the_entries() {
    let entries: Vec<Vec<u8>> = (0..40u8).map(|i| vec![b'a' + i % 26; 1 + (i as usize * 7) % 23]).collect();
    for capacity in [23usize, 24, 30, 47, 100, 1000] {
        let mut buffer = DatagramBuffer::new(capacity).unwrap();
        let mut payloads = Vec::new();
        for entry in &entries {
            if let Some(payload) = buffer.push(entry).unwrap() {
                payloads.push(payload);
            }
        }
        if !buffer.is_empty() {
            payloads.push(buffer.flush());
        }
        let mut lines = Vec::new();
        for payload in &payloads {
            assert!(!payload.is_empty() && payload.len() <= capacity);
            lines.extend(jsonrpc_udp::lines::lines(payload));
        }
        assert_eq!(lines, entries);
    }
}
