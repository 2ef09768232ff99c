use safe_network::ping::{
    can_read, read_request, read_response, write_request, write_response, Ping, PingError, Pong,
    MAX_PING_SIZE, PING_PROTOCOL,
};

#[test]
fn message_is_framed_by_its_length() {
    assert_eq!(write_request(&Ping(b"hello".to_vec())), b"\x05hello".to_vec());
    assert_eq!(write_response(&Pong(vec![])), vec![0]);
    let long = write_response(&Pong(vec![7; 300]));
    assert_eq!(&long[..3], &[0xac, 0x02, 7]);
    assert_eq!(long.len(), 302);
    assert_eq!(PING_PROTOCOL, "/ping/1");
}

#[test]
fn what_was_written_is_read_back() {
    for n in [1usize, 5, 127, 128, 129, 1000, MAX_PING_SIZE] {
        let data: Vec<u8> = (0..n).map(|i| (i % 251) as u8).collect();
        let mut bytes = write_request(&Ping(data.clone()));
        bytes.extend(b"trailing");
        assert!(can_read(&bytes));
        assert_eq!(read_request(&bytes).unwrap().0, data);
        assert_eq!(read_response(&bytes).unwrap().0, data);
    }
}

#[test]
fn short_messages_are_refused() {
    let eof = Some(PingError::UnexpectedEof);
    assert_eq!(read_request(&[]).err(), eof);
    assert_eq!(read_request(&[0]).err(), eof);
    assert_eq!(read_request(&[2, 1]).err(), eof);
    assert_eq!(read_request(&[0x80]).err(), eof);
    assert_eq!(read_request(&[0x80, 0x80, 0x80]).err(), eof);
    assert_eq!(read_response(&[0x80, 0x01, 9]).err(), eof);
    assert_eq!(read_response(&write_response(&Pong(vec![]))).err(), eof);
}

#[test]
fn long_messages_are_refused() {
    let invalid = Some(PingError::InvalidData);
    assert_eq!(read_request(&[0x81, 0x08]).err(), invalid);
    assert_eq!(read_response(&[0x80, 0x80, 0x01]).err(), invalid);
    assert_eq!(read_request(&[0xff; 10]).err(), invalid);
    let bytes = write_request(&Ping(vec![1; MAX_PING_SIZE + 1]));
    assert_eq!(read_request(&bytes).err(), invalid);
}

#[test]
fn needless_groups_run_into_the_end() {
    assert_eq!(read_request(&[0x81, 0x00, 5]).err(), Some(PingError::UnexpectedEof));
    assert!(can_read(&[0x81, 0x00, 5, 5, 5, 5, 5, 5, 5]));
    assert!(!can_read(&[0x81, 0x00, 5, 5, 5, 5, 5, 5, 5, 5]));
    assert!(can_read(&[0x81, 0x01, 5, 5, 5, 5, 5, 5, 5, 5]));
    assert!(can_read(&[]));
}

#[test]
fn only_64_bits_of_a_length_count() {
    let mut bytes = vec![0x81u8];
    bytes.extend([0x80; 8]);
    bytes.push(0x02);
    bytes.push(42);
    assert_eq!(read_request(&bytes).unwrap().0, vec![42]);
    bytes[9] = 0x01;
    assert_eq!(read_request(&bytes).err(), Some(PingError::InvalidData));
}
