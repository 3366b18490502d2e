use scaproust::codec::{
    check_handshake, create_handshake, frame_payload, read_header, read_prefix, write_header,
    write_prefix,
};
use scaproust::global::ErrorKind;
use scaproust::message::Message;

#[test]
fn length_prefix_is_big_endian() {
    assert_eq!(vec![0, 0, 0, 0, 0, 0, 0, 5], write_prefix(5));
    assert_eq!(vec![0, 0, 0, 0, 0, 0, 1, 0], write_prefix(256));
    assert_eq!(
        vec![0x12, 0x34, 0x56, 0x78, 0x9a, 0xbc, 0xde, 0xf0],
        write_prefix(0x1234_5678_9abc_def0)
    );
}

#[test]
fn length_prefix_round_trips() {
    for v in [0u64, 1, 7, 255, 256, 65535, 0xdead_beef, u64::MAX] {
        assert_eq!(v, read_prefix(&write_prefix(v)));
    }
}

#[test]
fn routing_header_is_big_endian_and_round_trips() {
    assert_eq!(vec![128, 0, 0, 1], write_header(0x8000_0001));
    for v in [0u32, 1, 0x8000_0000, 0x8000_0001, u32::MAX] {
        assert_eq!(v, read_header(&write_header(v)));
    }
}

#[test]
fn handshake_carries_the_protocol_id() {
    assert_eq!(vec![0, 83, 80, 0, 0, 16, 0, 0], create_handshake(16));
    assert_eq!(vec![0, 83, 80, 0, 0, 112, 0, 0], create_handshake(112));
    assert_eq!(vec![0, 83, 80, 0, 1, 0, 0, 0], create_handshake(256));
}

#[test]
fn handshake_check_accepts_the_expected_peer_only() {
    let push_to_pull = (80u16, 81u16);
    assert!(check_handshake(push_to_pull, &create_handshake(81)).is_ok());
    let err = check_handshake(push_to_pull, &create_handshake(80)).unwrap_err();
    assert_eq!(ErrorKind::InvalidData, err.kind());
    let garbled = [1u8, 83, 80, 0, 0, 81, 0, 0];
    assert_eq!(
        ErrorKind::InvalidData,
        check_handshake(push_to_pull, &garbled).unwrap_err().kind()
    );
}

#[test]
fn frames_prefix_header_and_body() {
    let msg = Message::with_header_and_body(vec![9, 8], vec![7, 6, 5]);
    assert_eq!(vec![0, 0, 0, 0, 0, 0, 0, 5, 9, 8, 7, 6, 5], frame_payload(&msg));
    let empty = Message::with_body(Vec::new());
    assert_eq!(vec![0, 0, 0, 0, 0, 0, 0, 0], frame_payload(&empty));
}
