use scaproust::global::{
    invalid_data_io_error, invalid_input_io_error, other_io_error, timed_out_io_error,
    would_block_io_error, ErrorKind, IdSequence, ProbeId, SocketId, SocketType, ToMillis,
};

#[test]
fn id_sequence_can_be_cloned() {
    let seq = IdSequence::new();
    let other = seq.clone();

    assert_eq!(0, other.next());
    assert_eq!(1, seq.next());
    assert_eq!(2, seq.next());
    assert_eq!(3, other.next());
}

#[test]
fn id_sequence_default_starts_at_zero() {
    let seq = IdSequence::default();
    assert_eq!(0, seq.next());
    assert_eq!(1, seq.next());
}

#[test]
fn socket_type_ids_follow_family_and_role() {
    assert_eq!(16, SocketType::Pair.id());
    assert_eq!(32, SocketType::Pub.id());
    assert_eq!(33, SocketType::Sub.id());
    assert_eq!(48, SocketType::Req.id());
    assert_eq!(49, SocketType::Rep.id());
    assert_eq!(80, SocketType::Push.id());
    assert_eq!(81, SocketType::Pull.id());
    assert_eq!(98, SocketType::Surveyor.id());
    assert_eq!(99, SocketType::Respondent.id());
    assert_eq!(112, SocketType::Bus.id());
}

#[test]
fn socket_type_peers_are_mutual() {
    assert_eq!(SocketType::Pair, SocketType::Pair.peer());
    assert_eq!(SocketType::Sub, SocketType::Pub.peer());
    assert_eq!(SocketType::Pub, SocketType::Sub.peer());
    assert_eq!(SocketType::Rep, SocketType::Req.peer());
    assert_eq!(SocketType::Pull, SocketType::Push.peer());
    assert_eq!(SocketType::Respondent, SocketType::Surveyor.peer());
    assert_eq!(SocketType::Bus, SocketType::Bus.peer());
}

#[test]
fn socket_type_matches_compatible_peers_only() {
    assert!(SocketType::Push.matches(SocketType::Pull));
    assert!(SocketType::Pull.matches(SocketType::Push));
    assert!(SocketType::Pair.matches(SocketType::Pair));
    assert!(SocketType::Bus.matches(SocketType::Bus));
    assert!(!SocketType::Sub.matches(SocketType::Push));
    assert!(!SocketType::Pub.matches(SocketType::Pub));
    assert!(!SocketType::Req.matches(SocketType::Surveyor));
}

#[test]
fn error_constructors_carry_their_kind() {
    assert_eq!(ErrorKind::Other, other_io_error("x").kind());
    assert_eq!(ErrorKind::InvalidData, invalid_data_io_error("x").kind());
    assert_eq!(ErrorKind::WouldBlock, would_block_io_error("x").kind());
    assert_eq!(ErrorKind::InvalidInput, invalid_input_io_error("x").kind());
    assert_eq!(ErrorKind::TimedOut, timed_out_io_error("x").kind());
    assert_eq!("a reason", other_io_error("a reason").reason());
}

#[test]
fn socket_ids_compare_by_value() {
    assert_eq!(SocketId(4), SocketId(4));
    assert_ne!(SocketId(4), SocketId(5));
    assert_eq!(ProbeId(7), ProbeId(7));
}

#[test]
fn durations_convert_to_milliseconds() {
    assert_eq!(1500, core::time::Duration::from_millis(1500).to_millis());
    assert_eq!(50, core::time::Duration::from_millis(50).to_millis());
    assert_eq!(2000, core::time::Duration::from_secs(2).to_millis());
    assert_eq!(0, core::time::Duration::from_nanos(999).to_millis());
}
