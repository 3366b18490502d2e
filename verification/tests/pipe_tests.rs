use scaproust::codec::frame_payload;
use scaproust::global::ErrorKind;
use scaproust::message::Message;
use scaproust::pipe::{Pipe, PipeAction, PipeStateKind, RecvOperation, RecvOperationStep};

#[test]
fn on_open_the_stream_should_be_registered() {
    let mut pipe = Pipe::new(0, None, (1, 1));
    let action = pipe.open();

    assert_eq!(PipeAction::RegisterWritable, action);
    assert_eq!(PipeStateKind::HandshakeTx, pipe.state);
    assert!(!pipe.opened);

    assert_eq!("HandshakeTx", format!("{:?}", pipe.state));
}

#[test]
fn recv_operation_steps_advance_and_stop() {
    assert_eq!(RecvOperationStep::Payload, RecvOperationStep::Prefix.next());
    assert_eq!(RecvOperationStep::Done, RecvOperationStep::Payload.next());
    assert_eq!(RecvOperationStep::Done, RecvOperationStep::Done.next());

    let mut op = RecvOperation::new();
    assert_eq!(RecvOperationStep::Prefix, op.step);
    op.step_forward();
    assert_eq!(RecvOperationStep::Payload, op.step);
    assert_eq!(0, op.read);
}

#[test]
fn recv_operation_reassembles_chunked_frames() {
    let frame = frame_payload(&Message::with_body(vec![1, 2, 3, 4, 5]));
    assert_eq!(13, frame.len());

    let mut op = RecvOperation::new();
    let (n, m) = op.recv(&frame[0..3]).unwrap();
    assert_eq!(3, n);
    assert!(m.is_none());
    let (n, m) = op.recv(&frame[3..10]).unwrap();
    assert_eq!(7, n);
    assert!(m.is_none());
    let (n, m) = op.recv(&frame[10..13]).unwrap();
    assert_eq!(3, n);
    let msg = m.unwrap();
    assert_eq!(vec![1, 2, 3, 4, 5], msg.body);
    assert!(msg.header.is_empty());

    let err = op.recv(&[0u8]).unwrap_err();
    assert_eq!(ErrorKind::Other, err.kind());
}

#[test]
fn recv_operation_takes_a_whole_frame_at_once() {
    let frame = frame_payload(&Message::with_body(vec![65, 66, 67]));
    let mut op = RecvOperation::new();
    let (n, m) = op.recv(&frame).unwrap();
    assert_eq!(frame.len(), n);
    assert_eq!(vec![65, 66, 67], m.unwrap().body);
}

#[test]
fn recv_operation_handles_empty_payloads() {
    let frame = frame_payload(&Message::with_body(Vec::new()));
    let mut op = RecvOperation::new();
    let (n, m) = op.recv(&frame).unwrap();
    assert_eq!(8, n);
    assert_eq!(0, m.unwrap().body.len());
}

#[test]
fn recv_operation_stops_at_the_frame_boundary() {
    let mut bytes = frame_payload(&Message::with_body(vec![1, 2]));
    let mut next_frame = frame_payload(&Message::with_body(vec![3]));
    bytes.append(&mut next_frame);

    let mut op = RecvOperation::new();
    let (n, m) = op.recv(&bytes).unwrap();
    assert_eq!(10, n);
    assert_eq!(vec![1, 2], m.unwrap().body);
}

#[test]
fn pipe_completes_its_handshake_and_opens() {
    let mut a = Pipe::new(1, None, (80, 81));
    assert_eq!(PipeAction::RegisterWritable, a.open());
    let hs = a.handshake_to_send();
    assert_eq!(vec![0, 83, 80, 0, 0, 80, 0, 0], hs);
    assert_eq!(PipeAction::RegisterReadable, a.on_handshake_sent(8).unwrap());
    assert_eq!(PipeStateKind::HandshakeRx, a.state);

    let peer_hs = vec![0u8, 83, 80, 0, 0, 81, 0, 0];
    a.on_handshake_received(&peer_hs).unwrap();
    assert_eq!(PipeStateKind::Idle, a.state);
    assert!(a.opened);
}

#[test]
fn pipe_dies_on_a_short_handshake_write() {
    let mut a = Pipe::new(1, None, (80, 81));
    a.open();
    let err = a.on_handshake_sent(5).unwrap_err();
    assert_eq!(ErrorKind::WouldBlock, err.kind());
    assert_eq!(PipeStateKind::Dead, a.state);
}

#[test]
fn pipe_rejects_a_wrong_handshake() {
    let mut a = Pipe::new(1, None, (33, 32));
    a.open();
    a.on_handshake_sent(8).unwrap();
    let push_hs = vec![0u8, 83, 80, 0, 0, 80, 0, 0];
    let err = a.on_handshake_received(&push_hs).unwrap_err();
    assert_eq!(ErrorKind::InvalidData, err.kind());
    assert_eq!(PipeStateKind::Dead, a.state);
    assert!(!a.opened);
}

#[test]
fn pipe_sends_a_frame_in_parts() {
    let mut a = Pipe::new(1, None, (16, 16));
    a.open();
    a.on_handshake_sent(8).unwrap();
    a.on_handshake_received(&[0, 83, 80, 0, 0, 16, 0, 0]).unwrap();

    assert_eq!(PipeAction::RegisterWritable, a.start_send(Message::with_body(vec![65, 66, 67])));
    let owed = a.send_remaining();
    assert_eq!(vec![0, 0, 0, 0, 0, 0, 0, 3, 65, 66, 67], owed);
    assert!(!a.on_sent(4));
    assert_eq!(PipeStateKind::SendBusy, a.state);
    assert_eq!(vec![0, 0, 0, 3, 65, 66, 67], a.send_remaining());
    assert!(a.on_sent(7));
    assert_eq!(PipeStateKind::Idle, a.state);
}

#[test]
fn pipe_receives_a_frame_and_returns_to_idle() {
    let mut a = Pipe::new(1, None, (16, 16));
    a.open();
    a.on_handshake_sent(8).unwrap();
    a.on_handshake_received(&[0, 83, 80, 0, 0, 16, 0, 0]).unwrap();

    assert_eq!(PipeAction::RegisterReadable, a.start_recv());
    let frame = frame_payload(&Message::with_body(vec![9, 9, 9]));
    let (n, m) = a.on_recv_bytes(&frame).unwrap();
    assert_eq!(frame.len(), n);
    assert_eq!(vec![9, 9, 9], m.unwrap().body);
    assert_eq!(PipeStateKind::Idle, a.state);
}

#[test]
fn pipe_keeps_its_address_for_reconnects() {
    let pipe = Pipe::new(3, Some("tcp://127.0.0.1:5454".to_string()), (80, 81));
    assert_eq!(Some("tcp://127.0.0.1:5454".to_string()), pipe.addr());
}
