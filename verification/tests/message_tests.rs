use scaproust::message::Message;
use scaproust::protocol::{Protocol, SendPlan};
use scaproust::global::SocketType;

#[test]
fn messages_flatten_header_first() {
    let msg = Message::with_header_and_body(vec![1, 2], vec![3, 4, 5]);
    assert_eq!(5, msg.len());
    assert_eq!(vec![1, 2, 3, 4, 5], msg.to_buffer());

    let plain = Message::with_body(vec![9, 9]);
    assert_eq!(vec![9, 9], plain.to_buffer());
}

#[test]
fn messages_split_back_into_parts() {
    let msg = Message::with_header_and_body(vec![1], vec![2, 3]);
    let (header, body) = msg.explode();
    assert_eq!(vec![1], header);
    assert_eq!(vec![2, 3], body);
}

#[test]
fn message_clones_are_byte_identical() {
    let msg = Message::with_header_and_body(vec![128, 0, 0, 1], vec![65, 66]);
    let copy = msg.clone();
    assert_eq!(msg.header, copy.header);
    assert_eq!(msg.body, copy.body);
}

#[test]
fn request_ids_count_up_under_the_high_bit() {
    let mut req = Protocol::new(SocketType::Req);
    req.add_pipe(1).unwrap();
    req.on_pipe_opened(1);

    match req.send(Message::with_body(vec![1])) {
        SendPlan::Unicast(tok, m) => {
            assert_eq!(1, tok);
            assert_eq!(vec![128, 0, 0, 0], m.header);
            assert_eq!(vec![1], m.body);
        },
        _ => panic!("a request with a peer goes out at once"),
    }
    match req.send(Message::with_body(vec![2])) {
        SendPlan::Unicast(_, m) => assert_eq!(vec![128, 0, 0, 1], m.header),
        _ => panic!("the next request carries the next identifier"),
    }
}

#[test]
fn push_rotates_over_its_peers() {
    let mut push = Protocol::new(SocketType::Push);
    push.add_pipe(1).unwrap();
    push.add_pipe(2).unwrap();
    push.on_pipe_opened(1);
    push.on_pipe_opened(2);

    let first = match push.send(Message::with_body(vec![0])) {
        SendPlan::Unicast(tok, _) => tok,
        _ => panic!("push load-balances over opened pipes"),
    };
    let second = match push.send(Message::with_body(vec![0])) {
        SendPlan::Unicast(tok, _) => tok,
        _ => panic!("push load-balances over opened pipes"),
    };
    assert_eq!(1, first);
    assert_eq!(2, second);
}

#[test]
fn fair_queue_cursor_rotates() {
    let mut pull = Protocol::new(SocketType::Pull);
    assert!(pull.fair_queue_next().is_none());
    pull.add_pipe(1).unwrap();
    pull.add_pipe(2).unwrap();
    pull.on_pipe_opened(1);
    pull.on_pipe_opened(2);
    assert_eq!(Some(1), pull.fair_queue_next());
    assert_eq!(Some(2), pull.fair_queue_next());
    assert_eq!(Some(1), pull.fair_queue_next());
}

#[test]
fn bus_forwarding_skips_the_origin_pipe() {
    let mut bus = Protocol::new(SocketType::Bus);
    bus.add_pipe(1).unwrap();
    bus.add_pipe(2).unwrap();
    bus.add_pipe(3).unwrap();
    bus.on_pipe_opened(1);
    bus.on_pipe_opened(2);
    bus.on_pipe_opened(3);

    assert_eq!(vec![1, 3], bus.targets_excluding(2));
    assert_eq!(vec![1, 2, 3], bus.targets_excluding(9));
}

#[test]
fn removed_pipes_leave_the_distribution_set() {
    let mut publisher = Protocol::new(SocketType::Pub);
    publisher.add_pipe(1).unwrap();
    publisher.add_pipe(2).unwrap();
    publisher.on_pipe_opened(1);
    publisher.on_pipe_opened(2);
    assert_eq!(Some(0), publisher.remove_pipe(1));
    match publisher.send(Message::with_body(vec![1])) {
        SendPlan::Broadcast(targets, _) => assert_eq!(vec![2], targets),
        _ => panic!("publish broadcasts to the remaining peers"),
    }
    assert!(publisher.remove_pipe(1).is_none());
}
