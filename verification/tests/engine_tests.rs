use scaproust::event_loop_msg::{SocketNotify, SocketOption};
use scaproust::global::{ErrorKind, SocketId, SocketType};
use scaproust::message::Message;
use scaproust::pipe::PipeStateKind;
use scaproust::socket_impl::{split_address, RecvStep, SendStep, SocketImpl};

fn connect_sockets(a: &mut SocketImpl, atok: usize, b: &mut SocketImpl, btok: usize) {
    a.on_connected(None, atok).unwrap();
    b.on_connected(None, btok).unwrap();
    let ai = a.pipe_index(atok).unwrap();
    let bi = b.pipe_index(btok).unwrap();
    let hs_a = a.handshake_to_send(ai);
    a.on_handshake_sent(ai, 8).unwrap();
    let hs_b = b.handshake_to_send(bi);
    b.on_handshake_sent(bi, 8).unwrap();
    a.on_handshake_received(ai, &hs_b).unwrap();
    b.on_handshake_received(bi, &hs_a).unwrap();
}

fn pump_send(a: &mut SocketImpl, atok: usize) -> (Vec<u8>, Option<SocketNotify>) {
    let ai = a.pipe_index(atok).unwrap();
    assert_eq!(PipeStateKind::SendBusy, a.pipes[ai].state);
    let chunk = a.pipes[ai].send_remaining();
    let done = a.pipes[ai].on_sent(chunk.len());
    assert!(done);
    let notify = a.on_send_completed(atok);
    (chunk, notify)
}

fn deliver(b: &mut SocketImpl, btok: usize, bytes: &[u8]) -> Option<SocketNotify> {
    let bi = b.pipe_index(btok).unwrap();
    if b.pipes[bi].state == PipeStateKind::Idle {
        b.pipes[bi].start_recv();
    }
    let (n, msg) = b.pipes[bi].on_recv_bytes(bytes).unwrap();
    assert_eq!(bytes.len(), n);
    match msg {
        Some(m) => b.on_msg_received(btok, m),
        None => None,
    }
}

#[test]
fn pipeline_delivers_what_push_sends() {
    let mut pull = SocketImpl::new(SocketId(0), SocketType::Pull);
    let mut push = SocketImpl::new(SocketId(1), SocketType::Push);
    connect_sockets(&mut push, 10, &mut pull, 20);

    match push.send(Message::with_body(vec![65, 66, 67])) {
        SendStep::AwaitCompletion(t) => assert_eq!(10, t),
        _ => panic!("push should start a transfer on its one peer"),
    }
    assert!(matches!(pull.recv(), RecvStep::AwaitMessage));

    let (bytes, sent) = pump_send(&mut push, 10);
    assert!(matches!(sent, Some(SocketNotify::MsgSent)));
    assert!(push.on_send_timeout().is_none());

    match deliver(&mut pull, 20, &bytes) {
        Some(SocketNotify::MsgRecv(m)) => assert_eq!(vec![65, 66, 67], m.body),
        _ => panic!("pull should receive exactly what push sent"),
    }
}

#[test]
fn send_without_peer_times_out() {
    let mut push = SocketImpl::new(SocketId(0), SocketType::Push);
    assert!(matches!(push.send(Message::with_body(vec![65, 66, 67])), SendStep::Parked));
    match push.on_send_timeout() {
        Some(SocketNotify::MsgNotSent(e)) => assert_eq!(ErrorKind::TimedOut, e.kind()),
        _ => panic!("a parked send should time out"),
    }
    assert!(push.on_send_timeout().is_none());
}

#[test]
fn recv_without_message_times_out() {
    let mut pull = SocketImpl::new(SocketId(0), SocketType::Pull);
    assert!(matches!(pull.recv(), RecvStep::AwaitMessage));
    match pull.on_recv_timeout() {
        Some(SocketNotify::MsgNotRecv(e)) => assert_eq!(ErrorKind::TimedOut, e.kind()),
        _ => panic!("a pending recv should time out"),
    }
    assert!(pull.on_recv_timeout().is_none());
}

#[test]
fn req_rep_round_trip() {
    let mut server = SocketImpl::new(SocketId(0), SocketType::Rep);
    let mut client = SocketImpl::new(SocketId(1), SocketType::Req);
    connect_sockets(&mut client, 1, &mut server, 2);

    match client.send(Message::with_body(vec![65, 66, 67])) {
        SendStep::AwaitCompletion(t) => assert_eq!(1, t),
        _ => panic!("the request should go out on the one peer"),
    }
    let (request_bytes, _) = pump_send(&mut client, 1);

    assert!(matches!(server.recv(), RecvStep::AwaitMessage));
    match deliver(&mut server, 2, &request_bytes) {
        Some(SocketNotify::MsgRecv(m)) => {
            assert_eq!(vec![65, 66, 67], m.body);
            assert_eq!(4, m.header.len());
        },
        _ => panic!("the server should see the request body"),
    }

    match server.send(Message::with_body(vec![67, 66, 65])) {
        SendStep::AwaitCompletion(t) => assert_eq!(2, t),
        _ => panic!("the reply should go back on the request's pipe"),
    }
    let (reply_bytes, _) = pump_send(&mut server, 2);

    assert!(matches!(client.recv(), RecvStep::AwaitMessage));
    match deliver(&mut client, 1, &reply_bytes) {
        Some(SocketNotify::MsgRecv(m)) => assert_eq!(vec![67, 66, 65], m.body),
        _ => panic!("the client should see the reply body"),
    }
}

#[test]
fn rep_reply_targets_the_delivered_request() {
    let mut server = SocketImpl::new(SocketId(0), SocketType::Rep);
    let mut client_a = SocketImpl::new(SocketId(1), SocketType::Req);
    let mut client_b = SocketImpl::new(SocketId(2), SocketType::Req);
    connect_sockets(&mut client_a, 1, &mut server, 10);
    connect_sockets(&mut client_b, 2, &mut server, 20);

    // both requests arrive before the server looks at either
    assert!(matches!(client_a.send(Message::with_body(vec![65, 65, 65])), SendStep::AwaitCompletion(1)));
    let (req_a, _) = pump_send(&mut client_a, 1);
    assert!(deliver(&mut server, 10, &req_a).is_none());
    assert!(matches!(client_b.send(Message::with_body(vec![66, 66, 66])), SendStep::AwaitCompletion(2)));
    let (req_b, _) = pump_send(&mut client_b, 2);
    assert!(deliver(&mut server, 20, &req_b).is_none());

    // the first delivery is client A's question; the reply goes to A's pipe
    match server.recv() {
        RecvStep::Replied(SocketNotify::MsgRecv(m)) => assert_eq!(vec![65, 65, 65], m.body),
        _ => panic!("the server should see the oldest request"),
    }
    match server.send(Message::with_body(vec![1, 2, 3])) {
        SendStep::AwaitCompletion(t) => assert_eq!(10, t),
        _ => panic!("the reply should go to the delivered request's pipe"),
    }
    let (reply_a, _) = pump_send(&mut server, 10);
    assert!(matches!(client_a.recv(), RecvStep::AwaitMessage));
    match deliver(&mut client_a, 1, &reply_a) {
        Some(SocketNotify::MsgRecv(m)) => assert_eq!(vec![1, 2, 3], m.body),
        _ => panic!("client A should get the answer to its question"),
    }

    // the next delivery is client B's question; the reply goes to B's pipe
    match server.recv() {
        RecvStep::Replied(SocketNotify::MsgRecv(m)) => assert_eq!(vec![66, 66, 66], m.body),
        _ => panic!("the server should see the next request"),
    }
    match server.send(Message::with_body(vec![4, 5, 6])) {
        SendStep::AwaitCompletion(t) => assert_eq!(20, t),
        _ => panic!("the reply should go to the delivered request's pipe"),
    }
    let (reply_b, _) = pump_send(&mut server, 20);
    assert!(matches!(client_b.recv(), RecvStep::AwaitMessage));
    match deliver(&mut client_b, 2, &reply_b) {
        Some(SocketNotify::MsgRecv(m)) => assert_eq!(vec![4, 5, 6], m.body),
        _ => panic!("client B should get the answer to its question"),
    }
}

#[test]
fn surveyor_drops_stale_votes_on_a_new_survey() {
    let mut server = SocketImpl::new(SocketId(0), SocketType::Surveyor);
    let mut client = SocketImpl::new(SocketId(1), SocketType::Respondent);
    connect_sockets(&mut server, 1, &mut client, 11);

    server.send(Message::with_body(vec![65, 66, 67]));
    let (survey, _) = pump_send(&mut server, 1);
    assert!(deliver(&mut client, 11, &survey).is_none());
    match client.recv() {
        RecvStep::Replied(SocketNotify::MsgRecv(m)) => assert_eq!(vec![65, 66, 67], m.body),
        _ => panic!("the client should have received the survey"),
    }

    // the vote arrives while no recv is pending, so it waits in the backlog
    assert!(matches!(client.send(Message::with_body(vec![1])), SendStep::AwaitCompletion(11)));
    let (vote, _) = pump_send(&mut client, 11);
    assert!(deliver(&mut server, 1, &vote).is_none());

    // a new survey supersedes the old one: the stale vote is gone
    server.send(Message::with_body(vec![70, 71, 72]));
    assert!(matches!(server.recv(), RecvStep::AwaitMessage));
}

#[test]
fn pair_ignores_traffic_from_later_pipes() {
    let mut bound = SocketImpl::new(SocketId(0), SocketType::Pair);
    let mut first = SocketImpl::new(SocketId(1), SocketType::Pair);
    let mut second = SocketImpl::new(SocketId(2), SocketType::Pair);
    connect_sockets(&mut first, 1, &mut bound, 10);
    connect_sockets(&mut second, 2, &mut bound, 20);

    // only the first opened peer takes part in the traffic
    assert!(matches!(second.send(Message::with_body(vec![9, 9])), SendStep::AwaitCompletion(2)));
    let (from_second, _) = pump_send(&mut second, 2);
    assert!(matches!(bound.recv(), RecvStep::AwaitMessage));
    assert!(deliver(&mut bound, 20, &from_second).is_none());

    assert!(matches!(first.send(Message::with_body(vec![65, 66, 67])), SendStep::AwaitCompletion(1)));
    let (from_first, _) = pump_send(&mut first, 1);
    match deliver(&mut bound, 10, &from_first) {
        Some(SocketNotify::MsgRecv(m)) => assert_eq!(vec![65, 66, 67], m.body),
        _ => panic!("the participating peer's message should be delivered"),
    }
}

#[test]
fn replies_with_stale_ids_are_dropped() {
    let mut client = SocketImpl::new(SocketId(0), SocketType::Req);
    let mut server = SocketImpl::new(SocketId(1), SocketType::Rep);
    connect_sockets(&mut client, 1, &mut server, 2);

    let step = client.send(Message::with_body(vec![1]));
    assert!(matches!(step, SendStep::AwaitCompletion(_)));
    let (request_bytes, _) = pump_send(&mut client, 1);
    deliver(&mut server, 2, &request_bytes);

    // A reply whose header names another request never reaches the client.
    let mut stale = scaproust::codec::write_header(0x8000_0000 | 41);
    stale.push(9);
    let stale_frame = scaproust::codec::frame_payload(&Message::with_body(stale));
    assert!(matches!(client.recv(), RecvStep::AwaitMessage));
    assert!(deliver(&mut client, 1, &stale_frame).is_none());
}

#[test]
fn send_reply_before_send_request_fails() {
    let mut server = SocketImpl::new(SocketId(0), SocketType::Rep);
    match server.send(Message::with_body(vec![67, 66, 65])) {
        SendStep::Replied(SocketNotify::MsgNotSent(e)) => assert_eq!(ErrorKind::Other, e.kind()),
        _ => panic!("a reply without a request is protocol misuse"),
    }
}

#[test]
fn recv_reply_before_send_request_fails() {
    let mut server = SocketImpl::new(SocketId(0), SocketType::Rep);
    let mut client = SocketImpl::new(SocketId(1), SocketType::Req);
    connect_sockets(&mut client, 1, &mut server, 2);

    match client.recv() {
        RecvStep::Replied(SocketNotify::MsgNotRecv(e)) => assert_eq!(ErrorKind::Other, e.kind()),
        _ => panic!("a recv without an outstanding request is protocol misuse"),
    }
}

#[test]
fn pub_sub_filters_by_subscription() {
    let mut server = SocketImpl::new(SocketId(0), SocketType::Pub);
    let mut client = SocketImpl::new(SocketId(1), SocketType::Sub);
    connect_sockets(&mut server, 1, &mut client, 2);

    client.set_option(SocketOption::Subscribe("A".to_string())).unwrap();
    client.set_option(SocketOption::Subscribe("B".to_string())).unwrap();

    assert!(matches!(
        server.send(Message::with_body(vec![65, 66, 67])),
        SendStep::Replied(SocketNotify::MsgSent)
    ));
    let (bytes_a, _) = pump_send(&mut server, 1);
    assert!(matches!(client.recv(), RecvStep::AwaitMessage));
    match deliver(&mut client, 2, &bytes_a) {
        Some(SocketNotify::MsgRecv(m)) => assert_eq!(vec![65, 66, 67], m.body),
        _ => panic!("a message under subscription A should be delivered"),
    }

    server.send(Message::with_body(vec![66, 65, 67]));
    let (bytes_b, _) = pump_send(&mut server, 1);
    assert!(matches!(client.recv(), RecvStep::AwaitMessage));
    match deliver(&mut client, 2, &bytes_b) {
        Some(SocketNotify::MsgRecv(m)) => assert_eq!(vec![66, 65, 67], m.body),
        _ => panic!("a message under subscription B should be delivered"),
    }

    server.send(Message::with_body(vec![67, 66, 65]));
    let (bytes_c, _) = pump_send(&mut server, 1);
    assert!(matches!(client.recv(), RecvStep::AwaitMessage));
    assert!(deliver(&mut client, 2, &bytes_c).is_none());
    match client.on_recv_timeout() {
        Some(SocketNotify::MsgNotRecv(e)) => assert_eq!(ErrorKind::TimedOut, e.kind()),
        _ => panic!("the unmatched message should leave the recv to time out"),
    }
}

#[test]
fn unsubscribing_stops_delivery() {
    let mut server = SocketImpl::new(SocketId(0), SocketType::Pub);
    let mut client = SocketImpl::new(SocketId(1), SocketType::Sub);
    connect_sockets(&mut server, 1, &mut client, 2);

    client.set_option(SocketOption::Subscribe("A".to_string())).unwrap();
    client.set_option(SocketOption::Unsubscribe("A".to_string())).unwrap();

    server.send(Message::with_body(vec![65, 66, 67]));
    let (bytes, _) = pump_send(&mut server, 1);
    assert!(deliver(&mut client, 2, &bytes).is_none());
}

#[test]
fn empty_subscription_matches_everything() {
    let mut server = SocketImpl::new(SocketId(0), SocketType::Pub);
    let mut client = SocketImpl::new(SocketId(1), SocketType::Sub);
    connect_sockets(&mut server, 1, &mut client, 2);

    client.set_option(SocketOption::Subscribe(String::new())).unwrap();
    server.send(Message::with_body(vec![200, 0, 1]));
    let (bytes, _) = pump_send(&mut server, 1);
    match deliver(&mut client, 2, &bytes) {
        None => {
            // no recv was pending, so the message waits in the backlog
            match client.recv() {
                RecvStep::Replied(SocketNotify::MsgRecv(m)) => assert_eq!(vec![200, 0, 1], m.body),
                _ => panic!("the backlog should hand the message out"),
            }
        },
        Some(_) => panic!("no recv was pending yet"),
    }
}

#[test]
fn pub_socket_rejects_recv_and_sub_rejects_send() {
    let mut publisher = SocketImpl::new(SocketId(0), SocketType::Pub);
    match publisher.recv() {
        RecvStep::Replied(SocketNotify::MsgNotRecv(e)) => assert_eq!(ErrorKind::Other, e.kind()),
        _ => panic!("recv is not supported by the publish pattern"),
    }
    let mut subscriber = SocketImpl::new(SocketId(1), SocketType::Sub);
    match subscriber.send(Message::with_body(vec![1])) {
        SendStep::Replied(SocketNotify::MsgNotSent(e)) => assert_eq!(ErrorKind::Other, e.kind()),
        _ => panic!("send is not supported by the subscribe pattern"),
    }
}

#[test]
fn bus_broadcasts_to_all_peers() {
    let mut server = SocketImpl::new(SocketId(0), SocketType::Bus);
    let mut client1 = SocketImpl::new(SocketId(1), SocketType::Bus);
    let mut client2 = SocketImpl::new(SocketId(2), SocketType::Bus);
    connect_sockets(&mut server, 1, &mut client1, 11);
    connect_sockets(&mut server, 2, &mut client2, 21);

    assert!(matches!(
        server.send(Message::with_body(vec![65, 66, 67])),
        SendStep::Replied(SocketNotify::MsgSent)
    ));
    let (bytes1, _) = pump_send(&mut server, 1);
    let (bytes2, _) = pump_send(&mut server, 2);

    assert!(deliver(&mut client1, 11, &bytes1).is_none());
    match client1.recv() {
        RecvStep::Replied(SocketNotify::MsgRecv(m)) => assert_eq!(vec![65, 66, 67], m.body),
        _ => panic!("client 1 should have received the msg"),
    }
    assert!(deliver(&mut client2, 21, &bytes2).is_none());
    match client2.recv() {
        RecvStep::Replied(SocketNotify::MsgRecv(m)) => assert_eq!(vec![65, 66, 67], m.body),
        _ => panic!("client 2 should have received the msg"),
    }
}

#[test]
fn bus_forwarding_never_echoes_to_the_origin() {
    let mut server = SocketImpl::new(SocketId(0), SocketType::Bus);
    let mut client1 = SocketImpl::new(SocketId(1), SocketType::Bus);
    let mut client2 = SocketImpl::new(SocketId(2), SocketType::Bus);
    connect_sockets(&mut server, 1, &mut client1, 11);
    connect_sockets(&mut server, 2, &mut client2, 21);

    assert!(matches!(
        client1.send(Message::with_body(vec![65, 66, 67])),
        SendStep::Replied(SocketNotify::MsgSent)
    ));
    let (bytes, _) = pump_send(&mut client1, 11);
    assert!(deliver(&mut server, 1, &bytes).is_none());

    // the forwarding socket claims the message and its recorded origin
    let forwarded = match server.recv() {
        RecvStep::Replied(SocketNotify::MsgRecv(m)) => m,
        _ => panic!("the forwarding socket should see the message"),
    };
    assert_eq!(Some(1), server.last_recv_from);
    let origin = server.last_recv_from.take().unwrap();
    assert!(matches!(
        server.send_from(forwarded, origin),
        SendStep::Replied(SocketNotify::MsgSent)
    ));

    // the origin pipe stays idle: the message is not echoed back
    let i1 = server.pipe_index(1).unwrap();
    assert_eq!(PipeStateKind::Idle, server.pipes[i1].state);

    let (copy, _) = pump_send(&mut server, 2);
    assert!(deliver(&mut client2, 21, &copy).is_none());
    match client2.recv() {
        RecvStep::Replied(SocketNotify::MsgRecv(m)) => assert_eq!(vec![65, 66, 67], m.body),
        _ => panic!("the other peer should have received the msg"),
    }
}

#[test]
fn survey_votes_return_to_the_surveyor() {
    let mut server = SocketImpl::new(SocketId(0), SocketType::Surveyor);
    let mut client1 = SocketImpl::new(SocketId(1), SocketType::Respondent);
    let mut client2 = SocketImpl::new(SocketId(2), SocketType::Respondent);
    connect_sockets(&mut server, 1, &mut client1, 11);
    connect_sockets(&mut server, 2, &mut client2, 21);

    assert!(matches!(
        server.send(Message::with_body(vec![65, 66, 67])),
        SendStep::Replied(SocketNotify::MsgSent)
    ));
    assert_eq!(Some(1000), server.survey_timer_request());
    let (survey1, _) = pump_send(&mut server, 1);
    let (survey2, _) = pump_send(&mut server, 2);

    assert!(deliver(&mut client1, 11, &survey1).is_none());
    match client1.recv() {
        RecvStep::Replied(SocketNotify::MsgRecv(m)) => assert_eq!(vec![65, 66, 67], m.body),
        _ => panic!("client 1 should have received the survey"),
    }
    assert!(deliver(&mut client2, 21, &survey2).is_none());
    match client2.recv() {
        RecvStep::Replied(SocketNotify::MsgRecv(m)) => assert_eq!(vec![65, 66, 67], m.body),
        _ => panic!("client 2 should have received the survey"),
    }

    assert!(matches!(client1.send(Message::with_body(vec![65, 66, 65])), SendStep::AwaitCompletion(_)));
    let (vote1, _) = pump_send(&mut client1, 11);
    assert!(matches!(server.recv(), RecvStep::AwaitMessage));
    match deliver(&mut server, 1, &vote1) {
        Some(SocketNotify::MsgRecv(m)) => assert_eq!(vec![65, 66, 65], m.body),
        _ => panic!("the server should have received the vote from client 1"),
    }

    assert!(matches!(client2.send(Message::with_body(vec![67, 66, 67])), SendStep::AwaitCompletion(_)));
    let (vote2, _) = pump_send(&mut client2, 21);
    assert!(matches!(server.recv(), RecvStep::AwaitMessage));
    match deliver(&mut server, 2, &vote2) {
        Some(SocketNotify::MsgRecv(m)) => assert_eq!(vec![67, 66, 67], m.body),
        _ => panic!("the server should have received the vote from client 2"),
    }
}

#[test]
fn survey_deadline_fails_later_recvs() {
    let mut server = SocketImpl::new(SocketId(0), SocketType::Surveyor);
    let mut client = SocketImpl::new(SocketId(1), SocketType::Respondent);
    server
        .set_option(SocketOption::SurveyDeadline(core::time::Duration::from_millis(150)))
        .unwrap();
    connect_sockets(&mut server, 1, &mut client, 11);

    server.send(Message::with_body(vec![65, 66, 67]));
    assert_eq!(Some(150), server.survey_timer_request());
    let (survey, _) = pump_send(&mut server, 1);
    assert!(deliver(&mut client, 11, &survey).is_none());
    match client.recv() {
        RecvStep::Replied(SocketNotify::MsgRecv(m)) => assert_eq!(vec![65, 66, 67], m.body),
        _ => panic!("the client should have received the survey"),
    }

    server.on_survey_deadline();
    match server.recv() {
        RecvStep::Replied(SocketNotify::MsgNotRecv(e)) => assert_eq!(ErrorKind::Other, e.kind()),
        _ => panic!("a recv after the survey deadline is an error"),
    }
}

#[test]
fn pair_talks_to_its_first_peer() {
    let mut bound = SocketImpl::new(SocketId(0), SocketType::Pair);
    let mut connected = SocketImpl::new(SocketId(1), SocketType::Pair);
    connect_sockets(&mut connected, 1, &mut bound, 2);

    assert!(matches!(
        connected.send(Message::with_body(vec![65, 66, 67])),
        SendStep::AwaitCompletion(1)
    ));
    let (bytes, _) = pump_send(&mut connected, 1);
    assert!(matches!(bound.recv(), RecvStep::AwaitMessage));
    match deliver(&mut bound, 2, &bytes) {
        Some(SocketNotify::MsgRecv(m)) => assert_eq!(vec![65, 66, 67], m.body),
        _ => panic!("the bound pair should receive the message"),
    }
}

#[test]
fn mismatched_peers_never_open() {
    let mut subscriber = SocketImpl::new(SocketId(0), SocketType::Sub);
    let mut pusher = SocketImpl::new(SocketId(1), SocketType::Push);
    subscriber.on_connected(None, 1).unwrap();
    pusher.on_connected(None, 2).unwrap();

    let hs_sub = subscriber.handshake_to_send(0);
    subscriber.on_handshake_sent(0, 8).unwrap();
    let hs_push = pusher.handshake_to_send(0);
    pusher.on_handshake_sent(0, 8).unwrap();

    let err = subscriber.on_handshake_received(0, &hs_push).unwrap_err();
    assert_eq!(ErrorKind::InvalidData, err.kind());
    assert_eq!(PipeStateKind::Dead, subscriber.pipe_state(0));

    let err = pusher.on_handshake_received(0, &hs_sub).unwrap_err();
    assert_eq!(ErrorKind::InvalidData, err.kind());
    assert_eq!(PipeStateKind::Dead, pusher.pipe_state(0));
}

#[test]
fn dead_pipes_request_a_reconnect_when_an_address_is_known() {
    let mut sock = SocketImpl::new(SocketId(0), SocketType::Pair);
    sock.on_connected(Some("tcp://127.0.0.1:5460".to_string()), 7).unwrap();
    match sock.on_pipe_error(7) {
        Some((tok, addr, delay)) => {
            assert_eq!(7, tok);
            assert_eq!("tcp://127.0.0.1:5460", addr);
            assert_eq!(200, delay);
        },
        None => panic!("an outgoing pipe should schedule a reconnect"),
    }
    assert!(sock.pipe_index(7).is_none());

    sock.on_connected(None, 8).unwrap();
    assert!(sock.on_pipe_error(8).is_none());
}

#[test]
fn acceptors_request_a_rebind_on_error() {
    let mut sock = SocketImpl::new(SocketId(0), SocketType::Rep);
    sock.add_acceptor(5, "tcp://127.0.0.1:5462".to_string());
    assert!(sock.has_acceptor(5));
    assert!(!sock.has_acceptor(6));
    match sock.on_acceptor_error(5) {
        Some((tok, addr, delay)) => {
            assert_eq!(5, tok);
            assert_eq!("tcp://127.0.0.1:5462", addr);
            assert_eq!(200, delay);
        },
        None => panic!("a failing acceptor should schedule a rebind"),
    }
    assert!(!sock.has_acceptor(5));
}

#[test]
fn duplicate_tokens_are_rejected() {
    let mut sock = SocketImpl::new(SocketId(0), SocketType::Pair);
    sock.on_connected(None, 3).unwrap();
    let err = sock.on_connected(None, 3).unwrap_err();
    assert_eq!(ErrorKind::InvalidData, err.kind());
}

#[test]
fn options_are_checked_against_the_pattern() {
    let mut push = SocketImpl::new(SocketId(0), SocketType::Push);
    assert_eq!(
        ErrorKind::InvalidInput,
        push.set_option(SocketOption::Subscribe("A".to_string())).unwrap_err().kind()
    );
    assert_eq!(
        ErrorKind::InvalidInput,
        push.set_option(SocketOption::SurveyDeadline(core::time::Duration::from_millis(1)))
            .unwrap_err()
            .kind()
    );
    assert_eq!(
        ErrorKind::InvalidInput,
        push.set_option(SocketOption::ResendInterval(core::time::Duration::from_millis(1)))
            .unwrap_err()
            .kind()
    );
    assert!(push.set_option(SocketOption::SendTimeout(core::time::Duration::from_millis(50))).is_ok());
    assert!(push.set_option(SocketOption::SendPriority(3)).is_ok());
    assert_eq!(50, push.send_timeout_ms);
}

#[test]
fn parked_sends_flush_once_a_peer_opens() {
    let mut push = SocketImpl::new(SocketId(0), SocketType::Push);
    let mut pull = SocketImpl::new(SocketId(1), SocketType::Pull);
    assert!(matches!(push.send(Message::with_body(vec![65, 66, 67])), SendStep::Parked));

    connect_sockets(&mut push, 1, &mut pull, 2);
    let parked = push.take_parked_send().unwrap();
    assert!(matches!(push.send(parked), SendStep::AwaitCompletion(1)));
    let (bytes, _) = pump_send(&mut push, 1);
    assert!(matches!(pull.recv(), RecvStep::AwaitMessage));
    match deliver(&mut pull, 2, &bytes) {
        Some(SocketNotify::MsgRecv(m)) => assert_eq!(vec![65, 66, 67], m.body),
        _ => panic!("the parked message should arrive after the peer opened"),
    }
}

#[test]
fn destroy_returns_every_registered_token() {
    let mut sock = SocketImpl::new(SocketId(0), SocketType::Bus);
    sock.on_connected(None, 3).unwrap();
    sock.on_connected(None, 9).unwrap();
    let tokens = sock.destroy();
    assert_eq!(vec![3, 9], tokens);
    assert!(sock.pipe_index(3).is_none());
}

#[test]
fn addresses_split_at_the_scheme_separator() {
    assert_eq!(3, split_address("tcp://127.0.0.1:5454").unwrap());
    assert_eq!(3, split_address("ipc:///tmp/test_ipc.ipc").unwrap());
    let err = split_address("just-a-path").unwrap_err();
    assert_eq!(ErrorKind::InvalidInput, err.kind());
    assert_eq!(ErrorKind::InvalidInput, split_address("").unwrap_err().kind());
}
