use scaproust::event_loop_msg::{
    interpret_endpoint_reply, interpret_option_reply, interpret_recv_reply, interpret_send_reply,
    CmdSignal, EventLoopSignal, EventLoopTimeout, EvtSignal, PipeEvtSignal, SessionCmdSignal,
    SocketCmdSignal, SocketEvtSignal, SocketNotify,
};
use scaproust::global::{other_io_error, ErrorKind, SocketId, SocketType};
use scaproust::message::Message;
use scaproust::timer::TimerList;

#[test]
fn signals_report_their_names() {
    let create = SessionCmdSignal::CreateSocket(SocketType::Pair);
    assert_eq!("CreateSocket", create.name());
    assert_eq!("DestroySocket", SessionCmdSignal::DestroySocket(SocketId(1)).name());
    assert_eq!("Shutdown", SessionCmdSignal::Shutdown.name());

    let cmd = CmdSignal::Session(SessionCmdSignal::Shutdown);
    assert_eq!("Session", cmd.name());
    assert_eq!("Cmd", EventLoopSignal::Cmd(cmd).name());

    let socket_cmd = SocketCmdSignal::Connect("tcp://127.0.0.1:5454".to_string());
    assert_eq!("Connect", socket_cmd.name());
    assert_eq!("SendMsg", SocketCmdSignal::SendMsg(Message::with_body(vec![1])).name());
    assert_eq!("RecvMsg", SocketCmdSignal::RecvMsg.name());

    assert_eq!("PipeAdded", SocketEvtSignal::PipeAdded(3).name());
    assert_eq!("Opened", PipeEvtSignal::Opened.name());
    assert_eq!("MsgSnd", PipeEvtSignal::MsgSnd.name());
    let evt = EvtSignal::Pipe(3, PipeEvtSignal::Opened);
    assert_eq!("Pipe", evt.name());
    assert_eq!("Evt", EventLoopSignal::Evt(evt).name());
}

#[test]
fn endpoint_replies_carry_the_token_or_the_error() {
    assert_eq!(7, interpret_endpoint_reply(SocketNotify::Connected(7)).unwrap());
    assert_eq!(9, interpret_endpoint_reply(SocketNotify::Bound(9)).unwrap());
    let e = interpret_endpoint_reply(SocketNotify::NotConnected(other_io_error("down"))).unwrap_err();
    assert_eq!(ErrorKind::Other, e.kind());
    let e = interpret_endpoint_reply(SocketNotify::MsgSent).unwrap_err();
    assert_eq!(ErrorKind::Other, e.kind());
}

#[test]
fn send_replies_succeed_only_on_msg_sent() {
    assert!(interpret_send_reply(SocketNotify::MsgSent).is_ok());
    let e = interpret_send_reply(SocketNotify::MsgNotSent(other_io_error("busy"))).unwrap_err();
    assert_eq!(ErrorKind::Other, e.kind());
    assert!(interpret_send_reply(SocketNotify::OptionSet).is_err());
}

#[test]
fn recv_replies_carry_the_message() {
    let m = Message::with_body(vec![4, 5]);
    let got = interpret_recv_reply(SocketNotify::MsgRecv(m)).unwrap();
    assert_eq!(vec![4, 5], got.body);
    assert!(interpret_recv_reply(SocketNotify::MsgSent).is_err());
    assert!(interpret_option_reply(SocketNotify::OptionSet).is_ok());
    assert!(interpret_option_reply(SocketNotify::MsgSent).is_err());
}

#[test]
fn timers_fire_once_due_and_cancel_by_handle() {
    let mut timers = TimerList::new();
    let h1 = timers.arm(200, EventLoopTimeout::CancelSend(SocketId(1)));
    let h2 = timers.arm(100, EventLoopTimeout::CancelRecv(SocketId(2)));
    assert_ne!(h1, h2);

    assert!(timers.due_one(50).is_none());
    match timers.due_one(150) {
        Some(EventLoopTimeout::CancelRecv(id)) => assert_eq!(SocketId(2), id),
        _ => panic!("the timer due at 100 should fire at 150"),
    }
    assert!(timers.due_one(150).is_none());

    assert!(timers.cancel(h1));
    assert!(!timers.cancel(h1));
    assert!(timers.due_one(500).is_none());
}

#[test]
fn reconnect_timers_carry_token_and_address() {
    let mut timers = TimerList::new();
    timers.arm(200, EventLoopTimeout::Reconnect(4, "tcp://127.0.0.1:5455".to_string()));
    match timers.due_one(200) {
        Some(EventLoopTimeout::Reconnect(tok, addr)) => {
            assert_eq!(4, tok);
            assert_eq!("tcp://127.0.0.1:5455", addr);
        },
        _ => panic!("the reconnect timer should fire with its payload"),
    }
}
