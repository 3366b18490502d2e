//! The signals flowing between the caller-facing facades and the engine:
//! commands going in, events and reply notifications coming out, and the
//! timer expirations the event loop schedules.

use vstd::prelude::*;

use crate::global::{other_io_error, ErrorKind, IoError, SocketId, SocketType};
use crate::message::Message;

verus! {

/// A request to poll two sockets for readability and writability.
pub struct PollRequest(pub SocketId, pub SocketId);

/// The outcome of a poll: whether a receive and whether a send would
/// proceed.
pub struct PollResult(pub bool, pub bool);

/// Message flowing through the event loop channel so components can
/// communicate with each other.
pub enum EventLoopSignal {
    Cmd(CmdSignal),
    Evt(EvtSignal),
}

impl EventLoopSignal {
    pub fn name(&self) -> (r: &'static str)
        ensures
            (*self matches EventLoopSignal::Cmd(_)) ==> r@ == "Cmd"@,
            (*self matches EventLoopSignal::Evt(_)) ==> r@ == "Evt"@,
    {
        match *self {
            EventLoopSignal::Cmd(_) => "Cmd",
            EventLoopSignal::Evt(_) => "Evt",
        }
    }
}

/// Commands sent by facade components to the engine-side components.
pub enum CmdSignal {
    Session(SessionCmdSignal),
    Socket(SocketId, SocketCmdSignal),
}

impl CmdSignal {
    pub fn name(&self) -> (r: &'static str)
        ensures
            (*self matches CmdSignal::Session(_)) ==> r@ == "Session"@,
            (*self matches CmdSignal::Socket(_, _)) ==> r@ == "Socket"@,
    {
        match *self {
            CmdSignal::Session(_) => "Session",
            CmdSignal::Socket(_, _) => "Socket",
        }
    }
}

/// Commands sent to the session.
pub enum SessionCmdSignal {
    CreateSocket(SocketType),
    DestroySocket(SocketId),
    CreateProbe(PollRequest),
    Shutdown,
}

impl SessionCmdSignal {
    pub fn name(&self) -> (r: &'static str)
        ensures
            (*self matches SessionCmdSignal::CreateSocket(_)) ==> r@ == "CreateSocket"@,
            (*self matches SessionCmdSignal::DestroySocket(_)) ==> r@ == "DestroySocket"@,
            (*self matches SessionCmdSignal::CreateProbe(_)) ==> r@ == "CreateProbe"@,
            (*self matches SessionCmdSignal::Shutdown) ==> r@ == "Shutdown"@,
    {
        match *self {
            SessionCmdSignal::CreateSocket(_) => "CreateSocket",
            SessionCmdSignal::DestroySocket(_) => "DestroySocket",
            SessionCmdSignal::CreateProbe(_) => "CreateProbe",
            SessionCmdSignal::Shutdown => "Shutdown",
        }
    }
}

/// Commands sent to a socket.
pub enum SocketCmdSignal {
    Connect(String),
    Bind(String),
    SendMsg(Message),
    RecvMsg,
    SetOption(SocketOption),
}

impl SocketCmdSignal {
    pub fn name(&self) -> (r: &'static str)
        ensures
            (*self matches SocketCmdSignal::Connect(_)) ==> r@ == "Connect"@,
            (*self matches SocketCmdSignal::Bind(_)) ==> r@ == "Bind"@,
            (*self matches SocketCmdSignal::SendMsg(_)) ==> r@ == "SendMsg"@,
            (*self matches SocketCmdSignal::RecvMsg) ==> r@ == "RecvMsg"@,
            (*self matches SocketCmdSignal::SetOption(_)) ==> r@ == "SetOption"@,
    {
        match *self {
            SocketCmdSignal::Connect(_) => "Connect",
            SocketCmdSignal::Bind(_) => "Bind",
            SocketCmdSignal::SendMsg(_) => "SendMsg",
            SocketCmdSignal::RecvMsg => "RecvMsg",
            SocketCmdSignal::SetOption(_) => "SetOption",
        }
    }
}

/// Per-socket options set through `SetOption`. Durations are handed over as
/// they come from the caller and converted to milliseconds at the engine's
/// edge.
pub enum SocketOption {
    SendTimeout(core::time::Duration),
    RecvTimeout(core::time::Duration),
    Subscribe(String),
    Unsubscribe(String),
    SurveyDeadline(core::time::Duration),
    ResendInterval(core::time::Duration),
    SendPriority(u8),
    RecvPriority(u8),
}

/// Events raised by components living in the event loop, resulting from the
/// execution of commands.
pub enum EvtSignal {
    Socket(SocketId, SocketEvtSignal),
    Pipe(usize, PipeEvtSignal),
}

impl EvtSignal {
    pub fn name(&self) -> (r: &'static str)
        ensures
            (*self matches EvtSignal::Socket(_, _)) ==> r@ == "Socket"@,
            (*self matches EvtSignal::Pipe(_, _)) ==> r@ == "Pipe"@,
    {
        match *self {
            EvtSignal::Socket(_, _) => "Socket",
            EvtSignal::Pipe(_, _) => "Pipe",
        }
    }
}

/// Events raised by sockets.
pub enum SocketEvtSignal {
    PipeAdded(usize),
    AcceptorAdded(usize),
}

impl SocketEvtSignal {
    pub fn name(&self) -> (r: &'static str)
        ensures
            (*self matches SocketEvtSignal::PipeAdded(_)) ==> r@ == "PipeAdded"@,
            (*self matches SocketEvtSignal::AcceptorAdded(_)) ==> r@ == "AcceptorAdded"@,
    {
        match *self {
            SocketEvtSignal::PipeAdded(_) => "PipeAdded",
            SocketEvtSignal::AcceptorAdded(_) => "AcceptorAdded",
        }
    }
}

/// Events raised by pipes.
pub enum PipeEvtSignal {
    Opened,
    MsgRcv(Message),
    MsgSnd,
}

impl PipeEvtSignal {
    pub fn name(&self) -> (r: &'static str)
        ensures
            (*self matches PipeEvtSignal::Opened) ==> r@ == "Opened"@,
            (*self matches PipeEvtSignal::MsgRcv(_)) ==> r@ == "MsgRcv"@,
            (*self matches PipeEvtSignal::MsgSnd) ==> r@ == "MsgSnd"@,
    {
        match *self {
            PipeEvtSignal::Opened => "Opened",
            PipeEvtSignal::MsgRcv(_) => "MsgRcv",
            PipeEvtSignal::MsgSnd => "MsgSnd",
        }
    }
}

/// Expirations raised by previously armed timers.
pub enum EventLoopTimeout {
    Reconnect(usize, String),
    Rebind(usize, String),
    CancelSend(SocketId),
    CancelRecv(SocketId),
    CancelSurvey(SocketId),
    Resend(SocketId),
}

/// Notifications sent by the engine-side socket as reply to the commands
/// sent by the facade socket. Endpoint-producing replies carry the endpoint
/// token the caller will use as its handle.
pub enum SocketNotify {
    Connected(usize),
    NotConnected(IoError),
    Bound(usize),
    NotBound(IoError),
    MsgSent,
    MsgNotSent(IoError),
    MsgRecv(Message),
    MsgNotRecv(IoError),
    OptionSet,
    OptionNotSet(IoError),
}

/// How the blocking facade turns the reply to a `Connect` or `Bind` command
/// into its caller-visible result: the endpoint token on success, the error
/// on failure, and a protocol-misuse error for a reply of the wrong shape.
pub fn interpret_endpoint_reply(n: SocketNotify) -> (r: Result<usize, IoError>)
    ensures
        n matches SocketNotify::Connected(t) ==> r == Ok::<usize, IoError>(t),
        n matches SocketNotify::Bound(t) ==> r == Ok::<usize, IoError>(t),
        n matches SocketNotify::NotConnected(e) ==> r == Err::<usize, IoError>(e),
        n matches SocketNotify::NotBound(e) ==> r == Err::<usize, IoError>(e),
        r is Ok <==> (n matches SocketNotify::Connected(_) || n matches SocketNotify::Bound(_)),
        r matches Err(e) ==> (n matches SocketNotify::NotConnected(e0) && e == e0) || (n matches
            SocketNotify::NotBound(e0) && e == e0) || (e.kind == ErrorKind::Other && !(n matches
            SocketNotify::NotConnected(_)) && !(n matches SocketNotify::NotBound(_))),
{
    match n {
        SocketNotify::Connected(t) => Ok(t),
        SocketNotify::Bound(t) => Ok(t),
        SocketNotify::NotConnected(e) => Err(e),
        SocketNotify::NotBound(e) => Err(e),
        _ => Err(other_io_error("unexpected evt")),
    }
}

/// How the blocking facade turns the reply to a `SendMsg` command into its
/// caller-visible result: success exactly on `MsgSent`, the carried error on
/// `MsgNotSent`.
pub fn interpret_send_reply(n: SocketNotify) -> (r: Result<(), IoError>)
    ensures
        r is Ok <==> n is MsgSent,
        n matches SocketNotify::MsgNotSent(e) ==> r == Err::<(), IoError>(e),
        r matches Err(e) ==> (n matches SocketNotify::MsgNotSent(e0) && e == e0) || (e.kind
            == ErrorKind::Other && !(n is MsgSent) && !(n matches SocketNotify::MsgNotSent(_))),
{
    match n {
        SocketNotify::MsgSent => Ok(()),
        SocketNotify::MsgNotSent(e) => Err(e),
        _ => Err(other_io_error("unexpected evt")),
    }
}

/// How the blocking facade turns the reply to a `RecvMsg` command into its
/// caller-visible result: the message exactly on `MsgRecv`, the carried
/// error on `MsgNotRecv`.
pub fn interpret_recv_reply(n: SocketNotify) -> (r: Result<Message, IoError>)
    ensures
        r is Ok <==> n is MsgRecv,
        n matches SocketNotify::MsgRecv(m) ==> (r matches Ok(m0) && m0 == m),
        n matches SocketNotify::MsgNotRecv(e) ==> r == Err::<Message, IoError>(e),
        r matches Err(e) ==> (n matches SocketNotify::MsgNotRecv(e0) && e == e0) || (e.kind
            == ErrorKind::Other && !(n is MsgRecv) && !(n matches SocketNotify::MsgNotRecv(_))),
{
    match n {
        SocketNotify::MsgRecv(m) => Ok(m),
        SocketNotify::MsgNotRecv(e) => Err(e),
        _ => Err(other_io_error("unexpected evt")),
    }
}

/// How the blocking facade turns the reply to a `SetOption` command into its
/// caller-visible result.
pub fn interpret_option_reply(n: SocketNotify) -> (r: Result<(), IoError>)
    ensures
        r is Ok <==> n is OptionSet,
        n matches SocketNotify::OptionNotSet(e) ==> r == Err::<(), IoError>(e),
        r matches Err(e) ==> (n matches SocketNotify::OptionNotSet(e0) && e == e0) || (e.kind
            == ErrorKind::Other && !(n is OptionSet) && !(n matches SocketNotify::OptionNotSet(_))),
{
    match n {
        SocketNotify::OptionSet => Ok(()),
        SocketNotify::OptionNotSet(e) => Err(e),
        _ => Err(other_io_error("unexpected evt")),
    }
}

} // verus!
