//! Sends and receives on a nonblocking socket, step by step.
//!
//! The caller performs each action and reports how it came out.
use vstd::prelude::*;

use crate::addr::IpAddr;

verus! {

/// What happened to a send or receive.
#[derive(Clone, Copy, Debug, PartialEq, Eq, Structural)]
pub enum SocketEvent {
    /// The caller asks for it.
    Polled,
    /// The socket is not ready.
    NotReady,
    /// The readiness cannot be told.
    ReadyFailed,
    /// The socket is ready.
    Ready,
    /// The call went through.
    Done,
    /// The call would have blocked: the readiness was outdated.
    WouldBlock,
    /// The call failed.
    Failed,
}

/// What to do next about a receive.
#[derive(Clone, Copy, Debug, PartialEq, Eq, Structural)]
pub enum RecvAction {
    /// Poll the readiness of the socket.
    AwaitReady,
    /// Make the call.
    Attempt,
    /// Wait until the socket is ready.
    ReturnPending,
    /// Hand out the result of the call.
    ReturnDone,
    /// Hand out the error.
    ReturnError,
}

/// What to do next about a send.
#[derive(Clone, Copy, Debug, PartialEq, Eq)]
pub enum SendAction {
    /// Leave it to a plain send, with its own readiness.
    PollSendTo,
    /// Poll the readiness of the socket.
    AwaitReady,
    /// Make the call, with the source address pinned.
    Attempt { src_ip: IpAddr },
    /// Wait until the socket is ready.
    ReturnPending,
    /// Hand out the result of the call.
    ReturnDone,
    /// Hand out the error.
    ReturnError,
}

/// Goes on with a receive after `event`.
///
/// A call that would have blocked is no error: the readiness is polled again.
pub fn poll_recv_from_with_dst(event: SocketEvent) -> (action: RecvAction)
    ensures
        action is AwaitReady <==> event is Polled || event is WouldBlock,
        action is Attempt <==> event is Ready,
        action is ReturnPending <==> event is NotReady,
        action is ReturnDone <==> event is Done,
        action is ReturnError <==> event is ReadyFailed || event is Failed,
{
    match event {
        SocketEvent::Polled => RecvAction::AwaitReady,
        SocketEvent::NotReady => RecvAction::ReturnPending,
        SocketEvent::ReadyFailed => RecvAction::ReturnError,
        SocketEvent::Ready => RecvAction::Attempt,
        SocketEvent::Done => RecvAction::ReturnDone,
        SocketEvent::WouldBlock => RecvAction::AwaitReady,
        SocketEvent::Failed => RecvAction::ReturnError,
    }
}

/// Goes on with a send from the local address `local_ip` after `event`.
///
/// Without a local address it is a plain send. With one, a call that would have
/// blocked is no error: the readiness is polled again.
pub fn poll_send_to_with_src(local_ip: Option<IpAddr>, event: SocketEvent) -> (action: SendAction)
    ensures
        action is PollSendTo <==> local_ip is None,
        local_ip matches Some(src_ip) ==> {
            &&& action is AwaitReady <==> event is Polled || event is WouldBlock
            &&& action == (SendAction::Attempt { src_ip }) <==> event is Ready
            &&& action is ReturnPending <==> event is NotReady
            &&& action is ReturnDone <==> event is Done
            &&& action is ReturnError <==> event is ReadyFailed || event is Failed
        },
{
    let src_ip = match local_ip {
        Some(src_ip) => src_ip,
        None => return SendAction::PollSendTo,
    };
    match event {
        SocketEvent::Polled => SendAction::AwaitReady,
        SocketEvent::NotReady => SendAction::ReturnPending,
        SocketEvent::ReadyFailed => SendAction::ReturnError,
        SocketEvent::Ready => SendAction::Attempt { src_ip },
        SocketEvent::Done => SendAction::ReturnDone,
        SocketEvent::WouldBlock => SendAction::AwaitReady,
        SocketEvent::Failed => SendAction::ReturnError,
    }
}

/// A receive starts with the readiness of the socket, makes the call only once the
/// socket is ready, and hands out what the call came up with. A call that would have
/// blocked is as if the receive had just started, and never an error.
pub proof fn law_steps_of_a_receive(
    event: SocketEvent,
    action: RecvAction,
    at_first: RecvAction,
    when_blocked: RecvAction,
)
    requires
        call_ensures(poll_recv_from_with_dst, (event,), action),
        call_ensures(poll_recv_from_with_dst, (SocketEvent::Polled,), at_first),
        call_ensures(poll_recv_from_with_dst, (SocketEvent::WouldBlock,), when_blocked),
    ensures
        at_first == RecvAction::AwaitReady,
        when_blocked == at_first,
        action == RecvAction::Attempt <==> event == SocketEvent::Ready,
        action == RecvAction::ReturnDone <==> event == SocketEvent::Done,
        action == RecvAction::ReturnPending <==> event == SocketEvent::NotReady,
        action == RecvAction::ReturnError <==> event == SocketEvent::ReadyFailed || event
            == SocketEvent::Failed,
{
}

/// A send without a local address is a plain one, whatever happens. One with a local
/// address goes the way of a receive, and its call is made from that address.
pub proof fn law_steps_of_a_send(
    src_ip: IpAddr,
    event: SocketEvent,
    plain: SendAction,
    pinned: SendAction,
    receive: RecvAction,
)
    requires
        call_ensures(poll_send_to_with_src, (None, event), plain),
        call_ensures(poll_send_to_with_src, (Some(src_ip), event), pinned),
        call_ensures(poll_recv_from_with_dst, (event,), receive),
    ensures
        plain == SendAction::PollSendTo,
        pinned == match receive {
            RecvAction::AwaitReady => SendAction::AwaitReady,
            RecvAction::Attempt => SendAction::Attempt { src_ip },
            RecvAction::ReturnPending => SendAction::ReturnPending,
            RecvAction::ReturnDone => SendAction::ReturnDone,
            RecvAction::ReturnError => SendAction::ReturnError,
        },
{
}

} // verus!
