//! The stream of messages over a UDP socket.
use std::collections::HashSet;
use std::sync::Arc;

use vstd::prelude::*;

use crate::addr::{IpAddr, SocketAddr};
use crate::bind::{self, BindAction, BindEvent, NextRandomUdpSocket, PortSearch};
use crate::message::{SerialMessage, SerialMessageView};

verus! {

/// A UDP stream of DNS binary packets: a socket, and the receiving end of the
/// queue of messages to send.
#[must_use]
pub struct UdpStream<S, R> {
    socket: S,
    outbound_messages: R,
}

/// A stream whose socket is still to be bound. It already holds the receiving end of
/// the queue, so messages can be put in from the start.
#[must_use]
pub struct PendingStream<R> {
    /// The search for a port to bind the socket to.
    pub search: NextRandomUdpSocket,
    /// The receiving end of the queue of messages to send.
    pub outbound_messages: R,
}

/// The sending end of the queue of a stream, with the address of the remote side.
pub struct BufDnsStreamHandle<T> {
    pub remote_addr: SocketAddr,
    pub sender: T,
}

impl<R> PendingStream<R> {
    /// Makes the stream, once the search has come up with a socket. What was put
    /// into the queue before is still in it.
    pub fn into_stream<S>(self, socket: S) -> (stream: UdpStream<S, R>)
        ensures
            stream.socket() == socket,
            stream.outbound_messages() == self.outbound_messages,
    {
        UdpStream::from_parts(socket, self.outbound_messages)
    }
}

impl<S, R> UdpStream<S, R> {
    /// The socket.
    pub closed spec fn socket(&self) -> S {
        self.socket
    }

    /// The receiving end of the queue of messages to send.
    pub closed spec fn outbound_messages(&self) -> R {
        self.outbound_messages
    }

    /// Starts a stream for a client, on a socket that is still to be bound, and the
    /// handle to send messages into it with. `sender` and `outbound_messages` are the
    /// two ends of its queue.
    ///
    /// `remote_addr` decides the family. A nonzero port in `bind_addr` is used;
    /// otherwise a random one is, none of `avoid_local_ports`, unless
    /// `os_port_selection` leaves the choice to the operating system. The choice is
    /// left to it too once ten attempts at a random port have failed, whether the
    /// port was to be avoided or could not be bound.
    pub fn new<T>(
        remote_addr: SocketAddr,
        bind_addr: Option<SocketAddr>,
        avoid_local_ports: Option<Arc<HashSet<u16>>>,
        os_port_selection: bool,
        outbound_messages: R,
        sender: T,
    ) -> (r: (PendingStream<R>, BufDnsStreamHandle<T>))
        ensures
            r.0.search@ == (PortSearch {
                name_server: remote_addr,
                bind_address: match bind_addr {
                    Some(given) => given,
                    None => remote_addr.unspecified_like(),
                },
                attempted: 0,
                avoid: match avoid_local_ports {
                    Some(ports) => ports@,
                    None => Set::empty(),
                },
                os_port_selection,
            }),
            r.0.outbound_messages == outbound_messages,
            r.1.remote_addr == remote_addr,
            r.1.sender == sender,
    {
        let message_sender = BufDnsStreamHandle { remote_addr, sender };
        let avoid = match avoid_local_ports {
            Some(ports) => ports,
            None => Arc::new(HashSet::new()),
        };
        let search = NextRandomUdpSocket::new(
            remote_addr,
            bind_addr,
            avoid,
            os_port_selection,
        );
        (PendingStream { search, outbound_messages }, message_sender)
    }

    /// Makes a stream of an already bound socket, and the handle to send messages
    /// into it with.
    ///
    /// This is for a listening socket of a server; [`Self::new`] is for a client.
    pub fn with_bound<T>(
        socket: S,
        outbound_messages: R,
        remote_addr: SocketAddr,
        sender: T,
    ) -> (r: (Self, BufDnsStreamHandle<T>))
        ensures
            r.0.socket() == socket,
            r.0.outbound_messages() == outbound_messages,
            r.1.remote_addr == remote_addr,
            r.1.sender == sender,
    {
        let message_sender = BufDnsStreamHandle { remote_addr, sender };
        (Self::from_parts(socket, outbound_messages), message_sender)
    }

    /// Makes a stream of its parts.
    pub fn from_parts(socket: S, outbound_messages: R) -> (stream: Self)
        ensures
            stream.socket() == socket,
            stream.outbound_messages() == outbound_messages,
    {
        UdpStream { socket, outbound_messages }
    }

    /// Both parts, to be polled each on its own.
    pub fn pollable_split(&mut self) -> (parts: (&mut S, &mut R))
        ensures
            *parts.0 == old(self).socket(),
            *parts.1 == old(self).outbound_messages(),
            final(self).socket() == *final(parts.0),
            final(self).outbound_messages() == *final(parts.1),
    {
        (&mut self.socket, &mut self.outbound_messages)
    }
}

/// What happened in a poll of a stream.
#[derive(Clone, Copy, Debug)]
pub enum StreamEvent<'a> {
    /// The poll starts.
    Polled,
    /// A message to send stands at the head of the queue.
    Queued(&'a SerialMessage),
    /// No message is there to send, now or ever.
    Idle,
    /// The socket does not take the message yet.
    SendPending,
    /// The message was sent.
    SendDone,
    /// The message could not be sent.
    SendFailed,
    /// The message was taken off the queue.
    Popped,
    /// No datagram is there yet.
    RecvPending,
    /// Receiving failed.
    RecvFailed,
    /// A datagram of `len` bytes was received into `buf`.
    Received { buf: &'a [u8], len: usize, src: SocketAddr, dst_ip: Option<IpAddr> },
}

/// What to do next in a poll of a stream.
#[derive(Debug)]
pub enum StreamAction<'a> {
    /// Look at the head of the queue.
    Peek,
    /// Send `bytes` to `addr`, from `local_ip` if that is given.
    Send { bytes: &'a [u8], addr: SocketAddr, local_ip: Option<IpAddr> },
    /// Take the message off the queue.
    Pop,
    /// Receive a datagram.
    Receive,
    /// The poll is pending.
    ReturnPending,
    /// The poll hands out the error of the receive.
    ReturnError,
    /// The poll hands out a message.
    ReturnMessage(SerialMessage),
}

/// The contents of a [`StreamEvent`].
pub enum StreamEventView {
    Polled,
    Queued(SerialMessageView),
    Idle,
    SendPending,
    SendDone,
    SendFailed,
    Popped,
    RecvPending,
    RecvFailed,
    Received(SerialMessageView),
}

/// The contents of a [`StreamAction`].
pub enum StreamActionView {
    Peek,
    Send(SerialMessageView),
    Pop,
    Receive,
    ReturnPending,
    ReturnError,
    ReturnMessage(SerialMessageView),
}

impl<'a> View for StreamEvent<'a> {
    type V = StreamEventView;

    open spec fn view(&self) -> StreamEventView {
        match *self {
            StreamEvent::Polled => StreamEventView::Polled,
            StreamEvent::Queued(m) => StreamEventView::Queued(m@),
            StreamEvent::Idle => StreamEventView::Idle,
            StreamEvent::SendPending => StreamEventView::SendPending,
            StreamEvent::SendDone => StreamEventView::SendDone,
            StreamEvent::SendFailed => StreamEventView::SendFailed,
            StreamEvent::Popped => StreamEventView::Popped,
            StreamEvent::RecvPending => StreamEventView::RecvPending,
            StreamEvent::RecvFailed => StreamEventView::RecvFailed,
            StreamEvent::Received { buf, len, src, dst_ip } => StreamEventView::Received(
                SerialMessageView {
                    bytes: buf@.take(len as int),
                    addr: src,
                    local_addr: dst_ip,
                },
            ),
        }
    }
}

impl<'a> View for StreamAction<'a> {
    type V = StreamActionView;

    open spec fn view(&self) -> StreamActionView {
        match *self {
            StreamAction::Peek => StreamActionView::Peek,
            StreamAction::Send { bytes, addr, local_ip } => StreamActionView::Send(
                SerialMessageView { bytes: bytes@, addr, local_addr: local_ip },
            ),
            StreamAction::Pop => StreamActionView::Pop,
            StreamAction::Receive => StreamActionView::Receive,
            StreamAction::ReturnPending => StreamActionView::ReturnPending,
            StreamAction::ReturnError => StreamActionView::ReturnError,
            StreamAction::ReturnMessage(m) => StreamActionView::ReturnMessage(m@),
        }
    }
}

/// What follows on an event.
///
/// Messages are sent while there are any, so nothing is received meanwhile, which
/// makes the stream throttle itself. A message that cannot be sent is dropped; one
/// that cannot be sent yet stays. A poll receives one datagram at most.
pub open spec fn action_after(event: StreamEventView) -> StreamActionView {
    match event {
        StreamEventView::Polled | StreamEventView::Popped => StreamActionView::Peek,
        StreamEventView::Queued(m) => StreamActionView::Send(m),
        StreamEventView::SendDone | StreamEventView::SendFailed => StreamActionView::Pop,
        StreamEventView::Idle => StreamActionView::Receive,
        StreamEventView::SendPending | StreamEventView::RecvPending =>
            StreamActionView::ReturnPending,
        StreamEventView::RecvFailed => StreamActionView::ReturnError,
        StreamEventView::Received(m) => StreamActionView::ReturnMessage(m),
    }
}

/// Goes on with a poll after `event`.
pub fn poll_next<'a>(event: StreamEvent<'a>) -> (action: StreamAction<'a>)
    requires
        event matches StreamEvent::Received { buf, len, .. } ==> len <= buf@.len(),
    ensures
        action@ == action_after(event@),
        event matches StreamEvent::Received { buf, len, src, dst_ip } ==> (
        action matches StreamAction::ReturnMessage(m) && m@.bytes == buf@.subrange(0, len as int)
            && m@.addr == src && m@.local_addr == dst_ip),
        event matches StreamEvent::Queued(m) ==> (
        action matches StreamAction::Send { bytes, addr, local_ip } && bytes@ == m@.bytes && addr
            == m@.addr && local_ip == m@.local_addr),
{
    match event {
        StreamEvent::Polled | StreamEvent::Popped => StreamAction::Peek,
        StreamEvent::Queued(m) => StreamAction::Send {
            bytes: m.bytes(),
            addr: m.addr(),
            local_ip: m.local_addr(),
        },
        StreamEvent::Idle => StreamAction::Receive,
        StreamEvent::SendPending => StreamAction::ReturnPending,
        // The error is not reported to whoever queued the message.
        StreamEvent::SendDone | StreamEvent::SendFailed => StreamAction::Pop,
        StreamEvent::RecvPending => StreamAction::ReturnPending,
        StreamEvent::RecvFailed => StreamAction::ReturnError,
        StreamEvent::Received { buf, len, src, dst_ip } => StreamAction::ReturnMessage(
            SerialMessage::received(buf, len, src, dst_ip),
        ),
    }
}

/// How many messages were taken off the queue in `events`.
pub open spec fn pops(events: Seq<StreamEventView>) -> nat
    decreases events.len(),
{
    if events.len() == 0 {
        0
    } else {
        pops(events.drop_last()) + (if events.last() is Popped {
            1nat
        } else {
            0nat
        })
    }
}

/// The messages that were handed to the socket in `events`, in order.
pub open spec fn handed_over(events: Seq<StreamEventView>) -> Seq<SerialMessageView>
    decreases events.len(),
{
    if events.len() == 0 {
        Seq::empty()
    } else {
        let before = handed_over(events.drop_last());
        match action_after(events.last()) {
            StreamActionView::Send(m) => before.push(m),
            _ => before,
        }
    }
}

/// Whether `event` can come of `action` when the first `popped` messages of
/// `queue` have been taken off.
pub open spec fn comes_of(
    action: StreamActionView,
    queue: Seq<SerialMessageView>,
    popped: nat,
    event: StreamEventView,
) -> bool {
    match action {
        StreamActionView::Peek => if popped < queue.len() {
            event == StreamEventView::Queued(queue[popped as int])
        } else {
            event is Idle
        },
        StreamActionView::Send(_) => event is SendPending || event is SendDone
            || event is SendFailed,
        StreamActionView::Pop => event is Popped,
        StreamActionView::Receive => event is RecvPending || event is RecvFailed
            || event is Received,
        _ => false,
    }
}

/// Whether the event at `i`, which is not the first, can come of what is done after
/// the event before it, in a poll that finds the messages of `queue` to send.
pub open spec fn follows(
    queue: Seq<SerialMessageView>,
    events: Seq<StreamEventView>,
    i: int,
) -> bool {
    comes_of(action_after(events[i - 1]), queue, pops(events.take(i)), events[i])
}

/// Whether `events` are those of a poll, from its start up to some point, that
/// finds the messages of `queue` to send.
pub open spec fn is_poll(queue: Seq<SerialMessageView>, events: Seq<StreamEventView>) -> bool {
    &&& events.len() > 0
    &&& events[0] is Polled
    &&& forall|i: int| 0 < i < events.len() ==> #[trigger] follows(queue, events, i)
}

/// A poll without its last event is a poll.
proof fn lemma_front_is_poll(queue: Seq<SerialMessageView>, events: Seq<StreamEventView>)
    requires
        is_poll(queue, events),
        events.len() > 1,
    ensures
        is_poll(queue, events.drop_last()),
        comes_of(
            action_after(events.drop_last().last()),
            queue,
            pops(events.drop_last()),
            events.last(),
        ),
{
    let front = events.drop_last();
    assert forall|i: int| 0 < i < front.len() implies #[trigger] follows(queue, front, i) by {
        assert(follows(queue, events, i));
        assert(front.take(i) =~= events.take(i));
    }
    let last = events.len() - 1;
    assert(events.take(last) =~= front);
    assert(follows(queue, events, last));
}

/// The messages of the queue are handed to the socket in order and each once; one
/// is taken off the queue before the next is handed over, and none is taken off
/// that was not.
pub proof fn law_each_message_once(queue: Seq<SerialMessageView>, events: Seq<StreamEventView>)
    requires
        is_poll(queue, events),
    ensures
        handed_over(events) == queue.take(handed_over(events).len() as int),
        handed_over(events).len() <= queue.len(),
        pops(events) <= handed_over(events).len() <= pops(events) + 1,
        handed_over(events).len() == pops(events) + 1 <==> {
            ||| events.last() is Queued
            ||| events.last() is SendPending
            ||| events.last() is SendDone
            ||| events.last() is SendFailed
        },
    decreases events.len(),
{
    let front = events.drop_last();
    if events.len() == 1 {
        assert(pops(front) == 0);
        assert(handed_over(front) =~= Seq::empty());
        assert(handed_over(events) =~= queue.take(0));
    } else {
        lemma_front_is_poll(queue, events);
        law_each_message_once(queue, front);
        let done = handed_over(front);
        if events.last() is Queued {
            assert(done.len() == pops(front));
            assert(done.push(queue[done.len() as int]) =~= queue.take(
                done.len() as int + 1,
            ));
        }
    }
}

/// A stream does not receive while there is something to send: when a poll goes on
/// to receive, every message of the queue has been handed to the socket and taken
/// off the queue.
pub proof fn law_sending_comes_first(queue: Seq<SerialMessageView>, events: Seq<StreamEventView>)
    requires
        is_poll(queue, events),
        action_after(events.last()) is Receive,
    ensures
        handed_over(events) == queue,
        pops(events) == queue.len(),
{
    assert(events.len() > 1);
    lemma_front_is_poll(queue, events);
    law_each_message_once(queue, events);
    assert(queue.take(queue.len() as int) =~= queue);
}

/// A poll ends with its first receive: it hands out one message at most.
pub proof fn law_one_receive_per_poll(
    queue: Seq<SerialMessageView>,
    events: Seq<StreamEventView>,
    i: int,
)
    requires
        is_poll(queue, events),
        0 <= i < events.len(),
        action_after(events[i]) is Receive,
    ensures
        events.len() <= i + 2,
{
    if events.len() > i + 2 {
        assert(follows(queue, events, i + 1));
        assert(follows(queue, events, i + 2));
    }
}

/// A message that the socket does not take yet stays at the head of the queue, and
/// the poll is pending.
pub proof fn law_pending_message_stays(
    queue: Seq<SerialMessageView>,
    events: Seq<StreamEventView>,
)
    requires
        is_poll(queue, events),
        events.last() is SendPending,
    ensures
        action_after(events.last()) is ReturnPending,
        handed_over(events).len() > 0,
        pops(events) < queue.len(),
        handed_over(events).last() == queue[pops(events) as int],
{
    law_each_message_once(queue, events);
    let sent = handed_over(events);
    assert(queue.take(sent.len() as int).last() == queue[sent.len() - 1]);
}

/// The messages whose sending was completed in `events`, in order. The sending of a
/// message is completed once it was sent or could not be sent.
pub open spec fn completed(events: Seq<StreamEventView>) -> Seq<SerialMessageView>
    decreases events.len(),
{
    if events.len() == 0 {
        Seq::empty()
    } else {
        let before = completed(events.drop_last());
        if events.last() is SendDone || events.last() is SendFailed {
            before.push(handed_over(events).last())
        } else {
            before
        }
    }
}

/// Whether a poll returns after `events`.
pub open spec fn has_returned(events: Seq<StreamEventView>) -> bool {
    let action = action_after(events.last());
    action is ReturnPending || action is ReturnError || action is ReturnMessage
}

/// Whether a poll got to receiving in `events`: nothing was left to send.
pub open spec fn reached_receive(events: Seq<StreamEventView>) -> bool {
    let last = events.last();
    last is Idle || last is RecvPending || last is RecvFailed || last is Received
}

/// One poll of a stream: its events, and how many messages had been put into the
/// queue by then since the stream was started.
pub struct StreamPoll {
    pub arrived: nat,
    pub events: Seq<StreamEventView>,
}

/// How many messages were taken off the queue in `polls`.
pub open spec fn total_pops(polls: Seq<StreamPoll>) -> nat
    decreases polls.len(),
{
    if polls.len() == 0 {
        0
    } else {
        total_pops(polls.drop_last()) + pops(polls.last().events)
    }
}

/// The messages that were handed to the socket in `polls`, in order.
pub open spec fn total_handed_over(polls: Seq<StreamPoll>) -> Seq<SerialMessageView>
    decreases polls.len(),
{
    if polls.len() == 0 {
        Seq::empty()
    } else {
        total_handed_over(polls.drop_last()) + handed_over(polls.last().events)
    }
}

/// The messages whose sending was completed in `polls`, in order.
pub open spec fn total_completed(polls: Seq<StreamPoll>) -> Seq<SerialMessageView>
    decreases polls.len(),
{
    if polls.len() == 0 {
        Seq::empty()
    } else {
        total_completed(polls.drop_last()) + completed(polls.last().events)
    }
}

/// Whether `polls` can be the polls of a stream, the last one up to some point, where
/// `messages` are all that are ever put into its queue.
///
/// A poll finds to send what has been put in by then and was not taken off by an
/// earlier poll, and begins after the one before it has returned.
pub open spec fn is_stream(messages: Seq<SerialMessageView>, polls: Seq<StreamPoll>) -> bool
    decreases polls.len(),
{
    polls.len() > 0 ==> {
        let front = polls.drop_last();
        let last = polls.last();
        &&& is_stream(messages, front)
        &&& front.len() > 0 ==> has_returned(front.last().events) && front.last().arrived
            <= last.arrived
        &&& last.arrived <= messages.len()
        &&& is_poll(
            messages.subrange(total_pops(front) as int, last.arrived as int),
            last.events,
        )
    }
}

/// In a poll, messages are completed in the order of the queue, each once, and taken
/// off the queue right after.
proof fn lemma_completed(queue: Seq<SerialMessageView>, events: Seq<StreamEventView>)
    requires
        is_poll(queue, events),
    ensures
        completed(events) == queue.take(completed(events).len() as int),
        completed(events).len() <= handed_over(events).len(),
        completed(events).len() == pops(events) + (if events.last() is SendDone
            || events.last() is SendFailed {
            1nat
        } else {
            0nat
        }),
    decreases events.len(),
{
    let front = events.drop_last();
    law_each_message_once(queue, events);
    if events.len() == 1 {
        assert(pops(front) == 0);
        assert(completed(front) =~= Seq::empty());
        assert(completed(events) =~= queue.take(0));
    } else {
        lemma_front_is_poll(queue, events);
        lemma_completed(queue, front);
        let done = completed(front);
        let sent = handed_over(events);
        if events.last() is SendDone || events.last() is SendFailed {
            assert(sent.last() == queue[done.len() as int]);
            assert(done.push(queue[done.len() as int]) =~= queue.take(done.len() as int + 1));
        }
    }
}

/// Over all the polls of a stream, every message completes at most once, and they
/// complete in the order in which they were put into the queue. A poll first hands
/// over the message after the last one that completed in an earlier poll, so none is
/// sent again after it has completed.
pub proof fn law_each_message_completes_once(
    messages: Seq<SerialMessageView>,
    polls: Seq<StreamPoll>,
)
    requires
        is_stream(messages, polls),
        polls.len() > 0,
    ensures
        total_completed(polls) == messages.take(total_completed(polls).len() as int),
        total_completed(polls).len() <= polls.last().arrived <= messages.len(),
        has_returned(polls.last().events) ==> total_completed(polls).len() == total_pops(polls),
        ({
            let done = total_completed(polls.drop_last()).len() as int;
            let sent = handed_over(polls.last().events);
            &&& done + sent.len() <= polls.last().arrived
            &&& sent == messages.subrange(done, done + sent.len())
        }),
    decreases polls.len(),
{
    let front = polls.drop_last();
    let last = polls.last();
    if front.len() > 0 {
        law_each_message_completes_once(messages, front);
    } else {
        assert(total_completed(front) =~= messages.take(0));
    }
    let done = total_pops(front) as int;
    let queue = messages.subrange(done, last.arrived as int);
    law_each_message_once(queue, last.events);
    lemma_completed(queue, last.events);
    let sent = handed_over(last.events).len() as int;
    let more = completed(last.events).len() as int;
    assert(queue.take(sent) =~= messages.subrange(done, done + sent));
    assert(messages.take(done) + queue.take(more) =~= messages.take(done + more));
}

/// No message is lost: once a poll that found all the messages gets to receiving,
/// every message has completed, in order and once.
pub proof fn law_no_message_is_lost(messages: Seq<SerialMessageView>, polls: Seq<StreamPoll>)
    requires
        is_stream(messages, polls),
        polls.len() > 0,
        polls.last().arrived == messages.len(),
        reached_receive(polls.last().events),
    ensures
        total_completed(polls) == messages,
{
    let front = polls.drop_last();
    let events = polls.last().events;
    law_each_message_completes_once(messages, polls);
    if front.len() > 0 {
        law_each_message_completes_once(messages, front);
    }
    let queue = messages.subrange(total_pops(front) as int, messages.len() as int);
    lemma_front_is_poll(queue, events);
    if events.last() is Idle {
        law_sending_comes_first(queue, events);
    } else {
        law_sending_comes_first(queue, events.drop_last());
    }
    lemma_completed(queue, events);
    assert(messages.take(messages.len() as int) =~= messages);
}

/// Where the socket always takes a message at once, each message is handed over just
/// once, in order, however the messages are spread over the polls. Once a poll that
/// found all of them gets to receiving, all have been handed over.
pub proof fn law_each_message_is_sent_once(
    messages: Seq<SerialMessageView>,
    polls: Seq<StreamPoll>,
)
    requires
        is_stream(messages, polls),
        polls.len() > 0,
        forall|i: int|
            0 <= i < polls.len() ==> !((#[trigger] polls[i]).events.last() is SendPending),
    ensures
        total_handed_over(polls) == messages.take(total_handed_over(polls).len() as int),
        total_handed_over(polls).len() <= polls.last().arrived,
        has_returned(polls.last().events) ==> total_handed_over(polls).len() == total_pops(polls),
        polls.last().arrived == messages.len() && reached_receive(polls.last().events)
            ==> total_handed_over(polls) == messages,
    decreases polls.len(),
{
    let front = polls.drop_last();
    let last = polls.last();
    assert forall|i: int| 0 <= i < front.len() implies !((
    #[trigger] front[i]).events.last() is SendPending) by {
        assert(front[i] == polls[i]);
    }
    if front.len() > 0 {
        law_each_message_is_sent_once(messages, front);
        law_each_message_completes_once(messages, front);
    } else {
        assert(total_handed_over(front) =~= messages.take(0));
    }
    law_each_message_completes_once(messages, polls);
    let done = total_pops(front) as int;
    let queue = messages.subrange(done, last.arrived as int);
    law_each_message_once(queue, last.events);
    let sent = handed_over(last.events).len() as int;
    assert(polls[polls.len() - 1] == last);
    assert(messages.take(done) + queue.take(sent) =~= messages.take(done + sent));
    if last.arrived == messages.len() && reached_receive(last.events) {
        law_no_message_is_lost(messages, polls);
        lemma_completed(queue, last.events);
        assert(messages.take(messages.len() as int) =~= messages);
    }
}

/// A datagram is handed out whole: the message has every one of its bytes and no
/// others, its source as the address, and the destination that was reported as the
/// local address.
pub proof fn law_datagram_is_handed_out_whole<'a>(
    buf: &'a [u8],
    len: usize,
    src: SocketAddr,
    dst_ip: Option<IpAddr>,
    action: StreamAction<'a>,
)
    requires
        len <= buf@.len(),
        call_ensures(poll_next, (StreamEvent::Received { buf, len, src, dst_ip },), action),
    ensures
        action matches StreamAction::ReturnMessage(m) && {
            &&& m@.bytes.len() == len
            &&& forall|i: int| 0 <= i < len ==> #[trigger] m@.bytes[i] == buf@[i]
            &&& m@.addr == src
            &&& m@.local_addr == dst_ip
        },
{
}

/// A queued message is sent as it is: all of its bytes, to its address, from its local
/// address.
pub proof fn law_queued_message_is_sent_whole<'a>(m: &'a SerialMessage, action: StreamAction<'a>)
    requires
        call_ensures(poll_next, (StreamEvent::Queued(m),), action),
    ensures
        action matches StreamAction::Send { bytes, addr, local_ip } && {
            &&& bytes@.len() == m@.bytes.len()
            &&& forall|i: int| 0 <= i < bytes@.len() ==> #[trigger] bytes@[i] == m@.bytes[i]
            &&& addr == m@.addr
            &&& local_ip == m@.local_addr
        },
{
}

/// The queue is looked at when a poll starts and after each message that was taken
/// off it; a message is taken off once its sending is completed, well or badly; the
/// socket is read when there is nothing to send; and a poll returns when the socket
/// makes it wait, and with what the receive came up with.
pub proof fn law_steps_of_a_poll<'a>(event: StreamEvent<'a>, action: StreamAction<'a>)
    requires
        event matches StreamEvent::Received { buf, len, .. } ==> len <= buf@.len(),
        call_ensures(poll_next, (event,), action),
    ensures
        action is Peek <==> event is Polled || event is Popped,
        action is Send <==> event is Queued,
        action is Pop <==> event is SendDone || event is SendFailed,
        action is Receive <==> event is Idle,
        action is ReturnPending <==> event is SendPending || event is RecvPending,
        action is ReturnError <==> event is RecvFailed,
        action is ReturnMessage <==> event is Received,
{
}

/// A poll that received a datagram returns just that datagram, after all of the queue
/// has been sent; one whose receive failed returns the error.
pub proof fn law_poll_returns_what_it_received(
    queue: Seq<SerialMessageView>,
    events: Seq<StreamEventView>,
)
    requires
        is_poll(queue, events),
    ensures
        events.last() matches StreamEventView::Received(m) ==> action_after(events.last())
            == StreamActionView::ReturnMessage(m) && handed_over(events) == queue,
        events.last() is RecvFailed ==> action_after(events.last()) is ReturnError
            && handed_over(events) == queue,
{
    if events.last() is Received || events.last() is RecvFailed {
        lemma_front_is_poll(queue, events);
        law_sending_comes_first(queue, events.drop_last());
        assert(handed_over(events) == handed_over(events.drop_last()));
    }
}

/// A poll that finds nothing to send goes straight on to receive.
pub proof fn law_empty_queue_is_no_hindrance(
    queue: Seq<SerialMessageView>,
    events: Seq<StreamEventView>,
)
    requires
        is_poll(queue, events),
        queue.len() == 0,
        events.len() >= 2,
    ensures
        events[1] is Idle,
        action_after(events[1]) is Receive,
{
    assert(follows(queue, events, 1));
}

/// A client of either family gets a port of its own: unless a port was given or the
/// choice was left to the operating system, the first bind of a new stream is for the
/// port that was drawn, from 1024 up, if none of those is to be avoided. The address
/// is the one that was given, or else the unspecified one of the family of the remote
/// side.
pub proof fn law_client_gets_a_random_port<S, R, T>(
    remote_addr: SocketAddr,
    bind_addr: Option<SocketAddr>,
    avoid_local_ports: Option<Arc<HashSet<u16>>>,
    outbound_messages: R,
    sender: T,
    r: (PendingStream<R>, BufDnsStreamHandle<T>),
    draws: Seq<u16>,
    action: BindAction,
)
    requires
        call_ensures(
            UdpStream::<S, R>::new::<T>,
            (remote_addr, bind_addr, avoid_local_ports, false, outbound_messages, sender),
            r,
        ),
        bind_addr matches Some(given) ==> given.port() == 0,
        avoid_local_ports matches Some(ports) ==> (forall|port: u16|
            1024 <= port ==> !#[trigger] ports@.contains(port)),
        bind::can_follow(r.0.search@, BindEvent::Idle, draws),
        action == bind::polled(r.0.search@, BindEvent::Idle, draws).0,
    ensures
        draws.len() == 1,
        action matches BindAction::Bind { bind_addr: local, name_server } && {
            &&& name_server == remote_addr
            &&& local.port() == draws[0]
            &&& 1024 <= local.port() <= 65535
            &&& bind_addr matches Some(given) ==> local.ip() == given.ip()
            &&& bind_addr is None ==> match local {
                SocketAddr::V4(a) => remote_addr is V4 && (forall|i: int|
                    0 <= i < 4 ==> #[trigger] a.ip.octets[i] == 0),
                SocketAddr::V6(a) => remote_addr is V6 && (forall|i: int|
                    0 <= i < 16 ==> #[trigger] a.ip.octets[i] == 0),
            }
        },
{
    let s = r.0.search@;
    bind::law_wanted_port_is_drawn(s, draws);
    assert(1024 <= draws[0]);
    assert(draws.len() > 1 ==> s.avoid.contains(draws[0]));
}

/// A new stream is a new search for the remote side, which avoids the ports that are
/// to be avoided and no others, and keeps the two ends of its queue apart: the handle
/// has the sending end and the remote address, the stream the receiving end, before
/// and after its socket is bound.
pub proof fn law_new_stream<S, R, T>(
    remote_addr: SocketAddr,
    bind_addr: Option<SocketAddr>,
    avoid_local_ports: Option<Arc<HashSet<u16>>>,
    os_port_selection: bool,
    outbound_messages: R,
    sender: T,
    r: (PendingStream<R>, BufDnsStreamHandle<T>),
    socket: S,
    stream: UdpStream<S, R>,
)
    requires
        call_ensures(
            UdpStream::<S, R>::new::<T>,
            (
                remote_addr,
                bind_addr,
                avoid_local_ports,
                os_port_selection,
                outbound_messages,
                sender,
            ),
            r,
        ),
        call_ensures(PendingStream::<R>::into_stream::<S>, (r.0, socket), stream),
    ensures
        r.0.search@.attempted == 0,
        r.0.search@.name_server == remote_addr,
        r.0.search@.os_port_selection == os_port_selection,
        bind_addr matches Some(given) ==> r.0.search@.bind_address == given,
        forall|port: u16| #[trigger]
            r.0.search@.avoid.contains(port) <==> (avoid_local_ports matches Some(ports)
                && ports@.contains(port)),
        r.1.remote_addr == remote_addr,
        r.1.sender == sender,
        stream.socket() == socket,
        stream.outbound_messages() == outbound_messages,
{
}

/// A stream on a bound socket has that socket and the receiving end of its queue, and
/// the handle has the sending end and the remote address.
pub proof fn law_bound_stream<S, R, T>(
    socket: S,
    outbound_messages: R,
    remote_addr: SocketAddr,
    sender: T,
    r: (UdpStream<S, R>, BufDnsStreamHandle<T>),
    of_parts: UdpStream<S, R>,
)
    requires
        call_ensures(
            UdpStream::<S, R>::with_bound::<T>,
            (socket, outbound_messages, remote_addr, sender),
            r,
        ),
        call_ensures(UdpStream::<S, R>::from_parts, (socket, outbound_messages), of_parts),
    ensures
        r.0.socket() == socket && of_parts.socket() == socket,
        r.0.outbound_messages() == outbound_messages,
        of_parts.outbound_messages() == outbound_messages,
        r.1.remote_addr == remote_addr,
        r.1.sender == sender,
{
}

} // verus!
