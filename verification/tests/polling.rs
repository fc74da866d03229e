//! Polls of a stream and of its socket.
use udp_stream::addr::{IpAddr, Ipv4Addr, SocketAddr};
use udp_stream::message::SerialMessage;
use udp_stream::socket::{
    poll_recv_from_with_dst, poll_send_to_with_src, RecvAction, SendAction, SocketEvent,
};
use udp_stream::stream::{poll_next, StreamAction, StreamEvent, UdpStream};

fn ip(last: u8) -> IpAddr {
    IpAddr::V4(Ipv4Addr { octets: [192, 0, 2, last] })
}

fn peer(port: u16) -> SocketAddr {
    SocketAddr::new(ip(1), port)
}

#[test]
fn messages() {
    let mut m = SerialMessage::new(vec![1, 2, 3], peer(53));
    assert_eq!(m.bytes(), &[1, 2, 3]);
    assert_eq!(m.addr(), peer(53));
    assert_eq!(m.local_addr(), None);
    m.set_local_addr(ip(9));
    assert_eq!(m.local_addr(), Some(ip(9)));
    assert_eq!(m.bytes(), &[1, 2, 3]);
    let r = SerialMessage::received(&[1, 2, 3, 0, 0], 3, peer(53), Some(ip(9)));
    assert_eq!(r, m);
    let r = SerialMessage::received(&[1, 2, 3], 0, peer(53), None);
    assert_eq!(r, SerialMessage::new(vec![], peer(53)));
}

#[test]
fn stream_parts() {
    let mut s = UdpStream::from_parts(3u8, vec![1u32]);
    {
        let (socket, queue) = s.pollable_split();
        assert_eq!(*socket, 3);
        *socket = 4;
        queue.push(2);
    }
    let (socket, queue) = s.pollable_split();
    assert_eq!((*socket, queue.clone()), (4, vec![1, 2]));
    let (mut s, handle) = UdpStream::with_bound("socket", "queue", peer(7), "sender");
    let (socket, queue) = s.pollable_split();
    assert_eq!((*socket, *queue), ("socket", "queue"));
    assert_eq!((handle.remote_addr, handle.sender), (peer(7), "sender"));
}

/// Runs a poll on a queue; `sends` says how each send comes out. Returns what was
/// sent and whether the poll went on to receive.
fn run(queue: &mut Vec<SerialMessage>, sends: &[StreamEvent]) -> (Vec<Vec<u8>>, bool) {
    let mut sent = Vec::new();
    let mut event = StreamEvent::Polled;
    let mut pop = false;
    loop {
        if pop {
            queue.remove(0);
            pop = false;
            event = StreamEvent::Popped;
        }
        let mut action = poll_next(event);
        if let StreamAction::Peek = action {
            action = match queue.first() {
                Some(m) => poll_next(StreamEvent::Queued(m)),
                None => poll_next(StreamEvent::Idle),
            };
        }
        match action {
            StreamAction::Send { bytes, .. } => {
                event = sends[sent.len()];
                sent.push(bytes.to_vec());
            }
            StreamAction::Pop => pop = true,
            StreamAction::Receive => return (sent, true),
            StreamAction::ReturnPending => return (sent, false),
            other => panic!("unexpected {:?}", other),
        }
    }
}

fn queue() -> Vec<SerialMessage> {
    (1..=3).map(|i| SerialMessage::new(vec![i], peer(53))).collect()
}

#[test]
fn sends_come_before_receives() {
    let mut q = queue();
    let (sent, received) = run(&mut q, &[StreamEvent::SendDone; 3]);
    assert_eq!(sent, vec![vec![1], vec![2], vec![3]]);
    assert!(received);
    assert!(q.is_empty());
    let (sent, received) = run(&mut q, &[]);
    assert!(sent.is_empty() && received);
}

#[test]
fn failed_send_drops_message() {
    let mut q = queue();
    let outcomes = [StreamEvent::SendDone, StreamEvent::SendFailed, StreamEvent::SendDone];
    let (sent, received) = run(&mut q, &outcomes);
    assert_eq!(sent.len(), 3);
    assert!(received);
    assert!(q.is_empty());
}

#[test]
fn pending_send_keeps_message() {
    let mut q = queue();
    let (sent, received) = run(&mut q, &[StreamEvent::SendDone, StreamEvent::SendPending]);
    assert_eq!(sent, vec![vec![1], vec![2]]);
    assert!(!received);
    assert_eq!(q.len(), 2);
    assert_eq!(q[0].bytes(), &[2]);
}

#[test]
fn messages_complete_once_over_several_polls() {
    let mut q = queue();
    let (sent, _) = run(&mut q, &[StreamEvent::SendDone, StreamEvent::SendPending]);
    assert_eq!(sent, vec![vec![1], vec![2]]);
    // What was not taken comes again, and more is put in meanwhile.
    q.push(SerialMessage::new(vec![4], peer(53)));
    let (sent, _) = run(&mut q, &[StreamEvent::SendPending]);
    assert_eq!(sent, vec![vec![2]]);
    let outcomes = [StreamEvent::SendDone, StreamEvent::SendFailed, StreamEvent::SendDone];
    let (sent, received) = run(&mut q, &outcomes);
    assert_eq!(sent, vec![vec![2], vec![3], vec![4]]);
    assert!(received);
    // Nothing comes again after it has completed.
    q.push(SerialMessage::new(vec![5], peer(53)));
    let (sent, received) = run(&mut q, &[StreamEvent::SendDone]);
    assert_eq!(sent, vec![vec![5]]);
    assert!(received);
}

#[test]
fn messages_sent_once_over_several_polls() {
    let mut q = vec![];
    let mut sent = vec![];
    for i in 1..=4 {
        q.push(SerialMessage::new(vec![i, 1], peer(53)));
        q.push(SerialMessage::new(vec![i, 2], peer(53)));
        let (more, received) = run(&mut q, &[StreamEvent::SendDone; 2]);
        assert!(received);
        sent.extend(more);
    }
    let all: Vec<Vec<u8>> = (1..=4).flat_map(|i| [vec![i, 1], vec![i, 2]]).collect();
    assert_eq!(sent, all);
}

#[test]
fn send_action_holds_message() {
    let mut m = SerialMessage::new(vec![5, 6], peer(99));
    m.set_local_addr(ip(4));
    match poll_next(StreamEvent::Queued(&m)) {
        StreamAction::Send { bytes, addr, local_ip } => {
            assert_eq!(bytes, &[5, 6]);
            assert_eq!(addr, peer(99));
            assert_eq!(local_ip, Some(ip(4)));
        }
        other => panic!("unexpected {:?}", other),
    }
}

#[test]
fn outcome_of_receive() {
    assert!(matches!(poll_next(StreamEvent::RecvPending), StreamAction::ReturnPending));
    assert!(matches!(poll_next(StreamEvent::RecvFailed), StreamAction::ReturnError));
    let buf = [1, 2, 3, 4, 0, 0];
    let event =
        StreamEvent::Received { buf: &buf, len: 4, src: peer(53), dst_ip: Some(ip(8)) };
    match poll_next(event) {
        StreamAction::ReturnMessage(m) => {
            assert_eq!(m.bytes(), &[1, 2, 3, 4]);
            assert_eq!(m.addr(), peer(53));
            assert_eq!(m.local_addr(), Some(ip(8)));
        }
        other => panic!("unexpected {:?}", other),
    }
}

#[test]
fn receive_steps() {
    let step = poll_recv_from_with_dst;
    assert_eq!(step(SocketEvent::Polled), RecvAction::AwaitReady);
    assert_eq!(step(SocketEvent::NotReady), RecvAction::ReturnPending);
    assert_eq!(step(SocketEvent::ReadyFailed), RecvAction::ReturnError);
    assert_eq!(step(SocketEvent::Ready), RecvAction::Attempt);
    assert_eq!(step(SocketEvent::Done), RecvAction::ReturnDone);
    assert_eq!(step(SocketEvent::WouldBlock), RecvAction::AwaitReady);
    assert_eq!(step(SocketEvent::Failed), RecvAction::ReturnError);
}

#[test]
fn send_steps() {
    let step = |event| poll_send_to_with_src(Some(ip(3)), event);
    assert_eq!(step(SocketEvent::Polled), SendAction::AwaitReady);
    assert_eq!(step(SocketEvent::NotReady), SendAction::ReturnPending);
    assert_eq!(step(SocketEvent::ReadyFailed), SendAction::ReturnError);
    assert_eq!(step(SocketEvent::Ready), SendAction::Attempt { src_ip: ip(3) });
    assert_eq!(step(SocketEvent::Done), SendAction::ReturnDone);
    assert_eq!(step(SocketEvent::WouldBlock), SendAction::AwaitReady);
    assert_eq!(step(SocketEvent::Failed), SendAction::ReturnError);
    assert_eq!(poll_send_to_with_src(None, SocketEvent::Polled), SendAction::PollSendTo);
}
