//! The search for a local port.
use std::cell::RefCell;
use std::collections::HashSet;
use std::rc::Rc;
use std::sync::Arc;

use udp_stream::addr::{IpAddr, Ipv4Addr, Ipv6Addr, SocketAddr, SocketAddrV6};
use udp_stream::bind::{BindAction, BindEvent, NextRandomUdpSocket};
use udp_stream::ports::{PortDraws, PortSource, RandomPorts};
use udp_stream::stream::UdpStream;

fn name_server() -> SocketAddr {
    SocketAddr::new(IpAddr::V4(Ipv4Addr { octets: [127, 0, 0, 1] }), 52)
}

fn any4(port: u16) -> SocketAddr {
    SocketAddr::new(IpAddr::V4(Ipv4Addr { octets: [0; 4] }), port)
}

fn all_ports() -> Arc<HashSet<u16>> {
    Arc::new((0..=u16::MAX).collect())
}

fn search(avoid: Arc<HashSet<u16>>, os: bool) -> NextRandomUdpSocket {
    NextRandomUdpSocket::new(name_server(), None, avoid, os)
}

/// A source that hands out the given ports, and notes the ranges it was asked for.
struct Script {
    ports: Vec<u16>,
    ranges: Rc<RefCell<Vec<(u16, u16)>>>,
}

impl PortSource for Script {
    fn draw(&mut self, low: u16, high: u16) -> u16 {
        self.ranges.borrow_mut().push((low, high));
        self.ports.remove(0)
    }
}

fn script(ports: &[u16]) -> (PortDraws<Script>, Rc<RefCell<Vec<(u16, u16)>>>) {
    let ranges = Rc::new(RefCell::new(vec![]));
    let source = Script { ports: ports.to_vec(), ranges: ranges.clone() };
    (PortDraws::new(source), ranges)
}

fn avoiding(ports: &[u16]) -> NextRandomUdpSocket {
    search(Arc::new(ports.iter().copied().collect()), false)
}

fn bound_to(action: BindAction) -> SocketAddr {
    match action {
        BindAction::Bind { bind_addr, name_server: ns } => {
            assert_eq!(ns, name_server());
            bind_addr
        }
        other => panic!("no bind but {:?}", other),
    }
}

#[test]
fn random_ports_are_high_and_differ() {
    let mut seen = HashSet::new();
    for _ in 0..200 {
        let mut s = search(Arc::new(HashSet::new()), false);
        let addr = bound_to(s.poll(BindEvent::Idle, &mut PortDraws::new(RandomPorts)));
        assert!(addr.port() >= 1024);
        assert_eq!(addr, any4(addr.port()));
        seen.insert(addr.port());
    }
    assert!(seen.len() > 20);
}

#[test]
fn ports_come_from_the_whole_range() {
    // Of 400 draws some fall into the lower and some into the upper part.
    let mut low = false;
    let mut high = false;
    for _ in 0..400 {
        let mut s = search(Arc::new(HashSet::new()), false);
        let port = s.next_bind_addr(&mut PortDraws::new(RandomPorts)).port();
        low = low || port < 8192;
        high = high || port > 57344;
    }
    assert!(low && high);
}

#[test]
fn range_handed_to_the_draw() {
    let mut s = avoiding(&[]);
    let (mut ports, ranges) = script(&[30303, 65535]);
    assert_eq!(s.next_bind_addr(&mut ports), any4(30303));
    assert_eq!(s.next_bind_addr(&mut ports), any4(65535));
    assert_eq!(*ranges.borrow(), vec![(1024, 65535); 2]);
}

#[test]
fn avoided_draw_is_followed_by_another() {
    let mut s = avoiding(&[2000]);
    let (mut ports, ranges) = script(&[2000, 3000]);
    assert_eq!(s.next_bind_addr(&mut ports), any4(3000));
    assert_eq!(ranges.borrow().len(), 2);
    // That has cost one attempt of the ten.
    let (mut ports, ranges) = script(&[2000; 9]);
    assert_eq!(s.next_bind_addr(&mut ports), any4(0));
    assert_eq!(ranges.borrow().len(), 9);
}

#[test]
fn draws_use_up_attempts() {
    let mut s = avoiding(&[2000]);
    let (mut ports, ranges) = script(&[2000; 10]);
    assert_eq!(s.next_bind_addr(&mut ports), any4(0));
    assert_eq!(ranges.borrow().len(), 10);
    // No attempt is left, so nothing is drawn any more.
    assert_eq!(s.next_bind_addr(&mut script(&[]).0), any4(0));
}

#[test]
fn settled_draws() {
    let mut s = avoiding(&[2000, 2001]);
    assert_eq!(s.settle(&[2000, 2001, 3000, 1, 1, 1, 1, 1, 1, 1]), any4(3000));
    // Two attempts are used up: eight more draws do it.
    assert_eq!(s.settle(&[2000, 2000, 2000, 2000, 2000, 2000, 2000, 4000]), any4(4000));
    assert_eq!(s.settle(&[2001]), any4(0));
    assert_eq!(s.settle(&[]), any4(0));
    let mut s = search(all_ports(), true);
    assert_eq!(s.settle(&[]), any4(0));
}

#[test]
fn failures_and_draws_share_the_attempts() {
    let mut s = avoiding(&[2000]);
    let (mut ports, ranges) = script(&[2000, 2000, 3000, 2000, 4000, 2000, 2000, 2000, 5000, 2000, 6000]);
    assert_eq!(bound_to(s.poll(BindEvent::Idle, &mut ports)), any4(3000));
    assert_eq!(s.poll(BindEvent::Pending, &mut ports), BindAction::ReturnPending);
    assert_eq!(bound_to(s.poll(BindEvent::AddrInUse, &mut ports)), any4(4000));
    // Two draws, a failure and a draw were counted; now come a failure and three draws.
    assert_eq!(bound_to(s.poll(BindEvent::PermissionDenied, &mut ports)), any4(5000));
    // A failure and a draw use up the ten.
    assert_eq!(bound_to(s.poll(BindEvent::AddrInUse, &mut ports)), any4(0));
    assert_eq!(ranges.borrow().len(), 10);
    assert_eq!(bound_to(s.poll(BindEvent::AddrInUse, &mut ports)), any4(0));
    // Five binds and seven rejected draws were made.
    assert_eq!(s.poll(BindEvent::AddrInUse, &mut ports), BindAction::ReturnError);
    assert_eq!(ranges.borrow().len(), 10);
}

#[test]
fn nothing_drawn_for_a_given_port() {
    let given = any4(5300);
    let none = Arc::new(HashSet::new());
    let (mut ports, ranges) = script(&[]);
    let mut s = NextRandomUdpSocket::new(name_server(), Some(given), none.clone(), false);
    assert_eq!(s.next_bind_addr(&mut ports), given);
    let mut s = search(none, true);
    assert_eq!(s.next_bind_addr(&mut ports), any4(0));
    assert!(ranges.borrow().is_empty());
}

#[test]
fn avoided_ports_are_not_drawn() {
    // Half of the ports are to be avoided.
    let avoid: HashSet<u16> = (0..=u16::MAX).filter(|p| p % 2 == 0).collect();
    let avoid = Arc::new(avoid);
    for _ in 0..200 {
        let mut s = search(avoid.clone(), false);
        let port = bound_to(s.poll(BindEvent::Idle, &mut PortDraws::new(RandomPorts))).port();
        assert!(port == 0 || port % 2 == 1);
    }
}

#[test]
fn all_ports_avoided() {
    let mut s = search(all_ports(), false);
    // All random attempts are used up by the draws.
    assert_eq!(bound_to(s.poll(BindEvent::Idle, &mut PortDraws::new(RandomPorts))), any4(0));
    // One more failure is put up with, the next is not.
    assert_eq!(bound_to(s.poll(BindEvent::AddrInUse, &mut PortDraws::new(RandomPorts))), any4(0));
    assert_eq!(s.poll(BindEvent::AddrInUse, &mut PortDraws::new(RandomPorts)), BindAction::ReturnError);
}

#[test]
fn offered_ports() {
    let mut avoid = HashSet::new();
    avoid.insert(2000);
    let mut s = search(Arc::new(avoid), false);
    for _ in 0..9 {
        assert_eq!(s.offer_port(2000), None);
    }
    assert_eq!(s.offer_port(2001), Some(any4(2001)));
    assert_eq!(s.offer_port(2000), None);
    // Now the attempts are used up.
    assert_eq!(s.next_bind_addr(&mut PortDraws::new(RandomPorts)), any4(0));
}

#[test]
fn drawing_drops_flow_and_scope() {
    let given = SocketAddr::V6(SocketAddrV6 {
        ip: Ipv6Addr { octets: [1; 16] },
        port: 0,
        flowinfo: 5,
        scope_id: 6,
    });
    let none = Arc::new(HashSet::new());
    let mut s = NextRandomUdpSocket::new(name_server(), Some(given), none.clone(), false);
    assert_eq!(s.offer_port(4000), Some(SocketAddr::new(given.ip(), 4000)));
    let mut s = NextRandomUdpSocket::new(name_server(), Some(given), none, true);
    assert_eq!(s.next_bind_addr(&mut PortDraws::new(RandomPorts)), given);
}

#[test]
fn given_port_is_used() {
    let given = any4(5300);
    let mut s = NextRandomUdpSocket::new(name_server(), Some(given), all_ports(), false);
    assert_eq!(bound_to(s.poll(BindEvent::Idle, &mut PortDraws::new(RandomPorts))), given);
    for _ in 0..11 {
        assert_eq!(bound_to(s.poll(BindEvent::PermissionDenied, &mut PortDraws::new(RandomPorts))), given);
    }
    assert_eq!(s.poll(BindEvent::PermissionDenied, &mut PortDraws::new(RandomPorts)), BindAction::ReturnError);
}

#[test]
fn system_picks_port() {
    let mut s = search(all_ports(), true);
    assert_eq!(bound_to(s.poll(BindEvent::Idle, &mut PortDraws::new(RandomPorts))), any4(0));
}

#[test]
fn search_ends() {
    let mut s = search(Arc::new(HashSet::new()), false);
    assert!(bound_to(s.poll(BindEvent::Idle, &mut PortDraws::new(RandomPorts))).port() >= 1024);
    for i in 1..=11 {
        let port = bound_to(s.poll(BindEvent::AddrInUse, &mut PortDraws::new(RandomPorts))).port();
        // The first ten binds are to random ports, the last two are not.
        if i < 10 {
            assert!(port >= 1024);
        } else {
            assert_eq!(port, 0);
        }
    }
    assert_eq!(s.poll(BindEvent::AddrInUse, &mut PortDraws::new(RandomPorts)), BindAction::ReturnError);
    assert_eq!(s.poll(BindEvent::PermissionDenied, &mut PortDraws::new(RandomPorts)), BindAction::ReturnError);
}

#[test]
fn other_outcomes() {
    let mut s = search(Arc::new(HashSet::new()), false);
    s.poll(BindEvent::Idle, &mut PortDraws::new(RandomPorts));
    assert_eq!(s.poll(BindEvent::Pending, &mut PortDraws::new(RandomPorts)), BindAction::ReturnPending);
    assert_eq!(s.poll(BindEvent::Failed, &mut PortDraws::new(RandomPorts)), BindAction::ReturnError);
    assert_eq!(s.poll(BindEvent::Bound, &mut PortDraws::new(RandomPorts)), BindAction::ReturnSocket);
}

#[test]
fn client_stream() {
    let v6 = SocketAddr::new(IpAddr::V6(Ipv6Addr { octets: [9; 16] }), 53);
    let (mut pending, handle) = UdpStream::<&str, _>::new(v6, None, None, true, 'q', 17u8);
    assert_eq!(handle.remote_addr, v6);
    assert_eq!(handle.sender, 17);
    assert_eq!(
        pending.search.poll(BindEvent::Idle, &mut PortDraws::new(RandomPorts)),
        BindAction::Bind {
            bind_addr: SocketAddr::new(IpAddr::V6(Ipv6Addr { octets: [0; 16] }), 0),
            name_server: v6,
        }
    );
    let mut stream = pending.into_stream("socket");
    let (socket, queue) = stream.pollable_split();
    assert_eq!((*socket, *queue), ("socket", 'q'));
    let (mut pending, _) =
        UdpStream::<(), _>::new(name_server(), Some(any4(0)), Some(all_ports()), false, (), ());
    assert_eq!(bound_to(pending.search.poll(BindEvent::Idle, &mut PortDraws::new(RandomPorts))), any4(0));
}
