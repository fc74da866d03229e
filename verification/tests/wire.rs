//! Byte orders, socket addresses, control messages and packet information.
use udp_stream::addr::{IpAddr, Ipv4Addr, Ipv6Addr, SocketAddr, SocketAddrV4, SocketAddrV6};
use udp_stream::bytes::{push_uint, push_zeros, read_uint, ByteOrder};
use udp_stream::cmsg::{build_cmsg, cmsg_nxthdr, parse_dst_from_cmsg};
use udp_stream::pktinfo;
use udp_stream::pktinfo::{RecvError, SocketOption};
use udp_stream::sockaddr::{encode_v4, encode_v6, sockaddr_to_socket_addr, SockaddrError};

const WORD: usize = std::mem::size_of::<usize>();

fn v4(a: u8, b: u8, c: u8, d: u8) -> Ipv4Addr {
    Ipv4Addr { octets: [a, b, c, d] }
}

fn v6() -> Ipv6Addr {
    Ipv6Addr { octets: [0x20, 0x01, 0x0d, 0xb8, 1, 2, 3, 4, 5, 6, 7, 8, 9, 10, 11, 12] }
}

fn addr4() -> SocketAddrV4 {
    SocketAddrV4 { ip: v4(192, 0, 2, 33), port: 5353 }
}

fn addr6() -> SocketAddrV6 {
    SocketAddrV6 { ip: v6(), port: 53, flowinfo: 0x0102_0304, scope_id: 7 }
}

fn storage(raw: &[u8]) -> [u8; 128] {
    let mut all = [0xaau8; 128];
    all[..raw.len()].copy_from_slice(raw);
    all
}

fn header(len: usize, level: i32, kind: i32) -> Vec<u8> {
    let mut h = Vec::new();
    h.extend_from_slice(&len.to_le_bytes());
    h.extend_from_slice(&level.to_le_bytes());
    h.extend_from_slice(&kind.to_le_bytes());
    h
}

#[test]
fn integers_in_both_orders() {
    let b = [0xffu8, 0x12, 0x34, 0x56, 0x78, 0, 0, 0, 0, 1];
    assert_eq!(read_uint(ByteOrder::Little, &b, 1, 2), 0x3412);
    assert_eq!(read_uint(ByteOrder::Big, &b, 1, 2), 0x1234);
    assert_eq!(read_uint(ByteOrder::Little, &b, 1, 4), 0x7856_3412);
    assert_eq!(read_uint(ByteOrder::Big, &b, 1, 4), 0x1234_5678);
    assert_eq!(read_uint(ByteOrder::Big, &b, 2, 8), 0x3456_7800_0000_0001);
    assert_eq!(read_uint(ByteOrder::Little, &[0xff; 8], 0, 8), u64::MAX);
    assert_eq!(read_uint(ByteOrder::Little, &b, 0, 0), 0);
    let mut out = vec![9u8];
    push_uint(&mut out, ByteOrder::Little, 0x1234, 2);
    push_uint(&mut out, ByteOrder::Big, 0x1234, 2);
    push_uint(&mut out, ByteOrder::Big, 0x0a0b_0c0d, 4);
    push_zeros(&mut out, 2);
    assert_eq!(out, vec![9, 0x34, 0x12, 0x12, 0x34, 0x0a, 0x0b, 0x0c, 0x0d, 0, 0]);
}

#[test]
fn integers_read_back() {
    for order in [ByteOrder::Little, ByteOrder::Big] {
        for v in [0u64, 1, 255, 256, 0xdead_beef] {
            let mut out = Vec::new();
            push_uint(&mut out, order, v, 4);
            assert_eq!(read_uint(order, &out, 0, 4), v);
        }
    }
}

#[test]
fn addresses() {
    let any4 = IpAddr::V4(v4(0, 0, 0, 0));
    let any6 = IpAddr::V6(Ipv6Addr { octets: [0; 16] });
    assert_eq!(SocketAddr::V4(addr4()).unspecified_like(), SocketAddr::new(any4, 0));
    assert_eq!(SocketAddr::V6(addr6()).unspecified_like(), SocketAddr::new(any6, 0));
    assert_eq!(SocketAddr::V6(addr6()).ip(), IpAddr::V6(v6()));
    assert_eq!(SocketAddr::V6(addr6()).port(), 53);
    assert_eq!(
        SocketAddr::new(IpAddr::V6(v6()), 9),
        SocketAddr::V6(SocketAddrV6 { ip: v6(), port: 9, flowinfo: 0, scope_id: 0 })
    );
    assert_eq!(
        v4(192, 0, 2, 33).to_ipv6_mapped().octets,
        [0, 0, 0, 0, 0, 0, 0, 0, 0, 0, 0xff, 0xff, 192, 0, 2, 33]
    );
}

#[test]
fn mapped_addresses() {
    let mapped = v4(192, 0, 2, 33).to_ipv6_mapped();
    assert!(mapped.is_ipv4_mapped());
    assert!(!v6().is_ipv4_mapped());
    assert!(!Ipv6Addr::unspecified().is_ipv4_mapped());
    for i in 0..12 {
        let mut other = mapped;
        other.octets[i] ^= 1;
        assert!(!other.is_ipv4_mapped());
    }
}

#[test]
fn sockaddr_in_bytes() {
    let le = encode_v4(ByteOrder::Little, addr4());
    assert_eq!(le, vec![2, 0, 0x14, 0xe9, 192, 0, 2, 33, 0, 0, 0, 0, 0, 0, 0, 0]);
    assert_eq!(le.len(), std::mem::size_of::<libc::sockaddr_in>());
    let be = encode_v4(ByteOrder::Big, addr4());
    assert_eq!(be, vec![0, 2, 0x14, 0xe9, 192, 0, 2, 33, 0, 0, 0, 0, 0, 0, 0, 0]);
}

#[test]
fn sockaddr_in6_bytes() {
    let le = encode_v6(ByteOrder::Little, addr6());
    let mut want = vec![10, 0, 0, 53, 4, 3, 2, 1];
    want.extend_from_slice(&v6().octets);
    want.extend_from_slice(&[7, 0, 0, 0]);
    assert_eq!(le, want);
    assert_eq!(le.len(), std::mem::size_of::<libc::sockaddr_in6>());
    let be = encode_v6(ByteOrder::Big, addr6());
    assert_eq!(&be[..8], &[0, 10, 0, 53, 1, 2, 3, 4]);
    assert_eq!(&be[24..], &[0, 0, 0, 7]);
}

#[test]
fn sockaddr_reads_back() {
    for order in [ByteOrder::Little, ByteOrder::Big] {
        let raw = storage(&encode_v4(order, addr4()));
        assert_eq!(sockaddr_to_socket_addr(order, &raw, 16), Ok(SocketAddr::V4(addr4())));
        let raw = storage(&encode_v6(order, addr6()));
        assert_eq!(sockaddr_to_socket_addr(order, &raw, 28), Ok(SocketAddr::V6(addr6())));
        assert_eq!(sockaddr_to_socket_addr(order, &raw, 128), Ok(SocketAddr::V6(addr6())));
    }
}

#[test]
fn sockaddr_written_again() {
    let mut raw = [0u8; 128];
    for i in 0..128 {
        raw[i] = i as u8;
    }
    raw[0] = 10;
    raw[1] = 0;
    match sockaddr_to_socket_addr(ByteOrder::Little, &raw, 28) {
        Ok(SocketAddr::V6(a)) => {
            assert_eq!(a.port, 0x0203);
            assert_eq!(a.flowinfo, 0x0706_0504);
            assert_eq!(a.scope_id, 0x1b1a_1918);
            assert_eq!(encode_v6(ByteOrder::Little, a), raw[..28].to_vec());
        }
        other => panic!("unexpected {:?}", other),
    }
    raw[0] = 2;
    match sockaddr_to_socket_addr(ByteOrder::Little, &raw, 16) {
        Ok(SocketAddr::V4(a)) => {
            assert_eq!(a.ip, v4(4, 5, 6, 7));
            assert_eq!(encode_v4(ByteOrder::Little, a)[..8], raw[..8]);
        }
        other => panic!("unexpected {:?}", other),
    }
}

#[test]
fn sockaddr_errors() {
    let order = ByteOrder::Little;
    let raw = storage(&encode_v4(order, addr4()));
    let short = sockaddr_to_socket_addr(order, &raw, 15);
    assert_eq!(short, Err(SockaddrError::Ipv4TooShort));
    assert_eq!(SockaddrError::Ipv4TooShort.message(), "IPv4 sockaddr too short");
    let raw = storage(&encode_v6(order, addr6()));
    let short = sockaddr_to_socket_addr(order, &raw, 27);
    assert_eq!(short, Err(SockaddrError::Ipv6TooShort));
    assert_eq!(SockaddrError::Ipv6TooShort.message(), "IPv6 sockaddr too short");
    let unix = sockaddr_to_socket_addr(order, &storage(&[1, 0]), 128);
    assert_eq!(unix, Err(SockaddrError::UnsupportedFamily));
    assert_eq!(
        SockaddrError::UnsupportedFamily.message(),
        "unsupported address family in recvmsg"
    );
    // The family is read in the order of the machine.
    let raw = storage(&encode_v4(ByteOrder::Big, addr4()));
    let other = sockaddr_to_socket_addr(order, &raw, 16);
    assert_eq!(other, Err(SockaddrError::UnsupportedFamily));
}

#[test]
fn control_message_bytes() {
    let control = build_cmsg(ByteOrder::Little, 41, 50, &[1, 2, 3]);
    let mut want = header(WORD + 8 + 3, 41, 50);
    assert_eq!(want.len(), std::mem::size_of::<libc::cmsghdr>());
    want.extend_from_slice(&[1, 2, 3]);
    while want.len() % WORD != 0 {
        want.push(0);
    }
    assert_eq!(control, want);
}

#[test]
fn next_header_places() {
    let h = WORD + 8;
    assert_eq!(cmsg_nxthdr(256, 0, (h + 1) as u64), Some(h + WORD));
    assert_eq!(cmsg_nxthdr(256, h, h as u64), Some(2 * h));
    assert_eq!(cmsg_nxthdr(2 * h, 0, h as u64), Some(h));
    assert_eq!(cmsg_nxthdr(2 * h - 1, 0, h as u64), None);
    assert_eq!(cmsg_nxthdr(256, 0, (h - 1) as u64), None);
    assert_eq!(cmsg_nxthdr(256, 0, 0), None);
    assert_eq!(cmsg_nxthdr(256, 0, u64::MAX), None);
}

#[test]
fn destination_of_ipv6() {
    for order in [ByteOrder::Little, ByteOrder::Big] {
        let mut info = v6().octets.to_vec();
        info.extend_from_slice(&[3, 0, 0, 0]);
        let control = build_cmsg(order, libc::IPPROTO_IPV6, libc::IPV6_PKTINFO, &info);
        assert_eq!(parse_dst_from_cmsg(order, &control), Some(IpAddr::V6(v6())));
    }
}

#[test]
fn destination_of_ipv4() {
    // The interface, the local address and the destination.
    let info = [2, 0, 0, 0, 10, 0, 0, 1, 192, 0, 2, 33];
    let control = build_cmsg(ByteOrder::Little, libc::IPPROTO_IP, libc::IP_PKTINFO, &info);
    let dst = parse_dst_from_cmsg(ByteOrder::Little, &control);
    assert_eq!(dst, Some(IpAddr::V4(v4(192, 0, 2, 33))));
}

#[test]
fn destination_behind_other_messages() {
    let order = ByteOrder::Little;
    let mut control = build_cmsg(order, 1, 29, &[7; 16]);
    control.extend_from_slice(&build_cmsg(order, 0, 8, &[1; 5]));
    control.extend_from_slice(&build_cmsg(order, 0, 8, &[2, 0, 0, 0, 1, 1, 1, 1, 9, 8, 7, 6]));
    let mut late = v6().octets.to_vec();
    late.extend_from_slice(&[0; 4]);
    control.extend_from_slice(&build_cmsg(order, 41, 50, &late));
    let dst = parse_dst_from_cmsg(order, &control);
    assert_eq!(dst, Some(IpAddr::V4(v4(9, 8, 7, 6))));
}

#[test]
fn no_destination() {
    let order = ByteOrder::Little;
    assert_eq!(parse_dst_from_cmsg(order, &[]), None);
    assert_eq!(parse_dst_from_cmsg(order, &vec![0; WORD + 7]), None);
    assert_eq!(parse_dst_from_cmsg(order, &[0; 256]), None);
    let other = build_cmsg(order, 41, 51, &[1; 20]);
    assert_eq!(parse_dst_from_cmsg(order, &other), None);
    let short = build_cmsg(order, 41, 50, &[1; 19]);
    assert_eq!(parse_dst_from_cmsg(order, &short), None);
    // More is stated than is there.
    let mut cut = build_cmsg(order, 41, 50, &[1; 20]);
    cut.truncate(WORD + 8 + 19);
    assert_eq!(parse_dst_from_cmsg(order, &cut), None);
    // A length below that of a header ends the chain.
    let mut bad = header(3, 1, 1);
    bad.extend_from_slice(&build_cmsg(order, 41, 50, &[1; 20]));
    assert_eq!(parse_dst_from_cmsg(order, &bad), None);
    // A length beyond all bounds does too.
    let mut huge = header(usize::MAX, 1, 1);
    huge.extend_from_slice(&build_cmsg(order, 41, 50, &[1; 20]));
    assert_eq!(parse_dst_from_cmsg(order, &huge), None);
}

#[test]
fn options_for_packet_information() {
    assert_eq!(
        pktinfo::enable(),
        vec![
            SocketOption { level: 41, name: 49, value: 1 },
            SocketOption { level: 0, name: 8, value: 1 },
        ]
    );
    assert_eq!(
        pktinfo::enable(),
        vec![
            SocketOption { level: libc::IPPROTO_IPV6, name: libc::IPV6_RECVPKTINFO, value: 1 },
            SocketOption { level: libc::IPPROTO_IP, name: libc::IP_PKTINFO, value: 1 },
        ]
    );
}

#[test]
fn received_datagram() {
    let order = ByteOrder::Little;
    let from = storage(&encode_v6(order, addr6()));
    let mut info = v6().octets.to_vec();
    info.extend_from_slice(&[3, 0, 0, 0]);
    let control = build_cmsg(order, 41, 50, &info);
    assert_eq!(
        pktinfo::recv(order, 12, &from, 28, &control),
        Ok((12, SocketAddr::V6(addr6()), Some(IpAddr::V6(v6()))))
    );
    assert_eq!(
        pktinfo::recv(order, 0, &from, 28, &[]),
        Ok((0, SocketAddr::V6(addr6()), None))
    );
    assert_eq!(pktinfo::recv(order, -1, &from, 28, &control), Err(RecvError::Os));
    assert_eq!(
        pktinfo::recv(order, 12, &from, 27, &control),
        Err(RecvError::Address(SockaddrError::Ipv6TooShort))
    );
    assert_eq!(pktinfo::transferred(-1), None);
    assert_eq!(pktinfo::transferred(0), Some(0));
    assert_eq!(pktinfo::transferred(512), Some(512));
}

#[test]
fn sends_by_family() {
    let order = ByteOrder::Little;
    let src4 = v4(10, 1, 2, 3);
    let t = pktinfo::send(order, SocketAddr::V6(addr6()), IpAddr::V6(v6()));
    let mut info = v6().octets.to_vec();
    info.extend_from_slice(&[0; 4]);
    assert_eq!(t.name, encode_v6(order, addr6()));
    assert_eq!(t.control, Some(build_cmsg(order, 41, 50, &info)));

    let t = pktinfo::send(order, SocketAddr::V4(addr4()), IpAddr::V4(src4));
    assert_eq!(t.name, encode_v4(order, addr4()));
    let info = [0, 0, 0, 0, 10, 1, 2, 3, 0, 0, 0, 0];
    assert_eq!(t.control, Some(build_cmsg(order, 0, 8, &info)));

    // A dual-stack socket shows an IPv4 client as a mapped address.
    let mapped = SocketAddrV6 { ip: v4(192, 0, 2, 33).to_ipv6_mapped(), ..addr6() };
    let t = pktinfo::send(order, SocketAddr::V6(mapped), IpAddr::V4(src4));
    assert_eq!(t, pktinfo::send_v6(order, mapped, src4.to_ipv6_mapped()));
    assert!(t.control.is_some());

    let t = pktinfo::send(order, SocketAddr::V6(addr6()), IpAddr::V4(src4));
    assert_eq!(t.name, encode_v6(order, addr6()));
    assert_eq!(t.control, None);
    assert_eq!(t, pktinfo::send_plain(order, SocketAddr::V6(addr6())));

    let t = pktinfo::send(order, SocketAddr::V4(addr4()), IpAddr::V6(v6()));
    assert_eq!(t.name, encode_v4(order, addr4()));
    assert_eq!(t.control, None);
    assert_eq!(t, pktinfo::send_plain(order, SocketAddr::V4(addr4())));
}

#[test]
fn sent_packet_information_on_64_bits() {
    if WORD == 8 {
        let t = pktinfo::send_v6(ByteOrder::Little, addr6(), v6());
        let mut want = vec![36, 0, 0, 0, 0, 0, 0, 0, 41, 0, 0, 0, 50, 0, 0, 0];
        want.extend_from_slice(&v6().octets);
        want.extend_from_slice(&[0; 8]);
        assert_eq!(t.control, Some(want));
        let t = pktinfo::send_v4(ByteOrder::Big, addr4(), v4(10, 1, 2, 3));
        let mut want = vec![0, 0, 0, 0, 0, 0, 0, 28, 0, 0, 0, 0, 0, 0, 0, 8];
        want.extend_from_slice(&[0, 0, 0, 0, 10, 1, 2, 3, 0, 0, 0, 0, 0, 0, 0, 0]);
        assert_eq!(t.control, Some(want));
    }
}

#[test]
fn sent_packet_information_read_back() {
    for order in [ByteOrder::Little, ByteOrder::Big] {
        let t = pktinfo::send_v6(order, addr6(), v6());
        let control = t.control.unwrap();
        assert_eq!(parse_dst_from_cmsg(order, &control), Some(IpAddr::V6(v6())));
        // Over IPv4 the destination is another field than the source.
        let t = pktinfo::send_v4(order, addr4(), v4(10, 1, 2, 3));
        let control = t.control.unwrap();
        assert_eq!(parse_dst_from_cmsg(order, &control), Some(IpAddr::V4(v4(0, 0, 0, 0))));
    }
}

#[test]
fn answer_leaves_from_queried_address() {
    let order = ByteOrder::Little;
    let from = storage(&encode_v4(order, addr4()));
    let query = build_cmsg(order, 0, 8, &[2, 0, 0, 0, 10, 0, 0, 1, 192, 0, 2, 99]);
    let (_, src, dst) = pktinfo::recv(order, 30, &from, 16, &query).unwrap();
    let t = pktinfo::send(order, src, dst.unwrap());
    assert_eq!(t.name, encode_v4(order, addr4()));
    let control = t.control.unwrap();
    // Behind the header and the interface stands the source.
    let at = WORD + 8 + 4;
    assert_eq!(&control[at..at + 4], &[192, 0, 2, 99]);
}

#[test]
fn answer_on_dual_stack_socket() {
    let order = ByteOrder::Little;
    let client = SocketAddrV6 { ip: v4(192, 0, 2, 1).to_ipv6_mapped(), ..addr6() };
    let from = storage(&encode_v6(order, client));
    let query = build_cmsg(order, 0, 8, &[2, 0, 0, 0, 10, 0, 0, 1, 192, 0, 2, 99]);
    let (_, src, dst) = pktinfo::recv(order, 30, &from, 28, &query).unwrap();
    let t = pktinfo::send(order, src, dst.unwrap());
    assert_eq!(t.name, encode_v6(order, client));
    let control = t.control.unwrap();
    let at = WORD + 8;
    assert_eq!(&control[at..at + 16], &v4(192, 0, 2, 99).to_ipv6_mapped().octets);
}
