//! Packet information: which local address a datagram came in on, and which one
//! an answer leaves from.
//!
//! A server bound to `::` or `0.0.0.0` would otherwise leave the source address
//! of its answers to the kernel, which may pick another than the one that the
//! client asked.
use vstd::prelude::*;

use crate::addr::{self, IpAddr, Ipv4Addr, Ipv6Addr, SocketAddr, SocketAddrV4, SocketAddrV6};
use crate::bytes::{self, ByteOrder};
use crate::cmsg;
use crate::sockaddr::{self, SockaddrError};
use crate::sys;

verus! {

/// An integer option to set on a socket.
#[derive(Clone, Copy, Debug, PartialEq, Eq, Structural)]
pub struct SocketOption {
    pub level: i32,
    pub name: i32,
    pub value: i32,
}

/// The options that make the kernel report the destination of each datagram, for
/// either family.
///
/// A socket of one family refuses the option of the other. Such a refusal is to
/// be ignored: the destination is then not reported for that family.
pub fn enable() -> (options: Vec<SocketOption>)
    ensures
        options@ == seq![
            SocketOption { level: sys::IPPROTO_IPV6, name: sys::IPV6_RECVPKTINFO, value: 1 },
            SocketOption { level: sys::IPPROTO_IP, name: sys::IP_PKTINFO, value: 1 },
        ],
{
    let mut options: Vec<SocketOption> = Vec::new();
    options.push(
        SocketOption { level: sys::ipproto_ipv6(), name: sys::ipv6_recvpktinfo(), value: 1 },
    );
    options.push(SocketOption { level: sys::ipproto_ip(), name: sys::ip_pktinfo(), value: 1 });
    options
}

/// The count that a send or receive call returned, or `None` where it failed.
pub fn transferred(n: isize) -> (r: Option<usize>)
    ensures
        r is None <==> n < 0,
        r matches Some(len) ==> len == n,
{
    if n < 0 {
        None
    } else {
        Some(n as usize)
    }
}

/// Why a receive failed.
#[derive(Clone, Copy, Debug, PartialEq, Eq, Structural)]
pub enum RecvError {
    /// The call failed; the operating system knows why.
    Os,
    /// The source address makes no sense.
    Address(SockaddrError),
}

/// What a `recvmsg` call received: the length, the source and, if the kernel
/// reported it, the destination address.
///
/// `n` is what the call returned, `storage` and `namelen` are the source address
/// as it was filled in, and `control` is the part of the control buffer that was.
pub fn recv(
    order: ByteOrder,
    n: isize,
    storage: &[u8; 128],
    namelen: u32,
    control: &[u8],
) -> (r: Result<(usize, SocketAddr, Option<IpAddr>), RecvError>)
    ensures
        n < 0 ==> r == Err::<(usize, SocketAddr, Option<IpAddr>), _>(RecvError::Os),
        n >= 0 ==> match sockaddr::decoded(order, storage@, namelen) {
            Ok(src) => r matches Ok((len, from, dst)) && len == n && from == src && cmsg::is_dst(
                order,
                control@,
                dst,
            ),
            Err(e) => r == Err::<(usize, SocketAddr, Option<IpAddr>), _>(RecvError::Address(e)),
        },
{
    let len: usize = match transferred(n) {
        Some(len) => len,
        None => return Err(RecvError::Os),
    };
    match sockaddr::sockaddr_to_socket_addr(order, storage, namelen) {
        Ok(src) => {
            let dst = cmsg::parse_dst_from_cmsg(order, control);
            Ok((len, src, dst))
        },
        Err(e) => Err(RecvError::Address(e)),
    }
}

/// What a send call is given beside the data: the target address and, for
/// `sendmsg`, a control buffer. Without one the call is `sendto`.
#[derive(Debug, PartialEq, Eq)]
pub struct Transmit {
    pub name: Vec<u8>,
    pub control: Option<Vec<u8>>,
}

/// The bytes of a [`Transmit`].
pub struct TransmitView {
    pub name: Seq<u8>,
    pub control: Option<Seq<u8>>,
}

impl View for Transmit {
    type V = TransmitView;

    open spec fn view(&self) -> TransmitView {
        TransmitView {
            name: self.name@,
            control: match self.control {
                Some(control) => Some(control@),
                None => None,
            },
        }
    }
}

/// An `in6_pktinfo` that names `src` and no interface.
pub open spec fn info_v6(src: Ipv6Addr) -> Seq<u8> {
    src.octets@ + bytes::zeros(4)
}

/// An `in_pktinfo` that names no interface, `src` as the local address, and no
/// destination.
pub open spec fn info_v4(src: Ipv4Addr) -> Seq<u8> {
    bytes::zeros(4) + src.octets@ + bytes::zeros(4)
}

/// A plain send to `target`.
pub open spec fn plain(order: ByteOrder, target: SocketAddr) -> TransmitView {
    TransmitView { name: sockaddr::encoded(order, target), control: None }
}

/// A send to `dst` that leaves from `src`, over IPv6.
pub open spec fn pinned_v6(order: ByteOrder, dst: SocketAddrV6, src: Ipv6Addr) -> TransmitView {
    TransmitView {
        name: sockaddr::encoded_v6(order, dst),
        control: Some(
            cmsg::control_message(order, sys::IPPROTO_IPV6, sys::IPV6_PKTINFO, info_v6(src)),
        ),
    }
}

/// A send to `dst` that leaves from `src`, over IPv4.
pub open spec fn pinned_v4(order: ByteOrder, dst: SocketAddrV4, src: Ipv4Addr) -> TransmitView {
    TransmitView {
        name: sockaddr::encoded_v4(order, dst),
        control: Some(
            cmsg::control_message(order, sys::IPPROTO_IP, sys::IP_PKTINFO, info_v4(src)),
        ),
    }
}

/// A send to `target` that leaves from `src_ip` where the families allow it.
pub open spec fn transmission(
    order: ByteOrder,
    target: SocketAddr,
    src_ip: IpAddr,
) -> TransmitView {
    match (target, src_ip) {
        (SocketAddr::V6(dst), IpAddr::V6(src)) => pinned_v6(order, dst, src),
        (SocketAddr::V4(dst), IpAddr::V4(src)) => pinned_v4(order, dst, src),
        (SocketAddr::V6(dst), IpAddr::V4(src)) => if dst.ip.is_ipv4_mapped() {
            pinned_v6(order, dst, src.to_ipv6_mapped())
        } else {
            plain(order, target)
        },
        (SocketAddr::V4(_), IpAddr::V6(_)) => plain(order, target),
    }
}

/// Lays out a send to `target` from the local address `src_ip`.
///
/// Where the families do not match, the send is a plain one, but for a dual-stack
/// socket: there an IPv4 client shows as an IPv4-mapped target while its query
/// came in on a plain IPv4 address, so the source is mapped too.
pub fn send(order: ByteOrder, target: SocketAddr, src_ip: IpAddr) -> (t: Transmit)
    ensures
        t@ == transmission(order, target, src_ip),
{
    match (target, src_ip) {
        (SocketAddr::V6(dst), IpAddr::V6(src)) => send_v6(order, dst, src),
        (SocketAddr::V4(dst), IpAddr::V4(src)) => send_v4(order, dst, src),
        (SocketAddr::V6(dst), IpAddr::V4(src)) => {
            if dst.ip.is_ipv4_mapped() {
                send_v6(order, dst, src.to_ipv6_mapped())
            } else {
                send_plain(order, target)
            }
        },
        (SocketAddr::V4(_), IpAddr::V6(_)) => send_plain(order, target),
    }
}

/// Lays out a send over IPv6 with a pinned source.
pub fn send_v6(order: ByteOrder, dst: SocketAddrV6, src: Ipv6Addr) -> (t: Transmit)
    ensures
        t@ == pinned_v6(order, dst, src),
{
    let mut info: Vec<u8> = Vec::new();
    info.extend_from_slice(&src.octets);
    bytes::push_zeros(&mut info, 4);
    assert(info@ =~= info_v6(src));
    let control = cmsg::build_cmsg(
        order,
        sys::ipproto_ipv6(),
        sys::ipv6_pktinfo(),
        info.as_slice(),
    );
    Transmit { name: sockaddr::encode_v6(order, dst), control: Some(control) }
}

/// Lays out a send over IPv4 with a pinned source.
pub fn send_v4(order: ByteOrder, dst: SocketAddrV4, src: Ipv4Addr) -> (t: Transmit)
    ensures
        t@ == pinned_v4(order, dst, src),
{
    let mut info: Vec<u8> = Vec::new();
    bytes::push_zeros(&mut info, 4);
    info.extend_from_slice(&src.octets);
    bytes::push_zeros(&mut info, 4);
    assert(info@ =~= info_v4(src));
    let control = cmsg::build_cmsg(order, sys::ipproto_ip(), sys::ip_pktinfo(), info.as_slice());
    Transmit { name: sockaddr::encode_v4(order, dst), control: Some(control) }
}

/// Lays out a send whose source is left to the kernel.
pub fn send_plain(order: ByteOrder, target: SocketAddr) -> (t: Transmit)
    ensures
        t@ == plain(order, target),
{
    let name: Vec<u8> = match target {
        SocketAddr::V4(v4) => sockaddr::encode_v4(order, v4),
        SocketAddr::V6(v6) => sockaddr::encode_v6(order, v6),
    };
    Transmit { name, control: None }
}

/// The source address that a control buffer asks `sendmsg` for: the `ipi6_addr`
/// or the `ipi_spec_dst` of its first message.
pub open spec fn asked_source(order: ByteOrder, control: Seq<u8>) -> Option<IpAddr> {
    let hs = cmsg::headers(order, control);
    let data = sys::cmsghdr_len() as int;
    if hs.len() == 0 {
        None
    } else if cmsg::is_pktinfo_v6(order, control, hs[0]) {
        Some(IpAddr::V6(addr::ipv6_at(control, hs[0] + data)))
    } else if cmsg::is_pktinfo_v4(order, control, hs[0]) {
        Some(IpAddr::V4(addr::ipv4_at(control, hs[0] + data + 4)))
    } else {
        None
    }
}

/// The source that a send to `target` from `src_ip` is pinned to, if any: `src_ip`
/// where the families match, its mapped form on an IPv4-mapped target, and nothing
/// where the families do not match otherwise.
pub open spec fn pinned_source(target: SocketAddr, src_ip: IpAddr) -> Option<IpAddr> {
    match (target, src_ip) {
        (SocketAddr::V6(_), IpAddr::V6(_)) => Some(src_ip),
        (SocketAddr::V4(_), IpAddr::V4(_)) => Some(src_ip),
        (SocketAddr::V6(dst), IpAddr::V4(src)) => if dst.ip.is_ipv4_mapped() {
            Some(IpAddr::V6(src.to_ipv6_mapped()))
        } else {
            None
        },
        (SocketAddr::V4(_), IpAddr::V6(_)) => None,
    }
}

/// A send asks for the source that it is pinned to; one that is pinned to none is a
/// plain send.
pub proof fn law_source_is_pinned(order: ByteOrder, target: SocketAddr, src_ip: IpAddr)
    ensures
        match pinned_source(target, src_ip) {
            Some(source) => transmission(order, target, src_ip).control matches Some(control)
                && asked_source(order, control) == Some(source),
            None => transmission(order, target, src_ip) == plain(order, target),
        },
{
    match (target, src_ip) {
        (SocketAddr::V6(_), IpAddr::V6(src)) => lemma_asked_v6(order, src),
        (SocketAddr::V6(_), IpAddr::V4(src)) => lemma_asked_v6(order, src.to_ipv6_mapped()),
        (SocketAddr::V4(_), IpAddr::V4(src)) => lemma_asked_v4(order, src),
        (SocketAddr::V4(_), IpAddr::V6(_)) => {},
    }
}

/// An answer leaves from the address that the query came in on, and goes to where
/// the query came from.
///
/// `storage`, `namelen` and `control` are what the receive of the query filled in;
/// `src` and `dst` are the source and the destination that it told. On a dual-stack
/// socket the source may be an IPv4-mapped address and the destination IPv4: the
/// answer then leaves from its mapped form. Other sources and destinations of
/// different families are left out, since no answer can be pinned then.
pub proof fn law_answer_leaves_from_queried_address(
    order: ByteOrder,
    storage: Seq<u8>,
    namelen: u32,
    control: Seq<u8>,
    src: SocketAddr,
    dst: IpAddr,
    raw: Seq<u8>,
)
    requires
        sockaddr::decoded(order, storage, namelen) == Ok::<_, SockaddrError>(src),
        cmsg::is_dst(order, control, Some(dst)),
        match (src, dst) {
            (SocketAddr::V6(_), IpAddr::V6(_)) => true,
            (SocketAddr::V4(_), IpAddr::V4(_)) => true,
            (SocketAddr::V6(from), IpAddr::V4(_)) => from.ip.is_ipv4_mapped(),
            (SocketAddr::V4(_), IpAddr::V6(_)) => false,
        },
        transmission(order, src, dst).name.is_prefix_of(raw),
    ensures
        transmission(order, src, dst).control matches Some(answer) && asked_source(order, answer)
            == Some(
            match (src, dst) {
                (SocketAddr::V6(_), IpAddr::V4(ip)) => IpAddr::V6(ip.to_ipv6_mapped()),
                _ => dst,
            },
        ),
        sockaddr::decoded(
            order,
            raw,
            transmission(order, src, dst).name.len() as u32,
        ) == sockaddr::decoded(order, storage, namelen),
{
    law_source_is_pinned(order, src, dst);
    law_target_is_kept(order, src, dst, raw);
}

proof fn lemma_asked_v6(order: ByteOrder, src: Ipv6Addr)
    ensures
        ({
            let control = cmsg::control_message(
                order,
                sys::IPPROTO_IPV6,
                sys::IPV6_PKTINFO,
                info_v6(src),
            );
            &&& asked_source(order, control) == Some(IpAddr::V6(src))
            &&& cmsg::dst_at(order, control, 0) == Some(IpAddr::V6(src))
        }),
{
    let control = cmsg::control_message(
        order,
        sys::IPPROTO_IPV6,
        sys::IPV6_PKTINFO,
        info_v6(src),
    );
    let data = sys::cmsghdr_len() as int;
    cmsg::lemma_word();
    cmsg::law_built_message(order, sys::IPPROTO_IPV6, sys::IPV6_PKTINFO, info_v6(src));
    assert(control.subrange(data, data + 16) =~= control.subrange(data, data + 20).subrange(0, 16));
    assert(info_v6(src).subrange(0, 16) =~= src.octets@);
    addr::lemma_ipv6_at(control, data, src);
}

proof fn lemma_asked_v4(order: ByteOrder, src: Ipv4Addr)
    ensures
        ({
            let control = cmsg::control_message(
                order,
                sys::IPPROTO_IP,
                sys::IP_PKTINFO,
                info_v4(src),
            );
            &&& asked_source(order, control) == Some(IpAddr::V4(src))
            &&& cmsg::dst_at(order, control, 0) == Some(IpAddr::V4(Ipv4Addr::unspecified()))
        }),
{
    let control = cmsg::control_message(order, sys::IPPROTO_IP, sys::IP_PKTINFO, info_v4(src));
    let data = sys::cmsghdr_len() as int;
    let info = control.subrange(data, data + 12);
    cmsg::lemma_word();
    cmsg::law_built_message(order, sys::IPPROTO_IP, sys::IP_PKTINFO, info_v4(src));
    assert(control.subrange(data + 4, data + 8) =~= info.subrange(4, 8));
    assert(info_v4(src).subrange(4, 8) =~= src.octets@);
    addr::lemma_ipv4_at(control, data + 4, src);
    assert(control.subrange(data + 8, data + 12) =~= info.subrange(8, 12));
    assert(info_v4(src).subrange(8, 12) =~= Ipv4Addr::unspecified().octets@);
    addr::lemma_ipv4_at(control, data + 8, Ipv4Addr::unspecified());
}

/// Read as received packet information, what is sent over IPv6 tells its source
/// address as the destination. What is sent over IPv4 tells `0.0.0.0`: there the
/// source and the destination are two fields, and only the first is filled in.
pub proof fn law_sent_info_read_back(order: ByteOrder, target: SocketAddr, src_ip: IpAddr)
    ensures
        transmission(order, target, src_ip).control matches Some(control) ==> cmsg::is_dst(
            order,
            control,
            match (target, src_ip) {
                (SocketAddr::V6(_), IpAddr::V4(src)) => Some(IpAddr::V6(src.to_ipv6_mapped())),
                (_, IpAddr::V6(src)) => Some(IpAddr::V6(src)),
                (_, IpAddr::V4(_)) => Some(IpAddr::V4(Ipv4Addr::unspecified())),
            },
        ),
{
    match (target, src_ip) {
        (SocketAddr::V6(_), IpAddr::V6(src)) => {
            lemma_asked_v6(order, src);
            lemma_single(order, sys::IPPROTO_IPV6, sys::IPV6_PKTINFO, info_v6(src));
        },
        (SocketAddr::V6(_), IpAddr::V4(src)) => {
            lemma_asked_v6(order, src.to_ipv6_mapped());
            lemma_single(
                order,
                sys::IPPROTO_IPV6,
                sys::IPV6_PKTINFO,
                info_v6(src.to_ipv6_mapped()),
            );
        },
        (SocketAddr::V4(_), IpAddr::V4(src)) => {
            lemma_asked_v4(order, src);
            lemma_single(order, sys::IPPROTO_IP, sys::IP_PKTINFO, info_v4(src));
        },
        (SocketAddr::V4(_), IpAddr::V6(_)) => {},
    }
}

proof fn lemma_single(order: ByteOrder, level: i32, kind: i32, data: Seq<u8>)
    requires
        0 <= level,
        0 <= kind,
        data.len() <= 32,
    ensures
        ({
            let control = cmsg::control_message(order, level, kind, data);
            cmsg::is_dst(order, control, cmsg::dst_at(order, control, 0))
        }),
{
    let control = cmsg::control_message(order, level, kind, data);
    cmsg::law_built_message(order, level, kind, data);
    let hs = cmsg::headers(order, control);
    assert(hs[0] == 0);
}

/// The target of a send is read back from its bytes as the target.
pub proof fn law_target_is_kept(
    order: ByteOrder,
    target: SocketAddr,
    src_ip: IpAddr,
    raw: Seq<u8>,
)
    requires
        transmission(order, target, src_ip).name.is_prefix_of(raw),
    ensures
        sockaddr::decoded(order, raw, transmission(order, target, src_ip).name.len() as u32) == Ok::<
            _,
            SockaddrError,
        >(target),
{
    sockaddr::law_decode_undoes_encode(order, target, raw);
}

/// The options that are set are 49 at level 41 and 8 at level 0, both to 1.
pub proof fn law_enabled_options(options: Vec<SocketOption>)
    requires
        call_ensures(enable, (), options),
    ensures
        options@ == seq![
            SocketOption { level: 41, name: 49, value: 1 },
            SocketOption { level: 0, name: 8, value: 1 },
        ],
{
}

/// A receive that failed reports the failure of the call. Otherwise it reports the
/// count that the call returned, and the source and the destination that are read
/// from the buffers, or why the source was refused.
pub proof fn law_receive_reports_what_is_read(
    order: ByteOrder,
    n: isize,
    storage: &[u8; 128],
    namelen: u32,
    control: &[u8],
    r: Result<(usize, SocketAddr, Option<IpAddr>), RecvError>,
    source: Result<SocketAddr, SockaddrError>,
    destination: Option<IpAddr>,
)
    requires
        call_ensures(recv, (order, n, storage, namelen, control), r),
        call_ensures(sockaddr::sockaddr_to_socket_addr, (order, storage, namelen), source),
        call_ensures(cmsg::parse_dst_from_cmsg, (order, control), destination),
    ensures
        n < 0 ==> (r matches Err(e) && e is Os),
        n >= 0 ==> match source {
            Ok(from) => r matches Ok((len, src, dst)) && len == n && src == from && dst
                == destination,
            Err(why) => r matches Err(RecvError::Address(e)) && e == why,
        },
{
    if n >= 0 {
        if let Ok((_, _, dst)) = r {
            cmsg::law_dst_unique(order, control@, dst, destination);
        }
    }
}

/// A send over IPv6 with a pinned source carries one message of level 41 and type 50
/// with twenty bytes of data: the sixteen octets of the source, and an interface
/// index of zero, which asks for no interface.
#[verifier::spinoff_prover]
pub proof fn law_pinned_send_v6(order: ByteOrder, dst: SocketAddrV6, src: Ipv6Addr, t: Transmit)
    requires
        call_ensures(send_v6, (order, dst, src), t),
    ensures
        t.control matches Some(c) && ({
            let w = vstd::layout::size_of::<usize>() as int;
            &&& c@.len() == w + 8 + ((20 + w - 1) / w) * w
            &&& bytes::value(order, c@.subrange(0, w)) == w + 8 + 20
            &&& bytes::value(order, c@.subrange(w, w + 4)) == 41
            &&& bytes::value(order, c@.subrange(w + 4, w + 8)) == 50
            &&& forall|i: int| 0 <= i < 16 ==> c@[w + 8 + i] == #[trigger] src.octets[i]
            &&& forall|i: int| w + 24 <= i < c@.len() ==> #[trigger] c@[i] == 0
        }),
{
    lemma_pinned_bytes(order, 41, 50, info_v6(src));
    let c = t.control->Some_0@;
    let w = sys::word_len() as int;
    let info = info_v6(src);
    assert(c == cmsg::control_message(order, 41, 50, info));
    bytes::law_zeros(4);
    assert forall|i: int| 0 <= i < 16 implies c[w + 8 + i] == #[trigger] src.octets[i] by {
        assert(c.subrange(w + 8, w + 28)[i] == info[i]);
    }
    assert forall|i: int| w + 24 <= i < c.len() implies #[trigger] c[i] == 0 by {
        if i < w + 28 {
            assert(c.subrange(w + 8, w + 28)[i - (w + 8)] == info[i - (w + 8)]);
        }
    }
}

/// A send over IPv4 with a pinned source carries one message of level 0 and type 8
/// with twelve bytes of data: an interface index of zero, which asks for no
/// interface, the four octets of the source, and four zero bytes.
#[verifier::spinoff_prover]
pub proof fn law_pinned_send_v4(order: ByteOrder, dst: SocketAddrV4, src: Ipv4Addr, t: Transmit)
    requires
        call_ensures(send_v4, (order, dst, src), t),
    ensures
        t.control matches Some(c) && ({
            let w = vstd::layout::size_of::<usize>() as int;
            &&& c@.len() == w + 8 + ((12 + w - 1) / w) * w
            &&& bytes::value(order, c@.subrange(0, w)) == w + 8 + 12
            &&& bytes::value(order, c@.subrange(w, w + 4)) == 0
            &&& bytes::value(order, c@.subrange(w + 4, w + 8)) == 8
            &&& forall|i: int| w + 8 <= i < w + 12 ==> #[trigger] c@[i] == 0
            &&& forall|i: int| 0 <= i < 4 ==> c@[w + 12 + i] == #[trigger] src.octets[i]
            &&& forall|i: int| w + 16 <= i < c@.len() ==> #[trigger] c@[i] == 0
        }),
{
    lemma_pinned_bytes(order, 0, 8, info_v4(src));
    let c = t.control->Some_0@;
    let w = sys::word_len() as int;
    let info = info_v4(src);
    assert(c == cmsg::control_message(order, 0, 8, info));
    bytes::law_zeros(4);
    assert forall|i: int| w + 8 <= i < w + 20 implies #[trigger] c[i] == info[i - (w + 8)] by {
        assert(c.subrange(w + 8, w + 20)[i - (w + 8)] == info[i - (w + 8)]);
    }
    assert forall|i: int| 0 <= i < 4 implies c[w + 12 + i] == #[trigger] src.octets[i] by {
        assert(c[w + 12 + i] == info[4 + i]);
    }
}

/// The bytes of a control buffer with one message.
#[verifier::spinoff_prover]
proof fn lemma_pinned_bytes(order: ByteOrder, level: i32, kind: i32, data: Seq<u8>)
    requires
        0 <= level,
        0 <= kind,
        data.len() <= 32,
    ensures
        ({
            let w = sys::word_len() as int;
            let n = data.len() as int;
            let c = cmsg::control_message(order, level, kind, data);
            &&& w == 4 || w == 8
            &&& c.len() >= w + 8 + n
            &&& c.len() == w + 8 + ((n + w - 1) / w) * w
            &&& bytes::value(order, c.subrange(0, w)) == w + 8 + n
            &&& bytes::value(order, c.subrange(w, w + 4)) == level
            &&& bytes::value(order, c.subrange(w + 4, w + 8)) == kind
            &&& c.subrange(w + 8, w + 8 + n) == data
            &&& forall|i: int| w + 8 + n <= i < c.len() ==> #[trigger] c[i] == 0
        }),
{
    let w = sys::word_len() as int;
    let n = data.len();
    cmsg::lemma_word();
    cmsg::lemma_align(n);
    cmsg::law_built_message(order, level, kind, data);
    bytes::lemma_bytes_of_len(order, cmsg::cmsg_len(n), w as nat);
    bytes::lemma_bytes_of_len(order, level as nat, 4);
    bytes::lemma_bytes_of_len(order, kind as nat, 4);
    let c = cmsg::control_message(order, level, kind, data);
    let pad = bytes::zeros((cmsg::cmsg_align(n) - n) as nat);
    bytes::law_zeros((cmsg::cmsg_align(n) - n) as nat);
    assert forall|i: int| w + 8 + n <= i < c.len() implies #[trigger] c[i] == 0 by {
        assert(c[i] == pad[i - (w + 8 + n)]);
    }
}

/// A send to an IPv6 target is pinned to the source that was asked for, and to no
/// interface: the control message has the octets of the source and an index of zero
/// behind them. An IPv4 source is pinned in its mapped form, and only on a target
/// that is itself a mapped one; otherwise the source is left to the kernel.
#[verifier::spinoff_prover]
pub proof fn law_send_to_ipv6(order: ByteOrder, dst: SocketAddrV6, src_ip: IpAddr, t: Transmit)
    requires
        call_ensures(send, (order, SocketAddr::V6(dst), src_ip), t),
    ensures
        ({
            let w = vstd::layout::size_of::<usize>() as int;
            let mapped = (forall|i: int| 0 <= i < 10 ==> #[trigger] dst.ip.octets[i] == 0)
                && dst.ip.octets[10] == 255 && dst.ip.octets[11] == 255;
            &&& t.control is None <==> src_ip is V4 && !mapped
            &&& t.control matches Some(c) ==> {
                &&& c@.len() == w + 8 + ((20 + w - 1) / w) * w
                &&& bytes::value(order, c@.subrange(0, w)) == w + 8 + 20
                &&& bytes::value(order, c@.subrange(w, w + 4)) == 41
                &&& bytes::value(order, c@.subrange(w + 4, w + 8)) == 50
                &&& src_ip matches IpAddr::V6(src) ==> (forall|i: int|
                    0 <= i < 16 ==> c@[w + 8 + i] == #[trigger] src.octets[i])
                &&& src_ip matches IpAddr::V4(src) ==> {
                    &&& forall|i: int| w + 8 <= i < w + 18 ==> #[trigger] c@[i] == 0
                    &&& c@[w + 18] == 255 && c@[w + 19] == 255
                    &&& forall|i: int| 0 <= i < 4 ==> c@[w + 20 + i] == #[trigger] src.octets[i]
                }
                &&& forall|i: int| w + 24 <= i < c@.len() ==> #[trigger] c@[i] == 0
            }
        }),
{
    addr::lemma_mapped_by_prefix(dst.ip);
    let w = sys::word_len() as int;
    let src = match src_ip {
        IpAddr::V6(src) => src,
        IpAddr::V4(src) => src.to_ipv6_mapped(),
    };
    let info = info_v6(src);
    lemma_pinned_bytes(order, 41, 50, info);
    bytes::law_zeros(4);
    if t.control is Some {
        let c = t.control->Some_0@;
        assert(c == cmsg::control_message(order, 41, 50, info));
        assert forall|i: int| w + 8 <= i < w + 28 implies #[trigger] c[i] == info[i - (w + 8)] by {
            assert(c.subrange(w + 8, w + 28)[i - (w + 8)] == info[i - (w + 8)]);
        }
        assert forall|i: int| 0 <= i < 16 implies c[w + 8 + i] == #[trigger] src.octets[i] by {
            assert(c[w + 8 + i] == info[i]);
        }
        if let IpAddr::V4(v4) = src_ip {
            assert forall|i: int| w + 8 <= i < w + 18 implies #[trigger] c[i] == 0 by {
                assert(c[i] == src.octets[i - (w + 8)]);
            }
            assert(c[w + 8 + 10] == src.octets[10] && c[w + 8 + 11] == src.octets[11]);
            assert forall|i: int| 0 <= i < 4 implies c[w + 20 + i] == #[trigger] v4.octets[i] by {
                assert(c[w + 8 + (12 + i)] == src.octets[12 + i]);
            }
        }
    }
}

/// A send to an IPv4 target is pinned to the source that was asked for, and to no
/// interface: the control message has an index of zero and then the octets of the
/// source. An IPv6 source cannot be pinned; it is left to the kernel.
#[verifier::spinoff_prover]
pub proof fn law_send_to_ipv4(order: ByteOrder, dst: SocketAddrV4, src_ip: IpAddr, t: Transmit)
    requires
        call_ensures(send, (order, SocketAddr::V4(dst), src_ip), t),
    ensures
        ({
            let w = vstd::layout::size_of::<usize>() as int;
            &&& t.control is None <==> src_ip is V6
            &&& t.control matches Some(c) ==> {
                &&& c@.len() == w + 8 + ((12 + w - 1) / w) * w
                &&& bytes::value(order, c@.subrange(0, w)) == w + 8 + 12
                &&& bytes::value(order, c@.subrange(w, w + 4)) == 0
                &&& bytes::value(order, c@.subrange(w + 4, w + 8)) == 8
                &&& forall|i: int| w + 8 <= i < w + 12 ==> #[trigger] c@[i] == 0
                &&& src_ip matches IpAddr::V4(src) ==> (forall|i: int|
                    0 <= i < 4 ==> c@[w + 12 + i] == #[trigger] src.octets[i])
                &&& forall|i: int| w + 16 <= i < c@.len() ==> #[trigger] c@[i] == 0
            }
        }),
{
    if let IpAddr::V4(src) = src_ip {
        let w = sys::word_len() as int;
        let info = info_v4(src);
        lemma_pinned_bytes(order, 0, 8, info);
        bytes::law_zeros(4);
        let c = t.control->Some_0@;
        assert(c == cmsg::control_message(order, 0, 8, info));
        assert forall|i: int| w + 8 <= i < w + 20 implies #[trigger] c[i] == info[i - (w + 8)] by {
            assert(c.subrange(w + 8, w + 20)[i - (w + 8)] == info[i - (w + 8)]);
        }
        assert forall|i: int| 0 <= i < 4 implies c[w + 12 + i] == #[trigger] src.octets[i] by {
            assert(c[w + 12 + i] == info[4 + i]);
        }
    }
}

/// Every send to an IPv4 target, pinned or not, goes to that target as it is encoded.
pub proof fn law_ipv4_target_is_named(
    order: ByteOrder,
    dst: SocketAddrV4,
    src_ip: IpAddr,
    src: Ipv4Addr,
    raw: Vec<u8>,
    any: Transmit,
    pinned: Transmit,
    unpinned: Transmit,
)
    requires
        call_ensures(sockaddr::encode_v4, (order, dst), raw),
        call_ensures(send, (order, SocketAddr::V4(dst), src_ip), any),
        call_ensures(send_v4, (order, dst, src), pinned),
        call_ensures(send_plain, (order, SocketAddr::V4(dst)), unpinned),
    ensures
        any.name@ == raw@,
        pinned.name@ == raw@,
        unpinned.name@ == raw@,
        unpinned.control is None,
{
}

/// Every send to an IPv6 target, pinned or not, goes to that target as it is encoded.
pub proof fn law_ipv6_target_is_named(
    order: ByteOrder,
    dst: SocketAddrV6,
    src_ip: IpAddr,
    src: Ipv6Addr,
    raw: Vec<u8>,
    any: Transmit,
    pinned: Transmit,
    unpinned: Transmit,
)
    requires
        call_ensures(sockaddr::encode_v6, (order, dst), raw),
        call_ensures(send, (order, SocketAddr::V6(dst), src_ip), any),
        call_ensures(send_v6, (order, dst, src), pinned),
        call_ensures(send_plain, (order, SocketAddr::V6(dst)), unpinned),
    ensures
        any.name@ == raw@,
        pinned.name@ == raw@,
        unpinned.name@ == raw@,
        unpinned.control is None,
{
}

/// What a call returned is the count of bytes unless it is negative: every count
/// passes, zero too, and no failure does.
pub proof fn law_count_or_failure(n: isize, r: Option<usize>)
    requires
        call_ensures(transferred, (n,), r),
    ensures
        n >= 0 ==> (r matches Some(len) && len == n),
        n < 0 ==> r is None,
{
}

} // verus!
