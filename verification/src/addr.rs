//! Internet addresses and socket addresses.
use vstd::prelude::*;

verus! {

/// An IPv4 address.
#[derive(Clone, Copy, Debug, PartialEq, Eq)]
pub struct Ipv4Addr {
    /// The four octets, most significant first.
    pub octets: [u8; 4],
}

/// An IPv6 address.
#[derive(Clone, Copy, Debug, PartialEq, Eq)]
pub struct Ipv6Addr {
    /// The sixteen octets, most significant first.
    pub octets: [u8; 16],
}

/// An address of either family.
#[derive(Clone, Copy, Debug, PartialEq, Eq)]
pub enum IpAddr {
    V4(Ipv4Addr),
    V6(Ipv6Addr),
}

/// An IPv4 address and a port.
#[derive(Clone, Copy, Debug, PartialEq, Eq)]
pub struct SocketAddrV4 {
    pub ip: Ipv4Addr,
    pub port: u16,
}

/// An IPv6 address and a port, with the flow label and the scope.
#[derive(Clone, Copy, Debug, PartialEq, Eq)]
pub struct SocketAddrV6 {
    pub ip: Ipv6Addr,
    pub port: u16,
    pub flowinfo: u32,
    pub scope_id: u32,
}

/// A socket address of either family.
#[derive(Clone, Copy, Debug, PartialEq, Eq)]
pub enum SocketAddr {
    V4(SocketAddrV4),
    V6(SocketAddrV6),
}

impl Ipv4Addr {
    /// The address `0.0.0.0`.
    #[verifier::allow_in_spec]
    pub fn unspecified() -> Self
        returns
            (Ipv4Addr { octets: [0, 0, 0, 0] }),
    {
        Ipv4Addr { octets: [0, 0, 0, 0] }
    }

    /// The IPv4-mapped IPv6 address `::ffff:a.b.c.d`.
    #[verifier::allow_in_spec]
    pub fn to_ipv6_mapped(&self) -> Ipv6Addr
        returns
            (Ipv6Addr {
                octets: [
                    0, 0, 0, 0, 0, 0, 0, 0, 0, 0, 0xff, 0xff,
                    self.octets[0], self.octets[1], self.octets[2], self.octets[3],
                ],
            }),
    {
        Ipv6Addr {
            octets: [
                0, 0, 0, 0, 0, 0, 0, 0, 0, 0, 0xff, 0xff,
                self.octets[0], self.octets[1], self.octets[2], self.octets[3],
            ],
        }
    }
}

impl Ipv6Addr {
    /// The address `::`.
    #[verifier::allow_in_spec]
    pub fn unspecified() -> Self
        returns
            (Ipv6Addr { octets: [0, 0, 0, 0, 0, 0, 0, 0, 0, 0, 0, 0, 0, 0, 0, 0] }),
    {
        Ipv6Addr { octets: [0, 0, 0, 0, 0, 0, 0, 0, 0, 0, 0, 0, 0, 0, 0, 0] }
    }

    /// Whether this is an IPv4-mapped address, `::ffff:a.b.c.d`.
    #[verifier::allow_in_spec]
    pub fn is_ipv4_mapped(&self) -> bool
        returns
            (self.octets[0] == 0 && self.octets[1] == 0 && self.octets[2] == 0
                && self.octets[3] == 0 && self.octets[4] == 0 && self.octets[5] == 0
                && self.octets[6] == 0 && self.octets[7] == 0 && self.octets[8] == 0
                && self.octets[9] == 0 && self.octets[10] == 0xff && self.octets[11] == 0xff),
    {
        self.octets[0] == 0 && self.octets[1] == 0 && self.octets[2] == 0
            && self.octets[3] == 0 && self.octets[4] == 0 && self.octets[5] == 0
            && self.octets[6] == 0 && self.octets[7] == 0 && self.octets[8] == 0
            && self.octets[9] == 0 && self.octets[10] == 0xff && self.octets[11] == 0xff
    }
}

impl SocketAddr {
    /// A socket address of the family of `ip`; an IPv6 one has no flow label
    /// and no scope.
    #[verifier::allow_in_spec]
    pub fn new(ip: IpAddr, port: u16) -> Self
        returns
            (match ip {
                IpAddr::V4(ip) => SocketAddr::V4(SocketAddrV4 { ip, port }),
                IpAddr::V6(ip) => SocketAddr::V6(
                    SocketAddrV6 { ip, port, flowinfo: 0, scope_id: 0 },
                ),
            }),
    {
        match ip {
            IpAddr::V4(ip) => SocketAddr::V4(SocketAddrV4 { ip, port }),
            IpAddr::V6(ip) => SocketAddr::V6(
                SocketAddrV6 { ip, port, flowinfo: 0, scope_id: 0 },
            ),
        }
    }

    /// The address without the port.
    #[verifier::allow_in_spec]
    pub fn ip(&self) -> IpAddr
        returns
            (match *self {
                SocketAddr::V4(a) => IpAddr::V4(a.ip),
                SocketAddr::V6(a) => IpAddr::V6(a.ip),
            }),
    {
        match *self {
            SocketAddr::V4(a) => IpAddr::V4(a.ip),
            SocketAddr::V6(a) => IpAddr::V6(a.ip),
        }
    }

    /// The port.
    #[verifier::allow_in_spec]
    pub fn port(&self) -> u16
        returns
            (match *self {
                SocketAddr::V4(a) => a.port,
                SocketAddr::V6(a) => a.port,
            }),
    {
        match *self {
            SocketAddr::V4(a) => a.port,
            SocketAddr::V6(a) => a.port,
        }
    }

    /// The unspecified address and port of the same family: what a client socket
    /// binds to when nothing else was asked for.
    #[verifier::allow_in_spec]
    pub fn unspecified_like(&self) -> Self
        returns
            (match *self {
                SocketAddr::V4(_) => SocketAddr::new(IpAddr::V4(Ipv4Addr::unspecified()), 0),
                SocketAddr::V6(_) => SocketAddr::new(IpAddr::V6(Ipv6Addr::unspecified()), 0),
            }),
    {
        match *self {
            SocketAddr::V4(_) => SocketAddr::new(IpAddr::V4(Ipv4Addr::unspecified()), 0),
            SocketAddr::V6(_) => SocketAddr::new(IpAddr::V6(Ipv6Addr::unspecified()), 0),
        }
    }
}

/// The IPv4 address whose octets stand at `at`.
pub open spec fn ipv4_at(b: Seq<u8>, at: int) -> Ipv4Addr {
    Ipv4Addr { octets: [b[at], b[at + 1], b[at + 2], b[at + 3]] }
}

/// The IPv6 address whose octets stand at `at`.
pub open spec fn ipv6_at(b: Seq<u8>, at: int) -> Ipv6Addr {
    Ipv6Addr {
        octets: [
            b[at], b[at + 1], b[at + 2], b[at + 3],
            b[at + 4], b[at + 5], b[at + 6], b[at + 7],
            b[at + 8], b[at + 9], b[at + 10], b[at + 11],
            b[at + 12], b[at + 13], b[at + 14], b[at + 15],
        ],
    }
}

/// Reads the IPv4 address whose octets stand at `at`.
pub fn read_ipv4(b: &[u8], at: usize) -> (a: Ipv4Addr)
    requires
        at + 4 <= b@.len(),
    ensures
        a == ipv4_at(b@, at as int),
{
    proof {
        assert(b.len() == b@.len());
    }
    Ipv4Addr { octets: [b[at], b[at + 1], b[at + 2], b[at + 3]] }
}

/// Reads the IPv6 address whose octets stand at `at`.
pub fn read_ipv6(b: &[u8], at: usize) -> (a: Ipv6Addr)
    requires
        at + 16 <= b@.len(),
    ensures
        a == ipv6_at(b@, at as int),
{
    proof {
        assert(b.len() == b@.len());
    }
    Ipv6Addr {
        octets: [
            b[at], b[at + 1], b[at + 2], b[at + 3],
            b[at + 4], b[at + 5], b[at + 6], b[at + 7],
            b[at + 8], b[at + 9], b[at + 10], b[at + 11],
            b[at + 12], b[at + 13], b[at + 14], b[at + 15],
        ],
    }
}

/// Octets that were laid down at `at` are read back as the address they came from.
pub proof fn lemma_ipv4_at(b: Seq<u8>, at: int, a: Ipv4Addr)
    requires
        0 <= at,
        at + 4 <= b.len(),
        b.subrange(at, at + 4) == a.octets@,
    ensures
        ipv4_at(b, at) == a,
{
    assert forall|i: int| 0 <= i < 4 implies b[at + i] == a.octets[i] by {
        assert(b.subrange(at, at + 4)[i] == b[at + i]);
    }
    assert(b[at + 0] == a.octets[0]);
    assert(ipv4_at(b, at).octets =~= a.octets);
}

/// Octets that were laid down at `at` are read back as the address they came from.
pub proof fn lemma_ipv6_at(b: Seq<u8>, at: int, a: Ipv6Addr)
    requires
        0 <= at,
        at + 16 <= b.len(),
        b.subrange(at, at + 16) == a.octets@,
    ensures
        ipv6_at(b, at) == a,
{
    assert forall|i: int| 0 <= i < 16 implies #[trigger] b[at + i] == a.octets[i] by {
        assert(b.subrange(at, at + 16)[i] == b[at + i]);
    }
    assert(b[at + 0] == a.octets[0]);
    let r = ipv6_at(b, at).octets;
    assert(r@ =~= b.subrange(at, at + 16));
    assert(r =~= a.octets);
}

/// The mapped form of an IPv4 address is a mapped address.
pub proof fn law_mapped_is_mapped(a: Ipv4Addr)
    ensures
        a.to_ipv6_mapped().is_ipv4_mapped(),
{
}

/// The mapped form of an IPv4 address is ten zero octets, two of all ones, and the
/// four octets of the address.
pub proof fn law_mapped_octets(a: Ipv4Addr, m: Ipv6Addr)
    requires
        call_ensures(Ipv4Addr::to_ipv6_mapped, (&a,), m),
    ensures
        forall|i: int| 0 <= i < 10 ==> #[trigger] m.octets[i] == 0,
        m.octets[10] == 255,
        m.octets[11] == 255,
        forall|i: int| 0 <= i < 4 ==> m.octets[12 + i] == #[trigger] a.octets[i],
{
}

/// An address is a mapped one by its first twelve octets alone.
pub proof fn law_mapped_by_prefix(a: Ipv6Addr, r: bool)
    requires
        call_ensures(Ipv6Addr::is_ipv4_mapped, (&a,), r),
    ensures
        r <==> (forall|i: int| 0 <= i < 10 ==> #[trigger] a.octets[i] == 0) && a.octets[10] == 255
            && a.octets[11] == 255,
{
    lemma_mapped_by_prefix(a);
}

/// The twelve octets that make a mapped address, as one statement.
pub proof fn lemma_mapped_by_prefix(a: Ipv6Addr)
    ensures
        a.is_ipv4_mapped() <==> (forall|i: int| 0 <= i < 10 ==> #[trigger] a.octets[i] == 0)
            && a.octets[10] == 255 && a.octets[11] == 255,
{
    if forall|i: int| 0 <= i < 10 ==> #[trigger] a.octets[i] == 0 {
        assert(a.octets[0] == 0 && a.octets[1] == 0 && a.octets[2] == 0 && a.octets[3] == 0
            && a.octets[4] == 0 && a.octets[5] == 0 && a.octets[6] == 0 && a.octets[7] == 0
            && a.octets[8] == 0 && a.octets[9] == 0);
    }
}

/// The unspecified addresses are zero in every octet.
pub proof fn law_unspecified_octets(a: Ipv4Addr, b: Ipv6Addr)
    requires
        call_ensures(Ipv4Addr::unspecified, (), a),
        call_ensures(Ipv6Addr::unspecified, (), b),
    ensures
        forall|i: int| 0 <= i < 4 ==> #[trigger] a.octets[i] == 0,
        forall|i: int| 0 <= i < 16 ==> #[trigger] b.octets[i] == 0,
{
}

/// A socket address tells the address and the port that it was made of, is of the
/// family of the address, and has neither flow label nor scope.
pub proof fn law_socket_addr_parts(ip: IpAddr, port: u16, a: SocketAddr)
    requires
        call_ensures(SocketAddr::new, (ip, port), a),
    ensures
        a.ip() == ip,
        a.port() == port,
        ip matches IpAddr::V4(v4) ==> (a matches SocketAddr::V4(b) && b.ip == v4 && b.port == port),
        ip matches IpAddr::V6(v6) ==> (a matches SocketAddr::V6(b) && b.ip == v6 && b.port == port
            && b.flowinfo == 0 && b.scope_id == 0),
{
}

/// The address and the port of a socket address are its fields, in either family.
pub proof fn law_socket_addr_fields(a: SocketAddr, ip: IpAddr, port: u16)
    requires
        call_ensures(SocketAddr::ip, (&a,), ip),
        call_ensures(SocketAddr::port, (&a,), port),
    ensures
        a matches SocketAddr::V4(b) ==> ip == IpAddr::V4(b.ip) && port == b.port,
        a matches SocketAddr::V6(b) ==> ip == IpAddr::V6(b.ip) && port == b.port,
{
}

/// What a client socket binds to when nothing was asked for is of the family of the
/// remote side, zero in every octet, and leaves the port open.
pub proof fn law_unspecified_like(a: SocketAddr, u: SocketAddr)
    requires
        call_ensures(SocketAddr::unspecified_like, (&a,), u),
    ensures
        a is V4 ==> (u matches SocketAddr::V4(b) && b.port == 0 && (forall|i: int|
            0 <= i < 4 ==> #[trigger] b.ip.octets[i] == 0)),
        a is V6 ==> (u matches SocketAddr::V6(b) && b.port == 0 && b.flowinfo == 0 && b.scope_id
            == 0 && (forall|i: int| 0 <= i < 16 ==> #[trigger] b.ip.octets[i] == 0)),
{
}

/// An IPv4 address is read octet by octet from where it stands.
pub proof fn law_read_ipv4_octets(b: &[u8], at: usize, a: Ipv4Addr)
    requires
        at + 4 <= b@.len(),
        call_ensures(read_ipv4, (b, at), a),
    ensures
        forall|i: int| 0 <= i < 4 ==> #[trigger] a.octets[i] == b@[at + i],
{
    lemma_octets_at(b@, at as int);
}

/// An IPv6 address is read octet by octet from where it stands.
pub proof fn law_read_ipv6_octets(b: &[u8], at: usize, a: Ipv6Addr)
    requires
        at + 16 <= b@.len(),
        call_ensures(read_ipv6, (b, at), a),
    ensures
        forall|i: int| 0 <= i < 16 ==> #[trigger] a.octets[i] == b@[at + i],
{
    lemma_octets_at(b@, at as int);
}

/// An address that stands at `at` has the octets from there on.
pub proof fn lemma_octets_at(b: Seq<u8>, at: int)
    ensures
        forall|i: int| 0 <= i < 4 ==> #[trigger] ipv4_at(b, at).octets[i] == b[at + i],
        forall|i: int| 0 <= i < 16 ==> #[trigger] ipv6_at(b, at).octets[i] == b[at + i],
{
    assert(b[at + 0] == b[at]);
}

} // verus!
