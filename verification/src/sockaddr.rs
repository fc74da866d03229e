//! Socket addresses as the kernel writes and reads them: `sockaddr_in` and
//! `sockaddr_in6`.
use vstd::prelude::*;

use crate::addr::{self, SocketAddr, SocketAddrV4, SocketAddrV6};
use crate::bytes::{self, ByteOrder};
use crate::sys;

verus! {

/// Why a received socket address was refused. Each is an "invalid data" error.
#[derive(Clone, Copy, Debug, PartialEq, Eq, Structural)]
pub enum SockaddrError {
    /// The family is IPv4 and the length is below that of a `sockaddr_in`.
    Ipv4TooShort,
    /// The family is IPv6 and the length is below that of a `sockaddr_in6`.
    Ipv6TooShort,
    /// The family is neither.
    UnsupportedFamily,
}

impl SockaddrError {
    /// The words for it.
    pub fn message(&self) -> (text: &'static str)
        ensures
            *self is Ipv4TooShort ==> text@ == "IPv4 sockaddr too short"@,
            *self is Ipv6TooShort ==> text@ == "IPv6 sockaddr too short"@,
            *self is UnsupportedFamily ==> text@ == "unsupported address family in recvmsg"@,
    {
        match self {
            SockaddrError::Ipv4TooShort => "IPv4 sockaddr too short",
            SockaddrError::Ipv6TooShort => "IPv6 sockaddr too short",
            SockaddrError::UnsupportedFamily => "unsupported address family in recvmsg",
        }
    }
}

/// The address family that a `sockaddr` starts with.
pub open spec fn family_of(order: ByteOrder, raw: Seq<u8>) -> nat {
    bytes::value(order, raw.subrange(0, 2))
}

/// The port, which both families keep behind the family in network order.
pub open spec fn port_of(raw: Seq<u8>) -> u16 {
    bytes::value(ByteOrder::Big, raw.subrange(2, 4)) as u16
}

/// The address that a `sockaddr_in` holds.
pub open spec fn decoded_v4(raw: Seq<u8>) -> SocketAddrV4 {
    SocketAddrV4 { ip: addr::ipv4_at(raw, 4), port: port_of(raw) }
}

/// The address that a `sockaddr_in6` holds.
pub open spec fn decoded_v6(order: ByteOrder, raw: Seq<u8>) -> SocketAddrV6 {
    SocketAddrV6 {
        ip: addr::ipv6_at(raw, 8),
        port: port_of(raw),
        flowinfo: bytes::value(order, raw.subrange(4, 8)) as u32,
        scope_id: bytes::value(order, raw.subrange(24, 28)) as u32,
    }
}

/// The socket address in `raw`, of which the kernel says that it filled in `len`
/// bytes.
pub open spec fn decoded(order: ByteOrder, raw: Seq<u8>, len: u32) -> Result<
    SocketAddr,
    SockaddrError,
> {
    if family_of(order, raw) == sys::AF_INET {
        if len < sys::SOCKADDR_IN_LEN {
            Err(SockaddrError::Ipv4TooShort)
        } else {
            Ok(SocketAddr::V4(decoded_v4(raw)))
        }
    } else if family_of(order, raw) == sys::AF_INET6 {
        if len < sys::SOCKADDR_IN6_LEN {
            Err(SockaddrError::Ipv6TooShort)
        } else {
            Ok(SocketAddr::V6(decoded_v6(order, raw)))
        }
    } else {
        Err(SockaddrError::UnsupportedFamily)
    }
}

/// The bytes of a `sockaddr_in`.
pub open spec fn encoded_v4(order: ByteOrder, a: SocketAddrV4) -> Seq<u8> {
    bytes::bytes_of(order, sys::AF_INET as nat, 2) + bytes::bytes_of(
        ByteOrder::Big,
        a.port as nat,
        2,
    ) + a.ip.octets@ + bytes::zeros(8)
}

/// The bytes of a `sockaddr_in6`.
pub open spec fn encoded_v6(order: ByteOrder, a: SocketAddrV6) -> Seq<u8> {
    bytes::bytes_of(order, sys::AF_INET6 as nat, 2) + bytes::bytes_of(
        ByteOrder::Big,
        a.port as nat,
        2,
    ) + bytes::bytes_of(order, a.flowinfo as nat, 4) + a.ip.octets@ + bytes::bytes_of(
        order,
        a.scope_id as nat,
        4,
    )
}

/// The bytes of a socket address.
pub open spec fn encoded(order: ByteOrder, a: SocketAddr) -> Seq<u8> {
    match a {
        SocketAddr::V4(a) => encoded_v4(order, a),
        SocketAddr::V6(a) => encoded_v6(order, a),
    }
}

/// Reads the port of either family.
fn read_port(raw: &[u8; 128]) -> (port: u16)
    ensures
        port == port_of(raw@),
{
    proof {
        bytes::lemma_capacities();
        bytes::lemma_value_bound(ByteOrder::Big, raw@.subrange(2, 4));
    }
    bytes::read_uint(ByteOrder::Big, raw, 2, 2) as u16
}

/// Reads four bytes as a number.
fn read_u32(order: ByteOrder, raw: &[u8; 128], at: usize) -> (v: u32)
    requires
        at + 4 <= 128,
    ensures
        v == bytes::value(order, raw@.subrange(at as int, at + 4)) as u32,
{
    proof {
        bytes::lemma_capacities();
        bytes::lemma_value_bound(order, raw@.subrange(at as int, at + 4));
    }
    bytes::read_uint(order, raw, at, 4) as u32
}

/// Reads a socket address out of a `sockaddr_storage` of which the kernel says
/// that it filled in `len` bytes.
pub fn sockaddr_to_socket_addr(order: ByteOrder, storage: &[u8; 128], len: u32) -> (r: Result<
    SocketAddr,
    SockaddrError,
>)
    ensures
        r == decoded(order, storage@, len),
{
    let family: u64 = bytes::read_uint(order, storage, 0, 2);
    if family == sys::af_inet() as u64 {
        if (len as usize) < sys::sockaddr_in_size() {
            return Err(SockaddrError::Ipv4TooShort);
        }
        Ok(
            SocketAddr::V4(
                SocketAddrV4 { ip: addr::read_ipv4(storage, 4), port: read_port(storage) },
            ),
        )
    } else if family == sys::af_inet6() as u64 {
        if (len as usize) < sys::sockaddr_in6_size() {
            return Err(SockaddrError::Ipv6TooShort);
        }
        Ok(
            SocketAddr::V6(
                SocketAddrV6 {
                    ip: addr::read_ipv6(storage, 8),
                    port: read_port(storage),
                    flowinfo: read_u32(order, storage, 4),
                    scope_id: read_u32(order, storage, 24),
                },
            ),
        )
    } else {
        Err(SockaddrError::UnsupportedFamily)
    }
}

/// Writes a `sockaddr_in`.
pub fn encode_v4(order: ByteOrder, a: SocketAddrV4) -> (raw: Vec<u8>)
    ensures
        raw@ == encoded_v4(order, a),
{
    let mut raw: Vec<u8> = Vec::new();
    bytes::push_uint(&mut raw, order, sys::af_inet() as u64, 2);
    bytes::push_uint(&mut raw, ByteOrder::Big, a.port as u64, 2);
    raw.extend_from_slice(&a.ip.octets);
    bytes::push_zeros(&mut raw, 8);
    assert(raw@ =~= encoded_v4(order, a));
    raw
}

/// Writes a `sockaddr_in6`.
pub fn encode_v6(order: ByteOrder, a: SocketAddrV6) -> (raw: Vec<u8>)
    ensures
        raw@ == encoded_v6(order, a),
{
    let mut raw: Vec<u8> = Vec::new();
    bytes::push_uint(&mut raw, order, sys::af_inet6() as u64, 2);
    bytes::push_uint(&mut raw, ByteOrder::Big, a.port as u64, 2);
    bytes::push_uint(&mut raw, order, a.flowinfo as u64, 4);
    raw.extend_from_slice(&a.ip.octets);
    bytes::push_uint(&mut raw, order, a.scope_id as u64, 4);
    assert(raw@ =~= encoded_v6(order, a));
    raw
}

/// A written socket address is as long as its struct.
pub proof fn law_encoded_len(order: ByteOrder, a: SocketAddr)
    ensures
        encoded(order, a).len() == (match a {
            SocketAddr::V4(_) => sys::SOCKADDR_IN_LEN,
            SocketAddr::V6(_) => sys::SOCKADDR_IN6_LEN,
        }),
{
    lemma_field_lens(order, a);
}

proof fn lemma_field_lens(order: ByteOrder, a: SocketAddr)
    ensures
        bytes::bytes_of(order, sys::AF_INET as nat, 2).len() == 2,
        bytes::bytes_of(order, sys::AF_INET6 as nat, 2).len() == 2,
        bytes::bytes_of(ByteOrder::Big, a.port() as nat, 2).len() == 2,
        a matches SocketAddr::V6(b) ==> bytes::bytes_of(order, b.flowinfo as nat, 4).len() == 4
            && bytes::bytes_of(order, b.scope_id as nat, 4).len() == 4,
{
    bytes::lemma_bytes_of_len(order, sys::AF_INET as nat, 2);
    bytes::lemma_bytes_of_len(order, sys::AF_INET6 as nat, 2);
    bytes::lemma_bytes_of_len(ByteOrder::Big, a.port() as nat, 2);
    if let SocketAddr::V6(b) = a {
        bytes::lemma_bytes_of_len(order, b.flowinfo as nat, 4);
        bytes::lemma_bytes_of_len(order, b.scope_id as nat, 4);
    }
}

/// Reading back a written socket address gives that address, whatever stands
/// behind its bytes in the storage.
pub proof fn law_decode_undoes_encode(order: ByteOrder, a: SocketAddr, raw: Seq<u8>)
    requires
        encoded(order, a).is_prefix_of(raw),
    ensures
        decoded(order, raw, encoded(order, a).len() as u32) == Ok::<_, SockaddrError>(a),
{
    let e = encoded(order, a);
    law_encoded_len(order, a);
    lemma_field_lens(order, a);
    bytes::lemma_capacities();
    assert forall|i: int| 0 <= i < e.len() implies raw[i] == e[i] by {}
    assert(raw.subrange(2, 4) =~= bytes::bytes_of(ByteOrder::Big, a.port() as nat, 2));
    bytes::law_decode_undoes_encode(ByteOrder::Big, a.port() as nat, 2);
    match a {
        SocketAddr::V4(b) => {
            assert(raw.subrange(0, 2) =~= bytes::bytes_of(order, sys::AF_INET as nat, 2));
            bytes::law_decode_undoes_encode(order, sys::AF_INET as nat, 2);
            assert(raw.subrange(4, 8) =~= b.ip.octets@);
            addr::lemma_ipv4_at(raw, 4, b.ip);
        },
        SocketAddr::V6(b) => {
            assert(raw.subrange(0, 2) =~= bytes::bytes_of(order, sys::AF_INET6 as nat, 2));
            bytes::law_decode_undoes_encode(order, sys::AF_INET6 as nat, 2);
            assert(raw.subrange(4, 8) =~= bytes::bytes_of(order, b.flowinfo as nat, 4));
            bytes::law_decode_undoes_encode(order, b.flowinfo as nat, 4);
            assert(raw.subrange(8, 24) =~= b.ip.octets@);
            addr::lemma_ipv6_at(raw, 8, b.ip);
            assert(raw.subrange(24, 28) =~= bytes::bytes_of(order, b.scope_id as nat, 4));
            bytes::law_decode_undoes_encode(order, b.scope_id as nat, 4);
        },
    }
}

/// Writing an address that was read gives back the bytes that it was read from:
/// all of a `sockaddr_in6`, and of a `sockaddr_in` all but the padding.
pub proof fn law_encode_undoes_decode(order: ByteOrder, raw: Seq<u8>, len: u32)
    requires
        raw.len() == 128,
        decoded(order, raw, len) is Ok,
    ensures
        ({
            let a = decoded(order, raw, len)->Ok_0;
            &&& a is V4 ==> encoded(order, a).take(8) == raw.take(8)
            &&& a is V6 ==> encoded(order, a) == raw.take(28)
        }),
{
    let a = decoded(order, raw, len)->Ok_0;
    lemma_field_lens(order, a);
    bytes::lemma_capacities();
    bytes::law_encode_undoes_decode(order, raw.subrange(0, 2));
    bytes::law_encode_undoes_decode(ByteOrder::Big, raw.subrange(2, 4));
    bytes::lemma_value_bound(ByteOrder::Big, raw.subrange(2, 4));
    match a {
        SocketAddr::V4(b) => {
            assert(b.ip.octets@ =~= raw.subrange(4, 8));
            assert(encoded(order, a).take(8) =~= raw.take(8));
        },
        SocketAddr::V6(b) => {
            bytes::law_encode_undoes_decode(order, raw.subrange(4, 8));
            bytes::law_encode_undoes_decode(order, raw.subrange(24, 28));
            bytes::lemma_value_bound(order, raw.subrange(4, 8));
            bytes::lemma_value_bound(order, raw.subrange(24, 28));
            assert(b.ip.octets@ =~= raw.subrange(8, 24));
            let e = encoded(order, a);
            assert(e =~= raw.subrange(0, 2) + raw.subrange(2, 4) + raw.subrange(4, 8)
                + raw.subrange(8, 24) + raw.subrange(24, 28));
            assert(e =~= raw.take(28));
        },
    }
}

/// A socket address is read by its family, which the first two bytes tell in the
/// order of the machine: 2 is IPv4 and takes 16 bytes, 10 is IPv6 and takes 28. Any
/// other family, and a length below that of its struct, is refused.
pub proof fn law_family_decides(
    order: ByteOrder,
    storage: &[u8; 128],
    len: u32,
    r: Result<SocketAddr, SockaddrError>,
)
    requires
        call_ensures(sockaddr_to_socket_addr, (order, storage, len), r),
    ensures
        ({
            let family: int = match order {
                ByteOrder::Little => storage[0] + 256 * storage[1],
                ByteOrder::Big => 256 * storage[0] + storage[1],
            };
            &&& (r matches Ok(a) && a is V4) <==> family == 2 && len >= 16
            &&& (r matches Ok(a) && a is V6) <==> family == 10 && len >= 28
            &&& (r matches Err(e) && e is Ipv4TooShort) <==> family == 2 && len < 16
            &&& (r matches Err(e) && e is Ipv6TooShort) <==> family == 10 && len < 28
            &&& (r matches Err(e) && e is UnsupportedFamily) <==> family != 2 && family != 10
        }),
{
    bytes::law_two_bytes(storage@.subrange(0, 2));
}

/// The port of a decoded address of either family is the number in bytes 2 and 3,
/// the high byte first, whatever the byte order of the machine and whatever else
/// stands in the address.
pub proof fn law_decoded_port(
    order: ByteOrder,
    storage: &[u8; 128],
    len: u32,
    r: Result<SocketAddr, SockaddrError>,
)
    requires
        call_ensures(sockaddr_to_socket_addr, (order, storage, len), r),
    ensures
        r matches Ok(a) ==> a.port() == storage[2] * 256 + storage[3],
        r matches Ok(SocketAddr::V4(a)) ==> a.port == storage[2] * 256 + storage[3],
        r matches Ok(SocketAddr::V6(a)) ==> a.port == storage[2] * 256 + storage[3],
{
    bytes::law_two_bytes(storage@.subrange(2, 4));
}

/// The octets of a decoded IPv4 address are bytes 4 to 7; those of an IPv6 address
/// are bytes 8 to 23.
pub proof fn law_decoded_octets(
    order: ByteOrder,
    storage: &[u8; 128],
    len: u32,
    r: Result<SocketAddr, SockaddrError>,
)
    requires
        call_ensures(sockaddr_to_socket_addr, (order, storage, len), r),
    ensures
        r matches Ok(SocketAddr::V4(a)) ==> (forall|i: int|
            0 <= i < 4 ==> #[trigger] a.ip.octets[i] == storage[4 + i]),
        r matches Ok(SocketAddr::V6(a)) ==> (forall|i: int|
            0 <= i < 16 ==> #[trigger] a.ip.octets[i] == storage[8 + i]),
{
    addr::lemma_octets_at(storage@, 4);
    addr::lemma_octets_at(storage@, 8);
}

/// The flow label of a decoded IPv6 address is the number in bytes 4 to 7, and the
/// scope that in bytes 24 to 27, both in the order of the machine.
pub proof fn law_decoded_flow_and_scope(
    order: ByteOrder,
    storage: &[u8; 128],
    len: u32,
    r: Result<SocketAddr, SockaddrError>,
)
    requires
        call_ensures(sockaddr_to_socket_addr, (order, storage, len), r),
    ensures
        r matches Ok(SocketAddr::V6(a)) ==> match order {
            ByteOrder::Little => {
                &&& a.flowinfo == storage[4] + storage[5] * 0x100 + storage[6] * 0x1_0000
                    + storage[7] * 0x100_0000
                &&& a.scope_id == storage[24] + storage[25] * 0x100 + storage[26] * 0x1_0000
                    + storage[27] * 0x100_0000
            },
            ByteOrder::Big => {
                &&& a.flowinfo == storage[4] * 0x100_0000 + storage[5] * 0x1_0000 + storage[6]
                    * 0x100 + storage[7]
                &&& a.scope_id == storage[24] * 0x100_0000 + storage[25] * 0x1_0000 + storage[26]
                    * 0x100 + storage[27]
            },
        },
{
    bytes::law_four_bytes(storage@.subrange(4, 8));
    bytes::law_four_bytes(storage@.subrange(24, 28));
}

/// An encoded IPv4 address is 16 bytes: the family 2 in the order of the machine, the
/// port with its high byte first, the octets, and eight zero bytes.
pub proof fn law_encoded_v4_fields(order: ByteOrder, a: SocketAddrV4, raw: Vec<u8>)
    requires
        call_ensures(encode_v4, (order, a), raw),
    ensures
        raw@.len() == 16,
        order is Little ==> raw[0] == 2 && raw[1] == 0,
        order is Big ==> raw[0] == 0 && raw[1] == 2,
        raw[2] == a.port / 256,
        raw[3] == a.port % 256,
        forall|i: int| 0 <= i < 4 ==> raw[4 + i] == #[trigger] a.ip.octets[i],
        forall|i: int| 8 <= i < 16 ==> #[trigger] raw[i] == 0,
{
    lemma_field_lens(order, SocketAddr::V4(a));
    bytes::law_two_digits(2);
    bytes::law_two_digits(a.port as nat);
    bytes::law_zeros(8);
}

/// An encoded IPv6 address is 28 bytes: the family 10 in the order of the machine,
/// the port with its high byte first, the flow label in the order of the machine, the
/// octets, and the scope in the order of the machine.
#[verifier::spinoff_prover]
pub proof fn law_encoded_v6_fields(order: ByteOrder, a: SocketAddrV6, raw: Vec<u8>)
    requires
        call_ensures(encode_v6, (order, a), raw),
    ensures
        raw@.len() == 28,
        order is Little ==> {
            &&& raw[0] == 10 && raw[1] == 0
            &&& a.flowinfo == raw[4] + raw[5] * 0x100 + raw[6] * 0x1_0000 + raw[7] * 0x100_0000
            &&& a.scope_id == raw[24] + raw[25] * 0x100 + raw[26] * 0x1_0000 + raw[27] * 0x100_0000
        },
        order is Big ==> {
            &&& raw[0] == 0 && raw[1] == 10
            &&& a.flowinfo == raw[4] * 0x100_0000 + raw[5] * 0x1_0000 + raw[6] * 0x100 + raw[7]
            &&& a.scope_id == raw[24] * 0x100_0000 + raw[25] * 0x1_0000 + raw[26] * 0x100 + raw[27]
        },
        raw[2] == a.port / 256,
        raw[3] == a.port % 256,
        forall|i: int| 0 <= i < 16 ==> raw[8 + i] == #[trigger] a.ip.octets[i],
{
    lemma_field_lens(order, SocketAddr::V6(a));
    bytes::lemma_capacities();
    bytes::law_two_digits(10);
    bytes::law_two_digits(a.port as nat);
    let flow = bytes::bytes_of(order, a.flowinfo as nat, 4);
    let scope = bytes::bytes_of(order, a.scope_id as nat, 4);
    bytes::law_decode_undoes_encode(order, a.flowinfo as nat, 4);
    bytes::law_decode_undoes_encode(order, a.scope_id as nat, 4);
    bytes::law_four_bytes(flow);
    bytes::law_four_bytes(scope);
    assert(raw@.subrange(4, 8) =~= flow);
    assert(raw@.subrange(24, 28) =~= scope);
    assert forall|i: int| 0 <= i < 4 implies raw[4 + i] == #[trigger] flow[i] && raw[24 + i]
        == scope[i] by {
        assert(raw@.subrange(4, 8)[i] == flow[i]);
        assert(raw@.subrange(24, 28)[i] == scope[i]);
    }
    assert(flow[0] == raw[4] && flow[1] == raw[5] && flow[2] == raw[6] && flow[3] == raw[7]);
}

} // verus!
