//! Control messages: the chain of headers that `recvmsg` fills in, and the
//! message that `sendmsg` is given.
use vstd::prelude::*;

use crate::addr::{self, IpAddr};
use crate::bytes::{self, ByteOrder};
use crate::sys;

verus! {

/// `len` rounded up to a multiple of the machine word (`CMSG_ALIGN`).
pub open spec fn cmsg_align(len: nat) -> nat {
    ((len + sys::word_len() - 1) as nat / sys::word_len()) * sys::word_len()
}

/// The length that the header of a message with `n` bytes of data states
/// (`CMSG_LEN`).
pub open spec fn cmsg_len(n: nat) -> nat {
    cmsg_align(sys::cmsghdr_len()) + n
}

/// The room that a message with `n` bytes of data takes up (`CMSG_SPACE`).
pub open spec fn cmsg_space(n: nat) -> nat {
    cmsg_align(sys::cmsghdr_len()) + cmsg_align(n)
}

/// The length that the header at `at` states.
pub open spec fn stated_len(order: ByteOrder, control: Seq<u8>, at: int) -> nat {
    bytes::value(order, control.subrange(at, at + sys::word_len()))
}

/// The protocol level of the header at `at`.
pub open spec fn level_of(order: ByteOrder, control: Seq<u8>, at: int) -> nat {
    bytes::value(order, control.subrange(at + sys::word_len(), at + sys::word_len() + 4))
}

/// The type of the header at `at`.
pub open spec fn type_of(order: ByteOrder, control: Seq<u8>, at: int) -> nat {
    bytes::value(order, control.subrange(at + sys::word_len() + 4, at + sys::word_len() + 8))
}

/// Where the header after the one at `at` stands (`CMSG_NXTHDR`): behind the
/// aligned length, unless that length is shorter than a header or no header
/// fits there any more.
pub open spec fn next_header(order: ByteOrder, control: Seq<u8>, at: int) -> Option<int> {
    let len = stated_len(order, control, at);
    let next = at + cmsg_align(len);
    if len < sys::cmsghdr_len() || next + sys::cmsghdr_len() > control.len() {
        None
    } else {
        Some(next)
    }
}

/// The places of the headers from `at` on, in the order of the chain.
pub open spec fn headers_from(order: ByteOrder, control: Seq<u8>, at: int) -> Seq<int>
    decreases control.len() - at,
{
    proof {
        lemma_word();
        lemma_align(stated_len(order, control, at));
    }
    match next_header(order, control, at) {
        Some(next) => seq![at] + headers_from(order, control, next),
        None => seq![at],
    }
}

/// The places of all headers of a control buffer: the chain starts at the front
/// if a header fits there at all (`CMSG_FIRSTHDR`).
pub open spec fn headers(order: ByteOrder, control: Seq<u8>) -> Seq<int> {
    if control.len() < sys::cmsghdr_len() {
        Seq::empty()
    } else {
        headers_from(order, control, 0)
    }
}

/// Whether the header at `at` announces `n` bytes of packet information of the
/// given level and type.
pub open spec fn announces(
    order: ByteOrder,
    control: Seq<u8>,
    at: int,
    level: i32,
    kind: i32,
    n: nat,
) -> bool {
    &&& level_of(order, control, at) == level
    &&& type_of(order, control, at) == kind
    &&& stated_len(order, control, at) >= cmsg_len(n)
}

/// Whether `n` bytes of data behind the header at `at` lie inside the buffer.
pub open spec fn holds(control: Seq<u8>, at: int, n: nat) -> bool {
    at + cmsg_len(n) <= control.len()
}

/// Whether the message at `at` is IPv6 packet information.
pub open spec fn is_pktinfo_v6(order: ByteOrder, control: Seq<u8>, at: int) -> bool {
    announces(
        order,
        control,
        at,
        sys::IPPROTO_IPV6,
        sys::IPV6_PKTINFO,
        sys::IN6_PKTINFO_LEN as nat,
    )
}

/// Whether the message at `at` is IPv4 packet information.
pub open spec fn is_pktinfo_v4(order: ByteOrder, control: Seq<u8>, at: int) -> bool {
    announces(
        order,
        control,
        at,
        sys::IPPROTO_IP,
        sys::IP_PKTINFO,
        sys::IN_PKTINFO_LEN as nat,
    )
}

/// The destination address that the message at `at` carries, if it is packet
/// information: the `ipi6_addr` that starts an `in6_pktinfo`, or the `ipi_addr`
/// behind the index and the local address of an `in_pktinfo`.
pub open spec fn dst_at(order: ByteOrder, control: Seq<u8>, at: int) -> Option<IpAddr> {
    let data = at + sys::cmsghdr_len();
    if is_pktinfo_v6(order, control, at) && holds(control, at, sys::IN6_PKTINFO_LEN as nat) {
        Some(IpAddr::V6(addr::ipv6_at(control, data)))
    } else if is_pktinfo_v4(order, control, at) && holds(
        control,
        at,
        sys::IN_PKTINFO_LEN as nat,
    ) {
        Some(IpAddr::V4(addr::ipv4_at(control, data + 8)))
    } else {
        None
    }
}

/// Whether `r` is the destination that a control buffer tells: that of the first
/// message in the chain that carries one.
pub open spec fn is_dst(order: ByteOrder, control: Seq<u8>, r: Option<IpAddr>) -> bool {
    let hs = headers(order, control);
    match r {
        Some(ip) => exists|k: int|
            0 <= k < hs.len() && dst_at(order, control, #[trigger] hs[k]) == Some(ip) && (forall|
                j: int,
            |
                0 <= j < k ==> dst_at(order, control, #[trigger] hs[j]) is None),
        None => forall|j: int|
            0 <= j < hs.len() ==> dst_at(order, control, #[trigger] hs[j]) is None,
    }
}

/// Two word sizes are possible, and a header needs no padding under either.
pub proof fn lemma_word()
    ensures
        sys::word_len() == 4 || sys::word_len() == 8,
        cmsg_align(sys::cmsghdr_len()) == sys::cmsghdr_len(),
{
    broadcast use vstd::layout::layout_of_primitives;

    let w = sys::word_len();
    if w == 4 {
        assert(cmsg_align(12) == 12);
    } else {
        assert(cmsg_align(16) == 16);
    }
}

/// Aligning gives the least multiple of the word that is not smaller.
pub proof fn lemma_align(len: nat)
    ensures
        len <= cmsg_align(len) < len + sys::word_len(),
        cmsg_align(len) % sys::word_len() == 0,
{
    lemma_word();
    if sys::word_len() == 4 {
        assert(cmsg_align(len) == ((len + 3) / 4) * 4);
    } else {
        assert(cmsg_align(len) == ((len + 7) / 8) * 8);
    }
}

/// A message that states the length for `n` bytes of data takes up the room for
/// them.
proof fn lemma_align_message(n: nat)
    ensures
        cmsg_align(cmsg_len(n)) == cmsg_space(n),
{
    lemma_word();
    if sys::word_len() == 4 {
        assert(cmsg_align(12 + n) == ((12 + n + 3) as nat / 4) * 4);
        assert(cmsg_align(n) == ((n + 3) as nat / 4) * 4);
    } else {
        assert(cmsg_align(16 + n) == ((16 + n + 7) as nat / 8) * 8);
        assert(cmsg_align(n) == ((n + 7) as nat / 8) * 8);
    }
}

/// The padding that aligns a length.
fn cmsg_padding(len: u64) -> (pad: u64)
    ensures
        len + pad == cmsg_align(len as nat),
        pad < sys::word_len(),
{
    let word: u64 = core::mem::size_of::<usize>() as u64;
    proof {
        lemma_word();
    }
    let over: u64 = len % word;
    let pad: u64 = if over == 0 {
        0
    } else {
        word - over
    };
    assert(len + pad == cmsg_align(len as nat)) by {
        if word == 4 {
            assert(over == len % 4);
            assert(((len + 3) / 4) * 4 == len + pad);
        } else {
            assert(over == len % 8);
            assert(((len + 7) / 8) * 8 == len + pad);
        }
    }
    pad
}

/// Where the header behind one at `at` that states `len` stands in a buffer of
/// `total` bytes.
pub fn cmsg_nxthdr(total: usize, at: usize, len: u64) -> (r: Option<usize>)
    requires
        at <= total,
    ensures
        match r {
            Some(next) => next == at + cmsg_align(len as nat) && len >= sys::cmsghdr_len() && next
                + sys::cmsghdr_len() <= total,
            None => len < sys::cmsghdr_len() || at + cmsg_align(len as nat) + sys::cmsghdr_len()
                > total,
        },
{
    let header: u64 = sys::cmsghdr_size() as u64;
    let room: u64 = (total - at) as u64;
    let pad: u64 = cmsg_padding(len);
    proof {
        lemma_word();
    }
    if len < header || len > room || room - len < pad + header {
        None
    } else {
        Some(at + len as usize + pad as usize)
    }
}

/// The destination that the message at `at` carries, and the length that its
/// header states.
#[verifier::spinoff_prover]
fn read_header(order: ByteOrder, control: &[u8], at: usize) -> (r: (Option<IpAddr>, u64))
    requires
        at + sys::cmsghdr_len() <= control@.len(),
    ensures
        r.0 == dst_at(order, control@, at as int),
        r.1 == stated_len(order, control@, at as int),
{
    proof {
        lemma_word();
        assert(control@.len() == control.len());
    }
    let word: usize = core::mem::size_of::<usize>();
    let header: usize = sys::cmsghdr_size();
    let len: u64 = bytes::read_uint(order, control, at, word);
    let level: u64 = bytes::read_uint(order, control, at + word, 4);
    let kind: u64 = bytes::read_uint(order, control, at + word + 4, 4);
    let room: u64 = (control.len() - at) as u64;
    let data: usize = at + header;
    let len_v6: u64 = (header + sys::in6_pktinfo_size()) as u64;
    let len_v4: u64 = (header + sys::in_pktinfo_size()) as u64;
    if level == sys::ipproto_ipv6() as u64 && kind == sys::ipv6_pktinfo() as u64 && len >= len_v6
        && room >= len_v6 {
        (Some(IpAddr::V6(addr::read_ipv6(control, data))), len)
    } else if level == sys::ipproto_ip() as u64 && kind == sys::ip_pktinfo() as u64 && len
        >= len_v4 && room >= len_v4 {
        (Some(IpAddr::V4(addr::read_ipv4(control, data + 8))), len)
    } else {
        (None, len)
    }
}

/// Finds the destination address in a control buffer.
///
/// A header that states more data than the buffer holds is passed over.
#[verifier::spinoff_prover]
pub fn parse_dst_from_cmsg(order: ByteOrder, control: &[u8]) -> (r: Option<IpAddr>)
    ensures
        is_dst(order, control@, r),
{
    let total: usize = control.len();
    if total < sys::cmsghdr_size() {
        return None;
    }
    let mut at: usize = 0;
    let ghost hs = headers(order, control@);
    let ghost mut k: int = 0;
    assert(hs.skip(0) =~= hs);
    loop
        invariant
            total == control@.len(),
            at + sys::cmsghdr_len() <= total,
            hs == headers(order, control@),
            0 <= k <= hs.len(),
            hs.skip(k) == headers_from(order, control@, at as int),
            forall|j: int| 0 <= j < k ==> dst_at(order, control@, #[trigger] hs[j]) is None,
        decreases total - at,
    {
        proof {
            let rest = headers_from(order, control@, at as int);
            assert(rest.len() >= 1 && rest[0] == at);
            assert(hs.skip(k).len() == hs.len() - k);
            assert(hs[k] == hs.skip(k)[0]);
        }
        let (dst, len) = read_header(order, control, at);
        if dst.is_some() {
            return dst;
        }
        match cmsg_nxthdr(total, at, len) {
            None => {
                assert(hs.skip(k).len() == 1);
                return None;
            },
            Some(next) => {
                proof {
                    assert(hs.skip(k + 1) =~= hs.skip(k).skip(1));
                    assert(hs.skip(k).skip(1) =~= headers_from(order, control@, next as int));
                    lemma_word();
                    lemma_align(len as nat);
                    k = k + 1;
                }
                at = next;
            },
        }
    }
}

/// A control buffer with one message: the header, the data and the padding.
pub open spec fn control_message(order: ByteOrder, level: i32, kind: i32, data: Seq<u8>) -> Seq<
    u8,
> {
    bytes::bytes_of(order, cmsg_len(data.len()), sys::word_len()) + bytes::bytes_of(
        order,
        level as nat,
        4,
    ) + bytes::bytes_of(order, kind as nat, 4) + data + bytes::zeros(
        (cmsg_align(data.len()) - data.len()) as nat,
    )
}

/// Builds a control buffer with one message.
pub fn build_cmsg(order: ByteOrder, level: i32, kind: i32, data: &[u8]) -> (control: Vec<u8>)
    requires
        0 <= level,
        0 <= kind,
        data@.len() + 32 <= usize::MAX,
    ensures
        control@ == control_message(order, level, kind, data@),
{
    proof {
        lemma_word();
        lemma_align(data@.len());
    }
    let mut control: Vec<u8> = Vec::new();
    let len: u64 = sys::cmsghdr_size() as u64 + data.len() as u64;
    let pad: usize = cmsg_padding(data.len() as u64) as usize;
    bytes::push_uint(&mut control, order, len, core::mem::size_of::<usize>());
    bytes::push_uint(&mut control, order, level as u64, 4);
    bytes::push_uint(&mut control, order, kind as u64, 4);
    control.extend_from_slice(data);
    bytes::push_zeros(&mut control, pad);
    assert(control@ =~= control_message(order, level, kind, data@));
    control
}

/// A built control buffer is a chain of one header, which states the length,
/// level and type that were asked for, with the data right behind it; it takes up
/// the room of one message.
#[verifier::spinoff_prover]
pub proof fn law_built_message(order: ByteOrder, level: i32, kind: i32, data: Seq<u8>)
    requires
        0 <= level,
        0 <= kind,
        data.len() + 32 <= usize::MAX,
    ensures
        ({
            let control = control_message(order, level, kind, data);
            let front = sys::cmsghdr_len() as int;
            &&& control.len() == cmsg_space(data.len())
            &&& headers(order, control) == seq![0int]
            &&& stated_len(order, control, 0) == cmsg_len(data.len())
            &&& level_of(order, control, 0) == level
            &&& type_of(order, control, 0) == kind
            &&& holds(control, 0, data.len())
            &&& control.subrange(front, front + data.len()) == data
        }),
{
    let control = control_message(order, level, kind, data);
    lemma_word();
    lemma_align(data.len());
    lemma_built_fields(order, level, kind, data);
    lemma_align_message(data.len());
    assert(next_header(order, control, 0) is None);
    assert(headers(order, control) =~= seq![0int]);
}

/// The fields of a built message are read back.
#[verifier::spinoff_prover]
proof fn lemma_built_fields(order: ByteOrder, level: i32, kind: i32, data: Seq<u8>)
    requires
        0 <= level,
        0 <= kind,
        data.len() + 32 <= usize::MAX,
    ensures
        ({
            let control = control_message(order, level, kind, data);
            let front = sys::cmsghdr_len() as int;
            &&& control.len() == cmsg_space(data.len())
            &&& stated_len(order, control, 0) == cmsg_len(data.len())
            &&& level_of(order, control, 0) == level
            &&& type_of(order, control, 0) == kind
            &&& control.subrange(front, front + data.len()) == data
        }),
{
    let control = control_message(order, level, kind, data);
    let w: int = sys::word_len() as int;
    let n = data.len();
    let stated = cmsg_len(n);
    let len_bytes = bytes::bytes_of(order, stated, w as nat);
    let level_bytes = bytes::bytes_of(order, level as nat, 4);
    let kind_bytes = bytes::bytes_of(order, kind as nat, 4);
    lemma_word();
    lemma_align(n);
    lemma_word_capacity();
    bytes::lemma_capacities();
    bytes::lemma_bytes_of_len(order, stated, w as nat);
    bytes::lemma_bytes_of_len(order, level as nat, 4);
    bytes::lemma_bytes_of_len(order, kind as nat, 4);
    bytes::law_decode_undoes_encode(order, stated, w as nat);
    bytes::law_decode_undoes_encode(order, level as nat, 4);
    bytes::law_decode_undoes_encode(order, kind as nat, 4);
    assert(control.subrange(0, w) =~= len_bytes);
    assert(control.subrange(w, w + 4) =~= level_bytes);
    assert(control.subrange(w + 4, w + 8) =~= kind_bytes);
    assert(control.subrange(w + 8, w + 8 + n) =~= data);
}

/// A machine word holds every `usize`.
proof fn lemma_word_capacity()
    ensures
        bytes::capacity(sys::word_len()) == usize::MAX + 1,
{
    broadcast use vstd::layout::layout_of_primitives;

    bytes::lemma_capacities();
    lemma_word();
}

/// A control buffer whose headers state no more than the buffer holds, as the
/// kernel leaves it.
pub open spec fn well_formed(order: ByteOrder, control: Seq<u8>) -> bool {
    let hs = headers(order, control);
    forall|k: int|
        0 <= k < hs.len() ==> (#[trigger] hs[k]) + stated_len(order, control, hs[k])
            <= control.len()
}

/// In a well-formed control buffer a message carries a destination exactly when
/// its level, type and stated length announce packet information.
pub proof fn law_well_formed_dst(order: ByteOrder, control: Seq<u8>, k: int)
    requires
        well_formed(order, control),
        0 <= k < headers(order, control).len(),
    ensures
        ({
            let at = headers(order, control)[k];
            let data = at + sys::cmsghdr_len();
            dst_at(order, control, at) == (if is_pktinfo_v6(order, control, at) {
                Some(IpAddr::V6(addr::ipv6_at(control, data)))
            } else if is_pktinfo_v4(order, control, at) {
                Some(IpAddr::V4(addr::ipv4_at(control, data + 8)))
            } else {
                None
            })
        }),
{
    let at = headers(order, control)[k];
    assert(at + stated_len(order, control, at) <= control.len());
}

/// A destination is found in a well-formed control buffer exactly when one of its
/// messages is packet information.
pub proof fn law_dst_iff_pktinfo(order: ByteOrder, control: Seq<u8>, r: Option<IpAddr>)
    requires
        well_formed(order, control),
        is_dst(order, control, r),
    ensures
        r is Some <==> exists|k: int|
            0 <= k < headers(order, control).len() && {
                let at = #[trigger] headers(order, control)[k];
                is_pktinfo_v6(order, control, at) || is_pktinfo_v4(order, control, at)
            },
{
    let hs = headers(order, control);
    assert forall|k: int| 0 <= k < hs.len() implies (dst_at(order, control, #[trigger] hs[k]) is Some
        <==> is_pktinfo_v6(order, control, hs[k]) || is_pktinfo_v4(order, control, hs[k])) by {
        law_well_formed_dst(order, control, k);
    }
}

/// A control buffer tells one destination at most.
pub proof fn law_dst_unique(
    order: ByteOrder,
    control: Seq<u8>,
    a: Option<IpAddr>,
    b: Option<IpAddr>,
)
    requires
        is_dst(order, control, a),
        is_dst(order, control, b),
    ensures
        a == b,
{
    let hs = headers(order, control);
    if let Some(ip) = a {
        let i = choose|k: int|
            0 <= k < hs.len() && dst_at(order, control, #[trigger] hs[k]) == Some(ip) && (forall|
                j: int,
            |
                0 <= j < k ==> dst_at(order, control, #[trigger] hs[j]) is None);
        if let Some(other) = b {
            let m = choose|k: int|
                0 <= k < hs.len() && dst_at(order, control, #[trigger] hs[k]) == Some(other) && (
                forall|j: int| 0 <= j < k ==> dst_at(order, control, #[trigger] hs[j]) is None);
            assert(i == m);
        }
    }
}

/// The header behind one at `at` stands where the stated length, rounded up to whole
/// machine words, leads to. There is none if the length is shorter than a header, or
/// if no header fits there any more.
pub proof fn law_next_header(total: usize, at: usize, len: u64, r: Option<usize>)
    requires
        at <= total,
        call_ensures(cmsg_nxthdr, (total, at, len), r),
    ensures
        ({
            let w = vstd::layout::size_of::<usize>();
            let next = at + ((len + w - 1) as nat / w) * w;
            &&& r is Some <==> len >= w + 8 && next + w + 8 <= total
            &&& r matches Some(n) ==> n == next
        }),
{
}

/// Without room for a header, no destination is found.
pub proof fn law_no_header_no_destination(
    order: ByteOrder,
    control: &[u8],
    r: Option<IpAddr>,
)
    requires
        call_ensures(parse_dst_from_cmsg, (order, control), r),
        control@.len() < vstd::layout::size_of::<usize>() + 8,
    ensures
        r is None,
{
}

/// A first message of level 0 and type 8 that states at least twelve bytes of data,
/// all of them in the buffer, tells bytes 8 to 11 of its data as the destination,
/// whatever the interface and the addresses are.
pub proof fn law_first_message_v4(order: ByteOrder, control: &[u8], r: Option<IpAddr>)
    requires
        call_ensures(parse_dst_from_cmsg, (order, control), r),
        ({
            let w = vstd::layout::size_of::<usize>() as int;
            &&& control@.len() >= w + 8 + 12
            &&& bytes::value(order, control@.subrange(0, w)) >= w + 8 + 12
            &&& bytes::value(order, control@.subrange(w, w + 4)) == 0
            &&& bytes::value(order, control@.subrange(w + 4, w + 8)) == 8
        }),
    ensures
        r matches Some(IpAddr::V4(a)) && (forall|i: int|
            0 <= i < 4 ==> #[trigger] a.octets[i] == control@[vstd::layout::size_of::<usize>() + 8
                + 8 + i]),
{
    lemma_word();
    lemma_first_header(order, control@);
    addr::lemma_octets_at(control@, sys::cmsghdr_len() as int + 8);
}

/// A first message of level 41 and type 50 that states at least twenty bytes of data,
/// all of them in the buffer, tells the first sixteen bytes of its data as the
/// destination, whatever the interface and the address are.
pub proof fn law_first_message_v6(order: ByteOrder, control: &[u8], r: Option<IpAddr>)
    requires
        call_ensures(parse_dst_from_cmsg, (order, control), r),
        ({
            let w = vstd::layout::size_of::<usize>() as int;
            &&& control@.len() >= w + 8 + 20
            &&& bytes::value(order, control@.subrange(0, w)) >= w + 8 + 20
            &&& bytes::value(order, control@.subrange(w, w + 4)) == 41
            &&& bytes::value(order, control@.subrange(w + 4, w + 8)) == 50
        }),
    ensures
        r matches Some(IpAddr::V6(a)) && (forall|i: int|
            0 <= i < 16 ==> #[trigger] a.octets[i] == control@[vstd::layout::size_of::<usize>() + 8
                + i]),
{
    lemma_word();
    lemma_first_header(order, control@);
    addr::lemma_octets_at(control@, sys::cmsghdr_len() as int);
}

/// A first message that is not packet information, by its level, type and length,
/// does not matter: the destination is that of the buffer from the next header on,
/// or none if there is no next header.
#[verifier::spinoff_prover]
pub proof fn law_other_messages_are_passed_over(
    order: ByteOrder,
    control: &[u8],
    rest: &[u8],
    r: Option<IpAddr>,
    from_rest: Option<IpAddr>,
)
    requires
        call_ensures(parse_dst_from_cmsg, (order, control), r),
        call_ensures(parse_dst_from_cmsg, (order, rest), from_rest),
        ({
            let w = vstd::layout::size_of::<usize>() as int;
            let len = bytes::value(order, control@.subrange(0, w));
            let level = bytes::value(order, control@.subrange(w, w + 4));
            let kind = bytes::value(order, control@.subrange(w + 4, w + 8));
            &&& control@.len() >= w + 8
            &&& level != 41 || kind != 50 || len < w + 8 + 20 || control@.len() < w + 8 + 20
            &&& level != 0 || kind != 8 || len < w + 8 + 12 || control@.len() < w + 8 + 12
        }),
    ensures
        ({
            let w = vstd::layout::size_of::<usize>() as int;
            let len = bytes::value(order, control@.subrange(0, w));
            let next = ((len + w - 1) / w) * w;
            &&& len < w + 8 || next + w + 8 > control@.len() ==> r is None
            &&& len >= w + 8 && next + w + 8 <= control@.len() && rest@ == control@.skip(next)
                ==> r == from_rest
        }),
{
    lemma_word();
    lemma_first_header(order, control@);
    let w = sys::word_len() as int;
    let len = stated_len(order, control@, 0);
    let next = cmsg_align(len) as int;
    assert(next == ((len + w - 1) / w) * w);
    let hs = headers(order, control@);
    assert(hs[0] == 0 && dst_at(order, control@, 0) is None);
    if len < w + 8 || next + w + 8 > control@.len() {
        assert(hs.len() == 1);
        assert(is_dst(order, control@, None));
        law_dst_unique(order, control@, r, None);
    } else if rest@ == control@.skip(next) {
        lemma_align(len);
        lemma_headers_shift(order, control@, next, 0);
        let ts = headers(order, rest@);
        assert(hs == seq![0int] + headers_from(order, control@, next));
        assert(hs.len() == ts.len() + 1);
        assert forall|j: int| 0 <= j < ts.len() implies dst_at(order, rest@, #[trigger] ts[j])
            == dst_at(order, control@, hs[j + 1]) by {
            lemma_headers_inside(order, rest@, 0, j);
            assert(hs[j + 1] == next + ts[j]);
            lemma_dst_shift(order, control@, next, ts[j]);
        }
        match from_rest {
            Some(ip) => {
                let k = choose|k: int|
                    0 <= k < ts.len() && dst_at(order, rest@, #[trigger] ts[k]) == Some(ip) && (
                    forall|j: int| 0 <= j < k ==> dst_at(order, rest@, #[trigger] ts[j]) is None);
                assert forall|j: int| 0 <= j < k + 1 implies dst_at(
                    order,
                    control@,
                    #[trigger] hs[j],
                ) is None by {
                    if j > 0 {
                        assert(dst_at(order, rest@, ts[j - 1]) is None);
                    }
                }
                assert(dst_at(order, control@, hs[k + 1]) == Some(ip));
                assert(is_dst(order, control@, Some(ip)));
            },
            None => {
                assert forall|j: int| 0 <= j < hs.len() implies dst_at(
                    order,
                    control@,
                    #[trigger] hs[j],
                ) is None by {
                    if j > 0 {
                        assert(dst_at(order, rest@, ts[j - 1]) is None);
                    }
                }
                assert(is_dst(order, control@, None));
            },
        }
        law_dst_unique(order, control@, r, from_rest);
    }
}

/// The chain starts with the header at the front, if there is room for one.
proof fn lemma_first_header(order: ByteOrder, control: Seq<u8>)
    requires
        control.len() >= sys::cmsghdr_len(),
    ensures
        headers(order, control).len() >= 1,
        headers(order, control)[0] == 0,
        stated_len(order, control, 0) == bytes::value(
            order,
            control.subrange(0, sys::word_len() as int),
        ),
{
}

/// Headers lie inside the buffer.
proof fn lemma_headers_inside(order: ByteOrder, control: Seq<u8>, at: int, j: int)
    requires
        0 <= at,
        at + sys::cmsghdr_len() <= control.len(),
        0 <= j < headers_from(order, control, at).len(),
    ensures
        at <= headers_from(order, control, at)[j],
        headers_from(order, control, at)[j] + sys::cmsghdr_len() <= control.len(),
    decreases control.len() - at,
{
    lemma_word();
    lemma_align(stated_len(order, control, at));
    if let Some(next) = next_header(order, control, at) {
        if j > 0 {
            lemma_headers_inside(order, control, next, j - 1);
        }
    }
}

/// The part of a buffer from `by` on holds the same chain, `by` bytes nearer to the
/// front.
#[verifier::spinoff_prover]
proof fn lemma_headers_shift(order: ByteOrder, control: Seq<u8>, by: int, at: int)
    requires
        0 <= by,
        0 <= at,
        by + at + sys::cmsghdr_len() <= control.len(),
    ensures
        ({
            let whole = headers_from(order, control, by + at);
            let part = headers_from(order, control.skip(by), at);
            &&& whole.len() == part.len()
            &&& forall|j: int| 0 <= j < part.len() ==> whole[j] == by + #[trigger] part[j]
        }),
    decreases control.len() - at,
{
    lemma_word();
    lemma_fields_shift(order, control, by, at);
    lemma_align(stated_len(order, control, by + at));
    let part = headers_from(order, control.skip(by), at);
    if let Some(next) = next_header(order, control.skip(by), at) {
        lemma_headers_shift(order, control, by, next);
        let rest = headers_from(order, control.skip(by), next);
        assert forall|j: int| 0 <= j < part.len() implies headers_from(
            order,
            control,
            by + at,
        )[j] == by + #[trigger] part[j] by {
            if j > 0 {
                assert(part[j] == rest[j - 1]);
            }
        }
    }
}

/// A header has the same fields in the part of the buffer from `by` on.
proof fn lemma_fields_shift(order: ByteOrder, control: Seq<u8>, by: int, at: int)
    requires
        0 <= by,
        0 <= at,
        by + at + sys::cmsghdr_len() <= control.len(),
    ensures
        stated_len(order, control.skip(by), at) == stated_len(order, control, by + at),
        level_of(order, control.skip(by), at) == level_of(order, control, by + at),
        type_of(order, control.skip(by), at) == type_of(order, control, by + at),
{
    let part = control.skip(by);
    let w = sys::word_len() as int;
    assert(part.subrange(at, at + w) =~= control.subrange(by + at, by + at + w));
    assert(part.subrange(at + w, at + w + 4) =~= control.subrange(by + at + w, by + at + w + 4));
    assert(part.subrange(at + w + 4, at + w + 8) =~= control.subrange(
        by + at + w + 4,
        by + at + w + 8,
    ));
}

/// A message tells the same destination in the part of the buffer from `by` on.
#[verifier::spinoff_prover]
proof fn lemma_dst_shift(order: ByteOrder, control: Seq<u8>, by: int, at: int)
    requires
        0 <= by,
        0 <= at,
        by + at + sys::cmsghdr_len() <= control.len(),
    ensures
        dst_at(order, control.skip(by), at) == dst_at(order, control, by + at),
{
    lemma_word();
    lemma_fields_shift(order, control, by, at);
    let part = control.skip(by);
    let data = at + sys::cmsghdr_len();
    if holds(part, at, 20) {
        let a = addr::ipv6_at(control, by + data);
        addr::lemma_octets_at(control, by + data);
        assert(part.subrange(data, data + 16) =~= a.octets@);
        addr::lemma_ipv6_at(part, data, a);
    }
    if holds(part, at, 12) {
        let a = addr::ipv4_at(control, by + data + 8);
        addr::lemma_octets_at(control, by + data + 8);
        assert(part.subrange(data + 8, data + 12) =~= a.octets@);
        addr::lemma_ipv4_at(part, data + 8, a);
    }
}

/// A built message states its length, level and type, each in its place and in the
/// order of the machine, has the data right behind the header, and is filled up with
/// zero bytes to whole machine words.
#[verifier::spinoff_prover]
pub proof fn law_built_bytes(
    order: ByteOrder,
    level: i32,
    kind: i32,
    data: &[u8],
    control: Vec<u8>,
)
    requires
        0 <= level,
        0 <= kind,
        data@.len() + 32 <= usize::MAX,
        call_ensures(build_cmsg, (order, level, kind, data), control),
    ensures
        ({
            let w = vstd::layout::size_of::<usize>() as int;
            let n = data@.len() as int;
            &&& control@.len() == w + 8 + ((n + w - 1) / w) * w
            &&& bytes::value(order, control@.subrange(0, w)) == w + 8 + n
            &&& bytes::value(order, control@.subrange(w, w + 4)) == level
            &&& bytes::value(order, control@.subrange(w + 4, w + 8)) == kind
            &&& control@.subrange(w + 8, w + 8 + n) == data@
            &&& forall|i: int| w + 8 + n <= i < control@.len() ==> #[trigger] control@[i] == 0
        }),
{
    let n = data@.len();
    let w = sys::word_len() as int;
    lemma_word();
    lemma_align(n);
    law_built_message(order, level, kind, data@);
    bytes::lemma_bytes_of_len(order, cmsg_len(n), w as nat);
    bytes::lemma_bytes_of_len(order, level as nat, 4);
    bytes::lemma_bytes_of_len(order, kind as nat, 4);
    bytes::law_zeros((cmsg_align(n) - n) as nat);
    assert forall|i: int| w + 8 + n <= i < control@.len() implies #[trigger] control@[i] == 0 by {
        assert(control@[i] == bytes::zeros((cmsg_align(n) - n) as nat)[i - (w + 8 + n)]);
    }
}

} // verus!
