//! What the socket interface of Linux fixes, as the `libc` crate gives it: the
//! numbers of address families, levels and options, and the sizes of structs.
//!
//! The constants are what contracts speak of; executable code takes the values
//! from `libc` through the functions below.
use vstd::prelude::*;

verus! {

/// Address family of `sockaddr_in`.
pub const AF_INET: i32 = 2;

/// Address family of `sockaddr_in6`.
pub const AF_INET6: i32 = 10;

/// Level of IPv4 options and control messages.
pub const IPPROTO_IP: i32 = 0;

/// Level of IPv6 options and control messages.
pub const IPPROTO_IPV6: i32 = 41;

/// The IPv4 packet information option, and the control message it asks for.
pub const IP_PKTINFO: i32 = 8;

/// The option that asks for IPv6 packet information.
pub const IPV6_RECVPKTINFO: i32 = 49;

/// The control message with IPv6 packet information.
pub const IPV6_PKTINFO: i32 = 50;

/// Bytes of a `sockaddr_in`.
pub const SOCKADDR_IN_LEN: usize = 16;

/// Bytes of a `sockaddr_in6`.
pub const SOCKADDR_IN6_LEN: usize = 28;

/// Bytes of an `in_pktinfo`.
pub const IN_PKTINFO_LEN: usize = 12;

/// Bytes of an `in6_pktinfo`.
pub const IN6_PKTINFO_LEN: usize = 20;

/// Bytes of a machine word: the width of `size_t` and the alignment of control
/// messages.
pub open spec fn word_len() -> nat {
    vstd::layout::size_of::<usize>()
}

/// Bytes of a `cmsghdr`: a `size_t` length, an `int` level and an `int` type.
pub open spec fn cmsghdr_len() -> nat {
    word_len() + 8
}

/// `libc::AF_INET`, which is 2 on Linux.
#[verifier::external_body]
pub(crate) fn af_inet() -> (v: i32)
    ensures
        v == AF_INET,
{
    libc::AF_INET
}

/// `libc::AF_INET6`, which is 10 on Linux.
#[verifier::external_body]
pub(crate) fn af_inet6() -> (v: i32)
    ensures
        v == AF_INET6,
{
    libc::AF_INET6
}

/// `libc::IPPROTO_IP`, which is 0.
#[verifier::external_body]
pub(crate) fn ipproto_ip() -> (v: i32)
    ensures
        v == IPPROTO_IP,
{
    libc::IPPROTO_IP
}

/// `libc::IPPROTO_IPV6`, which is 41.
#[verifier::external_body]
pub(crate) fn ipproto_ipv6() -> (v: i32)
    ensures
        v == IPPROTO_IPV6,
{
    libc::IPPROTO_IPV6
}

/// `libc::IP_PKTINFO`, which is 8 on Linux.
#[verifier::external_body]
pub(crate) fn ip_pktinfo() -> (v: i32)
    ensures
        v == IP_PKTINFO,
{
    libc::IP_PKTINFO
}

/// `libc::IPV6_RECVPKTINFO`, which is 49 on Linux.
#[verifier::external_body]
pub(crate) fn ipv6_recvpktinfo() -> (v: i32)
    ensures
        v == IPV6_RECVPKTINFO,
{
    libc::IPV6_RECVPKTINFO
}

/// `libc::IPV6_PKTINFO`, which is 50 on Linux.
#[verifier::external_body]
pub(crate) fn ipv6_pktinfo() -> (v: i32)
    ensures
        v == IPV6_PKTINFO,
{
    libc::IPV6_PKTINFO
}

/// The size of `libc::sockaddr_in`: a 16-bit family, a 16-bit port, four octets
/// and eight bytes of padding, which is 16 bytes on Linux.
#[verifier::external_body]
pub(crate) fn sockaddr_in_size() -> (n: usize)
    ensures
        n == SOCKADDR_IN_LEN,
{
    core::mem::size_of::<libc::sockaddr_in>()
}

/// The size of `libc::sockaddr_in6`: a 16-bit family, a 16-bit port, a 32-bit
/// flow label, sixteen octets and a 32-bit scope, which is 28 bytes on Linux.
#[verifier::external_body]
pub(crate) fn sockaddr_in6_size() -> (n: usize)
    ensures
        n == SOCKADDR_IN6_LEN,
{
    core::mem::size_of::<libc::sockaddr_in6>()
}

/// The size of `libc::in_pktinfo`: a 32-bit interface index and two IPv4
/// addresses, which is 12 bytes.
#[verifier::external_body]
pub(crate) fn in_pktinfo_size() -> (n: usize)
    ensures
        n == IN_PKTINFO_LEN,
{
    core::mem::size_of::<libc::in_pktinfo>()
}

/// The size of `libc::in6_pktinfo`: an IPv6 address and a 32-bit interface
/// index, which is 20 bytes.
#[verifier::external_body]
pub(crate) fn in6_pktinfo_size() -> (n: usize)
    ensures
        n == IN6_PKTINFO_LEN,
{
    core::mem::size_of::<libc::in6_pktinfo>()
}

/// The size of `libc::cmsghdr`: a machine word for the length and two 32-bit
/// integers for the level and the type.
#[verifier::external_body]
pub(crate) fn cmsghdr_size() -> (n: usize)
    ensures
        n == cmsghdr_len(),
{
    core::mem::size_of::<libc::cmsghdr>()
}

} // verus!
