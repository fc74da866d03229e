//! A DNS message in wire form, with where it comes from or goes to.
use vstd::prelude::*;
use vstd::slice::slice_subrange;

use crate::addr::{IpAddr, SocketAddr};

verus! {

/// A serialized message with the address of the peer and, where it is known or
/// matters, the local address.
#[derive(Debug, PartialEq, Eq)]
pub struct SerialMessage {
    message: Vec<u8>,
    addr: SocketAddr,
    local_addr: Option<IpAddr>,
}

/// What a [`SerialMessage`] holds.
pub struct SerialMessageView {
    pub bytes: Seq<u8>,
    pub addr: SocketAddr,
    pub local_addr: Option<IpAddr>,
}

impl View for SerialMessage {
    type V = SerialMessageView;

    closed spec fn view(&self) -> SerialMessageView {
        SerialMessageView {
            bytes: self.message@,
            addr: self.addr,
            local_addr: self.local_addr,
        }
    }
}

impl SerialMessage {
    /// A message without a local address.
    pub fn new(message: Vec<u8>, addr: SocketAddr) -> (m: Self)
        ensures
            m@ == (SerialMessageView { bytes: message@, addr, local_addr: None }),
    {
        SerialMessage { message, addr, local_addr: None }
    }

    /// Sets the local address.
    pub fn set_local_addr(&mut self, ip: IpAddr)
        ensures
            final(self)@ == (SerialMessageView { local_addr: Some(ip), ..old(self)@ }),
    {
        self.local_addr = Some(ip);
    }

    /// The serialized message.
    pub fn bytes(&self) -> (b: &[u8])
        ensures
            b@ == self@.bytes,
    {
        self.message.as_slice()
    }

    /// The address of the peer.
    pub fn addr(&self) -> (a: SocketAddr)
        ensures
            a == self@.addr,
    {
        self.addr
    }

    /// The local address.
    pub fn local_addr(&self) -> (ip: Option<IpAddr>)
        ensures
            ip == self@.local_addr,
    {
        self.local_addr
    }

    /// The message that a receive left in the first `len` bytes of `buf`, with the
    /// destination address as the local one if it was reported.
    pub fn received(buf: &[u8], len: usize, src: SocketAddr, dst_ip: Option<IpAddr>) -> (m: Self)
        requires
            len <= buf@.len(),
        ensures
            m@ == (SerialMessageView {
                bytes: buf@.take(len as int),
                addr: src,
                local_addr: dst_ip,
            }),
    {
        let mut data: Vec<u8> = Vec::new();
        data.extend_from_slice(slice_subrange(buf, 0, len));
        assert(data@ =~= buf@.take(len as int));
        let mut m = SerialMessage::new(data, src);
        if let Some(ip) = dst_ip {
            m.set_local_addr(ip);
        }
        m
    }
}

/// A received message has just the bytes of the datagram, from the first to the last
/// of `len`, with its source as the address and its destination as the local one.
pub proof fn law_received_message(
    buf: &[u8],
    len: usize,
    src: SocketAddr,
    dst_ip: Option<IpAddr>,
    m: SerialMessage,
    bytes: &[u8],
    addr: SocketAddr,
    local_addr: Option<IpAddr>,
)
    requires
        len <= buf@.len(),
        call_ensures(SerialMessage::received, (buf, len, src, dst_ip), m),
        call_ensures(SerialMessage::bytes, (&m,), bytes),
        call_ensures(SerialMessage::addr, (&m,), addr),
        call_ensures(SerialMessage::local_addr, (&m,), local_addr),
    ensures
        bytes@.len() == len,
        forall|i: int| 0 <= i < len ==> #[trigger] bytes@[i] == buf@[i],
        addr == src,
        local_addr == dst_ip,
{
}

/// A new message tells the bytes and the address that it was made of, and no local
/// address.
pub proof fn law_new_message(
    message: Vec<u8>,
    peer: SocketAddr,
    m: SerialMessage,
    bytes: &[u8],
    addr: SocketAddr,
    local_addr: Option<IpAddr>,
)
    requires
        call_ensures(SerialMessage::new, (message, peer), m),
        call_ensures(SerialMessage::bytes, (&m,), bytes),
        call_ensures(SerialMessage::addr, (&m,), addr),
        call_ensures(SerialMessage::local_addr, (&m,), local_addr),
    ensures
        bytes@ == message@,
        addr == peer,
        local_addr is None,
{
}

} // verus!
