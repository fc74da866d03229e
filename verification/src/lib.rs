//! The decisions and wire layouts behind a UDP stream of DNS messages.
//!
//! - [`stream`]: the stream, and one poll of it, step by step.
//! - [`bind`]: the search for a local port of a client socket.
//! - [`ports`]: the sources of the ports that the search tries.
//! - [`socket`]: sends and receives on a nonblocking socket, step by step.
//! - [`pktinfo`]: which address a datagram came in on and an answer leaves from.
//! - [`cmsg`]: the control messages that carry packet information.
//! - [`sockaddr`]: socket addresses as the kernel writes and reads them.
//! - [`message`], [`addr`], [`bytes`]: the values that these work on.
//! - [`sys`]: the numbers and sizes of the socket interface of Linux.
//!
//! Nothing here touches a socket. The caller performs what it is told to and
//! reports how it came out.

pub mod addr;
pub mod bind;
pub mod bytes;
pub mod cmsg;
pub mod message;
pub mod pktinfo;
pub mod ports;
pub mod sockaddr;
pub mod socket;
pub mod stream;
pub mod sys;
