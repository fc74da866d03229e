# udp_stream

The decisions and wire layouts behind a UDP stream of DNS messages on Linux,
verified with Verus.

- `src/` is the library. It performs no I/O: it says what to do next, lays out and
  reads the bytes that system calls exchange, and proves that it does so correctly.
- `app/` runs it on tokio sockets.
- `tests/` runs it on concrete values.

What is proved, among other things:

- A client socket is bound to the port that was asked for, or else to one drawn at
  random from 1024 to 65535 that is not to be avoided. A drawn port that is to be
  avoided counts as an attempt, and so does a bind that failed. After ten of them the
  operating system picks the port, and the search ends after at most twelve binds and
  rejected ports together.
- A stream sends what is queued, in order and each message once, before it
  receives, and hands out one message per poll. Over all its polls every message
  completes once and none is lost; what was queued before the socket was bound is
  sent too.
- Socket addresses and packet information are read back as they were written, in
  either byte order; an answer leaves from the address that the query came in on,
  where the address families allow it.

The facts taken from `libc` (numbers and struct sizes) and from `rand` (a value
within a range) are not proved; they stand in `src/sys.rs` and `src/ports.rs`.
