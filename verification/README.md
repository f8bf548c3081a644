# tcp_socket

A Transmission Control Protocol socket, verified with Verus.

The socket does no input or output of its own. It is handed the packets that arrived for it
(`process`), and hands out the packets that should be sent (`dispatch`); the user reads and writes
octets (`recv`, `send` and their relatives). Time is a number of milliseconds that the caller
passes in.

## Layout

- `src/wire` holds addresses, headers, segments and sequence numbers.
- `src/storage` holds the ring buffer for octets that are to be sent or were received, and the
  assembler, which keeps track of what arrived out of order.
- `src/phy` and `src/error` hold the limits of the network device and the errors.
- `src/socket` holds the socket.
  - `model` defines `Tcb`, the transmission control block: what a socket knows of its connection,
    as mathematical values. The contracts of all functions speak of it.
  - `tcp` has the socket and the functions for its user, `process` what is done with packets that
    arrive, `dispatch` how packets to be sent are made, and `timer` and `state` what their names
    say.
  - `laws` proves what holds of connections as a whole: that what is read is what was written,
    how connections begin and end, and what happens as time passes.
- `app` has the formatting traits of the standard library for the socket and its state.
- `tests` runs the library.

## What is trusted

One operation of the standard library, indexing a vector by a range to get a mutable slice, has
a contract that is believed without proof (`range_mut` in `src/storage/ring_buffer.rs`).

## What is asked of callers

The fields of a socket are public. A socket that was made by `TcpSocket::new` and is only changed
through its functions satisfies the invariant that they ask for, `wf`. Beyond that, `process` asks
that a packet is meant for the socket, and both `process` and `dispatch` leave out a few situations,
most of which are limits of machine numbers. A caller that is not verified asks the socket first:
`TcpSocket::can_process` and `TcpSocket::can_dispatch` tell whether the call can be made.
