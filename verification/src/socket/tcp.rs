use vstd::prelude::*;
use vstd::string::StringSliceAdditionalSpecFns;

use crate::error::{Error, Result};
use crate::socket::model::{Tcb, DEFAULT_MSS, MAX_RX_CAPACITY};
use crate::socket::state::State;
use crate::socket::timer::{on_clock, Timer};
use crate::storage::assembler::Assembler;
use crate::storage::ring_buffer::RingBuffer;
use crate::wire::ip::{IpAddress, IpEndpoint, IpRepr};
use crate::wire::tcp::{TcpRepr, TcpSeqNumber};

verus! {

/// A buffer of octets that are to be sent, or that were received.
pub type SocketBuffer = RingBuffer<u8>;

/// A Transmission Control Protocol socket.
///
/// A TCP socket may passively listen for connections or actively connect to another endpoint.
/// Note that, for listening sockets, there is no "backlog"; to be able to simultaneously
/// accept several connections, as many sockets must be allocated, or any new connection
/// attempts will be reset.
#[derive(Debug)]
pub struct TcpSocket {
    pub debug_id: usize,
    pub state: State,
    pub timer: Timer,
    pub assembler: Assembler,
    pub rx_buffer: SocketBuffer,
    pub tx_buffer: SocketBuffer,
    /// Interval after which, if no inbound packets are received, the connection is aborted.
    pub timeout: Option<u64>,
    /// Interval at which keep-alive packets will be sent.
    pub keep_alive: Option<u64>,
    /// Address passed to listen(). Listen address is set when listen() is called and
    /// used every time the socket is reset back to the LISTEN state.
    pub listen_address: IpAddress,
    /// Current local endpoint. This is used for both filtering the incoming packets and
    /// setting the source address. When listening or initiating connection on/from
    /// an unspecified address, this field is updated with the chosen source address before
    /// any packets are sent.
    pub local_endpoint: IpEndpoint,
    /// Current remote endpoint. This is used for both filtering the incoming packets and
    /// setting the destination address. If the remote endpoint is unspecified, it means that
    /// aborting the connection will not send an RST, and, in TIME-WAIT state, will not
    /// send an ACK.
    pub remote_endpoint: IpEndpoint,
    /// The sequence number corresponding to the beginning of the transmit buffer.
    /// I.e. an ACK(local_seq_no+n) packet removes n bytes from the transmit buffer.
    pub local_seq_no: TcpSeqNumber,
    /// The sequence number corresponding to the beginning of the receive buffer.
    /// I.e. userspace reading n bytes adds n to remote_seq_no.
    pub remote_seq_no: TcpSeqNumber,
    /// The last sequence number sent.
    /// I.e. in an idle socket, local_seq_no+tx_buffer.len().
    pub remote_last_seq: TcpSeqNumber,
    /// The last acknowledgement number sent.
    /// I.e. in an idle socket, remote_seq_no+rx_buffer.len().
    pub remote_last_ack: Option<TcpSeqNumber>,
    /// The last window length sent.
    pub remote_last_win: u16,
    /// The last window length that the remote side announced.
    pub remote_win_len: usize,
    /// The maximum number of data octets that the remote side may receive.
    pub remote_mss: usize,
    /// The timestamp of the last packet received.
    pub remote_last_ts: Option<u64>,
}

impl View for TcpSocket {
    type V = Tcb;

    open spec fn view(&self) -> Tcb {
        Tcb {
            debug_id: self.debug_id,
            state: self.state,
            timer: self.timer,
            assembler: self.assembler@,
            rx_buffer: self.rx_buffer@,
            tx_buffer: self.tx_buffer@,
            timeout: self.timeout,
            keep_alive: self.keep_alive,
            listen_address: self.listen_address,
            local_endpoint: self.local_endpoint,
            remote_endpoint: self.remote_endpoint,
            local_seq_no: self.local_seq_no,
            remote_seq_no: self.remote_seq_no,
            remote_last_seq: self.remote_last_seq,
            remote_last_ack: self.remote_last_ack,
            remote_last_win: self.remote_last_win,
            remote_win_len: self.remote_win_len,
            remote_mss: self.remote_mss,
            remote_last_ts: self.remote_last_ts,
        }
    }
}

impl TcpSocket {
    /// The invariant of the socket.
    pub open spec fn wf(&self) -> bool {
        &&& self.rx_buffer.wf()
        &&& self.tx_buffer.wf()
        &&& self.assembler.wf()
        &&& self@.wf()
    }

    /// Create a socket using the given buffers.
    pub fn new(rx_buffer: SocketBuffer, tx_buffer: SocketBuffer) -> (socket: TcpSocket)
        requires
            rx_buffer.wf(),
            tx_buffer.wf(),
            rx_buffer@.capacity() <= MAX_RX_CAPACITY,
        ensures
            socket.wf(),
            socket@ == Tcb::fresh(0, rx_buffer@, tx_buffer@),
    {
        proof {
            rx_buffer.lemma_wf();
            tx_buffer.lemma_wf();
        }
        TcpSocket {
            debug_id: 0,
            state: State::Closed,
            timer: Timer::default(),
            assembler: Assembler::new(rx_buffer.capacity()),
            tx_buffer,
            rx_buffer,
            timeout: None,
            keep_alive: None,
            listen_address: IpAddress::default(),
            local_endpoint: IpEndpoint::default(),
            remote_endpoint: IpEndpoint::default(),
            local_seq_no: TcpSeqNumber::default(),
            remote_seq_no: TcpSeqNumber::default(),
            remote_last_seq: TcpSeqNumber::default(),
            remote_last_ack: None,
            remote_last_win: 0,
            remote_win_len: 0,
            remote_mss: DEFAULT_MSS,
            remote_last_ts: None,
        }
    }

    /// Forget the connection, and all settings but the debug identifier.
    pub(crate) fn reset(&mut self)
        requires
            old(self).wf(),
        ensures
            final(self).wf(),
            final(self)@ == old(self)@.reset(),
    {
        self.state = State::Closed;
        self.timer = Timer::default();
        self.assembler = Assembler::new(self.rx_buffer.capacity());
        self.tx_buffer.clear();
        self.rx_buffer.clear();
        self.keep_alive = None;
        self.timeout = None;
        self.listen_address = IpAddress::default();
        self.local_endpoint = IpEndpoint::default();
        self.remote_endpoint = IpEndpoint::default();
        self.local_seq_no = TcpSeqNumber::default();
        self.remote_seq_no = TcpSeqNumber::default();
        self.remote_last_seq = TcpSeqNumber::default();
        self.remote_last_ack = None;
        self.remote_last_win = 0;
        self.remote_win_len = 0;
        self.remote_mss = DEFAULT_MSS;
        self.remote_last_ts = None;
    }

    /// Return whether a packet is meant for this socket.
    pub fn accepts(&self, ip_repr: &IpRepr, repr: &TcpRepr) -> (yes: bool)
        ensures
            yes == self@.accepts(*ip_repr, repr@),
    {
        if self.state == State::Closed {
            return false;
        }
        // If we're still listening for SYNs and the packet has an ACK, it cannot
        // be destined to this socket, but another one may well listen on the same
        // local endpoint.
        if self.state == State::Listen && repr.ack_number.is_some() {
            return false;
        }
        // Reject packets with a wrong destination.
        if self.local_endpoint.port != repr.dst_port {
            return false;
        }
        if !self.local_endpoint.addr.is_unspecified() && self.local_endpoint.addr
            != ip_repr.dst_addr() {
            return false;
        }
        // Reject packets from a source to which we aren't connected.
        if self.remote_endpoint.port != 0 && self.remote_endpoint.port != repr.src_port {
            return false;
        }
        if !self.remote_endpoint.addr.is_unspecified() && self.remote_endpoint.addr
            != ip_repr.src_addr() {
            return false;
        }
        true
    }

    /// Start listening on the given endpoint.
    ///
    /// This function returns `Err(Error::Illegal)` if the socket was already open
    /// (see [is_open](#method.is_open)), and `Err(Error::Unaddressable)`
    /// if the port in the given endpoint is zero.
    pub fn listen<T>(&mut self, local_endpoint: T) -> (result: Result<()>) where
        T: Into<IpEndpoint>,

        requires
            old(self).wf(),
        ensures
            final(self).wf(),
            exists|local: IpEndpoint|
                {
                    &&& #[trigger] call_ensures(T::into, (local_endpoint,), local)
                    &&& result == old(self)@.listen_result(local)
                    &&& final(self)@ == if result is Ok {
                        old(self)@.listening(local)
                    } else {
                        old(self)@
                    }
                },
    {
        let local = local_endpoint.into();
        assert(call_ensures(T::into, (local_endpoint,), local));
        self.listen_on(local)
    }

    /// Start listening on the given endpoint. This is [listen](#method.listen) without
    /// the conversion.
    pub fn listen_on(&mut self, local_endpoint: IpEndpoint) -> (result: Result<()>)
        requires
            old(self).wf(),
        ensures
            final(self).wf(),
            result == old(self)@.listen_result(local_endpoint),
            final(self)@ == if result is Ok {
                old(self)@.listening(local_endpoint)
            } else {
                old(self)@
            },
    {
        if local_endpoint.port == 0 {
            return Err(Error::Unaddressable);
        }
        if self.is_open() {
            return Err(Error::Illegal);
        }
        self.reset();
        self.listen_address = local_endpoint.addr;
        self.local_endpoint = local_endpoint;
        self.remote_endpoint = IpEndpoint::default();
        self.state = State::Listen;
        Ok(())
    }

    /// Connect to a given endpoint.
    ///
    /// The local port must be provided explicitly. Assuming `fn get_ephemeral_port() -> u16`
    /// allocates a port between 49152 and 65535, a connection may be established as follows:
    ///
    /// ```rust,ignore
    /// socket.connect((IpAddress::v4(10, 0, 0, 1), 80), get_ephemeral_port())
    /// ```
    ///
    /// A local address may be provided, but does not bind the connection to it: the address on
    /// which the remote end answers is chosen.
    ///
    /// This function returns an error if the socket was open; see [is_open](#method.is_open).
    /// It also returns an error if the local or remote port is zero, or if the remote address
    /// is unspecified.
    pub fn connect<T, U>(&mut self, remote_endpoint: T, local_endpoint: U) -> (result: Result<
        (),
    >) where T: Into<IpEndpoint>, U: Into<IpEndpoint>
        requires
            old(self).wf(),
        ensures
            final(self).wf(),
            exists|remote: IpEndpoint, local: IpEndpoint|
                {
                    &&& #[trigger] call_ensures(T::into, (remote_endpoint,), remote)
                    &&& #[trigger] call_ensures(U::into, (local_endpoint,), local)
                    &&& result == old(self)@.connect_result(remote, local)
                    &&& final(self)@ == if result is Ok {
                        old(self)@.connecting(remote, local)
                    } else {
                        old(self)@
                    }
                },
    {
        let remote = remote_endpoint.into();
        let local = local_endpoint.into();
        assert(call_ensures(T::into, (remote_endpoint,), remote));
        assert(call_ensures(U::into, (local_endpoint,), local));
        self.connect_to(remote, local)
    }

    /// Connect to a given endpoint. This is [connect](#method.connect) without the conversions.
    pub fn connect_to(
        &mut self,
        remote_endpoint: IpEndpoint,
        local_endpoint: IpEndpoint,
    ) -> (result: Result<()>)
        requires
            old(self).wf(),
        ensures
            final(self).wf(),
            result == old(self)@.connect_result(remote_endpoint, local_endpoint),
            final(self)@ == if result is Ok {
                old(self)@.connecting(remote_endpoint, local_endpoint)
            } else {
                old(self)@
            },
    {
        if self.is_open() {
            return Err(Error::Illegal);
        }
        if !remote_endpoint.is_specified() {
            return Err(Error::Unaddressable);
        }
        if local_endpoint.port == 0 {
            return Err(Error::Unaddressable);
        }
        // Use an unspecified address but a specified protocol.
        // This lets us lower IpRepr later to determine IP header size and calculate MSS,
        // but without committing to a specific address right away.
        let local_addr = remote_endpoint.addr.to_unspecified();
        // Carry over the local sequence number.
        let local_seq_no = self.local_seq_no;
        self.reset();
        self.local_endpoint = IpEndpoint { addr: local_addr, port: local_endpoint.port };
        self.remote_endpoint = remote_endpoint;
        self.local_seq_no = local_seq_no;
        self.remote_last_seq = local_seq_no;
        self.state = State::SynSent;
        Ok(())
    }

    /// Return whether the socket is open.
    ///
    /// This function returns true if the socket will process incoming or dispatch outgoing
    /// packets. Note that this does not mean that it is possible to send or receive data through
    /// the socket; for that, use [can_send](#method.can_send) or [can_recv](#method.can_recv).
    ///
    /// In terms of the TCP state machine, the socket must not be in the `CLOSED` or `TIME-WAIT`
    /// state.
    pub fn is_open(&self) -> (yes: bool)
        ensures
            yes == self@.is_open(),
    {
        match self.state {
            State::Closed => false,
            State::TimeWait => false,
            _ => true,
        }
    }

    /// Close the transmit half of the full-duplex connection.
    ///
    /// Note that there is no corresponding function for the receive half of the full-duplex
    /// connection; only the remote end can close it. If you no longer wish to receive any
    /// data and would like to reuse the socket right away, use [abort](#method.abort).
    pub fn close(&mut self)
        requires
            old(self).wf(),
        ensures
            final(self).wf(),
            final(self)@ == old(self)@.closing(),
    {
        match self.state {
            // In the LISTEN state there is no established connection.
            State::Listen => {
                self.state = State::Closed;
            },
            // In the SYN-SENT state the remote endpoint is not yet synchronized and, upon
            // receiving an RST, will abort the connection.
            State::SynSent => {
                self.state = State::Closed;
            },
            // In the SYN-RECEIVED, ESTABLISHED and CLOSE-WAIT states the transmit half
            // of the connection is open, and needs to be explicitly closed with a FIN.
            State::SynReceived | State::Established => {
                self.state = State::FinWait1;
            },
            State::CloseWait => {
                self.state = State::LastAck;
            },
            // In the FIN-WAIT-1, FIN-WAIT-2, CLOSING, LAST-ACK, TIME-WAIT and CLOSED states,
            // the transmit half of the connection is already closed, and no further
            // action is needed.
            State::FinWait1 | State::FinWait2 | State::Closing | State::TimeWait | State::LastAck
            | State::Closed => {},
        }
    }

    /// Aborts the connection, if any.
    ///
    /// This function instantly closes the socket. One reset packet will be sent to the remote
    /// endpoint.
    ///
    /// In terms of the TCP state machine, the socket may be in any state and is moved to
    /// the `CLOSED` state.
    pub fn abort(&mut self)
        requires
            old(self).wf(),
        ensures
            final(self).wf(),
            final(self)@ == (Tcb { state: State::Closed, ..old(self)@ }),
    {
        self.state = State::Closed;
    }

    /// Return whether the transmit half of the full-duplex connection is open.
    ///
    /// This function returns true if it's possible to send data and have it arrive
    /// to the remote endpoint. However, it does not make any guarantees about the state
    /// of the transmit buffer, and even if it returns true, [send](#method.send) may
    /// not be able to enqueue any octets.
    ///
    /// In terms of the TCP state machine, the socket must be in the `ESTABLISHED` or
    /// `CLOSE-WAIT` state.
    pub fn may_send(&self) -> (yes: bool)
        ensures
            yes == self@.may_send(),
    {
        match self.state {
            State::Established => true,
            // In CLOSE-WAIT, the remote endpoint has closed our receive half of the connection
            // but we still can transmit indefinitely.
            State::CloseWait => true,
            _ => false,
        }
    }

    /// Return whether the receive half of the full-duplex connection is open.
    ///
    /// This function returns true if it's possible to receive data from the remote endpoint.
    /// It will return true while there is data in the receive buffer, and if there isn't,
    /// as long as the remote endpoint has not closed the connection.
    ///
    /// In terms of the TCP state machine, the socket must be in the `ESTABLISHED`,
    /// `FIN-WAIT-1`, or `FIN-WAIT-2` state, or have data in the receive buffer instead.
    pub fn may_recv(&self) -> (yes: bool)
        requires
            self.wf(),
        ensures
            yes == self@.may_recv(),
    {
        match self.state {
            State::Established => true,
            // In FIN-WAIT-1/2, we have closed our transmit half of the connection but
            // we still can receive indefinitely.
            State::FinWait1 | State::FinWait2 => true,
            // If we have something in the receive buffer, we can receive that.
            _ => self.rx_buffer.len() > 0,
        }
    }

    /// Enqueue a sequence of octets to be sent, and return a pointer to it.
    ///
    /// This function may return a slice smaller than the requested size in case
    /// there is not enough contiguous free space in the transmit buffer, down to
    /// an empty slice.
    ///
    /// This function returns `Err(Error::Illegal)` if the transmit half of
    /// the connection is not open; see [may_send](#method.may_send).
    pub fn send(&mut self, size: usize) -> (result: Result<&mut [u8]>)
        requires
            old(self).wf(),
        ensures
            result is Ok <==> old(self)@.may_send(),
            result is Err ==> result->Err_0 == Error::Illegal && *final(self) == *old(self),
            result is Ok ==> {
                let len = old(self)@.tx_buffer.free_piece_len(size as int);
                &&& result->Ok_0@ == old(self)@.tx_buffer.free.take(len)
                &&& final(result->Ok_0)@.len() == len
                &&& final(self).wf()
                &&& final(self)@ == old(self)@.sending(final(result->Ok_0)@)
            },
    {
        if !self.may_send() {
            return Err(Error::Illegal);
        }
        // The connection might have been idle for a long time, and so remote_last_ts
        // would be far in the past. Unless we clear it here, we'll abort the connection
        // down over in dispatch() by erroneously detecting it as timed out.
        if self.tx_buffer.is_empty() {
            self.remote_last_ts = None;
        }
        Ok(self.tx_buffer.enqueue_many(size))
    }

    /// Enqueue a sequence of octets to be sent, and fill it from a slice.
    ///
    /// This function returns the amount of bytes actually enqueued, which is limited
    /// by the amount of free space in the transmit buffer; down to zero.
    ///
    /// See also [send](#method.send).
    pub fn send_slice(&mut self, data: &[u8]) -> (result: Result<usize>)
        requires
            old(self).wf(),
        ensures
            final(self).wf(),
            result == old(self)@.send_result(data@),
            final(self)@ == if result is Ok {
                old(self)@.sending(data@.take(result->Ok_0 as int))
            } else {
                old(self)@
            },
    {
        if !self.may_send() {
            return Err(Error::Illegal);
        }
        // See above.
        if self.tx_buffer.is_empty() {
            self.remote_last_ts = None;
        }
        let enqueued: usize = self.tx_buffer.enqueue_slice(data);
        proof {
            self.tx_buffer.lemma_wf();
        }
        Ok(enqueued)
    }

    /// Dequeue a sequence of received octets, and return a pointer to it.
    ///
    /// This function may return a slice smaller than the requested size in case
    /// there are not enough octets queued in the receive buffer, down to
    /// an empty slice.
    ///
    /// This function returns `Err(Error::Illegal)` if the receive half of
    /// the connection is not open; see [may_recv](#method.may_recv).
    pub fn recv(&mut self, size: usize) -> (result: Result<&[u8]>)
        requires
            old(self).wf(),
        ensures
            final(self).wf(),
            match result {
                Ok(slice) => {
                    &&& old(self)@.may_recv()
                    &&& slice@ == old(self)@.rx_buffer.piece(0, size as int)
                    &&& final(self)@ == old(self)@.reading(slice@.len() as int)
                },
                Err(error) => {
                    &&& !old(self)@.may_recv()
                    &&& error == Error::Illegal
                    &&& final(self)@ == old(self)@
                },
            },
    {
        // We may have received some data inside the initial SYN, but until the connection
        // is fully open we must not dequeue any data, as it may be overwritten by e.g.
        // another (stale) SYN.
        if !self.may_recv() {
            return Err(Error::Illegal);
        }
        let slice = self.rx_buffer.dequeue_many(size);
        self.remote_seq_no = self.remote_seq_no + slice.len();
        Ok(slice)
    }

    /// Dequeue a sequence of received octets, and fill a slice from it.
    ///
    /// This function returns the amount of bytes actually dequeued, which is limited
    /// by the amount of octets queued in the receive buffer; down to zero.
    ///
    /// See also [recv](#method.recv).
    pub fn recv_slice(&mut self, data: &mut [u8]) -> (result: Result<usize>)
        requires
            old(self).wf(),
        ensures
            final(self).wf(),
            result == old(self)@.read_result(old(data)@.len() as int),
            final(data)@ == old(self)@.read_into(old(data)@),
            final(self)@ == if result is Ok {
                old(self)@.reading(result->Ok_0 as int)
            } else {
                old(self)@
            },
    {
        // See recv() above.
        if !self.may_recv() {
            return Err(Error::Illegal);
        }
        let dequeued: usize = self.rx_buffer.dequeue_slice(data);
        self.remote_seq_no = self.remote_seq_no + dequeued;
        proof {
            self.rx_buffer.lemma_wf();
        }
        Ok(dequeued)
    }

    /// Peek at a sequence of received octets without removing them from
    /// the receive buffer, and return a pointer to it.
    ///
    /// This function otherwise behaves identically to [recv](#method.recv).
    pub fn peek(&mut self, size: usize) -> (result: Result<&[u8]>)
        requires
            old(self).wf(),
        ensures
            *final(self) == *old(self),
            match result {
                Ok(slice) => {
                    &&& old(self)@.may_recv()
                    &&& slice@ == old(self)@.rx_buffer.piece(0, size as int)
                },
                Err(error) => {
                    &&& !old(self)@.may_recv()
                    &&& error == Error::Illegal
                },
            },
    {
        // See recv() above.
        if !self.may_recv() {
            return Err(Error::Illegal);
        }
        Ok(self.rx_buffer.get_allocated(0, size))
    }

    /// Peek at a sequence of received octets without removing them from
    /// the receive buffer, and fill a slice from it.
    ///
    /// This function otherwise behaves identically to [recv_slice](#method.recv_slice).
    pub fn peek_slice(&mut self, data: &mut [u8]) -> (result: Result<usize>)
        requires
            old(self).wf(),
        ensures
            *final(self) == *old(self),
            result == old(self)@.read_result(old(data)@.len() as int),
            final(data)@ == old(self)@.read_into(old(data)@),
    {
        // See recv() above.
        if !self.may_recv() {
            return Err(Error::Illegal);
        }
        Ok(self.rx_buffer.copy_front(data))
    }

    /// Return the debug identifier.
    pub fn debug_id(&self) -> (id: usize)
        ensures
            id == self@.debug_id,
    {
        self.debug_id
    }

    /// Set the debug identifier.
    ///
    /// The debug identifier is a number that tells sockets apart. It is of no significance to
    /// the socket itself and can be used by the user code.
    pub fn set_debug_id(&mut self, id: usize)
        requires
            old(self).wf(),
        ensures
            final(self).wf(),
            final(self)@ == (Tcb { debug_id: id, ..old(self)@ }),
    {
        self.debug_id = id;
    }

    /// Return the timeout duration.
    ///
    /// See also the [set_timeout](#method.set_timeout) method.
    pub fn timeout(&self) -> (duration: Option<u64>)
        ensures
            duration == self@.timeout,
    {
        self.timeout
    }

    /// Set the timeout duration.
    ///
    /// A socket with a timeout duration set will abort the connection if either of the following
    /// occurs:
    ///
    ///   * After a [connect](#method.connect) call, the remote endpoint does not respond within
    ///     the specified duration;
    ///   * After establishing a connection, there is data in the transmit buffer and the remote
    ///     endpoint exceeds the specified duration between any two packets it sends;
    ///   * After enabling [keep-alive](#method.set_keep_alive), the remote endpoint exceeds
    ///     the specified duration between any two packets it sends.
    pub fn set_timeout(&mut self, duration: Option<u64>)
        requires
            old(self).wf(),
        ensures
            final(self).wf(),
            final(self)@ == (Tcb { timeout: duration, ..old(self)@ }),
    {
        self.timeout = duration;
    }

    /// Return the keep-alive interval.
    ///
    /// See also the [set_keep_alive](#method.set_keep_alive) method.
    pub fn keep_alive(&self) -> (interval: Option<u64>)
        ensures
            interval == self@.keep_alive,
    {
        self.keep_alive
    }

    /// Set the keep-alive interval.
    ///
    /// An idle socket with a keep-alive interval set will transmit a "challenge ACK" packet
    /// every time it receives no communication during that interval. As a result, three things
    /// may happen:
    ///
    ///   * The remote endpoint is fine and answers with an ACK packet.
    ///   * The remote endpoint has rebooted and answers with an RST packet.
    ///   * The remote endpoint has crashed and does not answer.
    ///
    /// The keep-alive functionality together with the timeout functionality allows to react
    /// to these error conditions.
    pub fn set_keep_alive(&mut self, interval: Option<u64>)
        requires
            old(self).wf(),
        ensures
            final(self).wf(),
            final(self)@ == (Tcb {
                keep_alive: interval,
                timer: if interval is Some {
                    old(self)@.timer.keeping_alive()
                } else {
                    old(self)@.timer
                },
                ..old(self)@
            }),
    {
        self.keep_alive = interval;
        if self.keep_alive.is_some() {
            // If the connection is idle and we've just set the option, it would not take effect
            // until the next packet, unless we wind up the timer explicitly.
            self.timer.set_keep_alive();
        }
    }

    /// Return the local endpoint.
    pub fn local_endpoint(&self) -> (endpoint: IpEndpoint)
        ensures
            endpoint == self@.local_endpoint,
    {
        self.local_endpoint
    }

    /// Return the remote endpoint.
    pub fn remote_endpoint(&self) -> (endpoint: IpEndpoint)
        ensures
            endpoint == self@.remote_endpoint,
    {
        self.remote_endpoint
    }

    /// Return the connection state, in terms of the TCP state machine.
    pub fn state(&self) -> (state: State)
        ensures
            state == self@.state,
    {
        self.state
    }

    /// Return whether the socket is passively listening for incoming connections.
    ///
    /// In terms of the TCP state machine, the socket must be in the `LISTEN` state.
    pub fn is_listening(&self) -> (yes: bool)
        ensures
            yes == (self@.state == State::Listen),
    {
        match self.state {
            State::Listen => true,
            _ => false,
        }
    }

    /// Return whether a connection is active.
    ///
    /// This function returns true if the socket is actively exchanging packets with
    /// a remote endpoint. Note that this does not mean that it is possible to send or receive
    /// data through the socket; for that, use [can_send](#method.can_send) or
    /// [can_recv](#method.can_recv).
    ///
    /// If a connection is established, [abort](#method.close) will send a reset to
    /// the remote endpoint.
    ///
    /// In terms of the TCP state machine, the socket must not be in the `CLOSED`, `TIME-WAIT`,
    /// or `LISTEN` state.
    pub fn is_active(&self) -> (yes: bool)
        ensures
            yes == self@.is_active(),
    {
        match self.state {
            State::Closed => false,
            State::TimeWait => false,
            State::Listen => false,
            _ => true,
        }
    }

    /// Check whether the transmit half of the full-duplex connection is open
    /// (see [may_send](#method.may_send)), and the transmit buffer is not full.
    pub fn can_send(&self) -> (yes: bool)
        requires
            self.wf(),
        ensures
            yes == (self@.may_send() && self@.tx_buffer.free.len() > 0),
    {
        if !self.may_send() {
            return false;
        }
        !self.tx_buffer.is_full()
    }

    /// Check whether the receive half of the full-duplex connection buffer is open
    /// (see [may_recv](#method.may_recv)), and the receive buffer is not empty.
    pub fn can_recv(&self) -> (yes: bool)
        requires
            self.wf(),
        ensures
            yes == (self@.may_recv() && self@.rx_buffer.contents.len() > 0),
    {
        if !self.may_recv() {
            return false;
        }
        !self.rx_buffer.is_empty()
    }

    /// Return the amount of octets queued in the transmit buffer.
    ///
    /// Note that the Berkeley sockets interface does not have an equivalent of this API.
    pub fn send_queue(&self) -> (len: usize)
        requires
            self.wf(),
        ensures
            len == self@.tx_buffer.contents.len(),
    {
        self.tx_buffer.len()
    }

    /// Return the amount of octets queued in the receive buffer.
    ///
    /// Note that the Berkeley sockets interface does not have an equivalent of this API.
    pub fn recv_queue(&self) -> (len: usize)
        requires
            self.wf(),
        ensures
            len == self@.rx_buffer.contents.len(),
    {
        self.rx_buffer.len()
    }

    /// Return the moment at which [dispatch](#method.dispatch) should be called at the latest,
    /// even if nothing happens until then.
    pub fn poll_at(&self) -> (at: Option<u64>)
        requires
            self.wf(),
            self.remote_last_ts matches Some(remote_last_ts) ==> (self@.timer.due_at() is None
                && self@.tx_buffer.contents.len() > 0 ==> on_clock(remote_last_ts, self.timeout)),
        ensures
            at == self@.due_at(),
    {
        match self.timer.poll_at() {
            Some(at) => Some(at),
            None => match (self.remote_last_ts, self.timeout) {
                (Some(remote_last_ts), Some(timeout)) => if !self.tx_buffer.is_empty() {
                    Some(remote_last_ts + timeout)
                } else {
                    None
                },
                (None, Some(_)) => Some(0),
                _ => None,
            },
        }
    }

    /// Enqueue a string to be sent.
    ///
    /// This function returns an error if not all of the string could be enqueued; what there
    /// was room for is enqueued nevertheless.
    pub fn write_str(&mut self, slice: &str) -> (result: core::result::Result<(), ()>)
        requires
            old(self).wf(),
        ensures
            final(self).wf(),
            result is Ok <==> old(self)@.may_send() && slice.spec_bytes().len() <= old(
                self,
            )@.tx_buffer.free.len(),
            final(self)@ == match old(self)@.send_result(slice.spec_bytes()) {
                Ok(enqueued) => old(self)@.sending(slice.spec_bytes().take(enqueued as int)),
                Err(_) => old(self)@,
            },
    {
        let slice = slice.as_bytes();
        match self.send_slice(slice) {
            Ok(enqueued) => if enqueued == slice.len() {
                Ok(())
            } else {
                Err(())
            },
            Err(_) => Err(()),
        }
    }
}

} // verus!
