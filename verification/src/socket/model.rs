use vstd::math::min;
use vstd::prelude::*;

use crate::error::{Error, Result};
use crate::socket::state::State;
use crate::socket::timer::Timer;
use crate::storage::ring_buffer::{overwritten, Ring};
use crate::wire::ip::{IpAddress, IpEndpoint, IpRepr};
use crate::wire::tcp::{TcpControl, TcpSegment, TcpSeqNumber};

verus! {

/// The maximum segment size of a remote end that did not announce one.
pub const DEFAULT_MSS: usize = 536;

/// The largest receive buffer: the largest window that can be announced without scaling.
pub const MAX_RX_CAPACITY: usize = 65535;

/// A transmission control block: all that a socket knows about its connection.
///
/// The fields are those of [`TcpSocket`](crate::socket::TcpSocket), with the buffers taken as
/// what they hold, and the assembler as the map of the free part of the receive buffer.
#[verifier::ext_equal]
pub struct Tcb {
    pub debug_id: usize,
    pub state: State,
    pub timer: Timer,
    pub assembler: Seq<bool>,
    pub rx_buffer: Ring<u8>,
    pub tx_buffer: Ring<u8>,
    pub timeout: Option<u64>,
    pub keep_alive: Option<u64>,
    pub listen_address: IpAddress,
    pub local_endpoint: IpEndpoint,
    pub remote_endpoint: IpEndpoint,
    pub local_seq_no: TcpSeqNumber,
    pub remote_seq_no: TcpSeqNumber,
    pub remote_last_seq: TcpSeqNumber,
    pub remote_last_ack: Option<TcpSeqNumber>,
    pub remote_last_win: u16,
    pub remote_win_len: usize,
    pub remote_mss: usize,
    pub remote_last_ts: Option<u64>,
}

impl Tcb {
    /// The block of a socket that has no connection and never had one.
    pub open spec fn fresh(debug_id: usize, rx_buffer: Ring<u8>, tx_buffer: Ring<u8>) -> Tcb {
        Tcb {
            debug_id,
            state: State::Closed,
            timer: Timer::Idle { keep_alive_at: None },
            assembler: Seq::new(rx_buffer.capacity() as nat, |i: int| false),
            rx_buffer,
            tx_buffer,
            timeout: None,
            keep_alive: None,
            listen_address: IpAddress::Unspecified,
            local_endpoint: IpEndpoint::none(),
            remote_endpoint: IpEndpoint::none(),
            local_seq_no: TcpSeqNumber(0),
            remote_seq_no: TcpSeqNumber(0),
            remote_last_seq: TcpSeqNumber(0),
            remote_last_ack: None,
            remote_last_win: 0,
            remote_win_len: 0,
            remote_mss: DEFAULT_MSS,
            remote_last_ts: None,
        }
    }

    /// The invariant of the block: the receive buffer can be announced as a window, and the
    /// octets that arrived out of order are inside of its free part, past a hole.
    pub open spec fn wf(self) -> bool {
        &&& self.rx_buffer.wf()
        &&& self.tx_buffer.wf()
        &&& self.rx_buffer.capacity() <= MAX_RX_CAPACITY
        &&& self.assembler.len() == self.rx_buffer.capacity()
        &&& self.assembler.len() > 0 ==> !self.assembler[0]
        &&& forall|i: int|
            self.rx_buffer.free.len() <= i < self.assembler.len() ==> !#[trigger] self.assembler[i]
    }

    /// Whether the socket is open.
    pub open spec fn is_open(self) -> bool {
        self.state != State::Closed && self.state != State::TimeWait
    }

    /// Whether the socket exchanges packets with a remote endpoint.
    pub open spec fn is_active(self) -> bool {
        self.is_open() && self.state != State::Listen
    }

    /// Whether the transmit half of the connection is open.
    pub open spec fn may_send(self) -> bool {
        self.state == State::Established || self.state == State::CloseWait
    }

    /// Whether the receive half of the connection is open, or there is something left to read.
    pub open spec fn may_recv(self) -> bool {
        ||| self.state == State::Established
        ||| self.state == State::FinWait1
        ||| self.state == State::FinWait2
        ||| self.rx_buffer.contents.len() > 0
    }

    /// Forget the connection, and all settings but the debug identifier.
    pub open spec fn reset(self) -> Tcb {
        Tcb::fresh(self.debug_id, self.rx_buffer.cleared(), self.tx_buffer.cleared())
    }

    /// What a request to listen on an endpoint is answered.
    pub open spec fn listen_result(self, local: IpEndpoint) -> Result<()> {
        if local.port == 0 {
            Err(Error::Unaddressable)
        } else if self.is_open() {
            Err(Error::Illegal)
        } else {
            Ok(())
        }
    }

    /// The block of a socket that has started to listen on an endpoint.
    pub open spec fn listening(self, local: IpEndpoint) -> Tcb {
        Tcb {
            state: State::Listen,
            listen_address: local.addr,
            local_endpoint: local,
            ..self.reset()
        }
    }

    /// What a request to connect to an endpoint is answered.
    pub open spec fn connect_result(self, remote: IpEndpoint, local: IpEndpoint) -> Result<()> {
        if self.is_open() {
            Err(Error::Illegal)
        } else if !remote.specified() || local.port == 0 {
            Err(Error::Unaddressable)
        } else {
            Ok(())
        }
    }

    /// The block of a socket that has started to connect to an endpoint. The local address is
    /// left open; the local sequence number is carried over from the previous connection.
    pub open spec fn connecting(self, remote: IpEndpoint, local: IpEndpoint) -> Tcb {
        Tcb {
            state: State::SynSent,
            local_endpoint: IpEndpoint { addr: remote.addr.wildcard(), port: local.port },
            remote_endpoint: remote,
            local_seq_no: self.local_seq_no,
            remote_last_seq: self.local_seq_no,
            ..self.reset()
        }
    }

    /// The block after the transmit half of the connection was closed. In states where it
    /// is not open, or already closed, there is nothing to send a FIN for.
    pub open spec fn closing(self) -> Tcb {
        Tcb {
            state: match self.state {
                State::Listen | State::SynSent => State::Closed,
                State::SynReceived | State::Established => State::FinWait1,
                State::CloseWait => State::LastAck,
                state => state,
            },
            ..self
        }
    }

    /// The block after data was enqueued to be sent. If there was nothing to send before, the
    /// remote end is not to blame for its silence so far.
    pub open spec fn sending(self, data: Seq<u8>) -> Tcb {
        Tcb {
            tx_buffer: self.tx_buffer.appended(data),
            remote_last_ts: if self.tx_buffer.contents.len() == 0 {
                None
            } else {
                self.remote_last_ts
            },
            ..self
        }
    }

    /// How many of the given octets can be enqueued to be sent.
    pub open spec fn send_result(self, data: Seq<u8>) -> Result<usize> {
        if self.may_send() {
            Ok(min(self.tx_buffer.free.len() as int, data.len() as int) as usize)
        } else {
            Err(Error::Illegal)
        }
    }

    /// The block after octets were taken out of the receive buffer.
    pub open spec fn reading(self, count: int) -> Tcb {
        Tcb {
            rx_buffer: self.rx_buffer.dequeued(count),
            remote_seq_no: self.remote_seq_no.plus(count),
            ..self
        }
    }

    /// How many octets can be read into a slice of the given length.
    pub open spec fn read_result(self, len: int) -> Result<usize> {
        if self.may_recv() {
            Ok(min(self.rx_buffer.contents.len() as int, len) as usize)
        } else {
            Err(Error::Illegal)
        }
    }

    /// What a slice holds after octets were read into it.
    pub open spec fn read_into(self, data: Seq<u8>) -> Seq<u8> {
        if self.may_recv() {
            overwritten(data, 0, self.rx_buffer.contents)
        } else {
            data
        }
    }

    /// Whether a SYN was sent and is not acknowledged yet.
    pub open spec fn syn_pending(self) -> bool {
        self.state == State::SynSent || self.state == State::SynReceived
    }

    /// Whether a FIN was sent, or is about to be, and is not acknowledged yet.
    pub open spec fn fin_pending(self) -> bool {
        self.state == State::FinWait1 || self.state == State::LastAck || self.state
            == State::Closing
    }

    /// The length, in sequence space, of all that the remote end may still acknowledge: the
    /// transmit buffer, and the SYN or FIN flag that is pending.
    pub open spec fn unacknowledged(self) -> int {
        self.tx_buffer.contents.len() + if self.syn_pending() || self.fin_pending() {
            1int
        } else {
            0int
        }
    }

    /// The next sequence number expected from the remote end.
    pub open spec fn expected(self) -> TcpSeqNumber {
        self.remote_seq_no.plus(self.rx_buffer.contents.len() as int)
    }

    /// The window to announce.
    pub open spec fn window(self) -> u16 {
        self.rx_buffer.free.len() as u16
    }

    /// Whether a packet is meant for this socket.
    pub open spec fn accepts(self, ip: IpRepr, segment: TcpSegment) -> bool {
        &&& self.state != State::Closed
        // A packet with an acknowledgement is not meant for a listening socket, but for
        // another one on the same local endpoint.
        &&& self.state == State::Listen ==> segment.ack_number is None
        &&& self.local_endpoint.port == segment.dst_port
        &&& self.local_endpoint.addr.unspecified() || self.local_endpoint.addr == ip.dst()
        &&& self.remote_endpoint.port == 0 || self.remote_endpoint.port == segment.src_port
        &&& self.remote_endpoint.addr.unspecified() || self.remote_endpoint.addr == ip.src()
    }

    /// What remains to be sent, with the given flag at the end, in sequence space.
    pub open spec fn seq_to_transmit(self, control: TcpControl) -> bool {
        self.remote_last_seq.since(
            self.local_seq_no.plus(self.tx_buffer.contents.len() + control.space()),
        ) < 0
    }

    /// Whether something arrived that was not acknowledged yet.
    pub open spec fn ack_to_transmit(self) -> bool {
        match self.remote_last_ack {
            Some(remote_last_ack) => remote_last_ack.since(self.expected()) < 0,
            None => true,
        }
    }

    /// Whether the remote end has been silent for too long.
    pub open spec fn timed_out(self, now: u64) -> bool {
        match (self.remote_last_ts, self.timeout) {
            (Some(remote_last_ts), Some(timeout)) => now >= remote_last_ts + timeout,
            _ => false,
        }
    }

    /// The moment at which something has to be done, if there is one: when the timer says so,
    /// or else when the remote end has been silent for too long about data that is to be sent.
    pub open spec fn due_at(self) -> Option<u64> {
        match self.timer.due_at() {
            Some(at) => Some(at),
            None => match (self.remote_last_ts, self.timeout) {
                (Some(remote_last_ts), Some(timeout)) => if self.tx_buffer.contents.len() > 0 {
                    Some((remote_last_ts + timeout) as u64)
                } else {
                    None
                },
                (None, Some(_)) => Some(0),
                _ => None,
            },
        }
    }
}

} // verus!
