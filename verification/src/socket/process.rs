use vstd::prelude::*;

use crate::error::{Error, Result};
use crate::socket::model::Tcb;
use crate::socket::state::State;
use crate::socket::tcp::TcpSocket;
use crate::socket::timer::{fits_clock, on_clock, Timer, CLOSE_DELAY};
use crate::storage::assembler::{
    advanced, front, lemma_front, marked, pieces, vacant, MAX_PIECES,
};
use crate::wire::ip::{IpEndpoint, IpProtocol, IpRepr};
use crate::wire::tcp::{TcpControl, TcpRepr, TcpSegment, TcpSeqNumber, TCP_HEADER_LEN};

verus! {

/// A packet: an IP header and a segment.
pub type Packet = (IpRepr, TcpSegment);

/// The packet back to where a packet came from, with nothing in it yet.
pub open spec fn reply_to(ip: IpRepr, segment: TcpSegment) -> Packet {
    (
        IpRepr::Unspecified {
            src_addr: ip.dst(),
            dst_addr: ip.src(),
            protocol: IpProtocol::Tcp,
            payload_len: TCP_HEADER_LEN,
        },
        TcpSegment {
            src_port: segment.dst_port,
            dst_port: segment.src_port,
            control: TcpControl::Plain,
            seq_number: TcpSeqNumber(0),
            ack_number: None,
            window_len: 0,
            max_seg_size: None,
            payload: Seq::empty(),
        },
    )
}

/// The reset that answers a packet for which there is no socket. A SYN is also acknowledged,
/// since its sender would not take the reset otherwise.
pub open spec fn rst_reply_to(ip: IpRepr, segment: TcpSegment) -> Packet {
    let (ip_reply, reply) = reply_to(ip, segment);
    (
        ip_reply,
        TcpSegment {
            control: TcpControl::Rst,
            seq_number: match segment.ack_number {
                Some(ack_number) => ack_number,
                None => TcpSeqNumber(0),
            },
            ack_number: if segment.control == TcpControl::Syn {
                Some(segment.seq_number.plus(segment.space()))
            } else {
                None
            },
            ..reply
        },
    )
}

/// What is to be done about a segment, going by its acknowledgement.
pub enum AckVerdict {
    Accept,
    Drop,
    Challenge,
}

impl Tcb {
    /// The acknowledgement that tells the sender of a packet where the connection stands.
    pub open spec fn ack_reply_to(self, ip: IpRepr, segment: TcpSegment) -> Packet {
        let (ip_reply, reply) = reply_to(ip, segment);
        (
            ip_reply,
            TcpSegment {
                seq_number: self.remote_last_seq,
                ack_number: self.remote_last_ack,
                window_len: self.window(),
                ..reply
            },
        )
    }

    /// How far an acknowledgement number lies past the beginning of the transmit buffer.
    pub open spec fn ack_distance(self, ack_number: TcpSeqNumber) -> int {
        ack_number.since(self.local_seq_no)
    }

    /// Whether the acknowledgement of a segment, or the lack of one, is acceptable.
    ///
    /// All segments but the initial SYN have to carry an acknowledgement. It is dropped if it
    /// acknowledges less than was acknowledged before, and challenged if it acknowledges more
    /// than there is: the whole transmit buffer, whether it was sent yet or not, and the SYN or
    /// FIN that is pending. A reset need not acknowledge anything, except that one that answers
    /// the initial SYN has to acknowledge it.
    pub open spec fn ack_verdict(self, segment: TcpSegment) -> AckVerdict {
        if segment.control == TcpControl::Rst {
            if self.state == State::SynSent && segment.ack_number != Some(
                self.local_seq_no.plus(1),
            ) {
                AckVerdict::Drop
            } else {
                AckVerdict::Accept
            }
        } else {
            match segment.ack_number {
                None => if self.state == State::Listen {
                    AckVerdict::Accept
                } else {
                    AckVerdict::Drop
                },
                Some(ack_number) => if self.ack_distance(ack_number) < 0 {
                    AckVerdict::Drop
                } else if self.ack_distance(ack_number) > self.unacknowledged() {
                    AckVerdict::Challenge
                } else {
                    AckVerdict::Accept
                },
            }
        }
    }

    /// Whether the sequence numbers of the remote end are known.
    pub open spec fn synchronized(self) -> bool {
        self.state != State::Listen && self.state != State::SynSent
    }

    /// Where in the receive window a segment starts. The initial SYN defines the window.
    pub open spec fn offset(self, segment: TcpSegment) -> int {
        if self.synchronized() {
            segment.seq_number.since(self.expected())
        } else {
            0
        }
    }

    /// Whether a segment lies inside of the receive window.
    pub open spec fn in_window(self, segment: TcpSegment) -> bool {
        self.synchronized() ==> 0 <= self.offset(segment) && self.offset(segment) + segment.space()
            <= self.rx_buffer.free.len()
    }

    /// Whether a segment acknowledges the FIN.
    pub open spec fn acks_fin(self, segment: TcpSegment) -> bool {
        match segment.ack_number {
            Some(ack_number) => self.fin_pending() && self.ack_distance(ack_number)
                == self.tx_buffer.contents.len() + 1,
            None => false,
        }
    }

    /// How many octets of the transmit buffer a segment acknowledges: as many as its
    /// acknowledgement number says, except for the SYN and FIN flags.
    pub open spec fn acked_octets(self, segment: TcpSegment) -> int {
        match segment.ack_number {
            Some(ack_number) => self.ack_distance(ack_number) - if self.syn_pending()
                || self.acks_fin(segment) {
                1int
            } else {
                0int
            },
            None => 0,
        }
    }

    /// The state to which an acceptable segment other than a reset takes the connection, if it
    /// is expected in the current state.
    pub open spec fn next_state(self, segment: TcpSegment) -> Option<State> {
        match (self.state, segment.control.quashed()) {
            (State::Listen, TcpControl::Syn) => Some(State::SynReceived),
            (State::SynSent, TcpControl::Syn) => Some(State::Established),
            (State::SynReceived, TcpControl::Plain) => Some(State::Established),
            (State::SynReceived, TcpControl::Fin) => Some(State::CloseWait),
            (State::Established, TcpControl::Plain) => Some(State::Established),
            (State::Established, TcpControl::Fin) => Some(State::CloseWait),
            (State::FinWait1, TcpControl::Plain) => Some(
                if self.acks_fin(segment) {
                    State::FinWait2
                } else {
                    State::FinWait1
                },
            ),
            (State::FinWait1, TcpControl::Fin) => Some(
                if self.acks_fin(segment) {
                    State::TimeWait
                } else {
                    State::Closing
                },
            ),
            (State::FinWait2, TcpControl::Plain) => Some(State::FinWait2),
            (State::FinWait2, TcpControl::Fin) => Some(State::TimeWait),
            (State::Closing, TcpControl::Plain) => Some(
                if self.acks_fin(segment) {
                    State::TimeWait
                } else {
                    State::Closing
                },
            ),
            (State::CloseWait, TcpControl::Plain) => Some(State::CloseWait),
            (State::LastAck, TcpControl::Plain) => Some(State::Closed),
            _ => None,
        }
    }

    /// The block after a reset that was not dropped: back to listening if the connection was
    /// not established yet, and closed otherwise.
    pub open spec fn after_rst(self) -> Tcb {
        if self.state == State::SynReceived {
            Tcb {
                state: State::Listen,
                local_endpoint: IpEndpoint {
                    addr: self.listen_address,
                    port: self.local_endpoint.port,
                },
                remote_endpoint: IpEndpoint::none(),
                ..self
            }
        } else {
            Tcb {
                state: State::Closed,
                local_endpoint: IpEndpoint::none(),
                remote_endpoint: IpEndpoint::none(),
                ..self
            }
        }
    }

    /// The block after the initial SYN of the remote end: it says who the remote end is, where
    /// its sequence numbers start, and what it can receive.
    pub open spec fn after_syn(self, ip: IpRepr, segment: TcpSegment) -> Tcb {
        let remote_mss = match segment.max_seg_size {
            Some(max_seg_size) => max_seg_size as usize,
            None => self.remote_mss,
        };
        let local_endpoint = IpEndpoint { addr: ip.dst(), port: segment.dst_port };
        let remote_seq_no = segment.seq_number.plus(1);
        if self.state == State::Listen {
            Tcb {
                local_endpoint,
                remote_endpoint: IpEndpoint { addr: ip.src(), port: segment.src_port },
                local_seq_no: segment.seq_number.opposite(),
                remote_last_seq: segment.seq_number.opposite(),
                remote_seq_no,
                remote_mss,
                ..self
            }
        } else {
            Tcb {
                local_endpoint,
                remote_last_seq: self.local_seq_no.plus(1),
                remote_seq_no,
                remote_mss,
                ..self
            }
        }
    }

    /// The block after the control flag of an expected segment has been taken into account.
    pub open spec fn after_control(
        self,
        now: u64,
        ip: IpRepr,
        segment: TcpSegment,
        next: State,
    ) -> Tcb {
        let flagged = match segment.control {
            TcpControl::Syn => self.after_syn(ip, segment),
            TcpControl::Fin => Tcb { remote_seq_no: self.remote_seq_no.plus(1), ..self },
            _ => self,
        };
        if next == State::Closed {
            // The connection is over, so there is no one left to send a reset to.
            Tcb { state: next, remote_endpoint: IpEndpoint::none(), ..flagged }
        } else if next == State::TimeWait {
            Tcb { state: next, timer: Timer::closing(now), ..flagged }
        } else {
            Tcb { state: next, timer: Timer::idle(now, self.keep_alive), ..flagged }
        }
    }

    /// The block after the given number of octets has been acknowledged.
    pub open spec fn after_ack(self, now: u64, segment: TcpSegment, acked: int) -> Tcb {
        Tcb {
            remote_last_ts: Some(now),
            remote_win_len: segment.window_len as usize,
            tx_buffer: self.tx_buffer.dequeued(acked),
            local_seq_no: match segment.ack_number {
                Some(ack_number) => ack_number,
                None => self.local_seq_no,
            },
            ..self
        }
    }

    /// Whether the assembler can record a payload.
    pub open spec fn can_assemble(self, offset: int, payload: Seq<u8>) -> bool {
        pieces(marked(self.assembler, offset, payload.len() as int)) <= MAX_PIECES
    }

    /// The block after a payload has been put at its place in the receive buffer, and all that
    /// is contiguous there has been enqueued.
    pub open spec fn after_payload(self, offset: int, payload: Seq<u8>) -> Tcb {
        let map = marked(self.assembler, offset, payload.len() as int);
        Tcb {
            assembler: advanced(map, front(map) as int),
            rx_buffer: self.rx_buffer.written(offset, payload).enqueued(front(map) as int),
            ..self
        }
    }

    /// The block after the remote end has been told how much has arrived.
    pub open spec fn acknowledged(self) -> Tcb {
        Tcb { remote_last_ack: Some(self.expected()), ..self }
    }

    /// What becomes of the payload of a segment, and what is replied to it: an immediate
    /// acknowledgement if there is, or was, a hole in what has arrived.
    pub open spec fn deliver(self, offset: int, ip: IpRepr, segment: TcpSegment) -> (
        Tcb,
        Result<Option<Packet>>,
    ) {
        if segment.payload.len() == 0 {
            (self, Ok(None))
        } else if !self.can_assemble(offset, segment.payload) {
            (self, Err(Error::Dropped))
        } else {
            let after = self.after_payload(offset, segment.payload);
            if vacant(self.assembler) && vacant(after.assembler) {
                (after, Ok(None))
            } else {
                let after = after.acknowledged();
                (after, Ok(Some(after.ack_reply_to(ip, segment))))
            }
        }
    }

    /// What becomes of the connection when a segment arrives for it, and what is replied.
    pub open spec fn arrives(self, now: u64, ip: IpRepr, segment: TcpSegment) -> (
        Tcb,
        Result<Option<Packet>>,
    ) {
        match self.ack_verdict(segment) {
            AckVerdict::Drop => (self, Err(Error::Dropped)),
            AckVerdict::Challenge => (self, Ok(Some(self.ack_reply_to(ip, segment)))),
            AckVerdict::Accept => if !self.in_window(segment) {
                // The remote end may not have realized that the connection is over, so
                // the TIME-WAIT state starts over.
                let after = if self.state == State::TimeWait {
                    Tcb { timer: Timer::closing(now), ..self }
                } else {
                    self
                };
                (after, Ok(Some(self.ack_reply_to(ip, segment))))
            } else if segment.control == TcpControl::Rst {
                if self.state == State::Listen {
                    (self, Err(Error::Dropped))
                } else {
                    (self.after_rst(), Ok(None))
                }
            } else {
                match self.next_state(segment) {
                    None => (self, Err(Error::Dropped)),
                    Some(next) => self.after_control(now, ip, segment, next).after_ack(
                        now,
                        segment,
                        self.acked_octets(segment),
                    ).deliver(self.offset(segment), ip, segment),
                }
            },
        }
    }

    /// Whether there is time left on the clock for the timer that an acceptable segment sets, if
    /// it sets one.
    pub open spec fn has_time_for(self, now: u64, segment: TcpSegment) -> bool {
        if !self.in_window(segment) {
            self.state == State::TimeWait ==> now + CLOSE_DELAY <= u64::MAX
        } else if segment.control == TcpControl::Rst {
            true
        } else {
            match self.next_state(segment) {
                Some(State::TimeWait) => now + CLOSE_DELAY <= u64::MAX,
                Some(State::Closed) | None => true,
                Some(_) => on_clock(now, self.keep_alive),
            }
        }
    }

    /// The segments that the connection can take.
    ///
    /// Besides time on the clock for the timer, two things are asked of the remote end. It does
    /// not leave out, in the acknowledgement of an otherwise acceptable segment, the SYN that it
    /// answers; and it does not put more into an initial SYN than fits behind what an earlier
    /// one has left in the receive buffer. Nothing is asked of a segment that is refused for its
    /// acknowledgement.
    pub open spec fn can_process(self, now: u64, ip: IpRepr, segment: TcpSegment) -> bool {
        &&& self.accepts(ip, segment)
        &&& self.ack_verdict(segment) == AckVerdict::Accept ==> {
            &&& self.syn_pending() && segment.control != TcpControl::Rst && self.in_window(segment)
                ==> segment.ack_number != Some(self.local_seq_no)
            &&& !self.synchronized() && segment.control == TcpControl::Syn
                ==> self.rx_buffer.contents.len() == 0 || segment.payload.len()
                <= self.rx_buffer.free.len()
            &&& self.has_time_for(now, segment)
        }
    }
}

/// What a reply says.
pub open spec fn replied(reply: Result<Option<(IpRepr, TcpRepr<'static>)>>) -> Result<
    Option<Packet>,
> {
    match reply {
        Ok(Some((ip_repr, repr))) => Ok(Some((ip_repr, repr@))),
        Ok(None) => Ok(None),
        Err(error) => Err(error),
    }
}

impl TcpSocket {
    /// Return the packet back to where a packet came from, with nothing in it yet.
    pub fn reply(ip_repr: &IpRepr, repr: &TcpRepr) -> (reply: (IpRepr, TcpRepr<'static>))
        ensures
            (reply.0, reply.1@) == reply_to(*ip_repr, repr@),
    {
        let reply_repr = TcpRepr {
            src_port: repr.dst_port,
            dst_port: repr.src_port,
            control: TcpControl::Plain,
            seq_number: TcpSeqNumber(0),
            ack_number: None,
            window_len: 0,
            max_seg_size: None,
            payload: &[],
        };
        let ip_reply_repr = IpRepr::Unspecified {
            src_addr: ip_repr.dst_addr(),
            dst_addr: ip_repr.src_addr(),
            protocol: IpProtocol::Tcp,
            payload_len: reply_repr.buffer_len(),
        };
        assert(reply_repr@ =~= reply_to(*ip_repr, repr@).1);
        (ip_reply_repr, reply_repr)
    }

    /// Return the reset that answers a packet for which there is no socket.
    pub fn rst_reply(ip_repr: &IpRepr, repr: &TcpRepr) -> (reply: (IpRepr, TcpRepr<'static>))
        requires
            repr.control != TcpControl::Rst,
            repr.control == TcpControl::Syn ==> repr@.space() <= i32::MAX,
        ensures
            (reply.0, reply.1@) == rst_reply_to(*ip_repr, repr@),
    {
        let (ip_reply_repr, mut reply_repr) = TcpSocket::reply(ip_repr, repr);
        // See https://www.snellman.net/blog/archive/2016-02-01-tcp-rst/ for explanation
        // of why we sometimes send an RST and sometimes an RST|ACK
        reply_repr.control = TcpControl::Rst;
        reply_repr.seq_number = match repr.ack_number {
            Some(ack_number) => ack_number,
            None => TcpSeqNumber::default(),
        };
        if repr.control == TcpControl::Syn {
            reply_repr.ack_number = Some(repr.seq_number + repr.segment_len());
        }
        (ip_reply_repr, reply_repr)
    }

    /// Return the acknowledgement that tells the sender of a packet where the connection stands.
    pub(crate) fn ack_reply(&self, ip_repr: &IpRepr, repr: &TcpRepr) -> (reply: (
        IpRepr,
        TcpRepr<'static>,
    ))
        requires
            self.wf(),
        ensures
            (reply.0, reply.1@) == self@.ack_reply_to(*ip_repr, repr@),
    {
        let (ip_reply_repr, mut reply_repr) = TcpSocket::reply(ip_repr, repr);
        // From RFC 793:
        // [...] an empty acknowledgment segment containing the current send-sequence number
        // and an acknowledgment indicating the next sequence number expected
        // to be received.
        reply_repr.seq_number = self.remote_last_seq;
        reply_repr.ack_number = self.remote_last_ack;
        reply_repr.window_len = self.rx_buffer.window() as u16;
        (ip_reply_repr, reply_repr)
    }

    /// Decide what is to be done about a segment, going by its acknowledgement.
    fn judge_ack(&self, repr: &TcpRepr) -> (verdict: AckVerdict)
        requires
            self.wf(),
        ensures
            verdict == self@.ack_verdict(repr@),
    {
        // Consider how much the sequence number space differs from the transmit buffer space.
        let control_len: usize = match self.state {
            // In SYN-SENT or SYN-RECEIVED, we've just sent a SYN.
            State::SynSent | State::SynReceived => 1,
            // In FIN-WAIT-1, LAST-ACK, or CLOSING, we've just sent a FIN.
            State::FinWait1 | State::LastAck | State::Closing => 1,
            // In all other states we've already got acknowledgements for
            // all of the control flags we sent.
            _ => 0,
        };
        match (self.state, repr.control, repr.ack_number) {
            // An RST received in response to initial SYN is acceptable if it acknowledges
            // the initial SYN.
            (State::SynSent, TcpControl::Rst, None) => AckVerdict::Drop,
            (State::SynSent, TcpControl::Rst, Some(ack_number)) => {
                if ack_number != self.local_seq_no + 1 {
                    AckVerdict::Drop
                } else {
                    AckVerdict::Accept
                }
            },
            // Any other RST need only have a valid sequence number.
            (_, TcpControl::Rst, _) => AckVerdict::Accept,
            // The initial SYN cannot contain an acknowledgement.
            (State::Listen, _, None) => AckVerdict::Accept,
            // Every packet after the initial SYN must be an acknowledgement.
            (_, _, None) => AckVerdict::Drop,
            // Every acknowledgement must be for transmitted but unacknowledged data.
            (_, _, Some(ack_number)) => {
                if ack_number < self.local_seq_no {
                    return AckVerdict::Drop;
                }
                let ack_len: usize = ack_number - self.local_seq_no;
                let tx_len: usize = self.tx_buffer.len();
                if ack_len > tx_len && ack_len - tx_len > control_len {
                    AckVerdict::Challenge
                } else {
                    AckVerdict::Accept
                }
            },
        }
    }

    /// Return whether all that the remote end may still acknowledge can be counted.
    pub(crate) fn can_count_unacknowledged(&self) -> (yes: bool)
        requires
            self.wf(),
        ensures
            yes == (self@.unacknowledged() <= i32::MAX),
    {
        let limit: usize = i32::MAX as usize;
        match self.state {
            State::SynSent | State::SynReceived | State::FinWait1 | State::LastAck
            | State::Closing => self.tx_buffer.len() < limit,
            _ => self.tx_buffer.len() <= limit,
        }
    }

    /// Return whether [process](#method.process) can be called with a packet: it is meant for
    /// this socket, and is not one of the few that the socket cannot take.
    pub fn can_process(&self, timestamp: u64, ip_repr: &IpRepr, repr: &TcpRepr) -> (yes: bool)
        requires
            self.wf(),
        ensures
            yes == self@.can_process(timestamp, *ip_repr, repr@),
    {
        if !self.accepts(ip_repr, repr) {
            return false;
        }
        match self.judge_ack(repr) {
            AckVerdict::Accept => {},
            _ => {
                return true;
            },
        }
        if self.window_offset(repr).is_none() {
            return self.state != State::TimeWait || timestamp <= u64::MAX - CLOSE_DELAY;
        }
        if repr.control == TcpControl::Rst {
            return true;
        }
        match (self.state, repr.ack_number) {
            (State::SynSent | State::SynReceived, Some(ack_number)) => {
                // The acknowledgement must not leave out the SYN that it answers.
                if ack_number == self.local_seq_no {
                    return false;
                }
            },
            _ => {},
        }
        match (self.state, repr.control) {
            (State::Listen | State::SynSent, TcpControl::Syn) => {
                // The data in the initial SYN must fit behind what is there.
                if !self.rx_buffer.is_empty() && repr.payload.len() > self.rx_buffer.window() {
                    return false;
                }
            },
            _ => {},
        }
        let (_, ack_of_fin) = self.acked_by(repr);
        match self.next_state(repr, ack_of_fin) {
            Some(State::TimeWait) => timestamp <= u64::MAX - CLOSE_DELAY,
            Some(State::Closed) | None => true,
            Some(_) => fits_clock(timestamp, self.keep_alive),
        }
    }

    /// If a segment lies inside of the receive window, return where in it it starts.
    fn window_offset(&self, repr: &TcpRepr) -> (offset: Option<usize>)
        requires
            self.wf(),
        ensures
            offset is Some <==> self@.in_window(repr@),
            offset matches Some(n) ==> n == self@.offset(repr@),
    {
        match self.state {
            // In LISTEN and SYN-SENT states, we have not yet synchronized with the remote end.
            State::Listen | State::SynSent => Some(0),
            // In all other states, segments must occupy a valid portion of the receive window.
            _ => {
                let window_start = self.remote_seq_no + self.rx_buffer.len();
                let window_len: usize = self.rx_buffer.window();
                if repr.seq_number < window_start {
                    return None;
                }
                let offset: usize = repr.seq_number - window_start;
                let payload_len: usize = repr.payload.len();
                if offset <= window_len && payload_len <= window_len - offset && repr.control.len()
                    <= window_len - offset - payload_len {
                    Some(offset)
                } else {
                    None
                }
            },
        }
    }

    /// Return the number of octets of the transmit buffer that a segment acknowledges, and
    /// whether it acknowledges the FIN, removing the SYN and FIN bits from the sequence space.
    fn acked_by(&self, repr: &TcpRepr) -> (acked: (usize, bool))
        requires
            self.wf(),
            repr.control != TcpControl::Rst,
            self@.ack_verdict(repr@) == AckVerdict::Accept,
            self@.syn_pending() ==> repr.ack_number != Some(self.local_seq_no),
        ensures
            acked.0 == self@.acked_octets(repr@),
            acked.0 <= self@.tx_buffer.contents.len(),
            acked.1 == self@.acks_fin(repr@),
    {
        match repr.ack_number {
            Some(ack_number) => {
                let ack_len: usize = ack_number - self.local_seq_no;
                match self.state {
                    // There could have been no data sent before the SYN, so we always remove it
                    // from the sequence space.
                    State::SynSent | State::SynReceived => (ack_len - 1, false),
                    // We could've sent data before the FIN, so only remove FIN from the sequence
                    // space if all of that data is acknowledged.
                    State::FinWait1 | State::LastAck | State::Closing => {
                        if ack_len > 0 && self.tx_buffer.len() == ack_len - 1 {
                            (ack_len - 1, true)
                        } else {
                            (ack_len, false)
                        }
                    },
                    _ => (ack_len, false),
                }
            },
            None => (0, false),
        }
    }

    /// Return the state to which an acceptable segment other than a reset takes the connection,
    /// if it is expected in the current state.
    fn next_state(&self, repr: &TcpRepr, ack_of_fin: bool) -> (next: Option<State>)
        requires
            ack_of_fin == self@.acks_fin(repr@),
        ensures
            next == self@.next_state(repr@),
    {
        match (self.state, repr.control.quash_psh()) {
            // SYN packets in the LISTEN state change it to SYN-RECEIVED.
            (State::Listen, TcpControl::Syn) => Some(State::SynReceived),
            // ACK packets in the SYN-RECEIVED state change it to ESTABLISHED.
            (State::SynReceived, TcpControl::Plain) => Some(State::Established),
            // FIN packets in the SYN-RECEIVED state change it to CLOSE-WAIT.
            // It's not obvious from RFC 793 that this is permitted, but
            // 7th and 8th steps in the "SEGMENT ARRIVES" event describe this behavior.
            (State::SynReceived, TcpControl::Fin) => Some(State::CloseWait),
            // SYN|ACK packets in the SYN-SENT state change it to ESTABLISHED.
            (State::SynSent, TcpControl::Syn) => Some(State::Established),
            // ACK packets in ESTABLISHED state reset the retransmit timer.
            (State::Established, TcpControl::Plain) => Some(State::Established),
            // FIN packets in ESTABLISHED state indicate the remote side has closed.
            (State::Established, TcpControl::Fin) => Some(State::CloseWait),
            // ACK packets in FIN-WAIT-1 state change it to FIN-WAIT-2, if we've already
            // sent everything in the transmit buffer. If not, they reset the retransmit timer.
            (State::FinWait1, TcpControl::Plain) => Some(
                if ack_of_fin {
                    State::FinWait2
                } else {
                    State::FinWait1
                },
            ),
            // FIN packets in FIN-WAIT-1 state change it to CLOSING, or to TIME-WAIT
            // if they also acknowledge our FIN.
            (State::FinWait1, TcpControl::Fin) => Some(
                if ack_of_fin {
                    State::TimeWait
                } else {
                    State::Closing
                },
            ),
            // Data and ACK packets in FIN-WAIT-2 state are received as ever: we have only closed
            // our transmit half of the connection.
            (State::FinWait2, TcpControl::Plain) => Some(State::FinWait2),
            // FIN packets in FIN-WAIT-2 state change it to TIME-WAIT.
            (State::FinWait2, TcpControl::Fin) => Some(State::TimeWait),
            // ACK packets in CLOSING state change it to TIME-WAIT.
            (State::Closing, TcpControl::Plain) => Some(
                if ack_of_fin {
                    State::TimeWait
                } else {
                    State::Closing
                },
            ),
            // ACK packets in CLOSE-WAIT state reset the retransmit timer.
            (State::CloseWait, TcpControl::Plain) => Some(State::CloseWait),
            // ACK packets in LAST-ACK state change it to CLOSED.
            (State::LastAck, TcpControl::Plain) => Some(State::Closed),
            _ => None,
        }
    }

    /// Take the control flag of a segment into account, which takes the connection to the given
    /// state: update the state, the timer, and what the flag says of the remote end.
    fn follow_control(
        &mut self,
        timestamp: u64,
        ip_repr: &IpRepr,
        repr: &TcpRepr,
        next: State,
    )
        requires
            old(self).wf(),
            repr.control != TcpControl::Rst,
            old(self)@.next_state(repr@) == Some(next),
            old(self)@.in_window(repr@),
            old(self)@.has_time_for(timestamp, repr@),
        ensures
            final(self).wf(),
            final(self)@ == old(self)@.after_control(timestamp, *ip_repr, repr@, next),
    {
        match repr.control {
            TcpControl::Syn => {
                self.local_endpoint = IpEndpoint::new(ip_repr.dst_addr(), repr.dst_port);
                self.remote_seq_no = repr.seq_number + 1;
                if self.state == State::Listen {
                    self.remote_endpoint = IpEndpoint::new(ip_repr.src_addr(), repr.src_port);
                    self.local_seq_no = repr.seq_number.negated();
                    self.remote_last_seq = self.local_seq_no;
                } else {
                    self.remote_last_seq = self.local_seq_no + 1;
                }
                if let Some(max_seg_size) = repr.max_seg_size {
                    self.remote_mss = max_seg_size as usize;
                }
            },
            TcpControl::Fin => {
                self.remote_seq_no = self.remote_seq_no + 1;
            },
            _ => {},
        }
        match next {
            // Clear the remote endpoint, or we'll send an RST there.
            State::Closed => {
                self.remote_endpoint = IpEndpoint::default();
            },
            State::TimeWait => {
                self.timer.set_for_close(timestamp);
            },
            _ => {
                self.timer.set_for_idle(timestamp, self.keep_alive);
            },
        }
        self.state = next;
    }

    /// Put the payload of a segment at its place in the receive buffer, enqueue all that is
    /// contiguous there, and acknowledge at once what fills, or leaves, a hole.
    fn deliver(&mut self, offset: usize, ip_repr: &IpRepr, repr: &TcpRepr) -> (reply: Result<
        Option<(IpRepr, TcpRepr<'static>)>,
    >)
        requires
            old(self).wf(),
            offset + repr@.payload.len() <= old(self)@.rx_buffer.free.len() || (offset == 0
                && old(self)@.rx_buffer.contents.len() == 0),
        ensures
            final(self).wf(),
            final(self)@ == old(self)@.deliver(offset as int, *ip_repr, repr@).0,
            replied(reply) == old(self)@.deliver(offset as int, *ip_repr, repr@).1,
    {
        let payload_len: usize = repr.payload.len();
        if payload_len == 0 {
            return Ok(None);
        }
        let assembler_was_empty = self.assembler.is_empty();
        // Try adding payload octets to the assembler.
        match self.assembler.add(offset, payload_len) {
            Ok(_) => {
                // Place payload octets into the buffer.
                self.rx_buffer.write_unallocated(offset, repr.payload);
            },
            Err(_) => {
                return Err(Error::Dropped);
            },
        }
        let ghost map = self.assembler@;
        let ghost free = self.rx_buffer@.free;
        proof {
            lemma_front(map);
            assert(front(map) <= free.len()) by {
                if front(map) > free.len() {
                    assert(map[free.len() as int]);
                }
            }
        }
        if let Some(contig_len) = self.assembler.remove_front() {
            // Enqueue the contiguous data octets in front of the buffer.
            self.rx_buffer.enqueue_unallocated(contig_len);
        } else {
            assert(self.rx_buffer@.enqueued(0) =~= self.rx_buffer@);
        }
        proof {
            self.rx_buffer.lemma_wf();
        }
        assert(self@ =~= old(self)@.after_payload(offset as int, repr@.payload));
        // Per RFC 5681, we should send an immediate ACK when either:
        //  1) an out-of-order segment is received, or
        //  2) a segment arrives that fills in all or part of a gap in sequence space.
        if !self.assembler.is_empty() || !assembler_was_empty {
            // Note that we change the transmitter state here.
            // This is fine because the socket assumes that it can always transmit zero or one
            // packets for every packet it receives.
            self.remote_last_ack = Some(self.remote_seq_no + self.rx_buffer.len());
            Ok(Some(self.ack_reply(ip_repr, repr)))
        } else {
            Ok(None)
        }
    }

    /// Process a packet that is meant for this socket, and return what is to be replied, if
    /// anything.
    ///
    /// The result is `Err(Error::Dropped)` if the packet cannot be used in the current state.
    /// If it carries no data, the socket is then as it was.
    pub fn process(&mut self, timestamp: u64, ip_repr: &IpRepr, repr: &TcpRepr) -> (reply: Result<
        Option<(IpRepr, TcpRepr<'static>)>,
    >)
        requires
            old(self).wf(),
            old(self)@.can_process(timestamp, *ip_repr, repr@),
        ensures
            final(self).wf(),
            final(self)@ == old(self)@.arrives(timestamp, *ip_repr, repr@).0,
            replied(reply) == old(self)@.arrives(timestamp, *ip_repr, repr@).1,
            reply matches Err(error) ==> error == Error::Dropped,
            reply is Err && repr@.payload.len() == 0 ==> *final(self) == *old(self),
    {
        // Reject unacceptable acknowledgements.
        match self.judge_ack(repr) {
            AckVerdict::Accept => {},
            AckVerdict::Drop => {
                return Err(Error::Dropped);
            },
            AckVerdict::Challenge => {
                return Ok(Some(self.ack_reply(ip_repr, repr)));
            },
        }
        let offset: usize = match self.window_offset(repr) {
            Some(offset) => offset,
            None => {
                // If we're in the TIME-WAIT state, restart the TIME-WAIT timeout, since
                // the remote end may not have realized we've closed the connection.
                if self.state == State::TimeWait {
                    self.timer.set_for_close(timestamp);
                }
                return Ok(Some(self.ack_reply(ip_repr, repr)));
            },
        };
        if repr.control == TcpControl::Rst {
            match self.state {
                // RSTs are not accepted in the LISTEN state.
                State::Listen => {
                    return Err(Error::Dropped);
                },
                // RSTs in SYN-RECEIVED flip the socket back to the LISTEN state.
                State::SynReceived => {
                    self.local_endpoint.addr = self.listen_address;
                    self.remote_endpoint = IpEndpoint::default();
                    self.state = State::Listen;
                },
                // RSTs in any other state close the socket.
                _ => {
                    self.state = State::Closed;
                    self.local_endpoint = IpEndpoint::default();
                    self.remote_endpoint = IpEndpoint::default();
                },
            }
            return Ok(None);
        }
        // Validate and update the state.
        let (ack_len, ack_of_fin) = self.acked_by(repr);
        match self.next_state(repr, ack_of_fin) {
            Some(next) => {
                self.follow_control(timestamp, ip_repr, repr, next);
            },
            None => {
                return Err(Error::Dropped);
            },
        }
        // Update remote state.
        self.remote_last_ts = Some(timestamp);
        self.remote_win_len = repr.window_len as usize;
        // Dequeue acknowledged octets.
        self.tx_buffer.dequeue_allocated(ack_len);
        proof {
            self.tx_buffer.lemma_wf();
        }
        if let Some(ack_number) = repr.ack_number {
            // We've processed everything in the incoming segment, so advance the local
            // sequence number past it.
            self.local_seq_no = ack_number;
        }
        self.deliver(offset, ip_repr, repr)
    }
}

} // verus!
