use vstd::math::min;
use vstd::prelude::*;

use crate::error::{Error, Result};
use crate::phy::DeviceLimits;
use crate::socket::model::Tcb;
use crate::socket::process::Packet;
use crate::socket::state::State;
use crate::socket::tcp::TcpSocket;
use crate::socket::timer::{fits_clock, on_clock, Timer};
use crate::wire::ip::{IpAddress, IpEndpoint, IpProtocol, IpRepr, IPV4_HEADER_LEN};
use crate::wire::tcp::{TcpControl, TcpRepr, TcpSegment, TcpSeqNumber, TCP_HEADER_LEN};

verus! {

/// What a socket does when it is asked for a packet to send.
pub enum Plan {
    /// It sends nothing, returns an error, and ends up with the given block.
    Refuse { error: Error, after: Tcb },
    /// It hands out a packet. It ends up with one block if the packet could be sent, and with
    /// another one if it could not.
    Send { packet: Packet, sent: Tcb, unsent: Tcb },
}

impl Tcb {
    /// The moment from which on the silence of the remote end counts. If nothing was heard of
    /// it since the local end started talking, this is now.
    pub open spec fn silent_since(self, now: u64) -> u64 {
        match self.remote_last_ts {
            Some(remote_last_ts) => remote_last_ts,
            None => now,
        }
    }

    /// The block after the clock has been looked at: the connection is aborted if the remote
    /// end was silent for too long, and if all was sent but not acknowledged in time, sending
    /// starts over. What was acknowledged in the meantime is not sent again.
    pub open spec fn clocked(self, now: u64) -> Tcb {
        let counting = Tcb { remote_last_ts: Some(self.silent_since(now)), ..self };
        if counting.timed_out(now) {
            Tcb { state: State::Closed, ..counting }
        } else if counting.is_overtaken() || (!counting.seq_to_transmit(TcpControl::Plain)
            && counting.timer.retransmit_due(now)) {
            Tcb { remote_last_seq: self.local_seq_no, ..counting }
        } else {
            counting
        }
    }

    /// Whether data may be sent: there may be some in the buffer, or the transmit half of
    /// the connection is still open.
    pub open spec fn sends_data(self) -> bool {
        ||| self.state == State::Established
        ||| self.state == State::FinWait1
        ||| self.state == State::CloseWait
        ||| self.state == State::LastAck
    }

    /// How much of the transmit buffer was sent.
    pub open spec fn sent_len(self) -> int {
        self.remote_last_seq.since(self.local_seq_no)
    }

    /// Whether the remote end has acknowledged more than was sent since sending last started
    /// over: an acknowledgement of what was sent before came late.
    pub open spec fn is_overtaken(self) -> bool {
        self.sends_data() && self.sent_len() < 0
    }

    /// The data that is next to be sent: as much as lies in one piece in the transmit buffer
    /// and as the remote end can receive in one segment.
    pub open spec fn next_payload(self) -> Seq<u8> {
        if self.sends_data() {
            self.tx_buffer.piece(
                self.sent_len(),
                min(self.remote_win_len as int, self.remote_mss as int),
            )
        } else {
            Seq::empty()
        }
    }

    /// The flag that is next to be sent. After the last of the data comes a FIN, if the transmit
    /// half of the connection is closed, and a PSH otherwise.
    pub open spec fn next_control(self) -> TcpControl {
        if self.state == State::Closed {
            TcpControl::Rst
        } else if self.syn_pending() {
            TcpControl::Syn
        } else if self.sends_data() && self.sent_len() + self.next_payload().len()
            == self.tx_buffer.contents.len() {
            if self.fin_pending() {
                TcpControl::Fin
            } else {
                TcpControl::Psh
            }
        } else {
            TcpControl::Plain
        }
    }

    /// The segment that is next to be sent, if there is a reason to send one. All segments but
    /// the initial SYN acknowledge what has arrived.
    pub open spec fn next_segment(self) -> TcpSegment {
        TcpSegment {
            src_port: self.local_endpoint.port,
            dst_port: self.remote_endpoint.port,
            control: self.next_control(),
            seq_number: self.remote_last_seq,
            ack_number: if self.state == State::SynSent {
                None
            } else {
                Some(self.expected())
            },
            window_len: self.window(),
            max_seg_size: None,
            payload: self.next_payload(),
        }
    }

    /// Whether there is a reason to send the segment: data or a flag that was not sent yet,
    /// something to acknowledge, a larger window to announce, something to transmit again, or
    /// a keep-alive packet or a reset to send.
    pub open spec fn has_reason(self, now: u64, segment: TcpSegment) -> bool {
        ||| self.seq_to_transmit(segment.control) && segment.space() > 0
        ||| self.ack_to_transmit() && segment.ack_number is Some
        ||| segment.window_len > self.remote_last_win
        ||| self.timer.retransmit_due(now)
        ||| self.timer.keep_alive_due(now)
        ||| segment.control == TcpControl::Rst
    }

    /// Whether the segment is sent as a keep-alive packet: it is due, and there is nothing else
    /// to say.
    pub open spec fn keeps_alive(self, now: u64, segment: TcpSegment) -> bool {
        self.timer.keep_alive_due(now) && segment.bare()
    }

    /// The segment in the form in which it is sent. A keep-alive packet carries one octet that
    /// the remote end already has; a SYN announces how much fits into a packet.
    pub open spec fn dressed(self, now: u64, mtu: usize, segment: TcpSegment) -> TcpSegment {
        if self.keeps_alive(now, segment) {
            TcpSegment {
                seq_number: segment.seq_number.minus(1),
                payload: seq![0u8],
                ..segment
            }
        } else if segment.control == TcpControl::Syn {
            TcpSegment {
                max_seg_size: Some((mtu - IPV4_HEADER_LEN - TCP_HEADER_LEN) as u16),
                ..segment
            }
        } else {
            segment
        }
    }

    /// Whether the socket waits for an answer to the segment: it is the last of what there is to
    /// send, and there was something at all, data or flag, not just an acknowledgement.
    pub open spec fn awaits_answer(self, now: u64, segment: TcpSegment) -> bool {
        let sent = Tcb { remote_last_seq: segment.seq_number.plus(segment.space()), ..self };
        &&& !self.keeps_alive(now, segment)
        &&& segment.space() > 0
        &&& !sent.seq_to_transmit(segment.control)
    }

    /// The block after the segment has been sent.
    pub open spec fn after_sent(self, now: u64, segment: TcpSegment) -> Tcb {
        let rewound = Tcb { timer: self.timer.rewound(now, self.keep_alive), ..self };
        if self.keeps_alive(now, segment) {
            rewound
        } else {
            let recorded = Tcb {
                remote_last_seq: segment.seq_number.plus(segment.space()),
                remote_last_ack: segment.ack_number,
                remote_last_win: segment.window_len,
                ..rewound
            };
            let waiting = if self.awaits_answer(now, segment) {
                Tcb { timer: rewound.timer.retransmitting(now), ..recorded }
            } else {
                recorded
            };
            // After a reset, the connection is forgotten.
            if segment.control == TcpControl::Rst {
                Tcb {
                    local_endpoint: IpEndpoint::none(),
                    remote_endpoint: IpEndpoint::none(),
                    ..waiting
                }
            } else {
                waiting
            }
        }
    }

    /// The IP header for the remote end, or the reason why there is none.
    pub open spec fn header(self) -> Result<IpRepr> {
        IpRepr::Unspecified {
            src_addr: self.local_endpoint.addr,
            dst_addr: self.remote_endpoint.addr,
            protocol: IpProtocol::Tcp,
            payload_len: 0,
        }.lowered(Seq::empty())
    }

    /// What the socket does when it is asked for a packet, once it has looked at the clock.
    pub open spec fn clocked_plan(self, now: u64, mtu: usize) -> Plan {
        match self.header() {
            Err(error) => Plan::Refuse { error, after: self },
            Ok(ip) => if self.state == State::Listen || self.state == State::FinWait2 {
                // Nothing is ever sent in these states.
                Plan::Refuse { error: Error::Exhausted, after: self }
            } else if self.state == State::TimeWait && self.timer.close_due(now) {
                Plan::Refuse { error: Error::Exhausted, after: self.reset() }
            } else if !self.has_reason(now, self.next_segment()) {
                Plan::Refuse { error: Error::Exhausted, after: self }
            } else {
                let segment = self.next_segment();
                let dressed = self.dressed(now, mtu, segment);
                let payload_len = dressed.header_space() + dressed.payload.len();
                Plan::Send {
                    packet: (ip.with_payload_len(payload_len as usize), dressed),
                    sent: self.after_sent(now, segment),
                    unsent: self,
                }
            },
        }
    }

    /// What the socket does when it is asked for a packet. Without a remote end there is
    /// nothing to do.
    pub open spec fn plan(self, now: u64, mtu: usize) -> Plan {
        if !self.remote_endpoint.specified() {
            Plan::Refuse { error: Error::Exhausted, after: self }
        } else {
            self.clocked(now).clocked_plan(now, mtu)
        }
    }

    /// Whether the next segment can be sent: there is time left on the clock for the timer that
    /// sending it sets, if it sets one, and the device can transmit the headers of a SYN.
    pub open spec fn can_emit(self, now: u64, mtu: usize) -> bool {
        &&& self.timer is Idle ==> on_clock(now, self.keep_alive)
        &&& self.awaits_answer(now, self.next_segment()) ==> self.timer.can_retransmit(now)
        &&& self.next_control() == TcpControl::Syn ==> mtu >= IPV4_HEADER_LEN + TCP_HEADER_LEN
    }

    /// Whether the socket can be asked for a packet.
    ///
    /// What it has to send can be counted, the moment of the timeout is on the clock, and if
    /// there is a packet to be sent, it can be.
    pub open spec fn can_dispatch(self, now: u64, mtu: usize) -> bool {
        self.remote_endpoint.specified() ==> {
            &&& self.unacknowledged() <= i32::MAX
            &&& on_clock(self.silent_since(now), self.timeout)
            &&& self.plan(now, mtu) is Send ==> self.clocked(now).can_emit(now, mtu)
        }
    }

    /// The block with another state, and with another sequence number as the last one sent.
    pub open spec fn resumed(self, state: State, remote_last_seq: TcpSeqNumber) -> Tcb {
        Tcb { state, remote_last_seq, ..self }
    }
}

impl TcpSocket {
    /// Return whether the remote end has been silent for too long. If nothing was heard of it
    /// since the local end started talking, its silence counts from now on.
    pub(crate) fn timed_out(&self, timestamp: u64) -> (yes: bool)
        requires
            on_clock(self@.silent_since(timestamp), self.timeout),
        ensures
            yes == (Tcb {
                remote_last_ts: Some(self@.silent_since(timestamp)),
                ..self@
            }).timed_out(timestamp),
    {
        match (self.remote_last_ts, self.timeout) {
            (Some(remote_last_ts), Some(timeout)) => timestamp >= remote_last_ts + timeout,
            (None, Some(timeout)) => timeout == 0,
            _ => false,
        }
    }

    /// Return whether something remains to be sent after the given sequence number, with the
    /// given flag at the end.
    fn seq_to_transmit(&self, remote_last_seq: TcpSeqNumber, control: TcpControl) -> (yes: bool)
        requires
            self.wf(),
            self@.tx_buffer.contents.len() <= i32::MAX,
        ensures
            yes == self@.resumed(self.state, remote_last_seq).seq_to_transmit(control),
    {
        remote_last_seq < self.local_seq_no + self.tx_buffer.len() + control.len()
    }

    /// Return whether something arrived that was not acknowledged yet.
    pub(crate) fn ack_to_transmit(&self) -> (yes: bool)
        requires
            self.wf(),
        ensures
            yes == self@.ack_to_transmit(),
    {
        if let Some(remote_last_ack) = self.remote_last_ack {
            remote_last_ack < self.remote_seq_no + self.rx_buffer.len()
        } else {
            true
        }
    }

    /// Return whether the remote end has acknowledged more than was sent since sending last
    /// started over.
    fn is_overtaken(&self) -> (yes: bool)
        ensures
            yes == self@.is_overtaken(),
    {
        match self.state {
            State::Established | State::FinWait1 | State::CloseWait | State::LastAck => {
                self.remote_last_seq < self.local_seq_no
            },
            _ => false,
        }
    }

    /// Look at the clock, and return the state of the connection and the last sequence number
    /// sent, as they are from now on: the connection is aborted if the remote end was silent for
    /// too long, and sending starts over if all was sent but not acknowledged in time. What was
    /// acknowledged in the meantime is left out.
    fn look_at_clock(&self, timestamp: u64) -> (resumed: (State, TcpSeqNumber))
        requires
            self.wf(),
            self@.tx_buffer.contents.len() <= i32::MAX,
            on_clock(self@.silent_since(timestamp), self@.timeout),
        ensures
            self@.clocked(timestamp) == (Tcb {
                remote_last_ts: Some(self@.silent_since(timestamp)),
                ..self@.resumed(resumed.0, resumed.1)
            }),
    {
        if self.timed_out(timestamp) {
            // If a timeout expires, we should abort the connection.
            (State::Closed, self.remote_last_seq)
        } else if self.is_overtaken() {
            // A late ACK can move local_seq_no past remote_last_seq. What lies between them
            // has left the transmit buffer, so go on with what follows.
            (self.state, self.local_seq_no)
        } else if !self.seq_to_transmit(self.remote_last_seq, TcpControl::Plain)
            && self.timer.is_retransmit_due(timestamp) {
            // If a retransmit timer expired, we should resend data starting at the last ACK.
            (self.state, self.local_seq_no)
        } else {
            (self.state, self.remote_last_seq)
        }
    }

    /// Return the segment that is next to be sent in the given state after the given sequence
    /// number, if there is a reason to send one.
    fn next_segment(&self, state: State, remote_last_seq: TcpSeqNumber) -> (repr: TcpRepr<'_>)
        requires
            self.wf(),
            !self@.resumed(state, remote_last_seq).is_overtaken(),
        ensures
            repr@ == self@.resumed(state, remote_last_seq).next_segment(),
    {
        // Construct the basic TCP representation, an empty ACK packet.
        // We'll adjust this to be more specific as needed.
        let mut repr = TcpRepr {
            src_port: self.local_endpoint.port,
            dst_port: self.remote_endpoint.port,
            control: TcpControl::Plain,
            seq_number: remote_last_seq,
            ack_number: Some(self.remote_seq_no + self.rx_buffer.len()),
            window_len: self.rx_buffer.window() as u16,
            max_seg_size: None,
            payload: &[],
        };
        match state {
            // We transmit an RST in the CLOSED state. If we ended up in the CLOSED state
            // with a specified endpoint, it means that the socket was aborted.
            State::Closed => {
                repr.control = TcpControl::Rst;
            },
            // We transmit a SYN in the SYN-SENT state.
            // We transmit a SYN|ACK in the SYN-RECEIVED state.
            State::SynSent | State::SynReceived => {
                repr.control = TcpControl::Syn;
                if state == State::SynSent {
                    repr.ack_number = None;
                }
            },
            // We transmit data in all states where we may have data in the buffer,
            // or the transmit half of the connection is still open:
            // the ESTABLISHED, FIN-WAIT-1, CLOSE-WAIT and LAST-ACK states.
            State::Established | State::FinWait1 | State::CloseWait | State::LastAck => {
                // Extract as much data as the remote side can receive in this packet
                // from the transmit buffer.
                let offset: usize = remote_last_seq - self.local_seq_no;
                let mut size: usize = self.remote_win_len;
                if self.remote_mss < size {
                    size = self.remote_mss;
                }
                repr.payload = self.tx_buffer.get_allocated(offset, size);
                // If we've sent everything we had in the buffer, follow it with the PSH or FIN
                // flags, depending on whether the transmit half of the connection is open.
                if offset <= self.tx_buffer.len() && repr.payload.len() == self.tx_buffer.len()
                    - offset {
                    repr.control = match state {
                        State::FinWait1 | State::LastAck => TcpControl::Fin,
                        _ => TcpControl::Psh,
                    };
                }
            },
            // We do not transmit data or control flags in all other states, but we may
            // retransmit an ACK in some of them.
            _ => {},
        }
        assert(repr@.payload =~= self@.resumed(state, remote_last_seq).next_payload());
        repr
    }

    /// Return whether there is a reason to send the segment.
    fn has_reason(&self, timestamp: u64, repr: &TcpRepr) -> (yes: bool)
        requires
            self.wf(),
            self@.tx_buffer.contents.len() <= i32::MAX,
            repr@.space() <= i32::MAX,
        ensures
            yes == self@.resumed(self.state, repr.seq_number).has_reason(timestamp, repr@),
    {
        if self.seq_to_transmit(repr.seq_number, repr.control) && repr.segment_len() > 0 {
            // If we have data to transmit and it fits into partner's window, do it.
            true
        } else if self.ack_to_transmit() && repr.ack_number.is_some() {
            // If we have data to acknowledge, do it.
            true
        } else if repr.window_len > self.remote_last_win {
            // If we have window length increase to advertise, do it.
            true
        } else if self.timer.is_retransmit_due(timestamp) {
            // If we have packets to retransmit, do it.
            true
        } else if self.timer.should_keep_alive(timestamp) {
            // If we need to transmit a keep-alive packet, do it.
            true
        } else {
            // If we need to abort the connection, do it.
            repr.control == TcpControl::Rst
        }
    }

    /// Return whether [dispatch](#method.dispatch) can be called: there is time left on
    /// the clock, and the device can transmit what there is to be sent.
    pub fn can_dispatch(&self, timestamp: u64, limits: &DeviceLimits) -> (yes: bool)
        requires
            self.wf(),
        ensures
            yes == self@.can_dispatch(timestamp, limits.max_transmission_unit),
    {
        if !self.remote_endpoint.is_specified() {
            return true;
        }
        let silent_since: u64 = match self.remote_last_ts {
            Some(remote_last_ts) => remote_last_ts,
            None => timestamp,
        };
        if !self.can_count_unacknowledged() || !fits_clock(silent_since, self.timeout) {
            return false;
        }
        if let IpAddress::Unspecified = self.local_endpoint.addr {
            return true;
        }
        let (state, remote_last_seq) = self.look_at_clock(timestamp);
        let ghost clocked = self@.clocked(timestamp);
        assert(clocked.header() is Ok);
        match state {
            State::Listen | State::FinWait2 => {
                return true;
            },
            State::TimeWait => {
                if self.timer.should_close(timestamp) {
                    return true;
                }
            },
            _ => {},
        }
        let repr = self.next_segment(state, remote_last_seq);
        assert(repr@ == clocked.next_segment());
        if !self.has_reason(timestamp, &repr) {
            return true;
        }
        if let Timer::Idle { .. } = self.timer {
            if !fits_clock(timestamp, self.keep_alive) {
                return false;
            }
        }
        let segment_len: usize = repr.segment_len();
        let is_keep_alive = self.timer.should_keep_alive(timestamp) && repr.is_empty();
        if !is_keep_alive && segment_len > 0 && !self.seq_to_transmit(
            repr.seq_number + segment_len,
            repr.control,
        ) && !self.timer.has_time_to_retransmit(timestamp) {
            return false;
        }
        repr.control != TcpControl::Syn || limits.max_transmission_unit >= IPV4_HEADER_LEN
            + TCP_HEADER_LEN
    }

    /// Take note that a segment was sent, given what it said and its length in sequence space.
    fn note_sent(
        &mut self,
        timestamp: u64,
        control: TcpControl,
        seq_number: TcpSeqNumber,
        ack_number: Option<TcpSeqNumber>,
        window_len: u16,
        segment_len: usize,
        Ghost(segment): Ghost<TcpSegment>,
    )
        requires
            old(self).wf(),
            old(self)@.tx_buffer.contents.len() <= i32::MAX,
            old(self)@.timer is Idle ==> on_clock(timestamp, old(self)@.keep_alive),
            old(self)@.awaits_answer(timestamp, segment) ==> old(self)@.timer.can_retransmit(
                timestamp,
            ),
            !old(self)@.keeps_alive(timestamp, segment),
            control == segment.control,
            seq_number == segment.seq_number,
            ack_number == segment.ack_number,
            window_len == segment.window_len,
            segment_len == segment.space() <= i32::MAX,
        ensures
            final(self).wf(),
            final(self)@ == old(self)@.after_sent(timestamp, segment),
    {
        // We've sent something, so rewind the keep-alive timer.
        self.timer.rewind_keep_alive(timestamp, self.keep_alive);
        // We've sent a packet successfully, so we can update the internal state now.
        self.remote_last_seq = seq_number + segment_len;
        self.remote_last_ack = ack_number;
        self.remote_last_win = window_len;
        if !self.seq_to_transmit(self.remote_last_seq, control) && segment_len > 0 {
            // If we've transmitted all data we could (and there was something at all,
            // data or flag, to transmit, not just an ACK), wind up the retransmit timer.
            self.timer.set_for_retransmit(timestamp);
        }
        if control == TcpControl::Rst {
            // When aborting a connection, forget about it after sending
            // the RST packet once.
            self.local_endpoint = IpEndpoint::default();
            self.remote_endpoint = IpEndpoint::default();
        }
    }

    /// Hand the packet that is next to be sent, if there is one, to the given function, and
    /// take note if it could be sent.
    ///
    /// The result is `Err(Error::Exhausted)` if there is nothing to send,
    /// `Err(Error::Unaddressable)` if the local address has no family, and otherwise whatever
    /// the given function returned.
    pub fn dispatch<F>(&mut self, timestamp: u64, limits: &DeviceLimits, emit: F) -> (result:
        Result<()>) where F: FnOnce((IpRepr, TcpRepr)) -> Result<()>
        requires
            old(self).wf(),
            old(self)@.can_dispatch(timestamp, limits.max_transmission_unit),
            forall|sending: (IpRepr, TcpRepr)|
                old(self)@.plan(timestamp, limits.max_transmission_unit) matches Plan::Send {
                    packet,
                    ..
                } && packet == (sending.0, sending.1@) ==> #[trigger] call_requires(
                    emit,
                    (sending,),
                ),
        ensures
            final(self).wf(),
            match old(self)@.plan(timestamp, limits.max_transmission_unit) {
                Plan::Refuse { error, after } => result == Err::<(), Error>(error) && final(self)@
                    == after,
                Plan::Send { packet, sent, unsent } => exists|sending: (IpRepr, TcpRepr)|
                    {
                        &&& packet == (sending.0, sending.1@)
                        &&& #[trigger] call_ensures(emit, (sending,), result)
                        &&& final(self)@ == if result is Ok {
                            sent
                        } else {
                            unsent
                        }
                    },
            },
    {
        let ghost mtu = limits.max_transmission_unit;
        if !self.remote_endpoint.is_specified() {
            return Err(Error::Exhausted);
        }
        let (state, remote_last_seq) = self.look_at_clock(timestamp);
        if self.remote_last_ts.is_none() {
            // We get here in exactly two cases:
            //  1) This socket just transitioned into SYN-SENT.
            //  2) This socket had an empty transmit buffer and some data was added there.
            // Both are similar in that the socket has been quiet for an indefinite
            // period of time, it isn't anymore, and the local endpoint is talking.
            // So, we start counting the timeout not from the last received packet
            // but from the first transmitted one.
            self.remote_last_ts = Some(timestamp);
        }
        self.state = state;
        self.remote_last_seq = remote_last_seq;
        let ghost clocked = self@;
        // Construct the lowered IP representation.
        // We might need this to calculate the MSS, so do it early.
        let lowered = IpRepr::Unspecified {
            src_addr: self.local_endpoint.addr,
            dst_addr: self.remote_endpoint.addr,
            protocol: IpProtocol::Tcp,
            payload_len: 0,
        }.lower(&[]);
        assert(lowered == clocked.header());
        let mut ip_repr = match lowered {
            Ok(ip_repr) => ip_repr,
            Err(error) => {
                return Err(error);
            },
        };
        match self.state {
            // We never transmit anything in the LISTEN state, nor in the FIN-WAIT-2 state.
            State::Listen | State::FinWait2 => {
                return Err(Error::Exhausted);
            },
            // In the TIME-WAIT state, we wait for the timer to expire.
            State::TimeWait => {
                if self.timer.should_close(timestamp) {
                    self.reset();
                    return Err(Error::Exhausted);
                }
            },
            _ => {},
        }
        let mut repr = self.next_segment(state, remote_last_seq);
        let ghost segment = repr@;
        if !self.has_reason(timestamp, &repr) {
            return Err(Error::Exhausted);
        }
        let (control, seq_number) = (repr.control, repr.seq_number);
        let (ack_number, window_len) = (repr.ack_number, repr.window_len);
        let segment_len: usize = repr.segment_len();
        let is_keep_alive = self.timer.should_keep_alive(timestamp) && repr.is_empty();
        if is_keep_alive {
            repr.seq_number = repr.seq_number - 1;
            repr.payload = &[0];  // RFC 1122 says we should do this
        }
        if repr.control == TcpControl::Syn {
            // See RFC 6691 for an explanation of this calculation.
            let max_segment_size: usize = limits.max_transmission_unit - ip_repr.buffer_len()
                - repr.header_len();
            repr.max_seg_size = Some(max_segment_size as u16);
        }
        assert(repr@ =~= clocked.dressed(timestamp, mtu, segment));
        ip_repr.set_payload_len(repr.buffer_len());
        let ghost sending = (ip_repr, repr);
        assert(call_requires(emit, (sending,)));
        let result = emit((ip_repr, repr));
        assert(call_ensures(emit, (sending,), result));
        if result.is_ok() {
            if is_keep_alive {
                // Leave the rest of the state intact if sending a keep-alive packet.
                self.timer.rewind_keep_alive(timestamp, self.keep_alive);
            } else {
                self.note_sent(
                    timestamp,
                    control,
                    seq_number,
                    ack_number,
                    window_len,
                    segment_len,
                    Ghost(segment),
                );
            }
        }
        result
    }
}

} // verus!
