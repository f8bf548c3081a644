//! The words in which the laws speak of blocks and packets. They name what can be observed of
//! them, field by field.

use vstd::prelude::*;

use crate::socket::model::Tcb;
use crate::socket::process::Packet;
use crate::socket::state::State;
use crate::socket::timer::Timer;
use crate::wire::ip::{IpAddress, IpEndpoint, IpProtocol, IpRepr};
use crate::wire::tcp::{TcpControl, TcpSegment, TcpSeqNumber};

verus! {

/// An address with at least one octet that is not zero.
pub open spec fn names_host(addr: IpAddress) -> bool {
    match addr {
        IpAddress::Unspecified => false,
        IpAddress::Ipv4(v4) => v4.0@[0] != 0 || v4.0@[1] != 0 || v4.0@[2] != 0 || v4.0@[3] != 0,
    }
}

/// An endpoint to which packets can be sent.
pub open spec fn names_peer(endpoint: IpEndpoint) -> bool {
    names_host(endpoint.addr) && endpoint.port != 0
}

/// The smaller of two numbers.
pub open spec fn smaller(a: int, b: int) -> int {
    if a <= b {
        a
    } else {
        b
    }
}

/// The octets that a flag takes in sequence space.
pub open spec fn flag_len(control: TcpControl) -> int {
    if control == TcpControl::Syn || control == TcpControl::Fin {
        1
    } else {
        0
    }
}

/// A segment without a flag but for PSH.
pub open spec fn is_plain(control: TcpControl) -> bool {
    control == TcpControl::Plain || control == TcpControl::Psh
}

/// How much is in the receive buffer to be read.
pub open spec fn readable(tcb: Tcb) -> int {
    tcb.rx_buffer.contents.len() as int
}

/// How much room there is in the receive buffer.
pub open spec fn room(tcb: Tcb) -> int {
    tcb.rx_buffer.free.len() as int
}

/// How much is in the transmit buffer.
pub open spec fn queued(tcb: Tcb) -> int {
    tcb.tx_buffer.contents.len() as int
}

/// The sequence number that follows all that has arrived.
pub open spec fn next_expected(tcb: Tcb) -> TcpSeqNumber {
    tcb.remote_seq_no.plus(readable(tcb))
}

/// A state in which a SYN waits to be acknowledged.
pub open spec fn syn_waits(state: State) -> bool {
    state == State::SynSent || state == State::SynReceived
}

/// A state in which a FIN waits to be acknowledged.
pub open spec fn fin_waits(state: State) -> bool {
    state == State::FinWait1 || state == State::LastAck || state == State::Closing
}

/// A state in which data is sent.
pub open spec fn sending_state(state: State) -> bool {
    state == State::Established || state == State::CloseWait || state == State::FinWait1 || state
        == State::LastAck
}

/// A state in which the sequence numbers of the remote end are not known.
pub open spec fn unsynchronized(state: State) -> bool {
    state == State::Listen || state == State::SynSent
}

/// An acknowledgement number of a segment, counted from the beginning of the transmit buffer, is
/// one that the socket takes: not behind, and not past what can be acknowledged.
pub open spec fn ack_in_range(tcb: Tcb, ack_number: TcpSeqNumber) -> bool {
    0 <= ack_number.since(tcb.local_seq_no) <= queued(tcb) + if syn_waits(tcb.state) || fin_waits(
        tcb.state,
    ) {
        1int
    } else {
        0int
    }
}

/// A segment says what it has to about what was received.
pub open spec fn ack_is_good(tcb: Tcb, segment: TcpSegment) -> bool {
    if segment.control == TcpControl::Rst {
        tcb.state == State::SynSent ==> segment.ack_number == Some(tcb.local_seq_no.plus(1))
    } else {
        match segment.ack_number {
            Some(ack_number) => ack_in_range(tcb, ack_number),
            None => tcb.state == State::Listen,
        }
    }
}

/// A segment fits into the room that there is.
pub open spec fn fits(tcb: Tcb, segment: TcpSegment) -> bool {
    let start = segment.seq_number.since(next_expected(tcb));
    unsynchronized(tcb.state) || (0 <= start && start + segment.payload.len() + flag_len(
        segment.control,
    ) <= room(tcb))
}

/// A flag that means something in a state.
pub open spec fn is_timely(state: State, control: TcpControl) -> bool {
    match control {
        TcpControl::Rst => false,
        TcpControl::Syn => unsynchronized(state),
        TcpControl::Fin => state == State::SynReceived || state == State::Established || state
            == State::FinWait1 || state == State::FinWait2,
        TcpControl::Plain | TcpControl::Psh => !unsynchronized(state) && state != State::Closed
            && state != State::TimeWait,
    }
}

/// A segment that the connection goes along with.
pub open spec fn is_taken(tcb: Tcb, segment: TcpSegment) -> bool {
    ack_is_good(tcb, segment) && fits(tcb, segment) && is_timely(tcb.state, segment.control)
}

/// A segment that acknowledges the FIN and all that was before it.
pub open spec fn covers_fin(tcb: Tcb, segment: TcpSegment) -> bool {
    match segment.ack_number {
        Some(ack_number) => fin_waits(tcb.state) && ack_number.since(tcb.local_seq_no) == queued(
            tcb,
        ) + 1,
        None => false,
    }
}

/// How far into the room of the receive buffer the payload of a segment belongs.
pub open spec fn payload_start(tcb: Tcb, segment: TcpSegment) -> int {
    if unsynchronized(tcb.state) {
        0
    } else {
        segment.seq_number.since(next_expected(tcb))
    }
}

/// A packet that goes back to where another one came from, with a header of twenty octets and
/// nothing behind it.
pub open spec fn goes_back(ip: IpRepr, segment: TcpSegment, packet: Packet) -> bool {
    &&& packet.0 == (IpRepr::Unspecified {
        src_addr: ip.dst(),
        dst_addr: ip.src(),
        protocol: IpProtocol::Tcp,
        payload_len: 20,
    })
    &&& packet.1.src_port == segment.dst_port
    &&& packet.1.dst_port == segment.src_port
    &&& packet.1.max_seg_size is None
    &&& packet.1.payload.len() == 0
}

/// A packet that tells the sender of another one how far the connection got: what was sent last,
/// what was acknowledged last, and how much room there is.
pub open spec fn tells_status(tcb: Tcb, ip: IpRepr, segment: TcpSegment, packet: Packet) -> bool {
    &&& goes_back(ip, segment, packet)
    &&& packet.1.control == TcpControl::Plain
    &&& packet.1.seq_number == tcb.remote_last_seq
    &&& packet.1.ack_number == tcb.remote_last_ack
    &&& packet.1.window_len == room(tcb)
}

/// The octet `i` past the end of the receive buffer has arrived, before a segment or with it.
pub open spec fn has_arrived(tcb: Tcb, segment: TcpSegment, i: int) -> bool {
    let start = payload_start(tcb, segment);
    0 <= i < tcb.assembler.len() && (tcb.assembler[i] || start <= i < start + segment.payload.len())
}

/// All of the octets past the end of the receive buffer that have arrived.
pub open spec fn arrival_map(tcb: Tcb, segment: TcpSegment) -> Seq<bool> {
    Seq::new(tcb.assembler.len(), |i: int| has_arrived(tcb, segment, i))
}

/// Nothing has arrived past a gap.
pub open spec fn nothing_ahead(tcb: Tcb) -> bool {
    forall|i: int| 0 <= i < tcb.assembler.len() ==> !#[trigger] tcb.assembler[i]
}

/// The octet `i` past the end of the receive buffer, once a segment has been written there.
pub open spec fn octet_at(tcb: Tcb, segment: TcpSegment, i: int) -> u8 {
    let start = payload_start(tcb, segment);
    if start <= i < start + segment.payload.len() {
        segment.payload[i - start]
    } else {
        tcb.rx_buffer.free[i]
    }
}

/// The moment from which on the remote end counts as silent.
pub open spec fn quiet_since(tcb: Tcb, now: u64) -> int {
    match tcb.remote_last_ts {
        Some(remote_last_ts) => remote_last_ts as int,
        None => now as int,
    }
}

/// The remote end has been silent for as long as the timeout says.
pub open spec fn too_quiet(tcb: Tcb, now: u64) -> bool {
    match tcb.timeout {
        Some(timeout) => now >= quiet_since(tcb, now) + timeout,
        None => false,
    }
}

/// The state once the timeout has been looked at.
pub open spec fn state_at(tcb: Tcb, now: u64) -> State {
    if too_quiet(tcb, now) {
        State::Closed
    } else {
        tcb.state
    }
}

/// The wait for an acknowledgement is over.
pub open spec fn wait_is_over(timer: Timer, now: u64) -> bool {
    match timer {
        Timer::Retransmit { expires_at, .. } => now >= expires_at,
        _ => false,
    }
}

/// The moment for a keep-alive packet has come.
pub open spec fn probe_is_due(timer: Timer, now: u64) -> bool {
    match timer {
        Timer::Idle { keep_alive_at: Some(keep_alive_at) } => now >= keep_alive_at,
        _ => false,
    }
}

/// The TIME-WAIT state is over.
pub open spec fn linger_is_over(timer: Timer, now: u64) -> bool {
    match timer {
        Timer::Close { expires_at } => now >= expires_at,
        _ => false,
    }
}

/// Sending starts at the beginning of the transmit buffer: what was sent has been acknowledged and
/// more, or all that there is was sent and the wait for the acknowledgement is over.
pub open spec fn starts_over(tcb: Tcb, now: u64) -> bool {
    let ahead = tcb.remote_last_seq.since(tcb.local_seq_no);
    !too_quiet(tcb, now) && ((sending_state(tcb.state) && ahead < 0) || (
    tcb.remote_last_seq.since(tcb.local_seq_no.plus(queued(tcb))) >= 0 && wait_is_over(
        tcb.timer,
        now,
    )))
}

/// The sequence number at which sending goes on.
pub open spec fn seq_at(tcb: Tcb, now: u64) -> TcpSeqNumber {
    if starts_over(tcb, now) {
        tcb.local_seq_no
    } else {
        tcb.remote_last_seq
    }
}

/// How much of the transmit buffer lies before the place at which sending goes on.
pub open spec fn passed_at(tcb: Tcb, now: u64) -> int {
    seq_at(tcb, now).since(tcb.local_seq_no)
}

/// There is data or a flag to send that was not sent yet: a SYN; or data, and the remote end can
/// receive some; or, where the transmit half is closed, the FIN after all of the data.
pub open spec fn has_something_new(tcb: Tcb, now: u64) -> bool {
    let state = state_at(tcb, now);
    let passed = passed_at(tcb, now);
    if syn_waits(state) {
        seq_at(tcb, now).since(tcb.local_seq_no.plus(queued(tcb) + 1)) < 0
    } else if sending_state(state) {
        ||| passed < queued(tcb) && tcb.remote_win_len > 0 && tcb.remote_mss > 0
        ||| passed == queued(tcb) && fin_waits(state)
    } else {
        false
    }
}

/// Something arrived that the remote end has not been told of.
pub open spec fn owes_ack(tcb: Tcb, now: u64) -> bool {
    state_at(tcb, now) != State::SynSent && match tcb.remote_last_ack {
        Some(remote_last_ack) => remote_last_ack.since(next_expected(tcb)) < 0,
        None => true,
    }
}

/// Sequence numbers go around, so no more can be waited for than half of them.
pub open spec fn can_count(tcb: Tcb) -> bool {
    queued(tcb) + 1 <= i32::MAX
}

/// There is someone to talk to, and an address to talk from.
pub open spec fn can_talk(tcb: Tcb) -> bool {
    names_peer(tcb.remote_endpoint) && tcb.local_endpoint.addr is Ipv4
}

} // verus!
