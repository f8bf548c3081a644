//! The streams of octets that go through a connection.

use vstd::prelude::*;

use crate::socket::dispatch::Plan;
use crate::socket::model::{Tcb, MAX_RX_CAPACITY};
use crate::socket::process::AckVerdict;
use crate::socket::state::State;
use crate::storage::assembler::{
    front, law_in_order_always_fits, lemma_front, marked, vacant,
};
use crate::wire::ip::IpRepr;
use crate::wire::tcp::{TcpControl, TcpSegment, TcpSeqNumber};

verus! {

/// Whether a payload, if there is one, is the part of the stream that starts at a position.
pub open spec fn part_of(payload: Seq<u8>, stream: Seq<u8>, start: int) -> bool {
    payload.len() > 0 ==> 0 <= start <= start + payload.len() <= stream.len() && payload
        == stream.subrange(start, start + payload.len())
}

impl Tcb {
    /// The receiving half of a connection is true to the stream of octets that the remote end
    /// sends: of the stream, `read` octets were handed to the user; the receive buffer holds
    /// the octets that follow; and what has arrived out of order is at its place behind them.
    pub open spec fn delivers(self, stream: Seq<u8>, read: int) -> bool {
        let got = read + self.rx_buffer.contents.len();
        &&& 0 <= read
        &&& got <= stream.len()
        &&& self.rx_buffer.contents == stream.subrange(read, got)
        &&& forall|i: int|
            0 <= i < self.assembler.len() && #[trigger] self.assembler[i] ==> got + i < stream.len()
                && self.rx_buffer.free[i] == stream[got + i]
    }

    /// The payload of a segment is the part of the stream that belongs where the segment starts.
    pub open spec fn carries(self, stream: Seq<u8>, read: int, segment: TcpSegment) -> bool {
        part_of(
            segment.payload,
            stream,
            read + self.rx_buffer.contents.len() + self.offset(segment),
        )
    }

    /// The sending half of a connection is true to the stream of octets that the user enqueues:
    /// of the stream, `acked` octets were acknowledged, and the transmit buffer holds the rest.
    pub open spec fn offers(self, stream: Seq<u8>, acked: int) -> bool {
        &&& 0 <= acked <= stream.len()
        &&& self.tx_buffer.contents == stream.skip(acked)
    }

    /// The last numbers sent are not ahead of what there is: nothing was sent past the transmit
    /// buffer and the flag that is pending, and nothing was acknowledged past what has arrived.
    pub open spec fn never_ahead(self) -> bool {
        &&& self.sent_len() <= self.unacknowledged()
        &&& self.remote_last_ack matches Some(ack_number) ==> ack_number.since(self.expected()) <= 0
    }

    /// Whether a segment is taken in: it is not a reset, it can be accepted, and it is expected.
    pub open spec fn takes(self, segment: TcpSegment) -> bool {
        &&& segment.control != TcpControl::Rst
        &&& self.ack_verdict(segment) == AckVerdict::Accept
        &&& self.in_window(segment)
        &&& self.next_state(segment) is Some
    }
}

/// What is contiguous in front of the buffer fits into it.
proof fn lemma_front_fits(tcb: Tcb, offset: int, len: int)
    requires
        tcb.wf(),
        offset + len <= tcb.rx_buffer.free.len() || tcb.rx_buffer.contents.len() == 0,
    ensures
        front(marked(tcb.assembler, offset, len)) <= tcb.rx_buffer.free.len(),
{
    let map = marked(tcb.assembler, offset, len);
    lemma_front(map);
    if front(map) > tcb.rx_buffer.free.len() {
        assert(map[tcb.rx_buffer.free.len() as int]);
    }
}

/// Putting a payload at its place keeps the receiving half true to the stream, and enqueues
/// all that is contiguous.
proof fn lemma_payload_delivers(
    tcb: Tcb,
    offset: int,
    payload: Seq<u8>,
    stream: Seq<u8>,
    read: int,
)
    requires
        tcb.wf(),
        tcb.delivers(stream, read),
        0 <= offset,
        offset + payload.len() <= tcb.rx_buffer.free.len() || tcb.rx_buffer.contents.len() == 0,
        part_of(payload, stream, read + tcb.rx_buffer.contents.len() + offset),
    ensures
        tcb.after_payload(offset, payload).delivers(stream, read),
        tcb.after_payload(offset, payload).rx_buffer.contents.len()
            == tcb.rx_buffer.contents.len() + front(
            marked(tcb.assembler, offset, payload.len() as int),
        ),
{
    let map = marked(tcb.assembler, offset, payload.len() as int);
    let n = front(map) as int;
    lemma_front(map);
    let got = read + tcb.rx_buffer.contents.len();
    let written = tcb.rx_buffer.written(offset, payload);
    lemma_front_fits(tcb, offset, payload.len() as int);
    assert forall|i: int| 0 <= i < map.len() && map[i] implies got + i < stream.len()
        && written.free[i] == stream[got + i] by {
        if offset <= i < offset + payload.len() {
            assert(payload[i - offset] == stream.subrange(
                got + offset,
                got + offset + payload.len(),
            )[i - offset]);
        } else {
            assert(tcb.assembler[i]);
        }
    }
    let after = tcb.after_payload(offset, payload);
    if n > 0 {
        assert(map[n - 1]);
    }
    assert forall|i: int| 0 <= i < n implies written.free[i] == stream[got + i] by {
        assert(map[i]);
    }
    assert(after.rx_buffer.contents =~= stream.subrange(read, got + n));
    assert forall|i: int| 0 <= i < after.assembler.len() && after.assembler[i] implies got + n + i
        < stream.len() && after.rx_buffer.free[i] == stream[got + n + i] by {
        assert(map[i + n]);
    }
}

/// Whatever arrives, and in whatever order, the receiving half stays true to the stream: no
/// octet is lost, repeated or misplaced, as long as each segment carries the part of the stream
/// that its sequence number says.
pub proof fn law_arrival_delivers(
    tcb: Tcb,
    now: u64,
    ip: IpRepr,
    segment: TcpSegment,
    stream: Seq<u8>,
    read: int,
)
    requires
        tcb.wf(),
        tcb.can_process(now, ip, segment),
        tcb.delivers(stream, read),
        tcb.in_window(segment) ==> tcb.carries(stream, read, segment),
    ensures
        tcb.arrives(now, ip, segment).0.delivers(stream, read),
        tcb.arrives(now, ip, segment).0.rx_buffer.contents.len()
            >= tcb.rx_buffer.contents.len(),
{
    if tcb.takes(segment) && segment.payload.len() > 0 {
        let next = tcb.next_state(segment)->Some_0;
        let acked = tcb.after_control(now, ip, segment, next).after_ack(
            now,
            segment,
            tcb.acked_octets(segment),
        );
        assert(acked.delivers(stream, read));
        lemma_payload_delivers(acked, tcb.offset(segment), segment.payload, stream, read);
    }
}

/// What the user reads is the stream, from where they left off.
pub proof fn law_reading_delivers(tcb: Tcb, count: int, stream: Seq<u8>, read: int)
    requires
        tcb.wf(),
        tcb.delivers(stream, read),
        0 <= count <= tcb.rx_buffer.contents.len(),
    ensures
        tcb.rx_buffer.contents.take(count) == stream.subrange(read, read + count),
        tcb.reading(count).delivers(stream, read + count),
        tcb.reading(count).expected() == tcb.expected(),
{
    let after = tcb.reading(count);
    assert(tcb.rx_buffer.contents.take(count) =~= stream.subrange(read, read + count));
    assert(after.rx_buffer.contents =~= stream.subrange(
        read + count,
        read + tcb.rx_buffer.contents.len(),
    ));
    assert forall|i: int| 0 <= i < after.assembler.len() && after.assembler[i] implies read
        + tcb.rx_buffer.contents.len() + i < stream.len() && after.rx_buffer.free[i] == stream[read
        + tcb.rx_buffer.contents.len() + i] by {
        assert(tcb.assembler[i]);
        assert(i < tcb.rx_buffer.free.len());
    }
}

/// A receiving half that is true to a stream is true to it when it goes on.
pub proof fn law_stream_grows(tcb: Tcb, stream: Seq<u8>, more: Seq<u8>, read: int)
    requires
        tcb.delivers(stream, read),
    ensures
        tcb.delivers(stream + more, read),
{
    let got = read + tcb.rx_buffer.contents.len();
    assert((stream + more).subrange(read, got) =~= stream.subrange(read, got));
}

/// The acknowledgement number counts exactly the octets that were enqueued and the FIN.
pub proof fn law_expected_counts(tcb: Tcb, now: u64, ip: IpRepr, segment: TcpSegment)
    requires
        tcb.wf(),
        tcb.can_process(now, ip, segment),
        tcb.synchronized(),
    ensures
        ({
            let after = tcb.arrives(now, ip, segment).0;
            let enqueued = after.rx_buffer.contents.len() - tcb.rx_buffer.contents.len();
            let fin: int = if tcb.takes(segment) && segment.control == TcpControl::Fin {
                1
            } else {
                0
            };
            &&& 0 <= enqueued
            &&& after.expected() == tcb.expected().plus(enqueued + fin)
        }),
{
    if tcb.takes(segment) && segment.payload.len() > 0 {
        lemma_front_fits(tcb, tcb.offset(segment), segment.payload.len() as int);
    }
}

/// What the user enqueues goes to the end of the stream.
pub proof fn law_sending_offers(tcb: Tcb, data: Seq<u8>, stream: Seq<u8>, acked: int)
    requires
        tcb.offers(stream, acked),
        data.len() <= tcb.tx_buffer.free.len(),
    ensures
        tcb.sending(data).offers(stream + data, acked),
{
    assert(stream.skip(acked) + data =~= (stream + data).skip(acked));
}

/// What is acknowledged leaves the transmit buffer from the front, and the sequence number of
/// its beginning moves along: an acknowledgement of `local_seq_no + n` removes `n` octets,
/// where the SYN and the FIN count for one each.
pub proof fn law_arrival_offers(
    tcb: Tcb,
    now: u64,
    ip: IpRepr,
    segment: TcpSegment,
    stream: Seq<u8>,
    acked: int,
)
    requires
        tcb.wf(),
        tcb.can_process(now, ip, segment),
        tcb.offers(stream, acked),
    ensures
        ({
            let after = tcb.arrives(now, ip, segment).0;
            let removed = tcb.tx_buffer.contents.len() - after.tx_buffer.contents.len();
            let flags: int = if tcb.syn_pending() || tcb.acks_fin(segment) {
                1
            } else {
                0
            };
            &&& 0 <= removed
            &&& after.offers(stream, acked + removed)
            &&& tcb.takes(segment) && tcb.state != State::Listen ==> after.local_seq_no
                == tcb.local_seq_no.plus(removed + flags)
            &&& !tcb.takes(segment) ==> removed == 0 && after.local_seq_no == tcb.local_seq_no
        }),
{
    if tcb.takes(segment) {
        let count = tcb.acked_octets(segment);
        assert(0 <= count <= tcb.tx_buffer.contents.len());
        assert(tcb.tx_buffer.contents.skip(count) =~= stream.skip(acked + count));
    }
}

/// A packet carries, at each of its sequence numbers, the octet of the stream that belongs
/// there, however often it is sent; and sending it does not touch the stream.
pub proof fn law_dispatch_offers(tcb: Tcb, now: u64, mtu: usize, stream: Seq<u8>, acked: int)
    requires
        tcb.wf(),
        tcb.can_dispatch(now, mtu),
        tcb.offers(stream, acked),
    ensures
        match tcb.plan(now, mtu) {
            Plan::Refuse { after, .. } => after.offers(stream, acked) || after
                == tcb.clocked(now).reset(),
            Plan::Send { packet, sent, unsent } => {
                &&& sent.offers(stream, acked)
                &&& unsent.offers(stream, acked)
                &&& !tcb.clocked(now).keeps_alive(now, tcb.clocked(now).next_segment()) ==> part_of(
                    packet.1.payload,
                    stream,
                    acked + packet.1.seq_number.since(tcb.local_seq_no),
                )
            },
        },
{
    let clocked = tcb.clocked(now);
    let payload = clocked.next_payload();
    if tcb.plan(now, mtu) is Send && payload.len() > 0 {
        let at = acked + clocked.sent_len();
        assert(payload =~= stream.subrange(at, at + payload.len()));
    }
}

/// Whether a sender, `acked` octets into a stream, and a receiver that has got `got` octets of
/// it agree on sequence numbers. The receiver is where the sender thinks it is, or ahead of it.
pub open spec fn in_step(sender: Tcb, acked: int, receiver: Tcb, got: int) -> bool {
    &&& acked <= got
    &&& receiver.expected().since(sender.local_seq_no) == got - acked
}

/// From one end to the other: if the sending half of one connection offers a stream, and the
/// receiving half of the other one, in step with it, delivers it, then any packet that goes from
/// one to the other leaves it so. What is read is what was written.
pub proof fn law_end_to_end(
    sender: Tcb,
    receiver: Tcb,
    now: u64,
    mtu: usize,
    then: u64,
    stream: Seq<u8>,
    acked: int,
    read: int,
)
    requires
        sender.wf(),
        sender.can_dispatch(now, mtu),
        sender.offers(stream, acked),
        receiver.wf(),
        receiver.synchronized(),
        receiver.delivers(stream, read),
        in_step(sender, acked, receiver, read + receiver.rx_buffer.contents.len()),
        sender.plan(now, mtu) matches Plan::Send { packet, .. } && {
            &&& receiver.can_process(then, packet.0, packet.1)
            // A keep-alive packet is not part of the stream, and may only be sent over what
            // the receiver already has.
            &&& sender.clocked(now).keeps_alive(now, sender.clocked(now).next_segment())
                ==> !receiver.in_window(packet.1)
        },
    ensures
        sender.plan(now, mtu) matches Plan::Send { packet, sent, .. } && {
            let after = receiver.arrives(then, packet.0, packet.1).0;
            &&& sent.offers(stream, acked)
            &&& after.delivers(stream, read)
            &&& after.rx_buffer.contents.len() >= receiver.rx_buffer.contents.len()
            // The FIN ends the stream.
            &&& packet.1.control != TcpControl::Fin ==> in_step(
                sent,
                acked,
                after,
                read + after.rx_buffer.contents.len(),
            )
        },
{
    law_dispatch_offers(sender, now, mtu, stream, acked);
    let packet = sender.plan(now, mtu)->Send_packet;
    let segment = packet.1;
    if receiver.in_window(segment) && segment.payload.len() > 0 {
        let got = read + receiver.rx_buffer.contents.len();
        let at = acked + segment.seq_number.since(sender.local_seq_no);
        assert(got + receiver.offset(segment) == at);
    }
    law_arrival_delivers(receiver, then, packet.0, segment, stream, read);
    law_expected_counts(receiver, then, packet.0, segment);
}

/// And back: when the receiver acknowledges what it has got, the sender keeps exactly the rest.
pub proof fn law_acknowledged_is_received(
    sender: Tcb,
    receiver: Tcb,
    now: u64,
    ip: IpRepr,
    segment: TcpSegment,
    stream: Seq<u8>,
    acked: int,
    read: int,
)
    requires
        sender.wf(),
        sender.can_process(now, ip, segment),
        sender.offers(stream, acked),
        receiver.wf(),
        receiver.delivers(stream, read),
        in_step(sender, acked, receiver, read + receiver.rx_buffer.contents.len()),
        segment.ack_number == Some(receiver.expected()),
        sender.takes(segment),
        !sender.syn_pending(),
    ensures
        ({
            let after = sender.arrives(now, ip, segment).0;
            let got = read + receiver.rx_buffer.contents.len();
            &&& after.offers(stream, got)
            &&& in_step(after, got, receiver, got)
        }),
{
    law_arrival_offers(sender, now, ip, segment, stream, acked);
}

/// Something that happens to the receiving half of a connection.
pub enum Happening {
    /// A packet arrives.
    Arrival { now: u64, ip: IpRepr, segment: TcpSegment },
    /// The user reads.
    Reading { count: int },
}

impl Tcb {
    /// Whether something can happen to a connection with a remote end that sends the stream.
    pub open spec fn admits(self, happening: Happening, stream: Seq<u8>, read: int) -> bool {
        match happening {
            Happening::Arrival { now, ip, segment } => {
                &&& self.can_process(now, ip, segment)
                &&& self.in_window(segment) ==> self.carries(stream, read, segment)
            },
            Happening::Reading { count } => 0 <= count <= self.rx_buffer.contents.len(),
        }
    }

    /// The block after something has happened.
    pub open spec fn after(self, happening: Happening) -> Tcb {
        match happening {
            Happening::Arrival { now, ip, segment } => self.arrives(now, ip, segment).0,
            Happening::Reading { count } => self.reading(count),
        }
    }

    /// The octets that are handed to the user.
    pub open spec fn handed_out(self, happening: Happening) -> Seq<u8> {
        match happening {
            Happening::Arrival { .. } => Seq::empty(),
            Happening::Reading { count } => self.rx_buffer.contents.take(count),
        }
    }

    /// Whether all this can happen, one thing after the other.
    pub open spec fn admits_all(
        self,
        happenings: Seq<Happening>,
        stream: Seq<u8>,
        read: int,
    ) -> bool
        decreases happenings.len(),
    {
        happenings.len() > 0 ==> {
            let first = happenings[0];
            &&& self.admits(first, stream, read)
            &&& self.after(first).admits_all(
                happenings.skip(1),
                stream,
                read + self.handed_out(first).len(),
            )
        }
    }

    /// All octets that are handed to the user while all this happens.
    pub open spec fn handed_out_by_all(self, happenings: Seq<Happening>) -> Seq<u8>
        decreases happenings.len(),
    {
        if happenings.len() == 0 {
            Seq::empty()
        } else {
            self.handed_out(happenings[0]) + self.after(happenings[0]).handed_out_by_all(
                happenings.skip(1),
            )
        }
    }
}

/// What arrives keeps the invariant of the block.
pub proof fn law_arrival_wf(tcb: Tcb, now: u64, ip: IpRepr, segment: TcpSegment)
    requires
        tcb.wf(),
        tcb.can_process(now, ip, segment),
    ensures
        tcb.arrives(now, ip, segment).0.wf(),
{
    if tcb.takes(segment) && segment.payload.len() > 0 {
        let offset = tcb.offset(segment);
        let map = marked(tcb.assembler, offset, segment.payload.len() as int);
        lemma_front(map);
        lemma_front_fits(tcb, offset, segment.payload.len() as int);
        let after = tcb.arrives(now, ip, segment).0;
        assert forall|i: int|
            after.rx_buffer.free.len() <= i < after.assembler.len() implies !after.assembler[i] by {
            if i + front(map) < map.len() {
                assert(!tcb.assembler[(i + front(map)) as int]);
            }
        }
    }
}

/// Whatever happens, all that the user reads, put together, is the beginning of the stream that
/// the remote end sends: nothing is missing, repeated or out of order.
pub proof fn law_reads_are_the_stream(
    tcb: Tcb,
    happenings: Seq<Happening>,
    stream: Seq<u8>,
    read: int,
)
    requires
        tcb.wf(),
        tcb.delivers(stream, read),
        tcb.admits_all(happenings, stream, read),
    ensures
        ({
            let octets = tcb.handed_out_by_all(happenings);
            &&& read + octets.len() <= stream.len()
            &&& octets == stream.subrange(read, read + octets.len())
        }),
    decreases happenings.len(),
{
    if happenings.len() > 0 {
        let first = happenings[0];
        let after = tcb.after(first);
        let octets = tcb.handed_out(first);
        match first {
            Happening::Arrival { now, ip, segment } => {
                law_arrival_wf(tcb, now, ip, segment);
                law_arrival_delivers(tcb, now, ip, segment, stream, read);
            },
            Happening::Reading { count } => {
                law_reading_delivers(tcb, count, stream, read);
            },
        }
        law_reads_are_the_stream(after, happenings.skip(1), stream, read + octets.len());
        let rest = after.handed_out_by_all(happenings.skip(1));
        assert(octets + rest =~= stream.subrange(read, read + octets.len() + rest.len()));
    }
}

/// A segment that is the next part of the stream, and that the assembler can record, is enqueued
/// at once, and with it all that was waiting for it.
pub proof fn law_in_order_is_enqueued(tcb: Tcb, now: u64, ip: IpRepr, segment: TcpSegment)
    requires
        tcb.wf(),
        tcb.can_process(now, ip, segment),
        tcb.takes(segment),
        tcb.offset(segment) == 0,
        tcb.can_assemble(0, segment.payload),
        segment.payload.len() <= tcb.rx_buffer.free.len(),
    ensures
        ({
            let after = tcb.arrives(now, ip, segment).0;
            let contents = tcb.rx_buffer.contents + segment.payload;
            &&& after.rx_buffer.contents.len() >= contents.len()
            &&& after.rx_buffer.contents.take(contents.len() as int) == contents
        }),
{
    let map = marked(tcb.assembler, 0, segment.payload.len() as int);
    lemma_front(map);
    lemma_front_fits(tcb, 0, segment.payload.len() as int);
    if front(map) < segment.payload.len() {
        assert(map[front(map) as int]);
    }
    let after = tcb.arrives(now, ip, segment).0;
    let contents = tcb.rx_buffer.contents + segment.payload;
    assert(after.rx_buffer.contents.take(contents.len() as int) =~= contents);
}

/// A segment that leaves a hole changes nothing of what can be read, and is answered at once
/// with what is expected instead.
pub proof fn law_out_of_order_is_answered(tcb: Tcb, now: u64, ip: IpRepr, segment: TcpSegment)
    requires
        tcb.wf(),
        tcb.can_process(now, ip, segment),
        tcb.takes(segment),
        tcb.synchronized(),
        tcb.offset(segment) > 0,
        segment.payload.len() > 0,
        segment.control != TcpControl::Fin,
        tcb.can_assemble(tcb.offset(segment), segment.payload),
    ensures
        ({
            let (after, result) = tcb.arrives(now, ip, segment);
            &&& after.rx_buffer.contents == tcb.rx_buffer.contents
            &&& result matches Ok(Some(packet)) && packet.1.ack_number == Some(tcb.expected())
        }),
{
    let offset = tcb.offset(segment);
    let map = marked(tcb.assembler, offset, segment.payload.len() as int);
    lemma_front(map);
    assert(!map[0]);
    assert(front(map) == 0);
    assert(map[offset]);
    let after = tcb.arrives(now, ip, segment).0;
    assert(after.assembler[offset]);
    assert(after.rx_buffer.contents =~= tcb.rx_buffer.contents);
}

/// A segment that arrives while there is a hole is answered at once with what is expected next.
pub proof fn law_gap_is_answered(tcb: Tcb, now: u64, ip: IpRepr, segment: TcpSegment)
    requires
        tcb.wf(),
        tcb.can_process(now, ip, segment),
        tcb.takes(segment),
        segment.payload.len() > 0,
        tcb.can_assemble(tcb.offset(segment), segment.payload),
        !vacant(tcb.assembler),
    ensures
        ({
            let (after, result) = tcb.arrives(now, ip, segment);
            result matches Ok(Some(packet)) && packet.1.ack_number == Some(after.expected())
        }),
{
}

/// For what arrives in order the remote end is owed an acknowledgement, if it does not get one at
/// once. When it is sent is said below; in the FIN-WAIT-2 state, where the socket sends nothing
/// of its own accord, it is owed until the state changes, and what is sent again there is answered
/// with the number that was acknowledged last.
pub proof fn law_in_order_is_acknowledged(tcb: Tcb, now: u64, ip: IpRepr, segment: TcpSegment)
    requires
        tcb.wf(),
        tcb.can_process(now, ip, segment),
        tcb.takes(segment),
        tcb.synchronized(),
        tcb.offset(segment) == 0,
        segment.payload.len() > 0,
        tcb.can_assemble(0, segment.payload),
        tcb.remote_last_ack == Some(tcb.expected()),
    ensures
        ({
            let (after, result) = tcb.arrives(now, ip, segment);
            after.ack_to_transmit() || (result matches Ok(Some(packet)) && packet.1.ack_number
                == Some(after.expected()))
        }),
{
    law_arrival_wf(tcb, now, ip, segment);
    law_expected_counts(tcb, now, ip, segment);
    law_in_order_is_enqueued(tcb, now, ip, segment);
}

/// An acknowledgement that is owed is sent with the next packet, and is reason enough for one. Not
/// so while the socket listens, before it knows where the remote end is, while it waits for the
/// remote end to close the connection, and when it forgets the connection.
pub proof fn law_owed_ack_is_sent(tcb: Tcb, now: u64, mtu: usize)
    requires
        tcb.wf(),
        tcb.ack_to_transmit(),
        tcb.remote_endpoint.specified(),
        !(tcb.local_endpoint.addr is Unspecified),
        tcb.clocked(now).state != State::Listen,
        tcb.clocked(now).state != State::SynSent,
        tcb.clocked(now).state != State::FinWait2,
        !(tcb.clocked(now).state == State::TimeWait && tcb.timer.close_due(now)),
    ensures
        tcb.plan(now, mtu) matches Plan::Send { packet, .. } && packet.1.ack_number == Some(
            tcb.expected(),
        ),
{
    assert(tcb.clocked(now).header() is Ok);
}

/// A packet never carries more data than the remote end said that it can receive; only
/// a keep-alive packet carries its one octet in any case.
pub proof fn law_flow_control(tcb: Tcb, now: u64, mtu: usize)
    requires
        tcb.wf(),
        tcb.can_dispatch(now, mtu),
    ensures
        tcb.plan(now, mtu) matches Plan::Send { packet, .. } ==> {
            let len = packet.1.payload.len();
            if tcb.clocked(now).keeps_alive(now, tcb.clocked(now).next_segment()) {
                len == 1
            } else {
                len <= tcb.remote_win_len && len <= tcb.remote_mss
            }
        },
{
}

/// However much the remote end acknowledges, the socket can go on sending: where it left off, or,
/// if an acknowledgement of what was sent before has overtaken it, with what follows.
pub proof fn law_sending_goes_on(
    tcb: Tcb,
    now: u64,
    later: u64,
    ip: IpRepr,
    segment: TcpSegment,
    ack_number: TcpSeqNumber,
)
    requires
        tcb.wf(),
        tcb.can_process(now, ip, segment),
        tcb.takes(segment),
        tcb.synchronized(),
        segment.ack_number == Some(ack_number),
        0 <= tcb.sent_len(),
    ensures
        ({
            let clocked = tcb.arrives(now, ip, segment).0.clocked(later);
            let left = tcb.sent_len() - tcb.ack_distance(ack_number);
            clocked.sends_data() ==> clocked.sent_len() == if left > 0 {
                left
            } else {
                0
            }
        }),
{
}

/// Sending never starts before the beginning of the transmit buffer.
pub proof fn law_sending_starts_in_the_buffer(tcb: Tcb, now: u64)
    ensures
        tcb.clocked(now).sends_data() ==> tcb.clocked(now).sent_len() >= 0,
{
}

/// What arrives does not put the last numbers sent ahead of what there is, as long as the remote
/// end is not owed acknowledgements for half of the sequence space.
pub proof fn law_arrival_is_never_ahead(tcb: Tcb, now: u64, ip: IpRepr, segment: TcpSegment)
    requires
        tcb.wf(),
        tcb.can_process(now, ip, segment),
        tcb.synchronized(),
        tcb.never_ahead(),
        0 <= tcb.sent_len(),
        tcb.remote_last_ack matches Some(ack_number) ==> ack_number.since(tcb.expected())
            > i32::MIN + MAX_RX_CAPACITY,
    ensures
        ({
            let after = tcb.arrives(now, ip, segment).0;
            after.state != State::Closed && after.state != State::Listen ==> after.never_ahead()
        }),
{
    law_arrival_wf(tcb, now, ip, segment);
    law_expected_counts(tcb, now, ip, segment);
}

/// Sending data does not put the last numbers sent ahead of what there is.
pub proof fn law_dispatch_is_never_ahead(tcb: Tcb, now: u64, mtu: usize)
    requires
        tcb.wf(),
        tcb.can_dispatch(now, mtu),
        tcb.never_ahead(),
        tcb.clocked(now).sends_data(),
    ensures
        match tcb.plan(now, mtu) {
            Plan::Refuse { after, .. } => after.never_ahead(),
            Plan::Send { sent, unsent, .. } => sent.never_ahead() && unsent.never_ahead(),
        },
{
}

/// As long as the remote end has not closed the connection, what arrives in order is received,
/// whether the transmit half of the connection was closed or not.
pub proof fn law_open_half_receives(tcb: Tcb, now: u64, ip: IpRepr, segment: TcpSegment)
    requires
        tcb.wf(),
        tcb.can_process(now, ip, segment),
        tcb.state == State::Established || tcb.state == State::FinWait1 || tcb.state
            == State::FinWait2,
        segment.control.quashed() == TcpControl::Plain,
        tcb.ack_verdict(segment) == AckVerdict::Accept,
        segment.seq_number == tcb.expected(),
        0 < segment.payload.len() <= tcb.rx_buffer.free.len(),
        vacant(tcb.assembler),
    ensures
        ({
            let (after, result) = tcb.arrives(now, ip, segment);
            &&& result matches Ok(None)
            &&& after.rx_buffer.contents == tcb.rx_buffer.contents + segment.payload
            &&& after.state == if tcb.acks_fin(segment) {
                State::FinWait2
            } else {
                tcb.state
            }
            &&& after.may_recv()
        }),
{
    let size = segment.payload.len() as int;
    assert(tcb.offset(segment) == 0);
    law_in_order_always_fits(tcb.assembler, size);
    let after = tcb.arrives(now, ip, segment).0;
    assert(after.rx_buffer.contents =~= tcb.rx_buffer.contents + segment.payload);
}

/// Receiving hands out what peeking shows: the front of the receive buffer, and at least
/// something of it where there is something and room for it was asked for.
pub proof fn law_recv_hands_out_the_front(tcb: Tcb, size: int)
    requires
        tcb.wf(),
        0 <= size,
    ensures
        ({
            let piece = tcb.rx_buffer.piece(0, size);
            &&& piece.len() <= size
            &&& piece.len() > 0 <==> size > 0 && tcb.rx_buffer.contents.len() > 0
            &&& piece + tcb.reading(piece.len() as int).rx_buffer.contents
                == tcb.rx_buffer.contents
        }),
{
    let piece = tcb.rx_buffer.piece(0, size);
    assert(piece + tcb.rx_buffer.contents.skip(piece.len() as int) =~= tcb.rx_buffer.contents);
}

/// There is room to send something exactly when the transmit buffer is not full.
pub proof fn law_send_makes_room(tcb: Tcb, size: int)
    requires
        tcb.wf(),
        0 <= size,
    ensures
        tcb.tx_buffer.free_piece_len(size) <= size,
        tcb.tx_buffer.free_piece_len(size) > 0 <==> size > 0 && tcb.tx_buffer.free.len() > 0,
{
}

} // verus!
