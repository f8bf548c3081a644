//! What the segments that arrive do.

use vstd::prelude::*;

use crate::error::{Error, Result};
use crate::socket::laws::terms::{
    ack_in_range, ack_is_good, arrival_map, covers_fin, fin_waits, fits, goes_back, has_arrived,
    is_plain, is_taken, is_timely, next_expected, nothing_ahead, octet_at, payload_start, queued,
    readable, room, syn_waits, tells_status, unsynchronized,
};
use crate::socket::model::Tcb;
use crate::socket::process::{replied, reply_to, rst_reply_to, Packet};
use crate::socket::state::State;
use crate::socket::timer::Timer;
use crate::storage::assembler::{advanced, front, lemma_front, marked, pieces, vacant};
use crate::wire::ip::{IpAddress, IpRepr};
use crate::wire::tcp::{TcpControl, TcpRepr, TcpSegment, TcpSeqNumber};

verus! {

/// A segment whose acknowledgement is missing or behind is dropped, and so is a reset that does
/// not acknowledge the SYN that it answers. A segment that acknowledges more than there is to be
/// acknowledged is answered. In all of these cases nothing else happens.
pub proof fn law_bad_acknowledgements(tcb: Tcb, now: u64, ip: IpRepr, segment: TcpSegment)
    requires
        tcb.wf(),
    ensures
        ({
            let (after, result) = tcb.arrives(now, ip, segment);
            let dropped = after == tcb && result == Err::<Option<Packet>, Error>(Error::Dropped);
            let pending: int = if syn_waits(tcb.state) || fin_waits(tcb.state) {
                1
            } else {
                0
            };
            &&& segment.control != TcpControl::Rst && segment.ack_number is None && tcb.state
                != State::Listen ==> dropped
            &&& segment.control != TcpControl::Rst ==> (segment.ack_number matches Some(ack_number)
                ==> {
                let distance = ack_number.since(tcb.local_seq_no);
                &&& distance < 0 ==> dropped
                &&& distance > queued(tcb) + pending ==> after == tcb && (result matches Ok(
                    Some(packet),
                ) && tells_status(tcb, ip, segment, packet))
            })
            &&& segment.control == TcpControl::Rst && tcb.state == State::SynSent
                && segment.ack_number != Some(tcb.local_seq_no.plus(1)) ==> dropped
        }),
{
}

/// A segment that does not fit is answered by where the connection stands; in the TIME-WAIT state
/// it makes the wait start over. Nothing else happens.
pub proof fn law_does_not_fit(tcb: Tcb, now: u64, ip: IpRepr, segment: TcpSegment)
    requires
        tcb.wf(),
        ack_is_good(tcb, segment),
        !fits(tcb, segment),
        now + 10_000 <= u64::MAX,
    ensures
        ({
            let (after, result) = tcb.arrives(now, ip, segment);
            &&& result matches Ok(Some(packet)) && tells_status(tcb, ip, segment, packet)
            &&& tcb.state != State::TimeWait ==> after == tcb
            &&& tcb.state == State::TimeWait ==> (after.timer matches Timer::Close { expires_at }
                && expires_at == now + 10_000)
            &&& after == (Tcb { timer: after.timer, ..tcb })
        }),
{
}

/// A reset ends the connection and its endpoints, without an answer; a socket whose connection was
/// not established yet listens again where it listened before. A socket that listens drops it.
pub proof fn law_reset_is_final(tcb: Tcb, now: u64, ip: IpRepr, segment: TcpSegment)
    requires
        ack_is_good(tcb, segment),
        fits(tcb, segment),
        segment.control == TcpControl::Rst,
    ensures
        ({
            let (after, result) = tcb.arrives(now, ip, segment);
            let expected = if tcb.state == State::SynReceived {
                State::Listen
            } else {
                State::Closed
            };
            &&& tcb.state == State::Listen ==> after == tcb && result == Err::<
                Option<Packet>,
                Error,
            >(Error::Dropped)
            &&& tcb.state != State::Listen ==> {
                &&& result == Ok::<Option<Packet>, Error>(None)
                &&& after.state == expected
                &&& after.remote_endpoint.addr is Unspecified
                &&& after.remote_endpoint.port == 0
                &&& after.local_endpoint.addr == if tcb.state == State::SynReceived {
                    tcb.listen_address
                } else {
                    IpAddress::Unspecified
                }
                &&& after.local_endpoint.port == if tcb.state == State::SynReceived {
                    tcb.local_endpoint.port
                } else {
                    0
                }
                &&& after == (Tcb {
                    state: after.state,
                    local_endpoint: after.local_endpoint,
                    remote_endpoint: after.remote_endpoint,
                    ..tcb
                })
            }
        }),
{
}

/// A segment with a flag that means nothing in the state of the connection is dropped, and nothing
/// happens.
pub proof fn law_untimely_is_dropped(tcb: Tcb, now: u64, ip: IpRepr, segment: TcpSegment)
    requires
        ack_is_good(tcb, segment),
        fits(tcb, segment),
        segment.control != TcpControl::Rst,
        !is_timely(tcb.state, segment.control),
    ensures
        tcb.arrives(now, ip, segment).0 == tcb,
        tcb.arrives(now, ip, segment).1 == Err::<Option<Packet>, Error>(Error::Dropped),
{
}

/// A FIN closes the receive half of the connection, whatever else the segment carries. While the
/// transmit half is open, that is CLOSE-WAIT. Once it has been closed, it is TIME-WAIT if the FIN
/// of this end has been acknowledged, by this segment or before, and CLOSING if it has not. The
/// wait in TIME-WAIT takes ten seconds.
pub proof fn law_fin_closes_the_receive_half(
    tcb: Tcb,
    now: u64,
    ip: IpRepr,
    segment: TcpSegment,
    ack_number: TcpSeqNumber,
)
    requires
        now + 10_000 <= u64::MAX,
        tcb.state == State::SynReceived || tcb.state == State::Established || tcb.state
            == State::FinWait1 || tcb.state == State::FinWait2,
        segment.control == TcpControl::Fin,
        segment.ack_number == Some(ack_number),
        ack_in_range(tcb, ack_number),
        0 <= segment.seq_number.since(next_expected(tcb)),
        segment.seq_number.since(next_expected(tcb)) + segment.payload.len() + 1 <= room(tcb),
    ensures
        ({
            let after = tcb.arrives(now, ip, segment).0;
            &&& tcb.state == State::SynReceived || tcb.state == State::Established ==> after.state
                == State::CloseWait
            &&& tcb.state == State::FinWait1 && ack_number.since(tcb.local_seq_no) == queued(tcb)
                + 1 ==> after.state == State::TimeWait
            &&& tcb.state == State::FinWait1 && ack_number.since(tcb.local_seq_no) <= queued(tcb)
                ==> after.state == State::Closing
            &&& tcb.state == State::FinWait2 ==> after.state == State::TimeWait
            &&& after.state == State::TimeWait ==> (after.timer matches Timer::Close { expires_at }
                && expires_at == now + 10_000)
            &&& after.state != State::TimeWait ==> after.timer is Idle
            &&& after.remote_seq_no == tcb.remote_seq_no.plus(1)
            &&& after.remote_endpoint == tcb.remote_endpoint
        }),
{
}

/// The state that a segment leads to, for each state in which it means something: a SYN opens the
/// connection, a FIN closes its receive half, and a segment without either ends a state that waited
/// for it, if it acknowledges what was waited for.
pub proof fn law_segments_lead_on(tcb: Tcb, now: u64, ip: IpRepr, segment: TcpSegment)
    requires
        is_taken(tcb, segment),
    ensures
        ({
            let state = tcb.arrives(now, ip, segment).0.state;
            let control = segment.control;
            &&& tcb.state == State::Listen ==> state == State::SynReceived
            &&& tcb.state == State::SynSent ==> state == State::Established
            &&& tcb.state == State::SynReceived && is_plain(control) ==> state
                == State::Established
            &&& tcb.state == State::Established && is_plain(control) ==> state
                == State::Established
            &&& tcb.state == State::FinWait1 && is_plain(control) ==> state == if covers_fin(
                tcb,
                segment,
            ) {
                State::FinWait2
            } else {
                State::FinWait1
            }
            &&& tcb.state == State::FinWait2 && is_plain(control) ==> state == State::FinWait2
            &&& tcb.state == State::CloseWait ==> state == State::CloseWait
            &&& tcb.state == State::Closing ==> state == if covers_fin(tcb, segment) {
                State::TimeWait
            } else {
                State::Closing
            }
            &&& tcb.state == State::LastAck ==> state == State::Closed
            &&& control == TcpControl::Fin ==> (state == State::CloseWait || state == State::Closing
                || state == State::TimeWait)
        }),
{
}

/// A segment that is taken ends the wait for an acknowledgement: the timer is left to the next
/// keep-alive packet, or to the end of the TIME-WAIT state. When the connection is over, nothing is
/// waited for that was not before, and the remote end is forgotten.
pub proof fn law_segments_end_the_wait(tcb: Tcb, now: u64, ip: IpRepr, segment: TcpSegment)
    requires
        is_taken(tcb, segment),
        now + 10_000 <= u64::MAX,
        tcb.keep_alive matches Some(interval) ==> now + interval <= u64::MAX,
    ensures
        ({
            let after = tcb.arrives(now, ip, segment).0;
            &&& after.state == State::TimeWait ==> (after.timer matches Timer::Close { expires_at }
                && expires_at == now + 10_000)
            &&& after.state == State::Closed ==> after.timer == tcb.timer
            &&& after.state == State::Closed ==> after.remote_endpoint.addr is Unspecified
                && after.remote_endpoint.port == 0
            &&& after.state != State::TimeWait && after.state != State::Closed ==> (
            after.timer matches Timer::Idle { keep_alive_at } && match tcb.keep_alive {
                Some(interval) => keep_alive_at matches Some(at) && at == now + interval,
                None => keep_alive_at is None,
            })
        }),
{
}

/// A segment that is taken says when the remote end was last heard of, how much it can receive and
/// up to where it has received. What it acknowledges leaves the front of the transmit buffer: as
/// many octets as its acknowledgement number says, but for the SYN or FIN that it acknowledges.
pub proof fn law_acknowledged_is_forgotten(
    tcb: Tcb,
    now: u64,
    ip: IpRepr,
    segment: TcpSegment,
    ack_number: TcpSeqNumber,
)
    requires
        tcb.wf(),
        is_taken(tcb, segment),
        segment.ack_number == Some(ack_number),
        syn_waits(tcb.state) ==> ack_number != tcb.local_seq_no,
    ensures
        ({
            let after = tcb.arrives(now, ip, segment).0;
            let count = ack_number.since(tcb.local_seq_no) - if syn_waits(tcb.state) || covers_fin(
                tcb,
                segment,
            ) {
                1int
            } else {
                0int
            };
            &&& after.remote_last_ts == Some(now)
            &&& after.remote_win_len == segment.window_len
            &&& after.local_seq_no == ack_number
            &&& 0 <= count <= queued(tcb)
            &&& queued(after) == queued(tcb) - count
            &&& forall|i: int|
                0 <= i < queued(after) ==> #[trigger] after.tx_buffer.contents[i]
                    == tcb.tx_buffer.contents[count + i]
            &&& after.tx_buffer.free.len() == tcb.tx_buffer.free.len() + count
        }),
{
}

/// The first SYN that a listening socket gets says who the remote end is and where it starts to
/// count; the socket answers from the address that was called, and counts from the number opposite.
pub proof fn law_syn_opens(tcb: Tcb, now: u64, ip: IpRepr, segment: TcpSegment)
    requires
        tcb.state == State::Listen,
        segment.control == TcpControl::Syn,
        segment.ack_number is None,
    ensures
        ({
            let after = tcb.arrives(now, ip, segment).0;
            &&& after.state == State::SynReceived
            &&& after.local_endpoint.addr == ip.dst()
            &&& after.local_endpoint.port == segment.dst_port
            &&& after.remote_endpoint.addr == ip.src()
            &&& after.remote_endpoint.port == segment.src_port
            &&& after.remote_seq_no == segment.seq_number.plus(1)
            &&& after.local_seq_no == segment.seq_number.opposite()
            &&& after.remote_last_seq == after.local_seq_no
            &&& after.remote_mss == match segment.max_seg_size {
                Some(max_seg_size) => max_seg_size as usize,
                None => tcb.remote_mss,
            }
            &&& after.remote_win_len == segment.window_len
            &&& after.remote_last_ts == Some(now)
            &&& after.tx_buffer.contents == tcb.tx_buffer.contents
            &&& after.listen_address == tcb.listen_address
        }),
{
    assert(tcb.tx_buffer.contents.skip(0) =~= tcb.tx_buffer.contents);
}

/// The SYN that answers the one of this end says where the remote end starts to count; both SYNs
/// are then behind, and the socket knows which of its addresses was answered.
pub proof fn law_syn_is_answered(tcb: Tcb, now: u64, ip: IpRepr, segment: TcpSegment)
    requires
        tcb.state == State::SynSent,
        is_taken(tcb, segment),
    ensures
        ({
            let after = tcb.arrives(now, ip, segment).0;
            &&& after.state == State::Established
            &&& after.local_endpoint.addr == ip.dst()
            &&& after.local_endpoint.port == segment.dst_port
            &&& after.remote_endpoint == tcb.remote_endpoint
            &&& after.remote_seq_no == segment.seq_number.plus(1)
            &&& segment.ack_number == Some(after.local_seq_no)
            &&& after.remote_last_seq == tcb.local_seq_no.plus(1)
            &&& after.remote_mss == match segment.max_seg_size {
                Some(max_seg_size) => max_seg_size as usize,
                None => tcb.remote_mss,
            }
        }),
{
}

/// What a segment that is taken does not speak of stays as it is: the settings of the user, the
/// window that was announced last, and, unless it is a SYN, the endpoints, the largest segment and
/// what was sent last. Unless it has a flag, the numbers of the remote end stay as they are.
pub proof fn law_segments_leave_alone(tcb: Tcb, now: u64, ip: IpRepr, segment: TcpSegment)
    requires
        is_taken(tcb, segment),
    ensures
        ({
            let after = tcb.arrives(now, ip, segment).0;
            &&& after.debug_id == tcb.debug_id
            &&& after.timeout == tcb.timeout
            &&& after.keep_alive == tcb.keep_alive
            &&& after.listen_address == tcb.listen_address
            &&& after.remote_last_win == tcb.remote_last_win
            &&& segment.control != TcpControl::Syn ==> {
                &&& after.local_endpoint == tcb.local_endpoint
                &&& after.state != State::Closed ==> after.remote_endpoint == tcb.remote_endpoint
                &&& after.remote_last_seq == tcb.remote_last_seq
                &&& after.remote_mss == tcb.remote_mss
                &&& after.remote_seq_no == if segment.control == TcpControl::Fin {
                    tcb.remote_seq_no.plus(1)
                } else {
                    tcb.remote_seq_no
                }
            }
            &&& segment.payload.len() == 0 ==> {
                &&& after.rx_buffer == tcb.rx_buffer
                &&& after.assembler == tcb.assembler
                &&& after.remote_last_ack == tcb.remote_last_ack
                &&& tcb.arrives(now, ip, segment).1 == Ok::<Option<Packet>, Error>(None)
            }
        }),
{
}

/// Where the payload of a segment that is taken ends up. What has arrived without a gap, before it
/// and with it, is appended to what can be read, and nothing else is; what lies past a gap is kept
/// at its place, and remembered.
pub proof fn law_payload_is_kept(tcb: Tcb, now: u64, ip: IpRepr, segment: TcpSegment)
    requires
        tcb.wf(),
        is_taken(tcb, segment),
        segment.payload.len() > 0,
        readable(tcb) == 0 || payload_start(tcb, segment) + segment.payload.len() <= room(tcb),
        tcb.arrives(now, ip, segment).1 is Ok,
    ensures
        ({
            let after = tcb.arrives(now, ip, segment).0;
            let count = readable(after) - readable(tcb);
            &&& 0 <= count <= room(tcb)
            &&& room(after) == room(tcb) - count
            &&& after.rx_buffer.head == tcb.rx_buffer.head
            &&& forall|i: int| 0 <= i < count ==> #[trigger] has_arrived(tcb, segment, i)
            &&& !has_arrived(tcb, segment, count)
            &&& forall|i: int|
                0 <= i < readable(tcb) ==> #[trigger] after.rx_buffer.contents[i]
                    == tcb.rx_buffer.contents[i]
            &&& forall|i: int|
                0 <= i < count ==> after.rx_buffer.contents[readable(tcb) + i]
                    == #[trigger] octet_at(tcb, segment, i)
            &&& forall|i: int|
                0 <= i < room(after) ==> #[trigger] after.rx_buffer.free[i] == octet_at(
                    tcb,
                    segment,
                    count + i,
                )
            &&& after.assembler.len() == tcb.assembler.len()
            &&& forall|i: int|
                0 <= i < after.assembler.len() ==> #[trigger] after.assembler[i] == has_arrived(
                    tcb,
                    segment,
                    count + i,
                )
        }),
{
    let map = marked(tcb.assembler, payload_start(tcb, segment), segment.payload.len() as int);
    lemma_front(map);
    let k = front(map) as int;
    assert forall|i: int| 0 <= i < k implies #[trigger] has_arrived(tcb, segment, i) by {
        assert(map[i]);
    }
    assert(k <= room(tcb)) by {
        if k > room(tcb) {
            assert(map[room(tcb)]);
            assert(!tcb.assembler[room(tcb)]);
        }
    }
    let after = tcb.arrives(now, ip, segment).0;
    assert(readable(after) == readable(tcb) + k);
    assert(after.assembler == advanced(map, k));
    let written = tcb.rx_buffer.written(payload_start(tcb, segment), segment.payload);
    assert forall|i: int| 0 <= i < k implies after.rx_buffer.contents[readable(tcb) + i]
        == #[trigger] octet_at(tcb, segment, i) by {
        assert(after.rx_buffer.contents[readable(tcb) + i] == written.free[i]);
    }
}

/// A payload is answered at once if something is, or was, missing before it; the answer says how
/// far the stream has come without a gap. If nothing is missing, there is no answer, and what was
/// acknowledged last stays as it is. A payload that would leave too many gaps is dropped, and what
/// was received stays as it is.
pub proof fn law_gaps_are_reported(tcb: Tcb, now: u64, ip: IpRepr, segment: TcpSegment)
    requires
        tcb.wf(),
        is_taken(tcb, segment),
        segment.payload.len() > 0,
        readable(tcb) == 0 || payload_start(tcb, segment) + segment.payload.len() <= room(tcb),
    ensures
        ({
            let (after, result) = tcb.arrives(now, ip, segment);
            let complete = nothing_ahead(tcb) && nothing_ahead(after);
            &&& result is Err <==> pieces(arrival_map(tcb, segment)) > 4
            &&& result matches Err(error) ==> error == Error::Dropped && after.rx_buffer
                == tcb.rx_buffer && after.assembler == tcb.assembler && after.remote_last_ack
                == tcb.remote_last_ack
            &&& result is Ok && complete ==> result == Ok::<Option<Packet>, Error>(None)
                && after.remote_last_ack == tcb.remote_last_ack
            &&& result is Ok && !complete ==> {
                &&& after.remote_last_ack == Some(next_expected(after))
                &&& result matches Ok(Some(packet)) && tells_status(after, ip, segment, packet)
            }
        }),
{
    let start = payload_start(tcb, segment);
    let recorded = marked(tcb.assembler, start, segment.payload.len() as int);
    assert(arrival_map(tcb, segment) =~= recorded);
    assert(nothing_ahead(tcb) == vacant(tcb.assembler));
    let after = tcb.arrives(now, ip, segment).0;
    assert(nothing_ahead(after) == vacant(after.assembler));
    if tcb.arrives(now, ip, segment).1 is Ok {
        law_payload_is_kept(tcb, now, ip, segment);
    }
}

/// The packet that is returned in reply to another goes back to where that came from, with nothing
/// in it. A reset in reply takes the place that the other packet expects it at: the number that it
/// acknowledges. It acknowledges a SYN, with all that came with it, and nothing else.
pub proof fn law_replies_go_back(ip: IpRepr, segment: TcpSegment)
    ensures
        goes_back(ip, segment, reply_to(ip, segment)),
        goes_back(ip, segment, rst_reply_to(ip, segment)),
        reply_to(ip, segment).1.control == TcpControl::Plain,
        reply_to(ip, segment).1.seq_number.0 == 0,
        reply_to(ip, segment).1.ack_number is None,
        reply_to(ip, segment).1.window_len == 0,
        ({
            let reply = rst_reply_to(ip, segment).1;
            &&& reply.control == TcpControl::Rst
            &&& reply.window_len == 0
            &&& segment.ack_number matches Some(ack_number) ==> reply.seq_number == ack_number
            &&& segment.ack_number is None ==> reply.seq_number.0 == 0
            &&& segment.control == TcpControl::Syn ==> reply.ack_number == Some(
                segment.seq_number.plus(segment.payload.len() as int + 1),
            )
            &&& segment.control != TcpControl::Syn ==> reply.ack_number is None
        }),
{
}

/// An acknowledgement in reply tells where the connection stands.
pub proof fn law_ack_reply_tells(tcb: Tcb, ip: IpRepr, segment: TcpSegment)
    requires
        tcb.wf(),
    ensures
        tells_status(tcb, ip, segment, tcb.ack_reply_to(ip, segment)),
{
}

/// What is said of a reply is what the reply says.
pub proof fn law_replies_say(reply: Result<Option<(IpRepr, TcpRepr<'static>)>>)
    ensures
        match reply {
            Ok(Some((ip_repr, repr))) => replied(reply) matches Ok(Some(packet)) && packet.0
                == ip_repr && packet.1 == repr@,
            Ok(None) => replied(reply) == Ok::<Option<Packet>, Error>(None),
            Err(error) => replied(reply) == Err::<Option<Packet>, Error>(error),
        },
{
}

/// All packets that are meant for the socket can be processed, but for those that set a timer
/// beyond the end of the clock, those that leave out the SYN from what they acknowledge, and a SYN
/// with more data than there is room for behind what was read of an earlier one.
pub proof fn law_packets_can_be_processed(tcb: Tcb, now: u64, ip: IpRepr, segment: TcpSegment)
    requires
        tcb.accepts(ip, segment),
        now + 10_000 <= u64::MAX,
        tcb.keep_alive matches Some(interval) ==> now + interval <= u64::MAX,
        syn_waits(tcb.state) && segment.control != TcpControl::Rst ==> segment.ack_number != Some(
            tcb.local_seq_no,
        ),
        unsynchronized(tcb.state) ==> readable(tcb) == 0 || segment.payload.len() <= room(tcb),
    ensures
        tcb.can_process(now, ip, segment),
{
}

} // verus!
