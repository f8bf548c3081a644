//! What the calls of the user do.

use vstd::prelude::*;

use crate::error::Error;
use crate::socket::dispatch::Plan;
use crate::socket::laws::departure::{law_packets_carry, law_reasons_to_send};
use crate::socket::laws::terms::{
    can_count, can_talk, names_host, names_peer, next_expected, queued, readable, room, smaller,
    too_quiet,
};
use crate::socket::model::Tcb;
use crate::socket::state::State;
use crate::socket::tcp::TcpSocket;
use crate::socket::timer::Timer;
use crate::storage::ring_buffer::Ring;
use crate::wire::ip::{IpAddress, IpEndpoint, IpRepr};
use crate::wire::tcp::{TcpControl, TcpSegment};

verus! {

/// A block hides nothing of its socket.
pub proof fn law_block_shows_the_socket(socket: TcpSocket)
    ensures
        socket@.debug_id == socket.debug_id,
        socket@.state == socket.state,
        socket@.timer == socket.timer,
        socket@.assembler == socket.assembler@,
        socket@.rx_buffer == socket.rx_buffer@,
        socket@.tx_buffer == socket.tx_buffer@,
        socket@.timeout == socket.timeout,
        socket@.keep_alive == socket.keep_alive,
        socket@.listen_address == socket.listen_address,
        socket@.local_endpoint == socket.local_endpoint,
        socket@.remote_endpoint == socket.remote_endpoint,
        socket@.local_seq_no == socket.local_seq_no,
        socket@.remote_seq_no == socket.remote_seq_no,
        socket@.remote_last_seq == socket.remote_last_seq,
        socket@.remote_last_ack == socket.remote_last_ack,
        socket@.remote_last_win == socket.remote_last_win,
        socket@.remote_win_len == socket.remote_win_len,
        socket@.remote_mss == socket.remote_mss,
        socket@.remote_last_ts == socket.remote_last_ts,
{
}

/// The invariant asks for no more than buffers that are sound, a receive buffer that can be
/// announced, and an assembler that starts with a hole and ends with the room in the buffer.
pub proof fn law_invariant_is_met(tcb: Tcb)
    requires
        0 <= tcb.rx_buffer.head < readable(tcb) + room(tcb) || (tcb.rx_buffer.head == 0 && readable(
            tcb,
        ) + room(tcb) == 0),
        0 <= tcb.tx_buffer.head < queued(tcb) + tcb.tx_buffer.free.len() || (tcb.tx_buffer.head == 0
            && queued(tcb) + tcb.tx_buffer.free.len() == 0),
        queued(tcb) + tcb.tx_buffer.free.len() <= usize::MAX,
        readable(tcb) + room(tcb) <= 65535,
        tcb.assembler.len() == readable(tcb) + room(tcb),
        tcb.assembler.len() > 0 ==> !tcb.assembler[0],
        forall|i: int| room(tcb) <= i < tcb.assembler.len() ==> !#[trigger] tcb.assembler[i],
    ensures
        tcb.wf(),
{
}

/// A new socket has no connection, no settings, and the buffers that it was given.
pub proof fn law_new_socket(id: usize, rx: Ring<u8>, tx: Ring<u8>)
    ensures
        ({
            let tcb = Tcb::fresh(id, rx, tx);
            &&& tcb.debug_id == id
            &&& tcb.rx_buffer == rx
            &&& tcb.tx_buffer == tx
            &&& tcb.state == State::Closed
            &&& tcb.timer == (Timer::Idle { keep_alive_at: None })
            &&& tcb.timeout is None
            &&& tcb.keep_alive is None
            &&& tcb.listen_address is Unspecified
            &&& tcb.local_endpoint.addr is Unspecified
            &&& tcb.local_endpoint.port == 0
            &&& tcb.remote_endpoint == tcb.local_endpoint
            &&& tcb.local_seq_no.0 == 0
            &&& tcb.remote_seq_no.0 == 0
            &&& tcb.remote_last_seq.0 == 0
            &&& tcb.remote_last_ack is None
            &&& tcb.remote_last_win == 0
            &&& tcb.remote_win_len == 0
            &&& tcb.remote_mss == 536
            &&& tcb.remote_last_ts is None
            &&& tcb.assembler.len() == rx.contents.len() + rx.free.len()
            &&& forall|i: int| 0 <= i < tcb.assembler.len() ==> !#[trigger] tcb.assembler[i]
        }),
{
}

/// Forgetting a connection empties both buffers, without making them smaller, and leaves all else
/// but the debug identifier as in a new socket.
pub proof fn law_reset_forgets(tcb: Tcb)
    requires
        tcb.wf(),
    ensures
        ({
            let after = tcb.reset();
            &&& readable(after) == 0
            &&& queued(after) == 0
            &&& room(after) == readable(tcb) + room(tcb)
            &&& after.tx_buffer.free.len() == queued(tcb) + tcb.tx_buffer.free.len()
            &&& after.rx_buffer.head == 0
            &&& after.tx_buffer.head == 0
            &&& after == Tcb::fresh(tcb.debug_id, after.rx_buffer, after.tx_buffer)
        }),
{
}

/// Whom a socket listens to and talks to: a packet is accepted if it is sent to the local port, and
/// to the local address if there is one; if it comes from the remote port, if there is one, and
/// from the remote address, if there is one; and, while the socket listens, if it acknowledges
/// nothing. A closed socket accepts nothing.
pub proof fn law_accepted_packets(tcb: Tcb, ip: IpRepr, segment: TcpSegment)
    ensures
        tcb.accepts(ip, segment) <==> {
            &&& tcb.state != State::Closed
            &&& !(tcb.state == State::Listen && segment.ack_number is Some)
            &&& segment.dst_port == tcb.local_endpoint.port
            &&& names_host(tcb.local_endpoint.addr) ==> ip.dst() == tcb.local_endpoint.addr
            &&& tcb.remote_endpoint.port != 0 ==> segment.src_port == tcb.remote_endpoint.port
            &&& names_host(tcb.remote_endpoint.addr) ==> ip.src() == tcb.remote_endpoint.addr
        },
{
    lemma_unspecified(tcb.local_endpoint.addr);
    lemma_unspecified(tcb.remote_endpoint.addr);
}

/// An address names no host if all of its octets are zero.
proof fn lemma_unspecified(addr: IpAddress)
    ensures
        addr.unspecified() <==> !names_host(addr),
{
    if let IpAddress::Ipv4(v4) = addr {
        if !names_host(addr) {
            assert(v4.0@ =~= seq![0u8, 0u8, 0u8, 0u8]);
        }
    }
}

/// A socket that listens on an endpoint has that endpoint as its own, and accepts a packet from
/// anyone, as long as it acknowledges nothing and is sent to the port, and to the address, if one
/// was given.
pub proof fn law_listens_where_told(
    tcb: Tcb,
    local: IpEndpoint,
    ip: IpRepr,
    segment: TcpSegment,
)
    requires
        tcb.wf(),
    ensures
        tcb.listening(local).local_endpoint == local,
        tcb.listening(local).listen_address == local.addr,
        tcb.listening(local).state == State::Listen,
        !names_peer(tcb.listening(local).remote_endpoint),
        segment.ack_number is None ==> (tcb.listening(local).accepts(ip, segment) <==> (
        segment.dst_port == local.port && (names_host(local.addr) ==> ip.dst() == local.addr))),
        segment.ack_number is Some ==> !tcb.listening(local).accepts(ip, segment),
        tcb.listening(local) == (Tcb {
            state: State::Listen,
            listen_address: local.addr,
            local_endpoint: local,
            ..tcb.reset()
        }),
{
    law_accepted_packets(tcb.listening(local), ip, segment);
}

/// A request to listen is refused for want of a port, and else because the socket is open; nothing
/// else is asked.
pub proof fn law_listen_is_answered(tcb: Tcb, local: IpEndpoint)
    ensures
        ({
            let open = tcb.state != State::Closed && tcb.state != State::TimeWait;
            &&& tcb.listen_result(local) == Err::<(), Error>(Error::Unaddressable) <==> local.port
                == 0
            &&& tcb.listen_result(local) == Err::<(), Error>(Error::Illegal) <==> local.port != 0
                && open
            &&& tcb.listen_result(local) is Ok <==> local.port != 0 && !open
        }),
{
}

/// A socket that connects to an endpoint talks to that endpoint alone, from the given port and from
/// whichever of its addresses is answered; it starts with empty buffers where the last connection
/// ended.
pub proof fn law_connects_where_told(
    tcb: Tcb,
    remote: IpEndpoint,
    local: IpEndpoint,
    ip: IpRepr,
    segment: TcpSegment,
)
    requires
        tcb.wf(),
        names_peer(remote),
    ensures
        ({
            let after = tcb.connecting(remote, local);
            &&& after.state == State::SynSent
            &&& after.remote_endpoint == remote
            &&& after.local_endpoint.port == local.port
            &&& after.local_endpoint.addr matches IpAddress::Ipv4(v4) && !names_host(
                IpAddress::Ipv4(v4),
            )
            &&& after.local_seq_no == tcb.local_seq_no
            &&& after.remote_last_seq == tcb.local_seq_no
            &&& queued(after) == 0
            &&& readable(after) == 0
            &&& after == (Tcb {
                state: after.state,
                local_endpoint: after.local_endpoint,
                remote_endpoint: after.remote_endpoint,
                local_seq_no: after.local_seq_no,
                remote_last_seq: after.remote_last_seq,
                ..tcb.reset()
            })
            &&& after.accepts(ip, segment) <==> segment.dst_port == local.port && segment.src_port
                == remote.port && ip.src() == remote.addr
        }),
{
    law_accepted_packets(tcb.connecting(remote, local), ip, segment);
}

/// A request to connect is refused because the socket is open, and else for want of a remote
/// address, a remote port or a local port; nothing else is asked.
pub proof fn law_connect_is_answered(tcb: Tcb, remote: IpEndpoint, local: IpEndpoint)
    ensures
        ({
            let open = tcb.state != State::Closed && tcb.state != State::TimeWait;
            let given = names_peer(remote) && local.port != 0;
            let result = tcb.connect_result(remote, local);
            &&& result == Err::<(), Error>(Error::Illegal) <==> open
            &&& result == Err::<(), Error>(Error::Unaddressable) <==> !open && !given
            &&& result is Ok <==> !open && given
        }),
{
    lemma_unspecified(remote.addr);
}

/// Closing the transmit half of a connection leaves a FIN to be sent after all that is queued,
/// whatever the buffers hold, and keeps the receive half open. Where there is no connection yet,
/// the socket is closed; where the transmit half is closed already, nothing happens.
pub proof fn law_close_leaves_a_fin(tcb: Tcb)
    ensures
        ({
            let after = tcb.closing();
            &&& tcb.state == State::SynReceived || tcb.state == State::Established ==> after.state
                == State::FinWait1
            &&& tcb.state == State::CloseWait ==> after.state == State::LastAck
            &&& tcb.state == State::Listen || tcb.state == State::SynSent ==> after.state
                == State::Closed
            &&& tcb.state == State::Closed || tcb.state == State::FinWait1 || tcb.state
                == State::FinWait2 || tcb.state == State::Closing || tcb.state == State::LastAck
                || tcb.state == State::TimeWait ==> after.state == tcb.state
            &&& after == (Tcb { state: after.state, ..tcb })
            // The receive half stays open, and only the transmit half is closed.
            &&& tcb.state == State::Established ==> after.may_recv()
            &&& readable(tcb) > 0 ==> after.may_recv()
            &&& !after.may_send()
            // The FIN comes after all that is queued.
            &&& tcb.state == State::SynReceived || tcb.state == State::Established || tcb.state
                == State::CloseWait ==> after.fin_pending() && after.unacknowledged() == queued(tcb)
                + 1 && after.next_segment().control == (if after.remote_last_seq.since(
                after.local_seq_no,
            ) + after.next_segment().payload.len() == queued(tcb) {
                TcpControl::Fin
            } else {
                TcpControl::Plain
            })
        }),
{
}

/// After closing, all that was queued is sent before the FIN, and the FIN is sent once all of it
/// was; no reset is sent in its place. What has arrived, and what still arrives, can be read.
pub proof fn law_closing_sends_the_rest(tcb: Tcb, now: u64, mtu: usize, len: int)
    requires
        tcb.wf(),
        can_talk(tcb),
        can_count(tcb),
        tcb.state == State::SynReceived || tcb.state == State::Established || tcb.state
            == State::CloseWait,
        !too_quiet(tcb, now),
        tcb.timer == (Timer::Idle { keep_alive_at: None }),
        0 <= tcb.remote_last_seq.since(tcb.local_seq_no) <= queued(tcb),
        40 <= mtu <= 65575,
        0 <= len <= usize::MAX,
    ensures
        ({
            let passed = tcb.remote_last_seq.since(tcb.local_seq_no);
            &&& tcb.closing().plan(now, mtu) matches Plan::Send { packet, .. } ==> {
                &&& packet.1.control != TcpControl::Rst
                &&& packet.1.seq_number == tcb.remote_last_seq
                &&& passed + packet.1.payload.len() <= queued(tcb)
                &&& packet.1.payload == tcb.tx_buffer.contents.subrange(
                    passed,
                    passed + packet.1.payload.len(),
                )
                &&& packet.1.control == TcpControl::Fin <==> passed + packet.1.payload.len()
                    == queued(tcb)
            }
            &&& passed == queued(tcb) || (tcb.remote_win_len > 0 && tcb.remote_mss > 0)
                ==> tcb.closing().plan(now, mtu) is Send
        }),
        tcb.state == State::Established || readable(tcb) > 0 ==> tcb.closing().read_result(
            len,
        ) is Ok,
        tcb.state == State::Established ==> tcb.closing().read_result(len) == tcb.read_result(len),
{
    law_packets_carry(tcb.closing(), now, mtu);
    law_reasons_to_send(tcb.closing(), now, mtu);
}

/// What a state says about a socket.
pub proof fn law_states_say(tcb: Tcb)
    ensures
        tcb.is_open() <==> !(tcb.state == State::Closed || tcb.state == State::TimeWait),
        tcb.is_active() <==> !(tcb.state == State::Closed || tcb.state == State::TimeWait
            || tcb.state == State::Listen),
        tcb.may_send() <==> tcb.state == State::Established || tcb.state == State::CloseWait,
        tcb.may_recv() <==> tcb.state == State::Established || tcb.state == State::FinWait1
            || tcb.state == State::FinWait2 || readable(tcb) > 0,
{
}

/// Data can be enqueued exactly while the transmit half is open, up to the room that there is; it
/// is then at the end of the transmit buffer, in front of as much room as is left.
pub proof fn law_sending_enqueues(tcb: Tcb, data: Seq<u8>)
    requires
        tcb.wf(),
    ensures
        ({
            let open = tcb.state == State::Established || tcb.state == State::CloseWait;
            &&& tcb.send_result(data) is Ok <==> open
            &&& tcb.send_result(data) matches Ok(count) ==> count == smaller(
                data.len() as int,
                tcb.tx_buffer.free.len() as int,
            )
            &&& tcb.send_result(data) matches Err(error) ==> error == Error::Illegal
        }),
        data.len() <= tcb.tx_buffer.free.len() ==> {
            let after = tcb.sending(data);
            &&& queued(after) == queued(tcb) + data.len()
            &&& forall|i: int|
                0 <= i < queued(tcb) ==> #[trigger] after.tx_buffer.contents[i]
                    == tcb.tx_buffer.contents[i]
            &&& forall|i: int|
                0 <= i < data.len() ==> #[trigger] data[i] == after.tx_buffer.contents[queued(tcb)
                    + i]
            &&& after.tx_buffer.free.len() == tcb.tx_buffer.free.len() - data.len()
            &&& after.tx_buffer.head == tcb.tx_buffer.head
            &&& after.remote_last_ts == if queued(tcb) == 0 {
                None
            } else {
                tcb.remote_last_ts
            }
            &&& after == (Tcb {
                tx_buffer: after.tx_buffer,
                remote_last_ts: after.remote_last_ts,
                ..tcb
            })
        },
{
}

/// Reading succeeds exactly while the receive half is open or there is something to read, in any
/// state. It gives as much of the front of the receive buffer as there is room for, the same that
/// receiving in place hands out, and leaves the rest of the slice alone.
pub proof fn law_reading_gives_the_front(tcb: Tcb, data: Seq<u8>, size: int)
    requires
        tcb.wf(),
        data.len() <= usize::MAX,
        0 <= size,
    ensures
        ({
            let result = tcb.read_result(data.len() as int);
            let after = tcb.read_into(data);
            let count = smaller(readable(tcb), data.len() as int);
            let piece = tcb.rx_buffer.piece(0, size);
            &&& result is Ok <==> (readable(tcb) > 0 || tcb.state == State::Established
                || tcb.state == State::FinWait1 || tcb.state == State::FinWait2)
            &&& result matches Ok(n) ==> n == count
            &&& result matches Err(error) ==> error == Error::Illegal && after == data
            &&& after.len() == data.len()
            &&& result is Ok ==> after.take(count) == tcb.rx_buffer.contents.take(count)
            &&& result is Ok ==> after.skip(count) == data.skip(count)
            &&& piece == tcb.rx_buffer.contents.take(piece.len() as int)
            &&& piece.len() <= size
        }),
{
    let count = smaller(readable(tcb), data.len() as int);
    let after = tcb.read_into(data);
    assert(tcb.read_result(data.len() as int) is Ok ==> after.take(count)
        =~= tcb.rx_buffer.contents.take(count));
    assert(tcb.read_result(data.len() as int) is Ok ==> after.skip(count) =~= data.skip(count));
    let piece = tcb.rx_buffer.piece(0, size);
    assert(piece =~= tcb.rx_buffer.contents.take(piece.len() as int));
}

/// What is read leaves the front of the receive buffer, makes room at its end, and moves the
/// sequence number of its beginning; nothing else changes, and nothing more or less is expected of
/// the remote end.
pub proof fn law_reading_makes_room(tcb: Tcb, count: int)
    requires
        tcb.wf(),
        0 <= count <= readable(tcb),
    ensures
        ({
            let after = tcb.reading(count);
            &&& readable(after) == readable(tcb) - count
            &&& forall|i: int|
                0 <= i < readable(after) ==> #[trigger] after.rx_buffer.contents[i]
                    == tcb.rx_buffer.contents[count + i]
            &&& room(after) == room(tcb) + count
            &&& forall|i: int|
                0 <= i < room(tcb) ==> #[trigger] after.rx_buffer.free[i] == tcb.rx_buffer.free[i]
            &&& after.remote_seq_no.since(tcb.remote_seq_no) == count
            &&& next_expected(after) == next_expected(tcb)
            &&& after == (Tcb {
                rx_buffer: after.rx_buffer,
                remote_seq_no: after.remote_seq_no,
                ..tcb
            })
        }),
{
}

/// Reading in two parts is reading once: nothing is lost, repeated or read out of turn.
pub proof fn law_reading_in_parts(tcb: Tcb, first: int, second: int)
    requires
        tcb.wf(),
        0 <= first,
        0 <= second,
        first + second <= readable(tcb),
    ensures
        tcb.reading(first).reading(second) == tcb.reading(first + second),
        tcb.rx_buffer.contents.take(first) + tcb.reading(first).rx_buffer.contents.take(second)
            == tcb.rx_buffer.contents.take(first + second),
{
    let parts = tcb.reading(first).reading(second);
    let whole = tcb.reading(first + second);
    assert(parts.rx_buffer.contents =~= whole.rx_buffer.contents);
    assert(parts.rx_buffer.free =~= whole.rx_buffer.free);
    assert(tcb.rx_buffer.contents.take(first) + tcb.reading(first).rx_buffer.contents.take(second)
        =~= tcb.rx_buffer.contents.take(first + second));
}

/// Sending in two parts enqueues the same octets as sending once.
pub proof fn law_sending_in_parts(tcb: Tcb, first: Seq<u8>, second: Seq<u8>)
    requires
        tcb.wf(),
        first.len() + second.len() <= tcb.tx_buffer.free.len(),
    ensures
        tcb.sending(first).sending(second).tx_buffer == tcb.sending(first + second).tx_buffer,
{
    assert(tcb.sending(first).sending(second).tx_buffer =~= tcb.sending(first + second).tx_buffer);
}

/// The moment at which a socket wants to be asked for a packet: the one of its timer; without one,
/// while data is queued, the one of the timeout; and at once if the timeout has yet to start.
pub proof fn law_when_to_ask(tcb: Tcb)
    requires
        tcb.timeout matches Some(timeout) ==> (tcb.remote_last_ts matches Some(remote_last_ts)
            ==> remote_last_ts + timeout <= u64::MAX),
    ensures
        match tcb.timer {
            Timer::Retransmit { expires_at, .. } => tcb.due_at() == Some(expires_at),
            Timer::Close { expires_at } => tcb.due_at() == Some(expires_at),
            Timer::Idle { keep_alive_at: Some(keep_alive_at) } => tcb.due_at() == Some(
                keep_alive_at,
            ),
            Timer::Idle { keep_alive_at: None } => match (tcb.timeout, tcb.remote_last_ts) {
                (None, _) => tcb.due_at() is None,
                (Some(_), None) => tcb.due_at() == Some(0u64),
                (Some(timeout), Some(remote_last_ts)) => if queued(tcb) == 0 {
                    tcb.due_at() is None
                } else {
                    tcb.due_at() matches Some(at) && at == remote_last_ts + timeout
                },
            },
        },
{
}

} // verus!
