//! How a connection begins and ends, and what it does not let in.

use vstd::prelude::*;

use crate::error::Error;
use crate::socket::dispatch::Plan;
use crate::socket::model::Tcb;
use crate::socket::process::{AckVerdict, Packet};
use crate::socket::state::State;
use crate::socket::timer::Timer;
use crate::wire::ip::{IpEndpoint, IpRepr, IPV4_HEADER_LEN};
use crate::wire::tcp::{TcpControl, TcpSegment, TCP_HEADER_LEN};

verus! {

/// The endpoint from which a packet came.
pub open spec fn source(ip: IpRepr, segment: TcpSegment) -> IpEndpoint {
    IpEndpoint { addr: ip.src(), port: segment.src_port }
}

/// A connected socket only accepts packets from the remote endpoint to its own port.
pub proof fn law_accepts_only_its_peer(tcb: Tcb, ip: IpRepr, segment: TcpSegment)
    requires
        tcb.accepts(ip, segment),
        tcb.remote_endpoint.specified(),
    ensures
        source(ip, segment) == tcb.remote_endpoint,
        segment.dst_port == tcb.local_endpoint.port,
        tcb.local_endpoint.addr.unspecified() || ip.dst() == tcb.local_endpoint.addr,
{
}

/// A socket that is closed, whether it was never opened, was listening, or was aborted, accepts
/// nothing.
pub proof fn law_closed_accepts_nothing(tcb: Tcb, ip: IpRepr, segment: TcpSegment)
    ensures
        tcb.state == State::Closed ==> !tcb.accepts(ip, segment),
        tcb.state == State::Listen ==> !tcb.closing().accepts(ip, segment),
        !(Tcb { state: State::Closed, ..tcb }).accepts(ip, segment),
{
}

/// There is no backlog: once a listening socket has taken a SYN, it accepts nothing from anyone
/// but its sender.
pub proof fn law_no_backlog(
    tcb: Tcb,
    now: u64,
    ip: IpRepr,
    syn: TcpSegment,
    other_ip: IpRepr,
    other: TcpSegment,
)
    requires
        tcb.state == State::Listen,
        tcb.wf(),
        tcb.can_process(now, ip, syn),
        syn.control == TcpControl::Syn,
        source(ip, syn).specified(),
        tcb.arrives(now, ip, syn).0.accepts(other_ip, other),
    ensures
        source(other_ip, other) == source(ip, syn),
{
}

/// A packet that is not taken in, other than a reset, changes nothing, except that it makes
/// the TIME-WAIT state start over.
pub proof fn law_refused_changes_nothing(tcb: Tcb, now: u64, ip: IpRepr, segment: TcpSegment)
    requires
        tcb.wf(),
        tcb.can_process(now, ip, segment),
        !tcb.takes(segment),
        segment.control != TcpControl::Rst,
    ensures
        ({
            let (after, result) = tcb.arrives(now, ip, segment);
            &&& result is Err || tcb.ack_verdict(segment) == AckVerdict::Challenge
                || !tcb.in_window(segment)
            &&& after == tcb || (tcb.state == State::TimeWait && after == (Tcb {
                timer: Timer::closing(now),
                ..tcb
            }))
        }),
{
}

/// A packet that is refused changes nothing: if a packet that is not taken in, or that carries no
/// data, is answered with an error, the error says that it was dropped, and the block is as it
/// was. This asks for no time on the clock, nor for anything else but that the packet is meant for
/// the socket and does not leave out the SYN that it answers.
pub proof fn law_dropped_changes_nothing(tcb: Tcb, now: u64, ip: IpRepr, segment: TcpSegment)
    requires
        tcb.accepts(ip, segment),
        tcb.syn_pending() && segment.control != TcpControl::Rst ==> segment.ack_number != Some(
            tcb.local_seq_no,
        ),
    ensures
        ({
            let (after, result) = tcb.arrives(now, ip, segment);
            &&& result matches Err(error) ==> error == Error::Dropped
            &&& result is Err && (segment.payload.len() == 0 || !tcb.takes(segment)) ==> after
                == tcb && tcb.can_process(now, ip, segment)
        }),
{
}

/// Outside of the LISTEN state, a packet other than a reset is dropped, and changes nothing, if it
/// acknowledges nothing, or less than was acknowledged before. Any such packet that is meant for
/// the socket can be processed.
pub proof fn law_stale_ack_is_dropped(tcb: Tcb, now: u64, ip: IpRepr, segment: TcpSegment)
    requires
        tcb.accepts(ip, segment),
        tcb.state != State::Listen,
        segment.control != TcpControl::Rst,
        segment.ack_number matches Some(ack_number) ==> tcb.ack_distance(ack_number) < 0,
    ensures
        tcb.can_process(now, ip, segment),
        tcb.arrives(now, ip, segment).0 == tcb,
        tcb.arrives(now, ip, segment).1 == Err::<Option<Packet>, Error>(Error::Dropped),
{
}

/// All replies are acknowledgements without data, that go back to where the packet came from
/// and announce the window as it is.
pub proof fn law_replies_are_acks(tcb: Tcb, now: u64, ip: IpRepr, segment: TcpSegment)
    requires
        tcb.wf(),
        tcb.can_process(now, ip, segment),
    ensures
        ({
            let (after, result) = tcb.arrives(now, ip, segment);
            result matches Ok(Some(packet)) ==> {
                &&& packet.0.src() == ip.dst()
                &&& packet.0.dst() == ip.src()
                &&& packet.1.src_port == segment.dst_port
                &&& packet.1.dst_port == segment.src_port
                &&& packet.1.control == TcpControl::Plain
                &&& packet.1.payload.len() == 0
                &&& packet.1.seq_number == after.remote_last_seq
                &&& packet.1.ack_number == after.remote_last_ack
                &&& packet.1.window_len == after.window()
            }
        }),
{
}

/// While the receive buffer is full, nothing more gets in: whatever takes room in sequence space
/// is answered with a window of zero.
pub proof fn law_zero_window(tcb: Tcb, now: u64, ip: IpRepr, segment: TcpSegment)
    requires
        tcb.wf(),
        tcb.can_process(now, ip, segment),
        tcb.synchronized(),
        tcb.ack_verdict(segment) == AckVerdict::Accept,
        tcb.rx_buffer.free.len() == 0,
        segment.space() > 0,
    ensures
        ({
            let (after, result) = tcb.arrives(now, ip, segment);
            &&& after.rx_buffer == tcb.rx_buffer
            &&& after.state == tcb.state
            &&& result matches Ok(Some(packet)) && packet.1.window_len == 0
        }),
{
}

/// The three-way handshake, seen from the listening end. A SYN is answered with a SYN that
/// acknowledges it, and the acknowledgement of that establishes the connection, with both ends
/// past their SYNs.
pub proof fn law_passive_open(
    tcb: Tcb,
    now: u64,
    then: u64,
    later: u64,
    mtu: usize,
    ip: IpRepr,
    syn: TcpSegment,
    ack: TcpSegment,
)
    requires
        tcb.wf(),
        tcb.state == State::Listen,
        tcb.rx_buffer.contents.len() == 0,
        tcb.tx_buffer.contents.len() == 0,
        tcb.timeout matches Some(timeout) ==> then < now + timeout,
        tcb.can_process(now, ip, syn),
        syn.control == TcpControl::Syn,
        syn.payload.len() == 0,
        source(ip, syn).specified(),
        !(ip.dst() is Unspecified),
        ack.control == TcpControl::Plain,
        ack.src_port == syn.src_port,
        ack.dst_port == syn.dst_port,
        ack.payload.len() == 0,
        ack.seq_number == syn.seq_number.plus(1),
        ack.ack_number == Some(syn.seq_number.opposite().plus(1)),
    ensures
        ({
            let received = tcb.arrives(now, ip, syn).0;
            &&& tcb.arrives(now, ip, syn).1 == Ok::<Option<Packet>, Error>(None)
            &&& received.state == State::SynReceived
            &&& received.plan(then, mtu) matches Plan::Send { packet, sent, .. } && {
                let (established, reply) = sent.arrives(later, ip, ack);
                &&& packet.1.control == TcpControl::Syn
                &&& packet.1.seq_number == syn.seq_number.opposite()
                &&& packet.1.ack_number == Some(syn.seq_number.plus(1))
                &&& packet.1.max_seg_size == Some((mtu - IPV4_HEADER_LEN - TCP_HEADER_LEN) as u16)
                &&& sent.accepts(ip, ack)
                &&& reply == Ok::<Option<Packet>, Error>(None)
                &&& established.state == State::Established
                &&& established.local_seq_no == syn.seq_number.opposite().plus(1)
                &&& established.remote_seq_no == syn.seq_number.plus(1)
                &&& established.remote_last_seq == established.local_seq_no
                &&& established.remote_last_ack == Some(established.expected())
            }
        }),
{
    let received = tcb.arrives(now, ip, syn).0;
    assert(received.tx_buffer.contents.len() == 0);
    assert(received.header() is Ok);
    let clocked = received.clocked(then);
    assert(clocked.next_segment().space() == 1);
    assert(clocked.seq_to_transmit(TcpControl::Syn));
}

/// The three-way handshake, seen from the connecting end. It sends a SYN, and the answer to it
/// establishes the connection, with both ends past their SYNs.
pub proof fn law_active_open(
    tcb: Tcb,
    remote: IpEndpoint,
    local: IpEndpoint,
    now: u64,
    then: u64,
    mtu: usize,
    ip: IpRepr,
    syn_ack: TcpSegment,
)
    requires
        tcb.wf(),
        tcb.connect_result(remote, local) is Ok,
        syn_ack.control == TcpControl::Syn,
        syn_ack.payload.len() == 0,
        syn_ack.ack_number == Some(tcb.local_seq_no.plus(1)),
        source(ip, syn_ack) == remote,
        syn_ack.dst_port == local.port,
    ensures
        ({
            let connecting = tcb.connecting(remote, local);
            &&& connecting.plan(now, mtu) matches Plan::Send { packet, sent, .. } && {
                let (established, reply) = sent.arrives(then, ip, syn_ack);
                &&& packet.1.control == TcpControl::Syn
                &&& packet.1.seq_number == tcb.local_seq_no
                &&& packet.1.ack_number is None
                &&& packet.1.max_seg_size == Some((mtu - IPV4_HEADER_LEN - TCP_HEADER_LEN) as u16)
                &&& packet.0.dst() == remote.addr
                &&& sent.accepts(ip, syn_ack)
                &&& reply == Ok::<Option<Packet>, Error>(None)
                &&& established.state == State::Established
                &&& established.local_endpoint == (IpEndpoint {
                    addr: ip.dst(),
                    port: local.port,
                })
                &&& established.remote_endpoint == remote
                &&& established.local_seq_no == tcb.local_seq_no.plus(1)
                &&& established.remote_seq_no == syn_ack.seq_number.plus(1)
                &&& established.remote_last_seq == established.local_seq_no
            }
        }),
{
    let connecting = tcb.connecting(remote, local);
    let clocked = connecting.clocked(now);
    assert(connecting.tx_buffer.contents.len() == 0);
    assert(clocked.header() is Ok);
    assert(clocked.next_segment().space() == 1);
    assert(clocked.seq_to_transmit(TcpControl::Syn));
}

/// Closing the transmit half of a connection twice is closing it once, and afterwards nothing
/// can be enqueued to be sent.
pub proof fn law_close_is_final(tcb: Tcb)
    ensures
        tcb.closing().closing() == tcb.closing(),
        !tcb.closing().may_send(),
        tcb.closing().rx_buffer == tcb.rx_buffer,
        tcb.closing().tx_buffer == tcb.tx_buffer,
{
}

/// The FIN follows the last of the data: a socket whose transmit half was closed sends a FIN
/// with, or after, the last octets of the transmit buffer, and not before.
pub proof fn law_fin_follows_data(tcb: Tcb)
    requires
        tcb.sends_data(),
    ensures
        tcb.next_segment().control == TcpControl::Fin <==> tcb.fin_pending() && tcb.sent_len()
            + tcb.next_segment().payload.len() == tcb.tx_buffer.contents.len(),
{
}

/// The remote end has got the FIN, and all that was before it, when it acknowledges it: then
/// there is nothing left to send.
pub proof fn law_acked_fin_ends_sending(tcb: Tcb, now: u64, ip: IpRepr, segment: TcpSegment)
    requires
        tcb.wf(),
        tcb.can_process(now, ip, segment),
        tcb.takes(segment),
        tcb.acks_fin(segment),
    ensures
        ({
            let after = tcb.arrives(now, ip, segment).0;
            &&& after.tx_buffer.contents.len() == 0
            &&& after.state == State::FinWait2 || after.state == State::TimeWait || after.state
                == State::Closed
        }),
{
}

/// The close from the other end: once the socket is closed too, the next acknowledgement that it
/// takes in ends the connection without a trace. It need not be the one of the FIN: what it leaves
/// unacknowledged is not sent again.
pub proof fn law_last_ack_closes(tcb: Tcb, now: u64, mtu: usize, ip: IpRepr, ack: TcpSegment)
    requires
        tcb.wf(),
        tcb.state == State::LastAck,
        tcb.can_process(now, ip, ack),
        tcb.takes(ack),
    ensures
        ({
            let after = tcb.arrives(now, ip, ack).0;
            &&& after.state == State::Closed
            &&& after.plan(now, mtu) == (Plan::Refuse { error: Error::Exhausted, after })
        }),
{
}

/// A reset inside of the window ends a connection at once: the socket is closed, sends nothing,
/// and can be used anew. Only if the connection was not established yet, and the socket had been
/// listening, does it go back to that.
pub proof fn law_reset_ends(tcb: Tcb, now: u64, mtu: usize, ip: IpRepr, rst: TcpSegment)
    requires
        tcb.wf(),
        tcb.can_process(now, ip, rst),
        rst.control == TcpControl::Rst,
        tcb.ack_verdict(rst) == AckVerdict::Accept,
        tcb.in_window(rst),
        tcb.state != State::Listen,
    ensures
        ({
            let (after, result) = tcb.arrives(now, ip, rst);
            &&& result == Ok::<Option<Packet>, Error>(None)
            &&& after.plan(now, mtu) == (Plan::Refuse { error: Error::Exhausted, after })
            &&& tcb.state == State::SynReceived ==> after.state == State::Listen
                && after.local_endpoint == (IpEndpoint {
                addr: tcb.listen_address,
                port: tcb.local_endpoint.port,
            })
            &&& tcb.state != State::SynReceived ==> !after.is_open() && after.local_endpoint
                == IpEndpoint::none()
        }),
{
}

/// An aborted connection sends one reset to the remote end, and nothing after it.
pub proof fn law_abort_sends_one_reset(tcb: Tcb, now: u64, mtu: usize, later: u64)
    requires
        tcb.wf(),
        tcb.remote_endpoint.specified(),
        !(tcb.local_endpoint.addr is Unspecified),
    ensures
        ({
            let aborted = Tcb { state: State::Closed, ..tcb };
            aborted.plan(now, mtu) matches Plan::Send { packet, sent, .. } && {
                &&& packet.1.control == TcpControl::Rst
                &&& packet.0.dst() == tcb.remote_endpoint.addr
                &&& packet.1.dst_port == tcb.remote_endpoint.port
                &&& packet.1.payload.len() == 0
                &&& sent.state == State::Closed
                &&& sent.plan(later, mtu) == (Plan::Refuse { error: Error::Exhausted, after: sent })
            }
        }),
{
    let aborted = Tcb { state: State::Closed, ..tcb };
    assert(aborted.clocked(now).header() is Ok);
}

/// A socket without a remote end sends nothing, whatever its state.
pub proof fn law_no_peer_no_packets(tcb: Tcb, now: u64, mtu: usize)
    requires
        !tcb.remote_endpoint.specified(),
    ensures
        tcb.plan(now, mtu) == (Plan::Refuse { error: Error::Exhausted, after: tcb }),
{
}

/// A socket that listens, or that waits for the remote end to close the connection, sends
/// nothing, unless it is aborted.
pub proof fn law_silent_states(tcb: Tcb, now: u64, mtu: usize)
    requires
        tcb.state == State::Listen || tcb.state == State::FinWait2,
        tcb.timeout matches Some(timeout) ==> now < tcb.silent_since(now) + timeout,
    ensures
        tcb.plan(now, mtu) is Refuse,
{
}

/// A socket can be opened exactly when it is not open, and is open afterwards.
pub proof fn law_open_once(tcb: Tcb, local: IpEndpoint, remote: IpEndpoint)
    requires
        local.port != 0,
        remote.specified(),
    ensures
        tcb.listen_result(local) is Ok <==> !tcb.is_open(),
        tcb.connect_result(remote, local) is Ok <==> !tcb.is_open(),
        tcb.listening(local).is_open(),
        tcb.listening(local).listen_result(local) == Err::<(), Error>(Error::Illegal),
        tcb.connecting(remote, local).is_open(),
        tcb.connecting(remote, local).connect_result(remote, local) == Err::<(), Error>(
            Error::Illegal,
        ),
{
}

/// Where there is something to be sent or received, there is a connection: it is possible to
/// send only on an active socket, and only an open one is active.
pub proof fn law_may_send_is_active(tcb: Tcb)
    ensures
        tcb.may_send() ==> tcb.is_active(),
        tcb.is_active() ==> tcb.is_open(),
        tcb.state == State::Listen ==> tcb.is_open() && !tcb.is_active(),
{
}

} // verus!
