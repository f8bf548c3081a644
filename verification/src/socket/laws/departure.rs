//! What the socket hands out when it is asked for a packet.

use vstd::prelude::*;

use crate::error::Error;
use crate::socket::dispatch::Plan;
use crate::socket::laws::terms::{
    can_count, can_talk, fin_waits, flag_len, has_something_new, linger_is_over, names_host,
    names_peer, next_expected, owes_ack, passed_at, probe_is_due, queued, quiet_since, readable,
    room, sending_state, seq_at, smaller, state_at, syn_waits, too_quiet, wait_is_over,
};
use crate::socket::model::Tcb;
use crate::socket::state::State;
use crate::socket::timer::Timer;
use crate::wire::ip::{IpAddress, IpProtocol, IpRepr};
use crate::wire::tcp::TcpControl;

verus! {

/// An address names no host if all of its octets are zero.
proof fn lemma_peer(tcb: Tcb)
    ensures
        tcb.remote_endpoint.specified() <==> names_peer(tcb.remote_endpoint),
{
    if let IpAddress::Ipv4(v4) = tcb.remote_endpoint.addr {
        if !names_host(tcb.remote_endpoint.addr) {
            assert(v4.0@ =~= seq![0u8, 0u8, 0u8, 0u8]);
        }
    }
}

/// While a SYN waits to be acknowledged and the wait is over, the SYN is sent again, with the very
/// sequence number that it had.
pub proof fn law_syn_is_sent_again(tcb: Tcb, now: u64, mtu: usize)
    requires
        tcb.wf(),
        can_talk(tcb),
        tcb.state == State::SynSent || tcb.state == State::SynReceived,
        queued(tcb) == 0,
        tcb.remote_last_seq.since(tcb.local_seq_no) >= 0,
        tcb.timer matches Timer::Retransmit { expires_at, .. } && now >= expires_at,
        tcb.timeout matches Some(timeout) ==> match tcb.remote_last_ts {
            Some(remote_last_ts) => now < remote_last_ts + timeout,
            None => timeout > 0,
        },
    ensures
        tcb.plan(now, mtu) matches Plan::Send { packet, .. } && {
            &&& packet.1.control == TcpControl::Syn
            &&& packet.1.seq_number == tcb.local_seq_no
            &&& packet.1.payload.len() == 0
            &&& packet.1.max_seg_size is Some
            &&& tcb.state == State::SynSent ==> packet.1.ack_number is None
            &&& tcb.state == State::SynReceived ==> packet.1.ack_number == Some(next_expected(tcb))
        },
{
    lemma_peer(tcb);
}

/// Once the wait for an acknowledgement is over, the same packet is sent that was sent first after
/// the last acknowledgement: a SYN, data or a FIN.
pub proof fn law_the_same_is_sent_again(tcb: Tcb, first: u64, later: u64, mtu: usize)
    requires
        tcb.wf(),
        can_talk(tcb),
        can_count(tcb),
        tcb.timer is Idle,
        tcb.state != State::TimeWait,
        tcb.remote_last_seq == tcb.local_seq_no,
        !too_quiet(tcb, first),
        tcb.keep_alive is None,
        first + 100 <= later,
        tcb.plan(first, mtu) matches Plan::Send { sent, .. } && sent.timer is Retransmit
            && !too_quiet(sent, later),
    ensures
        tcb.plan(first, mtu) matches Plan::Send { packet, sent, .. } && (
        sent.plan(later, mtu) matches Plan::Send { packet: again, .. } && again == packet),
{
    lemma_peer(tcb);
}

/// When a packet is handed out, and when it is refused. Without a remote end there is nothing to
/// send; without a local address it cannot be sent. A socket that listens, or waits for the FIN of
/// the remote end, sends nothing of its own. Otherwise a packet is handed out exactly if there is
/// something new to say: data, a flag, an acknowledgement or more room; if something has to be said
/// again; if the remote end has to be probed; or if the connection is over, and it has to be told.
pub proof fn law_reasons_to_send(tcb: Tcb, now: u64, mtu: usize)
    requires
        tcb.wf(),
        can_count(tcb),
    ensures
        ({
            let plan = tcb.plan(now, mtu);
            let state = state_at(tcb, now);
            let exhausted = plan matches Plan::Refuse { error, .. } && error == Error::Exhausted;
            let speaks = {
                ||| has_something_new(tcb, now)
                ||| owes_ack(tcb, now)
                ||| room(tcb) > tcb.remote_last_win
                ||| wait_is_over(tcb.timer, now)
                ||| probe_is_due(tcb.timer, now)
                ||| state == State::Closed
            };
            if !names_peer(tcb.remote_endpoint) {
                exhausted
            } else if tcb.local_endpoint.addr is Unspecified {
                plan matches Plan::Refuse { error, .. } && error == Error::Unaddressable
            } else if state == State::Listen || state == State::FinWait2 {
                exhausted
            } else if state == State::TimeWait && linger_is_over(tcb.timer, now) {
                exhausted
            } else if speaks {
                plan is Send
            } else {
                exhausted
            }
        }),
{
    lemma_peer(tcb);
    let clocked = tcb.clocked(now);
    assert(clocked.state == state_at(tcb, now));
    assert(clocked.remote_last_seq == seq_at(tcb, now));
}

/// Asking for a packet without getting one, or without being able to send it, changes little: the
/// silence of the remote end counts from now on, if it did not before; if it lasted too long, the
/// connection is closed; and if sending starts over, that is remembered. A connection whose
/// TIME-WAIT is over is forgotten.
pub proof fn law_asking_changes_little(tcb: Tcb, now: u64, mtu: usize)
    requires
        tcb.wf(),
        can_count(tcb),
    ensures
        ({
            let asked = Tcb {
                state: state_at(tcb, now),
                remote_last_seq: seq_at(tcb, now),
                remote_last_ts: Some(quiet_since(tcb, now) as u64),
                ..tcb
            };
            match tcb.plan(now, mtu) {
                Plan::Send { unsent, .. } => unsent == asked,
                Plan::Refuse { after, error } => if !names_peer(tcb.remote_endpoint) {
                    after == tcb
                } else if state_at(tcb, now) == State::TimeWait && linger_is_over(tcb.timer, now)
                    && error == Error::Exhausted {
                    &&& after.state == State::Closed
                    &&& readable(after) == 0
                    &&& queued(after) == 0
                    &&& after.remote_endpoint.port == 0
                    &&& after.local_endpoint.port == 0
                    &&& after == tcb.reset()
                } else {
                    after == asked
                },
            }
        }),
{
    lemma_peer(tcb);
    let clocked = tcb.clocked(now);
    assert(clocked.state == state_at(tcb, now));
    assert(clocked.remote_last_seq == seq_at(tcb, now));
}

/// Whom a packet is addressed to, whom it comes from, and what it says about this end: how much has
/// arrived, unless it is the first SYN, and how much room there is. The length that its header
/// gives is that of the segment.
pub proof fn law_packets_are_addressed(tcb: Tcb, now: u64, mtu: usize)
    requires
        tcb.wf(),
    ensures
        tcb.plan(now, mtu) matches Plan::Send { packet, .. } ==> {
            let segment = packet.1;
            let header_len: int = if segment.max_seg_size is Some {
                24
            } else {
                20
            };
            &&& packet.0 matches IpRepr::Ipv4(ip) && {
                &&& tcb.local_endpoint.addr == IpAddress::Ipv4(ip.src_addr)
                &&& tcb.remote_endpoint.addr == IpAddress::Ipv4(ip.dst_addr)
                &&& ip.protocol == IpProtocol::Tcp
                &&& header_len + segment.payload.len() <= usize::MAX ==> ip.payload_len
                    == header_len + segment.payload.len()
            }
            &&& segment.src_port == tcb.local_endpoint.port
            &&& segment.dst_port == tcb.remote_endpoint.port
            &&& segment.window_len == room(tcb)
            &&& segment.ack_number == if state_at(tcb, now) == State::SynSent {
                None
            } else {
                Some(next_expected(tcb))
            }
        },
{
    lemma_peer(tcb);
    assert(tcb.clocked(now).state == state_at(tcb, now));
}

/// What a packet carries. A connection that is over sends a reset, one that is not open yet a SYN,
/// which says how much fits into a packet. Data is sent from where sending goes on, as much as the
/// remote end can receive, as fits into a segment, and as lies in one piece; the last of it carries
/// a FIN if the transmit half is closed, and a PSH if it is not. A packet that would carry nothing,
/// when the remote end has to be probed, carries an octet that it has.
pub proof fn law_packets_carry(tcb: Tcb, now: u64, mtu: usize)
    requires
        tcb.wf(),
        can_count(tcb),
        40 <= mtu <= 65575,
    ensures
        tcb.plan(now, mtu) matches Plan::Send { packet, .. } ==> {
            let segment = packet.1;
            let state = state_at(tcb, now);
            let passed = passed_at(tcb, now);
            let len = segment.payload.len() as int;
            let limit = smaller(tcb.remote_win_len as int, tcb.remote_mss as int);
            let size = queued(tcb) + tcb.tx_buffer.free.len();
            let probes = probe_is_due(tcb.timer, now) && (segment.control == TcpControl::Plain
                || segment.control == TcpControl::Psh) && !(sending_state(state) && passed < queued(
                tcb,
            ) && limit > 0);
            &&& state == State::Closed <==> segment.control == TcpControl::Rst
            &&& syn_waits(state) <==> segment.control == TcpControl::Syn
            &&& segment.control == TcpControl::Syn ==> (segment.max_seg_size matches Some(mss)
                && mss == mtu - 40)
            &&& segment.control != TcpControl::Syn ==> segment.max_seg_size is None
            &&& !sending_state(state) && state != State::Closed && !syn_waits(state)
                ==> segment.control == TcpControl::Plain
            &&& probes ==> segment.payload == seq![0u8] && segment.seq_number == seq_at(
                tcb,
                now,
            ).minus(1)
            &&& !probes ==> segment.seq_number == seq_at(tcb, now)
            &&& !probes && !sending_state(state) ==> len == 0
            &&& sending_state(state) && 0 <= passed <= queued(tcb) && !probes ==> {
                &&& passed + len <= queued(tcb)
                &&& segment.payload == tcb.tx_buffer.contents.subrange(passed, passed + len)
                &&& len <= limit
                &&& len == limit || passed + len == queued(tcb) || tcb.tx_buffer.head + passed + len
                    == size || tcb.tx_buffer.head + passed + len == 2 * size
                &&& passed + len == queued(tcb) && fin_waits(state) <==> segment.control
                    == TcpControl::Fin
                &&& passed + len == queued(tcb) && !fin_waits(state) <==> segment.control
                    == TcpControl::Psh
            }
            &&& sending_state(state) && passed > queued(tcb) && !probes ==> len == 0
                && segment.control == TcpControl::Plain
        },
{
    lemma_peer(tcb);
    let clocked = tcb.clocked(now);
    assert(clocked.state == state_at(tcb, now));
    assert(clocked.remote_last_seq == seq_at(tcb, now));
}

/// What is remembered of a packet that was sent: up to where it reaches, what it acknowledged, and
/// the room that it announced. A probe changes none of that. After a reset, both ends are
/// forgotten. All else but the timer is as if nothing had been sent.
pub proof fn law_sent_is_remembered(tcb: Tcb, now: u64, mtu: usize)
    requires
        tcb.wf(),
        can_count(tcb),
    ensures
        tcb.plan(now, mtu) matches Plan::Send { packet, sent, unsent } ==> {
            let segment = packet.1;
            let state = state_at(tcb, now);
            let probes = segment.seq_number != seq_at(tcb, now);
            &&& !probes ==> {
                &&& sent.remote_last_seq == segment.seq_number.plus(
                    segment.payload.len() + flag_len(segment.control),
                )
                &&& sent.remote_last_ack == segment.ack_number
                &&& sent.remote_last_win == segment.window_len
            }
            &&& probes ==> sent == (Tcb { timer: sent.timer, ..unsent })
            &&& state == State::Closed ==> {
                &&& sent.local_endpoint.addr is Unspecified
                &&& sent.local_endpoint.port == 0
                &&& sent.remote_endpoint == sent.local_endpoint
            }
            &&& state != State::Closed ==> sent.local_endpoint == tcb.local_endpoint
                && sent.remote_endpoint == tcb.remote_endpoint
            &&& sent == (Tcb {
                timer: sent.timer,
                remote_last_seq: sent.remote_last_seq,
                remote_last_ack: sent.remote_last_ack,
                remote_last_win: sent.remote_last_win,
                local_endpoint: sent.local_endpoint,
                remote_endpoint: sent.remote_endpoint,
                ..unsent
            })
        },
{
    lemma_peer(tcb);
    let clocked = tcb.clocked(now);
    assert(clocked.state == state_at(tcb, now));
    assert(clocked.remote_last_seq == seq_at(tcb, now));
}

/// What a socket waits for once a packet was sent. If it was the last that there is to send and has
/// to be acknowledged, the wait takes a tenth of a second at first; each time that it was over in
/// vain, the next one is twice as long, and a wait that is not over goes on. If nothing has to be
/// acknowledged, the next probe is due after the interval that was set.
pub proof fn law_sent_is_waited_for(tcb: Tcb, now: u64, mtu: usize)
    requires
        tcb.wf(),
        can_count(tcb),
    ensures
        tcb.plan(now, mtu) matches Plan::Send { packet, sent, .. } ==> {
            let segment = packet.1;
            let probes = segment.seq_number != seq_at(tcb, now);
            let taken = segment.payload.len() + flag_len(segment.control);
            let end = tcb.local_seq_no.plus(queued(tcb) + flag_len(segment.control));
            let waits = !probes && taken > 0 && segment.seq_number.plus(taken).since(end) >= 0;
            match tcb.timer {
                Timer::Idle { .. } => if waits {
                    now + 100 <= u64::MAX ==> (sent.timer matches Timer::Retransmit {
                        expires_at,
                        delay,
                    } && expires_at == now + 100 && delay == 100)
                } else {
                    sent.timer matches Timer::Idle { keep_alive_at } && match tcb.keep_alive {
                        Some(interval) => now + interval <= u64::MAX ==> {
                            keep_alive_at matches Some(at) && at == now + interval
                        },
                        None => keep_alive_at is None,
                    }
                },
                Timer::Retransmit { expires_at, delay } => if waits && now >= expires_at {
                    now + delay <= u64::MAX && delay * 2 <= u64::MAX ==> (
                    sent.timer matches Timer::Retransmit { expires_at: next, delay: longer } && next
                        == now + delay && longer == delay * 2)
                } else {
                    sent.timer == tcb.timer
                },
                Timer::Close { .. } => sent.timer == tcb.timer,
            }
        },
{
    lemma_peer(tcb);
    let clocked = tcb.clocked(now);
    assert(clocked.state == state_at(tcb, now));
    assert(clocked.remote_last_seq == seq_at(tcb, now));
}

/// A socket can be asked for a packet as long as its timers end before the clock does, what it has
/// to send can be counted, and its headers fit into a packet.
pub proof fn law_can_be_asked(tcb: Tcb, now: u64, mtu: usize)
    requires
        tcb.wf(),
        can_count(tcb),
        40 <= mtu,
        now + 100 <= u64::MAX,
        tcb.timeout matches Some(timeout) ==> quiet_since(tcb, now) + timeout <= u64::MAX,
        tcb.keep_alive matches Some(interval) ==> now + interval <= u64::MAX,
        tcb.timer matches Timer::Retransmit { delay, .. } ==> now + delay <= u64::MAX && delay * 2
            <= u64::MAX,
    ensures
        tcb.can_dispatch(now, mtu),
{
}

} // verus!
