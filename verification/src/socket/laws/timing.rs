//! What a socket does as time passes.

use vstd::arithmetic::power2::{lemma2_to64, lemma_pow2_unfold, pow2};
use vstd::prelude::*;

use crate::error::Error;
use crate::socket::dispatch::Plan;
use crate::socket::model::Tcb;
use crate::socket::state::State;
use crate::socket::timer::{Timer, RETRANSMIT_DELAY};
use crate::wire::tcp::TcpControl;

verus! {

/// A connection is aborted, with a reset to the remote end, when that has been silent for
/// the duration of the timeout.
pub proof fn law_timeout_aborts(tcb: Tcb, now: u64, mtu: usize, timeout: u64)
    requires
        tcb.wf(),
        tcb.remote_endpoint.specified(),
        !(tcb.local_endpoint.addr is Unspecified),
        tcb.timeout == Some(timeout),
        now >= tcb.silent_since(now) + timeout,
    ensures
        tcb.plan(now, mtu) matches Plan::Send { packet, sent, .. } && packet.1.control
            == TcpControl::Rst && sent.state == State::Closed && !sent.remote_endpoint.specified(),
{
    assert(tcb.clocked(now).header() is Ok);
}

/// A connection is not aborted before the timeout: asking for a packet leaves the state as it
/// is, unless the TIME-WAIT state ends.
pub proof fn law_no_timeout_no_abort(tcb: Tcb, now: u64, mtu: usize)
    requires
        tcb.timeout matches Some(timeout) ==> now < tcb.silent_since(now) + timeout,
        tcb.state != State::TimeWait,
    ensures
        match tcb.plan(now, mtu) {
            Plan::Refuse { after, .. } => after.state == tcb.state,
            Plan::Send { sent, unsent, .. } => sent.state == tcb.state && unsent.state == tcb.state,
        },
{
}

/// A connection that has been idle for long is not aborted when it is used again: the silence
/// of the remote end counts from the first packet that is sent.
pub proof fn law_idle_is_not_silence(tcb: Tcb, data: Seq<u8>, now: u64)
    requires
        tcb.tx_buffer.contents.len() == 0,
        tcb.timeout matches Some(timeout) ==> timeout > 0,
    ensures
        tcb.sending(data).silent_since(now) == now,
        tcb.sending(data).clocked(now).state == tcb.state,
{
}

/// The TIME-WAIT state ends with its timer, and leaves a socket as if it was never used.
pub proof fn law_time_wait_ends(tcb: Tcb, now: u64, mtu: usize)
    requires
        tcb.remote_endpoint.specified(),
        !(tcb.local_endpoint.addr is Unspecified),
        tcb.state == State::TimeWait,
        tcb.timer.close_due(now),
        tcb.timeout matches Some(timeout) ==> now < tcb.silent_since(now) + timeout,
    ensures
        tcb.plan(now, mtu) == (Plan::Refuse { error: Error::Exhausted, after: tcb.reset() }),
        !tcb.reset().is_open(),
        tcb.reset().reset() == tcb.reset(),
{
    let clocked = tcb.clocked(now);
    assert(clocked.header() is Ok);
    assert(clocked.reset() == tcb.reset());
    let ring = tcb.rx_buffer.cleared();
    assert(ring.cleared() =~= ring);
    let ring = tcb.tx_buffer.cleared();
    assert(ring.cleared() =~= ring);
    assert(tcb.reset().reset() =~= tcb.reset());
}

/// If all was sent but not acknowledged in time, it is sent again from the beginning.
pub proof fn law_retransmission_starts_over(tcb: Tcb, now: u64, mtu: usize)
    requires
        tcb.wf(),
        tcb.can_dispatch(now, mtu),
        tcb.remote_endpoint.specified(),
        !(tcb.local_endpoint.addr is Unspecified),
        tcb.sends_data(),
        !tcb.seq_to_transmit(TcpControl::Plain),
        tcb.timer.retransmit_due(now),
        tcb.timeout matches Some(timeout) ==> now < tcb.silent_since(now) + timeout,
    ensures
        tcb.plan(now, mtu) matches Plan::Send { packet, .. } && {
            &&& packet.1.seq_number == tcb.local_seq_no
            &&& packet.1.payload == tcb.tx_buffer.contents.take(packet.1.payload.len() as int)
            &&& tcb.tx_buffer.contents.len() > 0 && tcb.remote_win_len > 0 && tcb.remote_mss > 0
                ==> packet.1.payload.len() > 0
        },
{
    let clocked = tcb.clocked(now);
    assert(clocked.header() is Ok);
    assert(clocked.sent_len() == 0);
    let payload = clocked.next_payload();
    assert(payload =~= tcb.tx_buffer.contents.take(payload.len() as int));
}

/// After the last of what there is to send, the socket waits for the acknowledgement, unless it
/// waits for the end of the connection anyway.
pub proof fn law_sent_is_awaited(tcb: Tcb, now: u64, mtu: usize)
    requires
        tcb.wf(),
        tcb.can_dispatch(now, mtu),
    ensures
        tcb.plan(now, mtu) matches Plan::Send { packet, sent, .. } ==> {
            let last = packet.1.space() > 0 && !sent.seq_to_transmit(packet.1.control);
            last && !tcb.clocked(now).keeps_alive(now, tcb.clocked(now).next_segment())
                ==> !(sent.timer is Idle)
        },
{
}

/// The timer of a socket that sent a packet and has sent it again `n` times, each time when it was
/// due, without an answer.
pub open spec fn unanswered(start: u64, n: nat) -> Timer
    decreases n,
{
    if n == 0 {
        (Timer::Idle { keep_alive_at: None }).retransmitting(start)
    } else {
        let before = unanswered(start, (n - 1) as nat);
        before.retransmitting(before.due_at()->Some_0)
    }
}

/// The waits for an answer grow exponentially: the time from the first transmission to the next
/// one doubles with each.
pub proof fn law_backoff(start: u64, n: nat)
    requires
        start + RETRANSMIT_DELAY * pow2(n) <= u64::MAX,
    ensures
        unanswered(start, n) == (Timer::Retransmit {
            expires_at: (start + RETRANSMIT_DELAY * pow2(n)) as u64,
            delay: (RETRANSMIT_DELAY * pow2(n)) as u64,
        }),
    decreases n,
{
    if n == 0 {
        lemma2_to64();
    } else {
        lemma_pow2_unfold(n);
        law_backoff(start, (n - 1) as nat);
    }
}

/// An idle connection sends a keep-alive packet when it is due: an acknowledgement with one
/// octet that the remote end already has. The next one is due after the interval, and nothing
/// else changes.
pub proof fn law_keep_alive(tcb: Tcb, now: u64, mtu: usize)
    requires
        tcb.wf(),
        tcb.remote_endpoint.specified(),
        !(tcb.local_endpoint.addr is Unspecified),
        tcb.sends_data(),
        tcb.timer.keep_alive_due(now),
        tcb.clocked(now).next_segment().bare(),
        tcb.timeout matches Some(timeout) ==> now < tcb.silent_since(now) + timeout,
    ensures
        tcb.plan(now, mtu) matches Plan::Send { packet, sent, .. } && {
            &&& packet.1.seq_number == tcb.clocked(now).remote_last_seq.minus(1)
            &&& packet.1.ack_number == Some(tcb.expected())
            &&& packet.1.payload == seq![0u8]
            &&& sent == (Tcb { timer: Timer::idle(now, tcb.keep_alive), ..tcb.clocked(now) })
        },
{
    assert(tcb.clocked(now).header() is Ok);
}

/// Turning on keep-alive on an idle connection makes the first packet due at once.
pub proof fn law_keep_alive_starts_at_once(timer: Timer, now: u64)
    requires
        timer == (Timer::Idle { keep_alive_at: None }),
    ensures
        timer.keeping_alive().keep_alive_due(now),
{
}

/// A timer wants something done exactly from the moment on that it says.
pub proof fn law_due_when_told(timer: Timer, now: u64)
    ensures
        (timer.keep_alive_due(now) || timer.retransmit_due(now) || timer.close_due(now)) == (
        timer.due_at() matches Some(at) && now >= at),
{
}

/// While data waits to be sent and no timer is running, the moment at which something has to be
/// done is the one from which on the connection counts as timed out.
pub proof fn law_due_when_silent(tcb: Tcb, now: u64, timeout: u64, remote_last_ts: u64)
    requires
        tcb.timer.due_at() is None,
        tcb.tx_buffer.contents.len() > 0,
        tcb.timeout == Some(timeout),
        tcb.remote_last_ts == Some(remote_last_ts),
        remote_last_ts + timeout <= u64::MAX,
    ensures
        tcb.due_at() matches Some(at) && (tcb.timed_out(now) <==> now >= at),
{
}

/// A connection on which nothing is pending sends nothing.
pub proof fn law_idle_is_quiet(tcb: Tcb, now: u64, mtu: usize)
    requires
        tcb.wf(),
        tcb.remote_endpoint.specified(),
        !(tcb.local_endpoint.addr is Unspecified),
        tcb.may_send(),
        tcb.tx_buffer.contents.len() == 0,
        tcb.remote_last_seq == tcb.local_seq_no,
        tcb.remote_last_ack == Some(tcb.expected()),
        tcb.remote_last_win >= tcb.window(),
        tcb.timer == (Timer::Idle { keep_alive_at: None }),
        tcb.timeout matches Some(timeout) ==> now < tcb.silent_since(now) + timeout,
    ensures
        tcb.plan(now, mtu) matches Plan::Refuse { error, after } && error == Error::Exhausted
            && after == (Tcb { remote_last_ts: Some(tcb.silent_since(now)), ..tcb }),
{
    let clocked = tcb.clocked(now);
    assert(clocked.header() is Ok);
    assert(clocked.next_segment().payload.len() == 0);
}

/// Nothing is sent twice at one moment: after the last of what there is to send, asking again at
/// once gives nothing, and the socket names a later moment at which to go on.
pub proof fn law_nothing_is_sent_twice_at_once(tcb: Tcb, now: u64, mtu: usize)
    requires
        tcb.wf(),
        tcb.can_dispatch(now, mtu),
        tcb.plan(now, mtu) matches Plan::Send { packet, sent, .. } && {
            &&& sent.sends_data()
            &&& packet.1.space() > 0
            &&& !sent.seq_to_transmit(packet.1.control)
            &&& !tcb.clocked(now).keeps_alive(now, tcb.clocked(now).next_segment())
        },
        // The timer is not the one of the TIME-WAIT state, and does not stand still.
        !(tcb.timer is Close),
        tcb.timer matches Timer::Retransmit { delay, .. } ==> delay > 0,
    ensures
        tcb.plan(now, mtu) matches Plan::Send { sent, .. } && {
            &&& sent.plan(now, mtu) == (Plan::Refuse { error: Error::Exhausted, after: sent })
            &&& sent.timer is Retransmit
            &&& sent.due_at() matches Some(at) && at > now
        },
{
    let sent = tcb.plan(now, mtu)->sent;
    let clocked = tcb.clocked(now);
    assert(sent.header() == clocked.header());
    assert(sent.clocked(now) == sent);
    assert(sent.next_segment().payload.len() == 0);
}

/// In an idle socket, all that there is to send was sent, and all that has arrived was
/// acknowledged: if a socket on which data can be sent has nothing to say, then the last sequence
/// number that it sent is the one past the transmit buffer, and the last acknowledgement number
/// is the one past the receive buffer, if they were not ahead of that before.
pub proof fn law_idle_has_caught_up(tcb: Tcb, now: u64, mtu: usize)
    requires
        tcb.wf(),
        tcb.can_dispatch(now, mtu),
        tcb.may_send(),
        tcb.remote_endpoint.specified(),
        tcb.header() is Ok,
        tcb.remote_win_len > 0,
        tcb.remote_mss > 0,
        tcb.never_ahead(),
        tcb.plan(now, mtu) matches Plan::Refuse { error, .. } && error == Error::Exhausted,
    ensures
        tcb.plan(now, mtu) matches Plan::Refuse { after, .. } && {
            &&& after.remote_last_seq == tcb.local_seq_no.plus(
                tcb.tx_buffer.contents.len() as int,
            )
            &&& after.remote_last_ack == Some(tcb.remote_seq_no.plus(
                tcb.rx_buffer.contents.len() as int,
            ))
        },
{
    let clocked = tcb.clocked(now);
    assert(clocked.header() == tcb.header());
    if clocked.sent_len() < tcb.tx_buffer.contents.len() {
        assert(clocked.next_segment().payload.len() > 0);
        assert(clocked.seq_to_transmit(clocked.next_control()));
    }
}

/// What is due, and when: a timer that is idle sends a keep-alive packet from the given moment on,
/// if there is one; a timer that waits for an acknowledgement, or for the end of the TIME-WAIT
/// state, gives up waiting from the given moment on. Nothing else is ever due.
pub proof fn law_timers_are_due(timer: Timer, now: u64)
    ensures
        match timer {
            Timer::Idle { keep_alive_at } => {
                &&& timer.due_at() == keep_alive_at
                &&& timer.keep_alive_due(now) <==> (keep_alive_at matches Some(at) && now >= at)
                &&& !timer.retransmit_due(now)
                &&& !timer.close_due(now)
            },
            Timer::Retransmit { expires_at, .. } => {
                &&& timer.due_at() == Some(expires_at)
                &&& timer.retransmit_due(now) <==> now >= expires_at
                &&& !timer.keep_alive_due(now)
                &&& !timer.close_due(now)
            },
            Timer::Close { expires_at } => {
                &&& timer.due_at() == Some(expires_at)
                &&& timer.close_due(now) <==> now >= expires_at
                &&& !timer.keep_alive_due(now)
                &&& !timer.retransmit_due(now)
            },
        },
{
}

/// How timers are set: to idle until the interval is over, to the end of the TIME-WAIT state in ten
/// seconds, and to an acknowledgement in a tenth of a second, or in twice the time that was waited
/// in vain. A timer that waits for something goes on waiting for it when keep-alive packets are
/// asked for; one that has the next of them planned keeps to its plan.
pub proof fn law_timers_are_set(timer: Timer, now: u64, interval: Option<u64>)
    requires
        now + 10_000 <= u64::MAX,
        interval matches Some(interval) ==> now + interval <= u64::MAX,
    ensures
        Timer::idle(now, interval) matches Timer::Idle { keep_alive_at } && match interval {
            Some(interval) => keep_alive_at matches Some(at) && at == now + interval,
            None => keep_alive_at is None,
        },
        Timer::closing(now) matches Timer::Close { expires_at } && expires_at == now + 10_000,
        match timer {
            Timer::Idle { keep_alive_at } => {
                &&& timer.rewound(now, interval) == Timer::idle(now, interval)
                &&& keep_alive_at is None ==> timer.keeping_alive() == (Timer::Idle {
                    keep_alive_at: Some(0),
                })
                &&& keep_alive_at is Some ==> timer.keeping_alive() == timer
                &&& timer.can_retransmit(now)
                &&& timer.retransmitting(now) matches Timer::Retransmit { expires_at, delay }
                    && expires_at == now + 100 && delay == 100
            },
            Timer::Retransmit { expires_at, delay } => {
                &&& timer.rewound(now, interval) == timer
                &&& timer.keeping_alive() == timer
                &&& now < expires_at ==> timer.can_retransmit(now) && timer.retransmitting(now)
                    == timer
                &&& now >= expires_at && now + delay <= u64::MAX && delay * 2 <= u64::MAX ==> {
                    &&& timer.can_retransmit(now)
                    &&& timer.retransmitting(now) matches Timer::Retransmit {
                        expires_at: next,
                        delay: longer,
                    } && next == now + delay && longer == 2 * delay
                }
            },
            Timer::Close { .. } => {
                &&& timer.rewound(now, interval) == timer
                &&& timer.keeping_alive() == timer
                &&& timer.can_retransmit(now)
                &&& timer.retransmitting(now) == timer
            },
        },
{
}

} // verus!
