use vstd::prelude::*;

verus! {

/// The time, in milliseconds, after which a packet is transmitted again for the first time.
pub const RETRANSMIT_DELAY: u64 = 100;

/// The time, in milliseconds, that a socket spends in the TIME-WAIT state.
pub const CLOSE_DELAY: u64 = 10_000;

/// What a socket is waiting for.
#[derive(Debug, Clone, Copy, PartialEq, Eq, Structural)]
pub enum Timer {
    /// Nothing, except maybe for the time to send a keep-alive packet.
    Idle { keep_alive_at: Option<u64> },
    /// An acknowledgement, or else the time to transmit again what was not acknowledged.
    Retransmit { expires_at: u64, delay: u64 },
    /// The end of the TIME-WAIT state.
    Close { expires_at: u64 },
}

impl Default for Timer {
    fn default() -> (timer: Timer)
        ensures
            timer == (Timer::Idle { keep_alive_at: None }),
    {
        Timer::Idle { keep_alive_at: None }
    }
}

/// The moment that lies the given interval after now, if there is one.
pub open spec fn after(now: u64, interval: Option<u64>) -> Option<u64> {
    match interval {
        Some(interval) => Some((now + interval) as u64),
        None => None,
    }
}

/// Whether the moment that lies the given interval after now is still on the clock.
pub open spec fn on_clock(now: u64, interval: Option<u64>) -> bool {
    interval matches Some(interval) ==> now + interval <= u64::MAX
}

/// Return whether the moment that lies the given interval after now is still on the clock.
pub(crate) fn fits_clock(now: u64, interval: Option<u64>) -> (yes: bool)
    ensures
        yes == on_clock(now, interval),
{
    match interval {
        Some(interval) => interval <= u64::MAX - now,
        None => true,
    }
}

/// Return the moment that lies the given interval after now, if there is one.
fn moment_after(now: u64, interval: Option<u64>) -> (moment: Option<u64>)
    requires
        on_clock(now, interval),
    ensures
        moment == after(now, interval),
{
    match interval {
        Some(interval) => Some(now + interval),
        None => None,
    }
}

impl Timer {
    /// Whether it is time to send a keep-alive packet.
    pub open spec fn keep_alive_due(self, now: u64) -> bool {
        self matches Timer::Idle { keep_alive_at: Some(at) } && now >= at
    }

    /// Whether it is time to transmit again.
    pub open spec fn retransmit_due(self, now: u64) -> bool {
        self matches Timer::Retransmit { expires_at, .. } && now >= expires_at
    }

    /// Whether it is time to leave the TIME-WAIT state.
    pub open spec fn close_due(self, now: u64) -> bool {
        self matches Timer::Close { expires_at } && now >= expires_at
    }

    /// The moment at which something is due, if there is one.
    pub open spec fn due_at(self) -> Option<u64> {
        match self {
            Timer::Idle { keep_alive_at } => keep_alive_at,
            Timer::Retransmit { expires_at, .. } => Some(expires_at),
            Timer::Close { expires_at } => Some(expires_at),
        }
    }

    /// An idle timer, with a keep-alive packet due after the given interval.
    pub open spec fn idle(now: u64, interval: Option<u64>) -> Timer {
        Timer::Idle { keep_alive_at: after(now, interval) }
    }

    /// A timer that waits for the end of the TIME-WAIT state.
    pub open spec fn closing(now: u64) -> Timer {
        Timer::Close { expires_at: (now + CLOSE_DELAY) as u64 }
    }

    /// The timer with a keep-alive packet due at once, if it is idle and none was due.
    pub open spec fn keeping_alive(self) -> Timer {
        if self == (Timer::Idle { keep_alive_at: None }) {
            Timer::Idle { keep_alive_at: Some(0) }
        } else {
            self
        }
    }

    /// The timer with the next keep-alive packet due after the given interval, if it is idle.
    pub open spec fn rewound(self, now: u64, interval: Option<u64>) -> Timer {
        if self is Idle {
            Timer::idle(now, interval)
        } else {
            self
        }
    }

    /// The timer after a packet was sent that has to be acknowledged: the wait starts with
    /// a fixed delay, and every time it was in vain the next one is twice as long.
    pub open spec fn retransmitting(self, now: u64) -> Timer {
        match self {
            Timer::Idle { .. } => Timer::Retransmit {
                expires_at: (now + RETRANSMIT_DELAY) as u64,
                delay: RETRANSMIT_DELAY,
            },
            Timer::Retransmit { expires_at, delay } => if now >= expires_at {
                Timer::Retransmit { expires_at: (now + delay) as u64, delay: (delay * 2) as u64 }
            } else {
                self
            },
            Timer::Close { .. } => self,
        }
    }

    /// Whether the next wait for an acknowledgement ends while there is still time on the clock.
    pub open spec fn can_retransmit(self, now: u64) -> bool {
        match self {
            Timer::Idle { .. } => now + RETRANSMIT_DELAY <= u64::MAX,
            Timer::Retransmit { expires_at, delay } => now >= expires_at ==> now + delay <= u64::MAX
                && delay * 2 <= u64::MAX,
            Timer::Close { .. } => true,
        }
    }

    /// Query whether the next wait for an acknowledgement ends while there is still time on
    /// the clock.
    pub(crate) fn has_time_to_retransmit(&self, timestamp: u64) -> (yes: bool)
        ensures
            yes == self.can_retransmit(timestamp),
    {
        match *self {
            Timer::Idle { .. } => timestamp <= u64::MAX - RETRANSMIT_DELAY,
            Timer::Retransmit { expires_at, delay } => timestamp < expires_at || (delay <= u64::MAX
                - timestamp && delay <= u64::MAX / 2),
            Timer::Close { .. } => true,
        }
    }

    /// Query whether it is time to send a keep-alive packet.
    pub fn should_keep_alive(&self, timestamp: u64) -> (yes: bool)
        ensures
            yes == self.keep_alive_due(timestamp),
    {
        match *self {
            Timer::Idle { keep_alive_at: Some(keep_alive_at) } => timestamp >= keep_alive_at,
            _ => false,
        }
    }

    /// Query whether it is time to transmit again.
    pub(crate) fn is_retransmit_due(&self, timestamp: u64) -> (yes: bool)
        ensures
            yes == self.retransmit_due(timestamp),
    {
        match *self {
            Timer::Retransmit { expires_at, .. } => timestamp >= expires_at,
            _ => false,
        }
    }

    /// If it is time to transmit again, return the time since the last transmission.
    pub fn should_retransmit(&self, timestamp: u64) -> (elapsed: Option<u64>)
        requires
            *self matches Timer::Retransmit { expires_at, delay } ==> timestamp - expires_at + delay
                <= u64::MAX,
        ensures
            elapsed == (match *self {
                Timer::Retransmit { expires_at, delay } => if timestamp >= expires_at {
                    Some((timestamp - expires_at + delay) as u64)
                } else {
                    None
                },
                _ => None,
            }),
            elapsed is Some <==> self.retransmit_due(timestamp),
    {
        match *self {
            Timer::Retransmit { expires_at, delay } => if timestamp >= expires_at {
                Some(timestamp - expires_at + delay)
            } else {
                None
            },
            _ => None,
        }
    }

    /// Query whether it is time to leave the TIME-WAIT state.
    pub fn should_close(&self, timestamp: u64) -> (yes: bool)
        ensures
            yes == self.close_due(timestamp),
    {
        match *self {
            Timer::Close { expires_at } => timestamp >= expires_at,
            _ => false,
        }
    }

    /// Return the moment at which something is due, if there is one.
    pub fn poll_at(&self) -> (at: Option<u64>)
        ensures
            at == self.due_at(),
    {
        match *self {
            Timer::Idle { keep_alive_at } => keep_alive_at,
            Timer::Retransmit { expires_at, .. } => Some(expires_at),
            Timer::Close { expires_at } => Some(expires_at),
        }
    }

    /// Wait for nothing, except maybe for the time to send a keep-alive packet.
    pub fn set_for_idle(&mut self, timestamp: u64, interval: Option<u64>)
        requires
            on_clock(timestamp, interval),
        ensures
            *final(self) == Timer::idle(timestamp, interval),
    {
        *self = Timer::Idle { keep_alive_at: moment_after(timestamp, interval) };
    }

    /// If the timer is idle and no keep-alive packet was due, make one due at once.
    pub fn set_keep_alive(&mut self)
        ensures
            *final(self) == old(self).keeping_alive(),
    {
        if let Timer::Idle { keep_alive_at: None } = *self {
            *self = Timer::Idle { keep_alive_at: Some(0) };
        }
    }

    /// If the timer is idle, make the next keep-alive packet due after the given interval.
    pub fn rewind_keep_alive(&mut self, timestamp: u64, interval: Option<u64>)
        requires
            *old(self) is Idle ==> on_clock(timestamp, interval),
        ensures
            *final(self) == old(self).rewound(timestamp, interval),
    {
        if let Timer::Idle { .. } = *self {
            *self = Timer::Idle { keep_alive_at: moment_after(timestamp, interval) };
        }
    }

    /// Wait for an acknowledgement of a packet that was just sent.
    pub fn set_for_retransmit(&mut self, timestamp: u64)
        requires
            old(self).can_retransmit(timestamp),
        ensures
            *final(self) == old(self).retransmitting(timestamp),
    {
        match *self {
            Timer::Idle { .. } => {
                *self = Timer::Retransmit {
                    expires_at: timestamp + RETRANSMIT_DELAY,
                    delay: RETRANSMIT_DELAY,
                };
            },
            Timer::Retransmit { expires_at, delay } => {
                if timestamp >= expires_at {
                    *self = Timer::Retransmit { expires_at: timestamp + delay, delay: delay * 2 };
                }
            },
            Timer::Close { .. } => {},
        }
    }

    /// Wait for the end of the TIME-WAIT state.
    pub fn set_for_close(&mut self, timestamp: u64)
        requires
            timestamp + CLOSE_DELAY <= u64::MAX,
        ensures
            *final(self) == Timer::closing(timestamp),
    {
        *self = Timer::Close { expires_at: timestamp + CLOSE_DELAY };
    }
}

} // verus!
