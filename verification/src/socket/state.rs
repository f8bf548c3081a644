use vstd::prelude::*;

verus! {

/// The state of a TCP socket, according to [RFC 793][rfc793].
///
/// [rfc793]: https://tools.ietf.org/html/rfc793
#[derive(Debug, PartialEq, Eq, Clone, Copy, Structural)]
pub enum State {
    Closed,
    Listen,
    SynSent,
    SynReceived,
    Established,
    FinWait1,
    FinWait2,
    CloseWait,
    Closing,
    LastAck,
    TimeWait,
}

impl State {
    /// The name of the state in RFC 793.
    pub open spec fn label(self) -> Seq<char> {
        match self {
            State::Closed => "CLOSED"@,
            State::Listen => "LISTEN"@,
            State::SynSent => "SYN-SENT"@,
            State::SynReceived => "SYN-RECEIVED"@,
            State::Established => "ESTABLISHED"@,
            State::FinWait1 => "FIN-WAIT-1"@,
            State::FinWait2 => "FIN-WAIT-2"@,
            State::CloseWait => "CLOSE-WAIT"@,
            State::Closing => "CLOSING"@,
            State::LastAck => "LAST-ACK"@,
            State::TimeWait => "TIME-WAIT"@,
        }
    }

    /// Return the name of the state in RFC 793.
    pub fn name(&self) -> (name: &'static str)
        ensures
            name@ == self.label(),
    {
        match *self {
            State::Closed => "CLOSED",
            State::Listen => "LISTEN",
            State::SynSent => "SYN-SENT",
            State::SynReceived => "SYN-RECEIVED",
            State::Established => "ESTABLISHED",
            State::FinWait1 => "FIN-WAIT-1",
            State::FinWait2 => "FIN-WAIT-2",
            State::CloseWait => "CLOSE-WAIT",
            State::Closing => "CLOSING",
            State::LastAck => "LAST-ACK",
            State::TimeWait => "TIME-WAIT",
        }
    }
}

} // verus!
