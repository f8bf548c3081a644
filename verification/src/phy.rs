use vstd::prelude::*;

verus! {

/// The limits that a network device imposes on outgoing packets.
#[derive(Debug, PartialEq, Eq, Clone, Copy, Structural)]
pub struct DeviceLimits {
    /// The size of the largest packet, IP header included, that the device can transmit.
    pub max_transmission_unit: usize,
}

impl Default for DeviceLimits {
    fn default() -> (limits: DeviceLimits)
        ensures
            limits.max_transmission_unit == 0,
    {
        DeviceLimits { max_transmission_unit: 0 }
    }
}

} // verus!
