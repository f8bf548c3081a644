use vstd::prelude::*;

verus! {

/// The ways in which a socket operation can fail.
#[derive(Debug, PartialEq, Eq, Clone, Copy, Structural)]
pub enum Error {
    /// An operation cannot proceed because there is nothing left to do.
    Exhausted,
    /// An operation is not permitted in the current state.
    Illegal,
    /// An endpoint or address cannot be used as given.
    Unaddressable,
    /// An incoming packet was recognized but has to be discarded.
    Dropped,
}

/// The result of a socket operation.
pub type Result<T> = core::result::Result<T, Error>;

} // verus!
