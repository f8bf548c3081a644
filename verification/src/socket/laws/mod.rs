//! What holds of a connection as a whole.
//!
//! The functions of the socket say what each of them does to the transmission control block.
//! The proofs here put these steps together.

pub mod arrival;
pub mod departure;
pub mod lifecycle;
pub mod stream;
pub mod terms;
pub mod timing;
pub mod user;
