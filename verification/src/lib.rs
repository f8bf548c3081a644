//! A verified Transmission Control Protocol socket.
//!
//! The crate is sans-I/O: a [`socket::TcpSocket`] is handed the segments that arrived for it
//! and hands out the segments that should be sent. Every function carries a contract over a
//! mathematical model of the connection, and `socket::laws` collects the properties that
//! follow from those contracts.

pub mod error;
pub mod phy;
pub mod socket;
pub mod storage;
pub mod wire;
