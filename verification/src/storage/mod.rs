//! The buffers of a socket.

pub mod assembler;
pub mod ring_buffer;

pub use self::assembler::Assembler;
pub use self::ring_buffer::{Ring, RingBuffer};
