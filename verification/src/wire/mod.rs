//! The addresses and packet representations that a socket exchanges with the IP layer.

pub mod ip;
pub mod tcp;

pub use self::ip::{IpAddress, IpEndpoint, IpProtocol, IpRepr, Ipv4Address, Ipv4Repr};

pub use self::tcp::{TcpControl, TcpRepr, TcpSegment, TcpSeqNumber};
