//! The socket.

pub mod dispatch;
pub mod laws;
pub mod model;
pub mod process;
pub mod state;
pub mod tcp;
pub mod timer;

pub use self::model::Tcb;
pub use self::state::State;
pub use self::tcp::{SocketBuffer, TcpSocket};
pub use self::timer::Timer;
