//! Connection-establishment core of a deterministic, in-process network
//! simulator: a registry of connection identities and listener endpoints
//! with TCP-like `connect` / `listen` / accept semantics, and no real
//! sockets behind it.

pub mod addr;
pub mod error;
pub mod socket;
pub mod backlog;
pub mod connection;
pub mod ports;
pub mod inner;
pub mod laws;

pub use addr::{IpAddr, SocketAddr};
pub use backlog::{Listener, ListenerState};
pub use connection::{AddrPair, Connection};
pub use error::Error;
pub use inner::{Handshake, Inner};
pub use socket::{FaultyTcpStream, FaultyTcpStreamHandle, SocketHalf};
