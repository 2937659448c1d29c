//! Errors reported by the registry.

use vstd::prelude::*;

verus! {

/// Why a `connect` or a `listen` failed.
#[derive(Clone, Copy, Debug, PartialEq, Eq, Structural)]
pub enum Error {
    /// The address pair of a connection, or the address of a listener, is
    /// already taken.
    AddrInUse,
    /// Every port of the source IP address is held by a live connection.
    AddrNotAvailable,
    /// The destination's backlog did not take the connection.
    ConnectionRefused,
}

} // verus!
