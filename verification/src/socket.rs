//! Socket halves and the liveness handles that watch them.

use std::sync::Arc;
use vstd::prelude::*;
use crate::addr::SocketAddr;

verus! {

/// One end of a simulated connection: the address it is bound to and the
/// address of the other end.
#[derive(Clone, Copy, Debug, PartialEq, Eq, Structural)]
pub struct SocketHalf {
    pub local: SocketAddr,
    pub peer: SocketAddr,
}

/// The two linked ends of a connection from `source` to `dest`: the
/// client's end first, the server's end second.
pub fn new_socket_pair(source: SocketAddr, dest: SocketAddr) -> (pair: (SocketHalf, SocketHalf))
    ensures
        pair.0 == (SocketHalf { local: source, peer: dest }),
        pair.1 == (SocketHalf { local: dest, peer: source }),
{
    (SocketHalf { local: source, peer: dest }, SocketHalf { local: dest, peer: source })
}

/// A socket half in the hands of simulated code. While it exists, the
/// liveness handle made with it reports that it has not been dropped.
#[derive(Debug)]
pub struct FaultyTcpStream {
    half: SocketHalf,
    token: Arc<()>,
}

/// Tells whether the socket it was made with has been dropped.
#[derive(Debug)]
pub struct FaultyTcpStreamHandle {
    token: Arc<()>,
}

/// `Arc::clone` on a liveness token: a second pointer to the same
/// allocation. Nothing is claimed of the result.
#[verifier::external_body]
fn share_token(token: &Arc<()>) -> Arc<()> {
    Arc::clone(token)
}

/// `Arc::strong_count`: the number of pointers to the token's allocation
/// that exist at the moment of the call. It changes as sockets are dropped
/// elsewhere, so nothing is claimed of it.
#[verifier::external_body]
fn token_holders(token: &Arc<()>) -> usize {
    Arc::strong_count(token)
}

/// Whether a socket is gone, given how many pointers to its token exist:
/// it is when the liveness handle holds the only one.
pub fn gone_at(holders: usize) -> (gone: bool)
    ensures
        gone == (holders <= 1),
{
    holders <= 1
}

impl FaultyTcpStream {
    /// Puts `half` under watch: returns the socket and its liveness handle.
    pub fn wrap(half: SocketHalf) -> (wrapped: (FaultyTcpStream, FaultyTcpStreamHandle))
        ensures
            wrapped.0.half() == half,
    {
        let token = Arc::new(());
        let watch = share_token(&token);
        (FaultyTcpStream { half, token }, FaultyTcpStreamHandle { token: watch })
    }

    /// The socket half inside.
    pub closed spec fn half(&self) -> SocketHalf {
        self.half
    }

    /// The address this socket is bound to.
    pub fn local_addr(&self) -> (addr: SocketAddr)
        ensures
            addr == self.half().local,
    {
        self.half.local
    }

    /// The address of the other end.
    pub fn peer_addr(&self) -> (addr: SocketAddr)
        ensures
            addr == self.half().peer,
    {
        self.half.peer
    }
}

impl FaultyTcpStreamHandle {
    /// Whether the watched socket has been dropped. The answer depends on
    /// what the socket's owner has done, so the contract is silent on it.
    pub fn is_dropped(&self) -> bool {
        gone_at(token_holders(&self.token))
    }
}

} // verus!
