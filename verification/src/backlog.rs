//! The backlog of an endpoint: a bounded channel that carries freshly made
//! server-side sockets from `connect` to the endpoint's listener.

use futures::channel::mpsc::{Receiver, Sender};
use futures::Stream;
use vstd::prelude::*;
use crate::addr::SocketAddr;
use crate::socket::FaultyTcpStream;

verus! {

/// The sending half of a bounded channel of the `futures` crate. Opaque.
#[verifier::external_type_specification]
#[verifier::external_body]
#[verifier::reject_recursive_types(T)]
pub struct ExSender<T>(Sender<T>);

/// The receiving half of a bounded channel of the `futures` crate. Opaque.
#[verifier::external_type_specification]
#[verifier::external_body]
#[verifier::reject_recursive_types(T)]
pub struct ExReceiver<T>(Receiver<T>);

/// Whether `tx` sends into the channel that `rx` receives from: the answer
/// of `Sender::is_connected_to` for the two halves.
pub uninterp spec fn feeds(tx: Sender<FaultyTcpStream>, rx: Receiver<FaultyTcpStream>) -> bool;

/// Whether two senders send into the same channel.
pub open spec fn same_backlog(a: Sender<FaultyTcpStream>, b: Sender<FaultyTcpStream>) -> bool {
    forall|rx: Receiver<FaultyTcpStream>| feeds(a, rx) == feeds(b, rx)
}

/// How many connections a backlog holds for a listener that has not come
/// for them.
pub const BACKLOG: usize = 1;

/// Whether a backlog that holds `queued` connections, and that no listener
/// takes from, has room for one more.
pub fn has_room(queued: usize) -> (room: bool)
    ensures
        room == (queued < BACKLOG),
{
    queued < BACKLOG
}

/// `futures::channel::mpsc::channel`: a new bounded channel, both halves,
/// the sender connected to the receiver. The function panics on a buffer of
/// `usize::MAX >> 2` or more, which the precondition rules out.
#[verifier::external_body]
pub(crate) fn channel(buffer: usize) -> (halves: (
    Sender<FaultyTcpStream>,
    Receiver<FaultyTcpStream>,
))
    requires
        buffer < usize::MAX / 4,
    ensures
        feeds(halves.0, halves.1),
{
    futures::channel::mpsc::channel(buffer)
}

/// A sender's `Clone`: one more sender on the channel of `tx`, connected to
/// the receivers that `tx` is connected to and to no others. The call
/// panics once a channel has about `usize::MAX / 2` senders, more than fit
/// in memory.
#[verifier::external_body]
pub(crate) fn clone_sender(tx: &Sender<FaultyTcpStream>) -> (copy: Sender<FaultyTcpStream>)
    ensures
        same_backlog(copy, *tx),
{
    tx.clone()
}

/// `Sender::is_connected_to`: whether `tx` sends to `rx`.
#[verifier::external_body]
pub(crate) fn is_connected_to(tx: &Sender<FaultyTcpStream>, rx: &Receiver<FaultyTcpStream>) -> (connected:
    bool)
    ensures
        connected == feeds(*tx, *rx),
{
    tx.is_connected_to(rx)
}

/// `Stream::size_hint` of a receiver, lower bound: the number of messages
/// that the channel holds at the moment of the call. It changes as senders
/// send, so nothing is claimed of it.
#[verifier::external_body]
pub(crate) fn queued(rx: &Receiver<FaultyTcpStream>) -> usize {
    rx.size_hint().0
}

/// `Sender::try_send`: offers `socket` to the channel without waiting and
/// tells whether the channel took it. It does not when the receiver is gone
/// or the sender has no capacity left; `socket` is then dropped. Which of
/// these happens depends on what the other half has done, so nothing is
/// claimed of the result.
#[verifier::external_body]
pub(crate) fn try_send(tx: &mut Sender<FaultyTcpStream>, socket: FaultyTcpStream) -> bool {
    tx.try_send(socket).is_ok()
}

/// `Receiver::try_recv`: the next queued socket, if one is there now.
/// Nothing is claimed of the result.
#[verifier::external_body]
pub(crate) fn try_recv(rx: &mut Receiver<FaultyTcpStream>) -> Option<FaultyTcpStream> {
    rx.try_recv().ok()
}

/// What the registry holds for a destination address.
#[derive(Debug)]
pub enum ListenerState {
    /// A backlog exists, made by a `connect` to the address, and no listener
    /// has claimed it: the registry holds both halves.
    Unbound { tx: Sender<FaultyTcpStream>, rx: Receiver<FaultyTcpStream> },
    /// A listener has the receiving half; the registry keeps the sender.
    Bound { tx: Sender<FaultyTcpStream> },
}

impl ListenerState {
    /// While the registry holds both halves of a backlog, they are the
    /// halves of one channel.
    pub open spec fn wf(&self) -> bool {
        match *self {
            ListenerState::Unbound { tx, rx } => feeds(tx, rx),
            ListenerState::Bound { .. } => true,
        }
    }

    /// The sending half, which both states hold.
    pub open spec fn tx(&self) -> Sender<FaultyTcpStream> {
        match *self {
            ListenerState::Unbound { tx, .. } => tx,
            ListenerState::Bound { tx } => tx,
        }
    }

    /// The sending half, which both states hold.
    pub fn sender(&self) -> (tx: &Sender<FaultyTcpStream>)
        ensures
            *tx == self.tx(),
    {
        match self {
            ListenerState::Unbound { tx, .. } => tx,
            ListenerState::Bound { tx } => tx,
        }
    }

    /// A sender for one more connection, unless the backlog is full with
    /// nobody to take from it: a bound endpoint always gives one, an unbound
    /// endpoint while its backlog has room. How full the backlog is depends
    /// on the handshakes that have been completed.
    pub fn sender_for_connect(&self) -> (channel: Option<Sender<FaultyTcpStream>>)
        ensures
            channel matches Some(tx) ==> same_backlog(tx, self.tx()),
            *self is Bound ==> channel is Some,
    {
        match self {
            ListenerState::Unbound { tx, rx } => {
                if has_room(queued(rx)) {
                    Some(clone_sender(tx))
                } else {
                    None
                }
            },
            ListenerState::Bound { tx } => Some(clone_sender(tx)),
        }
    }

    /// Whether a listener has claimed the backlog.
    pub fn is_bound(&self) -> (bound: bool)
        ensures
            bound == (*self is Bound),
    {
        match self {
            ListenerState::Unbound { .. } => false,
            ListenerState::Bound { .. } => true,
        }
    }
}

/// The receiving side of an endpoint: what `listen` hands out.
#[derive(Debug)]
pub struct Listener {
    pub addr: SocketAddr,
    pub rx: Receiver<FaultyTcpStream>,
}

impl Listener {
    /// A listener on `addr` that takes connections from `rx`.
    pub fn new(addr: SocketAddr, rx: Receiver<FaultyTcpStream>) -> (listener: Listener)
        ensures
            listener == (Listener { addr, rx }),
    {
        Listener { addr, rx }
    }

    /// The address the listener is bound to.
    pub fn local_addr(&self) -> (addr: SocketAddr)
        ensures
            addr == self.addr,
    {
        self.addr
    }

    /// Whether `tx` sends into this listener's backlog.
    pub fn is_fed_by(&self, tx: &Sender<FaultyTcpStream>) -> (fed: bool)
        ensures
            fed == feeds(*tx, self.rx),
    {
        is_connected_to(tx, &self.rx)
    }

    /// Takes the next connection from the backlog if one is queued now;
    /// never waits. What is queued depends on the connects made elsewhere.
    pub fn try_accept(&mut self) -> (socket: Option<FaultyTcpStream>)
        ensures
            final(self).addr == old(self).addr,
    {
        try_recv(&mut self.rx)
    }
}

} // verus!
