//! The connection registry: every connection identity and every endpoint
//! of the simulated network, with `connect` and `listen` on them.

use futures::channel::mpsc::Sender;
use vstd::prelude::*;
use crate::addr::{IpAddr, SocketAddr};
use crate::backlog::{
    channel, clone_sender, feeds, same_backlog, try_send, Listener, ListenerState, BACKLOG,
};
use crate::connection::{pairs_of, poll_liveness, retain_live, AddrPair, Connection};
use crate::error::Error;
use crate::ports::{is_ephemeral_port, port_in_use, unused_port};
use crate::socket::{new_socket_pair, FaultyTcpStream, SocketHalf};

verus! {

/// A destination address and what the registry holds for it.
#[derive(Debug)]
struct Endpoint {
    addr: SocketAddr,
    state: ListenerState,
}

/// Where `addr` stands in `endpoints`. Meaningful when it stands there.
spec fn endpoint_index(endpoints: Seq<Endpoint>, addr: SocketAddr) -> int {
    choose|i: int| 0 <= i < endpoints.len() && endpoints[i].addr == addr
}

/// The endpoints as a map from address to state.
spec fn endpoint_map(endpoints: Seq<Endpoint>) -> Map<SocketAddr, ListenerState> {
    Map::new(
        |addr: SocketAddr| exists|i: int| 0 <= i < endpoints.len() && endpoints[i].addr == addr,
        |addr: SocketAddr| endpoints[endpoint_index(endpoints, addr)].state,
    )
}

/// No address has two entries.
spec fn distinct_addrs(endpoints: Seq<Endpoint>) -> bool {
    forall|i: int, j: int|
        0 <= i < endpoints.len() && 0 <= j < endpoints.len() && i != j ==> endpoints[i].addr
            != endpoints[j].addr
}

proof fn lemma_endpoint_at(endpoints: Seq<Endpoint>, i: int)
    requires
        distinct_addrs(endpoints),
        0 <= i < endpoints.len(),
    ensures
        endpoint_map(endpoints).dom().contains(endpoints[i].addr),
        endpoint_map(endpoints)[endpoints[i].addr] == endpoints[i].state,
{
    let k = endpoint_index(endpoints, endpoints[i].addr);
    assert(k == i);
}

proof fn lemma_endpoint_push(endpoints: Seq<Endpoint>, added: Endpoint)
    requires
        distinct_addrs(endpoints),
        !endpoint_map(endpoints).dom().contains(added.addr),
    ensures
        distinct_addrs(endpoints.push(added)),
        endpoint_map(endpoints.push(added)) == endpoint_map(endpoints).insert(
            added.addr,
            added.state,
        ),
{
    let after = endpoints.push(added);
    assert forall|i: int, j: int| 0 <= i < after.len() && 0 <= j < after.len() && i != j implies after[i].addr
        != after[j].addr by {
        if i < endpoints.len() && j < endpoints.len() {
            assert(endpoints[i].addr != endpoints[j].addr);
        }
    }
    assert forall|addr: SocketAddr|
        endpoint_map(after).dom().contains(addr) == endpoint_map(endpoints).insert(
            added.addr,
            added.state,
        ).dom().contains(addr) by {
        if endpoint_map(after).dom().contains(addr) {
            let i = choose|i: int| 0 <= i < after.len() && after[i].addr == addr;
            if i < endpoints.len() {
                assert(endpoints[i].addr == addr);
            }
        }
        if endpoint_map(endpoints).dom().contains(addr) {
            let i = choose|i: int| 0 <= i < endpoints.len() && endpoints[i].addr == addr;
            assert(after[i].addr == addr);
        }
        if addr == added.addr {
            assert(after[endpoints.len() as int].addr == addr);
        }
    }
    assert forall|addr: SocketAddr| #[trigger]
        endpoint_map(after).dom().contains(addr) implies endpoint_map(after)[addr]
        == endpoint_map(endpoints).insert(added.addr, added.state)[addr] by {
        let i = choose|i: int| 0 <= i < after.len() && after[i].addr == addr;
        lemma_endpoint_at(after, i);
        if i < endpoints.len() {
            lemma_endpoint_at(endpoints, i);
        }
    }
    assert(endpoint_map(after) =~= endpoint_map(endpoints).insert(added.addr, added.state));
}

proof fn lemma_endpoint_update(endpoints: Seq<Endpoint>, i: int, changed: Endpoint)
    requires
        distinct_addrs(endpoints),
        0 <= i < endpoints.len(),
        changed.addr == endpoints[i].addr,
    ensures
        distinct_addrs(endpoints.update(i, changed)),
        endpoint_map(endpoints.update(i, changed)) == endpoint_map(endpoints).insert(
            changed.addr,
            changed.state,
        ),
{
    let after = endpoints.update(i, changed);
    assert forall|a: int, b: int| 0 <= a < after.len() && 0 <= b < after.len() && a != b implies after[a].addr
        != after[b].addr by {
        assert(after[a].addr == endpoints[a].addr);
        assert(after[b].addr == endpoints[b].addr);
    }
    assert forall|addr: SocketAddr|
        endpoint_map(after).dom().contains(addr) == endpoint_map(endpoints).insert(
            changed.addr,
            changed.state,
        ).dom().contains(addr) by {
        if endpoint_map(after).dom().contains(addr) {
            let k = choose|k: int| 0 <= k < after.len() && after[k].addr == addr;
            assert(endpoints[k].addr == addr);
        }
        if endpoint_map(endpoints).dom().contains(addr) {
            let k = choose|k: int| 0 <= k < endpoints.len() && endpoints[k].addr == addr;
            assert(after[k].addr == addr);
        }
        if addr == changed.addr {
            assert(after[i].addr == addr);
        }
    }
    assert forall|addr: SocketAddr| #[trigger]
        endpoint_map(after).dom().contains(addr) implies endpoint_map(after)[addr]
        == endpoint_map(endpoints).insert(changed.addr, changed.state)[addr] by {
        let k = choose|k: int| 0 <= k < after.len() && after[k].addr == addr;
        lemma_endpoint_at(after, k);
        lemma_endpoint_at(endpoints, k);
    }
    assert(endpoint_map(after) =~= endpoint_map(endpoints).insert(changed.addr, changed.state));
}

/// A connection attempt after the registry's bookkeeping and before the
/// hand-off to the destination's backlog: what `connect` returns.
#[derive(Debug)]
pub struct Handshake {
    /// The client's and the server's socket of the registered connection,
    /// or why no connection was registered.
    pub registration: Result<(FaultyTcpStream, FaultyTcpStream), Error>,
    /// A sender into the destination's backlog; `None` where the backlog
    /// was full and no listener was there to take from it.
    pub channel: Option<Sender<FaultyTcpStream>>,
}

/// How a handshake ends once the server's socket has been offered to the
/// backlog: with the client's socket if the backlog took it, refused if not.
pub fn conclude(client: FaultyTcpStream, enqueued: bool) -> (outcome: Result<
    FaultyTcpStream,
    Error,
>)
    ensures
        outcome == (if enqueued {
            Ok::<FaultyTcpStream, Error>(client)
        } else {
            Err::<FaultyTcpStream, Error>(Error::ConnectionRefused)
        }),
{
    if enqueued {
        Ok(client)
    } else {
        Err(Error::ConnectionRefused)
    }
}

/// How `handshake` can end. A failed registration comes back as it is. A
/// registered connection without a sender is refused. With a sender the
/// backlog decides: the client's socket, or a refusal.
pub open spec fn complete_post(handshake: Handshake, outcome: Result<FaultyTcpStream, Error>) -> bool {
    match (handshake.registration, handshake.channel) {
        (Err(e), _) => outcome == Err::<FaultyTcpStream, Error>(e),
        (Ok(_), None) => outcome == Err::<FaultyTcpStream, Error>(Error::ConnectionRefused),
        (Ok((client, _)), Some(_)) => outcome == Ok::<FaultyTcpStream, Error>(client) || outcome
            == Err::<FaultyTcpStream, Error>(Error::ConnectionRefused),
    }
}

impl Handshake {
    /// Whether the hand-off goes to the backlog that `listener` takes
    /// connections from.
    pub fn reaches(&self, listener: &Listener) -> (reached: bool)
        ensures
            reached == (self.channel matches Some(tx) && feeds(tx, listener.rx)),
    {
        match &self.channel {
            Some(tx) => listener.is_fed_by(tx),
            None => false,
        }
    }

    /// Performs the hand-off without waiting. A failed registration comes
    /// back as it is. A handshake without a sender is refused. Otherwise
    /// the server's socket is offered to the backlog: if the backlog takes
    /// it the client's socket is returned, if not the connection is
    /// refused. Whether the backlog takes it depends on its receiving half.
    /// A refusal drops both sockets.
    pub fn complete(self) -> (outcome: Result<FaultyTcpStream, Error>)
        ensures
            complete_post(self, outcome),
    {
        match self.registration {
            Ok((client, server)) => {
                match self.channel {
                    Some(tx) => {
                        let mut tx = tx;
                        let enqueued = try_send(&mut tx, server);
                        conclude(client, enqueued)
                    },
                    None => conclude(client, false),
                }
            },
            Err(e) => Err(e),
        }
    }
}

/// What `connect(source, dest)` does to a registry `pre`, leaving `post` and
/// returning `handshake`.
///
/// Connections whose sockets are gone may have been forgotten first; call
/// the rest the survivors. The new connection comes from the highest port
/// of `source` that no survivor comes from, and is registered beside them;
/// when the survivors hold every port, nothing is registered and the
/// registration fails with `AddrNotAvailable`. An endpoint of `dest` stays
/// as it is; where there was none, there is now an unbound one. The
/// handshake's sender sends into the backlog of that endpoint. Only where
/// the endpoint was there and unbound can the handshake come without a
/// sender: it does when the backlog was found full.
pub open spec fn connect_post(
    pre: Inner,
    source: IpAddr,
    dest: SocketAddr,
    post: Inner,
    handshake: Handshake,
) -> bool {
    &&& post.wf()
    &&& match handshake.registration {
        Ok((client, server)) => {
            let from = client.half().local;
            let pair = AddrPair { source: from, dest };
            let survivors = post.connections().remove(pair);
            &&& from.ip == source
            &&& client.half() == (SocketHalf { local: from, peer: dest })
            &&& server.half() == (SocketHalf { local: dest, peer: from })
            &&& post.connections().contains(pair)
            &&& survivors.subset_of(pre.connections())
            &&& is_ephemeral_port(survivors, source, Some(from.port))
        },
        Err(e) => {
            &&& e == Error::AddrNotAvailable
            &&& post.connections().subset_of(pre.connections())
            &&& is_ephemeral_port(post.connections(), source, None)
        },
    }
    &&& if pre.endpoints().dom().contains(dest) {
        post.endpoints() == pre.endpoints()
    } else {
        &&& post.endpoints()[dest] is Unbound
        &&& post.endpoints().remove(dest) == pre.endpoints()
    }
    &&& post.endpoints().dom().contains(dest)
    &&& post.endpoints()[dest].wf()
    &&& match handshake.channel {
        Some(tx) => same_backlog(tx, post.endpoints()[dest].tx()),
        None => pre.endpoints().dom().contains(dest) && pre.endpoints()[dest] is Unbound,
    }
}

/// What `listen(bind_addr)` does to a registry `pre`, leaving `post` and
/// returning `outcome`.
///
/// Connections whose sockets are gone may have been forgotten. An address
/// without an endpoint gets a bound one, and a listener on a new backlog is
/// returned. An unbound endpoint becomes bound with the sender it had, and
/// the listener gets the receiver it had. Either way the endpoint's sender
/// sends into the listener's backlog. On a bound endpoint the call fails
/// with `AddrInUse` and the endpoints stay as they are.
pub open spec fn listen_post(
    pre: Inner,
    bind_addr: SocketAddr,
    post: Inner,
    outcome: Result<Listener, Error>,
) -> bool {
    &&& post.wf()
    &&& post.connections().subset_of(pre.connections())
    &&& post.endpoints().dom().contains(bind_addr)
    &&& outcome matches Ok(listener) ==> feeds(post.endpoints()[bind_addr].tx(), listener.rx)
    &&& if !pre.endpoints().dom().contains(bind_addr) {
        &&& outcome is Ok
        &&& outcome->Ok_0.addr == bind_addr
        &&& post.endpoints()[bind_addr] is Bound
        &&& post.endpoints().remove(bind_addr) == pre.endpoints()
    } else {
        match pre.endpoints()[bind_addr] {
            ListenerState::Unbound { tx, rx } => {
                &&& outcome == Ok::<Listener, Error>(Listener { addr: bind_addr, rx })
                &&& post.endpoints() == pre.endpoints().insert(
                    bind_addr,
                    ListenerState::Bound { tx },
                )
            },
            ListenerState::Bound { .. } => {
                &&& outcome == Err::<Listener, Error>(Error::AddrInUse)
                &&& post.endpoints() == pre.endpoints()
            },
        }
    }
}

/// The registry.
#[derive(Debug)]
pub struct Inner {
    connections: Vec<Connection>,
    endpoints: Vec<Endpoint>,
}

impl Inner {
    /// The address pairs of the registered connections, as they are stored.
    pub closed spec fn identities(&self) -> Seq<AddrPair> {
        pairs_of(self.connections@)
    }

    /// The address pairs of the registered connections.
    pub open spec fn connections(&self) -> Set<AddrPair> {
        self.identities().to_set()
    }

    /// The endpoints: for each address that a `connect` or a `listen` has
    /// named, the state of its backlog.
    pub closed spec fn endpoints(&self) -> Map<SocketAddr, ListenerState> {
        endpoint_map(self.endpoints@)
    }

    /// No address has two endpoint entries, and the two halves that an
    /// unbound endpoint holds belong together.
    pub closed spec fn endpoints_wf(&self) -> bool {
        &&& distinct_addrs(self.endpoints@)
        &&& forall|i: int| 0 <= i < self.endpoints.len() ==> (#[trigger] self.endpoints[i]).state.wf()
    }

    /// The registry's invariant: no two registered connections have the
    /// same address pair, no address has two endpoints, and the two halves
    /// that an unbound endpoint holds belong together.
    pub open spec fn wf(&self) -> bool {
        &&& self.identities().no_duplicates()
        &&& self.endpoints_wf()
    }

    /// An empty registry.
    pub fn new() -> (inner: Inner)
        ensures
            inner.wf(),
            inner.identities() == Seq::<AddrPair>::empty(),
            inner.endpoints() == Map::<SocketAddr, ListenerState>::empty(),
    {
        let inner = Inner { connections: Vec::new(), endpoints: Vec::new() };
        proof {
            assert(inner.identities() =~= Seq::<AddrPair>::empty());
            assert(inner.endpoints() =~= Map::<SocketAddr, ListenerState>::empty());
        }
        inner
    }

    /// How many connections are registered.
    pub fn connection_count(&self) -> (count: usize)
        ensures
            count == self.identities().len(),
    {
        self.connections.len()
    }

    /// Whether a connection from `source` to `dest` is registered.
    pub fn is_registered(&self, source: SocketAddr, dest: SocketAddr) -> (registered: bool)
        ensures
            registered == self.connections().contains(AddrPair { source, dest }),
    {
        let ghost pairs = self.identities();
        let mut i: usize = 0;
        while i < self.connections.len()
            invariant
                i <= self.connections.len(),
                pairs == pairs_of(self.connections@),
                forall|j: int| 0 <= j < i ==> pairs[j] != (AddrPair { source, dest }),
            decreases self.connections.len() - i,
        {
            let connection = &self.connections[i];
            if connection.source() == source && connection.dest() == dest {
                proof {
                    assert(pairs[i as int] == (AddrPair { source, dest }));
                    assert(pairs.contains(AddrPair { source, dest }));
                }
                return true;
            }
            i += 1;
        }
        proof {
            assert(!pairs.contains(AddrPair { source, dest }));
        }
        false
    }

    /// Whether `addr` has an endpoint, and if so whether a listener has
    /// claimed it.
    pub fn is_bound(&self, addr: SocketAddr) -> (bound: Option<bool>)
        requires
            self.wf(),
        ensures
            bound is Some == self.endpoints().dom().contains(addr),
            bound matches Some(b) ==> b == (self.endpoints()[addr] is Bound),
    {
        match self.find_endpoint(addr) {
            Some(i) => {
                proof {
                    lemma_endpoint_at(self.endpoints@, i as int);
                }
                Some(self.endpoints[i].state.is_bound())
            },
            None => None,
        }
    }

    /// Whether `listener` is the one that the registry sends to at the
    /// listener's address.
    pub fn is_serving(&self, listener: &Listener) -> (serving: bool)
        requires
            self.wf(),
        ensures
            serving == (self.endpoints().dom().contains(listener.addr) && feeds(
                self.endpoints()[listener.addr].tx(),
                listener.rx,
            )),
    {
        match self.find_endpoint(listener.addr) {
            Some(i) => {
                proof {
                    lemma_endpoint_at(self.endpoints@, i as int);
                }
                listener.is_fed_by(self.endpoints[i].state.sender())
            },
            None => false,
        }
    }

    /// Where the endpoint of `addr` is stored, if it has one.
    fn find_endpoint(&self, addr: SocketAddr) -> (found: Option<usize>)
        requires
            self.wf(),
        ensures
            match found {
                Some(i) => i < self.endpoints.len() && self.endpoints[i as int].addr == addr,
                None => !self.endpoints().dom().contains(addr),
            },
    {
        let mut i: usize = 0;
        while i < self.endpoints.len()
            invariant
                i <= self.endpoints.len(),
                forall|j: int| 0 <= j < i ==> self.endpoints[j].addr != addr,
            decreases self.endpoints.len() - i,
        {
            if self.endpoints[i].addr == addr {
                return Some(i);
            }
            i += 1;
        }
        None
    }

    /// Makes the socket pair of a connection from `source` to `dest` and
    /// registers the connection, unless one with that address pair is
    /// registered already.
    pub fn register_new_connection_pair(&mut self, source: SocketAddr, dest: SocketAddr) -> (pair:
        Result<(FaultyTcpStream, FaultyTcpStream), Error>)
        requires
            old(self).wf(),
        ensures
            final(self).wf(),
            final(self).endpoints() == old(self).endpoints(),
            match pair {
                Ok((client, server)) => {
                    &&& !old(self).connections().contains(AddrPair { source, dest })
                    &&& client.half() == (SocketHalf { local: source, peer: dest })
                    &&& server.half() == (SocketHalf { local: dest, peer: source })
                    &&& final(self).identities() == old(self).identities().push(
                        AddrPair { source, dest },
                    )
                },
                Err(e) => {
                    &&& old(self).connections().contains(AddrPair { source, dest })
                    &&& e == Error::AddrInUse
                    &&& final(self).identities() == old(self).identities()
                },
            },
    {
        let (client, server) = new_socket_pair(source, dest);
        let (client, client_fault_handle) = FaultyTcpStream::wrap(client);
        let (server, server_fault_handle) = FaultyTcpStream::wrap(server);
        let connection = Connection::new(source, dest, client_fault_handle, server_fault_handle);
        let ghost pairs = self.identities();
        let mut i: usize = 0;
        while i < self.connections.len()
            invariant
                i <= self.connections.len(),
                *self == *old(self),
                self.wf(),
                pairs == pairs_of(self.connections@),
                connection.pair() == (AddrPair { source, dest }),
                forall|j: int| 0 <= j < i ==> pairs[j] != connection.pair(),
            decreases self.connections.len() - i,
        {
            if self.connections[i] == connection {
                proof {
                    assert(pairs[i as int] == connection.pair());
                    assert(pairs.contains(connection.pair()));
                }
                return Err(Error::AddrInUse);
            }
            i += 1;
        }
        self.connections.push(connection);
        proof {
            let pair = AddrPair { source, dest };
            assert(!pairs.contains(pair));
            assert(self.identities() =~= pairs.push(pair));
            assert forall|a: int, b: int|
                0 <= a < pairs.len() + 1 && 0 <= b < pairs.len() + 1 && a != b implies pairs.push(
                pair,
            )[a] != pairs.push(pair)[b] by {
                if a < pairs.len() {
                    assert(pairs.contains(pairs[a]));
                }
                if b < pairs.len() {
                    assert(pairs.contains(pairs[b]));
                }
            }
        }
        Ok((client, server))
    }

    /// Finds an unused source port for `addr`: the highest port that no
    /// registered connection from `addr` holds, or `None` when they hold
    /// all of them.
    pub fn unused_socket_port(&self, addr: IpAddr) -> (port: Option<u16>)
        ensures
            is_ephemeral_port(self.connections(), addr, port),
    {
        unused_port(&self.connections, addr)
    }

    /// Forgets the connections of which both sockets have been dropped.
    /// Which ones those are depends on the sockets' owners: whatever the
    /// liveness handles report, no connection is added, and the endpoints
    /// stay as they are.
    pub fn gc_dropped(&mut self)
        requires
            old(self).wf(),
        ensures
            final(self).wf(),
            final(self).connections().subset_of(old(self).connections()),
            final(self).endpoints() == old(self).endpoints(),
    {
        let live = poll_liveness(&self.connections);
        let ghost pairs = self.identities();
        let ghost flags = live@;
        retain_live(&mut self.connections, live);
        proof {
            assert forall|p: AddrPair| self.connections().contains(p) implies pairs.to_set().contains(
                p,
            ) by {
                let i = choose|i: int| 0 <= i < pairs.len() && flags[i] && pairs[i] == p;
                assert(pairs.contains(p));
            }
        }
    }

    /// Starts a connection from `source` to `dest`: forgets the connections
    /// whose sockets are gone, picks a source port, registers the new
    /// connection and finds or makes the backlog of `dest`. The hand-off of
    /// the server's socket to that backlog is left to the returned
    /// handshake.
    pub fn connect(&mut self, source: IpAddr, dest: SocketAddr) -> (handshake: Handshake)
        requires
            old(self).wf(),
        ensures
            connect_post(*old(self), source, dest, *final(self), handshake),
    {
        self.gc_dropped();
        let ghost survivors = self.identities();
        let registration = match self.unused_socket_port(source) {
            Some(port) => {
                let source_addr = SocketAddr::new(source, port);
                let ghost pair = AddrPair { source: source_addr, dest };
                proof {
                    if survivors.to_set().contains(pair) {
                        assert(port_in_use(survivors.to_set(), source, port));
                    }
                }
                let registration = self.register_new_connection_pair(source_addr, dest);
                proof {
                    assert(self.identities() == survivors.push(pair));
                    assert(self.identities()[survivors.len() as int] == pair);
                    assert forall|p: AddrPair|
                        self.connections().remove(pair).contains(p)
                        == survivors.to_set().contains(p) by {
                        if self.connections().remove(pair).contains(p) {
                            let i = choose|i: int|
                                0 <= i < survivors.len() + 1 && survivors.push(pair)[i] == p;
                            assert(survivors[i] == p);
                        }
                        if survivors.to_set().contains(p) {
                            let i = choose|i: int| 0 <= i < survivors.len() && survivors[i] == p;
                            assert(survivors.push(pair)[i] == p);
                        }
                    }
                    assert(self.connections().remove(pair) =~= survivors.to_set());
                }
                registration
            },
            None => Err(Error::AddrNotAvailable),
        };
        let ghost endpoints = self.endpoints();
        let channel = match self.find_endpoint(dest) {
            Some(i) => {
                proof {
                    lemma_endpoint_at(self.endpoints@, i as int);
                }
                self.endpoints[i].state.sender_for_connect()
            },
            None => {
                let (tx, rx) = channel(BACKLOG);
                let held = clone_sender(&tx);
                let added = Endpoint { addr: dest, state: ListenerState::Unbound { tx: held, rx } };
                proof {
                    lemma_endpoint_push(self.endpoints@, added);
                }
                self.endpoints.push(added);
                proof {
                    assert(self.endpoints() == endpoints.insert(dest, added.state));
                    assert(self.endpoints().remove(dest) =~= endpoints);
                }
                Some(tx)
            },
        };
        Handshake { registration, channel }
    }

    /// Binds a listener to `bind_addr`: forgets the connections whose
    /// sockets are gone, then claims the backlog of `bind_addr`, making it
    /// first where no `connect` has. Fails with `AddrInUse` when a listener
    /// has claimed it before.
    pub fn listen(&mut self, bind_addr: SocketAddr) -> (outcome: Result<Listener, Error>)
        requires
            old(self).wf(),
        ensures
            listen_post(*old(self), bind_addr, *final(self), outcome),
    {
        self.gc_dropped();
        let ghost endpoints = self.endpoints();
        match self.find_endpoint(bind_addr) {
            Some(i) => {
                let ghost stored = self.endpoints@;
                proof {
                    lemma_endpoint_at(stored, i as int);
                }
                let endpoint = self.endpoints.remove(i);
                match endpoint.state {
                    ListenerState::Unbound { tx, rx } => {
                        let changed = Endpoint {
                            addr: bind_addr,
                            state: ListenerState::Bound { tx },
                        };
                        self.endpoints.insert(i, changed);
                        proof {
                            assert(self.endpoints@ =~= stored.update(i as int, changed));
                            lemma_endpoint_update(stored, i as int, changed);
                        }
                        Ok(Listener::new(bind_addr, rx))
                    },
                    state => {
                        let unchanged = Endpoint { addr: bind_addr, state };
                        self.endpoints.insert(i, unchanged);
                        proof {
                            assert(self.endpoints@ =~= stored);
                        }
                        Err(Error::AddrInUse)
                    },
                }
            },
            None => {
                let (tx, rx) = channel(BACKLOG);
                let added = Endpoint { addr: bind_addr, state: ListenerState::Bound { tx } };
                proof {
                    lemma_endpoint_push(self.endpoints@, added);
                }
                self.endpoints.push(added);
                proof {
                    assert(self.endpoints() == endpoints.insert(bind_addr, added.state));
                    assert(self.endpoints().remove(bind_addr) =~= endpoints);
                }
                Ok(Listener::new(bind_addr, rx))
            },
        }
    }
}

} // verus!
