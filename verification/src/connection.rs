//! Connection identities, and the sweep that forgets the dead ones.

use vstd::prelude::*;
use vstd::std_specs::cmp::PartialEqSpecImpl;
use crate::addr::SocketAddr;
use crate::socket::FaultyTcpStreamHandle;

verus! {

/// What identifies a connection: where it comes from and where it goes.
#[derive(Clone, Copy, Debug, PartialEq, Eq, Hash, Structural)]
pub struct AddrPair {
    pub source: SocketAddr,
    pub dest: SocketAddr,
}

/// A registered connection: its address pair, and the liveness handles of
/// its two sockets. The handles say when the connection can be forgotten;
/// they take no part in what the connection is.
#[derive(Debug)]
pub struct Connection {
    source: SocketAddr,
    dest: SocketAddr,
    client_fault_handle: FaultyTcpStreamHandle,
    server_fault_handle: FaultyTcpStreamHandle,
}

/// Whether a connection is still in use, given what its two liveness
/// handles report: it is, unless both sockets have been dropped.
pub open spec fn in_use(client_dropped: bool, server_dropped: bool) -> bool {
    !client_dropped || !server_dropped
}

/// Decides from the reports of the two liveness handles whether a
/// connection is kept.
pub fn still_in_use(client_dropped: bool, server_dropped: bool) -> (keep: bool)
    ensures
        keep == in_use(client_dropped, server_dropped),
{
    !client_dropped || !server_dropped
}

impl Connection {
    /// The address pair of this connection.
    pub closed spec fn pair(&self) -> AddrPair {
        AddrPair { source: self.source, dest: self.dest }
    }

    /// A connection from `source` to `dest`, watched through the two handles.
    pub fn new(
        source: SocketAddr,
        dest: SocketAddr,
        client_fault_handle: FaultyTcpStreamHandle,
        server_fault_handle: FaultyTcpStreamHandle,
    ) -> (connection: Connection)
        ensures
            connection.pair() == (AddrPair { source, dest }),
    {
        Connection { source, dest, client_fault_handle, server_fault_handle }
    }

    /// Where the connection comes from.
    pub fn source(&self) -> (addr: SocketAddr)
        ensures
            addr == self.pair().source,
    {
        self.source
    }

    /// Where the connection goes.
    pub fn dest(&self) -> (addr: SocketAddr)
        ensures
            addr == self.pair().dest,
    {
        self.dest
    }

    /// Asks both liveness handles whether the connection is still in use.
    /// The answer depends on what the sockets' owners have done.
    pub fn is_live(&self) -> bool {
        let client_dropped = self.client_fault_handle.is_dropped();
        let server_dropped = self.server_fault_handle.is_dropped();
        still_in_use(client_dropped, server_dropped)
    }

    /// A 64-bit digest of the address pair. The liveness handles do not
    /// enter it.
    pub fn hash_code(&self) -> (code: u64)
        ensures
            code == pair_hash(self.pair()),
    {
        self.dest.mix_into(self.source.mix_into(0))
    }
}

/// The digest of an address pair: the source mixed in first, then the
/// destination.
pub open spec fn pair_hash(pair: AddrPair) -> u64 {
    pair.dest.mixed_into(pair.source.mixed_into(0))
}

impl PartialEq for Connection {
    /// Two connections are the same if their address pairs are.
    fn eq(&self, other: &Connection) -> (equal: bool) {
        self.source == other.source && self.dest == other.dest
    }
}

impl Eq for Connection {}

impl PartialEqSpecImpl for Connection {
    open spec fn obeys_eq_spec() -> bool {
        true
    }

    open spec fn eq_spec(&self, other: &Connection) -> bool {
        self.pair() == other.pair()
    }
}

/// The address pairs of a list of connections, in the list's order.
pub open spec fn pairs_of(connections: Seq<Connection>) -> Seq<AddrPair> {
    connections.map_values(|c: Connection| c.pair())
}

/// The pairs among `pairs` whose flag in `live` is set.
pub open spec fn kept(pairs: Seq<AddrPair>, live: Seq<bool>) -> Set<AddrPair> {
    Set::new(|p: AddrPair| exists|i: int| 0 <= i < pairs.len() && live[i] && pairs[i] == p)
}

/// Asks every connection in turn whether it is still in use.
pub fn poll_liveness(connections: &Vec<Connection>) -> (live: Vec<bool>)
    ensures
        live.len() == connections.len(),
{
    let mut live: Vec<bool> = Vec::new();
    let mut i: usize = 0;
    while i < connections.len()
        invariant
            i <= connections.len(),
            live.len() == i,
        decreases connections.len() - i,
    {
        live.push(connections[i].is_live());
        i += 1;
    }
    live
}

/// Whether `connection` is one of `connections` whose flag in `live` is set.
pub open spec fn flagged(connections: Seq<Connection>, live: Seq<bool>, connection: Connection) -> bool {
    exists|j: int|
        0 <= j < connections.len() && 0 <= j < live.len() && live[j] && #[trigger] connections[j]
            == connection
}

/// Forgets the connections whose flag in `live` is not set and keeps the
/// others as they are. The order of those that stay may change.
pub fn retain_live(connections: &mut Vec<Connection>, live: Vec<bool>)
    requires
        live.len() == old(connections).len(),
    ensures
        pairs_of(final(connections)@).to_set() == kept(pairs_of(old(connections)@), live@),
        forall|k: int|
            0 <= k < final(connections).len() ==> flagged(
                old(connections)@,
                live@,
                #[trigger] final(connections)@[k],
            ),
        pairs_of(old(connections)@).no_duplicates() ==> pairs_of(
            final(connections)@,
        ).no_duplicates(),
{
    let mut live = live;
    let ghost start = connections@;
    let ghost flags = live@;
    let ghost mut origin: Seq<int> = Seq::new(start.len(), |k: int| k);
    proof {
        assert forall|j: int| 0 <= j < start.len() && flags[j] implies exists|k: int|
            0 <= k < origin.len() && #[trigger] origin[k] == j by {
            assert(origin[j] == j);
        }
    }
    let mut i: usize = 0;
    while i < connections.len()
        invariant
            i <= connections.len(),
            live.len() == connections.len(),
            origin.len() == connections.len(),
            start.len() == flags.len(),
            forall|k: int|
                0 <= k < origin.len() ==> 0 <= #[trigger] origin[k] < start.len()
                    && connections[k] == start[origin[k]] && live[k] == flags[origin[k]],
            forall|a: int, b: int|
                0 <= a < origin.len() && 0 <= b < origin.len() && a != b ==> origin[a]
                    != origin[b],
            forall|j: int|
                0 <= j < start.len() && flags[j] ==> exists|k: int|
                    0 <= k < origin.len() && #[trigger] origin[k] == j,
            forall|k: int| 0 <= k < i ==> live[k],
        decreases connections.len() - i,
    {
        if live[i] {
            i += 1;
        } else {
            let ghost before = origin;
            connections.swap_remove(i);
            live.swap_remove(i);
            proof {
                let last = before.len() - 1;
                origin = before.update(i as int, before[last]).drop_last();
                assert forall|j: int| 0 <= j < start.len() && flags[j] implies exists|k: int|
                    0 <= k < origin.len() && #[trigger] origin[k] == j by {
                    let k0 = choose|k: int| 0 <= k < before.len() && #[trigger] before[k] == j;
                    assert(k0 != i);
                    let k1 = if k0 == last { i as int } else { k0 };
                    assert(origin[k1] == j);
                }
            }
        }
    }
    proof {
        let after = pairs_of(connections@);
        let pairs = pairs_of(start);
        assert forall|p: AddrPair| after.to_set().contains(p) == kept(pairs, flags).contains(p) by {
            if after.to_set().contains(p) {
                let k = choose|k: int| 0 <= k < after.len() && after[k] == p;
                assert(flags[origin[k]] && pairs[origin[k]] == p);
            }
            if kept(pairs, flags).contains(p) {
                let j = choose|j: int| 0 <= j < pairs.len() && flags[j] && pairs[j] == p;
                let k = choose|k: int| 0 <= k < origin.len() && #[trigger] origin[k] == j;
                assert(after[k] == p);
                assert(after.contains(p));
            }
        }
        assert(after.to_set() =~= kept(pairs, flags));
        assert forall|k: int| 0 <= k < connections.len() implies flagged(
            start,
            flags,
            #[trigger] connections@[k],
        ) by {
            assert(flags[origin[k]] && start[origin[k]] == connections[k]);
        }
        if pairs.no_duplicates() {
            assert forall|a: int, b: int|
                0 <= a < after.len() && 0 <= b < after.len() && a != b implies after[a]
                != after[b] by {
                assert(after[a] == pairs[origin[a]]);
                assert(after[b] == pairs[origin[b]]);
            }
        }
    }
}

} // verus!
