//! Ephemeral source ports.

use std::collections::HashSet;
use vstd::prelude::*;
use crate::addr::{IpAddr, SocketAddr};
use crate::connection::{pairs_of, AddrPair, Connection};

verus! {

/// Whether some connection in `pairs` comes from `port` of `ip`.
pub open spec fn port_in_use(pairs: Set<AddrPair>, ip: IpAddr, port: u16) -> bool {
    exists|p: AddrPair| #[trigger] pairs.contains(p) && p.source == (SocketAddr { ip, port })
}

/// What the port allocator answers for `ip` when the connections in `pairs`
/// are registered: the highest port of `ip` that none of them comes from,
/// or `None` when they hold every port from 0 to 65535.
pub open spec fn is_ephemeral_port(pairs: Set<AddrPair>, ip: IpAddr, choice: Option<u16>) -> bool {
    match choice {
        Some(port) => {
            &&& !port_in_use(pairs, ip, port)
            &&& forall|q: u16| port < q ==> port_in_use(pairs, ip, q)
        },
        None => forall|q: u16| port_in_use(pairs, ip, q),
    }
}

/// The ports of `ip` that the first `n` of `pairs` come from.
spec fn ports_held(pairs: Seq<AddrPair>, ip: IpAddr, n: int) -> Set<u16> {
    Set::new(
        |port: u16|
            exists|j: int| 0 <= j < n && #[trigger] pairs[j].source == (SocketAddr { ip, port }),
    )
}

/// Finds an unused source port for `ip`: the highest one that no connection
/// in `connections` comes from. `None` when all 65536 are in use.
pub fn unused_port(connections: &Vec<Connection>, ip: IpAddr) -> (choice: Option<u16>)
    ensures
        is_ephemeral_port(pairs_of(connections@).to_set(), ip, choice),
{
    let ghost pairs = pairs_of(connections@);
    let mut occupied: HashSet<u16> = HashSet::new();
    let mut i: usize = 0;
    while i < connections.len()
        invariant
            i <= connections.len(),
            pairs == pairs_of(connections@),
            occupied@ == ports_held(pairs, ip, i as int),
        decreases connections.len() - i,
    {
        let source = connections[i].source();
        if source.ip == ip {
            occupied.insert(source.port);
        }
        proof {
            assert(pairs[i as int].source == source);
            let held = if source.ip == ip {
                ports_held(pairs, ip, i as int).insert(source.port)
            } else {
                ports_held(pairs, ip, i as int)
            };
            assert forall|port: u16| #[trigger]
                ports_held(pairs, ip, i + 1).contains(port) == held.contains(port) by {
                if ports_held(pairs, ip, i + 1).contains(port) {
                    let j = choose|j: int|
                        0 <= j < i + 1 && #[trigger] pairs[j].source == (SocketAddr { ip, port });
                    if j < i {
                        assert(ports_held(pairs, ip, i as int).contains(port));
                    }
                }
                if ports_held(pairs, ip, i as int).contains(port) {
                    let j = choose|j: int|
                        0 <= j < i && #[trigger] pairs[j].source == (SocketAddr { ip, port });
                    assert(0 <= j < i + 1);
                }
                if source.ip == ip && port == source.port {
                    assert(pairs[i as int].source == (SocketAddr { ip, port }));
                }
            }
            assert(occupied@ =~= ports_held(pairs, ip, i + 1));
        }
        i += 1;
    }
    proof {
        assert forall|port: u16| #[trigger]
            port_in_use(pairs.to_set(), ip, port) == occupied@.contains(port) by {
            if port_in_use(pairs.to_set(), ip, port) {
                let p = choose|p: AddrPair|
                    #[trigger] pairs.to_set().contains(p) && p.source == (SocketAddr { ip, port });
                let j = choose|j: int| 0 <= j < pairs.len() && pairs[j] == p;
                assert(pairs[j].source == (SocketAddr { ip, port }));
            }
            if occupied@.contains(port) {
                let j = choose|j: int|
                    0 <= j < i && #[trigger] pairs[j].source == (SocketAddr { ip, port });
                assert(pairs.contains(pairs[j]));
                assert(pairs.to_set().contains(pairs[j]));
            }
        }
    }
    let mut start: u16 = 65535;
    loop
        invariant
            pairs == pairs_of(connections@),
            forall|port: u16| #[trigger]
                port_in_use(pairs.to_set(), ip, port) == occupied@.contains(port),
            forall|q: u16| start < q ==> occupied@.contains(q),
        decreases start,
    {
        if !occupied.contains(&start) {
            return Some(start);
        }
        if start == 0 {
            return None;
        }
        start -= 1;
    }
}

} // verus!
