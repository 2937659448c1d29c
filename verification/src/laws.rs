//! What holds of the registry across calls.

use vstd::prelude::*;
use vstd::std_specs::cmp::PartialEqSpec;
use crate::addr::{IpAddr, SocketAddr};
use crate::backlog::{feeds, Listener, ListenerState};
use crate::connection::{kept, pair_hash, AddrPair, Connection};
use crate::error::Error;
use crate::inner::{complete_post, connect_post, listen_post, Handshake, Inner};
use crate::socket::FaultyTcpStream;
use crate::ports::{is_ephemeral_port, port_in_use};

verus! {

/// Connections with the same source and destination are equal and have the
/// same digest, whatever their liveness handles are.
pub proof fn law_handles_are_not_identity(a: Connection, b: Connection)
    requires
        a.pair().source == b.pair().source,
        a.pair().dest == b.pair().dest,
    ensures
        PartialEqSpec::eq_spec(&a, &b),
        pair_hash(a.pair()) == pair_hash(b.pair()),
{
}

/// No two connections that are registered at the same time have the same
/// address pair. The registry's invariant says so; a new registry has it
/// and `connect`, `listen` and the sweep keep it.
pub proof fn law_identities_unique(inner: Inner, i: int, j: int)
    requires
        inner.wf(),
        0 <= i < inner.identities().len(),
        0 <= j < inner.identities().len(),
        i != j,
    ensures
        inner.identities()[i] != inner.identities()[j],
{
}

/// After a `connect` that registered a connection, that connection is in
/// the registry, no other registered connection comes from its source
/// address, and no two registered connections have the same address pair.
pub proof fn law_connect_registers_fresh_pair(
    pre: Inner,
    source: IpAddr,
    dest: SocketAddr,
    post: Inner,
    handshake: Handshake,
)
    requires
        pre.wf(),
        connect_post(pre, source, dest, post, handshake),
        handshake.registration is Ok,
    ensures
        ({
            let pair = AddrPair { source: handshake.registration->Ok_0.0.half().local, dest };
            &&& post.connections().contains(pair)
            &&& !port_in_use(post.connections().remove(pair), source, pair.source.port)
            &&& post.identities().no_duplicates()
        }),
{
}

/// At most one answer fits: the allocator's choice is a function of the
/// registered connections and the IP address.
pub proof fn law_ephemeral_port_unique(
    pairs: Set<AddrPair>,
    ip: IpAddr,
    a: Option<u16>,
    b: Option<u16>,
)
    requires
        is_ephemeral_port(pairs, ip, a),
        is_ephemeral_port(pairs, ip, b),
    ensures
        a == b,
{
    match (a, b) {
        (Some(x), Some(y)) => {
            if x < y {
                assert(port_in_use(pairs, ip, y));
            }
            if y < x {
                assert(port_in_use(pairs, ip, x));
            }
        },
        (Some(x), None) => {
            assert(port_in_use(pairs, ip, x));
        },
        (None, Some(y)) => {
            assert(port_in_use(pairs, ip, y));
        },
        (None, None) => {},
    }
}

/// Once a sweep has forgotten a connection, its source port is free again,
/// unless a connection that stays comes from the same source address: the
/// allocator then answers with that port or a higher one.
pub proof fn law_swept_port_is_free(
    pairs: Seq<AddrPair>,
    live: Seq<bool>,
    i: int,
    choice: Option<u16>,
)
    requires
        live.len() == pairs.len(),
        0 <= i < pairs.len(),
        !live[i],
        forall|j: int| 0 <= j < pairs.len() && live[j] ==> pairs[j].source != pairs[i].source,
        is_ephemeral_port(kept(pairs, live), pairs[i].source.ip, choice),
    ensures
        !port_in_use(kept(pairs, live), pairs[i].source.ip, pairs[i].source.port),
        choice is Some,
        choice->Some_0 >= pairs[i].source.port,
{
    let ip = pairs[i].source.ip;
    let port = pairs[i].source.port;
    if port_in_use(kept(pairs, live), ip, port) {
        let p = choose|p: AddrPair| #[trigger]
            kept(pairs, live).contains(p) && p.source == (SocketAddr { ip, port });
        let j = choose|j: int| 0 <= j < pairs.len() && live[j] && pairs[j] == p;
        assert(pairs[j].source == pairs[i].source);
    }
}

/// A port of the source IP address that no surviving connection comes from
/// can be given out again: where a `connect` leaves no connection but the
/// new one on that port, it has succeeded, with that port or a higher one.
pub proof fn law_port_reuse(
    pre: Inner,
    source: IpAddr,
    dest: SocketAddr,
    post: Inner,
    handshake: Handshake,
    port: u16,
)
    requires
        pre.wf(),
        connect_post(pre, source, dest, post, handshake),
        forall|p: AddrPair| #[trigger]
            post.connections().contains(p) && p.source == (SocketAddr { ip: source, port })
                ==> handshake.registration is Ok && p == (AddrPair {
                source: handshake.registration->Ok_0.0.half().local,
                dest,
            }),
    ensures
        handshake.registration is Ok,
        handshake.registration->Ok_0.0.half().local.ip == source,
        handshake.registration->Ok_0.0.half().local.port >= port,
{
    match handshake.registration {
        Ok((client, server)) => {
            let from = client.half().local;
            let pair = AddrPair { source: from, dest };
            let survivors = post.connections().remove(pair);
            if from.port < port {
                assert(port_in_use(survivors, source, port));
                let p = choose|p: AddrPair| #[trigger]
                    survivors.contains(p) && p.source == (SocketAddr { ip: source, port });
                assert(post.connections().contains(p));
            }
        },
        Err(e) => {
            assert(port_in_use(post.connections(), source, port));
            let p = choose|p: AddrPair| #[trigger]
                post.connections().contains(p) && p.source == (SocketAddr { ip: source, port });
            assert(handshake.registration is Ok);
        },
    }
}

/// A second `listen` on an address fails with `AddrInUse`, whatever the
/// first returned, and leaves every endpoint as the first call left it: the
/// registry's sender still sends into the backlog of the first listener.
pub proof fn law_double_bind(
    start: Inner,
    bind_addr: SocketAddr,
    between: Inner,
    first: Result<Listener, Error>,
    end: Inner,
    second: Result<Listener, Error>,
)
    requires
        start.wf(),
        listen_post(start, bind_addr, between, first),
        listen_post(between, bind_addr, end, second),
    ensures
        second == Err::<Listener, Error>(Error::AddrInUse),
        end.endpoints() == between.endpoints(),
        first matches Ok(listener) ==> feeds(end.endpoints()[bind_addr].tx(), listener.rx),
{
}

/// A `listen` that comes after a `connect` to the same address, where no
/// listener had been bound before, succeeds, and the listener gets the
/// receiver that the endpoint held after the `connect`: the receiving half
/// of the backlog that the handshake sends into. The first `connect` to an
/// address always has a sender.
pub proof fn law_listen_after_connect(
    start: Inner,
    source: IpAddr,
    dest: SocketAddr,
    between: Inner,
    handshake: Handshake,
    end: Inner,
    outcome: Result<Listener, Error>,
)
    requires
        start.wf(),
        start.endpoints().dom().contains(dest) ==> start.endpoints()[dest] is Unbound,
        connect_post(start, source, dest, between, handshake),
        listen_post(between, dest, end, outcome),
    ensures
        between.endpoints()[dest] is Unbound,
        outcome == Ok::<Listener, Error>(
            Listener { addr: dest, rx: between.endpoints()[dest]->Unbound_rx },
        ),
        handshake.channel matches Some(tx) ==> feeds(tx, outcome->Ok_0.rx),
        !start.endpoints().dom().contains(dest) ==> handshake.channel is Some,
        end.endpoints()[dest] == (ListenerState::Bound { tx: between.endpoints()[dest].tx() }),
{
}

/// A `connect` to an address that a listener is bound to sends into the
/// backlog of that listener.
pub proof fn law_connect_after_listen(
    start: Inner,
    bind_addr: SocketAddr,
    between: Inner,
    listener: Listener,
    source: IpAddr,
    end: Inner,
    handshake: Handshake,
)
    requires
        start.wf(),
        listen_post(start, bind_addr, between, Ok(listener)),
        connect_post(between, source, bind_addr, end, handshake),
    ensures
        handshake.channel is Some,
        feeds(handshake.channel->Some_0, listener.rx),
        end.endpoints() == between.endpoints(),
{
}

/// A handshake that comes without a sender comes from a `connect` to an
/// address that had a backlog and never a listener, and it fails: with
/// `ConnectionRefused` where the connection had been registered.
pub proof fn law_refused_without_sender(
    pre: Inner,
    source: IpAddr,
    dest: SocketAddr,
    post: Inner,
    handshake: Handshake,
    outcome: Result<FaultyTcpStream, Error>,
)
    requires
        pre.wf(),
        connect_post(pre, source, dest, post, handshake),
        handshake.channel is None,
        complete_post(handshake, outcome),
    ensures
        pre.endpoints().dom().contains(dest),
        pre.endpoints()[dest] is Unbound,
        outcome is Err,
        handshake.registration is Ok ==> outcome == Err::<FaultyTcpStream, Error>(
            Error::ConnectionRefused,
        ),
{
}

} // verus!
