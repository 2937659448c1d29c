use simnet::addr::{mix, IpAddr, SocketAddr};
use simnet::backlog::{has_room, BACKLOG};
use simnet::connection::{poll_liveness, retain_live, still_in_use, Connection};
use simnet::ports::unused_port;
use simnet::socket::{
    gone_at, new_socket_pair, FaultyTcpStream, FaultyTcpStreamHandle, SocketHalf,
};

fn addr(last: u8, port: u16) -> SocketAddr {
    SocketAddr::new(IpAddr::V4(10, 0, 0, last), port)
}

/// A connection whose sockets are dropped at once.
fn dead(source: SocketAddr, dest: SocketAddr) -> Connection {
    let (client, server) = new_socket_pair(source, dest);
    let (_, client_handle) = FaultyTcpStream::wrap(client);
    let (_, server_handle) = FaultyTcpStream::wrap(server);
    Connection::new(source, dest, client_handle, server_handle)
}

/// A connection together with its two sockets.
fn alive(source: SocketAddr, dest: SocketAddr) -> (Connection, FaultyTcpStream, FaultyTcpStream) {
    let (client, server) = new_socket_pair(source, dest);
    let (client, client_handle) = FaultyTcpStream::wrap(client);
    let (server, server_handle) = FaultyTcpStream::wrap(server);
    (Connection::new(source, dest, client_handle, server_handle), client, server)
}

#[test]
fn identity_ignores_liveness_handles() {
    let (a, _client, _server) = alive(addr(2, 65535), addr(1, 80));
    let b = dead(addr(2, 65535), addr(1, 80));
    assert!(a.is_live());
    assert!(!b.is_live());
    assert!(a == b);
    assert_eq!(a.hash_code(), b.hash_code());
    assert_eq!(a.source(), b.source());
    assert_eq!(a.dest(), b.dest());
}

#[test]
fn identity_is_the_address_pair() {
    let a = dead(addr(2, 65535), addr(1, 80));
    assert!(a != dead(addr(2, 65534), addr(1, 80)));
    assert!(a != dead(addr(3, 65535), addr(1, 80)));
    assert!(a != dead(addr(2, 65535), addr(1, 81)));
    assert!(a != dead(addr(1, 80), addr(2, 65535)));
    assert!(a == dead(addr(2, 65535), addr(1, 80)));
}

#[test]
fn digest_values() {
    assert_eq!(mix(1, 2), 1099511628213);
    assert_eq!(mix(u64::MAX, 5), 18446742974197923410);
    assert_eq!(addr(2, 65535).mix_into(0), 8252361421041961627);
    assert_eq!(
        SocketAddr::new(IpAddr::V6(0, 0, 0, 0, 0, 0, 0, 1), 8080).mix_into(0),
        8394148067504416181
    );
    assert_eq!(dead(addr(2, 65535), addr(1, 80)).hash_code(), 4476746067870762940);
    assert!(
        dead(addr(2, 65535), addr(1, 80)).hash_code()
            != dead(addr(1, 80), addr(2, 65535)).hash_code()
    );
}

#[test]
fn connection_lives_until_both_sockets_are_dropped() {
    let (connection, client, server) = alive(addr(2, 1), addr(1, 80));
    assert!(connection.is_live());
    drop(client);
    assert!(connection.is_live());
    drop(server);
    assert!(!connection.is_live());
}

#[test]
fn still_in_use_unless_both_dropped() {
    assert!(still_in_use(false, false));
    assert!(still_in_use(true, false));
    assert!(still_in_use(false, true));
    assert!(!still_in_use(true, true));
}

#[test]
fn handle_reports_the_drop_of_its_socket() {
    let half = SocketHalf { local: addr(2, 7), peer: addr(1, 80) };
    let (socket, handle): (FaultyTcpStream, FaultyTcpStreamHandle) = FaultyTcpStream::wrap(half);
    assert_eq!(socket.local_addr(), addr(2, 7));
    assert_eq!(socket.peer_addr(), addr(1, 80));
    assert!(!handle.is_dropped());
    drop(socket);
    assert!(handle.is_dropped());
}

#[test]
fn socket_pair_is_linked() {
    let (client, server) = new_socket_pair(addr(2, 65535), addr(1, 80));
    assert_eq!(client, SocketHalf { local: addr(2, 65535), peer: addr(1, 80) });
    assert_eq!(server, SocketHalf { local: addr(1, 80), peer: addr(2, 65535) });
}

#[test]
fn retain_live_keeps_the_flagged() {
    let mut connections = Vec::new();
    for port in 1..=6u16 {
        connections.push(dead(addr(2, port), addr(1, 80)));
    }
    retain_live(&mut connections, vec![true, false, false, true, true, false]);
    let mut ports: Vec<u16> = connections.iter().map(|c| c.source().port()).collect();
    ports.sort();
    assert_eq!(ports, vec![1, 4, 5]);

    retain_live(&mut connections, vec![false, false, false]);
    assert!(connections.is_empty());
    retain_live(&mut connections, vec![]);
    assert!(connections.is_empty());
}

#[test]
fn poll_liveness_asks_each_connection() {
    let (a, _client, server) = alive(addr(2, 1), addr(1, 80));
    let b = dead(addr(2, 2), addr(1, 80));
    let (c, client, _server) = alive(addr(2, 3), addr(1, 80));
    drop(server);
    drop(client);
    let connections = vec![a, b, c];
    assert_eq!(poll_liveness(&connections), vec![true, false, true]);
    assert_eq!(poll_liveness(&Vec::new()), Vec::<bool>::new());
}

#[test]
fn unused_port_is_the_highest_free_one() {
    let ip = IpAddr::V4(10, 0, 0, 2);
    let mut connections = Vec::new();
    assert_eq!(unused_port(&connections, ip), Some(65535));
    connections.push(dead(addr(2, 65535), addr(1, 80)));
    connections.push(dead(addr(2, 65533), addr(1, 80)));
    assert_eq!(unused_port(&connections, ip), Some(65534));
    connections.push(dead(addr(2, 65534), addr(1, 80)));
    assert_eq!(unused_port(&connections, ip), Some(65532));
    // The same port towards another destination counts once.
    connections.push(dead(addr(2, 65532), addr(1, 80)));
    connections.push(dead(addr(2, 65532), addr(1, 81)));
    assert_eq!(unused_port(&connections, ip), Some(65531));
    // Ports of other hosts, and ports used as destinations, do not count.
    connections.push(dead(addr(3, 65531), addr(2, 65531)));
    assert_eq!(unused_port(&connections, ip), Some(65531));
    assert_eq!(unused_port(&connections, IpAddr::V4(10, 0, 0, 3)), Some(65535));
}

#[test]
fn unused_port_fails_when_all_are_taken() {
    let ip = IpAddr::V4(10, 0, 0, 2);
    let mut connections = Vec::new();
    for port in 1..=65535u16 {
        connections.push(dead(addr(2, port), addr(1, 80)));
    }
    // Port 0 is the last one left.
    assert_eq!(unused_port(&connections, ip), Some(0));
    connections.push(dead(addr(2, 0), addr(1, 80)));
    assert_eq!(unused_port(&connections, ip), None);
    assert_eq!(unused_port(&connections, IpAddr::V4(10, 0, 0, 3)), Some(65535));
    // Freeing one in the middle makes it the answer.
    connections.swap_remove(1234);
    let missing = (0..=65535u16)
        .find(|p| !connections.iter().any(|c| c.source().port() == *p))
        .expect("one port is free");
    assert_eq!(unused_port(&connections, ip), Some(missing));
}

#[test]
fn socket_is_gone_when_only_the_handle_holds_the_token() {
    assert!(gone_at(0));
    assert!(gone_at(1));
    assert!(!gone_at(2));
    assert!(!gone_at(usize::MAX));
}

#[test]
fn retain_live_keeps_connections_with_their_handles() {
    let (a, a_client, a_server) = alive(addr(2, 1), addr(1, 80));
    let b = dead(addr(2, 2), addr(1, 80));
    let (c, c_client, c_server) = alive(addr(2, 3), addr(1, 80));
    let mut connections = vec![a, b, c];
    let live = poll_liveness(&connections);
    assert_eq!(live, vec![true, false, true]);
    retain_live(&mut connections, live);
    assert_eq!(connections.len(), 2);
    assert!(connections.iter().all(|connection| connection.is_live()));
    drop(a_client);
    drop(a_server);
    let live = poll_liveness(&connections);
    retain_live(&mut connections, live);
    assert_eq!(connections.len(), 1);
    assert_eq!(connections[0].source(), addr(2, 3));
    assert!(connections[0].is_live());
    drop(c_client);
    drop(c_server);
    assert!(!connections[0].is_live());
}

#[test]
fn backlog_has_room_for_one() {
    assert_eq!(BACKLOG, 1);
    assert!(has_room(0));
    assert!(!has_room(1));
    assert!(!has_room(2));
    assert!(!has_room(usize::MAX));
}
