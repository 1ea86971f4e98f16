use vsock_muxer::conn::{ConnMapKey, ConnState, ConnStatus, ConnTable};
use vsock_muxer::defs::{MUXER_KILLQ_SIZE, MUXER_RXQ_SIZE};
use vsock_muxer::error::VsockBackendType;
use vsock_muxer::killq::MuxerKillQ;
use vsock_muxer::ports::{LocalPorts, LOCAL_PORT_FIRST};
use vsock_muxer::rxq::{MuxerRx, MuxerRxQ};

fn key(n: u32) -> ConnMapKey {
    ConnMapKey { local_port: n, peer_port: n + 1 }
}

fn status(pending_rx: bool, expiry: Option<u64>) -> ConnStatus {
    ConnStatus {
        fd: 3,
        backend: VsockBackendType { id: 1 },
        state: ConnState::Established,
        pending_rx,
        expiry,
    }
}

fn conn_rx(n: u32) -> MuxerRx {
    MuxerRx::ConnRx(key(n))
}

fn rst(n: u32) -> MuxerRx {
    MuxerRx::RstPkt { local_port: n, peer_port: n }
}

#[test]
fn rxq_is_first_in_first_out() {
    let mut q = MuxerRxQ::new();
    assert!(q.is_empty());
    assert!(q.is_synced());
    assert_eq!(q.peek(), None);
    assert_eq!(q.pop(), None);
    assert!(q.push(conn_rx(1)));
    assert!(q.push(rst(2)));
    assert_eq!(q.len(), 2);
    assert_eq!(q.peek(), Some(conn_rx(1)));
    assert_eq!(q.pop(), Some(conn_rx(1)));
    assert_eq!(q.pop(), Some(rst(2)));
    assert!(q.is_empty());
    assert!(q.is_synced());
}

#[test]
fn full_rxq_turns_connections_down_and_loses_sync() {
    let mut q = MuxerRxQ::new();
    for n in 0..MUXER_RXQ_SIZE as u32 {
        assert!(q.push(conn_rx(n)));
    }
    assert!(q.is_synced());
    assert!(!q.push(conn_rx(1000)));
    assert!(!q.is_synced());
    // A queue that is out of sync takes no connections even if it has room.
    assert_eq!(q.pop(), Some(conn_rx(0)));
    assert!(!q.push(conn_rx(1001)));
    assert_eq!(q.len(), MUXER_RXQ_SIZE - 1);
    // But it takes resets.
    assert!(q.push(rst(1002)));
    assert_eq!(q.len(), MUXER_RXQ_SIZE);
}

#[test]
fn reset_displaces_the_last_connection() {
    let mut q = MuxerRxQ::new();
    for n in 0..MUXER_RXQ_SIZE as u32 - 2 {
        assert!(q.push(rst(n)));
    }
    assert!(q.push(conn_rx(7)));
    assert!(q.push(rst(8)));
    assert!(q.push(rst(9)));
    assert!(!q.is_synced());
    for n in 0..MUXER_RXQ_SIZE as u32 - 2 {
        assert_eq!(q.pop(), Some(rst(n)));
    }
    assert_eq!(q.pop(), Some(rst(9)));
    assert_eq!(q.pop(), Some(rst(8)));
    assert_eq!(q.pop(), None);
}

#[test]
fn reset_is_dropped_by_a_queue_full_of_resets() {
    let mut q = MuxerRxQ::new();
    for n in 0..MUXER_RXQ_SIZE as u32 {
        assert!(q.push(rst(n)));
    }
    assert!(!q.push(rst(1000)));
    assert!(q.is_synced());
    assert_eq!(q.len(), MUXER_RXQ_SIZE);
    assert_eq!(q.peek(), Some(rst(0)));
}

#[test]
fn rxq_is_made_of_the_connections_with_a_packet() {
    let mut conns = ConnTable::new();
    for n in 0..10 {
        conns.insert(key(n), status(n % 2 == 0, None));
    }
    let mut q = MuxerRxQ::from_conn_map(&conns);
    assert!(q.is_synced());
    assert_eq!(q.len(), 5);
    let mut seen: Vec<u32> = Vec::new();
    while let Some(rx) = q.pop() {
        match rx {
            MuxerRx::ConnRx(k) => seen.push(k.local_port),
            MuxerRx::RstPkt { .. } => panic!("no reset was queued"),
        }
    }
    seen.sort();
    assert_eq!(seen, vec![0, 2, 4, 6, 8]);
}

#[test]
fn rxq_of_too_many_connections_is_out_of_sync() {
    let mut conns = ConnTable::new();
    for n in 0..MUXER_RXQ_SIZE as u32 {
        conns.insert(key(n), status(true, None));
    }
    assert!(MuxerRxQ::from_conn_map(&conns).is_synced());
    conns.insert(key(5000), status(true, None));
    let q = MuxerRxQ::from_conn_map(&conns);
    assert!(!q.is_synced());
    assert_eq!(q.len(), MUXER_RXQ_SIZE);
}

#[test]
fn killq_gives_what_is_due() {
    let mut q = MuxerKillQ::new();
    assert!(q.is_empty());
    q.push(key(1), 10);
    q.push(key(2), 20);
    assert_eq!(q.pop(10), None);
    assert_eq!(q.pop(11), Some(key(1)));
    assert_eq!(q.pop(11), None);
    assert!(!q.is_empty());
    assert_eq!(q.pop(21), Some(key(2)));
    assert!(q.is_empty());
    assert!(q.is_synced());
}

#[test]
fn full_killq_loses_sync() {
    let mut q = MuxerKillQ::new();
    for n in 0..MUXER_KILLQ_SIZE as u32 {
        q.push(key(n), n as u64);
    }
    assert!(q.is_synced());
    q.push(key(1000), 1000);
    assert!(!q.is_synced());
    for n in 0..MUXER_KILLQ_SIZE as u32 {
        assert_eq!(q.pop(10_000), Some(key(n)));
    }
    q.push(key(1001), 1001);
    assert!(q.is_empty());
    assert!(!q.is_synced());
}

#[test]
fn killq_is_made_in_the_order_of_time() {
    let mut conns = ConnTable::new();
    conns.insert(key(1), status(false, Some(30)));
    conns.insert(key(2), status(false, Some(10)));
    conns.insert(key(3), status(false, None));
    conns.insert(key(4), status(false, Some(20)));
    let killed = ConnStatus { state: ConnState::Killed, ..status(true, Some(5)) };
    conns.insert(key(5), killed);
    let mut q = MuxerKillQ::from_conn_map(&conns);
    assert!(q.is_synced());
    assert_eq!(q.pop(100), Some(key(2)));
    assert_eq!(q.pop(100), Some(key(4)));
    assert_eq!(q.pop(100), Some(key(1)));
    assert_eq!(q.pop(100), None);
}

#[test]
fn killq_keeps_the_order_of_time() {
    let mut q = MuxerKillQ::new();
    q.push(key(1), 20);
    q.push(key(2), 10);
    q.push(key(3), 20);
    q.push(key(4), 15);
    for n in [2, 4, 1, 3] {
        assert_eq!(q.pop(100), Some(key(n)));
    }
    assert!(q.is_empty());
}

#[test]
fn killq_of_too_many_connections_is_out_of_sync() {
    let mut conns = ConnTable::new();
    for n in 0..MUXER_KILLQ_SIZE as u32 {
        conns.insert(key(n), status(false, Some(100 + n as u64)));
    }
    assert!(MuxerKillQ::from_conn_map(&conns).is_synced());
    conns.insert(key(5000), status(false, Some(1)));
    assert!(!MuxerKillQ::from_conn_map(&conns).is_synced());
}

#[test]
fn table_keeps_ports_apart() {
    let a = ConnMapKey { local_port: 1, peer_port: u32::MAX };
    let b = ConnMapKey { local_port: u32::MAX, peer_port: 1 };
    let mut conns = ConnTable::new();
    conns.insert(a, status(true, None));
    assert!(conns.contains_key(a));
    assert!(!conns.contains_key(b));
    conns.insert(b, status(false, None));
    assert_eq!(conns.len(), 2);
    let mut keys = conns.keys();
    keys.sort_by_key(|k| k.local_port);
    assert_eq!(keys, vec![a, b]);
    assert_eq!(conns.remove(a), Some(status(true, None)));
    assert_eq!(conns.remove(a), None);
    assert_eq!(conns.get(b), Some(status(false, None)));
    assert_eq!(conns.len(), 1);
}

#[test]
fn expiry_at_the_edge() {
    let conn = status(false, Some(10));
    assert!(conn.will_expire(9));
    assert!(!conn.will_expire(10));
    assert!(!conn.has_expired(9));
    assert!(conn.has_expired(10));
    assert!(!status(false, None).will_expire(0));
    assert!(!status(false, None).has_expired(u64::MAX));
    let mut killed = conn;
    killed.kill();
    assert_eq!(killed, ConnStatus { state: ConnState::Killed, pending_rx: true, ..conn });
}

#[test]
fn ports_are_assigned_in_turn() {
    let mut ports = LocalPorts::new();
    assert_eq!(LOCAL_PORT_FIRST, 1 << 30);
    assert_eq!(ports.allocate(), 1 << 30);
    assert_eq!(ports.allocate(), (1 << 30) + 1);
    ports.free(1 << 30);
    // A port that is freed is not assigned again until the others had their
    // turn.
    assert_eq!(ports.allocate(), (1 << 30) + 2);
    ports.free(12);
    assert!(ports.has_free());
}
