use vsock_muxer::conn::{ConnMapKey, ConnState, ConnStatus};
use vsock_muxer::defs::{
    MAX_CONNECTIONS, MUXER_KILLQ_SIZE, MUXER_RXQ_SIZE, VSOCK_HOST_CID, VSOCK_OP_REQUEST,
    VSOCK_OP_RST, VSOCK_TYPE_STREAM,
};
use vsock_muxer::error::{Error, IoError, VsockBackendType};
use vsock_muxer::events::{CtlOp, EpollCtl, EventSet};
use vsock_muxer::listener::{EpollListener, LocalStream};
use vsock_muxer::muxer::VsockMuxer;
use vsock_muxer::packet::VsockPacket;
use vsock_muxer::request::PortRequest;
use vsock_muxer::steps::{
    ConnInit, ConnReport, EventStep, MutationStep, NewConn, RecvStep, Removal, SendStep,
};

const CID: u64 = 3;
const VSOCK_OP_RW: u16 = 5;
const BACKEND: VsockBackendType = VsockBackendType { id: 1 };
const IN: EventSet = EventSet { bits: 1 };
const IN_OUT: EventSet = EventSet { bits: 5 };
const NO_EVENTS: EventSet = EventSet { bits: 0 };
const KEY: ConnMapKey = ConnMapKey { local_port: 1024, peer_port: 80 };
const FAILED: IoError = IoError { code: 5 };

fn muxer() -> VsockMuxer {
    VsockMuxer::new(CID, Ok(9)).unwrap()
}

fn key(n: u32) -> ConnMapKey {
    ConnMapKey { local_port: n, peer_port: 80 }
}

fn status(fd: i32, state: ConnState, pending_rx: bool) -> ConnStatus {
    ConnStatus { fd, backend: BACKEND, state, pending_rx, expiry: None }
}

fn idle(fd: i32) -> ConnStatus {
    status(fd, ConnState::Established, false)
}

fn add(m: &mut VsockMuxer, key: ConnMapKey, status: ConnStatus) {
    assert_eq!(m.insert_connection(key, NewConn { status, evset: IN }, Ok(())), Ok(()));
}

fn report(status: ConnStatus, evset: EventSet) -> ConnReport {
    ConnReport { state: status.state, ack: Ok(0), status, evset, began: 0, ended: 0 }
}

fn blank() -> VsockPacket {
    VsockPacket {
        src_cid: 0,
        dst_cid: 0,
        src_port: 0,
        dst_port: 0,
        len: 77,
        type_: 0,
        op: 0,
        flags: 1,
        buf_alloc: 2,
        fwd_cnt: 3,
    }
}

/// A packet from the guest to the connection with key `key`.
fn from_guest(key: ConnMapKey, op: u16) -> VsockPacket {
    VsockPacket {
        src_cid: CID,
        dst_cid: VSOCK_HOST_CID,
        src_port: key.peer_port,
        dst_port: key.local_port,
        len: 0,
        type_: VSOCK_TYPE_STREAM,
        op,
        flags: 0,
        buf_alloc: 4096,
        fwd_cnt: 0,
    }
}

/// A packet from the host of the connection with key `key`.
fn from_host(key: ConnMapKey, op: u16) -> VsockPacket {
    VsockPacket {
        src_cid: VSOCK_HOST_CID,
        dst_cid: CID,
        src_port: key.local_port,
        dst_port: key.peer_port,
        len: 0,
        type_: VSOCK_TYPE_STREAM,
        op,
        flags: 0,
        buf_alloc: 0,
        fwd_cnt: 0,
    }
}

/// The packet that the muxer delivers by itself.
fn delivered(m: &mut VsockMuxer) -> Option<VsockPacket> {
    let mut pkt = blank();
    match m.recv_pkt(&mut pkt) {
        RecvStep::NoData => None,
        RecvStep::Packet { removed: None } => Some(pkt),
        other => panic!("unexpected step: {:?}", other),
    }
}

fn request_for(command: &[u8]) -> PortRequest {
    let mut req = PortRequest::new(&command[..10]);
    for byte in &command[10..] {
        req.push(*byte);
    }
    req
}

// ---- Making a muxer ----

#[test]
fn new_muxer_is_empty() {
    let mut m = muxer();
    assert_eq!(m.as_raw_fd(), 9);
    assert_eq!(m.get_polled_evset(), IN);
    assert!(!m.has_pending_rx());
    assert!(m.has_free_local_port());
    assert_eq!(m.conn_status(KEY), None);
    assert_eq!(delivered(&mut m), None);
    assert_eq!(m.handle_event(4, IN), EventStep::Ignored);
}

#[test]
fn new_muxer_needs_its_epoll_fd() {
    match VsockMuxer::new(CID, Err(FAILED)) {
        Ok(_) => panic!("the epoll file descriptor is missing"),
        Err(e) => assert_eq!(e, Error::EpollFdCreate(FAILED)),
    }
}

// ---- Packets from the guest ----

#[test]
fn packet_of_other_type_is_answered_by_a_reset() {
    let mut m = muxer();
    let mut pkt = from_guest(KEY, VSOCK_OP_RW);
    pkt.type_ = 2;
    pkt.dst_cid = 99;
    assert_eq!(m.send_pkt(&pkt), SendStep::Reset { queued: true });
    assert!(m.has_pending_rx());
    assert_eq!(delivered(&mut m), Some(from_host(KEY, VSOCK_OP_RST)));
    assert_eq!(delivered(&mut m), None);
}

#[test]
fn packet_for_other_cid_is_dropped() {
    let mut m = muxer();
    let mut pkt = from_guest(KEY, VSOCK_OP_RW);
    pkt.dst_cid = 99;
    assert_eq!(m.send_pkt(&pkt), SendStep::Dropped);
    assert!(!m.has_pending_rx());
}

#[test]
fn packet_without_connection_is_answered_by_a_reset() {
    let mut m = muxer();
    assert_eq!(m.send_pkt(&from_guest(KEY, VSOCK_OP_RW)), SendStep::Reset { queued: true });
    assert_eq!(delivered(&mut m), Some(from_host(KEY, VSOCK_OP_RST)));
    assert_eq!(m.send_pkt(&from_guest(KEY, VSOCK_OP_RST)), SendStep::Reset { queued: true });
    assert_eq!(delivered(&mut m), Some(from_host(KEY, VSOCK_OP_RST)));
}

#[test]
fn packet_is_forwarded_to_its_connection() {
    let mut m = muxer();
    add(&mut m, KEY, idle(20));
    assert_eq!(m.send_pkt(&from_guest(KEY, VSOCK_OP_RW)), SendStep::Forward(KEY));
    assert_eq!(m.send_pkt(&from_guest(KEY, VSOCK_OP_REQUEST)), SendStep::Forward(KEY));
    assert!(!m.has_pending_rx());
}

#[test]
fn reset_from_the_guest_removes_the_connection() {
    let mut m = muxer();
    add(&mut m, KEY, idle(20));
    let removal = Removal { key: KEY, ctl: Some(EpollCtl::delete(20)) };
    assert_eq!(m.send_pkt(&from_guest(KEY, VSOCK_OP_RST)), SendStep::Removed(removal));
    assert_eq!(m.conn_status(KEY), None);
    assert_eq!(m.handle_event(20, IN), EventStep::Ignored);
    assert!(!m.has_pending_rx());
}

#[test]
fn resets_are_delivered_in_order() {
    let mut m = muxer();
    for n in 0..5 {
        assert!(m.enq_rst(n, 80));
    }
    for n in 0..5 {
        assert_eq!(delivered(&mut m), Some(from_host(key(n), VSOCK_OP_RST)));
    }
    assert!(!m.has_pending_rx());
}

#[test]
fn resets_beyond_the_capacity_are_dropped() {
    let mut m = muxer();
    for n in 0..MUXER_RXQ_SIZE as u32 {
        assert!(m.enq_rst(n, 80));
    }
    // Each way to a reset says that it found no place.
    let lost = key(5000);
    assert!(!m.enq_rst(5000, 80));
    assert_eq!(
        m.send_pkt(&from_guest(lost, VSOCK_OP_RW)),
        SendStep::Reset { queued: false }
    );
    let request = from_guest(lost, VSOCK_OP_REQUEST);
    assert_eq!(m.send_pkt(&request), SendStep::NoBackend { queued: false });
    assert!(m.peer_connected(&request, Err(FAILED), 0).rst_dropped);
    let conn = NewConn { status: idle(20), evset: IN };
    let step = m.peer_connected(&request, Ok(conn), 0);
    assert!(step.ctl.is_ok());
    assert!(!step.rst_dropped);
    let added = m.peer_registered(&request, conn, Err(FAILED));
    assert_eq!(added.res, Err(Error::EpollAdd(FAILED)));
    assert!(added.rst_dropped);
    for n in 0..MUXER_RXQ_SIZE as u32 {
        assert_eq!(delivered(&mut m), Some(from_host(key(n), VSOCK_OP_RST)));
    }
    assert_eq!(delivered(&mut m), None);
}

// ---- Connections that the guest requests ----

#[test]
fn request_without_backend_is_answered_by_a_reset() {
    let mut m = muxer();
    assert_eq!(m.register_backend(BACKEND, 30, false, Ok(())), Ok(()));
    assert_eq!(
        m.send_pkt(&from_guest(KEY, VSOCK_OP_REQUEST)),
        SendStep::NoBackend { queued: true }
    );
    assert_eq!(delivered(&mut m), Some(from_host(KEY, VSOCK_OP_RST)));
}

#[test]
fn requested_connection_is_added() {
    let mut m = muxer();
    assert_eq!(m.register_backend(BACKEND, 30, true, Ok(())), Ok(()));
    let pkt = from_guest(KEY, VSOCK_OP_REQUEST);
    assert_eq!(m.send_pkt(&pkt), SendStep::Connect { backend: BACKEND, port: 1024 });
    let init = m.peer_init(&pkt);
    assert_eq!(
        init,
        ConnInit {
            local_cid: VSOCK_HOST_CID,
            peer_cid: CID,
            local_port: 1024,
            peer_port: 80,
            peer_buf_alloc: Some(4096),
        }
    );
    assert_eq!(init.key(), KEY);
    let conn = NewConn { status: status(20, ConnState::PeerInit, true), evset: IN };
    let step = m.peer_connected(&pkt, Ok(conn), 0);
    assert!(step.killed.is_empty());
    assert_eq!(
        step.ctl,
        Ok(EpollCtl { op: CtlOp::Add, fd: 20, events: IN, data: 20 })
    );
    let added = m.peer_registered(&pkt, conn, Ok(()));
    assert_eq!(added.res, Ok(()));
    assert!(!added.rst_dropped);
    assert_eq!(m.conn_status(KEY), Some(conn.status));
    assert_eq!(m.handle_event(20, IN), EventStep::Notify { key: KEY, evset: IN });
    // The connection has its response to deliver.
    let mut out = blank();
    assert_eq!(m.recv_pkt(&mut out), RecvStep::Fetch(KEY));
    assert_eq!(m.send_pkt(&from_guest(KEY, VSOCK_OP_RW)), SendStep::Forward(KEY));
}

#[test]
fn request_that_the_backend_refuses_is_answered_by_a_reset() {
    let mut m = muxer();
    let pkt = from_guest(KEY, VSOCK_OP_REQUEST);
    let step = m.peer_connected(&pkt, Err(FAILED), 0);
    assert!(step.killed.is_empty());
    assert_eq!(step.ctl, Err(Error::BackendConnect(FAILED)));
    assert!(!step.rst_dropped);
    assert_eq!(delivered(&mut m), Some(from_host(KEY, VSOCK_OP_RST)));
}

#[test]
fn request_that_cannot_be_polled_is_answered_by_a_reset() {
    let mut m = muxer();
    let pkt = from_guest(KEY, VSOCK_OP_REQUEST);
    let conn = NewConn { status: status(20, ConnState::PeerInit, true), evset: IN };
    let added = m.peer_registered(&pkt, conn, Err(FAILED));
    assert_eq!(added.res, Err(Error::EpollAdd(FAILED)));
    assert!(!added.rst_dropped);
    assert_eq!(m.conn_status(KEY), None);
    assert_eq!(m.handle_event(20, IN), EventStep::Ignored);
    assert_eq!(delivered(&mut m), Some(from_host(KEY, VSOCK_OP_RST)));
}

#[test]
fn connection_limit() {
    let mut m = muxer();
    for n in 0..MAX_CONNECTIONS as u32 {
        add(&mut m, key(n), idle(100 + n as i32));
    }
    let conn = NewConn { status: idle(20), evset: IN };
    let more = key(5000);
    // A host connection is refused as soon as it is announced.
    assert_eq!(m.register_backend(BACKEND, 30, false, Ok(())), Ok(()));
    assert_eq!(m.handle_event(30, IN), EventStep::Accept { backend: BACKEND, refused: true });
    assert_eq!(m.add_connection(conn, 0).ctl, Err(Error::TooManyConnections));
    assert_eq!(m.insert_connection(more, conn, Ok(())), Err(Error::TooManyConnections));
    let pkt = from_guest(more, VSOCK_OP_REQUEST);
    assert_eq!(m.peer_connected(&pkt, Ok(conn), 0).ctl, Err(Error::TooManyConnections));
    assert_eq!(delivered(&mut m), Some(from_host(more, VSOCK_OP_RST)));
    // There is room again once a connection has gone.
    m.remove_connection(key(7));
    assert_eq!(m.handle_event(30, IN), EventStep::Accept { backend: BACKEND, refused: false });
    assert_eq!(m.add_connection(conn, 0).ctl, Ok(EpollCtl::add(20, IN)));
    assert_eq!(m.insert_connection(more, conn, Ok(())), Ok(()));
}

// ---- Packets for the guest ----

#[test]
fn connection_is_asked_until_it_has_no_more() {
    let mut m = muxer();
    add(&mut m, KEY, status(20, ConnState::Established, true));
    let mut pkt = blank();
    assert_eq!(m.recv_pkt(&mut pkt), RecvStep::Fetch(KEY));
    assert_eq!(pkt, blank());
    pkt = from_host(KEY, VSOCK_OP_RW);
    let more = status(20, ConnState::Established, true);
    assert!(matches!(m.apply_conn_mutation(KEY, report(more, IN)), MutationStep::Done));
    assert_eq!(m.recv_pkt_fetched(&mut pkt, true, true), RecvStep::Packet { removed: None });
    assert_eq!(pkt, from_host(KEY, VSOCK_OP_RW));
    assert!(m.has_pending_rx());
    assert_eq!(m.recv_pkt(&mut pkt), RecvStep::Fetch(KEY));
    assert!(matches!(m.apply_conn_mutation(KEY, report(idle(20), IN)), MutationStep::Done));
    assert_eq!(m.recv_pkt_fetched(&mut pkt, true, false), RecvStep::Packet { removed: None });
    assert!(!m.has_pending_rx());
}

#[test]
fn connection_without_packet_gives_way_to_the_next() {
    let mut m = muxer();
    add(&mut m, KEY, status(20, ConnState::Established, true));
    add(&mut m, key(2), status(21, ConnState::Established, true));
    m.enq_rst(3, 80);
    let mut pkt = blank();
    assert_eq!(m.recv_pkt(&mut pkt), RecvStep::Fetch(KEY));
    assert!(matches!(m.apply_conn_mutation(KEY, report(idle(20), IN)), MutationStep::Done));
    assert_eq!(m.recv_pkt_fetched(&mut pkt, false, false), RecvStep::Fetch(key(2)));
    // The reset comes after the second connection.
    assert!(matches!(m.apply_conn_mutation(key(2), report(idle(21), IN)), MutationStep::Done));
    assert_eq!(m.recv_pkt_fetched(&mut pkt, false, false), RecvStep::Packet { removed: None });
    assert_eq!(pkt, from_host(key(3), VSOCK_OP_RST));
    assert_eq!(m.recv_pkt(&mut pkt), RecvStep::NoData);
}

#[test]
fn reset_from_a_connection_removes_it() {
    let mut m = muxer();
    add(&mut m, KEY, status(20, ConnState::Killed, true));
    let mut pkt = blank();
    assert_eq!(m.recv_pkt(&mut pkt), RecvStep::Fetch(KEY));
    pkt = from_host(KEY, VSOCK_OP_RST);
    let killed = status(20, ConnState::Killed, false);
    assert!(matches!(m.apply_conn_mutation(KEY, report(killed, IN)), MutationStep::Done));
    assert_eq!(
        m.recv_pkt_fetched(&mut pkt, true, false),
        RecvStep::Packet {
            removed: Some(Removal { key: KEY, ctl: Some(EpollCtl::delete(20)) })
        }
    );
    assert_eq!(pkt, from_host(KEY, VSOCK_OP_RST));
    assert_eq!(m.conn_status(KEY), None);
    assert!(!m.has_pending_rx());
}

#[test]
fn connections_that_are_gone_are_passed_over() {
    let mut m = muxer();
    add(&mut m, KEY, status(20, ConnState::Established, true));
    m.remove_connection(KEY);
    assert!(m.has_pending_rx());
    m.enq_rst(3, 80);
    assert_eq!(delivered(&mut m), Some(from_host(key(3), VSOCK_OP_RST)));
    assert_eq!(delivered(&mut m), None);
}

#[test]
fn rx_queue_is_made_anew_when_it_is_out_of_sync() {
    let mut m = muxer();
    let n = MUXER_RXQ_SIZE as u32 + 20;
    for i in 0..n {
        add(&mut m, key(i), status(100 + i as i32, ConnState::Established, true));
    }
    let mut asked: Vec<u32> = Vec::new();
    let mut pkt = blank();
    loop {
        let k = match m.recv_pkt(&mut pkt) {
            RecvStep::Fetch(k) => k,
            RecvStep::NoData => break,
            other => panic!("unexpected step: {:?}", other),
        };
        asked.push(k.local_port);
        let fd = 100 + k.local_port as i32;
        assert!(matches!(m.apply_conn_mutation(k, report(idle(fd), IN)), MutationStep::Done));
        pkt = from_host(k, VSOCK_OP_RW);
        assert_eq!(m.recv_pkt_fetched(&mut pkt, true, false), RecvStep::Packet { removed: None });
    }
    asked.sort();
    let all: Vec<u32> = (0..n).collect();
    assert_eq!(asked, all);
    assert!(!m.has_pending_rx());
}

// ---- Changes of connections ----

#[test]
fn connection_that_gets_a_packet_is_queued_once() {
    let mut m = muxer();
    add(&mut m, KEY, idle(20));
    let pending = status(20, ConnState::Established, true);
    assert!(matches!(m.apply_conn_mutation(KEY, report(pending, IN)), MutationStep::Done));
    assert!(matches!(m.apply_conn_mutation(KEY, report(pending, IN)), MutationStep::Done));
    let mut pkt = blank();
    assert_eq!(m.recv_pkt(&mut pkt), RecvStep::Fetch(KEY));
    assert!(matches!(m.apply_conn_mutation(KEY, report(idle(20), IN)), MutationStep::Done));
    m.recv_pkt_fetched(&mut pkt, true, false);
    assert!(!m.has_pending_rx());
}

#[test]
fn change_of_no_connection_changes_nothing() {
    let mut m = muxer();
    let pending = status(20, ConnState::Established, true);
    assert!(matches!(m.apply_conn_mutation(KEY, report(pending, IN)), MutationStep::Done));
    assert_eq!(m.conn_status(KEY), None);
    assert!(!m.has_pending_rx());
    assert!(!m.conn_mutation_done(KEY, MutationStep::Done, Ok(())));
}

#[test]
fn polling_follows_the_connection() {
    let mut m = muxer();
    add(&mut m, KEY, idle(20));
    // Other events.
    let step = m.apply_conn_mutation(KEY, report(idle(20), IN_OUT));
    assert_eq!(step.ctl(), Some(EpollCtl::modify(20, IN_OUT)));
    assert!(!m.conn_mutation_done(KEY, step, Ok(())));
    assert_eq!(m.handle_event(20, IN), EventStep::Notify { key: KEY, evset: IN_OUT });
    // The same events.
    let step = m.apply_conn_mutation(KEY, report(idle(20), IN_OUT));
    assert_eq!(step.ctl(), None);
    // No events.
    let step = m.apply_conn_mutation(KEY, report(idle(20), NO_EVENTS));
    assert_eq!(step.ctl(), Some(EpollCtl::delete(20)));
    assert!(!m.conn_mutation_done(KEY, step, Err(FAILED)));
    assert_eq!(m.handle_event(20, IN), EventStep::Ignored);
    let step = m.apply_conn_mutation(KEY, report(idle(20), NO_EVENTS));
    assert_eq!(step.ctl(), None);
    // Events again.
    let step = m.apply_conn_mutation(KEY, report(idle(20), IN));
    assert_eq!(step.ctl(), Some(EpollCtl::add(20, IN)));
    assert_eq!(m.handle_event(20, IN), EventStep::Ignored);
    assert!(!m.conn_mutation_done(KEY, step, Ok(())));
    assert_eq!(m.handle_event(20, IN), EventStep::Notify { key: KEY, evset: IN });
    assert_eq!(m.conn_status(KEY), Some(idle(20)));
}

#[test]
fn connection_that_cannot_be_polled_is_killed() {
    let mut m = muxer();
    add(&mut m, KEY, idle(20));
    let step = m.apply_conn_mutation(KEY, report(idle(20), IN_OUT));
    assert!(m.conn_mutation_done(KEY, step, Err(FAILED)));
    assert_eq!(m.conn_status(KEY), Some(status(20, ConnState::Killed, true)));
    let mut pkt = blank();
    assert_eq!(m.recv_pkt(&mut pkt), RecvStep::Fetch(KEY));

    let mut m = muxer();
    add(&mut m, KEY, idle(20));
    let step = m.apply_conn_mutation(KEY, report(idle(20), NO_EVENTS));
    assert!(!m.conn_mutation_done(KEY, step, Ok(())));
    let step = m.apply_conn_mutation(KEY, report(idle(20), IN));
    assert!(m.conn_mutation_done(KEY, step, Err(FAILED)));
    assert_eq!(m.conn_status(KEY), Some(status(20, ConnState::Killed, true)));
    assert_eq!(m.handle_event(20, IN), EventStep::Ignored);
}

#[test]
fn established_host_connection_is_acknowledged() {
    let mut m = muxer();
    let waiting = status(20, ConnState::LocalInit, false);
    add(&mut m, KEY, waiting);
    assert_eq!(m.conn_ack(KEY, ConnState::LocalInit), None);
    assert_eq!(m.conn_ack(KEY, ConnState::Established), Some(b"OK 1024\n".to_vec()));
    assert_eq!(m.conn_ack(key(2), ConnState::Established), None);
    assert!(!m.conn_ack_failed(KEY, ConnState::Established, Ok(8)));
    assert!(m.conn_ack_failed(KEY, ConnState::Established, Ok(7)));
    assert!(m.conn_ack_failed(KEY, ConnState::Established, Err(FAILED)));
    assert!(!m.conn_ack_failed(KEY, ConnState::LocalInit, Err(FAILED)));
    let done = ConnReport { ack: Ok(8), ..report(idle(20), IN) };
    assert!(matches!(m.apply_conn_mutation(KEY, done), MutationStep::Done));
    assert_eq!(m.conn_status(KEY), Some(idle(20)));
    // A connection is acknowledged once.
    assert_eq!(m.conn_ack(KEY, ConnState::Established), None);
}

#[test]
fn connection_that_cannot_be_acknowledged_is_killed() {
    for ack in [Ok(7), Err(FAILED)] {
        let mut m = muxer();
        add(&mut m, KEY, status(20, ConnState::LocalInit, false));
        let done = ConnReport { ack, ..report(idle(20), IN) };
        assert!(matches!(m.apply_conn_mutation(KEY, done), MutationStep::Done));
        assert_eq!(m.conn_status(KEY), Some(status(20, ConnState::Killed, true)));
        let mut pkt = blank();
        assert_eq!(m.recv_pkt(&mut pkt), RecvStep::Fetch(KEY));
    }
}

#[test]
fn status_is_taken_after_the_acknowledgement() {
    // The state right after the change decides whether an acknowledgement was
    // due; all else is what the connection has come to by the end.
    let mut m = muxer();
    add(&mut m, KEY, status(20, ConnState::LocalInit, false));
    let end = status(20, ConnState::LocalClosed, true);
    let done = ConnReport { state: ConnState::Established, ack: Ok(8), ..report(end, IN) };
    assert!(matches!(m.apply_conn_mutation(KEY, done), MutationStep::Done));
    assert_eq!(m.conn_status(KEY), Some(end));
    let mut pkt = blank();
    assert_eq!(m.recv_pkt(&mut pkt), RecvStep::Fetch(KEY));

    let mut m = muxer();
    add(&mut m, KEY, status(20, ConnState::LocalInit, false));
    let done = ConnReport { state: ConnState::Established, ack: Ok(7), ..report(end, IN) };
    assert!(matches!(m.apply_conn_mutation(KEY, done), MutationStep::Done));
    assert_eq!(m.conn_status(KEY), Some(status(20, ConnState::Killed, true)));
}

#[test]
fn guest_connection_is_not_acknowledged() {
    let mut m = muxer();
    add(&mut m, KEY, status(20, ConnState::PeerInit, false));
    assert_eq!(m.conn_ack(KEY, ConnState::Established), None);
    let done = ConnReport { ack: Err(FAILED), ..report(idle(20), IN) };
    assert!(matches!(m.apply_conn_mutation(KEY, done), MutationStep::Done));
    assert_eq!(m.conn_status(KEY), Some(idle(20)));
}

// ---- Termination ----

#[test]
fn killed_connection_is_asked_for_its_reset() {
    let mut m = muxer();
    add(&mut m, KEY, idle(20));
    assert!(m.kill_connection(KEY));
    assert_eq!(m.conn_status(KEY), Some(status(20, ConnState::Killed, true)));
    // It is queued only once.
    assert!(m.kill_connection(KEY));
    let mut pkt = blank();
    assert_eq!(m.recv_pkt(&mut pkt), RecvStep::Fetch(KEY));
    pkt = from_host(KEY, VSOCK_OP_RST);
    assert!(matches!(
        m.recv_pkt_fetched(&mut pkt, true, false),
        RecvStep::Packet { removed: Some(_) }
    ));
    assert!(!m.has_pending_rx());
    assert!(!m.kill_connection(KEY));
}

/// Arms the kill timer of the connection with key `key`.
fn expire(m: &mut VsockMuxer, key: ConnMapKey, fd: i32, expiry: u64, now: u64) {
    let closing = ConnStatus { expiry: Some(expiry), ..idle(fd) };
    let done = ConnReport { began: now, ended: now, ..report(closing, IN) };
    assert!(matches!(m.apply_conn_mutation(key, done), MutationStep::Done));
}

#[test]
fn timed_out_connection_is_killed() {
    let mut m = muxer();
    add(&mut m, KEY, idle(20));
    add(&mut m, key(2), idle(21));
    expire(&mut m, KEY, 20, 100, 50);
    assert_eq!(m.sweep_killq(100), vec![]);
    assert_eq!(m.sweep_killq(101), vec![KEY]);
    assert_eq!(
        m.conn_status(KEY),
        Some(ConnStatus { expiry: Some(100), ..status(20, ConnState::Killed, true) })
    );
    assert_eq!(m.conn_status(key(2)), Some(idle(21)));
    assert_eq!(m.sweep_killq(101), vec![]);
}

#[test]
fn disarmed_timer_does_not_kill() {
    let mut m = muxer();
    add(&mut m, KEY, idle(20));
    expire(&mut m, KEY, 20, 100, 50);
    assert!(matches!(m.apply_conn_mutation(KEY, report(idle(20), IN)), MutationStep::Done));
    assert_eq!(m.sweep_killq(200), vec![]);
    assert_eq!(m.conn_status(KEY), Some(idle(20)));
    // Nor is a connection that is gone.
    expire(&mut m, KEY, 20, 300, 200);
    m.remove_connection(KEY);
    assert_eq!(m.sweep_killq(400), vec![]);
}

#[test]
fn kill_queue_is_made_anew_when_it_is_out_of_sync() {
    let mut m = muxer();
    let n = MUXER_KILLQ_SIZE as u32 + 10;
    for i in 0..n {
        add(&mut m, key(i), idle(100 + i as i32));
    }
    for i in 0..n {
        expire(&mut m, key(i), 100 + i as i32, 1000 + i as u64, 0);
    }
    // The last ten did not fit, and their time is yet to come.
    let killed = m.sweep_killq(1000 + MUXER_KILLQ_SIZE as u64);
    let first: Vec<ConnMapKey> = (0..MUXER_KILLQ_SIZE as u32).map(key).collect();
    assert_eq!(killed, first);
    let killed = m.sweep_killq(5000);
    let rest: Vec<ConnMapKey> = (MUXER_KILLQ_SIZE as u32..n).map(key).collect();
    assert_eq!(killed, rest);
}

#[test]
fn connections_that_found_no_place_in_the_kill_queue_are_killed_in_time() {
    let mut m = muxer();
    let n = 3 * MUXER_KILLQ_SIZE as u32 + 10;
    for i in 0..n {
        add(&mut m, key(i), idle(100 + i as i32));
        expire(&mut m, key(i), 100 + i as i32, 1000 + i as u64, 0);
    }
    // All of them have timed out before the queue is looked at.
    let mut killed: Vec<u32> = m.sweep_killq(5000).iter().map(|k| k.local_port).collect();
    killed.sort();
    let all: Vec<u32> = (0..n).collect();
    assert_eq!(killed, all);
    for i in 0..n {
        assert_eq!(m.conn_status(key(i)).unwrap().state, ConnState::Killed);
    }
    assert_eq!(m.sweep_killq(5000), vec![]);
}

#[test]
fn connections_are_killed_in_the_order_of_time() {
    let mut m = muxer();
    for (i, expiry) in [(1, 300), (2, 100), (3, 200)] {
        add(&mut m, key(i), idle(100 + i as i32));
        expire(&mut m, key(i), 100 + i as i32, expiry, 0);
    }
    assert_eq!(m.sweep_killq(101), vec![key(2)]);
    assert_eq!(m.sweep_killq(1000), vec![key(3), key(1)]);
}

#[test]
fn adding_a_connection_sweeps_the_kill_queue() {
    let mut m = muxer();
    add(&mut m, KEY, idle(20));
    expire(&mut m, KEY, 20, 100, 50);
    let step = m.add_connection(NewConn { status: idle(21), evset: IN_OUT }, 101);
    assert_eq!(step.killed, vec![KEY]);
    assert_eq!(step.ctl, Ok(EpollCtl::add(21, IN_OUT)));
    assert!(!step.rst_dropped);
    let pkt = from_guest(key(2), VSOCK_OP_REQUEST);
    expire(&mut m, KEY, 20, 300, 200);
    let step = m.peer_connected(&pkt, Ok(NewConn { status: idle(21), evset: IN }), 301);
    assert_eq!(step.killed, vec![KEY]);
}

#[test]
fn removal_of_no_connection_frees_the_port() {
    let mut m = muxer();
    let port = m.allocate_local_port();
    assert_eq!(
        m.remove_connection(ConnMapKey { local_port: port, peer_port: 1 }),
        Removal { key: ConnMapKey { local_port: port, peer_port: 1 }, ctl: None }
    );
    assert!(m.has_free_local_port());
    m.free_local_port(port);
    assert_eq!(m.allocate_local_port(), port + 1);
}

#[test]
fn removal_of_a_connection_that_is_not_polled() {
    let mut m = muxer();
    add(&mut m, KEY, idle(20));
    let removed = m.remove_listener(20);
    assert!(
        removed.listener
            == Some(EpollListener::Connection { key: KEY, evset: IN, backend: BACKEND })
    );
    assert_eq!(removed.ctl, Some(EpollCtl::delete(20)));
    // What is not listened to needs no call.
    let removed = m.remove_listener(20);
    assert!(removed.listener.is_none());
    assert_eq!(removed.ctl, None);
    assert_eq!(m.remove_connection(KEY), Removal { key: KEY, ctl: None });
}

// ---- Backends and connections that the host requests ----

#[test]
fn backend_is_added_once() {
    let mut m = muxer();
    assert_eq!(m.add_backend(BACKEND, 30), Ok(EpollCtl::add(30, IN)));
    assert_eq!(
        m.register_backend(BACKEND, 30, true, Err(FAILED)),
        Err(Error::EpollAdd(FAILED))
    );
    assert_eq!(m.handle_event(30, IN), EventStep::Ignored);
    // A listener without its backend.
    assert_eq!(m.add_listener(33, EpollListener::Backend(BACKEND), Ok(())), Ok(()));
    assert_eq!(m.handle_event(33, IN), EventStep::NoBackend(BACKEND));
    assert_eq!(
        m.send_pkt(&from_guest(KEY, VSOCK_OP_REQUEST)),
        SendStep::NoBackend { queued: true }
    );
    assert_eq!(m.register_backend(BACKEND, 30, true, Ok(())), Ok(()));
    assert_eq!(m.add_backend(BACKEND, 31), Err(Error::BackendRegistered(BACKEND)));
    assert_eq!(
        m.register_backend(BACKEND, 31, false, Ok(())),
        Err(Error::BackendRegistered(BACKEND))
    );
    // A second backend does not take requests from the guest unless told.
    let other = VsockBackendType { id: 2 };
    assert_eq!(m.register_backend(other, 31, false, Ok(())), Ok(()));
    assert_eq!(
        m.send_pkt(&from_guest(KEY, VSOCK_OP_REQUEST)),
        SendStep::Connect { backend: BACKEND, port: 1024 }
    );
    let third = VsockBackendType { id: 3 };
    assert_eq!(m.register_backend(third, 32, true, Ok(())), Ok(()));
    assert_eq!(
        m.handle_peer_request_pkt(&from_guest(KEY, VSOCK_OP_REQUEST)),
        SendStep::Connect { backend: third, port: 1024 }
    );
}

#[test]
fn host_connection_from_accept_to_insertion() {
    let mut m = muxer();
    assert_eq!(m.register_backend(BACKEND, 30, true, Ok(())), Ok(()));
    assert_eq!(
        m.handle_event(30, IN),
        EventStep::Accept { backend: BACKEND, refused: false }
    );
    let stream = LocalStream { fd: 40, backend: BACKEND };
    assert_eq!(m.stream_accepted(Ok(stream)), Ok(EpollCtl::add(40, IN)));
    assert_eq!(m.add_listener(40, EpollListener::LocalStream(stream), Ok(())), Ok(()));
    assert_eq!(
        m.handle_event(40, IN),
        EventStep::ReadPort { stream, ctl: EpollCtl::delete(40) }
    );
    assert_eq!(m.handle_event(40, IN), EventStep::Ignored);
    let init = m.local_init(Ok(&request_for(b"connect 5000\n"))).unwrap();
    assert_eq!(
        init,
        ConnInit {
            local_cid: VSOCK_HOST_CID,
            peer_cid: CID,
            local_port: 1 << 30,
            peer_port: 5000,
            peer_buf_alloc: None,
        }
    );
    let conn = NewConn { status: status(40, ConnState::LocalInit, true), evset: IN };
    assert_eq!(m.add_connection(conn, 0).ctl, Ok(EpollCtl::add(40, IN)));
    assert_eq!(m.insert_connection(init.key(), conn, Ok(())), Ok(()));
    let mut pkt = blank();
    assert_eq!(m.recv_pkt(&mut pkt), RecvStep::Fetch(init.key()));
    assert_eq!(
        m.send_pkt(&from_guest(init.key(), VSOCK_OP_RW)),
        SendStep::Forward(init.key())
    );
}

#[test]
fn failures_on_the_way_to_a_host_connection() {
    let mut m = muxer();
    assert_eq!(m.stream_accepted(Err(FAILED)), Err(Error::BackendAccept(FAILED)));
    let stream = LocalStream { fd: 40, backend: BACKEND };
    assert_eq!(
        m.add_listener(40, EpollListener::LocalStream(stream), Err(FAILED)),
        Err(Error::EpollAdd(FAILED))
    );
    assert_eq!(m.handle_event(40, IN), EventStep::Ignored);
    assert_eq!(m.local_init(Err(FAILED)), Err(Error::BackendRead(FAILED)));
    assert_eq!(
        m.local_init(Ok(&request_for(b"connect nowhere\n"))),
        Err(Error::InvalidPortRequest)
    );
    // None of these has taken a port.
    let conn = NewConn { status: idle(40), evset: IN };
    assert_eq!(m.insert_connection(KEY, conn, Err(FAILED)), Err(Error::EpollAdd(FAILED)));
    assert_eq!(m.allocate_local_port(), 1 << 30);
}

#[test]
fn port_in_use_is_not_assigned() {
    let mut m = muxer();
    let first = m.allocate_local_port();
    assert_eq!(first, 1 << 30);
    assert_eq!(m.allocate_local_port(), first + 1);
    // What happens to connections on other ports leaves it in use.
    let other = ConnMapKey { local_port: first + 1, peer_port: 80 };
    add(&mut m, other, idle(20));
    m.kill_connection(other);
    m.remove_connection(other);
    for n in 2..50 {
        assert_eq!(m.allocate_local_port(), first + n);
    }
}

#[test]
fn ports_of_host_connections_differ() {
    let mut m = muxer();
    let mut ports: Vec<u32> = Vec::new();
    for _ in 0..100 {
        ports.push(m.local_init(Ok(&request_for(b"connect 80\n"))).unwrap().local_port);
    }
    let expected: Vec<u32> = (0..100).map(|n| (1 << 30) + n).collect();
    assert_eq!(ports, expected);
}
