//! What each operation does, told by what goes in and what comes out.

use vstd::prelude::*;

use crate::conn::{ConnMapKey, ConnState, ConnStatus};
use crate::defs::{
    MAX_CONNECTIONS, MUXER_KILLQ_SIZE, MUXER_RXQ_SIZE, VSOCK_HOST_CID, VSOCK_OP_REQUEST,
    VSOCK_OP_RST, VSOCK_TYPE_STREAM,
};
use crate::error::{Error, IoError, VsockBackendType};
use crate::events::{CtlOp, EpollCtl, EventSet};
use crate::killq::{KillItem, KillQueue};
use crate::listener::{EpollListener, LocalStream};
use crate::packet::VsockPacket;
use crate::request::PortRequest;
use crate::rxq::{MuxerRx, RxQueue};
use crate::state::MuxerState;
use crate::steps::{ConnReport, EventStep, MutationStep, NewConn, RecvStep, SendStep};

verus! {

// ---- Numbers ----

/// The numbers that the guest's driver knows, and the limits of the muxer.
pub proof fn agreed_numbers()
    ensures
        VSOCK_HOST_CID == 2,
        VSOCK_TYPE_STREAM == 1,
        VSOCK_OP_REQUEST == 1,
        VSOCK_OP_RST == 3,
        MAX_CONNECTIONS == 1023,
        MUXER_RXQ_SIZE == 256,
        MUXER_KILLQ_SIZE == 128,
        crate::events::epollin_set().bits == 1,
        crate::events::known_event_bits() == 0xF000_201F,
        crate::request::MIN_READ_LEN == 10,
        crate::request::REQUEST_BUF_LEN == 32,
{
}

/// Whatever a muxer went through, its connections and its queues are within
/// their limits, its kill queue goes by time, only the ports from 2^30 up to
/// 2^31 are in use, and its backend for guest-initiated connections has been
/// added.
pub proof fn limits_hold(s: MuxerState, port: u32, i: int, j: int)
    requires
        s.inv(),
    ensures
        s.conns.dom().finite(),
        s.conns.len() <= 1023,
        s.rxq.items.len() <= 256,
        s.killq.items.len() <= 128,
        0 <= i <= j < s.killq.items.len() ==> s.killq.items[i].kill_time
            <= s.killq.items[j].kill_time,
        s.used_ports.contains(port) ==> 0x4000_0000 <= port < 0x8000_0000,
        0x3FFF_FFFF <= s.last_port < 0x8000_0000,
        s.peer_backend is Some ==> s.backends.contains(s.peer_backend->Some_0),
{
}

/// A new muxer knows nothing but its guest and its epoll file descriptor.
pub proof fn new_muxer_is_empty(cid: u64, epoll_fd: i32)
    ensures
        ({
            let s = MuxerState::initial(cid, epoll_fd);
            &&& s.cid == cid
            &&& s.epoll_fd == epoll_fd
            &&& forall|key: ConnMapKey| !#[trigger] s.conns.contains_key(key)
            &&& forall|fd: i32| !#[trigger] s.listeners.contains_key(fd)
            &&& s.rxq.items.len() == 0 && s.rxq.synced
            &&& s.killq.items.len() == 0 && s.killq.synced
            &&& forall|port: u32| !#[trigger] s.used_ports.contains(port)
            &&& s.last_port == 0x3FFF_FFFF
            &&& forall|b: VsockBackendType| !#[trigger] s.backends.contains(b)
            &&& s.peer_backend is None
        }),
{
}

// ---- Connections ----

/// A connection is expiring while its time is later than now, has expired from
/// its time on, and is never both; without a timer it is neither. What else is
/// known of it does not matter.
pub proof fn expiry_goes_by_the_clock(conn: ConnStatus, t: u64, now: u64)
    ensures
        conn.expiry == Some(t) ==> conn.spec_will_expire(now) == (now < t),
        conn.expiry == Some(t) ==> conn.spec_has_expired(now) == (t <= now),
        conn.expiry is None ==> !conn.spec_will_expire(now) && !conn.spec_has_expired(now),
{
}

/// Killing a connection gives it the killed state and a packet for the guest,
/// and leaves its stream and its timer alone.
pub proof fn killing_marks_the_connection(conn: ConnStatus)
    ensures
        conn.spec_kill().state == ConnState::Killed,
        conn.spec_kill().pending_rx,
        conn.spec_kill().fd == conn.fd,
        conn.spec_kill().backend == conn.backend,
        conn.spec_kill().expiry == conn.expiry,
{
}

// ---- The RX queue ----

/// A connection item goes to the end of an RX queue that is in sync and has
/// room; any other queue keeps its items, turns the item down and is out of sync.
pub proof fn connection_item_is_queued_last(q: RxQueue, key: ConnMapKey)
    ensures
        ({
            let r = q.push(MuxerRx::ConnRx(key));
            let room = q.synced && q.items.len() < MUXER_RXQ_SIZE;
            &&& q.accepts(MuxerRx::ConnRx(key)) == room
            &&& r.synced == room
            &&& room ==> r.items.len() == q.items.len() + 1 && r.items.last() == MuxerRx::ConnRx(
                key,
            ) && r.items.drop_last() == q.items
            &&& !room ==> r.items == q.items
        }),
{
    let r = q.push(MuxerRx::ConnRx(key));
    if q.synced && q.items.len() < MUXER_RXQ_SIZE {
        assert(r.items.drop_last() =~= q.items);
    }
}

/// A reset goes to the end of an RX queue that has room, which stays as much in
/// sync as it was. In a full queue it takes the place of the last connection
/// item, at `i`, and the queue is then out of sync. A queue full of resets turns
/// it down and stays as it is.
pub proof fn reset_is_queued_or_displaces_a_connection(
    q: RxQueue,
    local_port: u32,
    peer_port: u32,
    i: int,
)
    ensures
        ({
            let rst = MuxerRx::RstPkt { local_port, peer_port };
            let r = q.push(rst);
            let full = q.items.len() >= MUXER_RXQ_SIZE;
            &&& !full ==> q.accepts(rst) && r.synced == q.synced && r.items.len() == q.items.len()
                + 1 && r.items.last() == rst && r.items.drop_last() == q.items
            &&& full && 0 <= i < q.items.len() && q.items[i] is ConnRx && (forall|j: int|
                i < j < q.items.len() ==> #[trigger] q.items[j] is RstPkt) ==> q.accepts(rst)
                && !r.synced && r.items == q.items.update(i, rst)
            &&& full && (forall|j: int|
                0 <= j < q.items.len() ==> #[trigger] q.items[j] is RstPkt) ==> !q.accepts(rst)
                && r == q
        }),
{
    let rst = MuxerRx::RstPkt { local_port, peer_port };
    lemma_last_conn_item(q.items);
    if q.items.len() < MUXER_RXQ_SIZE {
        assert(q.push(rst).items.drop_last() =~= q.items);
    }
}

/// Where the last connection item is.
proof fn lemma_last_conn_item(items: Seq<MuxerRx>)
    ensures
        -1 <= crate::rxq::last_conn_rx(items) < items.len(),
        crate::rxq::last_conn_rx(items) >= 0 ==> items[crate::rxq::last_conn_rx(items)] is ConnRx,
        forall|j: int|
            crate::rxq::last_conn_rx(items) < j < items.len() ==> #[trigger] items[j] is RstPkt,
    decreases items.len(),
{
    if items.len() > 0 && !(items.last() is ConnRx) {
        lemma_last_conn_item(items.drop_last());
        assert forall|j: int|
            crate::rxq::last_conn_rx(items) < j
                < items.len() implies #[trigger] items[j] is RstPkt by {
            if j < items.len() - 1 {
                assert(items.drop_last()[j] == items[j]);
            }
        }
    }
}

/// Taking the first item out of an RX queue moves up all others, and does not
/// change whether the queue is in sync.
pub proof fn first_item_is_taken_out(q: RxQueue, i: int)
    ensures
        q.pop().synced == q.synced,
        q.items.len() == 0 ==> q.pop().items.len() == 0,
        q.items.len() > 0 ==> q.pop().items.len() == q.items.len() - 1,
        0 <= i < q.items.len() - 1 ==> q.pop().items[i] == q.items[i + 1],
{
}

/// An RX queue is brought into sync when it is empty and out of sync, and is not
/// touched else. It then holds connections with a packet for the guest and
/// nothing else, each once; and all of them, unless it is full.
pub proof fn rx_queue_is_brought_into_sync(s: MuxerState, mid: MuxerState, key: ConnMapKey, i: int, j: int)
    requires
        s.rx_synced(mid),
    ensures
        s.rxq.items.len() > 0 || s.rxq.synced ==> mid == s,
        s.rxq.items.len() == 0 && !s.rxq.synced ==> {
            &&& mid == (MuxerState { rxq: mid.rxq, ..s })
            &&& mid.rxq.items.len() <= MUXER_RXQ_SIZE
            &&& mid.rxq.synced || mid.rxq.items.len() == MUXER_RXQ_SIZE
            &&& mid.rxq.synced && s.conns.contains_key(key) && s.conns[key].pending_rx
                ==> mid.rxq.items.contains(MuxerRx::ConnRx(key))
            &&& 0 <= i < mid.rxq.items.len() ==> (mid.rxq.items[i] matches MuxerRx::ConnRx(k)
                && s.conns.contains_key(k) && s.conns[k].pending_rx)
            &&& 0 <= i < j < mid.rxq.items.len() ==> mid.rxq.items[i] != mid.rxq.items[j]
        },
{
}

/// A muxer may have something to deliver unless its RX queue is empty and in
/// sync.
pub proof fn empty_queue_in_sync_means_nothing_pending(s: MuxerState)
    ensures
        s.may_have_rx() == !(s.rxq.items.len() == 0 && s.rxq.synced),
{
}

// ---- Delivery to the guest ----

/// Whether an item of the RX queue names a connection that is gone.
pub open spec fn is_stale(s: MuxerState, rx: MuxerRx) -> bool {
    rx matches MuxerRx::ConnRx(key) && !s.conns.contains_key(key)
}

/// The first item of the RX queue that does not name a connection that is gone,
/// at `n`, decides what is delivered: a connection is asked for its packet,
/// whatever its state, and stays in front; a reset is delivered from the host,
/// with its ports, and leaves the queue. The items before it are dropped, and
/// those behind it stay. Nothing is delivered only if there is no such item.
pub proof fn first_live_item_is_delivered(s: MuxerState, n: int, pkt: VsockPacket)
    requires
        0 <= n <= s.rxq.items.len(),
        forall|i: int| 0 <= i < n ==> is_stale(s, #[trigger] s.rxq.items[i]),
        n < s.rxq.items.len() ==> !is_stale(s, s.rxq.items[n]),
    ensures
        s.next_rx() == (MuxerState { rxq: s.next_rx().rxq, ..s }),
        s.next_rx().rxq.synced == s.rxq.synced,
        n == s.rxq.items.len() ==> {
            &&& s.next_step() == RecvStep::NoData
            &&& s.next_rx().rxq.items.len() == 0
            &&& s.next_pkt(pkt) == pkt
        },
        n < s.rxq.items.len() ==> (s.rxq.items[n] matches MuxerRx::ConnRx(key) ==> {
            &&& s.next_step() == RecvStep::Fetch(key)
            &&& s.next_rx().rxq.items == s.rxq.items.skip(n)
            &&& s.next_pkt(pkt) == pkt
        }),
        n < s.rxq.items.len() ==> (s.rxq.items[n] matches MuxerRx::RstPkt {
            local_port,
            peer_port,
        } ==> {
            &&& s.next_step() == (RecvStep::Packet { removed: None })
            &&& s.next_rx().rxq.items == s.rxq.items.skip(n + 1)
            &&& s.next_pkt(pkt) == (VsockPacket {
                src_cid: VSOCK_HOST_CID,
                dst_cid: s.cid,
                src_port: local_port,
                dst_port: peer_port,
                len: 0,
                type_: VSOCK_TYPE_STREAM,
                op: VSOCK_OP_RST,
                flags: 0,
                buf_alloc: 0,
                fwd_cnt: 0,
            })
        }),
{
    lemma_stale_items_are_dropped(s, n);
    let d = s.drop_stale();
    if n < s.rxq.items.len() {
        assert(d.rxq.items[0] == s.rxq.items[n]);
        if s.rxq.items[n] is RstPkt {
            assert(d.rxq.pop().items =~= s.rxq.items.skip(n + 1));
        }
    }
}

proof fn lemma_stale_items_are_dropped(s: MuxerState, n: int)
    requires
        0 <= n <= s.rxq.items.len(),
        forall|i: int| 0 <= i < n ==> is_stale(s, #[trigger] s.rxq.items[i]),
        n < s.rxq.items.len() ==> !is_stale(s, s.rxq.items[n]),
    ensures
        s.drop_stale() == (MuxerState {
            rxq: RxQueue { items: s.rxq.items.skip(n), synced: s.rxq.synced },
            ..s
        }),
    decreases n,
{
    if n == 0 {
        assert(s.rxq.items.skip(0) =~= s.rxq.items);
    } else {
        assert(is_stale(s, s.rxq.items[0]));
        let t = MuxerState { rxq: s.rxq.pop(), ..s };
        assert forall|i: int| 0 <= i < n - 1 implies is_stale(t, #[trigger] t.rxq.items[i]) by {
            assert(t.rxq.items[i] == s.rxq.items[i + 1]);
        }
        lemma_stale_items_are_dropped(t, n - 1);
        assert(t.rxq.items.skip(n - 1) =~= s.rxq.items.skip(n));
    }
}

/// There is nothing to deliver exactly if all that is queued are connections
/// that are gone.
pub proof fn no_data_means_nothing_deliverable_is_queued(s: MuxerState)
    ensures
        s.next_step() == RecvStep::NoData <==> forall|i: int|
            0 <= i < s.rxq.items.len() ==> is_stale(s, #[trigger] s.rxq.items[i]),
{
    let n = lemma_first_live_item(s, s.rxq.items.len() as int);
    let pkt = VsockPacket::spec_rst(0, 0, 0);
    first_live_item_is_delivered(s, n, pkt);
}

/// The position of the first item that does not name a connection that is gone,
/// among the first `upto`.
proof fn lemma_first_live_item(s: MuxerState, upto: int) -> (n: int)
    requires
        0 <= upto <= s.rxq.items.len(),
    ensures
        0 <= n <= upto,
        forall|i: int| 0 <= i < n ==> is_stale(s, #[trigger] s.rxq.items[i]),
        n < upto ==> !is_stale(s, s.rxq.items[n]),
    decreases upto,
{
    if upto == 0 {
        0
    } else {
        let n = lemma_first_live_item(s, upto - 1);
        if n < upto - 1 || !is_stale(s, s.rxq.items[upto - 1]) {
            n
        } else {
            upto
        }
    }
}

/// A connection that was asked for its packet leaves the front of the RX queue
/// if it has nothing more to deliver, and keeps its place else.
pub proof fn asked_connection_leaves_the_front(s: MuxerState, i: int)
    ensures
        s.fetched(true) == s,
        s.fetched(false) == (MuxerState { rxq: s.fetched(false).rxq, ..s }),
        s.fetched(false).rxq.synced == s.rxq.synced,
        s.rxq.items.len() == 0 ==> s.fetched(false).rxq.items.len() == 0,
        s.rxq.items.len() > 0 ==> s.fetched(false).rxq.items.len() == s.rxq.items.len() - 1,
        0 <= i < s.rxq.items.len() - 1 ==> s.fetched(false).rxq.items[i] == s.rxq.items[i + 1],
{
}

/// A packet and its answer belong to the same connection: what one calls its
/// source the other calls its destination, and the host-side port is the local
/// one.
pub proof fn keys_are_made_of_the_ports(pkt: VsockPacket)
    ensures
        MuxerState::rx_key(pkt).local_port == pkt.src_port,
        MuxerState::rx_key(pkt).peer_port == pkt.dst_port,
        MuxerState::tx_key(pkt).local_port == pkt.dst_port,
        MuxerState::tx_key(pkt).peer_port == pkt.src_port,
{
}

/// A reset goes from the host to the guest, carries nothing, and is of the one
/// supported type.
pub proof fn reset_comes_from_the_host(cid: u64, local_port: u32, peer_port: u32)
    ensures
        ({
            let rst = VsockPacket::spec_rst(cid, local_port, peer_port);
            &&& rst.op == VSOCK_OP_RST && rst.type_ == VSOCK_TYPE_STREAM
            &&& rst.src_cid == VSOCK_HOST_CID && rst.dst_cid == cid
            &&& rst.src_port == local_port && rst.dst_port == peer_port
            &&& rst.len == 0 && rst.flags == 0 && rst.buf_alloc == 0 && rst.fwd_cnt == 0
        }),
{
}

// ---- Packets from the guest ----

/// A reset is queued, and nothing else happens.
pub proof fn queueing_a_reset_changes_the_rx_queue_only(
    s: MuxerState,
    local_port: u32,
    peer_port: u32,
)
    ensures
        ({
            let rst = MuxerRx::RstPkt { local_port, peer_port };
            &&& s.enq_rst(local_port, peer_port) == (MuxerState { rxq: s.rxq.push(rst), ..s })
            &&& s.accepts_rst(local_port, peer_port) == s.rxq.accepts(rst)
        }),
{
}

/// A packet of another type than stream is answered by a reset, whatever else it
/// says: from the port it was sent to, to the port it came from.
pub proof fn packet_of_other_type_is_reset(s: MuxerState, pkt: VsockPacket)
    requires
        pkt.type_ != VSOCK_TYPE_STREAM,
    ensures
        s.send_step(pkt) == (SendStep::Reset {
            queued: s.rxq.accepts(
                MuxerRx::RstPkt { local_port: pkt.dst_port, peer_port: pkt.src_port },
            ),
        }),
        s.send_pkt(pkt) == (MuxerState {
            rxq: s.rxq.push(
                MuxerRx::RstPkt { local_port: pkt.dst_port, peer_port: pkt.src_port },
            ),
            ..s
        }),
{
}

/// A stream packet for another context id than the host's is dropped, whatever
/// else it says.
pub proof fn stream_packet_for_another_cid_is_dropped(s: MuxerState, pkt: VsockPacket)
    requires
        pkt.type_ == VSOCK_TYPE_STREAM,
        pkt.dst_cid != VSOCK_HOST_CID,
    ensures
        s.send_step(pkt) == SendStep::Dropped,
        s.send_pkt(pkt) == s,
{
}

/// A stream packet for the host that belongs to no connection is answered by a
/// reset, unless it is a connection request and there is a backend for it: that
/// backend is then asked for a stream to the port the packet was sent to.
pub proof fn stream_packet_without_connection_is_reset_or_connects(s: MuxerState, pkt: VsockPacket)
    requires
        pkt.type_ == VSOCK_TYPE_STREAM,
        pkt.dst_cid == VSOCK_HOST_CID,
        !s.conns.contains_key(
            ConnMapKey { local_port: pkt.dst_port, peer_port: pkt.src_port },
        ),
    ensures
        ({
            let rst = MuxerRx::RstPkt { local_port: pkt.dst_port, peer_port: pkt.src_port };
            let answered = MuxerState { rxq: s.rxq.push(rst), ..s };
            let queued = s.rxq.accepts(rst);
            &&& pkt.op != VSOCK_OP_REQUEST ==> s.send_step(pkt) == (SendStep::Reset { queued })
                && s.send_pkt(pkt) == answered
            &&& pkt.op == VSOCK_OP_REQUEST ==> match s.peer_backend {
                Some(backend) if s.backends.contains(backend) => {
                    &&& s.send_step(pkt) == (SendStep::Connect { backend, port: pkt.dst_port })
                    &&& s.send_pkt(pkt) == s
                },
                _ => {
                    &&& s.send_step(pkt) == (SendStep::NoBackend { queued })
                    &&& s.send_pkt(pkt) == answered
                },
            }
        }),
{
}

/// A stream packet for the host that belongs to a connection is forwarded to it,
/// whatever its operation and the connection's state; but a reset removes the
/// connection.
pub proof fn stream_packet_of_a_connection_is_forwarded(s: MuxerState, pkt: VsockPacket)
    requires
        pkt.type_ == VSOCK_TYPE_STREAM,
        pkt.dst_cid == VSOCK_HOST_CID,
        s.conns.contains_key(ConnMapKey { local_port: pkt.dst_port, peer_port: pkt.src_port }),
    ensures
        ({
            let key = ConnMapKey { local_port: pkt.dst_port, peer_port: pkt.src_port };
            let fd = s.conns[key].fd;
            &&& pkt.op != VSOCK_OP_RST ==> s.send_step(pkt) == SendStep::Forward(key)
                && s.send_pkt(pkt) == s
            &&& pkt.op == VSOCK_OP_RST ==> {
                &&& s.send_step(pkt) matches SendStep::Removed(removal) && removal.key == key
                    && removal.ctl is Some == s.listeners.contains_key(fd)
                &&& s.send_pkt(pkt) == (MuxerState {
                    conns: s.conns.remove(key),
                    listeners: s.listeners.remove(fd),
                    used_ports: s.used_ports.remove(key.local_port),
                    ..s
                })
            }
        }),
{
}

/// There is a backend for guest-initiated connections if one was named and has
/// been added; and a packet is refused if it is answered by a reset.
pub proof fn refused_packets_are_those_that_are_reset(s: MuxerState, pkt: VsockPacket)
    ensures
        s.has_peer_backend() == (s.peer_backend is Some && s.backends.contains(
            s.peer_backend->Some_0,
        )),
        s.send_refused(pkt) <==> s.send_step(pkt) is Reset || s.send_step(pkt) is NoBackend,
        s.send_refused(pkt) == (pkt.type_ != VSOCK_TYPE_STREAM || (pkt.dst_cid == VSOCK_HOST_CID
            && !s.conns.contains_key(
            ConnMapKey { local_port: pkt.dst_port, peer_port: pkt.src_port },
        ) && !(pkt.op == VSOCK_OP_REQUEST && s.peer_backend is Some && s.backends.contains(
            s.peer_backend->Some_0,
        )))),
{
}

// ---- Creation of connections ----

/// A guest-initiated connection is created with what the request says: the
/// guest's receive buffer, the ports as the guest's packets name them, and the
/// context ids of the host and of the muxer's own guest.
pub proof fn requested_connection_is_made_of_the_request(s: MuxerState, pkt: VsockPacket)
    ensures
        ({
            let init = s.peer_init(pkt);
            &&& init.peer_buf_alloc == Some(pkt.buf_alloc)
            &&& init.local_cid == VSOCK_HOST_CID
            &&& init.peer_cid == s.cid
            &&& init.local_port == pkt.dst_port
            &&& init.peer_port == pkt.src_port
        }),
{
}

/// A host-initiated connection is created with the port that was assigned to it
/// and the one it asked for, and knows nothing of the guest's receive buffer.
pub proof fn host_connection_is_made_of_its_ports(s: MuxerState, local_port: u32, peer_port: u32)
    ensures
        ({
            let init = s.local_init(local_port, peer_port);
            &&& init.peer_buf_alloc is None
            &&& init.local_cid == VSOCK_HOST_CID
            &&& init.peer_cid == s.cid
            &&& init.local_port == local_port
            &&& init.peer_port == peer_port
        }),
{
}

/// A host stream that could not be read is refused with that failure; one that
/// was read asks for the port that its bytes name, or is refused if they name
/// none.
pub proof fn host_request_is_what_was_read(r: &PortRequest, e: IoError, port: u32)
    ensures
        MuxerState::local_request(Err(e)) == Err::<u32, Error>(Error::BackendRead(e)),
        crate::request::requested_port_of_bytes(r@.buf) == Some(port)
            <==> MuxerState::local_request(Ok(r)) == Ok::<u32, Error>(port),
        crate::request::requested_port_of_bytes(r@.buf) is None
            <==> MuxerState::local_request(Ok(r)) == Err::<u32, Error>(Error::InvalidPortRequest),
{
}

/// Assigning a port puts it in use, makes it the one that was assigned last, and
/// changes nothing else.
pub proof fn assigning_a_port_takes_it(s: MuxerState, port: u32, other: u32)
    ensures
        ({
            let t = s.port_taken(port);
            &&& t.used_ports.contains(port)
            &&& other != port ==> t.used_ports.contains(other) == s.used_ports.contains(other)
            &&& t.last_port == port
            &&& t == (MuxerState { used_ports: t.used_ports, last_port: t.last_port, ..s })
        }),
{
}

/// A connection is not added where there are as many as there may be, nor where
/// its file descriptor could not be polled; the first reason is the one given.
/// Else it is added with the status it came with, polled for the events it is
/// interested in, and queued for delivery if it has a packet for the guest.
pub proof fn connection_is_added_unless_full_or_not_polled(
    s: MuxerState,
    key: ConnMapKey,
    conn: NewConn,
    ctl: Result<(), IoError>,
)
    ensures
        s.conns.len() >= MAX_CONNECTIONS ==> s.insert_result(ctl) == Err::<(), Error>(
            Error::TooManyConnections,
        ) && s.insert_connection(key, conn, ctl) == s,
        s.conns.len() < MAX_CONNECTIONS ==> (ctl matches Err(e) ==> s.insert_result(ctl) == Err::<
            (),
            Error,
        >(Error::EpollAdd(e)) && s.insert_connection(key, conn, ctl) == s),
        s.conns.len() < MAX_CONNECTIONS && ctl is Ok ==> {
            let t = s.insert_connection(key, conn, ctl);
            &&& s.insert_result(ctl) is Ok
            &&& t.conns == s.conns.insert(key, conn.status)
            &&& t.listeners == s.listeners.insert(
                conn.status.fd,
                EpollListener::Connection {
                    key,
                    evset: conn.evset,
                    backend: conn.status.backend,
                },
            )
            &&& conn.status.pending_rx ==> t.rxq == s.rxq.push(MuxerRx::ConnRx(key))
            &&& !conn.status.pending_rx ==> t.rxq == s.rxq
            &&& t == (MuxerState { conns: t.conns, listeners: t.listeners, rxq: t.rxq, ..s })
        },
{
}

// ---- Changes of connections ----

/// Whether a host-initiated connection became established, and fewer or more
/// bytes than those of the acknowledgement were written to its host end, or none
/// because that failed.
pub open spec fn not_acknowledged(s: MuxerState, key: ConnMapKey, report: ConnReport) -> bool {
    &&& s.conns[key].state == ConnState::LocalInit
    &&& report.state == ConnState::Established
    &&& report.ack != Ok::<usize, IoError>(
        crate::state::ack_bytes(key.local_port).len() as usize,
    )
}

/// After a change, the status on record for a connection is exactly the reported
/// one; but a connection that could not be acknowledged is on record as killed,
/// with a packet for the guest. No other connection changes.
pub proof fn reported_status_is_on_record(
    s: MuxerState,
    key: ConnMapKey,
    report: ConnReport,
)
    requires
        s.conns.contains_key(key),
    ensures
        ({
            let t = s.apply_conn_mutation(key, report);
            &&& !not_acknowledged(s, key, report) ==> t.conns == s.conns.insert(
                key,
                report.status,
            )
            &&& not_acknowledged(s, key, report) ==> t.conns == s.conns.insert(
                key,
                ConnStatus { state: ConnState::Killed, pending_rx: true, ..report.status },
            )
        }),
{
    lemma_ack_is_short(key.local_port);
}

/// The acknowledgement is short enough to be counted.
proof fn lemma_ack_is_short(local_port: u32)
    ensures
        crate::state::ack_bytes(local_port).len() <= 14,
{
    assert(vstd::arithmetic::power::pow(10, 10) == 10_000_000_000) by {
        reveal_with_fuel(vstd::arithmetic::power::pow, 11);
    }
    crate::decimal::lemma_decimal_digits_len(local_port as nat, 10);
}

/// An acknowledgement is due exactly for an active connection that the host
/// initiated and that has just become established. It has failed unless as many
/// bytes were written as it has.
pub proof fn acknowledgement_is_due_once_established(
    s: MuxerState,
    key: ConnMapKey,
    state: ConnState,
    ack: Result<usize, IoError>,
)
    ensures
        s.ack_due(key, state) == (s.conns.contains_key(key) && s.conns[key].state
            == ConnState::LocalInit && state == ConnState::Established),
        s.ack_failed(key, state, ack) == (s.ack_due(key, state) && ack != Ok::<usize, IoError>(
            crate::state::ack_bytes(key.local_port).len() as usize,
        )),
{
    lemma_ack_is_short(key.local_port);
}

/// A connection that had nothing to deliver on record and now has is queued for
/// delivery; no other change touches the RX queue.
pub proof fn connection_that_gets_a_packet_is_queued(
    s: MuxerState,
    key: ConnMapKey,
    report: ConnReport,
)
    requires
        s.conns.contains_key(key),
    ensures
        ({
            let t = s.apply_conn_mutation(key, report);
            let pending = report.status.pending_rx || not_acknowledged(s, key, report);
            &&& !s.conns[key].pending_rx && pending ==> t.rxq == s.rxq.push(MuxerRx::ConnRx(key))
            &&& s.conns[key].pending_rx || !pending ==> t.rxq == s.rxq
        }),
{
    lemma_ack_is_short(key.local_port);
}

/// How two changes in a row relate: a connection that the first left without a
/// packet, and to which the second gives one, is in the RX queue afterwards,
/// whatever it was before and whatever its states, unless the queue is out of
/// sync.
pub proof fn connection_is_queued_after_it_was_emptied(
    s: MuxerState,
    key: ConnMapKey,
    first: ConnReport,
    second: ConnReport,
)
    requires
        s.conns.contains_key(key),
        !first.status.pending_rx,
        !not_acknowledged(s, key, first),
        second.status.pending_rx,
    ensures
        ({
            let t = s.apply_conn_mutation(key, first).apply_conn_mutation(key, second);
            &&& t.conns[key].pending_rx
            &&& t.rxq.items.contains(MuxerRx::ConnRx(key)) || !t.rxq.synced
        }),
{
    let m = s.apply_conn_mutation(key, first);
    let t = m.apply_conn_mutation(key, second);
    reported_status_is_on_record(s, key, first);
    reported_status_is_on_record(m, key, second);
    connection_that_gets_a_packet_is_queued(m, key, second);
    connection_item_is_queued_last(m.rxq, key);
    if t.rxq.synced {
        assert(t.rxq.items[t.rxq.items.len() - 1] == MuxerRx::ConnRx(key));
    }
}

/// A connection whose timer was not running at the time before a change, and
/// which afterwards is to be terminated at a later time than the time then, is
/// put in the kill queue with that time, whatever its state; no other change
/// touches the kill queue.
pub proof fn connection_that_arms_its_timer_is_queued(
    s: MuxerState,
    key: ConnMapKey,
    report: ConnReport,
)
    requires
        s.conns.contains_key(key),
    ensures
        ({
            let t = s.apply_conn_mutation(key, report);
            let running = s.conns[key].expiry is Some && s.conns[key].expiry->Some_0
                > report.began;
            let runs = report.status.expiry is Some && report.status.expiry->Some_0 > report.ended;
            &&& !running && runs ==> t.killq == s.killq.push(key, report.status.expiry->Some_0)
            &&& running || !runs ==> t.killq == s.killq
        }),
{
}

/// A timer that is armed for a time to come is known to the kill queue with that
/// time, if the queue is in sync and has room.
pub proof fn armed_timer_is_in_the_kill_queue(
    s: MuxerState,
    key: ConnMapKey,
    report: ConnReport,
    t: u64,
)
    requires
        s.conns.contains_key(key),
        s.conns[key].expiry matches Some(before) ==> before <= report.began,
        report.status.expiry == Some(t),
        t > report.ended,
        crate::killq::in_order(s.killq.items),
        s.killq.synced,
        s.killq.items.len() < MUXER_KILLQ_SIZE,
    ensures
        s.apply_conn_mutation(key, report).killq.items.contains(KillItem { key, kill_time: t }),
        s.apply_conn_mutation(key, report).killq.synced,
{
    connection_that_arms_its_timer_is_queued(s, key, report);
    let at = kill_item_is_queued_by_its_time(s.killq, key, t);
    assert(s.killq.push(key, t).items[at] == KillItem { key, kill_time: t });
}

/// A change of a connection makes its file descriptor polled for the events it
/// is now interested in: not at all where there are none, by a change of the
/// events where it was polled for others, by a new registration, with the
/// backend it had, where it was not polled; and by nothing where it was polled
/// for these already.
pub proof fn polling_follows_the_reported_events(
    s: MuxerState,
    key: ConnMapKey,
    report: ConnReport,
)
    requires
        s.conns.contains_key(key),
    ensures
        ({
            let fd = report.status.fd;
            let t = s.apply_conn_mutation(key, report);
            let step = s.mutation_step(key, report);
            if report.evset.bits == 0 {
                &&& t.listeners == s.listeners.remove(fd)
                &&& s.listeners.contains_key(fd) ==> step == (MutationStep::Unregister { fd })
                &&& !s.listeners.contains_key(fd) ==> step == MutationStep::Done
            } else if s.listeners.contains_key(fd) && s.listeners[fd] is Connection {
                let polled = s.listeners[fd];
                if polled->Connection_evset == report.evset {
                    &&& t.listeners == s.listeners
                    &&& step == MutationStep::Done
                } else {
                    &&& t.listeners.contains_key(fd)
                    &&& t.listeners[fd] matches EpollListener::Connection {
                        key: k,
                        evset,
                        backend,
                    } && k == polled->Connection_key && evset == report.evset && backend
                        == polled->Connection_backend
                    &&& t.listeners.remove(fd) == s.listeners.remove(fd)
                    &&& step == (MutationStep::Update { fd, evset: report.evset })
                }
            } else {
                &&& t.listeners == s.listeners
                &&& step == (MutationStep::Register {
                    fd,
                    listener: EpollListener::Connection {
                        key,
                        evset: report.evset,
                        backend: s.conns[key].backend,
                    },
                })
            }
        }),
{
    let fd = report.status.fd;
    let t = s.apply_conn_mutation(key, report);
    assert(t.listeners.remove(fd) =~= s.listeners.remove(fd));
    if report.evset.bits == 0 {
        assert(t.listeners =~= s.listeners.remove(fd));
    }
}

/// A change of a connection touches connections, queues and listeners only; and
/// a change of a connection that is not active touches nothing.
pub proof fn change_touches_no_more(s: MuxerState, key: ConnMapKey, report: ConnReport)
    ensures
        ({
            let t = s.apply_conn_mutation(key, report);
            &&& t == (MuxerState {
                conns: t.conns,
                rxq: t.rxq,
                killq: t.killq,
                listeners: t.listeners,
                ..s
            })
            &&& !s.conns.contains_key(key) ==> t == s && s.mutation_step(key, report)
                == MutationStep::Done
        }),
{
}

/// Each step names the epoll call that carries it out.
pub proof fn steps_name_their_call(fd: i32, evset: EventSet, listener: EpollListener)
    ensures
        MutationStep::Done.spec_ctl() is None,
        (MutationStep::Unregister { fd }).spec_ctl() == Some(
            EpollCtl { op: CtlOp::Delete, fd, events: (EventSet { bits: 0 }), data: 0 },
        ),
        (MutationStep::Update { fd, evset }).spec_ctl() == Some(
            EpollCtl { op: CtlOp::Modify, fd, events: evset, data: fd as u64 },
        ),
        (MutationStep::Register { fd, listener }).spec_ctl() == Some(
            EpollCtl { op: CtlOp::Add, fd, events: listener.spec_events(), data: fd as u64 },
        ),
{
}

/// The epoll call for a change, once it was made, matters only where the file
/// descriptor is still to be polled: a new registration is noted if it
/// succeeded, and the connection is killed if it failed, as it is if the events
/// could not be changed. A failure to stop polling is passed over.
pub proof fn outcome_of_the_call_is_followed_up(
    s: MuxerState,
    key: ConnMapKey,
    fd: i32,
    evset: EventSet,
    listener: EpollListener,
    ctl: Result<(), IoError>,
    e: IoError,
)
    ensures
        s.conn_mutation_done(key, MutationStep::Done, ctl) == s,
        s.conn_mutation_done(key, MutationStep::Unregister { fd }, ctl) == s,
        s.conn_mutation_done(key, MutationStep::Update { fd, evset }, Ok(())) == s,
        s.conn_mutation_done(key, MutationStep::Update { fd, evset }, Err(e))
            == s.kill_connection(key),
        s.conn_mutation_done(key, MutationStep::Register { fd, listener }, Ok(())) == (MuxerState {
            listeners: s.listeners.insert(fd, listener),
            ..s
        }),
        s.conn_mutation_done(key, MutationStep::Register { fd, listener }, Err(e))
            == s.kill_connection(key),
        !MuxerState::mutation_kills(MutationStep::Done, ctl),
        !MuxerState::mutation_kills(MutationStep::Unregister { fd }, ctl),
        MuxerState::mutation_kills(MutationStep::Update { fd, evset }, ctl) == (ctl is Err),
        MuxerState::mutation_kills(MutationStep::Register { fd, listener }, ctl) == (ctl is Err),
{
}

// ---- Termination ----

/// Killing an active connection puts it on record as killed, with a packet for
/// the guest and all else as it was, and queues it for delivery unless it had
/// something to deliver before. Of a connection that is not active only the
/// queueing takes place.
pub proof fn killing_queues_the_connection(s: MuxerState, key: ConnMapKey)
    ensures
        ({
            let t = s.kill_connection(key);
            &&& t == (MuxerState { conns: t.conns, rxq: t.rxq, ..s })
            &&& s.conns.contains_key(key) ==> {
                &&& t.conns == s.conns.insert(
                    key,
                    ConnStatus { state: ConnState::Killed, pending_rx: true, ..s.conns[key] },
                )
                &&& s.conns[key].pending_rx ==> t.rxq == s.rxq
                &&& !s.conns[key].pending_rx ==> t.rxq == s.rxq.push(MuxerRx::ConnRx(key))
            }
            &&& !s.conns.contains_key(key) ==> t.conns == s.conns && t.rxq == s.rxq.push(
                MuxerRx::ConnRx(key),
            )
        }),
{
}

/// Removing a connection takes it out of the pool, with its listener, whose file
/// descriptor is to be polled no longer; and its host-side port is free, even if
/// there was no such connection.
pub proof fn removing_clears_the_connection(s: MuxerState, key: ConnMapKey)
    ensures
        ({
            let t = s.remove_connection(key);
            let fd = s.conns[key].fd;
            &&& t.conns == s.conns.remove(key)
            &&& t.used_ports == s.used_ports.remove(key.local_port)
            &&& t.listeners == if s.conns.contains_key(key) {
                s.listeners.remove(fd)
            } else {
                s.listeners
            }
            &&& t == (MuxerState {
                conns: t.conns,
                used_ports: t.used_ports,
                listeners: t.listeners,
                ..s
            })
            &&& s.removal(key).key == key
            &&& s.removal(key).ctl == if s.conns.contains_key(key) && s.listeners.contains_key(
                fd,
            ) {
                Some(EpollCtl { op: CtlOp::Delete, fd, events: (EventSet { bits: 0 }), data: 0 })
            } else {
                None
            }
        }),
{
}

/// An item takes its place in a kill queue in the order of time: behind all that
/// are due no later, before all others. A queue that is full or out of sync
/// keeps its items, and is out of sync. Gives the place.
pub proof fn kill_item_is_queued_by_its_time(q: KillQueue, key: ConnMapKey, kill_time: u64) -> (at:
    int)
    requires
        crate::killq::in_order(q.items),
    ensures
        ({
            let r = q.push(key, kill_time);
            let room = q.synced && q.items.len() < MUXER_KILLQ_SIZE;
            &&& r.synced == room
            &&& !room ==> r.items == q.items
            &&& room ==> {
                &&& 0 <= at <= q.items.len()
                &&& r.items.len() == q.items.len() + 1
                &&& r.items[at] == KillItem { key, kill_time }
                &&& r.items.remove(at) == q.items
                &&& forall|i: int| 0 <= i < at ==> (#[trigger] q.items[i]).kill_time <= kill_time
                &&& forall|i: int|
                    at <= i < q.items.len() ==> (#[trigger] q.items[i]).kill_time > kill_time
            }
        }),
{
    crate::killq::lemma_place_by_time(q.items, kill_time);
    let at = crate::killq::place_by_time(q.items, kill_time);
    if q.synced && q.items.len() < MUXER_KILLQ_SIZE {
        assert(q.push(key, kill_time).items.remove(at) =~= q.items);
    }
    at
}

/// A kill queue that is made anew holds connections that are not killed, with
/// the times of their timers and in the order of these, each once; and all
/// connections with a timer that are not killed, whatever else is known of them,
/// unless it is full.
pub proof fn remade_kill_queue_holds_the_timers(
    q: KillQueue,
    conns: Map<ConnMapKey, ConnStatus>,
    key: ConnMapKey,
    t: u64,
    i: int,
    j: int,
)
    requires
        q.made_from(conns),
    ensures
        q.items.len() <= MUXER_KILLQ_SIZE,
        q.synced || q.items.len() == MUXER_KILLQ_SIZE,
        q.synced && conns.contains_key(key) && conns[key].expiry == Some(t) && conns[key].state
            != ConnState::Killed ==> q.items.contains(KillItem { key, kill_time: t }),
        0 <= i < q.items.len() ==> conns.contains_key(q.items[i].key)
            && conns[q.items[i].key].expiry == Some(q.items[i].kill_time)
            && conns[q.items[i].key].state != ConnState::Killed,
        0 <= i < j < q.items.len() ==> q.items[i].key != q.items[j].key && q.items[i].kill_time
            <= q.items[j].kill_time,
{
    if conns.contains_key(key) && conns[key].expiry == Some(t) && conns[key].state
        != ConnState::Killed {
        assert(crate::killq::armed(conns, KillItem { key, kill_time: t }));
    }
    if 0 <= i < q.items.len() {
        assert(crate::killq::armed(conns, q.items[i]));
    }
}

/// A sweep of a kill queue whose first item is not due, or which is empty and in
/// sync, does nothing.
pub proof fn sweep_without_anything_due_does_nothing(
    s: MuxerState,
    now: u64,
    kills: Seq<ConnMapKey>,
    post: MuxerState,
)
    requires
        s.swept(now, kills, post),
        s.killq.items.len() > 0 ==> s.killq.items[0].kill_time >= now,
        s.killq.items.len() == 0 ==> s.killq.synced,
    ensures
        post == s,
        kills.len() == 0,
{
    let rounds = choose|rounds: nat| s.swept_in(rounds, now, kills, post);
    lemma_nothing_is_due(s, rounds, now, kills, post);
}

proof fn lemma_nothing_is_due(
    s: MuxerState,
    rounds: nat,
    now: u64,
    kills: Seq<ConnMapKey>,
    post: MuxerState,
)
    requires
        s.swept_in(rounds, now, kills, post),
        s.killq.items.len() > 0 ==> s.killq.items[0].kill_time >= now,
        s.killq.items.len() == 0 ==> s.killq.synced,
    ensures
        post == s,
        kills.len() == 0,
    decreases rounds,
{
    if rounds > 0 {
        let (mid, q, before) = choose|mid: MuxerState, q: KillQueue, before: Seq<ConnMapKey>|
            {
                &&& #[trigger] mid.swept_anew(now, q, before, kills, post)
                &&& s.swept_in((rounds - 1) as nat, now, before, mid)
            };
        lemma_nothing_is_due(s, (rounds - 1) as nat, now, before, mid);
    }
}

/// A sweep of a kill queue whose first item is due takes that item out, kills
/// its connection if that is active and its time has come, names it, and goes on
/// as a sweep from there. Gives the connections that are killed from there on.
pub proof fn sweep_begins_with_the_first_item(
    s: MuxerState,
    now: u64,
    kills: Seq<ConnMapKey>,
    post: MuxerState,
) -> (rest: Seq<ConnMapKey>)
    requires
        s.swept(now, kills, post),
        s.killq.items.len() > 0,
        s.killq.items[0].kill_time < now,
    ensures
        ({
            let key = s.killq.items[0].key;
            let t = MuxerState {
                killq: KillQueue { items: s.killq.items.skip(1), synced: s.killq.synced },
                ..s
            };
            if s.conns.contains_key(key) && s.conns[key].expiry is Some
                && s.conns[key].expiry->Some_0 <= now {
                &&& t.kill_connection(key).swept(now, rest, post)
                &&& kills == seq![key] + rest
            } else {
                &&& t.swept(now, rest, post)
                &&& kills == rest
            }
        }),
{
    let key = s.killq.items[0].key;
    let t = s.sweep_one(now);
    assert(s.killq.items.skip(1) =~= s.killq.items.drop_first());
    let rounds = choose|rounds: nat| s.swept_in(rounds, now, kills, post);
    let n: int = if s.front_expired(now) { 1 } else { 0 };
    lemma_first_item_first(s, rounds, now, kills, post);
    let rest = kills.skip(n);
    assert(t.swept_in(rounds, now, rest, post));
    if s.front_expired(now) {
        assert(kills =~= seq![key] + rest);
    } else {
        assert(kills =~= rest);
    }
    rest
}

proof fn lemma_first_item_first(
    s: MuxerState,
    rounds: nat,
    now: u64,
    kills: Seq<ConnMapKey>,
    post: MuxerState,
)
    requires
        s.swept_in(rounds, now, kills, post),
        s.killq.front_due(now),
    ensures
        ({
            let n: int = if s.front_expired(now) { 1 } else { 0 };
            &&& kills.len() >= n
            &&& n == 1 ==> kills[0] == s.killq.items[0].key
            &&& s.sweep_one(now).swept_in(rounds, now, kills.skip(n), post)
        }),
    decreases rounds,
{
    let n: int = if s.front_expired(now) { 1 } else { 0 };
    let t = s.sweep_one(now);
    if rounds == 0 {
        assert(kills.skip(n) =~= t.sweep_kills(now));
    } else {
        let (mid, q, before) = choose|mid: MuxerState, q: KillQueue, before: Seq<ConnMapKey>|
            {
                &&& #[trigger] mid.swept_anew(now, q, before, kills, post)
                &&& s.swept_in((rounds - 1) as nat, now, before, mid)
            };
        lemma_first_item_first(s, (rounds - 1) as nat, now, before, mid);
        let remade = MuxerState { killq: q, ..mid };
        assert(kills.skip(n) =~= before.skip(n) + remade.sweep_kills(now));
        assert(mid.swept_anew(now, q, before.skip(n), kills.skip(n), post));
    }
}

/// A sweep of a kill queue that is empty and out of sync makes it anew, and goes
/// on as a sweep from there. Gives the queue that is made.
pub proof fn sweep_makes_a_spent_queue_anew(
    s: MuxerState,
    now: u64,
    kills: Seq<ConnMapKey>,
    post: MuxerState,
) -> (q: KillQueue)
    requires
        s.swept(now, kills, post),
        s.killq.items.len() == 0,
        !s.killq.synced,
    ensures
        q.made_from(s.conns),
        (MuxerState { killq: q, ..s }).swept(now, kills, post),
{
    let rounds = choose|rounds: nat| s.swept_in(rounds, now, kills, post);
    assert(rounds > 0);
    let q = lemma_made_anew_first(s, rounds, now, kills, post);
    assert(MuxerState { killq: q, ..s }.swept_in((rounds - 1) as nat, now, kills, post));
    q
}

proof fn lemma_made_anew_first(
    s: MuxerState,
    rounds: nat,
    now: u64,
    kills: Seq<ConnMapKey>,
    post: MuxerState,
) -> (q: KillQueue)
    requires
        s.swept_in(rounds, now, kills, post),
        rounds > 0,
        s.killq.items.len() == 0,
        !s.killq.synced,
    ensures
        q.made_from(s.conns),
        (MuxerState { killq: q, ..s }).swept_in((rounds - 1) as nat, now, kills, post),
    decreases rounds,
{
    let (mid, q, before) = choose|mid: MuxerState, q: KillQueue, before: Seq<ConnMapKey>|
        {
            &&& #[trigger] mid.swept_anew(now, q, before, kills, post)
            &&& s.swept_in((rounds - 1) as nat, now, before, mid)
        };
    if rounds == 1 {
        assert(mid == s);
        assert(kills =~= MuxerState { killq: q, ..s }.sweep_kills(now));
        q
    } else {
        let first = lemma_made_anew_first(s, (rounds - 1) as nat, now, before, mid);
        assert(mid.swept_anew(now, q, before, kills, post));
        first
    }
}

// ---- Listeners, events and backends ----

/// Each kind of epoll call does what it is named after, to the file descriptor
/// that it is given; and epoll is told to hand that file descriptor back.
pub proof fn epoll_calls_name_their_fd(fd: i32, events: EventSet)
    ensures
        EpollCtl::spec_add(fd, events) == (EpollCtl {
            op: CtlOp::Add,
            fd,
            events,
            data: fd as u64,
        }),
        EpollCtl::spec_modify(fd, events) == (EpollCtl {
            op: CtlOp::Modify,
            fd,
            events,
            data: fd as u64,
        }),
        EpollCtl::spec_delete(fd).op == CtlOp::Delete,
        EpollCtl::spec_delete(fd).fd == fd,
        EpollCtl::spec_delete(fd).events.bits == 0,
        EpollCtl::spec_delete(fd).data == 0,
{
}

/// A connection is polled for the events it is interested in; backends and host
/// streams are polled for something to read.
pub proof fn listeners_wait_for_their_events(
    key: ConnMapKey,
    evset: EventSet,
    backend: VsockBackendType,
    stream: LocalStream,
)
    ensures
        (EpollListener::Connection { key, evset, backend }).spec_events() == evset,
        EpollListener::Backend(backend).spec_events().bits == 1,
        EpollListener::LocalStream(stream).spec_events().bits == 1,
{
}

/// Two listeners compare as equal exactly if they are of the same kind and all
/// of their parts are the same.
pub proof fn listeners_compare_by_all_their_parts(
    key1: ConnMapKey,
    evset1: EventSet,
    backend1: VsockBackendType,
    stream1: LocalStream,
    key2: ConnMapKey,
    evset2: EventSet,
    backend2: VsockBackendType,
    stream2: LocalStream,
)
    ensures
        ({
            let c1 = EpollListener::Connection { key: key1, evset: evset1, backend: backend1 };
            let c2 = EpollListener::Connection { key: key2, evset: evset2, backend: backend2 };
            let b1 = EpollListener::Backend(backend1);
            let b2 = EpollListener::Backend(backend2);
            let s1 = EpollListener::LocalStream(stream1);
            let s2 = EpollListener::LocalStream(stream2);
            &&& vstd::std_specs::cmp::PartialEqSpec::eq_spec(&c1, &c2) == (key1.local_port
                == key2.local_port && key1.peer_port == key2.peer_port && evset1.bits
                == evset2.bits && backend1.id == backend2.id)
            &&& vstd::std_specs::cmp::PartialEqSpec::eq_spec(&b1, &b2) == (backend1.id
                == backend2.id)
            &&& vstd::std_specs::cmp::PartialEqSpec::eq_spec(&s1, &s2) == (stream1.fd
                == stream2.fd && stream1.backend.id == stream2.backend.id)
            &&& !vstd::std_specs::cmp::PartialEqSpec::eq_spec(&c1, &b2)
            &&& !vstd::std_specs::cmp::PartialEqSpec::eq_spec(&c1, &s2)
            &&& !vstd::std_specs::cmp::PartialEqSpec::eq_spec(&b1, &c2)
            &&& !vstd::std_specs::cmp::PartialEqSpec::eq_spec(&b1, &s2)
            &&& !vstd::std_specs::cmp::PartialEqSpec::eq_spec(&s1, &c2)
            &&& !vstd::std_specs::cmp::PartialEqSpec::eq_spec(&s1, &b2)
        }),
{
}

/// A file descriptor gets its listener if the epoll call for it succeeded, and
/// loses it when told to; it is to be polled no longer if it had one.
pub proof fn listeners_come_and_go(
    s: MuxerState,
    fd: i32,
    listener: EpollListener,
    e: IoError,
)
    ensures
        s.add_listener(fd, listener, Ok(())) == (MuxerState {
            listeners: s.listeners.insert(fd, listener),
            ..s
        }),
        s.add_listener(fd, listener, Err(e)) == s,
        s.remove_listener(fd) == (MuxerState { listeners: s.listeners.remove(fd), ..s }),
        s.unlisten_ctl(fd) is Some == s.listeners.contains_key(fd),
        s.listeners.contains_key(fd) ==> s.unlisten_ctl(fd) == Some(
            EpollCtl { op: CtlOp::Delete, fd, events: (EventSet { bits: 0 }), data: 0 },
        ),
{
}

/// An event goes to whoever listens: a connection is notified of the events it
/// is polled for; a backend that has been added is asked for a stream, which is
/// refused exactly if there are as many connections as there may be; a host
/// stream is read, and loses its listener. Nothing else changes.
pub proof fn events_go_to_their_listener(s: MuxerState, fd: i32)
    ensures
        !s.listeners.contains_key(fd) ==> s.event_step(fd) == EventStep::Ignored
            && s.handle_event(fd) == s,
        s.listeners.contains_key(fd) ==> match s.listeners[fd] {
            EpollListener::Connection { key, evset, .. } => {
                &&& s.event_step(fd) == (EventStep::Notify { key, evset })
                &&& s.handle_event(fd) == s
            },
            EpollListener::Backend(backend) => {
                &&& s.handle_event(fd) == s
                &&& s.backends.contains(backend) ==> s.event_step(fd) == (EventStep::Accept {
                    backend,
                    refused: s.conns.len() >= MAX_CONNECTIONS,
                })
                &&& !s.backends.contains(backend) ==> s.event_step(fd) == EventStep::NoBackend(
                    backend,
                )
            },
            EpollListener::LocalStream(stream) => {
                &&& s.event_step(fd) == (EventStep::ReadPort {
                    stream,
                    ctl: EpollCtl {
                        op: CtlOp::Delete,
                        fd,
                        events: (EventSet { bits: 0 }),
                        data: 0,
                    },
                })
                &&& s.handle_event(fd) == (MuxerState {
                    listeners: s.listeners.remove(fd),
                    ..s
                })
            },
        },
{
}

/// A backend that has been added is turned down; another is turned down only if
/// its file descriptor could not be polled.
pub proof fn backend_is_turned_down_for_a_reason(
    s: MuxerState,
    backend: VsockBackendType,
    ctl: Result<(), IoError>,
    e: IoError,
)
    ensures
        s.backends.contains(backend) ==> s.backend_result(backend, ctl) == Err::<(), Error>(
            Error::BackendRegistered(backend),
        ),
        !s.backends.contains(backend) ==> s.backend_result(backend, Ok(())) is Ok,
        !s.backends.contains(backend) ==> s.backend_result(backend, Err(e)) == Err::<(), Error>(
            Error::EpollAdd(e),
        ),
{
}

/// Adding a backend makes it known and listened to, and the one for
/// guest-initiated connections if it is said to be; nothing else changes.
pub proof fn adding_a_backend_makes_it_known(
    s: MuxerState,
    backend: VsockBackendType,
    fd: i32,
    is_peer_backend: bool,
)
    ensures
        ({
            let t = s.register_backend(backend, fd, is_peer_backend);
            &&& t.backends == s.backends.insert(backend)
            &&& t.listeners == s.listeners.insert(fd, EpollListener::Backend(backend))
            &&& is_peer_backend ==> t.peer_backend == Some(backend)
            &&& !is_peer_backend ==> t.peer_backend == s.peer_backend
            &&& t == (MuxerState {
                backends: t.backends,
                listeners: t.listeners,
                peer_backend: t.peer_backend,
                ..s
            })
        }),
{
}

} // verus!
