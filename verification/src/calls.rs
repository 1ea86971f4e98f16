//! What a caller can rely on, call by call and over calls in a row.
//!
//! Each law speaks of a call that has returned: of its arguments, of what it
//! returned, and of the muxer before and after.

use vstd::prelude::*;

use crate::conn::{ConnMapKey, ConnState, ConnStatus, ConnTable};
use crate::defs::{MAX_CONNECTIONS, MUXER_KILLQ_SIZE};
use crate::error::{Error, IoError, VsockBackendType};
use crate::events::{CtlOp, EpollCtl, EventSet, RawEvent};
use crate::killq::{KillItem, MuxerKillQ};
use crate::listener::{EpollListener, LocalStream};
use crate::muxer::VsockMuxer;
use crate::packet::VsockPacket;
use crate::request::PortRequest;
use crate::rxq::{MuxerRx, MuxerRxQ};
use crate::state::MuxerState;
use crate::steps::{
    AddStep, ConnInit, ConnReport, EventStep, MutationStep, NewConn, PeerAdded, RecvStep, Removal,
    SendStep, Unlistened,
};

verus! {

// ---- Making and looking at a muxer ----

/// A muxer is made exactly if there is an epoll file descriptor for it.
pub proof fn making_a_muxer(
    cid: u64,
    epoll_fd: Result<i32, IoError>,
    made: Result<VsockMuxer, Error>,
)
    requires
        call_ensures(VsockMuxer::new, (cid, epoll_fd), made),
    ensures
        epoll_fd matches Err(e) ==> made matches Err(err) && err == Error::EpollFdCreate(e),
        epoll_fd matches Ok(fd) ==> (made matches Ok(m) && {
            &&& m.wf()
            &&& m@.cid == cid
            &&& m@.epoll_fd == fd
            &&& m@.conns.len() == 0
            &&& m@.rxq.items.len() == 0 && m@.rxq.synced
            &&& m@.killq.items.len() == 0 && m@.killq.synced
            &&& m@.last_port == 0x3FFF_FFFF
            &&& m@.peer_backend is None
        }),
{
}

/// What a muxer tells about itself is what it knows.
pub proof fn looking_at_a_muxer(
    m: &VsockMuxer,
    key: ConnMapKey,
    fd: i32,
    evset: EventSet,
    pending: bool,
    status: Option<ConnStatus>,
)
    requires
        call_ensures(VsockMuxer::as_raw_fd, (m,), fd),
        call_ensures(VsockMuxer::get_polled_evset, (m,), evset),
        call_ensures(VsockMuxer::has_pending_rx, (m,), pending),
        call_ensures(VsockMuxer::conn_status, (m, key), status),
    ensures
        fd == m@.epoll_fd,
        evset.bits == 1,
        pending == !(m@.rxq.items.len() == 0 && m@.rxq.synced),
        status is Some == m@.conns.contains_key(key),
        status is Some ==> status == Some(m@.conns[key]),
{
}

// ---- Packets from the guest ----

/// A packet of another type than stream is answered by a reset, whatever else
/// it says, and nothing but the RX queue changes.
pub proof fn sending_a_packet_of_other_type(m: &mut VsockMuxer, pkt: &VsockPacket, step: SendStep)
    requires
        call_ensures(VsockMuxer::send_pkt, (m, pkt), step),
        pkt.type_ != 1,
    ensures
        ({
            let rst = MuxerRx::RstPkt { local_port: pkt.dst_port, peer_port: pkt.src_port };
            &&& step == (SendStep::Reset { queued: old(m)@.rxq.accepts(rst) })
            &&& final(m)@ == (MuxerState { rxq: old(m)@.rxq.push(rst), ..old(m)@ })
        }),
{
    crate::effects::packet_of_other_type_is_reset(m@, *pkt);
}

/// A stream packet for another context id than the host's changes nothing.
pub proof fn sending_a_packet_to_another_cid(m: &mut VsockMuxer, pkt: &VsockPacket, step: SendStep)
    requires
        call_ensures(VsockMuxer::send_pkt, (m, pkt), step),
        pkt.type_ == 1,
        pkt.dst_cid != 2,
    ensures
        step == SendStep::Dropped,
        final(m)@ == old(m)@,
{
    crate::effects::stream_packet_for_another_cid_is_dropped(m@, *pkt);
}

/// A stream packet for the host goes to the connection with its ports, which a
/// reset removes; without such a connection, a request goes to the backend for
/// it, and all else is answered by a reset.
pub proof fn sending_a_packet_to_the_host(m: &mut VsockMuxer, pkt: &VsockPacket, step: SendStep)
    requires
        call_ensures(VsockMuxer::send_pkt, (m, pkt), step),
        pkt.type_ == 1,
        pkt.dst_cid == 2,
    ensures
        ({
            let s = old(m)@;
            let key = ConnMapKey { local_port: pkt.dst_port, peer_port: pkt.src_port };
            let rst = MuxerRx::RstPkt { local_port: pkt.dst_port, peer_port: pkt.src_port };
            let queued = s.rxq.accepts(rst);
            let answered = MuxerState { rxq: s.rxq.push(rst), ..s };
            let backend = s.peer_backend;
            let served = backend is Some && s.backends.contains(backend->Some_0);
            if s.conns.contains_key(key) && pkt.op == 3 {
                &&& step matches SendStep::Removed(r) && r.key == key
                &&& !final(m)@.conns.contains_key(key)
                &&& !final(m)@.used_ports.contains(key.local_port)
                &&& !final(m)@.listeners.contains_key(s.conns[key].fd)
                &&& final(m)@.rxq == s.rxq
                &&& final(m)@.killq == s.killq
            } else if s.conns.contains_key(key) {
                &&& step == SendStep::Forward(key)
                &&& final(m)@ == s
            } else if pkt.op == 1 && served {
                &&& step == (SendStep::Connect { backend: backend->Some_0, port: pkt.dst_port })
                &&& final(m)@ == s
            } else if pkt.op == 1 {
                &&& step == (SendStep::NoBackend { queued })
                &&& final(m)@ == answered
            } else {
                &&& step == (SendStep::Reset { queued })
                &&& final(m)@ == answered
            }
        }),
{
    let key = ConnMapKey { local_port: pkt.dst_port, peer_port: pkt.src_port };
    if m@.conns.contains_key(key) {
        crate::effects::stream_packet_of_a_connection_is_forwarded(m@, *pkt);
    } else {
        crate::effects::stream_packet_without_connection_is_reset_or_connects(m@, *pkt);
    }
}

/// How a refusal and the next delivery relate: a packet that is answered by a
/// reset, sent while nothing is queued, is followed by that reset. It comes from
/// the port the packet was sent to, and goes to the port it came from.
pub proof fn refused_packet_then_delivery(
    m: &mut VsockMuxer,
    pkt: &VsockPacket,
    step: SendStep,
    after: &mut VsockMuxer,
    buffer: &mut VsockPacket,
    delivered: RecvStep,
)
    requires
        call_ensures(VsockMuxer::send_pkt, (m, pkt), step),
        step is Reset || step is NoBackend,
        old(m)@.rxq.items.len() == 0,
        *old(after) == *final(m),
        call_ensures(VsockMuxer::recv_pkt, (after, buffer), delivered),
    ensures
        delivered == (RecvStep::Packet { removed: None }),
        final(buffer).op == 3,
        final(buffer).type_ == 1,
        final(buffer).len == 0,
        final(buffer).src_cid == 2,
        final(buffer).dst_cid == old(m)@.cid,
        final(buffer).src_port == pkt.dst_port,
        final(buffer).dst_port == pkt.src_port,
        final(after)@ == old(m)@,
{
    let s = m@;
    let t = after@;
    let rst = MuxerRx::RstPkt { local_port: pkt.dst_port, peer_port: pkt.src_port };
    crate::effects::refused_packets_are_those_that_are_reset(s, *pkt);
    crate::effects::reset_is_queued_or_displaces_a_connection(
        s.rxq,
        pkt.dst_port,
        pkt.src_port,
        0,
    );
    assert(t.rxq.items =~= seq![rst]);
    let mid = choose|mid: MuxerState| #[trigger]
        t.rx_synced(mid) && final(after)@ == mid.next_rx() && delivered == mid.next_step()
            && *final(buffer) == mid.next_pkt(*buffer);
    crate::effects::first_live_item_is_delivered(mid, 0, *buffer);
    assert(final(after)@.rxq.items =~= s.rxq.items);
}

// ---- Delivery to the guest ----

/// A delivery from an RX queue that is not used up goes by its first item that
/// does not name a connection that is gone, at `n`.
pub proof fn receiving_goes_by_the_first_live_item(
    m: &mut VsockMuxer,
    buffer: &mut VsockPacket,
    step: RecvStep,
    n: int,
)
    requires
        call_ensures(VsockMuxer::recv_pkt, (m, buffer), step),
        old(m)@.rxq.items.len() > 0 || old(m)@.rxq.synced,
        0 <= n <= old(m)@.rxq.items.len(),
        forall|i: int|
            0 <= i < n ==> (#[trigger] old(m)@.rxq.items[i] matches MuxerRx::ConnRx(k)
                && !old(m)@.conns.contains_key(k)),
        n < old(m)@.rxq.items.len() ==> !(old(m)@.rxq.items[n] matches MuxerRx::ConnRx(k)
            && !old(m)@.conns.contains_key(k)),
    ensures
        ({
            let s = old(m)@;
            let items = s.rxq.items;
            &&& final(m)@ == (MuxerState { rxq: final(m)@.rxq, ..s })
            &&& final(m)@.rxq.synced == s.rxq.synced
            &&& n == items.len() ==> step == RecvStep::NoData && final(m)@.rxq.items.len() == 0
                && *final(buffer) == *old(buffer)
            &&& n < items.len() ==> (items[n] matches MuxerRx::ConnRx(key) ==> step
                == RecvStep::Fetch(key) && final(m)@.rxq.items == items.skip(n) && *final(buffer)
                == *old(buffer))
            &&& n < items.len() ==> (items[n] matches MuxerRx::RstPkt { local_port, peer_port }
                ==> {
                &&& step == (RecvStep::Packet { removed: None })
                &&& final(m)@.rxq.items == items.skip(n + 1)
                &&& final(buffer).op == 3 && final(buffer).type_ == 1 && final(buffer).len == 0
                &&& final(buffer).src_cid == 2 && final(buffer).dst_cid == s.cid
                &&& final(buffer).src_port == local_port && final(buffer).dst_port == peer_port
                &&& final(buffer).flags == 0 && final(buffer).buf_alloc == 0
                    && final(buffer).fwd_cnt == 0
            })
        }),
{
    let s = m@;
    let mid = choose|mid: MuxerState| #[trigger]
        s.rx_synced(mid) && final(m)@ == mid.next_rx() && step == mid.next_step()
            && *final(buffer) == mid.next_pkt(*buffer);
    crate::effects::rx_queue_is_brought_into_sync(
        s,
        mid,
        ConnMapKey { local_port: 0, peer_port: 0 },
        0,
        0,
    );
    assert forall|i: int| 0 <= i < n implies crate::effects::is_stale(
        mid,
        #[trigger] mid.rxq.items[i],
    ) by {
        assert(s.rxq.items[i] matches MuxerRx::ConnRx(k) && !s.conns.contains_key(k));
    }
    crate::effects::first_live_item_is_delivered(mid, n, *buffer);
}

/// A delivery from an RX queue that is used up and out of sync asks a connection
/// that has a packet for the guest, and there is nothing to deliver only if no
/// connection has one.
pub proof fn receiving_from_a_spent_queue(
    m: &mut VsockMuxer,
    buffer: &mut VsockPacket,
    step: RecvStep,
    key: ConnMapKey,
)
    requires
        call_ensures(VsockMuxer::recv_pkt, (m, buffer), step),
        old(m)@.rxq.items.len() == 0,
        !old(m)@.rxq.synced,
    ensures
        *final(buffer) == *old(buffer),
        final(m)@ == (MuxerState { rxq: final(m)@.rxq, ..old(m)@ }),
        step matches RecvStep::Fetch(k) ==> old(m)@.conns.contains_key(k)
            && old(m)@.conns[k].pending_rx,
        step is Fetch || step is NoData,
        step is NoData ==> !(old(m)@.conns.contains_key(key) && old(m)@.conns[key].pending_rx),
        final(m)@.rxq.synced && old(m)@.conns.contains_key(key) && old(m)@.conns[key].pending_rx
            ==> final(m)@.rxq.items.contains(MuxerRx::ConnRx(key)),
{
    let s = m@;
    let mid = choose|mid: MuxerState| #[trigger]
        s.rx_synced(mid) && final(m)@ == mid.next_rx() && step == mid.next_step()
            && *final(buffer) == mid.next_pkt(*buffer);
    crate::effects::rx_queue_is_brought_into_sync(s, mid, key, 0, 0);
    crate::effects::first_live_item_is_delivered(mid, 0, *buffer);
    assert(mid.rxq.items.skip(0) =~= mid.rxq.items);
}

/// Once a connection has filled in a packet, that packet is delivered as it is;
/// if it is a reset, the connection with its ports is removed. The connection
/// leaves the front of the RX queue if it has nothing more.
pub proof fn connection_filled_in_the_packet(
    m: &mut VsockMuxer,
    pkt: &mut VsockPacket,
    pending: bool,
    step: RecvStep,
)
    requires
        call_ensures(VsockMuxer::recv_pkt_fetched, (m, pkt, true, pending), step),
    ensures
        ({
            let s = old(m)@;
            let t = final(m)@;
            let key = ConnMapKey { local_port: old(pkt).src_port, peer_port: old(pkt).dst_port };
            &&& *final(pkt) == *old(pkt)
            &&& t.rxq.synced == s.rxq.synced
            &&& t.rxq.items == if pending || s.rxq.items.len() == 0 {
                s.rxq.items
            } else {
                s.rxq.items.skip(1)
            }
            &&& old(pkt).op != 3 ==> {
                &&& step == (RecvStep::Packet { removed: None })
                &&& t == (MuxerState { rxq: t.rxq, ..s })
            }
            &&& old(pkt).op == 3 ==> {
                &&& step matches RecvStep::Packet { removed: Some(removal) } && removal.key == key
                    && (removal.ctl is Some <==> s.conns.contains_key(key)
                    && s.listeners.contains_key(s.conns[key].fd))
                &&& t.conns == s.conns.remove(key)
                &&& t.used_ports == s.used_ports.remove(key.local_port)
                &&& s.conns.contains_key(key) ==> t.listeners == s.listeners.remove(
                    s.conns[key].fd,
                )
                &&& t == (MuxerState {
                    conns: t.conns,
                    used_ports: t.used_ports,
                    listeners: t.listeners,
                    rxq: t.rxq,
                    ..s
                })
            }
        }),
{
    let s = m@;
    let key = ConnMapKey { local_port: pkt.src_port, peer_port: pkt.dst_port };
    crate::effects::keys_are_made_of_the_ports(*pkt);
    crate::effects::removing_clears_the_connection(s.fetched(pending), key);
    assert(s.rxq.items.len() > 0 ==> s.fetched(false).rxq.items =~= s.rxq.items.skip(1));
}

/// A connection that had no packet after all gives way: the delivery goes on
/// with the item behind it, or with itself if it says that it has more.
pub proof fn connection_had_no_packet(
    m: &mut VsockMuxer,
    pkt: &mut VsockPacket,
    pending: bool,
    step: RecvStep,
    n: int,
)
    requires
        call_ensures(VsockMuxer::recv_pkt_fetched, (m, pkt, false, pending), step),
        old(m)@.rxq.items.len() > 0,
        n >= if pending {
            0int
        } else {
            1int
        },
        n <= old(m)@.rxq.items.len(),
        forall|i: int|
            (if pending {
                0int
            } else {
                1int
            }) <= i < n ==> (#[trigger] old(m)@.rxq.items[i] matches MuxerRx::ConnRx(k)
                && !old(m)@.conns.contains_key(k)),
        n < old(m)@.rxq.items.len() ==> !(old(m)@.rxq.items[n] matches MuxerRx::ConnRx(k)
            && !old(m)@.conns.contains_key(k)),
    ensures
        ({
            let items = old(m)@.rxq.items;
            &&& final(m)@ == (MuxerState { rxq: final(m)@.rxq, ..old(m)@ })
            &&& n == items.len() ==> step == RecvStep::NoData
            &&& n < items.len() ==> (items[n] matches MuxerRx::ConnRx(key) ==> step
                == RecvStep::Fetch(key) && final(m)@.rxq.items == items.skip(n))
            &&& n < items.len() ==> (items[n] matches MuxerRx::RstPkt { local_port, peer_port }
                ==> step == (RecvStep::Packet { removed: None }) && final(m)@.rxq.items
                == items.skip(n + 1) && final(pkt).op == 3 && final(pkt).src_port == local_port
                && final(pkt).dst_port == peer_port && final(pkt).dst_cid == old(m)@.cid)
        }),
{
    let s = m@;
    let t = s.fetched(pending);
    let from: int = if pending {
        0
    } else {
        1
    };
    assert(t.rxq.items =~= s.rxq.items.skip(from));
    assert forall|i: int| 0 <= i < n - from implies crate::effects::is_stale(
        t,
        #[trigger] t.rxq.items[i],
    ) by {
        assert(t.rxq.items[i] == s.rxq.items[i + from]);
        assert(s.rxq.items[i + from] matches MuxerRx::ConnRx(k) && !s.conns.contains_key(k));
    }
    crate::effects::first_live_item_is_delivered(t, n - from, *pkt);
    assert(t.rxq.items.skip(n - from) =~= s.rxq.items.skip(n));
    if n < s.rxq.items.len() {
        assert(t.rxq.items.skip(n - from + 1) =~= s.rxq.items.skip(n + 1));
    }
}

/// How four calls in a row relate: a connection delivers its last packet, is
/// taken out of the front, gets another packet, and is asked for it in the
/// delivery that follows, if nothing else is queued. What it was before and
/// which states it goes through does not matter, as long as it is acknowledged
/// where that is due.
pub proof fn connection_delivers_again_after_it_was_emptied(
    m1: &mut VsockMuxer,
    m2: &mut VsockMuxer,
    m3: &mut VsockMuxer,
    m4: &mut VsockMuxer,
    key: ConnMapKey,
    first: ConnReport,
    second: ConnReport,
    pkt: &mut VsockPacket,
    buffer: &mut VsockPacket,
    steps: (MutationStep, RecvStep, MutationStep, RecvStep),
)
    requires
        old(m1)@.conns.contains_key(key),
        old(m1)@.conns[key].pending_rx,
        old(m1)@.rxq.items == seq![MuxerRx::ConnRx(key)],
        old(m1)@.rxq.synced,
        old(m1)@.conns[key].state == ConnState::LocalInit ==> first.state
            != ConnState::Established,
        !first.status.pending_rx,
        call_ensures(VsockMuxer::apply_conn_mutation, (m1, key, first), steps.0),
        *old(m2) == *final(m1),
        old(pkt).op != 3,
        call_ensures(VsockMuxer::recv_pkt_fetched, (m2, pkt, true, false), steps.1),
        *old(m3) == *final(m2),
        second.status.pending_rx,
        call_ensures(VsockMuxer::apply_conn_mutation, (m3, key, second), steps.2),
        *old(m4) == *final(m3),
        call_ensures(VsockMuxer::recv_pkt, (m4, buffer), steps.3),
    ensures
        final(m2)@.rxq.items.len() == 0,
        final(m3)@.rxq.items.len() == 1,
        steps.3 == RecvStep::Fetch(key),
{
    crate::effects::reported_status_is_on_record(m1@, key, first);
    crate::effects::connection_that_gets_a_packet_is_queued(m1@, key, first);
    connection_filled_in_the_packet(m2, pkt, false, steps.1);
    crate::effects::reported_status_is_on_record(m3@, key, second);
    crate::effects::connection_that_gets_a_packet_is_queued(m3@, key, second);
    crate::effects::connection_item_is_queued_last(m3@.rxq, key);
    assert(m4@.rxq.items[0] == MuxerRx::ConnRx(key));
    receiving_goes_by_the_first_live_item(m4, buffer, steps.3, 0);
}

// ---- Changes of connections ----

/// A change of a connection puts the reported status on record, queues the
/// connection where it got a packet or a timer, and leaves all else alone but
/// its listener.
pub proof fn changing_a_connection(
    m: &mut VsockMuxer,
    key: ConnMapKey,
    report: ConnReport,
    step: MutationStep,
)
    requires
        call_ensures(VsockMuxer::apply_conn_mutation, (m, key, report), step),
    ensures
        ({
            let s = old(m)@;
            let t = final(m)@;
            let before = s.conns[key];
            let lost = before.state == ConnState::LocalInit && report.state
                == ConnState::Established && report.ack != Ok::<usize, IoError>(
                crate::state::ack_bytes(key.local_port).len() as usize,
            );
            let ran = before.expiry is Some && before.expiry->Some_0 > report.began;
            let runs = report.status.expiry is Some && report.status.expiry->Some_0 > report.ended;
            &&& !s.conns.contains_key(key) ==> t == s && step == MutationStep::Done
            &&& s.conns.contains_key(key) ==> {
                &&& t.conns == s.conns.insert(
                    key,
                    if lost {
                        ConnStatus { state: ConnState::Killed, pending_rx: true, ..report.status }
                    } else {
                        report.status
                    },
                )
                &&& t.rxq == if !before.pending_rx && (report.status.pending_rx || lost) {
                    s.rxq.push(MuxerRx::ConnRx(key))
                } else {
                    s.rxq
                }
                &&& t.killq == if !ran && runs {
                    s.killq.push(key, report.status.expiry->Some_0)
                } else {
                    s.killq
                }
            }
            &&& t.cid == s.cid && t.epoll_fd == s.epoll_fd
            &&& t.used_ports == s.used_ports && t.last_port == s.last_port
            &&& t.backends == s.backends && t.peer_backend == s.peer_backend
        }),
{
    crate::effects::change_touches_no_more(m@, key, report);
    if m@.conns.contains_key(key) {
        crate::effects::reported_status_is_on_record(m@, key, report);
        crate::effects::connection_that_gets_a_packet_is_queued(m@, key, report);
        crate::effects::connection_that_arms_its_timer_is_queued(m@, key, report);
    }
}

/// The step that a change asks for makes the file descriptor polled for the
/// reported events: whatever it was polled for, it is polled for these once the
/// call was made, and not at all if there are none.
pub proof fn changing_a_connection_and_polling_it(
    m: &mut VsockMuxer,
    key: ConnMapKey,
    report: ConnReport,
    step: MutationStep,
    after: &mut VsockMuxer,
    killed: bool,
)
    requires
        old(m)@.conns.contains_key(key),
        call_ensures(VsockMuxer::apply_conn_mutation, (m, key, report), step),
        *old(after) == *final(m),
        call_ensures(VsockMuxer::conn_mutation_done, (after, key, step, Ok(())), killed),
    ensures
        ({
            let s = old(m)@;
            let fd = report.status.fd;
            let listed = s.listeners.contains_key(fd) && s.listeners[fd] is Connection;
            let t = final(after)@;
            &&& !killed
            &&& t.conns == final(m)@.conns && t.rxq == final(m)@.rxq
            &&& t.listeners.remove(fd) == s.listeners.remove(fd)
            &&& report.evset.bits == 0 ==> !t.listeners.contains_key(fd)
            &&& report.evset.bits != 0 ==> t.listeners.contains_key(fd) && (
            t.listeners[fd] matches EpollListener::Connection { key: k, evset, backend } && evset
                == report.evset && (if listed {
                k == s.listeners[fd]->Connection_key && backend
                    == s.listeners[fd]->Connection_backend
            } else {
                k == key && backend == s.conns[key].backend
            }))
            &&& step is Done <==> (if report.evset.bits == 0 {
                !s.listeners.contains_key(fd)
            } else {
                listed && s.listeners[fd]->Connection_evset == report.evset
            })
        }),
{
    crate::effects::polling_follows_the_reported_events(m@, key, report);
    let fd = report.status.fd;
    assert(final(after)@.listeners.remove(fd) =~= m@.listeners.remove(fd));
}

/// A connection whose file descriptor could not be polled as it wishes is killed
/// if it is active; a failure to stop polling is passed over.
pub proof fn polling_a_connection_failed(
    m: &mut VsockMuxer,
    key: ConnMapKey,
    step: MutationStep,
    e: IoError,
    killed: bool,
)
    requires
        call_ensures(VsockMuxer::conn_mutation_done, (m, key, step, Err(e)), killed),
    ensures
        step is Done || step is Unregister ==> !killed && final(m)@ == old(m)@,
        step is Update || step is Register ==> {
            &&& killed == old(m)@.conns.contains_key(key)
            &&& killed ==> final(m)@.conns == old(m)@.conns.insert(
                key,
                ConnStatus { state: ConnState::Killed, pending_rx: true, ..old(m)@.conns[key] },
            )
            &&& final(m)@.listeners == old(m)@.listeners
        },
{
    crate::effects::killing_queues_the_connection(m@, key);
}

/// The host end of a connection is owed a message exactly when the connection,
/// which it initiated, has become established: "OK ", its port and a line end.
/// The connection is to be killed unless all of it was written.
pub proof fn acknowledging_a_connection(
    m: &VsockMuxer,
    key: ConnMapKey,
    state: ConnState,
    ack: Result<usize, IoError>,
    msg: Option<Vec<u8>>,
    failed: bool,
)
    requires
        call_ensures(VsockMuxer::conn_ack, (m, key, state), msg),
        call_ensures(VsockMuxer::conn_ack_failed, (m, key, state, ack), failed),
    ensures
        msg is Some == (m@.conns.contains_key(key) && m@.conns[key].state == ConnState::LocalInit
            && state == ConnState::Established),
        msg matches Some(bytes) ==> {
            &&& bytes@ == seq![79u8, 75u8, 32u8] + crate::decimal::decimal_digits(
                key.local_port as nat,
            ) + seq![10u8]
            &&& failed == !(ack matches Ok(written) && written == bytes@.len())
        },
        msg is None ==> !failed,
{
}

// ---- Termination ----

/// Killing a connection says whether it was active, marks it, and queues it if
/// it was not queued.
pub proof fn killing_a_connection(m: &mut VsockMuxer, key: ConnMapKey, found: bool)
    requires
        call_ensures(VsockMuxer::kill_connection, (m, key), found),
    ensures
        ({
            let s = old(m)@;
            let t = final(m)@;
            &&& found == s.conns.contains_key(key)
            &&& found ==> t.conns == s.conns.insert(
                key,
                ConnStatus { state: ConnState::Killed, pending_rx: true, ..s.conns[key] },
            )
            &&& t.rxq == if found && s.conns[key].pending_rx {
                s.rxq
            } else {
                s.rxq.push(MuxerRx::ConnRx(key))
            }
            &&& !found ==> t.conns == s.conns
            &&& t == (MuxerState { conns: t.conns, rxq: t.rxq, ..s })
        }),
{
    crate::effects::killing_queues_the_connection(m@, key);
}

/// Removing a connection clears it away, and asks for its file descriptor to be
/// polled no longer if it was polled.
pub proof fn removing_a_connection(m: &mut VsockMuxer, key: ConnMapKey, removal: Removal)
    requires
        call_ensures(VsockMuxer::remove_connection, (m, key), removal),
    ensures
        ({
            let s = old(m)@;
            let t = final(m)@;
            let fd = s.conns[key].fd;
            let active = s.conns.contains_key(key);
            &&& removal.key == key
            &&& removal.ctl == if active && s.listeners.contains_key(fd) {
                Some(EpollCtl { op: CtlOp::Delete, fd, events: (EventSet { bits: 0 }), data: 0 })
            } else {
                None
            }
            &&& t.conns == s.conns.remove(key)
            &&& t.used_ports == s.used_ports.remove(key.local_port)
            &&& t.listeners == if active {
                s.listeners.remove(fd)
            } else {
                s.listeners
            }
            &&& t.rxq == s.rxq && t.killq == s.killq && t.last_port == s.last_port
            &&& t.cid == s.cid && t.epoll_fd == s.epoll_fd
            &&& t.backends == s.backends && t.peer_backend == s.peer_backend
        }),
{
    crate::effects::removing_clears_the_connection(m@, key);
}

/// A sweep kills only connections whose time has come, and names them; nothing
/// else changes in any connection.
pub proof fn sweeping_kills_only_what_timed_out(
    m: &mut VsockMuxer,
    now: u64,
    killed: Vec<ConnMapKey>,
    key: ConnMapKey,
)
    requires
        call_ensures(VsockMuxer::sweep_killq, (m, now), killed),
    ensures
        ({
            let s = old(m)@;
            let t = final(m)@;
            &&& t.conns.contains_key(key) == s.conns.contains_key(key)
            &&& killed@.contains(key) ==> s.conns.contains_key(key) && s.conns[key].expiry is Some
                && s.conns[key].expiry->Some_0 <= now && t.conns[key] == (ConnStatus {
                state: ConnState::Killed,
                pending_rx: true,
                ..s.conns[key]
            })
            &&& !killed@.contains(key) && s.conns.contains_key(key) ==> t.conns[key]
                == s.conns[key]
            &&& t.listeners == s.listeners && t.used_ports == s.used_ports
            &&& t.killq.synced || t.killq.items.len() > 0
        }),
{
    crate::laws::sweep_kills_only_expired(m@, now, killed@, final(m)@, key);
}

/// How arming a timer and a later sweep relate: a connection without a timer,
/// whatever its state, that is given one for a time to come, in a muxer that
/// keeps track of its timers, is killed by a sweep after that time, if the sweep
/// leaves the kill queue in sync.
pub proof fn armed_timer_then_sweep(
    m: &mut VsockMuxer,
    key: ConnMapKey,
    report: ConnReport,
    step: MutationStep,
    after: &mut VsockMuxer,
    now: u64,
    killed: Vec<ConnMapKey>,
)
    requires
        old(m).wf(),
        crate::laws::kills_tracked(old(m)@),
        old(m)@.conns.contains_key(key),
        old(m)@.conns[key].expiry is None,
        report.status.expiry is Some,
        report.ended < report.status.expiry->Some_0 < now,
        report.status.state != ConnState::Killed,
        old(m)@.conns[key].state == ConnState::LocalInit ==> report.state
            != ConnState::Established,
        call_ensures(VsockMuxer::apply_conn_mutation, (m, key, report), step),
        *old(after) == *final(m),
        call_ensures(VsockMuxer::sweep_killq, (after, now), killed),
        final(after)@.killq.synced,
    ensures
        killed@.contains(key),
        final(after)@.conns[key].state == ConnState::Killed,
        final(after)@.conns[key].pending_rx,
{
    changing_a_connection(m, key, report, step);
    crate::laws::mutation_keeps_kill_tracking(m@, key, report, Err(IoError { code: 0 }));
    let s = after@;
    assert(crate::laws::kills_tracked(s)) by {
        if s.killq.synced {
            crate::laws::lemma_killq_push_contains(
                m@.killq,
                key,
                report.status.expiry->Some_0,
            );
            assert forall|item: KillItem| #[trigger]
                crate::laws::timed(s.conns, item) implies s.killq.items.contains(item) by {
                if item.key != key {
                    assert(crate::laws::timed(m@.conns, item));
                }
            }
        }
    }
    crate::laws::sweep_kills_all_that_timed_out(s, now, killed@, final(after)@, key);
}

// ---- Creation of connections ----

/// A connection request leads to a connection with what the request says.
pub proof fn creating_a_requested_connection(m: &VsockMuxer, pkt: &VsockPacket, init: ConnInit)
    requires
        call_ensures(VsockMuxer::peer_init, (m, pkt), init),
    ensures
        init.peer_buf_alloc == Some(pkt.buf_alloc),
        init.local_cid == 2,
        init.peer_cid == m@.cid,
        init.local_port == pkt.dst_port,
        init.peer_port == pkt.src_port,
{
    crate::effects::requested_connection_is_made_of_the_request(m@, *pkt);
}

/// A connection is added under the key that its ports make up.
pub proof fn key_of_a_new_connection(init: &ConnInit, key: ConnMapKey)
    requires
        call_ensures(ConnInit::key, (init,), key),
    ensures
        key.local_port == init.local_port,
        key.peer_port == init.peer_port,
{
}

/// A connection request with or without a backend for it.
pub proof fn taking_a_connection_request(m: &mut VsockMuxer, pkt: &VsockPacket, step: SendStep)
    requires
        call_ensures(VsockMuxer::handle_peer_request_pkt, (m, pkt), step),
    ensures
        ({
            let s = old(m)@;
            let rst = MuxerRx::RstPkt { local_port: pkt.dst_port, peer_port: pkt.src_port };
            if s.peer_backend is Some && s.backends.contains(s.peer_backend->Some_0) {
                &&& step == (SendStep::Connect {
                    backend: s.peer_backend->Some_0,
                    port: pkt.dst_port,
                })
                &&& final(m)@ == s
            } else {
                &&& step == (SendStep::NoBackend { queued: s.rxq.accepts(rst) })
                &&& final(m)@ == (MuxerState { rxq: s.rxq.push(rst), ..s })
            }
        }),
{
}

/// Room for a new connection is looked for after a sweep: the connection is to
/// be polled for its events if there is room, and is turned down else.
pub proof fn making_room_for_a_connection(
    m: &mut VsockMuxer,
    conn: NewConn,
    now: u64,
    step: AddStep,
)
    requires
        call_ensures(VsockMuxer::add_connection, (m, conn, now), step),
    ensures
        old(m)@.swept(now, step.killed@, final(m)@),
        !step.rst_dropped,
        final(m)@.conns.len() >= 1023 ==> step.ctl == Err::<EpollCtl, Error>(
            Error::TooManyConnections,
        ),
        final(m)@.conns.len() < 1023 ==> step.ctl == Ok::<EpollCtl, Error>(
            EpollCtl {
                op: CtlOp::Add,
                fd: conn.status.fd,
                events: conn.evset,
                data: conn.status.fd as u64,
            },
        ),
{
}

/// A connection is added with what it came with, unless the pool is full or it
/// could not be polled.
pub proof fn adding_a_connection(
    m: &mut VsockMuxer,
    key: ConnMapKey,
    conn: NewConn,
    ctl: Result<(), IoError>,
    res: Result<(), Error>,
)
    requires
        call_ensures(VsockMuxer::insert_connection, (m, key, conn, ctl), res),
    ensures
        ({
            let s = old(m)@;
            let t = final(m)@;
            &&& s.conns.len() >= 1023 ==> res == Err::<(), Error>(Error::TooManyConnections) && t
                == s
            &&& s.conns.len() < 1023 ==> (ctl matches Err(e) ==> res == Err::<(), Error>(
                Error::EpollAdd(e),
            ) && t == s)
            &&& s.conns.len() < 1023 && ctl is Ok ==> {
                &&& res is Ok
                &&& t.conns == s.conns.insert(key, conn.status)
                &&& t.listeners == s.listeners.insert(
                    conn.status.fd,
                    EpollListener::Connection {
                        key,
                        evset: conn.evset,
                        backend: conn.status.backend,
                    },
                )
                &&& t.rxq == if conn.status.pending_rx {
                    s.rxq.push(MuxerRx::ConnRx(key))
                } else {
                    s.rxq
                }
                &&& t.killq == s.killq && t.used_ports == s.used_ports && t.backends == s.backends
            }
        }),
{
    crate::effects::connection_is_added_unless_full_or_not_polled(m@, key, conn, ctl);
}

/// A requested connection for which the backend has no stream, or the pool no
/// room, is answered by a reset; else it is to be polled. The muxer was swept
/// before the room was looked for.
pub proof fn backend_answered_a_request(
    m: &mut VsockMuxer,
    pkt: &VsockPacket,
    conn: Result<NewConn, IoError>,
    now: u64,
    step: AddStep,
)
    requires
        call_ensures(VsockMuxer::peer_connected, (m, pkt, conn, now), step),
    ensures
        ({
            let s = old(m)@;
            let t = final(m)@;
            let rst = MuxerRx::RstPkt { local_port: pkt.dst_port, peer_port: pkt.src_port };
            &&& conn matches Err(e) ==> {
                &&& step.ctl == Err::<EpollCtl, Error>(Error::BackendConnect(e))
                &&& step.killed@.len() == 0
                &&& step.rst_dropped == !s.rxq.accepts(rst)
                &&& t == (MuxerState { rxq: s.rxq.push(rst), ..s })
            }
            &&& conn matches Ok(c) ==> exists|mid: MuxerState|
                {
                    &&& #[trigger] s.swept(now, step.killed@, mid)
                    &&& mid.conns.len() >= 1023 ==> {
                        &&& step.ctl == Err::<EpollCtl, Error>(Error::TooManyConnections)
                        &&& step.rst_dropped == !mid.rxq.accepts(rst)
                        &&& t == (MuxerState { rxq: mid.rxq.push(rst), ..mid })
                    }
                    &&& mid.conns.len() < 1023 ==> {
                        &&& step.ctl == Ok::<EpollCtl, Error>(
                            EpollCtl {
                                op: CtlOp::Add,
                                fd: c.status.fd,
                                events: c.evset,
                                data: c.status.fd as u64,
                            },
                        )
                        &&& !step.rst_dropped
                        &&& t == mid
                    }
                }
        }),
{
    if let Ok(c) = conn {
        let mid = choose|mid: MuxerState| #[trigger]
            m@.swept(now, step.killed@, mid) && if mid.conns.len() >= MAX_CONNECTIONS {
                &&& final(m)@ == mid.enq_rst(pkt.dst_port, pkt.src_port)
                &&& step.ctl == Err::<EpollCtl, Error>(Error::TooManyConnections)
                &&& step.rst_dropped == !mid.accepts_rst(pkt.dst_port, pkt.src_port)
            } else {
                &&& final(m)@ == mid
                &&& !step.rst_dropped
                &&& step.ctl == Ok::<EpollCtl, Error>(EpollCtl::spec_add(c.status.fd, c.evset))
            };
        assert(m@.swept(now, step.killed@, mid));
    }
}

/// A requested connection is added under the key of its request, or answered by
/// a reset if it is not added.
pub proof fn adding_a_requested_connection(
    m: &mut VsockMuxer,
    pkt: &VsockPacket,
    conn: NewConn,
    ctl: Result<(), IoError>,
    added: PeerAdded,
)
    requires
        call_ensures(VsockMuxer::peer_registered, (m, pkt, conn, ctl), added),
    ensures
        ({
            let s = old(m)@;
            let t = final(m)@;
            let key = ConnMapKey { local_port: pkt.dst_port, peer_port: pkt.src_port };
            let rst = MuxerRx::RstPkt { local_port: pkt.dst_port, peer_port: pkt.src_port };
            if s.conns.len() < 1023 && ctl is Ok {
                &&& added.res is Ok && !added.rst_dropped
                &&& t.conns == s.conns.insert(key, conn.status)
                &&& t.listeners.contains_key(conn.status.fd)
                &&& conn.status.pending_rx ==> t.rxq == s.rxq.push(MuxerRx::ConnRx(key))
                &&& !conn.status.pending_rx ==> t.rxq == s.rxq
            } else {
                &&& added.res == Err::<(), Error>(
                    if s.conns.len() >= 1023 {
                        Error::TooManyConnections
                    } else {
                        Error::EpollAdd(ctl->Err_0)
                    },
                )
                &&& added.rst_dropped == !s.rxq.accepts(rst)
                &&& t == (MuxerState { rxq: s.rxq.push(rst), ..s })
            }
        }),
{
    let key = ConnMapKey { local_port: pkt.dst_port, peer_port: pkt.src_port };
    crate::effects::connection_is_added_unless_full_or_not_polled(m@, key, conn, ctl);
}

/// A host stream that names a port leads to a connection between that port and
/// a port that was free; one that does not is turned down, and takes no port.
pub proof fn host_stream_was_read(
    m: &mut VsockMuxer,
    request: Result<&PortRequest, IoError>,
    init: Result<ConnInit, Error>,
    used: u32,
)
    requires
        old(m).wf(),
        call_ensures(VsockMuxer::local_init, (m, request), init),
    ensures
        ({
            let s = old(m)@;
            let t = final(m)@;
            &&& request matches Err(e) ==> init == Err::<ConnInit, Error>(Error::BackendRead(e))
                && t == s
            &&& request matches Ok(r) ==> match crate::request::requested_port_of_bytes(r@.buf) {
                Some(port) => init matches Ok(i) && {
                    &&& i.peer_port == port
                    &&& i.peer_cid == s.cid
                    &&& i.local_cid == 2
                    &&& i.peer_buf_alloc is None
                    &&& 0x4000_0000 <= i.local_port < 0x8000_0000
                    &&& !s.used_ports.contains(i.local_port)
                    &&& s.last_port < used < i.local_port ==> s.used_ports.contains(used)
                    &&& t.used_ports == s.used_ports.insert(i.local_port)
                    &&& t.last_port == i.local_port
                    &&& t.conns == s.conns && t.listeners == s.listeners && t.rxq == s.rxq
                },
                None => init == Err::<ConnInit, Error>(Error::InvalidPortRequest) && t == s,
            }
        }),
{
    if let Ok(i) = init {
        crate::ports::next_port_is_the_first_free_one(
            m@.used_ports,
            m@.last_port,
            i.local_port,
            used,
        );
    }
}

/// A host stream that was accepted is to be polled for something to read.
pub proof fn host_stream_was_accepted(
    m: &VsockMuxer,
    stream: Result<LocalStream, IoError>,
    ctl: Result<EpollCtl, Error>,
)
    requires
        call_ensures(VsockMuxer::stream_accepted, (m, stream), ctl),
    ensures
        stream matches Err(e) ==> ctl == Err::<EpollCtl, Error>(Error::BackendAccept(e)),
        stream matches Ok(s) ==> ctl == Ok::<EpollCtl, Error>(
            EpollCtl {
                op: CtlOp::Add,
                fd: s.fd,
                events: (EventSet { bits: 1 }),
                data: s.fd as u64,
            },
        ),
{
}

// ---- Ports ----

/// The port that is assigned is the first free one after the last.
pub proof fn assigning_a_port(m: &mut VsockMuxer, port: u32, between: u32)
    requires
        old(m).wf(),
        call_ensures(VsockMuxer::allocate_local_port, (m,), port),
    ensures
        0x4000_0000 <= port < 0x8000_0000,
        !old(m)@.used_ports.contains(port),
        old(m)@.last_port < between < port ==> old(m)@.used_ports.contains(between),
        port <= old(m)@.last_port && (old(m)@.last_port < between < 0x8000_0000 || 0x4000_0000
            <= between < port) ==> old(m)@.used_ports.contains(between),
        final(m)@ == (MuxerState {
            used_ports: old(m)@.used_ports.insert(port),
            last_port: port,
            ..old(m)@
        }),
{
    crate::ports::next_port_is_the_first_free_one(
        m@.used_ports,
        m@.last_port,
        port,
        between,
    );
}

/// A port that is made free is free, and whether one is left to assign is told
/// truly.
pub proof fn freeing_a_port(m: &mut VsockMuxer, port: u32, seen: &VsockMuxer, left: bool, any: u32)
    requires
        call_ensures(VsockMuxer::free_local_port, (m, port), ()),
        call_ensures(VsockMuxer::has_free_local_port, (seen,), left),
    ensures
        final(m)@ == (MuxerState { used_ports: old(m)@.used_ports.remove(port), ..old(m)@ }),
        0x4000_0000 <= any < 0x8000_0000 && !seen@.used_ports.contains(any) ==> left,
        left ==> exists|p: u32|
            0x4000_0000 <= p < 0x8000_0000 && !#[trigger] seen@.used_ports.contains(p),
{
    crate::ports::port_is_left_while_one_is_free(seen@.used_ports, any);
}

// ---- Listeners, events and backends ----

/// A reset that is queued by itself.
pub proof fn queueing_a_reset(m: &mut VsockMuxer, local_port: u32, peer_port: u32, pushed: bool)
    requires
        call_ensures(VsockMuxer::enq_rst, (m, local_port, peer_port), pushed),
    ensures
        ({
            let rst = MuxerRx::RstPkt { local_port, peer_port };
            &&& pushed == old(m)@.rxq.accepts(rst)
            &&& final(m)@ == (MuxerState { rxq: old(m)@.rxq.push(rst), ..old(m)@ })
        }),
{
}

/// Listeners are noted when polling began, and taken away when told.
pub proof fn listening(
    m: &mut VsockMuxer,
    n: &mut VsockMuxer,
    fd: i32,
    listener: EpollListener,
    ctl: Result<(), IoError>,
    res: Result<(), Error>,
    removed: Unlistened,
)
    requires
        call_ensures(VsockMuxer::add_listener, (m, fd, listener, ctl), res),
        call_ensures(VsockMuxer::remove_listener, (n, fd), removed),
    ensures
        ctl is Ok ==> res is Ok && final(m)@ == (MuxerState {
            listeners: old(m)@.listeners.insert(fd, listener),
            ..old(m)@
        }),
        ctl matches Err(e) ==> res == Err::<(), Error>(Error::EpollAdd(e)) && final(m)@
            == old(m)@,
        final(n)@ == (MuxerState { listeners: old(n)@.listeners.remove(fd), ..old(n)@ }),
        removed.listener is Some == old(n)@.listeners.contains_key(fd),
        removed.listener is Some ==> removed.listener == Some(old(n)@.listeners[fd]),
        removed.ctl == if old(n)@.listeners.contains_key(fd) {
            Some(EpollCtl { op: CtlOp::Delete, fd, events: (EventSet { bits: 0 }), data: 0 })
        } else {
            None
        },
{
}

/// An event goes to whoever listens.
pub proof fn handling_an_event(m: &mut VsockMuxer, fd: i32, evset: EventSet, step: EventStep)
    requires
        call_ensures(VsockMuxer::handle_event, (m, fd, evset), step),
    ensures
        ({
            let s = old(m)@;
            if !s.listeners.contains_key(fd) {
                step == EventStep::Ignored && final(m)@ == s
            } else {
                match s.listeners[fd] {
                    EpollListener::Connection { key, evset: polled, .. } => step == (
                    EventStep::Notify { key, evset: polled }) && final(m)@ == s,
                    EpollListener::Backend(backend) => final(m)@ == s && step
                        == if s.backends.contains(backend) {
                        EventStep::Accept { backend, refused: s.conns.len() >= 1023 }
                    } else {
                        EventStep::NoBackend(backend)
                    },
                    EpollListener::LocalStream(stream) => {
                        &&& step matches EventStep::ReadPort { stream: read, ctl } && read
                            == stream && ctl.op == CtlOp::Delete && ctl.fd == fd
                        &&& final(m)@ == (MuxerState { listeners: s.listeners.remove(fd), ..s })
                    },
                }
            }
        }),
{
    crate::effects::events_go_to_their_listener(m@, fd);
}

/// A backend is turned down if one of its type was added before, and is to be
/// polled for something to read else.
pub proof fn asking_to_add_a_backend(
    m: &VsockMuxer,
    backend: VsockBackendType,
    fd: i32,
    ctl: Result<EpollCtl, Error>,
)
    requires
        call_ensures(VsockMuxer::add_backend, (m, backend, fd), ctl),
    ensures
        m@.backends.contains(backend) ==> ctl == Err::<EpollCtl, Error>(
            Error::BackendRegistered(backend),
        ),
        !m@.backends.contains(backend) ==> ctl == Ok::<EpollCtl, Error>(
            EpollCtl { op: CtlOp::Add, fd, events: (EventSet { bits: 1 }), data: fd as u64 },
        ),
{
}

/// A backend is added once its file descriptor is polled.
pub proof fn adding_a_backend(
    m: &mut VsockMuxer,
    backend: VsockBackendType,
    fd: i32,
    is_peer_backend: bool,
    ctl: Result<(), IoError>,
    res: Result<(), Error>,
)
    requires
        call_ensures(VsockMuxer::register_backend, (m, backend, fd, is_peer_backend, ctl), res),
    ensures
        ({
            let s = old(m)@;
            let t = final(m)@;
            if s.backends.contains(backend) {
                res == Err::<(), Error>(Error::BackendRegistered(backend)) && t == s
            } else if ctl is Err {
                res == Err::<(), Error>(Error::EpollAdd(ctl->Err_0)) && t == s
            } else {
                &&& res is Ok
                &&& t.backends == s.backends.insert(backend)
                &&& t.listeners == s.listeners.insert(fd, EpollListener::Backend(backend))
                &&& t.peer_backend == if is_peer_backend {
                    Some(backend)
                } else {
                    s.peer_backend
                }
                &&& t.conns == s.conns && t.rxq == s.rxq && t.killq == s.killq && t.used_ports
                    == s.used_ports && t.last_port == s.last_port && t.cid == s.cid && t.epoll_fd
                    == s.epoll_fd
            }
        }),
{
    crate::effects::adding_a_backend_makes_it_known(m@, backend, fd, is_peer_backend);
}

/// An event is decoded to the file descriptor that epoll hands back and the
/// events that occurred, if all of these are known.
pub proof fn decoding_an_event(ev: RawEvent, decoded: Option<(i32, EventSet)>)
    requires
        call_ensures(crate::events::decode_event, (ev,), decoded),
    ensures
        decoded is Some == (ev.events & !0xF000_201Fu32 == 0),
        decoded matches Some(d) ==> d.0 == ev.data as i32 && d.1.bits == ev.events,
{
}

/// What is asked of epoll is what the step and the listener say.
pub proof fn asking_epoll(
    step: &MutationStep,
    step_ctl: Option<EpollCtl>,
    listener: &EpollListener,
    fd: i32,
    ctl: EpollCtl,
)
    requires
        call_ensures(MutationStep::ctl, (step,), step_ctl),
        call_ensures(EpollListener::ctl, (listener, fd), ctl),
    ensures
        match *step {
            MutationStep::Done => step_ctl is None,
            MutationStep::Unregister { fd: f } => step_ctl matches Some(c) && c.op
                == CtlOp::Delete && c.fd == f,
            MutationStep::Update { fd: f, evset } => step_ctl matches Some(c) && c.op
                == CtlOp::Modify && c.fd == f && c.events == evset && c.data == f as u64,
            MutationStep::Register { fd: f, listener: l } => step_ctl matches Some(c) && c.op
                == CtlOp::Add && c.fd == f && c.events == l.spec_events() && c.data == f as u64,
        },
        ctl.op == CtlOp::Add,
        ctl.fd == fd,
        ctl.data == fd as u64,
        match *listener {
            EpollListener::Connection { evset, .. } => ctl.events == evset,
            _ => ctl.events.bits == 1,
        },
{
}

// ---- Queues ----

/// Items go through an RX queue in order, and what does not fit is told.
pub proof fn using_an_rx_queue(
    q: &mut MuxerRxQ,
    rx: MuxerRx,
    pushed: bool,
    r: &mut MuxerRxQ,
    first: Option<MuxerRx>,
    seen: &MuxerRxQ,
    peeked: Option<MuxerRx>,
)
    requires
        call_ensures(MuxerRxQ::push, (q, rx), pushed),
        call_ensures(MuxerRxQ::pop, (r,), first),
        call_ensures(MuxerRxQ::peek, (seen,), peeked),
    ensures
        old(q)@.items.len() < 256 && (rx is RstPkt || old(q)@.synced) ==> pushed
            && final(q)@.items == old(q)@.items.push(rx) && final(q)@.synced == old(q)@.synced,
        old(q)@.items.len() >= 256 && rx is ConnRx ==> !pushed && final(q)@.items
            == old(q)@.items && !final(q)@.synced,
        first == if old(r)@.items.len() > 0 {
            Some(old(r)@.items[0])
        } else {
            None
        },
        old(r)@.items.len() > 0 ==> final(r)@.items == old(r)@.items.skip(1),
        final(r)@.synced == old(r)@.synced,
        peeked == if seen@.items.len() > 0 {
            Some(seen@.items[0])
        } else {
            None
        },
{
    assert(old(r)@.items.len() > 0 ==> r@.items.skip(1) =~= r@.items.drop_first());
}

/// Items leave a kill queue when their time has passed, in the order of time.
pub proof fn using_a_kill_queue(
    q: &mut MuxerKillQ,
    key: ConnMapKey,
    kill_time: u64,
    r: &mut MuxerKillQ,
    now: u64,
    due: Option<ConnMapKey>,
)
    requires
        old(q).wf(),
        call_ensures(MuxerKillQ::push, (q, key, kill_time), ()),
        call_ensures(MuxerKillQ::pop, (r, now), due),
    ensures
        old(q)@.synced && old(q)@.items.len() < 128 ==> final(q)@.synced
            && final(q)@.items.contains(KillItem { key, kill_time }) && final(q)@.items.len()
            == old(q)@.items.len() + 1,
        !(old(q)@.synced && old(q)@.items.len() < 128) ==> !final(q)@.synced && final(q)@.items
            == old(q)@.items,
        old(r)@.items.len() > 0 && old(r)@.items[0].kill_time < now ==> due == Some(
            old(r)@.items[0].key,
        ) && final(r)@.items == old(r)@.items.skip(1),
        old(r)@.items.len() > 0 && old(r)@.items[0].kill_time >= now ==> due is None
            && final(r)@ == old(r)@,
        old(r)@.items.len() == 0 ==> due is None && final(r)@ == old(r)@,
{
    let at = crate::effects::kill_item_is_queued_by_its_time(q@, key, kill_time);
    if q@.synced && q@.items.len() < MUXER_KILLQ_SIZE {
        assert(final(q)@.items[at] == KillItem { key, kill_time });
    }
    assert(old(r)@.items.len() > 0 ==> r@.items.skip(1) =~= r@.items.drop_first());
}

// ---- The host's command ----

/// A command is read into a buffer of 32 bytes, and names the port that these
/// bytes ask for.
pub proof fn reading_a_command(
    first: &[u8],
    begun: PortRequest,
    req: &PortRequest,
    wants: bool,
    port: Result<u32, Error>,
    more: &mut PortRequest,
    byte: u8,
    i: int,
)
    requires
        first@.len() <= 10,
        call_ensures(PortRequest::new, (first,), begun),
        call_ensures(PortRequest::wants_byte, (req,), wants),
        call_ensures(PortRequest::port, (req,), port),
        old(more).wf(),
        old(more)@.len < 32,
        call_ensures(PortRequest::push, (more, byte), ()),
    ensures
        begun@.len == 10,
        begun@.buf.len() == 32,
        0 <= i < first@.len() ==> begun@.buf[i] == first@[i],
        first@.len() <= i < 32 ==> begun@.buf[i] == 0,
        wants == (req@.buf[req@.len - 1] != 10 && req@.len < 32),
        match crate::request::requested_port_of_bytes(req@.buf) {
            Some(p) => port == Ok::<u32, Error>(p),
            None => port == Err::<u32, Error>(Error::InvalidPortRequest),
        },
        final(more)@.len == old(more)@.len + 1,
        final(more)@.buf == old(more)@.buf.update(old(more)@.len, byte),
{
}

/// Numbers are written and read in decimal.
pub proof fn writing_and_reading_numbers(
    out: &mut Vec<u8>,
    n: u32,
    local_port: u32,
    msg: Vec<u8>,
    text: &Vec<char>,
    from: usize,
    to: usize,
    read: Option<u32>,
)
    requires
        call_ensures(crate::decimal::push_decimal, (out, n), ()),
        call_ensures(crate::muxer::ack_message, (local_port,), msg),
        call_ensures(crate::decimal::parse_u32, (text, from, to), read),
    ensures
        final(out)@ == old(out)@ + crate::decimal::decimal_digits(n as nat),
        msg@ == seq![79u8, 75u8, 32u8] + crate::decimal::decimal_digits(local_port as nat)
            + seq![10u8],
        text@.subrange(from as int, to as int) == crate::decimal::decimal_chars(n as nat) ==> read
            == Some(n),
        read == crate::decimal::parsed_u32(text@.subrange(from as int, to as int)),
{
    crate::decimal::decimal_round_trip(n);
}

// ---- Parts ----

/// The status of a connection goes by its timer, and being killed shows in it.
pub proof fn asking_a_status(
    conn: &ConnStatus,
    now: u64,
    will: bool,
    has: bool,
    victim: &mut ConnStatus,
)
    requires
        call_ensures(ConnStatus::will_expire, (conn, now), will),
        call_ensures(ConnStatus::has_expired, (conn, now), has),
        call_ensures(ConnStatus::kill, (victim,), ()),
    ensures
        will == (conn.expiry is Some && now < conn.expiry->Some_0),
        has == (conn.expiry is Some && conn.expiry->Some_0 <= now),
        *final(victim) == (ConnStatus { state: ConnState::Killed, pending_rx: true, ..*old(victim) }),
{
}

/// A table of connections gives back what was put in under a key, and nothing
/// under a key that was taken out; other keys do not matter.
pub proof fn using_a_table(
    t: &mut ConnTable,
    key: ConnMapKey,
    conn: ConnStatus,
    after: &ConnTable,
    other: ConnMapKey,
    got: Option<ConnStatus>,
    u: &mut ConnTable,
    taken: Option<ConnStatus>,
    size: usize,
)
    requires
        call_ensures(ConnTable::insert, (t, key, conn), ()),
        *after == *final(t),
        call_ensures(ConnTable::get, (after, other), got),
        call_ensures(ConnTable::len, (after,), size),
        call_ensures(ConnTable::remove, (u, key), taken),
    ensures
        other == key ==> got == Some(conn),
        other != key ==> got is Some == old(t)@.contains_key(other) && (got is Some ==> got == Some(
            old(t)@[other],
        )),
        size == old(t)@.insert(key, conn).len(),
        taken is Some == old(u)@.contains_key(key),
        taken is Some ==> taken == Some(old(u)@[key]),
        final(u)@ == old(u)@.remove(key),
{
}

/// Queues are made of the connections that belong in them.
pub proof fn making_queues(
    conns: &ConnTable,
    rxq: MuxerRxQ,
    killq: MuxerKillQ,
    key: ConnMapKey,
    i: int,
)
    requires
        call_ensures(MuxerRxQ::from_conn_map, (conns,), rxq),
        call_ensures(MuxerKillQ::from_conn_map, (conns,), killq),
    ensures
        rxq@.synced || rxq@.items.len() == 256,
        killq@.synced || killq@.items.len() == 128,
        rxq@.synced && conns@.contains_key(key) && conns@[key].pending_rx ==> rxq@.items.contains(
            MuxerRx::ConnRx(key),
        ),
        0 <= i < rxq@.items.len() ==> (rxq@.items[i] matches MuxerRx::ConnRx(k)
            && conns@.contains_key(k) && conns@[k].pending_rx),
        killq@.synced && conns@.contains_key(key) && conns@[key].expiry is Some && conns@[key].state
            != ConnState::Killed ==> killq@.items.contains(
            KillItem { key, kill_time: conns@[key].expiry->Some_0 },
        ),
        0 <= i < killq@.items.len() ==> conns@.contains_key(killq@.items[i].key)
            && conns@[killq@.items[i].key].expiry == Some(killq@.items[i].kill_time)
            && conns@[killq@.items[i].key].state != ConnState::Killed,
{
    crate::effects::remade_kill_queue_holds_the_timers(
        killq@,
        conns@,
        key,
        conns@[key].expiry->Some_0,
        i,
        i,
    );
}

/// A packet that is made a reset goes from the host to the guest, and carries
/// nothing.
pub proof fn making_a_reset(pkt: &mut VsockPacket, cid: u64, local_port: u32, peer_port: u32)
    requires
        call_ensures(VsockPacket::set_rst, (pkt, cid, local_port, peer_port), ()),
    ensures
        final(pkt).op == 3 && final(pkt).type_ == 1,
        final(pkt).src_cid == 2 && final(pkt).dst_cid == cid,
        final(pkt).src_port == local_port && final(pkt).dst_port == peer_port,
        final(pkt).len == 0 && final(pkt).flags == 0,
        final(pkt).buf_alloc == 0 && final(pkt).fwd_cnt == 0,
{
}

} // verus!
