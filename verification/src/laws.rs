//! What holds across the operations of the muxer.

use vstd::prelude::*;

use crate::conn::{ConnMapKey, ConnState, ConnStatus};
use crate::defs::{
    MAX_CONNECTIONS, MUXER_RXQ_SIZE, VSOCK_HOST_CID, VSOCK_OP_REQUEST, VSOCK_OP_RST,
    VSOCK_TYPE_STREAM,
};
use crate::error::{Error, IoError, VsockBackendType};
use crate::events::{CtlOp, EpollCtl, EventSet};
use crate::killq::{KillItem, KillQueue};
use crate::listener::{EpollListener, LocalStream};
use crate::packet::VsockPacket;
use crate::rxq::{MuxerRx, RxQueue};
use crate::state::MuxerState;
use crate::steps::{ConnReport, EventStep, MutationStep, NewConn, RecvStep, SendStep};

verus! {

// ---- Resets ----

/// The position of the last connection item holds a connection item, and only
/// resets come behind it.
proof fn lemma_last_conn_rx(items: Seq<MuxerRx>)
    ensures
        -1 <= crate::rxq::last_conn_rx(items) < items.len(),
        crate::rxq::last_conn_rx(items) >= 0 ==> items[crate::rxq::last_conn_rx(items)] is ConnRx,
        forall|i: int|
            crate::rxq::last_conn_rx(items) < i < items.len() ==> #[trigger] items[i] is RstPkt,
    decreases items.len(),
{
    if items.len() > 0 && !(items.last() is ConnRx) {
        lemma_last_conn_rx(items.drop_last());
        assert forall|i: int|
            crate::rxq::last_conn_rx(items) < i < items.len() implies #[trigger] items[i] is RstPkt by {
            if i < items.len() - 1 {
                assert(items.drop_last()[i] == items[i]);
            }
        }
    }
}

/// Whether every reset in the first queue is still in the second, at the same
/// place.
pub open spec fn resets_kept(before: RxQueue, after: RxQueue) -> bool {
    forall|i: int|
        0 <= i < before.items.len() && (#[trigger] before.items[i]) is RstPkt ==> i
            < after.items.len() && after.items[i] == before.items[i]
}

/// Nothing that is pushed to the RX queue displaces a reset.
pub proof fn push_keeps_resets(q: RxQueue, rx: MuxerRx)
    ensures
        resets_kept(q, q.push(rx)),
{
    lemma_last_conn_rx(q.items);
}

/// A reset is dropped only by an RX queue that is full of resets; otherwise it
/// is in the queue.
pub proof fn reset_is_queued_or_queue_is_full_of_resets(q: RxQueue, local_port: u32, peer_port: u32)
    ensures
        ({
            let rst = MuxerRx::RstPkt { local_port, peer_port };
            if q.accepts(rst) {
                q.push(rst).items.contains(rst)
            } else {
                &&& q.push(rst) == q
                &&& q.items.len() >= MUXER_RXQ_SIZE
                &&& forall|i: int| 0 <= i < q.items.len() ==> #[trigger] q.items[i] is RstPkt
            }
        }),
{
    let rst = MuxerRx::RstPkt { local_port, peer_port };
    lemma_last_conn_rx(q.items);
    if q.items.len() < MUXER_RXQ_SIZE {
        assert(q.push(rst).items[q.items.len() as int] == rst);
    } else if crate::rxq::last_conn_rx(q.items) >= 0 {
        assert(q.push(rst).items[crate::rxq::last_conn_rx(q.items)] == rst);
    }
}

/// A packet that is refused is answered: the reset with its ports swapped is in
/// the RX queue, unless that is full of resets already, and the step says which.
/// Nothing else changes.
pub proof fn refused_packet_is_answered(s: MuxerState, pkt: VsockPacket)
    requires
        pkt.type_ != VSOCK_TYPE_STREAM || {
            &&& pkt.dst_cid == VSOCK_HOST_CID
            &&& !s.conns.contains_key(
                ConnMapKey { local_port: pkt.dst_port, peer_port: pkt.src_port },
            )
            &&& !(pkt.op == VSOCK_OP_REQUEST && s.peer_backend is Some && s.backends.contains(
                s.peer_backend->Some_0,
            ))
        },
    ensures
        ({
            let t = s.send_pkt(pkt);
            let rst = MuxerRx::RstPkt { local_port: pkt.dst_port, peer_port: pkt.src_port };
            let queued = s.accepts_rst(pkt.dst_port, pkt.src_port);
            &&& s.send_step(pkt) == (SendStep::Reset { queued }) || s.send_step(pkt) == (
            SendStep::NoBackend { queued })
            &&& t == (MuxerState { rxq: t.rxq, ..s })
            &&& resets_kept(s.rxq, t.rxq)
            &&& queued ==> t.rxq.items.contains(rst)
            &&& !queued ==> t == s && s.rxq.items.len() >= MUXER_RXQ_SIZE && forall|i: int|
                0 <= i < s.rxq.items.len() ==> #[trigger] s.rxq.items[i] is RstPkt
        }),
{
    let rst = MuxerRx::RstPkt { local_port: pkt.dst_port, peer_port: pkt.src_port };
    push_keeps_resets(s.rxq, rst);
    reset_is_queued_or_queue_is_full_of_resets(s.rxq, pkt.dst_port, pkt.src_port);
}

/// A reset at the front of the RX queue is what the guest gets next.
pub proof fn front_reset_is_delivered(
    s: MuxerState,
    mid: MuxerState,
    pkt: VsockPacket,
    local_port: u32,
    peer_port: u32,
)
    requires
        s.rxq.items.len() > 0,
        s.rxq.items[0] == (MuxerRx::RstPkt { local_port, peer_port }),
        s.rx_synced(mid),
    ensures
        mid.next_step() == (RecvStep::Packet { removed: None }),
        mid.next_pkt(pkt) == VsockPacket::spec_rst(s.cid, local_port, peer_port),
        mid.next_rx() == (MuxerState { rxq: s.rxq.pop(), ..s }),
{
}

/// A muxer with nothing to deliver that refuses a packet delivers the reset for
/// it next: from the port the packet was sent to, to the port it came from.
pub proof fn refusal_reaches_the_guest(
    s: MuxerState,
    pkt: VsockPacket,
    mid: MuxerState,
    buffer: VsockPacket,
)
    requires
        s.rxq.items.len() == 0,
        pkt.type_ != VSOCK_TYPE_STREAM || {
            &&& pkt.dst_cid == VSOCK_HOST_CID
            &&& !s.conns.contains_key(
                ConnMapKey { local_port: pkt.dst_port, peer_port: pkt.src_port },
            )
            &&& !(pkt.op == VSOCK_OP_REQUEST && s.peer_backend is Some && s.backends.contains(
                s.peer_backend->Some_0,
            ))
        },
        s.send_pkt(pkt).rx_synced(mid),
    ensures
        mid.next_step() == (RecvStep::Packet { removed: None }),
        mid.next_pkt(buffer) == VsockPacket::spec_rst(s.cid, pkt.dst_port, pkt.src_port),
        mid.next_rx() == s,
{
    let t = s.send_pkt(pkt);
    assert(t.rxq.items[0] == (MuxerRx::RstPkt {
        local_port: pkt.dst_port,
        peer_port: pkt.src_port,
    }));
    front_reset_is_delivered(t, mid, buffer, pkt.dst_port, pkt.src_port);
    assert(mid.next_rx().rxq.items =~= s.rxq.items);
}

/// Only delivering a packet takes a reset out of the RX queue, or moves it: no
/// other operation of the muxer does.
pub proof fn only_delivery_moves_resets(
    s: MuxerState,
    key: ConnMapKey,
    report: ConnReport,
    step: MutationStep,
    ctl: Result<(), IoError>,
    conn: NewConn,
    pkt: VsockPacket,
    fd: i32,
    now: u64,
    kills: Seq<ConnMapKey>,
    post: MuxerState,
)
    requires
        s.swept(now, kills, post),
    ensures
        resets_kept(s.rxq, s.kill_connection(key).rxq),
        resets_kept(s.rxq, s.remove_connection(key).rxq),
        resets_kept(s.rxq, s.apply_conn_mutation(key, report).rxq),
        resets_kept(s.rxq, s.conn_mutation_done(key, step, ctl).rxq),
        resets_kept(s.rxq, s.insert_connection(key, conn, ctl).rxq),
        resets_kept(s.rxq, s.send_pkt(pkt).rxq),
        resets_kept(s.rxq, s.handle_event(fd).rxq),
        resets_kept(s.rxq, post.rxq),
{
    push_keeps_resets(s.rxq, MuxerRx::ConnRx(key));
    push_keeps_resets(
        s.rxq,
        MuxerRx::RstPkt { local_port: pkt.dst_port, peer_port: pkt.src_port },
    );
    let rounds = choose|rounds: nat| s.swept_in(rounds, now, kills, post);
    lemma_swept_in_keeps_resets(s, rounds, now, kills, post);
}

/// How the last of several rounds of a sweep came about.
proof fn lemma_last_round(
    s: MuxerState,
    rounds: nat,
    now: u64,
    kills: Seq<ConnMapKey>,
    post: MuxerState,
) -> (w: (MuxerState, KillQueue, Seq<ConnMapKey>))
    requires
        rounds > 0,
        s.swept_in(rounds, now, kills, post),
    ensures
        w.0.swept_anew(now, w.1, w.2, kills, post),
        s.swept_in((rounds - 1) as nat, now, w.2, w.0),
{
    choose|mid: MuxerState, q: KillQueue, before: Seq<ConnMapKey>|
        {
            &&& #[trigger] mid.swept_anew(now, q, before, kills, post)
            &&& s.swept_in((rounds - 1) as nat, now, before, mid)
        }
}

proof fn lemma_swept_in_keeps_resets(
    s: MuxerState,
    rounds: nat,
    now: u64,
    kills: Seq<ConnMapKey>,
    post: MuxerState,
)
    requires
        s.swept_in(rounds, now, kills, post),
    ensures
        resets_kept(s.rxq, post.rxq),
    decreases rounds,
{
    if rounds == 0 {
        lemma_sweep_keeps_resets(s, now);
    } else {
        let (mid, q, before) = lemma_last_round(s, rounds, now, kills, post);
        lemma_swept_in_keeps_resets(s, (rounds - 1) as nat, now, before, mid);
        lemma_sweep_keeps_resets(MuxerState { killq: q, ..mid }, now);
        assert forall|i: int|
            0 <= i < s.rxq.items.len() && (#[trigger] s.rxq.items[i]) is RstPkt implies i
            < post.rxq.items.len() && post.rxq.items[i] == s.rxq.items[i] by {
            assert(mid.rxq.items[i] == s.rxq.items[i]);
        }
    }
}

proof fn lemma_sweep_keeps_resets(s: MuxerState, now: u64)
    ensures
        resets_kept(s.rxq, s.sweep_due(now).rxq),
    decreases s.killq.items.len(),
{
    if s.killq.front_due(now) {
        let t = s.sweep_one(now);
        push_keeps_resets(s.rxq, MuxerRx::ConnRx(s.killq.items[0].key));
        lemma_sweep_keeps_resets(t, now);
        assert forall|i: int|
            0 <= i < s.rxq.items.len() && (#[trigger] s.rxq.items[i]) is RstPkt implies i
            < s.sweep_due(now).rxq.items.len() && s.sweep_due(now).rxq.items[i]
            == s.rxq.items[i] by {
            assert(t.rxq.items[i] == s.rxq.items[i]);
        }
    }
}

/// The resets in the RX queue, in order.
pub open spec fn resets(q: RxQueue) -> Seq<MuxerRx> {
    q.items.filter(|rx: MuxerRx| rx is RstPkt)
}

/// Taking the first item out of the queue takes at most that one out of the
/// resets.
proof fn lemma_resets_pop(q: RxQueue)
    requires
        q.items.len() > 0,
    ensures
        resets(q.pop()) == if q.items[0] is RstPkt {
            resets(q).drop_first()
        } else {
            resets(q)
        },
        q.items[0] is RstPkt ==> resets(q).len() > 0 && resets(q)[0] == q.items[0],
{
    let pred = |rx: MuxerRx| rx is RstPkt;
    let first = seq![q.items[0]];
    assert(q.items =~= first + q.pop().items);
    Seq::filter_distributes_over_add(first, q.pop().items, pred);
    reveal_with_fuel(Seq::filter, 2);
    assert(first.drop_last() =~= Seq::<MuxerRx>::empty());
    if q.items[0] is RstPkt {
        assert(first.filter(pred) =~= first);
        assert(resets(q).drop_first() =~= resets(q.pop()));
    } else {
        assert(first.filter(pred) =~= Seq::<MuxerRx>::empty());
        assert(resets(q) =~= resets(q.pop()));
    }
}

proof fn lemma_drop_stale(s: MuxerState)
    ensures
        resets(s.drop_stale().rxq) == resets(s.rxq),
        s.drop_stale() == (MuxerState { rxq: s.drop_stale().rxq, ..s }),
        s.drop_stale().rxq.synced == s.rxq.synced,
        s.drop_stale().rxq.items.len() <= s.rxq.items.len(),
        forall|key: ConnMapKey|
            s.conns.contains_key(key) && #[trigger] s.rxq.items.contains(MuxerRx::ConnRx(key))
                ==> s.drop_stale().rxq.items.contains(MuxerRx::ConnRx(key)),
    decreases s.rxq.items.len(),
{
    if s.rxq.items.len() > 0 && (s.rxq.items[0] matches MuxerRx::ConnRx(key)
        && !s.conns.contains_key(key)) {
        let t = MuxerState { rxq: s.rxq.pop(), ..s };
        lemma_resets_pop(s.rxq);
        lemma_drop_stale(t);
        assert forall|key: ConnMapKey|
            s.conns.contains_key(key) && #[trigger] s.rxq.items.contains(
                MuxerRx::ConnRx(key),
            ) implies s.drop_stale().rxq.items.contains(MuxerRx::ConnRx(key)) by {
            let i = choose|i: int|
                0 <= i < s.rxq.items.len() && s.rxq.items[i] == MuxerRx::ConnRx(key);
            assert(t.rxq.items[i - 1] == MuxerRx::ConnRx(key));
            assert(t.rxq.items.contains(MuxerRx::ConnRx(key)));
        }
    }
}

/// Resets are delivered in the order in which they were queued: looking for the
/// next packet delivers the first of them or leaves them all, and so does asking
/// a connection for its packet.
pub proof fn resets_are_delivered_in_order(s: MuxerState, pkt: VsockPacket, pending: bool)
    ensures
        s.next_step() is Packet ==> resets(s.rxq).len() > 0 && (resets(
            s.rxq,
        )[0] matches MuxerRx::RstPkt { local_port, peer_port } && s.next_pkt(pkt)
            == VsockPacket::spec_rst(s.cid, local_port, peer_port)),
        resets(s.next_rx().rxq) == if s.next_step() is Packet {
            resets(s.rxq).drop_first()
        } else {
            resets(s.rxq)
        },
        s.rxq.items.len() > 0 && s.rxq.items[0] is ConnRx ==> resets(s.fetched(pending).rxq)
            == resets(s.rxq),
{
    lemma_drop_stale(s);
    let d = s.drop_stale();
    if d.rxq.items.len() > 0 {
        lemma_resets_pop(d.rxq);
    }
    if s.rxq.items.len() > 0 {
        lemma_resets_pop(s.rxq);
    }
}

// ---- Connections with something to deliver ----

/// Whether the RX queue, if it is in sync, tells of every connection that has a
/// packet for the guest.
pub open spec fn rx_tracked(s: MuxerState) -> bool {
    s.rxq.synced ==> forall|key: ConnMapKey| #[trigger]
        s.conns.contains_key(key) && s.conns[key].pending_rx ==> s.rxq.items.contains(
            MuxerRx::ConnRx(key),
        )
}

/// What is in the queue stays there when something is pushed, as long as the
/// queue stays in sync; and what is pushed is then in the queue.
proof fn lemma_push_contains(q: RxQueue, rx: MuxerRx)
    ensures
        q.push(rx).synced ==> q.synced,
        q.push(rx).synced ==> forall|x: MuxerRx| #[trigger]
            q.items.contains(x) ==> q.push(rx).items.contains(x),
        q.push(rx).synced && rx is ConnRx ==> q.push(rx).items.contains(rx),
{
    if q.push(rx).synced {
        assert forall|x: MuxerRx| #[trigger] q.items.contains(x) implies q.push(rx).items.contains(
            x,
        ) by {
            let i = choose|i: int| 0 <= i < q.items.len() && q.items[i] == x;
            assert(q.push(rx).items[i] == x);
        }
        if rx is ConnRx {
            assert(q.push(rx).items[q.items.len() as int] == rx);
        }
    }
}

/// A new muxer keeps track of the connections that have something to deliver.
pub proof fn new_muxer_is_rx_tracked(cid: u64, epoll_fd: i32)
    ensures
        rx_tracked(MuxerState::initial(cid, epoll_fd)),
{
}

/// Bringing the RX queue into sync, killing, removing or adding connections,
/// packets from the guest, events and looking for the next packet do not lose
/// track of a connection that has something to deliver.
pub proof fn rx_tracking_is_kept(
    s: MuxerState,
    mid: MuxerState,
    key: ConnMapKey,
    conn: NewConn,
    ctl: Result<(), IoError>,
    pkt: VsockPacket,
    fd: i32,
    local_port: u32,
    peer_port: u32,
)
    requires
        rx_tracked(s),
    ensures
        s.rx_synced(mid) ==> rx_tracked(mid),
        rx_tracked(s.enq_rst(local_port, peer_port)),
        rx_tracked(s.kill_connection(key)),
        rx_tracked(s.remove_connection(key)),
        rx_tracked(s.insert_connection(key, conn, ctl)),
        rx_tracked(s.send_pkt(pkt)),
        rx_tracked(s.handle_event(fd)),
        rx_tracked(s.next_rx()),
{
    lemma_push_contains(s.rxq, MuxerRx::ConnRx(key));
    lemma_push_contains(s.rxq, MuxerRx::RstPkt { local_port, peer_port });
    lemma_push_contains(
        s.rxq,
        MuxerRx::RstPkt { local_port: pkt.dst_port, peer_port: pkt.src_port },
    );
    lemma_drop_stale(s);
    let d = s.drop_stale();
    let t = s.next_rx();
    if t.rxq.synced && d.rxq.items.len() > 0 && d.rxq.items[0] is RstPkt {
        assert forall|k: ConnMapKey| #[trigger]
            t.conns.contains_key(k) && t.conns[k].pending_rx implies t.rxq.items.contains(
            MuxerRx::ConnRx(k),
        ) by {
            assert(s.rxq.items.contains(MuxerRx::ConnRx(k)));
            let i = choose|i: int|
                0 <= i < d.rxq.items.len() && d.rxq.items[i] == MuxerRx::ConnRx(k);
            assert(t.rxq.items[i - 1] == MuxerRx::ConnRx(k));
        }
    }
}

/// A change of a connection does not lose track of a connection that has
/// something to deliver, however the epoll call that follows ends.
pub proof fn mutation_keeps_rx_tracking(
    s: MuxerState,
    key: ConnMapKey,
    report: ConnReport,
    ctl: Result<(), IoError>,
)
    requires
        rx_tracked(s),
    ensures
        rx_tracked(s.apply_conn_mutation(key, report)),
        rx_tracked(
            s.apply_conn_mutation(key, report).conn_mutation_done(
                key,
                s.mutation_step(key, report),
                ctl,
            ),
        ),
{
    let t = s.apply_conn_mutation(key, report);
    lemma_push_contains(s.rxq, MuxerRx::ConnRx(key));
    lemma_push_contains(t.rxq, MuxerRx::ConnRx(key));
}

/// Sweeping the kill queue does not lose track of a connection that has
/// something to deliver.
pub proof fn sweep_keeps_rx_tracking(
    s: MuxerState,
    now: u64,
    kills: Seq<ConnMapKey>,
    post: MuxerState,
)
    requires
        rx_tracked(s),
        s.swept(now, kills, post),
    ensures
        rx_tracked(post),
{
    let rounds = choose|rounds: nat| s.swept_in(rounds, now, kills, post);
    lemma_swept_in_keeps_rx_tracking(s, rounds, now, kills, post);
}

proof fn lemma_swept_in_keeps_rx_tracking(
    s: MuxerState,
    rounds: nat,
    now: u64,
    kills: Seq<ConnMapKey>,
    post: MuxerState,
)
    requires
        rx_tracked(s),
        s.swept_in(rounds, now, kills, post),
    ensures
        rx_tracked(post),
    decreases rounds,
{
    if rounds == 0 {
        lemma_sweep_due_keeps_rx_tracking(s, now);
    } else {
        let (mid, q, before) = lemma_last_round(s, rounds, now, kills, post);
        lemma_swept_in_keeps_rx_tracking(s, (rounds - 1) as nat, now, before, mid);
        lemma_sweep_due_keeps_rx_tracking(MuxerState { killq: q, ..mid }, now);
    }
}

proof fn lemma_sweep_due_keeps_rx_tracking(s: MuxerState, now: u64)
    requires
        rx_tracked(s),
    ensures
        rx_tracked(s.sweep_due(now)),
    decreases s.killq.items.len(),
{
    if s.killq.front_due(now) {
        let popped = MuxerState { killq: s.killq.pop(), ..s };
        lemma_push_contains(s.rxq, MuxerRx::ConnRx(s.killq.items[0].key));
        assert(rx_tracked(popped));
        assert(rx_tracked(s.sweep_one(now)));
        lemma_sweep_due_keeps_rx_tracking(s.sweep_one(now), now);
    }
}

/// Asking the connection at the front of the RX queue for its packet, after
/// which it has more to deliver if `pending`, does not lose track of a
/// connection that has something to deliver. The exception is a connection that
/// had nothing more until the acknowledgement that followed gave it something:
/// its reset, if the acknowledgement failed.
pub proof fn fetch_keeps_rx_tracking(
    s: MuxerState,
    key: ConnMapKey,
    report: ConnReport,
    ctl: Result<(), IoError>,
    pending: bool,
)
    requires
        rx_tracked(s),
        s.conns.contains_key(key),
        s.rxq.items.len() > 0,
        s.rxq.items[0] == MuxerRx::ConnRx(key),
        report.status.pending_rx ==> pending,
        s.ack_failed(key, report.state, report.ack) ==> pending,
    ensures
        rx_tracked(
            s.apply_conn_mutation(key, report).conn_mutation_done(
                key,
                s.mutation_step(key, report),
                ctl,
            ).fetched(pending),
        ),
{
    mutation_keeps_rx_tracking(s, key, report, ctl);
    let t = s.apply_conn_mutation(key, report);
    let step = s.mutation_step(key, report);
    let u = t.conn_mutation_done(key, step, ctl);
    let v = u.fetched(pending);
    lemma_push_contains(t.rxq, MuxerRx::ConnRx(key));
    assert(t.rxq.items[0] == MuxerRx::ConnRx(key));
    assert(u.rxq.items[0] == MuxerRx::ConnRx(key));
    if !pending && v.rxq.synced {
        assert(t.rxq == s.rxq);
        assert forall|k: ConnMapKey| #[trigger]
            v.conns.contains_key(k) && v.conns[k].pending_rx implies v.rxq.items.contains(
            MuxerRx::ConnRx(k),
        ) by {
            if k == key {
                // The epoll call failed, so that the connection was killed and
                // queued once more.
                assert(MuxerState::mutation_kills(step, ctl));
                assert(u.rxq == t.rxq.push(MuxerRx::ConnRx(key)));
                assert(v.rxq.items[t.rxq.items.len() - 1] == MuxerRx::ConnRx(key));
            } else {
                let i = choose|i: int|
                    0 <= i < u.rxq.items.len() && u.rxq.items[i] == MuxerRx::ConnRx(k);
                assert(v.rxq.items[i - 1] == MuxerRx::ConnRx(k));
            }
        }
    }
}

/// A muxer that says it has nothing to deliver delivers nothing, and is not
/// changed by being asked.
pub proof fn nothing_pending_means_no_data(s: MuxerState, mid: MuxerState, pkt: VsockPacket)
    requires
        !s.may_have_rx(),
        s.rx_synced(mid),
    ensures
        mid.next_step() == RecvStep::NoData,
        mid.next_rx() == s,
        mid.next_pkt(pkt) == pkt,
{
}

/// A muxer that says it has nothing to deliver has no connection with a packet
/// for the guest.
pub proof fn nothing_pending_means_no_connection_pending(s: MuxerState, key: ConnMapKey)
    requires
        rx_tracked(s),
        !s.may_have_rx(),
    ensures
        s.conns.contains_key(key) ==> !s.conns[key].pending_rx,
{
}

/// A killed connection has a reset for the guest, and the RX queue tells of it
/// or is out of sync.
pub proof fn killed_connection_will_be_asked(s: MuxerState, key: ConnMapKey)
    requires
        rx_tracked(s),
        s.conns.contains_key(key),
    ensures
        ({
            let t = s.kill_connection(key);
            &&& t.conns[key].state == ConnState::Killed
            &&& t.conns[key].pending_rx
            &&& t.conns[key].fd == s.conns[key].fd
            &&& t.conns.remove(key) == s.conns.remove(key)
            &&& t.rxq.items.contains(MuxerRx::ConnRx(key)) || !t.rxq.synced
            &&& t.may_have_rx()
        }),
{
    lemma_push_contains(s.rxq, MuxerRx::ConnRx(key));
    let t = s.kill_connection(key);
    assert(t.conns.remove(key) =~= s.conns.remove(key));
}

/// A connection that is to be asked for its packet is an active one, and stays
/// at the front of the RX queue until it was asked.
pub proof fn connection_to_fetch_from_is_in_front(s: MuxerState, key: ConnMapKey)
    requires
        s.next_step() == RecvStep::Fetch(key),
    ensures
        s.conns.contains_key(key),
        s.next_rx().conns == s.conns,
        s.next_rx().rxq.items.len() > 0,
        s.next_rx().rxq.items[0] == MuxerRx::ConnRx(key),
{
    lemma_drop_stale(s);
    lemma_drop_stale_front(s);
}

proof fn lemma_drop_stale_front(s: MuxerState)
    ensures
        s.drop_stale().rxq.items.len() > 0 ==> (s.drop_stale().rxq.items[0] matches MuxerRx::ConnRx(
            key,
        ) ==> s.conns.contains_key(key)),
    decreases s.rxq.items.len(),
{
    if s.rxq.items.len() > 0 && (s.rxq.items[0] matches MuxerRx::ConnRx(key)
        && !s.conns.contains_key(key)) {
        lemma_drop_stale_front(MuxerState { rxq: s.rxq.pop(), ..s });
    }
}

// ---- Polling ----

/// What is polled, and for which events, according to the muxer.
pub open spec fn polled(s: MuxerState) -> Map<i32, EventSet> {
    s.listeners.map_values(|l: EpollListener| l.spec_events())
}

/// What is polled after a successful epoll call.
pub open spec fn polled_after(polled: Map<i32, EventSet>, ctl: EpollCtl) -> Map<i32, EventSet> {
    match ctl.op {
        CtlOp::Add => polled.insert(ctl.fd, ctl.events),
        CtlOp::Modify => polled.insert(ctl.fd, ctl.events),
        CtlOp::Delete => polled.remove(ctl.fd),
    }
}

/// What is polled after an epoll call that may not have been necessary.
pub open spec fn polled_after_opt(
    polled: Map<i32, EventSet>,
    ctl: Option<EpollCtl>,
) -> Map<i32, EventSet> {
    match ctl {
        Some(c) => polled_after(polled, c),
        None => polled,
    }
}

/// The muxer's listeners are what epoll polls: each operation changes them as
/// the epoll call that it asks for changes what is polled, if that call
/// succeeds.
pub proof fn listeners_follow_epoll(
    s: MuxerState,
    key: ConnMapKey,
    report: ConnReport,
    conn: NewConn,
    fd: i32,
    listener: EpollListener,
    backend: VsockBackendType,
    is_peer_backend: bool,
)
    ensures
        polled(s.remove_connection(key)) == polled_after_opt(polled(s), s.removal(key).ctl),
        polled(s.remove_listener(fd)) == polled_after_opt(polled(s), s.unlisten_ctl(fd)),
        polled(
            s.apply_conn_mutation(key, report).conn_mutation_done(
                key,
                s.mutation_step(key, report),
                Ok(()),
            ),
        ) == polled_after_opt(polled(s), s.mutation_step(key, report).spec_ctl()),
        s.conns.len() < MAX_CONNECTIONS ==> polled(s.insert_connection(key, conn, Ok(())))
            == polled_after(polled(s), EpollCtl::spec_add(conn.status.fd, conn.evset)),
        polled(s.add_listener(fd, listener, Ok(()))) == polled_after(
            polled(s),
            EpollCtl::spec_add(fd, listener.spec_events()),
        ),
        polled(s.register_backend(backend, fd, is_peer_backend)) == polled_after(
            polled(s),
            EpollCtl::spec_add(fd, crate::events::epollin_set()),
        ),
        polled(s.handle_event(fd)) == match s.event_step(fd) {
            EventStep::ReadPort { ctl, .. } => polled_after(polled(s), ctl),
            _ => polled(s),
        },
{
    assert(polled(s.remove_connection(key)) =~= polled_after_opt(polled(s), s.removal(key).ctl));
    assert(polled(s.remove_listener(fd)) =~= polled_after_opt(polled(s), s.unlisten_ctl(fd)));
    let t = s.apply_conn_mutation(key, report).conn_mutation_done(
        key,
        s.mutation_step(key, report),
        Ok(()),
    );
    assert(polled(t) =~= polled_after_opt(polled(s), s.mutation_step(key, report).spec_ctl()));
    if s.conns.len() < MAX_CONNECTIONS {
        assert(polled(s.insert_connection(key, conn, Ok(()))) =~= polled_after(
            polled(s),
            EpollCtl::spec_add(conn.status.fd, conn.evset),
        ));
    }
    assert(polled(s.add_listener(fd, listener, Ok(()))) =~= polled_after(
        polled(s),
        EpollCtl::spec_add(fd, listener.spec_events()),
    ));
    assert(polled(s.register_backend(backend, fd, is_peer_backend)) =~= polled_after(
        polled(s),
        EpollCtl::spec_add(fd, crate::events::epollin_set()),
    ));
    assert(polled(s.handle_event(fd)) =~= match s.event_step(fd) {
        EventStep::ReadPort { ctl, .. } => polled_after(polled(s), ctl),
        _ => polled(s),
    });
}

/// A file descriptor that could not be registered gets no listener.
pub proof fn failed_registration_adds_no_listener(
    s: MuxerState,
    key: ConnMapKey,
    conn: NewConn,
    fd: i32,
    listener: EpollListener,
    e: IoError,
)
    ensures
        s.add_listener(fd, listener, Err(e)) == s,
        s.insert_connection(key, conn, Err(e)) == s,
        s.conn_mutation_done(key, MutationStep::Register { fd, listener }, Err(e)).listeners
            == s.listeners,
{
}

/// After a change of a connection, and the epoll call for it, the connection is
/// polled for exactly the events it is interested in.
pub proof fn connection_is_polled_as_it_wishes(
    s: MuxerState,
    key: ConnMapKey,
    report: ConnReport,
)
    requires
        s.conns.contains_key(key),
    ensures
        ({
            let t = s.apply_conn_mutation(key, report).conn_mutation_done(
                key,
                s.mutation_step(key, report),
                Ok(()),
            );
            let fd = report.status.fd;
            if report.evset.bits == 0 {
                !t.listeners.contains_key(fd)
            } else {
                t.listeners.contains_key(fd) && (t.listeners[fd] matches EpollListener::Connection {
                    evset,
                    ..
                } && evset == report.evset)
            }
        }),
{
}

/// A connection that was handed something to do and did not change changes
/// nothing, and needs no epoll call.
pub proof fn unchanged_connection_changes_nothing(
    s: MuxerState,
    key: ConnMapKey,
    report: ConnReport,
)
    requires
        s.conns.contains_key(key),
        report.status == s.conns[key],
        report.state == report.status.state,
        report.began <= report.ended,
        s.listeners.contains_key(report.status.fd),
        s.listeners[report.status.fd] is Connection,
        s.listeners[report.status.fd].spec_events() == report.evset,
        report.evset.bits != 0,
    ensures
        s.apply_conn_mutation(key, report) == s,
        s.mutation_step(key, report) == MutationStep::Done,
{
    assert(s.apply_conn_mutation(key, report).conns =~= s.conns);
}

// ---- Termination of connections ----

/// Sweeping the kill queue changes no connection but those that have expired,
/// which it kills and names; and nothing but connections and queues.
pub proof fn sweep_kills_only_expired(
    s: MuxerState,
    now: u64,
    kills: Seq<ConnMapKey>,
    post: MuxerState,
    key: ConnMapKey,
)
    requires
        s.swept(now, kills, post),
    ensures
        post.conns.contains_key(key) == s.conns.contains_key(key),
        kills.contains(key) ==> {
            &&& s.conns.contains_key(key)
            &&& s.conns[key].expiry is Some
            &&& s.conns[key].expiry->Some_0 <= now
            &&& post.conns[key] == (ConnStatus {
                state: ConnState::Killed,
                pending_rx: true,
                ..s.conns[key]
            })
        },
        s.conns.contains_key(key) && !kills.contains(key) ==> post.conns[key] == s.conns[key],
        post == (MuxerState { conns: post.conns, rxq: post.rxq, killq: post.killq, ..s }),
{
    let rounds = choose|rounds: nat| s.swept_in(rounds, now, kills, post);
    lemma_swept_in(s, rounds, now, kills, post, key);
}

proof fn lemma_swept_in(
    s: MuxerState,
    rounds: nat,
    now: u64,
    kills: Seq<ConnMapKey>,
    post: MuxerState,
    key: ConnMapKey,
)
    requires
        s.swept_in(rounds, now, kills, post),
    ensures
        post.conns.contains_key(key) == s.conns.contains_key(key),
        kills.contains(key) ==> s.conns.contains_key(key) && s.conns[key].spec_has_expired(now)
            && post.conns[key] == s.conns[key].spec_kill(),
        s.conns.contains_key(key) && !kills.contains(key) ==> post.conns[key] == s.conns[key],
        post == (MuxerState { conns: post.conns, rxq: post.rxq, killq: post.killq, ..s }),
        !post.killq.front_due(now),
    decreases rounds,
{
    if rounds == 0 {
        lemma_sweep_due(s, now, key);
    } else {
        let (mid, q, before) = lemma_last_round(s, rounds, now, kills, post);
        let remade = MuxerState { killq: q, ..mid };
        let more = remade.sweep_kills(now);
        lemma_swept_in(s, (rounds - 1) as nat, now, before, mid, key);
        lemma_sweep_due(remade, now, key);
        lemma_contains_either(before, more, key);
    }
}

proof fn lemma_contains_either(a: Seq<ConnMapKey>, b: Seq<ConnMapKey>, key: ConnMapKey)
    ensures
        (a + b).contains(key) <==> a.contains(key) || b.contains(key),
{
    if a.contains(key) {
        let i = choose|i: int| 0 <= i < a.len() && a[i] == key;
        assert((a + b)[i] == key);
    }
    if b.contains(key) {
        let i = choose|i: int| 0 <= i < b.len() && b[i] == key;
        assert((a + b)[a.len() + i] == key);
    }
    if (a + b).contains(key) {
        let i = choose|i: int| 0 <= i < (a + b).len() && (a + b)[i] == key;
        assert(if i < a.len() {
            a[i] == key
        } else {
            b[i - a.len()] == key
        });
    }
}

proof fn lemma_sweep_due(s: MuxerState, now: u64, key: ConnMapKey)
    ensures
        ({
            let t = s.sweep_due(now);
            let kills = s.sweep_kills(now);
            &&& t.conns.contains_key(key) == s.conns.contains_key(key)
            &&& s.conns.contains_key(key) && kills.contains(key) ==> t.conns[key]
                == s.conns[key].spec_kill() && s.conns[key].spec_has_expired(now)
            &&& s.conns.contains_key(key) && !kills.contains(key) ==> t.conns[key] == s.conns[key]
            &&& kills.contains(key) ==> s.conns.contains_key(key)
            &&& t == (MuxerState { conns: t.conns, rxq: t.rxq, killq: t.killq, ..s })
            &&& t.killq.synced == s.killq.synced
            &&& !t.killq.front_due(now)
        }),
    decreases s.killq.items.len(),
{
    if s.killq.front_due(now) {
        let t = s.sweep_one(now);
        lemma_sweep_due(t, now, key);
        let k0 = s.killq.items[0].key;
        let rest = t.sweep_kills(now);
        if s.front_expired(now) {
            let kills = seq![k0] + rest;
            assert(kills[0] == k0);
            if rest.contains(key) {
                let i = choose|i: int| 0 <= i < rest.len() && rest[i] == key;
                assert(kills[i + 1] == key);
            }
            if kills.contains(key) && key != k0 {
                let i = choose|i: int| 0 <= i < kills.len() && kills[i] == key;
                assert(rest[i - 1] == key);
            }
        }
    }
}

/// Once the kill queue was swept at a time, nothing in it is due at that time,
/// and sweeping it again at that time does nothing.
pub proof fn sweeping_twice_is_sweeping_once(
    s: MuxerState,
    now: u64,
    kills: Seq<ConnMapKey>,
    post: MuxerState,
    kills_again: Seq<ConnMapKey>,
    again: MuxerState,
)
    requires
        s.swept(now, kills, post),
        post.swept(now, kills_again, again),
    ensures
        !post.killq.front_due(now),
        kills_again.len() == 0,
        again == post,
{
    let rounds = choose|rounds: nat| s.swept_in(rounds, now, kills, post);
    lemma_swept_in(s, rounds, now, kills, post, ConnMapKey { local_port: 0, peer_port: 0 });
    let rounds_again = choose|rounds: nat| post.swept_in(rounds, now, kills_again, again);
    lemma_nothing_due(post, rounds_again, now, kills_again, again);
}

proof fn lemma_nothing_due(
    s: MuxerState,
    rounds: nat,
    now: u64,
    kills: Seq<ConnMapKey>,
    post: MuxerState,
)
    requires
        !s.killq.spent(),
        !s.killq.front_due(now),
        s.swept_in(rounds, now, kills, post),
    ensures
        post == s,
        kills.len() == 0,
    decreases rounds,
{
    if rounds > 0 {
        let (mid, q, before) = lemma_last_round(s, rounds, now, kills, post);
        lemma_nothing_due(s, (rounds - 1) as nat, now, before, mid);
    }
}

/// Whether `item` names a connection that is not killed, and the time at which
/// it is to be terminated.
pub open spec fn timed(conns: Map<ConnMapKey, ConnStatus>, item: KillItem) -> bool {
    &&& conns.contains_key(item.key)
    &&& conns[item.key].expiry is Some
    &&& conns[item.key].expiry->Some_0 == item.kill_time
    &&& conns[item.key].state != ConnState::Killed
}

/// Whether the kill queue, if it is in sync, tells of every connection whose
/// kill timer is armed, with its time.
pub open spec fn kills_tracked(s: MuxerState) -> bool {
    s.killq.synced ==> forall|item: KillItem| #[trigger]
        timed(s.conns, item) ==> s.killq.items.contains(item)
}

/// A sweep after which the kill queue is in sync has killed every connection
/// that had timed out.
pub proof fn sweep_kills_all_that_timed_out(
    s: MuxerState,
    now: u64,
    kills: Seq<ConnMapKey>,
    post: MuxerState,
    key: ConnMapKey,
)
    requires
        s.inv(),
        kills_tracked(s),
        s.swept(now, kills, post),
        post.killq.synced,
        s.conns.contains_key(key),
        s.conns[key].expiry matches Some(t) && t < now,
    ensures
        post.conns[key].state == ConnState::Killed,
        s.conns[key].state != ConnState::Killed ==> kills.contains(key) && post.conns[key]
            == s.conns[key].spec_kill(),
{
    let rounds = choose|rounds: nat| s.swept_in(rounds, now, kills, post);
    lemma_swept_in(s, rounds, now, kills, post, key);
    lemma_swept_in_keeps_kill_tracking(s, rounds, now, kills, post);
    if post.conns[key].state != ConnState::Killed {
        let item = KillItem { key, kill_time: s.conns[key].expiry->Some_0 };
        assert(timed(post.conns, item));
        let i = choose|i: int| 0 <= i < post.killq.items.len() && post.killq.items[i] == item;
        assert(post.killq.items[0].kill_time <= post.killq.items[i].kill_time);
    }
}

/// A connection whose time has passed, and that stands in the kill queue with
/// that time, is killed by a sweep, whether or not the queue is in sync.
pub proof fn queued_connection_is_killed_in_time(
    s: MuxerState,
    now: u64,
    kills: Seq<ConnMapKey>,
    post: MuxerState,
    item: KillItem,
)
    requires
        s.inv(),
        s.swept(now, kills, post),
        s.killq.items.contains(item),
        s.conns.contains_key(item.key),
        s.conns[item.key].expiry == Some(item.kill_time),
        item.kill_time < now,
    ensures
        kills.contains(item.key),
        post.conns[item.key] == s.conns[item.key].spec_kill(),
{
    let rounds = choose|rounds: nat| s.swept_in(rounds, now, kills, post);
    lemma_due_item_is_killed(s, now, item);
    lemma_later_rounds_name_the_first(s, rounds, now, kills, post, item.key);
    lemma_swept_in(s, rounds, now, kills, post, item.key);
}

proof fn lemma_later_rounds_name_the_first(
    s: MuxerState,
    rounds: nat,
    now: u64,
    kills: Seq<ConnMapKey>,
    post: MuxerState,
    key: ConnMapKey,
)
    requires
        s.swept_in(rounds, now, kills, post),
        s.sweep_kills(now).contains(key),
    ensures
        kills.contains(key),
    decreases rounds,
{
    if rounds > 0 {
        let (mid, q, before) = lemma_last_round(s, rounds, now, kills, post);
        lemma_later_rounds_name_the_first(s, (rounds - 1) as nat, now, before, mid, key);
        lemma_contains_either(before, MuxerState { killq: q, ..mid }.sweep_kills(now), key);
    }
}

proof fn lemma_due_item_is_killed(s: MuxerState, now: u64, item: KillItem)
    requires
        crate::killq::in_order(s.killq.items),
        s.killq.items.contains(item),
        s.conns.contains_key(item.key),
        s.conns[item.key].expiry == Some(item.kill_time),
        item.kill_time < now,
    ensures
        s.sweep_kills(now).contains(item.key),
    decreases s.killq.items.len(),
{
    let i = choose|i: int| 0 <= i < s.killq.items.len() && s.killq.items[i] == item;
    assert(s.killq.items[0].kill_time <= s.killq.items[i].kill_time);
    let t = s.sweep_one(now);
    let rest = t.sweep_kills(now);
    let first = seq![s.killq.items[0].key];
    if i == 0 {
        assert(first[0] == item.key);
    } else {
        assert(t.killq.items[i - 1] == item);
        crate::killq::lemma_pop_in_order(s.killq);
        lemma_due_item_is_killed(t, now, item);
    }
    lemma_contains_either(first, rest, item.key);
}

/// A sweep leaves the kill queue in sync, or with an item whose time is yet to
/// come: it does not stop at a queue that is used up and does not tell of all
/// connections.
pub proof fn sweep_leaves_no_spent_queue(
    s: MuxerState,
    now: u64,
    kills: Seq<ConnMapKey>,
    post: MuxerState,
)
    requires
        s.swept(now, kills, post),
    ensures
        post.killq.synced || (post.killq.items.len() > 0 && post.killq.items[0].kill_time >= now),
{
    let rounds = choose|rounds: nat| s.swept_in(rounds, now, kills, post);
    lemma_swept_in(s, rounds, now, kills, post, ConnMapKey { local_port: 0, peer_port: 0 });
}

/// A new muxer keeps track of the connections whose kill timer is armed.
pub proof fn new_muxer_tracks_kills(cid: u64, epoll_fd: i32)
    ensures
        kills_tracked(MuxerState::initial(cid, epoll_fd)),
{
}

/// What is in the kill queue stays there when something is pushed, as long as
/// the queue stays in sync; and what is pushed is then in the queue.
pub proof fn lemma_killq_push_contains(q: KillQueue, key: ConnMapKey, kill_time: u64)
    requires
        crate::killq::in_order(q.items),
    ensures
        q.push(key, kill_time).synced ==> {
            &&& q.synced
            &&& q.push(key, kill_time).items.contains(KillItem { key, kill_time })
            &&& forall|x: KillItem| #[trigger]
                q.items.contains(x) ==> q.push(key, kill_time).items.contains(x)
        },
{
    let r = q.push(key, kill_time);
    crate::killq::lemma_push_in_order(q, key, kill_time);
    if r.synced {
        let at = crate::killq::place_by_time(q.items, kill_time);
        assert(r.items[at] == KillItem { key, kill_time });
        assert forall|x: KillItem| #[trigger] q.items.contains(x) implies r.items.contains(x) by {
            let i = choose|i: int| 0 <= i < q.items.len() && q.items[i] == x;
            assert(r.items[if i < at { i } else { i + 1 }] == x);
        }
    }
}

/// Whether a connection has no kill timer armed after a change, or the one it
/// had before, or one that was armed by the change for a time to come.
pub open spec fn timer_noted(before: ConnStatus, report: ConnReport) -> bool {
    ||| report.status.expiry is None
    ||| report.status.state == ConnState::Killed
    ||| report.status.expiry == before.expiry && before.state != ConnState::Killed
    ||| {
        &&& before.expiry is Some ==> before.expiry->Some_0 <= report.began
        &&& report.status.expiry is Some
        &&& report.status.expiry->Some_0 > report.ended
    }
}

/// A change of a connection does not lose track of the connections whose kill
/// timer is armed, however the epoll call that follows ends. The exceptions are
/// a connection whose armed timer is moved, one whose timer has run out by the
/// time it is looked at, and one that comes back to life.
pub proof fn mutation_keeps_kill_tracking(
    s: MuxerState,
    key: ConnMapKey,
    report: ConnReport,
    ctl: Result<(), IoError>,
)
    requires
        s.inv(),
        kills_tracked(s),
        s.conns.contains_key(key) ==> timer_noted(s.conns[key], report),
    ensures
        kills_tracked(
            s.apply_conn_mutation(key, report).conn_mutation_done(
                key,
                s.mutation_step(key, report),
                ctl,
            ),
        ),
{
    let t = s.apply_conn_mutation(key, report);
    let u = t.conn_mutation_done(key, s.mutation_step(key, report), ctl);
    if u.killq.synced {
        if report.status.expiry is Some {
            lemma_killq_push_contains(s.killq, key, report.status.expiry->Some_0);
        }
        assert forall|item: KillItem| #[trigger] timed(u.conns, item) implies
        u.killq.items.contains(item) by {
            if item.key != key || !s.conns.contains_key(key) || s.conns[key].expiry == Some(
                item.kill_time,
            ) && s.conns[key].state != ConnState::Killed {
                assert(timed(s.conns, item));
            }
        }
    }
}

/// Sweeping the kill queue does not lose track of the connections whose kill
/// timer is armed.
pub proof fn sweep_keeps_kill_tracking(
    s: MuxerState,
    now: u64,
    kills: Seq<ConnMapKey>,
    post: MuxerState,
)
    requires
        s.inv(),
        kills_tracked(s),
        s.swept(now, kills, post),
    ensures
        kills_tracked(post),
{
    let rounds = choose|rounds: nat| s.swept_in(rounds, now, kills, post);
    lemma_swept_in_keeps_kill_tracking(s, rounds, now, kills, post);
}

proof fn lemma_swept_in_keeps_kill_tracking(
    s: MuxerState,
    rounds: nat,
    now: u64,
    kills: Seq<ConnMapKey>,
    post: MuxerState,
)
    requires
        crate::killq::in_order(s.killq.items),
        kills_tracked(s),
        s.swept_in(rounds, now, kills, post),
    ensures
        crate::killq::in_order(post.killq.items),
        kills_tracked(post),
    decreases rounds,
{
    if rounds == 0 {
        lemma_sweep_due_keeps_kill_tracking(s, now);
    } else {
        let (mid, q, before) = lemma_last_round(s, rounds, now, kills, post);
        let remade = MuxerState { killq: q, ..mid };
        assert forall|item: KillItem| #[trigger]
            timed(remade.conns, item) && q.synced implies q.items.contains(item) by {
            assert(crate::killq::armed(remade.conns, item));
        }
        lemma_sweep_due_keeps_kill_tracking(remade, now);
    }
}

proof fn lemma_sweep_due_keeps_kill_tracking(s: MuxerState, now: u64)
    requires
        crate::killq::in_order(s.killq.items),
        kills_tracked(s),
    ensures
        crate::killq::in_order(s.sweep_due(now).killq.items),
        kills_tracked(s.sweep_due(now)),
    decreases s.killq.items.len(),
{
    if s.killq.front_due(now) {
        let t = s.sweep_one(now);
        crate::killq::lemma_pop_in_order(s.killq);
        if t.killq.synced {
            assert forall|item: KillItem| #[trigger] timed(t.conns, item) implies
            t.killq.items.contains(item) by {
                assert(timed(s.conns, item));
                let i = choose|i: int| 0 <= i < s.killq.items.len() && s.killq.items[i] == item;
                assert(t.killq.items[i - 1] == item);
            }
        }
        lemma_sweep_due_keeps_kill_tracking(t, now);
    }
}

/// Killing and removing connections, and adding one without a kill timer, do
/// not lose track of the connections whose kill timer is armed.
pub proof fn kill_tracking_is_kept(
    s: MuxerState,
    key: ConnMapKey,
    conn: NewConn,
    ctl: Result<(), IoError>,
)
    requires
        kills_tracked(s),
    ensures
        kills_tracked(s.kill_connection(key)),
        kills_tracked(s.remove_connection(key)),
        conn.status.expiry is None ==> kills_tracked(s.insert_connection(key, conn, ctl)),
{
    assert forall|item: KillItem| #[trigger]
        timed(s.kill_connection(key).conns, item) implies timed(
        s.conns,
        item,
    ) by {}
    assert forall|item: KillItem| #[trigger]
        timed(s.remove_connection(key).conns, item) implies timed(
        s.conns,
        item,
    ) by {}
    if conn.status.expiry is None {
        assert forall|item: KillItem| #[trigger]
            timed(
                s.insert_connection(key, conn, ctl).conns,
                item,
            ) implies timed(s.conns, item) by {}
    }
}

/// A connection that is removed is gone, and so are its listener and its claim
/// to its host-side port; all other connections stay.
pub proof fn removed_connection_is_gone(s: MuxerState, key: ConnMapKey, other: ConnMapKey)
    requires
        other != key,
    ensures
        ({
            let t = s.remove_connection(key);
            &&& !t.conns.contains_key(key)
            &&& !t.used_ports.contains(key.local_port)
            &&& s.conns.contains_key(key) ==> !t.listeners.contains_key(s.conns[key].fd)
            &&& t.conns.contains_key(other) == s.conns.contains_key(other)
            &&& s.conns.contains_key(other) ==> t.conns[other] == s.conns[other]
            &&& t.rxq == s.rxq
        }),
{
}

// ---- Routing ----

/// A packet that the guest sends to an active connection reaches it, unless it
/// resets the connection, which is then removed.
pub proof fn packets_reach_their_connection(s: MuxerState, pkt: VsockPacket)
    requires
        pkt.type_ == VSOCK_TYPE_STREAM,
        pkt.dst_cid == VSOCK_HOST_CID,
        s.conns.contains_key(MuxerState::tx_key(pkt)),
    ensures
        pkt.op != VSOCK_OP_RST ==> s.send_step(pkt) == SendStep::Forward(MuxerState::tx_key(pkt))
            && s.send_pkt(pkt) == s,
        pkt.op == VSOCK_OP_RST ==> s.send_step(pkt) == SendStep::Removed(
            s.removal(MuxerState::tx_key(pkt)),
        ) && !s.send_pkt(pkt).conns.contains_key(MuxerState::tx_key(pkt)),
{
}

/// Once the connection that the guest requests by a packet was added, the
/// packets that follow with the same ports are forwarded to it.
pub proof fn requested_connection_gets_its_packets(
    s: MuxerState,
    request: VsockPacket,
    conn: NewConn,
    ctl: Result<(), IoError>,
    pkt: VsockPacket,
)
    requires
        s.insert_result(ctl) is Ok,
        pkt.type_ == VSOCK_TYPE_STREAM,
        pkt.dst_cid == VSOCK_HOST_CID,
        pkt.src_port == request.src_port,
        pkt.dst_port == request.dst_port,
        pkt.op != VSOCK_OP_RST,
    ensures
        ({
            let key = MuxerState::tx_key(request);
            let t = s.insert_connection(key, conn, ctl);
            &&& t.conns[key] == conn.status
            &&& t.send_step(pkt) == SendStep::Forward(key)
        }),
{
}

/// A connection is reset towards the guest under the same key under which the
/// guest's packets find it.
pub proof fn reset_answers_the_connection(cid: u64, pkt: VsockPacket)
    ensures
        MuxerState::rx_key(VsockPacket::spec_rst(cid, pkt.dst_port, pkt.src_port))
            == MuxerState::tx_key(pkt),
{
}

/// Packets for other context ids change nothing and are answered by nothing.
pub proof fn packets_for_others_are_dropped(s: MuxerState, pkt: VsockPacket)
    requires
        pkt.type_ == VSOCK_TYPE_STREAM,
        pkt.dst_cid != VSOCK_HOST_CID,
    ensures
        s.send_pkt(pkt) == s,
        s.send_step(pkt) == SendStep::Dropped,
{
}

// ---- Backends ----

/// A backend can be added only once; and the backend for guest-initiated
/// connections, once added, is asked for a host stream on a connection request.
pub proof fn backend_is_added_once(
    s: MuxerState,
    backend: VsockBackendType,
    fd: i32,
    is_peer_backend: bool,
    ctl: Result<(), IoError>,
    pkt: VsockPacket,
)
    requires
        s.backend_result(backend, Ok(())) is Ok,
    ensures
        ({
            let t = s.register_backend(backend, fd, is_peer_backend);
            &&& t.backend_result(backend, ctl) == Err::<(), Error>(
                Error::BackendRegistered(backend),
            )
            &&& is_peer_backend && pkt.type_ == VSOCK_TYPE_STREAM && pkt.dst_cid == VSOCK_HOST_CID
                && pkt.op == crate::defs::VSOCK_OP_REQUEST && !s.conns.contains_key(
                MuxerState::tx_key(pkt),
            ) ==> t.send_step(pkt) == (SendStep::Connect { backend, port: pkt.dst_port })
            &&& !is_peer_backend ==> t.peer_backend == s.peer_backend
        }),
{
}

// ---- Host-side ports ----

/// Which port is assigned next is determined by the ports in use and the one
/// that was assigned last.
pub proof fn next_free_port_is_determined(used: Set<u32>, last: u32, a: u32, b: u32)
    requires
        crate::ports::is_next_free(used, last, a),
        crate::ports::is_next_free(used, last, b),
    ensures
        a == b,
{
    let j = choose|k: int| crate::ports::first_free_at(used, last, a, k);
    let k = choose|k: int| crate::ports::first_free_at(used, last, b, k);
    if j < k {
        assert(used.contains(crate::ports::port_after(last, j)));
    } else if k < j {
        assert(used.contains(crate::ports::port_after(last, k)));
    }
}

/// A port that is in use is not assigned, whichever was assigned last.
pub proof fn port_in_use_is_not_assigned(used: Set<u32>, last: u32, a: u32, b: u32)
    requires
        used.contains(a),
        crate::ports::is_next_free(used, last, b),
    ensures
        a != b,
{
}

/// A port that is assigned was free, and is in use from then on until it is
/// made free, by itself or along with a connection on it: no other operation
/// makes a port free.
pub proof fn assigned_port_stays_in_use(
    s: MuxerState,
    port: u32,
    other: u32,
    key: ConnMapKey,
    report: ConnReport,
    step: MutationStep,
    conn: NewConn,
    ctl: Result<(), IoError>,
    fd: i32,
    listener: EpollListener,
    backend: VsockBackendType,
    is_peer_backend: bool,
    pkt: VsockPacket,
    pending: bool,
    now: u64,
    kills: Seq<ConnMapKey>,
    swept: MuxerState,
)
    requires
        s.swept(now, kills, swept),
    ensures
        crate::ports::is_next_free(s.used_ports, s.last_port, port) ==> !s.used_ports.contains(
            port,
        ),
        s.port_taken(port).used_ports.contains(port),
        s.used_ports.contains(port) ==> {
            &&& s.port_taken(other).used_ports.contains(port)
            &&& key.local_port != port ==> s.remove_connection(key).used_ports.contains(port)
            &&& pkt.dst_port != port ==> s.send_pkt(pkt).used_ports.contains(port)
            &&& s.send_step(pkt) !is Removed ==> s.send_pkt(pkt).used_ports.contains(port)
        },
        s.enq_rst(port, other).used_ports == s.used_ports,
        s.kill_connection(key).used_ports == s.used_ports,
        s.apply_conn_mutation(key, report).used_ports == s.used_ports,
        s.conn_mutation_done(key, step, ctl).used_ports == s.used_ports,
        s.insert_connection(key, conn, ctl).used_ports == s.used_ports,
        s.add_listener(fd, listener, ctl).used_ports == s.used_ports,
        s.remove_listener(fd).used_ports == s.used_ports,
        s.register_backend(backend, fd, is_peer_backend).used_ports == s.used_ports,
        s.handle_event(fd).used_ports == s.used_ports,
        s.next_rx().used_ports == s.used_ports,
        s.fetched(pending).used_ports == s.used_ports,
        swept.used_ports == s.used_ports,
{
    lemma_drop_stale(s);
    sweep_kills_only_expired(s, now, kills, swept, key);
}

/// The first port that a new muxer assigns is the lowest assignable one.
pub proof fn first_port_is_the_lowest(cid: u64, epoll_fd: i32)
    ensures
        ({
            let s = MuxerState::initial(cid, epoll_fd);
            crate::ports::is_next_free(
                s.used_ports,
                s.last_port,
                crate::ports::LOCAL_PORT_FIRST,
            )
        }),
{
    let s = MuxerState::initial(cid, epoll_fd);
    assert(crate::ports::first_free_at(
        s.used_ports,
        s.last_port,
        crate::ports::LOCAL_PORT_FIRST,
        1,
    ));
}

/// A host-initiated connection is told its own host-side port: the message
/// that acknowledges it reads "OK ", the port as a number that is read back as
/// that port, and a line end.
pub proof fn acknowledgement_tells_the_port(local_port: u32)
    ensures
        ({
            let msg = crate::state::ack_bytes(local_port);
            let n = msg.len() as int;
            let digits = msg.subrange(3, n - 1).map_values(|b: u8| b as char);
            &&& n >= 5
            &&& msg.take(3) == seq![79u8, 75u8, 32u8]
            &&& msg[n - 1] == 10
            &&& msg.subrange(3, n - 1) == crate::decimal::decimal_digits(local_port as nat)
            &&& crate::decimal::parsed_u32(digits) == Some(local_port)
        }),
{
    let msg = crate::state::ack_bytes(local_port);
    let n = msg.len() as int;
    crate::decimal::lemma_decimal_digits(local_port as nat);
    assert(msg.subrange(3, n - 1) =~= crate::decimal::decimal_digits(local_port as nat));
    assert(msg.take(3) =~= seq![79u8, 75u8, 32u8]);
    crate::decimal::decimal_round_trip(local_port);
}

/// A connection that runs into an error that it cannot recover from is killed,
/// and will be asked for its reset: the host end could not be told that it is
/// established, or its file descriptor could not be polled.
pub proof fn unrecoverable_error_kills(
    s: MuxerState,
    key: ConnMapKey,
    report: ConnReport,
    ctl: Result<(), IoError>,
)
    requires
        s.conns.contains_key(key),
        s.ack_failed(key, report.state, report.ack) || MuxerState::mutation_kills(
            s.mutation_step(key, report),
            ctl,
        ),
    ensures
        ({
            let t = s.apply_conn_mutation(key, report).conn_mutation_done(
                key,
                s.mutation_step(key, report),
                ctl,
            );
            t.conns.contains_key(key) && t.conns[key] == report.status.spec_kill()
        }),
{
}

// ---- Dispatch of events ----

/// Whether each polled connection is an active one, and polled by its own file
/// descriptor.
pub open spec fn listeners_linked(s: MuxerState) -> bool {
    forall|fd: i32| #[trigger]
        s.listeners.contains_key(fd) ==> (s.listeners[fd] matches EpollListener::Connection {
            key,
            ..
        } ==> s.conns.contains_key(key) && s.conns[key].fd == fd)
}

/// No connection is polled by a new muxer.
pub proof fn new_muxer_is_linked(cid: u64, epoll_fd: i32)
    ensures
        listeners_linked(MuxerState::initial(cid, epoll_fd)),
{
}

/// Every operation keeps each polled connection active and polled by its own
/// file descriptor, provided that a connection keeps its file descriptor, and
/// that a connection that is added does not replace an active one.
pub proof fn listeners_stay_linked(
    s: MuxerState,
    key: ConnMapKey,
    report: ConnReport,
    conn: NewConn,
    ctl: Result<(), IoError>,
    fd: i32,
    stream: LocalStream,
    backend: VsockBackendType,
    is_peer_backend: bool,
    pkt: VsockPacket,
    now: u64,
    kills: Seq<ConnMapKey>,
    swept: MuxerState,
)
    requires
        listeners_linked(s),
        s.swept(now, kills, swept),
    ensures
        listeners_linked(s.send_pkt(pkt)),
        listeners_linked(s.next_rx()),
        listeners_linked(s.kill_connection(key)),
        listeners_linked(s.remove_connection(key)),
        (s.conns.contains_key(key) ==> report.status.fd == s.conns[key].fd) ==> listeners_linked(
            s.apply_conn_mutation(key, report).conn_mutation_done(
                key,
                s.mutation_step(key, report),
                ctl,
            ),
        ),
        !s.conns.contains_key(key) ==> listeners_linked(s.insert_connection(key, conn, ctl)),
        listeners_linked(s.add_listener(fd, EpollListener::LocalStream(stream), ctl)),
        listeners_linked(s.register_backend(backend, fd, is_peer_backend)),
        listeners_linked(s.handle_event(fd)),
        listeners_linked(swept),
{
    lemma_drop_stale(s);
    sweep_kills_only_expired(s, now, kills, swept, key);
    assert forall|f: i32| #[trigger] swept.listeners.contains_key(f) implies (
    swept.listeners[f] matches EpollListener::Connection { key: k, .. } ==> swept.conns.contains_key(k)
        && swept.conns[k].fd == f) by {
        if let EpollListener::Connection { key: k, .. } = swept.listeners[f] {
            sweep_kills_only_expired(s, now, kills, swept, k);
        }
    }
}

/// An event of a polled connection reaches that connection, with the events it
/// is polled for.
pub proof fn events_reach_their_connection(s: MuxerState, fd: i32)
    requires
        listeners_linked(s),
        s.listeners.contains_key(fd),
        s.listeners[fd] is Connection,
    ensures
        s.handle_event(fd) == s,
        s.event_step(fd) matches EventStep::Notify { key, evset } && s.conns.contains_key(key)
            && s.conns[key].fd == fd && evset == s.listeners[fd].spec_events(),
{
}

/// A host stream that was accepted is read once it has something to say, and
/// is not listened to any more.
pub proof fn accepted_stream_is_read_once(s: MuxerState, stream: LocalStream)
    ensures
        ({
            let t = s.add_listener(stream.fd, EpollListener::LocalStream(stream), Ok(()));
            &&& t.event_step(stream.fd) == (EventStep::ReadPort {
                stream,
                ctl: EpollCtl::spec_delete(stream.fd),
            })
            &&& t.handle_event(stream.fd).event_step(stream.fd) == EventStep::Ignored
        }),
{
}

/// A backend that was added is asked for a host stream when it announces one,
/// and that stream is refused exactly when the connection limit is reached.
pub proof fn added_backend_is_asked(
    s: MuxerState,
    backend: VsockBackendType,
    fd: i32,
    is_peer_backend: bool,
)
    ensures
        ({
            let t = s.register_backend(backend, fd, is_peer_backend);
            &&& t.event_step(fd) == (EventStep::Accept {
                backend,
                refused: s.conns.len() >= MAX_CONNECTIONS,
            })
            &&& t.handle_event(fd) == t
        }),
{
}

/// What a host stream asks for is what its connection is made of: a stream
/// that sent the command for a port leads to a connection with that port on
/// the guest side and a fresh one on the host side, and its packets find it.
pub proof fn host_request_leads_to_its_connection(
    s: MuxerState,
    port: u32,
    local_port: u32,
    conn: NewConn,
    ctl: Result<(), IoError>,
    pkt: VsockPacket,
)
    requires
        crate::ports::is_next_free(s.used_ports, s.last_port, local_port),
        s.insert_result(ctl) is Ok,
        pkt.type_ == VSOCK_TYPE_STREAM,
        pkt.dst_cid == VSOCK_HOST_CID,
        pkt.op != VSOCK_OP_RST,
        pkt.src_port == port,
        pkt.dst_port == local_port,
    ensures
        ({
            let command = crate::request::connect_command(port);
            crate::request::requested_port_of_bytes(
                crate::request::request_after(command, command.len() as int).buf,
            ) == Some(port)
        }),
        ({
            let init = s.local_init(local_port, port);
            let key = ConnMapKey { local_port: init.local_port, peer_port: init.peer_port };
            let t = s.port_taken(local_port).insert_connection(key, conn, ctl);
            &&& !s.used_ports.contains(local_port)
            &&& t.used_ports.contains(local_port)
            &&& t.conns[key] == conn.status
            &&& t.send_step(pkt) == SendStep::Forward(key)
        }),
{
    crate::request::connect_command_is_understood(port);
}

} // verus!
