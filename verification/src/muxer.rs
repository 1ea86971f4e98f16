use std::collections::{HashMap, HashSet};

use vstd::prelude::*;

use crate::conn::{ConnMapKey, ConnState, ConnStatus, ConnTable};
use crate::decimal::push_decimal;
use crate::defs::{
    MAX_CONNECTIONS, VSOCK_HOST_CID, VSOCK_OP_REQUEST, VSOCK_OP_RST, VSOCK_TYPE_STREAM,
};
use crate::error::{Error, IoError, VsockBackendType};
use crate::events::{EpollCtl, EventSet};
use crate::killq::MuxerKillQ;
use crate::listener::{EpollListener, LocalStream};
use crate::packet::VsockPacket;
use crate::ports::LocalPorts;
use crate::request::PortRequest;
use crate::rxq::{MuxerRx, MuxerRxQ};
use crate::state::MuxerState;
use crate::steps::{
    AddStep, ConnInit, ConnReport, EventStep, MutationStep, NewConn, PeerAdded, RecvStep, Removal,
    SendStep, Unlistened,
};

verus! {

/// The vsock connection multiplexer.
pub struct VsockMuxer {
    cid: u64,
    epoll_fd: i32,
    conns: ConnTable,
    listeners: HashMap<i32, EpollListener>,
    rxq: MuxerRxQ,
    killq: MuxerKillQ,
    ports: LocalPorts,
    backends: HashSet<u32>,
    peer_backend: Option<VsockBackendType>,
}

impl View for VsockMuxer {
    type V = MuxerState;

    closed spec fn view(&self) -> MuxerState {
        MuxerState {
            cid: self.cid,
            epoll_fd: self.epoll_fd,
            conns: self.conns@,
            listeners: self.listeners@,
            rxq: self.rxq@,
            killq: self.killq@,
            used_ports: self.ports.used(),
            last_port: self.ports.last(),
            backends: Set::new(|b: VsockBackendType| self.backends@.contains(b.id)),
            peer_backend: self.peer_backend,
        }
    }
}

/// Replacing the value of a key keeps the number of keys, and adding a key
/// raises it by one.
proof fn lemma_len_insert<K, V>(m: Map<K, V>, key: K, value: V)
    requires
        m.dom().finite(),
    ensures
        m.insert(key, value).dom().finite(),
        m.insert(key, value).len() == if m.contains_key(key) {
            m.len()
        } else {
            m.len() + 1
        },
{
    if m.contains_key(key) {
        assert(m.insert(key, value).dom() =~= m.dom());
    }
}

/// The message that tells the host end that its connection is established.
pub fn ack_message(local_port: u32) -> (msg: Vec<u8>)
    ensures
        msg@ == crate::state::ack_bytes(local_port),
{
    let mut msg: Vec<u8> = Vec::new();
    msg.push(79);
    msg.push(75);
    msg.push(32);
    push_decimal(&mut msg, local_port);
    msg.push(10);
    assert(msg@ =~= crate::state::ack_bytes(local_port));
    msg
}

/// The connections whose kill timer is armed.
spec fn armed_keys(conns: Map<ConnMapKey, ConnStatus>) -> Set<ConnMapKey> {
    conns.dom().filter(
        |key: ConnMapKey| conns[key].expiry is Some && conns[key].state != ConnState::Killed,
    )
}

/// Dealing with what is due in a kill queue that was just made leaves fewer
/// timers armed, if it uses the queue up while that is out of sync; it never
/// leaves more.
proof fn lemma_sweep_disarms(s: MuxerState, now: u64)
    requires
        s.conns.dom().finite(),
        s.killq.made_from(s.conns),
    ensures
        s.sweep_due(now).killq.spent() ==> armed_keys(s.sweep_due(now).conns).len() < armed_keys(
            s.conns,
        ).len(),
{
    lemma_sweep_arms_none(s, now);
    if s.sweep_due(now).killq.spent() {
        let t = s.sweep_one(now);
        assert(s.killq.items.len() > 0);
        let key = s.killq.items[0].key;
        assert(crate::killq::armed(s.conns, s.killq.items[0]));
        lemma_sweep_arms_none(t, now);
        assert(armed_keys(s.conns).contains(key));
        assert(!armed_keys(t.conns).contains(key));
        armed_keys(s.sweep_due(now).conns).lemma_subset_not_in_lt(armed_keys(s.conns), key);
    }
}

proof fn lemma_sweep_arms_none(s: MuxerState, now: u64)
    requires
        s.conns.dom().finite(),
    ensures
        armed_keys(s.sweep_due(now).conns).subset_of(armed_keys(s.conns)),
        s.sweep_due(now).conns.dom() == s.conns.dom(),
        s.sweep_due(now).killq.synced == s.killq.synced,
    decreases s.killq.items.len(),
{
    if s.killq.front_due(now) {
        assert(s.sweep_one(now).conns.dom() =~= s.conns.dom());
        lemma_sweep_arms_none(s.sweep_one(now), now);
    }
}

impl VsockMuxer {
    /// What holds of every muxer.
    pub open spec fn wf(&self) -> bool {
        self@.inv()
    }

    /// A muxer for the guest `cid`, if its nested epoll file descriptor could
    /// be created.
    pub fn new(cid: u64, epoll_fd: Result<i32, IoError>) -> (muxer: Result<VsockMuxer, Error>)
        ensures
            match (epoll_fd, muxer) {
                (Ok(fd), Ok(m)) => m.wf() && m@ == MuxerState::initial(cid, fd),
                (Err(e), Err(err)) => err == Error::EpollFdCreate(e),
                _ => false,
            },
    {
        match epoll_fd {
            Ok(fd) => {
                let muxer = VsockMuxer {
                    cid,
                    epoll_fd: fd,
                    conns: ConnTable::new(),
                    listeners: HashMap::with_capacity(MAX_CONNECTIONS + 1),
                    rxq: MuxerRxQ::new(),
                    killq: MuxerKillQ::new(),
                    ports: LocalPorts::new(),
                    backends: HashSet::new(),
                    peer_backend: None,
                };
                assert(muxer@ =~= MuxerState::initial(cid, fd));
                Ok(muxer)
            },
            Err(e) => Err(Error::EpollFdCreate(e)),
        }
    }

    /// The file descriptor under which all others are polled.
    pub fn as_raw_fd(&self) -> (fd: i32)
        ensures
            fd == self@.epoll_fd,
    {
        self.epoll_fd
    }

    /// The events that the nested epoll file descriptor is to be polled for.
    pub fn get_polled_evset(&self) -> (evset: EventSet)
        ensures
            evset == crate::events::epollin_set(),
    {
        EventSet::epollin()
    }

    /// Whether there may be something to deliver to the guest.
    pub fn has_pending_rx(&self) -> (b: bool)
        ensures
            b == self@.may_have_rx(),
    {
        !self.rxq.is_empty() || !self.rxq.is_synced()
    }

    /// What is known about the connection with key `key`.
    pub fn conn_status(&self, key: ConnMapKey) -> (conn: Option<ConnStatus>)
        ensures
            conn == self@.conns.get(key),
    {
        self.conns.get(key)
    }

    /// Queues a reset for delivery, and says whether it found a place. A reset
    /// that finds none is dropped.
    pub fn enq_rst(&mut self, local_port: u32, peer_port: u32) -> (pushed: bool)
        requires
            old(self).wf(),
        ensures
            final(self).wf(),
            final(self)@ == old(self)@.enq_rst(local_port, peer_port),
            pushed == old(self)@.accepts_rst(local_port, peer_port),
    {
        self.rxq.push(MuxerRx::RstPkt { local_port, peer_port })
    }

    /// Schedules a connection for termination as soon as the guest can be told,
    /// and says whether there is such a connection.
    pub fn kill_connection(&mut self, key: ConnMapKey) -> (found: bool)
        requires
            old(self).wf(),
        ensures
            final(self).wf(),
            final(self)@ == old(self)@.kill_connection(key),
            found == old(self)@.conns.contains_key(key),
    {
        let mut had_rx: bool = false;
        let mut found: bool = false;
        if let Some(conn) = self.conns.get(key) {
            had_rx = conn.pending_rx;
            found = true;
            let mut killed = conn;
            killed.kill();
            self.conns.insert(key, killed);
        }
        if !had_rx {
            let _ = self.rxq.push(MuxerRx::ConnRx(key));
        }
        found
    }

    /// Stops listening for the events of `fd`, and gives the listener, with the
    /// epoll call that stops polling `fd`. That call is to be made exactly when
    /// `fd` was listened to.
    pub fn remove_listener(&mut self, fd: i32) -> (removed: Unlistened)
        requires
            old(self).wf(),
        ensures
            final(self).wf(),
            final(self)@ == old(self)@.remove_listener(fd),
            removed.listener == old(self)@.listeners.get(fd),
            removed.ctl == old(self)@.unlisten_ctl(fd),
    {
        let listener = self.listeners.remove(&fd);
        assert(self@.listeners =~= old(self)@.listeners.remove(fd));
        let ctl = if listener.is_some() {
            Some(EpollCtl::delete(fd))
        } else {
            None
        };
        Unlistened { listener, ctl }
    }

    /// Notes who listens for the events of `fd`, if the epoll call for it
    /// succeeded.
    pub fn add_listener(
        &mut self,
        fd: i32,
        listener: EpollListener,
        ctl: Result<(), IoError>,
    ) -> (res: Result<(), Error>)
        requires
            old(self).wf(),
        ensures
            final(self).wf(),
            final(self)@ == old(self)@.add_listener(fd, listener, ctl),
            res == match ctl {
                Ok(()) => Ok(()),
                Err(e) => Err(Error::EpollAdd(e)),
            },
    {
        match ctl {
            Ok(()) => {
                self.listeners.insert(fd, listener);
                Ok(())
            },
            Err(e) => Err(Error::EpollAdd(e)),
        }
    }

    /// Takes a connection out of the pool and makes its host-side port free.
    pub fn remove_connection(&mut self, key: ConnMapKey) -> (removal: Removal)
        requires
            old(self).wf(),
        ensures
            final(self).wf(),
            final(self)@ == old(self)@.remove_connection(key),
            removal == old(self)@.removal(key),
    {
        let mut ctl: Option<EpollCtl> = None;
        if let Some(conn) = self.conns.remove(key) {
            ctl = self.remove_listener(conn.fd).ctl;
        }
        self.free_local_port(key.local_port);
        Removal { key, ctl }
    }

    /// Assigns a host-side port to a new host-initiated connection: the first
    /// free one after the one that was assigned last.
    pub fn allocate_local_port(&mut self) -> (port: u32)
        requires
            old(self).wf(),
            crate::ports::has_free_port(old(self)@.used_ports),
        ensures
            final(self).wf(),
            crate::ports::is_local_port(port),
            crate::ports::is_next_free(old(self)@.used_ports, old(self)@.last_port, port),
            final(self)@ == old(self)@.port_taken(port),
    {
        self.ports.allocate()
    }

    /// Whether a host-side port is left to assign.
    pub fn has_free_local_port(&self) -> (b: bool)
        requires
            self.wf(),
        ensures
            b == crate::ports::has_free_port(self@.used_ports),
    {
        self.ports.has_free()
    }

    /// Makes a host-side port free.
    pub fn free_local_port(&mut self, port: u32)
        requires
            old(self).wf(),
        ensures
            final(self).wf(),
            final(self)@ == (MuxerState {
                used_ports: old(self)@.used_ports.remove(port),
                ..old(self)@
            }),
    {
        self.ports.free(port);
    }

    /// The message that the host end of a connection is owed, once the
    /// connection was handed something to do and is now in state `state`.
    pub fn conn_ack(&self, key: ConnMapKey, state: ConnState) -> (msg: Option<Vec<u8>>)
        ensures
            msg is Some <==> self@.ack_due(key, state),
            msg matches Some(m) ==> m@ == crate::state::ack_bytes(key.local_port),
    {
        match self.conns.get(key) {
            Some(conn) => {
                if conn.state == ConnState::LocalInit && state == ConnState::Established {
                    Some(ack_message(key.local_port))
                } else {
                    None
                }
            },
            None => None,
        }
    }

    /// Whether a connection, now in state `state`, must be killed because the
    /// message that its host end is owed could not be written in full.
    pub fn conn_ack_failed(
        &self,
        key: ConnMapKey,
        state: ConnState,
        ack: Result<usize, IoError>,
    ) -> (b: bool)
        ensures
            b == self@.ack_failed(key, state, ack),
    {
        match self.conn_ack(key, state) {
            Some(msg) => match ack {
                Ok(written) => written != msg.len(),
                Err(_) => true,
            },
            None => false,
        }
    }

    /// Takes note that a connection was handed something to do. Nothing happens
    /// if there is no such connection.
    pub fn apply_conn_mutation(&mut self, key: ConnMapKey, report: ConnReport) -> (step:
        MutationStep)
        requires
            old(self).wf(),
        ensures
            final(self).wf(),
            final(self)@ == old(self)@.apply_conn_mutation(key, report),
            step == old(self)@.mutation_step(key, report),
    {
        let before = match self.conns.get(key) {
            Some(conn) => conn,
            None => {
                return MutationStep::Done;
            },
        };
        let mut after = report.status;
        if self.conn_ack_failed(key, report.state, report.ack) {
            after.kill();
        }
        self.conns.insert(key, after);

        // If the connection wasn't previously scheduled for RX, add it to the
        // RX queue. If that fails, the queue is out of sync, which is dealt
        // with the next time a packet is asked for.
        if !before.pending_rx && after.pending_rx {
            let _ = self.rxq.push(MuxerRx::ConnRx(key));
        }
        // If the connection wasn't previously scheduled for termination, add it
        // to the kill queue.

        if !before.will_expire(report.began) && after.will_expire(report.ended) {
            if let Some(kill_time) = after.expiry {
                self.killq.push(key, kill_time);
            }
        }
        let fd = after.fd;
        let evset = report.evset;
        let step = if evset.is_empty() {
            // The connection no longer needs notifications.
            if self.remove_listener(fd).ctl.is_some() {
                MutationStep::Unregister { fd }
            } else {
                assert(self@.listeners =~= old(self)@.listeners);
                MutationStep::Done
            }
        } else {
            let listener = match self.listeners.get(&fd) {
                Some(l) => Some(*l),
                None => None,
            };
            match listener {
                Some(EpollListener::Connection { key: k, evset: polled, backend }) => {
                    if polled != evset {
                        self.listeners.insert(
                            fd,
                            EpollListener::Connection { key: k, evset, backend },
                        );
                        MutationStep::Update { fd, evset }
                    } else {
                        MutationStep::Done
                    }
                },
                // The connection had asked not to be polled, and now wants back
                // in.
                _ => MutationStep::Register {
                    fd,
                    listener: EpollListener::Connection { key, evset, backend: before.backend },
                },
            }
        };
        proof {
            lemma_len_insert(old(self)@.conns, key, after);
            assert(self@ =~= old(self)@.apply_conn_mutation(key, report));
        }
        step
    }

    /// Takes note of how the epoll call for a step ended, and says whether the
    /// connection must be killed for it.
    pub fn conn_mutation_done(
        &mut self,
        key: ConnMapKey,
        step: MutationStep,
        ctl: Result<(), IoError>,
    ) -> (kill: bool)
        requires
            old(self).wf(),
        ensures
            final(self).wf(),
            final(self)@ == old(self)@.conn_mutation_done(key, step, ctl),
            kill == (MuxerState::mutation_kills(step, ctl) && old(self)@.conns.contains_key(key)),
    {
        match step {
            MutationStep::Done => false,
            MutationStep::Unregister { .. } => false,
            MutationStep::Update { .. } => {
                match ctl {
                    Ok(()) => false,
                    Err(_) => self.kill_connection(key),
                }
            },
            MutationStep::Register { fd, listener } => {
                match self.add_listener(fd, listener, ctl) {
                    Ok(()) => false,
                    Err(_) => self.kill_connection(key),
                }
            },
        }
    }

    /// Deals with the items at the front of the kill queue whose time has
    /// passed at `now`, and adds the keys of the connections that it schedules
    /// for termination to `killed`.
    fn sweep_due(&mut self, now: u64, killed: &mut Vec<ConnMapKey>)
        requires
            old(self).wf(),
        ensures
            final(self).wf(),
            final(self)@ == old(self)@.sweep_due(now),
            final(killed)@ == old(killed)@ + old(self)@.sweep_kills(now),
    {
        loop
            invariant
                self.wf(),
                self@.sweep_due(now) == old(self)@.sweep_due(now),
                killed@ + self@.sweep_kills(now) == old(killed)@ + old(self)@.sweep_kills(now),
            decreases self@.killq.items.len(),
        {
            let ghost pre = self@;
            let ghost killed_pre = killed@;
            let key = match self.killq.pop(now) {
                Some(key) => key,
                None => {
                    assert(killed@ + self@.sweep_kills(now) =~= killed@);
                    return ;
                },
            };
            // Connections aren't removed from the kill queue when their kill
            // timer is disarmed, so check that the connection has indeed
            // expired.
            if let Some(conn) = self.conns.get(key) {
                if conn.has_expired(now) {
                    let _ = self.kill_connection(key);
                    killed.push(key);
                }
            }
            proof {
                assert(self@ == pre.sweep_one(now));
                assert(killed@ + self@.sweep_kills(now) =~= killed_pre + pre.sweep_kills(now));
            }
        }
    }

    /// Looks for connections that have timed out at `now`, schedules them for
    /// termination, and gives their keys.
    pub fn sweep_killq(&mut self, now: u64) -> (killed: Vec<ConnMapKey>)
        requires
            old(self).wf(),
        ensures
            final(self).wf(),
            old(self)@.swept(now, killed@, final(self)@),
    {
        let mut killed: Vec<ConnMapKey> = Vec::new();
        self.sweep_due(now, &mut killed);
        let ghost mut rounds: nat = 0;
        assert(killed@ =~= old(self)@.sweep_kills(now));
        // If the queue had to be made anew, it is swept again: there may be more
        // to kill.
        while self.killq.is_empty() && !self.killq.is_synced()
            invariant
                self.wf(),
                old(self)@.swept_in(rounds, now, killed@, self@),
            decreases
                    if self@.killq.spent() {
                        1 + armed_keys(self@.conns).len()
                    } else {
                        0
                    },
        {
            let ghost mid = self@;
            let ghost before = killed@;
            self.killq = MuxerKillQ::from_conn_map(&self.conns);
            let ghost remade = self@;
            self.sweep_due(now, &mut killed);
            proof {
                lemma_sweep_disarms(remade, now);
                assert(remade == (MuxerState { killq: remade.killq, ..mid }));
                assert(mid.swept_anew(now, remade.killq, before, killed@, self@));
                rounds = rounds + 1;
            }
        }
        killed
    }

    /// Prepares to add a connection to the pool: sweeps the kill queue, and
    /// gives the epoll call for the connection if there is room for it.
    pub fn add_connection(&mut self, conn: NewConn, now: u64) -> (step: AddStep)
        requires
            old(self).wf(),
        ensures
            final(self).wf(),
            old(self)@.swept(now, step.killed@, final(self)@),
            !step.rst_dropped,
            step.ctl == if final(self)@.conns.len() >= MAX_CONNECTIONS {
                Err::<EpollCtl, Error>(Error::TooManyConnections)
            } else {
                Ok(EpollCtl::spec_add(conn.status.fd, conn.evset))
            },
    {
        let killed = self.sweep_killq(now);
        if self.conns.len() >= MAX_CONNECTIONS {
            return AddStep {
                killed,
                ctl: Err(Error::TooManyConnections),
                rst_dropped: false,
            };
        }
        AddStep {
            killed,
            ctl: Ok(EpollCtl::add(conn.status.fd, conn.evset)),
            rst_dropped: false,
        }
    }

    /// Adds a connection to the pool, if there is room for it and the epoll
    /// call for it succeeded.
    pub fn insert_connection(
        &mut self,
        key: ConnMapKey,
        conn: NewConn,
        ctl: Result<(), IoError>,
    ) -> (res: Result<(), Error>)
        requires
            old(self).wf(),
        ensures
            final(self).wf(),
            final(self)@ == old(self)@.insert_connection(key, conn, ctl),
            res == old(self)@.insert_result(ctl),
    {
        if self.conns.len() >= MAX_CONNECTIONS {
            return Err(Error::TooManyConnections);
        }
        let listener = EpollListener::Connection {
            key,
            evset: conn.evset,
            backend: conn.status.backend,
        };
        match self.add_listener(conn.status.fd, listener, ctl) {
            Ok(()) => {
                if conn.status.pending_rx {
                    // If this fails, the RX queue is out of sync, which is
                    // dealt with the next time a packet is asked for.
                    let _ = self.rxq.push(MuxerRx::ConnRx(key));
                }
                self.conns.insert(key, conn.status);
                proof {
                    lemma_len_insert(old(self)@.conns, key, conn.status);
                }
                Ok(())
            },
            Err(e) => Err(e),
        }
    }

    /// Looks at the front of the RX queue for how the next packet comes about.
    fn next_packet(&mut self, pkt: &mut VsockPacket) -> (step: RecvStep)
        requires
            old(self).wf(),
        ensures
            final(self).wf(),
            final(self)@ == old(self)@.next_rx(),
            step == old(self)@.next_step(),
            *final(pkt) == old(self)@.next_pkt(*old(pkt)),
    {
        loop
            invariant
                self.wf(),
                self@.drop_stale() == old(self)@.drop_stale(),
                self@.cid == old(self)@.cid,
                *pkt == *old(pkt),
            decreases self@.rxq.items.len(),
        {
            match self.rxq.peek() {
                None => {
                    return RecvStep::NoData;
                },
                Some(MuxerRx::RstPkt { local_port, peer_port }) => {
                    pkt.set_rst(self.cid, local_port, peer_port);
                    let _ = self.rxq.pop();
                    return RecvStep::Packet { removed: None };
                },
                Some(MuxerRx::ConnRx(key)) => {
                    if self.conns.contains_key(key) {
                        return RecvStep::Fetch(key);
                    }
                    let _ = self.rxq.pop();
                },
            }
        }
    }

    /// Starts delivering a packet to the guest: fills in `pkt`, or says which
    /// connection is to fill it in, or that there is nothing to deliver.
    pub fn recv_pkt(&mut self, pkt: &mut VsockPacket) -> (step: RecvStep)
        requires
            old(self).wf(),
        ensures
            final(self).wf(),
            exists|mid: MuxerState| #[trigger]
                old(self)@.rx_synced(mid) && final(self)@ == mid.next_rx() && step
                    == mid.next_step() && *final(pkt) == mid.next_pkt(*old(pkt)),
    {
        // If the queue is empty, that doesn't necessarily mean that there is
        // nothing to deliver, since it might be out of sync.
        if self.rxq.is_empty() && !self.rxq.is_synced() {
            self.rxq = MuxerRxQ::from_conn_map(&self.conns);
        }
        assert(old(self)@.rx_synced(self@));
        self.next_packet(pkt)
    }

    /// Goes on after the connection at the front of the RX queue was asked for
    /// its packet: `fetched` says whether it filled in `pkt`, and `pending`
    /// whether it had more to deliver right afterwards.
    pub fn recv_pkt_fetched(&mut self, pkt: &mut VsockPacket, fetched: bool, pending: bool) -> (step:
        RecvStep)
        requires
            old(self).wf(),
        ensures
            final(self).wf(),
            ({
                let s = old(self)@.fetched(pending);
                let key = MuxerState::rx_key(*old(pkt));
                if !fetched {
                    &&& final(self)@ == s.next_rx()
                    &&& step == s.next_step()
                    &&& *final(pkt) == s.next_pkt(*old(pkt))
                } else if old(pkt).op == VSOCK_OP_RST {
                    &&& final(self)@ == s.remove_connection(key)
                    &&& step == (RecvStep::Packet { removed: Some(s.removal(key)) })
                    &&& *final(pkt) == *old(pkt)
                } else {
                    &&& final(self)@ == s
                    &&& step == (RecvStep::Packet { removed: None })
                    &&& *final(pkt) == *old(pkt)
                }
            }),
    {
        if !pending {
            let _ = self.rxq.pop();
        }
        if fetched {
            // A reset means that this connection has to be terminated.
            let removed = if pkt.op == VSOCK_OP_RST {
                Some(
                    self.remove_connection(
                        ConnMapKey { local_port: pkt.src_port, peer_port: pkt.dst_port },
                    ),
                )
            } else {
                None
            };
            return RecvStep::Packet { removed };
        }
        self.next_packet(pkt)
    }

    /// Takes a packet from the guest, and says what is to be done with it. The
    /// packet is consumed in any case.
    pub fn send_pkt(&mut self, pkt: &VsockPacket) -> (step: SendStep)
        requires
            old(self).wf(),
        ensures
            final(self).wf(),
            final(self)@ == old(self)@.send_pkt(*pkt),
            step == old(self)@.send_step(*pkt),
    {
        let key = ConnMapKey { local_port: pkt.dst_port, peer_port: pkt.src_port };
        // A packet of an unsupported type is answered by a reset.
        if pkt.type_ != VSOCK_TYPE_STREAM {
            return SendStep::Reset { queued: self.enq_rst(pkt.dst_port, pkt.src_port) };
        }
        // Packets for other context ids are dropped.

        if pkt.dst_cid != VSOCK_HOST_CID {
            return SendStep::Dropped;
        }
        if !self.conns.contains_key(key) {
            // The only packets without a connection that make sense are
            // connection requests.
            if pkt.op == VSOCK_OP_REQUEST {
                return self.handle_peer_request_pkt(pkt);
            }
            return SendStep::Reset { queued: self.enq_rst(pkt.dst_port, pkt.src_port) };
        }
        // A reset terminates the connection, so there is no point in forwarding
        // it.

        if pkt.op == VSOCK_OP_RST {
            return SendStep::Removed(self.remove_connection(key));
        }
        SendStep::Forward(key)
    }

    /// Takes a connection request from the guest: the backend for such
    /// connections is to be asked for a host stream. If there is none, a reset
    /// is queued.
    pub fn handle_peer_request_pkt(&mut self, pkt: &VsockPacket) -> (step: SendStep)
        requires
            old(self).wf(),
        ensures
            final(self).wf(),
            old(self)@.has_peer_backend() ==> {
                &&& final(self)@ == old(self)@
                &&& step == (SendStep::Connect {
                    backend: old(self)@.peer_backend->Some_0,
                    port: pkt.dst_port,
                })
            },
            !old(self)@.has_peer_backend() ==> {
                &&& final(self)@ == old(self)@.enq_rst(pkt.dst_port, pkt.src_port)
                &&& step == (SendStep::NoBackend {
                    queued: old(self)@.accepts_rst(pkt.dst_port, pkt.src_port),
                })
            },
    {
        if let Some(backend) = self.peer_backend {
            if self.backends.contains(&backend.id) {
                return SendStep::Connect { backend, port: pkt.dst_port };
            }
        }
        SendStep::NoBackend { queued: self.enq_rst(pkt.dst_port, pkt.src_port) }
    }

    /// What the connection that the guest requests by `pkt` is to be created
    /// with.
    pub fn peer_init(&self, pkt: &VsockPacket) -> (init: ConnInit)
        ensures
            init == self@.peer_init(*pkt),
    {
        ConnInit {
            local_cid: VSOCK_HOST_CID,
            peer_cid: self.cid,
            local_port: pkt.dst_port,
            peer_port: pkt.src_port,
            peer_buf_alloc: Some(pkt.buf_alloc),
        }
    }

    /// Goes on after the backend was asked for a host stream for the connection
    /// that the guest requests by `pkt`, and prepares to add the connection. If
    /// it is not to be added, a reset is queued.
    pub fn peer_connected(
        &mut self,
        pkt: &VsockPacket,
        conn: Result<NewConn, IoError>,
        now: u64,
    ) -> (step: AddStep)
        requires
            old(self).wf(),
        ensures
            final(self).wf(),
            match conn {
                Ok(c) => {
                    exists|mid: MuxerState| #[trigger]
                        old(self)@.swept(now, step.killed@, mid) && if mid.conns.len()
                            >= MAX_CONNECTIONS {
                            &&& final(self)@ == mid.enq_rst(pkt.dst_port, pkt.src_port)
                            &&& step.ctl == Err::<EpollCtl, Error>(Error::TooManyConnections)
                            &&& step.rst_dropped == !mid.accepts_rst(pkt.dst_port, pkt.src_port)
                        } else {
                            &&& final(self)@ == mid
                            &&& !step.rst_dropped
                            &&& step.ctl == Ok::<EpollCtl, Error>(
                                EpollCtl::spec_add(c.status.fd, c.evset),
                            )
                        }
                },
                Err(e) => {
                    &&& step.killed@.len() == 0
                    &&& final(self)@ == old(self)@.enq_rst(pkt.dst_port, pkt.src_port)
                    &&& step.ctl == Err::<EpollCtl, Error>(Error::BackendConnect(e))
                    &&& step.rst_dropped == !old(self)@.accepts_rst(pkt.dst_port, pkt.src_port)
                },
            },
    {
        match conn {
            Ok(c) => {
                let mut step = self.add_connection(c, now);
                let ghost mid = self@;
                if step.ctl.is_err() {
                    step.rst_dropped = !self.enq_rst(pkt.dst_port, pkt.src_port);
                }
                assert(old(self)@.swept(now, step.killed@, mid));
                step
            },
            Err(e) => {
                let queued = self.enq_rst(pkt.dst_port, pkt.src_port);
                AddStep {
                    killed: Vec::new(),
                    ctl: Err(Error::BackendConnect(e)),
                    rst_dropped: !queued,
                }
            },
        }
    }

    /// Adds the connection that the guest requests by `pkt`, if the epoll call
    /// for it succeeded. If it is not added, a reset is queued.
    pub fn peer_registered(
        &mut self,
        pkt: &VsockPacket,
        conn: NewConn,
        ctl: Result<(), IoError>,
    ) -> (added: PeerAdded)
        requires
            old(self).wf(),
        ensures
            final(self).wf(),
            added.res == old(self)@.insert_result(ctl),
            added.rst_dropped == (added.res is Err && !old(self)@.accepts_rst(
                pkt.dst_port,
                pkt.src_port,
            )),
            final(self)@ == if added.res is Ok {
                old(self)@.insert_connection(MuxerState::tx_key(*pkt), conn, ctl)
            } else {
                old(self)@.enq_rst(pkt.dst_port, pkt.src_port)
            },
    {
        let key = ConnMapKey { local_port: pkt.dst_port, peer_port: pkt.src_port };
        let res = self.insert_connection(key, conn, ctl);
        let rst_dropped = res.is_err() && !self.enq_rst(pkt.dst_port, pkt.src_port);
        PeerAdded { res, rst_dropped }
    }

    /// Takes an event of the polled file descriptor `fd`, and says what is to
    /// be done about it. A connection is told the events it is polled for.
    pub fn handle_event(&mut self, fd: i32, _evset: EventSet) -> (step: EventStep)
        requires
            old(self).wf(),
        ensures
            final(self).wf(),
            final(self)@ == old(self)@.handle_event(fd),
            step == old(self)@.event_step(fd),
    {
        let listener = match self.listeners.get(&fd) {
            Some(l) => *l,
            None => {
                return EventStep::Ignored;
            },
        };
        match listener {
            EpollListener::Connection { key, evset, .. } => EventStep::Notify { key, evset },
            EpollListener::Backend(backend) => {
                if self.backends.contains(&backend.id) {
                    EventStep::Accept { backend, refused: self.conns.len() >= MAX_CONNECTIONS }
                } else {
                    EventStep::NoBackend(backend)
                }
            },
            EpollListener::LocalStream(stream) => {
                let _ = self.remove_listener(fd);
                EventStep::ReadPort { stream, ctl: EpollCtl::delete(fd) }
            },
        }
    }

    /// Goes on after a backend was asked for a host stream: gives the epoll call
    /// that waits for the stream's "connect" command.
    pub fn stream_accepted(&self, stream: Result<LocalStream, IoError>) -> (ctl: Result<
        EpollCtl,
        Error,
    >)
        ensures
            ctl == match stream {
                Ok(s) => Ok::<EpollCtl, Error>(
                    EpollCtl::spec_add(s.fd, crate::events::epollin_set()),
                ),
                Err(e) => Err(Error::BackendAccept(e)),
            },
    {
        match stream {
            Ok(s) => Ok(EpollListener::LocalStream(s).ctl(s.fd)),
            Err(e) => Err(Error::BackendAccept(e)),
        }
    }

    /// Goes on after a host stream was asked for its "connect" command: assigns
    /// a host-side port, and says what the connection is to be created with.
    pub fn local_init(&mut self, request: Result<&PortRequest, IoError>) -> (init: Result<
        ConnInit,
        Error,
    >)
        requires
            old(self).wf(),
            request matches Ok(r) ==> r.wf(),
            MuxerState::local_request(request) is Ok ==> crate::ports::has_free_port(
                old(self)@.used_ports,
            ),
        ensures
            final(self).wf(),
            match (MuxerState::local_request(request), init) {
                (Ok(peer_port), Ok(i)) => {
                    &&& crate::ports::is_local_port(i.local_port)
                    &&& crate::ports::is_next_free(
                        old(self)@.used_ports,
                        old(self)@.last_port,
                        i.local_port,
                    )
                    &&& final(self)@ == old(self)@.port_taken(i.local_port)
                    &&& i == old(self)@.local_init(i.local_port, peer_port)
                },
                (Err(e), Err(err)) => err == e && final(self)@ == old(self)@,
                _ => false,
            },
    {
        match request {
            Ok(r) => match r.port() {
                Ok(peer_port) => {
                    let local_port = self.allocate_local_port();
                    Ok(
                        ConnInit {
                            local_cid: VSOCK_HOST_CID,
                            peer_cid: self.cid,
                            local_port,
                            peer_port,
                            peer_buf_alloc: None,
                        },
                    )
                },
                Err(e) => Err(e),
            },
            Err(e) => Err(Error::BackendRead(e)),
        }
    }

    /// Prepares to add a backend whose new connections are announced on `fd`:
    /// gives the epoll call for it, unless a backend of this type was added
    /// before.
    pub fn add_backend(&self, backend: VsockBackendType, fd: i32) -> (ctl: Result<EpollCtl, Error>)
        ensures
            ctl == if self@.backends.contains(backend) {
                Err::<EpollCtl, Error>(Error::BackendRegistered(backend))
            } else {
                Ok(EpollCtl::spec_add(fd, crate::events::epollin_set()))
            },
    {
        if self.backends.contains(&backend.id) {
            return Err(Error::BackendRegistered(backend));
        }
        Ok(EpollListener::Backend(backend).ctl(fd))
    }

    /// Adds a backend, if the epoll call for it succeeded. `is_peer_backend`
    /// makes it the one for guest-initiated connections.
    pub fn register_backend(
        &mut self,
        backend: VsockBackendType,
        fd: i32,
        is_peer_backend: bool,
        ctl: Result<(), IoError>,
    ) -> (res: Result<(), Error>)
        requires
            old(self).wf(),
        ensures
            final(self).wf(),
            res == old(self)@.backend_result(backend, ctl),
            final(self)@ == if res is Ok {
                old(self)@.register_backend(backend, fd, is_peer_backend)
            } else {
                old(self)@
            },
    {
        if self.backends.contains(&backend.id) {
            return Err(Error::BackendRegistered(backend));
        }
        match self.add_listener(fd, EpollListener::Backend(backend), ctl) {
            Ok(()) => {
                self.backends.insert(backend.id);
                if is_peer_backend {
                    self.peer_backend = Some(backend);
                }
                assert(self@.backends =~= old(self)@.backends.insert(backend));
                Ok(())
            },
            Err(e) => Err(e),
        }
    }
}

} // verus!
