use vstd::prelude::*;

use crate::conn::{ConnMapKey, ConnState, ConnStatus};
use crate::defs::{
    MAX_CONNECTIONS, MUXER_KILLQ_SIZE, MUXER_RXQ_SIZE, VSOCK_HOST_CID, VSOCK_OP_REQUEST,
    VSOCK_OP_RST, VSOCK_TYPE_STREAM,
};
use crate::error::{Error, IoError, VsockBackendType};
use crate::events::EpollCtl;
use crate::killq::KillQueue;
use crate::listener::EpollListener;
use crate::packet::VsockPacket;
use crate::ports::{LOCAL_PORT_COUNT, LOCAL_PORT_FIRST};
use crate::request::PortRequest;
use crate::rxq::{MuxerRx, RxQueue};
use crate::steps::{
    ConnInit, ConnReport, EventStep, MutationStep, NewConn, RecvStep, Removal, SendStep,
};

verus! {

/// The message that tells the host end that its connection is established, with
/// the host-side port that was assigned to it: "OK <port>" and a line end.
pub open spec fn ack_bytes(local_port: u32) -> Seq<u8> {
    seq![79u8, 75u8, 32u8] + crate::decimal::decimal_digits(local_port as nat) + seq![10u8]
}

/// What a muxer knows.
#[verifier::ext_equal]
pub struct MuxerState {
    /// The context id of the guest.
    pub cid: u64,
    /// The nested epoll file descriptor.
    pub epoll_fd: i32,
    /// The active connections.
    pub conns: Map<ConnMapKey, ConnStatus>,
    /// The polled file descriptors.
    pub listeners: Map<i32, EpollListener>,
    /// What is to be delivered to the guest.
    pub rxq: RxQueue,
    /// The connections that take too long to shut down.
    pub killq: KillQueue,
    /// The host-side ports in use.
    pub used_ports: Set<u32>,
    /// The host-side port that was assigned last.
    pub last_port: u32,
    /// The backends that have been added.
    pub backends: Set<VsockBackendType>,
    /// The backend for guest-initiated connections.
    pub peer_backend: Option<VsockBackendType>,
}

impl MuxerState {
    /// A muxer that has just been made.
    pub open spec fn initial(cid: u64, epoll_fd: i32) -> MuxerState {
        MuxerState {
            cid,
            epoll_fd,
            conns: Map::empty(),
            listeners: Map::empty(),
            rxq: RxQueue { items: Seq::empty(), synced: true },
            killq: KillQueue { items: Seq::empty(), synced: true },
            used_ports: Set::empty(),
            last_port: (LOCAL_PORT_FIRST - 1) as u32,
            backends: Set::empty(),
            peer_backend: None,
        }
    }

    /// What holds of every muxer: the queues are within their capacities, the
    /// kill queue is in the order of time, the connections are within their
    /// limit, only assignable host-side ports are in
    /// use, and the backend for guest-initiated connections has been added.
    pub open spec fn inv(self) -> bool {
        &&& self.conns.dom().finite()
        &&& self.conns.len() <= MAX_CONNECTIONS
        &&& self.rxq.items.len() <= MUXER_RXQ_SIZE
        &&& self.killq.items.len() <= MUXER_KILLQ_SIZE
        &&& crate::killq::in_order(self.killq.items)
        &&& self.used_ports.finite()
        &&& forall|p: u32| #[trigger]
            self.used_ports.contains(p) ==> crate::ports::is_local_port(p)
        &&& LOCAL_PORT_FIRST - 1 <= self.last_port < LOCAL_PORT_FIRST + LOCAL_PORT_COUNT
        &&& self.peer_backend matches Some(b) ==> self.backends.contains(b)
    }

    /// Whether there may be something to deliver to the guest: the RX queue is
    /// not empty, or it does not tell.
    pub open spec fn may_have_rx(self) -> bool {
        self.rxq.items.len() > 0 || !self.rxq.synced
    }

    /// Whether a reset finds a place in the RX queue.
    pub open spec fn accepts_rst(self, local_port: u32, peer_port: u32) -> bool {
        self.rxq.accepts(MuxerRx::RstPkt { local_port, peer_port })
    }

    /// A reset is queued for delivery.
    pub open spec fn enq_rst(self, local_port: u32, peer_port: u32) -> MuxerState {
        MuxerState { rxq: self.rxq.push(MuxerRx::RstPkt { local_port, peer_port }), ..self }
    }

    /// The connection is killed, and queued for its reset to be fetched unless
    /// it is in the queue already.
    pub open spec fn kill_connection(self, key: ConnMapKey) -> MuxerState {
        let had_rx = self.conns.contains_key(key) && self.conns[key].pending_rx;
        MuxerState {
            conns: if self.conns.contains_key(key) {
                self.conns.insert(key, self.conns[key].spec_kill())
            } else {
                self.conns
            },
            rxq: if had_rx {
                self.rxq
            } else {
                self.rxq.push(MuxerRx::ConnRx(key))
            },
            ..self
        }
    }

    /// The file descriptor is no longer listened to.
    pub open spec fn remove_listener(self, fd: i32) -> MuxerState {
        MuxerState { listeners: self.listeners.remove(fd), ..self }
    }

    /// The epoll call that is left to do when a file descriptor is no longer
    /// listened to: it is no longer polled, if it was listened to at all.
    pub open spec fn unlisten_ctl(self, fd: i32) -> Option<EpollCtl> {
        if self.listeners.contains_key(fd) {
            Some(EpollCtl::spec_delete(fd))
        } else {
            None
        }
    }

    /// The connection leaves the pool, its file descriptor is no longer polled
    /// and its host-side port is free.
    pub open spec fn remove_connection(self, key: ConnMapKey) -> MuxerState {
        MuxerState {
            conns: self.conns.remove(key),
            listeners: if self.conns.contains_key(key) {
                self.listeners.remove(self.conns[key].fd)
            } else {
                self.listeners
            },
            used_ports: self.used_ports.remove(key.local_port),
            ..self
        }
    }

    /// What is left to do when the connection is removed.
    pub open spec fn removal(self, key: ConnMapKey) -> Removal {
        Removal {
            key,
            ctl: if self.conns.contains_key(key) {
                self.unlisten_ctl(self.conns[key].fd)
            } else {
                None
            },
        }
    }

    /// The file descriptor is polled for `listener` if the epoll call for it
    /// succeeded.
    pub open spec fn add_listener(
        self,
        fd: i32,
        listener: EpollListener,
        ctl: Result<(), IoError>,
    ) -> MuxerState {
        if ctl is Ok {
            MuxerState { listeners: self.listeners.insert(fd, listener), ..self }
        } else {
            self
        }
    }

    /// Whether a host-initiated connection has just become established, so that
    /// the host end must be told.
    pub open spec fn ack_due(self, key: ConnMapKey, state: ConnState) -> bool {
        &&& self.conns.contains_key(key)
        &&& self.conns[key].state == ConnState::LocalInit
        &&& state == ConnState::Established
    }

    /// Whether the host end could not be told in full.
    pub open spec fn ack_failed(
        self,
        key: ConnMapKey,
        state: ConnState,
        ack: Result<usize, IoError>,
    ) -> bool {
        &&& self.ack_due(key, state)
        &&& !(ack matches Ok(written) && written == ack_bytes(key.local_port).len())
    }

    /// The status of a connection after a change, which is killed if the host
    /// end could not be told.
    pub open spec fn status_after(self, key: ConnMapKey, report: ConnReport) -> ConnStatus {
        if self.ack_failed(key, report.state, report.ack) {
            report.status.spec_kill()
        } else {
            report.status
        }
    }

    /// What a change of a connection means for the polling of its file
    /// descriptor.
    pub open spec fn mutation_step(self, key: ConnMapKey, report: ConnReport) -> MutationStep {
        let fd = report.status.fd;
        let evset = report.evset;
        if !self.conns.contains_key(key) {
            MutationStep::Done
        } else if evset.bits == 0 {
            if self.listeners.contains_key(fd) {
                MutationStep::Unregister { fd }
            } else {
                MutationStep::Done
            }
        } else if self.listeners.contains_key(fd) && self.listeners[fd] is Connection {
            if self.listeners[fd]->Connection_evset != evset {
                MutationStep::Update { fd, evset }
            } else {
                MutationStep::Done
            }
        } else {
            MutationStep::Register {
                fd,
                listener: EpollListener::Connection {
                    key,
                    evset,
                    backend: self.conns[key].backend,
                },
            }
        }
    }

    /// A connection has changed: it is queued for delivery if it has a packet
    /// and had none, queued for termination if it is scheduled for termination
    /// and was not, and its listener follows the events it is interested in.
    pub open spec fn apply_conn_mutation(self, key: ConnMapKey, report: ConnReport) -> MuxerState {
        if !self.conns.contains_key(key) {
            self
        } else {
            let before = self.conns[key];
            let after = self.status_after(key, report);
            MuxerState {
                conns: self.conns.insert(key, after),
                rxq: if !before.pending_rx && after.pending_rx {
                    self.rxq.push(MuxerRx::ConnRx(key))
                } else {
                    self.rxq
                },
                killq: if !before.spec_will_expire(report.began) && after.spec_will_expire(
                    report.ended,
                ) {
                    self.killq.push(key, after.expiry->Some_0)
                } else {
                    self.killq
                },
                listeners: match self.mutation_step(key, report) {
                    MutationStep::Unregister { fd } => self.listeners.remove(fd),
                    MutationStep::Update { fd, evset } => self.listeners.insert(
                        fd,
                        EpollListener::Connection {
                            key: self.listeners[fd]->Connection_key,
                            evset,
                            backend: self.listeners[fd]->Connection_backend,
                        },
                    ),
                    _ => self.listeners,
                },
                ..self
            }
        }
    }

    /// Whether the outcome of the epoll call means that the connection must be
    /// killed.
    pub open spec fn mutation_kills(step: MutationStep, ctl: Result<(), IoError>) -> bool {
        ctl is Err && (step is Update || step is Register)
    }

    /// The epoll call for a step was made.
    pub open spec fn conn_mutation_done(
        self,
        key: ConnMapKey,
        step: MutationStep,
        ctl: Result<(), IoError>,
    ) -> MuxerState {
        if Self::mutation_kills(step, ctl) {
            self.kill_connection(key)
        } else {
            match step {
                MutationStep::Register { fd, listener } => self.add_listener(fd, listener, ctl),
                _ => self,
            }
        }
    }

    /// Whether the first item of the kill queue is due and names a connection
    /// that has indeed expired.
    pub open spec fn front_expired(self, now: u64) -> bool {
        &&& self.killq.front_due(now)
        &&& self.conns.contains_key(self.killq.items[0].key)
        &&& self.conns[self.killq.items[0].key].spec_has_expired(now)
    }

    /// The first item of the kill queue is dealt with.
    pub open spec fn sweep_one(self, now: u64) -> MuxerState {
        let popped = MuxerState { killq: self.killq.pop(), ..self };
        if self.front_expired(now) {
            popped.kill_connection(self.killq.items[0].key)
        } else {
            popped
        }
    }

    /// All items at the front of the kill queue whose time has passed are dealt
    /// with.
    pub open spec fn sweep_due(self, now: u64) -> MuxerState
        decreases self.killq.items.len(),
    {
        if self.killq.front_due(now) {
            self.sweep_one(now).sweep_due(now)
        } else {
            self
        }
    }

    /// The connections that are killed when the items at the front of the kill
    /// queue whose time has passed are dealt with.
    pub open spec fn sweep_kills(self, now: u64) -> Seq<ConnMapKey>
        decreases self.killq.items.len(),
    {
        if self.killq.front_due(now) {
            let rest = self.sweep_one(now).sweep_kills(now);
            if self.front_expired(now) {
                seq![self.killq.items[0].key] + rest
            } else {
                rest
            }
        } else {
            Seq::empty()
        }
    }

    /// Whether `post` is the muxer after its kill queue, which was used up, was
    /// made anew as `q` and the items that were due have been dealt with, and
    /// `kills` are the connections in `before` and those that were killed
    /// thereby.
    pub open spec fn swept_anew(
        self,
        now: u64,
        q: KillQueue,
        before: Seq<ConnMapKey>,
        kills: Seq<ConnMapKey>,
        post: MuxerState,
    ) -> bool {
        let remade = MuxerState { killq: q, ..self };
        &&& self.killq.spent()
        &&& q.made_from(self.conns)
        &&& post == remade.sweep_due(now)
        &&& kills == before + remade.sweep_kills(now)
    }

    /// Whether `post` is the muxer after the items that were due have been
    /// dealt with and the kill queue was then made anew, and dealt with again,
    /// `rounds` times.
    pub open spec fn swept_in(
        self,
        rounds: nat,
        now: u64,
        kills: Seq<ConnMapKey>,
        post: MuxerState,
    ) -> bool
        decreases rounds,
    {
        if rounds == 0 {
            &&& post == self.sweep_due(now)
            &&& kills == self.sweep_kills(now)
        } else {
            exists|mid: MuxerState, q: KillQueue, before: Seq<ConnMapKey>|
                {
                    &&& #[trigger] mid.swept_anew(now, q, before, kills, post)
                    &&& self.swept_in((rounds - 1) as nat, now, before, mid)
                }
        }
    }

    /// Whether `post` is the muxer after its kill queue was swept, and `kills`
    /// are the connections that were killed thereby: the items that were due
    /// have been dealt with, and a queue that was used up while it was out of
    /// sync has been made anew, until none was.
    pub open spec fn swept(self, now: u64, kills: Seq<ConnMapKey>, post: MuxerState) -> bool {
        &&& !post.killq.spent()
        &&& exists|rounds: nat| #[trigger] self.swept_in(rounds, now, kills, post)
    }

    /// The listener of a connection that is added to the pool.
    pub open spec fn conn_listener(key: ConnMapKey, conn: NewConn) -> EpollListener {
        EpollListener::Connection { key, evset: conn.evset, backend: conn.status.backend }
    }

    /// Why a connection whose epoll call ended in `ctl` is not added, if it is
    /// not.
    pub open spec fn insert_result(self, ctl: Result<(), IoError>) -> Result<(), Error> {
        if self.conns.len() >= MAX_CONNECTIONS {
            Err(Error::TooManyConnections)
        } else {
            match ctl {
                Ok(()) => Ok(()),
                Err(e) => Err(Error::EpollAdd(e)),
            }
        }
    }

    /// A connection is added to the pool, unless there is a reason against it.
    pub open spec fn insert_connection(
        self,
        key: ConnMapKey,
        conn: NewConn,
        ctl: Result<(), IoError>,
    ) -> MuxerState {
        if self.insert_result(ctl) is Ok {
            MuxerState {
                conns: self.conns.insert(key, conn.status),
                listeners: self.listeners.insert(conn.status.fd, Self::conn_listener(key, conn)),
                rxq: if conn.status.pending_rx {
                    self.rxq.push(MuxerRx::ConnRx(key))
                } else {
                    self.rxq
                },
                ..self
            }
        } else {
            self
        }
    }

    /// Whether `post` is the muxer with its RX queue brought into sync, which
    /// happens to an empty queue that is out of sync.
    pub open spec fn rx_synced(self, post: MuxerState) -> bool {
        if self.rxq.items.len() == 0 && !self.rxq.synced {
            &&& post == (MuxerState { rxq: post.rxq, ..self })
            &&& post.rxq.made_from(self.conns)
        } else {
            post == self
        }
    }

    /// The items at the front of the RX queue that name connections which are
    /// gone are dropped.
    pub open spec fn drop_stale(self) -> MuxerState
        decreases self.rxq.items.len(),
    {
        if self.rxq.items.len() > 0 && (self.rxq.items[0] matches MuxerRx::ConnRx(key)
            && !self.conns.contains_key(key)) {
            MuxerState { rxq: self.rxq.pop(), ..self }.drop_stale()
        } else {
            self
        }
    }

    /// The muxer after the front of its RX queue was looked at. A reset leaves
    /// the queue; a connection stays there until it was asked for its packet.
    pub open spec fn next_rx(self) -> MuxerState {
        let s = self.drop_stale();
        if s.rxq.items.len() > 0 && s.rxq.items[0] is RstPkt {
            MuxerState { rxq: s.rxq.pop(), ..s }
        } else {
            s
        }
    }

    /// How the next packet for the guest comes about.
    pub open spec fn next_step(self) -> RecvStep {
        let s = self.drop_stale();
        if s.rxq.items.len() == 0 {
            RecvStep::NoData
        } else {
            match s.rxq.items[0] {
                MuxerRx::RstPkt { .. } => RecvStep::Packet { removed: None },
                MuxerRx::ConnRx(key) => RecvStep::Fetch(key),
            }
        }
    }

    /// The next packet for the guest, if the muxer makes it; else `pkt`.
    pub open spec fn next_pkt(self, pkt: VsockPacket) -> VsockPacket {
        let s = self.drop_stale();
        if s.rxq.items.len() > 0 {
            match s.rxq.items[0] {
                MuxerRx::RstPkt { local_port, peer_port } => VsockPacket::spec_rst(
                    self.cid,
                    local_port,
                    peer_port,
                ),
                MuxerRx::ConnRx(_) => pkt,
            }
        } else {
            pkt
        }
    }

    /// The first item has left the RX queue unless its connection has more to
    /// deliver.
    pub open spec fn fetched(self, pending: bool) -> MuxerState {
        if pending {
            self
        } else {
            MuxerState { rxq: self.rxq.pop(), ..self }
        }
    }

    /// The key of the connection that a packet for the guest belongs to.
    pub open spec fn rx_key(pkt: VsockPacket) -> ConnMapKey {
        ConnMapKey { local_port: pkt.src_port, peer_port: pkt.dst_port }
    }

    /// The key of the connection that a packet from the guest belongs to.
    pub open spec fn tx_key(pkt: VsockPacket) -> ConnMapKey {
        ConnMapKey { local_port: pkt.dst_port, peer_port: pkt.src_port }
    }

    /// Whether a packet from the guest must be answered by a reset: it is not a
    /// stream packet, or it belongs to no connection and does not lead to one.
    pub open spec fn send_refused(self, pkt: VsockPacket) -> bool {
        ||| pkt.type_ != VSOCK_TYPE_STREAM
        ||| {
            &&& pkt.dst_cid == VSOCK_HOST_CID
            &&& !self.conns.contains_key(Self::tx_key(pkt))
            &&& pkt.op == VSOCK_OP_REQUEST ==> !self.has_peer_backend()
        }
    }

    /// Whether there is a backend for guest-initiated connections.
    pub open spec fn has_peer_backend(self) -> bool {
        self.peer_backend matches Some(b) && self.backends.contains(b)
    }

    /// What is to be done with a packet from the guest.
    pub open spec fn send_step(self, pkt: VsockPacket) -> SendStep {
        let key = Self::tx_key(pkt);
        let queued = self.accepts_rst(pkt.dst_port, pkt.src_port);
        if pkt.type_ != VSOCK_TYPE_STREAM {
            SendStep::Reset { queued }
        } else if pkt.dst_cid != VSOCK_HOST_CID {
            SendStep::Dropped
        } else if !self.conns.contains_key(key) {
            if pkt.op != VSOCK_OP_REQUEST {
                SendStep::Reset { queued }
            } else if self.has_peer_backend() {
                SendStep::Connect { backend: self.peer_backend->Some_0, port: pkt.dst_port }
            } else {
                SendStep::NoBackend { queued }
            }
        } else if pkt.op == VSOCK_OP_RST {
            SendStep::Removed(self.removal(key))
        } else {
            SendStep::Forward(key)
        }
    }

    /// The muxer after it has seen a packet from the guest.
    pub open spec fn send_pkt(self, pkt: VsockPacket) -> MuxerState {
        let key = Self::tx_key(pkt);
        if self.send_refused(pkt) {
            self.enq_rst(pkt.dst_port, pkt.src_port)
        } else if pkt.dst_cid == VSOCK_HOST_CID && self.conns.contains_key(key) && pkt.op
            == VSOCK_OP_RST {
            self.remove_connection(key)
        } else {
            self
        }
    }

    /// What a guest-initiated connection is to be created with.
    pub open spec fn peer_init(self, pkt: VsockPacket) -> ConnInit {
        ConnInit {
            local_cid: VSOCK_HOST_CID,
            peer_cid: self.cid,
            local_port: pkt.dst_port,
            peer_port: pkt.src_port,
            peer_buf_alloc: Some(pkt.buf_alloc),
        }
    }

    /// The port that a host stream asks for, or why there is none: the stream
    /// could not be read, or did not carry a valid "connect" command.
    pub open spec fn local_request(request: Result<&PortRequest, IoError>) -> Result<u32, Error> {
        match request {
            Ok(r) => match crate::request::requested_port_of_bytes(r@.buf) {
                Some(port) => Ok(port),
                None => Err(Error::InvalidPortRequest),
            },
            Err(e) => Err(Error::BackendRead(e)),
        }
    }

    /// A host-side port has been assigned.
    pub open spec fn port_taken(self, port: u32) -> MuxerState {
        MuxerState { used_ports: self.used_ports.insert(port), last_port: port, ..self }
    }

    /// What a host-initiated connection is to be created with.
    pub open spec fn local_init(self, local_port: u32, peer_port: u32) -> ConnInit {
        ConnInit {
            local_cid: VSOCK_HOST_CID,
            peer_cid: self.cid,
            local_port,
            peer_port,
            peer_buf_alloc: None,
        }
    }

    /// What is to be done about an event of `fd`.
    pub open spec fn event_step(self, fd: i32) -> EventStep {
        if !self.listeners.contains_key(fd) {
            EventStep::Ignored
        } else {
            match self.listeners[fd] {
                EpollListener::Connection { key, evset, .. } => EventStep::Notify { key, evset },
                EpollListener::Backend(backend) => {
                    if self.backends.contains(backend) {
                        EventStep::Accept {
                            backend,
                            refused: self.conns.len() >= MAX_CONNECTIONS,
                        }
                    } else {
                        EventStep::NoBackend(backend)
                    }
                },
                EpollListener::LocalStream(stream) => EventStep::ReadPort {
                    stream,
                    ctl: EpollCtl::spec_delete(fd),
                },
            }
        }
    }

    /// The muxer after an event of `fd`: a host stream is no longer polled once
    /// it can be read.
    pub open spec fn handle_event(self, fd: i32) -> MuxerState {
        if self.listeners.contains_key(fd) && self.listeners[fd] is LocalStream {
            self.remove_listener(fd)
        } else {
            self
        }
    }

    /// Why a backend whose epoll call ended in `ctl` is not added, if it is
    /// not.
    pub open spec fn backend_result(
        self,
        backend: VsockBackendType,
        ctl: Result<(), IoError>,
    ) -> Result<(), Error> {
        if self.backends.contains(backend) {
            Err(Error::BackendRegistered(backend))
        } else {
            match ctl {
                Ok(()) => Ok(()),
                Err(e) => Err(Error::EpollAdd(e)),
            }
        }
    }

    /// A backend is added, whose new connections are announced on `fd`.
    pub open spec fn register_backend(
        self,
        backend: VsockBackendType,
        fd: i32,
        is_peer_backend: bool,
    ) -> MuxerState {
        MuxerState {
            listeners: self.listeners.insert(fd, EpollListener::Backend(backend)),
            backends: self.backends.insert(backend),
            peer_backend: if is_peer_backend {
                Some(backend)
            } else {
                self.peer_backend
            },
            ..self
        }
    }
}

} // verus!
