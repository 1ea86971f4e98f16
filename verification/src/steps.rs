use vstd::prelude::*;

use crate::conn::{ConnMapKey, ConnState, ConnStatus};
use crate::error::{Error, IoError, VsockBackendType};
use crate::events::{EpollCtl, EventSet};
use crate::listener::{EpollListener, LocalStream};

verus! {

/// What has become of a connection that was handed something to do.
#[derive(Clone, Copy, Debug)]
pub struct ConnReport {
    /// The connection's state right afterwards, which decides whether an
    /// acknowledgement is due.
    pub state: ConnState,
    /// How many bytes of the acknowledgement were written to the host stream.
    /// Without meaning if none was due.
    pub ack: Result<usize, IoError>,
    /// The connection's status once the acknowledgement was written, if one was
    /// due.
    pub status: ConnStatus,
    /// The events that the connection is interested in, after it was killed if
    /// the acknowledgement failed.
    pub evset: EventSet,
    /// The time before.
    pub began: u64,
    /// The time afterwards.
    pub ended: u64,
}

/// What a change of a connection means for the polling of its file descriptor.
#[derive(Clone, Copy, Debug)]
pub enum MutationStep {
    /// Nothing changes.
    Done,
    /// The file descriptor is no longer polled.
    Unregister { fd: i32 },
    /// The file descriptor is polled for other events.
    Update { fd: i32, evset: EventSet },
    /// The file descriptor is polled again, for this listener.
    Register { fd: i32, listener: EpollListener },
}

impl MutationStep {
    /// The epoll call that carries the step out.
    pub open spec fn spec_ctl(self) -> Option<EpollCtl> {
        match self {
            MutationStep::Done => None,
            MutationStep::Unregister { fd } => Some(EpollCtl::spec_delete(fd)),
            MutationStep::Update { fd, evset } => Some(EpollCtl::spec_modify(fd, evset)),
            MutationStep::Register { fd, listener } => Some(
                EpollCtl::spec_add(fd, listener.spec_events()),
            ),
        }
    }

    pub fn ctl(&self) -> (ctl: Option<EpollCtl>)
        ensures
            ctl == self.spec_ctl(),
    {
        match self {
            MutationStep::Done => None,
            MutationStep::Unregister { fd } => Some(EpollCtl::delete(*fd)),
            MutationStep::Update { fd, evset } => Some(EpollCtl::modify(*fd, *evset)),
            MutationStep::Register { fd, listener } => Some(listener.ctl(*fd)),
        }
    }
}

/// A listener that was taken away.
#[derive(Clone, Copy, Debug)]
pub struct Unlistened {
    /// The listener, if there was one.
    pub listener: Option<EpollListener>,
    /// The epoll call that stops polling its file descriptor, if there was one.
    pub ctl: Option<EpollCtl>,
}

/// A connection that was taken out of the pool.
#[derive(Clone, Copy, Debug, PartialEq, Eq, Structural)]
pub struct Removal {
    pub key: ConnMapKey,
    /// The epoll call that stops polling its file descriptor, if it was polled.
    pub ctl: Option<EpollCtl>,
}

/// How a packet for the guest comes about.
#[derive(Clone, Copy, Debug, PartialEq, Eq, Structural)]
pub enum RecvStep {
    /// There is nothing to deliver.
    NoData,
    /// The packet is filled in. If it resets a connection, that connection was
    /// removed.
    Packet { removed: Option<Removal> },
    /// The packet is to be filled in by the connection with this key.
    Fetch(ConnMapKey),
}

/// What is to be done with a packet from the guest.
#[derive(Clone, Copy, Debug, PartialEq, Eq, Structural)]
pub enum SendStep {
    /// Nothing: the packet is for another context id.
    Dropped,
    /// Nothing further: the packet is answered by a reset. `queued` says
    /// whether the reset found a place in the RX queue.
    Reset { queued: bool },
    /// Nothing further: the packet is a connection request, there is no backend
    /// for it, and it is answered by a reset. `queued` says whether the reset
    /// found a place in the RX queue.
    NoBackend { queued: bool },
    /// The packet reset this connection.
    Removed(Removal),
    /// The packet is a connection request: the backend is to be asked for a
    /// host stream to this port.
    Connect { backend: VsockBackendType, port: u32 },
    /// The packet belongs to the connection with this key.
    Forward(ConnMapKey),
}

/// What is to be done about an event.
#[derive(Clone, Copy, Debug, PartialEq, Eq, Structural)]
pub enum EventStep {
    /// Nobody listens.
    Ignored,
    /// The backend that listens has not been added.
    NoBackend(VsockBackendType),
    /// The connection with this key is to be notified of these events.
    Notify { key: ConnMapKey, evset: EventSet },
    /// A host stream is to be accepted from the backend, and dropped at once if
    /// it is refused.
    Accept { backend: VsockBackendType, refused: bool },
    /// The stream's "connect" command is to be read, after the epoll call that
    /// stops polling it.
    ReadPort { stream: LocalStream, ctl: EpollCtl },
}

/// What a new connection is to be created with.
#[derive(Clone, Copy, Debug, PartialEq, Eq, Structural)]
pub struct ConnInit {
    pub local_cid: u64,
    pub peer_cid: u64,
    pub local_port: u32,
    pub peer_port: u32,
    /// The guest's receive buffer size, if the guest initiated the connection.
    pub peer_buf_alloc: Option<u32>,
}

impl ConnInit {
    /// The key under which the connection is added to the pool.
    pub fn key(&self) -> (key: ConnMapKey)
        ensures
            key == (ConnMapKey { local_port: self.local_port, peer_port: self.peer_port }),
    {
        ConnMapKey { local_port: self.local_port, peer_port: self.peer_port }
    }
}

/// A connection that is to be added to the pool.
#[derive(Clone, Copy, Debug, PartialEq, Eq, Structural)]
pub struct NewConn {
    pub status: ConnStatus,
    /// The events that the connection is interested in.
    pub evset: EventSet,
}

/// How a connection is to be added to the pool.
#[derive(Debug)]
pub struct AddStep {
    /// The connections that turned out to have expired: they are to be killed.
    pub killed: Vec<ConnMapKey>,
    /// The epoll call that starts polling the new connection, or why the
    /// connection is not added.
    pub ctl: Result<EpollCtl, Error>,
    /// Whether the guest is owed a reset that found no place in the RX queue.
    pub rst_dropped: bool,
}

/// How adding a connection that the guest requested has ended.
#[derive(Clone, Copy, Debug)]
pub struct PeerAdded {
    /// Why the connection was not added, if it was not.
    pub res: Result<(), Error>,
    /// Whether the guest is owed a reset that found no place in the RX queue.
    pub rst_dropped: bool,
}

} // verus!
