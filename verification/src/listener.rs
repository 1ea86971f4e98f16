use vstd::prelude::*;

use crate::conn::ConnMapKey;
use crate::error::VsockBackendType;
use crate::events::{EpollCtl, EventSet};

verus! {

/// A host stream that was accepted from a backend, and has not told its
/// destination port yet.
#[derive(Clone, Copy, Debug, PartialEq, Eq, Structural)]
pub struct LocalStream {
    pub fd: i32,
    pub backend: VsockBackendType,
}

/// Who is to be told about the events of a polled file descriptor.
#[derive(Clone, Copy, Debug)]
pub enum EpollListener {
    /// The connection with key `key`, which is interested in the events in
    /// `evset`.
    Connection { key: ConnMapKey, evset: EventSet, backend: VsockBackendType },
    /// A backend that may have new host-initiated connections.
    Backend(VsockBackendType),
    /// A freshly accepted host stream, from which a "connect" command is to be
    /// read.
    LocalStream(LocalStream),
}

impl PartialEq for EpollListener {
    fn eq(&self, other: &EpollListener) -> (b: bool) {
        match (self, other) {
            (
                EpollListener::Connection { key: key1, evset: evset1, backend: backend1 },
                EpollListener::Connection { key: key2, evset: evset2, backend: backend2 },
            ) => *key1 == *key2 && *evset1 == *evset2 && *backend1 == *backend2,
            (EpollListener::Backend(backend1), EpollListener::Backend(backend2)) => *backend1
                == *backend2,
            (EpollListener::LocalStream(stream1), EpollListener::LocalStream(stream2)) => {
                stream1.fd == stream2.fd && stream1.backend == stream2.backend
            },
            _ => false,
        }
    }
}

impl vstd::std_specs::cmp::PartialEqSpecImpl for EpollListener {
    open spec fn obeys_eq_spec() -> bool {
        true
    }

    /// Two listeners are equal if they are of the same kind and all that is
    /// known of them is the same.
    open spec fn eq_spec(&self, other: &EpollListener) -> bool {
        *self == *other
    }
}

impl EpollListener {
    /// The events that the listener is to be polled for.
    pub open spec fn spec_events(self) -> EventSet {
        match self {
            EpollListener::Connection { evset, .. } => evset,
            EpollListener::Backend(_) => crate::events::epollin_set(),
            EpollListener::LocalStream(_) => crate::events::epollin_set(),
        }
    }

    pub fn events(&self) -> (evset: EventSet)
        ensures
            evset == self.spec_events(),
    {
        match self {
            EpollListener::Connection { evset, .. } => *evset,
            EpollListener::Backend(_) => EventSet::epollin(),
            EpollListener::LocalStream(_) => EventSet::epollin(),
        }
    }

    /// The epoll call that starts polling `fd` for the listener.
    pub fn ctl(&self, fd: i32) -> (ctl: EpollCtl)
        ensures
            ctl == EpollCtl::spec_add(fd, self.spec_events()),
    {
        EpollCtl::add(fd, self.events())
    }
}

} // verus!
