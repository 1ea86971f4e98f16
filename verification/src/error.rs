use vstd::prelude::*;

verus! {

/// A failed operating system call, by its error number. A failure that has no
/// number is -1.
#[derive(Clone, Copy, Debug, PartialEq, Eq, Structural)]
pub struct IoError {
    pub code: i32,
}

/// Identifies a kind of host backend.
#[derive(Clone, Copy, Debug, PartialEq, Eq, Structural)]
pub struct VsockBackendType {
    pub id: u32,
}

/// What can go wrong in the muxer.
#[derive(Clone, Copy, Debug, PartialEq, Eq, Structural)]
pub enum Error {
    /// A backend of this type has been added before.
    BackendRegistered(VsockBackendType),
    /// The nested epoll file descriptor could not be created.
    EpollFdCreate(IoError),
    /// A file descriptor could not be registered with epoll.
    EpollAdd(IoError),
    /// A host-initiated connection could not be accepted.
    BackendAccept(IoError),
    /// The backend could not be reached for a guest-initiated connection.
    BackendConnect(IoError),
    /// A host stream could not be read.
    BackendRead(IoError),
    /// A host stream did not carry a valid "connect" command.
    InvalidPortRequest,
    /// The connection limit is reached.
    TooManyConnections,
}

} // verus!
