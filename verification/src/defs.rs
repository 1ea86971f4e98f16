use vstd::prelude::*;

verus! {

/// The context id of the host.
pub const VSOCK_HOST_CID: u64 = 2;

/// The only supported packet type.
pub const VSOCK_TYPE_STREAM: u16 = 1;

/// Packet operation: connection request.
pub const VSOCK_OP_REQUEST: u16 = 1;

/// Packet operation: connection reset.
pub const VSOCK_OP_RST: u16 = 3;

/// The largest number of connections the muxer holds at a time.
pub const MAX_CONNECTIONS: usize = 1023;

/// The capacity of the RX queue.
pub const MUXER_RXQ_SIZE: usize = 256;

/// The capacity of the kill queue.
pub const MUXER_KILLQ_SIZE: usize = 128;

} // verus!
