use vstd::prelude::*;

use crate::defs::{VSOCK_HOST_CID, VSOCK_OP_RST, VSOCK_TYPE_STREAM};

verus! {

/// The header of a vsock packet. What a packet carries beyond it never matters
/// to the muxer.
#[derive(Clone, Copy, Debug, PartialEq, Eq, Structural)]
pub struct VsockPacket {
    pub src_cid: u64,
    pub dst_cid: u64,
    pub src_port: u32,
    pub dst_port: u32,
    pub len: u32,
    pub type_: u16,
    pub op: u16,
    pub flags: u32,
    pub buf_alloc: u32,
    pub fwd_cnt: u32,
}

impl VsockPacket {
    /// The reset that the host sends to the guest `cid`, from the host-side
    /// port `local_port` to the guest-side port `peer_port`.
    pub open spec fn spec_rst(cid: u64, local_port: u32, peer_port: u32) -> VsockPacket {
        VsockPacket {
            src_cid: VSOCK_HOST_CID,
            dst_cid: cid,
            src_port: local_port,
            dst_port: peer_port,
            len: 0,
            type_: VSOCK_TYPE_STREAM,
            op: VSOCK_OP_RST,
            flags: 0,
            buf_alloc: 0,
            fwd_cnt: 0,
        }
    }

    /// Turns the packet into the reset from `local_port` to `peer_port` of the
    /// guest `cid`.
    pub fn set_rst(&mut self, cid: u64, local_port: u32, peer_port: u32)
        ensures
            *final(self) == VsockPacket::spec_rst(cid, local_port, peer_port),
    {
        self.op = VSOCK_OP_RST;
        self.src_cid = VSOCK_HOST_CID;
        self.dst_cid = cid;
        self.src_port = local_port;
        self.dst_port = peer_port;
        self.len = 0;
        self.type_ = VSOCK_TYPE_STREAM;
        self.flags = 0;
        self.buf_alloc = 0;
        self.fwd_cnt = 0;
    }
}

} // verus!
