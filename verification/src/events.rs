use vstd::prelude::*;

verus! {

/// A set of epoll events, as the bits that epoll uses for it.
#[derive(Clone, Copy, Debug, PartialEq, Eq, Structural)]
pub struct EventSet {
    pub bits: u32,
}

/// The bit of the event "ready to be read".
pub open spec fn epollin_bits() -> u32 {
    0x1
}

/// The union of the bits of all events that the epoll crate defines: IN, PRI,
/// OUT, ERR, HUP, RDHUP, EXCLUSIVE, WAKEUP, ONESHOT and ET.
pub open spec fn known_event_bits() -> u32 {
    0xF000_201F
}

/// The event set that holds only "ready to be read".
pub open spec fn epollin_set() -> EventSet {
    EventSet { bits: epollin_bits() }
}

/// Calls `epoll::Events::EPOLLIN.bits()`: the bit of the event "ready to be
/// read", which Linux fixes at 1.
#[verifier::external_body]
fn epoll_in_bits() -> (bits: u32)
    ensures
        bits == epollin_bits(),
{
    epoll::Events::EPOLLIN.bits()
}

/// Calls `epoll::Events::from_bits`: the bits are handed back unchanged if
/// each of them belongs to an event that the epoll crate defines, else there
/// is no result.
#[verifier::external_body]
fn epoll_from_bits(bits: u32) -> (events: Option<u32>)
    ensures
        events == if bits & !known_event_bits() == 0 {
            Some(bits)
        } else {
            None
        },
{
    epoll::Events::from_bits(bits).map(|e| e.bits())
}

impl EventSet {
    /// The set of the single event "ready to be read".
    pub fn epollin() -> (set: EventSet)
        ensures
            set == epollin_set(),
    {
        EventSet { bits: epoll_in_bits() }
    }

    /// Whether the set holds no event.
    pub fn is_empty(&self) -> (b: bool)
        ensures
            b == (self.bits == 0),
    {
        self.bits == 0
    }
}

/// What an epoll control call does to its file descriptor.
#[derive(Clone, Copy, Debug, PartialEq, Eq, Structural)]
pub enum CtlOp {
    Add,
    Modify,
    Delete,
}

/// The arguments of one epoll control call under the nested epoll file
/// descriptor.
#[derive(Clone, Copy, Debug, PartialEq, Eq, Structural)]
pub struct EpollCtl {
    pub op: CtlOp,
    pub fd: i32,
    pub events: EventSet,
    /// The value that epoll hands back with each event of `fd`.
    pub data: u64,
}

impl EpollCtl {
    /// The call that starts polling `fd` for `events`.
    pub open spec fn spec_add(fd: i32, events: EventSet) -> EpollCtl {
        EpollCtl { op: CtlOp::Add, fd, events, data: fd as u64 }
    }

    /// The call that changes the events that `fd` is polled for.
    pub open spec fn spec_modify(fd: i32, events: EventSet) -> EpollCtl {
        EpollCtl { op: CtlOp::Modify, fd, events, data: fd as u64 }
    }

    /// The call that stops polling `fd`.
    pub open spec fn spec_delete(fd: i32) -> EpollCtl {
        EpollCtl { op: CtlOp::Delete, fd, events: (EventSet { bits: 0 }), data: 0 }
    }

    pub fn add(fd: i32, events: EventSet) -> (ctl: EpollCtl)
        ensures
            ctl == EpollCtl::spec_add(fd, events),
    {
        EpollCtl { op: CtlOp::Add, fd, events, data: fd as u64 }
    }

    pub fn modify(fd: i32, events: EventSet) -> (ctl: EpollCtl)
        ensures
            ctl == EpollCtl::spec_modify(fd, events),
    {
        EpollCtl { op: CtlOp::Modify, fd, events, data: fd as u64 }
    }

    pub fn delete(fd: i32) -> (ctl: EpollCtl)
        ensures
            ctl == EpollCtl::spec_delete(fd),
    {
        EpollCtl { op: CtlOp::Delete, fd, events: EventSet { bits: 0 }, data: 0 }
    }
}

/// One event as epoll delivers it.
#[derive(Clone, Copy, Debug, PartialEq, Eq, Structural)]
pub struct RawEvent {
    pub events: u32,
    pub data: u64,
}

/// The file descriptor an event belongs to, and the events that occurred.
/// There is no result for an event with bits that the epoll crate does not
/// define.
pub fn decode_event(ev: RawEvent) -> (decoded: Option<(i32, EventSet)>)
    ensures
        decoded == if ev.events & !known_event_bits() == 0 {
            Some((ev.data as i32, (EventSet { bits: ev.events })))
        } else {
            None
        },
{
    match epoll_from_bits(ev.events) {
        Some(bits) => Some((ev.data as i32, EventSet { bits })),
        None => None,
    }
}

/// An event that epoll hands back for a registered file descriptor is decoded
/// to that very file descriptor.
pub proof fn event_data_names_the_fd(fd: i32, events: EventSet)
    ensures
        EpollCtl::spec_add(fd, events).data as i32 == fd,
        EpollCtl::spec_modify(fd, events).data as i32 == fd,
{
    assert((fd as u64) as i32 == fd) by (bit_vector);
}

} // verus!
