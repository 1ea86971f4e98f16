use vsock_muxer::conn::ConnMapKey;
use vsock_muxer::error::VsockBackendType;
use vsock_muxer::events::{decode_event, CtlOp, EpollCtl, EventSet, RawEvent};
use vsock_muxer::listener::{EpollListener, LocalStream};
use vsock_muxer::steps::MutationStep;

const BACKEND: VsockBackendType = VsockBackendType { id: 1 };
const KEY: ConnMapKey = ConnMapKey { local_port: 1024, peer_port: 80 };

fn connection(local_port: u32, bits: u32, id: u32) -> EpollListener {
    EpollListener::Connection {
        key: ConnMapKey { local_port, peer_port: 80 },
        evset: EventSet { bits },
        backend: VsockBackendType { id },
    }
}

fn stream(fd: i32, id: u32) -> EpollListener {
    EpollListener::LocalStream(LocalStream { fd, backend: VsockBackendType { id } })
}

#[test]
fn epollin_is_the_bit_of_the_epoll_crate() {
    assert_eq!(EventSet::epollin().bits, 1);
    assert_eq!(EventSet::epollin().bits, epoll::Events::EPOLLIN.bits());
    assert!(!EventSet::epollin().is_empty());
    assert!(EventSet { bits: 0 }.is_empty());
}

#[test]
fn known_bits_are_decoded() {
    let all = epoll::Events::all().bits();
    assert_eq!(all, 0xF000_201F);
    let ev = RawEvent { events: all, data: 17 };
    assert_eq!(decode_event(ev), Some((17, EventSet { bits: all })));
    let none = RawEvent { events: 0, data: 5 };
    assert_eq!(decode_event(none), Some((5, EventSet { bits: 0 })));
}

#[test]
fn unknown_bits_are_not_decoded() {
    assert_eq!(decode_event(RawEvent { events: 0x20, data: 17 }), None);
    assert_eq!(decode_event(RawEvent { events: 0x21, data: 17 }), None);
    assert_eq!(decode_event(RawEvent { events: 0x0800_0000, data: 17 }), None);
}

#[test]
fn event_data_names_the_fd() {
    for fd in [0, 1, 42, i32::MAX, -1, i32::MIN] {
        let ctl = EpollCtl::add(fd, EventSet::epollin());
        let ev = RawEvent { events: 1, data: ctl.data };
        assert_eq!(decode_event(ev), Some((fd, EventSet { bits: 1 })));
    }
}

#[test]
fn control_calls() {
    let evset = EventSet { bits: 5 };
    assert_eq!(
        EpollCtl::add(9, evset),
        EpollCtl { op: CtlOp::Add, fd: 9, events: evset, data: 9 }
    );
    assert_eq!(
        EpollCtl::modify(9, evset),
        EpollCtl { op: CtlOp::Modify, fd: 9, events: evset, data: 9 }
    );
    assert_eq!(
        EpollCtl::delete(9),
        EpollCtl { op: CtlOp::Delete, fd: 9, events: EventSet { bits: 0 }, data: 0 }
    );
}

#[test]
fn listeners_are_polled_for_their_events() {
    assert_eq!(connection(1024, 5, 1).events(), EventSet { bits: 5 });
    assert_eq!(EpollListener::Backend(BACKEND).events(), EventSet { bits: 1 });
    assert_eq!(stream(8, 1).events(), EventSet { bits: 1 });
    assert_eq!(
        connection(1024, 5, 1).ctl(8),
        EpollCtl { op: CtlOp::Add, fd: 8, events: EventSet { bits: 5 }, data: 8 }
    );
}

#[test]
fn listener_equality() {
    assert!(connection(1024, 5, 1) == connection(1024, 5, 1));
    assert!(connection(1024, 5, 1) != connection(1025, 5, 1));
    assert!(connection(1024, 5, 1) != connection(1024, 4, 1));
    assert!(connection(1024, 5, 1) != connection(1024, 5, 2));
    assert!(EpollListener::Backend(BACKEND) == EpollListener::Backend(BACKEND));
    assert!(
        EpollListener::Backend(BACKEND) != EpollListener::Backend(VsockBackendType { id: 2 })
    );
    assert!(stream(8, 1) == stream(8, 1));
    assert!(stream(8, 1) != stream(9, 1));
    assert!(stream(8, 1) != stream(8, 2));
    assert!(stream(8, 1) != EpollListener::Backend(BACKEND));
    assert!(connection(1024, 5, 1) != stream(8, 1));
}

#[test]
fn steps_name_their_control_call() {
    let evset = EventSet { bits: 4 };
    assert_eq!(MutationStep::Done.ctl(), None);
    assert_eq!(MutationStep::Unregister { fd: 3 }.ctl(), Some(EpollCtl::delete(3)));
    assert_eq!(
        MutationStep::Update { fd: 3, evset }.ctl(),
        Some(EpollCtl::modify(3, evset))
    );
    let listener = EpollListener::Connection { key: KEY, evset, backend: BACKEND };
    assert_eq!(
        MutationStep::Register { fd: 3, listener }.ctl(),
        Some(EpollCtl::add(3, evset))
    );
}
