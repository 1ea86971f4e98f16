use std::collections::VecDeque;

use vstd::prelude::*;

use crate::conn::{ConnMapKey, ConnStatus, ConnTable};
use crate::defs::MUXER_RXQ_SIZE;

verus! {

/// An item of the RX queue.
#[derive(Clone, Copy, Debug, PartialEq, Eq, Structural)]
pub enum MuxerRx {
    /// The packet must be fetched from the connection with this key.
    ConnRx(ConnMapKey),
    /// The muxer must produce a reset.
    RstPkt { local_port: u32, peer_port: u32 },
}

/// The position of the last connection item, or -1 where there is none.
pub open spec fn last_conn_rx(items: Seq<MuxerRx>) -> int
    decreases items.len(),
{
    if items.len() == 0 {
        -1
    } else if items.last() is ConnRx {
        items.len() - 1
    } else {
        last_conn_rx(items.drop_last())
    }
}

/// The contents of an RX queue.
#[verifier::ext_equal]
pub struct RxQueue {
    /// The items, in the order in which they will be consumed.
    pub items: Seq<MuxerRx>,
    /// Whether no connection item had to be left out.
    pub synced: bool,
}

impl RxQueue {
    /// Whether `rx` finds a place. A connection item needs room in a queue that
    /// is in sync; a reset needs room, or a connection item to displace.
    pub open spec fn accepts(self, rx: MuxerRx) -> bool {
        match rx {
            MuxerRx::ConnRx(_) => self.synced && self.items.len() < MUXER_RXQ_SIZE,
            MuxerRx::RstPkt { .. } => {
                ||| self.items.len() < MUXER_RXQ_SIZE
                ||| last_conn_rx(self.items) >= 0
            },
        }
    }

    /// The queue after `rx` was pushed. The queue loses sync when a connection
    /// item is turned down, or displaced by a reset.
    pub open spec fn push(self, rx: MuxerRx) -> RxQueue {
        match rx {
            MuxerRx::ConnRx(_) => {
                if self.accepts(rx) {
                    RxQueue { items: self.items.push(rx), ..self }
                } else {
                    RxQueue { synced: false, ..self }
                }
            },
            MuxerRx::RstPkt { .. } => {
                if self.items.len() < MUXER_RXQ_SIZE {
                    RxQueue { items: self.items.push(rx), ..self }
                } else if last_conn_rx(self.items) >= 0 {
                    RxQueue {
                        items: self.items.update(last_conn_rx(self.items), rx),
                        synced: false,
                    }
                } else {
                    self
                }
            },
        }
    }

    /// The queue without its first item.
    pub open spec fn pop(self) -> RxQueue {
        if self.items.len() == 0 {
            self
        } else {
            RxQueue { items: self.items.drop_first(), ..self }
        }
    }

    /// Whether the queue is one that is made of the connections that have a
    /// packet for the guest: each of them occurs once as far as there is room.
    pub open spec fn made_from(self, conns: Map<ConnMapKey, ConnStatus>) -> bool {
        &&& self.items.len() <= MUXER_RXQ_SIZE
        &&& self.items.no_duplicates()
        &&& forall|i: int|
            0 <= i < self.items.len() ==> (#[trigger] self.items[i] matches MuxerRx::ConnRx(key)
                && conns.contains_key(key) && conns[key].pending_rx)
        &&& self.synced <==> forall|key: ConnMapKey| #[trigger]
            conns.contains_key(key) && conns[key].pending_rx ==> self.items.contains(
                MuxerRx::ConnRx(key),
            )
        &&& !self.synced ==> self.items.len() == MUXER_RXQ_SIZE
    }
}

/// The queue of what is to be delivered to the guest.
pub struct MuxerRxQ {
    q: VecDeque<MuxerRx>,
    synced: bool,
}

impl View for MuxerRxQ {
    type V = RxQueue;

    closed spec fn view(&self) -> RxQueue {
        RxQueue { items: self.q@, synced: self.synced }
    }
}

impl MuxerRxQ {
    /// The queue is within its capacity.
    pub open spec fn wf(&self) -> bool {
        self@.items.len() <= MUXER_RXQ_SIZE
    }

    /// An empty queue.
    pub fn new() -> (rxq: MuxerRxQ)
        ensures
            rxq.wf(),
            rxq@ == (RxQueue { items: Seq::empty(), synced: true }),
    {
        MuxerRxQ { q: VecDeque::new(), synced: true }
    }

    /// A queue of the connections that have a packet for the guest.
    pub fn from_conn_map(conns: &ConnTable) -> (rxq: MuxerRxQ)
        ensures
            rxq.wf(),
            rxq@.made_from(conns@),
    {
        let keys = conns.keys();
        let mut q: VecDeque<MuxerRx> = VecDeque::new();
        let mut i: usize = 0;
        while i < keys.len()
            invariant
                i <= keys.len(),
                keys@.no_duplicates(),
                forall|key: ConnMapKey| #[trigger]
                    keys@.contains(key) <==> conns@.contains_key(key),
                q@.len() <= MUXER_RXQ_SIZE,
                q@.no_duplicates(),
                forall|j: int|
                    0 <= j < q@.len() ==> (#[trigger] q@[j] matches MuxerRx::ConnRx(key)
                        && conns@.contains_key(key) && conns@[key].pending_rx && keys@.take(
                        i as int,
                    ).contains(key)),
                forall|j: int|
                    0 <= j < i && conns@[#[trigger] keys@[j]].pending_rx ==> q@.contains(
                        MuxerRx::ConnRx(keys@[j]),
                    ),
            decreases keys.len() - i,
        {
            let key = keys[i];
            assert(keys@.contains(key));
            let pending = match conns.get(key) {
                Some(conn) => conn.pending_rx,
                None => false,
            };
            let ghost before = q@;
            proof {
                assert(keys@.take(i + 1) =~= keys@.take(i as int).push(key));
                assert(keys@.take(i + 1)[i as int] == key);
                assert forall|k: ConnMapKey| keys@.take(i as int).contains(k) implies keys@.take(
                    i + 1,
                ).contains(k) && k != key by {
                    let j = choose|j: int| 0 <= j < i && keys@.take(i as int)[j] == k;
                    assert(keys@.take(i + 1)[j] == k);
                }
            }
            if pending {
                if q.len() >= MUXER_RXQ_SIZE {
                    assert(!q@.contains(MuxerRx::ConnRx(key)));
                    return MuxerRxQ { q, synced: false };
                }
                q.push_back(MuxerRx::ConnRx(key));
                assert(q@[before.len() as int] == MuxerRx::ConnRx(key));
                assert forall|j: int|
                    0 <= j < i && conns@[#[trigger] keys@[j]].pending_rx implies q@.contains(
                    MuxerRx::ConnRx(keys@[j]),
                ) by {
                    let n = choose|n: int|
                        0 <= n < before.len() && before[n] == MuxerRx::ConnRx(keys@[j]);
                    assert(q@[n] == before[n]);
                }
            }
            i = i + 1;
        }
        proof {
            assert forall|key: ConnMapKey| #[trigger]
                conns@.contains_key(key) && conns@[key].pending_rx implies q@.contains(
                MuxerRx::ConnRx(key),
            ) by {
                assert(keys@.contains(key));
                let j = choose|j: int| 0 <= j < keys.len() && keys@[j] == key;
                assert(conns@[keys@[j]].pending_rx);
            }
        }
        MuxerRxQ { q, synced: true }
    }

    /// Adds an item, and says whether it found a place.
    pub fn push(&mut self, rx: MuxerRx) -> (pushed: bool)
        requires
            old(self).wf(),
        ensures
            final(self).wf(),
            final(self)@ == old(self)@.push(rx),
            pushed == old(self)@.accepts(rx),
    {
        match rx {
            MuxerRx::ConnRx(_) => {
                if self.synced && self.q.len() < MUXER_RXQ_SIZE {
                    self.q.push_back(rx);
                    true
                } else {
                    self.synced = false;
                    false
                }
            },
            MuxerRx::RstPkt { .. } => {
                if self.q.len() < MUXER_RXQ_SIZE {
                    self.q.push_back(rx);
                    return true;
                }
                let mut i: usize = self.q.len();
                assert(self.q@.take(i as int) =~= self.q@);
                while i > 0
                    invariant
                        i <= self.q@.len(),
                        self@ == old(self)@,
                        self.q@.len() == MUXER_RXQ_SIZE,
                        rx is RstPkt,
                        last_conn_rx(self.q@) == last_conn_rx(self.q@.take(i as int)),
                    decreases i,
                {
                    i = i - 1;
                    assert(self.q@.take(i + 1).drop_last() =~= self.q@.take(i as int));
                    let is_conn = match self.q[i] {
                        MuxerRx::ConnRx(_) => true,
                        MuxerRx::RstPkt { .. } => false,
                    };
                    if is_conn {
                        let _ = self.q.remove(i);
                        self.q.insert(i, rx);
                        self.synced = false;
                        assert(self.q@ =~= old(self)@.items.update(i as int, rx));
                        return true;
                    }
                }
                false
            },
        }
    }

    /// The first item, which stays in the queue.
    pub fn peek(&self) -> (rx: Option<MuxerRx>)
        ensures
            rx == if self@.items.len() > 0 {
                Some(self@.items[0])
            } else {
                None
            },
    {
        if self.q.len() > 0 {
            Some(self.q[0])
        } else {
            None
        }
    }

    /// Takes the first item out of the queue.
    pub fn pop(&mut self) -> (rx: Option<MuxerRx>)
        ensures
            final(self)@ == old(self)@.pop(),
            rx == if old(self)@.items.len() > 0 {
                Some(old(self)@.items[0])
            } else {
                None
            },
    {
        let rx = self.q.pop_front();
        assert(self@.items =~= old(self)@.pop().items);
        rx
    }

    pub fn len(&self) -> (n: usize)
        ensures
            n == self@.items.len(),
    {
        self.q.len()
    }

    pub fn is_empty(&self) -> (b: bool)
        ensures
            b == (self@.items.len() == 0),
    {
        self.q.len() == 0
    }

    pub fn is_synced(&self) -> (b: bool)
        ensures
            b == self@.synced,
    {
        self.synced
    }
}

} // verus!
