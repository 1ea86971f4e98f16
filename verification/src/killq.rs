use std::collections::VecDeque;

use vstd::prelude::*;

use crate::conn::{ConnMapKey, ConnState, ConnStatus, ConnTable};
use crate::defs::MUXER_KILLQ_SIZE;

verus! {

/// An item of the kill queue.
#[derive(Clone, Copy, Debug, PartialEq, Eq, Structural)]
pub struct KillItem {
    pub key: ConnMapKey,
    /// When the connection is to be terminated.
    pub kill_time: u64,
}

/// The contents of a kill queue.
#[verifier::ext_equal]
pub struct KillQueue {
    /// The items, in the order in which they will be looked at.
    pub items: Seq<KillItem>,
    /// Whether no item had to be left out.
    pub synced: bool,
}

/// Where an item that is due at `kill_time` belongs: behind the items that are
/// due no later.
pub open spec fn place_by_time(items: Seq<KillItem>, kill_time: u64) -> int
    decreases items.len(),
{
    if items.len() == 0 || items.last().kill_time <= kill_time {
        items.len() as int
    } else {
        place_by_time(items.drop_last(), kill_time)
    }
}

/// Whether the items are in the order of their times.
pub open spec fn in_order(items: Seq<KillItem>) -> bool {
    forall|i: int, j: int|
        0 <= i <= j < items.len() ==> (#[trigger] items[i]).kill_time <= (
        #[trigger] items[j]).kill_time
}

impl KillQueue {
    /// The queue after an item was pushed, which takes its place in the order
    /// of time. An item that finds no place puts the queue out of sync, and a
    /// queue that is out of sync takes no items.
    pub open spec fn push(self, key: ConnMapKey, kill_time: u64) -> KillQueue {
        if self.synced && self.items.len() < MUXER_KILLQ_SIZE {
            KillQueue {
                items: self.items.insert(
                    place_by_time(self.items, kill_time),
                    KillItem { key, kill_time },
                ),
                ..self
            }
        } else {
            KillQueue { synced: false, ..self }
        }
    }

    /// Whether the kill time of the first item has passed at `now`.
    pub open spec fn front_due(self, now: u64) -> bool {
        self.items.len() > 0 && self.items[0].kill_time < now
    }

    /// The queue without its first item.
    pub open spec fn pop(self) -> KillQueue {
        KillQueue { items: self.items.drop_first(), ..self }
    }

    /// Whether the queue is used up without having told of all connections, so
    /// that it has to be made anew.
    pub open spec fn spent(self) -> bool {
        self.items.len() == 0 && !self.synced
    }

    /// Whether the queue is one that is made of the connections whose kill
    /// timer is armed: each of them occurs once as far as there is room, those
    /// due first come first.
    pub open spec fn made_from(self, conns: Map<ConnMapKey, ConnStatus>) -> bool {
        &&& self.items.len() <= MUXER_KILLQ_SIZE
        &&& forall|i: int, j: int|
            0 <= i < j < self.items.len() ==> (#[trigger] self.items[i]).key != (
            #[trigger] self.items[j]).key
        &&& in_order(self.items)
        &&& forall|i: int| 0 <= i < self.items.len() ==> armed(conns, #[trigger] self.items[i])
        &&& self.synced <==> forall|item: KillItem| #[trigger]
            armed(conns, item) ==> self.items.contains(item)
        &&& !self.synced ==> self.items.len() == MUXER_KILLQ_SIZE
    }
}

/// Whether `item` names a connection with an armed kill timer, and its time. A
/// connection that was killed has no use for its timer any more.
pub open spec fn armed(conns: Map<ConnMapKey, ConnStatus>, item: KillItem) -> bool {
    &&& conns.contains_key(item.key)
    &&& conns[item.key].expiry == Some(item.kill_time)
    &&& conns[item.key].state != ConnState::Killed
}

/// In a queue that is in order, the place of an item by its time comes behind
/// all that are due no later, and before all others.
pub proof fn lemma_place_by_time(items: Seq<KillItem>, kill_time: u64)
    requires
        in_order(items),
    ensures
        0 <= place_by_time(items, kill_time) <= items.len(),
        forall|i: int|
            0 <= i < place_by_time(items, kill_time) ==> (#[trigger] items[i]).kill_time
                <= kill_time,
        forall|i: int|
            place_by_time(items, kill_time) <= i < items.len() ==> (#[trigger] items[i]).kill_time
                > kill_time,
    decreases items.len(),
{
    if items.len() > 0 {
        if items.last().kill_time > kill_time {
            let rest = items.drop_last();
            lemma_place_by_time(rest, kill_time);
            assert(forall|i: int| 0 <= i < rest.len() ==> rest[i] == #[trigger] items[i]);
        } else {
            assert forall|i: int| 0 <= i < items.len() implies (#[trigger] items[i]).kill_time
                <= kill_time by {
                assert(items[i].kill_time <= items[items.len() - 1].kill_time);
            }
        }
    }
}

/// A queue in order stays in order when an item is pushed.
pub proof fn lemma_push_in_order(q: KillQueue, key: ConnMapKey, kill_time: u64)
    requires
        in_order(q.items),
    ensures
        in_order(q.push(key, kill_time).items),
        0 <= place_by_time(q.items, kill_time) <= q.items.len(),
{
    lemma_place_by_time(q.items, kill_time);
}

/// A queue in order stays in order when its first item is taken out.
pub proof fn lemma_pop_in_order(q: KillQueue)
    requires
        in_order(q.items),
        q.items.len() > 0,
    ensures
        in_order(q.pop().items),
{
    assert(forall|i: int|
        0 <= i < q.pop().items.len() ==> #[trigger] q.pop().items[i] == q.items[i + 1]);
}

/// The queue of the connections whose kill timer is armed.
pub struct MuxerKillQ {
    q: VecDeque<KillItem>,
    synced: bool,
}

impl View for MuxerKillQ {
    type V = KillQueue;

    closed spec fn view(&self) -> KillQueue {
        KillQueue { items: self.q@, synced: self.synced }
    }
}

/// Adds an item to a queue that is in order, at its place by time.
fn insert_by_time(q: &mut VecDeque<KillItem>, item: KillItem)
    requires
        in_order(old(q)@),
    ensures
        final(q)@ == old(q)@.insert(place_by_time(old(q)@, item.kill_time), item),
        0 <= place_by_time(old(q)@, item.kill_time) <= old(q)@.len(),
        in_order(final(q)@),
{
    let mut at: usize = q.len();
    proof {
        assert(q@.take(at as int) =~= q@);
        lemma_place_by_time(q@, item.kill_time);
    }
    while at > 0 && q[at - 1].kill_time > item.kill_time
        invariant
            at <= q@.len(),
            q@ == old(q)@,
            place_by_time(q@, item.kill_time) == place_by_time(q@.take(at as int), item.kill_time),
        decreases at,
    {
        assert(q@.take(at as int).drop_last() =~= q@.take(at - 1));
        at = at - 1;
    }
    assert(place_by_time(q@.take(at as int), item.kill_time) == at);
    q.insert(at, item);
}

impl MuxerKillQ {
    /// The queue is within its capacity, and in the order of time.
    pub open spec fn wf(&self) -> bool {
        &&& self@.items.len() <= MUXER_KILLQ_SIZE
        &&& in_order(self@.items)
    }

    /// An empty queue.
    pub fn new() -> (killq: MuxerKillQ)
        ensures
            killq.wf(),
            killq@ == (KillQueue { items: Seq::empty(), synced: true }),
    {
        MuxerKillQ { q: VecDeque::new(), synced: true }
    }

    /// A queue of the connections whose kill timer is armed.
    pub fn from_conn_map(conns: &ConnTable) -> (killq: MuxerKillQ)
        ensures
            killq.wf(),
            killq@.made_from(conns@),
    {
        let keys = conns.keys();
        let mut q: VecDeque<KillItem> = VecDeque::new();
        let mut i: usize = 0;
        while i < keys.len()
            invariant
                i <= keys.len(),
                keys@.no_duplicates(),
                forall|key: ConnMapKey| #[trigger]
                    keys@.contains(key) <==> conns@.contains_key(key),
                q@.len() <= MUXER_KILLQ_SIZE,
                forall|a: int, b: int|
                    0 <= a < b < q@.len() ==> (#[trigger] q@[a]).key != (#[trigger] q@[b]).key,
                in_order(q@),
                forall|j: int|
                    0 <= j < q@.len() ==> armed(conns@, #[trigger] q@[j])
                        && keys@.take(i as int).contains(q@[j].key),
                forall|item: KillItem| #[trigger]
                    armed(conns@, item) && keys@.take(i as int).contains(item.key)
                        ==> q@.contains(item),
            decreases keys.len() - i,
        {
            let key = keys[i];
            assert(keys@.contains(key));
            let expiry: Option<u64> = match conns.get(key) {
                Some(conn) => {
                    if conn.state == ConnState::Killed {
                        None
                    } else {
                        conn.expiry
                    }
                },
                None => None,
            };
            let ghost before = q@;
            proof {
                assert(keys@.take(i + 1) =~= keys@.take(i as int).push(key));
                assert(keys@.take(i + 1)[i as int] == key);
                assert forall|k: ConnMapKey| keys@.take(i as int).contains(k) implies keys@.take(
                    i + 1,
                ).contains(k) && k != key by {
                    let j = choose|j: int| 0 <= j < i && keys@.take(i as int)[j] == k;
                    assert(keys@.take(i + 1)[j] == k);
                }
                assert forall|k: ConnMapKey| keys@.take(i + 1).contains(k) implies k == key
                    || keys@.take(i as int).contains(k) by {
                    let j = choose|j: int|
                        0 <= j < i + 1 && #[trigger] keys@.take(i + 1)[j] == k;
                    if j < i {
                        assert(keys@.take(i as int)[j] == k);
                    }
                }
            }
            if let Some(kill_time) = expiry {
                let item = KillItem { key, kill_time };
                assert(armed(conns@, item));
                if q.len() >= MUXER_KILLQ_SIZE {
                    assert(!q@.contains(item));
                    return MuxerKillQ { q, synced: false };
                }
                insert_by_time(&mut q, item);
                proof {
                    let at = place_by_time(before, kill_time);
                    assert(q@[at] == item);
                    assert forall|j: int| 0 <= j < q@.len() && j != at implies #[trigger] q@[j]
                        == before[if j < at { j } else { j - 1 }] by {}
                    assert forall|other: KillItem| before.contains(other) implies q@.contains(
                        other,
                    ) by {
                        let j = choose|j: int| 0 <= j < before.len() && before[j] == other;
                        assert(q@[if j < at { j } else { j + 1 }] == other);
                    }
                    assert forall|other: KillItem| #[trigger]
                        armed(conns@, other) && keys@.take(i + 1).contains(
                            other.key,
                        ) implies q@.contains(other) by {
                        if other.key == key {
                            assert(other == item);
                        }
                    }
                }
            }
            i = i + 1;
        }
        proof {
            assert(keys@.take(keys@.len() as int) =~= keys@);
            assert forall|item: KillItem| #[trigger] armed(conns@, item) implies q@.contains(
                item,
            ) by {
                assert(keys@.contains(item.key));
            }
        }
        MuxerKillQ { q, synced: true }
    }

    /// Schedules a connection for termination at `kill_time`.
    pub fn push(&mut self, key: ConnMapKey, kill_time: u64)
        requires
            old(self).wf(),
        ensures
            final(self).wf(),
            final(self)@ == old(self)@.push(key, kill_time),
    {
        if self.synced && self.q.len() < MUXER_KILLQ_SIZE {
            insert_by_time(&mut self.q, KillItem { key, kill_time });
        } else {
            self.synced = false;
        }
    }

    /// Takes the first item out of the queue if its time has passed at `now`,
    /// and gives its key.
    pub fn pop(&mut self, now: u64) -> (key: Option<ConnMapKey>)
        requires
            old(self).wf(),
        ensures
            final(self).wf(),
            old(self)@.front_due(now) ==> {
                &&& key == Some(old(self)@.items[0].key)
                &&& final(self)@ == old(self)@.pop()
            },
            !old(self)@.front_due(now) ==> key is None && final(self)@ == old(self)@,
    {
        if self.q.len() == 0 {
            return None;
        }
        let front = self.q[0];
        if front.kill_time < now {
            let _ = self.q.pop_front();
            assert(self@.items =~= old(self)@.pop().items);
            proof {
                lemma_pop_in_order(old(self)@);
            }
            Some(front.key)
        } else {
            None
        }
    }

    pub fn is_empty(&self) -> (b: bool)
        ensures
            b == (self@.items.len() == 0),
    {
        self.q.len() == 0
    }

    pub fn is_synced(&self) -> (b: bool)
        ensures
            b == self@.synced,
    {
        self.synced
    }
}

} // verus!
