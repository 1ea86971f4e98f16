use std::collections::HashSet;

use vstd::prelude::*;

verus! {

/// The lowest host-side port that is assigned to a host-initiated connection.
pub const LOCAL_PORT_FIRST: u32 = 0x4000_0000;

/// The number of ports that can be assigned.
pub const LOCAL_PORT_COUNT: u32 = 0x4000_0000;

/// Whether `port` can be assigned to a host-initiated connection: the ports
/// from 2^30 up to, but not including, 2^31.
pub open spec fn is_local_port(port: u32) -> bool {
    LOCAL_PORT_FIRST <= port < LOCAL_PORT_FIRST + LOCAL_PORT_COUNT
}

/// The port `k` steps after `last`, going round within the assignable ports.
pub open spec fn port_after(last: u32, k: int) -> u32 {
    (LOCAL_PORT_FIRST + (last - LOCAL_PORT_FIRST + k) % (LOCAL_PORT_COUNT as int)) as u32
}

/// Whether `port` is the first free port after `last`: it is `k` steps away,
/// and all ports on the way there are taken.
pub open spec fn first_free_at(used: Set<u32>, last: u32, port: u32, k: int) -> bool {
    &&& 1 <= k <= LOCAL_PORT_COUNT
    &&& port == port_after(last, k)
    &&& !used.contains(port)
    &&& forall|j: int| 1 <= j < k ==> used.contains(#[trigger] port_after(last, j))
}

/// Whether `port` is the first free port after `last`.
pub open spec fn is_next_free(used: Set<u32>, last: u32, port: u32) -> bool {
    exists|k: int| first_free_at(used, last, port, k)
}

/// Whether an assignable port is left.
pub open spec fn has_free_port(used: Set<u32>) -> bool {
    exists|p: u32| #[trigger] is_local_port(p) && !used.contains(p)
}

/// The host-side ports in use by host-initiated connections.
pub struct LocalPorts {
    used: HashSet<u32>,
    last: u32,
}

impl LocalPorts {
    /// The ports in use.
    pub closed spec fn used(&self) -> Set<u32> {
        self.used@
    }

    /// The port that was assigned last.
    pub closed spec fn last(&self) -> u32 {
        self.last
    }

    /// Only assignable ports are in use.
    pub open spec fn wf(&self) -> bool {
        &&& self.used().finite()
        &&& forall|p: u32| #[trigger] self.used().contains(p) ==> is_local_port(p)
        &&& LOCAL_PORT_FIRST - 1 <= self.last() < LOCAL_PORT_FIRST + LOCAL_PORT_COUNT
    }

    /// No port is in use, and the lowest one is the next.
    pub fn new() -> (ports: LocalPorts)
        ensures
            ports.wf(),
            ports.used() == Set::<u32>::empty(),
            ports.last() == LOCAL_PORT_FIRST - 1,
    {
        LocalPorts { used: HashSet::new(), last: LOCAL_PORT_FIRST - 1 }
    }

    /// Assigns the first free port after the one that was assigned last.
    pub fn allocate(&mut self) -> (port: u32)
        requires
            old(self).wf(),
            has_free_port(old(self).used()),
        ensures
            final(self).wf(),
            is_local_port(port),
            is_next_free(old(self).used(), old(self).last(), port),
            final(self).used() == old(self).used().insert(port),
            final(self).last() == port,
    {
        let ghost used = self.used@;
        let ghost start = self.last;
        let ghost free = choose|p: u32| is_local_port(p) && !used.contains(p);
        let ghost n = LOCAL_PORT_COUNT as int;
        // The number of steps from `start` to `free`.
        let ghost dist = (free - start - 1) % n + 1;
        let ghost mut k: int = 0;
        proof {
            lemma_port_at_distance(start, free);
            assert(port_after(start, dist) == free);
        }
        loop
            invariant_except_break
                self.used@ == used,
                0 <= k < dist <= n,
                k == 0 ==> self.last == start,
                k > 0 ==> self.last == port_after(start, k),
                !used.contains(port_after(start, dist)),
                forall|j: int| 1 <= j <= k ==> used.contains(#[trigger] port_after(start, j)),
            invariant
                used.finite(),
                forall|p: u32| #[trigger] used.contains(p) ==> is_local_port(p),
                LOCAL_PORT_FIRST - 1 <= start < LOCAL_PORT_FIRST + LOCAL_PORT_COUNT,
                n == LOCAL_PORT_COUNT,
            ensures
                first_free_at(used, start, self.last, k),
                self.used@ == used.insert(self.last),
                is_local_port(self.last),
            decreases dist - k,
        {
            let prev = self.last;
            proof {
                lemma_next_port(prev);
                lemma_port_step(start, k);
            }
            self.last = (prev + 1) & !(1u32 << 31) | (1u32 << 30);
            proof {
                k = k + 1;
            }
            if self.used.insert(self.last) {
                break;
            }
            proof {
                assert(used.insert(self.last) =~= used);
                assert(used.contains(port_after(start, k)));
            }
        }
        self.last
    }

    /// Makes `port` free again, if it is in use.
    pub fn free(&mut self, port: u32)
        requires
            old(self).wf(),
        ensures
            final(self).wf(),
            final(self).used() == old(self).used().remove(port),
            final(self).last() == old(self).last(),
    {
        self.used.remove(&port);
    }

    /// Whether some port can still be assigned.
    pub fn has_free(&self) -> (b: bool)
        requires
            self.wf(),
        ensures
            b == has_free_port(self.used()),
    {
        proof {
            lemma_free_port_iff(self.used@);
        }
        self.used.len() < LOCAL_PORT_COUNT as usize
    }
}

/// The step from one port to the next, by masking, stays within the assignable
/// ports and goes round at their end.
proof fn lemma_next_port(prev: u32)
    requires
        LOCAL_PORT_FIRST - 1 <= prev < LOCAL_PORT_FIRST + LOCAL_PORT_COUNT,
    ensures
        ((prev + 1) as u32) & !(1u32 << 31) | (1u32 << 30) == port_after(prev, 1),
        is_local_port(port_after(prev, 1)),
{
    let next = (prev + 1) as u32;
    assert(next & !(1u32 << 31) | (1u32 << 30) == if next == 0x8000_0000u32 {
        0x4000_0000u32
    } else {
        next
    }) by (bit_vector)
        requires
            0x4000_0000u32 <= next <= 0x8000_0000u32,
    ;
}

/// Stepping on by one from the port `k` steps after `start` reaches the port
/// `k + 1` steps after it.
proof fn lemma_port_step(start: u32, k: int)
    requires
        LOCAL_PORT_FIRST - 1 <= start < LOCAL_PORT_FIRST + LOCAL_PORT_COUNT,
        0 <= k <= LOCAL_PORT_COUNT,
    ensures
        port_after(start, k + 1) == port_after(if k == 0 { start } else { port_after(start, k) }, 1),
        is_local_port(port_after(start, k + 1)),
{
}

/// Every assignable port is reached from `start` within one round.
proof fn lemma_port_at_distance(start: u32, port: u32)
    requires
        LOCAL_PORT_FIRST - 1 <= start < LOCAL_PORT_FIRST + LOCAL_PORT_COUNT,
        is_local_port(port),
    ensures
        port_after(start, (port - start - 1) % (LOCAL_PORT_COUNT as int) + 1) == port,
        1 <= (port - start - 1) % (LOCAL_PORT_COUNT as int) + 1 <= LOCAL_PORT_COUNT,
{
}

/// A free port remains exactly while fewer ports are in use than there are.
proof fn lemma_free_port_iff(used: Set<u32>)
    requires
        used.finite(),
        forall|p: u32| #[trigger] used.contains(p) ==> is_local_port(p),
    ensures
        used.len() < LOCAL_PORT_COUNT <==> has_free_port(used),
{
    let all = Set::<u32>::range(LOCAL_PORT_FIRST, (LOCAL_PORT_FIRST + LOCAL_PORT_COUNT) as u32);
    vstd::set_lib::range_set_properties::<u32>(
        LOCAL_PORT_FIRST,
        (LOCAL_PORT_FIRST + LOCAL_PORT_COUNT) as u32,
    );
    assert(forall|p: u32| all.contains(p) <==> is_local_port(p));
    assert(used.subset_of(all));
    if has_free_port(used) {
        let p = choose|p: u32| is_local_port(p) && !used.contains(p);
        used.lemma_subset_not_in_lt(all, p);
    } else {
        assert forall|p: u32| all.contains(p) implies used.contains(p) by {
            assert(is_local_port(p));
        }
        assert(used =~= all);
    }
}

/// The port that is assigned next is free, lies from 2^30 up to 2^31, and is the
/// first such one after the port that was assigned last, going on from 2^30
/// behind the highest: all that lie between are in use.
pub proof fn next_port_is_the_first_free_one(used: Set<u32>, last: u32, port: u32, between: u32)
    requires
        0x3FFF_FFFF <= last < 0x8000_0000,
        is_next_free(used, last, port),
    ensures
        0x4000_0000 <= port < 0x8000_0000,
        !used.contains(port),
        last < port && last < between < port ==> used.contains(between),
        port <= last && last < between < 0x8000_0000 ==> used.contains(between),
        port <= last && 0x4000_0000 <= between < port ==> used.contains(between),
{
    let k = choose|k: int| first_free_at(used, last, port, k);
    if 0x4000_0000 <= between < 0x8000_0000 {
        lemma_port_at_distance(last, between);
        lemma_port_at_distance(last, port);
        let j = (between - last - 1) % (LOCAL_PORT_COUNT as int) + 1;
        if 1 <= j < k {
            assert(used.contains(port_after(last, j)));
        }
    }
}

/// A port can be assigned as long as one from 2^30 up to 2^31 is free.
pub proof fn port_is_left_while_one_is_free(used: Set<u32>, port: u32)
    ensures
        0x4000_0000 <= port < 0x8000_0000 && !used.contains(port) ==> has_free_port(used),
        has_free_port(used) ==> exists|p: u32|
            0x4000_0000 <= p < 0x8000_0000 && !#[trigger] used.contains(p),
        is_local_port(port) == (0x4000_0000 <= port < 0x8000_0000),
{
    if 0x4000_0000 <= port < 0x8000_0000 && !used.contains(port) {
        assert(is_local_port(port));
    }
    if has_free_port(used) {
        let p = choose|p: u32| is_local_port(p) && !used.contains(p);
        assert(!used.contains(p));
    }
}

} // verus!
