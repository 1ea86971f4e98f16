use std::collections::HashMap;

use vstd::prelude::*;

use crate::error::VsockBackendType;

verus! {

/// Identifies a connection by its host-side (local) and its guest-side (peer)
/// port.
#[derive(Clone, Copy, Debug, Eq, Hash, PartialEq, Structural)]
pub struct ConnMapKey {
    pub local_port: u32,
    pub peer_port: u32,
}

/// Where a connection stands.
#[derive(Clone, Copy, Debug, PartialEq, Eq, Structural)]
pub enum ConnState {
    /// Initiated by the host, not yet confirmed by the guest.
    LocalInit,
    /// Initiated by the guest, not yet confirmed by the host.
    PeerInit,
    /// Both ends have confirmed the connection.
    Established,
    /// The host end is closed.
    LocalClosed,
    /// The guest has closed its end for receiving, for sending, or for both.
    PeerClosed(bool, bool),
    /// To be terminated as soon as the guest can be told.
    Killed,
}

/// What the muxer knows about a connection.
#[derive(Clone, Copy, Debug, PartialEq, Eq, Structural)]
pub struct ConnStatus {
    /// The file descriptor of the host stream.
    pub fd: i32,
    /// The type of the backend that the host stream belongs to.
    pub backend: VsockBackendType,
    pub state: ConnState,
    /// Whether the connection has a packet for the guest.
    pub pending_rx: bool,
    /// When the connection is to be terminated, if its kill timer is armed.
    pub expiry: Option<u64>,
}

impl ConnStatus {
    /// Whether the connection is scheduled for termination after `now`.
    pub open spec fn spec_will_expire(&self, now: u64) -> bool {
        self.expiry matches Some(t) && t > now
    }

    /// Whether the connection was scheduled for termination at `now` or before.
    pub open spec fn spec_has_expired(&self, now: u64) -> bool {
        self.expiry matches Some(t) && t <= now
    }

    /// The status after the connection has been killed: it now has a reset for
    /// the guest.
    pub open spec fn spec_kill(self) -> ConnStatus {
        ConnStatus { state: ConnState::Killed, pending_rx: true, ..self }
    }

    pub fn will_expire(&self, now: u64) -> (b: bool)
        ensures
            b == self.spec_will_expire(now),
    {
        match self.expiry {
            Some(t) => t > now,
            None => false,
        }
    }

    pub fn has_expired(&self, now: u64) -> (b: bool)
        ensures
            b == self.spec_has_expired(now),
    {
        match self.expiry {
            Some(t) => t <= now,
            None => false,
        }
    }

    pub fn kill(&mut self)
        ensures
            *final(self) == old(self).spec_kill(),
    {
        self.state = ConnState::Killed;
        self.pending_rx = true;
    }
}

/// The two ports of a key as one number.
spec fn packed(key: ConnMapKey) -> u64 {
    (key.local_port * 0x1_0000_0000 + key.peer_port) as u64
}

/// The key that a number stands for.
spec fn unpacked(code: u64) -> ConnMapKey {
    ConnMapKey {
        local_port: (code as int / 0x1_0000_0000) as u32,
        peer_port: (code as int % 0x1_0000_0000) as u32,
    }
}

fn pack(key: ConnMapKey) -> (code: u64)
    ensures
        code == packed(key),
{
    key.local_port as u64 * 0x1_0000_0000 + key.peer_port as u64
}

fn unpack(code: u64) -> (key: ConnMapKey)
    ensures
        key == unpacked(code),
{
    ConnMapKey {
        local_port: (code / 0x1_0000_0000) as u32,
        peer_port: (code % 0x1_0000_0000) as u32,
    }
}

/// Keys and numbers stand for each other one to one.
broadcast proof fn lemma_unpacked_packed(key: ConnMapKey)
    ensures
        unpacked(#[trigger] packed(key)) == key,
{
}

broadcast proof fn lemma_packed_unpacked(code: u64)
    ensures
        packed(#[trigger] unpacked(code)) == code,
{
}

/// The active connections.
pub struct ConnTable {
    map: HashMap<u64, ConnStatus>,
}

impl View for ConnTable {
    type V = Map<ConnMapKey, ConnStatus>;

    closed spec fn view(&self) -> Map<ConnMapKey, ConnStatus> {
        Map::new(
            |key: ConnMapKey| self.map@.contains_key(packed(key)),
            |key: ConnMapKey| self.map@[packed(key)],
        )
    }
}

impl ConnTable {
    /// The table holds as many keys as the map behind it.
    proof fn lemma_len(&self)
        ensures
            self@.dom().finite(),
            self@.len() == self.map@.len(),
    {
        broadcast use {lemma_unpacked_packed, lemma_packed_unpacked};

        let f = |code: u64| unpacked(code);
        let codes = self.map@.dom();
        assert(self@.dom() =~= codes.map(f)) by {
            assert forall|key: ConnMapKey| self@.dom().contains(key) implies codes.map(f).contains(
                key,
            ) by {
                assert(codes.contains(packed(key)) && f(packed(key)) == key);
            }
        }
        codes.lemma_map_finite(f);
        assert forall|a: u64, b: u64|
            codes.contains(a) && codes.contains(b) && #[trigger] f(a) == #[trigger] f(b) implies a
            == b by {
            assert(packed(unpacked(a)) == a && packed(unpacked(b)) == b);
        }
        vstd::set_lib::lemma_map_size(codes, self@.dom(), f);
    }

    pub fn new() -> (table: ConnTable)
        ensures
            table@ == Map::<ConnMapKey, ConnStatus>::empty(),
    {
        let table = ConnTable { map: HashMap::with_capacity(crate::defs::MAX_CONNECTIONS) };
        assert(table@ =~= Map::<ConnMapKey, ConnStatus>::empty());
        table
    }

    pub fn len(&self) -> (n: usize)
        ensures
            self@.dom().finite(),
            n == self@.len(),
    {
        proof {
            self.lemma_len();
        }
        self.map.len()
    }

    pub fn contains_key(&self, key: ConnMapKey) -> (b: bool)
        ensures
            b == self@.contains_key(key),
    {
        self.map.contains_key(&pack(key))
    }

    pub fn get(&self, key: ConnMapKey) -> (conn: Option<ConnStatus>)
        ensures
            conn == self@.get(key),
    {
        match self.map.get(&pack(key)) {
            Some(conn) => Some(*conn),
            None => None,
        }
    }

    pub fn insert(&mut self, key: ConnMapKey, conn: ConnStatus)
        ensures
            final(self)@ == old(self)@.insert(key, conn),
    {
        broadcast use lemma_unpacked_packed;

        self.map.insert(pack(key), conn);
        proof {
            assert forall|k: ConnMapKey| k != key implies packed(k) != packed(key) by {
                assert(unpacked(packed(k)) != unpacked(packed(key)));
            }
        }
        assert(self@ =~= old(self)@.insert(key, conn));
    }

    pub fn remove(&mut self, key: ConnMapKey) -> (conn: Option<ConnStatus>)
        ensures
            final(self)@ == old(self)@.remove(key),
            conn == old(self)@.get(key),
    {
        broadcast use lemma_unpacked_packed;

        let conn = self.map.remove(&pack(key));
        proof {
            assert forall|k: ConnMapKey| k != key implies packed(k) != packed(key) by {
                assert(unpacked(packed(k)) != unpacked(packed(key)));
            }
        }
        assert(self@ =~= old(self)@.remove(key));
        conn
    }

    /// The keys of all connections, in no particular order.
    pub fn keys(&self) -> (keys: Vec<ConnMapKey>)
        ensures
            keys@.no_duplicates(),
            forall|key: ConnMapKey| #[trigger] keys@.contains(key) <==> self@.contains_key(key),
    {
        let mut keys: Vec<ConnMapKey> = Vec::new();
        for code in it: self.map.keys()
            invariant
                keys.len() == it.index(),
                forall|i: int| 0 <= i < keys.len() ==> keys[i] == unpacked(*it.seq()[i]),
        {
            keys.push(unpack(*code));
        }
        proof {
            broadcast use {lemma_unpacked_packed, lemma_packed_unpacked};

            let codes = vstd::std_specs::iter::IteratorSpec::remaining(&self.map.keys());
            assert forall|key: ConnMapKey| self@.contains_key(key) implies keys@.contains(key) by {
                assert(codes.unref().to_set().contains(packed(key)));
                let i = choose|i: int| 0 <= i < codes.len() && codes.unref()[i] == packed(key);
                assert(keys[i] == key);
            }
            assert forall|key: ConnMapKey| keys@.contains(key) implies self@.contains_key(key) by {
                let i = choose|i: int| 0 <= i < keys.len() && keys[i] == key;
                assert(codes.unref()[i] == *codes[i]);
                assert(codes.unref().to_set().contains(*codes[i]));
            }
        }
        keys
    }
}

} // verus!
