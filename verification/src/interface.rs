//! A network interface: one virtual NIC bound to one IPv4 address, tracking
//! the active (protocol, local port, peer) associations made through it.
//! Packet delivery, capture-file writing and queue-discipline behaviour are
//! collaborator concerns; this type records the configuration and owns the
//! association table that availability queries read.

use vstd::prelude::*;

use crate::addr::Ipv4Address;
use crate::addr::ProtocolType;
use crate::addr::SocketAddressV4;
use crate::registry::AddressHandle;

verus! {

/// One slot per possible local port.
pub const PORT_TABLE_LEN: usize = 65536;

/// Packet-capture configuration for one interface, applied by the capture
/// collaborator; this core only carries it to the interface.
#[derive(Clone, Copy, PartialEq, Eq, Structural, Debug)]
pub struct PcapOptions {
    pub capture_size_bytes: u32,
}

/// The packet-scheduling policy an interface applies; enforced by the
/// queue-discipline collaborator.
#[derive(Clone, Copy, PartialEq, Eq, Structural, Debug)]
pub enum QDiscMode {
    Fifo,
    RoundRobin,
}

/// The key an association is recorded under: protocol, local port and peer.
#[derive(Clone, Copy, PartialEq, Eq, Structural, Debug)]
pub struct AssociationKey {
    pub protocol: ProtocolType,
    pub local_port: u16,
    pub peer: SocketAddressV4,
}

/// One active claim in an interface's table: the protocol and peer it is
/// keyed under (the local port is the table slot) and the handle of the
/// socket that owns the claim.
#[derive(Clone, Copy, PartialEq, Eq, Structural, Debug)]
pub struct Association {
    pub protocol: ProtocolType,
    pub peer: SocketAddressV4,
    pub socket: u64,
}

/// Whether `e` is keyed under `protocol` and `peer`.
pub open spec fn entry_matches(e: Association, protocol: ProtocolType, peer: SocketAddressV4) -> bool {
    e.protocol == protocol && e.peer == peer
}

/// Whether some entry of the bucket `b` is keyed under `protocol` and `peer`.
pub open spec fn bucket_has(b: Seq<Association>, protocol: ProtocolType, peer: SocketAddressV4) -> bool {
    exists|i: int| 0 <= i < b.len() && entry_matches(b[i], protocol, peer)
}

/// The index of the matching entry; meaningful only when `bucket_has`.
pub open spec fn bucket_index_of(b: Seq<Association>, protocol: ProtocolType, peer: SocketAddressV4) -> int {
    choose|i: int| 0 <= i < b.len() && entry_matches(b[i], protocol, peer)
}

/// The socket handle recorded for the matching entry.
pub open spec fn bucket_socket(b: Seq<Association>, protocol: ProtocolType, peer: SocketAddressV4) -> u64 {
    b[bucket_index_of(b, protocol, peer)].socket
}

/// No two entries of a bucket share a (protocol, peer) key.
pub open spec fn bucket_unique(b: Seq<Association>) -> bool {
    forall|i: int, j: int|
        #![trigger b[i], b[j]]
        0 <= i < j < b.len() ==> !entry_matches(b[j], b[i].protocol, b[i].peer)
}

/// In a bucket with unique keys, an entry's index is the index any matching
/// lookup resolves to.
proof fn lemma_bucket_index_at(b: Seq<Association>, i: int)
    requires
        bucket_unique(b),
        0 <= i < b.len(),
    ensures
        bucket_has(b, b[i].protocol, b[i].peer),
        bucket_index_of(b, b[i].protocol, b[i].peer) == i,
{
    assert(entry_matches(b[i], b[i].protocol, b[i].peer));
    let j = bucket_index_of(b, b[i].protocol, b[i].peer);
    assert(0 <= j < b.len() && entry_matches(b[j], b[i].protocol, b[i].peer));
    if j < i {
        assert(!entry_matches(b[i], b[j].protocol, b[j].peer));
        assert(false);
    } else if j > i {
        assert(!entry_matches(b[j], b[i].protocol, b[i].peer));
        assert(false);
    }
}

/// Replacing the entry at `i` with one under the same key touches no other
/// key of the bucket.
proof fn lemma_bucket_update(b: Seq<Association>, i: int, e: Association)
    requires
        bucket_unique(b),
        0 <= i < b.len(),
        entry_matches(b[i], e.protocol, e.peer),
    ensures
        bucket_unique(b.update(i, e)),
        bucket_has(b.update(i, e), e.protocol, e.peer),
        bucket_socket(b.update(i, e), e.protocol, e.peer) == e.socket,
        forall|protocol: ProtocolType, peer: SocketAddressV4|
            !(protocol == e.protocol && peer == e.peer) ==> #[trigger] bucket_has(
                b.update(i, e),
                protocol,
                peer,
            ) == bucket_has(b, protocol, peer),
        forall|protocol: ProtocolType, peer: SocketAddressV4|
            !(protocol == e.protocol && peer == e.peer) && bucket_has(b, protocol, peer)
                ==> #[trigger] bucket_socket(b.update(i, e), protocol, peer) == bucket_socket(
                b,
                protocol,
                peer,
            ),
{
    let b2 = b.update(i, e);
    assert forall|x: int, y: int| 0 <= x < y < b2.len() implies !entry_matches(
        b2[y],
        b2[x].protocol,
        b2[x].peer,
    ) by {
        assert(b2[x] == if x == i { e } else { b[x] });
        assert(b2[y] == if y == i { e } else { b[y] });
        assert(!entry_matches(b[y], b[x].protocol, b[x].peer));
        if x == i {
            assert(!entry_matches(b[y], b[i].protocol, b[i].peer));
        }
        if y == i {
            assert(!entry_matches(b[i], b[x].protocol, b[x].peer));
        }
    }
    assert(entry_matches(b2[i], e.protocol, e.peer));
    lemma_bucket_index_at(b2, i);
    assert(bucket_unique(b2));
    assert forall|protocol: ProtocolType, peer: SocketAddressV4|
        !(protocol == e.protocol && peer == e.peer) implies #[trigger] bucket_has(
        b2,
        protocol,
        peer,
    ) == bucket_has(b, protocol, peer) by {
        if bucket_has(b2, protocol, peer) {
            let x = bucket_index_of(b2, protocol, peer);
            assert(0 <= x < b2.len() && entry_matches(b2[x], protocol, peer));
            assert(x != i);
            assert(entry_matches(b[x], protocol, peer));
            lemma_bucket_index_at(b, x);
        }
        if bucket_has(b, protocol, peer) {
            let x = bucket_index_of(b, protocol, peer);
            assert(0 <= x < b.len() && entry_matches(b[x], protocol, peer));
            assert(x != i);
            assert(entry_matches(b2[x], protocol, peer));
            lemma_bucket_index_at(b2, x);
        }
    }
    assert forall|protocol: ProtocolType, peer: SocketAddressV4|
        !(protocol == e.protocol && peer == e.peer) && bucket_has(b, protocol, peer)
        implies #[trigger] bucket_socket(b2, protocol, peer) == bucket_socket(
        b,
        protocol,
        peer,
    ) by {
        let x = bucket_index_of(b, protocol, peer);
        assert(0 <= x < b.len() && entry_matches(b[x], protocol, peer));
        assert(x != i);
        assert(entry_matches(b2[x], protocol, peer));
        lemma_bucket_index_at(b2, x);
        lemma_bucket_index_at(b, x);
    }
}

/// Appending an entry under a key the bucket lacks touches no other key.
proof fn lemma_bucket_push(b: Seq<Association>, e: Association)
    requires
        bucket_unique(b),
        !bucket_has(b, e.protocol, e.peer),
    ensures
        bucket_unique(b.push(e)),
        bucket_has(b.push(e), e.protocol, e.peer),
        bucket_socket(b.push(e), e.protocol, e.peer) == e.socket,
        forall|protocol: ProtocolType, peer: SocketAddressV4|
            !(protocol == e.protocol && peer == e.peer) ==> #[trigger] bucket_has(
                b.push(e),
                protocol,
                peer,
            ) == bucket_has(b, protocol, peer),
        forall|protocol: ProtocolType, peer: SocketAddressV4|
            !(protocol == e.protocol && peer == e.peer) && bucket_has(b, protocol, peer)
                ==> #[trigger] bucket_socket(b.push(e), protocol, peer) == bucket_socket(
                b,
                protocol,
                peer,
            ),
{
    let b2 = b.push(e);
    let n = b.len() as int;
    assert(b2.len() == n + 1);
    assert(b2[n] == e);
    assert forall|x: int, y: int| 0 <= x < y < b2.len() implies !entry_matches(
        b2[y],
        b2[x].protocol,
        b2[x].peer,
    ) by {
        if y < n {
            assert(b2[x] == b[x] && b2[y] == b[y]);
            assert(!entry_matches(b[y], b[x].protocol, b[x].peer));
        } else {
            assert(b2[x] == b[x] && b2[y] == e);
            if entry_matches(e, b[x].protocol, b[x].peer) {
                assert(entry_matches(b[x], e.protocol, e.peer));
                assert(bucket_has(b, e.protocol, e.peer));
            }
        }
    }
    assert(entry_matches(b2[n], e.protocol, e.peer));
    lemma_bucket_index_at(b2, n);
    assert(bucket_unique(b2));
    assert forall|protocol: ProtocolType, peer: SocketAddressV4|
        !(protocol == e.protocol && peer == e.peer) implies #[trigger] bucket_has(
        b2,
        protocol,
        peer,
    ) == bucket_has(b, protocol, peer) by {
        if bucket_has(b2, protocol, peer) {
            let x = bucket_index_of(b2, protocol, peer);
            assert(0 <= x < b2.len() && entry_matches(b2[x], protocol, peer));
            assert(x != n);
            assert(entry_matches(b[x], protocol, peer));
            lemma_bucket_index_at(b, x);
        }
        if bucket_has(b, protocol, peer) {
            let x = bucket_index_of(b, protocol, peer);
            assert(0 <= x < b.len() && entry_matches(b[x], protocol, peer));
            assert(entry_matches(b2[x], protocol, peer));
            lemma_bucket_index_at(b2, x);
        }
    }
    assert forall|protocol: ProtocolType, peer: SocketAddressV4|
        !(protocol == e.protocol && peer == e.peer) && bucket_has(b, protocol, peer)
        implies #[trigger] bucket_socket(b2, protocol, peer) == bucket_socket(
        b,
        protocol,
        peer,
    ) by {
        let x = bucket_index_of(b, protocol, peer);
        assert(0 <= x < b.len() && entry_matches(b[x], protocol, peer));
        assert(entry_matches(b2[x], protocol, peer));
        lemma_bucket_index_at(b2, x);
        lemma_bucket_index_at(b, x);
    }
}

/// Removing the entry at `i` clears exactly its key and touches no other.
proof fn lemma_bucket_remove(b: Seq<Association>, i: int)
    requires
        bucket_unique(b),
        0 <= i < b.len(),
    ensures
        bucket_unique(b.remove(i)),
        !bucket_has(b.remove(i), b[i].protocol, b[i].peer),
        forall|protocol: ProtocolType, peer: SocketAddressV4|
            !(protocol == b[i].protocol && peer == b[i].peer) ==> #[trigger] bucket_has(
                b.remove(i),
                protocol,
                peer,
            ) == bucket_has(b, protocol, peer),
        forall|protocol: ProtocolType, peer: SocketAddressV4|
            !(protocol == b[i].protocol && peer == b[i].peer) && bucket_has(b, protocol, peer)
                ==> #[trigger] bucket_socket(b.remove(i), protocol, peer) == bucket_socket(
                b,
                protocol,
                peer,
            ),
{
    let b2 = b.remove(i);
    b.remove_ensures(i);
    // Map an index of the shortened bucket back to its index in the full one.
    assert forall|x: int| 0 <= x < b2.len() implies b2[x] == b[if x < i {
        x
    } else {
        x + 1
    }] by {}
    assert forall|x: int, y: int| 0 <= x < y < b2.len() implies !entry_matches(
        b2[y],
        b2[x].protocol,
        b2[x].peer,
    ) by {
        let x0 = if x < i { x } else { x + 1 };
        let y0 = if y < i { y } else { y + 1 };
        assert(b2[x] == b[x0] && b2[y] == b[y0]);
        assert(0 <= x0 < y0 < b.len());
        assert(!entry_matches(b[y0], b[x0].protocol, b[x0].peer));
    }
    if bucket_has(b2, b[i].protocol, b[i].peer) {
        let x = bucket_index_of(b2, b[i].protocol, b[i].peer);
        let x0 = if x < i { x } else { x + 1 };
        assert(b2[x] == b[x0]);
        assert(entry_matches(b[x0], b[i].protocol, b[i].peer));
        lemma_bucket_index_at(b, x0);
        lemma_bucket_index_at(b, i);
        assert(false);
    }
    assert(bucket_unique(b2));
    assert forall|protocol: ProtocolType, peer: SocketAddressV4|
        !(protocol == b[i].protocol && peer == b[i].peer) implies #[trigger] bucket_has(
        b2,
        protocol,
        peer,
    ) == bucket_has(b, protocol, peer) by {
        if bucket_has(b2, protocol, peer) {
            let x = bucket_index_of(b2, protocol, peer);
            let x0 = if x < i { x } else { x + 1 };
            assert(b2[x] == b[x0]);
            assert(entry_matches(b[x0], protocol, peer));
            lemma_bucket_index_at(b, x0);
        }
        if bucket_has(b, protocol, peer) {
            let x0 = bucket_index_of(b, protocol, peer);
            assert(0 <= x0 < b.len() && entry_matches(b[x0], protocol, peer));
            assert(x0 != i);
            let x = if x0 < i { x0 } else { x0 - 1 };
            assert(b2[x] == b[x0]);
            assert(entry_matches(b2[x], protocol, peer));
            lemma_bucket_index_at(b2, x);
        }
    }
    assert forall|protocol: ProtocolType, peer: SocketAddressV4|
        !(protocol == b[i].protocol && peer == b[i].peer) && bucket_has(b, protocol, peer)
        implies #[trigger] bucket_socket(b2, protocol, peer) == bucket_socket(
        b,
        protocol,
        peer,
    ) by {
        let x0 = bucket_index_of(b, protocol, peer);
        assert(0 <= x0 < b.len() && entry_matches(b[x0], protocol, peer));
        assert(x0 != i);
        let x = if x0 < i { x0 } else { x0 - 1 };
        assert(b2[x] == b[x0]);
        assert(entry_matches(b2[x], protocol, peer));
        lemma_bucket_index_at(b2, x);
        lemma_bucket_index_at(b, x0);
    }
}

/// One virtual NIC, bound to one address, with its association table.
pub struct NetworkInterface {
    pub host_id: u32,
    pub ip: Ipv4Address,
    pub uses_router: bool,
    pub pcap: Option<PcapOptions>,
    pub qdisc: QDiscMode,
    /// The association table, one bucket per local port.
    pub assoc: Vec<Vec<Association>>,
}

impl View for NetworkInterface {
    type V = Map<AssociationKey, u64>;

    /// The table as a map from claimed keys to the owning socket's handle.
    open spec fn view(&self) -> Map<AssociationKey, u64> {
        Map::new(
            |k: AssociationKey| bucket_has(self.assoc@[k.local_port as int]@, k.protocol, k.peer),
            |k: AssociationKey| bucket_socket(
                self.assoc@[k.local_port as int]@,
                k.protocol,
                k.peer,
            ),
        )
    }
}

impl NetworkInterface {
    /// The table has one bucket per port and no bucket records a key twice.
    pub open spec fn wf(self) -> bool {
        &&& self.assoc.len() == PORT_TABLE_LEN
        &&& forall|p: int| 0 <= p < self.assoc@.len() ==> bucket_unique((#[trigger] self.assoc@[p])@)
    }

    /// The construction-time configuration, which no operation changes.
    pub open spec fn spec_config(self) -> (u32, Ipv4Address, bool, Option<PcapOptions>, QDiscMode) {
        (self.host_id, self.ip, self.uses_router, self.pcap, self.qdisc)
    }

    /// Build an interface bound to the registered address behind `addr`,
    /// with an empty association table.
    pub fn new(
        host_id: u32,
        addr: &AddressHandle,
        pcap: Option<PcapOptions>,
        qdisc: QDiscMode,
        uses_router: bool,
    ) -> (r: NetworkInterface)
        ensures
            r.wf(),
            r@ == Map::<AssociationKey, u64>::empty(),
            r.host_id == host_id,
            r.ip == addr.ip,
            r.uses_router == uses_router,
            r.pcap == pcap,
            r.qdisc == qdisc,
    {
        let mut assoc: Vec<Vec<Association>> = Vec::new();
        while assoc.len() < PORT_TABLE_LEN
            invariant
                assoc.len() <= PORT_TABLE_LEN,
                forall|p: int| 0 <= p < assoc@.len() ==> (#[trigger] assoc@[p])@.len() == 0,
            decreases PORT_TABLE_LEN - assoc.len(),
        {
            assoc.push(Vec::new());
        }
        let r = NetworkInterface { host_id, ip: addr.ip, uses_router, pcap, qdisc, assoc };
        proof {
            assert forall|k: AssociationKey| !r@.contains_key(k) by {
                assert(r.assoc@[k.local_port as int]@.len() == 0);
            }
            assert(r@ =~= Map::<AssociationKey, u64>::empty());
        }
        r
    }

    /// The index of the entry for (protocol, port, peer), if the tuple is
    /// associated.
    fn find_entry(&self, protocol: ProtocolType, port: u16, peer: SocketAddressV4) -> (r: Option<
        usize,
    >)
        requires
            self.wf(),
        ensures
            match r {
                Some(i) => 0 <= i < self.assoc@[port as int]@.len() && entry_matches(
                    self.assoc@[port as int]@[i as int],
                    protocol,
                    peer,
                ),
                None => !bucket_has(self.assoc@[port as int]@, protocol, peer),
            },
    {
        let bucket: &Vec<Association> = &self.assoc[port as usize];
        let n = bucket.len();
        let mut i: usize = 0;
        while i < n
            invariant
                n == bucket.len(),
                0 <= i <= n,
                bucket@ == self.assoc@[port as int]@,
                forall|j: int| 0 <= j < i ==> !entry_matches(bucket@[j], protocol, peer),
            decreases n - i,
        {
            let e = bucket[i];
            if e.protocol == protocol && e.peer == peer {
                return Some(i);
            }
            i = i + 1;
        }
        proof {
            if bucket_has(self.assoc@[port as int]@, protocol, peer) {
                let j = bucket_index_of(self.assoc@[port as int]@, protocol, peer);
                assert(0 <= j < bucket@.len() && entry_matches(bucket@[j], protocol, peer));
                assert(false);
            }
        }
        None
    }

    /// Whether the (protocol, port, peer) tuple is currently claimed here.
    pub fn is_associated(&self, protocol: ProtocolType, port: u16, peer: SocketAddressV4) -> (r:
        bool)
        requires
            self.wf(),
        ensures
            r == self@.contains_key(AssociationKey { protocol, local_port: port, peer }),
    {
        let found = self.find_entry(protocol, port, peer);
        proof {
            let k = AssociationKey { protocol, local_port: port, peer };
            if found is Some {
                let i = found->0;
                assert(entry_matches(self.assoc@[port as int]@[i as int], protocol, peer));
                assert(bucket_has(self.assoc@[port as int]@, protocol, peer));
            }
        }
        found.is_some()
    }

    /// Record the claim of (protocol, port, peer) by `socket`. A repeated
    /// claim of the same key replaces the recorded socket.
    pub fn associate(
        &mut self,
        socket: u64,
        protocol: ProtocolType,
        port: u16,
        peer: SocketAddressV4,
    )
        requires
            old(self).wf(),
        ensures
            final(self).wf(),
            final(self)@ == old(self)@.insert(
                AssociationKey { protocol, local_port: port, peer },
                socket,
            ),
            final(self).spec_config() == old(self).spec_config(),
    {
        let found = self.find_entry(protocol, port, peer);
        let entry = Association { protocol, peer, socket };
        let pu = port as usize;
        match found {
            Some(i) => {
                self.assoc[pu][i] = entry;
            },
            None => {
                self.assoc[pu].push(entry);
            },
        }
        proof {
            let k = AssociationKey { protocol, local_port: port, peer };
            let oldb = old(self).assoc@[port as int]@;
            let newb = self.assoc@[port as int]@;
            match found {
                Some(i) => {
                    assert(newb == oldb.update(i as int, entry));
                    lemma_bucket_update(oldb, i as int, entry);
                },
                None => {
                    assert(newb == oldb.push(entry));
                    lemma_bucket_push(oldb, entry);
                },
            }
            assert(self.assoc@ == old(self).assoc@.update(port as int, self.assoc@[port as int]));
            assert forall|k2: AssociationKey| k2 != k implies (self@.contains_key(k2) == old(
                self,
            )@.contains_key(k2) && (old(self)@.contains_key(k2) ==> self@[k2] == old(
                self,
            )@[k2])) by {
                if k2.local_port == port {
                    assert(!(k2.protocol == entry.protocol && k2.peer == entry.peer));
                    assert(bucket_has(newb, k2.protocol, k2.peer) == bucket_has(
                        oldb,
                        k2.protocol,
                        k2.peer,
                    ));
                } else {
                    assert(self.assoc@[k2.local_port as int] == old(self).assoc@[k2.local_port as int]);
                }
            }
            assert(self@.contains_key(k) && self@[k] == socket);
            assert(self@ =~= old(self)@.insert(k, socket));
        }
    }

    /// Release the claim of (protocol, port, peer); releasing a key that is
    /// not claimed changes nothing.
    pub fn disassociate(&mut self, protocol: ProtocolType, port: u16, peer: SocketAddressV4)
        requires
            old(self).wf(),
        ensures
            final(self).wf(),
            final(self)@ == old(self)@.remove(
                AssociationKey { protocol, local_port: port, peer },
            ),
            final(self).spec_config() == old(self).spec_config(),
    {
        let found = self.find_entry(protocol, port, peer);
        let pu = port as usize;
        match found {
            Some(i) => {
                self.assoc[pu].remove(i);
                proof {
                    let k = AssociationKey { protocol, local_port: port, peer };
                    let oldb = old(self).assoc@[port as int]@;
                    let newb = self.assoc@[port as int]@;
                    assert(newb == oldb.remove(i as int));
                    assert(entry_matches(oldb[i as int], protocol, peer));
                    lemma_bucket_remove(oldb, i as int);
                    assert(self.assoc@ == old(self).assoc@.update(
                        port as int,
                        self.assoc@[port as int],
                    ));
                    assert forall|k2: AssociationKey| k2 != k implies (self@.contains_key(k2)
                        == old(self)@.contains_key(k2) && (old(self)@.contains_key(k2)
                        ==> self@[k2] == old(self)@[k2])) by {
                        if k2.local_port == port {
                            assert(!(k2.protocol == protocol && k2.peer == peer));
                            assert(bucket_has(newb, k2.protocol, k2.peer) == bucket_has(
                                oldb,
                                k2.protocol,
                                k2.peer,
                            ));
                        } else {
                            assert(self.assoc@[k2.local_port as int] == old(
                                self,
                            ).assoc@[k2.local_port as int]);
                        }
                    }
                    assert(!self@.contains_key(k));
                    assert(self@ =~= old(self)@.remove(k));
                }
            },
            None => {
                proof {
                    let k = AssociationKey { protocol, local_port: port, peer };
                    assert(!old(self)@.contains_key(k));
                    assert(self@ =~= old(self)@.remove(k));
                }
            },
        }
    }
}

} // verus!
