//! The DNS-like address registry: it maps host identifiers and hostnames to
//! registered IPv4 addresses and hands out owned handles. The namespace
//! registers its two addresses here at construction and deregisters the
//! routable one at teardown; the registry counts deregistrations so that the
//! exactly-once teardown guarantee is observable.

use vstd::prelude::*;

use crate::addr::Ipv4Address;

verus! {

/// True of a hostname as it crosses the registry boundary: a byte string with
/// no interior NUL byte, as a C-style string requires.
pub open spec fn hostname_wf(s: Seq<u8>) -> bool {
    forall|i: int| 0 <= i < s.len() ==> s[i] != 0
}

/// One registered address: the host it belongs to, its hostname, and how many
/// times it has been deregistered.
pub struct AddressRecord {
    pub host_id: u32,
    pub hostname: Vec<u8>,
    pub ip: Ipv4Address,
    pub dereg_count: u64,
}

/// Spec-level image of one [`AddressRecord`].
pub struct AddressRecordView {
    pub host_id: u32,
    pub hostname: Seq<u8>,
    pub ip: Ipv4Address,
    pub dereg_count: u64,
}

impl View for AddressRecord {
    type V = AddressRecordView;

    open spec fn view(&self) -> AddressRecordView {
        AddressRecordView {
            host_id: self.host_id,
            hostname: self.hostname@,
            ip: self.ip,
            dereg_count: self.dereg_count,
        }
    }
}

/// Whether some record in `reg` holds the address `ip`.
pub open spec fn reg_contains(reg: Seq<AddressRecordView>, ip: Ipv4Address) -> bool {
    exists|i: int| 0 <= i < reg.len() && reg[i].ip == ip
}

/// The index of the record holding `ip`; meaningful only when `reg_contains`.
pub open spec fn reg_index_of(reg: Seq<AddressRecordView>, ip: Ipv4Address) -> int {
    choose|i: int| 0 <= i < reg.len() && reg[i].ip == ip
}

/// How many times the address `ip` has been deregistered.
pub open spec fn reg_dereg_count(reg: Seq<AddressRecordView>, ip: Ipv4Address) -> u64 {
    reg[reg_index_of(reg, ip)].dereg_count
}

/// The registry after one deregistration of `ip`: the matching record's
/// deregistration count is one higher; an absent address changes nothing.
pub open spec fn bump_dereg(reg: Seq<AddressRecordView>, ip: Ipv4Address) -> Seq<
    AddressRecordView,
> {
    if reg_contains(reg, ip) {
        let i = reg_index_of(reg, ip);
        reg.update(
            i,
            AddressRecordView { dereg_count: (reg[i].dereg_count + 1) as u64, ..reg[i] },
        )
    } else {
        reg
    }
}

/// No two records hold the same address.
pub open spec fn reg_wf(reg: Seq<AddressRecordView>) -> bool {
    forall|i: int, j: int| 0 <= i < j < reg.len() ==> reg[i].ip != reg[j].ip
}

/// Registering one more record leaves every other address's presence as it
/// was and adds the new one.
pub proof fn lemma_reg_contains_push(
    reg: Seq<AddressRecordView>,
    r: AddressRecordView,
    ip: Ipv4Address,
)
    ensures
        reg_contains(reg.push(r), ip) == (reg_contains(reg, ip) || r.ip == ip),
{
    let reg2 = reg.push(r);
    if reg_contains(reg, ip) {
        let i = choose|i: int| 0 <= i < reg.len() && reg[i].ip == ip;
        assert(reg2[i].ip == ip);
    }
    if r.ip == ip {
        assert(reg2[reg.len() as int].ip == ip);
    }
    if reg_contains(reg2, ip) && !reg_contains(reg, ip) {
        let i = choose|i: int| 0 <= i < reg2.len() && reg2[i].ip == ip;
        if i < reg.len() {
            assert(reg[i].ip == ip);
        }
    }
}

/// An owned handle to a registered address. Obtaining one is registration;
/// the namespace keeps the routable address's handle for the lifetime of the
/// namespace and presents it back at teardown.
pub struct AddressHandle {
    pub ip: Ipv4Address,
}

/// The registry itself: a table of registered addresses.
pub struct AddressRegistry {
    pub records: Vec<AddressRecord>,
}

impl View for AddressRegistry {
    type V = Seq<AddressRecordView>;

    open spec fn view(&self) -> Seq<AddressRecordView> {
        self.records@.map_values(|r: AddressRecord| r@)
    }
}

impl AddressRegistry {
    pub open spec fn wf(self) -> bool {
        reg_wf(self@)
    }

    pub open spec fn spec_contains(self, ip: Ipv4Address) -> bool {
        reg_contains(self@, ip)
    }

    pub open spec fn spec_dereg_count(self, ip: Ipv4Address) -> u64 {
        reg_dereg_count(self@, ip)
    }

    /// A fresh registry with nothing registered.
    pub fn new() -> (r: AddressRegistry)
        ensures
            r@ == Seq::<AddressRecordView>::empty(),
            r.wf(),
    {
        AddressRegistry { records: Vec::new() }
    }

    /// Whether `ip` is currently registered.
    pub fn is_registered(&self, ip: Ipv4Address) -> (r: bool)
        ensures
            r == self.spec_contains(ip),
    {
        let mut i: usize = 0;
        while i < self.records.len()
            invariant
                0 <= i <= self.records.len(),
                forall|k: int| 0 <= k < i ==> self@[k].ip != ip,
            decreases self.records.len() - i,
        {
            if self.records[i].ip == ip {
                assert(self@[i as int].ip == ip);
                return true;
            }
            i = i + 1;
        }
        false
    }

    /// Register `ip` for the given host under the given hostname and hand out
    /// its handle. A freshly-chosen host address is never already registered,
    /// so registration always succeeds.
    pub fn register(&mut self, host_id: u32, hostname: Vec<u8>, ip: Ipv4Address) -> (h:
        AddressHandle)
        requires
            old(self).wf(),
            !old(self).spec_contains(ip),
            hostname_wf(hostname@),
        ensures
            final(self)@ == old(self)@.push(
                AddressRecordView { host_id, hostname: hostname@, ip, dereg_count: 0 },
            ),
            final(self).wf(),
            h.ip == ip,
    {
        self.records.push(AddressRecord { host_id, hostname, ip, dereg_count: 0 });
        proof {
            let newv = self@;
            let oldv = old(self)@;
            assert forall|i: int, j: int| 0 <= i < j < newv.len() implies newv[i].ip != newv[j].ip by {
                if j == newv.len() - 1 {
                    assert(newv[i] == oldv[i]);
                    assert(oldv[i].ip != ip);
                } else {
                    assert(newv[i] == oldv[i] && newv[j] == oldv[j]);
                }
            }
        }
        AddressHandle { ip }
    }

    /// Deregister the address behind `handle`, counting the call. The address
    /// stays on record so that repeated deregistrations are observable.
    pub fn deregister(&mut self, handle: &AddressHandle)
        requires
            old(self).wf(),
            old(self).spec_contains(handle.ip),
            old(self).spec_dereg_count(handle.ip) < u64::MAX,
        ensures
            final(self)@ == bump_dereg(old(self)@, handle.ip),
            final(self).wf(),
    {
        let n = self.records.len();
        let mut i: usize = 0;
        while i < n
            invariant
                n == self.records.len(),
                0 <= i <= n,
                *self == *old(self),
                old(self).wf(),
                old(self).spec_contains(handle.ip),
                old(self).spec_dereg_count(handle.ip) < u64::MAX,
                forall|k: int| 0 <= k < i ==> self@[k].ip != handle.ip,
            decreases n - i,
        {
            if self.records[i].ip == handle.ip {
                proof {
                    assert(self@[i as int].ip == handle.ip);
                    let j = reg_index_of(self@, handle.ip);
                    assert(0 <= j < self@.len() && self@[j].ip == handle.ip);
                    assert(j == i as int);
                }
                let c = self.records[i].dereg_count;
                self.records[i].dereg_count = c + 1;
                proof {
                    assert(self@ =~= bump_dereg(old(self)@, handle.ip));
                }
                return ;
            }
            i = i + 1;
        }
        proof {
            let j = reg_index_of(self@, handle.ip);
            assert(0 <= j < self@.len() && self@[j].ip == handle.ip);
            assert(false);
        }
    }

    /// How many times `ip` has been deregistered; zero for an address that
    /// was never registered.
    pub fn deregistration_count(&self, ip: Ipv4Address) -> (n: u64)
        requires
            self.wf(),
        ensures
            self.spec_contains(ip) ==> n == self.spec_dereg_count(ip),
            !self.spec_contains(ip) ==> n == 0,
    {
        let len = self.records.len();
        let mut i: usize = 0;
        while i < len
            invariant
                len == self.records.len(),
                0 <= i <= len,
                self.wf(),
                forall|k: int| 0 <= k < i ==> self@[k].ip != ip,
            decreases len - i,
        {
            if self.records[i].ip == ip {
                proof {
                    assert(self@[i as int].ip == ip);
                    let j = reg_index_of(self@, ip);
                    assert(0 <= j < self@.len() && self@[j].ip == ip);
                    assert(j == i as int);
                }
                return self.records[i].dereg_count;
            }
            i = i + 1;
        }
        proof {
            if self.spec_contains(ip) {
                let j = reg_index_of(self@, ip);
                assert(0 <= j < self@.len() && self@[j].ip == ip);
                assert(false);
            }
        }
        0
    }
}

} // verus!
