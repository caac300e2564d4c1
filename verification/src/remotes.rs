//! The table that says which session owns which remote address.

use crate::io::NetAddr;
use vstd::prelude::*;

verus! {

/// A map from remote addresses to task ids, each address at most once.
pub struct RemoteTable {
    entries: Vec<(NetAddr, usize)>,
}

/// Whether no two entries of `entries` carry the same address.
pub open spec fn distinct_addrs(entries: Seq<(NetAddr, usize)>) -> bool {
    forall|i: int, j: int|
        0 <= i < entries.len() && 0 <= j < entries.len() && i != j ==> (#[trigger] entries[i]).0
            != (#[trigger] entries[j]).0
}

/// Whether some entry of `entries` carries the address `addr`.
pub open spec fn has_addr(entries: Seq<(NetAddr, usize)>, addr: NetAddr) -> bool {
    exists|i: int| 0 <= i < entries.len() && (#[trigger] entries[i]).0 == addr
}

/// The position of an entry with the address `addr`.
pub open spec fn index_of_addr(entries: Seq<(NetAddr, usize)>, addr: NetAddr) -> int {
    choose|i: int| 0 <= i < entries.len() && (#[trigger] entries[i]).0 == addr
}

impl View for RemoteTable {
    type V = Map<NetAddr, usize>;

    closed spec fn view(&self) -> Map<NetAddr, usize> {
        Map::new(
            |addr: NetAddr| has_addr(self.entries@, addr),
            |addr: NetAddr| self.entries@[index_of_addr(self.entries@, addr)].1,
        )
    }
}

impl RemoteTable {
    #[verifier::type_invariant]
    spec fn inv(&self) -> bool {
        distinct_addrs(self.entries@)
    }

    /// No entries.
    pub fn new() -> (table: RemoteTable)
        ensures
            table@ == Map::<NetAddr, usize>::empty(),
    {
        let table = RemoteTable { entries: Vec::new() };
        assert(table@ =~= Map::<NetAddr, usize>::empty());
        table
    }

    /// The position of the entry for `addr`, if there is one.
    fn position(&self, addr: NetAddr) -> (found: Option<usize>)
        ensures
            match found {
                Some(i) => i < self.entries@.len() && self.entries@[i as int].0 == addr,
                None => !has_addr(self.entries@, addr),
            },
    {
        let mut i: usize = 0;
        while i < self.entries.len()
            invariant
                i <= self.entries@.len(),
                forall|j: int| 0 <= j < i ==> (#[trigger] self.entries@[j]).0 != addr,
            decreases self.entries@.len() - i,
        {
            if self.entries[i].0 == addr {
                return Some(i);
            }
            i = i + 1;
        }
        None
    }

    /// The task that owns `addr`, if one does.
    pub fn get(&self, addr: NetAddr) -> (owner: Option<usize>)
        ensures
            match owner {
                Some(id) => self@.contains_key(addr) && id == self@[addr],
                None => !self@.contains_key(addr),
            },
    {
        proof {
            use_type_invariant(self);
        }
        match self.position(addr) {
            Some(i) => {
                assert(has_addr(self.entries@, addr));
                Some(self.entries[i].1)
            },
            None => None,
        }
    }

    /// Makes task `id` the owner of `addr`.
    pub fn insert(&mut self, addr: NetAddr, id: usize)
        ensures
            final(self)@ == old(self)@.insert(addr, id),
    {
        proof {
            use_type_invariant(&*self);
        }
        let found = self.position(addr);
        let mut taken = RemoteTable { entries: Vec::new() };
        core::mem::swap(self, &mut taken);
        let mut entries = taken.entries;
        let ghost before = entries@;
        match found {
            Some(i) => {
                entries[i] = (addr, id);
            },
            None => {
                entries.push((addr, id));
            },
        }
        assert(distinct_addrs(entries@));
        *self = RemoteTable { entries };
        assert(self@ =~= old(self)@.insert(addr, id)) by {
            assert forall|k: NetAddr| #[trigger]
                has_addr(self.entries@, k) <==> (k == addr || has_addr(before, k)) by {
                if has_addr(self.entries@, k) {
                    let i = index_of_addr(self.entries@, k);
                    if k != addr {
                        assert(before[i].0 == k);
                    }
                }
                if has_addr(before, k) {
                    let i = index_of_addr(before, k);
                    assert(self.entries@[i].0 == k);
                }
                if k == addr {
                    match found {
                        Some(i) => {
                            assert(self.entries@[i as int].0 == k);
                        },
                        None => {
                            assert(self.entries@[before.len() as int].0 == k);
                        },
                    }
                }
            }
        }
    }

    /// Forgets the owner of `addr`.
    pub fn remove(&mut self, addr: NetAddr)
        ensures
            final(self)@ == old(self)@.remove(addr),
    {
        proof {
            use_type_invariant(&*self);
        }
        let found = self.position(addr);
        let mut taken = RemoteTable { entries: Vec::new() };
        core::mem::swap(self, &mut taken);
        let mut entries = taken.entries;
        let ghost before = entries@;
        if let Some(i) = found {
            entries.remove(i);
            assert forall|a: int, b: int|
                0 <= a < entries@.len() && 0 <= b < entries@.len() && a != b implies (
            #[trigger] entries@[a]).0 != (#[trigger] entries@[b]).0 by {
                let a0 = if a < i { a } else { a + 1 };
                let b0 = if b < i { b } else { b + 1 };
                assert(entries@[a] == before[a0]);
                assert(entries@[b] == before[b0]);
            }
        }
        assert(distinct_addrs(entries@));
        *self = RemoteTable { entries };
        assert(self@ =~= old(self)@.remove(addr)) by {
            assert forall|k: NetAddr| #[trigger]
                has_addr(self.entries@, k) <==> (k != addr && has_addr(before, k)) by {
                if has_addr(self.entries@, k) {
                    let j = index_of_addr(self.entries@, k);
                    match found {
                        Some(i) => {
                            let j0 = if j < i { j } else { j + 1 };
                            assert(before[j0].0 == k);
                        },
                        None => {},
                    }
                }
                if k != addr && has_addr(before, k) {
                    let j = index_of_addr(before, k);
                    match found {
                        Some(i) => {
                            let j1 = if j < i { j } else { j - 1 };
                            assert(self.entries@[j1].0 == k);
                        },
                        None => {
                            assert(self.entries@[j].0 == k);
                        },
                    }
                }
            }
            assert forall|k: NetAddr| #[trigger]
                has_addr(self.entries@, k) implies self.entries@[index_of_addr(
                self.entries@,
                k,
            )].1 == before[index_of_addr(before, k)].1 by {
                let j = index_of_addr(self.entries@, k);
                let j0 = match found {
                    Some(i) => if j < i { j } else { j + 1 },
                    None => j,
                };
                assert(before[j0].0 == k);
                assert(before[j0] == self.entries@[j]);
            }
        }
    }

    /// The number of entries.
    pub fn len(&self) -> (n: usize)
        ensures
            n == self@.len(),
    {
        proof {
            use_type_invariant(self);
            self.lemma_len();
        }
        self.entries.len()
    }

    proof fn lemma_len(&self)
        requires
            distinct_addrs(self.entries@),
        ensures
            self@.dom().finite(),
            self@.len() == self.entries@.len(),
    {
        let addrs = self.entries@.map_values(|e: (NetAddr, usize)| e.0);
        assert(addrs.no_duplicates());
        addrs.unique_seq_to_set();
        assert(addrs.to_set() =~= self@.dom()) by {
            assert forall|k: NetAddr| addrs.to_set().contains(k) <==> self@.dom().contains(
                k,
            ) by {
                if addrs.contains(k) {
                    let i = choose|i: int| 0 <= i < addrs.len() && addrs[i] == k;
                    assert(self.entries@[i].0 == k);
                }
                if has_addr(self.entries@, k) {
                    let i = index_of_addr(self.entries@, k);
                    assert(addrs[i] == k);
                }
            }
        }
    }
}

} // verus!
