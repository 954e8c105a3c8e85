//! The side tables the utility-token contract keeps: a per-account
//! session flag and a per-item six-slot upgrade tally. Both stand in for
//! a host key-value mapping whose absent entries read as a default.
use vstd::prelude::*;

use crate::assoc::{
    assoc_get, lemma_get_absent, lemma_get_found, lemma_get_push, lemma_get_update_other,
    unique_keys,
};
use crate::AccountId;

verus! {

/// Per-account boolean flags; an absent account reads as `false`.
pub struct FlagTable {
    entries: Vec<(AccountId, bool)>,
}

impl FlagTable {
    pub closed spec fn wf(self) -> bool {
        unique_keys(self.entries@)
    }

    /// The flag of `a`, `false` where no entry exists.
    pub closed spec fn spec_flag(self, a: AccountId) -> bool {
        match assoc_get(self.entries@, a) {
            Some(v) => v,
            None => false,
        }
    }

    pub fn new() -> (r: FlagTable)
        ensures
            r.wf(),
            forall|a: AccountId| !r.spec_flag(a),
    {
        let r = FlagTable { entries: Vec::new() };
        proof {
            assert forall|a: AccountId| !r.spec_flag(a) by {
                lemma_get_absent(r.entries@, a);
            }
        }
        r
    }

    /// The index of the entry for `key`, if one exists.
    fn find(&self, key: AccountId) -> (r: Option<usize>)
        ensures
            match r {
                Some(i) => i < self.entries@.len() && self.entries@[i as int].0 == key
                    && forall|j: int| 0 <= j < i ==> self.entries@[j].0 != key,
                None => forall|j: int| 0 <= j < self.entries@.len() ==> self.entries@[j].0 != key,
            },
    {
        let mut i: usize = 0;
        while i < self.entries.len()
            invariant
                i <= self.entries@.len(),
                forall|j: int| 0 <= j < i ==> self.entries@[j].0 != key,
            decreases self.entries@.len() - i,
        {
            if self.entries[i].0 == key {
                return Some(i);
            }
            i = i + 1;
        }
        None
    }

    pub fn get(&self, key: AccountId) -> (r: bool)
        ensures
            r == self.spec_flag(key),
    {
        match self.find(key) {
            Some(i) => {
                proof {
                    lemma_get_found(self.entries@, key, i as int);
                }
                self.entries[i].1
            },
            None => {
                proof {
                    lemma_get_absent(self.entries@, key);
                }
                false
            },
        }
    }

    pub fn set(&mut self, key: AccountId, value: bool)
        requires
            old(self).wf(),
        ensures
            final(self).wf(),
            final(self).spec_flag(key) == value,
            forall|b: AccountId| b != key ==> final(self).spec_flag(b) == old(self).spec_flag(b),
    {
        let ghost s = self.entries@;
        match self.find(key) {
            Some(i) => {
                self.entries.set(i, (key, value));
                proof {
                    assert(self.entries@ =~= s.update(i as int, (s[i as int].0, value)));
                    assert forall|j: int| 0 <= j < i implies self.entries@[j].0 != key by {
                        assert(self.entries@[j] == s[j]);
                    }
                    lemma_get_found(self.entries@, key, i as int);
                    assert forall|b: AccountId| b != key implies self.spec_flag(b) == old(
                        self,
                    ).spec_flag(b) by {
                        lemma_get_update_other(s, i as int, value, b);
                    }
                    assert(forall|j: int|
                        0 <= j < self.entries@.len() ==> self.entries@[j].0 == s[j].0);
                }
            },
            None => {
                self.entries.push((key, value));
                proof {
                    lemma_get_absent(s, key);
                    assert forall|b: AccountId| true implies (if b == key {
                        self.spec_flag(b) == value
                    } else {
                        self.spec_flag(b) == old(self).spec_flag(b)
                    }) by {
                        lemma_get_push(s, (key, value), b);
                    }
                    assert(unique_keys(self.entries@)) by {
                        assert(forall|j: int|
                            0 <= j < self.entries@.len() - 1 ==> self.entries@[j] == s[j]);
                    }
                }
            },
        }
    }
}

/// Per-item upgrade counters: six 8-bit slots per item id; an absent item
/// reads as all zero.
pub struct StatsTable {
    entries: Vec<(u16, [u8; 6])>,
}

/// The six-slot all-zero tally of an item never upgraded.
pub open spec fn zero_stats() -> Seq<u8> {
    seq![0u8, 0u8, 0u8, 0u8, 0u8, 0u8]
}

impl StatsTable {
    pub closed spec fn wf(self) -> bool {
        unique_keys(self.entries@)
    }

    /// The stored tally of `id`, all zero where no entry exists.
    pub closed spec fn spec_stats(self, id: u16) -> Seq<u8> {
        match assoc_get(self.entries@, id) {
            Some(v) => v@,
            None => zero_stats(),
        }
    }

    pub fn new() -> (r: StatsTable)
        ensures
            r.wf(),
            forall|id: u16| r.spec_stats(id) == zero_stats(),
    {
        let r = StatsTable { entries: Vec::new() };
        proof {
            assert forall|id: u16| r.spec_stats(id) == zero_stats() by {
                lemma_get_absent(r.entries@, id);
            }
        }
        r
    }

    fn find(&self, key: u16) -> (r: Option<usize>)
        ensures
            match r {
                Some(i) => i < self.entries@.len() && self.entries@[i as int].0 == key
                    && forall|j: int| 0 <= j < i ==> self.entries@[j].0 != key,
                None => forall|j: int| 0 <= j < self.entries@.len() ==> self.entries@[j].0 != key,
            },
    {
        let mut i: usize = 0;
        while i < self.entries.len()
            invariant
                i <= self.entries@.len(),
                forall|j: int| 0 <= j < i ==> self.entries@[j].0 != key,
            decreases self.entries@.len() - i,
        {
            if self.entries[i].0 == key {
                return Some(i);
            }
            i = i + 1;
        }
        None
    }

    pub fn get(&self, key: u16) -> (r: [u8; 6])
        ensures
            r@ == self.spec_stats(key),
    {
        match self.find(key) {
            Some(i) => {
                proof {
                    lemma_get_found(self.entries@, key, i as int);
                }
                self.entries[i].1
            },
            None => {
                proof {
                    lemma_get_absent(self.entries@, key);
                }
                let r = [0u8, 0u8, 0u8, 0u8, 0u8, 0u8];
                assert(r@ =~= zero_stats());
                r
            },
        }
    }

    pub fn set(&mut self, key: u16, value: [u8; 6])
        requires
            old(self).wf(),
        ensures
            final(self).wf(),
            final(self).spec_stats(key) == value@,
            forall|b: u16| b != key ==> final(self).spec_stats(b) == old(self).spec_stats(b),
    {
        let ghost s = self.entries@;
        match self.find(key) {
            Some(i) => {
                self.entries.set(i, (key, value));
                proof {
                    assert(self.entries@ =~= s.update(i as int, (s[i as int].0, value)));
                    assert forall|j: int| 0 <= j < i implies self.entries@[j].0 != key by {
                        assert(self.entries@[j] == s[j]);
                    }
                    lemma_get_found(self.entries@, key, i as int);
                    assert forall|b: u16| b != key implies self.spec_stats(b) == old(
                        self,
                    ).spec_stats(b) by {
                        lemma_get_update_other(s, i as int, value, b);
                    }
                    assert(forall|j: int|
                        0 <= j < self.entries@.len() ==> self.entries@[j].0 == s[j].0);
                }
            },
            None => {
                self.entries.push((key, value));
                proof {
                    lemma_get_absent(s, key);
                    assert forall|b: u16| true implies (if b == key {
                        self.spec_stats(b) == value@
                    } else {
                        self.spec_stats(b) == old(self).spec_stats(b)
                    }) by {
                        lemma_get_push(s, (key, value), b);
                    }
                    assert(unique_keys(self.entries@)) by {
                        assert(forall|j: int|
                            0 <= j < self.entries@.len() - 1 ==> self.entries@[j] == s[j]);
                    }
                }
            },
        }
    }
}

} // verus!
