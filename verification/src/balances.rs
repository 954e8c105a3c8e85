//! The fungible balance ledger the utility-token contract drives: one
//! balance per account, together with the sum of all balances, so that a
//! credit can be shown free of overflow whenever the total supply has room.
use vstd::prelude::*;

use crate::assoc::{
    assoc_get, assoc_total, lemma_get_absent, lemma_get_found, lemma_get_le_total,
    lemma_get_push, lemma_get_update_other, lemma_total_push, lemma_total_update, unique_keys,
};
use crate::{AccountId, Balance};

verus! {

/// Per-account fungible balances; an absent account reads as zero.
pub struct BalanceTable {
    entries: Vec<(AccountId, Balance)>,
}

impl BalanceTable {
    pub closed spec fn wf(self) -> bool {
        unique_keys(self.entries@)
    }

    /// The balance of `a`, zero where no entry exists.
    pub closed spec fn spec_balance(self, a: AccountId) -> Balance {
        match assoc_get(self.entries@, a) {
            Some(v) => v,
            None => 0,
        }
    }

    /// The sum of all balances.
    pub closed spec fn spec_total(self) -> int {
        assoc_total(self.entries@)
    }

    pub fn new() -> (r: BalanceTable)
        ensures
            r.wf(),
            r.spec_total() == 0,
            forall|a: AccountId| r.spec_balance(a) == 0,
    {
        let r = BalanceTable { entries: Vec::new() };
        proof {
            assert forall|a: AccountId| r.spec_balance(a) == 0 by {
                lemma_get_absent(r.entries@, a);
            }
        }
        r
    }

    /// No account holds more than the sum of all balances.
    pub proof fn lemma_balance_le_total(self, a: AccountId)
        ensures
            self.spec_balance(a) <= self.spec_total(),
            self.spec_total() >= 0,
    {
        crate::assoc::lemma_total_nonneg(self.entries@);
        lemma_get_le_total(self.entries@, a);
    }

    fn find(&self, key: AccountId) -> (r: Option<usize>)
        ensures
            match r {
                Some(i) => i < self.entries@.len() && self.entries@[i as int].0 == key
                    && forall|j: int| 0 <= j < i ==> self.entries@[j].0 != key,
                None => forall|j: int| 0 <= j < self.entries@.len() ==> self.entries@[j].0 != key,
            },
    {
        let mut i: usize = 0;
        while i < self.entries.len()
            invariant
                i <= self.entries@.len(),
                forall|j: int| 0 <= j < i ==> self.entries@[j].0 != key,
            decreases self.entries@.len() - i,
        {
            if self.entries[i].0 == key {
                return Some(i);
            }
            i = i + 1;
        }
        None
    }

    pub fn balance_of(&self, key: AccountId) -> (r: Balance)
        ensures
            r == self.spec_balance(key),
    {
        match self.find(key) {
            Some(i) => {
                proof {
                    lemma_get_found(self.entries@, key, i as int);
                }
                self.entries[i].1
            },
            None => {
                proof {
                    lemma_get_absent(self.entries@, key);
                }
                0
            },
        }
    }

    /// Add `amount` to the balance of `key`, as a ledger mint does.
    pub fn credit(&mut self, key: AccountId, amount: Balance)
        requires
            old(self).wf(),
            old(self).spec_total() + amount <= Balance::MAX,
        ensures
            final(self).wf(),
            final(self).spec_balance(key) == old(self).spec_balance(key) + amount,
            forall|b: AccountId| b != key ==> final(self).spec_balance(b) == old(
                self,
            ).spec_balance(b),
            final(self).spec_total() == old(self).spec_total() + amount,
    {
        let ghost s = self.entries@;
        proof {
            self.lemma_balance_le_total(key);
        }
        match self.find(key) {
            Some(i) => {
                proof {
                    lemma_get_found(s, key, i as int);
                }
                let held: Balance = self.entries[i].1;
                self.entries.set(i, (key, held + amount));
                proof {
                    assert(self.entries@ =~= s.update(i as int, (s[i as int].0, (held + amount) as Balance)));
                    assert forall|j: int| 0 <= j < i implies self.entries@[j].0 != key by {
                        assert(self.entries@[j] == s[j]);
                    }
                    lemma_get_found(self.entries@, key, i as int);
                    assert forall|b: AccountId| b != key implies self.spec_balance(b) == old(
                        self,
                    ).spec_balance(b) by {
                        lemma_get_update_other(s, i as int, (held + amount) as Balance, b);
                    }
                    lemma_total_update(s, i as int, (held + amount) as Balance);
                    assert(forall|j: int|
                        0 <= j < self.entries@.len() ==> self.entries@[j].0 == s[j].0);
                }
            },
            None => {
                proof {
                    lemma_get_absent(s, key);
                }
                self.entries.push((key, amount));
                proof {
                    assert forall|b: AccountId| true implies (if b == key {
                        self.spec_balance(b) == amount
                    } else {
                        self.spec_balance(b) == old(self).spec_balance(b)
                    }) by {
                        lemma_get_push(s, (key, amount), b);
                    }
                    lemma_total_push(s, (key, amount));
                    assert(unique_keys(self.entries@)) by {
                        assert(forall|j: int|
                            0 <= j < self.entries@.len() - 1 ==> self.entries@[j] == s[j]);
                    }
                }
            },
        }
    }

    /// Take `amount` from the balance of `key`, as a ledger burn does.
    pub fn debit(&mut self, key: AccountId, amount: Balance)
        requires
            old(self).wf(),
            amount <= old(self).spec_balance(key),
        ensures
            final(self).wf(),
            final(self).spec_balance(key) == old(self).spec_balance(key) - amount,
            forall|b: AccountId| b != key ==> final(self).spec_balance(b) == old(
                self,
            ).spec_balance(b),
            final(self).spec_total() == old(self).spec_total() - amount,
    {
        let ghost s = self.entries@;
        match self.find(key) {
            Some(i) => {
                proof {
                    lemma_get_found(s, key, i as int);
                }
                let held: Balance = self.entries[i].1;
                self.entries.set(i, (key, held - amount));
                proof {
                    assert(self.entries@ =~= s.update(i as int, (s[i as int].0, (held - amount) as Balance)));
                    assert forall|j: int| 0 <= j < i implies self.entries@[j].0 != key by {
                        assert(self.entries@[j] == s[j]);
                    }
                    lemma_get_found(self.entries@, key, i as int);
                    assert forall|b: AccountId| b != key implies self.spec_balance(b) == old(
                        self,
                    ).spec_balance(b) by {
                        lemma_get_update_other(s, i as int, (held - amount) as Balance, b);
                    }
                    lemma_total_update(s, i as int, (held - amount) as Balance);
                    assert(forall|j: int|
                        0 <= j < self.entries@.len() ==> self.entries@[j].0 == s[j].0);
                }
            },
            None => {
                proof {
                    lemma_get_absent(s, key);
                }
                // The balance of an absent account is zero, so only a zero
                // debit reaches this arm and nothing changes.
            },
        }
    }
}

} // verus!
