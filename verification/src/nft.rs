//! The collectible issuance controller: a monotonic unit counter, a
//! supply cap and a per-unit price, driving sequential mints on the
//! non-fungible ledger. Unit ownership is modelled as one recorded owner
//! per issued id; ids are assigned in order starting at 0 and never
//! reused. The id 0 also carries the collection's descriptive metadata,
//! which is why the user-token scan starts at id 1.
use vstd::prelude::*;

use crate::{AccountId, Balance};

verus! {

/// A recoverable fault of the issuance entry points.
#[derive(Clone, Copy, Debug, PartialEq, Eq, Structural)]
pub enum Error {
    /// A batch of zero units was requested.
    InvalidAmount,
    /// The attached payment does not cover the batch.
    InsufficientPayment,
}

/// Extra units granted on top of a batch of exactly 10 or exactly 20.
pub open spec fn bonus_units(amount: u64) -> int {
    if amount == 10 {
        1
    } else if amount == 20 {
        3
    } else {
        0
    }
}

/// All units a successful batch issues, the bonus included.
pub open spec fn total_units(amount: u64) -> int {
    amount + bonus_units(amount)
}

/// The collectible contract: configuration, the id counter, and the
/// recorded owner of every issued unit.
pub struct Contract {
    owner: AccountId,
    name: String,
    symbol: String,
    base_uri: String,
    max_supply: u64,
    price_per_mint: Balance,
    next_id: u64,
    owners: Vec<AccountId>,
}

impl Contract {
    /// Every id below `next_id` has been issued and has an owner on record.
    pub closed spec fn wf(self) -> bool {
        self.owners@.len() == self.next_id
    }

    pub closed spec fn spec_owner(self) -> AccountId {
        self.owner
    }

    pub closed spec fn spec_name(self) -> Seq<char> {
        self.name@
    }

    pub closed spec fn spec_symbol(self) -> Seq<char> {
        self.symbol@
    }

    pub closed spec fn spec_base_uri(self) -> Seq<char> {
        self.base_uri@
    }

    pub closed spec fn spec_max_supply(self) -> u64 {
        self.max_supply
    }

    pub closed spec fn spec_price_per_mint(self) -> Balance {
        self.price_per_mint
    }

    /// The id the next issued unit will get.
    pub closed spec fn spec_next_id(self) -> u64 {
        self.next_id
    }

    /// The recorded owner of unit `id`, if it has been issued.
    pub closed spec fn spec_owner_of(self, id: u64) -> Option<AccountId> {
        if id < self.owners@.len() {
            Some(self.owners@[id as int])
        } else {
            None
        }
    }

    /// The configuration set at construction: owner, metadata, cap, price.
    pub open spec fn same_config(a: Contract, b: Contract) -> bool {
        &&& a.spec_owner() == b.spec_owner()
        &&& a.spec_name() == b.spec_name()
        &&& a.spec_symbol() == b.spec_symbol()
        &&& a.spec_base_uri() == b.spec_base_uri()
        &&& a.spec_max_supply() == b.spec_max_supply()
        &&& a.spec_price_per_mint() == b.spec_price_per_mint()
    }

    /// The ids among `1 ..= n` whose recorded owner is `user`, ascending.
    pub open spec fn user_tokens_upto(self, user: AccountId, n: int) -> Seq<u64>
        decreases n,
    {
        if n < 1 {
            Seq::empty()
        } else {
            let prefix = self.user_tokens_upto(user, n - 1);
            if self.spec_owner_of(n as u64) == Some(user) {
                prefix.push(n as u64)
            } else {
                prefix
            }
        }
    }

    /// The ids among `1 ..= next_id` whose recorded owner is `user`.
    pub open spec fn spec_user_tokens(self, user: AccountId) -> Seq<u64> {
        self.user_tokens_upto(user, self.spec_next_id() as int)
    }

    /// Records the caller as owner, stores the descriptive strings as the
    /// sentinel unit's metadata, and starts the id counter at 0.
    pub fn new(
        caller: AccountId,
        name: String,
        symbol: String,
        base_uri: String,
        max_supply: u64,
        price_per_mint: Balance,
    ) -> (r: Contract)
        ensures
            r.wf(),
            r.spec_owner() == caller,
            r.spec_name() == name@,
            r.spec_symbol() == symbol@,
            r.spec_base_uri() == base_uri@,
            r.spec_max_supply() == max_supply,
            r.spec_price_per_mint() == price_per_mint,
            r.spec_next_id() == 0,
            forall|id: u64| r.spec_owner_of(id) is None,
    {
        Contract {
            owner: caller,
            name,
            symbol,
            base_uri,
            max_supply,
            price_per_mint,
            next_id: 0,
            owners: Vec::new(),
        }
    }

    /// A batch of zero units is rejected.
    fn check_amount(&self, amount: u64) -> (r: Result<(), Error>)
        ensures
            r == (if amount == 0 {
                Err::<(), Error>(Error::InvalidAmount)
            } else {
                Ok::<(), Error>(())
            }),
    {
        if amount == 0 {
            return Err(Error::InvalidAmount);
        }
        Ok(())
    }

    /// The attached payment must cover the batch at the per-unit price.
    fn check_value(&self, value: Balance, amount: u64) -> (r: Result<(), Error>)
        requires
            self.spec_price_per_mint() * amount <= Balance::MAX,
        ensures
            r == (if value < self.spec_price_per_mint() * amount {
                Err::<(), Error>(Error::InsufficientPayment)
            } else {
                Ok::<(), Error>(())
            }),
    {
        let required_value = self.price_per_mint * (amount as Balance);
        if value < required_value {
            return Err(Error::InsufficientPayment);
        }
        Ok(())
    }

    /// Issues one unit with the current id to `caller` and advances the
    /// counter; counter exhaustion is a fatal condition and is excluded.
    fn mint_token(&mut self, caller: AccountId) -> (r: Result<(), Error>)
        requires
            old(self).wf(),
            old(self).spec_next_id() < u64::MAX,
        ensures
            final(self).wf(),
            r == Ok::<(), Error>(()),
            Self::same_config(*old(self), *final(self)),
            final(self).spec_next_id() == old(self).spec_next_id() + 1,
            final(self).spec_owner_of(old(self).spec_next_id()) == Some(caller),
            forall|id: u64|
                id != old(self).spec_next_id() ==> final(self).spec_owner_of(id) == old(
                    self,
                ).spec_owner_of(id),
    {
        self.owners.push(caller);
        self.next_id = self.next_id.checked_add(1).unwrap();
        Ok(())
    }

    /// Issues `mint_amount` sequential units to the caller once the amount
    /// and the attached payment pass, plus the bonus units of a batch of
    /// exactly 10 or 20. A failed check leaves the contract untouched.
    pub fn mint(&mut self, caller: AccountId, transferred_value: Balance, mint_amount: u64) -> (r:
        Result<(), Error>)
        requires
            old(self).wf(),
            mint_amount != 0 ==> old(self).spec_price_per_mint() * mint_amount <= Balance::MAX,
            (mint_amount != 0 && transferred_value >= old(self).spec_price_per_mint()
                * mint_amount) ==> old(self).spec_next_id() + total_units(mint_amount)
                <= u64::MAX,
        ensures
            final(self).wf(),
            Self::same_config(*old(self), *final(self)),
            mint_amount == 0 ==> r == Err::<(), Error>(Error::InvalidAmount) && *final(self)
                == *old(self),
            mint_amount != 0 && transferred_value < old(self).spec_price_per_mint() * mint_amount
                ==> r == Err::<(), Error>(Error::InsufficientPayment) && *final(self) == *old(
                self,
            ),
            mint_amount != 0 && transferred_value >= old(self).spec_price_per_mint() * mint_amount
                ==> {
                &&& r == Ok::<(), Error>(())
                &&& final(self).spec_next_id() == old(self).spec_next_id() + total_units(
                    mint_amount,
                )
                &&& forall|id: u64|
                    old(self).spec_next_id() <= id < old(self).spec_next_id() + total_units(
                        mint_amount,
                    ) ==> final(self).spec_owner_of(id) == Some(caller)
                &&& forall|id: u64|
                    !(old(self).spec_next_id() <= id < old(self).spec_next_id() + total_units(
                        mint_amount,
                    )) ==> final(self).spec_owner_of(id) == old(self).spec_owner_of(id)
            },
    {
        if let Err(e) = self.check_amount(mint_amount) {
            return Err(e);
        }
        if let Err(e) = self.check_value(transferred_value, mint_amount) {
            return Err(e);
        }
        let ghost pre = *self;
        let next_to_mint: u64 = self.next_id;
        let mint_offset: u64 = next_to_mint + mint_amount;
        let mut mint_id: u64 = next_to_mint;
        while mint_id < mint_offset
            invariant
                self.wf(),
                Self::same_config(pre, *self),
                next_to_mint <= mint_id <= mint_offset,
                mint_offset == next_to_mint + mint_amount,
                pre.spec_next_id() == next_to_mint,
                mint_offset + bonus_units(mint_amount) <= u64::MAX,
                self.spec_next_id() == mint_id,
                forall|id: u64|
                    next_to_mint <= id < mint_id ==> self.spec_owner_of(id) == Some(caller),
                forall|id: u64|
                    !(next_to_mint <= id < mint_id) ==> self.spec_owner_of(id)
                        == pre.spec_owner_of(id),
            decreases mint_offset - mint_id,
        {
            if let Err(e) = self.mint_token(caller) {
                return Err(e);
            }
            mint_id = mint_id + 1;
        }
        if mint_amount == 10 {
            if let Err(e) = self.mint_token(caller) {
                return Err(e);
            }
        } else if mint_amount == 20 {
            let mut extra: u64 = 0;
            while extra < 3
                invariant
                    self.wf(),
                    Self::same_config(pre, *self),
                    mint_amount == 20,
                    0 <= extra <= 3,
                    mint_offset == next_to_mint + mint_amount,
                    pre.spec_next_id() == next_to_mint,
                    mint_offset + 3 <= u64::MAX,
                    self.spec_next_id() == mint_offset + extra,
                    forall|id: u64|
                        next_to_mint <= id < mint_offset + extra ==> self.spec_owner_of(id)
                            == Some(caller),
                    forall|id: u64|
                        !(next_to_mint <= id < mint_offset + extra) ==> self.spec_owner_of(id)
                            == pre.spec_owner_of(id),
                decreases 3 - extra,
            {
                if let Err(e) = self.mint_token(caller) {
                    return Err(e);
                }
                extra = extra + 1;
            }
        }
        Ok(())
    }

    /// The recorded owner of unit `id`, if it has been issued: the
    /// non-fungible ledger's owner lookup.
    pub fn owner_of(&self, id: u64) -> (r: Option<AccountId>)
        requires
            self.wf(),
        ensures
            r == self.spec_owner_of(id),
    {
        let issued: usize = self.owners.len();
        if id < issued as u64 {
            Some(self.owners[id as usize])
        } else {
            None
        }
    }

    /// Scans the issued ids from 1 up to the counter and returns, in
    /// ascending order, those whose recorded owner is `user`.
    pub fn get_user_tokens(&self, user: AccountId) -> (r: Vec<u64>)
        requires
            self.wf(),
        ensures
            r@ == self.spec_user_tokens(user),
    {
        let mut user_tokens: Vec<u64> = Vec::new();
        let mut token_id: usize = 1;
        while token_id < self.owners.len()
            invariant
                self.wf(),
                1 <= token_id,
                self.owners@.len() > 0 ==> token_id <= self.owners@.len(),
                self.owners@.len() == 0 ==> token_id == 1,
                user_tokens@ == self.user_tokens_upto(user, token_id - 1),
            decreases self.owners@.len() - token_id,
        {
            if self.owners[token_id] == user {
                user_tokens.push(token_id as u64);
            }
            token_id = token_id + 1;
        }
        proof {
            if self.owners@.len() == 0 {
                assert(user_tokens@ == self.user_tokens_upto(user, self.spec_next_id() as int));
            } else {
                // The id equal to the counter itself is not issued yet, so
                // the final scan step adds nothing.
                assert(self.spec_owner_of(self.spec_next_id()) is None);
                assert(user_tokens@ == self.user_tokens_upto(
                    user,
                    self.spec_next_id() as int - 1,
                ));
                assert(self.user_tokens_upto(user, self.spec_next_id() as int)
                    == self.user_tokens_upto(user, self.spec_next_id() as int - 1));
            }
        }
        user_tokens
    }

    /// Every id the scan returns lies in `1 ..= next_id` and is owned by
    /// `user`, and every such id is returned.
    pub proof fn lemma_user_tokens_membership(self, user: AccountId, n: int)
        requires
            self.wf(),
            0 <= n <= self.spec_next_id(),
        ensures
            forall|id: u64|
                #[trigger] self.user_tokens_upto(user, n).contains(id) <==> (1 <= id <= n
                    && self.spec_owner_of(id) == Some(user)),
        decreases n,
    {
        if n >= 1 {
            self.lemma_user_tokens_membership(user, n - 1);
            let prefix = self.user_tokens_upto(user, n - 1);
            let cur = self.user_tokens_upto(user, n);
            if self.spec_owner_of(n as u64) == Some(user) {
                assert(cur == prefix.push(n as u64));
                assert forall|id: u64| #[trigger] cur.contains(id) implies (1 <= id <= n
                    && self.spec_owner_of(id) == Some(user)) by {
                    let k = choose|k: int| 0 <= k < cur.len() && cur[k] == id;
                    if k < prefix.len() {
                        assert(prefix[k] == id);
                        assert(prefix.contains(id));
                    } else {
                        assert(id == n as u64);
                    }
                }
                assert forall|id: u64| (1 <= id <= n && self.spec_owner_of(id) == Some(user))
                    implies #[trigger] cur.contains(id) by {
                    if id <= n - 1 {
                        assert(prefix.contains(id));
                        let k = choose|k: int| 0 <= k < prefix.len() && prefix[k] == id;
                        assert(cur[k] == id);
                    } else {
                        assert(cur[prefix.len() as int] == n as u64);
                    }
                }
            } else {
                assert(cur == prefix);
            }
        }
    }

    /// The scan returns ids in strictly ascending order.
    pub proof fn lemma_user_tokens_sorted(self, user: AccountId, n: int)
        requires
            self.wf(),
            0 <= n <= self.spec_next_id(),
        ensures
            forall|i: int, j: int|
                0 <= i < j < self.user_tokens_upto(user, n).len() ==> self.user_tokens_upto(
                    user,
                    n,
                )[i] < self.user_tokens_upto(user, n)[j],
        decreases n,
    {
        if n >= 1 {
            self.lemma_user_tokens_sorted(user, n - 1);
            self.lemma_user_tokens_membership(user, n - 1);
            let prefix = self.user_tokens_upto(user, n - 1);
            let cur = self.user_tokens_upto(user, n);
            if self.spec_owner_of(n as u64) == Some(user) {
                assert(cur == prefix.push(n as u64));
                assert forall|i: int, j: int| 0 <= i < j < cur.len() implies cur[i] < cur[j] by {
                    if j == prefix.len() {
                        assert(prefix.contains(prefix[i]));
                        assert(prefix[i] <= n - 1);
                    }
                }
            }
        }
    }

    /// When one account owns every issued unit of a contract whose counter
    /// stands at `k`, the scan returns exactly the ids `1 ..= k - 1`: the
    /// batch ids except the sentinel id 0, and nothing else.
    pub proof fn lemma_user_tokens_of_sole_owner(self, user: AccountId, k: u64)
        requires
            self.wf(),
            self.spec_next_id() == k,
            k >= 1,
            forall|id: u64| id < k ==> self.spec_owner_of(id) == Some(user),
        ensures
            self.spec_user_tokens(user) == Seq::new((k - 1) as nat, |j: int| (j + 1) as u64),
    {
        self.lemma_upto_of_sole_owner(user, k as int - 1);
        assert(self.spec_owner_of(k) is None);
        assert(self.user_tokens_upto(user, k as int) == self.user_tokens_upto(user, k as int - 1));
        assert(self.spec_user_tokens(user) =~= Seq::new((k - 1) as nat, |j: int| (j + 1) as u64));
    }

    proof fn lemma_upto_of_sole_owner(self, user: AccountId, n: int)
        requires
            self.wf(),
            forall|id: u64| id < self.spec_next_id() ==> self.spec_owner_of(id) == Some(user),
            0 <= n < self.spec_next_id(),
        ensures
            self.user_tokens_upto(user, n) =~= Seq::new(n as nat, |j: int| (j + 1) as u64),
        decreases n,
    {
        if n >= 1 {
            self.lemma_upto_of_sole_owner(user, n - 1);
            assert((n as u64) < self.spec_next_id());
            assert(self.spec_owner_of(n as u64) == Some(user));
            assert(self.user_tokens_upto(user, n) =~= Seq::new((n - 1) as nat,
                |j: int| (j + 1) as u64,
            ).push(n as u64));
        }
    }
}

} // verus!
