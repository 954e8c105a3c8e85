//! The utility-token controller: a fungible balance ledger with a
//! burn-priced upgrade table keyed by an external item id, and a
//! per-account session flag that gates an owner-arbitrated reward mint.
use vstd::prelude::*;
use vstd::array::ArrayAdditionalExecFns;

use crate::balances::BalanceTable;
use crate::tables::{zero_stats, FlagTable, StatsTable};
use crate::{AccountId, Balance};

verus! {

/// A recoverable fault of the token entry points.
#[derive(Clone, Copy, Debug, PartialEq, Eq, Structural)]
pub enum Error {
    /// The caller's balance does not cover the burn of an upgrade.
    InsufficientBalance,
    /// An owner-only entry point was called by another account.
    Unauthorized,
}

/// The notification emitted after an upgrade: the item and its
/// resulting tally.
#[derive(Clone, Copy, Debug, PartialEq, Eq)]
pub struct NftStatsUpdated {
    pub nft_id: u16,
    pub stats: [u8; 6],
}

/// Ten to the `n`th power.
pub open spec fn pow10(n: nat) -> nat
    decreases n,
{
    if n == 0 {
        1
    } else {
        10 * pow10((n - 1) as nat)
    }
}

pub proof fn lemma_pow10_pos(n: nat)
    ensures
        pow10(n) >= 1,
    decreases n,
{
    if n > 0 {
        lemma_pow10_pos((n - 1) as nat);
    }
}

pub proof fn lemma_pow10_mono(a: nat, b: nat)
    requires
        a <= b,
    ensures
        pow10(a) <= pow10(b),
    decreases b,
{
    if a < b {
        lemma_pow10_mono(a, (b - 1) as nat);
        lemma_pow10_pos((b - 1) as nat);
    }
}

/// Ten to the `n`th power, for scaling the upgrade cost by the token's
/// decimals.
fn pow10_exec(n: u8) -> (r: Balance)
    requires
        pow10(n as nat) <= Balance::MAX,
    ensures
        r == pow10(n as nat),
{
    let mut i: u8 = 0;
    let mut acc: Balance = 1;
    while i < n
        invariant
            i <= n,
            acc == pow10(i as nat),
            pow10(n as nat) <= Balance::MAX,
        decreases n - i,
    {
        proof {
            lemma_pow10_mono(i as nat + 1, n as nat);
        }
        acc = acc * 10;
        i = i + 1;
    }
    acc
}

/// One 8-bit slot stepped by an upgrade; 255 wraps to 0, as the raw
/// arithmetic of the stored counters does.
pub open spec fn wrap_inc(v: u8) -> u8 {
    if v == 255 {
        0
    } else {
        (v + 1) as u8
    }
}

/// The fungible token contract: metadata, the balance ledger, the
/// upgrade table and the session flags.
pub struct Contract {
    owner: AccountId,
    name: Option<String>,
    symbol: Option<String>,
    decimals: u8,
    total_supply: Balance,
    balances: BalanceTable,
    upgrade_cost: Balance,
    nfts_stats: StatsTable,
    games: FlagTable,
}

/// The view of an optional metadata string.
pub open spec fn opt_str_view(o: Option<String>) -> Option<Seq<char>> {
    match o {
        Some(s) => Some(s@),
        None => None,
    }
}

impl Contract {
    /// The recorded total supply is the sum of all balances.
    pub closed spec fn wf(self) -> bool {
        &&& self.balances.wf()
        &&& self.nfts_stats.wf()
        &&& self.games.wf()
        &&& self.total_supply == self.balances.spec_total()
    }

    pub closed spec fn spec_owner(self) -> AccountId {
        self.owner
    }

    pub closed spec fn spec_name(self) -> Option<Seq<char>> {
        opt_str_view(self.name)
    }

    pub closed spec fn spec_symbol(self) -> Option<Seq<char>> {
        opt_str_view(self.symbol)
    }

    pub closed spec fn spec_decimals(self) -> u8 {
        self.decimals
    }

    pub closed spec fn spec_total_supply(self) -> Balance {
        self.total_supply
    }

    pub closed spec fn spec_upgrade_cost(self) -> Balance {
        self.upgrade_cost
    }

    /// The balance of `a`, zero where the ledger has no entry.
    pub closed spec fn spec_balance_of(self, a: AccountId) -> Balance {
        self.balances.spec_balance(a)
    }

    /// The upgrade tally of `id`, all zero where never upgraded.
    pub closed spec fn spec_nft_stats(self, id: u16) -> Seq<u8> {
        self.nfts_stats.spec_stats(id)
    }

    /// The session flag of `a`, `false` where never started.
    pub closed spec fn spec_game_of(self, a: AccountId) -> bool {
        self.games.spec_flag(a)
    }

    /// What one upgrade burns: the cost scaled by the token's decimals.
    pub open spec fn spec_burn_amount(self) -> int {
        self.spec_upgrade_cost() * pow10(self.spec_decimals() as nat)
    }

    /// The configuration set at construction: owner, metadata, cost.
    pub open spec fn same_config(a: Contract, b: Contract) -> bool {
        &&& a.spec_owner() == b.spec_owner()
        &&& a.spec_name() == b.spec_name()
        &&& a.spec_symbol() == b.spec_symbol()
        &&& a.spec_decimals() == b.spec_decimals()
        &&& a.spec_upgrade_cost() == b.spec_upgrade_cost()
    }

    /// No account holds more than the total supply.
    pub proof fn lemma_balance_bounded(self, a: AccountId)
        requires
            self.wf(),
        ensures
            self.spec_balance_of(a) <= self.spec_total_supply(),
    {
        self.balances.lemma_balance_le_total(a);
    }

    /// Records the caller as owner, sets the metadata, and mints the
    /// whole initial supply to the caller.
    pub fn new(
        caller: AccountId,
        total_supply: Balance,
        name: Option<String>,
        symbol: Option<String>,
        decimal: u8,
    ) -> (r: Contract)
        ensures
            r.wf(),
            r.spec_owner() == caller,
            r.spec_name() == opt_str_view(name),
            r.spec_symbol() == opt_str_view(symbol),
            r.spec_decimals() == decimal,
            r.spec_upgrade_cost() == 0,
            r.spec_total_supply() == total_supply,
            r.spec_balance_of(caller) == total_supply,
            forall|a: AccountId| a != caller ==> r.spec_balance_of(a) == 0,
            forall|id: u16| r.spec_nft_stats(id) == zero_stats(),
            forall|a: AccountId| !r.spec_game_of(a),
    {
        let mut balances = BalanceTable::new();
        balances.credit(caller, total_supply);
        Contract {
            owner: caller,
            name,
            symbol,
            decimals: decimal,
            total_supply,
            balances,
            upgrade_cost: 0,
            nfts_stats: StatsTable::new(),
            games: FlagTable::new(),
        }
    }

    /// The fungible ledger's balance lookup.
    pub fn balance_of(&self, account: AccountId) -> (r: Balance)
        ensures
            r == self.spec_balance_of(account),
    {
        self.balances.balance_of(account)
    }

    /// The fungible ledger's recorded total supply.
    pub fn total_supply(&self) -> (r: Balance)
        ensures
            r == self.spec_total_supply(),
    {
        self.total_supply
    }

    /// The stored tally of `nft_id`, all zero where never upgraded.
    pub fn get_nft_stats(&self, nft_id: u16) -> (r: [u8; 6])
        ensures
            r@ == self.spec_nft_stats(nft_id),
    {
        self.nfts_stats.get(nft_id)
    }

    /// Burns the scaled upgrade cost from the caller, then steps the
    /// item's slot at `index` by one; an index past the six slots skips
    /// the step but keeps the burn. A caller who cannot pay the burn is
    /// rejected before anything changes.
    pub fn add_nft_stats(&mut self, caller: AccountId, nft_id: u16, index: u8) -> (r: Result<
        NftStatsUpdated,
        Error,
    >)
        requires
            old(self).wf(),
            pow10(old(self).spec_decimals() as nat) <= Balance::MAX,
            old(self).spec_burn_amount() <= Balance::MAX,
        ensures
            final(self).wf(),
            Self::same_config(*old(self), *final(self)),
            old(self).spec_balance_of(caller) < old(self).spec_burn_amount() ==> r == Err::<
                NftStatsUpdated,
                Error,
            >(Error::InsufficientBalance) && *final(self) == *old(self),
            old(self).spec_balance_of(caller) >= old(self).spec_burn_amount() ==> {
                &&& final(self).spec_balance_of(caller) == old(self).spec_balance_of(caller)
                    - old(self).spec_burn_amount()
                &&& forall|b: AccountId|
                    b != caller ==> final(self).spec_balance_of(b) == old(self).spec_balance_of(b)
                &&& final(self).spec_total_supply() == old(self).spec_total_supply() - old(
                    self,
                ).spec_burn_amount()
                &&& final(self).spec_nft_stats(nft_id) == (if index < 6 {
                    old(self).spec_nft_stats(nft_id).update(
                        index as int,
                        wrap_inc(old(self).spec_nft_stats(nft_id)[index as int]),
                    )
                } else {
                    old(self).spec_nft_stats(nft_id)
                })
                &&& forall|o: u16|
                    o != nft_id ==> final(self).spec_nft_stats(o) == old(self).spec_nft_stats(o)
                &&& forall|a: AccountId|
                    final(self).spec_game_of(a) == old(self).spec_game_of(a)
                &&& r matches Ok(ev) && ev.nft_id == nft_id
                    && ev.stats@ == final(self).spec_nft_stats(nft_id)
            },
    {
        let pow: Balance = pow10_exec(self.decimals);
        let burn_amount: Balance = self.upgrade_cost * pow;
        let held: Balance = self.balances.balance_of(caller);
        if held < burn_amount {
            return Err(Error::InsufficientBalance);
        }
        proof {
            self.balances.lemma_balance_le_total(caller);
        }
        self.balances.debit(caller, burn_amount);
        self.total_supply = self.total_supply - burn_amount;
        let mut stats = self.nfts_stats.get(nft_id);
        if index < 6 {
            let idx: usize = index as usize;
            let v: u8 = stats[idx];
            let stepped: u8 = if v == 255 {
                0
            } else {
                v + 1
            };
            stats.set(idx, stepped);
        }
        self.nfts_stats.set(nft_id, stats);
        Ok(NftStatsUpdated { nft_id, stats })
    }

    /// Sets the caller's session flag, overwriting any prior value. A
    /// payment below the entry fee halts the call and is excluded here.
    pub fn start_game(&mut self, caller: AccountId, transferred_value: Balance)
        requires
            old(self).wf(),
            transferred_value >= 4_000_000_000,
        ensures
            final(self).wf(),
            Self::same_config(*old(self), *final(self)),
            final(self).spec_game_of(caller),
            forall|a: AccountId|
                a != caller ==> final(self).spec_game_of(a) == old(self).spec_game_of(a),
            forall|a: AccountId| final(self).spec_balance_of(a) == old(self).spec_balance_of(a),
            final(self).spec_total_supply() == old(self).spec_total_supply(),
            forall|id: u16| final(self).spec_nft_stats(id) == old(self).spec_nft_stats(id),
    {
        self.games.set(caller, true);
    }

    /// Whether `user` has a session under way.
    pub fn check_game_status(&self, user: AccountId) -> (r: bool)
        ensures
            r == self.spec_game_of(user),
    {
        self.games.get(user)
    }

    /// Owner-only: closes the user's session and mints the reward to the
    /// user. Ending a session that is not under way halts the call and is
    /// excluded here; a non-owner is rejected before anything changes.
    pub fn end_game(&mut self, caller: AccountId, user: AccountId, mint_amount: Balance) -> (r:
        Result<(), Error>)
        requires
            old(self).wf(),
            caller == old(self).spec_owner() ==> old(self).spec_game_of(user),
            caller == old(self).spec_owner() ==> old(self).spec_total_supply() + mint_amount
                <= Balance::MAX,
        ensures
            final(self).wf(),
            Self::same_config(*old(self), *final(self)),
            caller != old(self).spec_owner() ==> r == Err::<(), Error>(Error::Unauthorized)
                && *final(self) == *old(self),
            caller == old(self).spec_owner() ==> {
                &&& r == Ok::<(), Error>(())
                &&& !final(self).spec_game_of(user)
                &&& forall|a: AccountId|
                    a != user ==> final(self).spec_game_of(a) == old(self).spec_game_of(a)
                &&& final(self).spec_balance_of(user) == old(self).spec_balance_of(user)
                    + mint_amount
                &&& forall|b: AccountId|
                    b != user ==> final(self).spec_balance_of(b) == old(self).spec_balance_of(b)
                &&& final(self).spec_total_supply() == old(self).spec_total_supply() + mint_amount
                &&& forall|id: u16|
                    final(self).spec_nft_stats(id) == old(self).spec_nft_stats(id)
            },
    {
        if caller != self.owner {
            return Err(Error::Unauthorized);
        }
        self.games.set(user, false);
        self.balances.credit(user, mint_amount);
        self.total_supply = self.total_supply + mint_amount;
        Ok(())
    }
}

} // verus!
