//! Two verified on-chain asset controllers: a bounded-supply collectible
//! issuer with payment-gated sequential minting, and a fungible utility
//! token with burn-priced stat upgrades and an owner-arbitrated game
//! session flow.
use vstd::prelude::*;

pub mod assoc;
pub mod balances;
pub mod nft;
pub mod pepeboost;
pub mod tables;

verus! {

/// An account on the host ledger, identified by an unsigned id.
pub type AccountId = u128;

/// A fungible balance or attached payment amount, in minor units.
pub type Balance = u128;

} // verus!
