//! Identifier and quantity types shared by the ledger and the swap registry.

use vstd::prelude::*;

verus! {

/// Identifier of a fungible asset kind.
pub type AssetId = u32;

/// Identifier of a technical account: a ledger-only account that holds funds
/// in transit and never signs anything itself.
pub type TechnicalId = u64;

/// Identifier of a user account, the party that signs swap commands.
pub type AccountId = u64;

/// Quantity of one asset held by one technical account.
pub type Balance = u128;

/// Logical time: a block height that never decreases.
pub type BlockNumber = u64;

/// Declared cost of executing a swap action, used for scheduling only.
pub type Weight = u64;

/// Commitment that identifies one pending swap.
pub type HashedProof = [u8; 32];

/// Ownership record of an exchange instance.
pub struct DexInfo<AccountId> {
    pub owner_account_id: AccountId,
    pub base_asset_id: AssetId,
}

/// An ordered pair of assets that may be exchanged for one another.
#[derive(Debug, Clone, Copy, PartialEq, Eq, Structural)]
pub struct TradingPair {
    /// Base token of exchange.
    pub base_asset_id: AssetId,
    /// Target token of exchange.
    pub target_asset_id: AssetId,
}

} // verus!
