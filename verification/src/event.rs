//! What the module reports about the commands it has carried out. Events are
//! for observers only; no decision depends on them.

use crate::primitives::{AccountId, AssetId, Balance, BlockNumber, HashedProof, TechnicalId};
use vstd::prelude::*;

verus! {

/// A record of one command that took effect.
#[derive(Debug, Clone, Copy, PartialEq, Eq)]
pub enum Event {
    /// Some assets were issued. [asset_id, owner, amount]
    Issued(AssetId, TechnicalId, Balance),
    /// Some assets were destroyed. [asset_id, owner, amount]
    Destroyed(AssetId, TechnicalId, Balance),
    /// Some assets were transferred. [asset_id, from, to, amount]
    Transferred(AssetId, TechnicalId, TechnicalId, Balance),
    /// Swap created. [source, proof, end_block]
    SwapCreated(AccountId, HashedProof, BlockNumber),
    /// Swap claimed. The last parameter indicates whether the execution
    /// succeeds. [target, proof, success]
    SwapClaimed(TechnicalId, HashedProof, bool),
    /// Swap cancelled. [source, proof]
    SwapCancelled(AccountId, HashedProof),
}

} // verus!
