//! Swap actions: what is reserved when a swap is opened, and what happens to
//! it when the swap is claimed or cancelled.

use crate::balances::{
    lemma_transfer_keeps_supply, total_supply, transferred, well_formed, Balances,
};
use crate::error::Error;
use crate::ledger::Ledger;
use crate::primitives::{AccountId, AssetId, Balance, TechnicalId, Weight};
use vstd::prelude::*;

verus! {

/// The capability that a pending swap holds: how to reserve the resources of
/// the swap, and how to release them on a claim or a cancellation.
///
/// An action touches nothing but the ledger, and what it does there depends
/// only on the action, the accounts named and the ledger's contents. The
/// `*_spec` functions say what that is: an implementation defines them to
/// state what it does, and each operation is held to what they say. Where an
/// implementation leaves one of them as it stands here, nothing is said of
/// that operation.
pub trait SwapAction: Sized {
    /// The ledger after reserving from `source`, or why nothing is reserved.
    open spec fn reserve_spec(&self, balances: Balances, source: AccountId) -> Result<
        Balances,
        Error,
    > {
        arbitrary()
    }

    /// The ledger after releasing the reserved resources to `target`, or
    /// `None` when the claim does not go through.
    open spec fn claim_spec(
        &self,
        balances: Balances,
        source: AccountId,
        target: TechnicalId,
    ) -> Option<Balances> {
        arbitrary()
    }

    /// The ledger after giving the reserved resources back.
    open spec fn cancel_spec(&self, balances: Balances, source: AccountId) -> Balances {
        arbitrary()
    }

    /// The declared cost of executing the action.
    open spec fn weight_spec(&self) -> Weight {
        arbitrary()
    }

    /// Reserve the resources needed for the swap, on behalf of `source`. The
    /// reservation may fail; the ledger is then left as it was.
    fn reserve(&self, ledger: &mut Ledger, source: &AccountId) -> (res: Result<(), Error>)
        ensures
            match self.reserve_spec(old(ledger)@, *source) {
                Ok(m) => res is Ok && final(ledger)@ == m,
                Err(e) => res == Err::<(), Error>(e) && final(ledger)@ == old(ledger)@,
            },
    ;

    /// Claim the reserved resources for `target`. Returns whether the claim
    /// succeeds; one that does not leaves the ledger as it was.
    fn claim(&self, ledger: &mut Ledger, source: &AccountId, target: &TechnicalId) -> (claimed:
        bool)
        ensures
            match self.claim_spec(old(ledger)@, *source, *target) {
                Some(m) => claimed && final(ledger)@ == m,
                None => !claimed && final(ledger)@ == old(ledger)@,
            },
    ;

    /// Weight for executing the operation.
    fn weight(&self) -> (w: Weight)
        ensures
            w == self.weight_spec(),
    ;

    /// Give the reserved resources back. A cancellation reports no failure.
    fn cancel(&self, ledger: &mut Ledger, source: &AccountId)
        ensures
            final(ledger)@ == self.cancel_spec(old(ledger)@, *source),
    ;
}

/// Declared weight of a [`TransferAction`].
pub const TRANSFER_WEIGHT: Weight = 10_000;

/// A swap of one asset: `amount` of `asset` is moved from `from` into
/// `escrow` when the swap is opened, and from `escrow` to the claimant or
/// back to `from` when it ends.
#[derive(Debug, Clone, Copy, PartialEq, Eq, Structural)]
pub struct TransferAction {
    pub asset: AssetId,
    pub from: TechnicalId,
    pub escrow: TechnicalId,
    pub amount: Balance,
}

impl SwapAction for TransferAction {
    open spec fn reserve_spec(&self, balances: Balances, source: AccountId) -> Result<
        Balances,
        Error,
    > {
        transferred(balances, self.asset, self.from, self.escrow, self.amount)
    }

    open spec fn claim_spec(
        &self,
        balances: Balances,
        source: AccountId,
        target: TechnicalId,
    ) -> Option<Balances> {
        match transferred(balances, self.asset, self.escrow, target, self.amount) {
            Ok(m) => Some(m),
            Err(_) => None,
        }
    }

    /// The amount goes back from escrow to where it came from. Should the
    /// escrow no longer hold it, or the receiving balance not fit, nothing
    /// moves.
    open spec fn cancel_spec(&self, balances: Balances, source: AccountId) -> Balances {
        match transferred(balances, self.asset, self.escrow, self.from, self.amount) {
            Ok(m) => m,
            Err(_) => balances,
        }
    }

    open spec fn weight_spec(&self) -> Weight {
        TRANSFER_WEIGHT
    }

    fn reserve(&self, ledger: &mut Ledger, source: &AccountId) -> (res: Result<(), Error>) {
        ledger.transfer(self.asset, self.from, self.escrow, self.amount)
    }

    fn claim(&self, ledger: &mut Ledger, source: &AccountId, target: &TechnicalId) -> (claimed:
        bool) {
        ledger.transfer(self.asset, self.escrow, *target, self.amount).is_ok()
    }

    fn weight(&self) -> (w: Weight) {
        TRANSFER_WEIGHT
    }

    fn cancel(&self, ledger: &mut Ledger, source: &AccountId) {
        let _ = ledger.transfer(self.asset, self.escrow, self.from, self.amount);
    }
}

impl TransferAction {
    /// Reserving, claiming and cancelling a transfer never change the supply
    /// of any asset.
    pub proof fn lemma_keeps_supply(
        &self,
        balances: Balances,
        source: AccountId,
        target: TechnicalId,
        asset: AssetId,
    )
        requires
            balances.dom().finite(),
        ensures
            self.reserve_spec(balances, source) matches Ok(m) ==> total_supply(m, asset)
                == total_supply(balances, asset),
            self.claim_spec(balances, source, target) matches Some(m) ==> total_supply(m, asset)
                == total_supply(balances, asset),
            total_supply(self.cancel_spec(balances, source), asset) == total_supply(
                balances,
                asset,
            ),
    {
        lemma_transfer_keeps_supply(balances, self.asset, self.from, self.escrow, self.amount);
        lemma_transfer_keeps_supply(balances, self.asset, self.escrow, target, self.amount);
        lemma_transfer_keeps_supply(balances, self.asset, self.escrow, self.from, self.amount);
    }

    /// Cancelling right after reserving puts every balance back where it was.
    pub proof fn lemma_cancel_undoes_reserve(&self, balances: Balances, source: AccountId)
        requires
            well_formed(balances),
        ensures
            self.reserve_spec(balances, source) matches Ok(reserved) ==> self.cancel_spec(
                reserved,
                source,
            ) == balances,
    {
        if let Ok(reserved) = self.reserve_spec(balances, source) {
            assert(self.cancel_spec(reserved, source) =~= balances);
        }
    }
}

} // verus!
