//! The module as a state machine: its state as plain mathematical values, and
//! each command as a function from the state before to the state after or to
//! the error that rejects it.

use crate::action::{SwapAction, TransferAction};
use crate::balances::{
    balance_in, credited, debited, total_supply, transferred, well_formed, Balances,
};
use crate::error::Error;
use crate::event::Event;
use crate::primitives::{AccountId, AssetId, Balance, BlockNumber, HashedProof, TechnicalId};
use crate::registry::PendingSwap;
use vstd::prelude::*;

verus! {

/// Everything the module holds.
pub struct State<A> {
    /// The ledger: who holds how much of what.
    pub balances: Balances,
    /// The pending swaps, by commitment.
    pub swaps: Map<HashedProof, PendingSwap<A>>,
    /// The events reported and not yet collected, oldest first.
    pub events: Seq<Event>,
}

impl<A: SwapAction> State<A> {
    /// The state of a module that holds nothing.
    pub open spec fn empty() -> Self {
        State { balances: Map::empty(), swaps: Map::empty(), events: Seq::empty() }
    }

    /// The same state with one more event reported.
    pub open spec fn report(self, event: Event) -> Self {
        State { events: self.events.push(event), ..self }
    }

    /// Issuing `amount` of `asset` to `who`.
    pub open spec fn credit(self, asset: AssetId, who: TechnicalId, amount: Balance) -> Result<
        Self,
        Error,
    > {
        match credited(self.balances, asset, who, amount) {
            Err(e) => Err(e),
            Ok(balances) => Ok(
                State { balances, ..self }.report(Event::Issued(asset, who, amount)),
            ),
        }
    }

    /// Destroying `amount` of `asset` held by `who`.
    pub open spec fn debit(self, asset: AssetId, who: TechnicalId, amount: Balance) -> Result<
        Self,
        Error,
    > {
        match debited(self.balances, asset, who, amount) {
            Err(e) => Err(e),
            Ok(balances) => Ok(
                State { balances, ..self }.report(Event::Destroyed(asset, who, amount)),
            ),
        }
    }

    /// Moving `amount` of `asset` from `from` to `to`.
    pub open spec fn transfer(
        self,
        asset: AssetId,
        from: TechnicalId,
        to: TechnicalId,
        amount: Balance,
    ) -> Result<Self, Error> {
        match transferred(self.balances, asset, from, to, amount) {
            Err(e) => Err(e),
            Ok(balances) => Ok(
                State { balances, ..self }.report(Event::Transferred(asset, from, to, amount)),
            ),
        }
    }

    /// Opening a swap at time `now`.
    ///
    /// A commitment that is already pending is rejected first, then a
    /// deadline that is not in the future, then whatever the action's
    /// reservation fails with. Only a successful reservation creates the
    /// record.
    pub open spec fn open_swap(
        self,
        hashed_proof: HashedProof,
        source: AccountId,
        action: A,
        deadline: BlockNumber,
        now: BlockNumber,
    ) -> Result<Self, Error> {
        if self.swaps.contains_key(hashed_proof) {
            Err(Error::DuplicateProof)
        } else if deadline <= now {
            Err(Error::InvalidDeadline)
        } else {
            match action.reserve_spec(self.balances, source) {
                Err(e) => Err(e),
                Ok(balances) => Ok(
                    State {
                        balances,
                        swaps: self.swaps.insert(
                            hashed_proof,
                            PendingSwap { source, action, end_block: deadline },
                        ),
                        events: self.events,
                    }.report(Event::SwapCreated(source, hashed_proof, deadline)),
                ),
            }
        }
    }

    /// Claiming a swap for `target` at time `now`.
    ///
    /// The claim is attempted only for a pending swap that has not expired.
    /// It is attempted once: the record is removed whether or not the action
    /// lets the claim through, and the flag returned says which.
    pub open spec fn claim_swap(
        self,
        hashed_proof: HashedProof,
        target: TechnicalId,
        now: BlockNumber,
    ) -> Result<(Self, bool), Error> {
        if !self.swaps.contains_key(hashed_proof) {
            Err(Error::UnknownSwap)
        } else {
            let swap = self.swaps[hashed_proof];
            if swap.expired_at(now) {
                Err(Error::Expired)
            } else {
                let outcome = swap.action.claim_spec(self.balances, swap.source, target);
                let balances = match outcome {
                    Some(balances) => balances,
                    None => self.balances,
                };
                Ok(
                    (
                        State {
                            balances,
                            swaps: self.swaps.remove(hashed_proof),
                            events: self.events,
                        }.report(Event::SwapClaimed(target, hashed_proof, outcome is Some)),
                        outcome is Some,
                    ),
                )
            }
        }
    }

    /// Cancelling a swap, which returns what it had reserved.
    pub open spec fn cancel_swap(self, hashed_proof: HashedProof) -> Result<Self, Error> {
        if !self.swaps.contains_key(hashed_proof) {
            Err(Error::UnknownSwap)
        } else {
            let swap = self.swaps[hashed_proof];
            Ok(
                State {
                    balances: swap.action.cancel_spec(self.balances, swap.source),
                    swaps: self.swaps.remove(hashed_proof),
                    events: self.events,
                }.report(Event::SwapCancelled(swap.source, hashed_proof)),
            )
        }
    }

    /// Sweeping a swap at time `now`: the cancellation that is open to
    /// everybody. A swap that has expired is cancelled; one that has not is
    /// left alone, and the flag returned says which.
    pub open spec fn sweep(self, hashed_proof: HashedProof, now: BlockNumber) -> Result<
        (Self, bool),
        Error,
    > {
        if !self.swaps.contains_key(hashed_proof) {
            Err(Error::UnknownSwap)
        } else if !self.swaps[hashed_proof].expired_at(now) {
            Ok((self, false))
        } else {
            match self.cancel_swap(hashed_proof) {
                Ok(after) => Ok((after, true)),
                Err(e) => Err(e),
            }
        }
    }
}

impl<A: SwapAction> State<A> {
    /// Swap exclusivity: while a swap is pending under a commitment, no other
    /// can be opened under it, whatever else the command says.
    pub proof fn lemma_pending_proof_is_exclusive(
        self,
        hashed_proof: HashedProof,
        source: AccountId,
        action: A,
        deadline: BlockNumber,
        now: BlockNumber,
    )
        requires
            self.swaps.contains_key(hashed_proof),
        ensures
            self.open_swap(hashed_proof, source, action, deadline, now) == Err::<Self, Error>(
                Error::DuplicateProof,
            ),
    {
    }

    /// A swap that has been opened is pending exactly as it was opened, and
    /// it is the only swap added.
    pub proof fn lemma_open_records_swap(
        self,
        hashed_proof: HashedProof,
        source: AccountId,
        action: A,
        deadline: BlockNumber,
        now: BlockNumber,
    )
        ensures
            self.open_swap(hashed_proof, source, action, deadline, now) matches Ok(opened) ==> {
                &&& !self.swaps.contains_key(hashed_proof)
                &&& now < deadline
                &&& opened.swaps.contains_key(hashed_proof)
                &&& opened.swaps[hashed_proof] == (PendingSwap {
                    source,
                    action,
                    end_block: deadline,
                })
                &&& opened.swaps.remove(hashed_proof) == self.swaps
            },
    {
        if let Ok(opened) = self.open_swap(hashed_proof, source, action, deadline, now) {
            assert(opened.swaps.remove(hashed_proof) =~= self.swaps);
        }
    }

    /// Claim-or-cancel exclusivity, after a claim: once a claim has been
    /// attempted, the swap is gone, and every further claim or cancellation
    /// under its commitment is rejected with `UnknownSwap`.
    pub proof fn lemma_claim_ends_swap(
        self,
        hashed_proof: HashedProof,
        target: TechnicalId,
        now: BlockNumber,
        later_target: TechnicalId,
        later: BlockNumber,
    )
        ensures
            self.claim_swap(hashed_proof, target, now) matches Ok((after, _)) ==> {
                &&& !after.swaps.contains_key(hashed_proof)
                &&& after.claim_swap(hashed_proof, later_target, later) == Err::<(Self, bool), Error>(
                    Error::UnknownSwap,
                )
                &&& after.cancel_swap(hashed_proof) == Err::<Self, Error>(Error::UnknownSwap)
                &&& after.sweep(hashed_proof, later) == Err::<(Self, bool), Error>(
                    Error::UnknownSwap,
                )
            },
    {
    }

    /// Claim-or-cancel exclusivity, after a cancellation: once a swap has
    /// been cancelled, every further claim or cancellation under its
    /// commitment is rejected with `UnknownSwap`.
    pub proof fn lemma_cancel_ends_swap(
        self,
        hashed_proof: HashedProof,
        later_target: TechnicalId,
        later: BlockNumber,
    )
        ensures
            self.cancel_swap(hashed_proof) matches Ok(after) ==> {
                &&& !after.swaps.contains_key(hashed_proof)
                &&& after.claim_swap(hashed_proof, later_target, later) == Err::<(Self, bool), Error>(
                    Error::UnknownSwap,
                )
                &&& after.cancel_swap(hashed_proof) == Err::<Self, Error>(Error::UnknownSwap)
                &&& after.sweep(hashed_proof, later) == Err::<(Self, bool), Error>(
                    Error::UnknownSwap,
                )
            },
    {
    }

    /// Expiry exclusion: from its deadline on, a pending swap cannot be
    /// claimed any more, while cancelling it succeeds and is open to
    /// everybody: a sweep then does what a cancellation does. Before the
    /// deadline a claim is never rejected, and a sweep changes nothing.
    pub proof fn lemma_expiry(
        self,
        hashed_proof: HashedProof,
        target: TechnicalId,
        caller: AccountId,
        now: BlockNumber,
    )
        requires
            self.swaps.contains_key(hashed_proof),
        ensures
            now >= self.swaps[hashed_proof].end_block ==> {
                &&& self.claim_swap(hashed_proof, target, now) == Err::<(Self, bool), Error>(
                    Error::Expired,
                )
                &&& self.swaps[hashed_proof].cancellable_by(caller, now)
                &&& self.sweep(hashed_proof, now) matches Ok((swept, true))
                &&& self.cancel_swap(hashed_proof) == Ok::<Self, Error>(swept)
            },
            now < self.swaps[hashed_proof].end_block ==> {
                &&& self.claim_swap(hashed_proof, target, now) is Ok
                &&& self.sweep(hashed_proof, now) == Ok::<(Self, bool), Error>((self, false))
            },
            self.cancel_swap(hashed_proof) is Ok,
    {
    }

    /// Swap commands leave alone every swap but the one they name.
    pub proof fn lemma_other_swaps_untouched(
        self,
        hashed_proof: HashedProof,
        source: AccountId,
        action: A,
        deadline: BlockNumber,
        target: TechnicalId,
        now: BlockNumber,
        other: HashedProof,
    )
        requires
            other != hashed_proof,
        ensures
            self.open_swap(hashed_proof, source, action, deadline, now) matches Ok(after)
                ==> after.swaps.contains_key(other) == self.swaps.contains_key(other)
                && after.swaps[other] == self.swaps[other],
            self.claim_swap(hashed_proof, target, now) matches Ok((after, _))
                ==> after.swaps.contains_key(other) == self.swaps.contains_key(other)
                && after.swaps[other] == self.swaps[other],
            self.cancel_swap(hashed_proof) matches Ok(after) ==> after.swaps.contains_key(other)
                == self.swaps.contains_key(other) && after.swaps[other] == self.swaps[other],
    {
    }
}

impl State<TransferAction> {
    /// A commitment is free again once its swap has ended: after a claim or
    /// a cancellation, opening a swap under it is no longer a duplicate.
    /// A transfer's reservation fails for want of funds or of room only.
    pub proof fn lemma_ended_proof_is_free(
        self,
        hashed_proof: HashedProof,
        target: TechnicalId,
        now: BlockNumber,
        source: AccountId,
        action: TransferAction,
        deadline: BlockNumber,
        later: BlockNumber,
    )
        ensures
            self.claim_swap(hashed_proof, target, now) matches Ok((after, _)) ==> after.open_swap(
                hashed_proof,
                source,
                action,
                deadline,
                later,
            ) != Err::<Self, Error>(Error::DuplicateProof),
            self.cancel_swap(hashed_proof) matches Ok(after) ==> after.open_swap(
                hashed_proof,
                source,
                action,
                deadline,
                later,
            ) != Err::<Self, Error>(Error::DuplicateProof),
    {
    }

    /// Round trip: opening a swap moves its amount from the source account
    /// into escrow, and cancelling it then puts every balance and every swap
    /// back as they were before it was opened.
    pub proof fn lemma_cancel_undoes_open(
        self,
        hashed_proof: HashedProof,
        source: AccountId,
        action: TransferAction,
        deadline: BlockNumber,
        now: BlockNumber,
    )
        requires
            well_formed(self.balances),
        ensures
            self.open_swap(hashed_proof, source, action, deadline, now) matches Ok(opened) ==> {
                &&& action.from != action.escrow ==> {
                    &&& balance_in(opened.balances, action.asset, action.from) == balance_in(
                        self.balances,
                        action.asset,
                        action.from,
                    ) - action.amount
                    &&& balance_in(opened.balances, action.asset, action.escrow) == balance_in(
                        self.balances,
                        action.asset,
                        action.escrow,
                    ) + action.amount
                }
                &&& opened.cancel_swap(hashed_proof) matches Ok(cancelled)
                &&& cancelled.balances == self.balances
                &&& cancelled.swaps == self.swaps
            },
    {
        if let Ok(opened) = self.open_swap(hashed_proof, source, action, deadline, now) {
            action.lemma_cancel_undoes_reserve(self.balances, source);
            self.lemma_open_records_swap(hashed_proof, source, action, deadline, now);
        }
    }

    /// End to end: a claim made before the deadline of a swap that has just
    /// been opened moves the reserved amount from escrow to the claimant and
    /// ends the swap, provided the claimant's balance has room for it.
    pub proof fn lemma_claim_delivers(
        self,
        hashed_proof: HashedProof,
        source: AccountId,
        action: TransferAction,
        deadline: BlockNumber,
        now: BlockNumber,
        target: TechnicalId,
        later: BlockNumber,
    )
        requires
            later < deadline,
            target != action.escrow,
        ensures
            self.open_swap(hashed_proof, source, action, deadline, now) matches Ok(opened) ==> (
            balance_in(opened.balances, action.asset, target) + action.amount <= Balance::MAX)
                ==> {
                &&& opened.claim_swap(hashed_proof, target, later) matches Ok((claimed, true))
                &&& balance_in(claimed.balances, action.asset, target) == balance_in(
                    opened.balances,
                    action.asset,
                    target,
                ) + action.amount
                &&& balance_in(claimed.balances, action.asset, action.escrow) == balance_in(
                    opened.balances,
                    action.asset,
                    action.escrow,
                ) - action.amount
                &&& !claimed.swaps.contains_key(hashed_proof)
            },
    {
    }

    /// Swap commands move value and never create or destroy it: opening,
    /// claiming and cancelling leave the supply of every asset as it was.
    pub proof fn lemma_swaps_keep_supply(
        self,
        hashed_proof: HashedProof,
        source: AccountId,
        action: TransferAction,
        deadline: BlockNumber,
        target: TechnicalId,
        now: BlockNumber,
        asset: AssetId,
    )
        requires
            self.balances.dom().finite(),
        ensures
            self.open_swap(hashed_proof, source, action, deadline, now) matches Ok(after)
                ==> total_supply(after.balances, asset) == total_supply(self.balances, asset),
            self.claim_swap(hashed_proof, target, now) matches Ok((after, _)) ==> total_supply(
                after.balances,
                asset,
            ) == total_supply(self.balances, asset),
            self.cancel_swap(hashed_proof) matches Ok(after) ==> total_supply(
                after.balances,
                asset,
            ) == total_supply(self.balances, asset),
    {
        action.lemma_keeps_supply(self.balances, source, target, asset);
        if self.swaps.contains_key(hashed_proof) {
            let swap = self.swaps[hashed_proof];
            swap.action.lemma_keeps_supply(self.balances, swap.source, target, asset);
        }
    }
}

} // verus!
