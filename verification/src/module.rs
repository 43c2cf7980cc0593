//! The module itself: one ledger, one swap registry and the log of events,
//! changed only by the commands below.

use crate::action::SwapAction;
use crate::balances::{balance_in, well_formed};
use crate::error::Error;
use crate::event::Event;
use crate::ledger::Ledger;
use crate::primitives::{AccountId, AssetId, Balance, BlockNumber, HashedProof, TechnicalId};
use crate::registry::{PendingSwap, SwapRegistry};
use crate::state::State;
use vstd::prelude::*;

verus! {

/// The ledger of technical accounts together with the swaps pending on it.
pub struct Module<A: SwapAction> {
    ledger: Ledger,
    swaps: SwapRegistry<A>,
    events: Vec<Event>,
}

impl<A: SwapAction> View for Module<A> {
    type V = State<A>;

    closed spec fn view(&self) -> State<A> {
        State { balances: self.ledger@, swaps: self.swaps@, events: self.events@ }
    }
}

impl<A: SwapAction> Module<A> {
    /// The balances of every module are well formed: finitely many, and none
    /// of them zero.
    pub proof fn lemma_balances_well_formed(&self)
        ensures
            well_formed(self@.balances),
    {
        self.ledger.lemma_well_formed();
    }

    /// A module that holds no balance, no swap and no event.
    pub fn new() -> (module: Self)
        ensures
            module@ == State::<A>::empty(),
    {
        Module { ledger: Ledger::new(), swaps: SwapRegistry::new(), events: Vec::new() }
    }

    /// Get the asset `id` balance of `who`.
    pub fn balance(&self, id: AssetId, who: TechnicalId) -> (held: Balance)
        ensures
            held == balance_in(self@.balances, id, who),
    {
        self.ledger.balance_of(id, who)
    }

    /// The swap pending under `hashed_proof`, if there is one.
    pub fn pending_swap(&self, hashed_proof: &HashedProof) -> (found: Option<&PendingSwap<A>>)
        ensures
            match found {
                Some(swap) => self@.swaps.contains_key(*hashed_proof) && *swap
                    == self@.swaps[*hashed_proof],
                None => !self@.swaps.contains_key(*hashed_proof),
            },
    {
        self.swaps.get(hashed_proof)
    }

    /// Hands over the events reported since the last call, oldest first.
    pub fn take_events(&mut self) -> (taken: Vec<Event>)
        ensures
            taken@ == old(self)@.events,
            final(self)@ == (State { events: Seq::<Event>::empty(), ..old(self)@ }),
    {
        let mut taken = Vec::new();
        core::mem::swap(&mut taken, &mut self.events);
        taken
    }

    /// Issues `amount` of `asset` to `who`.
    ///
    /// Fails with `Overflow` when the balance of `who` would exceed the
    /// largest balance.
    pub fn credit(&mut self, asset: AssetId, who: TechnicalId, amount: Balance) -> (res: Result<
        (),
        Error,
    >)
        ensures
            match old(self)@.credit(asset, who, amount) {
                Ok(after) => res is Ok && final(self)@ == after,
                Err(e) => res == Err::<(), Error>(e) && final(self)@ == old(self)@,
            },
    {
        match self.ledger.credit(asset, who, amount) {
            Err(e) => Err(e),
            Ok(()) => {
                self.events.push(Event::Issued(asset, who, amount));
                Ok(())
            },
        }
    }

    /// Destroys `amount` of `asset` held by `who`.
    ///
    /// Fails with `InsufficientBalance` when `who` holds less than `amount`.
    pub fn debit(&mut self, asset: AssetId, who: TechnicalId, amount: Balance) -> (res: Result<
        (),
        Error,
    >)
        ensures
            match old(self)@.debit(asset, who, amount) {
                Ok(after) => res is Ok && final(self)@ == after,
                Err(e) => res == Err::<(), Error>(e) && final(self)@ == old(self)@,
            },
    {
        match self.ledger.debit(asset, who, amount) {
            Err(e) => Err(e),
            Ok(()) => {
                self.events.push(Event::Destroyed(asset, who, amount));
                Ok(())
            },
        }
    }

    /// Moves `amount` of `asset` from `from` to `to`.
    ///
    /// Fails with `InsufficientBalance` when `from` holds less than `amount`
    /// and with `Overflow` when the balance of `to` would not fit.
    pub fn transfer(
        &mut self,
        asset: AssetId,
        from: TechnicalId,
        to: TechnicalId,
        amount: Balance,
    ) -> (res: Result<(), Error>)
        ensures
            match old(self)@.transfer(asset, from, to, amount) {
                Ok(after) => res is Ok && final(self)@ == after,
                Err(e) => res == Err::<(), Error>(e) && final(self)@ == old(self)@,
            },
    {
        match self.ledger.transfer(asset, from, to, amount) {
            Err(e) => Err(e),
            Ok(()) => {
                self.events.push(Event::Transferred(asset, from, to, amount));
                Ok(())
            },
        }
    }

    /// Opens a swap identified by `hashed_proof` on behalf of `source`, to be
    /// claimed before `deadline`. `now` is the current time.
    ///
    /// Fails with `DuplicateProof` when a swap is pending under the same
    /// commitment, with `InvalidDeadline` when `deadline` is not after `now`,
    /// and with the action's own error when it cannot reserve. A failed open
    /// changes nothing.
    pub fn open_swap(
        &mut self,
        hashed_proof: HashedProof,
        source: AccountId,
        action: A,
        deadline: BlockNumber,
        now: BlockNumber,
    ) -> (res: Result<(), Error>)
        ensures
            match old(self)@.open_swap(hashed_proof, source, action, deadline, now) {
                Ok(after) => res is Ok && final(self)@ == after,
                Err(e) => res == Err::<(), Error>(e) && final(self)@ == old(self)@,
            },
    {
        if self.swaps.contains(&hashed_proof) {
            return Err(Error::DuplicateProof);
        }
        if deadline <= now {
            return Err(Error::InvalidDeadline);
        }
        match action.reserve(&mut self.ledger, &source) {
            Err(e) => Err(e),
            Ok(()) => {
                let swap = PendingSwap { source, action, end_block: deadline };
                let _ = self.swaps.insert(hashed_proof, swap);
                self.events.push(Event::SwapCreated(source, hashed_proof, deadline));
                Ok(())
            },
        }
    }

    /// Claims the swap identified by `hashed_proof` for `target`. `now` is
    /// the current time.
    ///
    /// Fails with `UnknownSwap` when no such swap is pending and with
    /// `Expired` when its deadline has been reached; the swap then stays as
    /// it is. Otherwise the claim is attempted once and the swap ends: the
    /// result says whether the action let the claim through.
    pub fn claim_swap(&mut self, hashed_proof: HashedProof, target: TechnicalId, now: BlockNumber)
        -> (res: Result<bool, Error>)
        ensures
            match old(self)@.claim_swap(hashed_proof, target, now) {
                Ok((after, claimed)) => res == Ok::<bool, Error>(claimed) && final(self)@ == after,
                Err(e) => res == Err::<bool, Error>(e) && final(self)@ == old(self)@,
            },
    {
        let expired = match self.swaps.get(&hashed_proof) {
            None => {
                return Err(Error::UnknownSwap);
            },
            Some(swap) => swap.is_expired(now),
        };
        if expired {
            return Err(Error::Expired);
        }
        match self.swaps.remove(&hashed_proof) {
            None => Err(Error::UnknownSwap),
            Some(swap) => {
                let claimed = swap.action.claim(&mut self.ledger, &swap.source, &target);
                self.events.push(Event::SwapClaimed(target, hashed_proof, claimed));
                Ok(claimed)
            },
        }
    }

    /// Cancels the swap identified by `hashed_proof` and gives back what it
    /// had reserved.
    ///
    /// Fails with `UnknownSwap` when no such swap is pending, and never
    /// otherwise. This is the cancellation that the source of a swap may ask
    /// for at any time; that the request comes from the source is for the
    /// caller's side to establish. Anybody else goes through [`Self::sweep`].
    pub fn cancel_swap(&mut self, hashed_proof: HashedProof) -> (res: Result<(), Error>)
        ensures
            match old(self)@.cancel_swap(hashed_proof) {
                Ok(after) => res is Ok && final(self)@ == after,
                Err(e) => res == Err::<(), Error>(e) && final(self)@ == old(self)@,
            },
    {
        match self.swaps.remove(&hashed_proof) {
            None => Err(Error::UnknownSwap),
            Some(swap) => {
                swap.action.cancel(&mut self.ledger, &swap.source);
                self.events.push(Event::SwapCancelled(swap.source, hashed_proof));
                Ok(())
            },
        }
    }

    /// Sweeps the swap identified by `hashed_proof`: cancels it if its
    /// deadline has been reached. `now` is the current time. Anybody may
    /// sweep.
    ///
    /// Fails with `UnknownSwap` when no such swap is pending. Returns whether
    /// the swap was cancelled; one that has not expired stays as it is.
    pub fn sweep(&mut self, hashed_proof: HashedProof, now: BlockNumber) -> (res: Result<
        bool,
        Error,
    >)
        ensures
            match old(self)@.sweep(hashed_proof, now) {
                Ok((after, swept)) => res == Ok::<bool, Error>(swept) && final(self)@ == after,
                Err(e) => res == Err::<bool, Error>(e) && final(self)@ == old(self)@,
            },
    {
        let expired = match self.swaps.get(&hashed_proof) {
            None => {
                return Err(Error::UnknownSwap);
            },
            Some(swap) => swap.is_expired(now),
        };
        if !expired {
            return Ok(false);
        }
        match self.cancel_swap(hashed_proof) {
            Ok(()) => Ok(true),
            Err(e) => Err(e),
        }
    }
}

} // verus!
