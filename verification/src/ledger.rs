//! The asset ledger: exact bookkeeping of the balance that each technical
//! account holds of each asset. It is the only place where balances change.

use crate::balances::{
    balance_in, credited, debited, lemma_supply_with_balance, lemma_transfer_keeps_supply,
    total_supply, transferred, well_formed, with_balance, Balances,
};
use crate::error::Error;
use crate::primitives::{AssetId, Balance, TechnicalId};
use std::collections::BTreeMap;
use vstd::prelude::*;

verus! {

broadcast use vstd::laws_cmp::group_laws_cmp;

/// Balances of technical accounts, keyed by asset and account.
pub struct Ledger {
    entries: BTreeMap<(AssetId, TechnicalId), Balance>,
}

impl View for Ledger {
    type V = Balances;

    /// The positive balances that the ledger holds.
    closed spec fn view(&self) -> Balances {
        Map::new(
            |k: (AssetId, TechnicalId)| self.entries@.contains_key(k) && self.entries@[k] > 0,
            |k: (AssetId, TechnicalId)| self.entries@[k],
        )
    }
}

impl Ledger {
    /// Every ledger's contents are well formed.
    pub proof fn lemma_well_formed(&self)
        ensures
            well_formed(self@),
    {
        let stored = self.entries@.dom();
        assert(self@.dom().subset_of(stored));
        vstd::set_lib::lemma_len_subset(self@.dom(), stored);
    }

    /// A ledger in which nobody holds anything.
    pub fn new() -> (ledger: Ledger)
        ensures
            ledger@ == Map::<(AssetId, TechnicalId), Balance>::empty(),
    {
        let ledger = Ledger { entries: BTreeMap::new() };
        assert(ledger@ =~= Map::<(AssetId, TechnicalId), Balance>::empty());
        ledger
    }

    /// The balance of `asset` held by `who`, zero if there is none.
    pub fn balance_of(&self, asset: AssetId, who: TechnicalId) -> (balance: Balance)
        ensures
            balance == balance_in(self@, asset, who),
    {
        match self.entries.get(&(asset, who)) {
            Some(stored) => *stored,
            None => 0,
        }
    }

    fn set_balance(&mut self, asset: AssetId, who: TechnicalId, value: Balance)
        ensures
            final(self)@ == with_balance(old(self)@, asset, who, value),
    {
        if value == 0 {
            self.entries.remove(&(asset, who));
        } else {
            self.entries.insert((asset, who), value);
        }
        assert(self@ =~= with_balance(old(self)@, asset, who, value));
    }

    /// Adds `amount` to the balance of `asset` held by `who`.
    ///
    /// Fails with `Overflow`, changing nothing, when the new balance would
    /// not fit. Otherwise the supply of `asset` grows by exactly `amount`.
    pub fn credit(&mut self, asset: AssetId, who: TechnicalId, amount: Balance) -> (res: Result<
        (),
        Error,
    >)
        ensures
            match credited(old(self)@, asset, who, amount) {
                Ok(m) => res is Ok && final(self)@ == m,
                Err(e) => res == Err::<(), Error>(e) && final(self)@ == old(self)@,
            },
            res is Ok <==> balance_in(old(self)@, asset, who) + amount <= Balance::MAX,
            res is Ok ==> balance_in(final(self)@, asset, who) == balance_in(
                old(self)@,
                asset,
                who,
            ) + amount,
            res is Ok ==> total_supply(final(self)@, asset) == total_supply(old(self)@, asset)
                + amount,
            forall|other: AssetId|
                other != asset ==> total_supply(final(self)@, other) == total_supply(
                    old(self)@,
                    other,
                ),
    {
        let held = self.balance_of(asset, who);
        match held.checked_add(amount) {
            None => Err(Error::Overflow),
            Some(raised) => {
                proof {
                    self.lemma_well_formed();
                    lemma_supply_with_balance(self@, asset, who, raised, asset);
                    assert forall|other: AssetId| other != asset implies total_supply(
                        with_balance(self@, asset, who, raised),
                        other,
                    ) == total_supply(self@, other) by {
                        lemma_supply_with_balance(self@, asset, who, raised, other);
                    }
                }
                self.set_balance(asset, who, raised);
                Ok(())
            },
        }
    }

    /// Takes `amount` from the balance of `asset` held by `who`.
    ///
    /// Fails with `InsufficientBalance`, changing nothing, when `who` holds
    /// less than `amount`. Otherwise the supply of `asset` shrinks by exactly
    /// `amount`.
    pub fn debit(&mut self, asset: AssetId, who: TechnicalId, amount: Balance) -> (res: Result<
        (),
        Error,
    >)
        ensures
            match debited(old(self)@, asset, who, amount) {
                Ok(m) => res is Ok && final(self)@ == m,
                Err(e) => res == Err::<(), Error>(e) && final(self)@ == old(self)@,
            },
            res is Ok <==> amount <= balance_in(old(self)@, asset, who),
            res is Ok ==> balance_in(final(self)@, asset, who) == balance_in(
                old(self)@,
                asset,
                who,
            ) - amount,
            res is Ok ==> total_supply(final(self)@, asset) == total_supply(old(self)@, asset)
                - amount,
            forall|other: AssetId|
                other != asset ==> total_supply(final(self)@, other) == total_supply(
                    old(self)@,
                    other,
                ),
    {
        let held = self.balance_of(asset, who);
        if amount > held {
            return Err(Error::InsufficientBalance);
        }
        let lowered: Balance = held - amount;
        proof {
            self.lemma_well_formed();
            lemma_supply_with_balance(self@, asset, who, lowered, asset);
            assert forall|other: AssetId| other != asset implies total_supply(
                with_balance(self@, asset, who, lowered),
                other,
            ) == total_supply(self@, other) by {
                lemma_supply_with_balance(self@, asset, who, lowered, other);
            }
        }
        self.set_balance(asset, who, lowered);
        Ok(())
    }

    /// Moves `amount` of `asset` from `from` to `to` as a single step.
    ///
    /// Fails with `InsufficientBalance` when `from` holds less than `amount`,
    /// and with `Overflow` when the balance of `to` would not fit; either way
    /// nothing changes. A transfer never changes the supply of any asset.
    pub fn transfer(
        &mut self,
        asset: AssetId,
        from: TechnicalId,
        to: TechnicalId,
        amount: Balance,
    ) -> (res: Result<(), Error>)
        ensures
            match transferred(old(self)@, asset, from, to, amount) {
                Ok(m) => res is Ok && final(self)@ == m,
                Err(e) => res == Err::<(), Error>(e) && final(self)@ == old(self)@,
            },
            res == Err::<(), Error>(Error::InsufficientBalance) <==> amount > balance_in(
                old(self)@,
                asset,
                from,
            ),
            res == Err::<(), Error>(Error::Overflow) <==> amount <= balance_in(
                old(self)@,
                asset,
                from,
            ) && from != to && balance_in(old(self)@, asset, to) + amount > Balance::MAX,
            forall|any: AssetId|
                total_supply(final(self)@, any) == total_supply(old(self)@, any),
    {
        let held = self.balance_of(asset, from);
        if amount > held {
            return Err(Error::InsufficientBalance);
        }
        let lowered: Balance = held - amount;
        let receiving: Balance = if to == from {
            lowered
        } else {
            self.balance_of(asset, to)
        };
        match receiving.checked_add(amount) {
            None => Err(Error::Overflow),
            Some(raised) => {
                proof {
                    self.lemma_well_formed();
                    lemma_transfer_keeps_supply(self@, asset, from, to, amount);
                }
                self.set_balance(asset, from, lowered);
                self.set_balance(asset, to, raised);
                Ok(())
            },
        }
    }
}

} // verus!
