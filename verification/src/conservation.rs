//! Conservation of value over whole histories of ledger commands: the supply
//! of an asset moves only by what is explicitly credited and debited.

use crate::balances::{
    balance_in, credited, debited, lemma_supply_with_balance, lemma_transfer_keeps_supply,
    total_supply, transferred, Balances,
};
use crate::error::Error;
use crate::primitives::{AssetId, Balance, TechnicalId};
use vstd::prelude::*;

verus! {

/// One command to the ledger.
pub enum LedgerOp {
    /// Add `amount` of `asset` to the balance of `who`.
    Credit { asset: AssetId, who: TechnicalId, amount: Balance },
    /// Take `amount` of `asset` from the balance of `who`.
    Debit { asset: AssetId, who: TechnicalId, amount: Balance },
    /// Move `amount` of `asset` from `from` to `to`.
    Transfer { asset: AssetId, from: TechnicalId, to: TechnicalId, amount: Balance },
}

impl LedgerOp {
    /// What the command does to `m`, or the error that rejects it.
    pub open spec fn attempt(self, m: Balances) -> Result<Balances, Error> {
        match self {
            LedgerOp::Credit { asset, who, amount } => credited(m, asset, who, amount),
            LedgerOp::Debit { asset, who, amount } => debited(m, asset, who, amount),
            LedgerOp::Transfer { asset, from, to, amount } => transferred(
                m,
                asset,
                from,
                to,
                amount,
            ),
        }
    }

    /// The ledger after the command: a rejected command leaves it as it was.
    pub open spec fn apply(self, m: Balances) -> Balances {
        match self.attempt(m) {
            Ok(after) => after,
            Err(_) => m,
        }
    }

    /// How much of `asset` the command issues when run on `m`: the amount of
    /// a credit that succeeds, minus the amount of a debit that succeeds.
    /// Transfers, rejected commands and commands on other assets issue
    /// nothing.
    pub open spec fn issued(self, m: Balances, asset: AssetId) -> int {
        match self {
            LedgerOp::Credit { asset: a, who, amount } => if a == asset && self.attempt(m) is Ok {
                amount as int
            } else {
                0
            },
            LedgerOp::Debit { asset: a, who, amount } => if a == asset && self.attempt(m) is Ok {
                -(amount as int)
            } else {
                0
            },
            LedgerOp::Transfer { .. } => 0,
        }
    }

    /// One command changes the supply of an asset by what it issues.
    pub proof fn lemma_supply_step(self, m: Balances, asset: AssetId)
        requires
            m.dom().finite(),
        ensures
            self.apply(m).dom().finite(),
            total_supply(self.apply(m), asset) == total_supply(m, asset) + self.issued(m, asset),
    {
        match self {
            LedgerOp::Credit { asset: a, who, amount } => {
                if self.attempt(m) is Ok {
                    let raised = (balance_in(m, a, who) + amount) as Balance;
                    lemma_supply_with_balance(m, a, who, raised, asset);
                }
            },
            LedgerOp::Debit { asset: a, who, amount } => {
                if self.attempt(m) is Ok {
                    let lowered = (balance_in(m, a, who) - amount) as Balance;
                    lemma_supply_with_balance(m, a, who, lowered, asset);
                }
            },
            LedgerOp::Transfer { asset: a, from, to, amount } => {
                lemma_transfer_keeps_supply(m, a, from, to, amount);
            },
        }
    }
}

/// The ledger after running `ops` in order, starting from `m`.
pub open spec fn replay(m: Balances, ops: Seq<LedgerOp>) -> Balances
    decreases ops.len(),
{
    if ops.len() == 0 {
        m
    } else {
        replay(ops.first().apply(m), ops.drop_first())
    }
}

/// How much of `asset` the commands `ops` issue in all when run in order,
/// starting from `m`.
pub open spec fn net_issued(m: Balances, ops: Seq<LedgerOp>, asset: AssetId) -> int
    decreases ops.len(),
{
    if ops.len() == 0 {
        0
    } else {
        ops.first().issued(m, asset) + net_issued(ops.first().apply(m), ops.drop_first(), asset)
    }
}

/// Conservation: over any sequence of ledger commands, the supply of an asset
/// changes by exactly the net of the credits and debits of that asset that
/// took effect. Transfers never change it.
pub proof fn lemma_conservation(m: Balances, ops: Seq<LedgerOp>, asset: AssetId)
    requires
        m.dom().finite(),
    ensures
        replay(m, ops).dom().finite(),
        total_supply(replay(m, ops), asset) == total_supply(m, asset) + net_issued(m, ops, asset),
    decreases ops.len(),
{
    if ops.len() > 0 {
        ops.first().lemma_supply_step(m, asset);
        lemma_conservation(ops.first().apply(m), ops.drop_first(), asset);
    }
}

/// A history made of transfers alone leaves every supply as it was.
pub proof fn lemma_transfers_conserve(m: Balances, ops: Seq<LedgerOp>, asset: AssetId)
    requires
        m.dom().finite(),
        forall|i: int| 0 <= i < ops.len() ==> ops[i] is Transfer,
    ensures
        total_supply(replay(m, ops), asset) == total_supply(m, asset),
    decreases ops.len(),
{
    if ops.len() > 0 {
        ops.first().lemma_supply_step(m, asset);
        let rest = ops.drop_first();
        assert forall|i: int| 0 <= i < rest.len() implies rest[i] is Transfer by {
            assert(rest[i] == ops[i + 1]);
        }
        lemma_transfers_conserve(ops.first().apply(m), rest, asset);
    }
}

} // verus!
