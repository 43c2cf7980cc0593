//! The mathematical model of the ledger: a finite map from (asset, technical
//! account) to the positive balance held there, together with the transitions
//! that credit, debit and transfer, and the total supply of an asset.

use crate::error::Error;
use crate::primitives::{AssetId, Balance, TechnicalId};
use vstd::prelude::*;

verus! {

/// What a ledger holds: the balance of every (asset, account) pair that has
/// one. A pair without an entry holds nothing.
pub type Balances = Map<(AssetId, TechnicalId), Balance>;

/// A ledger's contents are well formed when they have finitely many entries
/// and no entry is zero, so that equal holdings are equal maps.
pub open spec fn well_formed(m: Balances) -> bool {
    &&& m.dom().finite()
    &&& forall|k: (AssetId, TechnicalId)| m.contains_key(k) ==> #[trigger] m[k] > 0
}

/// The balance of `asset` held by `who`: the stored entry, or zero.
pub open spec fn balance_in(m: Balances, asset: AssetId, who: TechnicalId) -> Balance {
    if m.contains_key((asset, who)) {
        m[(asset, who)]
    } else {
        0
    }
}

/// `m` with the balance of `asset` held by `who` set to `value`. A zero
/// balance is the absence of an entry.
pub open spec fn with_balance(
    m: Balances,
    asset: AssetId,
    who: TechnicalId,
    value: Balance,
) -> Balances {
    if value == 0 {
        m.remove((asset, who))
    } else {
        m.insert((asset, who), value)
    }
}

/// Crediting `amount` of `asset` to `who`: the balance grows by `amount`,
/// unless it would exceed the largest balance.
pub open spec fn credited(
    m: Balances,
    asset: AssetId,
    who: TechnicalId,
    amount: Balance,
) -> Result<Balances, Error> {
    if balance_in(m, asset, who) + amount > Balance::MAX {
        Err(Error::Overflow)
    } else {
        Ok(with_balance(m, asset, who, (balance_in(m, asset, who) + amount) as Balance))
    }
}

/// Debiting `amount` of `asset` from `who`: the balance shrinks by `amount`,
/// unless `who` holds less than that.
pub open spec fn debited(
    m: Balances,
    asset: AssetId,
    who: TechnicalId,
    amount: Balance,
) -> Result<Balances, Error> {
    if amount > balance_in(m, asset, who) {
        Err(Error::InsufficientBalance)
    } else {
        Ok(with_balance(m, asset, who, (balance_in(m, asset, who) - amount) as Balance))
    }
}

/// Moving `amount` of `asset` from `from` to `to`: a debit followed by a
/// credit, which takes effect only if both succeed.
pub open spec fn transferred(
    m: Balances,
    asset: AssetId,
    from: TechnicalId,
    to: TechnicalId,
    amount: Balance,
) -> Result<Balances, Error> {
    match debited(m, asset, from, amount) {
        Err(e) => Err(e),
        Ok(debited_from) => credited(debited_from, asset, to, amount),
    }
}

/// No negative balance: a debit or a transfer that asks for more than is
/// held is rejected with `InsufficientBalance`, and one that goes through
/// leaves exactly the difference, which is not below zero.
pub proof fn lemma_no_overdraft(
    m: Balances,
    asset: AssetId,
    who: TechnicalId,
    to: TechnicalId,
    amount: Balance,
)
    ensures
        0 <= balance_in(m, asset, who),
        amount > balance_in(m, asset, who) ==> {
            &&& debited(m, asset, who, amount) == Err::<Balances, Error>(
                Error::InsufficientBalance,
            )
            &&& transferred(m, asset, who, to, amount) == Err::<Balances, Error>(
                Error::InsufficientBalance,
            )
        },
        debited(m, asset, who, amount) matches Ok(after) ==> {
            &&& amount <= balance_in(m, asset, who)
            &&& balance_in(after, asset, who) == balance_in(m, asset, who) - amount
        },
        transferred(m, asset, who, to, amount) matches Ok(after) ==> {
            &&& amount <= balance_in(m, asset, who)
            &&& who != to ==> balance_in(after, asset, who) == balance_in(m, asset, who) - amount
        },
{
}

/// Overflow guard: a credit that would take a balance past the largest value
/// is rejected with `Overflow`, and so is a transfer to another account whose
/// balance has no room for the amount. A credit that goes through leaves
/// exactly the sum.
pub proof fn lemma_overflow_guard(
    m: Balances,
    asset: AssetId,
    who: TechnicalId,
    from: TechnicalId,
    amount: Balance,
)
    ensures
        balance_in(m, asset, who) + amount > Balance::MAX ==> credited(m, asset, who, amount)
            == Err::<Balances, Error>(Error::Overflow),
        balance_in(m, asset, who) + amount > Balance::MAX && from != who && amount <= balance_in(
            m,
            asset,
            from,
        ) ==> transferred(m, asset, from, who, amount) == Err::<Balances, Error>(Error::Overflow),
        credited(m, asset, who, amount) matches Ok(after) ==> {
            &&& balance_in(m, asset, who) + amount <= Balance::MAX
            &&& balance_in(after, asset, who) == balance_in(m, asset, who) + amount
        },
{
}

/// The entries of `m` that hold `asset`.
pub open spec fn holders(m: Balances, asset: AssetId) -> Set<(AssetId, TechnicalId)> {
    m.dom().filter(|k: (AssetId, TechnicalId)| k.0 == asset)
}

/// The sum of the balances that `m` stores under `keys`.
pub open spec fn sum_over(m: Balances, keys: Set<(AssetId, TechnicalId)>) -> nat
    decreases keys.len(),
    when keys.finite()
{
    if keys.is_empty() {
        0
    } else {
        let k = keys.choose();
        m[k] as nat + sum_over(m, keys.remove(k))
    }
}

/// The total of `asset` held across all technical accounts.
pub open spec fn total_supply(m: Balances, asset: AssetId) -> nat {
    sum_over(m, holders(m, asset))
}

/// A sum over a set can be taken by splitting off any one of its members.
pub proof fn lemma_sum_over_split(
    m: Balances,
    keys: Set<(AssetId, TechnicalId)>,
    k: (AssetId, TechnicalId),
)
    requires
        keys.finite(),
        keys.contains(k),
    ensures
        sum_over(m, keys) == m[k] as nat + sum_over(m, keys.remove(k)),
    decreases keys.len(),
{
    let c = keys.choose();
    if c != k {
        lemma_sum_over_split(m, keys.remove(c), k);
        lemma_sum_over_split(m, keys.remove(k), c);
        assert(keys.remove(c).remove(k) =~= keys.remove(k).remove(c));
    }
}

/// Two maps that agree on a set of keys have the same sum over it.
pub proof fn lemma_sum_over_agree(m1: Balances, m2: Balances, keys: Set<(AssetId, TechnicalId)>)
    requires
        keys.finite(),
        forall|k: (AssetId, TechnicalId)| keys.contains(k) ==> m1[k] == m2[k],
    ensures
        sum_over(m1, keys) == sum_over(m2, keys),
    decreases keys.len(),
{
    if !keys.is_empty() {
        lemma_sum_over_agree(m1, m2, keys.remove(keys.choose()));
    }
}

/// Setting one balance changes the supply of that asset by the difference
/// between the new balance and the old one, and no other asset's supply.
pub proof fn lemma_supply_with_balance(
    m: Balances,
    asset: AssetId,
    who: TechnicalId,
    value: Balance,
    of: AssetId,
)
    requires
        m.dom().finite(),
    ensures
        with_balance(m, asset, who, value).dom().finite(),
        of == asset ==> total_supply(with_balance(m, asset, who, value), of) == total_supply(m, of)
            - balance_in(m, asset, who) + value,
        of != asset ==> total_supply(with_balance(m, asset, who, value), of) == total_supply(
            m,
            of,
        ),
{
    let k = (asset, who);
    let after = with_balance(m, asset, who, value);
    let before_keys = holders(m, of);
    let after_keys = holders(after, of);
    m.dom().lemma_len_filter(|k: (AssetId, TechnicalId)| k.0 == of);
    if of != asset {
        assert(after_keys =~= before_keys);
        lemma_sum_over_agree(m, after, before_keys);
    } else {
        let rest = before_keys.remove(k);
        lemma_sum_over_agree(m, after, rest);
        if m.contains_key(k) {
            lemma_sum_over_split(m, before_keys, k);
        } else {
            assert(rest =~= before_keys);
        }
        if value == 0 {
            assert(after_keys =~= rest);
        } else {
            assert(after_keys =~= before_keys.insert(k));
            assert(after_keys.remove(k) =~= rest);
            lemma_sum_over_split(after, after_keys, k);
        }
    }
}

/// A transfer that succeeds leaves the supply of every asset as it was.
pub proof fn lemma_transfer_keeps_supply(
    m: Balances,
    asset: AssetId,
    from: TechnicalId,
    to: TechnicalId,
    amount: Balance,
)
    requires
        m.dom().finite(),
    ensures
        transferred(m, asset, from, to, amount) matches Ok(after) ==> after.dom().finite()
            && forall|any: AssetId| total_supply(after, any) == total_supply(m, any),
{
    if let Ok(after) = transferred(m, asset, from, to, amount) {
        let lowered = (balance_in(m, asset, from) - amount) as Balance;
        let mid = with_balance(m, asset, from, lowered);
        let raised = (balance_in(mid, asset, to) + amount) as Balance;
        assert forall|any: AssetId| total_supply(after, any) == total_supply(m, any) by {
            lemma_supply_with_balance(m, asset, from, lowered, any);
            lemma_supply_with_balance(mid, asset, to, raised, any);
        }
        lemma_supply_with_balance(m, asset, from, lowered, asset);
        lemma_supply_with_balance(mid, asset, to, raised, asset);
    }
}

} // verus!
