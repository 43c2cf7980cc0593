use technical_accounts::{Balance, Error, Ledger};

const GOLD: u32 = 1;
const SILVER: u32 = 2;
const ALICE: u64 = 10;
const BOB: u64 = 11;
const CAROL: u64 = 12;

fn supply(ledger: &Ledger, asset: u32) -> Balance {
    ledger.balance_of(asset, ALICE) + ledger.balance_of(asset, BOB) + ledger.balance_of(asset, CAROL)
}

#[test]
fn new_ledger_holds_nothing() {
    let ledger = Ledger::new();
    assert_eq!(ledger.balance_of(GOLD, ALICE), 0);
    assert_eq!(ledger.balance_of(SILVER, BOB), 0);
    assert_eq!(ledger.balance_of(0, 0), 0);
    assert_eq!(ledger.balance_of(u32::MAX, u64::MAX), 0);
}

#[test]
fn credit_adds_to_the_balance() {
    let mut ledger = Ledger::new();
    assert_eq!(ledger.credit(GOLD, ALICE, 100), Ok(()));
    assert_eq!(ledger.balance_of(GOLD, ALICE), 100);
    assert_eq!(ledger.credit(GOLD, ALICE, 23), Ok(()));
    assert_eq!(ledger.balance_of(GOLD, ALICE), 123);
}

#[test]
fn credit_touches_one_asset_and_one_account() {
    let mut ledger = Ledger::new();
    assert_eq!(ledger.credit(GOLD, ALICE, 100), Ok(()));
    assert_eq!(ledger.balance_of(SILVER, ALICE), 0);
    assert_eq!(ledger.balance_of(GOLD, BOB), 0);
    assert_eq!(ledger.credit(SILVER, ALICE, 7), Ok(()));
    assert_eq!(ledger.balance_of(GOLD, ALICE), 100);
    assert_eq!(ledger.balance_of(SILVER, ALICE), 7);
}

#[test]
fn credit_of_nothing_changes_nothing() {
    let mut ledger = Ledger::new();
    assert_eq!(ledger.credit(GOLD, ALICE, 0), Ok(()));
    assert_eq!(ledger.balance_of(GOLD, ALICE), 0);
    assert_eq!(ledger.credit(GOLD, ALICE, 5), Ok(()));
    assert_eq!(ledger.credit(GOLD, ALICE, 0), Ok(()));
    assert_eq!(ledger.balance_of(GOLD, ALICE), 5);
}

#[test]
fn credit_up_to_the_maximum_succeeds() {
    let mut ledger = Ledger::new();
    assert_eq!(ledger.credit(GOLD, ALICE, 1), Ok(()));
    assert_eq!(ledger.credit(GOLD, ALICE, Balance::MAX - 1), Ok(()));
    assert_eq!(ledger.balance_of(GOLD, ALICE), Balance::MAX);
}

#[test]
fn credit_past_the_maximum_overflows_and_changes_nothing() {
    let mut ledger = Ledger::new();
    assert_eq!(ledger.credit(GOLD, ALICE, Balance::MAX - 5), Ok(()));
    assert_eq!(ledger.credit(GOLD, ALICE, 6), Err(Error::Overflow));
    assert_eq!(ledger.balance_of(GOLD, ALICE), Balance::MAX - 5);
    assert_eq!(ledger.credit(GOLD, ALICE, Balance::MAX), Err(Error::Overflow));
    assert_eq!(ledger.balance_of(GOLD, ALICE), Balance::MAX - 5);
    assert_eq!(ledger.credit(GOLD, ALICE, 5), Ok(()));
    assert_eq!(ledger.balance_of(GOLD, ALICE), Balance::MAX);
    assert_eq!(ledger.credit(GOLD, ALICE, 1), Err(Error::Overflow));
}

#[test]
fn debit_takes_from_the_balance() {
    let mut ledger = Ledger::new();
    assert_eq!(ledger.credit(GOLD, ALICE, 100), Ok(()));
    assert_eq!(ledger.debit(GOLD, ALICE, 30), Ok(()));
    assert_eq!(ledger.balance_of(GOLD, ALICE), 70);
    assert_eq!(ledger.debit(GOLD, ALICE, 70), Ok(()));
    assert_eq!(ledger.balance_of(GOLD, ALICE), 0);
}

#[test]
fn debit_beyond_the_balance_fails_and_changes_nothing() {
    let mut ledger = Ledger::new();
    assert_eq!(ledger.debit(GOLD, ALICE, 1), Err(Error::InsufficientBalance));
    assert_eq!(ledger.balance_of(GOLD, ALICE), 0);
    assert_eq!(ledger.credit(GOLD, ALICE, 100), Ok(()));
    assert_eq!(ledger.debit(GOLD, ALICE, 101), Err(Error::InsufficientBalance));
    assert_eq!(ledger.balance_of(GOLD, ALICE), 100);
    assert_eq!(ledger.debit(SILVER, ALICE, 1), Err(Error::InsufficientBalance));
    assert_eq!(ledger.debit(GOLD, BOB, 1), Err(Error::InsufficientBalance));
    assert_eq!(ledger.balance_of(GOLD, ALICE), 100);
}

#[test]
fn debit_of_nothing_always_succeeds() {
    let mut ledger = Ledger::new();
    assert_eq!(ledger.debit(GOLD, ALICE, 0), Ok(()));
    assert_eq!(ledger.balance_of(GOLD, ALICE), 0);
}

#[test]
fn transfer_moves_the_amount() {
    let mut ledger = Ledger::new();
    assert_eq!(ledger.credit(GOLD, ALICE, 100), Ok(()));
    assert_eq!(ledger.transfer(GOLD, ALICE, BOB, 40), Ok(()));
    assert_eq!(ledger.balance_of(GOLD, ALICE), 60);
    assert_eq!(ledger.balance_of(GOLD, BOB), 40);
    assert_eq!(ledger.transfer(GOLD, BOB, ALICE, 40), Ok(()));
    assert_eq!(ledger.balance_of(GOLD, ALICE), 100);
    assert_eq!(ledger.balance_of(GOLD, BOB), 0);
}

#[test]
fn transfer_beyond_the_balance_fails_and_changes_nothing() {
    let mut ledger = Ledger::new();
    assert_eq!(ledger.credit(GOLD, ALICE, 100), Ok(()));
    assert_eq!(ledger.credit(GOLD, BOB, 5), Ok(()));
    assert_eq!(ledger.transfer(GOLD, ALICE, BOB, 101), Err(Error::InsufficientBalance));
    assert_eq!(ledger.balance_of(GOLD, ALICE), 100);
    assert_eq!(ledger.balance_of(GOLD, BOB), 5);
    assert_eq!(ledger.transfer(SILVER, ALICE, BOB, 1), Err(Error::InsufficientBalance));
}

#[test]
fn transfer_that_overflows_rolls_the_debit_back() {
    let mut ledger = Ledger::new();
    assert_eq!(ledger.credit(GOLD, ALICE, 100), Ok(()));
    assert_eq!(ledger.credit(GOLD, BOB, Balance::MAX - 10), Ok(()));
    assert_eq!(ledger.transfer(GOLD, ALICE, BOB, 11), Err(Error::Overflow));
    assert_eq!(ledger.balance_of(GOLD, ALICE), 100);
    assert_eq!(ledger.balance_of(GOLD, BOB), Balance::MAX - 10);
    assert_eq!(ledger.transfer(GOLD, ALICE, BOB, 10), Ok(()));
    assert_eq!(ledger.balance_of(GOLD, ALICE), 90);
    assert_eq!(ledger.balance_of(GOLD, BOB), Balance::MAX);
}

#[test]
fn insufficient_balance_is_reported_before_overflow() {
    let mut ledger = Ledger::new();
    assert_eq!(ledger.credit(GOLD, ALICE, 5), Ok(()));
    assert_eq!(ledger.credit(GOLD, BOB, Balance::MAX), Ok(()));
    assert_eq!(ledger.transfer(GOLD, ALICE, BOB, 6), Err(Error::InsufficientBalance));
    assert_eq!(ledger.transfer(GOLD, ALICE, BOB, 5), Err(Error::Overflow));
}

#[test]
fn transfer_to_oneself_keeps_the_balance() {
    let mut ledger = Ledger::new();
    assert_eq!(ledger.credit(GOLD, ALICE, Balance::MAX), Ok(()));
    assert_eq!(ledger.transfer(GOLD, ALICE, ALICE, Balance::MAX), Ok(()));
    assert_eq!(ledger.balance_of(GOLD, ALICE), Balance::MAX);
    assert_eq!(ledger.transfer(GOLD, ALICE, ALICE, 1), Ok(()));
    assert_eq!(ledger.balance_of(GOLD, ALICE), Balance::MAX);
    assert_eq!(ledger.transfer(GOLD, BOB, BOB, 1), Err(Error::InsufficientBalance));
}

#[test]
fn transfer_of_nothing_succeeds() {
    let mut ledger = Ledger::new();
    assert_eq!(ledger.transfer(GOLD, ALICE, BOB, 0), Ok(()));
    assert_eq!(ledger.balance_of(GOLD, ALICE), 0);
    assert_eq!(ledger.balance_of(GOLD, BOB), 0);
}

#[test]
fn supply_moves_only_by_credits_and_debits() {
    let mut ledger = Ledger::new();
    assert_eq!(supply(&ledger, GOLD), 0);
    assert_eq!(ledger.credit(GOLD, ALICE, 100), Ok(()));
    assert_eq!(ledger.credit(GOLD, BOB, 50), Ok(()));
    assert_eq!(ledger.credit(SILVER, CAROL, 9), Ok(()));
    assert_eq!(supply(&ledger, GOLD), 150);
    assert_eq!(supply(&ledger, SILVER), 9);
    assert_eq!(ledger.transfer(GOLD, ALICE, CAROL, 70), Ok(()));
    assert_eq!(ledger.transfer(GOLD, BOB, ALICE, 50), Ok(()));
    assert_eq!(ledger.transfer(GOLD, CAROL, BOB, 1), Ok(()));
    assert_eq!(supply(&ledger, GOLD), 150);
    assert_eq!(ledger.transfer(GOLD, BOB, CAROL, 2), Err(Error::InsufficientBalance));
    assert_eq!(supply(&ledger, GOLD), 150);
    assert_eq!(ledger.debit(GOLD, CAROL, 69), Ok(()));
    assert_eq!(supply(&ledger, GOLD), 81);
    assert_eq!(ledger.debit(GOLD, CAROL, 1), Err(Error::InsufficientBalance));
    assert_eq!(supply(&ledger, GOLD), 81);
    assert_eq!(supply(&ledger, SILVER), 9);
    assert_eq!(ledger.balance_of(GOLD, ALICE), 80);
    assert_eq!(ledger.balance_of(GOLD, BOB), 1);
    assert_eq!(ledger.balance_of(GOLD, CAROL), 0);
}
