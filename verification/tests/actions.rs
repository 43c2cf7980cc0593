use technical_accounts::{
    AccountId, AssetId, Balance, Error, Event, HashedProof, Ledger, Module, SwapAction,
    TechnicalId, Weight,
};

const GOLD: AssetId = 1;
const VAULT: TechnicalId = 500;
const WINNER: TechnicalId = 600;
const SOURCE: AccountId = 7;

/// Locks an amount by destroying it, and pays it out anew on a claim or a
/// cancellation. A claim goes through only for the account it names.
struct Voucher {
    holder: TechnicalId,
    payee: TechnicalId,
    amount: Balance,
}

impl SwapAction for Voucher {
    fn reserve(&self, ledger: &mut Ledger, _source: &AccountId) -> Result<(), Error> {
        ledger.debit(GOLD, self.holder, self.amount)
    }

    fn claim(&self, ledger: &mut Ledger, _source: &AccountId, target: &TechnicalId) -> bool {
        *target == self.payee && ledger.credit(GOLD, *target, self.amount).is_ok()
    }

    fn weight(&self) -> Weight {
        3
    }

    fn cancel(&self, ledger: &mut Ledger, _source: &AccountId) {
        let _ = ledger.credit(GOLD, self.holder, self.amount);
    }
}

fn proof_of(tag: u8) -> HashedProof {
    [tag; 32]
}

fn voucher(amount: Balance) -> Voucher {
    Voucher { holder: VAULT, payee: WINNER, amount }
}

fn funded(amount: Balance) -> Module<Voucher> {
    let mut module = Module::new();
    assert_eq!(module.credit(GOLD, VAULT, amount), Ok(()));
    let _ = module.take_events();
    module
}

#[test]
fn the_module_runs_any_action() {
    let mut module = funded(10);
    assert_eq!(module.open_swap(proof_of(1), SOURCE, voucher(4), 10, 1), Ok(()));
    assert_eq!(module.balance(GOLD, VAULT), 6);
    assert_eq!(module.balance(GOLD, WINNER), 0);
    assert_eq!(module.pending_swap(&proof_of(1)).unwrap().action.weight(), 3);
    assert_eq!(module.claim_swap(proof_of(1), WINNER, 2), Ok(true));
    assert_eq!(module.balance(GOLD, WINNER), 4);
    assert_eq!(module.balance(GOLD, VAULT), 6);
    assert!(module.pending_swap(&proof_of(1)).is_none());
}

#[test]
fn an_action_that_cannot_reserve_opens_no_swap() {
    let mut module = funded(10);
    assert_eq!(
        module.open_swap(proof_of(1), SOURCE, voucher(11), 10, 1),
        Err(Error::InsufficientBalance)
    );
    assert!(module.pending_swap(&proof_of(1)).is_none());
    assert_eq!(module.balance(GOLD, VAULT), 10);
    assert!(module.take_events().is_empty());
}

#[test]
fn an_action_that_refuses_the_claim_leaves_the_ledger_alone() {
    let mut module = funded(10);
    assert_eq!(module.open_swap(proof_of(1), SOURCE, voucher(4), 10, 1), Ok(()));
    let _ = module.take_events();
    assert_eq!(module.claim_swap(proof_of(1), VAULT, 2), Ok(false));
    assert_eq!(module.balance(GOLD, VAULT), 6);
    assert_eq!(module.balance(GOLD, WINNER), 0);
    assert!(module.pending_swap(&proof_of(1)).is_none());
    assert_eq!(module.take_events(), vec![Event::SwapClaimed(VAULT, proof_of(1), false)]);
    assert_eq!(module.claim_swap(proof_of(1), WINNER, 2), Err(Error::UnknownSwap));
}

#[test]
fn cancelling_any_action_gives_back_what_it_reserved() {
    let mut module = funded(10);
    assert_eq!(module.open_swap(proof_of(1), SOURCE, voucher(10), 10, 1), Ok(()));
    assert_eq!(module.balance(GOLD, VAULT), 0);
    assert_eq!(module.cancel_swap(proof_of(1)), Ok(()));
    assert_eq!(module.balance(GOLD, VAULT), 10);
    assert_eq!(module.open_swap(proof_of(2), SOURCE, voucher(10), 10, 1), Ok(()));
    assert_eq!(module.sweep(proof_of(2), 9), Ok(false));
    assert_eq!(module.balance(GOLD, VAULT), 0);
    assert_eq!(module.sweep(proof_of(2), 10), Ok(true));
    assert_eq!(module.balance(GOLD, VAULT), 10);
}
