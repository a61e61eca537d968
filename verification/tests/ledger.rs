use polymesh_token::account::AccountId;
use polymesh_token::ledger::{Error, PolymeshTokenContract, Transfer};

fn acct(n: u128) -> AccountId {
    AccountId { hi: 0, lo: n }
}

#[test]
fn initialize_credits_deployer() {
    let a = acct(1);
    let ledger = PolymeshTokenContract::new(a, 1000);
    assert_eq!(ledger.balance_of(a), 1000);
    assert_eq!(ledger.total_supply, 1000);
}

#[test]
fn initialize_with_zero_supply() {
    let a = acct(1);
    let ledger = PolymeshTokenContract::new(a, 0);
    assert_eq!(ledger.balance_of(a), 0);
    assert_eq!(ledger.total_supply, 0);
}

#[test]
fn transfer_moves_value_and_reports_event() {
    let a = acct(1);
    let b = acct(2);
    let mut ledger = PolymeshTokenContract::new(a, 1000);
    let event = ledger.transfer(a, b, 300).unwrap();
    assert_eq!(ledger.balance_of(a), 700);
    assert_eq!(ledger.balance_of(b), 300);
    assert_eq!(event.from, Some(a));
    assert_eq!(event.to, Some(b));
    assert_eq!(event.value, 300);
}

#[test]
fn transfer_beyond_balance_fails_and_changes_nothing() {
    let a = acct(1);
    let b = acct(2);
    let mut ledger = PolymeshTokenContract::new(a, 1000);
    ledger.transfer(a, b, 300).unwrap();
    let r = ledger.transfer(a, b, 1000);
    assert_eq!(r, Err(Error::InsufficientBalance));
    assert_eq!(ledger.balance_of(a), 700);
    assert_eq!(ledger.balance_of(b), 300);
    assert_eq!(ledger.total_supply, 1000);
}

#[test]
fn transfer_of_zero_succeeds_and_reports_event() {
    let a = acct(1);
    let b = acct(2);
    let mut ledger = PolymeshTokenContract::new(a, 50);
    let event = ledger.transfer(a, b, 0).unwrap();
    assert_eq!(event, Transfer { from: Some(a), to: Some(b), value: 0 });
    assert_eq!(ledger.balance_of(a), 50);
    assert_eq!(ledger.balance_of(b), 0);
}

#[test]
fn transfer_to_self_changes_nothing() {
    let a = acct(1);
    let mut ledger = PolymeshTokenContract::new(a, 50);
    let event = ledger.transfer(a, a, 20).unwrap();
    assert_eq!(event, Transfer { from: Some(a), to: Some(a), value: 20 });
    assert_eq!(ledger.balance_of(a), 50);
    assert_eq!(ledger.total_supply, 50);
}

#[test]
fn transfer_of_whole_balance_empties_the_account() {
    let a = acct(1);
    let b = acct(2);
    let mut ledger = PolymeshTokenContract::new(a, 75);
    ledger.transfer(a, b, 75).unwrap();
    assert_eq!(ledger.balance_of(a), 0);
    assert_eq!(ledger.balance_of(b), 75);
}

#[test]
fn transfers_conserve_supply_and_balance_sum() {
    let a = acct(1);
    let b = acct(2);
    let c = acct(3);
    let mut ledger = PolymeshTokenContract::new(a, 1000);
    ledger.transfer(a, b, 400).unwrap();
    ledger.transfer(b, c, 150).unwrap();
    ledger.transfer(c, a, 150).unwrap();
    ledger.transfer(a, b, 0).unwrap();
    assert_eq!(ledger.total_supply, 1000);
    let sum = ledger.balance_of(a) + ledger.balance_of(b) + ledger.balance_of(c);
    assert_eq!(sum, 1000);
}

#[test]
fn mint_by_administrator_raises_supply_and_balance() {
    let a = acct(1);
    let b = acct(2);
    let mut ledger = PolymeshTokenContract::new(a, 1000);
    let event = ledger.mint(a, b, 250).unwrap();
    assert_eq!(event, Transfer { from: None, to: Some(b), value: 250 });
    assert_eq!(ledger.balance_of(b), 250);
    assert_eq!(ledger.total_supply, 1250);
}

#[test]
fn mint_past_max_supply_fails_and_changes_nothing() {
    let a = acct(1);
    let b = acct(2);
    let mut ledger = PolymeshTokenContract::new(a, 1000);
    let r = ledger.mint(a, b, u128::MAX - 1000 + 1);
    assert_eq!(r, Err(Error::SupplyOverflow));
    assert_eq!(ledger.balance_of(a), 1000);
    assert_eq!(ledger.balance_of(b), 0);
    assert_eq!(ledger.total_supply, 1000);
}

#[test]
fn mint_up_to_max_supply_succeeds() {
    let a = acct(1);
    let b = acct(2);
    let mut ledger = PolymeshTokenContract::new(a, 1000);
    ledger.mint(a, b, u128::MAX - 1000).unwrap();
    assert_eq!(ledger.total_supply, u128::MAX);
    assert_eq!(ledger.balance_of(b), u128::MAX - 1000);
}

#[test]
fn mint_by_non_administrator_fails_and_changes_nothing() {
    let a = acct(1);
    let c = acct(3);
    let mut ledger = PolymeshTokenContract::new(a, 1000);
    let r = ledger.mint(c, c, 1);
    assert_eq!(r, Err(Error::Unauthorized));
    assert_eq!(ledger.balance_of(a), 1000);
    assert_eq!(ledger.balance_of(c), 0);
    assert_eq!(ledger.total_supply, 1000);
}

#[test]
fn mint_of_zero_by_non_administrator_still_fails() {
    let a = acct(1);
    let c = acct(3);
    let mut ledger = PolymeshTokenContract::new(a, 1000);
    let r = ledger.mint(c, c, 0);
    assert_eq!(r, Err(Error::Unauthorized));
    assert_eq!(ledger.total_supply, 1000);
}

#[test]
fn burn_lowers_supply_and_balance_and_reports_event() {
    let a = acct(1);
    let b = acct(2);
    let mut ledger = PolymeshTokenContract::new(a, 1000);
    ledger.transfer(a, b, 300).unwrap();
    let event = ledger.burn(b, 300).unwrap();
    assert_eq!(event, Transfer { from: Some(b), to: None, value: 300 });
    assert_eq!(ledger.balance_of(b), 0);
    assert_eq!(ledger.total_supply, 700);
}

#[test]
fn burn_beyond_balance_fails_and_changes_nothing() {
    let a = acct(1);
    let b = acct(2);
    let mut ledger = PolymeshTokenContract::new(a, 1000);
    ledger.transfer(a, b, 300).unwrap();
    let r = ledger.burn(b, 301);
    assert_eq!(r, Err(Error::InsufficientBalance));
    assert_eq!(ledger.balance_of(a), 700);
    assert_eq!(ledger.balance_of(b), 300);
    assert_eq!(ledger.total_supply, 1000);
}

#[test]
fn mint_then_burn_restores_supply_and_balance() {
    let a = acct(1);
    let b = acct(2);
    let mut ledger = PolymeshTokenContract::new(a, 1000);
    ledger.transfer(a, b, 100).unwrap();
    ledger.mint(a, b, 77).unwrap();
    ledger.burn(b, 77).unwrap();
    assert_eq!(ledger.balance_of(b), 100);
    assert_eq!(ledger.balance_of(a), 900);
    assert_eq!(ledger.total_supply, 1000);
}

#[test]
fn burn_of_whole_balance_reaches_zero_not_below() {
    let a = acct(1);
    let mut ledger = PolymeshTokenContract::new(a, 40);
    ledger.burn(a, 40).unwrap();
    assert_eq!(ledger.balance_of(a), 0);
    assert_eq!(ledger.total_supply, 0);
    let r = ledger.burn(a, 1);
    assert_eq!(r, Err(Error::InsufficientBalance));
    assert_eq!(ledger.balance_of(a), 0);
}

#[test]
fn unwritten_account_reads_as_zero() {
    let a = acct(1);
    let ledger = PolymeshTokenContract::new(a, 1000);
    assert_eq!(ledger.balance_of(acct(9)), 0);
}

#[test]
fn accounts_differing_in_either_word_are_distinct() {
    let a = AccountId { hi: 0, lo: 7 };
    let b = AccountId { hi: 7, lo: 0 };
    let mut ledger = PolymeshTokenContract::new(a, 10);
    ledger.transfer(a, b, 4).unwrap();
    assert_eq!(ledger.balance_of(a), 6);
    assert_eq!(ledger.balance_of(b), 4);
}
