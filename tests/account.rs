use std::str::FromStr;

use payments_ledger::account::Account;
use payments_ledger::amount::{Amount, MAX_MANTISSA};
use payments_ledger::error::Errors;
use rust_decimal::Decimal;

fn amt(s: &str) -> Amount {
    let d = Decimal::from_str(s).unwrap();
    Amount::from_parts(d.mantissa(), d.scale()).unwrap()
}

fn max() -> Amount {
    Amount::from_parts(MAX_MANTISSA, 0).unwrap()
}

fn min() -> Amount {
    Amount::from_parts(-MAX_MANTISSA, 0).unwrap()
}

fn dec(a: Amount) -> Decimal {
    Decimal::from_i128_with_scale(a.mantissa, a.scale)
}

fn d(s: &str) -> Decimal {
    Decimal::from_str(s).unwrap()
}

#[test]
fn test_sanity_check_on_new_account() {
    let account = Account::new(1);
    assert_eq!(dec(account.available), d("0.0"));
    assert_eq!(dec(account.held), d("0.0"));
    assert!(!account.locked);
}

#[test]
fn test_deposit_to_acount() {
    let mut account = Account::new(1);
    assert_eq!(dec(account.available), d("0.0"));
    assert!(account.deposit(amt("1.0")).is_ok());
    assert_eq!(dec(account.available), d("1.0"));
}

#[test]
fn test_withdrawal_from_account_with_sufficient_balance() {
    let mut account = Account::new(1);
    assert!(account.deposit(amt("100.0")).is_ok());
    assert!(account.withdrawal(amt("99.5")).is_ok());
    assert_eq!(dec(account.available), d("0.5"));
}

#[test]
fn test_withdrawal_from_account_with_insufficient_balance() {
    let mut account = Account::new(1);
    assert!(account.deposit(amt("100.0")).is_ok());
    assert!(matches!(
        account.withdrawal(amt("200.0")),
        Err(Errors::InsufficientFunds(1))
    ));
    assert_eq!(dec(account.available), d("100.0"));
}

#[test]
fn test_withdrawal_from_account_with_zero_funds() {
    let mut account = Account::new(123);
    assert!(matches!(
        account.withdrawal(amt("42.0")),
        Err(Errors::InsufficientFunds(123))
    ));
    assert_eq!(dec(account.available), d("0.0"));
}

#[test]
fn test_dispute_to_account() {
    let mut account = Account::new(1);
    assert!(account.deposit(amt("100.0")).is_ok());
    assert!(account.dispute(amt("10.0")).is_ok());
    assert_eq!(dec(account.available), d("90.0"));
    assert_eq!(dec(account.held), d("10.0"));
}

#[test]
fn test_dispute_to_account_with_not_enough_funds() {
    let mut account = Account::new(1);
    assert!(matches!(
        account.dispute(amt("10.0")),
        Err(Errors::InsufficientFunds(1))
    ));
    assert_eq!(dec(account.held), d("0.0"));
}

#[test]
fn test_dispute_to_account_with_zero_balance() {
    let client_id = 42u16;
    let mut account = Account::new(client_id);
    assert!(matches!(
        account.dispute(amt("1.23")),
        Err(Errors::InsufficientFunds(_client_id))
    ));
}

#[test]
fn test_chargeback_locks_account_and_reduces_available_funds() {
    let mut account = Account::new(1);
    let held_amount = amt("10.0");

    assert!(account.deposit(amt("100.0")).is_ok());
    assert!(account.dispute(held_amount).is_ok());

    assert_eq!(dec(account.held), dec(held_amount));
    assert_eq!(dec(account.available), d("100.0") - dec(held_amount));

    assert!(account.chargeback(held_amount).is_ok());

    assert_eq!(dec(account.available), d("100.0") - dec(held_amount));
    assert_eq!(dec(account.held), d("0.0"));
    assert!(account.locked);
}

#[test]
fn test_chargeback_for_withdrawal_operation_increases_available_funds() {
    let mut account = Account::new(1);
    assert!(account.deposit(amt("4.2")).is_ok());
    assert!(account.chargeback_withdrawal(amt("0.8")).is_ok());
    assert_eq!(dec(account.available), d("5"));
}

#[test]
fn test_resolve_frees_held_amount() {
    let mut account = Account::new(1);
    assert!(account.deposit(amt("10.0")).is_ok());
    assert!(account.dispute(amt("5.5")).is_ok());
    assert_eq!(dec(account.available), d("4.5"));
    assert!(account.resolve(amt("5.5")).is_ok());
    assert_eq!(dec(account.available), d("10.0"));
}

#[test]
fn test_deposit_on_locked_account() {
    let mut account = Account::new(1);
    account.available = amt("10.0");
    account.locked = true;

    assert!(matches!(
        account.deposit(amt("5.0")),
        Err(Errors::AccountLocked(1))
    ));
}

#[test]
fn test_deposit_fails_due_overflow() {
    let mut account = Account::new(1);
    account.available = max();

    assert!(matches!(
        account.deposit(amt("1")),
        Err(Errors::FundsOverflow(1))
    ));
}

#[test]
fn test_withdrawal_fails_due_overflow() {
    let mut account = Account::new(1);
    account.available = max();

    assert!(matches!(
        account.withdrawal(min()),
        Err(Errors::FundsOverflow(1))
    ));
}

#[test]
fn test_dispute_fails_due_overflow() {
    let mut account = Account::new(1);

    account.held = max();
    account.available = max();

    assert!(matches!(
        account.dispute(max()),
        Err(Errors::FundsOverflow(1))
    ));
}

#[test]
fn test_chargeback_fails_due_overflow() {
    let mut account = Account::new(1);

    account.held = min();
    account.available = min();

    assert!(matches!(
        account.chargeback(max()),
        Err(Errors::FundsOverflow(1))
    ));
}

#[test]
fn test_resolve_fails_due_overflow() {
    let mut account = Account::new(1);
    account.held = max();
    account.available = max();
    assert!(matches!(
        account.resolve(min()),
        Err(Errors::FundsOverflow(1))
    ));
}

#[test]
fn maximal_deposit_onto_maximal_balance_overflows_and_changes_nothing() {
    let mut account = Account::new(7);
    account.available = max();
    let before = account;
    assert!(matches!(account.deposit(max()), Err(Errors::FundsOverflow(7))));
    assert_eq!(dec(account.available), dec(before.available));
    assert_eq!(dec(account.held), dec(before.held));
    assert!(!account.locked);
}

#[test]
fn failed_chargeback_does_not_lock() {
    let mut account = Account::new(3);
    assert!(matches!(account.chargeback(amt("1")), Err(Errors::InsufficientFunds(3))));
    assert!(!account.locked);
    assert_eq!(dec(account.held), d("0"));
}

#[test]
fn resolve_without_held_funds_is_refused() {
    let mut account = Account::new(4);
    assert!(account.deposit(amt("10")).is_ok());
    assert!(matches!(account.resolve(amt("3")), Err(Errors::InsufficientFunds(4))));
    assert_eq!(dec(account.available), d("10"));
    assert_eq!(dec(account.held), d("0"));
}

#[test]
fn negative_deposit_on_account_cannot_drive_balance_below_zero() {
    let mut account = Account::new(5);
    assert!(matches!(account.deposit(amt("-1")), Err(Errors::InsufficientFunds(5))));
    assert_eq!(dec(account.available), d("0"));
}

#[test]
fn dispute_then_resolve_restores_balances_exactly() {
    let mut account = Account::new(1);
    assert!(account.deposit(amt("0.1")).is_ok());
    assert!(account.deposit(amt("0.2")).is_ok());
    assert!(account.dispute(amt("0.3")).is_ok());
    assert_eq!(dec(account.available), d("0"));
    assert_eq!(dec(account.held), d("0.3"));
    assert!(account.resolve(amt("0.3")).is_ok());
    assert_eq!(dec(account.available), d("0.3"));
    assert_eq!(dec(account.held), d("0"));
}

#[test]
fn sums_are_exact_and_normalised() {
    let a = amt("1.10");
    let b = amt("2.205");
    let s = a.checked_add(b).unwrap();
    assert_eq!(dec(s), d("3.305"));
    assert_eq!((s.mantissa, s.scale), (3305, 3));
    let t = amt("5.00").checked_sub(amt("2.00")).unwrap();
    assert_eq!((t.mantissa, t.scale), (3, 0));
    let u = amt("1").checked_sub(amt("3.5")).unwrap();
    assert_eq!(dec(u), d("-2.5"));
    assert!(max().checked_add(max()).is_none());
    assert!(min().checked_sub(max()).is_none());
}

#[test]
fn from_parts_checks_the_range() {
    assert!(Amount::from_parts(MAX_MANTISSA, 28).is_some());
    assert!(Amount::from_parts(MAX_MANTISSA + 1, 0).is_none());
    assert!(Amount::from_parts(-MAX_MANTISSA - 1, 0).is_none());
    assert!(Amount::from_parts(1, 29).is_none());
    assert!(amt("-0.5").is_negative());
    assert!(!amt("0").is_negative());
}

#[test]
fn amounts_are_written_with_four_fractional_digits() {
    assert_eq!(amt("12.5").to_four_places(), "12.5000");
    assert_eq!(amt("1.23456").to_four_places(), "1.2346");
    assert_eq!(amt("7").to_four_places(), "7.0000");
}

#[test]
fn summary_reports_total_and_lock() {
    let mut account = Account::new(9);
    assert!(account.deposit(amt("10.5")).is_ok());
    assert!(account.dispute(amt("2.25")).is_ok());
    let s = account.summary().unwrap();
    assert_eq!(s.client, 9);
    assert_eq!(s.available, "8.2500");
    assert_eq!(s.held, "2.2500");
    assert_eq!(s.total, "10.5000");
    assert!(!s.locked);

    let mut full = Account::new(2);
    full.available = max();
    full.held = max();
    assert!(full.summary().is_none());
}
