use std::str::FromStr;

use payments_ledger::amount::Amount;
use payments_ledger::error::Errors;
use payments_ledger::record::{OperationType, Record};
use payments_ledger::transaction_manager::TransactionManager;
use rust_decimal::Decimal;

fn amt(s: &str) -> Option<Amount> {
    let d = Decimal::from_str(s).unwrap();
    Amount::from_parts(d.mantissa(), d.scale())
}

fn dec(a: Amount) -> Decimal {
    Decimal::from_i128_with_scale(a.mantissa, a.scale)
}

fn d(s: &str) -> Decimal {
    Decimal::from_str(s).unwrap()
}

fn available(manager: &TransactionManager, client: u16) -> Decimal {
    dec(manager.account(client).unwrap().available())
}

fn held(manager: &TransactionManager, client: u16) -> Decimal {
    dec(manager.account(client).unwrap().held())
}

fn locked(manager: &TransactionManager, client: u16) -> bool {
    manager.account(client).unwrap().is_locked()
}

#[test]
fn test_dispute_on_non_existing_transaction_has_no_effets() {
    let mut manager = TransactionManager::new();
    let records = vec![
        Record::new(OperationType::Deposit, 1, 1, amt("12.5")),
        Record::new(OperationType::Dispute, 1, 100, None),
    ];

    assert!(records.iter().all(|r| manager.parse_entry(r).is_ok()));

    assert_eq!(available(&manager, 1), d("12.5"));
    assert_eq!(held(&manager, 1), d("0.0"));
}

#[test]
fn test_dispute_on_locked_account_shall_be_completed() {
    let mut manager = TransactionManager::new();
    let records = vec![
        Record::new(OperationType::Deposit, 1, 1, amt("12")),
        Record::new(OperationType::Deposit, 1, 2, amt("5")),
        Record::new(OperationType::Dispute, 1, 1, None),
        Record::new(OperationType::Chargeback, 1, 1, None),
        Record::new(OperationType::Dispute, 1, 2, None),
        Record::new(OperationType::Chargeback, 1, 2, None),
    ];

    assert!(records.into_iter().all(|r| manager.parse_entry(&r).is_ok()));

    assert_eq!(held(&manager, 1), d("0"));
    assert_eq!(available(&manager, 1), d("0"));
    assert!(locked(&manager, 1));
}

#[test]
fn test_chargeback_for_operation_that_was_not_under_dispute_shall_have_no_effect() {
    let mut manager = TransactionManager::new();
    let records = vec![
        Record::new(OperationType::Deposit, 1, 1, amt("100.0")),
        Record::new(OperationType::Deposit, 1, 2, amt("20.0")),
        Record::new(OperationType::Deposit, 1, 3, amt("15.0")),
        Record::new(OperationType::Dispute, 1, 3, None),
        Record::new(OperationType::Chargeback, 1, 2, None),
    ];

    assert!(records.into_iter().all(|r| manager.parse_entry(&r).is_ok()));

    assert_eq!(held(&manager, 1), d("15.0"));
    assert_eq!(available(&manager, 1), d("120.0"));
}

#[test]
fn test_chargeback_for_operation_that_is_not_under_dispute_shall_have_no_effect() {
    let mut manager = TransactionManager::new();
    let records = vec![
        Record::new(OperationType::Deposit, 1, 1, amt("1.234")),
        Record::new(OperationType::Chargeback, 1, 1, None),
    ];

    assert!(records.into_iter().all(|r| manager.parse_entry(&r).is_ok()));

    assert_eq!(held(&manager, 1), d("0.0"));
    assert!(!locked(&manager, 1));
    assert_eq!(available(&manager, 1), d("1.234"));
}

#[test]
fn test_disputed_transaction_can_be_chargedback_only_once() {
    let mut manager = TransactionManager::new();
    let records = vec![
        Record::new(OperationType::Deposit, 1, 1, amt("100.0")),
        Record::new(OperationType::Deposit, 1, 2, amt("20.0")),
        Record::new(OperationType::Dispute, 1, 2, None),
        Record::new(OperationType::Chargeback, 1, 2, None),
        Record::new(OperationType::Dispute, 1, 2, None),
        Record::new(OperationType::Chargeback, 1, 2, None),
        Record::new(OperationType::Dispute, 1, 2, None),
        Record::new(OperationType::Chargeback, 1, 2, None),
    ];

    assert!(records.into_iter().all(|r| manager.parse_entry(&r).is_ok()));

    assert_eq!(held(&manager, 1), d("0.0"));
    assert!(locked(&manager, 1));
    assert_eq!(available(&manager, 1), d("100.0"));
}

#[test]
fn test_resolve_on_non_dispute_transaction_shall_be_ignroed() {
    let mut manager = TransactionManager::new();
    let records = vec![
        Record::new(OperationType::Deposit, 1, 1, amt("1")),
        Record::new(OperationType::Withdrawal, 1, 2, amt("0.5")),
        Record::new(OperationType::Resolve, 1, 2, None),
    ];
    assert!(manager.parse_entry(&records[0]).is_ok());
    assert!(manager.parse_entry(&records[1]).is_ok());
    assert!(matches!(
        manager.parse_entry(&records[2]),
        Err(Errors::ResolveOnNonDisputeOperation)
    ));
}

#[test]
fn test_resolve_for_operation_is_not_under_dispute_shall_have_no_effect() {
    let mut manager = TransactionManager::new();
    let records = vec![
        Record::new(OperationType::Deposit, 1, 1, amt("0.234")),
        Record::new(OperationType::Deposit, 1, 2, amt("1.0")),
        Record::new(OperationType::Dispute, 1, 2, None),
        Record::new(OperationType::Chargeback, 1, 2, None),
        Record::new(OperationType::Resolve, 1, 2, None),
    ];

    assert!(manager.parse_entry(&records[0]).is_ok());
    assert!(manager.parse_entry(&records[1]).is_ok());
    assert!(manager.parse_entry(&records[2]).is_ok());
    assert!(manager.parse_entry(&records[3]).is_ok());

    assert_eq!(held(&manager, 1), d("0.0"));
    assert!(locked(&manager, 1));
    assert_eq!(available(&manager, 1), d("0.234"));

    assert!(manager.parse_entry(&records[4]).is_err());

    assert_eq!(held(&manager, 1), d("0.0"));
    assert!(locked(&manager, 1));
    assert_eq!(available(&manager, 1), d("0.234"));
}

#[test]
fn test_resolve_on_non_existing_transaction_has_no_effets() {
    let mut manager = TransactionManager::new();
    let records = vec![
        Record::new(OperationType::Deposit, 1, 1, amt("1")),
        Record::new(OperationType::Resolve, 1, 2, None),
    ];

    assert!(records.into_iter().all(|r| manager.parse_entry(&r).is_ok()));

    assert_eq!(available(&manager, 1), d("1"));
    assert_eq!(held(&manager, 1), d("0.0"));
}

#[test]
fn test_chargeback_on_non_existing_transaction_has_no_effets() {
    let mut manager = TransactionManager::new();
    let records = vec![
        Record::new(OperationType::Deposit, 1, 1, amt("2")),
        Record::new(OperationType::Chargeback, 1, 3, None),
    ];

    assert!(records.into_iter().all(|r| manager.parse_entry(&r).is_ok()));

    assert_eq!(available(&manager, 1), d("2"));
    assert_eq!(held(&manager, 1), d("0.0"));
}

#[test]
fn test_transaction_with_the_same_id_shall_be_rejected_and_error_shall_be_reported() {
    let mut manager = TransactionManager::new();
    let records = vec![
        Record::new(OperationType::Deposit, 1, 1, amt("2")),
        Record::new(OperationType::Deposit, 1, 1, amt("1")),
    ];

    assert!(manager.parse_entry(&records[0]).is_ok());
    assert!(matches!(
        manager.parse_entry(&records[1]),
        Err(Errors::TransactionIdAlreadyUsed(1, OperationType::Deposit))
    ));

    assert_eq!(manager.transaction_count(), 1);
    let entry = manager.transaction(1).unwrap();
    assert_eq!(entry.operation_type, OperationType::Deposit);
    assert_eq!(dec(entry.amount), d("2"));
    assert!(!entry.under_dispute);
    assert!(!entry.already_disputed);
}

#[test]
fn test_for_unique_clients_repeated_transaction_id_shall_not_create_new_account() {
    let mut manager = TransactionManager::new();
    let records = vec![
        Record::new(OperationType::Deposit, 1, 1, amt("2")),
        Record::new(OperationType::Deposit, 2, 1, amt("1")),
    ];

    assert!(manager.parse_entry(&records[0]).is_ok());
    assert!(matches!(
        manager.parse_entry(&records[1]),
        Err(Errors::TransactionIdAlreadyUsed(1, OperationType::Deposit))
    ));

    assert_eq!(manager.transaction_count(), 1);
    let entry = manager.transaction(1).unwrap();
    assert_eq!(entry.operation_type, OperationType::Deposit);
    assert_eq!(dec(entry.amount), d("2"));
    let accounts = manager.accounts();
    let mut accounts_iter = accounts.iter().peekable();
    assert!(accounts_iter.peek().is_some());
    accounts_iter.next();
    assert!(accounts_iter.peek().is_none());
}

#[test]
fn test_chargback_on_withdrawal() {
    let mut manager = TransactionManager::new();
    let records = vec![
        Record::new(OperationType::Deposit, 1, 1, amt("10")),
        Record::new(OperationType::Withdrawal, 1, 2, amt("3")),
        Record::new(OperationType::Dispute, 1, 2, None),
        Record::new(OperationType::Chargeback, 1, 2, None),
    ];
    assert!(records.iter().all(|r| manager.parse_entry(r).is_ok()));
    assert_eq!(available(&manager, 1), d("10"));
}

#[test]
fn test_operation_with_negative_amount_shall_be_discared() {
    let mut manager = TransactionManager::new();
    let records = vec![
        Record::new(OperationType::Deposit, 1, 1, amt("-1")),
        Record::new(OperationType::Withdrawal, 1, 2, amt("-1")),
    ];
    assert!(records.iter().all(|r| manager.parse_entry(r).is_err()));
    assert_eq!(manager.account_count(), 0);
    assert_eq!(manager.transaction_count(), 0);
}

#[test]
fn test_invalid_deposit_or_withdrawal_operation_shall_not_affect_internal_state_of_manager() {
    let mut manager = TransactionManager::new();
    let records = vec![
        Record::new(OperationType::Deposit, 1, 1, amt("-150")),
        Record::new(OperationType::Withdrawal, 1, 2, amt("-42")),
        Record::new(OperationType::Deposit, 1, 3, None),
        Record::new(OperationType::Withdrawal, 1, 4, None),
    ];

    assert_eq!(manager.account_count(), 0);
    assert_eq!(manager.transaction_count(), 0);

    assert!(records.iter().all(|r| manager.parse_entry(r).is_err()));

    assert_eq!(manager.account_count(), 0);
    assert_eq!(manager.transaction_count(), 0);
}

#[test]
fn test_with_multiple_disputes_resolve_shall_release_held_amount_only_from_referenced_operation() {
    let mut manager = TransactionManager::new();
    let records = vec![
        Record::new(OperationType::Deposit, 1, 1, amt("10")),
        Record::new(OperationType::Deposit, 1, 2, amt("20")),
        Record::new(OperationType::Deposit, 1, 3, amt("30")),
        Record::new(OperationType::Deposit, 1, 4, amt("40")),
        Record::new(OperationType::Dispute, 1, 1, None),
        Record::new(OperationType::Dispute, 1, 2, None),
        Record::new(OperationType::Resolve, 1, 2, None),
        Record::new(OperationType::Dispute, 1, 3, None),
    ];

    records.iter().for_each(|r| {
        let _ = manager.parse_entry(r);
    });

    assert_eq!(available(&manager, 1), d("60"));
    assert_eq!(held(&manager, 1), d("40"));
}

#[test]
fn test_with_multiple_clients() {
    let mut manager = TransactionManager::new();
    let records = vec![
        Record::new(OperationType::Deposit, 1, 1, amt("10")),
        Record::new(OperationType::Deposit, 2, 2, amt("20")),
        Record::new(OperationType::Deposit, 3, 3, amt("30")),
        Record::new(OperationType::Deposit, 2, 4, amt("40")),
        Record::new(OperationType::Deposit, 3, 5, amt("50")),
        Record::new(OperationType::Deposit, 1, 6, amt("60")),
        Record::new(OperationType::Deposit, 2, 7, amt("70")),
        Record::new(OperationType::Deposit, 3, 8, amt("80")),
        Record::new(OperationType::Dispute, 2, 4, None),
        Record::new(OperationType::Withdrawal, 1, 9, amt("1")),
        Record::new(OperationType::Dispute, 3, 8, None),
        Record::new(OperationType::Chargeback, 3, 8, None),
    ];

    records.iter().for_each(|r| {
        assert!(manager.parse_entry(r).is_ok());
    });

    assert_eq!(manager.account_count(), 3);

    assert_eq!(locked(&manager, 1), false);
    assert_eq!(available(&manager, 1), d("69"));
    assert_eq!(held(&manager, 1), d("0"));

    assert_eq!(locked(&manager, 2), false);
    assert_eq!(available(&manager, 2), d("90"));
    assert_eq!(held(&manager, 2), d("40"));

    assert_eq!(locked(&manager, 3), true);
    assert_eq!(available(&manager, 3), d("80"));
    assert_eq!(held(&manager, 3), d("0"));
}
