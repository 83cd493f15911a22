//! The ledger: accounts by client id, and the registry of deposits and
//! withdrawals by transaction id, driven one record at a time.
//!
//! [`apply`] states what one record does to a [`LedgerView`];
//! [`TransactionManager::parse_entry`] carries it out on the maps.
use vstd::prelude::*;
use vstd::std_specs::hash::{group_hash_axioms, spec_values_iter};
use vstd::std_specs::iter::IteratorSpec;

use std::collections::HashMap;

use crate::account::Account;
use crate::amount::Amount;
use crate::error::Errors;
use crate::record::{OperationType, Record};

verus! {

broadcast use group_hash_axioms;

/// A registry entry: a deposit or withdrawal that was accepted, with its
/// place in the dispute cycle.
#[derive(Clone, Copy, Debug)]
pub struct TransactionRecord {
    /// `Deposit` or `Withdrawal`.
    pub operation_type: OperationType,
    /// The amount of the deposit or withdrawal; it never changes.
    pub amount: Amount,
    /// A dispute is open and not yet resolved or charged back.
    pub under_dispute: bool,
    /// A dispute was accepted at some point; no later one is.
    pub already_disputed: bool,
}

impl TransactionRecord {
    pub open spec fn opened(operation_type: OperationType, amount: Amount) -> TransactionRecord {
        TransactionRecord { operation_type, amount, under_dispute: false, already_disputed: false }
    }

    pub open spec fn disputed(self) -> TransactionRecord {
        TransactionRecord { under_dispute: true, already_disputed: true, ..self }
    }

    pub open spec fn settled(self) -> TransactionRecord {
        TransactionRecord { under_dispute: false, ..self }
    }

    /// A new entry, not disputed.
    pub fn new(operation_type: OperationType, amount: Amount) -> (r: TransactionRecord)
        ensures
            r == TransactionRecord::opened(operation_type, amount),
    {
        TransactionRecord { operation_type, amount, under_dispute: false, already_disputed: false }
    }
}

/// The ledger's contents: accounts by client id, entries by transaction id.
pub struct LedgerView {
    pub accounts: Map<u16, Account>,
    pub transactions: Map<u32, TransactionRecord>,
}

/// What holds of every ledger that records have been applied to: each
/// account is filed under its own client id, within range and not below
/// zero; each entry is a deposit or withdrawal of an amount in range and
/// not below zero, and is under dispute only if it was disputed.
pub open spec fn ledger_inv(v: LedgerView) -> bool {
    &&& forall|c: u16| #[trigger]
        v.accounts.contains_key(c) ==> {
            let a = v.accounts[c];
            a.client_id == c && a.wf() && a.solvent()
        }
    &&& forall|t: u32| #[trigger]
        v.transactions.contains_key(t) ==> {
            let e = v.transactions[t];
            &&& e.operation_type == OperationType::Deposit || e.operation_type
                == OperationType::Withdrawal
            &&& e.amount.wf()
            &&& e.amount.units() >= 0
            &&& e.under_dispute ==> e.already_disputed
        }
}

/// The client's account, or a fresh one where the client is new.
pub open spec fn account_or_new(v: LedgerView, client: u16) -> Account {
    if v.accounts.contains_key(client) {
        v.accounts[client]
    } else {
        Account::fresh(client)
    }
}

/// The ledger after an account operation on `client` with outcome `out`,
/// where entry `tx` becomes `e`: both change if the operation succeeded,
/// neither otherwise.
pub open spec fn commit(
    v: LedgerView,
    client: u16,
    out: (Account, Result<(), Errors>),
    tx: u32,
    e: TransactionRecord,
) -> (LedgerView, Result<(), Errors>) {
    if out.1 is Ok {
        (
            LedgerView {
                accounts: v.accounts.insert(client, out.0),
                transactions: v.transactions.insert(tx, e),
            },
            Ok(()),
        )
    } else {
        (v, out.1)
    }
}

/// What one record does to the ledger, and what it returns.
///
/// - Deposit, Withdrawal: refused if the id is taken, the amount missing or
///   below zero; otherwise the account operation runs and, if it succeeds,
///   the entry is registered.
/// - Dispute: ignored for an unknown or already disputed id; otherwise the
///   entry is marked disputed and, for a deposit, its amount is held.
/// - Resolve: ignored for an unknown id, an error for one not under dispute;
///   otherwise the dispute is closed and, for a deposit, its held amount is
///   released (a disputed withdrawal froze nothing, so nothing moves).
/// - Chargeback: ignored for an unknown id or one not under dispute;
///   otherwise a deposit is charged back (and the account locked) or a
///   withdrawal is given back.
///
/// Where an account operation fails, nothing changes.
pub open spec fn apply(v: LedgerView, r: Record) -> (LedgerView, Result<(), Errors>) {
    let known = v.transactions.contains_key(r.tx);
    let e = v.transactions[r.tx];
    let acct = account_or_new(v, r.client);
    match r.operation {
        OperationType::Deposit | OperationType::Withdrawal => {
            if known {
                (v, Err(Errors::TransactionIdAlreadyUsed(r.tx, r.operation)))
            } else {
                match r.amount {
                    None => (v, Err(Errors::MissingAmount)),
                    Some(a) => if a.units() < 0 {
                        (v, Err(Errors::NegativeAmount))
                    } else {
                        let out = if r.operation == OperationType::Deposit {
                            acct.deposit_outcome(a)
                        } else {
                            acct.withdrawal_outcome(a)
                        };
                        commit(v, r.client, out, r.tx, TransactionRecord::opened(r.operation, a))
                    },
                }
            }
        },
        OperationType::Dispute => {
            if !known || e.already_disputed {
                (v, Ok(()))
            } else if e.operation_type == OperationType::Deposit {
                commit(v, r.client, acct.dispute_outcome(e.amount), r.tx, e.disputed())
            } else {
                (LedgerView { transactions: v.transactions.insert(r.tx, e.disputed()), ..v }, Ok(()))
            }
        },
        OperationType::Resolve => {
            if !known {
                (v, Ok(()))
            } else if !e.under_dispute {
                (v, Err(Errors::ResolveOnNonDisputeOperation))
            } else if e.operation_type == OperationType::Deposit {
                commit(v, r.client, acct.resolve_outcome(e.amount), r.tx, e.settled())
            } else {
                (LedgerView { transactions: v.transactions.insert(r.tx, e.settled()), ..v }, Ok(()))
            }
        },
        OperationType::Chargeback => {
            if !known || !e.under_dispute {
                (v, Ok(()))
            } else if e.operation_type == OperationType::Deposit {
                commit(v, r.client, acct.chargeback_outcome(e.amount), r.tx, e.settled())
            } else {
                commit(v, r.client, acct.chargeback_withdrawal_outcome(e.amount), r.tx, e.settled())
            }
        },
    }
}

/// Drives the ledger: owns the accounts and the registry of transactions.
#[derive(Debug)]
pub struct TransactionManager {
    accounts: HashMap<u16, Account>,
    transactions: HashMap<u32, TransactionRecord>,
}

impl View for TransactionManager {
    type V = LedgerView;

    closed spec fn view(&self) -> LedgerView {
        LedgerView { accounts: self.accounts@, transactions: self.transactions@ }
    }
}

impl TransactionManager {
    pub open spec fn wf(&self) -> bool {
        ledger_inv(self@)
    }

    /// An empty ledger.
    pub fn new() -> (r: TransactionManager)
        ensures
            r@.accounts == Map::<u16, Account>::empty(),
            r@.transactions == Map::<u32, TransactionRecord>::empty(),
            r.wf(),
    {
        TransactionManager { accounts: HashMap::new(), transactions: HashMap::new() }
    }

    /// The client's account, or a fresh one where the client is new.
    fn get_account(&self, client: u16) -> (r: Account)
        requires
            self.wf(),
        ensures
            r == account_or_new(self@, client),
            r.wf(),
            r.solvent(),
    {
        match self.accounts.get(&client) {
            Some(a) => *a,
            None => Account::new(client),
        }
    }

    /// Files `acct` under `client` and `e` under `tx`.
    fn store(&mut self, client: u16, acct: Account, tx: u32, e: TransactionRecord)
        ensures
            final(self)@ == (LedgerView {
                accounts: old(self)@.accounts.insert(client, acct),
                transactions: old(self)@.transactions.insert(tx, e),
            }),
    {
        self.accounts.insert(client, acct);
        self.transactions.insert(tx, e);
    }

    /// Applies one record: see [`apply`] for what each operation does.
    pub fn parse_entry(&mut self, record: &Record) -> (r: Result<(), Errors>)
        requires
            old(self).wf(),
            record.amount matches Some(a) ==> a.wf(),
        ensures
            (final(self)@, r) == apply(old(self)@, *record),
            final(self).wf(),
    {
        let ghost v = self@;
        let tx = record.tx;
        let client = record.client;
        let known = self.transactions.get(&tx);
        let entry: Option<TransactionRecord> = match known {
            Some(e) => Some(*e),
            None => None,
        };
        match record.operation {
            OperationType::Deposit | OperationType::Withdrawal => {
                if entry.is_some() {
                    return Err(Errors::TransactionIdAlreadyUsed(tx, record.operation));
                }
                let amount = match record.amount {
                    None => {
                        return Err(Errors::MissingAmount);
                    },
                    Some(a) => a,
                };
                if amount.is_negative() {
                    return Err(Errors::NegativeAmount);
                }
                let mut acct = self.get_account(client);
                let res = match record.operation {
                    OperationType::Deposit => acct.deposit(amount),
                    _ => acct.withdrawal(amount),
                };
                match res {
                    Err(err) => Err(err),
                    Ok(()) => {
                        self.store(client, acct, tx, TransactionRecord::new(record.operation, amount));
                        Ok(())
                    },
                }
            },
            OperationType::Dispute => {
                let e = match entry {
                    None => {
                        return Ok(());
                    },
                    Some(e) => e,
                };
                if e.already_disputed {
                    return Ok(());
                }
                let marked = TransactionRecord { under_dispute: true, already_disputed: true, ..e };
                match e.operation_type {
                    OperationType::Deposit => {
                        let mut acct = self.get_account(client);
                        match acct.dispute(e.amount) {
                            Err(err) => Err(err),
                            Ok(()) => {
                                self.store(client, acct, tx, marked);
                                Ok(())
                            },
                        }
                    },
                    _ => {
                        self.transactions.insert(tx, marked);
                        Ok(())
                    },
                }
            },
            OperationType::Resolve => {
                let e = match entry {
                    None => {
                        return Ok(());
                    },
                    Some(e) => e,
                };
                if !e.under_dispute {
                    return Err(Errors::ResolveOnNonDisputeOperation);
                }
                let settled = TransactionRecord { under_dispute: false, ..e };
                match e.operation_type {
                    OperationType::Deposit => {
                        let mut acct = self.get_account(client);
                        match acct.resolve(e.amount) {
                            Err(err) => Err(err),
                            Ok(()) => {
                                self.store(client, acct, tx, settled);
                                Ok(())
                            },
                        }
                    },
                    _ => {
                        self.transactions.insert(tx, settled);
                        Ok(())
                    },
                }
            },
            OperationType::Chargeback => {
                let e = match entry {
                    None => {
                        return Ok(());
                    },
                    Some(e) => e,
                };
                if !e.under_dispute {
                    return Ok(());
                }
                let mut acct = self.get_account(client);
                let res = match e.operation_type {
                    OperationType::Deposit => acct.chargeback(e.amount),
                    _ => acct.chargeback_withdrawal(e.amount),
                };
                match res {
                    Err(err) => Err(err),
                    Ok(()) => {
                        self.store(client, acct, tx, TransactionRecord { under_dispute: false, ..e });
                        Ok(())
                    },
                }
            },
        }
    }

    /// Every account, once each, in no particular order.
    pub fn accounts(&self) -> (r: Vec<Account>)
        ensures
            r@.len() == self@.accounts.len(),
            r@.to_set() == self@.accounts.values(),
    {
        let mut out: Vec<Account> = Vec::new();
        let ghost all = spec_values_iter(&self.accounts).remaining().map_values(|x: &Account| *x);
        for a in it: self.accounts.values()
            invariant
                it.seq().map_values(|x: &Account| *x) == all,
                out@ == all.take(it.index() as int),
        {
            out.push(*a);
        }
        proof {
            assert(out@ == all);
            assert(spec_values_iter(&self.accounts).remaining().unref() == all);
        }
        out
    }

    /// The client's account, if the client has one.
    pub fn account(&self, client: u16) -> (r: Option<Account>)
        ensures
            r is Some <==> self@.accounts.contains_key(client),
            r matches Some(a) ==> a == self@.accounts[client],
    {
        match self.accounts.get(&client) {
            Some(a) => Some(*a),
            None => None,
        }
    }

    /// The registry entry of `tx`, if there is one.
    pub fn transaction(&self, tx: u32) -> (r: Option<TransactionRecord>)
        ensures
            r is Some <==> self@.transactions.contains_key(tx),
            r matches Some(e) ==> e == self@.transactions[tx],
    {
        match self.transactions.get(&tx) {
            Some(e) => Some(*e),
            None => None,
        }
    }

    /// How many accounts there are.
    pub fn account_count(&self) -> (r: usize)
        ensures
            r == self@.accounts.len(),
    {
        self.accounts.len()
    }

    /// How many deposits and withdrawals are registered.
    pub fn transaction_count(&self) -> (r: usize)
        ensures
            r == self@.transactions.len(),
    {
        self.transactions.len()
    }
}

} // verus!
