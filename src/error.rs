//! The failures that a single record can meet.
use vstd::prelude::*;

use crate::record::OperationType;

verus! {

/// Why a record was rejected. Each error ends the record that raised it and
/// nothing more: the ledger is left as it was before the record.
#[derive(Clone, Copy, Debug, PartialEq, Eq, Structural)]
pub enum Errors {
    /// The client's account is locked (carries the client id).
    AccountLocked(u16),
    /// A balance would fall below what the operation needs, or below zero
    /// (carries the client id).
    InsufficientFunds(u16),
    /// The result does not fit in a decimal (carries the client id).
    FundsOverflow(u16),
    /// A deposit or withdrawal came without an amount.
    MissingAmount,
    /// A deposit or withdrawal came with an amount below zero.
    NegativeAmount,
    /// A resolve named a transaction that is not under dispute.
    ResolveOnNonDisputeOperation,
    /// A deposit or withdrawal reused a transaction id (carries the id and
    /// the operation of the rejected record).
    TransactionIdAlreadyUsed(u32, OperationType),
}

} // verus!
