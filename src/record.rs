//! The records that drive the ledger.
use vstd::prelude::*;

use crate::amount::Amount;

verus! {

/// What a record asks the ledger to do.
#[derive(Clone, Copy, Debug, PartialEq, Eq, Structural)]
pub enum OperationType {
    Chargeback,
    Dispute,
    Deposit,
    Resolve,
    Withdrawal,
}

impl OperationType {
    /// The name of the operation, as it is printed.
    pub fn name(&self) -> (r: &'static str)
        ensures
            *self == OperationType::Chargeback ==> r@ == "Chargeback"@,
            *self == OperationType::Dispute ==> r@ == "Dispute"@,
            *self == OperationType::Deposit ==> r@ == "Deposit"@,
            *self == OperationType::Resolve ==> r@ == "Resolve"@,
            *self == OperationType::Withdrawal ==> r@ == "Withdrawal"@,
    {
        match self {
            OperationType::Chargeback => "Chargeback",
            OperationType::Dispute => "Dispute",
            OperationType::Deposit => "Deposit",
            OperationType::Resolve => "Resolve",
            OperationType::Withdrawal => "Withdrawal",
        }
    }
}

/// One input record: an operation for a client on a transaction id, with an
/// amount for deposits and withdrawals.
#[derive(Clone, Copy, Debug)]
pub struct Record {
    pub operation: OperationType,
    pub client: u16,
    pub tx: u32,
    pub amount: Option<Amount>,
}

impl Record {
    pub fn new(operation: OperationType, client: u16, tx: u32, amount: Option<Amount>) -> (r: Record)
        ensures
            r == (Record { operation, client, tx, amount }),
    {
        Record { operation, client, tx, amount }
    }
}

} // verus!
