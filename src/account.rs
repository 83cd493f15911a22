//! One client's money: what is available, what is held by disputes, and
//! whether the account is locked.
//!
//! Each operation either succeeds or fails with an error and leaves the
//! account as it was. The `*_outcome` spec functions give, for each
//! operation, the account afterwards and the result.
use vstd::prelude::*;

use crate::amount::{canonical, difference_of, rounded_text, sum_of, Amount};
use crate::error::Errors;

verus! {

/// A client's account.
#[derive(Clone, Copy, Debug)]
pub struct Account {
    pub client_id: u16,
    /// Funds the client may withdraw.
    pub available: Amount,
    /// Funds frozen by open disputes.
    pub held: Amount,
    /// Once set, deposits and withdrawals are refused.
    pub locked: bool,
}

/// An account as it is reported: amounts written with four fractional
/// digits, and `total = available + held`.
#[derive(Debug)]
pub struct AccountSummary {
    pub client: u16,
    pub available: String,
    pub held: String,
    pub total: String,
    pub locked: bool,
}

impl Account {
    /// Both balances are in the range of a decimal.
    pub open spec fn wf(self) -> bool {
        self.available.wf() && self.held.wf()
    }

    /// Neither balance is below zero.
    pub open spec fn solvent(self) -> bool {
        self.available.units() >= 0 && self.held.units() >= 0
    }

    /// The account of a client seen for the first time.
    pub open spec fn fresh(client_id: u16) -> Account {
        Account { client_id, available: canonical(0), held: canonical(0), locked: false }
    }

    pub open spec fn with_available(self, available: Amount) -> Account {
        Account { available, ..self }
    }

    pub open spec fn with_held(self, held: Amount) -> Account {
        Account { held, ..self }
    }

    pub open spec fn deposit_outcome(self, amount: Amount) -> (Account, Result<(), Errors>) {
        if self.locked {
            (self, Err(Errors::AccountLocked(self.client_id)))
        } else {
            match sum_of(self.available, amount) {
                None => (self, Err(Errors::FundsOverflow(self.client_id))),
                Some(a) => if a.units() < 0 {
                    (self, Err(Errors::InsufficientFunds(self.client_id)))
                } else {
                    (self.with_available(a), Ok(()))
                },
            }
        }
    }

    pub open spec fn withdrawal_outcome(self, amount: Amount) -> (Account, Result<(), Errors>) {
        if self.locked {
            (self, Err(Errors::AccountLocked(self.client_id)))
        } else if self.available.units() < amount.units() {
            (self, Err(Errors::InsufficientFunds(self.client_id)))
        } else {
            match difference_of(self.available, amount) {
                None => (self, Err(Errors::FundsOverflow(self.client_id))),
                Some(a) => if a.units() < 0 {
                    (self, Err(Errors::InsufficientFunds(self.client_id)))
                } else {
                    (self.with_available(a), Ok(()))
                },
            }
        }
    }

    pub open spec fn dispute_outcome(self, amount: Amount) -> (Account, Result<(), Errors>) {
        if self.available.units() < amount.units() {
            (self, Err(Errors::InsufficientFunds(self.client_id)))
        } else {
            match (difference_of(self.available, amount), sum_of(self.held, amount)) {
                (Some(a), Some(h)) => if a.units() < 0 || h.units() < 0 {
                    (self, Err(Errors::InsufficientFunds(self.client_id)))
                } else {
                    (self.with_available(a).with_held(h), Ok(()))
                },
                _ => (self, Err(Errors::FundsOverflow(self.client_id))),
            }
        }
    }

    pub open spec fn resolve_outcome(self, amount: Amount) -> (Account, Result<(), Errors>) {
        match (sum_of(self.available, amount), difference_of(self.held, amount)) {
            (Some(a), Some(h)) => if a.units() < 0 || h.units() < 0 {
                (self, Err(Errors::InsufficientFunds(self.client_id)))
            } else {
                (self.with_available(a).with_held(h), Ok(()))
            },
            _ => (self, Err(Errors::FundsOverflow(self.client_id))),
        }
    }

    pub open spec fn chargeback_outcome(self, amount: Amount) -> (Account, Result<(), Errors>) {
        match difference_of(self.held, amount) {
            None => (self, Err(Errors::FundsOverflow(self.client_id))),
            Some(h) => if h.units() < 0 {
                (self, Err(Errors::InsufficientFunds(self.client_id)))
            } else {
                (Account { held: h, locked: true, ..self }, Ok(()))
            },
        }
    }

    pub open spec fn chargeback_withdrawal_outcome(self, amount: Amount) -> (
        Account,
        Result<(), Errors>,
    ) {
        match sum_of(self.available, amount) {
            None => (self, Err(Errors::FundsOverflow(self.client_id))),
            Some(a) => if a.units() < 0 {
                (self, Err(Errors::InsufficientFunds(self.client_id)))
            } else {
                (self.with_available(a), Ok(()))
            },
        }
    }

    /// A new account for `client_id`: nothing available, nothing held, not locked.
    pub fn new(client_id: u16) -> (r: Account)
        ensures
            r == Account::fresh(client_id),
            r.wf(),
            r.solvent(),
    {
        Account { client_id, available: Amount::zero(), held: Amount::zero(), locked: false }
    }

    /// Adds `amount` to the available funds. Fails with `AccountLocked` on a
    /// locked account and with `FundsOverflow` where the sum does not fit.
    pub fn deposit(&mut self, amount: Amount) -> (r: Result<(), Errors>)
        requires
            old(self).wf(),
            amount.wf(),
        ensures
            (*final(self), r) == old(self).deposit_outcome(amount),
            final(self).wf(),
    {
        if self.locked {
            return Err(Errors::AccountLocked(self.client_id));
        }
        match self.available.checked_add(amount) {
            None => Err(Errors::FundsOverflow(self.client_id)),
            Some(a) => {
                if a.is_negative() {
                    Err(Errors::InsufficientFunds(self.client_id))
                } else {
                    self.available = a;
                    Ok(())
                }
            },
        }
    }

    /// Takes `amount` from the available funds. Fails with `AccountLocked` on a
    /// locked account, with `InsufficientFunds` where less than `amount` is
    /// available, and with `FundsOverflow` where the difference does not fit.
    pub fn withdrawal(&mut self, amount: Amount) -> (r: Result<(), Errors>)
        requires
            old(self).wf(),
            amount.wf(),
        ensures
            (*final(self), r) == old(self).withdrawal_outcome(amount),
            final(self).wf(),
    {
        if self.locked {
            return Err(Errors::AccountLocked(self.client_id));
        }
        if !crate::amount::decimal_at_least(self.available, amount) {
            return Err(Errors::InsufficientFunds(self.client_id));
        }
        match self.available.checked_sub(amount) {
            None => Err(Errors::FundsOverflow(self.client_id)),
            Some(a) => {
                if a.is_negative() {
                    Err(Errors::InsufficientFunds(self.client_id))
                } else {
                    self.available = a;
                    Ok(())
                }
            },
        }
    }

    /// Moves `amount` from the available funds to the held funds. Fails with
    /// `InsufficientFunds` where less than `amount` is available, and with
    /// `FundsOverflow` where either balance does not fit.
    pub fn dispute(&mut self, amount: Amount) -> (r: Result<(), Errors>)
        requires
            old(self).wf(),
            amount.wf(),
        ensures
            (*final(self), r) == old(self).dispute_outcome(amount),
            final(self).wf(),
    {
        if !crate::amount::decimal_at_least(self.available, amount) {
            return Err(Errors::InsufficientFunds(self.client_id));
        }
        let a = self.available.checked_sub(amount);
        let h = self.held.checked_add(amount);
        match (a, h) {
            (Some(a), Some(h)) => {
                if a.is_negative() || h.is_negative() {
                    Err(Errors::InsufficientFunds(self.client_id))
                } else {
                    self.available = a;
                    self.held = h;
                    Ok(())
                }
            },
            _ => Err(Errors::FundsOverflow(self.client_id)),
        }
    }

    /// Moves `amount` from the held funds back to the available funds. Fails
    /// with `FundsOverflow` where either balance does not fit, and with
    /// `InsufficientFunds` where a balance would fall below zero.
    pub fn resolve(&mut self, amount: Amount) -> (r: Result<(), Errors>)
        requires
            old(self).wf(),
            amount.wf(),
        ensures
            (*final(self), r) == old(self).resolve_outcome(amount),
            final(self).wf(),
    {
        let a = self.available.checked_add(amount);
        let h = self.held.checked_sub(amount);
        match (a, h) {
            (Some(a), Some(h)) => {
                if a.is_negative() || h.is_negative() {
                    Err(Errors::InsufficientFunds(self.client_id))
                } else {
                    self.available = a;
                    self.held = h;
                    Ok(())
                }
            },
            _ => Err(Errors::FundsOverflow(self.client_id)),
        }
    }

    /// Removes `amount` from the held funds and locks the account. Fails with
    /// `FundsOverflow` where the difference does not fit, and with
    /// `InsufficientFunds` where less than `amount` is held; on failure the
    /// account is not locked.
    pub fn chargeback(&mut self, amount: Amount) -> (r: Result<(), Errors>)
        requires
            old(self).wf(),
            amount.wf(),
        ensures
            (*final(self), r) == old(self).chargeback_outcome(amount),
            final(self).wf(),
    {
        match self.held.checked_sub(amount) {
            None => Err(Errors::FundsOverflow(self.client_id)),
            Some(h) => {
                if h.is_negative() {
                    Err(Errors::InsufficientFunds(self.client_id))
                } else {
                    self.held = h;
                    self.lock();
                    Ok(())
                }
            },
        }
    }

    /// Gives a disputed withdrawal back: adds `amount` to the available funds,
    /// without locking. Fails with `FundsOverflow` where the sum does not fit.
    pub fn chargeback_withdrawal(&mut self, amount: Amount) -> (r: Result<(), Errors>)
        requires
            old(self).wf(),
            amount.wf(),
        ensures
            (*final(self), r) == old(self).chargeback_withdrawal_outcome(amount),
            final(self).wf(),
    {
        match self.available.checked_add(amount) {
            None => Err(Errors::FundsOverflow(self.client_id)),
            Some(a) => {
                if a.is_negative() {
                    Err(Errors::InsufficientFunds(self.client_id))
                } else {
                    self.available = a;
                    Ok(())
                }
            },
        }
    }

    fn lock(&mut self)
        ensures
            *final(self) == (Account { locked: true, ..*old(self) }),
    {
        self.locked = true;
    }

    pub fn client_id(&self) -> (r: u16)
        ensures
            r == self.client_id,
    {
        self.client_id
    }

    pub fn available(&self) -> (r: Amount)
        ensures
            r == self.available,
    {
        self.available
    }

    pub fn held(&self) -> (r: Amount)
        ensures
            r == self.held,
    {
        self.held
    }

    pub fn is_locked(&self) -> (r: bool)
        ensures
            r == self.locked,
    {
        self.locked
    }

    /// The account as it is reported, or `None` where `available + held`
    /// does not fit in a decimal.
    pub fn summary(&self) -> (r: Option<AccountSummary>)
        requires
            self.wf(),
        ensures
            match sum_of(self.available, self.held) {
                None => r is None,
                Some(t) => r matches Some(s) && s.client == self.client_id && s.locked == self.locked
                    && s.available@ == rounded_text(self.available.parts(), 4) && s.held@
                    == rounded_text(self.held.parts(), 4) && s.total@ == rounded_text(t.parts(), 4),
            },
    {
        match self.available.checked_add(self.held) {
            None => None,
            Some(t) => Some(
                AccountSummary {
                    client: self.client_id,
                    available: self.available.to_four_places(),
                    held: self.held.to_four_places(),
                    total: t.to_four_places(),
                    locked: self.locked,
                },
            ),
        }
    }
}

} // verus!
