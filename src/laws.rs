//! Laws of the ledger, proved over [`apply`] and the account outcomes.
use vstd::prelude::*;

use crate::account::Account;
use crate::amount::{
    beyond_range, canonical, fits_at, lemma_difference_exact, lemma_fits_at_smaller_scale,
    lemma_normalize_zero, lemma_pow10_positive, lemma_sum_exact, max_scale, pow10, sum_of, Amount,
    MAX_MANTISSA, MAX_SCALE,
};
use crate::error::Errors;
use crate::record::{OperationType, Record};
use crate::transaction_manager::{account_or_new, apply, ledger_inv, LedgerView};

verus! {

/// The ledger after the records `rs`, applied in order from `v`.
pub open spec fn replay(v: LedgerView, rs: Seq<Record>) -> LedgerView
    decreases rs.len(),
{
    if rs.len() == 0 {
        v
    } else {
        apply(replay(v, rs.drop_last()), rs.last()).0
    }
}

pub open spec fn is_money_movement(op: OperationType) -> bool {
    op == OperationType::Deposit || op == OperationType::Withdrawal
}

/// Applying a record never removes an entry from the registry, and never
/// changes an entry's operation or amount.
pub proof fn lemma_registry_only_grows(v: LedgerView, r: Record)
    ensures
        forall|t: u32| #[trigger]
            v.transactions.contains_key(t) ==> apply(v, r).0.transactions.contains_key(t)
                && apply(v, r).0.transactions[t].operation_type == v.transactions[t].operation_type
                && apply(v, r).0.transactions[t].amount == v.transactions[t].amount,
{
}

proof fn lemma_replay_registry_grows(v: LedgerView, rs: Seq<Record>)
    ensures
        forall|t: u32| #[trigger]
            v.transactions.contains_key(t) ==> replay(v, rs).transactions.contains_key(t),
    decreases rs.len(),
{
    if rs.len() > 0 {
        lemma_replay_registry_grows(v, rs.drop_last());
        lemma_registry_only_grows(replay(v, rs.drop_last()), rs.last());
    }
}

/// Once a deposit or withdrawal has been accepted under an id, any later
/// deposit or withdrawal under that id, from any client and after any
/// records, is refused with `TransactionIdAlreadyUsed` and changes nothing.
pub proof fn lemma_transaction_id_single_use(
    v: LedgerView,
    first: Record,
    between: Seq<Record>,
    again: Record,
)
    requires
        is_money_movement(first.operation),
        apply(v, first).1 is Ok,
        is_money_movement(again.operation),
        again.tx == first.tx,
    ensures
        ({
            let w = replay(apply(v, first).0, between);
            apply(w, again) == (w, Err::<(), Errors>(
                Errors::TransactionIdAlreadyUsed(again.tx, again.operation),
            ))
        }),
{
    lemma_replay_registry_grows(apply(v, first).0, between);
    assert(apply(v, first).0.transactions.contains_key(first.tx));
}

/// Replaying a dispute changes nothing the second time; where the first
/// one was accepted or ignored, the second is ignored too.
pub proof fn lemma_dispute_replay_is_noop(v: LedgerView, d: Record)
    requires
        d.operation == OperationType::Dispute,
    ensures
        apply(apply(v, d).0, d).0 == apply(v, d).0,
        apply(v, d).1 is Ok ==> apply(apply(v, d).0, d).1 is Ok,
{
}

/// A transaction that has been disputed stays marked so, whatever record
/// comes next; a dispute naming it is ignored.
pub proof fn lemma_dispute_latch(v: LedgerView, r: Record, tx: u32)
    requires
        v.transactions.contains_key(tx),
        v.transactions[tx].already_disputed,
    ensures
        apply(v, r).0.transactions.contains_key(tx),
        apply(v, r).0.transactions[tx].already_disputed,
        r.operation == OperationType::Dispute && r.tx == tx ==> apply(v, r) == (v, Ok::<
            (),
            Errors,
        >(())),
{
}

/// A dispute that was resolved or charged back is settled for good: its
/// entry stays settled whatever record comes next, a resolve naming it is
/// an error that changes nothing, and a dispute or chargeback naming it is
/// ignored.
pub proof fn lemma_settled_is_final(v: LedgerView, r: Record, tx: u32)
    requires
        v.transactions.contains_key(tx),
        v.transactions[tx].already_disputed,
        !v.transactions[tx].under_dispute,
    ensures
        apply(v, r).0.transactions[tx].already_disputed,
        !apply(v, r).0.transactions[tx].under_dispute,
        r.tx == tx && r.operation == OperationType::Resolve ==> apply(v, r) == (v, Err::<
            (),
            Errors,
        >(Errors::ResolveOnNonDisputeOperation)),
        r.tx == tx && (r.operation == OperationType::Dispute || r.operation
            == OperationType::Chargeback) ==> apply(v, r) == (v, Ok::<(), Errors>(())),
{
}

/// A dispute, resolve or chargeback naming an unknown transaction is
/// ignored: no error and no change.
pub proof fn lemma_unknown_transaction_ignored(v: LedgerView, r: Record)
    requires
        !v.transactions.contains_key(r.tx),
        !is_money_movement(r.operation),
    ensures
        apply(v, r) == (v, Ok::<(), Errors>(())),
{
}

/// An accepted chargeback of a disputed deposit locks the client's account.
pub proof fn lemma_deposit_chargeback_locks(v: LedgerView, r: Record)
    requires
        r.operation == OperationType::Chargeback,
        v.transactions.contains_key(r.tx),
        v.transactions[r.tx].under_dispute,
        v.transactions[r.tx].operation_type == OperationType::Deposit,
        apply(v, r).1 is Ok,
    ensures
        apply(v, r).0.accounts.contains_key(r.client),
        apply(v, r).0.accounts[r.client].locked,
{
}

/// A chargeback of a disputed withdrawal leaves the lock as it was.
pub proof fn lemma_withdrawal_chargeback_keeps_lock(v: LedgerView, r: Record)
    requires
        r.operation == OperationType::Chargeback,
        v.transactions.contains_key(r.tx),
        v.transactions[r.tx].operation_type == OperationType::Withdrawal,
    ensures
        account_or_new(apply(v, r).0, r.client).locked == account_or_new(v, r.client).locked,
{
}

/// A locked account stays locked whatever record comes next.
pub proof fn lemma_lock_is_permanent(v: LedgerView, r: Record, client: u16)
    requires
        v.accounts.contains_key(client),
        v.accounts[client].locked,
    ensures
        apply(v, r).0.accounts.contains_key(client),
        apply(v, r).0.accounts[client].locked,
{
}

/// On a locked account every deposit and withdrawal is refused, and
/// nothing changes.
pub proof fn lemma_locked_refuses_money_movement(v: LedgerView, r: Record)
    requires
        ledger_inv(v),
        v.accounts.contains_key(r.client),
        v.accounts[r.client].locked,
        is_money_movement(r.operation),
    ensures
        apply(v, r).0 == v,
        apply(v, r).1 is Err,
        !v.transactions.contains_key(r.tx) ==> (r.amount matches Some(a) && a.units() >= 0
            ==> apply(v, r).1 == Err::<(), Errors>(Errors::AccountLocked(r.client))),
{
}

/// A deposit of an amount below zero, under an unused id, is refused with
/// `NegativeAmount`: no account and no entry is created.
pub proof fn lemma_negative_deposit_refused(v: LedgerView, r: Record)
    requires
        r.operation == OperationType::Deposit,
        !v.transactions.contains_key(r.tx),
        r.amount matches Some(a) && a.units() < 0,
    ensures
        apply(v, r) == (v, Err::<(), Errors>(Errors::NegativeAmount)),
{
}

/// Depositing the largest decimal into an unlocked account that already
/// holds the largest decimal fails with `FundsOverflow` and changes nothing.
pub proof fn lemma_deposit_at_maximum_overflows(acct: Account, amount: Amount)
    requires
        !acct.locked,
        acct.available.mantissa == MAX_MANTISSA,
        acct.available.scale == 0,
        amount.mantissa == MAX_MANTISSA,
        amount.scale == 0,
    ensures
        acct.deposit_outcome(amount) == (acct, Err::<(), Errors>(
            Errors::FundsOverflow(acct.client_id),
        )),
{
    let p = pow10(MAX_SCALE as nat);
    lemma_pow10_positive(MAX_SCALE as nat);
    let m = MAX_MANTISSA as int;
    assert(acct.available.units() == m * p);
    assert(amount.units() == m * p);
    assert(m * p + m * p >= (m + 1) * p) by (nonlinear_arith)
        requires
            m >= 1,
            p > 0,
    ;
    assert(beyond_range(acct.available.units() + amount.units()));
    assert(m * p + m * p > m * p) by (nonlinear_arith)
        requires
            m >= 1,
            p > 0,
    ;
    assert(!fits_at(acct.available.units() + amount.units(), 0));
    assert(max_scale(acct.available, amount) == 0);
    assert(sum_of(acct.available, amount) is None);
}

/// A fresh account is in range and holds zero.
proof fn lemma_fresh_account(client: u16)
    ensures
        Account::fresh(client).wf(),
        Account::fresh(client).solvent(),
        Account::fresh(client).available.units() == 0,
        Account::fresh(client).held.units() == 0,
{
    lemma_normalize_zero(MAX_SCALE as int);
}

/// Under the ledger invariant, the account a record works on is in range,
/// not below zero, and filed under the record's client.
proof fn lemma_account_or_new(v: LedgerView, client: u16)
    requires
        ledger_inv(v),
    ensures
        account_or_new(v, client).wf(),
        account_or_new(v, client).solvent(),
        account_or_new(v, client).client_id == client,
{
    lemma_fresh_account(client);
}

/// Dispute then resolve of a deposit gives the account back the values of
/// its available and held funds, exactly, where each of the four steps
/// fits at the larger scale of its operands (where one does not,
/// `rust_decimal` rounds).
pub proof fn lemma_dispute_resolve_round_trip(v: LedgerView, client: u16, tx: u32)
    requires
        ledger_inv(v),
        v.transactions.contains_key(tx),
        v.transactions[tx].operation_type == OperationType::Deposit,
        !v.transactions[tx].already_disputed,
        apply(v, Record { operation: OperationType::Dispute, client, tx, amount: None }).1 is Ok,
        ({
            let a = account_or_new(v, client);
            let x = v.transactions[tx].amount;
            &&& fits_at(a.available.units(), max_scale(a.available, x))
            &&& fits_at(a.held.units(), max_scale(a.held, x))
            &&& fits_at(a.available.units() - x.units(), max_scale(a.available, x))
            &&& fits_at(a.held.units() + x.units(), max_scale(a.held, x))
        }),
    ensures
        ({
            let d = Record { operation: OperationType::Dispute, client, tx, amount: None };
            let r = Record { operation: OperationType::Resolve, client, tx, amount: None };
            let w = apply(apply(v, d).0, r);
            let before = account_or_new(v, client);
            let after = account_or_new(w.0, client);
            &&& w.1 is Ok
            &&& after.available.units() == before.available.units()
            &&& after.held.units() == before.held.units()
            &&& after.locked == before.locked
            &&& w.0.transactions[tx].already_disputed
            &&& !w.0.transactions[tx].under_dispute
        }),
{
    let a = account_or_new(v, client);
    let x = v.transactions[tx].amount;
    lemma_account_or_new(v, client);
    lemma_difference_exact(a.available, x);
    lemma_sum_exact(a.held, x);
    let a1 = canonical(a.available.units() - x.units());
    let h1 = canonical(a.held.units() + x.units());
    lemma_fits_at_smaller_scale(a.available.units(), max_scale(a.available, x), max_scale(a1, x));
    lemma_fits_at_smaller_scale(a.held.units(), max_scale(a.held, x), max_scale(h1, x));
    assert(a1.units() + x.units() == a.available.units());
    assert(h1.units() - x.units() == a.held.units());
    lemma_sum_exact(a1, x);
    lemma_difference_exact(h1, x);
}

/// The client's funds, available and held together, in units of `10^-28`.
pub open spec fn total(v: LedgerView, client: u16) -> int {
    account_or_new(v, client).available.units() + account_or_new(v, client).held.units()
}

/// What the record `r` adds to the funds of `client`, if it is accepted:
/// a deposit its amount, a withdrawal minus its amount, a chargeback of a
/// deposit minus that deposit, a chargeback of a withdrawal that withdrawal.
/// Disputes and resolves only move funds between available and held.
pub open spec fn flow(v: LedgerView, r: Record, client: u16) -> int {
    let e = v.transactions[r.tx];
    if apply(v, r).1 is Ok && r.client == client {
        if r.operation == OperationType::Deposit && r.amount is Some {
            r.amount->0.units()
        } else if r.operation == OperationType::Withdrawal && r.amount is Some {
            -r.amount->0.units()
        } else if r.operation == OperationType::Chargeback && v.transactions.contains_key(r.tx)
            && e.under_dispute {
            if e.operation_type == OperationType::Deposit {
                -e.amount.units()
            } else {
                e.amount.units()
            }
        } else {
            0
        }
    } else {
        0
    }
}

/// What the accepted records of `rs` add to the funds of `client`.
pub open spec fn net_flow(v: LedgerView, rs: Seq<Record>, client: u16) -> int
    decreases rs.len(),
{
    if rs.len() == 0 {
        0
    } else {
        net_flow(v, rs.drop_last(), client) + flow(replay(v, rs.drop_last()), rs.last(), client)
    }
}

/// Where the record is accepted, each sum or difference it makes on a
/// balance fits at the larger scale of its operands, so that `rust_decimal`
/// does not round it.
pub open spec fn exact_step(v: LedgerView, r: Record) -> bool {
    let acct = account_or_new(v, r.client);
    let av = acct.available;
    let h = acct.held;
    let known = v.transactions.contains_key(r.tx);
    let e = v.transactions[r.tx];
    let x = e.amount;
    apply(v, r).1 is Ok ==> match r.operation {
        OperationType::Deposit => r.amount matches Some(a) ==> fits_at(
            av.units() + a.units(),
            max_scale(av, a),
        ),
        OperationType::Withdrawal => r.amount matches Some(a) ==> fits_at(
            av.units() - a.units(),
            max_scale(av, a),
        ),
        OperationType::Dispute => known && !e.already_disputed && e.operation_type
            == OperationType::Deposit ==> fits_at(av.units() - x.units(), max_scale(av, x))
            && fits_at(h.units() + x.units(), max_scale(h, x)),
        OperationType::Resolve => known && e.under_dispute && e.operation_type
            == OperationType::Deposit ==> fits_at(av.units() + x.units(), max_scale(av, x))
            && fits_at(h.units() - x.units(), max_scale(h, x)),
        OperationType::Chargeback => known && e.under_dispute ==> if e.operation_type
            == OperationType::Deposit {
            fits_at(h.units() - x.units(), max_scale(h, x))
        } else {
            fits_at(av.units() + x.units(), max_scale(av, x))
        },
    }
}

proof fn lemma_exact_step(v: LedgerView, r: Record)
    requires
        ledger_inv(v),
        r.amount matches Some(a) ==> a.wf(),
        exact_step(v, r),
    ensures
        ledger_inv(apply(v, r).0),
        forall|c: u16| #[trigger] total(apply(v, r).0, c) == total(v, c) + flow(v, r, c),
{
    lemma_account_or_new(v, r.client);
    let acct = account_or_new(v, r.client);
    let av = acct.available;
    let h = acct.held;
    let known = v.transactions.contains_key(r.tx);
    let e = v.transactions[r.tx];
    let x = e.amount;
    if apply(v, r).1 is Ok {
        match r.operation {
            OperationType::Deposit => {
                if r.amount is Some {
                    lemma_sum_exact(av, r.amount->0);
                }
            },
            OperationType::Withdrawal => {
                if r.amount is Some {
                    lemma_difference_exact(av, r.amount->0);
                }
            },
            OperationType::Dispute => {
                if known && !e.already_disputed && e.operation_type == OperationType::Deposit {
                    lemma_difference_exact(av, x);
                    lemma_sum_exact(h, x);
                }
            },
            OperationType::Resolve => {
                if known && e.under_dispute && e.operation_type == OperationType::Deposit {
                    lemma_sum_exact(av, x);
                    lemma_difference_exact(h, x);
                }
            },
            OperationType::Chargeback => {
                if known && e.under_dispute {
                    if e.operation_type == OperationType::Deposit {
                        lemma_difference_exact(h, x);
                    } else {
                        lemma_sum_exact(av, x);
                    }
                }
            },
        }
        assert forall|c: u16| #[trigger] total(apply(v, r).0, c) == total(v, c) + flow(v, r, c) by {
            if c != r.client {
                assert(account_or_new(apply(v, r).0, c) == account_or_new(v, c));
            }
        }
    }
}

/// Whatever the records, each client's funds (available plus held) change by
/// exactly the accepted deposits, minus the accepted withdrawals, minus the
/// deposits charged back, plus the withdrawals charged back; and no balance
/// falls below zero. This holds where no accepted step is rounded by
/// `rust_decimal`.
pub proof fn lemma_money_conserved(v: LedgerView, rs: Seq<Record>)
    requires
        ledger_inv(v),
        forall|i: int| 0 <= i < rs.len() ==> (#[trigger] rs[i].amount matches Some(a) ==> a.wf()),
        forall|i: int| 0 <= i < rs.len() ==> exact_step(replay(v, rs.take(i)), #[trigger] rs[i]),
    ensures
        ledger_inv(replay(v, rs)),
        forall|c: u16| #[trigger] total(replay(v, rs), c) == total(v, c) + net_flow(v, rs, c),
        forall|c: u16| #[trigger] account_or_new(replay(v, rs), c).solvent(),
    decreases rs.len(),
{
    if rs.len() > 0 {
        let p = rs.drop_last();
        assert forall|i: int| 0 <= i < p.len() implies exact_step(
            replay(v, p.take(i)),
            #[trigger] p[i],
        ) by {
            assert(p.take(i) =~= rs.take(i));
            assert(p[i] == rs[i]);
        }
        assert forall|i: int| 0 <= i < p.len() implies (#[trigger] p[i].amount matches Some(a)
            ==> a.wf()) by {
            assert(p[i] == rs[i]);
        }
        lemma_money_conserved(v, p);
        assert(rs.take(rs.len() - 1) =~= p);
        assert(rs[rs.len() - 1].amount matches Some(a) ==> a.wf());
        assert(exact_step(replay(v, rs.take(rs.len() - 1)), rs[rs.len() - 1]));
        lemma_exact_step(replay(v, p), rs.last());
    }
    assert forall|c: u16| #[trigger] account_or_new(replay(v, rs), c).solvent() by {
        lemma_account_or_new(replay(v, rs), c);
    }
}

/// Nothing is held on any account.
pub open spec fn nothing_held(v: LedgerView) -> bool {
    forall|c: u16| #[trigger] v.accounts.contains_key(c) ==> v.accounts[c].held.units() == 0
}

/// Deposits and withdrawals alone never put funds on hold.
pub proof fn lemma_money_movement_holds_nothing(v: LedgerView, rs: Seq<Record>)
    requires
        nothing_held(v),
        forall|i: int| 0 <= i < rs.len() ==> is_money_movement(#[trigger] rs[i].operation),
    ensures
        nothing_held(replay(v, rs)),
    decreases rs.len(),
{
    if rs.len() > 0 {
        let p = rs.drop_last();
        assert forall|i: int| 0 <= i < p.len() implies is_money_movement(
            #[trigger] p[i].operation,
        ) by {
            assert(p[i] == rs[i]);
        }
        lemma_money_movement_holds_nothing(v, p);
        lemma_fresh_account(rs.last().client);
        assert(is_money_movement(rs[rs.len() - 1].operation));
    }
}

/// No account holds funds below zero.
pub open spec fn all_solvent(v: LedgerView) -> bool {
    forall|c: u16| #[trigger] v.accounts.contains_key(c) ==> v.accounts[c].solvent()
}

/// Whatever the records, from a ledger where no balance is below zero, no
/// balance ever falls below zero.
pub proof fn lemma_funds_never_negative(v: LedgerView, rs: Seq<Record>)
    requires
        all_solvent(v),
    ensures
        all_solvent(replay(v, rs)),
    decreases rs.len(),
{
    if rs.len() > 0 {
        let w = replay(v, rs.drop_last());
        lemma_funds_never_negative(v, rs.drop_last());
        lemma_fresh_account(rs.last().client);
        assert(account_or_new(w, rs.last().client).solvent());
    }
}

/// On one account, dispute then resolve of the same amount gives back the
/// values of the available and held funds exactly, where each of the four
/// steps fits at the larger scale of its operands.
pub proof fn lemma_account_dispute_resolve_round_trip(a: Account, x: Amount)
    requires
        a.wf(),
        a.solvent(),
        x.wf(),
        x.units() >= 0,
        a.dispute_outcome(x).1 is Ok,
        fits_at(a.available.units(), max_scale(a.available, x)),
        fits_at(a.held.units(), max_scale(a.held, x)),
        fits_at(a.available.units() - x.units(), max_scale(a.available, x)),
        fits_at(a.held.units() + x.units(), max_scale(a.held, x)),
    ensures
        ({
            let b = a.dispute_outcome(x).0;
            let c = b.resolve_outcome(x);
            &&& c.1 is Ok
            &&& c.0.available.units() == a.available.units()
            &&& c.0.held.units() == a.held.units()
            &&& c.0.locked == a.locked
            &&& c.0.client_id == a.client_id
        }),
{
    lemma_difference_exact(a.available, x);
    lemma_sum_exact(a.held, x);
    let a1 = canonical(a.available.units() - x.units());
    let h1 = canonical(a.held.units() + x.units());
    lemma_fits_at_smaller_scale(a.available.units(), max_scale(a.available, x), max_scale(a1, x));
    lemma_fits_at_smaller_scale(a.held.units(), max_scale(a.held, x), max_scale(h1, x));
    lemma_sum_exact(a1, x);
    lemma_difference_exact(h1, x);
}

/// A chargeback of at most what is held succeeds where the difference fits
/// at the larger scale: the amount leaves the held funds, the available
/// funds stay, and the account is locked.
pub proof fn lemma_chargeback_within_held(a: Account, x: Amount)
    requires
        a.wf(),
        x.wf(),
        0 <= x.units() <= a.held.units(),
        fits_at(a.held.units() - x.units(), max_scale(a.held, x)),
    ensures
        a.chargeback_outcome(x).1 is Ok,
        a.chargeback_outcome(x).0.held.units() == a.held.units() - x.units(),
        a.chargeback_outcome(x).0.available == a.available,
        a.chargeback_outcome(x).0.locked,
        a.chargeback_outcome(x).0.client_id == a.client_id,
{
    lemma_difference_exact(a.held, x);
}

/// Giving back a withdrawal adds its amount to the available funds, where
/// the sum fits at the larger scale, and never locks.
pub proof fn lemma_chargeback_withdrawal_adds(a: Account, x: Amount)
    requires
        a.wf(),
        x.wf(),
        x.units() >= 0,
        a.available.units() >= 0,
        fits_at(a.available.units() + x.units(), max_scale(a.available, x)),
    ensures
        a.chargeback_withdrawal_outcome(x).1 is Ok,
        a.chargeback_withdrawal_outcome(x).0.available.units() == a.available.units() + x.units(),
        a.chargeback_withdrawal_outcome(x).0.held == a.held,
        a.chargeback_withdrawal_outcome(x).0.locked == a.locked,
        a.chargeback_withdrawal_outcome(x).0.client_id == a.client_id,
{
    lemma_sum_exact(a.available, x);
}

/// Only a successful chargeback locks an account, and nothing unlocks one.
pub proof fn lemma_only_chargeback_locks(a: Account, x: Amount)
    ensures
        a.deposit_outcome(x).0.locked == a.locked,
        a.withdrawal_outcome(x).0.locked == a.locked,
        a.dispute_outcome(x).0.locked == a.locked,
        a.resolve_outcome(x).0.locked == a.locked,
        a.chargeback_withdrawal_outcome(x).0.locked == a.locked,
        a.chargeback_outcome(x).0.locked == (a.locked || a.chargeback_outcome(x).1 is Ok),
{
}

/// Dispute then resolve of a withdrawal moves no money: it only opens and
/// closes the dispute.
pub proof fn lemma_withdrawal_dispute_resolve_moves_nothing(v: LedgerView, client: u16, tx: u32)
    requires
        v.transactions.contains_key(tx),
        v.transactions[tx].operation_type == OperationType::Withdrawal,
        !v.transactions[tx].already_disputed,
    ensures
        ({
            let d = Record { operation: OperationType::Dispute, client, tx, amount: None };
            let r = Record { operation: OperationType::Resolve, client, tx, amount: None };
            let w = apply(apply(v, d).0, r);
            &&& apply(v, d).1 is Ok
            &&& w.1 is Ok
            &&& w.0.accounts == v.accounts
            &&& w.0.transactions[tx].already_disputed
            &&& !w.0.transactions[tx].under_dispute
        }),
{
}

} // verus!
