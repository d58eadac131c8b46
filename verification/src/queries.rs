//! Reading the ledger.

use vstd::prelude::*;

use crate::ledger::{Account, Ledger, LedgerView};
use crate::types::{aborts, check_result, Abort, Address, Fault, LoanRecord, LoanStatus};
use crate::vouches::{stake_overflows, sum_stakes, total_stake};

verus! {

/// Where the borrower's latest loan stands.
pub open spec fn latest_status(l: LedgerView, borrower: Address) -> LoanStatus {
    match l.latest_record(borrower) {
        Some(loan) => loan.status,
        None => LoanStatus::NoLoan,
    }
}

/// Where the borrower's latest loan stands.
pub fn loan_status(ledger: &Ledger, borrower: Address) -> (status: LoanStatus)
    ensures
        status == latest_status(ledger@, borrower),
{
    match ledger.get_latest_loan_record(borrower) {
        None => LoanStatus::NoLoan,
        Some(loan) => loan.status,
    }
}

/// The borrower's latest loan.
pub fn get_loan(ledger: &Ledger, borrower: Address) -> (loan: Option<LoanRecord>)
    ensures
        match loan {
            Some(record) => ledger@.latest_record(borrower) == Some(record@),
            None => ledger@.latest_record(borrower) is None,
        },
{
    match ledger.get_latest_loan_record(borrower) {
        Some(loan) => Some(loan.clone()),
        None => None,
    }
}

/// The loan under an id.
pub fn get_loan_by_id(ledger: &Ledger, loan_id: u64) -> (loan: Option<LoanRecord>)
    ensures
        match loan {
            Some(record) => ledger@.loan(loan_id) == Some(record@),
            None => ledger@.loan(loan_id) is None,
        },
{
    match ledger.loans.get(loan_id) {
        Some(loan) => Some(loan.clone()),
        None => None,
    }
}

/// Whether the eligibility of a borrower turns on their stakes: the threshold
/// is positive and their latest loan is not active.
pub open spec fn stakes_decide(l: LedgerView, borrower: Address, threshold: i128) -> bool {
    threshold > 0 && latest_status(l, borrower) != LoanStatus::Active
}

/// Whether the stakes behind a borrower, in any token, reach a threshold.
pub open spec fn eligible(l: LedgerView, borrower: Address, threshold: i128) -> bool {
    stakes_decide(l, borrower, threshold) && total_stake(l.account(borrower).vouches) >= threshold
}

/// Why the eligibility of a borrower cannot be told.
pub open spec fn eligibility_fault(
    l: LedgerView,
    borrower: Address,
    threshold: i128,
) -> Option<Fault> {
    if stakes_decide(l, borrower, threshold) && stake_overflows(l.account(borrower).vouches) {
        Some(Fault::Abort(Abort::Overflow))
    } else {
        None
    }
}

/// Whether the eligibility of a borrower can be told, and why not.
pub fn check_is_eligible(ledger: &Ledger, borrower: Address, threshold: i128) -> (checked: Result<
    (),
    Fault,
>)
    ensures
        checked == check_result(eligibility_fault(ledger@, borrower, threshold)),
{
    if threshold <= 0 || loan_status(ledger, borrower) == LoanStatus::Active {
        return Ok(());
    }
    let account: Account = ledger.account_of(borrower);
    match sum_stakes(&account.vouches) {
        Some(_) => Ok(()),
        None => Err(Fault::Abort(Abort::Overflow)),
    }
}

/// Whether the stakes behind a borrower, in any token, reach a threshold and
/// the borrower has no active loan.
pub fn is_eligible(ledger: &Ledger, borrower: Address, threshold: i128) -> (yes: bool)
    requires
        !aborts(eligibility_fault(ledger@, borrower, threshold)),
    ensures
        yes == eligible(ledger@, borrower, threshold),
{
    if threshold <= 0 {
        return false;
    }
    if loan_status(ledger, borrower) == LoanStatus::Active {
        return false;
    }
    let account: Account = ledger.account_of(borrower);
    match sum_stakes(&account.vouches) {
        Some(total) => total >= threshold,
        None => false,
    }
}

/// How many loans the borrower has repaid.
pub fn repayment_count(ledger: &Ledger, borrower: Address) -> (count: u32)
    ensures
        count == ledger@.account(borrower).repayment_count,
{
    match ledger.accounts.get(borrower) {
        Some(account) => account.repayment_count,
        None => 0,
    }
}

/// How many loans the borrower has requested.
pub fn loan_count(ledger: &Ledger, borrower: Address) -> (count: u32)
    ensures
        count == ledger@.account(borrower).loan_count,
{
    match ledger.accounts.get(borrower) {
        Some(account) => account.loan_count,
        None => 0,
    }
}

/// How many loans the borrower has not repaid in time.
pub fn default_count(ledger: &Ledger, borrower: Address) -> (count: u32)
    ensures
        count == ledger@.account(borrower).default_count,
{
    match ledger.accounts.get(borrower) {
        Some(account) => account.default_count,
        None => 0,
    }
}

} // verus!
