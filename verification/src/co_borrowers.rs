//! Co-borrowers of a loan.

use vstd::prelude::*;

use crate::ledger::{Ledger, LedgerView};
use crate::types::{
    aborts, answered, check_result, contains_address, Abort, Address, Call, ContractError, Effect,
    Event, Fault, LoanRecord, LoanStatus, LoanView,
};

verus! {

/// Why a co-borrower cannot be added: the first of these checks that fails.
pub open spec fn co_borrower_fault(
    l: LedgerView,
    call: Call,
    loan_id: u64,
    co_borrower: Address,
) -> Option<Fault> {
    match l.loan(loan_id) {
        None => Some(Fault::Refuse(ContractError::NoActiveLoan)),
        Some(loan) => if !call.signed_by(loan.borrower) {
            Some(Fault::Abort(Abort::Unauthorized))
        } else if loan.status != LoanStatus::Active {
            Some(Fault::Refuse(ContractError::NoActiveLoan))
        } else if loan.co_borrowers.contains(co_borrower) {
            Some(Fault::Refuse(ContractError::DuplicateVouch))
        } else {
            None
        },
    }
}

/// The ledger after a co-borrower has been added.
pub open spec fn co_borrower_ledger(
    l: LedgerView,
    loan_id: u64,
    co_borrower: Address,
) -> LedgerView {
    let loan = l.loans[loan_id];
    l.with_loan(
        loan_id,
        LoanView { co_borrowers: loan.co_borrowers.push(co_borrower), ..loan },
    )
}

/// Whether a co-borrower can be added, and why not.
pub fn check_add_co_borrower(
    ledger: &Ledger,
    call: &Call,
    loan_id: u64,
    co_borrower: Address,
) -> (checked: Result<(), Fault>)
    ensures
        checked == check_result(co_borrower_fault(ledger@, *call, loan_id, co_borrower)),
{
    let loan: &LoanRecord = match ledger.loans.get(loan_id) {
        Some(loan) => loan,
        None => {
            return Err(Fault::Refuse(ContractError::NoActiveLoan));
        },
    };
    if !call.has_signed(loan.borrower) {
        return Err(Fault::Abort(Abort::Unauthorized));
    }
    if loan.status != LoanStatus::Active {
        return Err(Fault::Refuse(ContractError::NoActiveLoan));
    }
    if contains_address(&loan.co_borrowers, co_borrower) {
        return Err(Fault::Refuse(ContractError::DuplicateVouch));
    }
    Ok(())
}

/// Adds a co-borrower to an active loan. Only the borrower of the loan can.
pub fn add_co_borrower(
    ledger: &mut Ledger,
    call: &Call,
    loan_id: u64,
    co_borrower: Address,
) -> (answer: Result<Vec<Effect>, ContractError>)
    requires
        !aborts(co_borrower_fault(old(ledger)@, *call, loan_id, co_borrower)),
    ensures
        match answer {
            Ok(effects) => {
                &&& co_borrower_fault(old(ledger)@, *call, loan_id, co_borrower) is None
                &&& final(ledger)@ == co_borrower_ledger(old(ledger)@, loan_id, co_borrower)
                &&& effects@ == seq![
                    Effect::Publish(Event::CoBorrowerAdded { loan_id, co_borrower }),
                ]
            },
            Err(error) => {
                &&& co_borrower_fault(old(ledger)@, *call, loan_id, co_borrower) == Some(
                    Fault::Refuse(error),
                )
                &&& final(ledger)@ == old(ledger)@
            },
        },
{
    match answered(check_add_co_borrower(ledger, call, loan_id, co_borrower)) {
        Ok(_) => {},
        Err(error) => {
            return Err(error);
        },
    }
    let mut loan: LoanRecord = match ledger.loans.get(loan_id) {
        Some(loan) => loan.clone(),
        None => {
            return Err(ContractError::NoActiveLoan);
        },
    };
    loan.co_borrowers.push(co_borrower);
    ledger.loans.set(loan_id, loan);
    let mut effects: Vec<Effect> = Vec::new();
    effects.push(Effect::Publish(Event::CoBorrowerAdded { loan_id, co_borrower }));
    Ok(effects)
}

} // verus!
