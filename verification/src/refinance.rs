//! Replacing an active loan by one on new terms.

use vstd::prelude::*;

use crate::arith::fits;
use crate::ledger::{Account, AccountView, Ledger, LedgerView};
use crate::request::{disbursed_loan, record_loan, terms_fit, terms_overflow, with_new_loan};
use crate::types::{
    aborts, answered, check_result, Abort, Address, Call, ContractError, Effect, Event, Fault,
    LoanRecord, LoanStatus, LoanView,
};
use crate::vouches::{backing, stake_overflows, sum_stakes, total_stake, vouches_in_token};

verus! {

/// Why a loan cannot be replaced by one of the amount in the token: the first
/// of these checks that fails.
pub open spec fn replacement_fault(
    l: LedgerView,
    old_loan: LoanView,
    now: u64,
    borrower: Address,
    new_amount: i128,
    new_threshold: i128,
    new_token: Address,
    balance: i128,
) -> Option<Fault> {
    let stakes = backing(l.account(borrower).vouches, new_token);
    if old_loan.status != LoanStatus::Active {
        Some(Fault::Refuse(ContractError::NoActiveLoan))
    } else if new_amount < l.settings.config.min_loan_amount {
        Some(Fault::Refuse(ContractError::LoanBelowMinAmount))
    } else if new_threshold <= 0 {
        Some(Fault::Abort(Abort::NonPositiveThreshold))
    } else if !l.allows(new_token) {
        Some(Fault::Refuse(ContractError::InvalidToken))
    } else if stake_overflows(stakes) {
        Some(Fault::Refuse(ContractError::StakeOverflow))
    } else if total_stake(stakes) < new_threshold {
        Some(Fault::Abort(Abort::StakeBelowThreshold))
    } else if balance < new_amount {
        Some(Fault::Refuse(ContractError::InsufficientFunds))
    } else if !fits(old_loan.owed()) || !fits(old_loan.outstanding()) {
        Some(Fault::Abort(Abort::Overflow))
    } else if new_amount < old_loan.outstanding() {
        if new_token != old_loan.token_address {
            Some(Fault::Abort(Abort::RefinanceBelowOutstandingOtherToken))
        } else {
            Some(Fault::Abort(Abort::RefinanceBelowOutstanding))
        }
    } else if terms_overflow(l, now, new_amount) {
        Some(Fault::Abort(Abort::Overflow))
    } else {
        None
    }
}

/// Why a refinancing does not go through.
pub open spec fn refinance_fault(
    l: LedgerView,
    call: Call,
    borrower: Address,
    new_amount: i128,
    new_threshold: i128,
    new_token: Address,
    balance: i128,
) -> Option<Fault> {
    if !call.signed_by(borrower) {
        Some(Fault::Abort(Abort::Unauthorized))
    } else if l.settings.paused {
        Some(Fault::Refuse(ContractError::ContractPaused))
    } else {
        match l.active_record(borrower) {
            None => Some(Fault::Refuse(ContractError::NoActiveLoan)),
            Some(old_loan) => replacement_fault(
                l,
                old_loan,
                call.timestamp,
                borrower,
                new_amount,
                new_threshold,
                new_token,
                balance,
            ),
        }
    }
}

/// A loan after it has been replaced: repaid in full.
pub open spec fn replaced_loan(loan: LoanView, now: u64) -> LoanView {
    LoanView {
        status: LoanStatus::Repaid,
        repayment_timestamp: Some(now),
        amount_repaid: loan.owed() as i128,
        ..loan
    }
}

/// What a loan that replaces another is for: the text "refinanced", in ASCII.
pub open spec fn replacement_purpose() -> Seq<u8> {
    seq![0x72u8, 0x65, 0x66, 0x69, 0x6e, 0x61, 0x6e, 0x63, 0x65, 0x64]
}

/// The loan that replaces another.
pub open spec fn replacement_loan(
    l: LedgerView,
    now: u64,
    borrower: Address,
    new_amount: i128,
    new_token: Address,
) -> LoanView {
    disbursed_loan(
        l,
        now,
        borrower,
        new_amount,
        replacement_purpose(),
        new_token,
        Some(l.active_record(borrower)->0.id),
    )
}

/// The ledger after a refinancing that goes through.
pub open spec fn refinance_ledger(
    l: LedgerView,
    now: u64,
    borrower: Address,
    new_amount: i128,
    new_token: Address,
) -> LedgerView {
    let old_loan = l.active_record(borrower)->0;
    let new_loan = replacement_loan(l, now, borrower, new_amount, new_token);
    with_new_loan(l.with_loan(old_loan.id, replaced_loan(old_loan, now)), new_loan).with_account(
        borrower,
        AccountView {
            active_loan: Some(new_loan.id),
            latest_loan: Some(new_loan.id),
            ..l.account(borrower)
        },
    )
}

/// What the host carries out for a refinancing that goes through: the new
/// loan is disbursed, and the old one is repaid with the proceeds.
pub open spec fn refinance_effects(
    l: LedgerView,
    call: Call,
    borrower: Address,
    new_amount: i128,
    new_token: Address,
) -> Seq<Effect> {
    let old_loan = l.active_record(borrower)->0;
    seq![
        Effect::Transfer {
            token: new_token,
            from: call.contract,
            to: borrower,
            amount: new_amount,
        },
        Effect::Transfer {
            token: old_loan.token_address,
            from: borrower,
            to: call.contract,
            amount: old_loan.outstanding() as i128,
        },
        Effect::Publish(
            Event::LoanRefinanced {
                borrower,
                amount: new_amount,
                old_loan_id: old_loan.id,
                loan_id: (l.loan_counter + 1) as u64,
            },
        ),
    ]
}

/// What a loan that replaces another is for, in ASCII.
fn refinanced() -> (purpose: Vec<u8>)
    ensures
        purpose@ == replacement_purpose(),
{
    vec![0x72, 0x65, 0x66, 0x69, 0x6e, 0x61, 0x6e, 0x63, 0x65, 0x64]
}

/// Whether a refinancing goes through, and why not.
pub fn check_refinance_loan(
    ledger: &Ledger,
    call: &Call,
    borrower: Address,
    new_amount: i128,
    new_threshold: i128,
    new_token: Address,
    balance: i128,
) -> (checked: Result<(), Fault>)
    ensures
        checked == check_result(
            refinance_fault(
                ledger@,
                *call,
                borrower,
                new_amount,
                new_threshold,
                new_token,
                balance,
            ),
        ),
{
    if !call.has_signed(borrower) {
        return Err(Fault::Abort(Abort::Unauthorized));
    }
    match ledger.require_not_paused() {
        Ok(_) => {},
        Err(error) => {
            return Err(Fault::Refuse(error));
        },
    }
    let old_loan: &LoanRecord = match ledger.get_active_loan_record(borrower) {
        Ok(loan) => loan,
        Err(error) => {
            return Err(Fault::Refuse(error));
        },
    };
    if old_loan.status != LoanStatus::Active {
        return Err(Fault::Refuse(ContractError::NoActiveLoan));
    }
    if new_amount < ledger.settings.config.min_loan_amount {
        return Err(Fault::Refuse(ContractError::LoanBelowMinAmount));
    }
    if new_threshold <= 0 {
        return Err(Fault::Abort(Abort::NonPositiveThreshold));
    }
    match ledger.require_allowed_token(new_token) {
        Ok(_) => {},
        Err(error) => {
            return Err(Fault::Refuse(error));
        },
    }
    let account: Account = ledger.account_of(borrower);
    let stakes = vouches_in_token(&account.vouches, new_token);
    let stake: i128 = match sum_stakes(&stakes) {
        Some(sum) => sum,
        None => {
            return Err(Fault::Refuse(ContractError::StakeOverflow));
        },
    };
    if stake < new_threshold {
        return Err(Fault::Abort(Abort::StakeBelowThreshold));
    }
    if balance < new_amount {
        return Err(Fault::Refuse(ContractError::InsufficientFunds));
    }
    let outstanding: i128 = match old_loan.amount.checked_add(old_loan.total_yield) {
        Some(owed) => match owed.checked_sub(old_loan.amount_repaid) {
            Some(outstanding) => outstanding,
            None => {
                return Err(Fault::Abort(Abort::Overflow));
            },
        },
        None => {
            return Err(Fault::Abort(Abort::Overflow));
        },
    };
    if new_amount < outstanding {
        if new_token != old_loan.token_address {
            return Err(Fault::Abort(Abort::RefinanceBelowOutstandingOtherToken));
        }
        return Err(Fault::Abort(Abort::RefinanceBelowOutstanding));
    }
    if !terms_fit(ledger, call.timestamp, new_amount) {
        return Err(Fault::Abort(Abort::Overflow));
    }
    Ok(())
}

/// Replaces the borrower's active loan by one on new terms. The old loan is
/// repaid with proceeds from the new one: the new amount goes to the borrower,
/// and the outstanding balance comes back from them. The new loan names the
/// old one. `balance` is what the contract holds of the new token.
pub fn refinance_loan(
    ledger: &mut Ledger,
    call: &Call,
    borrower: Address,
    new_amount: i128,
    new_threshold: i128,
    new_token: Address,
    balance: i128,
) -> (answer: Result<Vec<Effect>, ContractError>)
    requires
        !aborts(
            refinance_fault(
                old(ledger)@,
                *call,
                borrower,
                new_amount,
                new_threshold,
                new_token,
                balance,
            ),
        ),
    ensures
        match answer {
            Ok(effects) => {
                &&& refinance_fault(
                    old(ledger)@,
                    *call,
                    borrower,
                    new_amount,
                    new_threshold,
                    new_token,
                    balance,
                ) is None
                &&& final(ledger)@ == refinance_ledger(
                    old(ledger)@,
                    call.timestamp,
                    borrower,
                    new_amount,
                    new_token,
                )
                &&& effects@ == refinance_effects(
                    old(ledger)@,
                    *call,
                    borrower,
                    new_amount,
                    new_token,
                )
            },
            Err(error) => {
                &&& refinance_fault(
                    old(ledger)@,
                    *call,
                    borrower,
                    new_amount,
                    new_threshold,
                    new_token,
                    balance,
                ) == Some(Fault::Refuse(error))
                &&& final(ledger)@ == old(ledger)@
            },
        },
{
    match answered(
        check_refinance_loan(
            ledger,
            call,
            borrower,
            new_amount,
            new_threshold,
            new_token,
            balance,
        ),
    ) {
        Ok(_) => {},
        Err(error) => {
            return Err(error);
        },
    }
    let now: u64 = call.timestamp;
    let mut account: Account = ledger.account_of(borrower);
    let mut old_loan: LoanRecord = match ledger.get_active_loan_record(borrower) {
        Ok(loan) => loan.clone(),
        Err(error) => {
            return Err(error);
        },
    };
    let old_loan_id: u64 = old_loan.id;
    let old_token: Address = old_loan.token_address;
    let owed: i128 = old_loan.amount + old_loan.total_yield;
    let outstanding: i128 = owed - old_loan.amount_repaid;
    let ghost old_view = old_loan@;

    old_loan.status = LoanStatus::Repaid;
    old_loan.repayment_timestamp = Some(now);
    old_loan.amount_repaid = owed;
    assert(old_loan@ =~= replaced_loan(old_view, now));
    ledger.loans.set(old_loan_id, old_loan);

    let loan_id: u64 = record_loan(
        ledger,
        now,
        borrower,
        new_amount,
        refinanced(),
        new_token,
        Some(old_loan_id),
    );
    account.active_loan = Some(loan_id);
    account.latest_loan = Some(loan_id);
    ledger.accounts.set(borrower, account);

    let mut effects: Vec<Effect> = Vec::new();
    effects.push(
        Effect::Transfer {
            token: new_token,
            from: call.contract,
            to: borrower,
            amount: new_amount,
        },
    );
    effects.push(
        Effect::Transfer {
            token: old_token,
            from: borrower,
            to: call.contract,
            amount: outstanding,
        },
    );
    effects.push(
        Effect::Publish(
            Event::LoanRefinanced { borrower, amount: new_amount, old_loan_id, loan_id },
        ),
    );
    Ok(effects)
}

} // verus!
