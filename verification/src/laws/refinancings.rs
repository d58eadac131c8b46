//! What a refinancing is answered, and what it does.

use vstd::prelude::*;

use crate::arith::{fits, quotient, quotient_rounds_towards_zero};
use crate::laws::stakes::stakes_overflow_at_some_vouch;
use crate::ledger::{AccountView, LedgerView};
use crate::refinance::{
    refinance_effects, refinance_fault, refinance_ledger, replacement_purpose,
};
use crate::types::{Abort, Address, Call, ContractError, Effect, Event, Fault, LoanStatus, LoanView};
use crate::vouches::{backing, stake_overflows, total_stake};

verus! {

/// A refinancing goes through exactly if it is signed by the borrower of an
/// active loan while the contract is not paused; the new token is allowed,
/// whether or not it is the old one; the new amount is not below the smallest
/// loan, is held by the contract and covers what is still to be paid; the
/// stakes in the new token reach the new threshold, which is positive; and
/// every number fits its type.
pub proof fn refinancing_goes_through_exactly_if_backed(
    l: LedgerView,
    call: Call,
    borrower: Address,
    new_amount: i128,
    new_threshold: i128,
    new_token: Address,
    balance: i128,
)
    ensures
        ({
            let config = l.settings.config;
            let stakes = backing(l.account(borrower).vouches, new_token);
            refinance_fault(l, call, borrower, new_amount, new_threshold, new_token, balance)
                is None <==> {
                &&& call.signers@.contains(borrower)
                &&& !l.settings.paused
                &&& l.active_record(borrower) matches Some(old_loan) && {
                    let owed = old_loan.amount + old_loan.total_yield;
                    &&& old_loan.status == LoanStatus::Active
                    &&& i128::MIN <= owed <= i128::MAX
                    &&& i128::MIN <= owed - old_loan.amount_repaid <= new_amount
                }
                &&& config.min_loan_amount <= new_amount <= balance
                &&& l.allowed_tokens.contains(new_token)
                &&& 0 < new_threshold <= total_stake(stakes)
                &&& forall|k: int|
                    0 <= k <= stakes.len() ==> i128::MIN <= #[trigger] total_stake(stakes.take(k))
                        <= i128::MAX
                &&& call.timestamp + config.loan_duration <= u64::MAX
                &&& l.loan_counter < u64::MAX
                &&& i128::MIN <= new_amount * config.yield_bps <= i128::MAX
            }
        }),
{
    stakes_overflow_at_some_vouch(backing(l.account(borrower).vouches, new_token));
}

/// A refinancing is answered for the first of its checks that fails, in this
/// order: signature, pause, active loan, smallest amount, threshold, token, sum
/// of the stakes, stakes against the threshold, balance, amount against what is
/// still to be paid. Whatever else stops it is a number that does not fit its
/// type.
pub proof fn refinancing_is_checked_in_order(
    l: LedgerView,
    call: Call,
    borrower: Address,
    new_amount: i128,
    new_threshold: i128,
    new_token: Address,
    balance: i128,
)
    ensures
        ({
            let fault = refinance_fault(
                l,
                call,
                borrower,
                new_amount,
                new_threshold,
                new_token,
                balance,
            );
            let old_loan = l.active_record(borrower)->0;
            let owed = old_loan.amount + old_loan.total_yield;
            let rest = owed - old_loan.amount_repaid;
            let stakes = backing(l.account(borrower).vouches, new_token);
            let signed = call.signers@.contains(borrower);
            let open = signed && !l.settings.paused;
            let active = open && (l.active_record(borrower) matches Some(loan) && loan.status
                == LoanStatus::Active);
            let enough = active && l.settings.config.min_loan_amount <= new_amount;
            let positive = enough && new_threshold > 0;
            let allowed = positive && l.allowed_tokens.contains(new_token);
            let summed = allowed && !stake_overflows(stakes);
            let backed = summed && new_threshold <= total_stake(stakes);
            let funded = backed && new_amount <= balance;
            let counted = funded && i128::MIN <= owed <= i128::MAX && i128::MIN <= rest
                <= i128::MAX;
            let covered = counted && rest <= new_amount;
            &&& fault == Some(Fault::Abort(Abort::Unauthorized)) <==> !signed
            &&& fault == Some(Fault::Refuse(ContractError::ContractPaused)) <==> signed && !open
            &&& fault == Some(Fault::Refuse(ContractError::NoActiveLoan)) <==> open && !active
            &&& fault == Some(Fault::Refuse(ContractError::LoanBelowMinAmount)) <==> active
                && !enough
            &&& fault == Some(Fault::Abort(Abort::NonPositiveThreshold)) <==> enough && !positive
            &&& fault == Some(Fault::Refuse(ContractError::InvalidToken)) <==> positive && !allowed
            &&& fault == Some(Fault::Refuse(ContractError::StakeOverflow)) <==> allowed && !summed
            &&& fault == Some(Fault::Abort(Abort::StakeBelowThreshold)) <==> summed && !backed
            &&& fault == Some(Fault::Refuse(ContractError::InsufficientFunds)) <==> backed
                && !funded
            &&& fault == Some(Fault::Abort(Abort::RefinanceBelowOutstandingOtherToken)) <==> counted
                && !covered && new_token != old_loan.token_address
            &&& fault == Some(Fault::Abort(Abort::RefinanceBelowOutstanding)) <==> counted
                && !covered && new_token == old_loan.token_address
            &&& funded && !counted ==> fault == Some(Fault::Abort(Abort::Overflow))
            &&& covered && fault is Some ==> fault == Some(Fault::Abort(Abort::Overflow))
        }),
{
}

/// A refinancing that goes through is backed whatever token the old loan is
/// in: the threshold is positive and the stakes in the new token reach it.
pub proof fn refinanced_loan_is_backed(
    l: LedgerView,
    call: Call,
    borrower: Address,
    new_amount: i128,
    new_threshold: i128,
    new_token: Address,
    balance: i128,
)
    requires
        refinance_fault(l, call, borrower, new_amount, new_threshold, new_token, balance) is None,
    ensures
        0 < new_threshold <= total_stake(backing(l.account(borrower).vouches, new_token)),
        l.settings.config.min_loan_amount <= new_amount <= balance,
        l.allowed_tokens.contains(new_token),
        call.signers@.contains(borrower),
        !l.settings.paused,
        l.active_record(borrower) matches Some(old_loan) && old_loan.status == LoanStatus::Active
            && old_loan.amount + old_loan.total_yield - old_loan.amount_repaid <= new_amount,
{
    refinancing_goes_through_exactly_if_backed(
        l,
        call,
        borrower,
        new_amount,
        new_threshold,
        new_token,
        balance,
    );
}

/// A refinancing closes the old loan at the time of the call as repaid in full
/// and records one active loan on new terms under the next id, which names the
/// old one and which the borrower's account names as active and latest. Nothing
/// else of the ledger changes, not even the counts of the account.
pub proof fn refinancing_changes_two_loans_and_the_account(
    l: LedgerView,
    call: Call,
    borrower: Address,
    new_amount: i128,
    new_threshold: i128,
    new_token: Address,
    balance: i128,
)
    requires
        refinance_fault(l, call, borrower, new_amount, new_threshold, new_token, balance) is None,
        l.active_record(borrower)->0.id <= l.loan_counter,
    ensures
        ({
            let now = call.timestamp;
            let old_loan = l.active_record(borrower)->0;
            let after = refinance_ledger(l, now, borrower, new_amount, new_token);
            let id = after.loan_counter;
            let closed = after.loans[old_loan.id];
            let loan = after.loans[id];
            let product = new_amount * l.settings.config.yield_bps;
            &&& id == l.loan_counter + 1
            &&& after.loans == l.loans.insert(old_loan.id, closed).insert(id, loan)
            &&& closed.amount_repaid == old_loan.amount + old_loan.total_yield
            &&& closed == (LoanView {
                amount_repaid: closed.amount_repaid,
                status: LoanStatus::Repaid,
                repayment_timestamp: Some(now),
                ..old_loan
            })
            &&& loan.deadline == now + l.settings.config.loan_duration
            &&& loan.total_yield == quotient(product, 10_000)
            &&& product >= 0 ==> loan.total_yield * 10_000 <= product < (loan.total_yield + 1)
                * 10_000
            &&& loan == (LoanView {
                id,
                borrower,
                co_borrowers: Seq::empty(),
                amount: new_amount,
                amount_repaid: 0,
                total_yield: loan.total_yield,
                status: LoanStatus::Active,
                created_at: now,
                disbursement_timestamp: now,
                repayment_timestamp: None,
                deadline: loan.deadline,
                loan_purpose: loan.loan_purpose,
                token_address: new_token,
                collateral_amount: 0,
                is_refinance: true,
                original_loan_id: Some(old_loan.id),
            })
            &&& loan.loan_purpose.len() == "refinanced"@.len()
            &&& forall|i: int|
                0 <= i < loan.loan_purpose.len() ==> #[trigger] loan.loan_purpose[i] as int
                    == "refinanced"@[i] as int
            &&& after.accounts == l.accounts.insert(
                borrower,
                AccountView {
                    active_loan: Some(id),
                    latest_loan: Some(id),
                    ..l.account(borrower)
                },
            )
            &&& after.settings == l.settings
            &&& after.allowed_tokens == l.allowed_tokens
        }),
{
    let product = new_amount * l.settings.config.yield_bps;
    quotient_rounds_towards_zero(product, 10_000);
    assert(fits(quotient(product, 10_000)));
    lemma_purpose();
}

/// The purpose of a loan that replaces another is the text "refinanced".
proof fn lemma_purpose()
    ensures
        replacement_purpose().len() == "refinanced"@.len(),
        forall|i: int|
            0 <= i < replacement_purpose().len() ==> #[trigger] replacement_purpose()[i] as int
                == "refinanced"@[i] as int,
{
    reveal_strlit("refinanced");
}

/// A refinancing sends the new amount, in the new token, from the contract to
/// the borrower, takes what is still to be paid, in the old token, back from
/// them, announces that, and does nothing else.
pub proof fn refinancing_moves_both_amounts(
    l: LedgerView,
    call: Call,
    borrower: Address,
    new_amount: i128,
    new_threshold: i128,
    new_token: Address,
    balance: i128,
    rest: i128,
    loan_id: u64,
)
    requires
        refinance_fault(l, call, borrower, new_amount, new_threshold, new_token, balance) is None,
        ({
            let old_loan = l.active_record(borrower)->0;
            &&& rest == old_loan.amount + old_loan.total_yield - old_loan.amount_repaid
            &&& loan_id == l.loan_counter + 1
        }),
    ensures
        ({
            let old_loan = l.active_record(borrower)->0;
            refinance_effects(l, call, borrower, new_amount, new_token) == seq![
                Effect::Transfer {
                    token: new_token,
                    from: call.contract,
                    to: borrower,
                    amount: new_amount,
                },
                Effect::Transfer {
                    token: old_loan.token_address,
                    from: borrower,
                    to: call.contract,
                    amount: rest,
                },
                Effect::Publish(
                    Event::LoanRefinanced {
                        borrower,
                        amount: new_amount,
                        old_loan_id: old_loan.id,
                        loan_id,
                    },
                ),
            ]
        }),
{
}

} // verus!
