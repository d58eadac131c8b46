//! How a ledger is read, and what is written to accounts and lists.

use vstd::prelude::*;

use crate::co_borrowers::{co_borrower_fault, co_borrower_ledger};
use crate::collateral::{deposit_effects, deposit_fault, deposit_ledger};
use crate::laws::stakes::{stakes_add_up, stakes_overflow_at_some_vouch};
use crate::ledger::{Account, AccountView, Ledger, LedgerView};
use crate::queries::{eligibility_fault, eligible, latest_status};
use crate::referral::{referral_fault, referral_ledger};
use crate::types::{
    aborts, check_result, Abort, Address, Call, ContractError, Effect, Event, Fault, LoanRecord,
    LoanStatus, LoanView, VouchRecord,
};
use crate::vouches::total_stake;

verus! {

// ---- Reading ----

/// A borrower of whom nothing is stored has no referrer, vouches, loans,
/// defaults or collateral, and is not blacklisted; of any other exactly what is
/// stored is read.
pub proof fn account_is_what_is_stored(l: LedgerView, borrower: Address)
    ensures
        l.accounts.contains_key(borrower) ==> l.account(borrower) == l.accounts[borrower],
        !l.accounts.contains_key(borrower) ==> {
            let account = l.account(borrower);
            &&& account.referred_by is None
            &&& !account.blacklisted
            &&& account.vouches.len() == 0
            &&& account.active_loan is None
            &&& account.latest_loan is None
            &&& account.loan_count == 0
            &&& account.repayment_count == 0
            &&& account.default_count == 0
            &&& account.collateral == 0
            &&& account.collateral_token is None
        },
{
}

/// A loan is found exactly if it is stored under the id: under any id, under
/// the id that an account names as active, and under the one that it names as
/// latest. A borrower has an active loan exactly if the loan under the active
/// id is active, and their status is that of the loan under the latest id.
pub proof fn loans_are_found_under_their_ids(l: LedgerView, borrower: Address, id: u64)
    ensures
        l.loan(id) is Some <==> l.loans.contains_key(id),
        l.loans.contains_key(id) ==> l.loan(id) == Some(l.loans[id]),
        l.account(borrower).active_loan == Some(id) ==> {
            &&& l.active_record(borrower) == l.loan(id)
            &&& l.has_active_loan(borrower) <==> l.loans.contains_key(id) && l.loans[id].status
                == LoanStatus::Active
        },
        l.account(borrower).active_loan is None ==> l.active_record(borrower) is None
            && !l.has_active_loan(borrower),
        l.account(borrower).latest_loan == Some(id) ==> {
            &&& l.latest_record(borrower) == l.loan(id)
            &&& l.loans.contains_key(id) ==> latest_status(l, borrower) == l.loans[id].status
            &&& !l.loans.contains_key(id) ==> latest_status(l, borrower) == LoanStatus::NoLoan
        },
        l.account(borrower).latest_loan is None ==> l.latest_record(borrower) is None
            && latest_status(l, borrower) == LoanStatus::NoLoan,
{
}

/// A view has what the fields of the value have.
pub proof fn views_keep_every_field(ledger: Ledger, account: Account, loan: LoanRecord)
    ensures
        ledger@.settings == ledger.settings,
        ledger@.allowed_tokens == ledger.allowed_tokens@,
        ledger@.loan_counter == ledger.loan_counter,
        ledger@.loans == ledger.loans@,
        ledger@.accounts == ledger.accounts@,
        account@.referred_by == account.referred_by,
        account@.blacklisted == account.blacklisted,
        account@.vouches == account.vouches@,
        account@.active_loan == account.active_loan,
        account@.latest_loan == account.latest_loan,
        account@.loan_count == account.loan_count,
        account@.repayment_count == account.repayment_count,
        account@.default_count == account.default_count,
        account@.collateral == account.collateral,
        account@.collateral_token == account.collateral_token,
        loan@.id == loan.id,
        loan@.borrower == loan.borrower,
        loan@.co_borrowers == loan.co_borrowers@,
        loan@.amount == loan.amount,
        loan@.amount_repaid == loan.amount_repaid,
        loan@.total_yield == loan.total_yield,
        loan@.status == loan.status,
        loan@.created_at == loan.created_at,
        loan@.disbursement_timestamp == loan.disbursement_timestamp,
        loan@.repayment_timestamp == loan.repayment_timestamp,
        loan@.deadline == loan.deadline,
        loan@.loan_purpose == loan.loan_purpose@,
        loan@.token_address == loan.token_address,
        loan@.collateral_amount == loan.collateral_amount,
        loan@.is_refinance == loan.is_refinance,
        loan@.original_loan_id == loan.original_loan_id,
{
}

/// At a positive threshold a borrower whose latest loan is not active, because
/// there is none or because it is repaid or defaulted, is eligible exactly if
/// all the stakes behind them, in whatever token, reach the threshold. Nobody
/// else is.
pub proof fn eligible_exactly_if_stakes_reach_the_threshold(
    l: LedgerView,
    borrower: Address,
    threshold: i128,
)
    ensures
        ({
            let active = l.account(borrower).latest_loan matches Some(id) && l.loans.contains_key(
                id,
            ) && l.loans[id].status == LoanStatus::Active;
            &&& threshold <= 0 ==> !eligible(l, borrower, threshold)
            &&& active ==> !eligible(l, borrower, threshold)
            &&& threshold > 0 && !active ==> (eligible(l, borrower, threshold) <==> total_stake(
                l.account(borrower).vouches,
            ) >= threshold)
        }),
{
}

/// Whether a borrower is eligible can always be told, unless it turns on
/// stakes that do not fit when they are added up in order.
pub proof fn eligibility_can_be_told_unless_stakes_overflow(
    l: LedgerView,
    borrower: Address,
    threshold: i128,
)
    ensures
        ({
            let vouches = l.account(borrower).vouches;
            let active = l.account(borrower).latest_loan matches Some(id) && l.loans.contains_key(
                id,
            ) && l.loans[id].status == LoanStatus::Active;
            let told = eligibility_fault(l, borrower, threshold) is None;
            &&& told <==> threshold <= 0 || active || forall|k: int|
                0 <= k <= vouches.len() ==> i128::MIN <= #[trigger] total_stake(vouches.take(k))
                    <= i128::MAX
            &&& !told ==> eligibility_fault(l, borrower, threshold) == Some(
                Fault::Abort(Abort::Overflow),
            )
        }),
{
    stakes_overflow_at_some_vouch(l.account(borrower).vouches);
}

/// One more vouch with a stake that is not negative, in any token, makes
/// nobody ineligible, and a borrower stays eligible at a lower threshold that
/// is positive.
pub proof fn more_stake_keeps_eligible(
    l: LedgerView,
    borrower: Address,
    threshold: i128,
    vouch: VouchRecord,
    lower: i128,
)
    requires
        eligible(l, borrower, threshold),
        vouch.stake >= 0,
        0 < lower <= threshold,
    ensures
        ({
            let account = l.account(borrower);
            let more = LedgerView {
                accounts: l.accounts.insert(
                    borrower,
                    AccountView { vouches: account.vouches.push(vouch), ..account },
                ),
                ..l
            };
            eligible(more, borrower, lower)
        }),
{
    let vouches = l.account(borrower).vouches;
    stakes_add_up(vouches, seq![vouch], vouch);
    assert(vouches + seq![vouch] =~= vouches.push(vouch));
}

// ---- Answers ----

/// A check answers with the fault that it finds and is passed without one; a
/// call is aborted exactly if its fault is an abort, and of the aborts only
/// stakes below the threshold carry an error.
pub proof fn faults_are_answered_as_they_are(fault: Fault, abort: Abort, error: ContractError)
    ensures
        check_result(None) == Ok::<(), Fault>(()),
        check_result(Some(fault)) == Err::<(), Fault>(fault),
        !aborts(None),
        aborts(Some(Fault::Abort(abort))),
        !aborts(Some(Fault::Refuse(error))),
        abort == Abort::StakeBelowThreshold <==> abort.carries() is Some,
        abort.carries() matches Some(carried) ==> carried == ContractError::InsufficientFunds,
{
}

/// An aborted call says which condition it failed.
pub proof fn aborted_calls_say_why()
    ensures
        Abort::SelfReferral.text() == "borrower cannot refer themselves"@,
        Abort::ReferralWithActiveLoan.text() == "cannot set referral with active loan"@,
        Abort::NonPositiveThreshold.text() == "threshold must be greater than zero"@,
        Abort::ActiveLoanExists.text() == "borrower already has an active loan"@,
        Abort::CollateralRatioExceeded.text() == "loan amount exceeds maximum collateral ratio"@,
        Abort::DeadlinePassed.text() == "loan deadline has passed"@,
        Abort::InvalidPayment.text() == "invalid payment amount"@,
        Abort::YieldExceedsAvailable.text()
            == "yield distribution would exceed available funds"@,
        Abort::RefinanceBelowOutstandingOtherToken.text()
            == "new loan amount must cover outstanding balance when changing tokens"@,
        Abort::RefinanceBelowOutstanding.text()
            == "new loan amount must be at least the outstanding balance"@,
        Abort::NonPositiveCollateral.text() == "collateral amount must be positive"@,
{
}

// ---- Referrals ----

/// A referral is answered for the first of its checks that fails: signature,
/// pause, a borrower who names themselves, an active loan.
pub proof fn referral_is_checked_in_order(
    l: LedgerView,
    call: Call,
    borrower: Address,
    referrer: Address,
)
    ensures
        ({
            let fault = referral_fault(l, call, borrower, referrer);
            let signed = call.signers@.contains(borrower);
            let open = signed && !l.settings.paused;
            let other = open && borrower != referrer;
            let free = other && !(l.active_record(borrower) matches Some(loan) && loan.status
                == LoanStatus::Active);
            &&& fault == Some(Fault::Abort(Abort::Unauthorized)) <==> !signed
            &&& fault == Some(Fault::Refuse(ContractError::ContractPaused)) <==> signed && !open
            &&& fault == Some(Fault::Abort(Abort::SelfReferral)) <==> open && !other
            &&& fault == Some(Fault::Abort(Abort::ReferralWithActiveLoan)) <==> other && !free
            &&& fault is None <==> free
        }),
{
}

/// A referral writes the referrer to the borrower's account and changes nothing
/// else.
pub proof fn referral_writes_the_referrer(l: LedgerView, borrower: Address, referrer: Address)
    ensures
        referral_ledger(l, borrower, referrer) == (LedgerView {
            accounts: l.accounts.insert(
                borrower,
                AccountView { referred_by: Some(referrer), ..l.account(borrower) },
            ),
            ..l
        }),
{
}

// ---- Co-borrowers ----

/// A co-borrower is added exactly if the loan is there and active, its borrower
/// signed, and the address is not on the list; the loan is asked for first,
/// then the signature, the status and the list. That the contract is paused or
/// who signed besides the borrower makes no difference.
pub proof fn co_borrower_is_checked_in_order(
    l: LedgerView,
    call: Call,
    loan_id: u64,
    co_borrower: Address,
)
    ensures
        ({
            let fault = co_borrower_fault(l, call, loan_id, co_borrower);
            let loan = l.loans[loan_id];
            let found = l.loans.contains_key(loan_id);
            let signed = found && call.signers@.contains(loan.borrower);
            let active = signed && loan.status == LoanStatus::Active;
            let fresh = active && forall|i: int|
                0 <= i < loan.co_borrowers.len() ==> #[trigger] loan.co_borrowers[i]
                    != co_borrower;
            &&& fault == Some(Fault::Refuse(ContractError::NoActiveLoan)) <==> !found || signed
                && !active
            &&& fault == Some(Fault::Abort(Abort::Unauthorized)) <==> found && !signed
            &&& fault == Some(Fault::Refuse(ContractError::DuplicateVouch)) <==> active && !fresh
            &&& fault is None <==> fresh
        }),
{
}

/// Adding a co-borrower puts them at the end of the list and changes nothing
/// else.
pub proof fn co_borrower_is_added_last(l: LedgerView, loan_id: u64, co_borrower: Address)
    requires
        l.loans.contains_key(loan_id),
    ensures
        ({
            let loan = l.loans[loan_id];
            let after = co_borrower_ledger(l, loan_id, co_borrower);
            let list = after.loans[loan_id].co_borrowers;
            &&& list == loan.co_borrowers + seq![co_borrower]
            &&& after == (LedgerView {
                loans: l.loans.insert(loan_id, LoanView { co_borrowers: list, ..loan }),
                ..l
            })
        }),
{
    assert(l.loans[loan_id].co_borrowers.push(co_borrower) =~= l.loans[loan_id].co_borrowers
        + seq![co_borrower]);
}

// ---- Collateral ----

/// A deposit is answered for the first of its checks that fails: signature,
/// pause, amount, token, and room for the sum.
pub proof fn deposit_is_checked_in_order(
    l: LedgerView,
    call: Call,
    borrower: Address,
    amount: i128,
    token: Address,
)
    ensures
        ({
            let fault = deposit_fault(l, call, borrower, amount, token);
            let signed = call.signers@.contains(borrower);
            let open = signed && !l.settings.paused;
            let positive = open && amount > 0;
            let allowed = positive && l.allowed_tokens.contains(token);
            let held = allowed && l.account(borrower).collateral + amount <= i128::MAX;
            &&& fault == Some(Fault::Abort(Abort::Unauthorized)) <==> !signed
            &&& fault == Some(Fault::Refuse(ContractError::ContractPaused)) <==> signed && !open
            &&& fault == Some(Fault::Abort(Abort::NonPositiveCollateral)) <==> open && !positive
            &&& fault == Some(Fault::Refuse(ContractError::InvalidToken)) <==> positive && !allowed
            &&& fault == Some(Fault::Abort(Abort::Overflow)) <==> allowed && !held
            &&& fault is None <==> held
        }),
{
}

/// A deposit adds the amount to the collateral, notes its token, and changes
/// nothing else of the ledger; the amount goes from the borrower to the
/// contract in the token, and is announced.
pub proof fn deposit_adds_the_amount(
    l: LedgerView,
    call: Call,
    borrower: Address,
    amount: i128,
    token: Address,
)
    requires
        deposit_fault(l, call, borrower, amount, token) is None,
    ensures
        ({
            let before = l.account(borrower);
            let after = deposit_ledger(l, borrower, amount, token);
            let collateral = after.account(borrower).collateral;
            &&& collateral == before.collateral + amount
            &&& after == (LedgerView {
                accounts: l.accounts.insert(
                    borrower,
                    AccountView { collateral, collateral_token: Some(token), ..before },
                ),
                ..l
            })
        }),
        deposit_effects(call, borrower, amount, token) == seq![
            Effect::Transfer { token, from: borrower, to: call.contract, amount },
            Effect::Publish(Event::CollateralDeposited { borrower, amount, token }),
        ],
{
}

} // verus!
