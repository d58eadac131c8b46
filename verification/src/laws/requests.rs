//! What a request is answered, and what it does.

use vstd::prelude::*;

use crate::arith::{fits, quotient, quotient_rounds_towards_zero};
use crate::laws::stakes::{
    all_old_enough, stakes_overflow_at_some_vouch, vouches_have_to_reach_the_age,
};
use crate::ledger::{AccountView, Config, LedgerView, Settings};
use crate::request::{
    max_allowed_loan, request_effects, request_fault, request_ledger, terms_overflow,
};
use crate::types::{Abort, Address, Call, ContractError, Effect, Event, Fault, LoanStatus, LoanView};
use crate::vouches::{age_fault, backing, stake_overflows, total_stake};

verus! {

/// The stakes carry an amount exactly if a hundred times the amount is no more
/// than the stakes times the ratio.
proof fn lemma_ratio(l: LedgerView, amount: int, stake: int)
    requires
        stake > 0,
    ensures
        0 <= stake * l.settings.config.max_loan_to_stake_ratio,
        amount <= max_allowed_loan(l, stake) <==> amount * 100 <= stake
            * l.settings.config.max_loan_to_stake_ratio,
{
    let ratio = l.settings.config.max_loan_to_stake_ratio as int;
    assert(0 <= stake * ratio) by (nonlinear_arith)
        requires
            stake > 0,
            ratio >= 0,
    ;
    quotient_rounds_towards_zero(stake * ratio, 100);
}

/// The deadline, the id and the yield of a loan have to fit their types.
proof fn lemma_terms(l: LedgerView, now: u64, amount: i128)
    ensures
        !terms_overflow(l, now, amount) <==> {
            &&& now + l.settings.config.loan_duration <= u64::MAX
            &&& l.loan_counter < u64::MAX
            &&& i128::MIN <= amount * l.settings.config.yield_bps <= i128::MAX
        },
{
}

/// A request is granted exactly if it is signed by the borrower while the
/// contract is not paused; the borrower is not blacklisted and has no active
/// loan; the token is allowed; the amount is between the limits and held by the
/// contract; the stakes in the token reach the threshold, come from enough
/// vouchers of some age, and, times the ratio, reach a hundred times the
/// amount; there is collateral after too many defaults; and every number fits
/// its type.
pub proof fn request_is_granted_exactly_if_backed(
    l: LedgerView,
    call: Call,
    borrower: Address,
    amount: i128,
    threshold: i128,
    token: Address,
    balance: i128,
)
    ensures
        ({
            let account = l.account(borrower);
            let config = l.settings.config;
            let stakes = backing(account.vouches, token);
            let stake = total_stake(stakes);
            request_fault(l, call, borrower, amount, threshold, token, balance) is None <==> {
                &&& call.signers@.contains(borrower)
                &&& !l.settings.paused
                &&& !account.blacklisted
                &&& !(l.active_record(borrower) matches Some(loan) && loan.status
                    == LoanStatus::Active)
                &&& l.allowed_tokens.contains(token)
                &&& config.min_loan_amount <= amount <= balance
                &&& l.settings.max_loan_amount > 0 ==> amount <= l.settings.max_loan_amount
                &&& 0 < threshold <= stake
                &&& stakes.len() >= l.settings.min_vouchers
                &&& forall|i: int|
                    0 <= i < stakes.len() ==> (#[trigger] stakes[i]).vouch_timestamp
                        + l.settings.min_vouch_age <= call.timestamp
                &&& amount * 100 <= stake * config.max_loan_to_stake_ratio
                &&& account.default_count > l.settings.default_threshold ==> account.collateral > 0
                &&& forall|k: int|
                    0 <= k <= stakes.len() ==> i128::MIN <= #[trigger] total_stake(stakes.take(k))
                        <= i128::MAX
                &&& stake * config.max_loan_to_stake_ratio <= i128::MAX
                &&& call.timestamp + config.loan_duration <= u64::MAX
                &&& l.loan_counter < u64::MAX
                &&& i128::MIN <= amount * config.yield_bps <= i128::MAX
                &&& account.loan_count < u32::MAX
            }
        }),
{
    let stakes = backing(l.account(borrower).vouches, token);
    stakes_overflow_at_some_vouch(stakes);
    vouches_have_to_reach_the_age(stakes, call.timestamp, l.settings.min_vouch_age);
    if total_stake(stakes) > 0 {
        lemma_ratio(l, amount as int, total_stake(stakes));
    }
    lemma_terms(l, call.timestamp, amount);
}

/// A request is answered for the first of its checks that fails, in this
/// order: signature, pause, blacklist, token, smallest amount, threshold,
/// largest amount, active loan, sum of the stakes, stakes against the
/// threshold, number of vouchers, age of the vouches, ratio, balance,
/// collateral. Whatever else stops it is a number that does not fit its type.
pub proof fn request_is_checked_in_order(
    l: LedgerView,
    call: Call,
    borrower: Address,
    amount: i128,
    threshold: i128,
    token: Address,
    balance: i128,
)
    ensures
        ({
            let fault = request_fault(l, call, borrower, amount, threshold, token, balance);
            let account = l.account(borrower);
            let config = l.settings.config;
            let cap = l.settings.max_loan_amount;
            let stakes = backing(account.vouches, token);
            let stake = total_stake(stakes);
            let allowance = stake * config.max_loan_to_stake_ratio;
            let age = age_fault(stakes, call.timestamp, l.settings.min_vouch_age);
            let signed = call.signers@.contains(borrower);
            let open = signed && !l.settings.paused;
            let clear = open && !account.blacklisted;
            let allowed = clear && l.allowed_tokens.contains(token);
            let enough = allowed && config.min_loan_amount <= amount;
            let positive = enough && threshold > 0;
            let capped = positive && (cap <= 0 || amount <= cap);
            let free = capped && !(l.active_record(borrower) matches Some(loan) && loan.status
                == LoanStatus::Active);
            let summed = free && !stake_overflows(stakes);
            let backed = summed && threshold <= stake;
            let vouched = backed && l.settings.min_vouchers <= stakes.len();
            let aged = vouched && all_old_enough(
                stakes,
                call.timestamp,
                l.settings.min_vouch_age,
            );
            let weighed = aged && allowance <= i128::MAX;
            let carried = weighed && amount * 100 <= allowance;
            let funded = carried && amount <= balance;
            let secured = funded && (account.default_count <= l.settings.default_threshold
                || account.collateral > 0);
            &&& fault == Some(Fault::Abort(Abort::Unauthorized)) <==> !signed
            &&& fault == Some(Fault::Refuse(ContractError::ContractPaused)) <==> signed && !open
            &&& fault == Some(Fault::Refuse(ContractError::Blacklisted)) <==> open && !clear
            &&& fault == Some(Fault::Refuse(ContractError::InvalidToken)) <==> clear && !allowed
            &&& fault == Some(Fault::Refuse(ContractError::LoanBelowMinAmount)) <==> allowed
                && !enough
            &&& fault == Some(Fault::Abort(Abort::NonPositiveThreshold)) <==> enough && !positive
            &&& fault == Some(Fault::Refuse(ContractError::LoanExceedsMaxAmount)) <==> positive
                && !capped
            &&& fault == Some(Fault::Abort(Abort::ActiveLoanExists)) <==> capped && !free
            &&& fault == Some(Fault::Refuse(ContractError::StakeOverflow)) <==> free && !summed
            &&& fault == Some(Fault::Abort(Abort::StakeBelowThreshold)) <==> summed && !backed
            &&& fault == Some(Fault::Refuse(ContractError::InsufficientVouchers)) <==> backed
                && !vouched
            &&& vouched && !aged ==> fault == age
            &&& fault == Some(Fault::Refuse(ContractError::VouchTooRecent)) <==> vouched && age
                == Some(Fault::Refuse(ContractError::VouchTooRecent))
            &&& fault == Some(Fault::Abort(Abort::CollateralRatioExceeded)) <==> weighed
                && !carried
            &&& fault == Some(Fault::Refuse(ContractError::InsufficientFunds)) <==> carried
                && !funded
            &&& fault == Some(Fault::Abort(Abort::CollateralRequired)) <==> funded && !secured
            &&& aged && !weighed ==> fault == Some(Fault::Abort(Abort::Overflow))
            &&& secured && fault is Some ==> fault == Some(Fault::Abort(Abort::Overflow))
        }),
{
    let stakes = backing(l.account(borrower).vouches, token);
    stakes_overflow_at_some_vouch(stakes);
    vouches_have_to_reach_the_age(stakes, call.timestamp, l.settings.min_vouch_age);
    if total_stake(stakes) > 0 {
        lemma_ratio(l, amount as int, total_stake(stakes));
    }
}

/// A granted request records one active loan under the next id, with the yield
/// on the amount and the deadline locked in and nothing repaid; it is the
/// borrower's active and latest loan and one more to their count, and nothing
/// else of the ledger changes.
pub proof fn granted_request_records_one_loan(
    l: LedgerView,
    call: Call,
    borrower: Address,
    amount: i128,
    threshold: i128,
    loan_purpose: Seq<u8>,
    token: Address,
    balance: i128,
)
    requires
        request_fault(l, call, borrower, amount, threshold, token, balance) is None,
    ensures
        ({
            let now = call.timestamp;
            let after = request_ledger(l, now, borrower, amount, loan_purpose, token);
            let id = after.loan_counter;
            let loan = after.loans[id];
            let before = l.account(borrower);
            let product = amount * l.settings.config.yield_bps;
            &&& id == l.loan_counter + 1
            &&& after.loans == l.loans.insert(id, loan)
            &&& loan.deadline == now + l.settings.config.loan_duration
            &&& loan.total_yield == quotient(product, 10_000)
            &&& product >= 0 ==> loan.total_yield * 10_000 <= product < (loan.total_yield + 1)
                * 10_000
            &&& loan == (LoanView {
                id,
                borrower,
                co_borrowers: Seq::empty(),
                amount,
                amount_repaid: 0,
                total_yield: loan.total_yield,
                status: LoanStatus::Active,
                created_at: now,
                disbursement_timestamp: now,
                repayment_timestamp: None,
                deadline: loan.deadline,
                loan_purpose,
                token_address: token,
                collateral_amount: 0,
                is_refinance: false,
                original_loan_id: None,
            })
            &&& after.account(borrower).loan_count == before.loan_count + 1
            &&& after.accounts == l.accounts.insert(
                borrower,
                AccountView {
                    active_loan: Some(id),
                    latest_loan: Some(id),
                    loan_count: after.account(borrower).loan_count,
                    ..before
                },
            )
            &&& after.settings == l.settings
            &&& after.allowed_tokens == l.allowed_tokens
        }),
{
    lemma_yield_fits(l, amount);
}

/// The yield on an amount fits where the product does.
proof fn lemma_yield_fits(l: LedgerView, amount: i128)
    requires
        fits(amount * l.settings.config.yield_bps),
    ensures
        ({
            let product = amount * l.settings.config.yield_bps;
            &&& fits(quotient(product, 10_000))
            &&& product >= 0 ==> quotient(product, 10_000) * 10_000 <= product < (quotient(
                product,
                10_000,
            ) + 1) * 10_000
        }),
{
    let product = amount * l.settings.config.yield_bps;
    quotient_rounds_towards_zero(product, 10_000);
}

/// A granted request sends the amount, all of it and in the token, from the
/// contract to the borrower, announces that, and does nothing else.
pub proof fn granted_request_disburses_the_amount(
    l: LedgerView,
    call: Call,
    borrower: Address,
    amount: i128,
    threshold: i128,
    token: Address,
    balance: i128,
    deadline: u64,
)
    requires
        request_fault(l, call, borrower, amount, threshold, token, balance) is None,
        deadline == call.timestamp + l.settings.config.loan_duration,
    ensures
        request_effects(l, call, borrower, amount, token) == seq![
            Effect::Transfer { token, from: call.contract, to: borrower, amount },
            Effect::Publish(Event::LoanDisbursed { borrower, amount, deadline, token }),
        ],
{
}

/// What is granted at a ratio is granted at a higher one too, if the stakes
/// times it still fit.
pub proof fn higher_ratio_carries_more(
    l: LedgerView,
    call: Call,
    borrower: Address,
    amount: i128,
    threshold: i128,
    token: Address,
    balance: i128,
    ratio: u32,
)
    requires
        request_fault(l, call, borrower, amount, threshold, token, balance) is None,
        ratio >= l.settings.config.max_loan_to_stake_ratio,
        total_stake(backing(l.account(borrower).vouches, token)) * ratio <= i128::MAX,
    ensures
        ({
            let config = Config { max_loan_to_stake_ratio: ratio, ..l.settings.config };
            let higher = LedgerView { settings: Settings { config, ..l.settings }, ..l };
            request_fault(higher, call, borrower, amount, threshold, token, balance) is None
        }),
{
    let config = Config { max_loan_to_stake_ratio: ratio, ..l.settings.config };
    let higher = LedgerView { settings: Settings { config, ..l.settings }, ..l };
    let stake = total_stake(backing(l.account(borrower).vouches, token));
    let lower = l.settings.config.max_loan_to_stake_ratio as int;
    request_is_granted_exactly_if_backed(l, call, borrower, amount, threshold, token, balance);
    request_is_granted_exactly_if_backed(
        higher,
        call,
        borrower,
        amount,
        threshold,
        token,
        balance,
    );
    assert(higher.account(borrower) == l.account(borrower));
    assert(stake * lower <= stake * ratio) by (nonlinear_arith)
        requires
            stake > 0,
            lower <= ratio,
    ;
}

} // verus!
