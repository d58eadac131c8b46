//! What holds of the entry points together.

use vstd::prelude::*;

use crate::arith::{fits, quotient, quotient_is_bounded};
use crate::co_borrowers::{co_borrower_fault, co_borrower_ledger};
use crate::collateral::{deposit_fault, deposit_ledger};
use crate::consistency::{
    active_is_linked, consistent, linked, loan_is_linked, loan_is_sound, next_id_is_fresh,
};
use crate::laws::requests::request_is_granted_exactly_if_backed;
use crate::ledger::{LedgerView, Settings};
use crate::queries::{eligible, latest_status};
use crate::referral::{referral_fault, referral_ledger};
use crate::refinance::{refinance_effects, refinance_fault, refinance_ledger, replacement_loan};
use crate::repay::{
    available_for_yield, completes, prepayment_penalty, remaining_principal, repay_effects,
    repay_fault, repay_ledger,
};
use crate::request::{disbursed_loan, max_allowed_loan, request_fault, request_ledger};
use crate::types::{
    Abort, Address, Call, ContractError, Effect, Event, Fault, LoanStatus, LoanView, VouchRecord,
};
use crate::vouches::{
    age_fault, backing, distribution_fault, payout, payout_effects, share, total_shares,
    total_stake,
};

pub mod accounts;
pub mod refinancings;
pub mod repayments;
pub mod requests;
pub mod stakes;

verus! {

// ---- Requests ----

/// A loan that is granted is asked for by the borrower, who is not
/// blacklisted, has collateral if they have exceeded the default threshold,
/// and has no active loan; it is in an allowed token and between
/// the limits; the stakes in its token reach the threshold and carry the
/// amount, come from enough vouchers, and are old enough; and the contract
/// holds the amount.
pub proof fn granted_loan_is_backed(
    l: LedgerView,
    call: Call,
    borrower: Address,
    amount: i128,
    threshold: i128,
    token: Address,
    balance: i128,
)
    requires
        request_fault(l, call, borrower, amount, threshold, token, balance) is None,
    ensures
        call.signed_by(borrower),
        !l.settings.paused,
        !l.account(borrower).blacklisted,
        l.account(borrower).default_count > l.settings.default_threshold ==> l.account(
            borrower,
        ).collateral > 0,
        !l.has_active_loan(borrower),
        l.allows(token),
        l.settings.config.min_loan_amount <= amount,
        l.settings.max_loan_amount > 0 ==> amount <= l.settings.max_loan_amount,
        amount <= balance,
        ({
            let stakes = backing(l.account(borrower).vouches, token);
            &&& 0 < threshold <= total_stake(stakes)
            &&& amount <= max_allowed_loan(l, total_stake(stakes))
            &&& amount * 100 <= total_stake(stakes) * l.settings.config.max_loan_to_stake_ratio
            &&& l.settings.min_vouchers <= stakes.len()
            &&& forall|i: int|
                0 <= i < stakes.len() ==> (#[trigger] stakes[i]).vouch_timestamp
                    + l.settings.min_vouch_age <= call.timestamp
        }),
{
    request_is_granted_exactly_if_backed(l, call, borrower, amount, threshold, token, balance);
    lemma_old_enough(
        backing(l.account(borrower).vouches, token),
        call.timestamp,
        l.settings.min_vouch_age,
    );
}

/// Vouches without an age fault are old enough.
proof fn lemma_old_enough(vouches: Seq<VouchRecord>, now: u64, min_age: u64)
    requires
        age_fault(vouches, now, min_age) is None,
    ensures
        forall|i: int|
            0 <= i < vouches.len() ==> (#[trigger] vouches[i]).vouch_timestamp + min_age <= now,
    decreases vouches.len(),
{
    if vouches.len() > 0 {
        lemma_old_enough(vouches.drop_last(), now, min_age);
        assert forall|i: int| 0 <= i < vouches.len() implies (
        #[trigger] vouches[i]).vouch_timestamp + min_age <= now by {
            if i < vouches.len() - 1 {
                assert(vouches.drop_last()[i] == vouches[i]);
            }
        }
    }
}

/// Reading gives back what a request wrote: the new loan is the borrower's
/// latest and active loan, under its id, with one loan more to their count;
/// they are not eligible for another, and their vouches and referrer stay.
pub proof fn requested_loan_is_found(
    l: LedgerView,
    call: Call,
    borrower: Address,
    amount: i128,
    threshold: i128,
    loan_purpose: Seq<u8>,
    token: Address,
    balance: i128,
    other_threshold: i128,
)
    requires
        request_fault(l, call, borrower, amount, threshold, token, balance) is None,
    ensures
        ({
            let after = request_ledger(l, call.timestamp, borrower, amount, loan_purpose, token);
            let loan = disbursed_loan(
                l,
                call.timestamp,
                borrower,
                amount,
                loan_purpose,
                token,
                None,
            );
            &&& after.loan(loan.id) == Some(loan)
            &&& after.latest_record(borrower) == Some(loan)
            &&& after.active_record(borrower) == Some(loan)
            &&& after.has_active_loan(borrower)
            &&& latest_status(after, borrower) == LoanStatus::Active
            &&& after.account(borrower).loan_count == l.account(borrower).loan_count + 1
            &&& !eligible(after, borrower, other_threshold)
            &&& after.account(borrower).vouches == l.account(borrower).vouches
            &&& after.account(borrower).referred_by == l.account(borrower).referred_by
        }),
{
}

/// A request leaves every other loan and every other account alone.
pub proof fn request_leaves_others_alone(
    l: LedgerView,
    call: Call,
    borrower: Address,
    amount: i128,
    threshold: i128,
    loan_purpose: Seq<u8>,
    token: Address,
    balance: i128,
    other: Address,
    id: u64,
)
    requires
        linked(l),
        request_fault(l, call, borrower, amount, threshold, token, balance) is None,
    ensures
        ({
            let after = request_ledger(l, call.timestamp, borrower, amount, loan_purpose, token);
            &&& other != borrower ==> after.account(other) == l.account(other)
            &&& l.loans.contains_key(id) ==> after.loan(id) == l.loan(id)
            &&& after.settings == l.settings
            &&& after.allowed_tokens == l.allowed_tokens
        }),
{
    next_id_is_fresh(l);
}

/// Nobody is lent to while they have an active loan.
pub proof fn no_second_loan(
    l: LedgerView,
    call: Call,
    borrower: Address,
    amount: i128,
    threshold: i128,
    token: Address,
    balance: i128,
)
    requires
        l.has_active_loan(borrower),
    ensures
        request_fault(l, call, borrower, amount, threshold, token, balance) is Some,
{
}

/// A request of a signed call while the contract is not paused is answered for
/// the blacklist first, then for the token, then for the limits, whatever else
/// is wrong with it.
pub proof fn token_and_limits_come_first(
    l: LedgerView,
    call: Call,
    borrower: Address,
    amount: i128,
    threshold: i128,
    token: Address,
    balance: i128,
)
    requires
        call.signed_by(borrower),
        !l.settings.paused,
    ensures
        ({
            let fault = request_fault(l, call, borrower, amount, threshold, token, balance);
            let clear = !l.account(borrower).blacklisted;
            let allowed = clear && l.allows(token);
            let enough = l.settings.config.min_loan_amount <= amount;
            &&& fault == Some(Fault::Refuse(ContractError::Blacklisted)) <==> !clear
            &&& fault == Some(Fault::Refuse(ContractError::InvalidToken)) <==> clear
                && !allowed
            &&& fault == Some(Fault::Refuse(ContractError::LoanBelowMinAmount)) <==> allowed
                && !enough
            &&& fault == Some(Fault::Refuse(ContractError::LoanExceedsMaxAmount)) <==> allowed
                && enough && threshold > 0 && 0 < l.settings.max_loan_amount < amount
        }),
{
    lemma_age_fault_kinds(
        backing(l.account(borrower).vouches, token),
        call.timestamp,
        l.settings.min_vouch_age,
    );
}

/// What the contract holds of a token makes no difference unless the token is
/// allowed.
pub proof fn balance_matters_in_allowed_tokens(
    l: LedgerView,
    call: Call,
    borrower: Address,
    amount: i128,
    threshold: i128,
    token: Address,
    balance: i128,
    other_balance: i128,
)
    requires
        !l.allows(token),
    ensures
        request_fault(l, call, borrower, amount, threshold, token, balance) == request_fault(
            l,
            call,
            borrower,
            amount,
            threshold,
            token,
            other_balance,
        ),
        refinance_fault(l, call, borrower, amount, threshold, token, balance)
            == refinance_fault(l, call, borrower, amount, threshold, token, other_balance),
{
}

/// What the contract holds is the last thing that a request is refused for:
/// one that is not refused for it, however little is held, does not depend on
/// it.
pub proof fn balance_is_asked_last(
    l: LedgerView,
    call: Call,
    borrower: Address,
    amount: i128,
    threshold: i128,
    token: Address,
    balance: i128,
)
    ensures
        request_fault(l, call, borrower, amount, threshold, token, i128::MIN) != Some(
            Fault::Refuse(ContractError::InsufficientFunds),
        ) ==> request_fault(l, call, borrower, amount, threshold, token, balance)
            == request_fault(l, call, borrower, amount, threshold, token, i128::MIN),
        refinance_fault(l, call, borrower, amount, threshold, token, i128::MIN) != Some(
            Fault::Refuse(ContractError::InsufficientFunds),
        ) ==> refinance_fault(l, call, borrower, amount, threshold, token, balance)
            == refinance_fault(l, call, borrower, amount, threshold, token, i128::MIN),
{
    lemma_age_fault_kinds(
        backing(l.account(borrower).vouches, token),
        call.timestamp,
        l.settings.min_vouch_age,
    );
}

/// A vouch whose age is wrong is too recent or overflows.
proof fn lemma_age_fault_kinds(vouches: Seq<VouchRecord>, now: u64, min_age: u64)
    ensures
        age_fault(vouches, now, min_age) matches Some(fault) ==> fault == Fault::Refuse(
            ContractError::VouchTooRecent,
        ) || fault == Fault::Abort(Abort::Overflow),
    decreases vouches.len(),
{
    if vouches.len() > 0 {
        lemma_age_fault_kinds(vouches.drop_last(), now, min_age);
    }
}

/// A borrower who has exceeded the default threshold is not lent to without
/// collateral; a deposit that leaves some there clears that hurdle.
pub proof fn defaults_call_for_collateral(
    l: LedgerView,
    call: Call,
    borrower: Address,
    amount: i128,
    threshold: i128,
    token: Address,
    balance: i128,
    deposit: i128,
    deposit_token: Address,
)
    requires
        l.account(borrower).default_count > l.settings.default_threshold,
        l.account(borrower).collateral <= 0,
    ensures
        request_fault(l, call, borrower, amount, threshold, token, balance) is Some,
        deposit_fault(l, call, borrower, deposit, deposit_token) is None && l.account(
            borrower,
        ).collateral + deposit > 0 ==> request_fault(
            deposit_ledger(l, borrower, deposit, deposit_token),
            call,
            borrower,
            amount,
            threshold,
            token,
            balance,
        ) != Some(Fault::Abort(Abort::CollateralRequired)),
{
    lemma_age_fault_kinds(
        backing(l.account(borrower).vouches, token),
        call.timestamp,
        l.settings.min_vouch_age,
    );
}

// ---- Repayments ----

/// A payment lowers the outstanding balance by its amount, and leaves the
/// borrower, the principal, the yield, the token and the deadline of the loan
/// as they were locked in at disbursement.
pub proof fn payment_lowers_balance(
    l: LedgerView,
    call: Call,
    borrower: Address,
    payment: i128,
)
    requires
        repay_fault(l, call, borrower, payment) is None,
    ensures
        ({
            let loan = l.active_record(borrower)->0;
            let after = repay_ledger(l, call.timestamp, borrower, payment).loans[loan.id];
            &&& after.outstanding() == loan.outstanding() - payment
            &&& after.owed() == loan.owed()
            &&& after.borrower == loan.borrower
            &&& after.co_borrowers == loan.co_borrowers
            &&& after.amount == loan.amount
            &&& after.total_yield == loan.total_yield
            &&& after.token_address == loan.token_address
            &&& after.deadline == loan.deadline
        }),
{
}

/// A payment is accepted only while the contract is not paused, from the
/// borrower, with the signatures of the borrower and of every co-borrower,
/// not after the deadline, and if it is positive and not above the
/// outstanding balance.
pub proof fn accepted_payment_is_due(
    l: LedgerView,
    call: Call,
    borrower: Address,
    payment: i128,
)
    requires
        repay_fault(l, call, borrower, payment) is None,
    ensures
        !l.settings.paused,
        l.has_active_loan(borrower),
        ({
            let loan = l.active_record(borrower)->0;
            &&& loan.borrower == borrower
            &&& call.signed_by(borrower)
            &&& forall|i: int|
                0 <= i < loan.co_borrowers.len() ==> call.signed_by(
                    #[trigger] loan.co_borrowers[i],
                )
            &&& call.timestamp <= loan.deadline
            &&& 0 < payment <= loan.outstanding()
        }),
{
}

/// A loan is repaid by the payment of exactly its outstanding balance.
pub proof fn exact_balance_completes(
    l: LedgerView,
    call: Call,
    borrower: Address,
    payment: i128,
)
    requires
        repay_fault(l, call, borrower, payment) is None,
    ensures
        ({
            let loan = l.active_record(borrower)->0;
            let after = repay_ledger(l, call.timestamp, borrower, payment).loans[loan.id];
            &&& completes(loan, payment) <==> payment == loan.outstanding()
            &&& after.status == LoanStatus::Repaid <==> payment == loan.outstanding()
        }),
{
}

/// A completed repayment closes the loan: the borrower has no active loan,
/// their latest loan is repaid, they have one repayment more to their count
/// and no vouches left, and another payment is answered with `NoActiveLoan`.
pub proof fn completed_repayment_closes_loan(
    l: LedgerView,
    call: Call,
    borrower: Address,
    payment: i128,
    later: Call,
    another: i128,
)
    requires
        linked(l),
        repay_fault(l, call, borrower, payment) is None,
        payment == l.active_record(borrower)->0.outstanding(),
    ensures
        ({
            let loan = l.active_record(borrower)->0;
            let after = repay_ledger(l, call.timestamp, borrower, payment);
            &&& !after.has_active_loan(borrower)
            &&& latest_status(after, borrower) == LoanStatus::Repaid
            &&& after.latest_record(borrower) == after.loan(loan.id)
            &&& after.loans[loan.id].outstanding() == 0
            &&& after.loans[loan.id].repayment_timestamp == Some(call.timestamp)
            &&& after.account(borrower).repayment_count == l.account(borrower).repayment_count + 1
            &&& after.account(borrower).vouches.len() == 0
            &&& later.signed_by(borrower) ==> repay_fault(after, later, borrower, another)
                == Some(Fault::Refuse(ContractError::NoActiveLoan))
        }),
{
    assert(active_is_linked(l, borrower));
    assert(loan_is_linked(l, l.account(borrower).active_loan->0));
}

/// A payment that does not complete the repayment changes nothing but the
/// amount repaid: the loan stays active, and the account stays as it is.
pub proof fn part_payment_keeps_loan_active(
    l: LedgerView,
    call: Call,
    borrower: Address,
    payment: i128,
)
    requires
        linked(l),
        repay_fault(l, call, borrower, payment) is None,
        payment < l.active_record(borrower)->0.outstanding(),
    ensures
        ({
            let loan = l.active_record(borrower)->0;
            let after = repay_ledger(l, call.timestamp, borrower, payment);
            &&& after.accounts == l.accounts
            &&& after.has_active_loan(borrower)
            &&& after.active_record(borrower) == Some(
                LoanView { amount_repaid: (loan.amount_repaid + payment) as i128, ..loan },
            )
        }),
{
    assert(active_is_linked(l, borrower));
    assert(loan_is_linked(l, l.account(borrower).active_loan->0));
}

/// Two payments at one time leave the ledger that one payment of both amounts
/// leaves.
pub proof fn instalments_add_up(
    l: LedgerView,
    call: Call,
    borrower: Address,
    first: i128,
    second: i128,
)
    requires
        linked(l),
        repay_fault(l, call, borrower, first) is None,
        repay_fault(repay_ledger(l, call.timestamp, borrower, first), call, borrower, second)
            is None,
    ensures
        fits(first + second),
        repay_ledger(
            repay_ledger(l, call.timestamp, borrower, first),
            call.timestamp,
            borrower,
            second,
        ) == repay_ledger(l, call.timestamp, borrower, (first + second) as i128),
{
    let loan = l.active_record(borrower)->0;
    assert(active_is_linked(l, borrower));
    assert(loan_is_linked(l, l.account(borrower).active_loan->0));
    let once = repay_ledger(l, call.timestamp, borrower, first);
    if first == loan.outstanding() {
        completed_repayment_closes_loan(l, call, borrower, first, call, second);
    } else {
        part_payment_keeps_loan_active(l, call, borrower, first);
        let twice = repay_ledger(once, call.timestamp, borrower, second);
        let both = repay_ledger(l, call.timestamp, borrower, (first + second) as i128);
        assert(twice.loans =~= both.loans);
        assert(twice.accounts =~= both.accounts);
    }
}

/// A repayment leaves every other loan and every other account alone.
pub proof fn repay_leaves_others_alone(
    l: LedgerView,
    call: Call,
    borrower: Address,
    payment: i128,
    other: Address,
    id: u64,
)
    requires
        repay_fault(l, call, borrower, payment) is None,
    ensures
        ({
            let after = repay_ledger(l, call.timestamp, borrower, payment);
            &&& other != borrower ==> after.account(other) == l.account(other)
            &&& id != l.active_record(borrower)->0.id ==> after.loan(id) == l.loan(id)
            &&& after.settings == l.settings
            &&& after.allowed_tokens == l.allowed_tokens
            &&& after.loan_counter == l.loan_counter
        }),
{
}

/// The penalty for early repayment is not negative and not above the rate on
/// the whole principal, and there is none at the deadline or without a rate.
pub proof fn penalty_is_bounded(settings: Settings, loan: LoanView, now: u64)
    requires
        loan_is_sound(loan),
        loan.owed() > 0,
    ensures
        0 <= remaining_principal(loan) <= loan.amount,
        0 <= prepayment_penalty(settings, loan, now) <= quotient(
            loan.amount * settings.config.prepayment_penalty_bps,
            10_000,
        ),
        now >= loan.deadline || settings.config.prepayment_penalty_bps == 0
            ==> prepayment_penalty(settings, loan, now) == 0,
{
    let a = loan.amount as int;
    let r = loan.amount_repaid as int;
    let o = loan.owed();
    let bps = settings.config.prepayment_penalty_bps as int;
    assert(0 <= r * a <= o * a) by (nonlinear_arith)
        requires
            0 <= a,
            0 <= r <= o,
    ;
    assert(0 <= (r * a) / o <= a) by (nonlinear_arith)
        requires
            o > 0,
            0 <= r * a <= o * a,
    ;
    let rest = remaining_principal(loan);
    assert(0 <= rest * bps <= a * bps) by (nonlinear_arith)
        requires
            0 <= rest <= a,
            bps >= 0,
    ;
    assert((rest * bps) / 10_000 <= (a * bps) / 10_000) by (nonlinear_arith)
        requires
            0 <= rest * bps <= a * bps,
    ;
    quotient_is_bounded(rest * bps, 10_000);
    quotient_is_bounded(a * bps, 10_000);
}

// ---- Shares of the vouchers ----

/// Whether no stake is negative.
pub open spec fn stakes_not_negative(vouches: Seq<VouchRecord>) -> bool {
    forall|i: int| 0 <= i < vouches.len() ==> (#[trigger] vouches[i]).stake >= 0
}

/// The sum of all that the vouchers get.
pub open spec fn total_payouts(vouches: Seq<VouchRecord>, available: int, total: int) -> int
    decreases vouches.len(),
{
    if vouches.len() == 0 {
        0
    } else {
        total_payouts(vouches.drop_last(), available, total) + payout(
            vouches.last(),
            available,
            total,
        )
    }
}

/// No more is shared out than there is to share.
pub proof fn shares_stay_within_yield(vouches: Seq<VouchRecord>, available: int)
    requires
        stakes_not_negative(vouches),
        available >= 0,
    ensures
        0 <= total_shares(vouches, available, total_stake(vouches)) <= available,
{
    let total = total_stake(vouches);
    lemma_total_stake_not_negative(vouches);
    lemma_shares_up_to(vouches, available, total);
    if total > 0 {
        let x = total_shares(vouches, available, total);
        assert(x <= available) by (nonlinear_arith)
            requires
                x * total <= available * total,
                total > 0,
        ;
    }
}

/// Less than one unit for each voucher is left over.
pub proof fn little_yield_is_left_over(vouches: Seq<VouchRecord>, available: int)
    requires
        stakes_not_negative(vouches),
        available >= 0,
        total_stake(vouches) > 0,
    ensures
        available - total_shares(vouches, available, total_stake(vouches)) < vouches.len(),
{
    let total = total_stake(vouches);
    let n = vouches.len() as int;
    lemma_shares_up_to(vouches, available, total);
    let x = total_shares(vouches, available, total);
    assert(n > 0);
    assert(available - x < n) by (nonlinear_arith)
        requires
            available * total - x * total < n * total,
            total > 0,
    ;
}

/// The sum of stakes that are not negative is not negative.
proof fn lemma_total_stake_not_negative(vouches: Seq<VouchRecord>)
    requires
        stakes_not_negative(vouches),
    ensures
        total_stake(vouches) >= 0,
    decreases vouches.len(),
{
    if vouches.len() > 0 {
        assert forall|i: int| 0 <= i < vouches.drop_last().len() implies (
        #[trigger] vouches.drop_last()[i]).stake >= 0 by {
            assert(vouches[i].stake >= 0);
        }
        lemma_total_stake_not_negative(vouches.drop_last());
    }
}

/// The shares, times the total, stay between what is available times the
/// stakes and the same less the total for each voucher.
proof fn lemma_shares_up_to(vouches: Seq<VouchRecord>, available: int, total: int)
    requires
        stakes_not_negative(vouches),
        available >= 0,
    ensures
        total_shares(vouches, available, total) >= 0,
        total <= 0 ==> total_shares(vouches, available, total) == 0,
        total > 0 ==> total_shares(vouches, available, total) * total <= available * total_stake(
            vouches,
        ),
        total > 0 && vouches.len() > 0 ==> available * total_stake(vouches) - total_shares(
            vouches,
            available,
            total,
        ) * total < vouches.len() * total,
        total > 0 && vouches.len() == 0 ==> available * total_stake(vouches) - total_shares(
            vouches,
            available,
            total,
        ) * total == 0,
    decreases vouches.len(),
{
    if vouches.len() == 0 {
        assert(available * 0 == 0);
        assert(0 * total == 0);
    } else {
        let rest = vouches.drop_last();
        assert forall|i: int| 0 <= i < rest.len() implies (#[trigger] rest[i]).stake >= 0 by {
            assert(vouches[i].stake >= 0);
        }
        assert(vouches[vouches.len() - 1].stake >= 0);
        lemma_shares_up_to(rest, available, total);
        let stake = vouches.last().stake as int;
        if total > 0 {
            let part = share(available, stake, total);
            assert(available * stake >= 0) by (nonlinear_arith)
                requires
                    available >= 0,
                    stake >= 0,
            ;
            let product = available * stake;
            assert(part == product / total);
            assert(0 <= part && part * total <= product && product - part * total < total)
                by (nonlinear_arith)
                requires
                    part == product / total,
                    product >= 0,
                    total > 0,
            ;
            let shares = total_shares(rest, available, total);
            let stakes = total_stake(rest);
            assert((shares + part) * total == shares * total + part * total) by (nonlinear_arith);
            assert(available * (stakes + stake) == available * stakes + available * stake)
                by (nonlinear_arith);
            assert((rest.len() + 1) * total == rest.len() * total + total) by (nonlinear_arith);
        }
    }
}

/// Vouchers with stakes that are not negative can always be paid out, unless
/// a number leaves its range: the shares are never found to exceed the yield.
pub proof fn distribution_never_exceeds_yield(
    vouches: Seq<VouchRecord>,
    available: int,
)
    requires
        stakes_not_negative(vouches),
        available >= 0,
    ensures
        distribution_fault(vouches, available, total_stake(vouches)) != Some(
            Abort::YieldExceedsAvailable,
        ),
{
    shares_stay_within_yield(vouches, available);
    lemma_distribution_within(vouches, available, total_stake(vouches));
}

/// As long as the shares of all vouchers stay within the yield, those of the
/// first ones do too.
proof fn lemma_distribution_within(vouches: Seq<VouchRecord>, available: int, total: int)
    requires
        stakes_not_negative(vouches),
        available >= 0,
        total_shares(vouches, available, total) <= available,
    ensures
        distribution_fault(vouches, available, total) != Some(Abort::YieldExceedsAvailable),
    decreases vouches.len(),
{
    if vouches.len() > 0 {
        let rest = vouches.drop_last();
        assert forall|i: int| 0 <= i < rest.len() implies (#[trigger] rest[i]).stake >= 0 by {
            assert(vouches[i].stake >= 0);
        }
        assert(vouches[vouches.len() - 1].stake >= 0);
        lemma_share_not_negative(available, vouches.last().stake as int, total);
        lemma_distribution_within(rest, available, total);
    }
}

/// A share of what is not negative is not negative.
proof fn lemma_share_not_negative(available: int, stake: int, total: int)
    requires
        available >= 0,
        stake >= 0,
    ensures
        share(available, stake, total) >= 0,
{
    assert(available * stake >= 0) by (nonlinear_arith)
        requires
            available >= 0,
            stake >= 0,
    ;
    if total > 0 {
        quotient_is_bounded(available * stake, total);
    }
}

/// Every voucher gets their stake back and their share on top; together they
/// get the stakes and the shares.
pub proof fn vouchers_get_stakes_and_shares(vouches: Seq<VouchRecord>, available: int)
    requires
        stakes_not_negative(vouches),
        available >= 0,
    ensures
        forall|i: int|
            0 <= i < vouches.len() ==> payout(
                #[trigger] vouches[i],
                available,
                total_stake(vouches),
            ) >= vouches[i].stake,
        total_payouts(vouches, available, total_stake(vouches)) == total_stake(vouches)
            + total_shares(vouches, available, total_stake(vouches)),
        total_payouts(vouches, available, total_stake(vouches)) <= total_stake(vouches)
            + available,
{
    let total = total_stake(vouches);
    assert forall|i: int| 0 <= i < vouches.len() implies payout(
        #[trigger] vouches[i],
        available,
        total,
    ) >= vouches[i].stake by {
        lemma_share_not_negative(available, vouches[i].stake as int, total);
    }
    lemma_payouts_split(vouches, available, total);
    shares_stay_within_yield(vouches, available);
}

/// The payouts are the stakes and the shares.
proof fn lemma_payouts_split(vouches: Seq<VouchRecord>, available: int, total: int)
    ensures
        total_payouts(vouches, available, total) == total_stake(vouches) + total_shares(
            vouches,
            available,
            total,
        ),
    decreases vouches.len(),
{
    if vouches.len() > 0 {
        lemma_payouts_split(vouches.drop_last(), available, total);
    }
}

/// Only vouches in the token of the loan are paid out, each once and in that
/// token.
pub proof fn only_vouches_in_token_are_paid(
    vouches: Seq<VouchRecord>,
    contract: Address,
    token: Address,
    available: int,
    total: int,
    i: int,
)
    requires
        0 <= i < payout_effects(backing(vouches, token), contract, token, available, total).len(),
    ensures
        payout_effects(backing(vouches, token), contract, token, available, total).len()
            == backing(vouches, token).len(),
        vouches.contains(backing(vouches, token)[i]),
        backing(vouches, token)[i].token == token,
        payout_effects(backing(vouches, token), contract, token, available, total)[i]
            == (Effect::Transfer {
            token,
            from: contract,
            to: backing(vouches, token)[i].voucher,
            amount: payout(backing(vouches, token)[i], available, total) as i128,
        }),
{
    lemma_backing_is_part(vouches, token, i);
}

/// A vouch that counts is one of the vouches, in the token.
proof fn lemma_backing_is_part(vouches: Seq<VouchRecord>, token: Address, i: int)
    requires
        0 <= i < backing(vouches, token).len(),
    ensures
        vouches.contains(backing(vouches, token)[i]),
        backing(vouches, token)[i].token == token,
    decreases vouches.len(),
{
    reveal(Seq::filter);
    if vouches.len() > 0 {
        let rest = vouches.drop_last();
        if i < backing(rest, token).len() {
            lemma_backing_is_part(rest, token, i);
            let k = choose|k: int| 0 <= k < rest.len() && rest[k] == backing(rest, token)[i];
            assert(vouches[k] == backing(vouches, token)[i]);
        } else {
            assert(vouches[vouches.len() - 1] == backing(vouches, token)[i]);
        }
    }
}

/// Completing the repayment of a sound loan never finds the shares to exceed
/// the yield, as long as no stake behind the borrower is negative.
pub proof fn repayment_never_exceeds_yield(
    l: LedgerView,
    call: Call,
    borrower: Address,
    payment: i128,
)
    requires
        consistent(l),
        stakes_not_negative(l.account(borrower).vouches),
    ensures
        repay_fault(l, call, borrower, payment) != Some(
            Fault::Abort(Abort::YieldExceedsAvailable),
        ),
{
    if let Some(loan) = l.active_record(borrower) {
        assert(loan_is_sound(l.loans[l.account(borrower).active_loan->0]));
        let vouches = l.account(borrower).vouches;
        let stakes = backing(vouches, loan.token_address);
        assert forall|i: int| 0 <= i < stakes.len() implies (#[trigger] stakes[i]).stake >= 0 by {
            lemma_backing_is_part(vouches, loan.token_address, i);
            let k = choose|k: int| 0 <= k < vouches.len() && vouches[k] == stakes[i];
            assert(vouches[k].stake >= 0);
        }
        if loan.owed() > 0 {
            penalty_is_bounded(l.settings, loan, call.timestamp);
            distribution_never_exceeds_yield(
                stakes,
                available_for_yield(l.settings, loan, call.timestamp),
            );
        }
    }
}

/// Completing a repayment takes the payment first, then pays every voucher in
/// the token of the loan, in order, and announces the repayment last.
pub proof fn completed_repayment_pays_vouchers(
    l: LedgerView,
    call: Call,
    borrower: Address,
    payment: i128,
    i: int,
)
    requires
        repay_fault(l, call, borrower, payment) is None,
        payment == l.active_record(borrower)->0.outstanding(),
        0 <= i < backing(
            l.account(borrower).vouches,
            l.active_record(borrower)->0.token_address,
        ).len(),
    ensures
        ({
            let loan = l.active_record(borrower)->0;
            let stakes = backing(l.account(borrower).vouches, loan.token_address);
            let available = available_for_yield(l.settings, loan, call.timestamp);
            let effects = repay_effects(l, call, borrower, payment);
            &&& effects.len() >= stakes.len() + 2
            &&& effects[0] == (Effect::Transfer {
                token: loan.token_address,
                from: borrower,
                to: call.contract,
                amount: payment,
            })
            &&& effects[i + 1] == (Effect::Transfer {
                token: loan.token_address,
                from: call.contract,
                to: stakes[i].voucher,
                amount: payout(stakes[i], available, total_stake(stakes)) as i128,
            })
            &&& effects.last() == Effect::Publish(
                Event::LoanRepaid { borrower, amount: loan.amount },
            )
        }),
{
}

// ---- Refinancing ----

/// A refinancing closes the old loan as repaid in full and puts in its place
/// a loan that covers what was outstanding and names the old one; the counts,
/// vouches and referrer of the borrower stay.
pub proof fn refinancing_replaces_loan(
    l: LedgerView,
    call: Call,
    borrower: Address,
    new_amount: i128,
    new_threshold: i128,
    new_token: Address,
    balance: i128,
)
    requires
        linked(l),
        refinance_fault(l, call, borrower, new_amount, new_threshold, new_token, balance) is None,
    ensures
        ({
            let old_loan = l.active_record(borrower)->0;
            let new_loan = replacement_loan(l, call.timestamp, borrower, new_amount, new_token);
            let after = refinance_ledger(l, call.timestamp, borrower, new_amount, new_token);
            &&& old_loan.outstanding() <= new_amount <= balance
            &&& after.loan(old_loan.id) matches Some(closed) && closed.status
                == LoanStatus::Repaid && closed.outstanding() == 0 && closed.repayment_timestamp
                == Some(call.timestamp)
            &&& after.active_record(borrower) == Some(new_loan)
            &&& after.latest_record(borrower) == Some(new_loan)
            &&& after.has_active_loan(borrower)
            &&& new_loan.is_refinance && new_loan.original_loan_id == Some(old_loan.id)
            &&& new_loan.id != old_loan.id
            &&& after.account(borrower).loan_count == l.account(borrower).loan_count
            &&& after.account(borrower).repayment_count == l.account(borrower).repayment_count
            &&& after.account(borrower).vouches == l.account(borrower).vouches
            &&& after.account(borrower).referred_by == l.account(borrower).referred_by
        }),
{
    assert(active_is_linked(l, borrower));
    assert(loan_is_linked(l, l.account(borrower).active_loan->0));
    next_id_is_fresh(l);
}

/// What one address receives of a token from another, less what it pays back.
pub open spec fn net_payout(effects: Seq<Effect>, token: Address, from: Address, to: Address) -> int
    decreases effects.len(),
{
    if effects.len() == 0 {
        0
    } else {
        net_payout(effects.drop_last(), token, from, to) + match effects.last() {
            Effect::Transfer { token: t, from: f, to: g, amount } => if t != token {
                0
            } else if f == from && g == to {
                amount as int
            } else if f == to && g == from {
                -amount
            } else {
                0
            },
            _ => 0,
        }
    }
}

/// The old loan is repaid with proceeds from the new one: in one token the
/// borrower gets the new amount less what was outstanding, and that is not
/// negative; in two tokens they get the new amount in one and pay what was
/// outstanding in the other.
pub proof fn refinancing_repays_old_loan(
    l: LedgerView,
    call: Call,
    borrower: Address,
    new_amount: i128,
    new_threshold: i128,
    new_token: Address,
    balance: i128,
)
    requires
        refinance_fault(l, call, borrower, new_amount, new_threshold, new_token, balance) is None,
        borrower != call.contract,
    ensures
        ({
            let old_loan = l.active_record(borrower)->0;
            let effects = refinance_effects(l, call, borrower, new_amount, new_token);
            let in_new = net_payout(effects, new_token, call.contract, borrower);
            let in_old = net_payout(effects, old_loan.token_address, call.contract, borrower);
            if new_token == old_loan.token_address {
                in_new == new_amount - old_loan.outstanding() && in_new >= 0
            } else {
                in_new == new_amount && in_old == -old_loan.outstanding()
            }
        }),
{
    let effects = refinance_effects(l, call, borrower, new_amount, new_token);
    assert(effects.drop_last() =~= seq![effects[0], effects[1]]);
    assert(effects.drop_last().drop_last() =~= seq![effects[0]]);
    assert(effects.drop_last().drop_last().drop_last() =~= Seq::empty());
    reveal_with_fuel(net_payout, 4);
}

/// A refinancing leaves every other loan and every other account alone.
pub proof fn refinance_leaves_others_alone(
    l: LedgerView,
    call: Call,
    borrower: Address,
    new_amount: i128,
    new_threshold: i128,
    new_token: Address,
    balance: i128,
    other: Address,
    id: u64,
)
    requires
        linked(l),
        refinance_fault(l, call, borrower, new_amount, new_threshold, new_token, balance) is None,
    ensures
        ({
            let after = refinance_ledger(l, call.timestamp, borrower, new_amount, new_token);
            &&& other != borrower ==> after.account(other) == l.account(other)
            &&& l.loans.contains_key(id) && id != l.active_record(borrower)->0.id
                ==> after.loan(id) == l.loan(id)
            &&& after.settings == l.settings
            &&& after.allowed_tokens == l.allowed_tokens
        }),
{
    next_id_is_fresh(l);
}

// ---- Referrals, co-borrowers, collateral ----

/// The referrer that was named last counts, and naming the same one again
/// changes nothing.
pub proof fn last_referrer_counts(
    l: LedgerView,
    borrower: Address,
    first: Address,
    second: Address,
)
    ensures
        referral_ledger(l, borrower, second).account(borrower).referred_by == Some(second),
        referral_ledger(referral_ledger(l, borrower, first), borrower, second)
            == referral_ledger(l, borrower, second),
{
    let twice = referral_ledger(referral_ledger(l, borrower, first), borrower, second);
    let once = referral_ledger(l, borrower, second);
    assert(twice.accounts =~= once.accounts);
}

/// The referrer of a borrower is another address, and cannot change while the
/// borrower has an active loan.
pub proof fn referrer_is_fixed_during_loan(
    l: LedgerView,
    call: Call,
    borrower: Address,
    referrer: Address,
)
    requires
        l.has_active_loan(borrower) || borrower == referrer,
    ensures
        referral_fault(l, call, borrower, referrer) is Some,
{
}

/// A referral and a deposit leave loans and every other account alone, and
/// of the borrower's account all but what they write.
pub proof fn referral_and_deposit_change_one_entry(
    l: LedgerView,
    borrower: Address,
    referrer: Address,
    amount: i128,
    token: Address,
    other: Address,
)
    ensures
        referral_ledger(l, borrower, referrer).loans == l.loans,
        deposit_ledger(l, borrower, amount, token).loans == l.loans,
        other != borrower ==> referral_ledger(l, borrower, referrer).account(other) == l.account(
            other,
        ),
        other != borrower ==> deposit_ledger(l, borrower, amount, token).account(other)
            == l.account(other),
        referral_ledger(l, borrower, referrer).account(borrower).collateral == l.account(
            borrower,
        ).collateral,
        deposit_ledger(l, borrower, amount, token).account(borrower).referred_by == l.account(
            borrower,
        ).referred_by,
        deposit_ledger(l, borrower, amount, token).account(borrower).vouches == l.account(
            borrower,
        ).vouches,
{
}

/// A co-borrower that was added is listed last, cannot be added again, and
/// has to sign every repayment.
pub proof fn added_co_borrower_is_bound(
    l: LedgerView,
    call: Call,
    loan_id: u64,
    co_borrower: Address,
    later: Call,
    payment: i128,
)
    requires
        linked(l),
        co_borrower_fault(l, call, loan_id, co_borrower) is None,
    ensures
        ({
            let after = co_borrower_ledger(l, loan_id, co_borrower);
            let borrower = l.loans[loan_id].borrower;
            &&& call.signed_by(borrower)
            &&& after.loans[loan_id].co_borrowers.last() == co_borrower
            &&& co_borrower_fault(after, call, loan_id, co_borrower) == Some(
                Fault::Refuse(ContractError::DuplicateVouch),
            )
            &&& !later.signed_by(co_borrower) ==> repay_fault(after, later, borrower, payment)
                is Some
            &&& later.signed_by(borrower) && !later.signed_by(co_borrower)
                && !l.settings.paused ==> repay_fault(after, later, borrower, payment) == Some(
                Fault::Abort(Abort::Unauthorized),
            )
        }),
{
    let after = co_borrower_ledger(l, loan_id, co_borrower);
    let borrower = l.loans[loan_id].borrower;
    let list = after.loans[loan_id].co_borrowers;
    assert(loan_is_linked(l, loan_id));
    assert(list[list.len() - 1] == co_borrower);
    assert(list.contains(co_borrower));
    assert(after.active_record(borrower) == Some(after.loans[loan_id]));
}

/// Adding a co-borrower changes nothing of a loan but the list, and leaves
/// every other loan and every account alone.
pub proof fn co_borrower_changes_the_list(
    l: LedgerView,
    loan_id: u64,
    co_borrower: Address,
    id: u64,
)
    requires
        l.loans.contains_key(loan_id),
    ensures
        ({
            let after = co_borrower_ledger(l, loan_id, co_borrower);
            &&& after.accounts == l.accounts
            &&& id != loan_id ==> after.loan(id) == l.loan(id)
            &&& after.loans[loan_id] == (LoanView {
                co_borrowers: l.loans[loan_id].co_borrowers.push(co_borrower),
                ..l.loans[loan_id]
            })
        }),
{
}

/// Deposits add up, whatever their tokens, and only grow the collateral.
pub proof fn deposits_add_up(
    l: LedgerView,
    call: Call,
    borrower: Address,
    first: i128,
    first_token: Address,
    second: i128,
    second_token: Address,
)
    requires
        deposit_fault(l, call, borrower, first, first_token) is None,
        deposit_fault(
            deposit_ledger(l, borrower, first, first_token),
            call,
            borrower,
            second,
            second_token,
        ) is None,
    ensures
        ({
            let before = l.account(borrower);
            let after = deposit_ledger(
                deposit_ledger(l, borrower, first, first_token),
                borrower,
                second,
                second_token,
            ).account(borrower);
            &&& after.collateral == before.collateral + first + second
            &&& after.collateral > before.collateral
            &&& after.collateral_token == Some(second_token)
        }),
{
}

// ---- Every entry point ----

/// While the contract is paused, nothing is borrowed, repaid, refinanced,
/// deposited or referred; a call that its borrower signed is answered with
/// `ContractPaused`.
pub proof fn nothing_moves_while_paused(
    l: LedgerView,
    call: Call,
    borrower: Address,
    amount: i128,
    threshold: i128,
    token: Address,
    balance: i128,
    referrer: Address,
)
    requires
        l.settings.paused,
    ensures
        ({
            let answer = Some(
                if call.signed_by(borrower) {
                    Fault::Refuse(ContractError::ContractPaused)
                } else {
                    Fault::Abort(Abort::Unauthorized)
                },
            );
            &&& request_fault(l, call, borrower, amount, threshold, token, balance) == answer
            &&& repay_fault(l, call, borrower, amount) == answer
            &&& refinance_fault(l, call, borrower, amount, threshold, token, balance) == answer
            &&& deposit_fault(l, call, borrower, amount, token) == answer
            &&& referral_fault(l, call, borrower, referrer) == answer
        }),
{
}

/// Without the borrower's signature every call for them is aborted.
pub proof fn borrower_has_to_sign(
    l: LedgerView,
    call: Call,
    borrower: Address,
    amount: i128,
    threshold: i128,
    token: Address,
    balance: i128,
    referrer: Address,
)
    requires
        !call.signed_by(borrower),
    ensures
        ({
            let answer = Some(Fault::Abort(Abort::Unauthorized));
            &&& request_fault(l, call, borrower, amount, threshold, token, balance) == answer
            &&& repay_fault(l, call, borrower, amount) == answer
            &&& refinance_fault(l, call, borrower, amount, threshold, token, balance) == answer
            &&& deposit_fault(l, call, borrower, amount, token) == answer
            &&& referral_fault(l, call, borrower, referrer) == answer
        }),
{
}

} // verus!
