//! What a payment is answered, and what it does.

use vstd::prelude::*;

use crate::arith::{fits, quotient, quotient_rounds_towards_zero};
use crate::consistency::loan_is_sound;
use crate::laws::stakes::{
    can_be_paid, distribution_goes_through_exactly_if_each_can_be_paid, share_is_in_proportion,
};
use crate::ledger::{AccountView, LedgerView, Settings};
use crate::repay::{
    prepayment_penalty, remaining_principal, repay_effects, repay_fault, repay_ledger,
};
use crate::types::{Abort, Address, Call, ContractError, Effect, Event, Fault, LoanStatus, LoanView};
use crate::vouches::{backing, distribution_fault, stake_overflows, total_stake};

verus! {

/// A payment is answered for the first of its checks that fails, in this
/// order: signature, pause, loan, signatures of the co-borrowers, borrower of
/// the loan, status, deadline, amount against what is still to be paid. What
/// goes through has passed them all.
pub proof fn payment_is_checked_in_order(
    l: LedgerView,
    call: Call,
    borrower: Address,
    payment: i128,
)
    ensures
        ({
            let fault = repay_fault(l, call, borrower, payment);
            let loan = l.active_record(borrower)->0;
            let owed = loan.amount + loan.total_yield;
            let rest = owed - loan.amount_repaid;
            let signed = call.signers@.contains(borrower);
            let open = signed && !l.settings.paused;
            let found = open && l.active_record(borrower) is Some;
            let joint = found && forall|i: int|
                0 <= i < loan.co_borrowers.len() ==> call.signers@.contains(
                    #[trigger] loan.co_borrowers[i],
                );
            let own = joint && loan.borrower == borrower;
            let active = own && loan.status == LoanStatus::Active;
            let timely = active && call.timestamp <= loan.deadline;
            let counted = timely && i128::MIN <= owed <= i128::MAX && i128::MIN <= rest
                <= i128::MAX;
            let due = counted && 0 < payment <= rest;
            &&& fault == Some(Fault::Abort(Abort::Unauthorized)) <==> !signed || found && !joint
            &&& fault == Some(Fault::Refuse(ContractError::ContractPaused)) <==> signed && !open
            &&& fault == Some(Fault::Refuse(ContractError::NoActiveLoan)) <==> open && !found
                || own && !active
            &&& fault == Some(Fault::Refuse(ContractError::UnauthorizedCaller)) <==> joint && !own
            &&& fault == Some(Fault::Abort(Abort::DeadlinePassed)) <==> active && !timely
            &&& fault == Some(Fault::Abort(Abort::InvalidPayment)) <==> counted && !due
            &&& timely && !counted ==> fault == Some(Fault::Abort(Abort::Overflow))
            &&& fault is None ==> due
            &&& due && fault is Some ==> fault == Some(Fault::Abort(Abort::Overflow)) || fault
                == Some(Fault::Abort(Abort::DivisionByZero)) || fault == Some(
                Fault::Abort(Abort::YieldExceedsAvailable),
            )
        }),
{
    let loan = l.active_record(borrower)->0;
    let stakes = backing(l.account(borrower).vouches, loan.token_address);
    distribution_goes_through_exactly_if_each_can_be_paid(
        stakes,
        loan.total_yield + prepayment_penalty(l.settings, loan, call.timestamp),
        total_stake(stakes),
    );
}

/// A payment that is due goes through exactly if the numbers it takes are
/// there: the penalty, where there is one, can be found, and a payment of all
/// that is still to be paid finds shares for the vouchers, a bonus for the
/// referrer and room in the count of repayments.
pub proof fn due_payment_goes_through_exactly_if_it_can_be_settled(
    l: LedgerView,
    call: Call,
    borrower: Address,
    payment: i128,
)
    requires
        call.signers@.contains(borrower),
        !l.settings.paused,
        l.active_record(borrower) matches Some(loan) && {
            &&& forall|i: int|
                0 <= i < loan.co_borrowers.len() ==> call.signers@.contains(
                    #[trigger] loan.co_borrowers[i],
                )
            &&& loan.borrower == borrower
            &&& loan.status == LoanStatus::Active
            &&& call.timestamp <= loan.deadline
            &&& i128::MIN <= loan.amount + loan.total_yield <= i128::MAX
            &&& 0 < payment <= loan.amount + loan.total_yield - loan.amount_repaid <= i128::MAX
        },
    ensures
        ({
            let account = l.account(borrower);
            let loan = l.active_record(borrower)->0;
            let owed = loan.amount + loan.total_yield;
            let bps = l.settings.config.prepayment_penalty_bps;
            let early = call.timestamp < loan.deadline && bps > 0;
            let repaid = quotient(loan.amount_repaid * loan.amount, owed);
            let remaining = loan.amount - repaid;
            let penalty = if early {
                quotient(remaining * bps, 10_000)
            } else {
                0
            };
            let bonus_bps = match l.settings.referral_bonus_bps {
                Some(rate) => rate,
                None => l.settings.default_referral_bonus_bps,
            };
            let stakes = backing(account.vouches, loan.token_address);
            repay_fault(l, call, borrower, payment) is None <==> {
                &&& loan.disbursement_timestamp <= call.timestamp
                &&& early ==> {
                    &&& owed != 0
                    &&& fits(loan.amount_repaid * loan.amount)
                    &&& fits(repaid)
                    &&& fits(remaining)
                    &&& fits(remaining * bps)
                }
                &&& payment == owed - loan.amount_repaid ==> {
                    &&& !stake_overflows(stakes)
                    &&& fits(loan.total_yield + penalty)
                    &&& distribution_fault(
                        stakes,
                        loan.total_yield + penalty,
                        total_stake(stakes),
                    ) is None
                    &&& account.referred_by is Some ==> fits(loan.amount * bonus_bps)
                    &&& account.repayment_count < u32::MAX
                }
            }
        }),
{
}

/// Before the deadline the penalty is the rate on the principal that remains,
/// and the principal that remains is the amount less as large a part of it as
/// has been repaid of the obligation. There is none at the deadline or at rate
/// zero.
pub proof fn penalty_is_on_the_principal_that_remains(
    settings: Settings,
    loan: LoanView,
    now: u64,
)
    requires
        loan_is_sound(loan),
        loan.amount + loan.total_yield > 0,
    ensures
        ({
            let owed = loan.amount + loan.total_yield;
            let repaid = loan.amount - remaining_principal(loan);
            let bps = settings.config.prepayment_penalty_bps;
            let penalty = prepayment_penalty(settings, loan, now);
            &&& repaid * owed <= loan.amount_repaid * loan.amount < (repaid + 1) * owed
            &&& remaining_principal(loan) + loan.amount_repaid * loan.amount / owed == loan.amount
            &&& loan.amount_repaid == 0 ==> remaining_principal(loan) == loan.amount
            &&& loan.amount_repaid == owed ==> remaining_principal(loan) == 0
            &&& now < loan.deadline ==> penalty * 10_000 <= remaining_principal(loan) * bps < (
            penalty + 1) * 10_000
            &&& now < loan.deadline && loan.amount_repaid == 0 ==> penalty == loan.amount * bps
                / 10_000
            &&& now >= loan.deadline || bps == 0 ==> penalty == 0
        }),
{
    let owed = loan.amount + loan.total_yield;
    let product = loan.amount_repaid * loan.amount;
    let bps = settings.config.prepayment_penalty_bps as int;
    assert(product >= 0) by (nonlinear_arith)
        requires
            loan.amount_repaid >= 0,
            loan.amount >= 0,
            product == loan.amount_repaid * loan.amount,
    ;
    quotient_rounds_towards_zero(product, owed);
    let part = quotient(product, owed);
    assert((part + 1) * owed == part * owed + owed) by (nonlinear_arith);
    assert(part <= loan.amount && part >= 0) by (nonlinear_arith)
        requires
            part * owed <= product < (part + 1) * owed,
            product == loan.amount_repaid * loan.amount,
            0 <= loan.amount_repaid <= owed,
            loan.amount >= 0,
            owed > 0,
    ;
    if loan.amount_repaid == 0 {
        assert(product == 0) by (nonlinear_arith)
            requires
                product == loan.amount_repaid * loan.amount,
                loan.amount_repaid == 0,
        ;
        assert(part == 0) by (nonlinear_arith)
            requires
                part * owed <= 0 < (part + 1) * owed,
                owed > 0,
        ;
    }
    if loan.amount_repaid == owed {
        assert(part == loan.amount) by (nonlinear_arith)
            requires
                part * owed <= product < (part + 1) * owed,
                product == loan.amount_repaid * loan.amount,
                loan.amount_repaid == owed,
                owed > 0,
        ;
    }
    let rest = remaining_principal(loan);
    assert(rest * bps >= 0) by (nonlinear_arith)
        requires
            rest >= 0,
            bps >= 0,
    ;
    if bps == 0 {
        assert(rest * bps == 0) by (nonlinear_arith)
            requires
                bps == 0,
        ;
    }
    quotient_rounds_towards_zero(rest * bps, 10_000);
}

/// The more has been repaid of a loan, the less principal remains, and the
/// smaller the penalty; how early the payment is makes no difference.
pub proof fn penalty_falls_as_a_loan_is_repaid(
    settings: Settings,
    loan: LoanView,
    later: LoanView,
    now: u64,
    then: u64,
)
    requires
        loan_is_sound(loan),
        loan_is_sound(later),
        later == (LoanView { amount_repaid: later.amount_repaid, ..loan }),
        loan.amount_repaid <= later.amount_repaid,
        loan.amount + loan.total_yield > 0,
        now < loan.deadline,
        then < loan.deadline,
    ensures
        remaining_principal(later) <= remaining_principal(loan),
        prepayment_penalty(settings, later, then) <= prepayment_penalty(settings, loan, now),
        prepayment_penalty(settings, loan, then) == prepayment_penalty(settings, loan, now),
{
    let owed = loan.amount + loan.total_yield;
    let bps = settings.config.prepayment_penalty_bps as int;
    penalty_is_on_the_principal_that_remains(settings, loan, now);
    penalty_is_on_the_principal_that_remains(settings, later, then);
    let p = loan.amount - remaining_principal(loan);
    let q = later.amount - remaining_principal(later);
    assert(p <= q) by (nonlinear_arith)
        requires
            p * owed <= loan.amount_repaid * loan.amount,
            later.amount_repaid * loan.amount < (q + 1) * owed,
            loan.amount_repaid <= later.amount_repaid,
            loan.amount >= 0,
            owed > 0,
    ;
    let x = remaining_principal(later) * bps;
    let y = remaining_principal(loan) * bps;
    assert(x <= y) by (nonlinear_arith)
        requires
            x == remaining_principal(later) * bps,
            y == remaining_principal(loan) * bps,
            remaining_principal(later) <= remaining_principal(loan),
            bps >= 0,
    ;
}

/// A payment adds to what has been repaid, and closes the loan exactly if it is
/// all that was still to be paid: the loan is then repaid at the time of the
/// call, and the borrower's account has one repayment more, no active loan and
/// no vouches. Nothing else of the ledger changes.
pub proof fn payment_changes_the_loan_and_at_most_one_account(
    l: LedgerView,
    call: Call,
    borrower: Address,
    payment: i128,
)
    requires
        repay_fault(l, call, borrower, payment) is None,
    ensures
        ({
            let loan = l.active_record(borrower)->0;
            let before = l.account(borrower);
            let after = repay_ledger(l, call.timestamp, borrower, payment);
            let paid = after.loans[loan.id];
            let done = payment == loan.amount + loan.total_yield - loan.amount_repaid;
            &&& after.loans == l.loans.insert(loan.id, paid)
            &&& paid.amount_repaid == loan.amount_repaid + payment
            &&& done ==> paid == (LoanView {
                amount_repaid: paid.amount_repaid,
                status: LoanStatus::Repaid,
                repayment_timestamp: Some(call.timestamp),
                ..loan
            })
            &&& !done ==> paid == (LoanView { amount_repaid: paid.amount_repaid, ..loan })
            &&& done ==> after.account(borrower).repayment_count == before.repayment_count + 1
            &&& done ==> after.accounts == l.accounts.insert(
                borrower,
                AccountView {
                    repayment_count: after.account(borrower).repayment_count,
                    active_loan: None,
                    vouches: Seq::empty(),
                    ..before
                },
            )
            &&& !done ==> after.accounts == l.accounts
            &&& after.settings == l.settings
            &&& after.allowed_tokens == l.allowed_tokens
            &&& after.loan_counter == l.loan_counter
        }),
{
}

/// A part payment goes from the borrower to the contract in the token of the
/// loan, and nothing else is done.
pub proof fn part_payment_is_taken(l: LedgerView, call: Call, borrower: Address, payment: i128)
    requires
        repay_fault(l, call, borrower, payment) is None,
        ({
            let loan = l.active_record(borrower)->0;
            payment != loan.amount + loan.total_yield - loan.amount_repaid
        }),
    ensures
        repay_effects(l, call, borrower, payment) == seq![
            Effect::Transfer {
                token: l.active_record(borrower)->0.token_address,
                from: borrower,
                to: call.contract,
                amount: payment,
            },
        ],
{
}

/// How often the host is asked for something between the payouts of a
/// completed repayment and its last event.
pub open spec fn extras(l: LedgerView, borrower: Address, bonus: int) -> int {
    (if l.account(borrower).referred_by is Some && bonus > 0 {
        2int
    } else {
        0
    }) + (if l.settings.reputation_nft is Some {
        1int
    } else {
        0
    })
}

/// A completed repayment takes the payment; pays each vouch in the token of the
/// loan once, in order, and none in another; if a referrer is named and the
/// bonus is positive, sends them the bonus once and announces it; mints where a
/// contract for it is set; announces the repayment; and does nothing else. The
/// bonus is the rate on the amount of the loan, and the rate is the one that is
/// set, or else the default.
pub proof fn completed_repayment_does_this_and_no_more(
    l: LedgerView,
    call: Call,
    borrower: Address,
    payment: i128,
    bonus: i128,
)
    requires
        repay_fault(l, call, borrower, payment) is None,
        ({
            let loan = l.active_record(borrower)->0;
            &&& payment == loan.amount + loan.total_yield - loan.amount_repaid
            &&& l.account(borrower).referred_by is Some ==> bonus == quotient(
                loan.amount * (match l.settings.referral_bonus_bps {
                    Some(rate) => rate,
                    None => l.settings.default_referral_bonus_bps,
                }),
                10_000,
            )
        }),
    ensures
        ({
            let loan = l.active_record(borrower)->0;
            let token = loan.token_address;
            let stakes = backing(l.account(borrower).vouches, token);
            let n = stakes.len() as int;
            let effects = repay_effects(l, call, borrower, payment);
            &&& effects.len() == n + extras(l, borrower, bonus as int) + 2
            &&& effects[0] == (Effect::Transfer {
                token,
                from: borrower,
                to: call.contract,
                amount: payment,
            })
            &&& forall|i: int|
                0 <= i < n ==> (#[trigger] effects[i + 1] matches Effect::Transfer {
                    token: t,
                    from,
                    to,
                    ..
                } && t == token && from == call.contract && to == stakes[i].voucher)
            &&& l.account(borrower).referred_by matches Some(referrer) ==> bonus > 0 ==> {
                &&& effects[n + 1] == (Effect::Transfer {
                    token,
                    from: call.contract,
                    to: referrer,
                    amount: bonus,
                })
                &&& effects[n + 2] == Effect::Publish(
                    Event::ReferralBonus { referrer, borrower, bonus },
                )
            }
            &&& l.settings.reputation_nft matches Some(nft) ==> effects[effects.len() - 2]
                == (Effect::MintReputation { nft, borrower })
            &&& effects.last() == Effect::Publish(
                Event::LoanRepaid { borrower, amount: loan.amount },
            )
        }),
{
    let loan = l.active_record(borrower)->0;
    let rate = match l.settings.referral_bonus_bps {
        Some(rate) => rate,
        None => l.settings.default_referral_bonus_bps,
    };
    assert(rate == l.settings.bonus_bps());
}

/// The bonus of a referrer is the part of the amount that the rate in basis
/// points makes, rounded down; where that is nothing, none is paid.
pub proof fn bonus_is_on_the_amount(
    l: LedgerView,
    call: Call,
    borrower: Address,
    payment: i128,
    referrer: Address,
    rate: u32,
)
    requires
        repay_fault(l, call, borrower, payment) is None,
        l.account(borrower).referred_by == Some(referrer),
        l.settings.referral_bonus_bps == Some(rate) || l.settings.referral_bonus_bps is None
            && l.settings.default_referral_bonus_bps == rate,
        ({
            let loan = l.active_record(borrower)->0;
            payment == loan.amount + loan.total_yield - loan.amount_repaid
        }),
    ensures
        ({
            let loan = l.active_record(borrower)->0;
            let n = backing(l.account(borrower).vouches, loan.token_address).len() as int;
            let minted = if l.settings.reputation_nft is Some {
                1int
            } else {
                0
            };
            let effects = repay_effects(l, call, borrower, payment);
            &&& loan.amount * rate >= 10_000 ==> {
                &&& effects.len() == n + minted + 4
                &&& effects[n + 1] matches Effect::Transfer { token, from, to, amount: bonus } && {
                    &&& token == loan.token_address
                    &&& from == call.contract
                    &&& to == referrer
                    &&& bonus * 10_000 <= loan.amount * rate < (bonus + 1) * 10_000
                    &&& effects[n + 2] == Effect::Publish(
                        Event::ReferralBonus { referrer, borrower, bonus },
                    )
                }
            }
            &&& loan.amount * rate < 10_000 ==> effects.len() == n + minted + 2
        }),
{
    let loan = l.active_record(borrower)->0;
    assert(rate == l.settings.bonus_bps());
    quotient_rounds_towards_zero(loan.amount * rate, 10_000);
    let bonus = quotient(loan.amount * rate, 10_000);
    completed_repayment_does_this_and_no_more(l, call, borrower, payment, bonus as i128);
}

/// The same bonus is paid whoever vouches for the borrower.
pub proof fn bonus_does_not_depend_on_vouches(
    l: LedgerView,
    other: LedgerView,
    call: Call,
    borrower: Address,
    payment: i128,
)
    requires
        repay_fault(l, call, borrower, payment) is None,
        repay_fault(other, call, borrower, payment) is None,
        payment == l.active_record(borrower)->0.outstanding(),
        other.settings == l.settings,
        other.loans == l.loans,
        other.account(borrower).active_loan == l.account(borrower).active_loan,
        other.account(borrower).referred_by == l.account(borrower).referred_by,
    ensures
        ({
            let token = l.active_record(borrower)->0.token_address;
            let n = backing(l.account(borrower).vouches, token).len() as int;
            let m = backing(other.account(borrower).vouches, token).len() as int;
            let effects = repay_effects(l, call, borrower, payment);
            let others = repay_effects(other, call, borrower, payment);
            effects.skip(n + 1) == others.skip(m + 1)
        }),
{
    let token = l.active_record(borrower)->0.token_address;
    let n = backing(l.account(borrower).vouches, token).len() as int;
    let m = backing(other.account(borrower).vouches, token).len() as int;
    let effects = repay_effects(l, call, borrower, payment);
    let others = repay_effects(other, call, borrower, payment);
    assert(effects.skip(n + 1) =~= others.skip(m + 1));
}

/// When a loan is repaid, each voucher in its token gets their stake back, and
/// on top the part of the yield and the penalty that their stake is of all the
/// stakes in the token, rounded down. The penalty for an early payment is the
/// rate on the principal that remained before it.
pub proof fn vouchers_share_yield_and_penalty(
    l: LedgerView,
    call: Call,
    borrower: Address,
    payment: i128,
    i: int,
)
    requires
        repay_fault(l, call, borrower, payment) is None,
        ({
            let loan = l.active_record(borrower)->0;
            &&& payment == loan.amount + loan.total_yield - loan.amount_repaid
            &&& 0 <= i < backing(l.account(borrower).vouches, loan.token_address).len()
        }),
    ensures
        ({
            let loan = l.active_record(borrower)->0;
            let owed = loan.amount + loan.total_yield;
            let bps = l.settings.config.prepayment_penalty_bps;
            let repaid = quotient(loan.amount_repaid * loan.amount, owed);
            let penalty = if call.timestamp < loan.deadline && bps > 0 {
                quotient((loan.amount - repaid) * bps, 10_000)
            } else {
                0
            };
            let shared = loan.total_yield + penalty;
            let stakes = backing(l.account(borrower).vouches, loan.token_address);
            let stake = stakes[i].stake;
            let total = total_stake(stakes);
            repay_effects(l, call, borrower, payment)[i + 1] matches Effect::Transfer {
                token,
                from,
                to,
                amount,
            } && {
                &&& token == loan.token_address
                &&& from == call.contract
                &&& to == stakes[i].voucher
                &&& total <= 0 ==> amount == stake
                &&& total > 0 ==> amount == stake + quotient(shared * stake, total)
                &&& total > 0 && shared * stake >= 0 ==> (amount - stake) * total <= shared
                    * stake < (amount - stake + 1) * total
            }
        }),
{
    let loan = l.active_record(borrower)->0;
    let stakes = backing(l.account(borrower).vouches, loan.token_address);
    let total = total_stake(stakes);
    let shared = loan.total_yield + prepayment_penalty(l.settings, loan, call.timestamp);
    let stake = stakes[i].stake as int;
    distribution_goes_through_exactly_if_each_can_be_paid(stakes, shared, total);
    assert(can_be_paid(stakes, i, shared, total));
    share_is_in_proportion(shared, stake, total);
    let part = if total > 0 {
        quotient(shared * stake, total)
    } else {
        0
    };
    assert((part + 1) * total == part * total + total) by (nonlinear_arith);
}

/// A sound loan that is repaid before the deadline in one payment carries the
/// penalty on the whole amount: the vouchers share the yield and that.
pub proof fn early_repayment_in_one_payment_carries_the_whole_penalty(
    l: LedgerView,
    call: Call,
    borrower: Address,
    payment: i128,
    i: int,
)
    requires
        repay_fault(l, call, borrower, payment) is None,
        ({
            let loan = l.active_record(borrower)->0;
            let stakes = backing(l.account(borrower).vouches, loan.token_address);
            &&& loan_is_sound(loan)
            &&& loan.amount_repaid == 0
            &&& payment == loan.amount + loan.total_yield
            &&& call.timestamp < loan.deadline
            &&& 0 <= i < stakes.len()
            &&& stakes[i].stake >= 0
            &&& total_stake(stakes) > 0
        }),
    ensures
        ({
            let loan = l.active_record(borrower)->0;
            let bps = l.settings.config.prepayment_penalty_bps;
            let shared = loan.total_yield + loan.amount * bps / 10_000;
            let stakes = backing(l.account(borrower).vouches, loan.token_address);
            let stake = stakes[i].stake;
            let total = total_stake(stakes);
            repay_effects(l, call, borrower, payment)[i + 1] matches Effect::Transfer {
                to,
                amount,
                ..
            } && to == stakes[i].voucher && (amount - stake) * total <= shared * stake < (amount
                - stake + 1) * total
        }),
{
    let loan = l.active_record(borrower)->0;
    let bps = l.settings.config.prepayment_penalty_bps;
    let stakes = backing(l.account(borrower).vouches, loan.token_address);
    let stake = stakes[i].stake;
    let shared = loan.total_yield + loan.amount * bps / 10_000;
    penalty_is_on_the_principal_that_remains(l.settings, loan, call.timestamp);
    vouchers_share_yield_and_penalty(l, call, borrower, payment, i);
    assert(shared == loan.total_yield + prepayment_penalty(l.settings, loan, call.timestamp));
    assert(loan.amount * bps >= 0) by (nonlinear_arith)
        requires
            loan.amount >= 0,
            bps >= 0,
    ;
    assert(shared * stake >= 0) by (nonlinear_arith)
        requires
            shared >= 0,
            stake >= 0,
    ;
}

} // verus!
