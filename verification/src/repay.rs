//! Repaying a loan.

use vstd::prelude::*;

use crate::arith::{fits, portion, quotient};
use crate::ledger::{Account, AccountView, Ledger, LedgerView, Settings};
use crate::types::{
    aborts, answered, check_result, Abort, Address, Call, ContractError, Effect, Event, Fault,
    LoanRecord, LoanStatus, LoanView, VouchRecord,
};
use crate::vouches::{
    backing, distribute, distribution_fault, payout_effects, stake_overflows, sum_stakes,
    total_stake, vouches_in_token,
};

verus! {

/// The principal that remains: the amount less the part of it that matches
/// the part of the obligation that has been repaid.
pub open spec fn remaining_principal(loan: LoanView) -> int {
    loan.amount - quotient(loan.amount_repaid * loan.amount, loan.owed())
}

/// The penalty for repaying before the deadline, on the principal that
/// remains before the payment.
pub open spec fn prepayment_penalty(settings: Settings, loan: LoanView, now: u64) -> int {
    if loan.deadline > now && settings.config.prepayment_penalty_bps > 0 {
        quotient(
            remaining_principal(loan) * settings.config.prepayment_penalty_bps,
            10_000,
        )
    } else {
        0
    }
}

/// Why the penalty cannot be computed.
pub open spec fn penalty_fault(settings: Settings, loan: LoanView, now: u64) -> Option<Abort> {
    if loan.deadline > now && settings.config.prepayment_penalty_bps > 0 {
        if !fits(loan.amount_repaid * loan.amount) {
            Some(Abort::Overflow)
        } else if loan.owed() == 0 {
            Some(Abort::DivisionByZero)
        } else if !fits(quotient(loan.amount_repaid * loan.amount, loan.owed())) {
            Some(Abort::Overflow)
        } else if !fits(remaining_principal(loan)) {
            Some(Abort::Overflow)
        } else if !fits(
            remaining_principal(loan) * settings.config.prepayment_penalty_bps,
        ) {
            Some(Abort::Overflow)
        } else {
            None
        }
    } else {
        None
    }
}

/// Whether the payment completes the repayment.
pub open spec fn completes(loan: LoanView, payment: i128) -> bool {
    loan.amount_repaid + payment >= loan.owed()
}

/// What there is to share among the vouchers of a repaid loan.
pub open spec fn available_for_yield(settings: Settings, loan: LoanView, now: u64) -> int {
    loan.total_yield + prepayment_penalty(settings, loan, now)
}

/// The bonus of a referrer.
pub open spec fn referral_bonus(settings: Settings, loan: LoanView) -> int {
    quotient(loan.amount * settings.bonus_bps(), 10_000)
}

/// Why a repayment cannot be completed.
pub open spec fn completion_fault(
    settings: Settings,
    account: AccountView,
    loan: LoanView,
    now: u64,
) -> Option<Abort> {
    let stakes = backing(account.vouches, loan.token_address);
    let available = available_for_yield(settings, loan, now);
    let distribution = distribution_fault(stakes, available, total_stake(stakes));
    if stake_overflows(stakes) || !fits(available) {
        Some(Abort::Overflow)
    } else if distribution is Some {
        distribution
    } else if account.referred_by is Some && !fits(loan.amount * settings.bonus_bps()) {
        Some(Abort::Overflow)
    } else if account.repayment_count == u32::MAX {
        Some(Abort::Overflow)
    } else {
        None
    }
}

/// Why a payment on a loan does not go through.
pub open spec fn payment_fault(
    settings: Settings,
    account: AccountView,
    loan: LoanView,
    now: u64,
    payment: i128,
) -> Option<Abort> {
    if now > loan.deadline {
        Some(Abort::DeadlinePassed)
    } else if !fits(loan.owed()) || !fits(loan.outstanding()) {
        Some(Abort::Overflow)
    } else if !(0 < payment <= loan.outstanding()) {
        Some(Abort::InvalidPayment)
    } else if now < loan.disbursement_timestamp {
        Some(Abort::Overflow)
    } else if penalty_fault(settings, loan, now) is Some {
        penalty_fault(settings, loan, now)
    } else if completes(loan, payment) {
        completion_fault(settings, account, loan, now)
    } else {
        None
    }
}

/// Why a repayment does not go through: the first of these checks that fails.
pub open spec fn repay_fault(
    l: LedgerView,
    call: Call,
    borrower: Address,
    payment: i128,
) -> Option<Fault> {
    if !call.signed_by(borrower) {
        Some(Fault::Abort(Abort::Unauthorized))
    } else if l.settings.paused {
        Some(Fault::Refuse(ContractError::ContractPaused))
    } else {
        match l.active_record(borrower) {
            None => Some(Fault::Refuse(ContractError::NoActiveLoan)),
            Some(loan) => if exists|i: int|
                0 <= i < loan.co_borrowers.len() && !call.signed_by(
                    #[trigger] loan.co_borrowers[i],
                ) {
                Some(Fault::Abort(Abort::Unauthorized))
            } else if borrower != loan.borrower {
                Some(Fault::Refuse(ContractError::UnauthorizedCaller))
            } else if loan.status != LoanStatus::Active {
                Some(Fault::Refuse(ContractError::NoActiveLoan))
            } else {
                match payment_fault(
                    l.settings,
                    l.account(borrower),
                    loan,
                    call.timestamp,
                    payment,
                ) {
                    Some(abort) => Some(Fault::Abort(abort)),
                    None => None,
                }
            },
        }
    }
}

/// The loan after a payment.
pub open spec fn loan_after_payment(loan: LoanView, now: u64, payment: i128) -> LoanView {
    let amount_repaid = (loan.amount_repaid + payment) as i128;
    if completes(loan, payment) {
        LoanView {
            amount_repaid,
            status: LoanStatus::Repaid,
            repayment_timestamp: Some(now),
            ..loan
        }
    } else {
        LoanView { amount_repaid, ..loan }
    }
}

/// The account after its loan has been repaid.
pub open spec fn account_after_completion(account: AccountView) -> AccountView {
    AccountView {
        repayment_count: (account.repayment_count + 1) as u32,
        active_loan: None,
        vouches: Seq::empty(),
        ..account
    }
}

/// The ledger after a repayment that goes through.
pub open spec fn repay_ledger(
    l: LedgerView,
    now: u64,
    borrower: Address,
    payment: i128,
) -> LedgerView {
    let loan = l.active_record(borrower)->0;
    let paid = l.with_loan(loan.id, loan_after_payment(loan, now, payment));
    if completes(loan, payment) {
        paid.with_account(borrower, account_after_completion(l.account(borrower)))
    } else {
        paid
    }
}

/// What the host carries out for the referrer of a borrower.
pub open spec fn bonus_effects(
    settings: Settings,
    account: AccountView,
    loan: LoanView,
    contract: Address,
    borrower: Address,
) -> Seq<Effect> {
    let bonus = referral_bonus(settings, loan);
    match account.referred_by {
        Some(referrer) => if bonus > 0 {
            seq![
                Effect::Transfer {
                    token: loan.token_address,
                    from: contract,
                    to: referrer,
                    amount: bonus as i128,
                },
                Effect::Publish(
                    Event::ReferralBonus { referrer, borrower, bonus: bonus as i128 },
                ),
            ]
        } else {
            Seq::empty()
        },
        None => Seq::empty(),
    }
}

/// What the host carries out for the reputation of a borrower.
pub open spec fn reputation_effects(settings: Settings, borrower: Address) -> Seq<Effect> {
    match settings.reputation_nft {
        Some(nft) => seq![Effect::MintReputation { nft, borrower }],
        None => Seq::empty(),
    }
}

/// What the host carries out when a repayment is completed.
pub open spec fn completion_effects(
    settings: Settings,
    account: AccountView,
    loan: LoanView,
    contract: Address,
    now: u64,
) -> Seq<Effect> {
    let stakes = backing(account.vouches, loan.token_address);
    payout_effects(
        stakes,
        contract,
        loan.token_address,
        available_for_yield(settings, loan, now),
        total_stake(stakes),
    ) + bonus_effects(settings, account, loan, contract, loan.borrower) + reputation_effects(
        settings,
        loan.borrower,
    ) + seq![Effect::Publish(Event::LoanRepaid { borrower: loan.borrower, amount: loan.amount })]
}

/// What the host carries out for a repayment that goes through.
pub open spec fn repay_effects(
    l: LedgerView,
    call: Call,
    borrower: Address,
    payment: i128,
) -> Seq<Effect> {
    let loan = l.active_record(borrower)->0;
    let paid = seq![
        Effect::Transfer {
            token: loan.token_address,
            from: borrower,
            to: call.contract,
            amount: payment,
        },
    ];
    if completes(loan, payment) {
        paid + completion_effects(
            l.settings,
            l.account(borrower),
            loan,
            call.contract,
            call.timestamp,
        )
    } else {
        paid
    }
}

/// Whether all of the addresses signed the call.
fn all_signed(call: &Call, addresses: &Vec<Address>) -> (yes: bool)
    ensures
        yes == !exists|i: int|
            0 <= i < addresses@.len() && !call.signed_by(#[trigger] addresses@[i]),
{
    let count: usize = addresses.len();
    for i in 0..count
        invariant
            count == addresses@.len(),
            forall|j: int| 0 <= j < i ==> call.signed_by(#[trigger] addresses@[j]),
    {
        if !call.has_signed(addresses[i]) {
            return false;
        }
    }
    true
}

/// The penalty for repaying before the deadline.
fn find_penalty(settings: &Settings, loan: &LoanRecord, owed: i128, now: u64) -> (penalty: Result<
    i128,
    Abort,
>)
    requires
        owed == loan@.owed(),
    ensures
        match penalty {
            Ok(x) => penalty_fault(*settings, loan@, now) is None && x == prepayment_penalty(
                *settings,
                loan@,
                now,
            ),
            Err(abort) => penalty_fault(*settings, loan@, now) == Some(abort),
        },
{
    let bps: u32 = settings.config.prepayment_penalty_bps;
    if loan.deadline > now && bps > 0 {
        let product: i128 = match loan.amount_repaid.checked_mul(loan.amount) {
            Some(product) => product,
            None => {
                return Err(Abort::Overflow);
            },
        };
        if owed == 0 {
            return Err(Abort::DivisionByZero);
        }
        match product.checked_div(owed) {
            Some(part) => match loan.amount.checked_sub(part) {
                Some(remaining) => match portion(remaining, bps as i128, 10_000) {
                    Some(penalty) => Ok(penalty),
                    None => Err(Abort::Overflow),
                },
                None => Err(Abort::Overflow),
            },
            None => Err(Abort::Overflow),
        }
    } else {
        Ok(0)
    }
}

/// What the host carries out when a repayment is completed.
fn complete(
    settings: &Settings,
    account: &Account,
    loan: &LoanRecord,
    penalty: i128,
    contract: Address,
    now: u64,
) -> (done: Result<Vec<Effect>, Abort>)
    requires
        penalty == prepayment_penalty(*settings, loan@, now),
    ensures
        match done {
            Ok(effects) => completion_fault(*settings, account@, loan@, now) is None && effects@
                == completion_effects(*settings, account@, loan@, contract, now),
            Err(abort) => completion_fault(*settings, account@, loan@, now) == Some(abort),
        },
{
    let borrower: Address = loan.borrower;
    let token: Address = loan.token_address;
    let stakes: Vec<VouchRecord> = vouches_in_token(&account.vouches, token);
    let total: i128 = match sum_stakes(&stakes) {
        Some(sum) => sum,
        None => {
            return Err(Abort::Overflow);
        },
    };
    let available: i128 = match loan.total_yield.checked_add(penalty) {
        Some(sum) => sum,
        None => {
            return Err(Abort::Overflow);
        },
    };
    let mut effects: Vec<Effect> = match distribute(&stakes, contract, token, available, total) {
        Ok(effects) => effects,
        Err(abort) => {
            return Err(abort);
        },
    };
    let ghost payouts = effects@;
    if let Some(referrer) = account.referred_by {
        match portion(loan.amount, settings.referral_bonus() as i128, 10_000) {
            Some(bonus) => {
                if bonus > 0 {
                    effects.push(
                        Effect::Transfer { token, from: contract, to: referrer, amount: bonus },
                    );
                    effects.push(
                        Effect::Publish(Event::ReferralBonus { referrer, borrower, bonus }),
                    );
                }
            },
            None => {
                return Err(Abort::Overflow);
            },
        }
    }
    if account.repayment_count == u32::MAX {
        return Err(Abort::Overflow);
    }
    if let Some(nft) = settings.reputation_nft {
        effects.push(Effect::MintReputation { nft, borrower });
    }
    effects.push(Effect::Publish(Event::LoanRepaid { borrower, amount: loan.amount }));
    assert(effects@ =~= completion_effects(*settings, account@, loan@, contract, now));
    Ok(effects)
}

/// A repayment that goes through.
struct Repayment {
    /// The loan after the payment.
    loan: LoanRecord,
    /// Whether the payment completes the repayment.
    completed: bool,
    /// What the host carries out.
    effects: Vec<Effect>,
}

/// The repayment, or why it does not go through.
fn plan_repay(ledger: &Ledger, call: &Call, borrower: Address, payment: i128) -> (plan: Result<
    Repayment,
    Fault,
>)
    ensures
        match plan {
            Ok(repayment) => {
                let loan = ledger@.active_record(borrower)->0;
                &&& repay_fault(ledger@, *call, borrower, payment) is None
                &&& repayment.loan@ == loan_after_payment(loan, call.timestamp, payment)
                &&& repayment.completed == completes(loan, payment)
                &&& repayment.effects@ == repay_effects(ledger@, *call, borrower, payment)
            },
            Err(fault) => repay_fault(ledger@, *call, borrower, payment) == Some(fault),
        },
{
    if !call.has_signed(borrower) {
        return Err(Fault::Abort(Abort::Unauthorized));
    }
    match ledger.require_not_paused() {
        Ok(_) => {},
        Err(error) => {
            return Err(Fault::Refuse(error));
        },
    }
    let loan: &LoanRecord = match ledger.get_active_loan_record(borrower) {
        Ok(loan) => loan,
        Err(error) => {
            return Err(Fault::Refuse(error));
        },
    };
    if !all_signed(call, &loan.co_borrowers) {
        assert(exists|i: int|
            0 <= i < loan@.co_borrowers.len() && !call.signed_by(
                #[trigger] loan@.co_borrowers[i],
            ));
        return Err(Fault::Abort(Abort::Unauthorized));
    }
    assert(forall|i: int|
        0 <= i < loan@.co_borrowers.len() ==> call.signed_by(#[trigger] loan@.co_borrowers[i]));
    if borrower != loan.borrower {
        return Err(Fault::Refuse(ContractError::UnauthorizedCaller));
    }
    if loan.status != LoanStatus::Active {
        return Err(Fault::Refuse(ContractError::NoActiveLoan));
    }
    let now: u64 = call.timestamp;
    if now > loan.deadline {
        return Err(Fault::Abort(Abort::DeadlinePassed));
    }
    let owed: i128 = match loan.amount.checked_add(loan.total_yield) {
        Some(owed) => owed,
        None => {
            return Err(Fault::Abort(Abort::Overflow));
        },
    };
    let outstanding: i128 = match owed.checked_sub(loan.amount_repaid) {
        Some(outstanding) => outstanding,
        None => {
            return Err(Fault::Abort(Abort::Overflow));
        },
    };
    if payment <= 0 || payment > outstanding {
        return Err(Fault::Abort(Abort::InvalidPayment));
    }
    if now < loan.disbursement_timestamp {
        return Err(Fault::Abort(Abort::Overflow));
    }
    let penalty: i128 = match find_penalty(&ledger.settings, loan, owed, now) {
        Ok(penalty) => penalty,
        Err(abort) => {
            return Err(Fault::Abort(abort));
        },
    };
    let mut effects: Vec<Effect> = Vec::new();
    effects.push(
        Effect::Transfer {
            token: loan.token_address,
            from: borrower,
            to: call.contract,
            amount: payment,
        },
    );
    let amount_repaid: i128 = loan.amount_repaid + payment;
    let completed: bool = amount_repaid >= owed;
    let mut updated: LoanRecord = loan.clone();
    updated.amount_repaid = amount_repaid;
    if completed {
        let account: Account = ledger.account_of(borrower);
        match complete(&ledger.settings, &account, loan, penalty, call.contract, now) {
            Ok(mut rest) => {
                effects.append(&mut rest);
            },
            Err(abort) => {
                return Err(Fault::Abort(abort));
            },
        }
        updated.status = LoanStatus::Repaid;
        updated.repayment_timestamp = Some(now);
    }
    assert(effects@ =~= repay_effects(ledger@, *call, borrower, payment));
    assert(updated@ =~= loan_after_payment(loan@, now, payment));
    Ok(Repayment { loan: updated, completed, effects })
}

/// Whether a repayment goes through, and why not.
pub fn check_repay(ledger: &Ledger, call: &Call, borrower: Address, payment: i128) -> (checked:
    Result<(), Fault>)
    ensures
        checked == check_result(repay_fault(ledger@, *call, borrower, payment)),
{
    match plan_repay(ledger, call, borrower, payment) {
        Ok(_) => Ok(()),
        Err(fault) => Err(fault),
    }
}

/// Pays on the borrower's active loan. The payment that completes the
/// repayment pays every voucher in the token of the loan their stake and
/// their share of the yield, pays the referrer, and closes the loan.
pub fn repay(ledger: &mut Ledger, call: &Call, borrower: Address, payment: i128) -> (answer: Result<
    Vec<Effect>,
    ContractError,
>)
    requires
        !aborts(repay_fault(old(ledger)@, *call, borrower, payment)),
    ensures
        match answer {
            Ok(effects) => {
                &&& repay_fault(old(ledger)@, *call, borrower, payment) is None
                &&& final(ledger)@ == repay_ledger(
                    old(ledger)@,
                    call.timestamp,
                    borrower,
                    payment,
                )
                &&& effects@ == repay_effects(old(ledger)@, *call, borrower, payment)
            },
            Err(error) => {
                &&& repay_fault(old(ledger)@, *call, borrower, payment) == Some(
                    Fault::Refuse(error),
                )
                &&& final(ledger)@ == old(ledger)@
            },
        },
{
    let repayment: Repayment = match plan_repay(ledger, call, borrower, payment) {
        Ok(repayment) => repayment,
        Err(fault) => {
            return match answered(Err(fault)) {
                Ok(_) => Ok(Vec::new()),
                Err(error) => Err(error),
            };
        },
    };
    if repayment.completed {
        let mut account: Account = ledger.account_of(borrower);
        account.repayment_count = account.repayment_count + 1;
        account.active_loan = None;
        account.vouches = Vec::new();
        assert(account@ =~= account_after_completion(old(ledger)@.account(borrower)));
        ledger.accounts.set(borrower, account);
    }
    ledger.loans.set(repayment.loan.id, repayment.loan);
    Ok(repayment.effects)
}

} // verus!
