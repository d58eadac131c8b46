//! Requesting a loan.

use vstd::prelude::*;

use crate::arith::{fits, portion, quotient};
use crate::ledger::{Account, AccountView, Ledger, LedgerView};
use crate::types::{
    aborts, answered, check_result, Abort, Address, Call, ContractError, Effect, Event, Fault,
    LoanRecord, LoanStatus, LoanView,
};
use crate::vouches::{
    age_fault, backing, find_age_fault, stake_overflows, sum_stakes, total_stake, vouches_in_token,
};

verus! {

/// The largest loan that the stakes carry, before it is checked to fit.
pub open spec fn max_allowed_loan(l: LedgerView, stake: int) -> int {
    quotient(stake * l.settings.config.max_loan_to_stake_ratio, 100)
}

/// The yield on a loan of the amount.
pub open spec fn loan_yield(l: LedgerView, amount: i128) -> int {
    quotient(amount * l.settings.config.yield_bps, 10_000)
}

/// Whether a number that a new loan stores leaves the range of its type: the
/// deadline, the id, or the yield.
pub open spec fn terms_overflow(l: LedgerView, now: u64, amount: i128) -> bool {
    ||| now + l.settings.config.loan_duration > u64::MAX
    ||| l.loan_counter == u64::MAX
    ||| !fits(amount * l.settings.config.yield_bps)
}

/// Whether the borrower has to deposit collateral before they can borrow:
/// they have exceeded the default threshold and none is deposited.
pub open spec fn lacks_collateral(l: LedgerView, borrower: Address) -> bool {
    let account = l.account(borrower);
    account.default_count > l.settings.default_threshold && account.collateral <= 0
}

/// Why a request does not go through: the first of these checks that fails.
pub open spec fn request_fault(
    l: LedgerView,
    call: Call,
    borrower: Address,
    amount: i128,
    threshold: i128,
    token: Address,
    balance: i128,
) -> Option<Fault> {
    let settings = l.settings;
    let stakes = backing(l.account(borrower).vouches, token);
    let stake = total_stake(stakes);
    let age = age_fault(stakes, call.timestamp, settings.min_vouch_age);
    if !call.signed_by(borrower) {
        Some(Fault::Abort(Abort::Unauthorized))
    } else if settings.paused {
        Some(Fault::Refuse(ContractError::ContractPaused))
    } else if l.account(borrower).blacklisted {
        Some(Fault::Refuse(ContractError::Blacklisted))
    } else if !l.allows(token) {
        Some(Fault::Refuse(ContractError::InvalidToken))
    } else if amount < settings.config.min_loan_amount {
        Some(Fault::Refuse(ContractError::LoanBelowMinAmount))
    } else if threshold <= 0 {
        Some(Fault::Abort(Abort::NonPositiveThreshold))
    } else if 0 < settings.max_loan_amount < amount {
        Some(Fault::Refuse(ContractError::LoanExceedsMaxAmount))
    } else if l.has_active_loan(borrower) {
        Some(Fault::Abort(Abort::ActiveLoanExists))
    } else if stake_overflows(stakes) {
        Some(Fault::Refuse(ContractError::StakeOverflow))
    } else if stake < threshold {
        Some(Fault::Abort(Abort::StakeBelowThreshold))
    } else if stakes.len() < settings.min_vouchers {
        Some(Fault::Refuse(ContractError::InsufficientVouchers))
    } else if age is Some {
        age
    } else if !fits(stake * settings.config.max_loan_to_stake_ratio) {
        Some(Fault::Abort(Abort::Overflow))
    } else if amount > max_allowed_loan(l, stake) {
        Some(Fault::Abort(Abort::CollateralRatioExceeded))
    } else if balance < amount {
        Some(Fault::Refuse(ContractError::InsufficientFunds))
    } else if lacks_collateral(l, borrower) {
        Some(Fault::Abort(Abort::CollateralRequired))
    } else if terms_overflow(l, call.timestamp, amount) || l.account(borrower).loan_count
        == u32::MAX {
        Some(Fault::Abort(Abort::Overflow))
    } else {
        None
    }
}

/// A loan as it is disbursed.
pub open spec fn disbursed_loan(
    l: LedgerView,
    now: u64,
    borrower: Address,
    amount: i128,
    loan_purpose: Seq<u8>,
    token: Address,
    refinanced: Option<u64>,
) -> LoanView {
    LoanView {
        id: (l.loan_counter + 1) as u64,
        borrower,
        co_borrowers: Seq::empty(),
        amount,
        amount_repaid: 0,
        total_yield: loan_yield(l, amount) as i128,
        status: LoanStatus::Active,
        created_at: now,
        disbursement_timestamp: now,
        repayment_timestamp: None,
        deadline: (now + l.settings.config.loan_duration) as u64,
        loan_purpose,
        token_address: token,
        collateral_amount: 0,
        is_refinance: refinanced is Some,
        original_loan_id: refinanced,
    }
}

/// The ledger after a loan has been recorded under the next id.
pub open spec fn with_new_loan(l: LedgerView, loan: LoanView) -> LedgerView {
    LedgerView { loan_counter: loan.id, loans: l.loans.insert(loan.id, loan), ..l }
}

/// The ledger after a request that goes through.
pub open spec fn request_ledger(
    l: LedgerView,
    now: u64,
    borrower: Address,
    amount: i128,
    loan_purpose: Seq<u8>,
    token: Address,
) -> LedgerView {
    let loan = disbursed_loan(l, now, borrower, amount, loan_purpose, token, None);
    let account = l.account(borrower);
    with_new_loan(l, loan).with_account(
        borrower,
        AccountView {
            active_loan: Some(loan.id),
            latest_loan: Some(loan.id),
            loan_count: (account.loan_count + 1) as u32,
            ..account
        },
    )
}

/// What the host carries out for a request that goes through.
pub open spec fn request_effects(
    l: LedgerView,
    call: Call,
    borrower: Address,
    amount: i128,
    token: Address,
) -> Seq<Effect> {
    seq![
        Effect::Transfer { token, from: call.contract, to: borrower, amount },
        Effect::Publish(
            Event::LoanDisbursed {
                borrower,
                amount,
                deadline: (call.timestamp + l.settings.config.loan_duration) as u64,
                token,
            },
        ),
    ]
}

/// Whether a request goes through, and why not.
pub fn check_request_loan(
    ledger: &Ledger,
    call: &Call,
    borrower: Address,
    amount: i128,
    threshold: i128,
    token_addr: Address,
    balance: i128,
) -> (checked: Result<(), Fault>)
    ensures
        checked == check_result(
            request_fault(ledger@, *call, borrower, amount, threshold, token_addr, balance),
        ),
{
    let settings = ledger.settings;
    if !call.has_signed(borrower) {
        return Err(Fault::Abort(Abort::Unauthorized));
    }
    match ledger.require_not_paused() {
        Ok(_) => {},
        Err(error) => {
            return Err(Fault::Refuse(error));
        },
    }
    let account: Account = ledger.account_of(borrower);
    if account.blacklisted {
        return Err(Fault::Refuse(ContractError::Blacklisted));
    }
    match ledger.require_allowed_token(token_addr) {
        Ok(_) => {},
        Err(error) => {
            return Err(Fault::Refuse(error));
        },
    }
    if amount < settings.config.min_loan_amount {
        return Err(Fault::Refuse(ContractError::LoanBelowMinAmount));
    }
    if threshold <= 0 {
        return Err(Fault::Abort(Abort::NonPositiveThreshold));
    }
    if settings.max_loan_amount > 0 && amount > settings.max_loan_amount {
        return Err(Fault::Refuse(ContractError::LoanExceedsMaxAmount));
    }
    if ledger.has_active_loan(borrower) {
        return Err(Fault::Abort(Abort::ActiveLoanExists));
    }
    let stakes = vouches_in_token(&account.vouches, token_addr);
    let stake: i128 = match sum_stakes(&stakes) {
        Some(sum) => sum,
        None => {
            return Err(Fault::Refuse(ContractError::StakeOverflow));
        },
    };
    if stake < threshold {
        return Err(Fault::Abort(Abort::StakeBelowThreshold));
    }
    if (stakes.len() as u128) < (settings.min_vouchers as u128) {
        return Err(Fault::Refuse(ContractError::InsufficientVouchers));
    }
    match find_age_fault(&stakes, call.timestamp, settings.min_vouch_age) {
        Some(fault) => {
            return Err(fault);
        },
        None => {},
    }
    match portion(stake, settings.config.max_loan_to_stake_ratio as i128, 100) {
        Some(max_allowed) => {
            if amount > max_allowed {
                return Err(Fault::Abort(Abort::CollateralRatioExceeded));
            }
        },
        None => {
            return Err(Fault::Abort(Abort::Overflow));
        },
    }
    if balance < amount {
        return Err(Fault::Refuse(ContractError::InsufficientFunds));
    }
    if account.default_count > settings.default_threshold && account.collateral <= 0 {
        return Err(Fault::Abort(Abort::CollateralRequired));
    }
    if !terms_fit(ledger, call.timestamp, amount) || account.loan_count == u32::MAX {
        return Err(Fault::Abort(Abort::Overflow));
    }
    Ok(())
}

/// Whether every number that a new loan stores fits its type.
pub(crate) fn terms_fit(ledger: &Ledger, now: u64, amount: i128) -> (yes: bool)
    ensures
        yes == !terms_overflow(ledger@, now, amount),
{
    let config = ledger.settings.config;
    now.checked_add(config.loan_duration).is_some() && ledger.loan_counter < u64::MAX
        && amount.checked_mul(config.yield_bps).is_some()
}

/// Records a new loan under the next id and returns the id.
pub(crate) fn record_loan(
    ledger: &mut Ledger,
    now: u64,
    borrower: Address,
    amount: i128,
    loan_purpose: Vec<u8>,
    token: Address,
    refinanced: Option<u64>,
) -> (loan_id: u64)
    requires
        !terms_overflow(old(ledger)@, now, amount),
    ensures
        loan_id == old(ledger)@.loan_counter + 1,
        final(ledger)@ == with_new_loan(
            old(ledger)@,
            disbursed_loan(
                old(ledger)@,
                now,
                borrower,
                amount,
                loan_purpose@,
                token,
                refinanced,
            ),
        ),
{
    let config = ledger.settings.config;
    let loan_id: u64 = ledger.loan_counter + 1;
    let total_yield: i128 = match portion(amount, config.yield_bps, 10_000) {
        Some(part) => part,
        None => 0,
    };
    let loan = LoanRecord {
        id: loan_id,
        borrower,
        co_borrowers: Vec::new(),
        amount,
        amount_repaid: 0,
        total_yield,
        status: LoanStatus::Active,
        created_at: now,
        disbursement_timestamp: now,
        repayment_timestamp: None,
        deadline: now + config.loan_duration,
        loan_purpose,
        token_address: token,
        collateral_amount: 0,
        is_refinance: refinanced.is_some(),
        original_loan_id: refinanced,
    };
    assert(loan@ =~= disbursed_loan(
        old(ledger)@,
        now,
        borrower,
        amount,
        loan_purpose@,
        token,
        refinanced,
    ));
    ledger.loan_counter = loan_id;
    ledger.loans.set(loan_id, loan);
    loan_id
}

/// Disburses a loan to the borrower, against the stakes of their vouchers in
/// the token of the loan. A borrower who has exceeded the default threshold
/// has to have collateral deposited. `balance` is what the contract holds of the token.
pub fn request_loan(
    ledger: &mut Ledger,
    call: &Call,
    borrower: Address,
    amount: i128,
    threshold: i128,
    loan_purpose: Vec<u8>,
    token_addr: Address,
    balance: i128,
) -> (answer: Result<Vec<Effect>, ContractError>)
    requires
        !aborts(
            request_fault(old(ledger)@, *call, borrower, amount, threshold, token_addr, balance),
        ),
    ensures
        match answer {
            Ok(effects) => {
                &&& request_fault(
                    old(ledger)@,
                    *call,
                    borrower,
                    amount,
                    threshold,
                    token_addr,
                    balance,
                ) is None
                &&& final(ledger)@ == request_ledger(
                    old(ledger)@,
                    call.timestamp,
                    borrower,
                    amount,
                    loan_purpose@,
                    token_addr,
                )
                &&& effects@ == request_effects(old(ledger)@, *call, borrower, amount, token_addr)
            },
            Err(error) => {
                &&& request_fault(
                    old(ledger)@,
                    *call,
                    borrower,
                    amount,
                    threshold,
                    token_addr,
                    balance,
                ) == Some(Fault::Refuse(error))
                &&& final(ledger)@ == old(ledger)@
            },
        },
{
    match answered(
        check_request_loan(ledger, call, borrower, amount, threshold, token_addr, balance),
    ) {
        Ok(_) => {},
        Err(error) => {
            return Err(error);
        },
    }
    let now: u64 = call.timestamp;
    let deadline: u64 = now + ledger.settings.config.loan_duration;
    let mut account: Account = ledger.account_of(borrower);
    let loan_id: u64 = record_loan(ledger, now, borrower, amount, loan_purpose, token_addr, None);
    account.active_loan = Some(loan_id);
    account.latest_loan = Some(loan_id);
    account.loan_count = account.loan_count + 1;
    ledger.accounts.set(borrower, account);
    let mut effects: Vec<Effect> = Vec::new();
    effects.push(
        Effect::Transfer { token: token_addr, from: call.contract, to: borrower, amount },
    );
    effects.push(
        Effect::Publish(Event::LoanDisbursed { borrower, amount, deadline, token: token_addr }),
    );
    Ok(effects)
}

} // verus!
