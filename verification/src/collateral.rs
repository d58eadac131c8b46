//! Collateral that a borrower deposits.

use vstd::prelude::*;

use crate::arith::fits;
use crate::ledger::{Account, AccountView, Ledger, LedgerView};
use crate::types::{
    aborts, answered, check_result, Abort, Address, Call, ContractError, Effect, Event, Fault,
};

verus! {

/// Why a deposit does not go through: the first of these checks that fails.
pub open spec fn deposit_fault(
    l: LedgerView,
    call: Call,
    borrower: Address,
    amount: i128,
    token: Address,
) -> Option<Fault> {
    if !call.signed_by(borrower) {
        Some(Fault::Abort(Abort::Unauthorized))
    } else if l.settings.paused {
        Some(Fault::Refuse(ContractError::ContractPaused))
    } else if amount <= 0 {
        Some(Fault::Abort(Abort::NonPositiveCollateral))
    } else if !l.allows(token) {
        Some(Fault::Refuse(ContractError::InvalidToken))
    } else if !fits(l.account(borrower).collateral + amount) {
        Some(Fault::Abort(Abort::Overflow))
    } else {
        None
    }
}

/// The ledger after a deposit that goes through.
pub open spec fn deposit_ledger(
    l: LedgerView,
    borrower: Address,
    amount: i128,
    token: Address,
) -> LedgerView {
    let account = l.account(borrower);
    l.with_account(
        borrower,
        AccountView {
            collateral: (account.collateral + amount) as i128,
            collateral_token: Some(token),
            ..account
        },
    )
}

/// What the host carries out for a deposit that goes through.
pub open spec fn deposit_effects(
    call: Call,
    borrower: Address,
    amount: i128,
    token: Address,
) -> Seq<Effect> {
    seq![
        Effect::Transfer { token, from: borrower, to: call.contract, amount },
        Effect::Publish(Event::CollateralDeposited { borrower, amount, token }),
    ]
}

/// Whether a deposit goes through, and why not.
pub fn check_deposit_collateral(
    ledger: &Ledger,
    call: &Call,
    borrower: Address,
    amount: i128,
    token: Address,
) -> (checked: Result<(), Fault>)
    ensures
        checked == check_result(deposit_fault(ledger@, *call, borrower, amount, token)),
{
    if !call.has_signed(borrower) {
        return Err(Fault::Abort(Abort::Unauthorized));
    }
    match ledger.require_not_paused() {
        Ok(_) => {},
        Err(error) => {
            return Err(Fault::Refuse(error));
        },
    }
    if amount <= 0 {
        return Err(Fault::Abort(Abort::NonPositiveCollateral));
    }
    match ledger.require_allowed_token(token) {
        Ok(_) => {},
        Err(error) => {
            return Err(Fault::Refuse(error));
        },
    }
    if get_collateral(ledger, borrower).checked_add(amount).is_none() {
        return Err(Fault::Abort(Abort::Overflow));
    }
    Ok(())
}

/// Deposits collateral for a borrower, on top of what they deposited before.
/// A borrower who has exceeded the default threshold cannot borrow without.
pub fn deposit_collateral(
    ledger: &mut Ledger,
    call: &Call,
    borrower: Address,
    amount: i128,
    token: Address,
) -> (answer: Result<Vec<Effect>, ContractError>)
    requires
        !aborts(deposit_fault(old(ledger)@, *call, borrower, amount, token)),
    ensures
        match answer {
            Ok(effects) => {
                &&& deposit_fault(old(ledger)@, *call, borrower, amount, token) is None
                &&& final(ledger)@ == deposit_ledger(old(ledger)@, borrower, amount, token)
                &&& effects@ == deposit_effects(*call, borrower, amount, token)
            },
            Err(error) => {
                &&& deposit_fault(old(ledger)@, *call, borrower, amount, token) == Some(
                    Fault::Refuse(error),
                )
                &&& final(ledger)@ == old(ledger)@
            },
        },
{
    match answered(check_deposit_collateral(ledger, call, borrower, amount, token)) {
        Ok(_) => {},
        Err(error) => {
            return Err(error);
        },
    }
    let mut account: Account = ledger.account_of(borrower);
    account.collateral = account.collateral + amount;
    account.collateral_token = Some(token);
    ledger.accounts.set(borrower, account);
    let mut effects: Vec<Effect> = Vec::new();
    effects.push(Effect::Transfer { token, from: borrower, to: call.contract, amount });
    effects.push(Effect::Publish(Event::CollateralDeposited { borrower, amount, token }));
    Ok(effects)
}

/// The collateral of a borrower.
pub fn get_collateral(ledger: &Ledger, borrower: Address) -> (amount: i128)
    ensures
        amount == ledger@.account(borrower).collateral,
{
    match ledger.accounts.get(borrower) {
        Some(account) => account.collateral,
        None => 0,
    }
}

} // verus!
