//! Referrers of borrowers.

use vstd::prelude::*;

use crate::ledger::{Account, AccountView, Ledger, LedgerView};
use crate::types::{
    aborts, answered, check_result, Abort, Address, Call, ContractError, Effect, Event, Fault,
};

verus! {

/// Why a referral does not go through: the first of these checks that fails.
pub open spec fn referral_fault(
    l: LedgerView,
    call: Call,
    borrower: Address,
    referrer: Address,
) -> Option<Fault> {
    if !call.signed_by(borrower) {
        Some(Fault::Abort(Abort::Unauthorized))
    } else if l.settings.paused {
        Some(Fault::Refuse(ContractError::ContractPaused))
    } else if borrower == referrer {
        Some(Fault::Abort(Abort::SelfReferral))
    } else if l.has_active_loan(borrower) {
        Some(Fault::Abort(Abort::ReferralWithActiveLoan))
    } else {
        None
    }
}

/// The ledger after a referral that goes through.
pub open spec fn referral_ledger(
    l: LedgerView,
    borrower: Address,
    referrer: Address,
) -> LedgerView {
    l.with_account(
        borrower,
        AccountView { referred_by: Some(referrer), ..l.account(borrower) },
    )
}

/// Whether a referral goes through, and why not.
pub fn check_register_referral(
    ledger: &Ledger,
    call: &Call,
    borrower: Address,
    referrer: Address,
) -> (checked: Result<(), Fault>)
    ensures
        checked == check_result(referral_fault(ledger@, *call, borrower, referrer)),
{
    if !call.has_signed(borrower) {
        return Err(Fault::Abort(Abort::Unauthorized));
    }
    match ledger.require_not_paused() {
        Ok(_) => {},
        Err(error) => {
            return Err(Fault::Refuse(error));
        },
    }
    if borrower == referrer {
        return Err(Fault::Abort(Abort::SelfReferral));
    }
    if ledger.has_active_loan(borrower) {
        return Err(Fault::Abort(Abort::ReferralWithActiveLoan));
    }
    Ok(())
}

/// Names the referrer of a borrower, in place of one that was named before.
pub fn register_referral(
    ledger: &mut Ledger,
    call: &Call,
    borrower: Address,
    referrer: Address,
) -> (answer: Result<Vec<Effect>, ContractError>)
    requires
        !aborts(referral_fault(old(ledger)@, *call, borrower, referrer)),
    ensures
        match answer {
            Ok(effects) => {
                &&& referral_fault(old(ledger)@, *call, borrower, referrer) is None
                &&& final(ledger)@ == referral_ledger(old(ledger)@, borrower, referrer)
                &&& effects@ == seq![
                    Effect::Publish(Event::ReferralSet { borrower, referrer }),
                ]
            },
            Err(error) => {
                &&& referral_fault(old(ledger)@, *call, borrower, referrer) == Some(
                    Fault::Refuse(error),
                )
                &&& final(ledger)@ == old(ledger)@
            },
        },
{
    match answered(check_register_referral(ledger, call, borrower, referrer)) {
        Ok(_) => {},
        Err(error) => {
            return Err(error);
        },
    }
    let mut account: Account = ledger.account_of(borrower);
    account.referred_by = Some(referrer);
    ledger.accounts.set(borrower, account);
    let mut effects: Vec<Effect> = Vec::new();
    effects.push(Effect::Publish(Event::ReferralSet { borrower, referrer }));
    Ok(effects)
}

/// The referrer of a borrower.
pub fn get_referrer(ledger: &Ledger, borrower: Address) -> (referrer: Option<Address>)
    ensures
        referrer == ledger@.account(borrower).referred_by,
{
    match ledger.accounts.get(borrower) {
        Some(account) => account.referred_by,
        None => None,
    }
}

} // verus!
