//! What a ledger keeps that starts empty and changes by the entry points: it
//! stays [`linked`] whatever the settings, and [`sound`] as long as the
//! settings are valid.

use vstd::prelude::*;

use crate::arith::{fits, quotient_is_bounded};
use crate::co_borrowers::{co_borrower_fault, co_borrower_ledger};
use crate::collateral::{deposit_fault, deposit_ledger};
use crate::ledger::{LedgerView, Settings};
use crate::referral::{referral_fault, referral_ledger};
use crate::refinance::{refinance_fault, refinance_ledger, replacement_loan};
use crate::repay::{repay_fault, repay_ledger};
use crate::request::{disbursed_loan, loan_yield, request_fault, request_ledger};
use crate::types::{Address, Call, LoanStatus, LoanView};

verus! {

/// What a loan that replaced another names: an older loan of the same
/// borrower, which is repaid in full.
pub open spec fn origin_is_settled(l: LedgerView, loan: LoanView) -> bool {
    &&& loan.is_refinance == (loan.original_loan_id is Some)
    &&& loan.original_loan_id matches Some(origin) ==> {
        &&& origin < loan.id
        &&& l.loans.contains_key(origin)
        &&& l.loans[origin].borrower == loan.borrower
        &&& l.loans[origin].status == LoanStatus::Repaid
        &&& l.loans[origin].amount_repaid == l.loans[origin].owed()
    }
}

/// Where a loan is recorded: under its own id, which is not above the
/// counter, no newer than its borrower's latest loan, and as the borrower's
/// active loan if it is active. A loan that it replaced is settled.
pub open spec fn loan_is_linked(l: LedgerView, id: u64) -> bool {
    let loan = l.loans[id];
    let account = l.account(loan.borrower);
    &&& 0 < id <= l.loan_counter
    &&& loan.id == id
    &&& loan.status != LoanStatus::NoLoan
    &&& account.latest_loan matches Some(latest) && id <= latest
    &&& loan.status == LoanStatus::Active ==> account.active_loan == Some(id)
    &&& origin_is_settled(l, loan)
}

/// What an account's active id names: an active loan of the borrower, which
/// is also their latest.
pub open spec fn active_is_linked(l: LedgerView, borrower: Address) -> bool {
    l.account(borrower).active_loan matches Some(id) ==> {
        &&& l.loans.contains_key(id)
        &&& l.loans[id].borrower == borrower
        &&& l.loans[id].status == LoanStatus::Active
        &&& l.account(borrower).latest_loan == Some(id)
    }
}

/// What an account's latest id names: a loan of the borrower.
pub open spec fn latest_is_linked(l: LedgerView, borrower: Address) -> bool {
    l.account(borrower).latest_loan matches Some(id) ==> {
        &&& l.loans.contains_key(id)
        &&& l.loans[id].borrower == borrower
    }
}

/// Whether loans and accounts name each other as they should.
pub open spec fn linked(l: LedgerView) -> bool {
    &&& forall|id: u64| l.loans.contains_key(id) ==> #[trigger] loan_is_linked(l, id)
    &&& forall|b: Address| #[trigger] active_is_linked(l, b)
    &&& forall|b: Address| #[trigger] latest_is_linked(l, b)
}

/// Whether the numbers of a loan belong together: no more than the obligation
/// has been repaid, exactly all of it if the loan is repaid, the time of the
/// repayment is known if the loan is repaid and not while it is active, and
/// no co-borrower is listed twice.
pub open spec fn loan_is_sound(loan: LoanView) -> bool {
    &&& 0 <= loan.amount
    &&& 0 <= loan.total_yield
    &&& 0 <= loan.amount_repaid <= loan.owed()
    &&& loan.status == LoanStatus::Repaid ==> loan.amount_repaid == loan.owed()
        && loan.repayment_timestamp is Some
    &&& loan.status == LoanStatus::Active ==> loan.repayment_timestamp is None
    &&& loan.status == LoanStatus::Active && loan.owed() > 0 ==> loan.outstanding() > 0
    &&& loan.disbursement_timestamp <= loan.deadline
    &&& loan.co_borrowers.no_duplicates()
}

/// Whether the numbers of every loan belong together.
pub open spec fn sound(l: LedgerView) -> bool {
    forall|id: u64| l.loans.contains_key(id) ==> loan_is_sound(#[trigger] l.loans[id])
}

/// Whether neither loans nor yields can be negative.
pub open spec fn valid_settings(settings: Settings) -> bool {
    settings.config.min_loan_amount >= 0 && settings.config.yield_bps >= 0
}

/// What a ledger keeps: see [`linked`] and [`sound`].
pub open spec fn consistent(l: LedgerView) -> bool {
    linked(l) && sound(l)
}

/// A ledger without loans and accounts is consistent.
pub proof fn new_ledger_is_consistent(settings: Settings, allowed_tokens: Seq<Address>)
    ensures
        consistent(
            LedgerView {
                settings,
                allowed_tokens,
                loan_counter: 0,
                loans: Map::empty(),
                accounts: Map::empty(),
            },
        ),
{
}

/// In a linked ledger a borrower has an active loan exactly if their
/// account names one, and exactly if their latest loan is active.
pub proof fn active_loan_is_the_latest(l: LedgerView, borrower: Address)
    requires
        linked(l),
    ensures
        l.has_active_loan(borrower) == (l.account(borrower).active_loan is Some),
        l.has_active_loan(borrower) == (crate::queries::latest_status(l, borrower)
            == LoanStatus::Active),
        l.has_active_loan(borrower) ==> l.active_record(borrower) == l.latest_record(borrower),
{
    assert(active_is_linked(l, borrower));
    assert(latest_is_linked(l, borrower));
    if let Some(id) = l.account(borrower).latest_loan {
        assert(loan_is_linked(l, id));
    }
}

/// A borrower has at most one active loan.
pub proof fn at_most_one_active_loan(l: LedgerView, a: u64, b: u64)
    requires
        linked(l),
        l.loans.contains_key(a),
        l.loans.contains_key(b),
        l.loans[a].status == LoanStatus::Active,
        l.loans[b].status == LoanStatus::Active,
        l.loans[a].borrower == l.loans[b].borrower,
    ensures
        a == b,
{
    assert(loan_is_linked(l, a));
    assert(loan_is_linked(l, b));
}

/// A new loan gets an id that no loan had before.
pub proof fn next_id_is_fresh(l: LedgerView)
    requires
        linked(l),
        l.loan_counter < u64::MAX,
    ensures
        !l.loans.contains_key((l.loan_counter + 1) as u64),
{
    let id = (l.loan_counter + 1) as u64;
    if l.loans.contains_key(id) {
        assert(loan_is_linked(l, id));
    }
}

/// A loan that replaced another names an older loan of the same borrower,
/// which is repaid in full.
pub proof fn replaced_loan_is_settled(l: LedgerView, id: u64, origin: u64)
    requires
        linked(l),
        l.loans.contains_key(id),
        l.loans[id].original_loan_id == Some(origin),
    ensures
        origin < id,
        l.loan(origin) matches Some(loan) && loan.borrower == l.loans[id].borrower && loan.status
            == LoanStatus::Repaid && loan.outstanding() == 0,
{
    assert(loan_is_linked(l, id));
}

/// A request that goes through keeps the ledger linked, whatever the
/// settings.
pub proof fn request_keeps_linked(
    l: LedgerView,
    call: Call,
    borrower: Address,
    amount: i128,
    threshold: i128,
    loan_purpose: Seq<u8>,
    token: Address,
    balance: i128,
)
    requires
        linked(l),
        request_fault(l, call, borrower, amount, threshold, token, balance) is None,
    ensures
        linked(request_ledger(l, call.timestamp, borrower, amount, loan_purpose, token)),
{
    let after = request_ledger(l, call.timestamp, borrower, amount, loan_purpose, token);
    let loan = disbursed_loan(l, call.timestamp, borrower, amount, loan_purpose, token, None);
    active_loan_is_the_latest(l, borrower);
    next_id_is_fresh(l);
    assert forall|id: u64| after.loans.contains_key(id) implies #[trigger] loan_is_linked(
        after,
        id,
    ) by {
        if id != loan.id {
            assert(loan_is_linked(l, id));
        }
    }
    assert forall|b: Address| #[trigger] active_is_linked(after, b) by {
        assert(active_is_linked(l, b));
    }
    assert forall|b: Address| #[trigger] latest_is_linked(after, b) by {
        assert(latest_is_linked(l, b));
    }
}

/// A request that goes through keeps the ledger consistent.
pub proof fn request_keeps_consistent(
    l: LedgerView,
    call: Call,
    borrower: Address,
    amount: i128,
    threshold: i128,
    loan_purpose: Seq<u8>,
    token: Address,
    balance: i128,
)
    requires
        consistent(l),
        valid_settings(l.settings),
        request_fault(l, call, borrower, amount, threshold, token, balance) is None,
    ensures
        consistent(request_ledger(l, call.timestamp, borrower, amount, loan_purpose, token)),
{
    let after = request_ledger(l, call.timestamp, borrower, amount, loan_purpose, token);
    request_keeps_linked(l, call, borrower, amount, threshold, loan_purpose, token, balance);
    lemma_yield_not_negative(l, amount);
    assert forall|id: u64| after.loans.contains_key(id) implies loan_is_sound(
        #[trigger] after.loans[id],
    ) by {
        if id != after.loan_counter {
            assert(loan_is_sound(l.loans[id]));
        }
    }
}

/// The yield on a loan that is not negative is not negative.
proof fn lemma_yield_not_negative(l: LedgerView, amount: i128)
    requires
        valid_settings(l.settings),
        amount >= 0,
        fits(amount * l.settings.config.yield_bps),
    ensures
        0 <= loan_yield(l, amount) <= i128::MAX,
{
    let bps = l.settings.config.yield_bps as int;
    assert(amount * bps >= 0) by (nonlinear_arith)
        requires
            amount >= 0,
            bps >= 0,
    ;
    quotient_is_bounded(amount * bps, 10_000);
}

/// A repayment that goes through keeps the ledger linked.
pub proof fn repay_keeps_linked(l: LedgerView, call: Call, borrower: Address, payment: i128)
    requires
        linked(l),
        repay_fault(l, call, borrower, payment) is None,
    ensures
        linked(repay_ledger(l, call.timestamp, borrower, payment)),
{
    let after = repay_ledger(l, call.timestamp, borrower, payment);
    let loan = l.active_record(borrower)->0;
    assert(active_is_linked(l, borrower));
    assert(loan_is_linked(l, l.account(borrower).active_loan->0));
    assert forall|id: u64| after.loans.contains_key(id) implies #[trigger] loan_is_linked(
        after,
        id,
    ) by {
        assert(loan_is_linked(l, id));
        if id != loan.id && l.loans[id].status == LoanStatus::Active {
            if l.loans[id].borrower == borrower {
                at_most_one_active_loan(l, id, loan.id);
            }
        }
    }
    assert forall|b: Address| #[trigger] active_is_linked(after, b) by {
        assert(active_is_linked(l, b));
    }
    assert forall|b: Address| #[trigger] latest_is_linked(after, b) by {
        assert(latest_is_linked(l, b));
    }
}

/// A repayment that goes through keeps the ledger consistent.
pub proof fn repay_keeps_consistent(l: LedgerView, call: Call, borrower: Address, payment: i128)
    requires
        consistent(l),
        repay_fault(l, call, borrower, payment) is None,
    ensures
        consistent(repay_ledger(l, call.timestamp, borrower, payment)),
{
    let after = repay_ledger(l, call.timestamp, borrower, payment);
    repay_keeps_linked(l, call, borrower, payment);
    assert(active_is_linked(l, borrower));
    assert(loan_is_linked(l, l.account(borrower).active_loan->0));
    assert forall|id: u64| after.loans.contains_key(id) implies loan_is_sound(
        #[trigger] after.loans[id],
    ) by {
        assert(loan_is_sound(l.loans[id]));
    }
}

/// A refinancing that goes through keeps the ledger linked, whatever the
/// settings.
pub proof fn refinance_keeps_linked(
    l: LedgerView,
    call: Call,
    borrower: Address,
    new_amount: i128,
    new_threshold: i128,
    new_token: Address,
    balance: i128,
)
    requires
        linked(l),
        refinance_fault(l, call, borrower, new_amount, new_threshold, new_token, balance) is None,
    ensures
        linked(refinance_ledger(l, call.timestamp, borrower, new_amount, new_token)),
{
    let after = refinance_ledger(l, call.timestamp, borrower, new_amount, new_token);
    let old_loan = l.active_record(borrower)->0;
    let new_loan = replacement_loan(l, call.timestamp, borrower, new_amount, new_token);
    assert(active_is_linked(l, borrower));
    assert(loan_is_linked(l, l.account(borrower).active_loan->0));
    next_id_is_fresh(l);
    assert forall|id: u64| after.loans.contains_key(id) implies #[trigger] loan_is_linked(
        after,
        id,
    ) by {
        if id != new_loan.id {
            assert(loan_is_linked(l, id));
            if id != old_loan.id && l.loans[id].status == LoanStatus::Active {
                if l.loans[id].borrower == borrower {
                    at_most_one_active_loan(l, id, old_loan.id);
                }
            }
        }
    }
    assert forall|b: Address| #[trigger] active_is_linked(after, b) by {
        assert(active_is_linked(l, b));
    }
    assert forall|b: Address| #[trigger] latest_is_linked(after, b) by {
        assert(latest_is_linked(l, b));
    }
}

/// A refinancing that goes through keeps the ledger consistent.
pub proof fn refinance_keeps_consistent(
    l: LedgerView,
    call: Call,
    borrower: Address,
    new_amount: i128,
    new_threshold: i128,
    new_token: Address,
    balance: i128,
)
    requires
        consistent(l),
        valid_settings(l.settings),
        refinance_fault(l, call, borrower, new_amount, new_threshold, new_token, balance) is None,
    ensures
        consistent(refinance_ledger(l, call.timestamp, borrower, new_amount, new_token)),
{
    let after = refinance_ledger(l, call.timestamp, borrower, new_amount, new_token);
    refinance_keeps_linked(
        l,
        call,
        borrower,
        new_amount,
        new_threshold,
        new_token,
        balance,
    );
    assert(active_is_linked(l, borrower));
    assert(loan_is_linked(l, l.account(borrower).active_loan->0));
    lemma_yield_not_negative(l, new_amount);
    assert forall|id: u64| after.loans.contains_key(id) implies loan_is_sound(
        #[trigger] after.loans[id],
    ) by {
        if id != after.loan_counter {
            assert(loan_is_sound(l.loans[id]));
        }
    }
}

/// A referral keeps the ledger linked, and consistent if it was.
pub proof fn referral_keeps_consistent(
    l: LedgerView,
    call: Call,
    borrower: Address,
    referrer: Address,
)
    requires
        linked(l),
        referral_fault(l, call, borrower, referrer) is None,
    ensures
        linked(referral_ledger(l, borrower, referrer)),
        consistent(l) ==> consistent(referral_ledger(l, borrower, referrer)),
{
    lemma_same_links(l, referral_ledger(l, borrower, referrer));
}

/// A deposit keeps the ledger linked, and consistent if it was.
pub proof fn deposit_keeps_consistent(
    l: LedgerView,
    call: Call,
    borrower: Address,
    amount: i128,
    token: Address,
)
    requires
        linked(l),
        deposit_fault(l, call, borrower, amount, token) is None,
    ensures
        linked(deposit_ledger(l, borrower, amount, token)),
        consistent(l) ==> consistent(deposit_ledger(l, borrower, amount, token)),
{
    lemma_same_links(l, deposit_ledger(l, borrower, amount, token));
}

/// A change of accounts that leaves their loans alone keeps a ledger linked.
proof fn lemma_same_links(l: LedgerView, after: LedgerView)
    requires
        linked(l),
        after.loans == l.loans,
        after.loan_counter == l.loan_counter,
        forall|b: Address|
            (#[trigger] after.account(b)).active_loan == l.account(b).active_loan
                && after.account(b).latest_loan == l.account(b).latest_loan,
    ensures
        linked(after),
{
    assert forall|id: u64| after.loans.contains_key(id) implies #[trigger] loan_is_linked(
        after,
        id,
    ) by {
        assert(loan_is_linked(l, id));
    }
    assert forall|b: Address| #[trigger] active_is_linked(after, b) by {
        assert(active_is_linked(l, b));
    }
    assert forall|b: Address| #[trigger] latest_is_linked(after, b) by {
        assert(latest_is_linked(l, b));
    }
}

/// A co-borrower that is added keeps the ledger linked, and consistent if it
/// was.
pub proof fn co_borrower_keeps_consistent(
    l: LedgerView,
    call: Call,
    loan_id: u64,
    co_borrower: Address,
)
    requires
        linked(l),
        co_borrower_fault(l, call, loan_id, co_borrower) is None,
    ensures
        linked(co_borrower_ledger(l, loan_id, co_borrower)),
        consistent(l) ==> consistent(co_borrower_ledger(l, loan_id, co_borrower)),
{
    let after = co_borrower_ledger(l, loan_id, co_borrower);
    assert forall|id: u64| after.loans.contains_key(id) implies #[trigger] loan_is_linked(
        after,
        id,
    ) by {
        assert(loan_is_linked(l, id));
    }
    assert forall|b: Address| #[trigger] active_is_linked(after, b) by {
        assert(active_is_linked(l, b));
    }
    assert forall|b: Address| #[trigger] latest_is_linked(after, b) by {
        assert(latest_is_linked(l, b));
    }
    if sound(l) {
        assert forall|id: u64| after.loans.contains_key(id) implies loan_is_sound(
            #[trigger] after.loans[id],
        ) by {
            assert(loan_is_sound(l.loans[id]));
            if id == loan_id {
                lemma_push_new(l.loans[id].co_borrowers, co_borrower);
            }
        }
    }
}

/// A list without duplicates stays without when it gets a new address.
proof fn lemma_push_new(list: Seq<Address>, address: Address)
    requires
        list.no_duplicates(),
        !list.contains(address),
    ensures
        list.push(address).no_duplicates(),
{
    assert forall|i: int, j: int|
        0 <= i < list.len() + 1 && 0 <= j < list.len() + 1 && i != j implies list.push(
        address,
    )[i] != list.push(address)[j] by {
        if i == list.len() {
            assert(list.contains(list[j]));
        } else if j == list.len() {
            assert(list.contains(list[i]));
        }
    }
}

} // verus!
