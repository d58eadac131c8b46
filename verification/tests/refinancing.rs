use quorum_credit::ledger::{Account, Config, Ledger, Settings};
use quorum_credit::loan::{
    get_loan, get_loan_by_id, loan_count, refinance_loan, repay, repayment_count, request_loan,
};
use quorum_credit::refinance::check_refinance_loan;
use quorum_credit::types::{
    Abort, Address, AddressKind, Call, ContractError, Effect, Event, Fault, LoanStatus, VouchRecord,
};

fn address(n: u128) -> Address {
    Address { kind: AddressKind::Account, high: 7, low: n }
}

fn contract() -> Address {
    Address { kind: AddressKind::Contract, high: 0, low: 1 }
}

fn token() -> Address {
    Address { kind: AddressKind::Contract, high: 0, low: 2 }
}

fn other_token() -> Address {
    Address { kind: AddressKind::Contract, high: 0, low: 3 }
}

fn settings() -> Settings {
    Settings {
        paused: false,
        config: Config {
            min_loan_amount: 100,
            max_loan_to_stake_ratio: 150,
            loan_duration: 1_000,
            yield_bps: 200,
            prepayment_penalty_bps: 0,
        },
        max_loan_amount: 0,
        min_vouchers: 0,
        min_vouch_age: 60,
        default_threshold: 2,
        referral_bonus_bps: None,
        default_referral_bonus_bps: 100,
        reputation_nft: None,
    }
}

fn vouch(voucher: u128, stake: i128, time: u64, in_token: Address) -> VouchRecord {
    VouchRecord { voucher: address(voucher), stake, vouch_timestamp: time, token: in_token }
}

fn ledger_with(settings: Settings, vouches: Vec<VouchRecord>) -> Ledger {
    let mut ledger = Ledger::new(settings, vec![token(), other_token()]);
    let mut account = Account::new();
    account.vouches = vouches;
    ledger.accounts.set(address(1), account);
    ledger
}

fn call(timestamp: u64, signers: Vec<Address>) -> Call {
    Call { contract: contract(), timestamp, signers }
}

/// A ledger with a loan of 1000 and a yield of 20, due at 1100.
fn borrowed() -> Ledger {
    let mut ledger = ledger_with(
        settings(),
        vec![vouch(11, 1_000, 0, token()), vouch(12, 800, 0, other_token())],
    );
    let answer = request_loan(
        &mut ledger,
        &call(100, vec![address(1)]),
        address(1),
        1_000,
        1,
        vec![],
        token(),
        5_000,
    );
    assert!(answer.is_ok());
    ledger
}

fn check(ledger: &Ledger, amount: i128, threshold: i128, in_token: Address) -> Result<(), Fault> {
    check_refinance_loan(
        ledger,
        &call(400, vec![address(1)]),
        address(1),
        amount,
        threshold,
        in_token,
        5_000,
    )
}

#[test]
fn refinancing_replaces_the_loan() {
    let mut ledger = borrowed();
    assert!(repay(&mut ledger, &call(200, vec![address(1)]), address(1), 20).is_ok());
    assert_eq!(check(&ledger, 2_000, 800, other_token()), Ok(()));
    let effects = refinance_loan(
        &mut ledger,
        &call(400, vec![address(1)]),
        address(1),
        2_000,
        800,
        other_token(),
        5_000,
    );
    assert_eq!(
        effects,
        Ok(vec![
            Effect::Transfer {
                token: other_token(),
                from: contract(),
                to: address(1),
                amount: 2_000,
            },
            Effect::Transfer { token: token(), from: address(1), to: contract(), amount: 1_000 },
            Effect::Publish(Event::LoanRefinanced {
                borrower: address(1),
                amount: 2_000,
                old_loan_id: 1,
                loan_id: 2,
            }),
        ])
    );
    let old = get_loan_by_id(&ledger, 1).unwrap();
    assert_eq!(old.status, LoanStatus::Repaid);
    assert_eq!(old.amount_repaid, 1_020);
    assert_eq!(old.repayment_timestamp, Some(400));
    let new = get_loan(&ledger, address(1)).unwrap();
    assert_eq!(new.id, 2);
    assert_eq!(new.amount, 2_000);
    assert_eq!(new.total_yield, 40);
    assert_eq!(new.amount_repaid, 0);
    assert_eq!(new.status, LoanStatus::Active);
    assert_eq!(new.created_at, 400);
    assert_eq!(new.deadline, 1_400);
    assert_eq!(new.loan_purpose, b"refinanced".to_vec());
    assert_eq!(new.token_address, other_token());
    assert!(new.is_refinance);
    assert_eq!(new.original_loan_id, Some(1));
    assert!(ledger.has_active_loan(address(1)));
    assert_eq!(loan_count(&ledger, address(1)), 1);
    assert_eq!(repayment_count(&ledger, address(1)), 0);
    assert_eq!(ledger.account_of(address(1)).vouches.len(), 2);
}

#[test]
fn proceeds_repay_the_old_loan() {
    let mut ledger = borrowed();
    let effects = refinance_loan(
        &mut ledger,
        &call(400, vec![address(1)]),
        address(1),
        1_500,
        1,
        token(),
        5_000,
    )
    .unwrap();
    let mut received: i128 = 0;
    for effect in effects {
        if let Effect::Transfer { token: paid_in, from, to, amount } = effect {
            assert_eq!(paid_in, token());
            if (from, to) == (contract(), address(1)) {
                received += amount;
            } else {
                assert_eq!((from, to), (address(1), contract()));
                received -= amount;
            }
        }
    }
    assert_eq!(received, 1_500 - 1_020);
}

#[test]
fn refinancing_needs_an_active_loan() {
    let ledger = ledger_with(settings(), vec![]);
    assert_eq!(
        check(&ledger, 2_000, 1, token()),
        Err(Fault::Refuse(ContractError::NoActiveLoan))
    );
    let mut ledger = borrowed();
    let mut loan = get_loan(&ledger, address(1)).unwrap();
    loan.status = LoanStatus::Defaulted;
    ledger.loans.set(1, loan);
    let answer = refinance_loan(
        &mut ledger,
        &call(400, vec![address(1)]),
        address(1),
        2_000,
        1,
        token(),
        5_000,
    );
    assert_eq!(answer, Err(ContractError::NoActiveLoan));
    assert_eq!(ledger.loan_counter, 1);
}

#[test]
fn refinancing_is_checked_in_order() {
    let mut ledger = borrowed();
    assert_eq!(
        check(&ledger, 99, 0, address(9)),
        Err(Fault::Refuse(ContractError::LoanBelowMinAmount))
    );
    assert_eq!(
        check(&ledger, 2_000, 0, address(9)),
        Err(Fault::Abort(Abort::NonPositiveThreshold))
    );
    assert_eq!(
        check(&ledger, 2_000, 1, address(9)),
        Err(Fault::Refuse(ContractError::InvalidToken))
    );
    assert_eq!(
        check(&ledger, 2_000, 801, other_token()),
        Err(Fault::Abort(Abort::StakeBelowThreshold))
    );
    assert_eq!(
        check(&ledger, 5_001, 1, token()),
        Err(Fault::Refuse(ContractError::InsufficientFunds))
    );
    assert_eq!(
        check(&ledger, 1_019, 1, token()),
        Err(Fault::Abort(Abort::RefinanceBelowOutstanding))
    );
    assert_eq!(
        check(&ledger, 1_019, 1, other_token()),
        Err(Fault::Abort(Abort::RefinanceBelowOutstandingOtherToken))
    );
    assert_eq!(check(&ledger, 1_020, 1, token()), Ok(()));
    ledger.loan_counter = u64::MAX;
    assert_eq!(check(&ledger, 1_020, 1, token()), Err(Fault::Abort(Abort::Overflow)));
    ledger.settings.paused = true;
    assert_eq!(
        check(&ledger, 1_020, 1, token()),
        Err(Fault::Refuse(ContractError::ContractPaused))
    );
    let unsigned = check_refinance_loan(
        &ledger,
        &call(400, vec![]),
        address(1),
        1_020,
        1,
        token(),
        5_000,
    );
    assert_eq!(unsigned, Err(Fault::Abort(Abort::Unauthorized)));
}

#[test]
fn refinancing_is_refused_when_stakes_overflow() {
    let mut ledger = borrowed();
    let mut account = ledger.account_of(address(1));
    account.vouches.push(vouch(13, i128::MAX, 0, token()));
    ledger.accounts.set(address(1), account);
    assert_eq!(
        check(&ledger, 2_000, 1, token()),
        Err(Fault::Refuse(ContractError::StakeOverflow))
    );
}
