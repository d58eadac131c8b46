use quorum_credit::collateral::check_deposit_collateral;
use quorum_credit::ledger::{Account, Config, Ledger, Settings};
use quorum_credit::loan::{
    add_co_borrower, deposit_collateral, get_loan, get_loan_by_id, refinance_loan,
    register_referral, repay, request_loan,
};
use quorum_credit::referral::check_register_referral;
use quorum_credit::refinance::check_refinance_loan;
use quorum_credit::repay::check_repay;
use quorum_credit::request::check_request_loan;
use quorum_credit::types::{
    Abort, Address, AddressKind, Call, ContractError, Effect, Fault, LoanStatus, VouchRecord,
};
use quorum_credit::vouches::{distribute, find_age_fault, sum_stakes, vouches_in_token};

fn address(n: u128) -> Address {
    Address { kind: AddressKind::Account, high: 7, low: n }
}

fn contract() -> Address {
    Address { kind: AddressKind::Contract, high: 0, low: 1 }
}

fn token() -> Address {
    Address { kind: AddressKind::Contract, high: 0, low: 2 }
}

fn other_token() -> Address {
    Address { kind: AddressKind::Contract, high: 0, low: 3 }
}

fn settings() -> Settings {
    Settings {
        paused: false,
        config: Config {
            min_loan_amount: 100,
            max_loan_to_stake_ratio: 150,
            loan_duration: 1_000,
            yield_bps: 200,
            prepayment_penalty_bps: 0,
        },
        max_loan_amount: 0,
        min_vouchers: 0,
        min_vouch_age: 60,
        default_threshold: 2,
        referral_bonus_bps: None,
        default_referral_bonus_bps: 100,
        reputation_nft: None,
    }
}

fn vouch(voucher: u128, stake: i128, time: u64, in_token: Address) -> VouchRecord {
    VouchRecord { voucher: address(voucher), stake, vouch_timestamp: time, token: in_token }
}

fn ledger_with(settings: Settings, vouches: Vec<VouchRecord>) -> Ledger {
    let mut ledger = Ledger::new(settings, vec![token(), other_token()]);
    let mut account = Account::new();
    account.vouches = vouches;
    ledger.accounts.set(address(1), account);
    ledger
}

fn call(timestamp: u64, signers: Vec<Address>) -> Call {
    Call { contract: contract(), timestamp, signers }
}

fn thirds() -> Vec<VouchRecord> {
    vec![vouch(11, 1, 0, token()), vouch(12, 1, 0, token()), vouch(13, 1, 0, token())]
}

#[test]
fn shares_leave_little_over() {
    let effects = distribute(&thirds(), contract(), token(), 20, 3).unwrap();
    let mut paid: i128 = 0;
    for effect in effects {
        match effect {
            Effect::Transfer { amount, .. } => paid += amount,
            _ => unreachable!(),
        }
    }
    assert_eq!(paid, 3 + 18);
}

#[test]
fn only_vouches_in_the_token_count() {
    let mut vouches = thirds();
    vouches.insert(1, vouch(14, 50, 0, other_token()));
    assert_eq!(vouches_in_token(&vouches, token()), thirds());
    assert_eq!(vouches_in_token(&vouches, address(1)), vec![]);
    assert_eq!(sum_stakes(&vouches), Some(53));
}

#[test]
fn first_wrong_age_counts() {
    let young = vouch(11, 1, 50, token());
    let late = vouch(12, 1, u64::MAX, token());
    assert_eq!(
        find_age_fault(&vec![young, late], 100, 60),
        Some(Fault::Refuse(ContractError::VouchTooRecent))
    );
    assert_eq!(
        find_age_fault(&vec![late, young], 100, 60),
        Some(Fault::Abort(Abort::Overflow))
    );
    assert_eq!(find_age_fault(&vec![young], 110, 60), None);
}

fn every_check(ledger: &Ledger, call: &Call) -> Vec<Result<(), Fault>> {
    let who = address(1);
    vec![
        check_request_loan(ledger, call, who, 100, 1, token(), 100),
        check_repay(ledger, call, who, 1),
        check_refinance_loan(ledger, call, who, 100, 1, token(), 100),
        check_deposit_collateral(ledger, call, who, 1, token()),
        check_register_referral(ledger, call, who, address(2)),
    ]
}

#[test]
fn nothing_moves_while_paused() {
    let mut ledger = ledger_with(settings(), thirds());
    ledger.settings.paused = true;
    for checked in every_check(&ledger, &call(100, vec![address(1)])) {
        assert_eq!(checked, Err(Fault::Refuse(ContractError::ContractPaused)));
    }
}

#[test]
fn borrower_has_to_sign() {
    let ledger = ledger_with(settings(), thirds());
    for checked in every_check(&ledger, &call(100, vec![address(2)])) {
        assert_eq!(checked, Err(Fault::Abort(Abort::Unauthorized)));
    }
}

/// Whether the account of a borrower and their loans name each other.
fn is_linked(ledger: &Ledger, borrower: Address) -> bool {
    let account = ledger.account_of(borrower);
    let mut active = vec![];
    for id in 1..=ledger.loan_counter {
        let loan = get_loan_by_id(ledger, id).unwrap();
        if loan.borrower == borrower && loan.status == LoanStatus::Active {
            active.push(id);
        }
    }
    active.len() <= 1
        && account.active_loan == active.first().copied()
        && (account.active_loan.is_none() || account.active_loan == account.latest_loan)
}

#[test]
fn a_history_keeps_the_ledger_linked() {
    let vouches = vec![vouch(11, 2_000, 0, token())];
    let mut ledger = ledger_with(settings(), vouches);
    let who = address(1);
    let by = call(100, vec![who, address(6)]);
    assert!(register_referral(&mut ledger, &by, who, address(5)).is_ok());
    assert!(is_linked(&ledger, who));
    assert!(request_loan(&mut ledger, &by, who, 1_000, 1, vec![], token(), 9_000).is_ok());
    assert!(is_linked(&ledger, who));
    assert!(add_co_borrower(&mut ledger, &by, 1, address(6)).is_ok());
    assert!(repay(&mut ledger, &by, who, 20).is_ok());
    assert!(is_linked(&ledger, who));
    assert!(refinance_loan(&mut ledger, &by, who, 1_000, 1, token(), 9_000).is_ok());
    assert!(is_linked(&ledger, who));
    assert!(deposit_collateral(&mut ledger, &by, who, 5, token()).is_ok());
    assert!(repay(&mut ledger, &by, who, 1_020).is_ok());
    assert!(is_linked(&ledger, who));
    let new = get_loan(&ledger, who).unwrap();
    assert_eq!(new.id, 2);
    let origin = get_loan_by_id(&ledger, new.original_loan_id.unwrap()).unwrap();
    assert_eq!(origin.borrower, who);
    assert_eq!(origin.status, LoanStatus::Repaid);
    assert_eq!(origin.amount_repaid, origin.amount + origin.total_yield);
    assert_eq!(ledger.account_of(who).referred_by, Some(address(5)));
    assert_eq!(ledger.account_of(who).collateral, 5);
}

#[test]
fn other_borrowers_are_left_alone() {
    let mut ledger = ledger_with(settings(), vec![vouch(11, 2_000, 0, token())]);
    let mut account = Account::new();
    account.vouches = vec![vouch(12, 3_000, 0, token())];
    ledger.accounts.set(address(2), account);
    let other = call(100, vec![address(2)]);
    assert!(
        request_loan(&mut ledger, &other, address(2), 900, 1, vec![], token(), 9_000).is_ok()
    );
    let by = call(100, vec![address(1)]);
    assert!(request_loan(&mut ledger, &by, address(1), 1_000, 1, vec![], token(), 9_000).is_ok());
    assert!(refinance_loan(&mut ledger, &by, address(1), 1_100, 1, token(), 9_000).is_ok());
    assert!(repay(&mut ledger, &by, address(1), 1_122).is_ok());
    let loan = get_loan(&ledger, address(2)).unwrap();
    assert_eq!((loan.id, loan.amount, loan.amount_repaid), (1, 900, 0));
    assert_eq!(loan.status, LoanStatus::Active);
    assert_eq!(ledger.account_of(address(2)).vouches, vec![vouch(12, 3_000, 0, token())]);
    assert_eq!(ledger.account_of(address(2)).repayment_count, 0);
}
