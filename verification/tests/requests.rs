use quorum_credit::ledger::{Account, Config, Ledger, Settings};
use quorum_credit::loan::{
    deposit_collateral, get_loan, get_loan_by_id, is_eligible, loan_count, loan_status,
    request_loan,
};
use quorum_credit::request::check_request_loan;
use quorum_credit::types::{
    Abort, Address, AddressKind, Call, ContractError, Effect, Event, Fault, LoanStatus, VouchRecord,
};

fn address(n: u128) -> Address {
    Address { kind: AddressKind::Account, high: 7, low: n }
}

fn contract() -> Address {
    Address { kind: AddressKind::Contract, high: 0, low: 1 }
}

fn token() -> Address {
    Address { kind: AddressKind::Contract, high: 0, low: 2 }
}

fn other_token() -> Address {
    Address { kind: AddressKind::Contract, high: 0, low: 3 }
}

fn settings() -> Settings {
    Settings {
        paused: false,
        config: Config {
            min_loan_amount: 100,
            max_loan_to_stake_ratio: 150,
            loan_duration: 1_000,
            yield_bps: 200,
            prepayment_penalty_bps: 0,
        },
        max_loan_amount: 0,
        min_vouchers: 0,
        min_vouch_age: 60,
        default_threshold: 2,
        referral_bonus_bps: None,
        default_referral_bonus_bps: 100,
        reputation_nft: None,
    }
}

fn vouch(voucher: u128, stake: i128, time: u64, in_token: Address) -> VouchRecord {
    VouchRecord { voucher: address(voucher), stake, vouch_timestamp: time, token: in_token }
}

fn ledger_with(settings: Settings, vouches: Vec<VouchRecord>) -> Ledger {
    let mut ledger = Ledger::new(settings, vec![token(), other_token()]);
    let mut account = Account::new();
    account.vouches = vouches;
    ledger.accounts.set(address(1), account);
    ledger
}

fn call(timestamp: u64, signers: Vec<Address>) -> Call {
    Call { contract: contract(), timestamp, signers }
}

fn check(ledger: &Ledger, amount: i128, threshold: i128, balance: i128) -> Result<(), Fault> {
    check_request_loan(
        ledger,
        &call(100, vec![address(1)]),
        address(1),
        amount,
        threshold,
        token(),
        balance,
    )
}

fn two_vouches() -> Vec<VouchRecord> {
    vec![
        vouch(11, 600, 0, token()),
        vouch(12, 9_000, 0, other_token()),
        vouch(13, 400, 40, token()),
    ]
}

#[test]
fn request_records_and_disburses_loan() {
    let mut ledger = ledger_with(settings(), two_vouches());
    assert_eq!(check(&ledger, 1_500, 1_000, 1_500), Ok(()));
    let effects = request_loan(
        &mut ledger,
        &call(100, vec![address(1)]),
        address(1),
        1_500,
        1_000,
        b"seeds".to_vec(),
        token(),
        1_500,
    );
    assert_eq!(
        effects,
        Ok(vec![
            Effect::Transfer { token: token(), from: contract(), to: address(1), amount: 1_500 },
            Effect::Publish(Event::LoanDisbursed {
                borrower: address(1),
                amount: 1_500,
                deadline: 1_100,
                token: token(),
            }),
        ])
    );
    let loan = get_loan(&ledger, address(1)).unwrap();
    assert_eq!(loan.id, 1);
    assert_eq!(loan.borrower, address(1));
    assert_eq!(loan.co_borrowers, vec![]);
    assert_eq!(loan.amount, 1_500);
    assert_eq!(loan.amount_repaid, 0);
    assert_eq!(loan.total_yield, 30);
    assert_eq!(loan.status, LoanStatus::Active);
    assert_eq!(loan.created_at, 100);
    assert_eq!(loan.disbursement_timestamp, 100);
    assert_eq!(loan.repayment_timestamp, None);
    assert_eq!(loan.deadline, 1_100);
    assert_eq!(loan.loan_purpose, b"seeds".to_vec());
    assert_eq!(loan.token_address, token());
    assert_eq!(loan.collateral_amount, 0);
    assert!(!loan.is_refinance);
    assert_eq!(loan.original_loan_id, None);
    assert_eq!(get_loan_by_id(&ledger, 1).unwrap().amount, 1_500);
    assert!(get_loan_by_id(&ledger, 2).is_none());
    assert_eq!(loan_status(&ledger, address(1)), LoanStatus::Active);
    assert_eq!(loan_count(&ledger, address(1)), 1);
    assert_eq!(ledger.loan_counter, 1);
    assert!(!is_eligible(&ledger, address(1), 1));
    assert_eq!(check(&ledger, 100, 1, 1_500), Err(Fault::Abort(Abort::ActiveLoanExists)));
}

#[test]
fn ids_of_loans_go_up() {
    let mut ledger = ledger_with(settings(), two_vouches());
    let mut account = Account::new();
    account.vouches = two_vouches();
    ledger.accounts.set(address(2), account);
    for n in 1..=2 {
        let answer = request_loan(
            &mut ledger,
            &call(100, vec![address(n)]),
            address(n),
            100,
            1,
            vec![],
            token(),
            1_000,
        );
        assert!(answer.is_ok());
    }
    assert_eq!(get_loan(&ledger, address(1)).unwrap().id, 1);
    assert_eq!(get_loan(&ledger, address(2)).unwrap().id, 2);
}

#[test]
fn request_needs_signature() {
    let ledger = ledger_with(settings(), two_vouches());
    let checked = check_request_loan(
        &ledger,
        &call(100, vec![address(2)]),
        address(1),
        100,
        1,
        token(),
        1_000,
    );
    assert_eq!(checked, Err(Fault::Abort(Abort::Unauthorized)));
}

#[test]
fn request_is_refused_while_paused() {
    let mut ledger = ledger_with(settings(), two_vouches());
    ledger.settings.paused = true;
    let answer = request_loan(
        &mut ledger,
        &call(100, vec![address(1)]),
        address(1),
        100,
        1,
        vec![],
        token(),
        1_000,
    );
    assert_eq!(answer, Err(ContractError::ContractPaused));
    assert!(get_loan(&ledger, address(1)).is_none());
    assert_eq!(loan_status(&ledger, address(1)), LoanStatus::NoLoan);
}

#[test]
fn request_is_refused_on_blacklist() {
    let mut ledger = ledger_with(settings(), vec![]);
    let mut account = Account::new();
    account.blacklisted = true;
    ledger.accounts.set(address(1), account);
    assert_eq!(check(&ledger, 100, 1, 0), Err(Fault::Refuse(ContractError::Blacklisted)));
}

#[test]
fn defaults_call_for_collateral() {
    let mut ledger = ledger_with(settings(), vec![]);
    let mut account = Account::new();
    account.vouches = two_vouches();
    account.default_count = 2;
    ledger.accounts.set(address(1), account.clone());
    assert_eq!(check(&ledger, 100, 1, 100), Ok(()));
    account.default_count = 3;
    ledger.accounts.set(address(1), account);
    assert_eq!(check(&ledger, 100, 1, 100), Err(Fault::Abort(Abort::CollateralRequired)));
    let by = call(90, vec![address(1)]);
    assert!(deposit_collateral(&mut ledger, &by, address(1), 1, token()).is_ok());
    assert_eq!(check(&ledger, 100, 1, 100), Ok(()));
}

#[test]
fn collateral_is_asked_for_after_the_other_checks() {
    let mut ledger = ledger_with(settings(), vec![]);
    let mut account = Account::new();
    account.vouches = two_vouches();
    account.default_count = 3;
    ledger.accounts.set(address(1), account);
    ledger.settings.max_loan_amount = 2_000;
    let unknown = check_request_loan(
        &ledger,
        &call(100, vec![address(1)]),
        address(1),
        100,
        1,
        address(99),
        100,
    );
    assert_eq!(unknown, Err(Fault::Refuse(ContractError::InvalidToken)));
    let refused = |error| Err(Fault::Refuse(error));
    assert_eq!(check(&ledger, 99, 1, 100), refused(ContractError::LoanBelowMinAmount));
    assert_eq!(check(&ledger, 100, 0, 100), Err(Fault::Abort(Abort::NonPositiveThreshold)));
    assert_eq!(check(&ledger, 2_001, 1, 100), refused(ContractError::LoanExceedsMaxAmount));
    assert_eq!(check(&ledger, 100, 1_001, 100), Err(Fault::Abort(Abort::StakeBelowThreshold)));
    assert_eq!(check(&ledger, 100, 1, 99), refused(ContractError::InsufficientFunds));
    assert_eq!(
        check(&ledger, 1_501, 1, 9_999),
        Err(Fault::Abort(Abort::CollateralRatioExceeded))
    );
    assert_eq!(check(&ledger, 100, 1, 100), Err(Fault::Abort(Abort::CollateralRequired)));
    ledger.settings.min_vouchers = 3;
    assert_eq!(check(&ledger, 100, 1, 100), refused(ContractError::InsufficientVouchers));
    ledger.settings.min_vouchers = 0;
    ledger.settings.min_vouch_age = 61;
    assert_eq!(check(&ledger, 100, 1, 100), refused(ContractError::VouchTooRecent));
}

#[test]
fn balance_is_asked_last() {
    let ledger = ledger_with(settings(), two_vouches());
    assert_eq!(
        check(&ledger, 100, 1, i128::MIN),
        Err(Fault::Refuse(ContractError::InsufficientFunds))
    );
    for balance in [i128::MIN, i128::MAX] {
        assert_eq!(
            check(&ledger, 1_501, 1, balance),
            Err(Fault::Abort(Abort::CollateralRatioExceeded))
        );
    }
}

#[test]
fn request_is_refused_in_unknown_token() {
    let ledger = ledger_with(settings(), two_vouches());
    for balance in [0, 1_000] {
        let checked = check_request_loan(
            &ledger,
            &call(100, vec![address(1)]),
            address(1),
            0,
            0,
            address(99),
            balance,
        );
        assert_eq!(checked, Err(Fault::Refuse(ContractError::InvalidToken)));
    }
}

#[test]
fn request_is_refused_outside_limits() {
    let mut ledger = ledger_with(settings(), two_vouches());
    ledger.settings.max_loan_amount = 500;
    assert_eq!(check(&ledger, 99, 0, 0), Err(Fault::Refuse(ContractError::LoanBelowMinAmount)));
    assert_eq!(check(&ledger, 501, 1, 0), Err(Fault::Refuse(ContractError::LoanExceedsMaxAmount)));
    assert_eq!(check(&ledger, 500, 1, 500), Ok(()));
    assert_eq!(check(&ledger, 501, 0, 0), Err(Fault::Abort(Abort::NonPositiveThreshold)));
}

#[test]
fn request_counts_stakes_in_its_token() {
    let ledger = ledger_with(settings(), two_vouches());
    assert_eq!(check(&ledger, 100, 1_000, 100), Ok(()));
    assert_eq!(check(&ledger, 100, 1_001, 100), Err(Fault::Abort(Abort::StakeBelowThreshold)));
}

#[test]
fn request_is_refused_when_stakes_overflow() {
    let ledger = ledger_with(
        settings(),
        vec![vouch(11, i128::MAX, 0, token()), vouch(12, 1, 0, token())],
    );
    assert_eq!(check(&ledger, 100, 1, 100), Err(Fault::Refuse(ContractError::StakeOverflow)));
}

#[test]
fn request_needs_vouchers_of_some_age() {
    let mut ledger = ledger_with(settings(), two_vouches());
    ledger.settings.min_vouchers = 3;
    assert_eq!(
        check(&ledger, 100, 1, 100),
        Err(Fault::Refuse(ContractError::InsufficientVouchers))
    );
    ledger.settings.min_vouchers = 2;
    assert_eq!(check(&ledger, 100, 1, 100), Ok(()));
    ledger.settings.min_vouch_age = 61;
    assert_eq!(check(&ledger, 100, 1, 100), Err(Fault::Refuse(ContractError::VouchTooRecent)));
    ledger.settings.min_vouch_age = u64::MAX;
    assert_eq!(check(&ledger, 100, 1, 100), Err(Fault::Refuse(ContractError::VouchTooRecent)));
    let late = ledger_with(settings(), vec![vouch(11, 1_000, u64::MAX, token())]);
    assert_eq!(check(&late, 100, 1, 100), Err(Fault::Abort(Abort::Overflow)));
}

#[test]
fn request_is_limited_by_ratio_and_balance() {
    let ledger = ledger_with(settings(), two_vouches());
    assert_eq!(check(&ledger, 1_501, 1, 9_999), Err(Fault::Abort(Abort::CollateralRatioExceeded)));
    assert_eq!(
        check(&ledger, 1_500, 1, 1_499),
        Err(Fault::Refuse(ContractError::InsufficientFunds))
    );
    let huge = ledger_with(settings(), vec![vouch(11, i128::MAX, 0, token())]);
    assert_eq!(check(&huge, 100, 1, 100), Err(Fault::Abort(Abort::Overflow)));
}

#[test]
fn request_aborts_when_terms_overflow() {
    let mut ledger = ledger_with(settings(), two_vouches());
    ledger.loan_counter = u64::MAX;
    assert_eq!(check(&ledger, 100, 1, 100), Err(Fault::Abort(Abort::Overflow)));
    ledger.loan_counter = 0;
    ledger.settings.config.loan_duration = u64::MAX;
    assert_eq!(check(&ledger, 100, 1, 100), Err(Fault::Abort(Abort::Overflow)));
    ledger.settings.config.loan_duration = 1;
    ledger.settings.config.yield_bps = i128::MAX;
    assert_eq!(check(&ledger, 100, 1, 100), Err(Fault::Abort(Abort::Overflow)));
    ledger.settings.config.yield_bps = 1;
    assert_eq!(check(&ledger, 100, 1, 100), Ok(()));
    let mut account = Account::new();
    account.vouches = two_vouches();
    account.loan_count = u32::MAX;
    ledger.accounts.set(address(1), account);
    assert_eq!(check(&ledger, 100, 1, 100), Err(Fault::Abort(Abort::Overflow)));
}

#[test]
fn yield_is_rounded_towards_zero() {
    let mut ledger = ledger_with(settings(), two_vouches());
    ledger.settings.config.yield_bps = -150;
    let answer = request_loan(
        &mut ledger,
        &call(100, vec![address(1)]),
        address(1),
        199,
        1,
        vec![],
        token(),
        1_000,
    );
    assert!(answer.is_ok());
    assert_eq!(get_loan(&ledger, address(1)).unwrap().total_yield, -2);
}

#[test]
fn aborted_calls_have_texts() {
    assert_eq!(Abort::NonPositiveThreshold.message(), "threshold must be greater than zero");
    assert_eq!(Abort::ActiveLoanExists.message(), "borrower already has an active loan");
    assert_eq!(
        Abort::CollateralRatioExceeded.message(),
        "loan amount exceeds maximum collateral ratio"
    );
    assert_eq!(Abort::StakeBelowThreshold.error(), Some(ContractError::InsufficientFunds));
    assert_eq!(Abort::Overflow.error(), None);
}
