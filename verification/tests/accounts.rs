use quorum_credit::arith::divide;
use quorum_credit::co_borrowers::check_add_co_borrower;
use quorum_credit::collateral::check_deposit_collateral;
use quorum_credit::ledger::{Account, Config, Ledger, Settings};
use quorum_credit::loan::{
    add_co_borrower, default_count, deposit_collateral, get_collateral, get_loan_by_id,
    get_referrer, is_eligible, loan_count, register_referral, repayment_count, request_loan,
};
use quorum_credit::queries::check_is_eligible;
use quorum_credit::referral::check_register_referral;
use quorum_credit::table::Table;
use quorum_credit::types::{
    Abort, Address, AddressKind, Call, ContractError, Effect, Event, Fault, LoanStatus, VouchRecord,
};

fn address(n: u128) -> Address {
    Address { kind: AddressKind::Account, high: 7, low: n }
}

fn contract() -> Address {
    Address { kind: AddressKind::Contract, high: 0, low: 1 }
}

fn token() -> Address {
    Address { kind: AddressKind::Contract, high: 0, low: 2 }
}

fn other_token() -> Address {
    Address { kind: AddressKind::Contract, high: 0, low: 3 }
}

fn settings() -> Settings {
    Settings {
        paused: false,
        config: Config {
            min_loan_amount: 100,
            max_loan_to_stake_ratio: 150,
            loan_duration: 1_000,
            yield_bps: 200,
            prepayment_penalty_bps: 0,
        },
        max_loan_amount: 0,
        min_vouchers: 0,
        min_vouch_age: 60,
        default_threshold: 2,
        referral_bonus_bps: None,
        default_referral_bonus_bps: 100,
        reputation_nft: None,
    }
}

fn vouch(voucher: u128, stake: i128, time: u64, in_token: Address) -> VouchRecord {
    VouchRecord { voucher: address(voucher), stake, vouch_timestamp: time, token: in_token }
}

fn ledger_with(settings: Settings, vouches: Vec<VouchRecord>) -> Ledger {
    let mut ledger = Ledger::new(settings, vec![token(), other_token()]);
    let mut account = Account::new();
    account.vouches = vouches;
    ledger.accounts.set(address(1), account);
    ledger
}

fn call(timestamp: u64, signers: Vec<Address>) -> Call {
    Call { contract: contract(), timestamp, signers }
}

fn borrowed() -> Ledger {
    let mut ledger = ledger_with(settings(), vec![vouch(11, 1_000, 0, token())]);
    let answer = request_loan(
        &mut ledger,
        &call(100, vec![address(1)]),
        address(1),
        1_000,
        1,
        vec![],
        token(),
        5_000,
    );
    assert!(answer.is_ok());
    ledger
}

#[test]
fn last_referrer_counts() {
    let mut ledger = Ledger::new(settings(), vec![]);
    let by = call(1, vec![address(1)]);
    assert_eq!(get_referrer(&ledger, address(1)), None);
    for referrer in [address(2), address(3), address(3)] {
        assert_eq!(
            register_referral(&mut ledger, &by, address(1), referrer),
            Ok(vec![Effect::Publish(Event::ReferralSet { borrower: address(1), referrer })])
        );
        assert_eq!(get_referrer(&ledger, address(1)), Some(referrer));
    }
    assert_eq!(get_referrer(&ledger, address(2)), None);
}

#[test]
fn referral_is_checked_in_order() {
    let mut ledger = borrowed();
    let by = call(1, vec![address(1)]);
    assert_eq!(
        check_register_referral(&ledger, &call(1, vec![]), address(1), address(2)),
        Err(Fault::Abort(Abort::Unauthorized))
    );
    assert_eq!(
        check_register_referral(&ledger, &by, address(1), address(1)),
        Err(Fault::Abort(Abort::SelfReferral))
    );
    assert_eq!(
        check_register_referral(&ledger, &by, address(1), address(2)),
        Err(Fault::Abort(Abort::ReferralWithActiveLoan))
    );
    ledger.settings.paused = true;
    assert_eq!(
        register_referral(&mut ledger, &by, address(1), address(1)),
        Err(ContractError::ContractPaused)
    );
}

#[test]
fn co_borrower_is_added_once() {
    let mut ledger = borrowed();
    let by = call(200, vec![address(1)]);
    assert_eq!(
        add_co_borrower(&mut ledger, &by, 1, address(6)),
        Ok(vec![Effect::Publish(Event::CoBorrowerAdded {
            loan_id: 1,
            co_borrower: address(6),
        })])
    );
    assert!(add_co_borrower(&mut ledger, &by, 1, address(7)).is_ok());
    assert_eq!(
        get_loan_by_id(&ledger, 1).unwrap().co_borrowers,
        vec![address(6), address(7)]
    );
    assert_eq!(
        add_co_borrower(&mut ledger, &by, 1, address(6)),
        Err(ContractError::DuplicateVouch)
    );
    assert_eq!(get_loan_by_id(&ledger, 1).unwrap().co_borrowers.len(), 2);
}

#[test]
fn only_the_borrower_adds_to_an_active_loan() {
    let mut ledger = borrowed();
    let by = call(200, vec![address(1)]);
    assert_eq!(
        add_co_borrower(&mut ledger, &by, 2, address(6)),
        Err(ContractError::NoActiveLoan)
    );
    assert_eq!(
        check_add_co_borrower(&ledger, &call(200, vec![address(6)]), 1, address(6)),
        Err(Fault::Abort(Abort::Unauthorized))
    );
    ledger.settings.paused = true;
    assert_eq!(check_add_co_borrower(&ledger, &by, 1, address(6)), Ok(()));
    let mut loan = get_loan_by_id(&ledger, 1).unwrap();
    loan.status = LoanStatus::Repaid;
    ledger.loans.set(1, loan);
    assert_eq!(
        add_co_borrower(&mut ledger, &by, 1, address(6)),
        Err(ContractError::NoActiveLoan)
    );
}

#[test]
fn deposits_add_up() {
    let mut ledger = ledger_with(settings(), vec![]);
    let by = call(1, vec![address(1)]);
    assert_eq!(get_collateral(&ledger, address(1)), 0);
    assert_eq!(
        deposit_collateral(&mut ledger, &by, address(1), 30, token()),
        Ok(vec![
            Effect::Transfer { token: token(), from: address(1), to: contract(), amount: 30 },
            Effect::Publish(Event::CollateralDeposited {
                borrower: address(1),
                amount: 30,
                token: token(),
            }),
        ])
    );
    assert!(deposit_collateral(&mut ledger, &by, address(1), 12, other_token()).is_ok());
    assert_eq!(get_collateral(&ledger, address(1)), 42);
    assert_eq!(ledger.account_of(address(1)).collateral_token, Some(other_token()));
    assert_eq!(get_collateral(&ledger, address(2)), 0);
}

#[test]
fn deposit_is_checked_in_order() {
    let mut ledger = ledger_with(settings(), vec![]);
    let by = call(1, vec![address(1)]);
    let check = |ledger: &Ledger, amount: i128, in_token: Address| {
        check_deposit_collateral(ledger, &by, address(1), amount, in_token)
    };
    assert_eq!(check(&ledger, 0, address(9)), Err(Fault::Abort(Abort::NonPositiveCollateral)));
    assert_eq!(check(&ledger, 1, address(9)), Err(Fault::Refuse(ContractError::InvalidToken)));
    assert_eq!(check(&ledger, 1, token()), Ok(()));
    assert!(deposit_collateral(&mut ledger, &by, address(1), i128::MAX, token()).is_ok());
    assert_eq!(check(&ledger, 1, token()), Err(Fault::Abort(Abort::Overflow)));
    ledger.settings.paused = true;
    assert_eq!(
        deposit_collateral(&mut ledger, &by, address(1), 0, token()),
        Err(ContractError::ContractPaused)
    );
    assert_eq!(
        check_deposit_collateral(&ledger, &call(1, vec![]), address(1), 1, token()),
        Err(Fault::Abort(Abort::Unauthorized))
    );
}

#[test]
fn eligibility_counts_stakes_in_every_token() {
    let ledger = ledger_with(
        settings(),
        vec![vouch(11, 600, 0, token()), vouch(12, 400, 0, other_token())],
    );
    assert!(is_eligible(&ledger, address(1), 1_000));
    assert!(!is_eligible(&ledger, address(1), 1_001));
    assert!(!is_eligible(&ledger, address(1), 0));
    assert!(!is_eligible(&ledger, address(2), 1));
    assert!(!is_eligible(&borrowed(), address(1), 1));
    let overflowing = ledger_with(
        settings(),
        vec![vouch(11, i128::MAX, 0, token()), vouch(12, 1, 0, token())],
    );
    assert_eq!(
        check_is_eligible(&overflowing, address(1), 1),
        Err(Fault::Abort(Abort::Overflow))
    );
    assert_eq!(check_is_eligible(&overflowing, address(1), 0), Ok(()));
}

#[test]
fn counts_start_at_zero() {
    let mut ledger = borrowed();
    assert_eq!(loan_count(&ledger, address(2)), 0);
    assert_eq!(repayment_count(&ledger, address(2)), 0);
    assert_eq!(default_count(&ledger, address(2)), 0);
    let mut account = Account::new();
    account.loan_count = 3;
    account.repayment_count = 2;
    account.default_count = 1;
    ledger.accounts.set(address(2), account);
    assert_eq!(loan_count(&ledger, address(2)), 3);
    assert_eq!(repayment_count(&ledger, address(2)), 2);
    assert_eq!(default_count(&ledger, address(2)), 1);
    assert_eq!(loan_count(&ledger, address(1)), 1);
}

#[test]
fn table_keeps_the_last_value_of_a_key() {
    let mut accounts: Table<Address, Account> = Table::new();
    assert!(accounts.get(address(1)).is_none());
    for count in 1..4 {
        let mut account = Account::new();
        account.loan_count = count;
        accounts.set(address(u128::from(count % 2)), account);
    }
    assert_eq!(accounts.get(address(1)).unwrap().loan_count, 3);
    assert_eq!(accounts.get(address(0)).unwrap().loan_count, 2);
}

#[test]
fn division_rounds_towards_zero() {
    assert_eq!(divide(7, 2), 3);
    assert_eq!(divide(-7, 2), -3);
    assert_eq!(divide(i128::MIN, 1), i128::MIN);
}
