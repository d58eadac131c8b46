use quorum_credit::ledger::{Account, Config, Ledger, Settings};
use quorum_credit::loan::{
    add_co_borrower, get_loan, loan_status, register_referral, repay, repayment_count, request_loan,
};
use quorum_credit::repay::check_repay;
use quorum_credit::types::{
    Abort, Address, AddressKind, Call, ContractError, Effect, Event, Fault, LoanStatus, VouchRecord,
};

fn address(n: u128) -> Address {
    Address { kind: AddressKind::Account, high: 7, low: n }
}

fn contract() -> Address {
    Address { kind: AddressKind::Contract, high: 0, low: 1 }
}

fn token() -> Address {
    Address { kind: AddressKind::Contract, high: 0, low: 2 }
}

fn other_token() -> Address {
    Address { kind: AddressKind::Contract, high: 0, low: 3 }
}

fn settings() -> Settings {
    Settings {
        paused: false,
        config: Config {
            min_loan_amount: 100,
            max_loan_to_stake_ratio: 150,
            loan_duration: 1_000,
            yield_bps: 200,
            prepayment_penalty_bps: 0,
        },
        max_loan_amount: 0,
        min_vouchers: 0,
        min_vouch_age: 60,
        default_threshold: 2,
        referral_bonus_bps: None,
        default_referral_bonus_bps: 100,
        reputation_nft: None,
    }
}

fn vouch(voucher: u128, stake: i128, time: u64, in_token: Address) -> VouchRecord {
    VouchRecord { voucher: address(voucher), stake, vouch_timestamp: time, token: in_token }
}

fn ledger_with(settings: Settings, vouches: Vec<VouchRecord>) -> Ledger {
    let mut ledger = Ledger::new(settings, vec![token(), other_token()]);
    let mut account = Account::new();
    account.vouches = vouches;
    ledger.accounts.set(address(1), account);
    ledger
}

fn call(timestamp: u64, signers: Vec<Address>) -> Call {
    Call { contract: contract(), timestamp, signers }
}

fn vouches() -> Vec<VouchRecord> {
    vec![
        vouch(11, 700, 0, token()),
        vouch(12, 5_000, 0, other_token()),
        vouch(13, 300, 0, token()),
    ]
}

/// A ledger with a loan of 1000 and a yield of 20, due at 1100.
fn borrowed(settings: Settings) -> Ledger {
    let mut ledger = ledger_with(settings, vouches());
    let answer = request_loan(
        &mut ledger,
        &call(100, vec![address(1)]),
        address(1),
        1_000,
        1_000,
        vec![],
        token(),
        5_000,
    );
    assert!(answer.is_ok());
    ledger
}

fn pay(ledger: &mut Ledger, time: u64, payment: i128) -> Result<Vec<Effect>, Fault> {
    let by = call(time, vec![address(1)]);
    check_repay(ledger, &by, address(1), payment)?;
    repay(ledger, &by, address(1), payment).map_err(Fault::Refuse)
}

fn transfer(from: Address, to: Address, amount: i128) -> Effect {
    Effect::Transfer { token: token(), from, to, amount }
}

#[test]
fn part_payment_keeps_the_loan() {
    let mut ledger = borrowed(settings());
    assert_eq!(
        pay(&mut ledger, 500, 400),
        Ok(vec![transfer(address(1), contract(), 400)])
    );
    let loan = get_loan(&ledger, address(1)).unwrap();
    assert_eq!(loan.amount_repaid, 400);
    assert_eq!(loan.status, LoanStatus::Active);
    assert_eq!(loan.repayment_timestamp, None);
    assert_eq!(repayment_count(&ledger, address(1)), 0);
    assert_eq!(pay(&mut ledger, 500, 621), Err(Fault::Abort(Abort::InvalidPayment)));
}

#[test]
fn full_payment_pays_vouchers_in_the_token() {
    let mut ledger = borrowed(settings());
    assert_eq!(
        pay(&mut ledger, 1_100, 1_020),
        Ok(vec![
            transfer(address(1), contract(), 1_020),
            transfer(contract(), address(11), 714),
            transfer(contract(), address(13), 306),
            Effect::Publish(Event::LoanRepaid { borrower: address(1), amount: 1_000 }),
        ])
    );
    let loan = get_loan(&ledger, address(1)).unwrap();
    assert_eq!(loan.amount_repaid, 1_020);
    assert_eq!(loan.repayment_timestamp, Some(1_100));
    assert_eq!(loan_status(&ledger, address(1)), LoanStatus::Repaid);
    assert_eq!(repayment_count(&ledger, address(1)), 1);
    assert!(ledger.account_of(address(1)).vouches.is_empty());
    assert_eq!(ledger.account_of(address(1)).active_loan, None);
    assert_eq!(pay(&mut ledger, 1_100, 1), Err(Fault::Refuse(ContractError::NoActiveLoan)));
}

#[test]
fn instalments_add_up() {
    let mut parts = borrowed(settings());
    assert!(pay(&mut parts, 600, 20).is_ok());
    assert!(pay(&mut parts, 600, 1_000).is_ok());
    let mut once = borrowed(settings());
    assert!(pay(&mut once, 600, 1_020).is_ok());
    let a = get_loan(&parts, address(1)).unwrap();
    let b = get_loan(&once, address(1)).unwrap();
    assert_eq!(a.amount_repaid, b.amount_repaid);
    assert_eq!(a.status, b.status);
    assert_eq!(a.repayment_timestamp, b.repayment_timestamp);
    assert_eq!(repayment_count(&parts, address(1)), repayment_count(&once, address(1)));
}

#[test]
fn penalty_is_shared_with_the_yield() {
    let mut fixed = settings();
    fixed.config.prepayment_penalty_bps = 500;
    let mut ledger = borrowed(fixed);
    assert!(pay(&mut ledger, 200, 510).is_ok());
    assert_eq!(
        pay(&mut ledger, 300, 510),
        Ok(vec![
            transfer(address(1), contract(), 510),
            transfer(contract(), address(11), 731),
            transfer(contract(), address(13), 313),
            Effect::Publish(Event::LoanRepaid { borrower: address(1), amount: 1_000 }),
        ])
    );
    let mut on_time = borrowed(fixed);
    let effects = pay(&mut on_time, 1_100, 1_020).unwrap();
    assert_eq!(effects[1], transfer(contract(), address(11), 714));
}

#[test]
fn referrer_and_reputation_are_served() {
    let nft = Address { kind: AddressKind::Contract, high: 0, low: 9 };
    let mut fixed = settings();
    fixed.reputation_nft = Some(nft);
    let mut ledger = ledger_with(fixed, vec![vouch(11, 1_000, 0, token())]);
    let by = call(100, vec![address(1)]);
    assert!(register_referral(&mut ledger, &by, address(1), address(5)).is_ok());
    assert!(request_loan(&mut ledger, &by, address(1), 1_000, 1, vec![], token(), 1_000).is_ok());
    let mut raised = ledger_with(fixed, vec![vouch(11, 1_000, 0, token())]);
    assert!(register_referral(&mut raised, &by, address(1), address(5)).is_ok());
    assert!(request_loan(&mut raised, &by, address(1), 1_000, 1, vec![], token(), 1_000).is_ok());
    raised.settings.referral_bonus_bps = Some(250);
    for (ledger, bonus) in [(&mut ledger, 10), (&mut raised, 25)] {
        assert_eq!(
            pay(ledger, 1_100, 1_020),
            Ok(vec![
                transfer(address(1), contract(), 1_020),
                transfer(contract(), address(11), 1_020),
                transfer(contract(), address(5), bonus),
                Effect::Publish(Event::ReferralBonus {
                    referrer: address(5),
                    borrower: address(1),
                    bonus,
                }),
                Effect::MintReputation { nft, borrower: address(1) },
                Effect::Publish(Event::LoanRepaid { borrower: address(1), amount: 1_000 }),
            ])
        );
    }
}

#[test]
fn no_bonus_is_paid_at_rate_zero() {
    let mut ledger = ledger_with(settings(), vec![vouch(11, 1_000, 0, token())]);
    let by = call(100, vec![address(1)]);
    assert!(register_referral(&mut ledger, &by, address(1), address(5)).is_ok());
    assert!(request_loan(&mut ledger, &by, address(1), 1_000, 1, vec![], token(), 1_000).is_ok());
    ledger.settings.referral_bonus_bps = Some(0);
    assert_eq!(pay(&mut ledger, 1_100, 1_020).unwrap().len(), 3);
}

#[test]
fn payment_has_to_be_due() {
    let mut ledger = borrowed(settings());
    assert_eq!(pay(&mut ledger, 1_101, 100), Err(Fault::Abort(Abort::DeadlinePassed)));
    assert_eq!(pay(&mut ledger, 500, 0), Err(Fault::Abort(Abort::InvalidPayment)));
    assert_eq!(pay(&mut ledger, 500, -1), Err(Fault::Abort(Abort::InvalidPayment)));
    assert_eq!(pay(&mut ledger, 500, 1_021), Err(Fault::Abort(Abort::InvalidPayment)));
    assert_eq!(pay(&mut ledger, 99, 100), Err(Fault::Abort(Abort::Overflow)));
    ledger.settings.paused = true;
    assert_eq!(pay(&mut ledger, 500, 100), Err(Fault::Refuse(ContractError::ContractPaused)));
}

#[test]
fn payment_needs_every_signature() {
    let mut ledger = borrowed(settings());
    let by = call(100, vec![address(1)]);
    assert!(add_co_borrower(&mut ledger, &by, 1, address(6)).is_ok());
    assert_eq!(pay(&mut ledger, 500, 100), Err(Fault::Abort(Abort::Unauthorized)));
    let both = call(500, vec![address(6), address(1)]);
    assert!(repay(&mut ledger, &both, address(1), 100).is_ok());
    let without_borrower = call(500, vec![address(6)]);
    assert_eq!(
        check_repay(&ledger, &without_borrower, address(1), 100),
        Err(Fault::Abort(Abort::Unauthorized))
    );
}

#[test]
fn payment_needs_a_loan_of_the_payer() {
    let mut ledger = borrowed(settings());
    let stranger = call(500, vec![address(2)]);
    assert_eq!(
        check_repay(&ledger, &stranger, address(2), 100),
        Err(Fault::Refuse(ContractError::NoActiveLoan))
    );
    let mut account = Account::new();
    account.active_loan = Some(1);
    ledger.accounts.set(address(2), account);
    assert_eq!(
        repay(&mut ledger, &stranger, address(2), 100),
        Err(ContractError::UnauthorizedCaller)
    );
    let mut loan = get_loan(&ledger, address(1)).unwrap();
    loan.status = LoanStatus::Defaulted;
    ledger.loans.set(1, loan);
    assert_eq!(pay(&mut ledger, 500, 100), Err(Fault::Refuse(ContractError::NoActiveLoan)));
}

#[test]
fn shares_above_the_yield_abort() {
    let mut ledger = borrowed(settings());
    let mut account = ledger.account_of(address(1));
    account.vouches = vec![vouch(11, 300, 0, token()), vouch(12, -100, 0, token())];
    ledger.accounts.set(address(1), account);
    assert_eq!(pay(&mut ledger, 1_100, 1_020), Err(Fault::Abort(Abort::YieldExceedsAvailable)));
}

#[test]
fn vouchers_without_stake_share_nothing() {
    let mut ledger = borrowed(settings());
    let mut account = ledger.account_of(address(1));
    account.vouches = vec![vouch(11, 0, 0, token())];
    ledger.accounts.set(address(1), account);
    assert_eq!(
        pay(&mut ledger, 1_100, 1_020).unwrap()[1],
        transfer(contract(), address(11), 0)
    );
}

#[test]
fn numbers_out_of_range_abort() {
    let mut ledger = borrowed(settings());
    let mut account = ledger.account_of(address(1));
    account.vouches = vec![vouch(11, i128::MAX, 0, token())];
    ledger.accounts.set(address(1), account);
    assert_eq!(pay(&mut ledger, 1_100, 1_020), Err(Fault::Abort(Abort::Overflow)));
    let mut loan = get_loan(&ledger, address(1)).unwrap();
    loan.total_yield = i128::MAX;
    ledger.loans.set(1, loan);
    assert_eq!(pay(&mut ledger, 1_100, 1), Err(Fault::Abort(Abort::Overflow)));
}

#[test]
fn penalty_on_nothing_owed_aborts() {
    let mut fixed = settings();
    fixed.config.prepayment_penalty_bps = 1;
    let mut ledger = borrowed(fixed);
    let mut loan = get_loan(&ledger, address(1)).unwrap();
    loan.amount = 0;
    loan.total_yield = 0;
    loan.amount_repaid = -5;
    ledger.loans.set(1, loan);
    assert_eq!(pay(&mut ledger, 500, 5), Err(Fault::Abort(Abort::DivisionByZero)));
}
