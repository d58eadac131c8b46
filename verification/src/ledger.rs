//! The ledger: everything that the contract stores.

use vstd::prelude::*;

use crate::table::Table;
use crate::types::{
    contains_address, Address, ContractError, LoanRecord, LoanStatus, LoanView, VouchRecord,
};

verus! {

/// The terms on which the contract lends.
#[derive(Clone, Copy, Debug)]
pub struct Config {
    /// The smallest loan.
    pub min_loan_amount: i128,
    /// The largest loan, in percent of the stakes behind it.
    pub max_loan_to_stake_ratio: u32,
    /// The time from disbursement to deadline, in seconds.
    pub loan_duration: u64,
    /// The yield on a loan, in basis points of its amount.
    pub yield_bps: i128,
    /// The penalty for repaying before the deadline, in basis points of the
    /// principal that remains.
    pub prepayment_penalty_bps: u32,
}

/// The settings of the contract.
#[derive(Clone, Copy, Debug)]
pub struct Settings {
    /// Whether the contract is paused.
    pub paused: bool,
    /// The terms on which the contract lends.
    pub config: Config,
    /// The largest loan; no limit where it is not positive.
    pub max_loan_amount: i128,
    /// How many vouchers a loan needs.
    pub min_vouchers: u32,
    /// How old a vouch has to be before it counts, in seconds.
    pub min_vouch_age: u64,
    /// How often a borrower may have defaulted and still borrow without
    /// collateral.
    pub default_threshold: u32,
    /// The bonus of a referrer in basis points of the loan, where one is set.
    pub referral_bonus_bps: Option<u32>,
    /// The bonus of a referrer where none is set.
    pub default_referral_bonus_bps: u32,
    /// The contract that mints reputation, where one is set.
    pub reputation_nft: Option<Address>,
}

impl Settings {
    /// The bonus of a referrer, in basis points of the loan.
    pub open spec fn bonus_bps(self) -> u32 {
        match self.referral_bonus_bps {
            Some(bps) => bps,
            None => self.default_referral_bonus_bps,
        }
    }

    /// The bonus of a referrer, in basis points of the loan.
    pub fn referral_bonus(&self) -> (bps: u32)
        ensures
            bps == self.bonus_bps(),
    {
        match self.referral_bonus_bps {
            Some(bps) => bps,
            None => self.default_referral_bonus_bps,
        }
    }
}

/// What is stored of a borrower.
#[derive(Debug)]
pub struct Account {
    pub referred_by: Option<Address>,
    pub blacklisted: bool,
    pub vouches: Vec<VouchRecord>,
    pub active_loan: Option<u64>,
    pub latest_loan: Option<u64>,
    pub loan_count: u32,
    pub repayment_count: u32,
    pub default_count: u32,
    pub collateral: i128,
    pub collateral_token: Option<Address>,
}

/// What an [`Account`] says.
#[verifier::ext_equal]
pub struct AccountView {
    pub referred_by: Option<Address>,
    pub blacklisted: bool,
    pub vouches: Seq<VouchRecord>,
    pub active_loan: Option<u64>,
    pub latest_loan: Option<u64>,
    pub loan_count: u32,
    pub repayment_count: u32,
    pub default_count: u32,
    pub collateral: i128,
    pub collateral_token: Option<Address>,
}

impl View for Account {
    type V = AccountView;

    open spec fn view(&self) -> AccountView {
        AccountView {
            referred_by: self.referred_by,
            blacklisted: self.blacklisted,
            vouches: self.vouches@,
            active_loan: self.active_loan,
            latest_loan: self.latest_loan,
            loan_count: self.loan_count,
            repayment_count: self.repayment_count,
            default_count: self.default_count,
            collateral: self.collateral,
            collateral_token: self.collateral_token,
        }
    }
}

impl AccountView {
    /// The account of an address of which nothing is stored.
    pub open spec fn empty() -> AccountView {
        AccountView {
            referred_by: None,
            blacklisted: false,
            vouches: Seq::empty(),
            active_loan: None,
            latest_loan: None,
            loan_count: 0,
            repayment_count: 0,
            default_count: 0,
            collateral: 0,
            collateral_token: None,
        }
    }
}

impl Account {
    /// The account of an address of which nothing is stored.
    pub fn new() -> (account: Account)
        ensures
            account@ == AccountView::empty(),
    {
        Account {
            referred_by: None,
            blacklisted: false,
            vouches: Vec::new(),
            active_loan: None,
            latest_loan: None,
            loan_count: 0,
            repayment_count: 0,
            default_count: 0,
            collateral: 0,
            collateral_token: None,
        }
    }
}

impl Clone for Account {
    fn clone(&self) -> (account: Self)
        ensures
            account@ == self@,
    {
        let mut vouches: Vec<VouchRecord> = Vec::new();
        let count: usize = self.vouches.len();
        for i in 0..count
            invariant
                count == self.vouches@.len(),
                vouches@ == self.vouches@.take(i as int),
        {
            vouches.push(self.vouches[i]);
        }
        Account {
            referred_by: self.referred_by,
            blacklisted: self.blacklisted,
            vouches,
            active_loan: self.active_loan,
            latest_loan: self.latest_loan,
            loan_count: self.loan_count,
            repayment_count: self.repayment_count,
            default_count: self.default_count,
            collateral: self.collateral,
            collateral_token: self.collateral_token,
        }
    }
}

/// Everything that the contract stores.
#[derive(Debug)]
pub struct Ledger {
    pub settings: Settings,
    /// The tokens that the contract lends in.
    pub allowed_tokens: Vec<Address>,
    /// The id of the newest loan.
    pub loan_counter: u64,
    /// The loans, by id.
    pub loans: Table<u64, LoanRecord>,
    /// The accounts, by borrower.
    pub accounts: Table<Address, Account>,
}

/// What a [`Ledger`] says.
#[verifier::ext_equal]
pub struct LedgerView {
    pub settings: Settings,
    pub allowed_tokens: Seq<Address>,
    pub loan_counter: u64,
    pub loans: Map<u64, LoanView>,
    pub accounts: Map<Address, AccountView>,
}

impl View for Ledger {
    type V = LedgerView;

    open spec fn view(&self) -> LedgerView {
        LedgerView {
            settings: self.settings,
            allowed_tokens: self.allowed_tokens@,
            loan_counter: self.loan_counter,
            loans: self.loans@,
            accounts: self.accounts@,
        }
    }
}

impl LedgerView {
    /// What is stored of a borrower.
    pub open spec fn account(self, borrower: Address) -> AccountView {
        if self.accounts.contains_key(borrower) {
            self.accounts[borrower]
        } else {
            AccountView::empty()
        }
    }

    /// The loan under an id.
    pub open spec fn loan(self, id: u64) -> Option<LoanView> {
        if self.loans.contains_key(id) {
            Some(self.loans[id])
        } else {
            None
        }
    }

    /// The loan that a stored id names.
    pub open spec fn named_loan(self, id: Option<u64>) -> Option<LoanView> {
        match id {
            Some(id) => self.loan(id),
            None => None,
        }
    }

    /// The loan that the borrower's active id names.
    pub open spec fn active_record(self, borrower: Address) -> Option<LoanView> {
        self.named_loan(self.account(borrower).active_loan)
    }

    /// The loan that the borrower's latest id names.
    pub open spec fn latest_record(self, borrower: Address) -> Option<LoanView> {
        self.named_loan(self.account(borrower).latest_loan)
    }

    /// Whether the borrower has an active loan.
    pub open spec fn has_active_loan(self, borrower: Address) -> bool {
        self.active_record(borrower) matches Some(loan) && loan.status == LoanStatus::Active
    }

    /// Whether the contract lends in the token.
    pub open spec fn allows(self, token: Address) -> bool {
        self.allowed_tokens.contains(token)
    }

    /// The ledger with another account for the borrower.
    pub open spec fn with_account(self, borrower: Address, account: AccountView) -> LedgerView {
        LedgerView { accounts: self.accounts.insert(borrower, account), ..self }
    }

    /// The ledger with another loan under the id.
    pub open spec fn with_loan(self, id: u64, loan: LoanView) -> LedgerView {
        LedgerView { loans: self.loans.insert(id, loan), ..self }
    }
}

impl Ledger {
    /// A ledger without loans and accounts.
    pub fn new(settings: Settings, allowed_tokens: Vec<Address>) -> (ledger: Ledger)
        ensures
            ledger@ == (LedgerView {
                settings,
                allowed_tokens: allowed_tokens@,
                loan_counter: 0,
                loans: Map::empty(),
                accounts: Map::empty(),
            }),
    {
        Ledger {
            settings,
            allowed_tokens,
            loan_counter: 0,
            loans: Table::new(),
            accounts: Table::new(),
        }
    }

    /// What is stored of a borrower.
    pub fn account_of(&self, borrower: Address) -> (account: Account)
        ensures
            account@ == self@.account(borrower),
    {
        match self.accounts.get(borrower) {
            Some(account) => account.clone(),
            None => Account::new(),
        }
    }

    /// The loan that a stored id names.
    pub fn find_loan(&self, id: Option<u64>) -> (loan: Option<&LoanRecord>)
        ensures
            match loan {
                Some(record) => self@.named_loan(id) == Some(record@),
                None => self@.named_loan(id) is None,
            },
    {
        match id {
            Some(id) => self.loans.get(id),
            None => None,
        }
    }

    /// The loan that the borrower's active id names.
    pub fn get_active_loan_record(&self, borrower: Address) -> (loan: Result<
        &LoanRecord,
        ContractError,
    >)
        ensures
            match loan {
                Ok(record) => self@.active_record(borrower) == Some(record@),
                Err(error) => self@.active_record(borrower) is None && error
                    == ContractError::NoActiveLoan,
            },
    {
        let id: Option<u64> = match self.accounts.get(borrower) {
            Some(account) => account.active_loan,
            None => None,
        };
        match self.find_loan(id) {
            Some(record) => Ok(record),
            None => Err(ContractError::NoActiveLoan),
        }
    }

    /// The loan that the borrower's latest id names.
    pub fn get_latest_loan_record(&self, borrower: Address) -> (loan: Option<&LoanRecord>)
        ensures
            match loan {
                Some(record) => self@.latest_record(borrower) == Some(record@),
                None => self@.latest_record(borrower) is None,
            },
    {
        let id: Option<u64> = match self.accounts.get(borrower) {
            Some(account) => account.latest_loan,
            None => None,
        };
        self.find_loan(id)
    }

    /// Whether the borrower has an active loan.
    pub fn has_active_loan(&self, borrower: Address) -> (yes: bool)
        ensures
            yes == self@.has_active_loan(borrower),
    {
        match self.get_active_loan_record(borrower) {
            Ok(loan) => loan.status == LoanStatus::Active,
            Err(_) => false,
        }
    }

    /// Refuses where the contract is paused.
    pub fn require_not_paused(&self) -> (answer: Result<(), ContractError>)
        ensures
            answer == (if self@.settings.paused {
                Err::<(), ContractError>(ContractError::ContractPaused)
            } else {
                Ok(())
            }),
    {
        if self.settings.paused {
            Err(ContractError::ContractPaused)
        } else {
            Ok(())
        }
    }

    /// Refuses where the contract does not lend in the token.
    pub fn require_allowed_token(&self, token: Address) -> (answer: Result<(), ContractError>)
        ensures
            answer == (if self@.allows(token) {
                Ok::<(), ContractError>(())
            } else {
                Err(ContractError::InvalidToken)
            }),
    {
        if contains_address(&self.allowed_tokens, token) {
            Ok(())
        } else {
            Err(ContractError::InvalidToken)
        }
    }
}

} // verus!
