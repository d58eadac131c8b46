//! The values that the contract stores, receives and hands back.

use vstd::prelude::*;

verus! {

/// What an address names.
#[derive(Clone, Copy, Debug, PartialEq, Eq, Structural)]
pub enum AddressKind {
    /// An account, named by its public key.
    Account,
    /// A contract, named by its hash.
    Contract,
}

/// An account or a contract: its kind and the 32 bytes that name it, as two
/// big-endian halves.
#[derive(Clone, Copy, Debug, PartialEq, Eq, Structural)]
pub struct Address {
    pub kind: AddressKind,
    pub high: u128,
    pub low: u128,
}

/// The errors that an entry point answers with.
#[derive(Clone, Copy, Debug, PartialEq, Eq, Structural)]
pub enum ContractError {
    /// The contract is paused.
    ContractPaused,
    /// The borrower may not borrow.
    Blacklisted,
    /// The token is not one that the contract lends in.
    InvalidToken,
    /// The amount is below the configured minimum.
    LoanBelowMinAmount,
    /// The amount is above the configured maximum.
    LoanExceedsMaxAmount,
    /// The stakes of the vouchers do not fit in 128 bits.
    StakeOverflow,
    /// The contract, or the stake behind a borrower, does not hold enough.
    InsufficientFunds,
    /// Fewer vouchers than required.
    InsufficientVouchers,
    /// A vouch is younger than required.
    VouchTooRecent,
    /// The caller is not the borrower of the loan.
    UnauthorizedCaller,
    /// There is no active loan.
    NoActiveLoan,
    /// The address is already on the list.
    DuplicateVouch,
}

/// The reasons for which a call is aborted instead of answered.
#[derive(Clone, Copy, Debug, PartialEq, Eq, Structural)]
pub enum Abort {
    /// An address whose signature is needed did not sign the call.
    Unauthorized,
    /// A borrower named themselves as their referrer.
    SelfReferral,
    /// A referrer was named while a loan is active.
    ReferralWithActiveLoan,
    /// The borrower defaulted too often to borrow without collateral.
    CollateralRequired,
    /// The stake threshold is not positive.
    NonPositiveThreshold,
    /// The borrower already has an active loan.
    ActiveLoanExists,
    /// The stakes do not reach the threshold.
    StakeBelowThreshold,
    /// The amount is above what the stakes can carry.
    CollateralRatioExceeded,
    /// The deadline of the loan has passed.
    DeadlinePassed,
    /// The payment is not positive or is above the outstanding balance.
    InvalidPayment,
    /// The vouchers' shares add up to more than there is to share.
    YieldExceedsAvailable,
    /// The new loan does not cover the old one, in another token.
    RefinanceBelowOutstandingOtherToken,
    /// The new loan does not cover the old one, in the same token.
    RefinanceBelowOutstanding,
    /// The collateral is not positive.
    NonPositiveCollateral,
    /// The result of an operation does not fit its type.
    Overflow,
    /// A division by zero.
    DivisionByZero,
}

impl Abort {
    /// The text of an aborted call.
    pub open spec fn text(self) -> Seq<char> {
        match self {
            Abort::Unauthorized => "authorization required"@,
            Abort::SelfReferral => "borrower cannot refer themselves"@,
            Abort::ReferralWithActiveLoan => "cannot set referral with active loan"@,
            Abort::CollateralRequired => "collateral required after defaults"@,
            Abort::NonPositiveThreshold => "threshold must be greater than zero"@,
            Abort::ActiveLoanExists => "borrower already has an active loan"@,
            Abort::StakeBelowThreshold => "insufficient funds"@,
            Abort::CollateralRatioExceeded => "loan amount exceeds maximum collateral ratio"@,
            Abort::DeadlinePassed => "loan deadline has passed"@,
            Abort::InvalidPayment => "invalid payment amount"@,
            Abort::YieldExceedsAvailable => "yield distribution would exceed available funds"@,
            Abort::RefinanceBelowOutstandingOtherToken =>
                "new loan amount must cover outstanding balance when changing tokens"@,
            Abort::RefinanceBelowOutstanding =>
                "new loan amount must be at least the outstanding balance"@,
            Abort::NonPositiveCollateral => "collateral amount must be positive"@,
            Abort::Overflow => "arithmetic overflow"@,
            Abort::DivisionByZero => "attempt to divide by zero"@,
        }
    }

    /// The text of an aborted call.
    pub fn message(self) -> (text: &'static str)
        ensures
            text@ == self.text(),
    {
        match self {
            Abort::Unauthorized => "authorization required",
            Abort::SelfReferral => "borrower cannot refer themselves",
            Abort::ReferralWithActiveLoan => "cannot set referral with active loan",
            Abort::CollateralRequired => "collateral required after defaults",
            Abort::NonPositiveThreshold => "threshold must be greater than zero",
            Abort::ActiveLoanExists => "borrower already has an active loan",
            Abort::StakeBelowThreshold => "insufficient funds",
            Abort::CollateralRatioExceeded => "loan amount exceeds maximum collateral ratio",
            Abort::DeadlinePassed => "loan deadline has passed",
            Abort::InvalidPayment => "invalid payment amount",
            Abort::YieldExceedsAvailable => "yield distribution would exceed available funds",
            Abort::RefinanceBelowOutstandingOtherToken =>
                "new loan amount must cover outstanding balance when changing tokens",
            Abort::RefinanceBelowOutstanding =>
                "new loan amount must be at least the outstanding balance",
            Abort::NonPositiveCollateral => "collateral amount must be positive",
            Abort::Overflow => "arithmetic overflow",
            Abort::DivisionByZero => "attempt to divide by zero",
        }
    }
}

impl Abort {
    /// The error that an aborted call carries instead of a text, if any.
    pub open spec fn carries(self) -> Option<ContractError> {
        if self == Abort::StakeBelowThreshold {
            Some(ContractError::InsufficientFunds)
        } else {
            None
        }
    }

    /// The error that an aborted call carries instead of a text, if any.
    pub fn error(self) -> (error: Option<ContractError>)
        ensures
            error == self.carries(),
    {
        if self == Abort::StakeBelowThreshold {
            Some(ContractError::InsufficientFunds)
        } else {
            None
        }
    }
}

/// Why a call does not go through: it is answered with an error, or aborted.
#[derive(Clone, Copy, Debug, PartialEq, Eq, Structural)]
pub enum Fault {
    Refuse(ContractError),
    Abort(Abort),
}

/// Whether a fault aborts the call.
pub open spec fn aborts(fault: Option<Fault>) -> bool {
    fault matches Some(Fault::Abort(_))
}

/// The answer that a check gives for a fault.
pub open spec fn check_result(fault: Option<Fault>) -> Result<(), Fault> {
    match fault {
        None => Ok(()),
        Some(f) => Err(f),
    }
}

/// The answer to a call that is not aborted.
pub(crate) fn answered(checked: Result<(), Fault>) -> (answer: Result<(), ContractError>)
    requires
        !(checked matches Err(Fault::Abort(_))),
    ensures
        match checked {
            Err(Fault::Refuse(error)) => answer == Err::<(), ContractError>(error),
            _ => answer == Ok::<(), ContractError>(()),
        },
{
    match checked {
        Err(Fault::Refuse(error)) => Err(error),
        _ => Ok(()),
    }
}

/// Where a loan stands.
#[derive(Clone, Copy, Debug, PartialEq, Eq, Structural)]
pub enum LoanStatus {
    /// There is no loan.
    NoLoan,
    /// Disbursed and not yet repaid.
    Active,
    /// Repaid in full.
    Repaid,
    /// Not repaid in time.
    Defaulted,
}

/// A stake that a voucher put behind a borrower.
#[derive(Clone, Copy, Debug, PartialEq, Eq, Structural)]
pub struct VouchRecord {
    pub voucher: Address,
    pub stake: i128,
    pub vouch_timestamp: u64,
    pub token: Address,
}

/// A loan.
#[derive(Debug)]
pub struct LoanRecord {
    pub id: u64,
    pub borrower: Address,
    pub co_borrowers: Vec<Address>,
    pub amount: i128,
    pub amount_repaid: i128,
    pub total_yield: i128,
    pub status: LoanStatus,
    pub created_at: u64,
    pub disbursement_timestamp: u64,
    pub repayment_timestamp: Option<u64>,
    pub deadline: u64,
    /// What the loan is for, as the bytes that the borrower wrote.
    pub loan_purpose: Vec<u8>,
    pub token_address: Address,
    pub collateral_amount: i128,
    pub is_refinance: bool,
    pub original_loan_id: Option<u64>,
}

/// What a [`LoanRecord`] says.
#[verifier::ext_equal]
pub struct LoanView {
    pub id: u64,
    pub borrower: Address,
    pub co_borrowers: Seq<Address>,
    pub amount: i128,
    pub amount_repaid: i128,
    pub total_yield: i128,
    pub status: LoanStatus,
    pub created_at: u64,
    pub disbursement_timestamp: u64,
    pub repayment_timestamp: Option<u64>,
    pub deadline: u64,
    pub loan_purpose: Seq<u8>,
    pub token_address: Address,
    pub collateral_amount: i128,
    pub is_refinance: bool,
    pub original_loan_id: Option<u64>,
}

impl View for LoanRecord {
    type V = LoanView;

    open spec fn view(&self) -> LoanView {
        LoanView {
            id: self.id,
            borrower: self.borrower,
            co_borrowers: self.co_borrowers@,
            amount: self.amount,
            amount_repaid: self.amount_repaid,
            total_yield: self.total_yield,
            status: self.status,
            created_at: self.created_at,
            disbursement_timestamp: self.disbursement_timestamp,
            repayment_timestamp: self.repayment_timestamp,
            deadline: self.deadline,
            loan_purpose: self.loan_purpose@,
            token_address: self.token_address,
            collateral_amount: self.collateral_amount,
            is_refinance: self.is_refinance,
            original_loan_id: self.original_loan_id,
        }
    }
}

impl LoanView {
    /// Principal plus the yield that was locked in at disbursement.
    pub open spec fn owed(self) -> int {
        self.amount + self.total_yield
    }

    /// What is still to be paid.
    pub open spec fn outstanding(self) -> int {
        self.owed() - self.amount_repaid
    }
}

impl Clone for LoanRecord {
    fn clone(&self) -> (record: Self)
        ensures
            record@ == self@,
    {
        let mut co_borrowers: Vec<Address> = Vec::new();
        let count: usize = self.co_borrowers.len();
        for i in 0..count
            invariant
                count == self.co_borrowers@.len(),
                co_borrowers@ == self.co_borrowers@.take(i as int),
        {
            co_borrowers.push(self.co_borrowers[i]);
        }
        let mut loan_purpose: Vec<u8> = Vec::new();
        let length: usize = self.loan_purpose.len();
        for i in 0..length
            invariant
                length == self.loan_purpose@.len(),
                loan_purpose@ == self.loan_purpose@.take(i as int),
        {
            loan_purpose.push(self.loan_purpose[i]);
        }
        LoanRecord {
            id: self.id,
            borrower: self.borrower,
            co_borrowers,
            amount: self.amount,
            amount_repaid: self.amount_repaid,
            total_yield: self.total_yield,
            status: self.status,
            created_at: self.created_at,
            disbursement_timestamp: self.disbursement_timestamp,
            repayment_timestamp: self.repayment_timestamp,
            deadline: self.deadline,
            loan_purpose,
            token_address: self.token_address,
            collateral_amount: self.collateral_amount,
            is_refinance: self.is_refinance,
            original_loan_id: self.original_loan_id,
        }
    }
}

/// Something that the host publishes.
#[derive(Clone, Copy, Debug, PartialEq, Eq, Structural)]
pub enum Event {
    ReferralSet { borrower: Address, referrer: Address },
    ReferralBonus { referrer: Address, borrower: Address, bonus: i128 },
    LoanDisbursed { borrower: Address, amount: i128, deadline: u64, token: Address },
    LoanRepaid { borrower: Address, amount: i128 },
    LoanRefinanced { borrower: Address, amount: i128, old_loan_id: u64, loan_id: u64 },
    CoBorrowerAdded { loan_id: u64, co_borrower: Address },
    CollateralDeposited { borrower: Address, amount: i128, token: Address },
}

/// Something that the host carries out once the ledger has changed.
#[derive(Clone, Copy, Debug, PartialEq, Eq, Structural)]
pub enum Effect {
    /// Move `amount` of `token` from one address to another.
    Transfer { token: Address, from: Address, to: Address, amount: i128 },
    /// Mint a reputation token for the borrower.
    MintReputation { nft: Address, borrower: Address },
    /// Publish an event.
    Publish(Event),
}

/// What the host knows of a call: the contract's own address, the time of the
/// ledger, and the addresses that signed the call.
#[derive(Debug)]
pub struct Call {
    pub contract: Address,
    pub timestamp: u64,
    pub signers: Vec<Address>,
}

impl Call {
    /// Whether the address signed the call.
    pub open spec fn signed_by(self, address: Address) -> bool {
        self.signers@.contains(address)
    }

    /// Whether the address signed the call.
    pub fn has_signed(&self, address: Address) -> (yes: bool)
        ensures
            yes == self.signed_by(address),
    {
        contains_address(&self.signers, address)
    }
}

/// Whether the list holds the address.
pub fn contains_address(list: &Vec<Address>, address: Address) -> (yes: bool)
    ensures
        yes == list@.contains(address),
{
    let count: usize = list.len();
    for i in 0..count
        invariant
            count == list@.len(),
            forall|j: int| 0 <= j < i ==> list@[j] != address,
    {
        if list[i] == address {
            return true;
        }
    }
    false
}

} // verus!
