//! The entry points on loans.

pub use crate::co_borrowers::add_co_borrower;
pub use crate::collateral::{deposit_collateral, get_collateral};
pub use crate::queries::{
    default_count, get_loan, get_loan_by_id, is_eligible, loan_count, loan_status, repayment_count,
};
pub use crate::referral::{get_referrer, register_referral};
pub use crate::refinance::refinance_loan;
pub use crate::repay::repay;
pub use crate::request::request_loan;
