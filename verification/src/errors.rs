//! The refusal taxonomy of the ledger.

use vstd::prelude::*;

verus! {

/// Why an operation was refused.  A refusal never mutates the ledger: the
/// caller sees either a completed state change or the state it started from.
#[derive(Clone, Copy, Debug, PartialEq, Eq, Structural)]
pub enum LoanError {
    /// A malformed or out-of-range argument, a wrong attached payment, or a
    /// loan already active on the collateral.
    Validation,
    /// The caller is not the pool owner.
    Permission,
    /// The pool or the account cannot cover the requested amount.
    InsufficientFunds,
    /// No record exists for the requested loan, terms or custodian.
    NotFound,
    /// The operation is not valid in the loan's current expiry state.
    Expiry,
}

impl LoanError {
    /// A short description of the refusal, for callers that print it.
    pub fn message(&self) -> (r: &'static str)
        ensures
            r@.len() > 0,
    {
        proof {
            reveal_strlit("invalid argument or payment");
            reveal_strlit("caller is not the owner");
            reveal_strlit("insufficient funds");
            reveal_strlit("record not found");
            reveal_strlit("loan expiry forbids this");
        }
        match self {
            LoanError::Validation => "invalid argument or payment",
            LoanError::Permission => "caller is not the owner",
            LoanError::InsufficientFunds => "insufficient funds",
            LoanError::NotFound => "record not found",
            LoanError::Expiry => "loan expiry forbids this",
        }
    }
}

} // verus!
