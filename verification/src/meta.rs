//! Read-model records handed to callers of the query surface.

use vstd::prelude::*;
use crate::{AccountKey, ContractId, TokenId};
use crate::collateral::CollateralEntry;
use crate::rewards::TIME_IN_WEEK;

verus! {

/// A loan's row as reported to callers: the collateral pair, the recorded
/// custodian, the outstanding principal and the loan's time window.
#[derive(Clone, Copy, Debug, PartialEq, Eq, Structural)]
pub struct JsonLoan {
    /// The collateral token.
    pub token_id: TokenId,
    /// The contract that issued it.
    pub contract_id: ContractId,
    /// The recorded custodian.
    pub owner_id: AccountKey,
    /// When the running loan was opened; zero when none is active.
    pub started_at: u64,
    /// When the running loan expires; zero when none is active.
    pub expired_at: u64,
    /// The outstanding principal.
    pub price: u128,
    /// Whether the reported expiry lies before `now`; an inactive loan
    /// reports zero and therefore counts as expired.
    pub expired: bool,
}

/// The report built from one collateral row at time `now`.  Meaningful only
/// for a row with a recorded custodian and principal.
pub open spec fn spec_json_loan(e: CollateralEntry, now: u64) -> JsonLoan {
    let expire_date: u64 = match e.expiry {
        Some(x) => x,
        None => 0,
    };
    JsonLoan {
        token_id: e.token,
        contract_id: e.contract,
        owner_id: e.custodian.unwrap(),
        started_at: if expire_date == 0 {
            0
        } else {
            (expire_date - TIME_IN_WEEK) as u64
        },
        expired_at: expire_date,
        price: e.principal.unwrap(),
        expired: expire_date < now,
    }
}

/// Terms attached to a token-approval message offering a rental sale.
#[derive(Clone, Copy, Debug, PartialEq, Eq, Structural)]
pub struct SaleArgs {
    /// Asked price per hour, in the smallest currency unit.
    pub price_per_hour: u128,
    /// Shortest acceptable rental, in milliseconds.
    pub min_time: u64,
    /// Longest acceptable rental, in milliseconds.
    pub max_time: u64,
}

} // verus!
