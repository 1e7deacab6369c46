//! A pooled-liquidity lending ledger.
//!
//! Depositors fund a shared pool and earn a time-weighted, capped reward;
//! borrowers post a non-fungible collateral token (identified by an
//! issuing-contract and token pair) and receive an immediate loan, repayable
//! with a fee before a fixed expiry, after which the collateral may be seized.
//!
//! Every operation that moves value or custody follows a two-phase protocol:
//! the ledger is mutated optimistically, the caller performs the external
//! transfer, and a resolution handler either confirms the mutation or applies
//! the exact inverse when the transfer failed.  The ledger itself never
//! performs I/O: callers pass in the acting principal, the attached payment
//! and the current time, and receive back the amounts to transfer.

use vstd::prelude::*;

pub mod account;
pub mod collateral;
pub mod errors;
pub mod factory;
pub mod keys;
pub mod laws;
pub mod meta;
pub mod rewards;
pub mod table;
pub mod whitelist;

verus! {

/// Identifier of a principal (a depositor, borrower or the pool operator).
pub type AccountKey = u64;

/// Identifier of a collateral token within its issuing contract.
pub type TokenId = u64;

/// Identifier of a collateral-issuing contract.
pub type ContractId = u64;

/// Rounds an amount in the smallest currency unit to whole currency units,
/// half away from zero.
pub fn yton(yocto_amount: u128) -> (r: u128)
    requires
        yocto_amount as int + 500000000000000000000000int <= u128::MAX as int,
    ensures
        r as int == (yocto_amount as int + 500000000000000000000000int)
            / 1000000000000000000000000int,
{
    (yocto_amount + 500000000000000000000000) / 1000000000000000000000000
}

} // verus!
