//! Labels for the ledger's persisted tables.
//!
//! A deployment that stores the ledger in a key-value host names each table
//! by one of these labels when it lays out storage prefixes.

use vstd::prelude::*;

verus! {

/// One label per persisted table of the ledger.
#[derive(Clone, Copy, Debug, PartialEq, Eq, Structural)]
pub enum StorageKey {
    /// Deposited balance per principal.
    BalanceByAccount,
    /// Outstanding loan principal per principal.
    LoanBalanceByAccount,
    /// Outstanding principal per collateral token.
    LoanByNft,
    /// Custodian per collateral token.
    NftContractOwner,
    /// Captured price per collateral token.
    PriceByNft,
    /// Expiry per collateral token.
    LoanDateByNft,
    /// Last reward-fold time per principal.
    ClaimDateByAccount,
    /// Folded reward per principal.
    RewardByAccount,
    /// Captured fee percent per collateral token.
    PercentByNft,
    /// Collateral tokens per custodian.
    NftByOwner,
    /// Loan price per whitelisted contract.
    PriceByContract,
    /// Fee percent per whitelisted contract.
    PercentByContract,
    /// Pool shares per principal.
    SharesByAccount,
}

} // verus!
