//! The ledger's standing laws, stated once and proved for every state and
//! input that the operations' contracts allow.

use vstd::prelude::*;
use crate::{AccountKey, ContractId, TokenId};
use crate::account::{balance_total, shares_total};
use crate::factory::{
    LoanFactory, open_loan_applied, open_payout_reverted, repay_applied, repay_reverted,
    resolve_nft_applied, spec_fee, spec_loan_amount,
};

verus! {

/// Conservation: in every well-formed ledger state — and every operation
/// both requires and re-establishes well-formedness — the account balances
/// sum to the pool's total balance and the account shares to the pool's
/// total shares.
pub proof fn lemma_conservation(s: LoanFactory)
    requires
        s.wf(),
    ensures
        balance_total(s.accounts@) == s.total_balance as int,
        shares_total(s.accounts@) == s.total_shares as int,
{
}

/// Liquidity: in every well-formed ledger state the outstanding loan total
/// never exceeds the deposited total, so the free liquidity
/// `total_balance - total_loan` never goes negative.
pub proof fn lemma_liquidity(s: LoanFactory)
    requires
        s.wf(),
    ensures
        s.total_loan <= s.total_balance,
        s.available() >= 0,
{
}

/// Compensation correctness for an opening loan whose payout fails: after
/// the loan is opened on `(c, t)` for `borrower`, the custody transfer
/// succeeds, and the payout of the loan amount then fails, the compensation
/// returns `total_loan`, the collateral's outstanding principal and the
/// borrower's debt exactly to their values before the call — while the
/// custodian record still names the borrower, since custody of the token
/// itself was transferred and is not wound back.
pub proof fn lemma_open_loan_compensation(
    s0: LoanFactory,
    s1: LoanFactory,
    s2: LoanFactory,
    s3: LoanFactory,
    c: ContractId,
    t: TokenId,
    borrower: AccountKey,
    price: u128,
    percent: u64,
    now: u64,
)
    requires
        open_loan_applied(s0, s1, c, t, borrower),
        resolve_nft_applied(s1, s2, borrower, c, t, price, percent, now),
        open_payout_reverted(s2, s3, borrower, c, t, spec_loan_amount(price, percent) as u128),
        0 <= spec_loan_amount(price, percent),
        s0.coll_principal(c, t) as int + spec_loan_amount(price, percent) <= u128::MAX as int,
        s0.acct_loan(borrower) as int + spec_loan_amount(price, percent) <= u128::MAX as int,
    ensures
        s3.total_loan == s0.total_loan,
        s3.coll_principal(c, t) == s0.coll_principal(c, t),
        s3.acct_loan(borrower) == s0.acct_loan(borrower),
        s3.coll_custodian(c, t) == Some(borrower),
        s3.total_balance == s0.total_balance,
        s3.total_shares == s0.total_shares,
        s3.total_rewards_pool == s0.total_rewards_pool,
{
    let la = spec_loan_amount(price, percent);
    assert(s1.coll_principal(c, t) == s0.coll_principal(c, t));
    assert(s2.coll_principal(c, t) as int == s0.coll_principal(c, t) as int + la);
    assert(s1.acct_loan(borrower) == s0.acct_loan(borrower));
}

/// Compensation correctness for a repayment whose refund fails: after the
/// loan on `(c, t)` is repaid by `payer` and the refund transfer then
/// fails, the compensation returns `total_loan`, the reward pool, the
/// collateral's outstanding principal and the payer's debt exactly to their
/// values before the call.
pub proof fn lemma_repay_compensation(
    s0: LoanFactory,
    s1: LoanFactory,
    s2: LoanFactory,
    payer: AccountKey,
    c: ContractId,
    t: TokenId,
)
    requires
        repay_applied(s0, s1, payer, c, t),
        repay_reverted(
            s1,
            s2,
            payer,
            c,
            t,
            s0.coll_principal(c, t),
            spec_fee(s0.coll_principal(c, t), s0.commission) as u128,
        ),
        0 <= spec_fee(s0.coll_principal(c, t), s0.commission) <= u128::MAX as int,
    ensures
        s2.total_loan == s0.total_loan,
        s2.total_rewards_pool == s0.total_rewards_pool,
        s2.coll_principal(c, t) == s0.coll_principal(c, t),
        s2.acct_loan(payer) == s0.acct_loan(payer),
        s2.total_balance == s0.total_balance,
        s2.total_shares == s0.total_shares,
{
    assert(s1.coll_principal(c, t) == 0);
}

} // verus!
