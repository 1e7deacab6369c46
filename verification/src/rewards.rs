//! The reward-accrual arithmetic and the pool's share arithmetic.
//!
//! All formulas truncate at each step, in a fixed order; contracts state the
//! same order, not an algebraically equal rearrangement, because intermediate
//! rounding differs.

use vstd::prelude::*;
use crate::account::AccountEntry;
use vstd::arithmetic::div_mod::{
    lemma_div_is_ordered, lemma_div_multiples_vanish, lemma_div_pos_is_pos,
};
use vstd::arithmetic::mul::lemma_mul_inequality;

verus! {

/// Length of the repayment window of a loan, in milliseconds.
pub const TIME_IN_WEEK: u64 = 604800000;

/// Milliseconds in a year, the denominator of the reward rate.
pub const MS_PER_YEAR: u128 = 31536000000;

/// Yearly reward cap, as a percentage of the deposited balance.
pub const REWARD_APR_PERCENT: u128 = 28;

/// Shares minted by the very first deposit into an empty pool.
pub const BOOTSTRAP_SHARES: u128 = 100;

/// Shares minted for a deposit of `amount`, from the totals before the
/// deposit: the bootstrap grant when the pool has no shares (or no balance),
/// otherwise the deposit's proportional slice, rounded down.
pub open spec fn spec_minted_shares(total_balance: u128, total_shares: u128, amount: u128) -> int {
    if total_shares == 0 || total_balance == 0 {
        BOOTSTRAP_SHARES as int
    } else {
        (total_shares as int * amount as int) / total_balance as int
    }
}

/// Shares burned by a withdrawal of `amount`, from the totals before the
/// withdrawal: the withdrawal's proportional slice, rounded down.
pub open spec fn spec_burned_shares(total_balance: u128, total_shares: u128, amount: u128) -> int {
    if total_balance == 0 {
        0
    } else {
        (total_shares as int * amount as int) / total_balance as int
    }
}

/// The reward accrued by an account since its last fold: zero without a
/// recorded fold time, shares or balance, or when no time has passed;
/// otherwise the account's share of the reward pool, capped by the yearly
/// rate applied to the elapsed time.  Each division truncates where written.
pub open spec fn spec_unclaimed(
    balance: u128,
    shares: u128,
    total_rewards_pool: u128,
    total_shares: u128,
    claim_time: Option<u64>,
    now: u64,
) -> int {
    match claim_time {
        None => 0,
        Some(t) => {
            if shares == 0 || total_shares == 0 || now <= t || balance == 0 {
                0
            } else {
                let pool_share = (total_rewards_pool as int * shares as int)
                    / total_shares as int;
                let cap = balance as int * REWARD_APR_PERCENT as int / 100 / MS_PER_YEAR as int
                    * (now - t);
                if pool_share > cap {
                    cap
                } else {
                    pool_share
                }
            }
        },
    }
}

/// The machine-width bounds under which the reward formula can be evaluated
/// exactly in 128 bits.
pub open spec fn reward_math_fits(
    balance: u128,
    shares: u128,
    total_rewards_pool: u128,
    total_shares: u128,
    claim_time: Option<u64>,
    now: u64,
) -> bool {
    &&& total_rewards_pool as int * shares as int <= u128::MAX as int
    &&& balance as int * REWARD_APR_PERCENT as int <= u128::MAX as int
    &&& match claim_time {
        Some(t) => t < now ==> balance as int * REWARD_APR_PERCENT as int / 100
            / MS_PER_YEAR as int * (now - t) <= u128::MAX as int,
        None => true,
    }
}

/// The burned-share slice of a withdrawal covered by the account's balance
/// never exceeds the share total, and is never negative.
pub proof fn lemma_burned_bound(total_balance: u128, total_shares: u128, amount: u128)
    requires
        amount <= total_balance,
    ensures
        0 <= spec_burned_shares(total_balance, total_shares, amount) <= total_shares as int,
{
    if total_balance > 0 {
        lemma_mul_inequality(amount as int, total_balance as int, total_shares as int);
        lemma_div_is_ordered(
            total_shares as int * amount as int,
            total_shares as int * total_balance as int,
            total_balance as int,
        );
        lemma_div_multiples_vanish(total_shares as int, total_balance as int);
        lemma_div_pos_is_pos(total_shares as int * amount as int, total_balance as int);
    }
}

/// The minted-share grant of a deposit is never negative.
pub proof fn lemma_minted_nonneg(total_balance: u128, total_shares: u128, amount: u128)
    ensures
        spec_minted_shares(total_balance, total_shares, amount) >= 0,
{
    if total_shares != 0 && total_balance != 0 {
        lemma_div_pos_is_pos(total_shares as int * amount as int, total_balance as int);
    }
}

/// Evaluates the accrued reward of one account row.  The result never
/// exceeds the reward pool.
pub fn compute_unclaimed(a: &AccountEntry, total_rewards_pool: u128, total_shares: u128, now: u64) -> (r:
    u128)
    requires
        a.shares <= total_shares,
        reward_math_fits(a.balance, a.shares, total_rewards_pool, total_shares, a.claim_time, now),
    ensures
        r as int == spec_unclaimed(
            a.balance,
            a.shares,
            total_rewards_pool,
            total_shares,
            a.claim_time,
            now,
        ),
        r <= total_rewards_pool,
{
    match a.claim_time {
        None => 0,
        Some(t) => {
            if a.shares == 0 || total_shares == 0 || now <= t || a.balance == 0 {
                0
            } else {
                let elapsed: u64 = now - t;
                let pool_share: u128 = (total_rewards_pool * a.shares) / total_shares;
                proof {
                    lemma_mul_inequality(
                        a.shares as int,
                        total_shares as int,
                        total_rewards_pool as int,
                    );
                    lemma_div_is_ordered(
                        total_rewards_pool as int * a.shares as int,
                        total_rewards_pool as int * total_shares as int,
                        total_shares as int,
                    );
                    lemma_div_multiples_vanish(total_rewards_pool as int, total_shares as int);
                }
                let cap: u128 = a.balance * REWARD_APR_PERCENT / 100 / MS_PER_YEAR * (
                elapsed as u128);
                if pool_share > cap {
                    cap
                } else {
                    pool_share
                }
            }
        },
    }
}

} // verus!
