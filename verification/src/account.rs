//! Per-principal ledger records: balance, pool shares, outstanding loan
//! principal and reward bookkeeping.

use vstd::prelude::*;
use crate::AccountKey;
use crate::table::{Keyed, distinct_keys, has_key, key_index, lookup, seq_sum};

verus! {

/// One principal's row of the ledger.  A row is created on the first
/// operation that touches the principal and is never removed, only zeroed.
#[derive(Clone, Copy)]
pub struct AccountEntry {
    /// The principal this row belongs to.
    pub id: AccountKey,
    /// Deposited funds not currently lent out on this principal's behalf.
    pub balance: u128,
    /// Proportional claim on the deposit pool.
    pub shares: u128,
    /// Loan principal this principal still owes, over all its loans.
    pub loan: u128,
    /// Reward already folded into the account and not yet paid out.
    pub reward: u128,
    /// When the reward was last folded, in milliseconds; `None` before the
    /// first fold.
    pub claim_time: Option<u64>,
}

impl Keyed<AccountKey> for AccountEntry {
    open spec fn key(&self) -> AccountKey {
        self.id
    }
}

/// The row of principal `id`, if one exists.
pub open spec fn acct_of(s: Seq<AccountEntry>, id: AccountKey) -> Option<AccountEntry> {
    lookup(s, id)
}

/// Whether principal `id` has a row.
pub open spec fn has_acct(s: Seq<AccountEntry>, id: AccountKey) -> bool {
    has_key(s, id)
}

/// Deposited balance of principal `id`; zero without a row.
pub open spec fn balance_of(s: Seq<AccountEntry>, id: AccountKey) -> u128 {
    match acct_of(s, id) {
        Some(a) => a.balance,
        None => 0,
    }
}

/// Pool shares of principal `id`; zero without a row.
pub open spec fn shares_of(s: Seq<AccountEntry>, id: AccountKey) -> u128 {
    match acct_of(s, id) {
        Some(a) => a.shares,
        None => 0,
    }
}

/// Outstanding loan principal of principal `id`; zero without a row.
pub open spec fn loan_of(s: Seq<AccountEntry>, id: AccountKey) -> u128 {
    match acct_of(s, id) {
        Some(a) => a.loan,
        None => 0,
    }
}

/// Folded reward of principal `id`; zero without a row.
pub open spec fn reward_of(s: Seq<AccountEntry>, id: AccountKey) -> u128 {
    match acct_of(s, id) {
        Some(a) => a.reward,
        None => 0,
    }
}

/// Last reward-fold time of principal `id`; `None` without a row or before
/// the first fold.
pub open spec fn claim_time_of(s: Seq<AccountEntry>, id: AccountKey) -> Option<u64> {
    match acct_of(s, id) {
        Some(a) => a.claim_time,
        None => None,
    }
}

/// The balance contribution of one row, as a mathematical integer.
pub open spec fn balance_weight() -> spec_fn(AccountEntry) -> int {
    |a: AccountEntry| a.balance as int
}

/// The share contribution of one row, as a mathematical integer.
pub open spec fn shares_weight() -> spec_fn(AccountEntry) -> int {
    |a: AccountEntry| a.shares as int
}

/// Sum of all deposited balances.
pub open spec fn balance_total(s: Seq<AccountEntry>) -> int {
    seq_sum(s, balance_weight())
}

/// Sum of all pool shares.
pub open spec fn shares_total(s: Seq<AccountEntry>) -> int {
    seq_sum(s, shares_weight())
}

/// One row's balance and shares are bounded by the pool totals, and the
/// totals are never negative.
pub proof fn lemma_entry_le_totals(s: Seq<AccountEntry>, i: int)
    requires
        0 <= i < s.len(),
    ensures
        s[i].balance as int <= balance_total(s),
        s[i].shares as int <= shares_total(s),
        balance_total(s) >= 0,
        shares_total(s) >= 0,
{
    assert forall|t: AccountEntry| #[trigger] balance_weight()(t) >= 0 by {}
    assert forall|t: AccountEntry| #[trigger] shares_weight()(t) >= 0 by {}
    crate::table::lemma_seq_sum_element_bound(s, i, balance_weight());
    crate::table::lemma_seq_sum_element_bound(s, i, shares_weight());
    lemma_totals_nonneg(s);
}

/// The pool totals are sums of machine words, hence never negative.
pub proof fn lemma_totals_nonneg(s: Seq<AccountEntry>)
    ensures
        balance_total(s) >= 0,
        shares_total(s) >= 0,
{
    assert forall|t: AccountEntry| #[trigger] balance_weight()(t) >= 0 by {}
    assert forall|t: AccountEntry| #[trigger] shares_weight()(t) >= 0 by {}
    crate::table::lemma_seq_sum_nonneg(s, balance_weight());
    crate::table::lemma_seq_sum_nonneg(s, shares_weight());
}

/// Writes row `e` for its principal: over the existing row when `idx` names
/// it, as a fresh row otherwise.  Every other row is untouched, and the pool
/// sums move exactly by the difference at this principal.
pub fn put_account(v: &mut Vec<AccountEntry>, idx: Option<usize>, e: AccountEntry)
    requires
        match idx {
            Some(i) => i < old(v).len() && key_index(old(v)@, e.id) == i as int,
            None => key_index(old(v)@, e.id) == -1,
        },
    ensures
        acct_of(final(v)@, e.id) == Some(e),
        has_acct(final(v)@, e.id),
        forall|a: AccountKey| a != e.id ==> #[trigger] acct_of(final(v)@, a) == acct_of(old(v)@, a),
        balance_total(final(v)@) == balance_total(old(v)@) - balance_of(old(v)@, e.id)
            + e.balance,
        shares_total(final(v)@) == shares_total(old(v)@) - shares_of(old(v)@, e.id) + e.shares,
        distinct_keys(old(v)@) ==> distinct_keys(final(v)@),
{
    match idx {
        Some(i) => {
            proof {
                crate::table::lemma_key_index(v@, e.id);
            }
            let slot = &mut v[i];
            *slot = e;
            proof {
                crate::table::lemma_lookup_update(old(v)@, i as int, e);
                crate::table::lemma_seq_sum_update(old(v)@, i as int, e, balance_weight());
                crate::table::lemma_seq_sum_update(old(v)@, i as int, e, shares_weight());
            }
        },
        None => {
            v.push(e);
            proof {
                crate::table::lemma_lookup_push(old(v)@, e);
                crate::table::lemma_seq_sum_push(old(v)@, e, balance_weight());
                crate::table::lemma_seq_sum_push(old(v)@, e, shares_weight());
            }
        },
    }
}

/// Finds the row of principal `id`.
pub fn find_account(v: &Vec<AccountEntry>, id: AccountKey) -> (r: Option<usize>)
    ensures
        match r {
            Some(i) => i < v.len() && key_index(v@, id) == i as int,
            None => key_index(v@, id) == -1,
        },
{
    proof {
        crate::table::lemma_key_index(v@, id);
    }
    let mut i: usize = 0;
    while i < v.len()
        invariant
            i <= v.len(),
            forall|k: int| 0 <= k < i ==> v@[k].id != id,
            -1 <= key_index(v@, id) < v@.len(),
            key_index(v@, id) >= 0 ==> v@[key_index(v@, id)].id == id,
            forall|k: int|
                0 <= k < v@.len() && (key_index(v@, id) < 0 || k < key_index(v@, id))
                    ==> v@[k].id != id,
            forall|k: int| 0 <= k < v@.len() && v@[k].id == id ==> key_index(v@, id) >= 0,
        decreases v.len() - i,
    {
        if v[i].id == id {
            return Some(i);
        }
        i = i + 1;
    }
    None
}

} // verus!
