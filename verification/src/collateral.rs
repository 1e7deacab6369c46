//! Per-collateral loan records: recorded custodian, outstanding principal,
//! captured terms and expiry.

use vstd::prelude::*;
use crate::{AccountKey, ContractId, TokenId};
use crate::table::{Keyed, distinct_keys, has_key, key_index, lookup};

verus! {

/// One collateral token's row, keyed by the pair of issuing contract and
/// token.  A row appears when a loan is first attempted on the token and is
/// never removed; fields go back to `None` as the loan winds down.
#[derive(Clone, Copy)]
pub struct CollateralEntry {
    /// The contract that issued the token.
    pub contract: ContractId,
    /// The token within that contract.
    pub token: TokenId,
    /// The recorded holder: the borrower while a loan runs, the pool operator
    /// once seized, `None` when no loan is in flight.
    pub custodian: Option<AccountKey>,
    /// Outstanding principal; `None` before the first completed loan,
    /// `Some(0)` after repayment.
    pub principal: Option<u128>,
    /// The price captured when the running loan was opened.
    pub price: Option<u128>,
    /// The fee percent captured when the running loan was opened.
    pub percent: Option<u64>,
    /// When the running loan expires, in milliseconds; `None` when no loan
    /// is active.
    pub expiry: Option<u64>,
}

impl Keyed<(ContractId, TokenId)> for CollateralEntry {
    open spec fn key(&self) -> (ContractId, TokenId) {
        (self.contract, self.token)
    }
}

/// The row of collateral `(c, t)`, if one exists.
pub open spec fn coll_of(s: Seq<CollateralEntry>, c: ContractId, t: TokenId) -> Option<
    CollateralEntry,
> {
    lookup(s, (c, t))
}

/// Whether collateral `(c, t)` has a row.
pub open spec fn has_coll(s: Seq<CollateralEntry>, c: ContractId, t: TokenId) -> bool {
    has_key(s, (c, t))
}

/// The recorded custodian of collateral `(c, t)`.
pub open spec fn custodian_of(s: Seq<CollateralEntry>, c: ContractId, t: TokenId) -> Option<
    AccountKey,
> {
    match coll_of(s, c, t) {
        Some(e) => e.custodian,
        None => None,
    }
}

/// The principal record of collateral `(c, t)`: `None` before any completed
/// loan, otherwise the outstanding amount.
pub open spec fn principal_rec_of(s: Seq<CollateralEntry>, c: ContractId, t: TokenId) -> Option<
    u128,
> {
    match coll_of(s, c, t) {
        Some(e) => e.principal,
        None => None,
    }
}

/// Outstanding principal of collateral `(c, t)`, zero when unrecorded.
pub open spec fn principal_of(s: Seq<CollateralEntry>, c: ContractId, t: TokenId) -> u128 {
    match principal_rec_of(s, c, t) {
        Some(p) => p,
        None => 0,
    }
}

/// The price captured for the running loan on `(c, t)`.
pub open spec fn price_rec_of(s: Seq<CollateralEntry>, c: ContractId, t: TokenId) -> Option<u128> {
    match coll_of(s, c, t) {
        Some(e) => e.price,
        None => None,
    }
}

/// The fee percent captured for the running loan on `(c, t)`.
pub open spec fn percent_rec_of(s: Seq<CollateralEntry>, c: ContractId, t: TokenId) -> Option<
    u64,
> {
    match coll_of(s, c, t) {
        Some(e) => e.percent,
        None => None,
    }
}

/// The expiry of the running loan on `(c, t)`, if one is active.
pub open spec fn expiry_of(s: Seq<CollateralEntry>, c: ContractId, t: TokenId) -> Option<u64> {
    match coll_of(s, c, t) {
        Some(e) => e.expiry,
        None => None,
    }
}

/// Every recorded expiry lies at least one repayment window after the epoch,
/// since it was created as a current time plus that window.
pub open spec fn expiry_floor(e: CollateralEntry) -> bool {
    match e.expiry {
        Some(x) => x >= crate::rewards::TIME_IN_WEEK,
        None => true,
    }
}

/// Writes row `e` for its collateral pair: over the existing row when `idx`
/// names it, as a fresh row otherwise.  Every other row is untouched.
pub fn put_collateral(v: &mut Vec<CollateralEntry>, idx: Option<usize>, e: CollateralEntry)
    requires
        match idx {
            Some(i) => i < old(v).len() && key_index(old(v)@, (e.contract, e.token)) == i as int,
            None => key_index(old(v)@, (e.contract, e.token)) == -1,
        },
    ensures
        coll_of(final(v)@, e.contract, e.token) == Some(e),
        has_coll(final(v)@, e.contract, e.token),
        forall|c2: ContractId, t2: TokenId|
            (c2, t2) != (e.contract, e.token) ==> #[trigger] coll_of(final(v)@, c2, t2) == coll_of(
                old(v)@,
                c2,
                t2,
            ),
        distinct_keys(old(v)@) ==> distinct_keys(final(v)@),
        forall|i: int|
            0 <= i < final(v)@.len() ==> final(v)@[i] == e || exists|j: int|
                0 <= j < old(v)@.len() && final(v)@[i] == old(v)@[j],
{
    match idx {
        Some(i) => {
            proof {
                crate::table::lemma_key_index(v@, (e.contract, e.token));
            }
            let slot = &mut v[i];
            *slot = e;
            proof {
                crate::table::lemma_lookup_update(old(v)@, i as int, e);
                assert forall|c2: ContractId, t2: TokenId|
                    (c2, t2) != (e.contract, e.token) implies #[trigger] coll_of(v@, c2, t2)
                    == coll_of(old(v)@, c2, t2) by {
                    assert(lookup(v@, (c2, t2)) == lookup(old(v)@, (c2, t2)));
                }
                assert forall|i2: int| 0 <= i2 < v@.len() implies v@[i2] == e || exists|j: int|
                    0 <= j < old(v)@.len() && v@[i2] == old(v)@[j] by {
                    if i2 != i as int {
                        assert(0 <= i2 < old(v)@.len() && v@[i2] == old(v)@[i2]);
                    }
                }
            }
        },
        None => {
            v.push(e);
            proof {
                crate::table::lemma_lookup_push(old(v)@, e);
                assert forall|c2: ContractId, t2: TokenId|
                    (c2, t2) != (e.contract, e.token) implies #[trigger] coll_of(v@, c2, t2)
                    == coll_of(old(v)@, c2, t2) by {
                    assert(lookup(v@, (c2, t2)) == lookup(old(v)@, (c2, t2)));
                }
                assert forall|i2: int| 0 <= i2 < v@.len() implies v@[i2] == e || exists|j: int|
                    0 <= j < old(v)@.len() && v@[i2] == old(v)@[j] by {
                    if i2 < old(v)@.len() {
                        assert(0 <= i2 < old(v)@.len() && v@[i2] == old(v)@[i2]);
                    } else {
                        assert(v@[i2] == e);
                    }
                }
            }
        },
    }
}

/// The contribution of one row to the count of active loans: one when an
/// expiry is recorded.
pub open spec fn active_weight() -> spec_fn(CollateralEntry) -> int {
    |e: CollateralEntry|
        if e.expiry is Some {
            1
        } else {
            0
        }
}

/// The rows whose recorded custodian is `a`, in table order.
pub open spec fn owned_entries(s: Seq<CollateralEntry>, a: AccountKey) -> Seq<CollateralEntry>
    decreases s.len(),
{
    if s.len() == 0 {
        Seq::empty()
    } else {
        let init = owned_entries(s.drop_last(), a);
        if s.last().custodian == Some(a) {
            init.push(s.last())
        } else {
            init
        }
    }
}

/// A table whose rows all satisfy the expiry floor keeps it after one row
/// is written, provided the written row satisfies it too.
pub proof fn lemma_expiry_floor_preserved(
    pre: Seq<CollateralEntry>,
    post: Seq<CollateralEntry>,
    e: CollateralEntry,
)
    requires
        forall|i: int| 0 <= i < pre.len() ==> expiry_floor(#[trigger] pre[i]),
        expiry_floor(e),
        forall|i: int|
            0 <= i < post.len() ==> (#[trigger] post[i]) == e || exists|j: int|
                0 <= j < pre.len() && post[i] == pre[j],
    ensures
        forall|i: int| 0 <= i < post.len() ==> expiry_floor(#[trigger] post[i]),
{
    assert forall|i: int| 0 <= i < post.len() implies expiry_floor(#[trigger] post[i]) by {
        if post[i] != e {
            let j = choose|j: int| 0 <= j < pre.len() && post[i] == pre[j];
            assert(expiry_floor(pre[j]));
        }
    }
}

/// Finds the row of collateral `(c, t)`.
pub fn find_collateral(v: &Vec<CollateralEntry>, c: ContractId, t: TokenId) -> (r: Option<usize>)
    ensures
        match r {
            Some(i) => i < v.len() && key_index(v@, (c, t)) == i as int,
            None => key_index(v@, (c, t)) == -1,
        },
{
    proof {
        crate::table::lemma_key_index(v@, (c, t));
    }
    let mut i: usize = 0;
    while i < v.len()
        invariant
            i <= v.len(),
            forall|k: int| 0 <= k < i ==> (#[trigger] v@[k]).key() != (c, t),
            -1 <= key_index(v@, (c, t)) < v@.len(),
            key_index(v@, (c, t)) >= 0 ==> v@[key_index(v@, (c, t))].key() == (c, t),
            forall|k: int|
                0 <= k < v@.len() && (key_index(v@, (c, t)) < 0 || k < key_index(v@, (c, t)))
                    ==> (#[trigger] v@[k]).key() != (c, t),
            forall|k: int|
                0 <= k < v@.len() && (#[trigger] v@[k]).key() == (c, t) ==> key_index(v@, (c, t))
                    >= 0,
        decreases v.len() - i,
    {
        if v[i].contract == c && v[i].token == t {
            return Some(i);
        }
        i = i + 1;
    }
    None
}

} // verus!
