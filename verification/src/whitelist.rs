//! The whitelist of collateral-issuing contracts and their loan terms.

use vstd::prelude::*;
use crate::ContractId;
use crate::table::{Keyed, distinct_keys, key_index, lookup};

verus! {

/// One contract's whitelist row.  A contract is eligible for loans only when
/// it is listed and both terms are set; removing a contract clears all three
/// at once.
#[derive(Clone, Copy)]
pub struct WhitelistEntry {
    /// The collateral-issuing contract.
    pub contract: ContractId,
    /// Whether the contract is currently on the whitelist.
    pub listed: bool,
    /// The loan price for this contract's tokens, if set.
    pub price: Option<u128>,
    /// The fee percent for this contract's tokens, if set.
    pub percent: Option<u64>,
}

impl Keyed<ContractId> for WhitelistEntry {
    open spec fn key(&self) -> ContractId {
        self.contract
    }
}

/// The whitelist row of contract `c`, if one exists.
pub open spec fn wl_of(s: Seq<WhitelistEntry>, c: ContractId) -> Option<WhitelistEntry> {
    lookup(s, c)
}

/// Whether contract `c` is on the whitelist.
pub open spec fn listed(s: Seq<WhitelistEntry>, c: ContractId) -> bool {
    match wl_of(s, c) {
        Some(e) => e.listed,
        None => false,
    }
}

/// The loan price set for contract `c`.
pub open spec fn wl_price(s: Seq<WhitelistEntry>, c: ContractId) -> Option<u128> {
    match wl_of(s, c) {
        Some(e) => e.price,
        None => None,
    }
}

/// The fee percent set for contract `c`.
pub open spec fn wl_percent(s: Seq<WhitelistEntry>, c: ContractId) -> Option<u64> {
    match wl_of(s, c) {
        Some(e) => e.percent,
        None => None,
    }
}

/// A contract is eligible for loans when it is listed and both terms are set.
pub open spec fn is_eligible(s: Seq<WhitelistEntry>, c: ContractId) -> bool {
    listed(s, c) && wl_price(s, c) is Some && wl_percent(s, c) is Some
}

/// Writes row `e` for its contract: over the existing row when `idx` names
/// it, as a fresh row otherwise.  Every other row is untouched.
pub fn put_listing(v: &mut Vec<WhitelistEntry>, idx: Option<usize>, e: WhitelistEntry)
    requires
        match idx {
            Some(i) => i < old(v).len() && key_index(old(v)@, e.contract) == i as int,
            None => key_index(old(v)@, e.contract) == -1,
        },
    ensures
        wl_of(final(v)@, e.contract) == Some(e),
        forall|c2: ContractId| c2 != e.contract ==> #[trigger] wl_of(final(v)@, c2) == wl_of(
            old(v)@,
            c2,
        ),
        distinct_keys(old(v)@) ==> distinct_keys(final(v)@),
{
    match idx {
        Some(i) => {
            proof {
                crate::table::lemma_key_index(v@, e.contract);
            }
            let slot = &mut v[i];
            *slot = e;
            proof {
                crate::table::lemma_lookup_update(old(v)@, i as int, e);
            }
        },
        None => {
            v.push(e);
            proof {
                crate::table::lemma_lookup_push(old(v)@, e);
            }
        },
    }
}

/// Whether one row makes its contract eligible on its own: listed with both
/// terms set.
pub open spec fn entry_eligible(e: WhitelistEntry) -> bool {
    e.listed && e.price is Some && e.percent is Some
}

/// The contracts of the eligible rows, in table order.
pub open spec fn eligible_list(s: Seq<WhitelistEntry>) -> Seq<ContractId>
    decreases s.len(),
{
    if s.len() == 0 {
        Seq::empty()
    } else {
        let init = eligible_list(s.drop_last());
        if entry_eligible(s.last()) {
            init.push(s.last().contract)
        } else {
            init
        }
    }
}

/// With distinct keys, the eligible-contract list contains exactly the
/// eligible contracts.
pub proof fn lemma_eligible_list_contains(s: Seq<WhitelistEntry>, c: ContractId)
    requires
        distinct_keys(s),
    ensures
        eligible_list(s).contains(c) <==> is_eligible(s, c),
    decreases s.len(),
{
    if s.len() == 0 {
        assert(!eligible_list(s).contains(c));
        crate::table::lemma_key_index(s, c);
    } else {
        let dl = s.drop_last();
        let lst = s.last();
        assert(s =~= dl.push(lst));
        assert forall|i: int, j: int| 0 <= i < j < dl.len() implies dl[i].key() != dl[j].key() by {
            assert(s[i].key() != s[j].key());
        }
        lemma_eligible_list_contains(dl, c);
        crate::table::lemma_key_index(s, c);
        crate::table::lemma_key_index(dl, c);
        crate::table::lemma_key_index_push(dl, lst, c);
        if c == lst.contract {
            // the last row is the only one with this key
            assert forall|i: int| 0 <= i < dl.len() implies dl[i].key() != c by {
                assert(s[i].key() != s[s.len() - 1].key());
            }
            assert(!is_eligible(dl, c));
            assert(key_index(s, c) == s.len() - 1);
            assert(is_eligible(s, c) == entry_eligible(lst));
            if entry_eligible(lst) {
                let el = eligible_list(s);
                assert(el == eligible_list(dl).push(lst.contract));
                assert(el[el.len() - 1] == c);
                assert(el.contains(c));
            } else {
                if eligible_list(s).contains(c) {
                    assert(is_eligible(dl, c));
                }
            }
        } else {
            assert(lookup(s, c) == lookup(dl, c));
            assert(is_eligible(s, c) == is_eligible(dl, c));
            if entry_eligible(lst) {
                let el = eligible_list(s);
                assert(el == eligible_list(dl).push(lst.contract));
                if el.contains(c) {
                    let i = choose|i: int| 0 <= i < el.len() && el[i] == c;
                    assert(i < el.len() - 1 || el[i] == lst.contract);
                    assert(eligible_list(dl)[i] == c || el[i] == lst.contract);
                    assert(eligible_list(dl).contains(c));
                }
                if eligible_list(dl).contains(c) {
                    let i = choose|i: int| 0 <= i < eligible_list(dl).len() && eligible_list(dl)[i]
                        == c;
                    assert(el[i] == c);
                    assert(el.contains(c));
                }
            }
        }
    }
}

/// Finds the whitelist row of contract `c`.
pub fn find_listing(v: &Vec<WhitelistEntry>, c: ContractId) -> (r: Option<usize>)
    ensures
        match r {
            Some(i) => i < v.len() && key_index(v@, c) == i as int,
            None => key_index(v@, c) == -1,
        },
{
    proof {
        crate::table::lemma_key_index(v@, c);
    }
    let mut i: usize = 0;
    while i < v.len()
        invariant
            i <= v.len(),
            forall|k: int| 0 <= k < i ==> v@[k].contract != c,
            -1 <= key_index(v@, c) < v@.len(),
            key_index(v@, c) >= 0 ==> v@[key_index(v@, c)].contract == c,
            forall|k: int|
                0 <= k < v@.len() && (key_index(v@, c) < 0 || k < key_index(v@, c))
                    ==> v@[k].contract != c,
            forall|k: int| 0 <= k < v@.len() && v@[k].contract == c ==> key_index(v@, c) >= 0,
        decreases v.len() - i,
    {
        if v[i].contract == c {
            return Some(i);
        }
        i = i + 1;
    }
    None
}

} // verus!
