//! Association tables kept as sequences of keyed records.
//!
//! The ledger stores its accounts, collateral entries and whitelist entries
//! as vectors of records, each record carrying its own key.  This module
//! gives the spec-level view of such a table: the index of the first record
//! with a given key, lookup through that index, distinctness of keys, and a
//! sum over the records, together with the lemmas that the ledger operations
//! need about updates and insertions.

use vstd::prelude::*;

verus! {

/// A record of an association table, identified by a key.
pub trait Keyed<K> {
    spec fn key(&self) -> K;
}

/// Index of the first record of `s` whose key is `k`, or `-1` if none has it.
pub open spec fn key_index<K, T: Keyed<K>>(s: Seq<T>, k: K) -> int
    decreases s.len(),
{
    if s.len() == 0 {
        -1
    } else if s[0].key() == k {
        0
    } else {
        let r = key_index(s.drop_first(), k);
        if r < 0 {
            -1
        } else {
            r + 1
        }
    }
}

/// Whether some record of `s` has key `k`.
pub open spec fn has_key<K, T: Keyed<K>>(s: Seq<T>, k: K) -> bool {
    key_index(s, k) >= 0
}

/// The first record of `s` with key `k`, if any.
pub open spec fn lookup<K, T: Keyed<K>>(s: Seq<T>, k: K) -> Option<T> {
    if key_index(s, k) >= 0 {
        Some(s[key_index(s, k)])
    } else {
        None
    }
}

/// No two records of `s` share a key.
pub open spec fn distinct_keys<K, T: Keyed<K>>(s: Seq<T>) -> bool {
    forall|i: int, j: int| 0 <= i < j < s.len() ==> s[i].key() != s[j].key()
}

/// Basic facts about `key_index`: it is a valid index or `-1`, it points at a
/// record with the sought key, and no earlier record has that key.
pub proof fn lemma_key_index<K, T: Keyed<K>>(s: Seq<T>, k: K)
    ensures
        -1 <= key_index(s, k) < s.len(),
        key_index(s, k) >= 0 ==> s[key_index(s, k)].key() == k,
        forall|i: int| 0 <= i < s.len() && s[i].key() == k ==> key_index(s, k) >= 0,
        forall|i: int|
            0 <= i < s.len() && (key_index(s, k) < 0 || i < key_index(s, k)) ==> s[i].key() != k,
    decreases s.len(),
{
    if s.len() > 0 && s[0].key() != k {
        lemma_key_index(s.drop_first(), k);
        assert forall|i: int|
            0 <= i < s.len() && (key_index(s, k) < 0 || i < key_index(s, k)) implies s[i].key()
            != k by {
            if i > 0 {
                assert(s.drop_first()[i - 1] == s[i]);
            }
        }
        assert forall|i: int| 0 <= i < s.len() && s[i].key() == k implies key_index(s, k) >= 0 by {
            if i > 0 {
                assert(s.drop_first()[i - 1] == s[i]);
            }
        }
    }
}

/// In a table with distinct keys, the key of the record at `i` leads back to `i`.
pub proof fn lemma_key_index_of_distinct<K, T: Keyed<K>>(s: Seq<T>, i: int)
    requires
        distinct_keys(s),
        0 <= i < s.len(),
    ensures
        key_index(s, s[i].key()) == i,
{
    lemma_key_index(s, s[i].key());
}

/// Replacing the record at `i` by one with the same key leaves every key at
/// the same index.
pub proof fn lemma_key_index_update<K, T: Keyed<K>>(s: Seq<T>, i: int, v: T, k: K)
    requires
        0 <= i < s.len(),
        v.key() == s[i].key(),
    ensures
        key_index(s.update(i, v), k) == key_index(s, k),
    decreases s.len(),
{
    if i == 0 {
        assert(s.update(0, v).drop_first() =~= s.drop_first());
    } else {
        assert(s.update(i, v).drop_first() =~= s.drop_first().update(i - 1, v));
        lemma_key_index_update(s.drop_first(), i - 1, v, k);
    }
}

/// Appending a record affects only lookups of its own key, and only when that
/// key was absent.
pub proof fn lemma_key_index_push<K, T: Keyed<K>>(s: Seq<T>, v: T, k: K)
    ensures
        key_index(s.push(v), k) == if key_index(s, k) >= 0 {
            key_index(s, k)
        } else if v.key() == k {
            s.len() as int
        } else {
            -1
        },
        key_index(s, k) >= 0 ==> s.push(v)[key_index(s, k)] == s[key_index(s, k)],
    decreases s.len(),
{
    lemma_key_index(s, k);
    assert(s.push(v).len() == s.len() + 1);
    if s.len() == 0 {
        assert(s.push(v)[0] == v);
        assert(s.push(v).drop_first() =~= Seq::<T>::empty());
        assert(key_index(s.push(v).drop_first(), k) == -1);
    } else {
        assert(s.push(v)[0] == s[0]);
        assert(s.push(v).drop_first() =~= s.drop_first().push(v));
        lemma_key_index_push(s.drop_first(), v, k);
        lemma_key_index(s.drop_first(), k);
    }
}

/// Replacing the first record of key `v.key()` by `v` changes the lookup of
/// that key alone, and keeps keys distinct.
pub proof fn lemma_lookup_update<K, T: Keyed<K>>(s: Seq<T>, i: int, v: T)
    requires
        0 <= i < s.len(),
        v.key() == s[i].key(),
        key_index(s, v.key()) == i,
    ensures
        lookup(s.update(i, v), v.key()) == Some(v),
        forall|k: K| k != v.key() ==> #[trigger] lookup(s.update(i, v), k) == lookup(s, k),
        forall|k: K| #[trigger] has_key(s.update(i, v), k) == has_key(s, k),
        distinct_keys(s) ==> distinct_keys(s.update(i, v)),
        s.update(i, v).len() == s.len(),
{
    lemma_key_index_update(s, i, v, v.key());
    assert forall|k: K| k != v.key() implies #[trigger] lookup(s.update(i, v), k) == lookup(
        s,
        k,
    ) by {
        lemma_key_index_update(s, i, v, k);
        lemma_key_index(s, k);
    }
    assert forall|k: K| #[trigger] has_key(s.update(i, v), k) == has_key(s, k) by {
        lemma_key_index_update(s, i, v, k);
    }
    if distinct_keys(s) {
        assert forall|a: int, b: int| 0 <= a < b < s.len() implies s.update(i, v)[a].key() != s.update(
            i,
            v,
        )[b].key() by {
            assert(s[a].key() != s[b].key());
        }
    }
}

/// Appending a record with a fresh key adds exactly that lookup, and keeps
/// keys distinct.
pub proof fn lemma_lookup_push<K, T: Keyed<K>>(s: Seq<T>, v: T)
    requires
        !has_key(s, v.key()),
    ensures
        lookup(s.push(v), v.key()) == Some(v),
        forall|k: K| k != v.key() ==> #[trigger] lookup(s.push(v), k) == lookup(s, k),
        forall|k: K| k != v.key() ==> #[trigger] has_key(s.push(v), k) == has_key(s, k),
        has_key(s.push(v), v.key()),
        distinct_keys(s) ==> distinct_keys(s.push(v)),
        s.push(v).len() == s.len() + 1,
{
    lemma_key_index_push(s, v, v.key());
    assert forall|k: K| k != v.key() implies #[trigger] lookup(s.push(v), k) == lookup(s, k) by {
        lemma_key_index_push(s, v, k);
    }
    assert forall|k: K| k != v.key() implies #[trigger] has_key(s.push(v), k) == has_key(s, k) by {
        lemma_key_index_push(s, v, k);
    }
    if distinct_keys(s) {
        lemma_key_index(s, v.key());
        assert forall|a: int, b: int|
            0 <= a < b < s.push(v).len() implies s.push(v)[a].key() != s.push(v)[b].key() by {
            if b < s.len() {
                assert(s[a].key() != s[b].key());
            } else {
                assert(s.push(v)[b] == v);
                assert(s[a].key() != v.key());
            }
        }
    }
}

/// Sum of `f` over the records of `s`.
pub open spec fn seq_sum<T>(s: Seq<T>, f: spec_fn(T) -> int) -> int
    decreases s.len(),
{
    if s.len() == 0 {
        0
    } else {
        f(s[0]) + seq_sum(s.drop_first(), f)
    }
}

/// Replacing the record at `i` changes the sum by the difference at `i`.
pub proof fn lemma_seq_sum_update<T>(s: Seq<T>, i: int, v: T, f: spec_fn(T) -> int)
    requires
        0 <= i < s.len(),
    ensures
        seq_sum(s.update(i, v), f) == seq_sum(s, f) - f(s[i]) + f(v),
    decreases s.len(),
{
    if i == 0 {
        assert(s.update(0, v).drop_first() =~= s.drop_first());
    } else {
        assert(s.update(i, v).drop_first() =~= s.drop_first().update(i - 1, v));
        lemma_seq_sum_update(s.drop_first(), i - 1, v, f);
    }
}

/// Appending a record adds its contribution to the sum.
pub proof fn lemma_seq_sum_push<T>(s: Seq<T>, v: T, f: spec_fn(T) -> int)
    ensures
        seq_sum(s.push(v), f) == seq_sum(s, f) + f(v),
    decreases s.len(),
{
    assert(s.push(v).len() == s.len() + 1);
    if s.len() == 0 {
        assert(s.push(v)[0] == v);
        assert(s.push(v).drop_first() =~= Seq::<T>::empty());
        assert(seq_sum(s.push(v).drop_first(), f) == 0);
    } else {
        assert(s.push(v)[0] == s[0]);
        assert(s.push(v).drop_first() =~= s.drop_first().push(v));
        lemma_seq_sum_push(s.drop_first(), v, f);
    }
    assert(seq_sum(s.push(v), f) == f(s.push(v)[0]) + seq_sum(s.push(v).drop_first(), f));
}

/// When every contribution is non-negative, each single contribution is
/// bounded by the whole sum.
pub proof fn lemma_seq_sum_element_bound<T>(s: Seq<T>, i: int, f: spec_fn(T) -> int)
    requires
        0 <= i < s.len(),
        forall|t: T| #[trigger] f(t) >= 0,
    ensures
        f(s[i]) <= seq_sum(s, f),
    decreases s.len(),
{
    lemma_seq_sum_nonneg(s.drop_first(), f);
    if i > 0 {
        lemma_seq_sum_element_bound(s.drop_first(), i - 1, f);
    }
}

/// A sum of non-negative contributions is non-negative.
pub proof fn lemma_seq_sum_nonneg<T>(s: Seq<T>, f: spec_fn(T) -> int)
    requires
        forall|t: T| #[trigger] f(t) >= 0,
    ensures
        seq_sum(s, f) >= 0,
    decreases s.len(),
{
    if s.len() > 0 {
        lemma_seq_sum_nonneg(s.drop_first(), f);
    }
}

} // verus!
