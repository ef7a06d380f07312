//! From a stored sequence to a keyed map.
//!
//! The in-memory repositories keep their entities in a vector; their contracts
//! speak of the map from entity id to entity.  This module defines that map
//! and proves the facts that connect the two: membership, lookup, and how
//! push, update and removal of a vector element act on the map.

use vstd::prelude::*;

verus! {

/// The map from `key(x)` to `x` over the elements of `s`; a later element
/// wins when keys repeat.
pub open spec fn assoc_map<T>(s: Seq<T>, key: spec_fn(T) -> u128) -> Map<u128, T>
    decreases s.len(),
{
    if s.len() == 0 {
        Map::empty()
    } else {
        assoc_map(s.drop_last(), key).insert(key(s.last()), s.last())
    }
}

/// No two elements of `s` share a key.
pub open spec fn unique_keys<T>(s: Seq<T>, key: spec_fn(T) -> u128) -> bool {
    forall|i: int, j: int| 0 <= i < j < s.len() ==> key(#[trigger] s[i]) != key(#[trigger] s[j])
}

/// A key is in the map exactly when some element carries it.
pub proof fn lemma_assoc_contains<T>(s: Seq<T>, key: spec_fn(T) -> u128, k: u128)
    ensures
        assoc_map(s, key).contains_key(k) <==> exists|i: int| 0 <= i < s.len() && key(s[i]) == k,
    decreases s.len(),
{
    if s.len() > 0 {
        lemma_assoc_contains(s.drop_last(), key, k);
        if exists|i: int| 0 <= i < s.len() && key(s[i]) == k {
            let i = choose|i: int| 0 <= i < s.len() && key(s[i]) == k;
            if i < s.len() - 1 {
                assert(s.drop_last()[i] == s[i]);
            }
        }
        if assoc_map(s, key).contains_key(k) {
            if k != key(s.last()) {
                let i = choose|i: int| 0 <= i < s.drop_last().len() && key(s.drop_last()[i]) == k;
                assert(s[i] == s.drop_last()[i]);
            }
        }
    }
}

/// Under unique keys, looking an element's key up gives that element.
pub proof fn lemma_assoc_index<T>(s: Seq<T>, key: spec_fn(T) -> u128, i: int)
    requires
        unique_keys(s, key),
        0 <= i < s.len(),
    ensures
        assoc_map(s, key).contains_key(key(s[i])),
        assoc_map(s, key)[key(s[i])] == s[i],
    decreases s.len(),
{
    lemma_assoc_contains(s, key, key(s[i]));
    if i == s.len() - 1 {
    } else {
        assert(s.drop_last()[i] == s[i]);
        assert(unique_keys(s.drop_last(), key)) by {
            assert(forall|a: int, b: int|
                0 <= a < b < s.drop_last().len() ==> key(#[trigger] s.drop_last()[a]) != key(
                    #[trigger] s.drop_last()[b],
                )) by {
                assert(forall|a: int|
                    0 <= a < s.drop_last().len() ==> #[trigger] s.drop_last()[a] == s[a]);
            }
        }
        lemma_assoc_index(s.drop_last(), key, i);
        assert(key(s[i]) != key(s.last()));
    }
}

/// Appending an element inserts its key.
pub proof fn lemma_assoc_push<T>(s: Seq<T>, key: spec_fn(T) -> u128, x: T)
    ensures
        assoc_map(s.push(x), key) == assoc_map(s, key).insert(key(x), x),
{
    assert(s.push(x).drop_last() =~= s);
    assert(s.push(x).last() == x);
}

/// Under unique keys, replacing the element at `i` by one with the same key
/// re-inserts that key.
pub proof fn lemma_assoc_update<T>(s: Seq<T>, key: spec_fn(T) -> u128, i: int, x: T)
    requires
        unique_keys(s, key),
        0 <= i < s.len(),
        key(x) == key(s[i]),
    ensures
        assoc_map(s.update(i, x), key) =~= assoc_map(s, key).insert(key(x), x),
{
    let s2 = s.update(i, x);
    assert(s2.len() == s.len());
    assert forall|k: u128| #[trigger]
        assoc_map(s2, key).contains_key(k) == assoc_map(s, key).insert(
            key(x),
            x,
        ).contains_key(k) by {
        lemma_assoc_contains(s2, key, k);
        lemma_assoc_contains(s, key, k);
        if k == key(x) {
            assert(key(s2[i]) == k);
        } else {
            if assoc_map(s2, key).contains_key(k) {
                let j = choose|j: int| 0 <= j < s2.len() && key(s2[j]) == k;
                assert(j != i);
                assert(s2[j] == s[j]);
            }
            if assoc_map(s, key).contains_key(k) {
                let j = choose|j: int| 0 <= j < s.len() && key(s[j]) == k;
                assert(j != i);
                assert(s2[j] == s[j]);
            }
        }
    }
    assert(unique_keys(s2, key)) by {
        assert(forall|a: int| 0 <= a < s2.len() && a != i ==> #[trigger] s2[a] == s[a]);
    }
    assert forall|k: u128| assoc_map(s2, key).contains_key(k) implies #[trigger] assoc_map(
        s2,
        key,
    )[k] == assoc_map(s, key).insert(key(x), x)[k] by {
        lemma_assoc_contains(s2, key, k);
        let j = choose|j: int| 0 <= j < s2.len() && key(s2[j]) == k;
        lemma_assoc_index(s2, key, j);
        if k == key(x) {
            assert(j == i);
        } else {
            assert(j != i);
            assert(s2[j] == s[j]);
            lemma_assoc_index(s, key, j);
        }
    }
}

/// Under unique keys, removing the element at `i` removes its key.
pub proof fn lemma_assoc_remove<T>(s: Seq<T>, key: spec_fn(T) -> u128, i: int)
    requires
        unique_keys(s, key),
        0 <= i < s.len(),
    ensures
        assoc_map(s.remove(i), key) =~= assoc_map(s, key).remove(key(s[i])),
{
    let s2 = s.remove(i);
    assert(s2.len() == s.len() - 1);
    assert(forall|a: int| 0 <= a < i ==> #[trigger] s2[a] == s[a]);
    assert(forall|a: int| i <= a < s2.len() ==> #[trigger] s2[a] == s[a + 1]);
    assert(unique_keys(s2, key)) by {
        assert forall|a: int, b: int| 0 <= a < b < s2.len() implies key(#[trigger] s2[a]) != key(
            #[trigger] s2[b],
        ) by {
            let a0 = if a < i {
                a
            } else {
                a + 1
            };
            let b0 = if b < i {
                b
            } else {
                b + 1
            };
            assert(s2[a] == s[a0]);
            assert(s2[b] == s[b0]);
        }
    }
    assert forall|k: u128| #[trigger]
        assoc_map(s2, key).contains_key(k) == assoc_map(s, key).remove(
            key(s[i]),
        ).contains_key(k) by {
        lemma_assoc_contains(s2, key, k);
        lemma_assoc_contains(s, key, k);
        if assoc_map(s2, key).contains_key(k) {
            let j = choose|j: int| 0 <= j < s2.len() && key(s2[j]) == k;
            let j0 = if j < i {
                j
            } else {
                j + 1
            };
            assert(s2[j] == s[j0]);
            assert(key(s[j0]) == k);
            assert(j0 != i);
        }
        if assoc_map(s, key).remove(key(s[i])).contains_key(k) {
            let j = choose|j: int| 0 <= j < s.len() && key(s[j]) == k;
            assert(j != i);
            let j2 = if j < i {
                j
            } else {
                j - 1
            };
            assert(s2[j2] == s[j]);
        }
    }
    assert forall|k: u128| assoc_map(s2, key).contains_key(k) implies #[trigger] assoc_map(
        s2,
        key,
    )[k] == assoc_map(s, key).remove(key(s[i]))[k] by {
        lemma_assoc_contains(s2, key, k);
        let j = choose|j: int| 0 <= j < s2.len() && key(s2[j]) == k;
        lemma_assoc_index(s2, key, j);
        let j0 = if j < i {
            j
        } else {
            j + 1
        };
        assert(s2[j] == s[j0]);
        lemma_assoc_index(s, key, j0);
    }
}

} // verus!
