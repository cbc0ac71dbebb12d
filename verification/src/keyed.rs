//! Sequences of records keyed by a string, read as finite maps.
//!
//! The simulator keeps its sessions and the commands received for a tick in
//! vectors whose records carry distinct string keys; these definitions give
//! such a vector its map meaning.
use vstd::prelude::*;

verus! {

/// No two records of `s` share a key.
pub open spec fn keys_distinct<T>(s: Seq<T>, key: spec_fn(T) -> Seq<char>) -> bool {
    forall|i: int, j: int|
        0 <= i < s.len() && 0 <= j < s.len() && i != j ==> key(#[trigger] s[i]) != key(
            #[trigger] s[j],
        )
}

/// Some record of `s` has key `k`.
pub open spec fn has_key<T>(s: Seq<T>, key: spec_fn(T) -> Seq<char>, k: Seq<char>) -> bool {
    exists|i: int| 0 <= i < s.len() && key(#[trigger] s[i]) == k
}

/// The position of a record with key `k` (meaningful when `has_key`).
pub open spec fn index_of_key<T>(s: Seq<T>, key: spec_fn(T) -> Seq<char>, k: Seq<char>) -> int {
    choose|i: int| 0 <= i < s.len() && key(#[trigger] s[i]) == k
}

/// The map from each key to its record.
pub open spec fn keyed_map<T>(s: Seq<T>, key: spec_fn(T) -> Seq<char>) -> Map<Seq<char>, T> {
    Map::new(|k: Seq<char>| has_key(s, key, k), |k: Seq<char>| s[index_of_key(s, key, k)])
}

/// With distinct keys, the record at position `i` is the one the map holds for its key.
pub proof fn lemma_keyed_map_at<T>(s: Seq<T>, key: spec_fn(T) -> Seq<char>, i: int)
    requires
        keys_distinct(s, key),
        0 <= i < s.len(),
    ensures
        keyed_map(s, key).dom().contains(key(s[i])),
        keyed_map(s, key)[key(s[i])] == s[i],
        index_of_key(s, key, key(s[i])) == i,
{
    let k = key(s[i]);
    assert(has_key(s, key, k));
    let j = index_of_key(s, key, k);
    assert(key(s[j]) == k);
}

/// Appending a record with a fresh key inserts it into the map.
pub proof fn lemma_keyed_map_push<T>(s: Seq<T>, key: spec_fn(T) -> Seq<char>, x: T)
    requires
        keys_distinct(s, key),
        !has_key(s, key, key(x)),
    ensures
        keys_distinct(s.push(x), key),
        keyed_map(s.push(x), key) =~= keyed_map(s, key).insert(key(x), x),
{
    let t = s.push(x);
    assert forall|i: int, j: int|
        0 <= i < t.len() && 0 <= j < t.len() && i != j implies key(#[trigger] t[i]) != key(
            #[trigger] t[j],
        ) by {
        if i == s.len() {
            assert(t[j] == s[j]);
        } else if j == s.len() {
            assert(t[i] == s[i]);
        } else {
            assert(t[i] == s[i] && t[j] == s[j]);
        }
    }
    let m1 = keyed_map(t, key);
    let m2 = keyed_map(s, key).insert(key(x), x);
    assert forall|k: Seq<char>| m1.dom().contains(k) <==> m2.dom().contains(k) by {
        if has_key(t, key, k) {
            let i = choose|i: int| 0 <= i < t.len() && key(#[trigger] t[i]) == k;
            if i < s.len() {
                assert(t[i] == s[i]);
            }
        }
        if has_key(s, key, k) {
            let i = choose|i: int| 0 <= i < s.len() && key(#[trigger] s[i]) == k;
            assert(t[i] == s[i]);
        }
        if k == key(x) {
            assert(t[s.len() as int] == x);
        }
    }
    assert forall|k: Seq<char>| #[trigger] m1.dom().contains(k) implies m1[k] == m2[k] by {
        if k == key(x) {
            lemma_keyed_map_at(t, key, s.len() as int);
            assert(t[s.len() as int] == x);
        } else {
            let i = choose|i: int| 0 <= i < t.len() && key(#[trigger] t[i]) == k;
            assert(i < s.len());
            assert(t[i] == s[i]);
            lemma_keyed_map_at(t, key, i);
            lemma_keyed_map_at(s, key, i);
        }
    }
}

/// Replacing a record by one with the same key updates the map at that key.
pub proof fn lemma_keyed_map_update<T>(s: Seq<T>, key: spec_fn(T) -> Seq<char>, i: int, x: T)
    requires
        keys_distinct(s, key),
        0 <= i < s.len(),
        key(x) == key(s[i]),
    ensures
        keys_distinct(s.update(i, x), key),
        keyed_map(s.update(i, x), key) =~= keyed_map(s, key).insert(key(x), x),
{
    let t = s.update(i, x);
    assert forall|a: int, b: int|
        0 <= a < t.len() && 0 <= b < t.len() && a != b implies key(#[trigger] t[a]) != key(
            #[trigger] t[b],
        ) by {
        assert(key(t[a]) == key(s[a]));
        assert(key(t[b]) == key(s[b]));
    }
    let m1 = keyed_map(t, key);
    let m2 = keyed_map(s, key).insert(key(x), x);
    assert forall|k: Seq<char>| m1.dom().contains(k) <==> m2.dom().contains(k) by {
        if has_key(t, key, k) {
            let j = choose|j: int| 0 <= j < t.len() && key(#[trigger] t[j]) == k;
            assert(key(t[j]) == key(s[j]));
        }
        if has_key(s, key, k) {
            let j = choose|j: int| 0 <= j < s.len() && key(#[trigger] s[j]) == k;
            assert(key(t[j]) == key(s[j]));
        }
        lemma_keyed_map_at(s, key, i);
    }
    assert forall|k: Seq<char>| #[trigger] m1.dom().contains(k) implies m1[k] == m2[k] by {
        let j = choose|j: int| 0 <= j < t.len() && key(#[trigger] t[j]) == k;
        assert(key(t[j]) == key(s[j]));
        lemma_keyed_map_at(t, key, j);
        if j != i {
            lemma_keyed_map_at(s, key, j);
        }
    }
}

/// The map of an empty sequence is empty.
pub proof fn lemma_keyed_map_empty<T>(key: spec_fn(T) -> Seq<char>)
    ensures
        keys_distinct(Seq::<T>::empty(), key),
        keyed_map(Seq::<T>::empty(), key) =~= Map::<Seq<char>, T>::empty(),
{
}

} // verus!
