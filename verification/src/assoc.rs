//! Association lists: a sequence of distinct keys beside a sequence of
//! values, read as a finite map.

use vstd::prelude::*;

verus! {

/// The map that sends each key to the value at the key's position.
pub open spec fn assoc_map<K, V>(keys: Seq<K>, values: Seq<V>) -> Map<K, V> {
    Map::new(|k: K| keys.contains(k), |k: K| values[keys.index_of(k)])
}

/// With distinct keys, the key at a position is mapped to the value at that
/// position.
pub proof fn lemma_assoc_at<K, V>(keys: Seq<K>, values: Seq<V>, i: int)
    requires
        keys.no_duplicates(),
        0 <= i < keys.len(),
    ensures
        assoc_map(keys, values).contains_key(keys[i]),
        assoc_map(keys, values)[keys[i]] == values[i],
{
    assert(keys.contains(keys[i]));
    let j = keys.index_of(keys[i]);
    assert(0 <= j < keys.len() && keys[j] == keys[i]);
}

/// A key of the map stands at some position of the key sequence.
pub proof fn lemma_assoc_key<K, V>(keys: Seq<K>, values: Seq<V>, k: K) -> (i: int)
    requires
        keys.no_duplicates(),
        assoc_map(keys, values).contains_key(k),
    ensures
        0 <= i < keys.len(),
        keys[i] == k,
        assoc_map(keys, values)[k] == values[i],
{
    let i = keys.index_of(k);
    assert(keys.contains(k));
    i
}

/// Appending a fresh key with its value inserts the pair into the map.
pub proof fn lemma_assoc_push<K, V>(keys: Seq<K>, values: Seq<V>, k: K, v: V)
    requires
        keys.no_duplicates(),
        keys.len() == values.len(),
        !keys.contains(k),
    ensures
        keys.push(k).no_duplicates(),
        assoc_map(keys.push(k), values.push(v)) == assoc_map(keys, values).insert(k, v),
{
    let keys2 = keys.push(k);
    let values2 = values.push(v);
    assert forall|i: int, j: int| 0 <= i < keys2.len() && 0 <= j < keys2.len() && i != j implies keys2[i] != keys2[j] by {
        if i < keys.len() && j < keys.len() {
        } else if i < keys.len() {
            assert(keys.contains(keys[i]));
        } else {
            assert(keys.contains(keys[j]));
        }
    }
    assert forall|x: K| assoc_map(keys2, values2).contains_key(x) <==> assoc_map(keys, values).insert(k, v).contains_key(x) by {
        if keys2.contains(x) {
            let i = choose|i: int| 0 <= i < keys2.len() && keys2[i] == x;
            if i < keys.len() {
                assert(keys[i] == x);
            }
        }
        if keys.contains(x) {
            let i = choose|i: int| 0 <= i < keys.len() && keys[i] == x;
            assert(keys2[i] == x);
        }
        if x == k {
            assert(keys2[keys.len() as int] == k);
        }
    }
    assert forall|x: K| assoc_map(keys2, values2).contains_key(x) implies assoc_map(keys2, values2)[x] == assoc_map(keys, values).insert(k, v)[x] by {
        let i = lemma_assoc_key(keys2, values2, x);
        if i < keys.len() {
            assert(keys[i] == x);
            lemma_assoc_at(keys, values, i);
        } else {
            assert(x == k);
        }
    }
    assert(assoc_map(keys2, values2) =~= assoc_map(keys, values).insert(k, v));
}

/// No key sequence, no entries.
pub proof fn lemma_assoc_empty<K, V>()
    ensures
        assoc_map(Seq::<K>::empty(), Seq::<V>::empty()) == Map::<K, V>::empty(),
{
    assert(assoc_map(Seq::<K>::empty(), Seq::<V>::empty()) =~= Map::<K, V>::empty());
}

/// With distinct keys, the map has as many entries as there are keys.
pub proof fn lemma_assoc_len<K, V>(keys: Seq<K>, values: Seq<V>)
    requires
        keys.no_duplicates(),
    ensures
        assoc_map(keys, values).dom().finite(),
        assoc_map(keys, values).len() == keys.len(),
{
    assert(assoc_map(keys, values).dom() =~= keys.to_set());
    keys.unique_seq_to_set();
    vstd::seq_lib::seq_to_set_is_finite(keys);
}

} // verus!
