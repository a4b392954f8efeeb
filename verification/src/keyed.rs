//! Sequences read as finite maps: a sequence of distinct keys beside a
//! sequence of values of the same length.

use vstd::prelude::*;

verus! {

/// The map that sends the key at each position to the value at that position.
pub open spec fn keyed<K, V>(keys: Seq<K>, vals: Seq<V>) -> Map<K, V> {
    Map::new(|k: K| keys.contains(k), |k: K| vals[keys.index_of(k)])
}

/// With distinct keys, a key is found again at its own position.
pub proof fn lemma_keyed_at<K, V>(keys: Seq<K>, vals: Seq<V>, i: int)
    requires
        keys.no_duplicates(),
        0 <= i < keys.len(),
    ensures
        keys.contains(keys[i]),
        keys.index_of(keys[i]) == i,
        keyed(keys, vals).contains_key(keys[i]),
        keyed(keys, vals)[keys[i]] == vals[i],
{
    assert(keys.contains(keys[i]));
    let j = keys.index_of(keys[i]);
    assert(0 <= j < keys.len() && keys[j] == keys[i]);
}

/// A key of the map stands at some position.
pub proof fn lemma_keyed_slot<K, V>(keys: Seq<K>, vals: Seq<V>, k: K)
    requires
        keys.no_duplicates(),
        keyed(keys, vals).contains_key(k),
    ensures
        0 <= keys.index_of(k) < keys.len(),
        keys[keys.index_of(k)] == k,
        keyed(keys, vals)[k] == vals[keys.index_of(k)],
{
    assert(keys.contains(k));
}

/// Appending a new key inserts it.
pub proof fn lemma_keyed_push<K, V>(keys: Seq<K>, vals: Seq<V>, k: K, v: V)
    requires
        keys.no_duplicates(),
        keys.len() == vals.len(),
        !keys.contains(k),
    ensures
        keys.push(k).no_duplicates(),
        keyed(keys.push(k), vals.push(v)) == keyed(keys, vals).insert(k, v),
{
    let keys2 = keys.push(k);
    let vals2 = vals.push(v);
    assert(keys2.no_duplicates()) by {
        assert forall|i: int, j: int| 0 <= i < keys2.len() && 0 <= j < keys2.len() && i != j implies keys2[i] != keys2[j] by {
            if i < keys.len() && j < keys.len() {
                assert(keys[i] != keys[j]);
            } else if i < keys.len() {
                assert(keys.contains(keys[i]));
            } else {
                assert(keys.contains(keys[j]));
            }
        }
    }
    let m1 = keyed(keys2, vals2);
    let m2 = keyed(keys, vals).insert(k, v);
    assert forall|x: K| m1.contains_key(x) == m2.contains_key(x) by {
        if keys2.contains(x) {
            let i = choose|i: int| 0 <= i < keys2.len() && keys2[i] == x;
            if i < keys.len() {
                assert(keys[i] == x);
                assert(keys.contains(x));
            }
        }
        if keys.contains(x) {
            let i = choose|i: int| 0 <= i < keys.len() && keys[i] == x;
            assert(keys2[i] == x);
        }
        if x == k {
            assert(keys2[keys.len() as int] == k);
        }
    }
    assert forall|x: K| m1.contains_key(x) implies m1[x] == m2[x] by {
        let i = keys2.index_of(x);
        assert(keys2.contains(x));
        assert(0 <= i < keys2.len() && keys2[i] == x);
        if x == k {
            if i < keys.len() {
                assert(keys.contains(k));
            }
        } else {
            assert(keys[i] == x);
            lemma_keyed_at(keys, vals, i);
        }
    }
    assert(m1 =~= m2);
}

/// Replacing the value at a position overwrites that position's key.
pub proof fn lemma_keyed_update<K, V>(keys: Seq<K>, vals: Seq<V>, i: int, v: V)
    requires
        keys.no_duplicates(),
        keys.len() == vals.len(),
        0 <= i < keys.len(),
    ensures
        keyed(keys, vals.update(i, v)) == keyed(keys, vals).insert(keys[i], v),
{
    let m1 = keyed(keys, vals.update(i, v));
    let m2 = keyed(keys, vals).insert(keys[i], v);
    lemma_keyed_at(keys, vals, i);
    assert forall|x: K| m1.contains_key(x) implies m1[x] == m2[x] by {
        let j = keys.index_of(x);
        assert(0 <= j < keys.len() && keys[j] == x);
    }
    assert(m1 =~= m2);
}

/// Removing a position removes that position's key.
pub proof fn lemma_keyed_remove<K, V>(keys: Seq<K>, vals: Seq<V>, i: int)
    requires
        keys.no_duplicates(),
        keys.len() == vals.len(),
        0 <= i < keys.len(),
    ensures
        keys.remove(i).no_duplicates(),
        !keys.remove(i).contains(keys[i]),
        keyed(keys.remove(i), vals.remove(i)) == keyed(keys, vals).remove(keys[i]),
{
    let keys2 = keys.remove(i);
    let vals2 = vals.remove(i);
    assert forall|a: int| 0 <= a < keys2.len() implies keys2[a] == keys[if a < i { a } else { a + 1 }]
        && vals2[a] == vals[if a < i { a } else { a + 1 }] by {}
    assert(keys2.no_duplicates());
    assert(!keys2.contains(keys[i]));
    let m1 = keyed(keys2, vals2);
    let m2 = keyed(keys, vals).remove(keys[i]);
    assert forall|x: K| m1.contains_key(x) == m2.contains_key(x) by {
        if keys2.contains(x) {
            let a = choose|a: int| 0 <= a < keys2.len() && keys2[a] == x;
            let b = if a < i { a } else { a + 1 };
            assert(keys[b] == x);
            assert(keys.contains(x));
        }
        if keys.contains(x) && x != keys[i] {
            let b = choose|b: int| 0 <= b < keys.len() && keys[b] == x;
            let a = if b < i { b } else { b - 1 };
            assert(keys2[a] == x);
        }
    }
    assert forall|x: K| m1.contains_key(x) implies m1[x] == m2[x] by {
        assert(keys2.contains(x));
        let a = keys2.index_of(x);
        assert(0 <= a < keys2.len() && keys2[a] == x);
        let b = if a < i { a } else { a + 1 };
        assert(keys[b] == x);
        lemma_keyed_at(keys, vals, b);
    }
    assert(m1 =~= m2);
}

/// With distinct keys the map has as many entries as there are positions.
pub proof fn lemma_keyed_len<K, V>(keys: Seq<K>, vals: Seq<V>)
    requires
        keys.no_duplicates(),
    ensures
        keyed(keys, vals).dom().finite(),
        keyed(keys, vals).dom().len() == keys.len(),
{
    assert(keyed(keys, vals).dom() =~= keys.to_set());
    keys.unique_seq_to_set();
    vstd::seq_lib::seq_to_set_is_finite(keys);
}

} // verus!
