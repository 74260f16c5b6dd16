//! Keyed lists: a list of keys beside a list of values, read as a map.

use vstd::prelude::*;

verus! {

/// No key occurs twice.
pub open spec fn distinct<K>(keys: Seq<K>) -> bool {
    forall|i: int, j: int| 0 <= i < j < keys.len() ==> keys[i] != keys[j]
}

/// A place at which `key` stands in `keys`.
pub open spec fn place_of<K>(keys: Seq<K>, key: K) -> int {
    choose|i: int| 0 <= i < keys.len() && keys[i] == key
}

/// The map that sends each key to the value at the key's place.
pub open spec fn keyed<K, V>(keys: Seq<K>, values: Seq<V>) -> Map<K, V> {
    Map::new(|key: K| keys.contains(key), |key: K| values[place_of(keys, key)])
}

/// Where the keys are distinct, the key at a place is sent to the value at
/// that place.
pub proof fn lemma_keyed_at<K, V>(keys: Seq<K>, values: Seq<V>, i: int)
    requires
        distinct(keys),
        keys.len() == values.len(),
        0 <= i < keys.len(),
    ensures
        keyed(keys, values).dom().contains(keys[i]),
        keyed(keys, values)[keys[i]] == values[i],
        place_of(keys, keys[i]) == i,
{
    let found = place_of(keys, keys[i]);
    assert(0 <= found < keys.len() && keys[found] == keys[i]);
    assert(keys.contains(keys[i]));
    if found < i {
        assert(keys[found] != keys[i]);
    } else if i < found {
        assert(keys[i] != keys[found]);
    }
}

/// Putting a new key with its value into the lists at one place adds the
/// pair to the map.
pub proof fn lemma_keyed_insert<K, V>(keys: Seq<K>, values: Seq<V>, at: int, key: K, value: V)
    requires
        distinct(keys),
        keys.len() == values.len(),
        0 <= at <= keys.len(),
        !keys.contains(key),
    ensures
        distinct(keys.insert(at, key)),
        keyed(keys.insert(at, key), values.insert(at, value)) == keyed(keys, values).insert(
            key,
            value,
        ),
{
    let keys2 = keys.insert(at, key);
    let values2 = values.insert(at, value);
    assert forall|i: int, j: int| 0 <= i < j < keys2.len() implies keys2[i] != keys2[j] by {
        let a = if i < at { i } else { i - 1 };
        let b = if j < at { j } else { j - 1 };
        if i == at {
            assert(keys2[j] == keys[b]);
            assert(keys.contains(keys[b]));
        } else if j == at {
            assert(keys2[i] == keys[a]);
            assert(keys.contains(keys[a]));
        } else {
            assert(keys2[i] == keys[a]);
            assert(keys2[j] == keys[b]);
        }
    }
    assert forall|k: K| keyed(keys2, values2).dom().contains(k) <==> keyed(keys, values).insert(
        key,
        value,
    ).dom().contains(k) by {
        if keys2.contains(k) {
            let i = choose|i: int| 0 <= i < keys2.len() && keys2[i] == k;
            if i != at {
                let a = if i < at { i } else { i - 1 };
                assert(keys[a] == k);
            }
        }
        if keys.contains(k) {
            let a = choose|a: int| 0 <= a < keys.len() && keys[a] == k;
            let i = if a < at { a } else { a + 1 };
            assert(keys2[i] == k);
        }
        if k == key {
            assert(keys2[at] == k);
        }
    }
    assert forall|k: K| keyed(keys2, values2).dom().contains(k) implies keyed(keys2, values2)[k]
        == keyed(keys, values).insert(key, value)[k] by {
        let i = choose|i: int| 0 <= i < keys2.len() && keys2[i] == k;
        lemma_keyed_at(keys2, values2, i);
        if i == at {
        } else {
            let a = if i < at { i } else { i - 1 };
            assert(keys[a] == k);
            assert(values2[i] == values[a]);
            lemma_keyed_at(keys, values, a);
            assert(keys.contains(k));
        }
    }
    assert(keyed(keys2, values2) =~= keyed(keys, values).insert(key, value));
}

/// Changing the value at one place changes what the key at that place is
/// sent to, and nothing else.
pub proof fn lemma_keyed_update<K, V>(keys: Seq<K>, values: Seq<V>, at: int, value: V)
    requires
        distinct(keys),
        keys.len() == values.len(),
        0 <= at < keys.len(),
    ensures
        keyed(keys, values.update(at, value)) == keyed(keys, values).insert(keys[at], value),
{
    let values2 = values.update(at, value);
    lemma_keyed_at(keys, values, at);
    assert forall|k: K| keyed(keys, values2).dom().contains(k) implies keyed(keys, values2)[k]
        == keyed(keys, values).insert(keys[at], value)[k] by {
        let i = choose|i: int| 0 <= i < keys.len() && keys[i] == k;
        lemma_keyed_at(keys, values2, i);
        lemma_keyed_at(keys, values, i);
    }
    assert(keyed(keys, values2) =~= keyed(keys, values).insert(keys[at], value));
}

} // verus!
