//! Association lists: a map kept as a sequence of distinct keys beside a
//! sequence of values, and what pushing, removing and replacing an entry do to
//! the map that the two sequences stand for.

use vstd::prelude::*;

verus! {

/// The map that sends each key of `keys` to the value at the same place in
/// `vals`.
pub open spec fn assoc<K, V>(keys: Seq<K>, vals: Seq<V>) -> Map<K, V> {
    Map::new(|k: K| keys.contains(k), |k: K| vals[keys.index_of(k)])
}

/// The entry at place `i` is the value that the map gives for the key at `i`.
pub proof fn lemma_assoc_at<K, V>(keys: Seq<K>, vals: Seq<V>, i: int)
    requires
        keys.no_duplicates(),
        0 <= i < keys.len(),
    ensures
        assoc(keys, vals).contains_key(keys[i]),
        assoc(keys, vals)[keys[i]] == vals[i],
{
}

/// The keys of the map are the keys of the list, and there are as many.
pub proof fn lemma_assoc_dom<K, V>(keys: Seq<K>, vals: Seq<V>)
    requires
        keys.no_duplicates(),
    ensures
        assoc(keys, vals).dom() == keys.to_set(),
        assoc(keys, vals).dom().finite(),
        assoc(keys, vals).dom().len() == keys.len(),
{
    keys.unique_seq_to_set();
}

/// Pushing a new key with its value inserts the pair into the map.
pub proof fn lemma_assoc_push<K, V>(keys: Seq<K>, vals: Seq<V>, k: K, v: V)
    requires
        keys.no_duplicates(),
        keys.len() == vals.len(),
        !keys.contains(k),
    ensures
        keys.push(k).no_duplicates(),
        assoc(keys.push(k), vals.push(v)) == assoc(keys, vals).insert(k, v),
{
    let keys2 = keys.push(k);
    let left = assoc(keys2, vals.push(v));
    let right = assoc(keys, vals).insert(k, v);
    assert forall|x: K| left.contains_key(x) <==> right.contains_key(x) by {
        if keys.contains(x) {
            assert(keys2[keys.index_of(x)] == x);
        }
        if x == k {
            assert(keys2[keys.len() as int] == k);
        }
    }
}

/// Removing the entry at place `i` removes its key from the map.
pub proof fn lemma_assoc_remove<K, V>(keys: Seq<K>, vals: Seq<V>, i: int)
    requires
        keys.no_duplicates(),
        keys.len() == vals.len(),
        0 <= i < keys.len(),
    ensures
        keys.remove(i).no_duplicates(),
        assoc(keys.remove(i), vals.remove(i)) == assoc(keys, vals).remove(keys[i]),
{
    let keys2 = keys.remove(i);
    let left = assoc(keys2, vals.remove(i));
    let right = assoc(keys, vals).remove(keys[i]);
    assert forall|x: K| left.contains_key(x) <==> right.contains_key(x) by {
        if keys.contains(x) && x != keys[i] {
            let a0 = keys.index_of(x);
            let a = if a0 < i { a0 } else { a0 - 1 };
            assert(keys2[a] == x);
        }
    }
}

/// Replacing the value at place `i` maps the key at `i` to the new value.
pub proof fn lemma_assoc_update<K, V>(keys: Seq<K>, vals: Seq<V>, i: int, v: V)
    requires
        keys.no_duplicates(),
        keys.len() == vals.len(),
        0 <= i < keys.len(),
    ensures
        assoc(keys, vals.update(i, v)) == assoc(keys, vals).insert(keys[i], v),
{
}

/// Pushing a value that a duplicate-free sequence lacks keeps it free of
/// duplicates and adds the value to its set.
pub proof fn lemma_distinct_push<A>(s: Seq<A>, x: A)
    requires
        s.no_duplicates(),
        !s.contains(x),
    ensures
        s.push(x).no_duplicates(),
        s.push(x).to_set() == s.to_set().insert(x),
{
    let t = s.push(x);
    assert forall|y: A| t.to_set().contains(y) <==> s.to_set().insert(x).contains(y) by {
        if s.contains(y) {
            assert(t[s.index_of(y)] == y);
        }
        if y == x {
            assert(t[s.len() as int] == x);
        }
    }
}

/// Removing the value at place `i` of a duplicate-free sequence keeps it free
/// of duplicates and takes the value out of its set.
pub proof fn lemma_distinct_remove<A>(s: Seq<A>, i: int)
    requires
        s.no_duplicates(),
        0 <= i < s.len(),
    ensures
        s.remove(i).no_duplicates(),
        s.remove(i).to_set() == s.to_set().remove(s[i]),
        !s.remove(i).contains(s[i]),
{
    let t = s.remove(i);
    assert forall|y: A| t.contains(y) <==> (s.contains(y) && y != s[i]) by {
        if s.contains(y) && y != s[i] {
            let a0 = s.index_of(y);
            let a = if a0 < i { a0 } else { a0 - 1 };
            assert(t[a] == y);
        }
    }
}

/// A duplicate-free sequence has as many values as its set, which is finite.
pub proof fn lemma_distinct_len<A>(s: Seq<A>)
    requires
        s.no_duplicates(),
    ensures
        s.to_set().finite(),
        s.to_set().len() == s.len(),
{
    s.unique_seq_to_set();
}

} // verus!
