//! Ordered association lists keyed by character sequences, with
//! last-write-wins semantics: the spec-level reading of every string-keyed
//! container in this crate.

use vstd::prelude::*;

verus! {

/// The value bound to `key`, taking the latest entry when a key repeats
/// (an insertion overwrites earlier ones).
pub open spec fn assoc_get<V>(entries: Seq<(Seq<char>, V)>, key: Seq<char>) -> Option<V>
    decreases entries.len(),
{
    if entries.len() == 0 {
        None
    } else if entries.last().0 == key {
        Some(entries.last().1)
    } else {
        assoc_get(entries.drop_last(), key)
    }
}

/// The finite map described by the entry list.
pub open spec fn assoc_map<V>(entries: Seq<(Seq<char>, V)>) -> Map<Seq<char>, V>
    decreases entries.len(),
{
    if entries.len() == 0 {
        Map::empty()
    } else {
        assoc_map(entries.drop_last()).insert(entries.last().0, entries.last().1)
    }
}

/// [`assoc_get`] reads exactly the map described by [`assoc_map`].
pub proof fn lemma_assoc_map_get<V>(entries: Seq<(Seq<char>, V)>, key: Seq<char>)
    ensures
        assoc_map(entries).contains_key(key) <==> assoc_get(entries, key) is Some,
        assoc_get(entries, key) matches Some(v) ==> assoc_map(entries)[key] == v,
    decreases entries.len(),
{
    if entries.len() > 0 && entries.last().0 != key {
        lemma_assoc_map_get(entries.drop_last(), key);
    }
}

/// A key is in the map exactly when some entry carries it.
pub proof fn lemma_assoc_contains<V>(entries: Seq<(Seq<char>, V)>, key: Seq<char>)
    ensures
        assoc_map(entries).contains_key(key) <==> exists|i: int|
            0 <= i < entries.len() && entries[i].0 == key,
    decreases entries.len(),
{
    lemma_assoc_map_get(entries, key);
    lemma_assoc_get_exists(entries, key);
}

/// [`assoc_get`] finds a value exactly when some entry carries the key.
pub proof fn lemma_assoc_get_exists<V>(entries: Seq<(Seq<char>, V)>, key: Seq<char>)
    ensures
        assoc_get(entries, key) is Some <==> exists|i: int|
            0 <= i < entries.len() && entries[i].0 == key,
    decreases entries.len(),
{
    if entries.len() > 0 {
        if entries.last().0 == key {
            assert(entries[entries.len() - 1].0 == key);
        } else {
            lemma_assoc_get_exists(entries.drop_last(), key);
            if assoc_get(entries, key) is Some {
                let i = choose|i: int|
                    0 <= i < entries.drop_last().len() && entries.drop_last()[i].0 == key;
                assert(entries[i].0 == key);
            }
            if exists|i: int| 0 <= i < entries.len() && entries[i].0 == key {
                let i = choose|i: int| 0 <= i < entries.len() && entries[i].0 == key;
                assert(entries.drop_last()[i].0 == key);
            }
        }
    }
}

/// With pairwise distinct keys, the entry that carries the key decides.
pub proof fn lemma_assoc_get_unique<V>(entries: Seq<(Seq<char>, V)>, i: int, key: Seq<char>)
    requires
        forall|a: int, b: int|
            0 <= a < b < entries.len() ==> entries[a].0 != entries[b].0,
        0 <= i < entries.len(),
        entries[i].0 == key,
    ensures
        assoc_get(entries, key) == Some(entries[i].1),
    decreases entries.len(),
{
    if entries.last().0 == key {
        assert(i == entries.len() - 1);
    } else {
        assert(entries.drop_last()[i] == entries[i]);
        lemma_assoc_get_unique(entries.drop_last(), i, key);
    }
}

/// Removing the one entry that carries a key removes the key from the map,
/// provided keys are pairwise distinct.
pub proof fn lemma_assoc_map_remove<V>(entries: Seq<(Seq<char>, V)>, i: int)
    requires
        forall|a: int, b: int|
            0 <= a < b < entries.len() ==> entries[a].0 != entries[b].0,
        0 <= i < entries.len(),
    ensures
        assoc_map(entries.remove(i)) == assoc_map(entries).remove(entries[i].0),
    decreases entries.len(),
{
    let key = entries[i].0;
    if i == entries.len() - 1 {
        assert(entries.remove(i) =~= entries.drop_last());
        lemma_assoc_contains(entries.drop_last(), key);
        assert(forall|a: int|
            0 <= a < entries.drop_last().len() ==> entries.drop_last()[a] == entries[a]);
        assert(!assoc_map(entries.drop_last()).contains_key(key));
        assert(assoc_map(entries.drop_last()) =~= assoc_map(entries).remove(key));
    } else {
        assert(entries.remove(i).drop_last() =~= entries.drop_last().remove(i));
        assert(entries.remove(i).last() == entries.last());
        assert(forall|a: int, b: int|
            0 <= a < b < entries.drop_last().len() ==> entries.drop_last()[a].0
                != entries.drop_last()[b].0);
        assert(entries.drop_last()[i] == entries[i]);
        lemma_assoc_map_remove(entries.drop_last(), i);
        assert(entries.last().0 != key);
        assert(assoc_map(entries.drop_last()).remove(key).insert(
            entries.last().0,
            entries.last().1,
        ) =~= assoc_map(entries.drop_last()).insert(entries.last().0, entries.last().1).remove(
            key,
        ));
    }
}

} // verus!
