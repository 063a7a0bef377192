//! Association lists in the order of insertion: the model that the argument
//! store, the named-key directory and the global value store share.
//!
//! An entry is a pair of a key and what is bound to it. A key is looked up
//! from the front, so where a key occurs twice the first entry answers.

use vstd::prelude::*;

verus! {

/// The index of the first entry under `key`, or the number of entries where
/// there is none.
pub open spec fn position<K, V>(entries: Seq<(K, V)>, key: K) -> int
    decreases entries.len(),
{
    if entries.len() == 0 {
        0
    } else if entries[0].0 == key {
        0
    } else {
        1 + position(entries.drop_first(), key)
    }
}

/// Whether some entry is under `key`.
pub open spec fn bound<K, V>(entries: Seq<(K, V)>, key: K) -> bool {
    position(entries, key) < entries.len()
}

/// What is bound to `key`: what the first entry under it holds.
pub open spec fn lookup<K, V>(entries: Seq<(K, V)>, key: K) -> Option<V> {
    if bound(entries, key) {
        Some(entries[position(entries, key)].1)
    } else {
        None
    }
}

/// The entries after `value` is bound to `key`: an entry under `key` gets the
/// new value and keeps its place, a new key goes to the end.
pub open spec fn put<K, V>(entries: Seq<(K, V)>, key: K, value: V) -> Seq<(K, V)> {
    if bound(entries, key) {
        entries.update(position(entries, key), (key, value))
    } else {
        entries.push((key, value))
    }
}

/// The entries without the first entry under `key`.
pub open spec fn unbind<K, V>(entries: Seq<(K, V)>, key: K) -> Seq<(K, V)> {
    if bound(entries, key) {
        entries.remove(position(entries, key))
    } else {
        entries
    }
}

/// Whether no key occurs twice.
pub open spec fn unique_keys<K, V>(entries: Seq<(K, V)>) -> bool {
    forall|i: int, j: int|
        0 <= i < entries.len() && 0 <= j < entries.len() && i != j ==> entries[i].0
            != entries[j].0
}

/// The finite map that the entries stand for.
pub open spec fn as_map<K, V>(entries: Seq<(K, V)>) -> Map<K, V> {
    Map::new(|key: K| bound(entries, key), |key: K| entries[position(entries, key)].1)
}

/// `position` finds the first entry under the key and nothing before it.
pub proof fn lemma_position<K, V>(entries: Seq<(K, V)>, key: K)
    ensures
        0 <= position(entries, key) <= entries.len(),
        bound(entries, key) ==> entries[position(entries, key)].0 == key,
        forall|j: int| 0 <= j < position(entries, key) ==> entries[j].0 != key,
    decreases entries.len(),
{
    if entries.len() != 0 && entries[0].0 != key {
        let rest = entries.drop_first();
        lemma_position(rest, key);
        assert forall|j: int| 0 <= j < position(entries, key) implies entries[j].0 != key by {
            if j > 0 {
                assert(entries[j] == rest[j - 1]);
            }
        }
    }
}

/// An index with the key at it and not before it is the key's position.
pub proof fn lemma_position_is<K, V>(entries: Seq<(K, V)>, key: K, index: int)
    requires
        0 <= index <= entries.len(),
        index < entries.len() ==> entries[index].0 == key,
        forall|j: int| 0 <= j < index ==> entries[j].0 != key,
    ensures
        position(entries, key) == index,
{
    lemma_position(entries, key);
}

/// After `put`, the key is bound to the new value and every other key to what
/// it was bound to before.
pub proof fn lemma_lookup_put<K, V>(entries: Seq<(K, V)>, key: K, value: V, other: K)
    ensures
        lookup(put(entries, key, value), other) == if other == key {
            Some(value)
        } else {
            lookup(entries, other)
        },
        bound(put(entries, key, value), other) == (other == key || bound(entries, other)),
{
    lemma_position(entries, key);
    lemma_position(entries, other);
    let after = put(entries, key, value);
    if other == key {
        lemma_position_is(after, key, position(entries, key));
    } else if bound(entries, other) {
        lemma_position_is(after, other, position(entries, other));
    } else {
        lemma_position_is(after, other, after.len() as int);
    }
}

/// `put` keeps the keys apart.
pub proof fn lemma_put_unique<K, V>(entries: Seq<(K, V)>, key: K, value: V)
    requires
        unique_keys(entries),
    ensures
        unique_keys(put(entries, key, value)),
{
    lemma_position(entries, key);
}

/// The index in `entries` of what is at `index` once the entry at `at` is
/// taken out.
pub open spec fn before_removal(index: int, at: int) -> int {
    if index < at {
        index
    } else {
        index + 1
    }
}

/// After `unbind`, where no key occurs twice, the key is bound to nothing and
/// every other key to what it was bound to before.
pub proof fn lemma_lookup_unbind<K, V>(entries: Seq<(K, V)>, key: K, other: K)
    requires
        unique_keys(entries),
    ensures
        lookup(unbind(entries, key), other) == if other == key {
            None
        } else {
            lookup(entries, other)
        },
        bound(unbind(entries, key), other) == (other != key && bound(entries, other)),
{
    lemma_position(entries, key);
    lemma_position(entries, other);
    let after = unbind(entries, key);
    let at = position(entries, key);
    if bound(entries, key) {
        assert forall|j: int| 0 <= j < after.len() implies after[j] == entries[before_removal(
            j,
            at,
        )] by {}
        if other == key || !bound(entries, other) {
            lemma_position_is(after, other, after.len() as int);
        } else if position(entries, other) < at {
            lemma_position_is(after, other, position(entries, other));
        } else {
            lemma_position_is(after, other, position(entries, other) - 1);
        }
    }
}

/// `unbind` keeps the keys apart.
pub proof fn lemma_unbind_unique<K, V>(entries: Seq<(K, V)>, key: K)
    requires
        unique_keys(entries),
    ensures
        unique_keys(unbind(entries, key)),
{
    lemma_position(entries, key);
    let after = unbind(entries, key);
    let at = position(entries, key);
    if bound(entries, key) {
        assert forall|j: int| 0 <= j < after.len() implies after[j] == entries[before_removal(
            j,
            at,
        )] by {}
    }
}

/// The map of the entries after `put` is the map before it with the key
/// inserted.
pub proof fn lemma_as_map_put<K, V>(entries: Seq<(K, V)>, key: K, value: V)
    ensures
        as_map(put(entries, key, value)) == as_map(entries).insert(key, value),
{
    let after = put(entries, key, value);
    assert forall|other: K|
        #![trigger as_map(after).contains_key(other)]
        #![trigger as_map(entries).insert(key, value).contains_key(other)]
        as_map(after).contains_key(other) == as_map(entries).insert(key, value).contains_key(
            other,
        ) && (as_map(after).contains_key(other) ==> as_map(after)[other] == as_map(
            entries,
        ).insert(key, value)[other]) by {
        lemma_lookup_put(entries, key, value, other);
    }
}

} // verus!
