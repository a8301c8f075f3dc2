//! Ordered association lists keyed by text.
//!
//! Tables and objects are held as sequences of `(key, value)` pairs. A key is
//! looked up by its first occurrence, an update replaces that occurrence in
//! place or appends, and a removal drops every occurrence, so the order of the
//! remaining entries never changes.

use vstd::prelude::*;

verus! {

/// Index of the first occurrence of `key` among `keys`, if any.
pub open spec fn position(keys: Seq<Seq<char>>, key: Seq<char>) -> Option<int>
    decreases keys.len(),
{
    if keys.len() == 0 {
        None
    } else {
        match position(keys.drop_last(), key) {
            Some(i) => Some(i),
            None => if keys.last() == key {
                Some(keys.len() - 1)
            } else {
                None
            },
        }
    }
}

/// The keys of an association list, in order.
pub open spec fn keys_of<T>(entries: Seq<(Seq<char>, T)>) -> Seq<Seq<char>> {
    Seq::new(entries.len(), |i: int| entries[i].0)
}

/// The value stored under the first occurrence of `key`.
pub open spec fn lookup<T>(entries: Seq<(Seq<char>, T)>, key: Seq<char>) -> Option<T> {
    match position(keys_of(entries), key) {
        Some(i) => Some(entries[i].1),
        None => None,
    }
}

/// The list after storing `value` under `key`: the first occurrence is
/// replaced where it stands, and a new key goes to the end.
pub open spec fn put<T>(entries: Seq<(Seq<char>, T)>, key: Seq<char>, value: T) -> Seq<
    (Seq<char>, T),
> {
    match position(keys_of(entries), key) {
        Some(i) => entries.update(i, (key, value)),
        None => entries.push((key, value)),
    }
}

/// The list without any entry stored under `key`.
pub open spec fn without<T>(entries: Seq<(Seq<char>, T)>, key: Seq<char>) -> Seq<(Seq<char>, T)>
    decreases entries.len(),
{
    if entries.len() == 0 {
        entries
    } else if entries.last().0 == key {
        without(entries.drop_last(), key)
    } else {
        without(entries.drop_last(), key).push(entries.last())
    }
}

/// `position` returns the least index holding the key, and `None` exactly
/// when no index holds it.
pub proof fn lemma_position(keys: Seq<Seq<char>>, key: Seq<char>)
    ensures
        match position(keys, key) {
            Some(i) => 0 <= i < keys.len() && keys[i] == key && forall|j: int|
                0 <= j < i ==> keys[j] != key,
            None => forall|j: int| 0 <= j < keys.len() ==> keys[j] != key,
        },
    decreases keys.len(),
{
    if keys.len() > 0 {
        let front = keys.drop_last();
        lemma_position(front, key);
        assert(forall|j: int| 0 <= j < front.len() ==> front[j] == keys[j]);
    }
}

/// Any index that holds the key and has no earlier occurrence is the position.
pub proof fn lemma_position_is(keys: Seq<Seq<char>>, key: Seq<char>, i: int)
    requires
        0 <= i < keys.len(),
        keys[i] == key,
        forall|j: int| 0 <= j < i ==> keys[j] != key,
    ensures
        position(keys, key) == Some(i),
{
    lemma_position(keys, key);
}

/// A key that occurs nowhere has no position.
pub proof fn lemma_position_none(keys: Seq<Seq<char>>, key: Seq<char>)
    requires
        forall|j: int| 0 <= j < keys.len() ==> keys[j] != key,
    ensures
        position(keys, key) is None,
{
    lemma_position(keys, key);
}

/// Reading back what was just stored gives the stored value.
pub proof fn lemma_lookup_put_same<T>(entries: Seq<(Seq<char>, T)>, key: Seq<char>, value: T)
    ensures
        lookup(put(entries, key, value), key) == Some(value),
{
    let keys = keys_of(entries);
    let after = put(entries, key, value);
    lemma_position(keys, key);
    match position(keys, key) {
        Some(i) => {
            assert(keys_of(after) =~= keys);
        },
        None => {
            assert(keys_of(after) =~= keys.push(key));
            lemma_position_is(keys_of(after), key, keys.len() as int);
        },
    }
}

/// Storing under one key leaves every other key's value as it was.
pub proof fn lemma_lookup_put_other<T>(
    entries: Seq<(Seq<char>, T)>,
    key: Seq<char>,
    value: T,
    other: Seq<char>,
)
    requires
        other != key,
    ensures
        lookup(put(entries, key, value), other) == lookup(entries, other),
{
    let keys = keys_of(entries);
    let after = put(entries, key, value);
    lemma_position(keys, key);
    lemma_position(keys, other);
    match position(keys, key) {
        Some(i) => {
            assert(keys_of(after) =~= keys);
        },
        None => {
            assert(keys_of(after) =~= keys.push(key));
            assert(keys_of(after).drop_last() =~= keys);
        },
    }
}

/// Storing again what a key already holds changes nothing.
pub proof fn lemma_put_same_value<T>(entries: Seq<(Seq<char>, T)>, key: Seq<char>, value: T)
    requires
        lookup(entries, key) == Some(value),
    ensures
        put(entries, key, value) == entries,
{
    lemma_position(keys_of(entries), key);
    assert(put(entries, key, value) =~= entries);
}

/// What `without` keeps: it is no longer than the list and holds no entry
/// under the removed key.
pub proof fn lemma_without_keys<T>(entries: Seq<(Seq<char>, T)>, key: Seq<char>)
    ensures
        without(entries, key).len() <= entries.len(),
        forall|j: int| 0 <= j < without(entries, key).len() ==> without(entries, key)[j].0 != key,
    decreases entries.len(),
{
    if entries.len() > 0 {
        lemma_without_keys(entries.drop_last(), key);
    }
}

/// After a removal the key is gone.
pub proof fn lemma_lookup_without_same<T>(entries: Seq<(Seq<char>, T)>, key: Seq<char>)
    ensures
        lookup(without(entries, key), key) is None,
{
    lemma_without_keys(entries, key);
    lemma_position_none(keys_of(without(entries, key)), key);
}

/// Looking a key up in a list with one more entry at the end: the earlier
/// entries decide first.
pub proof fn lemma_lookup_push<T>(entries: Seq<(Seq<char>, T)>, last: (Seq<char>, T), key: Seq<char>)
    ensures
        lookup(entries.push(last), key) == match lookup(entries, key) {
            Some(v) => Some(v),
            None => if last.0 == key {
                Some(last.1)
            } else {
                None
            },
        },
{
    let longer = entries.push(last);
    assert(keys_of(longer).drop_last() =~= keys_of(entries));
    lemma_position(keys_of(entries), key);
}

/// A removal leaves every other key's value as it was.
pub proof fn lemma_lookup_without_other<T>(
    entries: Seq<(Seq<char>, T)>,
    key: Seq<char>,
    other: Seq<char>,
)
    requires
        other != key,
    ensures
        lookup(without(entries, key), other) == lookup(entries, other),
    decreases entries.len(),
{
    if entries.len() > 0 {
        let front = entries.drop_last();
        let last = entries.last();
        lemma_lookup_without_other(front, key, other);
        assert(front.push(last) =~= entries);
        lemma_lookup_push(front, last, other);
        if last.0 != key {
            lemma_lookup_push(without(front, key), last, other);
        }
    }
}

/// Removing a key that does not occur changes nothing.
pub proof fn lemma_without_absent<T>(entries: Seq<(Seq<char>, T)>, key: Seq<char>)
    requires
        lookup(entries, key) is None,
    ensures
        without(entries, key) == entries,
    decreases entries.len(),
{
    lemma_position(keys_of(entries), key);
    if entries.len() > 0 {
        let front = entries.drop_last();
        assert(keys_of(entries).drop_last() =~= keys_of(front));
        lemma_without_absent(front, key);
        assert(front.push(entries.last()) =~= entries);
    }
}

/// Whether no key occurs twice: the list is a mapping.
pub open spec fn distinct(keys: Seq<Seq<char>>) -> bool {
    forall|i: int, j: int| 0 <= i < j < keys.len() ==> keys[i] != keys[j]
}

/// Storing a value keeps a mapping a mapping.
pub proof fn lemma_put_distinct<T>(entries: Seq<(Seq<char>, T)>, key: Seq<char>, value: T)
    requires
        distinct(keys_of(entries)),
    ensures
        distinct(keys_of(put(entries, key, value))),
{
    let keys = keys_of(entries);
    lemma_position(keys, key);
    match position(keys, key) {
        Some(i) => {
            assert(keys_of(put(entries, key, value)) =~= keys);
        },
        None => {
            assert(keys_of(put(entries, key, value)) =~= keys.push(key));
        },
    }
}

/// A removal keeps a mapping a mapping.
pub proof fn lemma_without_distinct<T>(entries: Seq<(Seq<char>, T)>, key: Seq<char>)
    requires
        distinct(keys_of(entries)),
    ensures
        distinct(keys_of(without(entries, key))),
    decreases entries.len(),
{
    if entries.len() > 0 {
        let front = entries.drop_last();
        let last = entries.last();
        assert(keys_of(front) =~= keys_of(entries).drop_last());
        lemma_without_distinct(front, key);
        if last.0 != key {
            let kept = without(front, key);
            let keys = keys_of(entries);
            assert forall|j: int| 0 <= j < front.len() implies keys_of(front)[j] != last.0 by {
                assert(keys[j] != keys[entries.len() - 1]);
            }
            lemma_position_none(keys_of(front), last.0);
            lemma_lookup_without_other(front, key, last.0);
            lemma_position(keys_of(kept), last.0);
            assert(keys_of(kept.push(last)) =~= keys_of(kept).push(last.0));
        }
    }
}

/// A removal invents nothing: every entry that it leaves stood in the list.
pub proof fn lemma_without_members<T>(entries: Seq<(Seq<char>, T)>, key: Seq<char>, j: int)
    requires
        0 <= j < without(entries, key).len(),
    ensures
        exists|i: int| 0 <= i < entries.len() && entries[i] == without(entries, key)[j],
    decreases entries.len(),
{
    if entries.len() > 0 {
        let front = entries.drop_last();
        let last = entries.last();
        if j < without(front, key).len() {
            lemma_without_members(front, key, j);
            let i = choose|i: int| 0 <= i < front.len() && front[i] == without(front, key)[j];
            assert(entries[i] == without(entries, key)[j]);
        } else {
            assert(entries[entries.len() - 1] == without(entries, key)[j]);
        }
    }
}

/// Dropping one entry stored under the removed key does not change what
/// the removal leaves.
pub proof fn lemma_without_remove<T>(entries: Seq<(Seq<char>, T)>, i: int, key: Seq<char>)
    requires
        0 <= i < entries.len(),
        entries[i].0 == key,
    ensures
        without(entries.remove(i), key) == without(entries, key),
    decreases entries.len(),
{
    let front = entries.drop_last();
    if i == entries.len() - 1 {
        assert(entries.remove(i) =~= front);
    } else {
        lemma_without_remove(front, i, key);
        assert(entries.remove(i).drop_last() =~= front.remove(i));
        assert(entries.remove(i).last() == entries.last());
    }
}

/// A removal changes nothing in a list where the key does not occur.
pub proof fn lemma_without_no_match<T>(entries: Seq<(Seq<char>, T)>, key: Seq<char>)
    requires
        forall|j: int| 0 <= j < entries.len() ==> entries[j].0 != key,
    ensures
        without(entries, key) == entries,
    decreases entries.len(),
{
    if entries.len() > 0 {
        let front = entries.drop_last();
        lemma_without_no_match(front, key);
        assert(front.push(entries.last()) =~= entries);
    }
}

/// The model of a stored list: each key by its text, each value by its view.
pub open spec fn model<V: View>(entries: Seq<(String, V)>) -> Seq<(Seq<char>, V::V)> {
    Seq::new(entries.len(), |i: int| (entries[i].0@, entries[i].1@))
}

/// Index of the first entry of `entries` whose key is `key`.
pub fn find<V: View>(entries: &Vec<(String, V)>, key: &String) -> (r: Option<usize>)
    ensures
        match r {
            Some(i) => position(keys_of(model(entries@)), key@) == Some(i as int) && i
                < entries.len(),
            None => position(keys_of(model(entries@)), key@) is None,
        },
{
    let mut i: usize = 0;
    while i < entries.len()
        invariant
            i <= entries.len(),
            forall|j: int| 0 <= j < i ==> entries@[j].0@ != key@,
        decreases entries.len() - i,
    {
        if entries[i].0 == *key {
            proof {
                lemma_position_is(keys_of(model(entries@)), key@, i as int);
            }
            return Some(i);
        }
        i += 1;
    }
    proof {
        lemma_position_none(keys_of(model(entries@)), key@);
    }
    None
}

/// Stores `value` under `key`: in place of the first entry with that key, or
/// at the end when there is none.
pub fn store<V: View>(entries: &mut Vec<(String, V)>, key: String, value: V)
    ensures
        model(final(entries)@) == put(model(old(entries)@), key@, value@),
{
    match find(entries, &key) {
        Some(i) => {
            entries.set(i, (key, value));
            assert(model(entries@) =~= put(model(old(entries)@), key@, value@));
        },
        None => {
            entries.push((key, value));
            assert(model(entries@) =~= put(model(old(entries)@), key@, value@));
        },
    }
}

/// Drops every entry stored under `key`, keeping the others in order.
pub fn discard<V: View>(entries: &mut Vec<(String, V)>, key: &String)
    ensures
        model(final(entries)@) == without(model(old(entries)@), key@),
{
    let mut i: usize = 0;
    while i < entries.len()
        invariant
            i <= entries.len(),
            forall|j: int| 0 <= j < i ==> entries@[j].0@ != key@,
            without(model(entries@), key@) == without(model(old(entries)@), key@),
        decreases entries.len() - i,
    {
        if entries[i].0 == *key {
            proof {
                lemma_without_remove(model(entries@), i as int, key@);
                assert(model(entries@.remove(i as int)) =~= model(entries@).remove(i as int));
            }
            entries.remove(i);
        } else {
            i += 1;
        }
    }
    proof {
        lemma_without_no_match(model(entries@), key@);
    }
}

} // verus!
