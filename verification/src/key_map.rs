//! The ordered key-value map that configuration travels in.
//!
//! The map itself is `indexmap::IndexMap`; this module states what its
//! operations do to the sequence of entries and proves from those statements
//! that keys never repeat.

use crate::value::{ConfigKeyValue, Value};
use indexmap::IndexMap;
use vstd::prelude::*;

verus! {

/// One entry of a map, as a key and the model of its value.
pub type Entry = (Seq<char>, Value);

/// Index of the first entry stored under `key`, or the number of entries when
/// there is none.
pub open spec fn key_index(entries: Seq<Entry>, key: Seq<char>) -> int
    decreases entries.len(),
{
    if entries.len() == 0 {
        0
    } else if entries[0].0 == key {
        0
    } else {
        1 + key_index(entries.drop_first(), key)
    }
}

/// Whether some entry is stored under `key`.
pub open spec fn has_key(entries: Seq<Entry>, key: Seq<char>) -> bool {
    key_index(entries, key) < entries.len()
}

/// The value stored under `key`, if any.
pub open spec fn lookup(entries: Seq<Entry>, key: Seq<char>) -> Option<Value> {
    if has_key(entries, key) {
        Some(entries[key_index(entries, key)].1)
    } else {
        None
    }
}

/// No two entries share a key.
pub open spec fn distinct_keys(entries: Seq<Entry>) -> bool {
    forall|i: int, j: int|
        0 <= i < j < entries.len() ==> (#[trigger] entries[i]).0 != (#[trigger] entries[j]).0
}

/// Storing `value` under `key`: an existing entry keeps its place and takes
/// the new value, a new entry goes last.
pub open spec fn with_entry(entries: Seq<Entry>, key: Seq<char>, value: Value) -> Seq<Entry> {
    if has_key(entries, key) {
        entries.update(key_index(entries, key), (key, value))
    } else {
        entries.push((key, value))
    }
}

/// Removing the entry under `key` by closing the gap: the entries behind it
/// move up by one and keep their relative order.
pub open spec fn without_shifting(entries: Seq<Entry>, key: Seq<char>) -> Seq<Entry> {
    if has_key(entries, key) {
        entries.remove(key_index(entries, key))
    } else {
        entries
    }
}

/// Removing the entry under `key` by moving the last entry into its place.
pub open spec fn without_swapping(entries: Seq<Entry>, key: Seq<char>) -> Seq<Entry> {
    if !has_key(entries, key) {
        entries
    } else if key_index(entries, key) == entries.len() - 1 {
        entries.drop_last()
    } else {
        entries.update(key_index(entries, key), entries.last()).drop_last()
    }
}

/// Storing every entry of `more`, first to last, as `with_entry` does.
pub open spec fn extended(entries: Seq<Entry>, more: Seq<Entry>) -> Seq<Entry>
    decreases more.len(),
{
    if more.len() == 0 {
        entries
    } else {
        extended(with_entry(entries, more[0].0, more[0].1), more.drop_first())
    }
}

/// Model of an optional value.
pub open spec fn value_view(value: Option<ConfigKeyValue>) -> Option<Value> {
    match value {
        Some(v) => Some(v@),
        None => None,
    }
}

/// Model of an optional borrowed value.
pub open spec fn value_ref_view(value: Option<&ConfigKeyValue>) -> Option<Value> {
    match value {
        Some(v) => Some(v@),
        None => None,
    }
}

/// `key_index` finds the least index that holds `key`.
pub proof fn lemma_key_index(entries: Seq<Entry>, key: Seq<char>)
    ensures
        0 <= key_index(entries, key) <= entries.len(),
        has_key(entries, key) ==> entries[key_index(entries, key)].0 == key,
        forall|i: int| 0 <= i < key_index(entries, key) ==> (#[trigger] entries[i]).0 != key,
    decreases entries.len(),
{
    if entries.len() > 0 && entries[0].0 != key {
        let rest = entries.drop_first();
        lemma_key_index(rest, key);
        assert forall|i: int| 0 <= i < key_index(entries, key) implies (#[trigger] entries[i]).0
            != key by {
            if i > 0 {
                assert(entries[i] == rest[i - 1]);
            }
        }
    }
}

/// An index that holds `key` shows that the key is present; with distinct
/// keys it is the index that `key_index` finds.
pub proof fn lemma_key_found(entries: Seq<Entry>, key: Seq<char>, at: int)
    requires
        0 <= at < entries.len(),
        entries[at].0 == key,
    ensures
        has_key(entries, key),
        key_index(entries, key) <= at,
        distinct_keys(entries) ==> key_index(entries, key) == at,
{
    lemma_key_index(entries, key);
}

/// A key is absent exactly when no entry holds it.
pub proof fn lemma_key_absent(entries: Seq<Entry>, key: Seq<char>)
    ensures
        !has_key(entries, key) <==> (forall|i: int|
            0 <= i < entries.len() ==> (#[trigger] entries[i]).0 != key),
{
    lemma_key_index(entries, key);
}

/// A sequence of at most one entry holds that entry's value under its key,
/// and nothing under any other key.
pub proof fn lemma_lookup_in_at_most_one(entries: Seq<Entry>, key: Seq<char>)
    requires
        entries.len() <= 1,
    ensures
        lookup(entries, key) == if entries.len() == 1 && entries[0].0 == key {
            Some(entries[0].1)
        } else {
            None
        },
{
    lemma_key_index(entries, key);
    if entries.len() == 1 && entries[0].0 == key {
        lemma_key_found(entries, key, 0);
    }
}

/// Looking a key up in two sequences put together finds it in the first, and
/// in the second where the first does not hold it.
pub proof fn lemma_lookup_in_concatenation(front: Seq<Entry>, back: Seq<Entry>, key: Seq<char>)
    ensures
        lookup(front + back, key) == if has_key(front, key) {
            lookup(front, key)
        } else {
            lookup(back, key)
        },
{
    let both = front + back;
    lemma_key_index(front, key);
    lemma_key_index(back, key);
    lemma_key_index(both, key);
    if has_key(front, key) {
        let at = key_index(front, key);
        assert(both[at] == front[at]);
        lemma_key_found(both, key, at);
        let found = key_index(both, key);
        if found < at {
            assert(both[found] == front[found]);
        }
    } else if has_key(back, key) {
        let at = key_index(back, key);
        assert(both[front.len() + at] == back[at]);
        lemma_key_found(both, key, front.len() + at);
        let found = key_index(both, key);
        if found < front.len() {
            assert(both[found] == front[found]);
        } else if found < front.len() + at {
            assert(both[found] == back[found - front.len()]);
        }
    } else {
        if has_key(both, key) {
            let found = key_index(both, key);
            if found < front.len() {
                assert(both[found] == front[found]);
            } else {
                assert(both[found] == back[found - front.len()]);
            }
            lemma_key_absent(front, key);
            lemma_key_absent(back, key);
        }
    }
}

/// `with_entry` keeps keys distinct, stores the value, and leaves every other
/// key as it was.
pub proof fn lemma_with_entry(entries: Seq<Entry>, key: Seq<char>, value: Value)
    requires
        distinct_keys(entries),
    ensures
        distinct_keys(with_entry(entries, key, value)),
        lookup(with_entry(entries, key, value), key) == Some(value),
        forall|other: Seq<char>|
            other != key ==> #[trigger] lookup(with_entry(entries, key, value), other) == lookup(
                entries,
                other,
            ),
{
    let after = with_entry(entries, key, value);
    let at = key_index(entries, key);
    lemma_key_index(entries, key);
    assert(after[at] == (key, value));
    lemma_key_found(after, key, at);
    assert forall|other: Seq<char>| other != key implies #[trigger] lookup(after, other) == lookup(
        entries,
        other,
    ) by {
        lemma_key_index(entries, other);
        lemma_key_index(after, other);
        if has_key(entries, other) {
            let o = key_index(entries, other);
            assert(after[o] == entries[o]);
            lemma_key_found(after, other, o);
        }
        if has_key(after, other) {
            let o = key_index(after, other);
            assert(after[o] == entries[o]);
            lemma_key_found(entries, other, o);
        }
    }
}

/// `without_shifting` keeps keys distinct, drops the key, and leaves every
/// other key as it was.
pub proof fn lemma_without_shifting(entries: Seq<Entry>, key: Seq<char>)
    requires
        distinct_keys(entries),
    ensures
        distinct_keys(without_shifting(entries, key)),
        !has_key(without_shifting(entries, key), key),
        forall|other: Seq<char>|
            other != key ==> #[trigger] lookup(without_shifting(entries, key), other) == lookup(
                entries,
                other,
            ),
{
    let after = without_shifting(entries, key);
    let at = key_index(entries, key);
    lemma_key_index(entries, key);
    assert forall|i: int| 0 <= i < after.len() implies #[trigger] after[i] == entries[if i < at {
        i
    } else {
        i + 1
    }] by {}
    lemma_key_absent(after, key);
    assert forall|other: Seq<char>| other != key implies #[trigger] lookup(after, other) == lookup(
        entries,
        other,
    ) by {
        lemma_key_index(entries, other);
        lemma_key_index(after, other);
        if has_key(entries, other) {
            let o = key_index(entries, other);
            let moved = if o < at {
                o
            } else {
                o - 1
            };
            assert(after[moved] == entries[o]);
            lemma_key_found(after, other, moved);
        }
        if has_key(after, other) {
            let o = key_index(after, other);
            let origin = if o < at {
                o
            } else {
                o + 1
            };
            assert(after[o] == entries[origin]);
            lemma_key_found(entries, other, origin);
        }
    }
}

/// `without_swapping` keeps keys distinct, drops the key, and leaves every
/// other key as it was.
pub proof fn lemma_without_swapping(entries: Seq<Entry>, key: Seq<char>)
    requires
        distinct_keys(entries),
    ensures
        distinct_keys(without_swapping(entries, key)),
        !has_key(without_swapping(entries, key), key),
        forall|other: Seq<char>|
            other != key ==> #[trigger] lookup(without_swapping(entries, key), other) == lookup(
                entries,
                other,
            ),
{
    let after = without_swapping(entries, key);
    let at = key_index(entries, key);
    let last = entries.len() - 1;
    lemma_key_index(entries, key);
    assert forall|i: int| 0 <= i < after.len() implies #[trigger] after[i] == entries[if
        has_key(entries, key) && i == at {
        last
    } else {
        i
    }] by {}
    lemma_key_absent(after, key);
    assert forall|other: Seq<char>| other != key implies #[trigger] lookup(after, other) == lookup(
        entries,
        other,
    ) by {
        lemma_key_index(entries, other);
        lemma_key_index(after, other);
        if has_key(entries, other) {
            let o = key_index(entries, other);
            let moved = if has_key(entries, key) && o == last {
                at
            } else {
                o
            };
            assert(after[moved] == entries[o]);
            lemma_key_found(after, other, moved);
        }
        if has_key(after, other) {
            let o = key_index(after, other);
            let origin = if has_key(entries, key) && o == at {
                last
            } else {
                o
            };
            assert(after[o] == entries[origin]);
            lemma_key_found(entries, other, origin);
        }
    }
}

/// Storing entries whose keys are distinct and all new appends them in order.
pub proof fn lemma_extended_appends(entries: Seq<Entry>, more: Seq<Entry>)
    requires
        distinct_keys(more),
        forall|i: int| 0 <= i < more.len() ==> !has_key(entries, (#[trigger] more[i]).0),
    ensures
        extended(entries, more) == entries + more,
    decreases more.len(),
{
    if more.len() == 0 {
        assert(entries + more =~= entries);
    } else {
        let first = more[0];
        let rest = more.drop_first();
        let grown = with_entry(entries, first.0, first.1);
        assert(grown == entries.push(first));
        assert forall|i: int| 0 <= i < rest.len() implies !has_key(grown, (#[trigger] rest[i]).0) by {
            assert(rest[i] == more[i + 1]);
            lemma_key_absent(entries, rest[i].0);
            lemma_key_absent(grown, rest[i].0);
        }
        assert forall|i: int, j: int| 0 <= i < j < rest.len() implies (#[trigger] rest[i]).0 != (
        #[trigger] rest[j]).0 by {
            assert(rest[i] == more[i + 1]);
            assert(rest[j] == more[j + 1]);
        }
        lemma_extended_appends(grown, rest);
        assert(grown + rest =~= entries + more);
    }
}

/// `extended` keeps keys distinct.
pub proof fn lemma_extended_distinct(entries: Seq<Entry>, more: Seq<Entry>)
    requires
        distinct_keys(entries),
    ensures
        distinct_keys(extended(entries, more)),
    decreases more.len(),
{
    if more.len() > 0 {
        lemma_with_entry(entries, more[0].0, more[0].1);
        lemma_extended_distinct(with_entry(entries, more[0].0, more[0].1), more.drop_first());
    }
}

/// `indexmap::IndexMap`; nothing inside it is known but through the
/// functions below.
#[verifier::external_type_specification]
#[verifier::external_body]
#[verifier::reject_recursive_types(K)]
#[verifier::reject_recursive_types(V)]
#[verifier::reject_recursive_types(S)]
pub struct ExIndexMap<K, V, S>(IndexMap<K, V, S>);

/// The entries that an `IndexMap` holds, in its iteration order, each value
/// by its model.
pub uninterp spec fn map_entries(map: IndexMap<String, ConfigKeyValue>) -> Seq<Entry>;

/// `IndexMap::new`: a map without entries.
#[verifier::external_body]
fn index_map_new() -> (map: IndexMap<String, ConfigKeyValue>)
    ensures
        map_entries(map) == Seq::<Entry>::empty(),
{
    IndexMap::new()
}

/// `IndexMap::len`: the number of entries.
#[verifier::external_body]
fn index_map_len(map: &IndexMap<String, ConfigKeyValue>) -> (len: usize)
    ensures
        len == map_entries(*map).len(),
{
    map.len()
}

/// `IndexMap::get_index`: the entry at a position of the iteration order, and
/// nothing from the length on.
#[verifier::external_body]
fn index_map_get_index(map: &IndexMap<String, ConfigKeyValue>, index: usize) -> (entry: Option<
    (&String, &ConfigKeyValue),
>)
    ensures
        match entry {
            Some((key, value)) => index < map_entries(*map).len() && (key@, value@) == map_entries(
                *map,
            )[index as int],
            None => index >= map_entries(*map).len(),
        },
{
    map.get_index(index)
}

/// `IndexMap::get`: the value stored under the key, if the key is present.
#[verifier::external_body]
fn index_map_get<'a>(map: &'a IndexMap<String, ConfigKeyValue>, key: &str) -> (value: Option<
    &'a ConfigKeyValue,
>)
    ensures
        value_ref_view(value) == lookup(map_entries(*map), key@),
{
    map.get(key)
}

/// `IndexMap::insert`: an equal key keeps its place and takes the new value,
/// a new key goes last; the value that was stored before is returned.
#[verifier::external_body]
fn index_map_insert(
    map: &mut IndexMap<String, ConfigKeyValue>,
    key: String,
    value: ConfigKeyValue,
) -> (previous: Option<ConfigKeyValue>)
    ensures
        map_entries(*final(map)) == with_entry(map_entries(*old(map)), key@, value@),
        value_view(previous) == lookup(map_entries(*old(map)), key@),
{
    map.insert(key, value)
}

/// `IndexMap::shift_remove`: the entry under the key leaves, the entries
/// behind it move up in order; the removed value is returned.
#[verifier::external_body]
fn index_map_shift_remove(map: &mut IndexMap<String, ConfigKeyValue>, key: &str) -> (removed:
    Option<ConfigKeyValue>)
    ensures
        map_entries(*final(map)) == without_shifting(map_entries(*old(map)), key@),
        value_view(removed) == lookup(map_entries(*old(map)), key@),
{
    map.shift_remove(key)
}

/// `IndexMap::swap_remove`: the entry under the key leaves and the last entry
/// takes its place; the removed value is returned.
#[verifier::external_body]
fn index_map_swap_remove(map: &mut IndexMap<String, ConfigKeyValue>, key: &str) -> (removed:
    Option<ConfigKeyValue>)
    ensures
        map_entries(*final(map)) == without_swapping(map_entries(*old(map)), key@),
        value_view(removed) == lookup(map_entries(*old(map)), key@),
{
    map.swap_remove(key)
}

/// `Extend::extend` of an `IndexMap` with the entries of another: the same as
/// inserting each of them in iteration order.
#[verifier::external_body]
fn index_map_extend(
    map: &mut IndexMap<String, ConfigKeyValue>,
    more: IndexMap<String, ConfigKeyValue>,
)
    ensures
        map_entries(*final(map)) == extended(map_entries(*old(map)), map_entries(more)),
{
    map.extend(more)
}

/// An insertion-ordered map from keys to configuration values.
///
/// Its model is the sequence of its entries in iteration order; no key occurs
/// twice in it.
#[derive(Debug)]
pub struct ConfigKeyMap {
    inner: IndexMap<String, ConfigKeyValue>,
}

impl View for ConfigKeyMap {
    type V = Seq<Entry>;

    closed spec fn view(&self) -> Seq<Entry> {
        map_entries(self.inner)
    }
}

impl ConfigKeyMap {
    #[verifier::type_invariant]
    spec fn keys_never_repeat(&self) -> bool {
        distinct_keys(map_entries(self.inner))
    }

    /// An empty map.
    pub fn new() -> (map: ConfigKeyMap)
        ensures
            map@ == Seq::<Entry>::empty(),
    {
        ConfigKeyMap { inner: index_map_new() }
    }

    /// The number of entries.
    pub fn len(&self) -> (len: usize)
        ensures
            len == self@.len(),
            distinct_keys(self@),
    {
        proof {
            use_type_invariant(self);
        }
        index_map_len(&self.inner)
    }

    /// The entry at `index` of the iteration order.
    pub fn get_index(&self, index: usize) -> (entry: Option<(&String, &ConfigKeyValue)>)
        ensures
            match entry {
                Some((key, value)) => index < self@.len() && (key@, value@) == self@[index as int],
                None => index >= self@.len(),
            },
    {
        index_map_get_index(&self.inner, index)
    }

    /// The value stored under `key`.
    pub fn get(&self, key: &str) -> (value: Option<&ConfigKeyValue>)
        ensures
            value_ref_view(value) == lookup(self@, key@),
            distinct_keys(self@),
    {
        proof {
            use_type_invariant(self);
        }
        index_map_get(&self.inner, key)
    }

    /// Stores `value` under `key` and returns the value it replaces.
    pub fn insert(&mut self, key: String, value: ConfigKeyValue) -> (previous: Option<
        ConfigKeyValue,
    >)
        ensures
            final(self)@ == with_entry(old(self)@, key@, value@),
            value_view(previous) == lookup(old(self)@, key@),
            distinct_keys(final(self)@),
    {
        proof {
            use_type_invariant(&*self);
            lemma_with_entry(self@, key@, value@);
        }
        let mut inner = index_map_new();
        std::mem::swap(&mut inner, &mut self.inner);
        let previous = index_map_insert(&mut inner, key, value);
        self.inner = inner;
        previous
    }

    /// Removes the entry under `key`, keeping the order of the others.
    pub fn shift_remove(&mut self, key: &str) -> (removed: Option<ConfigKeyValue>)
        ensures
            final(self)@ == without_shifting(old(self)@, key@),
            value_view(removed) == lookup(old(self)@, key@),
            distinct_keys(old(self)@),
            distinct_keys(final(self)@),
    {
        proof {
            use_type_invariant(&*self);
            lemma_without_shifting(self@, key@);
        }
        let mut inner = index_map_new();
        std::mem::swap(&mut inner, &mut self.inner);
        let removed = index_map_shift_remove(&mut inner, key);
        self.inner = inner;
        removed
    }

    /// Removes the entry under `key`; the last entry takes its place.
    pub fn swap_remove(&mut self, key: &str) -> (removed: Option<ConfigKeyValue>)
        ensures
            final(self)@ == without_swapping(old(self)@, key@),
            value_view(removed) == lookup(old(self)@, key@),
            distinct_keys(old(self)@),
            distinct_keys(final(self)@),
    {
        proof {
            use_type_invariant(&*self);
            lemma_without_swapping(self@, key@);
        }
        let mut inner = index_map_new();
        std::mem::swap(&mut inner, &mut self.inner);
        let removed = index_map_swap_remove(&mut inner, key);
        self.inner = inner;
        removed
    }

    /// Stores every entry of `more`, in its order.
    pub fn extend(&mut self, more: ConfigKeyMap)
        ensures
            final(self)@ == extended(old(self)@, more@),
            distinct_keys(final(self)@),
    {
        proof {
            use_type_invariant(&*self);
            lemma_extended_distinct(self@, more@);
        }
        let mut inner = index_map_new();
        std::mem::swap(&mut inner, &mut self.inner);
        index_map_extend(&mut inner, more.inner);
        self.inner = inner;
    }
}

impl Clone for ConfigKeyMap {
    fn clone(&self) -> (copy: Self)
        ensures
            copy@ == self@,
    {
        let mut copy = ConfigKeyMap::new();
        let count = self.len();
        let mut i: usize = 0;
        while i < count
            invariant
                i <= count,
                count == self@.len(),
                distinct_keys(self@),
                copy@ == self@.take(i as int),
            decreases count - i,
        {
            if let Some((key, value)) = self.get_index(i) {
                proof {
                    lemma_key_absent(copy@, key@);
                    assert(self@.take(i + 1) =~= self@.take(i as int).push(self@[i as int]));
                }
                copy.insert(key.clone(), value.clone());
            }
            i += 1;
        }
        assert(self@.take(count as int) =~= self@);
        copy
    }
}

} // verus!
