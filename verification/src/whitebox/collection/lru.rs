//! The model of a cache that drops what was used least recently.
//!
//! What such a cache holds is a sequence of (key, value) pairs with distinct
//! keys, ordered from the least recently used pair to the most recently used
//! one. A look-up moves the pair of its key to the end; an insertion puts its
//! pair at the end and, where the cache is over its capacity, drops the first.

use vstd::prelude::*;

verus! {

/// The key of the entry at a place.
pub open spec fn key_at<V>(entries: Seq<(u64, V)>, i: int) -> u64 {
    entries[i].0
}

/// Whether some entry has the key.
pub open spec fn holds_key<V>(entries: Seq<(u64, V)>, key: u64) -> bool {
    exists|i: int| 0 <= i < entries.len() && #[trigger] key_at(entries, i) == key
}

/// The place of an entry with the key, where there is one.
pub open spec fn index_of<V>(entries: Seq<(u64, V)>, key: u64) -> int {
    choose|i: int| 0 <= i < entries.len() && #[trigger] key_at(entries, i) == key
}

/// Whether no key occurs twice.
pub open spec fn distinct_keys<V>(entries: Seq<(u64, V)>) -> bool {
    forall|i: int, j: int|
        0 <= i < j < entries.len() ==> #[trigger] key_at(entries, i) != #[trigger] key_at(
            entries,
            j,
        )
}

/// The value that the entries hold for the key.
pub open spec fn lookup<V>(entries: Seq<(u64, V)>, key: u64) -> Option<V> {
    if holds_key(entries, key) {
        Some(entries[index_of(entries, key)].1)
    } else {
        None
    }
}

/// The entries but the one of `key`.
pub open spec fn without<V>(entries: Seq<(u64, V)>, key: u64) -> Seq<(u64, V)> {
    if holds_key(entries, key) {
        entries.remove(index_of(entries, key))
    } else {
        entries
    }
}

/// The entries after a use of `key`: its entry, if there is one, has moved to the end.
pub open spec fn refreshed<V>(entries: Seq<(u64, V)>, key: u64) -> Seq<(u64, V)> {
    if holds_key(entries, key) {
        without(entries, key).push(entries[index_of(entries, key)])
    } else {
        entries
    }
}

/// The entries after `key` was given `value` in a cache that holds at most
/// `capacity` entries: the pair stands at the end, an earlier pair of the key is
/// gone, and so is the first pair if there was one too many.
pub open spec fn inserted<V>(entries: Seq<(u64, V)>, capacity: nat, key: u64, value: V) -> Seq<
    (u64, V),
> {
    let full = without(entries, key).push((key, value));
    if full.len() > capacity {
        full.drop_first()
    } else {
        full
    }
}

/// Whether the entries are those of a cache of `capacity`: no key twice, not too many.
pub open spec fn bounded<V>(entries: Seq<(u64, V)>, capacity: nat) -> bool {
    distinct_keys(entries) && entries.len() <= capacity
}

/// Where the keys are distinct, the key of an entry is found at that entry.
pub proof fn lemma_index_of<V>(entries: Seq<(u64, V)>, i: int)
    requires
        distinct_keys(entries),
        0 <= i < entries.len(),
    ensures
        holds_key(entries, entries[i].0),
        index_of(entries, entries[i].0) == i,
        lookup(entries, entries[i].0) == Some(entries[i].1),
{
    let key = entries[i].0;
    assert(key_at(entries, i) == key);
    let j = index_of(entries, key);
    assert(0 <= j < entries.len() && key_at(entries, j) == key);
}

/// Without the entry of a key, the key is gone and the keys stay distinct.
pub proof fn lemma_without<V>(entries: Seq<(u64, V)>, key: u64)
    requires
        distinct_keys(entries),
    ensures
        distinct_keys(without(entries, key)),
        !holds_key(without(entries, key), key),
        holds_key(entries, key) ==> without(entries, key).len() == entries.len() - 1,
        !holds_key(entries, key) ==> without(entries, key) == entries,
{
    if holds_key(entries, key) {
        let i = index_of(entries, key);
        assert(0 <= i < entries.len() && key_at(entries, i) == key);
        let rest = entries.remove(i);
        assert forall|a: int, b: int| 0 <= a < b < rest.len() implies #[trigger] key_at(rest, a)
            != #[trigger] key_at(rest, b) by {
            let sa = if a < i { a } else { a + 1 };
            let sb = if b < i { b } else { b + 1 };
            assert(key_at(entries, sa) != key_at(entries, sb));
        }
        assert forall|a: int| 0 <= a < rest.len() implies rest[a].0 != key by {
            let sa = if a < i { a } else { a + 1 };
            if sa < i {
                assert(key_at(entries, sa) != key_at(entries, i));
            } else {
                assert(key_at(entries, i) != key_at(entries, sa));
            }
        }
    }
}

/// Without the entry of a key, every other key keeps its value.
pub proof fn lemma_without_other<V>(entries: Seq<(u64, V)>, key: u64, other: u64)
    requires
        distinct_keys(entries),
        other != key,
    ensures
        lookup(without(entries, key), other) == lookup(entries, other),
{
    lemma_without(entries, key);
    if holds_key(entries, key) {
        let i = index_of(entries, key);
        assert(0 <= i < entries.len() && key_at(entries, i) == key);
        let rest = entries.remove(i);
        if holds_key(entries, other) {
            let j = index_of(entries, other);
            assert(0 <= j < entries.len() && key_at(entries, j) == other);
            let t = if j < i { j } else { j - 1 };
            assert(rest[t] == entries[j]);
            lemma_index_of(rest, t);
        } else {
            assert forall|a: int| 0 <= a < rest.len() implies rest[a].0 != other by {
                let sa = if a < i { a } else { a + 1 };
                assert(key_at(entries, sa) == rest[a].0);
            }
        }
    }
}

/// A pair of a new key at the end: the keys stay distinct, the new key has its
/// value, and every other key keeps its own.
pub proof fn lemma_pushed<V>(entries: Seq<(u64, V)>, key: u64, value: V, other: u64)
    requires
        distinct_keys(entries),
        !holds_key(entries, key),
    ensures
        distinct_keys(entries.push((key, value))),
        lookup(entries.push((key, value)), key) == Some(value),
        other != key ==> lookup(entries.push((key, value)), other) == lookup(entries, other),
{
    let full = entries.push((key, value));
    let n = entries.len() as int;
    assert forall|a: int, b: int| 0 <= a < b < full.len() implies #[trigger] key_at(full, a)
        != #[trigger] key_at(full, b) by {
        if b < n {
            assert(key_at(entries, a) != key_at(entries, b));
        } else {
            assert(key_at(entries, a) == key_at(full, a));
        }
    }
    assert(full[n] == (key, value));
    lemma_index_of(full, n);
    if other != key {
        if holds_key(entries, other) {
            let j = index_of(entries, other);
            assert(0 <= j < n && key_at(entries, j) == other);
            assert(full[j] == entries[j]);
            lemma_index_of(full, j);
        } else {
            assert forall|a: int| 0 <= a < full.len() implies full[a].0 != other by {
                if a < n {
                    assert(key_at(entries, a) == full[a].0);
                }
            }
        }
    }
}

/// Without the first pair: the keys stay distinct, the first key is gone, and
/// every other key keeps its value.
pub proof fn lemma_dropped_first<V>(entries: Seq<(u64, V)>, other: u64)
    requires
        distinct_keys(entries),
        entries.len() > 0,
    ensures
        distinct_keys(entries.drop_first()),
        other != entries[0].0 ==> lookup(entries.drop_first(), other) == lookup(entries, other),
        other == entries[0].0 ==> lookup(entries.drop_first(), other) is None,
{
    let rest = entries.drop_first();
    assert forall|a: int, b: int| 0 <= a < b < rest.len() implies #[trigger] key_at(rest, a)
        != #[trigger] key_at(rest, b) by {
        assert(key_at(entries, a + 1) != key_at(entries, b + 1));
    }
    if other != entries[0].0 {
        if holds_key(entries, other) {
            let j = index_of(entries, other);
            assert(0 <= j < entries.len() && key_at(entries, j) == other);
            assert(rest[j - 1] == entries[j]);
            lemma_index_of(rest, j - 1);
        } else {
            assert forall|a: int| 0 <= a < rest.len() implies rest[a].0 != other by {
                assert(key_at(entries, a + 1) == rest[a].0);
            }
        }
    } else {
        assert forall|a: int| 0 <= a < rest.len() implies rest[a].0 != other by {
            assert(key_at(entries, 0) != key_at(entries, a + 1));
        }
    }
}

/// A use of a key keeps the cache's bounds and every value.
pub proof fn lemma_refreshed<V>(entries: Seq<(u64, V)>, capacity: nat, key: u64, other: u64)
    requires
        bounded(entries, capacity),
    ensures
        bounded(refreshed(entries, key), capacity),
        refreshed(entries, key).len() == entries.len(),
        lookup(refreshed(entries, key), other) == lookup(entries, other),
{
    if holds_key(entries, key) {
        let i = index_of(entries, key);
        assert(0 <= i < entries.len() && key_at(entries, i) == key);
        lemma_without(entries, key);
        lemma_pushed(without(entries, key), key, entries[i].1, other);
        if other != key {
            lemma_without_other(entries, key, other);
        }
    }
}

/// Giving a key a value keeps the cache's bounds.
pub proof fn lemma_inserted_bounded<V>(entries: Seq<(u64, V)>, capacity: nat, key: u64, value: V)
    requires
        bounded(entries, capacity),
    ensures
        bounded(inserted(entries, capacity, key, value), capacity),
{
    lemma_without(entries, key);
    lemma_pushed(without(entries, key), key, value, key);
    let full = without(entries, key).push((key, value));
    if full.len() > capacity {
        lemma_dropped_first(full, key);
    }
}

/// After a key was given a value, the cache holds that value for the key.
pub proof fn lemma_inserted_hit<V>(entries: Seq<(u64, V)>, capacity: nat, key: u64, value: V)
    requires
        bounded(entries, capacity),
        capacity >= 1,
    ensures
        lookup(inserted(entries, capacity, key, value), key) == Some(value),
{
    lemma_without(entries, key);
    lemma_pushed(without(entries, key), key, value, key);
    let full = without(entries, key).push((key, value));
    if full.len() > capacity {
        assert(full.len() >= 2);
        assert(full[full.len() - 1] == (key, value));
        assert(key_at(full, 0) != key_at(full, full.len() - 1));
        lemma_dropped_first(full, key);
    }
}

/// Giving a key a value changes no other key's value, unless that key's entry
/// was the least recently used one and had to leave.
pub proof fn lemma_inserted_miss<V>(
    entries: Seq<(u64, V)>,
    capacity: nat,
    key: u64,
    value: V,
    other: u64,
)
    requires
        bounded(entries, capacity),
        other != key,
    ensures
        holds_key(entries, key) || entries.len() < capacity ==> lookup(
            inserted(entries, capacity, key, value),
            other,
        ) == lookup(entries, other),
        lookup(inserted(entries, capacity, key, value), other) == lookup(entries, other) || lookup(
            inserted(entries, capacity, key, value),
            other,
        ) is None,
{
    lemma_without(entries, key);
    lemma_without_other(entries, key, other);
    lemma_pushed(without(entries, key), key, value, other);
    let full = without(entries, key).push((key, value));
    if full.len() > capacity {
        lemma_dropped_first(full, other);
    }
}

/// The pairs of a cache with each value replaced by what `f` makes of it.
pub open spec fn mapped<A, B>(entries: Seq<(u64, A)>, f: spec_fn(A) -> B) -> Seq<(u64, B)> {
    Seq::new(entries.len(), |i: int| (entries[i].0, f(entries[i].1)))
}

/// Replacing the values changes neither which keys are held nor where.
pub proof fn lemma_mapped<A, B>(entries: Seq<(u64, A)>, f: spec_fn(A) -> B, key: u64)
    requires
        distinct_keys(entries),
    ensures
        distinct_keys(mapped(entries, f)),
        holds_key(mapped(entries, f), key) == holds_key(entries, key),
        holds_key(entries, key) ==> index_of(mapped(entries, f), key) == index_of(entries, key),
        lookup(mapped(entries, f), key) == match lookup(entries, key) {
            Some(value) => Some(f(value)),
            None => None,
        },
        mapped(without(entries, key), f) == without(mapped(entries, f), key),
{
    let image = mapped(entries, f);
    assert forall|a: int, b: int| 0 <= a < b < image.len() implies #[trigger] key_at(image, a)
        != #[trigger] key_at(image, b) by {
        assert(key_at(entries, a) != key_at(entries, b));
    }
    if holds_key(entries, key) {
        let i = index_of(entries, key);
        assert(0 <= i < entries.len() && key_at(entries, i) == key);
        assert(image[i].0 == key);
        lemma_index_of(image, i);
        assert(mapped(entries.remove(i), f) =~= image.remove(i));
    } else {
        assert forall|a: int| 0 <= a < image.len() implies image[a].0 != key by {
            assert(key_at(entries, a) == image[a].0);
        }
    }
}

/// The value of the entry at a place.
pub open spec fn value_at<V>(entries: Seq<(u64, V)>, i: int) -> V {
    entries[i].1
}

/// Whether `p` holds of every value.
pub open spec fn all_values<V>(entries: Seq<(u64, V)>, p: spec_fn(V) -> bool) -> bool {
    forall|i: int| 0 <= i < entries.len() ==> p(#[trigger] value_at(entries, i))
}

/// What holds of every value and of a new one holds of every value once the
/// new one was given to a key.
pub proof fn lemma_inserted_all<V>(
    entries: Seq<(u64, V)>,
    capacity: nat,
    key: u64,
    value: V,
    p: spec_fn(V) -> bool,
)
    requires
        all_values(entries, p),
        p(value),
    ensures
        all_values(inserted(entries, capacity, key, value), p),
        all_values(refreshed(entries, key), p),
{
    let rest = without(entries, key);
    assert(all_values(rest, p)) by {
        if holds_key(entries, key) {
            let i = index_of(entries, key);
            assert(0 <= i < entries.len() && key_at(entries, i) == key);
            assert forall|a: int| 0 <= a < rest.len() implies p(#[trigger] value_at(rest, a)) by {
                let sa = if a < i { a } else { a + 1 };
                assert(value_at(rest, a) == value_at(entries, sa));
            }
        }
    }
    let full = rest.push((key, value));
    assert forall|a: int| 0 <= a < full.len() implies p(#[trigger] value_at(full, a)) by {
        if a < rest.len() {
            assert(value_at(full, a) == value_at(rest, a));
        }
    }
    let after = inserted(entries, capacity, key, value);
    assert forall|a: int| 0 <= a < after.len() implies p(#[trigger] value_at(after, a)) by {
        if full.len() > capacity {
            assert(value_at(after, a) == value_at(full, a + 1));
        }
    }
    if holds_key(entries, key) {
        let i = index_of(entries, key);
        assert(0 <= i < entries.len() && key_at(entries, i) == key);
        let used = rest.push(entries[i]);
        assert forall|a: int| 0 <= a < used.len() implies p(#[trigger] value_at(used, a)) by {
            if a < rest.len() {
                assert(value_at(used, a) == value_at(rest, a));
            } else {
                assert(value_at(used, a) == value_at(entries, i));
            }
        }
    }
}

/// To give a key a value right after a use of the key is to give it the value.
pub proof fn lemma_inserted_after_use<V>(entries: Seq<(u64, V)>, capacity: nat, key: u64, value: V)
    requires
        distinct_keys(entries),
    ensures
        inserted(refreshed(entries, key), capacity, key, value) == inserted(
            entries,
            capacity,
            key,
            value,
        ),
        refreshed(refreshed(entries, key), key) == refreshed(entries, key),
{
    if holds_key(entries, key) {
        let i = index_of(entries, key);
        assert(0 <= i < entries.len() && key_at(entries, i) == key);
        lemma_without(entries, key);
        let rest = without(entries, key);
        let used = rest.push(entries[i]);
        lemma_pushed(rest, key, entries[i].1, key);
        let last = used.len() - 1;
        assert(used[last] == entries[i]);
        lemma_index_of(used, last);
        assert(used.remove(last) =~= rest);
    }
}

} // verus!
