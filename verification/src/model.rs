//! Mathematical models of the containers that the library's types are made of.
use vstd::prelude::*;
use crate::text::same;

verus! {

/// What each item of a sequence stands for.
pub open spec fn views<T: View>(items: Seq<T>) -> Seq<T::V> {
    Seq::new(items.len(), |i: int| items[i]@)
}

/// What an optional value stands for.
pub open spec fn opt_view<T: View>(value: Option<T>) -> Option<T::V> {
    match value {
        Some(v) => Some(v@),
        None => None,
    }
}

/// What a result stands for, success and failure alike.
pub open spec fn result_view<T: View, E: View>(result: Result<T, E>) -> Result<T::V, E::V> {
    match result {
        Ok(v) => Ok(v@),
        Err(e) => Err(e@),
    }
}

/// What a list of keyed values stands for.
pub open spec fn entries_view<T: View>(entries: Seq<(String, T)>) -> Seq<(Seq<char>, T::V)> {
    Seq::new(entries.len(), |i: int| (entries[i].0@, entries[i].1@))
}

/// The value of the first entry with this key.
pub open spec fn lookup<T>(entries: Seq<(Seq<char>, T)>, key: Seq<char>) -> Option<T>
    decreases entries.len(),
{
    if entries.len() == 0 {
        None
    } else if entries[0].0 == key {
        Some(entries[0].1)
    } else {
        lookup(entries.skip(1), key)
    }
}

/// No two entries have the same key.
pub open spec fn distinct_keys<T>(entries: Seq<(Seq<char>, T)>) -> bool {
    forall|i: int, j: int|
        0 <= i < j < entries.len() ==> (#[trigger] entries[i]).0 != (#[trigger] entries[j]).0
}

/// A lookup gives back the value of some entry with that key, or there is none.
pub proof fn lemma_lookup<T>(entries: Seq<(Seq<char>, T)>, key: Seq<char>)
    ensures
        match lookup(entries, key) {
            Some(v) => exists|i: int|
                0 <= i < entries.len() && #[trigger] entries[i] == (key, v) && (forall|j: int|
                    0 <= j < i ==> (#[trigger] entries[j]).0 != key),
            None => forall|i: int| 0 <= i < entries.len() ==> (#[trigger] entries[i]).0 != key,
        },
    decreases entries.len(),
{
    if entries.len() > 0 && entries[0].0 != key {
        let rest = entries.skip(1);
        lemma_lookup(rest, key);
        assert forall|i: int| 1 <= i < entries.len() implies entries[i] == rest[i - 1] by {}
        match lookup(rest, key) {
            Some(v) => {
                let i = choose|i: int|
                    0 <= i < rest.len() && #[trigger] rest[i] == (key, v) && (forall|j: int|
                        0 <= j < i ==> (#[trigger] rest[j]).0 != key);
                assert(entries[i + 1] == (key, v));
                assert forall|j: int| 0 <= j < i + 1 implies (#[trigger] entries[j]).0 != key by {
                    if j > 0 {
                        assert(rest[j - 1].0 != key);
                    }
                }
            },
            None => {
                assert forall|i: int| 0 <= i < entries.len() implies (#[trigger] entries[i]).0
                    != key by {
                    if i > 0 {
                        assert(rest[i - 1].0 != key);
                    }
                }
            },
        }
    } else if entries.len() > 0 {
        assert(entries[0] == (key, entries[0].1));
    }
}

/// Where no two entries have the same key, each is found under its key.
pub proof fn lemma_lookup_at<T>(entries: Seq<(Seq<char>, T)>, i: int)
    requires
        distinct_keys(entries),
        0 <= i < entries.len(),
    ensures
        lookup(entries, entries[i].0) == Some(entries[i].1),
{
    lemma_lookup(entries, entries[i].0);
    assert(entries[i].0 == entries[i].0);
}

/// `entries` with `value` under `key`: in the place of what was there, else at
/// the end.
pub open spec fn with_entry<T>(
    entries: Seq<(Seq<char>, T)>,
    key: Seq<char>,
    value: T,
) -> Seq<(Seq<char>, T)> {
    if lookup(entries, key) is Some {
        Seq::new(
            entries.len(),
            |i: int| if entries[i].0 == key {
                (key, value)
            } else {
                entries[i]
            },
        )
    } else {
        entries.push((key, value))
    }
}

/// Keys stay distinct where a value is put under one.
pub proof fn lemma_put_distinct<T>(entries: Seq<(Seq<char>, T)>, key: Seq<char>, value: T)
    requires
        distinct_keys(entries),
    ensures
        distinct_keys(with_entry(entries, key, value)),
{
    lemma_lookup(entries, key);
    let after = with_entry(entries, key, value);
    assert forall|i: int, j: int| 0 <= i < j < after.len() implies (#[trigger] after[i]).0 != (
    #[trigger] after[j]).0 by {
        if lookup(entries, key) is Some {
            assert(after[i].0 == entries[i].0);
            assert(after[j].0 == entries[j].0);
        } else if j < entries.len() {
            assert(after[i] == entries[i] && after[j] == entries[j]);
        } else {
            assert(after[i] == entries[i]);
        }
    }
}

/// Puts a value under a key.
pub fn put<T: View>(entries: &mut Vec<(String, T)>, key: String, value: T)
    requires
        distinct_keys(entries_view(old(entries)@)),
    ensures
        entries_view(final(entries)@) == with_entry(entries_view(old(entries)@), key@, value@),
{
    let ghost before = entries_view(entries@);
    let mut i: usize = 0;
    while i < entries.len()
        invariant
            i <= entries.len(),
            before == entries_view(entries@),
            *entries == *old(entries),
            distinct_keys(before),
            forall|j: int| 0 <= j < i ==> (#[trigger] before[j]).0 != key@,
        decreases entries.len() - i,
    {
        assert(before[i as int].0 == entries@[i as int].0@);
        if same(entries[i].0.as_str(), key.as_str()) {
            proof {
                lemma_lookup_at(before, i as int);
                assert forall|j: int| 0 <= j < before.len() && j != i implies (
                #[trigger] before[j]).0 != key@ by {
                    assert(before[i as int].0 == key@);
                }
            }
            entries.set(i, (key, value));
            assert(entries_view(entries@) =~= with_entry(before, key@, value@));
            return;
        }
        i = i + 1;
    }
    proof {
        lemma_lookup(before, key@);
    }
    entries.push((key, value));
    assert(entries_view(entries@) =~= with_entry(before, key@, value@));
}

/// The value of the first entry with this key, where there is one.
pub fn find<'a, T: View>(entries: &'a Vec<(String, T)>, key: &str) -> (r: Option<&'a T>)
    ensures
        opt_view(r) == lookup(entries_view(entries@), key@),
{
    let ghost all = entries_view(entries@);
    let mut i: usize = 0;
    assert(all.skip(0) =~= all);
    while i < entries.len()
        invariant
            i <= entries.len(),
            all == entries_view(entries@),
            lookup(all, key@) == lookup(all.skip(i as int), key@),
        decreases entries.len() - i,
    {
        assert(all.skip(i as int).skip(1) =~= all.skip(i + 1));
        if same(entries[i].0.as_str(), key) {
            return Some(&entries[i].1);
        }
        i = i + 1;
    }
    None
}

} // verus!
