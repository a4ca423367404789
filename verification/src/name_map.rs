//! A map from names to values that keeps the order in which the names were
//! first inserted. A name occurs once; inserting it again replaces the value
//! where it stands.

use vstd::prelude::*;
use crate::model::{deep, lemma_deep_push};
use crate::text::same_text;

verus! {

/// The model of a map: its entries in insertion order.
pub type Entries<T> = Seq<(Seq<char>, T)>;

/// Where `key` stands in `entries`: the last entry with that name.
pub open spec fn position<T>(entries: Entries<T>, key: Seq<char>) -> Option<int>
    decreases entries.len(),
{
    if entries.len() == 0 {
        None
    } else if entries.last().0 == key {
        Some(entries.len() - 1)
    } else {
        position(entries.drop_last(), key)
    }
}

/// The value that `entries` holds for `key`.
pub open spec fn lookup<T>(entries: Entries<T>, key: Seq<char>) -> Option<T> {
    match position(entries, key) {
        Some(i) => Some(entries[i].1),
        None => None,
    }
}

/// Whether `entries` holds `key`.
pub open spec fn has_key<T>(entries: Entries<T>, key: Seq<char>) -> bool {
    position(entries, key) is Some
}

/// The names of `entries`, in order.
pub open spec fn keys_of<T>(entries: Entries<T>) -> Seq<Seq<char>> {
    entries.map_values(|e: (Seq<char>, T)| e.0)
}

/// Whether no name occurs twice.
pub open spec fn distinct_keys<T>(entries: Entries<T>) -> bool {
    forall|i: int, j: int|
        0 <= i < j < entries.len() ==> (#[trigger] entries[i]).0 != (#[trigger] entries[j]).0
}

/// `entries` after `key` was given `value`: replaced where the name stands,
/// else added at the end.
pub open spec fn with_entry<T>(entries: Entries<T>, key: Seq<char>, value: T) -> Entries<T> {
    match position(entries, key) {
        Some(i) => entries.update(i, (key, value)),
        None => entries.push((key, value)),
    }
}

/// A position that `position` gives holds the name; where it gives none, no
/// entry holds it.
pub proof fn lemma_position<T>(entries: Entries<T>, key: Seq<char>)
    ensures
        match position(entries, key) {
            Some(i) => 0 <= i < entries.len() && entries[i].0 == key && forall|j: int|
                i < j < entries.len() ==> (#[trigger] entries[j]).0 != key,
            None => forall|j: int| 0 <= j < entries.len() ==> (#[trigger] entries[j]).0 != key,
        },
    decreases entries.len(),
{
    if entries.len() > 0 && entries.last().0 != key {
        lemma_position(entries.drop_last(), key);
        assert forall|j: int| 0 <= j < entries.len() - 1 implies entries.drop_last()[j]
            == entries[j] by {}
        match position(entries, key) {
            Some(i) => {
                assert forall|j: int| i < j < entries.len() implies (#[trigger] entries[j]).0
                    != key by {
                    if j < entries.len() - 1 {
                        assert(entries.drop_last()[j].0 != key);
                    }
                }
            },
            None => {
                assert forall|j: int| 0 <= j < entries.len() implies (#[trigger] entries[j]).0
                    != key by {
                    if j < entries.len() - 1 {
                        assert(entries.drop_last()[j].0 != key);
                    }
                }
            },
        }
    }
}

/// Giving a name a value keeps the names distinct, and the name then finds
/// that value; every other name finds what it found before.
pub proof fn lemma_with_entry<T>(entries: Entries<T>, key: Seq<char>, value: T)
    requires
        distinct_keys(entries),
    ensures
        distinct_keys(with_entry(entries, key, value)),
        lookup(with_entry(entries, key, value), key) == Some(value),
        forall|other: Seq<char>|
            other != key ==> lookup(with_entry(entries, key, value), other) == lookup(
                entries,
                other,
            ),
{
    let after = with_entry(entries, key, value);
    lemma_position(entries, key);
    assert(distinct_keys(after));
    lemma_position(after, key);
    match position(entries, key) {
        Some(i) => {
            assert(after[i].0 == key);
        },
        None => {
            assert(after[entries.len() as int].0 == key);
        },
    }
    assert forall|other: Seq<char>| other != key implies lookup(after, other) == lookup(
        entries,
        other,
    ) by {
        lemma_position(entries, other);
        lemma_position(after, other);
        match position(entries, other) {
            Some(j) => {
                assert(after[j].0 == other);
            },
            None => {},
        }
        match position(after, other) {
            Some(j) => {
                assert(entries[j].0 == other);
            },
            None => {},
        }
    }
}

/// The map that is built by giving each name its value, in the order of
/// `items`; an item that holds nothing adds nothing.
pub open spec fn built_from<T>(items: Seq<Option<(Seq<char>, T)>>) -> Entries<T>
    decreases items.len(),
{
    if items.len() == 0 {
        Seq::empty()
    } else {
        match items.last() {
            Some((key, value)) => with_entry(built_from(items.drop_last()), key, value),
            None => built_from(items.drop_last()),
        }
    }
}

/// A map from names to values in the order of first insertion.
#[derive(Debug, PartialEq, Eq)]
pub struct NameMap<V: DeepView> {
    entries: Vec<(String, V)>,
}

impl<V: DeepView> View for NameMap<V> {
    type V = Entries<V::V>;

    closed spec fn view(&self) -> Entries<V::V> {
        deep(self.entries@)
    }
}

impl<V: DeepView> DeepView for NameMap<V> {
    type V = Entries<V::V>;

    open spec fn deep_view(&self) -> Entries<V::V> {
        self@
    }
}

impl<V: DeepView> NameMap<V> {
    #[verifier::type_invariant]
    spec fn inv(self) -> bool {
        distinct_keys(deep(self.entries@))
    }

    /// The map without entries.
    pub fn new() -> (r: Self)
        ensures
            r@ == Seq::<(Seq<char>, V::V)>::empty(),
    {
        let entries: Vec<(String, V)> = Vec::new();
        proof {
            assert(deep(entries@) =~= Seq::<(Seq<char>, V::V)>::empty());
        }
        NameMap { entries }
    }

    /// The number of entries; no name occurs twice among them.
    pub fn len(&self) -> (r: usize)
        ensures
            r == self@.len(),
            distinct_keys(self@),
    {
        proof {
            use_type_invariant(self);
        }
        self.entries.len()
    }

    /// The index of the entry named `key`.
    fn find(&self, key: &str) -> (r: Option<usize>)
        ensures
            match r {
                Some(i) => position(self@, key@) == Some(i as int) && i < self.entries.len(),
                None => position(self@, key@) is None,
            },
    {
        proof {
            use_type_invariant(self);
            lemma_position(self@, key@);
        }
        let mut i: usize = 0;
        while i < self.entries.len()
            invariant
                i <= self.entries.len(),
                distinct_keys(self@),
                forall|j: int| 0 <= j < i ==> (#[trigger] self@[j]).0 != key@,
            decreases self.entries.len() - i,
        {
            if same_text(self.entries[i].0.as_str(), key) {
                proof {
                    assert(self@[i as int].0 == key@);
                    lemma_position(self@, key@);
                }
                return Some(i);
            }
            i += 1;
        }
        proof {
            lemma_position(self@, key@);
        }
        None
    }

    /// Whether the map holds `key`.
    pub fn contains_key(&self, key: &str) -> (r: bool)
        ensures
            r == has_key(self@, key@),
    {
        self.find(key).is_some()
    }

    /// The value of `key`.
    pub fn get(&self, key: &str) -> (r: Option<&V>)
        ensures
            r.deep_view() == lookup(self@, key@),
    {
        match self.find(key) {
            Some(i) => Some(&self.entries[i].1),
            None => None,
        }
    }

    /// Gives `key` the value `value`: in place where the map holds the name,
    /// else as a new last entry.
    pub fn insert(&mut self, key: String, value: V)
        ensures
            final(self)@ == with_entry(old(self)@, key@, value.deep_view()),
    {
        proof {
            use_type_invariant(&*self);
            lemma_with_entry(self@, key@, value.deep_view());
        }
        let found = self.find(key.as_str());
        let mut taken: NameMap<V> = NameMap::new();
        core::mem::swap(self, &mut taken);
        let NameMap { entries: mut entries } = taken;
        let ghost before = entries@;
        match found {
            Some(i) => {
                entries[i] = (key, value);
                proof {
                    assert(deep(entries@) =~= deep(before).update(
                        i as int,
                        (key@, value.deep_view()),
                    ));
                }
            },
            None => {
                entries.push((key, value));
                proof {
                    lemma_deep_push(before, (key, value));
                }
            },
        }
        *self = NameMap { entries };
    }

    /// The name of the entry at `index`.
    pub fn key_at(&self, index: usize) -> (r: &String)
        requires
            index < self@.len(),
        ensures
            r@ == self@[index as int].0,
    {
        &self.entries[index].0
    }

    /// The value of the entry at `index`.
    pub fn value_at(&self, index: usize) -> (r: &V)
        requires
            index < self@.len(),
        ensures
            r.deep_view() == self@[index as int].1,
    {
        &self.entries[index].1
    }

    /// The map that holds the items, each name with its value, inserted in
    /// order.
    pub fn from_items(items: Vec<Option<(String, V)>>) -> (r: Self)
        ensures
            r@ == built_from(deep(items@)),
    {
        let ghost all = deep(items@);
        let mut out: NameMap<V> = NameMap::new();
        let mut rest = items;
        let mut done: Ghost<int> = Ghost(0);
        proof {
            assert(all.take(0) =~= Seq::empty());
            assert(all.skip(0) =~= all);
        }
        while rest.len() > 0
            invariant
                0 <= done@ <= all.len(),
                rest.len() == all.len() - done@,
                deep(rest@) == all.skip(done@),
                out@ == built_from(all.take(done@)),
            decreases rest.len(),
        {
            let ghost k = done@;
            let ghost old_rest = rest@;
            assert(deep(rest@)[0] == all[k]);
            let first = rest.remove(0);
            proof {
                assert(first.deep_view() == all[k]);
                assert(all.take(k + 1).drop_last() =~= all.take(k));
                assert(all.take(k + 1).last() == all[k]);
                assert forall|i: int| 0 <= i < rest.len() implies deep(rest@)[i] == all.skip(
                    k + 1,
                )[i] by {
                    assert(rest@[i] == old_rest[i + 1]);
                    assert(deep(old_rest)[i + 1] == all.skip(k)[i + 1]);
                }
                assert(deep(rest@) =~= all.skip(k + 1));
            }
            match first {
                Some((key, value)) => {
                    out.insert(key, value);
                },
                None => {},
            }
            proof {
                done@ = k + 1;
            }
        }
        proof {
            assert(all.take(done@) =~= all);
        }
        out
    }

    /// The names, in order.
    pub fn keys(&self) -> (r: Vec<String>)
        ensures
            deep(r@) == keys_of(self@),
    {
        let mut out: Vec<String> = Vec::new();
        let mut i: usize = 0;
        while i < self.entries.len()
            invariant
                i <= self.entries.len(),
                deep(out@) == keys_of(self@).take(i as int),
            decreases self.entries.len() - i,
        {
            let ghost before = out@;
            let key = self.entries[i].0.clone();
            out.push(key);
            proof {
                lemma_deep_push(before, key);
                assert(deep(out@) =~= keys_of(self@).take(i as int + 1));
            }
            i += 1;
        }
        proof {
            assert(keys_of(self@).take(self.entries.len() as int) =~= keys_of(self@));
        }
        out
    }

    /// The entries, in order; no name occurs twice among them.
    pub fn into_entries(self) -> (r: Vec<(String, V)>)
        ensures
            deep(r@) == self@,
            distinct_keys(self@),
    {
        proof {
            use_type_invariant(&self);
        }
        self.entries
    }

    /// The map with `transform` applied to the value of every entry; names
    /// and order stay.
    pub(crate) fn map_each<F: Fn(V) -> V>(
        self,
        transform: F,
        Ghost(mapped): Ghost<spec_fn(V::V) -> V::V>,
    ) -> (r: Self)
        requires
            forall|value: V| call_requires(transform, (value,)),
            forall|value: V, result: V|
                call_ensures(transform, (value,), result) ==> result.deep_view() == mapped(
                    value.deep_view(),
                ),
        ensures
            r@ == self@.map_values(|entry: (Seq<char>, V::V)| (entry.0, mapped(entry.1))),
    {
        let ghost all = self@;
        let ghost expected = all.map_values(|entry: (Seq<char>, V::V)| (entry.0, mapped(entry.1)));
        let mut rest = self.into_entries();
        let mut out: Vec<(String, V)> = Vec::new();
        let mut done: Ghost<int> = Ghost(0);
        proof {
            assert(all.skip(0) =~= all);
            assert(deep(out@) =~= expected.take(0));
        }
        while rest.len() > 0
            invariant
                0 <= done@ <= all.len(),
                rest.len() == all.len() - done@,
                expected == all.map_values(
                    |entry: (Seq<char>, V::V)| (entry.0, mapped(entry.1)),
                ),
                forall|value: V| call_requires(transform, (value,)),
                forall|value: V, result: V|
                    call_ensures(transform, (value,), result) ==> result.deep_view() == mapped(
                        value.deep_view(),
                    ),
                deep(rest@) == all.skip(done@),
                deep(out@) == expected.take(done@),
            decreases rest.len(),
        {
            let ghost k = done@;
            let ghost old_rest = rest@;
            let ghost before = out@;
            assert(deep(rest@)[0] == all[k]);
            let (name, value) = rest.remove(0);
            proof {
                assert forall|i: int| 0 <= i < rest.len() implies deep(rest@)[i] == all.skip(
                    k + 1,
                )[i] by {
                    assert(rest@[i] == old_rest[i + 1]);
                    assert(deep(old_rest)[i + 1] == all.skip(k)[i + 1]);
                }
                assert(deep(rest@) =~= all.skip(k + 1));
            }
            let entry = (name, transform(value));
            out.push(entry);
            proof {
                lemma_deep_push(before, entry);
                assert(deep(out@) =~= expected.take(k + 1));
                done@ = k + 1;
            }
        }
        proof {
            assert(expected.take(all.len() as int) =~= expected);
            assert forall|i: int, j: int| 0 <= i < j < all.len() implies (
            #[trigger] expected[i]).0 != (#[trigger] expected[j]).0 by {
                assert(all[i].0 != all[j].0);
            }
        }
        NameMap::from_entries(out)
    }

    /// The map that holds exactly `entries`, whose names are distinct.
    pub(crate) fn from_entries(entries: Vec<(String, V)>) -> (r: Self)
        requires
            distinct_keys(deep(entries@)),
        ensures
            r@ == deep(entries@),
    {
        NameMap { entries }
    }
}

} // verus!
