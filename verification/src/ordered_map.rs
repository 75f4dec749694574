//! A map from names to values that keeps its entries in the order in which
//! their names were first inserted.

use vstd::prelude::*;
use crate::search::{first_from, lemma_first_from, lemma_first_from_is, lemma_first_from_none};
use crate::text::view_of;

verus! {

/// The predicate "entry `i` is filed under `key`".
pub open spec fn has_key<T>(entries: Seq<(Seq<char>, T)>, key: Seq<char>) -> spec_fn(int) -> bool {
    |i: int| entries[i].0 == key
}

/// The position of the first entry filed under `key`.
pub open spec fn position<T>(entries: Seq<(Seq<char>, T)>, key: Seq<char>) -> Option<int> {
    first_from(has_key(entries, key), 0, entries.len() as int)
}

/// The value of the first entry filed under `key`.
pub open spec fn lookup<T>(entries: Seq<(Seq<char>, T)>, key: Seq<char>) -> Option<T> {
    match position(entries, key) {
        Some(i) => Some(entries[i].1),
        None => None,
    }
}

/// No two entries are filed under the same key.
pub open spec fn distinct_keys<T>(entries: Seq<(Seq<char>, T)>) -> bool {
    forall|i: int, j: int| 0 <= i < j < entries.len() ==> entries[i].0 != entries[j].0
}

/// The entries after `value` is filed under `key`: an entry already filed
/// under `key` has its value replaced where it stands; otherwise a new entry
/// is added at the end.
pub open spec fn inserted<T>(entries: Seq<(Seq<char>, T)>, key: Seq<char>, value: T) -> Seq<
    (Seq<char>, T),
> {
    match position(entries, key) {
        Some(i) => entries.update(i, (key, value)),
        None => entries.push((key, value)),
    }
}

/// The views of keys and values.
pub open spec fn pair_views<V: View>(pairs: Seq<(String, V)>) -> Seq<(Seq<char>, V::V)> {
    Seq::new(pairs.len(), |i: int| (pairs[i].0@, pairs[i].1@))
}

/// The entries after each of `pairs` is filed in turn: of two values for one
/// key the later stays, in the place of the earlier.
pub open spec fn filed<T>(pairs: Seq<(Seq<char>, T)>) -> Seq<(Seq<char>, T)>
    decreases pairs.len(),
{
    if pairs.len() == 0 {
        Seq::empty()
    } else {
        inserted(filed(pairs.drop_last()), pairs.last().0, pairs.last().1)
    }
}

/// A map keyed by strings. Its view is the sequence of its entries, each a
/// key and the view of a value, in insertion order; no key occurs twice.
#[derive(Debug)]
pub struct OrderedMap<V: View> {
    entries: Vec<(String, V)>,
}

impl<V: View> View for OrderedMap<V> {
    type V = Seq<(Seq<char>, V::V)>;

    closed spec fn view(&self) -> Seq<(Seq<char>, V::V)> {
        Seq::new(self.entries@.len(), |i: int| (self.entries@[i].0@, self.entries@[i].1@))
    }
}

impl<V: View> OrderedMap<V> {
    #[verifier::type_invariant]
    spec fn keys_are_distinct(&self) -> bool {
        distinct_keys(self@)
    }

    /// An empty map.
    pub fn new() -> (map: Self)
        ensures
            map@ == Seq::<(Seq<char>, V::V)>::empty(),
    {
        let map = OrderedMap { entries: Vec::new() };
        assert(map@ =~= Seq::<(Seq<char>, V::V)>::empty());
        map
    }

    /// The map in which each of `pairs` has been filed in turn.
    pub fn from_entries(pairs: Vec<(String, V)>) -> (map: Self)
        ensures
            map@ == filed(pair_views(pairs@)),
    {
        let ghost given = pair_views(pairs@);
        let mut map = OrderedMap::new();
        let mut remaining = pairs;
        let n: usize = remaining.len();
        let mut i: usize = 0;
        assert(given.take(0) =~= Seq::empty());
        while i < n
            invariant
                i <= n,
                n == given.len(),
                remaining@.len() == n - i,
                pair_views(remaining@) == given.skip(i as int),
                map@ == filed(given.take(i as int)),
            decreases n - i,
        {
            let ghost before = remaining@;
            assert(pair_views(before)[0] == given.skip(i as int)[0]);
            let pair = remaining.remove(0);
            assert forall|k: int| 0 <= k < remaining@.len() implies pair_views(remaining@)[k]
                == given.skip(i + 1)[k] by {
                assert(remaining@[k] == before[k + 1]);
                assert(pair_views(before)[k + 1] == given.skip(i as int)[k + 1]);
            }
            assert(pair_views(remaining@) =~= given.skip(i + 1));
            assert(given.take(i + 1).drop_last() =~= given.take(i as int));
            map.insert(pair.0, pair.1);
            i = i + 1;
        }
        assert(given.take(n as int) =~= given);
        map
    }

    /// The number of entries.
    pub fn len(&self) -> (n: usize)
        ensures
            n == self@.len(),
            distinct_keys(self@),
    {
        proof {
            use_type_invariant(self);
        }
        self.entries.len()
    }

    /// The key of entry `i`.
    pub fn key_at(&self, i: usize) -> (key: &String)
        requires
            i < self@.len(),
        ensures
            key@ == self@[i as int].0,
    {
        &self.entries[i].0
    }

    /// The value of entry `i`.
    pub fn value_at(&self, i: usize) -> (value: &V)
        requires
            i < self@.len(),
        ensures
            value@ == self@[i as int].1,
    {
        &self.entries[i].1
    }

    /// The position of the entry filed under `key`.
    pub fn position(&self, key: &str) -> (found: Option<usize>)
        ensures
            match found {
                Some(i) => i < self@.len() && position(self@, key@) == Some(i as int),
                None => position(self@, key@) is None,
            },
    {
        let wanted: String = key.to_owned();
        let n: usize = self.entries.len();
        let mut i: usize = 0;
        while i < n
            invariant
                i <= n,
                n == self@.len(),
                wanted@ == key@,
                position(self@, key@) == first_from(has_key(self@, key@), i as int, n as int),
            decreases n - i,
        {
            if self.entries[i].0 == wanted {
                return Some(i);
            }
            i = i + 1;
        }
        None
    }

    /// The value filed under `key`.
    pub fn get(&self, key: &str) -> (value: Option<&V>)
        ensures
            view_of(value) == lookup(self@, key@),
    {
        match self.position(key) {
            Some(i) => Some(&self.entries[i].1),
            None => None,
        }
    }

    /// Files `value` under `key`. A value already filed under `key` is
    /// replaced where it stands and handed back; a new key goes to the end.
    pub fn insert(&mut self, key: String, value: V) -> (previous: Option<V>)
        ensures
            final(self)@ == inserted(old(self)@, key@, value@),
            distinct_keys(final(self)@),
            match previous {
                Some(previous) => lookup(old(self)@, key@) == Some(previous@),
                None => lookup(old(self)@, key@) is None,
            },
    {
        proof {
            use_type_invariant(&*self);
        }
        let found = self.position(key.as_str());
        let mut entries: Vec<(String, V)> = Vec::new();
        std::mem::swap(&mut self.entries, &mut entries);
        let previous = match found {
            Some(i) => {
                let removed = entries.remove(i);
                entries.insert(i, (key, value));
                Some(removed.1)
            },
            None => {
                entries.push((key, value));
                None
            },
        };
        proof {
            let after = Seq::new(entries@.len(), |i: int| (entries@[i].0@, entries@[i].1@));
            lemma_first_from(has_key(old(self)@, key@), 0, old(self)@.len() as int);
            assert(after =~= inserted(old(self)@, key@, value@));
            lemma_lookup_after_insert(old(self)@, key@, value@, key@);
        }
        std::mem::swap(&mut self.entries, &mut entries);
        previous
    }
}

/// After `value` is filed under `key`, looking `key` up gives `value`,
/// looking any other key up gives what it gave before, and still no two
/// entries are filed under the same key.
pub proof fn lemma_lookup_after_insert<T>(
    entries: Seq<(Seq<char>, T)>,
    key: Seq<char>,
    value: T,
    other: Seq<char>,
)
    requires
        distinct_keys(entries),
    ensures
        lookup(inserted(entries, key, value), key) == Some(value),
        other != key ==> lookup(inserted(entries, key, value), other) == lookup(entries, other),
        distinct_keys(inserted(entries, key, value)),
{
    let n = entries.len() as int;
    let after = inserted(entries, key, value);
    let m = after.len() as int;
    lemma_first_from(has_key(entries, key), 0, n);
    lemma_first_from(has_key(entries, other), 0, n);
    let at = match position(entries, key) {
        Some(i) => i,
        None => n,
    };
    assert(after[at] == (key, value));
    assert forall|j: int| 0 <= j < m && j != at implies after[j] == entries[j] by {}
    assert forall|j: int| 0 <= j < at implies !#[trigger] has_key(after, key)(j) by {
        assert(has_key(entries, key)(j) == (entries[j].0 == key));
    }
    lemma_first_from_is(has_key(after, key), 0, m, at);
    if other != key {
        match position(entries, other) {
            Some(i) => {
                assert(has_key(after, other)(i));
                assert forall|j: int| 0 <= j < i implies !#[trigger] has_key(after, other)(j) by {
                    assert(has_key(entries, other)(j) == (entries[j].0 == other));
                }
                lemma_first_from_is(has_key(after, other), 0, m, i);
            },
            None => {
                assert forall|j: int| 0 <= j < m implies !#[trigger] has_key(after, other)(j) by {
                    if j < n {
                        assert(has_key(entries, other)(j) == (entries[j].0 == other));
                    }
                }
                lemma_first_from_none(has_key(after, other), 0, m);
            },
        }
    }
    assert forall|a: int, b: int| 0 <= a < b < m implies after[a].0 != after[b].0 by {
        if b < n {
            assert(entries[a].0 != entries[b].0);
        } else {
            assert(has_key(entries, key)(a) == (entries[a].0 == key));
        }
    }
}

} // verus!
