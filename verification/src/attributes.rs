//! An ordered map from names to texts, as action arguments, action results
//! and event payloads use it: each name occurs once, and the entries keep
//! the order in which their names first came.

use crate::text::{clone_pairs, same_text};
use vstd::prelude::*;

verus! {

/// The position of the first entry called `key`, or the length of `entries`
/// where there is none.
pub open spec fn key_index(entries: Seq<(Seq<char>, Seq<char>)>, key: Seq<char>) -> int
    decreases entries.len(),
{
    if entries.len() == 0 {
        0
    } else if entries.first().0 == key {
        0
    } else {
        1 + key_index(entries.drop_first(), key)
    }
}

/// The text that `entries` gives to `key`.
pub open spec fn value_of(entries: Seq<(Seq<char>, Seq<char>)>, key: Seq<char>) -> Option<
    Seq<char>,
> {
    let i = key_index(entries, key);
    if 0 <= i < entries.len() {
        Some(entries[i].1)
    } else {
        None
    }
}

/// `entries` after `key` is given `value`: the entry called `key` is
/// replaced where it stands, and a new entry comes last.
pub open spec fn put(
    entries: Seq<(Seq<char>, Seq<char>)>,
    key: Seq<char>,
    value: Seq<char>,
) -> Seq<(Seq<char>, Seq<char>)> {
    let i = key_index(entries, key);
    if 0 <= i < entries.len() {
        entries.update(i, (key, value))
    } else {
        entries.push((key, value))
    }
}

/// `entries` after each of `pairs` is put, in their order.
pub open spec fn put_all(
    entries: Seq<(Seq<char>, Seq<char>)>,
    pairs: Seq<(Seq<char>, Seq<char>)>,
) -> Seq<(Seq<char>, Seq<char>)>
    decreases pairs.len(),
{
    if pairs.len() == 0 {
        entries
    } else {
        put(put_all(entries, pairs.drop_last()), pairs.last().0, pairs.last().1)
    }
}

/// Whether no two entries share a name.
pub open spec fn distinct_keys(entries: Seq<(Seq<char>, Seq<char>)>) -> bool {
    forall|i: int, j: int|
        0 <= i < j < entries.len() ==> (#[trigger] entries[i]).0 != (#[trigger] entries[j]).0
}

/// Where a name is found: within the entries or at their end, at an entry
/// of that name, and behind entries that all have other names.
pub proof fn lemma_key_index_bounds(entries: Seq<(Seq<char>, Seq<char>)>, key: Seq<char>)
    ensures
        0 <= key_index(entries, key) <= entries.len(),
        key_index(entries, key) < entries.len() ==> entries[key_index(entries, key)].0 == key,
        forall|j: int| 0 <= j < key_index(entries, key) ==> (#[trigger] entries[j]).0 != key,
    decreases entries.len(),
{
    if entries.len() > 0 && entries.first().0 != key {
        let rest = entries.drop_first();
        lemma_key_index_bounds(rest, key);
        assert forall|j: int| 0 <= j < key_index(entries, key) implies (#[trigger] entries[j]).0
            != key by {
            if j > 0 {
                assert(entries[j] == rest[j - 1]);
            }
        }
    }
}

/// The first entry called `key` is where a search from the front stops.
pub proof fn lemma_key_index_at(entries: Seq<(Seq<char>, Seq<char>)>, key: Seq<char>, k: int)
    requires
        0 <= k <= entries.len(),
        forall|j: int| 0 <= j < k ==> (#[trigger] entries[j]).0 != key,
        k < entries.len() ==> entries[k].0 == key,
    ensures
        key_index(entries, key) == k,
    decreases entries.len(),
{
    if entries.len() > 0 && k > 0 {
        let rest = entries.drop_first();
        assert forall|j: int| 0 <= j < k - 1 implies (#[trigger] rest[j]).0 != key by {}
        lemma_key_index_at(rest, key, k - 1);
    }
}

/// Giving a name a value keeps every name unique.
pub proof fn lemma_put_keeps_distinct(
    entries: Seq<(Seq<char>, Seq<char>)>,
    key: Seq<char>,
    value: Seq<char>,
)
    requires
        distinct_keys(entries),
    ensures
        distinct_keys(put(entries, key, value)),
{
    lemma_key_index_bounds(entries, key);
    let next = put(entries, key, value);
    assert forall|i: int, j: int| 0 <= i < j < next.len() implies (#[trigger] next[i]).0 != (
    #[trigger] next[j]).0 by {}
}

/// A name has the value that it was given last, and giving one name a
/// value leaves the values of all others as they were.
pub proof fn lemma_value_after_put(
    entries: Seq<(Seq<char>, Seq<char>)>,
    key: Seq<char>,
    value: Seq<char>,
    other: Seq<char>,
)
    ensures
        value_of(put(entries, key, value), key) == Some(value),
        other != key ==> value_of(put(entries, key, value), other) == value_of(entries, other),
{
    lemma_key_index_bounds(entries, key);
    lemma_key_index_bounds(entries, other);
    let next = put(entries, key, value);
    let k = key_index(entries, key);
    assert forall|j: int| 0 <= j < k implies (#[trigger] next[j]).0 != key by {}
    lemma_key_index_at(next, key, k);
    if other != key {
        let o = key_index(entries, other);
        assert forall|j: int| 0 <= j < o implies (#[trigger] next[j]).0 != other by {}
        if o < entries.len() || k < entries.len() {
            lemma_key_index_at(next, other, o);
        } else {
            lemma_key_index_at(next, other, next.len() as int);
        }
    }
}

/// Pairs with names that are all different make a map that holds exactly
/// these pairs, in their order.
pub proof fn lemma_put_all_distinct(pairs: Seq<(Seq<char>, Seq<char>)>)
    requires
        distinct_keys(pairs),
    ensures
        put_all(Seq::empty(), pairs) == pairs,
    decreases pairs.len(),
{
    if pairs.len() != 0 {
        let front = pairs.drop_last();
        let last = pairs.last();
        assert forall|i: int, j: int| 0 <= i < j < front.len() implies (#[trigger] front[i]).0 != (
        #[trigger] front[j]).0 by {}
        lemma_put_all_distinct(front);
        assert forall|j: int| 0 <= j < front.len() implies (#[trigger] front[j]).0 != last.0 by {}
        lemma_key_index_at(front, last.0, front.len() as int);
    }
}

/// An ordered map from names to texts.
#[derive(Debug, PartialEq)]
pub struct AttributeMap {
    entries: Vec<(String, String)>,
}

impl View for AttributeMap {
    type V = Seq<(Seq<char>, Seq<char>)>;

    closed spec fn view(&self) -> Seq<(Seq<char>, Seq<char>)> {
        self.entries.deep_view()
    }
}

impl DeepView for AttributeMap {
    type V = Seq<(Seq<char>, Seq<char>)>;

    open spec fn deep_view(&self) -> Seq<(Seq<char>, Seq<char>)> {
        self@
    }
}

impl Clone for AttributeMap {
    fn clone(&self) -> (copy: AttributeMap)
        ensures
            copy@ == self@,
    {
        proof {
            use_type_invariant(self);
        }
        let entries = clone_pairs(&self.entries);
        AttributeMap { entries }
    }
}

impl AttributeMap {
    /// Every map keeps its names unique.
    #[verifier::type_invariant]
    spec fn unique_names(&self) -> bool {
        distinct_keys(self.entries.deep_view())
    }

    /// The map without entries.
    pub fn new() -> (map: AttributeMap)
        ensures
            map@ == Seq::<(Seq<char>, Seq<char>)>::empty(),
    {
        let entries: Vec<(String, String)> = Vec::new();
        AttributeMap { entries }
    }

    /// The number of entries.
    pub fn len(&self) -> (n: usize)
        ensures
            n == self@.len(),
            distinct_keys(self@),
    {
        proof {
            use_type_invariant(self);
        }
        self.entries.len()
    }

    /// Whether the map has no entry.
    pub fn is_empty(&self) -> (b: bool)
        ensures
            b == (self@.len() == 0),
    {
        self.entries.len() == 0
    }

    /// The position of the entry called `key`, or the length of the map.
    fn position(&self, key: &str) -> (i: usize)
        ensures
            i == key_index(self@, key@),
            i <= self.entries.len(),
    {
        let ghost all = self.entries.deep_view();
        let mut i: usize = 0;
        while i < self.entries.len()
            invariant
                0 <= i <= self.entries.len(),
                all == self.entries.deep_view(),
                forall|j: int| 0 <= j < i ==> (#[trigger] all[j]).0 != key@,
            decreases self.entries.len() - i,
        {
            if same_text(self.entries[i].0.as_str(), key) {
                proof {
                    lemma_key_index_at(all, key@, i as int);
                }
                return i;
            }
            i += 1;
        }
        proof {
            lemma_key_index_at(all, key@, i as int);
        }
        i
    }

    /// The text that the map gives to `key`.
    pub fn get(&self, key: &str) -> (value: Option<&String>)
        ensures
            value.deep_view() == value_of(self@, key@),
    {
        let i = self.position(key);
        if i < self.entries.len() {
            Some(&self.entries[i].1)
        } else {
            None
        }
    }

    /// Gives `key` the text `value`. An entry of that name keeps its place
    /// and takes the new text; a new name comes last.
    pub fn insert(&mut self, key: String, value: String)
        ensures
            final(self)@ == put(old(self)@, key@, value@),
            distinct_keys(final(self)@),
    {
        let i = self.position(key.as_str());
        let ghost before = self.entries.deep_view();
        proof {
            use_type_invariant(&*self);
            lemma_put_keeps_distinct(before, key@, value@);
        }
        let mut entries: Vec<(String, String)> = Vec::new();
        core::mem::swap(&mut entries, &mut self.entries);
        if i < entries.len() {
            entries[i] = (key, value);
        } else {
            entries.push((key, value));
        }
        assert(entries.deep_view() =~= put(before, key@, value@));
        self.entries = entries;
    }

    /// The name and the text of the entry at `index`.
    pub fn entry(&self, index: usize) -> (e: (&String, &String))
        requires
            index < self@.len(),
        ensures
            e.deep_view() == self@[index as int],
    {
        (&self.entries[index].0, &self.entries[index].1)
    }
}

} // verus!
