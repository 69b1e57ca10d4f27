//! A small map with text keys.

use vstd::prelude::*;

use crate::text::strings;

verus! {

/// Values under text keys; of several values put under one key the last one counts.
#[derive(Debug)]
pub struct TextMap<T> {
    entries: Vec<(String, T)>,
}

/// The map that a list of entries stands for; the last entry of a key counts.
pub open spec fn entries_map<T>(entries: Seq<(Seq<char>, T)>) -> Map<Seq<char>, T>
    decreases entries.len(),
{
    if entries.len() == 0 {
        Map::empty()
    } else {
        entries_map(entries.drop_last()).insert(entries.last().0, entries.last().1)
    }
}

/// Entries with their keys as text.
pub open spec fn keyed<T>(entries: Seq<(String, T)>) -> Seq<(Seq<char>, T)> {
    Seq::new(entries.len(), |i: int| (entries[i].0@, entries[i].1))
}

impl<T> View for TextMap<T> {
    type V = Map<Seq<char>, T>;

    closed spec fn view(&self) -> Map<Seq<char>, T> {
        entries_map(keyed(self.entries@))
    }
}

proof fn lemma_entries_map<T>(entries: Seq<(Seq<char>, T)>)
    ensures
        forall|k: Seq<char>| #[trigger]
            entries_map(entries).contains_key(k) <==> exists|i: int|
                0 <= i < entries.len() && (#[trigger] entries[i]).0 == k,
    decreases entries.len(),
{
    if entries.len() > 0 {
        let head = entries.drop_last();
        lemma_entries_map(head);
        assert forall|k: Seq<char>| #[trigger]
            entries_map(entries).contains_key(k) <==> exists|i: int|
                0 <= i < entries.len() && (#[trigger] entries[i]).0 == k by {
            if entries_map(head).contains_key(k) {
                let i = choose|i: int| 0 <= i < head.len() && (#[trigger] head[i]).0 == k;
                assert(entries[i].0 == k);
            }
            if entries.last().0 == k {
                assert(entries[entries.len() - 1].0 == k);
            }
            if exists|i: int| 0 <= i < entries.len() && (#[trigger] entries[i]).0 == k {
                let i = choose|i: int| 0 <= i < entries.len() && (#[trigger] entries[i]).0 == k;
                if i < head.len() {
                    assert(head[i].0 == k);
                }
            }
        }
    }
}

proof fn lemma_last_entry_counts<T>(entries: Seq<(Seq<char>, T)>, i: int)
    requires
        0 <= i < entries.len(),
        forall|k: int| i < k < entries.len() ==> (#[trigger] entries[k]).0 != entries[i].0,
    ensures
        entries_map(entries).contains_key(entries[i].0),
        entries_map(entries)[entries[i].0] == entries[i].1,
    decreases entries.len(),
{
    if i < entries.len() - 1 {
        let head = entries.drop_last();
        assert(head[i] == entries[i]);
        assert(entries[entries.len() - 1].0 != entries[i].0);
        lemma_last_entry_counts(head, i);
    }
}

impl<T> TextMap<T> {
    /// An empty map.
    pub fn new() -> (map: TextMap<T>)
        ensures
            map@ == Map::<Seq<char>, T>::empty(),
    {
        TextMap { entries: Vec::new() }
    }

    /// Puts a value under a key, in place of an earlier one.
    pub fn insert(&mut self, key: String, value: T)
        ensures
            final(self)@ == old(self)@.insert(key@, value),
    {
        let ghost before = keyed(self.entries@);
        self.entries.push((key, value));
        assert(keyed(self.entries@).drop_last() =~= before);
    }

    /// All entries in the order in which they were put in; the last one of a key
    /// counts.
    pub fn entries(&self) -> (list: &Vec<(String, T)>)
        ensures
            entries_map(keyed(list@)) == self@,
    {
        &self.entries
    }

    /// The value under a key.
    pub fn get(&self, key: &str) -> (value: Option<&T>)
        ensures
            match value {
                Some(v) => self@.contains_key(key@) && *v == self@[key@],
                None => !self@.contains_key(key@),
            },
    {
        let ghost all = keyed(self.entries@);
        let mut i: usize = self.entries.len();
        while i > 0
            invariant
                all == keyed(self.entries@),
                i <= self.entries@.len(),
                forall|k: int| i <= k < all.len() ==> (#[trigger] all[k]).0 != key@,
            decreases i,
        {
            i = i - 1;
            assert(all[i as int].0 == self.entries@[i as int].0@);
            if strings::same_text(self.entries[i].0.as_str(), key) {
                proof {
                    lemma_last_entry_counts(all, i as int);
                }
                return Some(&self.entries[i].1);
            }
        }
        proof {
            lemma_entries_map(all);
        }
        None
    }
}

/// Of several values put under one key the last one counts, and a value under one
/// key changes nothing under another.
pub proof fn the_last_value_of_a_key_counts<T>(
    entries: Seq<(Seq<char>, T)>,
    key: Seq<char>,
    value: T,
    other: Seq<char>,
)
    ensures
        ({
            let map = entries_map(entries.push((key, value)));
            &&& map.contains_key(key) && map[key] == value
            &&& other != key ==> map.contains_key(other) == entries_map(entries).contains_key(other)
            &&& other != key ==> map[other] == entries_map(entries)[other]
        }),
        !entries_map(Seq::<(Seq<char>, T)>::empty()).contains_key(key),
{
    assert(entries.push((key, value)).drop_last() =~= entries);
}

} // verus!
