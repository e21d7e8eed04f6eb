//! A map from strings to values, kept as a list of entries.

use crate::text::same;
use vstd::prelude::*;

verus! {

broadcast use vstd::string::group_string_axioms;

/// A map from strings to values. No key occurs twice.
pub struct StringMap<V> {
    entries: Vec<(String, V)>,
}

/// Whether no key occurs twice.
pub open spec fn distinct_keys<V>(entries: Seq<(String, V)>) -> bool {
    forall|i: int, j: int|
        #![trigger entries[i], entries[j]]
        0 <= i < j < entries.len() ==> entries[i].0@ != entries[j].0@
}

/// Whether an entry has the key.
pub open spec fn has_key<V>(entries: Seq<(String, V)>, key: Seq<char>) -> bool {
    exists|i: int| 0 <= i < entries.len() && (#[trigger] entries[i]).0@ == key
}

/// The entries as a map.
pub open spec fn entry_map<V>(entries: Seq<(String, V)>) -> Map<Seq<char>, V> {
    Map::new(
        |key: Seq<char>| has_key(entries, key),
        |key: Seq<char>|
            entries[choose|i: int| 0 <= i < entries.len() && (#[trigger] entries[i]).0@ == key].1,
    )
}

proof fn lemma_entry_at<V>(entries: Seq<(String, V)>, i: int)
    requires
        distinct_keys(entries),
        0 <= i < entries.len(),
    ensures
        entry_map(entries).dom().contains(entries[i].0@),
        entry_map(entries)[entries[i].0@] == entries[i].1,
{
    let key = entries[i].0@;
    assert(has_key(entries, key));
    let k = choose|k: int| 0 <= k < entries.len() && (#[trigger] entries[k]).0@ == key;
    assert(k == i);
}

proof fn lemma_removed<V>(before: Seq<(String, V)>, i: int)
    requires
        distinct_keys(before),
        0 <= i < before.len(),
    ensures
        distinct_keys(before.remove(i)),
        entry_map(before.remove(i)) == entry_map(before).remove(before[i].0@),
{
    let after = before.remove(i);
    let key = before[i].0@;
    assert forall|k: int| 0 <= k < after.len() implies #[trigger] after[k] == before[if k < i {
        k
    } else {
        k + 1
    }] by {}
    let expected = entry_map(before).remove(key);
    assert forall|n: Seq<char>| entry_map(after).dom().contains(n) == expected.dom().contains(
        n,
    ) by {
        if has_key(after, n) {
            let k = choose|k: int| 0 <= k < after.len() && (#[trigger] after[k]).0@ == n;
            let b = if k < i {
                k
            } else {
                k + 1
            };
            assert(before[b].0@ == n);
            assert(before[i].0@ == key);
        }
        if has_key(before, n) && n != key {
            let k = choose|k: int| 0 <= k < before.len() && (#[trigger] before[k]).0@ == n;
            let a = if k < i {
                k
            } else {
                k - 1
            };
            assert(after[a].0@ == n);
        }
    }
    assert forall|n: Seq<char>| entry_map(after).dom().contains(n) implies #[trigger] entry_map(
        after,
    )[n] == expected[n] by {
        let k = choose|k: int| 0 <= k < after.len() && (#[trigger] after[k]).0@ == n;
        lemma_entry_at(after, k);
        let b = if k < i {
            k
        } else {
            k + 1
        };
        assert(before[b] == after[k]);
        lemma_entry_at(before, b);
    }
    assert(entry_map(after) =~= expected);
}

proof fn lemma_pushed<V>(before: Seq<(String, V)>, key: String, value: V)
    requires
        distinct_keys(before),
        !has_key(before, key@),
    ensures
        distinct_keys(before.push((key, value))),
        entry_map(before.push((key, value))) == entry_map(before).insert(key@, value),
{
    let after = before.push((key, value));
    let expected = entry_map(before).insert(key@, value);
    assert(after[before.len() as int].0@ == key@);
    assert forall|n: Seq<char>| entry_map(after).dom().contains(n) == expected.dom().contains(
        n,
    ) by {
        if has_key(after, n) {
            let k = choose|k: int| 0 <= k < after.len() && (#[trigger] after[k]).0@ == n;
            if k < before.len() {
                assert(before[k].0@ == n);
            }
        }
        if has_key(before, n) {
            let k = choose|k: int| 0 <= k < before.len() && (#[trigger] before[k]).0@ == n;
            assert(after[k].0@ == n);
        }
    }
    assert forall|n: Seq<char>| entry_map(after).dom().contains(n) implies #[trigger] entry_map(
        after,
    )[n] == expected[n] by {
        let k = choose|k: int| 0 <= k < after.len() && (#[trigger] after[k]).0@ == n;
        lemma_entry_at(after, k);
        if k < before.len() {
            assert(before[k] == after[k]);
            lemma_entry_at(before, k);
        }
    }
    assert(entry_map(after) =~= expected);
}

impl<V> View for StringMap<V> {
    type V = Map<Seq<char>, V>;

    closed spec fn view(&self) -> Map<Seq<char>, V> {
        entry_map(self.entries@)
    }
}

impl<V> StringMap<V> {
    #[verifier::type_invariant]
    spec fn inv(self) -> bool {
        distinct_keys(self.entries@)
    }

    /// The keys in the order in which the map is walked, each once.
    pub closed spec fn keys(&self) -> Seq<Seq<char>> {
        self.entries@.map_values(|e: (String, V)| e.0@)
    }

    /// A map without entries.
    pub fn new() -> (r: Self)
        ensures
            r@ == Map::<Seq<char>, V>::empty(),
            r.keys() == Seq::<Seq<char>>::empty(),
    {
        let r = StringMap { entries: Vec::new() };
        assert(r@ =~= Map::empty());
        assert(r.keys() =~= Seq::empty());
        r
    }

    fn position(&self, key: &str) -> (r: Option<usize>)
        ensures
            match r {
                Some(i) => i < self.entries@.len() && self.entries@[i as int].0@ == key@,
                None => !has_key(self.entries@, key@),
            },
    {
        let mut i: usize = 0;
        while i < self.entries.len()
            invariant
                i <= self.entries@.len(),
                forall|k: int| 0 <= k < i ==> (#[trigger] self.entries@[k]).0@ != key@,
            decreases self.entries@.len() - i,
        {
            if same(self.entries[i].0.as_str(), key) {
                return Some(i);
            }
            i = i + 1;
        }
        None
    }

    /// How many entries there are; each is one key.
    pub fn len(&self) -> (r: usize)
        ensures
            r == self.keys().len(),
            r == 0 <==> self@ == Map::<Seq<char>, V>::empty(),
            forall|i: int| 0 <= i < r ==> self@.dom().contains(#[trigger] self.keys()[i]),
            forall|key: Seq<char>|
                self@.dom().contains(key) ==> #[trigger] self.keys().contains(key),
            self.keys().no_duplicates(),
    {
        proof {
            use_type_invariant(self);
            let e = self.entries@;
            let keys = self.keys();
            if e.len() == 0 {
                assert(self@ =~= Map::empty());
            } else {
                lemma_entry_at(e, 0);
            }
            assert forall|i: int| 0 <= i < e.len() implies self@.dom().contains(
                #[trigger] keys[i],
            ) by {
                lemma_entry_at(e, i);
            }
            assert forall|key: Seq<char>| self@.dom().contains(key) implies #[trigger] keys.contains(
                key,
            ) by {
                let k = choose|k: int| 0 <= k < e.len() && (#[trigger] e[k]).0@ == key;
                assert(keys[k] == key);
            }
            assert forall|i: int, j: int|
                0 <= i < keys.len() && 0 <= j < keys.len() && i != j implies keys[i] != keys[j] by {
                if i < j {
                    assert(e[i].0@ != e[j].0@);
                } else {
                    assert(e[j].0@ != e[i].0@);
                }
            }
        }
        self.entries.len()
    }

    /// The key at place `i` of the walk.
    pub fn key_at(&self, i: usize) -> (r: &String)
        requires
            i < self.keys().len(),
        ensures
            r@ == self.keys()[i as int],
            self@.dom().contains(r@),
    {
        proof {
            use_type_invariant(self);
            lemma_entry_at(self.entries@, i as int);
        }
        &self.entries[i].0
    }

    /// The value at place `i` of the walk.
    pub fn value_at(&self, i: usize) -> (r: &V)
        requires
            i < self.keys().len(),
        ensures
            self@.dom().contains(self.keys()[i as int]),
            *r == self@[self.keys()[i as int]],
    {
        proof {
            use_type_invariant(self);
            lemma_entry_at(self.entries@, i as int);
        }
        &self.entries[i].1
    }

    /// The value of the key.
    pub fn get(&self, key: &str) -> (r: Option<&V>)
        ensures
            match r {
                Some(v) => self@.dom().contains(key@) && *v == self@[key@],
                None => !self@.dom().contains(key@),
            },
    {
        proof {
            use_type_invariant(self);
        }
        match self.position(key) {
            Some(i) => {
                proof {
                    lemma_entry_at(self.entries@, i as int);
                }
                Some(&self.entries[i].1)
            },
            None => None,
        }
    }

    /// Takes the key out, and returns the value it had.
    pub fn remove(&mut self, key: &str) -> (r: Option<V>)
        ensures
            final(self)@ == old(self)@.remove(key@),
            match r {
                Some(v) => old(self)@.dom().contains(key@) && v == old(self)@[key@],
                None => !old(self)@.dom().contains(key@),
            },
    {
        proof {
            use_type_invariant(&*self);
        }
        match self.position(key) {
            Some(i) => {
                let ghost before = self.entries@;
                let mut entries: Vec<(String, V)> = Vec::new();
                std::mem::swap(&mut entries, &mut self.entries);
                let entry = entries.remove(i);
                proof {
                    lemma_entry_at(before, i as int);
                    lemma_removed(before, i as int);
                }
                self.entries = entries;
                Some(entry.1)
            },
            None => {
                assert(self@ =~= self@.remove(key@));
                None
            },
        }
    }

    /// Gives the key the value. The key is then the last of the walk.
    pub fn insert(&mut self, key: &str, value: V)
        ensures
            final(self)@ == old(self)@.insert(key@, value),
            final(self).keys().len() > 0,
            final(self).keys().last() == key@,
    {
        let ghost start = self@;
        let _ = self.remove(key);
        proof {
            use_type_invariant(&*self);
        }
        let ghost before = self.entries@;
        let mut entries: Vec<(String, V)> = Vec::new();
        std::mem::swap(&mut entries, &mut self.entries);
        let name = key.to_owned();
        entries.push((name, value));
        proof {
            assert(!entry_map(before).dom().contains(key@));
            lemma_pushed(before, name, value);
            assert(start.remove(key@).insert(key@, value) =~= start.insert(key@, value));
        }
        self.entries = entries;
    }

    /// Takes all keys out.
    pub fn clear(&mut self)
        ensures
            final(self)@ == Map::<Seq<char>, V>::empty(),
    {
        self.entries = Vec::new();
        assert(self@ =~= Map::empty());
    }
}

} // verus!
