//! A map from text to values, kept as a list of entries with distinct keys.

use vstd::prelude::*;
use crate::text::same_text;

verus! {

/// The map that a list of pairs describes; of two pairs with one key the later counts.
pub open spec fn pairs_map<W>(pairs: Seq<(Seq<char>, W)>) -> Map<Seq<char>, W>
    decreases pairs.len(),
{
    if pairs.len() == 0 {
        Map::empty()
    } else {
        pairs_map(pairs.drop_last()).insert(pairs.last().0, pairs.last().1)
    }
}

/// No two pairs have the same key.
pub open spec fn distinct_keys<W>(pairs: Seq<(Seq<char>, W)>) -> bool {
    forall|i: int, j: int|
        0 <= i < j < pairs.len() ==> (#[trigger] pairs[i]).0 != (#[trigger] pairs[j]).0
}

pub proof fn lemma_pairs_map_keys<W>(pairs: Seq<(Seq<char>, W)>, key: Seq<char>)
    ensures
        pairs_map(pairs).contains_key(key) <==> exists|i: int|
            0 <= i < pairs.len() && (#[trigger] pairs[i]).0 == key,
    decreases pairs.len(),
{
    if pairs.len() > 0 {
        let init = pairs.drop_last();
        lemma_pairs_map_keys(init, key);
        if pairs_map(init).contains_key(key) {
            let i = choose|i: int| 0 <= i < init.len() && (#[trigger] init[i]).0 == key;
            assert(pairs[i].0 == key);
        }
        if exists|i: int| 0 <= i < pairs.len() && (#[trigger] pairs[i]).0 == key {
            let i = choose|i: int| 0 <= i < pairs.len() && (#[trigger] pairs[i]).0 == key;
            if i < init.len() {
                assert(init[i].0 == key);
            }
        }
    }
}

/// Every pair has its key in the map; the value is that of the last pair with the key.
pub proof fn lemma_pairs_map_last<W>(pairs: Seq<(Seq<char>, W)>, i: int)
    requires
        0 <= i < pairs.len(),
    ensures
        pairs_map(pairs).contains_key(pairs[i].0),
        (forall|j: int| i < j < pairs.len() ==> (#[trigger] pairs[j]).0 != pairs[i].0)
            ==> pairs_map(pairs)[pairs[i].0] == pairs[i].1,
    decreases pairs.len(),
{
    let init = pairs.drop_last();
    if i < init.len() {
        lemma_pairs_map_last(init, i);
        assert(init[i] == pairs[i]);
        if forall|j: int| i < j < pairs.len() ==> (#[trigger] pairs[j]).0 != pairs[i].0 {
            assert(pairs[pairs.len() - 1].0 != pairs[i].0);
            assert forall|j: int| i < j < init.len() implies (#[trigger] init[j]).0
                != init[i].0 by {
                assert(pairs[j].0 != pairs[i].0);
            }
        }
    }
}

/// Every entry of the map is one of the pairs.
pub proof fn lemma_pairs_map_origin<W>(pairs: Seq<(Seq<char>, W)>, key: Seq<char>) -> (i: int)
    requires
        pairs_map(pairs).contains_key(key),
    ensures
        0 <= i < pairs.len(),
        pairs[i] == (key, pairs_map(pairs)[key]),
    decreases pairs.len(),
{
    if pairs.last().0 == key {
        pairs.len() - 1
    } else {
        lemma_pairs_map_origin(pairs.drop_last(), key)
    }
}

pub proof fn lemma_pairs_map_index<W>(pairs: Seq<(Seq<char>, W)>, i: int)
    requires
        distinct_keys(pairs),
        0 <= i < pairs.len(),
    ensures
        pairs_map(pairs).contains_key(pairs[i].0),
        pairs_map(pairs)[pairs[i].0] == pairs[i].1,
{
    lemma_pairs_map_last(pairs, i);
}

/// Replacing the value of an entry is an insertion into the map.
pub proof fn lemma_pairs_map_update<W>(pairs: Seq<(Seq<char>, W)>, i: int, w: W)
    requires
        distinct_keys(pairs),
        0 <= i < pairs.len(),
    ensures
        distinct_keys(pairs.update(i, (pairs[i].0, w))),
        pairs_map(pairs.update(i, (pairs[i].0, w))) == pairs_map(pairs).insert(pairs[i].0, w),
{
    let after = pairs.update(i, (pairs[i].0, w));
    assert forall|a: int, b: int| 0 <= a < b < after.len() implies (#[trigger] after[a]).0 != (
    #[trigger] after[b]).0 by {
        assert(pairs[a].0 != pairs[b].0);
    }
    let left = pairs_map(after);
    let right = pairs_map(pairs).insert(pairs[i].0, w);
    assert forall|key: Seq<char>| left.contains_key(key) <==> right.contains_key(key) by {
        lemma_pairs_map_keys(after, key);
        lemma_pairs_map_keys(pairs, key);
        if left.contains_key(key) {
            let a = choose|a: int| 0 <= a < after.len() && (#[trigger] after[a]).0 == key;
            assert(pairs[a].0 == key);
        }
        if right.contains_key(key) {
            if key == pairs[i].0 {
                assert(after[i].0 == key);
            } else {
                let a = choose|a: int| 0 <= a < pairs.len() && (#[trigger] pairs[a]).0 == key;
                assert(after[a].0 == key);
            }
        }
    }
    assert forall|key: Seq<char>| left.contains_key(key) implies #[trigger] left[key]
        == right[key] by {
        lemma_pairs_map_keys(after, key);
        let a = choose|a: int| 0 <= a < after.len() && (#[trigger] after[a]).0 == key;
        lemma_pairs_map_index(after, a);
        lemma_pairs_map_index(pairs, a);
        if a != i {
            if a < i {
                assert(pairs[a].0 != pairs[i].0);
            } else {
                assert(pairs[i].0 != pairs[a].0);
            }
        }
    }
    assert(left =~= right);
}

/// Taking an entry out of the list removes its key from the map.
pub proof fn lemma_pairs_map_remove<W>(pairs: Seq<(Seq<char>, W)>, i: int)
    requires
        distinct_keys(pairs),
        0 <= i < pairs.len(),
    ensures
        distinct_keys(pairs.remove(i)),
        pairs_map(pairs.remove(i)) == pairs_map(pairs).remove(pairs[i].0),
{
    let after = pairs.remove(i);
    assert forall|a: int, b: int| 0 <= a < b < after.len() implies (#[trigger] after[a]).0 != (
    #[trigger] after[b]).0 by {
        let a0 = if a < i { a } else { a + 1 };
        let b0 = if b < i { b } else { b + 1 };
        assert(pairs[a0].0 != pairs[b0].0);
    }
    let left = pairs_map(after);
    let right = pairs_map(pairs).remove(pairs[i].0);
    assert forall|key: Seq<char>| #[trigger]
        left.contains_key(key) implies right.contains_key(key) && left[key] == right[key] by {
        lemma_pairs_map_keys(after, key);
        let a = choose|a: int| 0 <= a < after.len() && (#[trigger] after[a]).0 == key;
        let a0 = if a < i { a } else { a + 1 };
        assert(pairs[a0] == after[a]);
        lemma_pairs_map_index(after, a);
        lemma_pairs_map_index(pairs, a0);
        if a0 < i {
            assert(pairs[a0].0 != pairs[i].0);
        } else {
            assert(pairs[i].0 != pairs[a0].0);
        }
    }
    assert forall|key: Seq<char>| #[trigger]
        right.contains_key(key) implies left.contains_key(key) by {
        lemma_pairs_map_keys(pairs, key);
        lemma_pairs_map_keys(after, key);
        let a = choose|a: int| 0 <= a < pairs.len() && (#[trigger] pairs[a]).0 == key;
        let a1 = if a < i { a } else { a - 1 };
        assert(after[a1] == pairs[a]);
    }
    assert(left =~= right);
}

/// Adding a pair with a new key keeps the keys distinct.
pub proof fn lemma_distinct_push<W>(pairs: Seq<(Seq<char>, W)>, key: Seq<char>, w: W)
    requires
        distinct_keys(pairs),
        forall|i: int| 0 <= i < pairs.len() ==> (#[trigger] pairs[i]).0 != key,
    ensures
        distinct_keys(pairs.push((key, w))),
        pairs_map(pairs.push((key, w))) == pairs_map(pairs).insert(key, w),
{
    assert(pairs.push((key, w)).drop_last() == pairs);
}

/// The position of the entry with the given key.
pub fn position<V>(entries: &Vec<(String, V)>, key: &str) -> (r: Option<usize>)
    ensures
        r matches Some(i) ==> i < entries@.len() && entries@[i as int].0@ == key@,
        r is None ==> forall|j: int|
            0 <= j < entries@.len() ==> (#[trigger] entries@[j]).0@ != key@,
{
    let mut i: usize = 0;
    while i < entries.len()
        invariant
            i <= entries@.len(),
            forall|j: int| 0 <= j < i ==> (#[trigger] entries@[j]).0@ != key@,
        decreases entries@.len() - i,
    {
        if same_text(entries[i].0.as_str(), key) {
            return Some(i);
        }
        i = i + 1;
    }
    None
}

/// A map with text keys.
pub struct TextMap<V: View> {
    entries: Vec<(String, V)>,
}

/// The pairs that a list of entries stands for.
pub open spec fn entry_pairs<V: View>(entries: Seq<(String, V)>) -> Seq<(Seq<char>, V::V)> {
    entries.map_values(|e: (String, V)| (e.0@, e.1@))
}

impl<V: View> View for TextMap<V> {
    type V = Map<Seq<char>, V::V>;

    closed spec fn view(&self) -> Map<Seq<char>, V::V> {
        pairs_map(entry_pairs(self.entries@))
    }
}

impl<V: View> TextMap<V> {
    #[verifier::type_invariant]
    spec fn keys_are_distinct(self) -> bool {
        distinct_keys(entry_pairs(self.entries@))
    }

    /// The empty map.
    pub fn new() -> (map: Self)
        ensures
            map@ == Map::<Seq<char>, V::V>::empty(),
    {
        TextMap { entries: Vec::new() }
    }

    /// Sets the value of `key`, whether or not it had one.
    pub fn insert(&mut self, key: String, value: V)
        ensures
            final(self)@ == old(self)@.insert(key@, value@),
    {
        proof {
            use_type_invariant(&*self);
        }
        let mut entries: Vec<(String, V)> = Vec::new();
        std::mem::swap(&mut entries, &mut self.entries);
        let ghost before = entry_pairs(entries@);
        match position(&entries, key.as_str()) {
            Some(i) => {
                proof {
                    assert(before[i as int].0 == key@);
                    lemma_pairs_map_update(before, i as int, value@);
                    assert(entry_pairs(entries@.update(i as int, (key, value))) == before.update(
                        i as int,
                        (key@, value@),
                    ));
                }
                entries.set(i, (key, value));
            },
            None => {
                proof {
                    assert forall|j: int| 0 <= j < before.len() implies (#[trigger] before[j]).0
                        != key@ by {
                        assert(entries@[j].0@ != key@);
                    }
                    lemma_distinct_push(before, key@, value@);
                    assert(entry_pairs(entries@.push((key, value))) == before.push((key@, value@)));
                }
                entries.push((key, value));
            },
        }
        self.entries = entries;
    }

    /// The value of `key`.
    pub fn get(&self, key: &str) -> (r: Option<&V>)
        ensures
            r is Some <==> self@.contains_key(key@),
            r matches Some(value) ==> value@ == self@[key@],
    {
        proof {
            use_type_invariant(&*self);
            lemma_pairs_map_keys(entry_pairs(self.entries@), key@);
        }
        match position(&self.entries, key) {
            Some(i) => {
                proof {
                    lemma_pairs_map_index(entry_pairs(self.entries@), i as int);
                    assert(entry_pairs(self.entries@)[i as int].0 == key@);
                }
                Some(&self.entries[i].1)
            },
            None => {
                proof {
                    if self@.contains_key(key@) {
                        let pairs = entry_pairs(self.entries@);
                        let j = choose|j: int|
                            0 <= j < pairs.len() && (#[trigger] pairs[j]).0 == key@;
                        assert(self.entries@[j].0@ != key@);
                    }
                }
                None
            },
        }
    }

    /// The map that a list of entries describes; of two entries with one key the later counts.
    pub fn from_entries(entries: Vec<(String, V)>) -> (map: Self)
        ensures
            map@ == pairs_map(entry_pairs(entries@)),
    {
        let ghost pairs = entry_pairs(entries@);
        let mut map: TextMap<V> = TextMap::new();
        let mut rest: Vec<(String, V)> = entries;
        let ghost mut done: int = 0;
        assert(pairs.take(0) == Seq::<(Seq<char>, V::V)>::empty());
        assert(pairs.skip(0) == pairs);
        while rest.len() > 0
            invariant
                0 <= done <= pairs.len(),
                entry_pairs(rest@) == pairs.skip(done),
                map@ == pairs_map(pairs.take(done)),
            decreases rest@.len(),
        {
            let ghost before = rest@;
            let (key, value) = rest.remove(0);
            proof {
                assert(entry_pairs(before).len() == before.len());
                assert(pairs.skip(done)[0] == pairs[done]);
                assert(entry_pairs(before)[0] == pairs[done]);
                assert(pairs.take(done + 1).drop_last() == pairs.take(done));
                assert(entry_pairs(rest@) == entry_pairs(before).skip(1));
                assert(pairs.skip(done).skip(1) == pairs.skip(done + 1));
                done = done + 1;
            }
            map.insert(key, value);
        }
        proof {
            assert(entry_pairs(rest@).len() == 0);
            assert(pairs.take(done) == pairs);
        }
        map
    }

    /// The entries of the map, each key once.
    pub fn into_entries(self) -> (entries: Vec<(String, V)>)
        ensures
            distinct_keys(entry_pairs(entries@)),
            pairs_map(entry_pairs(entries@)) == self@,
    {
        proof {
            use_type_invariant(&self);
        }
        self.entries
    }
}

impl TextMap<String> {
    /// A copy of the map.
    pub fn copy(&self) -> (map: Self)
        ensures
            map@ == self@,
    {
        let ghost pairs = entry_pairs(self.entries@);
        let mut entries: Vec<(String, String)> = Vec::new();
        let mut i: usize = 0;
        while i < self.entries.len()
            invariant
                i <= self.entries@.len(),
                entries@.len() == i,
                pairs == entry_pairs(self.entries@),
                forall|j: int|
                    0 <= j < i ==> (#[trigger] entries@[j]).0@ == pairs[j].0 && entries@[j].1@
                        == pairs[j].1,
            decreases self.entries@.len() - i,
        {
            entries.push((self.entries[i].0.clone(), self.entries[i].1.clone()));
            i = i + 1;
        }
        proof {
            use_type_invariant(self);
            assert(entry_pairs(entries@) =~= pairs);
        }
        TextMap { entries }
    }
}

/// The map of a list of entries has the value of the last entry of each key,
/// and no other keys.
pub proof fn law_entries<V: View>(entries: Seq<(String, V)>, i: int)
    requires
        0 <= i < entries.len(),
    ensures
        entry_pairs(entries).len() == entries.len(),
        entry_pairs(entries)[i] == (entries[i].0@, entries[i].1@),
        pairs_map(entry_pairs(entries)).contains_key(entries[i].0@),
        (forall|j: int| i < j < entries.len() ==> (#[trigger] entries[j]).0@ != entries[i].0@)
            ==> pairs_map(entry_pairs(entries))[entries[i].0@] == entries[i].1@,
        forall|key: Seq<char>| #[trigger]
            pairs_map(entry_pairs(entries)).contains_key(key) ==> exists|j: int|
                0 <= j < entries.len() && (#[trigger] entries[j]).0@ == key,
{
    let pairs = entry_pairs(entries);
    lemma_pairs_map_last(pairs, i);
    if forall|j: int| i < j < entries.len() ==> (#[trigger] entries[j]).0@ != entries[i].0@ {
        assert forall|j: int| i < j < pairs.len() implies (#[trigger] pairs[j]).0 != pairs[i].0 by {
            assert(entries[j].0@ != entries[i].0@);
        }
    }
    assert forall|key: Seq<char>| #[trigger]
        pairs_map(pairs).contains_key(key) implies exists|j: int|
        0 <= j < entries.len() && (#[trigger] entries[j]).0@ == key by {
        let j = lemma_pairs_map_origin(pairs, key);
        assert(entries[j].0@ == key);
    }
}

} // verus!
