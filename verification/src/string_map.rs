//! A map from text to text, kept as a list of pairs whose keys are distinct.

use crate::text::str_eq;
use vstd::prelude::*;
use vstd::string::*;

verus! {

/// The characters of each key and value of `entries`, in the same order.
pub open spec fn pairs_of(entries: Seq<(String, String)>) -> Seq<(Seq<char>, Seq<char>)> {
    Seq::new(entries.len(), |i: int| (entries[i].0@, entries[i].1@))
}

/// No two pairs have the same key.
pub open spec fn distinct_keys(pairs: Seq<(Seq<char>, Seq<char>)>) -> bool {
    forall|i: int, j: int| 0 <= i < j < pairs.len() ==> (#[trigger] pairs[i]).0 != (#[trigger] pairs[j]).0
}

/// `pairs[i]` is a pair for `key`.
pub open spec fn key_at(pairs: Seq<(Seq<char>, Seq<char>)>, key: Seq<char>, i: int) -> bool {
    0 <= i < pairs.len() && pairs[i].0 == key
}

/// The map that holds `pairs`: a key is present where some pair has it, with
/// the value of such a pair.
pub open spec fn map_of(pairs: Seq<(Seq<char>, Seq<char>)>) -> Map<Seq<char>, Seq<char>> {
    Map::new(
        |key: Seq<char>| exists|i: int| key_at(pairs, key, i),
        |key: Seq<char>| pairs[choose|i: int| key_at(pairs, key, i)].1,
    )
}

/// With distinct keys, each pair is an entry of the map.
pub proof fn lemma_map_of_pair(pairs: Seq<(Seq<char>, Seq<char>)>, i: int)
    requires
        distinct_keys(pairs),
        0 <= i < pairs.len(),
    ensures
        map_of(pairs).contains_key(pairs[i].0),
        map_of(pairs)[pairs[i].0] == pairs[i].1,
{
    let key = pairs[i].0;
    assert(key_at(pairs, key, i));
    let j = choose|j: int| key_at(pairs, key, j);
    assert(j == i) by {
        if j < i {
            assert(pairs[j].0 != pairs[i].0);
        } else if i < j {
            assert(pairs[i].0 != pairs[j].0);
        }
    }
}

/// A key that no pair has is absent from the map.
pub proof fn lemma_map_of_absent(pairs: Seq<(Seq<char>, Seq<char>)>, key: Seq<char>)
    requires
        forall|i: int| 0 <= i < pairs.len() ==> (#[trigger] pairs[i]).0 != key,
    ensures
        !map_of(pairs).contains_key(key),
{
    if map_of(pairs).contains_key(key) {
        let i = choose|i: int| key_at(pairs, key, i);
        assert(pairs[i].0 != key);
    }
}

/// Appending a pair with a new key inserts it into the map.
pub proof fn lemma_map_of_push(pairs: Seq<(Seq<char>, Seq<char>)>, key: Seq<char>, value: Seq<char>)
    requires
        distinct_keys(pairs),
        forall|i: int| 0 <= i < pairs.len() ==> (#[trigger] pairs[i]).0 != key,
    ensures
        distinct_keys(pairs.push((key, value))),
        map_of(pairs.push((key, value))) == map_of(pairs).insert(key, value),
{
    let after = pairs.push((key, value));
    assert(distinct_keys(after)) by {
        assert forall|i: int, j: int| 0 <= i < j < after.len() implies (#[trigger] after[i]).0 != (
        #[trigger] after[j]).0 by {
            assert(after[i] == pairs[i]);
            if j < pairs.len() {
                assert(after[j] == pairs[j]);
            }
        }
    }
    lemma_map_of_after_write(pairs, after, pairs.len() as int, key, value);
}

/// Replacing the value of the pair that has `key` replaces it in the map.
pub proof fn lemma_map_of_update(
    pairs: Seq<(Seq<char>, Seq<char>)>,
    i: int,
    key: Seq<char>,
    value: Seq<char>,
)
    requires
        distinct_keys(pairs),
        key_at(pairs, key, i),
    ensures
        distinct_keys(pairs.update(i, (key, value))),
        map_of(pairs.update(i, (key, value))) == map_of(pairs).insert(key, value),
{
    let after = pairs.update(i, (key, value));
    assert(distinct_keys(after)) by {
        assert forall|a: int, b: int| 0 <= a < b < after.len() implies (#[trigger] after[a]).0 != (
        #[trigger] after[b]).0 by {
            assert(after[a].0 == pairs[a].0);
            assert(after[b].0 == pairs[b].0);
        }
    }
    lemma_map_of_after_write(pairs, after, i, key, value);
}

/// With distinct keys, the map has as many entries as there are pairs.
pub proof fn lemma_map_of_len(pairs: Seq<(Seq<char>, Seq<char>)>)
    requires
        distinct_keys(pairs),
    ensures
        map_of(pairs).dom().finite(),
        map_of(pairs).len() == pairs.len(),
    decreases pairs.len(),
{
    if pairs.len() == 0 {
        assert(map_of(pairs) =~= Map::empty());
    } else {
        let front = pairs.drop_last();
        let last = pairs.last();
        assert(distinct_keys(front)) by {
            assert forall|i: int, j: int| 0 <= i < j < front.len() implies (#[trigger] front[i]).0
                != (#[trigger] front[j]).0 by {
                assert(front[i] == pairs[i]);
                assert(front[j] == pairs[j]);
            }
        }
        assert forall|i: int| 0 <= i < front.len() implies (#[trigger] front[i]).0 != last.0 by {
            assert(front[i] == pairs[i]);
            assert(pairs[i].0 != pairs[pairs.len() - 1].0);
        }
        lemma_map_of_len(front);
        lemma_map_of_absent(front, last.0);
        lemma_map_of_push(front, last.0, last.1);
        assert(front.push(last) =~= pairs);
    }
}

/// Where `after` has `(key, value)` at `at` and elsewhere the pairs of
/// `before`, none of which has `key`, its map is that of `before` with `key`
/// set to `value`.
proof fn lemma_map_of_after_write(
    before: Seq<(Seq<char>, Seq<char>)>,
    after: Seq<(Seq<char>, Seq<char>)>,
    at: int,
    key: Seq<char>,
    value: Seq<char>,
)
    requires
        distinct_keys(before),
        distinct_keys(after),
        0 <= at < after.len(),
        after[at] == (key, value),
        before.len() <= after.len() <= before.len() + 1,
        forall|i: int| 0 <= i < after.len() && i != at ==> i < before.len() && #[trigger] after[i] == before[i],
        forall|i: int| 0 <= i < before.len() && i != at ==> (#[trigger] before[i]).0 != key,
        at < before.len() ==> before[at].0 == key,
    ensures
        map_of(after) == map_of(before).insert(key, value),
{
    let expected = map_of(before).insert(key, value);
    assert forall|k: Seq<char>| map_of(after).contains_key(k) <==> expected.contains_key(k) by {
        if map_of(after).contains_key(k) {
            let i = choose|i: int| key_at(after, k, i);
            if i != at {
                assert(key_at(before, k, i));
            }
        }
        if expected.contains_key(k) {
            if k == key {
                assert(key_at(after, k, at));
            } else {
                let i = choose|i: int| key_at(before, k, i);
                assert(i != at);
                assert(after[i] == before[i]);
                assert(key_at(after, k, i));
            }
        }
    }
    assert forall|k: Seq<char>| map_of(after).contains_key(k) implies map_of(after)[k]
        == expected[k] by {
        let i = choose|i: int| key_at(after, k, i);
        lemma_map_of_pair(after, i);
        if i != at {
            assert(key_at(before, k, i));
            lemma_map_of_pair(before, i);
        }
    }
    assert(map_of(after) =~= expected);
}

/// A map from text to text.
///
/// Keys and values are compared by their characters. The pairs are kept in
/// the order in which their keys were first inserted.
#[derive(Debug)]
pub struct StringMap {
    entries: Vec<(String, String)>,
}

impl View for StringMap {
    type V = Map<Seq<char>, Seq<char>>;

    open spec fn view(&self) -> Map<Seq<char>, Seq<char>> {
        map_of(self.pairs())
    }
}

impl StringMap {
    /// The pairs of the map, in the order in which they are kept.
    pub closed spec fn pairs(&self) -> Seq<(Seq<char>, Seq<char>)> {
        pairs_of(self.entries@)
    }

    #[verifier::type_invariant]
    spec fn well_formed(&self) -> bool {
        distinct_keys(self.pairs())
    }

    /// The empty map.
    pub fn new() -> (map: StringMap)
        ensures
            map@ == Map::<Seq<char>, Seq<char>>::empty(),
            map.pairs() == Seq::<(Seq<char>, Seq<char>)>::empty(),
    {
        let map = StringMap { entries: Vec::new() };
        proof {
            assert(map.pairs() =~= Seq::empty());
            assert(map@ =~= Map::empty());
        }
        map
    }

    /// Number of keys.
    pub fn len(&self) -> (count: usize)
        ensures
            self@.dom().finite(),
            count == self@.len(),
            count == self.pairs().len(),
    {
        proof {
            use_type_invariant(self);
            lemma_map_of_len(self.pairs());
        }
        self.entries.len()
    }

    /// Index of the pair that has `key`, if there is one.
    fn position(&self, key: &str) -> (found: Option<usize>)
        ensures
            match found {
                Some(i) => key_at(self.pairs(), key@, i as int),
                None => forall|k: int|
                    0 <= k < self.pairs().len() ==> (#[trigger] self.pairs()[k]).0 != key@,
            },
    {
        let mut i: usize = 0;
        while i < self.entries.len()
            invariant
                i <= self.entries@.len(),
                forall|k: int| 0 <= k < i ==> (#[trigger] self.pairs()[k]).0 != key@,
            decreases self.entries@.len() - i,
        {
            if str_eq(self.entries[i].0.as_str(), key) {
                return Some(i);
            }
            i += 1;
        }
        None
    }

    /// The value stored for `key`, if there is one.
    pub fn get(&self, key: &str) -> (found: Option<&String>)
        ensures
            match found {
                Some(value) => self@.contains_key(key@) && value@ == self@[key@],
                None => !self@.contains_key(key@),
            },
    {
        proof {
            use_type_invariant(self);
        }
        match self.position(key) {
            Some(i) => {
                proof {
                    lemma_map_of_pair(self.pairs(), i as int);
                }
                Some(&self.entries[i].1)
            },
            None => {
                proof {
                    lemma_map_of_absent(self.pairs(), key@);
                }
                None
            },
        }
    }

    /// Sets the value of `key` to `value`, whether or not `key` was present.
    pub fn insert(&mut self, key: String, value: String)
        ensures
            final(self)@ == old(self)@.insert(key@, value@),
    {
        proof {
            use_type_invariant(&*self);
        }
        let found = self.position(key.as_str());
        // The list is changed outside `self`, which holds a list with
        // distinct keys at every moment.
        let mut entries: Vec<(String, String)> = Vec::new();
        core::mem::swap(&mut self.entries, &mut entries);
        match found {
            Some(i) => {
                proof {
                    lemma_map_of_update(pairs_of(entries@), i as int, key@, value@);
                    assert(pairs_of(entries@.update(i as int, (key, value))) =~= pairs_of(
                        entries@,
                    ).update(i as int, (key@, value@)));
                }
                entries[i] = (key, value);
            },
            None => {
                proof {
                    lemma_map_of_push(pairs_of(entries@), key@, value@);
                    assert(pairs_of(entries@.push((key, value))) =~= pairs_of(entries@).push(
                        (key@, value@),
                    ));
                }
                entries.push((key, value));
            },
        }
        core::mem::swap(&mut self.entries, &mut entries);
    }

    /// The pairs of the map, each key once.
    pub fn entries(&self) -> (entries: &Vec<(String, String)>)
        ensures
            pairs_of(entries@) == self.pairs(),
            distinct_keys(pairs_of(entries@)),
    {
        proof {
            use_type_invariant(self);
        }
        &self.entries
    }
}

} // verus!
