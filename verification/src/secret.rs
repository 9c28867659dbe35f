//! The secret document: string values under string keys, each key once.

use vstd::prelude::*;
use vstd::string::*;

verus! {

/// The map that a list of pairs spells out when each pair is entered in
/// turn, so that a later pair replaces an earlier one with the same key.
pub open spec fn pairs_map(pairs: Seq<(Seq<char>, Seq<char>)>) -> Map<Seq<char>, Seq<char>>
    decreases pairs.len(),
{
    if pairs.len() == 0 {
        Map::empty()
    } else {
        pairs_map(pairs.drop_last()).insert(pairs.last().0, pairs.last().1)
    }
}

/// No key stands in two pairs.
pub open spec fn distinct_keys(pairs: Seq<(Seq<char>, Seq<char>)>) -> bool {
    forall|i: int, j: int| 0 <= i < j < pairs.len() ==> pairs[i].0 != pairs[j].0
}

/// The texts of the keys and values that a vector of pairs holds.
pub open spec fn pair_texts(entries: Seq<(String, String)>) -> Seq<(Seq<char>, Seq<char>)> {
    Seq::new(entries.len(), |i: int| (entries[i].0@, entries[i].1@))
}

/// A key is in the map of a list exactly if a pair of the list has it.
pub proof fn lemma_pairs_map_keys(pairs: Seq<(Seq<char>, Seq<char>)>, key: Seq<char>)
    ensures
        pairs_map(pairs).dom().contains(key) <==> exists|i: int|
            0 <= i < pairs.len() && #[trigger] pairs[i].0 == key,
    decreases pairs.len(),
{
    if pairs.len() > 0 {
        let shorter = pairs.drop_last();
        lemma_pairs_map_keys(shorter, key);
        if pairs_map(pairs).dom().contains(key) {
            if pairs.last().0 == key {
                assert(pairs[pairs.len() - 1].0 == key);
            } else {
                let i = choose|i: int| 0 <= i < shorter.len() && #[trigger] shorter[i].0 == key;
                assert(pairs[i].0 == key);
            }
        }
        if exists|i: int| 0 <= i < pairs.len() && #[trigger] pairs[i].0 == key {
            let i = choose|i: int| 0 <= i < pairs.len() && #[trigger] pairs[i].0 == key;
            if i < pairs.len() - 1 {
                assert(shorter[i].0 == key);
            }
        }
    }
}

/// Where no key stands twice, the map holds under each pair's key that
/// pair's value.
pub proof fn lemma_pairs_map_value(pairs: Seq<(Seq<char>, Seq<char>)>, index: int)
    requires
        distinct_keys(pairs),
        0 <= index < pairs.len(),
    ensures
        pairs_map(pairs).dom().contains(pairs[index].0),
        pairs_map(pairs)[pairs[index].0] == pairs[index].1,
    decreases pairs.len(),
{
    let shorter = pairs.drop_last();
    if index < pairs.len() - 1 {
        assert(distinct_keys(shorter)) by {
            assert forall|i: int, j: int| 0 <= i < j < shorter.len() implies shorter[i].0
                != shorter[j].0 by {
                assert(pairs[i].0 != pairs[j].0);
            }
        }
        lemma_pairs_map_value(shorter, index);
        assert(pairs[index].0 != pairs[pairs.len() - 1].0);
    }
}

/// Where no key stands twice, the map has as many keys as the list has
/// pairs.
pub proof fn lemma_pairs_map_len(pairs: Seq<(Seq<char>, Seq<char>)>)
    requires
        distinct_keys(pairs),
    ensures
        pairs_map(pairs).dom().finite(),
        pairs_map(pairs).dom().len() == pairs.len(),
    decreases pairs.len(),
{
    if pairs.len() > 0 {
        let shorter = pairs.drop_last();
        assert(distinct_keys(shorter)) by {
            assert forall|i: int, j: int| 0 <= i < j < shorter.len() implies shorter[i].0
                != shorter[j].0 by {
                assert(pairs[i].0 != pairs[j].0);
            }
        }
        lemma_pairs_map_len(shorter);
        lemma_pairs_map_keys(shorter, pairs.last().0);
        if pairs_map(shorter).dom().contains(pairs.last().0) {
            let i = choose|i: int|
                0 <= i < shorter.len() && #[trigger] shorter[i].0 == pairs.last().0;
            assert(pairs[i].0 != pairs[pairs.len() - 1].0);
        }
    }
}

/// Replacing the value of one pair replaces it in the map, where no key
/// stands twice.
pub proof fn lemma_pairs_map_update(
    pairs: Seq<(Seq<char>, Seq<char>)>,
    index: int,
    value: Seq<char>,
)
    requires
        distinct_keys(pairs),
        0 <= index < pairs.len(),
    ensures
        pairs_map(pairs.update(index, (pairs[index].0, value))) == pairs_map(pairs).insert(
            pairs[index].0,
            value,
        ),
    decreases pairs.len(),
{
    let changed = pairs.update(index, (pairs[index].0, value));
    let shorter = pairs.drop_last();
    if index == pairs.len() - 1 {
        assert(changed.drop_last() =~= shorter);
        assert(pairs_map(changed) =~= pairs_map(pairs).insert(pairs[index].0, value));
    } else {
        assert(distinct_keys(shorter)) by {
            assert forall|i: int, j: int| 0 <= i < j < shorter.len() implies shorter[i].0
                != shorter[j].0 by {
                assert(pairs[i].0 != pairs[j].0);
            }
        }
        lemma_pairs_map_update(shorter, index, value);
        assert(changed.drop_last() =~= shorter.update(index, (shorter[index].0, value)));
        assert(pairs[index].0 != pairs[pairs.len() - 1].0);
        assert(pairs_map(changed) =~= pairs_map(pairs).insert(pairs[index].0, value));
    }
}

/// A secret document: a mapping from string keys to string values. Its view
/// is that mapping.
#[derive(Debug)]
pub struct Secret {
    entries: Vec<(String, String)>,
}

impl View for Secret {
    type V = Map<Seq<char>, Seq<char>>;

    closed spec fn view(&self) -> Map<Seq<char>, Seq<char>> {
        pairs_map(pair_texts(self.entries@))
    }
}

impl Secret {
    #[verifier::type_invariant]
    spec fn keys_are_distinct(&self) -> bool {
        distinct_keys(pair_texts(self.entries@))
    }

    /// The empty document.
    pub fn new() -> (secret: Secret)
        ensures
            secret@ == Map::<Seq<char>, Seq<char>>::empty(),
    {
        let secret = Secret { entries: Vec::new() };
        assert(pair_texts(secret.entries@) =~= Seq::empty());
        secret
    }

    /// Where in the entries `key` stands, if it does.
    fn position(&self, key: &String) -> (found: Option<usize>)
        ensures
            match found {
                Some(index) => index < self.entries@.len() && self.entries@[index as int].0@
                    == key@,
                None => forall|i: int| 0 <= i < self.entries@.len() ==> self.entries@[i].0@ != key@,
            },
    {
        let mut index: usize = 0;
        while index < self.entries.len()
            invariant
                index <= self.entries@.len(),
                forall|i: int| 0 <= i < index ==> self.entries@[i].0@ != key@,
            decreases self.entries@.len() - index,
        {
            if self.entries[index].0 == *key {
                return Some(index);
            }
            index = index + 1;
        }
        None
    }

    /// Enters `value` under `key`. A value that stood under the key before
    /// is replaced.
    pub fn insert(&mut self, key: String, value: String)
        ensures
            final(self)@ == old(self)@.insert(key@, value@),
    {
        proof {
            use_type_invariant(&*self);
        }
        let ghost before = pair_texts(self.entries@);
        let found = self.position(&key);
        let mut taken = Secret::new();
        std::mem::swap(self, &mut taken);
        let mut entries = taken.entries;
        match found {
            Some(index) => {
                entries.set(index, (key, value));
                proof {
                    let after = pair_texts(entries@);
                    assert(after =~= before.update(index as int, (before[index as int].0, value@)));
                    lemma_pairs_map_update(before, index as int, value@);
                    assert(distinct_keys(after));
                }
            },
            None => {
                entries.push((key, value));
                proof {
                    let after = pair_texts(entries@);
                    assert(after.drop_last() =~= before);
                    assert(after.last() == (key@, value@));
                    assert forall|i: int, j: int| 0 <= i < j < after.len() implies after[i].0
                        != after[j].0 by {
                        assert(before[i].0 != key@);
                        if j < before.len() {
                            assert(before[i].0 != before[j].0);
                        }
                    }
                }
            },
        }
        *self = Secret { entries };
    }

    /// The value under `key`, if the document has the key.
    pub fn get(&self, key: &str) -> (value: Option<&String>)
        ensures
            match value {
                Some(text) => self@.dom().contains(key@) && self@[key@] == text@,
                None => !self@.dom().contains(key@),
            },
    {
        proof {
            use_type_invariant(self);
            lemma_pairs_map_keys(pair_texts(self.entries@), key@);
        }
        let wanted = String::from_str(key);
        match self.position(&wanted) {
            Some(index) => {
                proof {
                    lemma_pairs_map_value(pair_texts(self.entries@), index as int);
                }
                Some(&self.entries[index].1)
            },
            None => None,
        }
    }

    /// The number of keys.
    pub fn len(&self) -> (count: usize)
        ensures
            self@.dom().finite(),
            count == self@.dom().len(),
    {
        proof {
            use_type_invariant(self);
            lemma_pairs_map_len(pair_texts(self.entries@));
        }
        self.entries.len()
    }

    /// Whether the document has no key at all.
    pub fn is_empty(&self) -> (empty: bool)
        ensures
            empty == (self@ == Map::<Seq<char>, Seq<char>>::empty()),
    {
        proof {
            use_type_invariant(self);
            lemma_pairs_map_len(pair_texts(self.entries@));
            if self.entries@.len() == 0 {
                assert(self@ =~= Map::<Seq<char>, Seq<char>>::empty());
            }
        }
        self.entries.len() == 0
    }

    /// Hands the document out as pairs, each key once, for a caller that
    /// keeps it in a map of its own.
    pub fn into_pairs(self) -> (pairs: Vec<(String, String)>)
        ensures
            distinct_keys(pair_texts(pairs@)),
            pairs_map(pair_texts(pairs@)) == self@,
    {
        proof {
            use_type_invariant(&self);
        }
        self.entries
    }
}

} // verus!
