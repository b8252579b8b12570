//! A small string-keyed map kept as a vector of pairs. Rooms use it for the
//! vote map, the directory for the participant-to-room assignment. Its
//! contracts speak of the `Map` the entries denote; the entry order is
//! internal.

use crate::assoc::{
    assoc_map, distinct_keys, lemma_assoc_map_dom, lemma_assoc_map_index, lemma_assoc_map_len,
    lemma_assoc_map_push, lemma_assoc_map_remove, lemma_assoc_map_update,
};
use vstd::prelude::*;

verus! {

/// The map without every key that carries this value.
pub open spec fn without_value(
    m: Map<Seq<char>, Seq<char>>,
    value: Seq<char>,
) -> Map<Seq<char>, Seq<char>> {
    Map::new(|k: Seq<char>| m.dom().contains(k) && m[k] != value, |k: Seq<char>| m[k])
}

/// The key/value pairs of a pair vector, as character sequences.
pub open spec fn pair_seq_view(s: Seq<(String, String)>) -> Seq<(Seq<char>, Seq<char>)> {
    s.map_values(|p: (String, String)| (p.0@, p.1@))
}

pub struct StrMap {
    entries: Vec<(String, String)>,
}

impl View for StrMap {
    type V = Map<Seq<char>, Seq<char>>;

    closed spec fn view(&self) -> Map<Seq<char>, Seq<char>> {
        assoc_map(pair_seq_view(self.entries@))
    }
}

impl StrMap {
    /// Internal soundness of the container: no key occurs twice among the
    /// entries. Established by `new` and preserved by every operation.
    pub closed spec fn wf(self) -> bool {
        distinct_keys(pair_seq_view(self.entries@))
    }

    pub fn new() -> (r: StrMap)
        ensures
            r.wf(),
            r@ == Map::<Seq<char>, Seq<char>>::empty(),
    {
        StrMap { entries: Vec::new() }
    }

    /// The entry index carrying the key, if any.
    fn index_of(&self, key: &String) -> (r: Option<usize>)
        requires
            self.wf(),
        ensures
            match r {
                Some(i) => i < self.entries@.len() && self.entries@[i as int].0@ == key@
                    && self@.dom().contains(key@) && self@[key@] == self.entries@[i as int].1@,
                None => !self@.dom().contains(key@),
            },
    {
        let ghost s = pair_seq_view(self.entries@);
        let mut i: usize = 0;
        while i < self.entries.len()
            invariant
                i <= self.entries@.len(),
                s == pair_seq_view(self.entries@),
                distinct_keys(s),
                forall|j: int| 0 <= j < i ==> s[j].0 != key@,
            decreases self.entries@.len() - i,
        {
            if self.entries[i].0 == *key {
                proof {
                    lemma_assoc_map_index(s, i as int);
                }
                return Some(i);
            }
            i += 1;
        }
        proof {
            lemma_assoc_map_dom(s, key@);
        }
        None
    }

    pub fn contains_key(&self, key: &String) -> (r: bool)
        requires
            self.wf(),
        ensures
            r == self@.dom().contains(key@),
    {
        self.index_of(key).is_some()
    }

    pub fn get(&self, key: &String) -> (r: Option<&String>)
        requires
            self.wf(),
        ensures
            match r {
                Some(v) => self@.dom().contains(key@) && v@ == self@[key@],
                None => !self@.dom().contains(key@),
            },
    {
        match self.index_of(key) {
            Some(i) => Some(&self.entries[i].1),
            None => None,
        }
    }

    /// The number of keys.
    pub fn len(&self) -> (r: usize)
        requires
            self.wf(),
        ensures
            r == self@.dom().len(),
            self@.dom().finite(),
    {
        proof {
            lemma_assoc_map_len(pair_seq_view(self.entries@));
        }
        self.entries.len()
    }

    /// Adds the pair, replacing any earlier value under the same key.
    pub fn insert(&mut self, key: String, value: String)
        requires
            old(self).wf(),
        ensures
            final(self).wf(),
            final(self)@ == old(self)@.insert(key@, value@),
    {
        let ghost s = pair_seq_view(self.entries@);
        match self.index_of(&key) {
            Some(i) => {
                proof {
                    lemma_assoc_map_update(s, i as int, value@);
                }
                self.entries.set(i, (key, value));
                proof {
                    assert(pair_seq_view(self.entries@) =~= s.update(
                        i as int,
                        (s[i as int].0, value@),
                    ));
                }
            },
            None => {
                proof {
                    lemma_assoc_map_push(s, key@, value@);
                    lemma_assoc_map_dom(s, key@);
                }
                self.entries.push((key, value));
                proof {
                    assert(pair_seq_view(self.entries@) =~= s.push(
                        (
                            self.entries@.last().0@,
                            self.entries@.last().1@,
                        ),
                    ));
                }
            },
        }
    }

    /// Drops the key; a no-op when it is absent.
    pub fn remove(&mut self, key: &String)
        requires
            old(self).wf(),
        ensures
            final(self).wf(),
            final(self)@ == old(self)@.remove(key@),
    {
        let ghost s = pair_seq_view(self.entries@);
        match self.index_of(key) {
            Some(i) => {
                proof {
                    lemma_assoc_map_remove(s, i as int);
                }
                self.entries.remove(i);
                proof {
                    assert(pair_seq_view(self.entries@) =~= s.remove(i as int));
                }
            },
            None => {
                proof {
                    assert(old(self)@.remove(key@) =~= old(self)@);
                }
            },
        }
    }

    /// Drops every key that carries the given value.
    pub fn remove_by_value(&mut self, value: &String)
        requires
            old(self).wf(),
        ensures
            final(self).wf(),
            final(self)@ == without_value(old(self)@, value@),
    {
        let ghost m0 = self@;
        let mut i: usize = 0;
        while i < self.entries.len()
            invariant
                distinct_keys(pair_seq_view(self.entries@)),
                i <= self.entries@.len(),
                forall|j: int| 0 <= j < i ==> pair_seq_view(self.entries@)[j].1 != value@,
                forall|k: Seq<char>| #[trigger]
                    self@.dom().contains(k) ==> m0.dom().contains(k) && self@[k] == m0[k],
                forall|k: Seq<char>| #[trigger]
                    m0.dom().contains(k) && m0[k] != value@ ==> self@.dom().contains(k),
            decreases self.entries@.len() - i,
        {
            let ghost s = pair_seq_view(self.entries@);
            let ghost prev = self@;
            if self.entries[i].1 == *value {
                proof {
                    lemma_assoc_map_index(s, i as int);
                    lemma_assoc_map_remove(s, i as int);
                }
                self.entries.remove(i);
                proof {
                    assert(pair_seq_view(self.entries@) =~= s.remove(i as int));
                    assert(self@ == prev.remove(s[i as int].0));
                    assert forall|k: Seq<char>| #[trigger] self@.dom().contains(k) implies
                        m0.dom().contains(k) && self@[k] == m0[k] by {
                        assert(prev.dom().contains(k));
                    }
                    assert forall|k: Seq<char>| #[trigger]
                        m0.dom().contains(k) && m0[k] != value@ implies self@.dom().contains(
                        k,
                    ) by {
                        assert(prev.dom().contains(k) && prev[k] == m0[k]);
                        assert(k != s[i as int].0);
                    }
                }
            } else {
                proof {
                    lemma_assoc_map_index(s, i as int);
                }
                i += 1;
            }
        }
        proof {
            let s = pair_seq_view(self.entries@);
            assert forall|k: Seq<char>| #[trigger] self@.dom().contains(k) implies self@[k]
                != value@ by {
                lemma_assoc_map_dom(s, k);
                let j = choose|j: int| 0 <= j < s.len() && s[j].0 == k;
                lemma_assoc_map_index(s, j);
            }
            assert(self@ =~= without_value(m0, value@));
        }
    }

    /// A copy of the entries. The pairs denote exactly this map, with one
    /// pair per key.
    pub fn to_pairs(&self) -> (r: Vec<(String, String)>)
        requires
            self.wf(),
        ensures
            assoc_map(pair_seq_view(r@)) == self@,
            distinct_keys(pair_seq_view(r@)),
            r@.len() == self@.dom().len(),
    {
        proof {
            lemma_assoc_map_len(pair_seq_view(self.entries@));
        }
        let ghost s = pair_seq_view(self.entries@);
        let mut r: Vec<(String, String)> = Vec::new();
        let mut i: usize = 0;
        while i < self.entries.len()
            invariant
                i <= self.entries@.len(),
                s == pair_seq_view(self.entries@),
                pair_seq_view(r@) =~= s.take(i as int),
            decreases self.entries@.len() - i,
        {
            let pair = (self.entries[i].0.clone(), self.entries[i].1.clone());
            r.push(pair);
            proof {
                assert(pair_seq_view(r@) =~= s.take(i as int).push(s[i as int]));
                assert(s.take(i + 1 as int) =~= s.take(i as int).push(s[i as int]));
            }
            i += 1;
        }
        proof {
            assert(s.take(self.entries@.len() as int) =~= s);
        }
        r
    }
}

} // verus!
