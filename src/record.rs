//! A record of named text fields, such as one row of an agent's table.
use vstd::prelude::*;
use crate::assoc::{
    assoc_map, keys_of, keys_unique, lemma_assoc_absent, lemma_assoc_dom, lemma_assoc_at, lemma_assoc_push, lemma_assoc_remove,
    lemma_assoc_update,
};

verus! {

pub open spec fn pair_views(e: Seq<(String, String)>) -> Seq<(Seq<char>, Seq<char>)> {
    e.map_values(|p: (String, String)| (p.0@, p.1@))
}

/// Named text fields; a name occurs at most once.
#[derive(Debug, Clone)]
pub struct Record {
    entries: Vec<(String, String)>,
}

impl View for Record {
    type V = Map<Seq<char>, Seq<char>>;

    closed spec fn view(&self) -> Map<Seq<char>, Seq<char>> {
        assoc_map(pair_views(self.entries@))
    }
}

impl Record {
    /// No two fields share a name.
    pub closed spec fn wf(&self) -> bool {
        keys_unique(pair_views(self.entries@))
    }

    /// A record without fields.
    pub fn new() -> (r: Record)
        ensures
            r.wf(),
            r@ == Map::<Seq<char>, Seq<char>>::empty(),
    {
        let r = Record { entries: Vec::new() };
        assert(pair_views(r.entries@) =~= Seq::empty());
        r
    }

    /// Position of the field named `key`.
    fn position(&self, key: &String) -> (r: Option<usize>)
        ensures
            r matches Some(i) ==> i < self.entries@.len() && pair_views(self.entries@)[i as int].0 == key@,
            r is None ==> forall|i: int|
                0 <= i < self.entries@.len() ==> (#[trigger] pair_views(self.entries@)[i]).0 != key@,
    {
        let mut i: usize = 0;
        while i < self.entries.len()
            invariant
                i <= self.entries@.len(),
                forall|j: int| 0 <= j < i ==> (#[trigger] pair_views(self.entries@)[j]).0 != key@,
            decreases self.entries@.len() - i,
        {
            if self.entries[i].0 == *key {
                return Some(i);
            }
            i = i + 1;
        }
        None
    }

    /// The value of the field named `key`.
    pub fn get(&self, key: &str) -> (r: Option<&String>)
        requires
            self.wf(),
        ensures
            self@.contains_key(key@) ==> (r matches Some(v) && v@ == self@[key@]),
            !self@.contains_key(key@) ==> r is None,
    {
        let k = String::from_str(key);
        match self.position(&k) {
            Some(i) => {
                proof {
                    lemma_assoc_at(pair_views(self.entries@), i as int);
                }
                Some(&self.entries[i].1)
            },
            None => {
                proof {
                    lemma_assoc_absent(pair_views(self.entries@), key@);
                }
                None
            },
        }
    }

    /// Whether a field is named `key`.
    pub fn contains_key(&self, key: &str) -> (r: bool)
        requires
            self.wf(),
        ensures
            r == self@.contains_key(key@),
    {
        self.get(key).is_some()
    }

    /// Sets the field `key` to `value`, replacing any earlier value.
    pub fn insert(&mut self, key: String, value: String)
        requires
            old(self).wf(),
        ensures
            final(self).wf(),
            final(self)@ == old(self)@.insert(key@, value@),
    {
        let ghost e = pair_views(self.entries@);
        match self.position(&key) {
            Some(i) => {
                proof {
                    lemma_assoc_update(e, i as int, value@);
                }
                self.entries.remove(i);
                self.entries.insert(i, (key, value));
                assert(pair_views(self.entries@) =~= e.update(i as int, (e[i as int].0, value@)));
            },
            None => {
                proof {
                    lemma_assoc_push(e, key@, value@);
                }
                self.entries.push((key, value));
                assert(pair_views(self.entries@) =~= e.push((key@, value@)));
            },
        }
    }

    /// Removes the field `key`, returning its value.
    pub fn remove(&mut self, key: &str) -> (r: Option<String>)
        requires
            old(self).wf(),
        ensures
            final(self).wf(),
            final(self)@ == old(self)@.remove(key@),
            old(self)@.contains_key(key@) ==> (r matches Some(v) && v@ == old(self)@[key@]),
            !old(self)@.contains_key(key@) ==> r is None,
    {
        let ghost e = pair_views(self.entries@);
        let k = String::from_str(key);
        match self.position(&k) {
            Some(i) => {
                proof {
                    lemma_assoc_at(e, i as int);
                    lemma_assoc_remove(e, i as int);
                }
                let (_, v) = self.entries.remove(i);
                assert(pair_views(self.entries@) =~= e.remove(i as int));
                Some(v)
            },
            None => {
                proof {
                    lemma_assoc_absent(e, key@);
                    assert(old(self)@.remove(key@) =~= old(self)@);
                }
                None
            },
        }
    }

    /// Sets every field of `other` here, replacing earlier values.
    pub fn extend(&mut self, other: &Record)
        requires
            old(self).wf(),
        ensures
            final(self).wf(),
            final(self)@ == old(self)@.union_prefer_right(other@),
    {
        let ghost o = pair_views(other.entries@);
        let mut i: usize = 0;
        while i < other.entries.len()
            invariant
                o == pair_views(other.entries@),
                i <= o.len(),
                self.wf(),
                self@ == old(self)@.union_prefer_right(assoc_map(o.subrange(0, i as int))),
            decreases o.len() - i,
        {
            let ghost before = self@;
            assert(o.subrange(0, i + 1).drop_last() =~= o.subrange(0, i as int));
            let key = other.entries[i].0.clone();
            let value = other.entries[i].1.clone();
            self.insert(key, value);
            assert(self@ =~= old(self)@.union_prefer_right(assoc_map(o.subrange(0, i + 1))));
            i = i + 1;
        }
        assert(o.subrange(0, o.len() as int) =~= o);
    }

    /// Number of fields.
    pub fn len(&self) -> (r: usize)
        requires
            self.wf(),
        ensures
            r == self@.dom().len(),
    {
        proof {
            let e = pair_views(self.entries@);
            lemma_assoc_dom(e);
            assert(keys_of(e).no_duplicates());
            keys_of(e).unique_seq_to_set();
        }
        self.entries.len()
    }

    /// A record with the same fields.
    pub fn copy(&self) -> (r: Record)
        ensures
            r.wf(),
            r@ == self@,
    {
        let mut r = Record::new();
        r.extend(self);
        assert(r@ =~= self@);
        r
    }
}

} // verus!
