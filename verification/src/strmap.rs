//! A map keyed by strings, kept as a list of distinct keys.
//!
//! Its view is a `Map` from the key's characters to the value. Entries keep
//! the order in which their keys were first inserted.
use vstd::prelude::*;

use crate::text::str_eq;

verus! {

/// The map that a list of entries denotes: a later entry overrides an
/// earlier one with the same key.
pub open spec fn entries_map<V>(s: Seq<(String, V)>) -> Map<Seq<char>, V>
    decreases s.len(),
{
    if s.len() == 0 {
        Map::empty()
    } else {
        entries_map(s.drop_last()).insert(s.last().0@, s.last().1)
    }
}

/// No two entries share a key.
pub open spec fn keys_unique<V>(s: Seq<(String, V)>) -> bool {
    forall|i: int, j: int| 0 <= i < s.len() && 0 <= j < s.len() && i != j ==> s[i].0@ != s[j].0@
}

pub proof fn lemma_entries_map_dom<V>(s: Seq<(String, V)>, k: Seq<char>)
    ensures
        entries_map(s).contains_key(k) <==> exists|i: int| 0 <= i < s.len() && s[i].0@ == k,
    decreases s.len(),
{
    if s.len() > 0 {
        lemma_entries_map_dom(s.drop_last(), k);
        if entries_map(s.drop_last()).contains_key(k) {
            let i = choose|i: int| 0 <= i < s.drop_last().len() && s.drop_last()[i].0@ == k;
            assert(s[i].0@ == k);
        }
        if exists|i: int| 0 <= i < s.len() && s[i].0@ == k {
            let i = choose|i: int| 0 <= i < s.len() && s[i].0@ == k;
            if i < s.len() - 1 {
                assert(s.drop_last()[i].0@ == k);
            }
        }
    }
}

pub proof fn lemma_entries_map_at<V>(s: Seq<(String, V)>, i: int)
    requires
        keys_unique(s),
        0 <= i < s.len(),
    ensures
        entries_map(s).contains_key(s[i].0@),
        entries_map(s)[s[i].0@] == s[i].1,
    decreases s.len(),
{
    if i < s.len() - 1 {
        assert(keys_unique(s.drop_last()));
        assert(s.drop_last()[i] == s[i]);
        lemma_entries_map_at(s.drop_last(), i);
        assert(s.last().0@ != s[i].0@);
    }
}

pub proof fn lemma_entries_map_finite<V>(s: Seq<(String, V)>)
    ensures
        entries_map(s).dom().finite(),
    decreases s.len(),
{
    if s.len() > 0 {
        lemma_entries_map_finite(s.drop_last());
    }
}

pub proof fn lemma_entries_map_len<V>(s: Seq<(String, V)>)
    requires
        keys_unique(s),
    ensures
        entries_map(s).dom().finite(),
        entries_map(s).len() == s.len(),
    decreases s.len(),
{
    lemma_entries_map_finite(s);
    if s.len() > 0 {
        assert(keys_unique(s.drop_last()));
        lemma_entries_map_len(s.drop_last());
        lemma_entries_map_dom(s.drop_last(), s.last().0@);
        if entries_map(s.drop_last()).contains_key(s.last().0@) {
            let i = choose|i: int|
                0 <= i < s.drop_last().len() && s.drop_last()[i].0@ == s.last().0@;
            assert(s[i].0@ == s[s.len() - 1].0@);
        }
    }
}

pub proof fn lemma_entries_map_update<V>(s: Seq<(String, V)>, i: int, v: V)
    requires
        keys_unique(s),
        0 <= i < s.len(),
    ensures
        keys_unique(s.update(i, (s[i].0, v))),
        entries_map(s.update(i, (s[i].0, v))) == entries_map(s).insert(s[i].0@, v),
    decreases s.len(),
{
    let t = s.update(i, (s[i].0, v));
    if i == s.len() - 1 {
        assert(t.drop_last() =~= s.drop_last());
    } else {
        assert(keys_unique(s.drop_last()));
        lemma_entries_map_update(s.drop_last(), i, v);
        assert(t.drop_last() =~= s.drop_last().update(i, (s[i].0, v)));
        assert(s.last().0@ != s[i].0@);
        assert(entries_map(t) =~= entries_map(s).insert(s[i].0@, v));
    }
}

pub proof fn lemma_entries_map_remove<V>(s: Seq<(String, V)>, i: int)
    requires
        keys_unique(s),
        0 <= i < s.len(),
    ensures
        keys_unique(s.remove(i)),
        entries_map(s.remove(i)) == entries_map(s).remove(s[i].0@),
    decreases s.len(),
{
    let t = s.remove(i);
    assert forall|a: int, b: int| 0 <= a < t.len() && 0 <= b < t.len() && a != b implies t[a].0@
        != t[b].0@ by {
        let a2 = if a < i { a } else { a + 1 };
        let b2 = if b < i { b } else { b + 1 };
        assert(t[a] == s[a2]);
        assert(t[b] == s[b2]);
    }
    if i == s.len() - 1 {
        assert(t =~= s.drop_last());
        assert(keys_unique(s.drop_last()));
        lemma_entries_map_dom(s.drop_last(), s[i].0@);
        if entries_map(s.drop_last()).contains_key(s[i].0@) {
            let j = choose|j: int| 0 <= j < s.drop_last().len() && s.drop_last()[j].0@ == s[i].0@;
            assert(s[j].0@ == s[i].0@);
        }
        assert(entries_map(t) =~= entries_map(s).remove(s[i].0@));
    } else {
        assert(keys_unique(s.drop_last()));
        lemma_entries_map_remove(s.drop_last(), i);
        assert(t.drop_last() =~= s.drop_last().remove(i));
        assert(t.last() == s.last());
        assert(s.last().0@ != s[i].0@);
        assert(entries_map(t) =~= entries_map(s).remove(s[i].0@));
    }
}

/// A map from strings to values.
pub struct StrMap<V> {
    entries: Vec<(String, V)>,
}

impl<V> View for StrMap<V> {
    type V = Map<Seq<char>, V>;

    closed spec fn view(&self) -> Map<Seq<char>, V> {
        entries_map(self.entries@)
    }
}

impl<V> StrMap<V> {
    /// The entries, in insertion order.
    pub closed spec fn entry_seq(&self) -> Seq<(String, V)> {
        self.entries@
    }

    /// The keys are distinct.
    pub closed spec fn wf(&self) -> bool {
        keys_unique(self.entries@)
    }

    /// The view is the map that the entries denote, and the map is
    /// well formed exactly when the keys are distinct.
    pub proof fn lemma_view(&self)
        ensures
            self@ == entries_map(self.entry_seq()),
            self.wf() == keys_unique(self.entry_seq()),
    {
    }

    /// An empty map.
    pub fn new() -> (m: Self)
        ensures
            m.wf(),
            m@ == Map::<Seq<char>, V>::empty(),
            m.entry_seq().len() == 0,
    {
        StrMap { entries: Vec::new() }
    }

    /// The entries, in insertion order.
    pub fn entries(&self) -> (r: &Vec<(String, V)>)
        ensures
            r@ == self.entry_seq(),
    {
        &self.entries
    }

    /// The number of keys.
    pub fn len(&self) -> (n: usize)
        requires
            self.wf(),
        ensures
            n == self@.len(),
    {
        proof {
            lemma_entries_map_len(self.entries@);
        }
        self.entries.len()
    }

    /// The position of `k` among the entries.
    pub fn index_of(&self, k: &str) -> (r: Option<usize>)
        requires
            self.wf(),
        ensures
            match r {
                Some(i) => i < self.entry_seq().len() && self.entry_seq()[i as int].0@ == k@
                    && self@.contains_key(k@) && self@[k@] == self.entry_seq()[i as int].1,
                None => !self@.contains_key(k@),
            },
    {
        let mut i: usize = 0;
        while i < self.entries.len()
            invariant
                i <= self.entries@.len(),
                forall|j: int| 0 <= j < i ==> self.entries@[j].0@ != k@,
            decreases self.entries@.len() - i,
        {
            if str_eq(self.entries[i].0.as_str(), k) {
                proof {
                    lemma_entries_map_at(self.entries@, i as int);
                }
                return Some(i);
            }
            i = i + 1;
        }
        proof {
            lemma_entries_map_dom(self.entries@, k@);
        }
        None
    }

    /// `HashMap::get`.
    pub fn get(&self, k: &str) -> (r: Option<&V>)
        requires
            self.wf(),
        ensures
            match r {
                Some(v) => self@.contains_key(k@) && self@[k@] == *v,
                None => !self@.contains_key(k@),
            },
    {
        match self.index_of(k) {
            Some(i) => Some(&self.entries[i].1),
            None => None,
        }
    }

    /// `HashMap::contains_key`.
    pub fn contains_key(&self, k: &str) -> (b: bool)
        requires
            self.wf(),
        ensures
            b == self@.contains_key(k@),
    {
        match self.index_of(k) {
            Some(_) => true,
            None => false,
        }
    }

    /// `HashMap::insert`: a new key goes last, an existing key keeps its place.
    pub fn insert(&mut self, k: String, v: V)
        requires
            old(self).wf(),
        ensures
            final(self).wf(),
            final(self)@ == old(self)@.insert(k@, v),
            old(self)@.contains_key(k@) ==> final(self).entry_seq().len() == old(
                self,
            ).entry_seq().len(),
            !old(self)@.contains_key(k@) ==> final(self).entry_seq() == old(
                self,
            ).entry_seq().push((k, v)),
    {
        match self.index_of(k.as_str()) {
            Some(i) => {
                let ghost s = self.entries@;
                let (key, _) = self.entries.remove(i);
                self.entries.insert(i, (key, v));
                proof {
                    assert(self.entries@ =~= s.update(i as int, (s[i as int].0, v)));
                    lemma_entries_map_update(s, i as int, v);
                }
            },
            None => {
                let ghost s = self.entries@;
                proof {
                    lemma_entries_map_dom(s, k@);
                }
                self.entries.push((k, v));
                proof {
                    assert(self.entries@.drop_last() =~= s);
                }
            },
        }
    }

    /// Replaces the value at position `i`, keeping its key.
    pub fn set_at(&mut self, i: usize, v: V)
        requires
            old(self).wf(),
            i < old(self).entry_seq().len(),
        ensures
            final(self).wf(),
            final(self)@ == old(self)@.insert(old(self).entry_seq()[i as int].0@, v),
            final(self).entry_seq().len() == old(self).entry_seq().len(),
    {
        let ghost s = self.entries@;
        let (key, _) = self.entries.remove(i);
        self.entries.insert(i, (key, v));
        proof {
            assert(self.entries@ =~= s.update(i as int, (s[i as int].0, v)));
            lemma_entries_map_update(s, i as int, v);
        }
    }

    /// Takes the value at position `i` out, leaving `filler` in its place.
    pub fn replace_at(&mut self, i: usize, filler: V) -> (r: V)
        requires
            old(self).wf(),
            i < old(self).entry_seq().len(),
        ensures
            final(self).wf(),
            r == old(self).entry_seq()[i as int].1,
            final(self)@ == old(self)@.insert(old(self).entry_seq()[i as int].0@, filler),
            final(self).entry_seq().len() == old(self).entry_seq().len(),
    {
        let ghost s = self.entries@;
        let (key, old_v) = self.entries.remove(i);
        self.entries.insert(i, (key, filler));
        proof {
            assert(self.entries@ =~= s.update(i as int, (s[i as int].0, filler)));
            lemma_entries_map_update(s, i as int, filler);
        }
        old_v
    }

    /// Removes the entry at position `i`; the other entries keep their order.
    pub fn remove_at(&mut self, i: usize) -> (r: (String, V))
        requires
            old(self).wf(),
            i < old(self).entry_seq().len(),
        ensures
            final(self).wf(),
            r == old(self).entry_seq()[i as int],
            final(self)@ == old(self)@.remove(old(self).entry_seq()[i as int].0@),
            final(self).entry_seq() == old(self).entry_seq().remove(i as int),
    {
        proof {
            lemma_entries_map_remove(self.entries@, i as int);
        }
        self.entries.remove(i)
    }

    /// `HashMap::clear`.
    pub fn clear(&mut self)
        ensures
            final(self).wf(),
            final(self)@ == Map::<Seq<char>, V>::empty(),
            final(self).entry_seq().len() == 0,
    {
        self.entries = Vec::new();
    }
}

} // verus!
