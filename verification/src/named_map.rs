//! A map from names to values that keeps its entries in insertion order.

use vstd::prelude::*;

use crate::text::str_eq;

verus! {

/// The map that a list of (name, value) entries denotes; later entries win.
pub open spec fn entries_map<V>(s: Seq<(String, V)>) -> Map<Seq<char>, V>
    decreases s.len(),
{
    if s.len() == 0 {
        Map::empty()
    } else {
        entries_map(s.drop_last()).insert(s.last().0@, s.last().1)
    }
}

/// No two entries share a name.
pub open spec fn unique_keys<V>(s: Seq<(String, V)>) -> bool {
    forall|i: int, j: int| 0 <= i < j < s.len() ==> s[i].0@ != s[j].0@
}

proof fn lemma_entries_map_lookup<V>(s: Seq<(String, V)>, i: int)
    requires
        0 <= i < s.len(),
        forall|j: int| i < j < s.len() ==> (#[trigger] s[j]).0@ != s[i].0@,
    ensures
        entries_map(s).contains_key(s[i].0@),
        entries_map(s)[s[i].0@] == s[i].1,
    decreases s.len(),
{
    if i < s.len() - 1 {
        assert(s.last() == s[s.len() - 1]);
        lemma_entries_map_lookup(s.drop_last(), i);
    }
}

proof fn lemma_entries_map_absent<V>(s: Seq<(String, V)>, k: Seq<char>)
    requires
        forall|i: int| 0 <= i < s.len() ==> (#[trigger] s[i]).0@ != k,
    ensures
        !entries_map(s).contains_key(k),
    decreases s.len(),
{
    if s.len() > 0 {
        lemma_entries_map_absent(s.drop_last(), k);
    }
}

proof fn lemma_entries_map_keys<V>(s: Seq<(String, V)>, k: Seq<char>)
    requires
        entries_map(s).contains_key(k),
    ensures
        exists|i: int| 0 <= i < s.len() && (#[trigger] s[i]).0@ == k,
    decreases s.len(),
{
    if s.len() > 0 && s.last().0@ != k {
        lemma_entries_map_keys(s.drop_last(), k);
        let i = choose|i: int| 0 <= i < s.drop_last().len() && (#[trigger] s.drop_last()[i]).0@ == k;
        assert(s[i] == s.drop_last()[i]);
    }
}

proof fn lemma_entries_map_update<V>(s: Seq<(String, V)>, i: int, e: (String, V))
    requires
        0 <= i < s.len(),
        forall|j: int| i < j < s.len() ==> (#[trigger] s[j]).0@ != s[i].0@,
        e.0@ == s[i].0@,
    ensures
        entries_map(s.update(i, e)) == entries_map(s).insert(e.0@, e.1),
    decreases s.len(),
{
    let t = s.update(i, e);
    if i == s.len() - 1 {
        assert(t.drop_last() =~= s.drop_last());
        assert(entries_map(t) =~= entries_map(s).insert(e.0@, e.1));
    } else {
        assert(t.drop_last() =~= s.drop_last().update(i, e));
        assert(s.last() == s[s.len() - 1]);
        lemma_entries_map_update(s.drop_last(), i, e);
        assert(s.last().0@ != e.0@);
        assert(entries_map(t) =~= entries_map(s).insert(e.0@, e.1));
    }
}

/// A map from names to values; each name occurs once.
#[derive(Debug)]
pub struct NamedMap<V> {
    entries: Vec<(String, V)>,
}

impl<V> NamedMap<V> {
    /// Each name occurs in one entry only.
    pub closed spec fn wf(&self) -> bool {
        unique_keys(self.entries@)
    }

    /// The entries, in insertion order.
    pub closed spec fn entries(&self) -> Seq<(String, V)> {
        self.entries@
    }

    /// The map from names to values.
    pub open spec fn map(&self) -> Map<Seq<char>, V> {
        entries_map(self.entries())
    }

    /// An empty map.
    pub fn new() -> (m: Self)
        ensures
            m.wf(),
            m.map() == Map::<Seq<char>, V>::empty(),
            m.entries().len() == 0,
    {
        NamedMap { entries: Vec::new() }
    }

    /// Position of the last entry named `key`.
    fn position(&self, key: &str) -> (r: Option<usize>)
        ensures
            match r {
                Some(i) => i < self.entries@.len() && self.entries@[i as int].0@ == key@ && forall|j: int|
                    i < j < self.entries@.len() ==> (#[trigger] self.entries@[j]).0@ != key@,
                None => forall|i: int| 0 <= i < self.entries@.len() ==> (#[trigger] self.entries@[i]).0@ != key@,
            },
    {
        let mut i: usize = self.entries.len();
        while i > 0
            invariant
                i <= self.entries@.len(),
                forall|k: int| i <= k < self.entries@.len() ==> (#[trigger] self.entries@[k]).0@ != key@,
            decreases i,
        {
            if str_eq(self.entries[i - 1].0.as_str(), key) {
                return Some(i - 1);
            }
            i -= 1;
        }
        None
    }

    /// Binds `key` to `value`, replacing any earlier value of that name.
    pub fn insert(&mut self, key: String, value: V)
        ensures
            old(self).wf() ==> final(self).wf(),
            final(self).map() == old(self).map().insert(key@, value),
    {
        let ghost old_entries = self.entries@;
        match self.position(key.as_str()) {
            Some(i) => {
                proof {
                    lemma_entries_map_update(old_entries, i as int, (key, value));
                }
                self.entries.set(i, (key, value));
                proof {
                    assert forall|a: int, b: int| old(self).wf() && 0 <= a < b < self.entries@.len() implies self.entries@[a].0@ != self.entries@[b].0@ by {
                        assert(old_entries[a].0@ != old_entries[b].0@);
                    }
                }
            },
            None => {
                self.entries.push((key, value));
                proof {
                    assert(self.entries@.drop_last() =~= old_entries);
                    assert forall|a: int, b: int| old(self).wf() && 0 <= a < b < self.entries@.len() implies self.entries@[a].0@ != self.entries@[b].0@ by {
                        if b < old_entries.len() {
                            assert(old_entries[a].0@ != old_entries[b].0@);
                        } else {
                            assert(old_entries[a].0@ != key@);
                        }
                    }
                }
            },
        }
    }

    /// The value bound to `key`, if any.
    pub fn get(&self, key: &str) -> (r: Option<&V>)
        ensures
            match r {
                Some(v) => self.map().contains_key(key@) && *v == self.map()[key@],
                None => !self.map().contains_key(key@),
            },
    {
        match self.position(key) {
            Some(i) => {
                proof {
                    lemma_entries_map_lookup(self.entries@, i as int);
                }
                Some(&self.entries[i].1)
            },
            None => {
                proof {
                    lemma_entries_map_absent(self.entries@, key@);
                }
                None
            },
        }
    }

    /// Whether a value is bound to `key`.
    pub fn contains_key(&self, key: &str) -> (b: bool)
        ensures
            b == self.map().contains_key(key@),
    {
        self.get(key).is_some()
    }

    /// The value bound to `key`, for in-place update, if any.
    pub fn get_mut(&mut self, key: &str) -> (r: Option<&mut V>)
        ensures
            old(self).wf() ==> final(self).wf(),
            match r {
                Some(v) => old(self).map().contains_key(key@) && *v == old(self).map()[key@]
                    && final(self).map() == old(self).map().insert(key@, *final(v)),
                None => !old(self).map().contains_key(key@) && final(self).map() == old(self).map(),
            },
    {
        match self.position(key) {
            Some(i) => {
                proof {
                    lemma_entries_map_lookup(self.entries@, i as int);
                }
                let ghost old_entries = self.entries@;
                let e = &mut self.entries[i];
                let r = &mut e.1;
                proof {
                    let ghost fin = (old_entries[i as int].0, *final(r));
                    lemma_entries_map_update(old_entries, i as int, fin);
                }
                Some(r)
            },
            None => {
                proof {
                    lemma_entries_map_absent(self.entries@, key@);
                }
                None
            },
        }
    }

    /// Number of entries.
    pub fn len(&self) -> (n: usize)
        ensures
            self.wf() ==> n == self.map().dom().len(),
            n == self.entries().len(),
    {
        proof {
            if self.wf() {
                lemma_entries_map_len(self.entries@);
            }
        }
        self.entries.len()
    }

    /// The entries, in insertion order.
    pub fn as_slice(&self) -> (r: &[(String, V)])
        ensures
            r@ == self.entries(),
            self.wf() ==> unique_keys(r@) && r@.len() == self.map().dom().len(),
            self.wf() ==> forall|i: int|
                0 <= i < r@.len() ==> self.map().contains_key(#[trigger] r@[i].0@) && self.map()[r@[i].0@] == r@[i].1,
    {
        proof {
            if self.wf() {
                lemma_entries_map_len(self.entries@);
                assert forall|i: int| 0 <= i < self.entries@.len() implies self.map().contains_key(
                    #[trigger] self.entries@[i].0@,
                ) && self.map()[self.entries@[i].0@] == self.entries@[i].1 by {
                    lemma_entries_map_lookup(self.entries@, i);
                }
            }
        }
        self.entries.as_slice()
    }
}

proof fn lemma_entries_map_len<V>(s: Seq<(String, V)>)
    requires
        unique_keys(s),
    ensures
        entries_map(s).dom().finite(),
        entries_map(s).dom().len() == s.len(),
    decreases s.len(),
{
    if s.len() > 0 {
        lemma_entries_map_len(s.drop_last());
        assert(!entries_map(s.drop_last()).contains_key(s.last().0@)) by {
            if entries_map(s.drop_last()).contains_key(s.last().0@) {
                lemma_entries_map_keys(s.drop_last(), s.last().0@);
                let i = choose|i: int| 0 <= i < s.drop_last().len() && (#[trigger] s.drop_last()[i]).0@ == s.last().0@;
                assert(s[i] == s.drop_last()[i]);
            }
        }
    }
}

} // verus!
