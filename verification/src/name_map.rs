//! A map keyed by names, held as a list of entries with distinct keys.
use vstd::prelude::*;

verus! {

/// A map from names to values. Its view is a `Map` from the names' characters
/// to the values' views.
pub struct NameMap<V> {
    pub entries: Vec<(String, V)>,
}

/// The map that a list of entries describes, later entries winning.
pub open spec fn entries_map<V: View>(s: Seq<(String, V)>) -> Map<Seq<char>, V::V>
    decreases s.len(),
{
    if s.len() == 0 {
        Map::empty()
    } else {
        entries_map(s.drop_last()).insert(s.last().0@, s.last().1@)
    }
}

/// No two entries share a key.
pub open spec fn distinct_keys<V>(s: Seq<(String, V)>) -> bool {
    forall|i: int, j: int| 0 <= i < s.len() && 0 <= j < s.len() && i != j ==> s[i].0@ != s[j].0@
}

impl<V: View> View for NameMap<V> {
    type V = Map<Seq<char>, V::V>;

    open spec fn view(&self) -> Map<Seq<char>, V::V> {
        entries_map(self.entries@)
    }
}

/// The keys present in the map are exactly those of the entries, and each
/// maps to the value of its entry.
pub proof fn lemma_entries_map<V: View>(s: Seq<(String, V)>)
    requires
        distinct_keys(s),
    ensures
        forall|k: Seq<char>|
            #[trigger] entries_map(s).contains_key(k) <==> exists|i: int|
                0 <= i < s.len() && s[i].0@ == k,
        forall|i: int| 0 <= i < s.len() ==> #[trigger] entries_map(s)[s[i].0@] == s[i].1@,
    decreases s.len(),
{
    if s.len() > 0 {
        let t = s.drop_last();
        let last = s.last();
        assert(distinct_keys(t));
        lemma_entries_map(t);
        assert(entries_map(s) == entries_map(t).insert(last.0@, last.1@));
        assert forall|k: Seq<char>| #[trigger] entries_map(s).contains_key(k) implies exists|i: int|
            0 <= i < s.len() && s[i].0@ == k by {
            if k == last.0@ {
                assert(s[s.len() - 1].0@ == k);
            } else {
                assert(entries_map(t).contains_key(k));
                let i = choose|i: int| 0 <= i < t.len() && t[i].0@ == k;
                assert(t[i] == s[i]);
                assert(s[i].0@ == k);
            }
        }
        assert forall|k: Seq<char>| (exists|i: int| 0 <= i < s.len() && s[i].0@ == k) implies
            #[trigger] entries_map(s).contains_key(k) by {
            let i = choose|i: int| 0 <= i < s.len() && s[i].0@ == k;
            if i < s.len() - 1 {
                assert(t[i] == s[i]);
                assert(entries_map(t).contains_key(k));
            }
        }
        assert forall|i: int| 0 <= i < s.len() implies #[trigger] entries_map(s)[s[i].0@]
            == s[i].1@ by {
            if i < s.len() - 1 {
                assert(t[i] == s[i]);
                assert(s[i].0@ != last.0@);
                assert(entries_map(t)[t[i].0@] == t[i].1@);
            }
        }
    }
}

proof fn lemma_entries_map_update<V: View>(s: Seq<(String, V)>, i: int, e: (String, V))
    requires
        distinct_keys(s),
        0 <= i < s.len(),
        s[i].0@ == e.0@,
    ensures
        distinct_keys(s.update(i, e)),
        entries_map(s.update(i, e)) == entries_map(s).insert(e.0@, e.1@),
    decreases s.len(),
{
    let u = s.update(i, e);
    assert(distinct_keys(u)) by {
        assert forall|a: int, b: int| 0 <= a < u.len() && 0 <= b < u.len() && a != b implies u[a].0@
            != u[b].0@ by {
            if a != i && b != i {
                assert(u[a] == s[a] && u[b] == s[b]);
            } else if a == i {
                assert(u[b] == s[b]);
            } else {
                assert(u[a] == s[a]);
            }
        }
    }
    lemma_entries_map(s);
    lemma_entries_map(u);
    assert forall|k: Seq<char>| #[trigger]
        entries_map(u).contains_key(k) <==> entries_map(s).insert(e.0@, e.1@).contains_key(k) by {
        if entries_map(u).contains_key(k) {
            let j = choose|j: int| 0 <= j < u.len() && u[j].0@ == k;
            if j != i {
                assert(s[j] == u[j]);
            }
        }
        if entries_map(s).contains_key(k) {
            let j = choose|j: int| 0 <= j < s.len() && s[j].0@ == k;
            if j != i {
                assert(s[j] == u[j]);
            } else {
                assert(u[i].0@ == k);
            }
        }
        if k == e.0@ {
            assert(u[i].0@ == k);
        }
    }
    assert forall|k: Seq<char>| #[trigger] entries_map(u).contains_key(k) implies entries_map(u)[k]
        == entries_map(s).insert(e.0@, e.1@)[k] by {
        let j = choose|j: int| 0 <= j < u.len() && u[j].0@ == k;
        if j != i {
            assert(s[j] == u[j]);
        }
    }
    assert(entries_map(u) =~= entries_map(s).insert(e.0@, e.1@));
}

impl<V: View> NameMap<V> {
    pub open spec fn wf(&self) -> bool {
        distinct_keys(self.entries@)
    }

    /// An empty map.
    pub fn new() -> (r: Self)
        ensures
            r.wf(),
            r@ == Map::<Seq<char>, V::V>::empty(),
            r.entries@.len() == 0,
    {
        NameMap { entries: Vec::new() }
    }

    /// The index of the entry for `key`, if there is one.
    pub fn find(&self, key: &str) -> (r: Option<usize>)
        requires
            self.wf(),
        ensures
            r is Some <==> self@.contains_key(key@),
            r matches Some(i) ==> i < self.entries@.len() && self.entries@[i as int].0@ == key@
                && self@[key@] == self.entries@[i as int].1@,
    {
        proof {
            lemma_entries_map(self.entries@);
        }
        let k = String::from_str(key);
        let mut i: usize = 0;
        while i < self.entries.len()
            invariant
                i <= self.entries@.len(),
                k@ == key@,
                self.wf(),
                forall|j: int| 0 <= j < i ==> self.entries@[j].0@ != key@,
            decreases self.entries.len() - i,
        {
            let same = self.entries[i].0.eq(&k);
            if same {
                proof {
                    lemma_entries_map(self.entries@);
                    assert(self.entries@[i as int].0@ == key@);
                }
                return Some(i);
            }
            i += 1;
        }
        None
    }

    /// `key` has an entry.
    pub fn contains_key(&self, key: &str) -> (r: bool)
        requires
            self.wf(),
        ensures
            r == self@.contains_key(key@),
    {
        self.find(key).is_some()
    }

    /// The value for `key`, if there is one.
    pub fn get(&self, key: &str) -> (r: Option<&V>)
        requires
            self.wf(),
        ensures
            r is Some <==> self@.contains_key(key@),
            r matches Some(v) ==> v@ == self@[key@],
    {
        match self.find(key) {
            Some(i) => Some(&self.entries[i].1),
            None => None,
        }
    }

    /// Sets the value for `key`, replacing any earlier one.
    pub fn insert(&mut self, key: String, value: V)
        requires
            old(self).wf(),
        ensures
            final(self).wf(),
            final(self)@ == old(self)@.insert(key@, value@),
            forall|j: int|
                0 <= j < final(self).entries@.len() ==> #[trigger] final(self).entries@[j] == (
                    key,
                    value,
                ) || old(self).entries@.contains(final(self).entries@[j]),
    {
        let ghost kv = (key, value);
        match self.find(key.as_str()) {
            Some(i) => {
                proof {
                    lemma_entries_map_update(self.entries@, i as int, (key, value));
                }
                self.entries.set(i, (key, value));
                assert forall|j: int| 0 <= j < self.entries@.len() implies #[trigger] self.entries@[j]
                    == kv || old(self).entries@.contains(self.entries@[j]) by {
                    if j != i {
                        assert(old(self).entries@[j] == self.entries@[j]);
                    }
                }
            },
            None => {
                proof {
                    lemma_entries_map(self.entries@);
                }
                self.entries.push((key, value));
                assert forall|j: int| 0 <= j < self.entries@.len() implies #[trigger] self.entries@[j]
                    == kv || old(self).entries@.contains(self.entries@[j]) by {
                    if j < self.entries@.len() - 1 {
                        assert(old(self).entries@[j] == self.entries@[j]);
                    }
                }
                assert(self.entries@.drop_last() =~= old(self).entries@);
                assert forall|a: int, b: int|
                    0 <= a < self.entries@.len() && 0 <= b < self.entries@.len() && a != b implies
                    self.entries@[a].0@ != self.entries@[b].0@ by {
                    if a < self.entries@.len() - 1 && b < self.entries@.len() - 1 {
                        assert(self.entries@[a] == old(self).entries@[a]);
                        assert(self.entries@[b] == old(self).entries@[b]);
                    } else if a < self.entries@.len() - 1 {
                        assert(self.entries@[a] == old(self).entries@[a]);
                    } else {
                        assert(self.entries@[b] == old(self).entries@[b]);
                    }
                }
            },
        }
    }

    /// Removes every entry.
    pub fn clear(&mut self)
        ensures
            final(self).wf(),
            final(self)@ == Map::<Seq<char>, V::V>::empty(),
    {
        self.entries = Vec::new();
    }
}

} // verus!
