//! Name-keyed retained tables.
//!
//! A retained table maps entity names to values; inserting under an existing
//! name replaces the prior value, and there is no per-entry delete. Entries
//! keep their insertion order, which is the order the rendering passes walk
//! them in. The table is viewed in contracts as a `Map` from name characters
//! to values, together with the ordered key sequence.

use vstd::prelude::*;

verus! {

/// The characters of the key of one entry.
pub open spec fn entry_key<V>(e: (String, V)) -> Seq<char> {
    e.0@
}

/// The keys of an entry sequence, in order.
spec fn keys_of<V>(s: Seq<(String, V)>) -> Seq<Seq<char>> {
    Seq::new(s.len(), |i: int| s[i].0@)
}

/// Whether a key sequence holds no key twice.
pub open spec fn distinct_keys(s: Seq<Seq<char>>) -> bool {
    forall|j: int, l: int| 0 <= j < l < s.len() ==> s[j] != s[l]
}

/// The map denoted by an entry sequence: later entries override earlier ones.
pub open spec fn entries_map<V>(s: Seq<(String, V)>) -> Map<Seq<char>, V>
    decreases s.len(),
{
    if s.len() == 0 {
        Map::empty()
    } else {
        entries_map(s.drop_last()).insert(s.last().0@, s.last().1)
    }
}

/// The key of every entry is in the map's domain, and conversely.
proof fn lemma_entries_map_domain<V>(s: Seq<(String, V)>)
    ensures
        forall|k: Seq<char>|
            entries_map(s).contains_key(k) <==> exists|i: int|
                0 <= i < s.len() && #[trigger] entry_key(s[i]) == k,
    decreases s.len(),
{
    if s.len() > 0 {
        lemma_entries_map_domain(s.drop_last());
        assert forall|k: Seq<char>| entries_map(s).contains_key(k) implies exists|i: int|
            0 <= i < s.len() && #[trigger] entry_key(s[i]) == k by {
            if k == s.last().0@ {
                assert(entry_key(s[s.len() - 1]) == k);
            } else {
                assert(entries_map(s.drop_last()).contains_key(k));
                let i = choose|i: int|
                    0 <= i < s.drop_last().len() && #[trigger] entry_key(s.drop_last()[i]) == k;
                assert(s.drop_last()[i] == s[i]);
                assert(entry_key(s[i]) == k);
            }
        }
        assert forall|k: Seq<char>|
            exists|i: int| 0 <= i < s.len() && #[trigger] entry_key(s[i]) == k implies entries_map(
            s,
        ).contains_key(k) by {
            let i = choose|i: int| 0 <= i < s.len() && #[trigger] entry_key(s[i]) == k;
            if i < s.len() - 1 {
                assert(entry_key(s.drop_last()[i]) == k);
                assert(entries_map(s.drop_last()).contains_key(k));
            } else {
                assert(k == s.last().0@);
            }
        }
    }
}

/// With pairwise distinct keys, the entry at index `i` gives the map's value
/// for its key.
proof fn lemma_entries_map_value<V>(s: Seq<(String, V)>, i: int)
    requires
        0 <= i < s.len(),
        forall|j: int, l: int|
            0 <= j < l < s.len() ==> #[trigger] entry_key(s[j]) != #[trigger] entry_key(s[l]),
    ensures
        entries_map(s).contains_key(entry_key(s[i])),
        entries_map(s)[entry_key(s[i])] == s[i].1,
    decreases s.len(),
{
    lemma_entries_map_domain(s);
    if i == s.len() - 1 {
    } else {
        lemma_entries_map_value(s.drop_last(), i);
        assert(s.drop_last()[i] == s[i]);
        assert(entry_key(s[i]) != entry_key(s[s.len() - 1]));
    }
}

/// Replacing the value at index `i` (keeping its key) denotes the map with
/// that key re-bound, provided keys are pairwise distinct.
proof fn lemma_entries_map_update<V>(s: Seq<(String, V)>, i: int, e: (String, V))
    requires
        0 <= i < s.len(),
        e.0@ == entry_key(s[i]),
        forall|j: int, l: int|
            0 <= j < l < s.len() ==> #[trigger] entry_key(s[j]) != #[trigger] entry_key(s[l]),
    ensures
        entries_map(s.update(i, e)) == entries_map(s).insert(e.0@, e.1),
    decreases s.len(),
{
    let s2 = s.update(i, e);
    if i == s.len() - 1 {
        assert(s2.drop_last() =~= s.drop_last());
        assert(s2.last() == e);
    } else {
        lemma_entries_map_update(s.drop_last(), i, e);
        assert(s2.drop_last() =~= s.drop_last().update(i, e));
        assert(s2.last() == s.last());
        assert(entry_key(s[i]) != entry_key(s[s.len() - 1]));
        assert(entries_map(s2) =~= entries_map(s).insert(e.0@, e.1));
    }
}

/// A name-keyed, insertion-ordered table of retained values.
pub struct RetainedTable<V> {
    entries: Vec<(String, V)>,
}

impl<V> RetainedTable<V> {
    /// The map this table denotes.
    pub closed spec fn view(&self) -> Map<Seq<char>, V> {
        entries_map(self.entries@)
    }

    /// The table's keys, in insertion order.
    pub closed spec fn order(&self) -> Seq<Seq<char>> {
        keys_of(self.entries@)
    }

    /// Keys are pairwise distinct.
    pub open spec fn wf(&self) -> bool {
        distinct_keys(self.order())
    }

    /// Bridges the order-based key distinctness to the entry sequence.
    proof fn lemma_keys_distinct(&self)
        requires
            self.wf(),
        ensures
            forall|j: int, l: int|
                0 <= j < l < self.entries@.len() ==> #[trigger] entry_key(self.entries@[j])
                    != #[trigger] entry_key(self.entries@[l]),
    {
        assert forall|j: int, l: int|
            0 <= j < l < self.entries@.len() implies #[trigger] entry_key(self.entries@[j])
            != #[trigger] entry_key(self.entries@[l]) by {
            assert(self.order()[j] == entry_key(self.entries@[j]));
            assert(self.order()[l] == entry_key(self.entries@[l]));
        }
    }

    /// An empty table.
    pub fn new() -> (t: Self)
        ensures
            t.wf(),
            t@ == Map::<Seq<char>, V>::empty(),
            t.order() == Seq::<Seq<char>>::empty(),
    {
        let t = RetainedTable { entries: Vec::new() };
        proof {
            assert(t.order() =~= Seq::<Seq<char>>::empty());
        }
        t
    }

    /// Number of retained entries.
    pub fn len(&self) -> (n: usize)
        ensures
            n == self.order().len(),
    {
        self.entries.len()
    }

    /// The position of `name` among the entries, if present.
    fn find(&self, name: &String) -> (r: Option<usize>)
        requires
            self.wf(),
        ensures
            match r {
                Some(i) => i < self.order().len() && self.order()[i as int] == name@,
                None => forall|i: int| 0 <= i < self.order().len() ==> self.order()[i] != name@,
            },
    {
        let mut i: usize = 0;
        while i < self.entries.len()
            invariant
                i <= self.entries.len(),
                forall|j: int| 0 <= j < i ==> self.order()[j] != name@,
            decreases self.entries.len() - i,
        {
            if self.entries[i].0 == *name {
                assert(self.order()[i as int] == name@);
                return Some(i);
            }
            i += 1;
        }
        None
    }

    /// Whether `name` is bound.
    pub fn contains_key(&self, name: &String) -> (r: bool)
        requires
            self.wf(),
        ensures
            r == self@.contains_key(name@),
    {
        proof {
            lemma_entries_map_domain(self.entries@);
        }
        match self.find(name) {
            Some(i) => {
                proof {
                    assert(entry_key(self.entries@[i as int]) == name@);
                }
                true
            },
            None => {
                proof {
                    assert forall|i: int|
                        0 <= i < self.entries@.len() implies #[trigger] entry_key(
                        self.entries@[i],
                    ) != name@ by {
                        assert(self.order()[i] == entry_key(self.entries@[i]));
                    }
                }
                false
            },
        }
    }

    /// The value bound to `name`, if any. Looking up an unused name is a
    /// no-op by design.
    pub fn get(&self, name: &String) -> (r: Option<&V>)
        requires
            self.wf(),
        ensures
            match r {
                Some(v) => self@.contains_key(name@) && *v == self@[name@],
                None => !self@.contains_key(name@),
            },
    {
        proof {
            lemma_entries_map_domain(self.entries@);
        }
        match self.find(name) {
            Some(i) => {
                proof {
                    self.lemma_keys_distinct();
                    lemma_entries_map_value(self.entries@, i as int);
                }
                Some(&self.entries[i].1)
            },
            None => {
                proof {
                    assert forall|i: int|
                        0 <= i < self.entries@.len() implies #[trigger] entry_key(
                        self.entries@[i],
                    ) != name@ by {
                        assert(self.order()[i] == entry_key(self.entries@[i]));
                    }
                }
                None
            },
        }
    }

    /// Inserts `value` under `name`; an existing entry under the same name is
    /// replaced, so the table retains exactly one value per name. A new name
    /// goes to the end of the insertion order; a replaced one keeps its place.
    pub fn insert(&mut self, name: String, value: V)
        requires
            old(self).wf(),
        ensures
            final(self).wf(),
            final(self)@ == old(self)@.insert(name@, value),
            final(self).order() == if old(self)@.contains_key(name@) {
                old(self).order()
            } else {
                old(self).order().push(name@)
            },
    {
        proof {
            lemma_entries_map_domain(self.entries@);
        }
        match self.find(&name) {
            Some(i) => {
                proof {
                    assert(entry_key(self.entries@[i as int]) == name@);
                }
                let ghost s0 = self.entries@;
                let ghost e = (name, value);
                proof {
                    self.lemma_keys_distinct();
                }
                self.entries[i] = (name, value);
                proof {
                    lemma_entries_map_update(s0, i as int, e);
                    assert(final(self).order() =~= old(self).order());
                }
            },
            None => {
                let ghost s0 = self.entries@;
                let ghost e = (name, value);
                self.entries.push((name, value));
                proof {
                    assert(self.entries@.drop_last() =~= s0);
                    assert(final(self).order() =~= old(self).order().push(e.0@));
                    assert forall|i: int|
                        0 <= i < s0.len() implies #[trigger] entry_key(s0[i]) != e.0@ by {
                        assert(old(self).order()[i] == entry_key(s0[i]));
                    }
                }
            },
        }
    }

    /// The name of the entry at `i` in insertion order.
    pub fn key_at(&self, i: usize) -> (k: &String)
        requires
            i < self.order().len(),
        ensures
            k@ == self.order()[i as int],
    {
        &self.entries[i].0
    }

    /// The value of the entry at `i` in insertion order.
    pub fn value_at(&self, i: usize) -> (v: &V)
        requires
            self.wf(),
            i < self.order().len(),
        ensures
            self@.contains_key(self.order()[i as int]),
            *v == self@[self.order()[i as int]],
    {
        proof {
            self.lemma_keys_distinct();
            lemma_entries_map_value(self.entries@, i as int);
        }
        &self.entries[i].1
    }

    /// Mutable access to the value of the entry at `i`; the key set and the
    /// order stay as they are, with only that entry re-bound.
    pub fn value_at_mut(&mut self, i: usize) -> (v: &mut V)
        requires
            old(self).wf(),
            i < old(self).order().len(),
        ensures
            old(self)@.contains_key(old(self).order()[i as int]),
            *v == old(self)@[old(self).order()[i as int]],
            final(self).wf(),
            final(self).order() == old(self).order(),
            final(self)@ == old(self)@.insert(old(self).order()[i as int], *final(v)),
    {
        proof {
            let s0 = self.entries@;
            self.lemma_keys_distinct();
            lemma_entries_map_value(s0, i as int);
            assert forall|e: (String, V)| e.0@ == entry_key(s0[i as int]) implies entries_map(
                s0.update(i as int, e),
            ) == entries_map(s0).insert(e.0@, e.1) && (#[trigger] keys_of(s0.update(i as int, e)))
                == keys_of(s0) && distinct_keys(keys_of(s0.update(i as int, e))) by {
                lemma_entries_map_update(s0, i as int, e);
                assert(keys_of(s0.update(i as int, e)) =~= keys_of(s0));
            }
        }
        let entry = &mut self.entries[i];
        &mut entry.1
    }
}

/// Retained-table overwrite: inserting two values under the same name leaves
/// exactly one binding for that name, equal to the second insertion, whatever
/// the table held before.
pub proof fn lemma_insert_overwrite<V>(m: Map<Seq<char>, V>, name: Seq<char>, v1: V, v2: V)
    ensures
        m.insert(name, v1).insert(name, v2) == m.insert(name, v2),
        m.insert(name, v1).insert(name, v2)[name] == v2,
{
    assert(m.insert(name, v1).insert(name, v2) =~= m.insert(name, v2));
}

} // verus!

verus! {

impl<V> RetainedTable<V> {
    /// Every key of the insertion order is bound in the map.
    pub proof fn lemma_order_in_dom(&self, i: int)
        requires
            self.wf(),
            0 <= i < self.order().len(),
        ensures
            self@.contains_key(self.order()[i]),
    {
        self.lemma_keys_distinct();
        lemma_entries_map_value(self.entries@, i);
        assert(self.order()[i] == entry_key(self.entries@[i]));
    }

    /// The position of `name` in insertion order, if it is bound.
    pub fn index_of(&self, name: &String) -> (r: Option<usize>)
        requires
            self.wf(),
        ensures
            match r {
                Some(i) => i < self.order().len() && self.order()[i as int] == name@
                    && self@.contains_key(name@),
                None => !self@.contains_key(name@),
            },
    {
        proof {
            lemma_entries_map_domain(self.entries@);
        }
        match self.find(name) {
            Some(i) => {
                proof {
                    assert(entry_key(self.entries@[i as int]) == name@);
                }
                Some(i)
            },
            None => {
                proof {
                    assert forall|i: int|
                        0 <= i < self.entries@.len() implies #[trigger] entry_key(
                        self.entries@[i],
                    ) != name@ by {
                        assert(self.order()[i] == entry_key(self.entries@[i]));
                    }
                }
                None
            },
        }
    }
}

} // verus!
