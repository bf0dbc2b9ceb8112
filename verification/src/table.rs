//! Tables keyed by pull-request identity `(repository, number)`.
use vstd::prelude::*;
use crate::gh::{id_view, PrId};
use crate::text::same_text;

verus! {

/// The abstract key of a pull request.
pub type Key = (Seq<char>, u64);

/// A table from pull-request identities to values; each identity occurs once.
pub struct PrTable<V> {
    entries: Vec<(PrId, V)>,
    model: Ghost<Map<Key, V>>,
}

/// The entries have distinct keys and list exactly the map.
spec fn table_ok<V>(e: Seq<(PrId, V)>, m: Map<Key, V>) -> bool {
    &&& forall|i: int, j: int| 0 <= i < j < e.len() ==> id_view(#[trigger] e[i].0) != id_view(#[trigger] e[j].0)
    &&& forall|i: int| 0 <= i < e.len() ==> m.contains_key(id_view(#[trigger] e[i].0)) && m[id_view(e[i].0)] == e[i].1
    &&& forall|k: Key| #[trigger] m.contains_key(k) ==> exists|i: int| 0 <= i < e.len() && id_view(e[i].0) == k
}

impl<V> PrTable<V> {
    #[verifier::type_invariant]
    spec fn consistent(self) -> bool {
        table_ok(self.entries@, self.model@)
    }

    /// The table as a map.
    pub closed spec fn map(self) -> Map<Key, V> {
        self.model@
    }

    /// An empty table.
    pub fn new() -> (r: Self)
        ensures
            r.map() == Map::<Key, V>::empty(),
    {
        PrTable { entries: Vec::new(), model: Ghost(Map::empty()) }
    }

    /// Number of entries.
    pub fn len(&self) -> (r: usize)
        ensures
            r == self.map().len(),
            self.map().dom().finite(),
    {
        proof {
            use_type_invariant(self);
            self.lemma_len();
        }
        self.entries.len()
    }

    proof fn lemma_len(self)
        requires
            table_ok(self.entries@, self.model@),
        ensures
            self.model@.dom().finite(),
            self.model@.len() == self.entries@.len(),
    {
        let keys = self.entries@.map_values(|e: (PrId, V)| id_view(e.0));
        assert(keys.no_duplicates()) by {
            assert forall|i: int, j: int| 0 <= i < keys.len() && 0 <= j < keys.len() && i != j implies keys[i] != keys[j] by {
                if i < j {
                    assert(id_view(self.entries@[i].0) != id_view(self.entries@[j].0));
                } else {
                    assert(id_view(self.entries@[j].0) != id_view(self.entries@[i].0));
                }
            }
        }
        assert(self.model@.dom() =~= keys.to_set()) by {
            assert forall|k: Key| self.model@.dom().contains(k) implies keys.to_set().contains(k) by {
                let i = choose|i: int| 0 <= i < self.entries@.len() && id_view(self.entries@[i].0) == k;
                assert(keys[i] == k);
            }
            assert forall|k: Key| keys.to_set().contains(k) implies self.model@.dom().contains(k) by {
                let i = choose|i: int| 0 <= i < keys.len() && keys[i] == k;
                assert(self.model@.contains_key(id_view(self.entries@[i].0)));
            }
        }
        keys.unique_seq_to_set();
    }

    /// Position of the entry for `(repo, number)`, if any.
    fn position(&self, repo: &str, number: u64) -> (r: Option<usize>)
        ensures
            match r {
                Some(j) => j < self.entries@.len() && id_view(self.entries@[j as int].0) == (repo@, number),
                None => forall|i: int| 0 <= i < self.entries@.len() ==> id_view(self.entries@[i].0) != (repo@, number),
            },
    {
        let mut i: usize = 0;
        while i < self.entries.len()
            invariant
                i <= self.entries@.len(),
                forall|k: int| 0 <= k < i ==> id_view(self.entries@[k].0) != (repo@, number),
            decreases self.entries@.len() - i,
        {
            let e = &self.entries[i];
            if e.0.1 == number && same_text(e.0.0.as_str(), repo) {
                return Some(i);
            }
            i = i + 1;
        }
        None
    }

    /// Whether the table has an entry for `(repo, number)`.
    pub fn contains(&self, repo: &str, number: u64) -> (r: bool)
        ensures
            r == self.map().contains_key((repo@, number)),
    {
        proof {
            use_type_invariant(self);
        }
        match self.position(repo, number) {
            Some(j) => true,
            None => {
                proof {
                    if self.model@.contains_key((repo@, number)) {
                        let i = choose|i: int| 0 <= i < self.entries@.len() && id_view(self.entries@[i].0) == (repo@, number);
                        assert(false);
                    }
                }
                false
            },
        }
    }

    /// The value for `(repo, number)`, if any.
    pub fn get(&self, repo: &str, number: u64) -> (r: Option<&V>)
        ensures
            match r {
                Some(v) => self.map().contains_key((repo@, number)) && *v == self.map()[(repo@, number)],
                None => !self.map().contains_key((repo@, number)),
            },
    {
        proof {
            use_type_invariant(self);
        }
        match self.position(repo, number) {
            Some(j) => Some(&self.entries[j].1),
            None => {
                proof {
                    if self.model@.contains_key((repo@, number)) {
                        let i = choose|i: int| 0 <= i < self.entries@.len() && id_view(self.entries@[i].0) == (repo@, number);
                        assert(false);
                    }
                }
                None
            },
        }
    }

    /// Sets the value for `id`, replacing any earlier one.
    pub fn insert(&mut self, id: PrId, value: V)
        ensures
            final(self).map() == old(self).map().insert(id_view(id), value),
    {
        proof {
            use_type_invariant(&*self);
        }
        let ghost s = self.entries@;
        let ghost m = self.model@;
        let ghost k = id_view(id);
        let ghost m_new = m.insert(k, value);
        let pos = self.position(id.0.as_str(), id.1);
        match pos {
            Some(j) => {
                let mut whole = PrTable::new();
                std::mem::swap(&mut whole, self);
                let PrTable { entries: mut entries, model: _ } = whole;
                entries.set(j, (id, value));
                proof {
                    let t = entries@;
                    let m2 = m.insert(k, value);
                    assert forall|a: int, b: int| 0 <= a < b < t.len() implies id_view(#[trigger] t[a].0) != id_view(#[trigger] t[b].0) by {
                        assert(id_view(t[a].0) == id_view(s[a].0) && id_view(t[b].0) == id_view(s[b].0));
                    }
                    assert forall|i: int| 0 <= i < t.len() implies m2.contains_key(id_view(#[trigger] t[i].0)) && m2[id_view(t[i].0)] == t[i].1 by {
                        if i != j {
                            assert(t[i] == s[i]);
                            if id_view(s[i].0) == k {
                                if i < j {
                                    assert(id_view(s[i].0) != id_view(s[j as int].0));
                                } else {
                                    assert(id_view(s[j as int].0) != id_view(s[i].0));
                                }
                            }
                        }
                    }
                    assert forall|kk: Key| #[trigger] m2.contains_key(kk) implies exists|i: int| 0 <= i < t.len() && id_view(t[i].0) == kk by {
                        if kk != k {
                            let i = choose|i: int| 0 <= i < s.len() && id_view(s[i].0) == kk;
                            assert(id_view(t[i].0) == kk);
                        } else {
                            assert(id_view(t[j as int].0) == kk);
                        }
                    }
                    assert(table_ok(t, m2));
                }
                *self = PrTable { entries, model: Ghost(m_new) };
            },
            None => {
                let mut whole = PrTable::new();
                std::mem::swap(&mut whole, self);
                let PrTable { entries: mut entries, model: _ } = whole;
                entries.push((id, value));
                proof {
                    let t = entries@;
                    let m2 = m.insert(k, value);
                    assert forall|a: int, b: int| 0 <= a < b < t.len() implies id_view(#[trigger] t[a].0) != id_view(#[trigger] t[b].0) by {
                        if b == s.len() {
                            assert(t[a] == s[a]);
                        } else {
                            assert(t[a] == s[a] && t[b] == s[b]);
                        }
                    }
                    assert forall|i: int| 0 <= i < t.len() implies m2.contains_key(id_view(#[trigger] t[i].0)) && m2[id_view(t[i].0)] == t[i].1 by {
                        if i < s.len() {
                            assert(t[i] == s[i]);
                        }
                    }
                    assert forall|kk: Key| #[trigger] m2.contains_key(kk) implies exists|i: int| 0 <= i < t.len() && id_view(t[i].0) == kk by {
                        if kk != k {
                            let i = choose|i: int| 0 <= i < s.len() && id_view(s[i].0) == kk;
                            assert(id_view(t[i].0) == kk);
                        } else {
                            assert(id_view(t[s.len() as int].0) == kk);
                        }
                    }
                    assert(table_ok(t, m2));
                }
                *self = PrTable { entries, model: Ghost(m_new) };
            },
        }
    }

    /// Removes the entry for `(repo, number)`; tells whether there was one.
    pub fn remove(&mut self, repo: &str, number: u64) -> (r: bool)
        ensures
            r == old(self).map().contains_key((repo@, number)),
            final(self).map() == old(self).map().remove((repo@, number)),
    {
        proof {
            use_type_invariant(&*self);
        }
        let ghost s = self.entries@;
        let ghost m = self.model@;
        let ghost k = (repo@, number);
        match self.position(repo, number) {
            Some(j) => {
                let mut whole = PrTable::new();
                std::mem::swap(&mut whole, self);
                let PrTable { entries: mut entries, model: _ } = whole;
                let _gone = entries.remove(j);
                proof {
                    let t = entries@;
                    let m2 = m.remove(k);
                    assert forall|a: int, b: int| 0 <= a < b < t.len() implies id_view(#[trigger] t[a].0) != id_view(#[trigger] t[b].0) by {
                        if b < j {
                            assert(t[a] == s[a] && t[b] == s[b]);
                        } else if a < j {
                            assert(t[a] == s[a] && t[b] == s[b + 1]);
                        } else {
                            assert(t[a] == s[a + 1] && t[b] == s[b + 1]);
                        }
                    }
                    assert forall|i: int| 0 <= i < t.len() implies m2.contains_key(id_view(#[trigger] t[i].0)) && m2[id_view(t[i].0)] == t[i].1 by {
                        if i < j {
                            assert(t[i] == s[i]);
                            assert(id_view(s[i].0) != id_view(s[j as int].0));
                        } else {
                            assert(t[i] == s[i + 1]);
                            assert(id_view(s[j as int].0) != id_view(s[i + 1].0));
                        }
                    }
                    assert forall|kk: Key| #[trigger] m2.contains_key(kk) implies exists|i: int| 0 <= i < t.len() && id_view(t[i].0) == kk by {
                        let i = choose|i: int| 0 <= i < s.len() && id_view(s[i].0) == kk;
                        if i < j {
                            assert(id_view(t[i].0) == kk);
                        } else {
                            assert(i != j);
                            assert(id_view(t[i - 1].0) == kk);
                        }
                    }
                    assert(table_ok(t, m2));
                }
                *self = PrTable { entries, model: Ghost(m.remove(k)) };
                true
            },
            None => {
                proof {
                    if m.contains_key(k) {
                        let i = choose|i: int| 0 <= i < s.len() && id_view(s[i].0) == k;
                        assert(false);
                    }
                    assert(m.remove(k) =~= m);
                }
                false
            },
        }
    }

    /// Removes every entry.
    pub fn clear(&mut self)
        ensures
            final(self).map() == Map::<Key, V>::empty(),
    {
        *self = PrTable::new();
    }
}

impl PrTable<()> {
    /// Removes `id` if present, else adds it. Tells whether it is present afterwards.
    pub fn toggle(&mut self, id: PrId) -> (r: bool)
        ensures
            r == !old(self).map().contains_key(id_view(id)),
            r ==> final(self).map() == old(self).map().insert(id_view(id), ()),
            !r ==> final(self).map() == old(self).map().remove(id_view(id)),
    {
        if self.remove(id.0.as_str(), id.1) {
            false
        } else {
            self.insert(id, ());
            true
        }
    }
}

impl<V: Copy> PrTable<V> {
    /// The entries, each identity once, in no particular order.
    pub fn entries(&self) -> (r: Vec<(PrId, V)>)
        ensures
            r@.len() == self.map().len(),
            forall|i: int| 0 <= i < r@.len() ==> self.map().contains_key(id_view(#[trigger] r@[i].0))
                && self.map()[id_view(r@[i].0)] == r@[i].1,
            forall|k: Key| #[trigger] self.map().contains_key(k) ==> exists|i: int| 0 <= i < r@.len() && id_view(r@[i].0) == k,
    {
        proof {
            use_type_invariant(self);
            self.lemma_len();
        }
        let mut out: Vec<(PrId, V)> = Vec::new();
        let mut i: usize = 0;
        while i < self.entries.len()
            invariant
                i <= self.entries@.len(),
                table_ok(self.entries@, self.model@),
                out@.len() == i,
                forall|j: int| 0 <= j < i ==> id_view(#[trigger] out@[j].0) == id_view(self.entries@[j].0) && out@[j].1 == self.entries@[j].1,
            decreases self.entries@.len() - i,
        {
            let e = &self.entries[i];
            let id: PrId = (e.0.0.clone(), e.0.1);
            out.push((id, e.1));
            i = i + 1;
        }
        proof {
            assert forall|j: int| 0 <= j < out@.len() implies self.model@.contains_key(id_view(#[trigger] out@[j].0))
                && self.model@[id_view(out@[j].0)] == out@[j].1 by {
                assert(id_view(out@[j].0) == id_view(self.entries@[j].0));
            }
            assert forall|k: Key| #[trigger] self.model@.contains_key(k) implies exists|j: int| 0 <= j < out@.len() && id_view(out@[j].0) == k by {
                let j = choose|j: int| 0 <= j < self.entries@.len() && id_view(self.entries@[j].0) == k;
                assert(id_view(out@[j].0) == k);
            }
        }
        out
    }
}

} // verus!
