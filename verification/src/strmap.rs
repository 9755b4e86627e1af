//! A small map keyed by strings, kept as a list of entries with distinct keys.

use vstd::prelude::*;

verus! {

/// Whether no two entries have the same key.
pub open spec fn distinct_keys<V>(entries: Seq<(String, V)>) -> bool {
    forall|i: int, j: int|
        0 <= i < j < entries.len() ==> (#[trigger] entries[i]).0@ != (#[trigger] entries[j]).0@
}

/// Whether the entry at `i` has the key `k`.
pub open spec fn has_key_at<V>(entries: Seq<(String, V)>, i: int, k: Seq<char>) -> bool {
    0 <= i < entries.len() && entries[i].0@ == k
}

/// The map that a list of entries stands for.
pub open spec fn entries_map<V>(entries: Seq<(String, V)>) -> Map<Seq<char>, V> {
    Map::new(
        |k: Seq<char>| exists|i: int| has_key_at(entries, i, k),
        |k: Seq<char>| entries[choose|i: int| has_key_at(entries, i, k)].1,
    )
}

/// A map from strings to values of `V`.
pub struct StrMap<V> {
    entries: Vec<(String, V)>,
}

impl<V> View for StrMap<V> {
    type V = Map<Seq<char>, V>;

    closed spec fn view(&self) -> Map<Seq<char>, V> {
        entries_map(self.entries@)
    }
}

impl<V> StrMap<V> {
    /// The invariant of the map: no key is stored twice.
    pub closed spec fn wf(&self) -> bool {
        distinct_keys(self.entries@)
    }

    /// The empty map.
    pub fn new() -> (m: Self)
        ensures
            m.wf(),
            m@ == Map::<Seq<char>, V>::empty(),
    {
        let m = StrMap { entries: Vec::new() };
        assert(m@ =~= Map::<Seq<char>, V>::empty());
        m
    }

    fn position(&self, k: &String) -> (r: Option<usize>)
        ensures
            match r {
                Some(i) => has_key_at(self.entries@, i as int, k@),
                None => forall|i: int| !has_key_at(self.entries@, i, k@),
            },
    {
        let mut i: usize = 0;
        while i < self.entries.len()
            invariant
                i <= self.entries@.len(),
                forall|j: int| 0 <= j < i ==> !has_key_at(self.entries@, j, k@),
            decreases self.entries@.len() - i,
        {
            if *k == self.entries[i].0 {
                return Some(i);
            }
            i += 1;
        }
        None
    }

    /// Whether the map has an entry for `k`.
    pub fn contains_key(&self, k: &String) -> (r: bool)
        ensures
            r == self@.contains_key(k@),
    {
        self.position(k).is_some()
    }

    /// The value stored for `k`, if there is one.
    pub fn get(&self, k: &String) -> (r: Option<&V>)
        requires
            self.wf(),
        ensures
            match r {
                Some(v) => self@.contains_key(k@) && *v == self@[k@],
                None => !self@.contains_key(k@),
            },
    {
        match self.position(k) {
            Some(i) => {
                proof {
                    lemma_lookup(self.entries@, i as int);
                }
                Some(&self.entries[i].1)
            },
            None => None,
        }
    }

    /// Stores `v` for `k`, in place of what was stored for it before.
    pub fn insert(&mut self, k: String, v: V)
        requires
            old(self).wf(),
        ensures
            final(self).wf(),
            final(self)@ == old(self)@.insert(k@, v),
    {
        self.remove(&k);
        proof {
            lemma_push(self.entries@, k, v);
            assert(old(self)@.remove(k@).insert(k@, v) =~= old(self)@.insert(k@, v));
        }
        self.entries.push((k, v));
    }

    /// Takes the entry for `k` out of the map.
    pub fn remove(&mut self, k: &String) -> (r: Option<V>)
        requires
            old(self).wf(),
        ensures
            final(self).wf(),
            final(self)@ == old(self)@.remove(k@),
            r == if old(self)@.contains_key(k@) {
                Some(old(self)@[k@])
            } else {
                None
            },
    {
        match self.position(k) {
            Some(i) => {
                proof {
                    lemma_remove_at(self.entries@, i as int);
                }
                let entry = self.entries.remove(i);
                Some(entry.1)
            },
            None => {
                assert(self@ =~= old(self)@.remove(k@));
                None
            },
        }
    }
}

/// With distinct keys, the entry at `i` is what the map holds for its key.
proof fn lemma_lookup<V>(entries: Seq<(String, V)>, i: int)
    requires
        distinct_keys(entries),
        0 <= i < entries.len(),
    ensures
        entries_map(entries).contains_key(entries[i].0@),
        entries_map(entries)[entries[i].0@] == entries[i].1,
{
    let k = entries[i].0@;
    assert(has_key_at(entries, i, k));
    let c = choose|c: int| has_key_at(entries, c, k);
    assert(c == i);
}

proof fn lemma_push<V>(entries: Seq<(String, V)>, k: String, v: V)
    requires
        distinct_keys(entries),
        !entries_map(entries).contains_key(k@),
    ensures
        distinct_keys(entries.push((k, v))),
        entries_map(entries.push((k, v))) == entries_map(entries).insert(k@, v),
{
    let after = entries.push((k, v));
    assert forall|i: int, j: int| 0 <= i < j < after.len() implies (#[trigger] after[i]).0@ != (
    #[trigger] after[j]).0@ by {
        if j == entries.len() {
            assert(has_key_at(entries, i, after[i].0@));
        }
    }
    assert forall|q: Seq<char>|
        entries_map(after).contains_key(q) == entries_map(entries).insert(k@, v).contains_key(
            q,
        ) by {
        if entries_map(after).contains_key(q) {
            let j = choose|j: int| has_key_at(after, j, q);
            if j < entries.len() {
                assert(has_key_at(entries, j, q));
            }
        }
        if entries_map(entries).contains_key(q) {
            let j = choose|j: int| has_key_at(entries, j, q);
            assert(has_key_at(after, j, q));
        }
        if q == k@ {
            assert(has_key_at(after, entries.len() as int, q));
        }
    }
    assert forall|q: Seq<char>| entries_map(after).contains_key(q) implies entries_map(after)[q]
        == entries_map(entries).insert(k@, v)[q] by {
        let j = choose|j: int| has_key_at(after, j, q);
        lemma_lookup(after, j);
        if j < entries.len() {
            lemma_lookup(entries, j);
        }
    }
    assert(entries_map(after) =~= entries_map(entries).insert(k@, v));
}

proof fn lemma_remove_at<V>(entries: Seq<(String, V)>, i: int)
    requires
        distinct_keys(entries),
        0 <= i < entries.len(),
    ensures
        distinct_keys(entries.remove(i)),
        entries_map(entries).contains_key(entries[i].0@),
        entries_map(entries)[entries[i].0@] == entries[i].1,
        entries_map(entries.remove(i)) == entries_map(entries).remove(entries[i].0@),
{
    let after = entries.remove(i);
    let k = entries[i].0@;
    lemma_lookup(entries, i);
    assert forall|a: int, b: int| 0 <= a < b < after.len() implies (#[trigger] after[a]).0@ != (
    #[trigger] after[b]).0@ by {
        let a0 = if a < i { a } else { a + 1 };
        let b0 = if b < i { b } else { b + 1 };
        assert(after[a] == entries[a0]);
        assert(after[b] == entries[b0]);
    }
    assert forall|q: Seq<char>|
        entries_map(after).contains_key(q) == entries_map(entries).remove(k).contains_key(q) by {
        if entries_map(after).contains_key(q) {
            let j = choose|j: int| has_key_at(after, j, q);
            let j0 = if j < i { j } else { j + 1 };
            assert(after[j] == entries[j0]);
            assert(has_key_at(entries, j0, q));
            assert(entries[j0].0@ != entries[i].0@);
        }
        if q != k && entries_map(entries).contains_key(q) {
            let j0 = choose|j0: int| has_key_at(entries, j0, q);
            let j = if j0 < i { j0 } else { j0 - 1 };
            assert(after[j] == entries[j0]);
            assert(has_key_at(after, j, q));
        }
    }
    assert forall|q: Seq<char>| entries_map(after).contains_key(q) implies entries_map(after)[q]
        == entries_map(entries).remove(k)[q] by {
        let j = choose|j: int| has_key_at(after, j, q);
        let j0 = if j < i { j } else { j + 1 };
        assert(after[j] == entries[j0]);
        lemma_lookup(after, j);
        lemma_lookup(entries, j0);
    }
    assert(entries_map(after) =~= entries_map(entries).remove(k));
}

impl StrMap<String> {
    /// Takes out every entry whose value is `v`.
    pub fn remove_values(&mut self, v: &String)
        requires
            old(self).wf(),
        ensures
            final(self).wf(),
            forall|k: Seq<char>| #[trigger]
                final(self)@.contains_key(k) <==> old(self)@.contains_key(k) && old(self)@[k]@
                    != v@,
            forall|k: Seq<char>| #[trigger]
                final(self)@.contains_key(k) ==> final(self)@[k] == old(self)@[k],
    {
        let ghost start = self@;
        let mut i: usize = 0;
        while i < self.entries.len()
            invariant
                i <= self.entries@.len(),
                self.wf(),
                forall|j: int| 0 <= j < i ==> (#[trigger] self.entries@[j]).1@ != v@,
                forall|k: Seq<char>| #[trigger]
                    self@.contains_key(k) ==> start.contains_key(k) && self@[k] == start[k],
                forall|k: Seq<char>| #[trigger]
                    start.contains_key(k) && start[k]@ != v@ ==> self@.contains_key(k),
            decreases self.entries@.len() - i,
        {
            if self.entries[i].1 == *v {
                let ghost prev = self@;
                let ghost key = self.entries@[i as int].0@;
                proof {
                    lemma_remove_at(self.entries@, i as int);
                }
                self.entries.remove(i);
                proof {
                    assert(self@ == prev.remove(key));
                    assert(prev[key]@ == v@);
                    assert forall|k: Seq<char>| #[trigger] self@.contains_key(k) implies start.contains_key(
                        k,
                    ) && self@[k] == start[k] by {
                        assert(prev.contains_key(k));
                    }
                    assert forall|k: Seq<char>| #[trigger]
                        start.contains_key(k) && start[k]@ != v@ implies self@.contains_key(k) by {
                        assert(prev.contains_key(k));
                        assert(k != key);
                    }
                }
            } else {
                i += 1;
            }
        }
        proof {
            assert forall|k: Seq<char>| #[trigger] self@.contains_key(k) implies self@[k]@ != v@ by {
                let j = choose|j: int| has_key_at(self.entries@, j, k);
                lemma_lookup(self.entries@, j);
            }
        }
    }
}

} // verus!
