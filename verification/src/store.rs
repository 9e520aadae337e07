//! A small map from string keys to values, kept as a list with distinct keys.
use vstd::prelude::*;

use crate::flags::names;
use crate::text::str_eq;

verus! {

pub open spec fn key_at<V>(s: Seq<(String, V)>, i: int) -> Seq<char> {
    s[i].0@
}

pub open spec fn unique_keys<V>(s: Seq<(String, V)>) -> bool {
    forall|i: int, j: int|
        0 <= i < s.len() && 0 <= j < s.len() && i != j ==> key_at(s, i) != key_at(s, j)
}

pub open spec fn has_key<V>(s: Seq<(String, V)>, k: Seq<char>) -> bool {
    exists|i: int| 0 <= i < s.len() && key_at(s, i) == k
}

pub open spec fn index_of<V>(s: Seq<(String, V)>, k: Seq<char>) -> int {
    choose|i: int| 0 <= i < s.len() && key_at(s, i) == k
}

/// The map that a list of key/value entries stands for.
pub open spec fn as_map<V>(s: Seq<(String, V)>) -> Map<Seq<char>, V> {
    Map::new(|k: Seq<char>| has_key(s, k), |k: Seq<char>| s[index_of(s, k)].1)
}

/// A value that expires at a point in time.
pub trait Deadline {
    spec fn deadline(&self) -> u64;

    fn expires_at(&self) -> (r: u64)
        ensures
            r == self.deadline(),
    ;
}

/// The entries of `m` that are still live at `now`.
pub open spec fn live<V: Deadline>(m: Map<Seq<char>, V>, now: u64) -> Map<Seq<char>, V> {
    Map::new(|k: Seq<char>| m.contains_key(k) && m[k].deadline() > now, |k: Seq<char>| m[k])
}

proof fn lemma_index_of<V>(s: Seq<(String, V)>, i: int)
    requires
        unique_keys(s),
        0 <= i < s.len(),
    ensures
        index_of(s, key_at(s, i)) == i,
        has_key(s, key_at(s, i)),
{
    assert(has_key(s, key_at(s, i)));
}

proof fn lemma_update<V>(s: Seq<(String, V)>, i: int, e: (String, V))
    requires
        unique_keys(s),
        0 <= i < s.len(),
        e.0@ == key_at(s, i),
    ensures
        unique_keys(s.update(i, e)),
        as_map(s.update(i, e)) == as_map(s).insert(e.0@, e.1),
{
    let t = s.update(i, e);
    assert forall|a: int, b: int| 0 <= a < t.len() && 0 <= b < t.len() && a != b implies key_at(
        t,
        a,
    ) != key_at(t, b) by {
        assert(key_at(t, a) == key_at(s, a));
        assert(key_at(t, b) == key_at(s, b));
    }
    assert forall|k: Seq<char>| has_key(t, k) <==> has_key(s, k) || k == e.0@ by {
        if has_key(t, k) {
            let j = choose|j: int| 0 <= j < t.len() && key_at(t, j) == k;
            assert(key_at(s, j) == k);
        }
        if has_key(s, k) {
            let j = choose|j: int| 0 <= j < s.len() && key_at(s, j) == k;
            assert(key_at(t, j) == k);
        }
        if k == e.0@ {
            assert(key_at(t, i) == k);
        }
    }
    assert forall|k: Seq<char>| #[trigger] as_map(t).contains_key(k) implies as_map(t)[k] == as_map(
        s,
    ).insert(e.0@, e.1)[k] by {
        let j = choose|j: int| 0 <= j < t.len() && key_at(t, j) == k;
        lemma_index_of(t, j);
        if j == i {
        } else {
            assert(key_at(s, j) == k);
            lemma_index_of(s, j);
        }
    }
    assert(as_map(t) =~= as_map(s).insert(e.0@, e.1));
}

proof fn lemma_push<V>(s: Seq<(String, V)>, e: (String, V))
    requires
        unique_keys(s),
        !has_key(s, e.0@),
    ensures
        unique_keys(s.push(e)),
        as_map(s.push(e)) == as_map(s).insert(e.0@, e.1),
{
    let t = s.push(e);
    assert forall|a: int, b: int| 0 <= a < t.len() && 0 <= b < t.len() && a != b implies key_at(
        t,
        a,
    ) != key_at(t, b) by {
        if a < s.len() && b < s.len() {
            assert(key_at(t, a) == key_at(s, a));
            assert(key_at(t, b) == key_at(s, b));
        } else if a < s.len() {
            assert(key_at(t, a) == key_at(s, a));
        } else {
            assert(key_at(t, b) == key_at(s, b));
        }
    }
    assert forall|k: Seq<char>| has_key(t, k) <==> has_key(s, k) || k == e.0@ by {
        if has_key(t, k) {
            let j = choose|j: int| 0 <= j < t.len() && key_at(t, j) == k;
            if j < s.len() {
                assert(key_at(s, j) == k);
            }
        }
        if has_key(s, k) {
            let j = choose|j: int| 0 <= j < s.len() && key_at(s, j) == k;
            assert(key_at(t, j) == k);
        }
        if k == e.0@ {
            assert(key_at(t, s.len() as int) == k);
        }
    }
    assert forall|k: Seq<char>| #[trigger] as_map(t).contains_key(k) implies as_map(t)[k] == as_map(
        s,
    ).insert(e.0@, e.1)[k] by {
        let j = choose|j: int| 0 <= j < t.len() && key_at(t, j) == k;
        lemma_index_of(t, j);
        if j < s.len() {
            assert(key_at(s, j) == k);
            lemma_index_of(s, j);
        }
    }
    assert(as_map(t) =~= as_map(s).insert(e.0@, e.1));
}

proof fn lemma_remove<V>(s: Seq<(String, V)>, i: int)
    requires
        unique_keys(s),
        0 <= i < s.len(),
    ensures
        unique_keys(s.remove(i)),
        as_map(s.remove(i)) == as_map(s).remove(key_at(s, i)),
{
    let t = s.remove(i);
    let k0 = key_at(s, i);
    assert forall|a: int, b: int| 0 <= a < t.len() && 0 <= b < t.len() && a != b implies key_at(
        t,
        a,
    ) != key_at(t, b) by {
        let sa = if a < i {
            a
        } else {
            a + 1
        };
        let sb = if b < i {
            b
        } else {
            b + 1
        };
        assert(key_at(t, a) == key_at(s, sa));
        assert(key_at(t, b) == key_at(s, sb));
    }
    assert forall|k: Seq<char>| has_key(t, k) <==> has_key(s, k) && k != k0 by {
        if has_key(t, k) {
            let j = choose|j: int| 0 <= j < t.len() && key_at(t, j) == k;
            let sj = if j < i {
                j
            } else {
                j + 1
            };
            assert(key_at(s, sj) == k);
        }
        if has_key(s, k) && k != k0 {
            let j = choose|j: int| 0 <= j < s.len() && key_at(s, j) == k;
            assert(j != i);
            let tj = if j < i {
                j
            } else {
                j - 1
            };
            assert(key_at(t, tj) == k);
        }
    }
    assert forall|k: Seq<char>| #[trigger] as_map(t).contains_key(k) implies as_map(t)[k]
        == as_map(s).remove(k0)[k] by {
        let j = choose|j: int| 0 <= j < t.len() && key_at(t, j) == k;
        lemma_index_of(t, j);
        let sj = if j < i {
            j
        } else {
            j + 1
        };
        assert(key_at(s, sj) == k);
        lemma_index_of(s, sj);
    }
    assert(as_map(t) =~= as_map(s).remove(k0));
}

/// A map from string keys to values.
pub struct Keyed<V> {
    entries: Vec<(String, V)>,
}

impl<V> Keyed<V> {
    /// The keys are distinct.
    pub closed spec fn wf(&self) -> bool {
        unique_keys(self.entries@)
    }

    /// The map the store holds.
    pub closed spec fn map(&self) -> Map<Seq<char>, V> {
        as_map(self.entries@)
    }

    /// An empty store.
    pub fn new() -> (r: Keyed<V>)
        ensures
            r.wf(),
            r.map() == Map::<Seq<char>, V>::empty(),
    {
        let r = Keyed { entries: Vec::new() };
        assert(r.map() =~= Map::<Seq<char>, V>::empty());
        r
    }

    fn find(&self, key: &str) -> (r: Option<usize>)
        requires
            self.wf(),
        ensures
            match r {
                Some(i) => i < self.entries@.len() && key_at(self.entries@, i as int) == key@,
                None => !has_key(self.entries@, key@),
            },
    {
        let mut i: usize = 0;
        while i < self.entries.len()
            invariant
                i <= self.entries@.len(),
                forall|j: int| 0 <= j < i ==> key_at(self.entries@, j) != key@,
            decreases self.entries@.len() - i,
        {
            if str_eq(self.entries[i].0.as_str(), key) {
                return Some(i);
            }
            i = i + 1;
        }
        None
    }

    /// The value stored under `key`.
    pub fn get(&self, key: &str) -> (r: Option<&V>)
        requires
            self.wf(),
        ensures
            match r {
                Some(v) => self.map().contains_key(key@) && self.map()[key@] == *v,
                None => !self.map().contains_key(key@),
            },
    {
        match self.find(key) {
            Some(i) => {
                proof {
                    lemma_index_of(self.entries@, i as int);
                }
                Some(&self.entries[i].1)
            },
            None => None,
        }
    }

    /// The keys of the store, each once.
    pub fn keys(&self) -> (r: Vec<String>)
        requires
            self.wf(),
        ensures
            names(r@).no_duplicates(),
            forall|k: Seq<char>| names(r@).contains(k) <==> self.map().contains_key(k),
    {
        let mut r: Vec<String> = Vec::new();
        let mut i: usize = 0;
        while i < self.entries.len()
            invariant
                self.wf(),
                i <= self.entries@.len(),
                r@.len() == i,
                forall|j: int| 0 <= j < i ==> #[trigger] r@[j]@ == key_at(self.entries@, j),
            decreases self.entries@.len() - i,
        {
            r.push(self.entries[i].0.clone());
            i = i + 1;
        }
        proof {
            let s = self.entries@;
            assert forall|a: int, b: int|
                0 <= a < names(r@).len() && 0 <= b < names(r@).len() && a != b implies names(
                r@,
            )[a] != names(r@)[b] by {
                assert(names(r@)[a] == key_at(s, a));
                assert(names(r@)[b] == key_at(s, b));
            }
            assert forall|k: Seq<char>| names(r@).contains(k) <==> self.map().contains_key(k) by {
                if names(r@).contains(k) {
                    let j = choose|j: int| 0 <= j < names(r@).len() && names(r@)[j] == k;
                    assert(key_at(s, j) == k);
                }
                if self.map().contains_key(k) {
                    let j = choose|j: int| 0 <= j < s.len() && key_at(s, j) == k;
                    assert(names(r@)[j] == k);
                }
            }
        }
        r
    }

    /// Stores `value` under `key`, replacing what was there.
    pub fn insert(&mut self, key: String, value: V)
        requires
            old(self).wf(),
        ensures
            final(self).wf(),
            final(self).map() == old(self).map().insert(key@, value),
    {
        match self.find(key.as_str()) {
            Some(i) => {
                proof {
                    lemma_update(self.entries@, i as int, (key, value));
                }
                self.entries[i] = (key, value);
            },
            None => {
                proof {
                    lemma_push(self.entries@, (key, value));
                }
                self.entries.push((key, value));
            },
        }
    }

    /// Takes the value stored under `key` out of the store.
    pub fn remove(&mut self, key: &str) -> (r: Option<V>)
        requires
            old(self).wf(),
        ensures
            final(self).wf(),
            final(self).map() == old(self).map().remove(key@),
            match r {
                Some(v) => old(self).map().contains_key(key@) && old(self).map()[key@] == v,
                None => !old(self).map().contains_key(key@),
            },
    {
        match self.find(key) {
            Some(i) => {
                proof {
                    lemma_index_of(self.entries@, i as int);
                    lemma_remove(self.entries@, i as int);
                }
                let e = self.entries.remove(i);
                Some(e.1)
            },
            None => {
                assert(old(self).map().remove(key@) =~= old(self).map());
                None
            },
        }
    }
}

impl<V: Deadline> Keyed<V> {
    /// Drops every entry whose deadline is not after `now`.
    pub fn prune(&mut self, now: u64)
        requires
            old(self).wf(),
        ensures
            final(self).wf(),
            final(self).map() == live(old(self).map(), now),
    {
        let ghost goal = live(old(self).map(), now);
        let mut i: usize = 0;
        while i < self.entries.len()
            invariant
                i <= self.entries@.len(),
                unique_keys(self.entries@),
                live(as_map(self.entries@), now) == goal,
                forall|j: int| 0 <= j < i ==> #[trigger] self.entries@[j].1.deadline() > now,
            decreases self.entries@.len() - i,
        {
            let d = self.entries[i].1.expires_at();
            if d > now {
                i = i + 1;
            } else {
                let ghost s = self.entries@;
                proof {
                    lemma_index_of(s, i as int);
                    lemma_remove(s, i as int);
                    let m = as_map(s);
                    let k0 = key_at(s, i as int);
                    assert(live(m.remove(k0), now) =~= live(m, now));
                }
                self.entries.remove(i);
                assert forall|j: int| 0 <= j < i implies #[trigger] self.entries@[j].1.deadline()
                    > now by {
                    assert(self.entries@[j] == s[j]);
                }
            }
        }
        proof {
            let s = self.entries@;
            let m = as_map(s);
            assert forall|k: Seq<char>| #[trigger] m.contains_key(k) implies m[k].deadline()
                > now by {
                let j = choose|j: int| 0 <= j < s.len() && key_at(s, j) == k;
                lemma_index_of(s, j);
            }
            assert(live(m, now) =~= m);
        }
    }
}

} // verus!
