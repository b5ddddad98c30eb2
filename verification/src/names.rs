//! A small map from names to values that keeps insertion order.

use vstd::prelude::*;
use vstd::string::*;

verus! {

/// No name occurs twice among the entries.
pub open spec fn unique_keys<T>(s: Seq<(Seq<char>, T)>) -> bool {
    forall|i: int, j: int| 0 <= i < j < s.len() ==> (#[trigger] s[i]).0 != (#[trigger] s[j]).0
}

/// Some entry carries the name `k`.
pub open spec fn has_key<T>(s: Seq<(Seq<char>, T)>, k: Seq<char>) -> bool {
    exists|i: int| 0 <= i < s.len() && (#[trigger] s[i]).0 == k
}

/// The position of an entry that carries the name `k`.
pub open spec fn key_index<T>(s: Seq<(Seq<char>, T)>, k: Seq<char>) -> int {
    choose|i: int| 0 <= i < s.len() && (#[trigger] s[i]).0 == k
}

/// The map that a sequence of entries stands for.
pub open spec fn as_map<T>(s: Seq<(Seq<char>, T)>) -> Map<Seq<char>, T> {
    Map::new(|k: Seq<char>| has_key(s, k), |k: Seq<char>| s[key_index(s, k)].1)
}

/// With unique names, the entry at position `i` is what the map holds under its name.
pub proof fn lemma_entry_in_map<T>(s: Seq<(Seq<char>, T)>, i: int)
    requires
        unique_keys(s),
        0 <= i < s.len(),
    ensures
        has_key(s, s[i].0),
        key_index(s, s[i].0) == i,
        as_map(s).contains_key(s[i].0),
        as_map(s)[s[i].0] == s[i].1,
{
    let k = s[i].0;
    assert(has_key(s, k));
    let j = key_index(s, k);
    assert(0 <= j < s.len() && s[j].0 == k);
    if j < i {
        assert(s[j].0 != s[i].0);
    } else if i < j {
        assert(s[i].0 != s[j].0);
    }
}

/// Appending an entry under a fresh name inserts it into the map.
pub proof fn lemma_push_inserts<T>(s: Seq<(Seq<char>, T)>, k: Seq<char>, v: T)
    requires
        unique_keys(s),
        !has_key(s, k),
    ensures
        unique_keys(s.push((k, v))),
        as_map(s.push((k, v))) == as_map(s).insert(k, v),
{
    let t = s.push((k, v));
    assert forall|i: int, j: int| 0 <= i < j < t.len() implies (#[trigger] t[i]).0 != (#[trigger] t[j]).0 by {
        if j < s.len() {
            assert(s[i].0 != s[j].0);
        } else {
            assert(s[i] == t[i]);
            if t[i].0 == k {
                assert(has_key(s, k));
            }
        }
    }
    assert(t[s.len() as int] == (k, v));
    assert forall|q: Seq<char>| has_key(t, q) <==> (has_key(s, q) || q == k) by {
        if has_key(t, q) {
            let i = key_index(t, q);
            if i < s.len() {
                assert(s[i] == t[i]);
            }
        }
        if has_key(s, q) {
            let i = key_index(s, q);
            assert(t[i] == s[i]);
        }
    }
    assert forall|q: Seq<char>| has_key(t, q) implies #[trigger] as_map(t)[q] == as_map(s).insert(k, v)[q] by {
        let i = key_index(t, q);
        lemma_entry_in_map(t, i);
        if i < s.len() {
            assert(s[i] == t[i]);
            lemma_entry_in_map(s, i);
        }
    }
    assert(as_map(t) =~= as_map(s).insert(k, v));
}

/// Replacing the value at position `i` changes the map under that name only.
pub proof fn lemma_update_inserts<T>(s: Seq<(Seq<char>, T)>, i: int, v: T)
    requires
        unique_keys(s),
        0 <= i < s.len(),
    ensures
        unique_keys(s.update(i, (s[i].0, v))),
        as_map(s.update(i, (s[i].0, v))) == as_map(s).insert(s[i].0, v),
{
    let k = s[i].0;
    let t = s.update(i, (k, v));
    assert forall|a: int| 0 <= a < s.len() implies (#[trigger] t[a]).0 == s[a].0 by {}
    assert forall|a: int, b: int| 0 <= a < b < t.len() implies (#[trigger] t[a]).0 != (#[trigger] t[b]).0 by {
        assert(s[a].0 != s[b].0);
    }
    assert forall|q: Seq<char>| has_key(t, q) <==> has_key(s, q) by {
        if has_key(t, q) {
            let a = key_index(t, q);
            assert(s[a].0 == q);
        }
        if has_key(s, q) {
            let a = key_index(s, q);
            assert(t[a].0 == q);
        }
    }
    lemma_entry_in_map(s, i);
    assert forall|q: Seq<char>| has_key(t, q) implies #[trigger] as_map(t)[q] == as_map(s).insert(k, v)[q] by {
        let a = key_index(t, q);
        lemma_entry_in_map(t, a);
        lemma_entry_in_map(s, a);
        if a != i {
            assert(t[a] == s[a]);
        }
    }
    assert(as_map(t) =~= as_map(s).insert(k, v));
}

/// Dropping the entry at position `i` removes its name from the map.
pub proof fn lemma_remove_removes<T>(s: Seq<(Seq<char>, T)>, i: int)
    requires
        unique_keys(s),
        0 <= i < s.len(),
    ensures
        unique_keys(s.remove(i)),
        !has_key(s.remove(i), s[i].0),
        as_map(s.remove(i)) == as_map(s).remove(s[i].0),
{
    let k = s[i].0;
    let t = s.remove(i);
    assert forall|a: int| 0 <= a < t.len() implies #[trigger] t[a] == s[if a < i { a } else { a + 1 }] by {}
    assert forall|a: int, b: int| 0 <= a < b < t.len() implies (#[trigger] t[a]).0 != (#[trigger] t[b]).0 by {
        let a2 = if a < i { a } else { a + 1 };
        let b2 = if b < i { b } else { b + 1 };
        assert(s[a2].0 != s[b2].0);
    }
    if has_key(t, k) {
        let a = key_index(t, k);
        let a2 = if a < i { a } else { a + 1 };
        assert(t[a] == s[a2]);
        if a2 < i {
            assert(s[a2].0 != s[i].0);
        } else {
            assert(s[i].0 != s[a2].0);
        }
    }
    assert forall|q: Seq<char>| has_key(t, q) <==> (has_key(s, q) && q != k) by {
        if has_key(t, q) {
            let a = key_index(t, q);
            let a2 = if a < i { a } else { a + 1 };
            assert(t[a] == s[a2]);
        }
        if has_key(s, q) && q != k {
            let a = key_index(s, q);
            let a1 = if a < i { a } else { a - 1 };
            assert(t[a1] == s[a]);
        }
    }
    assert forall|q: Seq<char>| has_key(t, q) implies #[trigger] as_map(t)[q] == as_map(s).remove(k)[q] by {
        let a = key_index(t, q);
        let a2 = if a < i { a } else { a + 1 };
        assert(t[a] == s[a2]);
        lemma_entry_in_map(t, a);
        lemma_entry_in_map(s, a2);
    }
    assert(as_map(t) =~= as_map(s).remove(k));
}

/// Whether two pieces of text hold the same characters.
pub fn same_text(a: &str, b: &str) -> (r: bool)
    ensures
        r == (a@ == b@),
{
    let x = String::from_str(a);
    let y = String::from_str(b);
    x == y
}

/// A map from names to values, kept in the order in which names were first inserted.
pub struct NameMap<V> {
    items: Vec<(String, V)>,
}

impl<V: View> NameMap<V> {
    /// The entries in order, each as a name and the view of its value.
    pub closed spec fn entries(&self) -> Seq<(Seq<char>, V::V)> {
        Seq::new(self.items@.len(), |i: int| (self.items@[i].0@, self.items@[i].1@))
    }

    /// No name occurs twice.
    pub open spec fn wf(&self) -> bool {
        unique_keys(self.entries())
    }

    /// The map from each name to the view of its value.
    pub open spec fn map(&self) -> Map<Seq<char>, V::V> {
        as_map(self.entries())
    }

    /// An empty map.
    pub fn new() -> (m: Self)
        ensures
            m.wf(),
            m.entries() == Seq::<(Seq<char>, V::V)>::empty(),
            m.map() == Map::<Seq<char>, V::V>::empty(),
    {
        let m = NameMap { items: Vec::new() };
        proof {
            assert(m.entries() =~= Seq::<(Seq<char>, V::V)>::empty());
            assert(m.map() =~= Map::<Seq<char>, V::V>::empty());
        }
        m
    }

    /// The number of entries.
    pub fn len(&self) -> (n: usize)
        ensures
            n == self.entries().len(),
    {
        self.items.len()
    }

    /// The name of the entry at position `i`.
    pub fn name_at(&self, i: usize) -> (name: &String)
        requires
            i < self.entries().len(),
        ensures
            name@ == self.entries()[i as int].0,
    {
        &self.items[i].0
    }

    /// The value of the entry at position `i`.
    pub fn value_at(&self, i: usize) -> (value: &V)
        requires
            i < self.entries().len(),
        ensures
            value@ == self.entries()[i as int].1,
    {
        &self.items[i].1
    }

    /// The position of the entry called `name`, if there is one.
    pub fn position(&self, name: &str) -> (at: Option<usize>)
        ensures
            match at {
                Some(i) => i < self.entries().len() && self.entries()[i as int].0 == name@ && forall|j: int|
                    0 <= j < i ==> (#[trigger] self.entries()[j]).0 != name@,
                None => !has_key(self.entries(), name@),
            },
    {
        let mut i: usize = 0;
        while i < self.items.len()
            invariant
                i <= self.items@.len(),
                forall|j: int| 0 <= j < i ==> (#[trigger] self.entries()[j]).0 != name@,
            decreases self.items@.len() - i,
        {
            if same_text(self.items[i].0.as_str(), name) {
                return Some(i);
            }
            i += 1;
        }
        None
    }

    /// Whether an entry is called `name`.
    pub fn contains_key(&self, name: &str) -> (b: bool)
        ensures
            b == self.map().contains_key(name@),
    {
        self.position(name).is_some()
    }

    /// The value stored under `name`, if there is one.
    pub fn get(&self, name: &str) -> (found: Option<&V>)
        requires
            self.wf(),
        ensures
            match found {
                Some(v) => self.map().contains_key(name@) && self.map()[name@] == v@,
                None => !self.map().contains_key(name@),
            },
    {
        match self.position(name) {
            Some(i) => {
                proof {
                    lemma_entry_in_map(self.entries(), i as int);
                }
                Some(&self.items[i].1)
            },
            None => None,
        }
    }

    /// Stores `value` under `name`: an entry of that name keeps its place and gets
    /// the new value, a new name goes to the end.
    pub fn insert(&mut self, name: String, value: V)
        requires
            old(self).wf(),
        ensures
            final(self).wf(),
            final(self).map() == old(self).map().insert(name@, value@),
            final(self).entries() == put(old(self).entries(), name@, value@),
    {
        let ghost before = self.entries();
        match self.position(name.as_str()) {
            Some(i) => {
                proof {
                    lemma_entry_in_map(before, i as int);
                    lemma_update_inserts(before, i as int, value@);
                }
                self.items[i] = (name, value);
                proof {
                    assert(self.entries() =~= before.update(i as int, (name@, value@)));
                }
            },
            None => {
                proof {
                    lemma_push_inserts(before, name@, value@);
                }
                self.items.push((name, value));
                proof {
                    assert(self.entries() =~= before.push((name@, value@)));
                }
            },
        }
    }

    /// Takes the entry called `name` out; the others keep their order. Says whether
    /// there was one.
    pub fn remove(&mut self, name: &str) -> (was_there: bool)
        requires
            old(self).wf(),
        ensures
            final(self).wf(),
            was_there == old(self).map().contains_key(name@),
            final(self).map() == old(self).map().remove(name@),
            match key_position(old(self).entries(), name@) {
                Some(i) => final(self).entries() == old(self).entries().remove(i),
                None => final(self).entries() == old(self).entries(),
            },
    {
        let ghost before = self.entries();
        match self.position(name) {
            Some(i) => {
                proof {
                    lemma_entry_in_map(before, i as int);
                    lemma_remove_removes(before, i as int);
                }
                self.items.remove(i);
                proof {
                    assert(self.entries() =~= before.remove(i as int));
                }
                true
            },
            None => {
                proof {
                    assert(self.map() =~= self.map().remove(name@));
                }
                false
            },
        }
    }
}

/// The position of the entry called `k`, where there is one.
pub open spec fn key_position<T>(s: Seq<(Seq<char>, T)>, k: Seq<char>) -> Option<int> {
    if has_key(s, k) {
        Some(key_index(s, k))
    } else {
        None
    }
}

/// The entries after `v` was stored under `k`: an entry of that name keeps its
/// place and gets the new value, a new name goes to the end.
pub open spec fn put<T>(s: Seq<(Seq<char>, T)>, k: Seq<char>, v: T) -> Seq<(Seq<char>, T)> {
    match key_position(s, k) {
        Some(i) => s.update(i, (k, v)),
        None => s.push((k, v)),
    }
}

/// The entries after the first `n` entries of `more` were stored, one after the
/// other.
pub open spec fn put_all<T>(s: Seq<(Seq<char>, T)>, more: Seq<(Seq<char>, T)>, n: int) -> Seq<(Seq<char>, T)>
    decreases n,
{
    if n <= 0 {
        s
    } else {
        put(put_all(s, more, n - 1), more[n - 1].0, more[n - 1].1)
    }
}

} // verus!
