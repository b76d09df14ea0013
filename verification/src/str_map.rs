//! An insertion-ordered map keyed by strings.
//!
//! Entries keep the order in which their keys were first inserted; updating the
//! value of a present key keeps its place, and removing a key moves the last
//! entry into the freed slot (the behaviour of an unordered map backed by a
//! vector of entries).
use vstd::prelude::*;

verus! {

/// Map from strings to values, stored as a vector of entries with distinct keys.
pub struct StrMap<V> {
    entries: Vec<(String, V)>,
}

/// The abstract entries of a map: each key by its characters, with its value.
pub open spec fn entries_view<V>(entries: Seq<(String, V)>) -> Seq<(Seq<char>, V)> {
    entries.map_values(|e: (String, V)| (e.0@, e.1))
}

/// No key occurs twice in a sequence of entries.
pub open spec fn distinct_keys<V>(s: Seq<(Seq<char>, V)>) -> bool {
    forall|i: int, j: int| 0 <= i < s.len() && 0 <= j < s.len() && i != j ==> #[trigger] s[i].0 != #[trigger] s[j].0
}

/// Position of `k` among the keys of `s`, if it occurs.
pub open spec fn key_index<V>(s: Seq<(Seq<char>, V)>, k: Seq<char>) -> int {
    choose|i: int| 0 <= i < s.len() && s[i].0 == k
}

/// `k` occurs among the keys of `s`.
pub open spec fn has_key<V>(s: Seq<(Seq<char>, V)>, k: Seq<char>) -> bool {
    exists|i: int| 0 <= i < s.len() && #[trigger] s[i].0 == k
}

/// The value stored under `k` in `s`, if any.
pub open spec fn lookup<V>(s: Seq<(Seq<char>, V)>, k: Seq<char>) -> Option<V> {
    if has_key(s, k) {
        Some(s[key_index(s, k)].1)
    } else {
        None
    }
}

/// The entries after inserting `(k, v)`: in place when `k` is present, at the end otherwise.
pub open spec fn inserted<V>(s: Seq<(Seq<char>, V)>, k: Seq<char>, v: V) -> Seq<(Seq<char>, V)> {
    if has_key(s, k) {
        s.update(key_index(s, k), (k, v))
    } else {
        s.push((k, v))
    }
}

/// The entries after removing `k`: the last entry takes the place of the removed one.
pub open spec fn removed<V>(s: Seq<(Seq<char>, V)>, k: Seq<char>) -> Seq<(Seq<char>, V)> {
    if has_key(s, k) {
        s.update(key_index(s, k), s.last()).drop_last()
    } else {
        s
    }
}

/// Changing the value of an entry keeps the keys distinct.
pub proof fn lemma_update_value<V>(s: Seq<(Seq<char>, V)>, i: int, v: V)
    requires
        distinct_keys(s),
        0 <= i < s.len(),
    ensures
        distinct_keys(s.update(i, (s[i].0, v))),
        s.update(i, (s[i].0, v)) == inserted(s, s[i].0, v),
{
    lemma_key_index(s, i);
    let t = s.update(i, (s[i].0, v));
    assert forall|a: int, b: int| 0 <= a < t.len() && 0 <= b < t.len() && a != b implies
        #[trigger] t[a].0 != #[trigger] t[b].0 by {
        assert(t[a].0 == s[a].0 && t[b].0 == s[b].0);
    }
}

/// In a sequence with distinct keys, the position of a present key is the one it occupies.
pub proof fn lemma_key_index<V>(s: Seq<(Seq<char>, V)>, i: int)
    requires
        distinct_keys(s),
        0 <= i < s.len(),
    ensures
        has_key(s, s[i].0),
        key_index(s, s[i].0) == i,
        lookup(s, s[i].0) == Some(s[i].1),
{
    assert(s[i].0 == s[i].0);
    let j = key_index(s, s[i].0);
    assert(0 <= j < s.len() && s[j].0 == s[i].0);
}

/// Inserting keeps keys distinct and stores the value under its key, leaving every other key.
pub proof fn lemma_inserted<V>(s: Seq<(Seq<char>, V)>, k: Seq<char>, v: V)
    requires
        distinct_keys(s),
    ensures
        distinct_keys(inserted(s, k, v)),
        lookup(inserted(s, k, v), k) == Some(v),
        forall|k2: Seq<char>| k2 != k ==> lookup(inserted(s, k, v), k2) == lookup(s, k2),
        forall|k2: Seq<char>| has_key(inserted(s, k, v), k2) <==> (has_key(s, k2) || k2 == k),
{
    let t = inserted(s, k, v);
    if has_key(s, k) {
        let i = key_index(s, k);
        assert(t.len() == s.len());
    } else {
        assert(t[s.len() as int].0 == k);
    }
    assert(distinct_keys(t));
    let n = if has_key(s, k) { key_index(s, k) } else { s.len() as int };
    assert(t[n] == (k, v));
    lemma_key_index(t, n);
    assert forall|k2: Seq<char>| k2 != k implies lookup(t, k2) == lookup(s, k2) by {
        if has_key(s, k2) {
            let j = key_index(s, k2);
            assert(t[j] == s[j]);
            lemma_key_index(t, j);
        }
        if has_key(t, k2) {
            let j = key_index(t, k2);
            assert(s[j] == t[j]);
        }
    }
    assert forall|k2: Seq<char>| has_key(t, k2) <==> (has_key(s, k2) || k2 == k) by {
        if has_key(s, k2) {
            let j = key_index(s, k2);
            if k2 != k {
                assert(t[j] == s[j]);
            }
        }
        if has_key(t, k2) && k2 != k {
            let j = key_index(t, k2);
            assert(s[j] == t[j]);
        }
    }
}

/// A property of every entry holds after inserting an entry that has it.
pub proof fn lemma_inserted_all<V>(s: Seq<(Seq<char>, V)>, k: Seq<char>, v: V, p: spec_fn((Seq<char>, V)) -> bool)
    requires
        forall|j: int| 0 <= j < s.len() ==> p(#[trigger] s[j]),
        p((k, v)),
    ensures
        forall|j: int| 0 <= j < inserted(s, k, v).len() ==> p(#[trigger] inserted(s, k, v)[j]),
{
    let t = inserted(s, k, v);
    assert forall|j: int| 0 <= j < t.len() implies p(#[trigger] t[j]) by {
        if has_key(s, k) {
            if j != key_index(s, k) {
                assert(t[j] == s[j]);
            }
        } else if j < s.len() {
            assert(t[j] == s[j]);
        }
    }
}

/// Removing keeps keys distinct, drops the key and leaves every other key.
pub proof fn lemma_removed<V>(s: Seq<(Seq<char>, V)>, k: Seq<char>)
    requires
        distinct_keys(s),
    ensures
        distinct_keys(removed(s, k)),
        lookup(removed(s, k), k) == None::<V>,
        forall|k2: Seq<char>| k2 != k ==> lookup(removed(s, k), k2) == lookup(s, k2),
        forall|k2: Seq<char>| has_key(removed(s, k), k2) <==> (has_key(s, k2) && k2 != k),
        has_key(s, k) ==> removed(s, k).len() + 1 == s.len(),
{
    let t = removed(s, k);
    if has_key(s, k) {
        let i = key_index(s, k);
        let last = s.len() - 1;
        assert(distinct_keys(t)) by {
            assert forall|a: int, b: int| 0 <= a < t.len() && 0 <= b < t.len() && a != b implies
                #[trigger] t[a].0 != #[trigger] t[b].0 by {
                let a0 = if a == i { last } else { a };
                let b0 = if b == i { last } else { b };
                assert(t[a] == s[a0]);
                assert(t[b] == s[b0]);
            }
        }
        assert forall|k2: Seq<char>| has_key(t, k2) <==> (has_key(s, k2) && k2 != k) by {
            if has_key(t, k2) {
                let j = key_index(t, k2);
                let j0 = if j == i { last } else { j };
                assert(t[j] == s[j0]);
                assert(s[j0].0 == k2);
            }
            if has_key(s, k2) && k2 != k {
                let j = key_index(s, k2);
                if j == last {
                    assert(t[i] == s[last]);
                } else {
                    assert(t[j] == s[j]);
                }
            }
        }
        assert forall|k2: Seq<char>| k2 != k implies lookup(t, k2) == lookup(s, k2) by {
            if has_key(s, k2) {
                let j = key_index(s, k2);
                let j1 = if j == last { i } else { j };
                assert(t[j1] == s[j]);
                lemma_key_index(t, j1);
            }
        }
    }
}

/// The entries with every value mapped by `f`.
pub open spec fn map_vals<V, W>(s: Seq<(Seq<char>, V)>, f: spec_fn(V) -> W) -> Seq<(Seq<char>, W)> {
    s.map_values(|e: (Seq<char>, V)| (e.0, f(e.1)))
}

/// Mapping values keeps the keys, so it commutes with lookup, insertion and removal.
pub proof fn lemma_map_vals<V, W>(s: Seq<(Seq<char>, V)>, f: spec_fn(V) -> W, k: Seq<char>, v: V)
    ensures
        has_key(map_vals(s, f), k) == has_key(s, k),
        distinct_keys(s) && has_key(s, k) ==> key_index(map_vals(s, f), k) == key_index(s, k),
        distinct_keys(s) ==> distinct_keys(map_vals(s, f)),
        distinct_keys(s) ==> lookup(map_vals(s, f), k) == match lookup(s, k) {
            Some(x) => Some(f(x)),
            None => None,
        },
        distinct_keys(s) ==> map_vals(inserted(s, k, v), f) == inserted(map_vals(s, f), k, f(v)),
        distinct_keys(s) ==> map_vals(removed(s, k), f) == removed(map_vals(s, f), k),
{
    let t = map_vals(s, f);
    if has_key(s, k) {
        let i = key_index(s, k);
        assert(t[i].0 == k);
    }
    if has_key(t, k) {
        let i = key_index(t, k);
        assert(s[i].0 == k);
    }
    if distinct_keys(s) {
        assert(distinct_keys(t)) by {
            assert forall|a: int, b: int| 0 <= a < t.len() && 0 <= b < t.len() && a != b implies
                #[trigger] t[a].0 != #[trigger] t[b].0 by {
                assert(t[a].0 == s[a].0 && t[b].0 == s[b].0);
            }
        }
        if has_key(s, k) {
            let i = key_index(s, k);
            lemma_key_index(s, i);
            lemma_key_index(t, i);
            assert(map_vals(inserted(s, k, v), f) =~= inserted(t, k, f(v)));
            assert(map_vals(removed(s, k), f) =~= removed(t, k));
        } else {
            assert(map_vals(inserted(s, k, v), f) =~= inserted(t, k, f(v)));
            assert(map_vals(removed(s, k), f) =~= removed(t, k));
        }
    }
}

impl<V> StrMap<V> {
    /// The entries of the map, in order.
    pub closed spec fn spec_entries(&self) -> Seq<(Seq<char>, V)> {
        entries_view(self.entries@)
    }

    /// Keys are distinct.
    pub open spec fn wf(&self) -> bool {
        distinct_keys(self.spec_entries())
    }

    /// Value stored under `k`.
    pub open spec fn spec_get(&self, k: Seq<char>) -> Option<V> {
        lookup(self.spec_entries(), k)
    }

    /// `k` is a key of the map.
    pub open spec fn spec_contains(&self, k: Seq<char>) -> bool {
        has_key(self.spec_entries(), k)
    }

    /// Number of entries.
    pub open spec fn spec_len(&self) -> nat {
        self.spec_entries().len()
    }

    /// An empty map.
    pub fn new() -> (m: Self)
        ensures
            m.wf(),
            m.spec_entries() == Seq::<(Seq<char>, V)>::empty(),
    {
        let m = StrMap { entries: Vec::new() };
        assert(m.spec_entries() =~= Seq::<(Seq<char>, V)>::empty());
        m
    }

    /// Number of entries.
    pub fn len(&self) -> (n: usize)
        ensures
            n == self.spec_len(),
    {
        self.entries.len()
    }

    /// Key of the entry at position `i`.
    pub fn key_at(&self, i: usize) -> (k: &String)
        requires
            i < self.spec_len(),
        ensures
            k@ == self.spec_entries()[i as int].0,
    {
        &self.entries[i].0
    }

    /// Value of the entry at position `i`.
    pub fn value_at(&self, i: usize) -> (v: &V)
        requires
            i < self.spec_len(),
        ensures
            *v == self.spec_entries()[i as int].1,
    {
        &self.entries[i].1
    }

    /// Position of `k`, if it is a key.
    pub fn find(&self, k: &String) -> (r: Option<usize>)
        requires
            self.wf(),
        ensures
            r is None <==> !self.spec_contains(k@),
            r matches Some(i) ==> i < self.spec_len() && i == key_index(self.spec_entries(), k@)
                && self.spec_entries()[i as int].0 == k@,
    {
        let n = self.entries.len();
        let mut i: usize = 0;
        while i < n
            invariant
                n == self.entries@.len(),
                self.wf(),
                i <= n,
                forall|j: int| 0 <= j < i ==> #[trigger] self.spec_entries()[j].0 != k@,
            decreases n - i,
        {
            if self.entries[i].0 == *k {
                proof {
                    lemma_key_index(self.spec_entries(), i as int);
                }
                return Some(i);
            }
            i = i + 1;
        }
        None
    }

    /// Value stored under `k`.
    pub fn get(&self, k: &String) -> (r: Option<&V>)
        requires
            self.wf(),
        ensures
            r matches Some(v) ==> self.spec_get(k@) == Some(*v),
            r is None ==> self.spec_get(k@) is None,
    {
        match self.find(k) {
            Some(i) => Some(&self.entries[i].1),
            None => None,
        }
    }

    /// `k` is a key of the map.
    pub fn contains_key(&self, k: &String) -> (b: bool)
        requires
            self.wf(),
        ensures
            b == self.spec_contains(k@),
    {
        self.find(k).is_some()
    }

    /// Stores `v` under `k`; a present key keeps its position.
    pub fn insert(&mut self, k: String, v: V)
        requires
            old(self).wf(),
        ensures
            final(self).wf(),
            final(self).spec_entries() == inserted(old(self).spec_entries(), k@, v),
    {
        proof {
            lemma_inserted(self.spec_entries(), k@, v);
        }
        let ghost ks = k@;
        match self.find(&k) {
            Some(i) => {
                self.entries.set(i, (k, v));
                assert(self.spec_entries() =~= inserted(old(self).spec_entries(), ks, v));
            },
            None => {
                self.entries.push((k, v));
                assert(self.spec_entries() =~= inserted(old(self).spec_entries(), ks, v));
            },
        }
    }

    /// Replaces the value of the entry at position `i`.
    pub fn set_value_at(&mut self, i: usize, v: V)
        requires
            old(self).wf(),
            i < old(self).spec_len(),
        ensures
            final(self).wf(),
            final(self).spec_entries() == old(self).spec_entries().update(
                i as int,
                (old(self).spec_entries()[i as int].0, v),
            ),
    {
        let k = self.entries[i].0.clone();
        self.entries.set(i, (k, v));
        assert(self.spec_entries() =~= old(self).spec_entries().update(
            i as int,
            (old(self).spec_entries()[i as int].0, v),
        ));
    }

    /// Mutable access to the value of the entry at position `i`; its key stays.
    pub fn value_mut_at(&mut self, i: usize) -> (r: &mut V)
        requires
            i < old(self).spec_len(),
        ensures
            *r == old(self).spec_entries()[i as int].1,
            final(self).spec_entries() == old(self).spec_entries().update(
                i as int,
                (old(self).spec_entries()[i as int].0, *final(r)),
            ),
    {
        let e = vstd::std_specs::vec::vec_index_mut(&mut self.entries, i);
        &mut e.1
    }

    /// A copy of the map whose values are copied by `f`.
    pub fn clone_with<F: Fn(&V) -> V>(&self, f: F) -> (r: Self)
        requires
            forall|v: &V| #[trigger] f.requires((v,)),
            forall|v: &V, w: V| #[trigger] f.ensures((v,), w) ==> w == *v,
        ensures
            r.spec_entries() == self.spec_entries(),
    {
        let mut entries: Vec<(String, V)> = Vec::new();
        let n = self.entries.len();
        let mut i: usize = 0;
        while i < n
            invariant
                n == self.entries@.len(),
                i <= n,
                forall|v: &V| #[trigger] f.requires((v,)),
                forall|v: &V, w: V| #[trigger] f.ensures((v,), w) ==> w == *v,
                entries@.len() == i,
                entries_view(entries@) == entries_view(self.entries@).subrange(0, i as int),
            decreases n - i,
        {
            let ghost e0 = entries@;
            let k = self.entries[i].0.clone();
            let v = f(&self.entries[i].1);
            entries.push((k, v));
            proof {
                assert forall|j: int| 0 <= j < i + 1 implies #[trigger] entries_view(entries@)[j]
                    == entries_view(self.entries@)[j] by {
                    if j < i {
                        assert(entries_view(e0)[j] == entries_view(self.entries@).subrange(0, i as int)[j]);
                    }
                }
            }
            i = i + 1;
            assert(entries_view(entries@) =~= entries_view(self.entries@).subrange(0, i as int));
        }
        assert(entries_view(self.entries@).subrange(0, n as int) =~= entries_view(self.entries@));
        StrMap { entries }
    }

    /// Removes `k`, moving the last entry into its place; returns the removed value.
    pub fn remove(&mut self, k: &String) -> (r: Option<V>)
        requires
            old(self).wf(),
        ensures
            final(self).wf(),
            final(self).spec_entries() == removed(old(self).spec_entries(), k@),
            r == old(self).spec_get(k@),
    {
        proof {
            lemma_removed(self.spec_entries(), k@);
        }
        match self.find(k) {
            Some(i) => {
                proof {
                    lemma_key_index(self.spec_entries(), i as int);
                }
                let e = self.entries.swap_remove(i);
                assert(self.spec_entries() =~= removed(old(self).spec_entries(), k@));
                Some(e.1)
            },
            None => None,
        }
    }
}

} // verus!
