//! A small map keyed by strings, viewed as a mathematical map from character
//! sequences to values. Keys are kept unique.
use crate::text::str_eq;
use vstd::prelude::*;

verus! {

/// The map described by a list of key/value entries; later entries win.
pub open spec fn entries_map<V>(s: Seq<(String, V)>) -> Map<Seq<char>, V>
    decreases s.len(),
{
    if s.len() == 0 {
        Map::empty()
    } else {
        entries_map(s.drop_last()).insert(s.last().0@, s.last().1)
    }
}

/// No key occurs twice.
pub open spec fn unique_keys<V>(s: Seq<(String, V)>) -> bool {
    forall|i: int, j: int| 0 <= i < j < s.len() ==> (#[trigger] s[i]).0@ != (#[trigger] s[j]).0@
}

pub proof fn lemma_entries_map_has<V>(s: Seq<(String, V)>, i: int)
    requires
        unique_keys(s),
        0 <= i < s.len(),
    ensures
        entries_map(s).contains_key(s[i].0@),
        entries_map(s)[s[i].0@] == s[i].1,
    decreases s.len(),
{
    if i < s.len() - 1 {
        lemma_entries_map_has(s.drop_last(), i);
        assert(s.drop_last()[i] == s[i]);
        assert(s[i].0@ != s[s.len() - 1].0@);
    }
}

pub proof fn lemma_entries_map_lacks<V>(s: Seq<(String, V)>, k: Seq<char>)
    requires
        forall|i: int| 0 <= i < s.len() ==> (#[trigger] s[i]).0@ != k,
    ensures
        !entries_map(s).contains_key(k),
    decreases s.len(),
{
    if s.len() > 0 {
        assert forall|i: int| 0 <= i < s.drop_last().len() implies (
        #[trigger] s.drop_last()[i]).0@ != k by {
            assert(s.drop_last()[i] == s[i]);
        }
        lemma_entries_map_lacks(s.drop_last(), k);
    }
}

pub proof fn lemma_entries_map_domain<V>(s: Seq<(String, V)>, k: Seq<char>)
    requires
        unique_keys(s),
    ensures
        entries_map(s).contains_key(k) <==> exists|i: int| 0 <= i < s.len() && (#[trigger] s[i]).0@
            == k,
{
    if exists|i: int| 0 <= i < s.len() && (#[trigger] s[i]).0@ == k {
        let i = choose|i: int| 0 <= i < s.len() && (#[trigger] s[i]).0@ == k;
        lemma_entries_map_has(s, i);
    } else {
        lemma_entries_map_lacks(s, k);
    }
}

/// `entries_map` is determined by keys and values of a unique-key list.
pub proof fn lemma_entries_map_ext<V>(s: Seq<(String, V)>, t: Seq<(String, V)>, m: Map<Seq<char>, V>)
    requires
        unique_keys(t),
        forall|k: Seq<char>| m.contains_key(k) <==> exists|i: int| 0 <= i < t.len() && (#[trigger] t[i]).0@ == k,
        forall|i: int| 0 <= i < t.len() ==> m[(#[trigger] t[i]).0@] == t[i].1,
    ensures
        entries_map(t) =~= m,
{
    assert forall|k: Seq<char>| #[trigger] entries_map(t).contains_key(k) == m.contains_key(k) by {
        lemma_entries_map_domain(t, k);
    }
    assert forall|k: Seq<char>| #[trigger] entries_map(t).contains_key(k) implies entries_map(t)[k]
        == m[k] by {
        lemma_entries_map_domain(t, k);
        let i = choose|i: int| 0 <= i < t.len() && (#[trigger] t[i]).0@ == k;
        lemma_entries_map_has(t, i);
    }
}

/// A map from strings to values with at most one entry per key.
pub struct StrMap<V> {
    entries: Vec<(String, V)>,
}

impl<V> View for StrMap<V> {
    type V = Map<Seq<char>, V>;

    closed spec fn view(&self) -> Map<Seq<char>, V> {
        entries_map(self.entries@)
    }
}

impl<V> StrMap<V> {
    #[verifier::type_invariant]
    closed spec fn inv(self) -> bool {
        unique_keys(self.entries@)
    }
}

impl<V> StrMap<V> {
    /// The empty map.
    pub fn new() -> (m: Self)
        ensures
            m@ == Map::<Seq<char>, V>::empty(),
    {
        StrMap { entries: Vec::new() }
    }
}

impl<V: Copy> StrMap<V> {

    proof fn lemma_view_has(&self, i: int)
        requires
            unique_keys(self.entries@),
            0 <= i < self.entries@.len(),
        ensures
            self@.contains_key(self.entries@[i].0@),
            self@[self.entries@[i].0@] == self.entries@[i].1,
    {
        lemma_entries_map_has(self.entries@, i);
    }

    /// Position of `key` in the entry list, if present.
    fn find(&self, key: &str) -> (r: Option<usize>)
        ensures
            match r {
                Some(i) => i < self.entries@.len() && self.entries@[i as int].0@ == key@,
                None => forall|i: int| 0 <= i < self.entries@.len() ==> (
                #[trigger] self.entries@[i]).0@ != key@,
            },
    {
        let mut i: usize = 0;
        while i < self.entries.len()
            invariant
                i <= self.entries@.len(),
                forall|j: int| 0 <= j < i ==> (#[trigger] self.entries@[j]).0@ != key@,
            decreases self.entries@.len() - i,
        {
            if str_eq(self.entries[i].0.as_str(), key) {
                return Some(i);
            }
            i = i + 1;
        }
        None
    }

    /// The value stored under `key`.
    pub fn get(&self, key: &str) -> (r: Option<V>)
        ensures
            r == (if self@.contains_key(key@) {
                Some(self@[key@])
            } else {
                None
            }),
    {
        proof {
            use_type_invariant(self);
        }
        match self.find(key) {
            Some(i) => {
                proof {
                    self.lemma_view_has(i as int);
                }
                Some(self.entries[i].1)
            },
            None => {
                proof {
                    lemma_entries_map_lacks(self.entries@, key@);
                }
                None
            },
        }
    }

    /// Whether `key` has a value.
    pub fn contains_key(&self, key: &str) -> (r: bool)
        ensures
            r == self@.contains_key(key@),
    {
        self.get(key).is_some()
    }

    /// Stores `value` under `key`, returning the value it replaces.
    pub fn insert(&mut self, key: String, value: V) -> (r: Option<V>)
        ensures
            final(self)@ == old(self)@.insert(key@, value),
            r == (if old(self)@.contains_key(key@) {
                Some(old(self)@[key@])
            } else {
                None
            }),
    {
        proof {
            use_type_invariant(&*self);
        }
        let ghost old_entries = self.entries@;
        match self.find(key.as_str()) {
            Some(i) => {
                proof {
                    lemma_entries_map_has(old_entries, i as int);
                }
                let prev = self.entries[i].1;
                let ghost m = entries_map(old_entries).insert(key@, value);
                let mut entries: Vec<(String, V)> = Vec::new();
                std::mem::swap(&mut entries, &mut self.entries);
                entries.set(i, (key, value));
                proof {
                    let t = entries@;
                    assert(unique_keys(t)) by {
                        assert forall|a: int, b: int| 0 <= a < b < t.len() implies (
                        #[trigger] t[a]).0@ != (#[trigger] t[b]).0@ by {
                            if a != i && b != i {
                                assert(t[a] == old_entries[a] && t[b] == old_entries[b]);
                            } else if a == i {
                                assert(t[b] == old_entries[b]);
                                assert(old_entries[a].0@ != old_entries[b].0@);
                            } else {
                                assert(t[a] == old_entries[a]);
                                assert(old_entries[a].0@ != old_entries[b].0@);
                            }
                        }
                    }
                    assert forall|k: Seq<char>| m.contains_key(k) <==> exists|j: int|
                        0 <= j < t.len() && (#[trigger] t[j]).0@ == k by {
                        lemma_entries_map_domain(old_entries, k);
                        assert(t[i as int].0@ == key@);
                        if m.contains_key(k) && k != key@ {
                            let j = choose|j: int| 0 <= j < old_entries.len() && (
                            #[trigger] old_entries[j]).0@ == k;
                            assert(j != i);
                            assert(t[j] == old_entries[j]);
                            assert(t[j].0@ == k);
                        }
                        if m.contains_key(k) && k == key@ {
                            assert(t[i as int].0@ == k);
                        }
                        if exists|j: int| 0 <= j < t.len() && (#[trigger] t[j]).0@ == k {
                            let j = choose|j: int| 0 <= j < t.len() && (#[trigger] t[j]).0@ == k;
                            if j != i {
                                assert(t[j] == old_entries[j]);
                                assert(old_entries[j].0@ == k);
                                assert(entries_map(old_entries).contains_key(k));
                            }
                            assert(m.contains_key(k));
                        }
                    }
                    assert forall|j: int| 0 <= j < t.len() implies m[(#[trigger] t[j]).0@]
                        == t[j].1 by {
                        if j != i {
                            assert(t[j] == old_entries[j]);
                            lemma_entries_map_has(old_entries, j);
                            assert(old_entries[j].0@ != old_entries[i as int].0@);
                        }
                    }
                    lemma_entries_map_ext(old_entries, t, m);
                }
                self.entries = entries;
                Some(prev)
            },
            None => {
                proof {
                    lemma_entries_map_lacks(old_entries, key@);
                }
                let mut entries: Vec<(String, V)> = Vec::new();
                std::mem::swap(&mut entries, &mut self.entries);
                entries.push((key, value));
                proof {
                    let t = entries@;
                    assert(t.drop_last() =~= old_entries);
                    assert(unique_keys(t)) by {
                        assert forall|a: int, b: int| 0 <= a < b < t.len() implies (
                        #[trigger] t[a]).0@ != (#[trigger] t[b]).0@ by {
                            assert(t[a] == old_entries[a]);
                            if b < old_entries.len() {
                                assert(t[b] == old_entries[b]);
                            }
                        }
                    }
                }
                self.entries = entries;
                None
            },
        }
    }

    /// Removes `key`, returning its value.
    pub fn remove(&mut self, key: &str) -> (r: Option<V>)
        ensures
            final(self)@ == old(self)@.remove(key@),
            r == (if old(self)@.contains_key(key@) {
                Some(old(self)@[key@])
            } else {
                None
            }),
    {
        proof {
            use_type_invariant(&*self);
        }
        let ghost old_entries = self.entries@;
        match self.find(key) {
            Some(i) => {
                proof {
                    lemma_entries_map_has(old_entries, i as int);
                }
                let ghost m = entries_map(old_entries).remove(key@);
                let mut entries: Vec<(String, V)> = Vec::new();
                std::mem::swap(&mut entries, &mut self.entries);
                let removed = entries.remove(i);
                proof {
                    let t = entries@;
                    assert(t =~= old_entries.remove(i as int));
                    assert forall|j: int| 0 <= j < t.len() implies #[trigger] t[j] == (if j < i {
                        old_entries[j]
                    } else {
                        old_entries[j + 1]
                    }) by {}
                    assert(unique_keys(t)) by {
                        assert forall|a: int, b: int| 0 <= a < b < t.len() implies (
                        #[trigger] t[a]).0@ != (#[trigger] t[b]).0@ by {
                            let a2 = if a < i { a } else { a + 1 };
                            let b2 = if b < i { b } else { b + 1 };
                            assert(t[a] == old_entries[a2]);
                            assert(t[b] == old_entries[b2]);
                        }
                    }
                    assert forall|k: Seq<char>| m.contains_key(k) <==> exists|j: int|
                        0 <= j < t.len() && (#[trigger] t[j]).0@ == k by {
                        lemma_entries_map_domain(old_entries, k);
                        if m.contains_key(k) {
                            let j = choose|j: int| 0 <= j < old_entries.len() && (
                            #[trigger] old_entries[j]).0@ == k;
                            assert(j != i);
                            if j < i {
                                assert(t[j] == old_entries[j]);
                            } else {
                                assert(t[j - 1] == old_entries[j]);
                            }
                        }
                        if exists|j: int| 0 <= j < t.len() && (#[trigger] t[j]).0@ == k {
                            let j = choose|j: int| 0 <= j < t.len() && (#[trigger] t[j]).0@ == k;
                            let j2 = if j < i { j } else { j + 1 };
                            assert(t[j] == old_entries[j2]);
                            assert(old_entries[j2].0@ != old_entries[i as int].0@);
                        }
                    }
                    assert forall|j: int| 0 <= j < t.len() implies m[(#[trigger] t[j]).0@]
                        == t[j].1 by {
                        let j2 = if j < i { j } else { j + 1 };
                        assert(t[j] == old_entries[j2]);
                        lemma_entries_map_has(old_entries, j2);
                        assert(old_entries[j2].0@ != old_entries[i as int].0@);
                    }
                    lemma_entries_map_ext(old_entries, t, m);
                }
                self.entries = entries;
                Some(removed.1)
            },
            None => {
                proof {
                    lemma_entries_map_lacks(old_entries, key@);
                    assert(entries_map(old_entries).remove(key@) =~= entries_map(old_entries));
                }
                None
            },
        }
    }

    /// Removes every entry.
    pub fn clear(&mut self)
        ensures
            final(self)@ == Map::<Seq<char>, V>::empty(),
    {
        self.entries = Vec::new();
    }

    /// Whether the map has no entries.
    pub fn is_empty(&self) -> (r: bool)
        ensures
            r == (self@.dom() == Set::<Seq<char>>::empty()),
    {
        proof {
            use_type_invariant(self);
        }
        if self.entries.len() == 0 {
            assert(self@.dom() =~= Set::<Seq<char>>::empty());
            true
        } else {
            proof {
                self.lemma_view_has(0);
                assert(self@.dom().contains(self.entries@[0].0@));
            }
            false
        }
    }
}

} // verus!
