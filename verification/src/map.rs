//! A map from text keys to values that keeps its entries in insertion
//! order. Inserting an existing key replaces its value in place, so no key
//! occurs twice.
use vstd::prelude::*;
use crate::text::owned;

verus! {

/// The position of key `k` among the entries `s`.
pub open spec fn key_index<V>(s: Seq<(Seq<char>, V)>, k: Seq<char>) -> Option<int>
    decreases s.len(),
{
    if s.len() == 0 {
        None
    } else if s[0].0 == k {
        Some(0)
    } else {
        match key_index(s.drop_first(), k) {
            Some(i) => Some(i + 1),
            None => None,
        }
    }
}

/// The value of key `k` among the entries `s`.
pub open spec fn map_get<V>(s: Seq<(Seq<char>, V)>, k: Seq<char>) -> Option<V> {
    match key_index(s, k) {
        Some(i) => Some(s[i].1),
        None => None,
    }
}

/// The entries after inserting `k` with value `v`: an existing key keeps
/// its place and takes the new value, a new key goes last.
pub open spec fn map_insert<V>(s: Seq<(Seq<char>, V)>, k: Seq<char>, v: V) -> Seq<(Seq<char>, V)> {
    match key_index(s, k) {
        Some(i) => s.update(i, (k, v)),
        None => s.push((k, v)),
    }
}

/// No key occurs twice.
pub open spec fn distinct_keys<V>(s: Seq<(Seq<char>, V)>) -> bool {
    forall|i: int, j: int| 0 <= i < j < s.len() ==> s[i].0 != s[j].0
}

pub proof fn lemma_key_index<V>(s: Seq<(Seq<char>, V)>, k: Seq<char>)
    ensures
        key_index(s, k) matches Some(i) ==> 0 <= i < s.len() && s[i].0 == k && forall|j: int|
            0 <= j < i ==> s[j].0 != k,
        key_index(s, k) is None ==> forall|j: int| 0 <= j < s.len() ==> s[j].0 != k,
    decreases s.len(),
{
    if s.len() > 0 {
        lemma_key_index(s.drop_first(), k);
        if s[0].0 != k {
            assert forall|j: int| 0 < j < s.len() implies s[j] == s.drop_first()[j - 1] by {}
        }
    }
}

pub proof fn lemma_key_index_at<V>(s: Seq<(Seq<char>, V)>, k: Seq<char>, i: int)
    requires
        0 <= i < s.len(),
        s[i].0 == k,
        forall|j: int| 0 <= j < i ==> s[j].0 != k,
    ensures
        key_index(s, k) == Some(i),
    decreases i,
{
    if i > 0 {
        lemma_key_index_at(s.drop_first(), k, i - 1);
    }
}

pub proof fn lemma_key_index_none<V>(s: Seq<(Seq<char>, V)>, k: Seq<char>)
    requires
        forall|j: int| 0 <= j < s.len() ==> s[j].0 != k,
    ensures
        key_index(s, k) is None,
    decreases s.len(),
{
    if s.len() > 0 {
        lemma_key_index_none(s.drop_first(), k);
    }
}

/// The entries after removing `k` (nothing changes when it is absent).
pub open spec fn map_remove<V>(s: Seq<(Seq<char>, V)>, k: Seq<char>) -> Seq<(Seq<char>, V)> {
    match key_index(s, k) {
        Some(i) => s.remove(i),
        None => s,
    }
}

/// After removing `k`, looking `k` up gives nothing; other keys keep
/// their values; the keys stay distinct.
pub proof fn lemma_get_after_remove<V>(s: Seq<(Seq<char>, V)>, k: Seq<char>, q: Seq<char>)
    requires
        distinct_keys(s),
    ensures
        distinct_keys(map_remove(s, k)),
        map_get(map_remove(s, k), q) == if q == k {
            None
        } else {
            map_get(s, q)
        },
{
    let t = map_remove(s, k);
    lemma_key_index(s, k);
    lemma_key_index(s, q);
    match key_index(s, k) {
        Some(i) => {
            assert forall|a: int, b: int| 0 <= a < b < t.len() implies t[a].0 != t[b].0 by {
                let a2 = if a < i { a } else { a + 1 };
                let b2 = if b < i { b } else { b + 1 };
                assert(t[a] == s[a2]);
                assert(t[b] == s[b2]);
            }
            lemma_key_index(t, q);
            if q == k {
                match key_index(t, q) {
                    Some(j) => {
                        let j2 = if j < i { j } else { j + 1 };
                        assert(t[j] == s[j2]);
                    },
                    None => {},
                }
            } else {
                match key_index(s, q) {
                    Some(j) => {
                        let j2 = if j < i { j } else { j - 1 };
                        assert(t[j2] == s[j]);
                        match key_index(t, q) {
                            Some(m) => {
                                let m2 = if m < i { m } else { m + 1 };
                                assert(t[m] == s[m2]);
                            },
                            None => {},
                        }
                    },
                    None => {
                        match key_index(t, q) {
                            Some(m) => {
                                let m2 = if m < i { m } else { m + 1 };
                                assert(t[m] == s[m2]);
                            },
                            None => {},
                        }
                    },
                }
            }
        },
        None => {},
    }
}

/// Inserting keeps the keys distinct.
pub proof fn lemma_insert_distinct<V>(s: Seq<(Seq<char>, V)>, k: Seq<char>, v: V)
    requires
        distinct_keys(s),
    ensures
        distinct_keys(map_insert(s, k, v)),
{
    lemma_key_index(s, k);
}

/// After inserting `k` with `v`, looking `k` up gives `v`; other keys
/// keep their values.
pub proof fn lemma_get_after_insert<V>(s: Seq<(Seq<char>, V)>, k: Seq<char>, v: V, q: Seq<char>)
    requires
        distinct_keys(s),
    ensures
        map_get(map_insert(s, k, v), q) == if q == k {
            Some(v)
        } else {
            map_get(s, q)
        },
{
    let t = map_insert(s, k, v);
    lemma_key_index(s, k);
    lemma_key_index(s, q);
    lemma_insert_distinct(s, k, v);
    lemma_key_index(t, q);
    match key_index(t, q) {
        Some(i) => {
            if q != k {
                match key_index(s, q) {
                    Some(j) => {
                        assert(t[j].0 == q);
                    },
                    None => {},
                }
            }
        },
        None => {
            if q == k {
                match key_index(s, k) {
                    Some(i) => assert(t[i].0 == k),
                    None => assert(t[s.len() as int].0 == k),
                }
            } else {
                match key_index(s, q) {
                    Some(j) => assert(t[j].0 == q),
                    None => {},
                }
            }
        },
    }
}

/// Text keys mapped to values, in insertion order.
#[derive(Debug, Clone)]
pub struct StrMap<V> {
    entries: Vec<(String, V)>,
}

impl<V: View> View for StrMap<V> {
    type V = Seq<(Seq<char>, V::V)>;

    closed spec fn view(&self) -> Seq<(Seq<char>, V::V)> {
        self.entries@.map_values(|e: (String, V)| (e.0@, e.1@))
    }
}

impl<V: View> StrMap<V> {
    /// The map is well formed: no key occurs twice.
    pub open spec fn wf(&self) -> bool {
        distinct_keys(self@)
    }

    pub fn new() -> (r: Self)
        ensures
            r@ == Seq::<(Seq<char>, V::V)>::empty(),
            r.wf(),
    {
        let r = StrMap { entries: Vec::new() };
        assert(r@ =~= Seq::<(Seq<char>, V::V)>::empty());
        r
    }

    pub fn len(&self) -> (r: usize)
        ensures
            r == self@.len(),
    {
        self.entries.len()
    }

    /// The `i`-th entry.
    pub fn entry(&self, i: usize) -> (r: (&String, &V))
        requires
            i < self@.len(),
        ensures
            r.0@ == self@[i as int].0,
            r.1@ == self@[i as int].1,
    {
        let e = &self.entries[i];
        (&e.0, &e.1)
    }

    /// The position of `key`.
    fn position(&self, key: &String) -> (r: Option<usize>)
        ensures
            r matches Some(i) ==> key_index(self@, key@) == Some(i as int),
            r is None ==> key_index(self@, key@) is None,
    {
        let mut i: usize = 0;
        while i < self.entries.len()
            invariant
                i <= self.entries@.len(),
                forall|j: int| 0 <= j < i ==> self@[j].0 != key@,
            decreases self.entries@.len() - i,
        {
            if self.entries[i].0 == *key {
                proof {
                    lemma_key_index_at(self@, key@, i as int);
                }
                return Some(i);
            }
            i = i + 1;
        }
        proof {
            lemma_key_index_none(self@, key@);
        }
        None
    }

    /// `HashMap::insert`: sets the value of `key`.
    pub fn insert(&mut self, key: String, value: V)
        requires
            old(self).wf(),
        ensures
            final(self)@ == map_insert(old(self)@, key@, value@),
            final(self).wf(),
    {
        proof {
            lemma_insert_distinct(self@, key@, value@);
            lemma_key_index(self@, key@);
        }
        match self.position(&key) {
            Some(i) => {
                let ghost k = key@;
                let ghost v = value@;
                self.entries.set(i, (key, value));
                assert(self@ =~= old(self)@.update(i as int, (k, v)));
            },
            None => {
                let ghost k = key@;
                let ghost v = value@;
                self.entries.push((key, value));
                assert(self@ =~= old(self)@.push((k, v)));
            },
        }
    }

    /// `HashMap::remove`: the entry of `key` goes, if there is one.
    pub fn remove(&mut self, key: &str)
        requires
            old(self).wf(),
        ensures
            final(self)@ == map_remove(old(self)@, key@),
            final(self).wf(),
    {
        let k = owned(key);
        proof {
            lemma_get_after_remove(self@, key@, key@);
            lemma_key_index(self@, key@);
        }
        match self.position(&k) {
            Some(i) => {
                assert(i < self.entries@.len());
                self.entries.remove(i);
                assert(self@ =~= old(self)@.remove(i as int));
            },
            None => {},
        }
    }

    /// `HashMap::get`: the value of `key`.
    pub fn get(&self, key: &str) -> (r: Option<&V>)
        ensures
            r matches Some(v) ==> map_get(self@, key@) == Some(v@),
            r is None ==> map_get(self@, key@) is None,
    {
        let k = owned(key);
        proof {
            lemma_key_index(self@, key@);
        }
        match self.position(&k) {
            Some(i) => Some(&self.entries[i].1),
            None => None,
        }
    }
}

/// Values that can be copied with the same view.
pub trait Duplicate: View + Sized {
    fn duplicate(&self) -> (r: Self)
        ensures
            r@ == self@,
    ;
}

impl Duplicate for String {
    fn duplicate(&self) -> (r: Self) {
        owned(self.as_str())
    }
}

impl<V: Duplicate> StrMap<V> {
    /// A copy of the map.
    pub fn duplicate(&self) -> (r: Self)
        ensures
            r@ == self@,
    {
        let mut entries: Vec<(String, V)> = Vec::new();
        let mut i: usize = 0;
        while i < self.entries.len()
            invariant
                i <= self.entries@.len(),
                entries@.len() == i,
                entries@.map_values(|e: (String, V)| (e.0@, e.1@)) == self@.take(i as int),
            decreases self.entries@.len() - i,
        {
            let ghost before = entries@;
            let e = &self.entries[i];
            entries.push((owned(e.0.as_str()), e.1.duplicate()));
            proof {
                let m = entries@.map_values(|e: (String, V)| (e.0@, e.1@));
                let t = self@.take(i + 1);
                let mb = before.map_values(|e: (String, V)| (e.0@, e.1@));
                assert(self@[i as int] == (self.entries@[i as int].0@, self.entries@[i as int].1@));
                assert forall|j: int| 0 <= j < i + 1 implies m[j] == t[j] by {
                    if j < i {
                        assert(entries@[j] == before[j]);
                        assert(mb[j] == self@.take(i as int)[j]);
                    }
                }
                assert(m =~= t);
            }
            i = i + 1;
        }
        assert(self@.take(i as int) =~= self@);
        StrMap { entries }
    }
}

} // verus!
