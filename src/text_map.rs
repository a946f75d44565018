//! A map keyed by text, kept as a vector of entries with distinct keys.
use vstd::prelude::*;

use crate::text::str_eq;

verus! {

#[derive(Debug)]
pub struct TextMap<V> {
    entries: Vec<(String, V)>,
}

pub open spec fn has_key<V>(s: Seq<(String, V)>, k: Seq<char>) -> bool {
    exists|i: int| 0 <= i < s.len() && (#[trigger] s[i]).0@ == k
}

pub open spec fn distinct_keys<V>(s: Seq<(String, V)>) -> bool {
    forall|i: int, j: int| 0 <= i < s.len() && 0 <= j < s.len() && i != j ==> (#[trigger] s[i]).0@ != (#[trigger] s[j]).0@
}

pub open spec fn entries_map<V>(s: Seq<(String, V)>) -> Map<Seq<char>, V> {
    Map::new(
        |k: Seq<char>| has_key(s, k),
        |k: Seq<char>| s[choose|i: int| 0 <= i < s.len() && (#[trigger] s[i]).0@ == k].1,
    )
}

proof fn lemma_value_at<V>(s: Seq<(String, V)>, i: int)
    requires
        distinct_keys(s),
        0 <= i < s.len(),
    ensures
        entries_map(s).contains_key(s[i].0@),
        entries_map(s)[s[i].0@] == s[i].1,
{
    let k = s[i].0@;
    assert(has_key(s, k));
    let j = choose|j: int| 0 <= j < s.len() && (#[trigger] s[j]).0@ == k;
    assert(j == i);
}

proof fn lemma_map_eq<V>(a: Seq<(String, V)>, b: Seq<(String, V)>, m: Map<Seq<char>, V>)
    requires
        distinct_keys(b),
        forall|k: Seq<char>| has_key(b, k) <==> m.contains_key(k),
        forall|i: int| 0 <= i < b.len() ==> m[(#[trigger] b[i]).0@] == b[i].1,
    ensures
        entries_map(b) == m,
{
    assert forall|k: Seq<char>| #[trigger] entries_map(b).contains_key(k) implies entries_map(b)[k] == m[k] by {
        let i = choose|i: int| 0 <= i < b.len() && (#[trigger] b[i]).0@ == k;
        lemma_value_at(b, i);
    }
    assert(entries_map(b) =~= m);
}

impl<V> View for TextMap<V> {
    type V = Map<Seq<char>, V>;

    closed spec fn view(&self) -> Map<Seq<char>, V> {
        entries_map(self.entries@)
    }
}

impl<V> TextMap<V> {
    pub closed spec fn wf(&self) -> bool {
        distinct_keys(self.entries@)
    }

    pub fn new() -> (r: Self)
        ensures
            r.wf(),
            r@ == Map::<Seq<char>, V>::empty(),
    {
        let r = TextMap { entries: Vec::new() };
        assert(r@ =~= Map::<Seq<char>, V>::empty());
        r
    }

    pub fn len(&self) -> (r: usize)
        requires
            self.wf(),
        ensures
            r == self@.dom().len(),
    {
        proof {
            self.lemma_dom_len();
        }
        self.entries.len()
    }

    proof fn lemma_dom_len(&self)
        requires
            self.wf(),
        ensures
            self@.dom().len() == self.entries@.len(),
            self@.dom().finite(),
    {
        let s = self.entries@;
        let keys = s.map_values(|e: (String, V)| e.0@);
        assert(keys.no_duplicates()) by {
            assert forall|i: int, j: int| 0 <= i < keys.len() && 0 <= j < keys.len() && i != j implies keys[i] != keys[j] by {
                assert(s[i].0@ != s[j].0@);
            }
        }
        assert(self@.dom() =~= keys.to_set()) by {
            assert forall|k: Seq<char>| self@.dom().contains(k) <==> keys.to_set().contains(k) by {
                if has_key(s, k) {
                    let i = choose|i: int| 0 <= i < s.len() && (#[trigger] s[i]).0@ == k;
                    assert(keys[i] == k);
                }
                if keys.contains(k) {
                    let i = choose|i: int| 0 <= i < keys.len() && keys[i] == k;
                    assert(s[i].0@ == k);
                }
            }
        }
        keys.unique_seq_to_set();
    }

    fn find(&self, key: &str) -> (r: Option<usize>)
        requires
            self.wf(),
        ensures
            r.is_some() == self@.contains_key(key@),
            r.is_some() ==> r.unwrap() < self.entries@.len() && self.entries@[r.unwrap() as int].0@ == key@,
    {
        let mut i: usize = 0;
        while i < self.entries.len()
            invariant
                i <= self.entries@.len(),
                forall|j: int| 0 <= j < i ==> (#[trigger] self.entries@[j]).0@ != key@,
            decreases self.entries.len() - i,
        {
            if str_eq(self.entries[i].0.as_str(), key) {
                return Some(i);
            }
            i = i + 1;
        }
        None
    }

    pub fn contains_key(&self, key: &str) -> (r: bool)
        requires
            self.wf(),
        ensures
            r == self@.contains_key(key@),
    {
        self.find(key).is_some()
    }

    pub fn get(&self, key: &str) -> (r: Option<&V>)
        requires
            self.wf(),
        ensures
            r.is_some() == self@.contains_key(key@),
            r.is_some() ==> *r.unwrap() == self@[key@],
    {
        match self.find(key) {
            Some(i) => {
                proof {
                    lemma_value_at(self.entries@, i as int);
                }
                Some(&self.entries[i].1)
            },
            None => None,
        }
    }

    /// The entry at position `i`, in an order of the map's own.
    pub fn entry_at(&self, i: usize) -> (r: (&String, &V))
        requires
            self.wf(),
            i < self@.dom().len(),
        ensures
            self@.contains_key(r.0@),
            self@[r.0@] == *r.1,
    {
        proof {
            self.lemma_dom_len();
            lemma_value_at(self.entries@, i as int);
        }
        (&self.entries[i].0, &self.entries[i].1)
    }

    /// The keys, each once.
    pub fn keys(&self) -> (r: Vec<String>)
        requires
            self.wf(),
        ensures
            forall|i: int| 0 <= i < r@.len() ==> self@.contains_key(#[trigger] r@[i]@),
            forall|k: Seq<char>| self@.contains_key(k) ==> exists|i: int| 0 <= i < r@.len() && (#[trigger] r@[i])@ == k,
    {
        let mut r: Vec<String> = Vec::new();
        let mut i: usize = 0;
        while i < self.entries.len()
            invariant
                self.wf(),
                i <= self.entries@.len(),
                r@.len() == i,
                forall|j: int| 0 <= j < i ==> (#[trigger] r@[j])@ == self.entries@[j].0@,
            decreases self.entries.len() - i,
        {
            r.push(self.entries[i].0.clone());
            i = i + 1;
        }
        proof {
            assert forall|j: int| 0 <= j < r@.len() implies self@.contains_key(#[trigger] r@[j]@) by {
                lemma_value_at(self.entries@, j);
            }
            assert forall|k: Seq<char>| self@.contains_key(k) implies exists|i: int| 0 <= i < r@.len() && (#[trigger] r@[i])@ == k by {
                assert(self@.dom().contains(k) == has_key(self.entries@, k));
                let j = choose|j: int| 0 <= j < self.entries@.len() && (#[trigger] self.entries@[j]).0@ == k;
                assert(r@[j]@ == k);
            }
        }
        r
    }

    pub fn remove(&mut self, key: &str) -> (r: Option<V>)
        requires
            old(self).wf(),
        ensures
            final(self).wf(),
            final(self)@ == old(self)@.remove(key@),
            r.is_some() == old(self)@.contains_key(key@),
            r.is_some() ==> r.unwrap() == old(self)@[key@],
    {
        match self.find(key) {
            Some(i) => {
                let ghost s0 = self.entries@;
                proof {
                    lemma_value_at(s0, i as int);
                }
                let (_, v) = self.entries.remove(i);
                let ghost s1 = self.entries@;
                assert(s1 =~= s0.remove(i as int));
                assert(distinct_keys(s1)) by {
                    assert forall|a: int, b: int| 0 <= a < s1.len() && 0 <= b < s1.len() && a != b implies (#[trigger] s1[a]).0@ != (#[trigger] s1[b]).0@ by {
                        let a0 = if a < i { a } else { a + 1 };
                        let b0 = if b < i { b } else { b + 1 };
                        assert(s1[a] == s0[a0]);
                        assert(s1[b] == s0[b0]);
                    }
                }
                proof {
                    let m = entries_map(s0).remove(key@);
                    assert forall|k: Seq<char>| has_key(s1, k) <==> m.contains_key(k) by {
                        if has_key(s1, k) {
                            let a = choose|a: int| 0 <= a < s1.len() && (#[trigger] s1[a]).0@ == k;
                            let a0 = if a < i { a } else { a + 1 };
                            assert(s0[a0].0@ == k);
                            assert(has_key(s0, k));
                        }
                        if m.contains_key(k) {
                            let a = choose|a: int| 0 <= a < s0.len() && (#[trigger] s0[a]).0@ == k;
                            assert(a != i);
                            if a < i {
                                assert(s1[a].0@ == k);
                            } else {
                                assert(s1[a - 1].0@ == k);
                            }
                        }
                    }
                    assert forall|a: int| 0 <= a < s1.len() implies m[(#[trigger] s1[a]).0@] == s1[a].1 by {
                        let a0 = if a < i { a } else { a + 1 };
                        assert(s1[a] == s0[a0]);
                        lemma_value_at(s0, a0);
                    }
                    lemma_map_eq(s1, s1, m);
                }
                Some(v)
            },
            None => {
                assert(self@ =~= old(self)@.remove(key@));
                None
            },
        }
    }

    pub fn insert(&mut self, key: String, value: V)
        requires
            old(self).wf(),
        ensures
            final(self).wf(),
            final(self)@ == old(self)@.insert(key@, value),
    {
        let ghost m0 = self@;
        let _ = self.remove(key.as_str());
        let ghost s0 = self.entries@;
        let ghost k = key@;
        assert(!self@.contains_key(k));
        assert(self@.dom().contains(k) == has_key(s0, k));
        assert(!has_key(s0, k));
        self.entries.push((key, value));
        let ghost s1 = self.entries@;
        assert(s1 =~= s0.push((s1.last().0, value)));
        assert(distinct_keys(s1)) by {
            assert forall|a: int, b: int| 0 <= a < s1.len() && 0 <= b < s1.len() && a != b implies (#[trigger] s1[a]).0@ != (#[trigger] s1[b]).0@ by {
                if a < s0.len() && b < s0.len() {
                    assert(s1[a] == s0[a] && s1[b] == s0[b]);
                } else if a < s0.len() {
                    assert(s1[a] == s0[a]);
                } else {
                    assert(s1[b] == s0[b]);
                }
            }
        }
        proof {
            let m = m0.insert(k, value);
            assert forall|x: Seq<char>| has_key(s1, x) <==> m.contains_key(x) by {
                if has_key(s1, x) {
                    let a = choose|a: int| 0 <= a < s1.len() && (#[trigger] s1[a]).0@ == x;
                    if a < s0.len() {
                        assert(s0[a].0@ == x);
                        assert(has_key(s0, x));
                        assert(entries_map(s0).dom().contains(x) == has_key(s0, x));
                        assert(entries_map(s0).contains_key(x));
                    }
                }
                if m.contains_key(x) && x != k {
                    assert(m0.contains_key(x));
                    assert(entries_map(s0).contains_key(x));
                    assert(entries_map(s0).dom().contains(x) == has_key(s0, x));
                    assert(has_key(s0, x));
                    let a = choose|a: int| 0 <= a < s0.len() && (#[trigger] s0[a]).0@ == x;
                    assert(s1[a].0@ == x);
                }
                if x == k {
                    assert(s1[s0.len() as int].0@ == x);
                }
            }
            assert forall|a: int| 0 <= a < s1.len() implies m[(#[trigger] s1[a]).0@] == s1[a].1 by {
                if a < s0.len() {
                    assert(s1[a] == s0[a]);
                    lemma_value_at(s0, a);
                }
            }
            lemma_map_eq(s1, s1, m);
        }
    }

    pub fn clear(&mut self)
        ensures
            final(self).wf(),
            final(self)@ == Map::<Seq<char>, V>::empty(),
    {
        self.entries.clear();
        assert(self@ =~= Map::<Seq<char>, V>::empty());
    }
}

} // verus!
