//! A set of strings of bounded size that forgets its oldest members first.
use vstd::prelude::*;

use crate::text::str_eq;

verus! {

#[derive(Debug)]
pub struct BoundedStringSet {
    max_entries: usize,
    order: Vec<String>,
}

impl View for BoundedStringSet {
    type V = Seq<Seq<char>>;

    /// The members, oldest first.
    closed spec fn view(&self) -> Seq<Seq<char>> {
        self.order@.map_values(|s: String| s@)
    }
}

impl BoundedStringSet {
    pub closed spec fn capacity(&self) -> nat {
        self.max_entries as nat
    }

    pub closed spec fn wf(&self) -> bool {
        &&& self.max_entries >= 1
        &&& self@.len() <= self.max_entries
        &&& self@.no_duplicates()
    }

    /// A well-formed set holds distinct members, no more than its capacity, which is positive.
    pub proof fn lemma_wf(&self)
        requires
            self.wf(),
        ensures
            self@.no_duplicates(),
            self@.len() <= self.capacity(),
            self.capacity() >= 1,
    {
    }

    /// An empty set that keeps at most `max(max_entries, 1)` members.
    pub fn with_capacity(max_entries: usize) -> (r: Self)
        ensures
            r.wf(),
            r@ == Seq::<Seq<char>>::empty(),
            r.capacity() == if max_entries == 0 { 1 } else { max_entries as nat },
    {
        let r = BoundedStringSet {
            max_entries: if max_entries == 0 { 1 } else { max_entries },
            order: Vec::new(),
        };
        assert(r@ =~= Seq::<Seq<char>>::empty());
        r
    }

    pub fn clear(&mut self)
        requires
            old(self).wf(),
        ensures
            final(self).wf(),
            final(self)@ == Seq::<Seq<char>>::empty(),
            final(self).capacity() == old(self).capacity(),
    {
        self.order.clear();
        assert(self@ =~= Seq::<Seq<char>>::empty());
    }

    pub fn contains(&self, value: &str) -> (r: bool)
        ensures
            r == self@.contains(value@),
    {
        let mut i: usize = 0;
        while i < self.order.len()
            invariant
                i <= self.order.len(),
                forall|j: int| 0 <= j < i ==> self@[j] != value@,
            decreases self.order.len() - i,
        {
            if str_eq(self.order[i].as_str(), value) {
                assert(self@[i as int] == value@);
                return true;
            }
            i = i + 1;
        }
        false
    }

    /// Adds `value`; a member already present leaves the set unchanged, and past the
    /// capacity the oldest member is dropped.
    pub fn insert(&mut self, value: String)
        requires
            old(self).wf(),
        ensures
            final(self).wf(),
            final(self).capacity() == old(self).capacity(),
            final(self)@ == insert_bounded(old(self)@, value@, old(self).capacity()),
            final(self)@.contains(value@),
    {
        if self.contains(value.as_str()) {
            return;
        }
        let ghost before = self@;
        self.order.push(value);
        assert(self@ =~= before.push(value@));
        if self.order.len() > self.max_entries {
            self.order.remove(0);
            assert(self@ =~= before.push(value@).drop_first());
            assert(self@[self@.len() - 1] == value@);
        } else {
            assert(self@[self@.len() - 1] == value@);
        }
    }
}

/// The members after adding `v` to `s` with capacity `cap`.
pub open spec fn insert_bounded(s: Seq<Seq<char>>, v: Seq<char>, cap: nat) -> Seq<Seq<char>> {
    if s.contains(v) {
        s
    } else if s.len() + 1 > cap {
        s.push(v).drop_first()
    } else {
        s.push(v)
    }
}

} // verus!
