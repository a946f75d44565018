//! Lexicographic order on text, and sorted collections keyed by it.
use vstd::prelude::*;

use crate::text::{chars_of, str_eq};

verus! {

/// `a` comes strictly before `b`, character by character (the order of `str`).
pub open spec fn seq_lt(a: Seq<char>, b: Seq<char>) -> bool
    decreases a.len(),
{
    if a.len() == 0 {
        b.len() > 0
    } else if b.len() == 0 {
        false
    } else if a[0] < b[0] {
        true
    } else if a[0] == b[0] {
        seq_lt(a.drop_first(), b.drop_first())
    } else {
        false
    }
}

pub open spec fn strictly_sorted(s: Seq<Seq<char>>) -> bool {
    forall|i: int, j: int| 0 <= i < j < s.len() ==> seq_lt(#[trigger] s[i], #[trigger] s[j])
}

pub proof fn lemma_lt_irrefl(a: Seq<char>)
    ensures
        !seq_lt(a, a),
    decreases a.len(),
{
    if a.len() > 0 {
        lemma_lt_irrefl(a.drop_first());
    }
}

pub proof fn lemma_lt_trans(a: Seq<char>, b: Seq<char>, c: Seq<char>)
    requires
        seq_lt(a, b),
        seq_lt(b, c),
    ensures
        seq_lt(a, c),
    decreases a.len(),
{
    if a.len() > 0 && b.len() > 0 && c.len() > 0 && a[0] == b[0] && b[0] == c[0] {
        lemma_lt_trans(a.drop_first(), b.drop_first(), c.drop_first());
    }
}

pub proof fn lemma_lt_total(a: Seq<char>, b: Seq<char>)
    requires
        a != b,
    ensures
        seq_lt(a, b) || seq_lt(b, a),
    decreases a.len(),
{
    if a.len() > 0 && b.len() > 0 && a[0] == b[0] {
        if a.drop_first() == b.drop_first() {
            assert(a =~= seq![a[0]] + a.drop_first());
            assert(b =~= seq![b[0]] + b.drop_first());
        }
        lemma_lt_total(a.drop_first(), b.drop_first());
    } else if a.len() == 0 && b.len() == 0 {
        assert(a =~= b);
    }
}

pub fn str_lt(a: &str, b: &str) -> (r: bool)
    ensures
        r == seq_lt(a@, b@),
{
    let x = chars_of(a);
    let y = chars_of(b);
    let mut i: usize = 0;
    assert(x@.skip(0) =~= x@);
    assert(y@.skip(0) =~= y@);
    while i < x.len() && i < y.len() && x[i] == y[i]
        invariant
            i <= x.len(),
            i <= y.len(),
            seq_lt(x@, y@) == seq_lt(x@.skip(i as int), y@.skip(i as int)),
        decreases x.len() - i,
    {
        proof {
            assert(x@.skip(i as int).drop_first() =~= x@.skip(i + 1));
            assert(y@.skip(i as int).drop_first() =~= y@.skip(i + 1));
        }
        i = i + 1;
    }
    if i == x.len() {
        i < y.len()
    } else if i == y.len() {
        false
    } else {
        proof {
            assert(x@.skip(i as int)[0] == x@[i as int]);
            assert(y@.skip(i as int)[0] == y@[i as int]);
        }
        x[i] < y[i]
    }
}

pub open spec fn views(v: Seq<String>) -> Seq<Seq<char>> {
    v.map_values(|s: String| s@)
}

/// Adds `id` to a strictly sorted list of ids, where it is not there yet.
pub fn insert_sorted_id(v: &mut Vec<String>, id: String)
    requires
        strictly_sorted(views(old(v)@)),
    ensures
        strictly_sorted(views(final(v)@)),
        views(final(v)@).to_set() == views(old(v)@).to_set().insert(id@),
{
    let ghost s0 = views(v@);
    let mut p: usize = 0;
    while p < v.len() && str_lt(v[p].as_str(), id.as_str())
        invariant
            p <= v.len(),
            v@ == old(v)@,
            forall|k: int| 0 <= k < p ==> seq_lt(#[trigger] views(v@)[k], id@),
        decreases v.len() - p,
    {
        p = p + 1;
    }
    if p < v.len() && str_eq(v[p].as_str(), id.as_str()) {
        assert(s0[p as int] == id@);
        assert(s0.to_set().insert(id@) =~= s0.to_set()) by {
            assert(s0.contains(id@));
        }
        return;
    }
    proof {
        if p < v.len() {
            lemma_lt_total(s0[p as int], id@);
            assert forall|k: int| p <= k < s0.len() implies seq_lt(id@, #[trigger] s0[k]) by {
                if k > p {
                    lemma_lt_trans(id@, s0[p as int], s0[k]);
                }
            }
        }
    }
    v.insert(p, id);
    let ghost s1 = views(v@);
    assert(s1 =~= s0.insert(p as int, id@));
    assert forall|i: int, j: int| 0 <= i < j < s1.len() implies seq_lt(#[trigger] s1[i], #[trigger] s1[j]) by {
        if j < p {
        } else if j == p {
        } else if i < p {
            assert(seq_lt(id@, s0[j - 1]));
            lemma_lt_trans(s1[i], id@, s1[j]);
        } else if i == p {
            assert(seq_lt(id@, s0[j - 1]));
        } else {
        }
    }
    assert(s1.to_set() =~= s0.to_set().insert(id@)) by {
        assert forall|x: Seq<char>| s1.to_set().contains(x) <==> s0.to_set().insert(id@).contains(x) by {
            if s1.contains(x) {
                let k = choose|k: int| 0 <= k < s1.len() && s1[k] == x;
                if k < p {
                    assert(s0[k] == x);
                } else if k > p {
                    assert(s0[k - 1] == x);
                }
            }
            if s0.contains(x) {
                let k = choose|k: int| 0 <= k < s0.len() && s0[k] == x;
                if k < p {
                    assert(s1[k] == x);
                } else {
                    assert(s1[k + 1] == x);
                }
            }
            if x == id@ {
                assert(s1[p as int] == x);
            }
        }
    }
}

proof fn lemma_push_to_set(s: Seq<Seq<char>>, x: Seq<char>)
    ensures
        s.push(x).to_set() == s.to_set().insert(x),
{
    assert forall|y: Seq<char>| s.push(x).to_set().contains(y) <==> s.to_set().insert(x).contains(y) by {
        if s.push(x).contains(y) {
            let k = choose|k: int| 0 <= k < s.push(x).len() && s.push(x)[k] == y;
            if k < s.len() {
                assert(s[k] == y);
            }
        }
        if s.contains(y) {
            let k = choose|k: int| 0 <= k < s.len() && s[k] == y;
            assert(s.push(x)[k] == y);
        }
        if y == x {
            assert(s.push(x)[s.len() as int] == y);
        }
    }
    assert(s.push(x).to_set() =~= s.to_set().insert(x));
}

/// The ids of `v`, sorted, each once.
pub fn sorted_unique_ids(v: Vec<String>) -> (r: Vec<String>)
    ensures
        strictly_sorted(views(r@)),
        views(r@).to_set() == views(v@).to_set(),
{
    let mut r: Vec<String> = Vec::new();
    let mut rest = v;
    let ghost all = views(rest@);
    // take from the back; the set does not care about order
    while rest.len() > 0
        invariant
            strictly_sorted(views(r@)),
            views(r@).to_set() + views(rest@).to_set() == all.to_set(),
        decreases rest.len(),
    {
        let ghost before = views(rest@);
        let x = rest.pop().unwrap();
        assert(views(rest@).push(x@) =~= before);
        proof {
            lemma_push_to_set(views(rest@), x@);
        }
        insert_sorted_id(&mut r, x);
        proof {
            assert(views(r@).to_set() + views(rest@).to_set() =~= all.to_set());
        }
    }
    proof {
        assert(views(rest@).to_set() =~= Set::empty());
        assert(views(r@).to_set() =~= all.to_set());
    }
    r
}

} // verus!
