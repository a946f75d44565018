//! Summaries of a thread's history.
use vstd::prelude::*;

use crate::text::{str_eq, trim, trim_str};

verus! {

#[derive(Debug)]
pub struct CodexThreadTurnHistoryMessage {
    pub role: String,
    pub content: String,
}

#[derive(Debug)]
pub struct CodexThreadTurnSummary {
    pub id: String,
    pub status: String,
    pub item_count: usize,
    pub messages: Vec<CodexThreadTurnHistoryMessage>,
}

/// The messages of all turns, in order.
pub open spec fn all_messages(turns: Seq<CodexThreadTurnSummary>) -> Seq<CodexThreadTurnHistoryMessage>
    decreases turns.len(),
{
    if turns.len() == 0 {
        Seq::empty()
    } else {
        all_messages(turns.drop_last()) + turns.last().messages@
    }
}

pub open spec fn is_user_text(m: CodexThreadTurnHistoryMessage) -> bool {
    m.role@ == "user"@ && trim(m.content@).len() > 0
}

/// The first non-blank user message.
pub open spec fn first_user_text(msgs: Seq<CodexThreadTurnHistoryMessage>) -> Option<String>
    decreases msgs.len(),
{
    if msgs.len() == 0 {
        None
    } else if is_user_text(msgs[0]) {
        Some(msgs[0].content)
    } else {
        first_user_text(msgs.drop_first())
    }
}

proof fn lemma_first_user_concat(a: Seq<CodexThreadTurnHistoryMessage>, b: Seq<CodexThreadTurnHistoryMessage>)
    ensures
        first_user_text(a + b) == match first_user_text(a) {
            Some(x) => Some(x),
            None => first_user_text(b),
        },
    decreases a.len(),
{
    if a.len() > 0 {
        assert((a + b).drop_first() =~= a.drop_first() + b);
        assert((a + b)[0] == a[0]);
        lemma_first_user_concat(a.drop_first(), b);
    } else {
        assert(a + b =~= b);
    }
}

/// The preview of a thread: its first non-blank user message, or nothing.
pub fn native_preview_from_turns(turns: &Vec<CodexThreadTurnSummary>) -> (r: String)
    ensures
        r@ == match first_user_text(all_messages(turns@)) {
            Some(c) => c@,
            None => Seq::empty(),
        },
{
    let mut i: usize = 0;
    while i < turns.len()
        invariant
            i <= turns@.len(),
            first_user_text(all_messages(turns@.subrange(0, i as int))).is_none(),
        decreases turns.len() - i,
    {
        let msgs = &turns[i].messages;
        let mut k: usize = 0;
        while k < msgs.len()
            invariant
                k <= msgs@.len(),
                i < turns@.len(),
                msgs@ == turns@[i as int].messages@,
                first_user_text(all_messages(turns@.subrange(0, i as int))).is_none(),
                first_user_text(msgs@.subrange(0, k as int)).is_none(),
            decreases msgs.len() - k,
        {
            let m = &msgs[k];
            if str_eq(m.role.as_str(), "user") && !trim_str(m.content.as_str()).as_str().is_empty() {
                proof {
                    assert(is_user_text(msgs@[k as int]));
                    let pre = all_messages(turns@.subrange(0, i as int));
                    let here = msgs@;
                    lemma_first_user_concat(msgs@.subrange(0, k as int), msgs@.subrange(k as int, msgs@.len() as int));
                    assert(msgs@.subrange(0, k as int) + msgs@.subrange(k as int, msgs@.len() as int) =~= msgs@);
                    assert(msgs@.subrange(k as int, msgs@.len() as int)[0] == msgs@[k as int]);
                    lemma_all_messages_split(turns@, i as int);
                    lemma_first_user_concat(pre, here);
                    lemma_first_user_concat(pre + here, all_messages(turns@.subrange(i + 1, turns@.len() as int)));
                }
                return m.content.clone();
            }
            proof {
                let one = seq![msgs@[k as int]];
                assert(one.drop_first() =~= Seq::<CodexThreadTurnHistoryMessage>::empty());
                assert(first_user_text(one.drop_first()).is_none());
                assert(one[0] == msgs@[k as int]);
                assert(first_user_text(one).is_none());
                lemma_first_user_concat(msgs@.subrange(0, k as int), one);
                assert(msgs@.subrange(0, k + 1) =~= msgs@.subrange(0, k as int) + seq![msgs@[k as int]]);
                assert(!is_user_text(msgs@[k as int]));
                assert(seq![msgs@[k as int]].drop_first() =~= Seq::<CodexThreadTurnHistoryMessage>::empty());
            }
            k = k + 1;
        }
        proof {
            assert(msgs@.subrange(0, k as int) =~= msgs@);
            let pre = turns@.subrange(0, i as int);
            assert(turns@.subrange(0, i + 1).drop_last() =~= pre);
            lemma_first_user_concat(all_messages(pre), msgs@);
        }
        i = i + 1;
    }
    proof {
        assert(turns@.subrange(0, i as int) =~= turns@);
    }
    String::new()
}

proof fn lemma_all_messages_split(turns: Seq<CodexThreadTurnSummary>, i: int)
    requires
        0 <= i < turns.len(),
    ensures
        all_messages(turns) == all_messages(turns.subrange(0, i)) + turns[i].messages@
            + all_messages(turns.subrange(i + 1, turns.len() as int)),
    decreases turns.len(),
{
    if i == turns.len() - 1 {
        assert(turns.drop_last() =~= turns.subrange(0, i));
        assert(turns.subrange(i + 1, turns.len() as int) =~= Seq::<CodexThreadTurnSummary>::empty());
        assert(all_messages(turns.subrange(i + 1, turns.len() as int)) == Seq::<CodexThreadTurnHistoryMessage>::empty());
        assert(all_messages(turns.subrange(0, i)) + turns[i].messages@ + Seq::<CodexThreadTurnHistoryMessage>::empty()
            =~= all_messages(turns.subrange(0, i)) + turns[i].messages@);
    } else {
        let d = turns.drop_last();
        lemma_all_messages_split(d, i);
        assert(d.subrange(0, i) =~= turns.subrange(0, i));
        assert(d[i] == turns[i]);
        let rest = turns.subrange(i + 1, turns.len() as int);
        assert(rest.drop_last() =~= d.subrange(i + 1, d.len() as int));
        assert(rest.last() == turns.last());
        assert(all_messages(rest) == all_messages(d.subrange(i + 1, d.len() as int)) + turns.last().messages@);
        let a = all_messages(turns.subrange(0, i));
        let b = turns[i].messages@;
        let c = all_messages(d.subrange(i + 1, d.len() as int));
        let e = turns.last().messages@;
        assert(a + b + c + e =~= a + b + (c + e));
    }
}

} // verus!
