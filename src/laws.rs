//! Properties of the translator that span several events.
use vstd::prelude::*;

use crate::bounded_set::insert_bounded;
use crate::collab::CollabOutcome;
use crate::events::{Event, EventMsg, Item, ProtocolEvent, TurnItem};
use crate::raw_collab::{inferred_ok, raw_call_ok};
use crate::translator::{
    finalize, is_terminal_collab_completion, raw_call_from_source, translated,
    TranslatorView,
};

verus! {

/// How many terminal completions of call `c` the events hold.
pub open spec fn terminal_completions(r: Seq<ProtocolEvent>, c: Seq<char>) -> nat
    decreases r.len(),
{
    if r.len() == 0 {
        0
    } else {
        terminal_completions(r.drop_last(), c) + if is_terminal_collab_completion(r.last(), c) {
            1nat
        } else {
            0nat
        }
    }
}

proof fn lemma_bounded_insert_contains(s: Seq<Seq<char>>, v: Seq<char>, cap: nat)
    requires
        cap >= 1,
    ensures
        insert_bounded(s, v, cap).contains(v),
{
    if !s.contains(v) {
        let p = s.push(v);
        assert(p[p.len() - 1] == v);
        if s.len() + 1 > cap {
            assert(p.drop_first()[p.len() - 2] == v);
        }
    }
}

proof fn lemma_count_small(r: Seq<ProtocolEvent>, c: Seq<char>)
    requires
        r.len() <= 1,
    ensures
        terminal_completions(r, c) == if r.len() == 1 && is_terminal_collab_completion(r[0], c) {
            1nat
        } else {
            0nat
        },
{
    if r.len() == 1 {
        assert(r.drop_last().len() == 0);
        assert(terminal_completions(r.drop_last(), c) == 0);
    }
}

pub open spec fn is_structured_end_of(e: Event, c: Seq<char>) -> bool {
    e.msg matches EventMsg::CollabEnd(ce) && ce.spec_call_id()@ == c
}

pub open spec fn is_raw_output_of(e: Event, c: Seq<char>) -> bool {
    e.msg matches EventMsg::RawFunctionCallOutput { call_id, .. } && call_id@ == c
}

/// A collaborative call whose end reaches the translator through both channels, the
/// structured end event and the raw function output, in either order, is completed with a
/// terminal status exactly once over the two deliveries.
pub proof fn lemma_collab_call_completed_once(
    t0: TranslatorView,
    e1: Event,
    t1: TranslatorView,
    r1: Seq<ProtocolEvent>,
    e2: Event,
    t2: TranslatorView,
    r2: Seq<ProtocolEvent>,
    c: Seq<char>,
)
    requires
        t0.capacity >= 1,
        !t0.completed.contains(c),
        (is_structured_end_of(e1, c) && is_raw_output_of(e2, c)) || (is_raw_output_of(e1, c) && is_structured_end_of(e2, c)),
        translated(t0, e1, t1, r1),
        translated(t1, e2, t2, r2),
    ensures
        terminal_completions(r1, c) + terminal_completions(r2, c) == 1,
{
    if is_structured_end_of(e1, c) {
        lemma_bounded_insert_contains(t0.completed, c, t0.capacity);
        assert(t1 == finalize(t0, c));
        assert(t1.completed.contains(c));
        lemma_count_small(r1, c);
        lemma_count_small(r2, c);
    } else {
        lemma_count_small(r1, c);
        if r1.len() == 1 && t1 != t0 {
            let call = r1[0]->ItemCompleted_0->CollabToolCall_0;
            assert(raw_call_from_source(t0, c, r1_parsed(e1), r1_failed(e1), call));
            if t0.pending.contains_key(c) {
                assert(raw_call_ok(c, t0.pending[c], r1_parsed(e1), r1_failed(e1), call));
            } else {
                let p = choose|p| #[trigger] inferred_ok(t0.thread_id, r1_parsed(e1), p)
                    && raw_call_ok(c, p, r1_parsed(e1), r1_failed(e1), call);
                assert(raw_call_ok(c, p, r1_parsed(e1), r1_failed(e1), call));
            }
            assert(call.id@ == c);
            assert(call.status != CollabOutcome::InProgress);
            lemma_bounded_insert_contains(t0.completed, c, t0.capacity);
            assert(t1.completed.contains(c));
        } else if r1.len() == 1 {
            let call = r1[0]->ItemCompleted_0->CollabToolCall_0;
            assert(raw_call_from_source(t0, c, r1_parsed(e1), r1_failed(e1), call));
            if call.status != CollabOutcome::InProgress {
                lemma_bounded_insert_contains(t0.completed, c, t0.capacity);
                assert(finalize(t0, c).completed.contains(c));
            }
            assert(!is_terminal_collab_completion(r1[0], c));
        }
        lemma_count_small(r2, c);
    }
}

pub open spec fn r1_parsed(e: Event) -> crate::json::Json {
    match e.msg {
        EventMsg::RawFunctionCallOutput { body, .. } => match body {
            Some(b) => crate::json::parsed_json(b@).unwrap(),
            None => crate::json::Json::Null,
        },
        _ => crate::json::Json::Null,
    }
}

pub open spec fn r1_failed(e: Event) -> bool {
    match e.msg {
        EventMsg::RawFunctionCallOutput { success, .. } => success == Some(false),
        _ => false,
    }
}

pub open spec fn delta_of(e: Event) -> Seq<char> {
    match e.msg {
        EventMsg::AgentMessageContentDelta { delta, .. } => delta@,
        _ => Seq::empty(),
    }
}

/// The first `n` deltas, one after another.
pub open spec fn deltas_upto(events: Seq<Event>, n: int) -> Seq<char>
    decreases n,
{
    if n <= 0 {
        Seq::empty()
    } else {
        deltas_upto(events, n - 1) + delta_of(events[n - 1])
    }
}

pub open spec fn is_delta_for(e: Event, item: Seq<char>) -> bool {
    e.msg matches EventMsg::AgentMessageContentDelta { item_id, .. } && item_id@ == item
}

/// A run of translator steps: `events[i]` takes `states[i]` to `states[i + 1]` and emits `outs[i]`.
pub open spec fn run(states: Seq<TranslatorView>, events: Seq<Event>, outs: Seq<Seq<ProtocolEvent>>) -> bool {
    &&& states.len() == events.len() + 1
    &&& outs.len() == events.len()
    &&& forall|i: int| 0 <= i < events.len() ==> #[trigger] translated(states[i], events[i], states[i + 1], outs[i])
}

proof fn lemma_buffer_tracks(
    states: Seq<TranslatorView>,
    events: Seq<Event>,
    outs: Seq<Seq<ProtocolEvent>>,
    item: Seq<char>,
    n: int,
)
    requires
        run(states, events, outs),
        !states[0].buffers.contains_key(item),
        forall|i: int| 0 <= i < events.len() ==> #[trigger] is_delta_for(events[i], item),
        1 <= n <= events.len(),
    ensures
        states[n].buffers.contains_key(item),
        states[n].buffers[item]@ == deltas_upto(events, n),
        outs[n - 1].len() == 1,
        outs[n - 1][0] matches ProtocolEvent::ItemUpdated { id, text } && id@ == item && text@ == deltas_upto(events, n),
    decreases n,
{
    if n > 1 {
        lemma_buffer_tracks(states, events, outs, item, n - 1);
    }
    let k = n - 1;
    assert(translated(states[k], events[k], states[k + 1], outs[k]));
    assert(k + 1 == n);
    assert(is_delta_for(events[n - 1], item));
    assert(deltas_upto(events, 0) == Seq::<char>::empty());
}

/// For any run of streaming deltas on one item id, each `item.updated` carries the
/// concatenation of the deltas seen so far.
pub proof fn lemma_streaming_text_accumulates(
    states: Seq<TranslatorView>,
    events: Seq<Event>,
    outs: Seq<Seq<ProtocolEvent>>,
    item: Seq<char>,
)
    requires
        run(states, events, outs),
        !states[0].buffers.contains_key(item),
        forall|i: int| 0 <= i < events.len() ==> #[trigger] is_delta_for(events[i], item),
    ensures
        forall|i: int| 0 <= i < events.len() ==> (#[trigger] outs[i]).len() == 1
            && (outs[i][0] matches ProtocolEvent::ItemUpdated { id, text } && id@ == item
                && text@ == deltas_upto(events, i + 1)),
{
    assert forall|i: int| 0 <= i < events.len() implies (#[trigger] outs[i]).len() == 1
        && (outs[i][0] matches ProtocolEvent::ItemUpdated { id, text } && id@ == item
            && text@ == deltas_upto(events, i + 1)) by {
        lemma_buffer_tracks(states, events, outs, item, i + 1);
    }
}

/// Once an item is completed, the translator keeps no streaming text for it.
pub proof fn lemma_buffer_dropped_on_completion(t0: TranslatorView, e: Event, t1: TranslatorView, r: Seq<ProtocolEvent>)
    requires
        e.msg is ItemCompleted,
        translated(t0, e, t1, r),
    ensures
        r.len() == 1,
        r[0] matches ProtocolEvent::ItemCompleted(i) && !t1.buffers.contains_key(i.spec_id()@),
{
}

pub open spec fn is_turn_boundary(e: Event) -> bool {
    e.msg is TurnStarted || e.msg is TurnComplete || e.msg is TurnAborted
}

pub open spec fn turn_item_id(t: TurnItem) -> String {
    match t {
        TurnItem::AgentMessage { id, .. } => id,
        TurnItem::Plan { id, .. } => id,
        TurnItem::Reasoning { id, .. } => id,
        TurnItem::WebSearch { id, .. } => id,
        TurnItem::UserMessage { id, .. } => id,
        TurnItem::ContextCompaction { id } => id,
    }
}

/// The event completes item `item`.
pub open spec fn completes_item(e: Event, item: Seq<char>) -> bool {
    e.msg matches EventMsg::ItemCompleted(t) && turn_item_id(t)@ == item
}

/// The streaming text held for `item`, empty where there is none.
pub open spec fn buffer_of(t: TranslatorView, item: Seq<char>) -> Seq<char> {
    if t.buffers.contains_key(item) { t.buffers[item]@ } else { Seq::empty() }
}

/// The deltas for `item` among the first `n` events, one after another.
pub open spec fn item_deltas(events: Seq<Event>, n: int, item: Seq<char>) -> Seq<char>
    decreases n,
{
    if n <= 0 {
        Seq::empty()
    } else if is_delta_for(events[n - 1], item) {
        item_deltas(events, n - 1, item) + delta_of(events[n - 1])
    } else {
        item_deltas(events, n - 1, item)
    }
}

proof fn lemma_item_id(t: TurnItem, i: Item)
    requires
        crate::events::item_of_turn_item(t, i),
    ensures
        i.spec_id() == turn_item_id(t),
{
}

/// An event that is no turn boundary, no delta for `item` and does not complete it leaves
/// the streaming text of `item` as it was.
pub proof fn lemma_step_keeps_buffer(t0: TranslatorView, e: Event, t1: TranslatorView, r: Seq<ProtocolEvent>, item: Seq<char>)
    requires
        translated(t0, e, t1, r),
        !is_turn_boundary(e),
        !is_delta_for(e, item),
        !completes_item(e, item),
    ensures
        buffer_of(t1, item) == buffer_of(t0, item),
{
    match e.msg {
        EventMsg::ItemCompleted(ti) => {
            let i = r[0]->ItemCompleted_0;
            lemma_item_id(ti, i);
            assert(t1.buffers == t0.buffers.remove(i.spec_id()@));
        },
        EventMsg::AgentMessageContentDelta { item_id, delta } => {
            assert(item_id@ != item);
        },
        _ => {},
    }
}

/// For every run within a turn in which item `item` starts without streaming text and is not
/// completed, each `item.updated` for it carries all its deltas so far, whatever other events
/// come between them.
pub proof fn lemma_streaming_text_accumulates_between_other_events(
    states: Seq<TranslatorView>,
    events: Seq<Event>,
    outs: Seq<Seq<ProtocolEvent>>,
    item: Seq<char>,
)
    requires
        run(states, events, outs),
        !states[0].buffers.contains_key(item),
        forall|k: int| 0 <= k < events.len() ==> !is_turn_boundary(#[trigger] events[k]) && !completes_item(events[k], item),
    ensures
        forall|k: int| 0 <= k < events.len() && is_delta_for(#[trigger] events[k], item) ==> outs[k].len() == 1
            && (outs[k][0] matches ProtocolEvent::ItemUpdated { id, text } && id@ == item
                && text@ == item_deltas(events, k + 1, item)),
{
    lemma_buffer_follows_deltas(states, events, outs, item, events.len() as int);
}

proof fn lemma_buffer_follows_deltas(
    states: Seq<TranslatorView>,
    events: Seq<Event>,
    outs: Seq<Seq<ProtocolEvent>>,
    item: Seq<char>,
    n: int,
)
    requires
        run(states, events, outs),
        !states[0].buffers.contains_key(item),
        forall|k: int| 0 <= k < events.len() ==> !is_turn_boundary(#[trigger] events[k]) && !completes_item(events[k], item),
        0 <= n <= events.len(),
    ensures
        buffer_of(states[n], item) == item_deltas(events, n, item),
        forall|k: int| 0 <= k < n && is_delta_for(#[trigger] events[k], item) ==> outs[k].len() == 1
            && (outs[k][0] matches ProtocolEvent::ItemUpdated { id, text } && id@ == item
                && text@ == item_deltas(events, k + 1, item)),
    decreases n,
{
    if n > 0 {
        lemma_buffer_follows_deltas(states, events, outs, item, n - 1);
        let k = n - 1;
        assert(translated(states[k], events[k], states[k + 1], outs[k]));
        assert(!is_turn_boundary(events[k]) && !completes_item(events[k], item));
        if is_delta_for(events[k], item) {
            assert(states[k + 1].buffers.contains_key(item));
        } else {
            lemma_step_keeps_buffer(states[k], events[k], states[k + 1], outs[k], item);
        }
    }
}

/// The finalized call ids are distinct and within the capacity.
pub open spec fn view_wf(t: TranslatorView) -> bool {
    t.capacity >= 1 && t.completed.len() <= t.capacity && t.completed.no_duplicates()
}

/// Where `c` stands among the finalized ids.
pub open spec fn idx(s: Seq<Seq<char>>, c: Seq<char>) -> int {
    choose|i: int| 0 <= i < s.len() && s[i] == c
}

/// How many more other ids can be finalized before `c` is forgotten, less one.
pub open spec fn slack(t: TranslatorView, c: Seq<char>) -> int {
    t.capacity - t.completed.len() + idx(t.completed, c)
}

proof fn lemma_idx(s: Seq<Seq<char>>, c: Seq<char>, i: int)
    requires
        s.no_duplicates(),
        0 <= i < s.len(),
        s[i] == c,
    ensures
        idx(s, c) == i,
{
    assert(s.contains(c));
    let j = idx(s, c);
    assert(0 <= j < s.len() && s[j] == c);
}

proof fn lemma_insert_wf(s: Seq<Seq<char>>, x: Seq<char>, cap: nat)
    requires
        cap >= 1,
        s.len() <= cap,
        s.no_duplicates(),
    ensures
        insert_bounded(s, x, cap).len() <= cap,
        insert_bounded(s, x, cap).no_duplicates(),
        forall|y: Seq<char>| y != x && !s.contains(y) ==> !(#[trigger] insert_bounded(s, x, cap).contains(y)),
{
    if !s.contains(x) {
        let p = s.push(x);
        assert(p.no_duplicates()) by {
            assert forall|i: int, j: int| 0 <= i < j < p.len() implies p[i] != p[j] by {
                if j == s.len() {
                    assert(s.contains(s[i]));
                }
            }
        }
        assert forall|y: Seq<char>| y != x && !s.contains(y) implies !(#[trigger] insert_bounded(s, x, cap).contains(y)) by {
            if insert_bounded(s, x, cap).contains(y) {
                let q = choose|q: int| 0 <= q < insert_bounded(s, x, cap).len() && insert_bounded(s, x, cap)[q] == y;
                if s.len() + 1 > cap {
                    assert(p[q + 1] == y);
                    if q + 1 < s.len() {
                        assert(s[q + 1] == y);
                    }
                } else {
                    if q < s.len() {
                        assert(s[q] == y);
                    }
                }
            }
        }
    }
}

/// Finalizing another id keeps `c` while the slack lasts, and uses one unit of it.
proof fn lemma_insert_keeps(s: Seq<Seq<char>>, x: Seq<char>, cap: nat, c: Seq<char>)
    requires
        cap >= 1,
        s.len() <= cap,
        s.no_duplicates(),
        s.contains(c),
        !s.contains(x),
        cap - s.len() + idx(s, c) >= 1,
    ensures
        insert_bounded(s, x, cap).contains(c),
        cap - insert_bounded(s, x, cap).len() + idx(insert_bounded(s, x, cap), c) == cap - s.len() + idx(s, c) - 1,
{
    let i = idx(s, c);
    assert(0 <= i < s.len() && s[i] == c);
    lemma_insert_wf(s, x, cap);
    let n = insert_bounded(s, x, cap);
    if s.len() + 1 > cap {
        assert(i >= 1);
        assert(n[i - 1] == c);
        lemma_idx(n, c, i - 1);
    } else {
        assert(n[i] == c);
        lemma_idx(n, c, i);
    }
}

/// Finalizing `c` itself leaves it last, with the full slack less one.
proof fn lemma_insert_self(s: Seq<Seq<char>>, cap: nat, c: Seq<char>)
    requires
        cap >= 1,
        s.len() <= cap,
        s.no_duplicates(),
        !s.contains(c),
    ensures
        insert_bounded(s, c, cap).contains(c),
        cap - insert_bounded(s, c, cap).len() + idx(insert_bounded(s, c, cap), c) == cap - 1,
{
    lemma_insert_wf(s, c, cap);
    let n = insert_bounded(s, c, cap);
    assert(n[n.len() - 1] == c);
    lemma_idx(n, c, n.len() - 1);
}

proof fn lemma_count_none(r: Seq<ProtocolEvent>, c: Seq<char>)
    requires
        forall|k: int| 0 <= k < r.len() ==> !is_terminal_collab_completion(#[trigger] r[k], c),
    ensures
        terminal_completions(r, c) == 0,
    decreases r.len(),
{
    if r.len() > 0 {
        assert forall|k: int| 0 <= k < r.drop_last().len() implies !is_terminal_collab_completion(#[trigger] r.drop_last()[k], c) by {
            assert(r.drop_last()[k] == r[k]);
        }
        lemma_count_none(r.drop_last(), c);
        assert(!is_terminal_collab_completion(r[r.len() - 1], c));
    }
}

/// The call id a collaborative event is about, if it is one.
pub open spec fn collab_call_of(e: Event) -> Option<Seq<char>> {
    match e.msg {
        EventMsg::CollabEnd(ce) => Some(ce.spec_call_id()@),
        EventMsg::RawFunctionCallOutput { call_id, .. } => Some(call_id@),
        _ => None,
    }
}

proof fn lemma_raw_call_id(t0: TranslatorView, x: Seq<char>, out: crate::json::Json, failed: bool, call: crate::collab::CollabCall)
    requires
        raw_call_from_source(t0, x, out, failed, call),
    ensures
        call.id@ == x,
{
    if !t0.pending.contains_key(x) {
        let p = choose|p| #[trigger] inferred_ok(t0.thread_id, out, p) && raw_call_ok(x, p, out, failed, call);
        assert(raw_call_ok(x, p, out, failed, call));
    }
}

/// One step of the translator, seen from call `c`: the finalized ids change only by the
/// event's own call id; while `c` is finalized nothing completes it again and its events are
/// dropped; before, the step completes it at most once, exactly when it finalizes it, and a
/// structured end does.
pub proof fn lemma_step_for_call(t0: TranslatorView, e: Event, t1: TranslatorView, r: Seq<ProtocolEvent>, c: Seq<char>)
    requires
        translated(t0, e, t1, r),
        !is_turn_boundary(e),
        view_wf(t0),
    ensures
        view_wf(t1),
        t1.capacity == t0.capacity,
        t1.completed == t0.completed || (collab_call_of(e) is Some && !t0.completed.contains(collab_call_of(e).unwrap())
            && t1.completed == insert_bounded(t0.completed, collab_call_of(e).unwrap(), t0.capacity)),
        t0.completed.contains(c) ==> terminal_completions(r, c) == 0,
        t0.completed.contains(c) && collab_call_of(e) == Some(c) ==> r.len() == 0,
        !t0.completed.contains(c) ==> terminal_completions(r, c) <= 1
            && (t1.completed.contains(c) <==> terminal_completions(r, c) == 1),
        !t0.completed.contains(c) && is_structured_end_of(e, c) ==> terminal_completions(r, c) == 1,
{
    match e.msg {
        EventMsg::CollabEnd(ce) => {
            let x = ce.spec_call_id()@;
            lemma_count_small(r, c);
            if !t0.completed.contains(x) {
                lemma_insert_wf(t0.completed, x, t0.capacity);
                if x == c {
                    lemma_insert_self(t0.completed, t0.capacity, c);
                }
            }
        },
        EventMsg::RawFunctionCallOutput { call_id, body, success } => {
            let x = call_id@;
            lemma_count_small(r, c);
            if r.len() == 1 {
                let call = r[0]->ItemCompleted_0->CollabToolCall_0;
                lemma_raw_call_id(t0, x, r1_parsed(e), r1_failed(e), call);
                if call.status != CollabOutcome::InProgress {
                    lemma_insert_wf(t0.completed, x, t0.capacity);
                    if x == c {
                        lemma_insert_self(t0.completed, t0.capacity, c);
                    }
                }
            }
        },
        EventMsg::ItemCompleted(ti) => {
            lemma_count_small(r, c);
        },
        EventMsg::EnteredReviewMode { .. } | EventMsg::ExitedReviewMode { .. } => {
            lemma_count_none(r, c);
        },
        _ => {
            lemma_count_small(r, c);
        },
    }
}

/// How many of the first `m` steps of a run changed the finalized ids.
pub open spec fn changes(states: Seq<TranslatorView>, m: int) -> nat
    decreases m,
{
    if m <= 0 {
        0
    } else {
        changes(states, m - 1) + if states[m].completed != states[m - 1].completed { 1nat } else { 0nat }
    }
}

/// How many terminal completions of `c` the first `m` steps emitted.
pub open spec fn completions_in(outs: Seq<Seq<ProtocolEvent>>, m: int, c: Seq<char>) -> nat
    decreases m,
{
    if m <= 0 {
        0
    } else {
        completions_in(outs, m - 1, c) + terminal_completions(outs[m - 1], c)
    }
}

proof fn lemma_changes_mono(states: Seq<TranslatorView>, a: int, b: int)
    requires
        0 <= a <= b,
    ensures
        changes(states, a) <= changes(states, b),
    decreases b - a,
{
    if a < b {
        lemma_changes_mono(states, a, b - 1);
    }
}

/// A run within one turn, for a call `c` not finalized at its start.
pub open spec fn turn_run_for(states: Seq<TranslatorView>, events: Seq<Event>, outs: Seq<Seq<ProtocolEvent>>, c: Seq<char>) -> bool {
    &&& run(states, events, outs)
    &&& view_wf(states[0])
    &&& !states[0].completed.contains(c)
    &&& forall|k: int| 0 <= k < events.len() ==> !is_turn_boundary(#[trigger] events[k])
    &&& changes(states, events.len() as int) <= states[0].capacity
}

proof fn lemma_run_prefix(states: Seq<TranslatorView>, events: Seq<Event>, outs: Seq<Seq<ProtocolEvent>>, c: Seq<char>, m: int)
    requires
        turn_run_for(states, events, outs, c),
        0 <= m <= events.len(),
    ensures
        view_wf(states[m]),
        states[m].capacity == states[0].capacity,
        states[m].completed.contains(c) ==> completions_in(outs, m, c) == 1
            && slack(states[m], c) >= states[0].capacity - changes(states, m),
        !states[m].completed.contains(c) ==> completions_in(outs, m, c) == 0,
        forall|j: int| 0 <= j <= m && #[trigger] states[j].completed.contains(c) ==> states[m].completed.contains(c),
    decreases m,
{
    if m > 0 {
        let k = m - 1;
        lemma_run_prefix(states, events, outs, c, k);
        assert(translated(states[k], events[k], states[k + 1], outs[k]));
        assert(!is_turn_boundary(events[k]));
        lemma_step_for_call(states[k], events[k], states[k + 1], outs[k], c);
        lemma_changes_mono(states, m, events.len() as int);
        let cap = states[0].capacity;
        let s0 = states[k].completed;
        if states[m].completed != s0 {
            let x = collab_call_of(events[k]).unwrap();
            lemma_insert_wf(s0, x, cap);
            if s0.contains(c) {
                lemma_insert_keeps(s0, x, cap, c);
            } else if states[m].completed.contains(c) {
                assert(x == c);
                lemma_insert_self(s0, cap, c);
            }
        }
        assert forall|j: int| 0 <= j <= m && #[trigger] states[j].completed.contains(c) implies states[m].completed.contains(c) by {
            if j < m {
                assert(states[k].completed.contains(c));
            }
        }
    }
}

/// A collaborative call reported within one turn, through the structured channel and
/// possibly the raw one, in any order and with any other events between them, is completed
/// with a terminal status exactly once, provided the run finalizes no more call ids than the
/// translator remembers (its own included). Once completed, every later event for the call
/// on either channel emits nothing.
pub proof fn lemma_collab_call_completed_once_in_a_turn(
    states: Seq<TranslatorView>,
    events: Seq<Event>,
    outs: Seq<Seq<ProtocolEvent>>,
    c: Seq<char>,
)
    requires
        turn_run_for(states, events, outs, c),
        exists|k: int| 0 <= k < events.len() && #[trigger] is_structured_end_of(events[k], c),
    ensures
        completions_in(outs, events.len() as int, c) == 1,
        forall|j: int, k: int| 0 <= j < k < events.len() && #[trigger] terminal_completions(outs[j], c) == 1
            && collab_call_of(#[trigger] events[k]) == Some(c) ==> outs[k].len() == 0,
{
    let n = events.len() as int;
    let k = choose|k: int| 0 <= k < events.len() && #[trigger] is_structured_end_of(events[k], c);
    lemma_run_prefix(states, events, outs, c, k);
    assert(translated(states[k], events[k], states[k + 1], outs[k]));
    assert(!is_turn_boundary(events[k]));
    lemma_step_for_call(states[k], events[k], states[k + 1], outs[k], c);
    lemma_run_prefix(states, events, outs, c, k + 1);
    assert(states[k + 1].completed.contains(c));
    lemma_run_prefix(states, events, outs, c, n);
    assert forall|j: int, l: int| 0 <= j < l < events.len() && #[trigger] terminal_completions(outs[j], c) == 1
        && collab_call_of(#[trigger] events[l]) == Some(c) implies outs[l].len() == 0 by {
        lemma_run_prefix(states, events, outs, c, j);
        assert(translated(states[j], events[j], states[j + 1], outs[j]));
        assert(!is_turn_boundary(events[j]));
        lemma_step_for_call(states[j], events[j], states[j + 1], outs[j], c);
        lemma_run_prefix(states, events, outs, c, j + 1);
        lemma_run_prefix(states, events, outs, c, l);
        assert(states[j + 1].completed.contains(c));
        assert(states[l].completed.contains(c));
        assert(translated(states[l], events[l], states[l + 1], outs[l]));
        assert(!is_turn_boundary(events[l]));
        lemma_step_for_call(states[l], events[l], states[l + 1], outs[l], c);
    }
}

} // verus!
