//! The per-thread translator from the engine's event stream to protocol events.
use vstd::prelude::*;

use crate::bounded_set::{insert_bounded, BoundedStringSet};
use crate::collab::{end_item_ok, map_collab_end, CollabCall, CollabEnd, CollabOutcome};
use crate::events::{
    item_of_turn_item, map_exec_command_end, map_mcp_tool_call_end, map_patch_apply_end,
    turn_item_to_legacy, AbortReason, Event, EventMsg, Item, ProtocolEvent, TurnError,
};
use crate::handles::NativeSessionHandles;
use crate::json::{parse_json, parsed_json, Json};
use crate::pending::{
    approval_action_id, next_approval_action_id, next_user_input_action_id, user_input_action_id,
    ApprovalKind, PendingApproval, PendingUserInput,
};
use crate::raw_collab::{
    infer_pending_raw_collab_call_from_output, map_raw_collab_function_call_output,
    inferred_ok, inferred_tool, lemma_inferred_is_defined, pending_ok, pending_raw_collab_call,
    raw_call_defined, raw_call_ok, PendingRawCollabCall,
};
use crate::text::concat_str;
use crate::text_map::TextMap;

verus! {

/// How many finalized collaborative call ids a translator remembers.
pub const COMPLETED_COLLAB_CALL_IDS_CAPACITY: usize = 128;

/// Shown when review mode ends without findings.
pub const REVIEW_FALLBACK_MESSAGE: &'static str = "Review ended without findings.";

/// How long a client is told it has to answer a user-input request, in milliseconds.
pub const USER_INPUT_TIMEOUT_MS: u64 = 900000;

#[derive(Debug)]
pub struct NativeCodexEventTranslator {
    thread_id: String,
    last_turn_error: Option<TurnError>,
    agent_buffers: TextMap<String>,
    pending_raw_collab_calls: TextMap<PendingRawCollabCall>,
    completed_collab_call_ids: BoundedStringSet,
}

/// The state of a translator.
pub struct TranslatorView {
    pub thread_id: Seq<char>,
    /// The error captured during the running turn, if any.
    pub last_turn_error: Option<TurnError>,
    /// Streaming text so far, by item id.
    pub buffers: Map<Seq<char>, String>,
    /// Collaborative calls seen invoked and not yet finalized, by call id.
    pub pending: Map<Seq<char>, PendingRawCollabCall>,
    /// Call ids already finalized, oldest first.
    pub completed: Seq<Seq<char>>,
    pub capacity: nat,
}

impl View for NativeCodexEventTranslator {
    type V = TranslatorView;

    closed spec fn view(&self) -> TranslatorView {
        TranslatorView {
            thread_id: self.thread_id@,
            last_turn_error: self.last_turn_error,
            buffers: self.agent_buffers@,
            pending: self.pending_raw_collab_calls@,
            completed: self.completed_collab_call_ids@,
            capacity: self.completed_collab_call_ids.capacity(),
        }
    }
}

/// The state after a turn boundary: no buffers, no pending or finalized calls.
pub open spec fn reset(t: TranslatorView, last_turn_error: Option<TurnError>) -> TranslatorView {
    TranslatorView {
        last_turn_error,
        buffers: Map::empty(),
        pending: Map::empty(),
        completed: Seq::empty(),
        ..t
    }
}

/// The state after call `c` is finalized.
pub open spec fn finalize(t: TranslatorView, c: Seq<char>) -> TranslatorView {
    TranslatorView { pending: t.pending.remove(c), completed: insert_bounded(t.completed, c, t.capacity), ..t }
}

pub open spec fn is_collab_completion(e: ProtocolEvent, c: Seq<char>) -> bool {
    e matches ProtocolEvent::ItemCompleted(Item::CollabToolCall(call)) && call.id@ == c
}

pub open spec fn is_terminal_collab_completion(e: ProtocolEvent, c: Seq<char>) -> bool {
    e matches ProtocolEvent::ItemCompleted(Item::CollabToolCall(call)) && call.id@ == c
        && call.status != CollabOutcome::InProgress
}

/// The translation of a structured collaborative end event.
pub open spec fn collab_end_step(t0: TranslatorView, e: CollabEnd, t1: TranslatorView, r: Seq<ProtocolEvent>) -> bool {
    let c = e.spec_call_id()@;
    if t0.completed.contains(c) {
        t1 == t0 && r.len() == 0
    } else {
        &&& t1 == finalize(t0, c)
        &&& r.len() == 1
        &&& is_terminal_collab_completion(r[0], c)
        &&& r[0] matches ProtocolEvent::ItemCompleted(Item::CollabToolCall(call)) && end_item_ok(e, call)
    }
}

/// Whether an output yields an item: its remembered record, or else the one inferred from
/// the output, fits the output's shape.
pub open spec fn raw_item_expected(t0: TranslatorView, c: Seq<char>, output: Json) -> bool {
    if t0.pending.contains_key(c) {
        raw_call_defined(t0.pending[c], output)
    } else {
        inferred_tool(output).is_some()
    }
}

/// The item owed for an output: matched against the pending record remembered for the call,
/// else against one inferred from the output itself.
pub open spec fn raw_call_from_source(t0: TranslatorView, c: Seq<char>, output: Json, failed: bool, call: CollabCall) -> bool {
    if t0.pending.contains_key(c) {
        raw_call_ok(c, t0.pending[c], output, failed, call)
    } else {
        exists|p: PendingRawCollabCall| #[trigger] inferred_ok(t0.thread_id, output, p)
            && raw_call_ok(c, p, output, failed, call)
    }
}

/// The translation of the output of a raw function invocation.
pub open spec fn raw_output_step(
    t0: TranslatorView,
    c: Seq<char>,
    body: Option<String>,
    success: Option<bool>,
    t1: TranslatorView,
    r: Seq<ProtocolEvent>,
) -> bool {
    let parsed = match body {
        Some(b) => parsed_json(b@),
        None => None,
    };
    if t0.completed.contains(c) || parsed.is_none() || !raw_item_expected(t0, c, parsed.unwrap()) {
        t1 == t0 && r.len() == 0
    } else {
        &&& r.len() == 1
        &&& r[0] matches ProtocolEvent::ItemCompleted(Item::CollabToolCall(call))
            && raw_call_from_source(t0, c, parsed.unwrap(), success == Some(false), call)
            && t1 == if call.status != CollabOutcome::InProgress { finalize(t0, c) } else { t0 }
    }
}

/// One step of the translator: the state `t0`, the event, the state `t1` and the events emitted.
pub open spec fn translated(t0: TranslatorView, e: Event, t1: TranslatorView, r: Seq<ProtocolEvent>) -> bool {
    match e.msg {
        EventMsg::TurnStarted => {
            &&& t1 == reset(t0, None)
            &&& r.len() == 1
            &&& r[0] matches ProtocolEvent::TurnStarted { thread_id, turn_id }
                && thread_id@ == t0.thread_id && turn_id == e.id
        },
        EventMsg::TurnComplete => {
            &&& t1 == reset(t0, None)
            &&& r.len() == 1
            &&& match t0.last_turn_error {
                Some(err) => r[0] matches ProtocolEvent::TurnFailed { thread_id, turn_id, error }
                    && thread_id@ == t0.thread_id && turn_id == e.id && error == err,
                None => r[0] matches ProtocolEvent::TurnCompleted { thread_id, turn_id }
                    && thread_id@ == t0.thread_id && turn_id == e.id,
            }
        },
        EventMsg::TurnAborted(reason) => {
            &&& t1 == reset(t0, t0.last_turn_error)
            &&& r.len() == 1
            &&& r[0] matches ProtocolEvent::TurnFailed { thread_id, turn_id, error }
                && thread_id@ == t0.thread_id && turn_id == e.id && error.codex_error_info.is_none()
                && error.message@ == abort_message(reason)
        },
        EventMsg::TokenCount(info) => t1 == t0 && match info {
            Some(i) => r.len() == 1 && (r[0] matches ProtocolEvent::TokenUsageUpdated { thread_id, turn_id, token_usage }
                && thread_id@ == t0.thread_id && turn_id == e.id && token_usage == i),
            None => r.len() == 0,
        },
        EventMsg::TurnDiff(d) => t1 == t0 && r.len() == 1
            && (r[0] matches ProtocolEvent::TurnDiffUpdated { thread_id, turn_id, diff }
            && thread_id@ == t0.thread_id && turn_id == e.id && diff == d),
        EventMsg::PlanUpdate { explanation, plan } => t1 == t0 && r.len() == 1
            && r[0] == (ProtocolEvent::TurnPlanUpdated { thread_id: r[0]->TurnPlanUpdated_thread_id, turn_id: e.id, explanation, plan })
            && r[0]->TurnPlanUpdated_thread_id@ == t0.thread_id,
        EventMsg::AgentMessageContentDelta { item_id, delta } => {
            let before = if t0.buffers.contains_key(item_id@) { t0.buffers[item_id@]@ } else { Seq::empty() };
            &&& r.len() == 1
            &&& r[0] matches ProtocolEvent::ItemUpdated { id, text } && id == item_id && text@ == before + delta@
            &&& t1 == TranslatorView { buffers: t0.buffers.insert(item_id@, r[0]->ItemUpdated_text), ..t0 }
        },
        EventMsg::ExecCommandEnd(x) => t1 == t0 && r == seq![map_exec_command_end_spec(x)],
        EventMsg::McpToolCallEnd(x) => t1 == t0 && r.len() == 1
            && (r[0] matches ProtocolEvent::ItemCompleted(i) && crate::events::mcp_item_ok(x, i)),
        EventMsg::PatchApplyEnd(x) => t1 == t0 && r.len() == 1
            && (r[0] matches ProtocolEvent::ItemCompleted(i) && crate::events::patch_item_ok(x, i)),
        EventMsg::CollabEnd(ce) => collab_end_step(t0, ce, t1, r),
        EventMsg::RawFunctionCall { name, arguments, call_id } => {
            &&& r.len() == 0
            &&& if t0.completed.contains(call_id@) {
                t1 == t0
            } else if crate::tool_name::collab_tool_of(name@).is_some() && parsed_json(arguments@).is_some() {
                &&& t1 == TranslatorView { pending: t0.pending.insert(call_id@, t1.pending[call_id@]), ..t0 }
                &&& pending_ok(t0.thread_id, name@, arguments@, t1.pending[call_id@])
            } else {
                t1 == t0
            }
        },
        EventMsg::RawFunctionCallOutput { call_id, body, success } => raw_output_step(t0, call_id@, body, success, t1, r),
        EventMsg::EnteredReviewMode { user_facing_hint, target_hint } => t1 == t0 && review_pair(
            r,
            true,
            e.id,
            match user_facing_hint {
                Some(h) => h@,
                None => target_hint@,
            },
        ),
        EventMsg::ExitedReviewMode { review_output } => t1 == t0 && review_pair(
            r,
            false,
            e.id,
            match review_output {
                Some(o) => o@,
                None => REVIEW_FALLBACK_MESSAGE@,
            },
        ),
        EventMsg::ItemStarted(ti) => t1 == t0 && r.len() == 1 && (r[0] matches ProtocolEvent::ItemStarted(i)
            && item_of_turn_item(ti, i)),
        EventMsg::ItemCompleted(ti) => r.len() == 1 && (r[0] matches ProtocolEvent::ItemCompleted(i)
            && item_of_turn_item(ti, i)
            && t1 == TranslatorView { buffers: t0.buffers.remove(i.spec_id()@), ..t0 }),
        EventMsg::ExecApprovalRequest(_) | EventMsg::ApplyPatchApprovalRequest(_) | EventMsg::RequestUserInput(_) =>
            t1 == t0 && r.len() == 1 && (r[0] is ApprovalRequested || r[0] is UserInputRequested),
        EventMsg::Error { message, codex_error_info, affects_turn_status } => r.len() == 0 && if affects_turn_status {
            t1 == TranslatorView { last_turn_error: Some(TurnError { message, codex_error_info }), ..t0 }
        } else {
            t1 == t0
        },
        EventMsg::Other => t1 == t0 && r.len() == 0,
    }
}

pub open spec fn map_exec_command_end_spec(e: crate::events::ExecCommandEnd) -> ProtocolEvent {
    ProtocolEvent::ItemCompleted(
        Item::CommandExecution {
            id: e.call_id,
            command: e.command,
            status: e.status,
            aggregated_output: e.aggregated_output,
            exit_code: e.exit_code,
        },
    )
}

pub open spec fn abort_message(reason: AbortReason) -> Seq<char> {
    match reason {
        AbortReason::Interrupted => "turn interrupted"@,
        AbortReason::Replaced => "turn replaced"@,
        AbortReason::ReviewEnded => "review ended"@,
    }
}

/// A started and a completed review-mode item with the same id and text.
pub open spec fn review_pair(r: Seq<ProtocolEvent>, entered: bool, id: String, review: Seq<char>) -> bool {
    &&& r.len() == 2
    &&& r[0] matches ProtocolEvent::ItemStarted(Item::ReviewMode { entered: e0, id: i0, review: t0 })
        && e0 == entered && i0 == id && t0@ == review
    &&& r[1] matches ProtocolEvent::ItemCompleted(Item::ReviewMode { entered: e1, id: i1, review: t1 })
        && e1 == entered && i1 == id && t1@ == review
}

/// What an event does to the session's shared state.
pub open spec fn handles_step(thread_id: Seq<char>, n0: NativeSessionHandles, e: Event, n1: NativeSessionHandles, r: Seq<ProtocolEvent>) -> bool {
    match e.msg {
        EventMsg::TurnStarted => n1.active_turns@ == n0.active_turns@.insert(thread_id, e.id)
            && n1.threads == n0.threads && n1.pending == n0.pending,
        EventMsg::TurnComplete | EventMsg::TurnAborted(_) => {
            &&& n1.active_turns@ == if n0.active_turns@.contains_key(thread_id) && n0.active_turns@[thread_id]@ == e.id@ {
                n0.active_turns@.remove(thread_id)
            } else {
                n0.active_turns@
            }
            &&& n1.threads == n0.threads && n1.pending == n0.pending
        },
        EventMsg::ExecApprovalRequest(req) => {
            let a = approval_action_id(n0.pending.next_approval_id as nat);
            &&& n1.threads == n0.threads && n1.active_turns == n0.active_turns
            &&& n1.pending.next_approval_id == n0.pending.next_approval_id + 1
            &&& n1.pending.next_user_input_id == n0.pending.next_user_input_id
            &&& n1.pending.user_inputs == n0.pending.user_inputs
            &&& n1.pending.approvals@ == n0.pending.approvals@.insert(a, n1.pending.approvals@[a])
            &&& n1.pending.approvals@[a].thread_id@ == thread_id
            &&& n1.pending.approvals@[a].turn_id == req.turn_id
            &&& n1.pending.approvals@[a].call_id == req.call_id
            &&& n1.pending.approvals@[a].kind == ApprovalKind::CommandExecution
            &&& r[0] matches ProtocolEvent::ApprovalRequested { action_id, kind, thread_id: t, turn_id, item_id, reason, command, cwd, command_actions, proposed_execpolicy_amendment, grant_root }
                && action_id@ == a && kind == ApprovalKind::CommandExecution && t@ == thread_id
                && turn_id == req.turn_id && item_id == req.call_id
                && reason@ == match req.reason { Some(x) => x@, None => Seq::empty() }
                && command == req.command && cwd == req.cwd && command_actions == req.command_actions
                && proposed_execpolicy_amendment@ == match req.proposed_execpolicy_amendment { Some(v) => v@, None => Seq::empty() }
                && grant_root@.len() == 0
        },
        EventMsg::ApplyPatchApprovalRequest(req) => {
            let a = approval_action_id(n0.pending.next_approval_id as nat);
            &&& n1.threads == n0.threads && n1.active_turns == n0.active_turns
            &&& n1.pending.next_approval_id == n0.pending.next_approval_id + 1
            &&& n1.pending.next_user_input_id == n0.pending.next_user_input_id
            &&& n1.pending.user_inputs == n0.pending.user_inputs
            &&& n1.pending.approvals@ == n0.pending.approvals@.insert(a, n1.pending.approvals@[a])
            &&& n1.pending.approvals@[a].thread_id@ == thread_id
            &&& n1.pending.approvals@[a].turn_id == req.turn_id
            &&& n1.pending.approvals@[a].call_id == req.call_id
            &&& n1.pending.approvals@[a].kind == ApprovalKind::FileChange
            &&& r[0] matches ProtocolEvent::ApprovalRequested { action_id, kind, thread_id: t, turn_id, item_id, reason, command, cwd, command_actions, proposed_execpolicy_amendment, grant_root }
                && action_id@ == a && kind == ApprovalKind::FileChange && t@ == thread_id
                && turn_id == req.turn_id && item_id == req.call_id
                && reason@ == match req.reason { Some(x) => x@, None => Seq::empty() }
                && command@.len() == 0 && cwd@.len() == 0 && command_actions@ == "[]"@
                && proposed_execpolicy_amendment@.len() == 0
                && grant_root@ == match req.grant_root { Some(x) => x@, None => Seq::empty() }
        },
        EventMsg::RequestUserInput(req) => {
            let a = user_input_action_id(n0.pending.next_user_input_id as nat);
            &&& n1.threads == n0.threads && n1.active_turns == n0.active_turns
            &&& n1.pending.next_user_input_id == n0.pending.next_user_input_id + 1
            &&& n1.pending.next_approval_id == n0.pending.next_approval_id
            &&& n1.pending.approvals == n0.pending.approvals
            &&& n1.pending.user_inputs@ == n0.pending.user_inputs@.insert(a, n1.pending.user_inputs@[a])
            &&& n1.pending.user_inputs@[a].thread_id@ == thread_id
            &&& n1.pending.user_inputs@[a].turn_id == req.turn_id
            &&& n1.pending.user_inputs@[a].call_id == req.call_id
            &&& r[0] matches ProtocolEvent::UserInputRequested { action_id, thread_id: t, turn_id, item_id, questions, timeout_ms }
                && action_id@ == a && t@ == thread_id && turn_id == req.turn_id && item_id == req.call_id
                && questions == req.questions && timeout_ms == USER_INPUT_TIMEOUT_MS
        },
        _ => n1 == n0,
    }
}

impl NativeCodexEventTranslator {
    pub closed spec fn wf(&self) -> bool {
        &&& self.agent_buffers.wf()
        &&& self.pending_raw_collab_calls.wf()
        &&& self.completed_collab_call_ids.wf()
    }

    pub fn new(thread_id: String) -> (r: Self)
        ensures
            r.wf(),
            r@ == (TranslatorView {
                thread_id: thread_id@,
                last_turn_error: None,
                buffers: Map::empty(),
                pending: Map::empty(),
                completed: Seq::empty(),
                capacity: COMPLETED_COLLAB_CALL_IDS_CAPACITY as nat,
            }),
    {
        NativeCodexEventTranslator {
            thread_id,
            last_turn_error: None,
            agent_buffers: TextMap::new(),
            pending_raw_collab_calls: TextMap::new(),
            completed_collab_call_ids: BoundedStringSet::with_capacity(COMPLETED_COLLAB_CALL_IDS_CAPACITY),
        }
    }

    /// A well-formed translator's finalized ids are distinct and within its capacity.
    pub proof fn lemma_view_wf(&self)
        requires
            self.wf(),
        ensures
            crate::laws::view_wf(self@),
    {
        self.completed_collab_call_ids.lemma_wf();
    }

    pub fn thread_id(&self) -> (r: &String)
        ensures
            r@ == self@.thread_id,
    {
        &self.thread_id
    }

    fn clear_raw_collab_caches(&mut self)
        requires
            old(self).wf(),
        ensures
            final(self).wf(),
            final(self)@ == (TranslatorView { pending: Map::empty(), completed: Seq::empty(), ..old(self)@ }),
    {
        self.pending_raw_collab_calls.clear();
        self.completed_collab_call_ids.clear();
    }

    /// Records call `call_id` as finalized: its pending record goes, and later events for it
    /// are dropped.
    pub fn mark_collab_call_completed(&mut self, call_id: &str)
        requires
            old(self).wf(),
        ensures
            final(self).wf(),
            final(self)@ == finalize(old(self)@, call_id@),
    {
        let _ = self.pending_raw_collab_calls.remove(call_id);
        self.completed_collab_call_ids.insert(call_id.to_owned());
    }

    /// Translates a structured collaborative end event: the first terminal signal for a call
    /// id is emitted and finalizes the call, later ones are dropped.
    pub fn translate_collab_end(&mut self, e: CollabEnd) -> (r: Vec<ProtocolEvent>)
        requires
            old(self).wf(),
        ensures
            final(self).wf(),
            collab_end_step(old(self)@, e, final(self)@, r@),
    {
        if self.completed_collab_call_ids.contains(e.call_id().as_str()) {
            return Vec::new();
        }
        self.mark_collab_call_completed(e.call_id().as_str());
        let call = map_collab_end(&e);
        let mut r: Vec<ProtocolEvent> = Vec::new();
        r.push(ProtocolEvent::ItemCompleted(Item::CollabToolCall(call)));
        r
    }

    /// Remembers the invocation of a collaborative tool, unless its call is already finalized.
    pub fn translate_raw_function_call(&mut self, name: &str, arguments: &str, call_id: String) -> (r: Vec<ProtocolEvent>)
        requires
            old(self).wf(),
        ensures
            final(self).wf(),
            r@.len() == 0,
            final(self)@.thread_id == old(self)@.thread_id,
            final(self)@.last_turn_error == old(self)@.last_turn_error,
            final(self)@.buffers == old(self)@.buffers,
            final(self)@.completed == old(self)@.completed,
            final(self)@.capacity == old(self)@.capacity,
            old(self)@.completed.contains(call_id@) ==> final(self)@ == old(self)@,
            !old(self)@.completed.contains(call_id@) ==> if crate::tool_name::collab_tool_of(name@).is_some() && parsed_json(arguments@).is_some() {
                &&& final(self)@ == TranslatorView { pending: old(self)@.pending.insert(call_id@, final(self)@.pending[call_id@]), ..old(self)@ }
                &&& pending_ok(old(self)@.thread_id, name@, arguments@, final(self)@.pending[call_id@])
            } else {
                final(self)@ == old(self)@
            },
    {
        if self.completed_collab_call_ids.contains(call_id.as_str()) {
            return Vec::new();
        }
        match pending_raw_collab_call(self.thread_id.as_str(), name, arguments) {
            Some(p) => {
                self.pending_raw_collab_calls.insert(call_id, p);
            },
            None => {},
        }
        Vec::new()
    }

    /// Matches the output of a raw function invocation against its pending record (or one
    /// inferred from the output) and emits the collaborative item it describes.
    pub fn translate_raw_function_call_output(&mut self, call_id: &str, body: Option<String>, success: Option<bool>) -> (r: Vec<ProtocolEvent>)
        requires
            old(self).wf(),
        ensures
            final(self).wf(),
            raw_output_step(old(self)@, call_id@, body, success, final(self)@, r@),
    {
        if self.completed_collab_call_ids.contains(call_id) {
            return Vec::new();
        }
        let parsed = match &body {
            Some(b) => parse_json(b.as_str()),
            None => None,
        };
        let output = match &parsed {
            Some(v) => v,
            None => {
                return Vec::new();
            },
        };
        let pending = match self.pending_raw_collab_calls.get(call_id) {
            Some(p) => Some(p.duplicate()),
            None => infer_pending_raw_collab_call_from_output(self.thread_id.as_str(), output),
        };
        let pending = match pending {
            Some(p) => p,
            None => {
                return Vec::new();
            },
        };
        proof {
            if !old(self)@.pending.contains_key(call_id@) {
                lemma_inferred_is_defined(old(self)@.thread_id, *output, pending);
            }
        }
        let failed = match success {
            Some(s) => !s,
            None => false,
        };
        let mapped = match map_raw_collab_function_call_output(call_id, &pending, output, failed) {
            Some(c) => c,
            None => {
                return Vec::new();
            },
        };
        let terminal = mapped.status != CollabOutcome::InProgress;
        let ghost call_g = mapped;
        let ghost t0 = old(self)@;
        if terminal {
            self.mark_collab_call_completed(call_id);
        }
        let mut r: Vec<ProtocolEvent> = Vec::new();
        r.push(ProtocolEvent::ItemCompleted(Item::CollabToolCall(mapped)));
        proof {
            let out = *output;
            assert(r@ =~= seq![ProtocolEvent::ItemCompleted(Item::CollabToolCall(call_g))]);
            if !t0.pending.contains_key(call_id@) {
                assert(inferred_ok(t0.thread_id, out, pending));
            }
            assert(raw_call_defined(pending, out));
            assert(raw_call_ok(call_id@, pending, out, success == Some(false), call_g));
            assert(self@ == if call_g.status != CollabOutcome::InProgress { finalize(t0, call_id@) } else { t0 });
            assert(r@[0] == ProtocolEvent::ItemCompleted(Item::CollabToolCall(call_g)));
            assert(r@.len() == 1);
            assert(raw_output_step(t0, call_id@, body, success, self@, r@));
        }
        r
    }

    fn turn_boundary(&mut self, native: &mut NativeSessionHandles, turn_id: &String)
        requires
            old(self).wf(),
            old(native).wf(),
        ensures
            final(self).wf(),
            final(native).wf(),
            final(self)@ == (TranslatorView { buffers: Map::empty(), pending: Map::empty(), completed: Seq::empty(), ..old(self)@ }),
            final(native).active_turns@ == if old(native).active_turns@.contains_key(old(self)@.thread_id)
                && old(native).active_turns@[old(self)@.thread_id]@ == turn_id@ {
                old(native).active_turns@.remove(old(self)@.thread_id)
            } else {
                old(native).active_turns@
            },
            final(native).threads == old(native).threads,
            final(native).pending == old(native).pending,
    {
        let is_active = match native.active_turns.get(self.thread_id.as_str()) {
            Some(active) => crate::text::str_eq(active.as_str(), turn_id.as_str()),
            None => false,
        };
        if is_active {
            let _ = native.active_turns.remove(self.thread_id.as_str());
        }
        self.agent_buffers.clear();
        self.clear_raw_collab_caches();
    }

    fn translate_delta(&mut self, item_id: String, delta: String) -> (r: Vec<ProtocolEvent>)
        requires
            old(self).wf(),
        ensures
            final(self).wf(),
            ({
                let before = if old(self)@.buffers.contains_key(item_id@) { old(self)@.buffers[item_id@]@ } else { Seq::empty() };
                &&& r@.len() == 1
                &&& r@[0] matches ProtocolEvent::ItemUpdated { id, text } && id == item_id && text@ == before + delta@
                &&& final(self)@ == TranslatorView { buffers: old(self)@.buffers.insert(item_id@, r@[0]->ItemUpdated_text), ..old(self)@ }
            }),
    {
        let next_value = match self.agent_buffers.get(item_id.as_str()) {
            Some(previous) => concat_str(previous.as_str(), delta.as_str()),
            None => {
                proof {
                    reveal_strlit("");
                }
                concat_str("", delta.as_str())
            },
        };
        self.agent_buffers.insert(item_id.clone(), next_value.clone());
        let mut r: Vec<ProtocolEvent> = Vec::new();
        r.push(ProtocolEvent::ItemUpdated { id: item_id, text: next_value });
        r
    }

    fn request_exec_approval(&self, native: &mut NativeSessionHandles, req: crate::events::ExecApprovalRequest) -> (r: Vec<ProtocolEvent>)
        requires
            old(native).wf(),
            old(native).pending.next_approval_id < u64::MAX,
        ensures
            final(native).wf(),
            r@.len() == 1,
            handles_step(self@.thread_id, *old(native), Event { id: r@[0]->ApprovalRequested_turn_id, msg: EventMsg::ExecApprovalRequest(req) }, *final(native), r@),
    {
        let action_id = next_approval_action_id(&mut native.pending);
        let ghost a = action_id@;
        native.pending.approvals.insert(
            action_id.clone(),
            PendingApproval {
                thread_id: self.thread_id.clone(),
                turn_id: req.turn_id.clone(),
                call_id: req.call_id.clone(),
                kind: ApprovalKind::CommandExecution,
            },
        );
        let reason = match req.reason {
            Some(x) => x,
            None => String::new(),
        };
        let amendment = match req.proposed_execpolicy_amendment {
            Some(v) => v,
            None => Vec::new(),
        };
        let mut r: Vec<ProtocolEvent> = Vec::new();
        r.push(ProtocolEvent::ApprovalRequested {
            action_id,
            kind: ApprovalKind::CommandExecution,
            thread_id: self.thread_id.clone(),
            turn_id: req.turn_id,
            item_id: req.call_id,
            reason,
            command: req.command,
            cwd: req.cwd,
            command_actions: req.command_actions,
            proposed_execpolicy_amendment: amendment,
            grant_root: String::new(),
        });
        r
    }

    fn request_patch_approval(&self, native: &mut NativeSessionHandles, req: crate::events::PatchApprovalRequest) -> (r: Vec<ProtocolEvent>)
        requires
            old(native).wf(),
            old(native).pending.next_approval_id < u64::MAX,
        ensures
            final(native).wf(),
            r@.len() == 1,
            handles_step(self@.thread_id, *old(native), Event { id: r@[0]->ApprovalRequested_turn_id, msg: EventMsg::ApplyPatchApprovalRequest(req) }, *final(native), r@),
    {
        let action_id = next_approval_action_id(&mut native.pending);
        native.pending.approvals.insert(
            action_id.clone(),
            PendingApproval {
                thread_id: self.thread_id.clone(),
                turn_id: req.turn_id.clone(),
                call_id: req.call_id.clone(),
                kind: ApprovalKind::FileChange,
            },
        );
        let reason = match req.reason {
            Some(x) => x,
            None => String::new(),
        };
        let grant_root = match req.grant_root {
            Some(x) => x,
            None => String::new(),
        };
        let mut r: Vec<ProtocolEvent> = Vec::new();
        r.push(ProtocolEvent::ApprovalRequested {
            action_id,
            kind: ApprovalKind::FileChange,
            thread_id: self.thread_id.clone(),
            turn_id: req.turn_id,
            item_id: req.call_id,
            reason,
            command: String::new(),
            cwd: String::new(),
            command_actions: "[]".to_owned(),
            proposed_execpolicy_amendment: Vec::new(),
            grant_root,
        });
        r
    }

    fn request_user_input(&self, native: &mut NativeSessionHandles, req: crate::events::UserInputRequest) -> (r: Vec<ProtocolEvent>)
        requires
            old(native).wf(),
            old(native).pending.next_user_input_id < u64::MAX,
        ensures
            final(native).wf(),
            r@.len() == 1,
            handles_step(self@.thread_id, *old(native), Event { id: r@[0]->UserInputRequested_turn_id, msg: EventMsg::RequestUserInput(req) }, *final(native), r@),
    {
        let action_id = next_user_input_action_id(&mut native.pending);
        native.pending.user_inputs.insert(
            action_id.clone(),
            PendingUserInput { thread_id: self.thread_id.clone(), turn_id: req.turn_id.clone(), call_id: req.call_id.clone() },
        );
        let mut r: Vec<ProtocolEvent> = Vec::new();
        r.push(ProtocolEvent::UserInputRequested {
            action_id,
            thread_id: self.thread_id.clone(),
            turn_id: req.turn_id,
            item_id: req.call_id,
            questions: req.questions,
            timeout_ms: USER_INPUT_TIMEOUT_MS,
        });
        r
    }

    /// Translates one engine event into the protocol events it produces, updating the
    /// translator and the session's shared state.
    pub fn translate_event(&mut self, event: Event, native: &mut NativeSessionHandles) -> (r: Vec<ProtocolEvent>)
        requires
            old(self).wf(),
            old(native).wf(),
            old(native).pending.next_approval_id < u64::MAX,
            old(native).pending.next_user_input_id < u64::MAX,
        ensures
            final(self).wf(),
            final(native).wf(),
            translated(old(self)@, event, final(self)@, r@),
            handles_step(old(self)@.thread_id, *old(native), event, *final(native), r@),
    {
        let Event { id, msg } = event;
        match msg {
            EventMsg::TurnStarted => {
                self.last_turn_error = None;
                self.agent_buffers.clear();
                self.clear_raw_collab_caches();
                native.active_turns.insert(self.thread_id.clone(), id.clone());
                let mut r: Vec<ProtocolEvent> = Vec::new();
                r.push(ProtocolEvent::TurnStarted { thread_id: self.thread_id.clone(), turn_id: id });
                r
            },
            EventMsg::TurnComplete => {
                self.turn_boundary(native, &id);
                let mut r: Vec<ProtocolEvent> = Vec::new();
                let err = self.last_turn_error.take();
                match err {
                    Some(error) => {
                        r.push(ProtocolEvent::TurnFailed { thread_id: self.thread_id.clone(), turn_id: id, error });
                    },
                    None => {
                        r.push(ProtocolEvent::TurnCompleted { thread_id: self.thread_id.clone(), turn_id: id });
                    },
                }
                r
            },
            EventMsg::TurnAborted(reason) => {
                self.turn_boundary(native, &id);
                let message = match reason {
                    AbortReason::Interrupted => "turn interrupted".to_owned(),
                    AbortReason::Replaced => "turn replaced".to_owned(),
                    AbortReason::ReviewEnded => "review ended".to_owned(),
                };
                let mut r: Vec<ProtocolEvent> = Vec::new();
                r.push(ProtocolEvent::TurnFailed {
                    thread_id: self.thread_id.clone(),
                    turn_id: id,
                    error: TurnError { message, codex_error_info: None },
                });
                r
            },
            EventMsg::TokenCount(info) => {
                let mut r: Vec<ProtocolEvent> = Vec::new();
                match info {
                    Some(i) => {
                        r.push(ProtocolEvent::TokenUsageUpdated { thread_id: self.thread_id.clone(), turn_id: id, token_usage: i });
                    },
                    None => {},
                }
                r
            },
            EventMsg::TurnDiff(diff) => {
                let mut r: Vec<ProtocolEvent> = Vec::new();
                r.push(ProtocolEvent::TurnDiffUpdated { thread_id: self.thread_id.clone(), turn_id: id, diff });
                r
            },
            EventMsg::PlanUpdate { explanation, plan } => {
                let mut r: Vec<ProtocolEvent> = Vec::new();
                r.push(ProtocolEvent::TurnPlanUpdated { thread_id: self.thread_id.clone(), turn_id: id, explanation, plan });
                r
            },
            EventMsg::AgentMessageContentDelta { item_id, delta } => self.translate_delta(item_id, delta),
            EventMsg::ExecCommandEnd(x) => {
                let mut r: Vec<ProtocolEvent> = Vec::new();
                r.push(map_exec_command_end(x));
                r
            },
            EventMsg::McpToolCallEnd(x) => {
                let mut r: Vec<ProtocolEvent> = Vec::new();
                r.push(map_mcp_tool_call_end(x));
                r
            },
            EventMsg::PatchApplyEnd(x) => {
                let mut r: Vec<ProtocolEvent> = Vec::new();
                r.push(map_patch_apply_end(x));
                r
            },
            EventMsg::CollabEnd(ce) => self.translate_collab_end(ce),
            EventMsg::RawFunctionCall { name, arguments, call_id } => {
                self.translate_raw_function_call(name.as_str(), arguments.as_str(), call_id)
            },
            EventMsg::RawFunctionCallOutput { call_id, body, success } => {
                self.translate_raw_function_call_output(call_id.as_str(), body, success)
            },
            EventMsg::EnteredReviewMode { user_facing_hint, target_hint } => {
                let review = match user_facing_hint {
                    Some(h) => h,
                    None => target_hint,
                };
                review_mode_pair(true, id, review)
            },
            EventMsg::ExitedReviewMode { review_output } => {
                let review = match review_output {
                    Some(o) => o,
                    None => REVIEW_FALLBACK_MESSAGE.to_owned(),
                };
                review_mode_pair(false, id, review)
            },
            EventMsg::ItemStarted(ti) => {
                let mut r: Vec<ProtocolEvent> = Vec::new();
                r.push(ProtocolEvent::ItemStarted(turn_item_to_legacy(ti)));
                r
            },
            EventMsg::ItemCompleted(ti) => {
                let item = turn_item_to_legacy(ti);
                let _ = self.agent_buffers.remove(item.id().as_str());
                let mut r: Vec<ProtocolEvent> = Vec::new();
                r.push(ProtocolEvent::ItemCompleted(item));
                r
            },
            EventMsg::ExecApprovalRequest(req) => {
                let r = self.request_exec_approval(native, req);
                r
            },
            EventMsg::ApplyPatchApprovalRequest(req) => self.request_patch_approval(native, req),
            EventMsg::RequestUserInput(req) => self.request_user_input(native, req),
            EventMsg::Error { message, codex_error_info, affects_turn_status } => {
                if affects_turn_status {
                    self.last_turn_error = Some(TurnError { message, codex_error_info });
                }
                Vec::new()
            },
            EventMsg::Other => Vec::new(),
        }
    }
}

fn review_mode_pair(entered: bool, id: String, review: String) -> (r: Vec<ProtocolEvent>)
    ensures
        review_pair(r@, entered, id, review@),
{
    let mut r: Vec<ProtocolEvent> = Vec::new();
    r.push(ProtocolEvent::ItemStarted(Item::ReviewMode { entered, id: id.clone(), review: review.clone() }));
    r.push(ProtocolEvent::ItemCompleted(Item::ReviewMode { entered, id, review }));
    r
}

} // verus!
