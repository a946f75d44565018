//! Answers to pending approvals and user-input requests: the entry is taken out while the
//! answer goes to the engine, and put back unchanged wherever the answer cannot be delivered.
use vstd::prelude::*;

use crate::events::{InputOutcome, ProtocolEvent};
use crate::pending::{
    action_to_review_decision, decision_error_ok, decision_result_ok, ApprovalKind, DecisionError,
    PendingApproval, PendingUserInput, ReviewDecision,
};
use crate::session::SessionRegistry;
use crate::text::{lower, lower_str, str_eq, trim, trim_str};
use crate::order::views;

verus! {

#[derive(Debug, PartialEq, Eq)]
pub enum RespondError {
    ActionIdRequired,
    DecisionRequired,
    /// A user-input decision other than `submit` or `cancel`.
    InvalidDecision,
    NoActiveSession,
    ActionNotFound(String),
    ThreadNotFound(String),
    Decision(DecisionError),
    MissingTurnIdentifier,
}

/// The two registries agree but for the pending entries, which are the same as maps.
pub open spec fn same_but_pending(a: SessionRegistry, b: SessionRegistry) -> bool {
    &&& a.next_session_id == b.next_session_id
    &&& match (a.active, b.active) {
        (Some(x), Some(y)) => {
            &&& x.session_id == y.session_id && x.pid == y.pid && x.cwd == y.cwd && x.busy == y.busy
            &&& x.thread_id == y.thread_id && x.handles.threads == y.handles.threads
            &&& x.handles.active_turns == y.handles.active_turns
            &&& x.handles.pending.next_approval_id == y.handles.pending.next_approval_id
            &&& x.handles.pending.next_user_input_id == y.handles.pending.next_user_input_id
        },
        (None, None) => true,
        _ => false,
    }
}

pub open spec fn approvals_of(r: SessionRegistry) -> Map<Seq<char>, PendingApproval> {
    r.active.unwrap().handles.pending.approvals@
}

pub open spec fn user_inputs_of(r: SessionRegistry) -> Map<Seq<char>, PendingUserInput> {
    r.active.unwrap().handles.pending.user_inputs@
}

/// Nothing changed that a client could see.
pub open spec fn unchanged(a: SessionRegistry, b: SessionRegistry) -> bool {
    same_but_pending(a, b) && (a.active.is_some() ==> approvals_of(a) == approvals_of(b)
        && user_inputs_of(a) == user_inputs_of(b))
}

/// An approval answer ready to be delivered to the engine.
#[derive(Debug)]
pub struct ApprovalSubmission {
    pub session_id: u64,
    pub handle: u64,
    pub action_id: String,
    pub pending: PendingApproval,
    pub decision: ReviewDecision,
}

/// Amendment entries trimmed, blank ones dropped.
pub open spec fn trimmed_entries(v: Seq<Seq<char>>) -> Seq<Seq<char>>
    decreases v.len(),
{
    if v.len() == 0 {
        Seq::empty()
    } else {
        let rest = trimmed_entries(v.drop_last());
        if trim(v.last()).len() > 0 { rest.push(trim(v.last())) } else { rest }
    }
}

pub fn normalize_entries(v: &Vec<String>) -> (r: Vec<String>)
    ensures
        views(r@) == trimmed_entries(views(v@)),
{
    let mut r: Vec<String> = Vec::new();
    let mut i: usize = 0;
    assert(views(r@) =~= trimmed_entries(views(v@.subrange(0, 0))));
    while i < v.len()
        invariant
            i <= v@.len(),
            views(r@) == trimmed_entries(views(v@.subrange(0, i as int))),
        decreases v.len() - i,
    {
        proof {
            assert(views(v@.subrange(0, i + 1)).drop_last() =~= views(v@.subrange(0, i as int)));
        }
        let t = trim_str(v[i].as_str());
        if !t.as_str().is_empty() {
            r.push(t);
        }
        i = i + 1;
        assert(views(r@) =~= trimmed_entries(views(v@.subrange(0, i as int))));
    }
    assert(v@.subrange(0, i as int) =~= v@);
    r
}

/// Takes approval `action_id` out of the registry to answer it with `decision`. Every
/// refusal leaves the registry as it was, so the approval can still be answered.
pub fn take_approval_for_response(
    reg: &mut SessionRegistry,
    action_id: &str,
    decision: &str,
    remember: bool,
    execpolicy_amendment: &Vec<String>,
) -> (r: Result<ApprovalSubmission, RespondError>)
    requires
        old(reg).wf(),
    ensures
        final(reg).wf(),
        r.is_err() ==> unchanged(*old(reg), *final(reg)),
        trim(action_id@).len() == 0 ==> r == Err::<ApprovalSubmission, RespondError>(RespondError::ActionIdRequired),
        trim(action_id@).len() > 0 && trim(decision@).len() == 0 ==> r == Err::<ApprovalSubmission, RespondError>(RespondError::DecisionRequired),
        trim(action_id@).len() > 0 && trim(decision@).len() > 0 && old(reg).active.is_none()
            ==> r == Err::<ApprovalSubmission, RespondError>(RespondError::NoActiveSession),
        trim(action_id@).len() > 0 && trim(decision@).len() > 0 && old(reg).active.is_some()
            && !approvals_of(*old(reg)).contains_key(trim(action_id@))
            ==> (r matches Err(RespondError::ActionNotFound(id)) && id@ == trim(action_id@)),
        r is Ok ==> ({
            let s = r->Ok_0;
            let a = old(reg).active.unwrap();
            let k = trim(action_id@);
            &&& same_but_pending(*old(reg), *final(reg))
            &&& approvals_of(*final(reg)) == approvals_of(*old(reg)).remove(k)
            &&& user_inputs_of(*final(reg)) == user_inputs_of(*old(reg))
            &&& s.action_id@ == k && s.session_id == a.session_id
            &&& s.pending == approvals_of(*old(reg))[k]
            &&& a.handles.threads@.contains_key(s.pending.thread_id@)
            &&& s.handle == a.handles.threads@[s.pending.thread_id@]
            &&& decision_result_ok(s.pending.kind, decision@, remember, trimmed_entries(views(execpolicy_amendment@)).len(), s.decision)
        }),
        r is Ok ==> approvals_of(*old(reg)).contains_key(trim(action_id@)),
        trim(action_id@).len() > 0 && trim(decision@).len() > 0 && old(reg).active.is_some()
            && approvals_of(*old(reg)).contains_key(trim(action_id@))
            && old(reg).active.unwrap().handles.threads@.contains_key(approvals_of(*old(reg))[trim(action_id@)].thread_id@)
            ==> (r is Ok || r matches Err(RespondError::Decision(_))),
        trim(action_id@).len() > 0 && trim(decision@).len() > 0 && old(reg).active.is_some()
            && approvals_of(*old(reg)).contains_key(trim(action_id@))
            && !old(reg).active.unwrap().handles.threads@.contains_key(approvals_of(*old(reg))[trim(action_id@)].thread_id@)
            ==> (r matches Err(RespondError::ThreadNotFound(t)) && t == approvals_of(*old(reg))[trim(action_id@)].thread_id),
        r matches Err(RespondError::Decision(e)) ==> decision_error_ok(
            approvals_of(*old(reg))[trim(action_id@)].kind, decision@, remember,
            trimmed_entries(views(execpolicy_amendment@)).len(), e),
{
    let action_id = trim_str(action_id);
    if action_id.as_str().is_empty() {
        return Err(RespondError::ActionIdRequired);
    }
    if trim_str(decision).as_str().is_empty() {
        return Err(RespondError::DecisionRequired);
    }
    let amendment = normalize_entries(execpolicy_amendment);
    let a = match &mut reg.active {
        Some(a) => a,
        None => {
            return Err(RespondError::NoActiveSession);
        },
    };
    let ghost m0 = a.handles.pending.approvals@;
    let pending = match a.handles.pending.approvals.remove(action_id.as_str()) {
        Some(p) => p,
        None => {
            assert(a.handles.pending.approvals@ =~= m0);
            return Err(RespondError::ActionNotFound(action_id));
        },
    };
    let handle = match a.handles.threads.get(pending.thread_id.as_str()) {
        Some(h) => *h,
        None => {
            let thread_id = pending.thread_id.clone();
            a.handles.pending.approvals.insert(action_id, pending);
            assert(a.handles.pending.approvals@ =~= m0);
            return Err(RespondError::ThreadNotFound(thread_id));
        },
    };
    match action_to_review_decision(pending.kind, decision, remember, &amendment) {
        Ok(d) => Ok(ApprovalSubmission { session_id: a.session_id, handle, action_id, pending, decision: d }),
        Err(e) => {
            a.handles.pending.approvals.insert(action_id, pending);
            assert(a.handles.pending.approvals@ =~= m0);
            Err(RespondError::Decision(e))
        },
    }
}

/// Puts an approval back after its answer could not be delivered; a replaced session is
/// left alone.
pub fn restore_approval(reg: &mut SessionRegistry, session_id: u64, action_id: String, pending: PendingApproval)
    requires
        old(reg).wf(),
    ensures
        final(reg).wf(),
        same_but_pending(*old(reg), *final(reg)),
        old(reg).is_active(session_id) ==> approvals_of(*final(reg)) == approvals_of(*old(reg)).insert(action_id@, pending)
            && user_inputs_of(*final(reg)) == user_inputs_of(*old(reg)),
        !old(reg).is_active(session_id) ==> *final(reg) == *old(reg),
{
    match &mut reg.active {
        Some(a) => {
            if a.session_id == session_id {
                a.handles.pending.approvals.insert(action_id, pending);
            }
        },
        None => {},
    }
}

/// The `approval.resolved` event of a delivered answer.
pub fn approval_resolved_event(action_id: String, kind: ApprovalKind, decision: &ReviewDecision) -> (r: ProtocolEvent)
    ensures
        r matches ProtocolEvent::ApprovalResolved { action_id: a, kind: k, decision: d }
            && a == action_id && k == kind && d@ == decision.spec_label(),
{
    ProtocolEvent::ApprovalResolved { action_id, kind, decision: decision.label() }
}

/// A user-input answer ready to be delivered to the engine: the id to answer (the turn id,
/// else the call id) and whether answers are submitted or the request cancelled.
#[derive(Debug)]
pub struct UserInputSubmission {
    pub session_id: u64,
    pub handle: u64,
    pub action_id: String,
    pub pending: PendingUserInput,
    pub outcome: InputOutcome,
    pub response_id: String,
}

pub open spec fn input_outcome_of(decision: Seq<char>) -> Option<InputOutcome> {
    let d = lower(trim(decision));
    if d == "submit"@ {
        Some(InputOutcome::Submitted)
    } else if d == "cancel"@ {
        Some(InputOutcome::Cancelled)
    } else {
        None
    }
}

/// The id an answer goes to: the request's turn id, else its call id.
pub open spec fn response_id_of(p: PendingUserInput) -> String {
    if trim(p.turn_id@).len() > 0 { p.turn_id } else { p.call_id }
}

/// A non-blank action id and a decision that is `submit` or `cancel`.
pub open spec fn user_input_admissible(action_id: Seq<char>, decision: Seq<char>) -> bool {
    trim(action_id).len() > 0 && trim(decision).len() > 0 && input_outcome_of(decision).is_some()
}

/// Takes user-input request `action_id` out of the registry to answer it. Every refusal
/// leaves the registry as it was.
pub fn take_user_input_for_response(reg: &mut SessionRegistry, action_id: &str, decision: &str) -> (r: Result<UserInputSubmission, RespondError>)
    requires
        old(reg).wf(),
    ensures
        final(reg).wf(),
        r.is_err() ==> unchanged(*old(reg), *final(reg)),
        trim(action_id@).len() == 0 ==> r == Err::<UserInputSubmission, RespondError>(RespondError::ActionIdRequired),
        trim(action_id@).len() > 0 && trim(decision@).len() == 0 ==> r == Err::<UserInputSubmission, RespondError>(RespondError::DecisionRequired),
        trim(action_id@).len() > 0 && trim(decision@).len() > 0 && input_outcome_of(decision@).is_none()
            ==> r == Err::<UserInputSubmission, RespondError>(RespondError::InvalidDecision),
        r is Ok ==> ({
            let s = r->Ok_0;
            let a = old(reg).active.unwrap();
            let k = trim(action_id@);
            &&& same_but_pending(*old(reg), *final(reg))
            &&& user_inputs_of(*final(reg)) == user_inputs_of(*old(reg)).remove(k)
            &&& approvals_of(*final(reg)) == approvals_of(*old(reg))
            &&& s.action_id@ == k && s.session_id == a.session_id
            &&& s.pending == user_inputs_of(*old(reg))[k]
            &&& Some(s.outcome) == input_outcome_of(decision@)
            &&& s.handle == a.handles.threads@[s.pending.thread_id@]
            &&& s.response_id == response_id_of(s.pending)
            &&& trim(s.response_id@).len() > 0
        }),
        r is Ok ==> user_inputs_of(*old(reg)).contains_key(trim(action_id@)),
        user_input_admissible(action_id@, decision@) && old(reg).active.is_none()
            ==> r == Err::<UserInputSubmission, RespondError>(RespondError::NoActiveSession),
        user_input_admissible(action_id@, decision@) && old(reg).active.is_some()
            && !user_inputs_of(*old(reg)).contains_key(trim(action_id@))
            ==> (r matches Err(RespondError::ActionNotFound(id)) && id@ == trim(action_id@)),
        user_input_admissible(action_id@, decision@) && old(reg).active.is_some()
            && user_inputs_of(*old(reg)).contains_key(trim(action_id@))
            && !old(reg).active.unwrap().handles.threads@.contains_key(user_inputs_of(*old(reg))[trim(action_id@)].thread_id@)
            ==> (r matches Err(RespondError::ThreadNotFound(t)) && t == user_inputs_of(*old(reg))[trim(action_id@)].thread_id),
        user_input_admissible(action_id@, decision@) && old(reg).active.is_some()
            && user_inputs_of(*old(reg)).contains_key(trim(action_id@))
            && old(reg).active.unwrap().handles.threads@.contains_key(user_inputs_of(*old(reg))[trim(action_id@)].thread_id@)
            ==> if trim(response_id_of(user_inputs_of(*old(reg))[trim(action_id@)])@).len() > 0 {
                r is Ok
            } else {
                r == Err::<UserInputSubmission, RespondError>(RespondError::MissingTurnIdentifier)
            },
{
    let action_id = trim_str(action_id);
    if action_id.as_str().is_empty() {
        return Err(RespondError::ActionIdRequired);
    }
    let d = lower_str(trim_str(decision).as_str());
    if d.as_str().is_empty() {
        return Err(RespondError::DecisionRequired);
    }
    let outcome = if str_eq(d.as_str(), "submit") {
        InputOutcome::Submitted
    } else if str_eq(d.as_str(), "cancel") {
        InputOutcome::Cancelled
    } else {
        return Err(RespondError::InvalidDecision);
    };
    let a = match &mut reg.active {
        Some(a) => a,
        None => {
            return Err(RespondError::NoActiveSession);
        },
    };
    let ghost m0 = a.handles.pending.user_inputs@;
    let pending = match a.handles.pending.user_inputs.remove(action_id.as_str()) {
        Some(p) => p,
        None => {
            assert(a.handles.pending.user_inputs@ =~= m0);
            return Err(RespondError::ActionNotFound(action_id));
        },
    };
    let handle = match a.handles.threads.get(pending.thread_id.as_str()) {
        Some(h) => *h,
        None => {
            let thread_id = pending.thread_id.clone();
            a.handles.pending.user_inputs.insert(action_id, pending);
            assert(a.handles.pending.user_inputs@ =~= m0);
            return Err(RespondError::ThreadNotFound(thread_id));
        },
    };
    let response_id = if !trim_str(pending.turn_id.as_str()).as_str().is_empty() {
        pending.turn_id.clone()
    } else {
        pending.call_id.clone()
    };
    if trim_str(response_id.as_str()).as_str().is_empty() {
        a.handles.pending.user_inputs.insert(action_id, pending);
        assert(a.handles.pending.user_inputs@ =~= m0);
        return Err(RespondError::MissingTurnIdentifier);
    }
    Ok(UserInputSubmission { session_id: a.session_id, handle, action_id, pending, outcome, response_id })
}

/// Puts a user-input request back after its answer could not be delivered.
pub fn restore_user_input(reg: &mut SessionRegistry, session_id: u64, action_id: String, pending: PendingUserInput)
    requires
        old(reg).wf(),
    ensures
        final(reg).wf(),
        same_but_pending(*old(reg), *final(reg)),
        old(reg).is_active(session_id) ==> user_inputs_of(*final(reg)) == user_inputs_of(*old(reg)).insert(action_id@, pending)
            && approvals_of(*final(reg)) == approvals_of(*old(reg)),
        !old(reg).is_active(session_id) ==> *final(reg) == *old(reg),
{
    match &mut reg.active {
        Some(a) => {
            if a.session_id == session_id {
                a.handles.pending.user_inputs.insert(action_id, pending);
            }
        },
        None => {},
    }
}

/// The error a cancelled user-input request reports.
pub const USER_INPUT_CANCELLED: &'static str = "user input cancelled by user";

/// The `user_input.resolved` event of a delivered answer; a cancellation carries an error.
pub fn build_native_user_input_resolved_payload(action_id: &str, pending: &PendingUserInput, outcome: InputOutcome) -> (r: ProtocolEvent)
    ensures
        r matches ProtocolEvent::UserInputResolved { action_id: a, thread_id, turn_id, item_id, outcome: o, error }
            && a@ == action_id@ && thread_id == pending.thread_id && turn_id == pending.turn_id
            && item_id == pending.call_id && o == outcome
            && (outcome == InputOutcome::Cancelled ==> error.is_some() && error.unwrap()@ == USER_INPUT_CANCELLED@)
            && (outcome == InputOutcome::Submitted ==> error.is_none()),
{
    ProtocolEvent::UserInputResolved {
        action_id: action_id.to_owned(),
        thread_id: pending.thread_id.clone(),
        turn_id: pending.turn_id.clone(),
        item_id: pending.call_id.clone(),
        outcome,
        error: match outcome {
            InputOutcome::Cancelled => Some(USER_INPUT_CANCELLED.to_owned()),
            InputOutcome::Submitted => None,
        },
    }
}

} // verus!
