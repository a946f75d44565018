//! Collaborative sub-agent calls: agent statuses, the completed-call item, and the mapping of
//! the engine's structured "end" events onto it.
use vstd::prelude::*;

use crate::tool_name::CollabTool;
use crate::order::{lemma_lt_trans, seq_lt, sorted_unique_ids, strictly_sorted, str_lt, views};

verus! {

/// The state of a sub-agent as the engine reports it.
#[derive(Debug)]
pub enum AgentStatus {
    PendingInit,
    Running,
    Completed(Option<String>),
    Errored(String),
    Shutdown,
    NotFound,
}

impl AgentStatus {
    pub open spec fn is_failure(&self) -> bool {
        self is Errored || self is NotFound
    }

    pub fn duplicate(&self) -> (r: AgentStatus)
        ensures
            r == *self,
    {
        match self {
            AgentStatus::PendingInit => AgentStatus::PendingInit,
            AgentStatus::Running => AgentStatus::Running,
            AgentStatus::Completed(None) => AgentStatus::Completed(None),
            AgentStatus::Completed(Some(m)) => AgentStatus::Completed(Some(m.clone())),
            AgentStatus::Errored(m) => AgentStatus::Errored(m.clone()),
            AgentStatus::Shutdown => AgentStatus::Shutdown,
            AgentStatus::NotFound => AgentStatus::NotFound,
        }
    }

    pub fn failed(&self) -> (r: bool)
        ensures
            r == self.is_failure(),
    {
        match self {
            AgentStatus::Errored(_) | AgentStatus::NotFound => true,
            _ => false,
        }
    }

    pub open spec fn spec_label(&self) -> Seq<char> {
        match self {
            AgentStatus::PendingInit | AgentStatus::Running => "running"@,
            AgentStatus::Completed(_) => "completed"@,
            AgentStatus::Errored(_) => "errored"@,
            AgentStatus::Shutdown => "shutdown"@,
            AgentStatus::NotFound => "notFound"@,
        }
    }

    /// The public label of a sub-agent's state.
    pub fn label(&self) -> (r: String)
        ensures
            r@ == self.spec_label(),
    {
        match self {
            AgentStatus::PendingInit | AgentStatus::Running => "running".to_owned(),
            AgentStatus::Completed(_) => "completed".to_owned(),
            AgentStatus::Errored(_) => "errored".to_owned(),
            AgentStatus::Shutdown => "shutdown".to_owned(),
            AgentStatus::NotFound => "notFound".to_owned(),
        }
    }
}

/// The status of a collaborative call as a whole.
#[derive(Clone, Copy, Debug, PartialEq, Eq, Structural)]
pub enum CollabOutcome {
    InProgress,
    Completed,
    Failed,
}

impl CollabOutcome {
    pub open spec fn spec_label(&self) -> Seq<char> {
        match self {
            CollabOutcome::InProgress => "in_progress"@,
            CollabOutcome::Completed => "completed"@,
            CollabOutcome::Failed => "failed"@,
        }
    }

    pub fn label(&self) -> (r: String)
        ensures
            r@ == self.spec_label(),
    {
        match self {
            CollabOutcome::InProgress => "in_progress".to_owned(),
            CollabOutcome::Completed => "completed".to_owned(),
            CollabOutcome::Failed => "failed".to_owned(),
        }
    }
}

pub open spec fn outcome_of(status: AgentStatus) -> CollabOutcome {
    if status.is_failure() {
        CollabOutcome::Failed
    } else {
        CollabOutcome::Completed
    }
}

/// Errored and not-found agents make the call fail; every other state completes it.
pub fn legacy_collab_status_from_agent_status(status: &AgentStatus) -> (r: CollabOutcome)
    ensures
        r == outcome_of(*status),
{
    if status.failed() {
        CollabOutcome::Failed
    } else {
        CollabOutcome::Completed
    }
}

/// A sub-agent's state within a completed call.
#[derive(Debug)]
pub struct AgentState {
    pub thread_id: String,
    pub status: AgentStatus,
}

/// The `collab_tool_call` item of an `item.completed` event.
#[derive(Debug)]
pub struct CollabCall {
    pub id: String,
    pub tool: CollabTool,
    pub status: CollabOutcome,
    pub sender_thread_id: String,
    pub receiver_thread_ids: Vec<String>,
    pub prompt: String,
    /// One entry per agent, ordered by thread id.
    pub agents_states: Vec<AgentState>,
    pub error: Option<String>,
}

pub open spec fn state_keys(s: Seq<AgentState>) -> Seq<Seq<char>> {
    s.map_values(|a: AgentState| a.thread_id@)
}

/// Ordered by thread id (equal ids may stand side by side).
pub open spec fn sorted_by_key(s: Seq<AgentState>) -> bool {
    forall|i: int, j: int| 0 <= i < j < s.len() ==> !seq_lt(#[trigger] s[j].thread_id@, #[trigger] s[i].thread_id@)
}

/// Adds `a` to a list ordered by thread id, after the entries with the same id.
pub fn insert_state_sorted(v: &mut Vec<AgentState>, a: AgentState)
    requires
        sorted_by_key(old(v)@),
    ensures
        sorted_by_key(final(v)@),
        final(v)@.to_multiset() == old(v)@.to_multiset().insert(a),
{
    let mut p: usize = 0;
    while p < v.len() && !str_lt(a.thread_id.as_str(), v[p].thread_id.as_str())
        invariant
            p <= v.len(),
            v@ == old(v)@,
            forall|k: int| 0 <= k < p ==> !seq_lt(a.thread_id@, #[trigger] v@[k].thread_id@),
        decreases v.len() - p,
    {
        p = p + 1;
    }
    let ghost s0 = v@;
    let ghost key = a.thread_id@;
    proof {
        if p < s0.len() {
            assert forall|k: int| p <= k < s0.len() implies !seq_lt(#[trigger] s0[k].thread_id@, key) by {
                if seq_lt(s0[k].thread_id@, key) {
                    lemma_lt_trans(s0[k].thread_id@, key, s0[p as int].thread_id@);
                    if k == p {
                        crate::order::lemma_lt_irrefl(key);
                        lemma_lt_trans(key, s0[p as int].thread_id@, key);
                    }
                }
            }
        }
        vstd::seq_lib::to_multiset_insert(s0, p as int, a);
    }
    v.insert(p, a);
    assert(v@ =~= s0.insert(p as int, a));
    assert forall|i: int, j: int| 0 <= i < j < v@.len() implies !seq_lt(#[trigger] v@[j].thread_id@, #[trigger] v@[i].thread_id@) by {
        if j < p {
        } else if j == p {
        } else if i < p {
            if seq_lt(v@[j].thread_id@, v@[i].thread_id@) {
                assert(!seq_lt(s0[j - 1].thread_id@, key));
                lemma_lt_trans(s0[j - 1].thread_id@, v@[i].thread_id@, key);
            }
        } else if i == p {
        } else {
        }
    }
}

/// The entries of `v`, ordered by thread id.
pub fn sort_states(v: Vec<AgentState>) -> (r: Vec<AgentState>)
    ensures
        sorted_by_key(r@),
        r@.to_multiset() == v@.to_multiset(),
{
    let mut r: Vec<AgentState> = Vec::new();
    let mut rest = v;
    let ghost all = rest@;
    proof {
        vstd::seq_lib::lemma_multiset_commutative(r@, rest@);
        assert(r@ + rest@ =~= all);
    }
    while rest.len() > 0
        invariant
            sorted_by_key(r@),
            r@.to_multiset().add(rest@.to_multiset()) == all.to_multiset(),
        decreases rest.len(),
    {
        let ghost before = rest@;
        let x = rest.pop().unwrap();
        assert(rest@.push(x) =~= before);
        proof {
            vstd::seq_lib::to_multiset_build(rest@, x);
        }
        insert_state_sorted(&mut r, x);
        assert(r@.to_multiset().add(rest@.to_multiset()) =~= all.to_multiset());
    }
    proof {
        rest@.to_multiset_ensures();
        assert(rest@.to_multiset() =~= vstd::multiset::Multiset::empty());
        assert(r@.to_multiset() =~= all.to_multiset());
    }
    r
}

/// Whether some agent in `s` errored or was not found.
pub open spec fn any_failure(s: Seq<AgentState>) -> bool {
    exists|i: int| 0 <= i < s.len() && (#[trigger] s[i]).status.is_failure()
}

pub fn states_have_failure(v: &Vec<AgentState>) -> (r: bool)
    ensures
        r == any_failure(v@),
{
    let mut i: usize = 0;
    while i < v.len()
        invariant
            i <= v.len(),
            forall|k: int| 0 <= k < i ==> !(#[trigger] v@[k]).status.is_failure(),
        decreases v.len() - i,
    {
        if v[i].status.failed() {
            return true;
        }
        i = i + 1;
    }
    false
}

/// One entry per id of `ids` (sorted, each once), each with a copy of `status`.
pub fn states_for_ids(ids: &Vec<String>, status: &AgentStatus) -> (r: Vec<AgentState>)
    ensures
        strictly_sorted(state_keys(r@)),
        state_keys(r@).to_set() == views(ids@).to_set(),
        forall|i: int| 0 <= i < r@.len() ==> (#[trigger] r@[i]).status == *status,
{
    let mut copy: Vec<String> = Vec::new();
    let mut i: usize = 0;
    while i < ids.len()
        invariant
            i <= ids.len(),
            copy@.len() == i,
            forall|j: int| 0 <= j < i ==> copy@[j]@ == ids@[j]@,
        decreases ids.len() - i,
    {
        copy.push(ids[i].clone());
        i = i + 1;
    }
    assert(views(copy@) =~= views(ids@));
    let sorted = sorted_unique_ids(copy);
    let mut r: Vec<AgentState> = Vec::new();
    let mut k: usize = 0;
    while k < sorted.len()
        invariant
            k <= sorted.len(),
            r@.len() == k,
            forall|j: int| 0 <= j < k ==> r@[j].thread_id@ == sorted@[j]@,
            forall|i: int| 0 <= i < r@.len() ==> (#[trigger] r@[i]).status == *status,
        decreases sorted.len() - k,
    {
        r.push(AgentState { thread_id: sorted[k].clone(), status: status.duplicate() });
        k = k + 1;
    }
    assert(state_keys(r@) =~= views(sorted@));
    r
}

/// Structured end of a `spawn_agent` call.
#[derive(Debug)]
pub struct SpawnEnd {
    pub call_id: String,
    pub sender_thread_id: String,
    pub new_thread_id: Option<String>,
    pub prompt: String,
    pub status: AgentStatus,
}

/// Structured end of a call that addresses one receiver (`send_input`, `resume_agent`,
/// `close_agent`).
#[derive(Debug)]
pub struct ReceiverEnd {
    pub call_id: String,
    pub sender_thread_id: String,
    pub receiver_thread_id: String,
    pub prompt: String,
    pub status: AgentStatus,
}

/// Structured end of a `wait` call.
#[derive(Debug)]
pub struct WaitingEnd {
    pub call_id: String,
    pub sender_thread_id: String,
    pub statuses: Vec<(String, AgentStatus)>,
}

/// The structured end events of collaborative calls.
#[derive(Debug)]
pub enum CollabEnd {
    Spawn(SpawnEnd),
    Interaction(ReceiverEnd),
    Waiting(WaitingEnd),
    Close(ReceiverEnd),
    Resume(ReceiverEnd),
}

impl CollabEnd {
    pub open spec fn spec_call_id(&self) -> String {
        match self {
            CollabEnd::Spawn(e) => e.call_id,
            CollabEnd::Interaction(e) => e.call_id,
            CollabEnd::Waiting(e) => e.call_id,
            CollabEnd::Close(e) => e.call_id,
            CollabEnd::Resume(e) => e.call_id,
        }
    }

    pub fn call_id(&self) -> (r: &String)
        ensures
            *r == self.spec_call_id(),
    {
        match self {
            CollabEnd::Spawn(e) => &e.call_id,
            CollabEnd::Interaction(e) => &e.call_id,
            CollabEnd::Waiting(e) => &e.call_id,
            CollabEnd::Close(e) => &e.call_id,
            CollabEnd::Resume(e) => &e.call_id,
        }
    }
}

pub open spec fn spawn_outcome(e: SpawnEnd) -> CollabOutcome {
    if e.status.is_failure() {
        CollabOutcome::Failed
    } else if e.new_thread_id.is_some() {
        CollabOutcome::Completed
    } else {
        CollabOutcome::Failed
    }
}

pub open spec fn spawn_error(e: SpawnEnd) -> Option<Seq<char>> {
    match (e.new_thread_id, e.status) {
        (None, AgentStatus::Errored(m)) => Some(m@),
        (None, AgentStatus::NotFound) => Some("agent not found"@),
        _ => None,
    }
}

/// The completed item of a structured `spawn_agent` end.
pub open spec fn spawn_item_ok(e: SpawnEnd, r: CollabCall) -> bool {
    &&& r.id == e.call_id
    &&& r.tool == CollabTool::SpawnAgent
    &&& r.status == spawn_outcome(e)
    &&& r.sender_thread_id == e.sender_thread_id
    &&& r.prompt == e.prompt
    &&& match e.new_thread_id {
        Some(t) => r.receiver_thread_ids@ == seq![t] && r.agents_states@.len() == 1
            && r.agents_states@[0].thread_id == t && r.agents_states@[0].status == e.status,
        None => r.receiver_thread_ids@.len() == 0 && r.agents_states@.len() == 0,
    }
    &&& r.error.is_some() == spawn_error(e).is_some()
    &&& r.error.is_some() ==> r.error.unwrap()@ == spawn_error(e).unwrap()
}

/// The completed item for a structured `spawn_agent` end.
pub fn map_collab_agent_spawn_end(e: &SpawnEnd) -> (r: CollabCall)
    ensures
        spawn_item_ok(*e, r),
{
    let failed = e.status.failed();
    let status = if failed {
        CollabOutcome::Failed
    } else if e.new_thread_id.is_some() {
        CollabOutcome::Completed
    } else {
        CollabOutcome::Failed
    };
    let mut receivers: Vec<String> = Vec::new();
    let mut states: Vec<AgentState> = Vec::new();
    let mut error: Option<String> = None;
    match &e.new_thread_id {
        Some(t) => {
            receivers.push(t.clone());
            states.push(AgentState { thread_id: t.clone(), status: e.status.duplicate() });
            assert(receivers@ =~= seq![*t]);
        },
        None => {
            match &e.status {
                AgentStatus::Errored(m) => {
                    error = Some(m.clone());
                },
                AgentStatus::NotFound => {
                    error = Some("agent not found".to_owned());
                },
                _ => {},
            }
        },
    }
    CollabCall {
        id: e.call_id.clone(),
        tool: CollabTool::SpawnAgent,
        status,
        sender_thread_id: e.sender_thread_id.clone(),
        receiver_thread_ids: receivers,
        prompt: e.prompt.clone(),
        agents_states: states,
        error,
    }
}

/// The completed item of a structured end addressing one receiver.
pub open spec fn receiver_item_ok(e: ReceiverEnd, tool: CollabTool, keep_prompt: bool, r: CollabCall) -> bool {
    &&& r.id == e.call_id
    &&& r.tool == tool
    &&& r.status == outcome_of(e.status)
    &&& r.sender_thread_id == e.sender_thread_id
    &&& r.receiver_thread_ids@ == seq![e.receiver_thread_id]
    &&& r.agents_states@.len() == 1
    &&& r.agents_states@[0].thread_id == e.receiver_thread_id
    &&& r.agents_states@[0].status == e.status
    &&& keep_prompt ==> r.prompt == e.prompt
    &&& !keep_prompt ==> r.prompt@.len() == 0
    &&& r.error.is_none()
}

/// The completed item for a structured end that addresses one receiver.
pub fn map_collab_receiver_end(e: &ReceiverEnd, tool: CollabTool, keep_prompt: bool) -> (r: CollabCall)
    ensures
        receiver_item_ok(*e, tool, keep_prompt, r),
{
    let mut receivers: Vec<String> = Vec::new();
    receivers.push(e.receiver_thread_id.clone());
    assert(receivers@ =~= seq![e.receiver_thread_id]);
    let mut states: Vec<AgentState> = Vec::new();
    states.push(AgentState { thread_id: e.receiver_thread_id.clone(), status: e.status.duplicate() });
    CollabCall {
        id: e.call_id.clone(),
        tool,
        status: legacy_collab_status_from_agent_status(&e.status),
        sender_thread_id: e.sender_thread_id.clone(),
        receiver_thread_ids: receivers,
        prompt: if keep_prompt { e.prompt.clone() } else { String::new() },
        agents_states: states,
        error: None,
    }
}

pub open spec fn pair_states(s: Seq<(String, AgentStatus)>) -> Seq<AgentState> {
    s.map_values(|p: (String, AgentStatus)| AgentState { thread_id: p.0, status: p.1 })
}

/// The completed item of a structured `wait` end.
pub open spec fn waiting_item_ok(e: WaitingEnd, r: CollabCall) -> bool {
    &&& r.id == e.call_id
    &&& r.tool == CollabTool::Wait
    &&& r.sender_thread_id == e.sender_thread_id
    &&& r.prompt@.len() == 0
    &&& sorted_by_key(r.agents_states@)
    &&& r.agents_states@.to_multiset() == pair_states(e.statuses@).to_multiset()
    &&& views(r.receiver_thread_ids@) == state_keys(r.agents_states@)
    &&& r.status == if any_failure(pair_states(e.statuses@)) {
        CollabOutcome::Failed
    } else {
        CollabOutcome::Completed
    }
    &&& r.error.is_none()
}

/// The completed item for a structured `wait` end: the agents ordered by thread id, and the
/// call failed where one of them errored or was not found.
pub fn map_collab_waiting_end(e: &WaitingEnd) -> (r: CollabCall)
    ensures
        waiting_item_ok(*e, r),
{
    let mut pairs: Vec<AgentState> = Vec::new();
    let mut i: usize = 0;
    while i < e.statuses.len()
        invariant
            i <= e.statuses@.len(),
            pairs@ == pair_states(e.statuses@.subrange(0, i as int)),
        decreases e.statuses.len() - i,
    {
        pairs.push(AgentState { thread_id: e.statuses[i].0.clone(), status: e.statuses[i].1.duplicate() });
        i = i + 1;
        assert(pairs@ =~= pair_states(e.statuses@.subrange(0, i as int)));
    }
    assert(e.statuses@.subrange(0, i as int) =~= e.statuses@);
    let ghost unsorted = pairs@;
    let states = sort_states(pairs);
    let failed = states_have_failure(&states);
    proof {
        if any_failure(unsorted) {
            let k = choose|k: int| 0 <= k < unsorted.len() && (#[trigger] unsorted[k]).status.is_failure();
            vstd::seq_lib::to_multiset_contains(unsorted, unsorted[k]);
            vstd::seq_lib::to_multiset_contains(states@, unsorted[k]);
            assert(states@.contains(unsorted[k]));
        }
        if any_failure(states@) {
            let k = choose|k: int| 0 <= k < states@.len() && (#[trigger] states@[k]).status.is_failure();
            vstd::seq_lib::to_multiset_contains(unsorted, states@[k]);
            vstd::seq_lib::to_multiset_contains(states@, states@[k]);
            assert(unsorted.contains(states@[k]));
        }
    }
    let mut receivers: Vec<String> = Vec::new();
    let mut k: usize = 0;
    while k < states.len()
        invariant
            k <= states.len(),
            receivers@.len() == k,
            forall|j: int| 0 <= j < k ==> receivers@[j]@ == states@[j].thread_id@,
        decreases states.len() - k,
    {
        receivers.push(states[k].thread_id.clone());
        k = k + 1;
    }
    assert(views(receivers@) =~= state_keys(states@));
    CollabCall {
        id: e.call_id.clone(),
        tool: CollabTool::Wait,
        status: if failed { CollabOutcome::Failed } else { CollabOutcome::Completed },
        sender_thread_id: e.sender_thread_id.clone(),
        receiver_thread_ids: receivers,
        prompt: String::new(),
        agents_states: states,
        error: None,
    }
}

/// The completed item of any structured end event.
pub open spec fn end_item_ok(e: CollabEnd, r: CollabCall) -> bool {
    match e {
        CollabEnd::Spawn(x) => spawn_item_ok(x, r),
        CollabEnd::Interaction(x) => receiver_item_ok(x, CollabTool::SendInput, true, r),
        CollabEnd::Waiting(x) => waiting_item_ok(x, r),
        CollabEnd::Close(x) => receiver_item_ok(x, CollabTool::CloseAgent, false, r),
        CollabEnd::Resume(x) => receiver_item_ok(x, CollabTool::ResumeAgent, false, r),
    }
}

/// The completed item for any structured end event.
pub fn map_collab_end(e: &CollabEnd) -> (r: CollabCall)
    ensures
        r.id == e.spec_call_id(),
        end_item_ok(*e, r),
{
    match e {
        CollabEnd::Spawn(s) => map_collab_agent_spawn_end(s),
        CollabEnd::Interaction(s) => map_collab_receiver_end(s, CollabTool::SendInput, true),
        CollabEnd::Waiting(w) => map_collab_waiting_end(w),
        CollabEnd::Close(s) => map_collab_receiver_end(s, CollabTool::CloseAgent, false),
        CollabEnd::Resume(s) => map_collab_receiver_end(s, CollabTool::ResumeAgent, false),
    }
}

} // verus!
