//! Collaborative calls seen through the generic function-call channel: the invocation is
//! remembered as a pending call, and its output is matched against the tool's shape.
use vstd::prelude::*;

use crate::collab::{
    any_failure, legacy_collab_status_from_agent_status, outcome_of, sort_states, sorted_by_key, state_keys, states_for_ids,
    states_have_failure, AgentState, AgentStatus, CollabCall, CollabOutcome,
};
use crate::json::{field, field_or, parse_json, parsed_json, read_text, text_of, Json};
use crate::order::{sorted_unique_ids, strictly_sorted, views};
use crate::text::{concat_str, str_eq};
use crate::tool_name::{collab_tool_of, normalize_collab_tool_name, normalize_tool_name_key, tool_key, CollabTool};

verus! {

pub open spec fn is_hex(c: char) -> bool {
    ('0' <= c && c <= '9') || ('a' <= c && c <= 'f') || ('A' <= c && c <= 'F')
}

/// Thirty-six characters: hex digits in groups of 8-4-4-4-12 joined by hyphens.
pub open spec fn hyphenated_uuid(s: Seq<char>) -> bool {
    s.len() == 36 && forall|i: int| 0 <= i < 36 ==> if i == 8 || i == 13 || i == 18 || i == 23 {
        s[i] == '-'
    } else {
        is_hex(#[trigger] s[i])
    }
}

/// Whether `s` is a well-formed thread identifier, that is a UUID: 32 hex digits, the
/// hyphenated form, the hyphenated form in braces, or it after `urn:uuid:` in any case.
pub open spec fn valid_thread_id(s: Seq<char>) -> bool {
    ||| (s.len() == 32 && forall|i: int| 0 <= i < 32 ==> is_hex(#[trigger] s[i]))
    ||| hyphenated_uuid(s)
    ||| (s.len() == 38 && s[0] == '{' && s[37] == '}' && hyphenated_uuid(s.subrange(1, 37)))
    ||| (s.len() == 45 && crate::text::lower(s.subrange(0, 9)) == "urn:uuid:"@ && hyphenated_uuid(s.subrange(9, 45)))
}

/// Relies on `codex_protocol::ConversationId::from_string`, which is `uuid::Uuid::parse_str`:
/// it accepts exactly the four UUID forms that `valid_thread_id` lists.
#[verifier::external_body]
pub fn is_valid_thread_id(candidate: &str) -> (r: bool)
    ensures
        r == valid_thread_id(candidate@),
{
    codex_protocol::ConversationId::from_string(candidate).is_ok()
}

/// An agent status written as a bare name.
pub open spec fn unit_status(name: Seq<char>) -> Option<AgentStatus> {
    if name == "pending_init"@ {
        Some(AgentStatus::PendingInit)
    } else if name == "running"@ {
        Some(AgentStatus::Running)
    } else if name == "shutdown"@ {
        Some(AgentStatus::Shutdown)
    } else if name == "not_found"@ {
        Some(AgentStatus::NotFound)
    } else {
        None
    }
}

/// An agent status written as an object with one entry, the name and its payload.
pub open spec fn tagged_status(tag: Seq<char>, payload: Json) -> Option<AgentStatus> {
    if tag == "completed"@ {
        match payload {
            Json::Null => Some(AgentStatus::Completed(None)),
            Json::Str(m) => Some(AgentStatus::Completed(Some(m))),
            _ => None,
        }
    } else if tag == "errored"@ {
        match payload {
            Json::Str(m) => Some(AgentStatus::Errored(m)),
            _ => None,
        }
    } else {
        match payload {
            Json::Null => unit_status(tag),
            _ => None,
        }
    }
}

/// The agent status a JSON value spells, in the engine's encoding (`"running"`,
/// `{"completed": "done"}`, `{"errored": "why"}`, ...).
pub open spec fn status_of_json(v: Json) -> Option<AgentStatus> {
    match v {
        Json::Str(s) => unit_status(s@),
        Json::Object(entries) => if entries@.len() == 1 {
            tagged_status(entries@[0].0@, entries@[0].1)
        } else {
            None
        },
        _ => None,
    }
}

fn unit_status_of(name: &str) -> (r: Option<AgentStatus>)
    ensures
        r == unit_status(name@),
{
    if str_eq(name, "pending_init") {
        Some(AgentStatus::PendingInit)
    } else if str_eq(name, "running") {
        Some(AgentStatus::Running)
    } else if str_eq(name, "shutdown") {
        Some(AgentStatus::Shutdown)
    } else if str_eq(name, "not_found") {
        Some(AgentStatus::NotFound)
    } else {
        None
    }
}

pub fn parse_agent_status(value: &Json) -> (r: Option<AgentStatus>)
    ensures
        r == status_of_json(*value),
{
    match value {
        Json::Str(s) => unit_status_of(s.as_str()),
        Json::Object(entries) => {
            if entries.len() != 1 {
                return None;
            }
            let tag = entries[0].0.as_str();
            let payload = &entries[0].1;
            if str_eq(tag, "completed") {
                match payload {
                    Json::Null => Some(AgentStatus::Completed(None)),
                    Json::Str(m) => Some(AgentStatus::Completed(Some(m.clone()))),
                    _ => None,
                }
            } else if str_eq(tag, "errored") {
                match payload {
                    Json::Str(m) => Some(AgentStatus::Errored(m.clone())),
                    _ => None,
                }
            } else {
                match payload {
                    Json::Null => unit_status_of(tag),
                    _ => None,
                }
            }
        },
        _ => None,
    }
}

/// What the invocation of a collaborative call told about it.
#[derive(Debug)]
pub struct PendingRawCollabCall {
    pub tool: CollabTool,
    pub sender_thread_id: String,
    pub receiver_thread_ids: Vec<String>,
    pub prompt: String,
}

impl PendingRawCollabCall {
    pub fn duplicate(&self) -> (r: PendingRawCollabCall)
        ensures
            r.tool == self.tool,
            r.sender_thread_id == self.sender_thread_id,
            r.receiver_thread_ids@ == self.receiver_thread_ids@,
            r.prompt == self.prompt,
    {
        let mut ids: Vec<String> = Vec::new();
        let mut i: usize = 0;
        while i < self.receiver_thread_ids.len()
            invariant
                i <= self.receiver_thread_ids@.len(),
                ids@ == self.receiver_thread_ids@.subrange(0, i as int),
            decreases self.receiver_thread_ids.len() - i,
        {
            ids.push(self.receiver_thread_ids[i].clone());
            i = i + 1;
            assert(ids@ =~= self.receiver_thread_ids@.subrange(0, i as int));
        }
        assert(self.receiver_thread_ids@.subrange(0, i as int) =~= self.receiver_thread_ids@);
        PendingRawCollabCall {
            tool: self.tool,
            sender_thread_id: self.sender_thread_id.clone(),
            receiver_thread_ids: ids,
            prompt: self.prompt.clone(),
        }
    }
}

/// The trimmed, non-empty strings among `items`, in order.
pub open spec fn texts_of(items: Seq<Json>) -> Seq<Seq<char>>
    decreases items.len(),
{
    if items.len() == 0 {
        Seq::empty()
    } else {
        let rest = texts_of(items.drop_last());
        match text_of(Some(items.last())) {
            Some(t) => rest.push(t),
            None => rest,
        }
    }
}

/// The receivers that a call's arguments name.
pub open spec fn receivers_of(tool: CollabTool, args: Json) -> Seq<Seq<char>> {
    match tool {
        CollabTool::SpawnAgent => Seq::empty(),
        CollabTool::Wait => match field(args, "ids"@) {
            Some(Json::Array(items)) => texts_of(items@),
            _ => Seq::empty(),
        },
        _ => match text_of(field(args, "id"@)) {
            Some(t) => seq![t],
            None => Seq::empty(),
        },
    }
}

pub fn collab_receiver_thread_ids(tool: CollabTool, parsed_arguments: &Json) -> (r: Vec<String>)
    ensures
        views(r@) == receivers_of(tool, *parsed_arguments),
{
    match tool {
        CollabTool::SpawnAgent => {
            let r: Vec<String> = Vec::new();
            assert(views(r@) =~= Seq::<Seq<char>>::empty());
            r
        },
        CollabTool::Wait => {
            let mut r: Vec<String> = Vec::new();
            match parsed_arguments.get("ids") {
                Some(Json::Array(items)) => {
                    let mut i: usize = 0;
                    assert(views(r@) =~= texts_of(items@.subrange(0, 0)));
                    while i < items.len()
                        invariant
                            i <= items@.len(),
                            views(r@) == texts_of(items@.subrange(0, i as int)),
                        decreases items.len() - i,
                    {
                        let t = read_text(Some(&items[i]));
                        proof {
                            assert(items@.subrange(0, i + 1).drop_last() =~= items@.subrange(0, i as int));
                        }
                        match t {
                            Some(t) => {
                                r.push(t);
                            },
                            None => {},
                        }
                        i = i + 1;
                        assert(views(r@) =~= texts_of(items@.subrange(0, i as int)));
                    }
                    assert(items@.subrange(0, i as int) =~= items@);
                },
                _ => {
                    assert(views(r@) =~= Seq::<Seq<char>>::empty());
                },
            }
            r
        },
        _ => {
            let mut r: Vec<String> = Vec::new();
            match read_text(parsed_arguments.get("id")) {
                Some(t) => {
                    r.push(t);
                },
                None => {},
            }
            assert(views(r@) =~= receivers_of(tool, *parsed_arguments));
            r
        },
    }
}

/// How one entry of a multi-part prompt is shown.
pub open spec fn item_preview(item: Json) -> Option<Seq<char>> {
    match field(item, "type"@) {
        Some(Json::Str(t)) => {
            let k = tool_key(t@);
            if k == "text"@ {
                text_of(field(item, "text"@))
            } else if k == "image"@ {
                Some("[image]"@)
            } else if k == "local_image"@ {
                match text_of(field(item, "path"@)) {
                    Some(p) => Some("[local_image:"@ + p + "]"@),
                    None => None,
                }
            } else if k == "skill"@ {
                match (text_of(field(item, "name"@)), text_of(field(item, "path"@))) {
                    (Some(n), Some(p)) => Some("[skill:$"@ + n + "]("@ + p + ")"@),
                    _ => None,
                }
            } else if k == "mention"@ {
                match (text_of(field(item, "name"@)), text_of(field(item, "path"@))) {
                    (Some(n), Some(p)) => Some("[mention:"@ + n + "]("@ + p + ")"@),
                    _ => None,
                }
            } else {
                None
            }
        },
        _ => None,
    }
}

pub open spec fn previews(items: Seq<Json>) -> Seq<Seq<char>>
    decreases items.len(),
{
    if items.len() == 0 {
        Seq::empty()
    } else {
        let rest = previews(items.drop_last());
        match item_preview(items.last()) {
            Some(t) => rest.push(t),
            None => rest,
        }
    }
}

/// The parts written one after another with `sep` between neighbours.
pub open spec fn join(parts: Seq<Seq<char>>, sep: Seq<char>) -> Seq<char>
    decreases parts.len(),
{
    if parts.len() == 0 {
        Seq::empty()
    } else if parts.len() == 1 {
        parts[0]
    } else {
        join(parts.drop_last(), sep) + sep + parts.last()
    }
}

/// The prompt of a call: its `message`, or else its multi-part `items` shown one by one.
pub open spec fn prompt_of(args: Json) -> Seq<char> {
    match text_of(field(args, "message"@)) {
        Some(m) => m,
        None => match field(args, "items"@) {
            Some(Json::Array(items)) => join(previews(items@), "\n\n"@),
            _ => Seq::empty(),
        },
    }
}

fn wrap3(a: &str, b: &str, c: &str) -> (r: String)
    ensures
        r@ == a@ + b@ + c@,
{
    concat_str(concat_str(a, b).as_str(), c)
}

pub fn collab_item_preview(item: &Json) -> (r: Option<String>)
    ensures
        r.is_some() == item_preview(*item).is_some(),
        r.is_some() ==> r.unwrap()@ == item_preview(*item).unwrap(),
{
    let kind = match item.get("type") {
        Some(Json::Str(t)) => normalize_tool_name_key(t.as_str()),
        _ => {
            return None;
        },
    };
    let k = kind.as_str();
    if str_eq(k, "text") {
        read_text(item.get("text"))
    } else if str_eq(k, "image") {
        Some("[image]".to_owned())
    } else if str_eq(k, "local_image") {
        match read_text(item.get("path")) {
            Some(p) => Some(wrap3("[local_image:", p.as_str(), "]")),
            None => None,
        }
    } else if str_eq(k, "skill") || str_eq(k, "mention") {
        let name = read_text(item.get("name"));
        let path = read_text(item.get("path"));
        match (name, path) {
            (Some(n), Some(p)) => {
                let head = if str_eq(k, "skill") {
                    wrap3("[skill:$", n.as_str(), "](")
                } else {
                    wrap3("[mention:", n.as_str(), "](")
                };
                Some(wrap3(head.as_str(), p.as_str(), ")"))
            },
            _ => None,
        }
    } else {
        None
    }
}

pub fn collab_prompt_from_arguments(parsed_arguments: &Json) -> (r: String)
    ensures
        r@ == prompt_of(*parsed_arguments),
{
    match read_text(parsed_arguments.get("message")) {
        Some(m) => {
            return m;
        },
        None => {},
    }
    match parsed_arguments.get("items") {
        Some(Json::Array(items)) => {
            let mut parts: Vec<String> = Vec::new();
            let mut i: usize = 0;
            assert(views(parts@) =~= previews(items@.subrange(0, 0)));
            while i < items.len()
                invariant
                    i <= items@.len(),
                    views(parts@) == previews(items@.subrange(0, i as int)),
                decreases items.len() - i,
            {
                let p = collab_item_preview(&items[i]);
                proof {
                    assert(items@.subrange(0, i + 1).drop_last() =~= items@.subrange(0, i as int));
                }
                match p {
                    Some(p) => {
                        parts.push(p);
                    },
                    None => {},
                }
                i = i + 1;
                assert(views(parts@) =~= previews(items@.subrange(0, i as int)));
            }
            assert(items@.subrange(0, i as int) =~= items@);
            join_strings(&parts, "\n\n")
        },
        _ => String::new(),
    }
}

pub fn join_strings(parts: &Vec<String>, sep: &str) -> (r: String)
    ensures
        r@ == join(views(parts@), sep@),
{
    let mut r = String::new();
    let mut i: usize = 0;
    while i < parts.len()
        invariant
            i <= parts@.len(),
            r@ == join(views(parts@.subrange(0, i as int)), sep@),
        decreases parts.len() - i,
    {
        proof {
            assert(views(parts@.subrange(0, i + 1)).drop_last() =~= views(parts@.subrange(0, i as int)));
            assert(views(parts@.subrange(0, i + 1)).last() == parts@[i as int]@);
        }
        if i == 0 {
            r = parts[i].clone();
        } else {
            r = concat_str(concat_str(r.as_str(), sep).as_str(), parts[i].as_str());
        }
        i = i + 1;
    }
    assert(parts@.subrange(0, i as int) =~= parts@);
    r
}

/// The record remembered for an invocation of a collaborative tool by `sender`.
pub open spec fn pending_ok(sender: Seq<char>, tool_name: Seq<char>, arguments: Seq<char>, p: PendingRawCollabCall) -> bool {
    let tool = collab_tool_of(tool_name).unwrap();
    let args = parsed_json(arguments).unwrap();
    &&& p.tool == tool
    &&& p.sender_thread_id@ == sender
    &&& views(p.receiver_thread_ids@) == receivers_of(tool, args)
    &&& p.prompt@ == if tool == CollabTool::SpawnAgent || tool == CollabTool::SendInput {
        prompt_of(args)
    } else {
        Seq::empty()
    }
}

/// The pending record for an invocation of `tool_name` with these arguments, where the name
/// denotes a collaborative tool and the arguments are JSON.
pub fn pending_raw_collab_call(sender_thread_id: &str, tool_name: &str, arguments: &str) -> (r: Option<PendingRawCollabCall>)
    ensures
        r.is_some() == (collab_tool_of(tool_name@).is_some() && parsed_json(arguments@).is_some()),
        r.is_some() ==> pending_ok(sender_thread_id@, tool_name@, arguments@, r.unwrap()),
{
    let tool = match normalize_collab_tool_name(tool_name) {
        Some(t) => t,
        None => {
            return None;
        },
    };
    let parsed = match parse_json(arguments) {
        Some(v) => v,
        None => {
            return None;
        },
    };
    let receivers = collab_receiver_thread_ids(tool, &parsed);
    let prompt = match tool {
        CollabTool::SpawnAgent | CollabTool::SendInput => collab_prompt_from_arguments(&parsed),
        _ => String::new(),
    };
    Some(PendingRawCollabCall {
        tool,
        sender_thread_id: sender_thread_id.to_owned(),
        receiver_thread_ids: receivers,
        prompt,
    })
}

/// Keys of a status map that are thread ids and whose value is an agent status.
pub open spec fn valid_status_keys(entries: Seq<(String, Json)>) -> Seq<Seq<char>>
    decreases entries.len(),
{
    if entries.len() == 0 {
        Seq::empty()
    } else {
        let rest = valid_status_keys(entries.drop_last());
        let e = entries.last();
        if valid_thread_id(e.0@) && status_of_json(e.1).is_some() {
            rest.push(e.0@)
        } else {
            rest
        }
    }
}

/// The agent id an output reports, where it is a thread id.
pub open spec fn reported_agent(output: Json) -> Option<Seq<char>> {
    text_of(field_or(output, "agent_id"@, "agentId"@))
}

/// The tool an output alone reveals: a spawn where it names a valid agent id, a wait where
/// its status map has valid thread ids with readable statuses.
pub open spec fn inferred_tool(output: Json) -> Option<CollabTool> {
    let agent = reported_agent(output);
    if agent.is_some() && valid_thread_id(agent.unwrap()) {
        Some(CollabTool::SpawnAgent)
    } else {
        match field(output, "status"@) {
            Some(Json::Object(entries)) => if valid_status_keys(entries@).len() > 0 {
                Some(CollabTool::Wait)
            } else {
                None
            },
            _ => None,
        }
    }
}

/// The record inferred from an output alone, for a call of thread `sender`.
pub open spec fn inferred_ok(sender: Seq<char>, output: Json, p: PendingRawCollabCall) -> bool {
    &&& p.sender_thread_id@ == sender
    &&& p.prompt@.len() == 0
    &&& inferred_tool(output) == Some(p.tool)
    &&& p.tool == CollabTool::SpawnAgent ==> p.receiver_thread_ids@.len() == 0
    &&& p.tool == CollabTool::Wait ==> match field(output, "status"@) {
        Some(Json::Object(entries)) => strictly_sorted(views(p.receiver_thread_ids@))
            && views(p.receiver_thread_ids@).to_set() == valid_status_keys(entries@).to_set(),
        _ => false,
    }
}

pub proof fn lemma_inferred_is_defined(sender: Seq<char>, output: Json, p: PendingRawCollabCall)
    requires
        inferred_ok(sender, output, p),
    ensures
        raw_call_defined(p, output),
{
    if p.tool == CollabTool::Wait {
        match field(output, "status"@) {
            Some(Json::Object(entries)) => {
                let ks = valid_status_keys(entries@);
                assert(ks.to_set().contains(ks[0]));
                if p.receiver_thread_ids@.len() == 0 {
                    assert(views(p.receiver_thread_ids@).to_set() =~= Set::empty());
                }
            },
            _ => {},
        }
    }
}

/// The pending record inferred from an output alone: a spawn where the output names a valid
/// agent id, else a wait where its status map has valid thread ids with readable statuses.
pub fn infer_pending_raw_collab_call_from_output(sender_thread_id: &str, output: &Json) -> (r: Option<PendingRawCollabCall>)
    ensures
        r.is_some() == inferred_tool(*output).is_some(),
        r.is_some() ==> inferred_ok(sender_thread_id@, *output, r.unwrap()),
{
    match read_text(output.get_either("agent_id", "agentId")) {
        Some(agent) => {
            if is_valid_thread_id(agent.as_str()) {
                return Some(PendingRawCollabCall {
                    tool: CollabTool::SpawnAgent,
                    sender_thread_id: sender_thread_id.to_owned(),
                    receiver_thread_ids: Vec::new(),
                    prompt: String::new(),
                });
            }
        },
        None => {},
    }
    match output.get("status") {
        Some(Json::Object(entries)) => {
            let mut ids: Vec<String> = Vec::new();
            let mut i: usize = 0;
            assert(views(ids@) =~= valid_status_keys(entries@.subrange(0, 0)));
            while i < entries.len()
                invariant
                    i <= entries@.len(),
                    views(ids@) == valid_status_keys(entries@.subrange(0, i as int)),
                decreases entries.len() - i,
            {
                proof {
                    assert(entries@.subrange(0, i + 1).drop_last() =~= entries@.subrange(0, i as int));
                }
                if is_valid_thread_id(entries[i].0.as_str()) && parse_agent_status(&entries[i].1).is_some() {
                    ids.push(entries[i].0.clone());
                }
                i = i + 1;
                assert(views(ids@) =~= valid_status_keys(entries@.subrange(0, i as int)));
            }
            assert(entries@.subrange(0, i as int) =~= entries@);
            if ids.len() == 0 {
                return None;
            }
            let sorted = sorted_unique_ids(ids);
            Some(PendingRawCollabCall {
                tool: CollabTool::Wait,
                sender_thread_id: sender_thread_id.to_owned(),
                receiver_thread_ids: sorted,
                prompt: String::new(),
            })
        },
        _ => None,
    }
}

/// The entries of a status map whose value is an agent status, in map order.
pub open spec fn parsed_states(entries: Seq<(String, Json)>) -> Seq<AgentState>
    decreases entries.len(),
{
    if entries.len() == 0 {
        Seq::empty()
    } else {
        let rest = parsed_states(entries.drop_last());
        let e = entries.last();
        match status_of_json(e.1) {
            Some(st) => rest.push(AgentState { thread_id: e.0, status: st }),
            None => rest,
        }
    }
}

pub open spec fn entry_keys(entries: Seq<(String, Json)>) -> Seq<Seq<char>> {
    entries.map_values(|e: (String, Json)| e.0@)
}

pub open spec fn timed_out(output: Json) -> bool {
    field_or(output, "timed_out"@, "timedOut"@) == Some(Json::Bool(true))
}

/// The outcome of a `wait`: failed where the output failed or an agent errored or was not
/// found; in progress where no status was readable or the wait timed out; else completed.
pub open spec fn wait_outcome(states: Seq<AgentState>, failed: bool, timed_out: bool) -> CollabOutcome {
    if failed || any_failure(states) {
        CollabOutcome::Failed
    } else if states.len() == 0 || timed_out {
        CollabOutcome::InProgress
    } else {
        CollabOutcome::Completed
    }
}

pub open spec fn plain_outcome(failed: bool) -> CollabOutcome {
    if failed {
        CollabOutcome::Failed
    } else {
        CollabOutcome::Completed
    }
}

pub open spec fn status_field(output: Json) -> Option<AgentStatus> {
    match field(output, "status"@) {
        Some(v) => status_of_json(v),
        None => None,
    }
}

/// Whether an output of a call with this pending record has the shape of its tool.
pub open spec fn raw_call_defined(pending: PendingRawCollabCall, output: Json) -> bool {
    match pending.tool {
        CollabTool::SpawnAgent => reported_agent(output).is_some(),
        CollabTool::SendInput => text_of(field_or(output, "submission_id"@, "submissionId"@)).is_some()
            && pending.receiver_thread_ids@.len() > 0,
        CollabTool::Wait => match field(output, "status"@) {
            Some(Json::Object(entries)) => pending.receiver_thread_ids@.len() > 0 || entries@.len() > 0,
            _ => false,
        },
        _ => status_field(output).is_some() && pending.receiver_thread_ids@.len() > 0,
    }
}

/// The completed item owed for such an output.
pub open spec fn raw_call_ok(
    call_id: Seq<char>,
    pending: PendingRawCollabCall,
    output: Json,
    failed: bool,
    c: CollabCall,
) -> bool {
    &&& c.id@ == call_id
    &&& c.tool == pending.tool
    &&& c.sender_thread_id == pending.sender_thread_id
    &&& c.prompt == pending.prompt
    &&& c.error.is_none()
    &&& match pending.tool {
        CollabTool::SpawnAgent => {
            &&& views(c.receiver_thread_ids@) == seq![reported_agent(output).unwrap()]
            &&& c.agents_states@.len() == 1
            &&& c.agents_states@[0].thread_id@ == reported_agent(output).unwrap()
            &&& c.agents_states@[0].status == AgentStatus::Running
            &&& c.status == plain_outcome(failed)
        },
        CollabTool::Wait => match field(output, "status"@) {
            Some(Json::Object(entries)) => {
                &&& strictly_sorted(views(c.receiver_thread_ids@))
                &&& views(c.receiver_thread_ids@).to_set() == if pending.receiver_thread_ids@.len() > 0 {
                    views(pending.receiver_thread_ids@).to_set()
                } else {
                    entry_keys(entries@).to_set()
                }
                &&& sorted_by_key(c.agents_states@)
                &&& c.agents_states@.to_multiset() == parsed_states(entries@).to_multiset()
                &&& c.status == wait_outcome(parsed_states(entries@), failed, timed_out(output))
            },
            _ => false,
        },
        _ => {
            &&& c.receiver_thread_ids@ == pending.receiver_thread_ids@
            &&& strictly_sorted(state_keys(c.agents_states@))
            &&& state_keys(c.agents_states@).to_set() == views(pending.receiver_thread_ids@).to_set()
            &&& forall|i: int| 0 <= i < c.agents_states@.len() ==> (#[trigger] c.agents_states@[i]).status
                == if pending.tool == CollabTool::SendInput {
                AgentStatus::Running
            } else {
                status_field(output).unwrap()
            }
            &&& c.status == if pending.tool == CollabTool::SendInput || failed {
                plain_outcome(failed)
            } else {
                outcome_of(status_field(output).unwrap())
            }
        },
    }
}

fn copy_ids(v: &Vec<String>) -> (r: Vec<String>)
    ensures
        r@ == v@,
{
    let mut r: Vec<String> = Vec::new();
    let mut i: usize = 0;
    while i < v.len()
        invariant
            i <= v@.len(),
            r@ == v@.subrange(0, i as int),
        decreases v.len() - i,
    {
        r.push(v[i].clone());
        i = i + 1;
        assert(r@ =~= v@.subrange(0, i as int));
    }
    assert(v@.subrange(0, i as int) =~= v@);
    r
}

/// The completed item for the output of a pending collaborative call, where the output has
/// the shape of the call's tool.
pub fn map_raw_collab_function_call_output(
    call_id: &str,
    pending: &PendingRawCollabCall,
    output: &Json,
    output_failed: bool,
) -> (r: Option<CollabCall>)
    ensures
        r.is_some() == raw_call_defined(*pending, *output),
        r.is_some() ==> raw_call_ok(call_id@, *pending, *output, output_failed, r.unwrap()),
{
    let outcome = if output_failed { CollabOutcome::Failed } else { CollabOutcome::Completed };
    match pending.tool {
        CollabTool::SpawnAgent => {
            let agent = match read_text(output.get_either("agent_id", "agentId")) {
                Some(a) => a,
                None => {
                    return None;
                },
            };
            let mut receivers: Vec<String> = Vec::new();
            receivers.push(agent.clone());
            assert(views(receivers@) =~= seq![agent@]);
            let mut states: Vec<AgentState> = Vec::new();
            states.push(AgentState { thread_id: agent, status: AgentStatus::Running });
            Some(CollabCall {
                id: call_id.to_owned(),
                tool: pending.tool,
                status: outcome,
                sender_thread_id: pending.sender_thread_id.clone(),
                receiver_thread_ids: receivers,
                prompt: pending.prompt.clone(),
                agents_states: states,
                error: None,
            })
        },
        CollabTool::Wait => {
            match output.get("status") {
                Some(Json::Object(entries)) => {
                    let mut keys: Vec<String> = Vec::new();
                    let mut parsed: Vec<AgentState> = Vec::new();
                    let mut i: usize = 0;
                    assert(parsed@ =~= parsed_states(entries@.subrange(0, 0)));
                    while i < entries.len()
                        invariant
                            i <= entries@.len(),
                            parsed@ == parsed_states(entries@.subrange(0, i as int)),
                            keys@.len() == i,
                            forall|j: int| 0 <= j < i ==> keys@[j]@ == entries@[j].0@,
                        decreases entries.len() - i,
                    {
                        proof {
                            assert(entries@.subrange(0, i + 1).drop_last() =~= entries@.subrange(0, i as int));
                        }
                        keys.push(entries[i].0.clone());
                        match parse_agent_status(&entries[i].1) {
                            Some(st) => {
                                parsed.push(AgentState { thread_id: entries[i].0.clone(), status: st });
                            },
                            None => {},
                        }
                        i = i + 1;
                        assert(parsed@ =~= parsed_states(entries@.subrange(0, i as int)));
                    }
                    assert(entries@.subrange(0, i as int) =~= entries@);
                    assert(views(keys@) =~= entry_keys(entries@));
                    let candidates = if pending.receiver_thread_ids.len() > 0 {
                        copy_ids(&pending.receiver_thread_ids)
                    } else {
                        keys
                    };
                    if candidates.len() == 0 {
                        return None;
                    }
                    let receivers = sorted_unique_ids(candidates);
                    let timed = match output.get_either("timed_out", "timedOut") {
                        Some(Json::Bool(b)) => *b,
                        _ => false,
                    };
                    let ghost unsorted = parsed@;
                    let states = sort_states(parsed);
                    let any_failed = states_have_failure(&states);
                    proof {
                        if any_failure(unsorted) {
                            let k = choose|k: int| 0 <= k < unsorted.len() && (#[trigger] unsorted[k]).status.is_failure();
                            vstd::seq_lib::to_multiset_contains(unsorted, unsorted[k]);
                            vstd::seq_lib::to_multiset_contains(states@, unsorted[k]);
                            assert(states@.contains(unsorted[k]));
                        }
                        if any_failure(states@) {
                            let k = choose|k: int| 0 <= k < states@.len() && (#[trigger] states@[k]).status.is_failure();
                            vstd::seq_lib::to_multiset_contains(unsorted, states@[k]);
                            vstd::seq_lib::to_multiset_contains(states@, states@[k]);
                            assert(unsorted.contains(states@[k]));
                        }
                        unsorted.to_multiset_ensures();
                        states@.to_multiset_ensures();
                    }
                    let status = if output_failed || any_failed {
                        CollabOutcome::Failed
                    } else if states.len() == 0 || timed {
                        CollabOutcome::InProgress
                    } else {
                        CollabOutcome::Completed
                    };
                    Some(CollabCall {
                        id: call_id.to_owned(),
                        tool: pending.tool,
                        status,
                        sender_thread_id: pending.sender_thread_id.clone(),
                        receiver_thread_ids: receivers,
                        prompt: pending.prompt.clone(),
                        agents_states: states,
                        error: None,
                    })
                },
                _ => None,
            }
        },
        CollabTool::SendInput => {
            if read_text(output.get_either("submission_id", "submissionId")).is_none() {
                return None;
            }
            if pending.receiver_thread_ids.len() == 0 {
                return None;
            }
            let states = states_for_ids(&pending.receiver_thread_ids, &AgentStatus::Running);
            Some(CollabCall {
                id: call_id.to_owned(),
                tool: pending.tool,
                status: outcome,
                sender_thread_id: pending.sender_thread_id.clone(),
                receiver_thread_ids: copy_ids(&pending.receiver_thread_ids),
                prompt: pending.prompt.clone(),
                agents_states: states,
                error: None,
            })
        },
        _ => {
            let agent_status = match output.get("status") {
                Some(v) => match parse_agent_status(v) {
                    Some(st) => st,
                    None => {
                        return None;
                    },
                },
                None => {
                    return None;
                },
            };
            if pending.receiver_thread_ids.len() == 0 {
                return None;
            }
            let states = states_for_ids(&pending.receiver_thread_ids, &agent_status);
            let status = if output_failed {
                CollabOutcome::Failed
            } else {
                legacy_collab_status_from_agent_status(&agent_status)
            };
            Some(CollabCall {
                id: call_id.to_owned(),
                tool: pending.tool,
                status,
                sender_thread_id: pending.sender_thread_id.clone(),
                receiver_thread_ids: copy_ids(&pending.receiver_thread_ids),
                prompt: pending.prompt.clone(),
                agents_states: states,
                error: None,
            })
        },
    }
}

} // verus!
