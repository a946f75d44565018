//! The engine's raw events as the library reads them, and the protocol events it emits.
use vstd::prelude::*;

use crate::collab::{CollabCall, CollabEnd};
use crate::order::{lemma_lt_trans, seq_lt, str_lt};
use crate::pending::ApprovalKind;
use crate::raw_collab::{join, join_strings};
use crate::text::concat_str;
use crate::order::views;

verus! {

#[derive(Clone, Copy, Debug, PartialEq, Eq, Structural)]
pub enum AbortReason {
    Interrupted,
    Replaced,
    ReviewEnded,
}

#[derive(Clone, Copy, Debug, PartialEq, Eq, Structural)]
pub struct TokenUsage {
    pub input_tokens: i64,
    pub cached_input_tokens: i64,
    pub output_tokens: i64,
    pub reasoning_output_tokens: i64,
    pub total_tokens: i64,
}

#[derive(Clone, Copy, Debug, PartialEq, Eq, Structural)]
pub struct TokenUsageInfo {
    pub total: TokenUsage,
    pub last: TokenUsage,
    pub model_context_window: Option<i64>,
}

#[derive(Clone, Copy, Debug, PartialEq, Eq, Structural)]
pub enum StepStatus {
    Pending,
    InProgress,
    Completed,
}

impl StepStatus {
    pub open spec fn spec_label(&self) -> Seq<char> {
        match self {
            StepStatus::Pending => "pending"@,
            StepStatus::InProgress => "inProgress"@,
            StepStatus::Completed => "completed"@,
        }
    }
}

/// The label of a plan step's status.
pub fn legacy_plan_step_status(status: StepStatus) -> (r: String)
    ensures
        r@ == status.spec_label(),
{
    match status {
        StepStatus::Pending => "pending".to_owned(),
        StepStatus::InProgress => "inProgress".to_owned(),
        StepStatus::Completed => "completed".to_owned(),
    }
}

#[derive(Debug)]
pub struct PlanStep {
    pub step: String,
    pub status: StepStatus,
}

/// How a command run or a patch application ended.
#[derive(Clone, Copy, Debug, PartialEq, Eq, Structural)]
pub enum EndStatus {
    Completed,
    Failed,
    Declined,
}

impl EndStatus {
    pub open spec fn spec_label(&self) -> Seq<char> {
        match self {
            EndStatus::Completed => "completed"@,
            EndStatus::Failed => "failed"@,
            EndStatus::Declined => "declined"@,
        }
    }

    pub fn label(&self) -> (r: String)
        ensures
            r@ == self.spec_label(),
    {
        match self {
            EndStatus::Completed => "completed".to_owned(),
            EndStatus::Failed => "failed".to_owned(),
            EndStatus::Declined => "declined".to_owned(),
        }
    }
}

#[derive(Debug)]
pub enum FileChange {
    Add { content: String },
    Delete { content: String },
    Update { unified_diff: String, move_path: Option<String> },
}

#[derive(Debug)]
pub struct PathChange {
    pub path: String,
    pub change: FileChange,
}

/// An item of a turn as the engine reports it.
#[derive(Debug)]
#[allow(inconsistent_fields)]
pub enum TurnItem {
    AgentMessage { id: String, content: Vec<String> },
    Plan { id: String, text: String },
    Reasoning { id: String, summary_text: Vec<String>, raw_content: Vec<String> },
    /// `action` is the JSON text of the search action.
    WebSearch { id: String, query: String, action: String },
    /// `content` is the JSON text of the message's parts.
    UserMessage { id: String, content: String },
    ContextCompaction { id: String },
}

#[derive(Debug)]
pub struct ExecCommandEnd {
    pub call_id: String,
    /// The command line, its words joined shell-style.
    pub command: String,
    pub status: EndStatus,
    pub aggregated_output: String,
    pub exit_code: i32,
}

#[derive(Debug)]
pub struct McpToolCallEnd {
    pub call_id: String,
    pub server: String,
    pub tool: String,
    /// The JSON text of the arguments, where there were any and they were not `null`.
    pub arguments: Option<String>,
    /// The JSON text of the result (content and structured content), or the error message.
    pub result: Result<String, String>,
    pub success: bool,
}

#[derive(Debug)]
pub struct PatchApplyEnd {
    pub call_id: String,
    pub status: EndStatus,
    pub changes: Vec<PathChange>,
}

#[derive(Debug)]
pub struct ExecApprovalRequest {
    pub call_id: String,
    pub turn_id: String,
    /// The command line, its words joined shell-style.
    pub command: String,
    pub cwd: String,
    pub reason: Option<String>,
    /// The JSON text of the parsed command actions.
    pub command_actions: String,
    pub proposed_execpolicy_amendment: Option<Vec<String>>,
}

#[derive(Debug)]
pub struct PatchApprovalRequest {
    pub call_id: String,
    pub turn_id: String,
    pub reason: Option<String>,
    pub grant_root: Option<String>,
}

#[derive(Debug)]
pub struct UserInputOption {
    pub label: String,
    pub description: String,
}

#[derive(Debug)]
pub struct UserInputQuestion {
    pub id: String,
    pub header: String,
    pub question: String,
    pub is_other: bool,
    pub is_secret: bool,
    pub options: Option<Vec<UserInputOption>>,
}

#[derive(Debug)]
pub struct UserInputRequest {
    pub call_id: String,
    pub turn_id: String,
    pub questions: Vec<UserInputQuestion>,
}

/// The payload of an engine event.
#[derive(Debug)]
pub enum EventMsg {
    TurnStarted,
    TurnComplete,
    TurnAborted(AbortReason),
    TokenCount(Option<TokenUsageInfo>),
    TurnDiff(String),
    PlanUpdate { explanation: Option<String>, plan: Vec<PlanStep> },
    AgentMessageContentDelta { item_id: String, delta: String },
    ExecCommandEnd(ExecCommandEnd),
    McpToolCallEnd(McpToolCallEnd),
    PatchApplyEnd(PatchApplyEnd),
    CollabEnd(CollabEnd),
    /// A raw function invocation of the model.
    RawFunctionCall { name: String, arguments: String, call_id: String },
    /// The output of a raw function invocation: its text, where it has one, and its success flag.
    RawFunctionCallOutput { call_id: String, body: Option<String>, success: Option<bool> },
    /// Review mode entered: the caller's hint, and the default text for the review's target.
    EnteredReviewMode { user_facing_hint: Option<String>, target_hint: String },
    /// Review mode left: the findings rendered as text, where there are any.
    ExitedReviewMode { review_output: Option<String> },
    ItemStarted(TurnItem),
    ItemCompleted(TurnItem),
    ExecApprovalRequest(ExecApprovalRequest),
    ApplyPatchApprovalRequest(PatchApprovalRequest),
    RequestUserInput(UserInputRequest),
    Error { message: String, codex_error_info: Option<String>, affects_turn_status: bool },
    Other,
}

/// An engine event: the id of the turn (or submission) it belongs to, and its payload.
#[derive(Debug)]
pub struct Event {
    pub id: String,
    pub msg: EventMsg,
}

#[derive(Debug)]
pub struct TurnError {
    pub message: String,
    pub codex_error_info: Option<String>,
}

#[derive(Debug)]
pub enum ChangeKind {
    Add,
    Delete,
    Update { move_path: Option<String> },
}

#[derive(Debug)]
pub struct FileChangeEntry {
    pub path: String,
    pub kind: ChangeKind,
    pub diff: String,
}

/// The item of an `item.started` or `item.completed` event.
#[derive(Debug)]
pub enum Item {
    AgentMessage { id: String, text: String },
    Reasoning { id: String, text: String },
    WebSearch { id: String, query: String, action: String },
    UserMessage { id: String, content: String },
    ContextCompaction { id: String },
    CommandExecution { id: String, command: String, status: EndStatus, aggregated_output: String, exit_code: i32 },
    /// `arguments` is JSON text (`{}` where the call had none); `result` the result's JSON text.
    McpToolCall { id: String, server: String, tool: String, status_completed: bool, arguments: String, result: Option<String>, error: Option<String> },
    FileChange { id: String, status: EndStatus, changes: Vec<FileChangeEntry> },
    /// The synthesized marker of review mode (`entered_review_mode` or `exited_review_mode`).
    ReviewMode { entered: bool, id: String, review: String },
    CollabToolCall(CollabCall),
}

impl Item {
    pub open spec fn spec_id(&self) -> String {
        match self {
            Item::AgentMessage { id, .. } => *id,
            Item::Reasoning { id, .. } => *id,
            Item::WebSearch { id, .. } => *id,
            Item::UserMessage { id, .. } => *id,
            Item::ContextCompaction { id } => *id,
            Item::CommandExecution { id, .. } => *id,
            Item::McpToolCall { id, .. } => *id,
            Item::FileChange { id, .. } => *id,
            Item::ReviewMode { id, .. } => *id,
            Item::CollabToolCall(c) => c.id,
        }
    }

    pub fn id(&self) -> (r: &String)
        ensures
            *r == self.spec_id(),
    {
        match self {
            Item::AgentMessage { id, .. } => id,
            Item::Reasoning { id, .. } => id,
            Item::WebSearch { id, .. } => id,
            Item::UserMessage { id, .. } => id,
            Item::ContextCompaction { id } => id,
            Item::CommandExecution { id, .. } => id,
            Item::McpToolCall { id, .. } => id,
            Item::FileChange { id, .. } => id,
            Item::ReviewMode { id, .. } => id,
            Item::CollabToolCall(c) => &c.id,
        }
    }
}

/// The outcome of a user-input request.
#[derive(Clone, Copy, Debug, PartialEq, Eq, Structural)]
pub enum InputOutcome {
    Submitted,
    Cancelled,
}

/// The events of the protocol that the client consumes.
#[derive(Debug)]
#[allow(inconsistent_fields)]
pub enum ProtocolEvent {
    ThreadStarted { thread_id: String },
    TurnStarted { thread_id: String, turn_id: String },
    TurnCompleted { thread_id: String, turn_id: String },
    TurnFailed { thread_id: String, turn_id: String, error: TurnError },
    TokenUsageUpdated { thread_id: String, turn_id: String, token_usage: TokenUsageInfo },
    TurnDiffUpdated { thread_id: String, turn_id: String, diff: String },
    TurnPlanUpdated { thread_id: String, turn_id: String, explanation: Option<String>, plan: Vec<PlanStep> },
    /// The full text of a streaming agent message so far.
    ItemUpdated { id: String, text: String },
    ItemStarted(Item),
    ItemCompleted(Item),
    ApprovalRequested {
        action_id: String,
        kind: ApprovalKind,
        thread_id: String,
        turn_id: String,
        item_id: String,
        reason: String,
        command: String,
        cwd: String,
        command_actions: String,
        proposed_execpolicy_amendment: Vec<String>,
        grant_root: String,
    },
    UserInputRequested {
        action_id: String,
        thread_id: String,
        turn_id: String,
        item_id: String,
        questions: Vec<UserInputQuestion>,
        timeout_ms: u64,
    },
    ApprovalResolved { action_id: String, kind: ApprovalKind, decision: String },
    UserInputResolved {
        action_id: String,
        thread_id: String,
        turn_id: String,
        item_id: String,
        outcome: InputOutcome,
        error: Option<String>,
    },
}

/// The text of a reasoning item: summary and raw content, each joined by newlines, and the
/// two joined by a newline where both are present.
pub open spec fn reasoning_text(summary: Seq<char>, content: Seq<char>) -> Seq<char> {
    if summary.len() == 0 {
        content
    } else if content.len() == 0 {
        summary
    } else {
        summary + "\n"@ + content
    }
}

/// What a turn item becomes on the protocol.
pub open spec fn item_of_turn_item(t: TurnItem, i: Item) -> bool {
    match t {
        TurnItem::AgentMessage { id, content } => i matches Item::AgentMessage { id: iid, text }
            && iid == id && text@ == join(views(content@), ""@),
        TurnItem::Plan { id, text } => i matches Item::Reasoning { id: iid, text: itext } && iid == id && itext == text,
        TurnItem::Reasoning { id, summary_text, raw_content } => i matches Item::Reasoning { id: iid, text }
            && iid == id && text@ == reasoning_text(join(views(summary_text@), "\n"@), join(views(raw_content@), "\n"@)),
        TurnItem::WebSearch { id, query, action } => i == Item::WebSearch { id, query, action },
        TurnItem::UserMessage { id, content } => i == Item::UserMessage { id, content },
        TurnItem::ContextCompaction { id } => i == Item::ContextCompaction { id },
    }
}

pub fn turn_item_to_legacy(item: TurnItem) -> (r: Item)
    ensures
        item_of_turn_item(item, r),
{
    match item {
        TurnItem::AgentMessage { id, content } => {
            let text = join_strings(&content, "");
            Item::AgentMessage { id, text }
        },
        TurnItem::Plan { id, text } => Item::Reasoning { id, text },
        TurnItem::Reasoning { id, summary_text, raw_content } => {
            let summary = join_strings(&summary_text, "\n");
            let content = join_strings(&raw_content, "\n");
            let text = if summary.as_str().is_empty() {
                content
            } else if content.as_str().is_empty() {
                summary
            } else {
                concat_str(concat_str(summary.as_str(), "\n").as_str(), content.as_str())
            };
            Item::Reasoning { id, text }
        },
        TurnItem::WebSearch { id, query, action } => Item::WebSearch { id, query, action },
        TurnItem::UserMessage { id, content } => Item::UserMessage { id, content },
        TurnItem::ContextCompaction { id } => Item::ContextCompaction { id },
    }
}

pub fn map_exec_command_end(e: ExecCommandEnd) -> (r: ProtocolEvent)
    ensures
        r == ProtocolEvent::ItemCompleted(
            Item::CommandExecution {
                id: e.call_id,
                command: e.command,
                status: e.status,
                aggregated_output: e.aggregated_output,
                exit_code: e.exit_code,
            },
        ),
{
    ProtocolEvent::ItemCompleted(
        Item::CommandExecution {
            id: e.call_id,
            command: e.command,
            status: e.status,
            aggregated_output: e.aggregated_output,
            exit_code: e.exit_code,
        },
    )
}

pub open spec fn mcp_item_ok(e: McpToolCallEnd, i: Item) -> bool {
    i matches Item::McpToolCall { id, server, tool, status_completed, arguments, result, error }
        && id == e.call_id && server == e.server && tool == e.tool && status_completed == e.success
        && arguments@ == match e.arguments {
            Some(a) => a@,
            None => "{}"@,
        }
        && match e.result {
            Ok(v) => result == Some(v) && error.is_none(),
            Err(m) => result.is_none() && error == Some(m),
        }
}

pub fn map_mcp_tool_call_end(e: McpToolCallEnd) -> (r: ProtocolEvent)
    ensures
        r matches ProtocolEvent::ItemCompleted(i) && mcp_item_ok(e, i),
{
    let arguments = match e.arguments {
        Some(a) => a,
        None => "{}".to_owned(),
    };
    let (result, error) = match e.result {
        Ok(v) => (Some(v), None),
        Err(m) => (None, Some(m)),
    };
    ProtocolEvent::ItemCompleted(
        Item::McpToolCall {
            id: e.call_id,
            server: e.server,
            tool: e.tool,
            status_completed: e.success,
            arguments,
            result,
            error,
        },
    )
}

/// The diff text of a change; an update with a move path says where the file went.
pub open spec fn change_diff(c: FileChange) -> Seq<char> {
    match c {
        FileChange::Add { content } => content@,
        FileChange::Delete { content } => content@,
        FileChange::Update { unified_diff, move_path } => match move_path {
            Some(p) => unified_diff@ + "\n\nMoved to: "@ + p@,
            None => unified_diff@,
        },
    }
}

pub open spec fn entry_of_change(c: PathChange, e: FileChangeEntry) -> bool {
    &&& e.path == c.path
    &&& e.diff@ == change_diff(c.change)
    &&& match c.change {
        FileChange::Add { .. } => e.kind is Add,
        FileChange::Delete { .. } => e.kind is Delete,
        FileChange::Update { move_path, .. } => e.kind == ChangeKind::Update { move_path },
    }
}

pub fn legacy_patch_change(c: PathChange) -> (r: FileChangeEntry)
    ensures
        entry_of_change(c, r),
{
    let PathChange { path, change } = c;
    match change {
        FileChange::Add { content } => FileChangeEntry { path, kind: ChangeKind::Add, diff: content },
        FileChange::Delete { content } => FileChangeEntry { path, kind: ChangeKind::Delete, diff: content },
        FileChange::Update { unified_diff, move_path } => {
            let diff = match &move_path {
                Some(p) => concat_str(concat_str(unified_diff.as_str(), "\n\nMoved to: ").as_str(), p.as_str()),
                None => unified_diff,
            };
            FileChangeEntry { path, kind: ChangeKind::Update { move_path }, diff }
        },
    }
}

pub open spec fn sorted_by_path(s: Seq<FileChangeEntry>) -> bool {
    forall|i: int, j: int| 0 <= i < j < s.len() ==> !seq_lt(#[trigger] s[j].path@, #[trigger] s[i].path@)
}

fn insert_entry_sorted(v: &mut Vec<FileChangeEntry>, a: FileChangeEntry)
    requires
        sorted_by_path(old(v)@),
    ensures
        sorted_by_path(final(v)@),
        final(v)@.to_multiset() == old(v)@.to_multiset().insert(a),
{
    let mut p: usize = 0;
    while p < v.len() && !str_lt(a.path.as_str(), v[p].path.as_str())
        invariant
            p <= v.len(),
            v@ == old(v)@,
            forall|k: int| 0 <= k < p ==> !seq_lt(a.path@, #[trigger] v@[k].path@),
        decreases v.len() - p,
    {
        p = p + 1;
    }
    let ghost s0 = v@;
    let ghost key = a.path@;
    proof {
        if p < s0.len() {
            assert forall|k: int| p <= k < s0.len() implies !seq_lt(#[trigger] s0[k].path@, key) by {
                if seq_lt(s0[k].path@, key) {
                    lemma_lt_trans(s0[k].path@, key, s0[p as int].path@);
                    if k == p {
                        crate::order::lemma_lt_irrefl(key);
                        lemma_lt_trans(key, s0[p as int].path@, key);
                    }
                }
            }
        }
        vstd::seq_lib::to_multiset_insert(s0, p as int, a);
    }
    v.insert(p, a);
    assert(v@ =~= s0.insert(p as int, a));
    assert forall|i: int, j: int| 0 <= i < j < v@.len() implies !seq_lt(#[trigger] v@[j].path@, #[trigger] v@[i].path@) by {
        if j < p {
        } else if j == p {
        } else if i < p {
            if seq_lt(v@[j].path@, v@[i].path@) {
                assert(!seq_lt(s0[j - 1].path@, key));
                lemma_lt_trans(s0[j - 1].path@, v@[i].path@, key);
            }
        } else if i == p {
        } else {
        }
    }
}

pub open spec fn entries_of_changes(s: Seq<PathChange>, e: Seq<FileChangeEntry>) -> bool {
    e.len() == s.len() && forall|i: int| 0 <= i < s.len() ==> entry_of_change(#[trigger] s[i], e[i])
}

/// The changes of a patch as protocol entries, ordered by path.
pub fn legacy_patch_changes(changes: Vec<PathChange>) -> (r: Vec<FileChangeEntry>)
    ensures
        sorted_by_path(r@),
        exists|e: Seq<FileChangeEntry>| entries_of_changes(changes@, e) && r@.to_multiset() == e.to_multiset(),
{
    let ghost orig = changes@;
    let mut converted: Vec<FileChangeEntry> = Vec::new();
    let mut rest = changes;
    let ghost mut done: Seq<FileChangeEntry> = Seq::empty();
    while rest.len() > 0
        invariant
            orig.len() == rest@.len() + done.len(),
            forall|i: int| 0 <= i < rest@.len() ==> rest@[i] == orig[i],
            forall|i: int| 0 <= i < done.len() ==> entry_of_change(#[trigger] orig[rest@.len() + i], done[i]),
            sorted_by_path(converted@),
            converted@.to_multiset() == done.to_multiset(),
        decreases rest.len(),
    {
        let ghost n = rest@.len();
        let c = rest.pop().unwrap();
        assert(c == orig[n - 1]);
        let e = legacy_patch_change(c);
        proof {
            vstd::seq_lib::to_multiset_insert(done, 0, e);
            assert(done.insert(0, e) =~= seq![e] + done);
        }
        insert_entry_sorted(&mut converted, e);
        proof {
            let d2 = seq![e] + done;
            assert forall|i: int| 0 <= i < d2.len() implies entry_of_change(#[trigger] orig[rest@.len() + i], d2[i]) by {
                if i > 0 {
                    assert(d2[i] == done[i - 1]);
                    assert(rest@.len() + i == n + (i - 1));
                }
            }
            done = d2;
        }
    }
    proof {
        assert forall|i: int| 0 <= i < orig.len() implies entry_of_change(#[trigger] orig[i], done[i]) by {
            assert(orig[rest@.len() + i] == orig[i]);
        }
        assert(entries_of_changes(orig, done));
    }
    converted
}

/// The file-change item of a patch: its changes as entries, ordered by path.
pub open spec fn patch_item_ok(e: PatchApplyEnd, i: Item) -> bool {
    i matches Item::FileChange { id, status, changes }
        && id == e.call_id && status == e.status && sorted_by_path(changes@)
        && exists|x: Seq<FileChangeEntry>| entries_of_changes(e.changes@, x) && changes@.to_multiset() == x.to_multiset()
}

pub fn map_patch_apply_end(e: PatchApplyEnd) -> (r: ProtocolEvent)
    ensures
        r matches ProtocolEvent::ItemCompleted(i) && patch_item_ok(e, i),
{
    let PatchApplyEnd { call_id, status, changes } = e;
    ProtocolEvent::ItemCompleted(Item::FileChange { id: call_id, status, changes: legacy_patch_changes(changes) })
}

} // verus!
