use codex_bridge::collab::{
    map_collab_agent_spawn_end, map_collab_end, map_collab_receiver_end, map_collab_waiting_end, AgentStatus,
    CollabCall, CollabEnd, CollabOutcome, ReceiverEnd, SpawnEnd, WaitingEnd,
};
use codex_bridge::events::{
    legacy_plan_step_status, map_exec_command_end, map_mcp_tool_call_end, map_patch_apply_end, turn_item_to_legacy,
    ChangeKind, EndStatus, Event, EventMsg, ExecCommandEnd, FileChange, Item, McpToolCallEnd, PatchApplyEnd,
    PathChange, ProtocolEvent, StepStatus, TurnItem,
};
use codex_bridge::handles::NativeSessionHandles;
use codex_bridge::tool_name::{normalize_collab_tool_name, normalize_tool_name_key, CollabTool};
use codex_bridge::translator::NativeCodexEventTranslator;

fn raw_call(t: &mut NativeCodexEventTranslator, name: &str, arguments: &str, call_id: &str) -> Vec<ProtocolEvent> {
    t.translate_raw_function_call(name, arguments, call_id.to_string())
}

fn raw_output(t: &mut NativeCodexEventTranslator, call_id: &str, body: &str) -> Vec<ProtocolEvent> {
    t.translate_raw_function_call_output(call_id, Some(body.to_string()), None)
}

fn collab(events: &[ProtocolEvent]) -> &CollabCall {
    assert_eq!(events.len(), 1);
    match &events[0] {
        ProtocolEvent::ItemCompleted(Item::CollabToolCall(c)) => c,
        other => panic!("unexpected event {other:?}"),
    }
}

fn states(c: &CollabCall) -> Vec<(String, String)> {
    c.agents_states.iter().map(|a| (a.thread_id.clone(), a.status.label())).collect()
}

/// Every field of a completed collaborative item: the agents as (thread id, status label,
/// message).
#[allow(clippy::too_many_arguments)]
fn check_call(
    c: &CollabCall,
    id: &str,
    tool: &str,
    status: &str,
    sender: &str,
    receivers: &[&str],
    prompt: &str,
    agents: &[(&str, &str, Option<&str>)],
    error: Option<&str>,
) {
    assert_eq!(c.id, id);
    assert_eq!(c.tool.name(), tool);
    assert_eq!(c.status.label(), status);
    assert_eq!(c.sender_thread_id, sender);
    assert_eq!(c.receiver_thread_ids, receivers.iter().map(|r| r.to_string()).collect::<Vec<_>>());
    assert_eq!(c.prompt, prompt);
    let got: Vec<(String, String, Option<String>)> = c
        .agents_states
        .iter()
        .map(|a| {
            let message = match &a.status {
                AgentStatus::Completed(m) => m.clone(),
                AgentStatus::Errored(m) => Some(m.clone()),
                _ => None,
            };
            (a.thread_id.clone(), a.status.label(), message)
        })
        .collect();
    let want: Vec<(String, String, Option<String>)> =
        agents.iter().map(|(t, l, m)| (t.to_string(), l.to_string(), m.map(|x| x.to_string()))).collect();
    assert_eq!(got, want);
    assert_eq!(c.error.as_deref(), error);
}

fn spawn_end(call_id: &str, sender: &str, new_thread: Option<&str>, prompt: &str, status: AgentStatus) -> SpawnEnd {
    SpawnEnd {
        call_id: call_id.to_string(),
        sender_thread_id: sender.to_string(),
        new_thread_id: new_thread.map(|t| t.to_string()),
        prompt: prompt.to_string(),
        status,
    }
}

#[test]
fn maps_agent_message_item_to_legacy_payload() {
    let item = TurnItem::AgentMessage { id: "item-1".to_string(), content: vec!["hello".to_string()] };
    match turn_item_to_legacy(item) {
        Item::AgentMessage { id, text } => {
            assert_eq!(id, "item-1");
            assert_eq!(text, "hello");
        },
        other => panic!("unexpected item {other:?}"),
    }
}

#[test]
fn maps_plan_item_to_reasoning_legacy_payload() {
    let item = TurnItem::Plan { id: "plan-1".to_string(), text: "Step A".to_string() };
    match turn_item_to_legacy(item) {
        Item::Reasoning { text, .. } => assert_eq!(text, "Step A"),
        other => panic!("unexpected item {other:?}"),
    }
}

#[test]
fn maps_reasoning_item_to_text_payload() {
    let item = TurnItem::Reasoning {
        id: "reason-1".to_string(),
        summary_text: vec!["summary".to_string()],
        raw_content: vec!["raw".to_string()],
    };
    match turn_item_to_legacy(item) {
        Item::Reasoning { text, .. } => assert_eq!(text, "summary\nraw"),
        other => panic!("unexpected item {other:?}"),
    }
}

#[test]
fn maps_plan_step_status_to_bridge_contract() {
    assert_eq!(legacy_plan_step_status(StepStatus::Pending), "pending");
    assert_eq!(legacy_plan_step_status(StepStatus::InProgress), "inProgress");
    assert_eq!(legacy_plan_step_status(StepStatus::Completed), "completed");
}

#[test]
fn maps_exec_command_end_to_command_execution_item_completed() {
    let event = ExecCommandEnd {
        call_id: "exec-1".to_string(),
        command: "echo hello".to_string(),
        status: EndStatus::Completed,
        aggregated_output: "hello\n".to_string(),
        exit_code: 0,
    };
    match map_exec_command_end(event) {
        ProtocolEvent::ItemCompleted(Item::CommandExecution { id, command, status, aggregated_output, exit_code }) => {
            assert_eq!(id, "exec-1");
            assert_eq!(command, "echo hello");
            assert_eq!(status.label(), "completed");
            assert_eq!(aggregated_output, "hello\n");
            assert_eq!(exit_code, 0);
        },
        other => panic!("unexpected event {other:?}"),
    }
}

#[test]
fn maps_mcp_tool_call_end_to_mcp_tool_call_item_completed() {
    let result_text = r#"{"content":[{"type":"text","text":"ok"}],"structuredContent":{"ok":true}}"#;
    let event = McpToolCallEnd {
        call_id: "mcp-1".to_string(),
        server: "filesystem".to_string(),
        tool: "read_file".to_string(),
        arguments: None,
        result: Ok(result_text.to_string()),
        success: false,
    };
    match map_mcp_tool_call_end(event) {
        ProtocolEvent::ItemCompleted(Item::McpToolCall { id, server, tool, status_completed, arguments, result, error }) => {
            assert_eq!(id, "mcp-1");
            assert_eq!(server, "filesystem");
            assert_eq!(tool, "read_file");
            assert!(!status_completed);
            assert_eq!(arguments, "{}");
            let got: serde_json::Value = serde_json::from_str(&result.expect("result")).unwrap();
            let want: serde_json::Value = serde_json::from_str(result_text).unwrap();
            assert_eq!(got, want);
            assert!(error.is_none());
        },
        other => panic!("unexpected event {other:?}"),
    }
}

#[test]
fn maps_patch_apply_end_to_file_change_item_completed() {
    let event = PatchApplyEnd {
        call_id: "patch-1".to_string(),
        status: EndStatus::Declined,
        changes: vec![
            PathChange {
                path: "b.txt".to_string(),
                change: FileChange::Update {
                    unified_diff: "@@ -1 +1 @@\n-old\n+new".to_string(),
                    move_path: Some("renamed.txt".to_string()),
                },
            },
            PathChange { path: "a.txt".to_string(), change: FileChange::Add { content: "new file".to_string() } },
        ],
    };
    match map_patch_apply_end(event) {
        ProtocolEvent::ItemCompleted(Item::FileChange { id, status, changes }) => {
            assert_eq!(id, "patch-1");
            assert_eq!(status.label(), "declined");
            assert_eq!(changes.len(), 2);
            assert_eq!(changes[0].path, "a.txt");
            assert!(matches!(changes[0].kind, ChangeKind::Add));
            assert_eq!(changes[0].diff, "new file");
            assert_eq!(changes[1].path, "b.txt");
            assert!(matches!(&changes[1].kind, ChangeKind::Update { move_path: Some(p) } if p == "renamed.txt"));
            assert_eq!(changes[1].diff, "@@ -1 +1 @@\n-old\n+new\n\nMoved to: renamed.txt");
        },
        other => panic!("unexpected event {other:?}"),
    }
}

fn review_pair(events: &[ProtocolEvent]) -> (bool, String, String) {
    assert_eq!(events.len(), 2);
    let started = match &events[0] {
        ProtocolEvent::ItemStarted(Item::ReviewMode { entered, id, review }) => (*entered, id.clone(), review.clone()),
        other => panic!("unexpected event {other:?}"),
    };
    match &events[1] {
        ProtocolEvent::ItemCompleted(Item::ReviewMode { entered, id, review }) => {
            assert_eq!((*entered, id.clone(), review.clone()), started);
        },
        other => panic!("unexpected event {other:?}"),
    }
    started
}

#[test]
fn maps_entered_review_mode_to_started_and_completed_items() {
    let mut t = NativeCodexEventTranslator::new("t".to_string());
    let mut native = NativeSessionHandles::new();
    let events = t.translate_event(
        Event {
            id: "turn-42".to_string(),
            msg: EventMsg::EnteredReviewMode {
                user_facing_hint: Some("Reviewing changes".to_string()),
                target_hint: "custom".to_string(),
            },
        },
        &mut native,
    );
    assert_eq!(review_pair(&events), (true, "turn-42".to_string(), "Reviewing changes".to_string()));
}

#[test]
fn maps_exited_review_mode_to_started_and_completed_items() {
    let mut t = NativeCodexEventTranslator::new("t".to_string());
    let mut native = NativeSessionHandles::new();
    let events = t.translate_event(
        Event { id: "turn-43".to_string(), msg: EventMsg::ExitedReviewMode { review_output: Some("Looks good".to_string()) } },
        &mut native,
    );
    assert_eq!(review_pair(&events), (false, "turn-43".to_string(), "Looks good".to_string()));
    let fallback = t.translate_event(
        Event { id: "turn-44".to_string(), msg: EventMsg::ExitedReviewMode { review_output: None } },
        &mut native,
    );
    assert_eq!(review_pair(&fallback).2, "Review ended without findings.");
}

#[test]
fn maps_collab_agent_spawn_end_to_collab_tool_call_item_completed() {
    let event = spawn_end(
        "collab-call-1",
        "11111111-1111-1111-1111-111111111111",
        Some("22222222-2222-2222-2222-222222222222"),
        "Investigate",
        AgentStatus::Running,
    );
    let c = map_collab_agent_spawn_end(&event);
    check_call(
        &c,
        "collab-call-1",
        "spawn_agent",
        "completed",
        "11111111-1111-1111-1111-111111111111",
        &["22222222-2222-2222-2222-222222222222"],
        "Investigate",
        &[("22222222-2222-2222-2222-222222222222", "running", None)],
        None,
    );
}

#[test]
fn maps_collab_agent_interaction_end_to_collab_tool_call_item_completed() {
    let event = ReceiverEnd {
        call_id: "collab-call-2".to_string(),
        sender_thread_id: "aaaaaaaa-aaaa-aaaa-aaaa-aaaaaaaaaaaa".to_string(),
        receiver_thread_id: "bbbbbbbb-bbbb-bbbb-bbbb-bbbbbbbbbbbb".to_string(),
        prompt: "Apply patch".to_string(),
        status: AgentStatus::Completed(Some("done".to_string())),
    };
    let c = map_collab_end(&CollabEnd::Interaction(event));
    check_call(
        &c,
        "collab-call-2",
        "send_input",
        "completed",
        "aaaaaaaa-aaaa-aaaa-aaaa-aaaaaaaaaaaa",
        &["bbbbbbbb-bbbb-bbbb-bbbb-bbbbbbbbbbbb"],
        "Apply patch",
        &[("bbbbbbbb-bbbb-bbbb-bbbb-bbbbbbbbbbbb", "completed", Some("done"))],
        None,
    );
}

#[test]
fn maps_collab_agent_spawn_end_without_receiver_to_failed_item_with_error() {
    let event = spawn_end(
        "collab-call-6",
        "15151515-1515-1515-1515-151515151515",
        None,
        "Investigate",
        AgentStatus::Errored("spawn failed".to_string()),
    );
    let c = map_collab_agent_spawn_end(&event);
    check_call(
        &c,
        "collab-call-6",
        "spawn_agent",
        "failed",
        "15151515-1515-1515-1515-151515151515",
        &[],
        "Investigate",
        &[],
        Some("spawn failed"),
    );
}

#[test]
fn spawn_end_without_receiver_reports_missing_agent_or_plain_failure() {
    let missing = map_collab_agent_spawn_end(&spawn_end("c", "s", None, "", AgentStatus::NotFound));
    assert_eq!(missing.error.as_deref(), Some("agent not found"));
    let no_receiver = map_collab_agent_spawn_end(&spawn_end("c", "s", None, "", AgentStatus::Running));
    assert_eq!(no_receiver.status, CollabOutcome::Failed);
    assert!(no_receiver.error.is_none());
}

#[test]
fn maps_collab_waiting_end_to_failed_collab_tool_call_when_any_agent_failed() {
    let event = WaitingEnd {
        call_id: "collab-call-3".to_string(),
        sender_thread_id: "cccccccc-cccc-cccc-cccc-cccccccccccc".to_string(),
        statuses: vec![
            ("eeeeeeee-eeee-eeee-eeee-eeeeeeeeeeee".to_string(), AgentStatus::Running),
            ("dddddddd-dddd-dddd-dddd-dddddddddddd".to_string(), AgentStatus::Errored("timed out".to_string())),
        ],
    };
    let c = map_collab_waiting_end(&event);
    check_call(
        &c,
        "collab-call-3",
        "wait",
        "failed",
        "cccccccc-cccc-cccc-cccc-cccccccccccc",
        &["dddddddd-dddd-dddd-dddd-dddddddddddd", "eeeeeeee-eeee-eeee-eeee-eeeeeeeeeeee"],
        "",
        &[
            ("dddddddd-dddd-dddd-dddd-dddddddddddd", "errored", Some("timed out")),
            ("eeeeeeee-eeee-eeee-eeee-eeeeeeeeeeee", "running", None),
        ],
        None,
    );
}

#[test]
fn maps_collab_close_end_to_collab_tool_call_item_completed() {
    let event = ReceiverEnd {
        call_id: "collab-call-4".to_string(),
        sender_thread_id: "ffffffff-ffff-ffff-ffff-ffffffffffff".to_string(),
        receiver_thread_id: "12121212-1212-1212-1212-121212121212".to_string(),
        prompt: String::new(),
        status: AgentStatus::Shutdown,
    };
    let c = map_collab_receiver_end(&event, CollabTool::CloseAgent, false);
    check_call(
        &c,
        "collab-call-4",
        "close_agent",
        "completed",
        "ffffffff-ffff-ffff-ffff-ffffffffffff",
        &["12121212-1212-1212-1212-121212121212"],
        "",
        &[("12121212-1212-1212-1212-121212121212", "shutdown", None)],
        None,
    );
}

#[test]
fn maps_collab_resume_end_to_collab_tool_call_item_completed() {
    let event = ReceiverEnd {
        call_id: "collab-call-5".to_string(),
        sender_thread_id: "13131313-1313-1313-1313-131313131313".to_string(),
        receiver_thread_id: "14141414-1414-1414-1414-141414141414".to_string(),
        prompt: String::new(),
        status: AgentStatus::NotFound,
    };
    let c = map_collab_end(&CollabEnd::Resume(event));
    check_call(
        &c,
        "collab-call-5",
        "resume_agent",
        "failed",
        "13131313-1313-1313-1313-131313131313",
        &["14141414-1414-1414-1414-141414141414"],
        "",
        &[("14141414-1414-1414-1414-141414141414", "notFound", None)],
        None,
    );
}

#[test]
fn close_end_drops_a_prompt_it_was_given() {
    let event = ReceiverEnd {
        call_id: "c".to_string(),
        sender_thread_id: "s".to_string(),
        receiver_thread_id: "r".to_string(),
        prompt: "ignored".to_string(),
        status: AgentStatus::Shutdown,
    };
    assert_eq!(map_collab_end(&CollabEnd::Close(event)).prompt, "");
}

#[test]
fn maps_raw_collab_function_call_and_output_to_item_completed() {
    let mut t = NativeCodexEventTranslator::new("11111111-1111-1111-1111-111111111111".to_string());
    let started = raw_call(&mut t, "spawn_agent", r#"{"message":"Investigate"}"#, "raw-collab-1");
    assert!(started.is_empty());
    let completed = raw_output(&mut t, "raw-collab-1", r#"{"agent_id":"22222222-2222-2222-2222-222222222222"}"#);
    check_call(
        collab(&completed),
        "raw-collab-1",
        "spawn_agent",
        "completed",
        "11111111-1111-1111-1111-111111111111",
        &["22222222-2222-2222-2222-222222222222"],
        "Investigate",
        &[("22222222-2222-2222-2222-222222222222", "running", None)],
        None,
    );
}

#[test]
fn infers_spawn_agent_from_raw_output_without_pending_cache() {
    let mut t = NativeCodexEventTranslator::new("aaaaaaaa-1111-1111-1111-111111111111".to_string());
    let completed = raw_output(&mut t, "raw-infer-1", r#"{"agent_id":"bbbbbbbb-bbbb-bbbb-bbbb-bbbbbbbbbbbb"}"#);
    check_call(
        collab(&completed),
        "raw-infer-1",
        "spawn_agent",
        "completed",
        "aaaaaaaa-1111-1111-1111-111111111111",
        &["bbbbbbbb-bbbb-bbbb-bbbb-bbbbbbbbbbbb"],
        "",
        &[("bbbbbbbb-bbbb-bbbb-bbbb-bbbbbbbbbbbb", "running", None)],
        None,
    );
}

#[test]
fn infers_wait_from_raw_output_without_pending_cache_when_statuses_parse() {
    let mut t = NativeCodexEventTranslator::new("cccccccc-1111-1111-1111-111111111111".to_string());
    let completed = raw_output(&mut t, "raw-infer-2", r#"{"status":{"dddddddd-dddd-dddd-dddd-dddddddddddd":"running"}}"#);
    check_call(
        collab(&completed),
        "raw-infer-2",
        "wait",
        "completed",
        "cccccccc-1111-1111-1111-111111111111",
        &["dddddddd-dddd-dddd-dddd-dddddddddddd"],
        "",
        &[("dddddddd-dddd-dddd-dddd-dddddddddddd", "running", None)],
        None,
    );
}

#[test]
fn does_not_infer_tool_from_submission_output_without_pending_cache() {
    let mut t = NativeCodexEventTranslator::new("eeeeeeee-1111-1111-1111-111111111111".to_string());
    assert!(raw_output(&mut t, "raw-infer-3", r#"{"submission_id":"submission-1"}"#).is_empty());
}

#[test]
fn does_not_infer_wait_from_unparseable_statuses_without_pending_cache() {
    let mut t = NativeCodexEventTranslator::new("ffffffff-1111-1111-1111-111111111111".to_string());
    assert!(raw_output(&mut t, "raw-infer-4", r#"{"status":{"dddddddd-dddd-dddd-dddd-dddddddddddd":"unknown_state"}}"#).is_empty());
}

#[test]
fn does_not_infer_wait_from_timed_out_with_empty_status_without_pending_cache() {
    let mut t = NativeCodexEventTranslator::new("12121212-1111-1111-1111-111111111111".to_string());
    assert!(raw_output(&mut t, "raw-infer-5", r#"{"status":{},"timed_out":true}"#).is_empty());
}

#[test]
fn does_not_infer_spawn_agent_from_invalid_agent_id_without_pending_cache() {
    let mut t = NativeCodexEventTranslator::new("14141414-1111-1111-1111-111111111111".to_string());
    assert!(raw_output(&mut t, "raw-infer-7", r#"{"agent_id":"not-a-thread-id"}"#).is_empty());
}

#[test]
fn does_not_infer_wait_from_invalid_thread_ids_without_pending_cache() {
    let mut t = NativeCodexEventTranslator::new("15151515-1111-1111-1111-111111111111".to_string());
    assert!(raw_output(&mut t, "raw-infer-8", r#"{"status":{"not-a-thread-id":"running"}}"#).is_empty());
}

#[test]
fn deduplicates_inferred_raw_output_by_call_id() {
    let mut t = NativeCodexEventTranslator::new("13131313-1111-1111-1111-111111111111".to_string());
    let body = r#"{"agent_id":"bbbbbbbb-bbbb-bbbb-bbbb-bbbbbbbbbbbb"}"#;
    assert_eq!(raw_output(&mut t, "raw-infer-6", body).len(), 1);
    assert!(raw_output(&mut t, "raw-infer-6", body).is_empty());
}

#[test]
fn deduplicates_collab_end_after_terminal_raw_inference_for_same_call_id() {
    let mut t = NativeCodexEventTranslator::new("18181818-1111-1111-1111-111111111111".to_string());
    let raw = raw_output(&mut t, "raw-collab-dedupe-1", r#"{"agent_id":"19191919-1919-1919-1919-191919191919"}"#);
    assert_eq!(raw.len(), 1);
    let end = spawn_end(
        "raw-collab-dedupe-1",
        "18181818-1111-1111-1111-111111111111",
        Some("19191919-1919-1919-1919-191919191919"),
        "",
        AgentStatus::Running,
    );
    assert!(t.translate_collab_end(CollabEnd::Spawn(end)).is_empty());
}

#[test]
fn deduplicates_terminal_raw_inference_after_collab_end_for_same_call_id() {
    let mut t = NativeCodexEventTranslator::new("20202020-1111-1111-1111-111111111111".to_string());
    let end = spawn_end(
        "raw-collab-dedupe-2",
        "20202020-1111-1111-1111-111111111111",
        Some("21212121-2121-2121-2121-212121212121"),
        "",
        AgentStatus::Running,
    );
    assert_eq!(t.translate_collab_end(CollabEnd::Spawn(end)).len(), 1);
    assert!(raw_output(&mut t, "raw-collab-dedupe-2", r#"{"agent_id":"21212121-2121-2121-2121-212121212121"}"#).is_empty());
}

#[test]
fn in_progress_raw_wait_does_not_block_follow_up_collab_waiting_end() {
    let mut t = NativeCodexEventTranslator::new("16161616-1111-1111-1111-111111111111".to_string());
    assert!(raw_call(&mut t, "wait", r#"{"ids":["17171717-1717-1717-1717-171717171717"]}"#, "raw-collab-7").is_empty());
    let progress = raw_output(&mut t, "raw-collab-7", r#"{"status":{},"timed_out":true}"#);
    assert_eq!(collab(&progress).status, CollabOutcome::InProgress);
    let end = WaitingEnd {
        call_id: "raw-collab-7".to_string(),
        sender_thread_id: "16161616-1111-1111-1111-111111111111".to_string(),
        statuses: vec![("17171717-1717-1717-1717-171717171717".to_string(), AgentStatus::Completed(None))],
    };
    let done = t.translate_collab_end(CollabEnd::Waiting(end));
    assert_eq!(collab(&done).status, CollabOutcome::Completed);
}

#[test]
fn skips_raw_output_when_call_id_is_already_completed() {
    let mut t = NativeCodexEventTranslator::new("33333333-3333-3333-3333-333333333333".to_string());
    assert!(raw_call(&mut t, "send_input", r#"{"id":"44444444-4444-4444-4444-444444444444","message":"Ping"}"#, "raw-collab-2").is_empty());
    t.mark_collab_call_completed("raw-collab-2");
    assert!(raw_output(&mut t, "raw-collab-2", r#"{"submission_id":"submission-1"}"#).is_empty());
}

#[test]
fn ignores_malformed_raw_collab_arguments_and_output_without_panicking() {
    let mut t = NativeCodexEventTranslator::new("55555555-5555-5555-5555-555555555555".to_string());
    assert!(raw_call(&mut t, "spawn_agent", "{", "raw-collab-3").is_empty());
    assert!(raw_output(&mut t, "raw-collab-3", "not-json").is_empty());
    assert!(raw_call(&mut t, "send_input", r#"{"id":"66666666-6666-6666-6666-666666666666","message":"Ping"}"#, "raw-collab-4").is_empty());
    assert!(raw_output(&mut t, "raw-collab-4", "not-json").is_empty());
}

#[test]
fn raw_wait_timeout_without_statuses_remains_in_progress() {
    let mut t = NativeCodexEventTranslator::new("77777777-7777-7777-7777-777777777777".to_string());
    assert!(raw_call(&mut t, "wait", r#"{"ids":["88888888-8888-8888-8888-888888888888"]}"#, "raw-collab-5").is_empty());
    let completed = raw_output(&mut t, "raw-collab-5", r#"{"status":{},"timed_out":true}"#);
    check_call(
        collab(&completed),
        "raw-collab-5",
        "wait",
        "in_progress",
        "77777777-7777-7777-7777-777777777777",
        &["88888888-8888-8888-8888-888888888888"],
        "",
        &[],
        None,
    );
}

#[test]
fn collab_end_translation_is_deduplicated_by_call_id() {
    let mut t = NativeCodexEventTranslator::new("99999999-9999-9999-9999-999999999999".to_string());
    let make = || {
        CollabEnd::Spawn(spawn_end(
            "collab-dedupe-1",
            "99999999-9999-9999-9999-999999999999",
            Some("aaaaaaaa-aaaa-aaaa-aaaa-aaaaaaaaaaaa"),
            "Do it",
            AgentStatus::Running,
        ))
    };
    assert_eq!(t.translate_collab_end(make()).len(), 1);
    assert!(t.translate_collab_end(make()).is_empty());
}

#[test]
fn terminal_signal_through_both_channels_completes_once_in_either_order() {
    let sender = "abababab-1111-1111-1111-111111111111";
    let agent = "cdcdcdcd-2222-2222-2222-222222222222";
    let body = format!(r#"{{"agent_id":"{agent}"}}"#);
    let end = || CollabEnd::Spawn(spawn_end("both-1", sender, Some(agent), "", AgentStatus::Running));

    let mut first = NativeCodexEventTranslator::new(sender.to_string());
    let a = first.translate_collab_end(end()).len();
    let b = raw_output(&mut first, "both-1", &body).len();
    assert_eq!(a + b, 1);

    let mut second = NativeCodexEventTranslator::new(sender.to_string());
    let a = raw_output(&mut second, "both-1", &body).len();
    let b = second.translate_collab_end(end()).len();
    assert_eq!(a + b, 1);
}

#[test]
fn streaming_deltas_accumulate_and_buffer_is_dropped_on_completion() {
    let mut t = NativeCodexEventTranslator::new("t1".to_string());
    let mut native = NativeSessionHandles::new();
    let mut texts = Vec::new();
    for delta in ["Hel", "lo", ", world"] {
        let out = t.translate_event(
            Event {
                id: "turn1".to_string(),
                msg: EventMsg::AgentMessageContentDelta { item_id: "m1".to_string(), delta: delta.to_string() },
            },
            &mut native,
        );
        match &out[..] {
            [ProtocolEvent::ItemUpdated { id, text }] => {
                assert_eq!(id, "m1");
                texts.push(text.clone());
            },
            other => panic!("unexpected events {other:?}"),
        }
    }
    assert_eq!(texts, vec!["Hel".to_string(), "Hello".to_string(), "Hello, world".to_string()]);
    t.translate_event(
        Event {
            id: "turn1".to_string(),
            msg: EventMsg::ItemCompleted(TurnItem::AgentMessage { id: "m1".to_string(), content: vec!["Hello, world".to_string()] }),
        },
        &mut native,
    );
    let out = t.translate_event(
        Event {
            id: "turn1".to_string(),
            msg: EventMsg::AgentMessageContentDelta { item_id: "m1".to_string(), delta: "again".to_string() },
        },
        &mut native,
    );
    assert!(matches!(&out[..], [ProtocolEvent::ItemUpdated { text, .. }] if text == "again"));
}

#[test]
fn raw_wait_outcomes_follow_the_statuses() {
    let sender = "01010101-1111-1111-1111-111111111111";
    let a = "0a0a0a0a-0000-0000-0000-000000000000";
    let b = "0b0b0b0b-0000-0000-0000-000000000000";
    let args = format!(r#"{{"ids":["{a}","{b}"]}}"#);

    let mut t = NativeCodexEventTranslator::new(sender.to_string());
    raw_call(&mut t, "collab.wait", &args, "w1");
    let failed = raw_output(&mut t, "w1", &format!(r#"{{"status":{{"{a}":"running","{b}":{{"errored":"x"}}}}}}"#));
    assert_eq!(collab(&failed).status, CollabOutcome::Failed);
    assert_eq!(states(collab(&failed)), vec![(a.to_string(), "running".to_string()), (b.to_string(), "errored".to_string())]);

    raw_call(&mut t, "wait_agents", &args, "w2");
    let completed = raw_output(&mut t, "w2", &format!(r#"{{"status":{{"{a}":"running"}}}}"#));
    assert_eq!(collab(&completed).status, CollabOutcome::Completed);
    assert_eq!(collab(&completed).receiver_thread_ids, vec![a.to_string(), b.to_string()]);

    raw_call(&mut t, "wait", &args, "w3");
    let pending = raw_output(&mut t, "w3", r#"{"status":{},"timedOut":true}"#);
    assert_eq!(collab(&pending).status, CollabOutcome::InProgress);
}

#[test]
fn raw_spawn_without_failure_flag_completes_with_running_receiver() {
    let mut t = NativeCodexEventTranslator::new("02020202-1111-1111-1111-111111111111".to_string());
    raw_call(&mut t, "spawnAgent", r#"{"items":[{"type":"text","text":"hi"},{"type":"image"},{"type":"local_image","path":"/a.png"},{"type":"skill","name":"s","path":"/s"},{"type":"mention","name":"m","path":"/m"}]}"#, "s1");
    let out = raw_output(&mut t, "s1", r#"{"agent_id":"X"}"#);
    let c = collab(&out);
    assert_eq!(c.receiver_thread_ids, vec!["X".to_string()]);
    assert_eq!(c.status, CollabOutcome::Completed);
    assert_eq!(states(c), vec![("X".to_string(), "running".to_string())]);
    assert_eq!(c.prompt, "hi\n\n[image]\n\n[local_image:/a.png]\n\n[skill:$s](/s)\n\n[mention:m](/m)");

    raw_call(&mut t, "spawn_agent", r#"{"message":"go"}"#, "s2");
    let failed = t.translate_raw_function_call_output("s2", Some(r#"{"agentId":"Y"}"#.to_string()), Some(false));
    assert_eq!(collab(&failed).status, CollabOutcome::Failed);
}

#[test]
fn raw_resume_and_close_map_agent_status() {
    let mut t = NativeCodexEventTranslator::new("03030303-1111-1111-1111-111111111111".to_string());
    raw_call(&mut t, "resume_agent", r#"{"id":"R1"}"#, "r1");
    let out = raw_output(&mut t, "r1", r#"{"status":{"completed":"ok"}}"#);
    assert_eq!(collab(&out).status, CollabOutcome::Completed);
    assert_eq!(states(collab(&out)), vec![("R1".to_string(), "completed".to_string())]);
    raw_call(&mut t, "close_agent", r#"{"id":"R2"}"#, "r2");
    let out = raw_output(&mut t, "r2", r#"{"status":"not_found"}"#);
    assert_eq!(collab(&out).status, CollabOutcome::Failed);
    assert_eq!(states(collab(&out)), vec![("R2".to_string(), "notFound".to_string())]);
    raw_call(&mut t, "close_agent", r#"{"id":"R3"}"#, "r3");
    assert!(raw_output(&mut t, "r3", r#"{"status":"weird"}"#).is_empty());
}

#[test]
fn tool_names_are_normalised_before_matching() {
    assert_eq!(normalize_tool_name_key("  Collab.Spawn-Agent!! "), "collab_spawn_agent");
    assert_eq!(normalize_tool_name_key("__x__"), "x");
    assert_eq!(normalize_collab_tool_name("collab_spawnAgent"), Some(CollabTool::SpawnAgent));
    assert_eq!(normalize_collab_tool_name("functions.send_input"), Some(CollabTool::SendInput));
    assert_eq!(normalize_collab_tool_name("Wait Agent"), Some(CollabTool::Wait));
    assert_eq!(normalize_collab_tool_name("close-agent"), Some(CollabTool::CloseAgent));
    assert_eq!(normalize_collab_tool_name("resumeagent"), Some(CollabTool::ResumeAgent));
    assert_eq!(normalize_collab_tool_name("shell"), None);
    assert_eq!(normalize_collab_tool_name("awaiting"), None);
}

#[test]
fn every_uuid_form_names_a_thread() {
    for agent in [
        "bbbbbbbbbbbbbbbbbbbbbbbbbbbbbbbb",
        "{BBBBBBBB-bbbb-bbbb-bbbb-bbbbbbbbbbbb}",
        "URN:uuid:bbbbbbbb-bbbb-bbbb-bbbb-bbbbbbbbbbbb",
    ] {
        let mut t = NativeCodexEventTranslator::new("s".to_string());
        let out = raw_output(&mut t, "u", &format!(r#"{{"agent_id":"{agent}"}}"#));
        assert_eq!(collab(&out).receiver_thread_ids, vec![agent.to_string()]);
    }
    let mut t = NativeCodexEventTranslator::new("s".to_string());
    assert!(raw_output(&mut t, "u", r#"{"agent_id":"bbbbbbbb-bbbb-bbbb-bbbb-bbbbbbbbbbbg"}"#).is_empty());
}
