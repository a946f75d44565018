use codex_bridge::events::{Event, EventMsg, ExecApprovalRequest, Item, PatchApprovalRequest, ProtocolEvent, TurnItem, UserInputRequest, InputOutcome};
use codex_bridge::pending::{action_to_review_decision, ApprovalKind, DecisionError, ReviewDecision};
use codex_bridge::respond::{
    approval_resolved_event, build_native_user_input_resolved_payload, restore_approval, take_approval_for_response,
    take_user_input_for_response, RespondError,
};
use codex_bridge::session::{
    codex_turn_run_impl, normalize_runtime_thread_id, thread_started_event, Resolution, RunTurnError, SessionError,
    SessionRegistry,
};
use codex_bridge::translator::NativeCodexEventTranslator;
use codex_bridge::turns::{check_steer_request, check_turn_request, close_thread_aliases, codex_thread_close, TurnRequestError};

fn event(id: &str, msg: EventMsg) -> Event {
    Event { id: id.to_string(), msg }
}

fn started_session() -> (SessionRegistry, u64) {
    let mut reg = SessionRegistry::new();
    let id = reg.start(42, "/work".to_string()).expect("session starts");
    (reg, id)
}

#[test]
fn end_to_end_turn_creates_thread_and_streams_events() {
    let (mut reg, session_id) = started_session();
    let (response, ticket) = codex_turn_run_impl(&mut reg, 1, None).expect("turn accepted");
    assert!(response.accepted);
    assert_eq!(response.session_id, session_id);
    assert!(reg.is_busy());

    let resolution = reg.resolve_native_thread(session_id, None).expect("resolution");
    assert_eq!(resolution, Resolution::Create);
    reg.record_created_thread(session_id, "T1".to_string(), 7).expect("cached");
    let mut emitted = vec![thread_started_event("T1".to_string())];

    let mut translator = NativeCodexEventTranslator::new("T1".to_string());
    let stream = vec![
        event("turn1", EventMsg::TurnStarted),
        event("turn1", EventMsg::ItemStarted(TurnItem::AgentMessage { id: "m1".to_string(), content: vec![] })),
        event("turn1", EventMsg::ItemCompleted(TurnItem::AgentMessage { id: "m1".to_string(), content: vec!["hello".to_string()] })),
        event("turn1", EventMsg::TurnComplete),
    ];
    for e in stream {
        let out = reg.translate_for_session(ticket.session_id, &mut translator, e).expect("session is current");
        emitted.extend(out);
    }
    reg.finish_session_turn(session_id, Some("T1".to_string()));

    assert_eq!(emitted.len(), 5);
    assert!(matches!(&emitted[0], ProtocolEvent::ThreadStarted { thread_id } if thread_id == "T1"));
    assert!(matches!(&emitted[1], ProtocolEvent::TurnStarted { thread_id, turn_id } if thread_id == "T1" && turn_id == "turn1"));
    assert!(matches!(&emitted[2], ProtocolEvent::ItemStarted(Item::AgentMessage { id, .. }) if id == "m1"));
    assert!(matches!(&emitted[3], ProtocolEvent::ItemCompleted(Item::AgentMessage { id, text }) if id == "m1" && text == "hello"));
    assert!(matches!(&emitted[4], ProtocolEvent::TurnCompleted { thread_id, turn_id } if thread_id == "T1" && turn_id == "turn1"));
    assert!(!reg.is_busy());
    assert_eq!(reg.active.as_ref().unwrap().thread_id.as_deref(), Some("T1"));
    assert_eq!(
        reg.resolve_native_thread(session_id, None).unwrap(),
        Resolution::Cached { thread_id: "T1".to_string(), handle: 7 }
    );
}

#[test]
fn second_turn_on_busy_session_is_refused_and_stop_fails_without_effect() {
    let (mut reg, _) = started_session();
    codex_turn_run_impl(&mut reg, 1, None).expect("first turn");
    assert_eq!(codex_turn_run_impl(&mut reg, 1, None).unwrap_err(), RunTurnError::Session(SessionError::Busy));
    assert!(reg.is_busy());
    assert_eq!(reg.stop().unwrap_err(), SessionError::StopWhileBusy);
    assert_eq!(SessionError::StopWhileBusy.message(), "cannot stop session while a turn is still running");
    assert!(reg.active.is_some());
    assert!(reg.is_busy());
}

#[test]
fn turn_requests_are_validated_before_admission() {
    let (mut reg, _) = started_session();
    assert_eq!(codex_turn_run_impl(&mut reg, 0, None).unwrap_err(), RunTurnError::EmptyInput);
    let schema = codex_bridge::json::parse_json("[1]").unwrap();
    assert_eq!(codex_turn_run_impl(&mut reg, 1, Some(&schema)).unwrap_err(), RunTurnError::SchemaNotObject);
    assert!(!reg.is_busy());
    let mut empty = SessionRegistry::new();
    assert_eq!(
        codex_turn_run_impl(&mut empty, 1, None).unwrap_err(),
        RunTurnError::Session(SessionError::NoActiveSession)
    );
}

#[test]
fn start_refuses_a_second_session_and_stop_hands_back_the_first() {
    let (mut reg, id) = started_session();
    assert_eq!(reg.start(1, "/other".to_string()).unwrap_err(), SessionError::AlreadyRunning);
    let stopped = reg.stop().expect("idle session stops");
    assert_eq!(stopped.session_id, id);
    assert!(reg.active.is_none());
    assert_eq!(reg.stop().unwrap_err(), SessionError::NoActiveSession);
    let next = reg.start(1, "/other".to_string()).unwrap();
    assert_eq!(next, id + 1);
}

#[test]
fn finishing_a_replaced_session_changes_nothing() {
    let (mut reg, id) = started_session();
    reg.begin_turn().unwrap();
    reg.finish_session_turn(id + 100, Some("X".to_string()));
    assert!(reg.is_busy());
    assert!(reg.active.as_ref().unwrap().thread_id.is_none());
    let mut t = NativeCodexEventTranslator::new("T".to_string());
    assert!(reg.translate_for_session(id + 100, &mut t, event("turn", EventMsg::TurnStarted)).is_none());
}

fn session_with_running_turn(turn: &str) -> (SessionRegistry, u64) {
    let (mut reg, id) = started_session();
    reg.record_created_thread(id, "T1".to_string(), 7).unwrap();
    let mut t = NativeCodexEventTranslator::new("T1".to_string());
    reg.translate_for_session(id, &mut t, event(turn, EventMsg::TurnStarted)).unwrap();
    (reg, id)
}

#[test]
fn interrupt_of_a_stale_turn_is_refused() {
    let (reg, _) = session_with_running_turn("turn-7");
    let err = check_turn_request(&reg, "T1", "turn-8", 7).unwrap_err();
    assert_eq!(err, TurnRequestError::TurnMismatch { expected: "turn-8".to_string(), active: "turn-7".to_string() });
    assert_eq!(err.message(), "turn_id mismatch: expected `turn-8`, active `turn-7`");
    assert_eq!(check_turn_request(&reg, "T1", " turn-7 ", 7).unwrap(), ("T1".to_string(), "turn-7".to_string()));
}

#[test]
fn interrupt_finds_the_turn_through_an_alias_of_the_same_handle() {
    let (mut reg, id) = session_with_running_turn("turn-1");
    reg.record_resolved_thread(id, "alias".to_string(), "T1".to_string(), 7).unwrap();
    assert_eq!(check_turn_request(&reg, "alias", "turn-1", 7).unwrap(), ("T1".to_string(), "turn-1".to_string()));
    assert_eq!(check_turn_request(&reg, "other", "turn-1", 9).unwrap_err(), TurnRequestError::NoActiveTurn);
    assert_eq!(check_turn_request(&reg, " ", "turn-1", 7).unwrap_err(), TurnRequestError::ThreadIdRequired);
    assert_eq!(check_turn_request(&reg, "T1", "", 7).unwrap_err(), TurnRequestError::TurnIdRequired);
    assert_eq!(check_steer_request(&reg, "T1", "turn-1", 0, 7).unwrap_err(), TurnRequestError::InputRequired);
    assert!(check_steer_request(&reg, "T1", "turn-1", 2, 7).is_ok());
}

#[test]
fn closing_a_thread_drops_every_alias_of_its_handle() {
    let (mut reg, id) = session_with_running_turn("turn-1");
    reg.record_resolved_thread(id, "alias".to_string(), "T1".to_string(), 7).unwrap();
    reg.record_created_thread(id, "T2".to_string(), 8).unwrap();
    let handles = &mut reg.active.as_mut().unwrap().handles;
    let (removed, ids) = close_thread_aliases(handles, "alias");
    assert_eq!(removed, Some(7));
    assert_eq!(ids.len(), 2);
    assert!(!handles.threads.contains_key("T1"));
    assert!(!handles.threads.contains_key("alias"));
    assert!(handles.threads.contains_key("T2"));
    assert!(!handles.active_turns.contains_key("T1"));
}

fn session_with_approval(kind: ApprovalKind) -> (SessionRegistry, u64, String) {
    let (mut reg, id) = started_session();
    reg.record_created_thread(id, "T1".to_string(), 7).unwrap();
    let mut t = NativeCodexEventTranslator::new("T1".to_string());
    let msg = match kind {
        ApprovalKind::CommandExecution => EventMsg::ExecApprovalRequest(ExecApprovalRequest {
            call_id: "call-1".to_string(),
            turn_id: "turn-1".to_string(),
            command: "ls".to_string(),
            cwd: "/work".to_string(),
            reason: None,
            command_actions: "[]".to_string(),
            proposed_execpolicy_amendment: None,
        }),
        ApprovalKind::FileChange => EventMsg::ApplyPatchApprovalRequest(PatchApprovalRequest {
            call_id: "call-1".to_string(),
            turn_id: "turn-1".to_string(),
            reason: Some("why".to_string()),
            grant_root: None,
        }),
    };
    let out = reg.translate_for_session(id, &mut t, event("turn-1", msg)).unwrap();
    let action_id = match &out[..] {
        [ProtocolEvent::ApprovalRequested { action_id, kind: k, .. }] => {
            assert_eq!(*k, kind);
            action_id.clone()
        },
        other => panic!("unexpected events {other:?}"),
    };
    (reg, id, action_id)
}

#[test]
fn accept_with_remember_is_accept_for_session() {
    let d = action_to_review_decision(ApprovalKind::CommandExecution, " Accept ", true, &vec![]).unwrap();
    assert!(matches!(d, ReviewDecision::ApprovedForSession));
    assert!(matches!(action_to_review_decision(ApprovalKind::FileChange, "accept", false, &vec![]).unwrap(), ReviewDecision::Approved));
    assert!(matches!(action_to_review_decision(ApprovalKind::FileChange, "decline", false, &vec![]).unwrap(), ReviewDecision::Denied));
    assert!(matches!(action_to_review_decision(ApprovalKind::FileChange, "CANCEL", false, &vec![]).unwrap(), ReviewDecision::Abort));
    assert_eq!(
        action_to_review_decision(ApprovalKind::FileChange, "maybe", false, &vec![]).unwrap_err(),
        DecisionError::Unsupported("maybe".to_string())
    );
    assert_eq!(action_to_review_decision(ApprovalKind::FileChange, "  ", false, &vec![]).unwrap_err(), DecisionError::Missing);
    assert_eq!(
        action_to_review_decision(ApprovalKind::CommandExecution, "acceptWithExecpolicyAmendment", false, &vec![]).unwrap_err(),
        DecisionError::AmendmentMissing
    );
    let amended = action_to_review_decision(
        ApprovalKind::CommandExecution,
        "acceptWithExecpolicyAmendment",
        false,
        &vec!["ls".to_string()],
    )
    .unwrap();
    assert!(matches!(&amended, ReviewDecision::ApprovedExecpolicyAmendment(v) if v == &vec!["ls".to_string()]));
    assert_eq!(amended.label(), "approved_with_amendment");
}

#[test]
fn amendment_on_file_change_is_rejected_and_approval_stays_resolvable() {
    let (mut reg, _, action_id) = session_with_approval(ApprovalKind::FileChange);
    assert_eq!(action_id, "approval-1");
    let err = take_approval_for_response(&mut reg, &action_id, "acceptWithExecpolicyAmendment", false, &vec!["ls".to_string()])
        .unwrap_err();
    assert_eq!(err, RespondError::Decision(DecisionError::AmendmentNeedsCommand));
    let taken = take_approval_for_response(&mut reg, &action_id, "accept", true, &vec![]).expect("still pending");
    assert!(matches!(taken.decision, ReviewDecision::ApprovedForSession));
    assert_eq!(taken.pending.kind, ApprovalKind::FileChange);
    assert_eq!(taken.handle, 7);
    assert_eq!(
        take_approval_for_response(&mut reg, &action_id, "accept", false, &vec![]).unwrap_err(),
        RespondError::ActionNotFound("approval-1".to_string())
    );
    let session_id = taken.session_id;
    let event = approval_resolved_event(taken.action_id.clone(), taken.pending.kind, &taken.decision);
    assert!(matches!(&event, ProtocolEvent::ApprovalResolved { decision, .. } if decision == "approved_for_session"));
    restore_approval(&mut reg, session_id, taken.action_id, taken.pending);
    assert!(take_approval_for_response(&mut reg, "approval-1", "decline", false, &vec![]).is_ok());
}

#[test]
fn user_input_answers_are_taken_and_cancellation_reports_an_error() {
    let (mut reg, id) = started_session();
    reg.record_created_thread(id, "T1".to_string(), 7).unwrap();
    let mut t = NativeCodexEventTranslator::new("T1".to_string());
    let out = reg
        .translate_for_session(
            id,
            &mut t,
            event("turn-1", EventMsg::RequestUserInput(UserInputRequest { call_id: "c".to_string(), turn_id: "turn-1".to_string(), questions: vec![] })),
        )
        .unwrap();
    let action_id = match &out[..] {
        [ProtocolEvent::UserInputRequested { action_id, timeout_ms, .. }] => {
            assert_eq!(*timeout_ms, 900000);
            action_id.clone()
        },
        other => panic!("unexpected events {other:?}"),
    };
    assert_eq!(action_id, "user-input-1");
    assert_eq!(take_user_input_for_response(&mut reg, &action_id, "later").unwrap_err(), RespondError::InvalidDecision);
    let taken = take_user_input_for_response(&mut reg, &action_id, " Cancel ").unwrap();
    assert_eq!(taken.outcome, InputOutcome::Cancelled);
    assert_eq!(taken.response_id, "turn-1");
    match build_native_user_input_resolved_payload(&taken.action_id, &taken.pending, taken.outcome) {
        ProtocolEvent::UserInputResolved { outcome, error, item_id, .. } => {
            assert_eq!(outcome, InputOutcome::Cancelled);
            assert_eq!(error.as_deref(), Some("user input cancelled by user"));
            assert_eq!(item_id, "c");
        },
        other => panic!("unexpected event {other:?}"),
    }
}

#[test]
fn requested_thread_ids_are_trimmed() {
    assert_eq!(normalize_runtime_thread_id(Some("  T9 ".to_string())), Some("T9".to_string()));
    assert_eq!(normalize_runtime_thread_id(Some("   ".to_string())), None);
    assert_eq!(normalize_runtime_thread_id(None), None);
}

#[test]
fn every_refusal_has_an_input_that_gives_it() {
    let mut none = SessionRegistry::new();
    assert_eq!(none.begin_turn().unwrap_err(), SessionError::NoActiveSession);
    assert_eq!(none.resolve_native_thread(1, None).unwrap_err(), SessionError::NoActiveSession);
    assert_eq!(check_turn_request(&none, "T", "t", 1).unwrap_err(), TurnRequestError::NoActiveSession);
    assert_eq!(
        take_approval_for_response(&mut none, "approval-1", "accept", false, &vec![]).unwrap_err(),
        RespondError::NoActiveSession
    );

    let (mut reg, id) = started_session();
    assert_eq!(reg.record_created_thread(id + 1, "T".to_string(), 1).unwrap_err(), SessionError::SessionChanged);
    assert_eq!(reg.resolve_native_thread(id + 1, None).unwrap_err(), SessionError::SessionChanged);
    assert_eq!(
        reg.resolve_native_thread(id, Some(" T5 ".to_string())).unwrap_err(),
        SessionError::InvalidThreadId("T5".to_string())
    );
    assert_eq!(SessionError::InvalidThreadId("T5".to_string()).message(), "invalid thread id `T5`");
    assert_eq!(
        reg.resolve_native_thread(id, Some(" 11111111-2222-3333-4444-555555555555 ".to_string())).unwrap(),
        Resolution::Lookup { thread_id: "11111111-2222-3333-4444-555555555555".to_string() }
    );
    assert_eq!(
        take_approval_for_response(&mut reg, "  ", "accept", false, &vec![]).unwrap_err(),
        RespondError::ActionIdRequired
    );
    assert_eq!(
        take_approval_for_response(&mut reg, "approval-1", " ", false, &vec![]).unwrap_err(),
        RespondError::DecisionRequired
    );
    assert_eq!(
        take_approval_for_response(&mut reg, "approval-9", "accept", false, &vec![]).unwrap_err(),
        RespondError::ActionNotFound("approval-9".to_string())
    );

    let (mut reg, id, action_id) = session_with_approval(ApprovalKind::CommandExecution);
    let handles = &mut reg.active.as_mut().unwrap().handles;
    close_thread_aliases(handles, "unrelated");
    let _ = id;
    let taken = take_approval_for_response(&mut reg, &action_id, "accept", false, &vec![]).unwrap();
    assert!(matches!(taken.decision, ReviewDecision::Approved));
    restore_approval(&mut reg, taken.session_id, taken.action_id, taken.pending);
    let handles = &mut reg.active.as_mut().unwrap().handles;
    let _ = handles.threads.remove("T1");
    assert_eq!(
        take_approval_for_response(&mut reg, &action_id, "accept", false, &vec![]).unwrap_err(),
        RespondError::ThreadNotFound("T1".to_string())
    );
    assert_eq!(take_user_input_for_response(&mut reg, "user-input-1", "").unwrap_err(), RespondError::DecisionRequired);

    let (mut reg, id) = started_session();
    reg.record_created_thread(id, "T1".to_string(), 7).unwrap();
    let mut t = NativeCodexEventTranslator::new("T1".to_string());
    reg.translate_for_session(
        id,
        &mut t,
        event("", EventMsg::RequestUserInput(UserInputRequest { call_id: " ".to_string(), turn_id: " ".to_string(), questions: vec![] })),
    )
    .unwrap();
    assert_eq!(
        take_user_input_for_response(&mut reg, "user-input-1", "submit").unwrap_err(),
        RespondError::MissingTurnIdentifier
    );
    let again = take_user_input_for_response(&mut reg, "user-input-1", "submit").unwrap_err();
    assert_eq!(again, RespondError::MissingTurnIdentifier);
}

#[test]
fn closing_the_current_thread_forgets_it_and_its_pending_actions() {
    let (mut reg, id, action_id) = session_with_approval(ApprovalKind::FileChange);
    reg.record_resolved_thread(id, "alias".to_string(), "T1".to_string(), 7).unwrap();
    reg.record_created_thread(id, "T2".to_string(), 8).unwrap();
    reg.begin_turn().unwrap();
    reg.finish_session_turn(id, Some("T1".to_string()));
    assert_eq!(codex_thread_close(&mut reg, "  ").unwrap_err(), TurnRequestError::ThreadIdRequired);
    let (removed, mut ids) = codex_thread_close(&mut reg, " alias ").unwrap();
    assert_eq!(removed, Some(7));
    ids.sort();
    assert_eq!(ids, vec!["T1".to_string(), "alias".to_string()]);
    let active = reg.active.as_ref().unwrap();
    assert!(active.thread_id.is_none());
    assert!(active.handles.threads.contains_key("T2"));
    assert!(!active.handles.pending.approvals.contains_key(&action_id));
    let mut none = SessionRegistry::new();
    assert_eq!(codex_thread_close(&mut none, "T1").unwrap_err(), TurnRequestError::NoActiveSession);
}
