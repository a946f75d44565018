use codex_bridge::history::{native_preview_from_turns, CodexThreadTurnHistoryMessage, CodexThreadTurnSummary};
use codex_bridge::answers::{as_answer_list, normalize_user_input_answers};
use codex_bridge::events::{InputOutcome, ProtocolEvent};
use codex_bridge::json::{parse_json, Json};
use codex_bridge::pending::PendingUserInput;
use codex_bridge::respond::build_native_user_input_resolved_payload;
use codex_bridge::review::{codex_review_start_impl, review_delivery_hint, validate_review_target, ReviewStartError};
use codex_bridge::runtime_config::{parse_native_source_filters, SessionSource};
use codex_bridge::session::{SessionError, SessionRegistry};

fn json(text: &str) -> Json {
    parse_json(text).expect("valid JSON")
}

#[test]
fn validate_review_target_rejects_non_object_target() {
    let result = validate_review_target(Some(&json(r#""invalid""#)));
    assert_eq!(result, Err("target must be a plain JSON object".to_string()));
}

#[test]
fn validate_review_target_keeps_existing_target_types_unchanged() {
    let result = validate_review_target(Some(&json(r#"{"type":"uncommittedChanges"}"#)));
    assert!(result.is_ok());
}

#[test]
fn validate_review_target_requires_paths_for_files_target() {
    let result = validate_review_target(Some(&json(r#"{"type":"files"}"#)));
    assert_eq!(result, Err("target.paths must be a non-empty array when target.type is `files`".to_string()));
}

#[test]
fn validate_review_target_requires_non_empty_trimmed_path_values() {
    let result = validate_review_target(Some(&json(r#"{"type":"files","paths":["src/main.rs","   "]}"#)));
    assert_eq!(
        result,
        Err("target.paths[1] must be a non-empty string when target.type is `files`".to_string())
    );
}

#[test]
fn validate_review_target_accepts_files_target_with_paths() {
    let result = validate_review_target(Some(&json(
        r#"{"type":"files","paths":["src/main.rs","src/session_turn_runtime.rs"]}"#,
    )));
    assert!(result.is_ok());
}

#[test]
fn review_start_checks_target_and_delivery_before_admission() {
    let mut reg = SessionRegistry::new();
    reg.start(1, "/w".to_string()).unwrap();
    let bad = json(r#"{"type":"files","paths":[]}"#);
    assert!(matches!(codex_review_start_impl(&mut reg, Some(&bad), &None), Err(ReviewStartError::InvalidTarget(_))));
    assert_eq!(
        codex_review_start_impl(&mut reg, None, &Some("later".to_string())).unwrap_err(),
        ReviewStartError::InvalidDelivery
    );
    assert!(!reg.is_busy());
    let (resp, _) = codex_review_start_impl(&mut reg, None, &Some(" Detached ".to_string())).unwrap();
    assert!(resp.accepted);
    assert!(reg.is_busy());
    assert_eq!(
        codex_review_start_impl(&mut reg, None, &None).unwrap_err(),
        ReviewStartError::Session(SessionError::Busy)
    );
    assert_eq!(review_delivery_hint(&Some(" Inline ".to_string())), Some("delivery:inline".to_string()));
    assert_eq!(review_delivery_hint(&Some("  ".to_string())), None);
}

#[test]
fn build_native_user_input_resolved_payload_marks_cancel_with_error() {
    let pending = PendingUserInput {
        thread_id: "thread-1".to_string(),
        turn_id: "turn-1".to_string(),
        call_id: "item-1".to_string(),
    };
    match build_native_user_input_resolved_payload("action-1", &pending, InputOutcome::Submitted) {
        ProtocolEvent::UserInputResolved { outcome, error, .. } => {
            assert_eq!(outcome, InputOutcome::Submitted);
            assert!(error.is_none());
        },
        other => panic!("unexpected event {other:?}"),
    }
    match build_native_user_input_resolved_payload("action-1", &pending, InputOutcome::Cancelled) {
        ProtocolEvent::UserInputResolved { outcome, error, .. } => {
            assert_eq!(outcome, InputOutcome::Cancelled);
            assert_eq!(error.as_deref(), Some("user input cancelled by user"));
        },
        other => panic!("unexpected event {other:?}"),
    }
}

#[test]
fn parse_native_source_filters_default_keeps_unknown_compatibility() {
    let (allowed, post_filter) = parse_native_source_filters(None);
    assert!(allowed.contains(&SessionSource::Cli));
    assert!(allowed.contains(&SessionSource::VSCode));
    assert!(allowed.contains(&SessionSource::Unknown));
    assert_eq!(post_filter, None);
}

#[test]
fn parse_native_source_filters_maps_unknown_with_post_filter() {
    let (allowed, post_filter) = parse_native_source_filters(Some(vec!["unknown".to_string()]));
    assert!(allowed.is_empty());
    assert_eq!(post_filter, Some(vec!["unknown".to_string()]));
}

#[test]
fn parse_native_source_filters_unknown_and_vscode_keep_post_filter() {
    let (allowed, post_filter) = parse_native_source_filters(Some(vec!["unknown".to_string(), "vscode".to_string()]));
    assert!(allowed.is_empty());
    assert_eq!(post_filter, Some(vec!["unknown".to_string(), "vscode".to_string()]));
}

#[test]
fn parse_native_source_filters_selects_listing_sources_directly() {
    let (allowed, post_filter) = parse_native_source_filters(Some(vec![" CLI ".to_string(), "VS-Code".to_string(), " ".to_string()]));
    assert_eq!(allowed, vec![SessionSource::Cli, SessionSource::VSCode]);
    assert_eq!(post_filter, Some(vec!["cli".to_string(), "vscode".to_string()]));
}

#[test]
fn user_input_answers_accept_lists_strings_and_wrappers() {
    assert_eq!(as_answer_list(&json(r#"[" a ", "", 3, true]"#)), vec!["a".to_string(), "3".to_string(), "true".to_string()]);
    assert_eq!(as_answer_list(&json(r#"" yes ""#)), vec!["yes".to_string()]);
    assert!(as_answer_list(&json(r#""  ""#)).is_empty());
    assert!(as_answer_list(&json("null")).is_empty());
    assert_eq!(as_answer_list(&json(r#"{"answers":["x"]}"#)), vec!["x".to_string()]);
    assert_eq!(as_answer_list(&json(r#"{"value":"y"}"#)), vec!["y".to_string()]);
    assert!(as_answer_list(&json(r#"{"other":"z"}"#)).is_empty());
    assert_eq!(as_answer_list(&json("12")), vec!["12".to_string()]);
    assert_eq!(as_answer_list(&json(r#"[{"k":1}]"#)), vec![r#"{"k":1}"#.to_string()]);

    let answers = vec![
        (" q1 ".to_string(), json(r#"["a"]"#)),
        ("  ".to_string(), json(r#""ignored""#)),
        ("q2".to_string(), json(r#""b""#)),
        ("q1".to_string(), json(r#""c""#)),
    ];
    let normalized = normalize_user_input_answers(&answers);
    assert_eq!(normalized.len(), 2);
    assert_eq!(normalized.get("q1"), Some(&vec!["c".to_string()]));
    assert_eq!(normalized.get("q2"), Some(&vec!["b".to_string()]));
}

#[test]
fn thread_preview_is_the_first_non_blank_user_message() {
    let msg = |role: &str, content: &str| CodexThreadTurnHistoryMessage { role: role.to_string(), content: content.to_string() };
    let turns = vec![
        CodexThreadTurnSummary {
            id: "t1".to_string(),
            status: "completed".to_string(),
            item_count: 2,
            messages: vec![msg("assistant", "hi"), msg("user", "   ")],
        },
        CodexThreadTurnSummary {
            id: "t2".to_string(),
            status: "completed".to_string(),
            item_count: 2,
            messages: vec![msg("user", "fix the bug"), msg("user", "later")],
        },
    ];
    assert_eq!(native_preview_from_turns(&turns), "fix the bug");
    assert_eq!(native_preview_from_turns(&Vec::new()), "");
}

#[test]
fn diagnosis_responses_describe_what_is_known() {
    use_diagnosis();
}

fn use_diagnosis() {
    let failed = codex_bridge::diagnose::init_error_response("boom".to_string());
    assert!(!failed.ok);
    assert_eq!(failed.error.as_deref(), Some("boom"));
    assert!(failed.metadata.feature_enabled);
    assert!(!failed.metadata.cached_runtime);
    let disabled = codex_bridge::diagnose::disabled_response();
    assert!(disabled.ok);
    assert!(!disabled.metadata.feature_enabled);
    assert!(disabled.metadata.thread_count.is_none());
}
