use codex_bridge::mcp::{make_unique_mcp_server_id, normalize_mcp_server_id_base};
use codex_bridge::runtime_config::{
    prepare_send_input, SendInputAction,
    parse_native_thread_sort_key, runtime_approval_policy, runtime_reasoning_effort, runtime_sandbox_mode,
    runtime_web_search_mode, AskForApproval, ReasoningEffort, SandboxMode, ThreadSortKey, WebSearchMode,
    native_source_kind_matches_filter, normalize_model_provider_filters, normalize_source_kind_key, parse_csv,
    parse_env_bool, parse_env_u64, parse_slash_command, runtime_model_override, runtime_profile_or_internal,
    runtime_profile_override, unsupported_slash_command_message, ALICIA_NATIVE_INTERNAL_PROFILE,
};
use codex_bridge::text_map::TextMap;

#[test]
fn parse_env_bool_supports_common_values() {
    assert_eq!(parse_env_bool("true"), Some(true));
    assert_eq!(parse_env_bool("YES"), Some(true));
    assert_eq!(parse_env_bool("1"), Some(true));
    assert_eq!(parse_env_bool("off"), Some(false));
    assert_eq!(parse_env_bool("0"), Some(false));
    assert_eq!(parse_env_bool("maybe"), None);
}

#[test]
fn normalize_model_provider_filters_none_keeps_filter_disabled() {
    let result = normalize_model_provider_filters(None);
    assert_eq!(result, None);
}

#[test]
fn normalize_model_provider_filters_discards_empty_entries() {
    let result = normalize_model_provider_filters(Some(vec!["  ".to_string(), "\n".to_string()]));
    assert_eq!(result, None);
}

#[test]
fn normalize_model_provider_filters_keeps_non_empty_entries() {
    let result = normalize_model_provider_filters(Some(vec![" openai ".to_string(), "anthropic".to_string()]));
    assert_eq!(result, Some(vec!["openai".to_string(), "anthropic".to_string()]));
}

#[test]
fn runtime_model_override_discards_default_value() {
    assert_eq!(runtime_model_override("default"), None);
    assert_eq!(runtime_model_override("  "), None);
    assert_eq!(runtime_model_override("gpt-5-codex"), Some("gpt-5-codex".to_string()));
}

#[test]
fn runtime_profile_override_ignores_internal_permission_profiles() {
    assert_eq!(runtime_profile_override(""), None);
    assert_eq!(runtime_profile_override("read_only"), None);
    assert_eq!(runtime_profile_override(" read_write_with_approval "), None);
    assert_eq!(runtime_profile_override("full_access"), None);
    assert_eq!(runtime_profile_override(" custom_profile "), Some("custom_profile".to_string()));
}

#[test]
fn runtime_profile_or_internal_uses_internal_profile_fallback() {
    assert_eq!(runtime_profile_or_internal("read_only"), ALICIA_NATIVE_INTERNAL_PROFILE.to_string());
    assert_eq!(runtime_profile_or_internal("custom_profile"), "custom_profile".to_string());
}

#[test]
fn parse_env_bool_trims_and_rejects_other_words() {
    assert_eq!(parse_env_bool("  On \n"), Some(true));
    assert_eq!(parse_env_bool("N"), Some(false));
    assert_eq!(parse_env_bool(""), None);
    assert_eq!(parse_env_bool("truthy"), None);
}

#[test]
fn parse_env_u64_reads_numbers_that_fit() {
    assert_eq!(parse_env_u64(" 42 "), Some(42));
    assert_eq!(parse_env_u64("+7"), Some(7));
    assert_eq!(parse_env_u64("18446744073709551615"), Some(u64::MAX));
    assert_eq!(parse_env_u64("18446744073709551616"), None);
    assert_eq!(parse_env_u64("-1"), None);
    assert_eq!(parse_env_u64("12a"), None);
    assert_eq!(parse_env_u64(""), None);
    assert_eq!(parse_env_u64("+"), None);
}

#[test]
fn parse_csv_trims_and_drops_blank_fields() {
    assert_eq!(parse_csv(" a, b ,,c , "), vec!["a".to_string(), "b".to_string(), "c".to_string()]);
    assert!(parse_csv("").is_empty());
    assert!(parse_csv(" , ,").is_empty());
}

#[test]
fn source_kind_filters_match_their_sources() {
    assert_eq!(normalize_source_kind_key(" Sub-Agent_Review "), "subagentreview");
    let filters = vec!["subagentother".to_string()];
    assert!(native_source_kind_matches_filter("subagent_other", &filters));
    assert!(!native_source_kind_matches_filter("subagent_review", &filters));
    assert!(!native_source_kind_matches_filter("subagent_thread_spawn_1", &filters));
    assert!(native_source_kind_matches_filter("MCP", &vec!["appserver".to_string()]));
    assert!(native_source_kind_matches_filter("vscode", &vec!["cli".to_string(), "vscode".to_string()]));
    assert!(!native_source_kind_matches_filter("exec", &vec!["nonsense".to_string()]));
    assert!(!native_source_kind_matches_filter("cli", &Vec::new()));
}

#[test]
fn slash_commands_split_into_word_and_arguments() {
    assert_eq!(
        parse_slash_command("  /status   now please "),
        Some(("/status".to_string(), "now please".to_string()))
    );
    assert_eq!(parse_slash_command("/status"), Some(("/status".to_string(), String::new())));
    assert_eq!(parse_slash_command("status"), None);
    assert_eq!(
        unsupported_slash_command_message("  "),
        "slash command `/` is not available in the current runtime. Supported command: /status"
    );
    assert_eq!(
        unsupported_slash_command_message(" /model "),
        "slash command `/model` is not available in the current runtime. Supported command: /status"
    );
}

#[test]
fn mcp_server_ids_are_normalised_and_made_unique() {
    assert_eq!(normalize_mcp_server_id_base("My Server!!"), "my-server");
    assert_eq!(normalize_mcp_server_id_base("--a__b--"), "a__b");
    assert_eq!(normalize_mcp_server_id_base("***"), "server");
    let mut seen: TextMap<usize> = TextMap::new();
    assert_eq!(make_unique_mcp_server_id("fs", &mut seen), "fs");
    assert_eq!(make_unique_mcp_server_id("fs", &mut seen), "fs-2");
    assert_eq!(make_unique_mcp_server_id("fs", &mut seen), "fs-3");
    assert_eq!(make_unique_mcp_server_id("git", &mut seen), "git");
}

#[test]
fn runtime_web_search_mode_parses_supported_modes() {
    assert_eq!(runtime_web_search_mode("cached"), Some(WebSearchMode::Cached));
    assert_eq!(runtime_web_search_mode("live"), Some(WebSearchMode::Live));
    assert_eq!(runtime_web_search_mode("disabled"), Some(WebSearchMode::Disabled));
    assert_eq!(runtime_web_search_mode("invalid"), None);
}

#[test]
fn runtime_policies_fall_back_to_safe_defaults() {
    assert_eq!(runtime_approval_policy(" Untrusted "), AskForApproval::UnlessTrusted);
    assert_eq!(runtime_approval_policy("on-failure"), AskForApproval::OnFailure);
    assert_eq!(runtime_approval_policy("NEVER"), AskForApproval::Never);
    assert_eq!(runtime_approval_policy("whatever"), AskForApproval::OnRequest);
    assert_eq!(runtime_sandbox_mode("workspace-write"), SandboxMode::WorkspaceWrite);
    assert_eq!(runtime_sandbox_mode("danger-full-access"), SandboxMode::DangerFullAccess);
    assert_eq!(runtime_sandbox_mode(""), SandboxMode::ReadOnly);
    assert_eq!(runtime_reasoning_effort(" XHigh "), Some(ReasoningEffort::XHigh));
    assert_eq!(runtime_reasoning_effort("none"), Some(ReasoningEffort::NoReasoning));
    assert_eq!(runtime_reasoning_effort("max"), None);
}

#[test]
fn thread_sort_keys_accept_both_spellings() {
    assert_eq!(parse_native_thread_sort_key(None), Ok(ThreadSortKey::CreatedAt));
    assert_eq!(parse_native_thread_sort_key(Some("updated_at".to_string())), Ok(ThreadSortKey::UpdatedAt));
    assert_eq!(parse_native_thread_sort_key(Some("CreatedAt".to_string())), Ok(ThreadSortKey::CreatedAt));
    assert_eq!(parse_native_thread_sort_key(Some(" ".to_string())), Ok(ThreadSortKey::CreatedAt));
    assert_eq!(
        parse_native_thread_sort_key(Some("name".to_string())),
        Err("sort_key must be one of: created_at, updated_at".to_string())
    );
}

#[test]
fn typed_input_is_checked_before_it_becomes_a_turn() {
    assert_eq!(prepare_send_input("hello\r\n"), Ok(SendInputAction::Turn("hello".to_string())));
    assert_eq!(prepare_send_input(" \n\n"), Err("cannot send empty input".to_string()));
    assert_eq!(prepare_send_input("/STATUS\n"), Ok(SendInputAction::Status));
    assert_eq!(
        prepare_send_input("/model gpt"),
        Ok(SendInputAction::Unsupported(
            "slash command `/model` is not available in the current runtime. Supported command: /status".to_string()
        ))
    );
}
