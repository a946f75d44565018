use codex_bridge::capabilities::{
    default_runtime_capabilities, disable_methods_for_native_transport, is_unsupported_method_error_for,
    is_unsupported_method_message,
};
use codex_bridge::git_status::{
    classify_git_status, git_result_details, is_safe_git_path, parse_git_status_porcelain, to_literal_pathspec,
    validate_workspace_cwd, GitCommandExecutionResult,
};

#[test]
fn parse_untracked_entry() {
    let parsed = parse_git_status_porcelain(b"?? src/new_file.rs\0").expect("entry should parse");
    let entry = &parsed[0];

    assert_eq!(entry.path, "src/new_file.rs");
    assert_eq!(entry.status, "untracked");
    assert_eq!(entry.code, "??");
    assert!(entry.from_path.is_none());
}

#[test]
fn parse_renamed_entry_with_origin() {
    let parsed = parse_git_status_porcelain(b"R  src/new_name.rs\0src/old_name.rs\0").expect("entry should parse");
    let entry = &parsed[0];

    assert_eq!(entry.path, "src/new_name.rs");
    assert_eq!(entry.status, "renamed");
    assert_eq!(entry.code, "R ");
    assert_eq!(entry.from_path.as_deref(), Some("src/old_name.rs"));
}

#[test]
fn parse_unmerged_entry() {
    let parsed = parse_git_status_porcelain(b"UU src/conflict.rs\0").expect("entry should parse");
    let entry = &parsed[0];

    assert_eq!(entry.path, "src/conflict.rs");
    assert_eq!(entry.status, "unmerged");
    assert_eq!(entry.code, "UU");
}

#[test]
fn parse_status_output_with_multiple_entries() {
    let parsed =
        parse_git_status_porcelain(b"M  src/main.rs\0?? src/new.rs\0D  src/old.rs\0").expect("output should parse");

    assert_eq!(parsed.len(), 3);
    assert_eq!(parsed[0].status, "modified");
    assert_eq!(parsed[1].status, "untracked");
    assert_eq!(parsed[2].status, "deleted");
}

#[test]
fn parse_malformed_entry_errors() {
    let error = parse_git_status_porcelain(b"X\0").expect_err("malformed output should return an error");
    assert!(error.contains("malformed git status entry"));
}

#[test]
fn parse_paths_with_spaces() {
    let parsed =
        parse_git_status_porcelain(b"M  src/folder with spaces/file name.rs\0").expect("output should parse");

    assert_eq!(parsed.len(), 1);
    assert_eq!(parsed[0].path, "src/folder with spaces/file name.rs");
}

#[test]
fn classify_common_statuses() {
    assert_eq!(classify_git_status("M "), "modified");
    assert_eq!(classify_git_status("A "), "added");
    assert_eq!(classify_git_status("D "), "deleted");
    assert_eq!(classify_git_status("C "), "copied");
    assert_eq!(classify_git_status("DD"), "unmerged");
    assert_eq!(classify_git_status("AA"), "unmerged");
    assert_eq!(classify_git_status("UU"), "unmerged");
}

#[test]
fn native_transport_keeps_supported_methods_enabled() {
    let mut methods = default_runtime_capabilities();

    disable_methods_for_native_transport(&mut methods);

    for method in [
        "mcp.warmup",
        "mcp.list",
        "mcp.login",
        "mcp.reload",
        "app.list",
        "account.read",
        "account.login.start",
        "account.logout",
        "account.rate_limits.read",
        "account.rateLimits.read",
    ] {
        assert_eq!(methods.get(method), Some(&true), "method should stay enabled: {method}");
    }
}

#[test]
fn native_transport_still_disables_unsupported_methods() {
    let mut methods = default_runtime_capabilities();

    disable_methods_for_native_transport(&mut methods);

    assert_eq!(methods.get("tool.call.dynamic"), Some(&false));
}

#[test]
fn default_capabilities_list_every_method_once() {
    let methods = default_runtime_capabilities();
    assert_eq!(methods.len(), 28);
    assert_eq!(methods.get("thread.open"), Some(&true));
    assert_eq!(methods.get("tool.call.dynamic"), Some(&false));
    assert_eq!(methods.get("no.such.method"), None);
}

#[test]
fn parse_ignored_and_empty_entries_are_skipped() {
    let parsed = parse_git_status_porcelain(b"!! target/\0\0A  a.rs\0").expect("output should parse");
    assert_eq!(parsed.len(), 1);
    assert_eq!(parsed[0].status, "added");
    assert_eq!(parsed[0].path, "a.rs");
}

#[test]
fn parse_reports_each_malformed_shape() {
    assert_eq!(
        parse_git_status_porcelain(b"M  a.rs").unwrap_err(),
        "malformed git status output: missing NUL terminator"
    );
    assert_eq!(
        parse_git_status_porcelain(b"M \0").unwrap_err(),
        "malformed git status entry: 'M '"
    );
    assert_eq!(
        parse_git_status_porcelain(b"M  \0").unwrap_err(),
        "malformed git status entry (missing path): 'M  '"
    );
    assert_eq!(
        parse_git_status_porcelain(b"MMxa.rs\0").unwrap_err(),
        "malformed git status entry: 'MMxa.rs'"
    );
    assert_eq!(
        parse_git_status_porcelain(b"R  new.rs\0").unwrap_err(),
        "malformed git status output: missing rename/copy source path"
    );
    assert_eq!(
        parse_git_status_porcelain(b"C  new.rs\0\0").unwrap_err(),
        "malformed git status output: empty rename/copy source path"
    );
    let bad_code = parse_git_status_porcelain(b"\xff\xfe a.rs\0").unwrap_err();
    assert!(bad_code.starts_with("malformed git status code in entry '"));
}

#[test]
fn classify_remaining_statuses() {
    assert_eq!(classify_git_status("??"), "untracked");
    assert_eq!(classify_git_status(" R"), "renamed");
    assert_eq!(classify_git_status(" T"), "modified");
    assert_eq!(classify_git_status("!!"), "unknown");
    assert_eq!(classify_git_status("AU"), "unmerged");
}

#[test]
fn safe_git_paths_are_plain_relative_paths() {
    assert!(is_safe_git_path("src/main.rs"));
    assert!(is_safe_git_path("a/./b"));
    assert!(!is_safe_git_path(""));
    assert!(!is_safe_git_path("/etc/passwd"));
    assert!(!is_safe_git_path("../secret"));
    assert!(!is_safe_git_path("a/../b"));
    assert!(!is_safe_git_path("./a"));
    assert!(!is_safe_git_path("."));
    assert!(!is_safe_git_path("a\0b"));
    assert!(is_safe_git_path("a..b"));
    assert_eq!(to_literal_pathspec("src/x.rs"), ":(literal)src/x.rs");
}

#[test]
fn git_result_details_prefers_stderr_then_stdout_then_status() {
    let mut result = GitCommandExecutionResult {
        stdout: " out ".to_string(),
        stderr: " err ".to_string(),
        status: 1,
        success: false,
    };
    assert_eq!(git_result_details(&result), "err");
    result.stderr = "  ".to_string();
    assert_eq!(git_result_details(&result), "out");
    result.stdout = String::new();
    result.status = -1;
    assert_eq!(git_result_details(&result), "exit status -1");
    result.status = 128;
    assert_eq!(git_result_details(&result), "exit status 128");
}

#[test]
fn validate_workspace_cwd_reports_missing_and_non_directory() {
    assert_eq!(
        validate_workspace_cwd("/x", false, false).unwrap_err(),
        "git_workspace_changes invalid cwd '/x': path does not exist"
    );
    assert_eq!(
        validate_workspace_cwd("/x", true, false).unwrap_err(),
        "git_workspace_changes invalid cwd '/x': path is not a directory"
    );
    assert!(validate_workspace_cwd("/x", true, true).is_ok());
}

#[test]
fn unsupported_method_errors_are_recognised() {
    assert!(is_unsupported_method_message("Unsupported method: thread/fork"));
    assert!(is_unsupported_method_message("JSON-RPC: Method not found"));
    assert!(!is_unsupported_method_message("timeout"));
    assert!(is_unsupported_method_error_for("unsupported method thread/fork", &["thread.fork"]));
    assert!(is_unsupported_method_error_for("Method not found: THREAD.FORK", &["thread.fork"]));
    assert!(!is_unsupported_method_error_for("unsupported method thread/read", &["thread.fork"]));
    assert!(!is_unsupported_method_error_for("thread.fork failed", &["thread.fork"]));
}
