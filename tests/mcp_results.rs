use codex_bridge::input::{translate_turn_input_items, CodexInputItem, UserInput};
use codex_bridge::json::{parse_json, Json};
use codex_bridge::mcp_result::{
    parse_mcp_server_list_runtime_result,
    extract_capabilities_contract_version, parse_mcp_login_runtime_result, parse_mcp_reload_runtime_result,
    parse_mcp_startup_warmup_runtime_result,
};
use codex_bridge::runtime_config::binary_for_launch;

fn json(text: &str) -> Json {
    parse_json(text).expect("valid JSON")
}

#[test]
fn extract_contract_version_from_contract_version_field() {
    let result = json(r#"{"contractVersion":"runtime-contract-v3"}"#);
    let version = extract_capabilities_contract_version(&result);
    assert_eq!(version.as_deref(), Some("runtime-contract-v3"));
}

#[test]
fn extract_contract_version_from_runtime_contract_version_field() {
    let result = json(r#"{"runtimeContractVersion":7}"#);
    let version = extract_capabilities_contract_version(&result);
    assert_eq!(version.as_deref(), Some("7"));
}

#[test]
fn extract_contract_version_from_nested_contract_object() {
    let result = json(r#"{"contract":{"version":"runtime-contract-v4"}}"#);
    let version = extract_capabilities_contract_version(&result);
    assert_eq!(version.as_deref(), Some("runtime-contract-v4"));
}

#[test]
fn extract_contract_version_returns_none_when_missing() {
    let result = json(r#"{"methods":{"thread.open":true}}"#);
    let version = extract_capabilities_contract_version(&result);
    assert!(version.is_none());
}

#[test]
fn contract_version_skips_blank_and_negative_values() {
    let result = json(r#"{"runtimeContractVersion":"  ","runtime_contract_version":-3,"contractVersion":2.5,"contract":{"version":" v9 "}}"#);
    assert_eq!(extract_capabilities_contract_version(&result).as_deref(), Some("v9"));
}

#[test]
fn warmup_result_sorts_ready_servers_and_reads_counts() {
    let parsed = parse_mcp_startup_warmup_runtime_result(
        &json(r#"{"readyServers":[" b ","a","b","",3],"totalReady":"7","elapsed_ms":15}"#),
        99,
    );
    assert_eq!(parsed.ready_servers, vec!["a".to_string(), "b".to_string()]);
    assert_eq!(parsed.total_ready, 7);
    assert_eq!(parsed.elapsed_ms, 15);
    let defaults = parse_mcp_startup_warmup_runtime_result(&json(r#"{"ready_servers":["x"],"elapsedMs":-1}"#), 99);
    assert_eq!(defaults.total_ready, 1);
    assert_eq!(defaults.elapsed_ms, 99);
}

#[test]
fn login_and_reload_results_fall_back_to_defaults() {
    let login = parse_mcp_login_runtime_result(&json(r#"{"authorization_url":" https://a ","elapsedMs":3}"#), 1);
    assert_eq!(login.name, "server");
    assert_eq!(login.authorization_url.as_deref(), Some("https://a"));
    assert!(login.started);
    assert_eq!(login.elapsed_ms, 3);
    let login = parse_mcp_login_runtime_result(&json(r#"{"name":"fs","started":false}"#), 1);
    assert_eq!(login.name, "fs");
    assert!(login.authorization_url.is_none());
    assert!(!login.started);
    assert_eq!(login.elapsed_ms, 1);
    let reload = parse_mcp_reload_runtime_result(&json(r#"{"reloaded":false,"elapsedMs":"8"}"#), 1);
    assert!(!reload.reloaded);
    assert_eq!(reload.elapsed_ms, 8);
    assert!(parse_mcp_reload_runtime_result(&json("{}"), 1).reloaded);
}

fn item(kind: &str, text: Option<&str>, path: Option<&str>, image_url: Option<&str>, name: Option<&str>) -> CodexInputItem {
    CodexInputItem {
        item_type: kind.to_string(),
        text: text.map(str::to_string),
        path: path.map(str::to_string),
        image_url: image_url.map(str::to_string),
        name: name.map(str::to_string),
    }
}

#[test]
fn turn_input_items_are_converted_or_refused() {
    let items = vec![
        item(" Text ", Some("hello"), None, None, None),
        item("localImage", None, Some(" /a.png "), None, None),
        item("image", None, None, Some("https://i"), None),
        item("mention", None, Some("/m"), None, None),
        item("skill", None, None, None, Some("review")),
        item("skill", None, Some("/s"), None, Some("lint")),
    ];
    assert_eq!(
        translate_turn_input_items(&items).unwrap(),
        vec![
            UserInput::Text { text: "hello".to_string() },
            UserInput::LocalImage { path: "/a.png".to_string() },
            UserInput::Image { image_url: "https://i".to_string() },
            UserInput::Mention { name: "/m".to_string(), path: "/m".to_string() },
            UserInput::Text { text: "[skill] review".to_string() },
            UserInput::Skill { name: "lint".to_string(), path: "/s".to_string() },
        ]
    );
    let bad = vec![item("text", None, None, None, None), item("image", None, None, Some(" "), None), item("video", None, None, None, None)];
    assert_eq!(translate_turn_input_items(&bad).unwrap_err(), "image input item requires `imageUrl`");
    assert_eq!(
        translate_turn_input_items(&vec![item("Video", None, None, None, None)]).unwrap_err(),
        "unsupported input item type: video"
    );
    assert_eq!(
        translate_turn_input_items(&vec![item("local_image", None, None, None, None)]).unwrap_err(),
        "local_image input item requires `path`"
    );
    assert_eq!(
        translate_turn_input_items(&vec![item("mention", None, None, None, None)]).unwrap_err(),
        "mention input item requires `path`"
    );
    assert_eq!(
        translate_turn_input_items(&vec![item("skill", None, None, None, None)]).unwrap_err(),
        "skill input item requires `name`"
    );
}

#[test]
fn launch_binary_looks_through_cmd_and_scripts() {
    let args = |v: &[&str]| v.iter().map(|s| s.to_string()).collect::<Vec<_>>();
    assert_eq!(binary_for_launch("CMD", &args(&["/C", "codex.cmd", "x"])), "codex.cmd");
    assert_eq!(binary_for_launch("node", &args(&["cli.MJS"])), "cli.MJS");
    assert_eq!(binary_for_launch("codex", &args(&["run"])), "codex");
    assert_eq!(binary_for_launch("cmd", &args(&["/c"])), "cmd");
}

#[test]
fn parse_mcp_server_list_supports_tools_object() {
    let result = json(
        r#"{"data":[{"name":"playwright","authStatus":"oAuth","tools":{"browser_navigate":{"name":"browser.navigate"},"browser_click":{}}}]}"#,
    );

    let parsed = parse_mcp_server_list_runtime_result(&result, 42);
    assert_eq!(parsed.data.len(), 1);
    assert_eq!(parsed.data[0].name, "playwright");
    assert_eq!(parsed.data[0].auth_status, "oauth");
    assert_eq!(parsed.data[0].tools, vec!["browser.navigate".to_string(), "browser_click".to_string()]);
    assert_eq!(parsed.elapsed_ms, 42);
}

#[test]
fn parse_mcp_server_list_supports_legacy_tools_array() {
    let result = json(r#"{"data":[{"name":"legacy","tools":["tool_a","tool_b","tool_a"]}],"elapsedMs":12}"#);

    let parsed = parse_mcp_server_list_runtime_result(&result, 5);
    assert_eq!(parsed.data.len(), 1);
    assert_eq!(parsed.data[0].tools, vec!["tool_a".to_string(), "tool_b".to_string()]);
    assert_eq!(parsed.elapsed_ms, 12);
}

#[test]
fn parse_mcp_server_list_normalizes_unsupported_auth_status() {
    let result = json(r#"{"data":[{"name":"legacy-auth","authStatus":"unsupported"}]}"#);

    let parsed = parse_mcp_server_list_runtime_result(&result, 9);
    assert_eq!(parsed.data.len(), 1);
    assert_eq!(parsed.data[0].auth_status, "not_logged_in");
}

#[test]
fn server_list_orders_by_name_and_gives_unique_ids() {
    let result = json(
        r#"{"data":[{"name":"Zed Server","transport":"sse","status":"weird","url":" http://z "},{"name":"alpha","id":"zed-server"},{"name":"  "},7,{"name":"Zed Server!","statusReason":" down ","auth_status":"bearerToken"}],"total":"10"}"#,
    );
    let parsed = parse_mcp_server_list_runtime_result(&result, 1);
    assert_eq!(parsed.total, 10);
    let rows: Vec<(&str, &str, &str, &str, &str)> = parsed
        .data
        .iter()
        .map(|d| (d.name.as_str(), d.id.as_str(), d.transport.as_str(), d.status.as_str(), d.auth_status.as_str()))
        .collect();
    assert_eq!(
        rows,
        vec![
            ("Zed Server", "zed-server", "sse", "connected", "not_logged_in"),
            ("Zed Server!", "zed-server-3", "stdio", "connected", "bearer_token"),
            ("alpha", "zed-server-2", "stdio", "connected", "not_logged_in"),
        ]
    );
    assert_eq!(parsed.data[0].url.as_deref(), Some("http://z"));
    assert_eq!(parsed.data[1].status_reason.as_deref(), Some("down"));
    let empty = parse_mcp_server_list_runtime_result(&json("{}"), 3);
    assert!(empty.data.is_empty());
    assert_eq!(empty.total, 0);
    assert_eq!(empty.elapsed_ms, 3);
}
