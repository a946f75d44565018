//! The MCP results that the runtime reports as JSON, read into the response shapes.
use vstd::prelude::*;

use crate::json::{deref_opt, field, field_or, read_text, text_of, Json};
use crate::mcp::{
    make_unique_mcp_server_id, normalize_mcp_server_id_base, server_id_base, McpLoginResponse, McpReloadResponse,
    McpServerListEntry, McpServerListResponse, McpStartupWarmupResponse,
};
use crate::order::{lemma_lt_trans, seq_lt, str_lt};
use crate::text::{str_eq, trim, trim_str};
use crate::text_map::TextMap;
use crate::order::{sorted_unique_ids, strictly_sorted, views};
use crate::raw_collab::texts_of;
use crate::runtime_config::{env_u64, parse_env_u64};
use crate::text::{decimal, decimal_chars, string_of};

verus! {

/// An unsigned number a value spells: a non-negative integer, or a string holding one.
pub open spec fn json_u64(v: Option<Json>) -> Option<u64> {
    match v {
        Some(Json::Number(t)) => env_u64(t@),
        Some(Json::Str(s)) => env_u64(s@),
        _ => None,
    }
}

pub fn read_u64(v: Option<&Json>) -> (r: Option<u64>)
    ensures
        r == json_u64(deref_opt(v)),
{
    match v {
        Some(Json::Number(t)) => parse_env_u64(t.as_str()),
        Some(Json::Str(s)) => parse_env_u64(s.as_str()),
        _ => None,
    }
}

pub open spec fn json_bool(v: Option<Json>, default: bool) -> bool {
    match v {
        Some(Json::Bool(b)) => b,
        _ => default,
    }
}

fn read_bool(v: Option<&Json>, default: bool) -> (r: bool)
    ensures
        r == json_bool(deref_opt(v), default),
{
    match v {
        Some(Json::Bool(b)) => *b,
        _ => default,
    }
}

pub open spec fn elapsed_of(result: Json, fallback: u64) -> u64 {
    match json_u64(field_or(result, "elapsedMs"@, "elapsed_ms"@)) {
        Some(v) => v,
        None => fallback,
    }
}

fn read_elapsed(result: &Json, fallback: u64) -> (r: u64)
    ensures
        r == elapsed_of(*result, fallback),
{
    match read_u64(result.get_either("elapsedMs", "elapsed_ms")) {
        Some(v) => v,
        None => fallback,
    }
}

/// The ready servers named in a result: its string entries, trimmed, blank ones dropped.
pub open spec fn ready_names(result: Json) -> Seq<Seq<char>> {
    match field_or(result, "readyServers"@, "ready_servers"@) {
        Some(Json::Array(items)) => texts_of(items@),
        _ => Seq::empty(),
    }
}

/// The warm-up result: the ready servers sorted, each once; their count as reported (else as
/// listed); the elapsed time as reported (else `fallback_elapsed_ms`).
pub fn parse_mcp_startup_warmup_runtime_result(result: &Json, fallback_elapsed_ms: u64) -> (r: McpStartupWarmupResponse)
    ensures
        strictly_sorted(views(r.ready_servers@)),
        views(r.ready_servers@).to_set() == ready_names(*result).to_set(),
        r.total_ready as int == match json_u64(field_or(*result, "totalReady"@, "total_ready"@)) {
            Some(n) => if n <= usize::MAX { n as int } else { r.ready_servers@.len() as int },
            None => r.ready_servers@.len() as int,
        },
        r.elapsed_ms == elapsed_of(*result, fallback_elapsed_ms),
{
    let mut names: Vec<String> = Vec::new();
    match result.get_either("readyServers", "ready_servers") {
        Some(Json::Array(items)) => {
            let mut i: usize = 0;
            assert(views(names@) =~= texts_of(items@.subrange(0, 0)));
            while i < items.len()
                invariant
                    i <= items@.len(),
                    views(names@) == texts_of(items@.subrange(0, i as int)),
                decreases items.len() - i,
            {
                proof {
                    assert(items@.subrange(0, i + 1).drop_last() =~= items@.subrange(0, i as int));
                }
                match read_text(Some(&items[i])) {
                    Some(t) => {
                        names.push(t);
                    },
                    None => {},
                }
                i = i + 1;
                assert(views(names@) =~= texts_of(items@.subrange(0, i as int)));
            }
            assert(items@.subrange(0, i as int) =~= items@);
        },
        _ => {
            assert(views(names@) =~= Seq::<Seq<char>>::empty());
        },
    }
    let ready_servers = sorted_unique_ids(names);
    let total_ready = match read_u64(result.get_either("totalReady", "total_ready")) {
        Some(n) => if n <= usize::MAX as u64 { n as usize } else { ready_servers.len() },
        None => ready_servers.len(),
    };
    McpStartupWarmupResponse { ready_servers, total_ready, elapsed_ms: read_elapsed(result, fallback_elapsed_ms) }
}

/// The login result: the server's name (else `server`), its authorization URL if any, whether
/// the login started (yes unless it says otherwise), and the elapsed time.
pub fn parse_mcp_login_runtime_result(result: &Json, fallback_elapsed_ms: u64) -> (r: McpLoginResponse)
    ensures
        r.name@ == match text_of(field(*result, "name"@)) {
            Some(n) => n,
            None => "server"@,
        },
        r.authorization_url.is_some() == text_of(field_or(*result, "authorizationUrl"@, "authorization_url"@)).is_some(),
        r.authorization_url.is_some() ==> r.authorization_url.unwrap()@
            == text_of(field_or(*result, "authorizationUrl"@, "authorization_url"@)).unwrap(),
        r.started == json_bool(field(*result, "started"@), true),
        r.elapsed_ms == elapsed_of(*result, fallback_elapsed_ms),
{
    let name = match read_text(result.get("name")) {
        Some(n) => n,
        None => "server".to_owned(),
    };
    McpLoginResponse {
        name,
        authorization_url: read_text(result.get_either("authorizationUrl", "authorization_url")),
        started: read_bool(result.get("started"), true),
        elapsed_ms: read_elapsed(result, fallback_elapsed_ms),
    }
}

/// The reload result: whether it reloaded (yes unless it says otherwise) and the elapsed time.
pub fn parse_mcp_reload_runtime_result(result: &Json, fallback_elapsed_ms: u64) -> (r: McpReloadResponse)
    ensures
        r.reloaded == json_bool(field(*result, "reloaded"@), true),
        r.elapsed_ms == elapsed_of(*result, fallback_elapsed_ms),
{
    McpReloadResponse {
        reloaded: read_bool(result.get("reloaded"), true),
        elapsed_ms: read_elapsed(result, fallback_elapsed_ms),
    }
}

/// The version a value of a capability answer gives: a non-blank string, trimmed, or an
/// unsigned number in decimal.
pub open spec fn version_of(v: Option<Json>) -> Option<Seq<char>> {
    match text_of(v) {
        Some(t) => Some(t),
        None => match v {
            Some(Json::Number(t)) => match env_u64(t@) {
                Some(n) => Some(decimal(n as nat)),
                None => None,
            },
            _ => None,
        },
    }
}

fn read_version(v: Option<&Json>) -> (r: Option<String>)
    ensures
        r.is_some() == version_of(deref_opt(v)).is_some(),
        r.is_some() ==> r.unwrap()@ == version_of(deref_opt(v)).unwrap(),
{
    match read_text(v) {
        Some(t) => Some(t),
        None => match v {
            Some(Json::Number(t)) => match parse_env_u64(t.as_str()) {
                Some(n) => Some(string_of(&decimal_chars(n))),
                None => None,
            },
            _ => None,
        },
    }
}

/// The contract version of a capability answer: the first of `runtimeContractVersion`,
/// `runtime_contract_version` and `contractVersion` that gives one, else a non-blank
/// `contract.version`.
pub open spec fn contract_version(result: Json) -> Option<Seq<char>> {
    match version_of(field(result, "runtimeContractVersion"@)) {
        Some(v) => Some(v),
        None => match version_of(field(result, "runtime_contract_version"@)) {
            Some(v) => Some(v),
            None => match version_of(field(result, "contractVersion"@)) {
                Some(v) => Some(v),
                None => match field(result, "contract"@) {
                    Some(c) => if c is Object {
                        match field(c, "version"@) {
                            Some(Json::Str(s)) => text_of(Some(Json::Str(s))),
                            _ => None,
                        }
                    } else {
                        None
                    },
                    None => None,
                },
            },
        },
    }
}

pub fn extract_capabilities_contract_version(result: &Json) -> (r: Option<String>)
    ensures
        r.is_some() == contract_version(*result).is_some(),
        r.is_some() ==> r.unwrap()@ == contract_version(*result).unwrap(),
{
    match read_version(result.get("runtimeContractVersion")) {
        Some(v) => {
            return Some(v);
        },
        None => {},
    }
    match read_version(result.get("runtime_contract_version")) {
        Some(v) => {
            return Some(v);
        },
        None => {},
    }
    match read_version(result.get("contractVersion")) {
        Some(v) => {
            return Some(v);
        },
        None => {},
    }
    match result.get("contract") {
        Some(c) => match c {
            Json::Object(_) => match c.get("version") {
                Some(v) => match v {
                    Json::Str(_) => read_text(Some(v)),
                    _ => None,
                },
                None => None,
            },
            _ => None,
        },
        None => None,
    }
}

/// A listed server's name: an object entry's non-blank `name`.
pub open spec fn entry_name(e: Json) -> Option<Seq<char>> {
    if e is Object { text_of(field(e, "name"@)) } else { None }
}

/// The entries of a server list that name a server, in order.
pub open spec fn listed(items: Seq<Json>) -> Seq<Json>
    decreases items.len(),
{
    if items.len() == 0 {
        Seq::empty()
    } else if entry_name(items.last()).is_some() {
        listed(items.drop_last()).push(items.last())
    } else {
        listed(items.drop_last())
    }
}

/// The id a server asks for: its non-blank `id`, else one made from its name.
pub open spec fn base_id_of(e: Json) -> Seq<char> {
    match text_of(field(e, "id"@)) {
        Some(i) => i,
        None => server_id_base(entry_name(e).unwrap()),
    }
}

pub open spec fn count_of(s: Seq<Seq<char>>, b: Seq<char>) -> nat
    decreases s.len(),
{
    if s.len() == 0 {
        0
    } else {
        count_of(s.drop_last(), b) + if s.last() == b { 1nat } else { 0nat }
    }
}

/// The id given to a server after servers with ids `prior`: its base the first time, then
/// the base with `-2`, `-3`, ...
pub open spec fn unique_id(prior: Seq<Seq<char>>, b: Seq<char>) -> Seq<char> {
    if count_of(prior, b) == 0 { b } else { b + seq!['-'] + decimal((count_of(prior, b) + 1) as nat) }
}

pub open spec fn one_of_or(v: Option<Seq<char>>, allowed: Seq<Seq<char>>, default: Seq<char>) -> Seq<char> {
    match v {
        Some(t) => if allowed.contains(t) { t } else { default },
        None => default,
    }
}

pub open spec fn transport_of(e: Json) -> Seq<char> {
    one_of_or(text_of(field(e, "transport"@)), seq!["stdio"@, "sse"@, "streamable-http"@], "stdio"@)
}

pub open spec fn status_of(e: Json) -> Seq<char> {
    one_of_or(text_of(field(e, "status"@)), seq!["connected"@, "disconnected"@, "error"@, "connecting"@], "connected"@)
}

pub open spec fn auth_of(e: Json) -> Seq<char> {
    match text_of(field_or(e, "authStatus"@, "auth_status"@)) {
        Some(a) => if a == "not_logged_in"@ || a == "bearer_token"@ || a == "oauth"@ {
            a
        } else if a == "bearerToken"@ {
            "bearer_token"@
        } else if a == "oAuth"@ {
            "oauth"@
        } else {
            "not_logged_in"@
        },
        None => "not_logged_in"@,
    }
}

/// The tool names of an object of tools: each tool's non-blank `name`, else its trimmed key.
pub open spec fn object_tool_names(es: Seq<(String, Json)>) -> Seq<Seq<char>>
    decreases es.len(),
{
    if es.len() == 0 {
        Seq::empty()
    } else {
        let rest = object_tool_names(es.drop_last());
        match text_of(field(es.last().1, "name"@)) {
            Some(n) => rest.push(n),
            None => if trim(es.last().0@).len() > 0 { rest.push(trim(es.last().0@)) } else { rest },
        }
    }
}

pub open spec fn tool_names(e: Json) -> Seq<Seq<char>> {
    match field(e, "tools"@) {
        Some(Json::Array(items)) => texts_of(items@),
        Some(Json::Object(es)) => object_tool_names(es@),
        _ => Seq::empty(),
    }
}

pub open spec fn opt_view(o: Option<String>) -> Option<Seq<char>> {
    match o {
        Some(s) => Some(s@),
        None => None,
    }
}

/// The listing entry of server `e`, listed after servers with ids `prior`.
pub open spec fn entry_ok(e: Json, prior: Seq<Seq<char>>, d: McpServerListEntry) -> bool {
    &&& d.name@ == entry_name(e).unwrap()
    &&& d.id@ == unique_id(prior, base_id_of(e))
    &&& d.transport@ == transport_of(e)
    &&& d.status@ == status_of(e)
    &&& d.auth_status@ == auth_of(e)
    &&& opt_view(d.status_reason) == text_of(field_or(e, "statusReason"@, "status_reason"@))
    &&& opt_view(d.url) == text_of(field(e, "url"@))
    &&& strictly_sorted(views(d.tools@))
    &&& views(d.tools@).to_set() == tool_names(e).to_set()
}

pub open spec fn strs_view(s: Seq<&str>) -> Seq<Seq<char>> {
    s.map_values(|a: &str| a@)
}

fn one_of(v: Option<String>, allowed: &[&str], default: &str) -> (r: String)
    ensures
        r@ == one_of_or(opt_view(v), strs_view(allowed@), default@),
{
    match v {
        Some(t) => {
            let mut i: usize = 0;
            while i < allowed.len()
                invariant
                    i <= allowed@.len(),
                    opt_view(v) == Some(t@),
                    forall|j: int| 0 <= j < i ==> allowed@[j]@ != t@,
                decreases allowed.len() - i,
            {
                let a: &str = allowed[i];
                if str_eq(a, t.as_str()) {
                    assert(strs_view(allowed@)[i as int] == t@);
                    assert(strs_view(allowed@).contains(t@));
                    return t;
                }
                i = i + 1;
            }
            let ghost av = strs_view(allowed@);
            assert(!av.contains(t@)) by {
                if av.contains(t@) {
                    let j = choose|j: int| 0 <= j < av.len() && #[trigger] av[j] == t@;
                    assert(allowed@[j]@ == t@);
                }
            }
            default.to_owned()
        },
        None => default.to_owned(),
    }
}

fn object_tools(es: &Vec<(String, Json)>) -> (r: Vec<String>)
    ensures
        views(r@) == object_tool_names(es@),
{
    let mut r: Vec<String> = Vec::new();
    let mut i: usize = 0;
    assert(views(r@) =~= object_tool_names(es@.subrange(0, 0)));
    while i < es.len()
        invariant
            i <= es@.len(),
            views(r@) == object_tool_names(es@.subrange(0, i as int)),
        decreases es.len() - i,
    {
        proof {
            assert(es@.subrange(0, i + 1).drop_last() =~= es@.subrange(0, i as int));
        }
        match read_text(es[i].1.get("name")) {
            Some(n) => {
                r.push(n);
            },
            None => {
                let k = trim_str(es[i].0.as_str());
                if !k.as_str().is_empty() {
                    r.push(k);
                }
            },
        }
        i = i + 1;
        assert(views(r@) =~= object_tool_names(es@.subrange(0, i as int)));
    }
    assert(es@.subrange(0, i as int) =~= es@);
    r
}

fn texts(items: &Vec<Json>) -> (r: Vec<String>)
    ensures
        views(r@) == texts_of(items@),
{
    let mut r: Vec<String> = Vec::new();
    let mut i: usize = 0;
    assert(views(r@) =~= texts_of(items@.subrange(0, 0)));
    while i < items.len()
        invariant
            i <= items@.len(),
            views(r@) == texts_of(items@.subrange(0, i as int)),
        decreases items.len() - i,
    {
        proof {
            assert(items@.subrange(0, i + 1).drop_last() =~= items@.subrange(0, i as int));
        }
        match read_text(Some(&items[i])) {
            Some(t) => {
                r.push(t);
            },
            None => {},
        }
        i = i + 1;
        assert(views(r@) =~= texts_of(items@.subrange(0, i as int)));
    }
    assert(items@.subrange(0, i as int) =~= items@);
    r
}

fn build_entry(e: &Json, name: String, id: String) -> (r: McpServerListEntry)
    requires
        entry_name(*e) == Some(name@),
    ensures
        r.name == name && r.id == id,
        r.transport@ == transport_of(*e),
        r.status@ == status_of(*e),
        r.auth_status@ == auth_of(*e),
        opt_view(r.status_reason) == text_of(field_or(*e, "statusReason"@, "status_reason"@)),
        opt_view(r.url) == text_of(field(*e, "url"@)),
        strictly_sorted(views(r.tools@)),
        views(r.tools@).to_set() == tool_names(*e).to_set(),
{
    let transports: [&str; 3] = ["stdio", "sse", "streamable-http"];
    let statuses: [&str; 4] = ["connected", "disconnected", "error", "connecting"];
    assert(strs_view(transports@) =~= seq!["stdio"@, "sse"@, "streamable-http"@]);
    assert(strs_view(statuses@) =~= seq!["connected"@, "disconnected"@, "error"@, "connecting"@]);
    let transport = one_of(read_text(e.get("transport")), transports.as_slice(), "stdio");
    let status = one_of(read_text(e.get("status")), statuses.as_slice(), "connected");
    let auth_status = match read_text(e.get_either("authStatus", "auth_status")) {
        Some(a) => {
            let k = a.as_str();
            if str_eq(k, "not_logged_in") || str_eq(k, "bearer_token") || str_eq(k, "oauth") {
                a
            } else if str_eq(k, "bearerToken") {
                "bearer_token".to_owned()
            } else if str_eq(k, "oAuth") {
                "oauth".to_owned()
            } else {
                "not_logged_in".to_owned()
            }
        },
        None => "not_logged_in".to_owned(),
    };
    let tools = match e.get("tools") {
        Some(Json::Array(items)) => texts(items),
        Some(Json::Object(es)) => object_tools(es),
        _ => {
            let v: Vec<String> = Vec::new();
            assert(views(v@) =~= Seq::<Seq<char>>::empty());
            v
        },
    };
    McpServerListEntry {
        id,
        name,
        transport,
        status,
        status_reason: read_text(e.get_either("statusReason", "status_reason")),
        auth_status,
        tools: sorted_unique_ids(tools),
        url: read_text(e.get("url")),
    }
}

pub open spec fn sorted_by_name(s: Seq<McpServerListEntry>) -> bool {
    forall|i: int, j: int| 0 <= i < j < s.len() ==> !seq_lt(#[trigger] s[j].name@, #[trigger] s[i].name@)
}

fn insert_by_name(v: &mut Vec<McpServerListEntry>, a: McpServerListEntry)
    requires
        sorted_by_name(old(v)@),
    ensures
        sorted_by_name(final(v)@),
        final(v)@.to_multiset() == old(v)@.to_multiset().insert(a),
{
    let mut p: usize = 0;
    while p < v.len() && !str_lt(a.name.as_str(), v[p].name.as_str())
        invariant
            p <= v.len(),
            v@ == old(v)@,
            forall|k: int| 0 <= k < p ==> !seq_lt(a.name@, #[trigger] v@[k].name@),
        decreases v.len() - p,
    {
        p = p + 1;
    }
    let ghost s0 = v@;
    let ghost key = a.name@;
    proof {
        if p < s0.len() {
            assert forall|k: int| p <= k < s0.len() implies !seq_lt(#[trigger] s0[k].name@, key) by {
                if seq_lt(s0[k].name@, key) {
                    lemma_lt_trans(s0[k].name@, key, s0[p as int].name@);
                    if k == p {
                        crate::order::lemma_lt_irrefl(key);
                        lemma_lt_trans(key, s0[p as int].name@, key);
                    }
                }
            }
        }
        vstd::seq_lib::to_multiset_insert(s0, p as int, a);
    }
    v.insert(p, a);
    assert(v@ =~= s0.insert(p as int, a));
    assert forall|i: int, j: int| 0 <= i < j < v@.len() implies !seq_lt(#[trigger] v@[j].name@, #[trigger] v@[i].name@) by {
        if j < p {
        } else if j == p {
        } else if i < p {
            if seq_lt(v@[j].name@, v@[i].name@) {
                assert(!seq_lt(s0[j - 1].name@, key));
                lemma_lt_trans(s0[j - 1].name@, v@[i].name@, key);
            }
        } else if i == p {
        } else {
        }
    }
}

pub open spec fn bases_of(es: Seq<Json>) -> Seq<Seq<char>> {
    es.map_values(|e: Json| base_id_of(e))
}

/// The entries built for the listed servers, in listing order.
pub open spec fn entries_ok(items: Seq<Json>, b: Seq<McpServerListEntry>) -> bool {
    let l = listed(items);
    b.len() == l.len() && forall|k: int| 0 <= k < l.len() ==> entry_ok(l[k], bases_of(l).subrange(0, k), #[trigger] b[k])
}

/// The entries of a result's `data` list.
pub open spec fn list_source(result: Json) -> Seq<Json> {
    match field(result, "data"@) {
        Some(Json::Array(items)) => items@,
        _ => Seq::empty(),
    }
}

/// A server listing: one entry per listed server (with a unique id each), ordered by name;
/// the total as reported (else the count); the elapsed time as reported (else
/// `fallback_elapsed_ms`).
pub fn parse_mcp_server_list_runtime_result(result: &Json, fallback_elapsed_ms: u64) -> (r: McpServerListResponse)
    ensures
        sorted_by_name(r.data@),
        exists|b: Seq<McpServerListEntry>| #[trigger] entries_ok(list_source(*result), b)
            && r.data@.to_multiset() == b.to_multiset(),
        r.total as int == match json_u64(field(*result, "total"@)) {
            Some(n) => if n <= usize::MAX { n as int } else { r.data@.len() as int },
            None => r.data@.len() as int,
        },
        r.elapsed_ms == elapsed_of(*result, fallback_elapsed_ms),
{
    let mut data: Vec<McpServerListEntry> = Vec::new();
    let ghost mut built: Seq<McpServerListEntry> = Seq::empty();
    let ghost source: Seq<Json> = list_source(*result);
    match result.get("data") {
        Some(Json::Array(items)) => {
            let mut seen: TextMap<usize> = TextMap::new();
            let ghost mut bases: Seq<Seq<char>> = Seq::empty();
            let mut i: usize = 0;
            assert(listed(items@.subrange(0, 0)) =~= Seq::<Json>::empty());
            assert(bases_of(Seq::<Json>::empty()) =~= Seq::<Seq<char>>::empty());
            while i < items.len()
                invariant
                    i <= items@.len(),
                    source == items@,
                    seen.wf(),
                    bases == bases_of(listed(items@.subrange(0, i as int))),
                    built.len() == bases.len(),
                    bases.len() <= i,
                    forall|b: Seq<char>| #[trigger] seen@.contains_key(b) <==> count_of(bases, b) > 0,
                    forall|b: Seq<char>| #[trigger] seen@.contains_key(b) ==> seen@[b] == count_of(bases, b),
                    forall|k: int| 0 <= k < built.len() ==> entry_ok(listed(items@.subrange(0, i as int))[k], bases.subrange(0, k), #[trigger] built[k]),
                    sorted_by_name(data@),
                    data@.to_multiset() == built.to_multiset(),
                decreases items.len() - i,
            {
                let ghost l0 = listed(items@.subrange(0, i as int));
                proof {
                    assert(items@.subrange(0, i + 1).drop_last() =~= items@.subrange(0, i as int));
                    assert(items@.subrange(0, i + 1).last() == items@[i as int]);
                }
                let e = &items[i];
                let name = match e {
                    Json::Object(_) => read_text(e.get("name")),
                    _ => None,
                };
                match name {
                    Some(name) => {
                        let base = match read_text(e.get("id")) {
                            Some(id) => id,
                            None => normalize_mcp_server_id_base(name.as_str()),
                        };
                        proof {
                            lemma_count_le(bases, base@);
                        }
                        let id = make_unique_mcp_server_id(base.as_str(), &mut seen);
                        let entry = build_entry(e, name, id);
                        proof {
                            let l1 = l0.push(*e);
                            assert(listed(items@.subrange(0, i + 1)) == l1);
                            assert(bases_of(l1) =~= bases.push(base@));
                            let nb = bases.push(base@);
                            assert(nb.drop_last() =~= bases);
                            assert forall|b: Seq<char>| count_of(nb, b) == count_of(bases, b) + if b == base@ { 1nat } else { 0nat } by {}
                            assert(entry_ok(*e, bases, entry));
                            assert forall|k: int| 0 <= k < built.len() implies #[trigger] nb.subrange(0, k) == bases.subrange(0, k) by {
                                assert(nb.subrange(0, k) =~= bases.subrange(0, k));
                            }
                            assert(nb.subrange(0, bases.len() as int) =~= bases);
                            vstd::seq_lib::to_multiset_build(built, entry);
                            built = built.push(entry);
                            bases = nb;
                            assert forall|k: int| 0 <= k < built.len() implies entry_ok(l1[k], bases.subrange(0, k), #[trigger] built[k]) by {
                                if k < built.len() - 1 {
                                    assert(l1[k] == l0[k]);
                                }
                            }
                        }
                        insert_by_name(&mut data, entry);
                    },
                    None => {},
                }
                i = i + 1;
            }
            assert(items@.subrange(0, i as int) =~= items@);
        },
        _ => {},
    }
    assert(entries_ok(source, built));
    let total = match read_u64(result.get("total")) {
        Some(n) => if n <= usize::MAX as u64 { n as usize } else { data.len() },
        None => data.len(),
    };
    McpServerListResponse { data, total, elapsed_ms: read_elapsed(result, fallback_elapsed_ms) }
}

proof fn lemma_count_le(s: Seq<Seq<char>>, b: Seq<char>)
    ensures
        count_of(s, b) <= s.len(),
    decreases s.len(),
{
    if s.len() > 0 {
        lemma_count_le(s.drop_last(), b);
    }
}

} // verus!
