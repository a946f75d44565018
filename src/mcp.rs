//! MCP server listings: the response shapes, and the ids given to servers.
use vstd::prelude::*;

use crate::text::{chars_of, concat_chars, decimal, decimal_chars, is_alnum, is_ascii_alnum, lower_char, string_of, to_lower_char};
use crate::text_map::TextMap;
use crate::tool_name::{strip_chars, strip_end, strip_start};

verus! {

#[derive(Debug)]
pub struct McpStartupWarmupResponse {
    pub ready_servers: Vec<String>,
    pub total_ready: usize,
    pub elapsed_ms: u64,
}

#[derive(Debug)]
pub struct McpServerListEntry {
    pub id: String,
    pub name: String,
    pub transport: String,
    pub status: String,
    pub status_reason: Option<String>,
    pub auth_status: String,
    pub tools: Vec<String>,
    pub url: Option<String>,
}

#[derive(Debug)]
pub struct McpServerListResponse {
    pub data: Vec<McpServerListEntry>,
    pub total: usize,
    pub elapsed_ms: u64,
}

#[derive(Debug)]
pub struct McpLoginRequest {
    pub name: String,
    pub scopes: Vec<String>,
    pub timeout_secs: Option<u64>,
}

#[derive(Debug)]
pub struct McpLoginResponse {
    pub name: String,
    pub authorization_url: Option<String>,
    pub started: bool,
    pub elapsed_ms: u64,
}

#[derive(Debug)]
pub struct McpReloadResponse {
    pub reloaded: bool,
    pub elapsed_ms: u64,
}

/// Lower-cased alphanumerics, `-` and `_` kept, anything else written as `-`.
pub open spec fn id_char(c: char) -> char {
    if is_alnum(c) {
        lower_char(c)
    } else if c == '-' || c == '_' {
        c
    } else {
        '-'
    }
}

/// Runs of `-` written once.
pub open spec fn collapse_dashes(s: Seq<char>) -> Seq<char>
    decreases s.len(),
{
    if s.len() == 0 {
        s
    } else if s.last() == '-' && s.len() > 1 && s[s.len() - 2] == '-' {
        collapse_dashes(s.drop_last())
    } else {
        collapse_dashes(s.drop_last()).push(s.last())
    }
}

/// The id base of a server name; `server` where nothing is left.
pub open spec fn server_id_base(name: Seq<char>) -> Seq<char> {
    let c = strip_end(strip_start(collapse_dashes(name.map_values(|c: char| id_char(c))), '-'), '-');
    if c.len() == 0 {
        "server"@
    } else {
        c
    }
}

pub fn normalize_mcp_server_id_base(name: &str) -> (r: String)
    ensures
        r@ == server_id_base(name@),
{
    let v = chars_of(name);
    let mut mapped: Vec<char> = Vec::new();
    let mut i: usize = 0;
    while i < v.len()
        invariant
            i <= v@.len(),
            mapped@ == v@.subrange(0, i as int).map_values(|c: char| id_char(c)),
        decreases v.len() - i,
    {
        let c = v[i];
        let m = if is_ascii_alnum(c) {
            to_lower_char(c)
        } else if c == '-' || c == '_' {
            c
        } else {
            '-'
        };
        mapped.push(m);
        i = i + 1;
        assert(mapped@ =~= v@.subrange(0, i as int).map_values(|c: char| id_char(c)));
    }
    assert(v@.subrange(0, i as int) =~= v@);
    let mut compact: Vec<char> = Vec::new();
    let mut k: usize = 0;
    while k < mapped.len()
        invariant
            k <= mapped@.len(),
            compact@ == collapse_dashes(mapped@.subrange(0, k as int)),
        decreases mapped.len() - k,
    {
        proof {
            let p = mapped@.subrange(0, k + 1);
            assert(p.drop_last() =~= mapped@.subrange(0, k as int));
        }
        if !(mapped[k] == '-' && k > 0 && mapped[k - 1] == '-') {
            compact.push(mapped[k]);
        }
        k = k + 1;
    }
    assert(mapped@.subrange(0, k as int) =~= mapped@);
    let stripped = strip_chars(&compact, '-');
    if stripped.len() == 0 {
        "server".to_owned()
    } else {
        string_of(&stripped)
    }
}

/// `base` for its first use, then `base-2`, `base-3`, ...; `seen` counts the uses.
pub fn make_unique_mcp_server_id(base_id: &str, seen_ids: &mut TextMap<usize>) -> (r: String)
    requires
        old(seen_ids).wf(),
        old(seen_ids)@.contains_key(base_id@) ==> old(seen_ids)@[base_id@] < usize::MAX,
    ensures
        final(seen_ids).wf(),
        ({
            let count = if old(seen_ids)@.contains_key(base_id@) { old(seen_ids)@[base_id@] } else { 0 };
            &&& final(seen_ids)@ == old(seen_ids)@.insert(base_id@, (count + 1) as usize)
            &&& r@ == if count == 0 { base_id@ } else { base_id@ + seq!['-'] + decimal((count + 1) as nat) }
        }),
{
    let count: usize = match seen_ids.get(base_id) {
        Some(c) => *c,
        None => 0,
    };
    seen_ids.insert(base_id.to_owned(), count + 1);
    if count == 0 {
        base_id.to_owned()
    } else {
        let mut dash: Vec<char> = Vec::new();
        dash.push('-');
        let head = concat_chars(&chars_of(base_id), &dash);
        assert(dash@ =~= seq!['-']);
        string_of(&concat_chars(&head, &decimal_chars((count + 1) as u64)))
    }
}

} // verus!
