//! Normalisation of tool names and recognition of the collaborative tools.
use vstd::prelude::*;

use crate::text::{
    chars_eq, chars_of, concat_chars, ends_with, ends_with_chars, is_alnum, is_ascii_alnum,
    lower_char, slice_chars, starts_with, starts_with_chars, string_of, to_lower_char, trim,
    trim_chars,
};

verus! {

/// The collaborative sub-agent operations.
#[derive(Clone, Copy, Debug, PartialEq, Eq, Structural)]
pub enum CollabTool {
    SpawnAgent,
    SendInput,
    ResumeAgent,
    Wait,
    CloseAgent,
}

/// Lower-cased alphanumerics, with each run of other characters written as one `_`
/// (the `bool` says whether the text so far ends in such a run).
pub open spec fn key_fold(s: Seq<char>) -> (Seq<char>, bool)
    decreases s.len(),
{
    if s.len() == 0 {
        (Seq::empty(), false)
    } else {
        let (acc, sep) = key_fold(s.drop_last());
        let c = s.last();
        if is_alnum(c) {
            (acc.push(lower_char(c)), false)
        } else if !sep {
            (acc.push('_'), true)
        } else {
            (acc, true)
        }
    }
}

pub open spec fn strip_start(s: Seq<char>, c: char) -> Seq<char>
    decreases s.len(),
{
    if s.len() > 0 && s[0] == c {
        strip_start(s.drop_first(), c)
    } else {
        s
    }
}

pub open spec fn strip_end(s: Seq<char>, c: char) -> Seq<char>
    decreases s.len(),
{
    if s.len() > 0 && s.last() == c {
        strip_end(s.drop_last(), c)
    } else {
        s
    }
}

/// The normalised key of a tool name: trimmed, lower-cased, runs of other characters
/// collapsed to `_`, and no `_` at either end.
pub open spec fn tool_key(raw: Seq<char>) -> Seq<char> {
    strip_end(strip_start(key_fold(trim(raw)).0, '_'), '_')
}

pub open spec fn alias_match(name: Seq<char>, alias: Seq<char>) -> bool {
    name == alias || ends_with(name, seq!['_'] + alias)
}

pub open spec fn matches_any(name: Seq<char>, aliases: Seq<&str>) -> bool {
    exists|i: int| 0 <= i < aliases.len() && alias_match(name, aliases[i]@)
}

/// The key with an optional `collab_` prefix removed.
pub open spec fn canonical_key(key: Seq<char>) -> Seq<char> {
    if starts_with(key, "collab_"@) {
        key.subrange(7, key.len() as int)
    } else {
        key
    }
}

pub open spec fn collab_tool_of_key(k: Seq<char>) -> Option<CollabTool> {
    if matches_any(k, seq!["spawn_agent", "spawnagent"]) {
        Some(CollabTool::SpawnAgent)
    } else if matches_any(k, seq!["send_input", "sendinput"]) {
        Some(CollabTool::SendInput)
    } else if matches_any(k, seq!["resume_agent", "resumeagent"]) {
        Some(CollabTool::ResumeAgent)
    } else if matches_any(k, seq!["wait", "wait_agents", "wait_agent"]) {
        Some(CollabTool::Wait)
    } else if matches_any(k, seq!["close_agent", "closeagent"]) {
        Some(CollabTool::CloseAgent)
    } else {
        None
    }
}

/// Which collaborative tool a raw tool name denotes, if any.
pub open spec fn collab_tool_of(raw: Seq<char>) -> Option<CollabTool> {
    collab_tool_of_key(canonical_key(tool_key(raw)))
}

proof fn lemma_strip_start_skip(s: Seq<char>, c: char, i: int)
    requires
        0 <= i < s.len(),
        s[i] == c,
    ensures
        strip_start(s.subrange(i, s.len() as int), c) == strip_start(
            s.subrange(i + 1, s.len() as int),
            c,
        ),
{
    assert(s.subrange(i, s.len() as int).drop_first() =~= s.subrange(i + 1, s.len() as int));
}

proof fn lemma_strip_end_skip(s: Seq<char>, c: char, j: int)
    requires
        0 < j <= s.len(),
        s[j - 1] == c,
    ensures
        strip_end(s.subrange(0, j), c) == strip_end(s.subrange(0, j - 1), c),
{
    assert(s.subrange(0, j).drop_last() =~= s.subrange(0, j - 1));
}

/// `v` without leading and trailing copies of `c`.
pub fn strip_chars(v: &Vec<char>, c: char) -> (r: Vec<char>)
    ensures
        r@ == strip_end(strip_start(v@, c), c),
{
    let n = v.len();
    let mut i: usize = 0;
    assert(v@.subrange(0, n as int) =~= v@);
    while i < n && v[i] == c
        invariant
            i <= n == v.len(),
            strip_start(v@, c) == strip_start(v@.subrange(i as int, n as int), c),
        decreases n - i,
    {
        proof {
            lemma_strip_start_skip(v@, c, i as int);
        }
        i = i + 1;
    }
    proof {
        let t = v@.subrange(i as int, n as int);
        if t.len() > 0 {
            assert(t[0] == v@[i as int]);
        }
        assert(strip_start(v@, c) == t);
    }
    let mut j: usize = n;
    while j > i && v[j - 1] == c
        invariant
            i <= j <= n == v.len(),
            strip_end(strip_start(v@, c), c) == strip_end(v@.subrange(i as int, j as int), c),
        decreases j - i,
    {
        proof {
            let t = v@.subrange(i as int, n as int);
            lemma_strip_end_skip(t, c, (j - i) as int);
            assert(t.subrange(0, (j - i) as int) =~= v@.subrange(i as int, j as int));
            assert(t.subrange(0, (j - i - 1) as int) =~= v@.subrange(i as int, j - 1));
        }
        j = j - 1;
    }
    proof {
        let t = v@.subrange(i as int, j as int);
        if t.len() > 0 {
            assert(t.last() == v@[j - 1]);
        }
    }
    slice_chars(v, i, j)
}

fn tool_key_chars(raw: &str) -> (r: Vec<char>)
    ensures
        r@ == tool_key(raw@),
{
    let t = trim_chars(&chars_of(raw));
    let mut acc: Vec<char> = Vec::new();
    let mut sep = false;
    let mut i: usize = 0;
    while i < t.len()
        invariant
            i <= t.len(),
            (acc@, sep) == key_fold(t@.subrange(0, i as int)),
        decreases t.len() - i,
    {
        let ch = t[i];
        proof {
            assert(t@.subrange(0, i + 1).drop_last() =~= t@.subrange(0, i as int));
        }
        if is_ascii_alnum(ch) {
            acc.push(to_lower_char(ch));
            sep = false;
        } else if !sep {
            acc.push('_');
            sep = true;
        }
        i = i + 1;
    }
    assert(t@.subrange(0, i as int) =~= t@);
    strip_chars(&acc, '_')
}

/// The normalised key of a tool name (see `tool_key`).
pub fn normalize_tool_name_key(raw: &str) -> (r: String)
    ensures
        r@ == tool_key(raw@),
{
    string_of(&tool_key_chars(raw))
}

/// Whether the normalised name is one of `aliases`, or ends in `_` followed by one of them.
pub fn matches_collab_tool_alias(normalized_tool_name: &str, aliases: &[&str]) -> (r: bool)
    ensures
        r == matches_any(normalized_tool_name@, aliases@),
{
    let name = chars_of(normalized_tool_name);
    let mut i: usize = 0;
    while i < aliases.len()
        invariant
            i <= aliases@.len(),
            name@ == normalized_tool_name@,
            forall|j: int| 0 <= j < i ==> !alias_match(normalized_tool_name@, #[trigger] aliases@[j]@),
        decreases aliases.len() - i,
    {
        let a: &str = aliases[i];
        assert(a@ == aliases@[i as int]@);
        let alias = chars_of(a);
        if chars_eq(&name, a) {
            assert(alias_match(normalized_tool_name@, aliases@[i as int]@));
            return true;
        }
        let mut underscore: Vec<char> = Vec::new();
        underscore.push('_');
        let suffix = concat_chars(&underscore, &alias);
        assert(underscore@ =~= seq!['_']);
        if ends_with_chars(&name, &suffix) {
            assert(alias_match(normalized_tool_name@, aliases@[i as int]@));
            return true;
        }
        i = i + 1;
    }
    false
}

/// Which collaborative tool a raw tool name denotes: the name is normalised, an optional
/// `collab_` prefix is dropped, and the rest is matched against each tool's aliases.
pub fn normalize_collab_tool_name(tool_name: &str) -> (r: Option<CollabTool>)
    ensures
        r == collab_tool_of(tool_name@),
{
    let key = tool_key_chars(tool_name);
    let prefix = chars_of("collab_");
    proof {
        reveal_strlit("collab_");
    }
    let canonical_chars = if starts_with_chars(&key, &prefix) {
        slice_chars(&key, 7, key.len())
    } else {
        slice_chars(&key, 0, key.len())
    };
    assert(key@.subrange(0, key@.len() as int) =~= key@);
    let canonical = string_of(&canonical_chars);
    let c = canonical.as_str();
    let spawn: [&str; 2] = ["spawn_agent", "spawnagent"];
    let send: [&str; 2] = ["send_input", "sendinput"];
    let resume: [&str; 2] = ["resume_agent", "resumeagent"];
    let wait: [&str; 3] = ["wait", "wait_agents", "wait_agent"];
    let close: [&str; 2] = ["close_agent", "closeagent"];
    assert(spawn@ =~= seq!["spawn_agent", "spawnagent"]);
    assert(send@ =~= seq!["send_input", "sendinput"]);
    assert(resume@ =~= seq!["resume_agent", "resumeagent"]);
    assert(wait@ =~= seq!["wait", "wait_agents", "wait_agent"]);
    assert(close@ =~= seq!["close_agent", "closeagent"]);
    if matches_collab_tool_alias(c, spawn.as_slice()) {
        Some(CollabTool::SpawnAgent)
    } else if matches_collab_tool_alias(c, send.as_slice()) {
        Some(CollabTool::SendInput)
    } else if matches_collab_tool_alias(c, resume.as_slice()) {
        Some(CollabTool::ResumeAgent)
    } else if matches_collab_tool_alias(c, wait.as_slice()) {
        Some(CollabTool::Wait)
    } else if matches_collab_tool_alias(c, close.as_slice()) {
        Some(CollabTool::CloseAgent)
    } else {
        None
    }
}

impl CollabTool {
    /// The tool's canonical name on the wire.
    pub fn name(&self) -> (r: String)
        ensures
            r@ == self.spec_name(),
    {
        match self {
            CollabTool::SpawnAgent => "spawn_agent".to_owned(),
            CollabTool::SendInput => "send_input".to_owned(),
            CollabTool::ResumeAgent => "resume_agent".to_owned(),
            CollabTool::Wait => "wait".to_owned(),
            CollabTool::CloseAgent => "close_agent".to_owned(),
        }
    }

    pub open spec fn spec_name(&self) -> Seq<char> {
        match self {
            CollabTool::SpawnAgent => "spawn_agent"@,
            CollabTool::SendInput => "send_input"@,
            CollabTool::ResumeAgent => "resume_agent"@,
            CollabTool::Wait => "wait"@,
            CollabTool::CloseAgent => "close_agent"@,
        }
    }
}

} // verus!
