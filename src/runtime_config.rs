//! Small parsers for runtime settings: flags, numbers, lists, model and profile overrides,
//! session-source filters and slash commands.
use vstd::prelude::*;

use crate::order::views;
use crate::respond::{normalize_entries, trimmed_entries};
use crate::text::{chars_of, ends_with, ends_with_chars, concat_str, is_alnum, is_ascii_alnum, is_whitespace, is_ws, lower, lower_str, slice_chars, starts_with, starts_with_chars, str_eq, string_of, trim, trim_chars, trim_str};

verus! {

pub open spec fn env_bool(raw: Seq<char>) -> Option<bool> {
    let k = lower(trim(raw));
    if k == "1"@ || k == "true"@ || k == "yes"@ || k == "y"@ || k == "on"@ {
        Some(true)
    } else if k == "0"@ || k == "false"@ || k == "no"@ || k == "n"@ || k == "off"@ {
        Some(false)
    } else {
        None
    }
}

/// Reads a boolean setting: `1`, `true`, `yes`, `y`, `on` and `0`, `false`, `no`, `n`, `off`,
/// in any case and with surrounding whitespace.
pub fn parse_env_bool(raw: &str) -> (r: Option<bool>)
    ensures
        r == env_bool(raw@),
{
    let k = lower_str(trim_str(raw).as_str());
    let s = k.as_str();
    if str_eq(s, "1") || str_eq(s, "true") || str_eq(s, "yes") || str_eq(s, "y") || str_eq(s, "on") {
        Some(true)
    } else if str_eq(s, "0") || str_eq(s, "false") || str_eq(s, "no") || str_eq(s, "n") || str_eq(s, "off") {
        Some(false)
    } else {
        None
    }
}

pub open spec fn is_digit(c: char) -> bool {
    '0' <= c && c <= '9'
}

/// The value of a string of decimal digits.
pub open spec fn digits_value(s: Seq<char>) -> nat
    decreases s.len(),
{
    if s.len() == 0 {
        0
    } else {
        digits_value(s.drop_last()) * 10 + ((s.last() as u32) - ('0' as u32)) as nat
    }
}

/// The digits of an unsigned number as `u64::from_str` reads them: an optional `+`, then one
/// or more digits.
pub open spec fn number_digits(s: Seq<char>) -> Option<Seq<char>> {
    let d = unsigned_part(s);
    if d.len() > 0 && all_digits(d) {
        Some(d)
    } else {
        None
    }
}

/// The text after an optional leading `+`.
pub open spec fn unsigned_part(s: Seq<char>) -> Seq<char> {
    if s.len() > 0 && s[0] == '+' {
        s.drop_first()
    } else {
        s
    }
}

pub open spec fn all_digits(d: Seq<char>) -> bool {
    forall|i: int| 0 <= i < d.len() ==> is_digit(#[trigger] d[i])
}

pub open spec fn env_u64(raw: Seq<char>) -> Option<u64> {
    match number_digits(trim(raw)) {
        Some(d) => if digits_value(d) <= u64::MAX { Some(digits_value(d) as u64) } else { None },
        None => None,
    }
}

/// Reads an unsigned number setting, with surrounding whitespace; `None` where the text is
/// no number or does not fit.
pub fn parse_env_u64(raw: &str) -> (r: Option<u64>)
    ensures
        r == env_u64(raw@),
{
    let t = trim_chars(&chars_of(raw));
    let start: usize = if t.len() > 0 && t[0] == '+' { 1 } else { 0 };
    let d = slice_chars(&t, start, t.len());
    proof {
        if start == 1 {
            assert(d@ =~= t@.drop_first());
        } else {
            assert(d@ =~= t@);
        }
    }
    if d.len() == 0 {
        return None;
    }
    let mut value: u64 = 0;
    let mut i: usize = 0;
    while i < d.len()
        invariant
            i <= d@.len(),
            d@.len() > 0,
            t@ == trim(raw@),
            d@ == unsigned_part(t@),
            forall|j: int| 0 <= j < i ==> is_digit(#[trigger] d@[j]),
            value as nat == digits_value(d@.subrange(0, i as int)),
        decreases d.len() - i,
    {
        let c = d[i];
        if !('0' <= c && c <= '9') {
            assert(!is_digit(d@[i as int]));
            assert(!all_digits(d@));
            return None;
        }
        proof {
            assert(d@.subrange(0, i + 1).drop_last() =~= d@.subrange(0, i as int));
        }
        let digit = (c as u32 - '0' as u32) as u64;
        if value > (u64::MAX - digit) / 10 {
            proof {
                lemma_digits_mono(d@, i as int + 1, d@.len() as int);
                assert(d@.subrange(0, d@.len() as int) =~= d@);
                assert(digits_value(d@.subrange(0, i + 1)) > u64::MAX) by (nonlinear_arith)
                    requires
                        digits_value(d@.subrange(0, i + 1)) == value as nat * 10 + digit as nat,
                        value > (u64::MAX - digit) / 10,
                        digit <= 9,
                ;
                assert(digits_value(d@) > u64::MAX);
            }
            return None;
        }
        value = value * 10 + digit;
        i = i + 1;
    }
    assert(d@.subrange(0, i as int) =~= d@);
    Some(value)
}

proof fn lemma_digits_mono(d: Seq<char>, n: int, m: int)
    requires
        0 <= n <= m <= d.len(),
    ensures
        digits_value(d.subrange(0, m)) >= digits_value(d.subrange(0, n)),
    decreases m - n,
{
    if m > n {
        lemma_digits_mono(d, n, m - 1);
        assert(d.subrange(0, m).drop_last() =~= d.subrange(0, m - 1));
    }
}

/// The fields of a comma-separated text, the last one still open.
pub open spec fn csv_state(s: Seq<char>) -> (Seq<Seq<char>>, Seq<char>)
    decreases s.len(),
{
    if s.len() == 0 {
        (Seq::empty(), Seq::empty())
    } else {
        let (done, cur) = csv_state(s.drop_last());
        if s.last() == ',' {
            (done.push(cur), Seq::empty())
        } else {
            (done, cur.push(s.last()))
        }
    }
}

/// The fields of a comma-separated text.
pub open spec fn csv_fields(s: Seq<char>) -> Seq<Seq<char>> {
    csv_state(s).0.push(csv_state(s).1)
}

/// The comma-separated entries of `raw`, trimmed, blank ones dropped.
pub fn parse_csv(raw: &str) -> (r: Vec<String>)
    ensures
        views(r@) == trimmed_entries(csv_fields(raw@)),
{
    let v = chars_of(raw);
    let mut fields: Vec<String> = Vec::new();
    let mut cur: Vec<char> = Vec::new();
    let mut i: usize = 0;
    while i < v.len()
        invariant
            i <= v@.len(),
            (views(fields@), cur@) == csv_state(v@.subrange(0, i as int)),
        decreases v.len() - i,
    {
        proof {
            assert(v@.subrange(0, i + 1).drop_last() =~= v@.subrange(0, i as int));
        }
        if v[i] == ',' {
            let ghost before = views(fields@);
            fields.push(string_of(&cur));
            assert(views(fields@) =~= before.push(cur@));
            cur = Vec::new();
        } else {
            cur.push(v[i]);
        }
        i = i + 1;
        proof {
            assert(cur@ =~= csv_state(v@.subrange(0, i as int)).1);
        }
    }
    assert(v@.subrange(0, i as int) =~= v@);
    let ghost before = views(fields@);
    fields.push(string_of(&cur));
    assert(views(fields@) =~= before.push(cur@));
    normalize_entries(&fields)
}

pub open spec fn model_override(model: Seq<char>) -> Option<Seq<char>> {
    let t = trim(model);
    if t.len() == 0 || lower(t) == "default"@ {
        None
    } else {
        Some(t)
    }
}

/// The model a turn asks for: none where the setting is blank or `default` (in any case).
pub fn runtime_model_override(model: &str) -> (r: Option<String>)
    ensures
        r.is_some() == model_override(model@).is_some(),
        r.is_some() ==> r.unwrap()@ == model_override(model@).unwrap(),
{
    let t = trim_str(model);
    if t.as_str().is_empty() || str_eq(lower_str(t.as_str()).as_str(), "default") {
        None
    } else {
        Some(t)
    }
}

/// The profile that stands for the library's own settings.
pub const ALICIA_NATIVE_INTERNAL_PROFILE: &'static str = "__alicia_native_internal";

pub open spec fn is_permission_profile(k: Seq<char>) -> bool {
    k == "read_only"@ || k == "read-only"@ || k == "read_write_with_approval"@ || k == "read-write-with-approval"@
        || k == "full_access"@ || k == "full-access"@
}

pub open spec fn profile_override(profile: Seq<char>) -> Option<Seq<char>> {
    let t = trim(profile);
    if t.len() == 0 || is_permission_profile(lower(t)) {
        None
    } else {
        Some(t)
    }
}

/// The configuration profile a turn asks for: none where the setting is blank or names one
/// of the permission presets.
pub fn runtime_profile_override(profile: &str) -> (r: Option<String>)
    ensures
        r.is_some() == profile_override(profile@).is_some(),
        r.is_some() ==> r.unwrap()@ == profile_override(profile@).unwrap(),
{
    let t = trim_str(profile);
    if t.as_str().is_empty() {
        return None;
    }
    let l = lower_str(t.as_str());
    let k = l.as_str();
    if str_eq(k, "read_only") || str_eq(k, "read-only") || str_eq(k, "read_write_with_approval")
        || str_eq(k, "read-write-with-approval") || str_eq(k, "full_access") || str_eq(k, "full-access") {
        return None;
    }
    Some(t)
}

/// The profile a turn runs with: the requested one, else the internal profile.
pub fn runtime_profile_or_internal(profile: &str) -> (r: String)
    ensures
        r@ == match profile_override(profile@) {
            Some(p) => p,
            None => ALICIA_NATIVE_INTERNAL_PROFILE@,
        },
{
    match runtime_profile_override(profile) {
        Some(p) => p,
        None => ALICIA_NATIVE_INTERNAL_PROFILE.to_owned(),
    }
}

/// Provider filters trimmed, blank ones dropped; no filter where none is left.
pub fn normalize_model_provider_filters(model_providers: Option<Vec<String>>) -> (r: Option<Vec<String>>)
    ensures
        match model_providers {
            None => r.is_none(),
            Some(v) => if trimmed_entries(views(v@)).len() == 0 {
                r.is_none()
            } else {
                r.is_some() && views(r.unwrap()@) == trimmed_entries(views(v@))
            },
        },
{
    match model_providers {
        None => None,
        Some(v) => {
            let n = normalize_entries(&v);
            if n.len() == 0 {
                None
            } else {
                Some(n)
            }
        },
    }
}

/// The lower-cased alphanumerics of a trimmed text.
pub open spec fn source_key(s: Seq<char>) -> Seq<char> {
    alnum_only(lower(trim(s)))
}

/// The alphanumeric characters of `s`, in order.
pub open spec fn alnum_only(s: Seq<char>) -> Seq<char>
    decreases s.len(),
{
    if s.len() == 0 {
        s
    } else if is_alnum(s.last()) {
        alnum_only(s.drop_last()).push(s.last())
    } else {
        alnum_only(s.drop_last())
    }
}

pub fn normalize_source_kind_key(value: &str) -> (r: String)
    ensures
        r@ == source_key(value@),
{
    let l = chars_of(lower_str(trim_str(value).as_str()).as_str());
    let mut out: Vec<char> = Vec::new();
    let mut i: usize = 0;
    while i < l.len()
        invariant
            i <= l@.len(),
            out@ == alnum_only(l@.subrange(0, i as int)),
        decreases l.len() - i,
    {
        proof {
            let p = l@.subrange(0, i + 1);
            assert(p.drop_last() =~= l@.subrange(0, i as int));
        }
        if is_ascii_alnum(l[i]) {
            out.push(l[i]);
        }
        i = i + 1;
    }
    assert(l@.subrange(0, i as int) =~= l@);
    string_of(&out)
}

/// Whether a session source (as its key) passes one source filter.
pub open spec fn source_matches(key: Seq<char>, kind: Seq<char>) -> bool {
    if kind == "cli"@ {
        key == "cli"@
    } else if kind == "vscode"@ {
        key == "vscode"@
    } else if kind == "exec"@ {
        key == "exec"@
    } else if kind == "appserver"@ || kind == "mcp"@ {
        key == "mcp"@
    } else if kind == "subagent"@ {
        starts_with(key, "subagent"@)
    } else if kind == "subagentreview"@ {
        key == "subagentreview"@
    } else if kind == "subagentcompact"@ {
        key == "subagentcompact"@
    } else if kind == "subagentthreadspawn"@ {
        starts_with(key, "subagentthreadspawn"@)
    } else if kind == "subagentother"@ {
        starts_with(key, "subagent"@) && key != "subagentreview"@ && key != "subagentcompact"@
            && !starts_with(key, "subagentthreadspawn"@)
    } else if kind == "unknown"@ {
        key == "unknown"@
    } else {
        false
    }
}

fn source_matches_exec(key: &str, kind: &str) -> (r: bool)
    ensures
        r == source_matches(key@, kind@),
{
    let kc = chars_of(key);
    let sub = chars_of("subagent");
    let spawn = chars_of("subagentthreadspawn");
    if str_eq(kind, "cli") {
        str_eq(key, "cli")
    } else if str_eq(kind, "vscode") {
        str_eq(key, "vscode")
    } else if str_eq(kind, "exec") {
        str_eq(key, "exec")
    } else if str_eq(kind, "appserver") || str_eq(kind, "mcp") {
        str_eq(key, "mcp")
    } else if str_eq(kind, "subagent") {
        starts_with_chars(&kc, &sub)
    } else if str_eq(kind, "subagentreview") {
        str_eq(key, "subagentreview")
    } else if str_eq(kind, "subagentcompact") {
        str_eq(key, "subagentcompact")
    } else if str_eq(kind, "subagentthreadspawn") {
        starts_with_chars(&kc, &spawn)
    } else if str_eq(kind, "subagentother") {
        starts_with_chars(&kc, &sub) && !str_eq(key, "subagentreview") && !str_eq(key, "subagentcompact")
            && !starts_with_chars(&kc, &spawn)
    } else if str_eq(kind, "unknown") {
        str_eq(key, "unknown")
    } else {
        false
    }
}

/// Whether a thread's session source passes any of the (normalised) source filters.
pub fn native_source_kind_matches_filter(source: &str, source_filters: &Vec<String>) -> (r: bool)
    ensures
        r == exists|i: int| 0 <= i < source_filters@.len() && source_matches(source_key(source@), #[trigger] source_filters@[i]@),
{
    let key = normalize_source_kind_key(source);
    let mut i: usize = 0;
    while i < source_filters.len()
        invariant
            i <= source_filters@.len(),
            key@ == source_key(source@),
            forall|j: int| 0 <= j < i ==> !source_matches(key@, #[trigger] source_filters@[j]@),
        decreases source_filters.len() - i,
    {
        if source_matches_exec(key.as_str(), source_filters[i].as_str()) {
            return true;
        }
        i = i + 1;
    }
    false
}

/// The length of the leading run of non-whitespace characters.
pub open spec fn word_end(t: Seq<char>) -> nat
    decreases t.len(),
{
    if t.len() == 0 || is_ws(t[0]) {
        0
    } else {
        1 + word_end(t.drop_first())
    }
}

/// A prompt that starts with `/`: the command word and the trimmed rest.
pub open spec fn slash_command(prompt: Seq<char>) -> Option<(Seq<char>, Seq<char>)> {
    let t = trim(prompt);
    if t.len() > 0 && t[0] == '/' {
        Some((t.subrange(0, word_end(t) as int), trim(t.subrange(word_end(t) as int, t.len() as int))))
    } else {
        None
    }
}

pub fn parse_slash_command(prompt: &str) -> (r: Option<(String, String)>)
    ensures
        r.is_some() == slash_command(prompt@).is_some(),
        r.is_some() ==> r.unwrap().0@ == slash_command(prompt@).unwrap().0 && r.unwrap().1@ == slash_command(prompt@).unwrap().1,
{
    let t = trim_chars(&chars_of(prompt));
    if t.len() == 0 || t[0] != '/' {
        return None;
    }
    let mut w: usize = 0;
    assert(t@.skip(0) =~= t@);
    while w < t.len() && !is_whitespace(t[w])
        invariant
            w <= t@.len(),
            word_end(t@) == w + word_end(t@.skip(w as int)),
        decreases t.len() - w,
    {
        proof {
            assert(t@.skip(w as int).drop_first() =~= t@.skip(w + 1));
            assert(t@.skip(w as int)[0] == t@[w as int]);
        }
        w = w + 1;
    }
    proof {
        if w < t@.len() {
            assert(t@.skip(w as int)[0] == t@[w as int]);
        }
        assert(word_end(t@.skip(w as int)) == 0);
    }
    let command = string_of(&slice_chars(&t, 0, w));
    let rest = string_of(&slice_chars(&t, w, t.len()));
    Some((command, trim_str(rest.as_str())))
}

/// The message for a slash command the runtime does not offer.
pub fn unsupported_slash_command_message(command: &str) -> (r: String)
    ensures
        r@ == "slash command `"@ + (if trim(command@).len() == 0 { "/"@ } else { trim(command@) })
            + "` is not available in the current runtime. Supported command: /status"@,
{
    let t = trim_str(command);
    let shown = if t.as_str().is_empty() { "/".to_owned() } else { t };
    concat_str(
        concat_str("slash command `", shown.as_str()).as_str(),
        "` is not available in the current runtime. Supported command: /status",
    )
}

/// Where a thread was started.
#[derive(Clone, Copy, Debug, PartialEq, Eq, Structural)]
pub enum SessionSource {
    Cli,
    VSCode,
    Unknown,
}

/// The non-blank source keys of the filters, in order.
pub open spec fn source_keys(v: Seq<Seq<char>>) -> Seq<Seq<char>>
    decreases v.len(),
{
    if v.len() == 0 {
        Seq::empty()
    } else {
        let rest = source_keys(v.drop_last());
        let k = source_key(v.last());
        if k.len() > 0 { rest.push(k) } else { rest }
    }
}

pub open spec fn is_listing_source(k: Seq<char>) -> bool {
    k == "cli"@ || k == "vscode"@
}

pub open spec fn source_of_key(k: Seq<char>) -> SessionSource {
    if k == "cli"@ { SessionSource::Cli } else { SessionSource::VSCode }
}

pub open spec fn filter_keys(source_kinds: Option<Vec<String>>) -> Seq<Seq<char>> {
    match source_kinds {
        Some(v) => source_keys(views(v@)),
        None => Seq::empty(),
    }
}

pub open spec fn has_other_source(keys: Seq<Seq<char>>) -> bool {
    exists|i: int| 0 <= i < keys.len() && !is_listing_source(#[trigger] keys[i])
}

/// The sources a thread listing asks the engine for, and the filter applied to what comes
/// back: by default the interactive sources and unknown ones, unfiltered; the engine is asked
/// for everything where a filter names a kind it cannot select itself.
pub fn parse_native_source_filters(source_kinds: Option<Vec<String>>) -> (r: (Vec<SessionSource>, Option<Vec<String>>))
    ensures
        filter_keys(source_kinds).len() == 0 ==> r.0@ == seq![SessionSource::Cli, SessionSource::VSCode, SessionSource::Unknown]
            && r.1.is_none(),
        filter_keys(source_kinds).len() > 0 ==> r.1.is_some() && views(r.1.unwrap()@) == filter_keys(source_kinds),
        filter_keys(source_kinds).len() > 0 && has_other_source(filter_keys(source_kinds)) ==> r.0@.len() == 0,
        filter_keys(source_kinds).len() > 0 && !has_other_source(filter_keys(source_kinds))
            ==> r.0@ == filter_keys(source_kinds).map_values(|k: Seq<char>| source_of_key(k)),
{
    let mut defaults: Vec<SessionSource> = Vec::new();
    defaults.push(SessionSource::Cli);
    defaults.push(SessionSource::VSCode);
    defaults.push(SessionSource::Unknown);
    assert(defaults@ =~= seq![SessionSource::Cli, SessionSource::VSCode, SessionSource::Unknown]);
    let v = match source_kinds {
        None => {
            return (defaults, None);
        },
        Some(v) => v,
    };
    let mut keys: Vec<String> = Vec::new();
    let mut i: usize = 0;
    assert(views(keys@) =~= source_keys(views(v@.subrange(0, 0))));
    while i < v.len()
        invariant
            i <= v@.len(),
            views(keys@) == source_keys(views(v@.subrange(0, i as int))),
        decreases v.len() - i,
    {
        proof {
            assert(views(v@.subrange(0, i + 1)).drop_last() =~= views(v@.subrange(0, i as int)));
            assert(views(v@.subrange(0, i + 1)).last() == v@[i as int]@);
        }
        let k = normalize_source_kind_key(v[i].as_str());
        if !k.as_str().is_empty() {
            keys.push(k);
        }
        i = i + 1;
        assert(views(keys@) =~= source_keys(views(v@.subrange(0, i as int))));
    }
    assert(v@.subrange(0, i as int) =~= v@);
    if keys.len() == 0 {
        return (defaults, None);
    }
    let ghost ks = views(keys@);
    assert(ks == filter_keys(source_kinds));
    let mut allowed: Vec<SessionSource> = Vec::new();
    let mut j: usize = 0;
    while j < keys.len()
        invariant
            j <= keys@.len(),
            ks == views(keys@),
            ks == source_keys(views(v@)),
            ks == filter_keys(source_kinds),
            ks.len() > 0,
            forall|x: int| 0 <= x < j ==> is_listing_source(#[trigger] ks[x]),
            allowed@ == ks.subrange(0, j as int).map_values(|k: Seq<char>| source_of_key(k)),
        decreases keys.len() - j,
    {
        let k = keys[j].as_str();
        if str_eq(k, "cli") {
            allowed.push(SessionSource::Cli);
        } else if str_eq(k, "vscode") {
            allowed.push(SessionSource::VSCode);
        } else {
            assert(!is_listing_source(ks[j as int]));
            assert(has_other_source(ks));
            return (Vec::new(), Some(keys));
        }
        j = j + 1;
        assert(allowed@ =~= ks.subrange(0, j as int).map_values(|k: Seq<char>| source_of_key(k)));
    }
    assert(ks.subrange(0, j as int) =~= ks);
    (allowed, Some(keys))
}

/// When the engine asks before running a command.
#[derive(Clone, Copy, Debug, PartialEq, Eq, Structural)]
pub enum AskForApproval {
    UnlessTrusted,
    OnFailure,
    OnRequest,
    Never,
}

pub open spec fn approval_policy_of(policy: Seq<char>) -> AskForApproval {
    let k = lower(trim(policy));
    if k == "untrusted"@ {
        AskForApproval::UnlessTrusted
    } else if k == "on-failure"@ {
        AskForApproval::OnFailure
    } else if k == "never"@ {
        AskForApproval::Never
    } else {
        AskForApproval::OnRequest
    }
}

/// The approval policy a setting names; anything else asks on request.
pub fn runtime_approval_policy(policy: &str) -> (r: AskForApproval)
    ensures
        r == approval_policy_of(policy@),
{
    let k = lower_str(trim_str(policy).as_str());
    if str_eq(k.as_str(), "untrusted") {
        AskForApproval::UnlessTrusted
    } else if str_eq(k.as_str(), "on-failure") {
        AskForApproval::OnFailure
    } else if str_eq(k.as_str(), "never") {
        AskForApproval::Never
    } else {
        AskForApproval::OnRequest
    }
}

/// How far the engine's commands may reach.
#[derive(Clone, Copy, Debug, PartialEq, Eq, Structural)]
pub enum SandboxMode {
    ReadOnly,
    WorkspaceWrite,
    DangerFullAccess,
}

pub open spec fn sandbox_mode_of(policy: Seq<char>) -> SandboxMode {
    let k = lower(trim(policy));
    if k == "danger-full-access"@ {
        SandboxMode::DangerFullAccess
    } else if k == "workspace-write"@ {
        SandboxMode::WorkspaceWrite
    } else {
        SandboxMode::ReadOnly
    }
}

/// The sandbox a setting names; anything else is read-only.
pub fn runtime_sandbox_mode(policy: &str) -> (r: SandboxMode)
    ensures
        r == sandbox_mode_of(policy@),
{
    let k = lower_str(trim_str(policy).as_str());
    if str_eq(k.as_str(), "danger-full-access") {
        SandboxMode::DangerFullAccess
    } else if str_eq(k.as_str(), "workspace-write") {
        SandboxMode::WorkspaceWrite
    } else {
        SandboxMode::ReadOnly
    }
}

#[derive(Clone, Copy, Debug, PartialEq, Eq, Structural)]
pub enum ReasoningEffort {
    NoReasoning,
    Minimal,
    Low,
    Medium,
    High,
    XHigh,
}

pub open spec fn reasoning_effort_of(effort: Seq<char>) -> Option<ReasoningEffort> {
    let k = lower(trim(effort));
    if k == "none"@ {
        Some(ReasoningEffort::NoReasoning)
    } else if k == "minimal"@ {
        Some(ReasoningEffort::Minimal)
    } else if k == "low"@ {
        Some(ReasoningEffort::Low)
    } else if k == "medium"@ {
        Some(ReasoningEffort::Medium)
    } else if k == "high"@ {
        Some(ReasoningEffort::High)
    } else if k == "xhigh"@ {
        Some(ReasoningEffort::XHigh)
    } else {
        None
    }
}

/// The reasoning effort a setting names, if any.
pub fn runtime_reasoning_effort(effort: &str) -> (r: Option<ReasoningEffort>)
    ensures
        r == reasoning_effort_of(effort@),
{
    let k = lower_str(trim_str(effort).as_str());
    let s = k.as_str();
    if str_eq(s, "none") {
        Some(ReasoningEffort::NoReasoning)
    } else if str_eq(s, "minimal") {
        Some(ReasoningEffort::Minimal)
    } else if str_eq(s, "low") {
        Some(ReasoningEffort::Low)
    } else if str_eq(s, "medium") {
        Some(ReasoningEffort::Medium)
    } else if str_eq(s, "high") {
        Some(ReasoningEffort::High)
    } else if str_eq(s, "xhigh") {
        Some(ReasoningEffort::XHigh)
    } else {
        None
    }
}

#[derive(Clone, Copy, Debug, PartialEq, Eq, Structural)]
pub enum WebSearchMode {
    Disabled,
    Cached,
    Live,
}

pub open spec fn web_search_mode_of(mode: Seq<char>) -> Option<WebSearchMode> {
    let k = lower(trim(mode));
    if k == "disabled"@ {
        Some(WebSearchMode::Disabled)
    } else if k == "cached"@ {
        Some(WebSearchMode::Cached)
    } else if k == "live"@ {
        Some(WebSearchMode::Live)
    } else {
        None
    }
}

/// The web search mode a setting names, if any.
pub fn runtime_web_search_mode(mode: &str) -> (r: Option<WebSearchMode>)
    ensures
        r == web_search_mode_of(mode@),
{
    let k = lower_str(trim_str(mode).as_str());
    if str_eq(k.as_str(), "disabled") {
        Some(WebSearchMode::Disabled)
    } else if str_eq(k.as_str(), "cached") {
        Some(WebSearchMode::Cached)
    } else if str_eq(k.as_str(), "live") {
        Some(WebSearchMode::Live)
    } else {
        None
    }
}

/// The order of a thread listing.
#[derive(Clone, Copy, Debug, PartialEq, Eq, Structural)]
pub enum ThreadSortKey {
    CreatedAt,
    UpdatedAt,
}

/// The listing order a request names: by creation unless it says `updated_at` (in any
/// spelling that reduces to `updatedat`); anything else is refused.
pub fn parse_native_thread_sort_key(sort_key: Option<String>) -> (r: Result<ThreadSortKey, String>)
    ensures
        match sort_key {
            None => r == Ok::<ThreadSortKey, String>(ThreadSortKey::CreatedAt),
            Some(k) => {
                let n = source_key(k@);
                if n.len() == 0 || n == "createdat"@ {
                    r == Ok::<ThreadSortKey, String>(ThreadSortKey::CreatedAt)
                } else if n == "updatedat"@ {
                    r == Ok::<ThreadSortKey, String>(ThreadSortKey::UpdatedAt)
                } else {
                    r is Err && r->Err_0@ == "sort_key must be one of: created_at, updated_at"@
                }
            },
        },
{
    let raw = match sort_key {
        None => {
            return Ok(ThreadSortKey::CreatedAt);
        },
        Some(k) => k,
    };
    let n = normalize_source_kind_key(raw.as_str());
    if n.as_str().is_empty() || str_eq(n.as_str(), "createdat") {
        return Ok(ThreadSortKey::CreatedAt);
    }
    if str_eq(n.as_str(), "updatedat") {
        return Ok(ThreadSortKey::UpdatedAt);
    }
    Err("sort_key must be one of: created_at, updated_at".to_owned())
}

/// `s` without trailing carriage returns and line feeds.
pub open spec fn strip_line_ends(s: Seq<char>) -> Seq<char>
    decreases s.len(),
{
    if s.len() > 0 && (s.last() == '\r' || s.last() == '\n') {
        strip_line_ends(s.drop_last())
    } else {
        s
    }
}

/// What a line of input typed into the session asks for.
#[derive(Debug, PartialEq, Eq)]
pub enum SendInputAction {
    /// The `/status` command.
    Status,
    /// Another slash command: the message that says it is not available.
    Unsupported(String),
    /// A turn with this prompt.
    Turn(String),
}

/// Reads a line of input: line ends are dropped, blank input is refused, `/status` (in any
/// case) asks for the status, another slash command is answered as unavailable, and anything
/// else is a turn's prompt.
pub fn prepare_send_input(text: &str) -> (r: Result<SendInputAction, String>)
    ensures
        ({
            let prompt = strip_line_ends(text@);
            if trim(prompt).len() == 0 {
                r is Err && r->Err_0@ == "cannot send empty input"@
            } else {
                match slash_command(prompt) {
                    Some((command, _)) => if lower(command) == "/status"@ {
                        r == Ok::<SendInputAction, String>(SendInputAction::Status)
                    } else {
                        r matches Ok(SendInputAction::Unsupported(m)) && m@ == "slash command `"@
                            + (if trim(command).len() == 0 { "/"@ } else { trim(command) })
                            + "` is not available in the current runtime. Supported command: /status"@
                    },
                    None => r matches Ok(SendInputAction::Turn(p)) && p@ == prompt,
                }
            }
        }),
{
    let v = chars_of(text);
    let mut n: usize = v.len();
    assert(v@.subrange(0, n as int) =~= v@);
    while n > 0 && (v[n - 1] == '\r' || v[n - 1] == '\n')
        invariant
            n <= v@.len(),
            strip_line_ends(v@) == strip_line_ends(v@.subrange(0, n as int)),
        decreases n,
    {
        proof {
            assert(v@.subrange(0, n as int).drop_last() =~= v@.subrange(0, n - 1));
        }
        n = n - 1;
    }
    proof {
        let t = v@.subrange(0, n as int);
        if t.len() > 0 {
            assert(t.last() == v@[n - 1]);
        }
    }
    let prompt = string_of(&slice_chars(&v, 0, n));
    if trim_str(prompt.as_str()).as_str().is_empty() {
        return Err("cannot send empty input".to_owned());
    }
    match parse_slash_command(prompt.as_str()) {
        Some((command, _args)) => {
            if str_eq(lower_str(command.as_str()).as_str(), "/status") {
                Ok(SendInputAction::Status)
            } else {
                Ok(SendInputAction::Unsupported(unsupported_slash_command_message(command.as_str())))
            }
        },
        None => Ok(SendInputAction::Turn(prompt)),
    }
}

/// The program a launch really runs: the command behind `cmd /c`, or a script given as the
/// first argument, else the program itself.
pub open spec fn launched_binary(program: Seq<char>, args: Seq<String>) -> Seq<char> {
    if lower(program) == "cmd"@ && args.len() >= 2 && lower(args[0]@) == "/c"@ {
        args[1]@
    } else if args.len() >= 1 && (ends_with(lower(args[0]@), ".js"@) || ends_with(lower(args[0]@), ".mjs"@)
        || ends_with(lower(args[0]@), ".cjs"@)) {
        args[0]@
    } else {
        program
    }
}

pub fn binary_for_launch(program: &str, args: &Vec<String>) -> (r: String)
    ensures
        r@ == launched_binary(program@, args@),
{
    if str_eq(lower_str(program).as_str(), "cmd") && args.len() >= 2 && str_eq(lower_str(args[0].as_str()).as_str(), "/c") {
        return args[1].clone();
    }
    if args.len() >= 1 {
        let lowered = chars_of(lower_str(args[0].as_str()).as_str());
        if ends_with_chars(&lowered, &chars_of(".js")) || ends_with_chars(&lowered, &chars_of(".mjs"))
            || ends_with_chars(&lowered, &chars_of(".cjs")) {
            return args[0].clone();
        }
    }
    program.to_owned()
}

} // verus!
