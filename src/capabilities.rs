//! The runtime's method capabilities, and recognition of "unsupported method" errors.
use vstd::prelude::*;

use crate::text::{chars_of, contains, contains_chars, lower, lower_chars};
use crate::text_map::TextMap;

verus! {

/// The contract version the capability answers carry.
pub const RUNTIME_CONTRACT_VERSION: &'static str = "alicia.runtime.capabilities.v1";

/// The method that the native transport does not offer.
pub const DYNAMIC_TOOL_CALL_METHOD: &'static str = "tool.call.dynamic";

pub open spec fn runtime_method_keys() -> Seq<&'static str> {
    seq![
        "thread.open", "thread.close", "thread.list", "thread.read", "thread.archive", "thread.unarchive",
        "thread.compact.start", "thread.rollback", "thread.fork", "turn.run", "review.start", "turn.steer",
        "turn.interrupt", "approval.respond", "user_input.respond", "tool.call.dynamic", "mcp.warmup",
        "mcp.list", "mcp.login", "mcp.reload", "app.list", "account.read", "account.login.start",
        "account.logout", "account.rate_limits.read", "account.rateLimits.read", "config.get", "config.set",
    ]
}

pub open spec fn is_method_key(k: Seq<char>) -> bool {
    exists|i: int| 0 <= i < runtime_method_keys().len() && (#[trigger] runtime_method_keys()[i])@ == k
}

/// Every known method, enabled but for the dynamic tool call.
pub fn default_runtime_capabilities() -> (r: TextMap<bool>)
    ensures
        r.wf(),
        forall|k: Seq<char>| #[trigger] r@.contains_key(k) <==> is_method_key(k),
        forall|k: Seq<char>| #[trigger] r@.contains_key(k) ==> r@[k] == (k != DYNAMIC_TOOL_CALL_METHOD@),
{
    let keys: [&str; 28] = [
        "thread.open", "thread.close", "thread.list", "thread.read", "thread.archive", "thread.unarchive",
        "thread.compact.start", "thread.rollback", "thread.fork", "turn.run", "review.start", "turn.steer",
        "turn.interrupt", "approval.respond", "user_input.respond", "tool.call.dynamic", "mcp.warmup",
        "mcp.list", "mcp.login", "mcp.reload", "app.list", "account.read", "account.login.start",
        "account.logout", "account.rate_limits.read", "account.rateLimits.read", "config.get", "config.set",
    ];
    assert(keys@ =~= runtime_method_keys());
    let mut methods: TextMap<bool> = TextMap::new();
    let mut i: usize = 0;
    while i < 28
        invariant
            i <= 28,
            keys@ == runtime_method_keys(),
            methods.wf(),
            forall|k: Seq<char>| #[trigger] methods@.contains_key(k) <==> exists|j: int| 0 <= j < i && (#[trigger] keys@[j])@ == k,
            forall|k: Seq<char>| #[trigger] methods@.contains_key(k) ==> methods@[k] == true,
        decreases 28 - i,
    {
        let k = keys[i];
        methods.insert(k.to_owned(), true);
        proof {
            assert forall|x: Seq<char>| #[trigger] methods@.contains_key(x) <==> exists|j: int| 0 <= j < i + 1 && (#[trigger] keys@[j])@ == x by {
                if x == k@ {
                    assert(keys@[i as int]@ == x);
                }
            }
        }
        i = i + 1;
    }
    let ghost before = methods@;
    methods.insert(DYNAMIC_TOOL_CALL_METHOD.to_owned(), false);
    proof {
        assert(keys@[15]@ == DYNAMIC_TOOL_CALL_METHOD@);
        assert forall|k: Seq<char>| #[trigger] methods@.contains_key(k) <==> is_method_key(k) by {
            if k == DYNAMIC_TOOL_CALL_METHOD@ {
                assert(runtime_method_keys()[15]@ == k);
            }
        }
    }
    methods
}

/// Switches off what the native transport does not offer.
pub fn disable_methods_for_native_transport(methods: &mut TextMap<bool>)
    requires
        old(methods).wf(),
    ensures
        final(methods).wf(),
        final(methods)@ == old(methods)@.insert(DYNAMIC_TOOL_CALL_METHOD@, false),
{
    methods.insert(DYNAMIC_TOOL_CALL_METHOD.to_owned(), false);
}

pub open spec fn unsupported_message(error: Seq<char>) -> bool {
    contains(lower(error), "unsupported method"@) || contains(lower(error), "method not found"@)
}

/// Whether an error says that a method is not supported.
pub fn is_unsupported_method_message(error: &str) -> (r: bool)
    ensures
        r == unsupported_message(error@),
{
    let e = lower_chars(&chars_of(error));
    contains_chars(&e, &chars_of("unsupported method")) || contains_chars(&e, &chars_of("method not found"))
}

/// `s` with every `.` written as `/`.
pub open spec fn dots_to_slashes(s: Seq<char>) -> Seq<char> {
    s.map_values(|c: char| if c == '.' { '/' } else { c })
}

fn slash_form(v: &Vec<char>) -> (r: Vec<char>)
    ensures
        r@ == dots_to_slashes(v@),
{
    let mut r: Vec<char> = Vec::new();
    let mut i: usize = 0;
    while i < v.len()
        invariant
            i <= v@.len(),
            r@ == dots_to_slashes(v@.subrange(0, i as int)),
        decreases v.len() - i,
    {
        r.push(if v[i] == '.' { '/' } else { v[i] });
        i = i + 1;
        assert(r@ =~= dots_to_slashes(v@.subrange(0, i as int)));
    }
    assert(v@.subrange(0, i as int) =~= v@);
    r
}

pub open spec fn names_method(error: Seq<char>, method: Seq<char>) -> bool {
    contains(lower(error), lower(method)) || contains(lower(error), dots_to_slashes(lower(method)))
}

/// Whether an error says that one of `methods` (dotted or slashed) is not supported.
pub fn is_unsupported_method_error_for(error: &str, methods: &[&str]) -> (r: bool)
    ensures
        r == (unsupported_message(error@) && exists|i: int| 0 <= i < methods@.len() && names_method(error@, #[trigger] methods@[i]@)),
{
    if !is_unsupported_method_message(error) {
        return false;
    }
    let e = lower_chars(&chars_of(error));
    let mut i: usize = 0;
    while i < methods.len()
        invariant
            i <= methods@.len(),
            e@ == lower(error@),
            unsupported_message(error@),
            forall|j: int| 0 <= j < i ==> !names_method(error@, #[trigger] methods@[j]@),
        decreases methods.len() - i,
    {
        let m: &str = methods[i];
        assert(m@ == methods@[i as int]@);
        let dotted = lower_chars(&chars_of(m));
        let slashed = slash_form(&dotted);
        if contains_chars(&e, &dotted) || contains_chars(&e, &slashed) {
            assert(names_method(error@, methods@[i as int]@));
            return true;
        }
        i = i + 1;
    }
    false
}

} // verus!
