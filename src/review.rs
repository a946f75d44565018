//! Admission of review requests: the review target and the delivery mode are checked before
//! the session is marked busy.
use vstd::prelude::*;

use crate::json::{field, Json};
use crate::session::{SessionError, SessionRegistry, ActiveSession, TurnTicket};
use crate::text::{chars_of, concat_chars, concat_str, decimal, decimal_chars, lower, lower_str, str_eq, string_of, trim, trim_str};

verus! {

pub open spec fn bad_path(v: Json) -> bool {
    match v {
        Json::Str(s) => trim(s@).len() == 0,
        _ => true,
    }
}

/// The first path entry at or after `i` that is not a non-blank string.
pub open spec fn first_bad_path(items: Seq<Json>, i: int) -> Option<int>
    decreases items.len() - i,
{
    if i < 0 || i >= items.len() {
        None
    } else if bad_path(items[i]) {
        Some(i)
    } else {
        first_bad_path(items, i + 1)
    }
}

pub open spec fn paths_msg() -> Seq<char> {
    "target.paths must be a non-empty array when target.type is `files`"@
}

pub open spec fn path_entry_msg(i: nat) -> Seq<char> {
    "target.paths["@ + decimal(i) + "] must be a non-empty string when target.type is `files`"@
}

pub open spec fn is_files_target(v: Json) -> bool {
    field(v, "type"@) matches Some(Json::Str(t)) && t@ == "files"@
}

/// The verdict on a review target: absent or any object passes, but a `files` target needs
/// a non-empty list of non-blank paths.
pub open spec fn review_target_check(target: Option<Json>) -> Result<(), Seq<char>> {
    match target {
        None => Ok(()),
        Some(v) => if !(v is Object) {
            Err("target must be a plain JSON object"@)
        } else if !is_files_target(v) {
            Ok(())
        } else {
            match field(v, "paths"@) {
                Some(Json::Array(items)) => if items@.len() == 0 {
                    Err(paths_msg())
                } else {
                    match first_bad_path(items@, 0) {
                        Some(i) => Err(path_entry_msg(i as nat)),
                        None => Ok(()),
                    }
                },
                _ => Err(paths_msg()),
            }
        },
    }
}

pub open spec fn opt_ref(t: Option<&Json>) -> Option<Json> {
    match t {
        Some(v) => Some(*v),
        None => None,
    }
}

pub fn validate_review_target(target: Option<&Json>) -> (r: Result<(), String>)
    ensures
        match review_target_check(opt_ref(target)) {
            Ok(()) => r is Ok,
            Err(m) => r is Err && r->Err_0@ == m,
        },
{
    let v = match target {
        None => {
            return Ok(());
        },
        Some(v) => v,
    };
    match v {
        Json::Object(_) => {},
        _ => {
            return Err("target must be a plain JSON object".to_owned());
        },
    }
    let files = match v.get("type") {
        Some(Json::Str(t)) => str_eq(t.as_str(), "files"),
        _ => false,
    };
    if !files {
        return Ok(());
    }
    let items = match v.get("paths") {
        Some(Json::Array(items)) => items,
        _ => {
            return Err("target.paths must be a non-empty array when target.type is `files`".to_owned());
        },
    };
    if items.len() == 0 {
        return Err("target.paths must be a non-empty array when target.type is `files`".to_owned());
    }
    let mut i: usize = 0;
    assert(review_target_check(opt_ref(target)) == match first_bad_path(items@, 0) {
        Some(k) => Err(path_entry_msg(k as nat)),
        None => Ok::<(), Seq<char>>(()),
    });
    while i < items.len()
        invariant
            i <= items@.len(),
            review_target_check(opt_ref(target)) == match first_bad_path(items@, 0) {
                Some(k) => Err(path_entry_msg(k as nat)),
                None => Ok::<(), Seq<char>>(()),
            },
            first_bad_path(items@, 0) == first_bad_path(items@, i as int),
        decreases items.len() - i,
    {
        let bad = match &items[i] {
            Json::Str(s) => trim_str(s.as_str()).as_str().is_empty(),
            _ => true,
        };
        if bad {
            assert(bad_path(items@[i as int]));
            assert(first_bad_path(items@, i as int) == Some(i as int));
            let head = concat_chars(&chars_of("target.paths["), &decimal_chars(i as u64));
            let msg = concat_chars(&head, &chars_of("] must be a non-empty string when target.type is `files`"));
            return Err(string_of(&msg));
        }
        i = i + 1;
    }
    Ok(())
}

/// The immediate answer to a review request.
#[derive(Debug, PartialEq, Eq)]
pub struct CodexReviewStartResponse {
    pub accepted: bool,
    pub session_id: u64,
    pub thread_id: Option<String>,
    pub review_thread_id: Option<String>,
}

#[derive(Debug, PartialEq, Eq)]
pub enum ReviewStartError {
    InvalidTarget(String),
    InvalidDelivery,
    Session(SessionError),
}

pub open spec fn delivery_ok(delivery: Option<String>) -> bool {
    match delivery {
        None => true,
        Some(d) => {
            let n = lower(trim(d@));
            n.len() == 0 || n == "inline"@ || n == "detached"@
        },
    }
}

/// Admits a review: the target must pass `validate_review_target`, the delivery must be
/// `inline` or `detached` (or absent), and the session must not be busy; then it is busy.
pub fn codex_review_start_impl(
    reg: &mut SessionRegistry,
    target: Option<&Json>,
    delivery: &Option<String>,
) -> (r: Result<(CodexReviewStartResponse, TurnTicket), ReviewStartError>)
    requires
        old(reg).wf(),
    ensures
        final(reg).wf(),
        r is Err ==> *final(reg) == *old(reg),
        review_target_check(opt_ref(target)) matches Err(m) ==> (r matches Err(ReviewStartError::InvalidTarget(x)) && x@ == m),
        review_target_check(opt_ref(target)) is Ok && !delivery_ok(*delivery)
            ==> r == Err::<(CodexReviewStartResponse, TurnTicket), ReviewStartError>(ReviewStartError::InvalidDelivery),
        review_target_check(opt_ref(target)) is Ok && delivery_ok(*delivery) ==> match old(reg).active {
            None => r == Err::<(CodexReviewStartResponse, TurnTicket), ReviewStartError>(ReviewStartError::Session(SessionError::NoActiveSession)),
            Some(a) => if a.busy {
                r == Err::<(CodexReviewStartResponse, TurnTicket), ReviewStartError>(ReviewStartError::Session(SessionError::Busy))
            } else {
                &&& r matches Ok((resp, t)) && resp.accepted && resp.session_id == a.session_id
                    && resp.thread_id == a.thread_id && resp.review_thread_id == a.thread_id
                    && t.session_id == a.session_id && t.thread_id == a.thread_id
                &&& final(reg).active == Some(ActiveSession { busy: true, ..a })
            },
        },
{
    match validate_review_target(target) {
        Ok(()) => {},
        Err(m) => {
            return Err(ReviewStartError::InvalidTarget(m));
        },
    }
    match delivery {
        Some(d) => {
            let n = lower_str(trim_str(d.as_str()).as_str());
            if !n.as_str().is_empty() && !str_eq(n.as_str(), "inline") && !str_eq(n.as_str(), "detached") {
                return Err(ReviewStartError::InvalidDelivery);
            }
        },
        None => {},
    }
    match reg.begin_turn() {
        Ok(t) => {
            let resp = CodexReviewStartResponse {
                accepted: true,
                session_id: t.session_id,
                thread_id: t.thread_id.clone(),
                review_thread_id: t.thread_id.clone(),
            };
            Ok((resp, t))
        },
        Err(e) => Err(ReviewStartError::Session(e)),
    }
}

/// The hint shown when the review starts: `delivery:<mode>` for a non-blank delivery mode.
pub fn review_delivery_hint(delivery: &Option<String>) -> (r: Option<String>)
    ensures
        match delivery {
            Some(d) if lower(trim(d@)).len() > 0 => r.is_some() && r.unwrap()@ == "delivery:"@ + lower(trim(d@)),
            _ => r.is_none(),
        },
{
    match delivery {
        Some(d) => {
            let n = lower_str(trim_str(d.as_str()).as_str());
            if n.as_str().is_empty() {
                None
            } else {
                Some(concat_str("delivery:", n.as_str()))
            }
        },
        None => None,
    }
}

} // verus!
