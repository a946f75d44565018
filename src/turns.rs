//! Validation of interrupt and steer requests against the tracked active turn, and the
//! closing of a thread with all its aliases.
use vstd::prelude::*;

use crate::handles::NativeSessionHandles;
use crate::order::views;
use crate::session::{turn_id_mismatch_error, SessionRegistry};
use crate::text::{str_eq, trim, trim_str};

verus! {

/// The thread whose active turn an interrupt or steer addresses, with that turn: the
/// requested id's own turn, else the turn of another alias of the same handle.
pub open spec fn active_turn_ok(n: NativeSessionHandles, requested: Seq<char>, handle: u64, r: Option<(String, String)>) -> bool {
    if n.active_turns@.contains_key(requested) {
        r matches Some((t, turn)) && t@ == requested && turn == n.active_turns@[requested]
    } else if exists|k: Seq<char>| #[trigger] n.threads@.contains_key(k) && n.threads@[k] == handle && n.active_turns@.contains_key(k) {
        r matches Some((t, turn)) && n.threads@.contains_key(t@) && n.threads@[t@] == handle
            && n.active_turns@.contains_key(t@) && turn == n.active_turns@[t@]
    } else {
        r.is_none()
    }
}

pub fn resolve_native_active_turn_for_thread(native: &NativeSessionHandles, requested_thread_id: &str, handle: u64) -> (r: Option<(String, String)>)
    requires
        native.wf(),
    ensures
        active_turn_ok(*native, requested_thread_id@, handle, r),
{
    match native.active_turns.get(requested_thread_id) {
        Some(turn) => {
            return Some((requested_thread_id.to_owned(), turn.clone()));
        },
        None => {},
    }
    let keys = native.threads.keys();
    let mut i: usize = 0;
    while i < keys.len()
        invariant
            native.wf(),
            !native.active_turns@.contains_key(requested_thread_id@),
            i <= keys@.len(),
            forall|j: int| 0 <= j < keys@.len() ==> native.threads@.contains_key(#[trigger] keys@[j]@),
            forall|k: Seq<char>| native.threads@.contains_key(k) ==> exists|j: int| 0 <= j < keys@.len() && (#[trigger] keys@[j])@ == k,
            forall|j: int| 0 <= j < i ==> !(native.threads@[(#[trigger] keys@[j])@] == handle && native.active_turns@.contains_key(keys@[j]@)),
        decreases keys.len() - i,
    {
        let k = keys[i].as_str();
        let same = match native.threads.get(k) {
            Some(h) => *h == handle,
            None => false,
        };
        if same {
            match native.active_turns.get(k) {
                Some(turn) => {
                    let ghost k = keys@[i as int]@;
                    assert(native.threads@.contains_key(k) && native.threads@[k] == handle && native.active_turns@.contains_key(k));
                    return Some((keys[i].clone(), turn.clone()));
                },
                None => {},
            }
        }
        i = i + 1;
    }
    proof {
        assert forall|k: Seq<char>| #[trigger] native.threads@.contains_key(k) && native.threads@[k] == handle implies !native.active_turns@.contains_key(k) by {
            let j = choose|j: int| 0 <= j < keys@.len() && (#[trigger] keys@[j])@ == k;
            assert(!(native.threads@[keys@[j]@] == handle && native.active_turns@.contains_key(keys@[j]@)));
        }
    }
    None
}

#[derive(Debug, PartialEq, Eq)]
pub enum TurnRequestError {
    ThreadIdRequired,
    TurnIdRequired,
    InputRequired,
    NoActiveSession,
    NoActiveTurn,
    /// The request names a turn other than the running one.
    TurnMismatch { expected: String, active: String },
}

impl TurnRequestError {
    pub fn message(&self) -> String {
        match self {
            TurnRequestError::ThreadIdRequired => "thread_id is required".to_owned(),
            TurnRequestError::TurnIdRequired => "turn_id is required".to_owned(),
            TurnRequestError::InputRequired => "input_items cannot be empty".to_owned(),
            TurnRequestError::NoActiveSession => "no active codex session".to_owned(),
            TurnRequestError::NoActiveTurn => "no active turn".to_owned(),
            TurnRequestError::TurnMismatch { expected, active } => turn_id_mismatch_error(expected.as_str(), active.as_str()),
        }
    }
}

/// The outcome of validating a request against the running turn of a thread.
pub open spec fn turn_check_ok(
    reg: SessionRegistry,
    thread_id: Seq<char>,
    turn_id: Seq<char>,
    handle: u64,
    r: Result<(String, String), TurnRequestError>,
) -> bool {
    if trim(thread_id).len() == 0 {
        r == Err::<(String, String), TurnRequestError>(TurnRequestError::ThreadIdRequired)
    } else if trim(turn_id).len() == 0 {
        r == Err::<(String, String), TurnRequestError>(TurnRequestError::TurnIdRequired)
    } else {
        match reg.active {
            None => r == Err::<(String, String), TurnRequestError>(TurnRequestError::NoActiveSession),
            Some(a) => {
                let requested = trim(thread_id);
                if a.handles.active_turns@.contains_key(requested)
                    || exists|k: Seq<char>| #[trigger] a.handles.threads@.contains_key(k) && a.handles.threads@[k] == handle
                        && a.handles.active_turns@.contains_key(k) {
                    exists|res: Option<(String, String)>| #[trigger] active_turn_ok(a.handles, requested, handle, res)
                        && (res matches Some((t, active)) && if active@ == trim(turn_id) {
                            (r matches Ok((rt, rturn)) && rt == t && rturn@ == trim(turn_id))
                        } else {
                            (r matches Err(TurnRequestError::TurnMismatch { expected, active: act })
                                && expected@ == trim(turn_id) && act == active)
                        })
                } else {
                    r == Err::<(String, String), TurnRequestError>(TurnRequestError::NoActiveTurn)
                }
            },
        }
    }
}

/// Validates an interrupt (or steer) of turn `turn_id` on `thread_id`, whose engine handle is
/// `handle`: the turn must be the one tracked as running, and on a mismatch nothing is to be
/// sent. On success, the thread id that tracks the turn and the turn id.
pub fn check_turn_request(reg: &SessionRegistry, thread_id: &str, turn_id: &str, handle: u64) -> (r: Result<(String, String), TurnRequestError>)
    requires
        reg.wf(),
    ensures
        turn_check_ok(*reg, thread_id@, turn_id@, handle, r),
{
    let thread_id = trim_str(thread_id);
    if thread_id.as_str().is_empty() {
        return Err(TurnRequestError::ThreadIdRequired);
    }
    let turn_id = trim_str(turn_id);
    if turn_id.as_str().is_empty() {
        return Err(TurnRequestError::TurnIdRequired);
    }
    let a = match &reg.active {
        Some(a) => a,
        None => {
            return Err(TurnRequestError::NoActiveSession);
        },
    };
    let found = resolve_native_active_turn_for_thread(&a.handles, thread_id.as_str(), handle);
    match found {
        None => Err(TurnRequestError::NoActiveTurn),
        Some((t, active)) => {
            if str_eq(active.as_str(), turn_id.as_str()) {
                Ok((t, turn_id))
            } else {
                Err(TurnRequestError::TurnMismatch { expected: turn_id, active })
            }
        },
    }
}

/// Validates a steer: it needs input, and the expected turn must be the running one.
pub fn check_steer_request(
    reg: &SessionRegistry,
    thread_id: &str,
    expected_turn_id: &str,
    input_count: usize,
    handle: u64,
) -> (r: Result<(String, String), TurnRequestError>)
    requires
        reg.wf(),
    ensures
        trim(thread_id@).len() > 0 && trim(expected_turn_id@).len() > 0 && input_count == 0
            ==> r == Err::<(String, String), TurnRequestError>(TurnRequestError::InputRequired),
        !(trim(thread_id@).len() > 0 && trim(expected_turn_id@).len() > 0 && input_count == 0)
            ==> turn_check_ok(*reg, thread_id@, expected_turn_id@, handle, r),
{
    let t = trim_str(thread_id);
    let e = trim_str(expected_turn_id);
    if !t.as_str().is_empty() && !e.as_str().is_empty() && input_count == 0 {
        return Err(TurnRequestError::InputRequired);
    }
    check_turn_request(reg, thread_id, expected_turn_id, handle)
}

/// Drops the pending approvals and user-input requests of the given threads.
pub fn clear_native_pending_actions_for_threads(native: &mut NativeSessionHandles, thread_ids: &Vec<String>)
    requires
        old(native).wf(),
    ensures
        final(native).wf(),
        final(native).threads == old(native).threads,
        final(native).active_turns == old(native).active_turns,
        final(native).pending.next_approval_id == old(native).pending.next_approval_id,
        final(native).pending.next_user_input_id == old(native).pending.next_user_input_id,
        forall|k: Seq<char>| #[trigger] final(native).pending.approvals@.contains_key(k) <==> (
            old(native).pending.approvals@.contains_key(k)
                && !views(thread_ids@).contains(old(native).pending.approvals@[k].thread_id@)),
        forall|k: Seq<char>| #[trigger] final(native).pending.approvals@.contains_key(k)
            ==> final(native).pending.approvals@[k] == old(native).pending.approvals@[k],
        forall|k: Seq<char>| #[trigger] final(native).pending.user_inputs@.contains_key(k) <==> (
            old(native).pending.user_inputs@.contains_key(k)
                && !views(thread_ids@).contains(old(native).pending.user_inputs@[k].thread_id@)),
        forall|k: Seq<char>| #[trigger] final(native).pending.user_inputs@.contains_key(k)
            ==> final(native).pending.user_inputs@[k] == old(native).pending.user_inputs@[k],
{
    let keys = native.pending.approvals.keys();
    let ghost m0 = native.pending.approvals@;
    let mut i: usize = 0;
    while i < keys.len()
        invariant
            native.wf(),
            native.threads == old(native).threads,
            native.active_turns == old(native).active_turns,
            native.pending.user_inputs == old(native).pending.user_inputs,
            native.pending.next_approval_id == old(native).pending.next_approval_id,
            native.pending.next_user_input_id == old(native).pending.next_user_input_id,
            m0 == old(native).pending.approvals@,
            i <= keys@.len(),
            forall|j: int| 0 <= j < keys@.len() ==> m0.contains_key(#[trigger] keys@[j]@),
            forall|k: Seq<char>| m0.contains_key(k) ==> exists|j: int| 0 <= j < keys@.len() && (#[trigger] keys@[j])@ == k,
            forall|k: Seq<char>| #[trigger] native.pending.approvals@.contains_key(k) ==> m0.contains_key(k) && native.pending.approvals@[k] == m0[k],
            forall|k: Seq<char>| #[trigger] m0.contains_key(k) && !views(thread_ids@).contains(m0[k].thread_id@) ==> native.pending.approvals@.contains_key(k),
            forall|j: int| 0 <= j < i && views(thread_ids@).contains(m0[(#[trigger] keys@[j])@].thread_id@) ==> !native.pending.approvals@.contains_key(keys@[j]@),
        decreases keys.len() - i,
    {
        let drop = match native.pending.approvals.get(keys[i].as_str()) {
            Some(p) => contains_id(thread_ids, p.thread_id.as_str()),
            None => false,
        };
        if drop {
            let _ = native.pending.approvals.remove(keys[i].as_str());
        }
        i = i + 1;
    }
    proof {
        assert forall|k: Seq<char>| #[trigger] native.pending.approvals@.contains_key(k) <==> (
            m0.contains_key(k) && !views(thread_ids@).contains(m0[k].thread_id@)) by {
            if m0.contains_key(k) && views(thread_ids@).contains(m0[k].thread_id@) {
                let j = choose|j: int| 0 <= j < keys@.len() && (#[trigger] keys@[j])@ == k;
                assert(views(thread_ids@).contains(m0[keys@[j]@].thread_id@));
            }
        }
    }
    let keys2 = native.pending.user_inputs.keys();
    let ghost u0 = native.pending.user_inputs@;
    let ghost a1 = native.pending.approvals@;
    let mut i: usize = 0;
    while i < keys2.len()
        invariant
            native.wf(),
            native.threads == old(native).threads,
            native.active_turns == old(native).active_turns,
            native.pending.approvals@ == a1,
            native.pending.next_approval_id == old(native).pending.next_approval_id,
            native.pending.next_user_input_id == old(native).pending.next_user_input_id,
            u0 == old(native).pending.user_inputs@,
            i <= keys2@.len(),
            forall|j: int| 0 <= j < keys2@.len() ==> u0.contains_key(#[trigger] keys2@[j]@),
            forall|k: Seq<char>| u0.contains_key(k) ==> exists|j: int| 0 <= j < keys2@.len() && (#[trigger] keys2@[j])@ == k,
            forall|k: Seq<char>| #[trigger] native.pending.user_inputs@.contains_key(k) ==> u0.contains_key(k) && native.pending.user_inputs@[k] == u0[k],
            forall|k: Seq<char>| #[trigger] u0.contains_key(k) && !views(thread_ids@).contains(u0[k].thread_id@) ==> native.pending.user_inputs@.contains_key(k),
            forall|j: int| 0 <= j < i && views(thread_ids@).contains(u0[(#[trigger] keys2@[j])@].thread_id@) ==> !native.pending.user_inputs@.contains_key(keys2@[j]@),
        decreases keys2.len() - i,
    {
        let drop = match native.pending.user_inputs.get(keys2[i].as_str()) {
            Some(p) => contains_id(thread_ids, p.thread_id.as_str()),
            None => false,
        };
        if drop {
            let _ = native.pending.user_inputs.remove(keys2[i].as_str());
        }
        i = i + 1;
    }
    proof {
        assert forall|k: Seq<char>| #[trigger] native.pending.user_inputs@.contains_key(k) <==> (
            u0.contains_key(k) && !views(thread_ids@).contains(u0[k].thread_id@)) by {
            if u0.contains_key(k) && views(thread_ids@).contains(u0[k].thread_id@) {
                let j = choose|j: int| 0 <= j < keys2@.len() && (#[trigger] keys2@[j])@ == k;
                assert(views(thread_ids@).contains(u0[keys2@[j]@].thread_id@));
            }
        }
    }
}

/// Whether `id` is among `ids`.
pub fn contains_id(ids: &Vec<String>, id: &str) -> (r: bool)
    ensures
        r == views(ids@).contains(id@),
{
    let mut i: usize = 0;
    while i < ids.len()
        invariant
            i <= ids@.len(),
            forall|j: int| 0 <= j < i ==> ids@[j]@ != id@,
        decreases ids.len() - i,
    {
        if str_eq(ids[i].as_str(), id) {
            assert(views(ids@)[i as int] == id@);
            return true;
        }
        i = i + 1;
    }
    proof {
        if views(ids@).contains(id@) {
            let j = choose|j: int| 0 <= j < views(ids@).len() && views(ids@)[j] == id@;
            assert(ids@[j]@ == id@);
        }
    }
    false
}

/// The thread ids that closing `t` removes: `t` itself and every alias of its handle.
pub open spec fn closes(n: NativeSessionHandles, t: Seq<char>, k: Seq<char>) -> bool {
    k == t || (n.threads@.contains_key(t) && n.threads@.contains_key(k) && n.threads@[k] == n.threads@[t])
}

/// What closing thread `t` does to the session's shared state `n0`, giving `n1`, with the
/// handle cached under `t` and the ids removed in `r`.
pub open spec fn closed_ok(n0: NativeSessionHandles, t: Seq<char>, n1: NativeSessionHandles, r: (Option<u64>, Vec<String>)) -> bool {
    &&& r.0 == if n0.threads@.contains_key(t) { Some(n0.threads@[t]) } else { None::<u64> }
    &&& forall|k: Seq<char>| #[trigger] views(r.1@).contains(k) <==> closes(n0, t, k)
    &&& forall|k: Seq<char>| #[trigger] n1.threads@.contains_key(k) <==> (
        n0.threads@.contains_key(k) && !closes(n0, t, k))
    &&& forall|k: Seq<char>| #[trigger] n1.threads@.contains_key(k) ==> n1.threads@[k] == n0.threads@[k]
    &&& forall|k: Seq<char>| #[trigger] n1.active_turns@.contains_key(k) <==> (
        n0.active_turns@.contains_key(k) && !closes(n0, t, k))
    &&& forall|k: Seq<char>| #[trigger] n1.active_turns@.contains_key(k) ==> n1.active_turns@[k] == n0.active_turns@[k]
    &&& n1.pending.next_approval_id == n0.pending.next_approval_id
    &&& n1.pending.next_user_input_id == n0.pending.next_user_input_id
    &&& forall|k: Seq<char>| #[trigger] n1.pending.approvals@.contains_key(k) <==> (
        n0.pending.approvals@.contains_key(k)
            && !closes(n0, t, n0.pending.approvals@[k].thread_id@))
    &&& forall|k: Seq<char>| #[trigger] n1.pending.approvals@.contains_key(k)
        ==> n1.pending.approvals@[k] == n0.pending.approvals@[k]
    &&& forall|k: Seq<char>| #[trigger] n1.pending.user_inputs@.contains_key(k) <==> (
        n0.pending.user_inputs@.contains_key(k)
            && !closes(n0, t, n0.pending.user_inputs@[k].thread_id@))
    &&& forall|k: Seq<char>| #[trigger] n1.pending.user_inputs@.contains_key(k)
        ==> n1.pending.user_inputs@[k] == n0.pending.user_inputs@[k]
}

/// Closes thread `thread_id` in the session's state: the cache forgets it and every alias of
/// the same handle, and their active turns and pending actions go. Returns the handle that was
/// cached under the id, if any, and the ids removed.
pub fn close_thread_aliases(native: &mut NativeSessionHandles, thread_id: &str) -> (r: (Option<u64>, Vec<String>))
    requires
        old(native).wf(),
    ensures
        final(native).wf(),
        closed_ok(*old(native), thread_id@, *final(native), r),
{
    let ghost n0 = *native;
    let removed = native.threads.remove(thread_id);
    let _ = native.active_turns.remove(thread_id);
    let mut removed_ids: Vec<String> = Vec::new();
    removed_ids.push(thread_id.to_owned());
    proof {
        assert(views(removed_ids@) =~= seq![thread_id@]);
        assert(views(removed_ids@)[0] == thread_id@);
    }
    match removed {
        Some(h) => {
            let keys = native.threads.keys();
            let ghost m1 = native.threads@;
            let mut i: usize = 0;
            while i < keys.len()
                invariant
                    native.wf(),
                    native.pending == n0.pending,
                    m1 == n0.threads@.remove(thread_id@),
                    n0.threads@.contains_key(thread_id@) && n0.threads@[thread_id@] == h,
                    i <= keys@.len(),
                    forall|j: int| 0 <= j < keys@.len() ==> m1.contains_key(#[trigger] keys@[j]@),
                    forall|k: Seq<char>| m1.contains_key(k) ==> exists|j: int| 0 <= j < keys@.len() && (#[trigger] keys@[j])@ == k,
                    forall|k: Seq<char>| #[trigger] native.threads@.contains_key(k) ==> m1.contains_key(k) && native.threads@[k] == m1[k] && m1[k] != h || (
                        m1.contains_key(k) && native.threads@[k] == m1[k] && !(exists|j: int| 0 <= j < i && (#[trigger] keys@[j])@ == k)),
                    forall|k: Seq<char>| #[trigger] m1.contains_key(k) && m1[k] != h ==> native.threads@.contains_key(k),
                    forall|j: int| 0 <= j < i && m1[(#[trigger] keys@[j])@] == h ==> !native.threads@.contains_key(keys@[j]@),
                    forall|j: int| 0 <= j < i && m1[(#[trigger] keys@[j])@] == h ==> views(removed_ids@).contains(keys@[j]@),
                    views(removed_ids@).contains(thread_id@),
                    forall|k: Seq<char>| #[trigger] views(removed_ids@).contains(k) ==> closes(n0, thread_id@, k),
                    forall|k: Seq<char>| #[trigger] m1.contains_key(k) && !native.threads@.contains_key(k) ==> views(removed_ids@).contains(k),
                    forall|k: Seq<char>| #[trigger] native.active_turns@.contains_key(k) <==> (
                        n0.active_turns@.contains_key(k) && !views(removed_ids@).contains(k)),
                    forall|k: Seq<char>| #[trigger] native.active_turns@.contains_key(k) ==> native.active_turns@[k] == n0.active_turns@[k],
                decreases keys.len() - i,
            {
                let k = keys[i].as_str();
                let alias = match native.threads.get(k) {
                    Some(x) => *x == h,
                    None => false,
                };
                proof {
                    if !alias && m1[k@] == h {
                        assert(!native.threads@.contains_key(k@));
                    }
                }
                if alias {
                    let ghost before = views(removed_ids@);
                    let _ = native.threads.remove(k);
                    let _ = native.active_turns.remove(k);
                    removed_ids.push(keys[i].clone());
                    proof {
                        assert(views(removed_ids@) =~= before.push(k@));
                        assert forall|x: Seq<char>| before.contains(x) implies #[trigger] views(removed_ids@).contains(x) by {
                            let q = choose|q: int| 0 <= q < before.len() && before[q] == x;
                            assert(views(removed_ids@)[q] == x);
                        }
                        assert(views(removed_ids@)[before.len() as int] == k@);
                        assert forall|x: Seq<char>| #[trigger] views(removed_ids@).contains(x) implies before.contains(x) || x == k@ by {
                            let q = choose|q: int| 0 <= q < views(removed_ids@).len() && views(removed_ids@)[q] == x;
                            if q < before.len() {
                                assert(before[q] == x);
                            }
                        }
                        assert(closes(n0, thread_id@, k@));
                    }
                }
                i = i + 1;
            }
            proof {
                assert forall|k: Seq<char>| #[trigger] native.threads@.contains_key(k) <==> (
                    n0.threads@.contains_key(k) && !closes(n0, thread_id@, k)) by {
                    if m1.contains_key(k) && m1[k] == h {
                        let j = choose|j: int| 0 <= j < keys@.len() && (#[trigger] keys@[j])@ == k;
                        assert(m1[keys@[j]@] == h);
                    }
                    if native.threads@.contains_key(k) && m1[k] == h {
                        let j = choose|j: int| 0 <= j < keys@.len() && (#[trigger] keys@[j])@ == k;
                        assert(m1[keys@[j]@] == h);
                    }
                }
                assert forall|k: Seq<char>| #[trigger] views(removed_ids@).contains(k) <==> closes(n0, thread_id@, k) by {
                    if closes(n0, thread_id@, k) && k != thread_id@ {
                        assert(m1.contains_key(k) && m1[k] == h);
                        let j = choose|j: int| 0 <= j < keys@.len() && (#[trigger] keys@[j])@ == k;
                        assert(m1[keys@[j]@] == h);
                    }
                }
            }
        },
        None => {
            proof {
                assert forall|k: Seq<char>| #[trigger] native.threads@.contains_key(k) <==> (
                    n0.threads@.contains_key(k) && !closes(n0, thread_id@, k)) by {}
                assert forall|k: Seq<char>| #[trigger] views(removed_ids@).contains(k) <==> closes(n0, thread_id@, k) by {
                    if views(removed_ids@).contains(k) {
                        let q = choose|q: int| 0 <= q < views(removed_ids@).len() && views(removed_ids@)[q] == k;
                    }
                }
                assert forall|k: Seq<char>| #[trigger] native.active_turns@.contains_key(k) <==> (
                    n0.active_turns@.contains_key(k) && !views(removed_ids@).contains(k)) by {}
            }
        },
    }
    clear_native_pending_actions_for_threads(native, &removed_ids);
    (removed, removed_ids)
}

/// Closes thread `thread_id` of the running session: its cache entries, every alias of the
/// same handle, their active turns and pending actions go, and the session forgets it as its
/// current thread where that was one of the removed ids (or the thread is no longer cached).
pub fn codex_thread_close(reg: &mut SessionRegistry, thread_id: &str) -> (r: Result<(Option<u64>, Vec<String>), TurnRequestError>)
    requires
        old(reg).wf(),
    ensures
        final(reg).wf(),
        final(reg).next_session_id == old(reg).next_session_id,
        trim(thread_id@).len() == 0 ==> r == Err::<(Option<u64>, Vec<String>), TurnRequestError>(TurnRequestError::ThreadIdRequired)
            && *final(reg) == *old(reg),
        trim(thread_id@).len() > 0 && old(reg).active.is_none()
            ==> r == Err::<(Option<u64>, Vec<String>), TurnRequestError>(TurnRequestError::NoActiveSession) && *final(reg) == *old(reg),
        trim(thread_id@).len() > 0 && old(reg).active.is_some() ==> ({
            let a = old(reg).active.unwrap();
            let t = trim(thread_id@);
            &&& r is Ok
            &&& final(reg).active matches Some(b) && b.session_id == a.session_id && b.pid == a.pid && b.cwd == a.cwd
                && b.busy == a.busy && closed_ok(a.handles, t, b.handles, r->Ok_0)
                && b.thread_id == match a.thread_id {
                    Some(x) => if x@ == t || (r->Ok_0.0.is_some() && !b.handles.threads@.contains_key(x@)) {
                        None
                    } else {
                        Some(x)
                    },
                    None => None,
                }
        }),
{
    let t = trim_str(thread_id);
    if t.as_str().is_empty() {
        return Err(TurnRequestError::ThreadIdRequired);
    }
    match &mut reg.active {
        None => Err(TurnRequestError::NoActiveSession),
        Some(a) => {
            let closed = close_thread_aliases(&mut a.handles, t.as_str());
            let forget = match &a.thread_id {
                Some(x) => str_eq(x.as_str(), t.as_str()) || (closed.0.is_some() && !a.handles.threads.contains_key(x.as_str())),
                None => false,
            };
            if forget {
                a.thread_id = None;
            }
            Ok(closed)
        },
    }
}

} // verus!
