//! The single-slot session registry: admission of turns, thread resolution and caching,
//! interrupt and steer validation, and the answers to pending actions.
use vstd::prelude::*;

use crate::handles::NativeSessionHandles;

use crate::events::ProtocolEvent;
use crate::text::{concat_str, str_eq, trim, trim_str};
use crate::translator::NativeCodexEventTranslator;
use crate::events::Event;

verus! {

/// The running session.
#[derive(Debug)]
pub struct ActiveSession {
    pub session_id: u64,
    pub pid: u32,
    pub cwd: String,
    pub busy: bool,
    /// The thread the last turn ran on.
    pub thread_id: Option<String>,
    pub handles: NativeSessionHandles,
}

/// At most one session at a time.
#[derive(Debug)]
pub struct SessionRegistry {
    pub active: Option<ActiveSession>,
    pub next_session_id: u64,
}

#[derive(Debug, PartialEq, Eq)]
pub enum SessionError {
    NoActiveSession,
    AlreadyRunning,
    Busy,
    /// A stop was asked for while a turn is running.
    StopWhileBusy,
    /// The session was replaced while an operation was under way.
    SessionChanged,
    /// A requested thread id that is no thread id.
    InvalidThreadId(String),
}

impl SessionError {
    pub fn message(&self) -> String {
        match self {
            SessionError::NoActiveSession => "no active codex session".to_owned(),
            SessionError::AlreadyRunning => "an active codex session is already running".to_owned(),
            SessionError::Busy => "codex session is still processing the previous turn".to_owned(),
            SessionError::StopWhileBusy => "cannot stop session while a turn is still running".to_owned(),
            SessionError::InvalidThreadId(id) => concat_str(concat_str("invalid thread id `", id.as_str()).as_str(), "`"),
            SessionError::SessionChanged => "active codex session changed during the operation".to_owned(),
        }
    }
}

/// What a turn (or review) needs from the session once it is admitted.
#[derive(Debug)]
pub struct TurnTicket {
    pub session_id: u64,
    pub pid: u32,
    pub cwd: String,
    pub thread_id: Option<String>,
}

/// How a thread id is to be resolved.
#[derive(Debug, PartialEq, Eq)]
pub enum Resolution {
    /// Cached under this id: use the handle.
    Cached { thread_id: String, handle: u64 },
    /// Not cached: look the id up in the engine (or resume it from its record).
    Lookup { thread_id: String },
    /// No id: create a new thread.
    Create,
}

/// A thread id trimmed, where something is left.
pub open spec fn normalized_id(v: Option<String>) -> Option<Seq<char>> {
    match v {
        Some(s) => if trim(s@).len() > 0 { Some(trim(s@)) } else { None },
        None => None,
    }
}

/// Trims a requested thread id; an empty one counts as absent.
pub fn normalize_runtime_thread_id(thread_id: Option<String>) -> (r: Option<String>)
    ensures
        r.is_some() == normalized_id(thread_id).is_some(),
        r.is_some() ==> r.unwrap()@ == normalized_id(thread_id).unwrap(),
{
    match thread_id {
        Some(v) => {
            let t = trim_str(v.as_str());
            if t.as_str().is_empty() {
                None
            } else {
                Some(t)
            }
        },
        None => None,
    }
}

impl SessionRegistry {
    pub open spec fn wf(&self) -> bool {
        match self.active {
            Some(a) => a.handles.wf(),
            None => true,
        }
    }

    pub open spec fn is_active(&self, session_id: u64) -> bool {
        self.active matches Some(a) && a.session_id == session_id
    }

    pub fn new() -> (r: Self)
        ensures
            r.wf(),
            r.active.is_none(),
    {
        SessionRegistry { active: None, next_session_id: 1 }
    }

    /// Creates the session, unless one is running.
    pub fn start(&mut self, pid: u32, cwd: String) -> (r: Result<u64, SessionError>)
        requires
            old(self).wf(),
            old(self).next_session_id < u64::MAX,
        ensures
            final(self).wf(),
            old(self).active.is_some() ==> r == Err::<u64, SessionError>(SessionError::AlreadyRunning) && *final(self) == *old(self),
            old(self).active.is_none() ==> {
                &&& r == Ok::<u64, SessionError>(old(self).next_session_id)
                &&& final(self).next_session_id == old(self).next_session_id + 1
                &&& final(self).active matches Some(a) && a.session_id == old(self).next_session_id
                    && a.pid == pid && a.cwd == cwd && !a.busy && a.thread_id.is_none()
                    && a.handles.threads@.len() == 0 && a.handles.active_turns@.len() == 0
                    && a.handles.pending.approvals@.len() == 0 && a.handles.pending.user_inputs@.len() == 0
            },
    {
        if self.active.is_some() {
            return Err(SessionError::AlreadyRunning);
        }
        let session_id = self.next_session_id;
        self.next_session_id = session_id + 1;
        self.active = Some(ActiveSession {
            session_id,
            pid,
            cwd,
            busy: false,
            thread_id: None,
            handles: NativeSessionHandles::new(),
        });
        Ok(session_id)
    }

    /// Ends the session and hands it back for its threads to be closed; refused while a turn
    /// is running, and then nothing changes.
    pub fn stop(&mut self) -> (r: Result<ActiveSession, SessionError>)
        requires
            old(self).wf(),
        ensures
            final(self).wf(),
            match old(self).active {
                None => r == Err::<ActiveSession, SessionError>(SessionError::NoActiveSession) && *final(self) == *old(self),
                Some(a) => if a.busy {
                    r == Err::<ActiveSession, SessionError>(SessionError::StopWhileBusy) && *final(self) == *old(self)
                } else {
                    r == Ok::<ActiveSession, SessionError>(a) && final(self).active.is_none()
                        && final(self).next_session_id == old(self).next_session_id
                },
            },
    {
        match &self.active {
            None => {
                return Err(SessionError::NoActiveSession);
            },
            Some(a) => {
                if a.busy {
                    return Err(SessionError::StopWhileBusy);
                }
            },
        }
        let taken = self.active.take();
        match taken {
            Some(a) => Ok(a),
            None => Err(SessionError::NoActiveSession),
        }
    }

    /// Puts back a session whose threads could not be closed.
    pub fn restore(&mut self, session: ActiveSession)
        requires
            old(self).active.is_none(),
            session.handles.wf(),
        ensures
            final(self).wf(),
            final(self).active == Some(session),
            final(self).next_session_id == old(self).next_session_id,
    {
        self.active = Some(session);
    }

    /// Admits a turn: marks the session busy. A busy session refuses, and nothing changes.
    pub fn begin_turn(&mut self) -> (r: Result<TurnTicket, SessionError>)
        requires
            old(self).wf(),
        ensures
            final(self).wf(),
            match old(self).active {
                None => r matches Err(SessionError::NoActiveSession) && *final(self) == *old(self),
                Some(a) => if a.busy {
                    r matches Err(SessionError::Busy) && *final(self) == *old(self)
                } else {
                    &&& r matches Ok(t) && t.session_id == a.session_id && t.pid == a.pid && t.cwd == a.cwd
                        && t.thread_id == a.thread_id
                    &&& final(self).active == Some(ActiveSession { busy: true, ..a })
                    &&& final(self).next_session_id == old(self).next_session_id
                },
            },
    {
        match &mut self.active {
            None => Err(SessionError::NoActiveSession),
            Some(a) => {
                if a.busy {
                    return Err(SessionError::Busy);
                }
                a.busy = true;
                Ok(TurnTicket {
                    session_id: a.session_id,
                    pid: a.pid,
                    cwd: a.cwd.clone(),
                    thread_id: a.thread_id.clone(),
                })
            },
        }
    }

    /// Ends a turn of session `session_id`: the session is no longer busy, and records the
    /// thread the turn ran on, where one is known. A replaced session is left alone.
    pub fn finish_session_turn(&mut self, session_id: u64, discovered_thread_id: Option<String>)
        requires
            old(self).wf(),
        ensures
            final(self).wf(),
            final(self).next_session_id == old(self).next_session_id,
            match old(self).active {
                Some(a) => if a.session_id == session_id {
                    final(self).active == Some(ActiveSession {
                        busy: false,
                        thread_id: if discovered_thread_id.is_some() { discovered_thread_id } else { a.thread_id },
                        ..a
                    })
                } else {
                    final(self).active == old(self).active
                },
                None => final(self).active.is_none(),
            },
    {
        match &mut self.active {
            Some(a) => {
                if a.session_id == session_id {
                    a.busy = false;
                    if discovered_thread_id.is_some() {
                        a.thread_id = discovered_thread_id;
                    }
                }
            },
            None => {},
        }
    }

    pub fn is_active_session(&self, session_id: u64) -> (r: bool)
        ensures
            r == self.is_active(session_id),
    {
        match &self.active {
            Some(a) => a.session_id == session_id,
            None => false,
        }
    }

    /// Whether the running session is busy.
    pub fn is_busy(&self) -> (r: bool)
        ensures
            r == (self.active matches Some(a) && a.busy),
    {
        match &self.active {
            Some(a) => a.busy,
            None => false,
        }
    }

    /// Translates an event of a turn of session `session_id` with the session's shared state;
    /// `None` where the session was replaced meanwhile.
    pub fn translate_for_session(
        &mut self,
        session_id: u64,
        translator: &mut NativeCodexEventTranslator,
        event: Event,
    ) -> (r: Option<Vec<ProtocolEvent>>)
        requires
            old(self).wf(),
            old(translator).wf(),
            old(self).active matches Some(a) ==> a.handles.pending.next_approval_id < u64::MAX
                && a.handles.pending.next_user_input_id < u64::MAX,
        ensures
            final(self).wf(),
            final(translator).wf(),
            r.is_some() == old(self).is_active(session_id),
            r.is_none() ==> *final(self) == *old(self) && *final(translator) == *old(translator),
            r.is_some() ==> crate::translator::translated(old(translator)@, event, final(translator)@, r.unwrap()@)
                && final(self).active.unwrap().session_id == session_id
                && crate::translator::handles_step(
                    old(translator)@.thread_id,
                    old(self).active.unwrap().handles,
                    event,
                    final(self).active.unwrap().handles,
                    r.unwrap()@,
                ),
    {
        match &mut self.active {
            Some(a) => {
                if a.session_id != session_id {
                    return None;
                }
                Some(translator.translate_event(event, &mut a.handles))
            },
            None => None,
        }
    }

    /// Decides how to resolve a thread for session `session_id`: the requested id, else the
    /// session's current thread; cached ids are served from the cache, other ids must be
    /// thread ids to be looked up.
    pub fn resolve_native_thread(&self, session_id: u64, requested_thread_id: Option<String>) -> (r: Result<Resolution, SessionError>)
        requires
            self.wf(),
        ensures
            match self.active {
                None => r == Err::<Resolution, SessionError>(SessionError::NoActiveSession),
                Some(a) => if a.session_id != session_id {
                    r == Err::<Resolution, SessionError>(SessionError::SessionChanged)
                } else {
                    let known = match normalized_id(requested_thread_id) {
                        Some(x) => Some(x),
                        None => normalized_id(a.thread_id),
                    };
                    match known {
                        None => r == Ok::<Resolution, SessionError>(Resolution::Create),
                        Some(k) => if a.handles.threads@.contains_key(k) {
                            r matches Ok(Resolution::Cached { thread_id, handle }) && thread_id@ == k
                                && handle == a.handles.threads@[k]
                        } else if !crate::raw_collab::valid_thread_id(k) {
                            r matches Err(SessionError::InvalidThreadId(t)) && t@ == k
                        } else {
                            r matches Ok(Resolution::Lookup { thread_id }) && thread_id@ == k
                        },
                    }
                },
            },
    {
        let a = match &self.active {
            Some(a) => a,
            None => {
                return Err(SessionError::NoActiveSession);
            },
        };
        if a.session_id != session_id {
            return Err(SessionError::SessionChanged);
        }
        let known = match normalize_runtime_thread_id(requested_thread_id) {
            Some(x) => Some(x),
            None => normalize_runtime_thread_id(a.thread_id.clone()),
        };
        match known {
            None => Ok(Resolution::Create),
            Some(k) => match a.handles.threads.get(k.as_str()) {
                Some(h) => Ok(Resolution::Cached { thread_id: k, handle: *h }),
                None => {
                    if !crate::raw_collab::is_valid_thread_id(k.as_str()) {
                        return Err(SessionError::InvalidThreadId(k));
                    }
                    Ok(Resolution::Lookup { thread_id: k })
                },
            },
        }
    }

    /// Caches a thread found or resumed for `requested_id` under that id and under the id the
    /// engine resolved it to.
    pub fn record_resolved_thread(&mut self, session_id: u64, requested_id: String, resolved_id: String, handle: u64) -> (r: Result<(), SessionError>)
        requires
            old(self).wf(),
        ensures
            final(self).wf(),
            final(self).next_session_id == old(self).next_session_id,
            match old(self).active {
                None => r == Err::<(), SessionError>(SessionError::NoActiveSession) && *final(self) == *old(self),
                Some(a) => if a.session_id != session_id {
                    r == Err::<(), SessionError>(SessionError::SessionChanged) && *final(self) == *old(self)
                } else {
                    &&& r is Ok
                    &&& final(self).active matches Some(b) && b.session_id == a.session_id && b.busy == a.busy
                        && b.thread_id == a.thread_id && b.handles.active_turns == a.handles.active_turns
                        && b.handles.pending == a.handles.pending
                        && b.handles.threads@ == a.handles.threads@.insert(resolved_id@, handle).insert(requested_id@, handle)
                },
            },
    {
        match &mut self.active {
            None => Err(SessionError::NoActiveSession),
            Some(a) => {
                if a.session_id != session_id {
                    return Err(SessionError::SessionChanged);
                }
                let ghost m0 = a.handles.threads@;
                let same = str_eq(resolved_id.as_str(), requested_id.as_str());
                a.handles.threads.insert(resolved_id, handle);
                if !same {
                    a.handles.threads.insert(requested_id, handle);
                } else {
                    assert(a.handles.threads@ =~= m0.insert(resolved_id@, handle).insert(requested_id@, handle));
                }
                Ok(())
            },
        }
    }

    /// Caches a newly created thread under its id.
    pub fn record_created_thread(&mut self, session_id: u64, thread_id: String, handle: u64) -> (r: Result<(), SessionError>)
        requires
            old(self).wf(),
        ensures
            final(self).wf(),
            final(self).next_session_id == old(self).next_session_id,
            match old(self).active {
                None => r == Err::<(), SessionError>(SessionError::NoActiveSession) && *final(self) == *old(self),
                Some(a) => if a.session_id != session_id {
                    r == Err::<(), SessionError>(SessionError::SessionChanged) && *final(self) == *old(self)
                } else {
                    &&& r is Ok
                    &&& final(self).active matches Some(b) && b.session_id == a.session_id && b.busy == a.busy
                        && b.thread_id == a.thread_id && b.handles.active_turns == a.handles.active_turns
                        && b.handles.pending == a.handles.pending
                        && b.handles.threads@ == a.handles.threads@.insert(thread_id@, handle)
                },
            },
    {
        match &mut self.active {
            None => Err(SessionError::NoActiveSession),
            Some(a) => {
                if a.session_id != session_id {
                    return Err(SessionError::SessionChanged);
                }
                a.handles.threads.insert(thread_id, handle);
                Ok(())
            },
        }
    }
}

/// The message of a stale interrupt.
pub fn turn_id_mismatch_error(expected: &str, actual: &str) -> (r: String)
    ensures
        r@ == "turn_id mismatch: expected `"@ + expected@ + "`, active `"@ + actual@ + "`"@,
{
    concat_str(
        concat_str(concat_str(concat_str("turn_id mismatch: expected `", expected).as_str(), "`, active `").as_str(), actual).as_str(),
        "`",
    )
}

/// The immediate answer to a turn request.
#[derive(Debug, PartialEq, Eq)]
pub struct CodexTurnRunResponse {
    pub accepted: bool,
    pub session_id: u64,
    pub thread_id: Option<String>,
}

#[derive(Debug, PartialEq, Eq)]
pub enum RunTurnError {
    EmptyInput,
    SchemaNotObject,
    Session(SessionError),
}

impl RunTurnError {
    pub fn message(&self) -> String {
        match self {
            RunTurnError::EmptyInput => "input_items cannot be empty".to_owned(),
            RunTurnError::SchemaNotObject => "output_schema must be a plain JSON object".to_owned(),
            RunTurnError::Session(e) => e.message(),
        }
    }
}

/// Admits a turn with `input_count` input items: refused without input, with an output
/// schema that is not an object, or while the session is busy (and then nothing changes).
/// The turn itself runs afterwards; the answer comes at once.
pub fn codex_turn_run_impl(
    reg: &mut SessionRegistry,
    input_count: usize,
    output_schema: Option<&crate::json::Json>,
) -> (r: Result<(CodexTurnRunResponse, TurnTicket), RunTurnError>)
    requires
        old(reg).wf(),
    ensures
        final(reg).wf(),
        input_count == 0 ==> r == Err::<(CodexTurnRunResponse, TurnTicket), RunTurnError>(RunTurnError::EmptyInput),
        input_count > 0 && (output_schema matches Some(s) && !(*s is Object))
            ==> r == Err::<(CodexTurnRunResponse, TurnTicket), RunTurnError>(RunTurnError::SchemaNotObject),
        r is Err ==> *final(reg) == *old(reg),
        input_count > 0 && !(output_schema matches Some(s) && !(*s is Object)) ==> match old(reg).active {
            None => r == Err::<(CodexTurnRunResponse, TurnTicket), RunTurnError>(RunTurnError::Session(SessionError::NoActiveSession)),
            Some(a) => if a.busy {
                r == Err::<(CodexTurnRunResponse, TurnTicket), RunTurnError>(RunTurnError::Session(SessionError::Busy))
            } else {
                &&& r matches Ok((resp, t)) && resp.accepted && resp.session_id == a.session_id
                    && resp.thread_id == a.thread_id && t.session_id == a.session_id && t.thread_id == a.thread_id
                &&& final(reg).active == Some(ActiveSession { busy: true, ..a })
            },
        },
{
    if input_count == 0 {
        return Err(RunTurnError::EmptyInput);
    }
    match output_schema {
        Some(crate::json::Json::Object(_)) | None => {},
        Some(_) => {
            return Err(RunTurnError::SchemaNotObject);
        },
    }
    match reg.begin_turn() {
        Ok(t) => {
            let resp = CodexTurnRunResponse { accepted: true, session_id: t.session_id, thread_id: t.thread_id.clone() };
            Ok((resp, t))
        },
        Err(e) => Err(RunTurnError::Session(e)),
    }
}

/// The event announcing a thread created for a turn.
pub fn thread_started_event(thread_id: String) -> (r: ProtocolEvent)
    ensures
        r == (ProtocolEvent::ThreadStarted { thread_id }),
{
    ProtocolEvent::ThreadStarted { thread_id }
}

/// Whether an event ends the turn's event stream.
pub fn is_terminal_event(msg: &crate::events::EventMsg) -> (r: bool)
    ensures
        r == (*msg is TurnComplete || *msg is TurnAborted),
{
    match msg {
        crate::events::EventMsg::TurnComplete | crate::events::EventMsg::TurnAborted(_) => true,
        _ => false,
    }
}

} // verus!
