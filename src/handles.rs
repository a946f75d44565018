//! The per-session state that the translator and the scheduler share.
use vstd::prelude::*;

use crate::pending::PendingActions;
use crate::text_map::TextMap;

verus! {

/// Thread aliases, active turns and pending actions of the running session.
#[derive(Debug)]
pub struct NativeSessionHandles {
    /// Each alias of a thread, mapped to the handle that serves it.
    pub threads: TextMap<u64>,
    /// Thread id to the id of the turn running on it.
    pub active_turns: TextMap<String>,
    pub pending: PendingActions,
}

impl NativeSessionHandles {
    pub open spec fn wf(&self) -> bool {
        self.threads.wf() && self.active_turns.wf() && self.pending.wf()
    }

    pub fn new() -> (r: Self)
        ensures
            r.wf(),
            r.threads@ == Map::<Seq<char>, u64>::empty(),
            r.active_turns@ == Map::<Seq<char>, String>::empty(),
            r.pending.approvals@ == Map::<Seq<char>, crate::pending::PendingApproval>::empty(),
            r.pending.user_inputs@ == Map::<Seq<char>, crate::pending::PendingUserInput>::empty(),
            r.pending.next_approval_id == 1,
            r.pending.next_user_input_id == 1,
    {
        NativeSessionHandles { threads: TextMap::new(), active_turns: TextMap::new(), pending: PendingActions::new() }
    }
}

} // verus!
