//! Outstanding approval and user-input requests awaiting a client decision.
use vstd::prelude::*;

use crate::text::{chars_of, concat_chars, concat_str, decimal, decimal_chars, lower, lower_str, str_eq, string_of, trim, trim_str};
use crate::text_map::TextMap;

verus! {

#[derive(Clone, Copy, Debug, PartialEq, Eq, Structural)]
pub enum ApprovalKind {
    CommandExecution,
    FileChange,
}

impl ApprovalKind {
    pub open spec fn spec_label(&self) -> Seq<char> {
        match self {
            ApprovalKind::CommandExecution => "command_execution"@,
            ApprovalKind::FileChange => "file_change"@,
        }
    }

    pub fn label(&self) -> (r: String)
        ensures
            r@ == self.spec_label(),
    {
        match self {
            ApprovalKind::CommandExecution => "command_execution".to_owned(),
            ApprovalKind::FileChange => "file_change".to_owned(),
        }
    }
}

#[derive(Debug)]
pub struct PendingApproval {
    pub thread_id: String,
    pub turn_id: String,
    pub call_id: String,
    pub kind: ApprovalKind,
}

#[derive(Debug)]
pub struct PendingUserInput {
    pub thread_id: String,
    pub turn_id: String,
    pub call_id: String,
}

/// `approval-<n>`.
pub open spec fn approval_action_id(n: nat) -> Seq<char> {
    "approval-"@ + decimal(n)
}

/// `user-input-<n>`.
pub open spec fn user_input_action_id(n: nat) -> Seq<char> {
    "user-input-"@ + decimal(n)
}

/// The approvals and user-input requests of one session, with the counters that name them.
#[derive(Debug)]
pub struct PendingActions {
    pub approvals: TextMap<PendingApproval>,
    pub user_inputs: TextMap<PendingUserInput>,
    pub next_approval_id: u64,
    pub next_user_input_id: u64,
}

impl PendingActions {
    pub open spec fn wf(&self) -> bool {
        self.approvals.wf() && self.user_inputs.wf()
    }

    pub fn new() -> (r: Self)
        ensures
            r.wf(),
            r.approvals@ == Map::<Seq<char>, PendingApproval>::empty(),
            r.user_inputs@ == Map::<Seq<char>, PendingUserInput>::empty(),
            r.next_approval_id == 1,
            r.next_user_input_id == 1,
    {
        PendingActions {
            approvals: TextMap::new(),
            user_inputs: TextMap::new(),
            next_approval_id: 1,
            next_user_input_id: 1,
        }
    }
}

/// Hands out the next approval action id and advances the counter.
pub fn next_approval_action_id(native: &mut PendingActions) -> (r: String)
    requires
        old(native).next_approval_id < u64::MAX,
    ensures
        r@ == approval_action_id(old(native).next_approval_id as nat),
        final(native).next_approval_id == old(native).next_approval_id + 1,
        final(native).next_user_input_id == old(native).next_user_input_id,
        final(native).approvals == old(native).approvals,
        final(native).user_inputs == old(native).user_inputs,
{
    let value = native.next_approval_id;
    native.next_approval_id = value + 1;
    string_of(&concat_chars(&chars_of("approval-"), &decimal_chars(value)))
}

/// Hands out the next user-input action id and advances the counter.
pub fn next_user_input_action_id(native: &mut PendingActions) -> (r: String)
    requires
        old(native).next_user_input_id < u64::MAX,
    ensures
        r@ == user_input_action_id(old(native).next_user_input_id as nat),
        final(native).next_user_input_id == old(native).next_user_input_id + 1,
        final(native).next_approval_id == old(native).next_approval_id,
        final(native).approvals == old(native).approvals,
        final(native).user_inputs == old(native).user_inputs,
{
    let value = native.next_user_input_id;
    native.next_user_input_id = value + 1;
    string_of(&concat_chars(&chars_of("user-input-"), &decimal_chars(value)))
}

/// A client's answer to an approval request, as the engine takes it.
#[derive(Debug)]
pub enum ReviewDecision {
    Approved,
    ApprovedForSession,
    Denied,
    Abort,
    ApprovedExecpolicyAmendment(Vec<String>),
}

impl ReviewDecision {
    pub open spec fn spec_label(&self) -> Seq<char> {
        match self {
            ReviewDecision::Approved => "approved"@,
            ReviewDecision::ApprovedForSession => "approved_for_session"@,
            ReviewDecision::Denied => "denied"@,
            ReviewDecision::Abort => "abort"@,
            ReviewDecision::ApprovedExecpolicyAmendment(_) => "approved_with_amendment"@,
        }
    }

    /// The label that `approval.resolved` carries.
    pub fn label(&self) -> (r: String)
        ensures
            r@ == self.spec_label(),
    {
        match self {
            ReviewDecision::Approved => "approved".to_owned(),
            ReviewDecision::ApprovedForSession => "approved_for_session".to_owned(),
            ReviewDecision::Denied => "denied".to_owned(),
            ReviewDecision::Abort => "abort".to_owned(),
            ReviewDecision::ApprovedExecpolicyAmendment(_) => "approved_with_amendment".to_owned(),
        }
    }
}

/// Why a decision was not accepted.
#[derive(Debug, PartialEq, Eq)]
pub enum DecisionError {
    Missing,
    AmendmentNeedsCommand,
    AmendmentMissing,
    Unsupported(String),
}

impl DecisionError {
    pub fn message(&self) -> String {
        match self {
            DecisionError::Missing => "decision is required".to_owned(),
            DecisionError::AmendmentNeedsCommand =>
                "acceptWithExecpolicyAmendment is only supported for command_execution approvals".to_owned(),
            DecisionError::AmendmentMissing =>
                "acceptWithExecpolicyAmendment requires execpolicyAmendment".to_owned(),
            DecisionError::Unsupported(d) => concat_str("unsupported approval decision: ", d.as_str()),
        }
    }
}

/// The decision key: trimmed and lower-cased, with `accept` read as `acceptforsession` when the
/// client asks to remember it.
pub open spec fn decision_key(decision: Seq<char>, remember: bool) -> Seq<char> {
    let k = lower(trim(decision));
    if remember && k == "accept"@ {
        "acceptforsession"@
    } else {
        k
    }
}

/// What a decision of the client means for an approval of `kind`.
pub open spec fn decision_result_ok(kind: ApprovalKind, decision: Seq<char>, remember: bool, amendment_len: nat, r: ReviewDecision) -> bool {
    let k = decision_key(decision, remember);
    if k == "accept"@ {
        r is Approved
    } else if k == "acceptforsession"@ {
        r is ApprovedForSession
    } else if k == "decline"@ {
        r is Denied
    } else if k == "cancel"@ {
        r is Abort
    } else {
        k == "acceptwithexecpolicyamendment"@ && kind == ApprovalKind::CommandExecution && amendment_len > 0
            && r is ApprovedExecpolicyAmendment
    }
}

pub open spec fn decision_error_ok(kind: ApprovalKind, decision: Seq<char>, remember: bool, amendment_len: nat, e: DecisionError) -> bool {
    let k = decision_key(decision, remember);
    if trim(decision).len() == 0 {
        e is Missing
    } else if k == "accept"@ || k == "acceptforsession"@ || k == "decline"@ || k == "cancel"@ {
        false
    } else if k == "acceptwithexecpolicyamendment"@ {
        if kind != ApprovalKind::CommandExecution {
            e is AmendmentNeedsCommand
        } else {
            amendment_len == 0 && e is AmendmentMissing
        }
    } else {
        e matches DecisionError::Unsupported(d) && d@ == trim(decision)
    }
}

/// Maps a client's decision on an approval of `kind` to the engine's decision.
pub fn action_to_review_decision(
    kind: ApprovalKind,
    decision: &str,
    remember: bool,
    execpolicy_amendment: &Vec<String>,
) -> (r: Result<ReviewDecision, DecisionError>)
    ensures
        r.is_ok() ==> trim(decision@).len() > 0 && decision_result_ok(kind, decision@, remember, execpolicy_amendment@.len(), r->Ok_0),
        r.is_ok() ==> (r->Ok_0 matches ReviewDecision::ApprovedExecpolicyAmendment(a) ==> a@ == execpolicy_amendment@),
        r.is_err() ==> decision_error_ok(kind, decision@, remember, execpolicy_amendment@.len(), r->Err_0),
{
    let normalized = trim_str(decision);
    if normalized.as_str().is_empty() {
        return Err(DecisionError::Missing);
    }
    let lowered = lower_str(normalized.as_str());
    let key = if remember && str_eq(lowered.as_str(), "accept") {
        "acceptforsession".to_owned()
    } else {
        lowered
    };
    let k = key.as_str();
    if str_eq(k, "accept") {
        Ok(ReviewDecision::Approved)
    } else if str_eq(k, "acceptforsession") {
        Ok(ReviewDecision::ApprovedForSession)
    } else if str_eq(k, "decline") {
        Ok(ReviewDecision::Denied)
    } else if str_eq(k, "cancel") {
        Ok(ReviewDecision::Abort)
    } else if str_eq(k, "acceptwithexecpolicyamendment") {
        if kind != ApprovalKind::CommandExecution {
            return Err(DecisionError::AmendmentNeedsCommand);
        }
        if execpolicy_amendment.len() == 0 {
            return Err(DecisionError::AmendmentMissing);
        }
        let mut copy: Vec<String> = Vec::new();
        let mut i: usize = 0;
        while i < execpolicy_amendment.len()
            invariant
                i <= execpolicy_amendment@.len(),
                copy@ == execpolicy_amendment@.subrange(0, i as int),
            decreases execpolicy_amendment.len() - i,
        {
            copy.push(execpolicy_amendment[i].clone());
            i = i + 1;
            assert(copy@ =~= execpolicy_amendment@.subrange(0, i as int));
        }
        assert(execpolicy_amendment@.subrange(0, i as int) =~= execpolicy_amendment@);
        Ok(ReviewDecision::ApprovedExecpolicyAmendment(copy))
    } else {
        Err(DecisionError::Unsupported(normalized))
    }
}

} // verus!
