//! Approval of what the agent wants to do.
use vstd::prelude::*;
use vstd::string::*;

use crate::text;

verus! {

/// Where a request for approval stands.
#[derive(Debug, Clone, PartialEq)]
pub enum ApprovalStatus<S = String> {
    Pending,
    Approved,
    Denied { reason: Option<S> },
    TimedOut,
}

impl DeepView for ApprovalStatus {
    type V = ApprovalStatus<Seq<char>>;

    open spec fn deep_view(&self) -> ApprovalStatus<Seq<char>> {
        match *self {
            ApprovalStatus::Pending => ApprovalStatus::Pending,
            ApprovalStatus::Approved => ApprovalStatus::Approved,
            ApprovalStatus::Denied { reason } => ApprovalStatus::Denied {
                reason: reason.deep_view(),
            },
            ApprovalStatus::TimedOut => ApprovalStatus::TimedOut,
        }
    }
}

impl ApprovalStatus {
    /// A status that says the same.
    pub fn copy(&self) -> (res: ApprovalStatus)
        ensures
            res == *self,
    {
        match self {
            ApprovalStatus::Pending => ApprovalStatus::Pending,
            ApprovalStatus::Approved => ApprovalStatus::Approved,
            ApprovalStatus::Denied { reason } => ApprovalStatus::Denied {
                reason: match reason {
                    Some(r) => Some(r.clone()),
                    None => None,
                },
            },
            ApprovalStatus::TimedOut => ApprovalStatus::TimedOut,
        }
    }
}

/// Why a request for approval was not answered.
#[derive(Debug, PartialEq)]
pub enum ApprovalFailure<S = String> {
    /// There is no service to ask.
    ServiceUnavailable,
    /// The service does not know the session.
    SessionNotRegistered,
    /// Something else failed, as the text says.
    Other(S),
}

impl DeepView for ApprovalFailure {
    type V = ApprovalFailure<Seq<char>>;

    open spec fn deep_view(&self) -> ApprovalFailure<Seq<char>> {
        match *self {
            ApprovalFailure::ServiceUnavailable => ApprovalFailure::ServiceUnavailable,
            ApprovalFailure::SessionNotRegistered => ApprovalFailure::SessionNotRegistered,
            ApprovalFailure::Other(s) => ApprovalFailure::Other(s@),
        }
    }
}

/// What a service says of a request for approval.
pub type ApprovalAnswer = Result<ApprovalStatus, ApprovalFailure>;

/// Where a request stands when the service has answered.
pub open spec fn answered(
    answer: Result<ApprovalStatus<Seq<char>>, ApprovalFailure<Seq<char>>>,
) -> ApprovalStatus<Seq<char>> {
    match answer {
        Ok(status) => status,
        Err(ApprovalFailure::Other(e)) => ApprovalStatus::Denied {
            reason: Some("Approval request failed: "@ + e),
        },
        Err(_) => ApprovalStatus::Approved,
    }
}

/// Where a request for permission stands before anyone is asked: it is approved where everything
/// is, or where there is no service. Otherwise the service is to be asked.
pub fn request_permission_approval(auto_approve: bool, has_service: bool) -> (res: Option<
    ApprovalStatus,
>)
    ensures
        res == if auto_approve || !has_service {
            Some(ApprovalStatus::<String>::Approved)
        } else {
            None
        },
{
    if auto_approve || !has_service {
        Some(ApprovalStatus::Approved)
    } else {
        None
    }
}

/// Where a request stands when the service has answered.
pub fn approval_from_answer(answer: ApprovalAnswer) -> (res: ApprovalStatus)
    ensures
        res.deep_view() == answered(crate::model::result_view(answer)),
{
    match answer {
        Ok(status) => status,
        Err(ApprovalFailure::ServiceUnavailable) => ApprovalStatus::Approved,
        Err(ApprovalFailure::SessionNotRegistered) => ApprovalStatus::Approved,
        Err(ApprovalFailure::Other(e)) => ApprovalStatus::Denied {
            reason: Some(text::cat2("Approval request failed: ", e.as_str())),
        },
    }
}

/// The reply to a request for permission.
#[derive(Debug, PartialEq)]
pub struct PermissionReply<S = String> {
    /// `once` or `reject`.
    pub reply: S,
    /// What the agent is told.
    pub message: Option<S>,
}

impl DeepView for PermissionReply {
    type V = PermissionReply<Seq<char>>;

    open spec fn deep_view(&self) -> PermissionReply<Seq<char>> {
        PermissionReply { reply: self.reply@, message: self.message.deep_view() }
    }
}

/// What the agent is told of a denial for which no reason is given.
pub open spec fn denial_text(reason: Option<Seq<char>>) -> Seq<char> {
    match reason {
        Some(r) => text::trimmed(r),
        None => text::trimmed("User denied this tool use request"@),
    }
}

/// The reply to a request for permission.
pub open spec fn reply_of(status: ApprovalStatus<Seq<char>>) -> PermissionReply<Seq<char>> {
    match status {
        ApprovalStatus::Approved => PermissionReply { reply: "once"@, message: None },
        ApprovalStatus::Denied { reason } => PermissionReply {
            reply: "reject"@,
            message: Some(
                if denial_text(reason).len() == 0 {
                    "User denied this tool use request"@
                } else {
                    denial_text(reason)
                },
            ),
        },
        ApprovalStatus::TimedOut => PermissionReply {
            reply: "reject"@,
            message: Some("Approval request timed out; proceed without using this tool call."@),
        },
        ApprovalStatus::Pending => PermissionReply {
            reply: "reject"@,
            message: Some(
                "Approval request could not be completed; proceed without using this tool call."@,
            ),
        },
    }
}

/// The reply to a request for permission. A rejection always tells the agent something: without a
/// message it would stop.
pub fn permission_reply(status: &ApprovalStatus) -> (res: PermissionReply)
    ensures
        res.deep_view() == reply_of(status.deep_view()),
{
    match status {
        ApprovalStatus::Approved => PermissionReply { reply: text::owned("once"), message: None },
        ApprovalStatus::Denied { reason } => {
            let given = match reason {
                Some(r) => r.as_str(),
                None => "User denied this tool use request",
            };
            let message = text::trim(given);
            let told = if message.is_empty() {
                "User denied this tool use request"
            } else {
                message
            };
            PermissionReply { reply: text::owned("reject"), message: Some(text::owned(told)) }
        },
        ApprovalStatus::TimedOut => PermissionReply {
            reply: text::owned("reject"),
            message: Some(
                text::owned("Approval request timed out; proceed without using this tool call."),
            ),
        },
        ApprovalStatus::Pending => PermissionReply {
            reply: text::owned("reject"),
            message: Some(
                text::owned(
                    "Approval request could not be completed; proceed without using this tool call.",
                ),
            ),
        },
    }
}

/// Only what is approved is permitted, and it is permitted once; everything else is rejected, and
/// a rejection always holds a message that is not empty.
pub proof fn lemma_reply(status: ApprovalStatus<Seq<char>>)
    ensures
        status is Approved <==> reply_of(status).reply == "once"@,
        status !is Approved <==> reply_of(status).reply == "reject"@,
        status !is Approved ==> reply_of(status).message is Some
            && reply_of(status).message->0.len() > 0,
{
    reveal_strlit("once");
    reveal_strlit("reject");
    reveal_strlit("User denied this tool use request");
    reveal_strlit("Approval request timed out; proceed without using this tool call.");
    reveal_strlit("Approval request could not be completed; proceed without using this tool call.");
    assert("once"@.len() != "reject"@.len());
}

/// A reason that says something is passed on to the agent, and what is approved needs none.
pub proof fn lemma_reason_is_told(reason: Seq<char>)
    requires
        !text::blank(reason),
    ensures
        reply_of(ApprovalStatus::Denied { reason: Some(reason) }).message == Some(
            text::trimmed(reason),
        ),
        reply_of(ApprovalStatus::Denied { reason: Some(reason) }).reply == "reject"@,
        reply_of(ApprovalStatus::Approved).message is None,
{
}

/// What the service decided stands. Where there is none, or where it does not know the session, the
/// request is approved; any other failure denies it and says why.
pub proof fn lemma_answer_stands(
    answer: Result<ApprovalStatus<Seq<char>>, ApprovalFailure<Seq<char>>>,
)
    ensures
        answer matches Ok(status) ==> answered(answer) == status,
        answer matches Err(e) ==> (answered(answer) is Approved <==> e !is Other),
        answer matches Err(ApprovalFailure::Other(e)) ==> answered(answer)
            == (ApprovalStatus::Denied { reason: Some("Approval request failed: "@ + e) }),
{
}

/// A denial for which no reason is given is told as one by the user.
pub proof fn lemma_unexplained_denial()
    ensures
        denial_text(None) == "User denied this tool use request"@,
        reply_of(ApprovalStatus::Denied { reason: None }).message == Some(
            "User denied this tool use request"@,
        ),
{
    let said = "User denied this tool use request"@;
    reveal_strlit("User denied this tool use request");
    assert(said[0] == 'U');
    assert(said.last() == 't');
    assert(text::trimmed(said) == said);
}

} // verus!
