//! What the run of an OpenCode agent writes to its log.
use vstd::prelude::*;

use crate::json::{Json, JsonView};
use crate::opencode::approvals::ApprovalStatus;

verus! {

/// An event in the log of a run.
#[derive(Debug, PartialEq)]
pub enum OpencodeExecutorEvent<S = String, J = Json> {
    SessionStart { session_id: S },
    SdkEvent { event: J },
    ApprovalResponse { tool_call_id: S, status: ApprovalStatus<S> },
    Error { message: S },
    Done,
}

impl DeepView for OpencodeExecutorEvent {
    type V = OpencodeExecutorEvent<Seq<char>, JsonView>;

    open spec fn deep_view(&self) -> OpencodeExecutorEvent<Seq<char>, JsonView> {
        match *self {
            OpencodeExecutorEvent::SessionStart { session_id } =>
            OpencodeExecutorEvent::SessionStart { session_id: session_id@ },
            OpencodeExecutorEvent::SdkEvent { event } => OpencodeExecutorEvent::SdkEvent {
                event: event.deep_view(),
            },
            OpencodeExecutorEvent::ApprovalResponse { tool_call_id, status } =>
            OpencodeExecutorEvent::ApprovalResponse {
                tool_call_id: tool_call_id@,
                status: status.deep_view(),
            },
            OpencodeExecutorEvent::Error { message } => OpencodeExecutorEvent::Error {
                message: message@,
            },
            OpencodeExecutorEvent::Done => OpencodeExecutorEvent::Done,
        }
    }
}

} // verus!
