//! Turning the log of a run into a conversation.
use vstd::hash_map::StringHashMap;
use vstd::prelude::*;
use vstd::string::*;

use crate::json;
use crate::json::{Json, JsonView};
use crate::model;
use crate::opencode::approvals;
use crate::opencode::approvals::ApprovalStatus;
use crate::opencode::events;
use crate::opencode::events::{
    MessageInfo, MessageRole, Part, SdkError, SdkEvent, TextPart, ToolPart,
};
use crate::opencode::logs;
use crate::opencode::logs::{
    EntryIndexProvider, EntryTypeView, EntryView, LogPatch, NormalizedEntryError,
    NormalizedEntryType, ToolStatus,
};
use crate::opencode::tool_calls;
use crate::opencode::tool_calls::{CallView, RenderRequest, Rendered, ToolCallState};
use crate::opencode::tools::ToolCallCommon;
use crate::opencode::types::OpencodeExecutorEvent;
use crate::text;

verus! {

// ---------------------------------------------------------------------------
// What is known of the conversation
// ---------------------------------------------------------------------------

/// A text that comes in pieces, and the index of its entry.
#[derive(Debug, PartialEq)]
pub struct StreamingText<S = String> {
    pub index: usize,
    pub content: S,
}

impl DeepView for StreamingText {
    type V = StreamingText<Seq<char>>;

    open spec fn deep_view(&self) -> StreamingText<Seq<char>> {
        StreamingText { index: self.index, content: self.content@ }
    }
}

/// How a piece of text changes what there is.
#[derive(Debug, Clone, Copy, PartialEq, Eq, Structural)]
pub enum UpdateMode {
    Append,
    Overwrite,
}

/// What is known of the conversation: who the messages are from, the texts and the thoughts of
/// each, the calls of tools, the approvals of calls, and whether the model was told of.
pub struct LogState {
    pub message_roles: StringHashMap<MessageRole>,
    pub assistant_text: StringHashMap<StreamingText>,
    pub thinking_text: StringHashMap<StreamingText>,
    pub tool_states: StringHashMap<ToolCallState>,
    pub approvals: StringHashMap<ApprovalStatus>,
    pub model_system_message_emitted: bool,
}

/// Texts that come in pieces, by message.
pub type Texts = Map<Seq<char>, StreamingText<Seq<char>>>;

/// What is known of the conversation, in the model.
pub ghost struct Conversation {
    pub roles: Map<Seq<char>, MessageRole>,
    pub assistant: Texts,
    pub thinking: Texts,
    pub calls: Map<Seq<char>, CallView>,
    pub approvals: Map<Seq<char>, ApprovalStatus<Seq<char>>>,
    pub model_told: bool,
}

/// What the values of a map say.
pub open spec fn deep_map<V: DeepView>(m: Map<Seq<char>, V>) -> Map<Seq<char>, V::V> {
    m.map_values(|v: V| v.deep_view())
}

proof fn lemma_deep_map_insert<V: DeepView>(m: Map<Seq<char>, V>, k: Seq<char>, v: V)
    ensures
        deep_map(m.insert(k, v)) == deep_map(m).insert(k, v.deep_view()),
{
    assert(deep_map(m.insert(k, v)) =~= deep_map(m).insert(k, v.deep_view()));
}

impl View for LogState {
    type V = Conversation;

    open spec fn view(&self) -> Conversation {
        Conversation {
            roles: self.message_roles@,
            assistant: deep_map(self.assistant_text@),
            thinking: deep_map(self.thinking_text@),
            calls: deep_map(self.tool_states@),
            approvals: deep_map(self.approvals@),
            model_told: self.model_system_message_emitted,
        }
    }
}

// ---------------------------------------------------------------------------
// What events do to the conversation
// ---------------------------------------------------------------------------

/// What comes of an event: what is known of the conversation, the index that is given out next,
/// the change of the conversation, if there is one, and the call whose entry is to be shown anew.
pub ghost struct LogStep {
    pub log: Conversation,
    pub next: usize,
    pub patch: Option<LogPatch<EntryView>>,
    pub call: Option<Seq<char>>,
}

/// An event that changes nothing.
pub open spec fn unchanged(log: Conversation, next: usize) -> LogStep {
    LogStep { log, next, patch: None, call: None }
}

/// An event that adds an entry.
pub open spec fn adds(log: Conversation, next: usize, entry: EntryView) -> LogStep {
    LogStep {
        log,
        next: logs::index_after(next),
        patch: Some(LogPatch::Add { index: next, entry }),
        call: None,
    }
}

/// What tells of the model that answers, where it is not told of yet and is known.
pub open spec fn model_step(log: Conversation, next: usize, info: MessageInfo<Seq<char>>) -> LogStep {
    if !log.model_told && info.model_name() is Some && info.provider() is Some {
        adds(
            Conversation { model_told: true, ..log },
            next,
            logs::plain_entry(
                NormalizedEntryType::SystemMessage,
                "model: "@ + info.model_name()->0 + "  provider: "@ + info.provider()->0,
            ),
        )
    } else {
        unchanged(log, next)
    }
}

/// What comes of a message.
pub open spec fn message_step(log: Conversation, next: usize, info: MessageInfo<Seq<char>>) -> LogStep {
    let step = model_step(log, next, info);
    LogStep {
        log: Conversation { roles: step.log.roles.insert(info.id, info.role), ..step.log },
        ..step
    }
}

/// A text after a piece of it came.
pub open spec fn text_after(
    texts: Texts,
    id: Seq<char>,
    next: usize,
    piece: Seq<char>,
    mode: UpdateMode,
) -> StreamingText<Seq<char>> {
    if texts.contains_key(id) {
        StreamingText {
            index: texts[id].index,
            content: if mode == UpdateMode::Append {
                texts[id].content + piece
            } else {
                piece
            },
        }
    } else {
        StreamingText { index: next, content: piece }
    }
}

/// What comes of a piece of text.
pub ghost struct TextStep {
    pub texts: Texts,
    pub next: usize,
    pub patch: Option<LogPatch<EntryView>>,
}

/// What comes of a piece of text: an entry is added for a text that is new, and replaced for one
/// that is not.
pub open spec fn text_step(
    texts: Texts,
    next: usize,
    entry_type: EntryTypeView,
    id: Seq<char>,
    piece: Seq<char>,
    mode: UpdateMode,
) -> TextStep {
    let after = text_after(texts, id, next, piece, mode);
    let entry = logs::plain_entry(entry_type, after.content);
    if piece.len() == 0 {
        TextStep { texts, next, patch: None }
    } else if texts.contains_key(id) {
        TextStep {
            texts: texts.insert(id, after),
            next,
            patch: Some(LogPatch::Replace { index: after.index, entry }),
        }
    } else {
        TextStep {
            texts: texts.insert(id, after),
            next: logs::index_after(next),
            patch: Some(LogPatch::Add { index: after.index, entry }),
        }
    }
}

/// Whether a message is from the assistant.
pub open spec fn from_assistant(log: Conversation, message_id: Seq<char>) -> bool {
    log.roles.contains_key(message_id) && log.roles[message_id] == MessageRole::Assistant
}

/// The piece of text that an event brings, and how it changes what there is: what was added, where
/// that is told, or else the whole text.
pub open spec fn piece_of(part: TextPart<Seq<char>>, delta: Option<Seq<char>>) -> (
    Seq<char>,
    UpdateMode,
) {
    match delta {
        Some(d) => (d, UpdateMode::Append),
        None => (part.text, UpdateMode::Overwrite),
    }
}

/// What is known of a call, whether or not it was told of before.
pub open spec fn call_known(log: Conversation, call_id: Seq<char>) -> CallView {
    let call = if log.calls.contains_key(call_id) {
        log.calls[call_id]
    } else {
        tool_calls::new_call(call_id)
    };
    let approval = if log.approvals.contains_key(call_id) {
        Some(log.approvals[call_id])
    } else {
        None
    };
    ToolCallState {
        common: ToolCallCommon {
            approval: model::either(call.common.approval, approval),
            ..call.common
        },
        ..call
    }
}

/// What comes of a part of a message. Only what the assistant says and does is shown.
pub open spec fn part_step(
    log: Conversation,
    next: usize,
    part: Part<Seq<char>, JsonView>,
    delta: Option<Seq<char>>,
) -> LogStep {
    match part {
        Part::Text(p) => if from_assistant(log, p.message_id) {
            let (piece, mode) = piece_of(p, delta);
            let step = text_step(
                log.assistant,
                next,
                NormalizedEntryType::AssistantMessage,
                p.message_id,
                piece,
                mode,
            );
            LogStep {
                log: Conversation { assistant: step.texts, ..log },
                next: step.next,
                patch: step.patch,
                call: None,
            }
        } else {
            unchanged(log, next)
        },
        Part::Reasoning(p) => if from_assistant(log, p.message_id) {
            let (piece, mode) = piece_of(p, delta);
            let step = text_step(
                log.thinking,
                next,
                NormalizedEntryType::Thinking,
                p.message_id,
                piece,
                mode,
            );
            LogStep {
                log: Conversation { thinking: step.texts, ..log },
                next: step.next,
                patch: step.patch,
                call: None,
            }
        } else {
            unchanged(log, next)
        },
        Part::Tool(p) => if from_assistant(log, p.message_id) && !text::blank(p.call_id) {
            LogStep {
                log: Conversation {
                    calls: log.calls.insert(
                        p.call_id,
                        tool_calls::call_after(call_known(log, p.call_id), p),
                    ),
                    ..log
                },
                next,
                patch: None,
                call: Some(p.call_id),
            }
        } else {
            unchanged(log, next)
        },
        Part::Other => unchanged(log, next),
    }
}

/// The entry that tells of an error of the session.
pub open spec fn session_error_entry(error: Option<SdkError<JsonView>>) -> EntryView {
    match error {
        Some(err) => {
            let general = "OpenCode session error: "@ + json::json_line(err.raw);
            if err.kind_of() == "ProviderAuthError"@ {
                logs::plain_entry(
                    NormalizedEntryType::ErrorMessage {
                        error_type: NormalizedEntryError::SetupRequired,
                    },
                    model::value_or(err.message_of(), general),
                )
            } else {
                logs::plain_entry(
                    NormalizedEntryType::ErrorMessage { error_type: NormalizedEntryError::Other },
                    general,
                )
            }
        },
        None => logs::plain_entry(
            NormalizedEntryType::ErrorMessage { error_type: NormalizedEntryError::Other },
            "OpenCode session error"@,
        ),
    }
}

/// What comes of an event that the server told of.
pub open spec fn sdk_step(
    log: Conversation,
    next: usize,
    event: SdkEvent<Seq<char>, JsonView>,
) -> LogStep {
    match event {
        SdkEvent::MessageUpdated { info } => message_step(log, next, info),
        SdkEvent::MessagePartUpdated { part, delta } => part_step(log, next, part, delta),
        SdkEvent::SessionError { error } => adds(log, next, session_error_entry(error)),
    }
}

/// The entry that tells of a denial.
pub open spec fn denial_entry(log: Conversation, call_id: Seq<char>, reason: Option<Seq<char>>) -> EntryView {
    logs::plain_entry(
        NormalizedEntryType::UserFeedback {
            denied_tool: if log.calls.contains_key(call_id) {
                log.calls[call_id].common.tool_name
            } else {
                "tool"@
            },
        },
        approvals::denial_text(reason),
    )
}

/// A call whose approval is known.
pub open spec fn with_approval(call: CallView, status: ApprovalStatus<Seq<char>>) -> CallView {
    ToolCallState {
        common: ToolCallCommon { approval: Some(status), ..call.common },
        ..call
    }
}

/// What comes of the answer to a request for approval: it is remembered, a denial is told of, and
/// the entry of the call, where there is one, is shown anew.
pub open spec fn approval_step(
    log: Conversation,
    next: usize,
    call_id: Seq<char>,
    status: ApprovalStatus<Seq<char>>,
) -> LogStep {
    let known = Conversation {
        approvals: log.approvals.insert(call_id, status),
        calls: if log.calls.contains_key(call_id) {
            log.calls.insert(call_id, with_approval(log.calls[call_id], status))
        } else {
            log.calls
        },
        ..log
    };
    let call = if log.calls.contains_key(call_id) && log.calls[call_id].common.index is Some {
        Some(call_id)
    } else {
        None
    };
    match status {
        ApprovalStatus::Denied { reason } => LogStep {
            call,
            ..adds(known, next, denial_entry(log, call_id, reason))
        },
        _ => LogStep { call, ..unchanged(known, next) },
    }
}

/// What comes of showing the entry of a call: it takes the place of the entry that told of the
/// call before, or is added.
pub open spec fn show_step(
    log: Conversation,
    next: usize,
    call_id: Seq<char>,
    rendered: Rendered<Seq<char>>,
) -> LogStep {
    if log.calls.contains_key(call_id) {
        let call = log.calls[call_id];
        let entry = tool_calls::entry_of(call, rendered);
        match call.common.index {
            Some(index) => LogStep {
                patch: Some(LogPatch::Replace { index, entry }),
                ..unchanged(log, next)
            },
            None => adds(
                Conversation {
                    calls: log.calls.insert(
                        call_id,
                        ToolCallState {
                            common: ToolCallCommon { index: Some(next), ..call.common },
                            ..call
                        },
                    ),
                    ..log
                },
                next,
                entry,
            ),
        }
    } else {
        unchanged(log, next)
    }
}

/// What is to be done about an event: the change of the conversation, and the call whose entry is
/// to be shown anew.
#[derive(Debug, PartialEq)]
pub struct Handled {
    pub patch: Option<LogPatch>,
    pub call: Option<String>,
}

impl Handled {
    /// Whether it tells of a step.
    pub open spec fn tells_of(self, step: LogStep) -> bool {
        self.patch.deep_view() == step.patch && self.call.deep_view() == step.call
    }
}

fn nothing() -> (res: Handled)
    ensures
        res.patch is None,
        res.call is None,
{
    Handled { patch: None, call: None }
}

/// Takes a piece of text.
pub fn update_streaming_text(
    entry_index: &mut EntryIndexProvider,
    piece: &str,
    entry_type: NormalizedEntryType,
    message_id: &str,
    texts: &mut StringHashMap<StreamingText>,
    mode: UpdateMode,
) -> (res: Option<LogPatch>)
    ensures
        ({
            let step = text_step(
                deep_map(old(texts)@),
                old(entry_index).next,
                entry_type.deep_view(),
                message_id@,
                piece@,
                mode,
            );
            &&& deep_map(final(texts)@) == step.texts
            &&& final(entry_index).next == step.next
            &&& res.deep_view() == step.patch
        }),
{
    if piece.is_empty() {
        return None;
    }
    let ghost before = texts@;
    let is_new = !texts.contains_key(message_id);
    let state = match texts.get(message_id) {
        Some(known) => {
            let content = match mode {
                UpdateMode::Append => text::cat2(known.content.as_str(), piece),
                UpdateMode::Overwrite => text::owned(piece),
            };
            StreamingText { index: known.index, content }
        },
        None => StreamingText { index: entry_index.next(), content: text::owned(piece) },
    };
    let index: usize = state.index;
    let entry = logs::make_plain_entry(entry_type, state.content.clone());
    proof {
        lemma_deep_map_insert(before, message_id@, state);
    }
    texts.insert(text::owned(message_id), state);
    if is_new {
        Some(LogPatch::Add { index, entry })
    } else {
        Some(LogPatch::Replace { index, entry })
    }
}

impl LogState {
    /// Nothing known of the conversation.
    pub fn new() -> (res: Self)
        ensures
            res@ == (Conversation {
                roles: Map::empty(),
                assistant: Map::empty(),
                thinking: Map::empty(),
                calls: Map::empty(),
                approvals: Map::empty(),
                model_told: false,
            }),
    {
        let res = LogState {
            message_roles: StringHashMap::new(),
            assistant_text: StringHashMap::new(),
            thinking_text: StringHashMap::new(),
            tool_states: StringHashMap::new(),
            approvals: StringHashMap::new(),
            model_system_message_emitted: false,
        };
        assert(res@.assistant =~= Map::empty());
        assert(res@.thinking =~= Map::empty());
        assert(res@.calls =~= Map::empty());
        assert(res@.approvals =~= Map::empty());
        res
    }

    fn is_assistant(&self, message_id: &str) -> (res: bool)
        ensures
            res == from_assistant(self@, message_id@),
    {
        match self.message_roles.get(message_id) {
            Some(role) => match role {
                MessageRole::Assistant => true,
                MessageRole::User => false,
            },
            None => false,
        }
    }

    /// Tells of the model that answers, where it is not told of yet and is known.
    pub fn maybe_emit_model_system_message(
        &mut self,
        info: &MessageInfo,
        entry_index: &mut EntryIndexProvider,
    ) -> (res: Option<LogPatch>)
        ensures
            ({
                let step = model_step(old(self)@, old(entry_index).next, info.deep_view());
                &&& final(self)@ == step.log
                &&& final(entry_index).next == step.next
                &&& res.deep_view() == step.patch
            }),
    {
        if self.model_system_message_emitted {
            return None;
        }
        let model_id = match info.model_id() {
            Some(m) => m,
            None => {
                return None;
            },
        };
        let provider_id = match info.provider_id() {
            Some(p) => p,
            None => {
                return None;
            },
        };
        let content = text::cat4("model: ", model_id, "  provider: ", provider_id);
        let entry = logs::make_plain_entry(NormalizedEntryType::SystemMessage, content);
        let index = entry_index.next();
        self.model_system_message_emitted = true;
        Some(LogPatch::Add { index, entry })
    }

    fn handle_tool_part(&mut self, part: ToolPart) -> (res: Handled)
        ensures
            ({
                let step = part_step(old(self)@, 0, Part::Tool(part.deep_view()), None);
                &&& final(self)@ == step.log
                &&& res.tells_of(step)
            }),
    {
        if !self.is_assistant(part.message_id.as_str()) {
            return nothing();
        }
        if text::is_blank(part.call_id.as_str()) {
            return nothing();
        }
        let call_id = part.call_id.clone();
        let ghost known = call_known(self@, call_id@);
        let mut call = match self.tool_states.get(call_id.as_str()) {
            Some(c) => c.copy(),
            None => ToolCallState::new(call_id.clone()),
        };
        let approval = match self.approvals.get(call_id.as_str()) {
            Some(a) => Some(a.copy()),
            None => None,
        };
        call.set_approval_if_missing(approval);
        assert(call.deep_view() == known);
        let after = call.update_from_part(part);
        proof {
            lemma_deep_map_insert(self.tool_states@, call_id@, after);
        }
        self.tool_states.insert(call_id.clone(), after);
        Handled { patch: None, call: Some(call_id) }
    }

    /// Takes a part of a message.
    pub fn handle_part_update(
        &mut self,
        part: Part,
        delta: Option<&str>,
        entry_index: &mut EntryIndexProvider,
    ) -> (res: Handled)
        ensures
            ({
                let step = part_step(
                    old(self)@,
                    old(entry_index).next,
                    part.deep_view(),
                    delta.deep_view(),
                );
                &&& final(self)@ == step.log
                &&& final(entry_index).next == step.next
                &&& res.tells_of(step)
            }),
    {
        match part {
            Part::Text(p) => {
                if !self.is_assistant(p.message_id.as_str()) {
                    return nothing();
                }
                let (piece, mode) = match delta {
                    Some(d) => (d, UpdateMode::Append),
                    None => (p.text.as_str(), UpdateMode::Overwrite),
                };
                let patch = update_streaming_text(
                    entry_index,
                    piece,
                    NormalizedEntryType::AssistantMessage,
                    p.message_id.as_str(),
                    &mut self.assistant_text,
                    mode,
                );
                Handled { patch, call: None }
            },
            Part::Reasoning(p) => {
                if !self.is_assistant(p.message_id.as_str()) {
                    return nothing();
                }
                let (piece, mode) = match delta {
                    Some(d) => (d, UpdateMode::Append),
                    None => (p.text.as_str(), UpdateMode::Overwrite),
                };
                let patch = update_streaming_text(
                    entry_index,
                    piece,
                    NormalizedEntryType::Thinking,
                    p.message_id.as_str(),
                    &mut self.thinking_text,
                    mode,
                );
                Handled { patch, call: None }
            },
            Part::Tool(p) => self.handle_tool_part(p),
            Part::Other => nothing(),
        }
    }

    /// Takes an event that the server told of.
    pub fn handle_event(&mut self, event: SdkEvent, entry_index: &mut EntryIndexProvider) -> (res:
        Handled)
        ensures
            ({
                let step = sdk_step(old(self)@, old(entry_index).next, event.deep_view());
                &&& final(self)@ == step.log
                &&& final(entry_index).next == step.next
                &&& res.tells_of(step)
            }),
    {
        match event {
            SdkEvent::MessageUpdated { info } => {
                let patch = self.maybe_emit_model_system_message(&info, entry_index);
                self.message_roles.insert(info.id, info.role);
                Handled { patch, call: None }
            },
            SdkEvent::MessagePartUpdated { part, delta } => {
                self.handle_part_update(
                    part,
                    crate::process::borrow_opt(&delta),
                    entry_index,
                )
            },
            SdkEvent::SessionError { error } => {
                let (error_type, message) = match error {
                    Some(err) => {
                        let raw = err.raw.to_line();
                        let general = text::cat2("OpenCode session error: ", raw.as_str());
                        if text::str_eq(err.kind().as_str(), "ProviderAuthError") {
                            let said = match err.message() {
                                Some(m) => m,
                                None => general,
                            };
                            (NormalizedEntryError::SetupRequired, said)
                        } else {
                            (NormalizedEntryError::Other, general)
                        }
                    },
                    None => (NormalizedEntryError::Other, text::owned("OpenCode session error")),
                };
                let entry = logs::make_plain_entry(
                    NormalizedEntryType::ErrorMessage { error_type },
                    message,
                );
                let index = entry_index.next();
                Handled { patch: Some(LogPatch::Add { index, entry }), call: None }
            },
        }
    }

    /// Takes an event that the server told of, as it was written to the log. What is no event that
    /// matters changes nothing.
    pub fn handle_sdk_event(&mut self, raw: &Json, entry_index: &mut EntryIndexProvider) -> (res:
        Handled)
        ensures
            ({
                let step = match events::sdk_event_of(raw.deep_view()) {
                    Some(event) => sdk_step(old(self)@, old(entry_index).next, event),
                    None => unchanged(old(self)@, old(entry_index).next),
                };
                &&& final(self)@ == step.log
                &&& final(entry_index).next == step.next
                &&& res.tells_of(step)
            }),
    {
        match SdkEvent::parse(raw) {
            Some(event) => self.handle_event(event, entry_index),
            None => nothing(),
        }
    }

    /// Takes the answer to a request for approval.
    pub fn handle_approval_response(
        &mut self,
        tool_call_id: &str,
        status: ApprovalStatus,
        entry_index: &mut EntryIndexProvider,
    ) -> (res: Handled)
        ensures
            ({
                let step = approval_step(
                    old(self)@,
                    old(entry_index).next,
                    tool_call_id@,
                    status.deep_view(),
                );
                &&& final(self)@ == step.log
                &&& final(entry_index).next == step.next
                &&& res.tells_of(step)
            }),
    {
        let ghost before = self@;
        proof {
            lemma_deep_map_insert(self.approvals@, tool_call_id@, status);
        }
        self.approvals.insert(text::owned(tool_call_id), status.copy());
        let mut patch: Option<LogPatch> = None;
        if let ApprovalStatus::Denied { reason } = &status {
            let denied_tool = match self.tool_states.get(tool_call_id) {
                Some(c) => c.common.tool_name.clone(),
                None => text::owned("tool"),
            };
            let given = match reason {
                Some(r) => r.as_str(),
                None => "User denied this tool use request",
            };
            let entry = logs::make_plain_entry(
                NormalizedEntryType::UserFeedback { denied_tool },
                text::owned(text::trim(given)),
            );
            let index = entry_index.next();
            patch = Some(LogPatch::Add { index, entry });
        }
        let mut call = match self.tool_states.get(tool_call_id) {
            Some(c) => c.copy(),
            None => {
                return Handled { patch, call: None };
            },
        };
        let shown = call.common.index.is_some();
        call.common.approval = Some(status);
        proof {
            lemma_deep_map_insert(self.tool_states@, tool_call_id@, call);
        }
        self.tool_states.insert(text::owned(tool_call_id), call);
        if shown {
            Handled { patch, call: Some(text::owned(tool_call_id)) }
        } else {
            Handled { patch, call: None }
        }
    }

    /// What of a call is shown in terms of the project's directory.
    pub fn render_request(&self, call_id: &str) -> (res: Option<RenderRequest>)
        ensures
            res.deep_view() == if self@.calls.contains_key(call_id@) {
                Some(tool_calls::to_render(self@.calls[call_id@].tool))
            } else {
                None
            },
    {
        match self.tool_states.get(call_id) {
            Some(call) => Some(call.render_request()),
            None => None,
        }
    }

    /// Shows the entry of a call: it takes the place of the entry that told of the call before, or
    /// is added.
    pub fn show_call(
        &mut self,
        call_id: &str,
        rendered: &Rendered,
        entry_index: &mut EntryIndexProvider,
    ) -> (res: Option<LogPatch>)
        ensures
            ({
                let step = show_step(
                    old(self)@,
                    old(entry_index).next,
                    call_id@,
                    rendered.deep_view(),
                );
                &&& final(self)@ == step.log
                &&& final(entry_index).next == step.next
                &&& res.deep_view() == step.patch
            }),
    {
        let mut call = match self.tool_states.get(call_id) {
            Some(c) => c.copy(),
            None => {
                return None;
            },
        };
        let entry = call.to_normalized_entry(rendered);
        match call.common.index {
            Some(index) => Some(LogPatch::Replace { index, entry }),
            None => {
                let index = entry_index.next();
                call.common.index = Some(index);
                proof {
                    lemma_deep_map_insert(self.tool_states@, call_id@, call);
                }
                self.tool_states.insert(text::owned(call_id), call);
                Some(LogPatch::Add { index, entry })
            },
        }
    }
}

// ---------------------------------------------------------------------------
// The log of a run
// ---------------------------------------------------------------------------

/// The conversation that the log of a run tells of.
pub struct LogNormalizer {
    pub stored_session_id: bool,
    pub state: LogState,
}

/// What is to be done about an event in the log of a run: the session that is to be remembered,
/// the change of the conversation, and the call whose entry is to be shown anew.
#[derive(Debug, PartialEq)]
pub struct Normalized {
    pub session_id: Option<String>,
    pub patch: Option<LogPatch>,
    pub call: Option<String>,
}

/// What comes of an event in the log of a run.
pub ghost struct RunStep {
    pub stored_session_id: bool,
    pub session_id: Option<Seq<char>>,
    pub step: LogStep,
}

/// What comes of an event in the log of a run. The first session that is told of is remembered.
pub open spec fn run_step(
    stored_session_id: bool,
    log: Conversation,
    next: usize,
    event: OpencodeExecutorEvent<Seq<char>, JsonView>,
) -> RunStep {
    match event {
        OpencodeExecutorEvent::SessionStart { session_id } => RunStep {
            stored_session_id: true,
            session_id: if stored_session_id {
                None
            } else {
                Some(session_id)
            },
            step: unchanged(log, next),
        },
        OpencodeExecutorEvent::SdkEvent { event } => RunStep {
            stored_session_id,
            session_id: None,
            step: match events::sdk_event_of(event) {
                Some(e) => sdk_step(log, next, e),
                None => unchanged(log, next),
            },
        },
        OpencodeExecutorEvent::ApprovalResponse { tool_call_id, status } => RunStep {
            stored_session_id,
            session_id: None,
            step: approval_step(log, next, tool_call_id, status),
        },
        OpencodeExecutorEvent::Error { message } => RunStep {
            stored_session_id,
            session_id: None,
            step: adds(
                log,
                next,
                logs::plain_entry(
                    NormalizedEntryType::ErrorMessage { error_type: NormalizedEntryError::Other },
                    message,
                ),
            ),
        },
        OpencodeExecutorEvent::Done => RunStep {
            stored_session_id,
            session_id: None,
            step: unchanged(log, next),
        },
    }
}

impl LogNormalizer {
    /// Nothing read of the log.
    pub fn new() -> (res: Self)
        ensures
            !res.stored_session_id,
            res.state@ == (Conversation {
                roles: Map::empty(),
                assistant: Map::empty(),
                thinking: Map::empty(),
                calls: Map::empty(),
                approvals: Map::empty(),
                model_told: false,
            }),
    {
        LogNormalizer { stored_session_id: false, state: LogState::new() }
    }

    /// Takes an event in the log of a run.
    pub fn on_event(
        &mut self,
        event: OpencodeExecutorEvent,
        entry_index: &mut EntryIndexProvider,
    ) -> (res: Normalized)
        ensures
            ({
                let run = run_step(
                    old(self).stored_session_id,
                    old(self).state@,
                    old(entry_index).next,
                    event.deep_view(),
                );
                &&& final(self).stored_session_id == run.stored_session_id
                &&& final(self).state@ == run.step.log
                &&& final(entry_index).next == run.step.next
                &&& res.session_id.deep_view() == run.session_id
                &&& res.patch.deep_view() == run.step.patch
                &&& res.call.deep_view() == run.step.call
            }),
    {
        match event {
            OpencodeExecutorEvent::SessionStart { session_id } => {
                let remembered = if self.stored_session_id {
                    None
                } else {
                    Some(session_id)
                };
                self.stored_session_id = true;
                Normalized { session_id: remembered, patch: None, call: None }
            },
            OpencodeExecutorEvent::SdkEvent { event } => {
                let handled = self.state.handle_sdk_event(&event, entry_index);
                Normalized { session_id: None, patch: handled.patch, call: handled.call }
            },
            OpencodeExecutorEvent::ApprovalResponse { tool_call_id, status } => {
                let handled = self.state.handle_approval_response(
                    tool_call_id.as_str(),
                    status,
                    entry_index,
                );
                Normalized { session_id: None, patch: handled.patch, call: handled.call }
            },
            OpencodeExecutorEvent::Error { message } => {
                let entry = logs::make_plain_entry(
                    NormalizedEntryType::ErrorMessage { error_type: NormalizedEntryError::Other },
                    message,
                );
                let index = entry_index.next();
                Normalized {
                    session_id: None,
                    patch: Some(LogPatch::Add { index, entry }),
                    call: None,
                }
            },
            OpencodeExecutorEvent::Done => Normalized {
                session_id: None,
                patch: None,
                call: None,
            },
        }
    }
}

// ---------------------------------------------------------------------------
// Laws
// ---------------------------------------------------------------------------

/// Whether all entries of texts have indexes that were given out.
pub open spec fn texts_below(texts: Texts, next: usize) -> bool {
    forall|id: Seq<char>| #[trigger] texts.contains_key(id) ==> texts[id].index < next
}

/// Whether all entries of calls have indexes that were given out.
pub open spec fn calls_below(calls: Map<Seq<char>, CallView>, next: usize) -> bool {
    forall|id: Seq<char>| #[trigger]
        calls.contains_key(id) ==> match calls[id].common.index {
            Some(index) => index < next,
            None => true,
        }
}

/// Whether all entries of the conversation that may change have indexes that were given out.
pub open spec fn below(log: Conversation, next: usize) -> bool {
    &&& texts_below(log.assistant, next)
    &&& texts_below(log.thinking, next)
    &&& calls_below(log.calls, next)
}

/// Whether a step adds only at the next index, and replaces only what was added.
pub open spec fn indexes_kept(next: usize, step: LogStep) -> bool {
    &&& below(step.log, step.next)
    &&& next <= step.next
    &&& match step.patch {
        Some(LogPatch::Add { index, .. }) => index == next && step.next == next + 1,
        Some(LogPatch::Replace { index, .. }) => index < next && step.next == next,
        None => step.next == next,
    }
}

proof fn lemma_text_indexes(
    texts: Texts,
    next: usize,
    entry_type: EntryTypeView,
    id: Seq<char>,
    piece: Seq<char>,
    mode: UpdateMode,
)
    requires
        texts_below(texts, next),
        next < usize::MAX,
    ensures
        ({
            let step = text_step(texts, next, entry_type, id, piece, mode);
            &&& texts_below(step.texts, step.next)
            &&& next <= step.next
            &&& match step.patch {
                Some(LogPatch::Add { index, .. }) => index == next && step.next == next + 1,
                Some(LogPatch::Replace { index, .. }) => index < next && step.next == next,
                None => step.next == next,
            }
        }),
{
    let step = text_step(texts, next, entry_type, id, piece, mode);
    assert forall|k: Seq<char>| #[trigger] step.texts.contains_key(k) implies step.texts[k].index
        < step.next by {
        if k != id && piece.len() > 0 {
            assert(texts.contains_key(k));
        } else if texts.contains_key(k) {
            assert(texts[k].index < next);
        }
    }
}

proof fn lemma_calls_insert(calls: Map<Seq<char>, CallView>, next: usize, id: Seq<char>, call: CallView)
    requires
        calls_below(calls, next),
        call.common.index is Some ==> call.common.index->0 < next,
    ensures
        calls_below(calls.insert(id, call), next),
{
    let after = calls.insert(id, call);
    assert forall|k: Seq<char>| #[trigger] after.contains_key(k) implies match after[k].common.index {
        Some(index) => index < next,
        None => true,
    } by {
        if k != id {
            assert(calls.contains_key(k));
        }
    }
}

/// As long as there are indexes left, an event that the server tells of adds an entry only at an
/// index that was not given out before, and replaces an entry only at one that was.
pub proof fn lemma_sdk_indexes(
    log: Conversation,
    next: usize,
    event: SdkEvent<Seq<char>, JsonView>,
)
    requires
        below(log, next),
        next < usize::MAX,
    ensures
        indexes_kept(next, sdk_step(log, next, event)),
{
    match event {
        SdkEvent::MessagePartUpdated { part, delta } => match part {
            Part::Text(p) => {
                let (piece, mode) = piece_of(p, delta);
                lemma_text_indexes(
                    log.assistant,
                    next,
                    NormalizedEntryType::AssistantMessage,
                    p.message_id,
                    piece,
                    mode,
                );
                lemma_below_next(log, next);
            },
            Part::Reasoning(p) => {
                let (piece, mode) = piece_of(p, delta);
                lemma_text_indexes(
                    log.thinking,
                    next,
                    NormalizedEntryType::Thinking,
                    p.message_id,
                    piece,
                    mode,
                );
                lemma_below_next(log, next);
            },
            Part::Tool(p) => {
                let call = tool_calls::call_after(call_known(log, p.call_id), p);
                lemma_calls_insert(log.calls, next, p.call_id, call);
            },
            Part::Other => {},
        },
        _ => {
            lemma_below_next(log, next);
        },
    }
}

proof fn lemma_below_next(log: Conversation, next: usize)
    requires
        below(log, next),
        next < usize::MAX,
    ensures
        below(log, (next + 1) as usize),
{
    let later = (next + 1) as usize;
    assert forall|k: Seq<char>| #[trigger] log.assistant.contains_key(k) implies log.assistant[k].index
        < later by {
        assert(log.assistant[k].index < next);
    }
    assert forall|k: Seq<char>| #[trigger] log.thinking.contains_key(k) implies log.thinking[k].index
        < later by {
        assert(log.thinking[k].index < next);
    }
    assert(calls_below(log.calls, next));
}

/// As long as there are indexes left, the answer to a request for approval adds an entry only at
/// an index that was not given out before.
pub proof fn lemma_approval_indexes(
    log: Conversation,
    next: usize,
    call_id: Seq<char>,
    status: ApprovalStatus<Seq<char>>,
)
    requires
        below(log, next),
        next < usize::MAX,
    ensures
        indexes_kept(next, approval_step(log, next, call_id, status)),
{
    let step = approval_step(log, next, call_id, status);
    if log.calls.contains_key(call_id) {
        lemma_calls_insert(
            log.calls,
            next,
            call_id,
            with_approval(log.calls[call_id], status),
        );
    }
    lemma_below_next(step.log, next);
}

/// As long as there are indexes left, the entry of a call is added only at an index that was not
/// given out before, and replaced only at the one that the call has; a call that was shown has
/// one.
pub proof fn lemma_show_indexes(
    log: Conversation,
    next: usize,
    call_id: Seq<char>,
    rendered: Rendered<Seq<char>>,
)
    requires
        below(log, next),
        next < usize::MAX,
    ensures
        indexes_kept(next, show_step(log, next, call_id, rendered)),
        log.calls.contains_key(call_id) ==> show_step(
            log,
            next,
            call_id,
            rendered,
        ).log.calls[call_id].common.index is Some,
{
    lemma_below_next(log, next);
    if log.calls.contains_key(call_id) {
        let call = log.calls[call_id];
        if call.common.index is None {
            lemma_calls_insert(
                log.calls,
                (next + 1) as usize,
                call_id,
                ToolCallState {
                    common: ToolCallCommon { index: Some(next), ..call.common },
                    ..call
                },
            );
        }
    }
}

/// As long as there are indexes left, an event in the log of a run adds an entry only at an index
/// that was not given out before, and replaces an entry only at one that was.
pub proof fn lemma_run_indexes(
    stored_session_id: bool,
    log: Conversation,
    next: usize,
    event: OpencodeExecutorEvent<Seq<char>, JsonView>,
)
    requires
        below(log, next),
        next < usize::MAX,
    ensures
        indexes_kept(next, run_step(stored_session_id, log, next, event).step),
{
    lemma_below_next(log, next);
    match event {
        OpencodeExecutorEvent::SdkEvent { event } => match events::sdk_event_of(event) {
            Some(e) => {
                lemma_sdk_indexes(log, next, e);
            },
            None => {},
        },
        OpencodeExecutorEvent::ApprovalResponse { tool_call_id, status } => {
            lemma_approval_indexes(log, next, tool_call_id, status);
        },
        _ => {},
    }
}

/// The index of the entry that tells of a call, where there is one.
pub open spec fn call_index(calls: Map<Seq<char>, CallView>, id: Seq<char>) -> Option<usize> {
    if calls.contains_key(id) {
        calls[id].common.index
    } else {
        None
    }
}

/// Whether no two calls have the same entry.
pub open spec fn calls_apart(calls: Map<Seq<char>, CallView>) -> bool {
    forall|a: Seq<char>, b: Seq<char>|
        a != b && #[trigger] call_index(calls, a) is Some ==> call_index(calls, a)
            != #[trigger] call_index(calls, b)
}

/// No event in the log of a run gives a call another entry: each call keeps the one that it has, and
/// two calls that have different ones keep them.
pub proof fn lemma_calls_keep_entries(
    stored_session_id: bool,
    log: Conversation,
    next: usize,
    event: OpencodeExecutorEvent<Seq<char>, JsonView>,
)
    ensures
        ({
            let after = run_step(stored_session_id, log, next, event).step.log;
            &&& forall|id: Seq<char>| #[trigger]
                call_index(after.calls, id) == call_index(log.calls, id)
            &&& calls_apart(log.calls) ==> calls_apart(after.calls)
        }),
{
    let after = run_step(stored_session_id, log, next, event).step.log;
    assert forall|id: Seq<char>| #[trigger]
        call_index(after.calls, id) == call_index(log.calls, id) by {
        match event {
            OpencodeExecutorEvent::SdkEvent { event } => match events::sdk_event_of(event) {
                Some(
                    SdkEvent::MessagePartUpdated { part: Part::Tool(p), .. },
                ) => {
                    tool_calls::lemma_update_keeps(call_known(log, p.call_id), p);
                },
                _ => {},
            },
            _ => {},
        }
    }
    if calls_apart(log.calls) {
        assert forall|a: Seq<char>, b: Seq<char>|
            a != b && #[trigger] call_index(after.calls, a) is Some implies call_index(
            after.calls,
            a,
        ) != #[trigger] call_index(after.calls, b) by {
            assert(call_index(log.calls, a) != call_index(log.calls, b));
        }
    }
}

/// A part of a message that tells of a call, and how what it tells is shown.
pub ghost struct ShownPart {
    pub part: ToolPart<Seq<char>, JsonView>,
    pub delta: Option<Seq<char>>,
    pub rendered: Rendered<Seq<char>>,
}

/// Whether a part is of the assistant, and says which call it tells of.
pub open spec fn tells_of_call(log: Conversation, shown: ShownPart) -> bool {
    from_assistant(log, shown.part.message_id) && !text::blank(shown.part.call_id)
}

/// What comes of a part that tells of a call, and of showing the call then.
pub open spec fn call_step(log: Conversation, next: usize, shown: ShownPart) -> LogStep {
    let told = part_step(log, next, Part::Tool(shown.part), shown.delta);
    match told.call {
        Some(id) => show_step(told.log, told.next, id, shown.rendered),
        None => told,
    }
}

/// What comes of parts that tell of calls, one after the other.
pub ghost struct CallRun {
    pub log: Conversation,
    pub next: usize,
    pub patches: Seq<Option<LogPatch<EntryView>>>,
}

/// What comes of parts that tell of calls, one after the other, each shown at once.
pub open spec fn call_run(log: Conversation, next: usize, parts: Seq<ShownPart>) -> CallRun
    decreases parts.len(),
{
    if parts.len() == 0 {
        CallRun { log, next, patches: seq![] }
    } else {
        let before = call_run(log, next, parts.drop_last());
        let step = call_step(before.log, before.next, parts.last());
        CallRun { log: step.log, next: step.next, patches: before.patches.push(step.patch) }
    }
}

/// The index at which a change is made.
pub open spec fn patch_index(patch: Option<LogPatch<EntryView>>) -> Option<usize> {
    match patch {
        Some(LogPatch::Add { index, .. }) => Some(index),
        Some(LogPatch::Replace { index, .. }) => Some(index),
        None => None,
    }
}

/// Whether a change adds an entry.
pub open spec fn adds_entry(patch: Option<LogPatch<EntryView>>) -> bool {
    patch matches Some(p) && p is Add
}

/// Where a call stands by the entry that a change makes.
pub open spec fn patch_status(patch: Option<LogPatch<EntryView>>) -> Option<ToolStatus<Seq<char>>> {
    let entry = match patch {
        Some(LogPatch::Add { entry, .. }) => Some(entry),
        Some(LogPatch::Replace { entry, .. }) => Some(entry),
        None => None,
    };
    match entry {
        Some(e) => match e.entry_type {
            NormalizedEntryType::ToolUse { status, .. } => Some(status),
            _ => None,
        },
        None => None,
    }
}

/// Whether a call was told of by one of the parts.
pub open spec fn told_of(parts: Seq<ShownPart>, id: Seq<char>) -> bool {
    exists|i: int| 0 <= i < parts.len() && (#[trigger] parts[i]).part.call_id == id
}

/// What is known of the approval of a call.
pub open spec fn approval_known(log: Conversation, id: Seq<char>) -> Option<
    ApprovalStatus<Seq<char>>,
> {
    call_known(log, id).common.approval
}

/// How a call is shown whose approval decides how it is shown.
pub open spec fn status_by_approval(approval: Option<ApprovalStatus<Seq<char>>>) -> Option<
    ToolStatus<Seq<char>>,
> {
    match approval {
        Some(ApprovalStatus::Denied { reason }) => Some(ToolStatus::Denied { reason }),
        Some(ApprovalStatus::TimedOut) => Some(ToolStatus::TimedOut),
        _ => None,
    }
}

proof fn lemma_call_step(log: Conversation, next: usize, shown: ShownPart)
    requires
        tells_of_call(log, shown),
    ensures
        ({
            let id = shown.part.call_id;
            let step = call_step(log, next, shown);
            let known = call_index(log.calls, id);
            &&& step.log.roles == log.roles
            &&& step.log.approvals == log.approvals
            &&& step.log.assistant == log.assistant
            &&& step.log.thinking == log.thinking
            &&& step.log.calls == log.calls.insert(id, step.log.calls[id])
            &&& call_index(step.log.calls, id) == patch_index(step.patch)
            &&& adds_entry(step.patch) <==> known is None
            &&& known is Some ==> patch_index(step.patch) == known && step.next == next
            &&& known is None ==> patch_index(step.patch) == Some(next) && step.next
                == logs::index_after(next)
            &&& approval_known(step.log, id) == approval_known(log, id)
            &&& status_by_approval(approval_known(log, id)) is Some ==> patch_status(step.patch)
                == status_by_approval(approval_known(log, id))
        }),
{
    let id = shown.part.call_id;
    let told = part_step(log, next, Part::Tool(shown.part), shown.delta);
    let step = call_step(log, next, shown);
    let call = tool_calls::call_after(call_known(log, id), shown.part);
    tool_calls::lemma_update_keeps(call_known(log, id), shown.part);
    assert(told.log.calls == log.calls.insert(id, call));
    assert(told.log.calls[id] == call);
    assert(call.common.index == call_index(log.calls, id));
    assert(call.common.approval == approval_known(log, id));
    assert(step.log.calls =~= log.calls.insert(id, step.log.calls[id]));
    assert(step.log.calls[id].common.approval == call.common.approval);
    assert(patch_status(step.patch) == Some(call.common.status()));
}

/// What a run of parts that tell of calls keeps, and where it makes its changes.
proof fn lemma_call_run(log: Conversation, next: usize, parts: Seq<ShownPart>)
    requires
        below(log, next),
        calls_apart(log.calls),
        forall|i: int| 0 <= i < parts.len() ==> tells_of_call(log, #[trigger] parts[i]),
        next + parts.len() <= usize::MAX,
    ensures
        ({
            let run = call_run(log, next, parts);
            &&& run.log.roles == log.roles
            &&& run.log.approvals == log.approvals
            &&& below(run.log, run.next)
            &&& calls_apart(run.log.calls)
            &&& next <= run.next <= next + parts.len()
            &&& run.patches.len() == parts.len()
            &&& forall|i: int|
                0 <= i < parts.len() ==> patch_index(#[trigger] run.patches[i]) is Some
                    && patch_index(run.patches[i]) == call_index(
                    run.log.calls,
                    parts[i].part.call_id,
                )
            &&& forall|i: int|
                0 <= i < parts.len() ==> (adds_entry(#[trigger] run.patches[i]) <==> call_index(
                    log.calls,
                    parts[i].part.call_id,
                ) is None && !told_of(parts.take(i), parts[i].part.call_id))
            &&& forall|i: int|
                0 <= i < parts.len() && adds_entry(#[trigger] run.patches[i]) ==> next
                    <= patch_index(run.patches[i])->0
            &&& forall|i: int|
                0 <= i < parts.len() && status_by_approval(
                    approval_known(log, parts[i].part.call_id),
                ) is Some ==> patch_status(#[trigger] run.patches[i]) == status_by_approval(
                    approval_known(log, parts[i].part.call_id),
                )
            &&& forall|id: Seq<char>|
                #![trigger call_index(run.log.calls, id)]
                call_index(log.calls, id) is Some ==> call_index(run.log.calls, id) == call_index(
                    log.calls,
                    id,
                )
            &&& forall|id: Seq<char>|
                #![trigger call_index(run.log.calls, id)]
                call_index(run.log.calls, id) is Some <==> call_index(log.calls, id) is Some
                    || told_of(parts, id)
            &&& forall|id: Seq<char>| #[trigger]
                approval_known(run.log, id) == approval_known(log, id)
        }),
    decreases parts.len(),
{
    let run = call_run(log, next, parts);
    if parts.len() > 0 {
        let init = parts.drop_last();
        let last = parts.last();
        let id = last.part.call_id;
        let n = init.len() as int;
        assert forall|i: int| 0 <= i < init.len() implies tells_of_call(log, #[trigger] init[i]) by {
            assert(tells_of_call(log, parts[i]));
        }
        lemma_call_run(log, next, init);
        let before = call_run(log, next, init);
        assert(tells_of_call(log, parts[n]));
        lemma_call_step(before.log, before.next, last);
        let step = call_step(before.log, before.next, last);
        lemma_run_keeps_below(before, last);
        assert(run.log == step.log && run.patches == before.patches.push(step.patch));
        // Of the other calls nothing changes.
        assert forall|k: Seq<char>| k != id implies #[trigger] call_index(run.log.calls, k)
            == call_index(before.log.calls, k) && approval_known(run.log, k) == approval_known(
            before.log,
            k,
        ) by {}
        assert(call_index(run.log.calls, id) == patch_index(step.patch));
        assert(parts.take(n) =~= init);
        assert forall|k: Seq<char>| told_of(parts, k) <==> told_of(init, k) || k == id by {
            if told_of(parts, k) && k != id {
                let i = choose|i: int| 0 <= i < parts.len() && (#[trigger] parts[i]).part.call_id == k;
                assert(init[i].part.call_id == k);
            }
            if told_of(init, k) {
                let i = choose|i: int| 0 <= i < init.len() && (#[trigger] init[i]).part.call_id == k;
                assert(parts[i].part.call_id == k);
            }
            assert(parts[n].part.call_id == id);
        }
        assert forall|a: Seq<char>, b: Seq<char>|
            a != b && #[trigger] call_index(run.log.calls, a) is Some implies call_index(
            run.log.calls,
            a,
        ) != #[trigger] call_index(run.log.calls, b) by {
            if call_index(before.log.calls, id) is None {
                // The entry of the last call is new, and all others were given out before it.
                lemma_index_below(before.log, before.next, a);
                lemma_index_below(before.log, before.next, b);
            } else {
                assert(call_index(before.log.calls, a) != call_index(before.log.calls, b));
            }
        }
        assert forall|i: int| 0 <= i < parts.len() implies patch_index(#[trigger] run.patches[i]) is Some
            && patch_index(run.patches[i]) == call_index(run.log.calls, parts[i].part.call_id) by {
            if i < n {
                assert(run.patches[i] == before.patches[i]);
                assert(parts[i] == init[i]);
                assert(call_index(before.log.calls, init[i].part.call_id) is Some);
            }
        }
        assert forall|i: int| 0 <= i < parts.len() implies (adds_entry(#[trigger] run.patches[i])
            <==> call_index(log.calls, parts[i].part.call_id) is None && !told_of(
            parts.take(i),
            parts[i].part.call_id,
        )) by {
            if i < n {
                assert(run.patches[i] == before.patches[i]);
                assert(parts[i] == init[i]);
                assert(parts.take(i) =~= init.take(i));
            } else {
                assert(call_index(before.log.calls, id) is Some <==> call_index(log.calls, id) is Some
                    || told_of(init, id));
            }
        }
        assert forall|i: int| 0 <= i < parts.len() && adds_entry(#[trigger] run.patches[i]) implies next
            <= patch_index(run.patches[i])->0 by {
            if i < n {
                assert(run.patches[i] == before.patches[i]);
            }
        }
        assert forall|i: int|
            0 <= i < parts.len() && status_by_approval(
                approval_known(log, parts[i].part.call_id),
            ) is Some implies patch_status(#[trigger] run.patches[i]) == status_by_approval(
            approval_known(log, parts[i].part.call_id),
        ) by {
            if i < n {
                assert(run.patches[i] == before.patches[i]);
                assert(parts[i] == init[i]);
            } else {
                assert(approval_known(before.log, id) == approval_known(log, id));
            }
        }
        assert forall|k: Seq<char>| #[trigger]
            approval_known(run.log, k) == approval_known(log, k) by {
            assert(approval_known(before.log, k) == approval_known(log, k));
        }
    }
}

proof fn lemma_index_below(log: Conversation, next: usize, id: Seq<char>)
    requires
        below(log, next),
    ensures
        call_index(log.calls, id) is Some ==> call_index(log.calls, id)->0 < next,
{
    assert(calls_below(log.calls, next));
}

proof fn lemma_run_keeps_below(before: CallRun, shown: ShownPart)
    requires
        below(before.log, before.next),
        before.next < usize::MAX,
        tells_of_call(before.log, shown),
    ensures
        ({
            let step = call_step(before.log, before.next, shown);
            below(step.log, step.next) && before.next <= step.next <= before.next + 1
        }),
{
    let id = shown.part.call_id;
    let told = part_step(before.log, before.next, Part::Tool(shown.part), shown.delta);
    lemma_sdk_indexes(
        before.log,
        before.next,
        SdkEvent::MessagePartUpdated { part: Part::Tool(shown.part), delta: shown.delta },
    );
    lemma_show_indexes(told.log, told.next, id, shown.rendered);
}

/// Each call has one entry of its own, as long as there are indexes left: the first part that tells
/// of a call adds an entry at an index that was not given out before, and every later part replaces
/// the entry at that index and adds none; a call that already has an entry keeps it. Parts that tell
/// of different calls never change the same entry. Where a denial or a timeout is known before the
/// first part, it is shown from the first part on.
pub proof fn lemma_one_entry_for_each_call(
    log: Conversation,
    next: usize,
    parts: Seq<ShownPart>,
)
    requires
        below(log, next),
        calls_apart(log.calls),
        forall|i: int| 0 <= i < parts.len() ==> tells_of_call(log, #[trigger] parts[i]),
        next + parts.len() <= usize::MAX,
    ensures
        ({
            let run = call_run(log, next, parts);
            &&& below(run.log, run.next) && calls_apart(run.log.calls)
            &&& run.patches.len() == parts.len()
            &&& forall|i: int|
                0 <= i < parts.len() ==> (adds_entry(#[trigger] run.patches[i]) <==> call_index(
                    log.calls,
                    parts[i].part.call_id,
                ) is None && !told_of(parts.take(i), parts[i].part.call_id))
            &&& forall|i: int|
                0 <= i < parts.len() && adds_entry(#[trigger] run.patches[i]) ==> next
                    <= patch_index(run.patches[i])->0
            &&& forall|i: int|
                0 <= i < parts.len() ==> patch_index(#[trigger] run.patches[i]) is Some
                    && patch_index(run.patches[i]) == call_index(
                    run.log.calls,
                    parts[i].part.call_id,
                )
            &&& forall|i: int|
                0 <= i < parts.len() && call_index(log.calls, parts[i].part.call_id) is Some
                    ==> patch_index(#[trigger] run.patches[i]) == call_index(
                    log.calls,
                    parts[i].part.call_id,
                )
            &&& forall|i: int, j: int|
                0 <= i < parts.len() && 0 <= j < parts.len() ==> (patch_index(
                    #[trigger] run.patches[i],
                ) == patch_index(#[trigger] run.patches[j]) <==> parts[i].part.call_id
                    == parts[j].part.call_id)
            &&& forall|i: int|
                0 <= i < parts.len() && status_by_approval(
                    approval_known(log, parts[i].part.call_id),
                ) is Some ==> patch_status(#[trigger] run.patches[i]) == status_by_approval(
                    approval_known(log, parts[i].part.call_id),
                )
        }),
{
    lemma_call_run(log, next, parts);
    let run = call_run(log, next, parts);
    assert forall|i: int, j: int| 0 <= i < parts.len() && 0 <= j < parts.len() implies (patch_index(
        #[trigger] run.patches[i],
    ) == patch_index(#[trigger] run.patches[j]) <==> parts[i].part.call_id
        == parts[j].part.call_id) by {
        assert(patch_index(run.patches[i]) == call_index(run.log.calls, parts[i].part.call_id));
        assert(patch_index(run.patches[j]) == call_index(run.log.calls, parts[j].part.call_id));
    }
    assert forall|i: int|
        0 <= i < parts.len() && call_index(log.calls, parts[i].part.call_id) is Some implies patch_index(
        #[trigger] run.patches[i],
    ) == call_index(log.calls, parts[i].part.call_id) by {
        assert(patch_index(run.patches[i]) == call_index(run.log.calls, parts[i].part.call_id));
    }
}

/// Pieces of text, one after the other.
pub open spec fn run_together(pieces: Seq<Seq<char>>) -> Seq<char>
    decreases pieces.len(),
{
    if pieces.len() == 0 {
        seq![]
    } else {
        run_together(pieces.drop_last()) + pieces.last()
    }
}

/// What is known of texts after pieces that are added to one of them.
pub open spec fn texts_after(
    texts: Texts,
    next: usize,
    entry_type: EntryTypeView,
    id: Seq<char>,
    pieces: Seq<Seq<char>>,
) -> Texts
    decreases pieces.len(),
{
    if pieces.len() == 0 {
        texts
    } else {
        let before = texts_after(texts, next, entry_type, id, pieces.drop_last());
        text_step(before, next, entry_type, id, pieces.last(), UpdateMode::Append).texts
    }
}

/// What a text says, where it is there; nothing otherwise.
pub open spec fn text_so_far(texts: Texts, id: Seq<char>) -> Seq<char> {
    if texts.contains_key(id) {
        texts[id].content
    } else {
        seq![]
    }
}

/// Whether all texts but one are as they were.
pub open spec fn others_kept(texts: Texts, after: Texts, id: Seq<char>) -> bool {
    after.remove(id) == texts.remove(id)
}

/// A text that comes in pieces holds all of them, in order, and the other texts are as they were. It
/// is there once it says something.
pub proof fn lemma_pieces_run_together(
    texts: Texts,
    next: usize,
    entry_type: EntryTypeView,
    id: Seq<char>,
    pieces: Seq<Seq<char>>,
)
    ensures
        text_so_far(texts_after(texts, next, entry_type, id, pieces), id) == text_so_far(texts, id)
            + run_together(pieces),
        texts_after(texts, next, entry_type, id, pieces).contains_key(id) <==> texts.contains_key(
            id,
        ) || run_together(pieces).len() > 0,
        others_kept(texts, texts_after(texts, next, entry_type, id, pieces), id),
    decreases pieces.len(),
{
    let start = text_so_far(texts, id);
    let after = texts_after(texts, next, entry_type, id, pieces);
    if pieces.len() == 0 {
        assert(after == texts);
        assert(run_together(pieces).len() == 0);
        assert(start + run_together(pieces) =~= start);
    } else {
        let init = pieces.drop_last();
        let piece = pieces.last();
        lemma_pieces_run_together(texts, next, entry_type, id, init);
        let before = texts_after(texts, next, entry_type, id, init);
        let head = run_together(init);
        assert(run_together(pieces) == head + piece);
        assert(after == text_step(before, next, entry_type, id, piece, UpdateMode::Append).texts);
        lemma_piece_added(before, next, entry_type, id, piece);
        assert(text_so_far(after, id) == (start + head) + piece);
        assert((start + head) + piece =~= start + (head + piece));
        assert(others_kept(before, after, id));
    }
}

proof fn lemma_piece_added(
    texts: Texts,
    next: usize,
    entry_type: EntryTypeView,
    id: Seq<char>,
    piece: Seq<char>,
)
    ensures
        ({
            let after = text_step(texts, next, entry_type, id, piece, UpdateMode::Append).texts;
            &&& text_so_far(after, id) == text_so_far(texts, id) + piece
            &&& after.contains_key(id) <==> texts.contains_key(id) || piece.len() > 0
            &&& others_kept(texts, after, id)
        }),
{
    let after = text_step(texts, next, entry_type, id, piece, UpdateMode::Append).texts;
    let text = text_after(texts, id, next, piece, UpdateMode::Append);
    if piece.len() == 0 {
        assert(after == texts);
        assert(text_so_far(texts, id) + piece =~= text_so_far(texts, id));
    } else {
        assert(after == texts.insert(id, text));
        if !texts.contains_key(id) {
            assert(text_so_far(texts, id) + piece =~= piece);
        }
        assert(after.remove(id) =~= texts.remove(id));
    }
}

/// The entry that a change brings.
pub open spec fn patch_entry(patch: Option<LogPatch<EntryView>>) -> Option<EntryView> {
    match patch {
        Some(LogPatch::Add { entry, .. }) => Some(entry),
        Some(LogPatch::Replace { entry, .. }) => Some(entry),
        None => None,
    }
}

/// A part of a message that is said, or thought.
pub open spec fn spoken_part(thought: bool, message_id: Seq<char>, said: Seq<char>) -> Part<
    Seq<char>,
    JsonView,
> {
    if thought {
        Part::Reasoning(TextPart { message_id, text: said })
    } else {
        Part::Text(TextPart { message_id, text: said })
    }
}

/// What is said, or thought, in the messages.
pub open spec fn texts_of_kind(log: Conversation, thought: bool) -> Texts {
    if thought {
        log.thinking
    } else {
        log.assistant
    }
}

/// Whether a step brings the entry of a text: it says what it is to say, is of its kind, and stands
/// where the text has its entry, or at the next index where it had none. The text is known to say
/// that now, and nothing else changes.
pub open spec fn text_shown(
    log: Conversation,
    next: usize,
    thought: bool,
    message_id: Seq<char>,
    content: Seq<char>,
    step: LogStep,
) -> bool {
    let texts = texts_of_kind(log, thought);
    let after = texts_of_kind(step.log, thought);
    &&& patch_entry(step.patch) matches Some(entry) && entry.content == content
        && entry.metadata is None && if thought {
        entry.entry_type is Thinking
    } else {
        entry.entry_type is AssistantMessage
    }
    &&& texts.contains_key(message_id) ==> !adds_entry(step.patch) && patch_index(step.patch)
        == Some(texts[message_id].index) && step.next == next
    &&& !texts.contains_key(message_id) ==> adds_entry(step.patch) && patch_index(step.patch)
        == Some(next) && step.next == logs::index_after(next)
    &&& after.contains_key(message_id) && after[message_id].content == content && Some(
        after[message_id].index,
    ) == patch_index(step.patch)
    &&& others_kept(texts, after, message_id)
    &&& texts_of_kind(step.log, !thought) == texts_of_kind(log, !thought)
    &&& step.log.roles == log.roles
    &&& step.log.calls == log.calls
    &&& step.log.approvals == log.approvals
    &&& step.log.model_told == log.model_told
    &&& step.call is None
}

/// What is added to what the assistant says or thinks is shown after what was said or thought
/// before; a text that comes without what was added takes the place of it.
pub proof fn lemma_piece_shown(
    log: Conversation,
    next: usize,
    thought: bool,
    message_id: Seq<char>,
    said: Seq<char>,
    delta: Seq<char>,
)
    requires
        from_assistant(log, message_id),
    ensures
        delta.len() > 0 ==> text_shown(
            log,
            next,
            thought,
            message_id,
            text_so_far(texts_of_kind(log, thought), message_id) + delta,
            part_step(log, next, spoken_part(thought, message_id, said), Some(delta)),
        ),
        delta.len() == 0 ==> part_step(
            log,
            next,
            spoken_part(thought, message_id, said),
            Some(delta),
        ) == unchanged(log, next),
        said.len() > 0 ==> text_shown(
            log,
            next,
            thought,
            message_id,
            said,
            part_step(log, next, spoken_part(thought, message_id, said), None),
        ),
        said.len() == 0 ==> part_step(log, next, spoken_part(thought, message_id, said), None)
            == unchanged(log, next),
{
    let texts = texts_of_kind(log, thought);
    let before = text_so_far(texts, message_id);
    if delta.len() > 0 {
        let after = texts_of_kind(
            part_step(log, next, spoken_part(thought, message_id, said), Some(delta)).log,
            thought,
        );
        assert(after.remove(message_id) =~= texts.remove(message_id));
        if !texts.contains_key(message_id) {
            assert(before + delta =~= delta);
        }
    }
    if said.len() > 0 {
        let after = texts_of_kind(
            part_step(log, next, spoken_part(thought, message_id, said), None).log,
            thought,
        );
        assert(after.remove(message_id) =~= texts.remove(message_id));
    }
}

/// A part of a message that tells what was added to it.
pub ghost struct Added {
    pub said: Seq<char>,
    pub delta: Seq<char>,
}

/// What comes of parts of one message that tell what was added to it, one after the other.
pub open spec fn added_run(
    log: Conversation,
    next: usize,
    thought: bool,
    message_id: Seq<char>,
    parts: Seq<Added>,
) -> LogStep
    decreases parts.len(),
{
    if parts.len() == 0 {
        unchanged(log, next)
    } else {
        let before = added_run(log, next, thought, message_id, parts.drop_last());
        part_step(
            before.log,
            before.next,
            spoken_part(thought, message_id, parts.last().said),
            Some(parts.last().delta),
        )
    }
}

/// All that was added, in order.
pub open spec fn all_added(parts: Seq<Added>) -> Seq<char>
    decreases parts.len(),
{
    if parts.len() == 0 {
        seq![]
    } else {
        all_added(parts.drop_last()) + parts.last().delta
    }
}

/// Nothing that the assistant says or thinks is lost: after parts of a message that each tell what
/// was added to it, the entry of the message says what it said before and then all that was added,
/// in order, and the last part that adds something brings that entry.
pub proof fn lemma_nothing_said_is_lost(
    log: Conversation,
    next: usize,
    thought: bool,
    message_id: Seq<char>,
    parts: Seq<Added>,
)
    requires
        from_assistant(log, message_id),
    ensures
        ({
            let run = added_run(log, next, thought, message_id, parts);
            let content = text_so_far(texts_of_kind(log, thought), message_id) + all_added(parts);
            &&& text_so_far(texts_of_kind(run.log, thought), message_id) == content
            &&& parts.len() > 0 && parts.last().delta.len() > 0 ==> (patch_entry(
                run.patch,
            ) matches Some(entry) && entry.content == content && if thought {
                entry.entry_type is Thinking
            } else {
                entry.entry_type is AssistantMessage
            })
            &&& run.log.roles == log.roles
            &&& texts_of_kind(run.log, !thought) == texts_of_kind(log, !thought)
            &&& others_kept(
                texts_of_kind(log, thought),
                texts_of_kind(run.log, thought),
                message_id,
            )
        }),
    decreases parts.len(),
{
    let start = text_so_far(texts_of_kind(log, thought), message_id);
    if parts.len() == 0 {
        assert(start + all_added(parts) =~= start);
    } else {
        let init = parts.drop_last();
        let last = parts.last();
        lemma_nothing_said_is_lost(log, next, thought, message_id, init);
        let before = added_run(log, next, thought, message_id, init);
        lemma_piece_shown(before.log, before.next, thought, message_id, last.said, last.delta);
        assert((start + all_added(init)) + last.delta =~= start + all_added(parts));
        if last.delta.len() == 0 {
            assert(start + all_added(parts) =~= start + all_added(init));
        }
    }
}

/// What is not said by the assistant is not shown, and neither is what belongs to a message that was
/// not told of.
pub proof fn lemma_only_the_assistant_is_shown(
    log: Conversation,
    next: usize,
    part: Part<Seq<char>, JsonView>,
    delta: Option<Seq<char>>,
)
    requires
        match part {
            Part::Text(p) => !from_assistant(log, p.message_id),
            Part::Reasoning(p) => !from_assistant(log, p.message_id),
            Part::Tool(p) => !from_assistant(log, p.message_id),
            Part::Other => true,
        },
    ensures
        part_step(log, next, part, delta) == unchanged(log, next),
{
}

/// Who a message is from is known once the message was told of, and the other messages stay whose
/// they were; the model is told of by its name and its provider.
pub proof fn lemma_messages_are_remembered(
    log: Conversation,
    next: usize,
    info: MessageInfo<Seq<char>>,
    other: Seq<char>,
)
    ensures
        ({
            let step = message_step(log, next, info);
            &&& from_assistant(step.log, info.id) <==> info.role == MessageRole::Assistant
            &&& other != info.id ==> (from_assistant(step.log, other) <==> from_assistant(
                log,
                other,
            ))
            &&& step.log.assistant == log.assistant && step.log.thinking == log.thinking
                && step.log.calls == log.calls && step.log.approvals == log.approvals
            &&& step.patch is Some ==> (patch_entry(step.patch) matches Some(entry)
                && entry.entry_type is SystemMessage && entry.content == "model: "@
                + info.model_name()->0 + "  provider: "@ + info.provider()->0 && patch_index(
                step.patch,
            ) == Some(next) && adds_entry(step.patch))
            &&& step.patch is Some <==> !log.model_told && info.model_name() is Some
                && info.provider() is Some
        }),
{
}

/// What an error of the session is shown as: where the provider wants the user to authenticate, it
/// asks for a setup and says what the error says, if it says anything; any other error is told of
/// whole.
pub proof fn lemma_session_errors_shown(
    log: Conversation,
    next: usize,
    error: Option<SdkError<JsonView>>,
)
    ensures
        ({
            let step = sdk_step(log, next, SdkEvent::SessionError { error });
            let named = match error {
                Some(e) => e.kind_of() == "ProviderAuthError"@,
                None => false,
            };
            &&& step.log == log && adds_entry(step.patch) && patch_index(step.patch) == Some(next)
            &&& patch_entry(step.patch) matches Some(entry) && (entry.entry_type
                matches NormalizedEntryType::ErrorMessage { error_type } && (error_type
                == NormalizedEntryError::SetupRequired <==> named)) && match error {
                None => entry.content == "OpenCode session error"@,
                Some(e) => if named && e.message_of() is Some {
                    entry.content == e.message_of()->0
                } else {
                    entry.content == "OpenCode session error: "@ + json::json_line(e.raw)
                },
            }
        }),
{
}

/// What the answer to a request for approval does: it is remembered for the call, and for no other.
/// Only a denial adds an entry, which names the tool that was denied and says why.
pub proof fn lemma_approvals_are_told(
    log: Conversation,
    next: usize,
    call_id: Seq<char>,
    status: ApprovalStatus<Seq<char>>,
    other: Seq<char>,
)
    ensures
        ({
            let step = approval_step(log, next, call_id, status);
            &&& step.log.approvals.contains_key(call_id) && step.log.approvals[call_id] == status
            &&& approval_known(step.log, call_id) == Some(status)
            &&& other != call_id ==> approval_known(step.log, other) == approval_known(log, other)
            &&& step.log.calls.remove(call_id) == log.calls.remove(call_id)
            &&& step.log.calls.contains_key(call_id) <==> log.calls.contains_key(call_id)
            &&& log.calls.contains_key(call_id) ==> {
                let before = log.calls[call_id];
                let after = step.log.calls[call_id];
                &&& after.tool == before.tool
                &&& after.common.call_id == before.common.call_id
                &&& after.common.index == before.common.index
                &&& after.common.tool_name == before.common.tool_name
                &&& after.common.state == before.common.state
                &&& after.common.title == before.common.title
            }
            &&& step.log.assistant == log.assistant && step.log.thinking == log.thinking
                && step.log.roles == log.roles && step.log.model_told == log.model_told
            &&& step.patch is Some <==> status is Denied
            &&& status is Denied ==> adds_entry(step.patch) && patch_index(step.patch) == Some(next)
                && step.next == logs::index_after(next)
            &&& status matches ApprovalStatus::Denied { reason } ==> (patch_entry(
                step.patch,
            ) matches Some(entry) && (entry.entry_type matches NormalizedEntryType::UserFeedback {
                denied_tool,
            } && denied_tool == if log.calls.contains_key(call_id) {
                log.calls[call_id].common.tool_name
            } else {
                "tool"@
            }) && (reason matches Some(r) ==> entry.content == text::trimmed(r)) && (reason is None
                ==> entry.content == "User denied this tool use request"@))
            &&& step.call == if call_index(log.calls, call_id) is Some {
                Some(call_id)
            } else {
                None
            }
        }),
{
    approvals::lemma_unexplained_denial();
    let step = approval_step(log, next, call_id, status);
    assert(step.log.calls.remove(call_id) =~= log.calls.remove(call_id));
}

/// An error that the log of a run tells of is shown as it is, and the end of the run is not shown.
pub proof fn lemma_run_errors_shown(
    stored_session_id: bool,
    log: Conversation,
    next: usize,
    message: Seq<char>,
)
    ensures
        ({
            let run = run_step(
                stored_session_id,
                log,
                next,
                OpencodeExecutorEvent::Error { message },
            );
            let done = run_step(stored_session_id, log, next, OpencodeExecutorEvent::Done);
            &&& patch_entry(run.step.patch) matches Some(entry) && entry.content == message
                && entry.entry_type is ErrorMessage
            &&& adds_entry(run.step.patch) && patch_index(run.step.patch) == Some(next)
            &&& run.step.log == log && run.session_id is None
            &&& done.step.patch is None && done.step.log == log && done.session_id is None
        }),
{
}

/// The model is told of once: what tells of it is the first entry that a message adds, and once it
/// was told of, no event changes that and no message adds anything.
pub proof fn lemma_model_told_once(
    stored_session_id: bool,
    log: Conversation,
    next: usize,
    event: OpencodeExecutorEvent<Seq<char>, JsonView>,
    info: MessageInfo<Seq<char>>,
)
    ensures
        log.model_told ==> run_step(stored_session_id, log, next, event).step.log.model_told,
        log.model_told ==> message_step(log, next, info).patch is None,
        !log.model_told ==> (message_step(log, next, info).patch is Some <==> message_step(
            log,
            next,
            info,
        ).log.model_told),
{
}

/// Sessions that are to be remembered, as the events of a log are read.
pub open spec fn sessions(
    stored_session_id: bool,
    events: Seq<OpencodeExecutorEvent<Seq<char>, JsonView>>,
) -> Seq<Seq<char>>
    decreases events.len(),
{
    if events.len() == 0 {
        seq![]
    } else {
        let rest = sessions(
            stored_session_id || events[0] is SessionStart,
            events.skip(1),
        );
        match events[0] {
            OpencodeExecutorEvent::SessionStart { session_id } => if stored_session_id {
                rest
            } else {
                seq![session_id] + rest
            },
            _ => rest,
        }
    }
}

/// A session is remembered at most once in the reading of a log, and it is the one that the first
/// start tells of. `sessions` goes by what `run_step` says of each event.
pub proof fn lemma_session_remembered_once(
    stored_session_id: bool,
    events: Seq<OpencodeExecutorEvent<Seq<char>, JsonView>>,
)
    ensures
        stored_session_id ==> sessions(stored_session_id, events).len() == 0,
        sessions(stored_session_id, events).len() <= 1,
        forall|log: Conversation, next: usize|
            #![trigger run_step(stored_session_id, log, next, events[0])]
            events.len() > 0 ==> {
                let run = run_step(stored_session_id, log, next, events[0]);
                sessions(stored_session_id, events) == match run.session_id {
                    Some(id) => seq![id],
                    None => sessions(run.stored_session_id, events.skip(1)),
                }
            },
    decreases events.len(),
{
    if events.len() > 0 {
        lemma_session_remembered_once(
            stored_session_id || events[0] is SessionStart,
            events.skip(1),
        );
        assert forall|log: Conversation, next: usize|
            #![trigger run_step(stored_session_id, log, next, events[0])]
            events.len() > 0 implies {
            let run = run_step(stored_session_id, log, next, events[0]);
            sessions(stored_session_id, events) == match run.session_id {
                Some(id) => seq![id],
                None => sessions(run.stored_session_id, events.skip(1)),
            }
        } by {
            let run = run_step(stored_session_id, log, next, events[0]);
            assert(run.stored_session_id == (stored_session_id || events[0] is SessionStart));
            if run.session_id is Some {
                assert(sessions(true, events.skip(1)).len() == 0);
                assert(sessions(stored_session_id, events) =~= seq![run.session_id->0]);
            }
        }
    }
}

/// A call that the assistant makes is shown: the part that tells of it asks for its entry, and the
/// entry tells of the call as it is known after the part, with what was known of it before.
pub proof fn lemma_calls_are_shown(
    log: Conversation,
    next: usize,
    part: ToolPart<Seq<char>, JsonView>,
    rendered: Rendered<Seq<char>>,
)
    requires
        from_assistant(log, part.message_id),
        !text::blank(part.call_id),
    ensures
        ({
            let id = part.call_id;
            let step = sdk_step(
                log,
                next,
                SdkEvent::MessagePartUpdated { part: Part::Tool(part), delta: None },
            );
            let known = call_known(log, id);
            let shown = show_step(step.log, step.next, id, rendered);
            &&& step.call == Some(id)
            &&& step.patch is None
            &&& step.next == next
            &&& patch_entry(shown.patch) == Some(
                tool_calls::entry_of(tool_calls::call_after(known, part), rendered),
            )
            &&& log.calls.contains_key(id) ==> known.tool == log.calls[id].tool
                && known.common.title == log.calls[id].common.title && known.common.tool_name
                == log.calls[id].common.tool_name
            &&& !log.calls.contains_key(id) ==> known.tool == tool_calls::new_call(id).tool
                && known.common.call_id == id
            &&& known.common.approval == approval_known(log, id)
            &&& step.log.assistant == log.assistant && step.log.thinking == log.thinking
            &&& step.log.roles == log.roles && step.log.approvals == log.approvals
            &&& step.log.calls.remove(id) == log.calls.remove(id)
        }),
{
    let id = part.call_id;
    let known = call_known(log, id);
    let after = tool_calls::call_after(known, part);
    assert(log.calls.insert(id, after).remove(id) =~= log.calls.remove(id));
}

/// Each event in the log of a run is taken for what it is: an event of the server for one, where it
/// is one that matters, and the answer to a request for approval for one. Neither tells of a session.
pub proof fn lemma_run_events(
    stored_session_id: bool,
    log: Conversation,
    next: usize,
    event: JsonView,
    info: MessageInfo<Seq<char>>,
    tool_call_id: Seq<char>,
    status: ApprovalStatus<Seq<char>>,
)
    ensures
        ({
            let told = run_step(
                stored_session_id,
                log,
                next,
                OpencodeExecutorEvent::SdkEvent { event },
            );
            let answered = run_step(
                stored_session_id,
                log,
                next,
                OpencodeExecutorEvent::ApprovalResponse { tool_call_id, status },
            );
            &&& told.session_id is None && answered.session_id is None
            &&& told.stored_session_id == stored_session_id && answered.stored_session_id
                == stored_session_id
            &&& events::sdk_event_of(event) is None ==> told.step == unchanged(log, next)
            &&& events::sdk_event_of(event) matches Some(e) ==> told.step == sdk_step(log, next, e)
            &&& approval_known(answered.step.log, tool_call_id) == Some(status)
            &&& from_assistant(
                sdk_step(log, next, SdkEvent::MessageUpdated { info }).log,
                info.id,
            ) <==> info.role is Assistant
        }),
{
}

} // verus!
