//! The events that an OpenCode server tells of, and how they are read from JSON.
use vstd::prelude::*;
use vstd::string::*;

use crate::json;
use crate::json::{Json, JsonNumber, JsonView};
use crate::model;
use crate::text;

verus! {

// ---------------------------------------------------------------------------
// Messages
// ---------------------------------------------------------------------------

/// Who a message is from.
#[derive(Debug, Clone, Copy, PartialEq, Eq, Structural)]
pub enum MessageRole {
    User,
    Assistant,
}

/// The role of the given name.
pub open spec fn role_named(name: Seq<char>) -> Option<MessageRole> {
    if name == "user"@ {
        Some(MessageRole::User)
    } else if name == "assistant"@ {
        Some(MessageRole::Assistant)
    } else {
        None
    }
}

/// The role that a value tells of: a name, or an object whose only field has the name and holds
/// nothing.
pub open spec fn role_of(v: JsonView) -> Option<MessageRole> {
    match v {
        JsonView::Text(name) => role_named(name),
        JsonView::Object(fields) => if fields.len() == 1 && fields[0].1 is Null {
            role_named(fields[0].0)
        } else {
            None
        },
        _ => None,
    }
}

/// The role of the given name.
fn read_role_name(name: &str) -> (res: Option<MessageRole>)
    ensures
        res == role_named(name@),
{
    if text::str_eq(name, "user") {
        Some(MessageRole::User)
    } else if text::str_eq(name, "assistant") {
        Some(MessageRole::Assistant)
    } else {
        None
    }
}

/// The role that a value tells of.
pub fn read_role(v: &Json) -> (res: Option<MessageRole>)
    ensures
        res == role_of(v.deep_view()),
{
    match v {
        Json::Text(name) => read_role_name(name.as_str()),
        Json::Object(fields) => {
            if fields.len() == 1 {
                assert(v.deep_view()->Object_0[0] == (fields@[0].0@, fields@[0].1.deep_view()));
                match fields[0].1 {
                    Json::Null => read_role_name(fields[0].0.as_str()),
                    _ => None,
                }
            } else {
                None
            }
        },
        _ => None,
    }
}

/// The model that wrote a message.
#[derive(Debug, PartialEq)]
pub struct MessageModelInfo<S = String> {
    pub provider_id: S,
    pub model_id: S,
}

impl DeepView for MessageModelInfo {
    type V = MessageModelInfo<Seq<char>>;

    open spec fn deep_view(&self) -> MessageModelInfo<Seq<char>> {
        MessageModelInfo { provider_id: self.provider_id@, model_id: self.model_id@ }
    }
}

/// The text of a member that goes by either of two names, but not by both.
pub open spec fn aliased_text(
    v: JsonView,
    name: Seq<char>,
    alias: Seq<char>,
    position: int,
) -> Option<Seq<char>> {
    match v {
        JsonView::Object(_) => if v.field(name) is Some && v.field(alias) is Some {
            None
        } else {
            json::opt_text(model::either(v.field(name), v.field(alias)))
        },
        _ => json::opt_text(json::member(v, name, position)),
    }
}

fn read_aliased_text(v: &Json, name: &str, alias: &str, position: usize) -> (res: Option<String>)
    ensures
        res.deep_view() == aliased_text(v.deep_view(), name@, alias@, position as int),
{
    if !v.is_object() {
        return json::get_text(v, name, position);
    }
    let a = v.get(name);
    let b = v.get(alias);
    let found = match (a, b) {
        (Some(_), Some(_)) => None,
        (Some(_), None) => a,
        _ => b,
    };
    match json::str_opt(found) {
        Some(s) => Some(text::owned(s)),
        None => None,
    }
}

/// The model that a value tells of.
pub open spec fn model_info_of(v: JsonView) -> Option<MessageModelInfo<Seq<char>>> {
    let provider_id = aliased_text(v, "providerID"@, "providerId"@, 0);
    let model_id = aliased_text(v, "modelID"@, "modelId"@, 1);
    if json::is_record(v, 2) && provider_id is Some && model_id is Some {
        Some(MessageModelInfo { provider_id: provider_id->0, model_id: model_id->0 })
    } else {
        None
    }
}

/// The model that a value tells of.
pub fn read_model_info(v: &Json) -> (res: Option<MessageModelInfo>)
    ensures
        res.deep_view() == model_info_of(v.deep_view()),
{
    if !json::record(v, 2) {
        return None;
    }
    match (
        read_aliased_text(v, "providerID", "providerId", 0),
        read_aliased_text(v, "modelID", "modelId", 1),
    ) {
        (Some(provider_id), Some(model_id)) => Some(MessageModelInfo { provider_id, model_id }),
        _ => None,
    }
}

/// The model that an optional member tells of, if it is read well: nothing where it is absent or
/// null.
pub open spec fn optional_model_info(v: Option<JsonView>) -> Option<
    Option<MessageModelInfo<Seq<char>>>,
> {
    match json::optional_value(v) {
        None => Some(None),
        Some(m) => match model_info_of(m) {
            Some(info) => Some(Some(info)),
            None => None,
        },
    }
}

fn read_optional_model_info(v: Option<&Json>) -> (res: Option<Option<MessageModelInfo>>)
    ensures
        res.deep_view() == optional_model_info(v.deep_view()),
{
    match v {
        None => Some(None),
        Some(Json::Null) => Some(None),
        Some(m) => match read_model_info(m) {
            Some(info) => Some(Some(info)),
            None => None,
        },
    }
}

/// What is known of a message.
#[derive(Debug, PartialEq)]
pub struct MessageInfo<S = String> {
    pub id: S,
    pub role: MessageRole,
    pub model: Option<MessageModelInfo<S>>,
    pub provider_id: Option<S>,
    pub model_id: Option<S>,
}

impl DeepView for MessageInfo {
    type V = MessageInfo<Seq<char>>;

    open spec fn deep_view(&self) -> MessageInfo<Seq<char>> {
        MessageInfo {
            id: self.id@,
            role: self.role,
            model: self.model.deep_view(),
            provider_id: self.provider_id.deep_view(),
            model_id: self.model_id.deep_view(),
        }
    }
}

impl MessageInfo<Seq<char>> {
    /// The provider of the model that wrote the message.
    pub open spec fn provider(self) -> Option<Seq<char>> {
        match self.model {
            Some(m) => Some(m.provider_id),
            None => self.provider_id,
        }
    }

    /// The model that wrote the message.
    pub open spec fn model_name(self) -> Option<Seq<char>> {
        match self.model {
            Some(m) => Some(m.model_id),
            None => self.model_id,
        }
    }
}

impl MessageInfo {
    /// The provider of the model that wrote the message.
    pub fn provider_id(&self) -> (res: Option<&str>)
        ensures
            res.deep_view() == self.deep_view().provider(),
    {
        match &self.model {
            Some(m) => Some(m.provider_id.as_str()),
            None => match &self.provider_id {
                Some(p) => Some(p.as_str()),
                None => None,
            },
        }
    }

    /// The model that wrote the message.
    pub fn model_id(&self) -> (res: Option<&str>)
        ensures
            res.deep_view() == self.deep_view().model_name(),
    {
        match &self.model {
            Some(m) => Some(m.model_id.as_str()),
            None => match &self.model_id {
                Some(p) => Some(p.as_str()),
                None => None,
            },
        }
    }
}

/// What a value tells of a message.
pub open spec fn message_info_of(v: JsonView) -> Option<MessageInfo<Seq<char>>> {
    let id = json::opt_text(json::member(v, "id"@, 0));
    let role = match json::member(v, "role"@, 1) {
        Some(r) => role_of(r),
        None => None,
    };
    let model = optional_model_info(json::member(v, "model"@, 2));
    let provider_id = json::optional_text(json::member(v, "providerID"@, 3));
    let model_id = json::optional_text(json::member(v, "modelID"@, 4));
    if json::is_record(v, 5) && id is Some && role is Some && model is Some && provider_id is Some
        && model_id is Some {
        Some(
            MessageInfo {
                id: id->0,
                role: role->0,
                model: model->0,
                provider_id: provider_id->0,
                model_id: model_id->0,
            },
        )
    } else {
        None
    }
}

/// What a value tells of a message.
pub fn read_message_info(v: &Json) -> (res: Option<MessageInfo>)
    ensures
        res.deep_view() == message_info_of(v.deep_view()),
{
    if !json::record(v, 5) {
        return None;
    }
    let role = match json::get_member(v, "role", 1) {
        Some(r) => read_role(r),
        None => None,
    };
    let id = json::get_text(v, "id", 0);
    let model = read_optional_model_info(json::get_member(v, "model", 2));
    let provider_id = json::get_optional_text(v, "providerID", 3);
    let model_id = json::get_optional_text(v, "modelID", 4);
    match (id, role, model, provider_id, model_id) {
        (Some(id), Some(role), Some(model), Some(provider_id), Some(model_id)) => Some(
            MessageInfo { id, role, model, provider_id, model_id },
        ),
        _ => None,
    }
}

// ---------------------------------------------------------------------------
// Parts of messages
// ---------------------------------------------------------------------------

/// What an event says of the call of a tool.
#[allow(inconsistent_fields)]
#[derive(Debug, PartialEq)]
pub enum ToolStateUpdate<S = String, J = Json> {
    Pending { input: Option<J> },
    Running { input: Option<J>, title: Option<S>, metadata: Option<J> },
    Completed { input: Option<J>, output: Option<S>, title: Option<S>, metadata: Option<J> },
    Error { input: Option<J>, error: Option<S>, metadata: Option<J> },
    Unknown,
}

impl DeepView for ToolStateUpdate {
    type V = ToolStateUpdate<Seq<char>, JsonView>;

    open spec fn deep_view(&self) -> ToolStateUpdate<Seq<char>, JsonView> {
        match *self {
            ToolStateUpdate::Pending { input } => ToolStateUpdate::Pending {
                input: input.deep_view(),
            },
            ToolStateUpdate::Running { input, title, metadata } => ToolStateUpdate::Running {
                input: input.deep_view(),
                title: title.deep_view(),
                metadata: metadata.deep_view(),
            },
            ToolStateUpdate::Completed { input, output, title, metadata } =>
            ToolStateUpdate::Completed {
                input: input.deep_view(),
                output: output.deep_view(),
                title: title.deep_view(),
                metadata: metadata.deep_view(),
            },
            ToolStateUpdate::Error { input, error, metadata } => ToolStateUpdate::Error {
                input: input.deep_view(),
                error: error.deep_view(),
                metadata: metadata.deep_view(),
            },
            ToolStateUpdate::Unknown => ToolStateUpdate::Unknown,
        }
    }
}

/// Where the call of a tool stands.
#[derive(Debug, Clone, Copy, PartialEq, Eq, Structural)]
pub enum ToolStateStatus {
    Pending,
    Running,
    Completed,
    Error,
    Unknown,
}

/// The status that a value names, by its name or by its number; any other name or number is taken
/// for an unknown status.
pub open spec fn status_of(v: JsonView) -> Option<ToolStateStatus> {
    match v {
        JsonView::Text(name) => Some(
            if name == "pending"@ {
                ToolStateStatus::Pending
            } else if name == "running"@ {
                ToolStateStatus::Running
            } else if name == "completed"@ {
                ToolStateStatus::Completed
            } else if name == "error"@ {
                ToolStateStatus::Error
            } else {
                ToolStateStatus::Unknown
            },
        ),
        JsonView::Number(n) => match n {
            JsonNumber::Natural(i) => Some(
                if i == 0 {
                    ToolStateStatus::Pending
                } else if i == 1 {
                    ToolStateStatus::Running
                } else if i == 2 {
                    ToolStateStatus::Completed
                } else if i == 3 {
                    ToolStateStatus::Error
                } else {
                    ToolStateStatus::Unknown
                },
            ),
            _ => None,
        },
        _ => None,
    }
}

fn read_status(v: &Json) -> (res: Option<ToolStateStatus>)
    ensures
        res == status_of(v.deep_view()),
{
    match v {
        Json::Text(s) => {
            let name = s.as_str();
            let status = if text::str_eq(name, "pending") {
                ToolStateStatus::Pending
            } else if text::str_eq(name, "running") {
                ToolStateStatus::Running
            } else if text::str_eq(name, "completed") {
                ToolStateStatus::Completed
            } else if text::str_eq(name, "error") {
                ToolStateStatus::Error
            } else {
                ToolStateStatus::Unknown
            };
            Some(status)
        },
        Json::Number(n) => match n {
            JsonNumber::Natural(i) => Some(
                if *i == 0 {
                    ToolStateStatus::Pending
                } else if *i == 1 {
                    ToolStateStatus::Running
                } else if *i == 2 {
                    ToolStateStatus::Completed
                } else if *i == 3 {
                    ToolStateStatus::Error
                } else {
                    ToolStateStatus::Unknown
                },
            ),
            _ => None,
        },
        _ => None,
    }
}

/// What a value tells of the call of a tool. The status decides which members are read.
pub open spec fn tool_state_of(v: JsonView) -> Option<ToolStateUpdate<Seq<char>, JsonView>> {
    let status = match json::member(v, "status"@, 0) {
        Some(s) => status_of(s),
        None => None,
    };
    let input = json::optional_value(json::member(v, "input"@, 1));
    match status {
        None => None,
        Some(ToolStateStatus::Pending) => if json::is_record(v, 2) {
            Some(ToolStateUpdate::Pending { input })
        } else {
            None
        },
        Some(ToolStateStatus::Running) => {
            let title = json::optional_text(json::member(v, "title"@, 2));
            let metadata = json::optional_value(json::member(v, "metadata"@, 3));
            if json::is_record(v, 4) && title is Some {
                Some(ToolStateUpdate::Running { input, title: title->0, metadata })
            } else {
                None
            }
        },
        Some(ToolStateStatus::Completed) => {
            let output = json::optional_text(json::member(v, "output"@, 2));
            let title = json::optional_text(json::member(v, "title"@, 3));
            let metadata = json::optional_value(json::member(v, "metadata"@, 4));
            if json::is_record(v, 5) && output is Some && title is Some {
                Some(
                    ToolStateUpdate::Completed {
                        input,
                        output: output->0,
                        title: title->0,
                        metadata,
                    },
                )
            } else {
                None
            }
        },
        Some(ToolStateStatus::Error) => {
            let error = json::optional_text(json::member(v, "error"@, 2));
            let metadata = json::optional_value(json::member(v, "metadata"@, 3));
            if json::is_record(v, 4) && error is Some {
                Some(ToolStateUpdate::Error { input, error: error->0, metadata })
            } else {
                None
            }
        },
        Some(ToolStateStatus::Unknown) => if json::is_record(v, 1) {
            Some(ToolStateUpdate::Unknown)
        } else {
            None
        },
    }
}

/// What a value tells of the call of a tool.
pub fn read_tool_state(v: &Json) -> (res: Option<ToolStateUpdate>)
    ensures
        res.deep_view() == tool_state_of(v.deep_view()),
{
    let status = match json::get_member(v, "status", 0) {
        Some(s) => read_status(s),
        None => None,
    };
    match status {
        None => None,
        Some(ToolStateStatus::Pending) => {
            if !json::record(v, 2) {
                return None;
            }
            Some(ToolStateUpdate::Pending { input: json::get_optional_value(v, "input", 1) })
        },
        Some(ToolStateStatus::Running) => {
            if !json::record(v, 4) {
                return None;
            }
            match json::get_optional_text(v, "title", 2) {
                Some(title) => Some(
                    ToolStateUpdate::Running {
                        input: json::get_optional_value(v, "input", 1),
                        title,
                        metadata: json::get_optional_value(v, "metadata", 3),
                    },
                ),
                None => None,
            }
        },
        Some(ToolStateStatus::Completed) => {
            if !json::record(v, 5) {
                return None;
            }
            match (json::get_optional_text(v, "output", 2), json::get_optional_text(v, "title", 3)) {
                (Some(output), Some(title)) => Some(
                    ToolStateUpdate::Completed {
                        input: json::get_optional_value(v, "input", 1),
                        output,
                        title,
                        metadata: json::get_optional_value(v, "metadata", 4),
                    },
                ),
                _ => None,
            }
        },
        Some(ToolStateStatus::Error) => {
            if !json::record(v, 4) {
                return None;
            }
            match json::get_optional_text(v, "error", 2) {
                Some(error) => Some(
                    ToolStateUpdate::Error {
                        input: json::get_optional_value(v, "input", 1),
                        error,
                        metadata: json::get_optional_value(v, "metadata", 3),
                    },
                ),
                None => None,
            }
        },
        Some(ToolStateStatus::Unknown) => {
            if !json::record(v, 1) {
                return None;
            }
            Some(ToolStateUpdate::Unknown)
        },
    }
}

/// A piece of text of a message.
#[derive(Debug, PartialEq)]
pub struct TextPart<S = String> {
    pub message_id: S,
    pub text: S,
}

impl DeepView for TextPart {
    type V = TextPart<Seq<char>>;

    open spec fn deep_view(&self) -> TextPart<Seq<char>> {
        TextPart { message_id: self.message_id@, text: self.text@ }
    }
}

/// The call of a tool in a message.
#[derive(Debug, PartialEq)]
pub struct ToolPart<S = String, J = Json> {
    pub message_id: S,
    pub call_id: S,
    pub tool: S,
    pub state: ToolStateUpdate<S, J>,
}

impl DeepView for ToolPart {
    type V = ToolPart<Seq<char>, JsonView>;

    open spec fn deep_view(&self) -> ToolPart<Seq<char>, JsonView> {
        ToolPart {
            message_id: self.message_id@,
            call_id: self.call_id@,
            tool: self.tool@,
            state: self.state.deep_view(),
        }
    }
}

/// A part of a message.
#[derive(Debug, PartialEq)]
pub enum Part<S = String, J = Json> {
    Text(TextPart<S>),
    Reasoning(TextPart<S>),
    Tool(ToolPart<S, J>),
    Other,
}

impl DeepView for Part {
    type V = Part<Seq<char>, JsonView>;

    open spec fn deep_view(&self) -> Part<Seq<char>, JsonView> {
        match *self {
            Part::Text(p) => Part::Text(p.deep_view()),
            Part::Reasoning(p) => Part::Reasoning(p.deep_view()),
            Part::Tool(p) => Part::Tool(p.deep_view()),
            Part::Other => Part::Other,
        }
    }
}

/// What a value tells of a piece of text.
pub open spec fn text_part_of(v: JsonView) -> Option<TextPart<Seq<char>>> {
    let message_id = json::opt_text(json::member(v, "messageID"@, 1));
    let said = json::opt_text(json::member(v, "text"@, 2));
    if json::is_record(v, 3) && message_id is Some && said is Some {
        Some(TextPart { message_id: message_id->0, text: said->0 })
    } else {
        None
    }
}

fn read_text_part(v: &Json) -> (res: Option<TextPart>)
    ensures
        res.deep_view() == text_part_of(v.deep_view()),
{
    if !json::record(v, 3) {
        return None;
    }
    match (json::get_text(v, "messageID", 1), json::get_text(v, "text", 2)) {
        (Some(message_id), Some(text)) => Some(TextPart { message_id, text }),
        _ => None,
    }
}

/// The name of the tool that a member holds; it is empty where the member is absent.
pub open spec fn tool_name_of(v: Option<JsonView>) -> Option<Seq<char>> {
    match v {
        None => Some(""@),
        Some(t) => t.as_text(),
    }
}

/// What a value tells of the call of a tool in a message.
pub open spec fn tool_part_of(v: JsonView) -> Option<ToolPart<Seq<char>, JsonView>> {
    let message_id = json::opt_text(json::member(v, "messageID"@, 1));
    let call_id = json::opt_text(json::member(v, "callID"@, 2));
    let tool = tool_name_of(json::member(v, "tool"@, 3));
    let state = match json::member(v, "state"@, 4) {
        Some(s) => tool_state_of(s),
        None => None,
    };
    if json::is_record(v, 5) && message_id is Some && call_id is Some && tool is Some
        && state is Some {
        Some(
            ToolPart {
                message_id: message_id->0,
                call_id: call_id->0,
                tool: tool->0,
                state: state->0,
            },
        )
    } else {
        None
    }
}

fn read_tool_part(v: &Json) -> (res: Option<ToolPart>)
    ensures
        res.deep_view() == tool_part_of(v.deep_view()),
{
    if !json::record(v, 5) {
        return None;
    }
    let message_id = json::get_text(v, "messageID", 1);
    let call_id = json::get_text(v, "callID", 2);
    let tool = match json::get_member(v, "tool", 3) {
        None => Some(text::owned("")),
        Some(t) => match t.as_str() {
            Some(s) => Some(text::owned(s)),
            None => None,
        },
    };
    let state = match json::get_member(v, "state", 4) {
        Some(s) => read_tool_state(s),
        None => None,
    };
    match (message_id, call_id, tool, state) {
        (Some(message_id), Some(call_id), Some(tool), Some(state)) => Some(
            ToolPart { message_id, call_id, tool, state },
        ),
        _ => None,
    }
}

/// What a value tells of a part of a message. The type decides which members are read.
pub open spec fn part_of(v: JsonView) -> Option<Part<Seq<char>, JsonView>> {
    match json::opt_text(json::member(v, "type"@, 0)) {
        None => None,
        Some(kind) => if kind == "text"@ {
            match text_part_of(v) {
                Some(p) => Some(Part::Text(p)),
                None => None,
            }
        } else if kind == "reasoning"@ {
            match text_part_of(v) {
                Some(p) => Some(Part::Reasoning(p)),
                None => None,
            }
        } else if kind == "tool"@ {
            match tool_part_of(v) {
                Some(p) => Some(Part::Tool(p)),
                None => None,
            }
        } else if json::is_record(v, 1) {
            Some(Part::Other)
        } else {
            None
        },
    }
}

/// What a value tells of a part of a message.
pub fn read_part(v: &Json) -> (res: Option<Part>)
    ensures
        res.deep_view() == part_of(v.deep_view()),
{
    let kind = match json::get_text(v, "type", 0) {
        Some(k) => k,
        None => {
            return None;
        },
    };
    if text::str_eq(kind.as_str(), "text") {
        match read_text_part(v) {
            Some(p) => Some(Part::Text(p)),
            None => None,
        }
    } else if text::str_eq(kind.as_str(), "reasoning") {
        match read_text_part(v) {
            Some(p) => Some(Part::Reasoning(p)),
            None => None,
        }
    } else if text::str_eq(kind.as_str(), "tool") {
        match read_tool_part(v) {
            Some(p) => Some(Part::Tool(p)),
            None => None,
        }
    } else if json::record(v, 1) {
        Some(Part::Other)
    } else {
        None
    }
}

// ---------------------------------------------------------------------------
// Errors
// ---------------------------------------------------------------------------

/// An error that the server tells of.
#[derive(Debug, PartialEq)]
pub struct SdkError<J = Json> {
    pub raw: J,
}

impl DeepView for SdkError {
    type V = SdkError<JsonView>;

    open spec fn deep_view(&self) -> SdkError<JsonView> {
        SdkError { raw: self.raw.deep_view() }
    }
}

impl SdkError<JsonView> {
    /// The kind of the error.
    pub open spec fn kind_of(self) -> Seq<char> {
        model::value_or(
            json::opt_text(model::either(self.raw.field("name"@), self.raw.field("type"@))),
            "unknown"@,
        )
    }

    /// What the error says, if it says anything.
    pub open spec fn message_of(self) -> Option<Seq<char>> {
        json::opt_text(
            model::either(
                json::opt_field(self.raw.field("data"@), "message"@),
                self.raw.field("message"@),
            ),
        )
    }
}

impl SdkError {
    /// The kind of the error.
    pub fn kind(&self) -> (res: String)
        ensures
            res@ == self.deep_view().kind_of(),
    {
        let found = match self.raw.get("name") {
            Some(n) => Some(n),
            None => self.raw.get("type"),
        };
        json::string_or(found, "unknown")
    }

    /// What the error says, if it says anything.
    pub fn message(&self) -> (res: Option<String>)
        ensures
            res.deep_view() == self.deep_view().message_of(),
    {
        let found = match json::get_opt(self.raw.get("data"), "message") {
            Some(m) => Some(m),
            None => self.raw.get("message"),
        };
        match json::str_opt(found) {
            Some(s) => Some(text::owned(s)),
            None => None,
        }
    }
}

// ---------------------------------------------------------------------------
// Events
// ---------------------------------------------------------------------------

/// An event that the server tells of.
#[derive(Debug, PartialEq)]
pub enum SdkEvent<S = String, J = Json> {
    /// A message came, or changed.
    MessageUpdated { info: MessageInfo<S> },
    /// A part of a message came, or changed; `delta` is what was added to it.
    MessagePartUpdated { part: Part<S, J>, delta: Option<S> },
    /// Something went wrong in the session.
    SessionError { error: Option<SdkError<J>> },
}

impl DeepView for SdkEvent {
    type V = SdkEvent<Seq<char>, JsonView>;

    open spec fn deep_view(&self) -> SdkEvent<Seq<char>, JsonView> {
        match *self {
            SdkEvent::MessageUpdated { info } => SdkEvent::MessageUpdated {
                info: info.deep_view(),
            },
            SdkEvent::MessagePartUpdated { part, delta } => SdkEvent::MessagePartUpdated {
                part: part.deep_view(),
                delta: delta.deep_view(),
            },
            SdkEvent::SessionError { error } => SdkEvent::SessionError {
                error: error.deep_view(),
            },
        }
    }
}

/// The event that the properties of an event of the given type tell of.
pub open spec fn event_of_properties(event_type: Seq<char>, p: JsonView) -> Option<
    SdkEvent<Seq<char>, JsonView>,
> {
    if event_type == "message.updated"@ {
        let info = match json::member(p, "info"@, 0) {
            Some(i) => message_info_of(i),
            None => None,
        };
        if json::is_record(p, 1) && info is Some {
            Some(SdkEvent::MessageUpdated { info: info->0 })
        } else {
            None
        }
    } else if event_type == "message.part.updated"@ {
        let part = match json::member(p, "part"@, 0) {
            Some(x) => part_of(x),
            None => None,
        };
        let delta = json::optional_text(json::member(p, "delta"@, 1));
        if json::is_record(p, 2) && part is Some && delta is Some {
            Some(SdkEvent::MessagePartUpdated { part: part->0, delta: delta->0 })
        } else {
            None
        }
    } else if event_type == "session.error"@ {
        if json::is_record(p, 1) {
            Some(
                SdkEvent::SessionError {
                    error: match json::optional_value(json::member(p, "error"@, 0)) {
                        Some(raw) => Some(SdkError { raw }),
                        None => None,
                    },
                },
            )
        } else {
            None
        }
    } else {
        None
    }
}

/// The event that a value tells of, where it is one that matters.
pub open spec fn sdk_event_of(v: JsonView) -> Option<SdkEvent<Seq<char>, JsonView>> {
    match json::opt_text(json::member(v, "type"@, 0)) {
        Some(event_type) => if json::is_record(v, 2) {
            event_of_properties(
                event_type,
                model::value_or(json::member(v, "properties"@, 1), JsonView::Null),
            )
        } else {
            None
        },
        None => None,
    }
}

impl SdkEvent {
    fn of_properties(event_type: &str, p: &Json) -> (res: Option<SdkEvent>)
        ensures
            res.deep_view() == event_of_properties(event_type@, p.deep_view()),
    {
        if text::str_eq(event_type, "message.updated") {
            if !json::record(p, 1) {
                return None;
            }
            match json::get_member(p, "info", 0) {
                Some(i) => match read_message_info(i) {
                    Some(info) => Some(SdkEvent::MessageUpdated { info }),
                    None => None,
                },
                None => None,
            }
        } else if text::str_eq(event_type, "message.part.updated") {
            if !json::record(p, 2) {
                return None;
            }
            let part = match json::get_member(p, "part", 0) {
                Some(x) => read_part(x),
                None => None,
            };
            match (part, json::get_optional_text(p, "delta", 1)) {
                (Some(part), Some(delta)) => Some(SdkEvent::MessagePartUpdated { part, delta }),
                _ => None,
            }
        } else if text::str_eq(event_type, "session.error") {
            if !json::record(p, 1) {
                return None;
            }
            let error = match json::get_optional_value(p, "error", 0) {
                Some(raw) => Some(SdkError { raw }),
                None => None,
            };
            Some(SdkEvent::SessionError { error })
        } else {
            None
        }
    }

    /// Reads an event. Events that do not matter, and values that are none, are left out.
    pub fn parse(value: &Json) -> (res: Option<SdkEvent>)
        ensures
            res.deep_view() == sdk_event_of(value.deep_view()),
    {
        if !json::record(value, 2) {
            return None;
        }
        let event_type = match json::get_text(value, "type", 0) {
            Some(t) => t,
            None => {
                return None;
            },
        };
        match json::get_member(value, "properties", 1) {
            Some(p) => Self::of_properties(event_type.as_str(), p),
            None => Self::of_properties(event_type.as_str(), &Json::Null),
        }
    }
}

// ---------------------------------------------------------------------------
// Laws
// ---------------------------------------------------------------------------

/// Whether a value is an object that has a text under a name.
pub open spec fn says(v: JsonView, name: Seq<char>, said: Seq<char>) -> bool {
    v is Object && v.field(name) == Some(JsonView::Text(said))
}

/// Whether a value is an object that tells of an event of a kind, with the given properties.
pub open spec fn tells_of(v: JsonView, kind: Seq<char>, p: JsonView) -> bool {
    says(v, "type"@, kind) && v.field("properties"@) == Some(p) && p is Object
}

proof fn lemma_words_differ()
    ensures
        "message.updated"@ != "message.part.updated"@,
        "message.updated"@ != "session.error"@,
        "message.part.updated"@ != "session.error"@,
        "user"@ != "assistant"@,
        "text"@ != "reasoning"@,
        "text"@ != "tool"@,
        "reasoning"@ != "tool"@,
        "pending"@ != "running"@,
        "pending"@ != "completed"@,
        "pending"@ != "error"@,
        "running"@ != "completed"@,
        "running"@ != "error"@,
        "completed"@ != "error"@,
{
    reveal_strlit("message.updated");
    reveal_strlit("message.part.updated");
    reveal_strlit("session.error");
    reveal_strlit("user");
    reveal_strlit("assistant");
    reveal_strlit("text");
    reveal_strlit("reasoning");
    reveal_strlit("tool");
    reveal_strlit("pending");
    reveal_strlit("running");
    reveal_strlit("completed");
    reveal_strlit("error");
    assert("message.updated"@.len() == 15 && "message.part.updated"@.len() == 20);
    assert("session.error"@.len() == 13);
    assert("user"@.len() == 4 && "assistant"@.len() == 9);
    assert("text"@.len() == 4 && "tool"@.len() == 4 && "reasoning"@.len() == 9);
    assert("text"@[1] == 'e' && "tool"@[1] == 'o');
    assert("pending"@.len() == 7 && "running"@.len() == 7);
    assert("pending"@[0] == 'p' && "running"@[0] == 'r');
    assert("completed"@.len() == 9 && "error"@.len() == 5);
}

/// An event of a message tells who the message is from, and which model of which provider wrote it:
/// those that its model names, or else those that it names itself.
pub proof fn lemma_message_read(
    v: JsonView,
    p: JsonView,
    info: JsonView,
    id: Seq<char>,
    role: Seq<char>,
    provider: Seq<char>,
    name: Seq<char>,
)
    requires
        tells_of(v, "message.updated"@, p),
        p.field("info"@) == Some(info),
        says(info, "id"@, id),
        says(info, "role"@, role),
        role == "user"@ || role == "assistant"@,
        ({
            ||| info.field("model"@) is None && says(info, "providerID"@, provider) && says(
                info,
                "modelID"@,
                name,
            )
            ||| info.field("providerID"@) is None && info.field("modelID"@) is None && (info.field(
                "model"@,
            ) matches Some(m) && says(m, "providerID"@, provider) && says(m, "modelID"@, name)
                && m.field("providerId"@) is None && m.field("modelId"@) is None)
        }),
    ensures
        sdk_event_of(v) matches Some(SdkEvent::MessageUpdated { info: read }) && {
            &&& read.id == id
            &&& read.role is User <==> role == "user"@
            &&& read.role is Assistant <==> role == "assistant"@
            &&& read.provider() == Some(provider)
            &&& read.model_name() == Some(name)
        },
{
    lemma_words_differ();
}

/// An event of a piece of text or of reasoning tells which message it is part of, all that it says
/// so far, and what was added, if that is told.
pub proof fn lemma_text_read(
    v: JsonView,
    p: JsonView,
    part: JsonView,
    kind: Seq<char>,
    message_id: Seq<char>,
    said: Seq<char>,
    added: Seq<char>,
)
    requires
        tells_of(v, "message.part.updated"@, p),
        p.field("part"@) == Some(part),
        says(part, "type"@, kind),
        kind == "text"@ || kind == "reasoning"@,
        says(part, "messageID"@, message_id),
        says(part, "text"@, said),
    ensures
        ({
            let read = TextPart { message_id, text: said };
            let whole: Part<Seq<char>, JsonView> = if kind == "text"@ {
                Part::Text(read)
            } else {
                Part::Reasoning(read)
            };
            &&& says(p, "delta"@, added) ==> sdk_event_of(v) == Some(
                SdkEvent::MessagePartUpdated { part: whole, delta: Some(added) },
            )
            &&& p.field("delta"@) is None ==> sdk_event_of(v) == Some(
                SdkEvent::MessagePartUpdated { part: whole, delta: None },
            )
        }),
{
    lemma_words_differ();
}

/// An event of the call of a tool tells which message it is part of, which call it is, the tool, and
/// what its state says.
pub proof fn lemma_tool_read(
    v: JsonView,
    p: JsonView,
    part: JsonView,
    state: JsonView,
    message_id: Seq<char>,
    call_id: Seq<char>,
    tool: Seq<char>,
)
    requires
        tells_of(v, "message.part.updated"@, p),
        p.field("part"@) == Some(part),
        p.field("delta"@) is None,
        says(part, "type"@, "tool"@),
        says(part, "messageID"@, message_id),
        says(part, "callID"@, call_id),
        says(part, "tool"@, tool),
        part.field("state"@) == Some(state),
    ensures
        tool_state_of(state) matches Some(read) ==> sdk_event_of(v) == Some(
            SdkEvent::MessagePartUpdated {
                part: Part::Tool(ToolPart { message_id, call_id, tool, state: read }),
                delta: None,
            },
        ),
        tool_state_of(state) is None ==> sdk_event_of(v) is None,
{
    lemma_words_differ();
}

/// The state of a call is told by name, and what it tells besides is taken member by member: what
/// the tool was called with, its title, its output, its error, and what the server tells besides.
pub proof fn lemma_tool_state_read(
    state: JsonView,
    status: Seq<char>,
    given: JsonView,
    title: Seq<char>,
    result: Seq<char>,
    besides: JsonView,
)
    requires
        says(state, "status"@, status),
        state.field("input"@) == Some(given) && given !is Null,
        says(state, "title"@, title),
        says(state, "output"@, result),
        says(state, "error"@, result),
        state.field("metadata"@) == Some(besides) && besides !is Null,
    ensures
        status == "pending"@ ==> tool_state_of(state) == Some(
            ToolStateUpdate::<Seq<char>, JsonView>::Pending { input: Some(given) },
        ),
        status == "running"@ ==> tool_state_of(state) == Some(
            ToolStateUpdate::Running {
                input: Some(given),
                title: Some(title),
                metadata: Some(besides),
            },
        ),
        status == "completed"@ ==> tool_state_of(state) == Some(
            ToolStateUpdate::Completed {
                input: Some(given),
                output: Some(result),
                title: Some(title),
                metadata: Some(besides),
            },
        ),
        status == "error"@ ==> tool_state_of(state) == Some(
            ToolStateUpdate::Error {
                input: Some(given),
                error: Some(result),
                metadata: Some(besides),
            },
        ),
        status != "pending"@ && status != "running"@ && status != "completed"@ && status
            != "error"@ ==> tool_state_of(state) == Some(
            ToolStateUpdate::<Seq<char>, JsonView>::Unknown,
        ),
{
    lemma_words_differ();
}

/// An event of an error tells the error as it is, of the kind that it names, with what its data says,
/// or else with what it says itself.
pub proof fn lemma_error_read(
    v: JsonView,
    p: JsonView,
    error: JsonView,
    kind: Seq<char>,
    said: Seq<char>,
)
    requires
        tells_of(v, "session.error"@, p),
        p.field("error"@) == Some(error),
        says(error, "name"@, kind),
    ensures
        sdk_event_of(v) matches Some(SdkEvent::SessionError { error: Some(read) }) && {
            &&& read.raw == error
            &&& read.kind_of() == kind
            &&& (error.field("data"@) matches Some(d) && says(d, "message"@, said))
                ==> read.message_of() == Some(said)
            &&& error.field("data"@) is None && says(error, "message"@, said) ==> read.message_of()
                == Some(said)
            &&& error.field("data"@) is None && error.field("message"@) is None
                ==> read.message_of() is None
        },
{
    lemma_words_differ();
}

/// The members of the model of a message go by either of two names, and not by both.
pub proof fn lemma_model_names(m: JsonView, provider: Seq<char>, name: Seq<char>)
    requires
        m is Object,
    ensures
        says(m, "providerId"@, provider) && m.field("providerID"@) is None && says(
            m,
            "modelId"@,
            name,
        ) && m.field("modelID"@) is None ==> model_info_of(m) == Some(
            MessageModelInfo { provider_id: provider, model_id: name },
        ),
        m.field("providerID"@) is Some && m.field("providerId"@) is Some ==> model_info_of(m)
            is None,
        m.field("modelID"@) is Some && m.field("modelId"@) is Some ==> model_info_of(m) is None,
{
}

/// The states of a call have numbers, in the order in which a call goes through them.
pub proof fn lemma_status_numbers(n: u64)
    ensures
        ({
            let status = status_of(JsonView::Number(JsonNumber::Natural(n)));
            &&& status == Some(ToolStateStatus::Pending) <==> n == 0
            &&& status == Some(ToolStateStatus::Running) <==> n == 1
            &&& status == Some(ToolStateStatus::Completed) <==> n == 2
            &&& status == Some(ToolStateStatus::Error) <==> n == 3
            &&& status == Some(ToolStateStatus::Unknown) <==> n > 3
        }),
{
}

/// Who a message is from is told by name, or by an object with that name alone.
pub proof fn lemma_role_read(name: Seq<char>)
    ensures
        role_of(JsonView::Text(name)) == Some(MessageRole::User) <==> name == "user"@,
        role_of(JsonView::Text(name)) == Some(MessageRole::Assistant) <==> name == "assistant"@,
        role_of(JsonView::Object(seq![(name, JsonView::Null)])) == role_of(JsonView::Text(name)),
{
    lemma_words_differ();
}

/// What may come as an object may also come as an array of its members, in this order.
pub proof fn lemma_arrays_read(
    a: Seq<char>,
    b: Seq<char>,
    c: Seq<char>,
    given: JsonView,
    besides: JsonView,
)
    requires
        given !is Null,
        besides !is Null,
    ensures
        model_info_of(JsonView::Array(seq![JsonView::Text(a), JsonView::Text(b)])) == Some(
            MessageModelInfo { provider_id: a, model_id: b },
        ),
        message_info_of(
            JsonView::Array(
                seq![
                    JsonView::Text(a),
                    JsonView::Text("assistant"@),
                    JsonView::Null,
                    JsonView::Text(b),
                    JsonView::Text(c),
                ],
            ),
        ) == Some(
            MessageInfo {
                id: a,
                role: MessageRole::Assistant,
                model: None,
                provider_id: Some(b),
                model_id: Some(c),
            },
        ),
        part_of(
            JsonView::Array(
                seq![JsonView::Text("text"@), JsonView::Text(a), JsonView::Text(b)],
            ),
        ) == Some(Part::<Seq<char>, JsonView>::Text(TextPart { message_id: a, text: b })),
        part_of(
            JsonView::Array(
                seq![
                    JsonView::Text("tool"@),
                    JsonView::Text(a),
                    JsonView::Text(b),
                    JsonView::Text(c),
                    JsonView::Array(seq![JsonView::Text("pending"@), given]),
                ],
            ),
        ) == Some(
            Part::Tool(
                ToolPart {
                    message_id: a,
                    call_id: b,
                    tool: c,
                    state: ToolStateUpdate::Pending { input: Some(given) },
                },
            ),
        ),
        tool_state_of(
            JsonView::Array(
                seq![JsonView::Text("running"@), given, JsonView::Text(a), besides],
            ),
        ) == Some(
            ToolStateUpdate::Running {
                input: Some(given),
                title: Some(a),
                metadata: Some(besides),
            },
        ),
        tool_state_of(
            JsonView::Array(
                seq![
                    JsonView::Text("completed"@),
                    given,
                    JsonView::Text(a),
                    JsonView::Text(b),
                    besides,
                ],
            ),
        ) == Some(
            ToolStateUpdate::Completed {
                input: Some(given),
                output: Some(a),
                title: Some(b),
                metadata: Some(besides),
            },
        ),
        tool_state_of(
            JsonView::Array(seq![JsonView::Text("error"@), given, JsonView::Text(a), besides]),
        ) == Some(
            ToolStateUpdate::Error {
                input: Some(given),
                error: Some(a),
                metadata: Some(besides),
            },
        ),
{
    lemma_words_differ();
}

} // verus!
