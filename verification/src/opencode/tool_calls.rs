//! The calls of tools, and the entries of the conversation that tell of them.
use vstd::prelude::*;
use vstd::string::*;

use crate::json::{Json, JsonView};
use crate::model;
use crate::opencode::approvals::ApprovalStatus;
use crate::opencode::events::{ToolPart, ToolStateStatus};
use crate::opencode::inputs::TodoItem;
use crate::opencode::logs::{
    ActionType, ActionView, CommandExitStatus, CommandRunResult, EntryView, FileChange,
    NormalizedEntry, NormalizedEntryType, ToolCallMetadata, ToolResult,
};
use crate::opencode::tools;
use crate::opencode::tools::{
    BashToolState, FileEditKind, FileEditToolState, OtherToolState, ReadToolState, SearchToolState,
    TaskToolState, TodoOperation, TodoToolState, ToolCallCommon, WebFetchToolState,
};
use crate::process;
use crate::text;

verus! {

/// What is known of a call, tool by tool.
#[derive(Debug, PartialEq)]
pub enum Tool<S = String, J = Json, T = Vec<TodoItem>> {
    Bash(BashToolState<S>),
    Read(ReadToolState<S>),
    FileEdit(FileEditToolState<S>),
    WebFetch(WebFetchToolState<S>),
    Search(SearchToolState<S>),
    Todo(TodoToolState<T>),
    Task(TaskToolState<S>),
    Other(OtherToolState<S, J>),
}

/// What is known of a call, in the model.
pub type ToolView = Tool<Seq<char>, JsonView, Seq<TodoItem<Seq<char>>>>;

impl DeepView for Tool {
    type V = ToolView;

    open spec fn deep_view(&self) -> ToolView {
        match *self {
            Tool::Bash(s) => Tool::Bash(s.deep_view()),
            Tool::Read(s) => Tool::Read(s.deep_view()),
            Tool::FileEdit(s) => Tool::FileEdit(s.deep_view()),
            Tool::WebFetch(s) => Tool::WebFetch(s.deep_view()),
            Tool::Search(s) => Tool::Search(s.deep_view()),
            Tool::Todo(s) => Tool::Todo(s.deep_view()),
            Tool::Task(s) => Tool::Task(s.deep_view()),
            Tool::Other(s) => Tool::Other(s.deep_view()),
        }
    }
}

/// What is known of a call of the tool of the given name, from what is known of a call of any tool.
pub open spec fn from_other(name: Seq<char>, other: OtherToolState<Seq<char>, JsonView>) -> ToolView {
    if name == "bash"@ {
        Tool::Bash(
            (BashToolState {
                command: None,
                output: other.output,
                error: other.error,
                exit_code: None,
            }).told(other.input, other.metadata),
        )
    } else if name == "read"@ {
        Tool::Read((ReadToolState { file_path: None }).told(other.input))
    } else if name == "edit"@ || name == "write"@ || name == "multiedit"@ {
        Tool::FileEdit(
            (FileEditToolState {
                kind: tools::edit_kind(name),
                file_path: None,
                write_content: None,
                unified_diff: None,
            }).told(other.input, other.metadata),
        )
    } else if name == "webfetch"@ {
        Tool::WebFetch((WebFetchToolState { url: None }).told(other.input))
    } else if name == "websearch"@ || name == "codesearch"@ || name == "grep"@ || name == "glob"@ {
        Tool::Search((SearchToolState { query: None }).told(other.input))
    } else if name == "todoread"@ || name == "todowrite"@ {
        Tool::Todo(
            (TodoToolState { operation: tools::operation_of(name), todos: seq![] }).told(
                other.input,
                other.metadata,
            ),
        )
    } else if name == "task"@ {
        Tool::Task((TaskToolState { description: None }).told(other.input))
    } else {
        Tool::Other(other)
    }
}

/// What is known of a call after an update; `name` is what the tool is called then.
pub open spec fn tool_after(tool: ToolView, name: Seq<char>, update: tools::UpdateView) -> ToolView {
    match tool {
        Tool::Bash(s) => Tool::Bash(s.after(update)),
        Tool::Read(s) => Tool::Read(s.told(tools::input_in(update))),
        Tool::FileEdit(s) => Tool::FileEdit(s.after(name, update)),
        Tool::WebFetch(s) => Tool::WebFetch(s.told(tools::input_in(update))),
        Tool::Search(s) => Tool::Search(s.told(tools::input_in(update))),
        Tool::Todo(s) => Tool::Todo(s.after(name, update)),
        Tool::Task(s) => Tool::Task(s.told(tools::input_in(update))),
        Tool::Other(s) => from_other(name, s.after(update)),
    }
}

fn copy_todos(todos: &Vec<TodoItem>) -> (res: Vec<TodoItem>)
    ensures
        res.deep_view() == todos.deep_view(),
{
    let mut out: Vec<TodoItem> = Vec::new();
    for i in 0..todos.len()
        invariant
            out@.len() == i,
            forall|j: int| 0 <= j < i ==> out@[j] == todos@[j],
    {
        out.push(todos[i].copy());
    }
    assert(out.deep_view() =~= todos.deep_view());
    out
}

fn borrow_json(v: &Option<Json>) -> (res: Option<&Json>)
    ensures
        res.deep_view() == v.deep_view(),
{
    match v {
        Some(v) => Some(v),
        None => None,
    }
}

fn copy_json(v: &Option<Json>) -> (res: Option<Json>)
    ensures
        res.deep_view() == v.deep_view(),
{
    match v {
        Some(v) => Some(v.copy()),
        None => None,
    }
}

impl Tool {
    /// What is known of a call of the tool of the given name, from what is known of a call of any
    /// tool.
    pub fn from_other(name: &str, other: OtherToolState) -> (res: Tool)
        ensures
            res.deep_view() == from_other(name@, other.deep_view()),
    {
        if text::str_eq(name, "bash") {
            let mut state = BashToolState {
                command: None,
                output: other.output,
                error: other.error,
                exit_code: None,
            };
            state.update_from_raw(borrow_json(&other.input), borrow_json(&other.metadata));
            Tool::Bash(state)
        } else if text::str_eq(name, "read") {
            let mut state = ReadToolState { file_path: None };
            state.update_from_raw(borrow_json(&other.input));
            Tool::Read(state)
        } else if text::str_eq(name, "edit") || text::str_eq(name, "write") || text::str_eq(
            name,
            "multiedit",
        ) {
            let mut state = FileEditToolState {
                kind: tools::file_edit_kind(name),
                file_path: None,
                write_content: None,
                unified_diff: None,
            };
            state.update_from_raw(borrow_json(&other.input), borrow_json(&other.metadata));
            Tool::FileEdit(state)
        } else if text::str_eq(name, "webfetch") {
            let mut state = WebFetchToolState { url: None };
            state.update_from_raw(borrow_json(&other.input));
            Tool::WebFetch(state)
        } else if text::str_eq(name, "websearch") || text::str_eq(name, "codesearch")
            || text::str_eq(name, "grep") || text::str_eq(name, "glob") {
            let mut state = SearchToolState { query: None };
            state.update_from_raw(borrow_json(&other.input));
            Tool::Search(state)
        } else if text::str_eq(name, "todoread") || text::str_eq(name, "todowrite") {
            let mut state = TodoToolState {
                operation: tools::todo_operation(name),
                todos: Vec::new(),
            };
            assert(state.todos.deep_view() =~= seq![]);
            state.update_from_raw(borrow_json(&other.input), borrow_json(&other.metadata));
            Tool::Todo(state)
        } else if text::str_eq(name, "task") {
            let mut state = TaskToolState { description: None };
            state.update_from_raw(borrow_json(&other.input));
            Tool::Task(state)
        } else {
            Tool::Other(other)
        }
    }

    /// Takes what an event says of a call; `name` is what the tool is called then. A call of a
    /// tool that was not known becomes a call of the tool of that name.
    pub fn updated(self, name: &str, update: &crate::opencode::events::ToolStateUpdate) -> (res:
        Tool)
        ensures
            res.deep_view() == tool_after(self.deep_view(), name@, update.deep_view()),
    {
        match self {
            Tool::Bash(state) => {
                let mut s = state;
                s.update_from_part(update);
                Tool::Bash(s)
            },
            Tool::Read(state) => {
                let mut s = state;
                s.update_from_part(update);
                Tool::Read(s)
            },
            Tool::FileEdit(state) => {
                let mut s = state;
                s.update_from_part(name, update);
                Tool::FileEdit(s)
            },
            Tool::WebFetch(state) => {
                let mut s = state;
                s.update_from_part(update);
                Tool::WebFetch(s)
            },
            Tool::Search(state) => {
                let mut s = state;
                s.update_from_part(update);
                Tool::Search(s)
            },
            Tool::Todo(state) => {
                let mut s = state;
                s.update_from_part(name, update);
                Tool::Todo(s)
            },
            Tool::Task(state) => {
                let mut s = state;
                s.update_from_part(update);
                Tool::Task(s)
            },
            Tool::Other(state) => {
                let mut s = state;
                s.update_from_part(update);
                Tool::from_other(name, s)
            },
        }
    }

    /// The same knowledge of a call.
    pub fn copy(&self) -> (res: Tool)
        ensures
            res.deep_view() == self.deep_view(),
    {
        match self {
            Tool::Bash(s) => Tool::Bash(
                BashToolState {
                    command: process::copy_opt(&s.command),
                    output: process::copy_opt(&s.output),
                    error: process::copy_opt(&s.error),
                    exit_code: s.exit_code,
                },
            ),
            Tool::Read(s) => Tool::Read(
                ReadToolState { file_path: process::copy_opt(&s.file_path) },
            ),
            Tool::FileEdit(s) => Tool::FileEdit(
                FileEditToolState {
                    kind: s.kind,
                    file_path: process::copy_opt(&s.file_path),
                    write_content: process::copy_opt(&s.write_content),
                    unified_diff: process::copy_opt(&s.unified_diff),
                },
            ),
            Tool::WebFetch(s) => Tool::WebFetch(WebFetchToolState { url: process::copy_opt(&s.url) }),
            Tool::Search(s) => Tool::Search(SearchToolState { query: process::copy_opt(&s.query) }),
            Tool::Todo(s) => Tool::Todo(
                TodoToolState { operation: s.operation, todos: copy_todos(&s.todos) },
            ),
            Tool::Task(s) => Tool::Task(
                TaskToolState { description: process::copy_opt(&s.description) },
            ),
            Tool::Other(s) => Tool::Other(
                OtherToolState {
                    input: copy_json(&s.input),
                    metadata: copy_json(&s.metadata),
                    output: process::copy_opt(&s.output),
                    error: process::copy_opt(&s.error),
                },
            ),
        }
    }
}

/// The call of a tool.
#[derive(Debug, PartialEq)]
pub struct ToolCallState<S = String, J = Json, T = Vec<TodoItem>> {
    pub common: ToolCallCommon<S>,
    pub tool: Tool<S, J, T>,
}

/// The call of a tool, in the model.
pub type CallView = ToolCallState<Seq<char>, JsonView, Seq<TodoItem<Seq<char>>>>;

impl DeepView for ToolCallState {
    type V = CallView;

    open spec fn deep_view(&self) -> CallView {
        ToolCallState { common: self.common.deep_view(), tool: self.tool.deep_view() }
    }
}

/// A call of which nothing is known but its id.
pub open spec fn new_call(call_id: Seq<char>) -> CallView {
    ToolCallState {
        common: ToolCallCommon {
            index: None,
            call_id,
            tool_name: "tool"@,
            state: ToolStateStatus::Unknown,
            title: None,
            approval: None,
        },
        tool: Tool::Other(
            OtherToolState { input: None, metadata: None, output: None, error: None },
        ),
    }
}

/// A call after an event that tells of it.
pub open spec fn call_after(call: CallView, part: ToolPart<Seq<char>, JsonView>) -> CallView {
    let common = call.common.after(part.tool, part.state);
    ToolCallState { common, tool: tool_after(call.tool, common.tool_name, part.state) }
}

/// What of a call is shown in terms of the project's directory: a path, and a difference that is
/// brought into its usual form for that path.
#[derive(Debug, PartialEq)]
pub struct RenderRequest<S = String> {
    pub file_path: Option<S>,
    pub diff: Option<S>,
}

impl DeepView for RenderRequest {
    type V = RenderRequest<Seq<char>>;

    open spec fn deep_view(&self) -> RenderRequest<Seq<char>> {
        RenderRequest { file_path: self.file_path.deep_view(), diff: self.diff.deep_view() }
    }
}

/// What of a call is shown in terms of the project's directory.
pub open spec fn to_render(tool: ToolView) -> RenderRequest<Seq<char>> {
    match tool {
        Tool::Read(s) => RenderRequest { file_path: s.file_path, diff: None },
        Tool::FileEdit(s) => RenderRequest {
            file_path: s.file_path,
            diff: if s.kind == FileEditKind::Write {
                None
            } else {
                s.unified_diff
            },
        },
        _ => RenderRequest { file_path: None, diff: None },
    }
}

/// The path and the difference, as they are shown.
#[derive(Debug, PartialEq)]
pub struct Rendered<S = String> {
    pub path: S,
    pub diff: S,
}

impl DeepView for Rendered {
    type V = Rendered<Seq<char>>;

    open spec fn deep_view(&self) -> Rendered<Seq<char>> {
        Rendered { path: self.path@, diff: self.diff@ }
    }
}

/// The path that is shown: none where none is known.
pub open spec fn shown_path(file_path: Option<Seq<char>>, rendered: Rendered<Seq<char>>) -> Seq<char> {
    if file_path is Some {
        rendered.path
    } else {
        ""@
    }
}

/// The changes that the editing of a file makes.
pub open spec fn changes_of(
    s: FileEditToolState<Seq<char>>,
    rendered: Rendered<Seq<char>>,
) -> Seq<FileChange<Seq<char>>> {
    if s.kind == FileEditKind::Write {
        if s.write_content is Some && s.write_content->0.len() > 0 {
            seq![FileChange::Write { content: s.write_content->0 }]
        } else {
            seq![]
        }
    } else if s.unified_diff is Some {
        seq![FileChange::Edit { unified_diff: rendered.diff, has_line_numbers: true }]
    } else {
        seq![]
    }
}

/// The arguments of a call: what the tool was called with, where it is an object.
pub open spec fn arguments_of(input: Option<JsonView>) -> Option<JsonView> {
    match input {
        Some(v) => if v is Object {
            Some(v)
        } else {
            None
        },
        None => None,
    }
}

/// What a call does.
pub open spec fn action_of(call: CallView, rendered: Rendered<Seq<char>>) -> ActionView {
    match call.tool {
        Tool::Bash(s) => ActionType::CommandRun {
            command: model::value_or(s.command, ""@),
            result: Some(
                CommandRunResult {
                    exit_status: match s.exit_code {
                        Some(code) => Some(CommandExitStatus::ExitCode { code }),
                        None => None,
                    },
                    output: model::either(s.output, s.error),
                },
            ),
        },
        Tool::Read(s) => ActionType::FileRead { path: shown_path(s.file_path, rendered) },
        Tool::FileEdit(s) => ActionType::FileEdit {
            path: shown_path(s.file_path, rendered),
            changes: changes_of(s, rendered),
        },
        Tool::WebFetch(s) => ActionType::WebFetch { url: model::value_or(s.url, ""@) },
        Tool::Search(s) => ActionType::Search { query: model::value_or(s.query, ""@) },
        Tool::Todo(s) => ActionType::TodoManagement {
            todos: s.todos,
            operation: match s.operation {
                TodoOperation::Read => "read"@,
                TodoOperation::Write => "write"@,
            },
        },
        Tool::Task(s) => ActionType::TaskCreate { description: model::value_or(s.description, ""@) },
        Tool::Other(s) => ActionType::Tool {
            tool_name: call.common.tool_name,
            arguments: arguments_of(s.input),
            result: match model::either(s.output, s.error) {
                Some(o) => Some(ToolResult::Markdown(o)),
                None => None,
            },
        },
    }
}

/// What an action is about, in a few words.
pub open spec fn subject_of(action: ActionView) -> Seq<char> {
    match action {
        ActionType::CommandRun { command, .. } => command,
        ActionType::FileRead { path } => path,
        ActionType::FileEdit { path, .. } => path,
        ActionType::Search { query } => query,
        ActionType::WebFetch { url } => url,
        _ => ""@,
    }
}

/// What the entry of a call says: what the action is about, or else the title of the call, or else
/// the name of the tool.
pub open spec fn content_of(
    title: Option<Seq<char>>,
    tool_name: Seq<char>,
    action: ActionView,
) -> Seq<char> {
    let subject = text::trimmed(subject_of(action));
    if subject.len() > 0 {
        subject
    } else {
        model::value_or(title, tool_name)
    }
}

/// What the entry of a call says.
pub fn tool_content(title: Option<&str>, tool_name: &str, action_type: &ActionType) -> (res: String)
    ensures
        res@ == content_of(title.deep_view(), tool_name@, action_type.deep_view()),
{
    let subject = match action_type {
        ActionType::CommandRun { command, .. } => command.as_str(),
        ActionType::FileRead { path } => path.as_str(),
        ActionType::FileEdit { path, .. } => path.as_str(),
        ActionType::Search { query } => query.as_str(),
        ActionType::WebFetch { url } => url.as_str(),
        _ => "",
    };
    let content = text::trim(subject);
    if !content.is_empty() {
        text::owned(content)
    } else {
        match title {
            Some(t) => text::owned(t),
            None => text::owned(tool_name),
        }
    }
}

/// The entry that tells of a call.
pub open spec fn entry_of(call: CallView, rendered: Rendered<Seq<char>>) -> EntryView {
    let action_type = action_of(call, rendered);
    NormalizedEntry {
        timestamp: None,
        content: content_of(call.common.title, call.common.tool_name, action_type),
        entry_type: NormalizedEntryType::ToolUse {
            tool_name: call.common.tool_name,
            action_type,
            status: call.common.status(),
        },
        metadata: Some(ToolCallMetadata { tool_call_id: call.common.call_id }),
    }
}

fn or_empty(s: &Option<String>) -> (res: String)
    ensures
        res@ == model::value_or(s.deep_view(), ""@),
{
    match s {
        Some(s) => s.clone(),
        None => text::owned(""),
    }
}

fn first_text(a: &Option<String>, b: &Option<String>) -> (res: Option<String>)
    ensures
        res.deep_view() == model::either(a.deep_view(), b.deep_view()),
{
    match a {
        Some(s) => Some(s.clone()),
        None => process::copy_opt(b),
    }
}

fn path_to_show(file_path: &Option<String>, rendered: &Rendered) -> (res: String)
    ensures
        res@ == shown_path(file_path.deep_view(), rendered.deep_view()),
{
    match file_path {
        Some(_) => rendered.path.clone(),
        None => text::owned(""),
    }
}

fn changes(s: &FileEditToolState, rendered: &Rendered) -> (res: Vec<FileChange>)
    ensures
        res.deep_view() == changes_of(s.deep_view(), rendered.deep_view()),
{
    let mut out: Vec<FileChange> = Vec::new();
    match s.kind {
        FileEditKind::Write => {
            if let Some(content) = &s.write_content {
                if !content.as_str().is_empty() {
                    out.push(FileChange::Write { content: content.clone() });
                }
            }
        },
        _ => {
            if s.unified_diff.is_some() {
                out.push(
                    FileChange::Edit {
                        unified_diff: rendered.diff.clone(),
                        has_line_numbers: true,
                    },
                );
            }
        },
    }
    assert(out.deep_view() =~= changes_of(s.deep_view(), rendered.deep_view()));
    out
}

impl ToolCallState {
    /// A call of which nothing is known but its id.
    pub fn new(call_id: String) -> (res: Self)
        ensures
            res.deep_view() == new_call(call_id@),
    {
        ToolCallState {
            common: ToolCallCommon::new(call_id),
            tool: Tool::Other(OtherToolState::new()),
        }
    }

    /// Takes an event that tells of the call.
    pub fn update_from_part(self, part: ToolPart) -> (res: Self)
        ensures
            res.deep_view() == call_after(self.deep_view(), part.deep_view()),
    {
        let mut common = self.common;
        common.update(part.tool, &part.state);
        let tool = self.tool.updated(common.tool_name.as_str(), &part.state);
        ToolCallState { common, tool }
    }

    /// Sets whether the call is approved, where that is not known yet.
    pub fn set_approval_if_missing(&mut self, approval: Option<ApprovalStatus>)
        ensures
            final(self).deep_view() == (ToolCallState {
                common: ToolCallCommon {
                    approval: model::either(
                        old(self).deep_view().common.approval,
                        approval.deep_view(),
                    ),
                    ..old(self).deep_view().common
                },
                ..old(self).deep_view()
            }),
    {
        if self.common.approval.is_none() {
            self.common.approval = approval;
        }
    }

    /// What of the call is shown in terms of the project's directory.
    pub fn render_request(&self) -> (res: RenderRequest)
        ensures
            res.deep_view() == to_render(self.deep_view().tool),
    {
        match &self.tool {
            Tool::Read(s) => RenderRequest {
                file_path: process::copy_opt(&s.file_path),
                diff: None,
            },
            Tool::FileEdit(s) => {
                let diff = match s.kind {
                    FileEditKind::Write => None,
                    _ => process::copy_opt(&s.unified_diff),
                };
                RenderRequest { file_path: process::copy_opt(&s.file_path), diff }
            },
            _ => RenderRequest { file_path: None, diff: None },
        }
    }

    fn action(&self, rendered: &Rendered) -> (res: ActionType)
        ensures
            res.deep_view() == action_of(self.deep_view(), rendered.deep_view()),
    {
        match &self.tool {
            Tool::Bash(s) => {
                let exit_status = match s.exit_code {
                    Some(code) => Some(CommandExitStatus::ExitCode { code }),
                    None => None,
                };
                ActionType::CommandRun {
                    command: or_empty(&s.command),
                    result: Some(
                        CommandRunResult { exit_status, output: first_text(&s.output, &s.error) },
                    ),
                }
            },
            Tool::Read(s) => ActionType::FileRead { path: path_to_show(&s.file_path, rendered) },
            Tool::FileEdit(s) => ActionType::FileEdit {
                path: path_to_show(&s.file_path, rendered),
                changes: changes(s, rendered),
            },
            Tool::WebFetch(s) => ActionType::WebFetch { url: or_empty(&s.url) },
            Tool::Search(s) => ActionType::Search { query: or_empty(&s.query) },
            Tool::Todo(s) => {
                let operation = match s.operation {
                    TodoOperation::Read => text::owned("read"),
                    TodoOperation::Write => text::owned("write"),
                };
                ActionType::TodoManagement { todos: copy_todos(&s.todos), operation }
            },
            Tool::Task(s) => ActionType::TaskCreate { description: or_empty(&s.description) },
            Tool::Other(s) => {
                let arguments = match &s.input {
                    Some(v) => {
                        if v.is_object() {
                            Some(v.copy())
                        } else {
                            None
                        }
                    },
                    None => None,
                };
                let result = match first_text(&s.output, &s.error) {
                    Some(o) => Some(ToolResult::Markdown(o)),
                    None => None,
                };
                ActionType::Tool { tool_name: self.common.tool_name.clone(), arguments, result }
            },
        }
    }

    /// The entry that tells of the call.
    pub fn to_normalized_entry(&self, rendered: &Rendered) -> (res: NormalizedEntry)
        ensures
            res.deep_view() == entry_of(self.deep_view(), rendered.deep_view()),
    {
        let action_type = self.action(rendered);
        let content = tool_content(
            process::borrow_opt(&self.common.title),
            self.common.tool_name.as_str(),
            &action_type,
        );
        NormalizedEntry {
            timestamp: None,
            entry_type: NormalizedEntryType::ToolUse {
                tool_name: self.common.tool_name.clone(),
                action_type,
                status: self.common.tool_status(),
            },
            content,
            metadata: Some(ToolCallMetadata { tool_call_id: self.common.call_id.clone() }),
        }
    }

    /// The same knowledge of the call.
    pub fn copy(&self) -> (res: ToolCallState)
        ensures
            res.deep_view() == self.deep_view(),
    {
        ToolCallState { common: self.common.copy(), tool: self.tool.copy() }
    }
}

// ---------------------------------------------------------------------------
// Laws
// ---------------------------------------------------------------------------

/// Whether a tool is one whose calls are known in detail.
pub open spec fn known_tool(name: Seq<char>) -> bool {
    ||| name == "bash"@
    ||| name == "read"@
    ||| name == "edit"@
    ||| name == "write"@
    ||| name == "multiedit"@
    ||| name == "webfetch"@
    ||| name == "websearch"@
    ||| name == "codesearch"@
    ||| name == "grep"@
    ||| name == "glob"@
    ||| name == "todoread"@
    ||| name == "todowrite"@
    ||| name == "task"@
}

/// The call of a tool that was not known becomes a call of a known tool exactly where the tool is
/// known by the name that it has then, and once it is, it stays a call of that kind of tool.
pub proof fn lemma_promotion(call: CallView, part: ToolPart<Seq<char>, JsonView>)
    ensures
        ({
            let after = call_after(call, part);
            &&& call.tool is Other ==> (after.tool !is Other <==> known_tool(after.common.tool_name))
            &&& call.tool is Bash ==> after.tool is Bash
            &&& call.tool is Read ==> after.tool is Read
            &&& call.tool is FileEdit ==> after.tool is FileEdit
            &&& call.tool is WebFetch ==> after.tool is WebFetch
            &&& call.tool is Search ==> after.tool is Search
            &&& call.tool is Todo ==> after.tool is Todo
            &&& call.tool is Task ==> after.tool is Task
        }),
{
}

/// An update changes neither the id of a call, nor the index of its entry, nor its approval.
pub proof fn lemma_update_keeps(call: CallView, part: ToolPart<Seq<char>, JsonView>)
    ensures
        call_after(call, part).common.call_id == call.common.call_id,
        call_after(call, part).common.index == call.common.index,
        call_after(call, part).common.approval == call.common.approval,
{
}

/// A call that was denied, or whose approval timed out, is shown so, whatever becomes of it.
pub proof fn lemma_denied_stays_denied(call: CallView, part: ToolPart<Seq<char>, JsonView>)
    requires
        call.common.approval matches Some(a) && (a is Denied || a is TimedOut),
    ensures
        call_after(call, part).common.status() == call.common.status(),
        call.common.status() is Denied || call.common.status() is TimedOut,
{
}

/// What a tool is called as long as it has no name is not the name of a known tool.
proof fn lemma_unnamed_tool()
    ensures
        !known_tool("tool"@),
{
    reveal_strlit("tool");
    reveal_strlit("bash");
    reveal_strlit("read");
    reveal_strlit("edit");
    reveal_strlit("write");
    reveal_strlit("multiedit");
    reveal_strlit("webfetch");
    reveal_strlit("websearch");
    reveal_strlit("codesearch");
    reveal_strlit("grep");
    reveal_strlit("glob");
    reveal_strlit("todoread");
    reveal_strlit("todowrite");
    reveal_strlit("task");
    assert("tool"@[0] == 't' && "tool"@[1] == 'o');
    assert("bash"@[0] == 'b');
    assert("read"@[0] == 'r');
    assert("edit"@[0] == 'e');
    assert("grep"@[0] == 'g');
    assert("glob"@[0] == 'g');
    assert("task"@[1] == 'a');
    assert("tool"@.len() == 4);
    assert("write"@.len() == 5 && "multiedit"@.len() == 9 && "webfetch"@.len() == 8);
    assert("websearch"@.len() == 9 && "codesearch"@.len() == 10);
    assert("todoread"@.len() == 8 && "todowrite"@.len() == 9);
}

/// Nothing is lost where a tool is named late: a call whose first event does not name the tool,
/// and whose second does nothing but name it, is known as if the first had named it.
pub proof fn lemma_late_name(
    call_id: Seq<char>,
    unnamed: ToolPart<Seq<char>, JsonView>,
    named: ToolPart<Seq<char>, JsonView>,
)
    requires
        text::blank(unnamed.tool),
        named.state is Unknown,
    ensures
        call_after(call_after(new_call(call_id), unnamed), named) == call_after(
            new_call(call_id),
            ToolPart { tool: named.tool, ..unnamed },
        ),
{
    lemma_unnamed_tool();
}

} // verus!
