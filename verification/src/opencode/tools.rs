//! What is known of the calls of each tool.
use vstd::prelude::*;
use vstd::string::*;

use crate::json;
use crate::json::{Json, JsonView};
use crate::model;
use crate::opencode::approvals::ApprovalStatus;
use crate::opencode::events::{ToolStateStatus, ToolStateUpdate};
use crate::opencode::inputs;
use crate::opencode::inputs::TodoItem;
use crate::opencode::logs::ToolStatus;
use crate::process;
use crate::text;

verus! {

/// What an event says of a call, in the model.
pub type UpdateView = ToolStateUpdate<Seq<char>, JsonView>;

// ---------------------------------------------------------------------------
// What an event says of a call
// ---------------------------------------------------------------------------

/// What the tool was called with.
pub open spec fn input_in(update: UpdateView) -> Option<JsonView> {
    match update {
        ToolStateUpdate::Pending { input } => input,
        ToolStateUpdate::Running { input, .. } => input,
        ToolStateUpdate::Completed { input, .. } => input,
        ToolStateUpdate::Error { input, .. } => input,
        ToolStateUpdate::Unknown => None,
    }
}

/// What the tool tells besides its output.
pub open spec fn metadata_in(update: UpdateView) -> Option<JsonView> {
    match update {
        ToolStateUpdate::Running { metadata, .. } => metadata,
        ToolStateUpdate::Completed { metadata, .. } => metadata,
        ToolStateUpdate::Error { metadata, .. } => metadata,
        _ => None,
    }
}

/// A text, where it is there and not blank, or else what was there before.
pub open spec fn unless_blank(new: Option<Seq<char>>, old: Option<Seq<char>>) -> Option<Seq<char>> {
    if new is Some && !text::blank(new->0) {
        new
    } else {
        old
    }
}

/// The title of a call after an update.
pub open spec fn title_after(title: Option<Seq<char>>, update: UpdateView) -> Option<Seq<char>> {
    match update {
        ToolStateUpdate::Running { title: new, .. } => unless_blank(new, title),
        ToolStateUpdate::Completed { title: new, .. } => unless_blank(new, title),
        _ => title,
    }
}

/// The status of a call after an update.
pub open spec fn status_after(status: ToolStateStatus, update: UpdateView) -> ToolStateStatus {
    match update {
        ToolStateUpdate::Pending { .. } => ToolStateStatus::Pending,
        ToolStateUpdate::Running { .. } => ToolStateStatus::Running,
        ToolStateUpdate::Completed { .. } => ToolStateStatus::Completed,
        ToolStateUpdate::Error { .. } => ToolStateStatus::Error,
        ToolStateUpdate::Unknown => status,
    }
}

/// The output of a call after an update.
pub open spec fn output_after(output: Option<Seq<char>>, update: UpdateView) -> Option<Seq<char>> {
    match update {
        ToolStateUpdate::Completed { output: new, .. } => model::either(new, output),
        _ => output,
    }
}

/// The error of a call after an update: a call that was completed has none.
pub open spec fn error_after(error: Option<Seq<char>>, update: UpdateView) -> Option<Seq<char>> {
    match update {
        ToolStateUpdate::Completed { .. } => None,
        ToolStateUpdate::Error { error: new, .. } => unless_blank(new, error),
        _ => error,
    }
}

impl ToolStateUpdate {
    /// What the tool was called with.
    pub fn input(&self) -> (res: Option<&Json>)
        ensures
            res.deep_view() == input_in(self.deep_view()),
    {
        let input = match self {
            ToolStateUpdate::Pending { input } => input,
            ToolStateUpdate::Running { input, .. } => input,
            ToolStateUpdate::Completed { input, .. } => input,
            ToolStateUpdate::Error { input, .. } => input,
            ToolStateUpdate::Unknown => {
                return None;
            },
        };
        match input {
            Some(v) => Some(v),
            None => None,
        }
    }

    /// What the tool tells besides its output.
    pub fn metadata(&self) -> (res: Option<&Json>)
        ensures
            res.deep_view() == metadata_in(self.deep_view()),
    {
        let metadata = match self {
            ToolStateUpdate::Running { metadata, .. } => metadata,
            ToolStateUpdate::Completed { metadata, .. } => metadata,
            ToolStateUpdate::Error { metadata, .. } => metadata,
            _ => {
                return None;
            },
        };
        match metadata {
            Some(v) => Some(v),
            None => None,
        }
    }
}

fn set_unless_blank(slot: &mut Option<String>, new: &Option<String>)
    ensures
        final(slot).deep_view() == unless_blank(new.deep_view(), old(slot).deep_view()),
{
    if let Some(s) = new {
        if !text::is_blank(s.as_str()) {
            *slot = Some(s.clone());
        }
    }
}

fn update_output(output: &mut Option<String>, update: &ToolStateUpdate)
    ensures
        final(output).deep_view() == output_after(old(output).deep_view(), update.deep_view()),
{
    if let ToolStateUpdate::Completed { output: new, .. } = update {
        if let Some(s) = new {
            *output = Some(s.clone());
        }
    }
}

fn update_error(error: &mut Option<String>, update: &ToolStateUpdate)
    ensures
        final(error).deep_view() == error_after(old(error).deep_view(), update.deep_view()),
{
    match update {
        ToolStateUpdate::Completed { .. } => {
            *error = None;
        },
        ToolStateUpdate::Error { error: new, .. } => {
            set_unless_blank(error, new);
        },
        _ => {},
    }
}

// ---------------------------------------------------------------------------
// What is known of every call
// ---------------------------------------------------------------------------

/// What is known of every call.
#[derive(Debug, PartialEq)]
pub struct ToolCallCommon<S = String> {
    /// The index of the entry that tells of the call.
    pub index: Option<usize>,
    pub call_id: S,
    pub tool_name: S,
    pub state: ToolStateStatus,
    pub title: Option<S>,
    pub approval: Option<ApprovalStatus<S>>,
}

impl DeepView for ToolCallCommon {
    type V = ToolCallCommon<Seq<char>>;

    open spec fn deep_view(&self) -> ToolCallCommon<Seq<char>> {
        ToolCallCommon {
            index: self.index,
            call_id: self.call_id@,
            tool_name: self.tool_name@,
            state: self.state,
            title: self.title.deep_view(),
            approval: self.approval.deep_view(),
        }
    }
}

impl ToolCallCommon<Seq<char>> {
    /// What is known of a call after an update.
    pub open spec fn after(self, tool: Seq<char>, update: UpdateView) -> ToolCallCommon<Seq<char>> {
        ToolCallCommon {
            tool_name: if text::blank(tool) {
                self.tool_name
            } else {
                tool
            },
            state: status_after(self.state, update),
            title: title_after(self.title, update),
            ..self
        }
    }

    /// Where the call stands for a reader: a denial and a timeout decide before anything else.
    pub open spec fn status(self) -> ToolStatus<Seq<char>> {
        match self.approval {
            Some(ApprovalStatus::Denied { reason }) => ToolStatus::Denied { reason },
            Some(ApprovalStatus::TimedOut) => ToolStatus::TimedOut,
            _ => match self.state {
                ToolStateStatus::Completed => ToolStatus::Success,
                ToolStateStatus::Error => ToolStatus::Failed,
                _ => ToolStatus::Created,
            },
        }
    }
}

impl ToolCallCommon {
    /// Nothing known of a call but its id.
    pub fn new(call_id: String) -> (res: Self)
        ensures
            res.deep_view() == (ToolCallCommon {
                index: None,
                call_id: call_id@,
                tool_name: "tool"@,
                state: ToolStateStatus::Unknown,
                title: None,
                approval: None,
            }),
    {
        ToolCallCommon {
            index: None,
            call_id,
            tool_name: text::owned("tool"),
            state: ToolStateStatus::Unknown,
            title: None,
            approval: None,
        }
    }

    /// Sets the title, where there is one that is not blank.
    pub fn set_title_if_present(&mut self, title: &Option<String>)
        ensures
            final(self).deep_view() == (ToolCallCommon {
                title: unless_blank(title.deep_view(), old(self).deep_view().title),
                ..old(self).deep_view()
            }),
    {
        set_unless_blank(&mut self.title, title);
    }

    /// Sets the name of the tool, where it is not blank.
    pub fn set_tool_name_if_present(&mut self, tool: String)
        ensures
            final(self).deep_view() == (ToolCallCommon {
                tool_name: if text::blank(tool@) {
                    old(self).tool_name@
                } else {
                    tool@
                },
                ..old(self).deep_view()
            }),
    {
        if !text::is_blank(tool.as_str()) {
            self.tool_name = tool;
        }
    }

    /// Takes what an event says of the call.
    pub fn update(&mut self, tool: String, update: &ToolStateUpdate)
        ensures
            final(self).deep_view() == old(self).deep_view().after(tool@, update.deep_view()),
    {
        self.set_tool_name_if_present(tool);
        match update {
            ToolStateUpdate::Pending { .. } => {
                self.state = ToolStateStatus::Pending;
            },
            ToolStateUpdate::Running { title, .. } => {
                self.state = ToolStateStatus::Running;
                self.set_title_if_present(title);
            },
            ToolStateUpdate::Completed { title, .. } => {
                self.state = ToolStateStatus::Completed;
                self.set_title_if_present(title);
            },
            ToolStateUpdate::Error { .. } => {
                self.state = ToolStateStatus::Error;
            },
            ToolStateUpdate::Unknown => {},
        }
    }

    /// Where the call stands for a reader.
    pub fn tool_status(&self) -> (res: ToolStatus)
        ensures
            res.deep_view() == self.deep_view().status(),
    {
        match &self.approval {
            Some(ApprovalStatus::Denied { reason }) => {
                return ToolStatus::Denied { reason: process::copy_opt(reason) };
            },
            Some(ApprovalStatus::TimedOut) => {
                return ToolStatus::TimedOut;
            },
            _ => {},
        }
        match self.state {
            ToolStateStatus::Completed => ToolStatus::Success,
            ToolStateStatus::Error => ToolStatus::Failed,
            _ => ToolStatus::Created,
        }
    }

    /// The same knowledge of the call.
    pub fn copy(&self) -> (res: ToolCallCommon)
        ensures
            res == *self,
    {
        ToolCallCommon {
            index: self.index,
            call_id: self.call_id.clone(),
            tool_name: self.tool_name.clone(),
            state: self.state,
            title: process::copy_opt(&self.title),
            approval: match &self.approval {
                Some(a) => Some(a.copy()),
                None => None,
            },
        }
    }
}

// ---------------------------------------------------------------------------
// What is known of the calls of each tool
// ---------------------------------------------------------------------------

/// What is known of a command.
#[derive(Debug, PartialEq)]
pub struct BashToolState<S = String> {
    pub command: Option<S>,
    pub output: Option<S>,
    pub error: Option<S>,
    pub exit_code: Option<i32>,
}

impl DeepView for BashToolState {
    type V = BashToolState<Seq<char>>;

    open spec fn deep_view(&self) -> BashToolState<Seq<char>> {
        BashToolState {
            command: self.command.deep_view(),
            output: self.output.deep_view(),
            error: self.error.deep_view(),
            exit_code: self.exit_code,
        }
    }
}

/// A text that an optional value tells of, or else what was known before.
pub open spec fn text_from(
    value: Option<JsonView>,
    name: Seq<char>,
    known: Option<Seq<char>>,
) -> Option<Seq<char>> {
    match value {
        Some(v) => model::either(inputs::single_text(v, name), known),
        None => known,
    }
}

/// The exit code that optional metadata tell of, or else what was known before.
pub open spec fn exit_code_from(metadata: Option<JsonView>, known: Option<i32>) -> Option<i32> {
    match metadata {
        Some(m) => match json::opt_integer(m.field("exit"@)) {
            Some(code) => Some(code as i32),
            None => None,
        },
        None => known,
    }
}

impl BashToolState<Seq<char>> {
    /// What is known of a command once its input and metadata are told.
    pub open spec fn told(self, input: Option<JsonView>, metadata: Option<JsonView>) -> BashToolState<
        Seq<char>,
    > {
        BashToolState {
            command: text_from(input, "command"@, self.command),
            exit_code: exit_code_from(metadata, self.exit_code),
            ..self
        }
    }

    /// What is known of a command after an update.
    pub open spec fn after(self, update: UpdateView) -> BashToolState<Seq<char>> {
        BashToolState {
            output: output_after(self.output, update),
            error: error_after(self.error, update),
            ..self.told(input_in(update), metadata_in(update))
        }
    }
}

impl BashToolState {
    /// Takes the input and the metadata of a command.
    pub fn update_from_raw(&mut self, input: Option<&Json>, metadata: Option<&Json>)
        ensures
            final(self).deep_view() == old(self).deep_view().told(
                input.deep_view(),
                metadata.deep_view(),
            ),
    {
        if let Some(v) = input {
            if let Some(command) = inputs::read_command(v) {
                self.command = Some(command);
            }
        }
        if let Some(m) = metadata {
            self.exit_code = match json::i64_opt(m.get("exit")) {
                Some(code) => Some(#[verifier::truncate] (code as i32)),
                None => None,
            };
        }
    }

    /// Takes what an event says of a command.
    pub fn update_from_part(&mut self, update: &ToolStateUpdate)
        ensures
            final(self).deep_view() == old(self).deep_view().after(update.deep_view()),
    {
        update_output(&mut self.output, update);
        update_error(&mut self.error, update);
        self.update_from_raw(update.input(), update.metadata());
    }
}

/// What is known of the reading of a file.
#[derive(Debug, PartialEq)]
pub struct ReadToolState<S = String> {
    pub file_path: Option<S>,
}

impl DeepView for ReadToolState {
    type V = ReadToolState<Seq<char>>;

    open spec fn deep_view(&self) -> ReadToolState<Seq<char>> {
        ReadToolState { file_path: self.file_path.deep_view() }
    }
}

impl ReadToolState<Seq<char>> {
    /// What is known of the reading of a file once its input is told.
    pub open spec fn told(self, input: Option<JsonView>) -> ReadToolState<Seq<char>> {
        ReadToolState { file_path: text_from(input, "filePath"@, self.file_path) }
    }
}

impl ReadToolState {
    /// Takes the input of the reading of a file.
    pub fn update_from_raw(&mut self, input: Option<&Json>)
        ensures
            final(self).deep_view() == old(self).deep_view().told(input.deep_view()),
    {
        if let Some(v) = input {
            if let Some(path) = inputs::read_file_path(v) {
                self.file_path = Some(path);
            }
        }
    }

    /// Takes what an event says of the reading of a file.
    pub fn update_from_part(&mut self, update: &ToolStateUpdate)
        ensures
            final(self).deep_view() == old(self).deep_view().told(input_in(update.deep_view())),
    {
        self.update_from_raw(update.input());
    }
}

/// How a file is edited.
#[derive(Debug, Clone, Copy, PartialEq, Eq, Structural)]
pub enum FileEditKind {
    Edit,
    Write,
    MultiEdit,
}

/// How the tool of the given name edits files.
pub open spec fn edit_kind(tool_name: Seq<char>) -> FileEditKind {
    if tool_name == "write"@ {
        FileEditKind::Write
    } else if tool_name == "multiedit"@ {
        FileEditKind::MultiEdit
    } else {
        FileEditKind::Edit
    }
}

/// How the tool of the given name edits files.
pub fn file_edit_kind(tool_name: &str) -> (res: FileEditKind)
    ensures
        res == edit_kind(tool_name@),
{
    if text::str_eq(tool_name, "write") {
        FileEditKind::Write
    } else if text::str_eq(tool_name, "multiedit") {
        FileEditKind::MultiEdit
    } else {
        FileEditKind::Edit
    }
}

/// What is known of the editing of a file.
#[derive(Debug, PartialEq)]
pub struct FileEditToolState<S = String> {
    pub kind: FileEditKind,
    pub file_path: Option<S>,
    pub write_content: Option<S>,
    pub unified_diff: Option<S>,
}

impl DeepView for FileEditToolState {
    type V = FileEditToolState<Seq<char>>;

    open spec fn deep_view(&self) -> FileEditToolState<Seq<char>> {
        FileEditToolState {
            kind: self.kind,
            file_path: self.file_path.deep_view(),
            write_content: self.write_content.deep_view(),
            unified_diff: self.unified_diff.deep_view(),
        }
    }
}

impl FileEditToolState<Seq<char>> {
    /// What is known of the editing of a file once its input and metadata are told. The path and
    /// the content of a file that is written come together.
    pub open spec fn told(
        self,
        input: Option<JsonView>,
        metadata: Option<JsonView>,
    ) -> FileEditToolState<Seq<char>> {
        let written = match input {
            Some(v) => inputs::write_input_of(v),
            None => None,
        };
        if self.kind == FileEditKind::Write {
            match written {
                Some(w) => FileEditToolState {
                    file_path: Some(w.file_path),
                    write_content: Some(w.content),
                    ..self
                },
                None => self,
            }
        } else {
            FileEditToolState {
                file_path: text_from(input, "filePath"@, self.file_path),
                unified_diff: match metadata {
                    Some(m) => inputs::diff_in(m),
                    None => self.unified_diff,
                },
                ..self
            }
        }
    }

    /// What is known of the editing of a file after an update.
    pub open spec fn after(self, tool_name: Seq<char>, update: UpdateView) -> FileEditToolState<
        Seq<char>,
    > {
        (FileEditToolState { kind: edit_kind(tool_name), ..self }).told(
            input_in(update),
            metadata_in(update),
        )
    }
}

impl FileEditToolState {
    /// Takes the input and the metadata of the editing of a file.
    pub fn update_from_raw(&mut self, input: Option<&Json>, metadata: Option<&Json>)
        ensures
            final(self).deep_view() == old(self).deep_view().told(
                input.deep_view(),
                metadata.deep_view(),
            ),
    {
        match self.kind {
            FileEditKind::Write => {
                if let Some(v) = input {
                    if let Some(written) = inputs::read_write_input(v) {
                        self.file_path = Some(written.file_path);
                        self.write_content = Some(written.content);
                    }
                }
            },
            _ => {
                if let Some(v) = input {
                    if let Some(path) = inputs::read_file_path(v) {
                        self.file_path = Some(path);
                    }
                }
                if let Some(m) = metadata {
                    self.unified_diff = inputs::extract_diff_from_metadata(m);
                }
            },
        }
    }

    /// Takes what an event says of the editing of a file.
    pub fn update_from_part(&mut self, tool_name: &str, update: &ToolStateUpdate)
        ensures
            final(self).deep_view() == old(self).deep_view().after(
                tool_name@,
                update.deep_view(),
            ),
    {
        self.kind = file_edit_kind(tool_name);
        self.update_from_raw(update.input(), update.metadata());
    }
}

/// What is known of the fetching of a page.
#[derive(Debug, PartialEq)]
pub struct WebFetchToolState<S = String> {
    pub url: Option<S>,
}

impl DeepView for WebFetchToolState {
    type V = WebFetchToolState<Seq<char>>;

    open spec fn deep_view(&self) -> WebFetchToolState<Seq<char>> {
        WebFetchToolState { url: self.url.deep_view() }
    }
}

impl WebFetchToolState<Seq<char>> {
    /// What is known of the fetching of a page once its input is told.
    pub open spec fn told(self, input: Option<JsonView>) -> WebFetchToolState<Seq<char>> {
        WebFetchToolState { url: text_from(input, "url"@, self.url) }
    }
}

impl WebFetchToolState {
    /// Takes the input of the fetching of a page.
    pub fn update_from_raw(&mut self, input: Option<&Json>)
        ensures
            final(self).deep_view() == old(self).deep_view().told(input.deep_view()),
    {
        if let Some(v) = input {
            if let Some(url) = inputs::read_url(v) {
                self.url = Some(url);
            }
        }
    }

    /// Takes what an event says of the fetching of a page.
    pub fn update_from_part(&mut self, update: &ToolStateUpdate)
        ensures
            final(self).deep_view() == old(self).deep_view().told(input_in(update.deep_view())),
    {
        self.update_from_raw(update.input());
    }
}

/// What is known of a search.
#[derive(Debug, PartialEq)]
pub struct SearchToolState<S = String> {
    pub query: Option<S>,
}

impl DeepView for SearchToolState {
    type V = SearchToolState<Seq<char>>;

    open spec fn deep_view(&self) -> SearchToolState<Seq<char>> {
        SearchToolState { query: self.query.deep_view() }
    }
}

impl SearchToolState<Seq<char>> {
    /// What is known of a search once its input is told.
    pub open spec fn told(self, input: Option<JsonView>) -> SearchToolState<Seq<char>> {
        SearchToolState {
            query: match input {
                Some(v) => model::value_or(inputs::search_of(v), self.query),
                None => self.query,
            },
        }
    }
}

impl SearchToolState {
    /// Takes the input of a search.
    pub fn update_from_raw(&mut self, input: Option<&Json>)
        ensures
            final(self).deep_view() == old(self).deep_view().told(input.deep_view()),
    {
        if let Some(v) = input {
            if let Some(query) = inputs::read_search(v) {
                self.query = query;
            }
        }
    }

    /// Takes what an event says of a search.
    pub fn update_from_part(&mut self, update: &ToolStateUpdate)
        ensures
            final(self).deep_view() == old(self).deep_view().told(input_in(update.deep_view())),
    {
        self.update_from_raw(update.input());
    }
}

/// What is done with the list of what the agent means to do.
#[derive(Debug, Clone, Copy, PartialEq, Eq, Structural)]
pub enum TodoOperation {
    Read,
    Write,
}

/// What the tool of the given name does with the list.
pub open spec fn operation_of(tool_name: Seq<char>) -> TodoOperation {
    if tool_name == "todoread"@ {
        TodoOperation::Read
    } else {
        TodoOperation::Write
    }
}

/// What the tool of the given name does with the list.
pub fn todo_operation(tool_name: &str) -> (res: TodoOperation)
    ensures
        res == operation_of(tool_name@),
{
    if text::str_eq(tool_name, "todoread") {
        TodoOperation::Read
    } else {
        TodoOperation::Write
    }
}

/// What is known of the list of what the agent means to do.
#[derive(Debug, PartialEq)]
pub struct TodoToolState<T = Vec<TodoItem>> {
    pub operation: TodoOperation,
    pub todos: T,
}

impl DeepView for TodoToolState {
    type V = TodoToolState<Seq<TodoItem<Seq<char>>>>;

    open spec fn deep_view(&self) -> TodoToolState<Seq<TodoItem<Seq<char>>>> {
        TodoToolState { operation: self.operation, todos: self.todos.deep_view() }
    }
}

impl TodoToolState<Seq<TodoItem<Seq<char>>>> {
    /// What is known of the list once the input and the metadata of the call are told: a list that
    /// is written is the input, and one that is read is told by the metadata.
    pub open spec fn told(
        self,
        input: Option<JsonView>,
        metadata: Option<JsonView>,
    ) -> TodoToolState<Seq<TodoItem<Seq<char>>>> {
        let source = match self.operation {
            TodoOperation::Write => input,
            TodoOperation::Read => metadata,
        };
        TodoToolState {
            todos: match source {
                Some(v) => model::value_or(inputs::todos_of(v), self.todos),
                None => self.todos,
            },
            ..self
        }
    }

    /// What is known of the list after an update.
    pub open spec fn after(self, tool_name: Seq<char>, update: UpdateView) -> TodoToolState<
        Seq<TodoItem<Seq<char>>>,
    > {
        (TodoToolState { operation: operation_of(tool_name), ..self }).told(
            input_in(update),
            metadata_in(update),
        )
    }
}

impl TodoToolState {
    /// Takes the input and the metadata of the call.
    pub fn update_from_raw(&mut self, input: Option<&Json>, metadata: Option<&Json>)
        ensures
            final(self).deep_view() == old(self).deep_view().told(
                input.deep_view(),
                metadata.deep_view(),
            ),
    {
        let source = match self.operation {
            TodoOperation::Write => input,
            TodoOperation::Read => metadata,
        };
        if let Some(v) = source {
            if let Some(todos) = inputs::read_todos(v) {
                self.todos = todos;
            }
        }
    }

    /// Takes what an event says of the call.
    pub fn update_from_part(&mut self, tool_name: &str, update: &ToolStateUpdate)
        ensures
            final(self).deep_view() == old(self).deep_view().after(
                tool_name@,
                update.deep_view(),
            ),
    {
        self.operation = todo_operation(tool_name);
        self.update_from_raw(update.input(), update.metadata());
    }
}

/// What is known of a task that is made.
#[derive(Debug, PartialEq)]
pub struct TaskToolState<S = String> {
    pub description: Option<S>,
}

impl DeepView for TaskToolState {
    type V = TaskToolState<Seq<char>>;

    open spec fn deep_view(&self) -> TaskToolState<Seq<char>> {
        TaskToolState { description: self.description.deep_view() }
    }
}

impl TaskToolState<Seq<char>> {
    /// What is known of a task once its input is told.
    pub open spec fn told(self, input: Option<JsonView>) -> TaskToolState<Seq<char>> {
        TaskToolState { description: text_from(input, "description"@, self.description) }
    }
}

impl TaskToolState {
    /// Takes the input of a task.
    pub fn update_from_raw(&mut self, input: Option<&Json>)
        ensures
            final(self).deep_view() == old(self).deep_view().told(input.deep_view()),
    {
        if let Some(v) = input {
            if let Some(description) = inputs::read_description(v) {
                self.description = Some(description);
            }
        }
    }

    /// Takes what an event says of a task.
    pub fn update_from_part(&mut self, update: &ToolStateUpdate)
        ensures
            final(self).deep_view() == old(self).deep_view().told(input_in(update.deep_view())),
    {
        self.update_from_raw(update.input());
    }
}

/// What is known of the call of any other tool.
#[derive(Debug, PartialEq)]
pub struct OtherToolState<S = String, J = Json> {
    pub input: Option<J>,
    pub metadata: Option<J>,
    pub output: Option<S>,
    pub error: Option<S>,
}

impl DeepView for OtherToolState {
    type V = OtherToolState<Seq<char>, JsonView>;

    open spec fn deep_view(&self) -> OtherToolState<Seq<char>, JsonView> {
        OtherToolState {
            input: self.input.deep_view(),
            metadata: self.metadata.deep_view(),
            output: self.output.deep_view(),
            error: self.error.deep_view(),
        }
    }
}

impl OtherToolState<Seq<char>, JsonView> {
    /// What is known of a call after an update.
    pub open spec fn after(self, update: UpdateView) -> OtherToolState<Seq<char>, JsonView> {
        OtherToolState {
            input: model::either(input_in(update), self.input),
            metadata: model::either(metadata_in(update), self.metadata),
            output: output_after(self.output, update),
            error: error_after(self.error, update),
        }
    }
}

impl OtherToolState {
    /// Nothing known of a call.
    pub fn new() -> (res: Self)
        ensures
            res.deep_view() == (OtherToolState::<Seq<char>, JsonView> {
                input: None,
                metadata: None,
                output: None,
                error: None,
            }),
    {
        OtherToolState { input: None, metadata: None, output: None, error: None }
    }

    /// Takes what an event says of a call.
    pub fn update_from_part(&mut self, update: &ToolStateUpdate)
        ensures
            final(self).deep_view() == old(self).deep_view().after(update.deep_view()),
    {
        if let Some(input) = update.input() {
            self.input = Some(input.copy());
        }
        if let Some(metadata) = update.metadata() {
            self.metadata = Some(metadata.copy());
        }
        update_output(&mut self.output, update);
        update_error(&mut self.error, update);
    }
}

} // verus!
