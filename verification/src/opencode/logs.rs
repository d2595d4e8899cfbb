//! The conversation with an agent, entry by entry.
use vstd::prelude::*;

use crate::json::{Json, JsonView};
use crate::opencode::inputs::TodoItem;

verus! {

/// How a command ended.
#[derive(Debug, Clone, Copy, PartialEq, Eq, Structural)]
pub enum CommandExitStatus {
    ExitCode { code: i32 },
}

/// What came of a command.
#[derive(Debug, PartialEq)]
pub struct CommandRunResult<S = String> {
    pub exit_status: Option<CommandExitStatus>,
    pub output: Option<S>,
}

impl DeepView for CommandRunResult {
    type V = CommandRunResult<Seq<char>>;

    open spec fn deep_view(&self) -> CommandRunResult<Seq<char>> {
        CommandRunResult { exit_status: self.exit_status, output: self.output.deep_view() }
    }
}

/// A change of a file.
#[derive(Debug, PartialEq)]
pub enum FileChange<S = String> {
    Write { content: S },
    Edit { unified_diff: S, has_line_numbers: bool },
}

impl DeepView for FileChange {
    type V = FileChange<Seq<char>>;

    open spec fn deep_view(&self) -> FileChange<Seq<char>> {
        match *self {
            FileChange::Write { content } => FileChange::Write { content: content@ },
            FileChange::Edit { unified_diff, has_line_numbers } => FileChange::Edit {
                unified_diff: unified_diff@,
                has_line_numbers,
            },
        }
    }
}

/// What a tool gave back.
#[derive(Debug, PartialEq)]
pub enum ToolResult<S = String> {
    Markdown(S),
}

impl DeepView for ToolResult {
    type V = ToolResult<Seq<char>>;

    open spec fn deep_view(&self) -> ToolResult<Seq<char>> {
        match *self {
            ToolResult::Markdown(s) => ToolResult::Markdown(s@),
        }
    }
}

/// What a tool does.
#[allow(inconsistent_fields)]
#[derive(Debug, PartialEq)]
pub enum ActionType<S = String, J = Json, T = Vec<TodoItem>, C = Vec<FileChange>> {
    FileRead { path: S },
    FileEdit { path: S, changes: C },
    CommandRun { command: S, result: Option<CommandRunResult<S>> },
    Search { query: S },
    WebFetch { url: S },
    Tool { tool_name: S, arguments: Option<J>, result: Option<ToolResult<S>> },
    TaskCreate { description: S },
    TodoManagement { todos: T, operation: S },
}

/// What a tool does, in the model.
pub type ActionView = ActionType<
    Seq<char>,
    JsonView,
    Seq<TodoItem<Seq<char>>>,
    Seq<FileChange<Seq<char>>>,
>;

impl DeepView for ActionType {
    type V = ActionView;

    open spec fn deep_view(&self) -> ActionView {
        match *self {
            ActionType::FileRead { path } => ActionType::FileRead { path: path@ },
            ActionType::FileEdit { path, changes } => ActionType::FileEdit {
                path: path@,
                changes: changes.deep_view(),
            },
            ActionType::CommandRun { command, result } => ActionType::CommandRun {
                command: command@,
                result: result.deep_view(),
            },
            ActionType::Search { query } => ActionType::Search { query: query@ },
            ActionType::WebFetch { url } => ActionType::WebFetch { url: url@ },
            ActionType::Tool { tool_name, arguments, result } => ActionType::Tool {
                tool_name: tool_name@,
                arguments: arguments.deep_view(),
                result: result.deep_view(),
            },
            ActionType::TaskCreate { description } => ActionType::TaskCreate {
                description: description@,
            },
            ActionType::TodoManagement { todos, operation } => ActionType::TodoManagement {
                todos: todos.deep_view(),
                operation: operation@,
            },
        }
    }
}

/// Where the call of a tool stands.
#[derive(Debug, PartialEq)]
pub enum ToolStatus<S = String> {
    Created,
    Success,
    Failed,
    Denied { reason: Option<S> },
    TimedOut,
}

impl DeepView for ToolStatus {
    type V = ToolStatus<Seq<char>>;

    open spec fn deep_view(&self) -> ToolStatus<Seq<char>> {
        match *self {
            ToolStatus::Created => ToolStatus::Created,
            ToolStatus::Success => ToolStatus::Success,
            ToolStatus::Failed => ToolStatus::Failed,
            ToolStatus::Denied { reason } => ToolStatus::Denied { reason: reason.deep_view() },
            ToolStatus::TimedOut => ToolStatus::TimedOut,
        }
    }
}

/// The kind of an error in a conversation.
#[derive(Debug, Clone, Copy, PartialEq, Eq, Structural)]
pub enum NormalizedEntryError {
    SetupRequired,
    Other,
}

/// The kind of an entry.
#[allow(inconsistent_fields)]
#[derive(Debug, PartialEq)]
pub enum NormalizedEntryType<S = String, J = Json, T = Vec<TodoItem>, C = Vec<FileChange>> {
    UserFeedback { denied_tool: S },
    AssistantMessage,
    ToolUse { tool_name: S, action_type: ActionType<S, J, T, C>, status: ToolStatus<S> },
    SystemMessage,
    ErrorMessage { error_type: NormalizedEntryError },
    Thinking,
}

/// The kind of an entry, in the model.
pub type EntryTypeView = NormalizedEntryType<
    Seq<char>,
    JsonView,
    Seq<TodoItem<Seq<char>>>,
    Seq<FileChange<Seq<char>>>,
>;

impl DeepView for NormalizedEntryType {
    type V = EntryTypeView;

    open spec fn deep_view(&self) -> EntryTypeView {
        match *self {
            NormalizedEntryType::UserFeedback { denied_tool } => NormalizedEntryType::UserFeedback {
                denied_tool: denied_tool@,
            },
            NormalizedEntryType::AssistantMessage => NormalizedEntryType::AssistantMessage,
            NormalizedEntryType::ToolUse { tool_name, action_type, status } =>
            NormalizedEntryType::ToolUse {
                tool_name: tool_name@,
                action_type: action_type.deep_view(),
                status: status.deep_view(),
            },
            NormalizedEntryType::SystemMessage => NormalizedEntryType::SystemMessage,
            NormalizedEntryType::ErrorMessage { error_type } => NormalizedEntryType::ErrorMessage {
                error_type,
            },
            NormalizedEntryType::Thinking => NormalizedEntryType::Thinking,
        }
    }
}

/// The call that an entry tells of.
#[derive(Debug, PartialEq)]
pub struct ToolCallMetadata<S = String> {
    pub tool_call_id: S,
}

impl DeepView for ToolCallMetadata {
    type V = ToolCallMetadata<Seq<char>>;

    open spec fn deep_view(&self) -> ToolCallMetadata<Seq<char>> {
        ToolCallMetadata { tool_call_id: self.tool_call_id@ }
    }
}

/// An entry of a conversation.
#[derive(Debug, PartialEq)]
pub struct NormalizedEntry<S = String, J = Json, T = Vec<TodoItem>, C = Vec<FileChange>> {
    pub timestamp: Option<S>,
    pub entry_type: NormalizedEntryType<S, J, T, C>,
    pub content: S,
    pub metadata: Option<ToolCallMetadata<S>>,
}

/// An entry of a conversation, in the model.
pub type EntryView = NormalizedEntry<
    Seq<char>,
    JsonView,
    Seq<TodoItem<Seq<char>>>,
    Seq<FileChange<Seq<char>>>,
>;

impl DeepView for NormalizedEntry {
    type V = EntryView;

    open spec fn deep_view(&self) -> EntryView {
        NormalizedEntry {
            timestamp: self.timestamp.deep_view(),
            entry_type: self.entry_type.deep_view(),
            content: self.content@,
            metadata: self.metadata.deep_view(),
        }
    }
}

/// An entry that tells of no call.
pub open spec fn plain_entry(entry_type: EntryTypeView, content: Seq<char>) -> EntryView {
    NormalizedEntry { timestamp: None, entry_type, content, metadata: None }
}

/// An entry that tells of no call.
pub fn make_plain_entry(entry_type: NormalizedEntryType, content: String) -> (res: NormalizedEntry)
    ensures
        res.deep_view() == plain_entry(entry_type.deep_view(), content@),
{
    NormalizedEntry { timestamp: None, entry_type, content, metadata: None }
}

/// A change of the conversation: an entry is added at an index, or takes the place of the entry
/// at it.
#[derive(Debug, PartialEq)]
pub enum LogPatch<E = NormalizedEntry> {
    Add { index: usize, entry: E },
    Replace { index: usize, entry: E },
}

impl DeepView for LogPatch {
    type V = LogPatch<EntryView>;

    open spec fn deep_view(&self) -> LogPatch<EntryView> {
        match *self {
            LogPatch::Add { index, entry } => LogPatch::Add { index, entry: entry.deep_view() },
            LogPatch::Replace { index, entry } => LogPatch::Replace {
                index,
                entry: entry.deep_view(),
            },
        }
    }
}

/// Gives out the indexes of entries, one after the other.
#[derive(Debug, PartialEq)]
pub struct EntryIndexProvider {
    pub next: usize,
}

/// The index after the given one.
pub open spec fn index_after(index: usize) -> usize {
    if index == usize::MAX {
        0
    } else {
        (index + 1) as usize
    }
}

impl EntryIndexProvider {
    /// The next index.
    pub fn next(&mut self) -> (res: usize)
        ensures
            res == old(self).next,
            final(self).next == index_after(old(self).next),
    {
        let index: usize = self.next;
        self.next = if index == usize::MAX {
            0
        } else {
            index + 1
        };
        index
    }
}

/// Indexes are given out one after the other, without a gap.
pub proof fn lemma_indexes(index: usize)
    requires
        index < usize::MAX,
    ensures
        index_after(index) == index + 1,
{
}

} // verus!
