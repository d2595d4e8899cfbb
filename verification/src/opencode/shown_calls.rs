//! Laws of how the calls of tools are shown: what a tool is called decides what its calls are shown
//! as, and what it was called with is what is shown.
use vstd::prelude::*;

use crate::json::{JsonNumber, JsonView};
use crate::model;
use crate::opencode::approvals::ApprovalStatus;
use crate::opencode::events::{ToolPart, ToolStateUpdate};
use crate::opencode::inputs;
use crate::opencode::logs::{
    ActionType, ActionView, CommandExitStatus, FileChange, NormalizedEntryType, ToolResult,
    ToolStatus,
};
use crate::opencode::tool_calls;
use crate::opencode::tool_calls::{CallView, Rendered, Tool};
use crate::opencode::tools;
use crate::text;

verus! {

/// A part that tells of a call.
pub type PartView = ToolPart<Seq<char>, JsonView>;

/// What a call does, by the entry that tells of it after a part.
pub open spec fn shown_action(call: CallView, part: PartView, rendered: Rendered<Seq<char>>) -> ActionView {
    match tool_calls::entry_of(tool_calls::call_after(call, part), rendered).entry_type {
        NormalizedEntryType::ToolUse { action_type, .. } => action_type,
        _ => arbitrary(),
    }
}

/// What the tool of a call is called after a part: what the part calls it, unless that is blank.
pub open spec fn name_after(call: CallView, part: PartView) -> Seq<char> {
    if text::blank(part.tool) {
        call.common.tool_name
    } else {
        part.tool
    }
}

/// Whether an object has a text under a name.
pub open spec fn says(v: Option<JsonView>, name: Seq<char>, said: Seq<char>) -> bool {
    v is Some && v->0 is Object && v->0.field(name) == Some(JsonView::Text(said))
}

/// What a part tells that a tool was called with.
pub open spec fn part_input(part: PartView) -> Option<JsonView> {
    match part.state {
        ToolStateUpdate::Pending { input } => input,
        ToolStateUpdate::Running { input, .. } => input,
        ToolStateUpdate::Completed { input, .. } => input,
        ToolStateUpdate::Error { input, .. } => input,
        ToolStateUpdate::Unknown => None,
    }
}

/// What a part tells of a call besides its output.
pub open spec fn part_metadata(part: PartView) -> Option<JsonView> {
    match part.state {
        ToolStateUpdate::Running { metadata, .. } => metadata,
        ToolStateUpdate::Completed { metadata, .. } => metadata,
        ToolStateUpdate::Error { metadata, .. } => metadata,
        _ => None,
    }
}

/// What a call of a tool that was not known before is shown as, by the name of the tool: a shell
/// runs a command; `read` reads a file; `edit`, `write` and `multiedit` edit one; `webfetch` fetches
/// a page; `websearch`, `codesearch`, `grep` and `glob` search; `todoread` and `todowrite` manage
/// what is to be done; `task` makes a task; every other tool is shown as itself.
pub proof fn lemma_name_decides_action(
    call: CallView,
    part: PartView,
    rendered: Rendered<Seq<char>>,
)
    requires
        call.tool is Other,
    ensures
        ({
            let name = name_after(call, part);
            let action = shown_action(call, part, rendered);
            &&& action is CommandRun <==> name == "bash"@
            &&& action is FileRead <==> name == "read"@
            &&& action is FileEdit <==> name == "edit"@ || name == "write"@ || name == "multiedit"@
            &&& action is WebFetch <==> name == "webfetch"@
            &&& action is Search <==> name == "websearch"@ || name == "codesearch"@ || name
                == "grep"@ || name == "glob"@
            &&& action is TodoManagement <==> name == "todoread"@ || name == "todowrite"@
            &&& action is TaskCreate <==> name == "task"@
            &&& action is Tool <==> !tool_calls::known_tool(name)
            &&& action matches ActionType::Tool { tool_name, .. } ==> tool_name == name
        }),
{
    lemma_names_differ();
}

/// The names of the tools differ.
proof fn lemma_names_differ()
    ensures
        "bash"@ != "read"@ && "bash"@ != "edit"@ && "bash"@ != "grep"@ && "bash"@ != "glob"@
            && "bash"@ != "task"@,
        "read"@ != "edit"@ && "read"@ != "grep"@ && "read"@ != "glob"@ && "read"@ != "task"@,
        "edit"@ != "grep"@ && "edit"@ != "glob"@ && "edit"@ != "task"@,
        "grep"@ != "task"@ && "glob"@ != "task"@,
        "webfetch"@ != "todoread"@,
        "multiedit"@ != "websearch"@ && "multiedit"@ != "todowrite"@,
        "websearch"@ != "todowrite"@,
        "bash"@.len() == 4 && "read"@.len() == 4 && "edit"@.len() == 4 && "grep"@.len() == 4
            && "glob"@.len() == 4 && "task"@.len() == 4,
        "write"@.len() == 5,
        "multiedit"@.len() == 9 && "websearch"@.len() == 9 && "todowrite"@.len() == 9,
        "webfetch"@.len() == 8 && "todoread"@.len() == 8,
        "codesearch"@.len() == 10,
{
    reveal_strlit("bash");
    reveal_strlit("read");
    reveal_strlit("edit");
    reveal_strlit("write");
    reveal_strlit("multiedit");
    reveal_strlit("webfetch");
    reveal_strlit("websearch");
    reveal_strlit("codesearch");
    reveal_strlit("grep");
    reveal_strlit("glob");
    reveal_strlit("todoread");
    reveal_strlit("todowrite");
    reveal_strlit("task");
    assert("bash"@[0] == 'b');
    assert("read"@[0] == 'r');
    assert("edit"@[0] == 'e');
    assert("grep"@[0] == 'g');
    assert("glob"@[0] == 'g');
    assert("task"@[0] == 't');
    assert("webfetch"@[0] == 'w');
    assert("todoread"@[0] == 't');
    assert("multiedit"@[0] == 'm');
    assert("websearch"@[0] == 'w');
    assert("todowrite"@[0] == 't');
}

/// What a tool was called with is what its call is shown with, whether or not the tool was known
/// before: the command, the URL, the description of a task, and what is searched for, which is the
/// query or, without one, the pattern.
pub proof fn lemma_input_is_shown(
    call: CallView,
    part: PartView,
    rendered: Rendered<Seq<char>>,
    said: Seq<char>,
)
    ensures
        ({
            let input = part_input(part);
            let action = shown_action(call, part, rendered);
            &&& says(input, "command"@, said) ==> (action matches ActionType::CommandRun {
                command,
                ..
            } ==> command == said)
            &&& says(input, "url"@, said) ==> (action matches ActionType::WebFetch { url } ==> url
                == said)
            &&& says(input, "description"@, said) ==> (action matches ActionType::TaskCreate {
                description,
            } ==> description == said)
            &&& says(input, "query"@, said) && (input->0.field("pattern"@) is None
                || input->0.field("pattern"@)->0 is Text) ==> (action matches ActionType::Search {
                query,
            } ==> query == said)
            &&& says(input, "pattern"@, said) && input->0.field("query"@) is None ==> (
            action matches ActionType::Search { query } ==> query == said)
        }),
{
    lemma_names_differ();
    reveal_strlit("command");
    reveal_strlit("url");
}

/// The file that a tool was called with is the one that is to be shown, and it is shown as it is
/// rendered; what is written to a file is shown as it was told.
pub proof fn lemma_file_is_shown(
    call: CallView,
    part: PartView,
    rendered: Rendered<Seq<char>>,
    file: Seq<char>,
    content: Seq<char>,
)
    requires
        says(part_input(part), "filePath"@, file),
    ensures
        ({
            let input = part_input(part);
            let after = tool_calls::call_after(call, part);
            let action = shown_action(call, part, rendered);
            let written = name_after(call, part) == "write"@;
            &&& action matches ActionType::FileRead { path } ==> path == rendered.path
                && tool_calls::to_render(after.tool).file_path == Some(file)
            &&& action matches ActionType::FileEdit { path, .. } ==> (!written ==> path
                == rendered.path && tool_calls::to_render(after.tool).file_path == Some(file))
            &&& says(input, "content"@, content) && written ==> (action
                matches ActionType::FileEdit { path, changes } ==> path == rendered.path
                && tool_calls::to_render(after.tool).file_path == Some(file) && changes
                == if content.len() > 0 {
                seq![FileChange::Write { content }]
            } else {
                seq![]
            })
        }),
{
    lemma_names_differ();
}

/// The difference that an edit made is the one that is to be shown, and it is shown as it is
/// rendered, with line numbers. Writing a file shows no difference.
pub proof fn lemma_difference_is_shown(
    call: CallView,
    part: PartView,
    rendered: Rendered<Seq<char>>,
    diff: Seq<char>,
)
    requires
        says(part_metadata(part), "diff"@, diff),
    ensures
        ({
            let after = tool_calls::call_after(call, part);
            let action = shown_action(call, part, rendered);
            let written = name_after(call, part) == "write"@;
            &&& action matches ActionType::FileEdit { changes, .. } ==> (!written ==> changes
                == seq![
                FileChange::Edit { unified_diff: rendered.diff, has_line_numbers: true },
            ] && tool_calls::to_render(after.tool).diff == Some(diff))
            &&& written ==> tool_calls::to_render(after.tool).diff is None
        }),
{
    lemma_names_differ();
}

/// What came of a command is shown: its exit code, where the server tells it, and its output, or
/// else what its error says.
pub proof fn lemma_command_result(
    call: CallView,
    part: PartView,
    rendered: Rendered<Seq<char>>,
    code: i32,
    said: Seq<char>,
)
    ensures
        ({
            let metadata = part_metadata(part);
            let action = shown_action(call, part, rendered);
            let exit = if metadata is Some && metadata->0 is Object {
                metadata->0.field("exit"@)
            } else {
                None
            };
            &&& code >= 0 && exit == Some(JsonView::Number(JsonNumber::Natural(code as u64))) ==> (
            action matches ActionType::CommandRun { result, .. } ==> (result matches Some(r)
                && r.exit_status == Some(CommandExitStatus::ExitCode { code })))
            &&& code < 0 && exit == Some(JsonView::Number(JsonNumber::Negative(code as i64))) ==> (
            action matches ActionType::CommandRun { result, .. } ==> (result matches Some(r)
                && r.exit_status == Some(CommandExitStatus::ExitCode { code })))
            &&& (part.state matches ToolStateUpdate::Completed { output, .. } && output == Some(
                said,
            )) ==> (action matches ActionType::CommandRun { result, .. } ==> (
            result matches Some(r) && r.output == Some(said)))
            &&& (part.state matches ToolStateUpdate::Completed { output, .. } && output == Some(
                said,
            )) ==> (action matches ActionType::Tool { result, .. } ==> result == Some(
                ToolResult::Markdown(said),
            ))
            &&& (part.state matches ToolStateUpdate::Error { error, .. } && error == Some(said)
                && !text::blank(said)) && !has_output(call) ==> (
            action matches ActionType::CommandRun { result, .. } ==> (result matches Some(r)
                && r.output == Some(said)))
            &&& (part.state matches ToolStateUpdate::Error { error, .. } && error == Some(said)
                && !text::blank(said)) && !has_output(call) ==> (
            action matches ActionType::Tool { result, .. } ==> result == Some(
                ToolResult::Markdown(said),
            ))
        }),
{
    lemma_names_differ();
}

/// Whether the output of a call is known.
pub open spec fn has_output(call: CallView) -> bool {
    match call.tool {
        Tool::Bash(s) => s.output is Some,
        Tool::Other(s) => s.output is Some,
        _ => false,
    }
}

/// What is to be done is shown as it is told: by what the tool was called with where it is written,
/// and by what the tool tells besides where it is read.
pub proof fn lemma_todos_are_shown(
    call: CallView,
    part: PartView,
    rendered: Rendered<Seq<char>>,
)
    ensures
        ({
            let read = name_after(call, part) == "todoread"@;
            let told = if read {
                part_metadata(part)
            } else {
                part_input(part)
            };
            shown_action(call, part, rendered) matches ActionType::TodoManagement {
                todos,
                operation,
            } ==> {
                &&& operation == if read {
                    "read"@
                } else {
                    "write"@
                }
                &&& told matches Some(v) ==> (inputs::todos_of(v) matches Some(listed) ==> todos
                    == listed)
            }
        }),
{
    lemma_names_differ();
}

/// A tool that is not known is shown with the object that it was called with.
pub proof fn lemma_arguments_are_shown(
    call: CallView,
    part: PartView,
    rendered: Rendered<Seq<char>>,
)
    requires
        part_input(part) is Some,
    ensures
        shown_action(call, part, rendered) matches ActionType::Tool { arguments, .. } ==> arguments
            == if part_input(part)->0 is Object {
            part_input(part)
        } else {
            None
        },
{
}

/// Where a call stands: a denial and a timeout decide over everything; otherwise a call that was
/// completed succeeded, one with an error failed, and one that waits or runs was created.
pub proof fn lemma_status_is_shown(
    call: CallView,
    part: PartView,
    rendered: Rendered<Seq<char>>,
)
    ensures
        ({
            let entry = tool_calls::entry_of(tool_calls::call_after(call, part), rendered);
            entry.entry_type matches NormalizedEntryType::ToolUse { status, tool_name, .. } && {
                &&& tool_name == name_after(call, part)
                &&& call.common.approval matches Some(ApprovalStatus::Denied { reason }) ==> status
                    == (ToolStatus::Denied { reason })
                &&& call.common.approval matches Some(ApprovalStatus::TimedOut) ==> status
                    is TimedOut
                &&& !(call.common.approval matches Some(a) && (a is Denied || a is TimedOut)) ==> {
                    &&& part.state is Completed ==> status is Success
                    &&& part.state is Error ==> status is Failed
                    &&& part.state is Pending || part.state is Running ==> status is Created
                }
            }
        }),
{
}

/// The entry of a call belongs to the call, and says what the call is about: the command, the path,
/// the query or the URL; or else the title that was told last; or else the name of the tool.
pub proof fn lemma_content_is_shown(
    call: CallView,
    part: PartView,
    rendered: Rendered<Seq<char>>,
)
    ensures
        ({
            let entry = tool_calls::entry_of(tool_calls::call_after(call, part), rendered);
            let action = shown_action(call, part, rendered);
            let about = match action {
                ActionType::CommandRun { command, .. } => command,
                ActionType::FileRead { path } => path,
                ActionType::FileEdit { path, .. } => path,
                ActionType::Search { query } => query,
                ActionType::WebFetch { url } => url,
                _ => seq![],
            };
            let title = match part.state {
                ToolStateUpdate::Running { title, .. } => title,
                ToolStateUpdate::Completed { title, .. } => title,
                _ => None,
            };
            let titled = title is Some && !text::blank(title->0);
            &&& entry.metadata matches Some(m) && m.tool_call_id == call.common.call_id
            &&& !text::blank(about) ==> entry.content == text::trimmed(about)
            &&& text::blank(about) && titled ==> entry.content == title->0
            &&& text::blank(about) && !titled ==> entry.content == model::value_or(
                call.common.title,
                name_after(call, part),
            )
        }),
{
    reveal_strlit("");
    assert(""@ =~= Seq::<char>::empty());
}

/// What was told of a call stays: a part that tells neither what the tool was called with nor
/// anything besides, and no result either, changes nothing of what is shown of the call as long as
/// the tool keeps its name.
pub proof fn lemma_untold_is_kept(call: CallView, part: PartView, rendered: Rendered<Seq<char>>)
    requires
        part_input(part) is None,
        part_metadata(part) is None,
        part.state !is Completed,
        part.state !is Error,
        name_after(call, part) == call.common.tool_name,
        call.tool is Other ==> !tool_calls::known_tool(call.common.tool_name),
        call.tool matches Tool::FileEdit(s) ==> s.kind == tools::edit_kind(call.common.tool_name),
        call.tool matches Tool::Todo(s) ==> s.operation == tools::operation_of(
            call.common.tool_name,
        ),
    ensures
        shown_action(call, part, rendered) == tool_calls::action_of(call, rendered),
        tool_calls::to_render(tool_calls::call_after(call, part).tool) == tool_calls::to_render(
            call.tool,
        ),
        part.state is Unknown ==> tool_calls::call_after(call, part) == call,
        part.state is Pending ==> tool_calls::call_after(call, part).common.title
            == call.common.title,
{
}

/// The result of a call that is told later does not undo what was told before: without an output
/// the one that is known stays, and with one it takes its place. What went wrong is forgotten once
/// the call is completed.
pub proof fn lemma_results_are_kept(call: CallView, part: PartView, rendered: Rendered<Seq<char>>)
    requires
        call.tool is Bash,
    ensures
        ({
            let before = tool_calls::action_of(call, rendered);
            let after = shown_action(call, part, rendered);
            let known = call.tool->Bash_0.output;
            let shown = after->CommandRun_result->0.output;
            &&& after is CommandRun && after->CommandRun_result is Some
            &&& part.state matches ToolStateUpdate::Completed { output, .. } ==> shown
                == if output is Some {
                output
            } else {
                known
            }
            &&& part.state !is Completed && known is Some ==> shown == known
            &&& part.state !is Completed && part.state !is Error ==> shown
                == before->CommandRun_result->0.output
        }),
{
}

/// A call of which nothing was told is one of a tool that is not known; the parts that tell of it
/// and the name of its tool decide over it.
pub proof fn lemma_new_call(call_id: Seq<char>)
    ensures
        tool_calls::new_call(call_id).tool is Other,
        tool_calls::new_call(call_id).common.call_id == call_id,
        tool_calls::new_call(call_id).common.tool_name == "tool"@,
        tool_calls::new_call(call_id).common.title is None,
        tool_calls::new_call(call_id).common.approval is None,
        !has_output(tool_calls::new_call(call_id)),
{
}

/// An input that leaves out what the tool was called with before does not undo it: the command, the
/// file, the URL and the description stay. What is searched for is forgotten where neither a query
/// nor a pattern is told.
pub proof fn lemma_partial_input(call: CallView, part: PartView)
    requires
        part_input(part) matches Some(v) && v is Object,
    ensures
        ({
            let input = part_input(part)->0;
            let after = tool_calls::call_after(call, part).tool;
            &&& call.tool matches Tool::Bash(s) ==> (input.field("command"@) is None ==> (
            after matches Tool::Bash(t) && t.command == s.command))
            &&& call.tool matches Tool::Read(s) ==> (input.field("filePath"@) is None ==> (
            after matches Tool::Read(t) && t.file_path == s.file_path))
            &&& call.tool matches Tool::FileEdit(s) ==> (input.field("filePath"@) is None ==> (
            after matches Tool::FileEdit(t) && t.file_path == s.file_path && t.write_content
                == s.write_content))
            &&& call.tool matches Tool::WebFetch(s) ==> (input.field("url"@) is None ==> (
            after matches Tool::WebFetch(t) && t.url == s.url))
            &&& call.tool is Search && input.field("query"@) is None && input.field("pattern"@)
                is None ==> (after matches Tool::Search(t) && t.query is None)
            &&& call.tool matches Tool::Task(s) ==> (input.field("description"@) is None ==> (
            after matches Tool::Task(t) && t.description == s.description))
        }),
{
}

/// What the server tells besides is told anew each time: without an exit code or a difference there
/// is none.
pub proof fn lemma_besides_told_anew(
    call: CallView,
    part: PartView,
    rendered: Rendered<Seq<char>>,
)
    requires
        part_metadata(part) matches Some(v) && v is Object && v.field("exit"@) is None && v.field(
            "diff"@,
        ) is None && v.field("results"@) is None,
    ensures
        ({
            let action = shown_action(call, part, rendered);
            let written = name_after(call, part) == "write"@;
            &&& action matches ActionType::CommandRun { result, .. } ==> (result matches Some(r)
                && r.exit_status is None)
            &&& action matches ActionType::FileEdit { changes, .. } ==> (!written ==> changes.len()
                == 0)
        }),
{
}

} // verus!
