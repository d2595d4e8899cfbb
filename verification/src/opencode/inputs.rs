//! What tools are called with, as it is read from JSON.
use vstd::prelude::*;
use vstd::string::*;

use crate::json;
use crate::json::{Json, JsonView};
use crate::model;
use crate::text;

verus! {

/// Something that the agent means to do.
#[derive(Debug, PartialEq)]
pub struct TodoItem<S = String> {
    pub content: S,
    pub status: S,
    pub priority: Option<S>,
}

impl DeepView for TodoItem {
    type V = TodoItem<Seq<char>>;

    open spec fn deep_view(&self) -> TodoItem<Seq<char>> {
        TodoItem {
            content: self.content@,
            status: self.status@,
            priority: self.priority.deep_view(),
        }
    }
}

impl TodoItem {
    /// An item that says the same.
    pub fn copy(&self) -> (res: TodoItem)
        ensures
            res == *self,
    {
        TodoItem {
            content: self.content.clone(),
            status: self.status.clone(),
            priority: match &self.priority {
                Some(p) => Some(p.clone()),
                None => None,
            },
        }
    }
}

/// The only member of a record, where it is a text.
pub open spec fn single_text(v: JsonView, name: Seq<char>) -> Option<Seq<char>> {
    if json::is_record(v, 1) {
        json::opt_text(json::member(v, name, 0))
    } else {
        None
    }
}

fn read_single_text(v: &Json, name: &str) -> (res: Option<String>)
    ensures
        res.deep_view() == single_text(v.deep_view(), name@),
{
    if json::record(v, 1) {
        json::get_text(v, name, 0)
    } else {
        None
    }
}

/// The command that a shell is called with.
pub fn read_command(v: &Json) -> (res: Option<String>)
    ensures
        res.deep_view() == single_text(v.deep_view(), "command"@),
{
    read_single_text(v, "command")
}

/// The path of the file that a tool is called with.
pub fn read_file_path(v: &Json) -> (res: Option<String>)
    ensures
        res.deep_view() == single_text(v.deep_view(), "filePath"@),
{
    read_single_text(v, "filePath")
}

/// The URL that a tool is called with.
pub fn read_url(v: &Json) -> (res: Option<String>)
    ensures
        res.deep_view() == single_text(v.deep_view(), "url"@),
{
    read_single_text(v, "url")
}

/// The description that a task is made with.
pub fn read_description(v: &Json) -> (res: Option<String>)
    ensures
        res.deep_view() == single_text(v.deep_view(), "description"@),
{
    read_single_text(v, "description")
}

/// The path and the content of a file that is to be written.
#[derive(Debug, PartialEq)]
pub struct WriteInput<S = String> {
    pub file_path: S,
    pub content: S,
}

impl DeepView for WriteInput {
    type V = WriteInput<Seq<char>>;

    open spec fn deep_view(&self) -> WriteInput<Seq<char>> {
        WriteInput { file_path: self.file_path@, content: self.content@ }
    }
}

/// The path and the content of a file that is to be written.
pub open spec fn write_input_of(v: JsonView) -> Option<WriteInput<Seq<char>>> {
    let file_path = json::opt_text(json::member(v, "filePath"@, 0));
    let content = json::opt_text(json::member(v, "content"@, 1));
    if json::is_record(v, 2) && file_path is Some && content is Some {
        Some(WriteInput { file_path: file_path->0, content: content->0 })
    } else {
        None
    }
}

/// The path and the content of a file that is to be written.
pub fn read_write_input(v: &Json) -> (res: Option<WriteInput>)
    ensures
        res.deep_view() == write_input_of(v.deep_view()),
{
    if !json::record(v, 2) {
        return None;
    }
    match (json::get_text(v, "filePath", 0), json::get_text(v, "content", 1)) {
        (Some(file_path), Some(content)) => Some(WriteInput { file_path, content }),
        _ => None,
    }
}

/// What is searched for, if the value is read well: the query, or else the pattern.
pub open spec fn search_of(v: JsonView) -> Option<Option<Seq<char>>> {
    let query = json::optional_text(json::member(v, "query"@, 0));
    let pattern = json::optional_text(json::member(v, "pattern"@, 1));
    if json::is_record(v, 2) && query is Some && pattern is Some {
        Some(model::either(query->0, pattern->0))
    } else {
        None
    }
}

/// What is searched for, if the value is read well.
pub fn read_search(v: &Json) -> (res: Option<Option<String>>)
    ensures
        res.deep_view() == search_of(v.deep_view()),
{
    if !json::record(v, 2) {
        return None;
    }
    match (json::get_optional_text(v, "query", 0), json::get_optional_text(v, "pattern", 1)) {
        (Some(query), Some(pattern)) => match query {
            Some(q) => Some(Some(q)),
            None => Some(pattern),
        },
        _ => None,
    }
}

/// What a value says that the agent means to do.
pub open spec fn todo_of(v: JsonView) -> Option<TodoItem<Seq<char>>> {
    let content = json::opt_text(json::member(v, "content"@, 0));
    let status = json::opt_text(json::member(v, "status"@, 1));
    let priority = json::optional_text(json::member(v, "priority"@, 2));
    if json::is_record(v, 3) && content is Some && status is Some && priority is Some {
        Some(TodoItem { content: content->0, status: status->0, priority: priority->0 })
    } else {
        None
    }
}

/// What a value says that the agent means to do.
pub fn read_todo(v: &Json) -> (res: Option<TodoItem>)
    ensures
        res.deep_view() == todo_of(v.deep_view()),
{
    if !json::record(v, 3) {
        return None;
    }
    match (
        json::get_text(v, "content", 0),
        json::get_text(v, "status", 1),
        json::get_optional_text(v, "priority", 2),
    ) {
        (Some(content), Some(status), Some(priority)) => Some(
            TodoItem { content, status, priority },
        ),
        _ => None,
    }
}

/// What the items from the `i`-th on say that the agent means to do, if all are read well.
pub open spec fn todos_from(items: Seq<JsonView>, i: int) -> Option<Seq<TodoItem<Seq<char>>>>
    decreases items.len() - i,
{
    if i < 0 || i >= items.len() {
        Some(seq![])
    } else {
        match (todo_of(items[i]), todos_from(items, i + 1)) {
            (Some(todo), Some(rest)) => Some(seq![todo] + rest),
            _ => None,
        }
    }
}

/// What a value says that the agent means to do, if it is read well: nothing where the member is
/// absent.
pub open spec fn todos_of(v: JsonView) -> Option<Seq<TodoItem<Seq<char>>>> {
    if !json::is_record(v, 1) {
        None
    } else {
        match json::member(v, "todos"@, 0) {
            None => Some(seq![]),
            Some(JsonView::Array(items)) => todos_from(items, 0),
            Some(_) => None,
        }
    }
}

fn read_todo_items(items: &Vec<Json>) -> (res: Option<Vec<TodoItem>>)
    ensures
        res.deep_view() == todos_from(items.deep_view(), 0),
{
    let ghost all = items.deep_view();
    let mut out: Vec<TodoItem> = Vec::new();
    for i in 0..items.len()
        invariant
            all == items.deep_view(),
            out@.len() == i,
            match todos_from(all, i as int) {
                Some(rest) => todos_from(all, 0) == Some(out.deep_view() + rest),
                None => todos_from(all, 0) is None,
            },
    {
        assert(all[i as int] == items@[i as int].deep_view());
        match read_todo(&items[i]) {
            Some(todo) => {
                let ghost before = out.deep_view();
                out.push(todo);
                assert(out.deep_view() =~= before.push(todo.deep_view()));
                proof {
                    if let Some(rest) = todos_from(all, i as int + 1) {
                        assert(out.deep_view() + rest =~= before + (seq![todo.deep_view()] + rest));
                    }
                }
            },
            None => {
                return None;
            },
        }
    }
    assert(out.deep_view() + Seq::<TodoItem<Seq<char>>>::empty() =~= out.deep_view());
    Some(out)
}

/// What a value says that the agent means to do, if it is read well.
pub fn read_todos(v: &Json) -> (res: Option<Vec<TodoItem>>)
    ensures
        res.deep_view() == todos_of(v.deep_view()),
{
    if !json::record(v, 1) {
        return None;
    }
    match json::get_member(v, "todos", 0) {
        None => {
            let none: Vec<TodoItem> = Vec::new();
            assert(none.deep_view() =~= seq![]);
            Some(none)
        },
        Some(m) => match m.as_array() {
            Some(items) => read_todo_items(items),
            None => None,
        },
    }
}

/// The difference that an edit made: it is told directly, or by the last of the results.
pub open spec fn diff_in(metadata: JsonView) -> Option<Seq<char>> {
    let results = json::opt_items(metadata.field("results"@));
    let of_last = if results is Some && results->0.len() > 0 {
        json::opt_text(results->0.last().field("diff"@))
    } else {
        None
    };
    model::either(json::opt_text(metadata.field("diff"@)), of_last)
}

/// The difference that an edit made.
pub fn extract_diff_from_metadata(metadata: &Json) -> (res: Option<String>)
    ensures
        res.deep_view() == diff_in(metadata.deep_view()),
{
    if let Some(diff) = json::str_opt(metadata.get("diff")) {
        return Some(text::owned(diff));
    }
    if let Some(results) = metadata.get("results") {
        if let Some(items) = results.as_array() {
            let n: usize = items.len();
            if n > 0 {
                assert(items.deep_view().last() == items@[n - 1].deep_view());
                if let Some(diff) = json::str_opt(items[n - 1].get("diff")) {
                    return Some(text::owned(diff));
                }
            }
        }
    }
    None
}

/// What is to be done is read member by member, item by item, in order.
pub proof fn lemma_todos_read(items: Seq<JsonView>, i: int, k: int, said: Seq<char>)
    requires
        0 <= i <= k < items.len(),
        items[k] is Object,
    ensures
        todos_from(items, i) matches Some(todos) ==> {
            let todo = todos[k - i];
            &&& todos.len() == items.len() - i
            &&& items[k].field("content"@) == Some(JsonView::Text(todo.content))
            &&& items[k].field("status"@) == Some(JsonView::Text(todo.status))
            &&& items[k].field("priority"@) == Some(JsonView::Text(said)) ==> todo.priority == Some(
                said,
            )
            &&& items[k].field("priority"@) is None ==> todo.priority is None
        },
    decreases k - i,
{
    lemma_todos_counted(items, i);
    if i < k {
        lemma_todos_read(items, i + 1, k, said);
        if todos_from(items, i) is Some {
            assert(todos_from(items, i)->0[k - i] == todos_from(items, i + 1)->0[k - i - 1]);
        }
    }
}

proof fn lemma_todos_counted(items: Seq<JsonView>, i: int)
    requires
        0 <= i <= items.len(),
    ensures
        todos_from(items, i) matches Some(todos) ==> todos.len() == items.len() - i,
    decreases items.len() - i,
{
    if i < items.len() {
        lemma_todos_counted(items, i + 1);
    }
}

/// A difference that is told directly is the one; or else the one that the last result tells.
pub proof fn lemma_difference_read(metadata: JsonView, results: Seq<JsonView>, diff: Seq<char>)
    ensures
        metadata.field("diff"@) == Some(JsonView::Text(diff)) ==> diff_in(metadata) == Some(diff),
        metadata.field("diff"@) is None && metadata.field("results"@) == Some(
            JsonView::Array(results),
        ) && results.len() > 0 && results[results.len() - 1].field("diff"@) == Some(
            JsonView::Text(diff),
        ) ==> diff_in(metadata) == Some(diff),
        metadata.field("diff"@) is None && metadata.field("results"@) is None ==> diff_in(metadata)
            is None,
{
}

/// What a tool is called with may also come as an array of its members, in this order.
pub proof fn lemma_input_arrays_read(a: Seq<char>, b: Seq<char>, c: Seq<char>, name: Seq<char>)
    ensures
        single_text(JsonView::Array(seq![JsonView::Text(a)]), name) == Some(a),
        write_input_of(JsonView::Array(seq![JsonView::Text(a), JsonView::Text(b)])) == Some(
            WriteInput { file_path: a, content: b },
        ),
        search_of(JsonView::Array(seq![JsonView::Text(a), JsonView::Text(b)])) == Some(Some(a)),
        search_of(JsonView::Array(seq![JsonView::Null, JsonView::Text(b)])) == Some(Some(b)),
        todo_of(
            JsonView::Array(seq![JsonView::Text(a), JsonView::Text(b), JsonView::Text(c)]),
        ) == Some(TodoItem { content: a, status: b, priority: Some(c) }),
{
}

} // verus!
