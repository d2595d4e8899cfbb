//! A report of a run that only reads, for those who look into how runs are told of.
use vstd::prelude::*;
use vstd::string::*;

use crate::opencode::approvals::ApprovalStatus;
use crate::opencode::executor::ExecutorExitResult;
use crate::opencode::logs::{EntryView, NormalizedEntry, NormalizedEntryType};
use crate::opencode::shown_calls;
use crate::opencode::shown_calls::PartView;
use crate::opencode::tool_calls::{CallView, Rendered};
use crate::text;

verus! {

// ---------------------------------------------------------------------------
// The run
// ---------------------------------------------------------------------------

/// Whether a tool only reads; its name is in lower case.
pub open spec fn reads_only(tool: Seq<char>) -> bool {
    ||| tool == "read"@
    ||| tool == "grep"@
    ||| tool == "glob"@
    ||| tool == "webfetch"@
    ||| tool == "websearch"@
    ||| tool == "codesearch"@
    ||| tool == "todoread"@
    ||| tool == "todowrite"@
}

/// Whether a tool only reads; its name is in lower case.
pub fn is_read_only(tool: &str) -> (res: bool)
    ensures
        res == reads_only(tool@),
{
    text::str_eq(tool, "read") || text::str_eq(tool, "grep") || text::str_eq(tool, "glob")
        || text::str_eq(tool, "webfetch") || text::str_eq(tool, "websearch") || text::str_eq(
        tool,
        "codesearch",
    ) || text::str_eq(tool, "todoread") || text::str_eq(tool, "todowrite")
}

/// Answers a request for approval: only tools that only read are approved.
pub fn request_tool_approval(tool_name: &str) -> (res: ApprovalStatus)
    ensures
        res.deep_view() == if reads_only(text::lowercase(text::trimmed(tool_name@))) {
            ApprovalStatus::Approved
        } else {
            ApprovalStatus::Denied {
                reason: Some(
                    "Debug helper: denying `"@ + tool_name@ + "` (read-only run)"@,
                ),
            }
        },
{
    let tool = text::to_lowercase(text::trim(tool_name));
    if is_read_only(tool.as_str()) {
        return ApprovalStatus::Approved;
    }
    ApprovalStatus::Denied {
        reason: Some(text::cat3("Debug helper: denying `", tool_name, "` (read-only run)")),
    }
}

/// The lines of the prompt of a run that only reads.
pub open spec fn prompt_lines() -> Seq<Seq<char>> {
    seq![
        "Read-only debugging run."@,
        "Summarize what this repository does in 5 bullet points."@,
        "You may ONLY use read-only tools (read/glob/grep/webfetch/websearch)."@,
        "Do NOT run bash/commands. Do NOT edit/write/patch any files."@,
        "If a tool is denied, continue without it."@,
    ]
}

/// The prompt of a run that only reads.
pub fn build_read_only_prompt() -> (res: String)
    ensures
        res@ == text::joined(prompt_lines(), "\n"@),
{
    let lines = vec![
        "Read-only debugging run.",
        "Summarize what this repository does in 5 bullet points.",
        "You may ONLY use read-only tools (read/glob/grep/webfetch/websearch).",
        "Do NOT run bash/commands. Do NOT edit/write/patch any files.",
        "If a tool is denied, continue without it.",
    ];
    assert(lines.deep_view() =~= prompt_lines());
    text::join(&lines, "\n")
}

/// How a run ended, as far as it was waited for: without a signal to wait for it succeeded, and a
/// signal that did not come tells of a failure.
pub fn waited_exit(signal: Option<Option<ExecutorExitResult>>) -> (res: ExecutorExitResult)
    ensures
        res == match signal {
            None => ExecutorExitResult::Success,
            Some(Some(result)) => result,
            Some(None) => ExecutorExitResult::Failure,
        },
{
    match signal {
        None => ExecutorExitResult::Success,
        Some(Some(result)) => result,
        Some(None) => ExecutorExitResult::Failure,
    }
}

// ---------------------------------------------------------------------------
// The messages of a run
// ---------------------------------------------------------------------------

/// A message of a run.
#[derive(Debug, PartialEq)]
pub enum LogMsg {
    Stdout(String),
    Stderr(String),
    SessionId(String),
    /// An entry came at an index, or took the place of the entry there.
    Entry { index: usize, entry: NormalizedEntry },
    Other,
}

/// The standard output that the first `n` messages bring.
pub open spec fn stdout_of(history: Seq<LogMsg>, n: int) -> Seq<char>
    decreases n,
{
    if n <= 0 {
        seq![]
    } else {
        match history[n - 1] {
            LogMsg::Stdout(chunk) => stdout_of(history, n - 1) + chunk@,
            _ => stdout_of(history, n - 1),
        }
    }
}

/// The standard error that the first `n` messages bring.
pub open spec fn stderr_of(history: Seq<LogMsg>, n: int) -> Seq<char>
    decreases n,
{
    if n <= 0 {
        seq![]
    } else {
        match history[n - 1] {
            LogMsg::Stderr(chunk) => stderr_of(history, n - 1) + chunk@,
            _ => stderr_of(history, n - 1),
        }
    }
}

/// The standard output of a run.
pub fn stdout_text(history: &Vec<LogMsg>) -> (res: String)
    ensures
        res@ == stdout_of(history@, history@.len() as int),
{
    let mut out = String::new();
    for i in 0..history.len()
        invariant
            out@ == stdout_of(history@, i as int),
    {
        if let LogMsg::Stdout(chunk) = &history[i] {
            out.append(chunk.as_str());
        }
    }
    out
}

/// The standard error of a run.
pub fn stderr_text(history: &Vec<LogMsg>) -> (res: String)
    ensures
        res@ == stderr_of(history@, history@.len() as int),
{
    let mut out = String::new();
    for i in 0..history.len()
        invariant
            out@ == stderr_of(history@, i as int),
    {
        if let LogMsg::Stderr(chunk) = &history[i] {
            out.append(chunk.as_str());
        }
    }
    out
}

// ---------------------------------------------------------------------------
// The entries of a run
// ---------------------------------------------------------------------------

/// Entries with their indexes.
pub type Indexed = Seq<(usize, EntryView)>;

/// The first position from `k` on whose index is not less than the given one.
pub open spec fn place(list: Indexed, index: usize, k: int) -> int
    decreases list.len() - k,
{
    if k >= list.len() {
        list.len() as int
    } else if list[k].0 >= index {
        k
    } else {
        place(list, index, k + 1)
    }
}

/// Entries with one more: it takes the place of the entry with its index, or goes where the
/// indexes stay in order.
pub open spec fn placed(list: Indexed, index: usize, entry: EntryView) -> Indexed {
    let k = place(list, index, 0);
    if k < list.len() && list[k].0 == index {
        list.update(k, (index, entry))
    } else {
        list.insert(k, (index, entry))
    }
}

/// The entries that the first `n` messages leave, in the order of their indexes.
pub open spec fn entries_of(history: Seq<LogMsg>, n: int) -> Indexed
    decreases n,
{
    if n <= 0 {
        seq![]
    } else {
        match history[n - 1] {
            LogMsg::Entry { index, entry } => placed(
                entries_of(history, n - 1),
                index,
                entry.deep_view(),
            ),
            _ => entries_of(history, n - 1),
        }
    }
}

/// The last entry at an index among the first `n` messages.
pub open spec fn last_entry(history: Seq<LogMsg>, index: usize, n: int) -> Option<EntryView>
    decreases n,
{
    if n <= 0 {
        None
    } else {
        match history[n - 1] {
            LogMsg::Entry { index: i, entry } => if i == index {
                Some(entry.deep_view())
            } else {
                last_entry(history, index, n - 1)
            },
            _ => last_entry(history, index, n - 1),
        }
    }
}

/// Whether indexes increase.
pub open spec fn increasing(list: Indexed) -> bool {
    forall|i: int, j: int| 0 <= i < j < list.len() ==> (#[trigger] list[i]).0 < (#[trigger] list[j]).0
}

/// Whether a list has an entry at an index.
pub open spec fn holds(list: Indexed, index: usize, entry: EntryView) -> bool {
    exists|k: int| 0 <= k < list.len() && #[trigger] list[k] == (index, entry)
}

proof fn lemma_place(list: Indexed, index: usize, k: int)
    requires
        0 <= k <= list.len(),
        forall|j: int| 0 <= j < k ==> (#[trigger] list[j]).0 < index,
    ensures
        k <= place(list, index, k) <= list.len(),
        forall|j: int| 0 <= j < place(list, index, k) ==> (#[trigger] list[j]).0 < index,
        place(list, index, k) < list.len() ==> list[place(list, index, k)].0 >= index,
    decreases list.len() - k,
{
    if k < list.len() && list[k].0 < index {
        lemma_place(list, index, k + 1);
    }
}

proof fn lemma_placed(list: Indexed, index: usize, entry: EntryView)
    requires
        increasing(list),
    ensures
        increasing(placed(list, index, entry)),
        holds(placed(list, index, entry), index, entry),
        forall|i: usize, e: EntryView|
            i != index ==> (holds(list, i, e) <==> #[trigger] holds(placed(list, index, entry), i, e)),
{
    let k = place(list, index, 0);
    let after = placed(list, index, entry);
    lemma_place(list, index, 0);
    assert(after[k] == (index, entry));
    if k < list.len() && list[k].0 == index {
        assert forall|i: usize, e: EntryView| i != index implies (holds(list, i, e)
            <==> #[trigger] holds(after, i, e)) by {
            if holds(list, i, e) {
                let j = choose|j: int| 0 <= j < list.len() && #[trigger] list[j] == (i, e);
                assert(after[j] == (i, e));
            }
            if holds(after, i, e) {
                let j = choose|j: int| 0 <= j < after.len() && #[trigger] after[j] == (i, e);
                assert(list[j] == (i, e));
            }
        }
    } else {
        assert forall|i: int, j: int| 0 <= i < j < after.len() implies (#[trigger] after[i]).0 < (
        #[trigger] after[j]).0 by {
            if i < k && j > k {
                assert(after[i] == list[i] && after[j] == list[j - 1]);
            } else if i == k {
                assert(after[j] == list[j - 1]);
                if j - 1 > k {
                    assert(list[k].0 < list[j - 1].0);
                }
            } else if j == k {
                assert(after[i] == list[i]);
            } else if i > k {
                assert(after[i] == list[i - 1] && after[j] == list[j - 1]);
            }
        }
        assert forall|i: usize, e: EntryView| i != index implies (holds(list, i, e)
            <==> #[trigger] holds(after, i, e)) by {
            if holds(list, i, e) {
                let j = choose|j: int| 0 <= j < list.len() && #[trigger] list[j] == (i, e);
                if j < k {
                    assert(after[j] == (i, e));
                } else {
                    assert(after[j + 1] == (i, e));
                }
            }
            if holds(after, i, e) {
                let j = choose|j: int| 0 <= j < after.len() && #[trigger] after[j] == (i, e);
                if j < k {
                    assert(list[j] == (i, e));
                } else {
                    assert(list[j - 1] == (i, e));
                }
            }
        }
    }
}

/// The entries that messages leave are in the order of their indexes, and there is one at an index
/// exactly where a message brought one: the one that the last such message brought.
pub proof fn lemma_entries(history: Seq<LogMsg>, n: int)
    ensures
        increasing(entries_of(history, n)),
        forall|index: usize, e: EntryView|
            #![trigger holds(entries_of(history, n), index, e)]
            holds(entries_of(history, n), index, e) <==> last_entry(history, index, n) == Some(e),
    decreases n,
{
    if n > 0 {
        lemma_entries(history, n - 1);
        match history[n - 1] {
            LogMsg::Entry { index, entry } => {
                let before = entries_of(history, n - 1);
                let after = entries_of(history, n);
                lemma_placed(before, index, entry.deep_view());
                assert forall|i: usize, e: EntryView| #![trigger holds(after, i, e)]
                    holds(after, i, e) <==> last_entry(history, i, n) == Some(e) by {
                    if i == index {
                        if holds(after, i, e) {
                            lemma_one_at_index(after, i, e, entry.deep_view());
                        }
                    } else {
                        assert(holds(before, i, e) <==> holds(after, i, e));
                    }
                }
            },
            _ => {},
        }
    }
}

proof fn lemma_one_at_index(list: Indexed, index: usize, a: EntryView, b: EntryView)
    requires
        increasing(list),
        holds(list, index, a),
        holds(list, index, b),
    ensures
        a == b,
{
    let i = choose|i: int| 0 <= i < list.len() && #[trigger] list[i] == (index, a);
    let j = choose|j: int| 0 <= j < list.len() && #[trigger] list[j] == (index, b);
    if i < j {
        assert(list[i].0 < list[j].0);
    } else if j < i {
        assert(list[j].0 < list[i].0);
    }
}

/// The entries without their indexes.
pub open spec fn without_indexes(list: Indexed) -> Seq<EntryView> {
    list.map_values(|e: (usize, EntryView)| e.1)
}

/// The first session that messages tell of, from the `i`-th on.
pub open spec fn first_session(history: Seq<LogMsg>, i: int) -> Option<Seq<char>>
    decreases history.len() - i,
{
    if i < 0 || i >= history.len() {
        None
    } else {
        match history[i] {
            LogMsg::SessionId(id) => Some(id@),
            _ => first_session(history, i + 1),
        }
    }
}

/// What the errors among the first `n` entries say.
pub open spec fn errors_of(entries: Seq<EntryView>, n: int) -> Seq<Seq<char>>
    decreases n,
{
    if n <= 0 {
        seq![]
    } else if entries[n - 1].entry_type is ErrorMessage {
        errors_of(entries, n - 1).push(entries[n - 1].content)
    } else {
        errors_of(entries, n - 1)
    }
}

/// What messages leave: the first session, the entries in the order of their indexes, and what the
/// errors among them say.
#[derive(Debug, PartialEq)]
pub struct Collected<'a> {
    pub session_id: Option<String>,
    pub entries: Vec<&'a NormalizedEntry>,
    pub errors: Vec<String>,
}

fn session_in(history: &Vec<LogMsg>) -> (res: Option<String>)
    ensures
        res.deep_view() == first_session(history@, 0),
{
    for i in 0..history.len()
        invariant
            first_session(history@, 0) == first_session(history@, i as int),
    {
        if let LogMsg::SessionId(id) = &history[i] {
            return Some(id.clone());
        }
    }
    None
}

fn place_entry<'a>(list: &mut Vec<(usize, &'a NormalizedEntry)>, index: usize, entry: &'a NormalizedEntry)
    ensures
        final(list).deep_view() == placed(old(list).deep_view(), index, entry.deep_view()),
{
    let ghost before = list.deep_view();
    let n: usize = list.len();
    let mut k: usize = 0;
    while k < n && list[k].0 < index
        invariant
            n == list@.len(),
            k <= n,
            before == list.deep_view(),
            place(before, index, 0) == place(before, index, k as int),
        decreases n - k,
    {
        assert(before[k as int].0 == list@[k as int].0);
        k = k + 1;
    }
    if k < n {
        assert(before[k as int].0 == list@[k as int].0);
    }
    if k < n && list[k].0 == index {
        list[k] = (index, entry);
        assert(list.deep_view() =~= before.update(k as int, (index, entry.deep_view())));
    } else {
        list.insert(k, (index, entry));
        assert(list.deep_view() =~= before.insert(k as int, (index, entry.deep_view())));
    }
}

/// What messages leave.
pub fn collect_normalized_entries<'a>(history: &'a Vec<LogMsg>) -> (res: Collected<'a>)
    ensures
        res.session_id.deep_view() == first_session(history@, 0),
        res.entries.deep_view() == without_indexes(entries_of(history@, history@.len() as int)),
        res.errors.deep_view() == errors_of(
            res.entries.deep_view(),
            res.entries.deep_view().len() as int,
        ),
{
    let mut list: Vec<(usize, &'a NormalizedEntry)> = Vec::new();
    assert(list.deep_view() =~= seq![]);
    for i in 0..history.len()
        invariant
            list.deep_view() == entries_of(history@, i as int),
    {
        if let LogMsg::Entry { index, entry } = &history[i] {
            place_entry(&mut list, *index, entry);
        }
    }
    let ghost indexed = list.deep_view();
    let mut entries: Vec<&'a NormalizedEntry> = Vec::new();
    let mut errors: Vec<String> = Vec::new();
    let ghost plain = without_indexes(indexed);
    assert(errors.deep_view() =~= seq![]);
    for i in 0..list.len()
        invariant
            indexed == list.deep_view(),
            plain == without_indexes(indexed),
            entries@.len() == i,
            forall|j: int| 0 <= j < i ==> (#[trigger] entries@[j]).deep_view() == plain[j],
            errors.deep_view() == errors_of(plain, i as int),
    {
        let entry = list[i].1;
        assert(indexed[i as int].1 == entry.deep_view());
        entries.push(entry);
        if let NormalizedEntryType::ErrorMessage { .. } = &entry.entry_type {
            let ghost before = errors.deep_view();
            errors.push(entry.content.clone());
            assert(errors.deep_view() =~= before.push(entry.content@));
        }
    }
    assert(entries.deep_view() =~= plain);
    Collected { session_id: session_in(history), entries, errors }
}

/// The number of marks among the first `n`.
pub open spec fn marked(marks: Seq<bool>, n: int) -> int
    decreases n,
{
    if n <= 0 {
        0
    } else {
        marked(marks, n - 1) + (if marks[n - 1] {
            1int
        } else {
            0int
        })
    }
}

/// The number of entries whose kind passes a test.
pub fn count_type<F: Fn(&NormalizedEntryType) -> bool>(entries: &Vec<&NormalizedEntry>, f: F) -> (res:
    usize)
    requires
        forall|i: int|
            0 <= i < entries@.len() ==> call_requires(f, (&(#[trigger] entries@[i]).entry_type,)),
    ensures
        exists|marks: Seq<bool>|
            #![trigger marked(marks, entries@.len() as int)]
            {
                &&& marks.len() == entries@.len()
                &&& forall|i: int|
                    0 <= i < entries@.len() ==> call_ensures(
                        f,
                        (&entries@[i].entry_type,),
                        #[trigger] marks[i],
                    )
                &&& res == marked(marks, entries@.len() as int)
            },
{
    let mut count: usize = 0;
    let ghost mut marks: Seq<bool> = seq![];
    for i in 0..entries.len()
        invariant
            forall|k: int|
                0 <= k < entries@.len() ==> call_requires(
                    f,
                    (&(#[trigger] entries@[k]).entry_type,),
                ),
            marks.len() == i,
            forall|k: int|
                0 <= k < i ==> call_ensures(f, (&entries@[k].entry_type,), #[trigger] marks[k]),
            count == marked(marks, i as int),
            count <= i,
    {
        assert(call_requires(f, (&entries@[i as int].entry_type,)));
        let pass = f(&entries[i].entry_type);
        let ghost before = marks;
        proof {
            marks = marks.push(pass);
            lemma_marked_prefix(before, marks, i as int);
        }
        if pass {
            count = count + 1;
        }
    }
    assert(count == marked(marks, entries@.len() as int));
    count
}

proof fn lemma_marked_prefix(a: Seq<bool>, b: Seq<bool>, n: int)
    requires
        0 <= n <= a.len(),
        n <= b.len(),
        forall|i: int| 0 <= i < n ==> a[i] == b[i],
    ensures
        marked(a, n) == marked(b, n),
    decreases n,
{
    if n > 0 {
        lemma_marked_prefix(a, b, n - 1);
    }
}

/// The content of an entry, where there is anything in it.
pub open spec fn content_shown(entry: EntryView) -> Option<Seq<char>> {
    let content = text::trimmed(entry.content);
    if content.len() > 0 {
        Some(content)
    } else {
        None
    }
}

fn show_content(entry: &NormalizedEntry) -> (res: Option<String>)
    ensures
        res.deep_view() == content_shown(entry.deep_view()),
{
    let content = text::trim(entry.content.as_str());
    if content.is_empty() {
        None
    } else {
        Some(text::owned(content))
    }
}

/// The first message of the system from the `i`-th entry on.
pub open spec fn system_message_from(entries: Seq<EntryView>, i: int) -> Option<Seq<char>>
    decreases entries.len() - i,
{
    if i < 0 || i >= entries.len() {
        None
    } else if entries[i].entry_type is SystemMessage {
        content_shown(entries[i])
    } else {
        system_message_from(entries, i + 1)
    }
}

/// The first message of the system, where there is anything in it.
pub fn system_message(entries: &Vec<&NormalizedEntry>) -> (res: Option<String>)
    ensures
        res.deep_view() == system_message_from(entries.deep_view(), 0),
{
    let ghost all = entries.deep_view();
    for i in 0..entries.len()
        invariant
            all == entries.deep_view(),
            system_message_from(all, 0) == system_message_from(all, i as int),
    {
        assert(all[i as int] == entries@[i as int].deep_view());
        if let NormalizedEntryType::SystemMessage = &entries[i].entry_type {
            return show_content(entries[i]);
        }
    }
    None
}

/// The last message of the assistant among the first `n` entries.
pub open spec fn assistant_message_to(entries: Seq<EntryView>, n: int) -> Option<Seq<char>>
    decreases n,
{
    if n <= 0 {
        None
    } else if entries[n - 1].entry_type is AssistantMessage {
        content_shown(entries[n - 1])
    } else {
        assistant_message_to(entries, n - 1)
    }
}

/// The last message of the assistant, where there is anything in it.
pub fn last_assistant_message(entries: &Vec<&NormalizedEntry>) -> (res: Option<String>)
    ensures
        res.deep_view() == assistant_message_to(entries.deep_view(), entries@.len() as int),
{
    let ghost all = entries.deep_view();
    let mut n: usize = entries.len();
    while n > 0
        invariant
            n <= entries@.len(),
            all == entries.deep_view(),
            assistant_message_to(all, entries@.len() as int) == assistant_message_to(all, n as int),
        decreases n,
    {
        assert(all[n - 1] == entries@[n - 1].deep_view());
        if let NormalizedEntryType::AssistantMessage = &entries[n - 1].entry_type {
            return show_content(entries[n - 1]);
        }
        n = n - 1;
    }
    None
}

/// The line that tells of an error.
pub fn error_line(error: &str) -> (res: String)
    ensures
        res@ == "- "@ + text::newlines_escaped(error@),
{
    let escaped = text::escape_newlines(error);
    text::cat2("- ", escaped.as_str())
}

// ---------------------------------------------------------------------------
// Laws
// ---------------------------------------------------------------------------

/// A run that only reads may use the tools whose calls are shown as reading a file, searching,
/// fetching a page or looking after what is to be done, and no others: none that runs a command,
/// edits a file or makes a task.
pub proof fn lemma_read_only_tools(
    call: CallView,
    part: PartView,
    rendered: Rendered<Seq<char>>,
)
    requires
        call.tool is Other,
    ensures
        ({
            let action = shown_calls::shown_action(call, part, rendered);
            reads_only(shown_calls::name_after(call, part)) <==> action is FileRead || action
                is Search || action is WebFetch || action is TodoManagement
        }),
{
    shown_calls::lemma_name_decides_action(call, part, rendered);
}

proof fn lemma_outputs_prefix(a: Seq<LogMsg>, b: Seq<LogMsg>, n: int)
    requires
        0 <= n <= a.len(),
        n <= b.len(),
        forall|i: int| 0 <= i < n ==> a[i] == b[i],
    ensures
        stdout_of(a, n) == stdout_of(b, n),
        stderr_of(a, n) == stderr_of(b, n),
    decreases n,
{
    if n > 0 {
        lemma_outputs_prefix(a, b, n - 1);
    }
}

/// Each message brings what it holds, to the stream that it came from and to no other, after all
/// that came before it.
pub proof fn lemma_output_in_order(history: Seq<LogMsg>, msg: LogMsg)
    ensures
        ({
            let n = history.len() as int;
            let after = history.push(msg);
            &&& stdout_of(after, n + 1) == stdout_of(history, n) + match msg {
                LogMsg::Stdout(chunk) => chunk@,
                _ => seq![],
            }
            &&& stderr_of(after, n + 1) == stderr_of(history, n) + match msg {
                LogMsg::Stderr(chunk) => chunk@,
                _ => seq![],
            }
        }),
{
    let n = history.len() as int;
    let after = history.push(msg);
    lemma_outputs_prefix(history, after, n);
    assert(stdout_of(history, n) + Seq::<char>::empty() =~= stdout_of(history, n));
    assert(stderr_of(history, n) + Seq::<char>::empty() =~= stderr_of(history, n));
}

/// The session of a run is the one that the first message to name one names.
pub proof fn lemma_first_session(history: Seq<LogMsg>, i: int, k: int)
    requires
        0 <= i <= k <= history.len(),
        forall|j: int| i <= j < k ==> !((#[trigger] history[j]) is SessionId),
    ensures
        k == history.len() ==> first_session(history, i) is None,
        k < history.len() ==> (history[k] matches LogMsg::SessionId(id) ==> first_session(
            history,
            i,
        ) == Some(id@)),
    decreases k - i,
{
    if i < k {
        assert(!(history[i] is SessionId));
        lemma_first_session(history, i + 1, k);
    }
}

/// The errors of a run are what its error messages say, in their order, and nothing else.
pub proof fn lemma_errors_told(entries: Seq<EntryView>)
    ensures
        errors_of(entries, entries.len() as int) == entries.filter(
            |e: EntryView| e.entry_type is ErrorMessage,
        ).map_values(|e: EntryView| e.content),
    decreases entries.len(),
{
    let is_error = |e: EntryView| e.entry_type is ErrorMessage;
    let content = |e: EntryView| e.content;
    reveal(Seq::filter);
    if entries.len() > 0 {
        let before = entries.drop_last();
        lemma_errors_told(before);
        lemma_errors_prefix(before, entries, before.len() as int);
        assert(entries.filter(is_error).map_values(content) =~= if is_error(entries.last()) {
            before.filter(is_error).map_values(content).push(entries.last().content)
        } else {
            before.filter(is_error).map_values(content)
        });
    } else {
        assert(entries.filter(is_error).map_values(content) =~= seq![]);
    }
}

proof fn lemma_errors_prefix(a: Seq<EntryView>, b: Seq<EntryView>, n: int)
    requires
        0 <= n <= a.len(),
        n <= b.len(),
        forall|i: int| 0 <= i < n ==> a[i] == b[i],
    ensures
        errors_of(a, n) == errors_of(b, n),
    decreases n,
{
    if n > 0 {
        lemma_errors_prefix(a, b, n - 1);
    }
}

/// The message of the assistant that is told of is the last one, and it is told without the white
/// space around it; where there is nothing in it, nothing is told.
pub proof fn lemma_last_assistant_message(entries: Seq<EntryView>, k: int)
    requires
        0 <= k < entries.len(),
        entries[k].entry_type is AssistantMessage,
        forall|j: int|
            k < j < entries.len() ==> !((#[trigger] entries[j]).entry_type is AssistantMessage),
    ensures
        assistant_message_to(entries, entries.len() as int) == if text::blank(entries[k].content) {
            None
        } else {
            Some(text::trimmed(entries[k].content))
        },
{
    lemma_assistant_message_to(entries, k, entries.len() as int);
}

proof fn lemma_assistant_message_to(entries: Seq<EntryView>, k: int, n: int)
    requires
        0 <= k < n <= entries.len(),
        entries[k].entry_type is AssistantMessage,
        forall|j: int| k < j < n ==> !((#[trigger] entries[j]).entry_type is AssistantMessage),
    ensures
        assistant_message_to(entries, n) == content_shown(entries[k]),
    decreases n,
{
    if n - 1 > k {
        assert(!(entries[n - 1].entry_type is AssistantMessage));
        lemma_assistant_message_to(entries, k, n - 1);
    }
}

/// The message of the system that is told of is the first one, and it is told without the white
/// space around it; where there is nothing in it, nothing is told.
pub proof fn lemma_first_system_message(entries: Seq<EntryView>, i: int, k: int)
    requires
        0 <= i <= k < entries.len(),
        entries[k].entry_type is SystemMessage,
        forall|j: int| i <= j < k ==> !((#[trigger] entries[j]).entry_type is SystemMessage),
    ensures
        system_message_from(entries, i) == if text::blank(entries[k].content) {
            None
        } else {
            Some(text::trimmed(entries[k].content))
        },
    decreases k - i,
{
    if i < k {
        assert(!(entries[i].entry_type is SystemMessage));
        lemma_first_system_message(entries, i + 1, k);
    }
}

/// As many entries are counted as have a mark.
pub proof fn lemma_marked(marks: Seq<bool>)
    ensures
        marked(marks, marks.len() as int) == marks.filter(|b: bool| b).len(),
    decreases marks.len(),
{
    reveal(Seq::filter);
    if marks.len() > 0 {
        lemma_marked(marks.drop_last());
        lemma_marked_prefix(marks.drop_last(), marks, marks.len() - 1);
    }
}

} // verus!
