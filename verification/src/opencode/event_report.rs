//! A report of the events in the log of a run.
use vstd::prelude::*;
use vstd::string::*;

use crate::decimal;
use crate::json;
use crate::json::{Json, JsonView};
use crate::model;
use crate::opencode::report;
use crate::opencode::report::LogMsg;
use crate::opencode::stream;
use crate::text;

verus! {

// ---------------------------------------------------------------------------
// The events in a log
// ---------------------------------------------------------------------------

/// The event of the server that a value in the log tells of.
pub open spec fn logged_event(value: JsonView) -> Option<JsonView> {
    if json::opt_text(value.field("type"@)) == Some("sdk_event"@) {
        value.field("event"@)
    } else {
        None
    }
}

/// The event of the server that a value in the log tells of.
pub fn sdk_event<'a>(value: &'a Json) -> (res: Option<&'a Json>)
    ensures
        res.deep_view() == logged_event(value.deep_view()),
{
    if text::opt_str_eq(json::str_opt(value.get("type")), "sdk_event") {
        value.get("event")
    } else {
        None
    }
}

/// The type of the event that a line of the log tells of.
pub open spec fn type_in_line(line: Seq<char>) -> Option<Seq<char>> {
    match json::json_of_text(text::trimmed(line)) {
        Ok(value) => json::opt_text(json::opt_field(logged_event(value), "type"@)),
        Err(_) => None,
    }
}

fn read_type(line: &str) -> (res: Option<String>)
    ensures
        res.deep_view() == type_in_line(line@),
{
    match Json::parse(text::trim(line)) {
        Ok(value) => match json::str_opt(json::get_opt(sdk_event(&value), "type")) {
            Some(t) => Some(text::owned(t)),
            None => None,
        },
        Err(_) => None,
    }
}

// ---------------------------------------------------------------------------
// How often there are events of each type
// ---------------------------------------------------------------------------

/// The number of events of a type among the first `n`; lines that tell of none have no type.
pub open spec fn occurrences(types: Seq<Option<Seq<char>>>, ty: Seq<char>, n: int) -> int
    decreases n,
{
    if n <= 0 {
        0
    } else {
        occurrences(types, ty, n - 1) + (if types[n - 1] == Some(ty) {
            1int
        } else {
            0int
        })
    }
}

/// The types of the events that lines tell of.
pub open spec fn types_in(lines: Seq<Seq<char>>) -> Seq<Option<Seq<char>>> {
    lines.map_values(|line: Seq<char>| type_in_line(line))
}

/// Types with numbers.
pub type Counts = Seq<(Seq<char>, usize)>;

/// Whether a list tells of each type that occurs among the first `n` events, once, and how often.
pub open spec fn counted(counts: Counts, types: Seq<Option<Seq<char>>>, n: int) -> bool {
    &&& forall|i: int, j: int|
        0 <= i < j < counts.len() ==> (#[trigger] counts[i]).0 != (#[trigger] counts[j]).0
    &&& forall|i: int|
        0 <= i < counts.len() ==> (#[trigger] counts[i]).1 == occurrences(types, counts[i].0, n)
            && counts[i].1 > 0
    &&& forall|ty: Seq<char>| #[trigger]
        occurrences(types, ty, n) > 0 ==> exists|i: int|
            0 <= i < counts.len() && (#[trigger] counts[i]).0 == ty
}

proof fn lemma_occurrences(types: Seq<Option<Seq<char>>>, ty: Seq<char>, n: int)
    requires
        n >= 0,
    ensures
        0 <= occurrences(types, ty, n) <= n,
    decreases n,
{
    if n > 0 {
        lemma_occurrences(types, ty, n - 1);
    }
}

fn add_count(counts: &mut Vec<(String, usize)>, ty: String, Ghost(types): Ghost<Seq<Option<Seq<char>>>>, Ghost(n): Ghost<int>)
    requires
        counted(old(counts).deep_view(), types, n),
        0 <= n < types.len(),
        n < usize::MAX,
        types[n] == Some(ty@),
    ensures
        counted(final(counts).deep_view(), types, n + 1),
{
    let ghost before = counts.deep_view();
    let total: usize = counts.len();
    for i in 0..total
        invariant
            total == counts@.len(),
            before == counts.deep_view(),
            counted(before, types, n),
            0 <= n < types.len(),
            n < usize::MAX,
            types[n] == Some(ty@),
            forall|j: int| 0 <= j < i ==> (#[trigger] before[j]).0 != ty@,
    {
        assert(before[i as int] == (counts@[i as int].0@, counts@[i as int].1));
        if text::str_eq(counts[i].0.as_str(), ty.as_str()) {
            proof {
                lemma_occurrences(types, ty@, n);
            }
            let more: usize = counts[i].1 + 1;
            counts[i] = (ty, more);
            let ghost after = counts.deep_view();
            assert(after =~= before.update(i as int, (ty@, more)));
            assert forall|k: Seq<char>| #[trigger] occurrences(types, k, n + 1) > 0 implies exists|
                j: int,
            |
                0 <= j < after.len() && (#[trigger] after[j]).0 == k by {
                if k == ty@ {
                    assert(after[i as int].0 == k);
                } else {
                    assert(occurrences(types, k, n) > 0);
                    let j = choose|j: int| 0 <= j < before.len() && (#[trigger] before[j]).0 == k;
                    assert(after[j].0 == k);
                }
            }
            assert forall|j: int| 0 <= j < after.len() implies (#[trigger] after[j]).1
                == occurrences(types, after[j].0, n + 1) && after[j].1 > 0 by {
                if j != i {
                    assert(after[j] == before[j]);
                    assert(before[j].0 != before[i as int].0);
                }
            }
            assert forall|a: int, b: int| 0 <= a < b < after.len() implies (#[trigger] after[a]).0
                != (#[trigger] after[b]).0 by {
                assert(before[a].0 != before[b].0);
            }
            return ;
        }
    }
    counts.push((ty, 1));
    let ghost after = counts.deep_view();
    assert(after =~= before.push((ty@, 1usize)));
    proof {
        if occurrences(types, ty@, n) > 0 {
            let j = choose|j: int| 0 <= j < before.len() && (#[trigger] before[j]).0 == ty@;
            assert(before[j].0 != ty@);
        }
        lemma_occurrences(types, ty@, n);
        assert forall|k: Seq<char>| #[trigger] occurrences(types, k, n + 1) > 0 implies exists|
            j: int,
        |
            0 <= j < after.len() && (#[trigger] after[j]).0 == k by {
            if k == ty@ {
                assert(after[before.len() as int].0 == k);
            } else {
                assert(occurrences(types, k, n) > 0);
                let j = choose|j: int| 0 <= j < before.len() && (#[trigger] before[j]).0 == k;
                assert(after[j].0 == k);
            }
        }
        assert forall|j: int| 0 <= j < after.len() implies (#[trigger] after[j]).1 == occurrences(
            types,
            after[j].0,
            n + 1,
        ) && after[j].1 > 0 by {
            if j < before.len() {
                assert(after[j] == before[j]);
            }
        }
        assert forall|a: int, b: int| 0 <= a < b < after.len() implies (#[trigger] after[a]).0 != (
        #[trigger] after[b]).0 by {
            assert(after[a] == before[a]);
            if b < before.len() {
                assert(after[b] == before[b]);
            }
        }
    }
}

/// How often there are events of each type in the log of a run.
pub fn collect_sdk_event_types(history: &Vec<LogMsg>) -> (res: Vec<(String, usize)>)
    ensures
        ({
            let lines = text::lines_of(report::stdout_of(history@, history@.len() as int));
            counted(res.deep_view(), types_in(lines), lines.len() as int)
        }),
{
    let stdout = report::stdout_text(history);
    let lines = text::lines(stdout.as_str());
    let ghost all = text::lines_of(stdout@);
    let ghost types = types_in(all);
    let mut counts: Vec<(String, usize)> = Vec::new();
    assert(counts.deep_view() =~= seq![]);
    for i in 0..lines.len()
        invariant
            lines.deep_view() == all,
            types == types_in(all),
            counted(counts.deep_view(), types, i as int),
    {
        assert(all[i as int] == lines@[i as int]@);
        match read_type(lines[i]) {
            Some(ty) => {
                add_count(&mut counts, ty, Ghost(types), Ghost(i as int));
            },
            None => {
                let ghost list = counts.deep_view();
                assert forall|k: Seq<char>|
                    occurrences(types, k, i as int + 1) == #[trigger] occurrences(types, k, i as int) by {}
                assert forall|j: int| 0 <= j < list.len() implies (#[trigger] list[j]).1
                    == occurrences(types, list[j].0, i as int + 1) by {
                    assert(list[j].1 == occurrences(types, list[j].0, i as int));
                }
                assert forall|k: Seq<char>| #[trigger]
                    occurrences(types, k, i as int + 1) > 0 implies exists|j: int|
                    0 <= j < list.len() && (#[trigger] list[j]).0 == k by {
                    assert(occurrences(types, k, i as int) > 0);
                }
            },
        }
    }
    counts
}

// ---------------------------------------------------------------------------
// The most frequent types
// ---------------------------------------------------------------------------

/// The first position from `k` on whose number is less than the given one.
pub open spec fn rank(list: Counts, number: usize, k: int) -> int
    decreases list.len() - k,
{
    if k >= list.len() {
        list.len() as int
    } else if list[k].1 < number {
        k
    } else {
        rank(list, number, k + 1)
    }
}

/// The first `n` items, the most frequent first; items that are equally frequent keep their order.
pub open spec fn ranked(list: Counts, n: int) -> Counts
    decreases n,
{
    if n <= 0 {
        seq![]
    } else {
        let before = ranked(list, n - 1);
        before.insert(rank(before, list[n - 1].1, 0), list[n - 1])
    }
}

/// Whether numbers do not increase.
pub open spec fn falling(list: Counts) -> bool {
    forall|i: int, j: int| 0 <= i < j < list.len() ==> (#[trigger] list[i]).1 >= (#[trigger] list[j]).1
}

proof fn lemma_rank(list: Counts, number: usize, k: int)
    requires
        0 <= k <= list.len(),
        falling(list),
        forall|j: int| 0 <= j < k ==> (#[trigger] list[j]).1 >= number,
    ensures
        k <= rank(list, number, k) <= list.len(),
        forall|j: int| 0 <= j < rank(list, number, k) ==> (#[trigger] list[j]).1 >= number,
        forall|j: int| rank(list, number, k) <= j < list.len() ==> (#[trigger] list[j]).1 < number,
    decreases list.len() - k,
{
    if k < list.len() {
        if list[k].1 < number {
            assert forall|j: int| k <= j < list.len() implies (#[trigger] list[j]).1 < number by {
                if j > k {
                    assert(list[k].1 >= list[j].1);
                }
            }
        } else {
            lemma_rank(list, number, k + 1);
        }
    }
}

/// Ranked items are the same items, the most frequent first.
pub proof fn lemma_ranked(list: Counts, n: int)
    requires
        0 <= n <= list.len(),
    ensures
        falling(ranked(list, n)),
        ranked(list, n).len() == n,
        ranked(list, n).to_multiset() == list.take(n).to_multiset(),
    decreases n,
{
    broadcast use vstd::seq_lib::group_to_multiset_ensures;

    if n <= 0 {
        assert(list.take(0) =~= seq![]);
    } else {
        lemma_ranked(list, n - 1);
        let before = ranked(list, n - 1);
        let item = list[n - 1];
        let k = rank(before, item.1, 0);
        lemma_rank(before, item.1, 0);
        let after = before.insert(k, item);
        assert forall|i: int, j: int| 0 <= i < j < after.len() implies (#[trigger] after[i]).1 >= (
        #[trigger] after[j]).1 by {
            let a = if i < k {
                i
            } else {
                i - 1
            };
            let b = if j < k {
                j
            } else {
                j - 1
            };
            if i != k {
                assert(after[i] == before[a]);
            }
            if j != k {
                assert(after[j] == before[b]);
            }
        }
        assert(list.take(n) =~= list.take(n - 1).push(item));
        vstd::seq_lib::to_multiset_insert(before, k, item);
    }
}

/// The most frequent types, at most `max` of them.
pub fn top_event_types(counts: &Vec<(String, usize)>, max: usize) -> (res: Vec<(String, usize)>)
    ensures
        ({
            let all = ranked(counts.deep_view(), counts@.len() as int);
            res.deep_view() == if all.len() <= max {
                all
            } else {
                all.take(max as int)
            }
        }),
{
    let ghost source = counts.deep_view();
    let mut sorted: Vec<(String, usize)> = Vec::new();
    assert(sorted.deep_view() =~= seq![]);
    for i in 0..counts.len()
        invariant
            source == counts.deep_view(),
            sorted.deep_view() == ranked(source, i as int),
            sorted@.len() == i,
    {
        let ghost before = sorted.deep_view();
        let number: usize = counts[i].1;
        let n: usize = sorted.len();
        let mut k: usize = 0;
        while k < n && sorted[k].1 >= number
            invariant
                n == sorted@.len(),
                k <= n,
                before == sorted.deep_view(),
                rank(before, number, 0) == rank(before, number, k as int),
            decreases n - k,
        {
            assert(before[k as int].1 == sorted@[k as int].1);
            k = k + 1;
        }
        if k < n {
            assert(before[k as int].1 == sorted@[k as int].1);
        }
        assert(source[i as int] == (counts@[i as int].0@, number));
        sorted.insert(k, (counts[i].0.clone(), number));
        assert(sorted.deep_view() =~= before.insert(k as int, source[i as int]));
    }
    let ghost all = sorted.deep_view();
    let mut out: Vec<(String, usize)> = Vec::new();
    let total: usize = sorted.len();
    let shown: usize = if total <= max {
        total
    } else {
        max
    };
    for i in 0..shown
        invariant
            all == sorted.deep_view(),
            shown <= sorted@.len(),
            out@.len() == i,
            out.deep_view() == all.take(i as int),
    {
        let ghost before = out.deep_view();
        out.push((sorted[i].0.clone(), sorted[i].1));
        assert(out.deep_view() =~= before.push(all[i as int]));
        assert(all.take(i + 1) =~= before.push(all[i as int]));
    }
    assert(all.take(all.len() as int) =~= all);
    out
}

/// The line that tells how often there are events of a type.
pub fn count_line(ty: &str, number: usize) -> (res: String)
    ensures
        res@ == "- "@ + ty@ + ": "@ + decimal::decimal(number as int),
{
    let digits = decimal::u64_to_string(number as u64);
    text::cat4("- ", ty, ": ", digits.as_str())
}

// ---------------------------------------------------------------------------
// What events say
// ---------------------------------------------------------------------------

/// The text of an optional value, or what stands for none.
pub open spec fn or_none(v: Option<JsonView>) -> Seq<char> {
    model::value_or(json::opt_text(v), "<none>"@)
}

/// The field that goes by either of two names.
pub open spec fn field_or(v: JsonView, name: Seq<char>, other: Seq<char>) -> Option<JsonView> {
    model::either(v.field(name), v.field(other))
}

/// The number of bytes that were added to a text.
pub open spec fn delta_len(event: JsonView) -> int {
    match json::opt_text(stream::at2(event, "properties"@, "delta"@)) {
        Some(s) => text::byte_len(s) as usize as int,
        None => 0,
    }
}

/// The line that tells of an event of the server, where it is of a type that matters here.
pub open spec fn line_of_event(event: JsonView) -> Option<Seq<char>> {
    match json::opt_text(event.field("type"@)) {
        None => None,
        Some(ty) => if ty == "session.status"@ {
            Some(
                "- session.status type="@ + or_none(
                    stream::at3(event, "properties"@, "status"@, "type"@),
                ),
            )
        } else if ty == "message.updated"@ {
            let info = model::value_or(
                stream::at2(event, "properties"@, "info"@),
                JsonView::Null,
            );
            Some(
                "- message.updated id="@ + or_none(info.field("id"@)) + " role="@ + or_none(
                    info.field("role"@),
                ) + " session="@ + or_none(field_or(info, "sessionID"@, "sessionId"@)),
            )
        } else if ty == "message.part.updated"@ {
            let part = model::value_or(
                stream::at2(event, "properties"@, "part"@),
                JsonView::Null,
            );
            Some(
                "- message.part.updated messageID="@ + or_none(
                    field_or(part, "messageID"@, "messageId"@),
                ) + " part_type="@ + or_none(part.field("type"@)) + " tool="@ + model::value_or(
                    json::opt_text(part.field("tool"@)),
                    ""@,
                ) + " callID="@ + model::value_or(
                    json::opt_text(field_or(part, "callID"@, "callId"@)),
                    ""@,
                ) + " delta_len="@ + decimal::decimal(delta_len(event)),
            )
        } else {
            None
        },
    }
}

fn get_either<'a>(v: &'a Json, name: &str, other: &str) -> (res: Option<&'a Json>)
    ensures
        res.deep_view() == field_or(v.deep_view(), name@, other@),
{
    match v.get(name) {
        Some(f) => Some(f),
        None => v.get(other),
    }
}

/// The line that tells of an event of the server, where it is of a type that matters here.
pub fn event_line(event: &Json) -> (res: Option<String>)
    ensures
        res.deep_view() == line_of_event(event.deep_view()),
{
    let ty = match json::str_opt(event.get("type")) {
        Some(t) => t,
        None => {
            return None;
        },
    };
    let null = Json::Null;
    if text::str_eq(ty, "session.status") {
        let status = json::string_or(
            json::get_opt(json::get_opt(event.get("properties"), "status"), "type"),
            "<none>",
        );
        Some(text::cat2("- session.status type=", status.as_str()))
    } else if text::str_eq(ty, "message.updated") {
        let info = match json::get_opt(event.get("properties"), "info") {
            Some(i) => i,
            None => &null,
        };
        let id = json::string_or(info.get("id"), "<none>");
        let role = json::string_or(info.get("role"), "<none>");
        let session = json::string_or(get_either(info, "sessionID", "sessionId"), "<none>");
        let head = text::cat4("- message.updated id=", id.as_str(), " role=", role.as_str());
        Some(text::cat3(head.as_str(), " session=", session.as_str()))
    } else if text::str_eq(ty, "message.part.updated") {
        let part = match json::get_opt(event.get("properties"), "part") {
            Some(p) => p,
            None => &null,
        };
        let part_type = json::string_or(part.get("type"), "<none>");
        let msg_id = json::string_or(get_either(part, "messageID", "messageId"), "<none>");
        let call_id = json::string_or(get_either(part, "callID", "callId"), "");
        let tool = json::string_or(part.get("tool"), "");
        let added: usize = match json::str_opt(json::get_opt(event.get("properties"), "delta")) {
            Some(s) => text::byte_length(s),
            None => 0,
        };
        let digits = decimal::u64_to_string(added as u64);
        let head = text::cat4(
            "- message.part.updated messageID=",
            msg_id.as_str(),
            " part_type=",
            part_type.as_str(),
        );
        let middle = text::cat3(head.as_str(), " tool=", tool.as_str());
        let named = text::cat3(middle.as_str(), " callID=", call_id.as_str());
        Some(text::cat3(named.as_str(), " delta_len=", digits.as_str()))
    } else {
        None
    }
}

/// The line that tells of the event in a line of the log.
pub open spec fn line_for(line: Seq<char>) -> Option<Seq<char>> {
    match json::json_of_text(text::trimmed(line)) {
        Ok(value) => match logged_event(value) {
            Some(event) => line_of_event(event),
            None => None,
        },
        Err(_) => None,
    }
}

/// The lines that tell of the events in the first `n` lines of the log.
pub open spec fn event_lines(lines: Seq<Seq<char>>, n: int) -> Seq<Seq<char>>
    decreases n,
{
    if n <= 0 {
        seq![]
    } else {
        match line_for(lines[n - 1]) {
            Some(line) => event_lines(lines, n - 1).push(line),
            None => event_lines(lines, n - 1),
        }
    }
}

/// The lines that tell of the messages in the log of a run.
pub fn dump_message_events(history: &Vec<LogMsg>) -> (res: Vec<String>)
    ensures
        ({
            let lines = text::lines_of(report::stdout_of(history@, history@.len() as int));
            res.deep_view() == event_lines(lines, lines.len() as int)
        }),
{
    let stdout = report::stdout_text(history);
    let lines = text::lines(stdout.as_str());
    let ghost all = text::lines_of(stdout@);
    let mut out: Vec<String> = Vec::new();
    assert(out.deep_view() =~= seq![]);
    for i in 0..lines.len()
        invariant
            lines.deep_view() == all,
            out.deep_view() == event_lines(all, i as int),
    {
        assert(all[i as int] == lines@[i as int]@);
        if let Ok(value) = Json::parse(text::trim(lines[i])) {
            if let Some(event) = sdk_event(&value) {
                if let Some(line) = event_line(event) {
                    let ghost before = out.deep_view();
                    out.push(line);
                    assert(out.deep_view() =~= before.push(line@));
                }
            }
        }
    }
    out
}

/// The lines that tell of the last lines of the standard error.
pub open spec fn tail_of(lines: Seq<Seq<char>>, max: int) -> Seq<Seq<char>> {
    let kept = if lines.len() <= max {
        lines
    } else {
        lines.skip(lines.len() - max)
    };
    kept.map_values(|line: Seq<char>| "- "@ + line)
}

/// The lines that tell of the last lines of the standard error of a run, at most `max_lines`.
pub fn dump_stderr_tail(history: &Vec<LogMsg>, max_lines: usize) -> (res: Vec<String>)
    ensures
        res.deep_view() == tail_of(
            text::lines_of(report::stderr_of(history@, history@.len() as int)),
            max_lines as int,
        ),
{
    let stderr = report::stderr_text(history);
    let lines = text::lines(stderr.as_str());
    let ghost all = text::lines_of(stderr@);
    let n: usize = lines.len();
    let start: usize = if n <= max_lines {
        0
    } else {
        n - max_lines
    };
    let mut out: Vec<String> = Vec::new();
    for i in start..n
        invariant
            n == lines@.len(),
            start <= n,
            lines.deep_view() == all,
            out@.len() == i - start,
            forall|j: int| 0 <= j < i - start ==> (#[trigger] out@[j])@ == "- "@ + all[start + j],
    {
        assert(all[i as int] == lines@[i as int]@);
        out.push(text::cat2("- ", lines[i]));
    }
    assert(all.skip(0) =~= all);
    assert(out.deep_view() =~= tail_of(all, max_lines as int));
    out
}

// ---------------------------------------------------------------------------
// Laws
// ---------------------------------------------------------------------------

/// As many events of a type are counted as lines tell of one.
pub proof fn lemma_occurrences_counted(types: Seq<Option<Seq<char>>>, ty: Seq<char>)
    ensures
        occurrences(types, ty, types.len() as int) == types.filter(
            |t: Option<Seq<char>>| t == Some(ty),
        ).len(),
    decreases types.len(),
{
    reveal(Seq::filter);
    if types.len() > 0 {
        let before = types.drop_last();
        lemma_occurrences_counted(before, ty);
        lemma_occurrences_prefix(before, types, ty, before.len() as int);
    }
}

proof fn lemma_occurrences_prefix(
    a: Seq<Option<Seq<char>>>,
    b: Seq<Option<Seq<char>>>,
    ty: Seq<char>,
    n: int,
)
    requires
        0 <= n <= a.len(),
        n <= b.len(),
        forall|i: int| 0 <= i < n ==> a[i] == b[i],
    ensures
        occurrences(a, ty, n) == occurrences(b, ty, n),
    decreases n,
{
    if n > 0 {
        lemma_occurrences_prefix(a, b, ty, n - 1);
    }
}

/// Only a line that tells of an event of the server is taken for one, and the event is the one that
/// it holds.
pub proof fn lemma_logged_event(value: JsonView)
    ensures
        logged_event(value) is Some ==> value.field("type"@) == Some(JsonView::Text("sdk_event"@))
            && logged_event(value) == value.field("event"@),
        value.field("type"@) == Some(JsonView::Text("sdk_event"@)) ==> logged_event(value)
            == value.field("event"@),
{
}

/// The line of a message names the message, who it is from and its session.
pub proof fn lemma_message_line(
    event: JsonView,
    info: JsonView,
    id: Seq<char>,
    role: Seq<char>,
    session: Seq<char>,
)
    requires
        event.field("type"@) == Some(JsonView::Text("message.updated"@)),
        event.field("properties"@) is Some,
        event.field("properties"@)->0.field("info"@) == Some(info),
        info.field("id"@) == Some(JsonView::Text(id)),
        info.field("role"@) == Some(JsonView::Text(role)),
        info.field("sessionID"@) == Some(JsonView::Text(session)),
    ensures
        line_of_event(event) == Some(
            "- message.updated id="@ + id + " role="@ + role + " session="@ + session,
        ),
{
    reveal_strlit("message.updated");
    reveal_strlit("session.status");
    assert("message.updated"@.len() == 15 && "session.status"@.len() == 14);
}

/// The line of a part of a message names the message, the kind of the part, the tool and the call,
/// and says how many bytes were added.
pub proof fn lemma_part_line(
    event: JsonView,
    part: JsonView,
    message_id: Seq<char>,
    kind: Seq<char>,
    tool: Seq<char>,
    call_id: Seq<char>,
)
    requires
        event.field("type"@) == Some(JsonView::Text("message.part.updated"@)),
        event.field("properties"@) is Some,
        event.field("properties"@)->0.field("part"@) == Some(part),
        part.field("messageID"@) == Some(JsonView::Text(message_id)),
        part.field("type"@) == Some(JsonView::Text(kind)),
        part.field("tool"@) == Some(JsonView::Text(tool)),
        part.field("callID"@) == Some(JsonView::Text(call_id)),
        event.field("properties"@)->0.field("delta"@) is None,
    ensures
        line_of_event(event) == Some(
            "- message.part.updated messageID="@ + message_id + " part_type="@ + kind + " tool="@
                + tool + " callID="@ + call_id + " delta_len="@ + decimal::decimal(0),
        ),
{
    reveal_strlit("message.updated");
    reveal_strlit("message.part.updated");
    reveal_strlit("session.status");
    assert("message.updated"@.len() == 15 && "session.status"@.len() == 14);
    assert("message.part.updated"@.len() == 20);
}

/// The line of the status of a session names the status.
pub proof fn lemma_status_line(event: JsonView, status: JsonView, kind: Seq<char>)
    requires
        event.field("type"@) == Some(JsonView::Text("session.status"@)),
        event.field("properties"@) is Some,
        event.field("properties"@)->0.field("status"@) == Some(status),
        status.field("type"@) == Some(JsonView::Text(kind)),
    ensures
        line_of_event(event) == Some("- session.status type="@ + kind),
{
}

/// What is told of a log with one more line is what was told before, and then the line of the event
/// that the new line tells of, where there is one.
pub proof fn lemma_event_lines(lines: Seq<Seq<char>>, line: Seq<char>)
    ensures
        ({
            let n = lines.len() as int;
            let before = event_lines(lines, n);
            event_lines(lines.push(line), n + 1) == match line_for(line) {
                Some(told) => before.push(told),
                None => before,
            }
        }),
{
    lemma_event_lines_prefix(lines, lines.push(line), lines.len() as int);
}

proof fn lemma_event_lines_prefix(a: Seq<Seq<char>>, b: Seq<Seq<char>>, n: int)
    requires
        0 <= n <= a.len(),
        n <= b.len(),
        forall|i: int| 0 <= i < n ==> a[i] == b[i],
    ensures
        event_lines(a, n) == event_lines(b, n),
    decreases n,
{
    if n > 0 {
        lemma_event_lines_prefix(a, b, n - 1);
    }
}

/// The tail is made of the last lines, as many as there are but no more than asked for, in order.
pub proof fn lemma_tail(lines: Seq<Seq<char>>, max: int, back: int)
    requires
        0 <= max,
        0 < back <= max,
        back <= lines.len(),
    ensures
        tail_of(lines, max).len() == if lines.len() <= max {
            lines.len() as int
        } else {
            max
        },
        tail_of(lines, max)[tail_of(lines, max).len() - back] == "- "@ + lines[lines.len() - back],
{
}

} // verus!
