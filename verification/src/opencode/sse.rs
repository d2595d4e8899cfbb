//! Server-sent events: cutting a stream into events and reading them.
use vstd::prelude::*;
use vstd::string::*;

use crate::decimal;
use crate::json;
use crate::json::{Json, JsonView};
use crate::text;
use crate::text::CharClass;

verus! {

// ---------------------------------------------------------------------------
// Cutting a stream into events
// ---------------------------------------------------------------------------

/// Where the first blank line of a buffer begins, and how long the line breaks are that make it.
pub open spec fn blank_line(buffer: Seq<char>) -> Option<(int, int)> {
    let nl = text::find(buffer, "\n\n"@);
    let crlf = text::find(buffer, "\r\n\r\n"@);
    if nl is Some && (crlf is None || nl->0 <= crlf->0) {
        Some((nl->0, 2))
    } else if crlf is Some {
        Some((crlf->0, 4))
    } else {
        None
    }
}

/// A buffer from which the first event is taken.
pub ghost struct Taken {
    /// The event.
    pub event: Seq<char>,
    /// What is left.
    pub rest: Seq<char>,
}

/// The first event of a buffer, where a blank line ends it, and what is left without it and the
/// line breaks after it.
pub open spec fn first_event(buffer: Seq<char>) -> Option<Taken> {
    match blank_line(buffer) {
        None => None,
        Some((at, n)) => Some(
            Taken {
                event: buffer.take(at),
                rest: text::trimmed_start_of(buffer.skip(at + n), CharClass::Break),
            },
        ),
    }
}

/// Takes the first event out of a buffer, where it is complete, and the line breaks after it.
pub fn next_sse_chunk(buffer: &mut String) -> (res: Option<String>)
    ensures
        match first_event(old(buffer)@) {
            None => res is None && final(buffer)@ == old(buffer)@,
            Some(taken) => res.deep_view() == Some(taken.event) && final(buffer)@ == taken.rest,
        },
{
    let cs = text::chars_of(buffer.as_str());
    let n: usize = cs.len();
    let nl = text::find_chars(&cs, &text::chars_of("\n\n"));
    let crlf = text::find_chars(&cs, &text::chars_of("\r\n\r\n"));
    proof {
        reveal_strlit("\n\n");
        reveal_strlit("\r\n\r\n");
        text::lemma_find_from(buffer@, "\n\n"@, 0);
        text::lemma_find_from(buffer@, "\r\n\r\n"@, 0);
    }
    let at: usize;
    let len: usize;
    match (nl, crlf) {
        (Some(a), Some(b)) => {
            if a <= b {
                at = a;
                len = 2;
            } else {
                at = b;
                len = 4;
            }
        },
        (Some(a), None) => {
            at = a;
            len = 2;
        },
        (None, Some(b)) => {
            at = b;
            len = 4;
        },
        (None, None) => {
            return None;
        },
    }
    let raw = text::owned(buffer.as_str().substring_char(0, at));
    assert(raw@ =~= buffer@.take(at as int));
    let after = buffer.as_str().substring_char(at + len, n);
    assert(after@ =~= buffer@.skip(at + len));
    let rest = text::owned(text::trim_start_of(after, CharClass::Break));
    *buffer = rest;
    Some(raw)
}

/// What is cut from the start of a text belongs to the class.
pub proof fn lemma_trimmed_start_of(s: Seq<char>, k: CharClass) -> (cut: int)
    ensures
        0 <= cut <= s.len(),
        text::trimmed_start_of(s, k) == s.skip(cut),
        forall|i: int| 0 <= i < cut ==> k.has(#[trigger] s[i]),
        cut < s.len() ==> !k.has(s[cut]),
    decreases s.len(),
{
    if s.len() > 0 && k.has(s[0]) {
        let c = lemma_trimmed_start_of(s.skip(1), k);
        assert(s.skip(1).skip(c) =~= s.skip(c + 1));
        assert forall|i: int| 0 <= i < c + 1 implies k.has(#[trigger] s[i]) by {
            if i > 0 {
                assert(s[i] == s.skip(1)[i - 1]);
            }
        }
        c + 1
    } else {
        assert(s.skip(0) =~= s);
        0
    }
}

/// Taking an event out of a buffer loses nothing but line breaks, at least two of them: the buffer
/// is the event, line breaks and the rest, and the rest does not begin with a line break.
pub proof fn lemma_event_consumes(buffer: Seq<char>) -> (breaks: Seq<char>)
    requires
        first_event(buffer) is Some,
    ensures
        buffer == first_event(buffer)->0.event + breaks + first_event(buffer)->0.rest,
        breaks.len() >= 2,
        forall|i: int| 0 <= i < breaks.len() ==> CharClass::Break.has(#[trigger] breaks[i]),
        first_event(buffer)->0.rest.len() > 0 ==> !CharClass::Break.has(first_event(buffer)->0.rest[0]),
{
    reveal_strlit("\n\n");
    reveal_strlit("\r\n\r\n");
    text::lemma_find_from(buffer, "\n\n"@, 0);
    text::lemma_find_from(buffer, "\r\n\r\n"@, 0);
    let (at, n) = blank_line(buffer)->0;
    let delimiter = buffer.subrange(at, at + n);
    if n == 2 {
        assert(delimiter =~= "\n\n"@);
    } else {
        assert(delimiter =~= "\r\n\r\n"@);
    }
    let after = buffer.skip(at + n);
    let cut = lemma_trimmed_start_of(after, CharClass::Break);
    let breaks = delimiter + after.take(cut);
    assert(buffer =~= buffer.take(at) + breaks + after.skip(cut));
    assert forall|i: int| 0 <= i < breaks.len() implies CharClass::Break.has(#[trigger] breaks[i]) by {
        if i >= n {
            assert(breaks[i] == after[i - n]);
        }
    }
    breaks
}

/// No blank line stands inside an event.
pub proof fn lemma_event_unbroken(buffer: Seq<char>)
    requires
        first_event(buffer) is Some,
    ensures
        !text::contains(first_event(buffer)->0.event, "\n\n"@),
        !text::contains(first_event(buffer)->0.event, "\r\n\r\n"@),
{
    reveal_strlit("\n\n");
    reveal_strlit("\r\n\r\n");
    text::lemma_find_from(buffer, "\n\n"@, 0);
    text::lemma_find_from(buffer, "\r\n\r\n"@, 0);
    let (at, n) = blank_line(buffer)->0;
    let raw = buffer.take(at);
    assert forall|i: int| !text::occurs_at(raw, "\n\n"@, i) by {
        if text::occurs_at(raw, "\n\n"@, i) {
            lemma_occurs_in_longer(raw, buffer.skip(at), "\n\n"@, i);
            assert(raw + buffer.skip(at) =~= buffer);
        }
    }
    assert forall|i: int| !text::occurs_at(raw, "\r\n\r\n"@, i) by {
        if text::occurs_at(raw, "\r\n\r\n"@, i) {
            lemma_occurs_in_longer(raw, buffer.skip(at), "\r\n\r\n"@, i);
            assert(raw + buffer.skip(at) =~= buffer);
        }
    }
}

pub proof fn lemma_occurs_in_longer(s: Seq<char>, more: Seq<char>, p: Seq<char>, i: int)
    requires
        text::occurs_at(s, p, i),
    ensures
        text::occurs_at(s + more, p, i),
{
    assert((s + more).subrange(i, i + p.len()) =~= s.subrange(i, i + p.len()));
}

proof fn lemma_occurs_in_shorter(s: Seq<char>, more: Seq<char>, p: Seq<char>, i: int)
    requires
        text::occurs_at(s + more, p, i),
        i + p.len() <= s.len(),
    ensures
        text::occurs_at(s, p, i),
{
    assert((s + more).subrange(i, i + p.len()) =~= s.subrange(i, i + p.len()));
}

/// The first blank line of a buffer stays the first, whatever arrives after it.
pub proof fn lemma_blank_line_stable(buffer: Seq<char>, more: Seq<char>)
    requires
        blank_line(buffer) is Some,
    ensures
        blank_line(buffer + more) == blank_line(buffer),
{
    reveal_strlit("\n\n");
    reveal_strlit("\r\n\r\n");
    let nl = "\n\n"@;
    let crlf = "\r\n\r\n"@;
    let longer = buffer + more;
    text::lemma_find_from(buffer, nl, 0);
    text::lemma_find_from(buffer, crlf, 0);
    text::lemma_find_from(longer, nl, 0);
    text::lemma_find_from(longer, crlf, 0);
    let (at, n) = blank_line(buffer)->0;
    if n == 2 {
        lemma_occurs_in_longer(buffer, more, nl, at);
    } else {
        lemma_occurs_in_longer(buffer, more, crlf, at);
    }
    assert(forall|j: int| 0 <= j < at ==> !text::occurs_at(longer, nl, j)) by {
        assert forall|j: int| 0 <= j < at implies !text::occurs_at(longer, nl, j) by {
            if text::occurs_at(longer, nl, j) {
                lemma_occurs_in_shorter(buffer, more, nl, j);
            }
        }
    }
    assert(forall|j: int| 0 <= j < at ==> !text::occurs_at(longer, crlf, j)) by {
        assert forall|j: int| 0 <= j < at implies !text::occurs_at(longer, crlf, j) by {
            if text::occurs_at(longer, crlf, j) {
                if j + 4 <= buffer.len() {
                    lemma_occurs_in_shorter(buffer, more, crlf, j);
                } else {
                    assert(n == 2 && j == at - 1);
                    assert(longer[j + 2] == crlf[2]);
                    assert(buffer[at + 1] == nl[1]);
                    assert(longer[j + 2] == buffer[at + 1]);
                }
            }
        }
    }
    if n == 2 {
        assert(!text::occurs_at(longer, crlf, at)) by {
            if text::occurs_at(longer, crlf, at) {
                assert(longer[at] == crlf[0]);
                assert(buffer[at] == nl[0]);
            }
        }
    } else {
        assert(!text::occurs_at(longer, nl, at)) by {
            if text::occurs_at(longer, nl, at) {
                assert(longer[at] == nl[0]);
                assert(buffer[at] == crlf[0]);
            }
        }
    }
}

/// An event that is complete in a buffer is the same whatever arrives after it.
pub proof fn lemma_event_stable(buffer: Seq<char>, more: Seq<char>)
    requires
        first_event(buffer) is Some,
    ensures
        first_event(buffer + more) is Some,
        first_event(buffer + more)->0.event == first_event(buffer)->0.event,
{
    reveal_strlit("\n\n");
    reveal_strlit("\r\n\r\n");
    text::lemma_find_from(buffer, "\n\n"@, 0);
    text::lemma_find_from(buffer, "\r\n\r\n"@, 0);
    lemma_blank_line_stable(buffer, more);
    let (at, n) = blank_line(buffer)->0;
    assert((buffer + more).take(at) =~= buffer.take(at));
}

// ---------------------------------------------------------------------------
// Reading an event
// ---------------------------------------------------------------------------

/// What an event says: its data, where it is JSON, its id and the milliseconds to wait before a
/// reconnection.
#[derive(Debug, PartialEq)]
pub struct ParsedSseEvent<S = String, J = Json> {
    pub data: Option<J>,
    pub id: Option<S>,
    pub retry: Option<u64>,
}

impl DeepView for ParsedSseEvent {
    type V = ParsedSseEvent<Seq<char>, JsonView>;

    open spec fn deep_view(&self) -> ParsedSseEvent<Seq<char>, JsonView> {
        ParsedSseEvent {
            data: self.data.deep_view(),
            id: self.id.deep_view(),
            retry: self.retry,
        }
    }
}

/// The value of a line that names the given field.
pub open spec fn field_value(line: Seq<char>, name: Seq<char>) -> Option<Seq<char>> {
    match text::stripped_prefix(text::trimmed_end(line), name) {
        Some(rest) => Some(text::trimmed_start(rest)),
        None => None,
    }
}

/// The values of the `data` lines among the first `n` lines.
pub open spec fn data_lines(lines: Seq<Seq<char>>, n: int) -> Seq<Seq<char>>
    decreases n,
{
    if n <= 0 {
        seq![]
    } else {
        match field_value(lines[n - 1], "data:"@) {
            Some(value) => data_lines(lines, n - 1).push(value),
            None => data_lines(lines, n - 1),
        }
    }
}

/// The last id among the first `n` lines that is not blank.
pub open spec fn last_id(lines: Seq<Seq<char>>, n: int) -> Option<Seq<char>>
    decreases n,
{
    if n <= 0 {
        None
    } else {
        match field_value(lines[n - 1], "id:"@) {
            Some(value) => if text::trimmed(value).len() > 0 {
                Some(text::trimmed(value))
            } else {
                last_id(lines, n - 1)
            },
            None => last_id(lines, n - 1),
        }
    }
}

/// The last retry delay among the first `n` lines that is a number.
pub open spec fn last_retry(lines: Seq<Seq<char>>, n: int) -> Option<u64>
    decreases n,
{
    if n <= 0 {
        None
    } else {
        match field_value(lines[n - 1], "retry:"@) {
            Some(value) => match decimal::parsed_u64(text::trimmed(value)) {
                Ok(ms) => Some(ms as u64),
                Err(_) => last_retry(lines, n - 1),
            },
            None => last_retry(lines, n - 1),
        }
    }
}

/// The value of the data of an event: the data lines, joined, read as JSON.
pub open spec fn data_of(parts: Seq<Seq<char>>) -> Option<JsonView> {
    if parts.len() == 0 {
        None
    } else {
        match json::json_of_text(text::joined(parts, "\n"@)) {
            Ok(value) => Some(value),
            Err(_) => None,
        }
    }
}

/// What an event says.
pub open spec fn event_of(raw: Seq<char>) -> ParsedSseEvent<Seq<char>, JsonView> {
    let lines = text::lines_of(raw);
    let n = lines.len() as int;
    ParsedSseEvent {
        data: data_of(data_lines(lines, n)),
        id: last_id(lines, n),
        retry: last_retry(lines, n),
    }
}

/// A line names at most one of the fields that are read.
proof fn lemma_one_field(line: Seq<char>)
    ensures
        field_value(line, "data:"@) is Some ==> field_value(line, "id:"@) is None && field_value(
            line,
            "retry:"@,
        ) is None,
        field_value(line, "id:"@) is Some ==> field_value(line, "retry:"@) is None,
{
    reveal_strlit("data:");
    reveal_strlit("id:");
    reveal_strlit("retry:");
    let s = text::trimmed_end(line);
    if text::stripped_prefix(s, "data:"@) is Some {
        assert(s[0] == "data:"@[0]);
    }
    if text::stripped_prefix(s, "id:"@) is Some {
        assert(s[0] == "id:"@[0]);
    }
    if text::stripped_prefix(s, "retry:"@) is Some {
        assert(s[0] == "retry:"@[0]);
    }
}

/// Reads an event.
pub fn parse_sse_event(raw_event: &str) -> (res: ParsedSseEvent)
    ensures
        res.deep_view() == event_of(raw_event@),
{
    let lines = text::lines(raw_event);
    let ghost all = text::lines_of(raw_event@);
    let mut parts: Vec<&str> = Vec::new();
    let mut id: Option<String> = None;
    let mut retry: Option<u64> = None;
    for i in 0..lines.len()
        invariant
            lines.deep_view() == all,
            parts.deep_view() == data_lines(all, i as int),
            id.deep_view() == last_id(all, i as int),
            retry == last_retry(all, i as int),
    {
        assert(all[i as int] == lines@[i as int]@);
        proof {
            lemma_one_field(all[i as int]);
        }
        let line = text::trim_end(lines[i]);
        if let Some(rest) = text::strip_prefix(line, "data:") {
            let ghost before = parts.deep_view();
            parts.push(text::trim_start(rest));
            assert(parts.deep_view() =~= before.push(text::trimmed_start(rest@)));
        } else if let Some(rest) = text::strip_prefix(line, "id:") {
            let value = text::trim(text::trim_start(rest));
            if !value.is_empty() {
                id = Some(text::owned(value));
            }
        } else if let Some(rest) = text::strip_prefix(line, "retry:") {
            let value = text::trim(text::trim_start(rest));
            if let Ok(ms) = decimal::parse_u64(value) {
                retry = Some(ms);
            }
        }
    }
    assert(parts.deep_view().len() == parts@.len());
    let data = if parts.len() == 0 {
        None
    } else {
        match Json::parse(text::join(&parts, "\n").as_str()) {
            Ok(value) => Some(value),
            Err(_) => None,
        }
    };
    ParsedSseEvent { data, id, retry }
}

/// The value of a field is what follows its name, with or without white space between them.
pub proof fn lemma_field_read(name: Seq<char>, value: Seq<char>)
    requires
        value.len() > 0,
        !text::white_space(value[0]),
        !text::white_space(value.last()),
    ensures
        field_value(name + value, name) == Some(value),
        field_value(name + seq![' '] + value, name) == Some(value),
{
    let close = name + value;
    let apart = name + seq![' '] + value;
    assert(close.last() == value.last());
    assert(apart.last() == value.last());
    assert(text::trimmed_end(close) == close);
    assert(text::trimmed_end(apart) == apart);
    assert(close.skip(name.len() as int) =~= value);
    assert(apart.skip(name.len() as int) =~= seq![' '] + value);
    assert((seq![' '] + value).skip(1) =~= value);
    reveal_with_fuel(text::trimmed_start_of, 3);
    assert(text::occurs_at(close, name, 0));
    assert(text::occurs_at(apart, name, 0));
}

/// An event that brings an id, a delay and data is read so: the id, the delay and the value that the
/// data denotes.
pub proof fn lemma_event_read(
    raw: Seq<char>,
    id: Seq<char>,
    delay: Seq<char>,
    data: Seq<char>,
    ms: u64,
)
    requires
        text::lines_of(raw) == seq![
            "id:"@ + seq![' '] + id,
            "retry:"@ + seq![' '] + delay,
            "data:"@ + seq![' '] + data,
        ],
        id.len() > 0 && !text::white_space(id[0]) && !text::white_space(id.last()),
        delay.len() > 0 && !text::white_space(delay[0]) && !text::white_space(delay.last()),
        data.len() > 0 && !text::white_space(data[0]) && !text::white_space(data.last()),
        decimal::parsed_u64(delay) == Ok::<int, decimal::IntError>(ms as int),
    ensures
        event_of(raw).id == Some(id),
        event_of(raw).retry == Some(ms),
        json::json_of_text(data) matches Ok(value) ==> event_of(raw).data == Some(value),
        json::json_of_text(data) is Err ==> event_of(raw).data is None,
{
    let lines = text::lines_of(raw);
    lemma_field_read("id:"@, id);
    lemma_field_read("retry:"@, delay);
    lemma_field_read("data:"@, data);
    lemma_one_field(lines[0]);
    lemma_one_field(lines[1]);
    lemma_one_field(lines[2]);
    assert(text::trimmed(id) == id);
    assert(text::trimmed(delay) == delay);
    reveal_with_fuel(data_lines, 4);
    reveal_with_fuel(last_id, 4);
    reveal_with_fuel(last_retry, 4);
    assert(data_lines(lines, 3) =~= seq![data]);
    reveal_with_fuel(text::joined, 2);
    assert(text::joined(seq![data], "\n"@) =~= data);
}

/// The id of an event is the last one that it names; a blank one counts for nothing.
pub proof fn lemma_last_id(lines: Seq<Seq<char>>, n: int, k: int, id: Seq<char>)
    requires
        0 <= k < n <= lines.len(),
        field_value(lines[k], "id:"@) == Some(id),
        !text::blank(id),
        forall|i: int| k < i < n ==> (field_value(#[trigger] lines[i], "id:"@) matches Some(v)
            ==> text::blank(v)),
    ensures
        last_id(lines, n) == Some(text::trimmed(id)),
    decreases n,
{
    if n - 1 > k {
        assert(field_value(lines[n - 1], "id:"@) matches Some(v) ==> text::blank(v));
        lemma_last_id(lines, n - 1, k, id);
    }
}

/// The delay that an event asks for is the last one that is a number; what is none counts for
/// nothing.
pub proof fn lemma_last_retry(lines: Seq<Seq<char>>, n: int, k: int, delay: Seq<char>, ms: u64)
    requires
        0 <= k < n <= lines.len(),
        field_value(lines[k], "retry:"@) == Some(delay),
        decimal::parsed_u64(text::trimmed(delay)) == Ok::<int, decimal::IntError>(ms as int),
        forall|i: int| k < i < n ==> (field_value(#[trigger] lines[i], "retry:"@) matches Some(v)
            ==> decimal::parsed_u64(text::trimmed(v)) is Err),
    ensures
        last_retry(lines, n) == Some(ms),
    decreases n,
{
    if n - 1 > k {
        assert(field_value(lines[n - 1], "retry:"@) matches Some(v) ==> decimal::parsed_u64(
            text::trimmed(v),
        ) is Err);
        lemma_last_retry(lines, n - 1, k, delay, ms);
    }
}

/// An event that names neither an id nor a delay has none.
pub proof fn lemma_no_headers(lines: Seq<Seq<char>>, n: int)
    requires
        n <= lines.len(),
        forall|i: int| 0 <= i < n ==> field_value(#[trigger] lines[i], "id:"@) is None
            && field_value(lines[i], "retry:"@) is None,
    ensures
        last_id(lines, n) is None,
        last_retry(lines, n) is None,
    decreases n,
{
    if n > 0 {
        assert(field_value(lines[n - 1], "id:"@) is None);
        lemma_no_headers(lines, n - 1);
    }
}

/// Data that comes in two pieces is read as one text of two lines, whatever stands between the
/// pieces; an event without data has none.
pub proof fn lemma_data_in_pieces(raw: Seq<char>, a: Seq<char>, other: Seq<char>, b: Seq<char>)
    requires
        text::lines_of(raw) == seq!["data:"@ + a, other, "data:"@ + b],
        a.len() > 0 && !text::white_space(a[0]) && !text::white_space(a.last()),
        b.len() > 0 && !text::white_space(b[0]) && !text::white_space(b.last()),
        field_value(other, "data:"@) is None,
    ensures
        event_of(raw).data == match json::json_of_text(a + "\n"@ + b) {
            Ok(value) => Some(value),
            Err(_) => None,
        },
        data_of(seq![]) is None,
{
    let lines = text::lines_of(raw);
    lemma_field_read("data:"@, a);
    lemma_field_read("data:"@, b);
    reveal_with_fuel(data_lines, 4);
    assert(data_lines(lines, 3) =~= seq![a, b]);
    assert(seq![a, b].drop_last() =~= seq![a]);
    reveal_with_fuel(text::joined, 3);
    assert(text::joined(seq![a, b], "\n"@) == a + "\n"@ + b);
}

} // verus!
