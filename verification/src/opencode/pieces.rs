//! Reading a stream piece by piece: it does not matter where the stream is cut.
use vstd::prelude::*;

use crate::opencode::sse;
use crate::opencode::stream;
use crate::opencode::stream::{Drained, Step, StreamMemory};
use crate::text;
use crate::text::CharClass;

verus! {

/// Whether a text consists of line breaks.
pub open spec fn all_breaks(s: Seq<char>) -> bool {
    forall|i: int| 0 <= i < s.len() ==> CharClass::Break.has(#[trigger] s[i])
}

/// Whether a text has a blank line, and nothing but line breaks from there to the given position.
pub open spec fn blank_line_before(s: Seq<char>, i: int) -> bool {
    exists|j: int| #[trigger]
        blank_line_at(s, j) && j < i && all_breaks(s.subrange(j, i))
}

/// Whether the line breaks of a blank line begin at the given position.
pub open spec fn blank_line_at(s: Seq<char>, j: int) -> bool {
    text::occurs_at(s, "\n\n"@, j) || text::occurs_at(s, "\r\n\r\n"@, j)
}

/// Whether no carriage return stands alone between a blank line and the text after it.
pub open spec fn no_stray_return(s: Seq<char>) -> bool {
    forall|i: int|
        0 <= i < s.len() - 1 && #[trigger] s[i] == '\r' && blank_line_before(s, i)
            ==> CharClass::Break.has(s[i + 1])
}

/// A text without the line breaks at its start.
pub open spec fn unbroken(s: Seq<char>) -> Seq<char> {
    text::trimmed_start_of(s, CharClass::Break)
}

/// Pieces of text, one after the other.
pub open spec fn whole(pieces: Seq<Seq<char>>) -> Seq<char>
    decreases pieces.len(),
{
    if pieces.len() == 0 {
        seq![]
    } else {
        pieces[0] + whole(pieces.skip(1))
    }
}

/// What comes of the pieces of a stream, as each of them is put into the buffer and the complete
/// events are taken out of it, until one of them ends the reading.
pub open spec fn read_pieces(
    memory: StreamMemory,
    buffer: Seq<char>,
    pieces: Seq<Seq<char>>,
    session_id: Seq<char>,
) -> Drained
    decreases pieces.len(),
{
    if pieces.len() == 0 {
        stream::drained(memory, buffer, session_id)
    } else {
        let first = stream::drained(memory, buffer + pieces[0], session_id);
        if first.step.outcome is Some {
            first
        } else {
            let later = read_pieces(
                first.step.memory,
                first.buffer,
                pieces.skip(1),
                session_id,
            );
            Drained {
                step: Step { actions: first.step.actions + later.step.actions, ..later.step },
                buffer: later.buffer,
            }
        }
    }
}

// ---------------------------------------------------------------------------
// Lines that say nothing
// ---------------------------------------------------------------------------

proof fn lemma_lines_shift(s: Seq<char>, i: int)
    requires
        0 <= i <= s.len(),
    ensures
        text::lines_from(s, i) == text::lines_of(s.skip(i)),
    decreases s.len() - i,
{
    let rest = s.skip(i);
    let j = text::char_from(s, '\n', i);
    text::lemma_char_from(s, '\n', i);
    assert forall|k: int| 0 <= k < j - i implies rest[k] != '\n' by {
        assert(s[i + k] != '\n');
    }
    text::lemma_char_from_is(rest, '\n', 0, j - i);
    if i < s.len() {
        if j < s.len() {
            lemma_lines_shift(s, j + 1);
            lemma_lines_shift(rest, j - i + 1);
            assert(rest.skip(j - i + 1) =~= s.skip(j + 1));
            assert(rest.subrange(0, j - i) =~= s.subrange(i, j));
        } else {
            assert(rest.subrange(0, rest.len() as int) =~= s.subrange(i, s.len() as int));
        }
    }
}

/// A text whose first line ends at the given position has that line, and the lines of the rest.
proof fn lemma_first_line(s: Seq<char>, at: int)
    requires
        0 <= at < s.len(),
        s[at] == '\n',
        forall|i: int| 0 <= i < at ==> s[i] != '\n',
    ensures
        text::lines_of(s) == seq![text::without_cr(s.take(at))] + text::lines_of(s.skip(at + 1)),
{
    text::lemma_char_from_is(s, '\n', 0, at);
    lemma_lines_shift(s, at + 1);
    assert(s.subrange(0, at) =~= s.take(at));
}

/// A line of carriage returns names no field.
proof fn lemma_silent_line(line: Seq<char>)
    requires
        all_breaks(line),
    ensures
        sse::field_value(line, "data:"@) is None,
        sse::field_value(line, "id:"@) is None,
        sse::field_value(line, "retry:"@) is None,
{
    reveal_strlit("data:");
    reveal_strlit("id:");
    reveal_strlit("retry:");
    lemma_breaks_trimmed(line);
}

proof fn lemma_breaks_trimmed(line: Seq<char>)
    requires
        all_breaks(line),
    ensures
        text::trimmed_end(line).len() == 0,
    decreases line.len(),
{
    if line.len() > 0 {
        assert(CharClass::Break.has(line[line.len() - 1]));
        assert(all_breaks(line.drop_last())) by {
            assert forall|i: int| 0 <= i < line.drop_last().len() implies CharClass::Break.has(
                #[trigger] line.drop_last()[i],
            ) by {
                assert(CharClass::Break.has(line[i]));
            }
        }
        lemma_breaks_trimmed(line.drop_last());
    }
}

/// A first line that names no field changes nothing of what lines say.
proof fn lemma_silent_first(line: Seq<char>, lines: Seq<Seq<char>>, n: int)
    requires
        all_breaks(line),
        0 <= n <= lines.len(),
    ensures
        sse::data_lines(seq![line] + lines, n + 1) == sse::data_lines(lines, n),
        sse::last_id(seq![line] + lines, n + 1) == sse::last_id(lines, n),
        sse::last_retry(seq![line] + lines, n + 1) == sse::last_retry(lines, n),
    decreases n,
{
    let all = seq![line] + lines;
    if n == 0 {
        lemma_silent_line(line);
        assert(all[0] == line);
        assert(sse::data_lines(all, 0) =~= seq![]);
    } else {
        lemma_silent_first(line, lines, n - 1);
        assert(all[n] == lines[n - 1]);
    }
}

/// Line breaks before an event, if whole lines, change nothing of what it says.
proof fn lemma_breaks_before(breaks: Seq<char>, event: Seq<char>)
    requires
        all_breaks(breaks),
        breaks.len() > 0 ==> breaks.last() == '\n',
    ensures
        sse::event_of(breaks + event) == sse::event_of(event),
    decreases breaks.len(),
{
    if breaks.len() == 0 {
        assert(breaks + event =~= event);
    } else {
        let at = text::char_from(breaks, '\n', 0);
        text::lemma_char_from(breaks, '\n', 0);
        assert(breaks[breaks.len() - 1] == '\n');
        let s = breaks + event;
        let rest = breaks.skip(at + 1);
        assert(all_breaks(rest)) by {
            assert forall|i: int| 0 <= i < rest.len() implies CharClass::Break.has(
                #[trigger] rest[i],
            ) by {
                assert(CharClass::Break.has(breaks[at + 1 + i]));
            }
        }
        lemma_breaks_before(rest, event);
        lemma_first_line(s, at);
        assert(s.skip(at + 1) =~= rest + event);
        let line = text::without_cr(s.take(at));
        assert(all_breaks(line)) by {
            assert forall|i: int| 0 <= i < line.len() implies CharClass::Break.has(
                #[trigger] line[i],
            ) by {
                assert(CharClass::Break.has(breaks[i]));
            }
        }
        let lines = text::lines_of(rest + event);
        lemma_silent_first(line, lines, lines.len() as int);
    }
}

/// An event of nothing but line breaks says nothing.
proof fn lemma_breaks_silent(s: Seq<char>)
    requires
        all_breaks(s),
    ensures
        sse::event_of(s) == (sse::ParsedSseEvent::<Seq<char>, crate::json::JsonView> {
            data: None,
            id: None,
            retry: None,
        }),
    decreases s.len(),
{
    let at = text::char_from(s, '\n', 0);
    text::lemma_char_from(s, '\n', 0);
    if at < s.len() {
        let breaks = s.take(at + 1);
        let rest = s.skip(at + 1);
        assert(s =~= breaks + rest);
        assert forall|i: int| 0 <= i < rest.len() implies CharClass::Break.has(
            #[trigger] rest[i],
        ) by {
            assert(CharClass::Break.has(s[at + 1 + i]));
        }
        assert forall|i: int| 0 <= i < breaks.len() implies CharClass::Break.has(
            #[trigger] breaks[i],
        ) by {
            assert(CharClass::Break.has(s[i]));
        }
        lemma_breaks_silent(rest);
        lemma_breaks_before(breaks, rest);
    } else if s.len() > 0 {
        let lines = text::lines_of(s);
        assert(s.subrange(0, s.len() as int) =~= s);
        assert(lines =~= seq![s]);
        lemma_silent_line(s);
        reveal_with_fuel(sse::data_lines, 2);
        reveal_with_fuel(sse::last_id, 2);
        reveal_with_fuel(sse::last_retry, 2);
        assert(sse::data_lines(lines, 1) =~= seq![]);
    }
}

// ---------------------------------------------------------------------------
// Line breaks before a buffer
// ---------------------------------------------------------------------------

/// Nothing is cut from a text that does not begin with a line break, and line breaks before it are.
proof fn lemma_unbroken(breaks: Seq<char>, rest: Seq<char>)
    requires
        all_breaks(breaks),
        rest.len() > 0 ==> !CharClass::Break.has(rest[0]),
    ensures
        unbroken(breaks + rest) == rest,
    decreases breaks.len(),
{
    if breaks.len() == 0 {
        assert(breaks + rest =~= rest);
    } else {
        assert(CharClass::Break.has(breaks[0]));
        assert((breaks + rest).skip(1) =~= breaks.skip(1) + rest);
        assert(all_breaks(breaks.skip(1))) by {
            assert forall|i: int| 0 <= i < breaks.skip(1).len() implies CharClass::Break.has(
                #[trigger] breaks.skip(1)[i],
            ) by {
                assert(CharClass::Break.has(breaks[i + 1]));
            }
        }
        lemma_unbroken(breaks.skip(1), rest);
    }
}

/// Where the first blank line of a text stands that line breaks precede: it is among them, or it
/// is the first of the text.
proof fn lemma_blank_line_before(breaks: Seq<char>, rest: Seq<char>)
    requires
        all_breaks(breaks),
        rest.len() > 0 ==> !CharClass::Break.has(rest[0]),
    ensures
        match sse::blank_line(breaks + rest) {
            Some((at, n)) => 0 <= at && (at + n <= breaks.len() || (at >= breaks.len()
                && sse::blank_line(rest) == Some((at - breaks.len(), n)))),
            None => sse::blank_line(rest) is None,
        },
{
    reveal_strlit("\n\n");
    reveal_strlit("\r\n\r\n");
    let nl = "\n\n"@;
    let crlf = "\r\n\r\n"@;
    let s = breaks + rest;
    let k = breaks.len() as int;
    text::lemma_find_from(s, nl, 0);
    text::lemma_find_from(s, crlf, 0);
    text::lemma_find_from(rest, nl, 0);
    text::lemma_find_from(rest, crlf, 0);
    assert forall|j: int| text::occurs_at(rest, nl, j) implies text::occurs_at(s, nl, j + k) by {
        assert forall|i: int| 0 <= i < nl.len() implies s[j + k + i] == #[trigger] nl[i] by {
            assert(rest[j + i] == nl[i]);
        }
    }
    assert forall|j: int| text::occurs_at(rest, crlf, j) implies text::occurs_at(s, crlf, j + k) by {
        assert forall|i: int| 0 <= i < crlf.len() implies s[j + k + i] == #[trigger] crlf[i] by {
            assert(rest[j + i] == crlf[i]);
        }
    }
    assert forall|j: int| k <= j && text::occurs_at(s, nl, j) implies text::occurs_at(
        rest,
        nl,
        j - k,
    ) by {
        assert forall|i: int| 0 <= i < nl.len() implies rest[j - k + i] == #[trigger] nl[i] by {
            assert(s[j + i] == nl[i]);
        }
    }
    assert forall|j: int| k <= j && text::occurs_at(s, crlf, j) implies text::occurs_at(
        rest,
        crlf,
        j - k,
    ) by {
        assert forall|i: int| 0 <= i < crlf.len() implies rest[j - k + i] == #[trigger] crlf[i] by {
            assert(s[j + i] == crlf[i]);
        }
    }
    match sse::blank_line(s) {
        Some((at, n)) => {
            if at < k && at + n > k {
                assert(s[k] == rest[0]);
                if n == 2 {
                    assert(s[at + (k - at)] == nl[k - at]);
                } else {
                    assert(s[at + (k - at)] == crlf[k - at]);
                }
            }
        },
        None => {},
    }
}

/// Line breaks before a buffer do not matter, if they are whole lines.
proof fn lemma_breaks_before_buffer(
    memory: StreamMemory,
    breaks: Seq<char>,
    rest: Seq<char>,
    session_id: Seq<char>,
)
    requires
        all_breaks(breaks),
        rest.len() > 0 ==> !CharClass::Break.has(rest[0]),
        breaks.len() > 0 && rest.len() > 0 ==> breaks.last() == '\n',
    ensures
        stream::drained(memory, breaks + rest, session_id).step == stream::drained(
            memory,
            rest,
            session_id,
        ).step,
        unbroken(stream::drained(memory, breaks + rest, session_id).buffer) == unbroken(
            stream::drained(memory, rest, session_id).buffer,
        ),
{
    let s = breaks + rest;
    let k = breaks.len() as int;
    lemma_blank_line_before(breaks, rest);
    match sse::blank_line(s) {
        None => {
            lemma_unbroken(breaks, rest);
            lemma_unbroken(seq![], rest);
            assert(Seq::<char>::empty() + rest =~= rest);
        },
        Some((at, n)) => {
            if at + n <= k {
                let event = s.take(at);
                assert forall|i: int| 0 <= i < event.len() implies CharClass::Break.has(
                    #[trigger] event[i],
                ) by {
                    assert(CharClass::Break.has(breaks[i]));
                }
                lemma_breaks_silent(event);
                let tail = breaks.skip(at + n);
                assert(s.skip(at + n) =~= tail + rest);
                assert forall|i: int| 0 <= i < tail.len() implies CharClass::Break.has(
                    #[trigger] tail[i],
                ) by {
                    assert(CharClass::Break.has(breaks[at + n + i]));
                }
                lemma_unbroken(tail, rest);
                let later = stream::drained(memory, rest, session_id);
                assert(Seq::empty() + later.step.actions =~= later.step.actions);
            } else {
                lemma_blank_line_within(rest);
                let event = rest.take(at - k);
                assert(s.take(at) =~= breaks + event);
                lemma_breaks_before(breaks, event);
                assert(s.skip(at + n) =~= rest.skip(at - k + n));
            }
        },
    }
}

/// A blank line stands inside its text.
proof fn lemma_blank_line_within(s: Seq<char>)
    ensures
        match sse::blank_line(s) {
            Some((at, n)) => 0 <= at && at + n <= s.len() && n > 0,
            None => true,
        },
{
    reveal_strlit("\n\n");
    reveal_strlit("\r\n\r\n");
    text::lemma_find_from(s, "\n\n"@, 0);
    text::lemma_find_from(s, "\r\n\r\n"@, 0);
}

/// A blank line that is found is one.
proof fn lemma_blank_line_found(s: Seq<char>)
    ensures
        match sse::blank_line(s) {
            Some((at, n)) => blank_line_at(s, at),
            None => true,
        },
{
    text::lemma_find_from(s, "\n\n"@, 0);
    text::lemma_find_from(s, "\r\n\r\n"@, 0);
}

// ---------------------------------------------------------------------------
// Laws
// ---------------------------------------------------------------------------

/// What is left of a buffer after an event, when more arrives.
proof fn lemma_rest_with_more(after: Seq<char>, more: Seq<char>)
    ensures
        unbroken(after).len() > 0 ==> unbroken(after + more) == unbroken(after) + more,
        unbroken(after).len() == 0 ==> unbroken(after + more) == unbroken(more),
{
    let cut = sse::lemma_trimmed_start_of(after, CharClass::Break);
    let breaks = after.take(cut);
    let rest = after.skip(cut);
    if rest.len() > 0 {
        assert(!CharClass::Break.has(after[cut]));
        assert(after + more =~= breaks + (rest + more));
        lemma_unbroken(breaks, rest + more);
    } else {
        let c = sse::lemma_trimmed_start_of(more, CharClass::Break);
        let all = after + more.take(c);
        assert(after + more =~= all + more.skip(c));
        assert forall|i: int| 0 <= i < all.len() implies CharClass::Break.has(#[trigger] all[i]) by {
            if i < after.len() {
                assert(CharClass::Break.has(after[i]));
            } else {
                assert(CharClass::Break.has(more[i - after.len()]));
            }
        }
        lemma_unbroken(all, more.skip(c));
    }
}

/// It does not matter whether the rest of a stream is in the buffer already or arrives later: the
/// same is remembered, the same is to be done in the same order, and the reading ends the same
/// way. What is left in the buffer is the same but for line breaks at its start.
pub proof fn lemma_arrives_later(
    memory: StreamMemory,
    buffer: Seq<char>,
    more: Seq<char>,
    session_id: Seq<char>,
)
    requires
        no_stray_return(buffer + more),
    ensures
        ({
            let at_once = stream::drained(memory, buffer + more, session_id);
            let first = stream::drained(memory, buffer, session_id);
            let later = stream::drained(first.step.memory, first.buffer + more, session_id);
            if first.step.outcome is Some {
                at_once.step == first.step
            } else {
                &&& at_once.step == (Step {
                    actions: first.step.actions + later.step.actions,
                    ..later.step
                })
                &&& unbroken(at_once.buffer) == unbroken(later.buffer)
            }
        }),
    decreases buffer.len(),
{
    let all = buffer + more;
    let later = stream::drained(memory, all, session_id);
    match sse::first_event(buffer) {
        None => {
            assert(Seq::empty() + later.step.actions =~= later.step.actions);
        },
        Some(taken) => {
            let breaks = sse::lemma_event_consumes(buffer);
            sse::lemma_blank_line_stable(buffer, more);
            let (at, n) = sse::blank_line(buffer)->0;
            lemma_blank_line_within(buffer);
            let after = buffer.skip(at + n);
            assert(all.take(at) =~= buffer.take(at));
            assert(all.skip(at + n) =~= after + more);
            lemma_rest_with_more(after, more);
            let first = stream::event_step(memory, sse::event_of(taken.event), session_id);
            if first.outcome is None {
                if taken.rest.len() > 0 {
                    let start = all.len() - (taken.rest + more).len();
                    assert(taken.rest + more =~= all.skip(start));
                    lemma_stray_skip(all, start);
                    lemma_arrives_later(first.memory, taken.rest, more, session_id);
                    let inner = stream::drained(first.memory, taken.rest, session_id);
                    let end = stream::drained(
                        inner.step.memory,
                        inner.buffer + more,
                        session_id,
                    );
                    assert(first.actions + (inner.step.actions + end.step.actions) =~= (
                    first.actions + inner.step.actions) + end.step.actions);
                } else {
                    let cut = sse::lemma_trimmed_start_of(more, CharClass::Break);
                    assert(more =~= more.take(cut) + more.skip(cut));
                    if 0 < cut < more.len() {
                        lemma_blank_line_found(buffer);
                        assert(buffer.skip(at) =~= breaks);
                        lemma_run_ends(buffer, more, at, cut);
                    }
                    lemma_breaks_before_buffer(
                        first.memory,
                        more.take(cut),
                        more.skip(cut),
                        session_id,
                    );
                    assert(taken.rest =~= seq![]);
                    lemma_nothing_drained(first.memory, taken.rest, session_id);
                    assert(taken.rest + more =~= more);
                    let end = stream::drained(first.memory, more, session_id);
                    assert(first.actions + end.step.actions =~= (first.actions + Seq::empty())
                        + end.step.actions);
                }
            }
        },
    }
}

/// An empty buffer holds no event.
proof fn lemma_nothing_drained(memory: StreamMemory, buffer: Seq<char>, session_id: Seq<char>)
    requires
        buffer.len() == 0,
    ensures
        stream::drained(memory, buffer, session_id) == (Drained {
            step: Step { memory, actions: seq![], outcome: None },
            buffer,
        }),
{
    lemma_blank_line_within(buffer);
}

proof fn lemma_stray_skip(s: Seq<char>, k: int)
    requires
        0 <= k <= s.len(),
        no_stray_return(s),
    ensures
        no_stray_return(s.skip(k)),
{
    let rest = s.skip(k);
    assert forall|i: int|
        0 <= i < rest.len() - 1 && #[trigger] rest[i] == '\r' && blank_line_before(
            rest,
            i,
        ) implies CharClass::Break.has(rest[i + 1]) by {
        let j = choose|j: int| #[trigger]
            blank_line_at(rest, j) && j < i && all_breaks(rest.subrange(j, i));
        assert(rest.subrange(j, i) =~= s.subrange(j + k, i + k));
        lemma_occurs_skip(s, k, "\n\n"@, j);
        lemma_occurs_skip(s, k, "\r\n\r\n"@, j);
        assert(blank_line_at(s, j + k));
        assert(s[i + k] == '\r');
    }
}

proof fn lemma_occurs_skip(s: Seq<char>, k: int, p: Seq<char>, j: int)
    requires
        0 <= k <= s.len(),
    ensures
        text::occurs_at(s.skip(k), p, j) ==> text::occurs_at(s, p, j + k),
{
    if text::occurs_at(s.skip(k), p, j) {
        assert forall|i: int| 0 <= i < p.len() implies s[j + k + i] == #[trigger] p[i] by {
            assert(s.skip(k)[j + i] == p[i]);
        }
    }
}

/// The line breaks after a blank line that is the end of a buffer end in a line feed, where text
/// follows them.
proof fn lemma_run_ends(buffer: Seq<char>, more: Seq<char>, at: int, cut: int)
    requires
        no_stray_return(buffer + more),
        blank_line_at(buffer, at),
        all_breaks(buffer.skip(at)),
        0 < cut < more.len(),
        all_breaks(more.take(cut)),
        !CharClass::Break.has(more[cut]),
    ensures
        more.take(cut).last() == '\n',
{
    reveal_strlit("\n\n");
    reveal_strlit("\r\n\r\n");
    let all = buffer + more;
    let i = buffer.len() + cut - 1;
    let run = all.subrange(at, i);
    assert forall|m: int| 0 <= m < run.len() implies CharClass::Break.has(#[trigger] run[m]) by {
        if at + m < buffer.len() {
            assert(run[m] == buffer.skip(at)[m]);
        } else {
            assert(run[m] == more.take(cut)[at + m - buffer.len()]);
        }
    }
    if text::occurs_at(buffer, "\n\n"@, at) {
        sse::lemma_occurs_in_longer(buffer, more, "\n\n"@, at);
    } else {
        sse::lemma_occurs_in_longer(buffer, more, "\r\n\r\n"@, at);
    }
    assert(blank_line_at(all, at));
    assert(CharClass::Break.has(more.take(cut)[cut - 1]));
    assert(all[i] == more[cut - 1]);
    assert(all[i + 1] == more[cut]);
}

/// It does not matter where a stream is cut into pieces: reading it piece by piece comes to the
/// same as reading it at once. The same is remembered, the same is to be done in the same order,
/// and the reading ends the same way.
pub proof fn lemma_cuts_do_not_matter(
    memory: StreamMemory,
    buffer: Seq<char>,
    pieces: Seq<Seq<char>>,
    session_id: Seq<char>,
)
    requires
        no_stray_return(buffer + whole(pieces)),
    ensures
        read_pieces(memory, buffer, pieces, session_id).step == stream::drained(
            memory,
            buffer + whole(pieces),
            session_id,
        ).step,
    decreases pieces.len(),
{
    if pieces.len() == 0 {
        assert(buffer + whole(pieces) =~= buffer);
    } else {
        let start = buffer + pieces[0];
        let more = whole(pieces.skip(1));
        assert(buffer + whole(pieces) =~= start + more);
        lemma_arrives_later(memory, start, more, session_id);
        let first = stream::drained(memory, start, session_id);
        if first.step.outcome is None {
            lemma_left_over(memory, start, session_id);
            let cut = start.len() - first.buffer.len();
            assert(first.buffer + more =~= (start + more).skip(cut));
            lemma_stray_skip(start + more, cut);
            lemma_cuts_do_not_matter(
                first.step.memory,
                first.buffer,
                pieces.skip(1),
                session_id,
            );
        }
    }
}

/// What is left in a buffer is its end.
proof fn lemma_left_over(memory: StreamMemory, buffer: Seq<char>, session_id: Seq<char>)
    ensures
        ({
            let left = stream::drained(memory, buffer, session_id).buffer;
            &&& left.len() <= buffer.len()
            &&& left == buffer.skip(buffer.len() - left.len())
        }),
    decreases buffer.len(),
{
    match sse::first_event(buffer) {
        None => {
            assert(buffer.skip(0) =~= buffer);
        },
        Some(taken) => {
            let breaks = sse::lemma_event_consumes(buffer);
            assert(taken.rest =~= buffer.skip(buffer.len() - taken.rest.len()));
            let first = stream::event_step(memory, sse::event_of(taken.event), session_id);
            if first.outcome is None {
                lemma_left_over(first.memory, taken.rest, session_id);
                let left = stream::drained(first.memory, taken.rest, session_id).buffer;
                assert(left =~= buffer.skip(buffer.len() - left.len()));
            }
        },
    }
}

} // verus!
