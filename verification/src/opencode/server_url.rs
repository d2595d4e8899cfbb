//! Waiting for the OpenCode server to print the URL that it listens on.
use vstd::prelude::*;
use vstd::string::*;

use crate::opencode::error::ExecutorError;
use crate::text;

verus! {

/// The most bytes of output that are searched for the URL.
pub const SEARCH_BUF_MAX: usize = 65536;

/// The most bytes of output that are kept to tell of a failed start.
pub const OUTPUT_TAIL_MAX: usize = 16384;

/// The seconds that the server has to print its URL.
pub const STARTUP_TIMEOUT_SECS: u64 = 120;

/// The stream that a piece of output came from.
#[derive(Debug, Clone, Copy, PartialEq, Eq, Structural)]
pub enum StreamKind {
    Stdout,
    Stderr,
}

impl StreamKind {
    /// What is put before output of the stream.
    pub open spec fn label(self) -> Seq<char> {
        match self {
            StreamKind::Stdout => "[stdout] "@,
            StreamKind::Stderr => "[stderr] "@,
        }
    }
}

/// The URL in a text: what follows the last announcement, up to white space, where it begins like
/// a URL.
pub open spec fn url_in(buf: Seq<char>) -> Option<Seq<char>> {
    let prefix = "opencode server listening on "@;
    match text::rfind(buf, prefix) {
        None => None,
        Some(at) => {
            let after = buf.skip(at + prefix.len());
            let end = text::space_from(after, 0);
            if end >= after.len() {
                None
            } else {
                let url = text::trimmed(after.take(end));
                if text::occurs_at(url, "http://"@, 0) || text::occurs_at(url, "https://"@, 0) {
                    Some(url)
                } else {
                    None
                }
            }
        },
    }
}

/// The URL that a server announced in its output.
pub fn try_extract_url(buf: &str) -> (res: Option<String>)
    ensures
        res.deep_view() == url_in(buf@),
{
    let prefix = text::chars_of("opencode server listening on ");
    let cs = text::chars_of(buf);
    let n: usize = cs.len();
    let at = match text::rfind_chars(&cs, &prefix) {
        Some(at) => at,
        None => {
            return None;
        },
    };
    proof {
        text::lemma_rfind_to(buf@, prefix@, buf@.len() - prefix@.len());
    }
    let start: usize = at + prefix.len();
    let after = buf.substring_char(start, n);
    assert(after@ =~= buf@.skip(start as int));
    let rest = text::chars_of(after);
    let end = text::space_position(&rest, 0);
    if end >= rest.len() {
        return None;
    }
    let url = text::trim(after.substring_char(0, end));
    assert(after@.subrange(0, end as int) =~= after@.take(end as int));
    if text::str_starts_with(url, "http://") || text::str_starts_with(url, "https://") {
        Some(text::owned(url))
    } else {
        None
    }
}

/// A URL that is found in a server's output stands in it, holds no white space, and begins with
/// the scheme of a URL.
pub proof fn lemma_url_in(buf: Seq<char>)
    requires
        url_in(buf) is Some,
    ensures
        text::contains(buf, url_in(buf)->0),
        forall|i: int| 0 <= i < url_in(buf)->0.len() ==> !text::white_space(#[trigger] url_in(buf)->0[i]),
        text::occurs_at(url_in(buf)->0, "http://"@, 0) || text::occurs_at(
            url_in(buf)->0,
            "https://"@,
            0,
        ),
{
    let prefix = "opencode server listening on "@;
    let at = text::rfind(buf, prefix)->0;
    text::lemma_rfind_to(buf, prefix, buf.len() - prefix.len());
    let start = at + prefix.len();
    let after = buf.skip(start);
    let end = text::space_from(after, 0);
    text::lemma_space_from(after, 0);
    let url = after.take(end);
    lemma_trimmed_same(url);
    assert(text::occurs_at(buf, url, start)) by {
        assert(buf.subrange(start, start + url.len()) =~= url);
    }
}

/// A text without white space is not changed by trimming it.
proof fn lemma_trimmed_same(s: Seq<char>)
    requires
        forall|i: int| 0 <= i < s.len() ==> !text::white_space(#[trigger] s[i]),
    ensures
        text::trimmed(s) == s,
{
    if s.len() > 0 {
        assert(!text::white_space(s[0]));
        assert(!text::white_space(s[s.len() - 1]));
    }
}

/// What a server has printed so far, as far as it is kept.
#[derive(Debug, PartialEq)]
pub struct ServerUrlWait<S = String> {
    /// The end of the output, which is searched for the URL.
    pub search_buf: S,
    /// The end of the output with its streams marked, which tells of a failed start.
    pub output_tail: S,
}

impl DeepView for ServerUrlWait {
    type V = ServerUrlWait<Seq<char>>;

    open spec fn deep_view(&self) -> ServerUrlWait<Seq<char>> {
        ServerUrlWait { search_buf: self.search_buf@, output_tail: self.output_tail@ }
    }
}

impl ServerUrlWait<Seq<char>> {
    /// Whether no more is kept than is meant to be.
    pub open spec fn bounded(self) -> bool {
        &&& text::byte_len(self.search_buf) <= SEARCH_BUF_MAX
        &&& text::byte_len(self.output_tail) <= OUTPUT_TAIL_MAX
    }

    /// What is kept after a piece of output.
    pub open spec fn after(self, kind: StreamKind, chunk: Seq<char>) -> ServerUrlWait<Seq<char>> {
        ServerUrlWait {
            search_buf: text::front_truncated(self.search_buf + chunk, SEARCH_BUF_MAX as int),
            output_tail: text::front_truncated(
                self.output_tail + kind.label() + chunk,
                OUTPUT_TAIL_MAX as int,
            ),
        }
    }
}

impl ServerUrlWait {
    /// Nothing printed yet.
    pub fn new() -> (res: Self)
        ensures
            res.deep_view() == (ServerUrlWait { search_buf: ""@, output_tail: ""@ }),
            res.deep_view().bounded(),
    {
        proof {
            reveal_strlit("");
            assert(""@ =~= Seq::<char>::empty());
        }
        ServerUrlWait { search_buf: text::owned(""), output_tail: text::owned("") }
    }

    /// Takes a piece of output, and gives the URL once the server has announced it.
    pub fn on_output(&mut self, kind: StreamKind, chunk: &str) -> (res: Option<String>)
        ensures
            final(self).deep_view() == old(self).deep_view().after(kind, chunk@),
            final(self).deep_view().bounded(),
            res.deep_view() == url_in(final(self).search_buf@),
    {
        let searched = text::cat2(self.search_buf.as_str(), chunk);
        self.search_buf = text::truncate_front_to_max(searched.as_str(), SEARCH_BUF_MAX);
        let label = match kind {
            StreamKind::Stdout => "[stdout] ",
            StreamKind::Stderr => "[stderr] ",
        };
        let tail = text::cat3(self.output_tail.as_str(), label, chunk);
        self.output_tail = text::truncate_front_to_max(tail.as_str(), OUTPUT_TAIL_MAX);
        proof {
            text::lemma_front_truncated(searched@, SEARCH_BUF_MAX as int);
            text::lemma_front_truncated(tail@, OUTPUT_TAIL_MAX as int);
        }
        try_extract_url(self.search_buf.as_str())
    }

    /// What is wrong where the time for the start is over.
    pub fn timed_out(&self) -> (res: ExecutorError)
        ensures
            res.deep_view() == ExecutorError::Io(
                "Timed out waiting for OpenCode server to print listening URL.\nServer output tail:\n"@
                    + text::trimmed(self.output_tail@),
            ),
    {
        ExecutorError::Io(
            text::cat2(
                "Timed out waiting for OpenCode server to print listening URL.\nServer output tail:\n",
                text::trim(self.output_tail.as_str()),
            ),
        )
    }

    /// What is wrong where the output ended.
    pub fn exited(&self) -> (res: ExecutorError)
        ensures
            res.deep_view() == ExecutorError::Io(
                "OpenCode server exited before printing listening URL.\nServer output tail:\n"@
                    + text::trimmed(self.output_tail@),
            ),
    {
        ExecutorError::Io(
            text::cat2(
                "OpenCode server exited before printing listening URL.\nServer output tail:\n",
                text::trim(self.output_tail.as_str()),
            ),
        )
    }
}

/// The text of a piece of output, or of the error in reading it.
pub fn output_text(chunk: Result<Vec<u8>, String>) -> (res: String)
    ensures
        res@ == match chunk {
            Ok(bytes) => text::lossy_text(bytes@),
            Err(e) => "[read error] "@ + e@,
        },
{
    match chunk {
        Ok(bytes) => text::from_utf8_lossy(&bytes),
        Err(e) => text::cat2("[read error] ", e.as_str()),
    }
}

/// What was printed, one piece after the other, whatever the streams.
pub open spec fn printed(pieces: Seq<(StreamKind, Seq<char>)>) -> Seq<char>
    decreases pieces.len(),
{
    if pieces.len() == 0 {
        ""@
    } else {
        printed(pieces.drop_last()) + pieces.last().1
    }
}

/// What is kept after pieces of output.
pub open spec fn kept_of(pieces: Seq<(StreamKind, Seq<char>)>) -> ServerUrlWait<Seq<char>>
    decreases pieces.len(),
{
    if pieces.len() == 0 {
        ServerUrlWait { search_buf: ""@, output_tail: ""@ }
    } else {
        kept_of(pieces.drop_last()).after(pieces.last().0, pieces.last().1)
    }
}

/// It does not matter where the output is cut into pieces, nor which stream they come from: as
/// long as no more was printed than is searched, all of it is searched.
pub proof fn lemma_all_is_searched(pieces: Seq<(StreamKind, Seq<char>)>)
    requires
        text::byte_len(printed(pieces)) <= SEARCH_BUF_MAX,
    ensures
        kept_of(pieces).search_buf == printed(pieces),
    decreases pieces.len(),
{
    if pieces.len() > 0 {
        text::lemma_byte_len_concat(printed(pieces.drop_last()), pieces.last().1);
        lemma_all_is_searched(pieces.drop_last());
    }
}

proof fn lemma_mark_stands(before: Seq<char>, mark: Seq<char>, tail: Seq<char>)
    ensures
        text::occurs_at(before + mark + tail, mark, before.len() as int),
        (before + mark + tail).skip(before.len() as int + mark.len()) == tail,
{
    let buf = before + mark + tail;
    assert forall|k: int| 0 <= k < mark.len() implies buf[before.len() + k] == #[trigger] mark[k] by {}
    assert(buf.skip(before.len() as int + mark.len()) =~= tail);
}

proof fn lemma_last_mark(buf: Seq<char>, mark: Seq<char>, at: int)
    requires
        text::occurs_at(buf, mark, at),
        forall|j: int| j > at ==> !(#[trigger] text::occurs_at(buf, mark, j)),
    ensures
        text::rfind(buf, mark) == Some(at),
{
    text::lemma_rfind_to(buf, mark, buf.len() - mark.len());
}

proof fn lemma_up_to_space(url: Seq<char>, space: char, after: Seq<char>)
    requires
        forall|i: int| 0 <= i < url.len() ==> !text::white_space(#[trigger] url[i]),
        text::white_space(space),
    ensures
        ({
            let rest = url + seq![space] + after;
            &&& text::space_from(rest, 0) == url.len()
            &&& url.len() < rest.len()
            &&& rest.take(url.len() as int) == url
        }),
{
    let rest = url + seq![space] + after;
    let end = text::space_from(rest, 0);
    text::lemma_space_from(rest, 0);
    assert(rest[url.len() as int] == space);
    if end < url.len() {
        assert(rest[end] == url[end]);
    }
    assert(rest.take(url.len() as int) =~= url);
}

/// The URL that a server announces is found: what stands between the last announcement and the
/// white space after it.
pub proof fn lemma_announced_url(before: Seq<char>, url: Seq<char>, space: char, after: Seq<char>)
    requires
        text::occurs_at(url, "http://"@, 0) || text::occurs_at(url, "https://"@, 0),
        forall|i: int| 0 <= i < url.len() ==> !text::white_space(#[trigger] url[i]),
        text::white_space(space),
        forall|j: int|
            j > before.len() ==> !(#[trigger] text::occurs_at(
                before + "opencode server listening on "@ + (url + seq![space] + after),
                "opencode server listening on "@,
                j,
            )),
    ensures
        url_in(before + "opencode server listening on "@ + (url + seq![space] + after)) == Some(
            url,
        ),
{
    let mark = "opencode server listening on "@;
    let rest = url + seq![space] + after;
    lemma_mark_stands(before, mark, rest);
    lemma_last_mark(before + mark + rest, mark, before.len() as int);
    lemma_up_to_space(url, space, after);
    lemma_trimmed_same(url);
}

/// What tells of a failed start holds each piece of output after the mark of its stream, as long as
/// there is room.
pub proof fn lemma_streams_are_marked(wait: ServerUrlWait<Seq<char>>, chunk: Seq<char>)
    ensures
        text::byte_len(wait.output_tail + "[stdout] "@ + chunk) <= OUTPUT_TAIL_MAX ==> wait.after(
            StreamKind::Stdout,
            chunk,
        ).output_tail == wait.output_tail + "[stdout] "@ + chunk,
        text::byte_len(wait.output_tail + "[stderr] "@ + chunk) <= OUTPUT_TAIL_MAX ==> wait.after(
            StreamKind::Stderr,
            chunk,
        ).output_tail == wait.output_tail + "[stderr] "@ + chunk,
{
}

} // verus!
