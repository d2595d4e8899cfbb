//! The comments in the threads of a pull request on Azure DevOps.
use vstd::prelude::*;

use crate::decimal;
use crate::git_host::ordering;
use crate::git_host::types::UnifiedPrComment;
use crate::model;
use crate::process;
use crate::text;
use crate::time;
use crate::time::Timestamp;

verus! {

/// A thread in the answer of `az repos pr list-threads`.
pub struct AzThread<S = String> {
    pub comments: Option<Vec<AzThreadComment<S>>>,
    pub thread_context: Option<AzThreadContext<S>>,
}

/// The place in the code that a thread is about.
pub struct AzThreadContext<S = String> {
    pub file_path: Option<S>,
    pub right_file_start: Option<AzFilePosition>,
}

/// A position in a file.
#[derive(Clone, Copy)]
pub struct AzFilePosition {
    pub line: Option<i64>,
}

/// A comment in a thread.
pub struct AzThreadComment<S = String> {
    pub id: Option<i64>,
    pub author: Option<AzAuthor<S>>,
    pub content: Option<S>,
    pub published_date: Option<S>,
    pub comment_type: Option<S>,
}

/// The author of a comment.
pub struct AzAuthor<S = String> {
    pub display_name: Option<S>,
}

/// A comment that a person made, and where it stands.
pub struct ThreadComment<S = String> {
    pub path: Option<S>,
    pub line: Option<i64>,
    pub id: i64,
    pub author: S,
    pub body: S,
    pub published: Option<S>,
}

impl DeepView for ThreadComment {
    type V = ThreadComment<Seq<char>>;

    open spec fn deep_view(&self) -> ThreadComment<Seq<char>> {
        ThreadComment {
            path: self.path.deep_view(),
            line: self.line,
            id: self.id,
            author: self.author@,
            body: self.body@,
            published: self.published.deep_view(),
        }
    }
}

impl AzThread {
    /// The file that the thread is about.
    pub open spec fn path(self) -> Option<Seq<char>> {
        match self.thread_context {
            Some(c) => c.file_path.deep_view(),
            None => None,
        }
    }

    /// The line that the thread is about.
    pub open spec fn line(self) -> Option<i64> {
        match self.thread_context {
            Some(c) => match c.right_file_start {
                Some(p) => p.line,
                None => None,
            },
            None => None,
        }
    }

    /// The comments of the thread.
    pub open spec fn all(self) -> Seq<AzThreadComment> {
        match self.comments {
            Some(c) => c@,
            None => seq![],
        }
    }

    /// The comments from the `i`-th on that the system did not make.
    pub open spec fn kept_from(self, i: int) -> Seq<ThreadComment<Seq<char>>>
        decreases self.all().len() - i,
    {
        if i < 0 || i >= self.all().len() {
            seq![]
        } else if self.all()[i].comment_type.deep_view() == Some("system"@) {
            self.kept_from(i + 1)
        } else {
            let c = self.all()[i];
            seq![
                ThreadComment {
                    path: self.path(),
                    line: self.line(),
                    id: model::value_or(c.id, 0),
                    author: match c.author {
                        Some(a) => model::value_or(a.display_name.deep_view(), "unknown"@),
                        None => "unknown"@,
                    },
                    body: model::value_or(c.content.deep_view(), seq![]),
                    published: c.published_date.deep_view(),
                },
            ] + self.kept_from(i + 1)
        }
    }
}

/// The comments of the threads from the `i`-th on that the system did not make, in order.
pub open spec fn kept_from(threads: Seq<AzThread>, i: int) -> Seq<ThreadComment<Seq<char>>>
    decreases threads.len() - i,
{
    if i < 0 || i >= threads.len() {
        seq![]
    } else {
        threads[i].kept_from(0) + kept_from(threads, i + 1)
    }
}

impl ThreadComment<Seq<char>> {
    /// The comment in the form that all platforms share: one on the code where it has a path. The
    /// given instant stands for a date that is missing or cannot be read.
    pub open spec fn unified(self, now: Timestamp) -> UnifiedPrComment<Seq<char>> {
        let created_at = model::value_or(time::opt_instant_of(self.published), now);
        match self.path {
            Some(path) => UnifiedPrComment::Review {
                id: self.id,
                author: self.author,
                author_association: seq![],
                body: self.body,
                created_at,
                url: seq![],
                path,
                line: self.line,
                diff_hunk: seq![],
            },
            None => UnifiedPrComment::General {
                id: decimal::decimal(self.id as int),
                author: self.author,
                author_association: seq![],
                body: self.body,
                created_at,
                url: seq![],
            },
        }
    }
}

/// Each comment in the form that all platforms share, with an instant for each date that is
/// missing.
pub open spec fn unified_all(kept: Seq<ThreadComment<Seq<char>>>, nows: Seq<Timestamp>) -> Seq<
    UnifiedPrComment<Seq<char>>,
> {
    Seq::new(kept.len(), |i: int| kept[i].unified(nows[i]))
}

fn keep_thread(thread: &AzThread, out: &mut Vec<ThreadComment>)
    ensures
        final(out).deep_view() == old(out).deep_view() + thread.kept_from(0),
{
    let comments = match &thread.comments {
        Some(c) => c,
        None => {
            assert(old(out).deep_view() + thread.kept_from(0) =~= old(out).deep_view());
            return;
        },
    };
    let path: Option<String> = match &thread.thread_context {
        Some(c) => process::copy_opt(&c.file_path),
        None => None,
    };
    let line: Option<i64> = match &thread.thread_context {
        Some(c) => match &c.right_file_start {
            Some(p) => p.line,
            None => None,
        },
        None => None,
    };
    assert(out.deep_view() + thread.kept_from(0) =~= old(out).deep_view() + thread.kept_from(0));
    for i in 0..comments.len()
        invariant
            thread.comments == Some(*comments),
            thread.all() == comments@,
            path.deep_view() == thread.path(),
            line == thread.line(),
            old(out).deep_view() + thread.kept_from(0) == out.deep_view() + thread.kept_from(
                i as int,
            ),
    {
        let c = &comments[i];
        if !text::opt_str_eq(process::borrow_opt(&c.comment_type), "system") {
            let author = match &c.author {
                Some(a) => match &a.display_name {
                    Some(n) => n.clone(),
                    None => text::owned("unknown"),
                },
                None => text::owned("unknown"),
            };
            let kept = ThreadComment {
                path: process::copy_opt(&path),
                line,
                id: match c.id {
                    Some(id) => id,
                    None => 0,
                },
                author,
                body: match &c.content {
                    Some(b) => b.clone(),
                    None => String::new(),
                },
                published: process::copy_opt(&c.published_date),
            };
            let ghost before = out.deep_view();
            out.push(kept);
            assert(out.deep_view() == before.push(kept.deep_view()));
            assert(thread.kept_from(i as int) == seq![kept.deep_view()] + thread.kept_from(i + 1));
            assert(out.deep_view() + thread.kept_from(i + 1) =~= before + thread.kept_from(i as int));
        }
    }
    assert(out.deep_view() + thread.kept_from(comments@.len() as int) =~= out.deep_view());
}

/// The comments of threads that the system did not make, in order.
pub fn keep_comments(threads: &Vec<AzThread>) -> (res: Vec<ThreadComment>)
    ensures
        res.deep_view() == kept_from(threads@, 0),
{
    let mut out: Vec<ThreadComment> = Vec::new();
    assert(out.deep_view() + kept_from(threads@, 0) =~= kept_from(threads@, 0));
    for i in 0..threads.len()
        invariant
            kept_from(threads@, 0) == out.deep_view() + kept_from(threads@, i as int),
    {
        let ghost before = out.deep_view();
        keep_thread(&threads[i], &mut out);
        assert(out.deep_view() + kept_from(threads@, i + 1) =~= before + kept_from(
            threads@,
            i as int,
        ));
    }
    assert(out.deep_view() + kept_from(threads@, threads@.len() as int) =~= out.deep_view());
    out
}

/// A comment in the form that all platforms share. The given instant stands for a date that is
/// missing or cannot be read.
pub fn unify(c: ThreadComment, now: Timestamp) -> (res: UnifiedPrComment)
    ensures
        res.deep_view() == c.deep_view().unified(now),
        c.path is Some <==> res is Review,
        res matches UnifiedPrComment::General { id, author, body, url, .. } ==> {
            &&& id@ == decimal::decimal(c.id as int)
            &&& author == c.author
            &&& body == c.body
            &&& url@.len() == 0
        },
        res matches UnifiedPrComment::Review { id, author, body, path, line, url, .. } ==> {
            &&& id == c.id
            &&& author == c.author
            &&& body == c.body
            &&& Some(path) == c.path
            &&& line == c.line
            &&& url@.len() == 0
        },
{
    let created_at = time::parse_rfc3339_or(process::borrow_opt(&c.published), now);
    match c.path {
        Some(path) => UnifiedPrComment::Review {
            id: c.id,
            author: c.author,
            author_association: String::new(),
            body: c.body,
            created_at,
            url: String::new(),
            path,
            line: c.line,
            diff_hunk: String::new(),
        },
        None => UnifiedPrComment::General {
            id: decimal::i64_to_string(c.id),
            author: c.author,
            author_association: String::new(),
            body: c.body,
            created_at,
            url: String::new(),
        },
    }
}

/// Whether the system made a comment.
pub open spec fn by_system(c: AzThreadComment) -> bool {
    c.comment_type matches Some(t) && t@ == "system"@
}

/// Whether a comment in the form that all platforms share says what the `i`-th comment of a thread
/// does: who made it, what it says, its number and its date, and the place that the thread is
/// about.
pub open spec fn tells(res: UnifiedPrComment<Seq<char>>, thread: AzThread, i: int) -> bool {
    let c = thread.comments->0@[i];
    let named = c.author is Some && c.author->0.display_name is Some;
    let name = if named {
        c.author->0.display_name->0@
    } else {
        "unknown"@
    };
    let said = if c.content is Some {
        c.content->0@
    } else {
        seq![]
    };
    let number = if c.id is Some {
        c.id->0
    } else {
        0
    };
    let placed = thread.thread_context is Some && thread.thread_context->0.file_path is Some;
    &&& thread.comments is Some && 0 <= i < thread.comments->0@.len()
    &&& c.published_date matches Some(d) ==> (time::instant_of(d@) matches Some(t) ==> res.made_at()
        == t)
    &&& match res {
        UnifiedPrComment::General { id, author, body, .. } => {
            &&& !placed
            &&& id == decimal::decimal(number as int)
            &&& author == name
            &&& body == said
        },
        UnifiedPrComment::Review { id, author, body, path, line, .. } => {
            &&& placed
            &&& id == number
            &&& author == name
            &&& body == said
            &&& path == thread.thread_context->0.file_path->0@
            &&& line == match thread.thread_context->0.right_file_start {
                Some(p) => p.line,
                None => None,
            }
        },
    }
}

/// The comments on a pull request, by its threads; an instant stands for each date that is missing.
pub open spec fn comments_of(threads: Seq<AzThread>, nows: Seq<Timestamp>) -> Seq<
    UnifiedPrComment<Seq<char>>,
> {
    ordering::by_date(unified_all(kept_from(threads, 0), nows))
}

/// Whether a comment that was kept says what the `i`-th comment of a thread does.
spec fn stands_for(kept: ThreadComment<Seq<char>>, thread: AzThread, i: int) -> bool {
    &&& 0 <= i < thread.all().len()
    &&& !by_system(thread.all()[i])
    &&& forall|now: Timestamp| #[trigger] tells(kept.unified(now), thread, i)
}

proof fn lemma_thread_told(thread: AzThread, from: int, k: int)
    requires
        0 <= from,
        0 <= k < thread.kept_from(from).len(),
    ensures
        exists|i: int| #[trigger] stands_for(thread.kept_from(from)[k], thread, i),
    decreases thread.all().len() - from,
{
    let kept = thread.kept_from(from)[k];
    let rest = thread.kept_from(from + 1);
    if thread.all()[from].comment_type.deep_view() == Some("system"@) {
        lemma_thread_told(thread, from + 1, k);
    } else if k == 0 {
        assert(stands_for(kept, thread, from));
    } else {
        assert(kept == rest[k - 1]);
        lemma_thread_told(thread, from + 1, k - 1);
    }
}

proof fn lemma_all_told(threads: Seq<AzThread>, from: int, k: int)
    requires
        0 <= from,
        0 <= k < kept_from(threads, from).len(),
    ensures
        exists|t: int, i: int|
            0 <= t < threads.len() && #[trigger] stands_for(
                kept_from(threads, from)[k],
                threads[t],
                i,
            ),
    decreases threads.len() - from,
{
    let first = threads[from].kept_from(0);
    let kept = kept_from(threads, from)[k];
    if k < first.len() {
        lemma_thread_told(threads[from], 0, k);
        assert(kept == first[k]);
        let i = choose|i: int| #[trigger] stands_for(first[k], threads[from], i);
        assert(stands_for(kept, threads[from], i));
    } else {
        assert(kept == kept_from(threads, from + 1)[k - first.len()]);
        lemma_all_told(threads, from + 1, k - first.len());
    }
}

proof fn lemma_kept_in_thread(thread: AzThread, from: int, i: int)
    requires
        0 <= from <= i < thread.all().len(),
        !by_system(thread.all()[i]),
    ensures
        exists|k: int|
            0 <= k < thread.kept_from(from).len() && stands_for(
                #[trigger] thread.kept_from(from)[k],
                thread,
                i,
            ),
    decreases i - from,
{
    let kept = thread.kept_from(from);
    let rest = thread.kept_from(from + 1);
    if from == i {
        assert(stands_for(kept[0], thread, i));
    } else {
        lemma_kept_in_thread(thread, from + 1, i);
        let k = choose|k: int| 0 <= k < rest.len() && stands_for(#[trigger] rest[k], thread, i);
        if by_system(thread.all()[from]) {
            assert(kept == rest);
        } else {
            assert(kept[k + 1] == rest[k]);
        }
    }
}

proof fn lemma_kept_in_all(threads: Seq<AzThread>, from: int, t: int, i: int)
    requires
        0 <= from <= t < threads.len(),
        0 <= i < threads[t].all().len(),
        !by_system(threads[t].all()[i]),
    ensures
        exists|k: int|
            0 <= k < kept_from(threads, from).len() && stands_for(
                #[trigger] kept_from(threads, from)[k],
                threads[t],
                i,
            ),
    decreases t - from,
{
    let kept = kept_from(threads, from);
    let first = threads[from].kept_from(0);
    if from == t {
        lemma_kept_in_thread(threads[t], 0, i);
        let k = choose|k: int|
            0 <= k < first.len() && stands_for(#[trigger] first[k], threads[t], i);
        assert(kept[k] == first[k]);
    } else {
        lemma_kept_in_all(threads, from + 1, t, i);
        let rest = kept_from(threads, from + 1);
        let k = choose|k: int| 0 <= k < rest.len() && stands_for(#[trigger] rest[k], threads[t], i);
        assert(kept[k + first.len()] == rest[k]);
    }
}

/// Every comment that comes back, in the conversation or on the code, is one that was made in a
/// thread and not by the system: it has that comment's author, text, number and date.
pub proof fn lemma_comments_were_made(threads: Seq<AzThread>, nows: Seq<Timestamp>, n: int)
    requires
        0 <= n < comments_of(threads, nows).len(),
    ensures
        exists|t: int, i: int|
            0 <= t < threads.len() && #[trigger] tells(
                comments_of(threads, nows)[n],
                threads[t],
                i,
            ) && !by_system(threads[t].comments->0@[i]),
{
    let kept = kept_from(threads, 0);
    let all = unified_all(kept, nows);
    let c = comments_of(threads, nows)[n];
    ordering::lemma_by_date_members(all, c);
    let k = choose|k: int| 0 <= k < all.len() && #[trigger] all[k] == c;
    lemma_all_told(threads, 0, k);
    let (t, i) = choose|t: int, i: int|
        0 <= t < threads.len() && #[trigger] stands_for(kept[k], threads[t], i);
    assert(tells(kept[k].unified(nows[k]), threads[t], i));
}

/// Every comment that was made in a thread and not by the system comes back.
pub proof fn lemma_no_comment_is_lost(
    threads: Seq<AzThread>,
    nows: Seq<Timestamp>,
    t: int,
    i: int,
)
    requires
        0 <= t < threads.len(),
        threads[t].comments is Some,
        0 <= i < threads[t].comments->0@.len(),
        !by_system(threads[t].comments->0@[i]),
    ensures
        exists|n: int|
            0 <= n < comments_of(threads, nows).len() && tells(
                #[trigger] comments_of(threads, nows)[n],
                threads[t],
                i,
            ),
{
    let kept = kept_from(threads, 0);
    let all = unified_all(kept, nows);
    lemma_kept_in_all(threads, 0, t, i);
    let k = choose|k: int| 0 <= k < kept.len() && stands_for(#[trigger] kept[k], threads[t], i);
    assert(tells(kept[k].unified(nows[k]), threads[t], i));
    assert(all[k] == kept[k].unified(nows[k]));
    assert(all.contains(all[k]));
    ordering::lemma_by_date_members(all, all[k]);
    let n = choose|n: int|
        0 <= n < comments_of(threads, nows).len() && #[trigger] comments_of(threads, nows)[n]
            == all[k];
    assert(tells(comments_of(threads, nows)[n], threads[t], i));
}

/// Whether comments are those that were made in threads and not by the system: each of the ones says
/// what one of the others does.
pub open spec fn all_told(
    threads: Seq<AzThread>,
    comments: Seq<UnifiedPrComment<Seq<char>>>,
) -> bool {
    &&& forall|n: int|
        0 <= n < comments.len() ==> exists|t: int, i: int|
            0 <= t < threads.len() && tells(#[trigger] comments[n], #[trigger] threads[t], i)
                && !by_system(#[trigger] threads[t].comments->0@[i])
    &&& forall|t: int, i: int|
        0 <= t < threads.len() && threads[t].comments is Some && 0 <= i
            < threads[t].comments->0@.len() && !by_system(
            #[trigger] threads[t].comments->0@[i],
        ) ==> exists|n: int|
            0 <= n < comments.len() && tells(#[trigger] comments[n], threads[t], i)
}

/// The comments that come back are those that were made in the threads and not by the system.
pub proof fn lemma_all_comments_told(threads: Seq<AzThread>, nows: Seq<Timestamp>)
    ensures
        all_told(threads, comments_of(threads, nows)),
{
    let comments = comments_of(threads, nows);
    assert forall|n: int| 0 <= n < comments.len() implies exists|t: int, i: int|
        0 <= t < threads.len() && tells(#[trigger] comments[n], #[trigger] threads[t], i)
            && !by_system(#[trigger] threads[t].comments->0@[i]) by {
        lemma_comments_were_made(threads, nows, n);
        let (t, i) = choose|t: int, i: int|
            0 <= t < threads.len() && #[trigger] tells(comments[n], threads[t], i) && !by_system(
                threads[t].comments->0@[i],
            );
        assert(!by_system(threads[t].comments->0@[i]));
    }
    assert forall|t: int, i: int|
        0 <= t < threads.len() && threads[t].comments is Some && 0 <= i
            < threads[t].comments->0@.len() && !by_system(
            #[trigger] threads[t].comments->0@[i],
        ) implies exists|n: int|
        0 <= n < comments.len() && tells(#[trigger] comments[n], threads[t], i) by {
        lemma_no_comment_is_lost(threads, nows, t, i);
    }
}

/// How many comments of the threads from the `i`-th on the system did not make.
pub open spec fn count_from(threads: Seq<AzThread>, i: int) -> int
    decreases threads.len() - i,
{
    if i < 0 || i >= threads.len() {
        0
    } else {
        threads[i].all().filter(|c: AzThreadComment| !by_system(c)).len() + count_from(
            threads,
            i + 1,
        )
    }
}

proof fn lemma_count_in_thread(thread: AzThread, from: int)
    requires
        0 <= from <= thread.all().len(),
    ensures
        thread.kept_from(from).len() == thread.all().skip(from).filter(
            |c: AzThreadComment| !by_system(c),
        ).len(),
    decreases thread.all().len() - from,
{
    let person = |c: AzThreadComment| !by_system(c);
    let left = thread.all().skip(from);
    if from < thread.all().len() {
        lemma_count_in_thread(thread, from + 1);
        let one = seq![left[0]];
        assert(left =~= one + thread.all().skip(from + 1));
        Seq::filter_distributes_over_add(one, thread.all().skip(from + 1), person);
        assert(one.drop_last() =~= seq![]);
        reveal_with_fuel(Seq::filter, 2);
    } else {
        assert(left =~= seq![]);
        reveal(Seq::filter);
    }
}

proof fn lemma_count_in_all(threads: Seq<AzThread>, from: int)
    requires
        0 <= from <= threads.len(),
    ensures
        kept_from(threads, from).len() == count_from(threads, from),
    decreases threads.len() - from,
{
    if from < threads.len() {
        lemma_count_in_all(threads, from + 1);
        lemma_count_in_thread(threads[from], 0);
        assert(threads[from].all().skip(0) =~= threads[from].all());
    }
}

/// As many comments come back as were made by someone other than the system, each once.
pub proof fn lemma_comments_counted(threads: Seq<AzThread>, nows: Seq<Timestamp>)
    ensures
        comments_of(threads, nows).len() == count_from(threads, 0),
{
    lemma_count_in_all(threads, 0);
    ordering::lemma_by_date_same(unified_all(kept_from(threads, 0), nows));
}

} // verus!
