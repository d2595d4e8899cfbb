//! Comments in the order in which they were made.
use vstd::prelude::*;

use crate::git_host::types::UnifiedPrComment;
use crate::time::Timestamp;

verus! {

/// How many of the comments from the `i`-th on come before the first that was made after `t`.
pub open spec fn place_from<S>(s: Seq<UnifiedPrComment<S>>, t: Timestamp, i: int) -> int
    decreases s.len() - i,
{
    if i < 0 || i >= s.len() || t.earlier(s[i].made_at()) {
        i
    } else {
        place_from(s, t, i + 1)
    }
}

/// The comments in the order in which they were made; those of one instant keep their order.
pub open spec fn by_date<S>(s: Seq<UnifiedPrComment<S>>) -> Seq<UnifiedPrComment<S>>
    decreases s.len(),
{
    if s.len() == 0 {
        s
    } else {
        let rest = by_date(s.drop_last());
        rest.insert(place_from(rest, s.last().made_at(), 0), s.last())
    }
}

/// Whether no comment was made before one that precedes it.
pub open spec fn in_order<S>(s: Seq<UnifiedPrComment<S>>) -> bool {
    forall|i: int, j: int| 0 <= i <= j < s.len() ==> !s[j].made_at().earlier(s[i].made_at())
}

/// The comments that were made at one instant, in order.
pub open spec fn made_at<S>(s: Seq<UnifiedPrComment<S>>, t: Timestamp) -> Seq<UnifiedPrComment<S>>
    decreases s.len(),
{
    if s.len() == 0 {
        s
    } else if s.last().made_at() == t {
        made_at(s.drop_last(), t).push(s.last())
    } else {
        made_at(s.drop_last(), t)
    }
}

proof fn lemma_place_from<S>(s: Seq<UnifiedPrComment<S>>, t: Timestamp, i: int)
    requires
        0 <= i <= s.len(),
    ensures
        i <= place_from(s, t, i) <= s.len(),
        forall|j: int| i <= j < place_from(s, t, i) ==> !t.earlier(s[j].made_at()),
        place_from(s, t, i) < s.len() ==> t.earlier(s[place_from(s, t, i)].made_at()),
    decreases s.len() - i,
{
    if i < s.len() && !t.earlier(s[i].made_at()) {
        lemma_place_from(s, t, i + 1);
    }
}

/// Sorting loses no comment and adds none: the sorted comments are as many of each as before.
pub proof fn lemma_by_date_same<S>(s: Seq<UnifiedPrComment<S>>)
    ensures
        by_date(s).to_multiset() == s.to_multiset(),
        by_date(s).len() == s.len(),
    decreases s.len(),
{
    broadcast use vstd::seq_lib::group_to_multiset_ensures;

    if s.len() > 0 {
        let rest = by_date(s.drop_last());
        let at = place_from(rest, s.last().made_at(), 0);
        lemma_by_date_same(s.drop_last());
        lemma_place_from(rest, s.last().made_at(), 0);
        vstd::seq_lib::to_multiset_insert(rest, at, s.last());
        assert(s.drop_last().push(s.last()) =~= s);
    }
}

/// Whoever is among the sorted comments was among them before, and the other way round.
pub proof fn lemma_by_date_members<S>(s: Seq<UnifiedPrComment<S>>, c: UnifiedPrComment<S>)
    ensures
        by_date(s).contains(c) <==> s.contains(c),
{
    broadcast use vstd::seq_lib::group_to_multiset_ensures;

    lemma_by_date_same(s);
    assert(by_date(s).contains(c) <==> by_date(s).to_multiset().count(c) > 0);
    assert(s.contains(c) <==> s.to_multiset().count(c) > 0);
}

/// Sorted comments are in the order in which they were made.
pub proof fn lemma_by_date_in_order<S>(s: Seq<UnifiedPrComment<S>>)
    ensures
        in_order(by_date(s)),
    decreases s.len(),
{
    if s.len() > 0 {
        let rest = by_date(s.drop_last());
        let c = s.last();
        let at = place_from(rest, c.made_at(), 0);
        lemma_by_date_in_order(s.drop_last());
        lemma_place_from(rest, c.made_at(), 0);
        let out = rest.insert(at, c);
        assert forall|i: int, j: int| 0 <= i <= j < out.len() implies !out[j].made_at().earlier(
            out[i].made_at(),
        ) by {
            let ri = if i < at { i } else { i - 1 };
            let rj = if j < at { j } else { j - 1 };
            if i == at && j > at {
                assert(out[j] == rest[j - 1]);
                assert(!rest[j - 1].made_at().earlier(rest[at].made_at()));
            } else if j == at && i < at {
                assert(out[i] == rest[i]);
            } else if i != at && j != at {
                assert(out[i] == rest[ri] && out[j] == rest[rj]);
            }
        }
    }
}

proof fn lemma_made_at_insert<S>(
    s: Seq<UnifiedPrComment<S>>,
    at: int,
    c: UnifiedPrComment<S>,
    t: Timestamp,
)
    requires
        0 <= at <= s.len(),
        forall|j: int| at <= j < s.len() ==> (#[trigger] s[j]).made_at() != c.made_at(),
    ensures
        made_at(s.insert(at, c), t) == if c.made_at() == t {
            made_at(s, t).push(c)
        } else {
            made_at(s, t)
        },
    decreases s.len(),
{
    let out = s.insert(at, c);
    if at == s.len() {
        assert(out.drop_last() =~= s);
    } else {
        assert(out.last() == s.last());
        assert(out.drop_last() =~= s.drop_last().insert(at, c));
        lemma_made_at_insert(s.drop_last(), at, c, t);
        assert(s[s.len() - 1].made_at() != c.made_at());
    }
}

/// Sorting keeps the order of the comments that were made at one instant.
pub proof fn lemma_by_date_stable<S>(s: Seq<UnifiedPrComment<S>>, t: Timestamp)
    ensures
        made_at(by_date(s), t) == made_at(s, t),
    decreases s.len(),
{
    if s.len() > 0 {
        let rest = by_date(s.drop_last());
        let c = s.last();
        let at = place_from(rest, c.made_at(), 0);
        lemma_by_date_stable(s.drop_last(), t);
        lemma_by_date_in_order(s.drop_last());
        lemma_place_from(rest, c.made_at(), 0);
        assert forall|j: int| at <= j < rest.len() implies (#[trigger] rest[j]).made_at()
            != c.made_at() by {
            assert(!rest[j].made_at().earlier(rest[at].made_at()));
        }
        lemma_made_at_insert(rest, at, c, t);
    }
}

/// Sorts comments by the instant at which they were made.
pub fn sort_by_date(comments: Vec<UnifiedPrComment>) -> (res: Vec<UnifiedPrComment>)
    ensures
        res.deep_view() == by_date(comments.deep_view()),
{
    let ghost all = comments.deep_view();
    let mut rest: Vec<UnifiedPrComment> = comments;
    let mut out: Vec<UnifiedPrComment> = Vec::new();
    let mut taken: Ghost<int> = Ghost(0);
    while rest.len() > 0
        invariant
            0 <= taken@ <= all.len(),
            rest.deep_view() == all.skip(taken@),
            out.deep_view() == by_date(all.take(taken@)),
        decreases rest@.len(),
    {
        let ghost before = out.deep_view();
        let ghost left = rest.deep_view();
        let c = rest.remove(0);
        let t = c.created_at();
        let mut i: usize = 0;
        while i < out.len() && !t.is_before(out[i].created_at())
            invariant
                i <= out@.len(),
                out.deep_view() == before,
                place_from(before, t, 0) == place_from(before, t, i as int),
            decreases out@.len() - i,
        {
            i = i + 1;
        }
        assert(place_from(before, t, 0) == i);
        out.insert(i, c);
        proof {
            assert(out.deep_view() =~= before.insert(i as int, c.deep_view()));
            assert(left[0] == c.deep_view());
            assert(rest.deep_view() =~= left.skip(1));
            assert(all.take(taken@ + 1).drop_last() =~= all.take(taken@));
            assert(all.take(taken@ + 1).last() == c.deep_view());
            assert(left.skip(1) =~= all.skip(taken@ + 1));
            taken@ = taken@ + 1;
        }
    }
    assert(all.take(taken@) =~= all);
    out
}

} // verus!
