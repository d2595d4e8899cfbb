//! Laws of the URLs of pull requests on Azure DevOps.
use vstd::prelude::*;
use vstd::utf8::*;

use crate::decimal;
use crate::git_host::azure::cli;
use crate::text;

verus! {

/// The pieces of `https://dev.azure.com/{org}/{project}/_git/{repo}/pullrequest/{id}`.
pub open spec fn pr_url_pieces(
    host: Seq<char>,
    before_project: Seq<Seq<char>>,
    project: Seq<char>,
    repo: Seq<char>,
    id: i64,
) -> Seq<Seq<char>> {
    seq!["https:"@, ""@, host] + before_project + seq![
        project,
        "_git"@,
        repo,
        "pullrequest"@,
        decimal::decimal(id as int),
    ]
}

/// The URL of a pull request: `https://dev.azure.com/{org}/{project}/_git/{repo}/pullrequest/{id}`.
pub open spec fn pr_url(org: Seq<char>, project: Seq<char>, repo: Seq<char>, id: i64) -> Seq<char> {
    text::joined(pr_url_pieces("dev.azure.com"@, seq![org], project, repo, id), seq!['/'])
}

/// The URL of a pull request in its older form:
/// `https://{org}.visualstudio.com/{project}/_git/{repo}/pullrequest/{id}`.
pub open spec fn older_pr_url(org: Seq<char>, project: Seq<char>, repo: Seq<char>, id: i64) -> Seq<
    char,
> {
    text::joined(
        pr_url_pieces(org + ".visualstudio.com"@, seq![], project, repo, id),
        seq!['/'],
    )
}

/// Whether a text can stand for a name in the URL of a pull request.
pub open spec fn url_name(s: Seq<char>) -> bool {
    !s.contains('/') && s != "pullrequest"@
}

proof fn lemma_decimal_no_slash(n: int)
    ensures
        !decimal::decimal(n).contains('/'),
{
    if n < 0 {
        decimal::lemma_decimal_nat_is_digits((-n) as nat);
    } else {
        decimal::lemma_decimal_nat_is_digits(n as nat);
    }
}

proof fn lemma_literals()
    ensures
        !"https:"@.contains('/'),
        !""@.contains('/'),
        !"dev.azure.com"@.contains('/'),
        !"_git"@.contains('/'),
        !"pullrequest"@.contains('/'),
        "https:"@ != "pullrequest"@,
        ""@ != "pullrequest"@,
        "dev.azure.com"@ != "pullrequest"@,
        "_git"@ != "pullrequest"@,
        !".visualstudio.com"@.contains('/'),
{
    reveal_strlit("https:");
    reveal_strlit("");
    reveal_strlit("dev.azure.com");
    reveal_strlit("_git");
    reveal_strlit("pullrequest");
    reveal_strlit(".visualstudio.com");
    assert("https:"@.len() != "pullrequest"@.len());
    assert(""@.len() != "pullrequest"@.len());
    assert("dev.azure.com"@.len() != "pullrequest"@.len());
    assert("_git"@.len() != "pullrequest"@.len());
}

/// What stands in a piece stands in the text that the piece is joined into.
proof fn lemma_piece_in_joined(parts: Seq<Seq<char>>, sep: Seq<char>, i: int, p: Seq<char>)
    requires
        0 <= i < parts.len(),
        text::contains(parts[i], p),
    ensures
        text::contains(text::joined(parts, sep), p),
    decreases parts.len(),
{
    if parts.len() > 1 {
        let init = parts.drop_last();
        let head = text::joined(init, sep);
        let whole = head + sep + parts.last();
        if i == parts.len() - 1 {
            let at = choose|at: int| text::occurs_at(parts[i], p, at);
            let start = head.len() + sep.len();
            assert forall|k: int| 0 <= k < p.len() implies whole[start + at + k] == #[trigger] p[k] by {
                assert(parts[i][at + k] == p[k]);
            }
            assert(text::occurs_at(whole, p, start + at));
        } else {
            assert(init[i] == parts[i]);
            lemma_piece_in_joined(init, sep, i, p);
            let at = choose|at: int| text::occurs_at(head, p, at);
            assert forall|k: int| 0 <= k < p.len() implies whole[at + k] == #[trigger] p[k] by {
                assert(head[at + k] == p[k]);
            }
            assert(text::occurs_at(whole, p, at));
        }
    }
}

proof fn lemma_contains_itself(s: Seq<char>)
    ensures
        text::contains(s, s),
{
    assert(text::occurs_at(s, s, 0));
}

/// The pieces come out of the URL, the mark of a pull request stands in it, and the id comes right
/// after it.
proof fn lemma_pieces(
    host: Seq<char>,
    before_project: Seq<Seq<char>>,
    project: Seq<char>,
    repo: Seq<char>,
    id: i64,
)
    requires
        !host.contains('/'),
        host != "pullrequest"@,
        forall|i: int| 0 <= i < before_project.len() ==> url_name(#[trigger] before_project[i]),
        url_name(project),
        url_name(repo),
    ensures
        ({
            let pieces = pr_url_pieces(host, before_project, project, repo, id);
            let url = text::joined(pieces, seq!['/']);
            let mark = before_project.len() + 6;
            &&& text::split_on(url, '/') == pieces
            &&& text::contains(url, "/pullrequest/"@)
            &&& cli::part_from(pieces, "pullrequest"@, 0) == Some(mark as int)
            &&& pieces.len() == mark + 2
            &&& pieces[mark as int + 1] == decimal::decimal(id as int)
        }),
{
    lemma_literals();
    lemma_decimal_no_slash(id as int);
    let pieces = pr_url_pieces(host, before_project, project, repo, id);
    let n = before_project.len() as int;
    assert forall|i: int| 0 <= i < pieces.len() implies !(#[trigger] pieces[i]).contains('/') by {
        if 3 <= i < 3 + n {
            assert(pieces[i] == before_project[i - 3]);
        }
    }
    text::lemma_split_joined(pieces, '/');
    let mark = n + 6;
    assert forall|i: int| 0 <= i < mark implies (#[trigger] pieces[i]) != "pullrequest"@ by {
        if 3 <= i < 3 + n {
            assert(pieces[i] == before_project[i - 3]);
        }
    }
    lemma_part_from_is(pieces, "pullrequest"@, 0, mark);
    let slash = seq!['/'];
    let url = text::joined(pieces, slash);
    let front = pieces.drop_last().drop_last();
    let x = text::joined(front, slash);
    assert(pieces.drop_last().last() == "pullrequest"@);
    assert(text::joined(pieces.drop_last(), slash) == x + slash + "pullrequest"@);
    assert(url == (x + slash + "pullrequest"@) + slash + decimal::decimal(id as int));
    reveal_strlit("pullrequest");
    reveal_strlit("/pullrequest/");
    assert("/pullrequest/"@ =~= slash + "pullrequest"@ + slash);
    assert forall|k: int| 0 <= k < "/pullrequest/"@.len() implies url[x.len() + k]
        == #[trigger] "/pullrequest/"@[k] by {
        assert(url[x.len() + k] == (slash + "pullrequest"@ + slash)[k]);
    }
    assert(text::occurs_at(url, "/pullrequest/"@, x.len() as int));
}

proof fn lemma_part_from_is(parts: Seq<Seq<char>>, part: Seq<char>, i: int, k: int)
    requires
        0 <= i <= k < parts.len(),
        parts[k] == part,
        forall|j: int| i <= j < k ==> (#[trigger] parts[j]) != part,
    ensures
        cli::part_from(parts, part, i) == Some(k),
    decreases k - i,
{
    if i < k {
        lemma_part_from_is(parts, part, i + 1, k);
    }
}

proof fn lemma_holder_from_is(parts: Seq<Seq<char>>, p: Seq<char>, i: int, k: int)
    requires
        0 <= i <= k < parts.len(),
        text::contains(parts[k], p),
        forall|j: int| i <= j < k ==> !text::contains(#[trigger] parts[j], p),
    ensures
        cli::holder_from(parts, p, i) == Some(k),
    decreases k - i,
{
    if i < k {
        assert(!text::contains(parts[i], p));
        lemma_holder_from_is(parts, p, i + 1, k);
    }
}

/// A longer text does not stand in a shorter one.
proof fn lemma_too_long(s: Seq<char>, p: Seq<char>)
    requires
        s.len() < p.len(),
    ensures
        !text::contains(s, p),
{
}

/// What the literals in the URL of a pull request are like.
proof fn lemma_host_literals()
    ensures
        "https:"@.len() < "dev.azure.com"@.len(),
        ""@.len() < "dev.azure.com"@.len(),
        "https:"@.len() < ".visualstudio.com"@.len(),
        ""@.len() < ".visualstudio.com"@.len(),
        "pullrequest"@.len() < ".visualstudio.com"@.len(),
        ".visualstudio.com"@[0] == '.',
        text::ascii_lower("dev.azure.com"@) == "dev.azure.com"@,
        text::ascii_lower(".visualstudio.com"@) == ".visualstudio.com"@,
        text::ascii_lower("/pullrequest/"@) == "/pullrequest/"@,
{
    reveal_strlit("https:");
    reveal_strlit("");
    reveal_strlit("dev.azure.com");
    reveal_strlit(".visualstudio.com");
    reveal_strlit("pullrequest");
    reveal_strlit("/pullrequest/");
    assert(text::ascii_lower("dev.azure.com"@) =~= "dev.azure.com"@);
    assert(text::ascii_lower(".visualstudio.com"@) =~= ".visualstudio.com"@);
    assert(text::ascii_lower("/pullrequest/"@) =~= "/pullrequest/"@);
}

/// The organization and the id come back out of the URL of a pull request, whatever the names of
/// the organization, the project and the repository, as long as none of them is the mark that a
/// pull request is told by. `lower` is the URL in lower case, of which no more is needed than that
/// it shows the form of the URL.
pub proof fn lemma_pr_url_read_back(
    org: Seq<char>,
    project: Seq<char>,
    repo: Seq<char>,
    id: i64,
    lower: Seq<char>,
)
    requires
        url_name(org),
        url_name(project),
        url_name(repo),
        text::contains(lower, "/pullrequest/"@),
        text::contains(lower, "dev.azure.com"@),
    ensures
        cli::target_in(pr_url(org, project, repo, id), lower) == Some((org, id)),
{
    let host = "dev.azure.com"@;
    let pieces = pr_url_pieces(host, seq![org], project, repo, id);
    lemma_literals();
    lemma_host_literals();
    lemma_pieces(host, seq![org], project, repo, id);
    decimal::lemma_i64_read_back(id);
    assert(cli::holder_from(pieces, host, 0) == Some(2int)) by {
        lemma_too_long(pieces[0], host);
        lemma_too_long(pieces[1], host);
        lemma_contains_itself(host);
        lemma_holder_from_is(pieces, host, 0, 2);
    }
    assert(pieces[3] == org);
}

/// The marks that tell the form of a URL are ASCII, and in lower case.
pub proof fn lemma_marks_are_ascii()
    ensures
        is_ascii_chars("dev.azure.com"@),
        is_ascii_chars(".visualstudio.com"@),
        is_ascii_chars("/pullrequest/"@),
        text::ascii_lower("dev.azure.com"@) == "dev.azure.com"@,
        text::ascii_lower(".visualstudio.com"@) == ".visualstudio.com"@,
        text::ascii_lower("/pullrequest/"@) == "/pullrequest/"@,
{
    reveal_strlit("dev.azure.com");
    reveal_strlit(".visualstudio.com");
    reveal_strlit("/pullrequest/");
    lemma_host_literals();
}

/// The URL of a pull request shows its form.
pub proof fn lemma_pr_url_marks(org: Seq<char>, project: Seq<char>, repo: Seq<char>, id: i64)
    requires
        url_name(org),
        url_name(project),
        url_name(repo),
    ensures
        text::contains(pr_url(org, project, repo, id), "/pullrequest/"@),
        text::contains(pr_url(org, project, repo, id), "dev.azure.com"@),
{
    let host = "dev.azure.com"@;
    let pieces = pr_url_pieces(host, seq![org], project, repo, id);
    lemma_literals();
    lemma_pieces(host, seq![org], project, repo, id);
    lemma_contains_itself(host);
    lemma_piece_in_joined(pieces, seq!['/'], 2, host);
}

/// The first of the pieces between dots of the name of a host in the older form is the
/// organization.
proof fn lemma_host_org(org: Seq<char>, domain: Seq<char>)
    requires
        !org.contains('.'),
        domain.len() > 0,
        domain[0] == '.',
    ensures
        text::split_on(org + domain, '.')[0] == org,
{
    let host = org + domain;
    let dot = text::char_from(host, '.', 0);
    text::lemma_char_from(host, '.', 0);
    assert(host[org.len() as int] == domain[0]);
    if dot < org.len() {
        assert(org.contains(org[dot]));
    }
    assert(dot == org.len());
    assert(host.subrange(0, dot) =~= org);
}

/// A slash in two texts, one after the other, stands in one of them.
proof fn lemma_no_slash_in_both(a: Seq<char>, b: Seq<char>)
    requires
        !a.contains('/'),
        !b.contains('/'),
    ensures
        !(a + b).contains('/'),
{
    if (a + b).contains('/') {
        let i = choose|i: int| 0 <= i < (a + b).len() && (a + b)[i] == '/';
        if i < a.len() {
            assert(a[i] == '/');
        } else {
            assert(b[i - a.len()] == '/');
        }
    }
}

/// What a URL in the older form names, from its pieces.
proof fn lemma_older_target(url: Seq<char>, lower: Seq<char>, pieces: Seq<Seq<char>>, id: i64)
    requires
        text::split_on(url, '/') == pieces,
        pieces.len() == 8,
        text::contains(lower, "/pullrequest/"@),
        text::contains(lower, ".visualstudio.com"@),
        cli::holder_from(pieces, "dev.azure.com"@, 0) is None || !text::contains(
            lower,
            "dev.azure.com"@,
        ),
        cli::part_from(pieces, "pullrequest"@, 0) == Some(6int),
        cli::holder_from(pieces, ".visualstudio.com"@, 0) == Some(2int),
        pieces[7] == decimal::decimal(id as int),
    ensures
        cli::target_in(url, lower) == Some((text::split_on(pieces[2], '.')[0], id)),
{
    decimal::lemma_i64_read_back(id);
}

/// The host of a URL in the older form is the first of its pieces that holds the domain.
proof fn lemma_older_holder(pieces: Seq<Seq<char>>, org: Seq<char>)
    requires
        pieces.len() == 8,
        pieces[0] == "https:"@,
        pieces[1] == ""@,
        pieces[2] == org + ".visualstudio.com"@,
    ensures
        cli::holder_from(pieces, ".visualstudio.com"@, 0) == Some(2int),
        text::contains(text::joined(pieces, seq!['/']), ".visualstudio.com"@),
{
    let domain = ".visualstudio.com"@;
    lemma_host_literals();
    lemma_too_long(pieces[0], domain);
    lemma_too_long(pieces[1], domain);
    assert(text::occurs_at(pieces[2], domain, org.len() as int));
    lemma_holder_from_is(pieces, domain, 0, 2);
    lemma_piece_in_joined(pieces, seq!['/'], 2, domain);
}

/// The name of a host in the older form does not hold the host of the newer form.
proof fn lemma_older_host(org: Seq<char>)
    requires
        !org.contains('.'),
    ensures
        !text::contains(org + ".visualstudio.com"@, "dev.azure.com"@),
{
    reveal_strlit("dev.azure.com");
    reveal_strlit(".visualstudio.com");
    let newer = "dev.azure.com"@;
    let domain = ".visualstudio.com"@;
    let host = org + domain;
    assert forall|i: int| !text::occurs_at(host, newer, i) by {
        if text::occurs_at(host, newer, i) {
            assert(newer[3] == '.' && newer[4] == 'a');
            assert(host[i + 3] == newer[3]);
            assert(host[i + 4] == newer[4]);
            let k = i + 3 - org.len();
            if k < 0 {
                assert(org[i + 3] == '.');
                assert(org.contains('.'));
            } else {
                assert(domain[k] == '.');
                assert(domain[k + 1] == 'a');
            }
        }
    }
}

/// The decimal notation of a number does not hold the host of the newer form.
proof fn lemma_decimal_no_host(n: int)
    ensures
        !text::contains(decimal::decimal(n), "dev.azure.com"@),
{
    reveal_strlit("dev.azure.com");
    if n < 0 {
        decimal::lemma_decimal_nat_is_digits((-n) as nat);
    } else {
        decimal::lemma_decimal_nat_is_digits(n as nat);
    }
    let s = decimal::decimal(n);
    let newer = "dev.azure.com"@;
    assert forall|i: int| !text::occurs_at(s, newer, i) by {
        if text::occurs_at(s, newer, i) {
            assert(newer[1] == 'e');
            assert(s[i + 1] == newer[1]);
        }
    }
}

proof fn lemma_no_holder(parts: Seq<Seq<char>>, p: Seq<char>, i: int)
    requires
        forall|j: int| i <= j < parts.len() ==> !text::contains(#[trigger] parts[j], p),
    ensures
        cli::holder_from(parts, p, i) is None,
    decreases parts.len() - i,
{
    if 0 <= i < parts.len() {
        assert(!text::contains(parts[i], p));
        lemma_no_holder(parts, p, i + 1);
    }
}

/// None of the pieces of a URL in the older form holds the host of the newer form, where neither
/// the project nor the repository does.
proof fn lemma_older_pieces(org: Seq<char>, project: Seq<char>, repo: Seq<char>, id: i64)
    requires
        !org.contains('.'),
        !text::contains(project, "dev.azure.com"@),
        !text::contains(repo, "dev.azure.com"@),
    ensures
        cli::holder_from(
            pr_url_pieces(org + ".visualstudio.com"@, seq![], project, repo, id),
            "dev.azure.com"@,
            0,
        ) is None,
{
    let newer = "dev.azure.com"@;
    let pieces = pr_url_pieces(org + ".visualstudio.com"@, seq![], project, repo, id);
    reveal_strlit("https:");
    reveal_strlit("");
    reveal_strlit("_git");
    reveal_strlit("pullrequest");
    reveal_strlit("dev.azure.com");
    lemma_older_host(org);
    lemma_decimal_no_host(id as int);
    lemma_too_long("https:"@, newer);
    lemma_too_long(""@, newer);
    lemma_too_long("_git"@, newer);
    lemma_too_long("pullrequest"@, newer);
    assert(pieces.len() == 8);
    assert(pieces[0] == "https:"@ && pieces[1] == ""@ && pieces[2] == org + ".visualstudio.com"@
        && pieces[3] == project && pieces[4] == "_git"@ && pieces[5] == repo && pieces[6]
        == "pullrequest"@ && pieces[7] == decimal::decimal(id as int));
    lemma_no_holder(pieces, newer, 0);
}

/// The organization and the id come back out of the URL of a pull request in its older form. The
/// organization holds no dot, and neither the project nor the repository holds the host of the
/// newer form. `lower` is the URL in lower case, of which no more is needed than that it shows the
/// form of the URL.
pub proof fn lemma_older_pr_url_read_back(
    org: Seq<char>,
    project: Seq<char>,
    repo: Seq<char>,
    id: i64,
    lower: Seq<char>,
)
    requires
        url_name(org),
        !org.contains('.'),
        url_name(project),
        url_name(repo),
        text::contains(lower, "/pullrequest/"@),
        text::contains(lower, ".visualstudio.com"@),
        text::contains(lower, "dev.azure.com"@) ==> !text::contains(project, "dev.azure.com"@)
            && !text::contains(repo, "dev.azure.com"@),
    ensures
        cli::target_in(older_pr_url(org, project, repo, id), lower) == Some((org, id)),
{
    let domain = ".visualstudio.com"@;
    let host = org + domain;
    let none = Seq::<Seq<char>>::empty();
    let pieces = pr_url_pieces(host, none, project, repo, id);
    let url = older_pr_url(org, project, repo, id);
    lemma_literals();
    lemma_host_literals();
    lemma_no_slash_in_both(org, domain);
    assert(host.len() > "pullrequest"@.len());
    lemma_pieces(host, none, project, repo, id);
    lemma_older_holder(pieces, org);
    if text::contains(lower, "dev.azure.com"@) {
        lemma_older_pieces(org, project, repo, id);
    }
    lemma_older_target(url, lower, pieces, id);
    lemma_host_org(org, domain);
}

/// The URL of a pull request in its older form shows its form.
pub proof fn lemma_older_pr_url_marks(org: Seq<char>, project: Seq<char>, repo: Seq<char>, id: i64)
    requires
        url_name(org),
        url_name(project),
        url_name(repo),
    ensures
        text::contains(older_pr_url(org, project, repo, id), "/pullrequest/"@),
        text::contains(older_pr_url(org, project, repo, id), ".visualstudio.com"@),
{
    let domain = ".visualstudio.com"@;
    let host = org + domain;
    let none = Seq::<Seq<char>>::empty();
    let pieces = pr_url_pieces(host, none, project, repo, id);
    lemma_literals();
    lemma_host_literals();
    lemma_no_slash_in_both(org, domain);
    assert(host.len() > "pullrequest"@.len());
    lemma_pieces(host, none, project, repo, id);
    lemma_older_holder(pieces, org);
}

} // verus!
