//! Laws of what the command line tools are asked and of what is made of their answers.
use vstd::prelude::*;

use crate::decimal;
use crate::git_host::azure::cli as az;
use crate::git_host::azure::cli::{AzCliError, AzPrResponse, AzRepoShowResponse};
use crate::git_host::azure::service as az_service;
use crate::git_host::detection;
use crate::git_host::detection::RemoteLookup;
use crate::git_host::github::cli as gh;
use crate::git_host::github::cli::GhCliError;
use crate::git_host::github::comments;
use crate::git_host::service;
use crate::git_host::service::ServiceKind;
use crate::git_host::types::{
    CreatePrRequest, GitHostError, GitHostProvider, RepoInfo,
};
use crate::json::{JsonNumber, JsonView};
use crate::process;
use crate::process::Launch;
use crate::text;
use crate::time;
use crate::time::Timestamp;

verus! {

// ---------------------------------------------------------------------------
// Runs of the tools
// ---------------------------------------------------------------------------

/// A run of `az` that ended well comes to what was written to the standard output, and any other to
/// an error: a missing program is told from a run that failed, and one that failed says what was
/// written to the standard error. It is about authentication where that speaks of it.
pub proof fn lemma_az_run(launch: Launch)
    ensures
        az::run_result(launch) == Err::<Seq<char>, AzCliError<Seq<char>>>(AzCliError::NotAvailable)
            <==> launch is NotFound,
        launch matches Launch::NotRun(reason) ==> az::run_result(launch) == Err::<
            Seq<char>,
            AzCliError<Seq<char>>,
        >(AzCliError::CommandFailed(reason@)),
        az::run_result(launch) is Ok <==> (launch matches Launch::Ended(o) && o.success),
        launch matches Launch::Ended(o) ==> {
            let said = text::trimmed(text::lossy_text(o.stderr@));
            let lower = text::ascii_lower(said);
            let auth = text::contains(lower, "az login"@) || text::contains(lower, "not logged in"@)
                || text::contains(lower, "authentication"@) || text::contains(
                lower,
                "unauthorized"@,
            ) || text::contains(lower, "credentials"@);
            &&& o.success ==> az::run_result(launch) == Ok::<Seq<char>, AzCliError<Seq<char>>>(
                text::lossy_text(o.stdout@),
            )
            &&& !o.success && auth ==> az::run_result(launch) == Err::<
                Seq<char>,
                AzCliError<Seq<char>>,
            >(AzCliError::AuthFailed(said))
            &&& !o.success && !auth ==> az::run_result(launch) == Err::<
                Seq<char>,
                AzCliError<Seq<char>>,
            >(AzCliError::CommandFailed(said))
        },
{
    if let Launch::Ended(o) = launch {
        let lower = text::ascii_lower(text::trimmed(text::lossy_text(o.stderr@)));
        if text::contains(lower, "please run 'az login'"@) {
            let i = choose|i: int| text::occurs_at(lower, "please run 'az login'"@, i);
            reveal_strlit("please run 'az login'");
            reveal_strlit("az login");
            assert forall|k: int| 0 <= k < "az login"@.len() implies lower[i + 12 + k]
                == #[trigger] "az login"@[k] by {
                assert(lower[i + (12 + k)] == "please run 'az login'"@[12 + k]);
            }
            assert(text::occurs_at(lower, "az login"@, i + 12));
        }
    }
}

/// A run of `gh` that ended well comes to what was written to the standard output, and any other to
/// an error: a missing program is told from a run that failed, and one that failed says what was
/// written to the standard error. It is about authentication where the exit code says so, or where
/// the standard error speaks of it.
pub proof fn lemma_gh_run(launch: Launch)
    ensures
        gh::run_result(launch) == Err::<Seq<char>, GhCliError<Seq<char>>>(GhCliError::NotAvailable)
            <==> launch is NotFound,
        launch matches Launch::NotRun(reason) ==> gh::run_result(launch) == Err::<
            Seq<char>,
            GhCliError<Seq<char>>,
        >(GhCliError::CommandFailed(reason@)),
        gh::run_result(launch) is Ok <==> (launch matches Launch::Ended(o) && o.success),
        launch matches Launch::Ended(o) ==> {
            let said = text::trimmed(text::lossy_text(o.stderr@));
            let lower = text::ascii_lower(said);
            let auth = o.code == Some(4i32) || text::contains(lower, "authentication failed"@)
                || text::contains(lower, "must authenticate"@) || text::contains(
                lower,
                "bad credentials"@,
            ) || text::contains(lower, "unauthorized"@) || text::contains(lower, "gh auth login"@);
            &&& o.success ==> gh::run_result(launch) == Ok::<Seq<char>, GhCliError<Seq<char>>>(
                text::lossy_text(o.stdout@),
            )
            &&& !o.success && auth ==> gh::run_result(launch) == Err::<
                Seq<char>,
                GhCliError<Seq<char>>,
            >(GhCliError::AuthFailed(said))
            &&& !o.success && !auth ==> gh::run_result(launch) == Err::<
                Seq<char>,
                GhCliError<Seq<char>>,
            >(GhCliError::CommandFailed(said))
        },
{
}

// ---------------------------------------------------------------------------
// Questions
// ---------------------------------------------------------------------------

/// On GitHub, a pull request is created out of the head branch of the request into its base branch,
/// under its title, in the repository of the owner: each stands after its own flag.
pub proof fn lemma_gh_create_flags(
    request: CreatePrRequest,
    owner: Seq<char>,
    repo_name: Seq<char>,
)
    ensures
        ({
            let args = gh::create_args(request, owner, repo_name);
            &&& args.len() == 11
            &&& args[0] == "pr"@ && args[1] == "create"@
            &&& process::flagged(args, "--repo"@, owner + "/"@ + repo_name)
            &&& process::flagged(args, "--head"@, request.head_branch@)
            &&& process::flagged(args, "--base"@, request.base_branch@)
            &&& process::flagged(args, "--title"@, request.title@)
            &&& args.last() == "--body-file"@
        }),
{
    let args = gh::create_args(request, owner, repo_name);
    process::lemma_flagged(args, 2);
    process::lemma_flagged(args, 4);
    process::lemma_flagged(args, 6);
    process::lemma_flagged(args, 8);
}

// ---------------------------------------------------------------------------
// Pull requests
// ---------------------------------------------------------------------------

/// The answer of `az` on a pull request is taken field by field: the number, the URL under that of
/// the repository, the date at which it was closed, and the commit of the merge.
pub proof fn lemma_az_pr(pr: AzPrResponse<Seq<char>>)
    ensures
        az::info_of(pr).number == pr.pull_request_id,
        (pr.repository matches Some(r) && r.web_url is Some) ==> az::info_of(pr).url
            == pr.repository->0.web_url->0 + "/pullrequest/"@ + decimal::decimal(
            pr.pull_request_id as int,
        ),
        (pr.repository is None || pr.repository->0.web_url is None) ==> az::info_of(pr).url
            == "pullrequest/"@ + decimal::decimal(pr.pull_request_id as int),
        pr.closed_date matches Some(d) ==> az::info_of(pr).merged_at == time::instant_of(d),
        pr.closed_date is None ==> az::info_of(pr).merged_at is None,
        pr.last_merge_commit matches Some(c) ==> az::info_of(pr).merge_commit_sha == c.commit_id,
        pr.last_merge_commit is None ==> az::info_of(pr).merge_commit_sha is None,
        pr.status matches Some(s) ==> az::info_of(pr).status == az::status_of_lower(
            text::lowercase(s),
        ),
{
}

/// In the words of `az`, `active` is open, `completed` is merged and `abandoned` is closed; nothing
/// else is any of these.
pub proof fn lemma_az_status(lower: Seq<char>)
    ensures
        az::status_of_lower(lower) is Open <==> lower == "active"@,
        az::status_of_lower(lower) is Merged <==> lower == "completed"@,
        az::status_of_lower(lower) is Closed <==> lower == "abandoned"@,
{
    reveal_strlit("active");
    reveal_strlit("completed");
    reveal_strlit("abandoned");
    assert("completed"@[0] == 'c' && "abandoned"@[0] == 'a');
    assert("active"@.len() == 6 && "completed"@.len() == 9);
}

/// In the words of `gh`, whatever their case, `OPEN` is open, `MERGED` is merged and `CLOSED` is
/// closed; nothing else is any of these.
pub proof fn lemma_gh_status(state: Seq<char>)
    ensures
        gh::status_of(state) is Open <==> text::ascii_upper(state) == "OPEN"@,
        gh::status_of(state) is Merged <==> text::ascii_upper(state) == "MERGED"@,
        gh::status_of(state) is Closed <==> text::ascii_upper(state) == "CLOSED"@,
{
    reveal_strlit("OPEN");
    reveal_strlit("MERGED");
    reveal_strlit("CLOSED");
    assert("OPEN"@[0] == 'O' && "MERGED"@[0] == 'M' && "CLOSED"@[0] == 'C');
}

/// What `gh` tells of a pull request is taken field by field, and it must tell the number and the
/// URL.
pub proof fn lemma_gh_pr(value: JsonView, said: Seq<char>, n: u64)
    ensures
        gh::info_of(value) matches Some(info) ==> {
            &&& value.field("url"@) == Some(JsonView::Text(info.url))
            &&& value.field("number"@) is Some
            &&& value.field("number"@) == Some(JsonView::Number(JsonNumber::Natural(n)))
                ==> info.number == n
            &&& value.field("state"@) == Some(JsonView::Text(said)) ==> info.status
                == gh::status_of(said)
            &&& value.field("state"@) is None ==> info.status is Open
            &&& value.field("mergedAt"@) == Some(JsonView::Text(said)) ==> info.merged_at
                == time::instant_of(said)
            &&& value.field("mergedAt"@) is None ==> info.merged_at is None
            &&& (value.field("mergeCommit"@) matches Some(c) && c.field("oid"@) == Some(
                JsonView::Text(said),
            )) ==> info.merge_commit_sha == Some(said)
            &&& value.field("mergeCommit"@) is None ==> info.merge_commit_sha is None
        },
        value.field("url"@) == Some(JsonView::Text(said)) && n <= i64::MAX && value.field(
            "number"@,
        ) == Some(JsonView::Number(JsonNumber::Natural(n))) ==> gh::info_of(value) is Some,
        value.field("url"@) is None || value.field("number"@) is None ==> gh::info_of(value)
            is None,
{
    reveal_strlit("OPEN");
    assert(text::ascii_upper("OPEN"@) =~= "OPEN"@);
}

/// Each item of the list of pull requests that `gh` answers with is told of, in order; the list is
/// refused where one item says too little.
pub proof fn lemma_gh_prs(items: Seq<JsonView>, i: int)
    requires
        0 <= i <= items.len(),
    ensures
        gh::infos_from(items, i) is Ok <==> forall|k: int|
            i <= k < items.len() ==> gh::info_of(#[trigger] items[k]) is Some,
        gh::infos_from(items, i) matches Ok(infos) ==> {
            &&& infos.len() == items.len() - i
            &&& forall|k: int|
                0 <= k < infos.len() ==> Some(#[trigger] infos[k]) == gh::info_of(items[i + k])
        },
    decreases items.len() - i,
{
    if i < items.len() {
        lemma_gh_prs(items, i + 1);
        if gh::infos_from(items, i) is Ok {
            let infos = gh::infos_from(items, i)->Ok_0;
            let rest = gh::infos_from(items, i + 1)->Ok_0;
            assert forall|k: int| 0 <= k < infos.len() implies Some(#[trigger] infos[k])
                == gh::info_of(items[i + k]) by {
                if k > 0 {
                    assert(infos[k] == rest[k - 1]);
                    assert(items[i + k] == items[i + 1 + (k - 1)]);
                }
            }
            assert forall|k: int| i <= k < items.len() implies gh::info_of(#[trigger] items[k])
                is Some by {}
        } else if gh::info_of(items[i]) is Some {
            let k = choose|k: int|
                i + 1 <= k < items.len() && gh::info_of(#[trigger] items[k]) is None;
            assert(gh::info_of(items[k]) is None);
        }
    }
}

// ---------------------------------------------------------------------------
// Repositories
// ---------------------------------------------------------------------------

/// What `az` tells of a repository is taken field by field: names are names and identifiers are
/// identifiers, those of the project and those of the repository. The organization is the one whose
/// API the URL belongs to.
pub proof fn lemma_az_repo(response: AzRepoShowResponse, organization: Seq<char>, rest: Seq<char>)
    requires
        response.url@ == "https://dev.azure.com/"@ + organization + "/"@ + rest,
        !organization.contains('/'),
    ensures
        az::repo_info_of(response) matches Ok(RepoInfo::AzureDevOps {
            organization_url,
            project,
            project_id,
            repo_name,
            repo_id,
        }) && {
            &&& organization_url == "https://dev.azure.com/"@ + organization
            &&& project == response.project.name@
            &&& response.project.id matches Some(id) ==> project_id == id@
            &&& repo_name == response.name@
            &&& response.id matches Some(id) ==> repo_id == id@
        },
{
    let url = response.url@;
    let mark = "dev.azure.com/"@;
    reveal_strlit("https://dev.azure.com/");
    reveal_strlit("dev.azure.com/");
    reveal_strlit("/");
    assert forall|k: int| 0 <= k < mark.len() implies url[8 + k] == #[trigger] mark[k] by {
        assert(url[8 + k] == "https://dev.azure.com/"@[8 + k]);
    }
    assert(text::occurs_at(url, mark, 8));
    assert forall|j: int| 0 <= j < 8 implies !(#[trigger] text::occurs_at(url, mark, j)) by {
        if text::occurs_at(url, mark, j) {
            assert(url[j + 0] == mark[0]);
            assert(url[j] == "https://dev.azure.com/"@[j]);
        }
    }
    text::lemma_find_from(url, mark, 0);
    let after = url.skip(8 + mark.len() as int);
    assert(after =~= organization + "/"@ + rest);
    assert(after[organization.len() as int] == '/');
    assert forall|j: int| 0 <= j < organization.len() implies after[j] != '/' by {
        assert(organization.contains(organization[j]));
        assert(after[j] == organization[j]);
    }
    text::lemma_char_from_is(after, '/', 0, organization.len() as int);
    assert(after.take(organization.len() as int) =~= organization);
}

// ---------------------------------------------------------------------------
// Comments
// ---------------------------------------------------------------------------

/// What `gh` tells of a comment is taken field by field, and it must tell the number.
pub proof fn lemma_gh_comment(item: JsonView, now: Timestamp, said: Seq<char>)
    ensures
        item.field("id"@) is None ==> comments::comment_of(item, now) is Err,
        item.field("id"@) == Some(JsonView::Text(said)) ==> comments::comment_of(item, now) is Ok,
        comments::comment_of(item, now) matches Ok(c) ==> {
            &&& item.field("id"@) == Some(JsonView::Text(c.id))
            &&& (item.field("author"@) matches Some(a) && a.field("login"@) == Some(
                JsonView::Text(said),
            )) ==> c.author.login == said
            &&& item.field("author"@) is None ==> c.author.login == "unknown"@
            &&& item.field("authorAssociation"@) == Some(JsonView::Text(said))
                ==> c.author_association == said
            &&& item.field("body"@) == Some(JsonView::Text(said)) ==> c.body == said
            &&& item.field("url"@) == Some(JsonView::Text(said)) ==> c.url == said
            &&& item.field("createdAt"@) == Some(JsonView::Text(said)) && time::instant_of(said)
                is Some ==> c.created_at == time::instant_of(said)->0
            &&& item.field("createdAt"@) is None ==> c.created_at == now
        },
{
}

/// What `gh` tells of a review comment is taken field by field, and it must tell the number.
pub proof fn lemma_gh_review_comment(item: JsonView, now: Timestamp, said: Seq<char>, n: u64)
    requires
        n <= i64::MAX,
    ensures
        item.field("id"@) is None ==> comments::review_comment_of(item, now) is Err,
        item.field("id"@) == Some(JsonView::Number(JsonNumber::Natural(n)))
            ==> comments::review_comment_of(item, now) is Ok,
        comments::review_comment_of(item, now) matches Ok(c) ==> {
            &&& item.field("id"@) == Some(JsonView::Number(JsonNumber::Natural(n))) ==> c.id == n
            &&& (item.field("user"@) matches Some(a) && a.field("login"@) == Some(
                JsonView::Text(said),
            )) ==> c.user.login == said
            &&& item.field("user"@) is None ==> c.user.login == "unknown"@
            &&& item.field("body"@) == Some(JsonView::Text(said)) ==> c.body == said
            &&& item.field("html_url"@) == Some(JsonView::Text(said)) ==> c.html_url == said
            &&& item.field("path"@) == Some(JsonView::Text(said)) ==> c.path == said
            &&& item.field("line"@) == Some(JsonView::Number(JsonNumber::Natural(n))) ==> c.line
                == Some(n as i64)
            &&& item.field("line"@) is None ==> c.line is None
            &&& item.field("side"@) == Some(JsonView::Text(said)) ==> c.side == Some(said)
            &&& item.field("side"@) is None ==> c.side is None
            &&& item.field("diff_hunk"@) == Some(JsonView::Text(said)) ==> c.diff_hunk == said
            &&& item.field("author_association"@) == Some(JsonView::Text(said))
                ==> c.author_association == said
            &&& item.field("created_at"@) == Some(JsonView::Text(said)) && time::instant_of(said)
                is Some ==> c.created_at == time::instant_of(said)->0
            &&& item.field("created_at"@) is None ==> c.created_at == now
        },
{
}

/// Each comment that `gh` answers with is told of, in order; they are refused where one is.
pub proof fn lemma_gh_comments(items: Seq<JsonView>, nows: Seq<Timestamp>, i: int)
    requires
        0 <= i <= items.len(),
    ensures
        comments::comments_from(items, nows, i) matches Ok(all) ==> {
            &&& all.len() == items.len() - i
            &&& forall|k: int|
                0 <= k < all.len() ==> comments::comment_of(items[i + k], nows[i + k]) == Ok::<
                    _,
                    GhCliError<Seq<char>>,
                >(#[trigger] all[k])
        },
        (forall|k: int|
            i <= k < items.len() ==> comments::comment_of(#[trigger] items[k], nows[k]) is Ok)
            ==> comments::comments_from(items, nows, i) is Ok,
    decreases items.len() - i,
{
    if i < items.len() {
        lemma_gh_comments(items, nows, i + 1);
        if comments::comments_from(items, nows, i) is Ok {
            let all = comments::comments_from(items, nows, i)->Ok_0;
            let rest = comments::comments_from(items, nows, i + 1)->Ok_0;
            assert forall|k: int| 0 <= k < all.len() implies comments::comment_of(
                items[i + k],
                nows[i + k],
            ) == Ok::<_, GhCliError<Seq<char>>>(#[trigger] all[k]) by {
                if k > 0 {
                    assert(all[k] == rest[k - 1]);
                }
            }
        }
    }
}

/// Each review comment that `gh` answers with is told of, in order; they are refused where one is.
pub proof fn lemma_gh_review_comments(items: Seq<JsonView>, nows: Seq<Timestamp>, i: int)
    requires
        0 <= i <= items.len(),
    ensures
        comments::review_comments_from(items, nows, i) matches Ok(all) ==> {
            &&& all.len() == items.len() - i
            &&& forall|k: int|
                0 <= k < all.len() ==> comments::review_comment_of(items[i + k], nows[i + k])
                    == Ok::<_, GhCliError<Seq<char>>>(#[trigger] all[k])
        },
        (forall|k: int|
            i <= k < items.len() ==> comments::review_comment_of(#[trigger] items[k], nows[k])
                is Ok) ==> comments::review_comments_from(items, nows, i) is Ok,
    decreases items.len() - i,
{
    if i < items.len() {
        lemma_gh_review_comments(items, nows, i + 1);
        if comments::review_comments_from(items, nows, i) is Ok {
            let all = comments::review_comments_from(items, nows, i)->Ok_0;
            let rest = comments::review_comments_from(items, nows, i + 1)->Ok_0;
            assert forall|k: int| 0 <= k < all.len() implies comments::review_comment_of(
                items[i + k],
                nows[i + k],
            ) == Ok::<_, GhCliError<Seq<char>>>(#[trigger] all[k]) by {
                if k > 0 {
                    assert(all[k] == rest[k - 1]);
                }
            }
        }
    }
}

// ---------------------------------------------------------------------------
// Platforms and errors
// ---------------------------------------------------------------------------

/// When a URL in lower case is one of which platform: `github.com` always tells GitHub, and
/// `github.` does where nothing tells Azure DevOps.
pub proof fn lemma_platform(lower: Seq<char>)
    ensures
        ({
            let github_com = text::contains(lower, "github.com"@);
            let enterprise = text::contains(lower, "github."@);
            let azure = text::contains(lower, "dev.azure.com"@) || text::contains(
                lower,
                ".visualstudio.com"@,
            ) || text::contains(lower, "/_git/"@);
            let pull = text::contains(lower, "/pull/"@);
            let pullrequest = text::contains(lower, "/pullrequest/"@);
            let repo = detection::provider_of_lower(lower);
            let pr = detection::pr_provider_of_lower(lower);
            &&& repo is GitHub <==> github_com || (enterprise && !azure)
            &&& repo is AzureDevOps <==> azure && !github_com
            &&& pr is GitHub <==> (pull && enterprise) || (!pullrequest && (github_com || (
            enterprise && !azure)))
            &&& pr is AzureDevOps <==> !(pull && enterprise) && (pullrequest || (azure
                && !github_com))
        }),
{
    if text::contains(lower, "ssh.dev.azure.com"@) {
        let i = choose|i: int| text::occurs_at(lower, "ssh.dev.azure.com"@, i);
        reveal_strlit("ssh.dev.azure.com");
        reveal_strlit("dev.azure.com");
        assert forall|k: int| 0 <= k < "dev.azure.com"@.len() implies lower[i + 4 + k]
            == #[trigger] "dev.azure.com"@[k] by {
            assert(lower[i + (4 + k)] == "ssh.dev.azure.com"@[4 + k]);
        }
        assert(text::occurs_at(lower, "dev.azure.com"@, i + 4));
    }
    if text::contains(lower, "github.com"@) {
        let i = choose|i: int| text::occurs_at(lower, "github.com"@, i);
        reveal_strlit("github.com");
        reveal_strlit("github.");
        assert forall|k: int| 0 <= k < "github."@.len() implies lower[i + k]
            == #[trigger] "github."@[k] by {
            assert(lower[i + k] == "github.com"@[k]);
        }
        assert(text::occurs_at(lower, "github."@, i));
    }
}

/// A platform is served by the service of its own, and one that is not known by none.
pub proof fn lemma_service(provider: GitHostProvider)
    ensures
        service::service_of(provider) is Ok <==> provider !is Unknown,
        provider is GitHub ==> service::service_of(provider) == Ok::<
            ServiceKind,
            GitHostError<Seq<char>>,
        >(ServiceKind::GitHub),
        provider is AzureDevOps ==> service::service_of(provider) == Ok::<
            ServiceKind,
            GitHostError<Seq<char>>,
        >(ServiceKind::AzureDevOps),
        provider is Unknown ==> service::service_of(provider) == Err::<
            ServiceKind,
            GitHostError<Seq<char>>,
        >(GitHostError::UnsupportedProvider),
{
}

/// The error of a failed command keeps what the command said, and what it said decides the kind of
/// the error: `403` and `forbidden` tell of permissions, else `404` and `not found` of absence.
pub proof fn lemma_az_errors(error: AzCliError)
    ensures
        ({
            let res = az_service::host_error(error);
            &&& error is NotAvailable <==> res is CliNotInstalled
            &&& error is AuthFailed <==> res is AuthFailed
            &&& error is UnexpectedOutput <==> res is UnexpectedOutput
            &&& error matches AzCliError::AuthFailed(msg) ==> res == GitHostError::AuthFailed(msg)
            &&& error matches AzCliError::UnexpectedOutput(msg) ==> res
                == GitHostError::UnexpectedOutput(msg)
            &&& error matches AzCliError::CommandFailed(msg) ==> {
                let lower = text::ascii_lower(msg@);
                let forbidden = text::contains(lower, "403"@) || text::contains(
                    lower,
                    "forbidden"@,
                );
                let absent = text::contains(lower, "404"@) || text::contains(lower, "not found"@);
                &&& res == GitHostError::InsufficientPermissions(msg) <==> forbidden
                &&& res == GitHostError::RepoNotFoundOrNoAccess(msg) <==> absent && !forbidden
                &&& res == GitHostError::PullRequest(msg) <==> !absent && !forbidden
            }
        }),
{
}

/// What no other attempt can mend is not tried again: missing rights, a missing repository, a
/// missing program, and a platform that is not served.
pub proof fn lemma_retried<S>(error: GitHostError<S>)
    ensures
        error.retryable() <==> !(error is AuthFailed || error is InsufficientPermissions || error
            is RepoNotFoundOrNoAccess || error is CliNotInstalled || error is UnsupportedProvider),
{
}

/// A repository that cannot be looked into gives an error that says what failed and why; one with a
/// remote is on the platform that the remote's URL names.
pub proof fn lemma_remote(lookup: RemoteLookup<Seq<char>>)
    ensures
        lookup matches RemoteLookup::Url(u) ==> detection::provider_of_remote(lookup) == Ok::<
            GitHostProvider,
            GitHostError<Seq<char>>,
        >(detection::provider_of_lower(text::lowercase(u))),
        lookup matches RemoteLookup::NotOpened(e) ==> detection::provider_of_remote(lookup)
            == Err::<GitHostProvider, GitHostError<Seq<char>>>(
            GitHostError::Repository("Failed to open repository: "@ + e),
        ),
        lookup matches RemoteLookup::NoOrigin(e) ==> detection::provider_of_remote(lookup) == Err::<
            GitHostProvider,
            GitHostError<Seq<char>>,
        >(GitHostError::Repository("Failed to find origin remote: "@ + e)),
        lookup is NoUrl ==> detection::provider_of_remote(lookup) is Err,
{
}

/// What is said of an error names its kind and holds what the tool said.
pub proof fn lemma_error_texts(said: Seq<char>, provider: GitHostProvider)
    ensures
        AzCliError::CommandFailed(said).text() == "Azure CLI command failed: "@ + said,
        AzCliError::AuthFailed(said).text() == "Azure CLI authentication failed: "@ + said,
        AzCliError::UnexpectedOutput(said).text() == "Azure CLI returned unexpected output: "@
            + said,
        GhCliError::CommandFailed(said).text() == "GitHub CLI command failed: "@ + said,
        GhCliError::AuthFailed(said).text() == "GitHub CLI authentication failed: "@ + said,
        GhCliError::UnexpectedOutput(said).text() == "GitHub CLI returned unexpected output: "@
            + said,
        GitHostError::Repository(said).text() == "Repository error: "@ + said,
        GitHostError::PullRequest(said).text() == "Pull request error: "@ + said,
        GitHostError::AuthFailed(said).text() == "Authentication failed: "@ + said,
        GitHostError::InsufficientPermissions(said).text() == "Insufficient permissions: "@ + said,
        GitHostError::RepoNotFoundOrNoAccess(said).text() == "Repository not found or no access: "@
            + said,
        GitHostError::UnexpectedOutput(said).text() == "CLI returned unexpected output: "@ + said,
        (GitHostError::<Seq<char>>::CliNotInstalled { provider }).text() == match provider {
            GitHostProvider::GitHub => "GitHub"@,
            GitHostProvider::AzureDevOps => "Azure DevOps"@,
            GitHostProvider::Unknown => "Unknown"@,
        } + " CLI is not installed or not available in PATH"@,
{
}

} // verus!
