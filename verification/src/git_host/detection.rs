//! Telling the hosting platform from a repository's URL.
use vstd::prelude::*;
use vstd::utf8::*;

use crate::git_host::types::{GitHostError, GitHostProvider};
use crate::model;
use crate::text;

verus! {

/// The platform that a URL in lower case names.
///
/// - GitHub: `github.com`; or `github.` and none of the Azure DevOps marks, as in the host names
///   of GitHub Enterprise.
/// - Azure DevOps: `dev.azure.com`, `.visualstudio.com`, or `/_git/`, without `github.com`.
pub open spec fn provider_of_lower(lower: Seq<char>) -> GitHostProvider {
    if text::contains(lower, "github.com"@) {
        GitHostProvider::GitHub
    } else if text::contains(lower, "dev.azure.com"@) || text::contains(
        lower,
        ".visualstudio.com"@,
    ) || text::contains(lower, "ssh.dev.azure.com"@) || text::contains(lower, "/_git/"@) {
        GitHostProvider::AzureDevOps
    } else if text::contains(lower, "github."@) {
        GitHostProvider::GitHub
    } else {
        GitHostProvider::Unknown
    }
}

/// The platform that the URL of a repository names.
pub open spec fn provider_of_url(url: Seq<char>) -> GitHostProvider {
    provider_of_lower(text::lowercase(url))
}

/// The platform that the URL of a pull request, in lower case, names.
pub open spec fn pr_provider_of_lower(lower: Seq<char>) -> GitHostProvider {
    if text::contains(lower, "/pull/"@) && (text::contains(lower, "github.com"@) || text::contains(
        lower,
        "github."@,
    )) {
        GitHostProvider::GitHub
    } else if text::contains(lower, "/pullrequest/"@) {
        GitHostProvider::AzureDevOps
    } else {
        provider_of_lower(lower)
    }
}

/// The platform that the URL of a pull request names.
pub open spec fn provider_of_pr_url(url: Seq<char>) -> GitHostProvider {
    pr_provider_of_lower(text::lowercase(url))
}

/// What came of looking for the remote of a repository.
pub enum RemoteLookup<S = String> {
    /// The repository could not be opened.
    NotOpened(S),
    /// It has no remote named `origin`.
    NoOrigin(S),
    /// The remote has no URL.
    NoUrl,
    /// The remote's URL.
    Url(S),
}

impl DeepView for RemoteLookup {
    type V = RemoteLookup<Seq<char>>;

    open spec fn deep_view(&self) -> RemoteLookup<Seq<char>> {
        match *self {
            RemoteLookup::NotOpened(e) => RemoteLookup::NotOpened(e@),
            RemoteLookup::NoOrigin(e) => RemoteLookup::NoOrigin(e@),
            RemoteLookup::NoUrl => RemoteLookup::NoUrl,
            RemoteLookup::Url(u) => RemoteLookup::Url(u@),
        }
    }
}

/// The platform of a repository, from what came of looking for its remote.
pub open spec fn provider_of_remote(lookup: RemoteLookup<Seq<char>>) -> Result<
    GitHostProvider,
    GitHostError<Seq<char>>,
> {
    match lookup {
        RemoteLookup::NotOpened(e) => Err(
            GitHostError::Repository("Failed to open repository: "@ + e),
        ),
        RemoteLookup::NoOrigin(e) => Err(
            GitHostError::Repository("Failed to find origin remote: "@ + e),
        ),
        RemoteLookup::NoUrl => Err(GitHostError::Repository("Remote has no URL"@)),
        RemoteLookup::Url(u) => Ok(provider_of_url(u)),
    }
}

impl DeepView for GitHostProvider {
    type V = GitHostProvider;

    open spec fn deep_view(&self) -> GitHostProvider {
        *self
    }
}

/// Tells the platform of a repository from what came of looking for its remote.
pub fn detect_provider(lookup: RemoteLookup) -> (res: Result<GitHostProvider, GitHostError>)
    ensures
        model::result_view(res) == provider_of_remote(lookup.deep_view()),
{
    match lookup {
        RemoteLookup::NotOpened(e) => Err(
            GitHostError::Repository(text::cat2("Failed to open repository: ", e.as_str())),
        ),
        RemoteLookup::NoOrigin(e) => Err(
            GitHostError::Repository(text::cat2("Failed to find origin remote: ", e.as_str())),
        ),
        RemoteLookup::NoUrl => Err(GitHostError::Repository(text::owned("Remote has no URL"))),
        RemoteLookup::Url(u) => Ok(detect_provider_from_url(u.as_str())),
    }
}

/// Tells the platform from the URL of a repository, in lower case.
pub fn provider_from_lower(url_lower: &str) -> (res: GitHostProvider)
    ensures
        res == provider_of_lower(url_lower@),
{
    let lower = text::chars_of(url_lower);
    if text::chars_contain(&lower, "github.com") {
        return GitHostProvider::GitHub;
    }
    if text::chars_contain(&lower, "dev.azure.com") || text::chars_contain(
        &lower,
        ".visualstudio.com",
    ) || text::chars_contain(&lower, "ssh.dev.azure.com") {
        return GitHostProvider::AzureDevOps;
    }
    if text::chars_contain(&lower, "/_git/") {
        return GitHostProvider::AzureDevOps;
    }
    if text::chars_contain(&lower, "github.") {
        return GitHostProvider::GitHub;
    }
    GitHostProvider::Unknown
}

/// Tells the platform from the URL of a repository. Upper and lower case are the same.
///
/// - GitHub: `https://github.com/owner/repo` or `git@github.com:owner/repo.git`
/// - GitHub Enterprise: URLs that contain `github.`, such as `https://github.company.com/owner/repo`
/// - Azure DevOps: `https://dev.azure.com/org/project/_git/repo`, or the older
///   `https://org.visualstudio.com/...`
pub fn detect_provider_from_url(url: &str) -> (res: GitHostProvider)
    ensures
        res == provider_of_url(url@),
        is_ascii_chars(url@) ==> res == provider_of_lower(text::ascii_lower(url@)),
{
    provider_from_lower(text::to_lowercase(url).as_str())
}

/// Tells the platform from the URL of a pull request, in lower case.
pub fn pr_provider_from_lower(url_lower: &str) -> (res: GitHostProvider)
    ensures
        res == pr_provider_of_lower(url_lower@),
{
    let lower = text::chars_of(url_lower);
    if text::chars_contain(&lower, "/pull/") {
        if text::chars_contain(&lower, "github.com") || text::chars_contain(&lower, "github.") {
            return GitHostProvider::GitHub;
        }
    }
    if text::chars_contain(&lower, "/pullrequest/") {
        return GitHostProvider::AzureDevOps;
    }
    provider_from_lower(url_lower)
}

/// Tells the platform from the URL of a pull request. Upper and lower case are the same.
///
/// - GitHub: `https://github.com/owner/repo/pull/123`
/// - GitHub Enterprise: `https://github.company.com/owner/repo/pull/123`
/// - Azure DevOps: `https://dev.azure.com/org/project/_git/repo/pullrequest/123`
pub fn detect_provider_from_pr_url(pr_url: &str) -> (res: GitHostProvider)
    ensures
        res == provider_of_pr_url(pr_url@),
        is_ascii_chars(pr_url@) ==> res == pr_provider_of_lower(text::ascii_lower(pr_url@)),
{
    pr_provider_from_lower(text::to_lowercase(pr_url).as_str())
}

// ---------------------------------------------------------------------------
// Laws
// ---------------------------------------------------------------------------

/// What stands in a text stands in any text around it.
proof fn lemma_contains_around(before: Seq<char>, s: Seq<char>, after: Seq<char>, p: Seq<char>)
    requires
        text::contains(s, p),
    ensures
        text::contains(before + s + after, p),
{
    let i = choose|i: int| text::occurs_at(s, p, i);
    let whole = before + s + after;
    assert forall|k: int| 0 <= k < p.len() implies whole[before.len() + i + k] == #[trigger] p[k] by {
        assert(s[i + k] == p[k]);
    }
    assert(text::occurs_at(whole, p, before.len() + i));
}

/// `github.com` decides, whatever else the URL holds: it is told from everything else first.
pub proof fn lemma_github_com_decides(before: Seq<char>, lower: Seq<char>, after: Seq<char>)
    requires
        text::contains(lower, "github.com"@),
    ensures
        provider_of_lower(before + lower + after) == GitHostProvider::GitHub,
{
    lemma_contains_around(before, lower, after, "github.com"@);
}

/// The Azure DevOps marks decide over `github.` in other host names.
pub proof fn lemma_azure_before_enterprise(before: Seq<char>, lower: Seq<char>, after: Seq<char>)
    requires
        text::contains(lower, "/_git/"@) || text::contains(lower, "dev.azure.com"@)
            || text::contains(lower, ".visualstudio.com"@),
        !text::contains(before + lower + after, "github.com"@),
    ensures
        provider_of_lower(before + lower + after) == GitHostProvider::AzureDevOps,
{
    if text::contains(lower, "/_git/"@) {
        lemma_contains_around(before, lower, after, "/_git/"@);
    } else if text::contains(lower, "dev.azure.com"@) {
        lemma_contains_around(before, lower, after, "dev.azure.com"@);
    } else {
        lemma_contains_around(before, lower, after, ".visualstudio.com"@);
    }
}

/// A pull request is on the platform of its repository: the URL of a pull request names the same
/// platform read as either, unless it has the mark of pull requests on another platform.
pub proof fn lemma_pr_provider_agrees(lower: Seq<char>)
    requires
        provider_of_lower(lower) == GitHostProvider::GitHub ==> text::contains(lower, "/pull/"@)
            || !text::contains(lower, "/pullrequest/"@),
        provider_of_lower(lower) == GitHostProvider::AzureDevOps ==> !text::contains(
            lower,
            "/pull/"@,
        ),
        provider_of_lower(lower) == GitHostProvider::Unknown ==> !text::contains(
            lower,
            "/pullrequest/"@,
        ),
    ensures
        pr_provider_of_lower(lower) == provider_of_lower(lower),
{
}

} // verus!
