//! The hosting service of Azure DevOps: what its operations ask of the CLI, and what they make of
//! the CLI's answers.
use vstd::prelude::*;

use crate::git_host::azure::cli::{AzCli, AzCliError};
use crate::git_host::types::{
    GitHostError, GitHostProvider, PullRequestInfo, RepoInfo, UnifiedPrComment,
};
use crate::model;
use crate::text;

verus! {

/// The hosting service of Azure DevOps.
#[derive(Debug, Clone, Copy, PartialEq, Eq, Structural)]
pub struct AzureHostService {
    pub az_cli: AzCli,
}

/// The seconds before the first other attempt of an operation that failed.
pub const RETRY_MIN_DELAY_SECS: u64 = 1;

/// The most seconds between two attempts.
pub const RETRY_MAX_DELAY_SECS: u64 = 30;

/// The most other attempts.
pub const RETRY_MAX_TIMES: usize = 3;

/// Whether the message of a failed command tells of missing permissions.
pub open spec fn tells_of_permissions(msg: Seq<char>) -> bool {
    text::contains(text::ascii_lower(msg), "403"@) || text::contains(
        text::ascii_lower(msg),
        "forbidden"@,
    )
}

/// Whether the message of a failed command tells of something that was not found.
pub open spec fn tells_of_absence(msg: Seq<char>) -> bool {
    text::contains(text::ascii_lower(msg), "404"@) || text::contains(
        text::ascii_lower(msg),
        "not found"@,
    )
}

/// The error of the service for an error of the CLI.
pub open spec fn host_error(error: AzCliError) -> GitHostError {
    match error {
        AzCliError::AuthFailed(msg) => GitHostError::AuthFailed(msg),
        AzCliError::NotAvailable => GitHostError::CliNotInstalled {
            provider: GitHostProvider::AzureDevOps,
        },
        AzCliError::CommandFailed(msg) => if tells_of_permissions(msg@) {
            GitHostError::InsufficientPermissions(msg)
        } else if tells_of_absence(msg@) {
            GitHostError::RepoNotFoundOrNoAccess(msg)
        } else {
            GitHostError::PullRequest(msg)
        },
        AzCliError::UnexpectedOutput(msg) => GitHostError::UnexpectedOutput(msg),
    }
}

impl From<AzCliError> for GitHostError {
    fn from(error: AzCliError) -> (res: Self) {
        match error {
            AzCliError::AuthFailed(msg) => GitHostError::AuthFailed(msg),
            AzCliError::NotAvailable => GitHostError::CliNotInstalled {
                provider: GitHostProvider::AzureDevOps,
            },
            AzCliError::CommandFailed(msg) => {
                let lower = text::ascii_lower_chars(msg.as_str());
                if text::chars_contain(&lower, "403") || text::chars_contain(&lower, "forbidden") {
                    GitHostError::InsufficientPermissions(msg)
                } else if text::chars_contain(&lower, "404") || text::chars_contain(
                    &lower,
                    "not found",
                ) {
                    GitHostError::RepoNotFoundOrNoAccess(msg)
                } else {
                    GitHostError::PullRequest(msg)
                }
            },
            AzCliError::UnexpectedOutput(msg) => GitHostError::UnexpectedOutput(msg),
        }
    }
}

impl vstd::std_specs::convert::FromSpecImpl<AzCliError> for GitHostError {
    open spec fn obeys_from_spec() -> bool {
        true
    }

    open spec fn from_spec(error: AzCliError) -> GitHostError {
        host_error(error)
    }
}

/// What a call of the CLI on another thread came to: `Err` where the call itself was lost, with
/// what is said of that.
pub type Joined<T> = Result<Result<T, AzCliError>, String>;

/// The error of a check of the authentication, for an error of the CLI.
pub open spec fn auth_error(error: AzCliError) -> GitHostError<Seq<char>> {
    match error {
        AzCliError::NotAvailable => GitHostError::CliNotInstalled {
            provider: GitHostProvider::AzureDevOps,
        },
        AzCliError::AuthFailed(msg) => GitHostError::AuthFailed(msg@),
        AzCliError::CommandFailed(msg) => GitHostError::Repository(
            "Azure CLI auth check failed: "@ + msg@,
        ),
        AzCliError::UnexpectedOutput(msg) => GitHostError::Repository(
            "Unexpected output from Azure CLI auth check: "@ + msg@,
        ),
    }
}

/// What names a repository in the commands on pull requests.
pub struct PrTarget<S = String> {
    pub organization_url: S,
    pub project: S,
    pub repo_name: S,
}

impl DeepView for PrTarget {
    type V = PrTarget<Seq<char>>;

    open spec fn deep_view(&self) -> PrTarget<Seq<char>> {
        PrTarget {
            organization_url: self.organization_url@,
            project: self.project@,
            repo_name: self.repo_name@,
        }
    }
}

/// What names a repository in the commands on the comments of a pull request.
pub struct CommentTarget<S = String> {
    pub organization_url: S,
    pub project_id: S,
    pub repo_id: S,
}

impl DeepView for CommentTarget {
    type V = CommentTarget<Seq<char>>;

    open spec fn deep_view(&self) -> CommentTarget<Seq<char>> {
        CommentTarget {
            organization_url: self.organization_url@,
            project_id: self.project_id@,
            repo_id: self.repo_id@,
        }
    }
}

/// The error for a repository of another platform.
pub open spec fn not_azure() -> GitHostError<Seq<char>> {
    GitHostError::Repository("Azure service received non-Azure repo info"@)
}

fn lost<T>(joined: Joined<T>, what: &str) -> (res: Result<T, GitHostError>)
    ensures
        match joined {
            Err(e) => res matches Err(g) && g.deep_view() == GitHostError::PullRequest(what@ + e@),
            Ok(Err(e)) => res == Err::<T, GitHostError>(host_error(e)),
            Ok(Ok(t)) => res == Ok::<T, GitHostError>(t),
        },
{
    match joined {
        Err(e) => Err(GitHostError::PullRequest(text::cat2(what, e.as_str()))),
        Ok(Err(e)) => Err(GitHostError::from(e)),
        Ok(Ok(t)) => Ok(t),
    }
}

impl AzureHostService {
    /// The service.
    pub fn new() -> (res: Result<Self, GitHostError>)
        ensures
            res == Ok::<AzureHostService, GitHostError>(AzureHostService { az_cli: AzCli }),
    {
        Ok(AzureHostService { az_cli: AzCli::new() })
    }

    /// The platform of the service.
    pub fn provider(&self) -> (res: GitHostProvider)
        ensures
            res == GitHostProvider::AzureDevOps,
    {
        GitHostProvider::AzureDevOps
    }

    /// What is known of a repository.
    pub fn get_repo_info(&self, joined: Joined<RepoInfo>) -> (res: Result<RepoInfo, GitHostError>)
        ensures
            match joined {
                Err(e) => res matches Err(g) && g.deep_view() == GitHostError::Repository(
                    "Failed to get repo info: "@ + e@,
                ),
                Ok(Err(e)) => res == Err::<RepoInfo, GitHostError>(host_error(e)),
                Ok(Ok(t)) => res == Ok::<RepoInfo, GitHostError>(t),
            },
    {
        match joined {
            Err(e) => Err(
                GitHostError::Repository(text::cat2("Failed to get repo info: ", e.as_str())),
            ),
            Ok(Err(e)) => Err(GitHostError::from(e)),
            Ok(Ok(t)) => Ok(t),
        }
    }

    /// Whether the CLI is authenticated.
    pub fn check_auth(&self, joined: Joined<()>) -> (res: Result<(), GitHostError>)
        ensures
            match joined {
                Err(e) => res matches Err(g) && g.deep_view() == GitHostError::Repository(
                    "Failed to execute Azure CLI for auth check: "@ + e@,
                ),
                Ok(Err(e)) => res matches Err(g) && g.deep_view() == auth_error(e),
                Ok(Ok(_)) => res is Ok,
            },
    {
        match joined {
            Err(e) => Err(
                GitHostError::Repository(
                    text::cat2("Failed to execute Azure CLI for auth check: ", e.as_str()),
                ),
            ),
            Ok(Err(e)) => Err(
                match e {
                    AzCliError::NotAvailable => GitHostError::CliNotInstalled {
                        provider: GitHostProvider::AzureDevOps,
                    },
                    AzCliError::AuthFailed(msg) => GitHostError::AuthFailed(msg),
                    AzCliError::CommandFailed(msg) => GitHostError::Repository(
                        text::cat2("Azure CLI auth check failed: ", msg.as_str()),
                    ),
                    AzCliError::UnexpectedOutput(msg) => GitHostError::Repository(
                        text::cat2("Unexpected output from Azure CLI auth check: ", msg.as_str()),
                    ),
                },
            ),
            Ok(Ok(_)) => Ok(()),
        }
    }

    /// What names a repository in the commands that create and list pull requests.
    pub fn pr_target(&self, repo_info: &RepoInfo) -> (res: Result<PrTarget, GitHostError>)
        ensures
            model::result_view(res) == match repo_info.deep_view() {
                RepoInfo::AzureDevOps { organization_url, project, repo_name, .. } => Ok(
                    PrTarget { organization_url, project, repo_name },
                ),
                _ => Err(not_azure()),
            },
    {
        match repo_info {
            RepoInfo::AzureDevOps { organization_url, project, repo_name, .. } => Ok(
                PrTarget {
                    organization_url: organization_url.clone(),
                    project: project.clone(),
                    repo_name: repo_name.clone(),
                },
            ),
            _ => Err(
                GitHostError::Repository(text::owned("Azure service received non-Azure repo info")),
            ),
        }
    }

    /// What names a repository in the commands on the comments of a pull request.
    pub fn comment_target(&self, repo_info: &RepoInfo) -> (res: Result<CommentTarget, GitHostError>)
        ensures
            model::result_view(res) == match repo_info.deep_view() {
                RepoInfo::AzureDevOps { organization_url, project_id, repo_id, .. } => Ok(
                    CommentTarget { organization_url, project_id, repo_id },
                ),
                _ => Err(not_azure()),
            },
    {
        match repo_info {
            RepoInfo::AzureDevOps { organization_url, project_id, repo_id, .. } => Ok(
                CommentTarget {
                    organization_url: organization_url.clone(),
                    project_id: project_id.clone(),
                    repo_id: repo_id.clone(),
                },
            ),
            _ => Err(
                GitHostError::Repository(text::owned("Azure service received non-Azure repo info")),
            ),
        }
    }

    /// What an attempt to create a pull request came to.
    pub fn create_pr(&self, joined: Joined<PullRequestInfo>) -> (res: Result<
        PullRequestInfo,
        GitHostError,
    >)
        ensures
            match joined {
                Err(e) => res matches Err(g) && g.deep_view() == GitHostError::PullRequest(
                    "Failed to execute Azure CLI for PR creation: "@ + e@,
                ),
                Ok(Err(e)) => res == Err::<PullRequestInfo, GitHostError>(host_error(e)),
                Ok(Ok(t)) => res == Ok::<PullRequestInfo, GitHostError>(t),
            },
    {
        lost(joined, "Failed to execute Azure CLI for PR creation: ")
    }

    /// What an attempt to look at a pull request came to.
    pub fn get_pr_status(&self, joined: Joined<PullRequestInfo>) -> (res: Result<
        PullRequestInfo,
        GitHostError,
    >)
        ensures
            match joined {
                Err(e) => res matches Err(g) && g.deep_view() == GitHostError::PullRequest(
                    "Failed to execute Azure CLI for viewing PR: "@ + e@,
                ),
                Ok(Err(e)) => res == Err::<PullRequestInfo, GitHostError>(host_error(e)),
                Ok(Ok(t)) => res == Ok::<PullRequestInfo, GitHostError>(t),
            },
    {
        lost(joined, "Failed to execute Azure CLI for viewing PR: ")
    }

    /// What an attempt to list the pull requests of a branch came to.
    pub fn list_prs_for_branch(&self, joined: Joined<Vec<PullRequestInfo>>) -> (res: Result<
        Vec<PullRequestInfo>,
        GitHostError,
    >)
        ensures
            match joined {
                Err(e) => res matches Err(g) && g.deep_view() == GitHostError::PullRequest(
                    "Failed to execute Azure CLI for listing PRs: "@ + e@,
                ),
                Ok(Err(e)) => res == Err::<Vec<PullRequestInfo>, GitHostError>(host_error(e)),
                Ok(Ok(t)) => res == Ok::<Vec<PullRequestInfo>, GitHostError>(t),
            },
    {
        lost(joined, "Failed to execute Azure CLI for listing PRs: ")
    }

    /// What an attempt to fetch the comments on a pull request came to.
    pub fn get_pr_comments(&self, joined: Joined<Vec<UnifiedPrComment>>) -> (res: Result<
        Vec<UnifiedPrComment>,
        GitHostError,
    >)
        ensures
            match joined {
                Err(e) => res matches Err(g) && g.deep_view() == GitHostError::PullRequest(
                    "Failed to execute Azure CLI for fetching PR comments: "@ + e@,
                ),
                Ok(Err(e)) => res == Err::<Vec<UnifiedPrComment>, GitHostError>(host_error(e)),
                Ok(Ok(t)) => res == Ok::<Vec<UnifiedPrComment>, GitHostError>(t),
            },
    {
        lost(joined, "Failed to execute Azure CLI for fetching PR comments: ")
    }
}

/// A failed command is tried again unless its message tells of missing permissions or of
/// something that was not found; other errors of the CLI are tried again only where its output
/// was not understood.
pub proof fn lemma_retried_errors(error: AzCliError)
    ensures
        ({
            host_error(error).retryable() <==> match error {
                AzCliError::CommandFailed(msg) => !tells_of_permissions(msg@) && !tells_of_absence(
                    msg@,
                ),
                AzCliError::UnexpectedOutput(_) => true,
                _ => false,
            }
        }),
{
}

// ---------------------------------------------------------------------------
// Attempts
// ---------------------------------------------------------------------------

/// The attempts of an operation: how many others there were after the first.
#[derive(Debug, Clone, Copy, PartialEq, Eq, Structural)]
pub struct Attempts {
    pub again: usize,
}

/// Whether an operation is tried again after an attempt; `again` others were made before.
pub open spec fn tried_again<T>(again: int, outcome: Result<T, GitHostError>) -> bool {
    match outcome {
        Ok(_) => false,
        Err(e) => e.retryable() && again < RETRY_MAX_TIMES,
    }
}

impl Attempts {
    /// No other attempt was made.
    pub fn new() -> (res: Self)
        ensures
            res.again == 0,
    {
        Attempts { again: 0 }
    }

    /// Takes what an attempt came to, and says whether there is to be another.
    pub fn on_outcome<T>(&mut self, outcome: &Result<T, GitHostError>) -> (res: bool)
        ensures
            res == tried_again(old(self).again as int, *outcome),
            final(self).again == old(self).again + if res {
                1int
            } else {
                0
            },
    {
        match outcome {
            Ok(_) => false,
            Err(e) => {
                if e.should_retry() && self.again < RETRY_MAX_TIMES {
                    self.again = self.again + 1;
                    true
                } else {
                    false
                }
            },
        }
    }
}

/// How many attempts are made in all, where `again` others were made before and the attempts from
/// now on would come to `outcomes`.
pub open spec fn attempts_made<T>(again: int, outcomes: Seq<Result<T, GitHostError>>) -> nat
    decreases outcomes.len(),
{
    if outcomes.len() == 0 {
        0
    } else if tried_again(again, outcomes[0]) {
        1 + attempts_made(again + 1, outcomes.skip(1))
    } else {
        1
    }
}

/// How many calls of the CLI an operation on a repository makes, where they would come to
/// `outcomes`: none where the repository is none of the platform.
pub open spec fn calls_made<T>(
    repo_info: RepoInfo<Seq<char>>,
    outcomes: Seq<Result<T, GitHostError>>,
) -> nat {
    if repo_info is AzureDevOps {
        attempts_made(0, outcomes)
    } else {
        0
    }
}

/// What an operation on a repository comes to: what the last call of the CLI did.
pub open spec fn operation_result<T>(
    repo_info: RepoInfo<Seq<char>>,
    outcomes: Seq<Result<T, GitHostError>>,
) -> Result<T, GitHostError<Seq<char>>> {
    if repo_info is AzureDevOps {
        match outcomes[calls_made(repo_info, outcomes) - 1] {
            Ok(t) => Ok(t),
            Err(e) => Err(e.deep_view()),
        }
    } else {
        Err(not_azure())
    }
}

proof fn lemma_attempts_from<T>(again: int, outcomes: Seq<Result<T, GitHostError>>)
    requires
        0 <= again <= RETRY_MAX_TIMES,
        outcomes.len() > RETRY_MAX_TIMES - again,
    ensures
        ({
            let n = attempts_made(again, outcomes) as int;
            &&& 1 <= n <= RETRY_MAX_TIMES - again + 1
            &&& forall|i: int|
                0 <= i < n - 1 ==> (#[trigger] outcomes[i] matches Err(e) && e.retryable())
            &&& (outcomes[n - 1] matches Err(e) && e.retryable()) ==> n == RETRY_MAX_TIMES - again
                + 1
        }),
    decreases outcomes.len(),
{
    let n = attempts_made(again, outcomes) as int;
    if tried_again(again, outcomes[0]) {
        let later = outcomes.skip(1);
        lemma_attempts_from(again + 1, later);
        assert(n == 1 + attempts_made(again + 1, later));
        assert forall|i: int| 0 <= i < n - 1 implies (#[trigger] outcomes[i] matches Err(e)
            && e.retryable()) by {
            if i > 0 {
                assert(later[i - 1] == outcomes[i]);
            }
        }
        assert(later[n - 2] == outcomes[n - 1]);
    }
}

/// A repository of another platform is refused, and the CLI is not called. Otherwise the CLI is
/// called at least once and at most once more than there may be other attempts; it is called again
/// only after an error that another attempt may mend, and then always as long as there may be other
/// attempts. The last call decides, so nothing is called after a success.
pub proof fn lemma_attempts<T>(
    repo_info: RepoInfo<Seq<char>>,
    outcomes: Seq<Result<T, GitHostError>>,
)
    requires
        outcomes.len() > RETRY_MAX_TIMES,
    ensures
        ({
            let n = calls_made(repo_info, outcomes) as int;
            let result = operation_result(repo_info, outcomes);
            if repo_info is AzureDevOps {
                &&& 1 <= n <= RETRY_MAX_TIMES + 1
                &&& forall|i: int|
                    0 <= i < n - 1 ==> (#[trigger] outcomes[i] matches Err(e) && e.retryable())
                &&& (outcomes[n - 1] matches Err(e) && e.retryable()) ==> n == RETRY_MAX_TIMES + 1
                &&& result == match outcomes[n - 1] {
                    Ok(t) => Ok::<T, GitHostError<Seq<char>>>(t),
                    Err(e) => Err(e.deep_view()),
                }
                &&& forall|i: int| 0 <= i < n && #[trigger] outcomes[i] is Ok ==> i == n - 1
            } else {
                n == 0 && result == Err::<T, GitHostError<Seq<char>>>(not_azure())
            }
        }),
{
    lemma_attempts_from(0, outcomes);
}

} // verus!
