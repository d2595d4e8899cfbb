//! Types that all git hosting platforms share.
use vstd::prelude::*;

use crate::text;
use crate::time::Timestamp;

verus! {

/// Git hosting platforms.
#[derive(Debug, Clone, Copy, PartialEq, Eq, Structural)]
pub enum GitHostProvider {
    GitHub,
    AzureDevOps,
    Unknown,
}

impl GitHostProvider {
    /// What the platform is called.
    pub open spec fn name(self) -> Seq<char> {
        match self {
            GitHostProvider::GitHub => "GitHub"@,
            GitHostProvider::AzureDevOps => "Azure DevOps"@,
            GitHostProvider::Unknown => "Unknown"@,
        }
    }

    /// What the platform is called.
    pub fn to_text(self) -> (res: String)
        ensures
            res@ == self.name(),
    {
        match self {
            GitHostProvider::GitHub => text::owned("GitHub"),
            GitHostProvider::AzureDevOps => text::owned("Azure DevOps"),
            GitHostProvider::Unknown => text::owned("Unknown"),
        }
    }
}

/// What is known of a repository.
#[derive(Debug, Clone, PartialEq)]
pub enum RepoInfo<S = String> {
    GitHub { owner: S, repo_name: S },
    /// An Azure DevOps repository, as the CLI describes it.
    AzureDevOps {
        /// The full organization URL, such as `https://dev.azure.com/org`; the CLI takes it with
        /// the `--organization` flag.
        organization_url: S,
        /// The project's name, for display.
        project: S,
        /// The project's UUID, for API calls.
        project_id: S,
        /// The repository's name, for display.
        repo_name: S,
        /// The repository's UUID, for API calls.
        repo_id: S,
    },
}

impl DeepView for RepoInfo {
    type V = RepoInfo<Seq<char>>;

    open spec fn deep_view(&self) -> RepoInfo<Seq<char>> {
        match *self {
            RepoInfo::GitHub { owner, repo_name } => RepoInfo::GitHub {
                owner: owner@,
                repo_name: repo_name@,
            },
            RepoInfo::AzureDevOps {
                organization_url,
                project,
                project_id,
                repo_name,
                repo_id,
            } => RepoInfo::AzureDevOps {
                organization_url: organization_url@,
                project: project@,
                project_id: project_id@,
                repo_name: repo_name@,
                repo_id: repo_id@,
            },
        }
    }
}

impl RepoInfo {
    /// The platform that hosts the repository.
    pub fn provider(&self) -> (res: GitHostProvider)
        ensures
            res == match *self {
                RepoInfo::GitHub { .. } => GitHostProvider::GitHub,
                RepoInfo::AzureDevOps { .. } => GitHostProvider::AzureDevOps,
            },
    {
        match self {
            RepoInfo::GitHub { .. } => GitHostProvider::GitHub,
            RepoInfo::AzureDevOps { .. } => GitHostProvider::AzureDevOps,
        }
    }
}

/// A request to create a pull request, whatever the platform.
#[derive(Debug, Clone, PartialEq)]
pub struct CreatePrRequest {
    pub title: String,
    pub body: Option<String>,
    pub head_branch: String,
    pub base_branch: String,
    pub draft: Option<bool>,
}

/// Errors of operations on a git host.
#[derive(Debug, PartialEq)]
pub enum GitHostError<S = String> {
    Repository(S),
    PullRequest(S),
    AuthFailed(S),
    InsufficientPermissions(S),
    RepoNotFoundOrNoAccess(S),
    CliNotInstalled { provider: GitHostProvider },
    UnsupportedProvider,
    UnexpectedOutput(S),
}

impl DeepView for GitHostError {
    type V = GitHostError<Seq<char>>;

    open spec fn deep_view(&self) -> GitHostError<Seq<char>> {
        match *self {
            GitHostError::Repository(s) => GitHostError::Repository(s@),
            GitHostError::PullRequest(s) => GitHostError::PullRequest(s@),
            GitHostError::AuthFailed(s) => GitHostError::AuthFailed(s@),
            GitHostError::InsufficientPermissions(s) => GitHostError::InsufficientPermissions(s@),
            GitHostError::RepoNotFoundOrNoAccess(s) => GitHostError::RepoNotFoundOrNoAccess(s@),
            GitHostError::CliNotInstalled { provider } => GitHostError::CliNotInstalled {
                provider,
            },
            GitHostError::UnsupportedProvider => GitHostError::UnsupportedProvider,
            GitHostError::UnexpectedOutput(s) => GitHostError::UnexpectedOutput(s@),
        }
    }
}

impl GitHostError<Seq<char>> {
    /// What the error says.
    pub open spec fn text(self) -> Seq<char> {
        match self {
            GitHostError::Repository(s) => "Repository error: "@ + s,
            GitHostError::PullRequest(s) => "Pull request error: "@ + s,
            GitHostError::AuthFailed(s) => "Authentication failed: "@ + s,
            GitHostError::InsufficientPermissions(s) => "Insufficient permissions: "@ + s,
            GitHostError::RepoNotFoundOrNoAccess(s) => "Repository not found or no access: "@ + s,
            GitHostError::CliNotInstalled { provider } => provider.name()
                + " CLI is not installed or not available in PATH"@,
            GitHostError::UnsupportedProvider => "Unsupported git hosting provider"@,
            GitHostError::UnexpectedOutput(s) => "CLI returned unexpected output: "@ + s,
        }
    }
}

impl<S> GitHostError<S> {
    /// Whether another attempt may succeed.
    pub open spec fn retryable(self) -> bool {
        self is Repository || self is PullRequest || self is UnexpectedOutput
    }
}

impl GitHostError {
    /// What the error says.
    pub fn message(&self) -> (res: String)
        ensures
            res@ == self.deep_view().text(),
    {
        match self {
            GitHostError::Repository(s) => text::cat2("Repository error: ", s.as_str()),
            GitHostError::PullRequest(s) => text::cat2("Pull request error: ", s.as_str()),
            GitHostError::AuthFailed(s) => text::cat2("Authentication failed: ", s.as_str()),
            GitHostError::InsufficientPermissions(s) => text::cat2(
                "Insufficient permissions: ",
                s.as_str(),
            ),
            GitHostError::RepoNotFoundOrNoAccess(s) => text::cat2(
                "Repository not found or no access: ",
                s.as_str(),
            ),
            GitHostError::CliNotInstalled { provider } => text::cat2(
                provider.to_text().as_str(),
                " CLI is not installed or not available in PATH",
            ),
            GitHostError::UnsupportedProvider => text::owned("Unsupported git hosting provider"),
            GitHostError::UnexpectedOutput(s) => text::cat2(
                "CLI returned unexpected output: ",
                s.as_str(),
            ),
        }
    }

    /// Whether another attempt may succeed.
    pub fn should_retry(&self) -> (res: bool)
        ensures
            res == self.retryable(),
    {
        match self {
            GitHostError::AuthFailed(_) => false,
            GitHostError::InsufficientPermissions(_) => false,
            GitHostError::RepoNotFoundOrNoAccess(_) => false,
            GitHostError::CliNotInstalled { .. } => false,
            GitHostError::UnsupportedProvider => false,
            _ => true,
        }
    }
}

/// Where a pull request stands.
#[derive(Debug, Clone, Copy, PartialEq, Eq, Structural)]
pub enum MergeStatus {
    Open,
    Merged,
    Closed,
    Unknown,
}

/// What is known of a pull request.
#[derive(Debug, Clone, PartialEq)]
pub struct PullRequestInfo<S = String> {
    pub number: i64,
    pub url: S,
    pub status: MergeStatus,
    pub merged_at: Option<Timestamp>,
    pub merge_commit_sha: Option<S>,
}

impl DeepView for PullRequestInfo {
    type V = PullRequestInfo<Seq<char>>;

    open spec fn deep_view(&self) -> PullRequestInfo<Seq<char>> {
        PullRequestInfo {
            number: self.number,
            url: self.url@,
            status: self.status,
            merged_at: self.merged_at,
            merge_commit_sha: self.merge_commit_sha.deep_view(),
        }
    }
}

/// The author of a comment on a pull request.
#[derive(Debug, Clone, PartialEq)]
pub struct PrCommentAuthor<S = String> {
    pub login: S,
}

/// A comment on a pull request.
#[derive(Debug, Clone, PartialEq)]
pub struct PrComment<S = String> {
    pub id: S,
    pub author: PrCommentAuthor<S>,
    pub author_association: S,
    pub body: S,
    pub created_at: Timestamp,
    pub url: S,
}

impl DeepView for PrComment {
    type V = PrComment<Seq<char>>;

    open spec fn deep_view(&self) -> PrComment<Seq<char>> {
        PrComment {
            id: self.id@,
            author: PrCommentAuthor { login: self.author.login@ },
            author_association: self.author_association@,
            body: self.body@,
            created_at: self.created_at,
            url: self.url@,
        }
    }
}

/// The author of a review comment.
#[derive(Debug, Clone, PartialEq)]
pub struct ReviewCommentUser<S = String> {
    pub login: S,
}

/// A review comment on a line of a pull request.
#[derive(Debug, Clone, PartialEq)]
pub struct PrReviewComment<S = String> {
    pub id: i64,
    pub user: ReviewCommentUser<S>,
    pub body: S,
    pub created_at: Timestamp,
    pub html_url: S,
    pub path: S,
    pub line: Option<i64>,
    pub side: Option<S>,
    pub diff_hunk: S,
    pub author_association: S,
}

impl DeepView for PrReviewComment {
    type V = PrReviewComment<Seq<char>>;

    open spec fn deep_view(&self) -> PrReviewComment<Seq<char>> {
        PrReviewComment {
            id: self.id,
            user: ReviewCommentUser { login: self.user.login@ },
            body: self.body@,
            created_at: self.created_at,
            html_url: self.html_url@,
            path: self.path@,
            line: self.line,
            side: self.side.deep_view(),
            diff_hunk: self.diff_hunk@,
            author_association: self.author_association@,
        }
    }
}

/// A comment on a pull request, in its conversation or on its code.
#[allow(inconsistent_fields)]
#[derive(Debug, Clone, PartialEq)]
pub enum UnifiedPrComment<S = String> {
    /// A comment in the conversation.
    General {
        id: S,
        author: S,
        author_association: S,
        body: S,
        created_at: Timestamp,
        url: S,
    },
    /// A comment on a line of code.
    Review {
        id: i64,
        author: S,
        author_association: S,
        body: S,
        created_at: Timestamp,
        url: S,
        path: S,
        line: Option<i64>,
        diff_hunk: S,
    },
}

impl DeepView for UnifiedPrComment {
    type V = UnifiedPrComment<Seq<char>>;

    open spec fn deep_view(&self) -> UnifiedPrComment<Seq<char>> {
        match *self {
            UnifiedPrComment::General { id, author, author_association, body, created_at, url } =>
            UnifiedPrComment::General {
                id: id@,
                author: author@,
                author_association: author_association@,
                body: body@,
                created_at,
                url: url@,
            },
            UnifiedPrComment::Review {
                id,
                author,
                author_association,
                body,
                created_at,
                url,
                path,
                line,
                diff_hunk,
            } => UnifiedPrComment::Review {
                id,
                author: author@,
                author_association: author_association@,
                body: body@,
                created_at,
                url: url@,
                path: path@,
                line,
                diff_hunk: diff_hunk@,
            },
        }
    }
}

impl<S> UnifiedPrComment<S> {
    /// When the comment was made.
    pub open spec fn made_at(self) -> Timestamp {
        match self {
            UnifiedPrComment::General { created_at, .. } => created_at,
            UnifiedPrComment::Review { created_at, .. } => created_at,
        }
    }

    /// When the comment was made.
    pub fn created_at(&self) -> (res: Timestamp)
        ensures
            res == self.made_at(),
    {
        match self {
            UnifiedPrComment::General { created_at, .. } => *created_at,
            UnifiedPrComment::Review { created_at, .. } => *created_at,
        }
    }
}

} // verus!
