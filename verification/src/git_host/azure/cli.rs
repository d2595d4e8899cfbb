//! The Azure CLI (`az repos`): the arguments it is called with, and what its answers mean.
use vstd::prelude::*;
use vstd::string::*;
use vstd::utf8::*;

use crate::decimal;
use crate::git_host::azure::pr_url;
use crate::git_host::azure::threads;
use crate::git_host::azure::threads::{AzThread, ThreadComment};
use crate::git_host::ordering;
use crate::git_host::types::{
    CreatePrRequest, MergeStatus, PullRequestInfo, RepoInfo, UnifiedPrComment,
};
use crate::model;
use crate::process;
use crate::process::Launch;
use crate::text;
use crate::time;
use crate::time::Timestamp;

verus! {

// ---------------------------------------------------------------------------
// Answers of the CLI
// ---------------------------------------------------------------------------

/// The answer of `az repos show`.
pub struct AzRepoShowResponse {
    /// The repository's UUID, where the answer holds it.
    pub id: Option<String>,
    pub name: String,
    pub url: String,
    pub project: AzProject,
}

/// The project of a repository.
pub struct AzProject {
    /// The project's UUID, where the answer holds it.
    pub id: Option<String>,
    pub name: String,
}

/// A pull request in the answers of `az repos pr show`, `create` and `list`.
pub struct AzPrResponse<S = String> {
    pub pull_request_id: i64,
    pub status: Option<S>,
    pub closed_date: Option<S>,
    pub repository: Option<AzRepository<S>>,
    pub last_merge_commit: Option<AzCommit<S>>,
}

/// The repository of a pull request.
pub struct AzRepository<S = String> {
    pub web_url: Option<S>,
}

/// A commit.
pub struct AzCommit<S = String> {
    pub commit_id: Option<S>,
}

impl DeepView for AzRepository {
    type V = AzRepository<Seq<char>>;

    open spec fn deep_view(&self) -> AzRepository<Seq<char>> {
        AzRepository { web_url: self.web_url.deep_view() }
    }
}

impl DeepView for AzCommit {
    type V = AzCommit<Seq<char>>;

    open spec fn deep_view(&self) -> AzCommit<Seq<char>> {
        AzCommit { commit_id: self.commit_id.deep_view() }
    }
}

impl DeepView for AzPrResponse {
    type V = AzPrResponse<Seq<char>>;

    open spec fn deep_view(&self) -> AzPrResponse<Seq<char>> {
        AzPrResponse {
            pull_request_id: self.pull_request_id,
            status: self.status.deep_view(),
            closed_date: self.closed_date.deep_view(),
            repository: self.repository.deep_view(),
            last_merge_commit: self.last_merge_commit.deep_view(),
        }
    }
}

// ---------------------------------------------------------------------------
// Errors
// ---------------------------------------------------------------------------

/// Errors of the Azure CLI.
#[derive(Debug, PartialEq)]
pub enum AzCliError<S = String> {
    NotAvailable,
    CommandFailed(S),
    AuthFailed(S),
    UnexpectedOutput(S),
}

impl DeepView for AzCliError {
    type V = AzCliError<Seq<char>>;

    open spec fn deep_view(&self) -> AzCliError<Seq<char>> {
        match *self {
            AzCliError::NotAvailable => AzCliError::NotAvailable,
            AzCliError::CommandFailed(s) => AzCliError::CommandFailed(s@),
            AzCliError::AuthFailed(s) => AzCliError::AuthFailed(s@),
            AzCliError::UnexpectedOutput(s) => AzCliError::UnexpectedOutput(s@),
        }
    }
}

impl AzCliError<Seq<char>> {
    /// What the error says.
    pub open spec fn text(self) -> Seq<char> {
        match self {
            AzCliError::NotAvailable => "Azure CLI (`az`) executable not found or not runnable"@,
            AzCliError::CommandFailed(s) => "Azure CLI command failed: "@ + s,
            AzCliError::AuthFailed(s) => "Azure CLI authentication failed: "@ + s,
            AzCliError::UnexpectedOutput(s) => "Azure CLI returned unexpected output: "@ + s,
        }
    }
}

impl AzCliError {
    /// What the error says.
    pub fn message(&self) -> (res: String)
        ensures
            res@ == self.deep_view().text(),
    {
        match self {
            AzCliError::NotAvailable => text::owned(
                "Azure CLI (`az`) executable not found or not runnable",
            ),
            AzCliError::CommandFailed(s) => text::cat2("Azure CLI command failed: ", s.as_str()),
            AzCliError::AuthFailed(s) => text::cat2(
                "Azure CLI authentication failed: ",
                s.as_str(),
            ),
            AzCliError::UnexpectedOutput(s) => text::cat2(
                "Azure CLI returned unexpected output: ",
                s.as_str(),
            ),
        }
    }
}

// ---------------------------------------------------------------------------
// Meanings
// ---------------------------------------------------------------------------

/// Whether what the CLI wrote to its standard error tells of missing authentication.
pub open spec fn tells_of_auth(stderr: Seq<char>) -> bool {
    let lower = text::ascii_lower(stderr);
    ||| text::contains(lower, "az login"@)
    ||| text::contains(lower, "not logged in"@)
    ||| text::contains(lower, "authentication"@)
    ||| text::contains(lower, "unauthorized"@)
    ||| text::contains(lower, "credentials"@)
    ||| text::contains(lower, "please run 'az login'"@)
}

/// What a run of the CLI comes to.
pub open spec fn run_result(launch: Launch) -> Result<Seq<char>, AzCliError<Seq<char>>> {
    match launch {
        Launch::NotFound => Err(AzCliError::NotAvailable),
        Launch::NotRun(reason) => Err(AzCliError::CommandFailed(reason@)),
        Launch::Ended(output) => if output.success {
            Ok(text::lossy_text(output.stdout@))
        } else {
            let stderr = text::trimmed(text::lossy_text(output.stderr@));
            if tells_of_auth(stderr) {
                Err(AzCliError::AuthFailed(stderr))
            } else {
                Err(AzCliError::CommandFailed(stderr))
            }
        },
    }
}

/// The organization URL in an API URL: `https://dev.azure.com/{org}` for a URL that holds
/// `dev.azure.com/{org}/`.
pub open spec fn org_url_of(api_url: Seq<char>) -> Option<Seq<char>> {
    let mark = "dev.azure.com/"@;
    match text::find(api_url, mark) {
        Some(i) => {
            let after = api_url.skip(i + mark.len());
            let slash = text::char_from(after, '/', 0);
            if slash < after.len() {
                Some("https://dev.azure.com/"@ + after.take(slash))
            } else {
                None
            }
        },
        None => None,
    }
}

/// What the answer of `az repos show` says of the repository.
pub open spec fn repo_info_of(response: AzRepoShowResponse) -> Result<
    RepoInfo<Seq<char>>,
    AzCliError<Seq<char>>,
> {
    match org_url_of(response.url@) {
        Some(organization_url) => Ok(
            RepoInfo::AzureDevOps {
                organization_url,
                project: response.project.name@,
                project_id: model::value_or(response.project.id.deep_view(), seq![]),
                repo_name: response.name@,
                repo_id: model::value_or(response.id.deep_view(), seq![]),
            },
        ),
        None => Err(
            AzCliError::UnexpectedOutput(
                "Could not extract organization URL from: "@ + response.url@,
            ),
        ),
    }
}

/// Where a pull request stands, in the CLI's word for it in lower case.
pub open spec fn status_of_lower(lower: Seq<char>) -> MergeStatus {
    if lower == "active"@ {
        MergeStatus::Open
    } else if lower == "completed"@ {
        MergeStatus::Merged
    } else if lower == "abandoned"@ {
        MergeStatus::Closed
    } else {
        MergeStatus::Unknown
    }
}

/// Where a pull request stands, in the CLI's word for it.
pub open spec fn status_of(status: Seq<char>) -> MergeStatus {
    status_of_lower(text::lowercase(status))
}

/// What the CLI's answer says of a pull request.
pub open spec fn info_of(pr: AzPrResponse<Seq<char>>) -> PullRequestInfo<Seq<char>> {
    let web_url = match pr.repository {
        Some(r) => r.web_url,
        None => None,
    };
    PullRequestInfo {
        number: pr.pull_request_id,
        url: match web_url {
            Some(u) => u + "/pullrequest/"@ + decimal::decimal(pr.pull_request_id as int),
            None => "pullrequest/"@ + decimal::decimal(pr.pull_request_id as int),
        },
        status: status_of(model::value_or(pr.status, "active"@)),
        merged_at: time::opt_instant_of(pr.closed_date),
        merge_commit_sha: match pr.last_merge_commit {
            Some(c) => c.commit_id,
            None => None,
        },
    }
}

/// The first position from `i` on at which a part equals the given text.
pub open spec fn part_from(parts: Seq<Seq<char>>, part: Seq<char>, i: int) -> Option<int>
    decreases parts.len() - i,
{
    if i < 0 || i >= parts.len() {
        None
    } else if parts[i] == part {
        Some(i)
    } else {
        part_from(parts, part, i + 1)
    }
}

/// The first position from `i` on at which a part contains the given text.
pub open spec fn holder_from(parts: Seq<Seq<char>>, p: Seq<char>, i: int) -> Option<int>
    decreases parts.len() - i,
{
    if i < 0 || i >= parts.len() {
        None
    } else if text::contains(parts[i], p) {
        Some(i)
    } else {
        holder_from(parts, p, i + 1)
    }
}

/// The part after the first one at the given position, where there is one.
pub open spec fn part_after(parts: Seq<Seq<char>>, i: Option<int>) -> Option<Seq<char>> {
    match i {
        Some(i) => if i + 1 < parts.len() {
            Some(parts[i + 1])
        } else {
            None
        },
        None => None,
    }
}

/// The organization and the pull request that the URL of a pull request names:
/// `https://dev.azure.com/{org}/{project}/_git/{repo}/pullrequest/{id}`, or in the older form
/// `https://{org}.visualstudio.com/{project}/_git/{repo}/pullrequest/{id}`.
/// `lower` is the URL in lower case.
pub open spec fn target_in(url: Seq<char>, lower: Seq<char>) -> Option<(Seq<char>, i64)> {
    let parts = text::split_on(url, '/');
    let id_text = part_after(parts, part_from(parts, "pullrequest"@, 0));
    let org = part_after(parts, holder_from(parts, "dev.azure.com"@, 0));
    let older = holder_from(parts, ".visualstudio.com"@, 0);
    if !text::contains(lower, "/pullrequest/"@) || id_text is None {
        None
    } else {
        match decimal::parsed_i64(id_text->0) {
            Err(_) => None,
            Ok(id) => if text::contains(lower, "dev.azure.com"@) && org is Some {
                Some((org->0, id as i64))
            } else if text::contains(lower, ".visualstudio.com"@) && older is Some {
                Some((text::split_on(parts[older->0], '.')[0], id as i64))
            } else {
                None
            },
        }
    }
}

/// The organization and the pull request that the URL of a pull request names.
pub open spec fn pr_url_target(url: Seq<char>) -> Option<(Seq<char>, i64)> {
    target_in(url, text::lowercase(url))
}

// ---------------------------------------------------------------------------
// The CLI
// ---------------------------------------------------------------------------

/// The `az` command.
#[derive(Debug, Clone, Copy, PartialEq, Eq, Structural)]
pub struct AzCli;

fn first_part(parts: &Vec<&str>, part: &str) -> (res: Option<usize>)
    ensures
        match res {
            Some(i) => part_from(parts.deep_view(), part@, 0) == Some(i as int) && i < parts@.len(),
            None => part_from(parts.deep_view(), part@, 0) is None,
        },
{
    for i in 0..parts.len()
        invariant
            part_from(parts.deep_view(), part@, 0) == part_from(parts.deep_view(), part@, i as int),
    {
        if text::str_eq(parts[i], part) {
            return Some(i);
        }
    }
    None
}

fn first_holder(parts: &Vec<&str>, p: &str) -> (res: Option<usize>)
    ensures
        match res {
            Some(i) => holder_from(parts.deep_view(), p@, 0) == Some(i as int) && i < parts@.len(),
            None => holder_from(parts.deep_view(), p@, 0) is None,
        },
{
    for i in 0..parts.len()
        invariant
            holder_from(parts.deep_view(), p@, 0) == holder_from(parts.deep_view(), p@, i as int),
    {
        if text::str_contains(parts[i], p) {
            return Some(i);
        }
    }
    None
}

impl AzCli {
    /// The command.
    pub fn new() -> (res: Self)
        ensures
            res == AzCli,
    {
        AzCli
    }

    /// What a run of the CLI comes to: its output, or why there is none.
    pub fn run(&self, launch: Launch) -> (res: Result<String, AzCliError>)
        ensures
            model::result_view(res) == run_result(launch),
    {
        let output = match launch {
            Launch::NotFound => {
                return Err(AzCliError::NotAvailable);
            },
            Launch::NotRun(reason) => {
                return Err(AzCliError::CommandFailed(reason));
            },
            Launch::Ended(output) => output,
        };
        if output.success {
            return Ok(text::from_utf8_lossy(&output.stdout));
        }
        let raw = text::from_utf8_lossy(&output.stderr);
        let stderr = text::owned(text::trim(raw.as_str()));
        let lower = text::ascii_lower_chars(stderr.as_str());
        if text::chars_contain(&lower, "az login") || text::chars_contain(&lower, "not logged in")
            || text::chars_contain(&lower, "authentication") || text::chars_contain(
            &lower,
            "unauthorized",
        ) || text::chars_contain(&lower, "credentials") || text::chars_contain(
            &lower,
            "please run 'az login'",
        ) {
            return Err(AzCliError::AuthFailed(stderr));
        }
        Err(AzCliError::CommandFailed(stderr))
    }

    /// The arguments that ask for the repository of the current directory.
    pub fn get_repo_info_args(&self) -> (res: Vec<String>)
        ensures
            res.deep_view() == seq![
                "repos"@,
                "show"@,
                "--detect"@,
                "true"@,
                "--output"@,
                "json"@,
            ],
    {
        let parts = vec!["repos", "show", "--detect", "true", "--output", "json"];
        let res = process::arguments(&parts);
        assert(res.deep_view() =~= seq![
            "repos"@,
            "show"@,
            "--detect"@,
            "true"@,
            "--output"@,
            "json"@,
        ]);
        res
    }

    /// What is known of a repository from the answer to `get_repo_info_args`, or from what the
    /// error in reading that answer says.
    pub fn get_repo_info(&self, response: Result<AzRepoShowResponse, String>) -> (res: Result<
        RepoInfo,
        AzCliError,
    >)
        ensures
            model::result_view(res) == match response {
                Ok(r) => repo_info_of(r),
                Err(e) => Err(
                    AzCliError::UnexpectedOutput("Failed to parse az repos show: "@ + e@),
                ),
            },
    {
        match response {
            Err(e) => Err(
                AzCliError::UnexpectedOutput(
                    text::cat2("Failed to parse az repos show: ", e.as_str()),
                ),
            ),
            Ok(r) => match Self::extract_org_url(r.url.as_str()) {
                Some(organization_url) => Ok(
                    RepoInfo::AzureDevOps {
                        organization_url,
                        project: r.project.name,
                        project_id: match r.project.id {
                            Some(id) => id,
                            None => String::new(),
                        },
                        repo_name: r.name,
                        repo_id: match r.id {
                            Some(id) => id,
                            None => String::new(),
                        },
                    },
                ),
                None => Err(
                    AzCliError::UnexpectedOutput(
                        text::cat2("Could not extract organization URL from: ", r.url.as_str()),
                    ),
                ),
            },
        }
    }

    /// The organization URL in an API URL.
    pub fn extract_org_url(api_url: &str) -> (res: Option<String>)
        ensures
            res.deep_view() == org_url_of(api_url@),
    {
        let cs = text::chars_of(api_url);
        let mark = text::chars_of("dev.azure.com/");
        let n: usize = cs.len();
        match text::find_chars(&cs, &mark) {
            Some(i) => {
                let after = api_url.substring_char(i + mark.len(), n);
                assert(after@ == api_url@.skip(i + mark@.len()));
                let rest = text::chars_of(after);
                let slash: usize = text::char_position(&rest, '/', 0);
                if slash < rest.len() {
                    let org = after.substring_char(0, slash);
                    assert(org@ == after@.take(slash as int));
                    Some(text::cat2("https://dev.azure.com/", org))
                } else {
                    None
                }
            },
            None => None,
        }
    }

    /// The organization and the pull request that the URL of a pull request names. Both come back
    /// out of a URL in either form, whatever letters the names in it have.
    pub fn parse_pr_url(url: &str) -> (res: Option<(String, i64)>)
        ensures
            res.deep_view() == pr_url_target(url@),
            is_ascii_chars(url@) ==> res.deep_view() == target_in(url@, text::ascii_lower(url@)),
            forall|org: Seq<char>, project: Seq<char>, repo: Seq<char>, id: i64|
                url@ == #[trigger] pr_url::pr_url(org, project, repo, id) && pr_url::url_name(org)
                    && pr_url::url_name(project) && pr_url::url_name(repo) ==> res.deep_view()
                    == Some((org, id)),
            forall|org: Seq<char>, project: Seq<char>, repo: Seq<char>, id: i64|
                url@ == #[trigger] pr_url::older_pr_url(org, project, repo, id) && pr_url::url_name(
                    org,
                ) && !org.contains('.') && pr_url::url_name(project) && pr_url::url_name(repo)
                    && !text::contains(project, "dev.azure.com"@) && !text::contains(
                    repo,
                    "dev.azure.com"@,
                ) ==> res.deep_view() == Some((org, id)),
    {
        let lower = text::to_lowercase(url);
        proof {
            pr_url::lemma_marks_are_ascii();
            assert forall|org: Seq<char>, project: Seq<char>, repo: Seq<char>, id: i64|
                url@ == #[trigger] pr_url::pr_url(org, project, repo, id) && pr_url::url_name(org)
                    && pr_url::url_name(project) && pr_url::url_name(repo) implies target_in(
                url@,
                lower@,
            ) == Some((org, id)) by {
                pr_url::lemma_pr_url_marks(org, project, repo, id);
                pr_url::lemma_pr_url_read_back(org, project, repo, id, lower@);
            }
            assert forall|org: Seq<char>, project: Seq<char>, repo: Seq<char>, id: i64|
                url@ == #[trigger] pr_url::older_pr_url(org, project, repo, id) && pr_url::url_name(
                    org,
                ) && !org.contains('.') && pr_url::url_name(project) && pr_url::url_name(repo)
                    && !text::contains(project, "dev.azure.com"@) && !text::contains(
                    repo,
                    "dev.azure.com"@,
                ) implies target_in(url@, lower@) == Some((org, id)) by {
                pr_url::lemma_older_pr_url_marks(org, project, repo, id);
                pr_url::lemma_older_pr_url_read_back(org, project, repo, id, lower@);
            }
        }
        Self::parse_pr_url_in(url, lower.as_str())
    }

    /// The organization and the pull request that the URL of a pull request names; `url_lower` is
    /// the URL in lower case.
    pub fn parse_pr_url_in(url: &str, url_lower: &str) -> (res: Option<(String, i64)>)
        ensures
            res.deep_view() == target_in(url@, url_lower@),
    {
        let lower = text::chars_of(url_lower);
        if !text::chars_contain(&lower, "/pullrequest/") {
            return None;
        }
        let parts = text::split(url, '/');
        let at: usize = match first_part(&parts, "pullrequest") {
            Some(i) => i,
            None => {
                return None;
            },
        };
        let n: usize = parts.len();
        if at + 1 >= n {
            return None;
        }
        let id: i64 = match decimal::parse_i64(parts[at + 1]) {
            Ok(id) => id,
            Err(_) => {
                return None;
            },
        };
        if text::chars_contain(&lower, "dev.azure.com") {
            match first_holder(&parts, "dev.azure.com") {
                Some(i) => {
                    if i + 1 < n {
                        return Some((text::owned(parts[i + 1]), id));
                    }
                },
                None => {},
            }
        }
        if text::chars_contain(&lower, ".visualstudio.com") {
            match first_holder(&parts, ".visualstudio.com") {
                Some(i) => {
                    let labels = text::split(parts[i], '.');
                    assert(labels.deep_view()[0] == labels@[0]@);
                    return Some((text::owned(labels[0]), id));
                },
                None => {},
            }
        }
        None
    }

    /// Where a pull request stands, in the CLI's word for it, in lower case.
    pub fn status_from_lower(status: &str) -> (res: MergeStatus)
        ensures
            res == status_of_lower(status@),
    {
        if text::str_eq(status, "active") {
            MergeStatus::Open
        } else if text::str_eq(status, "completed") {
            MergeStatus::Merged
        } else if text::str_eq(status, "abandoned") {
            MergeStatus::Closed
        } else {
            MergeStatus::Unknown
        }
    }

    /// Where a pull request stands, in the CLI's word for it. Upper and lower case are the same.
    pub fn map_azure_status(status: &str) -> (res: MergeStatus)
        ensures
            res == status_of(status@),
            is_ascii_chars(status@) ==> res == status_of_lower(text::ascii_lower(status@)),
    {
        Self::status_from_lower(text::to_lowercase(status).as_str())
    }

    /// What the CLI's answer says of a pull request.
    pub fn az_pr_to_info(pr: AzPrResponse) -> (res: PullRequestInfo)
        ensures
            res.deep_view() == info_of(pr.deep_view()),
    {
        let number = decimal::i64_to_string(pr.pull_request_id);
        let web_url: Option<String> = match pr.repository {
            Some(r) => r.web_url,
            None => None,
        };
        let url = match web_url {
            Some(u) => text::cat3(u.as_str(), "/pullrequest/", number.as_str()),
            None => text::cat2("pullrequest/", number.as_str()),
        };
        let status = match process::borrow_opt(&pr.status) {
            Some(s) => Self::map_azure_status(s),
            None => Self::map_azure_status("active"),
        };
        let merged_at = time::parse_rfc3339_opt(process::borrow_opt(&pr.closed_date));
        let merge_commit_sha: Option<String> = match pr.last_merge_commit {
            Some(c) => c.commit_id,
            None => None,
        };
        PullRequestInfo { number: pr.pull_request_id, url, status, merged_at, merge_commit_sha }
    }
}


/// The arguments of `az repos pr create`.
pub open spec fn create_args(
    request: CreatePrRequest,
    organization_url: Seq<char>,
    project: Seq<char>,
    repo_name: Seq<char>,
    description: Seq<char>,
) -> Seq<Seq<char>> {
    let always = seq![
        "repos"@,
        "pr"@,
        "create"@,
        "--organization"@,
        organization_url,
        "--project"@,
        project,
        "--repository"@,
        repo_name,
        "--source-branch"@,
        request.head_branch@,
        "--target-branch"@,
        request.base_branch@,
        "--title"@,
        request.title@,
        "--description"@,
        description,
        "--output"@,
        "json"@,
    ];
    if request.draft == Some(true) {
        always.push("--draft"@)
    } else {
        always
    }
}

/// A pull request is created out of the head branch of the request into its base branch, under its
/// title and with the description, in the given repository of the given project and organization:
/// each stands after its own flag. A draft is asked for where the request is for one, and nowhere
/// else.
pub proof fn lemma_create_flags(
    request: CreatePrRequest,
    organization_url: Seq<char>,
    project: Seq<char>,
    repo_name: Seq<char>,
    description: Seq<char>,
)
    ensures
        ({
            let args = create_args(request, organization_url, project, repo_name, description);
            &&& args.take(3) == seq!["repos"@, "pr"@, "create"@]
            &&& process::flagged(args, "--organization"@, organization_url)
            &&& process::flagged(args, "--project"@, project)
            &&& process::flagged(args, "--repository"@, repo_name)
            &&& process::flagged(args, "--source-branch"@, request.head_branch@)
            &&& process::flagged(args, "--target-branch"@, request.base_branch@)
            &&& process::flagged(args, "--title"@, request.title@)
            &&& process::flagged(args, "--description"@, description)
            &&& process::flagged(args, "--output"@, "json"@)
            &&& request.draft == Some(true) ==> args.len() == 20 && args.last() == "--draft"@
            &&& request.draft != Some(true) ==> args.len() == 19
        }),
{
    let args = create_args(request, organization_url, project, repo_name, description);
    assert(args.take(3) =~= seq!["repos"@, "pr"@, "create"@]);
    process::lemma_flagged(args, 3);
    process::lemma_flagged(args, 5);
    process::lemma_flagged(args, 7);
    process::lemma_flagged(args, 9);
    process::lemma_flagged(args, 11);
    process::lemma_flagged(args, 13);
    process::lemma_flagged(args, 15);
    process::lemma_flagged(args, 17);
}

/// The arguments of `az repos pr show` for a pull request of an organization.
pub open spec fn show_args(organization: Seq<char>, id: i64) -> Seq<Seq<char>> {
    seq![
        "repos"@,
        "pr"@,
        "show"@,
        "--id"@,
        decimal::decimal(id as int),
        "--organization"@,
        "https://dev.azure.com/"@ + organization,
        "--output"@,
        "json"@,
    ]
}

/// The pull request that is asked for is the one with the given number, in the given organization.
pub proof fn lemma_show_flags(organization: Seq<char>, id: i64)
    ensures
        ({
            let args = show_args(organization, id);
            &&& args.len() == 9
            &&& args.take(3) == seq!["repos"@, "pr"@, "show"@]
            &&& process::flagged(args, "--id"@, decimal::decimal(id as int))
            &&& process::flagged(
                args,
                "--organization"@,
                "https://dev.azure.com/"@ + organization,
            )
            &&& process::flagged(args, "--output"@, "json"@)
        }),
{
    let args = show_args(organization, id);
    assert(args.take(3) =~= seq!["repos"@, "pr"@, "show"@]);
    process::lemma_flagged(args, 3);
    process::lemma_flagged(args, 5);
    process::lemma_flagged(args, 7);
}

/// The error for an answer that could not be read.
pub open spec fn unreadable(what: Seq<char>, e: Seq<char>, raw: Seq<char>) -> AzCliError<
    Seq<char>,
> {
    AzCliError::UnexpectedOutput(what + e + "; raw: "@ + raw)
}

impl AzCli {
    /// The arguments that create a pull request. `read_back` is the description as it was read
    /// back from the file it was written to, where that succeeded.
    pub fn create_pr_args(
        &self,
        request: &CreatePrRequest,
        organization_url: &str,
        project: &str,
        repo_name: &str,
        read_back: Option<&str>,
    ) -> (res: Vec<String>)
        ensures
            res.deep_view() == create_args(
                *request,
                organization_url@,
                project@,
                repo_name@,
                model::value_or(
                    read_back.deep_view(),
                    model::value_or(request.body.deep_view(), seq![]),
                ),
            ),
            process::flagged(res.deep_view(), "--organization"@, organization_url@),
            process::flagged(res.deep_view(), "--project"@, project@),
            process::flagged(res.deep_view(), "--repository"@, repo_name@),
            process::flagged(res.deep_view(), "--source-branch"@, request.head_branch@),
            process::flagged(res.deep_view(), "--target-branch"@, request.base_branch@),
            process::flagged(res.deep_view(), "--title"@, request.title@),
            process::flagged(res.deep_view(), "--output"@, "json"@),
            match (read_back, request.body) {
                (Some(d), _) => process::flagged(res.deep_view(), "--description"@, d@),
                (None, Some(b)) => process::flagged(res.deep_view(), "--description"@, b@),
                (None, None) => process::flagged(res.deep_view(), "--description"@, seq![]),
            },
            res@.len() == if request.draft == Some(true) {
                20int
            } else {
                19int
            },
            request.draft == Some(true) ==> res@.last()@ == "--draft"@,
    {
        let empty = String::new();
        let body: &str = match &request.body {
            Some(b) => b.as_str(),
            None => empty.as_str(),
        };
        let description: &str = match read_back {
            Some(d) => d,
            None => body,
        };
        let mut parts: Vec<&str> = vec![
            "repos",
            "pr",
            "create",
            "--organization",
            organization_url,
            "--project",
            project,
            "--repository",
            repo_name,
            "--source-branch",
            request.head_branch.as_str(),
            "--target-branch",
            request.base_branch.as_str(),
            "--title",
            request.title.as_str(),
            "--description",
            description,
            "--output",
            "json",
        ];
        let draft: bool = match request.draft {
            Some(d) => d,
            None => false,
        };
        if draft {
            parts.push("--draft");
        }
        let res = process::arguments(&parts);
        assert(res.deep_view() =~= create_args(
            *request,
            organization_url@,
            project@,
            repo_name@,
            description@,
        ));
        proof {
            lemma_create_flags(*request, organization_url@, project@, repo_name@, description@);
        }
        res
    }

    /// What is known of a pull request that was just created, from the CLI's output and what
    /// reading it gave.
    pub fn create_pr(&self, raw: &str, response: Result<AzPrResponse, String>) -> (res: Result<
        PullRequestInfo,
        AzCliError,
    >)
        ensures
            model::result_view(res) == match response {
                Ok(pr) => Ok(info_of(pr.deep_view())),
                Err(e) => Err(unreadable("Failed to parse PR response: "@, e@, raw@)),
            },
    {
        Self::parse_pr_response(raw, response)
    }

    /// Whether the CLI is authenticated, from what `az account show` came to.
    pub fn check_auth(&self, outcome: Result<String, AzCliError>) -> (res: Result<(), AzCliError>)
        ensures
            match outcome {
                Ok(_) => res is Ok,
                Err(AzCliError::CommandFailed(msg)) => res == Err::<(), AzCliError>(
                    AzCliError::AuthFailed(msg),
                ),
                Err(e) => res == Err::<(), AzCliError>(e),
            },
    {
        match outcome {
            Ok(_) => Ok(()),
            Err(AzCliError::CommandFailed(msg)) => Err(AzCliError::AuthFailed(msg)),
            Err(e) => Err(e),
        }
    }

    /// The arguments that ask for the account.
    pub fn check_auth_args(&self) -> (res: Vec<String>)
        ensures
            res.deep_view() == seq!["account"@, "show"@],
    {
        let parts = vec!["account", "show"];
        let res = process::arguments(&parts);
        assert(res.deep_view() =~= seq!["account"@, "show"@]);
        res
    }

    /// The arguments that ask for the pull request that a URL names.
    pub fn view_pr_args(&self, pr_url: &str) -> (res: Result<Vec<String>, AzCliError>)
        ensures
            model::result_view(res) == match pr_url_target(pr_url@) {
                Some(t) => Ok(show_args(t.0, t.1)),
                None => Err(
                    AzCliError::UnexpectedOutput(
                        "Could not parse Azure DevOps PR URL: "@ + pr_url@,
                    ),
                ),
            },
    {
        match Self::parse_pr_url(pr_url) {
            Some(t) => {
                let org_url = text::cat2("https://dev.azure.com/", t.0.as_str());
                let id = decimal::i64_to_string(t.1);
                let parts = vec![
                    "repos",
                    "pr",
                    "show",
                    "--id",
                    id.as_str(),
                    "--organization",
                    org_url.as_str(),
                    "--output",
                    "json",
                ];
                let args = process::arguments(&parts);
                assert(args.deep_view() =~= show_args(t.0@, t.1));
                Ok(args)
            },
            None => Err(
                AzCliError::UnexpectedOutput(
                    text::cat2("Could not parse Azure DevOps PR URL: ", pr_url),
                ),
            ),
        }
    }

    /// What is known of a pull request, from the CLI's output and what reading it gave.
    pub fn view_pr(&self, raw: &str, response: Result<AzPrResponse, String>) -> (res: Result<
        PullRequestInfo,
        AzCliError,
    >)
        ensures
            model::result_view(res) == match response {
                Ok(pr) => Ok(info_of(pr.deep_view())),
                Err(e) => Err(unreadable("Failed to parse PR response: "@, e@, raw@)),
            },
    {
        Self::parse_pr_response(raw, response)
    }

    /// The arguments that list the pull requests of a branch, closed and merged ones among them.
    pub fn list_prs_for_branch_args(
        &self,
        organization_url: &str,
        project: &str,
        repo_name: &str,
        branch: &str,
    ) -> (res: Vec<String>)
        ensures
            res.deep_view() == seq![
                "repos"@,
                "pr"@,
                "list"@,
                "--organization"@,
                organization_url@,
                "--project"@,
                project@,
                "--repository"@,
                repo_name@,
                "--source-branch"@,
                branch@,
                "--status"@,
                "all"@,
                "--output"@,
                "json"@,
            ],
            process::flagged(res.deep_view(), "--organization"@, organization_url@),
            process::flagged(res.deep_view(), "--project"@, project@),
            process::flagged(res.deep_view(), "--repository"@, repo_name@),
            process::flagged(res.deep_view(), "--source-branch"@, branch@),
            process::flagged(res.deep_view(), "--status"@, "all"@),
    {
        let parts = vec![
            "repos",
            "pr",
            "list",
            "--organization",
            organization_url,
            "--project",
            project,
            "--repository",
            repo_name,
            "--source-branch",
            branch,
            "--status",
            "all",
            "--output",
            "json",
        ];
        let res = process::arguments(&parts);
        assert(res.deep_view() =~= seq![
            "repos"@,
            "pr"@,
            "list"@,
            "--organization"@,
            organization_url@,
            "--project"@,
            project@,
            "--repository"@,
            repo_name@,
            "--source-branch"@,
            branch@,
            "--status"@,
            "all"@,
            "--output"@,
            "json"@,
        ]);
        proof {
            process::lemma_flagged(res.deep_view(), 3);
            process::lemma_flagged(res.deep_view(), 5);
            process::lemma_flagged(res.deep_view(), 7);
            process::lemma_flagged(res.deep_view(), 9);
            process::lemma_flagged(res.deep_view(), 11);
        }
        res
    }

    /// What is known of the pull requests of a branch, from the CLI's output and what reading it
    /// gave.
    pub fn list_prs_for_branch(&self, raw: &str, response: Result<Vec<AzPrResponse>, String>) -> (res:
        Result<Vec<PullRequestInfo>, AzCliError>)
        ensures
            model::result_view(res) == match response {
                Ok(prs) => Ok(infos_of(prs.deep_view())),
                Err(e) => Err(unreadable("Failed to parse PR list: "@, e@, raw@)),
            },
    {
        Self::parse_pr_list_response(raw, response)
    }

    /// The arguments that ask for the threads of a pull request.
    pub fn get_pr_threads_args(&self, organization_url: &str, pr_id: i64) -> (res: Vec<String>)
        ensures
            res.deep_view() == seq![
                "repos"@,
                "pr"@,
                "list-threads"@,
                "--organization"@,
                organization_url@,
                "--id"@,
                decimal::decimal(pr_id as int),
                "--output"@,
                "json"@,
            ],
            process::flagged(res.deep_view(), "--organization"@, organization_url@),
            process::flagged(res.deep_view(), "--id"@, decimal::decimal(pr_id as int)),
    {
        let id = decimal::i64_to_string(pr_id);
        let parts = vec![
            "repos",
            "pr",
            "list-threads",
            "--organization",
            organization_url,
            "--id",
            id.as_str(),
            "--output",
            "json",
        ];
        let res = process::arguments(&parts);
        assert(res.deep_view() =~= seq![
            "repos"@,
            "pr"@,
            "list-threads"@,
            "--organization"@,
            organization_url@,
            "--id"@,
            decimal::decimal(pr_id as int),
            "--output"@,
            "json"@,
        ]);
        proof {
            process::lemma_flagged(res.deep_view(), 3);
            process::lemma_flagged(res.deep_view(), 5);
        }
        res
    }

    /// The comments on a pull request, from the CLI's output and what reading it gave.
    pub fn get_pr_threads(&self, raw: &str, response: Result<Vec<AzThread>, String>) -> (res: Result<
        Vec<UnifiedPrComment>,
        AzCliError,
    >)
        ensures
            comments_result(raw@, response, model::result_view(res)),
            match (response, res) {
                (Ok(threads), Ok(comments)) => threads::all_told(threads@, comments.deep_view()),
                (Err(_), Err(_)) => true,
                _ => false,
            },
    {
        Self::parse_pr_threads(raw, response)
    }

    /// What is known of a pull request, from the CLI's output and what reading it gave.
    pub fn parse_pr_response(raw: &str, response: Result<AzPrResponse, String>) -> (res: Result<
        PullRequestInfo,
        AzCliError,
    >)
        ensures
            model::result_view(res) == match response {
                Ok(pr) => Ok(info_of(pr.deep_view())),
                Err(e) => Err(unreadable("Failed to parse PR response: "@, e@, raw@)),
            },
    {
        match response {
            Ok(pr) => Ok(Self::az_pr_to_info(pr)),
            Err(e) => Err(
                AzCliError::UnexpectedOutput(
                    text::cat4("Failed to parse PR response: ", e.as_str(), "; raw: ", raw),
                ),
            ),
        }
    }

    /// What is known of pull requests, from the CLI's output and what reading it gave.
    pub fn parse_pr_list_response(raw: &str, response: Result<Vec<AzPrResponse>, String>) -> (res:
        Result<Vec<PullRequestInfo>, AzCliError>)
        ensures
            model::result_view(res) == match response {
                Ok(prs) => Ok(infos_of(prs.deep_view())),
                Err(e) => Err(unreadable("Failed to parse PR list: "@, e@, raw@)),
            },
    {
        match response {
            Ok(prs) => {
                let ghost all = prs.deep_view();
                let mut rest: Vec<AzPrResponse> = prs;
                let mut out: Vec<PullRequestInfo> = Vec::new();
                while rest.len() > 0
                    invariant
                        out@.len() + rest@.len() == all.len(),
                        rest.deep_view() == all.skip(out@.len() as int),
                        out.deep_view() == infos_of(all.take(out@.len() as int)),
                    decreases rest@.len(),
                {
                    let ghost n = out@.len() as int;
                    let ghost left = rest.deep_view();
                    let pr = rest.remove(0);
                    assert(left[0] == pr.deep_view());
                    assert(rest.deep_view() =~= left.skip(1));
                    assert(left.skip(1) =~= all.skip(n + 1));
                    let ghost before = out.deep_view();
                    out.push(Self::az_pr_to_info(pr));
                    assert(out.deep_view() =~= before.push(info_of(all[n])));
                    assert(infos_of(all.take(n + 1)) =~= infos_of(all.take(n)).push(
                        info_of(all[n]),
                    ));
                }
                assert(all.take(out@.len() as int) =~= all);
                Ok(out)
            },
            Err(e) => Err(
                AzCliError::UnexpectedOutput(
                    text::cat4("Failed to parse PR list: ", e.as_str(), "; raw: ", raw),
                ),
            ),
        }
    }

    /// The comments on a pull request in the order in which they were made, from the CLI's output
    /// and what reading it gave. The time of the call stands for a date that is missing or cannot
    /// be read.
    pub fn parse_pr_threads(raw: &str, response: Result<Vec<AzThread>, String>) -> (res: Result<
        Vec<UnifiedPrComment>,
        AzCliError,
    >)
        ensures
            comments_result(raw@, response, model::result_view(res)),
            match (response, res) {
                (Ok(threads), Ok(comments)) => threads::all_told(threads@, comments.deep_view()),
                (Err(_), Err(_)) => true,
                _ => false,
            },
    {
        match response {
            Ok(threads) => {
                let kept = threads::keep_comments(&threads);
                let nows = time::instants(kept.len());
                let res = Self::comments_by_date(kept, &nows);
                proof {
                    let view = threads::kept_from(threads@, 0);
                    assert(time::clock_instants(nows@, view.len()));
                    assert(res.deep_view() == ordering::by_date(
                        threads::unified_all(view, nows@),
                    ));
                    threads::lemma_all_comments_told(threads@, nows@);
                }
                Ok(res)
            },
            Err(e) => Err(
                AzCliError::UnexpectedOutput(
                    text::cat4("Failed to parse threads: ", e.as_str(), "; raw: ", raw),
                ),
            ),
        }
    }

    /// Comments in the form that all platforms share, in the order in which they were made. Each
    /// of the given instants stands for the date of one comment, should it be missing or
    /// unreadable.
    pub fn comments_by_date(kept: Vec<ThreadComment>, nows: &Vec<Timestamp>) -> (res: Vec<
        UnifiedPrComment,
    >)
        requires
            nows@.len() == kept@.len(),
        ensures
            res.deep_view() == ordering::by_date(threads::unified_all(kept.deep_view(), nows@)),
    {
        let ghost all = kept.deep_view();
        let mut rest: Vec<ThreadComment> = kept;
        let mut out: Vec<UnifiedPrComment> = Vec::new();
        while rest.len() > 0
            invariant
                nows@.len() == all.len(),
                out@.len() + rest@.len() == all.len(),
                rest.deep_view() == all.skip(out@.len() as int),
                out.deep_view() == threads::unified_all(all.take(out@.len() as int), nows@),
            decreases rest@.len(),
        {
            let ghost n = out@.len() as int;
            let ghost left = rest.deep_view();
            let c = rest.remove(0);
            assert(left[0] == c.deep_view());
            assert(rest.deep_view() =~= left.skip(1));
            assert(left.skip(1) =~= all.skip(n + 1));
            let now = nows[out.len()];
            let ghost before = out.deep_view();
            out.push(threads::unify(c, now));
            assert(out.deep_view() =~= before.push(all[n].unified(nows@[n])));
            assert(threads::unified_all(all.take(n + 1), nows@) =~= threads::unified_all(
                all.take(n),
                nows@,
            ).push(all[n].unified(nows@[n])));
        }
        assert(all.take(out@.len() as int) =~= all);
        ordering::sort_by_date(out)
    }
}

/// What the CLI's answers say of pull requests.
pub open spec fn infos_of(prs: Seq<AzPrResponse<Seq<char>>>) -> Seq<PullRequestInfo<Seq<char>>> {
    Seq::new(prs.len(), |i: int| info_of(prs[i]))
}

/// Whether `res` is what the threads of a pull request give: the comments that the system did not
/// make, in the order in which they were made, with a reading of the clock for each date that is
/// missing.
pub open spec fn comments_result(
    raw: Seq<char>,
    response: Result<Vec<AzThread>, String>,
    res: Result<Seq<UnifiedPrComment<Seq<char>>>, AzCliError<Seq<char>>>,
) -> bool {
    match response {
        Ok(threads) => {
            let kept = threads::kept_from(threads@, 0);
            exists|nows: Seq<Timestamp>|
                time::clock_instants(nows, kept.len()) && res == Ok::<
                    Seq<UnifiedPrComment<Seq<char>>>,
                    AzCliError<Seq<char>>,
                >(#[trigger] ordering::by_date(threads::unified_all(kept, nows)))
        },
        Err(e) => res == Err::<Seq<UnifiedPrComment<Seq<char>>>, AzCliError<Seq<char>>>(
            unreadable("Failed to parse threads: "@, e@, raw),
        ),
    }
}

} // verus!
