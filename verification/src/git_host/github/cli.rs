//! The GitHub CLI (`gh`): the arguments it is called with, and what its answers mean.
use vstd::prelude::*;
use vstd::string::*;

use crate::decimal;
use crate::git_host::types::{CreatePrRequest, MergeStatus, PullRequestInfo, RepoInfo};
use crate::json;
use crate::json::{Json, JsonView};
use crate::model;
use crate::process;
use crate::process::Launch;
use crate::text;
use crate::text::CharClass;
use crate::time;

verus! {

/// Errors of the GitHub CLI.
#[derive(Debug, PartialEq)]
pub enum GhCliError<S = String> {
    NotAvailable,
    CommandFailed(S),
    AuthFailed(S),
    UnexpectedOutput(S),
}

impl DeepView for GhCliError {
    type V = GhCliError<Seq<char>>;

    open spec fn deep_view(&self) -> GhCliError<Seq<char>> {
        match *self {
            GhCliError::NotAvailable => GhCliError::NotAvailable,
            GhCliError::CommandFailed(s) => GhCliError::CommandFailed(s@),
            GhCliError::AuthFailed(s) => GhCliError::AuthFailed(s@),
            GhCliError::UnexpectedOutput(s) => GhCliError::UnexpectedOutput(s@),
        }
    }
}

impl GhCliError<Seq<char>> {
    /// What the error says.
    pub open spec fn text(self) -> Seq<char> {
        match self {
            GhCliError::NotAvailable => "GitHub CLI (`gh`) executable not found or not runnable"@,
            GhCliError::CommandFailed(s) => "GitHub CLI command failed: "@ + s,
            GhCliError::AuthFailed(s) => "GitHub CLI authentication failed: "@ + s,
            GhCliError::UnexpectedOutput(s) => "GitHub CLI returned unexpected output: "@ + s,
        }
    }
}

impl GhCliError {
    /// What the error says.
    pub fn message(&self) -> (res: String)
        ensures
            res@ == self.deep_view().text(),
    {
        match self {
            GhCliError::NotAvailable => text::owned(
                "GitHub CLI (`gh`) executable not found or not runnable",
            ),
            GhCliError::CommandFailed(s) => text::cat2("GitHub CLI command failed: ", s.as_str()),
            GhCliError::AuthFailed(s) => text::cat2(
                "GitHub CLI authentication failed: ",
                s.as_str(),
            ),
            GhCliError::UnexpectedOutput(s) => text::cat2(
                "GitHub CLI returned unexpected output: ",
                s.as_str(),
            ),
        }
    }
}

/// The answer of `gh repo view`.
pub struct GhRepoResponse {
    pub owner: GhOwner,
    pub name: String,
}

/// The owner of a repository.
pub struct GhOwner {
    pub login: String,
}

/// The arguments of `gh pr create`, but for the path of the file that holds the body: it stands
/// between the two lists.
pub struct CreatePrArgs {
    pub before_body_file: Vec<String>,
    pub after_body_file: Vec<String>,
}

// ---------------------------------------------------------------------------
// Meanings
// ---------------------------------------------------------------------------

/// Whether what the CLI wrote to its standard error tells of missing authentication.
pub open spec fn tells_of_auth(stderr: Seq<char>) -> bool {
    let lower = text::ascii_lower(stderr);
    ||| text::contains(lower, "authentication failed"@)
    ||| text::contains(lower, "must authenticate"@)
    ||| text::contains(lower, "bad credentials"@)
    ||| text::contains(lower, "unauthorized"@)
    ||| text::contains(lower, "gh auth login"@)
}

/// What a run of the CLI comes to. The CLI leaves with the code 4 where authentication failed.
pub open spec fn run_result(launch: Launch) -> Result<Seq<char>, GhCliError<Seq<char>>> {
    match launch {
        Launch::NotFound => Err(GhCliError::NotAvailable),
        Launch::NotRun(reason) => Err(GhCliError::CommandFailed(reason@)),
        Launch::Ended(output) => if output.success {
            Ok(text::lossy_text(output.stdout@))
        } else {
            let stderr = text::trimmed(text::lossy_text(output.stderr@));
            if output.code == Some(4i32) || tells_of_auth(stderr) {
                Err(GhCliError::AuthFailed(stderr))
            } else {
                Err(GhCliError::CommandFailed(stderr))
            }
        },
    }
}

/// A word without the angle brackets around it.
pub open spec fn unbracketed(word: Seq<char>) -> Seq<char> {
    text::trimmed_of(word, CharClass::Angle)
}

/// Whether a word is the URL of a pull request.
pub open spec fn is_pr_url(word: Seq<char>) -> bool {
    text::occurs_at(word, "http"@, 0) && text::contains(word, "/pull/"@)
}

/// The first of the words from the `i`-th on that is the URL of a pull request.
pub open spec fn url_in_words(words: Seq<Seq<char>>, i: int) -> Option<Seq<char>>
    decreases words.len() - i,
{
    if i < 0 || i >= words.len() {
        None
    } else if is_pr_url(unbracketed(words[i])) {
        Some(unbracketed(words[i]))
    } else {
        url_in_words(words, i + 1)
    }
}

/// The first URL of a pull request in the last of the first `n` lines that has one.
pub open spec fn url_in_lines(lines: Seq<Seq<char>>, n: int) -> Option<Seq<char>>
    decreases n,
{
    if n <= 0 || n > lines.len() {
        None
    } else {
        model::either(
            url_in_words(text::words_of(lines[n - 1]), 0),
            url_in_lines(lines, n - 1),
        )
    }
}

/// The URL of the pull request in the output of `gh pr create`: the first on the last line that
/// has one, without the punctuation after it.
pub open spec fn created_url(raw: Seq<char>) -> Option<Seq<char>> {
    let lines = text::lines_of(raw);
    match url_in_lines(lines, lines.len() as int) {
        Some(url) => Some(text::trimmed_end_of(url, CharClass::Stop)),
        None => None,
    }
}

/// The number at the end of the URL of a pull request.
pub open spec fn number_in_url(url: Seq<char>) -> Result<int, decimal::IntError> {
    decimal::parsed_i64(
        text::trimmed_end_of(text::split_on(url, '/').last(), CharClass::NonDigit),
    )
}

/// What the output of `gh pr create` says of the pull request.
pub open spec fn created_pr(raw: Seq<char>) -> Result<
    PullRequestInfo<Seq<char>>,
    GhCliError<Seq<char>>,
> {
    match created_url(raw) {
        None => Err(
            GhCliError::UnexpectedOutput(
                "gh pr create did not return a pull request URL; raw output: "@ + raw,
            ),
        ),
        Some(url) => match number_in_url(url) {
            Ok(number) => Ok(
                PullRequestInfo {
                    number: number as i64,
                    url,
                    status: MergeStatus::Open,
                    merged_at: None,
                    merge_commit_sha: None,
                },
            ),
            Err(e) => Err(
                GhCliError::UnexpectedOutput(
                    "Failed to parse PR number from URL '"@ + url + "': "@ + e.message_spec(),
                ),
            ),
        },
    }
}

/// Where a pull request stands, in the CLI's word for it.
pub open spec fn status_of(state: Seq<char>) -> MergeStatus {
    let upper = text::ascii_upper(state);
    if upper == "OPEN"@ {
        MergeStatus::Open
    } else if upper == "MERGED"@ {
        MergeStatus::Merged
    } else if upper == "CLOSED"@ {
        MergeStatus::Closed
    } else {
        MergeStatus::Unknown
    }
}

/// What a JSON object says of a pull request: it must hold a number and a URL.
pub open spec fn info_of(value: JsonView) -> Option<PullRequestInfo<Seq<char>>> {
    let number = json::opt_integer(value.field("number"@));
    let url = json::opt_text(value.field("url"@));
    if number is Some && url is Some {
        Some(
            PullRequestInfo {
                number: number->0,
                url: url->0,
                status: status_of(
                    model::value_or(json::opt_text(value.field("state"@)), "OPEN"@),
                ),
                merged_at: time::opt_instant_of(json::opt_text(value.field("mergedAt"@))),
                merge_commit_sha: json::opt_text(
                    json::opt_field(value.field("mergeCommit"@), "oid"@),
                ),
            },
        )
    } else {
        None
    }
}

/// What the answer of `gh pr view` says of the pull request.
pub open spec fn viewed_pr(raw: Seq<char>) -> Result<
    PullRequestInfo<Seq<char>>,
    GhCliError<Seq<char>>,
> {
    match json::json_of_text(text::trimmed(raw)) {
        Err(e) => Err(
            GhCliError::UnexpectedOutput(
                "Failed to parse gh pr view response: "@ + e + "; raw: "@ + raw,
            ),
        ),
        Ok(value) => viewed_value(value),
    }
}

/// What the JSON value that `gh pr view` answers with says of the pull request.
pub open spec fn viewed_value(value: JsonView) -> Result<
    PullRequestInfo<Seq<char>>,
    GhCliError<Seq<char>>,
> {
    match info_of(value) {
        Some(info) => Ok(info),
        None => Err(
            GhCliError::UnexpectedOutput(
                "gh pr view response missing required fields: "@ + json::json_debug(value),
            ),
        ),
    }
}

/// What the items from the `i`-th on say of pull requests; the first that does not say enough
/// decides the error.
pub open spec fn infos_from(items: Seq<JsonView>, i: int) -> Result<
    Seq<PullRequestInfo<Seq<char>>>,
    GhCliError<Seq<char>>,
>
    decreases items.len() - i,
{
    if i < 0 || i >= items.len() {
        Ok(seq![])
    } else {
        match info_of(items[i]) {
            None => Err(
                GhCliError::UnexpectedOutput(
                    "gh pr list item missing required fields: "@ + json::json_debug(items[i]),
                ),
            ),
            Some(info) => match infos_from(items, i + 1) {
                Ok(rest) => Ok(seq![info] + rest),
                Err(e) => Err(e),
            },
        }
    }
}

/// What the JSON value that `gh pr list` answers with says of the pull requests.
pub open spec fn listed_value(value: JsonView) -> Result<
    Seq<PullRequestInfo<Seq<char>>>,
    GhCliError<Seq<char>>,
> {
    match value.as_items() {
        Some(items) => infos_from(items, 0),
        None => Err(
            GhCliError::UnexpectedOutput(
                "gh pr list response is not an array: "@ + json::json_debug(value),
            ),
        ),
    }
}

/// What the answer of `gh pr list` says of the pull requests.
pub open spec fn listed_prs(raw: Seq<char>) -> Result<
    Seq<PullRequestInfo<Seq<char>>>,
    GhCliError<Seq<char>>,
> {
    match json::json_of_text(text::trimmed(raw)) {
        Err(e) => Err(
            GhCliError::UnexpectedOutput(
                "Failed to parse gh pr list response: "@ + e + "; raw: "@ + raw,
            ),
        ),
        Ok(value) => listed_value(value),
    }
}

/// The arguments of `gh pr create` before the path of the file that holds the body.
pub open spec fn create_args(request: CreatePrRequest, owner: Seq<char>, repo_name: Seq<char>) -> Seq<
    Seq<char>,
> {
    seq![
        "pr"@,
        "create"@,
        "--repo"@,
        owner + "/"@ + repo_name,
        "--head"@,
        request.head_branch@,
        "--base"@,
        request.base_branch@,
        "--title"@,
        request.title@,
        "--body-file"@,
    ]
}

// ---------------------------------------------------------------------------
// The CLI
// ---------------------------------------------------------------------------

/// The `gh` command.
#[derive(Debug, Clone, Copy, PartialEq, Eq, Structural)]
pub struct GhCli;

impl GhCli {
    /// The command.
    pub fn new() -> (res: Self)
        ensures
            res == GhCli,
    {
        GhCli
    }

    /// What a run of the CLI comes to: its output, or why there is none.
    pub fn run(&self, launch: Launch) -> (res: Result<String, GhCliError>)
        ensures
            model::result_view(res) == run_result(launch),
    {
        let output = match launch {
            Launch::NotFound => {
                return Err(GhCliError::NotAvailable);
            },
            Launch::NotRun(reason) => {
                return Err(GhCliError::CommandFailed(reason));
            },
            Launch::Ended(output) => output,
        };
        if output.success {
            return Ok(text::from_utf8_lossy(&output.stdout));
        }
        let raw = text::from_utf8_lossy(&output.stderr);
        let stderr = text::owned(text::trim(raw.as_str()));
        let auth_code: bool = match output.code {
            Some(code) => code == 4,
            None => false,
        };
        if auth_code {
            return Err(GhCliError::AuthFailed(stderr));
        }
        let lower = text::ascii_lower_chars(stderr.as_str());
        if text::chars_contain(&lower, "authentication failed") || text::chars_contain(
            &lower,
            "must authenticate",
        ) || text::chars_contain(&lower, "bad credentials") || text::chars_contain(
            &lower,
            "unauthorized",
        ) || text::chars_contain(&lower, "gh auth login") {
            return Err(GhCliError::AuthFailed(stderr));
        }
        Err(GhCliError::CommandFailed(stderr))
    }

    /// The arguments that ask for the repository of the current directory.
    pub fn get_repo_info_args(&self) -> (res: Vec<String>)
        ensures
            res.deep_view() == seq!["repo"@, "view"@, "--json"@, "owner,name"@],
    {
        let parts = vec!["repo", "view", "--json", "owner,name"];
        let res = process::arguments(&parts);
        assert(res.deep_view() =~= seq!["repo"@, "view"@, "--json"@, "owner,name"@]);
        res
    }

    /// What is known of a repository from the answer to `get_repo_info_args`, or from what the
    /// error in reading that answer says.
    pub fn get_repo_info(&self, response: Result<GhRepoResponse, String>) -> (res: Result<
        RepoInfo,
        GhCliError,
    >)
        ensures
            model::result_view(res) == match response {
                Ok(r) => Ok(RepoInfo::GitHub { owner: r.owner.login@, repo_name: r.name@ }),
                Err(e) => Err(
                    GhCliError::UnexpectedOutput("Failed to parse gh repo view response: "@ + e@),
                ),
            },
    {
        match response {
            Ok(r) => Ok(RepoInfo::GitHub { owner: r.owner.login, repo_name: r.name }),
            Err(e) => Err(
                GhCliError::UnexpectedOutput(
                    text::cat2("Failed to parse gh repo view response: ", e.as_str()),
                ),
            ),
        }
    }

    /// The arguments that create a pull request.
    pub fn create_pr_args(&self, request: &CreatePrRequest, owner: &str, repo_name: &str) -> (res:
        CreatePrArgs)
        ensures
            res.before_body_file.deep_view() == create_args(*request, owner@, repo_name@),
            process::flagged(
                res.before_body_file.deep_view(),
                "--repo"@,
                owner@ + "/"@ + repo_name@,
            ),
            process::flagged(res.before_body_file.deep_view(), "--head"@, request.head_branch@),
            process::flagged(res.before_body_file.deep_view(), "--base"@, request.base_branch@),
            process::flagged(res.before_body_file.deep_view(), "--title"@, request.title@),
            res.before_body_file@.last()@ == "--body-file"@,
            res.after_body_file.deep_view() == if request.draft == Some(true) {
                seq!["--draft"@]
            } else {
                seq![]
            },
    {
        let repo = text::cat3(owner, "/", repo_name);
        let parts = vec![
            "pr",
            "create",
            "--repo",
            repo.as_str(),
            "--head",
            request.head_branch.as_str(),
            "--base",
            request.base_branch.as_str(),
            "--title",
            request.title.as_str(),
            "--body-file",
        ];
        let before_body_file = process::arguments(&parts);
        assert(before_body_file.deep_view() =~= create_args(*request, owner@, repo_name@));
        proof {
            process::lemma_flagged(before_body_file.deep_view(), 2);
            process::lemma_flagged(before_body_file.deep_view(), 4);
            process::lemma_flagged(before_body_file.deep_view(), 6);
            process::lemma_flagged(before_body_file.deep_view(), 8);
            assert(before_body_file.deep_view()[10] == before_body_file@[10]@);
        }
        let draft: bool = match request.draft {
            Some(d) => d,
            None => false,
        };
        let mut more: Vec<&str> = Vec::new();
        if draft {
            more.push("--draft");
        }
        let after_body_file = process::arguments(&more);
        assert(after_body_file.deep_view() =~= if request.draft == Some(true) {
            seq!["--draft"@]
        } else {
            seq![]
        });
        CreatePrArgs { before_body_file, after_body_file }
    }

    /// The text of the body of a pull request.
    pub fn create_pr_body<'a>(&self, request: &'a CreatePrRequest) -> (res: &'a str)
        ensures
            res@ == model::value_or(request.body.deep_view(), ""@),
    {
        match &request.body {
            Some(b) => b.as_str(),
            None => "",
        }
    }

    /// What is known of a pull request that was just created, from the CLI's output.
    pub fn create_pr(&self, raw: &str) -> (res: Result<PullRequestInfo, GhCliError>)
        ensures
            model::result_view(res) == created_pr(raw@),
    {
        Self::parse_pr_create_text(raw)
    }

    /// The arguments that ask for the state of the authentication.
    pub fn check_auth_args(&self) -> (res: Vec<String>)
        ensures
            res.deep_view() == seq!["auth"@, "status"@],
    {
        let parts = vec!["auth", "status"];
        let res = process::arguments(&parts);
        assert(res.deep_view() =~= seq!["auth"@, "status"@]);
        res
    }

    /// Whether the CLI is authenticated, from what `gh auth status` came to.
    pub fn check_auth(&self, outcome: Result<String, GhCliError>) -> (res: Result<(), GhCliError>)
        ensures
            match outcome {
                Ok(_) => res is Ok,
                Err(GhCliError::CommandFailed(msg)) => res == Err::<(), GhCliError>(
                    GhCliError::AuthFailed(msg),
                ),
                Err(e) => res == Err::<(), GhCliError>(e),
            },
    {
        match outcome {
            Ok(_) => Ok(()),
            Err(GhCliError::CommandFailed(msg)) => Err(GhCliError::AuthFailed(msg)),
            Err(e) => Err(e),
        }
    }

    /// The arguments that ask for a pull request.
    pub fn view_pr_args(&self, pr_url: &str) -> (res: Vec<String>)
        ensures
            res.deep_view() == seq![
                "pr"@,
                "view"@,
                pr_url@,
                "--json"@,
                "number,url,state,mergedAt,mergeCommit"@,
            ],
    {
        let parts = vec!["pr", "view", pr_url, "--json", "number,url,state,mergedAt,mergeCommit"];
        let res = process::arguments(&parts);
        assert(res.deep_view() =~= seq![
            "pr"@,
            "view"@,
            pr_url@,
            "--json"@,
            "number,url,state,mergedAt,mergeCommit"@,
        ]);
        res
    }

    /// What is known of a pull request, from the CLI's output.
    pub fn view_pr(&self, raw: &str) -> (res: Result<PullRequestInfo, GhCliError>)
        ensures
            model::result_view(res) == viewed_pr(raw@),
    {
        Self::parse_pr_view(raw)
    }

    /// The arguments that list the pull requests of a branch, closed and merged ones among them.
    pub fn list_prs_for_branch_args(&self, owner: &str, repo: &str, branch: &str) -> (res: Vec<
        String,
    >)
        ensures
            res.deep_view() == seq![
                "pr"@,
                "list"@,
                "--repo"@,
                owner@ + "/"@ + repo@,
                "--state"@,
                "all"@,
                "--head"@,
                branch@,
                "--json"@,
                "number,url,state,mergedAt,mergeCommit"@,
            ],
            process::flagged(res.deep_view(), "--repo"@, owner@ + "/"@ + repo@),
            process::flagged(res.deep_view(), "--state"@, "all"@),
            process::flagged(res.deep_view(), "--head"@, branch@),
    {
        let full = text::cat3(owner, "/", repo);
        let parts = vec![
            "pr",
            "list",
            "--repo",
            full.as_str(),
            "--state",
            "all",
            "--head",
            branch,
            "--json",
            "number,url,state,mergedAt,mergeCommit",
        ];
        let res = process::arguments(&parts);
        assert(res.deep_view() =~= seq![
            "pr"@,
            "list"@,
            "--repo"@,
            owner@ + "/"@ + repo@,
            "--state"@,
            "all"@,
            "--head"@,
            branch@,
            "--json"@,
            "number,url,state,mergedAt,mergeCommit"@,
        ]);
        proof {
            process::lemma_flagged(res.deep_view(), 2);
            process::lemma_flagged(res.deep_view(), 4);
            process::lemma_flagged(res.deep_view(), 6);
        }
        res
    }

    /// What is known of the pull requests of a branch, from the CLI's output.
    pub fn list_prs_for_branch(&self, raw: &str) -> (res: Result<Vec<PullRequestInfo>, GhCliError>)
        ensures
            model::result_view(res) == listed_prs(raw@),
    {
        Self::parse_pr_list(raw)
    }

    fn url_in_line(line: &str) -> (res: Option<String>)
        ensures
            res.deep_view() == url_in_words(text::words_of(line@), 0),
    {
        let words = text::split_whitespace(line);
        for i in 0..words.len()
            invariant
                words.deep_view() == text::words_of(line@),
                url_in_words(text::words_of(line@), 0) == url_in_words(
                    text::words_of(line@),
                    i as int,
                ),
        {
            let token = text::trim_of(words[i], CharClass::Angle);
            if text::str_starts_with(token, "http") && text::str_contains(token, "/pull/") {
                return Some(text::owned(token));
            }
        }
        None
    }

    /// What the output of `gh pr create` says of the pull request.
    pub fn parse_pr_create_text(raw: &str) -> (res: Result<PullRequestInfo, GhCliError>)
        ensures
            model::result_view(res) == created_pr(raw@),
    {
        let lines = text::lines(raw);
        let mut found: Option<String> = None;
        let mut n: usize = lines.len();
        while n > 0 && found.is_none()
            invariant
                n <= lines@.len(),
                lines.deep_view() == text::lines_of(raw@),
                url_in_lines(lines.deep_view(), lines@.len() as int) == match found {
                    Some(u) => Some(u@),
                    None => url_in_lines(lines.deep_view(), n as int),
                },
            decreases n,
        {
            found = Self::url_in_line(lines[n - 1]);
            n = n - 1;
        }
        let url = match found {
            Some(u) => text::owned(text::trim_end_of(u.as_str(), CharClass::Stop)),
            None => {
                return Err(
                    GhCliError::UnexpectedOutput(
                        text::cat2(
                            "gh pr create did not return a pull request URL; raw output: ",
                            raw,
                        ),
                    ),
                );
            },
        };
        let parts = text::split(url.as_str(), '/');
        let last = parts[parts.len() - 1];
        assert(parts.deep_view().last() == last@);
        match decimal::parse_i64(text::trim_end_of(last, CharClass::NonDigit)) {
            Ok(number) => Ok(
                PullRequestInfo {
                    number,
                    url,
                    status: MergeStatus::Open,
                    merged_at: None,
                    merge_commit_sha: None,
                },
            ),
            Err(e) => Err(
                GhCliError::UnexpectedOutput(
                    text::cat4(
                        "Failed to parse PR number from URL '",
                        url.as_str(),
                        "': ",
                        e.message(),
                    ),
                ),
            ),
        }
    }

    /// What a JSON object says of a pull request.
    pub fn extract_pr_info(value: &Json) -> (res: Option<PullRequestInfo>)
        ensures
            res.deep_view() == info_of(value.deep_view()),
    {
        let number = match json::i64_opt(value.get("number")) {
            Some(n) => n,
            None => {
                return None;
            },
        };
        let url = match json::str_opt(value.get("url")) {
            Some(u) => text::owned(u),
            None => {
                return None;
            },
        };
        let state = json::string_or(value.get("state"), "OPEN");
        let merged_at = time::parse_rfc3339_opt(json::str_opt(value.get("mergedAt")));
        let merge_commit_sha = match json::str_opt(
            json::get_opt(value.get("mergeCommit"), "oid"),
        ) {
            Some(s) => Some(text::owned(s)),
            None => None,
        };
        Some(
            PullRequestInfo {
                number,
                url,
                status: Self::map_state(state.as_str()),
                merged_at,
                merge_commit_sha,
            },
        )
    }

    /// Where a pull request stands, in the CLI's word for it.
    pub fn map_state(state: &str) -> (res: MergeStatus)
        ensures
            res == status_of(state@),
    {
        let upper = text::ascii_upper_chars(state);
        if text::chars_eq(&upper, &text::chars_of("OPEN")) {
            MergeStatus::Open
        } else if text::chars_eq(&upper, &text::chars_of("MERGED")) {
            MergeStatus::Merged
        } else if text::chars_eq(&upper, &text::chars_of("CLOSED")) {
            MergeStatus::Closed
        } else {
            MergeStatus::Unknown
        }
    }

    /// What the answer of `gh pr view` says of the pull request.
    pub fn parse_pr_view(raw: &str) -> (res: Result<PullRequestInfo, GhCliError>)
        ensures
            model::result_view(res) == viewed_pr(raw@),
    {
        match Json::parse(text::trim(raw)) {
            Err(e) => Err(
                GhCliError::UnexpectedOutput(
                    text::cat4("Failed to parse gh pr view response: ", e.as_str(), "; raw: ", raw),
                ),
            ),
            Ok(value) => Self::pr_of_view(&value),
        }
    }

    /// What the JSON value that `gh pr view` answers with says of the pull request.
    pub fn pr_of_view(value: &Json) -> (res: Result<PullRequestInfo, GhCliError>)
        ensures
            model::result_view(res) == viewed_value(value.deep_view()),
    {
        match Self::extract_pr_info(value) {
            Some(info) => Ok(info),
            None => Err(
                GhCliError::UnexpectedOutput(
                    text::cat2(
                        "gh pr view response missing required fields: ",
                        value.to_debug().as_str(),
                    ),
                ),
            ),
        }
    }

    /// What the answer of `gh pr list` says of the pull requests.
    pub fn parse_pr_list(raw: &str) -> (res: Result<Vec<PullRequestInfo>, GhCliError>)
        ensures
            model::result_view(res) == listed_prs(raw@),
    {
        match Json::parse(text::trim(raw)) {
            Err(e) => Err(
                GhCliError::UnexpectedOutput(
                    text::cat4("Failed to parse gh pr list response: ", e.as_str(), "; raw: ", raw),
                ),
            ),
            Ok(value) => Self::prs_of_list(&value),
        }
    }

    /// What the JSON value that `gh pr list` answers with says of the pull requests.
    pub fn prs_of_list(value: &Json) -> (res: Result<Vec<PullRequestInfo>, GhCliError>)
        ensures
            model::result_view(res) == listed_value(value.deep_view()),
    {
        let items = match value.as_array() {
            Some(items) => items,
            None => {
                return Err(
                    GhCliError::UnexpectedOutput(
                        text::cat2(
                            "gh pr list response is not an array: ",
                            value.to_debug().as_str(),
                        ),
                    ),
                );
            },
        };
        let ghost all = items.deep_view();
        let mut out: Vec<PullRequestInfo> = Vec::new();
        for i in 0..items.len()
            invariant
                all == items.deep_view(),
                value.deep_view().as_items() == Some(all),
                out@.len() == i,
                match infos_from(all, i as int) {
                    Ok(rest) => infos_from(all, 0) == Ok::<
                        Seq<PullRequestInfo<Seq<char>>>,
                        GhCliError<Seq<char>>,
                    >(out.deep_view() + rest),
                    Err(e) => infos_from(all, 0) == Err::<
                        Seq<PullRequestInfo<Seq<char>>>,
                        GhCliError<Seq<char>>,
                    >(e),
                },
        {
            assert(all[i as int] == items@[i as int].deep_view());
            match Self::extract_pr_info(&items[i]) {
                Some(info) => {
                    let ghost before = out.deep_view();
                    out.push(info);
                    assert(out.deep_view() =~= before.push(info.deep_view()));
                    proof {
                        if let Ok(rest) = infos_from(all, i as int + 1) {
                            assert(out.deep_view() + rest =~= before + (seq![info.deep_view()]
                                + rest));
                        }
                    }
                },
                None => {
                    return Err(
                        GhCliError::UnexpectedOutput(
                            text::cat2(
                                "gh pr list item missing required fields: ",
                                items[i].to_debug().as_str(),
                            ),
                        ),
                    );
                },
            }
        }
        assert(out.deep_view() + Seq::<PullRequestInfo<Seq<char>>>::empty() =~= out.deep_view());
        Ok(out)
    }
}


// ---------------------------------------------------------------------------
// Laws
// ---------------------------------------------------------------------------

proof fn lemma_trimmed_of_same(s: Seq<char>, k: CharClass)
    requires
        s.len() > 0,
        !k.has(s[0]),
        !k.has(s.last()),
    ensures
        text::trimmed_of(s, k) == s,
{
}

/// The number comes back out of the URL that `gh pr create` prints on a line of its own, and the
/// URL is kept as it is.
pub proof fn lemma_created_pr_read_back(base: Seq<char>, number: i64)
    requires
        number >= 0,
        text::occurs_at(base, "http"@, 0),
        forall|i: int| 0 <= i < base.len() ==> !text::white_space(#[trigger] base[i]),
        text::contains(base + seq!['/'] + decimal::decimal(number as int), "/pull/"@),
    ensures
        ({
            let url = base + seq!['/'] + decimal::decimal(number as int);
            created_pr(url.push('\n')) == Ok::<PullRequestInfo<Seq<char>>, GhCliError<Seq<char>>>(
                PullRequestInfo {
                    number,
                    url,
                    status: MergeStatus::Open,
                    merged_at: None,
                    merge_commit_sha: None,
                },
            )
        }),
{
    let digits = decimal::decimal(number as int);
    let url = base + seq!['/'] + digits;
    decimal::lemma_decimal_nat_is_digits(number as nat);
    decimal::lemma_i64_read_back(number);
    reveal_strlit("http");
    assert(base[0] == "http"@[0]);
    assert(url[0] == 'h');
    assert(url.last() == digits.last());
    assert forall|i: int| 0 <= i < url.len() implies !text::white_space(#[trigger] url[i]) by {
        if i < base.len() {
            assert(url[i] == base[i]);
        } else if i > base.len() {
            assert(url[i] == digits[i - base.len() - 1]);
        }
    }
    assert forall|i: int| 0 <= i < url.len() implies (#[trigger] url[i]) != '\n' by {
        assert(!text::white_space(url[i]));
    }
    let lines = text::lines_of(url.push('\n'));
    text::lemma_single_line(url);
    text::lemma_single_word(url);
    lemma_trimmed_of_same(url, CharClass::Angle);
    assert(text::trimmed_end_of(url, CharClass::Stop) == url);
    assert(text::occurs_at(url, "http"@, 0)) by {
        assert forall|k: int| 0 <= k < "http"@.len() implies url[0 + k] == #[trigger] "http"@[k] by {
            assert(base[0 + k] == "http"@[k]);
        }
    }
    assert(is_pr_url(unbracketed(url)));
    assert(url_in_words(text::words_of(url), 0) == Some(url));
    assert(url_in_lines(lines, lines.len() as int) == Some(url)) by {
        assert(lines[lines.len() - 1] == url);
    }
    assert(!digits.contains('/')) by {
        if digits.contains('/') {
            let i = choose|i: int| 0 <= i < digits.len() && digits[i] == '/';
            assert('0' <= digits[i]);
        }
    }
    text::lemma_split_last(base, digits, '/', 0);
    assert(text::split_on(url, '/').last() == digits);
    assert(text::trimmed_end_of(digits, CharClass::NonDigit) == digits);
}

/// The URL that is taken from the output of `gh pr create` is the first one on the last line that
/// has one, without the angle brackets around it and the punctuation after it.
pub proof fn lemma_created_url(raw: Seq<char>, line: int, word: int)
    requires
        ({
            let lines = text::lines_of(raw);
            let words = text::words_of(lines[line]);
            &&& 0 <= line < lines.len()
            &&& 0 <= word < words.len()
            &&& is_pr_url(unbracketed(words[word]))
            &&& forall|i: int| 0 <= i < word ==> !is_pr_url(unbracketed(#[trigger] words[i]))
            &&& forall|l: int, i: int|
                line < l < lines.len() && 0 <= i < text::words_of(lines[l]).len() ==> !is_pr_url(
                    unbracketed(#[trigger] text::words_of(lines[l])[i]),
                )
        }),
    ensures
        created_url(raw) == Some(
            text::trimmed_end_of(
                unbracketed(text::words_of(text::lines_of(raw)[line])[word]),
                CharClass::Stop,
            ),
        ),
{
    let lines = text::lines_of(raw);
    lemma_url_in_words(text::words_of(lines[line]), 0, word);
    lemma_url_in_lines(lines, lines.len() as int, line);
}

proof fn lemma_url_in_words(words: Seq<Seq<char>>, i: int, k: int)
    requires
        0 <= i <= k <= words.len(),
        k < words.len() ==> is_pr_url(unbracketed(words[k])),
        forall|j: int| i <= j < k ==> !is_pr_url(unbracketed(#[trigger] words[j])),
    ensures
        url_in_words(words, i) == if k < words.len() {
            Some(unbracketed(words[k]))
        } else {
            None
        },
    decreases k - i,
{
    if i < k {
        assert(!is_pr_url(unbracketed(words[i])));
        lemma_url_in_words(words, i + 1, k);
    }
}

proof fn lemma_url_in_lines(lines: Seq<Seq<char>>, n: int, line: int)
    requires
        0 <= line < n <= lines.len(),
        url_in_words(text::words_of(lines[line]), 0) is Some,
        forall|l: int, i: int|
            line < l < n && 0 <= i < text::words_of(lines[l]).len() ==> !is_pr_url(
                unbracketed(#[trigger] text::words_of(lines[l])[i]),
            ),
    ensures
        url_in_lines(lines, n) == url_in_words(text::words_of(lines[line]), 0),
    decreases n,
{
    if n - 1 > line {
        let words = text::words_of(lines[n - 1]);
        assert forall|j: int| 0 <= j < words.len() implies !is_pr_url(
            unbracketed(#[trigger] words[j]),
        ) by {
            assert(!is_pr_url(unbracketed(text::words_of(lines[n - 1])[j])));
        }
        lemma_url_in_words(words, 0, words.len() as int);
        lemma_url_in_lines(lines, n - 1, line);
    }
}

} // verus!
