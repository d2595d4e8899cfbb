use agent_host::git_host::azure::cli::{
    AzCli, AzCliError, AzCommit, AzPrResponse, AzProject, AzRepoShowResponse, AzRepository,
};
use agent_host::git_host::azure::service::{Attempts, AzureHostService, RETRY_MAX_TIMES};
use agent_host::git_host::azure::threads::{
    keep_comments, AzAuthor, AzFilePosition, AzThread, AzThreadComment, AzThreadContext,
};
use agent_host::git_host::types::{
    CreatePrRequest, GitHostError, GitHostProvider, MergeStatus, RepoInfo, UnifiedPrComment,
};
use agent_host::process::{CommandOutput, Launch};
use agent_host::time::Timestamp;

#[test]
fn test_parse_pr_url() {
    // dev.azure.com format
    let (org, id) =
        AzCli::parse_pr_url("https://dev.azure.com/myorg/myproject/_git/myrepo/pullrequest/123")
            .unwrap();
    assert_eq!(org, "myorg");
    assert_eq!(id, 123);
}

#[test]
fn test_parse_pr_url_visualstudio() {
    // Legacy visualstudio.com format
    let (org, id) =
        AzCli::parse_pr_url("https://myorg.visualstudio.com/myproject/_git/myrepo/pullrequest/456")
            .unwrap();
    assert_eq!(org, "myorg");
    assert_eq!(id, 456);
}

#[test]
fn test_parse_pr_url_invalid() {
    // GitHub URL should return None
    assert!(AzCli::parse_pr_url("https://github.com/owner/repo/pull/123").is_none());
    // Missing pullrequest path
    assert!(AzCli::parse_pr_url("https://dev.azure.com/myorg/myproject/_git/myrepo").is_none());
}

#[test]
fn test_map_azure_status() {
    assert!(matches!(
        AzCli::map_azure_status("active"),
        MergeStatus::Open
    ));
    assert!(matches!(
        AzCli::map_azure_status("completed"),
        MergeStatus::Merged
    ));
    assert!(matches!(
        AzCli::map_azure_status("abandoned"),
        MergeStatus::Closed
    ));
    assert!(matches!(
        AzCli::map_azure_status("unknown"),
        MergeStatus::Unknown
    ));
}

#[test]
fn the_status_may_be_in_upper_case() {
    assert_eq!(AzCli::map_azure_status("Completed"), MergeStatus::Merged);
    assert_eq!(AzCli::status_from_lower("Completed"), MergeStatus::Unknown);
}

#[test]
fn pr_urls_need_a_number() {
    assert!(AzCli::parse_pr_url("https://dev.azure.com/o/p/_git/r/pullrequest/").is_none());
    assert!(AzCli::parse_pr_url("https://dev.azure.com/o/p/_git/r/pullrequest/7?x=1").is_none());
    assert_eq!(
        AzCli::parse_pr_url("https://dev.azure.com/o/p/_git/r/pullrequest/7/files"),
        Some(("o".to_string(), 7))
    );
    assert_eq!(
        AzCli::parse_pr_url("HTTPS://DEV.AZURE.COM/o/p/_git/r/pullrequest/7"),
        None
    );
    assert_eq!(
        AzCli::parse_pr_url_in(
            "https://dev.azure.com/o/p/_git/r/pullrequest/-3",
            "https://dev.azure.com/o/p/_git/r/pullrequest/-3"
        ),
        Some(("o".to_string(), -3))
    );
}

fn ended(success: bool, stdout: &str, stderr: &str) -> Launch {
    Launch::Ended(CommandOutput {
        success,
        code: Some(if success { 0 } else { 1 }),
        stdout: stdout.as_bytes().to_vec(),
        stderr: stderr.as_bytes().to_vec(),
    })
}

#[test]
fn runs_of_the_cli() {
    let az = AzCli::new();
    assert_eq!(az.run(Launch::NotFound), Err(AzCliError::NotAvailable));
    assert_eq!(
        az.run(Launch::NotRun("busy".to_string())),
        Err(AzCliError::CommandFailed("busy".to_string()))
    );
    assert_eq!(az.run(ended(true, "out\n", "")), Ok("out\n".to_string()));
    assert_eq!(
        az.run(ended(false, "", "  Please run 'AZ LOGIN'\n")),
        Err(AzCliError::AuthFailed("Please run 'AZ LOGIN'".to_string()))
    );
    assert_eq!(
        az.run(ended(false, "", "boom\n")),
        Err(AzCliError::CommandFailed("boom".to_string()))
    );
    let broken = Launch::Ended(CommandOutput {
        success: true,
        code: Some(0),
        stdout: vec![b'a', 0xff, b'b'],
        stderr: vec![],
    });
    assert_eq!(az.run(broken), Ok("a\u{fffd}b".to_string()));
}

#[test]
fn what_the_errors_say() {
    assert_eq!(
        AzCliError::NotAvailable.message(),
        "Azure CLI (`az`) executable not found or not runnable"
    );
    assert_eq!(
        AzCliError::CommandFailed("x".to_string()).message(),
        "Azure CLI command failed: x"
    );
    assert_eq!(
        AzCliError::AuthFailed("x".to_string()).message(),
        "Azure CLI authentication failed: x"
    );
    assert_eq!(
        AzCliError::UnexpectedOutput("x".to_string()).message(),
        "Azure CLI returned unexpected output: x"
    );
}

fn repo_show(url: &str) -> AzRepoShowResponse {
    AzRepoShowResponse {
        id: Some("r-id".to_string()),
        name: "repo".to_string(),
        url: url.to_string(),
        project: AzProject {
            id: Some("p-id".to_string()),
            name: "project".to_string(),
        },
    }
}

#[test]
fn repositories_are_described() {
    let az = AzCli::new();
    let info = az
        .get_repo_info(Ok(repo_show("https://dev.azure.com/org/p-id/_apis/git/x")))
        .unwrap();
    assert_eq!(
        info,
        RepoInfo::AzureDevOps {
            organization_url: "https://dev.azure.com/org".to_string(),
            project: "project".to_string(),
            project_id: "p-id".to_string(),
            repo_name: "repo".to_string(),
            repo_id: "r-id".to_string(),
        }
    );
    assert_eq!(info.provider(), GitHostProvider::AzureDevOps);
    assert_eq!(
        az.get_repo_info(Ok(repo_show("https://example.com/org/x"))),
        Err(AzCliError::UnexpectedOutput(
            "Could not extract organization URL from: https://example.com/org/x".to_string()
        ))
    );
    assert_eq!(AzCli::extract_org_url("https://dev.azure.com/org"), None);
}

fn request(draft: Option<bool>, body: Option<&str>) -> CreatePrRequest {
    CreatePrRequest {
        title: "Title".to_string(),
        body: body.map(|b| b.to_string()),
        head_branch: "feature".to_string(),
        base_branch: "main".to_string(),
        draft,
    }
}

#[test]
fn arguments_of_a_listing() {
    let az = AzCli::new();
    assert_eq!(
        az.list_prs_for_branch_args("https://dev.azure.com/o", "p", "r", "b"),
        vec![
            "repos",
            "pr",
            "list",
            "--organization",
            "https://dev.azure.com/o",
            "--project",
            "p",
            "--repository",
            "r",
            "--source-branch",
            "b",
            "--status",
            "all",
            "--output",
            "json"
        ]
    );
    assert_eq!(az.check_auth_args(), vec!["account", "show"]);
}

#[test]
fn arguments_of_a_new_pull_request() {
    let az = AzCli::new();
    let args = az.create_pr_args(
        &request(Some(true), None),
        "https://dev.azure.com/o",
        "p",
        "r",
        None,
    );
    assert!(args.starts_with(&["repos".to_string(), "pr".to_string(), "create".to_string()]));
    assert!(args.contains(&"--draft".to_string()));
    let plain = az.create_pr_args(
        &request(None, None),
        "https://dev.azure.com/o",
        "p",
        "r",
        None,
    );
    assert!(!plain.contains(&"--draft".to_string()));
}

fn pr(id: i64, status: Option<&str>) -> AzPrResponse {
    AzPrResponse {
        pull_request_id: id,
        status: status.map(|s| s.to_string()),
        closed_date: Some("2024-05-01T10:00:00Z".to_string()),
        repository: Some(AzRepository {
            web_url: Some("https://dev.azure.com/o/p/_git/r".to_string()),
        }),
        last_merge_commit: Some(AzCommit {
            commit_id: Some("abc".to_string()),
        }),
    }
}

#[test]
fn pull_requests_are_described() {
    let info = AzCli::az_pr_to_info(pr(12, Some("completed")));
    assert_eq!(info.number, 12);
    assert_eq!(info.url, "https://dev.azure.com/o/p/_git/r/pullrequest/12");
    assert_eq!(info.status, MergeStatus::Merged);
    assert_eq!(
        info.merged_at,
        Some(Timestamp {
            seconds: 1714557600,
            nanos: 0
        })
    );
    assert_eq!(info.merge_commit_sha, Some("abc".to_string()));
    let bare = AzPrResponse {
        pull_request_id: 3,
        status: None,
        closed_date: Some("yesterday".to_string()),
        repository: None,
        last_merge_commit: None,
    };
    let info = AzCli::az_pr_to_info(bare);
    assert_eq!(info.url, "pullrequest/3");
    assert_eq!(info.status, MergeStatus::Open);
    assert_eq!(info.merged_at, None);
}

#[test]
fn answers_that_cannot_be_read() {
    let az = AzCli::new();
    assert_eq!(
        az.create_pr("raw", Err("expected value".to_string())),
        Err(AzCliError::UnexpectedOutput(
            "Failed to parse PR response: expected value; raw: raw".to_string()
        ))
    );
    assert_eq!(
        az.list_prs_for_branch("raw", Err("e".to_string())),
        Err(AzCliError::UnexpectedOutput(
            "Failed to parse PR list: e; raw: raw".to_string()
        ))
    );
    let list = az
        .list_prs_for_branch("raw", Ok(vec![pr(1, None), pr(2, Some("abandoned"))]))
        .unwrap();
    assert_eq!(list.len(), 2);
    assert_eq!(list[1].status, MergeStatus::Closed);
}

fn comment(id: i64, date: &str, kind: Option<&str>) -> AzThreadComment {
    AzThreadComment {
        id: Some(id),
        author: Some(AzAuthor {
            display_name: Some("Ann".to_string()),
        }),
        content: Some(format!("comment {id}")),
        published_date: Some(date.to_string()),
        comment_type: kind.map(|k| k.to_string()),
    }
}

fn thread(path: Option<&str>, comments: Vec<AzThreadComment>) -> AzThread {
    AzThread {
        comments: Some(comments),
        thread_context: path.map(|p| AzThreadContext {
            file_path: Some(p.to_string()),
            right_file_start: Some(AzFilePosition { line: Some(4) }),
        }),
    }
}

#[test]
fn threads_become_comments_by_date() {
    let threads = vec![
        thread(
            None,
            vec![
                comment(1, "2024-01-03T00:00:00Z", None),
                comment(2, "2024-01-01T00:00:00Z", Some("system")),
            ],
        ),
        thread(
            Some("/src/a.rs"),
            vec![comment(3, "2024-01-02T00:00:00Z", Some("text"))],
        ),
        AzThread {
            comments: None,
            thread_context: None,
        },
    ];
    assert_eq!(keep_comments(&threads).len(), 2);
    let az = AzCli::new();
    let comments = az.get_pr_threads("raw", Ok(threads)).unwrap();
    assert_eq!(comments.len(), 2);
    assert_eq!(
        comments[0],
        UnifiedPrComment::Review {
            id: 3,
            author: "Ann".to_string(),
            author_association: String::new(),
            body: "comment 3".to_string(),
            created_at: Timestamp {
                seconds: 1704153600,
                nanos: 0
            },
            url: String::new(),
            path: "/src/a.rs".to_string(),
            line: Some(4),
            diff_hunk: String::new(),
        }
    );
    match &comments[1] {
        UnifiedPrComment::General { id, .. } => assert_eq!(id, "1"),
        other => panic!("{other:?}"),
    }
}

#[test]
fn comments_without_a_date_are_dated_now() {
    let kept = keep_comments(&vec![thread(None, vec![comment(1, "never", None)])]);
    let now = Timestamp {
        seconds: 5,
        nanos: 6,
    };
    let comments = AzCli::comments_by_date(kept, &vec![now]);
    assert_eq!(comments[0].created_at(), now);
}

#[test]
fn errors_of_the_service() {
    let service = AzureHostService::new().unwrap();
    assert_eq!(service.provider(), GitHostProvider::AzureDevOps);
    let fail = |m: &str| -> GitHostError {
        service
            .get_pr_status(Ok(Err(AzCliError::CommandFailed(m.to_string()))))
            .unwrap_err()
    };
    assert_eq!(
        fail("HTTP 403"),
        GitHostError::InsufficientPermissions("HTTP 403".to_string())
    );
    assert_eq!(
        fail("Not Found"),
        GitHostError::RepoNotFoundOrNoAccess("Not Found".to_string())
    );
    assert_eq!(fail("odd"), GitHostError::PullRequest("odd".to_string()));
    assert_eq!(
        service.get_pr_status(Ok(Err(AzCliError::NotAvailable))),
        Err(GitHostError::CliNotInstalled {
            provider: GitHostProvider::AzureDevOps
        })
    );
    assert_eq!(
        service.get_pr_status(Err("panicked".to_string())),
        Err(GitHostError::PullRequest(
            "Failed to execute Azure CLI for viewing PR: panicked".to_string()
        ))
    );
    assert_eq!(
        service.check_auth(Ok(Err(AzCliError::CommandFailed("x".to_string())))),
        Err(GitHostError::Repository(
            "Azure CLI auth check failed: x".to_string()
        ))
    );
    assert!(service.check_auth(Ok(Ok(()))).is_ok());
}

#[test]
fn a_failed_auth_check_tells_of_auth() {
    let az = AzCli::new();
    assert_eq!(
        az.check_auth(Err(AzCliError::CommandFailed("x".to_string()))),
        Err(AzCliError::AuthFailed("x".to_string()))
    );
    assert!(az.check_auth(Ok("{}".to_string())).is_ok());
}

#[test]
fn retries_go_by_the_error() {
    assert!(GitHostError::PullRequest("x".to_string()).should_retry());
    assert!(GitHostError::Repository("x".to_string()).should_retry());
    assert!(GitHostError::UnexpectedOutput("x".to_string()).should_retry());
    assert!(!GitHostError::AuthFailed("x".to_string()).should_retry());
    assert!(!GitHostError::InsufficientPermissions("x".to_string()).should_retry());
    assert!(!GitHostError::RepoNotFoundOrNoAccess("x".to_string()).should_retry());
    assert!(!GitHostError::UnsupportedProvider.should_retry());
    let missing: GitHostError = GitHostError::CliNotInstalled {
        provider: GitHostProvider::AzureDevOps,
    };
    assert!(!missing.should_retry());
    assert_eq!(
        missing.message(),
        "Azure DevOps CLI is not installed or not available in PATH"
    );
}

#[test]
fn targets_need_an_azure_repository() {
    let service = AzureHostService::new().unwrap();
    let github = RepoInfo::GitHub {
        owner: "o".to_string(),
        repo_name: "r".to_string(),
    };
    assert!(service.pr_target(&github).is_err());
    assert!(service.comment_target(&github).is_err());
}

#[test]
fn pr_urls_are_read_back_whatever_the_names() {
    for name in ["org", "Größe", "ÄÖÜ", "ΣΑΣ", "İstanbul", "名前", "a b", "_git"] {
        let url = format!("https://dev.azure.com/{name}/{name}/_git/{name}/pullrequest/-7");
        assert_eq!(AzCli::parse_pr_url(&url), Some((name.to_string(), -7)));
        let url = format!("https://{name}.visualstudio.com/{name}/_git/{name}/pullrequest/7");
        assert_eq!(AzCli::parse_pr_url(&url), Some((name.to_string(), 7)));
    }
    // The host of the newer form decides where it stands as it is, and only there.
    assert_eq!(
        AzCli::parse_pr_url("https://o.visualstudio.com/DEV.AZURE.COM/_git/r/pullrequest/7"),
        Some(("o".to_string(), 7))
    );
    assert_eq!(
        AzCli::parse_pr_url("https://o.visualstudio.com/dev.azure.com/_git/r/pullrequest/7"),
        Some(("_git".to_string(), 7))
    );
}

#[test]
fn operations_are_tried_again_a_few_times() {
    let retryable: Result<(), GitHostError> = Err(GitHostError::PullRequest("x".to_string()));
    let mut attempts = Attempts::new();
    for _ in 0..RETRY_MAX_TIMES {
        assert!(attempts.on_outcome(&retryable));
    }
    assert!(!attempts.on_outcome(&retryable));
    assert_eq!(attempts.again, 3);

    let mut attempts = Attempts::new();
    assert!(attempts.on_outcome(&retryable));
    assert!(!attempts.on_outcome(&Ok(())));
    let lasting: Result<(), GitHostError> = Err(GitHostError::UnsupportedProvider);
    assert!(!Attempts::new().on_outcome(&lasting));
    assert_eq!(attempts.again, 1);
}
