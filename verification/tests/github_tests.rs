use agent_host::git_host::github::cli::{GhCli, GhCliError, GhOwner, GhRepoResponse};
use agent_host::git_host::types::{
    CreatePrRequest, GitHostProvider, MergeStatus, PrComment, PrCommentAuthor, PrReviewComment,
    RepoInfo, ReviewCommentUser,
};
use agent_host::json::Json;
use agent_host::process::{CommandOutput, Launch};
use agent_host::time::Timestamp;

fn parse(s: &str) -> Json {
    Json::parse(s).unwrap()
}

fn failed(code: i32, stderr: &str) -> Launch {
    Launch::Ended(CommandOutput {
        success: false,
        code: Some(code),
        stdout: vec![],
        stderr: stderr.as_bytes().to_vec(),
    })
}

#[test]
fn runs_of_gh() {
    let gh = GhCli::new();
    assert_eq!(gh.run(Launch::NotFound), Err(GhCliError::NotAvailable));
    assert_eq!(
        gh.run(Launch::NotRun("busy".to_string())),
        Err(GhCliError::CommandFailed("busy".to_string()))
    );
    assert_eq!(
        gh.run(failed(4, " anything ")),
        Err(GhCliError::AuthFailed("anything".to_string()))
    );
    assert_eq!(
        gh.run(failed(1, "Bad Credentials")),
        Err(GhCliError::AuthFailed("Bad Credentials".to_string()))
    );
    assert_eq!(
        gh.run(failed(1, "no such pull request")),
        Err(GhCliError::CommandFailed(
            "no such pull request".to_string()
        ))
    );
    assert_eq!(
        gh.run(Launch::Ended(CommandOutput {
            success: true,
            code: Some(0),
            stdout: b"ok".to_vec(),
            stderr: b"authentication failed".to_vec(),
        })),
        Ok("ok".to_string())
    );
}

#[test]
fn what_errors_of_gh_say() {
    assert_eq!(
        GhCliError::NotAvailable.message(),
        "GitHub CLI (`gh`) executable not found or not runnable"
    );
    assert_eq!(
        GhCliError::CommandFailed("x".to_string()).message(),
        "GitHub CLI command failed: x"
    );
    assert_eq!(
        GhCliError::AuthFailed("x".to_string()).message(),
        "GitHub CLI authentication failed: x"
    );
    assert_eq!(
        GhCliError::UnexpectedOutput("x".to_string()).message(),
        "GitHub CLI returned unexpected output: x"
    );
}

#[test]
fn the_repository_is_described() {
    let gh = GhCli::new();
    let info = gh
        .get_repo_info(Ok(GhRepoResponse {
            owner: GhOwner {
                login: "o".to_string(),
            },
            name: "r".to_string(),
        }))
        .unwrap();
    assert_eq!(
        info,
        RepoInfo::GitHub {
            owner: "o".to_string(),
            repo_name: "r".to_string()
        }
    );
    assert_eq!(info.provider(), GitHostProvider::GitHub);
    assert_eq!(
        gh.get_repo_info(Err("eof".to_string())),
        Err(GhCliError::UnexpectedOutput(
            "Failed to parse gh repo view response: eof".to_string()
        ))
    );
}

#[test]
fn arguments_of_gh() {
    let gh = GhCli::new();
    let mut request = CreatePrRequest {
        title: "T".to_string(),
        body: None,
        head_branch: "h".to_string(),
        base_branch: "b".to_string(),
        draft: Some(true),
    };
    let args = gh.create_pr_args(&request, "o", "r");
    assert_eq!(
        args.before_body_file,
        vec![
            "pr",
            "create",
            "--repo",
            "o/r",
            "--head",
            "h",
            "--base",
            "b",
            "--title",
            "T",
            "--body-file"
        ]
    );
    assert_eq!(args.after_body_file, vec!["--draft"]);
    assert_eq!(gh.create_pr_body(&request), "");
    request.draft = Some(false);
    request.body = Some("B".to_string());
    assert!(gh
        .create_pr_args(&request, "o", "r")
        .after_body_file
        .is_empty());
    assert_eq!(gh.create_pr_body(&request), "B");
    assert_eq!(
        gh.get_pr_comments_args("o", "r", -7),
        vec!["pr", "view", "-7", "--repo", "o/r", "--json", "comments"]
    );
    assert_eq!(
        gh.get_pr_review_comments_args("o", "r", 12),
        vec!["api", "repos/o/r/pulls/12/comments"]
    );
    assert_eq!(gh.check_auth_args(), vec!["auth", "status"]);
    assert_eq!(
        gh.get_repo_info_args(),
        vec!["repo", "view", "--json", "owner,name"]
    );
    assert_eq!(
        gh.view_pr_args("u"),
        vec![
            "pr",
            "view",
            "u",
            "--json",
            "number,url,state,mergedAt,mergeCommit"
        ]
    );
    assert_eq!(
        gh.list_prs_for_branch_args("o", "r", "b"),
        vec![
            "pr",
            "list",
            "--repo",
            "o/r",
            "--state",
            "all",
            "--head",
            "b",
            "--json",
            "number,url,state,mergedAt,mergeCommit"
        ]
    );
}

#[test]
fn the_number_comes_back_out_of_the_url() {
    let gh = GhCli::new();
    let info = gh
        .create_pr("https://github.com/o/r/pull/42\n")
        .unwrap();
    assert_eq!(info.number, 42);
    assert_eq!(info.url, "https://github.com/o/r/pull/42");
    assert_eq!(info.status, MergeStatus::Open);
}

#[test]
fn the_last_line_with_a_url_decides() {
    let info = GhCli::parse_pr_create_text(
        "see https://github.com/o/r/pull/1\r\ncreated <https://github.com/o/r/pull/2>. and https://github.com/o/r/pull/3\nbye\n",
    )
    .unwrap();
    assert_eq!(info.number, 2);
    assert_eq!(info.url, "https://github.com/o/r/pull/2>");
    let info = GhCli::parse_pr_create_text("at https://github.com/o/r/pull/9.,; now").unwrap();
    assert_eq!(info.url, "https://github.com/o/r/pull/9");
    let info = GhCli::parse_pr_create_text("https://github.com/o/r/pull/9#x").unwrap();
    assert_eq!(info.number, 9);
}

#[test]
fn output_without_a_url_is_unexpected() {
    assert_eq!(
        GhCli::parse_pr_create_text("done\n"),
        Err(GhCliError::UnexpectedOutput(
            "gh pr create did not return a pull request URL; raw output: done\n".to_string()
        ))
    );
    assert_eq!(
        GhCli::parse_pr_create_text("https://github.com/o/r/pull/new"),
        Err(GhCliError::UnexpectedOutput(
            "Failed to parse PR number from URL 'https://github.com/o/r/pull/new': cannot parse integer from empty string"
                .to_string()
        ))
    );
    assert_eq!(
        GhCli::parse_pr_create_text("https://github.com/o/r/pull/99999999999999999999"),
        Err(GhCliError::UnexpectedOutput(
            "Failed to parse PR number from URL 'https://github.com/o/r/pull/99999999999999999999': number too large to fit in target type"
                .to_string()
        ))
    );
    assert_eq!(
        GhCli::parse_pr_create_text("https://github.com/o/r/pull/x9"),
        Err(GhCliError::UnexpectedOutput(
            "Failed to parse PR number from URL 'https://github.com/o/r/pull/x9': invalid digit found in string"
                .to_string()
        ))
    );
}

#[test]
fn auth_checks_of_gh() {
    let gh = GhCli::new();
    assert!(gh.check_auth(Ok(String::new())).is_ok());
    assert_eq!(
        gh.check_auth(Err(GhCliError::CommandFailed("x".to_string()))),
        Err(GhCliError::AuthFailed("x".to_string()))
    );
    assert_eq!(
        gh.check_auth(Err(GhCliError::NotAvailable)),
        Err(GhCliError::NotAvailable)
    );
}

#[test]
fn pull_requests_are_viewed() {
    let gh = GhCli::new();
    let info = gh
        .view_pr(
            " {\"number\": 5, \"url\": \"u\", \"state\": \"merged\", \"mergedAt\": \"2024-05-01T12:00:00.5+02:00\", \"mergeCommit\": {\"oid\": \"abc\"}}\n",
        )
        .unwrap();
    assert_eq!(info.number, 5);
    assert_eq!(info.status, MergeStatus::Merged);
    assert_eq!(
        info.merged_at,
        Some(Timestamp {
            seconds: 1714557600,
            nanos: 500000000
        })
    );
    assert_eq!(info.merge_commit_sha, Some("abc".to_string()));
    let open = GhCli::extract_pr_info(&parse("{\"number\": 1, \"url\": \"u\", \"mergedAt\": null}"))
        .unwrap();
    assert_eq!(open.status, MergeStatus::Open);
    assert_eq!(open.merged_at, None);
    assert_eq!(GhCli::map_state("Closed"), MergeStatus::Closed);
    assert_eq!(GhCli::map_state("draft"), MergeStatus::Unknown);
}

#[test]
fn views_that_lack_something() {
    let gh = GhCli::new();
    assert!(matches!(
        gh.view_pr("nope"),
        Err(GhCliError::UnexpectedOutput(m))
            if m.starts_with("Failed to parse gh pr view response: expected ident")
                && m.ends_with("; raw: nope")
    ));
    assert_eq!(
        gh.view_pr("{\"number\": \"5\", \"url\": \"u\"}"),
        Err(GhCliError::UnexpectedOutput(
            "gh pr view response missing required fields: Object {\n    \"number\": String(\"5\"),\n    \"url\": String(\"u\"),\n}"
                .to_string()
        ))
    );
    assert_eq!(GhCli::extract_pr_info(&parse("{\"number\": 1}")), None);
    assert_eq!(
        GhCli::extract_pr_info(&parse("{\"number\": 1.5, \"url\": \"u\"}")),
        None
    );
}

#[test]
fn pull_requests_are_listed() {
    let gh = GhCli::new();
    let list = gh
        .list_prs_for_branch("[{\"number\":1,\"url\":\"a\"},{\"number\":2,\"url\":\"b\",\"state\":\"CLOSED\"}]")
        .unwrap();
    assert_eq!(list.len(), 2);
    assert_eq!(list[0].url, "a");
    assert_eq!(list[1].status, MergeStatus::Closed);
    assert_eq!(
        gh.list_prs_for_branch("{}"),
        Err(GhCliError::UnexpectedOutput(
            "gh pr list response is not an array: Object {}".to_string()
        ))
    );
    assert_eq!(
        gh.list_prs_for_branch("[{\"number\":1,\"url\":\"a\"}, 3]"),
        Err(GhCliError::UnexpectedOutput(
            "gh pr list item missing required fields: Number(3)".to_string()
        ))
    );
}

#[test]
fn comments_are_read() {
    let now = Timestamp {
        seconds: 9,
        nanos: 8,
    };
    let full = parse(
        "{\"id\":\"c1\",\"author\":{\"login\":\"ann\"},\"authorAssociation\":\"OWNER\",\"body\":\"hi\",\"createdAt\":\"2024-01-01T00:00:00Z\",\"url\":\"u\"}",
    );
    assert_eq!(
        GhCli::comment_of_item(&full, now),
        Ok(PrComment {
            id: "c1".to_string(),
            author: PrCommentAuthor {
                login: "ann".to_string()
            },
            author_association: "OWNER".to_string(),
            body: "hi".to_string(),
            created_at: Timestamp {
                seconds: 1704067200,
                nanos: 0
            },
            url: "u".to_string(),
        })
    );
    let bare = GhCli::comment_of_item(&parse("{\"id\":\"c2\",\"author\":null}"), now).unwrap();
    assert_eq!(bare.author.login, "unknown");
    assert_eq!(bare.created_at, now);
    assert_eq!(bare.body, "");
    assert_eq!(
        GhCli::comment_of_item(&parse("{\"id\":7}"), now),
        Err(GhCliError::UnexpectedOutput(
            "Comment missing id: Object {\n    \"id\": Number(7),\n}".to_string()
        ))
    );
}

#[test]
fn lists_of_comments_are_read() {
    let gh = GhCli::new();
    let list = gh
        .get_pr_comments(
            "{\"comments\":[{\"id\":\"a\",\"createdAt\":\"2024-01-01T00:00:00Z\"},{\"id\":\"b\"}]}",
        )
        .unwrap();
    assert_eq!(list.len(), 2);
    assert_eq!(list[0].created_at.seconds, 1704067200);
    assert!(list[1].created_at.seconds > 1704067200);
    assert!(matches!(
        gh.get_pr_comments("{\"comments\":3}"),
        Err(GhCliError::UnexpectedOutput(m))
            if m.starts_with("gh pr view --json comments response missing 'comments' array: ")
    ));
    assert!(matches!(
        gh.get_pr_comments("x"),
        Err(GhCliError::UnexpectedOutput(m))
            if m.starts_with("Failed to parse gh pr view --json comments response: ")
    ));
    assert!(gh
        .get_pr_comments("{\"comments\":[{\"id\":\"a\"},{}]}")
        .is_err());
}

#[test]
fn review_comments_are_read() {
    let now = Timestamp {
        seconds: 9,
        nanos: 8,
    };
    let item = parse(
        "{\"id\":11,\"user\":{\"login\":\"bob\"},\"body\":\"b\",\"created_at\":\"bad\",\"html_url\":\"h\",\"path\":\"p\",\"line\":3,\"side\":\"RIGHT\",\"diff_hunk\":\"@@\",\"author_association\":\"NONE\"}",
    );
    assert_eq!(
        GhCli::review_comment_of_item(&item, now),
        Ok(PrReviewComment {
            id: 11,
            user: ReviewCommentUser {
                login: "bob".to_string()
            },
            body: "b".to_string(),
            created_at: now,
            html_url: "h".to_string(),
            path: "p".to_string(),
            line: Some(3),
            side: Some("RIGHT".to_string()),
            diff_hunk: "@@".to_string(),
            author_association: "NONE".to_string(),
        })
    );
    assert!(matches!(
        GhCli::review_comment_of_item(&parse("{}"), now),
        Err(GhCliError::UnexpectedOutput(m)) if m == "Review comment missing id: Object {}"
    ));
    let gh = GhCli::new();
    assert_eq!(gh.get_pr_review_comments(" [] ").unwrap(), vec![]);
    assert_eq!(
        gh.get_pr_review_comments("[{\"id\":1},{\"id\":2}]")
            .unwrap()
            .len(),
        2
    );
    assert!(matches!(
        gh.get_pr_review_comments("{}"),
        Err(GhCliError::UnexpectedOutput(m))
            if m.starts_with("Failed to parse review comments API response: invalid type: map")
    ));
}
