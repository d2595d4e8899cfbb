//! Comments on a pull request, as the GitHub CLI tells of them.
use vstd::prelude::*;
use vstd::string::*;

use crate::decimal;
use crate::git_host::github::cli::{GhCli, GhCliError};
use crate::git_host::types::{PrComment, PrCommentAuthor, PrReviewComment, ReviewCommentUser};
use crate::json;
use crate::json::{Json, JsonView};
use crate::model;
use crate::process;
use crate::text;
use crate::time;
use crate::time::Timestamp;

verus! {

/// The text of a field, or a default.
pub open spec fn text_or(item: JsonView, key: Seq<char>, default: Seq<char>) -> Seq<char> {
    model::value_or(json::opt_text(item.field(key)), default)
}

/// The instant that a field denotes, or a default.
pub open spec fn instant_or(item: JsonView, key: Seq<char>, default: Timestamp) -> Timestamp {
    model::value_or(time::opt_instant_of(json::opt_text(item.field(key))), default)
}

/// The login name in an object that a field holds, or `unknown`.
pub open spec fn login_or_unknown(item: JsonView, key: Seq<char>) -> Seq<char> {
    model::value_or(json::opt_text(json::opt_field(item.field(key), "login"@)), "unknown"@)
}

/// What a JSON object says of a comment; `now` stands for a date that is missing.
pub open spec fn comment_of(item: JsonView, now: Timestamp) -> Result<
    PrComment<Seq<char>>,
    GhCliError<Seq<char>>,
> {
    match json::opt_text(item.field("id"@)) {
        None => Err(
            GhCliError::UnexpectedOutput("Comment missing id: "@ + json::json_debug(item)),
        ),
        Some(id) => Ok(
            PrComment {
                id,
                author: PrCommentAuthor { login: login_or_unknown(item, "author"@) },
                author_association: text_or(item, "authorAssociation"@, ""@),
                body: text_or(item, "body"@, ""@),
                created_at: instant_or(item, "createdAt"@, now),
                url: text_or(item, "url"@, ""@),
            },
        ),
    }
}

/// What a JSON object says of a review comment; `now` stands for a date that is missing.
pub open spec fn review_comment_of(item: JsonView, now: Timestamp) -> Result<
    PrReviewComment<Seq<char>>,
    GhCliError<Seq<char>>,
> {
    match json::opt_integer(item.field("id"@)) {
        None => Err(
            GhCliError::UnexpectedOutput("Review comment missing id: "@ + json::json_debug(item)),
        ),
        Some(id) => Ok(
            PrReviewComment {
                id,
                user: ReviewCommentUser { login: login_or_unknown(item, "user"@) },
                body: text_or(item, "body"@, ""@),
                created_at: instant_or(item, "created_at"@, now),
                html_url: text_or(item, "html_url"@, ""@),
                path: text_or(item, "path"@, ""@),
                line: json::opt_integer(item.field("line"@)),
                side: json::opt_text(item.field("side"@)),
                diff_hunk: text_or(item, "diff_hunk"@, ""@),
                author_association: text_or(item, "author_association"@, ""@),
            },
        ),
    }
}

/// What the items from the `i`-th on say of comments; the first that lacks its id decides the
/// error. `nows` holds an instant for each item.
pub open spec fn comments_from(items: Seq<JsonView>, nows: Seq<Timestamp>, i: int) -> Result<
    Seq<PrComment<Seq<char>>>,
    GhCliError<Seq<char>>,
>
    decreases items.len() - i,
{
    if i < 0 || i >= items.len() {
        Ok(seq![])
    } else {
        match comment_of(items[i], nows[i]) {
            Err(e) => Err(e),
            Ok(comment) => match comments_from(items, nows, i + 1) {
                Ok(rest) => Ok(seq![comment] + rest),
                Err(e) => Err(e),
            },
        }
    }
}

/// What the items from the `i`-th on say of review comments; the first that lacks its id decides
/// the error. `nows` holds an instant for each item.
pub open spec fn review_comments_from(items: Seq<JsonView>, nows: Seq<Timestamp>, i: int) -> Result<
    Seq<PrReviewComment<Seq<char>>>,
    GhCliError<Seq<char>>,
>
    decreases items.len() - i,
{
    if i < 0 || i >= items.len() {
        Ok(seq![])
    } else {
        match review_comment_of(items[i], nows[i]) {
            Err(e) => Err(e),
            Ok(comment) => match review_comments_from(items, nows, i + 1) {
                Ok(rest) => Ok(seq![comment] + rest),
                Err(e) => Err(e),
            },
        }
    }
}

/// The comments in the JSON value that `gh pr view --json comments` answers with.
pub open spec fn comment_items(value: JsonView) -> Result<Seq<JsonView>, GhCliError<Seq<char>>> {
    match json::opt_items(value.field("comments"@)) {
        Some(items) => Ok(items),
        None => Err(
            GhCliError::UnexpectedOutput(
                "gh pr view --json comments response missing 'comments' array: "@
                    + json::json_debug(value),
            ),
        ),
    }
}

/// What the answer of `gh pr view --json comments` says of the comments.
pub open spec fn viewed_comments(raw: Seq<char>, nows: Seq<Timestamp>) -> Result<
    Seq<PrComment<Seq<char>>>,
    GhCliError<Seq<char>>,
> {
    match json::json_of_text(text::trimmed(raw)) {
        Err(e) => Err(
            GhCliError::UnexpectedOutput(
                "Failed to parse gh pr view --json comments response: "@ + e + "; raw: "@ + raw,
            ),
        ),
        Ok(value) => match comment_items(value) {
            Err(e) => Err(e),
            Ok(items) => comments_from(items, nows, 0),
        },
    }
}

/// What the answer of the review comments API says of the comments.
pub open spec fn api_comments(raw: Seq<char>, nows: Seq<Timestamp>) -> Result<
    Seq<PrReviewComment<Seq<char>>>,
    GhCliError<Seq<char>>,
> {
    match json::json_items_of_text(text::trimmed(raw)) {
        Err(e) => Err(
            GhCliError::UnexpectedOutput(
                "Failed to parse review comments API response: "@ + e + "; raw: "@ + raw,
            ),
        ),
        Ok(items) => review_comments_from(items, nows, 0),
    }
}

/// The items of which the answer of `gh pr view --json comments` tells, where it is read well.
pub open spec fn viewed_items(raw: Seq<char>) -> Seq<JsonView> {
    match json::json_of_text(text::trimmed(raw)) {
        Ok(value) => model::value_or(json::opt_items(value.field("comments"@)), seq![]),
        Err(_) => seq![],
    }
}

/// The items of which the answer of the review comments API tells, where it is read well.
pub open spec fn api_items(raw: Seq<char>) -> Seq<JsonView> {
    match json::json_items_of_text(text::trimmed(raw)) {
        Ok(items) => items,
        Err(_) => seq![],
    }
}

fn login(item: &Json, key: &str) -> (res: String)
    ensures
        res@ == login_or_unknown(item.deep_view(), key@),
{
    json::string_or(json::get_opt(item.get(key), "login"), "unknown")
}

fn instant(item: &Json, key: &str, now: Timestamp) -> (res: Timestamp)
    ensures
        res == instant_or(item.deep_view(), key@, now),
{
    time::parse_rfc3339_or(json::str_opt(item.get(key)), now)
}

impl GhCli {
    /// The arguments that ask for the comments on a pull request.
    pub fn get_pr_comments_args(&self, owner: &str, repo: &str, pr_number: i64) -> (res: Vec<
        String,
    >)
        ensures
            res.deep_view() == seq![
                "pr"@,
                "view"@,
                decimal::decimal(pr_number as int),
                "--repo"@,
                owner@ + "/"@ + repo@,
                "--json"@,
                "comments"@,
            ],
    {
        let number = decimal::i64_to_string(pr_number);
        let full = text::cat3(owner, "/", repo);
        let parts = vec![
            "pr",
            "view",
            number.as_str(),
            "--repo",
            full.as_str(),
            "--json",
            "comments",
        ];
        let res = process::arguments(&parts);
        assert(res.deep_view() =~= seq![
            "pr"@,
            "view"@,
            decimal::decimal(pr_number as int),
            "--repo"@,
            owner@ + "/"@ + repo@,
            "--json"@,
            "comments"@,
        ]);
        res
    }

    /// What is known of the comments on a pull request, from the CLI's output. The current time
    /// stands for a date that is missing.
    pub fn get_pr_comments(&self, raw: &str) -> (res: Result<Vec<PrComment>, GhCliError>)
        ensures
            exists|nows: Seq<Timestamp>|
                time::clock_instants(nows, viewed_items(raw@).len()) && #[trigger] viewed_comments(
                    raw@,
                    nows,
                ) == model::result_view(res),
    {
        Self::parse_pr_comments(raw)
    }

    /// The arguments that ask for the review comments on a pull request.
    pub fn get_pr_review_comments_args(&self, owner: &str, repo: &str, pr_number: i64) -> (res: Vec<
        String,
    >)
        ensures
            res.deep_view() == seq![
                "api"@,
                "repos/"@ + owner@ + "/"@ + repo@ + "/pulls/"@ + decimal::decimal(pr_number as int)
                    + "/comments"@,
            ],
    {
        let number = decimal::i64_to_string(pr_number);
        let repo_path = text::cat4("repos/", owner, "/", repo);
        let path = text::cat4(repo_path.as_str(), "/pulls/", number.as_str(), "/comments");
        let parts = vec!["api", path.as_str()];
        let res = process::arguments(&parts);
        assert(res.deep_view() =~= seq![
            "api"@,
            "repos/"@ + owner@ + "/"@ + repo@ + "/pulls/"@ + decimal::decimal(pr_number as int)
                + "/comments"@,
        ]);
        res
    }

    /// What is known of the review comments on a pull request, from the CLI's output. The current
    /// time stands for a date that is missing.
    pub fn get_pr_review_comments(&self, raw: &str) -> (res: Result<
        Vec<PrReviewComment>,
        GhCliError,
    >)
        ensures
            exists|nows: Seq<Timestamp>|
                time::clock_instants(nows, api_items(raw@).len()) && #[trigger] api_comments(
                    raw@,
                    nows,
                ) == model::result_view(res),
    {
        Self::parse_pr_review_comments(raw)
    }

    /// What a JSON object says of a comment; `now` stands for a date that is missing.
    pub fn comment_of_item(item: &Json, now: Timestamp) -> (res: Result<PrComment, GhCliError>)
        ensures
            model::result_view(res) == comment_of(item.deep_view(), now),
    {
        let id = match json::str_opt(item.get("id")) {
            Some(id) => text::owned(id),
            None => {
                return Err(
                    GhCliError::UnexpectedOutput(
                        text::cat2("Comment missing id: ", item.to_debug().as_str()),
                    ),
                );
            },
        };
        Ok(
            PrComment {
                id,
                author: PrCommentAuthor { login: login(item, "author") },
                author_association: json::string_or(item.get("authorAssociation"), ""),
                body: json::string_or(item.get("body"), ""),
                created_at: instant(item, "createdAt", now),
                url: json::string_or(item.get("url"), ""),
            },
        )
    }

    /// What a JSON object says of a review comment; `now` stands for a date that is missing.
    pub fn review_comment_of_item(item: &Json, now: Timestamp) -> (res: Result<
        PrReviewComment,
        GhCliError,
    >)
        ensures
            model::result_view(res) == review_comment_of(item.deep_view(), now),
    {
        let id = match json::i64_opt(item.get("id")) {
            Some(id) => id,
            None => {
                return Err(
                    GhCliError::UnexpectedOutput(
                        text::cat2("Review comment missing id: ", item.to_debug().as_str()),
                    ),
                );
            },
        };
        let side = match json::str_opt(item.get("side")) {
            Some(s) => Some(text::owned(s)),
            None => None,
        };
        Ok(
            PrReviewComment {
                id,
                user: ReviewCommentUser { login: login(item, "user") },
                body: json::string_or(item.get("body"), ""),
                created_at: instant(item, "created_at", now),
                html_url: json::string_or(item.get("html_url"), ""),
                path: json::string_or(item.get("path"), ""),
                line: json::i64_opt(item.get("line")),
                side,
                diff_hunk: json::string_or(item.get("diff_hunk"), ""),
                author_association: json::string_or(item.get("author_association"), ""),
            },
        )
    }

    /// What JSON objects say of comments; `nows` holds, for each, what stands for a missing date.
    pub fn comments_of_items(items: &Vec<Json>, nows: &Vec<Timestamp>) -> (res: Result<
        Vec<PrComment>,
        GhCliError,
    >)
        requires
            nows@.len() == items@.len(),
        ensures
            model::result_view(res) == comments_from(items.deep_view(), nows@, 0),
    {
        let ghost all = items.deep_view();
        let mut out: Vec<PrComment> = Vec::new();
        for i in 0..items.len()
            invariant
                all == items.deep_view(),
                nows@.len() == items@.len(),
                out@.len() == i,
                match comments_from(all, nows@, i as int) {
                    Ok(rest) => comments_from(all, nows@, 0) == Ok::<
                        Seq<PrComment<Seq<char>>>,
                        GhCliError<Seq<char>>,
                    >(out.deep_view() + rest),
                    Err(e) => comments_from(all, nows@, 0) == Err::<
                        Seq<PrComment<Seq<char>>>,
                        GhCliError<Seq<char>>,
                    >(e),
                },
        {
            assert(all[i as int] == items@[i as int].deep_view());
            match Self::comment_of_item(&items[i], nows[i]) {
                Ok(comment) => {
                    let ghost before = out.deep_view();
                    out.push(comment);
                    assert(out.deep_view() =~= before.push(comment.deep_view()));
                    proof {
                        if let Ok(rest) = comments_from(all, nows@, i as int + 1) {
                            assert(out.deep_view() + rest =~= before + (seq![comment.deep_view()]
                                + rest));
                        }
                    }
                },
                Err(e) => {
                    return Err(e);
                },
            }
        }
        assert(out.deep_view() + Seq::<PrComment<Seq<char>>>::empty() =~= out.deep_view());
        Ok(out)
    }

    /// What JSON objects say of review comments; `nows` holds, for each, what stands for a missing
    /// date.
    pub fn review_comments_of_items(items: &Vec<Json>, nows: &Vec<Timestamp>) -> (res: Result<
        Vec<PrReviewComment>,
        GhCliError,
    >)
        requires
            nows@.len() == items@.len(),
        ensures
            model::result_view(res) == review_comments_from(items.deep_view(), nows@, 0),
    {
        let ghost all = items.deep_view();
        let mut out: Vec<PrReviewComment> = Vec::new();
        for i in 0..items.len()
            invariant
                all == items.deep_view(),
                nows@.len() == items@.len(),
                out@.len() == i,
                match review_comments_from(all, nows@, i as int) {
                    Ok(rest) => review_comments_from(all, nows@, 0) == Ok::<
                        Seq<PrReviewComment<Seq<char>>>,
                        GhCliError<Seq<char>>,
                    >(out.deep_view() + rest),
                    Err(e) => review_comments_from(all, nows@, 0) == Err::<
                        Seq<PrReviewComment<Seq<char>>>,
                        GhCliError<Seq<char>>,
                    >(e),
                },
        {
            assert(all[i as int] == items@[i as int].deep_view());
            match Self::review_comment_of_item(&items[i], nows[i]) {
                Ok(comment) => {
                    let ghost before = out.deep_view();
                    out.push(comment);
                    assert(out.deep_view() =~= before.push(comment.deep_view()));
                    proof {
                        if let Ok(rest) = review_comments_from(all, nows@, i as int + 1) {
                            assert(out.deep_view() + rest =~= before + (seq![comment.deep_view()]
                                + rest));
                        }
                    }
                },
                Err(e) => {
                    return Err(e);
                },
            }
        }
        assert(out.deep_view() + Seq::<PrReviewComment<Seq<char>>>::empty() =~= out.deep_view());
        Ok(out)
    }

    /// The comments in the JSON value that `gh pr view --json comments` answers with.
    pub fn comment_list(value: &Json) -> (res: Result<&Vec<Json>, GhCliError>)
        ensures
            model::result_view(res) == comment_items(value.deep_view()),
    {
        if let Some(comments) = value.get("comments") {
            if let Some(items) = comments.as_array() {
                return Ok(items);
            }
        }
        Err(
            GhCliError::UnexpectedOutput(
                text::cat2(
                    "gh pr view --json comments response missing 'comments' array: ",
                    value.to_debug().as_str(),
                ),
            ),
        )
    }

    /// What the answer of `gh pr view --json comments` says of the comments. The current time
    /// stands for a date that is missing.
    pub fn parse_pr_comments(raw: &str) -> (res: Result<Vec<PrComment>, GhCliError>)
        ensures
            exists|nows: Seq<Timestamp>|
                time::clock_instants(nows, viewed_items(raw@).len()) && #[trigger] viewed_comments(
                    raw@,
                    nows,
                ) == model::result_view(res),
    {
        let ghost none = Seq::<Timestamp>::empty();
        let value = match Json::parse(text::trim(raw)) {
            Err(e) => {
                let res = Err(
                    GhCliError::UnexpectedOutput(
                        text::cat4(
                            "Failed to parse gh pr view --json comments response: ",
                            e.as_str(),
                            "; raw: ",
                            raw,
                        ),
                    ),
                );
                assert(viewed_comments(raw@, none) == model::result_view(res));
                return res;
            },
            Ok(value) => value,
        };
        match Self::comment_list(&value) {
            Err(e) => {
                let res = Err(e);
                assert(viewed_comments(raw@, none) == model::result_view(res));
                res
            },
            Ok(items) => {
                let nows = time::instants(items.len());
                let res = Self::comments_of_items(items, &nows);
                assert(viewed_comments(raw@, nows@) == model::result_view(res));
                res
            },
        }
    }

    /// What the answer of the review comments API says of the comments. The current time stands
    /// for a date that is missing.
    pub fn parse_pr_review_comments(raw: &str) -> (res: Result<Vec<PrReviewComment>, GhCliError>)
        ensures
            exists|nows: Seq<Timestamp>|
                time::clock_instants(nows, api_items(raw@).len()) && #[trigger] api_comments(
                    raw@,
                    nows,
                ) == model::result_view(res),
    {
        let ghost none = Seq::<Timestamp>::empty();
        let items = match Json::parse_items(text::trim(raw)) {
            Err(e) => {
                let res = Err(
                    GhCliError::UnexpectedOutput(
                        text::cat4(
                            "Failed to parse review comments API response: ",
                            e.as_str(),
                            "; raw: ",
                            raw,
                        ),
                    ),
                );
                assert(api_comments(raw@, none) == model::result_view(res));
                return res;
            },
            Ok(items) => items,
        };
        let nows = time::instants(items.len());
        let res = Self::review_comments_of_items(&items, &nows);
        assert(api_comments(raw@, nows@) == model::result_view(res));
        res
    }
}

} // verus!
