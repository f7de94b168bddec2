//! What holds of every tool call that goes to GitHub: which verb it is,
//! with which arguments, which request that verb makes, and what it answers.

use crate::chat::ToolSpec;
use crate::crossing;
use crate::github;
use crate::github::decode;
use crate::github::tools;
use crate::github::tools::Verb;
use crate::github::{
    Check, Error, GitHub, Issue, IssueGraph, Merge, Pull, Repo, Request,
};
use crate::json::{Json, JsonView};
use crate::text;
use vstd::prelude::*;

verus! {

/// The string a call gives under `key`.
pub open spec fn text_given(arguments: &Json, key: Seq<char>, text: Seq<char>) -> bool {
    arguments@.get(key) == Some(JsonView::Text(text))
}

/// The whole number a call gives under `key`.
pub open spec fn number_given(arguments: &Json, key: Seq<char>, number: u64) -> bool {
    arguments@.get(key) == Some(JsonView::Whole(number as nat))
}

/// The repository a call gives: its owner and its name, with a slash between.
pub open spec fn repo_given(arguments: &Json, repo: Repo) -> bool {
    text_given(arguments, "repo"@, repo.owner@ + "/"@ + repo.name@)
}

/// Whether a call gives a string under `key`.
pub open spec fn gives_text(arguments: &Json, key: Seq<char>) -> bool {
    arguments@.get(key) is Some && arguments@.get(key)->0 is Text
}

/// Whether a call gives a repository by its spelling.
pub open spec fn gives_repo(arguments: &Json) -> bool {
    gives_text(arguments, "repo"@) && github::spelled_halves(
        arguments@.get("repo"@)->0->Text_0,
    ) is Some
}

/// Whether a call gives a whole number under `key`.
pub open spec fn gives_number(arguments: &Json, key: Seq<char>) -> bool {
    arguments@.get(key) is Some && arguments@.get(key)->0 is Whole
}

proof fn halves_make_the_whole(spec: Seq<char>)
    ensures
        github::spelled_halves(spec) matches Some((owner, name)) ==> spec == owner + "/"@ + name,
{
    reveal_strlit("/");
    if github::spelled_halves(spec) is Some {
        let (owner, name) = github::spelled_halves(spec)->0;
        text::first_of_goes_on(spec, '/', 0);
        assert(spec =~= owner + "/"@ + name);
    }
}

/// Law: a call of `github_default_branch` is read as that verb, each of its arguments from
/// the member of its own name; it is refused only where one is missing or
/// is not what it must be.
pub proof fn a_call_of_default_branch_is_read(
    name: &str,
    arguments: &Json,
    r: Option<Result<Verb, String>>,
)
    requires
        call_ensures(Verb::read, (name, arguments), r),
        name@ == "github_default_branch"@,
    ensures
        r is Some,
        r->0 is Ok ==> r->0->Ok_0 is DefaultBranch,
        r->0 is Ok ==> repo_given(arguments, r->0->Ok_0->DefaultBranch_repo),
        gives_repo(arguments) ==> r->0 is Ok,
{
    reveal_strlit("github_default_branch");
    reveal_strlit("github_issue");
    reveal_strlit("github_create_issue");
    reveal_strlit("github_edit_issue");
    reveal_strlit("github_comment");
    reveal_strlit("github_close_issue");
    reveal_strlit("github_open_pull");
    reveal_strlit("github_pull");
    reveal_strlit("github_pull_for");
    reveal_strlit("github_merge_pull");
    reveal_strlit("github_branch_sha");
    reveal_strlit("github_compare");
    reveal_strlit("github_create_branch");
    reveal_strlit("github_check_conclusions");
    reveal_strlit("github_issue_graph");
    reveal_strlit("feature_plan");
    reveal_strlit("github_add_sub_issue");
    reveal_strlit("github_remove_sub_issue");
    reveal_strlit("github_add_blocked_by");
    reveal_strlit("github_remove_blocked_by");
    if gives_text(arguments, "repo"@) {
        halves_make_the_whole(arguments@.get("repo"@)->0->Text_0);
    }
}

/// Law: a call of `github_issue` is read as that verb, each of its arguments from
/// the member of its own name; it is refused only where one is missing or
/// is not what it must be.
pub proof fn a_call_of_issue_is_read(
    name: &str,
    arguments: &Json,
    r: Option<Result<Verb, String>>,
)
    requires
        call_ensures(Verb::read, (name, arguments), r),
        name@ == "github_issue"@,
    ensures
        r is Some,
        r->0 is Ok ==> r->0->Ok_0 is Issue,
        r->0 is Ok ==> repo_given(arguments, r->0->Ok_0->Issue_repo),
        r->0 is Ok ==> number_given(arguments, "number"@, r->0->Ok_0->Issue_number),
        gives_repo(arguments) && gives_number(arguments, "number"@) ==> r->0 is Ok,
{
    reveal_strlit("github_default_branch");
    reveal_strlit("github_issue");
    reveal_strlit("github_create_issue");
    reveal_strlit("github_edit_issue");
    reveal_strlit("github_comment");
    reveal_strlit("github_close_issue");
    reveal_strlit("github_open_pull");
    reveal_strlit("github_pull");
    reveal_strlit("github_pull_for");
    reveal_strlit("github_merge_pull");
    reveal_strlit("github_branch_sha");
    reveal_strlit("github_compare");
    reveal_strlit("github_create_branch");
    reveal_strlit("github_check_conclusions");
    reveal_strlit("github_issue_graph");
    reveal_strlit("feature_plan");
    reveal_strlit("github_add_sub_issue");
    reveal_strlit("github_remove_sub_issue");
    reveal_strlit("github_add_blocked_by");
    reveal_strlit("github_remove_blocked_by");
    assert("github_default_branch"@.len() != "github_issue"@.len());
    if gives_text(arguments, "repo"@) {
        halves_make_the_whole(arguments@.get("repo"@)->0->Text_0);
    }
}

/// Law: a call of `github_create_issue` is read as that verb, each of its arguments from
/// the member of its own name; it is refused only where one is missing or
/// is not what it must be.
pub proof fn a_call_of_create_issue_is_read(
    name: &str,
    arguments: &Json,
    r: Option<Result<Verb, String>>,
)
    requires
        call_ensures(Verb::read, (name, arguments), r),
        name@ == "github_create_issue"@,
    ensures
        r is Some,
        r->0 is Ok ==> r->0->Ok_0 is CreateIssue,
        r->0 is Ok ==> repo_given(arguments, r->0->Ok_0->CreateIssue_repo),
        r->0 is Ok ==> text_given(arguments, "title"@, r->0->Ok_0->CreateIssue_title@),
        r->0 is Ok ==> text_given(arguments, "body"@, r->0->Ok_0->CreateIssue_body@),
        gives_repo(arguments) && gives_text(arguments, "title"@)
            && gives_text(arguments, "body"@) ==> r->0 is Ok,
{
    reveal_strlit("github_default_branch");
    reveal_strlit("github_issue");
    reveal_strlit("github_create_issue");
    reveal_strlit("github_edit_issue");
    reveal_strlit("github_comment");
    reveal_strlit("github_close_issue");
    reveal_strlit("github_open_pull");
    reveal_strlit("github_pull");
    reveal_strlit("github_pull_for");
    reveal_strlit("github_merge_pull");
    reveal_strlit("github_branch_sha");
    reveal_strlit("github_compare");
    reveal_strlit("github_create_branch");
    reveal_strlit("github_check_conclusions");
    reveal_strlit("github_issue_graph");
    reveal_strlit("feature_plan");
    reveal_strlit("github_add_sub_issue");
    reveal_strlit("github_remove_sub_issue");
    reveal_strlit("github_add_blocked_by");
    reveal_strlit("github_remove_blocked_by");
    assert("github_default_branch"@.len() != "github_create_issue"@.len());
    assert("github_issue"@.len() != "github_create_issue"@.len());
    if gives_text(arguments, "repo"@) {
        halves_make_the_whole(arguments@.get("repo"@)->0->Text_0);
    }
}

/// Law: a call of `github_edit_issue` is read as that verb, each of its arguments from
/// the member of its own name; it is refused only where one is missing or
/// is not what it must be.
pub proof fn a_call_of_edit_issue_is_read(
    name: &str,
    arguments: &Json,
    r: Option<Result<Verb, String>>,
)
    requires
        call_ensures(Verb::read, (name, arguments), r),
        name@ == "github_edit_issue"@,
    ensures
        r is Some,
        r->0 is Ok ==> r->0->Ok_0 is EditIssue,
        r->0 is Ok ==> repo_given(arguments, r->0->Ok_0->EditIssue_repo),
        r->0 is Ok ==> number_given(arguments, "number"@, r->0->Ok_0->EditIssue_number),
        r->0 is Ok && gives_text(arguments, "title"@) ==> r->0->Ok_0->EditIssue_title is Some
            && text_given(
            arguments,
            "title"@,
            r->0->Ok_0->EditIssue_title->0@,
        ),
        r->0 is Ok && !gives_text(arguments, "title"@) ==> r->0->Ok_0->EditIssue_title is None,
        r->0 is Ok && gives_text(arguments, "body"@) ==> r->0->Ok_0->EditIssue_body is Some
            && text_given(
            arguments,
            "body"@,
            r->0->Ok_0->EditIssue_body->0@,
        ),
        r->0 is Ok && !gives_text(arguments, "body"@) ==> r->0->Ok_0->EditIssue_body is None,
        gives_repo(arguments) && gives_number(arguments, "number"@) ==> r->0 is Ok,
{
    reveal_strlit("github_default_branch");
    reveal_strlit("github_issue");
    reveal_strlit("github_create_issue");
    reveal_strlit("github_edit_issue");
    reveal_strlit("github_comment");
    reveal_strlit("github_close_issue");
    reveal_strlit("github_open_pull");
    reveal_strlit("github_pull");
    reveal_strlit("github_pull_for");
    reveal_strlit("github_merge_pull");
    reveal_strlit("github_branch_sha");
    reveal_strlit("github_compare");
    reveal_strlit("github_create_branch");
    reveal_strlit("github_check_conclusions");
    reveal_strlit("github_issue_graph");
    reveal_strlit("feature_plan");
    reveal_strlit("github_add_sub_issue");
    reveal_strlit("github_remove_sub_issue");
    reveal_strlit("github_add_blocked_by");
    reveal_strlit("github_remove_blocked_by");
    assert("github_default_branch"@.len() != "github_edit_issue"@.len());
    assert("github_issue"@.len() != "github_edit_issue"@.len());
    assert("github_create_issue"@.len() != "github_edit_issue"@.len());
    if gives_text(arguments, "repo"@) {
        halves_make_the_whole(arguments@.get("repo"@)->0->Text_0);
    }
}

/// Law: a call of `github_comment` is read as that verb, each of its arguments from
/// the member of its own name; it is refused only where one is missing or
/// is not what it must be.
pub proof fn a_call_of_comment_is_read(
    name: &str,
    arguments: &Json,
    r: Option<Result<Verb, String>>,
)
    requires
        call_ensures(Verb::read, (name, arguments), r),
        name@ == "github_comment"@,
    ensures
        r is Some,
        r->0 is Ok ==> r->0->Ok_0 is Comment,
        r->0 is Ok ==> repo_given(arguments, r->0->Ok_0->Comment_repo),
        r->0 is Ok ==> number_given(arguments, "number"@, r->0->Ok_0->Comment_number),
        r->0 is Ok ==> text_given(arguments, "body"@, r->0->Ok_0->Comment_body@),
        gives_repo(arguments) && gives_number(arguments, "number"@)
            && gives_text(arguments, "body"@) ==> r->0 is Ok,
{
    reveal_strlit("github_default_branch");
    reveal_strlit("github_issue");
    reveal_strlit("github_create_issue");
    reveal_strlit("github_edit_issue");
    reveal_strlit("github_comment");
    reveal_strlit("github_close_issue");
    reveal_strlit("github_open_pull");
    reveal_strlit("github_pull");
    reveal_strlit("github_pull_for");
    reveal_strlit("github_merge_pull");
    reveal_strlit("github_branch_sha");
    reveal_strlit("github_compare");
    reveal_strlit("github_create_branch");
    reveal_strlit("github_check_conclusions");
    reveal_strlit("github_issue_graph");
    reveal_strlit("feature_plan");
    reveal_strlit("github_add_sub_issue");
    reveal_strlit("github_remove_sub_issue");
    reveal_strlit("github_add_blocked_by");
    reveal_strlit("github_remove_blocked_by");
    assert("github_default_branch"@.len() != "github_comment"@.len());
    assert("github_issue"@.len() != "github_comment"@.len());
    assert("github_create_issue"@.len() != "github_comment"@.len());
    assert("github_edit_issue"@.len() != "github_comment"@.len());
    if gives_text(arguments, "repo"@) {
        halves_make_the_whole(arguments@.get("repo"@)->0->Text_0);
    }
}

/// Law: a call of `github_close_issue` is read as that verb, each of its arguments from
/// the member of its own name; it is refused only where one is missing or
/// is not what it must be.
pub proof fn a_call_of_close_issue_is_read(
    name: &str,
    arguments: &Json,
    r: Option<Result<Verb, String>>,
)
    requires
        call_ensures(Verb::read, (name, arguments), r),
        name@ == "github_close_issue"@,
    ensures
        r is Some,
        r->0 is Ok ==> r->0->Ok_0 is CloseIssue,
        r->0 is Ok ==> repo_given(arguments, r->0->Ok_0->CloseIssue_repo),
        r->0 is Ok ==> number_given(arguments, "number"@, r->0->Ok_0->CloseIssue_number),
        gives_repo(arguments) && gives_number(arguments, "number"@) ==> r->0 is Ok,
{
    reveal_strlit("github_default_branch");
    reveal_strlit("github_issue");
    reveal_strlit("github_create_issue");
    reveal_strlit("github_edit_issue");
    reveal_strlit("github_comment");
    reveal_strlit("github_close_issue");
    reveal_strlit("github_open_pull");
    reveal_strlit("github_pull");
    reveal_strlit("github_pull_for");
    reveal_strlit("github_merge_pull");
    reveal_strlit("github_branch_sha");
    reveal_strlit("github_compare");
    reveal_strlit("github_create_branch");
    reveal_strlit("github_check_conclusions");
    reveal_strlit("github_issue_graph");
    reveal_strlit("feature_plan");
    reveal_strlit("github_add_sub_issue");
    reveal_strlit("github_remove_sub_issue");
    reveal_strlit("github_add_blocked_by");
    reveal_strlit("github_remove_blocked_by");
    assert("github_default_branch"@.len() != "github_close_issue"@.len());
    assert("github_issue"@.len() != "github_close_issue"@.len());
    assert("github_create_issue"@.len() != "github_close_issue"@.len());
    assert("github_edit_issue"@.len() != "github_close_issue"@.len());
    assert("github_comment"@.len() != "github_close_issue"@.len());
    if gives_text(arguments, "repo"@) {
        halves_make_the_whole(arguments@.get("repo"@)->0->Text_0);
    }
}

/// Law: a call of `github_open_pull` is read as that verb, each of its arguments from
/// the member of its own name; it is refused only where one is missing or
/// is not what it must be.
pub proof fn a_call_of_open_pull_is_read(
    name: &str,
    arguments: &Json,
    r: Option<Result<Verb, String>>,
)
    requires
        call_ensures(Verb::read, (name, arguments), r),
        name@ == "github_open_pull"@,
    ensures
        r is Some,
        r->0 is Ok ==> r->0->Ok_0 is OpenPull,
        r->0 is Ok ==> repo_given(arguments, r->0->Ok_0->OpenPull_repo),
        r->0 is Ok ==> text_given(arguments, "title"@, r->0->Ok_0->OpenPull_title@),
        r->0 is Ok ==> text_given(arguments, "head"@, r->0->Ok_0->OpenPull_head@),
        r->0 is Ok ==> text_given(arguments, "base"@, r->0->Ok_0->OpenPull_base@),
        r->0 is Ok ==> text_given(arguments, "body"@, r->0->Ok_0->OpenPull_body@),
        gives_repo(arguments) && gives_text(arguments, "title"@)
            && gives_text(arguments, "head"@) && gives_text(arguments, "base"@)
            && gives_text(arguments, "body"@) ==> r->0 is Ok,
{
    reveal_strlit("github_default_branch");
    reveal_strlit("github_issue");
    reveal_strlit("github_create_issue");
    reveal_strlit("github_edit_issue");
    reveal_strlit("github_comment");
    reveal_strlit("github_close_issue");
    reveal_strlit("github_open_pull");
    reveal_strlit("github_pull");
    reveal_strlit("github_pull_for");
    reveal_strlit("github_merge_pull");
    reveal_strlit("github_branch_sha");
    reveal_strlit("github_compare");
    reveal_strlit("github_create_branch");
    reveal_strlit("github_check_conclusions");
    reveal_strlit("github_issue_graph");
    reveal_strlit("feature_plan");
    reveal_strlit("github_add_sub_issue");
    reveal_strlit("github_remove_sub_issue");
    reveal_strlit("github_add_blocked_by");
    reveal_strlit("github_remove_blocked_by");
    assert("github_default_branch"@.len() != "github_open_pull"@.len());
    assert("github_issue"@.len() != "github_open_pull"@.len());
    assert("github_create_issue"@.len() != "github_open_pull"@.len());
    assert("github_edit_issue"@.len() != "github_open_pull"@.len());
    assert("github_comment"@.len() != "github_open_pull"@.len());
    assert("github_close_issue"@.len() != "github_open_pull"@.len());
    if gives_text(arguments, "repo"@) {
        halves_make_the_whole(arguments@.get("repo"@)->0->Text_0);
    }
}

/// Law: a call of `github_pull` is read as that verb, each of its arguments from
/// the member of its own name; it is refused only where one is missing or
/// is not what it must be.
pub proof fn a_call_of_pull_is_read(
    name: &str,
    arguments: &Json,
    r: Option<Result<Verb, String>>,
)
    requires
        call_ensures(Verb::read, (name, arguments), r),
        name@ == "github_pull"@,
    ensures
        r is Some,
        r->0 is Ok ==> r->0->Ok_0 is Pull,
        r->0 is Ok ==> repo_given(arguments, r->0->Ok_0->Pull_repo),
        r->0 is Ok ==> number_given(arguments, "number"@, r->0->Ok_0->Pull_number),
        gives_repo(arguments) && gives_number(arguments, "number"@) ==> r->0 is Ok,
{
    reveal_strlit("github_default_branch");
    reveal_strlit("github_issue");
    reveal_strlit("github_create_issue");
    reveal_strlit("github_edit_issue");
    reveal_strlit("github_comment");
    reveal_strlit("github_close_issue");
    reveal_strlit("github_open_pull");
    reveal_strlit("github_pull");
    reveal_strlit("github_pull_for");
    reveal_strlit("github_merge_pull");
    reveal_strlit("github_branch_sha");
    reveal_strlit("github_compare");
    reveal_strlit("github_create_branch");
    reveal_strlit("github_check_conclusions");
    reveal_strlit("github_issue_graph");
    reveal_strlit("feature_plan");
    reveal_strlit("github_add_sub_issue");
    reveal_strlit("github_remove_sub_issue");
    reveal_strlit("github_add_blocked_by");
    reveal_strlit("github_remove_blocked_by");
    assert("github_default_branch"@.len() != "github_pull"@.len());
    assert("github_issue"@.len() != "github_pull"@.len());
    assert("github_create_issue"@.len() != "github_pull"@.len());
    assert("github_edit_issue"@.len() != "github_pull"@.len());
    assert("github_comment"@.len() != "github_pull"@.len());
    assert("github_close_issue"@.len() != "github_pull"@.len());
    assert("github_open_pull"@.len() != "github_pull"@.len());
    if gives_text(arguments, "repo"@) {
        halves_make_the_whole(arguments@.get("repo"@)->0->Text_0);
    }
}

/// Law: a call of `github_pull_for` is read as that verb, each of its arguments from
/// the member of its own name; it is refused only where one is missing or
/// is not what it must be.
pub proof fn a_call_of_pull_for_is_read(
    name: &str,
    arguments: &Json,
    r: Option<Result<Verb, String>>,
)
    requires
        call_ensures(Verb::read, (name, arguments), r),
        name@ == "github_pull_for"@,
    ensures
        r is Some,
        r->0 is Ok ==> r->0->Ok_0 is PullFor,
        r->0 is Ok ==> repo_given(arguments, r->0->Ok_0->PullFor_repo),
        r->0 is Ok ==> text_given(arguments, "head"@, r->0->Ok_0->PullFor_head@),
        gives_repo(arguments) && gives_text(arguments, "head"@) ==> r->0 is Ok,
{
    reveal_strlit("github_default_branch");
    reveal_strlit("github_issue");
    reveal_strlit("github_create_issue");
    reveal_strlit("github_edit_issue");
    reveal_strlit("github_comment");
    reveal_strlit("github_close_issue");
    reveal_strlit("github_open_pull");
    reveal_strlit("github_pull");
    reveal_strlit("github_pull_for");
    reveal_strlit("github_merge_pull");
    reveal_strlit("github_branch_sha");
    reveal_strlit("github_compare");
    reveal_strlit("github_create_branch");
    reveal_strlit("github_check_conclusions");
    reveal_strlit("github_issue_graph");
    reveal_strlit("feature_plan");
    reveal_strlit("github_add_sub_issue");
    reveal_strlit("github_remove_sub_issue");
    reveal_strlit("github_add_blocked_by");
    reveal_strlit("github_remove_blocked_by");
    assert("github_default_branch"@.len() != "github_pull_for"@.len());
    assert("github_issue"@.len() != "github_pull_for"@.len());
    assert("github_create_issue"@.len() != "github_pull_for"@.len());
    assert("github_edit_issue"@.len() != "github_pull_for"@.len());
    assert("github_comment"@.len() != "github_pull_for"@.len());
    assert("github_close_issue"@.len() != "github_pull_for"@.len());
    assert("github_open_pull"@.len() != "github_pull_for"@.len());
    assert("github_pull"@.len() != "github_pull_for"@.len());
    if gives_text(arguments, "repo"@) {
        halves_make_the_whole(arguments@.get("repo"@)->0->Text_0);
    }
}

/// Law: a call of `github_merge_pull` is read as that verb, each of its arguments from
/// the member of its own name; it is refused only where one is missing or
/// is not what it must be.
pub proof fn a_call_of_merge_pull_is_read(
    name: &str,
    arguments: &Json,
    r: Option<Result<Verb, String>>,
)
    requires
        call_ensures(Verb::read, (name, arguments), r),
        name@ == "github_merge_pull"@,
    ensures
        r is Some,
        r->0 is Ok ==> r->0->Ok_0 is MergePull,
        r->0 is Ok ==> repo_given(arguments, r->0->Ok_0->MergePull_repo),
        r->0 is Ok ==> number_given(arguments, "number"@, r->0->Ok_0->MergePull_number),
        r->0 is Ok && gives_text(arguments, "method"@) ==> (text_given(
            arguments,
            "method"@,
            "commit"@,
        ) <==> r->0->Ok_0->MergePull_method is Commit),
        r->0 is Ok && gives_text(arguments, "method"@) ==> (text_given(
            arguments,
            "method"@,
            "squash"@,
        ) <==> r->0->Ok_0->MergePull_method is Squash),
        r->0 is Ok && gives_text(arguments, "method"@) ==> (text_given(
            arguments,
            "method"@,
            "rebase"@,
        ) <==> r->0->Ok_0->MergePull_method is Rebase),
        gives_repo(arguments) && gives_number(arguments, "number"@)
            && (text_given(arguments, "method"@, "commit"@) || text_given(
            arguments,
            "method"@,
            "squash"@,
        ) || text_given(arguments, "method"@, "rebase"@)) ==> r->0 is Ok,
{
    reveal_strlit("github_default_branch");
    reveal_strlit("github_issue");
    reveal_strlit("github_create_issue");
    reveal_strlit("github_edit_issue");
    reveal_strlit("github_comment");
    reveal_strlit("github_close_issue");
    reveal_strlit("github_open_pull");
    reveal_strlit("github_pull");
    reveal_strlit("github_pull_for");
    reveal_strlit("github_merge_pull");
    reveal_strlit("github_branch_sha");
    reveal_strlit("github_compare");
    reveal_strlit("github_create_branch");
    reveal_strlit("github_check_conclusions");
    reveal_strlit("github_issue_graph");
    reveal_strlit("feature_plan");
    reveal_strlit("github_add_sub_issue");
    reveal_strlit("github_remove_sub_issue");
    reveal_strlit("github_add_blocked_by");
    reveal_strlit("github_remove_blocked_by");
    assert("github_default_branch"@.len() != "github_merge_pull"@.len());
    assert("github_issue"@.len() != "github_merge_pull"@.len());
    assert("github_create_issue"@.len() != "github_merge_pull"@.len());
    assert("github_edit_issue"@[7] != "github_merge_pull"@[7]);
    assert("github_comment"@.len() != "github_merge_pull"@.len());
    assert("github_close_issue"@.len() != "github_merge_pull"@.len());
    assert("github_open_pull"@.len() != "github_merge_pull"@.len());
    assert("github_pull"@.len() != "github_merge_pull"@.len());
    assert("github_pull_for"@.len() != "github_merge_pull"@.len());
    reveal_strlit("commit");
    reveal_strlit("squash");
    reveal_strlit("rebase");
    assert("commit"@[0] != "squash"@[0]);
    assert("commit"@[0] != "rebase"@[0]);
    assert("squash"@[0] != "rebase"@[0]);
    if gives_text(arguments, "repo"@) {
        halves_make_the_whole(arguments@.get("repo"@)->0->Text_0);
    }
}

/// Law: a call of `github_branch_sha` is read as that verb, each of its arguments from
/// the member of its own name; it is refused only where one is missing or
/// is not what it must be.
pub proof fn a_call_of_branch_sha_is_read(
    name: &str,
    arguments: &Json,
    r: Option<Result<Verb, String>>,
)
    requires
        call_ensures(Verb::read, (name, arguments), r),
        name@ == "github_branch_sha"@,
    ensures
        r is Some,
        r->0 is Ok ==> r->0->Ok_0 is BranchSha,
        r->0 is Ok ==> repo_given(arguments, r->0->Ok_0->BranchSha_repo),
        r->0 is Ok ==> text_given(arguments, "branch"@, r->0->Ok_0->BranchSha_branch@),
        gives_repo(arguments) && gives_text(arguments, "branch"@) ==> r->0 is Ok,
{
    reveal_strlit("github_default_branch");
    reveal_strlit("github_issue");
    reveal_strlit("github_create_issue");
    reveal_strlit("github_edit_issue");
    reveal_strlit("github_comment");
    reveal_strlit("github_close_issue");
    reveal_strlit("github_open_pull");
    reveal_strlit("github_pull");
    reveal_strlit("github_pull_for");
    reveal_strlit("github_merge_pull");
    reveal_strlit("github_branch_sha");
    reveal_strlit("github_compare");
    reveal_strlit("github_create_branch");
    reveal_strlit("github_check_conclusions");
    reveal_strlit("github_issue_graph");
    reveal_strlit("feature_plan");
    reveal_strlit("github_add_sub_issue");
    reveal_strlit("github_remove_sub_issue");
    reveal_strlit("github_add_blocked_by");
    reveal_strlit("github_remove_blocked_by");
    assert("github_default_branch"@.len() != "github_branch_sha"@.len());
    assert("github_issue"@.len() != "github_branch_sha"@.len());
    assert("github_create_issue"@.len() != "github_branch_sha"@.len());
    assert("github_edit_issue"@[7] != "github_branch_sha"@[7]);
    assert("github_comment"@.len() != "github_branch_sha"@.len());
    assert("github_close_issue"@.len() != "github_branch_sha"@.len());
    assert("github_open_pull"@.len() != "github_branch_sha"@.len());
    assert("github_pull"@.len() != "github_branch_sha"@.len());
    assert("github_pull_for"@.len() != "github_branch_sha"@.len());
    assert("github_merge_pull"@[7] != "github_branch_sha"@[7]);
    if gives_text(arguments, "repo"@) {
        halves_make_the_whole(arguments@.get("repo"@)->0->Text_0);
    }
}

/// Law: a call of `github_compare` is read as that verb, each of its arguments from
/// the member of its own name; it is refused only where one is missing or
/// is not what it must be.
pub proof fn a_call_of_compare_is_read(
    name: &str,
    arguments: &Json,
    r: Option<Result<Verb, String>>,
)
    requires
        call_ensures(Verb::read, (name, arguments), r),
        name@ == "github_compare"@,
    ensures
        r is Some,
        r->0 is Ok ==> r->0->Ok_0 is Compare,
        r->0 is Ok ==> repo_given(arguments, r->0->Ok_0->Compare_repo),
        r->0 is Ok ==> text_given(arguments, "base"@, r->0->Ok_0->Compare_base@),
        r->0 is Ok ==> text_given(arguments, "head"@, r->0->Ok_0->Compare_head@),
        gives_repo(arguments) && gives_text(arguments, "base"@)
            && gives_text(arguments, "head"@) ==> r->0 is Ok,
{
    reveal_strlit("github_default_branch");
    reveal_strlit("github_issue");
    reveal_strlit("github_create_issue");
    reveal_strlit("github_edit_issue");
    reveal_strlit("github_comment");
    reveal_strlit("github_close_issue");
    reveal_strlit("github_open_pull");
    reveal_strlit("github_pull");
    reveal_strlit("github_pull_for");
    reveal_strlit("github_merge_pull");
    reveal_strlit("github_branch_sha");
    reveal_strlit("github_compare");
    reveal_strlit("github_create_branch");
    reveal_strlit("github_check_conclusions");
    reveal_strlit("github_issue_graph");
    reveal_strlit("feature_plan");
    reveal_strlit("github_add_sub_issue");
    reveal_strlit("github_remove_sub_issue");
    reveal_strlit("github_add_blocked_by");
    reveal_strlit("github_remove_blocked_by");
    assert("github_default_branch"@.len() != "github_compare"@.len());
    assert("github_issue"@.len() != "github_compare"@.len());
    assert("github_create_issue"@.len() != "github_compare"@.len());
    assert("github_edit_issue"@.len() != "github_compare"@.len());
    assert("github_comment"@[10] != "github_compare"@[10]);
    assert("github_close_issue"@.len() != "github_compare"@.len());
    assert("github_open_pull"@.len() != "github_compare"@.len());
    assert("github_pull"@.len() != "github_compare"@.len());
    assert("github_pull_for"@.len() != "github_compare"@.len());
    assert("github_merge_pull"@.len() != "github_compare"@.len());
    assert("github_branch_sha"@.len() != "github_compare"@.len());
    if gives_text(arguments, "repo"@) {
        halves_make_the_whole(arguments@.get("repo"@)->0->Text_0);
    }
}

/// Law: a call of `github_create_branch` is read as that verb, each of its arguments from
/// the member of its own name; it is refused only where one is missing or
/// is not what it must be.
pub proof fn a_call_of_create_branch_is_read(
    name: &str,
    arguments: &Json,
    r: Option<Result<Verb, String>>,
)
    requires
        call_ensures(Verb::read, (name, arguments), r),
        name@ == "github_create_branch"@,
    ensures
        r is Some,
        r->0 is Ok ==> r->0->Ok_0 is CreateBranch,
        r->0 is Ok ==> repo_given(arguments, r->0->Ok_0->CreateBranch_repo),
        r->0 is Ok ==> text_given(arguments, "branch"@, r->0->Ok_0->CreateBranch_branch@),
        r->0 is Ok ==> text_given(arguments, "sha"@, r->0->Ok_0->CreateBranch_sha@),
        gives_repo(arguments) && gives_text(arguments, "branch"@)
            && gives_text(arguments, "sha"@) ==> r->0 is Ok,
{
    reveal_strlit("github_default_branch");
    reveal_strlit("github_issue");
    reveal_strlit("github_create_issue");
    reveal_strlit("github_edit_issue");
    reveal_strlit("github_comment");
    reveal_strlit("github_close_issue");
    reveal_strlit("github_open_pull");
    reveal_strlit("github_pull");
    reveal_strlit("github_pull_for");
    reveal_strlit("github_merge_pull");
    reveal_strlit("github_branch_sha");
    reveal_strlit("github_compare");
    reveal_strlit("github_create_branch");
    reveal_strlit("github_check_conclusions");
    reveal_strlit("github_issue_graph");
    reveal_strlit("feature_plan");
    reveal_strlit("github_add_sub_issue");
    reveal_strlit("github_remove_sub_issue");
    reveal_strlit("github_add_blocked_by");
    reveal_strlit("github_remove_blocked_by");
    assert("github_default_branch"@.len() != "github_create_branch"@.len());
    assert("github_issue"@.len() != "github_create_branch"@.len());
    assert("github_create_issue"@.len() != "github_create_branch"@.len());
    assert("github_edit_issue"@.len() != "github_create_branch"@.len());
    assert("github_comment"@.len() != "github_create_branch"@.len());
    assert("github_close_issue"@.len() != "github_create_branch"@.len());
    assert("github_open_pull"@.len() != "github_create_branch"@.len());
    assert("github_pull"@.len() != "github_create_branch"@.len());
    assert("github_pull_for"@.len() != "github_create_branch"@.len());
    assert("github_merge_pull"@.len() != "github_create_branch"@.len());
    assert("github_branch_sha"@.len() != "github_create_branch"@.len());
    assert("github_compare"@.len() != "github_create_branch"@.len());
    if gives_text(arguments, "repo"@) {
        halves_make_the_whole(arguments@.get("repo"@)->0->Text_0);
    }
}

/// Law: a call of `github_check_conclusions` is read as that verb, each of its arguments from
/// the member of its own name; it is refused only where one is missing or
/// is not what it must be.
pub proof fn a_call_of_check_conclusions_is_read(
    name: &str,
    arguments: &Json,
    r: Option<Result<Verb, String>>,
)
    requires
        call_ensures(Verb::read, (name, arguments), r),
        name@ == "github_check_conclusions"@,
    ensures
        r is Some,
        r->0 is Ok ==> r->0->Ok_0 is CheckConclusions,
        r->0 is Ok ==> repo_given(arguments, r->0->Ok_0->CheckConclusions_repo),
        r->0 is Ok ==> text_given(arguments, "ref"@, r->0->Ok_0->CheckConclusions_git_ref@),
        gives_repo(arguments) && gives_text(arguments, "ref"@) ==> r->0 is Ok,
{
    reveal_strlit("github_default_branch");
    reveal_strlit("github_issue");
    reveal_strlit("github_create_issue");
    reveal_strlit("github_edit_issue");
    reveal_strlit("github_comment");
    reveal_strlit("github_close_issue");
    reveal_strlit("github_open_pull");
    reveal_strlit("github_pull");
    reveal_strlit("github_pull_for");
    reveal_strlit("github_merge_pull");
    reveal_strlit("github_branch_sha");
    reveal_strlit("github_compare");
    reveal_strlit("github_create_branch");
    reveal_strlit("github_check_conclusions");
    reveal_strlit("github_issue_graph");
    reveal_strlit("feature_plan");
    reveal_strlit("github_add_sub_issue");
    reveal_strlit("github_remove_sub_issue");
    reveal_strlit("github_add_blocked_by");
    reveal_strlit("github_remove_blocked_by");
    assert("github_default_branch"@.len() != "github_check_conclusions"@.len());
    assert("github_issue"@.len() != "github_check_conclusions"@.len());
    assert("github_create_issue"@.len() != "github_check_conclusions"@.len());
    assert("github_edit_issue"@.len() != "github_check_conclusions"@.len());
    assert("github_comment"@.len() != "github_check_conclusions"@.len());
    assert("github_close_issue"@.len() != "github_check_conclusions"@.len());
    assert("github_open_pull"@.len() != "github_check_conclusions"@.len());
    assert("github_pull"@.len() != "github_check_conclusions"@.len());
    assert("github_pull_for"@.len() != "github_check_conclusions"@.len());
    assert("github_merge_pull"@.len() != "github_check_conclusions"@.len());
    assert("github_branch_sha"@.len() != "github_check_conclusions"@.len());
    assert("github_compare"@.len() != "github_check_conclusions"@.len());
    assert("github_create_branch"@.len() != "github_check_conclusions"@.len());
    if gives_text(arguments, "repo"@) {
        halves_make_the_whole(arguments@.get("repo"@)->0->Text_0);
    }
}

/// Law: a call of `github_issue_graph` is read as that verb, each of its arguments from
/// the member of its own name; it is refused only where one is missing or
/// is not what it must be.
pub proof fn a_call_of_issue_graph_is_read(
    name: &str,
    arguments: &Json,
    r: Option<Result<Verb, String>>,
)
    requires
        call_ensures(Verb::read, (name, arguments), r),
        name@ == "github_issue_graph"@,
    ensures
        r is Some,
        r->0 is Ok ==> r->0->Ok_0 is IssueGraph,
        r->0 is Ok ==> repo_given(arguments, r->0->Ok_0->IssueGraph_repo),
        r->0 is Ok ==> number_given(arguments, "number"@, r->0->Ok_0->IssueGraph_number),
        gives_repo(arguments) && gives_number(arguments, "number"@) ==> r->0 is Ok,
{
    reveal_strlit("github_default_branch");
    reveal_strlit("github_issue");
    reveal_strlit("github_create_issue");
    reveal_strlit("github_edit_issue");
    reveal_strlit("github_comment");
    reveal_strlit("github_close_issue");
    reveal_strlit("github_open_pull");
    reveal_strlit("github_pull");
    reveal_strlit("github_pull_for");
    reveal_strlit("github_merge_pull");
    reveal_strlit("github_branch_sha");
    reveal_strlit("github_compare");
    reveal_strlit("github_create_branch");
    reveal_strlit("github_check_conclusions");
    reveal_strlit("github_issue_graph");
    reveal_strlit("feature_plan");
    reveal_strlit("github_add_sub_issue");
    reveal_strlit("github_remove_sub_issue");
    reveal_strlit("github_add_blocked_by");
    reveal_strlit("github_remove_blocked_by");
    assert("github_default_branch"@.len() != "github_issue_graph"@.len());
    assert("github_issue"@.len() != "github_issue_graph"@.len());
    assert("github_create_issue"@.len() != "github_issue_graph"@.len());
    assert("github_edit_issue"@.len() != "github_issue_graph"@.len());
    assert("github_comment"@.len() != "github_issue_graph"@.len());
    assert("github_close_issue"@[7] != "github_issue_graph"@[7]);
    assert("github_open_pull"@.len() != "github_issue_graph"@.len());
    assert("github_pull"@.len() != "github_issue_graph"@.len());
    assert("github_pull_for"@.len() != "github_issue_graph"@.len());
    assert("github_merge_pull"@.len() != "github_issue_graph"@.len());
    assert("github_branch_sha"@.len() != "github_issue_graph"@.len());
    assert("github_compare"@.len() != "github_issue_graph"@.len());
    assert("github_create_branch"@.len() != "github_issue_graph"@.len());
    assert("github_check_conclusions"@.len() != "github_issue_graph"@.len());
    if gives_text(arguments, "repo"@) {
        halves_make_the_whole(arguments@.get("repo"@)->0->Text_0);
    }
}

/// Law: a call of `feature_plan` is read as that verb, each of its arguments from
/// the member of its own name; it is refused only where one is missing or
/// is not what it must be.
pub proof fn a_call_of_feature_plan_is_read(
    name: &str,
    arguments: &Json,
    r: Option<Result<Verb, String>>,
)
    requires
        call_ensures(Verb::read, (name, arguments), r),
        name@ == "feature_plan"@,
    ensures
        r is Some,
        r->0 is Ok ==> r->0->Ok_0 is FeaturePlan,
        r->0 is Ok ==> repo_given(arguments, r->0->Ok_0->FeaturePlan_repo),
        r->0 is Ok ==> number_given(arguments, "feature"@, r->0->Ok_0->FeaturePlan_feature),
        gives_repo(arguments) && gives_number(arguments, "feature"@) ==> r->0 is Ok,
{
    reveal_strlit("github_default_branch");
    reveal_strlit("github_issue");
    reveal_strlit("github_create_issue");
    reveal_strlit("github_edit_issue");
    reveal_strlit("github_comment");
    reveal_strlit("github_close_issue");
    reveal_strlit("github_open_pull");
    reveal_strlit("github_pull");
    reveal_strlit("github_pull_for");
    reveal_strlit("github_merge_pull");
    reveal_strlit("github_branch_sha");
    reveal_strlit("github_compare");
    reveal_strlit("github_create_branch");
    reveal_strlit("github_check_conclusions");
    reveal_strlit("github_issue_graph");
    reveal_strlit("feature_plan");
    reveal_strlit("github_add_sub_issue");
    reveal_strlit("github_remove_sub_issue");
    reveal_strlit("github_add_blocked_by");
    reveal_strlit("github_remove_blocked_by");
    assert("github_default_branch"@.len() != "feature_plan"@.len());
    assert("github_issue"@[0] != "feature_plan"@[0]);
    assert("github_create_issue"@.len() != "feature_plan"@.len());
    assert("github_edit_issue"@.len() != "feature_plan"@.len());
    assert("github_comment"@.len() != "feature_plan"@.len());
    assert("github_close_issue"@.len() != "feature_plan"@.len());
    assert("github_open_pull"@.len() != "feature_plan"@.len());
    assert("github_pull"@.len() != "feature_plan"@.len());
    assert("github_pull_for"@.len() != "feature_plan"@.len());
    assert("github_merge_pull"@.len() != "feature_plan"@.len());
    assert("github_branch_sha"@.len() != "feature_plan"@.len());
    assert("github_compare"@.len() != "feature_plan"@.len());
    assert("github_create_branch"@.len() != "feature_plan"@.len());
    assert("github_check_conclusions"@.len() != "feature_plan"@.len());
    assert("github_issue_graph"@.len() != "feature_plan"@.len());
    if gives_text(arguments, "repo"@) {
        halves_make_the_whole(arguments@.get("repo"@)->0->Text_0);
    }
}

/// Law: a call of `github_add_sub_issue` is read as that verb, each of its arguments from
/// the member of its own name; it is refused only where one is missing or
/// is not what it must be.
pub proof fn a_call_of_add_sub_issue_is_read(
    name: &str,
    arguments: &Json,
    r: Option<Result<Verb, String>>,
)
    requires
        call_ensures(Verb::read, (name, arguments), r),
        name@ == "github_add_sub_issue"@,
    ensures
        r is Some,
        r->0 is Ok ==> r->0->Ok_0 is AddSubIssue,
        r->0 is Ok ==> repo_given(arguments, r->0->Ok_0->AddSubIssue_repo),
        r->0 is Ok ==> number_given(arguments, "parent"@, r->0->Ok_0->AddSubIssue_parent),
        r->0 is Ok ==> number_given(arguments, "child"@, r->0->Ok_0->AddSubIssue_child),
        gives_repo(arguments) && gives_number(arguments, "parent"@)
            && gives_number(arguments, "child"@) ==> r->0 is Ok,
{
    reveal_strlit("github_default_branch");
    reveal_strlit("github_issue");
    reveal_strlit("github_create_issue");
    reveal_strlit("github_edit_issue");
    reveal_strlit("github_comment");
    reveal_strlit("github_close_issue");
    reveal_strlit("github_open_pull");
    reveal_strlit("github_pull");
    reveal_strlit("github_pull_for");
    reveal_strlit("github_merge_pull");
    reveal_strlit("github_branch_sha");
    reveal_strlit("github_compare");
    reveal_strlit("github_create_branch");
    reveal_strlit("github_check_conclusions");
    reveal_strlit("github_issue_graph");
    reveal_strlit("feature_plan");
    reveal_strlit("github_add_sub_issue");
    reveal_strlit("github_remove_sub_issue");
    reveal_strlit("github_add_blocked_by");
    reveal_strlit("github_remove_blocked_by");
    assert("github_default_branch"@.len() != "github_add_sub_issue"@.len());
    assert("github_issue"@.len() != "github_add_sub_issue"@.len());
    assert("github_create_issue"@.len() != "github_add_sub_issue"@.len());
    assert("github_edit_issue"@.len() != "github_add_sub_issue"@.len());
    assert("github_comment"@.len() != "github_add_sub_issue"@.len());
    assert("github_close_issue"@.len() != "github_add_sub_issue"@.len());
    assert("github_open_pull"@.len() != "github_add_sub_issue"@.len());
    assert("github_pull"@.len() != "github_add_sub_issue"@.len());
    assert("github_pull_for"@.len() != "github_add_sub_issue"@.len());
    assert("github_merge_pull"@.len() != "github_add_sub_issue"@.len());
    assert("github_branch_sha"@.len() != "github_add_sub_issue"@.len());
    assert("github_compare"@.len() != "github_add_sub_issue"@.len());
    assert("github_create_branch"@[7] != "github_add_sub_issue"@[7]);
    assert("github_check_conclusions"@.len() != "github_add_sub_issue"@.len());
    assert("github_issue_graph"@.len() != "github_add_sub_issue"@.len());
    assert("feature_plan"@.len() != "github_add_sub_issue"@.len());
    if gives_text(arguments, "repo"@) {
        halves_make_the_whole(arguments@.get("repo"@)->0->Text_0);
    }
}

/// Law: a call of `github_remove_sub_issue` is read as that verb, each of its arguments from
/// the member of its own name; it is refused only where one is missing or
/// is not what it must be.
pub proof fn a_call_of_remove_sub_issue_is_read(
    name: &str,
    arguments: &Json,
    r: Option<Result<Verb, String>>,
)
    requires
        call_ensures(Verb::read, (name, arguments), r),
        name@ == "github_remove_sub_issue"@,
    ensures
        r is Some,
        r->0 is Ok ==> r->0->Ok_0 is RemoveSubIssue,
        r->0 is Ok ==> repo_given(arguments, r->0->Ok_0->RemoveSubIssue_repo),
        r->0 is Ok ==> number_given(arguments, "parent"@, r->0->Ok_0->RemoveSubIssue_parent),
        r->0 is Ok ==> number_given(arguments, "child"@, r->0->Ok_0->RemoveSubIssue_child),
        gives_repo(arguments) && gives_number(arguments, "parent"@)
            && gives_number(arguments, "child"@) ==> r->0 is Ok,
{
    reveal_strlit("github_default_branch");
    reveal_strlit("github_issue");
    reveal_strlit("github_create_issue");
    reveal_strlit("github_edit_issue");
    reveal_strlit("github_comment");
    reveal_strlit("github_close_issue");
    reveal_strlit("github_open_pull");
    reveal_strlit("github_pull");
    reveal_strlit("github_pull_for");
    reveal_strlit("github_merge_pull");
    reveal_strlit("github_branch_sha");
    reveal_strlit("github_compare");
    reveal_strlit("github_create_branch");
    reveal_strlit("github_check_conclusions");
    reveal_strlit("github_issue_graph");
    reveal_strlit("feature_plan");
    reveal_strlit("github_add_sub_issue");
    reveal_strlit("github_remove_sub_issue");
    reveal_strlit("github_add_blocked_by");
    reveal_strlit("github_remove_blocked_by");
    assert("github_default_branch"@.len() != "github_remove_sub_issue"@.len());
    assert("github_issue"@.len() != "github_remove_sub_issue"@.len());
    assert("github_create_issue"@.len() != "github_remove_sub_issue"@.len());
    assert("github_edit_issue"@.len() != "github_remove_sub_issue"@.len());
    assert("github_comment"@.len() != "github_remove_sub_issue"@.len());
    assert("github_close_issue"@.len() != "github_remove_sub_issue"@.len());
    assert("github_open_pull"@.len() != "github_remove_sub_issue"@.len());
    assert("github_pull"@.len() != "github_remove_sub_issue"@.len());
    assert("github_pull_for"@.len() != "github_remove_sub_issue"@.len());
    assert("github_merge_pull"@.len() != "github_remove_sub_issue"@.len());
    assert("github_branch_sha"@.len() != "github_remove_sub_issue"@.len());
    assert("github_compare"@.len() != "github_remove_sub_issue"@.len());
    assert("github_create_branch"@.len() != "github_remove_sub_issue"@.len());
    assert("github_check_conclusions"@.len() != "github_remove_sub_issue"@.len());
    assert("github_issue_graph"@.len() != "github_remove_sub_issue"@.len());
    assert("feature_plan"@.len() != "github_remove_sub_issue"@.len());
    assert("github_add_sub_issue"@.len() != "github_remove_sub_issue"@.len());
    if gives_text(arguments, "repo"@) {
        halves_make_the_whole(arguments@.get("repo"@)->0->Text_0);
    }
}

/// Law: a call of `github_add_blocked_by` is read as that verb, each of its arguments from
/// the member of its own name; it is refused only where one is missing or
/// is not what it must be.
pub proof fn a_call_of_add_blocked_by_is_read(
    name: &str,
    arguments: &Json,
    r: Option<Result<Verb, String>>,
)
    requires
        call_ensures(Verb::read, (name, arguments), r),
        name@ == "github_add_blocked_by"@,
    ensures
        r is Some,
        r->0 is Ok ==> r->0->Ok_0 is AddBlockedBy,
        r->0 is Ok ==> repo_given(arguments, r->0->Ok_0->AddBlockedBy_repo),
        r->0 is Ok ==> number_given(arguments, "issue"@, r->0->Ok_0->AddBlockedBy_issue),
        r->0 is Ok ==> number_given(arguments, "blocker"@, r->0->Ok_0->AddBlockedBy_blocker),
        gives_repo(arguments) && gives_number(arguments, "issue"@)
            && gives_number(arguments, "blocker"@) ==> r->0 is Ok,
{
    reveal_strlit("github_default_branch");
    reveal_strlit("github_issue");
    reveal_strlit("github_create_issue");
    reveal_strlit("github_edit_issue");
    reveal_strlit("github_comment");
    reveal_strlit("github_close_issue");
    reveal_strlit("github_open_pull");
    reveal_strlit("github_pull");
    reveal_strlit("github_pull_for");
    reveal_strlit("github_merge_pull");
    reveal_strlit("github_branch_sha");
    reveal_strlit("github_compare");
    reveal_strlit("github_create_branch");
    reveal_strlit("github_check_conclusions");
    reveal_strlit("github_issue_graph");
    reveal_strlit("feature_plan");
    reveal_strlit("github_add_sub_issue");
    reveal_strlit("github_remove_sub_issue");
    reveal_strlit("github_add_blocked_by");
    reveal_strlit("github_remove_blocked_by");
    assert("github_default_branch"@[7] != "github_add_blocked_by"@[7]);
    assert("github_issue"@.len() != "github_add_blocked_by"@.len());
    assert("github_create_issue"@.len() != "github_add_blocked_by"@.len());
    assert("github_edit_issue"@.len() != "github_add_blocked_by"@.len());
    assert("github_comment"@.len() != "github_add_blocked_by"@.len());
    assert("github_close_issue"@.len() != "github_add_blocked_by"@.len());
    assert("github_open_pull"@.len() != "github_add_blocked_by"@.len());
    assert("github_pull"@.len() != "github_add_blocked_by"@.len());
    assert("github_pull_for"@.len() != "github_add_blocked_by"@.len());
    assert("github_merge_pull"@.len() != "github_add_blocked_by"@.len());
    assert("github_branch_sha"@.len() != "github_add_blocked_by"@.len());
    assert("github_compare"@.len() != "github_add_blocked_by"@.len());
    assert("github_create_branch"@.len() != "github_add_blocked_by"@.len());
    assert("github_check_conclusions"@.len() != "github_add_blocked_by"@.len());
    assert("github_issue_graph"@.len() != "github_add_blocked_by"@.len());
    assert("feature_plan"@.len() != "github_add_blocked_by"@.len());
    assert("github_add_sub_issue"@.len() != "github_add_blocked_by"@.len());
    assert("github_remove_sub_issue"@.len() != "github_add_blocked_by"@.len());
    if gives_text(arguments, "repo"@) {
        halves_make_the_whole(arguments@.get("repo"@)->0->Text_0);
    }
}

/// Law: a call of `github_remove_blocked_by` is read as that verb, each of its arguments from
/// the member of its own name; it is refused only where one is missing or
/// is not what it must be.
pub proof fn a_call_of_remove_blocked_by_is_read(
    name: &str,
    arguments: &Json,
    r: Option<Result<Verb, String>>,
)
    requires
        call_ensures(Verb::read, (name, arguments), r),
        name@ == "github_remove_blocked_by"@,
    ensures
        r is Some,
        r->0 is Ok ==> r->0->Ok_0 is RemoveBlockedBy,
        r->0 is Ok ==> repo_given(arguments, r->0->Ok_0->RemoveBlockedBy_repo),
        r->0 is Ok ==> number_given(arguments, "issue"@, r->0->Ok_0->RemoveBlockedBy_issue),
        r->0 is Ok ==> number_given(arguments, "blocker"@, r->0->Ok_0->RemoveBlockedBy_blocker),
        gives_repo(arguments) && gives_number(arguments, "issue"@)
            && gives_number(arguments, "blocker"@) ==> r->0 is Ok,
{
    reveal_strlit("github_default_branch");
    reveal_strlit("github_issue");
    reveal_strlit("github_create_issue");
    reveal_strlit("github_edit_issue");
    reveal_strlit("github_comment");
    reveal_strlit("github_close_issue");
    reveal_strlit("github_open_pull");
    reveal_strlit("github_pull");
    reveal_strlit("github_pull_for");
    reveal_strlit("github_merge_pull");
    reveal_strlit("github_branch_sha");
    reveal_strlit("github_compare");
    reveal_strlit("github_create_branch");
    reveal_strlit("github_check_conclusions");
    reveal_strlit("github_issue_graph");
    reveal_strlit("feature_plan");
    reveal_strlit("github_add_sub_issue");
    reveal_strlit("github_remove_sub_issue");
    reveal_strlit("github_add_blocked_by");
    reveal_strlit("github_remove_blocked_by");
    assert("github_default_branch"@.len() != "github_remove_blocked_by"@.len());
    assert("github_issue"@.len() != "github_remove_blocked_by"@.len());
    assert("github_create_issue"@.len() != "github_remove_blocked_by"@.len());
    assert("github_edit_issue"@.len() != "github_remove_blocked_by"@.len());
    assert("github_comment"@.len() != "github_remove_blocked_by"@.len());
    assert("github_close_issue"@.len() != "github_remove_blocked_by"@.len());
    assert("github_open_pull"@.len() != "github_remove_blocked_by"@.len());
    assert("github_pull"@.len() != "github_remove_blocked_by"@.len());
    assert("github_pull_for"@.len() != "github_remove_blocked_by"@.len());
    assert("github_merge_pull"@.len() != "github_remove_blocked_by"@.len());
    assert("github_branch_sha"@.len() != "github_remove_blocked_by"@.len());
    assert("github_compare"@.len() != "github_remove_blocked_by"@.len());
    assert("github_create_branch"@.len() != "github_remove_blocked_by"@.len());
    assert("github_check_conclusions"@[7] != "github_remove_blocked_by"@[7]);
    assert("github_issue_graph"@.len() != "github_remove_blocked_by"@.len());
    assert("feature_plan"@.len() != "github_remove_blocked_by"@.len());
    assert("github_add_sub_issue"@.len() != "github_remove_blocked_by"@.len());
    assert("github_remove_sub_issue"@.len() != "github_remove_blocked_by"@.len());
    assert("github_add_blocked_by"@.len() != "github_remove_blocked_by"@.len());
    if gives_text(arguments, "repo"@) {
        halves_make_the_whole(arguments@.get("repo"@)->0->Text_0);
    }
}

/// Whether two requests are one: the same method, place and body.
pub open spec fn same_request(one: Request, other: Request) -> bool {
    &&& one.method == other.method
    &&& one.url@ == other.url@
    &&& one.rest == other.rest
    &&& one.body is Some == other.body is Some
    &&& one.body is Some ==> (one.body->0)@ == (other.body->0)@
}

/// Whether two outcomes are one: the same request, or the same refusal.
pub open spec fn same_asked(one: Result<Request, Error>, other: Result<Request, Error>) -> bool {
    &&& one is Ok == other is Ok
    &&& one is Ok ==> same_request(one->Ok_0, other->Ok_0)
    &&& one is Err ==> (one->Err_0 is TokenAbsent) == (other->Err_0 is TokenAbsent)
}

/// Law: the verb `DefaultBranch` makes the request that GitHub's `default_branch` makes of
/// the same arguments.
pub proof fn the_verb_default_branch_asks_as_github_does(
    github: &GitHub,
    repo: Repo,
    r: Option<Result<Request, Error>>,
    other: Request,
)
    requires
        call_ensures(
            Verb::request,
            (&Verb::DefaultBranch { repo }, github),
            r,
        ),
        call_ensures(GitHub::default_branch, (github, &repo), other),
    ensures
        r is Some,
        r->0 is Ok,
        same_request(r->0->Ok_0, other),
{
}

/// Law: the verb `Issue` makes the request that GitHub's `issue` makes of
/// the same arguments.
pub proof fn the_verb_issue_asks_as_github_does(
    github: &GitHub,
    repo: Repo,
    number: u64,
    r: Option<Result<Request, Error>>,
    other: Request,
)
    requires
        call_ensures(
            Verb::request,
            (&Verb::Issue { repo, number }, github),
            r,
        ),
        call_ensures(GitHub::issue, (github, &repo, number), other),
    ensures
        r is Some,
        r->0 is Ok,
        same_request(r->0->Ok_0, other),
{
}

/// Law: the verb `CreateIssue` makes the request that GitHub's `create_issue` makes of
/// the same arguments.
pub proof fn the_verb_create_issue_asks_as_github_does(
    github: &GitHub,
    repo: Repo,
    title: String,
    body: String,
    title_given: &str,
    body_given: &str,
    r: Option<Result<Request, Error>>,
    other: Result<Request, Error>,
)
    requires
        call_ensures(
            Verb::request,
            (&Verb::CreateIssue { repo, title, body }, github),
            r,
        ),
        call_ensures(GitHub::create_issue, (github, &repo, title_given, body_given), other),
        title_given@ == title@,
        body_given@ == body@,
    ensures
        r is Some,
        same_asked(r->0, other),
{
}

/// Law: the verb `EditIssue` makes the request that GitHub's `edit_issue` makes of
/// the same arguments.
pub proof fn the_verb_edit_issue_asks_as_github_does(
    github: &GitHub,
    repo: Repo,
    number: u64,
    title: Option<String>,
    body: Option<String>,
    r: Option<Result<Request, Error>>,
    other: Result<Request, Error>,
)
    requires
        call_ensures(
            Verb::request,
            (&Verb::EditIssue { repo, number, title, body }, github),
            r,
        ),
        call_ensures(GitHub::edit_issue, (github, &repo, number, &title, &body), other),
    ensures
        r is Some,
        same_asked(r->0, other),
{
}

/// Law: the verb `Comment` makes the request that GitHub's `comment` makes of
/// the same arguments.
pub proof fn the_verb_comment_asks_as_github_does(
    github: &GitHub,
    repo: Repo,
    number: u64,
    body: String,
    body_given: &str,
    r: Option<Result<Request, Error>>,
    other: Result<Request, Error>,
)
    requires
        call_ensures(
            Verb::request,
            (&Verb::Comment { repo, number, body }, github),
            r,
        ),
        call_ensures(GitHub::comment, (github, &repo, number, body_given), other),
        body_given@ == body@,
    ensures
        r is Some,
        same_asked(r->0, other),
{
}

/// Law: the verb `CloseIssue` makes the request that GitHub's `close_issue` makes of
/// the same arguments.
pub proof fn the_verb_close_issue_asks_as_github_does(
    github: &GitHub,
    repo: Repo,
    number: u64,
    r: Option<Result<Request, Error>>,
    other: Result<Request, Error>,
)
    requires
        call_ensures(
            Verb::request,
            (&Verb::CloseIssue { repo, number }, github),
            r,
        ),
        call_ensures(GitHub::close_issue, (github, &repo, number), other),
    ensures
        r is Some,
        same_asked(r->0, other),
{
}

/// Law: the verb `OpenPull` makes the request that GitHub's `open_pull` makes of
/// the same arguments.
pub proof fn the_verb_open_pull_asks_as_github_does(
    github: &GitHub,
    repo: Repo,
    title: String,
    head: String,
    base: String,
    body: String,
    title_given: &str,
    head_given: &str,
    base_given: &str,
    body_given: &str,
    r: Option<Result<Request, Error>>,
    other: Result<Request, Error>,
)
    requires
        call_ensures(
            Verb::request,
            (&Verb::OpenPull { repo, title, head, base, body }, github),
            r,
        ),
        call_ensures(GitHub::open_pull, (github, &repo, title_given, head_given, base_given,
            body_given), other),
        title_given@ == title@,
        head_given@ == head@,
        base_given@ == base@,
        body_given@ == body@,
    ensures
        r is Some,
        same_asked(r->0, other),
{
}

/// Law: the verb `Pull` makes the request that GitHub's `pull` makes of
/// the same arguments.
pub proof fn the_verb_pull_asks_as_github_does(
    github: &GitHub,
    repo: Repo,
    number: u64,
    r: Option<Result<Request, Error>>,
    other: Request,
)
    requires
        call_ensures(
            Verb::request,
            (&Verb::Pull { repo, number }, github),
            r,
        ),
        call_ensures(GitHub::pull, (github, &repo, number), other),
    ensures
        r is Some,
        r->0 is Ok,
        same_request(r->0->Ok_0, other),
{
}

/// Law: the verb `MergePull` makes the request that GitHub's `merge_pull` makes of
/// the same arguments.
pub proof fn the_verb_merge_pull_asks_as_github_does(
    github: &GitHub,
    repo: Repo,
    number: u64,
    method: Merge,
    r: Option<Result<Request, Error>>,
    other: Result<Request, Error>,
)
    requires
        call_ensures(
            Verb::request,
            (&Verb::MergePull { repo, number, method }, github),
            r,
        ),
        call_ensures(GitHub::merge_pull, (github, &repo, number, method), other),
    ensures
        r is Some,
        same_asked(r->0, other),
{
}

/// Law: the verb `CheckConclusions` makes the request that GitHub's `check_conclusions` makes of
/// the same arguments.
pub proof fn the_verb_check_conclusions_asks_as_github_does(
    github: &GitHub,
    repo: Repo,
    git_ref: String,
    git_ref_given: &str,
    r: Option<Result<Request, Error>>,
    other: Request,
)
    requires
        call_ensures(
            Verb::request,
            (&Verb::CheckConclusions { repo, git_ref }, github),
            r,
        ),
        call_ensures(GitHub::check_conclusions, (github, &repo, git_ref_given), other),
        git_ref_given@ == git_ref@,
    ensures
        r is Some,
        r->0 is Ok,
        same_request(r->0->Ok_0, other),
{
}

/// Law: the verb `IssueGraph` makes the request that GitHub's `issue_graph` makes of
/// the same arguments.
pub proof fn the_verb_issue_graph_asks_as_github_does(
    github: &GitHub,
    repo: Repo,
    number: u64,
    r: Option<Result<Request, Error>>,
    other: Result<Request, Error>,
)
    requires
        call_ensures(
            Verb::request,
            (&Verb::IssueGraph { repo, number }, github),
            r,
        ),
        call_ensures(GitHub::issue_graph, (github, &repo, number), other),
    ensures
        r is Some,
        same_asked(r->0, other),
{
}

/// Law: what is answered to a verb that reads or writes an issue is the
/// issue that GitHub's answer decodes to, told.
pub proof fn an_issue_is_answered_with_the_issue(
    verb: &Verb,
    what: &str,
    answer: &Json,
    r: Result<Json, String>,
    issue: Result<Issue, Error>,
    told: Json,
)
    requires
        *verb is Issue || *verb is CreateIssue || *verb is EditIssue || *verb is CloseIssue,
        call_ensures(Verb::told, (verb, what, answer), r),
        call_ensures(Issue::decode, (what, answer), issue),
        issue is Ok ==> call_ensures(Issue::told, (&issue->Ok_0,), told),
    ensures
        r is Ok <==> issue is Ok,
        r is Ok ==> r->Ok_0@ == told@,
{
}

/// Law: what is answered to a verb about a pull request is the pull request
/// that GitHub's answer decodes to, told.
pub proof fn a_pull_request_is_answered_with_the_pull_request(
    verb: &Verb,
    what: &str,
    answer: &Json,
    r: Result<Json, String>,
    pull: Result<Pull, Error>,
    told: Json,
)
    requires
        *verb is OpenPull || *verb is Pull,
        call_ensures(Verb::told, (verb, what, answer), r),
        call_ensures(Pull::decode, (what, answer), pull),
        pull is Ok ==> call_ensures(Pull::told, (&pull->Ok_0,), told),
    ensures
        r is Ok <==> pull is Ok,
        r is Ok ==> r->Ok_0@ == told@,
{
}

/// Law: what is answered about checks is the checks that GitHub's answer
/// decodes to, told.
pub proof fn checks_are_answered_with_the_checks(
    verb: &Verb,
    what: &str,
    answer: &Json,
    r: Result<Json, String>,
    checks: Result<Vec<Check>, Error>,
    told: Json,
)
    requires
        *verb is CheckConclusions,
        call_ensures(Verb::told, (verb, what, answer), r),
        call_ensures(decode::check_runs, (what, answer), checks),
        checks is Ok ==> call_ensures(decode::tell_checks, (&checks->Ok_0,), told),
    ensures
        r is Ok <==> checks is Ok,
        r is Ok ==> r->Ok_0@ == told@,
{
}

/// Law: what is answered about the default branch is the branch that
/// GitHub's answer names.
pub proof fn the_default_branch_is_answered_by_its_name(
    verb: &Verb,
    what: &str,
    answer: &Json,
    r: Result<Json, String>,
    branch: Result<String, Error>,
)
    requires
        *verb is DefaultBranch,
        call_ensures(Verb::told, (verb, what, answer), r),
        call_ensures(decode::default_branch, (what, answer), branch),
    ensures
        r is Ok <==> branch is Ok,
        r is Ok ==> r->Ok_0@ == JsonView::Text(branch->Ok_0@),
{
}

/// Law: what is answered about an issue's edges is the graph in the data of
/// GitHub's reply, told; a reply with complaints answers none.
pub proof fn a_graph_is_answered_with_the_graph(
    verb: &Verb,
    what: &str,
    answer: &Json,
    r: Result<Json, String>,
    data: Result<Json, Error>,
    graph: Result<IssueGraph, Error>,
    told: Json,
)
    requires
        *verb is IssueGraph,
        call_ensures(Verb::told, (verb, what, answer), r),
        call_ensures(decode::graphql_data, (answer,), data),
        data is Ok ==> call_ensures(decode::graph, (&data->Ok_0,), graph),
        data is Ok && graph is Ok ==> call_ensures(IssueGraph::told, (&graph->Ok_0,), told),
    ensures
        r is Ok <==> data is Ok && graph is Ok,
        r is Ok ==> r->Ok_0@ == told@,
{
}

/// Law: a verb that only acts is answered as done.
pub proof fn a_verb_that_acts_is_answered_as_done(
    verb: &Verb,
    what: &str,
    answer: &Json,
    r: Result<Json, String>,
)
    requires
        *verb is Comment || *verb is MergePull || *verb is CreateBranch,
        call_ensures(Verb::told, (verb, what, answer), r),
    ensures
        r is Ok,
        r->Ok_0@.get("done"@) == Some(JsonView::Bool(true)),
{
    crossing::put(JsonView::record(), "done"@, JsonView::Bool(true));
}

// ----- the tools as they are advertised -----

/// Whether a tool asks for an argument of a type.
pub open spec fn takes(tool: ToolSpec, key: Seq<char>, kind: Seq<char>) -> bool {
    &&& tool@.parameters.get("properties"@) is Some
    &&& tool@.parameters.get("properties"@)->0.get(key) is Some
    &&& tool@.parameters.get("properties"@)->0.get(key)->0.get("type"@) == Some(
        JsonView::Text(kind),
    )
}

/// Whether a tool says that an argument must be given.
pub open spec fn demands(tool: ToolSpec, key: Seq<char>) -> bool {
    &&& tool@.parameters.get("required"@) is Some
    &&& tool@.parameters.get("required"@)->0 is Array
    &&& tool@.parameters.get("required"@)->0->Array_0.contains(JsonView::Text(key))
}

/// Law: every tool that is advertised is one whose call is read.
pub proof fn every_tool_can_be_called(
    tools: Vec<ToolSpec>,
    k: int,
    name: &str,
    arguments: &Json,
    r: Option<Result<Verb, String>>,
)
    requires
        call_ensures(tools::all, (), tools),
        0 <= k < tools@.len(),
        name@ == tools@[k]@.name,
        call_ensures(Verb::read, (name, arguments), r),
    ensures
        r is Some,
{
    let views = tools@.map_values(|tool: ToolSpec| tool@);
    let specs = tools::all_specs();
    assert(views == specs);
    assert(specs.len() == 20);
    assert(views[k] == tools@[k]@);
    assert(name@ == specs[k].name);
    assert(specs[0].name == "github_default_branch"@);
    assert(specs[1].name == "github_issue"@);
    assert(specs[2].name == "github_create_issue"@);
    assert(specs[3].name == "github_edit_issue"@);
    assert(specs[4].name == "github_comment"@);
    assert(specs[5].name == "github_close_issue"@);
    assert(specs[6].name == "github_open_pull"@);
    assert(specs[7].name == "github_pull"@);
    assert(specs[8].name == "github_pull_for"@);
    assert(specs[9].name == "github_merge_pull"@);
    assert(specs[10].name == "github_branch_sha"@);
    assert(specs[11].name == "github_compare"@);
    assert(specs[12].name == "github_create_branch"@);
    assert(specs[13].name == "github_check_conclusions"@);
    assert(specs[14].name == "github_issue_graph"@);
    assert(specs[15].name == "feature_plan"@);
    assert(specs[16].name == "github_add_sub_issue"@);
    assert(specs[17].name == "github_remove_sub_issue"@);
    assert(specs[18].name == "github_add_blocked_by"@);
    assert(specs[19].name == "github_remove_blocked_by"@);
}

proof fn a_property_has_its_type(kind: Seq<char>, description: Seq<char>)
    ensures
        crate::tools::property_of(kind, description).get("type"@) == Some(JsonView::Text(kind)),
{
    reveal_strlit("type");
    reveal_strlit("description");
    assert("type"@.len() != "description"@.len());
    let record = JsonView::record();
    crossing::put(record, "type"@, JsonView::Text(kind));
    crossing::put(
        record.with("type"@, JsonView::Text(kind)),
        "description"@,
        JsonView::Text(description),
    );
}

proof fn a_schema_has_its_parts(properties: JsonView, required: JsonView)
    ensures
        crate::tools::schema_of(properties, required).get("properties"@) == Some(properties),
        crate::tools::schema_of(properties, required).get("required"@) == Some(required),
{
    reveal_strlit("type");
    reveal_strlit("properties");
    reveal_strlit("required");
    assert("type"@.len() != "properties"@.len());
    assert("type"@.len() != "required"@.len());
    assert("properties"@.len() != "required"@.len());
    let record = JsonView::record();
    crossing::put(record, "type"@, JsonView::Text("object"@));
    let record = record.with("type"@, JsonView::Text("object"@));
    crossing::put(record, "properties"@, properties);
    let record = record.with("properties"@, properties);
    crossing::put(record, "required"@, required);
}

/// Law: `github_default_branch` is advertised with the arguments its call is read from.
pub proof fn default_branch_asks_for_what_it_reads(tools: Vec<ToolSpec>)
    requires
        call_ensures(tools::all, (), tools),
    ensures
        tools@.len() == 20,
        tools@[0]@.name == "github_default_branch"@,
        takes(tools@[0], "repo"@, "string"@),
        demands(tools@[0], "repo"@),
{
    let views = tools@.map_values(|tool: ToolSpec| tool@);
    assert(views == tools::all_specs());
    assert(views.len() == tools@.len());
    assert(views[0] == tools@[0]@);
    reveal_strlit("repo");
    a_property_has_its_type(
        "string"@,
        "The repository as one owner/name string, e.g. epik-agent/Epik."@,
    );
    let record = JsonView::record();
    crossing::put(record, "repo"@, tools::repo_property());
    let properties = JsonView::record().with("repo"@, tools::repo_property());
    let required = JsonView::row().also("repo"@);
    a_schema_has_its_parts(properties, required);
    assert(required->Array_0[0] == JsonView::Text("repo"@));
}

/// Law: `github_issue` is advertised with the arguments its call is read from.
pub proof fn issue_asks_for_what_it_reads(tools: Vec<ToolSpec>)
    requires
        call_ensures(tools::all, (), tools),
    ensures
        tools@.len() == 20,
        tools@[1]@.name == "github_issue"@,
        takes(tools@[1], "repo"@, "string"@),
        takes(tools@[1], "number"@, "integer"@),
        demands(tools@[1], "repo"@),
        demands(tools@[1], "number"@),
{
    let views = tools@.map_values(|tool: ToolSpec| tool@);
    assert(views == tools::all_specs());
    assert(views.len() == tools@.len());
    assert(views[1] == tools@[1]@);
    reveal_strlit("repo");
    reveal_strlit("number");
    assert("repo"@.len() != "number"@.len());
    a_property_has_its_type(
        "string"@,
        "The repository as one owner/name string, e.g. epik-agent/Epik."@,
    );
    a_property_has_its_type("integer"@, "The issue number."@);
    let record = JsonView::record();
    crossing::put(record, "repo"@, tools::repo_property());
    let record = record.with("repo"@, tools::repo_property());
    crossing::put(record, "number"@, crate::tools::property_of("integer"@, "The issue number."@));
    let properties = JsonView::record().with("repo"@, tools::repo_property())
        .with("number"@, crate::tools::property_of("integer"@, "The issue number."@));
    let required = JsonView::row().also("repo"@).also("number"@);
    a_schema_has_its_parts(properties, required);
    assert(required->Array_0[0] == JsonView::Text("repo"@));
    assert(required->Array_0[1] == JsonView::Text("number"@));
}

/// Law: `github_create_issue` is advertised with the arguments its call is read from.
pub proof fn create_issue_asks_for_what_it_reads(tools: Vec<ToolSpec>)
    requires
        call_ensures(tools::all, (), tools),
    ensures
        tools@.len() == 20,
        tools@[2]@.name == "github_create_issue"@,
        takes(tools@[2], "repo"@, "string"@),
        takes(tools@[2], "title"@, "string"@),
        takes(tools@[2], "body"@, "string"@),
        demands(tools@[2], "repo"@),
        demands(tools@[2], "title"@),
        demands(tools@[2], "body"@),
{
    let views = tools@.map_values(|tool: ToolSpec| tool@);
    assert(views == tools::all_specs());
    assert(views.len() == tools@.len());
    assert(views[2] == tools@[2]@);
    reveal_strlit("repo");
    reveal_strlit("title");
    reveal_strlit("body");
    assert("repo"@.len() != "title"@.len());
    assert("repo"@[0] != "body"@[0]);
    assert("title"@.len() != "body"@.len());
    a_property_has_its_type(
        "string"@,
        "The repository as one owner/name string, e.g. epik-agent/Epik."@,
    );
    a_property_has_its_type("string"@, "The issue title."@);
    a_property_has_its_type("string"@, "The issue body, in Markdown; may be empty."@);
    let record = JsonView::record();
    crossing::put(record, "repo"@, tools::repo_property());
    let record = record.with("repo"@, tools::repo_property());
    crossing::put(record, "title"@, crate::tools::property_of("string"@, "The issue title."@));
    let record = record.with("title"@, crate::tools::property_of("string"@, "The issue title."@));
    crossing::put(record, "body"@, crate::tools::property_of("string"@,
        "The issue body, in Markdown; may be empty."@));
    let properties = JsonView::record().with("repo"@, tools::repo_property())
        .with("title"@, crate::tools::property_of("string"@, "The issue title."@))
        .with("body"@, crate::tools::property_of("string"@,
        "The issue body, in Markdown; may be empty."@));
    let required = JsonView::row().also("repo"@).also("title"@).also("body"@);
    a_schema_has_its_parts(properties, required);
    assert(required->Array_0[0] == JsonView::Text("repo"@));
    assert(required->Array_0[1] == JsonView::Text("title"@));
    assert(required->Array_0[2] == JsonView::Text("body"@));
}

/// Law: `github_edit_issue` is advertised with the arguments its call is read from.
pub proof fn edit_issue_asks_for_what_it_reads(tools: Vec<ToolSpec>)
    requires
        call_ensures(tools::all, (), tools),
    ensures
        tools@.len() == 20,
        tools@[3]@.name == "github_edit_issue"@,
        takes(tools@[3], "repo"@, "string"@),
        takes(tools@[3], "number"@, "integer"@),
        takes(tools@[3], "title"@, "string"@),
        takes(tools@[3], "body"@, "string"@),
        demands(tools@[3], "repo"@),
        demands(tools@[3], "number"@),
{
    let views = tools@.map_values(|tool: ToolSpec| tool@);
    assert(views == tools::all_specs());
    assert(views.len() == tools@.len());
    assert(views[3] == tools@[3]@);
    reveal_strlit("repo");
    reveal_strlit("number");
    reveal_strlit("title");
    reveal_strlit("body");
    assert("repo"@.len() != "number"@.len());
    assert("repo"@.len() != "title"@.len());
    assert("repo"@[0] != "body"@[0]);
    assert("number"@.len() != "title"@.len());
    assert("number"@.len() != "body"@.len());
    assert("title"@.len() != "body"@.len());
    a_property_has_its_type(
        "string"@,
        "The repository as one owner/name string, e.g. epik-agent/Epik."@,
    );
    a_property_has_its_type("integer"@, "The issue number."@);
    a_property_has_its_type("string"@, "The new title; omit to keep the current one."@);
    a_property_has_its_type("string"@, "The new body; omit to keep the current one."@);
    let record = JsonView::record();
    crossing::put(record, "repo"@, tools::repo_property());
    let record = record.with("repo"@, tools::repo_property());
    crossing::put(record, "number"@, crate::tools::property_of("integer"@, "The issue number."@));
    let record = record
        .with("number"@, crate::tools::property_of("integer"@, "The issue number."@));
    crossing::put(record, "title"@, crate::tools::property_of("string"@,
        "The new title; omit to keep the current one."@));
    let record = record
        .with("title"@, crate::tools::property_of("string"@,
        "The new title; omit to keep the current one."@));
    crossing::put(record, "body"@, crate::tools::property_of("string"@,
        "The new body; omit to keep the current one."@));
    let properties = JsonView::record().with("repo"@, tools::repo_property())
        .with("number"@, crate::tools::property_of("integer"@, "The issue number."@))
        .with("title"@, crate::tools::property_of("string"@,
        "The new title; omit to keep the current one."@))
        .with("body"@, crate::tools::property_of("string"@,
        "The new body; omit to keep the current one."@));
    let required = JsonView::row().also("repo"@).also("number"@);
    a_schema_has_its_parts(properties, required);
    assert(required->Array_0[0] == JsonView::Text("repo"@));
    assert(required->Array_0[1] == JsonView::Text("number"@));
}

/// Law: `github_comment` is advertised with the arguments its call is read from.
pub proof fn comment_asks_for_what_it_reads(tools: Vec<ToolSpec>)
    requires
        call_ensures(tools::all, (), tools),
    ensures
        tools@.len() == 20,
        tools@[4]@.name == "github_comment"@,
        takes(tools@[4], "repo"@, "string"@),
        takes(tools@[4], "number"@, "integer"@),
        takes(tools@[4], "body"@, "string"@),
        demands(tools@[4], "repo"@),
        demands(tools@[4], "number"@),
        demands(tools@[4], "body"@),
{
    let views = tools@.map_values(|tool: ToolSpec| tool@);
    assert(views == tools::all_specs());
    assert(views.len() == tools@.len());
    assert(views[4] == tools@[4]@);
    reveal_strlit("repo");
    reveal_strlit("number");
    reveal_strlit("body");
    assert("repo"@.len() != "number"@.len());
    assert("repo"@[0] != "body"@[0]);
    assert("number"@.len() != "body"@.len());
    a_property_has_its_type(
        "string"@,
        "The repository as one owner/name string, e.g. epik-agent/Epik."@,
    );
    a_property_has_its_type("integer"@, "The issue or pull request number."@);
    a_property_has_its_type("string"@, "The comment body, in Markdown."@);
    let record = JsonView::record();
    crossing::put(record, "repo"@, tools::repo_property());
    let record = record.with("repo"@, tools::repo_property());
    crossing::put(record, "number"@, crate::tools::property_of("integer"@,
        "The issue or pull request number."@));
    let record = record
        .with("number"@, crate::tools::property_of("integer"@,
        "The issue or pull request number."@));
    crossing::put(record, "body"@, crate::tools::property_of("string"@,
        "The comment body, in Markdown."@));
    let properties = JsonView::record().with("repo"@, tools::repo_property())
        .with("number"@, crate::tools::property_of("integer"@,
        "The issue or pull request number."@))
        .with("body"@, crate::tools::property_of("string"@, "The comment body, in Markdown."@));
    let required = JsonView::row().also("repo"@).also("number"@).also("body"@);
    a_schema_has_its_parts(properties, required);
    assert(required->Array_0[0] == JsonView::Text("repo"@));
    assert(required->Array_0[1] == JsonView::Text("number"@));
    assert(required->Array_0[2] == JsonView::Text("body"@));
}

/// Law: `github_close_issue` is advertised with the arguments its call is read from.
pub proof fn close_issue_asks_for_what_it_reads(tools: Vec<ToolSpec>)
    requires
        call_ensures(tools::all, (), tools),
    ensures
        tools@.len() == 20,
        tools@[5]@.name == "github_close_issue"@,
        takes(tools@[5], "repo"@, "string"@),
        takes(tools@[5], "number"@, "integer"@),
        demands(tools@[5], "repo"@),
        demands(tools@[5], "number"@),
{
    let views = tools@.map_values(|tool: ToolSpec| tool@);
    assert(views == tools::all_specs());
    assert(views.len() == tools@.len());
    assert(views[5] == tools@[5]@);
    reveal_strlit("repo");
    reveal_strlit("number");
    assert("repo"@.len() != "number"@.len());
    a_property_has_its_type(
        "string"@,
        "The repository as one owner/name string, e.g. epik-agent/Epik."@,
    );
    a_property_has_its_type("integer"@, "The issue number."@);
    let record = JsonView::record();
    crossing::put(record, "repo"@, tools::repo_property());
    let record = record.with("repo"@, tools::repo_property());
    crossing::put(record, "number"@, crate::tools::property_of("integer"@, "The issue number."@));
    let properties = JsonView::record().with("repo"@, tools::repo_property())
        .with("number"@, crate::tools::property_of("integer"@, "The issue number."@));
    let required = JsonView::row().also("repo"@).also("number"@);
    a_schema_has_its_parts(properties, required);
    assert(required->Array_0[0] == JsonView::Text("repo"@));
    assert(required->Array_0[1] == JsonView::Text("number"@));
}

/// Law: `github_open_pull` is advertised with the arguments its call is read from.
pub proof fn open_pull_asks_for_what_it_reads(tools: Vec<ToolSpec>)
    requires
        call_ensures(tools::all, (), tools),
    ensures
        tools@.len() == 20,
        tools@[6]@.name == "github_open_pull"@,
        takes(tools@[6], "repo"@, "string"@),
        takes(tools@[6], "title"@, "string"@),
        takes(tools@[6], "head"@, "string"@),
        takes(tools@[6], "base"@, "string"@),
        takes(tools@[6], "body"@, "string"@),
        demands(tools@[6], "repo"@),
        demands(tools@[6], "title"@),
        demands(tools@[6], "head"@),
        demands(tools@[6], "base"@),
        demands(tools@[6], "body"@),
{
    let views = tools@.map_values(|tool: ToolSpec| tool@);
    assert(views == tools::all_specs());
    assert(views.len() == tools@.len());
    assert(views[6] == tools@[6]@);
    reveal_strlit("repo");
    reveal_strlit("title");
    reveal_strlit("head");
    reveal_strlit("base");
    reveal_strlit("body");
    assert("repo"@.len() != "title"@.len());
    assert("repo"@[0] != "head"@[0]);
    assert("repo"@[0] != "base"@[0]);
    assert("repo"@[0] != "body"@[0]);
    assert("title"@.len() != "head"@.len());
    assert("title"@.len() != "base"@.len());
    assert("title"@.len() != "body"@.len());
    assert("head"@[0] != "base"@[0]);
    assert("head"@[0] != "body"@[0]);
    assert("base"@[1] != "body"@[1]);
    a_property_has_its_type(
        "string"@,
        "The repository as one owner/name string, e.g. epik-agent/Epik."@,
    );
    a_property_has_its_type("string"@, "The pull request title."@);
    a_property_has_its_type("string"@, "The branch to merge from."@);
    a_property_has_its_type("string"@, "The branch to merge into."@);
    a_property_has_its_type("string"@, "The pull request body, in Markdown; may be empty."@);
    let record = JsonView::record();
    crossing::put(record, "repo"@, tools::repo_property());
    let record = record.with("repo"@, tools::repo_property());
    crossing::put(record, "title"@, crate::tools::property_of("string"@,
        "The pull request title."@));
    let record = record
        .with("title"@, crate::tools::property_of("string"@, "The pull request title."@));
    crossing::put(record, "head"@, crate::tools::property_of("string"@,
        "The branch to merge from."@));
    let record = record
        .with("head"@, crate::tools::property_of("string"@, "The branch to merge from."@));
    crossing::put(record, "base"@, crate::tools::property_of("string"@,
        "The branch to merge into."@));
    let record = record
        .with("base"@, crate::tools::property_of("string"@, "The branch to merge into."@));
    crossing::put(record, "body"@, crate::tools::property_of("string"@,
        "The pull request body, in Markdown; may be empty."@));
    let properties = JsonView::record().with("repo"@, tools::repo_property())
        .with("title"@, crate::tools::property_of("string"@, "The pull request title."@))
        .with("head"@, crate::tools::property_of("string"@, "The branch to merge from."@))
        .with("base"@, crate::tools::property_of("string"@, "The branch to merge into."@))
        .with("body"@, crate::tools::property_of("string"@,
        "The pull request body, in Markdown; may be empty."@));
    let required = JsonView::row().also("repo"@).also("title"@).also("head"@).also("base"@).also("body"@);
    a_schema_has_its_parts(properties, required);
    assert(required->Array_0[0] == JsonView::Text("repo"@));
    assert(required->Array_0[1] == JsonView::Text("title"@));
    assert(required->Array_0[2] == JsonView::Text("head"@));
    assert(required->Array_0[3] == JsonView::Text("base"@));
    assert(required->Array_0[4] == JsonView::Text("body"@));
}

/// Law: `github_pull` is advertised with the arguments its call is read from.
pub proof fn pull_asks_for_what_it_reads(tools: Vec<ToolSpec>)
    requires
        call_ensures(tools::all, (), tools),
    ensures
        tools@.len() == 20,
        tools@[7]@.name == "github_pull"@,
        takes(tools@[7], "repo"@, "string"@),
        takes(tools@[7], "number"@, "integer"@),
        demands(tools@[7], "repo"@),
        demands(tools@[7], "number"@),
{
    let views = tools@.map_values(|tool: ToolSpec| tool@);
    assert(views == tools::all_specs());
    assert(views.len() == tools@.len());
    assert(views[7] == tools@[7]@);
    reveal_strlit("repo");
    reveal_strlit("number");
    assert("repo"@.len() != "number"@.len());
    a_property_has_its_type(
        "string"@,
        "The repository as one owner/name string, e.g. epik-agent/Epik."@,
    );
    a_property_has_its_type("integer"@, "The pull request number."@);
    let record = JsonView::record();
    crossing::put(record, "repo"@, tools::repo_property());
    let record = record.with("repo"@, tools::repo_property());
    crossing::put(record, "number"@, crate::tools::property_of("integer"@,
        "The pull request number."@));
    let properties = JsonView::record().with("repo"@, tools::repo_property())
        .with("number"@, crate::tools::property_of("integer"@, "The pull request number."@));
    let required = JsonView::row().also("repo"@).also("number"@);
    a_schema_has_its_parts(properties, required);
    assert(required->Array_0[0] == JsonView::Text("repo"@));
    assert(required->Array_0[1] == JsonView::Text("number"@));
}

/// Law: `github_pull_for` is advertised with the arguments its call is read from.
pub proof fn pull_for_asks_for_what_it_reads(tools: Vec<ToolSpec>)
    requires
        call_ensures(tools::all, (), tools),
    ensures
        tools@.len() == 20,
        tools@[8]@.name == "github_pull_for"@,
        takes(tools@[8], "repo"@, "string"@),
        takes(tools@[8], "head"@, "string"@),
        demands(tools@[8], "repo"@),
        demands(tools@[8], "head"@),
{
    let views = tools@.map_values(|tool: ToolSpec| tool@);
    assert(views == tools::all_specs());
    assert(views.len() == tools@.len());
    assert(views[8] == tools@[8]@);
    reveal_strlit("repo");
    reveal_strlit("head");
    assert("repo"@[0] != "head"@[0]);
    a_property_has_its_type(
        "string"@,
        "The repository as one owner/name string, e.g. epik-agent/Epik."@,
    );
    a_property_has_its_type("string"@, "The branch name."@);
    let record = JsonView::record();
    crossing::put(record, "repo"@, tools::repo_property());
    let record = record.with("repo"@, tools::repo_property());
    crossing::put(record, "head"@, crate::tools::property_of("string"@, "The branch name."@));
    let properties = JsonView::record().with("repo"@, tools::repo_property())
        .with("head"@, crate::tools::property_of("string"@, "The branch name."@));
    let required = JsonView::row().also("repo"@).also("head"@);
    a_schema_has_its_parts(properties, required);
    assert(required->Array_0[0] == JsonView::Text("repo"@));
    assert(required->Array_0[1] == JsonView::Text("head"@));
}

/// Law: `github_merge_pull` is advertised with the arguments its call is read from.
pub proof fn merge_pull_asks_for_what_it_reads(tools: Vec<ToolSpec>)
    requires
        call_ensures(tools::all, (), tools),
    ensures
        tools@.len() == 20,
        tools@[9]@.name == "github_merge_pull"@,
        takes(tools@[9], "repo"@, "string"@),
        takes(tools@[9], "number"@, "integer"@),
        takes(tools@[9], "method"@, "string"@),
        demands(tools@[9], "repo"@),
        demands(tools@[9], "number"@),
        demands(tools@[9], "method"@),
{
    let views = tools@.map_values(|tool: ToolSpec| tool@);
    assert(views == tools::all_specs());
    assert(views.len() == tools@.len());
    assert(views[9] == tools@[9]@);
    reveal_strlit("repo");
    reveal_strlit("number");
    reveal_strlit("method");
    reveal_strlit("type");
    reveal_strlit("enum");
    reveal_strlit("description");
    assert("repo"@.len() != "number"@.len());
    assert("repo"@.len() != "method"@.len());
    assert("number"@[0] != "method"@[0]);
    assert("type"@[0] != "enum"@[0]);
    assert("type"@.len() != "description"@.len());
    assert("enum"@.len() != "description"@.len());
    a_property_has_its_type(
        "string"@,
        "The repository as one owner/name string, e.g. epik-agent/Epik."@,
    );
    a_property_has_its_type("integer"@, "The pull request number."@);
    let record = JsonView::record();
    crossing::put(record, "type"@, JsonView::Text("string"@));
    let record = record.with("type"@, JsonView::Text("string"@));
    crossing::put(record, "enum"@, JsonView::row().also("commit"@).also("squash"@).also("rebase"@));
    let record = record
        .with("enum"@, JsonView::row().also("commit"@).also("squash"@).also("rebase"@));
    crossing::put(record, "description"@, JsonView::Text("How to merge."@));
    let record = JsonView::record();
    crossing::put(record, "repo"@, tools::repo_property());
    let record = record.with("repo"@, tools::repo_property());
    crossing::put(record, "number"@, crate::tools::property_of("integer"@,
        "The pull request number."@));
    let record = record
        .with("number"@, crate::tools::property_of("integer"@, "The pull request number."@));
    crossing::put(record, "method"@, tools::method_property());
    let properties = JsonView::record().with("repo"@, tools::repo_property())
        .with("number"@, crate::tools::property_of("integer"@, "The pull request number."@))
        .with("method"@, tools::method_property());
    let required = JsonView::row().also("repo"@).also("number"@).also("method"@);
    a_schema_has_its_parts(properties, required);
    assert(required->Array_0[0] == JsonView::Text("repo"@));
    assert(required->Array_0[1] == JsonView::Text("number"@));
    assert(required->Array_0[2] == JsonView::Text("method"@));
}

/// Law: `github_branch_sha` is advertised with the arguments its call is read from.
pub proof fn branch_sha_asks_for_what_it_reads(tools: Vec<ToolSpec>)
    requires
        call_ensures(tools::all, (), tools),
    ensures
        tools@.len() == 20,
        tools@[10]@.name == "github_branch_sha"@,
        takes(tools@[10], "repo"@, "string"@),
        takes(tools@[10], "branch"@, "string"@),
        demands(tools@[10], "repo"@),
        demands(tools@[10], "branch"@),
{
    let views = tools@.map_values(|tool: ToolSpec| tool@);
    assert(views == tools::all_specs());
    assert(views.len() == tools@.len());
    assert(views[10] == tools@[10]@);
    reveal_strlit("repo");
    reveal_strlit("branch");
    assert("repo"@.len() != "branch"@.len());
    a_property_has_its_type(
        "string"@,
        "The repository as one owner/name string, e.g. epik-agent/Epik."@,
    );
    a_property_has_its_type("string"@, "The branch name."@);
    let record = JsonView::record();
    crossing::put(record, "repo"@, tools::repo_property());
    let record = record.with("repo"@, tools::repo_property());
    crossing::put(record, "branch"@, crate::tools::property_of("string"@, "The branch name."@));
    let properties = JsonView::record().with("repo"@, tools::repo_property())
        .with("branch"@, crate::tools::property_of("string"@, "The branch name."@));
    let required = JsonView::row().also("repo"@).also("branch"@);
    a_schema_has_its_parts(properties, required);
    assert(required->Array_0[0] == JsonView::Text("repo"@));
    assert(required->Array_0[1] == JsonView::Text("branch"@));
}

/// Law: `github_compare` is advertised with the arguments its call is read from.
pub proof fn compare_asks_for_what_it_reads(tools: Vec<ToolSpec>)
    requires
        call_ensures(tools::all, (), tools),
    ensures
        tools@.len() == 20,
        tools@[11]@.name == "github_compare"@,
        takes(tools@[11], "repo"@, "string"@),
        takes(tools@[11], "base"@, "string"@),
        takes(tools@[11], "head"@, "string"@),
        demands(tools@[11], "repo"@),
        demands(tools@[11], "base"@),
        demands(tools@[11], "head"@),
{
    let views = tools@.map_values(|tool: ToolSpec| tool@);
    assert(views == tools::all_specs());
    assert(views.len() == tools@.len());
    assert(views[11] == tools@[11]@);
    reveal_strlit("repo");
    reveal_strlit("base");
    reveal_strlit("head");
    assert("repo"@[0] != "base"@[0]);
    assert("repo"@[0] != "head"@[0]);
    assert("base"@[0] != "head"@[0]);
    a_property_has_its_type(
        "string"@,
        "The repository as one owner/name string, e.g. epik-agent/Epik."@,
    );
    a_property_has_its_type("string"@, "The ref to compare against."@);
    a_property_has_its_type("string"@, "The ref being compared."@);
    let record = JsonView::record();
    crossing::put(record, "repo"@, tools::repo_property());
    let record = record.with("repo"@, tools::repo_property());
    crossing::put(record, "base"@, crate::tools::property_of("string"@,
        "The ref to compare against."@));
    let record = record
        .with("base"@, crate::tools::property_of("string"@, "The ref to compare against."@));
    crossing::put(record, "head"@, crate::tools::property_of("string"@,
        "The ref being compared."@));
    let properties = JsonView::record().with("repo"@, tools::repo_property())
        .with("base"@, crate::tools::property_of("string"@, "The ref to compare against."@))
        .with("head"@, crate::tools::property_of("string"@, "The ref being compared."@));
    let required = JsonView::row().also("repo"@).also("base"@).also("head"@);
    a_schema_has_its_parts(properties, required);
    assert(required->Array_0[0] == JsonView::Text("repo"@));
    assert(required->Array_0[1] == JsonView::Text("base"@));
    assert(required->Array_0[2] == JsonView::Text("head"@));
}

/// Law: `github_create_branch` is advertised with the arguments its call is read from.
pub proof fn create_branch_asks_for_what_it_reads(tools: Vec<ToolSpec>)
    requires
        call_ensures(tools::all, (), tools),
    ensures
        tools@.len() == 20,
        tools@[12]@.name == "github_create_branch"@,
        takes(tools@[12], "repo"@, "string"@),
        takes(tools@[12], "branch"@, "string"@),
        takes(tools@[12], "sha"@, "string"@),
        demands(tools@[12], "repo"@),
        demands(tools@[12], "branch"@),
        demands(tools@[12], "sha"@),
{
    let views = tools@.map_values(|tool: ToolSpec| tool@);
    assert(views == tools::all_specs());
    assert(views.len() == tools@.len());
    assert(views[12] == tools@[12]@);
    reveal_strlit("repo");
    reveal_strlit("branch");
    reveal_strlit("sha");
    assert("repo"@.len() != "branch"@.len());
    assert("repo"@.len() != "sha"@.len());
    assert("branch"@.len() != "sha"@.len());
    a_property_has_its_type(
        "string"@,
        "The repository as one owner/name string, e.g. epik-agent/Epik."@,
    );
    a_property_has_its_type("string"@, "The new branch's name."@);
    a_property_has_its_type("string"@, "The commit SHA to start it at."@);
    let record = JsonView::record();
    crossing::put(record, "repo"@, tools::repo_property());
    let record = record.with("repo"@, tools::repo_property());
    crossing::put(record, "branch"@, crate::tools::property_of("string"@,
        "The new branch's name."@));
    let record = record
        .with("branch"@, crate::tools::property_of("string"@, "The new branch's name."@));
    crossing::put(record, "sha"@, crate::tools::property_of("string"@,
        "The commit SHA to start it at."@));
    let properties = JsonView::record().with("repo"@, tools::repo_property())
        .with("branch"@, crate::tools::property_of("string"@, "The new branch's name."@))
        .with("sha"@, crate::tools::property_of("string"@, "The commit SHA to start it at."@));
    let required = JsonView::row().also("repo"@).also("branch"@).also("sha"@);
    a_schema_has_its_parts(properties, required);
    assert(required->Array_0[0] == JsonView::Text("repo"@));
    assert(required->Array_0[1] == JsonView::Text("branch"@));
    assert(required->Array_0[2] == JsonView::Text("sha"@));
}

/// Law: `github_check_conclusions` is advertised with the arguments its call is read from.
pub proof fn check_conclusions_asks_for_what_it_reads(tools: Vec<ToolSpec>)
    requires
        call_ensures(tools::all, (), tools),
    ensures
        tools@.len() == 20,
        tools@[13]@.name == "github_check_conclusions"@,
        takes(tools@[13], "repo"@, "string"@),
        takes(tools@[13], "ref"@, "string"@),
        demands(tools@[13], "repo"@),
        demands(tools@[13], "ref"@),
{
    let views = tools@.map_values(|tool: ToolSpec| tool@);
    assert(views == tools::all_specs());
    assert(views.len() == tools@.len());
    assert(views[13] == tools@[13]@);
    reveal_strlit("repo");
    reveal_strlit("ref");
    assert("repo"@.len() != "ref"@.len());
    a_property_has_its_type(
        "string"@,
        "The repository as one owner/name string, e.g. epik-agent/Epik."@,
    );
    a_property_has_its_type("string"@, "The branch name, tag, or commit SHA."@);
    let record = JsonView::record();
    crossing::put(record, "repo"@, tools::repo_property());
    let record = record.with("repo"@, tools::repo_property());
    crossing::put(record, "ref"@, crate::tools::property_of("string"@,
        "The branch name, tag, or commit SHA."@));
    let properties = JsonView::record().with("repo"@, tools::repo_property())
        .with("ref"@, crate::tools::property_of("string"@,
        "The branch name, tag, or commit SHA."@));
    let required = JsonView::row().also("repo"@).also("ref"@);
    a_schema_has_its_parts(properties, required);
    assert(required->Array_0[0] == JsonView::Text("repo"@));
    assert(required->Array_0[1] == JsonView::Text("ref"@));
}

/// Law: `github_issue_graph` is advertised with the arguments its call is read from.
pub proof fn issue_graph_asks_for_what_it_reads(tools: Vec<ToolSpec>)
    requires
        call_ensures(tools::all, (), tools),
    ensures
        tools@.len() == 20,
        tools@[14]@.name == "github_issue_graph"@,
        takes(tools@[14], "repo"@, "string"@),
        takes(tools@[14], "number"@, "integer"@),
        demands(tools@[14], "repo"@),
        demands(tools@[14], "number"@),
{
    let views = tools@.map_values(|tool: ToolSpec| tool@);
    assert(views == tools::all_specs());
    assert(views.len() == tools@.len());
    assert(views[14] == tools@[14]@);
    reveal_strlit("repo");
    reveal_strlit("number");
    assert("repo"@.len() != "number"@.len());
    a_property_has_its_type(
        "string"@,
        "The repository as one owner/name string, e.g. epik-agent/Epik."@,
    );
    a_property_has_its_type("integer"@, "The issue number."@);
    let record = JsonView::record();
    crossing::put(record, "repo"@, tools::repo_property());
    let record = record.with("repo"@, tools::repo_property());
    crossing::put(record, "number"@, crate::tools::property_of("integer"@, "The issue number."@));
    let properties = JsonView::record().with("repo"@, tools::repo_property())
        .with("number"@, crate::tools::property_of("integer"@, "The issue number."@));
    let required = JsonView::row().also("repo"@).also("number"@);
    a_schema_has_its_parts(properties, required);
    assert(required->Array_0[0] == JsonView::Text("repo"@));
    assert(required->Array_0[1] == JsonView::Text("number"@));
}

/// Law: `feature_plan` is advertised with the arguments its call is read from.
pub proof fn feature_plan_asks_for_what_it_reads(tools: Vec<ToolSpec>)
    requires
        call_ensures(tools::all, (), tools),
    ensures
        tools@.len() == 20,
        tools@[15]@.name == "feature_plan"@,
        takes(tools@[15], "repo"@, "string"@),
        takes(tools@[15], "feature"@, "integer"@),
        demands(tools@[15], "repo"@),
        demands(tools@[15], "feature"@),
{
    let views = tools@.map_values(|tool: ToolSpec| tool@);
    assert(views == tools::all_specs());
    assert(views.len() == tools@.len());
    assert(views[15] == tools@[15]@);
    reveal_strlit("repo");
    reveal_strlit("feature");
    assert("repo"@.len() != "feature"@.len());
    a_property_has_its_type(
        "string"@,
        "The repository as one owner/name string, e.g. epik-agent/Epik."@,
    );
    a_property_has_its_type("integer"@, "The feature issue's number."@);
    let record = JsonView::record();
    crossing::put(record, "repo"@, tools::repo_property());
    let record = record.with("repo"@, tools::repo_property());
    crossing::put(record, "feature"@, crate::tools::property_of("integer"@,
        "The feature issue's number."@));
    let properties = JsonView::record().with("repo"@, tools::repo_property())
        .with("feature"@, crate::tools::property_of("integer"@, "The feature issue's number."@));
    let required = JsonView::row().also("repo"@).also("feature"@);
    a_schema_has_its_parts(properties, required);
    assert(required->Array_0[0] == JsonView::Text("repo"@));
    assert(required->Array_0[1] == JsonView::Text("feature"@));
}

/// Law: `github_add_sub_issue` is advertised with the arguments its call is read from.
pub proof fn add_sub_issue_asks_for_what_it_reads(tools: Vec<ToolSpec>)
    requires
        call_ensures(tools::all, (), tools),
    ensures
        tools@.len() == 20,
        tools@[16]@.name == "github_add_sub_issue"@,
        takes(tools@[16], "repo"@, "string"@),
        takes(tools@[16], "parent"@, "integer"@),
        takes(tools@[16], "child"@, "integer"@),
        demands(tools@[16], "repo"@),
        demands(tools@[16], "parent"@),
        demands(tools@[16], "child"@),
{
    let views = tools@.map_values(|tool: ToolSpec| tool@);
    assert(views == tools::all_specs());
    assert(views.len() == tools@.len());
    assert(views[16] == tools@[16]@);
    reveal_strlit("repo");
    reveal_strlit("parent");
    reveal_strlit("child");
    assert("repo"@.len() != "parent"@.len());
    assert("repo"@.len() != "child"@.len());
    assert("parent"@.len() != "child"@.len());
    a_property_has_its_type(
        "string"@,
        "The repository as one owner/name string, e.g. epik-agent/Epik."@,
    );
    a_property_has_its_type("integer"@, "The parent issue's number."@);
    a_property_has_its_type("integer"@, "The issue to attach as a sub-issue."@);
    let record = JsonView::record();
    crossing::put(record, "repo"@, tools::repo_property());
    let record = record.with("repo"@, tools::repo_property());
    crossing::put(record, "parent"@, crate::tools::property_of("integer"@,
        "The parent issue's number."@));
    let record = record
        .with("parent"@, crate::tools::property_of("integer"@, "The parent issue's number."@));
    crossing::put(record, "child"@, crate::tools::property_of("integer"@,
        "The issue to attach as a sub-issue."@));
    let properties = JsonView::record().with("repo"@, tools::repo_property())
        .with("parent"@, crate::tools::property_of("integer"@,
        "The parent issue's number."@))
        .with("child"@, crate::tools::property_of("integer"@,
        "The issue to attach as a sub-issue."@));
    let required = JsonView::row().also("repo"@).also("parent"@).also("child"@);
    a_schema_has_its_parts(properties, required);
    assert(required->Array_0[0] == JsonView::Text("repo"@));
    assert(required->Array_0[1] == JsonView::Text("parent"@));
    assert(required->Array_0[2] == JsonView::Text("child"@));
}

/// Law: `github_remove_sub_issue` is advertised with the arguments its call is read from.
pub proof fn remove_sub_issue_asks_for_what_it_reads(tools: Vec<ToolSpec>)
    requires
        call_ensures(tools::all, (), tools),
    ensures
        tools@.len() == 20,
        tools@[17]@.name == "github_remove_sub_issue"@,
        takes(tools@[17], "repo"@, "string"@),
        takes(tools@[17], "parent"@, "integer"@),
        takes(tools@[17], "child"@, "integer"@),
        demands(tools@[17], "repo"@),
        demands(tools@[17], "parent"@),
        demands(tools@[17], "child"@),
{
    let views = tools@.map_values(|tool: ToolSpec| tool@);
    assert(views == tools::all_specs());
    assert(views.len() == tools@.len());
    assert(views[17] == tools@[17]@);
    reveal_strlit("repo");
    reveal_strlit("parent");
    reveal_strlit("child");
    assert("repo"@.len() != "parent"@.len());
    assert("repo"@.len() != "child"@.len());
    assert("parent"@.len() != "child"@.len());
    a_property_has_its_type(
        "string"@,
        "The repository as one owner/name string, e.g. epik-agent/Epik."@,
    );
    a_property_has_its_type("integer"@, "The parent issue's number."@);
    a_property_has_its_type("integer"@, "The sub-issue to detach."@);
    let record = JsonView::record();
    crossing::put(record, "repo"@, tools::repo_property());
    let record = record.with("repo"@, tools::repo_property());
    crossing::put(record, "parent"@, crate::tools::property_of("integer"@,
        "The parent issue's number."@));
    let record = record
        .with("parent"@, crate::tools::property_of("integer"@, "The parent issue's number."@));
    crossing::put(record, "child"@, crate::tools::property_of("integer"@,
        "The sub-issue to detach."@));
    let properties = JsonView::record().with("repo"@, tools::repo_property())
        .with("parent"@, crate::tools::property_of("integer"@,
        "The parent issue's number."@))
        .with("child"@, crate::tools::property_of("integer"@, "The sub-issue to detach."@));
    let required = JsonView::row().also("repo"@).also("parent"@).also("child"@);
    a_schema_has_its_parts(properties, required);
    assert(required->Array_0[0] == JsonView::Text("repo"@));
    assert(required->Array_0[1] == JsonView::Text("parent"@));
    assert(required->Array_0[2] == JsonView::Text("child"@));
}

/// Law: `github_add_blocked_by` is advertised with the arguments its call is read from.
pub proof fn add_blocked_by_asks_for_what_it_reads(tools: Vec<ToolSpec>)
    requires
        call_ensures(tools::all, (), tools),
    ensures
        tools@.len() == 20,
        tools@[18]@.name == "github_add_blocked_by"@,
        takes(tools@[18], "repo"@, "string"@),
        takes(tools@[18], "issue"@, "integer"@),
        takes(tools@[18], "blocker"@, "integer"@),
        demands(tools@[18], "repo"@),
        demands(tools@[18], "issue"@),
        demands(tools@[18], "blocker"@),
{
    let views = tools@.map_values(|tool: ToolSpec| tool@);
    assert(views == tools::all_specs());
    assert(views.len() == tools@.len());
    assert(views[18] == tools@[18]@);
    reveal_strlit("repo");
    reveal_strlit("issue");
    reveal_strlit("blocker");
    assert("repo"@.len() != "issue"@.len());
    assert("repo"@.len() != "blocker"@.len());
    assert("issue"@.len() != "blocker"@.len());
    a_property_has_its_type(
        "string"@,
        "The repository as one owner/name string, e.g. epik-agent/Epik."@,
    );
    a_property_has_its_type("integer"@, "The blocked issue's number."@);
    a_property_has_its_type("integer"@, "The issue doing the blocking."@);
    let record = JsonView::record();
    crossing::put(record, "repo"@, tools::repo_property());
    let record = record.with("repo"@, tools::repo_property());
    crossing::put(record, "issue"@, crate::tools::property_of("integer"@,
        "The blocked issue's number."@));
    let record = record
        .with("issue"@, crate::tools::property_of("integer"@, "The blocked issue's number."@));
    crossing::put(record, "blocker"@, crate::tools::property_of("integer"@,
        "The issue doing the blocking."@));
    let properties = JsonView::record().with("repo"@, tools::repo_property())
        .with("issue"@, crate::tools::property_of("integer"@,
        "The blocked issue's number."@))
        .with("blocker"@, crate::tools::property_of("integer"@, "The issue doing the blocking."@));
    let required = JsonView::row().also("repo"@).also("issue"@).also("blocker"@);
    a_schema_has_its_parts(properties, required);
    assert(required->Array_0[0] == JsonView::Text("repo"@));
    assert(required->Array_0[1] == JsonView::Text("issue"@));
    assert(required->Array_0[2] == JsonView::Text("blocker"@));
}

/// Law: `github_remove_blocked_by` is advertised with the arguments its call is read from.
pub proof fn remove_blocked_by_asks_for_what_it_reads(tools: Vec<ToolSpec>)
    requires
        call_ensures(tools::all, (), tools),
    ensures
        tools@.len() == 20,
        tools@[19]@.name == "github_remove_blocked_by"@,
        takes(tools@[19], "repo"@, "string"@),
        takes(tools@[19], "issue"@, "integer"@),
        takes(tools@[19], "blocker"@, "integer"@),
        demands(tools@[19], "repo"@),
        demands(tools@[19], "issue"@),
        demands(tools@[19], "blocker"@),
{
    let views = tools@.map_values(|tool: ToolSpec| tool@);
    assert(views == tools::all_specs());
    assert(views.len() == tools@.len());
    assert(views[19] == tools@[19]@);
    reveal_strlit("repo");
    reveal_strlit("issue");
    reveal_strlit("blocker");
    assert("repo"@.len() != "issue"@.len());
    assert("repo"@.len() != "blocker"@.len());
    assert("issue"@.len() != "blocker"@.len());
    a_property_has_its_type(
        "string"@,
        "The repository as one owner/name string, e.g. epik-agent/Epik."@,
    );
    a_property_has_its_type("integer"@, "The blocked issue's number."@);
    a_property_has_its_type("integer"@, "The blocker to remove."@);
    let record = JsonView::record();
    crossing::put(record, "repo"@, tools::repo_property());
    let record = record.with("repo"@, tools::repo_property());
    crossing::put(record, "issue"@, crate::tools::property_of("integer"@,
        "The blocked issue's number."@));
    let record = record
        .with("issue"@, crate::tools::property_of("integer"@, "The blocked issue's number."@));
    crossing::put(record, "blocker"@, crate::tools::property_of("integer"@,
        "The blocker to remove."@));
    let properties = JsonView::record().with("repo"@, tools::repo_property())
        .with("issue"@, crate::tools::property_of("integer"@,
        "The blocked issue's number."@))
        .with("blocker"@, crate::tools::property_of("integer"@, "The blocker to remove."@));
    let required = JsonView::row().also("repo"@).also("issue"@).also("blocker"@);
    a_schema_has_its_parts(properties, required);
    assert(required->Array_0[0] == JsonView::Text("repo"@));
    assert(required->Array_0[1] == JsonView::Text("issue"@));
    assert(required->Array_0[2] == JsonView::Text("blocker"@));
}

} // verus!
