//! The GitHub verbs as tools the model can call.
//!
//! [`all`] is one tool per public verb, plus `feature_plan`, the read of a
//! whole feature. Descriptions are written for a model: one sentence each,
//! and the verbs that need the token say so, so the persona can tell the
//! user what is missing instead of guessing. Arguments arrive as JSON; a
//! repository is one `owner/name` string settled through [`Repo::parse`],
//! and a bad spelling is an Err result in plain words, never a panic.
//!
//! A call is a [`Verb`] once its arguments are read, a request once GitHub
//! is known, and a tool result once GitHub has answered.

use crate::chat::{ToolSpec, ToolSpecView};
use crate::crossing::plans;
use crate::feature;
use crate::feature::{Issue as Planned, Plan, PlanView, ProblemView};
use crate::github;
use crate::github::decode;
use crate::github::{
    Error, ErrorView, GitHub, Issue, IssueGraph, Merge, Pull, Repo, Request, RequestView,
};
use crate::ids::IdSet;
use crate::json;
use crate::json::{Json, JsonView};
use crate::text;
use crate::tools;
use crate::tree;
use vstd::prelude::*;

verus! {

// ----- the tools as the wire advertises them -----

/// The property every verb has: its repository.
pub open spec fn repo_property() -> JsonView {
    tools::property_of(
        "string"@,
        "The repository as one owner/name string, e.g. epik-agent/Epik."@,
    )
}

/// The property that names a way to merge.
pub open spec fn method_property() -> JsonView {
    JsonView::record().with("type"@, JsonView::Text("string"@)).with(
        "enum"@,
        JsonView::row().also("commit"@).also("squash"@).also("rebase"@),
    ).with("description"@, JsonView::Text("How to merge."@))
}

fn repo_arg() -> (r: Json)
    ensures
        r@ == repo_property(),
{
    tools::string_arg("The repository as one owner/name string, e.g. epik-agent/Epik.")
}

fn method_arg() -> (r: Json)
    ensures
        r@ == method_property(),
{
    Json::record().with("type", Json::string("string")).with(
        "enum",
        Json::row().also("commit").also("squash").also("rebase"),
    ).with("description", Json::string("How to merge."))
}

/// The `github_default_branch` tool.
pub open spec fn default_branch_spec() -> ToolSpecView {
    ToolSpecView {
        name: "github_default_branch"@,
        description: "The default branch name of a GitHub repository."@,
        parameters: tools::schema_of(
            JsonView::record()
                .with("repo"@, repo_property()),
            JsonView::row().also("repo"@),
        ),
    }
}

fn default_branch_tool() -> (r: ToolSpec)
    ensures
        r@ == default_branch_spec(),
{
    ToolSpec::function(
        "github_default_branch".to_owned(),
        "The default branch name of a GitHub repository.".to_owned(),
        tools::schema(
            Json::record()
                .with("repo", repo_arg()),
            Json::row().also("repo"),
        ),
    )
}

/// The `github_issue` tool.
pub open spec fn issue_spec() -> ToolSpecView {
    ToolSpecView {
        name: "github_issue"@,
        description: "One GitHub issue by number: title, body, and open/closed state."@,
        parameters: tools::schema_of(
            JsonView::record()
                .with("repo"@, repo_property())
                .with("number"@, tools::property_of("integer"@, "The issue number."@)),
            JsonView::row().also("repo"@).also("number"@),
        ),
    }
}

fn issue_tool() -> (r: ToolSpec)
    ensures
        r@ == issue_spec(),
{
    ToolSpec::function(
        "github_issue".to_owned(),
        "One GitHub issue by number: title, body, and open/closed state.".to_owned(),
        tools::schema(
            Json::record()
                .with("repo", repo_arg())
                .with("number", tools::number_arg("The issue number.")),
            Json::row().also("repo").also("number"),
        ),
    )
}

/// The `github_create_issue` tool.
pub open spec fn create_issue_spec() -> ToolSpecView {
    ToolSpecView {
        name: "github_create_issue"@,
        description: "Opens a new GitHub issue with a title and body. Needs the GitHub token."@,
        parameters: tools::schema_of(
            JsonView::record()
                .with("repo"@, repo_property())
                .with("title"@, tools::property_of("string"@, "The issue title."@))
                .with("body"@, tools::property_of("string"@, "The issue body, in Markdown; may be empty."@)),
            JsonView::row().also("repo"@).also("title"@).also("body"@),
        ),
    }
}

fn create_issue_tool() -> (r: ToolSpec)
    ensures
        r@ == create_issue_spec(),
{
    ToolSpec::function(
        "github_create_issue".to_owned(),
        "Opens a new GitHub issue with a title and body. Needs the GitHub token.".to_owned(),
        tools::schema(
            Json::record()
                .with("repo", repo_arg())
                .with("title", tools::string_arg("The issue title."))
                .with("body", tools::string_arg("The issue body, in Markdown; may be empty.")),
            Json::row().also("repo").also("title").also("body"),
        ),
    )
}

/// The `github_edit_issue` tool.
pub open spec fn edit_issue_spec() -> ToolSpecView {
    ToolSpecView {
        name: "github_edit_issue"@,
        description: "Rewrites a GitHub issue's title, body, or both; an omitted field keeps its text. Needs the GitHub token."@,
        parameters: tools::schema_of(
            JsonView::record()
                .with("repo"@, repo_property())
                .with("number"@, tools::property_of("integer"@, "The issue number."@))
                .with("title"@, tools::property_of("string"@, "The new title; omit to keep the current one."@))
                .with("body"@, tools::property_of("string"@, "The new body; omit to keep the current one."@)),
            JsonView::row().also("repo"@).also("number"@),
        ),
    }
}

fn edit_issue_tool() -> (r: ToolSpec)
    ensures
        r@ == edit_issue_spec(),
{
    ToolSpec::function(
        "github_edit_issue".to_owned(),
        "Rewrites a GitHub issue's title, body, or both; an omitted field keeps its text. Needs the GitHub token.".to_owned(),
        tools::schema(
            Json::record()
                .with("repo", repo_arg())
                .with("number", tools::number_arg("The issue number."))
                .with("title", tools::string_arg("The new title; omit to keep the current one."))
                .with("body", tools::string_arg("The new body; omit to keep the current one.")),
            Json::row().also("repo").also("number"),
        ),
    )
}

/// The `github_comment` tool.
pub open spec fn comment_spec() -> ToolSpecView {
    ToolSpecView {
        name: "github_comment"@,
        description: "Adds a comment to a GitHub issue or pull request. Needs the GitHub token."@,
        parameters: tools::schema_of(
            JsonView::record()
                .with("repo"@, repo_property())
                .with("number"@, tools::property_of("integer"@, "The issue or pull request number."@))
                .with("body"@, tools::property_of("string"@, "The comment body, in Markdown."@)),
            JsonView::row().also("repo"@).also("number"@).also("body"@),
        ),
    }
}

fn comment_tool() -> (r: ToolSpec)
    ensures
        r@ == comment_spec(),
{
    ToolSpec::function(
        "github_comment".to_owned(),
        "Adds a comment to a GitHub issue or pull request. Needs the GitHub token.".to_owned(),
        tools::schema(
            Json::record()
                .with("repo", repo_arg())
                .with("number", tools::number_arg("The issue or pull request number."))
                .with("body", tools::string_arg("The comment body, in Markdown.")),
            Json::row().also("repo").also("number").also("body"),
        ),
    )
}

/// The `github_close_issue` tool.
pub open spec fn close_issue_spec() -> ToolSpecView {
    ToolSpecView {
        name: "github_close_issue"@,
        description: "Closes a GitHub issue. Needs the GitHub token."@,
        parameters: tools::schema_of(
            JsonView::record()
                .with("repo"@, repo_property())
                .with("number"@, tools::property_of("integer"@, "The issue number."@)),
            JsonView::row().also("repo"@).also("number"@),
        ),
    }
}

fn close_issue_tool() -> (r: ToolSpec)
    ensures
        r@ == close_issue_spec(),
{
    ToolSpec::function(
        "github_close_issue".to_owned(),
        "Closes a GitHub issue. Needs the GitHub token.".to_owned(),
        tools::schema(
            Json::record()
                .with("repo", repo_arg())
                .with("number", tools::number_arg("The issue number.")),
            Json::row().also("repo").also("number"),
        ),
    )
}

/// The `github_open_pull` tool.
pub open spec fn open_pull_spec() -> ToolSpecView {
    ToolSpecView {
        name: "github_open_pull"@,
        description: "Opens a GitHub pull request merging branch head into branch base. Needs the GitHub token."@,
        parameters: tools::schema_of(
            JsonView::record()
                .with("repo"@, repo_property())
                .with("title"@, tools::property_of("string"@, "The pull request title."@))
                .with("head"@, tools::property_of("string"@, "The branch to merge from."@))
                .with("base"@, tools::property_of("string"@, "The branch to merge into."@))
                .with("body"@, tools::property_of("string"@, "The pull request body, in Markdown; may be empty."@)),
            JsonView::row().also("repo"@).also("title"@).also("head"@).also("base"@).also("body"@),
        ),
    }
}

fn open_pull_tool() -> (r: ToolSpec)
    ensures
        r@ == open_pull_spec(),
{
    ToolSpec::function(
        "github_open_pull".to_owned(),
        "Opens a GitHub pull request merging branch head into branch base. Needs the GitHub token.".to_owned(),
        tools::schema(
            Json::record()
                .with("repo", repo_arg())
                .with("title", tools::string_arg("The pull request title."))
                .with("head", tools::string_arg("The branch to merge from."))
                .with("base", tools::string_arg("The branch to merge into."))
                .with("body", tools::string_arg("The pull request body, in Markdown; may be empty.")),
            Json::row().also("repo").also("title").also("head").also("base").also("body"),
        ),
    )
}

/// The `github_pull` tool.
pub open spec fn pull_spec() -> ToolSpecView {
    ToolSpecView {
        name: "github_pull"@,
        description: "One GitHub pull request by number: title, state, merged flag, and both branches."@,
        parameters: tools::schema_of(
            JsonView::record()
                .with("repo"@, repo_property())
                .with("number"@, tools::property_of("integer"@, "The pull request number."@)),
            JsonView::row().also("repo"@).also("number"@),
        ),
    }
}

fn pull_tool() -> (r: ToolSpec)
    ensures
        r@ == pull_spec(),
{
    ToolSpec::function(
        "github_pull".to_owned(),
        "One GitHub pull request by number: title, state, merged flag, and both branches.".to_owned(),
        tools::schema(
            Json::record()
                .with("repo", repo_arg())
                .with("number", tools::number_arg("The pull request number.")),
            Json::row().also("repo").also("number"),
        ),
    )
}

/// The `github_pull_for` tool.
pub open spec fn pull_for_spec() -> ToolSpecView {
    ToolSpecView {
        name: "github_pull_for"@,
        description: "The most recent GitHub pull request a branch produced, in any state; null when the branch never produced one."@,
        parameters: tools::schema_of(
            JsonView::record()
                .with("repo"@, repo_property())
                .with("head"@, tools::property_of("string"@, "The branch name."@)),
            JsonView::row().also("repo"@).also("head"@),
        ),
    }
}

fn pull_for_tool() -> (r: ToolSpec)
    ensures
        r@ == pull_for_spec(),
{
    ToolSpec::function(
        "github_pull_for".to_owned(),
        "The most recent GitHub pull request a branch produced, in any state; null when the branch never produced one.".to_owned(),
        tools::schema(
            Json::record()
                .with("repo", repo_arg())
                .with("head", tools::string_arg("The branch name.")),
            Json::row().also("repo").also("head"),
        ),
    )
}

/// The `github_merge_pull` tool.
pub open spec fn merge_pull_spec() -> ToolSpecView {
    ToolSpecView {
        name: "github_merge_pull"@,
        description: "Merges a GitHub pull request by commit, squash, or rebase; an unmergeable one comes back as GitHub's own refusal. Needs the GitHub token."@,
        parameters: tools::schema_of(
            JsonView::record()
                .with("repo"@, repo_property())
                .with("number"@, tools::property_of("integer"@, "The pull request number."@))
                .with("method"@, method_property()),
            JsonView::row().also("repo"@).also("number"@).also("method"@),
        ),
    }
}

fn merge_pull_tool() -> (r: ToolSpec)
    ensures
        r@ == merge_pull_spec(),
{
    ToolSpec::function(
        "github_merge_pull".to_owned(),
        "Merges a GitHub pull request by commit, squash, or rebase; an unmergeable one comes back as GitHub's own refusal. Needs the GitHub token.".to_owned(),
        tools::schema(
            Json::record()
                .with("repo", repo_arg())
                .with("number", tools::number_arg("The pull request number."))
                .with("method", method_arg()),
            Json::row().also("repo").also("number").also("method"),
        ),
    )
}

/// The `github_branch_sha` tool.
pub open spec fn branch_sha_spec() -> ToolSpecView {
    ToolSpecView {
        name: "github_branch_sha"@,
        description: "The commit SHA a GitHub branch points at; null when there is no such branch."@,
        parameters: tools::schema_of(
            JsonView::record()
                .with("repo"@, repo_property())
                .with("branch"@, tools::property_of("string"@, "The branch name."@)),
            JsonView::row().also("repo"@).also("branch"@),
        ),
    }
}

fn branch_sha_tool() -> (r: ToolSpec)
    ensures
        r@ == branch_sha_spec(),
{
    ToolSpec::function(
        "github_branch_sha".to_owned(),
        "The commit SHA a GitHub branch points at; null when there is no such branch.".to_owned(),
        tools::schema(
            Json::record()
                .with("repo", repo_arg())
                .with("branch", tools::string_arg("The branch name.")),
            Json::row().also("repo").also("branch"),
        ),
    )
}

/// The `github_compare` tool.
pub open spec fn compare_spec() -> ToolSpecView {
    ToolSpecView {
        name: "github_compare"@,
        description: "How one GitHub ref stands relative to another: identical, ahead, behind, or diverged."@,
        parameters: tools::schema_of(
            JsonView::record()
                .with("repo"@, repo_property())
                .with("base"@, tools::property_of("string"@, "The ref to compare against."@))
                .with("head"@, tools::property_of("string"@, "The ref being compared."@)),
            JsonView::row().also("repo"@).also("base"@).also("head"@),
        ),
    }
}

fn compare_tool() -> (r: ToolSpec)
    ensures
        r@ == compare_spec(),
{
    ToolSpec::function(
        "github_compare".to_owned(),
        "How one GitHub ref stands relative to another: identical, ahead, behind, or diverged.".to_owned(),
        tools::schema(
            Json::record()
                .with("repo", repo_arg())
                .with("base", tools::string_arg("The ref to compare against."))
                .with("head", tools::string_arg("The ref being compared.")),
            Json::row().also("repo").also("base").also("head"),
        ),
    )
}

/// The `github_create_branch` tool.
pub open spec fn create_branch_spec() -> ToolSpecView {
    ToolSpecView {
        name: "github_create_branch"@,
        description: "Creates a GitHub branch at a commit SHA, entirely at the remote. Needs the GitHub token."@,
        parameters: tools::schema_of(
            JsonView::record()
                .with("repo"@, repo_property())
                .with("branch"@, tools::property_of("string"@, "The new branch's name."@))
                .with("sha"@, tools::property_of("string"@, "The commit SHA to start it at."@)),
            JsonView::row().also("repo"@).also("branch"@).also("sha"@),
        ),
    }
}

fn create_branch_tool() -> (r: ToolSpec)
    ensures
        r@ == create_branch_spec(),
{
    ToolSpec::function(
        "github_create_branch".to_owned(),
        "Creates a GitHub branch at a commit SHA, entirely at the remote. Needs the GitHub token.".to_owned(),
        tools::schema(
            Json::record()
                .with("repo", repo_arg())
                .with("branch", tools::string_arg("The new branch's name."))
                .with("sha", tools::string_arg("The commit SHA to start it at.")),
            Json::row().also("repo").also("branch").also("sha"),
        ),
    )
}

/// The `github_check_conclusions` tool.
pub open spec fn check_conclusions_spec() -> ToolSpecView {
    ToolSpecView {
        name: "github_check_conclusions"@,
        description: "Every check run's verdict on a GitHub ref — a branch, tag, or commit SHA; a run still executing has a null conclusion."@,
        parameters: tools::schema_of(
            JsonView::record()
                .with("repo"@, repo_property())
                .with("ref"@, tools::property_of("string"@, "The branch name, tag, or commit SHA."@)),
            JsonView::row().also("repo"@).also("ref"@),
        ),
    }
}

fn check_conclusions_tool() -> (r: ToolSpec)
    ensures
        r@ == check_conclusions_spec(),
{
    ToolSpec::function(
        "github_check_conclusions".to_owned(),
        "Every check run's verdict on a GitHub ref — a branch, tag, or commit SHA; a run still executing has a null conclusion.".to_owned(),
        tools::schema(
            Json::record()
                .with("repo", repo_arg())
                .with("ref", tools::string_arg("The branch name, tag, or commit SHA.")),
            Json::row().also("repo").also("ref"),
        ),
    )
}

/// The `github_issue_graph` tool.
pub open spec fn issue_graph_spec() -> ToolSpecView {
    ToolSpecView {
        name: "github_issue_graph"@,
        description: "A GitHub issue with its edges: the sub-issues it decomposes into and the issues blocking it. Needs the GitHub token."@,
        parameters: tools::schema_of(
            JsonView::record()
                .with("repo"@, repo_property())
                .with("number"@, tools::property_of("integer"@, "The issue number."@)),
            JsonView::row().also("repo"@).also("number"@),
        ),
    }
}

fn issue_graph_tool() -> (r: ToolSpec)
    ensures
        r@ == issue_graph_spec(),
{
    ToolSpec::function(
        "github_issue_graph".to_owned(),
        "A GitHub issue with its edges: the sub-issues it decomposes into and the issues blocking it. Needs the GitHub token.".to_owned(),
        tools::schema(
            Json::record()
                .with("repo", repo_arg())
                .with("number", tools::number_arg("The issue number.")),
            Json::row().also("repo").also("number"),
        ),
    )
}

/// The `feature_plan` tool.
pub open spec fn feature_plan_spec() -> ToolSpecView {
    ToolSpecView {
        name: "feature_plan"@,
        description: "A feature's whole plan in one call: the sub-issue tree rooted at the feature issue, the blocked-by edges over it, any blockers outside the tree, the issues ready to start, and any problems with the plan's shape. Titles and state only, no bodies. Needs the GitHub token."@,
        parameters: tools::schema_of(
            JsonView::record()
                .with("repo"@, repo_property())
                .with("feature"@, tools::property_of("integer"@, "The feature issue's number."@)),
            JsonView::row().also("repo"@).also("feature"@),
        ),
    }
}

fn feature_plan_tool() -> (r: ToolSpec)
    ensures
        r@ == feature_plan_spec(),
{
    ToolSpec::function(
        "feature_plan".to_owned(),
        "A feature's whole plan in one call: the sub-issue tree rooted at the feature issue, the blocked-by edges over it, any blockers outside the tree, the issues ready to start, and any problems with the plan's shape. Titles and state only, no bodies. Needs the GitHub token.".to_owned(),
        tools::schema(
            Json::record()
                .with("repo", repo_arg())
                .with("feature", tools::number_arg("The feature issue's number.")),
            Json::row().also("repo").also("feature"),
        ),
    )
}

/// The `github_add_sub_issue` tool.
pub open spec fn add_sub_issue_spec() -> ToolSpecView {
    ToolSpecView {
        name: "github_add_sub_issue"@,
        description: "Makes one GitHub issue a sub-issue of another. Needs the GitHub token."@,
        parameters: tools::schema_of(
            JsonView::record()
                .with("repo"@, repo_property())
                .with("parent"@, tools::property_of("integer"@, "The parent issue's number."@))
                .with("child"@, tools::property_of("integer"@, "The issue to attach as a sub-issue."@)),
            JsonView::row().also("repo"@).also("parent"@).also("child"@),
        ),
    }
}

fn add_sub_issue_tool() -> (r: ToolSpec)
    ensures
        r@ == add_sub_issue_spec(),
{
    ToolSpec::function(
        "github_add_sub_issue".to_owned(),
        "Makes one GitHub issue a sub-issue of another. Needs the GitHub token.".to_owned(),
        tools::schema(
            Json::record()
                .with("repo", repo_arg())
                .with("parent", tools::number_arg("The parent issue's number."))
                .with("child", tools::number_arg("The issue to attach as a sub-issue.")),
            Json::row().also("repo").also("parent").also("child"),
        ),
    )
}

/// The `github_remove_sub_issue` tool.
pub open spec fn remove_sub_issue_spec() -> ToolSpecView {
    ToolSpecView {
        name: "github_remove_sub_issue"@,
        description: "Detaches a sub-issue from its parent; both issues survive, the edge does not. Needs the GitHub token."@,
        parameters: tools::schema_of(
            JsonView::record()
                .with("repo"@, repo_property())
                .with("parent"@, tools::property_of("integer"@, "The parent issue's number."@))
                .with("child"@, tools::property_of("integer"@, "The sub-issue to detach."@)),
            JsonView::row().also("repo"@).also("parent"@).also("child"@),
        ),
    }
}

fn remove_sub_issue_tool() -> (r: ToolSpec)
    ensures
        r@ == remove_sub_issue_spec(),
{
    ToolSpec::function(
        "github_remove_sub_issue".to_owned(),
        "Detaches a sub-issue from its parent; both issues survive, the edge does not. Needs the GitHub token.".to_owned(),
        tools::schema(
            Json::record()
                .with("repo", repo_arg())
                .with("parent", tools::number_arg("The parent issue's number."))
                .with("child", tools::number_arg("The sub-issue to detach.")),
            Json::row().also("repo").also("parent").also("child"),
        ),
    )
}

/// The `github_add_blocked_by` tool.
pub open spec fn add_blocked_by_spec() -> ToolSpecView {
    ToolSpecView {
        name: "github_add_blocked_by"@,
        description: "Records that one GitHub issue is blocked by another. Needs the GitHub token."@,
        parameters: tools::schema_of(
            JsonView::record()
                .with("repo"@, repo_property())
                .with("issue"@, tools::property_of("integer"@, "The blocked issue's number."@))
                .with("blocker"@, tools::property_of("integer"@, "The issue doing the blocking."@)),
            JsonView::row().also("repo"@).also("issue"@).also("blocker"@),
        ),
    }
}

fn add_blocked_by_tool() -> (r: ToolSpec)
    ensures
        r@ == add_blocked_by_spec(),
{
    ToolSpec::function(
        "github_add_blocked_by".to_owned(),
        "Records that one GitHub issue is blocked by another. Needs the GitHub token.".to_owned(),
        tools::schema(
            Json::record()
                .with("repo", repo_arg())
                .with("issue", tools::number_arg("The blocked issue's number."))
                .with("blocker", tools::number_arg("The issue doing the blocking.")),
            Json::row().also("repo").also("issue").also("blocker"),
        ),
    )
}

/// The `github_remove_blocked_by` tool.
pub open spec fn remove_blocked_by_spec() -> ToolSpecView {
    ToolSpecView {
        name: "github_remove_blocked_by"@,
        description: "Removes a blocked-by edge between two GitHub issues — what unblocking is. Needs the GitHub token."@,
        parameters: tools::schema_of(
            JsonView::record()
                .with("repo"@, repo_property())
                .with("issue"@, tools::property_of("integer"@, "The blocked issue's number."@))
                .with("blocker"@, tools::property_of("integer"@, "The blocker to remove."@)),
            JsonView::row().also("repo"@).also("issue"@).also("blocker"@),
        ),
    }
}

fn remove_blocked_by_tool() -> (r: ToolSpec)
    ensures
        r@ == remove_blocked_by_spec(),
{
    ToolSpec::function(
        "github_remove_blocked_by".to_owned(),
        "Removes a blocked-by edge between two GitHub issues — what unblocking is. Needs the GitHub token.".to_owned(),
        tools::schema(
            Json::record()
                .with("repo", repo_arg())
                .with("issue", tools::number_arg("The blocked issue's number."))
                .with("blocker", tools::number_arg("The blocker to remove.")),
            Json::row().also("repo").also("issue").also("blocker"),
        ),
    )
}

/// One tool per public GitHub verb, and the plan.
pub open spec fn all_specs() -> Seq<ToolSpecView> {
    seq![
        default_branch_spec(),
        issue_spec(),
        create_issue_spec(),
        edit_issue_spec(),
        comment_spec(),
        close_issue_spec(),
        open_pull_spec(),
        pull_spec(),
        pull_for_spec(),
        merge_pull_spec(),
        branch_sha_spec(),
        compare_spec(),
        create_branch_spec(),
        check_conclusions_spec(),
        issue_graph_spec(),
        feature_plan_spec(),
        add_sub_issue_spec(),
        remove_sub_issue_spec(),
        add_blocked_by_spec(),
        remove_blocked_by_spec(),
    ]
}

/// One tool per public GitHub verb, plus the tracker's plan: what the model
/// reads of them.
pub fn all() -> (r: Vec<ToolSpec>)
    ensures
        r@.map_values(|tool: ToolSpec| tool@) == all_specs(),
{
    let r = vec![
        default_branch_tool(),
        issue_tool(),
        create_issue_tool(),
        edit_issue_tool(),
        comment_tool(),
        close_issue_tool(),
        open_pull_tool(),
        pull_tool(),
        pull_for_tool(),
        merge_pull_tool(),
        branch_sha_tool(),
        compare_tool(),
        create_branch_tool(),
        check_conclusions_tool(),
        issue_graph_tool(),
        feature_plan_tool(),
        add_sub_issue_tool(),
        remove_sub_issue_tool(),
        add_blocked_by_tool(),
        remove_blocked_by_tool(),
    ];
    proof {
        assert(r@.map_values(|tool: ToolSpec| tool@) =~= all_specs());
    }
    r
}

// ----- the calls -----

/// What a call asks of GitHub, its arguments read.
#[derive(Debug, Eq, PartialEq)]
pub enum Verb {
    DefaultBranch { repo: Repo },
    Issue { repo: Repo, number: u64 },
    CreateIssue { repo: Repo, title: String, body: String },
    EditIssue { repo: Repo, number: u64, title: Option<String>, body: Option<String> },
    Comment { repo: Repo, number: u64, body: String },
    CloseIssue { repo: Repo, number: u64 },
    OpenPull { repo: Repo, title: String, head: String, base: String, body: String },
    Pull { repo: Repo, number: u64 },
    PullFor { repo: Repo, head: String },
    MergePull { method: Merge, repo: Repo, number: u64 },
    BranchSha { repo: Repo, branch: String },
    Compare { repo: Repo, base: String, head: String },
    CreateBranch { repo: Repo, branch: String, sha: String },
    CheckConclusions { repo: Repo, git_ref: String },
    IssueGraph { repo: Repo, number: u64 },
    FeaturePlan { repo: Repo, feature: u64 },
    AddSubIssue { repo: Repo, parent: u64, child: u64 },
    RemoveSubIssue { repo: Repo, parent: u64, child: u64 },
    AddBlockedBy { repo: Repo, issue: u64, blocker: u64 },
    RemoveBlockedBy { repo: Repo, issue: u64, blocker: u64 },
}

/// A [`Verb`] over sequences.
pub enum VerbView {
    DefaultBranch { repo: (Seq<char>, Seq<char>) },
    Issue { repo: (Seq<char>, Seq<char>), number: nat },
    CreateIssue { repo: (Seq<char>, Seq<char>), title: Seq<char>, body: Seq<char> },
    EditIssue { repo: (Seq<char>, Seq<char>), number: nat, title: Option<Seq<char>>, body: Option<Seq<char>> },
    Comment { repo: (Seq<char>, Seq<char>), number: nat, body: Seq<char> },
    CloseIssue { repo: (Seq<char>, Seq<char>), number: nat },
    OpenPull { repo: (Seq<char>, Seq<char>), title: Seq<char>, head: Seq<char>, base: Seq<char>, body: Seq<char> },
    Pull { repo: (Seq<char>, Seq<char>), number: nat },
    PullFor { repo: (Seq<char>, Seq<char>), head: Seq<char> },
    MergePull { method: Merge, repo: (Seq<char>, Seq<char>), number: nat },
    BranchSha { repo: (Seq<char>, Seq<char>), branch: Seq<char> },
    Compare { repo: (Seq<char>, Seq<char>), base: Seq<char>, head: Seq<char> },
    CreateBranch { repo: (Seq<char>, Seq<char>), branch: Seq<char>, sha: Seq<char> },
    CheckConclusions { repo: (Seq<char>, Seq<char>), git_ref: Seq<char> },
    IssueGraph { repo: (Seq<char>, Seq<char>), number: nat },
    FeaturePlan { repo: (Seq<char>, Seq<char>), feature: nat },
    AddSubIssue { repo: (Seq<char>, Seq<char>), parent: nat, child: nat },
    RemoveSubIssue { repo: (Seq<char>, Seq<char>), parent: nat, child: nat },
    AddBlockedBy { repo: (Seq<char>, Seq<char>), issue: nat, blocker: nat },
    RemoveBlockedBy { repo: (Seq<char>, Seq<char>), issue: nat, blocker: nat },
}

impl View for Verb {
    type V = VerbView;

    open spec fn view(&self) -> VerbView {
        match self {
            Verb::DefaultBranch { repo } => VerbView::DefaultBranch {
                repo: (repo.owner@, repo.name@),
            },
            Verb::Issue { repo, number } => VerbView::Issue {
                repo: (repo.owner@, repo.name@),
                number: *number as nat,
            },
            Verb::CreateIssue { repo, title, body } => VerbView::CreateIssue {
                repo: (repo.owner@, repo.name@),
                title: title@,
                body: body@,
            },
            Verb::EditIssue { repo, number, title, body } => VerbView::EditIssue {
                repo: (repo.owner@, repo.name@),
                number: *number as nat,
                title: text::optional(*title),
                body: text::optional(*body),
            },
            Verb::Comment { repo, number, body } => VerbView::Comment {
                repo: (repo.owner@, repo.name@),
                number: *number as nat,
                body: body@,
            },
            Verb::CloseIssue { repo, number } => VerbView::CloseIssue {
                repo: (repo.owner@, repo.name@),
                number: *number as nat,
            },
            Verb::OpenPull { repo, title, head, base, body } => VerbView::OpenPull {
                repo: (repo.owner@, repo.name@),
                title: title@,
                head: head@,
                base: base@,
                body: body@,
            },
            Verb::Pull { repo, number } => VerbView::Pull {
                repo: (repo.owner@, repo.name@),
                number: *number as nat,
            },
            Verb::PullFor { repo, head } => VerbView::PullFor {
                repo: (repo.owner@, repo.name@),
                head: head@,
            },
            Verb::MergePull { method, repo, number } => VerbView::MergePull {
                method: *method,
                repo: (repo.owner@, repo.name@),
                number: *number as nat,
            },
            Verb::BranchSha { repo, branch } => VerbView::BranchSha {
                repo: (repo.owner@, repo.name@),
                branch: branch@,
            },
            Verb::Compare { repo, base, head } => VerbView::Compare {
                repo: (repo.owner@, repo.name@),
                base: base@,
                head: head@,
            },
            Verb::CreateBranch { repo, branch, sha } => VerbView::CreateBranch {
                repo: (repo.owner@, repo.name@),
                branch: branch@,
                sha: sha@,
            },
            Verb::CheckConclusions { repo, git_ref } => VerbView::CheckConclusions {
                repo: (repo.owner@, repo.name@),
                git_ref: git_ref@,
            },
            Verb::IssueGraph { repo, number } => VerbView::IssueGraph {
                repo: (repo.owner@, repo.name@),
                number: *number as nat,
            },
            Verb::FeaturePlan { repo, feature } => VerbView::FeaturePlan {
                repo: (repo.owner@, repo.name@),
                feature: *feature as nat,
            },
            Verb::AddSubIssue { repo, parent, child } => VerbView::AddSubIssue {
                repo: (repo.owner@, repo.name@),
                parent: *parent as nat,
                child: *child as nat,
            },
            Verb::RemoveSubIssue { repo, parent, child } => VerbView::RemoveSubIssue {
                repo: (repo.owner@, repo.name@),
                parent: *parent as nat,
                child: *child as nat,
            },
            Verb::AddBlockedBy { repo, issue, blocker } => VerbView::AddBlockedBy {
                repo: (repo.owner@, repo.name@),
                issue: *issue as nat,
                blocker: *blocker as nat,
            },
            Verb::RemoveBlockedBy { repo, issue, blocker } => VerbView::RemoveBlockedBy {
                repo: (repo.owner@, repo.name@),
                issue: *issue as nat,
                blocker: *blocker as nat,
            },
        }
    }
}

/// The repository a call names.
pub open spec fn repo_of(arguments: JsonView) -> Result<(Seq<char>, Seq<char>), Seq<char>> {
    match tools::string_of(arguments, "repo"@) {
        Ok(spec) => match github::spelled_halves(spec) {
            Some(halves) => Ok(halves),
            None => Err(
                text::quoted_as(spec) + " is not an owner/name repository spelling"@,
            ),
        },
        Err(words) => Err(words),
    }
}

/// The way to merge a call names.
pub open spec fn method_of(arguments: JsonView) -> Result<Merge, Seq<char>> {
    match github::merge_named(decode::word_of(arguments.get("method"@))) {
        Some(method) => Ok(method),
        None => Err("method must be commit, squash, or rebase"@),
    }
}

fn repo(arguments: &Json) -> (r: Result<Repo, String>)
    ensures
        match r {
            Ok(repo) => repo_of(arguments@) == Ok::<_, Seq<char>>((repo.owner@, repo.name@)),
            Err(words) => repo_of(arguments@) == Err::<(Seq<char>, Seq<char>), _>(words@),
        },
{
    match tools::string(arguments, "repo") {
        Ok(spec) => match Repo::parse(spec.as_str()) {
            Some(repo) => Ok(repo),
            None => {
                let quoted = text::quoted(spec.as_str());
                Err(text::cat2(quoted.as_str(), " is not an owner/name repository spelling"))
            },
        },
        Err(words) => Err(words),
    }
}

fn method(arguments: &Json) -> (r: Result<Merge, String>)
    ensures
        match r {
            Ok(method) => method_of(arguments@) == Ok::<_, Seq<char>>(method),
            Err(words) => method_of(arguments@) == Err::<Merge, _>(words@),
        },
{
    match Merge::read(arguments.get("method")) {
        Some(method) => Ok(method),
        None => Err("method must be commit, squash, or rebase".to_owned()),
    }
}

/// A string argument, where there is one.
fn optional(arguments: &Json, name: &str) -> (r: Option<String>)
    ensures
        text::optional(r) == arguments@.text_at(name@),
{
    match arguments.text_at(name) {
        Some(text) => Some(text.clone()),
        None => None,
    }
}

/// What a call of `github_default_branch` asks for.
pub open spec fn default_branch_of(arguments: JsonView) -> Result<VerbView, Seq<char>> {
    match repo_of(arguments) {
        Err(words) => Err(words),
        Ok(repo) => {
            Ok(VerbView::DefaultBranch { repo })
        },
    }
}

fn default_branch_call(arguments: &Json) -> (r: Result<Verb, String>)
    ensures
        verb_result(r) == default_branch_of(arguments@),
{
    let repo = match repo(arguments) {
        Ok(repo) => repo,
        Err(words) => return Err(words),
    };
    Ok(Verb::DefaultBranch { repo })
}

/// What a call of `github_issue` asks for.
pub open spec fn issue_of(arguments: JsonView) -> Result<VerbView, Seq<char>> {
    match repo_of(arguments) {
        Err(words) => Err(words),
        Ok(repo) => {
            match tools::number_of(arguments, "number"@) {
                Err(words) => Err(words),
                Ok(number) => {
                    Ok(VerbView::Issue { repo, number })
                },
            }
        },
    }
}

fn issue_call(arguments: &Json) -> (r: Result<Verb, String>)
    ensures
        verb_result(r) == issue_of(arguments@),
{
    let repo = match repo(arguments) {
        Ok(repo) => repo,
        Err(words) => return Err(words),
    };
    let number = match tools::number(arguments, "number") {
        Ok(number) => number,
        Err(words) => return Err(words),
    };
    Ok(Verb::Issue { repo, number })
}

/// What a call of `github_create_issue` asks for.
pub open spec fn create_issue_of(arguments: JsonView) -> Result<VerbView, Seq<char>> {
    match repo_of(arguments) {
        Err(words) => Err(words),
        Ok(repo) => {
            match tools::string_of(arguments, "title"@) {
                Err(words) => Err(words),
                Ok(title) => {
                    match tools::string_of(arguments, "body"@) {
                        Err(words) => Err(words),
                        Ok(body) => {
                            Ok(VerbView::CreateIssue { repo, title, body })
                        },
                    }
                },
            }
        },
    }
}

fn create_issue_call(arguments: &Json) -> (r: Result<Verb, String>)
    ensures
        verb_result(r) == create_issue_of(arguments@),
{
    let repo = match repo(arguments) {
        Ok(repo) => repo,
        Err(words) => return Err(words),
    };
    let title = match tools::string(arguments, "title") {
        Ok(title) => title,
        Err(words) => return Err(words),
    };
    let body = match tools::string(arguments, "body") {
        Ok(body) => body,
        Err(words) => return Err(words),
    };
    Ok(Verb::CreateIssue { repo, title, body })
}

/// What a call of `github_edit_issue` asks for.
pub open spec fn edit_issue_of(arguments: JsonView) -> Result<VerbView, Seq<char>> {
    match repo_of(arguments) {
        Err(words) => Err(words),
        Ok(repo) => {
            match tools::number_of(arguments, "number"@) {
                Err(words) => Err(words),
                Ok(number) => Ok(
                    VerbView::EditIssue {
                        repo,
                        number,
                        title: arguments.text_at("title"@),
                        body: arguments.text_at("body"@),
                    },
                ),
            }
        },
    }
}

fn edit_issue_call(arguments: &Json) -> (r: Result<Verb, String>)
    ensures
        verb_result(r) == edit_issue_of(arguments@),
{
    let repo = match repo(arguments) {
        Ok(repo) => repo,
        Err(words) => return Err(words),
    };
    let number = match tools::number(arguments, "number") {
        Ok(number) => number,
        Err(words) => return Err(words),
    };
    let title = optional(arguments, "title");
    let body = optional(arguments, "body");
    Ok(Verb::EditIssue { repo, number, title, body })
}

/// What a call of `github_comment` asks for.
pub open spec fn comment_of(arguments: JsonView) -> Result<VerbView, Seq<char>> {
    match repo_of(arguments) {
        Err(words) => Err(words),
        Ok(repo) => {
            match tools::number_of(arguments, "number"@) {
                Err(words) => Err(words),
                Ok(number) => {
                    match tools::string_of(arguments, "body"@) {
                        Err(words) => Err(words),
                        Ok(body) => {
                            Ok(VerbView::Comment { repo, number, body })
                        },
                    }
                },
            }
        },
    }
}

fn comment_call(arguments: &Json) -> (r: Result<Verb, String>)
    ensures
        verb_result(r) == comment_of(arguments@),
{
    let repo = match repo(arguments) {
        Ok(repo) => repo,
        Err(words) => return Err(words),
    };
    let number = match tools::number(arguments, "number") {
        Ok(number) => number,
        Err(words) => return Err(words),
    };
    let body = match tools::string(arguments, "body") {
        Ok(body) => body,
        Err(words) => return Err(words),
    };
    Ok(Verb::Comment { repo, number, body })
}

/// What a call of `github_close_issue` asks for.
pub open spec fn close_issue_of(arguments: JsonView) -> Result<VerbView, Seq<char>> {
    match repo_of(arguments) {
        Err(words) => Err(words),
        Ok(repo) => {
            match tools::number_of(arguments, "number"@) {
                Err(words) => Err(words),
                Ok(number) => {
                    Ok(VerbView::CloseIssue { repo, number })
                },
            }
        },
    }
}

fn close_issue_call(arguments: &Json) -> (r: Result<Verb, String>)
    ensures
        verb_result(r) == close_issue_of(arguments@),
{
    let repo = match repo(arguments) {
        Ok(repo) => repo,
        Err(words) => return Err(words),
    };
    let number = match tools::number(arguments, "number") {
        Ok(number) => number,
        Err(words) => return Err(words),
    };
    Ok(Verb::CloseIssue { repo, number })
}

/// What a call of `github_open_pull` asks for.
pub open spec fn open_pull_of(arguments: JsonView) -> Result<VerbView, Seq<char>> {
    match repo_of(arguments) {
        Err(words) => Err(words),
        Ok(repo) => {
            match tools::string_of(arguments, "title"@) {
                Err(words) => Err(words),
                Ok(title) => {
                    match tools::string_of(arguments, "head"@) {
                        Err(words) => Err(words),
                        Ok(head) => {
                            match tools::string_of(arguments, "base"@) {
                                Err(words) => Err(words),
                                Ok(base) => {
                                    match tools::string_of(arguments, "body"@) {
                                        Err(words) => Err(words),
                                        Ok(body) => {
                                            Ok(VerbView::OpenPull { repo, title, head, base, body })
                                        },
                                    }
                                },
                            }
                        },
                    }
                },
            }
        },
    }
}

fn open_pull_call(arguments: &Json) -> (r: Result<Verb, String>)
    ensures
        verb_result(r) == open_pull_of(arguments@),
{
    let repo = match repo(arguments) {
        Ok(repo) => repo,
        Err(words) => return Err(words),
    };
    let title = match tools::string(arguments, "title") {
        Ok(title) => title,
        Err(words) => return Err(words),
    };
    let head = match tools::string(arguments, "head") {
        Ok(head) => head,
        Err(words) => return Err(words),
    };
    let base = match tools::string(arguments, "base") {
        Ok(base) => base,
        Err(words) => return Err(words),
    };
    let body = match tools::string(arguments, "body") {
        Ok(body) => body,
        Err(words) => return Err(words),
    };
    Ok(Verb::OpenPull { repo, title, head, base, body })
}

/// What a call of `github_pull` asks for.
pub open spec fn pull_of(arguments: JsonView) -> Result<VerbView, Seq<char>> {
    match repo_of(arguments) {
        Err(words) => Err(words),
        Ok(repo) => {
            match tools::number_of(arguments, "number"@) {
                Err(words) => Err(words),
                Ok(number) => {
                    Ok(VerbView::Pull { repo, number })
                },
            }
        },
    }
}

fn pull_call(arguments: &Json) -> (r: Result<Verb, String>)
    ensures
        verb_result(r) == pull_of(arguments@),
{
    let repo = match repo(arguments) {
        Ok(repo) => repo,
        Err(words) => return Err(words),
    };
    let number = match tools::number(arguments, "number") {
        Ok(number) => number,
        Err(words) => return Err(words),
    };
    Ok(Verb::Pull { repo, number })
}

/// What a call of `github_pull_for` asks for.
pub open spec fn pull_for_of(arguments: JsonView) -> Result<VerbView, Seq<char>> {
    match repo_of(arguments) {
        Err(words) => Err(words),
        Ok(repo) => {
            match tools::string_of(arguments, "head"@) {
                Err(words) => Err(words),
                Ok(head) => {
                    Ok(VerbView::PullFor { repo, head })
                },
            }
        },
    }
}

fn pull_for_call(arguments: &Json) -> (r: Result<Verb, String>)
    ensures
        verb_result(r) == pull_for_of(arguments@),
{
    let repo = match repo(arguments) {
        Ok(repo) => repo,
        Err(words) => return Err(words),
    };
    let head = match tools::string(arguments, "head") {
        Ok(head) => head,
        Err(words) => return Err(words),
    };
    Ok(Verb::PullFor { repo, head })
}

/// What a call of `github_merge_pull` asks for.
pub open spec fn merge_pull_of(arguments: JsonView) -> Result<VerbView, Seq<char>> {
    match method_of(arguments) {
        Err(words) => Err(words),
        Ok(method) => {
            match repo_of(arguments) {
                Err(words) => Err(words),
                Ok(repo) => {
                    match tools::number_of(arguments, "number"@) {
                        Err(words) => Err(words),
                        Ok(number) => {
                            Ok(VerbView::MergePull { method, repo, number })
                        },
                    }
                },
            }
        },
    }
}

fn merge_pull_call(arguments: &Json) -> (r: Result<Verb, String>)
    ensures
        verb_result(r) == merge_pull_of(arguments@),
{
    let method = match method(arguments) {
        Ok(method) => method,
        Err(words) => return Err(words),
    };
    let repo = match repo(arguments) {
        Ok(repo) => repo,
        Err(words) => return Err(words),
    };
    let number = match tools::number(arguments, "number") {
        Ok(number) => number,
        Err(words) => return Err(words),
    };
    Ok(Verb::MergePull { method, repo, number })
}

/// What a call of `github_branch_sha` asks for.
pub open spec fn branch_sha_of(arguments: JsonView) -> Result<VerbView, Seq<char>> {
    match repo_of(arguments) {
        Err(words) => Err(words),
        Ok(repo) => {
            match tools::string_of(arguments, "branch"@) {
                Err(words) => Err(words),
                Ok(branch) => {
                    Ok(VerbView::BranchSha { repo, branch })
                },
            }
        },
    }
}

fn branch_sha_call(arguments: &Json) -> (r: Result<Verb, String>)
    ensures
        verb_result(r) == branch_sha_of(arguments@),
{
    let repo = match repo(arguments) {
        Ok(repo) => repo,
        Err(words) => return Err(words),
    };
    let branch = match tools::string(arguments, "branch") {
        Ok(branch) => branch,
        Err(words) => return Err(words),
    };
    Ok(Verb::BranchSha { repo, branch })
}

/// What a call of `github_compare` asks for.
pub open spec fn compare_of(arguments: JsonView) -> Result<VerbView, Seq<char>> {
    match repo_of(arguments) {
        Err(words) => Err(words),
        Ok(repo) => {
            match tools::string_of(arguments, "base"@) {
                Err(words) => Err(words),
                Ok(base) => {
                    match tools::string_of(arguments, "head"@) {
                        Err(words) => Err(words),
                        Ok(head) => {
                            Ok(VerbView::Compare { repo, base, head })
                        },
                    }
                },
            }
        },
    }
}

fn compare_call(arguments: &Json) -> (r: Result<Verb, String>)
    ensures
        verb_result(r) == compare_of(arguments@),
{
    let repo = match repo(arguments) {
        Ok(repo) => repo,
        Err(words) => return Err(words),
    };
    let base = match tools::string(arguments, "base") {
        Ok(base) => base,
        Err(words) => return Err(words),
    };
    let head = match tools::string(arguments, "head") {
        Ok(head) => head,
        Err(words) => return Err(words),
    };
    Ok(Verb::Compare { repo, base, head })
}

/// What a call of `github_create_branch` asks for.
pub open spec fn create_branch_of(arguments: JsonView) -> Result<VerbView, Seq<char>> {
    match repo_of(arguments) {
        Err(words) => Err(words),
        Ok(repo) => {
            match tools::string_of(arguments, "branch"@) {
                Err(words) => Err(words),
                Ok(branch) => {
                    match tools::string_of(arguments, "sha"@) {
                        Err(words) => Err(words),
                        Ok(sha) => {
                            Ok(VerbView::CreateBranch { repo, branch, sha })
                        },
                    }
                },
            }
        },
    }
}

fn create_branch_call(arguments: &Json) -> (r: Result<Verb, String>)
    ensures
        verb_result(r) == create_branch_of(arguments@),
{
    let repo = match repo(arguments) {
        Ok(repo) => repo,
        Err(words) => return Err(words),
    };
    let branch = match tools::string(arguments, "branch") {
        Ok(branch) => branch,
        Err(words) => return Err(words),
    };
    let sha = match tools::string(arguments, "sha") {
        Ok(sha) => sha,
        Err(words) => return Err(words),
    };
    Ok(Verb::CreateBranch { repo, branch, sha })
}

/// What a call of `github_check_conclusions` asks for.
pub open spec fn check_conclusions_of(arguments: JsonView) -> Result<VerbView, Seq<char>> {
    match repo_of(arguments) {
        Err(words) => Err(words),
        Ok(repo) => {
            match tools::string_of(arguments, "ref"@) {
                Err(words) => Err(words),
                Ok(git_ref) => {
                    Ok(VerbView::CheckConclusions { repo, git_ref })
                },
            }
        },
    }
}

fn check_conclusions_call(arguments: &Json) -> (r: Result<Verb, String>)
    ensures
        verb_result(r) == check_conclusions_of(arguments@),
{
    let repo = match repo(arguments) {
        Ok(repo) => repo,
        Err(words) => return Err(words),
    };
    let git_ref = match tools::string(arguments, "ref") {
        Ok(git_ref) => git_ref,
        Err(words) => return Err(words),
    };
    Ok(Verb::CheckConclusions { repo, git_ref })
}

/// What a call of `github_issue_graph` asks for.
pub open spec fn issue_graph_of(arguments: JsonView) -> Result<VerbView, Seq<char>> {
    match repo_of(arguments) {
        Err(words) => Err(words),
        Ok(repo) => {
            match tools::number_of(arguments, "number"@) {
                Err(words) => Err(words),
                Ok(number) => {
                    Ok(VerbView::IssueGraph { repo, number })
                },
            }
        },
    }
}

fn issue_graph_call(arguments: &Json) -> (r: Result<Verb, String>)
    ensures
        verb_result(r) == issue_graph_of(arguments@),
{
    let repo = match repo(arguments) {
        Ok(repo) => repo,
        Err(words) => return Err(words),
    };
    let number = match tools::number(arguments, "number") {
        Ok(number) => number,
        Err(words) => return Err(words),
    };
    Ok(Verb::IssueGraph { repo, number })
}

/// What a call of `feature_plan` asks for.
pub open spec fn feature_plan_of(arguments: JsonView) -> Result<VerbView, Seq<char>> {
    match repo_of(arguments) {
        Err(words) => Err(words),
        Ok(repo) => {
            match tools::number_of(arguments, "feature"@) {
                Err(words) => Err(words),
                Ok(feature) => {
                    Ok(VerbView::FeaturePlan { repo, feature })
                },
            }
        },
    }
}

fn feature_plan_call(arguments: &Json) -> (r: Result<Verb, String>)
    ensures
        verb_result(r) == feature_plan_of(arguments@),
{
    let repo = match repo(arguments) {
        Ok(repo) => repo,
        Err(words) => return Err(words),
    };
    let feature = match tools::number(arguments, "feature") {
        Ok(feature) => feature,
        Err(words) => return Err(words),
    };
    Ok(Verb::FeaturePlan { repo, feature })
}

/// What a call of `github_add_sub_issue` asks for.
pub open spec fn add_sub_issue_of(arguments: JsonView) -> Result<VerbView, Seq<char>> {
    match repo_of(arguments) {
        Err(words) => Err(words),
        Ok(repo) => {
            match tools::number_of(arguments, "parent"@) {
                Err(words) => Err(words),
                Ok(parent) => {
                    match tools::number_of(arguments, "child"@) {
                        Err(words) => Err(words),
                        Ok(child) => {
                            Ok(VerbView::AddSubIssue { repo, parent, child })
                        },
                    }
                },
            }
        },
    }
}

fn add_sub_issue_call(arguments: &Json) -> (r: Result<Verb, String>)
    ensures
        verb_result(r) == add_sub_issue_of(arguments@),
{
    let repo = match repo(arguments) {
        Ok(repo) => repo,
        Err(words) => return Err(words),
    };
    let parent = match tools::number(arguments, "parent") {
        Ok(parent) => parent,
        Err(words) => return Err(words),
    };
    let child = match tools::number(arguments, "child") {
        Ok(child) => child,
        Err(words) => return Err(words),
    };
    Ok(Verb::AddSubIssue { repo, parent, child })
}

/// What a call of `github_remove_sub_issue` asks for.
pub open spec fn remove_sub_issue_of(arguments: JsonView) -> Result<VerbView, Seq<char>> {
    match repo_of(arguments) {
        Err(words) => Err(words),
        Ok(repo) => {
            match tools::number_of(arguments, "parent"@) {
                Err(words) => Err(words),
                Ok(parent) => {
                    match tools::number_of(arguments, "child"@) {
                        Err(words) => Err(words),
                        Ok(child) => {
                            Ok(VerbView::RemoveSubIssue { repo, parent, child })
                        },
                    }
                },
            }
        },
    }
}

fn remove_sub_issue_call(arguments: &Json) -> (r: Result<Verb, String>)
    ensures
        verb_result(r) == remove_sub_issue_of(arguments@),
{
    let repo = match repo(arguments) {
        Ok(repo) => repo,
        Err(words) => return Err(words),
    };
    let parent = match tools::number(arguments, "parent") {
        Ok(parent) => parent,
        Err(words) => return Err(words),
    };
    let child = match tools::number(arguments, "child") {
        Ok(child) => child,
        Err(words) => return Err(words),
    };
    Ok(Verb::RemoveSubIssue { repo, parent, child })
}

/// What a call of `github_add_blocked_by` asks for.
pub open spec fn add_blocked_by_of(arguments: JsonView) -> Result<VerbView, Seq<char>> {
    match repo_of(arguments) {
        Err(words) => Err(words),
        Ok(repo) => {
            match tools::number_of(arguments, "issue"@) {
                Err(words) => Err(words),
                Ok(issue) => {
                    match tools::number_of(arguments, "blocker"@) {
                        Err(words) => Err(words),
                        Ok(blocker) => {
                            Ok(VerbView::AddBlockedBy { repo, issue, blocker })
                        },
                    }
                },
            }
        },
    }
}

fn add_blocked_by_call(arguments: &Json) -> (r: Result<Verb, String>)
    ensures
        verb_result(r) == add_blocked_by_of(arguments@),
{
    let repo = match repo(arguments) {
        Ok(repo) => repo,
        Err(words) => return Err(words),
    };
    let issue = match tools::number(arguments, "issue") {
        Ok(issue) => issue,
        Err(words) => return Err(words),
    };
    let blocker = match tools::number(arguments, "blocker") {
        Ok(blocker) => blocker,
        Err(words) => return Err(words),
    };
    Ok(Verb::AddBlockedBy { repo, issue, blocker })
}

/// What a call of `github_remove_blocked_by` asks for.
pub open spec fn remove_blocked_by_of(arguments: JsonView) -> Result<VerbView, Seq<char>> {
    match repo_of(arguments) {
        Err(words) => Err(words),
        Ok(repo) => {
            match tools::number_of(arguments, "issue"@) {
                Err(words) => Err(words),
                Ok(issue) => {
                    match tools::number_of(arguments, "blocker"@) {
                        Err(words) => Err(words),
                        Ok(blocker) => {
                            Ok(VerbView::RemoveBlockedBy { repo, issue, blocker })
                        },
                    }
                },
            }
        },
    }
}

fn remove_blocked_by_call(arguments: &Json) -> (r: Result<Verb, String>)
    ensures
        verb_result(r) == remove_blocked_by_of(arguments@),
{
    let repo = match repo(arguments) {
        Ok(repo) => repo,
        Err(words) => return Err(words),
    };
    let issue = match tools::number(arguments, "issue") {
        Ok(issue) => issue,
        Err(words) => return Err(words),
    };
    let blocker = match tools::number(arguments, "blocker") {
        Ok(blocker) => blocker,
        Err(words) => return Err(words),
    };
    Ok(Verb::RemoveBlockedBy { repo, issue, blocker })
}

/// A verb, or words.
pub open spec fn verb_result(r: Result<Verb, String>) -> Result<VerbView, Seq<char>> {
    match r {
        Ok(verb) => Ok(verb@),
        Err(words) => Err(words@),
    }
}

/// What a call of a tool asks for; nothing where there is no such tool.
pub open spec fn called(name: Seq<char>, arguments: JsonView) -> Option<
    Result<VerbView, Seq<char>>,
> {
    if name == "github_default_branch"@ {
        Some(default_branch_of(arguments))
    } else if name == "github_issue"@ {
        Some(issue_of(arguments))
    } else if name == "github_create_issue"@ {
        Some(create_issue_of(arguments))
    } else if name == "github_edit_issue"@ {
        Some(edit_issue_of(arguments))
    } else if name == "github_comment"@ {
        Some(comment_of(arguments))
    } else if name == "github_close_issue"@ {
        Some(close_issue_of(arguments))
    } else if name == "github_open_pull"@ {
        Some(open_pull_of(arguments))
    } else if name == "github_pull"@ {
        Some(pull_of(arguments))
    } else if name == "github_pull_for"@ {
        Some(pull_for_of(arguments))
    } else if name == "github_merge_pull"@ {
        Some(merge_pull_of(arguments))
    } else if name == "github_branch_sha"@ {
        Some(branch_sha_of(arguments))
    } else if name == "github_compare"@ {
        Some(compare_of(arguments))
    } else if name == "github_create_branch"@ {
        Some(create_branch_of(arguments))
    } else if name == "github_check_conclusions"@ {
        Some(check_conclusions_of(arguments))
    } else if name == "github_issue_graph"@ {
        Some(issue_graph_of(arguments))
    } else if name == "feature_plan"@ {
        Some(feature_plan_of(arguments))
    } else if name == "github_add_sub_issue"@ {
        Some(add_sub_issue_of(arguments))
    } else if name == "github_remove_sub_issue"@ {
        Some(remove_sub_issue_of(arguments))
    } else if name == "github_add_blocked_by"@ {
        Some(add_blocked_by_of(arguments))
    } else if name == "github_remove_blocked_by"@ {
        Some(remove_blocked_by_of(arguments))
    } else {
        None
    }
}

impl Verb {
    /// What a call of a tool asks for; nothing where there is no such tool.
    pub fn read(name: &str, arguments: &Json) -> (r: Option<Result<Verb, String>>)
        ensures
            match r {
                Some(verb) => called(name@, arguments@) == Some(verb_result(verb)),
                None => called(name@, arguments@) is None,
            },
    {
        if text::same(name, "github_default_branch") {
            Some(default_branch_call(arguments))
        } else if text::same(name, "github_issue") {
            Some(issue_call(arguments))
        } else if text::same(name, "github_create_issue") {
            Some(create_issue_call(arguments))
        } else if text::same(name, "github_edit_issue") {
            Some(edit_issue_call(arguments))
        } else if text::same(name, "github_comment") {
            Some(comment_call(arguments))
        } else if text::same(name, "github_close_issue") {
            Some(close_issue_call(arguments))
        } else if text::same(name, "github_open_pull") {
            Some(open_pull_call(arguments))
        } else if text::same(name, "github_pull") {
            Some(pull_call(arguments))
        } else if text::same(name, "github_pull_for") {
            Some(pull_for_call(arguments))
        } else if text::same(name, "github_merge_pull") {
            Some(merge_pull_call(arguments))
        } else if text::same(name, "github_branch_sha") {
            Some(branch_sha_call(arguments))
        } else if text::same(name, "github_compare") {
            Some(compare_call(arguments))
        } else if text::same(name, "github_create_branch") {
            Some(create_branch_call(arguments))
        } else if text::same(name, "github_check_conclusions") {
            Some(check_conclusions_call(arguments))
        } else if text::same(name, "github_issue_graph") {
            Some(issue_graph_call(arguments))
        } else if text::same(name, "feature_plan") {
            Some(feature_plan_call(arguments))
        } else if text::same(name, "github_add_sub_issue") {
            Some(add_sub_issue_call(arguments))
        } else if text::same(name, "github_remove_sub_issue") {
            Some(remove_sub_issue_call(arguments))
        } else if text::same(name, "github_add_blocked_by") {
            Some(add_blocked_by_call(arguments))
        } else if text::same(name, "github_remove_blocked_by") {
            Some(remove_blocked_by_call(arguments))
        } else {
            None
        }
    }
}

// ----- the exchanges -----

impl Verb {
    /// The request a verb is, where it is one exchange with GitHub; the
    /// others — the plan, the edges, and what is read by branch — take more
    /// than one, or another endpoint's.
    pub fn request(&self, github: &GitHub) -> (r: Option<Result<Request, Error>>)
        ensures
            match r {
                Some(request) => requested(*self, *github) == Some(
                    github::request_result(request),
                ),
                None => requested(*self, *github) is None,
            },
    {
        match self {
            Verb::DefaultBranch { repo } => Some(Ok(github.default_branch(repo))),
            Verb::Issue { repo, number } => Some(Ok(github.issue(repo, *number))),
            Verb::CreateIssue { repo, title, body } => Some(
                github.create_issue(repo, title.as_str(), body.as_str()),
            ),
            Verb::EditIssue { repo, number, title, body } => Some(
                github.edit_issue(repo, *number, title, body),
            ),
            Verb::Comment { repo, number, body } => Some(
                github.comment(repo, *number, body.as_str()),
            ),
            Verb::CloseIssue { repo, number } => Some(github.close_issue(repo, *number)),
            Verb::OpenPull { repo, title, head, base, body } => Some(
                github.open_pull(
                    repo,
                    title.as_str(),
                    head.as_str(),
                    base.as_str(),
                    body.as_str(),
                ),
            ),
            Verb::Pull { repo, number } => Some(Ok(github.pull(repo, *number))),
            Verb::MergePull { repo, number, method } => Some(
                github.merge_pull(repo, *number, *method),
            ),
            Verb::CheckConclusions { repo, git_ref } => Some(
                Ok(github.check_conclusions(repo, git_ref.as_str())),
            ),
            Verb::IssueGraph { repo, number } => Some(github.issue_graph(repo, *number)),
            _ => None,
        }
    }

    /// What GitHub answered a verb of one exchange, as a tool result: the
    /// value as JSON, or the error's own rendering. `what` names the
    /// endpoint that answered. A verb that answers with more than one
    /// exchange can say has no value here.
    ///
    /// # Errors
    ///
    /// The words of an answer of another shape, or of a GraphQL refusal.
    pub fn told(&self, what: &str, answer: &Json) -> (r: Result<Json, String>)
        ensures
            match r {
                Ok(value) => shown(self@, what@, answer@) == Ok::<_, Seq<char>>(value@),
                Err(words) => shown(self@, what@, answer@) == Err::<JsonView, _>(words@),
            },
    {
        match self {
            Verb::DefaultBranch { .. } => match decode::default_branch(what, answer) {
                Ok(branch) => Ok(Json::string(branch.as_str())),
                Err(error) => Err(error.to_string()),
            },
            Verb::Issue { .. } => told_issue(what, answer),
            Verb::CreateIssue { .. } => told_issue(what, answer),
            Verb::EditIssue { .. } => told_issue(what, answer),
            Verb::CloseIssue { .. } => told_issue(what, answer),
            Verb::OpenPull { .. } => told_pull(what, answer),
            Verb::Pull { .. } => told_pull(what, answer),
            Verb::CheckConclusions { .. } => match decode::check_runs(what, answer) {
                Ok(checks) => Ok(decode::tell_checks(&checks)),
                Err(error) => Err(error.to_string()),
            },
            Verb::IssueGraph { .. } => match decode::graphql_data(answer) {
                Ok(data) => match decode::graph(&data) {
                    Ok(graph) => Ok(graph.told()),
                    Err(error) => Err(error.to_string()),
                },
                Err(error) => Err(error.to_string()),
            },
            Verb::PullFor { .. } => untold(what),
            Verb::BranchSha { .. } => untold(what),
            Verb::Compare { .. } => untold(what),
            Verb::FeaturePlan { .. } => untold(what),
            _ => Ok(done()),
        }
    }
}

/// The request a verb is, where it is one exchange.
pub open spec fn requested(verb: Verb, github: GitHub) -> Option<Result<RequestView, ErrorView>> {
    let api = github.based();
    let token = github.presents();
    match verb {
        Verb::DefaultBranch { repo } => Some(
            Ok(github::reading(api, github::repo_path(repo, Seq::empty()))),
        ),
        Verb::Issue { repo, number } => Some(
            Ok(github::reading(api, github::numbered_path(repo, "/issues/"@, number, ""@))),
        ),
        Verb::CreateIssue { repo, title, body } => Some(
            github::guarded(
                token,
                github::writing(
                    api,
                    github::Method::Post,
                    github::repo_path(repo, "/issues"@),
                    JsonView::record().with("title"@, JsonView::Text(title@)).with(
                        "body"@,
                        JsonView::Text(body@),
                    ),
                ),
            ),
        ),
        Verb::EditIssue { repo, number, title, body } => Some(
            github::guarded(
                token,
                github::writing(
                    api,
                    github::Method::Patch,
                    github::numbered_path(repo, "/issues/"@, number, ""@),
                    github::edited(text::optional(title), text::optional(body)),
                ),
            ),
        ),
        Verb::Comment { repo, number, body } => Some(
            github::guarded(
                token,
                github::writing(
                    api,
                    github::Method::Post,
                    github::numbered_path(repo, "/issues/"@, number, "/comments"@),
                    JsonView::record().with("body"@, JsonView::Text(body@)),
                ),
            ),
        ),
        Verb::CloseIssue { repo, number } => Some(
            github::guarded(
                token,
                github::writing(
                    api,
                    github::Method::Patch,
                    github::numbered_path(repo, "/issues/"@, number, ""@),
                    JsonView::record().with("state"@, JsonView::Text("closed"@)),
                ),
            ),
        ),
        Verb::OpenPull { repo, title, head, base, body } => Some(
            github::guarded(
                token,
                github::writing(
                    api,
                    github::Method::Post,
                    github::repo_path(repo, "/pulls"@),
                    JsonView::record().with("title"@, JsonView::Text(title@)).with(
                        "head"@,
                        JsonView::Text(head@),
                    ).with("base"@, JsonView::Text(base@)).with("body"@, JsonView::Text(body@)),
                ),
            ),
        ),
        Verb::Pull { repo, number } => Some(
            Ok(github::reading(api, github::numbered_path(repo, "/pulls/"@, number, ""@))),
        ),
        Verb::MergePull { repo, number, method } => Some(
            github::guarded(
                token,
                github::writing(
                    api,
                    github::Method::Put,
                    github::numbered_path(repo, "/pulls/"@, number, "/merge"@),
                    JsonView::record().with(
                        "merge_method"@,
                        JsonView::Text(github::merge_word(method)),
                    ),
                ),
            ),
        ),
        Verb::CheckConclusions { repo, git_ref } => Some(
            Ok(
                github::reading(
                    api,
                    "repos/"@ + repo.spelled() + "/commits/"@ + git_ref@
                        + "/check-runs?per_page=100"@,
                ),
            ),
        ),
        Verb::IssueGraph { repo, number } => Some(
            github::guarded(
                token,
                github::querying(api, github::GRAPH_QUERY@, github::variables_of(repo, number)),
            ),
        ),
        _ => None,
    }
}

/// The tool result of a verb whose success has nothing to say.
pub open spec fn done_view() -> JsonView {
    JsonView::record().with("done"@, JsonView::Bool(true))
}

/// The tool result of a verb whose success has nothing to say.
pub fn done() -> (r: Json)
    ensures
        r@ == done_view(),
{
    Json::record().with("done", Json::Bool(true))
}

/// An issue out of an answer, as a tool result.
pub open spec fn issue_shown(what: Seq<char>, answer: JsonView) -> Result<JsonView, Seq<char>> {
    match decode::issue_of(answer) {
        Some(issue) => Ok(decode::issue_told(issue)),
        None => Err(decode::undecoded(what).words()),
    }
}

/// A pull request out of an answer, as a tool result.
pub open spec fn pull_shown(what: Seq<char>, answer: JsonView) -> Result<JsonView, Seq<char>> {
    match decode::pull_of(answer) {
        Some(pull) => Ok(decode::pull_told(pull)),
        None => Err(decode::undecoded(what).words()),
    }
}

/// What GitHub answered a verb of one exchange, as a tool result.
pub open spec fn shown(verb: VerbView, what: Seq<char>, answer: JsonView) -> Result<
    JsonView,
    Seq<char>,
> {
    match verb {
        VerbView::DefaultBranch { .. } => match decode::default_branch_of(answer) {
            Some(branch) => Ok(JsonView::Text(branch)),
            None => Err(decode::undecoded(what).words()),
        },
        VerbView::Issue { .. } => issue_shown(what, answer),
        VerbView::CreateIssue { .. } => issue_shown(what, answer),
        VerbView::EditIssue { .. } => issue_shown(what, answer),
        VerbView::CloseIssue { .. } => issue_shown(what, answer),
        VerbView::OpenPull { .. } => pull_shown(what, answer),
        VerbView::Pull { .. } => pull_shown(what, answer),
        VerbView::CheckConclusions { .. } => match decode::check_runs_of(answer) {
            Some(checks) => Ok(decode::checks_told(checks)),
            None => Err(decode::undecoded(what).words()),
        },
        VerbView::IssueGraph { .. } => match decode::data_of(answer) {
            Ok(data) => match decode::graph_of(data) {
                Some(graph) => Ok(decode::graph_told(graph)),
                None => Err(decode::undecoded("the issue graph"@).words()),
            },
            Err(error) => Err(error.words()),
        },
        VerbView::PullFor { .. } => Err(decode::undecoded(what).words()),
        VerbView::BranchSha { .. } => Err(decode::undecoded(what).words()),
        VerbView::Compare { .. } => Err(decode::undecoded(what).words()),
        VerbView::FeaturePlan { .. } => Err(decode::undecoded(what).words()),
        _ => Ok(done_view()),
    }
}

/// The words for an answer to a verb that is more than one exchange.
fn untold(what: &str) -> (r: Result<Json, String>)
    ensures
        r matches Err(words) && words@ == decode::undecoded(what@).words(),
{
    Err(decode::misshapen(what).to_string())
}

fn told_issue(what: &str, answer: &Json) -> (r: Result<Json, String>)
    ensures
        match r {
            Ok(value) => issue_shown(what@, answer@) == Ok::<_, Seq<char>>(value@),
            Err(words) => issue_shown(what@, answer@) == Err::<JsonView, _>(words@),
        },
{
    match Issue::decode(what, answer) {
        Ok(issue) => Ok(issue.told()),
        Err(error) => Err(error.to_string()),
    }
}

fn told_pull(what: &str, answer: &Json) -> (r: Result<Json, String>)
    ensures
        match r {
            Ok(value) => pull_shown(what@, answer@) == Ok::<_, Seq<char>>(value@),
            Err(words) => pull_shown(what@, answer@) == Err::<JsonView, _>(words@),
        },
{
    match Pull::decode(what, answer) {
        Ok(pull) => Ok(pull.told()),
        Err(error) => Err(error.to_string()),
    }
}

// ----- the plan, told -----

/// A plan, told to a model.
pub open spec fn plan_told(plan: PlanView) -> JsonView {
    JsonView::record().with("tree"@, plans::told_tree(plan.tree)).with(
        "blocking"@,
        plans::told_edges(plan.blocking),
    ).with("outside"@, plans::told_issues(plan.outside)).with(
        "ready"@,
        plans::told_issues(plan.ready_of(Set::empty())),
    ).with(
        "problems"@,
        json::texts_of(plan.problems_of().map_values(|problem: ProblemView| problem.words())),
    )
}

fn tell_all_planned(issues: &Vec<&Planned>) -> (r: Json)
    ensures
        r@ == plans::told_issues(tree::reached(issues@)),
{
    let ghost shown = tree::reached(issues@).map_values(|issue: Planned| plans::told_issue(issue));
    let mut items: Vec<Json> = Vec::new();
    let mut i: usize = 0;
    while i < issues.len()
        invariant
            i <= issues@.len() == shown.len(),
            items@.len() == i,
            forall|k: int|
                0 <= k < issues@.len() ==> #[trigger] shown[k] == plans::told_issue(*issues@[k]),
            forall|k: int| 0 <= k < i ==> (#[trigger] items@[k])@ == shown[k],
        decreases issues@.len() - i,
    {
        items.push(plans::tell_issue(issues[i]));
        i = i + 1;
    }
    proof {
        json::item_views(items@);
        assert(json::items_view(items@) =~= shown);
    }
    Json::Array(items)
}

/// A feature's whole plan, as the `feature_plan` tool answers it.
pub fn plan_answer(plan: &Plan) -> (r: Json)
    ensures
        r@ == plan_told(plan@),
{
    let none = IdSet::new();
    let ready = plan.ready(&none);
    let problems = plan.problems();
    let words = feature::tools::worded(&problems);
    proof {
        assert(feature::tools::problem_words(problems@) =~= plan@.problems_of().map_values(
            |problem: ProblemView| problem.words(),
        ));
    }
    Json::record().with("tree", plans::tell_tree(&plan.tree)).with(
        "blocking",
        plans::tell_edges(&plan.blocking),
    ).with("outside", plans::tell_issues(&plan.outside)).with("ready", tell_all_planned(&ready)).with(
        "problems",
        Json::strings(&words),
    )
}

} // verus!
