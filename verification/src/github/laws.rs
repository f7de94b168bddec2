//! What holds of every exchange with GitHub: where each verb asks and what
//! it says there, and what is read out of what comes back.

use crate::crossing;
use crate::github;
use crate::github::{Error, GitHub, Merge, Method, Repo, Request};
use crate::json::JsonView;
use crate::text;
use vstd::prelude::*;

verus! {

// ----- what is asked -----

/// Whether the request reads `path` of the REST API at `api`, and sends
/// nothing.
pub open spec fn reads(request: Request, api: Seq<char>, path: Seq<char>) -> bool {
    &&& request.method is Get
    &&& request.url@ == api + path
    &&& request.body is None
    &&& request.rest
}

/// Whether the request writes to `path` of the REST API at `api`.
pub open spec fn writes(request: Request, method: Method, api: Seq<char>, path: Seq<char>) -> bool {
    &&& request.method == method
    &&& request.url@ == api + path
    &&& request.body is Some
    &&& request.rest
}

/// What a request says under `key`.
pub open spec fn says(request: Request, key: Seq<char>) -> Option<JsonView> {
    (request.body->0)@.get(key)
}

/// The variable a GraphQL request gives under `key`.
pub open spec fn gives(request: Request, key: Seq<char>) -> Option<JsonView> {
    says(request, "variables"@)->0.get(key)
}

/// Where an issue stands in the REST API.
pub open spec fn at_issue(repo: &Repo, number: u64, rest: Seq<char>) -> Seq<char> {
    "/repos/"@ + repo.owner@ + "/"@ + repo.name@ + "/issues/"@ + text::decimal(number as nat)
        + rest
}

/// Where a pull request stands in the REST API.
pub open spec fn at_pull(repo: &Repo, number: u64, rest: Seq<char>) -> Seq<char> {
    "/repos/"@ + repo.owner@ + "/"@ + repo.name@ + "/pulls/"@ + text::decimal(number as nat)
        + rest
}

/// Where something of a repository stands in the REST API.
pub open spec fn at_repo(repo: &Repo, rest: Seq<char>) -> Seq<char> {
    "/repos/"@ + repo.owner@ + "/"@ + repo.name@ + rest
}

/// Law: the default branch is asked of the repository itself.
pub proof fn the_default_branch_is_asked_of_the_repository(
    github: &GitHub,
    repo: &Repo,
    r: Request,
)
    requires
        call_ensures(GitHub::default_branch, (github, repo), r),
    ensures
        reads(r, github.based(), at_repo(repo, ""@)),
{
    reveal_strlit("/");
    reveal_strlit("repos/");
    reveal_strlit("/repos/");
    reveal_strlit("/issues/");
    reveal_strlit("/pulls/");
    reveal_strlit("");
    assert("/"@ + "repos/"@ =~= "/repos/"@);
    assert(r.url@ =~= github.based() + at_repo(repo, ""@));
}

/// Law: an issue is asked for by its number.
pub proof fn an_issue_is_asked_for_by_its_number(
    github: &GitHub,
    repo: &Repo,
    number: u64,
    r: Request,
)
    requires
        call_ensures(GitHub::issue, (github, repo, number), r),
    ensures
        reads(r, github.based(), at_issue(repo, number, ""@)),
{
    reveal_strlit("/");
    reveal_strlit("repos/");
    reveal_strlit("/repos/");
    reveal_strlit("/issues/");
    reveal_strlit("/pulls/");
    reveal_strlit("");
    assert("/"@ + "repos/"@ =~= "/repos/"@);
    assert(r.url@ =~= github.based() + at_issue(repo, number, ""@));
}

/// Law: a pull request is asked for by its number.
pub proof fn a_pull_request_is_asked_for_by_its_number(
    github: &GitHub,
    repo: &Repo,
    number: u64,
    r: Request,
)
    requires
        call_ensures(GitHub::pull, (github, repo, number), r),
    ensures
        reads(r, github.based(), at_pull(repo, number, ""@)),
{
    reveal_strlit("/");
    reveal_strlit("repos/");
    reveal_strlit("/repos/");
    reveal_strlit("/issues/");
    reveal_strlit("/pulls/");
    reveal_strlit("");
    assert("/"@ + "repos/"@ =~= "/repos/"@);
    assert(r.url@ =~= github.based() + at_pull(repo, number, ""@));
}

/// Law: an issue is created with the title and the body it was given, or
/// not at all where there is no token.
pub proof fn an_issue_is_created_as_it_is_worded(
    github: &GitHub,
    repo: &Repo,
    title: &str,
    body: &str,
    r: Result<Request, Error>,
)
    requires
        call_ensures(GitHub::create_issue, (github, repo, title, body), r),
    ensures
        r is Ok <==> github.presents() is Some,
        r is Err ==> r->Err_0 is TokenAbsent,
        r is Ok ==> writes(r->Ok_0, Method::Post, github.based(), at_repo(repo, "/issues"@)),
        r is Ok ==> says(r->Ok_0, "title"@) == Some(JsonView::Text(title@)),
        r is Ok ==> says(r->Ok_0, "body"@) == Some(JsonView::Text(body@)),
{
    reveal_strlit("/");
    reveal_strlit("repos/");
    reveal_strlit("/repos/");
    reveal_strlit("/issues/");
    reveal_strlit("/pulls/");
    reveal_strlit("");
    assert("/"@ + "repos/"@ =~= "/repos/"@);
    reveal_strlit("title");
    reveal_strlit("body");
    assert("title"@.len() != "body"@.len());
    reveal_strlit("/issues");
    let record = JsonView::record();
    crossing::put(record, "title"@, JsonView::Text(title@));
    let record = record.with("title"@, JsonView::Text(title@));
    crossing::put(record, "body"@, JsonView::Text(body@));
    if r is Ok {
        assert((r->Ok_0).url@ =~= github.based() + at_repo(repo, "/issues"@));
    }
}

/// Law: a comment goes to the issue's comments, with the body it was given.
pub proof fn a_comment_says_what_it_says(
    github: &GitHub,
    repo: &Repo,
    number: u64,
    body: &str,
    r: Result<Request, Error>,
)
    requires
        call_ensures(GitHub::comment, (github, repo, number, body), r),
    ensures
        r is Ok <==> github.presents() is Some,
        r is Err ==> r->Err_0 is TokenAbsent,
        r is Ok ==> writes(r->Ok_0, Method::Post, github.based(), at_issue(repo, number,
            "/comments"@)),
        r is Ok ==> says(r->Ok_0, "body"@) == Some(JsonView::Text(body@)),
{
    reveal_strlit("/");
    reveal_strlit("repos/");
    reveal_strlit("/repos/");
    reveal_strlit("/issues/");
    reveal_strlit("/pulls/");
    reveal_strlit("");
    assert("/"@ + "repos/"@ =~= "/repos/"@);
    reveal_strlit("body");
    reveal_strlit("/comments");
    let record = JsonView::record();
    crossing::put(record, "body"@, JsonView::Text(body@));
    if r is Ok {
        assert((r->Ok_0).url@ =~= github.based() + at_issue(repo, number, "/comments"@));
    }
}

/// Law: closing an issue sets the state of that issue to closed.
pub proof fn closing_an_issue_closes_that_issue(
    github: &GitHub,
    repo: &Repo,
    number: u64,
    r: Result<Request, Error>,
)
    requires
        call_ensures(GitHub::close_issue, (github, repo, number), r),
    ensures
        r is Ok <==> github.presents() is Some,
        r is Err ==> r->Err_0 is TokenAbsent,
        r is Ok ==> writes(r->Ok_0, Method::Patch, github.based(), at_issue(repo, number, ""@)),
        r is Ok ==> says(r->Ok_0, "state"@) == Some(JsonView::Text("closed"@)),
{
    reveal_strlit("/");
    reveal_strlit("repos/");
    reveal_strlit("/repos/");
    reveal_strlit("/issues/");
    reveal_strlit("/pulls/");
    reveal_strlit("");
    assert("/"@ + "repos/"@ =~= "/repos/"@);
    reveal_strlit("state");
    let record = JsonView::record();
    crossing::put(record, "state"@, JsonView::Text("closed"@));
    if r is Ok {
        assert((r->Ok_0).url@ =~= github.based() + at_issue(repo, number, ""@));
    }
}

/// Law: a pull request is opened from the head into the base it was given.
pub proof fn a_pull_request_merges_head_into_base(
    github: &GitHub,
    repo: &Repo,
    title: &str,
    head: &str,
    base: &str,
    body: &str,
    r: Result<Request, Error>,
)
    requires
        call_ensures(GitHub::open_pull, (github, repo, title, head, base, body), r),
    ensures
        r is Ok <==> github.presents() is Some,
        r is Err ==> r->Err_0 is TokenAbsent,
        r is Ok ==> writes(r->Ok_0, Method::Post, github.based(), at_repo(repo, "/pulls"@)),
        r is Ok ==> says(r->Ok_0, "title"@) == Some(JsonView::Text(title@)),
        r is Ok ==> says(r->Ok_0, "head"@) == Some(JsonView::Text(head@)),
        r is Ok ==> says(r->Ok_0, "base"@) == Some(JsonView::Text(base@)),
        r is Ok ==> says(r->Ok_0, "body"@) == Some(JsonView::Text(body@)),
{
    reveal_strlit("/");
    reveal_strlit("repos/");
    reveal_strlit("/repos/");
    reveal_strlit("/issues/");
    reveal_strlit("/pulls/");
    reveal_strlit("");
    assert("/"@ + "repos/"@ =~= "/repos/"@);
    reveal_strlit("title");
    reveal_strlit("head");
    reveal_strlit("base");
    reveal_strlit("body");
    assert("title"@.len() != "head"@.len());
    assert("title"@.len() != "base"@.len());
    assert("title"@.len() != "body"@.len());
    assert("head"@[0] != "base"@[0]);
    assert("head"@[0] != "body"@[0]);
    assert("base"@[1] != "body"@[1]);
    reveal_strlit("/pulls");
    let record = JsonView::record();
    crossing::put(record, "title"@, JsonView::Text(title@));
    let record = record.with("title"@, JsonView::Text(title@));
    crossing::put(record, "head"@, JsonView::Text(head@));
    let record = record.with("head"@, JsonView::Text(head@));
    crossing::put(record, "base"@, JsonView::Text(base@));
    let record = record.with("base"@, JsonView::Text(base@));
    crossing::put(record, "body"@, JsonView::Text(body@));
    if r is Ok {
        assert((r->Ok_0).url@ =~= github.based() + at_repo(repo, "/pulls"@));
    }
}

/// Law: a pull request is merged by its number, and in the way that was
/// asked for, in GitHub's word for it.
pub proof fn a_pull_request_is_merged_as_it_was_asked(
    github: &GitHub,
    repo: &Repo,
    number: u64,
    method: Merge,
    r: Result<Request, Error>,
)
    requires
        call_ensures(GitHub::merge_pull, (github, repo, number, method), r),
    ensures
        r is Ok <==> github.presents() is Some,
        r is Err ==> r->Err_0 is TokenAbsent,
        r is Ok ==> writes(r->Ok_0, Method::Put, github.based(), at_pull(repo, number, "/merge"@)),
        r is Ok ==> (says(r->Ok_0, "merge_method"@) == Some(JsonView::Text("merge"@))
            <==> method is Commit),
        r is Ok ==> (says(r->Ok_0, "merge_method"@) == Some(JsonView::Text("squash"@))
            <==> method is Squash),
        r is Ok ==> (says(r->Ok_0, "merge_method"@) == Some(JsonView::Text("rebase"@))
            <==> method is Rebase),
{
    reveal_strlit("/");
    reveal_strlit("repos/");
    reveal_strlit("/repos/");
    reveal_strlit("/issues/");
    reveal_strlit("/pulls/");
    reveal_strlit("");
    assert("/"@ + "repos/"@ =~= "/repos/"@);
    reveal_strlit("/merge");
    reveal_strlit("merge");
    reveal_strlit("squash");
    reveal_strlit("rebase");
    assert("merge"@.len() != "squash"@.len());
    assert("merge"@.len() != "rebase"@.len());
    assert("squash"@[0] != "rebase"@[0]);
    let record = JsonView::record();
    crossing::put(record, "merge_method"@, JsonView::Text("merge"@));
    crossing::put(record, "merge_method"@, JsonView::Text("squash"@));
    crossing::put(record, "merge_method"@, JsonView::Text("rebase"@));
    if r is Ok {
        assert((r->Ok_0).url@ =~= github.based() + at_pull(repo, number, "/merge"@));
    }
}

/// Law: an edit of an issue changes the title where it was given one, the
/// body where it was given one, and nothing else.
pub proof fn an_edit_changes_what_it_was_given(
    github: &GitHub,
    repo: &Repo,
    number: u64,
    title: &Option<String>,
    body: &Option<String>,
    r: Result<Request, Error>,
)
    requires
        call_ensures(GitHub::edit_issue, (github, repo, number, title, body), r),
    ensures
        r is Ok <==> github.presents() is Some,
        r is Err ==> r->Err_0 is TokenAbsent,
        r is Ok ==> writes(r->Ok_0, Method::Patch, github.based(), at_issue(repo, number, ""@)),
        r is Ok && *title is Some ==> says(r->Ok_0, "title"@) == Some(JsonView::Text(title->0@)),
        r is Ok && *title is None ==> says(r->Ok_0, "title"@) is None,
        r is Ok && *body is Some ==> says(r->Ok_0, "body"@) == Some(JsonView::Text(body->0@)),
        r is Ok && *body is None ==> says(r->Ok_0, "body"@) is None,
        r is Ok ==> says(r->Ok_0, "state"@) is None,
{
    reveal_strlit("/");
    reveal_strlit("repos/");
    reveal_strlit("/repos/");
    reveal_strlit("/issues/");
    reveal_strlit("/pulls/");
    reveal_strlit("");
    assert("/"@ + "repos/"@ =~= "/repos/"@);
    reveal_strlit("title");
    reveal_strlit("body");
    reveal_strlit("state");
    assert("title"@.len() != "body"@.len());
    assert("title"@[0] != "state"@[0]);
    assert("body"@.len() != "state"@.len());
    let record = JsonView::record();
    if *title is Some {
        crossing::put(record, "title"@, JsonView::Text(title->0@));
    }
    if *body is Some {
        crossing::put(record, "body"@, JsonView::Text(body->0@));
        if *title is Some {
            let titled = record.with("title"@, JsonView::Text(title->0@));
            crossing::put(titled, "body"@, JsonView::Text(body->0@));
        }
    }
    if r is Ok {
        assert((r->Ok_0).url@ =~= github.based() + at_issue(repo, number, ""@));
    }
}

/// Law: the verdicts of the checks are asked of the commit that was named.
pub proof fn checks_are_asked_of_the_commit(
    github: &GitHub,
    repo: &Repo,
    git_ref: &str,
    r: Request,
)
    requires
        call_ensures(GitHub::check_conclusions, (github, repo, git_ref), r),
    ensures
        r.method is Get,
        r.body is None,
        r.rest,
        text::begins(r.url@, github.based() + at_repo(repo, "/commits/"@) + git_ref@
            + "/check-runs"@),
{
    reveal_strlit("/");
    reveal_strlit("repos/");
    reveal_strlit("/repos/");
    reveal_strlit("/issues/");
    reveal_strlit("/pulls/");
    reveal_strlit("");
    assert("/"@ + "repos/"@ =~= "/repos/"@);
    reveal_strlit("/commits/");
    reveal_strlit("/check-runs");
    reveal_strlit("/check-runs?per_page=100");
    let front = github.based() + at_repo(repo, "/commits/"@) + git_ref@ + "/check-runs"@;
    assert("/check-runs?per_page=100"@.take("/check-runs"@.len() as int) =~= "/check-runs"@);
    assert(r.url@.take(front.len() as int) =~= front);
}

/// Whether the request is a GraphQL exchange that asks `query`.
pub open spec fn queries(request: Request, api: Seq<char>, query: Seq<char>) -> bool {
    &&& request.method is Post
    &&& request.url@ == api + "/graphql"@
    &&& request.body is Some
    &&& says(request, "query"@) == Some(JsonView::Text(query))
}

/// Law: an issue and its edges are asked for by the repository and the
/// number of that issue.
pub proof fn a_graph_is_asked_of_its_issue(
    github: &GitHub,
    repo: &Repo,
    number: u64,
    r: Result<Request, Error>,
)
    requires
        call_ensures(GitHub::issue_graph, (github, repo, number), r),
    ensures
        r is Ok <==> github.presents() is Some,
        r is Err ==> r->Err_0 is TokenAbsent,
        r is Ok ==> queries(r->Ok_0, github.based(), github::GRAPH_QUERY@),
        r is Ok ==> gives(r->Ok_0, "owner"@) == Some(JsonView::Text(repo.owner@)),
        r is Ok ==> gives(r->Ok_0, "name"@) == Some(JsonView::Text(repo.name@)),
        r is Ok ==> gives(r->Ok_0, "number"@) == Some(JsonView::Whole(number as nat)),
{
    reveal_strlit("owner");
    reveal_strlit("name");
    reveal_strlit("number");
    reveal_strlit("query");
    reveal_strlit("variables");
    assert("owner"@.len() != "name"@.len());
    assert("owner"@.len() != "number"@.len());
    assert("name"@.len() != "number"@.len());
    assert("query"@.len() != "variables"@.len());
    let owner = JsonView::Text(repo.owner@);
    let name = JsonView::Text(repo.name@);
    let count = JsonView::Whole(number as nat);
    let record = JsonView::record();
    crossing::put(record, "owner"@, owner);
    let record = record.with("owner"@, owner);
    crossing::put(record, "name"@, name);
    let record = record.with("name"@, name);
    crossing::put(record, "number"@, count);
    let variables = record.with("number"@, count);
    let asked = JsonView::Text(github::GRAPH_QUERY@);
    let record = JsonView::record();
    crossing::put(record, "query"@, asked);
    crossing::put(record.with("query"@, asked), "variables"@, variables);
}

/// Law: a node id is asked for by the repository and the number of its
/// issue.
pub proof fn a_node_id_is_asked_of_its_issue(
    github: &GitHub,
    repo: &Repo,
    number: u64,
    r: Result<Request, Error>,
)
    requires
        call_ensures(GitHub::issue_id, (github, repo, number), r),
    ensures
        r is Ok <==> github.presents() is Some,
        r is Err ==> r->Err_0 is TokenAbsent,
        r is Ok ==> queries(r->Ok_0, github.based(), github::ID_QUERY@),
        r is Ok ==> gives(r->Ok_0, "owner"@) == Some(JsonView::Text(repo.owner@)),
        r is Ok ==> gives(r->Ok_0, "name"@) == Some(JsonView::Text(repo.name@)),
        r is Ok ==> gives(r->Ok_0, "number"@) == Some(JsonView::Whole(number as nat)),
{
    reveal_strlit("owner");
    reveal_strlit("name");
    reveal_strlit("number");
    reveal_strlit("query");
    reveal_strlit("variables");
    assert("owner"@.len() != "name"@.len());
    assert("owner"@.len() != "number"@.len());
    assert("name"@.len() != "number"@.len());
    assert("query"@.len() != "variables"@.len());
    let owner = JsonView::Text(repo.owner@);
    let name = JsonView::Text(repo.name@);
    let count = JsonView::Whole(number as nat);
    let record = JsonView::record();
    crossing::put(record, "owner"@, owner);
    let record = record.with("owner"@, owner);
    crossing::put(record, "name"@, name);
    let record = record.with("name"@, name);
    crossing::put(record, "number"@, count);
    let variables = record.with("number"@, count);
    let asked = JsonView::Text(github::ID_QUERY@);
    let record = JsonView::record();
    crossing::put(record, "query"@, asked);
    crossing::put(record.with("query"@, asked), "variables"@, variables);
}

/// Law: adding a sub-issue gives the parent as the issue the edge is from,
/// and the child as the one it is to.
pub proof fn a_child_is_added_to_its_parent(
    github: &GitHub,
    parent: &str,
    child: &str,
    r: Result<Request, Error>,
)
    requires
        call_ensures(GitHub::add_sub_issue, (github, parent, child), r),
    ensures
        r is Ok <==> github.presents() is Some,
        r is Err ==> r->Err_0 is TokenAbsent,
        r is Ok ==> queries(r->Ok_0, github.based(), github::ADD_SUB_ISSUE@),
        r is Ok ==> gives(r->Ok_0, "from"@) == Some(JsonView::Text(parent@)),
        r is Ok ==> gives(r->Ok_0, "to"@) == Some(JsonView::Text(child@)),
{
    reveal_strlit("from");
    reveal_strlit("to");
    reveal_strlit("query");
    reveal_strlit("variables");
    assert("from"@.len() != "to"@.len());
    assert("query"@.len() != "variables"@.len());
    let from = JsonView::Text(parent@);
    let to = JsonView::Text(child@);
    let record = JsonView::record();
    crossing::put(record, "from"@, from);
    crossing::put(record.with("from"@, from), "to"@, to);
    let variables = record.with("from"@, from).with("to"@, to);
    let asked = JsonView::Text(github::ADD_SUB_ISSUE@);
    crossing::put(record, "query"@, asked);
    crossing::put(record.with("query"@, asked), "variables"@, variables);
}

/// Law: removing a sub-issue gives the parent as the issue the edge is
/// from, and the child as the one it is to.
pub proof fn a_child_is_removed_from_its_parent(
    github: &GitHub,
    parent: &str,
    child: &str,
    r: Result<Request, Error>,
)
    requires
        call_ensures(GitHub::remove_sub_issue, (github, parent, child), r),
    ensures
        r is Ok <==> github.presents() is Some,
        r is Err ==> r->Err_0 is TokenAbsent,
        r is Ok ==> queries(r->Ok_0, github.based(), github::REMOVE_SUB_ISSUE@),
        r is Ok ==> gives(r->Ok_0, "from"@) == Some(JsonView::Text(parent@)),
        r is Ok ==> gives(r->Ok_0, "to"@) == Some(JsonView::Text(child@)),
{
    reveal_strlit("from");
    reveal_strlit("to");
    reveal_strlit("query");
    reveal_strlit("variables");
    assert("from"@.len() != "to"@.len());
    assert("query"@.len() != "variables"@.len());
    let from = JsonView::Text(parent@);
    let to = JsonView::Text(child@);
    let record = JsonView::record();
    crossing::put(record, "from"@, from);
    crossing::put(record.with("from"@, from), "to"@, to);
    let variables = record.with("from"@, from).with("to"@, to);
    let asked = JsonView::Text(github::REMOVE_SUB_ISSUE@);
    crossing::put(record, "query"@, asked);
    crossing::put(record.with("query"@, asked), "variables"@, variables);
}

/// Law: recording a blocker gives the issue that waits as the one the edge
/// is from, and its blocker as the one it is to.
pub proof fn an_issue_is_blocked_by_its_blocker(
    github: &GitHub,
    issue: &str,
    blocker: &str,
    r: Result<Request, Error>,
)
    requires
        call_ensures(GitHub::add_blocked_by, (github, issue, blocker), r),
    ensures
        r is Ok <==> github.presents() is Some,
        r is Err ==> r->Err_0 is TokenAbsent,
        r is Ok ==> queries(r->Ok_0, github.based(), github::ADD_BLOCKED_BY@),
        r is Ok ==> gives(r->Ok_0, "from"@) == Some(JsonView::Text(issue@)),
        r is Ok ==> gives(r->Ok_0, "to"@) == Some(JsonView::Text(blocker@)),
{
    reveal_strlit("from");
    reveal_strlit("to");
    reveal_strlit("query");
    reveal_strlit("variables");
    assert("from"@.len() != "to"@.len());
    assert("query"@.len() != "variables"@.len());
    let from = JsonView::Text(issue@);
    let to = JsonView::Text(blocker@);
    let record = JsonView::record();
    crossing::put(record, "from"@, from);
    crossing::put(record.with("from"@, from), "to"@, to);
    let variables = record.with("from"@, from).with("to"@, to);
    let asked = JsonView::Text(github::ADD_BLOCKED_BY@);
    crossing::put(record, "query"@, asked);
    crossing::put(record.with("query"@, asked), "variables"@, variables);
}

/// Law: removing a blocker gives the issue that waits as the one the edge
/// is from, and its blocker as the one it is to.
pub proof fn an_issue_is_freed_of_its_blocker(
    github: &GitHub,
    issue: &str,
    blocker: &str,
    r: Result<Request, Error>,
)
    requires
        call_ensures(GitHub::remove_blocked_by, (github, issue, blocker), r),
    ensures
        r is Ok <==> github.presents() is Some,
        r is Err ==> r->Err_0 is TokenAbsent,
        r is Ok ==> queries(r->Ok_0, github.based(), github::REMOVE_BLOCKED_BY@),
        r is Ok ==> gives(r->Ok_0, "from"@) == Some(JsonView::Text(issue@)),
        r is Ok ==> gives(r->Ok_0, "to"@) == Some(JsonView::Text(blocker@)),
{
    reveal_strlit("from");
    reveal_strlit("to");
    reveal_strlit("query");
    reveal_strlit("variables");
    assert("from"@.len() != "to"@.len());
    assert("query"@.len() != "variables"@.len());
    let from = JsonView::Text(issue@);
    let to = JsonView::Text(blocker@);
    let record = JsonView::record();
    crossing::put(record, "from"@, from);
    crossing::put(record.with("from"@, from), "to"@, to);
    let variables = record.with("from"@, from).with("to"@, to);
    let asked = JsonView::Text(github::REMOVE_BLOCKED_BY@);
    crossing::put(record, "query"@, asked);
    crossing::put(record.with("query"@, asked), "variables"@, variables);
}

/// Law: each query is for what it is named: the mutations make or unmake
/// the edge from the issue that holds or waits to the one that is held or
/// waited for, and the reads are of the issue of the number given.
pub proof fn the_queries_are_for_what_they_are_named()
    ensures
        text::contains_text(
            github::ADD_SUB_ISSUE@,
            "addSubIssue(input: {issueId: $from, subIssueId: $to})"@,
        ),
        text::contains_text(
            github::REMOVE_SUB_ISSUE@,
            "removeSubIssue(input: {issueId: $from, subIssueId: $to})"@,
        ),
        text::contains_text(
            github::ADD_BLOCKED_BY@,
            "addBlockedBy(input: {issueId: $from, blockingIssueId: $to})"@,
        ),
        text::contains_text(
            github::REMOVE_BLOCKED_BY@,
            "removeBlockedBy(input: {issueId: $from, blockingIssueId: $to})"@,
        ),
        text::contains_text(
            github::ID_QUERY@,
            "repository(owner: $owner, name: $name) { issue(number: $number) { id }"@,
        ),
        text::contains_text(
            github::GRAPH_QUERY@,
            "repository(owner: $owner, name: $name) { issue(number: $number)"@,
        ),
        text::contains_text(
            github::GRAPH_QUERY@,
            "subIssues(first: 100) { nodes { number title state } }"@,
        ),
        text::contains_text(
            github::GRAPH_QUERY@,
            "blockedBy(first: 100) { nodes { number title state } }"@,
        ),
{
    assert(text::stands_at(github::ADD_SUB_ISSUE@,
        "addSubIssue(input: {issueId: $from, subIssueId: $to})"@, 33)) by {
        reveal_strlit("addSubIssue(input: {issueId: $from, subIssueId: $to})");
        reveal_strlit("mutation($from: ID!, $to: ID!) { addSubIssue(input: {issueId: $from, subIssueId: $to}) { clientMutationId } }");
        assert(github::ADD_SUB_ISSUE@.subrange(33, 86)
            =~= "addSubIssue(input: {issueId: $from, subIssueId: $to})"@);
    }
    assert(text::stands_at(github::REMOVE_SUB_ISSUE@,
        "removeSubIssue(input: {issueId: $from, subIssueId: $to})"@, 33)) by {
        reveal_strlit("removeSubIssue(input: {issueId: $from, subIssueId: $to})");
        reveal_strlit("mutation($from: ID!, $to: ID!) { removeSubIssue(input: {issueId: $from, subIssueId: $to}) { clientMutationId } }");
        assert(github::REMOVE_SUB_ISSUE@.subrange(33, 89)
            =~= "removeSubIssue(input: {issueId: $from, subIssueId: $to})"@);
    }
    assert(text::stands_at(github::ADD_BLOCKED_BY@,
        "addBlockedBy(input: {issueId: $from, blockingIssueId: $to})"@, 33)) by {
        reveal_strlit("addBlockedBy(input: {issueId: $from, blockingIssueId: $to})");
        reveal_strlit("mutation($from: ID!, $to: ID!) { addBlockedBy(input: {issueId: $from, blockingIssueId: $to}) { clientMutationId } }");
        assert(github::ADD_BLOCKED_BY@.subrange(33, 92)
            =~= "addBlockedBy(input: {issueId: $from, blockingIssueId: $to})"@);
    }
    assert(text::stands_at(github::REMOVE_BLOCKED_BY@,
        "removeBlockedBy(input: {issueId: $from, blockingIssueId: $to})"@, 33)) by {
        reveal_strlit("removeBlockedBy(input: {issueId: $from, blockingIssueId: $to})");
        reveal_strlit("mutation($from: ID!, $to: ID!) { removeBlockedBy(input: {issueId: $from, blockingIssueId: $to}) { clientMutationId } }");
        assert(github::REMOVE_BLOCKED_BY@.subrange(33, 95)
            =~= "removeBlockedBy(input: {issueId: $from, blockingIssueId: $to})"@);
    }
    assert(text::stands_at(github::ID_QUERY@,
        "repository(owner: $owner, name: $name) { issue(number: $number) { id }"@, 56)) by {
        reveal_strlit("repository(owner: $owner, name: $name) { issue(number: $number) { id }");
        reveal_strlit("query($owner: String!, $name: String!, $number: Int!) { repository(owner: $owner, name: $name) { issue(number: $number) { id } } }");
        assert(github::ID_QUERY@.subrange(56, 126)
            =~= "repository(owner: $owner, name: $name) { issue(number: $number) { id }"@);
    }
    assert(text::stands_at(github::GRAPH_QUERY@,
        "repository(owner: $owner, name: $name) { issue(number: $number)"@, 56)) by {
        reveal_strlit("repository(owner: $owner, name: $name) { issue(number: $number)");
        reveal_strlit("query($owner: String!, $name: String!, $number: Int!) { repository(owner: $owner, name: $name) { issue(number: $number) { number title state body subIssues(first: 100) { nodes { number title state } } blockedBy(first: 100) { nodes { number title state } } } } }");
        assert(github::GRAPH_QUERY@.subrange(56, 119)
            =~= "repository(owner: $owner, name: $name) { issue(number: $number)"@);
    }
    assert(text::stands_at(github::GRAPH_QUERY@,
        "subIssues(first: 100) { nodes { number title state } }"@, 146)) by {
        reveal_strlit("subIssues(first: 100) { nodes { number title state } }");
        reveal_strlit("query($owner: String!, $name: String!, $number: Int!) { repository(owner: $owner, name: $name) { issue(number: $number) { number title state body subIssues(first: 100) { nodes { number title state } } blockedBy(first: 100) { nodes { number title state } } } } }");
        assert(github::GRAPH_QUERY@.subrange(146, 200)
            =~= "subIssues(first: 100) { nodes { number title state } }"@);
    }
    assert(text::stands_at(github::GRAPH_QUERY@,
        "blockedBy(first: 100) { nodes { number title state } }"@, 201)) by {
        reveal_strlit("blockedBy(first: 100) { nodes { number title state } }");
        reveal_strlit("query($owner: String!, $name: String!, $number: Int!) { repository(owner: $owner, name: $name) { issue(number: $number) { number title state body subIssues(first: 100) { nodes { number title state } } blockedBy(first: 100) { nodes { number title state } } } } }");
        assert(github::GRAPH_QUERY@.subrange(201, 255)
            =~= "blockedBy(first: 100) { nodes { number title state } }"@);
    }
}

} // verus!
