//! What holds of the tools by which a model starts builds and reads plans.

use crate::chat::ToolSpec;
use crate::crossing;
use crate::crossing::plans;
use crate::feature::tools;
use crate::feature::{Issue, Plan, Problem, ProblemView};
use crate::github;
use crate::ids::IdSet;
use crate::json;
use crate::json::{Json, JsonView};
use crate::launch;
use crate::tree;
use vstd::prelude::*;

verus! {

/// Whether a tool takes an argument of that name and kind.
pub open spec fn takes(tool: ToolSpec, name: Seq<char>, kind: Seq<char>) -> bool {
    let properties = tool@.parameters.get("properties"@);
    &&& properties is Some
    &&& properties->0.get(name) is Some
    &&& properties->0.get(name)->0.get("type"@) == Some(JsonView::Text(kind))
}

/// Whether a tool demands an argument of that name.
pub open spec fn demands(tool: ToolSpec, name: Seq<char>) -> bool {
    let required = tool@.parameters.get("required"@);
    &&& required is Some
    &&& required->0 is Array
    &&& required->0->Array_0.contains(JsonView::Text(name))
}

proof fn a_property_has_its_type(kind: Seq<char>, description: Seq<char>)
    ensures
        crate::tools::property_of(kind, description).get("type"@) == Some(JsonView::Text(kind)),
{
    reveal_strlit("type");
    reveal_strlit("description");
    assert("type"@.len() != "description"@.len());
    let record = JsonView::record();
    crossing::put(record, "type"@, JsonView::Text(kind));
    crossing::put(
        record.with("type"@, JsonView::Text(kind)),
        "description"@,
        JsonView::Text(description),
    );
}

proof fn a_schema_has_its_parts(properties: JsonView, required: JsonView)
    ensures
        crate::tools::schema_of(properties, required).get("properties"@) == Some(properties),
        crate::tools::schema_of(properties, required).get("required"@) == Some(required),
{
    reveal_strlit("type");
    reveal_strlit("properties");
    reveal_strlit("required");
    assert("type"@.len() != "properties"@.len());
    assert("type"@.len() != "required"@.len());
    assert("properties"@.len() != "required"@.len());
    let record = JsonView::record();
    crossing::put(record, "type"@, JsonView::Text("object"@));
    let record = record.with("type"@, JsonView::Text("object"@));
    crossing::put(record, "properties"@, properties);
    let record = record.with("properties"@, properties);
    crossing::put(record, "required"@, required);
}

/// Law: `start_feature` is offered with the arguments its call is read
/// from, and demands the three that a call cannot do without, and only
/// those.
pub proof fn start_feature_asks_for_what_it_reads(tool: ToolSpec)
    requires
        call_ensures(tools::start_feature, (), tool),
    ensures
        tool@.name == "start_feature"@,
        takes(tool, "repo"@, "string"@),
        takes(tool, "repository"@, "string"@),
        takes(tool, "feature"@, "integer"@),
        takes(tool, "branch"@, "string"@),
        takes(tool, "base"@, "string"@),
        demands(tool, "repo"@),
        demands(tool, "repository"@),
        demands(tool, "feature"@),
        tool@.parameters.get("required"@)->0->Array_0.len() == 3,
{
    reveal_strlit("repo");
    reveal_strlit("repository");
    reveal_strlit("feature");
    reveal_strlit("branch");
    reveal_strlit("base");
    assert("repo"@.len() != "repository"@.len());
    assert("repo"@.len() != "feature"@.len());
    assert("repo"@.len() != "branch"@.len());
    assert("repo"@[0] != "base"@[0]);
    assert("repository"@.len() != "feature"@.len());
    assert("repository"@.len() != "branch"@.len());
    assert("repository"@.len() != "base"@.len());
    assert("feature"@.len() != "branch"@.len());
    assert("feature"@.len() != "base"@.len());
    assert("branch"@.len() != "base"@.len());
    let repo = crate::tools::property_of(
        "string"@,
        "The repository as the tracker names it: one owner/name string on GitHub."@,
    );
    let repository = crate::tools::property_of(
        "string"@,
        "The absolute path of the local clone to build in (git_clone one first if none exists)."@,
    );
    let number = crate::tools::property_of("integer"@, "The feature issue's number."@);
    let branch = crate::tools::property_of(
        "string"@,
        "The feature branch's name; feature-<number> when omitted."@,
    );
    let base = crate::tools::property_of(
        "string"@,
        "The branch or commit the feature branch starts from; the repository's default branch when omitted."@,
    );
    a_property_has_its_type(
        "string"@,
        "The repository as the tracker names it: one owner/name string on GitHub."@,
    );
    a_property_has_its_type(
        "string"@,
        "The absolute path of the local clone to build in (git_clone one first if none exists)."@,
    );
    a_property_has_its_type("integer"@, "The feature issue's number."@);
    a_property_has_its_type(
        "string"@,
        "The feature branch's name; feature-<number> when omitted."@,
    );
    a_property_has_its_type(
        "string"@,
        "The branch or commit the feature branch starts from; the repository's default branch when omitted."@,
    );
    let record = JsonView::record();
    crossing::put(record, "repo"@, repo);
    let record = record.with("repo"@, repo);
    crossing::put(record, "repository"@, repository);
    let record = record.with("repository"@, repository);
    crossing::put(record, "feature"@, number);
    let record = record.with("feature"@, number);
    crossing::put(record, "branch"@, branch);
    let record = record.with("branch"@, branch);
    crossing::put(record, "base"@, base);
    let properties = record.with("base"@, base);
    let required = JsonView::row().also("repo"@).also("repository"@).also("feature"@);
    a_schema_has_its_parts(properties, required);
    assert(required->Array_0[0] == JsonView::Text("repo"@));
    assert(required->Array_0[1] == JsonView::Text("repository"@));
    assert(required->Array_0[2] == JsonView::Text("feature"@));
}

/// Law: `feature_status` is offered with the run it may be asked for, and
/// demands nothing.
pub proof fn feature_status_may_be_asked_for_a_run(tool: ToolSpec)
    requires
        call_ensures(tools::feature_status, (), tool),
    ensures
        tool@.name == "feature_status"@,
        takes(tool, "run"@, "integer"@),
        tool@.parameters.get("required"@) is None,
{
    reveal_strlit("type");
    reveal_strlit("properties");
    reveal_strlit("required");
    assert("type"@.len() != "properties"@.len());
    assert("type"@.len() != "required"@.len());
    assert("properties"@.len() != "required"@.len());
    let words =
        "The run id start_feature answered with, selecting that build; the most recently started build when omitted."@;
    a_property_has_its_type("integer"@, words);
    let run = crate::tools::property_of("integer"@, words);
    let record = JsonView::record();
    crossing::put(record, "run"@, run);
    let properties = record.with("run"@, run);
    crossing::put(record, "type"@, JsonView::Text("object"@));
    let record = record.with("type"@, JsonView::Text("object"@));
    crossing::put(record, "properties"@, properties);
}

/// Law: `launch_feature` is offered with the number it demands.
pub proof fn launch_feature_asks_for_its_number(tool: ToolSpec)
    requires
        call_ensures(launch::launch_feature, (), tool),
    ensures
        tool@.name == "launch_feature"@,
        takes(tool, "number"@, "integer"@),
        demands(tool, "number"@),
{
    let words = "The feature issue's number, without the leading #."@;
    a_property_has_its_type("integer"@, words);
    let number = crate::tools::property_of("integer"@, words);
    crossing::put(JsonView::record(), "number"@, number);
    let properties = JsonView::record().with("number"@, number);
    let required = JsonView::row().also("number"@);
    a_schema_has_its_parts(properties, required);
    assert(required->Array_0[0] == JsonView::Text("number"@));
}

/// Law: a plan is answered with its tree, its edges, what stands outside
/// it, what is ready with nothing done, and what is wrong with it: every
/// edge from the issue to its blocker, every ready issue in the plan's
/// order, and every problem.
pub proof fn a_plan_is_answered_in_full(
    plan: &Plan,
    none: &IdSet,
    ready: Vec<&Issue>,
    problems: Vec<Problem>,
    r: Json,
    k: int,
)
    requires
        call_ensures(github::tools::plan_answer, (plan,), r),
        none@ == Set::<Seq<char>>::empty(),
        call_ensures(Plan::ready, (plan, none), ready),
        call_ensures(Plan::problems, (plan,), problems),
    ensures
        r@.get("tree"@) is Some,
        r@.get("blocking"@) is Some,
        r@.get("blocking"@)->0 is Array,
        (r@.get("blocking"@)->0)->Array_0.len() == plan.blocking@.len(),
        0 <= k < plan.blocking@.len() ==> {
            let told = (r@.get("blocking"@)->0)->Array_0[k];
            &&& told.get("issue"@) == Some(JsonView::Text(plan.blocking@[k].issue@))
            &&& told.get("blocker"@) == Some(JsonView::Text(plan.blocking@[k].blocker@))
        },
        r@.get("outside"@) is Some,
        r@.get("outside"@)->0 is Array,
        (r@.get("outside"@)->0)->Array_0.len() == plan.outside@.len(),
        r@.get("ready"@) is Some,
        r@.get("ready"@)->0 is Array,
        (r@.get("ready"@)->0)->Array_0.len() == ready@.len(),
        0 <= k < ready@.len() ==> {
            let told = (r@.get("ready"@)->0)->Array_0[k];
            &&& told.get("id"@) == Some(JsonView::Text(ready@[k].id@))
            &&& told.get("title"@) == Some(JsonView::Text(ready@[k].title@))
            &&& told.get("closed"@) == Some(JsonView::Bool(ready@[k].closed))
        },
        r@.get("problems"@) is Some,
        r@.get("problems"@)->0 is Array,
        (r@.get("problems"@)->0)->Array_0.len() == problems@.len(),
{
    reveal_strlit("tree");
    reveal_strlit("blocking");
    reveal_strlit("outside");
    reveal_strlit("ready");
    reveal_strlit("problems");
    assert("tree"@.len() != "blocking"@.len());
    assert("tree"@.len() != "outside"@.len());
    assert("tree"@.len() != "ready"@.len());
    assert("tree"@.len() != "problems"@.len());
    assert("blocking"@.len() != "outside"@.len());
    assert("blocking"@.len() != "ready"@.len());
    assert("blocking"@[0] != "problems"@[0]);
    assert("outside"@.len() != "ready"@.len());
    assert("outside"@.len() != "problems"@.len());
    assert("ready"@.len() != "problems"@.len());
    let first = plans::told_tree(plan@.tree);
    let second = plans::told_edges(plan@.blocking);
    let third = plans::told_issues(plan@.outside);
    let fourth = plans::told_issues(plan@.ready_of(Set::empty()));
    let fifth = json::texts_of(
        plan@.problems_of().map_values(|problem: ProblemView| problem.words()),
    );
    let record = JsonView::record();
    crossing::put(record, "tree"@, first);
    let record = record.with("tree"@, first);
    crossing::put(record, "blocking"@, second);
    let record = record.with("blocking"@, second);
    crossing::put(record, "outside"@, third);
    let record = record.with("outside"@, third);
    crossing::put(record, "ready"@, fourth);
    let record = record.with("ready"@, fourth);
    crossing::put(record, "problems"@, fifth);
    assert(tree::reached(ready@).len() == ready@.len());
    if 0 <= k < plan.blocking@.len() {
        let edge = plan.blocking@[k];
        reveal_strlit("issue");
        reveal_strlit("blocker");
        assert("issue"@.len() != "blocker"@.len());
        let record = JsonView::record();
        crossing::put(record, "issue"@, JsonView::Text(edge.issue@));
        let record = record.with("issue"@, JsonView::Text(edge.issue@));
        crossing::put(record, "blocker"@, JsonView::Text(edge.blocker@));
        assert(second->Array_0[k] == plans::told_blocking(edge));
    }
    if 0 <= k < ready@.len() {
        let issue = *ready@[k];
        assert(tree::reached(ready@)[k] == issue);
        reveal_strlit("id");
        reveal_strlit("title");
        reveal_strlit("closed");
        assert("id"@.len() != "title"@.len());
        assert("id"@.len() != "closed"@.len());
        assert("title"@.len() != "closed"@.len());
        let record = JsonView::record();
        crossing::put(record, "id"@, JsonView::Text(issue.id@));
        let record = record.with("id"@, JsonView::Text(issue.id@));
        crossing::put(record, "title"@, JsonView::Text(issue.title@));
        let record = record.with("title"@, JsonView::Text(issue.title@));
        crossing::put(record, "closed"@, JsonView::Bool(issue.closed));
        assert(fourth->Array_0[k] == plans::told_issue(issue));
    }
}

} // verus!
