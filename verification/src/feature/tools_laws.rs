//! What holds of every feature build as a model starts it and asks after
//! it.

use crate::chat::{Answer, Ask};
use crate::check::Check;
use crate::crossing;
use crate::feature;
use crate::feature::record::Build;
use crate::feature::tools;
use crate::feature::tools::{Builds, Entry, Feature, Flight, Selected, Start};
use crate::feature::{Issue, Plan, Problem, ProblemView, RunId, State};
use crate::ids;
use crate::json;
use crate::json::{Json, JsonView};
use crate::text;
use vstd::prelude::*;

verus! {

/// An optional text as JSON has it: null where there is none.
pub open spec fn text_or_null(text: Option<String>) -> JsonView {
    if text is Some {
        JsonView::Text((text->0)@)
    } else {
        JsonView::Null
    }
}

/// Law: a build is started as the call asks: each argument is the member of
/// its own name. A branch that is left out is named after the feature, and
/// a base that is left out stays so.
pub proof fn a_build_is_started_as_the_call_asks(arguments: &Json, r: Result<Start, String>)
    requires
        call_ensures(Start::read, (arguments,), r),
    ensures
        r is Ok ==> {
            let start = r->Ok_0;
            &&& arguments@.get("repo"@) == Some(JsonView::Text(start.repo@))
            &&& arguments@.get("repository"@) == Some(JsonView::Text(start.repository@))
            &&& arguments@.get("feature"@) is Some
            &&& arguments@.get("feature"@)->0 is Whole
            &&& start.feature.0@ == text::decimal((arguments@.get("feature"@)->0)->Whole_0)
            &&& arguments@.get("branch"@) is Some && !(arguments@.get("branch"@)->0 is Null)
                ==> arguments@.get("branch"@) == Some(JsonView::Text(start.branch@))
            &&& arguments@.get("branch"@) is None || arguments@.get("branch"@) == Some(
                JsonView::Null,
            ) ==> start.branch@ == "feature-"@ + start.feature.0@
            &&& start.base is None <==> arguments@.get("base"@) is None || arguments@.get("base"@)
                == Some(JsonView::Null)
            &&& start.base is Some ==> arguments@.get("base"@) == Some(
                JsonView::Text((start.base->0)@),
            )
        },
{
}

/// Law: a call that gives the three arguments it must, and leaves the
/// others out, is read.
pub proof fn a_call_that_gives_what_it_must_is_read(
    arguments: &Json,
    repo: Seq<char>,
    repository: Seq<char>,
    number: nat,
    r: Result<Start, String>,
)
    requires
        call_ensures(Start::read, (arguments,), r),
        arguments@.get("repo"@) == Some(JsonView::Text(repo)),
        text::trimmed(repo).len() > 0,
        arguments@.get("repository"@) == Some(JsonView::Text(repository)),
        text::trimmed(repository).len() > 0,
        arguments@.get("feature"@) == Some(JsonView::Whole(number)),
        arguments@.get("branch"@) is None,
        arguments@.get("base"@) is None,
    ensures
        r is Ok,
{
}

/// Law: a feature's own branch is named by its number, so that no two
/// features have one branch.
pub proof fn features_have_branches_of_their_own(
    one: &Feature,
    other: &Feature,
    a: String,
    b: String,
)
    requires
        call_ensures(Feature::branch, (one,), a),
        call_ensures(Feature::branch, (other,), b),
    ensures
        a@ == "feature-"@ + one.0@,
        a@ == b@ ==> one.0@ == other.0@,
{
    if a@ == b@ {
        let n = "feature-"@.len() as int;
        assert(a@.skip(n) =~= one.0@);
        assert(b@.skip(n) =~= other.0@);
    }
}

/// Law: a branch that is held is refused in words that name the branch and
/// who holds it.
pub proof fn a_held_branch_names_its_holder(start: &Start, holder: &str, r: String)
    requires
        call_ensures(Start::held, (start, holder), r),
    ensures
        r@ == "feature branch "@ + text::quoted_as(start.branch@)
            + " is already checked out by a build at "@ + holder@
            + "; one build owns a feature branch at a time"@,
{
}

/// Law: a build flies for the feature, in the repository and on the branch
/// it was started with, under the check it is given.
pub proof fn a_build_flies_as_it_was_started(start: &Start, check: Option<String>, r: Flight)
    requires
        call_ensures(Start::flight, (start, check), r),
    ensures
        r.feature.0@ == start.feature.0@,
        r.repository@ == start.repository@,
        r.branch@ == start.branch@,
        r.check == check,
{
}

/// Law: the card that asks for the check names the feature and its branch,
/// and is prefilled with what was detected.
pub proof fn the_card_is_prefilled(
    feature: &Feature,
    branch: &str,
    proposal: Option<Check>,
    r: Ask,
)
    requires
        call_ensures(tools::ask, (feature, branch, proposal), r),
    ensures
        r is Check,
        text::begins(
            r->Check_prompt@,
            "Feature "@ + feature.0@ + " builds on branch "@ + branch@,
        ),
        r->proposal is Some <==> proposal is Some,
        proposal is Some ==> (r->proposal->0)@ == (proposal->0).command@,
{
    let front = "Feature "@ + feature.0@ + " builds on branch "@ + branch@;
    assert(r->Check_prompt@.take(front.len() as int) =~= front);
}

/// Law: the check in force is the command the user answered with, verbatim;
/// a blank one, a decline, and an answer to another question are none.
pub proof fn a_check_is_what_the_user_confirmed(answer: &Answer, r: Option<Check>)
    requires
        call_ensures(tools::confirmed, (answer,), r),
    ensures
        r is Some <==> *answer is Check && text::trimmed(answer->command@).len() > 0,
        r is Some ==> (r->0).command@ == answer->command@,
{
}

/// Law: a build that started is answered with its run, and with what it
/// was started as: its feature, its repository, its branch, its base and
/// its check, how much work its plan is, and what is wrong with it.
pub proof fn a_started_build_is_told(
    start: &Start,
    run: RunId,
    base: &str,
    check: &Option<String>,
    plan: &Plan,
    r: Json,
    none: &ids::IdSet,
    work: Vec<&Issue>,
    problems: Vec<Problem>,
)
    requires
        call_ensures(Start::answer, (start, run, base, check, plan), r),
        none@ == Set::<Seq<char>>::empty(),
        call_ensures(Plan::work, (plan, none), work),
        call_ensures(Plan::problems, (plan,), problems),
    ensures
        r@.get("started"@) == Some(JsonView::Bool(true)),
        r@.get("run"@) == Some(JsonView::Whole(run.0 as nat)),
        r@.get("feature"@) == Some(JsonView::Text(start.feature.0@)),
        r@.get("repository"@) == Some(JsonView::Text(start.repository@)),
        r@.get("branch"@) == Some(JsonView::Text(start.branch@)),
        r@.get("base"@) == Some(JsonView::Text(base@)),
        r@.get("check"@) == Some(text_or_null(*check)),
        r@.get("issues"@) == Some(JsonView::Whole(work@.len())),
        r@.get("problems"@) is Some,
        r@.get("problems"@)->0 is Array,
        (r@.get("problems"@)->0)->Array_0.len() == problems@.len(),
{
    reveal_strlit("started");
    reveal_strlit("run");
    reveal_strlit("feature");
    reveal_strlit("repository");
    reveal_strlit("branch");
    reveal_strlit("base");
    reveal_strlit("check");
    reveal_strlit("issues");
    reveal_strlit("problems");
    assert("started"@.len() != "run"@.len());
    assert("started"@[0] != "feature"@[0]);
    assert("started"@.len() != "repository"@.len());
    assert("started"@.len() != "branch"@.len());
    assert("started"@.len() != "base"@.len());
    assert("started"@.len() != "check"@.len());
    assert("started"@.len() != "issues"@.len());
    assert("started"@.len() != "problems"@.len());
    assert("run"@.len() != "feature"@.len());
    assert("run"@.len() != "repository"@.len());
    assert("run"@.len() != "branch"@.len());
    assert("run"@.len() != "base"@.len());
    assert("run"@.len() != "check"@.len());
    assert("run"@.len() != "issues"@.len());
    assert("run"@.len() != "problems"@.len());
    assert("feature"@.len() != "repository"@.len());
    assert("feature"@.len() != "branch"@.len());
    assert("feature"@.len() != "base"@.len());
    assert("feature"@.len() != "check"@.len());
    assert("feature"@.len() != "issues"@.len());
    assert("feature"@.len() != "problems"@.len());
    assert("repository"@.len() != "branch"@.len());
    assert("repository"@.len() != "base"@.len());
    assert("repository"@.len() != "check"@.len());
    assert("repository"@.len() != "issues"@.len());
    assert("repository"@.len() != "problems"@.len());
    assert("branch"@.len() != "base"@.len());
    assert("branch"@.len() != "check"@.len());
    assert("branch"@[0] != "issues"@[0]);
    assert("branch"@.len() != "problems"@.len());
    assert("base"@.len() != "check"@.len());
    assert("base"@.len() != "issues"@.len());
    assert("base"@.len() != "problems"@.len());
    assert("check"@.len() != "issues"@.len());
    assert("check"@.len() != "problems"@.len());
    assert("issues"@.len() != "problems"@.len());
    let problem_row = json::texts_of(
        plan@.problems_of().map_values(|problem: ProblemView| problem.words()),
    );
    let record = JsonView::record();
    crossing::put(record, "started"@, JsonView::Bool(true));
    let record = record.with("started"@, JsonView::Bool(true));
    crossing::put(record, "run"@, JsonView::Whole(run.0 as nat));
    let record = record.with("run"@, JsonView::Whole(run.0 as nat));
    crossing::put(record, "feature"@, JsonView::Text(start.feature.0@));
    let record = record.with("feature"@, JsonView::Text(start.feature.0@));
    crossing::put(record, "repository"@, JsonView::Text(start.repository@));
    let record = record.with("repository"@, JsonView::Text(start.repository@));
    crossing::put(record, "branch"@, JsonView::Text(start.branch@));
    let record = record.with("branch"@, JsonView::Text(start.branch@));
    crossing::put(record, "base"@, JsonView::Text(base@));
    let record = record.with("base"@, JsonView::Text(base@));
    crossing::put(record, "check"@, json::text_or_null(text::optional(*check)));
    let record = record.with("check"@, json::text_or_null(text::optional(*check)));
    crossing::put(record, "issues"@, JsonView::Whole(plan@.work_of(Set::empty()).len()));
    let record = record.with("issues"@, JsonView::Whole(plan@.work_of(Set::empty()).len()));
    crossing::put(record, "problems"@, problem_row);
}

// ----- status -----

/// The word for a state.
pub open spec fn word_of(state: State) -> Seq<char> {
    match state {
        State::Waiting => "waiting"@,
        State::Running => "running"@,
        State::Merging => "merging"@,
        State::Merged { .. } => "merged"@,
        State::Failed { .. } => "failed"@,
        State::Skipped { .. } => "skipped"@,
    }
}

/// Whether an object tells of a state: its own word, and what belongs to
/// it.
pub open spec fn tells_state(told: JsonView, state: State) -> bool {
    &&& told.get("state"@) == Some(JsonView::Text(word_of(state)))
    &&& state is Merged ==> told.get("commit"@) == Some(JsonView::Text(state->commit@))
        && told.get("checked"@) == Some(JsonView::Bool(state->checked))
    &&& state is Failed ==> told.get("report"@) == Some(JsonView::Text(state->report@))
    &&& state is Skipped ==> told.get("reason"@) == Some(JsonView::Text(state->reason@))
}

proof fn the_words_differ()
    ensures
        "waiting"@ != "running"@,
        "waiting"@ != "merging"@,
        "waiting"@ != "merged"@,
        "waiting"@ != "failed"@,
        "waiting"@ != "skipped"@,
        "running"@ != "merging"@,
        "running"@ != "merged"@,
        "running"@ != "failed"@,
        "running"@ != "skipped"@,
        "merging"@ != "merged"@,
        "merging"@ != "failed"@,
        "merging"@ != "skipped"@,
        "merged"@ != "failed"@,
        "merged"@ != "skipped"@,
        "failed"@ != "skipped"@,
{
    reveal_strlit("waiting");
    reveal_strlit("running");
    reveal_strlit("merging");
    reveal_strlit("merged");
    reveal_strlit("failed");
    reveal_strlit("skipped");
    assert("waiting"@[0] != "running"@[0]);
    assert("waiting"@[0] != "merging"@[0]);
    assert("waiting"@.len() != "merged"@.len());
    assert("waiting"@.len() != "failed"@.len());
    assert("waiting"@[0] != "skipped"@[0]);
    assert("running"@[0] != "merging"@[0]);
    assert("running"@.len() != "merged"@.len());
    assert("running"@.len() != "failed"@.len());
    assert("running"@[0] != "skipped"@[0]);
    assert("merging"@.len() != "merged"@.len());
    assert("merging"@.len() != "failed"@.len());
    assert("merging"@[0] != "skipped"@[0]);
    assert("merged"@[0] != "failed"@[0]);
    assert("merged"@.len() != "skipped"@.len());
    assert("failed"@.len() != "skipped"@.len());
}

proof fn a_state_is_told(state: State)
    ensures
        tells_state(tools::state_view(state), state),
        tools::state_view(state) is Object,
        tools::state_view(state).get("id"@) is None,
        tools::state_view(state).get("title"@) is None,
{
    reveal_strlit("state");
    reveal_strlit("commit");
    reveal_strlit("checked");
    reveal_strlit("id");
    reveal_strlit("title");
    reveal_strlit("report");
    reveal_strlit("reason");
    assert("state"@.len() != "commit"@.len());
    assert("state"@.len() != "checked"@.len());
    assert("state"@.len() != "id"@.len());
    assert("state"@[0] != "title"@[0]);
    assert("state"@.len() != "report"@.len());
    assert("state"@.len() != "reason"@.len());
    assert("commit"@.len() != "checked"@.len());
    assert("commit"@.len() != "id"@.len());
    assert("commit"@.len() != "title"@.len());
    assert("commit"@[0] != "report"@[0]);
    assert("commit"@[0] != "reason"@[0]);
    assert("checked"@.len() != "id"@.len());
    assert("checked"@.len() != "title"@.len());
    assert("checked"@.len() != "report"@.len());
    assert("checked"@.len() != "reason"@.len());
    assert("id"@.len() != "title"@.len());
    assert("id"@.len() != "report"@.len());
    assert("id"@.len() != "reason"@.len());
    assert("title"@.len() != "report"@.len());
    assert("title"@.len() != "reason"@.len());
    assert("report"@[2] != "reason"@[2]);
    let named = JsonView::record();
    crossing::put(named, "state"@, JsonView::Text(word_of(state)));
    let named = named.with("state"@, JsonView::Text(word_of(state)));
    match state {
        State::Merged { commit, checked } => {
            crossing::put(named, "commit"@, JsonView::Text(commit@));
            let named = named.with("commit"@, JsonView::Text(commit@));
            crossing::put(named, "checked"@, JsonView::Bool(checked));
        },
        State::Failed { report } => {
            crossing::put(named, "report"@, JsonView::Text(report@));
        },
        State::Skipped { reason } => {
            crossing::put(named, "reason"@, JsonView::Text(reason@));
        },
        _ => {},
    }
}

/// Law: a state is told by its own word, which no other has, with the
/// commit it merged as and whether it was checked, the report of a failure,
/// or the reason of a skip.
pub proof fn a_state_is_told_by_its_own_word(
    one: &State,
    other: &State,
    a: Json,
    b: Json,
)
    requires
        call_ensures(tools::state_json, (one,), a),
        call_ensures(tools::state_json, (other,), b),
    ensures
        tells_state(a@, *one),
        a@ == b@ ==> word_of(*one) == word_of(*other),
        word_of(*one) == word_of(*other) <==> {
            ||| *one is Waiting && *other is Waiting
            ||| *one is Running && *other is Running
            ||| *one is Merging && *other is Merging
            ||| *one is Merged && *other is Merged
            ||| *one is Failed && *other is Failed
            ||| *one is Skipped && *other is Skipped
        },
{
    a_state_is_told(*one);
    a_state_is_told(*other);
    the_words_differ();
}

/// Whether an object tells of an issue: under its own id, with the title
/// of an issue of that id, and its state.
pub open spec fn tells_issue(
    told: JsonView,
    nodes: Seq<Issue>,
    id: Seq<char>,
    state: State,
) -> bool {
    &&& told.get("id"@) == Some(JsonView::Text(id))
    &&& tells_state(told, state)
    &&& (exists|i: int| 0 <= i < nodes.len() && (#[trigger] nodes[i]).id@ == id) ==> exists|i: int|
        0 <= i < nodes.len() && (#[trigger] nodes[i]).id@ == id && told.get("title"@) == Some(
            JsonView::Text(nodes[i].title@),
        )
}

proof fn a_title_is_an_issues_own(nodes: Seq<Issue>, id: Seq<char>)
    ensures
        match tools::title_of(nodes, id) {
            Some(title) => exists|i: int|
                0 <= i < nodes.len() && (#[trigger] nodes[i]).id@ == id && nodes[i].title@ == title,
            None => forall|i: int| 0 <= i < nodes.len() ==> (#[trigger] nodes[i]).id@ != id,
        },
    decreases nodes.len(),
{
    if nodes.len() > 0 {
        let front = nodes.drop_last();
        a_title_is_an_issues_own(front, id);
        if nodes.last().id@ == id {
            assert(nodes[nodes.len() - 1].id@ == id);
        } else if tools::title_of(front, id) is Some {
            let title = tools::title_of(front, id)->0;
            let i = choose|i: int|
                0 <= i < front.len() && (#[trigger] front[i]).id@ == id && front[i].title@ == title;
            assert(nodes[i] == front[i]);
        } else {
            assert forall|i: int| 0 <= i < nodes.len() implies (#[trigger] nodes[i]).id@ != id by {
                if i < front.len() {
                    assert(front[i] == nodes[i]);
                }
            }
        }
    }
}

proof fn an_issue_is_told(nodes: Seq<Issue>, id: Seq<char>, state: State)
    ensures
        tells_issue(tools::issue_view(nodes, id, state), nodes, id, state),
{
    reveal_strlit("id");
    reveal_strlit("title");
    reveal_strlit("state");
    reveal_strlit("commit");
    reveal_strlit("checked");
    reveal_strlit("report");
    reveal_strlit("reason");
    assert("id"@.len() != "title"@.len());
    assert("id"@.len() != "state"@.len());
    assert("title"@[0] != "state"@[0]);
    assert("id"@.len() != "commit"@.len());
    assert("id"@.len() != "checked"@.len());
    assert("id"@.len() != "report"@.len());
    assert("id"@.len() != "reason"@.len());
    assert("title"@.len() != "commit"@.len());
    assert("title"@.len() != "checked"@.len());
    assert("title"@.len() != "report"@.len());
    assert("title"@.len() != "reason"@.len());
    let told = tools::state_view(state);
    a_state_is_told(state);
    crossing::put(told, "id"@, JsonView::Text(id));
    let told = told.with("id"@, JsonView::Text(id));
    crossing::put(told, "title"@, json::text_or_null(tools::title_of(nodes, id)));
    a_title_is_an_issues_own(nodes, id);
}

/// Law: the status of a build is its own: its run, its feature, its
/// repository, its branch, its check, its tip where git knows one, and
/// whether it is finished; and it tells every issue of the build once, in
/// the order of their ids, under its own title and in its own state.
pub proof fn the_status_of_a_build_is_its_own(
    flight: &Flight,
    run: RunId,
    tip: &Result<String, String>,
    build: &Build,
    r: Json,
    finished: bool,
)
    requires
        build.wf(),
        call_ensures(Flight::status, (flight, run, tip, build), r),
        call_ensures(Build::finished, (build,), finished),
    ensures
        r@.get("run"@) == Some(JsonView::Whole(run.0 as nat)),
        r@.get("feature"@) == Some(JsonView::Text(flight.feature.0@)),
        r@.get("repository"@) == Some(JsonView::Text(flight.repository@)),
        r@.get("branch"@) == Some(JsonView::Text(flight.branch@)),
        *tip is Ok ==> r@.get("tip"@) == Some(JsonView::Text(tip->Ok_0@)),
        *tip is Err ==> r@.get("tip"@) == Some(JsonView::Null),
        r@.get("check"@) == Some(text_or_null(flight.check)),
        r@.get("finished"@) == Some(JsonView::Bool(finished)),
        r@.get("problems"@) is Some,
        r@.get("problems"@)->0 is Array,
        (r@.get("problems"@)->0)->Array_0.len() == build@.problems.len(),
        r@.get("issues"@) is Some,
        r@.get("issues"@)->0 is Array,
        exists|listed: Seq<Seq<char>>|
            {
                let told = (r@.get("issues"@)->0)->Array_0;
                &&& #[trigger] ids::ascending(listed)
                &&& forall|id: Seq<char>| #[trigger]
                    build@.states.dom().contains(id) <==> listed.contains(id)
                &&& told.len() == listed.len()
                &&& forall|k: int|
                    0 <= k < listed.len() ==> tells_issue(
                        told[k],
                        build@.plan.tree.nodes(),
                        #[trigger] listed[k],
                        build@.states[listed[k]],
                    )
            },
{
    let listed = choose|listed: Seq<Seq<char>>|
        #[trigger] tools::lists(listed, build@.states) && r@ == tools::flight_answer(
            run,
            *flight,
            tools::answered(*tip),
            build@,
            listed,
        );
    assert(tools::lists(listed, build@.states));
    let problem_row = json::texts_of(
        build@.problems.map_values(|problem: ProblemView| problem.words()),
    );
    let nodes = build@.plan.tree.nodes();
    let issue_row = tools::issues_view(nodes, listed, build@.states);
    reveal_strlit("run");
    reveal_strlit("feature");
    reveal_strlit("repository");
    reveal_strlit("branch");
    reveal_strlit("tip");
    reveal_strlit("check");
    reveal_strlit("finished");
    reveal_strlit("problems");
    reveal_strlit("issues");
    assert("run"@.len() != "feature"@.len());
    assert("run"@.len() != "repository"@.len());
    assert("run"@.len() != "branch"@.len());
    assert("run"@[0] != "tip"@[0]);
    assert("run"@.len() != "check"@.len());
    assert("run"@.len() != "finished"@.len());
    assert("run"@.len() != "problems"@.len());
    assert("run"@.len() != "issues"@.len());
    assert("feature"@.len() != "repository"@.len());
    assert("feature"@.len() != "branch"@.len());
    assert("feature"@.len() != "tip"@.len());
    assert("feature"@.len() != "check"@.len());
    assert("feature"@.len() != "finished"@.len());
    assert("feature"@.len() != "problems"@.len());
    assert("feature"@.len() != "issues"@.len());
    assert("repository"@.len() != "branch"@.len());
    assert("repository"@.len() != "tip"@.len());
    assert("repository"@.len() != "check"@.len());
    assert("repository"@.len() != "finished"@.len());
    assert("repository"@.len() != "problems"@.len());
    assert("repository"@.len() != "issues"@.len());
    assert("branch"@.len() != "tip"@.len());
    assert("branch"@.len() != "check"@.len());
    assert("branch"@.len() != "finished"@.len());
    assert("branch"@.len() != "problems"@.len());
    assert("branch"@[0] != "issues"@[0]);
    assert("tip"@.len() != "check"@.len());
    assert("tip"@.len() != "finished"@.len());
    assert("tip"@.len() != "problems"@.len());
    assert("tip"@.len() != "issues"@.len());
    assert("check"@.len() != "finished"@.len());
    assert("check"@.len() != "problems"@.len());
    assert("check"@.len() != "issues"@.len());
    assert("finished"@[0] != "problems"@[0]);
    assert("finished"@.len() != "issues"@.len());
    assert("problems"@.len() != "issues"@.len());
    let record = JsonView::record();
    crossing::put(record, "run"@, JsonView::Whole(run.0 as nat));
    let record = record.with("run"@, JsonView::Whole(run.0 as nat));
    crossing::put(record, "feature"@, JsonView::Text(flight.feature.0@));
    let record = record.with("feature"@, JsonView::Text(flight.feature.0@));
    crossing::put(record, "repository"@, JsonView::Text(flight.repository@));
    let record = record.with("repository"@, JsonView::Text(flight.repository@));
    crossing::put(record, "branch"@, JsonView::Text(flight.branch@));
    let record = record.with("branch"@, JsonView::Text(flight.branch@));
    crossing::put(record, "tip"@, json::text_or_null(tools::answered(*tip)));
    let record = record.with("tip"@, json::text_or_null(tools::answered(*tip)));
    crossing::put(record, "check"@, json::text_or_null(text::optional(flight.check)));
    let record = record.with("check"@, json::text_or_null(text::optional(flight.check)));
    crossing::put(record, "finished"@, JsonView::Bool(build@.is_finished()));
    let record = record.with("finished"@, JsonView::Bool(build@.is_finished()));
    crossing::put(record, "problems"@, problem_row);
    let record = record.with("problems"@, problem_row);
    crossing::put(record, "issues"@, issue_row);
    let told = (r@.get("issues"@)->0)->Array_0;
    assert forall|k: int| 0 <= k < listed.len() implies tells_issue(
        told[k],
        nodes,
        #[trigger] listed[k],
        build@.states[listed[k]],
    ) by {
        an_issue_is_told(nodes, listed[k], build@.states[listed[k]]);
        assert(told[k] == tools::issue_view(nodes, listed[k], build@.states[listed[k]]));
    }
    assert(ids::ascending(listed));
}

// ----- which build is asked after -----

proof fn an_entry_is_the_runs_own(entries: Seq<(RunId, Entry)>, run: nat)
    ensures
        match tools::entry_of(entries, run) {
            Some(entry) => entries.contains(entry) && entry.0.0 == run,
            None => forall|i: int| 0 <= i < entries.len() ==> (#[trigger] entries[i]).0.0 != run,
        },
    decreases entries.len(),
{
    if entries.len() > 0 {
        let front = entries.drop_last();
        an_entry_is_the_runs_own(front, run);
        if entries.last().0.0 == run {
            assert(entries[entries.len() - 1] == entries.last());
        } else if tools::entry_of(front, run) is Some {
            let entry = tools::entry_of(front, run)->0;
            let i = choose|i: int| 0 <= i < front.len() && front[i] == entry;
            assert(entries[i] == entry);
        } else {
            assert forall|i: int| 0 <= i < entries.len() implies (
            #[trigger] entries[i]).0.0 != run by {
                if i < front.len() {
                    assert(front[i] == entries[i]);
                }
            }
        }
    }
}

/// Law: the build that answers is the one whose run was asked for, and
/// where none was, the one started last; a run that nobody knows is
/// refused, and is the only one that is.
pub proof fn the_build_asked_after_answers(
    builds: &Builds,
    arguments: &Json,
    r: Result<Selected<'_>, String>,
)
    requires
        call_ensures(Builds::select, (builds, arguments), r),
    ensures
        ({
            let asked = arguments@.get("run"@);
            let named = asked is Some && asked->0 is Whole;
            let kept = builds.kept();
            &&& r is Err <==> named && forall|i: int|
                0 <= i < kept.len() ==> (#[trigger] kept[i]).0.0 != (asked->0)->Whole_0
            &&& r is Ok && r->Ok_0 is Flight ==> {
                let run = r->Ok_0->Flight_0;
                &&& named ==> run.0 == (asked->0)->Whole_0
                &&& !named ==> kept.last().0 == run
                &&& kept.contains((run, Entry::Flight(*(r->Ok_0->Flight_1))))
            }
        }),
{
    let asked = arguments@.get("run"@);
    if asked is Some && asked->0 is Whole {
        an_entry_is_the_runs_own(builds.kept(), (asked->0)->Whole_0);
    }
}

/// Law: a build that has not started is told as itself, not finished; and
/// where no build was ever started that is what is said.
pub proof fn a_build_that_has_not_started_is_told(
    builds: &Builds,
    arguments: &Json,
    r: Result<Selected<'_>, String>,
)
    requires
        call_ensures(Builds::select, (builds, arguments), r),
        r is Ok,
        r->Ok_0 is Answer,
    ensures
        ({
            let told = r->Ok_0->Answer_0@;
            let kept = builds.kept();
            &&& kept.len() == 0 ==> told.get("run"@) == Some(JsonView::Null)
            &&& kept.len() > 0 ==> exists|i: int|
                {
                    &&& 0 <= i < kept.len()
                    &&& (#[trigger] kept[i]).1 is Starting
                    &&& told.get("run"@) == Some(JsonView::Whole(kept[i].0.0 as nat))
                    &&& told.get("feature"@) == Some(JsonView::Text(kept[i].1->feature.0@))
                    &&& told.get("repository"@) == Some(JsonView::Text(kept[i].1->repository@))
                    &&& told.get("branch"@) == Some(JsonView::Text(kept[i].1->branch@))
                    &&& told.get("finished"@) == Some(JsonView::Bool(false))
                    &&& arguments@.get("run"@) is Some && arguments@.get("run"@)->0 is Whole
                        ==> kept[i].0.0 == (arguments@.get("run"@)->0)->Whole_0
                    &&& arguments@.get("run"@) is None ==> i == kept.len() - 1
                }
        }),
{
    let told = r->Ok_0->Answer_0@;
    let kept = builds.kept();
    let asked = arguments@.whole_at("run"@);
    reveal_strlit("run");
    reveal_strlit("feature");
    reveal_strlit("repository");
    reveal_strlit("branch");
    reveal_strlit("finished");
    reveal_strlit("note");
    assert("run"@.len() != "feature"@.len());
    assert("run"@.len() != "repository"@.len());
    assert("run"@.len() != "branch"@.len());
    assert("run"@.len() != "finished"@.len());
    assert("run"@.len() != "note"@.len());
    assert("feature"@.len() != "repository"@.len());
    assert("feature"@.len() != "branch"@.len());
    assert("feature"@.len() != "finished"@.len());
    assert("feature"@.len() != "note"@.len());
    assert("repository"@.len() != "branch"@.len());
    assert("repository"@.len() != "finished"@.len());
    assert("repository"@.len() != "note"@.len());
    assert("branch"@.len() != "finished"@.len());
    assert("branch"@.len() != "note"@.len());
    assert("finished"@.len() != "note"@.len());
    if asked is Some {
        an_entry_is_the_runs_own(kept, asked->0);
    }
    if kept.len() == 0 {
        let record = JsonView::record();
        crossing::put(record, "run"@, JsonView::Null);
        let record = record.with("run"@, JsonView::Null);
        crossing::put(
            record,
            "note"@,
            JsonView::Text("no feature build has been started"@),
        );
    } else {
        let entry = if asked is Some {
            tools::entry_of(kept, asked->0)->0
        } else {
            kept.last()
        };
        let i = if asked is Some {
            choose|i: int| 0 <= i < kept.len() && kept[i] == entry
        } else {
            kept.len() - 1
        };
        assert(kept[i] == entry);
        assert(entry.1 is Starting);
        let words = JsonView::Text(
            "the build has not started: the check card is unanswered or the feature branch is being established"@,
        );
        let record = JsonView::record();
        crossing::put(record, "run"@, JsonView::Whole(entry.0.0 as nat));
        let record = record.with("run"@, JsonView::Whole(entry.0.0 as nat));
        crossing::put(record, "feature"@, JsonView::Text(entry.1->feature.0@));
        let record = record.with("feature"@, JsonView::Text(entry.1->feature.0@));
        crossing::put(record, "repository"@, JsonView::Text(entry.1->repository@));
        let record = record.with("repository"@, JsonView::Text(entry.1->repository@));
        crossing::put(record, "branch"@, JsonView::Text(entry.1->branch@));
        let record = record.with("branch"@, JsonView::Text(entry.1->branch@));
        crossing::put(record, "finished"@, JsonView::Bool(false));
        let record = record.with("finished"@, JsonView::Bool(false));
        crossing::put(record, "note"@, words);
    }
}

} // verus!
