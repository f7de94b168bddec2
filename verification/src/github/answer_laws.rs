//! What holds of everything read out of GitHub's answers, and of what is
//! told of it to a model.

use crate::crossing;
use crate::github;
use crate::github::decode;
use crate::github::{
    Branch, Check, Conclusion, Edge, Error, Issue, IssueGraph, Outcome, Pull, State,
};
use crate::json;
use crate::json::{Json, JsonView};
use crate::text;
use vstd::prelude::*;

verus! {

/// Whether `read` is the state that `word` says: open and closed in either
/// case, and nothing else.
pub open spec fn state_says(read: State, word: Seq<char>) -> bool {
    &&& read is Open <==> (word == "open"@ || word == "OPEN"@)
    &&& read is Closed <==> (word == "closed"@ || word == "CLOSED"@)
}

/// Whether a word says a state at all.
pub open spec fn says_state(word: Seq<char>) -> bool {
    word == "open"@ || word == "OPEN"@ || word == "closed"@ || word == "CLOSED"@
}

/// Whether `read` is the conclusion that `word` says: each by its own word,
/// so that no other word is a success.
pub open spec fn conclusion_says(read: Conclusion, word: Seq<char>) -> bool {
    &&& read == Conclusion::Success <==> word == "success"@
    &&& read == Conclusion::Failure <==> word == "failure"@
    &&& read == Conclusion::Neutral <==> word == "neutral"@
    &&& read == Conclusion::Cancelled <==> word == "cancelled"@
    &&& read == Conclusion::Skipped <==> word == "skipped"@
    &&& read == Conclusion::Stale <==> word == "stale"@
    &&& read == Conclusion::TimedOut <==> word == "timed_out"@
    &&& read == Conclusion::ActionRequired <==> word == "action_required"@
}

proof fn the_words_differ()
    ensures
        forall|word: Seq<char>| says_state(word) ==> exists|s: State| #[trigger]
            state_says(s, word) && decode::state_named(Some(word)) == Some(s),
        forall|word: Seq<char>|
            !says_state(word) ==> #[trigger] decode::state_named(Some(word)) is None,
        forall|word: Seq<char>| #[trigger]
            decode::state_named(Some(word)) is Some ==> state_says(
                decode::state_named(Some(word))->0,
                word,
            ),
        forall|word: Seq<char>| #[trigger]
            conclusion_says(decode::conclusion_named(word), word),
{
    reveal_strlit("open");
    reveal_strlit("OPEN");
    reveal_strlit("closed");
    reveal_strlit("CLOSED");
    assert("open"@[0] != "OPEN"@[0]);
    assert("open"@.len() != "closed"@.len());
    assert("open"@.len() != "CLOSED"@.len());
    assert("OPEN"@.len() != "closed"@.len());
    assert("OPEN"@.len() != "CLOSED"@.len());
    assert("closed"@[0] != "CLOSED"@[0]);
    reveal_strlit("success");
    reveal_strlit("failure");
    reveal_strlit("neutral");
    reveal_strlit("cancelled");
    reveal_strlit("skipped");
    reveal_strlit("stale");
    reveal_strlit("timed_out");
    reveal_strlit("action_required");
    assert("success"@[0] != "failure"@[0]);
    assert("success"@[0] != "neutral"@[0]);
    assert("success"@.len() != "cancelled"@.len());
    assert("success"@[1] != "skipped"@[1]);
    assert("success"@.len() != "stale"@.len());
    assert("success"@.len() != "timed_out"@.len());
    assert("success"@.len() != "action_required"@.len());
    assert("failure"@[0] != "neutral"@[0]);
    assert("failure"@.len() != "cancelled"@.len());
    assert("failure"@[0] != "skipped"@[0]);
    assert("failure"@.len() != "stale"@.len());
    assert("failure"@.len() != "timed_out"@.len());
    assert("failure"@.len() != "action_required"@.len());
    assert("neutral"@.len() != "cancelled"@.len());
    assert("neutral"@[0] != "skipped"@[0]);
    assert("neutral"@.len() != "stale"@.len());
    assert("neutral"@.len() != "timed_out"@.len());
    assert("neutral"@.len() != "action_required"@.len());
    assert("cancelled"@.len() != "skipped"@.len());
    assert("cancelled"@.len() != "stale"@.len());
    assert("cancelled"@[0] != "timed_out"@[0]);
    assert("cancelled"@.len() != "action_required"@.len());
    assert("skipped"@.len() != "stale"@.len());
    assert("skipped"@.len() != "timed_out"@.len());
    assert("skipped"@.len() != "action_required"@.len());
    assert("stale"@.len() != "timed_out"@.len());
    assert("stale"@.len() != "action_required"@.len());
    assert("timed_out"@.len() != "action_required"@.len());
    assert forall|word: Seq<char>| says_state(word) implies exists|s: State| #[trigger]
        state_says(s, word) && decode::state_named(Some(word)) == Some(s) by {
        let s = decode::state_named(Some(word))->0;
        assert(state_says(s, word));
    }
}

/// Law: an issue is read out of an object that has its number, its title
/// and its state, each from the member of that name; a body that is absent
/// or null is empty.
pub proof fn an_issue_is_read_field_by_field(
    value: &Json,
    r: Option<Issue>,
)
    requires
        call_ensures(Issue::read, (value,), r),
        value@ is Object,
    ensures
        r is Some ==> value@.get("number"@) == Some(JsonView::Whole((r->0).number as nat)),
        r is Some ==> value@.get("title"@) == Some(JsonView::Text((r->0).title@)),
        r is Some
            ==> match value@.get("body"@) { Some(JsonView::Text(body)) => (r->0).body@
            == body, Some(JsonView::Null) => (r->0).body@.len()
            == 0, None => (r->0).body@.len() == 0, _ => false },
        r is Some && value@.get("state"@) is Some
            && value@.get("state"@)->0 is Text
            ==> state_says((r->0).state, value@.get("state"@)->0->Text_0),
        value@.get("number"@) is Some && value@.get("number"@)->0 is Whole
            && value@.get("title"@) is Some && value@.get("title"@)->0 is Text
            && (value@.get("body"@) is None || value@.get("body"@)->0 is Null || value@.get("body"@)->0 is Text) && value@.get("state"@) is Some && value@.get("state"@)->0 is Text && says_state(value@.get("state"@)->0->Text_0) ==> r is Some,
{
    the_words_differ();
}

/// Law: an answer decodes as the issue that is read out of it, and as none
/// where none is.
pub proof fn decoding_an_issue_is_reading_it(
    what: &str,
    value: &Json,
    r: Result<Issue, Error>,
    read: Option<Issue>,
)
    requires
        call_ensures(Issue::decode, (what, value), r),
        call_ensures(Issue::read, (value,), read),
    ensures
        r is Ok <==> read is Some,
        r is Ok ==> (r->Ok_0).number == (read->0).number
            && (r->Ok_0).title@ == (read->0).title@ && (r->Ok_0).body@ == (read->0).body@
            && (r->Ok_0).state == (read->0).state,
        r is Err ==> r->Err_0 is Wire,
{
}

/// Whether a branch is the one an object says, by its name and its commit.
pub open spec fn branch_says(read: Branch, value: JsonView) -> bool {
    &&& value.get("ref"@) == Some(JsonView::Text(read.name@))
    &&& value.get("sha"@) == Some(JsonView::Text(read.sha@))
}

/// Law: a pull request is read out of an object by the names of its fields:
/// whether it is merged, which branch it is from and which it is into.
pub proof fn a_pull_request_is_read_field_by_field(
    what: &str,
    value: &Json,
    r: Result<Pull, Error>,
)
    requires
        call_ensures(Pull::decode, (what, value), r),
        value@ is Object,
        r is Ok,
    ensures
        value@.get("number"@) == Some(JsonView::Whole((r->Ok_0).number as nat)),
        value@.get("title"@) == Some(JsonView::Text((r->Ok_0).title@)),
        value@.get("merged"@) == Some(JsonView::Bool((r->Ok_0).merged)),
        value@.get("state"@) is Some
            && value@.get("state"@)->0 is Text
            ==> state_says((r->Ok_0).state, value@.get("state"@)->0->Text_0),
        value@.get("head"@) is Some && value@.get("base"@) is Some,
        value@.get("head"@)->0 is Object ==> branch_says((r->Ok_0).head, value@.get("head"@)->0),
        value@.get("base"@)->0 is Object ==> branch_says((r->Ok_0).base, value@.get("base"@)->0),
{
    the_words_differ();
}

/// Law: an object with every field of a pull request is read as one.
pub proof fn a_pull_request_that_is_whole_is_read(
    what: &str,
    value: &Json,
    r: Result<Pull, Error>,
    head: Branch,
    base: Branch,
)
    requires
        call_ensures(Pull::decode, (what, value), r),
        value@ is Object,
        value@.get("number"@) is Some && value@.get("number"@)->0 is Whole,
        value@.get("title"@) is Some && value@.get("title"@)->0 is Text,
        value@.get("merged"@) is Some && value@.get("merged"@)->0 is Bool,
        value@.get("state"@) is Some && value@.get("state"@)->0 is Text,
        says_state(value@.get("state"@)->0->Text_0),
        value@.get("head"@) is Some && value@.get("head"@)->0 is Object,
        value@.get("base"@) is Some && value@.get("base"@)->0 is Object,
        branch_says(head, value@.get("head"@)->0),
        branch_says(base, value@.get("base"@)->0),
    ensures
        r is Ok,
{
    the_words_differ();
}

/// Law: a check is read with its name, and with the conclusion its word
/// says: a success only where it says success, none while it says none, and
/// a word nobody has modelled is nobody's green.
pub proof fn a_check_is_read_as_it_concluded(
    value: &Json,
    r: Option<Check>,
)
    requires
        call_ensures(Check::read, (value,), r),
        value@ is Object,
    ensures
        r is Some ==> value@.get("name"@) == Some(JsonView::Text((r->0).name@)),
        r is Some
            && (value@.get("conclusion"@) is None || value@.get("conclusion"@)->0 is Null)
            ==> (r->0).conclusion is None,
        r is Some && value@.get("conclusion"@) is Some
            && value@.get("conclusion"@)->0 is Text ==> (r->0).conclusion is Some
            && conclusion_says((r->0).conclusion->0, value@.get("conclusion"@)->0->Text_0),
        value@.get("name"@) is Some && value@.get("name"@)->0 is Text
            && (value@.get("conclusion"@) is None || value@.get("conclusion"@)->0 is Null || value@.get("conclusion"@)->0 is Text) ==> r is Some,
{
    the_words_differ();
    if value@.get("conclusion"@) is Some && value@.get("conclusion"@)->0 is Text {
        let word = value@.get("conclusion"@)->0->Text_0;
        assert(conclusion_says(decode::conclusion_named(word), word));
    }
}

proof fn checks_one_by_one(items: Seq<JsonView>)
    ensures
        decode::checks_of(items) matches Some(checks) ==> checks.len() == items.len()
            && forall|k: int|
            0 <= k < items.len() ==> decode::check_of(#[trigger] items[k]) == Some(checks[k]),
        decode::checks_of(items) is None ==> exists|k: int|
            0 <= k < items.len() && decode::check_of(#[trigger] items[k]) is None,
    decreases items.len(),
{
    if items.len() > 0 {
        let front = items.drop_last();
        checks_one_by_one(front);
        assert(items[items.len() - 1] == items.last());
        if decode::checks_of(front) is None {
            let k = choose|k: int|
                0 <= k < front.len() && decode::check_of(#[trigger] front[k]) is None;
            assert(items[k] == front[k]);
        } else if decode::checks_of(items) is Some {
            assert forall|k: int| 0 <= k < items.len() implies decode::check_of(
                #[trigger] items[k],
            ) == Some(decode::checks_of(items)->0[k]) by {
                if k < front.len() {
                    assert(front[k] == items[k]);
                }
            }
        }
    }
}

/// Law: the check runs of an answer are read in order, each as that check
/// is read, and none is left out.
pub proof fn every_check_run_is_read(
    what: &str,
    value: &Json,
    r: Result<Vec<Check>, Error>,
    items: Seq<Json>,
    read: Seq<Option<Check>>,
)
    requires
        call_ensures(decode::check_runs, (what, value), r),
        value@ is Object,
        value@.get("check_runs"@) == Some(JsonView::Array(items.map_values(|item: Json| item@))),
        read.len() == items.len(),
        forall|k: int|
            0 <= k < items.len() ==> call_ensures(
                Check::read,
                (&#[trigger] items[k],),
                read[k],
            ),
    ensures
        r is Ok <==> forall|k: int| 0 <= k < read.len() ==> (#[trigger] read[k]) is Some,
        r is Ok ==> r->Ok_0@.len() == items.len() && forall|k: int|
            0 <= k < items.len() ==> (#[trigger] r->Ok_0@[k]).name@ == (read[k]->0).name@
                && r->Ok_0@[k].conclusion == (read[k]->0).conclusion,
        r is Err ==> r->Err_0 is Wire,
{
    let views = items.map_values(|item: Json| item@);
    checks_one_by_one(views);
    assert forall|k: int| 0 <= k < items.len() implies #[trigger] views[k] == items[k]@ by {}
    if r is Ok {
        let checks = r->Ok_0@;
        assert(decode::check_views(checks).len() == checks.len());
        assert forall|k: int| 0 <= k < items.len() implies (#[trigger] checks[k]).name@ == (
        read[k]->0).name@ && checks[k].conclusion == (read[k]->0).conclusion && read[k] is Some by {
            let item = items[k];
            assert(decode::check_of(views[k]) == Some(decode::check_views(checks)[k]));
        }
        assert forall|k: int| 0 <= k < read.len() implies (#[trigger] read[k]) is Some by {
            let item = items[k];
            assert(decode::check_of(views[k]) == Some(decode::check_views(checks)[k]));
        }
    } else {
        let k = choose|k: int|
            0 <= k < views.len() && decode::check_of(#[trigger] views[k]) is None;
        let item = items[k];
        assert(read[k] is None);
    }
}

/// Law: the default branch is the one the answer names.
pub proof fn the_default_branch_is_the_one_named(
    what: &str,
    value: &Json,
    r: Result<String, Error>,
)
    requires
        call_ensures(decode::default_branch, (what, value), r),
        value@ is Object,
    ensures
        r is Ok <==> value@.get("default_branch"@) is Some
            && value@.get("default_branch"@)->0 is Text,
        r is Ok ==> value@.get("default_branch"@) == Some(JsonView::Text(r->Ok_0@)),
        r is Err ==> r->Err_0 is Wire,
{
}

/// The issue that data is about: under its repository.
pub open spec fn issue_in(data: JsonView) -> JsonView {
    data.get("repository"@)->0.get("issue"@)->0
}

/// Whether data is about an issue at all.
pub open spec fn has_issue(data: JsonView) -> bool {
    &&& data is Object
    &&& data.get("repository"@) is Some
    &&& data.get("repository"@)->0 is Object
    &&& data.get("repository"@)->0.get("issue"@) is Some
    &&& issue_in(data) is Object
}

/// Law: the node id read out of data is the id of the issue it is about.
pub proof fn a_node_id_is_the_issues_own(
    data: &Json,
    r: Result<String, Error>,
)
    requires
        call_ensures(decode::issue_id, (data,), r),
        has_issue(data@),
    ensures
        r is Ok <==> issue_in(data@).get("id"@) is Some && issue_in(data@).get("id"@)->0 is Text,
        r is Ok ==> issue_in(data@).get("id"@) == Some(JsonView::Text(r->Ok_0@)),
{
}

/// Whether an edge is the one an object says.
pub open spec fn edge_says(read: Edge, value: JsonView) -> bool {
    &&& value.get("number"@) == Some(JsonView::Whole(read.number as nat))
    &&& value.get("title"@) == Some(JsonView::Text(read.title@))
    &&& value.get("state"@) is Some
    &&& value.get("state"@)->0 is Text ==> state_says(read.state, value.get("state"@)->0->Text_0)
}

/// The nodes of a connection.
pub open spec fn nodes_in(connection: JsonView) -> Seq<JsonView> {
    connection.get("nodes"@)->0->Array_0
}

/// Whether edges are those of a connection, one for each of its nodes, in
/// order.
pub open spec fn edges_say(read: Seq<Edge>, connection: JsonView) -> bool {
    connection is Object ==> {
        &&& connection.get("nodes"@) is Some && connection.get("nodes"@)->0 is Array
        &&& read.len() == nodes_in(connection).len()
        &&& forall|k: int|
            0 <= k < read.len() && nodes_in(connection)[k] is Object ==> edge_says(
                #[trigger] read[k],
                nodes_in(connection)[k],
            )
    }
}

proof fn edges_one_by_one(items: Seq<JsonView>)
    ensures
        decode::edges_of(items) matches Some(edges) ==> edges.len() == items.len() && forall|
            k: int,
        |
            0 <= k < items.len() ==> decode::edge_of(#[trigger] items[k]) == Some(edges[k]),
    decreases items.len(),
{
    if items.len() > 0 && decode::edges_of(items) is Some {
        let front = items.drop_last();
        edges_one_by_one(front);
        assert forall|k: int| 0 <= k < items.len() implies decode::edge_of(#[trigger] items[k])
            == Some(decode::edges_of(items)->0[k]) by {
            if k < front.len() {
                assert(front[k] == items[k]);
            }
        }
    }
}

proof fn a_connection_is_its_nodes(part: JsonView, read: Seq<Edge>)
    requires
        decode::connection_of(Some(part)) == Some(decode::edge_views(read)),
    ensures
        edges_say(read, part),
{
    the_words_differ();
    if part is Object {
        let items = nodes_in(part);
        edges_one_by_one(items);
        let views = decode::edge_views(read);
        assert forall|k: int| 0 <= k < read.len() && items[k] is Object implies edge_says(
            #[trigger] read[k],
            items[k],
        ) by {
            assert(views[k] == read[k]@);
            assert(decode::edge_of(items[k]) == Some(views[k]));
        }
    }
}

/// Law: an issue and its edges are read out of the issue that the data is
/// about: its own fields by their names, its sub-issues from those it
/// holds, and what blocks it from those it waits on.
pub proof fn a_graph_is_read_edge_by_edge(data: &Json, r: Result<IssueGraph, Error>)
    requires
        call_ensures(decode::graph, (data,), r),
        has_issue(data@),
        r is Ok,
    ensures
        issue_in(data@).get("number"@) == Some(
            JsonView::Whole((r->Ok_0).issue.number as nat),
        ),
        issue_in(data@).get("title"@) == Some(JsonView::Text((r->Ok_0).issue.title@)),
        issue_in(data@).get("body"@) matches Some(JsonView::Text(body)) ==> (
        r->Ok_0).issue.body@ == body,
        issue_in(data@).get("state"@) matches Some(JsonView::Text(word)) ==> state_says(
            (r->Ok_0).issue.state,
            word,
        ),
        issue_in(data@).get("subIssues"@) is Some,
        issue_in(data@).get("blockedBy"@) is Some,
        edges_say((r->Ok_0).sub_issues@, issue_in(data@).get("subIssues"@)->0),
        edges_say((r->Ok_0).blocked_by@, issue_in(data@).get("blockedBy"@)->0),
{
    the_words_differ();
    let issue = issue_in(data@);
    assert(decode::issue_part(data@) == Some(issue));
    a_connection_is_its_nodes(issue.get("subIssues"@)->0, (r->Ok_0).sub_issues@);
    a_connection_is_its_nodes(issue.get("blockedBy"@)->0, (r->Ok_0).blocked_by@);
}

// ----- what a refusal is -----

/// Law: a refusal is a rate limit where GitHub says so — by its status, by
/// having nothing left, or in its words — and a plain refusal with its own
/// status otherwise; either way in the words it came with.
pub proof fn a_refusal_is_a_rate_limit_or_it_is_not(
    status: u16,
    remaining: Option<&str>,
    message: String,
    lowered: &str,
    r: Error,
)
    requires
        call_ensures(github::classify, (status, remaining, message, lowered), r),
    ensures
        r is RateLimited <==> (status == 429 || (status == 403 && ((remaining is Some
            && (remaining->0)@ == "0"@) || text::contains_text(lowered@, "rate limit"@)))),
        r is RateLimited ==> r->RateLimited_0@ == message@,
        !(r is RateLimited) ==> r is Refused && r->status == status && r->message@ == message@,
{
}

/// Law: the words of a refusal are the message its body carries, where the
/// body carries one.
pub proof fn a_refusal_is_in_githubs_own_words(
    body: &str,
    r: String,
    value: JsonView,
    message: Seq<char>,
)
    requires
        call_ensures(github::message, (body,), r),
        json::read_as(body@) == Ok::<JsonView, Seq<char>>(value),
        value is Object,
        value.get("message"@) == Some(JsonView::Text(message)),
    ensures
        r@ == message,
{
}

/// Law: the words of a refusal whose body carries no message are the body,
/// but for the space around it.
pub proof fn a_refusal_without_a_message_is_its_body(
    body: &str,
    r: String,
)
    requires
        call_ensures(github::message, (body,), r),
        json::read_as(body@) is Err || (json::read_as(body@)->Ok_0 is Object
            && json::read_as(body@)->Ok_0.get("message"@) is None),
    ensures
        r@ == text::trimmed(body@),
{
}

/// Law: what came back is an answer only of a success, and then the value
/// its body spells, or null where it has none; a refusal carries its own
/// status, and what could not be asked or read says where.
pub proof fn only_a_success_is_an_answer(
    url: &str,
    outcome: Outcome,
    r: Result<Json, Error>,
)
    requires
        call_ensures(github::answer, (url, outcome), r),
    ensures
        r is Ok ==> outcome is Answered && 200 <= outcome->status < 300,
        r is Ok && outcome->body@.len() > 0
            ==> json::read_as(outcome->body@) == Ok::<JsonView, Seq<char>>(r->Ok_0@),
        r is Ok && outcome->body@.len() == 0 ==> r->Ok_0@ is Null,
        outcome is Answered && 200 <= outcome->status < 300
            && (outcome->body@.len() == 0 || json::read_as(outcome->body@) is Ok) ==> r is Ok,
        outcome is Answered && !(200 <= outcome->status < 300) ==> r is Err
            && (r->Err_0 is RateLimited || (r->Err_0 is Refused
            && (r->Err_0)->status == outcome->status)),
        outcome is Answered && !(200 <= outcome->status < 300) && outcome->status != 429
            && outcome->status != 403 ==> r->Err_0 is Refused,
        outcome is Answered && outcome->status == 429 ==> r->Err_0 is RateLimited,
        outcome is Answered && outcome->status == 403 && outcome->remaining is Some
            && outcome->remaining->0@ == "0"@ ==> r->Err_0 is RateLimited,
        outcome is Unasked || outcome is Unread ==> r is Err && r->Err_0 is Wire,
{
}

proof fn complaints_one_by_one(items: Seq<JsonView>)
    requires
        forall|k: int| 0 <= k < items.len() ==> (#[trigger] items[k]) is Object,
    ensures
        decode::complaints_of(items) matches Some((kinds, messages)) ==> {
            &&& kinds.len() == items.len() == messages.len()
            &&& forall|k: int|
                0 <= k < items.len() ==> (#[trigger] items[k]).get("message"@) == Some(
                    JsonView::Text(messages[k]),
                )
            &&& forall|k: int|
                0 <= k < items.len() ==> (kinds[k] == "RATE_LIMITED"@ <==> (
                #[trigger] items[k]).get("type"@) == Some(JsonView::Text("RATE_LIMITED"@)))
        },
    decreases items.len(),
{
    reveal_strlit("RATE_LIMITED");
    if items.len() > 0 {
        let front = items.drop_last();
        assert forall|k: int| 0 <= k < front.len() implies (#[trigger] front[k]) is Object by {
            assert(front[k] == items[k]);
        }
        complaints_one_by_one(front);
        assert(items[items.len() - 1] == items.last());
        if decode::complaints_of(items) is Some {
            let (kinds, messages) = decode::complaints_of(items)->0;
            let (before, said) = decode::complaints_of(front)->0;
            let last = decode::complaint_of(items.last())->0;
            assert("RATE_LIMITED"@.len() == 12);
            assert(kinds == before.push(last.0) && messages == said.push(last.1));
            assert forall|k: int| 0 <= k < items.len() implies (#[trigger] items[k]).get(
                "message"@,
            ) == Some(JsonView::Text(messages[k]))
                && (kinds[k] == "RATE_LIMITED"@ <==> items[k].get(
                "type"@,
            ) == Some(JsonView::Text("RATE_LIMITED"@))) by {
                if k < front.len() {
                    assert(front[k] == items[k]);
                }
            }
        }
    }
}

/// Law: a GraphQL reply with no complaint is its data, whatever the data;
/// one with a complaint is never an answer.
pub proof fn a_reply_with_complaints_is_no_answer(reply: &Json, r: Result<Json, Error>)
    requires
        call_ensures(decode::graphql_data, (reply,), r),
        reply@ is Object,
    ensures
        reply@.get("errors"@) is None ==> r is Ok,
        reply@.get("errors"@) == Some(JsonView::Array(Seq::empty())) ==> r is Ok,
        r is Ok && reply@.get("data"@) is Some ==> r->Ok_0@ == reply@.get("data"@)->0,
        r is Ok && reply@.get("data"@) is None ==> r->Ok_0@ is Null,
        reply@.get("errors"@) matches Some(JsonView::Array(items)) && items.len() > 0 ==> r is Err,
{
    if reply@.get("errors"@) is Some && reply@.get("errors"@)->0 is Array {
        let items = reply@.get("errors"@)->0->Array_0;
        if items.len() > 0 && decode::complaints_of(items) is Some {
            let (kinds, messages) = decode::complaints_of(items)->0;
            let front = decode::complaints_of(items.drop_last())->0;
            assert(messages.len() == front.1.len() + 1);
        }
    }
}

/// Law: the complaints of a GraphQL reply are a rate limit just when one of
/// them is of that type, and otherwise a refusal; a lone complaint is in
/// its own words.
pub proof fn a_complaint_is_a_rate_limit_or_it_is_not(
    reply: &Json,
    r: Result<Json, Error>,
    items: Seq<JsonView>,
)
    requires
        call_ensures(decode::graphql_data, (reply,), r),
        reply@ is Object,
        reply@.get("errors"@) == Some(JsonView::Array(items)),
        items.len() > 0,
        forall|k: int| 0 <= k < items.len() ==> (#[trigger] items[k]) is Object,
    ensures
        r is Err,
        !(r->Err_0 is Wire) ==> (r->Err_0 is RateLimited <==> exists|k: int|
            0 <= k < items.len() && (#[trigger] items[k]).get("type"@) == Some(
                JsonView::Text("RATE_LIMITED"@),
            )),
        !(r->Err_0 is Wire) && !(r->Err_0 is RateLimited) ==> r->Err_0 is Refused,
        !(r->Err_0 is Wire) && items.len() == 1 ==> items[0].get("message"@) == Some(
            JsonView::Text(
                match r->Err_0 {
                    Error::RateLimited(message) => message@,
                    Error::Refused { message, .. } => message@,
                    _ => Seq::empty(),
                },
            ),
        ),
{
    a_reply_with_complaints_is_no_answer(reply, r);
    complaints_one_by_one(items);
    if decode::complaints_of(items) is Some {
        let (kinds, messages) = decode::complaints_of(items)->0;
        if kinds.contains("RATE_LIMITED"@) {
            let k = choose|k: int| 0 <= k < kinds.len() && kinds[k] == "RATE_LIMITED"@;
            assert(items[k].get("type"@) == Some(JsonView::Text("RATE_LIMITED"@)));
        }
        if exists|k: int|
            0 <= k < items.len() && (#[trigger] items[k]).get("type"@) == Some(
                JsonView::Text("RATE_LIMITED"@),
            ) {
            let k = choose|k: int|
                0 <= k < items.len() && (#[trigger] items[k]).get("type"@) == Some(
                    JsonView::Text("RATE_LIMITED"@),
                );
            assert(kinds[k] == "RATE_LIMITED"@);
        }
        if items.len() == 1 {
            assert(items[0].get("message"@) == Some(JsonView::Text(messages[0])));
        }
    }
}

// ----- what is told -----

/// Law: an issue is told by its number, its title, its body and its state.
pub proof fn an_issue_is_told_field_by_field(
    issue: &Issue,
    r: Json,
)
    requires
        call_ensures(Issue::told, (issue,), r),
    ensures
        r@.get("number"@) == Some(JsonView::Whole(issue.number as nat)),
        r@.get("title"@) == Some(JsonView::Text(issue.title@)),
        r@.get("body"@) == Some(JsonView::Text(issue.body@)),
        r@.get("state"@) is Some && r@.get("state"@)->0 is Text,
        state_says(issue.state, r@.get("state"@)->0->Text_0),
{
    reveal_strlit("number");
    reveal_strlit("title");
    reveal_strlit("body");
    reveal_strlit("state");
    reveal_strlit("open");
    reveal_strlit("OPEN");
    reveal_strlit("closed");
    reveal_strlit("CLOSED");
    assert("number"@.len() != "title"@.len());
    assert("number"@.len() != "body"@.len());
    assert("number"@.len() != "state"@.len());
    assert("title"@.len() != "body"@.len());
    assert("title"@[0] != "state"@[0]);
    assert("body"@.len() != "state"@.len());
    assert("open"@[0] != "OPEN"@[0]);
    assert("open"@.len() != "closed"@.len());
    assert("open"@.len() != "CLOSED"@.len());
    assert("OPEN"@.len() != "closed"@.len());
    assert("OPEN"@.len() != "CLOSED"@.len());
    assert("closed"@[0] != "CLOSED"@[0]);
    let record = JsonView::record();
    crossing::put(record, "number"@, JsonView::Whole(issue.number as nat));
    let record = record.with("number"@, JsonView::Whole(issue.number as nat));
    crossing::put(record, "title"@, JsonView::Text(issue.title@));
    let record = record.with("title"@, JsonView::Text(issue.title@));
    crossing::put(record, "body"@, JsonView::Text(issue.body@));
    let record = record.with("body"@, JsonView::Text(issue.body@));
    crossing::put(record, "state"@, JsonView::Text(decode::state_word(issue.state)));
}

/// Law: a pull request is told by its fields, the branch it is from as its
/// head and the one it is into as its base.
pub proof fn a_pull_request_is_told_field_by_field(
    pull: &Pull,
    r: Json,
)
    requires
        call_ensures(Pull::told, (pull,), r),
    ensures
        r@.get("number"@) == Some(JsonView::Whole(pull.number as nat)),
        r@.get("title"@) == Some(JsonView::Text(pull.title@)),
        r@.get("merged"@) == Some(JsonView::Bool(pull.merged)),
        r@.get("state"@) is Some && r@.get("state"@)->0 is Text,
        state_says(pull.state, r@.get("state"@)->0->Text_0),
        r@.get("head"@) is Some && branch_says(pull.head, r@.get("head"@)->0),
        r@.get("base"@) is Some && branch_says(pull.base, r@.get("base"@)->0),
{
    reveal_strlit("number");
    reveal_strlit("title");
    reveal_strlit("state");
    reveal_strlit("merged");
    reveal_strlit("head");
    reveal_strlit("base");
    reveal_strlit("ref");
    reveal_strlit("sha");
    reveal_strlit("open");
    reveal_strlit("OPEN");
    reveal_strlit("closed");
    reveal_strlit("CLOSED");
    assert("number"@.len() != "title"@.len());
    assert("number"@.len() != "state"@.len());
    assert("number"@[0] != "merged"@[0]);
    assert("number"@.len() != "head"@.len());
    assert("number"@.len() != "base"@.len());
    assert("title"@[0] != "state"@[0]);
    assert("title"@.len() != "merged"@.len());
    assert("title"@.len() != "head"@.len());
    assert("title"@.len() != "base"@.len());
    assert("state"@.len() != "merged"@.len());
    assert("state"@.len() != "head"@.len());
    assert("state"@.len() != "base"@.len());
    assert("merged"@.len() != "head"@.len());
    assert("merged"@.len() != "base"@.len());
    assert("head"@[0] != "base"@[0]);
    assert("ref"@[0] != "sha"@[0]);
    assert("open"@[0] != "OPEN"@[0]);
    assert("open"@.len() != "closed"@.len());
    assert("open"@.len() != "CLOSED"@.len());
    assert("OPEN"@.len() != "closed"@.len());
    assert("OPEN"@.len() != "CLOSED"@.len());
    assert("closed"@[0] != "CLOSED"@[0]);
    let empty = JsonView::record();
    crossing::put(empty, "ref"@, JsonView::Text(pull.head.name@));
    crossing::put(
        empty.with("ref"@, JsonView::Text(pull.head.name@)),
        "sha"@,
        JsonView::Text(pull.head.sha@),
    );
    crossing::put(empty, "ref"@, JsonView::Text(pull.base.name@));
    crossing::put(
        empty.with("ref"@, JsonView::Text(pull.base.name@)),
        "sha"@,
        JsonView::Text(pull.base.sha@),
    );
    let record = JsonView::record();
    crossing::put(record, "number"@, JsonView::Whole(pull.number as nat));
    let record = record.with("number"@, JsonView::Whole(pull.number as nat));
    crossing::put(record, "title"@, JsonView::Text(pull.title@));
    let record = record.with("title"@, JsonView::Text(pull.title@));
    crossing::put(record, "state"@, JsonView::Text(decode::state_word(pull.state)));
    let record = record.with("state"@, JsonView::Text(decode::state_word(pull.state)));
    crossing::put(record, "merged"@, JsonView::Bool(pull.merged));
    let record = record.with("merged"@, JsonView::Bool(pull.merged));
    crossing::put(record, "head"@, decode::branch_told(pull.head@));
    let record = record.with("head"@, decode::branch_told(pull.head@));
    crossing::put(record, "base"@, decode::branch_told(pull.base@));
}

/// Law: a check is told by its name and by the word of its conclusion, or
/// null while it has none.
pub proof fn a_check_is_told_as_it_concluded(
    check: &Check,
    r: Json,
)
    requires
        call_ensures(Check::told, (check,), r),
    ensures
        r@.get("name"@) == Some(JsonView::Text(check.name@)),
        check.conclusion is None ==> r@.get("conclusion"@) == Some(JsonView::Null),
        check.conclusion is Some ==> r@.get("conclusion"@) is Some
            && r@.get("conclusion"@)->0 is Text
            && conclusion_says(check.conclusion->0, r@.get("conclusion"@)->0->Text_0),
{
    reveal_strlit("name");
    reveal_strlit("conclusion");
    reveal_strlit("success");
    reveal_strlit("failure");
    reveal_strlit("neutral");
    reveal_strlit("cancelled");
    reveal_strlit("skipped");
    reveal_strlit("stale");
    reveal_strlit("timed_out");
    reveal_strlit("action_required");
    reveal_strlit("other");
    assert("name"@.len() != "conclusion"@.len());
    assert("success"@[0] != "failure"@[0]);
    assert("success"@[0] != "neutral"@[0]);
    assert("success"@.len() != "cancelled"@.len());
    assert("success"@[1] != "skipped"@[1]);
    assert("success"@.len() != "stale"@.len());
    assert("success"@.len() != "timed_out"@.len());
    assert("success"@.len() != "action_required"@.len());
    assert("success"@.len() != "other"@.len());
    assert("failure"@[0] != "neutral"@[0]);
    assert("failure"@.len() != "cancelled"@.len());
    assert("failure"@[0] != "skipped"@[0]);
    assert("failure"@.len() != "stale"@.len());
    assert("failure"@.len() != "timed_out"@.len());
    assert("failure"@.len() != "action_required"@.len());
    assert("failure"@.len() != "other"@.len());
    assert("neutral"@.len() != "cancelled"@.len());
    assert("neutral"@[0] != "skipped"@[0]);
    assert("neutral"@.len() != "stale"@.len());
    assert("neutral"@.len() != "timed_out"@.len());
    assert("neutral"@.len() != "action_required"@.len());
    assert("neutral"@.len() != "other"@.len());
    assert("cancelled"@.len() != "skipped"@.len());
    assert("cancelled"@.len() != "stale"@.len());
    assert("cancelled"@[0] != "timed_out"@[0]);
    assert("cancelled"@.len() != "action_required"@.len());
    assert("cancelled"@.len() != "other"@.len());
    assert("skipped"@.len() != "stale"@.len());
    assert("skipped"@.len() != "timed_out"@.len());
    assert("skipped"@.len() != "action_required"@.len());
    assert("skipped"@.len() != "other"@.len());
    assert("stale"@.len() != "timed_out"@.len());
    assert("stale"@.len() != "action_required"@.len());
    assert("stale"@[0] != "other"@[0]);
    assert("timed_out"@.len() != "action_required"@.len());
    assert("timed_out"@.len() != "other"@.len());
    assert("action_required"@.len() != "other"@.len());
    let concluded = match check.conclusion {
        Some(conclusion) => JsonView::Text(decode::conclusion_word(conclusion)),
        None => JsonView::Null,
    };
    let record = JsonView::record();
    crossing::put(record, "name"@, JsonView::Text(check.name@));
    crossing::put(record.with("name"@, JsonView::Text(check.name@)), "conclusion"@, concluded);
}

/// Law: a check that is told is read back as it was, whatever it concluded.
pub proof fn a_told_check_reads_back(check: &Check, told: Json, r: Option<Check>)
    requires
        call_ensures(Check::told, (check,), told),
        call_ensures(Check::read, (&told,), r),
    ensures
        r is Some,
        (r->0).name@ == check.name@,
        (r->0).conclusion == check.conclusion,
{
    a_check_is_told_as_it_concluded(check, told);
    a_check_is_read_as_it_concluded(&told, r);
}

/// Law: what is told of checks is one row, a value for each, in order.
pub proof fn every_check_is_told(checks: &Vec<Check>, r: Json, k: int, one: Json)
    requires
        call_ensures(decode::tell_checks, (checks,), r),
        0 <= k < checks@.len(),
        call_ensures(Check::told, (&checks@[k],), one),
    ensures
        r@ is Array,
        r@->Array_0.len() == checks@.len(),
        r@->Array_0[k] == one@,
{
    let views = decode::check_views(checks@);
    assert(views[k] == checks@[k]@);
}

/// Law: an issue and its edges are told apart: what it holds, and what it
/// waits on, each edge in order by its number and title.
pub proof fn a_graph_is_told_edge_by_edge(graph: &IssueGraph, r: Json, issue: Json)
    requires
        call_ensures(IssueGraph::told, (graph,), r),
        call_ensures(Issue::told, (&graph.issue,), issue),
    ensures
        r@.get("issue"@) == Some(issue@),
        r@.get("sub_issues"@) is Some,
        r@.get("blocked_by"@) is Some,
        row_says(r@.get("sub_issues"@)->0, graph.sub_issues@),
        row_says(r@.get("blocked_by"@)->0, graph.blocked_by@),
{
    reveal_strlit("issue");
    reveal_strlit("sub_issues");
    reveal_strlit("blocked_by");
    assert("issue"@.len() != "sub_issues"@.len());
    assert("issue"@.len() != "blocked_by"@.len());
    assert("sub_issues"@[0] != "blocked_by"@[0]);
    let held = decode::edges_told(decode::edge_views(graph.sub_issues@));
    let waited = decode::edges_told(decode::edge_views(graph.blocked_by@));
    let record = JsonView::record();
    crossing::put(record, "issue"@, issue@);
    let record = record.with("issue"@, issue@);
    crossing::put(record, "sub_issues"@, held);
    let record = record.with("sub_issues"@, held);
    crossing::put(record, "blocked_by"@, waited);
    told_edges_say(graph.sub_issues@);
    told_edges_say(graph.blocked_by@);
}

/// Whether a row tells edges, one for each, in order.
pub open spec fn row_says(row: JsonView, edges: Seq<Edge>) -> bool {
    &&& row is Array
    &&& row->Array_0.len() == edges.len()
    &&& forall|k: int| 0 <= k < edges.len() ==> edge_says(#[trigger] edges[k], row->Array_0[k])
}

proof fn told_edges_say(edges: Seq<Edge>)
    ensures
        row_says(decode::edges_told(decode::edge_views(edges)), edges),
{
    reveal_strlit("number");
    reveal_strlit("title");
    reveal_strlit("state");
    reveal_strlit("open");
    reveal_strlit("OPEN");
    reveal_strlit("closed");
    reveal_strlit("CLOSED");
    assert("number"@.len() != "title"@.len());
    assert("number"@.len() != "state"@.len());
    assert("title"@[0] != "state"@[0]);
    assert("open"@[0] != "OPEN"@[0]);
    assert("open"@.len() != "closed"@.len());
    assert("open"@.len() != "CLOSED"@.len());
    assert("OPEN"@.len() != "closed"@.len());
    assert("OPEN"@.len() != "CLOSED"@.len());
    assert("closed"@[0] != "CLOSED"@[0]);
    let views = decode::edge_views(edges);
    let row = decode::edges_told(views);
    assert forall|k: int| 0 <= k < edges.len() implies edge_says(
        #[trigger] edges[k],
        row->Array_0[k],
    ) by {
        assert(views[k] == edges[k]@);
        let edge = edges[k]@;
        let record = JsonView::record();
        crossing::put(record, "number"@, JsonView::Whole(edge.number));
        let record = record.with("number"@, JsonView::Whole(edge.number));
        crossing::put(record, "title"@, JsonView::Text(edge.title));
        let record = record.with("title"@, JsonView::Text(edge.title));
        crossing::put(record, "state"@, JsonView::Text(decode::state_word(edge.state)));
    }
}

} // verus!
