//! GitHub's answers as the types Epik reads, and those types as a tool
//! hands them to a model.
//!
//! Only the fields Epik reads are modelled; everything else is absorbed.

use crate::github::{
    Branch, Check, Conclusion, Edge, Error, ErrorView, Issue, IssueGraph, Pull, State,
};
use crate::json;
use crate::json::{Json, JsonView};
use crate::text;
use vstd::prelude::*;

verus! {

// ----- the types, over sequences -----

/// An [`Issue`] over sequences.
pub struct IssueView {
    pub number: nat,
    pub title: Seq<char>,
    pub body: Seq<char>,
    pub state: State,
}

impl View for Issue {
    type V = IssueView;

    open spec fn view(&self) -> IssueView {
        IssueView {
            number: self.number as nat,
            title: self.title@,
            body: self.body@,
            state: self.state,
        }
    }
}

/// A [`Branch`] over sequences.
pub struct BranchView {
    pub name: Seq<char>,
    pub sha: Seq<char>,
}

impl View for Branch {
    type V = BranchView;

    open spec fn view(&self) -> BranchView {
        BranchView { name: self.name@, sha: self.sha@ }
    }
}

/// A [`Pull`] over sequences.
pub struct PullView {
    pub number: nat,
    pub title: Seq<char>,
    pub state: State,
    pub merged: bool,
    pub head: BranchView,
    pub base: BranchView,
}

impl View for Pull {
    type V = PullView;

    open spec fn view(&self) -> PullView {
        PullView {
            number: self.number as nat,
            title: self.title@,
            state: self.state,
            merged: self.merged,
            head: self.head@,
            base: self.base@,
        }
    }
}

/// A [`Check`] over sequences.
pub struct CheckView {
    pub name: Seq<char>,
    pub conclusion: Option<Conclusion>,
}

impl View for Check {
    type V = CheckView;

    open spec fn view(&self) -> CheckView {
        CheckView { name: self.name@, conclusion: self.conclusion }
    }
}

/// An [`Edge`] over sequences.
pub struct EdgeView {
    pub number: nat,
    pub title: Seq<char>,
    pub state: State,
}

impl View for Edge {
    type V = EdgeView;

    open spec fn view(&self) -> EdgeView {
        EdgeView { number: self.number as nat, title: self.title@, state: self.state }
    }
}

/// The views of a row of edges.
pub open spec fn edge_views(edges: Seq<Edge>) -> Seq<EdgeView> {
    edges.map_values(|edge: Edge| edge@)
}

/// The views of a row of checks.
pub open spec fn check_views(checks: Seq<Check>) -> Seq<CheckView> {
    checks.map_values(|check: Check| check@)
}

/// An [`IssueGraph`] over sequences.
pub struct IssueGraphView {
    pub issue: IssueView,
    pub sub_issues: Seq<EdgeView>,
    pub blocked_by: Seq<EdgeView>,
}

impl View for IssueGraph {
    type V = IssueGraphView;

    open spec fn view(&self) -> IssueGraphView {
        IssueGraphView {
            issue: self.issue@,
            sub_issues: edge_views(self.sub_issues@),
            blocked_by: edge_views(self.blocked_by@),
        }
    }
}

// ----- reading -----

/// The state a word names, in either spelling.
pub open spec fn state_named(word: Option<Seq<char>>) -> Option<State> {
    if word == Some("open"@) || word == Some("OPEN"@) {
        Some(State::Open)
    } else if word == Some("closed"@) || word == Some("CLOSED"@) {
        Some(State::Closed)
    } else {
        None
    }
}

/// The word of a field.
pub open spec fn word_of(part: Option<JsonView>) -> Option<Seq<char>> {
    match part {
        Some(value) => value.word(),
        None => None,
    }
}

/// The conclusion a word names: one nobody has modelled is `Other`.
pub open spec fn conclusion_named(word: Seq<char>) -> Conclusion {
    if word == "success"@ {
        Conclusion::Success
    } else if word == "failure"@ {
        Conclusion::Failure
    } else if word == "neutral"@ {
        Conclusion::Neutral
    } else if word == "cancelled"@ {
        Conclusion::Cancelled
    } else if word == "skipped"@ {
        Conclusion::Skipped
    } else if word == "stale"@ {
        Conclusion::Stale
    } else if word == "timed_out"@ {
        Conclusion::TimedOut
    } else if word == "action_required"@ {
        Conclusion::ActionRequired
    } else {
        Conclusion::Other
    }
}

/// An issue, when the value is one.
pub open spec fn issue_of(value: JsonView) -> Option<IssueView> {
    let number = json::needed_whole(value.part(0, "number"@));
    let title = json::needed_text(value.part(1, "title"@));
    let body = json::text_or_nothing(value.part(2, "body"@));
    let state = state_named(word_of(value.part(3, "state"@)));
    if value.holds(4) && number is Some && title is Some && body is Some && state is Some {
        Some(IssueView { number: number->0, title: title->0, body: body->0, state: state->0 })
    } else {
        None
    }
}

/// A branch, when the value is one.
pub open spec fn branch_of(part: Option<JsonView>) -> Option<BranchView> {
    match part {
        Some(value) => {
            let name = json::needed_text(value.part(0, "ref"@));
            let sha = json::needed_text(value.part(1, "sha"@));
            if value.holds(2) && name is Some && sha is Some {
                Some(BranchView { name: name->0, sha: sha->0 })
            } else {
                None
            }
        },
        None => None,
    }
}

/// A boolean that must be there.
pub open spec fn needed_flag(part: Option<JsonView>) -> Option<bool> {
    match part {
        Some(value) => value.boolean(),
        None => None,
    }
}

/// A pull request, when the value is one.
pub open spec fn pull_of(value: JsonView) -> Option<PullView> {
    let number = json::needed_whole(value.part(0, "number"@));
    let title = json::needed_text(value.part(1, "title"@));
    let state = state_named(word_of(value.part(2, "state"@)));
    let merged = needed_flag(value.part(3, "merged"@));
    let head = branch_of(value.part(4, "head"@));
    let base = branch_of(value.part(5, "base"@));
    if value.holds(6) && number is Some && title is Some && state is Some && merged is Some
        && head is Some && base is Some {
        Some(
            PullView {
                number: number->0,
                title: title->0,
                state: state->0,
                merged: merged->0,
                head: head->0,
                base: base->0,
            },
        )
    } else {
        None
    }
}

/// An edge, when the value is one.
pub open spec fn edge_of(value: JsonView) -> Option<EdgeView> {
    let number = json::needed_whole(value.part(0, "number"@));
    let title = json::needed_text(value.part(1, "title"@));
    let state = state_named(word_of(value.part(2, "state"@)));
    if value.holds(3) && number is Some && title is Some && state is Some {
        Some(EdgeView { number: number->0, title: title->0, state: state->0 })
    } else {
        None
    }
}

/// A row of edges, when every item is one.
pub open spec fn edges_of(items: Seq<JsonView>) -> Option<Seq<EdgeView>>
    decreases items.len(),
{
    if items.len() == 0 {
        Some(Seq::empty())
    } else {
        match (edges_of(items.drop_last()), edge_of(items.last())) {
            (Some(front), Some(edge)) => Some(front.push(edge)),
            _ => None,
        }
    }
}

/// The conclusion of a check, when the field holds one; nothing while it
/// is still running.
pub open spec fn conclusion_of(value: JsonView) -> Option<Option<Conclusion>> {
    match value.part(1, "conclusion"@) {
        // An object may leave it out; a row of fields may not.
        None => if value is Object {
            Some(None)
        } else {
            None
        },
        Some(JsonView::Null) => Some(None),
        Some(part) => match part.word() {
            Some(word) => Some(Some(conclusion_named(word))),
            None => None,
        },
    }
}

/// A check, when the value is one.
pub open spec fn check_of(value: JsonView) -> Option<CheckView> {
    let name = json::needed_text(value.part(0, "name"@));
    let conclusion = conclusion_of(value);
    if value.holds(2) && name is Some && conclusion is Some {
        Some(CheckView { name: name->0, conclusion: conclusion->0 })
    } else {
        None
    }
}

/// A row of checks, when every item is one.
pub open spec fn checks_of(items: Seq<JsonView>) -> Option<Seq<CheckView>>
    decreases items.len(),
{
    if items.len() == 0 {
        Some(Seq::empty())
    } else {
        match (checks_of(items.drop_last()), check_of(items.last())) {
            (Some(front), Some(check)) => Some(front.push(check)),
            _ => None,
        }
    }
}

/// The one field of a record of one.
pub open spec fn only(value: JsonView, key: Seq<char>) -> Option<JsonView> {
    if value.holds(1) {
        value.part(0, key)
    } else {
        None
    }
}

/// The items of a field that is an array.
pub open spec fn items_of(part: Option<JsonView>) -> Option<Seq<JsonView>> {
    match part {
        Some(JsonView::Array(items)) => Some(items),
        _ => None,
    }
}

/// The check runs of an answer, when it has them.
pub open spec fn check_runs_of(value: JsonView) -> Option<Seq<CheckView>> {
    match items_of(only(value, "check_runs"@)) {
        Some(items) => checks_of(items),
        None => None,
    }
}

/// The default branch of an answer, when it has one.
pub open spec fn default_branch_of(value: JsonView) -> Option<Seq<char>> {
    json::needed_text(only(value, "default_branch"@))
}

/// The edges of a connection.
pub open spec fn connection_of(part: Option<JsonView>) -> Option<Seq<EdgeView>> {
    match part {
        Some(value) => match items_of(only(value, "nodes"@)) {
            Some(items) => edges_of(items),
            None => None,
        },
        None => None,
    }
}

/// The issue a GraphQL answer's data is about.
pub open spec fn issue_part(data: JsonView) -> Option<JsonView> {
    match only(data, "repository"@) {
        Some(repository) => only(repository, "issue"@),
        None => None,
    }
}

/// An issue and its edges, when the data holds them.
pub open spec fn graph_of(data: JsonView) -> Option<IssueGraphView> {
    match issue_part(data) {
        None => None,
        Some(value) => {
            let number = json::needed_whole(value.part(0, "number"@));
            let title = json::needed_text(value.part(1, "title"@));
            let state = state_named(word_of(value.part(2, "state"@)));
            let body = json::text_or_nothing(value.part(3, "body"@));
            let sub_issues = connection_of(value.part(4, "subIssues"@));
            let blocked_by = connection_of(value.part(5, "blockedBy"@));
            if value.holds(6) && number is Some && title is Some && state is Some && body is Some
                && sub_issues is Some && blocked_by is Some {
                Some(
                    IssueGraphView {
                        issue: IssueView {
                            number: number->0,
                            title: title->0,
                            body: body->0,
                            state: state->0,
                        },
                        sub_issues: sub_issues->0,
                        blocked_by: blocked_by->0,
                    },
                )
            } else {
                None
            }
        },
    }
}

/// The node id the data holds.
pub open spec fn node_id_of(data: JsonView) -> Option<Seq<char>> {
    match issue_part(data) {
        Some(issue) => json::needed_text(only(issue, "id"@)),
        None => None,
    }
}

/// The words for an answer of another shape.
pub open spec fn undecoded(what: Seq<char>) -> ErrorView {
    ErrorView::Wire("decoding "@ + what + ": its fields are not those expected"@)
}

/// The error for an answer of another shape.
pub fn misshapen(what: &str) -> (r: Error)
    ensures
        r@ == undecoded(what@),
{
    Error::Wire(text::cat3("decoding ", what, ": its fields are not those expected"))
}

fn read_state(part: Option<&Json>) -> (r: Option<State>)
    ensures
        r == state_named(word_of(json::part_view(part))),
{
    let word = match part {
        Some(value) => value.word(),
        None => None,
    };
    match word {
        Some(word) => if text::same(word.as_str(), "open") || text::same(word.as_str(), "OPEN") {
            Some(State::Open)
        } else if text::same(word.as_str(), "closed") || text::same(word.as_str(), "CLOSED") {
            Some(State::Closed)
        } else {
            None
        },
        None => None,
    }
}

fn read_conclusion_word(word: &str) -> (r: Conclusion)
    ensures
        r == conclusion_named(word@),
{
    if text::same(word, "success") {
        Conclusion::Success
    } else if text::same(word, "failure") {
        Conclusion::Failure
    } else if text::same(word, "neutral") {
        Conclusion::Neutral
    } else if text::same(word, "cancelled") {
        Conclusion::Cancelled
    } else if text::same(word, "skipped") {
        Conclusion::Skipped
    } else if text::same(word, "stale") {
        Conclusion::Stale
    } else if text::same(word, "timed_out") {
        Conclusion::TimedOut
    } else if text::same(word, "action_required") {
        Conclusion::ActionRequired
    } else {
        Conclusion::Other
    }
}

impl Issue {
    /// An issue, when the value is one.
    pub fn read(value: &Json) -> (r: Option<Issue>)
        ensures
            match r {
                Some(issue) => issue_of(value@) == Some(issue@),
                None => issue_of(value@) is None,
            },
    {
        if !value.holds(4) {
            return None;
        }
        match (
            json::read_whole(value.part(0, "number")),
            json::read_text(value.part(1, "title")),
            json::read_text_or_nothing(value.part(2, "body")),
            read_state(value.part(3, "state")),
        ) {
            (Some(number), Some(title), Some(body), Some(state)) => Some(
                Issue { number, title, body, state },
            ),
            _ => None,
        }
    }

    /// An issue out of an answer.
    ///
    /// # Errors
    ///
    /// [`Error::Wire`] for an answer that is no issue.
    pub fn decode(what: &str, value: &Json) -> (r: Result<Issue, Error>)
        ensures
            match r {
                Ok(issue) => issue_of(value@) == Some(issue@),
                Err(error) => issue_of(value@) is None && error@ == undecoded(what@),
            },
    {
        match Issue::read(value) {
            Some(issue) => Ok(issue),
            None => Err(misshapen(what)),
        }
    }
}

fn read_branch(part: Option<&Json>) -> (r: Option<Branch>)
    ensures
        match r {
            Some(branch) => branch_of(json::part_view(part)) == Some(branch@),
            None => branch_of(json::part_view(part)) is None,
        },
{
    match part {
        Some(value) => {
            if !value.holds(2) {
                return None;
            }
            match (
                json::read_text(value.part(0, "ref")),
                json::read_text(value.part(1, "sha")),
            ) {
                (Some(name), Some(sha)) => Some(Branch { name, sha }),
                _ => None,
            }
        },
        None => None,
    }
}

impl Pull {
    /// A pull request out of an answer.
    ///
    /// # Errors
    ///
    /// [`Error::Wire`] for an answer that is no pull request.
    pub fn decode(what: &str, value: &Json) -> (r: Result<Pull, Error>)
        ensures
            match r {
                Ok(pull) => pull_of(value@) == Some(pull@),
                Err(error) => pull_of(value@) is None && error@ == undecoded(what@),
            },
    {
        if !value.holds(6) {
            return Err(misshapen(what));
        }
        let merged = match value.part(3, "merged") {
            Some(part) => part.boolean(),
            None => None,
        };
        match (
            json::read_whole(value.part(0, "number")),
            json::read_text(value.part(1, "title")),
            read_state(value.part(2, "state")),
            merged,
            read_branch(value.part(4, "head")),
            read_branch(value.part(5, "base")),
        ) {
            (
                Some(number),
                Some(title),
                Some(state),
                Some(merged),
                Some(head),
                Some(base),
            ) => Ok(Pull { number, title, state, merged, head, base }),
            _ => Err(misshapen(what)),
        }
    }
}

impl Check {
    /// A check, when the value is one.
    pub fn read(value: &Json) -> (r: Option<Check>)
        ensures
            match r {
                Some(check) => check_of(value@) == Some(check@),
                None => check_of(value@) is None,
            },
    {
        if !value.holds(2) {
            return None;
        }
        let name = match json::read_text(value.part(0, "name")) {
            Some(name) => name,
            None => return None,
        };
        match value.part(1, "conclusion") {
            None => match value {
                Json::Object(_) => Some(Check { name, conclusion: None }),
                _ => None,
            },
            Some(part) => if part.is_null() {
                Some(Check { name, conclusion: None })
            } else {
                match part.word() {
                    Some(word) => Some(
                        Check { name, conclusion: Some(read_conclusion_word(word.as_str())) },
                    ),
                    None => None,
                }
            },
        }
    }
}

/// A longer row is not all checks where a shorter one is not.
proof fn checks_to_the_end(items: Seq<JsonView>, i: int)
    requires
        0 <= i <= items.len(),
        checks_of(items.take(i)) is None,
    ensures
        checks_of(items) is None,
    decreases items.len() - i,
{
    if i == items.len() {
        assert(items.take(i) =~= items);
    } else {
        assert(items.take(i + 1).drop_last() =~= items.take(i));
        checks_to_the_end(items, i + 1);
    }
}

fn read_checks(items: &Vec<Json>) -> (r: Option<Vec<Check>>)
    ensures
        match r {
            Some(checks) => checks_of(json::items_view(items@)) == Some(check_views(checks@)),
            None => checks_of(json::items_view(items@)) is None,
        },
{
    let ghost view = json::items_view(items@);
    proof {
        json::item_views(items@);
    }
    let mut checks: Vec<Check> = Vec::new();
    let mut i: usize = 0;
    proof {
        assert(check_views(checks@) =~= Seq::empty());
    }
    while i < items.len()
        invariant
            i <= items@.len() == view.len(),
            view == json::items_view(items@),
            forall|k: int| 0 <= k < items@.len() ==> #[trigger] view[k] == items@[k]@,
            checks_of(view.take(i as int)) == Some(check_views(checks@)),
        decreases items@.len() - i,
    {
        proof {
            assert(view.take(i + 1).drop_last() =~= view.take(i as int));
            assert(view.take(i + 1).last() == view[i as int]);
        }
        match Check::read(&items[i]) {
            Some(check) => {
                let ghost before = check_views(checks@);
                let ghost shown = check@;
                checks.push(check);
                proof {
                    assert(check_views(checks@) =~= before.push(shown));
                }
            },
            None => {
                proof {
                    checks_to_the_end(view, i + 1);
                }
                return None;
            },
        }
        i = i + 1;
    }
    proof {
        assert(view.take(i as int) =~= view);
    }
    Some(checks)
}

/// The check runs out of an answer.
///
/// # Errors
///
/// [`Error::Wire`] for an answer that has none.
pub fn check_runs(what: &str, value: &Json) -> (r: Result<Vec<Check>, Error>)
    ensures
        match r {
            Ok(checks) => check_runs_of(value@) == Some(check_views(checks@)),
            Err(error) => check_runs_of(value@) is None && error@ == undecoded(what@),
        },
{
    if !value.holds(1) {
        return Err(misshapen(what));
    }
    match value.part(0, "check_runs") {
        Some(Json::Array(items)) => match read_checks(items) {
            Some(checks) => Ok(checks),
            None => Err(misshapen(what)),
        },
        _ => Err(misshapen(what)),
    }
}

/// The default branch out of an answer.
///
/// # Errors
///
/// [`Error::Wire`] for an answer that names none.
pub fn default_branch(what: &str, value: &Json) -> (r: Result<String, Error>)
    ensures
        match r {
            Ok(branch) => default_branch_of(value@) == Some(branch@),
            Err(error) => default_branch_of(value@) is None && error@ == undecoded(what@),
        },
{
    if !value.holds(1) {
        return Err(misshapen(what));
    }
    match json::read_text(value.part(0, "default_branch")) {
        Some(branch) => Ok(branch),
        None => Err(misshapen(what)),
    }
}

fn read_edge(value: &Json) -> (r: Option<Edge>)
    ensures
        match r {
            Some(edge) => edge_of(value@) == Some(edge@),
            None => edge_of(value@) is None,
        },
{
    if !value.holds(3) {
        return None;
    }
    match (
        json::read_whole(value.part(0, "number")),
        json::read_text(value.part(1, "title")),
        read_state(value.part(2, "state")),
    ) {
        (Some(number), Some(title), Some(state)) => Some(Edge { number, title, state }),
        _ => None,
    }
}

/// A longer row is not all edges where a shorter one is not.
proof fn edges_to_the_end(items: Seq<JsonView>, i: int)
    requires
        0 <= i <= items.len(),
        edges_of(items.take(i)) is None,
    ensures
        edges_of(items) is None,
    decreases items.len() - i,
{
    if i == items.len() {
        assert(items.take(i) =~= items);
    } else {
        assert(items.take(i + 1).drop_last() =~= items.take(i));
        edges_to_the_end(items, i + 1);
    }
}

fn read_edges(items: &Vec<Json>) -> (r: Option<Vec<Edge>>)
    ensures
        match r {
            Some(edges) => edges_of(json::items_view(items@)) == Some(edge_views(edges@)),
            None => edges_of(json::items_view(items@)) is None,
        },
{
    let ghost view = json::items_view(items@);
    proof {
        json::item_views(items@);
    }
    let mut edges: Vec<Edge> = Vec::new();
    let mut i: usize = 0;
    proof {
        assert(edge_views(edges@) =~= Seq::empty());
    }
    while i < items.len()
        invariant
            i <= items@.len() == view.len(),
            view == json::items_view(items@),
            forall|k: int| 0 <= k < items@.len() ==> #[trigger] view[k] == items@[k]@,
            edges_of(view.take(i as int)) == Some(edge_views(edges@)),
        decreases items@.len() - i,
    {
        proof {
            assert(view.take(i + 1).drop_last() =~= view.take(i as int));
            assert(view.take(i + 1).last() == view[i as int]);
        }
        match read_edge(&items[i]) {
            Some(edge) => {
                let ghost before = edge_views(edges@);
                let ghost shown = edge@;
                edges.push(edge);
                proof {
                    assert(edge_views(edges@) =~= before.push(shown));
                }
            },
            None => {
                proof {
                    edges_to_the_end(view, i + 1);
                }
                return None;
            },
        }
        i = i + 1;
    }
    proof {
        assert(view.take(i as int) =~= view);
    }
    Some(edges)
}

fn read_connection(part: Option<&Json>) -> (r: Option<Vec<Edge>>)
    ensures
        match r {
            Some(edges) => connection_of(json::part_view(part)) == Some(edge_views(edges@)),
            None => connection_of(json::part_view(part)) is None,
        },
{
    match part {
        Some(value) => {
            if !value.holds(1) {
                return None;
            }
            match value.part(0, "nodes") {
                Some(Json::Array(items)) => read_edges(items),
                _ => None,
            }
        },
        None => None,
    }
}

fn read_issue_part(data: &Json) -> (r: Option<&Json>)
    ensures
        json::part_view(r) == issue_part(data@),
{
    if !data.holds(1) {
        return None;
    }
    match data.part(0, "repository") {
        Some(repository) => if repository.holds(1) {
            repository.part(0, "issue")
        } else {
            None
        },
        None => None,
    }
}

/// Decodes the graph query's `data` into the type the scheduler folds over.
///
/// # Errors
///
/// [`Error::Wire`] for data that is no issue with its edges.
pub fn graph(data: &Json) -> (r: Result<IssueGraph, Error>)
    ensures
        match r {
            Ok(graph) => graph_of(data@) == Some(graph@),
            Err(error) => graph_of(data@) is None && error@ == undecoded("the issue graph"@),
        },
{
    let value: &Json = match read_issue_part(data) {
        Some(value) => value,
        None => return Err(misshapen("the issue graph")),
    };
    if !value.holds(6) {
        return Err(misshapen("the issue graph"));
    }
    match (
        json::read_whole(value.part(0, "number")),
        json::read_text(value.part(1, "title")),
        read_state(value.part(2, "state")),
        json::read_text_or_nothing(value.part(3, "body")),
        read_connection(value.part(4, "subIssues")),
        read_connection(value.part(5, "blockedBy")),
    ) {
        (
            Some(number),
            Some(title),
            Some(state),
            Some(body),
            Some(sub_issues),
            Some(blocked_by),
        ) => Ok(
            IssueGraph { issue: Issue { number, title, body, state }, sub_issues, blocked_by },
        ),
        _ => Err(misshapen("the issue graph")),
    }
}

/// The node id out of the id query's `data`.
///
/// # Errors
///
/// [`Error::Wire`] for data that holds none.
pub fn issue_id(data: &Json) -> (r: Result<String, Error>)
    ensures
        match r {
            Ok(id) => node_id_of(data@) == Some(id@),
            Err(error) => node_id_of(data@) is None && error@ == undecoded("the issue id"@),
        },
{
    match read_issue_part(data) {
        Some(issue) => {
            if !issue.holds(1) {
                return Err(misshapen("the issue id"));
            }
            match json::read_text(issue.part(0, "id")) {
                Some(id) => Ok(id),
                None => Err(misshapen("the issue id")),
            }
        },
        None => Err(misshapen("the issue id")),
    }
}

/// One complaint of a GraphQL reply: its type and its message.
pub open spec fn complaint_of(value: JsonView) -> Option<(Seq<char>, Seq<char>)> {
    let kind = json::text_or_empty(value.part(0, "type"@));
    let message = json::needed_text(value.part(1, "message"@));
    if value.holds(2) && kind is Some && message is Some {
        Some((kind->0, message->0))
    } else {
        None
    }
}

/// The complaints of a row, when every item is one: their types and their
/// messages.
pub open spec fn complaints_of(items: Seq<JsonView>) -> Option<(Seq<Seq<char>>, Seq<Seq<char>>)>
    decreases items.len(),
{
    if items.len() == 0 {
        Some((Seq::empty(), Seq::empty()))
    } else {
        match (complaints_of(items.drop_last()), complaint_of(items.last())) {
            (Some((kinds, messages)), Some((kind, message))) => Some(
                (kinds.push(kind), messages.push(message)),
            ),
            _ => None,
        }
    }
}

/// The data and the complaints of a GraphQL reply, when the value is one.
pub open spec fn reply_of(value: JsonView) -> Option<
    (JsonView, (Seq<Seq<char>>, Seq<Seq<char>>)),
> {
    let data = match value.part(0, "data"@) {
        Some(data) => data,
        None => JsonView::Null,
    };
    let complaints = match value.part(1, "errors"@) {
        None => Some((Seq::empty(), Seq::empty())),
        Some(JsonView::Array(items)) => complaints_of(items),
        Some(_) => None,
    };
    if value.holds(2) && complaints is Some {
        Some((data, complaints->0))
    } else {
        None
    }
}

/// What a GraphQL reply comes to: its `data`, or the typed refusal its
/// `errors` amount to. GraphQL reports failure in-band — HTTP 200 with an
/// `errors` array — and `RATE_LIMITED` is in-band too, not a status code.
pub open spec fn data_of(value: JsonView) -> Result<JsonView, ErrorView> {
    match reply_of(value) {
        None => Err(undecoded("the GraphQL reply"@)),
        Some((data, (kinds, messages))) => if messages.len() == 0 {
            Ok(data)
        } else if kinds.contains("RATE_LIMITED"@) {
            Err(ErrorView::RateLimited(text::join(messages, "; "@)))
        } else {
            Err(ErrorView::Refused { status: 200, message: text::join(messages, "; "@) })
        },
    }
}

/// A longer row is not all complaints where a shorter one is not.
proof fn complaints_to_the_end(items: Seq<JsonView>, i: int)
    requires
        0 <= i <= items.len(),
        complaints_of(items.take(i)) is None,
    ensures
        complaints_of(items) is None,
    decreases items.len() - i,
{
    if i == items.len() {
        assert(items.take(i) =~= items);
    } else {
        assert(items.take(i + 1).drop_last() =~= items.take(i));
        complaints_to_the_end(items, i + 1);
    }
}

fn read_complaints(items: &Vec<Json>) -> (r: Option<(Vec<String>, Vec<String>)>)
    ensures
        match r {
            Some((kinds, messages)) => complaints_of(json::items_view(items@)) == Some(
                (text::views(kinds@), text::views(messages@)),
            ),
            None => complaints_of(json::items_view(items@)) is None,
        },
{
    let ghost view = json::items_view(items@);
    proof {
        json::item_views(items@);
    }
    let mut kinds: Vec<String> = Vec::new();
    let mut messages: Vec<String> = Vec::new();
    let mut i: usize = 0;
    proof {
        assert(text::views(kinds@) =~= Seq::empty());
        assert(text::views(messages@) =~= Seq::empty());
    }
    while i < items.len()
        invariant
            i <= items@.len() == view.len(),
            view == json::items_view(items@),
            forall|k: int| 0 <= k < items@.len() ==> #[trigger] view[k] == items@[k]@,
            complaints_of(view.take(i as int)) == Some(
                (text::views(kinds@), text::views(messages@)),
            ),
        decreases items@.len() - i,
    {
        proof {
            assert(view.take(i + 1).drop_last() =~= view.take(i as int));
            assert(view.take(i + 1).last() == view[i as int]);
        }
        let item: &Json = &items[i];
        let held = item.holds(2);
        match (
            json::read_text_or_empty(item.part(0, "type")),
            json::read_text(item.part(1, "message")),
        ) {
            (Some(kind), Some(message)) if held => {
                let ghost before = (text::views(kinds@), text::views(messages@));
                let ghost shown = (kind@, message@);
                kinds.push(kind);
                messages.push(message);
                proof {
                    assert(text::views(kinds@) =~= before.0.push(shown.0));
                    assert(text::views(messages@) =~= before.1.push(shown.1));
                }
            },
            _ => {
                proof {
                    complaints_to_the_end(view, i + 1);
                }
                return None;
            },
        }
        i = i + 1;
    }
    proof {
        assert(view.take(i as int) =~= view);
    }
    Some((kinds, messages))
}

fn is_among(words: &Vec<String>, word: &str) -> (r: bool)
    ensures
        r == text::views(words@).contains(word@),
{
    let mut i: usize = 0;
    while i < words.len()
        invariant
            i <= words@.len(),
            forall|k: int| 0 <= k < i ==> (#[trigger] words@[k])@ != word@,
        decreases words@.len() - i,
    {
        if text::same(words[i].as_str(), word) {
            proof {
                assert(text::views(words@)[i as int] == word@);
            }
            return true;
        }
        i = i + 1;
    }
    proof {
        assert forall|k: int| 0 <= k < text::views(words@).len() implies text::views(words@)[k]
            != word@ by {
            assert(words@[k]@ != word@);
        }
    }
    false
}

/// Settles a GraphQL reply into its `data`, or into the typed refusal its
/// `errors` array amounts to. `RATE_LIMITED` is in-band here, not a status
/// code, which is why the classification cannot live with the REST one.
///
/// # Errors
///
/// The refusal, and [`Error::Wire`] for a value that is no reply.
pub fn graphql_data(reply: &Json) -> (r: Result<Json, Error>)
    ensures
        match r {
            Ok(data) => data_of(reply@) == Ok::<JsonView, ErrorView>(data@),
            Err(error) => data_of(reply@) == Err::<JsonView, ErrorView>(error@),
        },
{
    if !reply.holds(2) {
        return Err(misshapen("the GraphQL reply"));
    }
    let complaints = match reply.part(1, "errors") {
        None => {
            let kinds: Vec<String> = Vec::new();
            let messages: Vec<String> = Vec::new();
            proof {
                assert(text::views(kinds@) =~= Seq::empty());
                assert(text::views(messages@) =~= Seq::empty());
            }
            Some((kinds, messages))
        },
        Some(Json::Array(items)) => read_complaints(items),
        Some(_) => None,
    };
    match complaints {
        None => Err(misshapen("the GraphQL reply")),
        Some((kinds, messages)) => {
            proof {
                assert(text::views(messages@).len() == messages@.len());
            }
            if messages.len() == 0 {
                return match reply.part(0, "data") {
                    Some(data) => Ok(data.clone()),
                    None => Ok(Json::Null),
                };
            }
            let joined = text::joined(&messages, "; ");
            if is_among(&kinds, "RATE_LIMITED") {
                Err(Error::RateLimited(joined))
            } else {
                Err(Error::Refused { status: 200, message: joined })
            }
        },
    }
}

// ----- telling -----

/// How a state is told to a model.
pub open spec fn state_word(state: State) -> Seq<char> {
    match state {
        State::Open => "open"@,
        State::Closed => "closed"@,
    }
}

fn state_told(state: State) -> (r: Json)
    ensures
        r@ == JsonView::Text(state_word(state)),
{
    match state {
        State::Open => Json::string("open"),
        State::Closed => Json::string("closed"),
    }
}

/// How a conclusion is told to a model.
pub open spec fn conclusion_word(conclusion: Conclusion) -> Seq<char> {
    match conclusion {
        Conclusion::Success => "success"@,
        Conclusion::Failure => "failure"@,
        Conclusion::Neutral => "neutral"@,
        Conclusion::Cancelled => "cancelled"@,
        Conclusion::Skipped => "skipped"@,
        Conclusion::Stale => "stale"@,
        Conclusion::TimedOut => "timed_out"@,
        Conclusion::ActionRequired => "action_required"@,
        Conclusion::Other => "other"@,
    }
}

/// An issue, told to a model.
pub open spec fn issue_told(issue: IssueView) -> JsonView {
    JsonView::record().with("number"@, JsonView::Whole(issue.number)).with(
        "title"@,
        JsonView::Text(issue.title),
    ).with("body"@, JsonView::Text(issue.body)).with(
        "state"@,
        JsonView::Text(state_word(issue.state)),
    )
}

impl Issue {
    /// The issue, told to a model.
    pub fn told(&self) -> (r: Json)
        ensures
            r@ == issue_told(self@),
    {
        Json::record().with("number", Json::Whole(self.number)).with(
            "title",
            Json::string(self.title.as_str()),
        ).with("body", Json::string(self.body.as_str())).with("state", state_told(self.state))
    }
}

/// A branch, told to a model.
pub open spec fn branch_told(branch: BranchView) -> JsonView {
    JsonView::record().with("ref"@, JsonView::Text(branch.name)).with(
        "sha"@,
        JsonView::Text(branch.sha),
    )
}

/// A pull request, told to a model.
pub open spec fn pull_told(pull: PullView) -> JsonView {
    JsonView::record().with("number"@, JsonView::Whole(pull.number)).with(
        "title"@,
        JsonView::Text(pull.title),
    ).with("state"@, JsonView::Text(state_word(pull.state))).with(
        "merged"@,
        JsonView::Bool(pull.merged),
    ).with("head"@, branch_told(pull.head)).with("base"@, branch_told(pull.base))
}

impl Pull {
    /// The pull request, told to a model.
    pub fn told(&self) -> (r: Json)
        ensures
            r@ == pull_told(self@),
    {
        Json::record().with("number", Json::Whole(self.number)).with(
            "title",
            Json::string(self.title.as_str()),
        ).with("state", state_told(self.state)).with("merged", Json::Bool(self.merged)).with(
            "head",
            Json::record().with("ref", Json::string(self.head.name.as_str())).with(
                "sha",
                Json::string(self.head.sha.as_str()),
            ),
        ).with(
            "base",
            Json::record().with("ref", Json::string(self.base.name.as_str())).with(
                "sha",
                Json::string(self.base.sha.as_str()),
            ),
        )
    }
}

/// A check, told to a model.
pub open spec fn check_told(check: CheckView) -> JsonView {
    JsonView::record().with("name"@, JsonView::Text(check.name)).with(
        "conclusion"@,
        match check.conclusion {
            Some(conclusion) => JsonView::Text(conclusion_word(conclusion)),
            None => JsonView::Null,
        },
    )
}

impl Check {
    /// The check, told to a model.
    pub fn told(&self) -> (r: Json)
        ensures
            r@ == check_told(self@),
    {
        let conclusion = match self.conclusion {
            Some(conclusion) => Json::string(
                match conclusion {
                    Conclusion::Success => "success",
                    Conclusion::Failure => "failure",
                    Conclusion::Neutral => "neutral",
                    Conclusion::Cancelled => "cancelled",
                    Conclusion::Skipped => "skipped",
                    Conclusion::Stale => "stale",
                    Conclusion::TimedOut => "timed_out",
                    Conclusion::ActionRequired => "action_required",
                    Conclusion::Other => "other",
                },
            ),
            None => Json::Null,
        };
        Json::record().with("name", Json::string(self.name.as_str())).with(
            "conclusion",
            conclusion,
        )
    }
}

/// An edge, told to a model.
pub open spec fn edge_told(edge: EdgeView) -> JsonView {
    JsonView::record().with("number"@, JsonView::Whole(edge.number)).with(
        "title"@,
        JsonView::Text(edge.title),
    ).with("state"@, JsonView::Text(state_word(edge.state)))
}

/// A row of edges, told to a model.
pub open spec fn edges_told(edges: Seq<EdgeView>) -> JsonView {
    JsonView::Array(edges.map_values(|edge: EdgeView| edge_told(edge)))
}

fn tell_edges(edges: &Vec<Edge>) -> (r: Json)
    ensures
        r@ == edges_told(edge_views(edges@)),
{
    let ghost shown = edge_views(edges@).map_values(|edge: EdgeView| edge_told(edge));
    let mut items: Vec<Json> = Vec::new();
    let mut i: usize = 0;
    while i < edges.len()
        invariant
            i <= edges@.len() == shown.len(),
            items@.len() == i,
            forall|k: int| 0 <= k < edges@.len() ==> #[trigger] shown[k] == edge_told(edges@[k]@),
            forall|k: int| 0 <= k < i ==> (#[trigger] items@[k])@ == shown[k],
        decreases edges@.len() - i,
    {
        let edge: &Edge = &edges[i];
        items.push(
            Json::record().with("number", Json::Whole(edge.number)).with(
                "title",
                Json::string(edge.title.as_str()),
            ).with("state", state_told(edge.state)),
        );
        i = i + 1;
    }
    proof {
        json::item_views(items@);
        assert(json::items_view(items@) =~= shown);
    }
    Json::Array(items)
}

/// A row of checks, told to a model.
pub open spec fn checks_told(checks: Seq<CheckView>) -> JsonView {
    JsonView::Array(checks.map_values(|check: CheckView| check_told(check)))
}

/// A row of checks, told to a model.
pub fn tell_checks(checks: &Vec<Check>) -> (r: Json)
    ensures
        r@ == checks_told(check_views(checks@)),
{
    let ghost shown = check_views(checks@).map_values(|check: CheckView| check_told(check));
    let mut items: Vec<Json> = Vec::new();
    let mut i: usize = 0;
    while i < checks.len()
        invariant
            i <= checks@.len() == shown.len(),
            items@.len() == i,
            forall|k: int| 0 <= k < checks@.len() ==> #[trigger] shown[k] == check_told(checks@[k]@),
            forall|k: int| 0 <= k < i ==> (#[trigger] items@[k])@ == shown[k],
        decreases checks@.len() - i,
    {
        items.push(checks[i].told());
        i = i + 1;
    }
    proof {
        json::item_views(items@);
        assert(json::items_view(items@) =~= shown);
    }
    Json::Array(items)
}

/// An issue and its edges, told to a model.
pub open spec fn graph_told(graph: IssueGraphView) -> JsonView {
    JsonView::record().with("issue"@, issue_told(graph.issue)).with(
        "sub_issues"@,
        edges_told(graph.sub_issues),
    ).with("blocked_by"@, edges_told(graph.blocked_by))
}

impl IssueGraph {
    /// The issue and its edges, told to a model.
    pub fn told(&self) -> (r: Json)
        ensures
            r@ == graph_told(self@),
    {
        Json::record().with("issue", self.issue.told()).with(
            "sub_issues",
            tell_edges(&self.sub_issues),
        ).with("blocked_by", tell_edges(&self.blocked_by))
    }
}

/// What is told to a model is read back as it was: an issue survives the
/// crossing.
pub proof fn a_told_issue_reads_back(issue: IssueView)
    ensures
        issue_of(issue_told(issue)) == Some(issue),
{
    reveal_strlit("number");
    reveal_strlit("title");
    reveal_strlit("body");
    reveal_strlit("state");
    reveal_strlit("open");
    reveal_strlit("OPEN");
    reveal_strlit("closed");
    reveal_strlit("CLOSED");
    assert("number"@.len() == 6);
    assert("title"@.len() == 5);
    assert("body"@.len() == 4);
    assert("state"@[0] != "title"@[0]);
    assert("closed"@.len() != "open"@.len());
    assert("closed"@.len() != "OPEN"@.len());
    let members = issue_told(issue)->Object_0;
    assert(members.len() == 4);
    assert(members.skip(1).skip(1) =~= members.skip(2));
    assert(members.skip(2).skip(1) =~= members.skip(3));
    assert(json::member(members, "number"@) == Some(members[0].1));
    assert(json::member(members.skip(1), "title"@) == Some(members[1].1));
    assert(json::member(members.skip(2), "body"@) == Some(members[2].1));
    assert(json::member(members.skip(3), "state"@) == Some(members[3].1));
    assert(json::member(members.skip(1), "body"@) == json::member(members.skip(2), "body"@));
    assert(json::member(members.skip(1), "state"@) == json::member(members.skip(2), "state"@));
    assert(json::member(members.skip(2), "state"@) == json::member(members.skip(3), "state"@));
}

} // verus!
