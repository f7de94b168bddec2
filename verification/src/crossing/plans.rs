//! A plan as it crosses: its issues, the edges between them and the tree
//! they stand in.

use crate::crossing;
use crate::feature::{Blocking, Issue, IssueId, Plan, PlanView, Problem};
use crate::json;
use crate::json::spelling;
use crate::json::{Json, JsonView};
use crate::tree;
use crate::tree::{Tree, TreeView};
use vstd::prelude::*;

verus! {

/// An issue of a plan, as JSON.
pub open spec fn told_issue(issue: Issue) -> JsonView {
    JsonView::record().with("id"@, JsonView::Text(issue.id@)).with(
        "title"@,
        JsonView::Text(issue.title@),
    ).with("closed"@, JsonView::Bool(issue.closed))
}

/// A tree of a plan, as JSON.
pub open spec fn told_tree(node: TreeView<Issue>) -> JsonView
    decreases node, 1nat,
{
    JsonView::record().with("value"@, told_issue(node.value)).with(
        "children"@,
        JsonView::Array(told_trees(node.children)),
    )
}

/// A row of trees, as JSON.
pub open spec fn told_trees(trees: Seq<TreeView<Issue>>) -> Seq<JsonView>
    decreases trees, 0nat,
{
    if trees.len() == 0 {
        Seq::empty()
    } else {
        told_trees(trees.drop_last()).push(told_tree(trees.last()))
    }
}

/// An edge of a plan, as JSON.
pub open spec fn told_blocking(edge: Blocking) -> JsonView {
    JsonView::record().with("issue"@, JsonView::Text(edge.issue@)).with(
        "blocker"@,
        JsonView::Text(edge.blocker@),
    )
}

/// A row of issues of a plan, as JSON.
pub open spec fn told_issues(issues: Seq<Issue>) -> JsonView {
    JsonView::Array(issues.map_values(|issue: Issue| told_issue(issue)))
}

/// The edges of a plan, as JSON.
pub open spec fn told_edges(edges: Seq<Blocking>) -> JsonView {
    JsonView::Array(edges.map_values(|edge: Blocking| told_blocking(edge)))
}

/// A plan, as JSON.
pub open spec fn told_plan(plan: PlanView) -> JsonView {
    JsonView::record().with("tree"@, told_tree(plan.tree)).with(
        "blocking"@,
        told_edges(plan.blocking),
    ).with("outside"@, told_issues(plan.outside))
}

// ----- what a plan says -----

/// What an issue of a plan says.
pub struct PlannedView {
    pub id: Seq<char>,
    pub title: Seq<char>,
    pub closed: bool,
}

/// What an issue of a plan says.
pub open spec fn issue_said(issue: Issue) -> PlannedView {
    PlannedView { id: issue.id@, title: issue.title@, closed: issue.closed }
}

/// What an edge of a plan says.
pub struct BlockingView {
    pub issue: Seq<char>,
    pub blocker: Seq<char>,
}

/// What an edge of a plan says.
pub open spec fn blocking_said(edge: Blocking) -> BlockingView {
    BlockingView { issue: edge.issue@, blocker: edge.blocker@ }
}

/// What a tree of a plan says.
pub open spec fn tree_said(node: TreeView<Issue>) -> TreeView<PlannedView>
    decreases node, 1nat,
{
    TreeView { value: issue_said(node.value), children: trees_said(node.children) }
}

/// What a row of trees says.
pub open spec fn trees_said(trees: Seq<TreeView<Issue>>) -> Seq<TreeView<PlannedView>>
    decreases trees, 0nat,
{
    if trees.len() == 0 {
        Seq::empty()
    } else {
        trees_said(trees.drop_last()).push(tree_said(trees.last()))
    }
}

/// What a plan says.
pub struct PlanSaid {
    pub tree: TreeView<PlannedView>,
    pub blocking: Seq<BlockingView>,
    pub outside: Seq<PlannedView>,
}

/// What a plan says.
pub open spec fn plan_said(plan: PlanView) -> PlanSaid {
    PlanSaid {
        tree: tree_said(plan.tree),
        blocking: plan.blocking.map_values(|edge: Blocking| blocking_said(edge)),
        outside: plan.outside.map_values(|issue: Issue| issue_said(issue)),
    }
}

// ----- out of JSON -----

/// Every item of a row, read the same way, when each can be.
pub open spec fn all_of<T>(items: Seq<JsonView>, read: spec_fn(JsonView) -> Option<T>) -> Option<
    Seq<T>,
>
    decreases items.len(),
{
    if items.len() == 0 {
        Some(Seq::empty())
    } else {
        match (all_of(items.drop_last(), read), read(items.last())) {
            (Some(front), Some(last)) => Some(front.push(last)),
            _ => None,
        }
    }
}

/// A row that must be there, each item of it read the same way.
pub open spec fn needed_all<T>(
    part: Option<JsonView>,
    read: spec_fn(JsonView) -> Option<T>,
) -> Option<Seq<T>> {
    match part {
        Some(JsonView::Array(items)) => all_of(items, read),
        _ => None,
    }
}

/// An issue of a plan out of JSON, when the value is one.
pub open spec fn issue_of(value: JsonView) -> Option<PlannedView> {
    let id = json::needed_text(value.part(0, "id"@));
    let title = json::needed_text(value.part(1, "title"@));
    let closed = crossing::needed_flag(value.part(2, "closed"@));
    if value.fills(3) && id is Some && title is Some && closed is Some {
        Some(PlannedView { id: id->0, title: title->0, closed: closed->0 })
    } else {
        None
    }
}

/// How an issue of a plan is read.
pub open spec fn an_issue() -> spec_fn(JsonView) -> Option<PlannedView> {
    |value: JsonView| issue_of(value)
}

/// An edge of a plan out of JSON, when the value is one.
pub open spec fn blocking_of(value: JsonView) -> Option<BlockingView> {
    let issue = json::needed_text(value.part(0, "issue"@));
    let blocker = json::needed_text(value.part(1, "blocker"@));
    if value.fills(2) && issue is Some && blocker is Some {
        Some(BlockingView { issue: issue->0, blocker: blocker->0 })
    } else {
        None
    }
}

/// How an edge of a plan is read.
pub open spec fn an_edge() -> spec_fn(JsonView) -> Option<BlockingView> {
    |value: JsonView| blocking_of(value)
}

/// A field is smaller than what it is a field of.
pub proof fn a_field_is_smaller(value: JsonView, at: nat, key: Seq<char>)
    ensures
        value.part(at, key) is Some ==> decreases_to!(value => value.part(at, key)->0),
{
    match value {
        JsonView::Object(members) => {
            spelling::member_placed(members, key);
            if json::member(members, key) is Some {
                let i = choose|i: int|
                    0 <= i < members.len() && (#[trigger] members[i]).0 == key && members[i].1
                        == json::member(members, key)->0;
                assert(decreases_to!(members => members[i]));
            }
        },
        JsonView::Array(items) => {
            if at < items.len() {
                assert(decreases_to!(items => items[at as int]));
            }
        },
        _ => {},
    }
}

/// A tree of a plan out of JSON, when the value is one.
pub open spec fn tree_of(value: JsonView) -> Option<TreeView<PlannedView>>
    decreases value,
{
    proof {
        a_field_is_smaller(value, 1, "children"@);
    }
    match (value.part(0, "value"@), value.part(1, "children"@)) {
        (Some(root), Some(JsonView::Array(items))) => match (issue_of(root), trees_of(items)) {
            (Some(root), Some(children)) => if value.fills(2) {
                Some(TreeView { value: root, children })
            } else {
                None
            },
            _ => None,
        },
        _ => None,
    }
}

/// A row of trees out of JSON, when each item is one.
pub open spec fn trees_of(items: Seq<JsonView>) -> Option<Seq<TreeView<PlannedView>>>
    decreases items,
{
    if items.len() == 0 {
        Some(Seq::empty())
    } else {
        match (trees_of(items.drop_last()), tree_of(items.last())) {
            (Some(front), Some(last)) => Some(front.push(last)),
            _ => None,
        }
    }
}

/// A plan out of JSON, when the value is one.
pub open spec fn plan_of(value: JsonView) -> Option<PlanSaid> {
    let tree = match value.part(0, "tree"@) {
        Some(tree) => tree_of(tree),
        None => None,
    };
    let blocking = needed_all(value.part(1, "blocking"@), an_edge());
    let outside = needed_all(value.part(2, "outside"@), an_issue());
    if value.fills(3) && tree is Some && blocking is Some && outside is Some {
        Some(PlanSaid { tree: tree->0, blocking: blocking->0, outside: outside->0 })
    } else {
        None
    }
}

// ----- telling -----

pub(crate) fn tell_issue(issue: &Issue) -> (r: Json)
    ensures
        r@ == told_issue(*issue),
{
    Json::record().with("id", Json::string(issue.id.as_str())).with(
        "title",
        Json::string(issue.title.as_str()),
    ).with("closed", Json::Bool(issue.closed))
}

pub(crate) fn tell_tree(node: &Tree<Issue>) -> (r: Json)
    ensures
        r@ == told_tree(node@),
    decreases node,
{
    let children = tell_trees(&node.children);
    Json::record().with("value", tell_issue(&node.value)).with("children", Json::list(children))
}

fn tell_trees(trees: &Vec<Tree<Issue>>) -> (r: Vec<Json>)
    ensures
        json::items_view(r@) == told_trees(tree::forest_view(trees@)),
    decreases trees,
{
    let ghost view = tree::forest_view(trees@);
    proof {
        tree::forest_views(trees@);
    }
    let mut items: Vec<Json> = Vec::new();
    let mut i: usize = 0;
    proof {
        assert(json::items_view(items@) =~= Seq::empty());
        assert(view.take(0) =~= Seq::empty());
    }
    while i < trees.len()
        invariant
            i <= trees@.len() == view.len(),
            view == tree::forest_view(trees@),
            forall|k: int| 0 <= k < trees@.len() ==> #[trigger] view[k] == trees@[k]@,
            json::items_view(items@) == told_trees(view.take(i as int)),
        decreases trees@.len() - i,
    {
        let told = tell_tree(&trees[i]);
        let ghost before = items@;
        items.push(told);
        proof {
            assert(items@.drop_last() =~= before);
            assert(view.take(i + 1).drop_last() =~= view.take(i as int));
            assert(view.take(i + 1).last() == view[i as int]);
        }
        i = i + 1;
    }
    proof {
        assert(view.take(i as int) =~= view);
    }
    items
}

pub(crate) fn tell_issues(issues: &Vec<Issue>) -> (r: Json)
    ensures
        r@ == told_issues(issues@),
{
    let ghost shown = issues@.map_values(|issue: Issue| told_issue(issue));
    let mut items: Vec<Json> = Vec::new();
    let mut i: usize = 0;
    while i < issues.len()
        invariant
            i <= issues@.len() == shown.len(),
            items@.len() == i,
            forall|k: int|
                0 <= k < issues@.len() ==> #[trigger] shown[k] == told_issue(issues@[k]),
            forall|k: int| 0 <= k < i ==> (#[trigger] items@[k])@ == shown[k],
        decreases issues@.len() - i,
    {
        items.push(tell_issue(&issues[i]));
        i = i + 1;
    }
    proof {
        json::item_views(items@);
        assert(json::items_view(items@) =~= shown);
    }
    Json::Array(items)
}

pub(crate) fn tell_edges(edges: &Vec<Blocking>) -> (r: Json)
    ensures
        r@ == told_edges(edges@),
{
    let ghost shown = edges@.map_values(|edge: Blocking| told_blocking(edge));
    let mut items: Vec<Json> = Vec::new();
    let mut i: usize = 0;
    while i < edges.len()
        invariant
            i <= edges@.len() == shown.len(),
            items@.len() == i,
            forall|k: int|
                0 <= k < edges@.len() ==> #[trigger] shown[k] == told_blocking(edges@[k]),
            forall|k: int| 0 <= k < i ==> (#[trigger] items@[k])@ == shown[k],
        decreases edges@.len() - i,
    {
        items.push(
            Json::record().with("issue", Json::string(edges[i].issue.as_str())).with(
                "blocker",
                Json::string(edges[i].blocker.as_str()),
            ),
        );
        i = i + 1;
    }
    proof {
        json::item_views(items@);
        assert(json::items_view(items@) =~= shown);
    }
    Json::Array(items)
}

// ----- reading -----

fn read_issue(value: &Json) -> (r: Option<Issue>)
    ensures
        match r {
            Some(issue) => issue_of(value@) == Some(issue_said(issue)),
            None => issue_of(value@) is None,
        },
{
    if !value.fills(3) {
        return None;
    }
    let id = match json::read_text(value.part(0, "id")) {
        Some(id) => id,
        None => return None,
    };
    let title = match json::read_text(value.part(1, "title")) {
        Some(title) => title,
        None => return None,
    };
    match crossing::read_flag(value.part(2, "closed")) {
        Some(closed) => Some(Issue { id: IssueId(id), title, closed }),
        None => None,
    }
}

fn read_blocking(value: &Json) -> (r: Option<Blocking>)
    ensures
        match r {
            Some(edge) => blocking_of(value@) == Some(blocking_said(edge)),
            None => blocking_of(value@) is None,
        },
{
    if !value.fills(2) {
        return None;
    }
    let issue = match json::read_text(value.part(0, "issue")) {
        Some(issue) => issue,
        None => return None,
    };
    match json::read_text(value.part(1, "blocker")) {
        Some(blocker) => Some(Blocking { issue: IssueId(issue), blocker: IssueId(blocker) }),
        None => None,
    }
}

/// A row is read only where all that comes before in it is.
proof fn all_to_the_end<T>(items: Seq<JsonView>, read: spec_fn(JsonView) -> Option<T>, i: int)
    requires
        0 <= i <= items.len(),
        all_of(items.take(i), read) is None,
    ensures
        all_of(items, read) is None,
    decreases items.len() - i,
{
    if i == items.len() {
        assert(items.take(i) =~= items);
    } else {
        assert(items.take(i + 1).drop_last() =~= items.take(i));
        all_to_the_end(items, read, i + 1);
    }
}

fn read_issues(part: Option<&Json>) -> (r: Option<Vec<Issue>>)
    ensures
        match r {
            Some(issues) => needed_all(json::part_view(part), an_issue()) == Some(
                issues@.map_values(|issue: Issue| issue_said(issue)),
            ),
            None => needed_all(json::part_view(part), an_issue()) is None,
        },
{
    let items = match part {
        Some(Json::Array(items)) => items,
        _ => return None,
    };
    let ghost view = json::items_view(items@);
    let mut issues: Vec<Issue> = Vec::new();
    let mut i: usize = 0;
    proof {
        json::item_views(items@);
        assert(view.take(0) =~= Seq::empty());
        assert(issues@.map_values(|issue: Issue| issue_said(issue)) =~= Seq::empty());
    }
    while i < items.len()
        invariant
            i <= items@.len() == view.len(),
            part == Some(&Json::Array(*items)),
            view == json::items_view(items@),
            forall|k: int| 0 <= k < items@.len() ==> #[trigger] view[k] == items@[k]@,
            all_of(view.take(i as int), an_issue()) == Some(
                issues@.map_values(|issue: Issue| issue_said(issue)),
            ),
        decreases items@.len() - i,
    {
        proof {
            assert(view[i as int] == items@[i as int]@);
            assert(view.take(i + 1).drop_last() =~= view.take(i as int));
            assert(view.take(i + 1).last() == view[i as int]);
        }
        let ghost before = issues@;
        match read_issue(&items[i]) {
            Some(issue) => {
                let ghost said = issue_said(issue);
                issues.push(issue);
                proof {
                    assert(issues@.map_values(|issue: Issue| issue_said(issue))
                        =~= before.map_values(|issue: Issue| issue_said(issue)).push(said));
                }
            },
            None => {
                proof {
                    all_to_the_end(view, an_issue(), i + 1);
                }
                return None;
            },
        }
        i = i + 1;
    }
    proof {
        assert(view.take(i as int) =~= view);
    }
    Some(issues)
}

fn read_edges(part: Option<&Json>) -> (r: Option<Vec<Blocking>>)
    ensures
        match r {
            Some(edges) => needed_all(json::part_view(part), an_edge()) == Some(
                edges@.map_values(|edge: Blocking| blocking_said(edge)),
            ),
            None => needed_all(json::part_view(part), an_edge()) is None,
        },
{
    let items = match part {
        Some(Json::Array(items)) => items,
        _ => return None,
    };
    let ghost view = json::items_view(items@);
    let mut edges: Vec<Blocking> = Vec::new();
    let mut i: usize = 0;
    proof {
        json::item_views(items@);
        assert(view.take(0) =~= Seq::empty());
        assert(edges@.map_values(|edge: Blocking| blocking_said(edge)) =~= Seq::empty());
    }
    while i < items.len()
        invariant
            i <= items@.len() == view.len(),
            part == Some(&Json::Array(*items)),
            view == json::items_view(items@),
            forall|k: int| 0 <= k < items@.len() ==> #[trigger] view[k] == items@[k]@,
            all_of(view.take(i as int), an_edge()) == Some(
                edges@.map_values(|edge: Blocking| blocking_said(edge)),
            ),
        decreases items@.len() - i,
    {
        proof {
            assert(view[i as int] == items@[i as int]@);
            assert(view.take(i + 1).drop_last() =~= view.take(i as int));
            assert(view.take(i + 1).last() == view[i as int]);
        }
        let ghost before = edges@;
        match read_blocking(&items[i]) {
            Some(edge) => {
                let ghost said = blocking_said(edge);
                edges.push(edge);
                proof {
                    assert(edges@.map_values(|edge: Blocking| blocking_said(edge))
                        =~= before.map_values(|edge: Blocking| blocking_said(edge)).push(said));
                }
            },
            None => {
                proof {
                    all_to_the_end(view, an_edge(), i + 1);
                }
                return None;
            },
        }
        i = i + 1;
    }
    proof {
        assert(view.take(i as int) =~= view);
    }
    Some(edges)
}

fn read_tree(value: &Json) -> (r: Option<Tree<Issue>>)
    ensures
        match r {
            Some(node) => tree_of(value@) == Some(tree_said(node@)),
            None => tree_of(value@) is None,
        },
    decreases value@,
{
    proof {
        a_field_is_smaller(value@, 1, "children"@);
    }
    if !value.fills(2) {
        return None;
    }
    let root = match value.part(0, "value") {
        Some(root) => match read_issue(root) {
            Some(root) => root,
            None => return None,
        },
        None => return None,
    };
    let children = match value.part(1, "children") {
        Some(Json::Array(items)) => match read_trees(items) {
            Some(children) => children,
            None => return None,
        },
        _ => return None,
    };
    Some(Tree { value: root, children })
}

/// A row of trees is read only where all that comes before in it is.
proof fn trees_to_the_end(items: Seq<JsonView>, i: int)
    requires
        0 <= i <= items.len(),
        trees_of(items.take(i)) is None,
    ensures
        trees_of(items) is None,
    decreases items.len() - i,
{
    if i == items.len() {
        assert(items.take(i) =~= items);
    } else {
        assert(items.take(i + 1).drop_last() =~= items.take(i));
        trees_to_the_end(items, i + 1);
    }
}

fn read_trees(items: &Vec<Json>) -> (r: Option<Vec<Tree<Issue>>>)
    ensures
        match r {
            Some(trees) => trees_of(json::items_view(items@)) == Some(
                trees_said(tree::forest_view(trees@)),
            ),
            None => trees_of(json::items_view(items@)) is None,
        },
    decreases json::items_view(items@),
{
    let ghost view = json::items_view(items@);
    let mut trees: Vec<Tree<Issue>> = Vec::new();
    let mut i: usize = 0;
    proof {
        json::item_views(items@);
        assert(view.take(0) =~= Seq::empty());
        assert(tree::forest_view(trees@) =~= Seq::empty());
    }
    while i < items.len()
        invariant
            i <= items@.len() == view.len(),
            view == json::items_view(items@),
            forall|k: int| 0 <= k < items@.len() ==> #[trigger] view[k] == items@[k]@,
            trees_of(view.take(i as int)) == Some(trees_said(tree::forest_view(trees@))),
        decreases items@.len() - i,
    {
        proof {
            assert(view[i as int] == items@[i as int]@);
            assert(view.take(i + 1).drop_last() =~= view.take(i as int));
            assert(view.take(i + 1).last() == view[i as int]);
            assert(decreases_to!(view => view[i as int]));
        }
        let ghost before = trees@;
        match read_tree(&items[i]) {
            Some(node) => {
                let ghost shape = node@;
                trees.push(node);
                proof {
                    assert(trees@.drop_last() =~= before);
                    let shapes = tree::forest_view(trees@);
                    assert(shapes.drop_last() =~= tree::forest_view(before));
                    assert(shapes.last() == shape);
                }
            },
            None => {
                proof {
                    trees_to_the_end(view, i + 1);
                }
                return None;
            },
        }
        i = i + 1;
    }
    proof {
        assert(view.take(i as int) =~= view);
    }
    Some(trees)
}

impl Plan {
    /// A plan, as JSON.
    pub fn told(&self) -> (r: Json)
        ensures
            r@ == told_plan(self@),
    {
        Json::record().with("tree", tell_tree(&self.tree)).with(
            "blocking",
            tell_edges(&self.blocking),
        ).with("outside", tell_issues(&self.outside))
    }

    /// A plan out of JSON, when the value is one.
    pub fn read(value: &Json) -> (r: Option<Plan>)
        ensures
            match r {
                Some(plan) => plan_of(value@) == Some(plan_said(plan@)),
                None => plan_of(value@) is None,
            },
    {
        if !value.fills(3) {
            return None;
        }
        let tree = match value.part(0, "tree") {
            Some(tree) => match read_tree(tree) {
                Some(tree) => tree,
                None => return None,
            },
            None => return None,
        };
        let blocking = match read_edges(value.part(1, "blocking")) {
            Some(blocking) => blocking,
            None => return None,
        };
        match read_issues(value.part(2, "outside")) {
            Some(outside) => Some(Plan { tree, blocking, outside }),
            None => None,
        }
    }
}

impl Problem {
    /// What is wrong with a plan, as JSON: its words.
    pub fn told(&self) -> (r: Json)
        ensures
            r@ == JsonView::Text(self@.words()),
    {
        let words = self.to_string();
        Json::string(words.as_str())
    }
}

// ----- what is told is read back -----

proof fn told_issue_reads_back(issue: Issue)
    ensures
        issue_of(told_issue(issue)) == Some(issue_said(issue)),
{
    reveal_strlit("id");
    reveal_strlit("title");
    reveal_strlit("closed");
    assert("id"@.len() != "title"@.len());
    assert("id"@.len() != "closed"@.len());
    assert("title"@.len() != "closed"@.len());
    let record = JsonView::record();
    crossing::put(record, "id"@, JsonView::Text(issue.id@));
    let record = record.with("id"@, JsonView::Text(issue.id@));
    crossing::put(record, "title"@, JsonView::Text(issue.title@));
    let record = record.with("title"@, JsonView::Text(issue.title@));
    crossing::put(record, "closed"@, JsonView::Bool(issue.closed));
}

proof fn told_blocking_reads_back(edge: Blocking)
    ensures
        blocking_of(told_blocking(edge)) == Some(blocking_said(edge)),
{
    reveal_strlit("issue");
    reveal_strlit("blocker");
    assert("issue"@.len() != "blocker"@.len());
    let record = JsonView::record();
    crossing::put(record, "issue"@, JsonView::Text(edge.issue@));
    let record = record.with("issue"@, JsonView::Text(edge.issue@));
    crossing::put(record, "blocker"@, JsonView::Text(edge.blocker@));
}

proof fn told_issues_read_back(issues: Seq<Issue>)
    ensures
        needed_all(Some(told_issues(issues)), an_issue()) == Some(
            issues.map_values(|issue: Issue| issue_said(issue)),
        ),
    decreases issues.len(),
{
    let items = told_issues(issues)->Array_0;
    let said = issues.map_values(|issue: Issue| issue_said(issue));
    if issues.len() == 0 {
        assert(items =~= Seq::empty());
        assert(said =~= Seq::empty());
    } else {
        let front = issues.drop_last();
        told_issues_read_back(front);
        told_issue_reads_back(issues.last());
        assert(items.drop_last() =~= told_issues(front)->Array_0);
        assert(said =~= front.map_values(|issue: Issue| issue_said(issue)).push(
            issue_said(issues.last()),
        ));
    }
}

proof fn told_edges_read_back(edges: Seq<Blocking>)
    ensures
        needed_all(Some(told_edges(edges)), an_edge()) == Some(
            edges.map_values(|edge: Blocking| blocking_said(edge)),
        ),
    decreases edges.len(),
{
    let items = told_edges(edges)->Array_0;
    let said = edges.map_values(|edge: Blocking| blocking_said(edge));
    if edges.len() == 0 {
        assert(items =~= Seq::empty());
        assert(said =~= Seq::empty());
    } else {
        let front = edges.drop_last();
        told_edges_read_back(front);
        told_blocking_reads_back(edges.last());
        assert(items.drop_last() =~= told_edges(front)->Array_0);
        assert(said =~= front.map_values(|edge: Blocking| blocking_said(edge)).push(
            blocking_said(edges.last()),
        ));
    }
}

proof fn told_tree_reads_back(node: TreeView<Issue>)
    ensures
        tree_of(told_tree(node)) == Some(tree_said(node)),
    decreases node, 1nat,
{
    reveal_strlit("value");
    reveal_strlit("children");
    assert("value"@.len() != "children"@.len());
    told_issue_reads_back(node.value);
    told_trees_read_back(node.children);
    let record = JsonView::record();
    crossing::put(record, "value"@, told_issue(node.value));
    let record = record.with("value"@, told_issue(node.value));
    crossing::put(record, "children"@, JsonView::Array(told_trees(node.children)));
}

proof fn told_trees_read_back(trees: Seq<TreeView<Issue>>)
    ensures
        trees_of(told_trees(trees)) == Some(trees_said(trees)),
    decreases trees, 0nat,
{
    if trees.len() > 0 {
        told_trees_read_back(trees.drop_last());
        told_tree_reads_back(trees.last());
        assert(told_trees(trees).drop_last() =~= told_trees(trees.drop_last()));
    }
}

/// Law: what is told of a plan is read back as it was.
pub proof fn told_plan_reads_back(plan: PlanView)
    ensures
        plan_of(told_plan(plan)) == Some(plan_said(plan)),
{
    reveal_strlit("tree");
    reveal_strlit("blocking");
    reveal_strlit("outside");
    assert("tree"@.len() != "blocking"@.len());
    assert("tree"@.len() != "outside"@.len());
    assert("blocking"@.len() != "outside"@.len());
    told_tree_reads_back(plan.tree);
    told_edges_read_back(plan.blocking);
    told_issues_read_back(plan.outside);
    let record = JsonView::record();
    crossing::put(record, "tree"@, told_tree(plan.tree));
    let record = record.with("tree"@, told_tree(plan.tree));
    crossing::put(record, "blocking"@, told_edges(plan.blocking));
    let record = record.with("blocking"@, told_edges(plan.blocking));
    crossing::put(record, "outside"@, told_issues(plan.outside));
}

// ----- what says the same is read as the same -----

proof fn all_alike<T>(a: Seq<JsonView>, b: Seq<JsonView>, read: spec_fn(JsonView) -> Option<T>)
    requires
        spelling::alike(JsonView::Array(a), JsonView::Array(b)),
        forall|one: JsonView, other: JsonView| #[trigger]
            spelling::alike(one, other) ==> read(one) == read(other),
    ensures
        all_of(a, read) == all_of(b, read),
    decreases a.len(),
{
    if a.len() > 0 {
        let front = a.drop_last();
        let rest = b.drop_last();
        assert forall|i: int| 0 <= i < front.len() implies spelling::alike(
            #[trigger] front[i],
            rest[i],
        ) by {
            assert(spelling::alike(a[i], b[i]));
        }
        all_alike(front, rest, read);
        assert(spelling::alike(a[a.len() - 1], b[b.len() - 1]));
    }
}

proof fn needed_alike<T>(
    one: Option<JsonView>,
    other: Option<JsonView>,
    read: spec_fn(JsonView) -> Option<T>,
)
    requires
        spelling::both_alike(one, other),
        forall|one: JsonView, other: JsonView| #[trigger]
            spelling::alike(one, other) ==> read(one) == read(other),
    ensures
        needed_all(one, read) == needed_all(other, read),
{
    match (one, other) {
        (Some(JsonView::Array(a)), Some(JsonView::Array(b))) => {
            all_alike(a, b, read);
        },
        _ => {},
    }
}

proof fn tree_alike(one: JsonView, other: JsonView)
    requires
        spelling::alike(one, other),
    ensures
        tree_of(one) == tree_of(other),
    decreases one,
{
    spelling::alike_fields(one, other);
    a_field_is_smaller(one, 1, "children"@);
    let root = one.part(0, "value"@);
    if root is Some {
        spelling::alike_fields(root->0, other.part(0, "value"@)->0);
    }
    match (one.part(1, "children"@), other.part(1, "children"@)) {
        (Some(JsonView::Array(a)), Some(JsonView::Array(b))) => {
            trees_alike(a, b);
        },
        _ => {},
    }
}

proof fn trees_alike(a: Seq<JsonView>, b: Seq<JsonView>)
    requires
        spelling::alike(JsonView::Array(a), JsonView::Array(b)),
    ensures
        trees_of(a) == trees_of(b),
    decreases a,
{
    if a.len() > 0 {
        let front = a.drop_last();
        let rest = b.drop_last();
        assert forall|i: int| 0 <= i < front.len() implies spelling::alike(
            #[trigger] front[i],
            rest[i],
        ) by {
            assert(spelling::alike(a[i], b[i]));
        }
        trees_alike(front, rest);
        assert(spelling::alike(a[a.len() - 1], b[b.len() - 1]));
        tree_alike(a.last(), b.last());
    }
}

/// Values that say the same are read as the same plan.
pub(crate) proof fn plan_alike(one: JsonView, other: JsonView)
    requires
        spelling::alike(one, other),
    ensures
        plan_of(one) == plan_of(other),
{
    spelling::alike_fields(one, other);
    if one.part(0, "tree"@) is Some {
        tree_alike(one.part(0, "tree"@)->0, other.part(0, "tree"@)->0);
    }
    assert forall|one: JsonView, other: JsonView| #[trigger]
        spelling::alike(one, other) implies an_edge()(one) == an_edge()(other) by {
        spelling::alike_fields(one, other);
    }
    needed_alike(one.part(1, "blocking"@), other.part(1, "blocking"@), an_edge());
    assert forall|one: JsonView, other: JsonView| #[trigger]
        spelling::alike(one, other) implies an_issue()(one) == an_issue()(other) by {
        spelling::alike_fields(one, other);
    }
    needed_alike(one.part(2, "outside"@), other.part(2, "outside"@), an_issue());
}

} // verus!
