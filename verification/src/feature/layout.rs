//! The plan as a picture: x from the DAG, y from the tree.
//!
//! A plan is two structures over one set of nodes, and a pane draws each
//! as itself — containment as boxes around their descendants, ordering
//! as arrows between nodes. [`layout`] is the pure function from a plan
//! and its states to that picture, in grid cells, so a pane has only to
//! scale it: a leaf's column is its longest path over the blocking
//! edges, its row is its place in a depth-first walk of the tree with
//! the empty rows squeezed out. The walk is what keeps a container's
//! leaves contiguous, which is what makes its box drawable without
//! swallowing a node that is not in it.
//!
//! The states decide what is drawn at all. Only the work — the leaves
//! the build holds a state for — is a node; a settled leaf or an
//! abandoned subtree is not, and neither is the feature itself, whose
//! box is the pane. Edges follow the plan's own reading of them: an edge
//! onto a container is an edge onto every drawn leaf beneath it, which
//! is how [`Plan::settled`] reads a container; an edge whose blocker is
//! outside the tree, or unknown to it, has no node to start from, holds
//! the leaf just the same, and is named in the leaf's `blocked_by`; an
//! edge whose *issue* side is a container is one the schedule never
//! consults — [`Plan::ready`] asks only for a leaf's own edges — and is
//! not drawn. A blocked-by cycle contributes no column past the edge
//! that closes it, so the layout ends on any plan.

use crate::feature;
use crate::feature::layout_laws;
use crate::feature::{Blocking, Issue, IssueId, Plan, PlanView, State};
use crate::ids;
use crate::ids::{IdMap, IdSet};
use crate::tree;
use crate::tree::TreeView;
use vstd::prelude::*;

verus! {

/// How a node is drawn: its state, with Waiting split by the plan's
/// own judgement into ready and blocked.
#[derive(Clone, Copy, Debug, Eq, PartialEq, Structural)]
pub enum Form {
    /// Waiting on a blocker.
    Blocked,
    /// Waiting on a slot: every blocker has settled.
    Ready,
    Running,
    Merging,
    Merged,
    Failed,
    Skipped,
}

/// One issue of work, placed.
#[derive(Clone, Debug, Eq, PartialEq)]
pub struct Node {
    pub id: IssueId,
    pub title: String,
    pub state: State,
    pub form: Form,
    /// The longest path over the blocking edges into this node.
    pub column: usize,
    /// Its place in the depth-first walk of the tree, among the drawn.
    pub row: usize,
    /// The blockers still holding it, as the plan's edges name them: a
    /// container by its own id, an outside issue by its.
    pub blocked_by: Vec<IssueId>,
    /// The nodes its settling helps release: the far ends of the edges
    /// drawn from it, an edge onto a container counted for each leaf
    /// beneath it.
    pub blocks: Vec<IssueId>,
}

/// One arrow: `blocker` settles before `issue` starts.
#[derive(Clone, Debug, Eq, PartialEq)]
pub struct Edge {
    pub blocker: IssueId,
    pub issue: IssueId,
}

/// One box: a container beneath the feature, with drawn leaves in it.
#[derive(Clone, Debug, Eq, PartialEq)]
pub struct Container {
    pub id: IssueId,
    pub title: String,
    /// How far beneath the feature: its child is 1.
    pub depth: usize,
    /// How many boxes nest inside it, at the deepest.
    pub height: usize,
    /// The nodes inside it, in row order.
    pub leaves: Vec<IssueId>,
}

/// The picture, in grid cells.
#[derive(Clone, Debug, Default, Eq, PartialEq)]
pub struct Layout {
    /// In row order.
    pub nodes: Vec<Node>,
    /// In (issue row, blocker row) order, each once.
    pub edges: Vec<Edge>,
    /// In tree order, so an outer box comes before the boxes in it.
    pub containers: Vec<Container>,
}

/// The leaves that have a state, in the order of the tree's walk: one row
/// each.
pub open spec fn drawn(plan: PlanView, states: Map<Seq<char>, State>) -> Seq<Issue> {
    plan.tree.leaves().filter(|leaf: Issue| states.dom().contains(leaf.id@))
}

/// The row of a name among the drawn; of two rows of one name the later.
pub open spec fn row_of(drawn: Seq<Issue>, id: Seq<char>) -> Option<int>
    decreases drawn.len(),
{
    if drawn.len() == 0 {
        None
    } else if drawn.last().id@ == id {
        Some(drawn.len() - 1)
    } else {
        row_of(drawn.drop_last(), id)
    }
}

/// The rows of the leaves that are drawn.
pub open spec fn rows_of(drawn: Seq<Issue>, leaves: Seq<Issue>) -> Seq<int> {
    leaves.filter_map(|leaf: Issue| row_of(drawn, leaf.id@))
}

/// The rows beneath an id: its own when a drawn leaf, its subtree's when a
/// container, none when settled, outside, or unknown.
pub open spec fn beneath(tree: TreeView<Issue>, drawn: Seq<Issue>, id: Seq<char>) -> Seq<int> {
    match feature::path_to(tree, id) {
        Some(path) => rows_of(drawn, path.last().leaves()),
        None => Seq::empty(),
    }
}

/// Whether the edge draws an arrow into row `issue` from row `blocker`.
pub open spec fn draws(
    tree: TreeView<Issue>,
    drawn: Seq<Issue>,
    edge: Blocking,
    issue: int,
    blocker: int,
) -> bool {
    row_of(drawn, edge.issue@) == Some(issue) && beneath(tree, drawn, edge.blocker@).contains(
        blocker,
    )
}

/// Whether one of the edges draws an arrow into row `issue` from row
/// `blocker`.
pub open spec fn arrow(
    tree: TreeView<Issue>,
    drawn: Seq<Issue>,
    blocking: Seq<Blocking>,
    issue: int,
    blocker: int,
) -> bool {
    exists|k: int|
        0 <= k < blocking.len() && draws(tree, drawn, #[trigger] blocking[k], issue, blocker)
}

/// The rows below `most` from which an arrow goes into row `issue`, in
/// order.
pub open spec fn arrows_into(plan: PlanView, drawn: Seq<Issue>, issue: int, most: nat) -> Seq<int>
    decreases most,
{
    if most == 0 {
        Seq::empty()
    } else {
        let fewer = arrows_into(plan, drawn, issue, (most - 1) as nat);
        if arrow(plan.tree, drawn, plan.blocking, issue, most - 1) {
            fewer.push(most - 1)
        } else {
            fewer
        }
    }
}

/// The rows below `most` into which an arrow goes from row `blocker`, in
/// order.
pub open spec fn arrows_from(plan: PlanView, drawn: Seq<Issue>, blocker: int, most: nat) -> Seq<int>
    decreases most,
{
    if most == 0 {
        Seq::empty()
    } else {
        let fewer = arrows_from(plan, drawn, blocker, (most - 1) as nat);
        if arrow(plan.tree, drawn, plan.blocking, most - 1, blocker) {
            fewer.push(most - 1)
        } else {
            fewer
        }
    }
}

/// The arrows into the rows below `most`, as (issue row, blocker row), in
/// that order.
pub open spec fn arrows(plan: PlanView, drawn: Seq<Issue>, most: nat) -> Seq<(int, int)>
    decreases most,
{
    if most == 0 {
        Seq::empty()
    } else {
        arrows(plan, drawn, (most - 1) as nat) + arrows_into(
            plan,
            drawn,
            most - 1,
            drawn.len(),
        ).map_values(|blocker: int| (most - 1, blocker))
    }
}

/// The walk for the longest path into `row`, at most `depth` steps deep,
/// with what is known of the columns before it: the answer, and what is
/// known after it. A row already known answers for itself; a row already on
/// the path closes a cycle and answers nothing.
pub open spec fn walked(
    into: Seq<Seq<int>>,
    row: int,
    column: Seq<Option<int>>,
    path: Seq<int>,
    depth: nat,
) -> (Option<int>, Seq<Option<int>>)
    decreases depth, 0nat,
{
    if column[row] is Some {
        (column[row], column)
    } else if path.contains(row) || depth == 0 {
        (None, column)
    } else {
        let (found, after) = walked_all(
            into,
            into[row],
            column,
            path.push(row),
            (depth - 1) as nat,
        );
        (Some(found), after.update(row, Some(found)))
    }
}

/// The walks for each of the rows in turn: one past the longest answer, or
/// zero where there is none.
pub open spec fn walked_all(
    into: Seq<Seq<int>>,
    rows: Seq<int>,
    column: Seq<Option<int>>,
    path: Seq<int>,
    depth: nat,
) -> (int, Seq<Option<int>>)
    decreases depth, rows.len() + 1,
{
    if rows.len() == 0 {
        (0, column)
    } else {
        let (most, between) = walked_all(into, rows.drop_last(), column, path, depth);
        let (answer, after) = walked(into, rows.last(), between, path, depth);
        match answer {
            Some(c) => (if c + 1 > most { c + 1 } else { most }, after),
            None => (most, after),
        }
    }
}

/// What is known of the columns after the walks into the rows below `most`.
pub open spec fn columns_after(into: Seq<Seq<int>>, most: nat) -> Seq<Option<int>>
    decreases most,
{
    if most == 0 {
        Seq::new(into.len(), |row: int| None)
    } else {
        walked(
            into,
            most - 1,
            columns_after(into, (most - 1) as nat),
            Seq::empty(),
            into.len(),
        ).1
    }
}

/// The rows from which arrows go into each row.
pub open spec fn into_of(plan: PlanView, drawn: Seq<Issue>) -> Seq<Seq<int>> {
    Seq::new(drawn.len(), |issue: int| arrows_into(plan, drawn, issue, drawn.len()))
}

/// The column of each row.
pub open spec fn column_of(plan: PlanView, drawn: Seq<Issue>, row: int) -> int {
    match columns_after(into_of(plan, drawn), drawn.len())[row] {
        Some(c) => c,
        None => 0,
    }
}

/// The issues whose work has landed.
pub open spec fn merged_ids(states: Map<Seq<char>, State>) -> Set<Seq<char>> {
    Set::new(|id: Seq<char>| states.dom().contains(id) && states[id] is Merged)
}

/// How a state is drawn.
pub open spec fn form_of(state: State, ready: bool) -> Form {
    match state {
        State::Waiting => if ready {
            Form::Ready
        } else {
            Form::Blocked
        },
        State::Running => Form::Running,
        State::Merging => Form::Merging,
        State::Merged { .. } => Form::Merged,
        State::Failed { .. } => Form::Failed,
        State::Skipped { .. } => Form::Skipped,
    }
}

/// The names of the rows.
pub open spec fn names_of(drawn: Seq<Issue>, rows: Seq<int>) -> Seq<Seq<char>> {
    rows.map_values(|row: int| drawn[row].id@)
}

/// The blockers still holding `id`, in the order of the edges.
pub open spec fn held_by(plan: PlanView, id: Seq<char>, done: Set<Seq<char>>) -> Seq<Seq<char>> {
    feature::blockers_of(plan.blocking, id).filter(
        |blocker: Seq<char>| !plan.is_settled(blocker, done),
    )
}

/// Whether `node` is what is drawn in row `row`.
pub open spec fn is_node(
    node: Node,
    plan: PlanView,
    states: Map<Seq<char>, State>,
    row: int,
) -> bool {
    let drawn = drawn(plan, states);
    let leaf = drawn[row];
    let done = merged_ids(states);
    &&& node.id == leaf.id
    &&& node.title == leaf.title
    &&& node.state == states[leaf.id@]
    &&& node.form == form_of(
        states[leaf.id@],
        feature::named(plan.ready_of(done), leaf.id@),
    )
    &&& node.column == column_of(plan, drawn, row)
    &&& node.row == row
    &&& ids::names(node.blocked_by@) == held_by(plan, leaf.id@, done)
    &&& ids::names(node.blocks@) == names_of(drawn, arrows_from(plan, drawn, row, drawn.len()))
}

/// A box without its height: what it is drawn around.
pub struct BoxView {
    pub id: IssueId,
    pub title: String,
    pub depth: int,
    pub rows: Seq<int>,
}

/// The box of an issue, if it has one: a container beneath the feature,
/// with drawn leaves in it.
pub open spec fn box_of(tree: TreeView<Issue>, drawn: Seq<Issue>, issue: Issue) -> Option<BoxView> {
    let path = feature::path_to(tree, issue.id@)->0;
    let rows = beneath(tree, drawn, issue.id@);
    if path.len() == 1 || path.last().children.len() == 0 || rows.len() == 0 {
        None
    } else {
        Some(BoxView { id: issue.id, title: issue.title, depth: path.len() - 1, rows })
    }
}

/// The boxes, in tree order.
pub open spec fn boxes(plan: PlanView, drawn: Seq<Issue>) -> Seq<BoxView> {
    plan.tree.nodes().filter_map(|issue: Issue| box_of(plan.tree, drawn, issue))
}

/// The least of some rows.
pub open spec fn least(rows: Seq<int>) -> int
    decreases rows.len(),
{
    if rows.len() <= 1 {
        rows[0]
    } else {
        let rest = least(rows.drop_last());
        if rows.last() < rest {
            rows.last()
        } else {
            rest
        }
    }
}

/// The greatest of some rows.
pub open spec fn greatest(rows: Seq<int>) -> int
    decreases rows.len(),
{
    if rows.len() <= 1 {
        rows[0]
    } else {
        let rest = greatest(rows.drop_last());
        if rows.last() > rest {
            rows.last()
        } else {
            rest
        }
    }
}

/// Whether one box nests in another: deeper, and within its rows.
pub open spec fn nests(inner: BoxView, outer: BoxView) -> bool {
    &&& inner.depth > outer.depth
    &&& least(inner.rows) >= least(outer.rows)
    &&& greatest(inner.rows) <= greatest(outer.rows)
}

/// How deep the nesting of `boxes` in `outer` goes.
pub open spec fn height_of(boxes: Seq<BoxView>, outer: BoxView) -> int
    decreases boxes.len(),
{
    if boxes.len() == 0 {
        0
    } else {
        let rest = height_of(boxes.drop_last(), outer);
        let inner = boxes.last();
        if nests(inner, outer) && inner.depth - outer.depth > rest {
            inner.depth - outer.depth
        } else {
            rest
        }
    }
}

/// Whether `container` is the box `seen` among `boxes`.
pub open spec fn is_container(
    container: Container,
    drawn: Seq<Issue>,
    boxes: Seq<BoxView>,
    seen: BoxView,
) -> bool {
    &&& container.id == seen.id
    &&& container.title == seen.title
    &&& container.depth == seen.depth
    &&& container.height == height_of(boxes, seen)
    &&& ids::names(container.leaves@) == names_of(drawn, seen.rows)
}

/// Whether `layout` is the picture of `plan` with `states`.
pub open spec fn is_layout(layout: Layout, plan: PlanView, states: Map<Seq<char>, State>) -> bool {
    let drawn = drawn(plan, states);
    let arrows = arrows(plan, drawn, drawn.len());
    let boxes = boxes(plan, drawn);
    &&& layout.nodes@.len() == drawn.len()
    &&& forall|row: int|
        0 <= row < drawn.len() ==> is_node(#[trigger] layout.nodes@[row], plan, states, row)
    &&& layout.edges@.len() == arrows.len()
    &&& forall|k: int|
        0 <= k < arrows.len() ==> (#[trigger] layout.edges@[k]).issue@ == drawn[arrows[k].0].id@
            && layout.edges@[k].blocker@ == drawn[arrows[k].1].id@
    &&& layout.containers@.len() == boxes.len()
    &&& forall|k: int|
        0 <= k < boxes.len() ==> is_container(
            #[trigger] layout.containers@[k],
            drawn,
            boxes,
            boxes[k],
        )
}

/// The number of columns the nodes span.
pub open spec fn width(nodes: Seq<Node>) -> int
    decreases nodes.len(),
{
    if nodes.len() == 0 {
        0
    } else {
        let rest = width(nodes.drop_last());
        if nodes.last().column + 1 > rest {
            nodes.last().column + 1
        } else {
            rest
        }
    }
}

impl Layout {
    /// How many columns the picture spans: one past the greatest column,
    /// or none where nothing is drawn.
    pub fn columns(&self) -> (r: usize)
        requires
            forall|i: int| 0 <= i < self.nodes@.len() ==> (#[trigger] self.nodes@[i]).column
                < usize::MAX,
        ensures
            r == width(self.nodes@),
    {
        let mut r: usize = 0;
        let mut i: usize = 0;
        assert(self.nodes@.take(0) =~= Seq::<Node>::empty());
        while i < self.nodes.len()
            invariant
                i <= self.nodes@.len(),
                forall|i: int| 0 <= i < self.nodes@.len() ==> (#[trigger] self.nodes@[i]).column
                    < usize::MAX,
                r == width(self.nodes@.take(i as int)),
            decreases self.nodes@.len() - i,
        {
            proof {
                assert(self.nodes@.take(i + 1).drop_last() =~= self.nodes@.take(i as int));
                assert(self.nodes@.take(i + 1).last() == self.nodes@[i as int]);
            }
            let next: usize = self.nodes[i].column + 1;
            if next > r {
                r = next;
            }
            i += 1;
        }
        assert(self.nodes@.take(self.nodes@.len() as int) =~= self.nodes@);
        r
    }

    /// How many rows: one per node.
    pub fn rows(&self) -> (r: usize)
        ensures
            r == self.nodes@.len(),
    {
        self.nodes.len()
    }

    /// The node of an issue, if it is drawn.
    pub fn node(&self, id: &IssueId) -> (r: Option<&Node>)
        ensures
            match r {
                Some(node) => exists|i: int|
                    0 <= i < self.nodes@.len() && (#[trigger] self.nodes@[i]) == *node
                        && node.id@ == id@ && forall|k: int|
                        0 <= k < i ==> (#[trigger] self.nodes@[k]).id@ != id@,
                None => forall|k: int|
                    0 <= k < self.nodes@.len() ==> (#[trigger] self.nodes@[k]).id@ != id@,
            },
    {
        let mut i: usize = 0;
        while i < self.nodes.len()
            invariant
                i <= self.nodes@.len(),
                forall|k: int| 0 <= k < i ==> (#[trigger] self.nodes@[k]).id@ != id@,
            decreases self.nodes@.len() - i,
        {
            if self.nodes[i].id.is(id) {
                assert(self.nodes@[i as int].id@ == id@);
                return Some(&self.nodes[i]);
            }
            i += 1;
        }
        None
    }
}

/// A row of machine integers as integers.
pub open spec fn ints(rows: Seq<usize>) -> Seq<int> {
    rows.map_values(|row: usize| row as int)
}

/// How a state is drawn.
fn form(state: &State, ready: bool) -> (r: Form)
    ensures
        r == form_of(*state, ready),
{
    match state {
        State::Waiting => if ready {
            Form::Ready
        } else {
            Form::Blocked
        },
        State::Running => Form::Running,
        State::Merging => Form::Merging,
        State::Merged { .. } => Form::Merged,
        State::Failed { .. } => Form::Failed,
        State::Skipped { .. } => Form::Skipped,
    }
}

/// The leaves that have a state, in the order of the tree's walk.
fn drawn_leaves<'a>(plan: &'a Plan, states: &IdMap<State>) -> (r: Vec<&'a Issue>)
    requires
        states.wf(),
    ensures
        tree::reached(r@) == drawn(plan@, states@),
{
    let leaves = plan.tree.leaves();
    let mut r: Vec<&'a Issue> = Vec::new();
    let ghost all = plan@.tree.leaves();
    let ghost wanted = |leaf: Issue| states@.dom().contains(leaf.id@);
    let mut i: usize = 0;
    proof {
        reveal(Seq::filter);
        assert(tree::reached(r@) =~= all.take(0).filter(wanted));
    }
    while i < leaves.len()
        invariant
            i <= leaves@.len(),
            states.wf(),
            all == plan@.tree.leaves(),
            tree::reached(leaves@) == all,
            wanted == (|leaf: Issue| states@.dom().contains(leaf.id@)),
            tree::reached(r@) == all.take(i as int).filter(wanted),
        decreases leaves@.len() - i,
    {
        let leaf = leaves[i];
        let ghost shorter = r@;
        if states.contains(&leaf.id) {
            r.push(leaf);
            assert(tree::reached(r@) =~= tree::reached(shorter).push(*leaf));
        }
        proof {
            reveal(Seq::filter);
            assert(tree::reached(leaves@)[i as int] == *leaf);
            assert(all.take(i + 1).drop_last() =~= all.take(i as int));
            assert(all.take(i + 1).last() == *leaf);
        }
        i += 1;
    }
    assert(all.take(all.len() as int) =~= all);
    r
}

pub(crate) proof fn rows_are_in_range(drawn: Seq<Issue>, id: Seq<char>)
    ensures
        row_of(drawn, id) matches Some(row) ==> 0 <= row < drawn.len() && drawn[row].id@ == id,
        row_of(drawn, id) is None ==> !feature::named(drawn, id),
    decreases drawn.len(),
{
    if drawn.len() > 0 {
        rows_are_in_range(drawn.drop_last(), id);
        if let Some(row) = row_of(drawn.drop_last(), id) {
            assert(drawn.drop_last()[row] == drawn[row]);
        }
        if row_of(drawn, id) is None && feature::named(drawn, id) {
            let i = choose|i: int| 0 <= i < drawn.len() && (#[trigger] drawn[i]).id@ == id;
            assert(drawn.drop_last()[i] == drawn[i]);
        }
    }
}

/// The row of a name among the drawn.
fn find_row(drawn: &Vec<&Issue>, id: &IssueId) -> (r: Option<usize>)
    ensures
        match r {
            Some(row) => row < drawn@.len() && row_of(tree::reached(drawn@), id@) == Some(
                row as int,
            ),
            None => row_of(tree::reached(drawn@), id@) is None,
        },
{
    let ghost all = tree::reached(drawn@);
    let mut i: usize = drawn.len();
    assert(all.take(i as int) =~= all);
    while i > 0
        invariant
            i <= drawn@.len(),
            all == tree::reached(drawn@),
            row_of(all, id@) == row_of(all.take(i as int), id@),
        decreases i,
    {
        proof {
            assert(all[i - 1] == *drawn@[i - 1]);
            assert(all.take(i as int).last() == all[i - 1]);
            assert(all.take(i as int).drop_last() =~= all.take(i - 1));
        }
        if drawn[i - 1].id.is(id) {
            return Some(i - 1);
        }
        i -= 1;
    }
    None
}

/// The rows beneath an id.
fn rows_beneath(plan: &Plan, drawn: &Vec<&Issue>, id: &IssueId) -> (r: Vec<usize>)
    ensures
        ints(r@) == beneath(plan@.tree, tree::reached(drawn@), id@),
        forall|k: int| 0 <= k < r@.len() ==> #[trigger] r@[k] < drawn@.len(),
{
    let ghost shown = tree::reached(drawn@);
    let ghost row = |leaf: Issue| row_of(shown, leaf.id@);
    let mut r: Vec<usize> = Vec::new();
    proof {
        feature::paths_reach(plan@.tree, id@);
    }
    match feature::find_path(&plan.tree, id) {
        None => {
            assert(ints(r@) =~= Seq::<int>::empty());
        },
        Some(path) => {
            let leaves = path[path.len() - 1].leaves();
            let ghost all = feature::path_to(plan@.tree, id@)->0.last().leaves();
            let mut i: usize = 0;
            assert(ints(r@) =~= all.take(0).filter_map(row));
            while i < leaves.len()
                invariant
                    i <= leaves@.len(),
                    tree::reached(leaves@) == all,
                    shown == tree::reached(drawn@),
                    row == (|leaf: Issue| row_of(shown, leaf.id@)),
                    ints(r@) == all.take(i as int).filter_map(row),
                    forall|k: int| 0 <= k < r@.len() ==> #[trigger] r@[k] < drawn@.len(),
                decreases leaves@.len() - i,
            {
                let ghost shorter = r@;
                let found = find_row(drawn, &leaves[i].id);
                proof {
                    assert(tree::reached(leaves@)[i as int] == *leaves@[i as int]);
                    assert(all.take(i + 1).drop_last() =~= all.take(i as int));
                    assert(all.take(i + 1).last() == all[i as int]);
                }
                if let Some(at) = found {
                    r.push(at);
                    assert(ints(r@) =~= ints(shorter) + seq![at as int]);
                }
                i += 1;
            }
            assert(all.take(all.len() as int) =~= all);
        },
    }
    r
}

/// Which arrows are drawn: for each issue row, whether one comes from each
/// blocker row.
fn marked(plan: &Plan, drawn: &Vec<&Issue>) -> (r: Vec<Vec<bool>>)
    ensures
        r@.len() == drawn@.len(),
        forall|i: int| 0 <= i < r@.len() ==> (#[trigger] r@[i])@.len() == drawn@.len(),
        forall|i: int, b: int|
            0 <= i < drawn@.len() && 0 <= b < drawn@.len() ==> #[trigger] r@[i]@[b] == arrow(
                plan@.tree,
                tree::reached(drawn@),
                plan.blocking@,
                i,
                b,
            ),
{
    let ghost shown = tree::reached(drawn@);
    let ghost n = drawn@.len();
    let mut r: Vec<Vec<bool>> = Vec::new();
    let mut i: usize = 0;
    while i < drawn.len()
        invariant
            i <= drawn@.len(),
            r@.len() == i,
            n == drawn@.len(),
            forall|k: int| 0 <= k < r@.len() ==> (#[trigger] r@[k])@.len() == n,
            forall|k: int, b: int| 0 <= k < r@.len() && 0 <= b < n ==> !(#[trigger] r@[k]@[b]),
        decreases drawn@.len() - i,
    {
        let mut line: Vec<bool> = Vec::new();
        let mut b: usize = 0;
        while b < drawn.len()
            invariant
                b <= drawn@.len(),
                line@.len() == b,
                forall|k: int| 0 <= k < b ==> !(#[trigger] line@[k]),
            decreases drawn@.len() - b,
        {
            line.push(false);
            b += 1;
        }
        r.push(line);
        i += 1;
    }
    let mut e: usize = 0;
    while e < plan.blocking.len()
        invariant
            e <= plan.blocking@.len(),
            shown == tree::reached(drawn@),
            n == drawn@.len(),
            r@.len() == n,
            forall|k: int| 0 <= k < r@.len() ==> (#[trigger] r@[k])@.len() == n,
            forall|k: int, b: int|
                0 <= k < n && 0 <= b < n ==> #[trigger] r@[k]@[b] == arrow(
                    plan@.tree,
                    shown,
                    plan.blocking@.take(e as int),
                    k,
                    b,
                ),
        decreases plan.blocking@.len() - e,
    {
        let edge = &plan.blocking[e];
        let ghost before = r@;
        if let Some(issue) = find_row(drawn, &edge.issue) {
            let rows = rows_beneath(plan, drawn, &edge.blocker);
            let ghost reach = ints(rows@);
            let mut m: usize = 0;
            while m < rows.len()
                invariant
                    m <= rows@.len(),
                    issue < n,
                    n == drawn@.len(),
                    r@.len() == n,
                    before.len() == n,
                    reach == ints(rows@),
                    forall|k: int| 0 <= k < rows@.len() ==> #[trigger] rows@[k] < drawn@.len(),
                    forall|k: int| 0 <= k < r@.len() ==> (#[trigger] r@[k])@.len() == n,
                    forall|k: int| 0 <= k < before.len() ==> (#[trigger] before[k])@.len() == n,
                    forall|k: int, b: int|
                        0 <= k < n && 0 <= b < n ==> #[trigger] r@[k]@[b] == (before[k]@[b] || (k
                            == issue && reach.take(m as int).contains(b))),
                decreases rows@.len() - m,
            {
                let at: usize = rows[m];
                let mut line = r[issue].clone();
                let ghost old_line = line@;
                let ghost old_r = r@;
                line.set(at, true);
                r.set(issue, line);
                proof {
                    let some = reach.take(m as int);
                    let more = reach.take(m + 1);
                    assert(more =~= some.push(at as int));
                    assert forall|b: int| #[trigger] more.contains(b) == (some.contains(b) || b
                        == at) by {
                        assert(more[m as int] == at);
                        if some.contains(b) {
                            let q = choose|q: int| 0 <= q < some.len() && some[q] == b;
                            assert(more[q] == b);
                        }
                        if more.contains(b) && b != at {
                            let q = choose|q: int| 0 <= q < more.len() && more[q] == b;
                            assert(some[q] == b);
                        }
                    }
                    assert forall|k: int, b: int| 0 <= k < n && 0 <= b < n implies #[trigger]
                        r@[k]@[b] == (before[k]@[b] || (k == issue && reach.take(
                        m + 1,
                    ).contains(b))) by {
                        assert(old_r[k]@[b] == (before[k]@[b] || (k == issue && reach.take(
                            m as int,
                        ).contains(b))));
                    }
                }
                m += 1;
            }
            assert(reach.take(reach.len() as int) =~= reach);
        }
        proof {
            let fewer = plan.blocking@.take(e as int);
            let more = plan.blocking@.take(e + 1);
            assert forall|k: int, b: int| 0 <= k < n && 0 <= b < n implies #[trigger] r@[k]@[b]
                == arrow(plan@.tree, shown, more, k, b) by {
                assert(before[k]@[b] == arrow(plan@.tree, shown, fewer, k, b));
                assert(more[e as int] == *edge);
                if arrow(plan@.tree, shown, fewer, k, b) {
                    let q = choose|q: int|
                        0 <= q < fewer.len() && draws(
                            plan@.tree,
                            shown,
                            #[trigger] fewer[q],
                            k,
                            b,
                        );
                    assert(more[q] == fewer[q]);
                }
                if arrow(plan@.tree, shown, more, k, b) && !draws(plan@.tree, shown, *edge, k, b) {
                    let q = choose|q: int|
                        0 <= q < more.len() && draws(plan@.tree, shown, #[trigger] more[q], k, b);
                    assert(fewer[q] == more[q]);
                }
            }
        }
        e += 1;
    }
    assert(plan.blocking@.take(plan.blocking@.len() as int) =~= plan.blocking@);
    r
}

/// The columns known, as integers.
pub open spec fn cells(column: Seq<Option<usize>>) -> Seq<Option<int>> {
    column.map_values(
        |c: Option<usize>|
            match c {
                Some(c) => Some(c as int),
                None => None,
            },
    )
}

/// The rows of rows, as integers.
pub open spec fn int_rows(into: Seq<Vec<usize>>) -> Seq<Seq<int>> {
    into.map_values(|rows: Vec<usize>| ints(rows@))
}

/// How many columns are known.
pub(crate) open spec fn known(column: Seq<Option<int>>) -> nat
    decreases column.len(),
{
    if column.len() == 0 {
        0
    } else {
        known(column.drop_last()) + (if column.last() is Some {
            1nat
        } else {
            0nat
        })
    }
}

proof fn one_more_known(column: Seq<Option<int>>, row: int, c: int)
    requires
        0 <= row < column.len(),
        column[row] is None,
    ensures
        known(column.update(row, Some(c))) == known(column) + 1,
        known(column) < column.len(),
    decreases column.len(),
{
    let after = column.update(row, Some(c));
    if row == column.len() - 1 {
        assert(after.drop_last() =~= column.drop_last());
        some_are_known(column.drop_last());
    } else {
        assert(after.drop_last() =~= column.drop_last().update(row, Some(c)));
        one_more_known(column.drop_last(), row, c);
    }
}

proof fn some_are_known(column: Seq<Option<int>>)
    ensures
        known(column) <= column.len(),
    decreases column.len(),
{
    if column.len() > 0 {
        some_are_known(column.drop_last());
    }
}

/// Whether every column known is less than their number.
spec fn bounded(column: Seq<Option<int>>) -> bool {
    forall|k: int| 0 <= k < column.len() ==> (#[trigger] column[k] matches Some(c) ==> 0 <= c
        < known(column))
}

/// Rows that are not on a path of different rows leave it shorter than all.
pub(crate) proof fn paths_are_short(path: Seq<int>, row: int, n: int)
    requires
        path.no_duplicates(),
        forall|k: int| 0 <= k < path.len() ==> 0 <= #[trigger] path[k] < n,
        0 <= row < n,
        !path.contains(row),
    ensures
        path.len() < n,
{
    let longer = path.push(row);
    assert(longer.no_duplicates());
    longer.unique_seq_to_set();
    vstd::set_lib::lemma_int_range(0, n);
    let all = vstd::set_lib::set_int_range(0, n);
    assert(longer.to_set().subset_of(all)) by {
        assert forall|x: int| longer.to_set().contains(x) implies all.contains(x) by {
            let k = choose|k: int| 0 <= k < longer.len() && longer[k] == x;
            if k < path.len() {
                assert(path[k] == x);
            }
        }
    }
    vstd::set_lib::lemma_len_subset(longer.to_set(), all);
}

/// Whether every row named in `into` is one of its rows.
spec fn is_graph(into: Seq<Vec<usize>>) -> bool {
    forall|i: int, k: int|
        0 <= i < into.len() && 0 <= k < into[i]@.len() ==> #[trigger] into[i]@[k] < into.len()
}

/// Whether `row` is on the path.
fn on_path(path: &Vec<usize>, row: usize) -> (r: bool)
    ensures
        r == ints(path@).contains(row as int),
{
    let mut i: usize = 0;
    while i < path.len()
        invariant
            i <= path@.len(),
            forall|k: int| 0 <= k < i ==> #[trigger] ints(path@)[k] != row as int,
        decreases path@.len() - i,
    {
        assert(ints(path@)[i as int] == path@[i as int]);
        if path[i] == row {
            return true;
        }
        i += 1;
    }
    false
}

/// The longest path into `row`: one past the longest into any of its
/// blockers. A blocker already on the path being walked closes a
/// cycle; the edge that closes it contributes nothing — `None`, so the
/// walk ends on any graph and a cycle's members still stand in a row.
fn longest(
    row: usize,
    into: &Vec<Vec<usize>>,
    column: &mut Vec<Option<usize>>,
    path: &mut Vec<usize>,
) -> (r: Option<usize>)
    requires
        is_graph(into@),
        row < into@.len(),
        old(column)@.len() == into@.len(),
        bounded(cells(old(column)@)),
        ints(old(path)@).no_duplicates(),
        forall|k: int| 0 <= k < old(path)@.len() ==> #[trigger] old(path)@[k] < into@.len(),
        old(path)@.len() <= into@.len(),
    ensures
        final(path)@ == old(path)@,
        final(column)@.len() == into@.len(),
        bounded(cells(final(column)@)),
        walked(
            int_rows(into@),
            row as int,
            cells(old(column)@),
            ints(old(path)@),
            (into@.len() - old(path)@.len()) as nat,
        ) == (
            match r {
                Some(c) => Some(c as int),
                None => None,
            },
            cells(final(column)@),
        ),
        r matches Some(c) ==> c < known(cells(final(column)@)),
    decreases into@.len() - old(path)@.len(),
{
    let ghost before = cells(column@);
    let ghost way = ints(path@);
    let ghost graph = int_rows(into@);
    let ghost n = into@.len();
    assert(before[row as int] == (match column@[row as int] {
        Some(c) => Some(c as int),
        None => None,
    }));
    if let Some(c) = column[row] {
        return Some(c);
    }
    if on_path(path, row) {
        return None;
    }
    proof {
        assert forall|k: int| 0 <= k < way.len() implies 0 <= #[trigger] way[k] < n by {
            assert(way[k] == path@[k]);
        }
        paths_are_short(way, row as int, n as int);
    }
    path.push(row);
    let ghost longer = way.push(row as int);
    proof {
        assert(ints(path@) =~= longer);
        assert(longer.no_duplicates());
    }
    let ghost depth = (n - way.len() - 1) as nat;
    let total: usize = into.len();
    let rows = &into[row];
    let ghost all = ints(rows@);
    let mut found: usize = 0;
    let mut i: usize = 0;
    proof {
        assert(graph[row as int] =~= all);
        assert forall|i: int, k: int|
            0 <= i < graph.len() && 0 <= k < graph[i].len() implies 0 <= #[trigger] graph[i][k]
            < n by {
            assert(graph[i][k] == into@[i]@[k]);
        }
        assert(all.take(0) =~= Seq::<int>::empty());
    }
    while i < rows.len()
        invariant
            i <= rows@.len(),
            is_graph(into@),
            row < n,
            n == into@.len(),
            *rows == into@[row as int],
            all == ints(rows@),
            graph == int_rows(into@),
            column@.len() == n,
            bounded(cells(column@)),
            path@ == old(path)@.push(row),
            ints(path@) == longer,
            longer.no_duplicates(),
            forall|k: int| 0 <= k < path@.len() ==> #[trigger] path@[k] < n,
            path@.len() <= n,
            depth == n - path@.len(),
            found <= known(cells(column@)),
            walked_all(graph, all.take(i as int), before, longer, depth) == (
                found as int,
                cells(column@),
            ),
            path@.len() == old(path)@.len() + 1,
            n == total,
            forall|i: int, k: int|
                0 <= i < graph.len() && 0 <= k < graph[i].len() ==> 0 <= #[trigger] graph[i][k]
                    < n,
        decreases rows@.len() - i,
    {
        let ghost between = cells(column@);
        assert(into@[row as int]@[i as int] < n);
        let next = longest(rows[i], into, column, path);
        proof {
            let more = all.take(i + 1);
            assert(more.drop_last() =~= all.take(i as int));
            assert(more.last() == rows@[i as int]);
            known_only_grows(
                graph,
                rows@[i as int] as int,
                between,
                longer,
                depth,
            );
            some_are_known(cells(column@));
        }
        if let Some(c) = next {
            if c + 1 > found {
                found = c + 1;
            }
        }
        i += 1;
    }
    assert(all.take(all.len() as int) =~= all);
    path.pop();
    assert(path@ =~= old(path)@);
    let ghost between = column@;
    proof {
        assert(longer[way.len() as int] == row);
        assert forall|k: int| 0 <= k < all.len() implies 0 <= #[trigger] all[k] < n by {
            assert(graph[row as int][k] == all[k]);
        }
        walking_all_keeps_the_path(graph, all, before, longer, depth, row as int);
    }
    column.set(row, Some(found));
    proof {
        assert(cells(column@) =~= cells(between).update(row as int, Some(found as int)));
        one_more_known(cells(between), row as int, found as int);
        assert(bounded(cells(column@))) by {
            assert forall|k: int| 0 <= k < column@.len() implies (#[trigger] cells(
                column@,
            )[k] matches Some(c) ==> 0 <= c < known(cells(column@))) by {
                if k != row {
                    assert(cells(column@)[k] == cells(between)[k]);
                }
            }
        }
    }
    Some(found)
}

/// A walk leaves what is known known, and adds to it.
pub(crate) proof fn known_only_grows(
    into: Seq<Seq<int>>,
    row: int,
    column: Seq<Option<int>>,
    path: Seq<int>,
    depth: nat,
)
    requires
        0 <= row < column.len(),
        forall|i: int, k: int|
            0 <= i < into.len() && 0 <= k < into[i].len() ==> 0 <= #[trigger] into[i][k]
                < column.len(),
        column.len() == into.len(),
    ensures
        walked(into, row, column, path, depth).1.len() == column.len(),
        known(walked(into, row, column, path, depth).1) >= known(column),
    decreases depth, 0nat,
{
    if column[row] is None && !path.contains(row) && depth > 0 {
        let (found, after) = walked_all(
            into,
            into[row],
            column,
            path.push(row),
            (depth - 1) as nat,
        );
        known_only_grows_in_all(into, into[row], column, path.push(row), (depth - 1) as nat);
        if after[row] is None {
            one_more_known(after, row, found);
        } else {
            still_known(after, row, found);
        }
    }
}

proof fn still_known(column: Seq<Option<int>>, row: int, c: int)
    requires
        0 <= row < column.len(),
        column[row] is Some,
    ensures
        known(column.update(row, Some(c))) == known(column),
    decreases column.len(),
{
    let after = column.update(row, Some(c));
    if row == column.len() - 1 {
        assert(after.drop_last() =~= column.drop_last());
    } else {
        assert(after.drop_last() =~= column.drop_last().update(row, Some(c)));
        still_known(column.drop_last(), row, c);
    }
}

pub(crate) proof fn known_only_grows_in_all(
    into: Seq<Seq<int>>,
    rows: Seq<int>,
    column: Seq<Option<int>>,
    path: Seq<int>,
    depth: nat,
)
    requires
        forall|k: int| 0 <= k < rows.len() ==> 0 <= #[trigger] rows[k] < column.len(),
        forall|i: int, k: int|
            0 <= i < into.len() && 0 <= k < into[i].len() ==> 0 <= #[trigger] into[i][k]
                < column.len(),
        column.len() == into.len(),
    ensures
        walked_all(into, rows, column, path, depth).1.len() == column.len(),
        known(walked_all(into, rows, column, path, depth).1) >= known(column),
    decreases depth, rows.len() + 1,
{
    if rows.len() > 0 {
        known_only_grows_in_all(into, rows.drop_last(), column, path, depth);
        let (_, between) = walked_all(into, rows.drop_last(), column, path, depth);
        assert(rows[rows.len() - 1] == rows.last());
        known_only_grows(into, rows.last(), between, path, depth);
    }
}

/// A walk learns nothing of a row on its path.
pub(crate) proof fn walking_keeps_the_path(
    into: Seq<Seq<int>>,
    row: int,
    column: Seq<Option<int>>,
    path: Seq<int>,
    depth: nat,
    on: int,
)
    requires
        path.contains(on),
        0 <= row < column.len(),
        forall|i: int, k: int|
            0 <= i < into.len() && 0 <= k < into[i].len() ==> 0 <= #[trigger] into[i][k]
                < column.len(),
        column.len() == into.len(),
        0 <= on < column.len(),
    ensures
        walked(into, row, column, path, depth).1[on] == column[on],
    decreases depth, 0nat,
{
    if column[row] is None && !path.contains(row) && depth > 0 {
        let k = choose|k: int| 0 <= k < path.len() && path[k] == on;
        assert(path.push(row)[k] == on);
        known_only_grows_in_all(into, into[row], column, path.push(row), (depth - 1) as nat);
        walking_all_keeps_the_path(
            into,
            into[row],
            column,
            path.push(row),
            (depth - 1) as nat,
            on,
        );
    }
}

pub(crate) proof fn walking_all_keeps_the_path(
    into: Seq<Seq<int>>,
    rows: Seq<int>,
    column: Seq<Option<int>>,
    path: Seq<int>,
    depth: nat,
    on: int,
)
    requires
        path.contains(on),
        forall|k: int| 0 <= k < rows.len() ==> 0 <= #[trigger] rows[k] < column.len(),
        forall|i: int, k: int|
            0 <= i < into.len() && 0 <= k < into[i].len() ==> 0 <= #[trigger] into[i][k]
                < column.len(),
        column.len() == into.len(),
        0 <= on < column.len(),
    ensures
        walked_all(into, rows, column, path, depth).1[on] == column[on],
    decreases depth, rows.len() + 1,
{
    if rows.len() > 0 {
        walking_all_keeps_the_path(into, rows.drop_last(), column, path, depth, on);
        let (_, between) = walked_all(into, rows.drop_last(), column, path, depth);
        known_only_grows_in_all(into, rows.drop_last(), column, path, depth);
        assert(rows[rows.len() - 1] == rows.last());
        walking_keeps_the_path(into, rows.last(), between, path, depth, on);
    }
}

/// Whether `marks` says which arrows are drawn.
spec fn marks_arrows(marks: Seq<Vec<bool>>, plan: PlanView, shown: Seq<Issue>) -> bool {
    &&& marks.len() == shown.len()
    &&& forall|i: int| 0 <= i < marks.len() ==> (#[trigger] marks[i])@.len() == shown.len()
    &&& forall|i: int, b: int|
        0 <= i < shown.len() && 0 <= b < shown.len() ==> #[trigger] marks[i]@[b] == arrow(
            plan.tree,
            shown,
            plan.blocking,
            i,
            b,
        )
}

/// The rows from which an arrow goes into row `issue`, in order.
fn rows_into(plan: &Plan, drawn: &Vec<&Issue>, marks: &Vec<Vec<bool>>, issue: usize) -> (r: Vec<
    usize,
>)
    requires
        marks_arrows(marks@, plan@, tree::reached(drawn@)),
        issue < drawn@.len(),
    ensures
        ints(r@) == arrows_into(plan@, tree::reached(drawn@), issue as int, drawn@.len()),
        forall|k: int| 0 <= k < r@.len() ==> #[trigger] r@[k] < drawn@.len(),
{
    let ghost shown = tree::reached(drawn@);
    let mut r: Vec<usize> = Vec::new();
    let mut b: usize = 0;
    assert(ints(r@) =~= Seq::<int>::empty());
    while b < drawn.len()
        invariant
            b <= drawn@.len(),
            shown == tree::reached(drawn@),
            marks_arrows(marks@, plan@, shown),
            issue < drawn@.len(),
            ints(r@) == arrows_into(plan@, shown, issue as int, b as nat),
            forall|k: int| 0 <= k < r@.len() ==> #[trigger] r@[k] < drawn@.len(),
        decreases drawn@.len() - b,
    {
        let ghost shorter = r@;
        if marks[issue][b] {
            r.push(b);
            assert(ints(r@) =~= ints(shorter).push(b as int));
        }
        assert(marks@[issue as int]@[b as int] == arrow(
            plan@.tree,
            shown,
            plan.blocking@,
            issue as int,
            b as int,
        ));
        b += 1;
    }
    r
}

/// The names of the rows into which an arrow goes from row `blocker`, in
/// order.
fn names_from(
    plan: &Plan,
    drawn: &Vec<&Issue>,
    marks: &Vec<Vec<bool>>,
    blocker: usize,
) -> (r: Vec<IssueId>)
    requires
        marks_arrows(marks@, plan@, tree::reached(drawn@)),
        blocker < drawn@.len(),
    ensures
        ids::names(r@) == names_of(
            tree::reached(drawn@),
            arrows_from(plan@, tree::reached(drawn@), blocker as int, drawn@.len()),
        ),
{
    let ghost shown = tree::reached(drawn@);
    let mut r: Vec<IssueId> = Vec::new();
    let mut i: usize = 0;
    assert(ids::names(r@) =~= names_of(shown, Seq::<int>::empty()));
    while i < drawn.len()
        invariant
            i <= drawn@.len(),
            shown == tree::reached(drawn@),
            marks_arrows(marks@, plan@, shown),
            blocker < drawn@.len(),
            ids::names(r@) == names_of(
                shown,
                arrows_from(plan@, shown, blocker as int, i as nat),
            ),
        decreases drawn@.len() - i,
    {
        let ghost shorter = r@;
        let ghost fewer = arrows_from(plan@, shown, blocker as int, i as nat);
        if marks[i][blocker] {
            r.push(drawn[i].id.clone());
            proof {
                assert(shown[i as int] == *drawn@[i as int]);
                assert(ids::names(r@) =~= ids::names(shorter).push(shown[i as int].id@));
                assert(names_of(shown, fewer.push(i as int)) =~= names_of(shown, fewer).push(
                    shown[i as int].id@,
                ));
            }
        }
        assert(marks@[i as int]@[blocker as int] == arrow(
            plan@.tree,
            shown,
            plan.blocking@,
            i as int,
            blocker as int,
        ));
        i += 1;
    }
    r
}

/// The column of each row.
fn columns_of(into: &Vec<Vec<usize>>) -> (r: Vec<Option<usize>>)
    requires
        is_graph(into@),
    ensures
        r@.len() == into@.len(),
        cells(r@) == columns_after(int_rows(into@), into@.len()),
{
    let ghost graph = int_rows(into@);
    let mut column: Vec<Option<usize>> = Vec::new();
    let mut i: usize = 0;
    while i < into.len()
        invariant
            i <= into@.len(),
            column@.len() == i,
            forall|k: int| 0 <= k < i ==> #[trigger] column@[k] is None,
        decreases into@.len() - i,
    {
        column.push(None);
        i += 1;
    }
    assert(cells(column@) =~= columns_after(graph, 0));
    let mut row: usize = 0;
    while row < into.len()
        invariant
            row <= into@.len(),
            is_graph(into@),
            graph == int_rows(into@),
            column@.len() == into@.len(),
            bounded(cells(column@)),
            cells(column@) == columns_after(graph, row as nat),
        decreases into@.len() - row,
    {
        let mut path: Vec<usize> = Vec::new();
        assert(ints(path@) =~= Seq::<int>::empty());
        longest(row, into, &mut column, &mut path);
        row += 1;
    }
    column
}

/// The blockers still holding `id`, in the order of the edges.
fn holders(plan: &Plan, id: &IssueId, done: &IdSet) -> (r: Vec<IssueId>)
    ensures
        ids::names(r@) == held_by(plan@, id@, done@),
{
    let blockers = plan.blockers(id);
    let ghost all = feature::blockers_of(plan.blocking@, id@);
    let ghost holds = |blocker: Seq<char>| !plan@.is_settled(blocker, done@);
    let mut r: Vec<IssueId> = Vec::new();
    let mut i: usize = 0;
    proof {
        reveal(Seq::filter);
        assert(ids::names(r@) =~= all.take(0).filter(holds));
    }
    while i < blockers.len()
        invariant
            i <= blockers@.len(),
            all == feature::blockers_of(plan.blocking@, id@),
            feature::reached_names(blockers@) == all,
            holds == (|blocker: Seq<char>| !plan@.is_settled(blocker, done@)),
            ids::names(r@) == all.take(i as int).filter(holds),
        decreases blockers@.len() - i,
    {
        let ghost shorter = r@;
        assert(feature::reached_names(blockers@)[i as int] == blockers@[i as int]@);
        if !plan.settled(blockers[i], done) {
            r.push(blockers[i].clone());
            assert(ids::names(r@) =~= ids::names(shorter).push(all[i as int]));
        }
        proof {
            reveal(Seq::filter);
            assert(all.take(i + 1).drop_last() =~= all.take(i as int));
            assert(all.take(i + 1).last() == all[i as int]);
        }
        i += 1;
    }
    assert(all.take(all.len() as int) =~= all);
    r
}

/// The issues whose work has landed.
pub fn merged(states: &IdMap<State>) -> (r: IdSet)
    requires
        states.wf(),
    ensures
        r.wf(),
        r@ == merged_ids(states@),
{
    let mut r = IdSet::new();
    let ghost listed = states.listed();
    let mut i: usize = 0;
    proof {
        states.listing();
    }
    while i < states.len()
        invariant
            i <= listed.len(),
            listed == states.listed(),
            states.wf(),
            r.wf(),
            forall|id: Seq<char>| #[trigger]
                r@.contains(id) == (listed.take(i as int).contains(id) && states@[id] is Merged),
        decreases listed.len() - i,
    {
        let (id, state) = states.entry(i);
        let ghost before = r@;
        if let State::Merged { .. } = state {
            r.insert(id.clone());
        }
        proof {
            let some = listed.take(i as int);
            let more = listed.take(i + 1);
            assert(more =~= some.push(id@));
            assert forall|x: Seq<char>| #[trigger] more.contains(x) == (some.contains(x) || x
                == id@) by {
                assert(more[i as int] == id@);
                if some.contains(x) {
                    let q = choose|q: int| 0 <= q < some.len() && some[q] == x;
                    assert(more[q] == x);
                }
                if more.contains(x) && x != id@ {
                    let q = choose|q: int| 0 <= q < more.len() && more[q] == x;
                    assert(some[q] == x);
                }
            }
            assert forall|x: Seq<char>| #[trigger]
                r@.contains(x) == (more.contains(x) && states@[x] is Merged) by {
                assert(before.contains(x) == (some.contains(x) && states@[x] is Merged));
                assert(more.contains(x) == (some.contains(x) || x == id@));
            }
        }
        i += 1;
    }
    proof {
        assert(listed.take(listed.len() as int) =~= listed);
        assert forall|x: Seq<char>| r@.contains(x) == merged_ids(states@).contains(x) by {
            assert(r@.contains(x) == (listed.contains(x) && states@[x] is Merged));
            assert(states@.dom().contains(x) == listed.contains(x));
        }
        assert(r@ =~= merged_ids(states@));
    }
    r
}

/// Whether one of the issues is named `id`.
pub fn is_among(issues: &Vec<&Issue>, id: &IssueId) -> (r: bool)
    ensures
        r == feature::named(tree::reached(issues@), id@),
{
    let ghost all = tree::reached(issues@);
    let mut i: usize = 0;
    while i < issues.len()
        invariant
            i <= issues@.len(),
            all == tree::reached(issues@),
            forall|k: int| 0 <= k < i ==> (#[trigger] all[k]).id@ != id@,
        decreases issues@.len() - i,
    {
        assert(all[i as int] == *issues@[i as int]);
        if issues[i].id.is(id) {
            return true;
        }
        i += 1;
    }
    false
}

/// The leaves in row order, each drawn where it stands.
fn nodes_of(
    plan: &Plan,
    states: &IdMap<State>,
    drawn: &Vec<&Issue>,
    marks: &Vec<Vec<bool>>,
) -> (r: Vec<Node>)
    requires
        states.wf(),
        tree::reached(drawn@) == self::drawn(plan@, states@),
        marks_arrows(marks@, plan@, tree::reached(drawn@)),
    ensures
        r@.len() == drawn@.len(),
        forall|row: int|
            0 <= row < drawn@.len() ==> is_node(#[trigger] r@[row], plan@, states@, row),
{
    let ghost shown = tree::reached(drawn@);
    let mut into: Vec<Vec<usize>> = Vec::new();
    let mut i: usize = 0;
    while i < drawn.len()
        invariant
            i <= drawn@.len(),
            shown == tree::reached(drawn@),
            marks_arrows(marks@, plan@, shown),
            into@.len() == i,
            forall|k: int|
                0 <= k < i ==> ints((#[trigger] into@[k])@) == arrows_into(
                    plan@,
                    shown,
                    k,
                    drawn@.len(),
                ),
            forall|k: int, m: int|
                0 <= k < i && 0 <= m < into@[k]@.len() ==> #[trigger] into@[k]@[m] < drawn@.len(),
        decreases drawn@.len() - i,
    {
        into.push(rows_into(plan, drawn, marks, i));
        i += 1;
    }
    assert(int_rows(into@) =~= into_of(plan@, shown));
    let column = columns_of(&into);
    let done = merged(states);
    let ready = plan.ready(&done);
    let mut r: Vec<Node> = Vec::new();
    let mut row: usize = 0;
    proof {
        let shows = |leaf: Issue| states@.dom().contains(leaf.id@);
        assert forall|k: int| 0 <= k < shown.len() implies states@.dom().contains(
            (#[trigger] shown[k]).id@,
        ) by {
            plan@.tree.leaves().lemma_filter_pred(shows, k);
        }
    }
    while row < drawn.len()
        invariant
            row <= drawn@.len(),
            states.wf(),
            shown == tree::reached(drawn@),
            shown == self::drawn(plan@, states@),
            forall|k: int|
                0 <= k < shown.len() ==> states@.dom().contains((#[trigger] shown[k]).id@),
            marks_arrows(marks@, plan@, shown),
            column@.len() == drawn@.len(),
            cells(column@) == columns_after(into_of(plan@, shown), shown.len()),
            done@ == merged_ids(states@),
            tree::reached(ready@) == plan@.ready_of(done@),
            r@.len() == row,
            forall|k: int| 0 <= k < row ==> is_node(#[trigger] r@[k], plan@, states@, k),
        decreases drawn@.len() - row,
    {
        let leaf = drawn[row];
        assert(shown[row as int] == *leaf);
        let at: usize = match column[row] {
            Some(c) => c,
            None => 0,
        };
        assert(cells(column@)[row as int] == (match column@[row as int] {
            Some(c) => Some(c as int),
            None => None,
        }));
        match states.get(&leaf.id) {
            Some(state) => {
                let is_ready = is_among(&ready, &leaf.id);
                let node = Node {
                    id: leaf.id.clone(),
                    title: leaf.title.clone(),
                    state: state.clone(),
                    form: form(state, is_ready),
                    column: at,
                    row,
                    blocked_by: holders(plan, &leaf.id, &done),
                    blocks: names_from(plan, drawn, marks, row),
                };
                assert(is_node(node, plan@, states@, row as int));
                r.push(node);
            },
            None => {},
        }
        row += 1;
    }
    r
}

/// The arrows, in (issue row, blocker row) order.
fn edges_of(plan: &Plan, drawn: &Vec<&Issue>, marks: &Vec<Vec<bool>>) -> (r: Vec<Edge>)
    requires
        marks_arrows(marks@, plan@, tree::reached(drawn@)),
    ensures
        r@.len() == arrows(plan@, tree::reached(drawn@), drawn@.len()).len(),
        forall|k: int|
            0 <= k < r@.len() ==> (#[trigger] r@[k]).issue@ == drawn@[arrows(
                plan@,
                tree::reached(drawn@),
                drawn@.len(),
            )[k].0].id@ && r@[k].blocker@ == drawn@[arrows(
                plan@,
                tree::reached(drawn@),
                drawn@.len(),
            )[k].1].id@,
{
    let ghost shown = tree::reached(drawn@);
    let mut r: Vec<Edge> = Vec::new();
    let mut i: usize = 0;
    while i < drawn.len()
        invariant
            i <= drawn@.len(),
            shown == tree::reached(drawn@),
            marks_arrows(marks@, plan@, shown),
            r@.len() == arrows(plan@, shown, i as nat).len(),
            forall|k: int|
                0 <= k < r@.len() ==> (#[trigger] r@[k]).issue@ == drawn@[arrows(
                    plan@,
                    shown,
                    i as nat,
                )[k].0].id@ && r@[k].blocker@ == drawn@[arrows(plan@, shown, i as nat)[k].1].id@,
        decreases drawn@.len() - i,
    {
        let rows = rows_into(plan, drawn, marks, i);
        let ghost start = r@;
        let ghost fewer = arrows(plan@, shown, i as nat);
        let ghost more = arrows(plan@, shown, (i + 1) as nat);
        let ghost here = arrows_into(plan@, shown, i as int, drawn@.len());
        let mut m: usize = 0;
        while m < rows.len()
            invariant
                m <= rows@.len(),
                i < drawn@.len(),
                here == ints(rows@),
                forall|k: int| 0 <= k < rows@.len() ==> #[trigger] rows@[k] < drawn@.len(),
                more == fewer + here.map_values(|blocker: int| (i as int, blocker)),
                start.len() == fewer.len(),
                r@.len() == fewer.len() + m,
                forall|k: int|
                    0 <= k < r@.len() ==> (#[trigger] r@[k]).issue@ == drawn@[more[k].0].id@
                        && r@[k].blocker@ == drawn@[more[k].1].id@,
            decreases rows@.len() - m,
        {
            let b: usize = rows[m];
            proof {
                assert(here[m as int] == b);
                assert(more[fewer.len() + m] == (i as int, b as int));
            }
            r.push(Edge { blocker: drawn[b].id.clone(), issue: drawn[i].id.clone() });
            m += 1;
        }
        i += 1;
    }
    r
}

/// A box and the rows it spans: its place in the tree, its first row and its
/// last.
struct Span {
    depth: usize,
    first: usize,
    last: usize,
}

spec fn spans(span: Span, seen: BoxView) -> bool {
    span.depth == seen.depth && span.first == least(seen.rows) && span.last == greatest(seen.rows)
}

fn span_of(depth: usize, rows: &Vec<usize>) -> (r: Span)
    requires
        rows@.len() > 0,
    ensures
        r.depth == depth,
        r.first == least(ints(rows@)),
        r.last == greatest(ints(rows@)),
{
    let ghost all = ints(rows@);
    let mut first: usize = rows[0];
    let mut last: usize = rows[0];
    let mut i: usize = 1;
    assert(all.take(1)[0] == rows@[0]);
    while i < rows.len()
        invariant
            1 <= i <= rows@.len(),
            all == ints(rows@),
            first == least(all.take(i as int)),
            last == greatest(all.take(i as int)),
        decreases rows@.len() - i,
    {
        proof {
            assert(all.take(i + 1).drop_last() =~= all.take(i as int));
            assert(all.take(i + 1).last() == rows@[i as int]);
        }
        if rows[i] < first {
            first = rows[i];
        }
        if rows[i] > last {
            last = rows[i];
        }
        i += 1;
    }
    assert(all.take(all.len() as int) =~= all);
    Span { depth, first, last }
}

/// The names of the rows.
fn names_at(drawn: &Vec<&Issue>, rows: &Vec<usize>) -> (r: Vec<IssueId>)
    requires
        forall|k: int| 0 <= k < rows@.len() ==> #[trigger] rows@[k] < drawn@.len(),
    ensures
        ids::names(r@) == names_of(tree::reached(drawn@), ints(rows@)),
{
    let ghost shown = tree::reached(drawn@);
    let ghost all = ints(rows@);
    let mut r: Vec<IssueId> = Vec::new();
    let mut i: usize = 0;
    assert(ids::names(r@) =~= names_of(shown, all.take(0)));
    while i < rows.len()
        invariant
            i <= rows@.len(),
            shown == tree::reached(drawn@),
            all == ints(rows@),
            forall|k: int| 0 <= k < rows@.len() ==> #[trigger] rows@[k] < drawn@.len(),
            ids::names(r@) == names_of(shown, all.take(i as int)),
        decreases rows@.len() - i,
    {
        let ghost shorter = r@;
        let at: usize = rows[i];
        r.push(drawn[at].id.clone());
        proof {
            assert(shown[at as int] == *drawn@[at as int]);
            assert(all[i as int] == at);
            assert(ids::names(r@) =~= ids::names(shorter).push(shown[at as int].id@));
            assert(all.take(i + 1) =~= all.take(i as int).push(at as int));
            assert(names_of(shown, all.take(i + 1)) =~= names_of(shown, all.take(i as int)).push(
                shown[at as int].id@,
            ));
        }
        i += 1;
    }
    assert(all.take(all.len() as int) =~= all);
    r
}

/// Whether `container` is the box `seen`, its height not yet found.
spec fn is_flat(container: Container, shown: Seq<Issue>, seen: BoxView) -> bool {
    &&& container.id == seen.id
    &&& container.title == seen.title
    &&& container.depth == seen.depth
    &&& ids::names(container.leaves@) == names_of(shown, seen.rows)
}

/// The boxes, in tree order, with the rows they span.
fn containers_of(plan: &Plan, drawn: &Vec<&Issue>) -> (r: Vec<Container>)
    ensures
        r@.len() == boxes(plan@, tree::reached(drawn@)).len(),
        forall|k: int|
            0 <= k < r@.len() ==> is_container(
                #[trigger] r@[k],
                tree::reached(drawn@),
                boxes(plan@, tree::reached(drawn@)),
                boxes(plan@, tree::reached(drawn@))[k],
            ),
{
    let ghost shown = tree::reached(drawn@);
    let ghost boxed = |issue: Issue| box_of(plan@.tree, shown, issue);
    let nodes = plan.tree.nodes();
    let ghost all = plan@.tree.nodes();
    let mut flat: Vec<Container> = Vec::new();
    let mut spans: Vec<Span> = Vec::new();
    let mut i: usize = 0;
    assert(all.take(0).filter_map(boxed) =~= Seq::<BoxView>::empty());
    while i < nodes.len()
        invariant
            i <= nodes@.len(),
            shown == tree::reached(drawn@),
            boxed == (|issue: Issue| box_of(plan@.tree, shown, issue)),
            all == plan@.tree.nodes(),
            tree::reached(nodes@) == all,
            flat@.len() == all.take(i as int).filter_map(boxed).len(),
            spans@.len() == flat@.len(),
            forall|k: int|
                0 <= k < flat@.len() ==> is_flat(
                    #[trigger] flat@[k],
                    shown,
                    all.take(i as int).filter_map(boxed)[k],
                ),
            forall|k: int|
                0 <= k < spans@.len() ==> self::spans(
                    #[trigger] spans@[k],
                    all.take(i as int).filter_map(boxed)[k],
                ),
        decreases nodes@.len() - i,
    {
        let issue = nodes[i];
        let ghost fewer = all.take(i as int).filter_map(boxed);
        proof {
            assert(tree::reached(nodes@)[i as int] == *issue);
            assert(all.take(i + 1).drop_last() =~= all.take(i as int));
            assert(all.take(i + 1).last() == *issue);
            assert(feature::named(all, issue.id@));
            feature::paths_reach(plan@.tree, issue.id@);
        }
        match feature::find_path(&plan.tree, &issue.id) {
            Some(path) => {
                let node = path[path.len() - 1];
                if path.len() != 1 && !node.is_leaf() {
                    let rows = rows_beneath(plan, drawn, &issue.id);
                    if rows.len() > 0 {
                        let depth: usize = path.len() - 1;
                        spans.push(span_of(depth, &rows));
                        flat.push(
                            Container {
                                id: issue.id.clone(),
                                title: issue.title.clone(),
                                depth,
                                height: 0,
                                leaves: names_at(drawn, &rows),
                            },
                        );
                    }
                }
            },
            None => {},
        }
        i += 1;
    }
    assert(all.take(all.len() as int) =~= all);
    let ghost seen = boxes(plan@, shown);
    let ghost count = flat@.len();
    let mut r: Vec<Container> = Vec::new();
    let mut j: usize = 0;
    while j < spans.len()
        invariant
            j <= spans@.len(),
            spans@.len() == count,
            seen.len() == count,
            flat@.len() == count - j,
            r@.len() == j,
            forall|k: int|
                0 <= k < flat@.len() ==> is_flat(#[trigger] flat@[k], shown, seen[j + k]),
            forall|k: int| 0 <= k < count ==> self::spans(#[trigger] spans@[k], seen[k]),
            forall|k: int|
                0 <= k < j ==> is_container(#[trigger] r@[k], shown, seen, seen[k]),
        decreases spans@.len() - j,
    {
        let outer = &spans[j];
        let mut height: usize = 0;
        let mut m: usize = 0;
        assert(seen.take(0) =~= Seq::<BoxView>::empty());
        while m < spans.len()
            invariant
                m <= spans@.len(),
                spans@.len() == seen.len(),
                j < spans@.len(),
                *outer == spans@[j as int],
                forall|k: int| 0 <= k < spans@.len() ==> self::spans(#[trigger] spans@[k], seen[k]),
                height == height_of(seen.take(m as int), seen[j as int]),
            decreases spans@.len() - m,
        {
            let inner = &spans[m];
            proof {
                assert(seen.take(m + 1).drop_last() =~= seen.take(m as int));
                assert(seen.take(m + 1).last() == seen[m as int]);
                assert(self::spans(spans@[m as int], seen[m as int]));
                assert(self::spans(spans@[j as int], seen[j as int]));
            }
            if inner.depth > outer.depth && inner.first >= outer.first && inner.last <= outer.last
                && inner.depth - outer.depth > height {
                height = inner.depth - outer.depth;
            }
            m += 1;
        }
        assert(seen.take(seen.len() as int) =~= seen);
        let ghost before = flat@;
        let mut container = flat.remove(0);
        assert(is_flat(before[0], shown, seen[j + 0]));
        container.height = height;
        r.push(container);
        proof {
            assert forall|k: int| 0 <= k < flat@.len() implies is_flat(
                #[trigger] flat@[k],
                shown,
                seen[j + 1 + k],
            ) by {
                assert(flat@[k] == before[k + 1]);
                assert(is_flat(before[k + 1], shown, seen[j + (k + 1)]));
            }
        }
        j += 1;
    }
    r
}

/// The picture of `plan` with every issue in `states` drawn where it
/// stands. Pure: the same plan and states give the same picture.
pub fn layout(plan: &Plan, states: &IdMap<State>) -> (r: Layout)
    requires
        states.wf(),
    ensures
        is_layout(r, plan@, states@),
        forall|i: int|
            0 <= i < r.nodes@.len() ==> (#[trigger] r.nodes@[i]).column < r.nodes@.len(),
{
    let shown = drawn_leaves(plan, states);
    let marks = marked(plan, &shown);
    let ghost all = tree::reached(shown@);
    let edges = edges_of(plan, &shown, &marks);
    proof {
        let listed = arrows(plan@, all, all.len());
        arrows_are_in_range(plan@, all, all.len());
        assert forall|k: int| 0 <= k < listed.len() implies (#[trigger] edges@[k]).issue@
            == all[listed[k].0].id@ && edges@[k].blocker@ == all[listed[k].1].id@ by {
            assert(0 <= listed[k].0 < all.len() && 0 <= listed[k].1 < all.len());
            assert(all[listed[k].0] == *shown@[listed[k].0]);
            assert(all[listed[k].1] == *shown@[listed[k].1]);
        }
    }
    let nodes = nodes_of(plan, states, &shown, &marks);
    proof {
        assert forall|i: int| 0 <= i < nodes@.len() implies (#[trigger] nodes@[i]).column
            < nodes@.len() by {
            assert(is_node(nodes@[i], plan@, states@, i));
            layout_laws::columns_are_few(plan@, all, i);
        }
    }
    Layout { nodes, edges, containers: containers_of(plan, &shown) }
}

pub(crate) proof fn arrows_into_are_in_range(plan: PlanView, shown: Seq<Issue>, issue: int, most: nat)
    ensures
        forall|k: int|
            0 <= k < arrows_into(plan, shown, issue, most).len() ==> 0 <= #[trigger] arrows_into(
                plan,
                shown,
                issue,
                most,
            )[k] < most,
    decreases most,
{
    if most > 0 {
        arrows_into_are_in_range(plan, shown, issue, (most - 1) as nat);
        let all = arrows_into(plan, shown, issue, most);
        let fewer = arrows_into(plan, shown, issue, (most - 1) as nat);
        assert forall|k: int| 0 <= k < all.len() implies 0 <= #[trigger] all[k] < most by {
            if k < fewer.len() {
                assert(all[k] == fewer[k]);
            }
        }
    }
}

proof fn arrows_are_in_range(plan: PlanView, shown: Seq<Issue>, most: nat)
    requires
        most <= shown.len(),
    ensures
        forall|k: int|
            0 <= k < arrows(plan, shown, most).len() ==> 0 <= (#[trigger] arrows(
                plan,
                shown,
                most,
            )[k]).0 < most && 0 <= arrows(plan, shown, most)[k].1 < shown.len(),
    decreases most,
{
    if most > 0 {
        arrows_are_in_range(plan, shown, (most - 1) as nat);
        arrows_into_are_in_range(plan, shown, most - 1, shown.len());
        let fewer = arrows(plan, shown, (most - 1) as nat);
        let here = arrows_into(plan, shown, most - 1, shown.len());
        assert forall|k: int|
            0 <= k < arrows(plan, shown, most).len() implies 0 <= (#[trigger] arrows(
            plan,
            shown,
            most,
        )[k]).0 < most && 0 <= arrows(plan, shown, most)[k].1 < shown.len() by {
            if k >= fewer.len() {
                assert(arrows(plan, shown, most)[k] == (most - 1, here[k - fewer.len()]));
            }
        }
    }
}

} // verus!
