//! What holds of every picture of a build.

use crate::feature;
use crate::feature::layout;
use crate::feature::layout::{Form, Layout};
use crate::feature::{Issue, Plan, State};
use crate::ids;
use crate::ids::{IdMap, IdSet};
use crate::tree;
use vstd::prelude::*;

verus! {

/// Law: every leaf of the plan that has a state is drawn, one to a row in
/// the order of the tree, and nothing else is: each under its own id and
/// title, and in its own state.
pub proof fn every_leaf_with_a_state_is_drawn(
    plan: &Plan,
    states: &IdMap<State>,
    r: Layout,
    row: int,
)
    requires
        states.wf(),
        call_ensures(layout::layout, (plan, states), r),
    ensures
        ({
            let leaves = plan.tree@.leaves().filter(
                |leaf: Issue| states@.dom().contains(leaf.id@),
            );
            &&& r.nodes@.len() == leaves.len()
            &&& 0 <= row < r.nodes@.len() ==> {
                &&& r.nodes@[row].row == row
                &&& r.nodes@[row].id == leaves[row].id
                &&& r.nodes@[row].title == leaves[row].title
                &&& r.nodes@[row].state == states@[leaves[row].id@]
            }
        }),
{
}

/// Law: a node is drawn in the form of its state; one that waits is ready
/// just where the plan says so of what is merged, and blocked where not.
pub proof fn a_node_is_drawn_as_it_stands(
    plan: &Plan,
    states: &IdMap<State>,
    r: Layout,
    row: int,
    done: &IdSet,
    ready: Vec<&Issue>,
)
    requires
        states.wf(),
        call_ensures(layout::layout, (plan, states), r),
        0 <= row < r.nodes@.len(),
        forall|id: Seq<char>| #[trigger]
            done@.contains(id) <==> states@.dom().contains(id) && states@[id] is Merged,
        call_ensures(Plan::ready, (plan, done), ready),
    ensures
        ({
            let node = r.nodes@[row];
            let first = feature::named(tree::reached(ready@), node.id@);
            &&& node.state is Running <==> node.form == Form::Running
            &&& node.state is Merging <==> node.form == Form::Merging
            &&& node.state is Merged <==> node.form == Form::Merged
            &&& node.state is Failed <==> node.form == Form::Failed
            &&& node.state is Skipped <==> node.form == Form::Skipped
            &&& node.state is Waiting && first <==> node.form == Form::Ready
            &&& node.state is Waiting && !first <==> node.form == Form::Blocked
        }),
{
    assert(done@ =~= layout::merged_ids(states@));
    assert(layout::is_node(r.nodes@[row], plan@, states@, row));
}

/// Law: what a node is said to be blocked by is a blocker that an edge of
/// the plan names for it and that is not settled, and no such blocker is
/// left out.
pub proof fn a_node_is_blocked_by_what_is_not_settled(
    plan: &Plan,
    states: &IdMap<State>,
    r: Layout,
    row: int,
    blocker: Seq<char>,
    done: Set<Seq<char>>,
)
    requires
        states.wf(),
        call_ensures(layout::layout, (plan, states), r),
        0 <= row < r.nodes@.len(),
        forall|id: Seq<char>| #[trigger]
            done.contains(id) <==> states@.dom().contains(id) && states@[id] is Merged,
    ensures
        ids::names(r.nodes@[row].blocked_by@).contains(blocker) <==> feature::blockers_of(
            plan.blocking@,
            r.nodes@[row].id@,
        ).contains(blocker) && !plan@.is_settled(blocker, done),
{
    assert(done =~= layout::merged_ids(states@));
    let node = r.nodes@[row];
    assert(layout::is_node(node, plan@, states@, row));
    let all = feature::blockers_of(plan.blocking@, node.id@);
    let open = |blocker: Seq<char>| !plan@.is_settled(blocker, layout::merged_ids(states@));
    let held = ids::names(node.blocked_by@);
    assert(held == all.filter(open));
    if held.contains(blocker) {
        let i = choose|i: int| 0 <= i < held.len() && held[i] == blocker;
        all.lemma_filter_pred(open, i);
        all.lemma_filter_contains_rev(open, blocker);
    }
    if all.contains(blocker) && !plan@.is_settled(blocker, done) {
        let i = choose|i: int| 0 <= i < all.len() && all[i] == blocker;
        all.lemma_filter_contains(open, i);
    }
}

/// Law: the picture spans as many columns as its last is, counted from
/// one, and as many rows as it has nodes.
pub proof fn a_picture_spans_its_nodes(picture: &Layout, columns: usize, i: int)
    requires
        forall|i: int|
            0 <= i < picture.nodes@.len() ==> (#[trigger] picture.nodes@[i]).column < usize::MAX,
        call_ensures(Layout::columns, (picture,), columns),
    ensures
        picture.nodes@.len() == 0 ==> columns == 0,
        0 <= i < picture.nodes@.len() ==> picture.nodes@[i].column < columns,
        picture.nodes@.len() > 0 ==> exists|k: int|
            0 <= k < picture.nodes@.len() && (#[trigger] picture.nodes@[k]).column + 1 == columns,
{
    the_width_is_the_widest(picture.nodes@, i);
}

proof fn the_width_is_the_widest(nodes: Seq<layout::Node>, i: int)
    ensures
        layout::width(nodes) >= 0,
        0 <= i < nodes.len() ==> nodes[i].column < layout::width(nodes),
        nodes.len() > 0 ==> exists|k: int|
            0 <= k < nodes.len() && (#[trigger] nodes[k]).column + 1 == layout::width(nodes),
    decreases nodes.len(),
{
    if nodes.len() > 0 {
        let front = nodes.drop_last();
        the_width_is_the_widest(front, i);
        let rest = layout::width(front);
        if nodes.last().column + 1 > rest {
            assert(nodes[nodes.len() - 1].column + 1 == layout::width(nodes));
        } else {
            let k = choose|k: int| 0 <= k < front.len() && (#[trigger] front[k]).column + 1 == rest;
            assert(nodes[k].column + 1 == layout::width(nodes));
        }
        if 0 <= i < front.len() {
            assert(front[i] == nodes[i]);
        }
    }
}

} // verus!
