//! What holds of every plan.

use crate::feature;
use crate::feature::{Issue, PlanView};
use crate::tree;
use crate::tree::TreeView;
use vstd::prelude::*;

verus! {

/// Whether no two nodes of the tree have one name.
pub open spec fn unique(tree: TreeView<Issue>) -> bool {
    feature::issue_names(tree.nodes()).no_duplicates()
}

/// Whether no two nodes of the trees have one name.
pub(crate) open spec fn forest_unique(trees: Seq<TreeView<Issue>>) -> bool {
    feature::issue_names(tree::forest_nodes(trees)).no_duplicates()
}

/// The rule of settling, read down the tree: done, or closed in the
/// tracker, or a container whose every child is settled.
pub open spec fn settled_by_rule(node: TreeView<Issue>, done: Set<Seq<char>>) -> bool
    decreases node,
{
    feature::finished(node.value, done) || (node.children.len() > 0 && all_settled_by_rule(
        node.children,
        done,
    ))
}

/// Whether each of the trees is settled by the rule.
pub open spec fn all_settled_by_rule(trees: Seq<TreeView<Issue>>, done: Set<Seq<char>>) -> bool
    decreases trees,
{
    trees.len() == 0 || (all_settled_by_rule(trees.drop_last(), done) && settled_by_rule(
        trees.last(),
        done,
    ))
}

/// Two rows of issues whose names do not repeat share none.
pub(crate) proof fn unique_in_two(one: Seq<Issue>, two: Seq<Issue>)
    requires
        feature::issue_names(one + two).no_duplicates(),
    ensures
        feature::issue_names(one).no_duplicates(),
        feature::issue_names(two).no_duplicates(),
        forall|id: Seq<char>| !(#[trigger] feature::named(one, id) && feature::named(two, id)),
{
    let both = feature::issue_names(one + two);
    assert forall|i: int, j: int| 0 <= i < j < one.len() implies feature::issue_names(one)[i]
        != feature::issue_names(one)[j] by {
        assert(both[i] == one[i].id@ && both[j] == one[j].id@);
    }
    assert forall|i: int, j: int| 0 <= i < j < two.len() implies feature::issue_names(two)[i]
        != feature::issue_names(two)[j] by {
        assert(both[one.len() + i] == two[i].id@ && both[one.len() + j] == two[j].id@);
    }
    assert forall|id: Seq<char>| !(#[trigger] feature::named(one, id) && feature::named(
        two,
        id,
    )) by {
        if feature::named(one, id) && feature::named(two, id) {
            let i = choose|i: int| 0 <= i < one.len() && (#[trigger] one[i]).id@ == id;
            let j = choose|j: int| 0 <= j < two.len() && (#[trigger] two[j]).id@ == id;
            assert(both[i] == id && both[one.len() + j] == id);
        }
    }
}

/// The way into a row of trees is the way into all but the last, or else
/// into the last.
proof fn forest_path_in_two(trees: Seq<TreeView<Issue>>, id: Seq<char>)
    requires
        trees.len() > 0,
    ensures
        feature::forest_path(trees, id) == (match feature::forest_path(trees.drop_last(), id) {
            Some(path) => Some(path),
            None => feature::path_to(trees.last(), id),
        }),
    decreases trees.len(),
{
    if trees.len() == 1 {
        assert(trees.drop_first() =~= Seq::<TreeView<Issue>>::empty());
        assert(trees.drop_last() =~= Seq::<TreeView<Issue>>::empty());
        assert(feature::forest_path(trees.drop_first(), id) is None);
        assert(feature::forest_path(trees.drop_last(), id) is None);
    } else {
        forest_path_in_two(trees.drop_first(), id);
        assert(trees.drop_first().drop_last() =~= trees.drop_last().drop_first());
        assert(trees.drop_first().last() == trees.last());
        assert(trees.drop_last()[0] == trees[0]);
    }
}

/// Whether every chain from a root down to a leaf passes through an issue
/// that is done or closed.
spec fn forest_settled(trees: Seq<TreeView<Issue>>, done: Set<Seq<char>>) -> bool {
    forall|i: int|
        0 <= i < tree::forest_leaves(trees).len() ==> feature::covered(
            feature::forest_path(trees, (#[trigger] tree::forest_leaves(trees)[i]).id@)->0,
            done,
        )
}

proof fn a_forest_settles_by_the_rule(trees: Seq<TreeView<Issue>>, done: Set<Seq<char>>)
    requires
        forest_unique(trees),
    ensures
        forest_settled(trees, done) == all_settled_by_rule(trees, done),
    decreases trees,
{
    if trees.len() > 0 {
        let front = trees.drop_last();
        let last = trees.last();
        let one = tree::forest_leaves(front);
        let two = last.leaves();
        let all = tree::forest_leaves(trees);
        unique_in_two(tree::forest_nodes(front), last.nodes());
        a_forest_settles_by_the_rule(front, done);
        a_tree_settles_by_the_rule(last, done);
        assert forall|i: int| 0 <= i < one.len() implies feature::forest_path(
            trees,
            (#[trigger] one[i]).id@,
        ) == feature::forest_path(front, one[i].id@) by {
            feature::forest_leaves_are_nodes(front, i);
            feature::forest_paths_reach(front, one[i].id@);
            forest_path_in_two(trees, one[i].id@);
        }
        assert forall|i: int| 0 <= i < two.len() implies feature::forest_path(
            trees,
            (#[trigger] two[i]).id@,
        ) == feature::path_to(last, two[i].id@) by {
            feature::leaves_are_nodes(last, i);
            assert(!feature::named(tree::forest_nodes(front), two[i].id@));
            feature::forest_paths_reach(front, two[i].id@);
            forest_path_in_two(trees, two[i].id@);
        }
        if forest_settled(trees, done) {
            assert forall|i: int| 0 <= i < one.len() implies feature::covered(
                feature::forest_path(front, (#[trigger] one[i]).id@)->0,
                done,
            ) by {
                assert(all[i] == one[i]);
            }
            assert forall|i: int| 0 <= i < two.len() implies feature::covered(
                feature::path_to(last, (#[trigger] two[i]).id@)->0,
                done,
            ) by {
                assert(all[one.len() + i] == two[i]);
            }
        }
        if forest_settled(front, done) && feature::subtree_settled(last, done) {
            assert forall|i: int| 0 <= i < all.len() implies feature::covered(
                feature::forest_path(trees, (#[trigger] all[i]).id@)->0,
                done,
            ) by {
                if i < one.len() {
                    assert(all[i] == one[i]);
                } else {
                    assert(all[i] == two[i - one.len()]);
                }
            }
        }
    }
}

proof fn a_tree_settles_by_the_rule(node: TreeView<Issue>, done: Set<Seq<char>>)
    requires
        unique(node),
    ensures
        feature::subtree_settled(node, done) == settled_by_rule(node, done),
    decreases node,
{
    let leaves = node.leaves();
    let beneath = node.children;
    unique_in_two(seq![node.value], tree::forest_nodes(beneath));
    assert forall|i: int| 0 <= i < leaves.len() implies feature::path_to(
        node,
        (#[trigger] leaves[i]).id@,
    ) matches Some(path) && path[0] == node by {
        feature::leaves_are_reached(node, i);
        feature::paths_reach(node, leaves[i].id@);
    }
    if feature::finished(node.value, done) {
        assert forall|i: int| 0 <= i < leaves.len() implies feature::covered(
            feature::path_to(node, (#[trigger] leaves[i]).id@)->0,
            done,
        ) by {
            let path = feature::path_to(node, leaves[i].id@)->0;
            feature::paths_reach(node, leaves[i].id@);
            assert(feature::finished(path[0].value, done));
        }
    } else if beneath.len() == 0 {
        assert(leaves[0] == node.value);
        let path = feature::path_to(node, leaves[0].id@)->0;
        assert(path =~= seq![node]);
        assert(!feature::covered(path, done));
    } else {
        a_forest_settles_by_the_rule(beneath, done);
        assert forall|i: int| 0 <= i < leaves.len() implies feature::covered(
            feature::path_to(node, (#[trigger] leaves[i]).id@)->0,
            done,
        ) == feature::covered(feature::forest_path(beneath, leaves[i].id@)->0, done) by {
            feature::forest_leaves_are_nodes(beneath, i);
            assert(!feature::named(seq![node.value], leaves[i].id@));
            assert(seq![node.value][0] == node.value);
            feature::forest_paths_reach(beneath, leaves[i].id@);
            let short = feature::forest_path(beneath, leaves[i].id@)->0;
            let path = seq![node] + short;
            assert(feature::path_to(node, leaves[i].id@) == Some(path));
            if feature::covered(short, done) {
                let k = choose|k: int|
                    0 <= k < short.len() && feature::finished((#[trigger] short[k]).value, done);
                assert(path[k + 1] == short[k]);
            }
            if feature::covered(path, done) {
                let k = choose|k: int|
                    0 <= k < path.len() && feature::finished((#[trigger] path[k]).value, done);
                assert(path[k] == short[k - 1]);
            }
        }
        if feature::subtree_settled(node, done) {
            assert forall|i: int| 0 <= i < tree::forest_leaves(beneath).len() implies
                feature::covered(
                feature::forest_path(
                    beneath,
                    (#[trigger] tree::forest_leaves(beneath)[i]).id@,
                )->0,
                done,
            ) by {
                assert(leaves[i] == tree::forest_leaves(beneath)[i]);
            }
        }
    }
}

/// Where no two nodes have one name, a node is settled just when the rule
/// says so: done, or closed, or a container whose every child is settled.
pub proof fn settling_is_the_rule(node: TreeView<Issue>, done: Set<Seq<char>>)
    requires
        unique(node),
    ensures
        feature::subtree_settled(node, done) == settled_by_rule(node, done),
{
    a_tree_settles_by_the_rule(node, done);
}

/// What is settled stays settled when more is done.
pub proof fn settling_only_grows(
    plan: PlanView,
    id: Seq<char>,
    fewer: Set<Seq<char>>,
    more: Set<Seq<char>>,
)
    requires
        fewer.subset_of(more),
        plan.is_settled(id, fewer),
    ensures
        plan.is_settled(id, more),
{
    if let Some(path) = feature::path_to(plan.tree, id) {
        if feature::subtree_settled(path.last(), fewer) {
            let node = path.last();
            assert forall|i: int| 0 <= i < node.leaves().len() implies feature::covered(
                feature::path_to(node, (#[trigger] node.leaves()[i]).id@)->0,
                more,
            ) by {
                let way = feature::path_to(node, node.leaves()[i].id@)->0;
                assert(feature::covered(way, fewer));
                let k = choose|k: int|
                    0 <= k < way.len() && feature::finished((#[trigger] way[k]).value, fewer);
                assert(feature::finished(way[k].value, more));
            }
        }
    }
}

/// An id the plan does not know is never settled, whatever is done, and
/// never will be.
pub proof fn the_unknown_is_never_settled(plan: PlanView, id: Seq<char>, done: Set<Seq<char>>)
    requires
        !plan.knows(id),
    ensures
        !plan.is_settled(id, done),
        forall|alive: Set<Seq<char>>| !plan.can_settle(id, done, alive),
{
}

/// What is ready is work whose every blocker is settled, and work is a leaf
/// under no settled node.
pub proof fn ready_is_work(plan: PlanView, done: Set<Seq<char>>, i: int)
    requires
        0 <= i < plan.ready_of(done).len(),
    ensures
        plan.work_of(done).contains(plan.ready_of(done)[i]),
        plan.tree.leaves().contains(plan.ready_of(done)[i]),
        plan.is_work(plan.ready_of(done)[i], done),
        plan.is_released(plan.ready_of(done)[i].id@, done),
{
    let released = |leaf: Issue| plan.is_released(leaf.id@, done);
    let open = |leaf: Issue| plan.is_work(leaf, done);
    let leaf = plan.ready_of(done)[i];
    plan.work_of(done).lemma_filter_pred(released, i);
    assert(plan.ready_of(done).contains(leaf));
    plan.work_of(done).lemma_filter_contains_rev(released, leaf);
    let k = choose|k: int| 0 <= k < plan.work_of(done).len() && plan.work_of(done)[k] == leaf;
    plan.tree.leaves().lemma_filter_pred(open, k);
    plan.tree.leaves().lemma_filter_contains_rev(open, leaf);
}

/// A leaf that is ready and not lost is among those that can land, so it is
/// never doomed.
pub proof fn the_ready_are_not_doomed(plan: PlanView, done: Set<Seq<char>>, lost: Set<Seq<char>>,
    i: int)
    requires
        0 <= i < plan.ready_of(done).len(),
    ensures
        !plan.is_doomed(plan.ready_of(done)[i].id@, done, lost),
{
    ready_is_work(plan, done, i);
    let leaf = plan.ready_of(done)[i];
    let none = Set::<Seq<char>>::empty();
    let blockers = feature::blockers_of(plan.blocking, leaf.id@);
    assert(plan.unstuck(leaf.id@, done, none)) by {
        assert forall|k: int| 0 <= k < blockers.len() implies plan.can_settle(
            #[trigger] blockers[k],
            done,
            none,
        ) by {
            assert(plan.is_settled(blockers[k], done));
        }
    }
    if !lost.contains(leaf.id@) {
        let k = choose|k: int| 0 <= k < plan.work_of(done).len() && plan.work_of(done)[k] == leaf;
        plan.unstuck_work_lands(k, done, lost, none);
    }
}

proof fn forest_paths_end_at_leaves(trees: Seq<TreeView<Issue>>, i: int)
    requires
        forest_unique(trees),
        0 <= i < tree::forest_leaves(trees).len(),
    ensures
        feature::forest_path(trees, tree::forest_leaves(trees)[i].id@) matches Some(path)
            && path.len() > 0 && path.last().children.len() == 0,
    decreases trees,
{
    let front = trees.drop_last();
    let last = trees.last();
    let one = tree::forest_leaves(front);
    let leaf = tree::forest_leaves(trees)[i];
    unique_in_two(tree::forest_nodes(front), last.nodes());
    forest_path_in_two(trees, leaf.id@);
    if i < one.len() {
        forest_paths_end_at_leaves(front, i);
    } else {
        feature::leaves_are_nodes(last, i - one.len());
        assert(!feature::named(tree::forest_nodes(front), leaf.id@));
        feature::forest_paths_reach(front, leaf.id@);
        paths_end_at_leaves(last, i - one.len());
    }
}

/// Where no two nodes have one name, the way to a leaf's name ends at a
/// node with nothing beneath it.
pub(crate) proof fn paths_end_at_leaves(node: TreeView<Issue>, i: int)
    requires
        unique(node),
        0 <= i < node.leaves().len(),
    ensures
        feature::path_to(node, node.leaves()[i].id@) matches Some(path) && path.len() > 0
            && path.last().children.len() == 0,
    decreases node,
{
    let leaf = node.leaves()[i];
    unique_in_two(seq![node.value], tree::forest_nodes(node.children));
    if node.children.len() > 0 {
        forest_paths_end_at_leaves(node.children, i);
        feature::forest_leaves_are_nodes(node.children, i);
        assert(!feature::named(seq![node.value], leaf.id@));
        assert(seq![node.value][0] == node.value);
        let short = feature::forest_path(node.children, leaf.id@)->0;
        assert((seq![node] + short).last() == short.last());
    }
}

/// Mutual blocking dooms every side: where no two nodes have one name,
/// nothing on a loop of blocked-by edges between pieces of work can land.
pub proof fn a_cycle_lands_nothing(
    plan: PlanView,
    done: Set<Seq<char>>,
    lost: Set<Seq<char>>,
    walk: Seq<Seq<char>>,
    k: int,
)
    requires
        unique(plan.tree),
        walk.len() >= 2,
        walk.first() == walk.last(),
        feature::linked(plan.blocking, walk),
        forall|i: int|
            0 <= i < walk.len() ==> feature::named(plan.work_of(done), #[trigger] walk[i]),
        0 <= k < walk.len(),
    ensures
        !plan.landing(done, lost).contains(walk[k]),
        !lost.contains(walk[k]) ==> plan.is_doomed(walk[k], done, lost),
{
    let landing = plan.landing(done, lost);
    let rest = landing.difference(walk.to_set());
    let work = plan.work_of(done);
    let open = |leaf: Issue| plan.is_work(leaf, done);
    assert forall|i: int|
        0 <= i < work.len() && !lost.contains(work[i].id@) && plan.unstuck(
            work[i].id@,
            done,
            rest,
        ) implies rest.contains((#[trigger] work[i]).id@) by {
        plan.unstuck_work_lands(i, done, lost, rest);
        if walk.contains(work[i].id@) {
            let at = choose|at: int| 0 <= at < walk.len() && walk[at] == work[i].id@;
            let m = if at == walk.len() - 1 { 0 } else { at };
            assert(walk[m] == work[i].id@);
            let next = walk[m + 1];
            assert(feature::blockers_of(plan.blocking, walk[m]).contains(next));
            let blockers = feature::blockers_of(plan.blocking, work[i].id@);
            let b = choose|b: int| 0 <= b < blockers.len() && blockers[b] == next;
            assert(plan.can_settle(blockers[b], done, rest));
            let w = choose|w: int| 0 <= w < work.len() && (#[trigger] work[w]).id@ == next;
            plan.tree.leaves().lemma_filter_pred(open, w);
            assert(work.contains(work[w]));
            plan.tree.leaves().lemma_filter_contains_rev(open, work[w]);
            let l = choose|l: int|
                0 <= l < plan.tree.leaves().len() && plan.tree.leaves()[l] == work[w];
            paths_end_at_leaves(plan.tree, l);
            feature::paths_reach(plan.tree, next);
            let path = feature::path_to(plan.tree, next)->0;
            let node = path.last();
            assert(!feature::subtree_settled(path[path.len() - 1], done));
            assert(feature::path_to(node, next) == Some(seq![node]));
            assert(node.leaves() =~= seq![node.value]);
            if feature::finished(node.value, done) {
                assert(feature::finished(seq![node][0].value, done));
                assert(feature::covered(seq![node], done));
                assert(feature::subtree_settled(node, done));
            }
            assert(node.leaves()[0] == node.value);
            assert(rest.contains(next) || feature::covered(seq![node], done));
            assert(walk.contains(next));
            if feature::covered(seq![node], done) {
                let c = choose|c: int|
                    0 <= c < seq![node].len() && feature::finished(
                        (#[trigger] seq![node][c]).value,
                        done,
                    );
                assert(seq![node][c] == node);
            }
            assert(false);
        }
    }
    assert(plan.is_closed(done, lost, rest));
    if landing.contains(walk[k]) {
        assert(rest.contains(walk[k]));
        assert(walk.contains(walk[k]));
    }
}

} // verus!
