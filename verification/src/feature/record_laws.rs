//! What holds of every build: work ends.

use crate::feature;
use crate::feature::laws;
use crate::feature::layout;
use crate::feature::record;
use crate::feature::record::BuildView;
use crate::feature::{Issue, PlanView, RunId, State};
use crate::tree;
use crate::tree::TreeView;
use vstd::prelude::*;

verus! {

/// Whether the record is sound: no two nodes of the plan have one name, the
/// issues of work are just those with a state, and every issue still
/// Waiting is one that can land, given what has landed and what is lost.
pub open spec fn sound(build: BuildView) -> bool {
    &&& laws::unique(build.plan.tree)
    &&& forall|id: Seq<char>| #[trigger]
        build.states.dom().contains(id) == feature::named(
            build.plan.work_of(Set::empty()),
            id,
        )
    &&& forall|id: Seq<char>| #[trigger]
        build.is_waiting(id) ==> build.plan.landing(
            layout::merged_ids(build.states),
            record::lost_ids(build.states),
        ).contains(id)
}

/// Whether a state is an end: nothing moves an issue on from it.
pub open spec fn is_terminal(state: State) -> bool {
    state is Merged || state is Failed || state is Skipped
}

/// What lands is work.
proof fn landing_is_work(
    plan: PlanView,
    done: Set<Seq<char>>,
    lost: Set<Seq<char>>,
    id: Seq<char>,
)
    requires
        plan.landing(done, lost).contains(id),
    ensures
        feature::named(plan.work_of(done), id),
        !lost.contains(id),
{
    let work = plan.work_of(done);
    let all = Set::new(|id: Seq<char>| feature::named(work, id) && !lost.contains(id));
    assert forall|i: int|
        0 <= i < work.len() && !lost.contains(work[i].id@) && plan.unstuck(
            work[i].id@,
            done,
            all,
        ) implies all.contains((#[trigger] work[i]).id@) by {
        assert(feature::named(work, work[i].id@));
    }
    assert(plan.is_closed(done, lost, all));
    assert(all.contains(id));
}

/// What lands holds all that it must.
proof fn landing_is_closed(plan: PlanView, done: Set<Seq<char>>, lost: Set<Seq<char>>)
    ensures
        plan.is_closed(done, lost, plan.landing(done, lost)),
{
    let landing = plan.landing(done, lost);
    let work = plan.work_of(done);
    assert forall|i: int|
        0 <= i < work.len() && !lost.contains(work[i].id@) && plan.unstuck(
            work[i].id@,
            done,
            landing,
        ) implies landing.contains((#[trigger] work[i]).id@) by {
        plan.unstuck_work_lands(i, done, lost, landing);
    }
}

/// Losing only what could not land takes nothing from what can.
proof fn losing_the_doomed_changes_nothing(
    plan: PlanView,
    done: Set<Seq<char>>,
    lost: Set<Seq<char>>,
    more: Set<Seq<char>>,
)
    requires
        lost.subset_of(more),
        forall|id: Seq<char>| #[trigger]
            more.contains(id) && !lost.contains(id) ==> !plan.landing(done, lost).contains(id),
    ensures
        plan.landing(done, lost).subset_of(plan.landing(done, more)),
{
    let before = plan.landing(done, lost);
    let after = plan.landing(done, more);
    let work = plan.work_of(done);
    landing_is_closed(plan, done, lost);
    landing_is_closed(plan, done, more);
    assert(plan.is_closed(done, more, before)) by {
        assert forall|i: int|
            0 <= i < work.len() && !more.contains(work[i].id@) && plan.unstuck(
                work[i].id@,
                done,
                before,
            ) implies before.contains((#[trigger] work[i]).id@) by {
            assert(!lost.contains(work[i].id@));
        }
    }
    assert(after.subset_of(before));
    assert(plan.is_closed(done, lost, after)) by {
        assert forall|i: int|
            0 <= i < work.len() && !lost.contains(work[i].id@) && plan.unstuck(
                work[i].id@,
                done,
                after,
            ) implies after.contains((#[trigger] work[i]).id@) by {
            if more.contains(work[i].id@) {
                plan.settling_grows(work[i].id@, done, after, before);
                assert(before.contains(work[i].id@));
            }
        }
    }
}

/// The way on from a node of a way is the rest of the way.
proof fn ways_go_on(node: TreeView<Issue>, id: Seq<char>, k: int)
    requires
        feature::path_to(node, id) is Some,
        0 <= k < feature::path_to(node, id)->0.len(),
    ensures
        feature::path_to(feature::path_to(node, id)->0[k], id) == Some(
            feature::path_to(node, id)->0.skip(k),
        ),
    decreases node, 1nat,
{
    let path = feature::path_to(node, id)->0;
    feature::paths_reach(node, id);
    if k == 0 {
        assert(path.skip(0) =~= path);
    } else {
        assert(node.value.id@ != id);
        let short = feature::forest_path(node.children, id)->0;
        forest_ways_go_on(node.children, id, k - 1);
        assert(path[k] == short[k - 1]);
        assert(path.skip(k) =~= short.skip(k - 1));
    }
}

proof fn forest_ways_go_on(trees: Seq<TreeView<Issue>>, id: Seq<char>, k: int)
    requires
        feature::forest_path(trees, id) is Some,
        0 <= k < feature::forest_path(trees, id)->0.len(),
    ensures
        feature::path_to(feature::forest_path(trees, id)->0[k], id) == Some(
            feature::forest_path(trees, id)->0.skip(k),
        ),
    decreases trees, 0nat,
{
    if feature::path_to(trees[0], id) is Some {
        ways_go_on(trees[0], id, k);
    } else {
        forest_ways_go_on(trees.drop_first(), id, k);
    }
}

/// Where no two nodes have one name, the way to a node of a way is the
/// first part of the way.
proof fn ways_are_found_again(node: TreeView<Issue>, id: Seq<char>, k: int)
    requires
        laws::unique(node),
        feature::path_to(node, id) is Some,
        0 <= k < feature::path_to(node, id)->0.len(),
    ensures
        feature::path_to(node, feature::path_to(node, id)->0[k].value.id@) == Some(
            feature::path_to(node, id)->0.take(k + 1),
        ),
    decreases node, 1nat,
{
    let path = feature::path_to(node, id)->0;
    feature::paths_reach(node, id);
    if k == 0 {
        assert(path.take(1) =~= seq![node]);
    } else {
        assert(node.value.id@ != id);
        let short = feature::forest_path(node.children, id)->0;
        laws::unique_in_two(seq![node.value], tree::forest_nodes(node.children));
        forest_ways_are_found_again(node.children, id, k - 1);
        let on = path[k].value.id@;
        assert(path[k] == short[k - 1]);
        feature::forest_paths_reach(node.children, on);
        assert(node.value.id@ != on) by {
            assert(seq![node.value][0] == node.value);
            if node.value.id@ == on {
                assert(feature::named(seq![node.value], on));
            }
        }
        assert(path.take(k + 1) =~= seq![node] + short.take(k));
    }
}

proof fn forest_ways_are_found_again(trees: Seq<TreeView<Issue>>, id: Seq<char>, k: int)
    requires
        laws::forest_unique(trees),
        feature::forest_path(trees, id) is Some,
        0 <= k < feature::forest_path(trees, id)->0.len(),
    ensures
        feature::forest_path(trees, feature::forest_path(trees, id)->0[k].value.id@) == Some(
            feature::forest_path(trees, id)->0.take(k + 1),
        ),
    decreases trees, 0nat,
{
    feature::forest_nodes_from_the_first(trees);
    laws::unique_in_two(trees[0].nodes(), tree::forest_nodes(trees.drop_first()));
    let on = feature::forest_path(trees, id)->0[k].value.id@;
    if feature::path_to(trees[0], id) is Some {
        ways_are_found_again(trees[0], id, k);
    } else {
        forest_ways_are_found_again(trees.drop_first(), id, k);
        feature::forest_paths_reach(trees.drop_first(), on);
        feature::paths_reach(trees[0], on);
        assert(feature::named(tree::forest_nodes(trees.drop_first()), on));
    }
}

/// A node that is done or closed is settled.
proof fn the_finished_are_settled(node: TreeView<Issue>, done: Set<Seq<char>>)
    requires
        feature::finished(node.value, done),
    ensures
        feature::subtree_settled(node, done),
{
    let leaves = node.leaves();
    assert forall|i: int| 0 <= i < leaves.len() implies feature::covered(
        feature::path_to(node, (#[trigger] leaves[i]).id@)->0,
        done,
    ) by {
        feature::leaves_are_reached(node, i);
        feature::paths_reach(node, leaves[i].id@);
        let path = feature::path_to(node, leaves[i].id@)->0;
        assert(feature::finished(path[0].value, done));
    }
}

/// Whether every name in `done` is the name of a leaf.
spec fn of_leaves(node: TreeView<Issue>, done: Set<Seq<char>>) -> bool {
    forall|id: Seq<char>| #[trigger] done.contains(id) ==> feature::named(node.leaves(), id)
}

/// Where no two nodes have one name and only leaves get done, work stays
/// work until it is done itself.
proof fn work_stays_work(
    plan: PlanView,
    leaf: Issue,
    done: Set<Seq<char>>,
    more: Set<Seq<char>>,
)
    requires
        laws::unique(plan.tree),
        of_leaves(plan.tree, more),
        plan.tree.leaves().contains(leaf),
        plan.is_work(leaf, done),
        !more.contains(leaf.id@),
    ensures
        plan.is_work(leaf, more),
{
    let at = choose|i: int| 0 <= i < plan.tree.leaves().len() && plan.tree.leaves()[i] == leaf;
    feature::leaves_are_reached(plan.tree, at);
    let path = feature::path_to(plan.tree, leaf.id@)->0;
    laws::paths_end_at_leaves(plan.tree, at);
    feature::paths_reach(plan.tree, leaf.id@);
    assert forall|k: int| 0 <= k < path.len() implies !feature::subtree_settled(
        #[trigger] path[k],
        more,
    ) by {
        let node = path[k];
        ways_go_on(plan.tree, leaf.id@, k);
        if feature::subtree_settled(node, more) {
            // The leaf at the end of the way is a leaf of the node.
            let way = path.skip(k);
            assert(way.last() == path.last());
            let l = ends_at_a_leaf(node, leaf.id@);
            assert(feature::covered(feature::path_to(node, node.leaves()[l].id@)->0, more));
            let s = choose|s: int|
                0 <= s < way.len() && feature::finished((#[trigger] way[s]).value, more);
            let step = path[k + s];
            assert(way[s] == step);
            assert(!feature::subtree_settled(path[k + s], done));
            if step.value.closed {
                the_finished_are_settled(step, done);
            } else {
                // The step is a leaf itself, so it is the end of the way.
                let x = choose|x: int|
                    0 <= x < plan.tree.leaves().len() && (#[trigger] plan.tree.leaves()[x]).id@
                        == step.value.id@;
                laws::paths_end_at_leaves(plan.tree, x);
                ways_are_found_again(plan.tree, leaf.id@, k + s);
                assert(path.take(k + s + 1).last() == step);
                assert(step.children.len() == 0);
                ways_go_on(plan.tree, leaf.id@, k + s);
                assert(feature::forest_path(step.children, leaf.id@) is None);
                assert(step.value.id@ == leaf.id@);
            }
        }
    }
}

/// The name at the end of a way that ends at a leaf is a leaf's name.
proof fn ends_at_a_leaf(node: TreeView<Issue>, id: Seq<char>) -> (l: int)
    requires
        feature::path_to(node, id) is Some,
        feature::path_to(node, id)->0.last().children.len() == 0,
    ensures
        0 <= l < node.leaves().len(),
        node.leaves()[l].id@ == id,
    decreases node, 1nat,
{
    feature::paths_reach(node, id);
    if node.value.id@ == id {
        assert(feature::path_to(node, id)->0.last() == node);
        assert(node.leaves()[0] == node.value);
        0
    } else {
        let short = feature::forest_path(node.children, id)->0;
        feature::forest_paths_reach(node.children, id);
        assert((seq![node] + short).last() == short.last());
        forest_ends_at_a_leaf(node.children, id)
    }
}

proof fn forest_ends_at_a_leaf(trees: Seq<TreeView<Issue>>, id: Seq<char>) -> (l: int)
    requires
        feature::forest_path(trees, id) is Some,
        feature::forest_path(trees, id)->0.last().children.len() == 0,
    ensures
        0 <= l < tree::forest_leaves(trees).len(),
        tree::forest_leaves(trees)[l].id@ == id,
    decreases trees, 0nat,
{
    feature::layout_laws::forest_leaves_from_the_first(trees);
    if feature::path_to(trees[0], id) is Some {
        let l = ends_at_a_leaf(trees[0], id);
        assert(tree::forest_leaves(trees)[l] == trees[0].leaves()[l]);
        l
    } else {
        let l = forest_ends_at_a_leaf(trees.drop_first(), id);
        let there = trees[0].leaves().len() + l;
        assert(tree::forest_leaves(trees)[there] == tree::forest_leaves(trees.drop_first())[l]);
        there
    }
}

/// What is work when more is done was work before.
proof fn work_was_work(plan: PlanView, leaf: Issue, fewer: Set<Seq<char>>, more: Set<Seq<char>>)
    requires
        fewer.subset_of(more),
        plan.is_work(leaf, more),
    ensures
        plan.is_work(leaf, fewer),
{
    let path = feature::path_to(plan.tree, leaf.id@)->0;
    assert forall|k: int| 0 <= k < path.len() implies !feature::subtree_settled(
        #[trigger] path[k],
        fewer,
    ) by {
        let node = path[k];
        assert(!feature::subtree_settled(path[k], more));
        if feature::subtree_settled(node, fewer) {
            assert forall|i: int| 0 <= i < node.leaves().len() implies feature::covered(
                feature::path_to(node, (#[trigger] node.leaves()[i]).id@)->0,
                more,
            ) by {
                let way = feature::path_to(node, node.leaves()[i].id@)->0;
                assert(feature::covered(way, fewer));
                let s = choose|s: int|
                    0 <= s < way.len() && feature::finished((#[trigger] way[s]).value, fewer);
                assert(feature::finished(way[s].value, more));
            }
        }
    }
}

/// A piece of work is one of the tree's leaves, and work.
proof fn work_is_a_leaf(plan: PlanView, done: Set<Seq<char>>, i: int)
    requires
        0 <= i < plan.work_of(done).len(),
    ensures
        plan.tree.leaves().contains(plan.work_of(done)[i]),
        plan.is_work(plan.work_of(done)[i], done),
{
    let open = |leaf: Issue| plan.is_work(leaf, done);
    plan.tree.leaves().lemma_filter_pred(open, i);
    assert(plan.work_of(done).contains(plan.work_of(done)[i]));
    plan.tree.leaves().lemma_filter_contains_rev(open, plan.work_of(done)[i]);
}

/// A leaf that is work is among the work.
proof fn a_leaf_that_is_work_is_among_it(plan: PlanView, done: Set<Seq<char>>, leaf: Issue)
    requires
        plan.tree.leaves().contains(leaf),
        plan.is_work(leaf, done),
    ensures
        plan.work_of(done).contains(leaf),
        feature::named(plan.work_of(done), leaf.id@),
{
    let open = |leaf: Issue| plan.is_work(leaf, done);
    let k = choose|k: int| 0 <= k < plan.tree.leaves().len() && plan.tree.leaves()[k] == leaf;
    plan.tree.leaves().lemma_filter_contains(open, k);
    let w = choose|w: int| 0 <= w < plan.work_of(done).len() && plan.work_of(done)[w] == leaf;
    assert(plan.work_of(done)[w].id@ == leaf.id@);
}

/// What is merged is merged of leaves.
proof fn merged_are_leaves(build: BuildView)
    requires
        sound(build),
    ensures
        of_leaves(build.plan.tree, layout::merged_ids(build.states)),
{
    let done = layout::merged_ids(build.states);
    let work = build.plan.work_of(Set::empty());
    assert forall|id: Seq<char>| #[trigger] done.contains(id) implies feature::named(
        build.plan.tree.leaves(),
        id,
    ) by {
        assert(build.states.dom().contains(id));
        let i = choose|i: int| 0 <= i < work.len() && (#[trigger] work[i]).id@ == id;
        work_is_a_leaf(build.plan, Set::empty(), i);
        let k = choose|k: int|
            0 <= k < build.plan.tree.leaves().len() && build.plan.tree.leaves()[k] == work[i];
        assert(build.plan.tree.leaves()[k].id@ == id);
    }
}

/// Landing one issue takes nothing else from what can land.
proof fn landing_one_keeps_the_rest(
    plan: PlanView,
    done: Set<Seq<char>>,
    more: Set<Seq<char>>,
    lost: Set<Seq<char>>,
)
    requires
        laws::unique(plan.tree),
        done.subset_of(more),
        of_leaves(plan.tree, more),
    ensures
        forall|id: Seq<char>| #[trigger]
            plan.landing(done, lost).contains(id) ==> more.contains(id) || plan.landing(
                more,
                lost,
            ).contains(id),
{
    let after = plan.landing(more, lost);
    let all = after.union(more);
    let work = plan.work_of(done);
    landing_is_closed(plan, more, lost);
    assert forall|i: int|
        0 <= i < work.len() && !lost.contains(work[i].id@) && plan.unstuck(
            work[i].id@,
            done,
            all,
        ) implies all.contains((#[trigger] work[i]).id@) by {
        let leaf = work[i];
        if !more.contains(leaf.id@) {
            work_is_a_leaf(plan, done, i);
            work_stays_work(plan, leaf, done, more);
            a_leaf_that_is_work_is_among_it(plan, more, leaf);
            let blockers = feature::blockers_of(plan.blocking, leaf.id@);
            assert(plan.unstuck(leaf.id@, more, after)) by {
                assert forall|b: int| 0 <= b < blockers.len() implies plan.can_settle(
                    #[trigger] blockers[b],
                    more,
                    after,
                ) by {
                    let id = blockers[b];
                    assert(plan.can_settle(id, done, all));
                    if !more.contains(id) && feature::path_to(plan.tree, id) is Some {
                        let node = feature::path_to(plan.tree, id)->0.last();
                        assert forall|l: int|
                            #![trigger node.leaves()[l]]
                            0 <= l < node.leaves().len() implies after.contains(
                            node.leaves()[l].id@,
                        ) || feature::covered(
                            feature::path_to(node, node.leaves()[l].id@)->0,
                            more,
                        ) by {
                            let end = node.leaves()[l];
                            let way = feature::path_to(node, end.id@)->0;
                            feature::leaves_are_reached(node, l);
                            feature::paths_reach(node, end.id@);
                            if more.contains(end.id@) {
                                assert(feature::finished(way[way.len() - 1].value, more));
                            } else if feature::covered(way, done) {
                                let s = choose|s: int|
                                    0 <= s < way.len() && feature::finished(
                                        (#[trigger] way[s]).value,
                                        done,
                                    );
                                assert(feature::finished(way[s].value, more));
                            }
                        }
                    }
                }
            }
            let w = choose|w: int|
                0 <= w < plan.work_of(more).len() && plan.work_of(more)[w] == leaf;
            assert(after.contains(plan.work_of(more)[w].id@));
        }
    }
    assert(plan.is_closed(done, lost, all));
}

/// A fresh record of a plan whose nodes have different names is sound.
pub proof fn a_fresh_build_is_sound(build: BuildView, run: RunId, plan: PlanView)
    requires
        build.is_fresh(run, plan),
        laws::unique(plan.tree),
    ensures
        sound(build),
{
    let none = Set::<Seq<char>>::empty();
    let done = layout::merged_ids(build.states);
    let lost = record::lost_ids(build.states);
    assert(done =~= none) by {
        assert forall|id: Seq<char>| !done.contains(id) by {
            if done.contains(id) {
                assert(build.states.dom().contains(id));
            }
        }
    }
    assert forall|id: Seq<char>| #[trigger]
        lost.contains(id) && !none.contains(id) implies !plan.landing(none, none).contains(id) by {
        assert(build.states.dom().contains(id));
    }
    losing_the_doomed_changes_nothing(plan, none, none, lost);
    assert forall|id: Seq<char>| #[trigger] build.is_waiting(id) implies plan.landing(
        done,
        lost,
    ).contains(id) by {
        assert(build.states.dom().contains(id));
        assert(plan.landing(none, none).contains(id));
    }
}

/// Starting an issue, or queueing its merge, keeps a record sound.
pub proof fn moving_on_keeps_a_build_sound(build: BuildView, id: Seq<char>, state: State)
    requires
        sound(build),
        build.states.dom().contains(id),
        !is_terminal(build.states[id]),
        state is Running || state is Merging,
    ensures
        sound(build.moved(id, state)),
{
    let after = build.moved(id, state);
    assert(layout::merged_ids(after.states) =~= layout::merged_ids(build.states));
    assert(record::lost_ids(after.states) =~= record::lost_ids(build.states));
    assert forall|x: Seq<char>| #[trigger] after.is_waiting(x) implies build.is_waiting(x) by {}
    assert forall|x: Seq<char>| #[trigger]
        after.states.dom().contains(x) == feature::named(build.plan.work_of(Set::empty()), x) by {
        assert(build.states.dom().contains(x) == feature::named(
            build.plan.work_of(Set::empty()),
            x,
        ));
    }
}

/// Landing an issue that was under way keeps a record sound.
pub proof fn landing_keeps_a_build_sound(build: BuildView, id: Seq<char>, state: State)
    requires
        sound(build),
        build.is_underway(id),
        state is Merged,
    ensures
        sound(build.moved(id, state)),
{
    let after = build.moved(id, state);
    let done = layout::merged_ids(build.states);
    let more = layout::merged_ids(after.states);
    let lost = record::lost_ids(build.states);
    assert(record::lost_ids(after.states) =~= lost);
    assert forall|x: Seq<char>| #[trigger]
        after.states.dom().contains(x) == feature::named(build.plan.work_of(Set::empty()), x) by {
        assert(build.states.dom().contains(x) == feature::named(
            build.plan.work_of(Set::empty()),
            x,
        ));
    }
    merged_are_leaves(build);
    assert(of_leaves(build.plan.tree, more)) by {
        assert forall|x: Seq<char>| #[trigger] more.contains(x) implies feature::named(
            build.plan.tree.leaves(),
            x,
        ) by {
            if x != id {
                assert(done.contains(x));
            } else {
                let work = build.plan.work_of(Set::empty());
                assert(build.states.dom().contains(x));
                let i = choose|i: int| 0 <= i < work.len() && (#[trigger] work[i]).id@ == x;
                work_is_a_leaf(build.plan, Set::empty(), i);
                let leaves = build.plan.tree.leaves();
                let k = choose|k: int| 0 <= k < leaves.len() && leaves[k] == work[i];
                assert(leaves[k].id@ == x);
            }
        }
    }
    landing_one_keeps_the_rest(build.plan, done, more, lost);
    assert forall|x: Seq<char>| #[trigger] after.is_waiting(x) implies build.plan.landing(
        more,
        lost,
    ).contains(x) by {
        assert(build.is_waiting(x));
        assert(build.plan.landing(done, lost).contains(x));
    }
}

/// Failing an issue that was under way, and skipping what that dooms,
/// keeps a record sound.
pub proof fn failing_keeps_a_build_sound(
    build: BuildView,
    id: Seq<char>,
    state: State,
    after: BuildView,
)
    requires
        sound(build),
        build.is_underway(id),
        state is Failed,
        build.moved(id, state).dooms(after),
    ensures
        sound(after),
{
    let failed = build.moved(id, state);
    let done = layout::merged_ids(build.states);
    let lost = record::lost_ids(build.states);
    let lost1 = record::lost_ids(failed.states);
    let lost2 = record::lost_ids(after.states);
    assert(layout::merged_ids(failed.states) =~= done);
    assert(layout::merged_ids(after.states) =~= done) by {
        assert forall|x: Seq<char>| layout::merged_ids(after.states).contains(x) == done.contains(
            x,
        ) by {
            if failed.states.dom().contains(x) {
            }
        }
    }
    assert forall|x: Seq<char>| #[trigger]
        lost2.contains(x) && !lost1.contains(x) implies !build.plan.landing(
        done,
        lost1,
    ).contains(x) by {
        assert(failed.states.dom().contains(x));
    }
    assert(lost1.subset_of(lost2)) by {
        assert forall|x: Seq<char>| lost1.contains(x) implies lost2.contains(x) by {
            assert(failed.states.dom().contains(x));
        }
    }
    losing_the_doomed_changes_nothing(build.plan, done, lost1, lost2);
    assert forall|x: Seq<char>| #[trigger] after.is_waiting(x) implies build.plan.landing(
        done,
        lost2,
    ).contains(x) by {
        assert(failed.states.dom().contains(x));
        assert(failed.is_waiting(x));
        assert(build.is_waiting(x));
        landing_is_work(build.plan, done, lost, x);
        assert(!build.plan.is_doomed(x, done, lost1));
        assert(build.plan.landing(done, lost1).contains(x));
    }
    assert forall|x: Seq<char>| #[trigger]
        after.states.dom().contains(x) == feature::named(build.plan.work_of(Set::empty()), x) by {
        assert(build.states.dom().contains(x) == feature::named(
            build.plan.work_of(Set::empty()),
            x,
        ));
        assert(failed.states.dom().contains(x) == after.states.dom().contains(x));
    }
}

/// Every issue of work ends: once a sound build is over — nothing ready,
/// nothing running — every state is terminal.
pub proof fn a_finished_build_has_ended(build: BuildView)
    requires
        sound(build),
        build.is_finished(),
    ensures
        forall|id: Seq<char>| #[trigger]
            build.states.dom().contains(id) ==> is_terminal(build.states[id]),
{
    let plan = build.plan;
    let done = layout::merged_ids(build.states);
    let lost = record::lost_ids(build.states);
    let none = Set::<Seq<char>>::empty();
    let work = plan.work_of(done);
    assert forall|i: int|
        0 <= i < work.len() && !lost.contains(work[i].id@) && plan.unstuck(
            work[i].id@,
            done,
            none,
        ) implies none.contains((#[trigger] work[i]).id@) by {
        let leaf = work[i];
        let blockers = feature::blockers_of(plan.blocking, leaf.id@);
        assert(plan.is_released(leaf.id@, done)) by {
            assert forall|b: int| 0 <= b < blockers.len() implies plan.is_settled(
                #[trigger] blockers[b],
                done,
            ) by {
                assert(plan.can_settle(blockers[b], done, none));
            }
        }
        let released = |leaf: Issue| plan.is_released(leaf.id@, done);
        let waits = |issue: Issue| build.is_waiting(issue.id@);
        work.lemma_filter_contains(released, i);
        let ready = plan.ready_of(done);
        let r = choose|r: int| 0 <= r < ready.len() && ready[r] == leaf;
        work_is_a_leaf(plan, done, i);
        work_was_work(plan, leaf, none, done);
        a_leaf_that_is_work_is_among_it(plan, none, leaf);
        assert(build.states.dom().contains(leaf.id@));
        assert(!build.is_underway(leaf.id@));
        if build.states[leaf.id@] is Waiting {
            ready.lemma_filter_contains(waits, r);
            assert(build.dispatchable().contains(leaf));
        }
        if build.states[leaf.id@] is Merged {
            let k = choose|k: int|
                0 <= k < plan.tree.leaves().len() && plan.tree.leaves()[k] == leaf;
            feature::leaves_are_reached(plan.tree, k);
            feature::paths_reach(plan.tree, leaf.id@);
            let path = feature::path_to(plan.tree, leaf.id@)->0;
            assert(feature::finished(path.last().value, done));
            the_finished_are_settled(path.last(), done);
            assert(!feature::subtree_settled(path[path.len() - 1], done));
        }
        assert(false);
    }
    assert(plan.is_closed(done, lost, none));
    assert forall|id: Seq<char>| #[trigger] build.states.dom().contains(id) implies is_terminal(
        build.states[id],
    ) by {
        assert(!build.is_underway(id));
        if build.states[id] is Waiting {
            assert(build.is_waiting(id));
            assert(none.contains(id));
        }
    }
}

} // verus!
