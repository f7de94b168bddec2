//! What holds of every plan that is read, as its readers see it.

use crate::feature;
use crate::feature::cycles;
use crate::feature::descent;
use crate::feature::descent::{Answers, Survey};
use crate::feature::laws;
use crate::feature::{Blocking, Issue, IssueId, Plan, PlanView, Problem, ProblemView};
use crate::ids;
use crate::ids::{IdMap, IdSet};
use crate::text;
use crate::tree;
use crate::tree::{Tree, TreeView};
use vstd::prelude::*;

verus! {

// ----- problems -----

/// Law: a problem is told with the issues it is of: those round a cycle in
/// their order, and both ends of an edge that dangles, the blocked one
/// first.
pub proof fn a_problem_names_its_issues(problem: &Problem, r: String)
    requires
        call_ensures(Problem::to_string, (problem,), r),
    ensures
        *problem is Cycle ==> r@ == "blocked-by edges form a cycle: "@ + text::join(
            ids::names(problem->Cycle_0@),
            " -> "@,
        ),
        *problem is Dangling ==> r@ == "the edge \""@ + problem@->Dangling_0 + " is blocked by "@
            + problem@->Dangling_1 + "\" points at an issue the plan does not know"@,
        *problem is NoWork ==> r@
            == "every issue is already settled: the plan has no work in it"@,
{
}

/// Whether an edge points at an issue that is neither in the tree nor
/// outside it, at either end.
pub open spec fn dangles(plan: Plan, edge: Blocking) -> bool {
    let known = |id: Seq<char>|
        feature::named(plan.tree@.nodes(), id) || feature::named(plan.outside@, id);
    !known(edge.issue@) || !known(edge.blocker@)
}

/// Law: every edge that dangles is a problem, told from the issue to its
/// blocker, and no other edge is.
pub proof fn every_dangling_edge_is_a_problem(plan: &Plan, r: Vec<Problem>, edge: Blocking)
    requires
        call_ensures(Plan::problems, (plan,), r),
    ensures
        plan.blocking@.contains(edge) && dangles(*plan, edge) ==> exists|i: int|
            0 <= i < r@.len() && (#[trigger] r@[i])@ == ProblemView::Dangling(
                edge.issue@,
                edge.blocker@,
            ),
        forall|i: int|
            0 <= i < r@.len() && (#[trigger] r@[i]) is Dangling ==> exists|other: Blocking|
                #[trigger] plan.blocking@.contains(other) && dangles(*plan, other) && r@[i]@
                    == ProblemView::Dangling(other.issue@, other.blocker@),
{
    let seen = r@.map_values(|problem: Problem| problem@);
    let view = plan@;
    let loose = |edge: Blocking| !view.knows(edge.issue@) || !view.knows(edge.blocker@);
    let as_dangling = |edge: Blocking| ProblemView::Dangling(edge.issue@, edge.blocker@);
    let first = view.dangling().map_values(as_dangling);
    let second = view.cycles_of().map_values(|ids: Seq<Seq<char>>| ProblemView::Cycle(ids));
    assert(seen == view.problems_of());
    if plan.blocking@.contains(edge) && dangles(*plan, edge) {
        let k = choose|k: int| 0 <= k < plan.blocking@.len() && plan.blocking@[k] == edge;
        view.blocking.lemma_filter_contains(loose, k);
        assert(view.dangling().contains(edge));
        let i = choose|i: int| 0 <= i < view.dangling().len() && view.dangling()[i] == edge;
        assert(first[i] == as_dangling(edge));
        assert(seen[i] == first[i]);
        assert(r@[i]@ == seen[i]);
    }
    assert forall|i: int| 0 <= i < r@.len() && (#[trigger] r@[i]) is Dangling implies exists|
        other: Blocking,
    |
        #[trigger] plan.blocking@.contains(other) && dangles(*plan, other) && r@[i]@
            == ProblemView::Dangling(other.issue@, other.blocker@) by {
        assert(seen[i] == r@[i]@);
        if i < first.len() {
            let other = view.dangling()[i];
            view.blocking.lemma_filter_pred(loose, i);
            view.blocking.lemma_filter_contains_rev(loose, other);
            assert(plan.blocking@.contains(other));
        } else if i < first.len() + second.len() {
            assert(seen[i] == second[i - first.len()]);
        }
    }
}

/// Law: a plan has no work in it just when its whole tree is settled with
/// nothing done.
pub proof fn no_work_is_a_problem(
    plan: &Plan,
    r: Vec<Problem>,
    nothing: &IdSet,
    settled: bool,
)
    requires
        call_ensures(Plan::problems, (plan,), r),
        nothing@ == Set::<Seq<char>>::empty(),
        call_ensures(feature::settled, (&plan.tree, nothing), settled),
    ensures
        settled <==> exists|i: int| 0 <= i < r@.len() && (#[trigger] r@[i]) is NoWork,
{
    let seen = r@.map_values(|problem: Problem| problem@);
    let view = plan@;
    let first = view.dangling().map_values(
        |edge: Blocking| ProblemView::Dangling(edge.issue@, edge.blocker@),
    );
    let second = view.cycles_of().map_values(|ids: Seq<Seq<char>>| ProblemView::Cycle(ids));
    assert(seen == view.problems_of());
    let n = first.len() + second.len();
    if settled {
        let at = n as int;
        assert(seen[at] is NoWork);
        assert(r@[at]@ == seen[at]);
    }
    if exists|i: int| 0 <= i < r@.len() && (#[trigger] r@[i]) is NoWork {
        let i = choose|i: int| 0 <= i < r@.len() && (#[trigger] r@[i]) is NoWork;
        assert(seen[i] == r@[i]@);
        if i < first.len() {
            assert(seen[i] == first[i]);
        } else if i < n {
            assert(seen[i] == second[i - first.len()]);
        }
    }
}

/// Law: every cycle that is named goes round: each issue on it is blocked by
/// the next, the last is the first, and no other comes twice.
pub proof fn a_cycle_goes_round(plan: &Plan, r: Vec<Problem>, i: int, k: int)
    requires
        call_ensures(Plan::problems, (plan,), r),
        0 <= i < r@.len(),
        r@[i] is Cycle,
    ensures
        ({
            let round = ids::names(r@[i]->Cycle_0@);
            &&& round.len() >= 2
            &&& round.first() == round.last()
            &&& round.drop_last().no_duplicates()
            &&& 0 <= k < round.len() - 1 ==> exists|e: int|
                0 <= e < plan.blocking@.len() && (#[trigger] plan.blocking@[e]).issue@ == round[k]
                    && plan.blocking@[e].blocker@ == round[k + 1]
        }),
{
    let seen = r@.map_values(|problem: Problem| problem@);
    let view = plan@;
    let first = view.dangling().map_values(
        |edge: Blocking| ProblemView::Dangling(edge.issue@, edge.blocker@),
    );
    let second = view.cycles_of().map_values(|ids: Seq<Seq<char>>| ProblemView::Cycle(ids));
    assert(seen == view.problems_of());
    assert(seen[i] == r@[i]@);
    if i < first.len() {
        assert(seen[i] == first[i]);
    }
    let c = i - first.len();
    assert(seen[i] == second[c]);
    cycles::a_named_cycle_is_a_cycle(view, c);
    let round = view.cycles_of()[c];
    assert(round == ids::names(r@[i]->Cycle_0@));
    if 0 <= k < round.len() - 1 {
        assert(feature::blockers_of(view.blocking, round[k]).contains(round[k + 1]));
        blockers_are_edges(view.blocking, round[k], round[k + 1]);
    }
}

// ----- blockers -----

/// What blocks an issue is what an edge from it names.
proof fn blockers_are_edges(blocking: Seq<Blocking>, id: Seq<char>, blocker: Seq<char>)
    ensures
        feature::blockers_of(blocking, id).contains(blocker) <==> exists|e: int|
            0 <= e < blocking.len() && (#[trigger] blocking[e]).issue@ == id
                && blocking[e].blocker@ == blocker,
    decreases blocking.len(),
{
    if blocking.len() > 0 {
        let front = blocking.drop_last();
        blockers_are_edges(front, id, blocker);
        let before = feature::blockers_of(front, id);
        let now = feature::blockers_of(blocking, id);
        let last = blocking.last();
        if before.contains(blocker) {
            let i = choose|i: int| 0 <= i < before.len() && before[i] == blocker;
            assert(now[i] == blocker);
            let e = choose|e: int|
                0 <= e < front.len() && (#[trigger] front[e]).issue@ == id && front[e].blocker@
                    == blocker;
            assert(blocking[e] == front[e]);
        }
        if last.issue@ == id && last.blocker@ == blocker {
            assert(now.last() == blocker);
            assert(blocking[blocking.len() - 1] == last);
        }
        if now.contains(blocker) {
            let i = choose|i: int| 0 <= i < now.len() && now[i] == blocker;
            if i < before.len() {
                assert(before[i] == blocker);
            }
        }
        if exists|e: int|
            0 <= e < blocking.len() && (#[trigger] blocking[e]).issue@ == id && blocking[e].blocker@
                == blocker {
            let e = choose|e: int|
                0 <= e < blocking.len() && (#[trigger] blocking[e]).issue@ == id
                    && blocking[e].blocker@ == blocker;
            if e < front.len() {
                assert(front[e] == blocking[e]);
            }
        }
    }
}

/// Law: an issue's blockers are those the edges from it name, and no
/// others; an edge says nothing of what its blocker waits for.
pub proof fn blockers_are_what_the_edges_name(
    plan: &Plan,
    id: &IssueId,
    r: Vec<&IssueId>,
    blocker: Seq<char>,
)
    requires
        call_ensures(Plan::blockers, (plan, id), r),
    ensures
        (exists|i: int| 0 <= i < r@.len() && (#[trigger] r@[i])@ == blocker) <==> exists|e: int|
            0 <= e < plan.blocking@.len() && (#[trigger] plan.blocking@[e]).issue@ == id@
                && plan.blocking@[e].blocker@ == blocker,
{
    blockers_are_edges(plan.blocking@, id@, blocker);
    let names = feature::reached_names(r@);
    if names.contains(blocker) {
        let i = choose|i: int| 0 <= i < names.len() && names[i] == blocker;
        assert(r@[i]@ == blocker);
    }
    if exists|i: int| 0 <= i < r@.len() && (#[trigger] r@[i])@ == blocker {
        let i = choose|i: int| 0 <= i < r@.len() && (#[trigger] r@[i])@ == blocker;
        assert(names[i] == blocker);
    }
}

// ----- settling -----

/// Law: a node with nothing beneath it is settled just when it is done or
/// closed.
pub proof fn a_leaf_settles_when_it_is_done(node: &Tree<Issue>, done: &IdSet, r: bool)
    requires
        call_ensures(feature::settled, (node, done), r),
        node.children@.len() == 0,
    ensures
        r <==> done@.contains(node.value.id@) || node.value.closed,
{
    tree::forest_views(node.children@);
    assert(node@.children.len() == 0);
    assert(node@.nodes() =~= seq![node.value]);
    laws::settling_is_the_rule(node@, done@);
}

/// Law: a container is settled just when it is done or closed itself, or
/// each of its children is.
pub proof fn a_container_settles_with_its_children(
    node: &Tree<Issue>,
    done: &IdSet,
    r: bool,
    each: Seq<bool>,
)
    requires
        laws::unique(node@),
        call_ensures(feature::settled, (node, done), r),
        node.children@.len() > 0,
        each.len() == node.children@.len(),
        forall|i: int|
            0 <= i < each.len() ==> call_ensures(
                feature::settled,
                (&#[trigger] node.children@[i], done),
                each[i],
            ),
    ensures
        r <==> done@.contains(node.value.id@) || node.value.closed || forall|i: int|
            0 <= i < each.len() ==> #[trigger] each[i],
{
    tree::forest_views(node.children@);
    laws::settling_is_the_rule(node@, done@);
    laws::unique_in_two(seq![node.value], tree::forest_nodes(node@.children));
    assert(node@.nodes() == seq![node.value] + tree::forest_nodes(node@.children));
    assert forall|i: int| 0 <= i < each.len() implies #[trigger] each[i]
        == feature::subtree_settled(node@.children[i], done@) by {
        let child = node.children@[i];
        assert(call_ensures(feature::settled, (&child, done), each[i]));
    }
    rows_settle(node@.children, done@);
    if forall|i: int| 0 <= i < each.len() ==> #[trigger] each[i] {
        assert forall|i: int| 0 <= i < node@.children.len() implies feature::subtree_settled(
            #[trigger] node@.children[i],
            done@,
        ) by {
            assert(each[i]);
        }
    }
    if laws::all_settled_by_rule(node@.children, done@) {
        assert forall|i: int| 0 <= i < each.len() implies #[trigger] each[i] by {
            assert(feature::subtree_settled(node@.children[i], done@));
        }
    }
}

proof fn rows_settle(trees: Seq<TreeView<Issue>>, done: Set<Seq<char>>)
    requires
        laws::forest_unique(trees),
    ensures
        laws::all_settled_by_rule(trees, done) <==> forall|i: int|
            0 <= i < trees.len() ==> feature::subtree_settled(#[trigger] trees[i], done),
    decreases trees.len(),
{
    if trees.len() > 0 {
        let front = trees.drop_last();
        let last = trees.last();
        laws::unique_in_two(tree::forest_nodes(front), last.nodes());
        rows_settle(front, done);
        laws::settling_is_the_rule(last, done);
        assert(trees[trees.len() - 1] == last);
        if forall|i: int|
            0 <= i < trees.len() ==> feature::subtree_settled(#[trigger] trees[i], done) {
            assert forall|i: int| 0 <= i < front.len() implies feature::subtree_settled(
                #[trigger] front[i],
                done,
            ) by {
                assert(trees[i] == front[i]);
            }
        }
        if laws::all_settled_by_rule(trees, done) {
            assert forall|i: int| 0 <= i < trees.len() implies feature::subtree_settled(
                #[trigger] trees[i],
                done,
            ) by {
                if i < front.len() {
                    assert(front[i] == trees[i]);
                }
            }
        }
    }
}

/// Law: an issue the plan does not know is never settled; one it knows is
/// once it is done; and one that stands outside the tree only is settled
/// just when it is done or the tracker has it closed.
pub proof fn an_issue_outside_settles_in_the_tracker(
    plan: &Plan,
    id: &IssueId,
    done: &IdSet,
    r: bool,
)
    requires
        call_ensures(Plan::settled, (plan, id, done), r),
    ensures
        ({
            let inside = feature::named(plan.tree@.nodes(), id@);
            let outside = feature::named(plan.outside@, id@);
            &&& !inside && !outside ==> !r
            &&& (inside || outside) && done@.contains(id@) ==> r
            &&& !inside && outside ==> (r <==> done@.contains(id@) || exists|i: int|
                0 <= i < plan.outside@.len() && (#[trigger] plan.outside@[i]).id@ == id@
                    && plan.outside@[i].closed)
        }),
{
    feature::paths_reach(plan.tree@, id@);
}

/// Law: the root of the tree is settled as the tree is.
pub proof fn the_feature_settles_with_its_tree(
    plan: &Plan,
    done: &IdSet,
    r: bool,
    whole: bool,
)
    requires
        call_ensures(Plan::settled, (plan, &plan.tree.value.id, done), r),
        call_ensures(feature::settled, (&plan.tree, done), whole),
        !done@.contains(plan.tree.value.id@),
    ensures
        r == whole,
{
    let path = seq![plan.tree@];
    assert(path.last() == plan.tree@);
    assert(plan.tree@.nodes()[0] == plan.tree.value);
}

// ----- work -----

/// Law: work is leaves of the tree, and none that is done or closed itself.
pub proof fn work_is_open_leaves(plan: &Plan, done: &IdSet, r: Vec<&Issue>, i: int)
    requires
        call_ensures(Plan::work, (plan, done), r),
        0 <= i < r@.len(),
    ensures
        plan.tree@.leaves().contains(*r@[i]),
        laws::unique(plan.tree@) ==> !r@[i].closed && !done@.contains(r@[i].id@),
{
    let open = |leaf: Issue| plan@.is_work(leaf, done@);
    let leaf = tree::reached(r@)[i];
    let leaves = plan.tree@.leaves();
    leaves.lemma_filter_pred(open, i);
    leaves.lemma_filter_contains_rev(open, leaf);
    if laws::unique(plan.tree@) {
        let k = choose|k: int| 0 <= k < leaves.len() && leaves[k] == leaf;
        feature::leaves_are_reached(plan.tree@, k);
        feature::paths_reach(plan.tree@, leaf.id@);
        let path = feature::path_to(plan.tree@, leaf.id@)->0;
        assert(!feature::subtree_settled(path[0], done@));
        if feature::finished(leaf, done@) {
            a_finished_leaf_settles(plan.tree@, leaf, k, done@);
        }
    }
}

/// Nothing beneath a leaf that is done or closed is open.
proof fn a_finished_leaf_settles(
    whole: TreeView<Issue>,
    leaf: Issue,
    k: int,
    done: Set<Seq<char>>,
)
    requires
        laws::unique(whole),
        0 <= k < whole.leaves().len(),
        whole.leaves()[k] == leaf,
        feature::finished(leaf, done),
    ensures
        feature::path_to(whole, leaf.id@) is Some,
        feature::subtree_settled(feature::path_to(whole, leaf.id@)->0.last(), done),
{
    feature::leaves_are_reached(whole, k);
    feature::paths_reach(whole, leaf.id@);
    let node = feature::path_to(whole, leaf.id@)->0.last();
    a_leaf_is_a_node(whole, k);
    a_way_ends_at_its_own_node(whole, leaf);
    assert forall|i: int| 0 <= i < node.leaves().len() implies feature::covered(
        feature::path_to(node, (#[trigger] node.leaves()[i]).id@)->0,
        done,
    ) by {
        feature::leaves_are_reached(node, i);
        feature::paths_reach(node, node.leaves()[i].id@);
        let path = feature::path_to(node, node.leaves()[i].id@)->0;
        assert(path[0].value == leaf);
    }
}

proof fn a_leaf_is_a_node(whole: TreeView<Issue>, k: int)
    requires
        0 <= k < whole.leaves().len(),
    ensures
        whole.nodes().contains(whole.leaves()[k]),
    decreases whole,
{
    if whole.children.len() == 0 {
        assert(whole.nodes()[0] == whole.value);
    } else {
        a_leaf_of_a_row_is_a_node(whole.children, k);
        let beneath = tree::forest_nodes(whole.children);
        let leaf = whole.leaves()[k];
        let j = choose|j: int| 0 <= j < beneath.len() && beneath[j] == leaf;
        assert(whole.nodes()[j + 1] == leaf);
    }
}

proof fn a_leaf_of_a_row_is_a_node(trees: Seq<TreeView<Issue>>, k: int)
    requires
        0 <= k < tree::forest_leaves(trees).len(),
    ensures
        tree::forest_nodes(trees).contains(tree::forest_leaves(trees)[k]),
    decreases trees,
{
    let front = trees.drop_last();
    let leaf = tree::forest_leaves(trees)[k];
    let n = tree::forest_leaves(front).len();
    if k < n {
        a_leaf_of_a_row_is_a_node(front, k);
        let before = tree::forest_nodes(front);
        let j = choose|j: int| 0 <= j < before.len() && before[j] == leaf;
        assert(tree::forest_nodes(trees)[j] == leaf);
    } else {
        let last = trees.last();
        a_leaf_is_a_node(last, k - n);
        let j = choose|j: int| 0 <= j < last.nodes().len() && last.nodes()[j] == leaf;
        assert(tree::forest_nodes(trees)[tree::forest_nodes(front).len() + j] == leaf);
    }
}

proof fn a_way_ends_at_its_own_node(whole: TreeView<Issue>, issue: Issue)
    requires
        laws::unique(whole),
        whole.nodes().contains(issue),
    ensures
        feature::path_to(whole, issue.id@) is Some,
        feature::path_to(whole, issue.id@)->0.last().value == issue,
    decreases whole,
{
    laws::unique_in_two(seq![whole.value], tree::forest_nodes(whole.children));
    let k = choose|k: int| 0 <= k < whole.nodes().len() && whole.nodes()[k] == issue;
    if whole.value.id@ == issue.id@ {
        let names = feature::issue_names(whole.nodes());
        assert(names[0] == whole.value.id@);
        assert(names[k] == issue.id@);
        assert(k == 0);
        assert(seq![whole].last() == whole);
    } else {
        assert(k > 0);
        assert(tree::forest_nodes(whole.children)[k - 1] == issue);
        a_way_into_a_row_ends_at_its_own_node(whole.children, issue);
        let path = feature::forest_path(whole.children, issue.id@)->0;
        assert((seq![whole] + path).last() == path.last());
    }
}

proof fn a_way_into_a_row_ends_at_its_own_node(trees: Seq<TreeView<Issue>>, issue: Issue)
    requires
        laws::forest_unique(trees),
        tree::forest_nodes(trees).contains(issue),
    ensures
        feature::forest_path(trees, issue.id@) is Some,
        feature::forest_path(trees, issue.id@)->0.len() > 0,
        feature::forest_path(trees, issue.id@)->0.last().value == issue,
    decreases trees,
{
    feature::forest_nodes_from_the_first(trees);
    let rest = trees.drop_first();
    laws::unique_in_two(trees[0].nodes(), tree::forest_nodes(rest));
    let all = tree::forest_nodes(trees);
    let k = choose|k: int| 0 <= k < all.len() && all[k] == issue;
    feature::paths_reach(trees[0], issue.id@);
    if k < trees[0].nodes().len() {
        assert(trees[0].nodes()[k] == issue);
        a_way_ends_at_its_own_node(trees[0], issue);
        assert(feature::path_to(trees[0], issue.id@)->0.len() > 0);
    } else {
        let at = k - trees[0].nodes().len();
        assert(tree::forest_nodes(rest)[at] == issue);
        assert(feature::named(tree::forest_nodes(rest), issue.id@));
        assert(!feature::named(trees[0].nodes(), issue.id@));
        a_way_into_a_row_ends_at_its_own_node(rest, issue);
    }
}

/// Law: what is ready is work each of whose blockers is settled, and all of
/// it: nothing else is ready, and nothing of that kind is not.
pub proof fn the_ready_are_the_released(
    plan: &Plan,
    done: &IdSet,
    work: Vec<&Issue>,
    ready: Vec<&Issue>,
    leaf: Issue,
)
    requires
        call_ensures(Plan::work, (plan, done), work),
        call_ensures(Plan::ready, (plan, done), ready),
    ensures
        tree::reached(ready@).contains(leaf) <==> {
            &&& tree::reached(work@).contains(leaf)
            &&& forall|e: int|
                0 <= e < plan.blocking@.len() && (#[trigger] plan.blocking@[e]).issue@ == leaf.id@
                    ==> plan@.is_settled(plan.blocking@[e].blocker@, done@)
        },
{
    let all = tree::reached(work@);
    let released = |leaf: Issue| plan@.is_released(leaf.id@, done@);
    let blockers = feature::blockers_of(plan.blocking@, leaf.id@);
    if tree::reached(ready@).contains(leaf) {
        let i = choose|i: int|
            0 <= i < tree::reached(ready@).len() && tree::reached(ready@)[i] == leaf;
        all.lemma_filter_pred(released, i);
        all.lemma_filter_contains_rev(released, leaf);
        assert(plan@.ready_of(done@) == all.filter(released));
        assert(released(leaf));
        assert(plan@.is_released(leaf.id@, done@));
        assert forall|e: int|
            0 <= e < plan.blocking@.len() && (#[trigger] plan.blocking@[e]).issue@
                == leaf.id@ implies plan@.is_settled(plan.blocking@[e].blocker@, done@) by {
            let blocker = plan.blocking@[e].blocker@;
            blockers_are_edges(plan.blocking@, leaf.id@, blocker);
            assert(plan.blocking@[e].issue@ == leaf.id@);
            assert(blockers.contains(blocker));
            assert(blockers == feature::blockers_of(plan@.blocking, leaf.id@));
            let b = choose|b: int| 0 <= b < blockers.len() && blockers[b] == blocker;
            assert(plan@.is_settled(blockers[b], done@));
        }
    }
    if all.contains(leaf) && forall|e: int|
        0 <= e < plan.blocking@.len() && (#[trigger] plan.blocking@[e]).issue@ == leaf.id@
            ==> plan@.is_settled(plan.blocking@[e].blocker@, done@) {
        assert forall|b: int| 0 <= b < blockers.len() implies plan@.is_settled(
            #[trigger] blockers[b],
            done@,
        ) by {
            assert(blockers.contains(blockers[b]));
            blockers_are_edges(plan.blocking@, leaf.id@, blockers[b]);
        }
        let i = choose|i: int| 0 <= i < all.len() && all[i] == leaf;
        all.lemma_filter_contains(released, i);
    }
}

/// Law: what is doomed is work that was not lost itself and is not ready;
/// and what it is doomed by is one of its own blockers, which is not
/// settled.
pub proof fn the_doomed_wait_on_what_will_not_settle(
    plan: &Plan,
    done: &IdSet,
    lost: &IdSet,
    r: IdMap<IssueId>,
    id: Seq<char>,
)
    requires
        call_ensures(Plan::doomed, (plan, done, lost), r),
        r@.dom().contains(id),
    ensures
        feature::named(plan@.work_of(done@), id),
        !lost@.contains(id),
        exists|e: int|
            0 <= e < plan.blocking@.len() && (#[trigger] plan.blocking@[e]).issue@ == id
                && plan.blocking@[e].blocker@ == r@[id]@,
        !plan@.is_settled(r@[id]@, done@),
{
    let blockers = feature::blockers_of(plan.blocking@, id);
    let landing = plan@.landing(done@, lost@);
    let by = r@[id]@;
    the_first_stuck_is_stuck(plan@, blockers, done@, landing);
    blockers_are_edges(plan.blocking@, id, by);
    if plan@.is_settled(by, done@) {
        if let Some(path) = feature::path_to(plan@.tree, by) {
            if !done@.contains(by) {
                assert(feature::leaves_land(path.last(), done@, landing));
            }
        }
        assert(plan@.can_settle(by, done@, landing));
    }
}

proof fn the_first_stuck_is_stuck(
    plan: PlanView,
    blockers: Seq<Seq<char>>,
    done: Set<Seq<char>>,
    alive: Set<Seq<char>>,
)
    ensures
        match plan.first_stuck(blockers, done, alive) {
            Some(by) => blockers.contains(by) && !plan.can_settle(by, done, alive),
            None => true,
        },
    decreases blockers.len(),
{
    if blockers.len() > 0 {
        let rest = blockers.drop_first();
        the_first_stuck_is_stuck(plan, rest, done, alive);
        if !plan.can_settle(blockers[0], done, alive) {
            assert(blockers.contains(blockers[0]));
        } else if plan.first_stuck(rest, done, alive) is Some {
            let by = plan.first_stuck(rest, done, alive)->0;
            let i = choose|i: int| 0 <= i < rest.len() && rest[i] == by;
            assert(blockers[i + 1] == by);
        }
    }
}

// ----- the descent -----

/// Whether every edge of a survey is from an issue to a blocker that the
/// tracker's own answer for that issue names.
pub open spec fn edges_are_answered(answers: Answers, survey: Survey) -> bool {
    forall|k: int|
        0 <= k < survey.blocking.len() ==> {
            &&& answers[(#[trigger] survey.blocking[k]).0] is Ok
            &&& feature::named(
                answers[survey.blocking[k].0]->Ok_0.blockers@,
                survey.blocking[k].1,
            )
        }
}

/// Whether every blocker that the answers for the ids visited name is on an
/// edge of the survey.
pub open spec fn answers_are_edges(answers: Answers, survey: Survey) -> bool {
    forall|i: int, b: int|
        0 <= i < survey.visited.len() && answers[survey.visited[i]] is Ok && 0 <= b
            < answers[survey.visited[i]]->Ok_0.blockers@.len() ==> survey.blocking.contains(
            (
                survey.visited[i],
                (#[trigger] answers[#[trigger] survey.visited[i]]->Ok_0.blockers@[b]).id@,
            ),
        )
}

proof fn visiting_keeps_the_edges(answers: Answers, survey: Survey, id: Seq<char>)
    requires
        edges_are_answered(answers, survey),
        answers_are_edges(answers, survey),
        answers[id] is Ok,
    ensures
        edges_are_answered(
            answers,
            descent::visited_one(survey, id, answers[id]->Ok_0.blockers@),
        ),
        answers_are_edges(
            answers,
            descent::visited_one(survey, id, answers[id]->Ok_0.blockers@),
        ),
{
    let blockers = answers[id]->Ok_0.blockers@;
    let after = descent::visited_one(survey, id, blockers);
    let more = blockers.map_values(|blocker: Issue| (id, blocker.id@));
    assert forall|k: int| 0 <= k < after.blocking.len() implies {
        &&& answers[(#[trigger] after.blocking[k]).0] is Ok
        &&& feature::named(answers[after.blocking[k].0]->Ok_0.blockers@, after.blocking[k].1)
    } by {
        if k < survey.blocking.len() {
            assert(after.blocking[k] == survey.blocking[k]);
        } else {
            let b = k - survey.blocking.len();
            assert(after.blocking[k] == more[b]);
            assert(blockers[b].id@ == after.blocking[k].1);
        }
    }
    assert forall|i: int, b: int|
        0 <= i < after.visited.len() && answers[after.visited[i]] is Ok && 0 <= b
            < answers[after.visited[i]]->Ok_0.blockers@.len() implies after.blocking.contains(
        (
            after.visited[i],
            (#[trigger] answers[#[trigger] after.visited[i]]->Ok_0.blockers@[b]).id@,
        ),
    ) by {
        let edge = (after.visited[i], answers[after.visited[i]]->Ok_0.blockers@[b].id@);
        if i < survey.visited.len() {
            assert(after.visited[i] == survey.visited[i]);
            assert(survey.blocking.contains(edge));
            let k = choose|k: int| 0 <= k < survey.blocking.len() && survey.blocking[k] == edge;
            assert(after.blocking[k] == edge);
        } else {
            assert(after.blocking[survey.blocking.len() + b] == more[b]);
        }
    }
}

proof fn gathering_keeps_the_edges(answers: Answers, id: Seq<char>, survey: Survey, depth: nat)
    requires
        edges_are_answered(answers, survey),
        answers_are_edges(answers, survey),
        descent::gathered(answers, id, survey, depth) is Ok,
    ensures
        edges_are_answered(answers, (descent::gathered(answers, id, survey, depth)->Ok_0).1),
        answers_are_edges(answers, (descent::gathered(answers, id, survey, depth)->Ok_0).1),
    decreases depth, 0nat,
{
    let node = answers[id]->Ok_0;
    visiting_keeps_the_edges(answers, survey, id);
    gathering_all_keeps_the_edges(
        answers,
        ids::names(node.children@),
        descent::visited_one(survey, id, node.blockers@),
        (depth - 1) as nat,
    );
}

proof fn gathering_all_keeps_the_edges(
    answers: Answers,
    children: Seq<Seq<char>>,
    survey: Survey,
    depth: nat,
)
    requires
        edges_are_answered(answers, survey),
        answers_are_edges(answers, survey),
        descent::gathered_all(answers, children, survey, depth) is Ok,
    ensures
        edges_are_answered(
            answers,
            (descent::gathered_all(answers, children, survey, depth)->Ok_0).1,
        ),
        answers_are_edges(
            answers,
            (descent::gathered_all(answers, children, survey, depth)->Ok_0).1,
        ),
    decreases depth, children.len() + 1,
{
    if children.len() > 0 {
        gathering_all_keeps_the_edges(answers, children.drop_last(), survey, depth);
        let between = (descent::gathered_all(
            answers,
            children.drop_last(),
            survey,
            depth,
        )->Ok_0).1;
        if !between.visited.contains(children.last()) {
            gathering_keeps_the_edges(answers, children.last(), between, depth);
        }
    }
}

/// Law: the edges of a gathered plan are the blockers the tracker names,
/// from the issue that waits to the one it waits for: each is in the answer
/// for its own issue, and none that an answer names is left out.
pub proof fn a_plans_edges_are_the_trackers(
    answers: Answers,
    feature: Seq<char>,
    plan: PlanView,
    tree: TreeView<Issue>,
    survey: Survey,
    i: int,
    b: int,
)
    requires
        descent::gathered(answers, feature, descent::nothing_yet(), descent::CAP as nat) == Ok::<
            (TreeView<Issue>, Survey),
            Seq<char>,
        >((tree, survey)),
        descent::made_of(plan, tree, survey),
    ensures
        forall|k: int|
            0 <= k < plan.blocking.len() ==> {
                &&& answers[(#[trigger] plan.blocking[k]).issue@] is Ok
                &&& feature::named(
                    answers[plan.blocking[k].issue@]->Ok_0.blockers@,
                    plan.blocking[k].blocker@,
                )
            },
        0 <= i < survey.visited.len() && answers[survey.visited[i]] is Ok && 0 <= b
            < answers[survey.visited[i]]->Ok_0.blockers@.len() ==> exists|k: int|
            0 <= k < plan.blocking.len() && (#[trigger] plan.blocking[k]).issue@
                == survey.visited[i] && plan.blocking[k].blocker@
                == answers[survey.visited[i]]->Ok_0.blockers@[b].id@,
{
    gathering_keeps_the_edges(answers, feature, descent::nothing_yet(), descent::CAP as nat);
    let edges = descent::edges(plan.blocking);
    assert(edges == survey.blocking);
    assert forall|k: int| 0 <= k < plan.blocking.len() implies {
        &&& answers[(#[trigger] plan.blocking[k]).issue@] is Ok
        &&& feature::named(
            answers[plan.blocking[k].issue@]->Ok_0.blockers@,
            plan.blocking[k].blocker@,
        )
    } by {
        assert(edges[k] == (plan.blocking[k].issue@, plan.blocking[k].blocker@));
        assert(answers[survey.blocking[k].0] is Ok);
    }
    if 0 <= i < survey.visited.len() && answers[survey.visited[i]] is Ok && 0 <= b
        < answers[survey.visited[i]]->Ok_0.blockers@.len() {
        let edge = (survey.visited[i], answers[survey.visited[i]]->Ok_0.blockers@[b].id@);
        assert(survey.blocking.contains(edge));
        let k = choose|k: int| 0 <= k < survey.blocking.len() && survey.blocking[k] == edge;
        assert(edges[k] == (plan.blocking[k].issue@, plan.blocking[k].blocker@));
        assert(plan.blocking[k].issue@ == survey.visited[i]);
    }
}

/// Whether each of a way's nodes after the first is a child of the one
/// before it.
pub open spec fn goes_down(path: Seq<TreeView<Issue>>) -> bool {
    forall|i: int|
        0 <= i < path.len() - 1 ==> (#[trigger] path[i]).children.contains(path[i + 1])
}

proof fn a_way_goes_down(whole: TreeView<Issue>, id: Seq<char>)
    ensures
        feature::path_to(whole, id) is Some ==> goes_down(feature::path_to(whole, id)->0),
    decreases whole,
{
    if whole.value.id@ != id && feature::forest_path(whole.children, id) is Some {
        a_way_into_a_row_goes_down(whole.children, id);
        let rest = feature::forest_path(whole.children, id)->0;
        let path = seq![whole] + rest;
        assert forall|i: int| 0 <= i < path.len() - 1 implies (
        #[trigger] path[i]).children.contains(path[i + 1]) by {
            if i > 0 {
                assert(path[i] == rest[i - 1]);
                assert(path[i + 1] == rest[i - 1 + 1]);
                assert(rest[i - 1].children.contains(rest[i - 1 + 1]));
            } else {
                assert(path[1] == rest[0]);
            }
        }
    }
}

proof fn a_way_into_a_row_goes_down(trees: Seq<TreeView<Issue>>, id: Seq<char>)
    ensures
        feature::forest_path(trees, id) is Some ==> {
            let path = feature::forest_path(trees, id)->0;
            &&& path.len() > 0
            &&& trees.contains(path[0])
            &&& goes_down(path)
        },
    decreases trees,
{
    if trees.len() > 0 {
        a_way_goes_down(trees[0], id);
        feature::paths_reach(trees[0], id);
        let rest = trees.drop_first();
        a_way_into_a_row_goes_down(rest, id);
        if feature::path_to(trees[0], id) is None && feature::forest_path(rest, id) is Some {
            let path = feature::forest_path(rest, id)->0;
            let k = choose|k: int| 0 <= k < rest.len() && rest[k] == path[0];
            assert(trees[k + 1] == path[0]);
        }
    }
}

/// Law: an issue in the tree is settled as the node of its name is: done
/// itself, or with everything beneath it settled. The node is found by
/// going down from the feature, child by child.
pub proof fn an_issue_in_the_tree_settles_as_its_node(
    plan: &Plan,
    id: &IssueId,
    done: &IdSet,
    r: bool,
)
    requires
        call_ensures(Plan::settled, (plan, id, done), r),
        feature::named(plan.tree@.nodes(), id@),
    ensures
        exists|way: Seq<TreeView<Issue>>|
            {
                &&& way.len() > 0
                &&& way[0] == plan.tree@
                &&& #[trigger] goes_down(way)
                &&& way.last().value.id@ == id@
                &&& r <==> done@.contains(id@) || feature::subtree_settled(way.last(), done@)
            },
{
    feature::paths_reach(plan.tree@, id@);
    a_way_goes_down(plan.tree@, id@);
    let way = feature::path_to(plan.tree@, id@)->0;
    assert(goes_down(way));
}

/// Law: a leaf is work just when no node on the way down to it is settled.
pub proof fn a_leaf_under_nothing_settled_is_work(
    plan: &Plan,
    done: &IdSet,
    r: Vec<&Issue>,
    leaf: Issue,
)
    requires
        call_ensures(Plan::work, (plan, done), r),
        plan.tree@.leaves().contains(leaf),
    ensures
        exists|way: Seq<TreeView<Issue>>|
            {
                &&& way.len() > 0
                &&& way[0] == plan.tree@
                &&& #[trigger] goes_down(way)
                &&& way.last().value.id@ == leaf.id@
                &&& tree::reached(r@).contains(leaf) <==> forall|i: int|
                    0 <= i < way.len() ==> !feature::subtree_settled(#[trigger] way[i], done@)
            },
{
    let leaves = plan.tree@.leaves();
    let open = |leaf: Issue| plan@.is_work(leaf, done@);
    let k = choose|k: int| 0 <= k < leaves.len() && leaves[k] == leaf;
    feature::leaves_are_reached(plan.tree@, k);
    feature::paths_reach(plan.tree@, leaf.id@);
    a_way_goes_down(plan.tree@, leaf.id@);
    let way = feature::path_to(plan.tree@, leaf.id@)->0;
    assert(goes_down(way));
    let work = tree::reached(r@);
    assert(work == leaves.filter(open));
    if work.contains(leaf) {
        let i = choose|i: int| 0 <= i < work.len() && work[i] == leaf;
        leaves.lemma_filter_pred(open, i);
        assert(open(leaf));
    }
    if forall|i: int| 0 <= i < way.len() ==> !feature::subtree_settled(#[trigger] way[i], done@) {
        assert(open(leaf));
        leaves.lemma_filter_contains(open, k);
    }
}

} // verus!
