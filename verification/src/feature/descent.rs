//! Reading a plan out of a tracker, one issue at a time.

use crate::feature;
use crate::feature::{Blocking, Issue, IssueId, Node, Plan, PlanView};
use crate::ids;
use crate::ids::{IdMap, IdSet};
use crate::text;
use crate::tree;
use crate::tree::{Tree, TreeView};
use vstd::prelude::*;

verus! {

/// The most issues one descent may gather before it refuses. GitHub caps
/// sub-issues at one hundred per parent; a feature past this cap is not a
/// feature anyone should build in one breath.
pub const CAP: usize = 500;

/// What a descent has gathered: the ids it has visited, in that order, the
/// edges it has met, and the blockers that the edges named.
pub struct Survey {
    pub visited: Seq<Seq<char>>,
    pub blocking: Seq<(Seq<char>, Seq<char>)>,
    pub blockers: Map<Seq<char>, Issue>,
}

/// What the tracker answered, by the id asked for.
pub type Answers = Map<Seq<char>, Result<Node, String>>;

/// The ends of a row of edges.
pub open spec fn edges(blocking: Seq<Blocking>) -> Seq<(Seq<char>, Seq<char>)> {
    blocking.map_values(|edge: Blocking| (edge.issue@, edge.blocker@))
}

/// The blockers known after those of one more issue, the later in place of
/// the earlier.
pub open spec fn noted(known: Map<Seq<char>, Issue>, blockers: Seq<Issue>) -> Map<Seq<char>, Issue>
    decreases blockers.len(),
{
    if blockers.len() == 0 {
        known
    } else {
        noted(known, blockers.drop_last()).insert(blockers.last().id@, blockers.last())
    }
}

/// The survey after visiting `id`, blocked by `blockers`.
pub open spec fn visited_one(survey: Survey, id: Seq<char>, blockers: Seq<Issue>) -> Survey {
    Survey {
        visited: survey.visited.push(id),
        blocking: survey.blocking + blockers.map_values(|blocker: Issue| (id, blocker.id@)),
        blockers: noted(survey.blockers, blockers),
    }
}

/// The refusal of a feature that decomposes too far.
pub open spec fn refusal() -> Seq<char> {
    "this feature decomposes into more than 500 issues; refusing to answer with a truncated plan that would read as complete"@
}

/// The descent from `id`, at most `depth` levels down: the tree it gathers
/// and the survey after it, or the words it fails with.
pub open spec fn gathered(
    answers: Answers,
    id: Seq<char>,
    survey: Survey,
    depth: nat,
) -> Result<(TreeView<Issue>, Survey), Seq<char>>
    decreases depth, 0nat,
{
    if survey.visited.len() >= CAP || depth == 0 {
        Err(refusal())
    } else {
        match answers[id] {
            Err(words) => Err(words@),
            Ok(node) => match gathered_all(
                answers,
                ids::names(node.children@),
                visited_one(survey, id, node.blockers@),
                (depth - 1) as nat,
            ) {
                Err(words) => Err(words),
                Ok((children, after)) => Ok((TreeView { value: node.issue, children }, after)),
            },
        }
    }
}

/// The descents from each of the ids in turn that none has visited before.
pub open spec fn gathered_all(
    answers: Answers,
    ids: Seq<Seq<char>>,
    survey: Survey,
    depth: nat,
) -> Result<(Seq<TreeView<Issue>>, Survey), Seq<char>>
    decreases depth, ids.len() + 1,
{
    if ids.len() == 0 {
        Ok((Seq::empty(), survey))
    } else {
        match gathered_all(answers, ids.drop_last(), survey, depth) {
            Err(words) => Err(words),
            Ok((trees, between)) => if between.visited.contains(ids.last()) {
                Ok((trees, between))
            } else {
                match gathered(answers, ids.last(), between, depth) {
                    Err(words) => Err(words),
                    Ok((tree, after)) => Ok((trees.push(tree), after)),
                }
            },
        }
    }
}

/// The ids visited by the time the descent from `id` is over, the one it
/// fails at with them.
pub open spec fn asked(answers: Answers, id: Seq<char>, survey: Survey, depth: nat) -> Seq<
    Seq<char>,
>
    decreases depth, 0nat,
{
    if survey.visited.len() >= CAP || depth == 0 {
        survey.visited
    } else {
        match answers[id] {
            Err(_) => survey.visited.push(id),
            Ok(node) => asked_all(
                answers,
                ids::names(node.children@),
                visited_one(survey, id, node.blockers@),
                (depth - 1) as nat,
            ),
        }
    }
}

/// The ids visited by the time the descents from each of the ids are over,
/// or the first of them that fails.
pub open spec fn asked_all(
    answers: Answers,
    ids: Seq<Seq<char>>,
    survey: Survey,
    depth: nat,
) -> Seq<Seq<char>>
    decreases depth, ids.len() + 1,
{
    if ids.len() == 0 {
        survey.visited
    } else {
        match gathered_all(answers, ids.drop_last(), survey, depth) {
            Err(_) => asked_all(answers, ids.drop_last(), survey, depth),
            Ok((_, between)) => if between.visited.contains(ids.last()) {
                between.visited
            } else {
                asked(answers, ids.last(), between, depth)
            },
        }
    }
}

/// Every id the tracker is asked for in the descent from `feature`, in
/// order.
pub open spec fn asked_of(answers: Answers, feature: Seq<char>) -> Seq<Seq<char>> {
    asked(answers, feature, nothing_yet(), CAP as nat)
}

/// Whether there is an answer for every id that was asked for, and for no
/// other.
pub open spec fn answers_all(answers: Answers, feature: Seq<char>) -> bool {
    forall|id: Seq<char>| #[trigger]
        answers.dom().contains(id) == asked_of(answers, feature).contains(id)
}

/// The survey before anything is visited.
pub open spec fn nothing_yet() -> Survey {
    Survey { visited: Seq::empty(), blocking: Seq::empty(), blockers: Map::empty() }
}

/// Whether the tracker gave these answers: each is an outcome of a call of
/// `fetch` on the id it stands against.
pub open spec fn given<F: Fn(&IssueId) -> Result<Node, String>>(
    fetch: F,
    answers: Answers,
) -> bool {
    forall|id: Seq<char>| #[trigger]
        answers.dom().contains(id) ==> exists|asked: IssueId| #[trigger]
            asked@ == id && call_ensures(fetch, (&asked,), answers[id])
}

/// Whether the plan is made of a gathered tree and its survey: the outside
/// blockers are those noted that were never visited, in the order of their
/// names.
pub open spec fn made_of(plan: PlanView, tree: TreeView<Issue>, survey: Survey) -> bool {
    &&& plan.tree == tree
    &&& edges(plan.blocking) == survey.blocking
    &&& ids::ascending(feature::issue_names(plan.outside))
    &&& forall|id: Seq<char>| #[trigger]
        feature::named(plan.outside, id) == (survey.blockers.dom().contains(id)
            && !survey.visited.contains(id))
    &&& forall|i: int|
        0 <= i < plan.outside.len() ==> #[trigger] plan.outside[i]
            == survey.blockers[plan.outside[i].id@]
}

/// A descent under way.
struct Descent {
    visited: IdSet,
    blocking: Vec<Blocking>,
    blockers: IdMap<Issue>,
    order: Ghost<Seq<Seq<char>>>,
    answers: Ghost<Answers>,
}

impl Descent {
    spec fn survey(self) -> Survey {
        Survey {
            visited: self.order@,
            blocking: edges(self.blocking@),
            blockers: self.blockers@,
        }
    }

    spec fn wf(self) -> bool {
        &&& self.visited.wf()
        &&& self.visited@ == self.order@.to_set()
        &&& self.visited.listed().len() == self.order@.len()
        &&& self.blockers.wf()
        &&& forall|id: Seq<char>| #[trigger]
            self.blockers@.dom().contains(id) ==> self.blockers@[id].id@ == id
        &&& forall|id: Seq<char>| #[trigger]
            self.answers@.dom().contains(id) == self.order@.contains(id)
    }
}

/// Whether `more` has every answer of `fewer`.
spec fn extends(fewer: Answers, more: Answers) -> bool {
    forall|id: Seq<char>| #[trigger]
        fewer.dom().contains(id) ==> more.dom().contains(id) && more[id] == fewer[id]
}

/// A descent visits the id it starts from and forgets none it had visited.
proof fn gathering_visits(answers: Answers, id: Seq<char>, survey: Survey, depth: nat)
    ensures
        gathered(answers, id, survey, depth) matches Ok((_, after)) ==> survey.visited.push(
            id,
        ).is_prefix_of(after.visited),
    decreases depth, 0nat,
{
    if let Ok((_, after)) = gathered(answers, id, survey, depth) {
        let node = answers[id]->Ok_0;
        gathering_all_visits(
            answers,
            ids::names(node.children@),
            visited_one(survey, id, node.blockers@),
            (depth - 1) as nat,
        );
    }
}

proof fn gathering_all_visits(answers: Answers, ids: Seq<Seq<char>>, survey: Survey, depth: nat)
    ensures
        gathered_all(answers, ids, survey, depth) matches Ok((_, after))
            ==> survey.visited.is_prefix_of(after.visited),
    decreases depth, ids.len() + 1,
{
    if ids.len() > 0 {
        gathering_all_visits(answers, ids.drop_last(), survey, depth);
        if let Ok((_, between)) = gathered_all(answers, ids.drop_last(), survey, depth) {
            gathering_visits(answers, ids.last(), between, depth);
            if let Ok((_, after)) = gathered(answers, ids.last(), between, depth) {
                let one = survey.visited;
                let two = between.visited;
                let three = after.visited;
                if !two.contains(ids.last()) {
                    assert(one.is_prefix_of(three)) by {
                        assert(two.push(ids.last()).is_prefix_of(three));
                        assert forall|i: int| 0 <= i < one.len() implies one[i] == three[i] by {
                            assert(one[i] == two[i]);
                            assert(two.push(ids.last())[i] == three[i]);
                        }
                        assert(three.subrange(0, one.len() as int) =~= one);
                    }
                }
            }
        }
    }
}

/// A descent that succeeds rests only on the answers for what it visits.
proof fn gathering_rests_on_what_it_visits(
    fewer: Answers,
    more: Answers,
    id: Seq<char>,
    survey: Survey,
    depth: nat,
)
    requires
        gathered(fewer, id, survey, depth) is Ok,
        forall|x: Seq<char>|
            (gathered(fewer, id, survey, depth)->Ok_0).1.visited.contains(x)
                && !survey.visited.contains(x) ==> #[trigger] more[x] == fewer[x],
        !survey.visited.contains(id),
    ensures
        gathered(more, id, survey, depth) == gathered(fewer, id, survey, depth),
    decreases depth, 0nat,
{
    gathering_visits(fewer, id, survey, depth);
    let after = (gathered(fewer, id, survey, depth)->Ok_0).1;
    assert(after.visited.contains(id)) by {
        assert(survey.visited.push(id)[survey.visited.len() as int] == id);
        assert(after.visited[survey.visited.len() as int] == id);
    }
    assert(more[id] == fewer[id]);
    let node = fewer[id]->Ok_0;
    let next = visited_one(survey, id, node.blockers@);
    assert forall|x: Seq<char>|
        after.visited.contains(x) && !next.visited.contains(x) implies #[trigger] more[x]
        == fewer[x] by {
        if survey.visited.contains(x) {
            let k = choose|k: int| 0 <= k < survey.visited.len() && survey.visited[k] == x;
            assert(next.visited[k] == x);
        }
    }
    gathering_all_rests_on_what_it_visits(
        fewer,
        more,
        ids::names(node.children@),
        next,
        (depth - 1) as nat,
    );
}

proof fn gathering_all_rests_on_what_it_visits(
    fewer: Answers,
    more: Answers,
    ids: Seq<Seq<char>>,
    survey: Survey,
    depth: nat,
)
    requires
        gathered_all(fewer, ids, survey, depth) is Ok,
        forall|x: Seq<char>|
            (gathered_all(fewer, ids, survey, depth)->Ok_0).1.visited.contains(x)
                && !survey.visited.contains(x) ==> #[trigger] more[x] == fewer[x],
    ensures
        gathered_all(more, ids, survey, depth) == gathered_all(fewer, ids, survey, depth),
    decreases depth, ids.len() + 1,
{
    if ids.len() > 0 {
        let between = (gathered_all(fewer, ids.drop_last(), survey, depth)->Ok_0).1;
        let after = (gathered_all(fewer, ids, survey, depth)->Ok_0).1;
        gathering_all_visits(fewer, ids.drop_last(), survey, depth);
        if !between.visited.contains(ids.last()) {
            gathering_visits(fewer, ids.last(), between, depth);
            assert forall|k: int| 0 <= k < between.visited.len() implies #[trigger]
                between.visited[k] == after.visited[k] by {
                assert(between.visited.push(ids.last())[k] == after.visited[k]);
            }
        }
        assert forall|x: Seq<char>|
            between.visited.contains(x) && !survey.visited.contains(x) implies #[trigger] more[x]
            == fewer[x] by {
            let k = choose|k: int| 0 <= k < between.visited.len() && between.visited[k] == x;
            assert(after.visited[k] == x);
        }
        gathering_all_rests_on_what_it_visits(fewer, more, ids.drop_last(), survey, depth);
        if !between.visited.contains(ids.last()) {
            assert forall|x: Seq<char>|
                after.visited.contains(x) && !between.visited.contains(x) implies #[trigger] more[x]
                == fewer[x] by {
                if survey.visited.contains(x) {
                    let k = choose|k: int| 0 <= k < survey.visited.len() && survey.visited[k] == x;
                    assert(between.visited[k] == x);
                }
            }
            gathering_rests_on_what_it_visits(fewer, more, ids.last(), between, depth);
        }
    }
}

/// A failure among the first of the ids is the failure of them all.
proof fn a_failure_ends_the_descent(
    answers: Answers,
    ids: Seq<Seq<char>>,
    k: int,
    survey: Survey,
    depth: nat,
)
    requires
        0 <= k <= ids.len(),
        gathered_all(answers, ids.take(k), survey, depth) is Err,
    ensures
        gathered_all(answers, ids, survey, depth) == gathered_all(
            answers,
            ids.take(k),
            survey,
            depth,
        ),
        asked_all(answers, ids, survey, depth) == asked_all(
            answers,
            ids.take(k),
            survey,
            depth,
        ),
    decreases ids.len(),
{
    if k == ids.len() {
        assert(ids.take(k) =~= ids);
    } else {
        assert(ids.drop_last().take(k) =~= ids.take(k));
        a_failure_ends_the_descent(answers, ids.drop_last(), k, survey, depth);
    }
}

/// A descent that succeeds has asked for what it visited.
proof fn descents_ask_for_what_they_visit(
    answers: Answers,
    id: Seq<char>,
    survey: Survey,
    depth: nat,
)
    ensures
        gathered(answers, id, survey, depth) matches Ok((_, after)) ==> asked(
            answers,
            id,
            survey,
            depth,
        ) == after.visited,
    decreases depth, 0nat,
{
    if let Ok((_, after)) = gathered(answers, id, survey, depth) {
        let node = answers[id]->Ok_0;
        all_descents_ask_for_what_they_visit(
            answers,
            ids::names(node.children@),
            visited_one(survey, id, node.blockers@),
            (depth - 1) as nat,
        );
    }
}

proof fn all_descents_ask_for_what_they_visit(
    answers: Answers,
    ids: Seq<Seq<char>>,
    survey: Survey,
    depth: nat,
)
    ensures
        gathered_all(answers, ids, survey, depth) matches Ok((_, after)) ==> asked_all(
            answers,
            ids,
            survey,
            depth,
        ) == after.visited,
    decreases depth, ids.len() + 1,
{
    if ids.len() > 0 {
        if let Ok((_, between)) = gathered_all(answers, ids.drop_last(), survey, depth) {
            descents_ask_for_what_they_visit(answers, ids.last(), between, depth);
        }
    }
}

/// Records the edges around `id`, and who blocks it.
fn record(descent: &mut Descent, id: &IssueId, blockers: &Vec<Issue>)
    requires
        old(descent).blockers.wf(),
        forall|x: Seq<char>| #[trigger]
            old(descent).blockers@.dom().contains(x) ==> old(descent).blockers@[x].id@ == x,
    ensures
        final(descent).visited == old(descent).visited,
        final(descent).order == old(descent).order,
        final(descent).answers == old(descent).answers,
        final(descent).blockers.wf(),
        forall|x: Seq<char>| #[trigger]
            final(descent).blockers@.dom().contains(x) ==> final(descent).blockers@[x].id@ == x,
        edges(final(descent).blocking@) == edges(old(descent).blocking@) + blockers@.map_values(
            |blocker: Issue| (id@, blocker.id@),
        ),
        final(descent).blockers@ == noted(old(descent).blockers@, blockers@),
{
    let ghost ends = |blocker: Issue| (id@, blocker.id@);
    let mut i: usize = 0;
    proof {
        assert(blockers@.take(0) =~= Seq::<Issue>::empty());
        assert(edges(descent.blocking@) =~= edges(descent.blocking@) + blockers@.take(
            0,
        ).map_values(ends));
    }
    while i < blockers.len()
        invariant
            i <= blockers@.len(),
            ends == (|blocker: Issue| (id@, blocker.id@)),
            descent.visited == old(descent).visited,
            descent.order == old(descent).order,
            descent.answers == old(descent).answers,
            descent.blockers.wf(),
            forall|x: Seq<char>| #[trigger]
                descent.blockers@.dom().contains(x) ==> descent.blockers@[x].id@ == x,
            edges(descent.blocking@) == edges(old(descent).blocking@) + blockers@.take(
                i as int,
            ).map_values(ends),
            descent.blockers@ == noted(old(descent).blockers@, blockers@.take(i as int)),
        decreases blockers@.len() - i,
    {
        let blocker = &blockers[i];
        let ghost shorter = descent.blocking@;
        descent.blocking.push(Blocking { issue: id.clone(), blocker: blocker.id.clone() });
        descent.blockers.insert(blocker.id.clone(), blocker.clone());
        proof {
            let longer = blockers@.take(i + 1);
            assert(longer.drop_last() =~= blockers@.take(i as int));
            assert(longer.last() == *blocker);
            assert(edges(descent.blocking@) =~= edges(shorter).push((id@, blocker.id@)));
            assert(longer.map_values(ends) =~= blockers@.take(i as int).map_values(ends).push(
                (id@, blocker.id@),
            ));
            assert(edges(descent.blocking@) =~= edges(old(descent).blocking@) + longer.map_values(
                ends,
            ));
        }
        i += 1;
    }
    assert(blockers@.take(blockers@.len() as int) =~= blockers@);
}

/// One step of the descent: fetch `id`, record the edges around it, and
/// recurse into the children not yet seen.
fn gather<F: Fn(&IssueId) -> Result<Node, String>>(
    id: &IssueId,
    fetch: &F,
    descent: &mut Descent,
    depth: Ghost<nat>,
) -> (r: Result<Tree<Issue>, String>)
    requires
        forall|asked: &IssueId| call_requires(*fetch, (asked,)),
        old(descent).wf(),
        given(*fetch, old(descent).answers@),
        !old(descent).order@.contains(id@),
        old(descent).order@.len() <= CAP,
        depth@ + old(descent).order@.len() >= CAP,
    ensures
        final(descent).wf(),
        given(*fetch, final(descent).answers@),
        extends(old(descent).answers@, final(descent).answers@),
        match r {
            Ok(tree) => final(descent).order@.len() <= CAP && gathered(
                final(descent).answers@,
                id@,
                old(descent).survey(),
                depth@,
            ) == Ok::<(TreeView<Issue>, Survey), Seq<char>>((tree@, final(descent).survey())),
            Err(words) => gathered(
                final(descent).answers@,
                id@,
                old(descent).survey(),
                depth@,
            ) == Err::<(TreeView<Issue>, Survey), Seq<char>>(words@) && final(descent).order@
                == asked(final(descent).answers@, id@, old(descent).survey(), depth@),
        },
    decreases depth@,
{
    if descent.visited.len() == CAP {
        return Err(
            "this feature decomposes into more than 500 issues; refusing to answer with a truncated plan that would read as complete".to_owned(),
        );
    }
    let ghost start = descent.survey();
    let ghost known = descent.answers@;
    descent.visited.insert(id.clone());
    let answer = fetch(id);
    proof {
        let order = descent.order@;
        descent.order@ = order.push(id@);
        descent.answers@ = known.insert(id@, answer);
        assert forall|x: Seq<char>| order.push(id@).contains(x) == (order.contains(x) || x
            == id@) by {
            assert(order.push(id@)[order.len() as int] == id@);
            if order.contains(x) {
                let k = choose|k: int| 0 <= k < order.len() && order[k] == x;
                assert(order.push(id@)[k] == x);
            }
            if order.push(id@).contains(x) && x != id@ {
                let k = choose|k: int| 0 <= k < order.push(id@).len() && order.push(id@)[k] == x;
                assert(order[k] == x);
            }
        }
        assert(descent.visited@ =~= descent.order@.to_set());
        assert(extends(known, descent.answers@));
        assert(id@ == id@);
        assert forall|x: Seq<char>| #[trigger]
            descent.answers@.dom().contains(x) implies exists|asked: IssueId| #[trigger]
            asked@ == x && call_ensures(*fetch, (&asked,), descent.answers@[x]) by {
            if x == id@ {
                let asked = *id;
                assert(asked@ == x && call_ensures(*fetch, (&asked,), descent.answers@[x]));
            } else {
                assert(known.dom().contains(x));
            }
        }
    }
    let node = match answer {
        Ok(node) => node,
        Err(words) => {
            return Err(words);
        },
    };
    record(descent, id, &node.blockers);
    let ghost here = descent.answers@;
    let ghost next = visited_one(start, id@, node.blockers@);
    let ghost below = (depth@ - 1) as nat;
    let ghost ids = ids::names(node.children@);
    let mut children: Vec<Tree<Issue>> = Vec::new();
    let mut i: usize = 0;
    proof {
        assert(descent.survey() == next);
        assert(ids.take(0) =~= Seq::<Seq<char>>::empty());
        assert(tree::forest_view(children@) =~= Seq::<TreeView<Issue>>::empty());
    }
    while i < node.children.len()
        invariant
            i <= node.children@.len(),
            forall|asked: &IssueId| call_requires(*fetch, (asked,)),
            descent.wf(),
            given(*fetch, descent.answers@),
            extends(known, here),
            extends(here, descent.answers@),
            here.dom().contains(id@),
            here[id@] == Ok::<Node, String>(node),
            descent.order@.len() <= CAP,
            below + next.visited.len() >= CAP,
            next.visited.len() <= descent.order@.len(),
            start == old(descent).survey(),
            known == old(descent).answers@,
            start.visited.len() < CAP,
            depth@ > 0,
            below == depth@ - 1,
            next == visited_one(start, id@, node.blockers@),
            ids == ids::names(node.children@),
            gathered_all(descent.answers@, ids.take(i as int), next, below) == Ok::<
                (Seq<TreeView<Issue>>, Survey),
                Seq<char>,
            >((tree::forest_view(children@), descent.survey())),
        decreases node.children@.len() - i,
    {
        let child = &node.children[i];
        let ghost before = descent.answers@;
        let ghost between = descent.survey();
        let ghost so_far = children@;
        proof {
            assert(ids.take(i + 1).drop_last() =~= ids.take(i as int));
            assert(ids.take(i + 1).last() == child@);
            gathering_all_visits(before, ids.take(i as int), next, below);
        }
        if !descent.visited.contains(child) {
            let found = gather(child, fetch, descent, Ghost(below));
            proof {
                assert forall|x: Seq<char>|
                    between.visited.contains(x) && !next.visited.contains(x) implies #[trigger]
                    descent.answers@[x] == before[x] by {
                    assert(before.dom().contains(x));
                }
                gathering_all_rests_on_what_it_visits(
                    before,
                    descent.answers@,
                    ids.take(i as int),
                    next,
                    below,
                );
                gathering_visits(descent.answers@, child@, between, below);
                assert forall|x: Seq<char>| #[trigger] here.dom().contains(x) implies
                    descent.answers@.dom().contains(x) && descent.answers@[x] == here[x] by {
                    assert(before.dom().contains(x));
                }
            }
            match found {
                Ok(tree) => {
                    children.push(tree);
                    assert(children@.drop_last() =~= so_far);
                    assert(between.visited.push(child@).len() <= descent.order@.len());
                },
                Err(words) => {
                    proof {
                        a_failure_ends_the_descent(descent.answers@, ids, i + 1, next, below);
                        assert(descent.answers@[id@] == Ok::<Node, String>(node));
                        assert(extends(known, descent.answers@));
                    }
                    return Err(words);
                },
            }
        }
        i += 1;
    }
    proof {
        assert(ids.take(ids.len() as int) =~= ids);
        assert(descent.answers@[id@] == Ok::<Node, String>(node));
        assert(extends(known, descent.answers@));
    }
    Ok(Tree { value: node.issue, children })
}

impl Plan {
    /// The descent from a feature issue to a plan. `fetch` answers for one
    /// issue at a time, so fixtures exercise it with no network. A visited
    /// set keeps any graph finite (an issue reached twice keeps its first
    /// place in the tree), and a node cap makes exhaustion a refusal in
    /// words rather than a truncated plan that reads as complete.
    ///
    /// # Errors
    ///
    /// Whatever `fetch` fails with, passed through; or the cap's refusal.
    pub fn descend(
        feature: &IssueId,
        fetch: impl Fn(&IssueId) -> Result<Node, String>,
    ) -> (r: Result<Plan, String>)
        requires
            forall|asked: &IssueId| call_requires(fetch, (asked,)),
        ensures
            exists|answers: Answers| #[trigger]
                given(fetch, answers) && answers_all(answers, feature@) && match r {
                    Ok(plan) => gathered(answers, feature@, nothing_yet(), CAP as nat) matches Ok(
                        (tree, survey),
                    ) && made_of(plan@, tree, survey),
                    Err(words) => gathered(answers, feature@, nothing_yet(), CAP as nat) == Err::<
                        (TreeView<Issue>, Survey),
                        Seq<char>,
                    >(words@),
                },
    {
        let mut descent = Descent {
            visited: IdSet::new(),
            blocking: Vec::new(),
            blockers: IdMap::new(),
            order: Ghost(Seq::empty()),
            answers: Ghost(Map::empty()),
        };
        proof {
            assert(descent.visited@ =~= descent.order@.to_set());
            assert(edges(descent.blocking@) =~= Seq::<(Seq<char>, Seq<char>)>::empty());
            assert(descent.survey() == nothing_yet());
        }
        let tree = match gather(feature, &fetch, &mut descent, Ghost(CAP as nat)) {
            Ok(tree) => tree,
            Err(words) => {
                assert(given(fetch, descent.answers@));
                assert(answers_all(descent.answers@, feature@));
                return Err(words);
            },
        };
        proof {
            descents_ask_for_what_they_visit(
                descent.answers@,
                feature@,
                nothing_yet(),
                CAP as nat,
            );
            assert(answers_all(descent.answers@, feature@));
        }
        let ghost answers = descent.answers@;
        let ghost survey = descent.survey();
        let ghost order = descent.order@;
        let ghost known = descent.blockers@;
        let ghost listed = descent.blockers.listed();
        let mut outside: Vec<Issue> = Vec::new();
        let mut i: usize = 0;
        proof {
            descent.blockers.listing();
        }
        while i < descent.blockers.len()
            invariant
                i <= listed.len(),
                descent.wf(),
                descent.answers@ == answers,
                descent.order@ == order,
                descent.blockers@ == known,
                descent.blockers.listed() == listed,
                ids::ascending(listed),
                forall|k: int|
                    0 <= k < outside@.len() ==> #[trigger] outside@[k] == known[outside@[k].id@]
                        && !order.contains(outside@[k].id@),
                forall|k: int|
                    0 <= k < outside@.len() ==> exists|j: int|
                        0 <= j < i && listed[j] == (#[trigger] outside@[k]).id@,
                forall|j: int|
                    0 <= j < i && !order.contains(#[trigger] listed[j]) ==> feature::named(
                        outside@,
                        listed[j],
                    ),
                ids::ascending(feature::issue_names(outside@)),
            decreases listed.len() - i,
        {
            let (id, issue) = descent.blockers.entry(i);
            let ghost shorter = outside@;
            if !descent.visited.contains(&issue.id) {
                outside.push(issue.clone());
                proof {
                    assert forall|a: int, b: int|
                        0 <= a < b < outside@.len() implies text::before(
                        #[trigger] feature::issue_names(outside@)[a],
                        #[trigger] feature::issue_names(outside@)[b],
                    ) by {
                        if b < shorter.len() {
                            assert(feature::issue_names(shorter)[a]
                                == feature::issue_names(outside@)[a]);
                            assert(feature::issue_names(shorter)[b]
                                == feature::issue_names(outside@)[b]);
                        } else {
                            assert(shorter[a] == outside@[a]);
                            let j = choose|j: int| 0 <= j < i && listed[j] == shorter[a].id@;
                            assert(text::before(listed[j], listed[i as int]));
                        }
                    }
                    assert forall|k: int| 0 <= k < outside@.len() implies exists|j: int|
                        0 <= j < i + 1 && listed[j] == (#[trigger] outside@[k]).id@ by {
                        if k < shorter.len() {
                            assert(outside@[k] == shorter[k]);
                            let j = choose|j: int| 0 <= j < i && listed[j] == shorter[k].id@;
                            assert(0 <= j < i + 1 && listed[j] == outside@[k].id@);
                        } else {
                            assert(listed[i as int] == outside@[k].id@);
                        }
                    }
                }
            }
            proof {
                assert forall|j: int| 0 <= j < i + 1 && !order.contains(#[trigger] listed[j]) implies
                    feature::named(outside@, listed[j]) by {
                    if j < i {
                        let k = choose|k: int|
                            0 <= k < shorter.len() && (#[trigger] shorter[k]).id@ == listed[j];
                        assert(outside@[k] == shorter[k]);
                    } else {
                        assert(outside@[outside@.len() - 1].id@ == listed[j]);
                    }
                }
            }
            i += 1;
        }
        let plan = Plan { tree, blocking: descent.blocking, outside };
        proof {
            assert forall|id: Seq<char>| #[trigger]
                feature::named(plan@.outside, id) == (survey.blockers.dom().contains(id)
                    && !survey.visited.contains(id)) by {
                if feature::named(plan@.outside, id) {
                    let k = choose|k: int|
                        0 <= k < plan@.outside.len() && (#[trigger] plan@.outside[k]).id@ == id;
                    let j = choose|j: int|
                        0 <= j < listed.len() && listed[j] == plan@.outside[k].id@;
                    assert(listed.contains(id));
                    assert(!order.contains(plan@.outside[k].id@));
                }
                if survey.blockers.dom().contains(id) && !survey.visited.contains(id) {
                    assert(listed.contains(id));
                    let j = choose|j: int| 0 <= j < listed.len() && listed[j] == id;
                    assert(!order.contains(listed[j]));
                }
            }
            assert(made_of(plan@, tree@, survey));
            assert(given(fetch, descent.answers@));
        }
        Ok(plan)
    }
}

/// Whether every edge met joins an id visited to a blocker noted.
pub open spec fn tied(survey: Survey) -> bool {
    forall|k: int|
        0 <= k < survey.blocking.len() ==> survey.visited.contains(
            (#[trigger] survey.blocking[k]).0,
        ) && survey.blockers.dom().contains(survey.blocking[k].1)
}

/// Whether the answer for `id` was an issue all of whose children are among
/// `visited`.
pub open spec fn answered_within(answers: Answers, id: Seq<char>, visited: Seq<Seq<char>>) -> bool {
    answers[id] matches Ok(node) && forall|k: int|
        0 <= k < node.children@.len() ==> visited.contains((#[trigger] node.children@[k])@)
}

/// Whether `after` goes on from `before` as a descent does.
spec fn surveys_on(answers: Answers, before: Survey, after: Survey) -> bool {
    &&& before.visited.is_prefix_of(after.visited)
    &&& before.visited.no_duplicates() ==> after.visited.no_duplicates()
    &&& before.visited.len() <= CAP ==> after.visited.len() <= CAP
    &&& before.blockers.dom().subset_of(after.blockers.dom())
    &&& tied(before) ==> tied(after)
    &&& forall|k: int|
        before.visited.len() <= k < after.visited.len() ==> answered_within(
            answers,
            #[trigger] after.visited[k],
            after.visited,
        )
}

proof fn prefixes_are_transitive(one: Seq<Seq<char>>, two: Seq<Seq<char>>, three: Seq<Seq<char>>)
    requires
        one.is_prefix_of(two),
        two.is_prefix_of(three),
    ensures
        one.is_prefix_of(three),
        forall|x: Seq<char>| #[trigger] two.contains(x) ==> three.contains(x),
{
    assert forall|i: int| 0 <= i < one.len() implies one[i] == three[i] by {
        assert(one[i] == two[i]);
    }
    assert(three.subrange(0, one.len() as int) =~= one);
    assert forall|x: Seq<char>| #[trigger] two.contains(x) implies three.contains(x) by {
        let k = choose|k: int| 0 <= k < two.len() && two[k] == x;
        assert(three[k] == x);
    }
}

proof fn surveying_is_transitive(answers: Answers, one: Survey, two: Survey, three: Survey)
    requires
        surveys_on(answers, one, two),
        surveys_on(answers, two, three),
    ensures
        surveys_on(answers, one, three),
{
    prefixes_are_transitive(one.visited, two.visited, three.visited);
    assert forall|k: int| one.visited.len() <= k < three.visited.len() implies answered_within(
        answers,
        #[trigger] three.visited[k],
        three.visited,
    ) by {
        if k < two.visited.len() {
            assert(two.visited[k] == three.visited[k]);
            assert(answered_within(answers, two.visited[k], two.visited));
        }
    }
}

proof fn noting_forgets_nothing(known: Map<Seq<char>, Issue>, blockers: Seq<Issue>)
    ensures
        known.dom().subset_of(noted(known, blockers).dom()),
        forall|k: int|
            0 <= k < blockers.len() ==> noted(known, blockers).dom().contains(
                (#[trigger] blockers[k]).id@,
            ),
    decreases blockers.len(),
{
    if blockers.len() > 0 {
        let shorter = blockers.drop_last();
        noting_forgets_nothing(known, shorter);
        assert forall|k: int| 0 <= k < blockers.len() implies noted(
            known,
            blockers,
        ).dom().contains((#[trigger] blockers[k]).id@) by {
            if k < shorter.len() {
                assert(shorter[k] == blockers[k]);
            }
        }
    }
}

proof fn gathering_surveys_on(answers: Answers, id: Seq<char>, survey: Survey, depth: nat)
    requires
        !survey.visited.contains(id),
    ensures
        gathered(answers, id, survey, depth) matches Ok((tree, after)) ==> surveys_on(
            answers,
            survey,
            after,
        ),
    decreases depth, 0nat,
{
    if let Ok((tree, after)) = gathered(answers, id, survey, depth) {
        let node = answers[id]->Ok_0;
        let next = visited_one(survey, id, node.blockers@);
        let ids = ids::names(node.children@);
        gathering_all_surveys_on(answers, ids, next, (depth - 1) as nat);
        noting_forgets_nothing(survey.blockers, node.blockers@);
        assert(survey.visited.is_prefix_of(next.visited)) by {
            assert(next.visited.subrange(0, survey.visited.len() as int) =~= survey.visited);
        }
        if tied(survey) {
            assert forall|k: int| 0 <= k < next.blocking.len() implies next.visited.contains(
                (#[trigger] next.blocking[k]).0,
            ) && next.blockers.dom().contains(next.blocking[k].1) by {
                if k < survey.blocking.len() {
                    assert(next.blocking[k] == survey.blocking[k]);
                    let j = choose|j: int|
                        0 <= j < survey.visited.len() && survey.visited[j]
                            == survey.blocking[k].0;
                    assert(next.visited[j] == survey.blocking[k].0);
                } else {
                    let blocker = node.blockers@[k - survey.blocking.len()];
                    assert(next.blocking[k] == (id, blocker.id@));
                    assert(next.visited[survey.visited.len() as int] == id);
                }
            }
            assert(tied(next));
        }
        prefixes_are_transitive(survey.visited, next.visited, after.visited);
        assert forall|k: int|
            survey.visited.len() <= k < after.visited.len() implies answered_within(
            answers,
            #[trigger] after.visited[k],
            after.visited,
        ) by {
            if k == survey.visited.len() {
                assert(next.visited[k] == id);
                assert(after.visited[k] == id);
                assert forall|c: int| 0 <= c < node.children@.len() implies after.visited.contains(
                    (#[trigger] node.children@[c])@,
                ) by {
                    assert(ids[c] == node.children@[c]@);
                }
            }
        }
    }
}

proof fn gathering_all_surveys_on(
    answers: Answers,
    ids: Seq<Seq<char>>,
    survey: Survey,
    depth: nat,
)
    ensures
        gathered_all(answers, ids, survey, depth) matches Ok((trees, after)) ==> surveys_on(
            answers,
            survey,
            after,
        ) && forall|i: int| 0 <= i < ids.len() ==> after.visited.contains(#[trigger] ids[i]),
    decreases depth, ids.len() + 1,
{
    if let Ok((trees, after)) = gathered_all(answers, ids, survey, depth) {
        if ids.len() > 0 {
            let shorter = ids.drop_last();
            let between = (gathered_all(answers, shorter, survey, depth)->Ok_0).1;
            gathering_all_surveys_on(answers, shorter, survey, depth);
            if !between.visited.contains(ids.last()) {
                gathering_surveys_on(answers, ids.last(), between, depth);
                gathering_visits(answers, ids.last(), between, depth);
                surveying_is_transitive(answers, survey, between, after);
                prefixes_are_transitive(survey.visited, between.visited, after.visited);
                assert(between.visited.push(ids.last())[between.visited.len() as int]
                    == ids.last());
                assert(after.visited[between.visited.len() as int] == ids.last());
            }
            assert forall|i: int| 0 <= i < ids.len() implies after.visited.contains(
                #[trigger] ids[i],
            ) by {
                if i < shorter.len() {
                    assert(shorter[i] == ids[i]);
                }
            }
        }
    }
}

/// Whether each of the ids was answered with the issue of that name.
pub open spec fn honest(answers: Answers, ids: Seq<Seq<char>>) -> bool {
    forall|k: int|
        0 <= k < ids.len() ==> (answers[#[trigger] ids[k]] matches Ok(node) ==> node.issue.id@
            == ids[k])
}

proof fn gathering_keeps_the_order(answers: Answers, id: Seq<char>, survey: Survey, depth: nat)
    requires
        gathered(answers, id, survey, depth) is Ok,
        honest(answers, (gathered(answers, id, survey, depth)->Ok_0).1.visited),
        !survey.visited.contains(id),
    ensures
        feature::issue_names((gathered(answers, id, survey, depth)->Ok_0).0.nodes())
            == (gathered(answers, id, survey, depth)->Ok_0).1.visited.skip(
            survey.visited.len() as int,
        ),
    decreases depth, 0nat,
{
    let (tree, after) = gathered(answers, id, survey, depth)->Ok_0;
    let node = answers[id]->Ok_0;
    let next = visited_one(survey, id, node.blockers@);
    let ids = ids::names(node.children@);
    gathering_visits(answers, id, survey, depth);
    gathering_all_keeps_the_order(answers, ids, next, (depth - 1) as nat);
    let n = survey.visited.len() as int;
    assert(survey.visited.push(id)[n] == id);
    assert(after.visited[n] == id);
    assert(answers[after.visited[n]] == answers[id]);
    assert(feature::issue_names(tree.nodes()) =~= seq![id] + feature::issue_names(
        tree::forest_nodes(tree.children),
    ));
    assert(after.visited.skip(n) =~= seq![id] + after.visited.skip(n + 1));
}

proof fn gathering_all_keeps_the_order(
    answers: Answers,
    ids: Seq<Seq<char>>,
    survey: Survey,
    depth: nat,
)
    requires
        gathered_all(answers, ids, survey, depth) is Ok,
        honest(answers, (gathered_all(answers, ids, survey, depth)->Ok_0).1.visited),
    ensures
        feature::issue_names(
            tree::forest_nodes((gathered_all(answers, ids, survey, depth)->Ok_0).0),
        ) == (gathered_all(answers, ids, survey, depth)->Ok_0).1.visited.skip(
            survey.visited.len() as int,
        ),
    decreases depth, ids.len() + 1,
{
    let (trees, after) = gathered_all(answers, ids, survey, depth)->Ok_0;
    let n = survey.visited.len() as int;
    if ids.len() == 0 {
        assert(feature::issue_names(tree::forest_nodes(trees)) =~= after.visited.skip(n));
    } else {
        let (first, between) = gathered_all(answers, ids.drop_last(), survey, depth)->Ok_0;
        gathering_all_visits(answers, ids.drop_last(), survey, depth);
        if between.visited.contains(ids.last()) {
            gathering_all_keeps_the_order(answers, ids.drop_last(), survey, depth);
        } else {
            let (last, _) = gathered(answers, ids.last(), between, depth)->Ok_0;
            gathering_visits(answers, ids.last(), between, depth);
            let m = between.visited.len() as int;
            assert forall|k: int| 0 <= k < m implies #[trigger] between.visited[k]
                == after.visited[k] by {
                assert(between.visited.push(ids.last())[k] == after.visited[k]);
            }
            assert(honest(answers, between.visited)) by {
                assert forall|k: int| 0 <= k < m implies (answers[#[trigger] between.visited[k]] matches Ok(
                    node,
                ) ==> node.issue.id@ == between.visited[k]) by {
                    assert(after.visited[k] == between.visited[k]);
                }
            }
            gathering_all_keeps_the_order(answers, ids.drop_last(), survey, depth);
            gathering_keeps_the_order(answers, ids.last(), between, depth);
            assert(trees.drop_last() =~= first);
            assert(feature::issue_names(tree::forest_nodes(trees)) =~= feature::issue_names(
                tree::forest_nodes(first),
            ) + feature::issue_names(last.nodes()));
            assert(after.visited.skip(n) =~= between.visited.skip(n) + after.visited.skip(m));
        }
    }
}

// ----- how far a descent goes -----

/// Whether `child` is one of the children of `id`.
pub open spec fn child_of(answers: Answers, id: Seq<char>, child: Seq<char>) -> bool {
    answers[id] matches Ok(node) && ids::names(node.children@).contains(child)
}

/// Whether a way leads down from `feature`, from child to child.
pub open spec fn leads(answers: Answers, feature: Seq<char>, way: Seq<Seq<char>>) -> bool {
    &&& way.len() > 0
    &&& way[0] == feature
    &&& forall|i: int|
        0 <= i < way.len() - 1 ==> child_of(answers, #[trigger] way[i], way[i + 1])
}

/// Whether `id` is `feature`, or beneath it.
pub open spec fn reachable(answers: Answers, feature: Seq<char>, id: Seq<char>) -> bool {
    exists|way: Seq<Seq<char>>| #[trigger] leads(answers, feature, way) && way.last() == id
}

proof fn children_are_reachable(
    answers: Answers,
    feature: Seq<char>,
    id: Seq<char>,
    child: Seq<char>,
)
    requires
        reachable(answers, feature, id),
        child_of(answers, id, child),
    ensures
        reachable(answers, feature, child),
{
    let way = choose|way: Seq<Seq<char>>| #[trigger]
        leads(answers, feature, way) && way.last() == id;
    let longer = way.push(child);
    assert forall|i: int| 0 <= i < longer.len() - 1 implies child_of(
        answers,
        #[trigger] longer[i],
        longer[i + 1],
    ) by {
        if i < way.len() - 1 {
            assert(longer[i] == way[i] && longer[i + 1] == way[i + 1]);
        } else {
            assert(longer[i] == id);
        }
    }
    assert(leads(answers, feature, longer));
    assert(longer.last() == child);
}

/// Whether a descent that had visited `before` and has asked for `after`
/// came to its end as descents do: it went on, asked for nothing twice and
/// for nothing that is not beneath the feature, and was answered with an
/// issue each time but the last, where it failed.
spec fn asks_on(
    answers: Answers,
    feature: Seq<char>,
    before: Seq<Seq<char>>,
    after: Seq<Seq<char>>,
    failed: Option<Seq<char>>,
) -> bool {
    &&& before.is_prefix_of(after)
    &&& after.no_duplicates()
    &&& after.len() <= CAP
    &&& forall|k: int|
        before.len() <= k < after.len() ==> reachable(answers, feature, #[trigger] after[k])
    &&& forall|k: int|
        before.len() <= k < after.len() - 1 ==> answers[#[trigger] after[k]] is Ok
    &&& match failed {
        None => after.len() > before.len() ==> answers[after.last()] is Ok,
        Some(words) => failed_as(answers, feature, before, after, words),
    }
}

/// Whether a descent failed with these words: an answer's own, or the
/// refusal of one that has asked as often as it may and is not done.
spec fn failed_as(
    answers: Answers,
    feature: Seq<char>,
    before: Seq<Seq<char>>,
    after: Seq<Seq<char>>,
    words: Seq<char>,
) -> bool {
    ||| after.len() > before.len() && answers[after.last()] is Err && answers[
        after.last()
    ]->Err_0@ == words
    ||| {
        &&& after.len() == CAP
        &&& after.len() > before.len() ==> answers[after.last()] is Ok
        &&& words == refusal()
        &&& exists|id: Seq<char>| #[trigger]
            reachable(answers, feature, id) && !after.contains(id)
    }
}

spec fn failure<T>(r: Result<T, Seq<char>>) -> Option<Seq<char>> {
    match r {
        Ok(_) => None,
        Err(words) => Some(words),
    }
}

proof fn descents_ask_on(
    answers: Answers,
    feature: Seq<char>,
    id: Seq<char>,
    survey: Survey,
    depth: nat,
)
    requires
        reachable(answers, feature, id),
        !survey.visited.contains(id),
        survey.visited.no_duplicates(),
        survey.visited.len() <= CAP,
        depth + survey.visited.len() >= CAP,
    ensures
        asks_on(
            answers,
            feature,
            survey.visited,
            asked(answers, id, survey, depth),
            failure(gathered(answers, id, survey, depth)),
        ),
    decreases depth, 0nat,
{
    let before = survey.visited;
    let after = asked(answers, id, survey, depth);
    if before.len() >= CAP {
        assert(reachable(answers, feature, id) && !after.contains(id));
        assert(before.is_prefix_of(after)) by {
            assert(after.subrange(0, before.len() as int) =~= before);
        }
        assert(failed_as(answers, feature, before, after, refusal()));
    } else {
        match answers[id] {
            Err(words) => {
                assert(after.subrange(0, before.len() as int) =~= before);
                assert(after.last() == id);
            },
            Ok(node) => {
                let next = visited_one(survey, id, node.blockers@);
                let ids = ids::names(node.children@);
                assert forall|i: int| 0 <= i < ids.len() implies reachable(
                    answers,
                    feature,
                    #[trigger] ids[i],
                ) by {
                    assert(ids.contains(ids[i]));
                    children_are_reachable(answers, feature, id, ids[i]);
                }
                all_descents_ask_on(answers, feature, ids, next, (depth - 1) as nat);
                assert(next.visited[before.len() as int] == id);
                assert(after[before.len() as int] == id);
                assert(before.is_prefix_of(next.visited)) by {
                    assert(next.visited.subrange(0, before.len() as int) =~= before);
                }
                prefixes_are_transitive(before, next.visited, after);
                if after.len() == next.visited.len() {
                    assert(after.last() == id);
                }
            },
        }
    }
}

proof fn all_descents_ask_on(
    answers: Answers,
    feature: Seq<char>,
    ids: Seq<Seq<char>>,
    survey: Survey,
    depth: nat,
)
    requires
        forall|i: int| 0 <= i < ids.len() ==> reachable(answers, feature, #[trigger] ids[i]),
        survey.visited.no_duplicates(),
        survey.visited.len() <= CAP,
        depth + survey.visited.len() >= CAP,
    ensures
        asks_on(
            answers,
            feature,
            survey.visited,
            asked_all(answers, ids, survey, depth),
            failure(gathered_all(answers, ids, survey, depth)),
        ),
    decreases depth, ids.len() + 1,
{
    let before = survey.visited;
    let after = asked_all(answers, ids, survey, depth);
    if ids.len() == 0 {
        assert(before.is_prefix_of(after)) by {
            assert(after.subrange(0, before.len() as int) =~= before);
        }
    } else {
        let fewer = ids.drop_last();
        assert forall|i: int| 0 <= i < fewer.len() implies reachable(
            answers,
            feature,
            #[trigger] fewer[i],
        ) by {
            assert(fewer[i] == ids[i]);
        }
        assert(ids[ids.len() - 1] == ids.last());
        all_descents_ask_on(answers, feature, fewer, survey, depth);
        if let Ok((_, between)) = gathered_all(answers, fewer, survey, depth) {
            all_descents_ask_for_what_they_visit(answers, fewer, survey, depth);
            gathering_all_visits(answers, fewer, survey, depth);
            if !between.visited.contains(ids.last()) {
                descents_ask_on(answers, feature, ids.last(), between, depth);
                prefixes_are_transitive(before, between.visited, after);
                assert forall|k: int| before.len() <= k < after.len() implies reachable(
                    answers,
                    feature,
                    #[trigger] after[k],
                ) by {
                    if k < between.visited.len() {
                        assert(between.visited[k] == after[k]);
                    }
                }
                assert forall|k: int| before.len() <= k < after.len() - 1 implies answers[
                    #[trigger] after[k]
                ] is Ok by {
                    if k < between.visited.len() {
                        assert(between.visited[k] == after[k]);
                        if k == between.visited.len() - 1 {
                            assert(between.visited.last() == after[k]);
                        }
                    }
                }
                if after.len() == between.visited.len() && after.len() > before.len() {
                    assert(after.last() == between.visited.last());
                }
            }
        }
    }
}

/// Law: a descent asks for the feature first, for no id twice, for at most
/// as many as the cap, and for nothing that is not the feature or beneath
/// it. It goes on while it is answered with issues. It fails with the words
/// of the first answer that is none, asking for nothing after it, or, all
/// answers being issues, with the cap's refusal once it has asked as often
/// as it may with an issue still to go.
pub proof fn a_descent_asks_until_it_fails(answers: Answers, feature: Seq<char>)
    ensures
        ({
            let ids = asked_of(answers, feature);
            &&& 0 < ids.len() <= CAP
            &&& ids[0] == feature
            &&& ids.no_duplicates()
            &&& forall|k: int|
                0 <= k < ids.len() ==> reachable(answers, feature, #[trigger] ids[k])
            &&& forall|k: int| 0 <= k < ids.len() - 1 ==> answers[#[trigger] ids[k]] is Ok
            &&& match gathered(answers, feature, nothing_yet(), CAP as nat) {
                Ok((_, survey)) => survey.visited == ids && answers[ids.last()] is Ok,
                Err(words) => {
                    ||| answers[ids.last()] matches Err(own) && own@ == words
                    ||| {
                        &&& answers[ids.last()] is Ok
                        &&& ids.len() == CAP
                        &&& words == refusal()
                        &&& exists|id: Seq<char>| #[trigger]
                            reachable(answers, feature, id) && !ids.contains(id)
                    }
                },
            }
        }),
{
    let none = nothing_yet();
    let ids = asked_of(answers, feature);
    assert(leads(answers, feature, seq![feature]));
    assert(seq![feature].last() == feature);
    descents_ask_on(answers, feature, feature, none, CAP as nat);
    descents_ask_for_what_they_visit(answers, feature, none, CAP as nat);
    match answers[feature] {
        Err(_) => {
            assert(ids =~= seq![feature]);
        },
        Ok(node) => {
            let next = visited_one(none, feature, node.blockers@);
            let children = ids::names(node.children@);
            assert forall|i: int| 0 <= i < children.len() implies reachable(
                answers,
                feature,
                #[trigger] children[i],
            ) by {
                assert(children.contains(children[i]));
                children_are_reachable(answers, feature, feature, children[i]);
            }
            all_descents_ask_on(answers, feature, children, next, (CAP - 1) as nat);
            assert(next.visited[0] == feature);
            assert(ids[0] == feature);
        },
    }
}

proof fn ways_stay_among_the_visited(
    answers: Answers,
    visited: Seq<Seq<char>>,
    feature: Seq<char>,
    way: Seq<Seq<char>>,
    k: int,
)
    requires
        leads(answers, feature, way),
        visited.contains(feature),
        forall|i: int|
            0 <= i < visited.len() ==> answered_within(answers, #[trigger] visited[i], visited),
        0 <= k < way.len(),
    ensures
        visited.contains(way[k]),
    decreases k,
{
    if k > 0 {
        ways_stay_among_the_visited(answers, visited, feature, way, k - 1);
        let i = choose|i: int| 0 <= i < visited.len() && visited[i] == way[k - 1];
        assert(answered_within(answers, visited[i], visited));
        assert(child_of(answers, way[k - 1], way[k - 1 + 1]));
        let node = answers[way[k - 1]]->Ok_0;
        let c = choose|c: int|
            0 <= c < ids::names(node.children@).len() && ids::names(node.children@)[c] == way[k];
        assert(node.children@[c]@ == way[k]);
    }
}

/// Law: what a descent visits is the feature and all that is beneath it.
pub proof fn a_descent_visits_all_beneath(answers: Answers, feature: Seq<char>, id: Seq<char>)
    requires
        gathered(answers, feature, nothing_yet(), CAP as nat) is Ok,
    ensures
        asked_of(answers, feature).contains(id) == reachable(answers, feature, id),
{
    let none = nothing_yet();
    let ids = asked_of(answers, feature);
    a_descent_asks_until_it_fails(answers, feature);
    gathering_surveys_on(answers, feature, none, CAP as nat);
    assert(ids.contains(ids[0]));
    if reachable(answers, feature, id) {
        let way = choose|way: Seq<Seq<char>>| #[trigger]
            leads(answers, feature, way) && way.last() == id;
        ways_stay_among_the_visited(answers, ids, feature, way, way.len() - 1);
    }
}

/// Law: a descent succeeds just when every id beneath the feature, and its
/// own, is answered with an issue, and there are no more of them than the
/// cap.
pub proof fn a_descent_succeeds_just_when_all_is_answered(answers: Answers, feature: Seq<char>)
    ensures
        gathered(answers, feature, nothing_yet(), CAP as nat) is Ok <==> {
            &&& forall|id: Seq<char>| #[trigger]
                reachable(answers, feature, id) ==> answers[id] is Ok
            &&& exists|all: Seq<Seq<char>>|
                all.len() <= CAP && forall|id: Seq<char>| #[trigger]
                    reachable(answers, feature, id) ==> all.contains(id)
        },
{
    let ids = asked_of(answers, feature);
    a_descent_asks_until_it_fails(answers, feature);
    if gathered(answers, feature, nothing_yet(), CAP as nat) is Ok {
        assert forall|id: Seq<char>| #[trigger]
            reachable(answers, feature, id) implies ids.contains(id) && answers[id] is Ok by {
            a_descent_visits_all_beneath(answers, feature, id);
            let k = choose|k: int| 0 <= k < ids.len() && ids[k] == id;
            if k < ids.len() - 1 {
                assert(answers[ids[k]] is Ok);
            }
        }
    } else if forall|id: Seq<char>| #[trigger]
        reachable(answers, feature, id) ==> answers[id] is Ok {
        assert(reachable(answers, feature, ids[ids.len() - 1]));
        let left = choose|id: Seq<char>| #[trigger]
            reachable(answers, feature, id) && !ids.contains(id);
        assert forall|all: Seq<Seq<char>>|
            forall|id: Seq<char>| #[trigger]
                reachable(answers, feature, id) ==> all.contains(id) implies all.len() > CAP by {
            let more = ids.push(left);
            assert(more.no_duplicates());
            assert forall|id: Seq<char>| more.to_set().contains(id) implies all.to_set().contains(
                id,
            ) by {
                let k = choose|k: int| 0 <= k < more.len() && more[k] == id;
                if k < ids.len() {
                    assert(reachable(answers, feature, ids[k]));
                }
            }
            more.unique_seq_to_set();
            all.lemma_cardinality_of_set();
            vstd::set_lib::lemma_len_subset(more.to_set(), all.to_set());
        }
    }
}

// ----- what a descent notes -----

/// The edges around the ids, in order: for each id, one to each of its
/// blockers.
pub open spec fn edges_over(answers: Answers, visited: Seq<Seq<char>>) -> Seq<
    (Seq<char>, Seq<char>),
>
    decreases visited.len(),
{
    if visited.len() == 0 {
        Seq::empty()
    } else {
        edges_over(answers, visited.drop_last()) + answers[visited.last()]->Ok_0.blockers@.map_values(
            |blocker: Issue| (visited.last(), blocker.id@),
        )
    }
}

/// The blockers of the ids, each as the last of them recorded it.
pub open spec fn noted_over(answers: Answers, visited: Seq<Seq<char>>) -> Map<Seq<char>, Issue>
    decreases visited.len(),
{
    if visited.len() == 0 {
        Map::empty()
    } else {
        noted(
            noted_over(answers, visited.drop_last()),
            answers[visited.last()]->Ok_0.blockers@,
        )
    }
}

spec fn notes(answers: Answers, survey: Survey) -> bool {
    &&& survey.blocking == edges_over(answers, survey.visited)
    &&& survey.blockers == noted_over(answers, survey.visited)
}

proof fn gathering_notes(answers: Answers, id: Seq<char>, survey: Survey, depth: nat)
    requires
        notes(answers, survey),
    ensures
        gathered(answers, id, survey, depth) matches Ok((_, after)) ==> notes(answers, after),
    decreases depth, 0nat,
{
    if let Ok((_, after)) = gathered(answers, id, survey, depth) {
        let node = answers[id]->Ok_0;
        let next = visited_one(survey, id, node.blockers@);
        assert(next.visited.drop_last() =~= survey.visited);
        assert(next.visited.last() == id);
        assert(notes(answers, next));
        gathering_all_notes(answers, ids::names(node.children@), next, (depth - 1) as nat);
    }
}

proof fn gathering_all_notes(answers: Answers, ids: Seq<Seq<char>>, survey: Survey, depth: nat)
    requires
        notes(answers, survey),
    ensures
        gathered_all(answers, ids, survey, depth) matches Ok((_, after)) ==> notes(
            answers,
            after,
        ),
    decreases depth, ids.len() + 1,
{
    if ids.len() > 0 {
        gathering_all_notes(answers, ids.drop_last(), survey, depth);
        if let Ok((_, between)) = gathered_all(answers, ids.drop_last(), survey, depth) {
            if !between.visited.contains(ids.last()) {
                gathering_notes(answers, ids.last(), between, depth);
            }
        }
    }
}

/// Law: the edges of a descended plan are those around each id visited, in
/// the order they were visited; and its outside blockers are those that the
/// edges named and none visited, each as the last edge naming it recorded
/// it, in the order of their names.
pub proof fn a_descended_plan_says_what_was_answered(
    plan: PlanView,
    feature: Seq<char>,
    answers: Answers,
    tree: TreeView<Issue>,
    survey: Survey,
)
    requires
        gathered(answers, feature, nothing_yet(), CAP as nat) == Ok::<
            (TreeView<Issue>, Survey),
            Seq<char>,
        >((tree, survey)),
        made_of(plan, tree, survey),
    ensures
        edges(plan.blocking) == edges_over(answers, asked_of(answers, feature)),
        ids::ascending(feature::issue_names(plan.outside)),
        forall|id: Seq<char>| #[trigger]
            feature::named(plan.outside, id) == (noted_over(
                answers,
                asked_of(answers, feature),
            ).dom().contains(id) && !asked_of(answers, feature).contains(id)),
        forall|i: int|
            0 <= i < plan.outside.len() ==> #[trigger] plan.outside[i] == noted_over(
                answers,
                asked_of(answers, feature),
            )[plan.outside[i].id@],
{
    gathering_notes(answers, feature, nothing_yet(), CAP as nat);
    descents_ask_for_what_they_visit(answers, feature, nothing_yet(), CAP as nat);
}

/// A plan that a descent made is sound. It holds at most as many issues as
/// the cap, and no issue is left out: every child of an issue visited was
/// visited. Where the tracker answers each id with the issue of that name,
/// the tree has the feature at its root and each name once; every edge
/// starts in the tree and both its ends are known, so none dangles; and
/// nothing outside is in the tree.
pub proof fn a_descended_plan_is_sound(
    plan: PlanView,
    feature: Seq<char>,
    answers: Answers,
    tree: TreeView<Issue>,
    survey: Survey,
)
    requires
        gathered(answers, feature, nothing_yet(), CAP as nat) == Ok::<
            (TreeView<Issue>, Survey),
            Seq<char>,
        >((tree, survey)),
        made_of(plan, tree, survey),
        honest(answers, survey.visited),
    ensures
        survey.visited.len() <= CAP,
        forall|k: int|
            0 <= k < survey.visited.len() ==> answered_within(
                answers,
                #[trigger] survey.visited[k],
                survey.visited,
            ),
        feature::issue_names(plan.tree.nodes()) == survey.visited,
        survey.visited.no_duplicates(),
        plan.tree.value.id@ == feature,
        forall|k: int|
            0 <= k < plan.blocking.len() ==> feature::named(
                plan.tree.nodes(),
                (#[trigger] plan.blocking[k]).issue@,
            ),
        plan.dangling().len() == 0,
        forall|i: int|
            0 <= i < plan.outside.len() ==> !feature::named(
                plan.tree.nodes(),
                (#[trigger] plan.outside[i]).id@,
            ),
{
    let none = nothing_yet();
    gathering_surveys_on(answers, feature, none, CAP as nat);
    gathering_visits(answers, feature, none, CAP as nat);
    gathering_keeps_the_order(answers, feature, none, CAP as nat);
    assert(tied(none));
    let nodes = plan.tree.nodes();
    assert(survey.visited.skip(0) =~= survey.visited);
    assert(feature::issue_names(nodes) =~= survey.visited);
    assert(none.visited.push(feature)[0] == feature);
    assert(survey.visited[0] == feature);
    assert(feature::issue_names(nodes)[0] == nodes[0].id@);
    assert forall|id: Seq<char>| #[trigger]
        feature::named(nodes, id) == survey.visited.contains(id) by {
        if feature::named(nodes, id) {
            let i = choose|i: int| 0 <= i < nodes.len() && (#[trigger] nodes[i]).id@ == id;
            assert(feature::issue_names(nodes)[i] == id);
        }
        if survey.visited.contains(id) {
            let i = choose|i: int| 0 <= i < survey.visited.len() && survey.visited[i] == id;
            assert(feature::issue_names(nodes)[i] == nodes[i].id@);
        }
    }
    assert forall|k: int| 0 <= k < plan.blocking.len() implies feature::named(
        nodes,
        (#[trigger] plan.blocking[k]).issue@,
    ) && plan.knows(plan.blocking[k].blocker@) by {
        assert(edges(plan.blocking)[k] == (
            plan.blocking[k].issue@,
            plan.blocking[k].blocker@,
        ));
        assert(survey.visited.contains(survey.blocking[k].0));
    }
    let dangles = |edge: Blocking| !plan.knows(edge.issue@) || !plan.knows(edge.blocker@);
    if plan.dangling().len() > 0 {
        let edge = plan.dangling()[0];
        plan.blocking.lemma_filter_pred(dangles, 0);
        assert(plan.dangling().contains(edge));
        plan.blocking.lemma_filter_contains_rev(dangles, edge);
        let k = choose|k: int| 0 <= k < plan.blocking.len() && plan.blocking[k] == edge;
        assert(feature::named(nodes, plan.blocking[k].issue@));
    }
    assert forall|i: int| 0 <= i < plan.outside.len() implies !feature::named(
        nodes,
        (#[trigger] plan.outside[i]).id@,
    ) by {
        assert(feature::named(plan.outside, plan.outside[i].id@));
    }
}

} // verus!
