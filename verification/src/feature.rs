//! A feature's shape: the plan, before anything builds.
//!
//! A feature is an issue with issues beneath it. Containment nests — a
//! feature may hold sub-features — and ordering does not, so a [`Plan`]
//! carries the two separately over the same nodes: a [`Tree`] of
//! [`Issue`]s rooted at the feature issue, a flat list of [`Blocking`]
//! edges, and whatever blockers point outside the tree, each recorded
//! from the edge itself with the state that decides whether it holds.
//!
//! Sub-issue semantics are stated once, in [`Plan::settled`]: an issue is
//! settled when it is in the done set, or closed in the tracker, or a
//! container whose every child is settled. [`Plan::ready`] is the same
//! predicate applied three ways — false for a leaf, false for each of its
//! ancestors, true for each of its blockers — so a closed container stops
//! its children without a rule of its own. [`Plan::problems`] names what
//! is wrong with a plan's shape rather than scheduling around it.

use crate::ids;
use crate::ids::{IdMap, IdSet};
use crate::text;
use crate::tree;
use crate::tree::{Tree, TreeView};
use vstd::prelude::*;

pub use crate::feature::record::{Budget, Build, Slot, CONCURRENCY};
pub use crate::ids::IssueId;

pub mod attempt;
pub mod attempt_laws;
pub mod build_laws;
pub mod cycles;
pub mod landing;
pub mod merge;
pub mod merge_laws;
pub mod offer_laws;
pub mod record;
pub mod record_laws;
pub mod record_log;
pub mod starting;
pub mod tools;
pub mod tools_laws;
pub mod descent;
pub mod laws;
pub mod layout;
pub mod layout_laws;
pub mod picture_laws;
pub mod plan_laws;

verus! {

/// An issue as a plan carries one: enough to schedule and render — title
/// and state, no body.
#[derive(Debug, Eq, PartialEq)]
pub struct Issue {
    pub id: IssueId,
    pub title: String,
    pub closed: bool,
}

impl Clone for Issue {
    fn clone(&self) -> (r: Self)
        ensures
            r == *self,
    {
        Issue { id: self.id.clone(), title: self.title.clone(), closed: self.closed }
    }
}

/// One ordering edge: `issue` waits until `blocker` settles. Edges cross
/// the containment tree freely, and a blocker may be a container — "the
/// docs wait on the whole API" is the natural thing to say — or an issue
/// outside the tree altogether.
#[derive(Debug, Eq, PartialEq)]
pub struct Blocking {
    pub issue: IssueId,
    pub blocker: IssueId,
}

impl Clone for Blocking {
    fn clone(&self) -> (r: Self)
        ensures
            r == *self,
    {
        Blocking { issue: self.issue.clone(), blocker: self.blocker.clone() }
    }
}

/// Where one issue of work stands in a build.
#[derive(Debug, Eq, PartialEq)]
pub enum State {
    /// Not started: waiting on a blocker, or on a free slot.
    Waiting,
    /// An agent is at work on it.
    Running,
    /// Its agent is gone, and its work is landing on the feature branch.
    Merging,
    /// Landed at `commit`; `checked` says whether a check passed it.
    Merged { commit: String, checked: bool },
    /// It will not land, and `report` says why.
    Failed { report: String },
    /// It will not be tried, and `reason` says why.
    Skipped { reason: String },
}

impl Clone for State {
    fn clone(&self) -> (r: Self)
        ensures
            r == *self,
    {
        match self {
            State::Waiting => State::Waiting,
            State::Running => State::Running,
            State::Merging => State::Merging,
            State::Merged { commit, checked } => State::Merged {
                commit: commit.clone(),
                checked: *checked,
            },
            State::Failed { report } => State::Failed { report: report.clone() },
            State::Skipped { reason } => State::Skipped { reason: reason.clone() },
        }
    }
}

/// One issue and the edges around it, as one fetch answers during the
/// descent: the sub-issues it contains, by id — each is fetched in its
/// own turn — and the issues blocking it, whole, because a blocker
/// outside the tree is never fetched and must carry its state on the
/// edge.
#[derive(Clone, Debug, Eq, PartialEq)]
pub struct Node {
    pub issue: Issue,
    pub children: Vec<IssueId>,
    pub blockers: Vec<Issue>,
}

/// What can be wrong with a plan's shape, named rather than scheduled
/// around.
#[derive(Clone, Debug, Eq, PartialEq)]
pub enum Problem {
    /// Blocked-by edges that chase each other's tails: the ids around the
    /// loop, first one repeated at the end. Nothing on a cycle can ever
    /// start.
    Cycle(Vec<IssueId>),
    /// An edge with an end in neither the tree nor the outside blockers:
    /// the plan cannot say whether it holds.
    Dangling(Blocking),
    /// Every leaf is settled before anything begins: the plan has no work
    /// in it.
    NoWork,
}

/// A [`Problem`] over names.
pub enum ProblemView {
    Cycle(Seq<Seq<char>>),
    Dangling(Seq<char>, Seq<char>),
    NoWork,
}

impl View for Problem {
    type V = ProblemView;

    open spec fn view(&self) -> ProblemView {
        match self {
            Problem::Cycle(ids) => ProblemView::Cycle(ids::names(ids@)),
            Problem::Dangling(edge) => ProblemView::Dangling(edge.issue@, edge.blocker@),
            Problem::NoWork => ProblemView::NoWork,
        }
    }
}

impl ProblemView {
    /// The problem in words.
    pub open spec fn words(self) -> Seq<char> {
        match self {
            ProblemView::Cycle(ids) => "blocked-by edges form a cycle: "@ + text::join(
                ids,
                " -> "@,
            ),
            ProblemView::Dangling(issue, blocker) => "the edge \""@ + issue + " is blocked by "@
                + blocker + "\" points at an issue the plan does not know"@,
            ProblemView::NoWork => "every issue is already settled: the plan has no work in it"@,
        }
    }
}

impl Problem {
    /// The problem in words.
    pub fn to_string(&self) -> (r: String)
        ensures
            r@ == self@.words(),
    {
        match self {
            Problem::Cycle(ids) => {
                let mut parts: Vec<String> = Vec::new();
                let mut i: usize = 0;
                while i < ids.len()
                    invariant
                        i <= ids@.len(),
                        text::views(parts@) == ids::names(ids@).take(i as int),
                    decreases ids@.len() - i,
                {
                    let ghost shorter = parts@;
                    parts.push(ids[i].0.clone());
                    proof {
                        assert(text::views(parts@) =~= text::views(shorter).push(
                            ids@[i as int]@,
                        ));
                        assert(ids::names(ids@).take(i + 1) =~= ids::names(ids@).take(i as int).push(
                            ids@[i as int]@,
                        ));
                    }
                    i += 1;
                }
                assert(ids::names(ids@).take(ids@.len() as int) =~= ids::names(ids@));
                let chain = text::joined(&parts, " -> ");
                text::cat2("blocked-by edges form a cycle: ", chain.as_str())
            },
            Problem::Dangling(edge) => text::cat5(
                "the edge \"",
                edge.issue.as_str(),
                " is blocked by ",
                edge.blocker.as_str(),
                "\" points at an issue the plan does not know",
            ),
            Problem::NoWork => {
                "every issue is already settled: the plan has no work in it".to_owned()
            },
        }
    }
}

/// A feature's plan: containment as a tree, ordering as a flat edge list
/// over the same ids, and the blockers that point outside the tree.
#[derive(Debug, Eq, PartialEq)]
pub struct Plan {
    /// The feature issue at the root, its decomposition beneath it.
    /// Interior nodes are containers, not work; only leaves get an agent.
    pub tree: Tree<Issue>,
    /// The blocked-by edges, every `issue` an id in the tree.
    pub blocking: Vec<Blocking>,
    /// Blockers outside the tree, recorded from the edges that name them,
    /// each carrying the state that decides whether it holds.
    pub outside: Vec<Issue>,
}

impl Clone for Tree<Issue> {
    fn clone(&self) -> (r: Self)
        ensures
            r@ == self@,
        decreases self,
    {
        let mut children: Vec<Tree<Issue>> = Vec::new();
        let mut i: usize = 0;
        assert(self.children@.take(0) =~= children@);
        while i < self.children.len()
            invariant
                i <= self.children@.len(),
                tree::forest_view(children@) == tree::forest_view(self.children@.take(i as int)),
            decreases self.children@.len() - i,
        {
            let ghost shorter = children@;
            children.push(self.children[i].clone());
            proof {
                let longer = self.children@.take(i + 1);
                assert(longer.drop_last() =~= self.children@.take(i as int));
                assert(longer.last() == self.children@[i as int]);
                assert(children@.drop_last() =~= shorter);
            }
            i += 1;
        }
        assert(self.children@.take(self.children@.len() as int) =~= self.children@);
        Tree { value: self.value.clone(), children }
    }
}

impl Clone for Plan {
    fn clone(&self) -> (r: Self)
        ensures
            r@ == self@,
    {
        let blocking = self.blocking.clone();
        let outside = self.outside.clone();
        proof {
            assert(blocking@ =~= self.blocking@);
            assert(outside@ =~= self.outside@);
        }
        Plan { tree: self.tree.clone(), blocking, outside }
    }
}

impl Plan {
    /// The feature's title.
    pub fn title(&self) -> (r: &str)
        ensures
            r@ == self@.tree.value.title@,
    {
        self.tree.value.title.as_str()
    }
}

/// The id a build goes by: host-wide, never used twice.
#[derive(Clone, Copy, Debug, Eq, Hash, Ord, PartialEq, PartialOrd, Structural)]
pub struct RunId(pub u64);

/// A [`Plan`] over sequences.
pub struct PlanView {
    pub tree: TreeView<Issue>,
    pub blocking: Seq<Blocking>,
    pub outside: Seq<Issue>,
}

impl View for Plan {
    type V = PlanView;

    open spec fn view(&self) -> PlanView {
        PlanView { tree: self.tree@, blocking: self.blocking@, outside: self.outside@ }
    }
}

/// The way down the first of the trees that holds `id`, to its first node
/// of that name.
pub open spec fn forest_path(trees: Seq<TreeView<Issue>>, id: Seq<char>) -> Option<Seq<TreeView<Issue>>>
    decreases trees,
{
    if trees.len() == 0 {
        None
    } else {
        match path_to(trees[0], id) {
            Some(path) => Some(path),
            None => forest_path(trees.drop_first(), id),
        }
    }
}

/// The nodes from the root down to the first node named `id`, the root
/// first.
pub open spec fn path_to(tree: TreeView<Issue>, id: Seq<char>) -> Option<Seq<TreeView<Issue>>>
    decreases tree,
{
    if tree.value.id@ == id {
        Some(seq![tree])
    } else {
        match forest_path(tree.children, id) {
            Some(path) => Some(seq![tree] + path),
            None => None,
        }
    }
}

/// Whether one of the issues is named `id`.
pub open spec fn named(issues: Seq<Issue>, id: Seq<char>) -> bool {
    exists|i: int| 0 <= i < issues.len() && (#[trigger] issues[i]).id@ == id
}

/// Whether an issue is done, or closed in the tracker.
pub open spec fn finished(issue: Issue, done: Set<Seq<char>>) -> bool {
    done.contains(issue.id@) || issue.closed
}

/// Whether a chain of nodes passes through an issue that is done or closed.
pub open spec fn covered(path: Seq<TreeView<Issue>>, done: Set<Seq<char>>) -> bool {
    exists|i: int| 0 <= i < path.len() && finished((#[trigger] path[i]).value, done)
}

/// Whether every chain from this node down to one of its leaves passes
/// through an issue that is done or closed.
pub open spec fn subtree_settled(node: TreeView<Issue>, done: Set<Seq<char>>) -> bool {
    forall|i: int|
        0 <= i < node.leaves().len() ==> covered(
            path_to(node, (#[trigger] node.leaves()[i]).id@)->0,
            done,
        )
}

/// Whether no node of the chain is settled.
pub open spec fn open_all_along(path: Seq<TreeView<Issue>>, done: Set<Seq<char>>) -> bool {
    forall|i: int| 0 <= i < path.len() ==> !subtree_settled(#[trigger] path[i], done)
}

/// The names of those that block `id`, in the order of the edges.
pub open spec fn blockers_of(blocking: Seq<Blocking>, id: Seq<char>) -> Seq<Seq<char>>
    decreases blocking.len(),
{
    if blocking.len() == 0 {
        Seq::empty()
    } else {
        let rest = blockers_of(blocking.drop_last(), id);
        if blocking.last().issue@ == id {
            rest.push(blocking.last().blocker@)
        } else {
            rest
        }
    }
}

impl PlanView {
    /// Whether an issue outside the tree is recorded as closed.
    pub open spec fn closed_outside(self, id: Seq<char>) -> bool {
        exists|i: int|
            0 <= i < self.outside.len() && (#[trigger] self.outside[i]).id@ == id
                && self.outside[i].closed
    }

    /// Whether `id` counts as settled, given what is done: an id the plan
    /// does not know never does.
    pub open spec fn is_settled(self, id: Seq<char>, done: Set<Seq<char>>) -> bool {
        self.knows(id) && (done.contains(id) || match path_to(self.tree, id) {
            Some(path) => subtree_settled(path.last(), done),
            None => self.closed_outside(id),
        })
    }

    /// Whether no node from the root down to the leaf is settled.
    pub open spec fn is_work(self, leaf: Issue, done: Set<Seq<char>>) -> bool {
        open_all_along(path_to(self.tree, leaf.id@)->0, done)
    }

    /// The open leaves under no settled ancestor, in order.
    pub open spec fn work_of(self, done: Set<Seq<char>>) -> Seq<Issue> {
        self.tree.leaves().filter(|leaf: Issue| self.is_work(leaf, done))
    }

    /// Whether every blocker of `id` is settled.
    pub open spec fn is_released(self, id: Seq<char>, done: Set<Seq<char>>) -> bool {
        let blockers = blockers_of(self.blocking, id);
        forall|i: int| 0 <= i < blockers.len() ==> self.is_settled(#[trigger] blockers[i], done)
    }

    /// The work whose every blocker is settled, in order.
    pub open spec fn ready_of(self, done: Set<Seq<char>>) -> Seq<Issue> {
        self.work_of(done).filter(|leaf: Issue| self.is_released(leaf.id@, done))
    }
}

/// Whether every leaf of the node is in `alive`, or under an issue that is
/// done or closed.
pub open spec fn leaves_land(
    node: TreeView<Issue>,
    done: Set<Seq<char>>,
    alive: Set<Seq<char>>,
) -> bool {
    forall|i: int|
        #![trigger node.leaves()[i]]
        0 <= i < node.leaves().len() ==> alive.contains(node.leaves()[i].id@) || covered(
            path_to(node, node.leaves()[i].id@)->0,
            done,
        )
}

impl PlanView {
    /// Whether a build can ever count `id` settled, given the `alive`
    /// leaves it will still run: already done or closed — an outside
    /// issue by the state its edge recorded — or a tree node each of
    /// whose leaves is alive or already covered by a done or closed step.
    /// An id the plan does not know never settles.
    pub open spec fn can_settle(
        self,
        id: Seq<char>,
        done: Set<Seq<char>>,
        alive: Set<Seq<char>>,
    ) -> bool {
        self.knows(id) && (done.contains(id) || match path_to(self.tree, id) {
            Some(path) => leaves_land(path.last(), done, alive),
            None => self.closed_outside(id),
        })
    }

    /// Whether every blocker of `id` can settle, given the `alive` leaves.
    pub open spec fn unstuck(
        self,
        id: Seq<char>,
        done: Set<Seq<char>>,
        alive: Set<Seq<char>>,
    ) -> bool {
        let blockers = blockers_of(self.blocking, id);
        forall|i: int|
            0 <= i < blockers.len() ==> self.can_settle(#[trigger] blockers[i], done, alive)
    }

    /// Whether `alive` holds every piece of work that is not lost and whose
    /// every blocker can settle, given `alive`.
    pub open spec fn is_closed(
        self,
        done: Set<Seq<char>>,
        lost: Set<Seq<char>>,
        alive: Set<Seq<char>>,
    ) -> bool {
        let work = self.work_of(done);
        forall|i: int|
            #![trigger work[i]]
            0 <= i < work.len() && !lost.contains(work[i].id@) && self.unstuck(
                work[i].id@,
                done,
                alive,
            ) ==> alive.contains(work[i].id@)
    }

    /// The leaves a build can still land: the least set that
    /// [`is_closed`](Self::is_closed) says holds all it must.
    pub open spec fn landing(self, done: Set<Seq<char>>, lost: Set<Seq<char>>) -> Set<Seq<char>> {
        Set::new(
            |id: Seq<char>|
                forall|alive: Set<Seq<char>>| #[trigger]
                    self.is_closed(done, lost, alive) ==> alive.contains(id),
        )
    }

    /// Whether a build can no longer reach `id`: work, not lost itself, and
    /// not among the leaves that can land.
    pub open spec fn is_doomed(
        self,
        id: Seq<char>,
        done: Set<Seq<char>>,
        lost: Set<Seq<char>>,
    ) -> bool {
        named(self.work_of(done), id) && !lost.contains(id) && !self.landing(done, lost).contains(
            id,
        )
    }

    /// The first of the blockers that cannot settle, given the `alive`
    /// leaves.
    pub open spec fn first_stuck(
        self,
        blockers: Seq<Seq<char>>,
        done: Set<Seq<char>>,
        alive: Set<Seq<char>>,
    ) -> Option<Seq<char>>
        decreases blockers.len(),
    {
        if blockers.len() == 0 {
            None
        } else if !self.can_settle(blockers[0], done, alive) {
            Some(blockers[0])
        } else {
            self.first_stuck(blockers.drop_first(), done, alive)
        }
    }

    /// More leaves alive can only let more settle.
    pub(crate) proof fn settling_grows(
        self,
        id: Seq<char>,
        done: Set<Seq<char>>,
        fewer: Set<Seq<char>>,
        more: Set<Seq<char>>,
    )
        requires
            fewer.subset_of(more),
            self.unstuck(id, done, fewer),
        ensures
            self.unstuck(id, done, more),
    {
        let blockers = blockers_of(self.blocking, id);
        assert forall|i: int| 0 <= i < blockers.len() implies self.can_settle(
            #[trigger] blockers[i],
            done,
            more,
        ) by {
            assert(self.can_settle(blockers[i], done, fewer));
        }
    }

    /// What is unstuck given leaves that land lands itself.
    pub(crate) proof fn unstuck_work_lands(
        self,
        i: int,
        done: Set<Seq<char>>,
        lost: Set<Seq<char>>,
        alive: Set<Seq<char>>,
    )
        requires
            0 <= i < self.work_of(done).len(),
            !lost.contains(self.work_of(done)[i].id@),
            self.unstuck(self.work_of(done)[i].id@, done, alive),
            alive.subset_of(self.landing(done, lost)),
        ensures
            self.landing(done, lost).contains(self.work_of(done)[i].id@),
    {
        let id = self.work_of(done)[i].id@;
        assert forall|other: Set<Seq<char>>| #[trigger]
            self.is_closed(done, lost, other) implies other.contains(id) by {
            assert(alive.subset_of(other)) by {
                assert forall|x: Seq<char>| alive.contains(x) implies other.contains(x) by {
                    assert(self.landing(done, lost).contains(x));
                }
            }
            self.settling_grows(id, done, alive, other);
            assert(other.contains(self.work_of(done)[i].id@));
        }
    }
}

/// How many of the issues are not in `alive`.
spec fn missing(issues: Seq<Issue>, alive: Set<Seq<char>>) -> nat
    decreases issues.len(),
{
    if issues.len() == 0 {
        0
    } else {
        missing(issues.drop_last(), alive) + (if alive.contains(issues.last().id@) {
            0nat
        } else {
            1nat
        })
    }
}

proof fn missing_shrinks(issues: Seq<Issue>, fewer: Set<Seq<char>>, more: Set<Seq<char>>)
    requires
        fewer.subset_of(more),
    ensures
        missing(issues, more) <= missing(issues, fewer),
        forall|i: int|
            0 <= i < issues.len() && !fewer.contains((#[trigger] issues[i]).id@) && more.contains(
                issues[i].id@,
            ) ==> missing(issues, more) < missing(issues, fewer),
    decreases issues.len(),
{
    if issues.len() > 0 {
        let shorter = issues.drop_last();
        missing_shrinks(shorter, fewer, more);
        assert forall|i: int|
            0 <= i < issues.len() && !fewer.contains((#[trigger] issues[i]).id@) && more.contains(
                issues[i].id@,
            ) implies missing(issues, more) < missing(issues, fewer) by {
            if i < shorter.len() {
                assert(shorter[i] == issues[i]);
            }
        }
    }
}

/// The names of a row of issues.
pub open spec fn issue_names(issues: Seq<Issue>) -> Seq<Seq<char>> {
    issues.map_values(|issue: Issue| issue.id@)
}

impl PlanView {
    /// Whether the id is one of the tree's or one of those recorded outside
    /// it.
    pub open spec fn knows(self, id: Seq<char>) -> bool {
        named(self.tree.nodes(), id) || named(self.outside, id)
    }

    /// The edges with an end that the plan does not know, in order.
    pub open spec fn dangling(self) -> Seq<Blocking> {
        self.blocking.filter(
            |edge: Blocking| !self.knows(edge.issue@) || !self.knows(edge.blocker@),
        )
    }

    /// Everything wrong with the plan's shape.
    pub open spec fn problems_of(self) -> Seq<ProblemView> {
        self.dangling().map_values(
            |edge: Blocking| ProblemView::Dangling(edge.issue@, edge.blocker@),
        ) + self.cycles_of().map_values(|ids: Seq<Seq<char>>| ProblemView::Cycle(ids)) + (
        if subtree_settled(self.tree, Set::empty()) {
            seq![ProblemView::NoWork]
        } else {
            Seq::empty()
        })
    }
}

/// Whether every id on the path waits on the next.
pub open spec fn linked(blocking: Seq<Blocking>, path: Seq<Seq<char>>) -> bool {
    forall|i: int|
        0 <= i < path.len() - 1 ==> blockers_of(blocking, #[trigger] path[i]).contains(path[i + 1])
}

/// Whether `ids` is a loop of the blocked-by edges: each id waits on the
/// next, the last is the first, and no other id comes twice.
pub open spec fn is_cycle(blocking: Seq<Blocking>, ids: Seq<Seq<char>>) -> bool {
    &&& ids.len() >= 2
    &&& ids.first() == ids.last()
    &&& linked(blocking, ids)
    &&& ids.drop_last().no_duplicates()
}

pub(crate) proof fn blockers_come_from_edges(blocking: Seq<Blocking>, id: Seq<char>)
    ensures
        blockers_of(blocking, id).len() > 0 ==> exists|i: int|
            0 <= i < blocking.len() && (#[trigger] blocking[i]).issue@ == id,
    decreases blocking.len(),
{
    if blocking.len() > 0 {
        blockers_come_from_edges(blocking.drop_last(), id);
        if blocking.last().issue@ == id {
            assert(blocking[blocking.len() - 1].issue@ == id);
        } else if blockers_of(blocking, id).len() > 0 {
            let shorter = blocking.drop_last();
            let i = choose|i: int| 0 <= i < shorter.len() && (#[trigger] shorter[i]).issue@ == id;
            assert(blocking[i] == shorter[i]);
        }
    }
}

/// The nodes of a row of trees begin with those of the first.
pub(crate) proof fn forest_nodes_from_the_first(trees: Seq<TreeView<Issue>>)
    requires
        trees.len() > 0,
    ensures
        tree::forest_nodes(trees) == trees[0].nodes() + tree::forest_nodes(
            trees.drop_first(),
        ),
    decreases trees.len(),
{
    if trees.len() == 1 {
        assert(trees.drop_last() =~= Seq::<TreeView<Issue>>::empty());
        assert(trees.drop_first() =~= Seq::<TreeView<Issue>>::empty());
        let none = Seq::<TreeView<Issue>>::empty();
        assert(tree::forest_nodes(none) == Seq::<Issue>::empty());
        assert(trees.last() == trees[0]);
        assert(tree::forest_nodes(trees) =~= trees[0].nodes());
        assert(tree::forest_nodes(trees) =~= trees[0].nodes() + tree::forest_nodes(
            none,
        ));
    } else {
        forest_nodes_from_the_first(trees.drop_last());
        assert(trees.drop_last().drop_first() =~= trees.drop_first().drop_last());
        assert(trees.drop_last()[0] == trees[0]);
        assert(trees.drop_first().last() == trees.last());
        assert(tree::forest_nodes(trees) =~= trees[0].nodes() + tree::forest_nodes(
            trees.drop_first(),
        ));
    }
}

pub(crate) proof fn named_in_two(one: Seq<Issue>, two: Seq<Issue>, id: Seq<char>)
    ensures
        named(one + two, id) == (named(one, id) || named(two, id)),
{
    let both = one + two;
    if named(one, id) {
        let i = choose|i: int| 0 <= i < one.len() && (#[trigger] one[i]).id@ == id;
        assert(both[i] == one[i]);
    }
    if named(two, id) {
        let i = choose|i: int| 0 <= i < two.len() && (#[trigger] two[i]).id@ == id;
        assert(both[one.len() + i] == two[i]);
    }
    if named(both, id) {
        let i = choose|i: int| 0 <= i < both.len() && (#[trigger] both[i]).id@ == id;
        if i < one.len() {
            assert(one[i] == both[i]);
        } else {
            assert(two[i - one.len()] == both[i]);
        }
    }
}

/// A row of trees has a way down to a name just when one of its nodes has it.
pub(crate) proof fn forest_paths_reach(trees: Seq<TreeView<Issue>>, id: Seq<char>)
    ensures
        forest_path(trees, id) is Some == named(tree::forest_nodes(trees), id),
        forest_path(trees, id) matches Some(path) ==> path.len() > 0 && path.last().value.id@ == id,
    decreases trees,
{
    if trees.len() > 0 {
        forest_nodes_from_the_first(trees);
        named_in_two(
            trees[0].nodes(),
            tree::forest_nodes(trees.drop_first()),
            id,
        );
        paths_reach(trees[0], id);
        forest_paths_reach(trees.drop_first(), id);
    }
}

/// A tree has a way down to a name just when one of its nodes has it, and
/// the way ends at such a node.
pub(crate) proof fn paths_reach(tree: TreeView<Issue>, id: Seq<char>)
    ensures
        path_to(tree, id) is Some == named(tree.nodes(), id),
        path_to(tree, id) matches Some(path) ==> path.len() > 0 && path[0] == tree
            && path.last().value.id@ == id,
    decreases tree,
{
    named_in_two(seq![tree.value], tree::forest_nodes(tree.children), id);
    assert(named(seq![tree.value], id) == (tree.value.id@ == id)) by {
        assert(seq![tree.value][0] == tree.value);
    }
    forest_paths_reach(tree.children, id);
    if tree.value.id@ != id {
        if let Some(path) = forest_path(tree.children, id) {
            assert((seq![tree] + path).last() == path.last());
        }
    }
}

pub(crate) proof fn forest_leaves_are_nodes(trees: Seq<TreeView<Issue>>, i: int)
    requires
        0 <= i < tree::forest_leaves(trees).len(),
    ensures
        named(
            tree::forest_nodes(trees),
            tree::forest_leaves(trees)[i].id@,
        ),
    decreases trees,
{
    let id = tree::forest_leaves(trees)[i].id@;
    let first = tree::forest_leaves(trees.drop_last());
    named_in_two(
        tree::forest_nodes(trees.drop_last()),
        trees.last().nodes(),
        id,
    );
    if i < first.len() {
        forest_leaves_are_nodes(trees.drop_last(), i);
    } else {
        leaves_are_nodes(trees.last(), i - first.len());
    }
}

/// The name of a leaf is the name of one of the tree's nodes.
pub(crate) proof fn leaves_are_nodes(tree: TreeView<Issue>, i: int)
    requires
        0 <= i < tree.leaves().len(),
    ensures
        named(tree.nodes(), tree.leaves()[i].id@),
    decreases tree,
{
    let id = tree.leaves()[i].id@;
    named_in_two(seq![tree.value], tree::forest_nodes(tree.children), id);
    if tree.children.len() == 0 {
        assert(seq![tree.value][0].id@ == id);
    } else {
        forest_leaves_are_nodes(tree.children, i);
    }
}

/// There is a way down to every leaf of a tree.
pub(crate) proof fn leaves_are_reached(tree: TreeView<Issue>, i: int)
    requires
        0 <= i < tree.leaves().len(),
    ensures
        path_to(tree, tree.leaves()[i].id@) is Some,
{
    leaves_are_nodes(tree, i);
    paths_reach(tree, tree.leaves()[i].id@);
}

/// The nodes from the root down to the first node named `id`, if there is
/// one.
pub fn find_path<'a>(tree: &'a Tree<Issue>, id: &IssueId) -> (r: Option<Vec<&'a Tree<Issue>>>)
    ensures
        match r {
            Some(path) => path_to(tree@, id@) == Some(tree::shapes(path@)),
            None => path_to(tree@, id@) is None,
        },
    decreases tree,
{
    if tree.value.id.is(id) {
        let mut path: Vec<&Tree<Issue>> = Vec::new();
        path.push(tree);
        assert(tree::shapes(path@) =~= seq![tree@]);
        return Some(path);
    }
    let ghost beneath = tree@.children;
    let mut i: usize = 0;
    proof {
        tree::forest_views(tree.children@);
        assert(beneath.skip(0) =~= beneath);
    }
    while i < tree.children.len()
        invariant
            i <= tree.children@.len(),
            tree.value.id@ != id@,
            beneath == tree@.children,
            beneath.len() == tree.children@.len(),
            forall|k: int| 0 <= k < beneath.len() ==> #[trigger] beneath[k] == tree.children@[k]@,
            forest_path(beneath, id@) == forest_path(beneath.skip(i as int), id@),
        decreases tree.children@.len() - i,
    {
        assert(beneath.skip(i as int)[0] == beneath[i as int]);
        assert(beneath.skip(i as int).drop_first() =~= beneath.skip(i + 1));
        match find_path(&tree.children[i], id) {
            Some(mut path) => {
                let ghost below = path@;
                path.insert(0, tree);
                assert(tree::shapes(path@) =~= seq![tree@] + tree::shapes(below));
                return Some(path);
            },
            None => {},
        }
        i += 1;
    }
    None
}

/// Whether a chain of nodes passes through an issue that is done or closed.
fn is_covered(path: &Vec<&Tree<Issue>>, done: &IdSet) -> (r: bool)
    ensures
        r == covered(tree::shapes(path@), done@),
{
    let ghost chain = tree::shapes(path@);
    let mut i: usize = 0;
    while i < path.len()
        invariant
            i <= path@.len(),
            chain == tree::shapes(path@),
            forall|k: int| 0 <= k < i ==> !finished((#[trigger] chain[k]).value, done@),
        decreases path@.len() - i,
    {
        assert(chain[i as int] == path@[i as int]@);
        if done.contains(&path[i].value.id) || path[i].value.closed {
            return true;
        }
        i += 1;
    }
    false
}

/// Whether no node of the chain is settled.
fn is_open(path: &Vec<&Tree<Issue>>, done: &IdSet) -> (r: bool)
    ensures
        r == open_all_along(tree::shapes(path@), done@),
{
    let ghost chain = tree::shapes(path@);
    let mut i: usize = 0;
    while i < path.len()
        invariant
            i <= path@.len(),
            chain == tree::shapes(path@),
            forall|k: int| 0 <= k < i ==> !subtree_settled(#[trigger] chain[k], done@),
        decreases path@.len() - i,
    {
        assert(chain[i as int] == path@[i as int]@);
        if settled(path[i], done) {
            return false;
        }
        i += 1;
    }
    true
}

/// [`Plan::settled`], said of a subtree: every chain from this node down
/// to one of its leaves passes through an issue that is done or closed.
pub fn settled(node: &Tree<Issue>, done: &IdSet) -> (r: bool)
    ensures
        r == subtree_settled(node@, done@),
{
    let leaves = node.leaves();
    let mut i: usize = 0;
    while i < leaves.len()
        invariant
            i <= leaves@.len(),
            tree::reached(leaves@) == node@.leaves(),
            forall|k: int|
                0 <= k < i ==> covered(
                    path_to(node@, (#[trigger] node@.leaves()[k]).id@)->0,
                    done@,
                ),
        decreases leaves@.len() - i,
    {
        proof {
            assert(tree::reached(leaves@)[i as int] == *leaves@[i as int]);
            leaves_are_reached(node@, i as int);
        }
        match find_path(node, &leaves[i].id) {
            Some(path) => {
                if !is_covered(&path, done) {
                    return false;
                }
            },
            None => {},
        }
        i += 1;
    }
    true
}

impl Plan {
    /// The one place containment is interpreted: an issue is settled when
    /// it is in the done set, or closed in the tracker, or a container
    /// whose every child is settled. An id the plan does not know is never
    /// settled — and [`problems`](Self::problems) names the edge that
    /// asked.
    pub fn settled(&self, id: &IssueId, done: &IdSet) -> (r: bool)
        ensures
            r == self@.is_settled(id@, done@),
    {
        proof {
            paths_reach(self.tree@, id@);
        }
        if !self.is_known(id) {
            return false;
        }
        if done.contains(id) {
            return true;
        }
        match find_path(&self.tree, id) {
            Some(path) => settled(path[path.len() - 1], done),
            None => self.recorded_closed(id),
        }
    }

    /// Whether an issue outside the tree is recorded as closed.
    fn recorded_closed(&self, id: &IssueId) -> (r: bool)
        ensures
            r == self@.closed_outside(id@),
    {
        let mut i: usize = 0;
        while i < self.outside.len()
            invariant
                i <= self.outside@.len(),
                forall|k: int|
                    0 <= k < i ==> !((#[trigger] self.outside@[k]).id@ == id@
                        && self.outside@[k].closed),
            decreases self.outside@.len() - i,
        {
            if self.outside[i].id.is(id) && self.outside[i].closed {
                assert(self@.outside[i as int].id@ == id@);
                return true;
            }
            i += 1;
        }
        false
    }

    /// The plan's work: the open leaves under no settled ancestor —
    /// everything a build could run, now or later. An abandoned subtree
    /// needs no rule of its own; it is the ancestor clause.
    pub fn work(&self, done: &IdSet) -> (r: Vec<&Issue>)
        ensures
            tree::reached(r@) == self@.work_of(done@),
    {
        let leaves = self.tree.leaves();
        let mut r: Vec<&Issue> = Vec::new();
        let mut i: usize = 0;
        let ghost wanted = |leaf: Issue| self@.is_work(leaf, done@);
        let ghost all = self.tree@.leaves();
        proof {
            reveal(Seq::filter);
            assert(tree::reached(r@) =~= all.take(0).filter(wanted));
        }
        while i < leaves.len()
            invariant
                i <= leaves@.len(),
                all == self.tree@.leaves(),
                tree::reached(leaves@) == all,
                wanted == (|leaf: Issue| self@.is_work(leaf, done@)),
                tree::reached(r@) == all.take(i as int).filter(wanted),
            decreases leaves@.len() - i,
        {
            let leaf = leaves[i];
            proof {
                assert(tree::reached(leaves@)[i as int] == *leaf);
                leaves_are_reached(self.tree@, i as int);
            }
            let open = match find_path(&self.tree, &leaf.id) {
                Some(path) => is_open(&path, done),
                None => false,
            };
            let ghost shorter = r@;
            if open {
                r.push(leaf);
                assert(tree::reached(r@) =~= tree::reached(shorter).push(*leaf));
            }
            proof {
                reveal(Seq::filter);
                let longer = all.take(i + 1);
                assert(longer.drop_last() =~= all.take(i as int));
                assert(longer.last() == *leaf);
            }
            i += 1;
        }
        assert(all.take(all.len() as int) =~= all);
        r
    }

    /// The names of those that block `id`, in the order of the edges.
    pub fn blockers(&self, id: &IssueId) -> (r: Vec<&IssueId>)
        ensures
            reached_names(r@) == blockers_of(self.blocking@, id@),
    {
        let mut r: Vec<&IssueId> = Vec::new();
        let mut i: usize = 0;
        assert(reached_names(r@) =~= blockers_of(self.blocking@.take(0), id@));
        while i < self.blocking.len()
            invariant
                i <= self.blocking@.len(),
                reached_names(r@) == blockers_of(self.blocking@.take(i as int), id@),
            decreases self.blocking@.len() - i,
        {
            let ghost shorter = r@;
            if self.blocking[i].issue.is(id) {
                r.push(&self.blocking[i].blocker);
                assert(reached_names(r@) =~= reached_names(shorter).push(
                    self.blocking@[i as int].blocker@,
                ));
            }
            proof {
                let longer = self.blocking@.take(i + 1);
                assert(longer.drop_last() =~= self.blocking@.take(i as int));
                assert(longer.last() == self.blocking@[i as int]);
            }
            i += 1;
        }
        assert(self.blocking@.take(self.blocking@.len() as int) =~= self.blocking@);
        r
    }

    /// The leaves ready to start: the [`work`](Self::work), kept where
    /// [`settled`](Self::settled) is true for every blocker — the same
    /// predicate applied three ways.
    pub fn ready(&self, done: &IdSet) -> (r: Vec<&Issue>)
        ensures
            tree::reached(r@) == self@.ready_of(done@),
    {
        let work = self.work(done);
        let mut r: Vec<&Issue> = Vec::new();
        let mut i: usize = 0;
        let ghost wanted = |leaf: Issue| self@.is_released(leaf.id@, done@);
        let ghost all = self@.work_of(done@);
        proof {
            reveal(Seq::filter);
            assert(tree::reached(r@) =~= all.take(0).filter(wanted));
        }
        while i < work.len()
            invariant
                i <= work@.len(),
                all == self@.work_of(done@),
                tree::reached(work@) == all,
                wanted == (|leaf: Issue| self@.is_released(leaf.id@, done@)),
                tree::reached(r@) == all.take(i as int).filter(wanted),
            decreases work@.len() - i,
        {
            let leaf = work[i];
            let blockers = self.blockers(&leaf.id);
            let mut released = true;
            let mut k: usize = 0;
            while k < blockers.len()
                invariant
                    k <= blockers@.len(),
                    reached_names(blockers@) == blockers_of(self.blocking@, leaf.id@),
                    released == forall|m: int|
                        0 <= m < k ==> self@.is_settled(
                            #[trigger] blockers_of(self.blocking@, leaf.id@)[m],
                            done@,
                        ),
                decreases blockers@.len() - k,
            {
                assert(reached_names(blockers@)[k as int] == blockers@[k as int]@);
                if !self.settled(blockers[k], done) {
                    released = false;
                }
                k += 1;
            }
            let ghost shorter = r@;
            if released {
                r.push(leaf);
                assert(tree::reached(r@) =~= tree::reached(shorter).push(*leaf));
            }
            proof {
                reveal(Seq::filter);
                let longer = all.take(i + 1);
                assert(tree::reached(work@)[i as int] == *leaf);
                assert(longer.drop_last() =~= all.take(i as int));
                assert(longer.last() == *leaf);
            }
            i += 1;
        }
        assert(all.take(all.len() as int) =~= all);
        r
    }
}

impl Plan {
    /// Whether a build can ever count `id` settled, given the `alive`
    /// leaves it will still run. An id the plan does not know never
    /// settles, which is also what [`problems`](Self::problems) says of its
    /// edge.
    fn settles(&self, id: &IssueId, done: &IdSet, alive: &IdSet) -> (r: bool)
        ensures
            r == self@.can_settle(id@, done@, alive@),
    {
        proof {
            paths_reach(self.tree@, id@);
        }
        if !self.is_known(id) {
            return false;
        }
        if done.contains(id) {
            return true;
        }
        match find_path(&self.tree, id) {
            None => self.recorded_closed(id),
            Some(path) => {
                let node = path[path.len() - 1];
                let leaves = node.leaves();
                let mut i: usize = 0;
                while i < leaves.len()
                    invariant
                        i <= leaves@.len(),
                        tree::reached(leaves@) == node@.leaves(),
                        forall|k: int|
                            #![trigger node@.leaves()[k]]
                            0 <= k < i ==> alive@.contains(node@.leaves()[k].id@) || covered(
                                path_to(node@, node@.leaves()[k].id@)->0,
                                done@,
                            ),
                        self@.knows(id@),
                        !done@.contains(id@),
                        path_to(self.tree@, id@) is Some,
                        path_to(self.tree@, id@)->0.last() == node@,
                    decreases leaves@.len() - i,
                {
                    proof {
                        assert(tree::reached(leaves@)[i as int] == *leaves@[i as int]);
                        leaves_are_reached(node@, i as int);
                    }
                    if !alive.contains(&leaves[i].id) {
                        match find_path(node, &leaves[i].id) {
                            Some(way) => {
                                if !is_covered(&way, done) {
                                    assert(!leaves_land(node@, done@, alive@)) by {
                                        assert(node@.leaves()[i as int] == *leaves@[i as int]);
                                    }
                                    return false;
                                }
                            },
                            None => {},
                        }
                    }
                    i += 1;
                }
                true
            },
        }
    }

    /// The first blocker of `id` that cannot settle, given the `alive`
    /// leaves.
    fn stuck_on(&self, id: &IssueId, done: &IdSet, alive: &IdSet) -> (r: Option<&IssueId>)
        ensures
            r is None == self@.unstuck(id@, done@, alive@),
            match r {
                Some(blocker) => self@.first_stuck(
                    blockers_of(self.blocking@, id@),
                    done@,
                    alive@,
                ) == Some(blocker@),
                None => self@.first_stuck(blockers_of(self.blocking@, id@), done@, alive@) is None,
            },
    {
        let blockers = self.blockers(id);
        let ghost all = blockers_of(self.blocking@, id@);
        let mut i: usize = 0;
        assert(all.skip(0) =~= all);
        while i < blockers.len()
            invariant
                i <= blockers@.len(),
                all == blockers_of(self.blocking@, id@),
                reached_names(blockers@) == all,
                forall|k: int| 0 <= k < i ==> self@.can_settle(#[trigger] all[k], done@, alive@),
                self@.first_stuck(all, done@, alive@) == self@.first_stuck(
                    all.skip(i as int),
                    done@,
                    alive@,
                ),
            decreases blockers@.len() - i,
        {
            assert(reached_names(blockers@)[i as int] == blockers@[i as int]@);
            assert(all.skip(i as int)[0] == all[i as int]);
            if !self.settles(blockers[i], done, alive) {
                assert(!self@.can_settle(blockers_of(self@.blocking, id@)[i as int], done@, alive@));
                return Some(blockers[i]);
            }
            assert(all.skip(i as int).drop_first() =~= all.skip(i + 1));
            i += 1;
        }
        None
    }

    /// The leaves a build can still land, found by growing the set from
    /// nothing until it grows no more.
    fn lands(&self, work: &Vec<&Issue>, done: &IdSet, lost: &IdSet) -> (alive: IdSet)
        requires
            tree::reached(work@) == self@.work_of(done@),
        ensures
            alive.wf(),
            alive@ == self@.landing(done@, lost@),
    {
        let ghost all = self@.work_of(done@);
        let ghost landing = self@.landing(done@, lost@);
        let mut alive = IdSet::new();
        loop
            invariant_except_break
                alive@.subset_of(landing),
            invariant
                all == self@.work_of(done@),
                landing == self@.landing(done@, lost@),
                tree::reached(work@) == all,
                alive.wf(),
            ensures
                alive@ == landing,
            decreases missing(all, alive@),
        {
            let ghost start = alive@;
            let mut grown: Vec<IssueId> = Vec::new();
            let mut i: usize = 0;
            while i < work.len()
                invariant
                    i <= work@.len(),
                    all == self@.work_of(done@),
                    landing == self@.landing(done@, lost@),
                    tree::reached(work@) == all,
                    alive@ == start,
                    start.subset_of(landing),
                    forall|k: int|
                        #![trigger grown@[k]]
                        0 <= k < grown@.len() ==> landing.contains(grown@[k]@) && !start.contains(
                            grown@[k]@,
                        ) && named(all, grown@[k]@),
                    grown@.len() == 0 ==> forall|k: int|
                        #![trigger all[k]]
                        0 <= k < i && !lost@.contains(all[k].id@) && self@.unstuck(
                            all[k].id@,
                            done@,
                            start,
                        ) ==> start.contains(all[k].id@),
                decreases work@.len() - i,
            {
                let leaf = work[i];
                assert(tree::reached(work@)[i as int] == *leaf);
                if !alive.contains(&leaf.id) && !lost.contains(&leaf.id) {
                    if self.stuck_on(&leaf.id, done, &alive).is_none() {
                        proof {
                            self@.unstuck_work_lands(i as int, done@, lost@, start);
                            assert(all[i as int].id@ == leaf.id@);
                        }
                        grown.push(leaf.id.clone());
                    }
                }
                i += 1;
            }
            if grown.len() == 0 {
                proof {
                    assert(self@.is_closed(done@, lost@, alive@));
                    assert(alive@ =~= landing);
                }
                break;
            }
            let mut j: usize = 0;
            while j < grown.len()
                invariant
                    j <= grown@.len(),
                    alive.wf(),
                    start.subset_of(alive@),
                    alive@.subset_of(landing),
                    start.subset_of(landing),
                    forall|k: int|
                        #![trigger grown@[k]]
                        0 <= k < grown@.len() ==> landing.contains(grown@[k]@) && !start.contains(
                            grown@[k]@,
                        ) && named(all, grown@[k]@),
                    forall|k: int| 0 <= k < j ==> alive@.contains((#[trigger] grown@[k])@),
                decreases grown@.len() - j,
            {
                alive.insert(grown[j].clone());
                j += 1;
            }
            proof {
                missing_shrinks(all, start, alive@);
                let first = grown@[0]@;
                let k = choose|k: int| 0 <= k < all.len() && (#[trigger] all[k]).id@ == first;
                assert(!start.contains(all[k].id@) && alive@.contains(all[k].id@));
            }
        }
        alive
    }

    /// The work a build can no longer reach: `done` is what has landed,
    /// `lost` the leaves that will never settle — failed issues, chiefly
    /// — and the answer maps each open leaf that can never become ready
    /// to the first blocker it is stuck on. A blocker never settles when
    /// it is lost, a container holding a lost or stuck leaf, an open
    /// issue outside the tree — within one build, permanent, since
    /// nothing here closes outside issues — an id the plan does not
    /// know, or a companion on a blocked-by cycle. Computed as a growth
    /// fixpoint over the leaves that still can land, so mutual blocking
    /// dooms both sides rather than propping them up.
    pub fn doomed(&self, done: &IdSet, lost: &IdSet) -> (r: IdMap<IssueId>)
        ensures
            r.wf(),
            forall|id: Seq<char>| #[trigger]
                r@.dom().contains(id) == self@.is_doomed(id, done@, lost@),
            forall|id: Seq<char>| #[trigger]
                r@.dom().contains(id) ==> self@.first_stuck(
                    blockers_of(self.blocking@, id),
                    done@,
                    self@.landing(done@, lost@),
                ) == Some(r@[id]@),
    {
        let work = self.work(done);
        let alive = self.lands(&work, done, lost);
        let ghost all = self@.work_of(done@);
        let ghost landing = self@.landing(done@, lost@);
        let mut r: IdMap<IssueId> = IdMap::new();
        let mut i: usize = 0;
        while i < work.len()
            invariant
                i <= work@.len(),
                all == self@.work_of(done@),
                landing == self@.landing(done@, lost@),
                tree::reached(work@) == all,
                alive@ == landing,
                r.wf(),
                forall|id: Seq<char>| #[trigger]
                    r@.dom().contains(id) == (named(all.take(i as int), id) && !lost@.contains(id)
                        && !landing.contains(id)),
                forall|id: Seq<char>| #[trigger]
                    r@.dom().contains(id) ==> self@.first_stuck(
                        blockers_of(self.blocking@, id),
                        done@,
                        landing,
                    ) == Some(r@[id]@),
            decreases work@.len() - i,
        {
            let leaf = work[i];
            proof {
                assert(tree::reached(work@)[i as int] == *leaf);
                assert(all.take(i + 1) =~= all.take(i as int) + seq![*leaf]);
                assert forall|id: Seq<char>| #[trigger]
                    named(all.take(i + 1), id) == (named(all.take(i as int), id) || id
                        == leaf.id@) by {
                    named_in_two(all.take(i as int), seq![*leaf], id);
                    assert(named(seq![*leaf], id) == (leaf.id@ == id)) by {
                        assert(seq![*leaf][0] == *leaf);
                    }
                }
            }
            if !lost.contains(&leaf.id) && !alive.contains(&leaf.id) {
                match self.stuck_on(&leaf.id, done, &alive) {
                    Some(blocker) => {
                        r.insert(leaf.id.clone(), blocker.clone());
                    },
                    None => {
                        proof {
                            self@.unstuck_work_lands(i as int, done@, lost@, landing);
                        }
                    },
                }
            }
            i += 1;
        }
        assert(all.take(all.len() as int) =~= all);
        r
    }
}

impl Plan {
    /// Whether the id is one of the tree's or one of those recorded outside
    /// it.
    fn is_known(&self, id: &IssueId) -> (r: bool)
        ensures
            r == self@.knows(id@),
    {
        proof {
            paths_reach(self.tree@, id@);
        }
        if find_path(&self.tree, id).is_some() {
            return true;
        }
        let mut i: usize = 0;
        while i < self.outside.len()
            invariant
                i <= self.outside@.len(),
                forall|k: int| 0 <= k < i ==> (#[trigger] self.outside@[k]).id@ != id@,
            decreases self.outside@.len() - i,
        {
            if self.outside[i].id.is(id) {
                return true;
            }
            i += 1;
        }
        false
    }

    /// Everything wrong with the plan's shape: edges pointing at issues in
    /// neither the tree nor the outside set, cycles among the blocked-by
    /// edges, and a plan with no work in it. Terminates on any graph — a
    /// broken plan is precisely when this answer matters.
    pub fn problems(&self) -> (r: Vec<Problem>)
        ensures
            r@.map_values(|problem: Problem| problem@) == self@.problems_of(),
    {
        let ghost seen = |problem: Problem| problem@;
        let ghost dangles = |edge: Blocking|
            !self@.knows(edge.issue@) || !self@.knows(edge.blocker@);
        let ghost as_dangling = |edge: Blocking|
            ProblemView::Dangling(edge.issue@, edge.blocker@);
        let ghost as_cycle = |ids: Seq<Seq<char>>| ProblemView::Cycle(ids);
        let mut r: Vec<Problem> = Vec::new();
        let mut i: usize = 0;
        proof {
            reveal(Seq::filter);
            assert(r@.map_values(seen) =~= self.blocking@.take(0).filter(dangles).map_values(
                as_dangling,
            ));
        }
        while i < self.blocking.len()
            invariant
                i <= self.blocking@.len(),
                seen == (|problem: Problem| problem@),
                dangles == (|edge: Blocking|
                    !self@.knows(edge.issue@) || !self@.knows(edge.blocker@)),
                as_dangling == (|edge: Blocking|
                    ProblemView::Dangling(edge.issue@, edge.blocker@)),
                r@.map_values(seen) == self.blocking@.take(i as int).filter(dangles).map_values(
                    as_dangling,
                ),
            decreases self.blocking@.len() - i,
        {
            let edge = &self.blocking[i];
            let ghost shorter = r@;
            if !self.is_known(&edge.issue) || !self.is_known(&edge.blocker) {
                r.push(Problem::Dangling(edge.clone()));
                assert(r@.map_values(seen) =~= shorter.map_values(seen).push(as_dangling(*edge)));
            }
            proof {
                reveal(Seq::filter);
                let longer = self.blocking@.take(i + 1);
                let fewer = self.blocking@.take(i as int).filter(dangles);
                assert(longer.drop_last() =~= self.blocking@.take(i as int));
                assert(longer.last() == *edge);
                assert(fewer.push(*edge).map_values(as_dangling) =~= fewer.map_values(
                    as_dangling,
                ).push(as_dangling(*edge)));
            }
            i += 1;
        }
        assert(self.blocking@.take(self.blocking@.len() as int) =~= self.blocking@);
        let ghost dangling = r@.map_values(seen);
        assert(dangling =~= self@.dangling().map_values(as_dangling));
        let mut cycles = self.cycles();
        let ghost found = cycles::loops(cycles@);
        let ghost kept = cycles@;
        let total: usize = cycles.len();
        let mut j: usize = 0;
        assert(found.take(0).map_values(as_cycle) =~= Seq::<ProblemView>::empty());
        assert(dangling =~= dangling + found.take(0).map_values(as_cycle));
        assert(kept.skip(0) =~= kept);
        while cycles.len() > 0
            invariant
                j + cycles@.len() == kept.len(),
                cycles@ == kept.skip(j as int),
                found == cycles::loops(kept),
                seen == (|problem: Problem| problem@),
                as_cycle == (|ids: Seq<Seq<char>>| ProblemView::Cycle(ids)),
                r@.map_values(seen) == dangling + found.take(j as int).map_values(as_cycle),
                kept.len() == total,
            decreases cycles@.len(),
        {
            let ghost shorter = r@;
            let cycle = cycles.remove(0);
            let ghost ids = cycle;
            r.push(Problem::Cycle(cycle));
            proof {
                assert(kept.skip(j as int)[0] == kept[j as int]);
                assert(cycles@ =~= kept.skip(j + 1));
                assert(found[j as int] == ids::names(ids@));
                assert(r@.map_values(seen) =~= shorter.map_values(seen).push(
                    ProblemView::Cycle(ids::names(ids@)),
                ));
                assert(found.take(j + 1).map_values(as_cycle) =~= found.take(
                    j as int,
                ).map_values(as_cycle).push(ProblemView::Cycle(ids::names(ids@))));
                assert(r@.map_values(seen) =~= dangling + found.take(j + 1).map_values(as_cycle));
            }
            j += 1;
        }
        assert(found.take(found.len() as int) =~= found);
        let none = IdSet::new();
        let ghost shorter = r@;
        if settled(&self.tree, &none) {
            r.push(Problem::NoWork);
            assert(r@.map_values(seen) =~= shorter.map_values(seen).push(ProblemView::NoWork));
        }
        assert(r@.map_values(seen) =~= self@.problems_of());
        r
    }
}

/// The names a row of references to ids reaches.
pub open spec fn reached_names(ids: Seq<&IssueId>) -> Seq<Seq<char>> {
    ids.map_values(|id: &IssueId| id@)
}

} // verus!
