//! A feature build folds a plan into work: as many as four agents at
//! once, landing through the merge as they finish, until nothing is ready
//! and nothing is running.
//!
//! [`Build`] is the record, and every decision of the build is a function
//! of it: which issue a free slot takes, what a failure dooms, when the
//! build is over. The host runs the agents and tells the record how each
//! came out.
//!
//! Every issue of work ends in a terminal state. A failed issue dooms
//! what depended on it, and work that could never become ready — stuck
//! behind an open issue outside the tree, a dangling edge, a cycle —
//! is skipped before anything runs, each naming the blocker it is
//! stuck on; [`Plan::doomed`] is the judgement, [`Plan::problems`]
//! rides in the record, and the build finishes the rest. The library
//! observes; the agent commits — an agent that exits cleanly but
//! advances nothing, or leaves uncommitted work, has failed by
//! observation alone.
//!
//! Every movement of the record is also spoken: [`Build::set`] is the
//! one writer of the states, and each write is a
//! [`Moved`](Change::Moved) in the host's [`Log`]; the initial states ride
//! in [`Started`](Change::Started), whole.

use crate::feature;
use crate::feature::layout;
use crate::feature::{Issue, IssueId, Plan, PlanView, Problem, ProblemView, RunId, State};
use crate::ids;
use crate::ids::{IdMap, IdSet};
use crate::monitor;
use crate::monitor::{Change, ChangeView, EntryView, Log};
use crate::text;
use crate::tree;
use vstd::prelude::*;

verus! {

/// The most agents a feature build runs at once. A constant, not a
/// setting: a number is honest until there is somewhere for a setting to
/// live.
pub const CONCURRENCY: usize = 4;

/// A budget of [`CONCURRENCY`] agent slots. One per host, so a feature
/// build and a plain build drawing on the same budget never run more
/// than four agents between them.
#[derive(Debug)]
pub struct Budget {
    free: usize,
}

/// A held agent slot, to be [released](Budget::release) to its budget.
#[derive(Debug)]
pub struct Slot {
    held: bool,
}

impl Budget {
    /// How many slots are free.
    pub closed spec fn left(&self) -> nat {
        self.free as nat
    }

    /// A fresh budget of [`CONCURRENCY`] slots.
    pub fn new() -> (r: Self)
        ensures
            r.left() == CONCURRENCY,
    {
        Budget { free: CONCURRENCY }
    }

    /// One slot, held until it is released — or `None` when all are out.
    /// Never waits.
    pub fn claim(&mut self) -> (r: Option<Slot>)
        ensures
            r is Some == (old(self).left() > 0),
            final(self).left() == (if old(self).left() > 0 {
                old(self).left() - 1
            } else {
                0
            }),
    {
        if self.free == 0 {
            return None;
        }
        self.free = self.free - 1;
        Some(Slot { held: true })
    }

    /// A slot comes back.
    pub fn release(&mut self, slot: Slot)
        requires
            old(self).left() < CONCURRENCY,
        ensures
            final(self).left() == old(self).left() + 1,
    {
        self.free = self.free + 1;
    }
}

/// The record of a feature build: the plan and what is wrong with its
/// shape, and one [`State`] per issue of work.
#[derive(Clone, Debug)]
pub struct Build {
    run: RunId,
    plan: Plan,
    /// [`Plan::problems`], taken once at the start: cycles and dangling
    /// edges are named here, and the work they strand is Skipped rather
    /// than silently left Waiting.
    problems: Vec<Problem>,
    /// Written through [`set`](Self::set) and nothing else.
    states: IdMap<State>,
}

/// A [`Build`] over names and sequences.
pub struct BuildView {
    pub run: RunId,
    pub plan: PlanView,
    pub problems: Seq<ProblemView>,
    pub states: Map<Seq<char>, State>,
}

impl View for Build {
    type V = BuildView;

    closed spec fn view(&self) -> BuildView {
        BuildView {
            run: self.run,
            plan: self.plan@,
            problems: self.problems@.map_values(|problem: Problem| problem@),
            states: self.states@,
        }
    }
}

/// The words a skipped issue carries.
pub open spec fn stuck_words(blocker: Seq<char>) -> Seq<char> {
    "waits on "@ + blocker + ", which this build can never settle"@
}

/// Whether a state is Skipped for being stuck on `blocker`.
pub open spec fn is_stuck(state: State, blocker: Seq<char>) -> bool {
    state matches State::Skipped { reason } && reason@ == stuck_words(blocker)
}

/// The issues that will never land.
pub open spec fn lost_ids(states: Map<Seq<char>, State>) -> Set<Seq<char>> {
    Set::new(
        |id: Seq<char>|
            states.dom().contains(id) && (states[id] is Failed || states[id] is Skipped),
    )
}

/// The first blocker that a piece of work is stuck on.
pub open spec fn stuck_on(
    plan: PlanView,
    id: Seq<char>,
    done: Set<Seq<char>>,
    lost: Set<Seq<char>>,
) -> Seq<char> {
    plan.first_stuck(
        feature::blockers_of(plan.blocking, id),
        done,
        plan.landing(done, lost),
    )->0
}

impl BuildView {
    /// Whether a state is written with no end yet.
    pub open spec fn is_underway(self, id: Seq<char>) -> bool {
        self.states.dom().contains(id) && (self.states[id] is Running || self.states[id] is Merging)
    }

    /// Whether an issue is still Waiting.
    pub open spec fn is_waiting(self, id: Seq<char>) -> bool {
        self.states.dom().contains(id) && self.states[id] is Waiting
    }

    /// The issues a free slot could take: ready by the plan's judgement
    /// and still Waiting by this build's.
    pub open spec fn dispatchable(self) -> Seq<Issue> {
        self.plan.ready_of(layout::merged_ids(self.states)).filter(
            |issue: Issue| self.is_waiting(issue.id@),
        )
    }

    /// Whether nothing is ready and nothing is running.
    pub open spec fn is_finished(self) -> bool {
        &&& forall|id: Seq<char>| !(#[trigger] self.is_underway(id))
        &&& self.dispatchable().len() == 0
    }

    /// A record for a plan about to build: every issue of work Waiting,
    /// except what could never become ready, Skipped with the blocker it is
    /// stuck on.
    pub open spec fn is_fresh(self, run: RunId, plan: PlanView) -> bool {
        let none = Set::<Seq<char>>::empty();
        &&& self.run == run
        &&& self.plan == plan
        &&& self.problems == plan.problems_of()
        &&& forall|id: Seq<char>| #[trigger]
            self.states.dom().contains(id) == feature::named(plan.work_of(none), id)
        &&& forall|id: Seq<char>| #[trigger]
            self.states.dom().contains(id) ==> if plan.is_doomed(id, none, none) {
                is_stuck(self.states[id], stuck_on(plan, id, none, none))
            } else {
                self.states[id] is Waiting
            }
    }

    /// The record after one issue moves.
    pub open spec fn moved(self, id: Seq<char>, state: State) -> BuildView {
        BuildView {
            run: self.run,
            plan: self.plan,
            problems: self.problems,
            states: self.states.insert(id, state),
        }
    }

    /// Whether `after` is the record once what its failures doom is
    /// skipped: every issue that was Waiting and is doomed is Skipped with
    /// the blocker it is stuck on, and nothing else has moved.
    pub open spec fn dooms(self, after: BuildView) -> bool {
        let done = layout::merged_ids(self.states);
        let lost = lost_ids(self.states);
        &&& after.run == self.run
        &&& after.plan == self.plan
        &&& after.problems == self.problems
        &&& after.states.dom() == self.states.dom()
        &&& forall|id: Seq<char>| #[trigger]
            self.states.dom().contains(id) ==> if self.is_waiting(id) && self.plan.is_doomed(
                id,
                done,
                lost,
            ) {
                is_stuck(after.states[id], stuck_on(self.plan, id, done, lost))
            } else {
                after.states[id] == self.states[id]
            }
    }
}

/// The changes of a row of entries.
pub open spec fn changes(entries: Seq<EntryView>) -> Seq<ChangeView> {
    entries.map_values(|entry: EntryView| entry.change)
}

/// Whether the log only grew.
pub open spec fn extends(before: Seq<EntryView>, after: Seq<EntryView>) -> bool {
    before.len() <= after.len() && after.take(before.len() as int) == before
}

/// Whether every entry the log grew by was stamped by the clock.
pub open spec fn clocked<C: Fn() -> u64>(
    clock: C,
    before: Seq<EntryView>,
    after: Seq<EntryView>,
) -> bool {
    forall|i: int|
        before.len() <= i < after.len() ==> call_ensures(clock, (), (#[trigger] after[i]).at)
}

/// The moves of the issues `ids` to where `states` has them.
pub open spec fn moves(
    run: RunId,
    ids: Seq<Seq<char>>,
    states: Map<Seq<char>, State>,
) -> Seq<ChangeView> {
    ids.map_values(|id: Seq<char>| ChangeView::Moved { run, issue: id, state: states[id] })
}

/// Whether the log after a write of the record is the log before it and one
/// move for each of `ids`, in that order.
pub open spec fn speaks(
    before: Seq<EntryView>,
    after: Seq<EntryView>,
    run: RunId,
    ids: Seq<Seq<char>>,
    states: Map<Seq<char>, State>,
) -> bool {
    &&& extends(before, after)
    &&& changes(after) == changes(before) + moves(run, ids, states)
}

/// The words a skipped issue carries.
fn stuck(blocker: &IssueId) -> (r: String)
    ensures
        r@ == stuck_words(blocker@),
{
    text::cat3("waits on ", blocker.as_str(), ", which this build can never settle")
}

/// The instructions one issue's agent receives.
pub open spec fn briefed(issue: Issue) -> Seq<char> {
    "Implement issue "@ + issue.id@ + ": "@ + issue.title@
        + "\n\nWrite tests covering the work, and make them pass."@
}

/// The instructions one issue's agent receives — the order's prompt,
/// which the workspace wraps in the standing preamble before it reaches the
/// agent: implement the issue, write tests covering the work, and make them
/// pass.
pub fn brief(issue: &Issue) -> (r: String)
    ensures
        r@ == briefed(*issue),
{
    text::cat5(
        "Implement issue ",
        issue.id.as_str(),
        ": ",
        issue.title.as_str(),
        "\n\nWrite tests covering the work, and make them pass.",
    )
}

/// The issues that will never land.
fn lost(states: &IdMap<State>) -> (r: IdSet)
    requires
        states.wf(),
    ensures
        r.wf(),
        r@ == lost_ids(states@),
{
    let mut r = IdSet::new();
    let ghost listed = states.listed();
    let mut i: usize = 0;
    proof {
        states.listing();
    }
    while i < states.len()
        invariant
            i <= listed.len(),
            listed == states.listed(),
            states.wf(),
            r.wf(),
            forall|id: Seq<char>| #[trigger]
                r@.contains(id) == exists|k: int|
                    0 <= k < i && #[trigger] listed[k] == id && (states@[id] is Failed
                        || states@[id] is Skipped),
        decreases listed.len() - i,
    {
        let (id, state) = states.entry(i);
        let ghost before = r@;
        let ends = match state {
            State::Failed { .. } => true,
            State::Skipped { .. } => true,
            _ => false,
        };
        if ends {
            r.insert(id.clone());
        }
        proof {
            assert(listed[i as int] == id@);
            assert forall|x: Seq<char>| #[trigger]
                r@.contains(x) == exists|k: int|
                    0 <= k < i + 1 && #[trigger] listed[k] == x && (states@[x] is Failed
                        || states@[x] is Skipped) by {
                if before.contains(x) {
                    let k = choose|k: int|
                        0 <= k < i && #[trigger] listed[k] == x && (states@[x] is Failed
                            || states@[x] is Skipped);
                    assert(0 <= k < i + 1 && listed[k] == x);
                }
                if exists|k: int|
                    0 <= k < i + 1 && #[trigger] listed[k] == x && (states@[x] is Failed
                        || states@[x] is Skipped) {
                    let k = choose|k: int|
                        0 <= k < i + 1 && #[trigger] listed[k] == x && (states@[x] is Failed
                            || states@[x] is Skipped);
                    if k < i {
                        assert(before.contains(x));
                    }
                }
            }
        }
        i += 1;
    }
    proof {
        assert forall|x: Seq<char>| r@.contains(x) == lost_ids(states@).contains(x) by {
            if lost_ids(states@).contains(x) {
                assert(listed.contains(x));
                let k = choose|k: int| 0 <= k < listed.len() && listed[k] == x;
                assert(listed[k] == x);
            }
            if r@.contains(x) {
                let k = choose|k: int|
                    0 <= k < i && #[trigger] listed[k] == x && (states@[x] is Failed
                        || states@[x] is Skipped);
                assert(listed.contains(x));
            }
        }
        assert(r@ =~= lost_ids(states@));
    }
    r
}

/// What a free slot does next.
#[derive(Clone, Copy, Debug, Eq, PartialEq, Structural)]
pub enum Step {
    /// The build is over.
    Finish,
    /// Some issue is ready and Waiting: a slot would be used.
    Dispatch,
    /// Nothing to dispatch until a worker reports.
    Wait,
}

impl Build {
    /// Whether the states are in order.
    pub closed spec fn wf(&self) -> bool {
        self.states.wf()
    }

    /// A record for a plan about to build: one state per issue of work
    /// — the open leaves with no settled ancestor — Waiting, except
    /// what could never become ready, which is Skipped at once with the
    /// blocker it is stuck on. What is already settled, or abandoned
    /// under a closed container, is not work and gets no state. Nothing
    /// is recorded here: the initial map rides in Started, whole.
    pub fn new(run: RunId, plan: Plan) -> (r: Self)
        ensures
            r.wf(),
            r@.is_fresh(run, plan@),
    {
        let none = IdSet::new();
        let problems = plan.problems();
        let ghost empty = Set::<Seq<char>>::empty();
        let ghost all = plan@.work_of(empty);
        let mut states: IdMap<State> = IdMap::new();
        let work = plan.work(&none);
        let mut i: usize = 0;
        while i < work.len()
            invariant
                i <= work@.len(),
                tree::reached(work@) == all,
                states.wf(),
                forall|id: Seq<char>| #[trigger]
                    states@.dom().contains(id) == feature::named(all.take(i as int), id),
                forall|id: Seq<char>| #[trigger]
                    states@.dom().contains(id) ==> states@[id] is Waiting,
            decreases work@.len() - i,
        {
            let leaf = work[i];
            proof {
                assert(tree::reached(work@)[i as int] == *leaf);
                assert(all.take(i + 1) =~= all.take(i as int) + seq![*leaf]);
                assert forall|id: Seq<char>| #[trigger]
                    feature::named(all.take(i + 1), id) == (feature::named(
                        all.take(i as int),
                        id,
                    ) || id == leaf.id@) by {
                    feature::named_in_two(all.take(i as int), seq![*leaf], id);
                    assert(feature::named(seq![*leaf], id) == (leaf.id@ == id)) by {
                        assert(seq![*leaf][0] == *leaf);
                    }
                }
            }
            states.insert(leaf.id.clone(), State::Waiting);
            i += 1;
        }
        assert(all.take(all.len() as int) =~= all);
        let doomed = plan.doomed(&none, &none);
        let ghost listed = doomed.listed();
        let mut j: usize = 0;
        proof {
            doomed.listing();
        }
        while j < doomed.len()
            invariant
                j <= listed.len(),
                listed == doomed.listed(),
                doomed.wf(),
                empty == Set::<Seq<char>>::empty(),
                all == plan@.work_of(empty),
                forall|id: Seq<char>| #[trigger]
                    doomed@.dom().contains(id) == plan@.is_doomed(id, empty, empty),
                forall|id: Seq<char>| #[trigger]
                    doomed@.dom().contains(id) ==> plan@.first_stuck(
                        feature::blockers_of(plan@.blocking, id),
                        empty,
                        plan@.landing(empty, empty),
                    ) == Some(doomed@[id]@),
                forall|id: Seq<char>| #[trigger]
                    doomed@.dom().contains(id) == listed.contains(id),
                states.wf(),
                forall|id: Seq<char>| #[trigger]
                    states@.dom().contains(id) == feature::named(all, id),
                forall|id: Seq<char>| #[trigger]
                    states@.dom().contains(id) ==> if listed.take(j as int).contains(id) {
                        is_stuck(states@[id], stuck_on(plan@, id, empty, empty))
                    } else {
                        states@[id] is Waiting
                    },
            decreases listed.len() - j,
        {
            let (leaf, blocker) = doomed.entry(j);
            let ghost before = states@;
            states.insert(leaf.clone(), State::Skipped { reason: stuck(blocker) });
            proof {
                assert(plan@.is_doomed(leaf@, empty, empty));
                let some = listed.take(j as int);
                let more = listed.take(j + 1);
                assert forall|x: Seq<char>| #[trigger] more.contains(x) == (some.contains(x) || x
                    == leaf@) by {
                    assert(more[j as int] == leaf@);
                    if some.contains(x) {
                        let q = choose|q: int| 0 <= q < some.len() && some[q] == x;
                        assert(more[q] == x);
                    }
                    if more.contains(x) && x != leaf@ {
                        let q = choose|q: int| 0 <= q < more.len() && more[q] == x;
                        assert(some[q] == x);
                    }
                }
                assert forall|x: Seq<char>| #[trigger]
                    states@.dom().contains(x) implies if more.contains(x) {
                    is_stuck(states@[x], stuck_on(plan@, x, empty, empty))
                } else {
                    states@[x] is Waiting
                } by {
                    assert(more.contains(x) == (some.contains(x) || x == leaf@));
                    if x != leaf@ {
                        assert(before.dom().contains(x));
                        assert(before[x] == states@[x]);
                    }
                }
            }
            j += 1;
        }
        proof {
            assert(listed.take(listed.len() as int) =~= listed);
            assert forall|id: Seq<char>| #[trigger]
                states@.dom().contains(id) implies if plan@.is_doomed(id, empty, empty) {
                is_stuck(states@[id], stuck_on(plan@, id, empty, empty))
            } else {
                states@[id] is Waiting
            } by {
                assert(doomed@.dom().contains(id) == listed.contains(id));
            }
        }
        Build { run, plan, problems, states }
    }

    /// The run the build goes by.
    pub fn run(&self) -> (r: RunId)
        ensures
            r == self@.run,
    {
        self.run
    }

    /// The plan the build runs.
    pub fn plan(&self) -> (r: &Plan)
        ensures
            r@ == self@.plan,
    {
        &self.plan
    }

    /// What is wrong with the plan's shape.
    pub fn problems(&self) -> (r: &Vec<Problem>)
        ensures
            r@.map_values(|problem: Problem| problem@) == self@.problems,
    {
        &self.problems
    }

    /// Every issue of work and where it stands.
    pub fn states(&self) -> (r: &IdMap<State>)
        requires
            self.wf(),
        ensures
            r.wf(),
            r@ == self@.states,
    {
        &self.states
    }

    /// The one writer: `issue` moves to `state`, in the record and in
    /// the log, under whatever lock the caller holds on the record — so
    /// a run's moves are recorded in the order they were made.
    pub fn set<C: Fn() -> u64>(&mut self, log: &mut Log<C>, issue: &IssueId, state: State)
        requires
            old(self).wf(),
            old(log).wf(),
            call_requires(old(log).stamped_by(), ()),
        ensures
            final(self).wf(),
            final(log).wf(),
            final(log).stamped_by() == old(log).stamped_by(),
            clocked(old(log).stamped_by(), old(log)@, final(log)@),
            final(self)@ == old(self)@.moved(issue@, state),
            speaks(
                old(log)@,
                final(log)@,
                old(self)@.run,
                seq![issue@],
                final(self)@.states,
            ),
    {
        let copy = state.clone();
        self.states.insert(issue.clone(), state);
        let run = self.run;
        let ghost before = log@;
        log.record(Change::Moved { run, issue: issue.clone(), state: copy });
        proof {
            assert(log@.take(before.len() as int) =~= before);
            assert(changes(log@) =~= changes(before) + moves(
                run,
                seq![issue@],
                self@.states,
            ));
        }
    }

    /// What Started says of this record: the plan, its problems in
    /// words, the initial states, and the check in force.
    pub fn started(&self, check: Option<String>) -> (r: Change)
        requires
            self.wf(),
        ensures
            r.wf(),
            r@ == (ChangeView::Started {
                run: self@.run,
                plan: self@.plan,
                problems: self@.problems.map_values(|problem: ProblemView| problem.words()),
                states: self@.states,
                check: text::optional(check),
            }),
    {
        let ghost words = |problem: ProblemView| problem.words();
        let ghost named = self@.problems;
        let mut problems: Vec<String> = Vec::new();
        let mut i: usize = 0;
        while i < self.problems.len()
            invariant
                i <= self.problems@.len(),
                named == self@.problems,
                words == (|problem: ProblemView| problem.words()),
                text::views(problems@) == named.take(i as int).map_values(words),
            decreases self.problems@.len() - i,
        {
            let ghost shorter = problems@;
            problems.push(self.problems[i].to_string());
            proof {
                assert(named[i as int] == self.problems@[i as int]@);
                assert(text::views(problems@) =~= text::views(shorter).push(
                    named[i as int].words(),
                ));
                assert(named.take(i + 1).map_values(words) =~= named.take(i as int).map_values(
                    words,
                ).push(named[i as int].words()));
            }
            i += 1;
        }
        assert(named.take(named.len() as int) =~= named);
        let states = self.states.clone();
        proof {
            monitor::states_copy(self.states, states);
        }
        Change::Started { run: self.run, plan: self.plan.clone(), problems, states, check }
    }

    /// The done set fed to [`Plan::ready`]: the leaves this build has
    /// merged. Issues the tracker already closed are settled by the
    /// plan itself.
    fn merged(&self) -> (r: IdSet)
        requires
            self.wf(),
        ensures
            r.wf(),
            r@ == layout::merged_ids(self@.states),
    {
        layout::merged(&self.states)
    }

    /// The issues a free slot could take: ready by the plan's judgement
    /// and still Waiting by this build's.
    pub fn dispatchable(&self) -> (r: Vec<Issue>)
        requires
            self.wf(),
        ensures
            r@ == self@.dispatchable(),
    {
        let done = self.merged();
        let ready = self.plan.ready(&done);
        let ghost all = self@.plan.ready_of(done@);
        let ghost wanted = |issue: Issue| self@.is_waiting(issue.id@);
        let mut r: Vec<Issue> = Vec::new();
        let mut i: usize = 0;
        proof {
            reveal(Seq::filter);
            assert(r@ =~= all.take(0).filter(wanted));
        }
        while i < ready.len()
            invariant
                i <= ready@.len(),
                self.wf(),
                tree::reached(ready@) == all,
                wanted == (|issue: Issue| self@.is_waiting(issue.id@)),
                r@ == all.take(i as int).filter(wanted),
            decreases ready@.len() - i,
        {
            let issue = ready[i];
            let waiting = match self.states.get(&issue.id) {
                Some(State::Waiting) => true,
                _ => false,
            };
            if waiting {
                r.push(issue.clone());
            }
            proof {
                reveal(Seq::filter);
                assert(tree::reached(ready@)[i as int] == *issue);
                assert(all.take(i + 1).drop_last() =~= all.take(i as int));
                assert(all.take(i + 1).last() == *issue);
            }
            i += 1;
        }
        assert(all.take(all.len() as int) =~= all);
        r
    }

    /// The build is over when nothing is ready and nothing is running —
    /// merging included, because a queued merge can still unblock work.
    /// Every state is terminal by then: what could not end any other
    /// way was Skipped when its fate was sealed.
    pub fn finished(&self) -> (r: bool)
        requires
            self.wf(),
        ensures
            r == self@.is_finished(),
    {
        let ghost listed = self.states.listed();
        let mut i: usize = 0;
        proof {
            self.states.listing();
        }
        while i < self.states.len()
            invariant
                self.wf(),
                listed == self.states.listed(),
                i <= listed.len(),
                forall|k: int| 0 <= k < i ==> !self@.is_underway(#[trigger] listed[k]),
            decreases listed.len() - i,
        {
            let (id, state) = self.states.entry(i);
            let underway = match state {
                State::Running => true,
                State::Merging => true,
                _ => false,
            };
            if underway {
                assert(self@.is_underway(id@));
                return false;
            }
            i += 1;
        }
        proof {
            assert forall|id: Seq<char>| !(#[trigger] self@.is_underway(id)) by {
                if self@.is_underway(id) {
                    assert(listed.contains(id));
                    let k = choose|k: int| 0 <= k < listed.len() && listed[k] == id;
                    assert(!self@.is_underway(listed[k]));
                }
            }
        }
        self.dispatchable().len() == 0
    }

    /// What a free slot does next: nothing more once the build is over, an
    /// issue where one is dispatchable, and otherwise it waits.
    pub fn step(&self) -> (r: Step)
        requires
            self.wf(),
        ensures
            r == (if self@.is_finished() {
                Step::Finish
            } else if self@.dispatchable().len() > 0 {
                Step::Dispatch
            } else {
                Step::Wait
            }),
    {
        if self.finished() {
            Step::Finish
        } else if self.dispatchable().len() > 0 {
            Step::Dispatch
        } else {
            Step::Wait
        }
    }

    /// Marries a slot to the first dispatchable issue, marked Running under
    /// the same lock that judged it ready, so a slot is never promised
    /// twice; `None` where no issue is left to take it.
    pub fn dispatch<C: Fn() -> u64>(&mut self, log: &mut Log<C>) -> (r: Option<Issue>)
        requires
            old(self).wf(),
            old(log).wf(),
            call_requires(old(log).stamped_by(), ()),
        ensures
            final(self).wf(),
            final(log).wf(),
            final(log).stamped_by() == old(log).stamped_by(),
            clocked(old(log).stamped_by(), old(log)@, final(log)@),
            match r {
                Some(issue) => old(self)@.dispatchable().len() > 0 && issue
                    == old(self)@.dispatchable()[0] && final(self)@ == old(self)@.moved(
                    issue.id@,
                    State::Running,
                ) && speaks(
                    old(log)@,
                    final(log)@,
                    old(self)@.run,
                    seq![issue.id@],
                    final(self)@.states,
                ),
                None => old(self)@.dispatchable().len() == 0 && *final(self) == *old(self)
                    && *final(log) == *old(log),
            },
    {
        let mut issues = self.dispatchable();
        if issues.len() == 0 {
            return None;
        }
        let issue = issues.remove(0);
        self.set(log, &issue.id, State::Running);
        Some(issue)
    }

    /// Skips everything the failures in the record doom, each naming the
    /// blocker it is stuck on — [`Plan::doomed`] is the judgement; this
    /// only writes it down. An issue already running, landed, or failed
    /// keeps the state it earned.
    fn skip_doomed<C: Fn() -> u64>(&mut self, log: &mut Log<C>) -> (skipped: Ghost<Seq<Seq<char>>>)
        requires
            old(self).wf(),
            old(log).wf(),
            call_requires(old(log).stamped_by(), ()),
        ensures
            final(self).wf(),
            final(log).wf(),
            final(log).stamped_by() == old(log).stamped_by(),
            clocked(old(log).stamped_by(), old(log)@, final(log)@),
            old(self)@.dooms(final(self)@),
            ids::ascending(skipped@),
            forall|id: Seq<char>| #[trigger]
                skipped@.contains(id) == (old(self)@.is_waiting(id) && old(self)@.plan.is_doomed(
                    id,
                    layout::merged_ids(old(self)@.states),
                    lost_ids(old(self)@.states),
                )),
            speaks(
                old(log)@,
                final(log)@,
                old(self)@.run,
                skipped@,
                final(self)@.states,
            ),
    {
        let done = self.merged();
        let gone = lost(&self.states);
        let doomed = self.plan.doomed(&done, &gone);
        let ghost start = self@;
        let ghost listed = doomed.listed();
        let ghost mut skipped: Seq<Seq<char>> = Seq::empty();
        let mut i: usize = 0;
        proof {
            doomed.listing();
            assert(log@.take(log@.len() as int) =~= log@);
            assert(changes(log@) =~= changes(log@) + moves(start.run, skipped, self@.states));
        }
        while i < doomed.len()
            invariant
                i <= listed.len(),
                listed == doomed.listed(),
                ids::ascending(listed),
                doomed.wf(),
                self.wf(),
                log.wf(),
                log.stamped_by() == old(log).stamped_by(),
                call_requires(old(log).stamped_by(), ()),
                start == old(self)@,
                done@ == layout::merged_ids(start.states),
                gone@ == lost_ids(start.states),
                forall|id: Seq<char>| #[trigger]
                    doomed@.dom().contains(id) == start.plan.is_doomed(id, done@, gone@),
                forall|id: Seq<char>| #[trigger]
                    doomed@.dom().contains(id) ==> start.plan.first_stuck(
                        feature::blockers_of(start.plan.blocking, id),
                        done@,
                        start.plan.landing(done@, gone@),
                    ) == Some(doomed@[id]@),
                forall|id: Seq<char>| #[trigger]
                    doomed@.dom().contains(id) == listed.contains(id),
                self@.run == start.run,
                self@.plan == start.plan,
                self@.problems == start.problems,
                self@.states.dom() == start.states.dom(),
                forall|id: Seq<char>| #[trigger]
                    start.states.dom().contains(id) ==> if start.is_waiting(id) && listed.take(
                        i as int,
                    ).contains(id) {
                        is_stuck(self@.states[id], stuck_on(start.plan, id, done@, gone@))
                    } else {
                        self@.states[id] == start.states[id]
                    },
                ids::ascending(skipped),
                forall|id: Seq<char>| #[trigger]
                    skipped.contains(id) == (start.is_waiting(id) && listed.take(
                        i as int,
                    ).contains(id)),
                speaks(old(log)@, log@, start.run, skipped, self@.states),
                clocked(old(log).stamped_by(), old(log)@, log@),
            decreases listed.len() - i,
        {
            let (leaf, blocker) = doomed.entry(i);
            let ghost some = listed.take(i as int);
            let ghost more = listed.take(i + 1);
            proof {
                assert(listed[i as int] == leaf@);
                assert forall|x: Seq<char>| #[trigger] more.contains(x) == (some.contains(x) || x
                    == leaf@) by {
                    assert(more[i as int] == leaf@);
                    if some.contains(x) {
                        let q = choose|q: int| 0 <= q < some.len() && some[q] == x;
                        assert(more[q] == x);
                    }
                    if more.contains(x) && x != leaf@ {
                        let q = choose|q: int| 0 <= q < more.len() && more[q] == x;
                        assert(some[q] == x);
                    }
                }
                assert forall|x: Seq<char>| some.contains(x) implies text::before(x, leaf@) by {
                    let q = choose|q: int| 0 <= q < some.len() && some[q] == x;
                    assert(text::before(listed[q], listed[i as int]));
                }
                assert(!some.contains(leaf@)) by {
                    text::before_is_irreflexive(leaf@);
                }
                assert(start.plan.is_doomed(leaf@, done@, gone@));
                assert(start.states.dom().contains(leaf@) ==> self@.states[leaf@]
                    == start.states[leaf@]);
            }
            let waiting = match self.states.get(leaf) {
                Some(State::Waiting) => true,
                _ => false,
            };
            assert(waiting == start.is_waiting(leaf@));
            let ghost states = self@.states;
            let ghost spoken = log@;
            let ghost before = skipped;
            if waiting {
                self.set(log, leaf, State::Skipped { reason: stuck(blocker) });
                proof {
                    skipped = before.push(leaf@);
                    assert forall|a: int, b: int|
                        0 <= a < b < skipped.len() implies text::before(
                        #[trigger] skipped[a],
                        #[trigger] skipped[b],
                    ) by {
                        if b < before.len() {
                            assert(before[a] == skipped[a] && before[b] == skipped[b]);
                        } else {
                            assert(before.contains(before[a]));
                        }
                    }
                    assert forall|x: Seq<char>| #[trigger]
                        skipped.contains(x) == (before.contains(x) || x == leaf@) by {
                        assert(skipped[before.len() as int] == leaf@);
                        if before.contains(x) {
                            let q = choose|q: int| 0 <= q < before.len() && before[q] == x;
                            assert(skipped[q] == x);
                        }
                        if skipped.contains(x) && x != leaf@ {
                            let q = choose|q: int| 0 <= q < skipped.len() && skipped[q] == x;
                            assert(before[q] == x);
                        }
                    }
                    assert(self@.states.dom() =~= start.states.dom());
                    assert forall|q: int| old(log)@.len() <= q < log@.len() implies call_ensures(
                        old(log).stamped_by(),
                        (),
                        (#[trigger] log@[q]).at,
                    ) by {
                        if q < spoken.len() {
                            assert(log@.take(spoken.len() as int)[q] == spoken[q]);
                        }
                    }
                    assert(log@.take(old(log)@.len() as int) =~= spoken.take(
                        old(log)@.len() as int,
                    )) by {
                        assert(log@.take(spoken.len() as int) == spoken);
                        assert forall|q: int| 0 <= q < old(log)@.len() implies log@[q]
                            == spoken[q] by {
                            assert(log@.take(spoken.len() as int)[q] == spoken[q]);
                        }
                    }
                    assert(moves(start.run, skipped, self@.states) =~= moves(
                        start.run,
                        before,
                        states,
                    ) + moves(start.run, seq![leaf@], self@.states)) by {
                        assert forall|q: int| 0 <= q < before.len() implies moves(
                            start.run,
                            skipped,
                            self@.states,
                        )[q] == moves(start.run, before, states)[q] by {
                            assert(before.contains(before[q]));
                            assert(some.contains(before[q]));
                        }
                    }
                    assert(changes(log@) =~= changes(old(log)@) + moves(
                        start.run,
                        skipped,
                        self@.states,
                    ));
                }
            }
            proof {
                assert forall|x: Seq<char>| #[trigger]
                    start.states.dom().contains(x) implies if start.is_waiting(x)
                    && more.contains(x) {
                    is_stuck(self@.states[x], stuck_on(start.plan, x, done@, gone@))
                } else {
                    self@.states[x] == start.states[x]
                } by {
                    assert(more.contains(x) == (some.contains(x) || x == leaf@));
                }
                assert forall|x: Seq<char>| #[trigger]
                    skipped.contains(x) == (start.is_waiting(x) && more.contains(x)) by {
                    assert(more.contains(x) == (some.contains(x) || x == leaf@));
                    assert(before.contains(x) == (start.is_waiting(x) && some.contains(x)));
                }
            }
            i += 1;
        }
        proof {
            assert(listed.take(listed.len() as int) =~= listed);
            assert forall|id: Seq<char>| #[trigger]
                start.states.dom().contains(id) implies if start.is_waiting(id)
                && start.plan.is_doomed(id, done@, gone@) {
                is_stuck(self@.states[id], stuck_on(start.plan, id, done@, gone@))
            } else {
                self@.states[id] == start.states[id]
            } by {
                assert(doomed@.dom().contains(id) == listed.contains(id));
            }
            assert forall|id: Seq<char>| #[trigger]
                skipped.contains(id) == (start.is_waiting(id) && start.plan.is_doomed(
                    id,
                    done@,
                    gone@,
                )) by {
                assert(doomed@.dom().contains(id) == listed.contains(id));
            }
        }
        Ghost(skipped)
    }

    /// Marks `issue` Failed with `report`, and everything the failure
    /// dooms Skipped, each naming the blocker it is stuck on. One move is
    /// spoken for each write: the failure first, then the skips in the
    /// order of their names.
    pub fn fail<C: Fn() -> u64>(&mut self, log: &mut Log<C>, issue: &IssueId, report: String)
        requires
            old(self).wf(),
            old(log).wf(),
            call_requires(old(log).stamped_by(), ()),
        ensures
            final(self).wf(),
            final(log).wf(),
            final(log).stamped_by() == old(log).stamped_by(),
            clocked(old(log).stamped_by(), old(log)@, final(log)@),
            old(self)@.moved(issue@, State::Failed { report }).dooms(final(self)@),
            exists|skipped: Seq<Seq<char>>| #[trigger]
                ids::ascending(skipped) && (forall|id: Seq<char>| #[trigger]
                    skipped.contains(id) == (old(self)@.moved(
                        issue@,
                        State::Failed { report },
                    ).is_waiting(id) && final(self)@.states[id] is Skipped)) && speaks(
                    old(log)@,
                    final(log)@,
                    old(self)@.run,
                    seq![issue@] + skipped,
                    final(self)@.states,
                ),
    {
        let ghost before = log@;
        let ghost failed = old(self)@.moved(issue@, State::Failed { report });
        self.set(log, issue, State::Failed { report });
        let ghost between = log@;
        let ghost states = self@.states;
        let skipped = self.skip_doomed(log);
        proof {
            assert(log@.take(before.len() as int) =~= before) by {
                assert forall|q: int| 0 <= q < before.len() implies log@[q] == before[q] by {
                    assert(between.take(before.len() as int)[q] == before[q]);
                    assert(log@.take(between.len() as int)[q] == between[q]);
                }
            }
            assert forall|q: int| before.len() <= q < log@.len() implies call_ensures(
                old(log).stamped_by(),
                (),
                (#[trigger] log@[q]).at,
            ) by {
                if q < between.len() {
                    assert(log@.take(between.len() as int)[q] == between[q]);
                }
            }
            let run = old(self)@.run;
            let moved = seq![issue@] + skipped@;
            assert(failed.states.dom().contains(issue@));
            assert(self@.states[issue@] == states[issue@]);
            assert(moves(run, moved, self@.states) =~= moves(run, seq![issue@], states) + moves(
                run,
                skipped@,
                self@.states,
            ));
            assert(changes(log@) =~= changes(before) + moves(run, moved, self@.states));
            assert forall|id: Seq<char>| #[trigger]
                skipped@.contains(id) == (failed.is_waiting(id)
                    && self@.states[id] is Skipped) by {
                if failed.is_waiting(id) {
                    assert(failed.states.dom().contains(id));
                }
            }
            assert(ids::ascending(skipped@));
        }
    }

    /// One issue's journey is over: landed, or failed with a report.
    pub fn conclude<C: Fn() -> u64>(
        &mut self,
        log: &mut Log<C>,
        issue: &IssueId,
        landed: Result<(String, bool), String>,
    )
        requires
            old(self).wf(),
            old(log).wf(),
            call_requires(old(log).stamped_by(), ()),
        ensures
            final(self).wf(),
            final(log).wf(),
            final(log).stamped_by() == old(log).stamped_by(),
            clocked(old(log).stamped_by(), old(log)@, final(log)@),
            match landed {
                Ok((commit, checked)) => final(self)@ == old(self)@.moved(
                    issue@,
                    State::Merged { commit, checked },
                ) && speaks(
                    old(log)@,
                    final(log)@,
                    old(self)@.run,
                    seq![issue@],
                    final(self)@.states,
                ),
                Err(report) => old(self)@.moved(issue@, State::Failed { report }).dooms(
                    final(self)@,
                ) && exists|skipped: Seq<Seq<char>>| #[trigger]
                    ids::ascending(skipped) && (forall|id: Seq<char>| #[trigger]
                        skipped.contains(id) == (old(self)@.moved(
                            issue@,
                            State::Failed { report },
                        ).is_waiting(id) && final(self)@.states[id] is Skipped)) && speaks(
                        old(log)@,
                        final(log)@,
                        old(self)@.run,
                        seq![issue@] + skipped,
                        final(self)@.states,
                    ),
            },
    {
        match landed {
            Ok((commit, checked)) => self.set(log, issue, State::Merged { commit, checked }),
            Err(report) => self.fail(log, issue, report),
        }
    }
}

} // verus!
