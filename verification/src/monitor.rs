//! A feature build, spoken: an append-only log of what changed, and the
//! fold that turns the log back into the picture the build holds.
//!
//! A build keeps one [`State`] per issue of work and moves it as the build
//! proceeds. Every movement is a [`Change`], every change is recorded as an
//! [`Entry`] in the host's one [`Log`], and anything that wants the
//! picture — a pane in the window, a browser at the far end of an event
//! stream — folds the entries into a [`Progress`]: every build the host has
//! heard of, each a [`Watch`]. Attaching is replay, not a snapshot: there is
//! one representation and one fold, so the document a watcher gets on
//! attach cannot disagree with the one it builds by listening. The log is
//! bounded by the plan, not by time — a build makes a handful of entries
//! per issue and then stops — which is what makes replay affordable.
//!
//! [`Entry::seq`] is host-wide and monotonic from 0, and is three things
//! at once by design: the deduplication key, the replay cursor, and the
//! id an event stream carries. [`Entry::at`] is unix milliseconds, stamped
//! by the host's clock. [`Log`] is where both are assigned, and the only
//! place either is.

use crate::feature;
use crate::feature::layout;
use crate::feature::layout::Layout;
use crate::feature::{Issue, IssueId, Plan, PlanView, RunId, State};
use crate::ids;
use crate::ids::IdMap;
use crate::text;
use crate::tree;
use vstd::prelude::*;

pub mod laws;
pub mod log_laws;

verus! {

/// The event channel entries arrive on, backend to window.
pub const EVENT: &'static str = "monitor";

/// One thing that happened to a feature build. Every change names its
/// run; the run's life is Reserved, then Started, then Moved as many
/// times as the build moves an issue, then Finished — or Abandoned in
/// place of Started, when the launch failed between reserving and
/// running.
#[derive(Debug, Eq, PartialEq)]
pub enum Change {
    /// A run id is held for a launch: recorded before the check card is
    /// raised, so a build is visible from the moment it is asked for.
    Reserved {
        run: RunId,
        feature: IssueId,
        repository: String,
        branch: String,
        base: Option<String>,
    },
    /// The build is running. The plan, what is wrong with its shape — in
    /// words, because a pane only ever displays prose — every issue of work
    /// with the state it starts in, and the check in force: `None` means
    /// the branch is unchecked.
    Started {
        run: RunId,
        plan: Plan,
        problems: Vec<String>,
        states: IdMap<State>,
        check: Option<String>,
    },
    /// One issue moved to `state`.
    Moved { run: RunId, issue: IssueId, state: State },
    /// Nothing is ready and nothing is running: every state is terminal.
    Finished { run: RunId },
    /// The launch failed after reserving, or the build was given up;
    /// `reason` is why, in words.
    Abandoned { run: RunId, reason: String },
}

/// A [`Change`] over names and sequences.
pub enum ChangeView {
    Reserved {
        run: RunId,
        feature: Seq<char>,
        repository: Seq<char>,
        branch: Seq<char>,
        base: Option<Seq<char>>,
    },
    Started {
        run: RunId,
        plan: PlanView,
        problems: Seq<Seq<char>>,
        states: Map<Seq<char>, State>,
        check: Option<Seq<char>>,
    },
    Moved { run: RunId, issue: Seq<char>, state: State },
    Finished { run: RunId },
    Abandoned { run: RunId, reason: Seq<char> },
}

impl View for Change {
    type V = ChangeView;

    open spec fn view(&self) -> ChangeView {
        match self {
            Change::Reserved { run, feature, repository, branch, base } => ChangeView::Reserved {
                run: *run,
                feature: feature@,
                repository: repository@,
                branch: branch@,
                base: text::optional(*base),
            },
            Change::Started { run, plan, problems, states, check } => ChangeView::Started {
                run: *run,
                plan: plan@,
                problems: text::views(problems@),
                states: states@,
                check: text::optional(*check),
            },
            Change::Moved { run, issue, state } => ChangeView::Moved {
                run: *run,
                issue: issue@,
                state: *state,
            },
            Change::Finished { run } => ChangeView::Finished { run: *run },
            Change::Abandoned { run, reason } => ChangeView::Abandoned {
                run: *run,
                reason: reason@,
            },
        }
    }
}

impl ChangeView {
    /// The run this change belongs to.
    pub open spec fn of_run(self) -> RunId {
        match self {
            ChangeView::Reserved { run, .. } => run,
            ChangeView::Started { run, .. } => run,
            ChangeView::Moved { run, .. } => run,
            ChangeView::Finished { run } => run,
            ChangeView::Abandoned { run, .. } => run,
        }
    }
}

/// A copy of a map of states holds what the map holds.
pub(crate) proof fn states_copy(of: IdMap<State>, copy: IdMap<State>)
    requires
        of.wf(),
        copy.wf(),
        copy.listed() == of.listed(),
        forall|id: Seq<char>| #[trigger]
            of@.dom().contains(id) ==> copy@.dom().contains(id) && cloned(of@[id], copy@[id]),
    ensures
        copy@ == of@,
{
    of.listing();
    copy.listing();
    assert(copy@ =~= of@);
}

/// A copy of a row of strings.
fn copied(words: &Vec<String>) -> (r: Vec<String>)
    ensures
        r@ == words@,
{
    let r = words.clone();
    assert(r@ =~= words@);
    r
}

impl Change {
    /// Whether the states of a change are in order.
    pub open spec fn wf(self) -> bool {
        self matches Change::Started { states, .. } ==> states.wf()
    }

    /// The run this change belongs to.
    pub fn run(&self) -> (r: RunId)
        ensures
            r == self@.of_run(),
    {
        match self {
            Change::Reserved { run, .. } => *run,
            Change::Started { run, .. } => *run,
            Change::Moved { run, .. } => *run,
            Change::Finished { run } => *run,
            Change::Abandoned { run, .. } => *run,
        }
    }
}

impl Clone for Change {
    fn clone(&self) -> (r: Self)
        ensures
            self.wf() ==> r.wf() && r@ == self@,
    {
        match self {
            Change::Reserved { run, feature, repository, branch, base } => Change::Reserved {
                run: *run,
                feature: feature.clone(),
                repository: repository.clone(),
                branch: branch.clone(),
                base: base.clone(),
            },
            Change::Started { run, plan, problems, states, check } => {
                let copy = states.clone();
                proof {
                    if self.wf() {
                        states_copy(*states, copy);
                    }
                }
                Change::Started {
                    run: *run,
                    plan: plan.clone(),
                    problems: copied(problems),
                    states: copy,
                    check: check.clone(),
                }
            },
            Change::Moved { run, issue, state } => Change::Moved {
                run: *run,
                issue: issue.clone(),
                state: state.clone(),
            },
            Change::Finished { run } => Change::Finished { run: *run },
            Change::Abandoned { run, reason } => Change::Abandoned {
                run: *run,
                reason: reason.clone(),
            },
        }
    }
}

/// A change as the log keeps it: stamped with its place in the log and
/// the moment it was recorded.
#[derive(Debug, Eq, PartialEq)]
pub struct Entry {
    /// Host-wide, monotonic from 0: the deduplication key, the replay
    /// cursor, and the id an event stream carries.
    pub seq: u64,
    /// Unix milliseconds, as the host's clock read when the change was
    /// recorded.
    pub at: u64,
    pub change: Change,
}

/// An [`Entry`] over the view of its change.
pub struct EntryView {
    pub seq: u64,
    pub at: u64,
    pub change: ChangeView,
}

impl View for Entry {
    type V = EntryView;

    open spec fn view(&self) -> EntryView {
        EntryView { seq: self.seq, at: self.at, change: self.change@ }
    }
}

impl Clone for Entry {
    fn clone(&self) -> (r: Self)
        ensures
            self.change.wf() ==> r.change.wf() && r@ == self@,
    {
        Entry { seq: self.seq, at: self.at, change: self.change.clone() }
    }
}

/// Where one run stands in its life.
#[derive(Clone, Debug, Eq, PartialEq)]
pub enum Stage {
    /// Reserved: the launch is validating, asking, establishing.
    Starting,
    /// Started, and not yet finished.
    Building,
    /// Every state is terminal.
    Finished,
    /// Given up, and why.
    Abandoned { reason: String },
}

/// A [`Stage`] with its words as characters.
pub enum StageView {
    Starting,
    Building,
    Finished,
    Abandoned { reason: Seq<char> },
}

impl View for Stage {
    type V = StageView;

    open spec fn view(&self) -> StageView {
        match self {
            Stage::Starting => StageView::Starting,
            Stage::Building => StageView::Building,
            Stage::Finished => StageView::Finished,
            Stage::Abandoned { reason } => StageView::Abandoned { reason: reason@ },
        }
    }
}

/// How many issues stand where. `ready` and `blocked` split Waiting: a
/// Waiting issue is ready when the plan names it so, given what has
/// merged, and blocked otherwise. `total` is every issue of work.
#[derive(Clone, Copy, Debug, Default, Eq, PartialEq, Structural)]
pub struct Counts {
    pub merged: usize,
    pub running: usize,
    pub merging: usize,
    pub failed: usize,
    pub skipped: usize,
    pub ready: usize,
    pub blocked: usize,
    pub total: usize,
}

/// One feature build as a watcher sees it: what Reserved said of it,
/// what Started handed over, and every issue's state as the Moved
/// entries left it. Obtained only by folding — [`Progress::absorb`] is
/// the one way in.
#[derive(Debug, Eq, PartialEq)]
pub struct Watch {
    run: RunId,
    feature: IssueId,
    repository: String,
    branch: String,
    base: Option<String>,
    /// `None` until Started: a reservation has no plan yet.
    plan: Option<Plan>,
    problems: Vec<String>,
    states: IdMap<State>,
    check: Option<String>,
    stage: Stage,
}

/// A [`Watch`] over names and sequences.
pub struct WatchView {
    pub run: RunId,
    pub feature: Seq<char>,
    pub repository: Seq<char>,
    pub branch: Seq<char>,
    pub base: Option<Seq<char>>,
    pub plan: Option<PlanView>,
    pub problems: Seq<Seq<char>>,
    pub states: Map<Seq<char>, State>,
    pub check: Option<Seq<char>>,
    pub stage: StageView,
}

impl View for Watch {
    type V = WatchView;

    closed spec fn view(&self) -> WatchView {
        WatchView {
            run: self.run,
            feature: self.feature@,
            repository: self.repository@,
            branch: self.branch@,
            base: text::optional(self.base),
            plan: match self.plan {
                Some(plan) => Some(plan@),
                None => None,
            },
            problems: text::views(self.problems@),
            states: self.states@,
            check: text::optional(self.check),
            stage: self.stage@,
        }
    }
}

impl Clone for Watch {
    fn clone(&self) -> (r: Self)
        ensures
            self.wf() ==> r.wf() && r@ == self@,
    {
        let states = self.states.clone();
        proof {
            if self.wf() {
                states_copy(self.states, states);
            }
        }
        Watch {
            run: self.run,
            feature: self.feature.clone(),
            repository: self.repository.clone(),
            branch: self.branch.clone(),
            base: self.base.clone(),
            plan: match &self.plan {
                Some(plan) => Some(plan.clone()),
                None => None,
            },
            problems: copied(&self.problems),
            states,
            check: self.check.clone(),
            stage: match &self.stage {
                Stage::Starting => Stage::Starting,
                Stage::Building => Stage::Building,
                Stage::Finished => Stage::Finished,
                Stage::Abandoned { reason } => Stage::Abandoned { reason: reason.clone() },
            },
        }
    }
}

impl WatchView {
    /// A build just reserved: no plan, no states, starting.
    pub open spec fn fresh(
        run: RunId,
        feature: Seq<char>,
        repository: Seq<char>,
        branch: Seq<char>,
        base: Option<Seq<char>>,
    ) -> WatchView {
        WatchView {
            run,
            feature,
            repository,
            branch,
            base,
            plan: None,
            problems: Seq::empty(),
            states: Map::empty(),
            check: None,
            stage: StageView::Starting,
        }
    }

    /// The build after a change to it.
    pub open spec fn after(self, change: ChangeView) -> WatchView {
        match change {
            ChangeView::Reserved { .. } => self,
            ChangeView::Started { plan, problems, states, check, .. } => WatchView {
                run: self.run,
                feature: self.feature,
                repository: self.repository,
                branch: self.branch,
                base: self.base,
                plan: Some(plan),
                problems,
                states,
                check,
                stage: StageView::Building,
            },
            ChangeView::Moved { issue, state, .. } => WatchView {
                run: self.run,
                feature: self.feature,
                repository: self.repository,
                branch: self.branch,
                base: self.base,
                plan: self.plan,
                problems: self.problems,
                states: self.states.insert(issue, state),
                check: self.check,
                stage: self.stage,
            },
            ChangeView::Finished { .. } => self.at_stage(StageView::Finished),
            ChangeView::Abandoned { reason, .. } => self.at_stage(StageView::Abandoned { reason }),
        }
    }

    /// The build at another stage.
    pub open spec fn at_stage(self, stage: StageView) -> WatchView {
        WatchView {
            run: self.run,
            feature: self.feature,
            repository: self.repository,
            branch: self.branch,
            base: self.base,
            plan: self.plan,
            problems: self.problems,
            states: self.states,
            check: self.check,
            stage,
        }
    }

    /// Whether the plan names the issue ready, given what has merged.
    pub open spec fn is_ready(self, id: Seq<char>) -> bool {
        match self.plan {
            Some(plan) => feature::named(plan.ready_of(layout::merged_ids(self.states)), id),
            None => false,
        }
    }

    /// How many issues stand in a way that `stands` describes.
    pub open spec fn count(self, stands: spec_fn(Seq<char>) -> bool) -> nat {
        self.states.dom().filter(stands).len()
    }
}

/// How many issues stand where, by the states and the plan.
pub open spec fn counted(watch: WatchView, counts: Counts) -> bool {
    let states = watch.states;
    &&& counts.merged == watch.count(|id: Seq<char>| states[id] is Merged)
    &&& counts.running == watch.count(|id: Seq<char>| states[id] is Running)
    &&& counts.merging == watch.count(|id: Seq<char>| states[id] is Merging)
    &&& counts.failed == watch.count(|id: Seq<char>| states[id] is Failed)
    &&& counts.skipped == watch.count(|id: Seq<char>| states[id] is Skipped)
    &&& counts.ready == watch.count(|id: Seq<char>| states[id] is Waiting && watch.is_ready(id))
    &&& counts.blocked == watch.count(|id: Seq<char>| states[id] is Waiting && !watch.is_ready(id))
    &&& counts.total == states.dom().len()
}

proof fn one_more_counted(seen: Set<Seq<char>>, id: Seq<char>, p: spec_fn(Seq<char>) -> bool)
    requires
        seen.finite(),
        !seen.contains(id),
    ensures
        seen.insert(id).filter(p).len() == seen.filter(p).len() + (if p(id) {
            1nat
        } else {
            0nat
        }),
{
    if p(id) {
        assert(seen.insert(id).filter(p) =~= seen.filter(p).insert(id));
    } else {
        assert(seen.insert(id).filter(p) =~= seen.filter(p));
    }
}

proof fn no_more_than_all(seen: Set<Seq<char>>, p: spec_fn(Seq<char>) -> bool)
    requires
        seen.finite(),
    ensures
        seen.filter(p).len() <= seen.len(),
{
    vstd::set_lib::lemma_len_subset(seen.filter(p), seen);
}

impl Watch {
    /// Whether the states are in order.
    pub closed spec fn wf(&self) -> bool {
        self.states.wf()
    }

    fn reserved(
        run: RunId,
        feature: IssueId,
        repository: String,
        branch: String,
        base: Option<String>,
    ) -> (r: Self)
        ensures
            r.wf(),
            r@ == WatchView::fresh(run, feature@, repository@, branch@, text::optional(base)),
    {
        let r = Watch {
            run,
            feature,
            repository,
            branch,
            base,
            plan: None,
            problems: Vec::new(),
            states: IdMap::new(),
            check: None,
            stage: Stage::Starting,
        };
        assert(text::views(r.problems@) =~= Seq::<Seq<char>>::empty());
        r
    }

    /// The run's id.
    pub fn run(&self) -> (r: RunId)
        ensures
            r == self@.run,
    {
        self.run
    }

    /// The feature issue the build is of.
    pub fn feature(&self) -> (r: &IssueId)
        ensures
            r@ == self@.feature,
    {
        &self.feature
    }

    /// The repository the build works in.
    pub fn repository(&self) -> (r: &str)
        ensures
            r@ == self@.repository,
    {
        self.repository.as_str()
    }

    /// The feature branch.
    pub fn branch(&self) -> (r: &str)
        ensures
            r@ == self@.branch,
    {
        self.branch.as_str()
    }

    /// The branch the feature branch starts from, where one was named.
    pub fn base(&self) -> (r: Option<&str>)
        ensures
            match r {
                Some(base) => self@.base == Some(base@),
                None => self@.base is None,
            },
    {
        match &self.base {
            Some(base) => Some(base.as_str()),
            None => None,
        }
    }

    /// The plan the build runs, once Started has said what it is.
    pub fn plan(&self) -> (r: Option<&Plan>)
        ensures
            match r {
                Some(plan) => self@.plan == Some(plan@),
                None => self@.plan is None,
            },
    {
        match &self.plan {
            Some(plan) => Some(plan),
            None => None,
        }
    }

    /// The feature's title, once Started has handed over the plan that
    /// carries it.
    pub fn title(&self) -> (r: Option<&str>)
        ensures
            match r {
                Some(title) => self@.plan matches Some(plan) && title@ == plan.tree.value.title@,
                None => self@.plan is None,
            },
    {
        match &self.plan {
            Some(plan) => Some(plan.title()),
            None => None,
        }
    }

    /// The plan as a picture, every issue drawn where it stands — or
    /// nothing, before there is a plan.
    pub fn layout(&self) -> (r: Option<Layout>)
        requires
            self.wf(),
        ensures
            match r {
                Some(layout) => self@.plan is Some && layout::is_layout(
                    layout,
                    self@.plan->0,
                    self@.states,
                ) && forall|i: int|
                    0 <= i < layout.nodes@.len() ==> (#[trigger] layout.nodes@[i]).column
                        < layout.nodes@.len(),
                None => self@.plan is None,
            },
    {
        match &self.plan {
            Some(plan) => Some(layout::layout(plan, &self.states)),
            None => None,
        }
    }

    /// What is wrong with the plan's shape, in words.
    pub fn problems(&self) -> (r: &Vec<String>)
        ensures
            text::views(r@) == self@.problems,
    {
        &self.problems
    }

    /// Every issue of work and where it stands.
    pub fn states(&self) -> (r: &IdMap<State>)
        requires
            self.wf(),
        ensures
            r.wf(),
            r@ == self@.states,
    {
        &self.states
    }

    /// The check in force; `None` is an unchecked branch.
    pub fn check(&self) -> (r: Option<&str>)
        ensures
            match r {
                Some(check) => self@.check == Some(check@),
                None => self@.check is None,
            },
    {
        match &self.check {
            Some(check) => Some(check.as_str()),
            None => None,
        }
    }

    /// Where the run stands in its life.
    pub fn stage(&self) -> (r: &Stage)
        ensures
            r@ == self@.stage,
    {
        &self.stage
    }

    /// Whether an agent holds a slot right now: some issue is Running.
    /// Merging is not live — no agent holds a slot during a merge — so
    /// a pane that shows motion for the present shows it only here.
    pub fn live(&self) -> (r: bool)
        requires
            self.wf(),
        ensures
            r == exists|id: Seq<char>| #[trigger]
                self@.states.dom().contains(id) && self@.states[id] is Running,
    {
        let ghost listed = self.states.listed();
        let mut i: usize = 0;
        proof {
            self.states.listing();
        }
        while i < self.states.len()
            invariant
                self.wf(),
                listed == self.states.listed(),
                i <= listed.len(),
                forall|k: int|
                    0 <= k < i ==> !(self.states@[#[trigger] listed[k]] is Running),
            decreases listed.len() - i,
        {
            let (id, state) = self.states.entry(i);
            if let State::Running = state {
                return true;
            }
            i += 1;
        }
        proof {
            assert forall|id: Seq<char>| #[trigger]
                self@.states.dom().contains(id) implies !(self@.states[id] is Running) by {
                assert(listed.contains(id));
                let k = choose|k: int| 0 <= k < listed.len() && listed[k] == id;
                assert(!(self.states@[listed[k]] is Running));
            }
        }
        false
    }

    /// The work the plan calls ready, given what has merged.
    fn ready(&self) -> (r: Vec<&Issue>)
        requires
            self.wf(),
        ensures
            forall|id: Seq<char>|
                feature::named(tree::reached(r@), id) == #[trigger] self@.is_ready(id),
    {
        let done = layout::merged(&self.states);
        match &self.plan {
            Some(plan) => plan.ready(&done),
            None => Vec::new(),
        }
    }

    /// How many issues stand where, Waiting split into ready and blocked
    /// by the plan's own judgement over what has merged.
    pub fn counts(&self) -> (r: Counts)
        requires
            self.wf(),
        ensures
            self@.states.dom().finite(),
            counted(self@, r),
    {
        let ready = self.ready();
        let total: usize = self.states.len();
        let mut counts = Counts {
            merged: 0,
            running: 0,
            merging: 0,
            failed: 0,
            skipped: 0,
            ready: 0,
            blocked: 0,
            total,
        };
        let ghost watch = self@;
        let ghost states = self.states@;
        let ghost listed = self.states.listed();
        let ghost mut seen: Set<Seq<char>> = Set::empty();
        let ghost merged = |id: Seq<char>| states[id] is Merged;
        let ghost running = |id: Seq<char>| states[id] is Running;
        let ghost merging = |id: Seq<char>| states[id] is Merging;
        let ghost failed = |id: Seq<char>| states[id] is Failed;
        let ghost skipped = |id: Seq<char>| states[id] is Skipped;
        let ghost is_ready = |id: Seq<char>| states[id] is Waiting && watch.is_ready(id);
        let ghost is_blocked = |id: Seq<char>| states[id] is Waiting && !watch.is_ready(id);
        let mut i: usize = 0;
        proof {
            self.states.listing();
            assert(seen.filter(merged) =~= seen);
            assert(seen.filter(running) =~= seen);
            assert(seen.filter(merging) =~= seen);
            assert(seen.filter(failed) =~= seen);
            assert(seen.filter(skipped) =~= seen);
            assert(seen.filter(is_ready) =~= seen);
            assert(seen.filter(is_blocked) =~= seen);
        }
        while i < self.states.len()
            invariant
                self.wf(),
                watch == self@,
                states == self.states@,
                listed == self.states.listed(),
                listed.len() == total,
                ids::ascending(listed),
                i <= listed.len(),
                forall|id: Seq<char>|
                    feature::named(tree::reached(ready@), id) == #[trigger] watch.is_ready(id),
                seen.finite(),
                seen.len() == i,
                forall|id: Seq<char>| #[trigger]
                    seen.contains(id) == exists|k: int| 0 <= k < i && listed[k] == id,
                merged == (|id: Seq<char>| states[id] is Merged),
                running == (|id: Seq<char>| states[id] is Running),
                merging == (|id: Seq<char>| states[id] is Merging),
                failed == (|id: Seq<char>| states[id] is Failed),
                skipped == (|id: Seq<char>| states[id] is Skipped),
                is_ready == (|id: Seq<char>| states[id] is Waiting && watch.is_ready(id)),
                is_blocked == (|id: Seq<char>| states[id] is Waiting && !watch.is_ready(id)),
                counts.merged == seen.filter(merged).len(),
                counts.running == seen.filter(running).len(),
                counts.merging == seen.filter(merging).len(),
                counts.failed == seen.filter(failed).len(),
                counts.skipped == seen.filter(skipped).len(),
                counts.ready == seen.filter(is_ready).len(),
                counts.blocked == seen.filter(is_blocked).len(),
                counts.total == total,
            decreases listed.len() - i,
        {
            let (id, state) = self.states.entry(i);
            proof {
                assert(listed[i as int] == id@);
                assert(!seen.contains(id@)) by {
                    if seen.contains(id@) {
                        let k = choose|k: int| 0 <= k < i && listed[k] == id@;
                        assert(text::before(listed[k], listed[i as int]));
                        text::before_is_irreflexive(id@);
                    }
                }
                no_more_than_all(seen, merged);
                no_more_than_all(seen, running);
                no_more_than_all(seen, merging);
                no_more_than_all(seen, failed);
                no_more_than_all(seen, skipped);
                no_more_than_all(seen, is_ready);
                no_more_than_all(seen, is_blocked);
                one_more_counted(seen, id@, merged);
                one_more_counted(seen, id@, running);
                one_more_counted(seen, id@, merging);
                one_more_counted(seen, id@, failed);
                one_more_counted(seen, id@, skipped);
                one_more_counted(seen, id@, is_ready);
                one_more_counted(seen, id@, is_blocked);
            }
            let named = layout::is_among(&ready, id);
            assert(named == watch.is_ready(id@));
            match state {
                State::Waiting => if named {
                    counts.ready = counts.ready + 1;
                } else {
                    counts.blocked = counts.blocked + 1;
                },
                State::Running => {
                    counts.running = counts.running + 1;
                },
                State::Merging => {
                    counts.merging = counts.merging + 1;
                },
                State::Merged { .. } => {
                    counts.merged = counts.merged + 1;
                },
                State::Failed { .. } => {
                    counts.failed = counts.failed + 1;
                },
                State::Skipped { .. } => {
                    counts.skipped = counts.skipped + 1;
                },
            }
            proof {
                let before = seen;
                seen = seen.insert(id@);
                assert forall|x: Seq<char>| #[trigger]
                    seen.contains(x) == exists|k: int| 0 <= k < i + 1 && listed[k] == x by {
                    if before.contains(x) {
                        let k = choose|k: int| 0 <= k < i && listed[k] == x;
                        assert(0 <= k < i + 1 && listed[k] == x);
                    }
                    if x == id@ {
                        assert(listed[i as int] == x);
                    }
                    if exists|k: int| 0 <= k < i + 1 && listed[k] == x {
                        let k = choose|k: int| 0 <= k < i + 1 && listed[k] == x;
                        if k < i {
                            assert(before.contains(x));
                        }
                    }
                }
            }
            i += 1;
        }
        proof {
            assert(seen =~= states.dom()) by {
                assert forall|x: Seq<char>| seen.contains(x) == states.dom().contains(x) by {
                    if states.dom().contains(x) {
                        assert(listed.contains(x));
                        let k = choose|k: int| 0 <= k < listed.len() && listed[k] == x;
                        assert(seen.contains(x));
                    }
                    if seen.contains(x) {
                        let k = choose|k: int| 0 <= k < i && listed[k] == x;
                        assert(listed.contains(x));
                    }
                }
            }
        }
        counts
    }

    fn apply(&mut self, change: Change)
        requires
            old(self).wf(),
            change.wf(),
        ensures
            final(self).wf(),
            final(self)@ == old(self)@.after(change@),
    {
        match change {
            Change::Reserved { .. } => {},
            Change::Started { plan, problems, states, check, .. } => {
                self.plan = Some(plan);
                self.problems = problems;
                self.states = states;
                self.check = check;
                self.stage = Stage::Building;
            },
            Change::Moved { issue, state, .. } => {
                self.states.insert(issue, state);
            },
            Change::Finished { .. } => {
                self.stage = Stage::Finished;
            },
            Change::Abandoned { reason, .. } => {
                self.stage = Stage::Abandoned { reason };
            },
        }
    }
}

/// The runs of a row of watches.
pub open spec fn runs(watches: Seq<Watch>) -> Seq<u64> {
    watches.map_values(|watch: Watch| watch@.run.0)
}

/// Whether the numbers ascend, none of them twice.
pub open spec fn rising(numbers: Seq<u64>) -> bool {
    forall|i: int, j: int|
        0 <= i < j < numbers.len() ==> #[trigger] numbers[i] < #[trigger] numbers[j]
}

/// Every feature build the host has heard of, folded from the log's
/// entries and from nothing else. Fresh, it has heard of none; absorb
/// the replay, then keep absorbing what arrives.
#[derive(Debug, Eq, PartialEq)]
pub struct Progress {
    /// The highest `seq` applied, once any has been.
    applied: Option<u64>,
    /// In the order of their runs, each run once.
    watches: Vec<Watch>,
}

/// A [`Progress`] as the highest `seq` applied and the builds by their runs.
pub struct ProgressView {
    pub applied: Option<u64>,
    pub watches: Map<u64, WatchView>,
}

impl View for Progress {
    type V = ProgressView;

    closed spec fn view(&self) -> ProgressView {
        ProgressView {
            applied: self.applied,
            watches: Map::new(
                |run: u64| runs(self.watches@).contains(run),
                |run: u64| self.watches@[runs(self.watches@).index_of(run)]@,
            ),
        }
    }
}

impl Clone for Progress {
    fn clone(&self) -> (r: Self)
        ensures
            self.wf() ==> r.wf() && r@ == self@,
    {
        let mut watches: Vec<Watch> = Vec::new();
        let mut i: usize = 0;
        while i < self.watches.len()
            invariant
                i <= self.watches@.len(),
                watches@.len() == i,
                self.wf() ==> forall|k: int|
                    0 <= k < i ==> (#[trigger] watches@[k]).wf() && watches@[k]@
                        == self.watches@[k]@,
            decreases self.watches@.len() - i,
        {
            watches.push(self.watches[i].clone());
            i = i + 1;
        }
        let r = Progress { applied: self.applied, watches };
        proof {
            if self.wf() {
                assert(runs(r.watches@) =~= runs(self.watches@)) by {
                    assert forall|k: int| 0 <= k < r.watches@.len() implies runs(r.watches@)[k]
                        == runs(self.watches@)[k] by {
                        assert(r.watches@[k]@ == self.watches@[k]@);
                    }
                }
                assert(r@.watches =~= self@.watches) by {
                    assert forall|run: u64| #[trigger]
                        r@.watches.dom().contains(run) implies r@.watches[run]
                        == self@.watches[run] by {
                        let at = runs(r.watches@).index_of(run);
                        assert(r.watches@[at]@ == self.watches@[at]@);
                    }
                }
            }
        }
        r
    }
}

impl ProgressView {
    /// Before anything has been heard.
    pub open spec fn nothing() -> ProgressView {
        ProgressView { applied: None, watches: Map::empty() }
    }

    /// Whether an entry is past the highest applied.
    pub open spec fn counts(self, entry: EntryView) -> bool {
        match self.applied {
            Some(applied) => entry.seq > applied,
            None => true,
        }
    }

    /// The builds after one entry: an entry not past the highest applied
    /// changes nothing, Reserved makes a fresh build, and any other change
    /// lands on the build it names, or nowhere.
    pub open spec fn after(self, entry: EntryView) -> ProgressView {
        if !self.counts(entry) {
            self
        } else {
            let run = entry.change.of_run().0;
            ProgressView {
                applied: Some(entry.seq),
                watches: match entry.change {
                    ChangeView::Reserved { run, feature, repository, branch, base } => {
                        self.watches.insert(
                            run.0,
                            WatchView::fresh(run, feature, repository, branch, base),
                        )
                    },
                    change => if self.watches.dom().contains(run) {
                        self.watches.insert(run, self.watches[run].after(change))
                    } else {
                        self.watches
                    },
                },
            }
        }
    }

    /// The builds after a row of entries.
    pub open spec fn after_all(self, entries: Seq<EntryView>) -> ProgressView
        decreases entries.len(),
    {
        if entries.len() == 0 {
            self
        } else {
            self.after_all(entries.drop_last()).after(entries.last())
        }
    }
}

impl Default for Progress {
    fn default() -> (r: Self)
        ensures
            r.wf(),
            r@ == ProgressView::nothing(),
    {
        let r = Progress { applied: None, watches: Vec::new() };
        assert(r@.watches =~= Map::<u64, WatchView>::empty());
        r
    }
}

impl Progress {
    /// Whether the builds are kept in the order of their runs.
    pub closed spec fn wf(&self) -> bool {
        &&& rising(runs(self.watches@))
        &&& forall|i: int| 0 <= i < self.watches@.len() ==> (#[trigger] self.watches@[i]).wf()
    }

    proof fn at_place(&self, i: int)
        requires
            self.wf(),
            0 <= i < self.watches@.len(),
        ensures
            self@.watches.dom().contains(self.watches@[i]@.run.0),
            self@.watches[self.watches@[i]@.run.0] == self.watches@[i]@,
    {
        let kept = runs(self.watches@);
        assert(kept[i] == self.watches@[i]@.run.0);
        let j = kept.index_of(kept[i]);
        assert(kept[j] == kept[i]);
    }

    /// The first place whose run is not before `run`.
    fn place(&self, run: RunId) -> (at: usize)
        requires
            self.wf(),
        ensures
            at <= self.watches@.len(),
            forall|i: int| 0 <= i < at ==> #[trigger] runs(self.watches@)[i] < run.0,
            forall|i: int|
                at <= i < self.watches@.len() ==> #[trigger] runs(self.watches@)[i] >= run.0,
    {
        let mut at: usize = 0;
        while at < self.watches.len() && self.watches[at].run.0 < run.0
            invariant
                at <= self.watches@.len(),
                self.wf(),
                forall|i: int| 0 <= i < at ==> #[trigger] runs(self.watches@)[i] < run.0,
            decreases self.watches@.len() - at,
        {
            assert(runs(self.watches@)[at as int] == self.watches@[at as int].run.0);
            at += 1;
        }
        proof {
            assert forall|i: int| at <= i < self.watches@.len() implies #[trigger] runs(
                self.watches@,
            )[i] >= run.0 by {
                assert(runs(self.watches@)[at as int] == self.watches@[at as int].run.0);
                if i > at {
                    assert(runs(self.watches@)[at as int] < runs(self.watches@)[i]);
                }
            }
        }
        at
    }

    /// Where `run` is kept, if it is.
    fn find(&self, run: RunId) -> (r: Option<usize>)
        requires
            self.wf(),
        ensures
            match r {
                Some(i) => i < self.watches@.len() && self.watches@[i as int]@.run.0 == run.0
                    && self@.watches.dom().contains(run.0) && self@.watches[run.0]
                    == self.watches@[i as int]@,
                None => !self@.watches.dom().contains(run.0),
            },
    {
        let at: usize = self.place(run);
        if at < self.watches.len() && self.watches[at].run.0 == run.0 {
            proof {
                self.at_place(at as int);
            }
            Some(at)
        } else {
            proof {
                if runs(self.watches@).contains(run.0) {
                    let k = choose|k: int|
                        0 <= k < self.watches@.len() && runs(self.watches@)[k] == run.0;
                    assert(runs(self.watches@)[at as int] == self.watches@[at as int].run.0);
                    if k > at {
                        assert(runs(self.watches@)[at as int] < runs(self.watches@)[k]);
                    }
                }
            }
            None
        }
    }

    /// Keeps `watch` against its run, in place of what was there.
    fn keep(&mut self, watch: Watch)
        requires
            old(self).wf(),
            watch.wf(),
        ensures
            final(self).wf(),
            final(self)@.applied == old(self)@.applied,
            final(self)@.watches == old(self)@.watches.insert(watch@.run.0, watch@),
    {
        let run = watch.run;
        let ghost given = watch;
        let at: usize = self.place(run);
        let found = at < self.watches.len() && self.watches[at].run.0 == run.0;
        let ghost before = self.watches@;
        if found {
            assert(runs(before)[at as int] == before[at as int]@.run.0);
            self.watches.set(at, watch);
            assert(runs(self.watches@) =~= runs(before));
        } else {
            self.watches.insert(at, watch);
            proof {
                assert forall|i: int, j: int|
                    0 <= i < j < self.watches@.len() implies #[trigger] runs(self.watches@)[i]
                    < #[trigger] runs(self.watches@)[j] by {
                    if i < at {
                        assert(runs(before)[i] == runs(self.watches@)[i]);
                    } else if i > at {
                        assert(runs(before)[i - 1] == runs(self.watches@)[i]);
                    }
                    if j < at {
                        assert(runs(before)[j] == runs(self.watches@)[j]);
                    } else if j > at {
                        assert(runs(before)[j - 1] == runs(self.watches@)[j]);
                        assert(runs(before)[at as int] == before[at as int]@.run.0);
                        if j - 1 > at {
                            assert(runs(before)[at as int] < runs(before)[j - 1]);
                        }
                    }
                }
                assert forall|i: int| 0 <= i < self.watches@.len() implies (
                #[trigger] self.watches@[i]).wf() by {
                    if i < at {
                        assert(self.watches@[i] == before[i]);
                    } else if i > at {
                        assert(self.watches@[i] == before[i - 1]);
                    }
                }
            }
        }
        proof {
            let expected = old(self)@.watches.insert(given@.run.0, given@);
            assert forall|x: u64| #[trigger]
                self@.watches.dom().contains(x) == expected.dom().contains(x) by {
                if runs(self.watches@).contains(x) {
                    let k = choose|k: int|
                        0 <= k < runs(self.watches@).len() && runs(self.watches@)[k] == x;
                    assert(self.watches@[k]@.run.0 == x);
                    if !found && k > at {
                        assert(runs(before)[k - 1] == x);
                    } else if k != at {
                        assert(runs(before)[k] == x);
                    }
                }
                if runs(before).contains(x) {
                    let k = choose|k: int| 0 <= k < runs(before).len() && runs(before)[k] == x;
                    if !found && k >= at {
                        assert(runs(self.watches@)[k + 1] == x);
                    } else {
                        assert(runs(self.watches@)[k] == x);
                    }
                }
                assert(runs(self.watches@)[at as int] == given@.run.0);
            }
            assert forall|x: u64| #[trigger]
                self@.watches.dom().contains(x) implies self@.watches[x] == expected[x] by {
                let k = choose|k: int|
                    0 <= k < runs(self.watches@).len() && runs(self.watches@)[k] == x;
                assert(self.watches@[k]@.run.0 == x);
                self.at_place(k);
                if k != at {
                    if !found && k > at {
                        old(self).at_place(k - 1);
                        assert(runs(self.watches@)[at as int] < runs(self.watches@)[k]);
                    } else {
                        old(self).at_place(k);
                        if k < at {
                            assert(runs(self.watches@)[k] < runs(self.watches@)[at as int]);
                        } else {
                            assert(runs(self.watches@)[at as int] < runs(self.watches@)[k]);
                        }
                    }
                }
            }
            assert(self@.watches =~= expected);
        }
    }

    /// Folds one entry in, and says whether it counted. An entry whose
    /// `seq` is not past the highest already applied is ignored — the
    /// same entry heard twice, or a replay overlapping what was already
    /// listened to, changes nothing. A change to a run whose Reserved this
    /// fold never heard has nowhere to land and is dropped; the replay from
    /// 0 is what makes a fold complete.
    pub fn absorb(&mut self, entry: &Entry) -> (r: bool)
        requires
            old(self).wf(),
            entry.change.wf(),
        ensures
            final(self).wf(),
            r == old(self)@.counts(entry@),
            final(self)@ == old(self)@.after(entry@),
    {
        if let Some(applied) = self.applied {
            if entry.seq <= applied {
                return false;
            }
        }
        self.applied = Some(entry.seq);
        assert(self@.watches == old(self)@.watches);
        let change = entry.change.clone();
        match change {
            Change::Reserved { run, feature, repository, branch, base } => {
                self.keep(Watch::reserved(run, feature, repository, branch, base));
            },
            change => {
                if let Some(i) = self.find(change.run()) {
                    let ghost before = *self;
                    let ghost kept = self.watches@;
                    let mut watch = self.watches.remove(i);
                    watch.apply(change);
                    self.watches.insert(i, watch);
                    proof {
                        let now = self.watches@;
                        assert(runs(now) =~= runs(kept)) by {
                            assert forall|k: int| 0 <= k < kept.len() implies runs(now)[k]
                                == runs(kept)[k] by {
                                if k < i {
                                    assert(now[k] == kept[k]);
                                } else if k > i {
                                    assert(now[k] == kept[k]);
                                }
                            }
                        }
                        assert forall|k: int| 0 <= k < now.len() implies (#[trigger] now[k]).wf() by {
                            if k != i {
                                assert(now[k] == kept[k]);
                            }
                        }
                        let expected = before@.watches.insert(
                            change@.of_run().0,
                            before@.watches[change@.of_run().0].after(change@),
                        );
                        assert forall|x: u64| #[trigger]
                            self@.watches.dom().contains(x) implies self@.watches[x]
                            == expected[x] by {
                            let k = choose|k: int| 0 <= k < runs(now).len() && runs(now)[k] == x;
                            assert(now[k]@.run.0 == x);
                            self.at_place(k);
                            before.at_place(k);
                            if k != i {
                                assert(now[k] == kept[k]);
                                if k < i {
                                    assert(runs(now)[k] < runs(now)[i as int]);
                                } else {
                                    assert(runs(now)[i as int] < runs(now)[k]);
                                }
                            }
                        }
                        assert(self@.watches =~= expected);
                    }
                }
            },
        }
        true
    }

    /// The highest `seq` applied — the cursor to resume from — or `None`
    /// before anything has been.
    pub fn applied(&self) -> (r: Option<u64>)
        ensures
            r == self@.applied,
    {
        self.applied
    }

    /// The build of a run, if it was heard of.
    pub fn watch(&self, run: RunId) -> (r: Option<&Watch>)
        requires
            self.wf(),
        ensures
            match r {
                Some(watch) => watch.wf() && self@.watches.dom().contains(run.0) && watch@
                    == self@.watches[run.0],
                None => !self@.watches.dom().contains(run.0),
            },
    {
        match self.find(run) {
            Some(i) => Some(&self.watches[i]),
            None => None,
        }
    }

    /// Every build heard of, oldest first.
    pub fn watches(&self) -> (r: &Vec<Watch>)
        requires
            self.wf(),
        ensures
            rising(runs(r@)),
            forall|run: u64| #[trigger]
                self@.watches.dom().contains(run) == runs(r@).contains(run),
            forall|i: int|
                0 <= i < r@.len() ==> (#[trigger] r@[i]).wf() && r@[i]@
                    == self@.watches[r@[i]@.run.0],
    {
        proof {
            assert forall|i: int| 0 <= i < self.watches@.len() implies (
            #[trigger] self.watches@[i]).wf() && self.watches@[i]@
                == self@.watches[self.watches@[i]@.run.0] by {
                self.at_place(i);
            }
        }
        &self.watches
    }
}

/// The views of a row of entries.
pub open spec fn entry_views(entries: Seq<Entry>) -> Seq<EntryView> {
    entries.map_values(|entry: Entry| entry@)
}

/// Whether the entries are numbered from 0 on, none missing.
pub open spec fn dense(entries: Seq<EntryView>) -> bool {
    forall|i: int| 0 <= i < entries.len() ==> (#[trigger] entries[i]).seq == i
}

/// The log of feature-build changes: where a `seq` and an `at` are
/// assigned, and the only place either is. Readers replay with
/// [`since`](Self::since) and follow with [`wait_after`](Self::wait_after).
/// A cursor is a count: how many entries the caller has applied, which —
/// `seq` being dense from 0 — is also the next `seq` it wants.
///
/// The log never calls anyone: delivery is a reader's, and a reader that
/// advances its own cursor hears every entry in `seq` order by
/// construction. A host that records from several threads keeps its log
/// behind a lock.
pub struct Log<C> {
    entries: Vec<Entry>,
    /// Unix milliseconds now. Injected, so a test asserts the stamps it
    /// chose without sleeping.
    clock: C,
}

impl<C> View for Log<C> {
    type V = Seq<EntryView>;

    closed spec fn view(&self) -> Seq<EntryView> {
        entry_views(self.entries@)
    }
}

impl<C: Fn() -> u64> Log<C> {
    /// The clock the entries are stamped by.
    pub closed spec fn stamped_by(&self) -> C {
        self.clock
    }

    /// Whether the entries are numbered from 0 on, none missing.
    pub closed spec fn wf(&self) -> bool {
        &&& dense(self@)
        &&& forall|i: int| 0 <= i < self.entries@.len() ==> (#[trigger] self.entries@[i]).change.wf()
    }

    /// An empty log stamping entries with whatever `clock` answers.
    pub fn with_clock(clock: C) -> (r: Self)
        ensures
            r.wf(),
            r@ == Seq::<EntryView>::empty(),
            r.stamped_by() == clock,
    {
        let r = Log { entries: Vec::new(), clock };
        assert(r@ =~= Seq::<EntryView>::empty());
        r
    }

    /// Records `change`: the next `seq`, and the clock's stamp.
    pub fn record(&mut self, change: Change)
        requires
            old(self).wf(),
            change.wf(),
            call_requires(old(self).stamped_by(), ()),
        ensures
            final(self).wf(),
            final(self).stamped_by() == old(self).stamped_by(),
            exists|at: u64| #[trigger]
                call_ensures(old(self).stamped_by(), (), at) && final(self)@ == old(self)@.push(
                    EntryView { seq: old(self)@.len() as u64, at, change: change@ },
                ),
    {
        let at: u64 = (self.clock)();
        let seq: u64 = self.entries.len() as u64;
        let ghost before = self.entries@;
        let ghost given = change;
        self.entries.push(Entry { seq, at, change });
        proof {
            let expected = entry_views(before).push(
                EntryView { seq, at, change: given@ },
            );
            assert(self@ =~= expected);
            assert forall|i: int| 0 <= i < self@.len() implies (#[trigger] self@[i]).seq == i by {
                if i < before.len() {
                    assert(self@[i] == entry_views(before)[i]);
                }
            }
            assert forall|i: int| 0 <= i < self.entries@.len() implies (
            #[trigger] self.entries@[i]).change.wf() by {
                if i < before.len() {
                    assert(self.entries@[i] == before[i]);
                }
            }
            assert(call_ensures(old(self).stamped_by(), (), at));
        }
    }

    /// Every entry from `cursor` on: `since(0)` is the whole log, the
    /// replay a watcher attaches with.
    pub fn since(&self, cursor: u64) -> (r: Vec<Entry>)
        requires
            self.wf(),
        ensures
            entry_views(r@) == (if cursor <= self@.len() {
                self@.skip(cursor as int)
            } else {
                Seq::empty()
            }),
            forall|i: int| 0 <= i < r@.len() ==> (#[trigger] r@[i]).change.wf(),
    {
        let mut r: Vec<Entry> = Vec::new();
        let total: usize = self.entries.len();
        if cursor >= total as u64 {
            assert(entry_views(r@) =~= Seq::<EntryView>::empty());
            assert(cursor == total ==> self@.skip(cursor as int) =~= Seq::<EntryView>::empty());
            return r;
        }
        let start: usize = cursor as usize;
        let mut i: usize = start;
        assert(entry_views(r@) =~= self@.subrange(start as int, i as int));
        while i < self.entries.len()
            invariant
                start <= i <= self.entries@.len(),
                self.wf(),
                entry_views(r@) == self@.subrange(start as int, i as int),
                forall|k: int| 0 <= k < r@.len() ==> (#[trigger] r@[k]).change.wf(),
            decreases self.entries@.len() - i,
        {
            let ghost shorter = r@;
            r.push(self.entries[i].clone());
            proof {
                assert(entry_views(r@) =~= entry_views(shorter).push(self@[i as int]));
                assert(self@.subrange(start as int, i + 1) =~= self@.subrange(
                    start as int,
                    i as int,
                ).push(self@[i as int]));
            }
            i += 1;
        }
        assert(self@.subrange(start as int, self@.len() as int) =~= self@.skip(cursor as int));
        r
    }

    /// [`since`](Self::since), for a reader that waits: what it is to do,
    /// having waited `waited` milliseconds of the `timeout` it has. The
    /// entries from `cursor` on as soon as there is one, none when the
    /// timeout has passed, and otherwise to wait for a record, for as long
    /// as is left.
    pub fn wait_after(&self, cursor: u64, waited: u64, timeout: u64) -> (r: Polled)
        requires
            self.wf(),
        ensures
            r@ == polled(self@, cursor as nat, waited as nat, timeout as nat),
            r matches Polled::Entries(entries) ==> forall|i: int|
                0 <= i < entries@.len() ==> (#[trigger] entries@[i]).change.wf(),
    {
        let total: usize = self.entries.len();
        if cursor < total as u64 {
            Polled::Entries(self.since(cursor))
        } else if waited >= timeout {
            let none: Vec<Entry> = Vec::new();
            proof {
                assert(entry_views(none@) =~= Seq::empty());
            }
            Polled::Entries(none)
        } else {
            Polled::Wait(timeout - waited)
        }
    }

    /// The log's numbers are its places: dense from 0.
    pub proof fn numbers_are_places(&self)
        requires
            self.wf(),
        ensures
            dense(self@),
    {
    }
}

/// What a reader that waits is to do.
#[derive(Debug, Eq, PartialEq)]
pub enum Polled {
    /// It has its answer: the entries it waited for, or none.
    Entries(Vec<Entry>),
    /// To wait for a record, so many milliseconds at most.
    Wait(u64),
}

/// A [`Polled`] over sequences.
pub enum PolledView {
    Entries(Seq<EntryView>),
    Wait(nat),
}

impl View for Polled {
    type V = PolledView;

    open spec fn view(&self) -> PolledView {
        match self {
            Polled::Entries(entries) => PolledView::Entries(entry_views(entries@)),
            Polled::Wait(left) => PolledView::Wait(*left as nat),
        }
    }
}

/// What a reader that waits is to do: read as soon as there is something
/// past its cursor, give up when its time has passed, and wait otherwise.
pub open spec fn polled(
    log: Seq<EntryView>,
    cursor: nat,
    waited: nat,
    timeout: nat,
) -> PolledView {
    if cursor < log.len() {
        PolledView::Entries(log.skip(cursor as int))
    } else if waited >= timeout {
        PolledView::Entries(Seq::empty())
    } else {
        PolledView::Wait((timeout - waited) as nat)
    }
}

/// What a reader comes to that looks at the log again and again: each look
/// is the log as it then stood, and how long the reader had waited.
pub open spec fn followed(
    looks: Seq<(Seq<EntryView>, nat)>,
    cursor: nat,
    timeout: nat,
) -> Option<Seq<EntryView>>
    decreases looks.len(),
{
    if looks.len() == 0 {
        None
    } else {
        match polled(looks[0].0, cursor, looks[0].1, timeout) {
            PolledView::Entries(entries) => Some(entries),
            PolledView::Wait(_) => followed(looks.drop_first(), cursor, timeout),
        }
    }
}

/// Law: a log that has entries past the cursor when it is asked answers
/// with them at once, whatever the timeout.
pub proof fn what_is_there_is_not_waited_for(
    log: Seq<EntryView>,
    cursor: nat,
    waited: nat,
    timeout: nat,
)
    requires
        cursor < log.len(),
    ensures
        polled(log, cursor, waited, timeout) == PolledView::Entries(log.skip(cursor as int)),
{
}

/// Law: a reader that waited has an empty answer only when the log had not
/// grown past its cursor by the time its timeout had passed; and what it is
/// answered with otherwise begins at its cursor and leaves out none.
pub proof fn a_wait_ends_with_entries_or_in_time(
    looks: Seq<(Seq<EntryView>, nat)>,
    cursor: nat,
    timeout: nat,
)
    requires
        forall|i: int| 0 <= i < looks.len() ==> dense((#[trigger] looks[i]).0),
    ensures
        followed(looks, cursor, timeout) matches Some(entries) ==> exists|k: int|
            {
                &&& 0 <= k < looks.len()
                &&& forall|i: int| 0 <= i < k ==> (#[trigger] looks[i]).0.len() <= cursor
                &&& entries.len() == 0 ==> (#[trigger] looks[k]).0.len() <= cursor && looks[k].1
                    >= timeout
                &&& entries.len() > 0 ==> entries == looks[k].0.skip(cursor as int)
            },
        followed(looks, cursor, timeout) matches Some(entries) ==> forall|i: int|
            0 <= i < entries.len() ==> (#[trigger] entries[i]).seq == cursor + i,
    decreases looks.len(),
{
    if looks.len() > 0 {
        let first = looks[0];
        if polled(first.0, cursor, first.1, timeout) is Wait {
            let rest = looks.drop_first();
            assert forall|i: int| 0 <= i < rest.len() implies dense((#[trigger] rest[i]).0) by {
                assert(rest[i] == looks[i + 1]);
            }
            a_wait_ends_with_entries_or_in_time(rest, cursor, timeout);
            if followed(looks, cursor, timeout) is Some {
                let entries = followed(looks, cursor, timeout)->0;
                let k = choose|k: int|
                    {
                        &&& 0 <= k < rest.len()
                        &&& forall|i: int| 0 <= i < k ==> (#[trigger] rest[i]).0.len() <= cursor
                        &&& entries.len() == 0 ==> (#[trigger] rest[k]).0.len() <= cursor
                            && rest[k].1 >= timeout
                        &&& entries.len() > 0 ==> entries == rest[k].0.skip(cursor as int)
                    };
                assert(rest[k] == looks[k + 1]);
                assert forall|i: int| 0 <= i < k + 1 implies (#[trigger] looks[i]).0.len()
                    <= cursor by {
                    if i > 0 {
                        assert(rest[i - 1] == looks[i]);
                    }
                }
            }
        } else {
            let entries = followed(looks, cursor, timeout)->0;
            assert(looks[0].0.len() > cursor ==> entries == looks[0].0.skip(cursor as int));
            assert forall|i: int| 0 <= i < entries.len() implies (#[trigger] entries[i]).seq
                == cursor + i by {
                assert(dense(looks[0].0));
                assert(looks[0].0[cursor + i].seq == cursor + i);
            }
        }
    }
}

/// An entry heard twice changes nothing the second time.
pub proof fn hearing_twice_is_hearing_once(progress: ProgressView, entry: EntryView)
    ensures
        !progress.after(entry).counts(entry),
        progress.after(entry).after(entry) == progress.after(entry),
{
}

/// A replay of entries no later than the highest applied changes nothing.
pub proof fn a_stale_replay_changes_nothing(progress: ProgressView, entries: Seq<EntryView>)
    requires
        forall|i: int|
            0 <= i < entries.len() ==> (progress.applied matches Some(applied) && (
            #[trigger] entries[i]).seq <= applied),
    ensures
        progress.after_all(entries) == progress,
    decreases entries.len(),
{
    if entries.len() > 0 {
        assert forall|i: int| 0 <= i < entries.drop_last().len() implies (
        progress.applied matches Some(applied) && (#[trigger] entries.drop_last()[i]).seq
            <= applied) by {
            assert(entries.drop_last()[i] == entries[i]);
        }
        a_stale_replay_changes_nothing(progress, entries.drop_last());
        assert(entries[entries.len() - 1] == entries.last());
    }
}

proof fn absorbing_in_two(progress: ProgressView, one: Seq<EntryView>, two: Seq<EntryView>)
    ensures
        progress.after_all(one + two) == progress.after_all(one).after_all(two),
    decreases two.len(),
{
    if two.len() == 0 {
        assert(one + two =~= one);
    } else {
        assert((one + two).drop_last() =~= one + two.drop_last());
        absorbing_in_two(progress, one, two.drop_last());
    }
}

pub(crate) proof fn a_replay_reaches_its_end(log: Seq<EntryView>, n: int)
    requires
        dense(log),
        0 <= n <= log.len(),
        log.len() <= u64::MAX,
    ensures
        n == 0 ==> ProgressView::nothing().after_all(log.take(n)).applied is None,
        n > 0 ==> ProgressView::nothing().after_all(log.take(n)).applied == Some((n - 1) as u64),
    decreases n,
{
    if n > 0 {
        a_replay_reaches_its_end(log, n - 1);
        assert(log.take(n).drop_last() =~= log.take(n - 1));
        assert(log.take(n).last() == log[n - 1]);
    }
}

/// Attaching is safe: a watcher that replays the log's first `heard`
/// entries and then listens from any cursor no later than that has the
/// picture of one that heard every entry once.
pub proof fn a_replay_and_what_follows_is_the_whole(log: Seq<EntryView>, heard: int, cursor: int)
    requires
        dense(log),
        log.len() <= u64::MAX,
        0 <= cursor <= heard <= log.len(),
    ensures
        ProgressView::nothing().after_all(log.take(heard)).after_all(log.skip(cursor))
            == ProgressView::nothing().after_all(log),
{
    let none = ProgressView::nothing();
    let replayed = none.after_all(log.take(heard));
    a_replay_reaches_its_end(log, heard);
    let overlap = log.subrange(cursor, heard);
    let rest = log.skip(heard);
    assert(log.skip(cursor) =~= overlap + rest);
    absorbing_in_two(replayed, overlap, rest);
    assert forall|i: int| 0 <= i < overlap.len() implies (replayed.applied matches Some(applied)
        && (#[trigger] overlap[i]).seq <= applied) by {
        assert(overlap[i] == log[cursor + i]);
    }
    a_stale_replay_changes_nothing(replayed, overlap);
    absorbing_in_two(none, log.take(heard), rest);
    assert(log.take(heard) + rest =~= log);
}

/// Every issue of work is counted once: the parts add up to the total.
pub proof fn the_counts_add_up(watch: WatchView, counts: Counts)
    requires
        counted(watch, counts),
        watch.states.dom().finite(),
    ensures
        counts.merged + counts.running + counts.merging + counts.failed + counts.skipped
            + counts.ready + counts.blocked == counts.total,
{
    let states = watch.states;
    let all = states.dom();
    let merged = |id: Seq<char>| states[id] is Merged;
    let running = |id: Seq<char>| states[id] is Running;
    let merging = |id: Seq<char>| states[id] is Merging;
    let failed = |id: Seq<char>| states[id] is Failed;
    let skipped = |id: Seq<char>| states[id] is Skipped;
    let ready = |id: Seq<char>| states[id] is Waiting && watch.is_ready(id);
    let blocked = |id: Seq<char>| states[id] is Waiting && !watch.is_ready(id);
    let p1 = |id: Seq<char>| !merged(id);
    let p2 = |id: Seq<char>| p1(id) && !running(id);
    let p3 = |id: Seq<char>| p2(id) && !merging(id);
    let p4 = |id: Seq<char>| p3(id) && !failed(id);
    let p5 = |id: Seq<char>| p4(id) && !skipped(id);
    split(all, merged);
    assert(all.filter(|id: Seq<char>| !merged(id)) =~= all.filter(p1));
    split(all.filter(p1), running);
    assert(all.filter(p1).filter(running) =~= all.filter(running));
    assert(all.filter(p1).filter(|id: Seq<char>| !running(id)) =~= all.filter(p2));
    split(all.filter(p2), merging);
    assert(all.filter(p2).filter(merging) =~= all.filter(merging));
    assert(all.filter(p2).filter(|id: Seq<char>| !merging(id)) =~= all.filter(p3));
    split(all.filter(p3), failed);
    assert(all.filter(p3).filter(failed) =~= all.filter(failed));
    assert(all.filter(p3).filter(|id: Seq<char>| !failed(id)) =~= all.filter(p4));
    split(all.filter(p4), skipped);
    assert(all.filter(p4).filter(skipped) =~= all.filter(skipped));
    assert(all.filter(p4).filter(|id: Seq<char>| !skipped(id)) =~= all.filter(p5));
    split(all.filter(p5), ready);
    assert(all.filter(p5).filter(ready) =~= all.filter(ready));
    assert(all.filter(p5).filter(|id: Seq<char>| !ready(id)) =~= all.filter(blocked));
}

proof fn split(all: Set<Seq<char>>, p: spec_fn(Seq<char>) -> bool)
    requires
        all.finite(),
    ensures
        all.filter(p).len() + all.filter(|id: Seq<char>| !p(id)).len() == all.len(),
{
    let with = all.filter(p);
    let without = all.filter(|id: Seq<char>| !p(id));
    assert(with.disjoint(without));
    vstd::set_lib::lemma_set_disjoint_lens(with, without);
    assert(with + without =~= all);
}

} // verus!
