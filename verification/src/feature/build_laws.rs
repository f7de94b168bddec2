//! What holds of every build as it goes, and of the record of them all.

use crate::feature;
use crate::feature::layout;
use crate::feature::record;
use crate::feature::record::{Budget, Build, Slot, Step};
use crate::feature::tools;
use crate::feature::tools::{Builds, Entry, Feature, Flight, Reservation};
use crate::feature::{Issue, IssueId, Plan, RunId, State};
use crate::monitor::{Change, ChangeView, Log};
use crate::text;
use vstd::prelude::*;

verus! {

// ----- the budget -----

/// Law: there are four slots; one is claimed just where one is left, and is
/// then one fewer, and a slot that is released is one more.
pub proof fn a_slot_is_claimed_where_one_is_left(
    fresh: Budget,
    budget: &mut Budget,
    slot: Option<Slot>,
)
    requires
        call_ensures(Budget::new, (), fresh),
        call_ensures(Budget::claim, (budget,), slot),
    ensures
        fresh.left() == 4,
        slot is Some <==> old(budget).left() > 0,
        slot is Some ==> final(budget).left() == old(budget).left() - 1,
        slot is None ==> final(budget).left() == 0,
{
}

/// Law: releasing a slot gives back what claiming it took.
pub proof fn a_released_slot_is_free_again(budget: &mut Budget, slot: Slot)
    requires
        old(budget).left() < 4,
        call_ensures(Budget::release, (budget, slot), ()),
    ensures
        final(budget).left() == old(budget).left() + 1,
{
}

// ----- one build -----

/// Whether an issue is under way: being worked on, or waiting to merge.
pub open spec fn is_moving(build: Build, id: Seq<char>) -> bool {
    build@.states.dom().contains(id) && (build@.states[id] is Running || build@.states[id]
        is Merging)
}

/// The issues of a build that are merged.
pub open spec fn merged_in(build: Build) -> Set<Seq<char>> {
    Set::new(|id: Seq<char>| build@.states.dom().contains(id) && build@.states[id] is Merged)
}

/// Law: a build opens with every piece of the plan's work in it and nothing
/// else: each waits, or is skipped from the start, for a reason that names
/// one of its own blockers.
pub proof fn a_build_opens_with_the_plans_work(run: RunId, plan: Plan, r: Build, id: Seq<char>)
    requires
        call_ensures(Build::new, (run, plan), r),
    ensures
        r@.run == run,
        r@.plan == plan@,
        r@.states.dom().contains(id) <==> feature::named(plan@.work_of(Set::empty()), id),
        r@.states.dom().contains(id) ==> r@.states[id] is Waiting || (r@.states[id] is Skipped
            && exists|blocker: Seq<char>|
            #[trigger] feature::blockers_of(plan.blocking@, id).contains(blocker)
                && r@.states[id]->reason@ == "waits on "@ + blocker
                + ", which this build can never settle"@),
{
    let none = Set::<Seq<char>>::empty();
    if r@.states.dom().contains(id) && plan@.is_doomed(id, none, none) {
        a_doomed_issue_is_stuck_on_its_own(plan@, id, none, none);
        let by = record::stuck_on(plan@, id, none, none);
        assert(feature::blockers_of(plan.blocking@, id).contains(by));
    }
}

/// A doomed issue is stuck on one of its own blockers.
proof fn a_doomed_issue_is_stuck_on_its_own(
    plan: feature::PlanView,
    id: Seq<char>,
    done: Set<Seq<char>>,
    lost: Set<Seq<char>>,
)
    requires
        plan.is_doomed(id, done, lost),
    ensures
        feature::blockers_of(plan.blocking, id).contains(record::stuck_on(plan, id, done, lost)),
{
    let blockers = feature::blockers_of(plan.blocking, id);
    let landing = plan.landing(done, lost);
    let work = plan.work_of(done);
    let i = choose|i: int| 0 <= i < work.len() && (#[trigger] work[i]).id@ == id;
    if plan.unstuck(id, done, landing) {
        plan.unstuck_work_lands(i, done, lost, landing);
        assert(landing.contains(id));
    }
    stuck_somewhere(plan, blockers, done, landing);
}

proof fn stuck_somewhere(
    plan: feature::PlanView,
    blockers: Seq<Seq<char>>,
    done: Set<Seq<char>>,
    alive: Set<Seq<char>>,
)
    requires
        exists|i: int|
            0 <= i < blockers.len() && !plan.can_settle(#[trigger] blockers[i], done, alive),
    ensures
        plan.first_stuck(blockers, done, alive) is Some,
        blockers.contains(plan.first_stuck(blockers, done, alive)->0),
    decreases blockers.len(),
{
    if plan.can_settle(blockers[0], done, alive) {
        let i = choose|i: int|
            0 <= i < blockers.len() && !plan.can_settle(#[trigger] blockers[i], done, alive);
        let rest = blockers.drop_first();
        assert(rest[i - 1] == blockers[i]);
        stuck_somewhere(plan, rest, done, alive);
        let by = plan.first_stuck(rest, done, alive)->0;
        let k = choose|k: int| 0 <= k < rest.len() && rest[k] == by;
        assert(blockers[k + 1] == by);
    } else {
        assert(blockers.contains(blockers[0]));
    }
}

/// Law: what can be dispatched is what the plan says is ready, of what
/// still waits, in the plan's order.
pub proof fn the_ready_that_wait_are_dispatched(build: &Build, r: Vec<Issue>, i: int)
    requires
        build.wf(),
        call_ensures(Build::dispatchable, (build,), r),
        0 <= i < r@.len(),
    ensures
        build@.plan.ready_of(merged_in(*build)).contains(r@[i]),
        build@.states.dom().contains(r@[i].id@),
        build@.states[r@[i].id@] is Waiting,
{
    let ready = build@.plan.ready_of(layout::merged_ids(build@.states));
    let waiting = |issue: Issue| build@.is_waiting(issue.id@);
    assert(merged_in(*build) =~= layout::merged_ids(build@.states));
    ready.lemma_filter_pred(waiting, i);
    ready.lemma_filter_contains_rev(waiting, r@[i]);
}

/// Law: everything that is ready and waits can be dispatched.
pub proof fn nothing_ready_is_passed_over(build: &Build, r: Vec<Issue>, issue: Issue)
    requires
        build.wf(),
        call_ensures(Build::dispatchable, (build,), r),
        build@.plan.ready_of(merged_in(*build)).contains(issue),
        build@.states.dom().contains(issue.id@),
        build@.states[issue.id@] is Waiting,
    ensures
        r@.contains(issue),
{
    let ready = build@.plan.ready_of(layout::merged_ids(build@.states));
    let waiting = |issue: Issue| build@.is_waiting(issue.id@);
    assert(merged_in(*build) =~= layout::merged_ids(build@.states));
    let k = choose|k: int| 0 <= k < ready.len() && ready[k] == issue;
    ready.lemma_filter_contains(waiting, k);
}

/// Law: a build is finished just when nothing is under way and nothing can
/// be dispatched; its next step is then to finish, else to dispatch where
/// it can, else to wait.
pub proof fn a_build_goes_on_while_it_can(
    build: &Build,
    finished: bool,
    ready: Vec<Issue>,
    step: Step,
    id: Seq<char>,
)
    requires
        build.wf(),
        call_ensures(Build::finished, (build,), finished),
        call_ensures(Build::dispatchable, (build,), ready),
        call_ensures(Build::step, (build,), step),
    ensures
        is_moving(*build, id) || ready@.len() > 0 ==> !finished,
        ready@.len() == 0 && (forall|other: Seq<char>| !(#[trigger] is_moving(*build, other)))
            ==> finished,
        step == (if finished {
            Step::Finish
        } else if ready@.len() > 0 {
            Step::Dispatch
        } else {
            Step::Wait
        }),
{
    if is_moving(*build, id) {
        assert(build@.is_underway(id));
    }
    if forall|other: Seq<char>| !(#[trigger] is_moving(*build, other)) {
        assert forall|other: Seq<char>| !(#[trigger] build@.is_underway(other)) by {
            assert(!is_moving(*build, other));
        }
    }
}

/// Whether a build moved one issue to a state, and is otherwise as it was.
pub open spec fn moves_one(before: Build, after: Build, id: Seq<char>, state: State) -> bool {
    &&& after@.run == before@.run
    &&& after@.plan == before@.plan
    &&& after@.problems == before@.problems
    &&& after@.states.dom() == before@.states.dom().insert(id)
    &&& after@.states[id] == state
    &&& forall|other: Seq<char>|
        other != id && #[trigger] before@.states.dom().contains(other) ==> after@.states[other]
            == before@.states[other]
}

/// Law: writing a state moves that issue to that state and no other; and
/// the one thing it adds to the log is that this build moved it there.
pub proof fn a_state_is_written_and_told<C: Fn() -> u64>(
    build: &mut Build,
    log: &mut Log<C>,
    issue: &IssueId,
    state: State,
)
    requires
        call_ensures(Build::set::<C>, (build, log, issue, state), ()),
    ensures
        moves_one(*old(build), *final(build), issue@, state),
        final(log)@.len() == old(log)@.len() + 1,
        final(log)@.take(old(log)@.len() as int) == old(log)@,
        final(log)@.last().change == (ChangeView::Moved {
            run: old(build)@.run,
            issue: issue@,
            state,
        }),
{
    let before = record::changes(old(log)@);
    let after = record::changes(final(log)@);
    assert(before.len() == old(log)@.len());
    assert(after.len() == final(log)@.len());
    let n = old(log)@.len() as int;
    assert(after[n] == final(log)@[n].change);
}

/// Law: what is dispatched is the first that can be, and is then running;
/// nothing is dispatched just where nothing can be.
pub proof fn the_first_that_can_is_dispatched<C: Fn() -> u64>(
    build: &mut Build,
    log: &mut Log<C>,
    r: Option<Issue>,
)
    requires
        call_ensures(Build::dispatch::<C>, (build, log), r),
    ensures
        r is None <==> old(build)@.dispatchable().len() == 0,
        r is Some ==> r->0 == old(build)@.dispatchable()[0] && moves_one(
            *old(build),
            *final(build),
            (r->0).id@,
            State::Running,
        ),
        r is None ==> *final(build) == *old(build),
{
}

/// Law: an issue that landed is merged, as the commit and with the
/// judgement it landed with, and nothing else moves; one that did not is
/// failed, with its report, and of the others only those move that waited,
/// and those are skipped.
pub proof fn a_journey_ends_as_it_went<C: Fn() -> u64>(
    build: &mut Build,
    log: &mut Log<C>,
    issue: &IssueId,
    landed: Result<(String, bool), String>,
    other: Seq<char>,
)
    requires
        call_ensures(Build::conclude::<C>, (build, log, issue, landed), ()),
        other != issue@,
        old(build)@.states.dom().contains(other),
    ensures
        final(build)@.states.dom().contains(issue@),
        landed is Ok ==> final(build)@.states[issue@] == (State::Merged {
            commit: (landed->Ok_0).0,
            checked: (landed->Ok_0).1,
        }) && final(build)@.states[other] == old(build)@.states[other],
        landed is Err ==> final(build)@.states[issue@] == (State::Failed {
            report: landed->Err_0,
        }),
        final(build)@.states[other] != old(build)@.states[other] ==> old(build)@.states[other]
            is Waiting && final(build)@.states[other] is Skipped,
        final(build)@.run == old(build)@.run,
        final(build)@.plan == old(build)@.plan,
{
    if landed is Err {
        let failed = old(build)@.moved(issue@, State::Failed { report: landed->Err_0 });
        assert(failed.states.dom().contains(issue@));
        assert(failed.states.dom().contains(other));
        assert(!failed.is_waiting(issue@));
    }
}

/// Law: a failure dooms what can no longer land, and only that: each issue
/// that waited is skipped just when the plan, with what is merged and what
/// is lost, says that it is doomed.
pub proof fn a_failure_skips_what_it_dooms<C: Fn() -> u64>(
    build: &mut Build,
    log: &mut Log<C>,
    issue: &IssueId,
    report: String,
    other: Seq<char>,
)
    requires
        call_ensures(Build::fail::<C>, (build, log, issue, report), ()),
        other != issue@,
        old(build)@.states.dom().contains(other),
        old(build)@.states[other] is Waiting,
    ensures
        ({
            let done = merged_in(*old(build)).remove(issue@);
            let lost = Set::new(
                |id: Seq<char>|
                    id == issue@ || (old(build)@.states.dom().contains(id) && (
                    old(build)@.states[id] is Failed || old(build)@.states[id] is Skipped)),
            );
            let doomed = old(build)@.plan.is_doomed(other, done, lost);
            &&& doomed ==> final(build)@.states[other] is Skipped
            &&& !doomed ==> final(build)@.states[other] is Waiting
        }),
{
    let failed = old(build)@.moved(issue@, State::Failed { report });
    let done = merged_in(*old(build)).remove(issue@);
    let lost = Set::new(
        |id: Seq<char>|
            id == issue@ || (old(build)@.states.dom().contains(id) && (old(build)@.states[id]
                is Failed || old(build)@.states[id] is Skipped)),
    );
    assert(layout::merged_ids(failed.states) =~= done);
    assert(record::lost_ids(failed.states) =~= lost);
    assert(failed.states.dom().contains(other));
    assert(failed.is_waiting(other));
}

/// Law: a build is told to have started with its own run, plan and states,
/// and under the check it is given.
pub proof fn a_build_starts_as_itself(build: &Build, check: Option<String>, r: Change)
    requires
        build.wf(),
        call_ensures(Build::started, (build, check), r),
    ensures
        r is Started,
        r->Started_run == build@.run,
        r->plan@ == build@.plan,
        r->states@ == build@.states,
        text::optional(r->check) == text::optional(check),
        r->problems@.len() == build@.problems.len(),
{
    assert(text::views(r->problems@).len() == r->problems@.len());
}

// ----- the record of them all -----

/// Law: a reservation is for the feature, the repository and the branch it
/// was made for, under a run nobody had; every other build is as it was;
/// and the log says that it was reserved.
pub proof fn a_reservation_is_a_run_of_its_own<C: Fn() -> u64>(
    builds: &mut Builds,
    log: &mut Log<C>,
    feature: Feature,
    repository: String,
    branch: String,
    base: Option<String>,
    r: Reservation,
)
    requires
        old(builds).wf(),
        call_ensures(
            Builds::reserve::<C>,
            (builds, log, feature, repository, branch, base),
            r,
        ),
    ensures
        forall|i: int|
            0 <= i < old(builds).kept().len() ==> (#[trigger] old(builds).kept()[i]).0 != r.id(),
        final(builds).kept().len() == old(builds).kept().len() + 1,
        final(builds).kept().drop_last() == old(builds).kept(),
        final(builds).kept().last().0 == r.id(),
        final(builds).kept().last().1 is Starting,
        final(builds).kept().last().1->feature == feature,
        final(builds).kept().last().1->repository == repository,
        final(builds).kept().last().1->branch == branch,
        final(log)@.len() == old(log)@.len() + 1,
        final(log)@.last().change == (ChangeView::Reserved {
            run: r.id(),
            feature: feature.0@,
            repository: repository@,
            branch: branch@,
            base: text::optional(base),
        }),
{
    assert(final(builds).kept().drop_last() =~= old(builds).kept());
    let before = record::changes(old(log)@);
    let after = record::changes(final(log)@);
    assert(before.len() == old(log)@.len());
    assert(after.len() == final(log)@.len());
    let n = old(log)@.len() as int;
    assert(after[n] == final(log)@[n].change);
}

/// Law: a launch that went well fills its own reservation with its flight;
/// one that did not is gone, and the log says why; no other build is
/// touched either way.
pub proof fn a_launch_fills_its_own_reservation<C: Fn() -> u64>(
    builds: &mut Builds,
    log: &mut Log<C>,
    reservation: Reservation,
    launched: Result<Flight, String>,
    r: Result<RunId, String>,
    other: (RunId, Entry),
)
    requires
        old(builds).wf(),
        call_ensures(Builds::fill_with::<C>, (builds, log, reservation, launched), r),
        other.0 != reservation.id(),
        old(builds).kept().contains(other),
    ensures
        final(builds).kept().contains(other),
        r is Ok <==> launched is Ok,
        r is Ok ==> r->Ok_0 == reservation.id() && final(builds).kept().contains(
            (reservation.id(), Entry::Flight(launched->Ok_0)),
        ) && final(log)@ == old(log)@,
        r is Err ==> r->Err_0 == launched->Err_0 && final(log)@.len() == old(log)@.len() + 1
            && final(log)@.last().change == (ChangeView::Abandoned {
            run: reservation.id(),
            reason: launched->Err_0@,
        }),
        r is Err ==> forall|i: int|
            0 <= i < final(builds).kept().len() ==> (#[trigger] final(builds).kept()[i]).0
                != reservation.id(),
{
    let kept = old(builds).kept();
    let now = final(builds).kept();
    let o = choose|o: int| 0 <= o < kept.len() && kept[o] == other;
    if launched is Ok {
        let i = choose|i: int|
            0 <= i < kept.len() && (#[trigger] kept[i]).0 == reservation.id() && now == kept.update(
                i,
                (reservation.id(), Entry::Flight(launched->Ok_0)),
            );
        assert(now[i] == (reservation.id(), Entry::Flight(launched->Ok_0)));
        assert(now[o] == other);
    } else {
        tools::releasing_keeps_the_rest(kept, old(builds).upcoming(), reservation.id());
        assert(kept[o].0 != reservation.id());
        let before = record::changes(old(log)@);
        let after = record::changes(final(log)@);
        assert(before.len() == old(log)@.len());
        assert(after.len() == final(log)@.len());
        let n = old(log)@.len() as int;
        assert(after[n] == final(log)@[n].change);
    }
}

/// Law: the runs are those of the builds that are kept, in their order.
pub proof fn every_build_is_listed(builds: &Builds, r: Vec<RunId>)
    requires
        call_ensures(Builds::runs, (builds,), r),
    ensures
        r@.len() == builds.kept().len(),
        forall|i: int| 0 <= i < r@.len() ==> #[trigger] r@[i] == builds.kept()[i].0,
{
}

} // verus!
