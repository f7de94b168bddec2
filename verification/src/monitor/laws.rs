//! What holds of every build that is watched.

use crate::feature;
use crate::feature::{Issue, Plan, RunId};
use crate::ids;
use crate::monitor::{Change, Counts, Entry, ProgressView, Watch, WatchView};
use crate::text;
use crate::tree;
use vstd::prelude::*;

verus! {

/// The run a change is of.
pub open spec fn run_of(change: Change) -> RunId {
    match change {
        Change::Reserved { run, .. } => run,
        Change::Started { run, .. } => run,
        Change::Moved { run, .. } => run,
        Change::Finished { run } => run,
        Change::Abandoned { run, .. } => run,
    }
}

/// Law: a change is of the run it names.
pub proof fn a_change_is_of_the_run_it_names(change: &Change, r: RunId)
    requires
        call_ensures(Change::run, (change,), r),
    ensures
        r == run_of(*change),
{
}

/// Whether two watches are of one build as it was asked for.
pub open spec fn same_build(a: WatchView, b: WatchView) -> bool {
    a.run == b.run && a.feature == b.feature && a.repository == b.repository && a.branch == b.branch
        && a.base == b.base
}

/// Law: an entry that was already applied changes nothing, and one that was
/// not is of its own run alone: every other build is as it was.
pub proof fn a_change_moves_its_own_build_alone(progress: ProgressView, entry: Entry, other: u64)
    ensures
        ({
            let after = progress.after(entry@);
            let stale = progress.applied is Some && entry.seq <= progress.applied->0;
            &&& stale ==> after == progress
            &&& !stale ==> after.applied == Some(entry.seq)
            &&& other != run_of(entry.change).0 ==> {
                &&& after.watches.dom().contains(other) == progress.watches.dom().contains(other)
                &&& progress.watches.dom().contains(other) ==> after.watches[other]
                    == progress.watches[other]
            }
        }),
{
}

/// Law: a reservation opens a watch on the build as it was asked for:
/// starting, without a plan and without anything in it.
pub proof fn a_reservation_opens_a_watch(progress: ProgressView, entry: Entry)
    requires
        progress.applied is Some ==> entry.seq > progress.applied->0,
        entry.change is Reserved,
    ensures
        ({
            let after = progress.after(entry@);
            let run = entry.change->Reserved_run;
            let watch = after.watches[run.0];
            &&& after.watches.dom().contains(run.0)
            &&& watch.run == run
            &&& watch.feature == entry.change->feature@
            &&& watch.repository == entry.change->repository@
            &&& watch.branch == entry.change->branch@
            &&& watch.base == text::optional(entry.change->base)
            &&& watch.plan is None
            &&& watch.problems.len() == 0
            &&& watch.states.dom() == Set::<Seq<char>>::empty()
            &&& watch.check is None
            &&& watch.stage is Starting
        }),
{
}

/// Law: a watched build is moved by what it hears and by nothing else: a
/// start brings the plan, its problems, the states and the check, and the
/// build is building; a move is of its own issue to its own state; the end
/// is an end, and an abandonment one with its reason.
pub proof fn a_watch_follows_its_build(progress: ProgressView, entry: Entry, id: Seq<char>)
    requires
        progress.applied is Some ==> entry.seq > progress.applied->0,
        progress.watches.dom().contains(run_of(entry.change).0),
        !(entry.change is Reserved),
    ensures
        ({
            let run = run_of(entry.change).0;
            let before = progress.watches[run];
            let after = progress.after(entry@).watches[run];
            &&& progress.after(entry@).watches.dom().contains(run)
            &&& same_build(before, after)
            &&& match entry.change {
                Change::Reserved { .. } => true,
                Change::Started { plan, problems, states, check, .. } => {
                    &&& after.plan == Some(plan@)
                    &&& after.problems == text::views(problems@)
                    &&& after.states == states@
                    &&& after.check == text::optional(check)
                    &&& after.stage is Building
                },
                Change::Moved { issue, state, .. } => {
                    &&& after.plan == before.plan
                    &&& after.problems == before.problems
                    &&& after.check == before.check
                    &&& after.stage == before.stage
                    &&& after.states.dom().contains(issue@)
                    &&& after.states[issue@] == state
                    &&& id != issue@ ==> after.states.dom().contains(id)
                        == before.states.dom().contains(id) && (before.states.dom().contains(id)
                        ==> after.states[id] == before.states[id])
                },
                Change::Finished { .. } => {
                    &&& after.stage is Finished
                    &&& after.states == before.states
                    &&& after.plan == before.plan
                    &&& after.check == before.check
                },
                Change::Abandoned { reason, .. } => {
                    &&& after.stage is Abandoned
                    &&& after.stage->reason == reason@
                    &&& after.states == before.states
                    &&& after.plan == before.plan
                    &&& after.check == before.check
                },
            }
        }),
{
}

/// Law: nothing is made up of a run that nobody reserved.
pub proof fn an_unknown_run_stays_unknown(progress: ProgressView, entry: Entry)
    requires
        !(entry.change is Reserved),
        !progress.watches.dom().contains(run_of(entry.change).0),
    ensures
        progress.after(entry@).watches == progress.watches,
{
}

/// Law: a watch says what it holds, each thing under its own name.
pub proof fn a_watch_says_what_it_holds(
    watch: &Watch,
    run: RunId,
    feature: &feature::IssueId,
    repository: &str,
    branch: &str,
    base: Option<&str>,
    check: Option<&str>,
    title: Option<&str>,
)
    requires
        call_ensures(Watch::run, (watch,), run),
        call_ensures(Watch::feature, (watch,), feature),
        call_ensures(Watch::repository, (watch,), repository),
        call_ensures(Watch::branch, (watch,), branch),
        call_ensures(Watch::base, (watch,), base),
        call_ensures(Watch::check, (watch,), check),
        call_ensures(Watch::title, (watch,), title),
    ensures
        run == watch@.run,
        feature@ == watch@.feature,
        repository@ == watch@.repository,
        branch@ == watch@.branch,
        base is Some <==> watch@.base is Some,
        base is Some ==> (base->0)@ == watch@.base->0,
        check is Some <==> watch@.check is Some,
        check is Some ==> (check->0)@ == watch@.check->0,
        title is Some <==> watch@.plan is Some,
        title is Some ==> (title->0)@ == (watch@.plan->0).tree.value.title@,
{
}

/// Law: a build is live just while something in it runs.
pub proof fn a_build_is_live_while_something_runs(watch: &Watch, r: bool, id: Seq<char>)
    requires
        watch.wf(),
        call_ensures(Watch::live, (watch,), r),
        watch@.states.dom().contains(id),
    ensures
        watch@.states[id] is Running ==> r,
        (forall|other: Seq<char>| #[trigger]
            watch@.states.dom().contains(other) ==> !(watch@.states[other] is Running)) ==> !r,
{
}

/// Law: each count is of the issues in that state: those that wait are
/// ready where the plan says so and blocked where it does not.
pub proof fn each_state_is_counted(
    watch: &Watch,
    r: Counts,
    plan: &Plan,
    done: &ids::IdSet,
    ready: Vec<&Issue>,
)
    requires
        watch.wf(),
        call_ensures(Watch::counts, (watch,), r),
        watch@.plan == Some(plan@),
        forall|id: Seq<char>| #[trigger]
            done@.contains(id) <==> watch@.states.dom().contains(id) && watch@.states[id]
                is Merged,
        call_ensures(Plan::ready, (plan, done), ready),
    ensures
        ({
            let ids = watch@.states.dom();
            let states = watch@.states;
            let first = |id: Seq<char>| feature::named(tree::reached(ready@), id);
            &&& r.merged == ids.filter(|id: Seq<char>| states[id] is Merged).len()
            &&& r.running == ids.filter(|id: Seq<char>| states[id] is Running).len()
            &&& r.merging == ids.filter(|id: Seq<char>| states[id] is Merging).len()
            &&& r.failed == ids.filter(|id: Seq<char>| states[id] is Failed).len()
            &&& r.skipped == ids.filter(|id: Seq<char>| states[id] is Skipped).len()
            &&& r.ready == ids.filter(|id: Seq<char>| states[id] is Waiting && first(id)).len()
            &&& r.blocked == ids.filter(|id: Seq<char>| states[id] is Waiting && !first(id)).len()
            &&& r.total == ids.len()
        }),
{
    let ids = watch@.states.dom();
    let states = watch@.states;
    let first = |id: Seq<char>| feature::named(tree::reached(ready@), id);
    assert(done@ =~= crate::feature::layout::merged_ids(states));
    assert(ids.filter(|id: Seq<char>| states[id] is Merged) =~= ids.filter(
        |id: Seq<char>| watch@.states[id] is Merged,
    ));
    assert(ids.filter(|id: Seq<char>| states[id] is Waiting && first(id)) =~= ids.filter(
        |id: Seq<char>| watch@.states[id] is Waiting && watch@.is_ready(id),
    ));
    assert(ids.filter(|id: Seq<char>| states[id] is Waiting && !first(id)) =~= ids.filter(
        |id: Seq<char>| watch@.states[id] is Waiting && !watch@.is_ready(id),
    ));
}

} // verus!
