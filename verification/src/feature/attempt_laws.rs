//! What holds of every attempt at an issue, and of every launch of a
//! build, whatever the deeds they ask for come to.

use crate::agent::Exit;
use crate::chat::{Answer, Ask};
use crate::check;
use crate::check::Check;
use crate::feature::attempt;
use crate::feature::attempt::{Attempt, Attempting};
use crate::feature::landing;
use crate::feature::record;
use crate::feature::starting;
use crate::feature::starting::{Launching, Starting};
use crate::feature::tools;
use crate::feature::tools::Start;
use crate::feature::Issue;
use crate::job;
use crate::job::{Commits, Order, Phase, Workspace};
use crate::text;
use vstd::prelude::*;

verus! {

// ----- judging -----

/// Whether an Agent did its work: it ended well, its branch moved, and it
/// left nothing uncommitted.
pub open spec fn is_sound(phase: Phase, commits: Option<Commits>) -> bool {
    &&& phase == Phase::Finished(Exit::Code(0))
    &&& commits is Some
    &&& (commits->0).advanced
    &&& (commits->0).clean
}

/// Law: work is accepted just when it is sound; a run that was lost is told
/// in its own words, and one that ended badly with the code or the signal
/// it ended with.
pub proof fn only_sound_work_is_accepted(
    phase: &Phase,
    commits: &Option<Commits>,
    r: Result<(), String>,
)
    requires
        call_ensures(landing::judge, (phase, commits), r),
    ensures
        r is Ok <==> is_sound(*phase, *commits),
        *phase is Lost ==> r->Err_0@ == phase->Lost_0@,
        *phase is Finished && phase->Finished_0 is Code && phase->Finished_0->Code_0 != 0
            ==> r->Err_0@ == "the Agent exited with code "@ + text::signed_decimal(
            phase->Finished_0->Code_0 as int,
        ),
        *phase is Finished && phase->Finished_0 is Signal ==> r->Err_0@
            == "the Agent was killed by signal "@ + text::signed_decimal(
            phase->Finished_0->Signal_0 as int,
        ),
        *phase == Phase::Finished(Exit::Code(0)) && *commits is Some && (commits->0).advanced && !(
        commits->0).clean && (commits->0).kept is Some ==> r->Err_0@
            == "the Agent left uncommitted work at "@ + ((commits->0).kept->0)@,
{
}

/// Law: an issue is ordered in the repository, on a branch of its own named
/// by its id, from the tip it was given, with instructions that name the
/// issue and its title.
pub proof fn an_issue_is_ordered_on_its_own_branch(
    issue: &Issue,
    repository: &str,
    tip: &str,
    order: Order,
)
    requires
        call_ensures(landing::order, (issue, repository, tip), order),
    ensures
        order.repository@ == repository@,
        order.branch@ == "issue/"@ + issue.id@,
        order.base is Some,
        (order.base->0)@ == tip@,
        order.prompt@ == "Implement issue "@ + issue.id@ + ": "@ + issue.title@
            + "\n\nWrite tests covering the work, and make them pass."@,
{
}

/// Law: two issues are never ordered on one branch.
pub proof fn branches_of_issues_differ(
    one: &Issue,
    other: &Issue,
    repository: &str,
    tip: &str,
    a: Order,
    b: Order,
)
    requires
        call_ensures(landing::order, (one, repository, tip), a),
        call_ensures(landing::order, (other, repository, tip), b),
        one.id@ != other.id@,
    ensures
        a.branch@ != b.branch@,
{
    if a.branch@ == b.branch@ {
        let n = "issue/"@.len() as int;
        assert(a.branch@.skip(n) =~= one.id@);
        assert(b.branch@.skip(n) =~= other.id@);
    }
}

/// Law: a worker that panicked is told in its own words, where there are
/// any.
pub proof fn a_panic_is_told_in_its_words(words: &str, r: String)
    requires
        call_ensures(landing::panicked, (Some(words),), r),
    ensures
        r@ == "the worker panicked: "@ + words@,
{
}

// ----- the attempt -----

/// One step of an attempt: where it stood, what it asked to be done, and
/// what came of that.
pub type Step = (Attempt, attempt::Deed, attempt::Heard);

/// Whether an attempt at an issue went by these steps to its end.
pub open spec fn attempted_by(
    issue: &Issue,
    repository: &str,
    steps: Seq<Step>,
    end: Attempting,
) -> bool {
    &&& steps.len() > 0
    &&& call_ensures(attempt::attempt, (issue, repository), steps[0].0)
    &&& forall|i: int|
        0 <= i < steps.len() ==> call_ensures(
            Attempt::deed,
            (&(#[trigger] steps[i]).0,),
            steps[i].1,
        ) && steps[i].0@.expects(steps[i].2@)
    &&& forall|i: int|
        0 <= i < steps.len() - 1 ==> call_ensures(
            Attempt::next,
            ((#[trigger] steps[i]).0, steps[i].2),
            Attempting::Do(steps[i + 1].0),
        )
    &&& call_ensures(Attempt::next, (steps.last().0, steps.last().2), end)
}

/// The tip an attempt was cut from.
pub open spec fn tip_of(steps: Seq<Step>) -> Seq<char> {
    steps[0].2->Git_0->Ok_0@
}

/// The workspace an attempt was given.
pub open spec fn workspace_of(steps: Seq<Step>) -> Workspace {
    steps[2].2->Provisioned_0->Ok_0
}

spec fn order_of(issue: Issue, repository: Seq<char>, steps: Seq<Step>) -> attempt::OrderView {
    attempt::OrderView {
        prompt: record::briefed(issue),
        repository,
        branch: "issue/"@ + issue.id@,
        base: Some(tip_of(steps)),
    }
}

spec fn reached(issue: Issue, repository: Seq<char>, steps: Seq<Step>, i: int) -> bool {
    let order = order_of(issue, repository, steps);
    let tipped = steps[0].2 is Git && steps[0].2->Git_0 is Ok;
    let provisioned = tipped && steps[2].2 is Provisioned && steps[2].2->Provisioned_0 is Ok;
    let manned = provisioned && steps[3].2 is Manned && steps[3].2->Manned_0 is Ok;
    let ran = manned && steps[4].2 is Ran && is_sound(
        steps[4].2->phase,
        steps[4].2->commits,
    );
    match steps[i].0@ {
        attempt::PlaceView::Tipping { prompt, id, repository: r } => i == 0 && prompt
            == record::briefed(issue) && id == issue.id@ && r == repository,
        attempt::PlaceView::Clearing { order: o } => i == 1 && tipped && o == order,
        attempt::PlaceView::Provisioning { order: o } => i == 2 && tipped && o == order,
        attempt::PlaceView::Manning { order: o, workspace } => i == 3 && provisioned && o == order
            && workspace == workspace_of(steps)@,
        attempt::PlaceView::Abandoning { workspace, words } => i == 4 && provisioned && steps[3].2
            is Manned && steps[3].2->Manned_0 is Err && workspace == workspace_of(steps)@ && words
            == steps[3].2->Manned_0->Err_0@,
        attempt::PlaceView::Running { branch } => i == 4 && manned && branch == workspace_of(
            steps,
        ).branch@,
        attempt::PlaceView::Handing { branch } => i == 5 && ran && branch == workspace_of(
            steps,
        ).branch@,
        attempt::PlaceView::Merging { branch } => i == 6 && ran && branch == workspace_of(
            steps,
        ).branch@,
    }
}

proof fn steps_are_reached(
    issue: &Issue,
    repository: &str,
    steps: Seq<Step>,
    end: Attempting,
    i: int,
)
    requires
        attempted_by(issue, repository, steps, end),
        0 <= i < steps.len(),
    ensures
        reached(*issue, repository@, steps, i),
        steps[i].1@ == steps[i].0@.deed(),
        steps[i].0@.expects(steps[i].2@),
    decreases i,
{
    let here = steps[i];
    assert(call_ensures(Attempt::deed, (&here.0,), here.1));
    assert(here.0@.expects(here.2@));
    if i > 0 {
        steps_are_reached(issue, repository, steps, end, i - 1);
        let last = steps[i - 1];
        assert(call_ensures(Attempt::next, (last.0, last.2), Attempting::Do(steps[i - 1 + 1].0)));
        assert(last.0@.went(last.2@) == attempt::AttemptingView::Do(here.0@));
    }
}

proof fn all_are_reached(issue: &Issue, repository: &str, steps: Seq<Step>, end: Attempting)
    requires
        attempted_by(issue, repository, steps, end),
    ensures
        forall|i: int|
            0 <= i < steps.len() ==> reached(*issue, repository@, steps, i) && (
            #[trigger] steps[i]).1@ == steps[i].0@.deed() && steps[i].0@.expects(steps[i].2@),
{
    assert forall|i: int| 0 <= i < steps.len() implies reached(*issue, repository@, steps, i) && (
    #[trigger] steps[i]).1@ == steps[i].0@.deed() && steps[i].0@.expects(steps[i].2@) by {
        steps_are_reached(issue, repository, steps, end, i);
    }
}

/// Law: what an attempt lands is the issue's own: a workspace was
/// provisioned on the issue's branch, from the settled tip as it stood; an
/// Agent was run in that workspace and did sound work; the slot was handed
/// over; and then the workspace's branch was merged, and landed as the
/// commit and with the judgement that the attempt ends with.
pub proof fn an_attempt_lands_the_work_of_its_agent(
    issue: &Issue,
    repository: &str,
    steps: Seq<Step>,
    end: Attempting,
)
    requires
        attempted_by(issue, repository, steps, end),
        end is Ended,
        end->Ended_0 is Ok,
    ensures
        steps.len() == 7,
        steps[0].1 is Tip,
        steps[0].2->Git_0 is Ok,
        steps[1].1 is Git,
        text::views(steps[1].1->Git_0@) == seq![
            "-C"@,
            repository@,
            "branch"@,
            "-D"@,
            "issue/"@ + issue.id@,
        ],
        steps[2].1 is Provision,
        steps[2].1->Provision_0.repository@ == repository@,
        steps[2].1->Provision_0.branch@ == "issue/"@ + issue.id@,
        steps[2].1->Provision_0.base is Some,
        (steps[2].1->Provision_0.base->0)@ == tip_of(steps),
        steps[2].2->Provisioned_0 is Ok,
        steps[3].1 is Man,
        steps[3].1->workspace@ == workspace_of(steps)@,
        steps[3].2->Manned_0 is Ok,
        steps[4].1 is Run,
        is_sound(steps[4].2->phase, steps[4].2->commits),
        steps[5].1 is HandOver,
        steps[6].1 is Merge,
        steps[6].1->Merge_0@ == workspace_of(steps).branch@,
        steps[6].2->Merged_0 is Ok,
        steps[6].2->Merged_0->Ok_0 is Merged,
        (end->Ended_0->Ok_0).0@ == steps[6].2->Merged_0->Ok_0->commit@,
        (end->Ended_0->Ok_0).1 == steps[6].2->Merged_0->Ok_0->checked,
{
    all_are_reached(issue, repository, steps, end);
    let last = steps[steps.len() - 1];
    assert(last.0@.went(last.2@) == end@);
    assert(last.0@ is Merging);
    assert(steps[0].0@ is Tipping);
    assert(steps[1].0@ is Clearing);
    assert(steps[2].0@ is Provisioning);
    assert(steps[3].0@ is Manning);
    assert(steps[4].0@ is Running);
    assert(steps[5].0@ is Handing);
}

/// Law: the Agent of an attempt is briefed on its own branch with the
/// issue's own instructions.
pub proof fn an_agent_is_briefed_on_its_issue(
    issue: &Issue,
    repository: &str,
    steps: Seq<Step>,
    end: Attempting,
    i: int,
)
    requires
        attempted_by(issue, repository, steps, end),
        0 <= i < steps.len(),
        steps[i].1 is Man,
    ensures
        steps[i].1->workspace@ == workspace_of(steps)@,
        exists|preamble: Seq<char>|
            steps[i].1->brief@ == #[trigger] (preamble + "\n\nBranch: "@) + workspace_of(
                steps,
            ).branch@ + "\n\n"@ + ("Implement issue "@ + issue.id@ + ": "@ + issue.title@
                + "\n\nWrite tests covering the work, and make them pass."@),
{
    steps_are_reached(issue, repository, steps, end, i);
    assert(steps[i].0@ is Manning);
    assert(steps[i].1->brief@ == (job::PREAMBLE@ + "\n\nBranch: "@) + workspace_of(steps).branch@
        + "\n\n"@ + ("Implement issue "@ + issue.id@ + ": "@ + issue.title@
        + "\n\nWrite tests covering the work, and make them pass."@));
}

/// Law: an attempt merges nothing but sound work, and only after its slot
/// was handed over.
pub proof fn nothing_unsound_is_merged(
    issue: &Issue,
    repository: &str,
    steps: Seq<Step>,
    end: Attempting,
    i: int,
)
    requires
        attempted_by(issue, repository, steps, end),
        0 <= i < steps.len(),
        steps[i].1 is Merge,
    ensures
        i == 6,
        steps[4].1 is Run,
        is_sound(steps[4].2->phase, steps[4].2->commits),
        steps[5].1 is HandOver,
{
    all_are_reached(issue, repository, steps, end);
    assert(steps[i].0@ is Merging);
    assert(steps[4].0@ is Running);
    assert(steps[5].0@ is Handing);
}

/// Law: a workspace whose Agent never started is abandoned, that workspace
/// and no other, and the attempt ends in the words of the failure.
pub proof fn a_workspace_nobody_works_in_is_abandoned(
    issue: &Issue,
    repository: &str,
    steps: Seq<Step>,
    end: Attempting,
)
    requires
        attempted_by(issue, repository, steps, end),
        end is Ended,
        steps.len() > 3,
        steps[3].2->Manned_0 is Err,
    ensures
        steps.len() == 5,
        steps[4].1 is Abandon,
        steps[4].1->Abandon_0@ == workspace_of(steps)@,
        end->Ended_0 is Err,
        end->Ended_0->Err_0@ == steps[3].2->Manned_0->Err_0@,
{
    all_are_reached(issue, repository, steps, end);
    let n = steps.len() - 1;
    let last = steps[n];
    assert(last.0@.went(last.2@) == end@);
    assert(steps[3].0@ is Manning);
    if n == 3 {
        assert(steps[3].2@ == attempt::HeardView::Manned(Err(steps[3].2->Manned_0->Err_0@)));
    } else {
        assert(steps[4].0@ is Abandoning);
        if n > 4 {
            let fourth = steps[4];
            assert(call_ensures(
                Attempt::next,
                (fourth.0, fourth.2),
                Attempting::Do(steps[5].0),
            ));
        }
    }
}

// ----- the launch -----

/// One step of a launch.
pub type Stage = (Launching, starting::Deed, starting::Heard);

/// Whether a launch went by these steps to its end.
pub open spec fn launched_by(start: Start, steps: Seq<Stage>, end: Starting) -> bool {
    &&& steps.len() > 0
    &&& call_ensures(starting::launch, (start,), Starting::Do(steps[0].0))
    &&& forall|i: int|
        0 <= i < steps.len() ==> call_ensures(
            Launching::deed,
            (&(#[trigger] steps[i]).0,),
            steps[i].1,
        ) && steps[i].0@.expects(steps[i].2@)
    &&& forall|i: int|
        0 <= i < steps.len() - 1 ==> call_ensures(
            Launching::next,
            ((#[trigger] steps[i]).0, steps[i].2),
            Starting::Do(steps[i + 1].0),
        )
    &&& call_ensures(Launching::next, (steps.last().0, steps.last().2), end)
}

/// How many steps a launch takes to its reservation: one more where the
/// base has to be asked for.
pub open spec fn before_reserving(start: Start) -> int {
    if start.base is Some {
        1
    } else {
        2
    }
}

/// What a build starts from: what was asked for, or else the default branch
/// of the repository.
pub open spec fn base_of(start: Start, steps: Seq<Stage>) -> Seq<char> {
    if start.base is Some {
        (start.base->0)@
    } else {
        text::trimmed(steps[1].2->Git_0->Ok_0@)
    }
}

spec fn staged(start: Start, steps: Seq<Stage>, i: int) -> bool {
    let d = before_reserving(start);
    let b = base_of(start, steps);
    let run_ = steps[d].2->Reserved_0;
    let held = steps[d].2 is Reserved;
    let free = held && steps[d + 1].2 is Git && steps[d + 1].2->Git_0 is Ok && job::holder_in(
        text::lines(steps[d + 1].2->Git_0->Ok_0@),
        start.branch@,
    ) is None;
    let planned = free && steps[d + 2].2 is Plan && steps[d + 2].2->Plan_0 is Ok;
    let plan_ = steps[d + 2].2->Plan_0->Ok_0@;
    let forged = planned && steps[d + 3].2 is Done && steps[d + 3].2->Done_0 is Ok;
    let manned = forged && steps[d + 4].2 is Done && steps[d + 4].2->Done_0 is Ok;
    let looked = manned && steps[d + 5].2 is Markers;
    let asked = looked && steps[d + 6].2 is Answer;
    &&& steps[i].0@.start == start@
    &&& match steps[i].0@.at {
        starting::PlaceView::Locating => i == 0,
        starting::PlaceView::Defaulting => i == 1 && start.base is None,
        starting::PlaceView::Reserving { base } => i == d && base == b,
        starting::PlaceView::Holding { base, run } => i == d + 1 && base == b && run == run_
            && held,
        starting::PlaceView::Planning { base, run } => i == d + 2 && base == b && run == run_
            && free,
        starting::PlaceView::Forging { base, run, plan } => i == d + 3 && base == b && run == run_
            && plan == plan_ && planned,
        starting::PlaceView::Manning { base, run, plan } => i == d + 4 && base == b && run == run_
            && plan == plan_ && forged,
        starting::PlaceView::Looking { base, run, plan } => i == d + 5 && base == b && run == run_
            && plan == plan_ && manned,
        starting::PlaceView::Asking { base, run, plan, proposal } => i == d + 6 && base == b && run
            == run_ && plan == plan_ && looked && proposal == check::proposed(
            steps[d + 5].2->Markers_0,
        ),
        starting::PlaceView::Establishing { base, run, plan, check } => i == d + 7 && base == b
            && run == run_ && plan == plan_ && asked && check == tools::in_force(
            steps[d + 6].2->Answer_0,
        ),
    }
}

proof fn steps_are_staged(start: Start, steps: Seq<Stage>, end: Starting, i: int)
    requires
        launched_by(start, steps, end),
        0 <= i < steps.len(),
    ensures
        staged(start, steps, i),
        steps[i].1@ == steps[i].0@.deed(),
        steps[i].0@.expects(steps[i].2@),
    decreases i,
{
    let here = steps[i];
    assert(call_ensures(Launching::deed, (&here.0,), here.1));
    assert(here.0@.expects(here.2@));
    if i > 0 {
        steps_are_staged(start, steps, end, i - 1);
        let last = steps[i - 1];
        assert(call_ensures(Launching::next, (last.0, last.2), Starting::Do(steps[i - 1 + 1].0)));
        assert(last.0@.went(last.2@) == starting::StartingView::Do(here.0@));
    }
}

proof fn all_are_staged(start: Start, steps: Seq<Stage>, end: Starting)
    requires
        launched_by(start, steps, end),
    ensures
        forall|i: int|
            0 <= i < steps.len() ==> staged(start, steps, i) && (#[trigger] steps[i]).1@
                == steps[i].0@.deed() && steps[i].0@.expects(steps[i].2@),
{
    assert forall|i: int| 0 <= i < steps.len() implies staged(start, steps, i) && (
    #[trigger] steps[i]).1@ == steps[i].0@.deed() && steps[i].0@.expects(steps[i].2@) by {
        steps_are_staged(start, steps, end, i);
    }
}

/// Law: a build that started was reserved, its base settled first; nobody
/// held its branch; its plan was read; a forge and Agents were found for
/// it; and the user was asked for the check, with the proposal of what was
/// found there. Its branch was established at that base under the check the
/// user confirmed, and it flies under the run that was reserved, for the
/// feature, in the repository and on the branch that were asked for, with
/// that check and that plan.
pub proof fn a_build_starts_as_it_was_asked(start: Start, steps: Seq<Stage>, end: Starting)
    requires
        launched_by(start, steps, end),
        end is Started,
    ensures
        ({
            let d = before_reserving(start);
            let base = base_of(start, steps);
            &&& steps.len() == d + 8
            &&& steps[0].1 is Git
            &&& steps[0].2->Git_0 is Ok
            &&& start.base is None ==> steps[1].1 is Git && steps[1].2->Git_0 is Ok && text::views(
                steps[1].1->Git_0@,
            ) == seq!["-C"@, start.repository@, "symbolic-ref"@, "--short"@, "HEAD"@]
            &&& steps[d].1 is Reserve
            &&& steps[d].1->Reserve_base@ == base
            &&& text::views(steps[d + 1].1->Git_0@) == seq![
                "-C"@,
                start.repository@,
                "worktree"@,
                "list"@,
                "--porcelain"@,
            ]
            &&& steps[d + 2].1 is ReadPlan
            &&& steps[d + 2].2->Plan_0 is Ok
            &&& steps[d + 3].1 is FindForge
            &&& steps[d + 4].1 is FindAgents
            &&& steps[d + 5].1 is Look
            &&& steps[d + 6].1 is Ask
            &&& steps[d + 6].1->Ask_0 is Check
            &&& text::optional(steps[d + 6].1->Ask_0->proposal) == check::proposed(
                steps[d + 5].2->Markers_0,
            )
            &&& steps[d + 7].1 is Establish
            &&& steps[d + 7].1->Establish_base@ == base
            &&& steps[d + 7].2->Done_0 is Ok
            &&& end->Started_run == steps[d].2->Reserved_0
            &&& end->Started_plan@ == steps[d + 2].2->Plan_0->Ok_0@
            &&& end->flight.feature.0@ == start.feature.0@
            &&& end->flight.repository@ == start.repository@
            &&& end->flight.branch@ == start.branch@
        }),
{
    all_are_staged(start, steps, end);
    let d = before_reserving(start);
    let last = steps[steps.len() - 1];
    assert(last.0@.went(last.2@) == end@);
    assert(last.0@.at is Establishing);
    assert(steps.len() == d + 8);
    assert(steps[0].0@.at is Locating);
    if start.base is None {
        assert(steps[1].0@.at is Defaulting);
    }
    assert(steps[d].0@.at is Reserving);
    assert(steps[d + 1].0@.at is Holding);
    assert(steps[d + 2].0@.at is Planning);
    assert(steps[d + 3].0@.at is Forging);
    assert(steps[d + 4].0@.at is Manning);
    assert(steps[d + 5].0@.at is Looking);
    assert(steps[d + 6].0@.at is Asking);
}

/// Law: the check a build flies under, and the one its branch is
/// established with, is the one the user confirmed: the very command where
/// it is not blank, and none where the user declined.
pub proof fn a_build_is_judged_by_what_was_confirmed(
    start: Start,
    steps: Seq<Stage>,
    end: Starting,
)
    requires
        launched_by(start, steps, end),
        end is Started,
    ensures
        ({
            let d = before_reserving(start);
            let answer = steps[d + 6].2->Answer_0;
            let check = steps[d + 7].1->Establish_check;
            &&& end->flight.check is Some <==> answer is Check && text::trimmed(
                answer->command@,
            ).len() > 0
            &&& end->flight.check is Some ==> (end->flight.check->0)@ == answer->command@
            &&& check is Some <==> end->flight.check is Some
            &&& check is Some ==> (check->0).command@ == answer->command@
        }),
{
    all_are_staged(start, steps, end);
    let d = before_reserving(start);
    let last = steps[steps.len() - 1];
    assert(last.0@.went(last.2@) == end@);
    assert(last.0@.at is Establishing);
    assert(steps.len() == d + 8);
    assert(steps[d + 6].0@.at is Asking);
}

/// Law: a launch that was refused hands back its reservation just when it
/// had one, and never says that its branch was established.
pub proof fn a_refused_launch_gives_its_reservation_back(
    start: Start,
    steps: Seq<Stage>,
    end: Starting,
)
    requires
        launched_by(start, steps, end),
        end is Refused,
    ensures
        ({
            let d = before_reserving(start);
            &&& end->Refused_run is Some <==> steps.len() > d + 1
            &&& steps.len() > d + 1 ==> steps[d].1 is Reserve && end->Refused_run == Some(
                steps[d].2->Reserved_0,
            )
            &&& forall|i: int|
                0 <= i < steps.len() && (#[trigger] steps[i]).1 is Establish
                    ==> steps[i].2->Done_0 is Err && end->words@ == steps[i].2->Done_0->Err_0@
        }),
{
    all_are_staged(start, steps, end);
    let d = before_reserving(start);
    let n = steps.len() - 1;
    let last = steps[n];
    assert(last.0@.went(last.2@) == end@);
    if steps.len() > d + 1 {
        assert(steps[d].0@.at is Reserving);
    }
    assert forall|i: int| 0 <= i < steps.len() && (#[trigger] steps[i]).1 is Establish implies
        steps[i].2->Done_0 is Err && end->words@ == steps[i].2->Done_0->Err_0@ by {
        assert(steps[i].0@.at is Establishing);
        if i < n {
            assert(call_ensures(
                Launching::next,
                (steps[i].0, steps[i].2),
                Starting::Do(steps[i + 1].0),
            ));
        }
    }
}

/// Law: a repository that is not an absolute path is not launched at all,
/// and nothing is reserved for it.
pub proof fn only_a_local_path_is_launched(start: Start, r: Starting)
    requires
        call_ensures(starting::launch, (start,), r),
    ensures
        r is Do <==> start.repository@.len() > 0 && start.repository@[0] == '/',
        !(r is Do) ==> r is Refused && r->Refused_run is None,
{
    reveal_strlit("/");
    let s = start.repository@;
    if s.len() > 0 {
        assert(s.take(1) =~= seq![s[0]]);
        assert("/"@ =~= seq!['/']);
        assert(seq![s[0]][0] == s[0]);
        assert(seq!['/'][0] == '/');
    }
}

} // verus!
