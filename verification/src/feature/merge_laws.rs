//! What holds of every merge and every establishing, whatever the deeds
//! they ask for come to.

use crate::check::Check;
use crate::feature::landing;
use crate::feature::merge;
use crate::feature::merge::{Branch, Deed, Establish, Establishing, Merge, Merging, Outcome};
use crate::git;
use crate::job::Workspace;
use crate::text;
use vstd::prelude::*;

verus! {

/// Whether a deed is a run of git with these arguments.
pub open spec fn asks(deed: Deed, words: Seq<Seq<char>>) -> bool {
    deed is Git && text::views(deed->Git_0@) == words
}

/// One step of a merge: where it stood, what it asked to be done, and what
/// came of that.
pub type Step = (Merge, Deed, Result<String, String>);

/// Whether a merge of `name` into a branch went by these steps to its end.
pub open spec fn merged_by(branch: &Branch, name: &str, steps: Seq<Step>, end: Merging) -> bool {
    &&& steps.len() > 0
    &&& call_ensures(Branch::merge, (branch, name), Ok::<Merge, String>(steps[0].0))
    &&& forall|i: int|
        0 <= i < steps.len() ==> call_ensures(
            Merge::deed,
            (&(#[trigger] steps[i]).0,),
            steps[i].1,
        )
    &&& forall|i: int|
        0 <= i < steps.len() - 1 ==> call_ensures(
            Merge::next,
            ((#[trigger] steps[i]).0, steps[i].2),
            Merging::Do(steps[i + 1].0),
        )
    &&& call_ensures(Merge::next, (steps.last().0, steps.last().2), end)
}

/// The commit git answered with.
pub open spec fn commit_in(answer: Result<String, String>) -> Seq<char> {
    text::trimmed(answer->Ok_0@)
}

/// Where the steps of a merge are by the time it stands at a place.
spec fn reached(
    steps: Seq<Step>,
    i: int,
    directory: Seq<char>,
    name: Seq<char>,
    checked: bool,
) -> bool {
    let at = steps[i].0@;
    let settled = if checked {
        5int
    } else {
        4int
    };
    &&& at.directory == directory
    &&& at.branch == name
    &&& at.checked == checked
    &&& match at.at {
        merge::PlaceView::Aborting => i == 0,
        merge::PlaceView::Restoring => i == 1,
        merge::PlaceView::Reading => i == 2 && steps[1].2 is Ok,
        merge::PlaceView::Joining { before } => i == 3 && steps[2].2 is Ok && steps[1].2 is Ok
            && before == commit_in(steps[2].2),
        merge::PlaceView::Probing { words } => i == 4 && steps[3].2 is Err && words
            == steps[3].2->Err_0@,
        merge::PlaceView::Backing { words, probed } => i == 5 && steps[3].2 is Err && words
            == steps[3].2->Err_0@ && probed == git::words_of(steps[4].2),
        merge::PlaceView::Checking { before } => i == 4 && checked && steps[3].2 is Ok
            && steps[2].2 is Ok && steps[1].2 is Ok && before == commit_in(steps[2].2),
        merge::PlaceView::Reddening { before, output } => i == 5 && checked && steps[3].2 is Ok
            && steps[2].2 is Ok && before == commit_in(steps[2].2) && steps[4].2 is Err && output
            == steps[4].2->Err_0@,
        merge::PlaceView::Settling { before } => i == settled && steps[3].2 is Ok && steps[2].2
            is Ok && steps[1].2 is Ok && before == commit_in(steps[2].2) && (checked
            ==> steps[4].2 is Ok),
        merge::PlaceView::Retreating { before, words } => i == settled + 1 && steps[2].2 is Ok
            && before == commit_in(steps[2].2) && steps[settled].2 is Err && words
            == steps[settled].2->Err_0@,
        merge::PlaceView::Pushing { before, commit } => i == settled + 1 && steps[3].2 is Ok
            && steps[2].2 is Ok && steps[1].2 is Ok && before == commit_in(steps[2].2) && (checked
            ==> steps[4].2 is Ok) && steps[settled].2 is Ok && commit == commit_in(
            steps[settled].2,
        ),
        merge::PlaceView::Unwinding { before, words } => i == settled + 2 && steps[2].2 is Ok
            && before == commit_in(steps[2].2) && steps[settled + 1].2 is Err && words
            == steps[settled + 1].2->Err_0@ && steps[3].2 is Ok && steps[settled].2 is Ok && (
        checked ==> steps[4].2 is Ok),
    }
}

proof fn steps_are_reached(
    branch: &Branch,
    name: &str,
    steps: Seq<Step>,
    end: Merging,
    i: int,
)
    requires
        merged_by(branch, name, steps, end),
        0 <= i < steps.len(),
    ensures
        reached(steps, i, branch.held().directory@, name@, branch.judge() is Some),
        steps[i].1@ == steps[i].0@.deed(),
    decreases i,
{
    if i > 0 {
        steps_are_reached(branch, name, steps, end, i - 1);
        let last = steps[i - 1];
        assert(call_ensures(Merge::next, (last.0, last.2), Merging::Do(steps[i - 1 + 1].0)));
    }
    let here = steps[i];
    assert(call_ensures(Merge::deed, (&here.0,), here.1));
}

/// Where every step of a merge stands and what it asks for, up to the last.
proof fn all_are_reached(branch: &Branch, name: &str, steps: Seq<Step>, end: Merging)
    requires
        merged_by(branch, name, steps, end),
    ensures
        forall|i: int|
            0 <= i < steps.len() ==> reached(
                steps,
                i,
                branch.held().directory@,
                name@,
                branch.judge() is Some,
            ) && (#[trigger] steps[i]).1@ == steps[i].0@.deed(),
{
    assert forall|i: int| 0 <= i < steps.len() implies reached(
        steps,
        i,
        branch.held().directory@,
        name@,
        branch.judge() is Some,
    ) && (#[trigger] steps[i]).1@ == steps[i].0@.deed() by {
        steps_are_reached(branch, name, steps, end, i);
    }
}

/// Law: a merge whose end is that it landed joined the branch it was given
/// to, in the workspace the feature branch is held through, and git did it;
/// then, where there is a check, the check was run on the result and was
/// green; then the commit it says it landed as was read; and then, last of
/// all, it was pushed, and the push went through. It says that it was
/// checked just when there was a check.
pub proof fn what_lands_is_the_branch_joined_judged_and_pushed(
    workspace: Workspace,
    check: Option<Check>,
    branch: &Branch,
    name: &str,
    steps: Seq<Step>,
    end: Merging,
)
    requires
        call_ensures(Branch::new, (workspace, check), *branch),
        merged_by(branch, name, steps, end),
        end is Ended,
        end->Ended_0 is Ok,
        end->Ended_0->Ok_0 is Merged,
    ensures
        end->Ended_0->Ok_0->checked == (check is Some),
        exists|joined: int, read: int|
            {
                &&& 0 <= joined < read < steps.len() - 1
                &&& asks(
                    (#[trigger] steps[joined]).1,
                    seq![
                        "-C"@,
                        workspace.directory@,
                        "-c"@,
                        "commit.gpgsign=false"@,
                        "merge"@,
                        "--no-ff"@,
                        "--no-edit"@,
                        name@,
                    ],
                )
                &&& steps[joined].2 is Ok
                &&& asks(
                    (#[trigger] steps[read]).1,
                    seq!["-C"@, workspace.directory@, "rev-parse"@, "HEAD"@],
                )
                &&& steps[read].2 is Ok
                &&& end->Ended_0->Ok_0->commit@ == commit_in(steps[read].2)
                &&& check is Some ==> exists|judged: int|
                    joined < judged < read && (#[trigger] steps[judged]).1 is Check
                        && steps[judged].2 is Ok
            },
        steps.last().1 is Push,
        steps.last().2 is Ok,
{
    all_are_reached(branch, name, steps, end);
    let n = steps.len() - 1;
    let read = if check is Some {
        5int
    } else {
        4int
    };
    let last = steps[n];
    assert(last.0@.at is Pushing);
    assert(n == read + 1);
    assert(steps[3].0@.at is Joining);
    let joining = steps[3];
    assert(asks(
        joining.1,
        seq![
            "-C"@,
            workspace.directory@,
            "-c"@,
            "commit.gpgsign=false"@,
            "merge"@,
            "--no-ff"@,
            "--no-edit"@,
            name@,
        ],
    ));
    let settling = steps[read];
    if check is Some {
        let judging = steps[4];
        assert(judging.0@.at is Checking);
        assert(settling.0@.at is Settling);
    } else {
        assert(settling.0@.at is Settling);
    }
    assert(asks(settling.1, seq!["-C"@, workspace.directory@, "rev-parse"@, "HEAD"@]));
}

/// Law: before it joins anything a merge puts the workspace back: it
/// aborts whatever merge stands half done, and resets it to the tip.
pub proof fn a_merge_opens_with_a_clean_workspace(
    workspace: Workspace,
    check: Option<Check>,
    branch: &Branch,
    name: &str,
    steps: Seq<Step>,
    end: Merging,
)
    requires
        call_ensures(Branch::new, (workspace, check), *branch),
        merged_by(branch, name, steps, end),
    ensures
        asks(steps[0].1, seq!["-C"@, workspace.directory@, "merge"@, "--abort"@]),
        steps.len() > 1 ==> asks(
            steps[1].1,
            seq!["-C"@, workspace.directory@, "reset"@, "--hard"@, "HEAD"@],
        ),
        steps.len() > 2 ==> steps[1].2 is Ok && asks(
            steps[2].1,
            seq!["-C"@, workspace.directory@, "rev-parse"@, "HEAD"@],
        ),
{
    all_are_reached(branch, name, steps, end);
    assert(steps[0].0@.at is Aborting);
    if steps.len() > 1 {
        assert(steps[1].0@.at is Restoring);
    }
    if steps.len() > 2 {
        assert(steps[2].0@.at is Reading);
    }
}

/// Law: a merge that is red was joined, was judged red by the check, in the
/// check's own words, and was then reset to the very commit the branch
/// stood on before; and it was never pushed.
pub proof fn what_is_red_is_put_back(
    workspace: Workspace,
    check: Option<Check>,
    branch: &Branch,
    name: &str,
    steps: Seq<Step>,
    end: Merging,
)
    requires
        call_ensures(Branch::new, (workspace, check), *branch),
        merged_by(branch, name, steps, end),
        end is Ended,
        end->Ended_0 is Ok,
        end->Ended_0->Ok_0 is Red,
    ensures
        check is Some,
        steps.len() == 6,
        steps[4].1 is Check,
        steps[4].2 is Err,
        end->Ended_0->Ok_0->output@ == steps[4].2->Err_0@,
        asks(
            steps[5].1,
            seq!["-C"@, workspace.directory@, "reset"@, "--hard"@, commit_in(steps[2].2)],
        ),
        steps[5].2 is Ok,
        forall|i: int| 0 <= i < steps.len() ==> !((#[trigger] steps[i]).1 is Push),
{
    all_are_reached(branch, name, steps, end);
    let last = steps[steps.len() - 1];
    assert(last.0@.at is Reddening);
    assert(steps[4].0@.at is Checking);
    assert forall|i: int| 0 <= i < steps.len() implies !((#[trigger] steps[i]).1 is Push) by {
        assert(!(steps[i].0@.at is Pushing));
    }
}

/// Law: a conflict is what git could not join, in the paths git lists as
/// unmerged, read before the merge is aborted; and nothing was pushed.
pub proof fn a_conflict_is_what_git_could_not_settle(
    workspace: Workspace,
    check: Option<Check>,
    branch: &Branch,
    name: &str,
    steps: Seq<Step>,
    end: Merging,
)
    requires
        call_ensures(Branch::new, (workspace, check), *branch),
        merged_by(branch, name, steps, end),
        end is Ended,
        end->Ended_0 is Ok,
        end->Ended_0->Ok_0 is Conflict,
    ensures
        steps.len() == 6,
        steps[3].2 is Err,
        asks(
            steps[4].1,
            seq!["-C"@, workspace.directory@, "diff"@, "--name-only"@, "--diff-filter=U"@],
        ),
        steps[4].2 is Ok,
        text::views(end->Ended_0->Ok_0->paths@) == text::lines(steps[4].2->Ok_0@),
        end->Ended_0->Ok_0->paths@.len() > 0,
        asks(steps[5].1, seq!["-C"@, workspace.directory@, "merge"@, "--abort"@]),
        forall|i: int| 0 <= i < steps.len() ==> !((#[trigger] steps[i]).1 is Push),
{
    all_are_reached(branch, name, steps, end);
    let last = steps[steps.len() - 1];
    assert(last.0@.at is Backing);
    assert(steps[4].0@.at is Probing);
    assert(text::views(end->Ended_0->Ok_0->paths@).len() == end->Ended_0->Ok_0->paths@.len());
    assert forall|i: int| 0 <= i < steps.len() implies !((#[trigger] steps[i]).1 is Push) by {
        assert(!(steps[i].0@.at is Pushing));
    }
}

/// Law: a merge that ends in an error landed nothing: no push of it went
/// through; and where one was refused, the last deed was to reset the
/// branch to the commit it stood on.
pub proof fn a_failed_merge_pushed_nothing(
    workspace: Workspace,
    check: Option<Check>,
    branch: &Branch,
    name: &str,
    steps: Seq<Step>,
    end: Merging,
)
    requires
        call_ensures(Branch::new, (workspace, check), *branch),
        merged_by(branch, name, steps, end),
        end is Ended,
        end->Ended_0 is Err,
    ensures
        forall|i: int|
            0 <= i < steps.len() && (#[trigger] steps[i]).1 is Push ==> steps[i].2 is Err && asks(
                steps.last().1,
                seq!["-C"@, workspace.directory@, "reset"@, "--hard"@, commit_in(steps[2].2)],
            ),
        forall|i: int|
            0 <= i < steps.len() && (#[trigger] steps[i]).1 is Push && steps.last().2 is Ok
                ==> end->Ended_0->Err_0@ == steps[i].2->Err_0@,
{
    all_are_reached(branch, name, steps, end);
    let n = steps.len() - 1;
    assert(call_ensures(Merge::next, (steps.last().0, steps.last().2), end));
    assert forall|i: int| 0 <= i < steps.len() && (#[trigger] steps[i]).1 is Push implies steps[i].2
        is Err && asks(
        steps.last().1,
        seq!["-C"@, workspace.directory@, "reset"@, "--hard"@, commit_in(steps[2].2)],
    ) && (steps.last().2 is Ok ==> end->Ended_0->Err_0@ == steps[i].2->Err_0@) by {
        assert(steps[i].0@.at is Pushing);
        if i < n {
            assert(call_ensures(
                Merge::next,
                (steps[i].0, steps[i].2),
                Merging::Do(steps[i + 1].0),
            ));
            assert(steps[i + 1].0@.at is Unwinding);
            if i + 1 < n {
                assert(call_ensures(
                    Merge::next,
                    (steps[i + 1].0, steps[i + 1].2),
                    Merging::Do(steps[i + 2].0),
                ));
            }
            assert(n == i + 1);
        }
    }
}

/// Law: a name git would read as a flag is not merged, and any other is.
pub proof fn a_flag_is_not_merged(branch: &Branch, name: &str, r: Result<Merge, String>)
    requires
        call_ensures(Branch::merge, (branch, name), r),
    ensures
        r is Err <==> name@.len() > 0 && name@[0] == '-',
{
    reveal_strlit("-");
    if name@.len() > 0 {
        assert(name@.take(1) =~= seq![name@[0]]);
        assert("-"@ =~= seq!['-']);
        assert(seq![name@[0]][0] == name@[0]);
        assert(seq!['-'][0] == '-');
    }
}

/// Law: the settled tip is asked of the repository, by the ref of the
/// branch, and is the commit git answers with.
pub proof fn the_tip_is_where_the_branch_stands(
    workspace: Workspace,
    check: Option<Check>,
    branch: &Branch,
    args: Vec<String>,
    answer: Result<String, String>,
    tip: Result<String, String>,
)
    requires
        call_ensures(Branch::new, (workspace, check), *branch),
        call_ensures(Branch::tip_args, (branch,), args),
        call_ensures(Branch::tip, (answer,), tip),
    ensures
        text::views(args@) == seq![
            "-C"@,
            workspace.repository@,
            "rev-parse"@,
            "refs/heads/"@ + workspace.branch@,
        ],
        tip is Ok <==> answer is Ok,
        tip is Ok ==> tip->Ok_0@ == commit_in(answer),
        tip is Err ==> tip->Err_0@ == answer->Err_0@,
{
}

// ----- establishing -----

/// One step of an establishing.
pub type Ground = (Establish, Deed, Result<String, String>);

/// Whether establishing `name` at `base` in `repository` went by these
/// steps to its end.
pub open spec fn established_by(
    repository: &str,
    name: &str,
    base: &str,
    steps: Seq<Ground>,
    end: Establishing,
) -> bool {
    &&& steps.len() > 0
    &&& call_ensures(
        merge::establish,
        (repository, name, base),
        Ok::<Establish, String>(steps[0].0),
    )
    &&& forall|i: int|
        0 <= i < steps.len() ==> call_ensures(
            Establish::deed,
            (&(#[trigger] steps[i]).0,),
            steps[i].1,
        )
    &&& forall|i: int|
        0 <= i < steps.len() - 1 ==> call_ensures(
            Establish::next,
            ((#[trigger] steps[i]).0, steps[i].2),
            Establishing::Do(steps[i + 1].0),
        )
    &&& call_ensures(Establish::next, (steps.last().0, steps.last().2), end)
}

spec fn grounded(
    steps: Seq<Ground>,
    i: int,
    repository: Seq<char>,
    name: Seq<char>,
    base: Seq<char>,
) -> bool {
    let at = steps[i].0@;
    &&& at.repository == repository
    &&& at.name == name
    &&& at.base == base
    &&& match at.at {
        merge::GroundView::Standing => i == 0,
        merge::GroundView::Basing => i == 1 && steps[0].2 is Ok && !merge::lists(
            steps[0].2->Ok_0@,
            "refs/heads/"@ + name,
        ),
        merge::GroundView::Cutting { base_commit } => i == 2 && steps[1].2 is Ok && base_commit
            == commit_in(steps[1].2) && !merge::lists(steps[0].2->Ok_0@, "refs/heads/"@ + name),
        merge::GroundView::Pushing => i == 3 && steps[2].2 is Ok && steps[1].2 is Ok
            && !merge::lists(steps[0].2->Ok_0@, "refs/heads/"@ + name),
        merge::GroundView::Unwinding { words } => i == 4 && steps[3].2 is Err && words
            == steps[3].2->Err_0@ && !merge::lists(steps[0].2->Ok_0@, "refs/heads/"@ + name),
    }
}

proof fn steps_are_grounded(
    repository: &str,
    name: &str,
    base: &str,
    steps: Seq<Ground>,
    end: Establishing,
    i: int,
)
    requires
        established_by(repository, name, base, steps, end),
        0 <= i < steps.len(),
    ensures
        grounded(steps, i, repository@, name@, base@),
        steps[i].1@ == steps[i].0@.deed(),
    decreases i,
{
    if i > 0 {
        steps_are_grounded(repository, name, base, steps, end, i - 1);
        let last = steps[i - 1];
        assert(call_ensures(
            Establish::next,
            (last.0, last.2),
            Establishing::Do(steps[i - 1 + 1].0),
        ));
    }
    let here = steps[i];
    assert(call_ensures(Establish::deed, (&here.0,), here.1));
}

/// Law: establishing a branch asks first whether it stands. One that stands
/// is used as it stands: nothing is cut and nothing pushed. One that does
/// not is cut in that repository under its own name at the commit its base
/// names, and pushed; it is established only once the push went through.
pub proof fn a_branch_is_cut_at_its_base_and_pushed(
    repository: &str,
    name: &str,
    base: &str,
    steps: Seq<Ground>,
    end: Establishing,
)
    requires
        established_by(repository, name, base, steps, end),
        end is Established,
    ensures
        asks(
            steps[0].1,
            seq![
                "-C"@,
                repository@,
                "for-each-ref"@,
                "--format=%(refname)"@,
                "refs/heads/"@ + name@,
            ],
        ),
        steps[0].2 is Ok,
        merge::lists(steps[0].2->Ok_0@, "refs/heads/"@ + name@) <==> steps.len() == 1,
        steps.len() > 1 ==> {
            &&& steps.len() == 4
            &&& steps[1].1 is Git
            &&& steps[1].2 is Ok
            &&& asks(
                steps[2].1,
                seq!["-C"@, repository@, "branch"@, "--"@, name@, commit_in(steps[1].2)],
            )
            &&& steps[2].2 is Ok
            &&& steps[3].1 is Push
            &&& steps[3].2 is Ok
        },
{
    let n = steps.len() - 1;
    assert forall|i: int| 0 <= i < steps.len() implies grounded(
        steps,
        i,
        repository@,
        name@,
        base@,
    ) && (#[trigger] steps[i]).1@ == steps[i].0@.deed() by {
        steps_are_grounded(repository, name, base, steps, end, i);
    }
    assert(steps[0].0@.at is Standing);
    if n > 0 {
        assert(steps[n].0@.at is Pushing);
        assert(steps[1].0@.at is Basing);
        assert(steps[2].0@.at is Cutting);
    }
}

/// Law: a branch that could be cut and not pushed is taken back, so that
/// it does not read as standing: the deed after the failed push deletes it,
/// and the words of the refusal are the push's own.
pub proof fn a_branch_that_is_not_pushed_is_taken_back(
    repository: &str,
    name: &str,
    base: &str,
    steps: Seq<Ground>,
    end: Establishing,
    i: int,
)
    requires
        established_by(repository, name, base, steps, end),
        0 <= i < steps.len(),
        steps[i].1 is Push,
        steps[i].2 is Err,
        !(end is Do),
    ensures
        end is Refused,
        steps.len() == i + 2,
        asks(steps.last().1, seq!["-C"@, repository@, "branch"@, "-D"@, name@]),
        end->Refused_0@ == steps[i].2->Err_0@,
{
    let n = steps.len() - 1;
    assert forall|i: int| 0 <= i < steps.len() implies grounded(
        steps,
        i,
        repository@,
        name@,
        base@,
    ) && (#[trigger] steps[i]).1@ == steps[i].0@.deed() by {
        steps_are_grounded(repository, name, base, steps, end, i);
    }
    assert(steps[i].0@.at is Pushing);
    if i < n {
        assert(call_ensures(
            Establish::next,
            (steps[i].0, steps[i].2),
            Establishing::Do(steps[i + 1].0),
        ));
        assert(steps[i + 1].0@.at is Unwinding);
        if i + 1 < n {
            assert(call_ensures(
                Establish::next,
                (steps[i + 1].0, steps[i + 1].2),
                Establishing::Do(steps[i + 2].0),
            ));
        }
    }
}

// ----- what a merge comes to -----

/// Law: work has landed just when its merge says so, as the commit and with
/// the judgement it says; any other end is a failure, and a merge's own
/// error is told in its own words.
pub proof fn only_a_merge_lands(
    merged: Result<Outcome, String>,
    r: Result<(String, bool), String>,
)
    requires
        call_ensures(landing::settle, (merged,), r),
    ensures
        r is Ok <==> merged is Ok && merged->Ok_0 is Merged,
        r is Ok ==> (r->Ok_0).0@ == merged->Ok_0->commit@ && (r->Ok_0).1 == merged->Ok_0->checked,
        merged is Err ==> r is Err && r->Err_0@ == merged->Err_0@,
        merged is Ok && merged->Ok_0 is Red ==> text::contains_text(
            r->Err_0@,
            merged->Ok_0->output@,
        ),
        merged is Ok && merged->Ok_0 is Conflict && merged->Ok_0->paths@.len() == 1
            ==> text::contains_text(r->Err_0@, merged->Ok_0->paths@[0]@),
{
    if merged is Ok && merged->Ok_0 is Red {
        let words = r->Err_0@;
        let output = merged->Ok_0->output@;
        let at = words.len() - output.len();
        assert(words.subrange(at, at + output.len()) =~= output);
        assert(text::stands_at(words, output, at));
    }
    if merged is Ok && merged->Ok_0 is Conflict && merged->Ok_0->paths@.len() == 1 {
        let words = r->Err_0@;
        let path = merged->Ok_0->paths@[0]@;
        let paths = text::views(merged->Ok_0->paths@);
        assert(paths[0] == path);
        let at = words.len() - path.len();
        assert(words.subrange(at, at + path.len()) =~= path);
        assert(text::stands_at(words, path, at));
    }
}

} // verus!
