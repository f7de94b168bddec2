//! What holds of every workspace that is provisioned and of what is
//! observed of it.

use crate::git;
use crate::job;
use crate::job::{Commits, Order, Provision, Provisioning, Workspace};
use crate::text;
use vstd::prelude::*;

verus! {

/// Law: a name that git would read as a flag is refused, and no other is.
pub proof fn a_flag_is_no_name(name: &str, value: &str, r: Result<(), String>)
    requires
        call_ensures(job::positional, (name, value), r),
    ensures
        r is Err <==> value@.len() > 0 && value@[0] == '-',
        r is Err ==> r->Err_0@ == "the "@ + name@ + " may not start with a dash: "@
            + text::quoted_as(value@),
{
}

/// Law: a worktree's name is one name: it has no slash in it, whatever the
/// branch is called.
pub proof fn a_worktrees_name_is_no_path(branch: &str, process: u64, nanos: u64, r: String)
    requires
        call_ensures(job::worktree_name, (branch, process, nanos), r),
    ensures
        forall|i: int| 0 <= i < branch@.len() ==> {
            let c = r@["epik-build-"@.len() + i];
            &&& c != '/' && c != '\\'
            &&& (#[trigger] branch@[i]) != '/' && branch@[i] != '\\' ==> c == branch@[i]
        },
        r@.take("epik-build-"@.len() as int) == "epik-build-"@,
        r@.skip(("epik-build-"@.len() + branch@.len()) as int)
            == "-"@ + text::decimal(process as nat)
            + "-"@ + text::decimal(nanos as nat),
{
    assert(r@.take("epik-build-"@.len() as int) =~= "epik-build-"@);
    assert(r@.skip(("epik-build-"@.len() + branch@.len()) as int)
        =~= "-"@ + text::decimal(process as nat)
        + "-"@ + text::decimal(nanos as nat));
}

/// Law: an Agent is briefed with the branch it works on and, last of all,
/// with its own instructions in full.
pub proof fn a_brief_ends_with_the_instructions(workspace: &Workspace, prompt: &str, r: String)
    requires
        call_ensures(Workspace::brief, (workspace, prompt), r),
    ensures
        exists|preamble: Seq<char>|
            r@ == #[trigger] (preamble + "\n\nBranch: "@) + workspace.branch@ + "\n\n"@ + prompt@,
{
    assert(r@ == (job::PREAMBLE@ + "\n\nBranch: "@) + workspace.branch@ + "\n\n"@ + prompt@);
}

// ----- provisioning -----

/// One step of a provisioning: where it stood, what it asked of git, and
/// what git answered.
pub type Step = (Provision, Vec<String>, Result<String, String>);

/// Whether an order was provisioned in a directory by these steps.
pub open spec fn provisioned_by(
    order: &Order,
    directory: String,
    steps: Seq<Step>,
    end: Provisioning,
) -> bool {
    &&& steps.len() > 0
    &&& call_ensures(job::provision, (order, directory), Provisioning::Ask(steps[0].0))
    &&& forall|i: int|
        0 <= i < steps.len() ==> call_ensures(
            Provision::args,
            (&(#[trigger] steps[i]).0,),
            steps[i].1,
        )
    &&& forall|i: int|
        0 <= i < steps.len() - 1 ==> call_ensures(
            Provision::next,
            ((#[trigger] steps[i]).0, steps[i].2),
            Provisioning::Ask(steps[i + 1].0),
        )
    &&& call_ensures(Provision::next, (steps.last().0, steps.last().2), end)
}

/// The step at which the base is asked for: one later where the default
/// branch is asked for first.
pub open spec fn based_at(order: Order) -> int {
    if order.base is Some {
        2
    } else {
        3
    }
}

/// The base of an order: the one it names, or else the default branch.
pub open spec fn base_of(order: Order, steps: Seq<Step>) -> Seq<char> {
    if order.base is Some {
        (order.base->0)@
    } else {
        text::trimmed(steps[2].2->Ok_0@)
    }
}

/// The commit the base came to.
pub open spec fn commit_of(order: Order, steps: Seq<Step>) -> Seq<char> {
    text::trimmed(steps[based_at(order)].2->Ok_0@)
}

spec fn reached(order: Order, directory: Seq<char>, steps: Seq<Step>, i: int) -> bool {
    let at = steps[i].0@;
    let d = based_at(order);
    let commit = commit_of(order, steps);
    let named = !job::dashed(order.branch@) && steps[0].2 is Ok;
    let based = named && steps[1].2 is Ok && steps[d].2 is Ok;
    let dir = text::trimmed(steps[0].2->Ok_0@);
    &&& at.repository == order.repository@
    &&& at.branch == order.branch@
    &&& at.base == text::optional(order.base)
    &&& at.directory == directory
    &&& match at.at {
        job::PlaceView::Opening => i == 0,
        job::PlaceView::Naming { git_dir } => i == 1 && named && git_dir == dir,
        job::PlaceView::Defaulting { git_dir } => i == 2 && named && order.base is None && git_dir
            == dir && steps[1].2 is Ok,
        job::PlaceView::Basing { git_dir, base } => i == d && named && git_dir == dir
            && steps[1].2 is Ok && base == base_of(order, steps) && (order.base is Some
            ==> !job::dashed((order.base->0)@)) && (order.base is None ==> steps[2].2 is Ok),
        job::PlaceView::Baring { git_dir, base_commit } => i == d + 1 && based && git_dir == dir
            && base_commit == commit,
        job::PlaceView::Extending { git_dir, base_commit, bare } => i == d + 2 && based && git_dir
            == dir && base_commit == commit && steps[d + 1].2 is Ok && bare == (text::trimmed(
            steps[d + 1].2->Ok_0@,
        ) == "true"@),
        job::PlaceView::Probing { common, base_commit } => i == d + 3 && based && base_commit
            == commit && common == dir + "/config"@ && text::trimmed(steps[d + 1].2->Ok_0@)
            == "true"@ && steps[d + 2].2 is Ok,
        job::PlaceView::Moving { common, base_commit } => i == d + 4 && based && base_commit
            == commit && common == dir + "/config"@ && steps[d + 3].2 is Ok && text::trimmed(
            steps[d + 3].2->Ok_0@,
        ) == "true"@ && steps[d + 3].0@.at is Probing && steps[d + 2].2 is Ok,
        job::PlaceView::Unsetting { common, base_commit } => i == d + 5 && based && base_commit
            == commit && common == dir + "/config"@ && steps[d + 4].2 is Ok && steps[d + 4].0@.at
            is Moving && steps[d + 2].2 is Ok,
        job::PlaceView::Adding { base_commit } => i >= d + 3 && based && base_commit == commit
            && steps[d + 2].2 is Ok,
        job::PlaceView::Christening { base_commit } => i >= d + 4 && based && base_commit == commit
            && steps[i - 1].0@.at is Adding && steps[i - 1].2 is Ok && steps[d + 2].2 is Ok,
        job::PlaceView::Addressing { base_commit } => i >= d + 5 && based && base_commit == commit
            && steps[i - 1].0@.at is Christening && steps[i - 1].2 is Ok && steps[i - 2].0@.at
            is Adding && steps[i - 2].2 is Ok && steps[d + 2].2 is Ok,
    }
}

proof fn steps_are_reached(
    order: &Order,
    directory: String,
    steps: Seq<Step>,
    end: Provisioning,
    i: int,
)
    requires
        provisioned_by(order, directory, steps, end),
        0 <= i < steps.len(),
    ensures
        reached(*order, directory@, steps, i),
        text::views(steps[i].1@) == steps[i].0@.asked(),
    decreases i,
{
    let here = steps[i];
    assert(call_ensures(Provision::args, (&here.0,), here.1));
    if i > 0 {
        steps_are_reached(order, directory, steps, end, i - 1);
        let last = steps[i - 1];
        assert(call_ensures(
            Provision::next,
            (last.0, last.2),
            Provisioning::Ask(steps[i - 1 + 1].0),
        ));
        assert(last.0@.went(git::words_of(last.2)) == job::ProvisioningView::Ask(here.0@));
    }
}

proof fn all_are_reached(order: &Order, directory: String, steps: Seq<Step>, end: Provisioning)
    requires
        provisioned_by(order, directory, steps, end),
    ensures
        forall|i: int|
            0 <= i < steps.len() ==> reached(*order, directory@, steps, i) && text::views(
                (#[trigger] steps[i]).1@,
            ) == steps[i].0@.asked(),
{
    assert forall|i: int| 0 <= i < steps.len() implies reached(
        *order,
        directory@,
        steps,
        i,
    ) && text::views((#[trigger] steps[i]).1@) == steps[i].0@.asked() by {
        steps_are_reached(order, directory, steps, end, i);
    }
}

/// Law: a workspace is what was ordered: a worktree of the repository, in
/// the directory, on a new branch of the order's name at the commit that
/// its base names; and before it is handed over the persona's name and its
/// address are set in it, in that worktree alone.
pub proof fn a_workspace_is_what_was_ordered(
    order: &Order,
    directory: String,
    steps: Seq<Step>,
    end: Provisioning,
)
    requires
        provisioned_by(order, directory, steps, end),
        end is Provisioned,
    ensures
        ({
            let n = steps.len();
            let d = based_at(*order);
            let workspace = end->Provisioned_0;
            &&& workspace.repository@ == order.repository@
            &&& workspace.branch@ == order.branch@
            &&& workspace.directory@ == directory@
            &&& workspace.base_commit@ == commit_of(*order, steps)
            &&& n >= d + 6
            &&& text::views(steps[d].1@) == seq![
                "-C"@,
                order.repository@,
                "rev-parse"@,
                "--verify"@,
                "--end-of-options"@,
                base_of(*order, steps) + "^{commit}"@,
            ]
            &&& steps[d].2 is Ok
            &&& text::views(steps[d + 2].1@) == seq![
                "-C"@,
                order.repository@,
                "config"@,
                "extensions.worktreeConfig"@,
                "true"@,
            ]
            &&& steps[d + 2].2 is Ok
            &&& text::views(steps[n - 3].1@) == seq![
                "-C"@,
                order.repository@,
                "worktree"@,
                "add"@,
                "-b"@,
                order.branch@,
                directory@,
                commit_of(*order, steps),
            ]
            &&& steps[n - 3].2 is Ok
            &&& text::views(steps[n - 2].1@) == seq![
                "-C"@,
                directory@,
                "config"@,
                "--worktree"@,
                "user.name"@,
                "Epik"@,
            ]
            &&& steps[n - 2].2 is Ok
            &&& text::views(steps[n - 1].1@) == seq![
                "-C"@,
                directory@,
                "config"@,
                "--worktree"@,
                "user.email"@,
                "epik@epik-agent.dev"@,
            ]
            &&& steps[n - 1].2 is Ok
        }),
{
    all_are_reached(order, directory, steps, end);
    let n = steps.len() as int;
    let d = based_at(*order);
    let last = steps[n - 1];
    assert(last.0@.went(git::words_of(last.2)) == end@);
    assert(last.0@.at is Addressing);
    assert(steps[n - 2].0@.at is Christening);
    assert(steps[n - 3].0@.at is Adding);
    assert(steps[d].0@.at is Basing);
    assert(steps[d + 2].0@.at is Extending);
}

/// Law: a default branch is asked for just where the order names no base,
/// and a branch is checked to be a name before anything is made.
pub proof fn an_order_without_a_base_starts_at_the_default(
    order: &Order,
    directory: String,
    steps: Seq<Step>,
    end: Provisioning,
)
    requires
        provisioned_by(order, directory, steps, end),
        steps.len() > 2,
    ensures
        text::views(steps[0].1@) == seq![
            "-C"@,
            order.repository@,
            "rev-parse"@,
            "--absolute-git-dir"@,
        ],
        text::views(steps[1].1@) == seq![
            "-C"@,
            order.repository@,
            "check-ref-format"@,
            "--branch"@,
            order.branch@,
        ],
        steps[1].2 is Ok,
        order.base is None ==> text::views(steps[2].1@) == seq![
            "-C"@,
            order.repository@,
            "symbolic-ref"@,
            "--short"@,
            "HEAD"@,
        ],
        !(order.branch@.len() > 0 && order.branch@[0] == '-'),
        order.base is Some ==> !((order.base->0)@.len() > 0 && (order.base->0)@[0] == '-'),
{
    all_are_reached(order, directory, steps, end);
    assert(steps[0].0@.at is Opening);
    assert(steps[1].0@.at is Naming);
    if order.base is None {
        assert(steps[2].0@.at is Defaulting);
    } else {
        assert(steps[2].0@.at is Basing);
    }
}

/// Law: what a bare repository says of itself is moved out of the file that
/// its worktrees share, and only there: it is set in the main tree's own
/// file first, and unset in the shared one after.
pub proof fn a_bare_repository_stays_bare_alone(
    order: &Order,
    directory: String,
    steps: Seq<Step>,
    end: Provisioning,
)
    requires
        provisioned_by(order, directory, steps, end),
        steps.len() > based_at(*order) + 3,
        text::trimmed(steps[based_at(*order) + 1].2->Ok_0@) == "true"@,
        steps[based_at(*order) + 3].2 is Ok,
        text::trimmed(steps[based_at(*order) + 3].2->Ok_0@) == "true"@,
        end is Provisioned,
    ensures
        ({
            let d = based_at(*order);
            let shared = text::trimmed(steps[0].2->Ok_0@) + "/config"@;
            &&& text::views(steps[d + 3].1@) == seq![
                "config"@,
                "--file"@,
                shared,
                "--get"@,
                "core.bare"@,
            ]
            &&& text::views(steps[d + 4].1@) == seq![
                "-C"@,
                order.repository@,
                "config"@,
                "--worktree"@,
                "core.bare"@,
                "true"@,
            ]
            &&& steps[d + 4].2 is Ok
            &&& text::views(steps[d + 5].1@) == seq![
                "config"@,
                "--file"@,
                shared,
                "--unset"@,
                "core.bare"@,
            ]
            &&& steps[d + 5].2 is Ok
        }),
{
    all_are_reached(order, directory, steps, end);
    let n = steps.len() as int;
    let d = based_at(*order);
    let last = steps[n - 1];
    assert(last.0@.went(git::words_of(last.2)) == end@);
    assert(last.0@.at is Addressing);
    assert(steps[n - 2].0@.at is Christening);
    assert(steps[n - 3].0@.at is Adding);
    assert(n - 3 >= d + 3);
    let extending = steps[d + 2];
    assert(extending.0@.at is Extending);
    assert(call_ensures(
        Provision::next,
        (extending.0, extending.2),
        Provisioning::Ask(steps[d + 2 + 1].0),
    ));
    assert(extending.0@.went(git::words_of(extending.2)) == job::ProvisioningView::Ask(
        steps[d + 3].0@,
    ));
    let probing = steps[d + 3];
    assert(probing.0@.at is Probing);
    assert(call_ensures(
        Provision::next,
        (probing.0, probing.2),
        Provisioning::Ask(steps[d + 3 + 1].0),
    ));
    let moving = steps[d + 4];
    assert(moving.0@.at is Moving);
    assert(call_ensures(
        Provision::next,
        (moving.0, moving.2),
        Provisioning::Ask(steps[d + 4 + 1].0),
    ));
    let unsetting = steps[d + 5];
    assert(unsetting.0@.at is Unsetting);
    assert(call_ensures(
        Provision::next,
        (unsetting.0, unsetting.2),
        Provisioning::Ask(steps[d + 5 + 1].0),
    ));
}

/// Law: a repository that is no absolute path is not provisioned from.
pub proof fn only_a_local_path_is_provisioned_from(
    order: &Order,
    directory: String,
    r: Provisioning,
)
    requires
        call_ensures(job::provision, (order, directory), r),
    ensures
        r is Ask <==> order.repository@.len() > 0 && order.repository@[0] == '/',
        !(r is Provisioned),
{
    begins_with_a_slash(order.repository@);
}

proof fn begins_with_a_slash(s: Seq<char>)
    ensures
        text::begins(s, "/"@) <==> s.len() > 0 && s[0] == '/',
{
    reveal_strlit("/");
    if s.len() > 0 {
        assert(s.take(1) =~= seq![s[0]]);
        assert("/"@ =~= seq!['/']);
        assert(seq![s[0]][0] == s[0]);
        assert(seq!['/'][0] == '/');
    }
}

// ----- observing -----

/// Law: a branch advanced just when it has a head that is not its base; a
/// worktree is clean just when git lists nothing; and what is left standing
/// is named by its own directory, unless it was clean and git removed it.
pub proof fn what_is_observed_is_what_git_says(
    workspace: &Workspace,
    head: &Result<String, String>,
    status: &Result<String, String>,
    removed: &Option<Result<String, String>>,
    r: Commits,
)
    requires
        call_ensures(Workspace::observe, (workspace, head, status, removed), r),
    ensures
        *head is Ok ==> r.head@ == text::trimmed(head->Ok_0@),
        *head is Err ==> r.head@.len() == 0 && !r.advanced,
        *head is Ok && r.head@.len() > 0 ==> (r.advanced <==> r.head@ != workspace.base_commit@),
        r.head@.len() == 0 ==> !r.advanced,
        r.clean <==> *status is Ok && text::trimmed(status->Ok_0@).len() == 0,
        r.kept is None <==> r.clean && *removed is Some && removed->0 is Ok,
        r.kept is Some ==> (r.kept->0)@ == workspace.directory@,
{
}

/// Law: a worktree is observed where it stands, and taken out of the
/// repository it belongs to; one that is abandoned goes with its branch.
pub proof fn a_worktree_is_asked_after_where_it_stands(
    workspace: &Workspace,
    head: Vec<String>,
    status: Vec<String>,
    remove: Vec<String>,
    abandon: (Vec<String>, Vec<String>),
)
    requires
        call_ensures(Workspace::head_args, (workspace,), head),
        call_ensures(Workspace::status_args, (workspace,), status),
        call_ensures(Workspace::remove_args, (workspace,), remove),
        call_ensures(Workspace::abandon_args, (workspace,), abandon),
    ensures
        text::views(head@) == seq!["-C"@, workspace.directory@, "rev-parse"@, "HEAD"@],
        text::views(status@) == seq!["-C"@, workspace.directory@, "status"@, "--porcelain"@],
        text::views(remove@) == seq![
            "-C"@,
            workspace.repository@,
            "worktree"@,
            "remove"@,
            "--"@,
            workspace.directory@,
        ],
        text::views(abandon.0@) == seq![
            "-C"@,
            workspace.repository@,
            "worktree"@,
            "remove"@,
            "--force"@,
            "--"@,
            workspace.directory@,
        ],
        text::views(abandon.1@) == seq![
            "-C"@,
            workspace.repository@,
            "branch"@,
            "-D"@,
            workspace.branch@,
        ],
{
}

// ----- who holds a branch -----

proof fn where_a_worktree_opened(lines: Seq<Seq<char>>)
    ensures
        ({
            let at = job::worktree_at(lines);
            ||| exists|j: int|
                0 <= j < lines.len() && #[trigger] lines[j] == "worktree "@ + at && forall|k: int|
                    j < k < lines.len() ==> !text::begins(#[trigger] lines[k], "worktree "@)
            ||| at.len() == 0 && forall|k: int|
                0 <= k < lines.len() ==> !text::begins(#[trigger] lines[k], "worktree "@)
        }),
    decreases lines.len(),
{
    if lines.len() == 0 {
        reveal_strlit("");
    } else {
        let front = lines.drop_last();
        let last = lines.last();
        where_a_worktree_opened(front);
        let n = "worktree "@.len() as int;
        if text::begins(last, "worktree "@) {
            let path = last.skip(n);
            assert(last =~= last.take(n) + path);
            assert(lines[lines.len() - 1] == "worktree "@ + path);
        } else {
            let at = job::worktree_at(front);
            if exists|j: int|
                0 <= j < front.len() && #[trigger] front[j] == "worktree "@ + at && forall|k: int|
                    j < k < front.len() ==> !text::begins(#[trigger] front[k], "worktree "@) {
                let j = choose|j: int|
                    0 <= j < front.len() && #[trigger] front[j] == "worktree "@ + at && forall|
                        k: int,
                    |
                        j < k < front.len() ==> !text::begins(#[trigger] front[k], "worktree "@);
                assert(lines[j] == "worktree "@ + at);
                assert forall|k: int| j < k < lines.len() implies !text::begins(
                    #[trigger] lines[k],
                    "worktree "@,
                ) by {
                    if k < front.len() {
                        assert(front[k] == lines[k]);
                    }
                }
            } else {
                assert forall|k: int| 0 <= k < lines.len() implies !text::begins(
                    #[trigger] lines[k],
                    "worktree "@,
                ) by {
                    if k < front.len() {
                        assert(front[k] == lines[k]);
                    }
                }
            }
        }
    }
}

proof fn where_a_branch_is_held(lines: Seq<Seq<char>>, branch: Seq<char>)
    ensures
        match job::holder_in(lines, branch) {
            Some(holder) => exists|k: int|
                0 <= k < lines.len() && #[trigger] lines[k] == "branch refs/heads/"@ + branch
                    && holder == job::worktree_at(lines.take(k)),
            None => !lines.contains("branch refs/heads/"@ + branch),
        },
    decreases lines.len(),
{
    if lines.len() > 0 {
        let front = lines.drop_last();
        where_a_branch_is_held(front, branch);
        match job::holder_in(front, branch) {
            Some(holder) => {
                let k = choose|k: int|
                    0 <= k < front.len() && #[trigger] front[k] == "branch refs/heads/"@ + branch
                        && holder == job::worktree_at(front.take(k));
                assert(lines[k] == front[k]);
                assert(lines.take(k) =~= front.take(k));
            },
            None => {
                if lines.last() == "branch refs/heads/"@ + branch {
                    let k = lines.len() - 1;
                    assert(lines[k] == lines.last());
                    assert(lines.take(k) =~= front);
                } else {
                    assert forall|k: int| 0 <= k < lines.len() implies lines[k]
                        != "branch refs/heads/"@ + branch by {
                        if k < front.len() {
                            assert(front[k] == lines[k]);
                            assert(front.contains(front[k]));
                        }
                    }
                }
            },
        }
    }
}

/// Law: a branch is held just when git lists a worktree on that very
/// branch, and its holder is the worktree that git was listing there: the
/// last one that the listing opened before it.
pub proof fn a_branch_is_held_by_the_worktree_on_it(
    listing: &str,
    branch: &str,
    r: Option<String>,
)
    requires
        call_ensures(job::holder, (listing, branch), r),
    ensures
        r is Some <==> text::lines(listing@).contains("branch refs/heads/"@ + branch@),
        r is Some && (r->0)@.len() > 0 ==> exists|j: int, k: int|
            {
                &&& 0 <= j < k < text::lines(listing@).len()
                &&& #[trigger] text::lines(listing@)[j] == "worktree "@ + (r->0)@
                &&& #[trigger] text::lines(listing@)[k] == "branch refs/heads/"@ + branch@
                &&& forall|m: int|
                    j < m < k ==> !text::begins(
                        #[trigger] text::lines(listing@)[m],
                        "worktree "@,
                    )
            },
{
    let lines = text::lines(listing@);
    where_a_branch_is_held(lines, branch@);
    if r is Some {
        let k = choose|k: int|
            0 <= k < lines.len() && #[trigger] lines[k] == "branch refs/heads/"@ + branch@ && (
            r->0)@ == job::worktree_at(lines.take(k));
        assert(lines.contains(lines[k]));
        let before = lines.take(k);
        where_a_worktree_opened(before);
        if (r->0)@.len() > 0 {
            let at = (r->0)@;
            let j = choose|j: int|
                0 <= j < before.len() && #[trigger] before[j] == "worktree "@ + at && forall|m: int|
                    j < m < before.len() ==> !text::begins(#[trigger] before[m], "worktree "@);
            assert(lines[j] == before[j]);
            assert forall|m: int| j < m < k implies !text::begins(
                #[trigger] lines[m],
                "worktree "@,
            ) by {
                assert(before[m] == lines[m]);
            }
        }
    }
}

/// Law: a repository is asked for, and its default branch is, where it
/// lies; git's answers are taken without what surrounds them, and its
/// refusals are told.
pub proof fn a_repository_is_asked_where_it_lies(
    repository: &str,
    args: Result<Vec<String>, String>,
    answer: &Result<String, String>,
    found: Result<(), String>,
    branch_args: Vec<String>,
    branch: Result<String, String>,
)
    requires
        call_ensures(job::locate, (repository,), args),
        call_ensures(job::located, (repository, answer), found),
        call_ensures(job::default_branch_args, (repository,), branch_args),
        call_ensures(job::default_branch, (answer,), branch),
    ensures
        args is Ok <==> repository@.len() > 0 && repository@[0] == '/',
        args is Ok ==> text::views(args->Ok_0@) == seq![
            "-C"@,
            repository@,
            "rev-parse"@,
            "--absolute-git-dir"@,
        ],
        found is Ok <==> *answer is Ok,
        *answer is Err ==> found->Err_0@ == repository@ + " is not a git repository: "@
            + answer->Err_0@,
        text::views(branch_args@) == seq![
            "-C"@,
            repository@,
            "symbolic-ref"@,
            "--short"@,
            "HEAD"@,
        ],
        branch is Ok <==> *answer is Ok,
        *answer is Ok ==> branch->Ok_0@ == text::trimmed(answer->Ok_0@),
        *answer is Err ==> branch->Err_0@ == "the repository has no default branch: "@
            + answer->Err_0@,
{
    begins_with_a_slash(repository@);
}

/// Law: of a row no more than the cap is kept, and those are the newest, in
/// their order.
pub proof fn the_newest_are_kept<T>(row: Seq<T>, cap: nat, i: int)
    ensures
        job::last_of(row, cap).len() <= cap,
        row.len() <= cap ==> job::last_of(row, cap) == row,
        row.len() > cap ==> job::last_of(row, cap).len() == cap,
        0 <= i < job::last_of(row, cap).len() ==> job::last_of(row, cap)[job::last_of(
            row,
            cap,
        ).len() - 1 - i] == row[row.len() - 1 - i],
{
}

} // verus!
