//! What holds of every invocation of the worker.

use crate::agent;
use crate::github;
use crate::github::{Issue, Repo};
use crate::keystore::Secret;
use crate::preflight::CapabilityStatus;
use crate::run::{FeatureVerdict, Verdict};
use crate::text;
use crate::worker;
use crate::worker::{Cli, Ending, Job, Retained, Run};
use vstd::prelude::*;

verus! {

/// Whether a flag names a job.
pub open spec fn names_job(flag: Seq<char>, job: Job) -> bool {
    flag == (if job is Feature {
        "--feature"@
    } else {
        "--issue"@
    })
}

proof fn flags_differ()
    ensures
        "--feature"@ != "--issue"@,
        "--feature"@ != "--target"@,
        "--issue"@ != "--target"@,
{
    reveal_strlit("--feature");
    reveal_strlit("--issue");
    reveal_strlit("--target");
    assert("--feature"@.len() != "--issue"@.len());
    assert("--feature"@.len() != "--target"@.len());
    assert("--issue"@.len() != "--target"@.len());
}

/// Law: a command line says one job and one target, in either order, and
/// nothing else: the number is the one that follows the job's own flag, and
/// the target the word that follows its flag, verbatim.
pub proof fn a_command_line_says_one_job_and_one_target(
    args: &Vec<String>,
    r: Result<Cli, String>,
)
    requires
        call_ensures(Cli::parse, (args,), r),
    ensures
        r is Ok ==> {
            let cli = r->Ok_0;
            let first = names_job(args@[0]@, cli.job) && text::parse(
                args@[1]@,
                u64::MAX as nat,
            ) == Some(cli.number as nat) && args@[2]@ == "--target"@ && args@[3]@ == cli.target@;
            let last = names_job(args@[2]@, cli.job) && text::parse(
                args@[3]@,
                u64::MAX as nat,
            ) == Some(cli.number as nat) && args@[0]@ == "--target"@ && args@[1]@ == cli.target@;
            args@.len() == 4 && (first || last)
        },
        args@.len() == 4 && (args@[0]@ == "--feature"@ || args@[0]@ == "--issue"@) && text::parse(
            args@[1]@,
            u64::MAX as nat,
        ) is Some && args@[2]@ == "--target"@ ==> r is Ok,
        args@.len() == 4 && (args@[2]@ == "--feature"@ || args@[2]@ == "--issue"@) && text::parse(
            args@[3]@,
            u64::MAX as nat,
        ) is Some && args@[0]@ == "--target"@ ==> r is Ok,
{
    flags_differ();
    let all = text::views(args@);
    assert(all.len() == args@.len());
    let none = worker::CliView { job: None, target: None };
    reveal_with_fuel(worker::parsed, 4);
    if all.len() > 0 {
        assert(all[0] == args@[0]@);
    }
    if all.len() > 1 {
        assert(all[1] == args@[1]@);
        let rest = all.skip(2);
        if all.len() > 2 {
            assert(rest[0] == args@[2]@);
        }
        if all.len() > 3 {
            assert(rest[1] == args@[3]@);
            assert(rest.skip(2).len() == all.len() - 4);
        }
    }
}

/// Law: a malformed command line is answered with how it is used.
pub proof fn a_complaint_ends_with_the_usage(args: &Vec<String>, r: Result<Cli, String>)
    requires
        call_ensures(Cli::parse, (args,), r),
        args@.len() == 0,
    ensures
        r is Err,
        r->Err_0@ == "say which run: --feature <n> or --issue <n>"@ + "\n"@
            + "usage: epik-worker (--feature <n> | --issue <n>) --target <branch>"@,
{
    assert(text::views(args@).len() == 0);
}

/// Law: a run does what its command line says, on the repository and the
/// issue it was given, and merges into the target; its child processes find
/// the token under both names that they look for.
pub proof fn a_run_is_what_its_command_line_says(
    cli: Cli,
    repo: Repo,
    issue: Issue,
    token: &Secret,
    r: Run,
)
    requires
        call_ensures(Run::provision, (cli, repo, issue, token), r),
    ensures
        r.job == cli.job,
        r.repo == repo,
        r.url@ == "https://github.com/"@ + repo.owner@ + "/"@ + repo.name@ + ".git"@,
        r.base@ == cli.target@,
        r.issue == issue,
        r.env@.len() == 2,
        r.env@[0].0@ == "GH_TOKEN"@,
        r.env@[0].1.bytes() == token.bytes(),
        r.env@[1].0@ == "GITHUB_TOKEN"@,
        r.env@[1].1.bytes() == token.bytes(),
        r.budget.max_tokens is None,
        r.budget.max_cost is None,
        r.budget.stall == 10 * 60 * 1000,
        r.patience == 30 * 60 * 1000,
{
    let env = agent::env_view(r.env@);
    assert(env.len() == r.env@.len());
    assert(env[0] == (r.env@[0].0@, r.env@[0].1.bytes()));
    assert(env[1] == (r.env@[1].0@, r.env@[1].1.bytes()));
    assert(r.url@ =~= "https://github.com/"@ + repo.owner@ + "/"@ + repo.name@ + ".git"@);
}

/// Law: a repository is configured just by a spelling that parses as one,
/// and is that one.
pub proof fn a_configured_repository_is_the_one_spelled(
    spelling: &str,
    r: Result<Repo, String>,
    parsed: Option<Repo>,
)
    requires
        call_ensures(worker::configured, (spelling,), r),
        call_ensures(Repo::parse, (spelling,), parsed),
    ensures
        r is Ok <==> parsed is Some,
        r is Ok ==> r->Ok_0.owner@ == (parsed->0).owner@ && r->Ok_0.name@ == (parsed->0).name@,
        r is Err ==> r->Err_0@ == "worker.repo "@ + text::quoted_as(spelling@)
            + " is not an owner/name repository"@,
{
}

/// Law: every class of ending has its own code, and only a run whose
/// verdict is done ends in zero.
pub proof fn every_ending_has_its_own_code(
    complaint: String,
    error: &str,
    number: u64,
    failure: &github::Error,
    refusals: &Vec<CapabilityStatus>,
    verdict: &Option<FeatureVerdict>,
    concluded: &Option<(Verdict, Option<Retained>)>,
    usage: Ending,
    broken: Ending,
    unread: Ending,
    refused: Ending,
    of_feature: Ending,
    of_issue: Ending,
)
    requires
        call_ensures(Ending::usage, (complaint,), usage),
        call_ensures(Ending::broken, (error,), broken),
        call_ensures(Ending::unread, (number, failure), unread),
        call_ensures(Ending::refused, (refusals,), refused),
        call_ensures(Ending::of_feature, (verdict,), of_feature),
        call_ensures(Ending::of_issue, (concluded,), of_issue),
    ensures
        usage.code == 2,
        broken.code == 4,
        unread.code == 1,
        refused.code == 3,
        of_feature.code == 0 <==> *verdict is Some && verdict->0 is Done,
        of_feature.code != 0 ==> of_feature.code == 1,
        of_issue.code == 0 <==> *concluded is Some && (concluded->0).0 is Done,
        of_issue.code != 0 ==> of_issue.code == 1,
{
}

/// Law: an ending says what it ended with: the complaint, the error, every
/// refusal on a line of its own, the pull request to review, or the report.
pub proof fn an_ending_says_what_it_ended_with(
    complaint: String,
    error: &str,
    refusals: &Vec<CapabilityStatus>,
    verdict: &Option<FeatureVerdict>,
    usage: Ending,
    broken: Ending,
    refused: Ending,
    of_feature: Ending,
)
    requires
        call_ensures(Ending::usage, (complaint,), usage),
        call_ensures(Ending::broken, (error,), broken),
        call_ensures(Ending::refused, (refusals,), refused),
        call_ensures(Ending::of_feature, (verdict,), of_feature),
    ensures
        text::views(usage.lines@) == seq![complaint@],
        text::views(broken.lines@) == seq!["epik-worker: "@ + error@],
        refused.lines@.len() == refusals@.len(),
        forall|k: int|
            0 <= k < refusals@.len() ==> refused.lines@[k]@ == "refused: "@ + (
            #[trigger] refusals@[k]).words(),
        *verdict is Some && verdict->0 is Done ==> text::views(of_feature.lines@) == seq![
            "review at pull request #"@ + text::decimal((verdict->0)->review as nat),
        ],
        *verdict is Some && verdict->0 is Failed ==> text::views(of_feature.lines@) == seq![
            "epik-worker: "@ + (verdict->0)->report@,
        ],
{
    assert(text::views(refused.lines@).len() == refused.lines@.len());
    assert forall|k: int| 0 <= k < refusals@.len() implies refused.lines@[k]@ == "refused: "@ + (
    #[trigger] refusals@[k]).words() by {
        assert(text::views(refused.lines@)[k] == refused.lines@[k]@);
    }
}

/// Law: an issue's ending says where a worktree was retained, and after
/// that the report of a run that failed.
pub proof fn an_issues_ending_says_what_is_left(
    concluded: &Option<(Verdict, Option<Retained>)>,
    r: Ending,
)
    requires
        call_ensures(Ending::of_issue, (concluded,), r),
        *concluded is Some,
    ensures
        ({
            let (verdict, retained) = concluded->0;
            let n = r.lines@.len();
            &&& n == (if retained is Some {
                1int
            } else {
                0int
            }) + (if verdict is Failed {
                1int
            } else {
                0int
            })
            &&& retained is Some && retained->0 is Forensics ==> r.lines@[0]@
                == "worktree retained at "@ + (retained->0)->Forensics_0@
            &&& retained is Some && retained->0 is Undeleted ==> r.lines@[0]@ == "worktree at "@ + (
            retained->0)->Undeleted_0@ + " could not be removed: "@ + (retained->0)->Undeleted_1@
            &&& verdict is Failed ==> r.lines@[n - 1]@ == "epik-worker: "@ + verdict->report@
        }),
{
    let lines = text::views(r.lines@);
    assert(lines.len() == r.lines@.len());
    if lines.len() > 0 {
        assert(lines[0] == r.lines@[0]@);
        assert(lines[lines.len() - 1] == r.lines@[lines.len() - 1]@);
    }
}

} // verus!
