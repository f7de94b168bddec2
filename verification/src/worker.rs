//! The worker: Epik's runs, as a local process — what its command line
//! says, and what its exit means.
//!
//! One run per invocation — `--feature <n>` drains a feature's sub-issue
//! graph, `--issue <n>` conducts one issue — against `--target <branch>`.
//! The exit code tells every class of ending apart:
//!
//! - 0 — the run's verdict is done
//! - 1 — the run failed: the verdict's report, or a run that could not be
//!   provisioned
//! - 2 — the command line is malformed
//! - 3 — a capability refusal: one rendered status per stderr line
//! - 4 — a boot-integrity failure

use crate::agent;
use crate::agent::coding::Budget;
use crate::github;
use crate::github::{Issue, Repo};
use crate::keystore::Secret;
use crate::preflight::CapabilityStatus;
use crate::run::{FeatureVerdict, Verdict};
use crate::text;
use vstd::prelude::*;

pub mod laws;

verus! {

/// A conducted run whose verdict is done.
pub const DONE: u8 = 0;

/// A conducted run whose verdict is failure — or one that could not be
/// provisioned.
pub const FAILED: u8 = 1;

/// The command line is malformed.
pub const USAGE: u8 = 2;

/// The preflight refused: a capability is not present.
pub const REFUSED: u8 = 3;

/// Boot integrity: unparseable config, an unwritable Epik home.
pub const BROKEN: u8 = 4;

pub const USAGE_LINE: &'static str =
    "usage: epik-worker (--feature <n> | --issue <n>) --target <branch>";

/// Which run one invocation conducts.
#[derive(Clone, Copy, Debug, Eq, PartialEq, Structural)]
pub enum Job {
    Feature,
    Issue,
}

/// What the command line asks for.
#[derive(Debug, Eq, PartialEq)]
pub struct Cli {
    pub job: Job,
    pub number: u64,
    pub target: String,
}

/// What the command line has said so far.
pub struct CliView {
    pub job: Option<(Job, nat)>,
    pub target: Option<Seq<char>>,
}

/// A complaint, with the usage beneath it.
pub open spec fn complaint(words: Seq<char>) -> Seq<char> {
    words + "\n"@ + USAGE_LINE@
}

/// The run a flag names.
pub open spec fn job_named(flag: Seq<char>) -> Option<Job> {
    if flag == "--feature"@ {
        Some(Job::Feature)
    } else if flag == "--issue"@ {
        Some(Job::Issue)
    } else {
        None
    }
}

/// What a command line says, after what was said before: the first thing
/// wrong with it is what it comes to.
pub open spec fn parsed(said: CliView, args: Seq<Seq<char>>) -> Result<CliView, Seq<char>>
    decreases args.len(),
{
    if args.len() == 0 {
        Ok(said)
    } else if job_named(args[0]) is Some {
        let number = if args.len() > 1 {
            text::parse(args[1], u64::MAX as nat)
        } else {
            None
        };
        match number {
            None => Err(complaint(args[0] + " wants an issue number"@)),
            Some(number) => if said.job is Some {
                Err(complaint("one job per invocation"@))
            } else {
                parsed(
                    CliView { job: Some((job_named(args[0])->0, number)), ..said },
                    args.skip(2),
                )
            },
        }
    } else if args[0] == "--target"@ {
        if args.len() < 2 {
            Err(complaint("--target wants a branch"@))
        } else if said.target is Some {
            Err(complaint("one target per invocation"@))
        } else {
            parsed(CliView { target: Some(args[1]), ..said }, args.skip(2))
        }
    } else {
        Err(complaint("unrecognized argument "@ + text::quoted_as(args[0])))
    }
}

/// What a whole command line asks for.
pub open spec fn asked(args: Seq<Seq<char>>) -> Result<(Job, nat, Seq<char>), Seq<char>> {
    match parsed(CliView { job: None, target: None }, args) {
        Err(words) => Err(words),
        Ok(said) => match said.job {
            None => Err(complaint("say which run: --feature <n> or --issue <n>"@)),
            Some((job, number)) => match said.target {
                None => Err(complaint("say where it merges: --target <branch>"@)),
                Some(target) => Ok((job, number, target)),
            },
        },
    }
}

fn complain(words: &str) -> (r: String)
    ensures
        r@ == complaint(words@),
{
    text::cat3(words, "\n", USAGE_LINE)
}

impl Cli {
    /// What the command line asks for. Hand-rolled, like every host here:
    /// two flags do not earn a dependency.
    ///
    /// # Errors
    ///
    /// The first thing wrong with it, with the usage beneath.
    pub fn parse(args: &Vec<String>) -> (r: Result<Cli, String>)
        ensures
            match r {
                Ok(cli) => asked(text::views(args@)) == Ok::<_, Seq<char>>(
                    (cli.job, cli.number as nat, cli.target@),
                ),
                Err(words) => asked(text::views(args@)) == Err::<(Job, nat, Seq<char>), _>(words@),
            },
    {
        let ghost all = text::views(args@);
        let mut job: Option<(Job, u64)> = None;
        let mut target: Option<String> = None;
        let mut i: usize = 0;
        let n: usize = args.len();
        proof {
            assert(all.skip(0) =~= all);
        }
        while i < n
            invariant
                i <= n == args@.len() == all.len(),
                all == text::views(args@),
                parsed(CliView { job: None, target: None }, all) == parsed(
                    CliView {
                        job: match job {
                            Some((job, number)) => Some((job, number as nat)),
                            None => None,
                        },
                        target: text::optional(target),
                    },
                    all.skip(i as int),
                ),
            decreases n - i,
        {
            let arg = args[i].as_str();
            let ghost rest = all.skip(i as int);
            proof {
                assert(rest[0] == args@[i as int]@);
                if i + 1 < n {
                    assert(rest[1] == args@[i + 1]@);
                    assert(rest.skip(2) =~= all.skip(i + 2));
                }
            }
            let feature = text::same(arg, "--feature");
            if feature || text::same(arg, "--issue") {
                let number = if i + 1 < n {
                    text::parse_number(args[i + 1].as_str(), u64::MAX)
                } else {
                    None
                };
                match number {
                    None => {
                        let words = text::cat2(arg, " wants an issue number");
                        return Err(complain(words.as_str()));
                    },
                    Some(number) => {
                        if job.is_some() {
                            return Err(complain("one job per invocation"));
                        }
                        job = Some(
                            (
                                if feature {
                                    Job::Feature
                                } else {
                                    Job::Issue
                                },
                                number,
                            ),
                        );
                    },
                }
            } else if text::same(arg, "--target") {
                if n - i < 2 {
                    return Err(complain("--target wants a branch"));
                }
                if target.is_some() {
                    return Err(complain("one target per invocation"));
                }
                target = Some(args[i + 1].clone());
            } else {
                let quoted = text::quoted(arg);
                let words = text::cat2("unrecognized argument ", quoted.as_str());
                return Err(complain(words.as_str()));
            }
            i = i + 2;
        }
        match job {
            None => Err(complain("say which run: --feature <n> or --issue <n>")),
            Some((job, number)) => match target {
                None => Err(complain("say where it merges: --target <branch>")),
                Some(target) => Ok(Cli { job, number, target }),
            },
        }
    }
}

/// What the agent's environment is given: credentials injected, never
/// discovered — the agent conducts the pull-request ceremony through `gh`,
/// which answers to either spelling.
pub fn credentialed(token: &Secret) -> (r: Vec<(String, Secret)>)
    ensures
        agent::env_view(r@) == seq![
            ("GH_TOKEN"@, token.bytes()),
            ("GITHUB_TOKEN"@, token.bytes()),
        ],
{
    let r = vec![
        ("GH_TOKEN".to_owned(), token.clone()),
        ("GITHUB_TOKEN".to_owned(), token.clone()),
    ];
    proof {
        assert(agent::env_view(r@) =~= seq![
            ("GH_TOKEN"@, token.bytes()),
            ("GITHUB_TOKEN"@, token.bytes()),
        ]);
    }
    r
}

/// Where a repository is cloned from: GitHub is the only rendezvous, so the
/// clone URL is the repository's own address — never a spelling with a
/// token in it.
pub fn clone_url(repo: &Repo) -> (r: String)
    ensures
        r@ == "https://github.com/"@ + repo.spelled() + ".git"@,
{
    let spelled = repo.to_string();
    text::cat3("https://github.com/", spelled.as_str(), ".git")
}

/// What each run may spend: wide now, tapering by evidence — no token or
/// dollar ceiling yet. The agent's stream narrates every tool call, so ten
/// minutes of true silence is a wedged run, not a slow one.
pub fn budget() -> (r: Budget)
    ensures
        r.max_tokens is None,
        r.max_cost is None,
        r.stall == 600_000,
{
    Budget { max_tokens: None, max_cost: None, stall: 600_000 }
}

/// How long judgment waits for a check still running before calling the
/// run failed, in milliseconds: CI takes minutes, so half an hour is
/// patience, not hope.
pub const PATIENCE: u64 = 1_800_000;

/// The repository the configuration names.
///
/// # Errors
///
/// Words for a name that is no repository's.
pub fn configured(spelling: &str) -> (r: Result<Repo, String>)
    ensures
        match r {
            Ok(repo) => github::spelled_halves(spelling@) == Some((repo.owner@, repo.name@)),
            Err(words) => github::spelled_halves(spelling@) is None && words@ == "worker.repo "@
                + text::quoted_as(spelling@) + " is not an owner/name repository"@,
        },
{
    match Repo::parse(spelling) {
        Some(repo) => Ok(repo),
        None => {
            let quoted = text::quoted(spelling);
            Err(text::cat3("worker.repo ", quoted.as_str(), " is not an owner/name repository"))
        },
    }
}

/// A run, provisioned: everything it is conducted with.
pub struct Run {
    pub job: Job,
    pub repo: Repo,
    /// Where the repository is cloned from.
    pub url: String,
    /// The branch it merges into.
    pub base: String,
    pub issue: Issue,
    /// What the agent's environment is given.
    pub env: Vec<(String, Secret)>,
    /// What the run may spend.
    pub budget: Budget,
    /// How long judgment waits for a check still running, in milliseconds.
    pub patience: u64,
}

impl Run {
    /// Provisions the run the command line asks for, of an issue that was
    /// read, with the token the preflight vouched for.
    pub fn provision(cli: Cli, repo: Repo, issue: Issue, token: &Secret) -> (r: Self)
        ensures
            r.job == cli.job,
            r.repo == repo,
            r.url@ == "https://github.com/"@ + repo.spelled() + ".git"@,
            r.base == cli.target,
            r.issue == issue,
            agent::env_view(r.env@) == seq![
                ("GH_TOKEN"@, token.bytes()),
                ("GITHUB_TOKEN"@, token.bytes()),
            ],
            r.budget == (Budget { max_tokens: None, max_cost: None, stall: 600_000 }),
            r.patience == PATIENCE,
    {
        let url = clone_url(&repo);
        Run {
            job: cli.job,
            repo,
            url,
            base: cli.target,
            issue,
            env: credentialed(token),
            budget: budget(),
            patience: PATIENCE,
        }
    }
}

/// How an invocation ends: what it says, and its exit code.
#[derive(Debug, Eq, PartialEq)]
pub struct Ending {
    pub lines: Vec<String>,
    pub code: u8,
}

/// An [`Ending`] over sequences.
pub struct EndingView {
    pub lines: Seq<Seq<char>>,
    pub code: u8,
}

impl View for Ending {
    type V = EndingView;

    open spec fn view(&self) -> EndingView {
        EndingView { lines: text::views(self.lines@), code: self.code }
    }
}

/// An ending that says one thing.
pub open spec fn saying(line: Seq<char>, code: u8) -> EndingView {
    EndingView { lines: seq![line], code }
}

fn say(line: String, code: u8) -> (r: Ending)
    ensures
        r@ == saying(line@, code),
{
    let lines = vec![line];
    proof {
        assert(text::views(lines@) =~= seq![line@]);
    }
    Ending { lines, code }
}

/// A worktree that outlived its run.
#[derive(Debug, Eq, PartialEq)]
pub enum Retained {
    /// On purpose: the run failed, and what it left is kept to be looked
    /// at.
    Forensics(String),
    /// Not on purpose: it could not be removed, for this reason.
    Undeleted(String, String),
}

/// How a feature run ends: `None` is a run that panicked, which no verdict
/// can stand for.
pub open spec fn feature_ending(verdict: Option<FeatureVerdict>) -> EndingView {
    match verdict {
        None => saying("epik-worker: the run panicked"@, FAILED),
        Some(FeatureVerdict::Done { review }) => saying(
            "review at pull request #"@ + text::decimal(review as nat),
            DONE,
        ),
        Some(FeatureVerdict::Failed { report }) => saying("epik-worker: "@ + report@, FAILED),
    }
}

/// What an issue run says of the worktree it left, if it left one.
pub open spec fn retained_lines(retained: Option<Retained>) -> Seq<Seq<char>> {
    match retained {
        Some(Retained::Forensics(path)) => seq!["worktree retained at "@ + path@],
        Some(Retained::Undeleted(path, error)) => seq![
            "worktree at "@ + path@ + " could not be removed: "@ + error@,
        ],
        None => Seq::empty(),
    }
}

/// How an issue run ends.
pub open spec fn issue_ending(concluded: Option<(Verdict, Option<Retained>)>) -> EndingView {
    match concluded {
        None => saying("epik-worker: the run panicked"@, FAILED),
        Some((Verdict::Done, retained)) => EndingView {
            lines: retained_lines(retained),
            code: DONE,
        },
        Some((Verdict::Failed { report }, retained)) => EndingView {
            lines: retained_lines(retained).push("epik-worker: "@ + report@),
            code: FAILED,
        },
    }
}

impl Ending {
    /// A malformed command line.
    pub fn usage(complaint: String) -> (r: Self)
        ensures
            r@ == saying(complaint@, USAGE),
    {
        say(complaint, USAGE)
    }

    /// A boot-integrity failure: the only class fatal at startup.
    pub fn broken(error: &str) -> (r: Self)
        ensures
            r@ == saying("epik-worker: "@ + error@, BROKEN),
    {
        say(text::cat2("epik-worker: ", error), BROKEN)
    }

    /// A run whose issue could not be read.
    pub fn unread(number: u64, error: &github::Error) -> (r: Self)
        ensures
            r@ == saying(
                "epik-worker: reading issue #"@ + text::decimal(number as nat) + ": "@
                    + error@.words(),
                FAILED,
            ),
    {
        let number = text::number(number);
        let words = error.to_string();
        say(
            text::cat4("epik-worker: reading issue #", number.as_str(), ": ", words.as_str()),
            FAILED,
        )
    }

    /// A preflight that refused: one rendered status per line.
    pub fn refused(refusals: &Vec<CapabilityStatus>) -> (r: Self)
        ensures
            r@.code == REFUSED,
            r@.lines == refusals@.map_values(
                |status: CapabilityStatus| "refused: "@ + status.words(),
            ),
    {
        let mut lines: Vec<String> = Vec::new();
        let mut i: usize = 0;
        while i < refusals.len()
            invariant
                i <= refusals@.len(),
                lines@.len() == i,
                forall|k: int|
                    0 <= k < i ==> (#[trigger] lines@[k])@ == "refused: "@ + refusals@[k].words(),
            decreases refusals@.len() - i,
        {
            let words = refusals[i].to_string();
            lines.push(text::cat2("refused: ", words.as_str()));
            i = i + 1;
        }
        proof {
            assert(text::views(lines@) =~= refusals@.map_values(
                |status: CapabilityStatus| "refused: "@ + status.words(),
            ));
        }
        Ending { lines, code: REFUSED }
    }

    /// A feature run, conducted: its verdict, or `None` when it panicked.
    pub fn of_feature(verdict: &Option<FeatureVerdict>) -> (r: Self)
        ensures
            r@ == feature_ending(*verdict),
    {
        match verdict {
            None => say("epik-worker: the run panicked".to_owned(), FAILED),
            Some(FeatureVerdict::Done { review }) => {
                let review = text::number(*review);
                say(text::cat2("review at pull request #", review.as_str()), DONE)
            },
            Some(FeatureVerdict::Failed { report }) => say(
                text::cat2("epik-worker: ", report.as_str()),
                FAILED,
            ),
        }
    }

    /// An issue run, conducted: its verdict and the worktree it left, or
    /// `None` when it panicked.
    pub fn of_issue(concluded: &Option<(Verdict, Option<Retained>)>) -> (r: Self)
        ensures
            r@ == issue_ending(*concluded),
    {
        match concluded {
            None => say("epik-worker: the run panicked".to_owned(), FAILED),
            Some((verdict, retained)) => {
                let mut lines: Vec<String> = Vec::new();
                match retained {
                    Some(Retained::Forensics(path)) => {
                        lines.push(text::cat2("worktree retained at ", path.as_str()));
                    },
                    Some(Retained::Undeleted(path, error)) => {
                        lines.push(
                            text::cat4(
                                "worktree at ",
                                path.as_str(),
                                " could not be removed: ",
                                error.as_str(),
                            ),
                        );
                    },
                    None => {},
                }
                proof {
                    assert(text::views(lines@) =~= retained_lines(*retained));
                }
                match verdict {
                    Verdict::Done => Ending { lines, code: DONE },
                    Verdict::Failed { report } => {
                        let ghost before = text::views(lines@);
                        lines.push(text::cat2("epik-worker: ", report.as_str()));
                        proof {
                            assert(text::views(lines@) =~= before.push("epik-worker: "@ + report@));
                        }
                        Ending { lines, code: FAILED }
                    },
                }
            },
        }
    }
}

} // verus!
