//! Starting a feature build: everything `start_feature` settles between the
//! call and the answer, one deed at a time.
//!
//! The clone is read before anyone is asked anything — detection and the
//! default base both need it to be real. The reservation comes next: from
//! there the build has a name, before any card is raised, and any failure
//! after it abandons it, with its words, on the way out. Git is the guard of
//! a branch — a feature branch has one worktree — but it is asked here
//! first, so a second build of a held branch is refused in Epik's words,
//! naming the holder. The check is a precondition, raised before anything is
//! dispatched, with detection's proposal prefilled. The branch is
//! established last.

use crate::chat::{Answer, Ask};
use crate::check;
use crate::check::{Check, Markers};
use crate::feature::tools;
use crate::feature::tools::{Flight, Start, StartView};
use crate::feature::{Plan, PlanView, RunId};
use crate::git;
use crate::job;
use crate::json::{Json, JsonView};
use crate::text;
use vstd::prelude::*;

verus! {

/// What is to be done next.
#[derive(Debug)]
pub enum Deed {
    /// Git is to be run.
    Git(Vec<String>),
    /// The build is to be reserved, starting from this base.
    Reserve { base: String },
    /// The feature's plan is to be read from its tracker.
    ReadPlan,
    /// The forge the branch is pushed to is to be found.
    FindForge,
    /// The agents that do the work are to be found.
    FindAgents,
    /// The clone is to be looked at for the markers of a check.
    Look,
    /// The user is to be asked.
    Ask(Ask),
    /// The feature branch is to be established, from this base and under
    /// this check.
    Establish { base: String, check: Option<Check> },
}

/// A [`Deed`] over sequences.
pub enum DeedView {
    Git(Seq<Seq<char>>),
    Reserve { base: Seq<char> },
    ReadPlan,
    FindForge,
    FindAgents,
    Look,
    Ask { prompt: Seq<char>, proposal: Option<Seq<char>> },
    Establish { base: Seq<char>, check: Option<Seq<char>> },
    Other,
}

/// The command of a check.
pub open spec fn command(check: Option<Check>) -> Option<Seq<char>> {
    match check {
        Some(check) => Some(check.command@),
        None => None,
    }
}

impl View for Deed {
    type V = DeedView;

    open spec fn view(&self) -> DeedView {
        match self {
            Deed::Git(args) => DeedView::Git(text::views(args@)),
            Deed::Reserve { base } => DeedView::Reserve { base: base@ },
            Deed::ReadPlan => DeedView::ReadPlan,
            Deed::FindForge => DeedView::FindForge,
            Deed::FindAgents => DeedView::FindAgents,
            Deed::Look => DeedView::Look,
            Deed::Ask(Ask::Check { prompt, proposal }) => DeedView::Ask {
                prompt: prompt@,
                proposal: text::optional(*proposal),
            },
            Deed::Ask(_) => DeedView::Other,
            Deed::Establish { base, check } => DeedView::Establish {
                base: base@,
                check: command(*check),
            },
        }
    }
}

/// What came of a deed.
#[derive(Debug)]
pub enum Heard {
    /// Git's answer.
    Git(Result<String, String>),
    /// The build is reserved, under this run.
    Reserved(RunId),
    /// The plan, or why there is none.
    Plan(Result<Plan, String>),
    /// It is done, or why not.
    Done(Result<(), String>),
    /// The markers in the clone.
    Markers(Markers),
    /// What the user said.
    Answer(Answer),
}

/// A [`Heard`] over sequences: markers by the check they propose, an answer
/// by the command it puts in force.
pub enum HeardView {
    Git(Result<Seq<char>, Seq<char>>),
    Reserved(RunId),
    Plan(Result<PlanView, Seq<char>>),
    Done(Result<(), Seq<char>>),
    Markers(Option<Seq<char>>),
    Answer(Option<Seq<char>>),
}

impl View for Heard {
    type V = HeardView;

    open spec fn view(&self) -> HeardView {
        match self {
            Heard::Git(answer) => HeardView::Git(git::words_of(*answer)),
            Heard::Reserved(run) => HeardView::Reserved(*run),
            Heard::Plan(Ok(plan)) => HeardView::Plan(Ok(plan@)),
            Heard::Plan(Err(words)) => HeardView::Plan(Err(words@)),
            Heard::Done(Ok(_)) => HeardView::Done(Ok(())),
            Heard::Done(Err(words)) => HeardView::Done(Err(words@)),
            Heard::Markers(markers) => HeardView::Markers(check::proposed(*markers)),
            Heard::Answer(answer) => HeardView::Answer(tools::in_force(*answer)),
        }
    }
}

/// How far a launch got, and what is known by then.
#[derive(Debug)]
enum Place {
    /// Whether the clone is a repository.
    Locating,
    /// What its default branch is.
    Defaulting,
    /// The build is being reserved.
    Reserving { base: String },
    /// Whether a build already holds the branch.
    Holding { base: String, run: RunId },
    /// The plan is being read.
    Planning { base: String, run: RunId },
    /// The forge is being found.
    Forging { base: String, run: RunId, plan: Plan },
    /// The agents are being found.
    Manning { base: String, run: RunId, plan: Plan },
    /// The clone is being looked at.
    Looking { base: String, run: RunId, plan: Plan },
    /// The user is being asked.
    Asking { base: String, run: RunId, plan: Plan, proposal: Option<Check> },
    /// The branch is being established.
    Establishing { base: String, run: RunId, plan: Plan, check: Option<Check> },
}

/// How far a launch got, over sequences.
pub enum PlaceView {
    Locating,
    Defaulting,
    Reserving { base: Seq<char> },
    Holding { base: Seq<char>, run: RunId },
    Planning { base: Seq<char>, run: RunId },
    Forging { base: Seq<char>, run: RunId, plan: PlanView },
    Manning { base: Seq<char>, run: RunId, plan: PlanView },
    Looking { base: Seq<char>, run: RunId, plan: PlanView },
    Asking { base: Seq<char>, run: RunId, plan: PlanView, proposal: Option<Seq<char>> },
    Establishing { base: Seq<char>, run: RunId, plan: PlanView, check: Option<Seq<char>> },
}

closed spec fn place_view(place: Place) -> PlaceView {
    match place {
        Place::Locating => PlaceView::Locating,
        Place::Defaulting => PlaceView::Defaulting,
        Place::Reserving { base } => PlaceView::Reserving { base: base@ },
        Place::Holding { base, run } => PlaceView::Holding { base: base@, run },
        Place::Planning { base, run } => PlaceView::Planning { base: base@, run },
        Place::Forging { base, run, plan } => PlaceView::Forging { base: base@, run, plan: plan@ },
        Place::Manning { base, run, plan } => PlaceView::Manning { base: base@, run, plan: plan@ },
        Place::Looking { base, run, plan } => PlaceView::Looking { base: base@, run, plan: plan@ },
        Place::Asking { base, run, plan, proposal } => PlaceView::Asking {
            base: base@,
            run,
            plan: plan@,
            proposal: command(proposal),
        },
        Place::Establishing { base, run, plan, check } => PlaceView::Establishing {
            base: base@,
            run,
            plan: plan@,
            check: command(check),
        },
    }
}

/// A launch in progress.
#[derive(Debug)]
pub struct Launching {
    start: Start,
    at: Place,
}

/// A [`Launching`] over sequences.
pub struct LaunchingView {
    pub start: StartView,
    pub at: PlaceView,
}

impl View for Launching {
    type V = LaunchingView;

    closed spec fn view(&self) -> LaunchingView {
        LaunchingView { start: self.start@, at: place_view(self.at) }
    }
}

/// What a launch comes to next.
#[derive(Debug)]
pub enum Starting {
    /// A deed is to be done, and what came of it handed to the launch.
    Do(Launching),
    /// There will be no build, for these reasons; the run that was reserved
    /// for it is to be abandoned with them.
    Refused { words: String, run: Option<RunId> },
    /// The branch stands: the build of this plan is to be set to work, its
    /// flight to fill the reservation, and the call to be answered so.
    Started { run: RunId, plan: Plan, flight: Flight, answer: Json },
}

/// A [`Starting`] over sequences.
pub enum StartingView {
    Do(LaunchingView),
    Refused { words: Seq<char>, run: Option<RunId> },
    Started { run: RunId, plan: PlanView, check: Option<Seq<char>>, answer: JsonView },
}

impl View for Starting {
    type V = StartingView;

    open spec fn view(&self) -> StartingView {
        match self {
            Starting::Do(launching) => StartingView::Do(launching@),
            Starting::Refused { words, run } => StartingView::Refused { words: words@, run: *run },
            Starting::Started { run, plan, flight, answer } => StartingView::Started {
                run: *run,
                plan: plan@,
                check: text::optional(flight.check),
                answer: answer@,
            },
        }
    }
}

/// A refusal after the build was reserved.
pub open spec fn abandoned(words: Seq<char>, run: RunId) -> StartingView {
    StartingView::Refused { words, run: Some(run) }
}

impl PlaceView {
    /// How far along the place is.
    pub open spec fn rank(self) -> nat {
        match self {
            PlaceView::Locating => 0,
            PlaceView::Defaulting => 1,
            PlaceView::Reserving { .. } => 2,
            PlaceView::Holding { .. } => 3,
            PlaceView::Planning { .. } => 4,
            PlaceView::Forging { .. } => 5,
            PlaceView::Manning { .. } => 6,
            PlaceView::Looking { .. } => 7,
            PlaceView::Asking { .. } => 8,
            PlaceView::Establishing { .. } => 9,
        }
    }

    /// The run that is reserved by then.
    pub open spec fn reserved(self) -> Option<RunId> {
        match self {
            PlaceView::Locating => None,
            PlaceView::Defaulting => None,
            PlaceView::Reserving { .. } => None,
            PlaceView::Holding { run, .. } => Some(run),
            PlaceView::Planning { run, .. } => Some(run),
            PlaceView::Forging { run, .. } => Some(run),
            PlaceView::Manning { run, .. } => Some(run),
            PlaceView::Looking { run, .. } => Some(run),
            PlaceView::Asking { run, .. } => Some(run),
            PlaceView::Establishing { run, .. } => Some(run),
        }
    }
}

impl LaunchingView {
    /// The deed to be done.
    pub open spec fn deed(self) -> DeedView {
        match self.at {
            PlaceView::Locating => DeedView::Git(
                seq!["-C"@, self.start.repository, "rev-parse"@, "--absolute-git-dir"@],
            ),
            PlaceView::Defaulting => DeedView::Git(
                seq!["-C"@, self.start.repository, "symbolic-ref"@, "--short"@, "HEAD"@],
            ),
            PlaceView::Reserving { base } => DeedView::Reserve { base },
            PlaceView::Holding { .. } => DeedView::Git(
                seq!["-C"@, self.start.repository, "worktree"@, "list"@, "--porcelain"@],
            ),
            PlaceView::Planning { .. } => DeedView::ReadPlan,
            PlaceView::Forging { .. } => DeedView::FindForge,
            PlaceView::Manning { .. } => DeedView::FindAgents,
            PlaceView::Looking { .. } => DeedView::Look,
            PlaceView::Asking { proposal, .. } => DeedView::Ask {
                prompt: tools::card_of(self.start.feature, self.start.branch),
                proposal,
            },
            PlaceView::Establishing { base, check, .. } => DeedView::Establish { base, check },
        }
    }

    /// Whether this could come of the deed.
    pub open spec fn expects(self, heard: HeardView) -> bool {
        match self.at {
            PlaceView::Locating => heard is Git,
            PlaceView::Defaulting => heard is Git,
            PlaceView::Reserving { .. } => heard is Reserved,
            PlaceView::Holding { .. } => heard is Git,
            PlaceView::Planning { .. } => heard is Plan,
            PlaceView::Forging { .. } => heard is Done,
            PlaceView::Manning { .. } => heard is Done,
            PlaceView::Looking { .. } => heard is Markers,
            PlaceView::Asking { .. } => heard is Answer,
            PlaceView::Establishing { .. } => heard is Done,
        }
    }

    /// The launch at another place.
    pub open spec fn reaching(self, at: PlaceView) -> StartingView {
        StartingView::Do(LaunchingView { at, ..self })
    }

    /// What the launch comes to, once its deed is done.
    pub open spec fn went(self, heard: HeardView) -> StartingView {
        match (self.at, heard) {
            (PlaceView::Locating, HeardView::Git(Ok(_))) => match self.start.base {
                Some(base) => self.reaching(PlaceView::Reserving { base }),
                None => self.reaching(PlaceView::Defaulting),
            },
            (PlaceView::Locating, HeardView::Git(Err(words))) => StartingView::Refused {
                words: self.start.repository + " is not a git repository: "@ + words,
                run: None,
            },
            (PlaceView::Defaulting, HeardView::Git(Ok(base))) => self.reaching(
                PlaceView::Reserving { base: text::trimmed(base) },
            ),
            (PlaceView::Defaulting, HeardView::Git(Err(words))) => StartingView::Refused {
                words: "the repository has no default branch: "@ + words,
                run: None,
            },
            (PlaceView::Reserving { base }, HeardView::Reserved(run)) => self.reaching(
                PlaceView::Holding { base, run },
            ),
            (PlaceView::Holding { base, run }, HeardView::Git(Ok(listing))) => match job::holder_in(
                text::lines(listing),
                self.start.branch,
            ) {
                Some(holder) => abandoned(held_words(self.start.branch, holder), run),
                None => self.reaching(PlaceView::Planning { base, run }),
            },
            (PlaceView::Holding { run, .. }, HeardView::Git(Err(words))) => abandoned(words, run),
            (PlaceView::Planning { base, run }, HeardView::Plan(Ok(plan))) => self.reaching(
                PlaceView::Forging { base, run, plan },
            ),
            (PlaceView::Planning { run, .. }, HeardView::Plan(Err(words))) => abandoned(words, run),
            (PlaceView::Forging { base, run, plan }, HeardView::Done(Ok(_))) => self.reaching(
                PlaceView::Manning { base, run, plan },
            ),
            (PlaceView::Forging { run, .. }, HeardView::Done(Err(words))) => abandoned(words, run),
            (PlaceView::Manning { base, run, plan }, HeardView::Done(Ok(_))) => self.reaching(
                PlaceView::Looking { base, run, plan },
            ),
            (PlaceView::Manning { run, .. }, HeardView::Done(Err(words))) => abandoned(words, run),
            (PlaceView::Looking { base, run, plan }, HeardView::Markers(proposal)) => self.reaching(
                PlaceView::Asking { base, run, plan, proposal },
            ),
            (PlaceView::Asking { base, run, plan, .. }, HeardView::Answer(check)) => self.reaching(
                PlaceView::Establishing { base, run, plan, check },
            ),
            (
                PlaceView::Establishing { base, run, plan, check },
                HeardView::Done(Ok(_)),
            ) => StartingView::Started {
                run,
                plan,
                check,
                answer: tools::started_answer(run, self.start, base, check, plan),
            },
            (PlaceView::Establishing { run, .. }, HeardView::Done(Err(words))) => abandoned(
                words,
                run,
            ),
            (_, _) => StartingView::Do(self),
        }
    }
}

/// The words for a branch a build already holds.
pub open spec fn held_words(branch: Seq<char>, holder: Seq<char>) -> Seq<char> {
    "feature branch "@ + text::quoted_as(branch) + " is already checked out by a build at "@
        + holder + "; one build owns a feature branch at a time"@
}

/// What a launch comes to before anything is done: a clone that is no
/// absolute path is refused.
pub open spec fn opened(start: StartView) -> StartingView {
    if text::begins(start.repository, "/"@) {
        StartingView::Do(LaunchingView { start, at: PlaceView::Locating })
    } else {
        StartingView::Refused {
            words: "the repository must be an absolute local path for now, not "@
                + text::quoted_as(start.repository),
            run: None,
        }
    }
}

/// Opens a launch: the first thing to do, or the refusal of one nothing can
/// come of.
pub fn launch(start: Start) -> (r: Starting)
    ensures
        r@ == opened(start@),
{
    match job::locate(start.repository.as_str()) {
        Ok(_) => Starting::Do(Launching { start, at: Place::Locating }),
        Err(words) => Starting::Refused { words, run: None },
    }
}

fn copied(check: &Option<Check>) -> (r: Option<Check>)
    ensures
        command(r) == command(*check),
{
    match check {
        Some(check) => Some(Check { command: check.command.clone() }),
        None => None,
    }
}

fn args(
    repository: &str,
    second: &str,
    third: &str,
    fourth: &str,
) -> (r: Vec<String>)
    ensures
        text::views(r@) == seq!["-C"@, repository@, second@, third@, fourth@],
{
    let r = vec![
        "-C".to_owned(),
        repository.to_owned(),
        second.to_owned(),
        third.to_owned(),
        fourth.to_owned(),
    ];
    proof {
        assert(text::views(r@) =~= seq!["-C"@, repository@, second@, third@, fourth@]);
    }
    r
}

impl Launching {
    /// The deed to be done.
    pub fn deed(&self) -> (r: Deed)
        ensures
            r@ == self@.deed(),
    {
        let repository = self.start.repository.as_str();
        match &self.at {
            Place::Locating => {
                let args = vec![
                    "-C".to_owned(),
                    repository.to_owned(),
                    "rev-parse".to_owned(),
                    "--absolute-git-dir".to_owned(),
                ];
                proof {
                    assert(text::views(args@) =~= seq![
                        "-C"@,
                        self.start.repository@,
                        "rev-parse"@,
                        "--absolute-git-dir"@,
                    ]);
                }
                Deed::Git(args)
            },
            Place::Defaulting => Deed::Git(job::default_branch_args(repository)),
            Place::Reserving { base } => Deed::Reserve { base: base.clone() },
            Place::Holding { .. } => Deed::Git(
                args(repository, "worktree", "list", "--porcelain"),
            ),
            Place::Planning { .. } => Deed::ReadPlan,
            Place::Forging { .. } => Deed::FindForge,
            Place::Manning { .. } => Deed::FindAgents,
            Place::Looking { .. } => Deed::Look,
            Place::Asking { proposal, .. } => Deed::Ask(
                tools::ask(&self.start.feature, self.start.branch.as_str(), copied(proposal)),
            ),
            Place::Establishing { base, check, .. } => Deed::Establish {
                base: base.clone(),
                check: copied(check),
            },
        }
    }

    /// What the launch comes to, once its deed is done.
    pub fn next(self, heard: Heard) -> (r: Starting)
        requires
            self@.expects(heard@),
        ensures
            r@ == self@.went(heard@),
            r is Started ==> {
                &&& r->flight.feature.0@ == self@.start.feature
                &&& r->flight.repository@ == self@.start.repository
                &&& r->flight.branch@ == self@.start.branch
            },
    {
        let Launching { start, at } = self;
        match (at, heard) {
            (Place::Locating, Heard::Git(answer)) => match job::located(
                start.repository.as_str(),
                &answer,
            ) {
                Ok(_) => {
                    let named = match &start.base {
                        Some(base) => Some(base.clone()),
                        None => None,
                    };
                    match named {
                        Some(base) => Starting::Do(
                            Launching { start, at: Place::Reserving { base } },
                        ),
                        None => Starting::Do(Launching { start, at: Place::Defaulting }),
                    }
                },
                Err(words) => Starting::Refused { words, run: None },
            },
            (Place::Defaulting, Heard::Git(answer)) => match job::default_branch(&answer) {
                Ok(base) => Starting::Do(Launching { start, at: Place::Reserving { base } }),
                Err(words) => Starting::Refused { words, run: None },
            },
            (Place::Reserving { base }, Heard::Reserved(run)) => Starting::Do(
                Launching { start, at: Place::Holding { base, run } },
            ),
            (Place::Holding { base, run }, Heard::Git(Ok(listing))) => match job::holder(
                listing.as_str(),
                start.branch.as_str(),
            ) {
                Some(holder) => Starting::Refused {
                    words: start.held(holder.as_str()),
                    run: Some(run),
                },
                None => Starting::Do(Launching { start, at: Place::Planning { base, run } }),
            },
            (Place::Planning { base, run }, Heard::Plan(Ok(plan))) => Starting::Do(
                Launching { start, at: Place::Forging { base, run, plan } },
            ),
            (Place::Forging { base, run, plan }, Heard::Done(Ok(_))) => Starting::Do(
                Launching { start, at: Place::Manning { base, run, plan } },
            ),
            (Place::Manning { base, run, plan }, Heard::Done(Ok(_))) => Starting::Do(
                Launching { start, at: Place::Looking { base, run, plan } },
            ),
            (Place::Looking { base, run, plan }, Heard::Markers(markers)) => {
                let proposal = check::detect(&markers);
                Starting::Do(Launching { start, at: Place::Asking { base, run, plan, proposal } })
            },
            (Place::Asking { base, run, plan, .. }, Heard::Answer(answer)) => {
                let check = tools::confirmed(&answer);
                Starting::Do(
                    Launching { start, at: Place::Establishing { base, run, plan, check } },
                )
            },
            (Place::Establishing { base, run, plan, check }, Heard::Done(Ok(_))) => {
                let command = match check {
                    Some(check) => Some(check.command),
                    None => None,
                };
                let answer = start.answer(run, base.as_str(), &command, &plan);
                Starting::Started { run, plan, flight: start.flight(command), answer }
            },
            (Place::Holding { run, .. }, Heard::Git(Err(words))) => Starting::Refused {
                words,
                run: Some(run),
            },
            (Place::Planning { run, .. }, Heard::Plan(Err(words))) => Starting::Refused {
                words,
                run: Some(run),
            },
            (Place::Forging { run, .. }, Heard::Done(Err(words))) => Starting::Refused {
                words,
                run: Some(run),
            },
            (Place::Manning { run, .. }, Heard::Done(Err(words))) => Starting::Refused {
                words,
                run: Some(run),
            },
            (Place::Establishing { run, .. }, Heard::Done(Err(words))) => Starting::Refused {
                words,
                run: Some(run),
            },
            (at, _) => Starting::Do(Launching { start, at }),
        }
    }
}

// ----- what every launch keeps -----

/// Law: a launch goes forward one place at a time, past the default
/// branch's where a base was named. So by the time the user is asked the
/// clone has been found to be a repository, the build is reserved, no build
/// holds the branch, and the plan, the forge and the agents are in hand.
pub proof fn a_launch_goes_in_order(launching: LaunchingView, heard: HeardView)
    requires
        launching.expects(heard),
    ensures
        launching.went(heard) matches StartingView::Do(next) ==> {
            &&& next.start == launching.start
            &&& next.at.rank() > launching.at.rank()
            &&& next.at.rank() == launching.at.rank() + 1 || (launching.at is Locating
                && launching.start.base is Some && next.at.rank() == 2)
        },
        launching.deed() is Ask <==> launching.at.rank() == 8,
{
}

/// Law: a launch that is refused once its build is reserved hands the
/// reservation back to be abandoned with the words of the refusal, and one
/// refused before has none; so no path between reserving and running can
/// fail silently.
pub proof fn a_refused_launch_hands_back_its_reservation(
    launching: LaunchingView,
    heard: HeardView,
)
    requires
        launching.expects(heard),
    ensures
        launching.went(heard) matches StartingView::Refused { run, .. } ==> run
            == launching.at.reserved(),
        launching.went(heard) matches StartingView::Do(next) ==> (launching.at.reserved() is Some
            ==> next.at.reserved() == launching.at.reserved()),
        launching.went(heard) matches StartingView::Started { run, .. } ==> Some(run)
            == launching.at.reserved(),
{
}

/// Law: what the user confirmed is the check the branch is established
/// under and the build started with; a card that was declined leaves it
/// unchecked.
pub proof fn the_check_in_force_is_the_one_confirmed(
    asking: LaunchingView,
    confirmed: Option<Seq<char>>,
)
    requires
        asking.at is Asking,
    ensures
        ({
            let next = asking.went(HeardView::Answer(confirmed));
            let ended = next->Do_0.went(HeardView::Done(Ok(())));
            &&& next is Do
            &&& next->Do_0.deed() is Establish
            &&& next->Do_0.deed()->Establish_check == confirmed
            &&& ended is Started
            &&& ended->Started_check == confirmed
        }),
{
}

} // verus!
