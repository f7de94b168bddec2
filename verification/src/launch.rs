//! The launch tool: a feature handed to the coding agent, mid-chat.
//!
//! One registry entry sets the run machinery to work. Given a feature
//! issue number, the handler preflights the config-derived manifest, then
//! has the run conducted on a thread of its own and answers as soon as the
//! run is started — naming the run and the log file it narrates into.
//! Implementation belongs to the coding agent: the chat model authors no
//! code and receives no run events, because the run's whole narration goes
//! to its log ([`crate::logs`]) and nowhere near the chat transcript.
//!
//! One run in flight at a time, and refusals are vocabulary: a launch
//! while one is running is a typed [`Error::InFlight`] naming it, and a
//! preflight refusal is the tool's own [`Error::Refused`], rendered for
//! the model like every other tool error. The run's stop token stays here,
//! with the machinery that owns the thread — [`Launcher::stop`] is the one
//! outside reach it answers to, and nothing leaks the token itself.

use crate::agent::coding::Budget;
use crate::chat::{StopToken, ToolSpec, ToolSpecView};
use crate::event::Money;
use crate::github::Repo;
use crate::json::{Json, JsonView};
use crate::keystore::Secret;
use crate::preflight::CapabilityStatus;
use crate::text;
use crate::tools;
use vstd::prelude::*;

pub mod laws;

verus! {

/// What every launched feature shares, handed in once — what of a run does
/// not depend on which issue, plus the host's read of the token override.
/// Everything handed in, nothing discovered.
#[derive(Clone)]
pub struct Launch {
    pub repo: Repo,
    /// Where the repository is cloned from.
    pub url: String,
    /// The branch the review pull request merges into.
    pub base: String,
    /// What each issue run may spend.
    pub budget: Budget,
    /// How long each issue run's judgment waits for a check still running,
    /// in milliseconds.
    pub patience: u64,
    /// Outranks the keystore for the GitHub token: `$EPIK_GITHUB_TOKEN`,
    /// read by the host and handed in — never read here.
    pub token_override: Option<Secret>,
}

// ----- how it is printed -----

/// A text without the noughts it ends with.
pub open spec fn without_noughts(s: Seq<char>) -> Seq<char> {
    text::trim_end_of(s, '0')
}

/// How a time in milliseconds is printed: in seconds, and in milliseconds
/// beneath one.
pub open spec fn time_shown(milliseconds: nat) -> Seq<char> {
    if milliseconds >= 1000 {
        if milliseconds % 1000 == 0 {
            text::decimal(milliseconds / 1000) + "s"@
        } else {
            text::decimal(milliseconds / 1000) + "."@ + without_noughts(
                text::padded(milliseconds % 1000, 3),
            ) + "s"@
        }
    } else if milliseconds > 0 {
        text::decimal(milliseconds) + "ms"@
    } else {
        "0ns"@
    }
}

/// A time in milliseconds, printed.
fn show_time(milliseconds: u64) -> (r: String)
    ensures
        r@ == time_shown(milliseconds as nat),
{
    if milliseconds >= 1000 {
        let seconds = text::number(milliseconds / 1000);
        if milliseconds % 1000 == 0 {
            text::cat2(seconds.as_str(), "s")
        } else {
            let padded = text::zero_padded(milliseconds % 1000, 3);
            let rest = text::trim_end_matches(padded.as_str(), '0');
            text::cat4(seconds.as_str(), ".", rest.as_str(), "s")
        }
    } else if milliseconds > 0 {
        let number = text::number(milliseconds);
        text::cat2(number.as_str(), "ms")
    } else {
        "0ns".to_owned()
    }
}

/// How a budget is printed.
pub open spec fn budget_shown(budget: Budget) -> Seq<char> {
    "Budget { max_tokens: "@ + (match budget.max_tokens {
        Some(n) => "Some("@ + text::decimal(n as nat) + ")"@,
        None => "None"@,
    }) + ", max_cost: "@ + (match budget.max_cost {
        Some(cost) => "Some(Money { micro_usd: "@ + text::decimal(cost.micro_usd as nat) + " })"@,
        None => "None"@,
    }) + ", stall: "@ + time_shown(budget.stall as nat) + " }"@
}

/// A budget, printed.
fn show_budget(budget: &Budget) -> (r: String)
    ensures
        r@ == budget_shown(*budget),
{
    let tokens = match budget.max_tokens {
        Some(n) => {
            let n = text::number(n);
            text::cat3("Some(", n.as_str(), ")")
        },
        None => "None".to_owned(),
    };
    let cost = match budget.max_cost {
        Some(Money { micro_usd }) => {
            let n = text::number(micro_usd);
            text::cat3("Some(Money { micro_usd: ", n.as_str(), " })")
        },
        None => "None".to_owned(),
    };
    let stall = show_time(budget.stall);
    let front = text::cat4("Budget { max_tokens: ", tokens.as_str(), ", max_cost: ", cost.as_str());
    text::cat4(front.as_str(), ", stall: ", stall.as_str(), " }")
}

/// How what every launch shares is printed. The token override is named as
/// present or absent, never spelled.
pub open spec fn launch_shown(launch: Launch) -> Seq<char> {
    "Launch { repo: Repo { owner: "@ + text::quoted_as(launch.repo.owner@) + ", name: "@
        + text::quoted_as(launch.repo.name@) + " }, url: "@ + text::quoted_as(launch.url@)
        + ", base: "@ + text::quoted_as(launch.base@) + ", budget: "@ + budget_shown(launch.budget)
        + ", patience: "@ + time_shown(launch.patience as nat) + ", token_override: "@ + (if
    launch.token_override is Some {
        "Some("@ + text::quoted_as("<redacted>"@) + ")"@
    } else {
        "None"@
    }) + " }"@
}

impl Launch {
    /// Printed with the secret kept out: the token override is named as
    /// present or absent, never spelled — it must land in no log with a
    /// credential in it.
    pub fn debug(&self) -> (r: String)
        ensures
            r@ == launch_shown(*self),
    {
        let owner = text::quoted(self.repo.owner.as_str());
        let name = text::quoted(self.repo.name.as_str());
        let url = text::quoted(self.url.as_str());
        let base = text::quoted(self.base.as_str());
        let budget = show_budget(&self.budget);
        let patience = show_time(self.patience);
        let token = match &self.token_override {
            Some(_) => {
                let redacted = text::quoted("<redacted>");
                text::cat3("Some(", redacted.as_str(), ")")
            },
            None => "None".to_owned(),
        };
        let repo = text::cat4(
            "Launch { repo: Repo { owner: ",
            owner.as_str(),
            ", name: ",
            name.as_str(),
        );
        let urls = text::cat5(repo.as_str(), " }, url: ", url.as_str(), ", base: ", base.as_str());
        let spent = text::cat5(
            urls.as_str(),
            ", budget: ",
            budget.as_str(),
            ", patience: ",
            patience.as_str(),
        );
        text::cat4(spent.as_str(), ", token_override: ", token.as_str(), " }")
    }
}

/// Law: what a launch prints depends on whether there is a token override
/// and never on which.
pub proof fn a_launch_prints_no_token(a: Launch, b: Launch)
    requires
        a.repo.owner@ == b.repo.owner@,
        a.repo.name@ == b.repo.name@,
        a.url@ == b.url@,
        a.base@ == b.base@,
        a.budget == b.budget,
        a.patience == b.patience,
        a.token_override is Some == b.token_override is Some,
    ensures
        launch_shown(a) == launch_shown(b),
{
}

// ----- the slot -----

/// How far the run in flight has come.
#[derive(Clone, Copy, Debug, Eq, PartialEq, Structural)]
pub enum Stage {
    /// The launch is still provisioning: the slot is claimed before the
    /// preflight, and the thread arrives when provisioning ends.
    Provisioning,
    /// A thread conducts the run.
    Conducting,
    /// The thread is finished, which is what frees the slot.
    Finished,
}

/// The run in flight: its name for the refusal that must say it, its stop
/// token, and how far it has come.
struct InFlight {
    run: String,
    stop: StopToken,
    stage: Stage,
}

/// The run in flight over sequences.
pub struct InFlightView {
    pub run: Seq<char>,
    pub stopped: bool,
    pub stage: Stage,
}

/// The launch machinery: what a run is provisioned from, and the single
/// run-in-flight slot.
pub struct Launcher {
    launch: Launch,
    slot: Option<InFlight>,
}

/// A [`Launcher`]'s slot over sequences.
pub type SlotView = Option<InFlightView>;

impl View for Launcher {
    type V = SlotView;

    closed spec fn view(&self) -> SlotView {
        match self.slot {
            Some(flight) => Some(
                InFlightView {
                    run: flight.run@,
                    stopped: flight.stop.set(),
                    stage: flight.stage,
                },
            ),
            None => None,
        }
    }
}

/// The run still in flight: provisioning, or a thread not yet finished.
/// Only a finished thread frees the slot.
pub open spec fn in_flight(slot: SlotView) -> Option<Seq<char>> {
    match slot {
        Some(flight) => if flight.stage == Stage::Finished {
            None
        } else {
            Some(flight.run)
        },
        None => None,
    }
}

/// A run's name.
pub open spec fn run_name(number: nat) -> Seq<char> {
    "feature-"@ + text::decimal(number)
}

/// The slot, claimed for a run that is yet to be provisioned.
pub open spec fn claimed(number: nat) -> SlotView {
    Some(
        InFlightView { run: run_name(number), stopped: false, stage: Stage::Provisioning },
    )
}

/// What became of a launch's provisioning: the preflight, then the log.
pub enum Provisioned {
    /// The preflight refused: every capability that could not stand.
    Refused { refusals: Vec<CapabilityStatus> },
    /// The run's log could not be created.
    Unlogged { error: String },
    /// The log stands and the thread conducts.
    Started { log: String },
}

/// The slot, once provisioning is over: a refused launch frees it on its
/// way out — no rival could have taken it while the claim stood.
pub open spec fn provisioned(slot: SlotView, made: Provisioned) -> SlotView {
    match made {
        Provisioned::Started { .. } => match slot {
            Some(flight) => Some(InFlightView { stage: Stage::Conducting, ..flight }),
            None => None,
        },
        _ => None,
    }
}

/// The slot, once the conducting thread is finished.
pub open spec fn ended(slot: SlotView) -> SlotView {
    match slot {
        Some(flight) => Some(InFlightView { stage: Stage::Finished, ..flight }),
        None => None,
    }
}

/// The slot, once the run in it has been asked to wind up.
pub open spec fn stopped(slot: SlotView) -> SlotView {
    match slot {
        Some(flight) => Some(InFlightView { stopped: true, ..flight }),
        None => None,
    }
}

/// The tool's answer: the run is started, and this is where to find it.
#[derive(Clone, Debug)]
pub struct Launched {
    /// The run's name: "feature-7".
    pub run: String,
    /// The log file the run narrates into — the only place its events go.
    pub log: String,
}

/// Why a launch started no run: the tool's own failure vocabulary,
/// rendered for the model like every other tool error.
#[derive(Debug)]
pub enum Error {
    /// The preflight refused: every capability that could not stand.
    Refused { refusals: Vec<CapabilityStatus> },
    /// One run in flight at a time, and this names the one that is.
    InFlight { running: String },
    /// The run's log could not be created, and a run whose narration has
    /// nowhere durable to land must not start.
    Log { error: String },
}

impl Launched {
    /// The answer as the model reads it.
    pub fn told(&self) -> (r: Json)
        ensures
            r@ == JsonView::record().with("run"@, JsonView::Text(self.run@)).with(
                "log"@,
                JsonView::Text(self.log@),
            ),
    {
        Json::record().with("run", Json::string(self.run.as_str())).with(
            "log",
            Json::string(self.log.as_str()),
        )
    }
}

/// The refusals in words.
pub open spec fn refusal_words(refusals: Seq<CapabilityStatus>) -> Seq<Seq<char>> {
    refusals.map_values(|status: CapabilityStatus| status.words())
}

impl Error {
    /// The error in words.
    pub open spec fn words(&self) -> Seq<char> {
        match self {
            Error::Refused { refusals } => "the preflight refused: "@ + text::join(
                refusal_words(refusals@),
                "; "@,
            ),
            Error::InFlight { running } => running@
                + " is already in flight; one run at a time"@,
            Error::Log { error } => "the run log could not be created: "@ + error@,
        }
    }

    /// The error in words.
    pub fn to_string(&self) -> (r: String)
        ensures
            r@ == self.words(),
    {
        match self {
            Error::Refused { refusals } => {
                let mut words: Vec<String> = Vec::new();
                let mut i: usize = 0;
                while i < refusals.len()
                    invariant
                        i <= refusals@.len(),
                        words@.len() == i,
                        forall|k: int| 0 <= k < i ==> (#[trigger] words@[k])@ == refusals@[k].words(),
                    decreases refusals@.len() - i,
                {
                    words.push(refusals[i].to_string());
                    i = i + 1;
                }
                proof {
                    assert(text::views(words@) =~= refusal_words(refusals@));
                }
                let joined = text::joined(&words, "; ");
                text::cat2("the preflight refused: ", joined.as_str())
            },
            Error::InFlight { running } => text::cat2(
                running.as_str(),
                " is already in flight; one run at a time",
            ),
            Error::Log { error } => text::cat2("the run log could not be created: ", error.as_str()),
        }
    }
}

impl Launcher {
    /// What every launch shares.
    pub closed spec fn shared(&self) -> Launch {
        self.launch
    }

    /// A launcher with nothing in flight.
    pub fn new(launch: Launch) -> (r: Self)
        ensures
            r.shared() == launch,
            r@ is None,
    {
        Launcher { launch, slot: None }
    }

    /// What every launch shares.
    pub fn launched(&self) -> (r: &Launch)
        ensures
            *r == self.shared(),
    {
        &self.launch
    }

    /// Claims the slot for feature `number`, and says the run's name.
    ///
    /// The claim is brief: the preflight can spawn processes and consult
    /// the keyring, so it comes after. A claimed slot with no thread yet
    /// is a launch mid-provisioning, and it refuses rivals like any
    /// conducting run.
    ///
    /// # Errors
    ///
    /// [`Error::InFlight`] while a run is still conducting — one at a
    /// time, and the refusal names it.
    pub fn launch(&mut self, number: u64) -> (r: Result<String, Error>)
        ensures
            final(self).shared() == old(self).shared(),
            match in_flight(old(self)@) {
                Some(running) => {
                    &&& r is Err
                    &&& r->Err_0 is InFlight
                    &&& r->Err_0->running@ == running
                    &&& final(self)@ == old(self)@
                },
                None => {
                    &&& r is Ok
                    &&& r->Ok_0@ == run_name(number as nat)
                    &&& final(self)@ == claimed(number as nat)
                },
            },
    {
        match self.running() {
            Some(running) => Err(Error::InFlight { running }),
            None => {
                let number = text::number(number);
                let run = text::cat2("feature-", number.as_str());
                self.slot = Some(
                    InFlight {
                        run: run.clone(),
                        stop: StopToken::new(),
                        stage: Stage::Provisioning,
                    },
                );
                Ok(run)
            },
        }
    }

    /// Ends the provisioning of the claimed run: its thread lands in the
    /// slot, or the slot is free again.
    ///
    /// # Errors
    ///
    /// [`Error::Refused`] when the preflight cannot stand; [`Error::Log`]
    /// when the run's log cannot be created, because a run whose narration
    /// has nowhere durable to land must not start.
    pub fn provisioned(&mut self, run: String, made: Provisioned) -> (r: Result<Launched, Error>)
        ensures
            final(self).shared() == old(self).shared(),
            final(self)@ == provisioned(old(self)@, made),
            match made {
                Provisioned::Refused { refusals } => r == Err::<Launched, Error>(
                    Error::Refused { refusals },
                ),
                Provisioned::Unlogged { error } => r == Err::<Launched, Error>(
                    Error::Log { error },
                ),
                Provisioned::Started { log } => r == Ok::<Launched, Error>(Launched { run, log }),
            },
    {
        match made {
            Provisioned::Refused { refusals } => {
                self.slot = None;
                Err(Error::Refused { refusals })
            },
            Provisioned::Unlogged { error } => {
                self.slot = None;
                Err(Error::Log { error })
            },
            Provisioned::Started { log } => {
                match &mut self.slot {
                    Some(flight) => {
                        flight.stage = Stage::Conducting;
                    },
                    None => {},
                }
                Ok(Launched { run, log })
            },
        }
    }

    /// The conducting thread is finished.
    pub fn finished(&mut self)
        ensures
            final(self).shared() == old(self).shared(),
            final(self)@ == ended(old(self)@),
    {
        match &mut self.slot {
            Some(flight) => {
                flight.stage = Stage::Finished;
            },
            None => {},
        }
    }

    /// The run in flight's name — "feature-7" — while one is still
    /// conducting.
    pub fn running(&self) -> (r: Option<String>)
        ensures
            text::optional(r) == in_flight(self@),
    {
        match &self.slot {
            Some(flight) => if flight.stage == Stage::Finished {
                None
            } else {
                Some(flight.run.clone())
            },
            None => None,
        }
    }

    /// Asks the run in flight to wind up, when one is. The stop token
    /// stays with the machinery that owns the thread; this verb is the one
    /// outside reach it answers to.
    pub fn stop(&mut self)
        ensures
            final(self).shared() == old(self).shared(),
            final(self)@ == stopped(old(self)@),
    {
        match &mut self.slot {
            Some(flight) => {
                flight.stop.stop();
            },
            None => {},
        }
    }

    /// Whether the run in the slot has been asked to wind up.
    pub fn is_stopped(&self) -> (r: bool)
        ensures
            r == (self@ is Some && self@->0.stopped),
    {
        match &self.slot {
            Some(flight) => flight.stop.is_stopped(),
            None => false,
        }
    }

    /// Printed with the secret kept out.
    pub fn debug(&self) -> (r: String)
        ensures
            r@ == "Launcher { launch: "@ + launch_shown(self.shared()) + ", .. }"@,
    {
        let launch = self.launch.debug();
        text::cat3("Launcher { launch: ", launch.as_str(), ", .. }")
    }
}

/// Law: a claimed run is in flight through its provisioning and its
/// conducting, asked to stop or not, until its thread is finished; so every
/// rival is refused until then.
pub proof fn a_claim_holds_until_its_thread_is_finished(number: nat, log: String)
    ensures
        in_flight(claimed(number)) == Some(run_name(number)),
        in_flight(provisioned(claimed(number), Provisioned::Started { log })) == Some(
            run_name(number),
        ),
        in_flight(stopped(claimed(number))) == Some(run_name(number)),
        in_flight(stopped(provisioned(claimed(number), Provisioned::Started { log }))) == Some(
            run_name(number),
        ),
{
}

/// Law: a launch that was refused, one whose log could not be made, and a
/// run that is finished leave nothing in flight, so the next launch is
/// taken.
pub proof fn what_is_over_frees_the_slot(slot: SlotView, made: Provisioned)
    requires
        !(made is Started),
    ensures
        in_flight(provisioned(slot, made)) is None,
        in_flight(ended(slot)) is None,
{
}

/// Law: stopping with nothing in the slot changes nothing.
pub proof fn stopping_nothing_is_a_quiet_no_op()
    ensures
        stopped(None) == None::<InFlightView>,
{
}

// ----- the face -----

/// The `launch_feature` tool.
pub open spec fn launch_feature_spec() -> ToolSpecView {
    ToolSpecView {
        name: "launch_feature"@,
        description:
            "Set the coding agent to work implementing a feature issue: every open sub-issue gets implemented and merged into the feature branch, and a review pull request is opened when they are all closed. Answers as soon as the run is started, naming the run and the log file it narrates into — the run then proceeds on its own, and this call never waits for it or reports its progress. One run at a time: launching while one is in flight is refused, naming the run that is running."@,
        parameters: tools::schema_of(
            JsonView::record().with(
                "number"@,
                tools::property_of(
                    "integer"@,
                    "The feature issue's number, without the leading #."@,
                ),
            ),
            JsonView::row().also("number"@),
        ),
    }
}

/// The `launch_feature` tool: what the model reads of it.
pub fn launch_feature() -> (r: ToolSpec)
    ensures
        r@ == launch_feature_spec(),
{
    ToolSpec::function(
        "launch_feature".to_owned(),
        "Set the coding agent to work implementing a feature issue: every open sub-issue gets implemented and merged into the feature branch, and a review pull request is opened when they are all closed. Answers as soon as the run is started, naming the run and the log file it narrates into — the run then proceeds on its own, and this call never waits for it or reports its progress. One run at a time: launching while one is in flight is refused, naming the run that is running.".to_owned(),
        tools::schema(
            Json::record().with(
                "number",
                tools::number_arg("The feature issue's number, without the leading #."),
            ),
            Json::row().also("number"),
        ),
    )
}

/// What a call of `launch_feature` asks for.
#[derive(Clone, Copy, Debug, Eq, PartialEq, Structural)]
pub struct LaunchFeature {
    pub number: u64,
}

impl LaunchFeature {
    /// Reads a call's arguments.
    ///
    /// # Errors
    ///
    /// Says which argument is not what it must be.
    pub fn read(arguments: &Json) -> (r: Result<LaunchFeature, String>)
        ensures
            match r {
                Ok(call) => tools::number_of(arguments@, "number"@) == Ok::<nat, Seq<char>>(
                    call.number as nat,
                ),
                Err(words) => tools::number_of(arguments@, "number"@) == Err::<nat, Seq<char>>(
                    words@,
                ),
            },
    {
        match tools::number(arguments, "number") {
            Ok(number) => Ok(LaunchFeature { number }),
            Err(words) => Err(words),
        }
    }
}

} // verus!
