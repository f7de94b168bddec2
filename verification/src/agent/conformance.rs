//! The contract, enforced: hostile scripts every [`CodingAgent`] must
//! survive.
//!
//! Governance lives inside each implementation — a black box mid-`run`
//! cannot be killed from outside — which means nothing but a trial can hold
//! a wrapper to the budget, the stall window, and the terminal `Finished`.
//! This module is that trial, `pub` so the next implementation runs the same
//! gauntlet: a wrapper around a real binary conforms by translating each
//! [`Play`] into the feed its agent reads. The contract is machinery, not
//! vigilance.

use crate::agent::coding;
use crate::agent::coding::{AgentEvent, Budget, CodingAgent, Play, Script, Stop, Task, TaskKind};
use crate::chat::StopToken;
use crate::event::{Money, Usage};
use crate::text;
use vstd::prelude::*;

verus! {

/// A [`Stop`] over sequences.
pub enum StopView {
    Completed,
    Spent,
    Stalled,
    Canceled,
    Died { error: Seq<char> },
}

/// How a run ended, over sequences.
pub open spec fn stop_view(stop: Stop) -> StopView {
    match stop {
        Stop::Completed => StopView::Completed,
        Stop::Spent => StopView::Spent,
        Stop::Stalled => StopView::Stalled,
        Stop::Canceled => StopView::Canceled,
        Stop::Died { error } => StopView::Died { error: error@ },
    }
}

/// A [`Play`] over sequences.
pub enum PlayView {
    Progress(Seq<char>),
    Usage(Usage),
    Silence(nat),
    Finish(StopView),
}

/// One beat, over sequences.
pub open spec fn play_view(play: Play) -> PlayView {
    match play {
        Play::Progress(text) => PlayView::Progress(text@),
        Play::Usage(usage) => PlayView::Usage(usage),
        Play::Silence(time) => PlayView::Silence(time as nat),
        Play::Finish(stop) => PlayView::Finish(stop_view(stop)),
    }
}

/// A script, over sequences.
pub open spec fn script_view(script: Seq<Play>) -> Seq<PlayView> {
    script.map_values(|play: Play| play_view(play))
}

/// One trial: a feed, what the run may spend, whether it was stopped
/// before it began, and what must come of it.
#[derive(Debug)]
pub struct Scenario {
    /// The clause a run breaks that ends otherwise.
    pub clause: String,
    pub script: Script,
    pub budget: Budget,
    pub stopped: bool,
    /// How the run must end.
    pub expected: Stop,
    /// All that the run may say it did, where that is pinned.
    pub progresses: Option<Vec<String>>,
    /// The last reading of usage, where that is pinned: authoritative.
    pub last_usage: Option<Usage>,
}

/// A [`Scenario`] over sequences.
pub struct ScenarioView {
    pub clause: Seq<char>,
    pub script: Seq<PlayView>,
    pub budget: Budget,
    pub stopped: bool,
    pub expected: StopView,
    pub progresses: Option<Seq<Seq<char>>>,
    pub last_usage: Option<Usage>,
}

impl View for Scenario {
    type V = ScenarioView;

    open spec fn view(&self) -> ScenarioView {
        ScenarioView {
            clause: self.clause@,
            script: script_view(self.script@),
            budget: self.budget,
            stopped: self.stopped,
            expected: stop_view(self.expected),
            progresses: match self.progresses {
                Some(texts) => Some(text::views(texts@)),
                None => None,
            },
            last_usage: self.last_usage,
        }
    }
}

/// A minute of everything: roomy enough that no benign script trips it, so
/// each trial tightens exactly the ceiling it is about.
pub open spec fn roomy_budget() -> Budget {
    Budget {
        max_tokens: Some(1_000_000),
        max_cost: Some(Money { micro_usd: 100_000_000 }),
        stall: 60_000,
    }
}

fn roomy() -> (r: Budget)
    ensures
        r == roomy_budget(),
{
    Budget {
        max_tokens: Some(1_000_000),
        max_cost: Some(Money { micro_usd: 100_000_000 }),
        stall: 60_000,
    }
}

// ----- judging a run -----

/// What the run said it did, in order.
pub open spec fn progresses_of(events: Seq<AgentEvent>) -> Seq<Seq<char>>
    decreases events.len(),
{
    if events.len() == 0 {
        Seq::empty()
    } else {
        match events.last() {
            AgentEvent::Progress(text) => progresses_of(events.drop_last()).push(text@),
            _ => progresses_of(events.drop_last()),
        }
    }
}

/// The readings of usage, in order.
pub open spec fn readings(events: Seq<AgentEvent>) -> Seq<Usage>
    decreases events.len(),
{
    if events.len() == 0 {
        Seq::empty()
    } else {
        match events.last() {
            AgentEvent::Usage(usage) => readings(events.drop_last()).push(usage),
            _ => readings(events.drop_last()),
        }
    }
}

/// How many events are the end.
pub open spec fn finishes(events: Seq<AgentEvent>) -> nat
    decreases events.len(),
{
    if events.len() == 0 {
        0
    } else {
        finishes(events.drop_last()) + if events.last() is Finished {
            1nat
        } else {
            0
        }
    }
}

/// Whether `later` reads at least `earlier` in every denomination — a count
/// or a cost, once reported, neither shrinks nor disappears.
pub open spec fn never_backward(earlier: Usage, later: Usage) -> bool {
    &&& later.prompt_tokens >= earlier.prompt_tokens
    &&& later.completion_tokens >= earlier.completion_tokens
    &&& match (earlier.cache_tokens, later.cache_tokens) {
        (Some(earlier), Some(later)) => later >= earlier,
        (Some(_), None) => false,
        (None, _) => true,
    }
    &&& match (earlier.cost, later.cost) {
        (Some(earlier), Some(later)) => later.micro_usd >= earlier.micro_usd,
        (Some(_), None) => false,
        (None, _) => true,
    }
}

/// Whether each reading is at least the one before it.
pub open spec fn cumulative(readings: Seq<Usage>) -> bool {
    forall|i: int|
        0 < i < readings.len() ==> never_backward(readings[i - 1], #[trigger] readings[i])
}

/// The words of the clauses every run is held to.
pub const UNNAMED: &'static str = "a run names its agent before anything else";

pub const NOT_ONE_END: &'static str = "exactly one Finished per run";

pub const AFTER_THE_END: &'static str = "nothing is emitted after Finished";

pub const TWO_STORIES: &'static str = "the returned stop and the Finished event tell one story";

pub const BACKWARD: &'static str = "usage totals are cumulative and never run backward";

/// The first clause a run breaks, of those every run is held to.
pub open spec fn broken(events: Seq<AgentEvent>, stop: Stop) -> Option<Seq<char>> {
    if events.len() == 0 || !(events[0] is Started) {
        Some(UNNAMED@)
    } else if finishes(events) != 1 {
        Some(NOT_ONE_END@)
    } else if !(events.last() is Finished) {
        Some(AFTER_THE_END@)
    } else if stop_view(events.last()->Finished_0) != stop_view(stop) {
        Some(TWO_STORIES@)
    } else if !cumulative(readings(events)) {
        Some(BACKWARD@)
    } else {
        None
    }
}

/// The first clause a run breaks in a trial: one every run is held to, or
/// the trial's own.
pub open spec fn failed(scenario: ScenarioView, events: Seq<AgentEvent>, stop: Stop) -> Option<
    Seq<char>,
> {
    if broken(events, stop) is Some {
        broken(events, stop)
    } else if stop_view(stop) != scenario.expected {
        Some(scenario.clause)
    } else if scenario.progresses is Some && progresses_of(events) != scenario.progresses->0 {
        Some(scenario.clause)
    } else if scenario.last_usage is Some && (readings(events).len() == 0 || readings(events).last()
        != scenario.last_usage->0) {
        Some(scenario.clause)
    } else {
        None
    }
}

fn same_stop(a: &Stop, b: &Stop) -> (r: bool)
    ensures
        r == (stop_view(*a) == stop_view(*b)),
{
    match (a, b) {
        (Stop::Completed, Stop::Completed) => true,
        (Stop::Spent, Stop::Spent) => true,
        (Stop::Stalled, Stop::Stalled) => true,
        (Stop::Canceled, Stop::Canceled) => true,
        (Stop::Died { error: a }, Stop::Died { error: b }) => text::same(a.as_str(), b.as_str()),
        _ => false,
    }
}

/// Whether `later` reads at least `earlier` in every denomination — a count
/// or a cost, once reported, neither shrinks nor disappears.
pub fn nondecreasing(earlier: &Usage, later: &Usage) -> (r: bool)
    ensures
        r == never_backward(*earlier, *later),
{
    let cache = match (earlier.cache_tokens, later.cache_tokens) {
        (Some(earlier), Some(later)) => later >= earlier,
        (Some(_), None) => false,
        (None, _) => true,
    };
    let cost = match (earlier.cost, later.cost) {
        (Some(earlier), Some(later)) => later.micro_usd >= earlier.micro_usd,
        (Some(_), None) => false,
        (None, _) => true,
    };
    later.prompt_tokens >= earlier.prompt_tokens && later.completion_tokens
        >= earlier.completion_tokens && cache && cost
}

/// What a run says, sorted out: what it did, its readings, and how many
/// ends it had.
fn sorted_out(events: &Vec<AgentEvent>) -> (r: (Vec<String>, Vec<Usage>, usize))
    ensures
        text::views(r.0@) == progresses_of(events@),
        r.1@ == readings(events@),
        r.2 == finishes(events@),
{
    let mut said: Vec<String> = Vec::new();
    let mut read: Vec<Usage> = Vec::new();
    let mut ends: usize = 0;
    let mut i: usize = 0;
    proof {
        assert(text::views(said@) =~= Seq::empty());
    }
    while i < events.len()
        invariant
            i <= events@.len(),
            text::views(said@) == progresses_of(events@.take(i as int)),
            read@ == readings(events@.take(i as int)),
            ends == finishes(events@.take(i as int)),
            ends <= i,
        decreases events@.len() - i,
    {
        proof {
            assert(events@.take(i + 1).drop_last() =~= events@.take(i as int));
            assert(events@.take(i + 1).last() == events@[i as int]);
        }
        let ghost before = text::views(said@);
        match &events[i] {
            AgentEvent::Progress(text) => {
                said.push(text.clone());
                proof {
                    assert(text::views(said@) =~= before.push(text@));
                }
            },
            AgentEvent::Usage(usage) => {
                read.push(*usage);
            },
            AgentEvent::Finished(_) => {
                ends = ends + 1;
            },
            AgentEvent::Started { .. } => {},
        }
        i = i + 1;
    }
    proof {
        assert(events@.take(i as int) =~= events@);
    }
    (said, read, ends)
}

fn is_cumulative(read: &Vec<Usage>) -> (r: bool)
    ensures
        r == cumulative(read@),
{
    let mut i: usize = 1;
    while i < read.len()
        invariant
            1 <= i,
            forall|k: int| 0 < k < i && k < read@.len() ==> never_backward(
                read@[k - 1],
                #[trigger] read@[k],
            ),
        decreases read@.len() - i,
    {
        if !nondecreasing(&read[i - 1], &read[i]) {
            proof {
                assert(!never_backward(read@[i - 1], read@[i as int]));
            }
            return false;
        }
        i = i + 1;
    }
    true
}

fn same_texts(a: &Vec<String>, b: &Vec<String>) -> (r: bool)
    ensures
        r == (text::views(a@) == text::views(b@)),
{
    proof {
        assert(text::views(a@).len() == a@.len());
        assert(text::views(b@).len() == b@.len());
    }
    if a.len() != b.len() {
        return false;
    }
    let mut i: usize = 0;
    while i < a.len()
        invariant
            i <= a@.len() == b@.len(),
            forall|k: int| 0 <= k < i ==> (#[trigger] a@[k])@ == b@[k]@,
        decreases a@.len() - i,
    {
        if !text::same(a[i].as_str(), b[i].as_str()) {
            proof {
                assert(text::views(a@)[i as int] != text::views(b@)[i as int]);
            }
            return false;
        }
        i = i + 1;
    }
    proof {
        assert(text::views(a@) =~= text::views(b@));
    }
    true
}

fn same_usage(a: &Usage, b: &Usage) -> (r: bool)
    ensures
        r == (*a == *b),
{
    let cache = match (a.cache_tokens, b.cache_tokens) {
        (Some(a), Some(b)) => a == b,
        (None, None) => true,
        _ => false,
    };
    let cost = match (a.cost, b.cost) {
        (Some(a), Some(b)) => a.micro_usd == b.micro_usd,
        (None, None) => true,
        _ => false,
    };
    a.prompt_tokens == b.prompt_tokens && a.completion_tokens == b.completion_tokens && cache
        && cost
}

impl Scenario {
    /// Judges a run in this trial.
    ///
    /// # Errors
    ///
    /// The clause it breaks.
    pub fn judge(&self, events: &Vec<AgentEvent>, stop: &Stop) -> (r: Result<(), String>)
        ensures
            match r {
                Ok(_) => failed(self@, events@, *stop) is None,
                Err(clause) => failed(self@, events@, *stop) == Some(clause@),
            },
    {
        let n: usize = events.len();
        let named = n > 0 && match &events[0] {
            AgentEvent::Started { .. } => true,
            _ => false,
        };
        if !named {
            return Err(UNNAMED.to_owned());
        }
        let (said, read, ends) = sorted_out(events);
        if ends != 1 {
            return Err(NOT_ONE_END.to_owned());
        }
        match &events[n - 1] {
            AgentEvent::Finished(end) => if !same_stop(end, stop) {
                return Err(TWO_STORIES.to_owned());
            },
            _ => return Err(AFTER_THE_END.to_owned()),
        }
        if !is_cumulative(&read) {
            return Err(BACKWARD.to_owned());
        }
        if !same_stop(stop, &self.expected) {
            return Err(self.clause.clone());
        }
        match &self.progresses {
            Some(expected) => if !same_texts(&said, expected) {
                return Err(self.clause.clone());
            },
            None => {},
        }
        match &self.last_usage {
            Some(expected) => if read.len() == 0 || !same_usage(&read[read.len() - 1], expected) {
                return Err(self.clause.clone());
            },
            None => {},
        }
        Ok(())
    }
}

// ----- the trials -----

/// A reading with a price.
pub open spec fn priced(prompt: u32, completion: u32, micro_usd: u64) -> Usage {
    Usage {
        prompt_tokens: prompt,
        completion_tokens: completion,
        cache_tokens: None,
        cost: Some(Money { micro_usd }),
    }
}

/// A reading with no price.
pub open spec fn unpriced(prompt: u32, completion: u32) -> Usage {
    Usage { prompt_tokens: prompt, completion_tokens: completion, cache_tokens: None, cost: None }
}

/// 110 tokens against a cap of 100: a spent run does no further work.
pub open spec fn out_of_tokens() -> ScenarioView {
    ScenarioView {
        clause: "110 tokens against a cap of 100: a spent run does no further work"@,
        script: seq![
            PlayView::Progress("working"@),
            PlayView::Usage(unpriced(90, 20)),
            PlayView::Progress("smuggled past the ceiling"@),
            PlayView::Finish(StopView::Completed),
        ],
        budget: Budget { max_tokens: Some(100), ..roomy_budget() },
        stopped: false,
        expected: StopView::Spent,
        progresses: Some(seq!["working"@]),
        last_usage: None,
    }
}

/// $2 reported against a cap of $1: a spent run does no further work.
pub open spec fn out_of_money() -> ScenarioView {
    ScenarioView {
        clause: "$2 reported against a cap of $1: a spent run does no further work"@,
        script: seq![
            PlayView::Usage(priced(10, 10, 2_000_000)),
            PlayView::Progress("smuggled past the ceiling"@),
            PlayView::Finish(StopView::Completed),
        ],
        budget: Budget { max_cost: Some(Money { micro_usd: 1_000_000 }), ..roomy_budget() },
        stopped: false,
        expected: StopView::Spent,
        progresses: Some(Seq::empty()),
        last_usage: None,
    }
}

/// Silence past the window is the end: nothing said after it counts.
pub open spec fn stalling() -> ScenarioView {
    ScenarioView {
        clause: "silence past the window is the end: nothing said after the window counts"@,
        script: seq![
            PlayView::Progress("working"@),
            PlayView::Silence(60_000),
            PlayView::Progress("back from the dead"@),
            PlayView::Finish(StopView::Completed),
        ],
        budget: Budget { stall: 30_000, ..roomy_budget() },
        stopped: false,
        expected: StopView::Stalled,
        progresses: Some(seq!["working"@]),
        last_usage: None,
    }
}

/// Silence inside the window is just an agent thinking.
pub open spec fn pausing() -> ScenarioView {
    ScenarioView {
        clause: "silence inside the window is just an agent thinking"@,
        script: seq![PlayView::Silence(15_000), PlayView::Finish(StopView::Completed)],
        budget: Budget { stall: 30_000, ..roomy_budget() },
        stopped: false,
        expected: StopView::Completed,
        progresses: None,
        last_usage: None,
    }
}

/// Gaps with no sign of life between them are one silence.
pub open spec fn accumulating() -> ScenarioView {
    ScenarioView {
        clause: "gaps with no sign of life between them are one silence"@,
        script: seq![
            PlayView::Silence(20_000),
            PlayView::Silence(20_000),
            PlayView::Finish(StopView::Completed),
        ],
        budget: Budget { stall: 30_000, ..roomy_budget() },
        stopped: false,
        expected: StopView::Stalled,
        progresses: None,
        last_usage: None,
    }
}

/// Any beat is a sign of life, and resets the stall clock.
pub open spec fn resurfacing() -> ScenarioView {
    ScenarioView {
        clause: "any beat is a sign of life, and resets the stall clock"@,
        script: seq![
            PlayView::Silence(20_000),
            PlayView::Progress("still here"@),
            PlayView::Silence(20_000),
            PlayView::Finish(StopView::Completed),
        ],
        budget: Budget { stall: 30_000, ..roomy_budget() },
        stopped: false,
        expected: StopView::Completed,
        progresses: None,
        last_usage: None,
    }
}

/// The first Finished is the run's end.
pub open spec fn posthumous() -> ScenarioView {
    ScenarioView {
        clause: "the first Finished is the run's end"@,
        script: seq![
            PlayView::Progress("working"@),
            PlayView::Finish(StopView::Completed),
            PlayView::Progress("posthumous"@),
            PlayView::Usage(unpriced(1_000, 1_000)),
            PlayView::Finish(StopView::Died { error: "second death"@ }),
        ],
        budget: roomy_budget(),
        stopped: false,
        expected: StopView::Completed,
        progresses: None,
        last_usage: None,
    }
}

/// The authoritative final reading is the high-water mark of the claims:
/// the feed runs its totals backward and forgets it ever named a price;
/// the run's readings must do neither.
pub open spec fn backsliding() -> ScenarioView {
    ScenarioView {
        clause: "the authoritative final reading is the high-water mark of the claims"@,
        script: seq![
            PlayView::Usage(priced(100, 10, 300)),
            PlayView::Usage(unpriced(40, 4)),
            PlayView::Usage(priced(120, 12, 500)),
            PlayView::Finish(StopView::Completed),
        ],
        budget: roomy_budget(),
        stopped: false,
        expected: StopView::Completed,
        progresses: None,
        last_usage: Some(priced(120, 12, 500)),
    }
}

/// A set token ends the run: a canceled run does no work on the way out.
pub open spec fn canceled() -> ScenarioView {
    ScenarioView {
        clause: "a set token ends the run: a canceled run does no work on the way out"@,
        script: seq![PlayView::Progress("never happens"@), PlayView::Finish(StopView::Completed)],
        budget: roomy_budget(),
        stopped: true,
        expected: StopView::Canceled,
        progresses: Some(Seq::empty()),
        last_usage: None,
    }
}

/// Every trial, in order.
pub open spec fn gauntlet() -> Seq<ScenarioView> {
    seq![
        out_of_tokens(),
        out_of_money(),
        stalling(),
        pausing(),
        accumulating(),
        resurfacing(),
        posthumous(),
        backsliding(),
        canceled(),
    ]
}

/// The views of a row of trials.
pub open spec fn scenario_views(scenarios: Seq<Scenario>) -> Seq<ScenarioView> {
    scenarios.map_values(|scenario: Scenario| scenario@)
}

fn out_of_tokens_trial() -> (r: Scenario)
    ensures
        r@ == out_of_tokens(),
{
    let r = Scenario {
        clause: "110 tokens against a cap of 100: a spent run does no further work".to_owned(),
        script: vec![
            Play::Progress("working".to_owned()),
            Play::Usage(Usage::tokens(90, 20)),
            Play::Progress("smuggled past the ceiling".to_owned()),
            Play::Finish(Stop::Completed),
        ],
        budget: Budget { max_tokens: Some(100), ..roomy() },
        stopped: false,
        expected: Stop::Spent,
        progresses: Some(vec!["working".to_owned()]),
        last_usage: None,
    };
    proof {
        assert(r@.script =~= out_of_tokens().script);
        assert(r@.progresses->0 =~= seq!["working"@]);
    }
    r
}

fn out_of_money_trial() -> (r: Scenario)
    ensures
        r@ == out_of_money(),
{
    let r = Scenario {
        clause: "$2 reported against a cap of $1: a spent run does no further work".to_owned(),
        script: vec![
            Play::Usage(price(10, 10, 2_000_000)),
            Play::Progress("smuggled past the ceiling".to_owned()),
            Play::Finish(Stop::Completed),
        ],
        budget: Budget { max_cost: Some(Money { micro_usd: 1_000_000 }), ..roomy() },
        stopped: false,
        expected: Stop::Spent,
        progresses: Some(Vec::new()),
        last_usage: None,
    };
    proof {
        assert(r@.script =~= out_of_money().script);
        assert(r@.progresses->0 =~= Seq::empty());
    }
    r
}

fn price(prompt: u32, completion: u32, micro_usd: u64) -> (r: Usage)
    ensures
        r == priced(prompt, completion, micro_usd),
{
    Usage {
        prompt_tokens: prompt,
        completion_tokens: completion,
        cache_tokens: None,
        cost: Some(Money { micro_usd }),
    }
}

fn stalling_trial() -> (r: Scenario)
    ensures
        r@ == stalling(),
{
    let r = Scenario {
        clause: "silence past the window is the end: nothing said after the window counts".to_owned(
        ),
        script: vec![
            Play::Progress("working".to_owned()),
            Play::Silence(60_000),
            Play::Progress("back from the dead".to_owned()),
            Play::Finish(Stop::Completed),
        ],
        budget: Budget { stall: 30_000, ..roomy() },
        stopped: false,
        expected: Stop::Stalled,
        progresses: Some(vec!["working".to_owned()]),
        last_usage: None,
    };
    proof {
        assert(r@.script =~= stalling().script);
        assert(r@.progresses->0 =~= seq!["working"@]);
    }
    r
}

fn pausing_trial() -> (r: Scenario)
    ensures
        r@ == pausing(),
{
    let r = Scenario {
        clause: "silence inside the window is just an agent thinking".to_owned(),
        script: vec![Play::Silence(15_000), Play::Finish(Stop::Completed)],
        budget: Budget { stall: 30_000, ..roomy() },
        stopped: false,
        expected: Stop::Completed,
        progresses: None,
        last_usage: None,
    };
    proof {
        assert(r@.script =~= pausing().script);
    }
    r
}

fn accumulating_trial() -> (r: Scenario)
    ensures
        r@ == accumulating(),
{
    let r = Scenario {
        clause: "gaps with no sign of life between them are one silence".to_owned(),
        script: vec![
            Play::Silence(20_000),
            Play::Silence(20_000),
            Play::Finish(Stop::Completed),
        ],
        budget: Budget { stall: 30_000, ..roomy() },
        stopped: false,
        expected: Stop::Stalled,
        progresses: None,
        last_usage: None,
    };
    proof {
        assert(r@.script =~= accumulating().script);
    }
    r
}

fn resurfacing_trial() -> (r: Scenario)
    ensures
        r@ == resurfacing(),
{
    let r = Scenario {
        clause: "any beat is a sign of life, and resets the stall clock".to_owned(),
        script: vec![
            Play::Silence(20_000),
            Play::Progress("still here".to_owned()),
            Play::Silence(20_000),
            Play::Finish(Stop::Completed),
        ],
        budget: Budget { stall: 30_000, ..roomy() },
        stopped: false,
        expected: Stop::Completed,
        progresses: None,
        last_usage: None,
    };
    proof {
        assert(r@.script =~= resurfacing().script);
    }
    r
}

fn posthumous_trial() -> (r: Scenario)
    ensures
        r@ == posthumous(),
{
    let r = Scenario {
        clause: "the first Finished is the run's end".to_owned(),
        script: vec![
            Play::Progress("working".to_owned()),
            Play::Finish(Stop::Completed),
            Play::Progress("posthumous".to_owned()),
            Play::Usage(Usage::tokens(1_000, 1_000)),
            Play::Finish(Stop::Died { error: "second death".to_owned() }),
        ],
        budget: roomy(),
        stopped: false,
        expected: Stop::Completed,
        progresses: None,
        last_usage: None,
    };
    proof {
        assert(r@.script =~= posthumous().script);
    }
    r
}

fn backsliding_trial() -> (r: Scenario)
    ensures
        r@ == backsliding(),
{
    let r = Scenario {
        clause: "the authoritative final reading is the high-water mark of the claims".to_owned(),
        script: vec![
            Play::Usage(price(100, 10, 300)),
            Play::Usage(Usage::tokens(40, 4)),
            Play::Usage(price(120, 12, 500)),
            Play::Finish(Stop::Completed),
        ],
        budget: roomy(),
        stopped: false,
        expected: Stop::Completed,
        progresses: None,
        last_usage: Some(price(120, 12, 500)),
    };
    proof {
        assert(r@.script =~= backsliding().script);
    }
    r
}

fn canceled_trial() -> (r: Scenario)
    ensures
        r@ == canceled(),
{
    let r = Scenario {
        clause: "a set token ends the run: a canceled run does no work on the way out".to_owned(),
        script: vec![Play::Progress("never happens".to_owned()), Play::Finish(Stop::Completed)],
        budget: roomy(),
        stopped: true,
        expected: Stop::Canceled,
        progresses: Some(Vec::new()),
        last_usage: None,
    };
    proof {
        assert(r@.script =~= canceled().script);
        assert(r@.progresses->0 =~= Seq::empty());
    }
    r
}

/// Every trial, in order.
pub fn scenarios() -> (r: Vec<Scenario>)
    ensures
        scenario_views(r@) == gauntlet(),
{
    let r = vec![
        out_of_tokens_trial(),
        out_of_money_trial(),
        stalling_trial(),
        pausing_trial(),
        accumulating_trial(),
        resurfacing_trial(),
        posthumous_trial(),
        backsliding_trial(),
        canceled_trial(),
    ];
    proof {
        assert(scenario_views(r@) =~= gauntlet());
    }
    r
}

/// Whether a trial of `implementation` could come to `found`: the clause
/// broken, or none.
pub open spec fn comes_to<A: CodingAgent, F: Fn(Script) -> A>(
    implementation: F,
    scenario: ScenarioView,
    found: Option<Seq<char>>,
) -> bool {
    exists|script: Script, agent: A, task: Task, stop: StopToken, run: (Vec<AgentEvent>, Stop)|
        {
            &&& script_view(script@) == scenario.script
            &&& task.kind is Implement
            &&& task.prompt@ == "implement issue #0"@
            &&& task.worktree@ == "."@
            &&& task.env@.len() == 0
            &&& task.budget == scenario.budget
            &&& stop.set() == scenario.stopped
            &&& call_ensures(implementation, (script,), agent)
            &&& #[trigger] call_ensures(A::run, (&agent, &task, &stop), run)
            &&& #[trigger] played_by(implementation, script, agent)
            &&& failed(scenario, run.0@, run.1) == found
        }
}

/// Whether `agent` is the implementation's, playing `script`.
pub open spec fn played_by<A: CodingAgent, F: Fn(Script) -> A>(
    implementation: F,
    script: Script,
    agent: A,
) -> bool {
    call_ensures(implementation, (script,), agent)
}

fn trial<A: CodingAgent, F: Fn(Script) -> A>(implementation: &F, scenario: Scenario) -> (r: Result<
    (),
    String,
>)
    requires
        forall|script: Script| #[trigger] call_requires(*implementation, (script,)),
    ensures
        match r {
            Ok(_) => comes_to(*implementation, scenario@, None),
            Err(clause) => comes_to(*implementation, scenario@, Some(clause@)),
        },
{
    let script = copied(&scenario.script);
    let ghost played = script;
    let agent = implementation(script);
    let task = Task {
        kind: TaskKind::Implement,
        prompt: "implement issue #0".to_owned(),
        worktree: ".".to_owned(),
        env: Vec::new(),
        budget: scenario.budget,
    };
    let mut stop = StopToken::new();
    if scenario.stopped {
        stop.stop();
    }
    let run = agent.run(&task, &stop);
    let r = scenario.judge(&run.0, &run.1);
    proof {
        assert(played_by(*implementation, played, agent));
        assert(call_ensures(A::run, (&agent, &task, &stop), run));
    }
    r
}

/// A copy of a script.
fn copied(script: &Script) -> (r: Script)
    ensures
        script_view(r@) == script_view(script@),
{
    let mut copy: Vec<Play> = Vec::new();
    let mut i: usize = 0;
    while i < script.len()
        invariant
            i <= script@.len(),
            copy@.len() == i,
            forall|k: int| 0 <= k < i ==> #[trigger] copy@[k] == script@[k],
        decreases script@.len() - i,
    {
        copy.push(
            match &script[i] {
                Play::Progress(text) => Play::Progress(text.clone()),
                Play::Usage(usage) => Play::Usage(*usage),
                Play::Silence(time) => Play::Silence(*time),
                Play::Finish(stop) => Play::Finish(stop.clone()),
            },
        );
        i = i + 1;
    }
    proof {
        assert(script_view(copy@) =~= script_view(script@));
    }
    copy
}

/// Every trial, against one implementation.
///
/// `implementation` turns a script into the agent under test playing that
/// script — for [`Scripted`](coding::Scripted) it is
/// [`Scripted::playing`](coding::Scripted::playing) itself; a wrapper
/// around a real binary supplies a builder that stages the script as its
/// agent's feed.
///
/// # Errors
///
/// The clause the implementation broke, of the first trial it broke one
/// in.
pub fn conforms<A: CodingAgent, F: Fn(Script) -> A>(implementation: F) -> (r: Result<(), String>)
    requires
        forall|script: Script| #[trigger] call_requires(implementation, (script,)),
    ensures
        match r {
            Ok(_) => forall|k: int|
                0 <= k < gauntlet().len() ==> comes_to(
                    implementation,
                    #[trigger] gauntlet()[k],
                    None,
                ),
            Err(clause) => exists|k: int|
                {
                    &&& 0 <= k < gauntlet().len()
                    &&& comes_to(implementation, #[trigger] gauntlet()[k], Some(clause@))
                    &&& forall|j: int|
                        0 <= j < k ==> comes_to(implementation, #[trigger] gauntlet()[j], None)
                },
        },
{
    let mut trials = scenarios();
    let ghost all = gauntlet();
    let mut i: usize = 0;
    let count: usize = trials.len();
    proof {
        assert(scenario_views(trials@).len() == trials@.len());
        assert(all.skip(0) =~= all);
    }
    while i < count
        invariant
            i <= count == all.len(),
            trials@.len() == count - i,
            all == gauntlet(),
            scenario_views(trials@) == all.skip(i as int),
            forall|script: Script| #[trigger] call_requires(implementation, (script,)),
            forall|k: int|
                0 <= k < i ==> comes_to(implementation, #[trigger] gauntlet()[k], None),
        decreases count - i,
    {
        proof {
            assert(scenario_views(trials@)[0] == trials@[0]@);
            assert(all.skip(i as int)[0] == all[i as int]);
            assert(all.skip(i as int).skip(1) =~= all.skip(i + 1));
        }
        let ghost before = trials@;
        let scenario = trials.remove(0);
        proof {
            assert(scenario_views(trials@) =~= scenario_views(before).skip(1));
        }
        match trial(&implementation, scenario) {
            Ok(_) => {},
            Err(clause) => {
                proof {
                    assert(comes_to(implementation, gauntlet()[i as int], Some(clause@)));
                }
                return Err(clause);
            },
        }
        i = i + 1;
    }
    Ok(())
}

} // verus!
