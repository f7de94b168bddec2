//! Coding agents: the ones a run is given a task, a budget and a way to be
//! stopped.
//!
//! Governance lives inside each implementation — a black box mid-`run`
//! cannot be killed from outside — so the contract is the trait's: a run
//! names its agent first, ends in exactly one `Finished` with nothing
//! after it, and its usage readings never run backward.
//! [`conformance`](super::conformance) holds an implementation to the
//! budget, the stall window and the stop token.

use crate::chat::StopToken;
use crate::event;
use crate::event::{Money, Usage};
use crate::keystore::Secret;
use vstd::prelude::*;

verus! {

/// How a run ended.
#[derive(Debug, Eq, PartialEq)]
pub enum Stop {
    /// The agent says it is done.
    Completed,
    /// The budget ran out.
    Spent,
    /// Nothing was heard for longer than the stall window.
    Stalled,
    /// The stop token was set.
    Canceled,
    /// The process under it came to grief.
    Died { error: String },
}

impl Clone for Stop {
    fn clone(&self) -> (r: Self)
        ensures
            r == *self,
    {
        match self {
            Stop::Completed => Stop::Completed,
            Stop::Spent => Stop::Spent,
            Stop::Stalled => Stop::Stalled,
            Stop::Canceled => Stop::Canceled,
            Stop::Died { error } => Stop::Died { error: error.clone() },
        }
    }
}

/// One observable moment in an agent's run.
#[derive(Debug, Eq, PartialEq)]
pub enum AgentEvent {
    /// The run begins: which agent it is.
    Started { agent: String },
    /// The agent says what it is doing.
    Progress(String),
    /// What the run has cost so far: cumulative, never running backward.
    Usage(Usage),
    /// The run is over. Terminal.
    Finished(Stop),
}

impl Clone for AgentEvent {
    fn clone(&self) -> (r: Self)
        ensures
            r == *self,
    {
        match self {
            AgentEvent::Started { agent } => AgentEvent::Started { agent: agent.clone() },
            AgentEvent::Progress(text) => AgentEvent::Progress(text.clone()),
            AgentEvent::Usage(usage) => AgentEvent::Usage(*usage),
            AgentEvent::Finished(stop) => AgentEvent::Finished(stop.clone()),
        }
    }
}

/// What a run may spend: tokens, money, and silence — in milliseconds.
#[derive(Clone, Copy, Debug, Eq, PartialEq, Structural)]
pub struct Budget {
    pub max_tokens: Option<u64>,
    pub max_cost: Option<Money>,
    pub stall: u64,
}

/// What an agent is asked to do.
#[derive(Clone, Copy, Debug, Eq, PartialEq, Structural)]
pub enum TaskKind {
    Implement,
}

/// A task: what is asked, where, with what, and for how much.
pub struct Task {
    pub kind: TaskKind,
    pub prompt: String,
    pub worktree: String,
    pub env: Vec<(String, Secret)>,
    pub budget: Budget,
}

/// Whether a run went as every run must: its agent named before anything
/// else, exactly one `Finished`, nothing after it, the returned stop
/// agreeing with it, and every reading of usage at least the ones before.
pub open spec fn lawful(events: Seq<AgentEvent>, stop: Stop) -> bool {
    &&& events.len() > 0
    &&& events[0] is Started
    &&& events.last() == AgentEvent::Finished(stop)
    &&& forall|i: int| 0 <= i < events.len() - 1 ==> !((#[trigger] events[i]) is Finished)
    &&& never_backward(events)
}

/// Whether every reading of usage is at least the ones before.
pub open spec fn never_backward(events: Seq<AgentEvent>) -> bool {
    forall|i: int, j: int|
        0 <= i < j < events.len() && (#[trigger] events[i]) is Usage && (#[trigger] events[j])
            is Usage ==> event::at_most(events[i]->Usage_0, events[j]->Usage_0)
}

/// An agent that writes code under governance.
pub trait CodingAgent {
    /// Runs the task: everything the run said, in order, and how it ended.
    fn run(&self, task: &Task, stop: &StopToken) -> (r: (Vec<AgentEvent>, Stop))
        ensures
            lawful(r.0@, r.1),
    ;
}

/// One beat of a script.
#[derive(Debug, Eq, PartialEq)]
pub enum Play {
    /// The agent says what it is doing.
    Progress(String),
    /// The agent claims its totals so far.
    Usage(Usage),
    /// Nothing is heard for so many milliseconds.
    Silence(u64),
    /// The agent ends.
    Finish(Stop),
}

/// What an agent's feed says, beat by beat.
pub type Script = Vec<Play>;

/// Whether a reading is past a ceiling of the budget.
pub open spec fn over(budget: Budget, usage: Usage) -> bool {
    ||| budget.max_tokens is Some && usage.total() > budget.max_tokens->0
    ||| budget.max_cost is Some && usage.cost is Some && (usage.cost->0).micro_usd > (
    budget.max_cost->0).micro_usd
}

/// The high-water mark after one more claim.
pub open spec fn raised(high: Option<Usage>, claim: Usage) -> Usage {
    match high {
        Some(high) => event::high_water(high, claim),
        None => claim,
    }
}

/// What a governed run says of a feed: each beat is a sign of life and
/// resets the stall clock; usage is reported as its high-water mark; a
/// ceiling passed, a silence past the window, or a set token ends the run
/// there; and so does the end of the feed, which is a silence without end.
pub open spec fn governed(
    script: Seq<Play>,
    budget: Budget,
    high: Option<Usage>,
    silence: int,
    stopped: bool,
) -> Seq<AgentEvent>
    decreases script.len(),
{
    if stopped {
        seq![AgentEvent::Finished(Stop::Canceled)]
    } else if script.len() == 0 {
        seq![AgentEvent::Finished(Stop::Stalled)]
    } else {
        let rest = script.skip(1);
        match script[0] {
            Play::Progress(text) => seq![AgentEvent::Progress(text)] + governed(
                rest,
                budget,
                high,
                0,
                stopped,
            ),
            Play::Usage(claim) => {
                let total = raised(high, claim);
                seq![AgentEvent::Usage(total)] + (if over(budget, total) {
                    seq![AgentEvent::Finished(Stop::Spent)]
                } else {
                    governed(rest, budget, Some(total), 0, stopped)
                })
            },
            Play::Silence(time) => if silence + time > budget.stall {
                seq![AgentEvent::Finished(Stop::Stalled)]
            } else {
                governed(rest, budget, high, silence + time, stopped)
            },
            Play::Finish(stop) => seq![AgentEvent::Finished(stop)],
        }
    }
}

/// A governed run goes as every run must, whatever the feed says.
pub proof fn governed_runs_are_lawful(
    script: Seq<Play>,
    budget: Budget,
    high: Option<Usage>,
    silence: int,
    stopped: bool,
)
    ensures
        ({
            let events = governed(script, budget, high, silence, stopped);
            &&& events.len() > 0
            &&& events.last() is Finished
            &&& forall|i: int| 0 <= i < events.len() - 1 ==> !((#[trigger] events[i]) is Finished)
            &&& forall|i: int| 0 <= i < events.len() ==> !((#[trigger] events[i]) is Started)
            &&& never_backward(events)
            &&& high is Some ==> forall|i: int|
                0 <= i < events.len() && (#[trigger] events[i]) is Usage ==> event::at_most(
                    high->0,
                    events[i]->Usage_0,
                )
        }),
    decreases script.len(),
{
    let events = governed(script, budget, high, silence, stopped);
    if !stopped && script.len() > 0 {
        let rest = script.skip(1);
        match script[0] {
            Play::Progress(text) => {
                let tail = governed(rest, budget, high, 0, stopped);
                governed_runs_are_lawful(rest, budget, high, 0, stopped);
                one_more_is_lawful(AgentEvent::Progress(text), tail, events);
            },
            Play::Usage(claim) => {
                let total = raised(high, claim);
                let tail = if over(budget, total) {
                    seq![AgentEvent::Finished(Stop::Spent)]
                } else {
                    governed(rest, budget, Some(total), 0, stopped)
                };
                if !over(budget, total) {
                    governed_runs_are_lawful(rest, budget, Some(total), 0, stopped);
                }
                one_more_is_lawful(AgentEvent::Usage(total), tail, events);
                if high is Some {
                    assert forall|i: int|
                        0 <= i < events.len() && (#[trigger] events[i])
                            is Usage implies event::at_most(high->0, events[i]->Usage_0) by {
                        if i > 0 {
                            assert(events[i] == tail[i - 1]);
                            assert(event::at_most(total, tail[i - 1]->Usage_0));
                        }
                    }
                }
            },
            Play::Silence(time) => {
                if silence + time <= budget.stall {
                    governed_runs_are_lawful(rest, budget, high, silence + time, stopped);
                }
            },
            Play::Finish(_) => {},
        }
    }
}

/// One event before a lawful rest.
proof fn one_more_is_lawful(first: AgentEvent, tail: Seq<AgentEvent>, events: Seq<AgentEvent>)
    requires
        events == seq![first] + tail,
        !(first is Finished),
        !(first is Started),
        tail.len() > 0,
        tail.last() is Finished,
        forall|i: int| 0 <= i < tail.len() - 1 ==> !((#[trigger] tail[i]) is Finished),
        forall|i: int| 0 <= i < tail.len() ==> !((#[trigger] tail[i]) is Started),
        never_backward(tail),
        first is Usage ==> forall|i: int|
            0 <= i < tail.len() && (#[trigger] tail[i]) is Usage ==> event::at_most(
                first->Usage_0,
                tail[i]->Usage_0,
            ),
    ensures
        events.len() > 0,
        events.last() is Finished,
        forall|i: int| 0 <= i < events.len() - 1 ==> !((#[trigger] events[i]) is Finished),
        forall|i: int| 0 <= i < events.len() ==> !((#[trigger] events[i]) is Started),
        never_backward(events),
        forall|i: int| 0 < i < events.len() ==> #[trigger] events[i] == tail[i - 1],
{
    assert(events.last() == tail.last());
    assert forall|i: int| 0 <= i < events.len() - 1 implies !((#[trigger] events[i])
        is Finished) by {
        if i > 0 {
            assert(events[i] == tail[i - 1]);
        }
    }
    assert forall|i: int| 0 <= i < events.len() implies !((#[trigger] events[i]) is Started) by {
        if i > 0 {
            assert(events[i] == tail[i - 1]);
        }
    }
    assert forall|i: int, j: int|
        0 <= i < j < events.len() && (#[trigger] events[i]) is Usage && (#[trigger] events[j])
            is Usage implies event::at_most(events[i]->Usage_0, events[j]->Usage_0) by {
        assert(events[j] == tail[j - 1]);
        if i > 0 {
            assert(events[i] == tail[i - 1]);
        }
    }
}

/// An agent that plays a script under governance: the deterministic
/// stand-in every real one is held against.
#[derive(Debug)]
pub struct Scripted {
    script: Script,
}

impl Scripted {
    /// What the agent's feed says.
    pub closed spec fn feed(&self) -> Seq<Play> {
        self.script@
    }

    /// An agent whose feed says `script`.
    pub fn playing(script: Script) -> (r: Self)
        ensures
            r.feed() == script@,
    {
        Scripted { script }
    }
}

/// The name a scripted agent goes by.
pub const SCRIPTED: &'static str = "scripted";

impl CodingAgent for Scripted {
    fn run(&self, task: &Task, stop: &StopToken) -> (r: (Vec<AgentEvent>, Stop))
        ensures
            r.0@[0]->agent@ == SCRIPTED@,
            r.0@.skip(1) == governed(self.feed(), task.budget, None, 0, stop.set()),
    {
        let ghost whole = governed(self.feed(), task.budget, None, 0, stop.set());
        let mut events: Vec<AgentEvent> = Vec::new();
        events.push(AgentEvent::Started { agent: SCRIPTED.to_owned() });
        let ghost opening = events@[0];
        let end = self.play(task.budget, stop.is_stopped(), &mut events);
        proof {
            governed_runs_are_lawful(self.feed(), task.budget, None, 0, stop.set());
            assert(events@.skip(1) =~= whole);
            assert forall|i: int| 0 <= i < events@.len() - 1 implies !((#[trigger] events@[i])
                is Finished) by {
                if i > 0 {
                    assert(events@[i] == whole[i - 1]);
                }
            }
            assert forall|i: int, j: int|
                0 <= i < j < events@.len() && (#[trigger] events@[i]) is Usage && (
                #[trigger] events@[j]) is Usage implies event::at_most(
                events@[i]->Usage_0,
                events@[j]->Usage_0,
            ) by {
                assert(events@[i] == whole[i - 1]);
                assert(events@[j] == whole[j - 1]);
            }
            assert(events@.last() == whole.last());
        }
        (events, end)
    }
}

impl Scripted {
    fn play(&self, budget: Budget, stopped: bool, events: &mut Vec<AgentEvent>) -> (end: Stop)
        ensures
            final(events)@ == old(events)@ + governed(self.feed(), budget, None, 0, stopped),
            governed(self.feed(), budget, None, 0, stopped).last() == AgentEvent::Finished(end),
    {
        let ghost whole = governed(self.feed(), budget, None, 0, stopped);
        let ghost said = events@;
        if stopped {
            events.push(AgentEvent::Finished(Stop::Canceled));
            proof {
                assert(events@ =~= said + whole);
            }
            return Stop::Canceled;
        }
        let mut high: Option<Usage> = None;
        let mut silence: u64 = 0;
        let mut i: usize = 0;
        proof {
            assert(self.script@.skip(0) =~= self.script@);
            governed_runs_are_lawful(self.feed(), budget, None, 0, stopped);
        }
        while i < self.script.len()
            invariant
                i <= self.script@.len(),
                !stopped,
                silence <= budget.stall,
                whole == governed(self.feed(), budget, None, 0, stopped),
                self.feed() == self.script@,
                said == old(events)@,
                said + whole == events@ + governed(
                    self.script@.skip(i as int),
                    budget,
                    high,
                    silence as int,
                    stopped,
                ),
                whole.len() > 0,
                governed(
                    self.script@.skip(i as int),
                    budget,
                    high,
                    silence as int,
                    stopped,
                ).len() > 0,
                whole.last() == governed(
                    self.script@.skip(i as int),
                    budget,
                    high,
                    silence as int,
                    stopped,
                ).last(),
            decreases self.script@.len() - i,
        {
            let ghost rest = self.script@.skip(i as int);
            let ghost so_far = events@;
            proof {
                assert(rest[0] == self.script@[i as int]);
                assert(rest.skip(1) =~= self.script@.skip(i + 1));
            }
            match &self.script[i] {
                Play::Progress(text) => {
                    events.push(AgentEvent::Progress(text.clone()));
                    proof {
                        let tail = governed(rest.skip(1), budget, high, 0, stopped);
                        governed_runs_are_lawful(rest.skip(1), budget, high, 0, stopped);
                        assert(so_far + (seq![AgentEvent::Progress(*text)] + tail) =~= events@
                            + tail);
                    }
                    silence = 0;
                },
                Play::Usage(claim) => {
                    let total = match high {
                        Some(high) => high.max(*claim),
                        None => *claim,
                    };
                    events.push(AgentEvent::Usage(total));
                    let past = is_over(budget, total);
                    if past {
                        events.push(AgentEvent::Finished(Stop::Spent));
                        proof {
                            assert(events@ =~= so_far + (seq![AgentEvent::Usage(total)] + seq![
                                AgentEvent::Finished(Stop::Spent),
                            ]));
                        }
                        return Stop::Spent;
                    }
                    proof {
                        let tail = governed(rest.skip(1), budget, Some(total), 0, stopped);
                        governed_runs_are_lawful(rest.skip(1), budget, Some(total), 0, stopped);
                        assert(so_far + (seq![AgentEvent::Usage(total)] + tail) =~= events@ + tail);
                    }
                    high = Some(total);
                    silence = 0;
                },
                Play::Silence(time) => {
                    if *time > budget.stall - silence {
                        events.push(AgentEvent::Finished(Stop::Stalled));
                        return Stop::Stalled;
                    }
                    silence = silence + *time;
                },
                Play::Finish(stop) => {
                    let end = stop.clone();
                    events.push(AgentEvent::Finished(end.clone()));
                    return end;
                },
            }
            i = i + 1;
        }
        proof {
            assert(self.script@.skip(i as int) =~= Seq::empty());
        }
        events.push(AgentEvent::Finished(Stop::Stalled));
        Stop::Stalled
    }
}

/// Whether a reading is past a ceiling of the budget.
fn is_over(budget: Budget, usage: Usage) -> (r: bool)
    ensures
        r == over(budget, usage),
{
    let tokens = match budget.max_tokens {
        Some(max) => usage.total_tokens() > max,
        None => false,
    };
    let cost = match (budget.max_cost, usage.cost) {
        (Some(max), Some(cost)) => cost.micro_usd > max.micro_usd,
        _ => false,
    };
    tokens || cost
}

} // verus!
