//! What holds of every governed run of a scripted coding agent.

use crate::agent::coding;
use crate::agent::coding::{AgentEvent, Budget, CodingAgent, Play, Scripted, Stop, Task};
use crate::chat::StopToken;
use crate::event::Usage;
use vstd::prelude::*;

verus! {

/// How much a usage is in tokens.
pub open spec fn tokens_of(usage: Usage) -> int {
    usage.prompt_tokens + usage.completion_tokens + (if usage.cache_tokens is Some {
        (usage.cache_tokens->0) as int
    } else {
        0
    })
}

/// Whether a usage is past what a budget allows: more tokens than the most,
/// or more money.
pub open spec fn is_past(budget: Budget, usage: Usage) -> bool {
    ||| budget.max_tokens is Some && tokens_of(usage) > budget.max_tokens->0
    ||| budget.max_cost is Some && usage.cost is Some && (usage.cost->0).micro_usd > (
    budget.max_cost->0).micro_usd
}

/// Whether an agent that plays a script ran so.
pub open spec fn ran(
    script: Vec<Play>,
    task: &Task,
    stop: &StopToken,
    r: (Vec<AgentEvent>, Stop),
) -> bool {
    exists|agent: Scripted| #[trigger]
        call_ensures(Scripted::playing, (script,), agent) && call_ensures(
            Scripted::run,
            (&agent, task, stop),
            r,
        )
}

proof fn a_run_is_governed(
    script: Vec<Play>,
    task: &Task,
    stop: &StopToken,
    r: (Vec<AgentEvent>, Stop),
)
    requires
        ran(script, task, stop, r),
    ensures
        coding::lawful(r.0@, r.1),
        r.0@[0]->agent@ == "scripted"@,
        r.0@.skip(1) == coding::governed(script@, task.budget, None, 0, stop.set()),
        r.0@.len() == 1 + r.0@.skip(1).len(),
        forall|i: int| 0 < i < r.0@.len() ==> #[trigger] r.0@[i] == r.0@.skip(1)[i - 1],
{
    let agent = choose|agent: Scripted| #[trigger]
        call_ensures(Scripted::playing, (script,), agent) && call_ensures(
            Scripted::run,
            (&agent, task, stop),
            r,
        );
    assert(call_ensures(Scripted::run, (&agent, task, stop), r));
}

/// Law: every run opens by saying who runs, and ends once, with the stop
/// that it hands back.
pub proof fn a_run_opens_and_ends_once(
    script: Vec<Play>,
    task: &Task,
    stop: &StopToken,
    r: (Vec<AgentEvent>, Stop),
)
    requires
        ran(script, task, stop, r),
    ensures
        r.0@.len() >= 2,
        r.0@[0] is Started,
        r.0@[0]->agent@ == "scripted"@,
        r.0@.last() == AgentEvent::Finished(r.1),
        forall|i: int| 0 <= i < r.0@.len() - 1 ==> !((#[trigger] r.0@[i]) is Finished),
{
    a_run_is_governed(script, task, stop, r);
}

/// Law: a run that was told to stop does nothing and is canceled.
pub proof fn a_stopped_run_is_canceled(
    script: Vec<Play>,
    task: &Task,
    stop: &StopToken,
    r: (Vec<AgentEvent>, Stop),
)
    requires
        ran(script, task, stop, r),
        stop.set(),
    ensures
        r.1 is Canceled,
        r.0@.len() == 2,
{
    a_run_is_governed(script, task, stop, r);
    assert(r.0@.skip(1)[0] == AgentEvent::Finished(Stop::Canceled));
}

/// Law: a script that is out of plays has stalled; one whose next play is
/// an end ends with it; and one that is silent for longer than the budget
/// allows has stalled, whatever it would have done next.
pub proof fn a_run_ends_as_its_script_does(
    script: Vec<Play>,
    task: &Task,
    stop: &StopToken,
    r: (Vec<AgentEvent>, Stop),
)
    requires
        ran(script, task, stop, r),
        !stop.set(),
    ensures
        script@.len() == 0 ==> r.1 is Stalled && r.0@.len() == 2,
        script@.len() > 0 && script@[0] is Finish ==> r.1 == script@[0]->Finish_0 && r.0@.len()
            == 2,
        script@.len() > 0 && script@[0] is Silence && script@[0]->Silence_0 > task.budget.stall
            ==> r.1 is Stalled && r.0@.len() == 2,
        script@.len() > 1 && script@[0] is Silence && script@[1] is Silence
            && script@[0]->Silence_0 + script@[1]->Silence_0 > task.budget.stall ==> r.1 is Stalled
            && r.0@.len() == 2,
        script@.len() > 1 && script@[0] is Silence && script@[1] is Finish && script@[0]->Silence_0
            <= task.budget.stall ==> r.1 == script@[1]->Finish_0,
{
    a_run_is_governed(script, task, stop, r);
    reveal_with_fuel(coding::governed, 3);
    if script@.len() > 1 {
        assert(script@.skip(1)[0] == script@[1]);
    }
}

/// Law: what an agent says is heard as it was said and breaks its silence:
/// the run goes on as one of what is left of the script.
pub proof fn what_is_said_is_heard(
    script: Vec<Play>,
    rest: Vec<Play>,
    task: &Task,
    stop: &StopToken,
    r: (Vec<AgentEvent>, Stop),
    after: (Vec<AgentEvent>, Stop),
)
    requires
        ran(script, task, stop, r),
        ran(rest, task, stop, after),
        !stop.set(),
        script@.len() > 0,
        script@[0] is Progress,
        rest@ == script@.skip(1),
    ensures
        r.0@[1] == AgentEvent::Progress(script@[0]->Progress_0),
        r.0@.skip(2) == after.0@.skip(1),
        r.1 == after.1,
{
    a_run_is_governed(script, task, stop, r);
    a_run_is_governed(rest, task, stop, after);
    assert(r.0@.skip(2) =~= r.0@.skip(1).skip(1));
    assert(r.0@.skip(1).skip(1) =~= after.0@.skip(1));
    assert(r.0@.last() == after.0@.last()) by {
        assert(r.0@.last() == r.0@.skip(2).last());
        assert(after.0@.last() == after.0@.skip(1).last());
    }
}

/// Law: a usage past the budget is reported, and is the last thing that
/// happens before the run is stopped as spent; one within it does not stop
/// the run.
pub proof fn a_run_is_stopped_once_it_is_past_its_budget(
    script: Vec<Play>,
    task: &Task,
    stop: &StopToken,
    r: (Vec<AgentEvent>, Stop),
    i: int,
)
    requires
        ran(script, task, stop, r),
        0 <= i < r.0@.len(),
        r.0@[i] is Usage,
        is_past(task.budget, r.0@[i]->Usage_0),
    ensures
        r.1 is Spent,
        i == r.0@.len() - 2,
{
    a_run_is_governed(script, task, stop, r);
    a_spent_run_ends(script@, task.budget, None, 0, stop.set(), i - 1);
}

proof fn a_spent_run_ends(
    script: Seq<Play>,
    budget: Budget,
    high: Option<Usage>,
    silence: int,
    stopped: bool,
    i: int,
)
    requires
        ({
            let events = coding::governed(script, budget, high, silence, stopped);
            &&& 0 <= i < events.len()
            &&& events[i] is Usage
            &&& is_past(budget, events[i]->Usage_0)
        }),
    ensures
        ({
            let events = coding::governed(script, budget, high, silence, stopped);
            &&& i == events.len() - 2
            &&& events.last() == AgentEvent::Finished(Stop::Spent)
        }),
    decreases script.len(),
{
    let events = coding::governed(script, budget, high, silence, stopped);
    if !stopped && script.len() > 0 {
        let rest = script.skip(1);
        match script[0] {
            Play::Progress(_) => {
                let tail = coding::governed(rest, budget, high, 0, stopped);
                assert(events[i] == tail[i - 1]);
                a_spent_run_ends(rest, budget, high, 0, stopped, i - 1);
            },
            Play::Usage(claim) => {
                let total = coding::raised(high, claim);
                if !coding::over(budget, total) {
                    let tail = coding::governed(rest, budget, Some(total), 0, stopped);
                    assert(events[0] == AgentEvent::Usage(total));
                    assert(i > 0);
                    assert(events[i] == tail[i - 1]);
                    a_spent_run_ends(rest, budget, Some(total), 0, stopped, i - 1);
                } else if i > 0 {
                    assert(events[i] == AgentEvent::Finished(Stop::Spent));
                }
            },
            Play::Silence(time) => {
                if silence + time <= budget.stall {
                    a_spent_run_ends(rest, budget, high, silence + time, stopped, i);
                }
            },
            Play::Finish(_) => {},
        }
    }
}

/// Law: the first usage an agent claims is reported as it is, and a later
/// one is never less than one before it.
pub proof fn a_usage_is_the_highest_so_far(
    script: Vec<Play>,
    task: &Task,
    stop: &StopToken,
    r: (Vec<AgentEvent>, Stop),
    high: Usage,
)
    requires
        ran(script, task, stop, r),
        !stop.set(),
        script@.len() > 0,
        script@[0] is Usage,
        script@.len() > 1 && script@[1] is Usage ==> call_ensures(
            Usage::max,
            (script@[0]->Usage_0, script@[1]->Usage_0),
            high,
        ),
    ensures
        r.0@[1] == AgentEvent::Usage(script@[0]->Usage_0),
        script@.len() > 1 && script@[1] is Usage && !is_past(task.budget, script@[0]->Usage_0)
            ==> r.0@[2] == AgentEvent::Usage(high),
{
    a_run_is_governed(script, task, stop, r);
    reveal_with_fuel(coding::governed, 3);
    if script@.len() > 1 {
        assert(script@.skip(1)[0] == script@[1]);
    }
}

} // verus!
