//! What holds of every judgement on a coding agent.

use crate::agent::coding::{AgentEvent, Stop};
use crate::agent::conformance;
use crate::agent::conformance::Scenario;
use crate::event::Usage;
use crate::text;
use vstd::prelude::*;

verus! {

/// Law: a usage never goes backward just when none of its readings does,
/// and a reading that was given is not taken back.
pub proof fn a_usage_goes_on(earlier: &Usage, later: &Usage, r: bool)
    requires
        call_ensures(conformance::nondecreasing, (earlier, later), r),
    ensures
        r <==> {
            &&& later.prompt_tokens >= earlier.prompt_tokens
            &&& later.completion_tokens >= earlier.completion_tokens
            &&& earlier.cache_tokens is Some ==> later.cache_tokens is Some
                && later.cache_tokens->0 >= earlier.cache_tokens->0
            &&& earlier.cost is Some ==> later.cost is Some && (later.cost->0).micro_usd >= (
            earlier.cost->0).micro_usd
        },
{
}

/// Whether two stops are one: of one kind, and a death in the same words.
pub open spec fn same_stop(one: Stop, other: Stop) -> bool {
    match (one, other) {
        (Stop::Completed, Stop::Completed) => true,
        (Stop::Spent, Stop::Spent) => true,
        (Stop::Stalled, Stop::Stalled) => true,
        (Stop::Canceled, Stop::Canceled) => true,
        (Stop::Died { error: a }, Stop::Died { error: b }) => a@ == b@,
        _ => false,
    }
}

/// Law: a run passes only if it opens by naming its agent, ends with the
/// stop it hands back, and ends as the scenario expects.
pub proof fn a_run_passes_only_as_expected(
    scenario: &Scenario,
    events: &Vec<AgentEvent>,
    stop: &Stop,
    r: Result<(), String>,
)
    requires
        call_ensures(Scenario::judge, (scenario, events, stop), r),
        r is Ok,
    ensures
        events@.len() > 0,
        events@[0] is Started,
        events@.last() is Finished,
        same_stop(events@.last()->Finished_0, *stop),
        same_stop(*stop, scenario.expected),
        forall|i: int| 0 <= i < events@.len() - 1 ==> !((#[trigger] events@[i]) is Finished),
        scenario.progresses is Some ==> conformance::progresses_of(events@) == text::views(
            (scenario.progresses->0)@,
        ),
        scenario.last_usage is Some ==> conformance::readings(events@).len() > 0
            && conformance::readings(events@).last() == scenario.last_usage->0,
{
    let all = events@;
    assert forall|i: int| 0 <= i < all.len() - 1 implies !((#[trigger] all[i]) is Finished) by {
        if all[i] is Finished {
            ends_are_counted(all.drop_last(), i);
        }
    }
}

proof fn ends_are_counted(events: Seq<AgentEvent>, i: int)
    requires
        0 <= i < events.len(),
        events[i] is Finished,
    ensures
        conformance::finishes(events) >= 1,
    decreases events.len(),
{
    if i < events.len() - 1 {
        assert(events.drop_last()[i] == events[i]);
        ends_are_counted(events.drop_last(), i);
    }
}

/// Law: a run that keeps every clause and does what the scenario expects
/// passes.
pub proof fn a_run_as_expected_passes(
    scenario: &Scenario,
    events: &Vec<AgentEvent>,
    stop: &Stop,
    r: Result<(), String>,
)
    requires
        call_ensures(Scenario::judge, (scenario, events, stop), r),
        events@.len() == 2,
        events@[0] is Started,
        events@[1] == AgentEvent::Finished(*stop),
        same_stop(*stop, scenario.expected),
        scenario.progresses is None,
        scenario.last_usage is None,
    ensures
        r is Ok,
{
    let all = events@;
    let first = all.drop_last();
    assert(first.drop_last() =~= Seq::empty());
    assert(first.last() == all[0]);
    reveal_with_fuel(conformance::finishes, 3);
    reveal_with_fuel(conformance::readings, 3);
    assert(conformance::readings(all) =~= Seq::empty());
}

} // verus!
