//! What holds of every line that something was told in.

use crate::agent::coding::AgentEvent;
use crate::chat::{Answer, Ask, TranscriptItem};
use crate::event::{ChatEvent, Event, Usage};
use crate::keystore::Resolved;
use crate::logging::Wire;
use crate::preflight::CapabilityStatus;
use crate::run::{FeatureEvent, RunEvent};
use vstd::prelude::*;

verus! {

/// Law: a usage that was told in a line is heard from it as it was.
pub proof fn a_usage_is_heard_as_it_was_told(
    usage: &Usage,
    told: String,
    line: &str,
    r: Option<Usage>,
)
    requires
        call_ensures(Usage::tell, (usage,), told),
        line@ == told@,
        call_ensures(Usage::hear, (line,), r),
    ensures
        r is Some,
        r->0 == *usage,
{
}

/// Law: what happens to an issue that was told in a line is heard from it as it was.
pub proof fn an_issues_event_is_heard_as_it_was_told(
    event: &Event,
    told: String,
    line: &str,
    r: Option<Event>,
)
    requires
        call_ensures(Event::tell, (event,), told),
        line@ == told@,
        call_ensures(Event::hear, (line,), r),
    ensures
        r is Some,
        r->0 == *event,
{
}

/// Law: what happens in a chat that was told in a line is heard from it as it was.
pub proof fn a_chats_event_is_heard_as_it_was_told(
    event: &ChatEvent,
    told: String,
    line: &str,
    r: Option<ChatEvent>,
)
    requires
        call_ensures(ChatEvent::tell, (event,), told),
        line@ == told@,
        call_ensures(ChatEvent::hear, (line,), r),
    ensures
        r is Some,
        (r->0)@ == event@,
{
}

/// Law: what an agent says that was told in a line is heard from it as it was.
pub proof fn an_agents_event_is_heard_as_it_was_told(
    event: &AgentEvent,
    told: String,
    line: &str,
    r: Option<AgentEvent>,
)
    requires
        call_ensures(AgentEvent::tell, (event,), told),
        line@ == told@,
        call_ensures(AgentEvent::hear, (line,), r),
    ensures
        r is Some,
        (r->0)@ == event@,
{
}

/// Law: what happens in a run that was told in a line is heard from it as it was.
pub proof fn a_runs_event_is_heard_as_it_was_told(
    event: &RunEvent,
    told: String,
    line: &str,
    r: Option<RunEvent>,
)
    requires
        call_ensures(RunEvent::tell, (event,), told),
        line@ == told@,
        call_ensures(RunEvent::hear, (line,), r),
    ensures
        r is Some,
        (r->0)@ == event@,
{
}

/// Law: what happens in a feature that was told in a line is heard from it as it was.
pub proof fn a_features_event_is_heard_as_it_was_told(
    event: &FeatureEvent,
    told: String,
    line: &str,
    r: Option<FeatureEvent>,
)
    requires
        call_ensures(FeatureEvent::tell, (event,), told),
        line@ == told@,
        call_ensures(FeatureEvent::hear, (line,), r),
    ensures
        r is Some,
        (r->0)@ == event@,
{
}

/// Law: a question that was told in a line is heard from it as it was.
pub proof fn a_question_is_heard_as_it_was_told(
    ask: &Ask,
    told: String,
    line: &str,
    r: Option<Ask>,
)
    requires
        call_ensures(Ask::tell, (ask,), told),
        line@ == told@,
        call_ensures(Ask::hear, (line,), r),
    ensures
        r is Some,
        (r->0)@ == ask@,
{
}

/// Law: an answer that was told in a line is heard from it as it was.
pub proof fn an_answer_is_heard_as_it_was_told(
    answer: &Answer,
    told: String,
    line: &str,
    r: Option<Answer>,
)
    requires
        call_ensures(Answer::tell, (answer,), told),
        line@ == told@,
        call_ensures(Answer::hear, (line,), r),
    ensures
        r is Some,
        (r->0)@ == answer@,
{
}

/// Law: an item of a transcript that was told in a line is heard from it as it was.
pub proof fn an_item_is_heard_as_it_was_told(
    item: &TranscriptItem,
    told: String,
    line: &str,
    r: Option<TranscriptItem>,
)
    requires
        call_ensures(TranscriptItem::tell, (item,), told),
        line@ == told@,
        call_ensures(TranscriptItem::hear, (line,), r),
    ensures
        r is Some,
        (r->0)@ == item@,
{
}

/// Law: a status that was told in a line is heard from it as it was.
pub proof fn a_status_is_heard_as_it_was_told(
    status: &CapabilityStatus,
    told: String,
    line: &str,
    r: Option<CapabilityStatus>,
)
    requires
        call_ensures(CapabilityStatus::tell, (status,), told),
        line@ == told@,
        call_ensures(CapabilityStatus::hear, (line,), r),
    ensures
        r is Some,
        (r->0)@ == status@,
{
}

/// Law: a resolved key that was told in a line is heard from it as it was.
pub proof fn a_resolved_key_is_heard_as_it_was_told(
    resolved: &Resolved,
    told: String,
    line: &str,
    r: Option<Resolved>,
)
    requires
        call_ensures(Resolved::tell, (resolved,), told),
        line@ == told@,
        call_ensures(Resolved::hear, (line,), r),
    ensures
        r is Some,
        (r->0)@ == resolved@,
{
}

} // verus!
