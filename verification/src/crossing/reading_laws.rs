//! What is read of everything that crosses, and under which names.
//!
//! Nothing is read as what it does not say it is: each law says what a value
//! must be called to be read as what it was read as, and where each part of
//! that came from.

use crate::agent::claude_code::Update;
use crate::agent::coding::{AgentEvent, Stop};
use crate::chat::{Answer, Ask, Role, TranscriptItem};
use crate::event::{ChatEvent, Event};
use crate::feature::State;
use crate::json::{Json, JsonView};
use crate::keystore::Resolved;
use crate::monitor::Change;
use crate::preflight::{Capability, Standing};
use crate::run::{FeatureEvent, FeaturePhase, FeatureVerdict, Phase, RunEvent, Verdict};
use vstd::prelude::*;

verus! {

/// Whether a value is a word: as a string, or as the one member of an
/// object.
pub open spec fn is_called(value: JsonView, name: Seq<char>) -> bool {
    &&& value is Text ==> value == JsonView::Text(name)
    &&& value is Object ==> value->Object_0.len() == 1 && value->Object_0[0].0 == name
    &&& value is Text || value is Object
}

/// Whether a value is an object of one member of that name.
pub open spec fn carries(value: JsonView, name: Seq<char>) -> bool {
    value is Object && value->Object_0.len() == 1 && value->Object_0[0].0 == name
}

/// What a value carries says of the member of a name, where it is an
/// object.
pub open spec fn within(value: JsonView, key: Seq<char>, part: JsonView) -> bool {
    value->Object_0[0].1 is Object ==> value->Object_0[0].1.get(key) == Some(part)
}

/// What a value that is an object says of the member of a name.
pub open spec fn under(value: JsonView, key: Seq<char>, part: JsonView) -> bool {
    value is Object ==> value.get(key) == Some(part)
}

/// Whether an optional text is what a member says.
pub open spec fn maybe(part: Option<JsonView>, text: Option<String>) -> bool {
    &&& text is Some ==> part == Some(JsonView::Text((text->0)@))
    &&& text is None ==> part is None || part == Some(JsonView::Null)
}

/// Law: why an agent stopped is read only from what says that it is that, part by
/// part.
pub proof fn a_stop_is_read_by_its_own_name(value: &Json, r: Option<Stop>)
    requires
        call_ensures(Stop::read, (value,), r),
    ensures
        match r {
            Some(Stop::Completed) => {
                &&& is_called(value@, "Completed"@)
            },
            Some(Stop::Spent) => {
                &&& is_called(value@, "Spent"@)
            },
            Some(Stop::Stalled) => {
                &&& is_called(value@, "Stalled"@)
            },
            Some(Stop::Canceled) => {
                &&& is_called(value@, "Canceled"@)
            },
            Some(Stop::Died { error }) => {
                &&& carries(value@, "Died"@)
                &&& within(value@, "error"@, JsonView::Text(error@))
            },
            None => true,
        },
{
}

/// Law: what an agent says is read only from what says that it is that, part by
/// part.
pub proof fn an_agents_event_is_read_by_its_own_name(value: &Json, r: Option<AgentEvent>)
    requires
        call_ensures(AgentEvent::read, (value,), r),
    ensures
        match r {
            Some(AgentEvent::Started { agent }) => {
                &&& carries(value@, "Started"@)
                &&& within(value@, "agent"@, JsonView::Text(agent@))
            },
            Some(AgentEvent::Progress(said)) => {
                &&& carries(value@, "Progress"@)
                &&& value@->Object_0[0].1 == JsonView::Text(said@)
            },
            Some(AgentEvent::Usage(_)) => {
                &&& carries(value@, "Usage"@)
            },
            Some(AgentEvent::Finished(_)) => {
                &&& carries(value@, "Finished"@)
            },
            None => true,
        },
{
}

/// Law: a phase of a run is read only from what says that it is that, part by
/// part.
pub proof fn a_phase_is_read_by_its_own_name(value: &Json, r: Option<Phase>)
    requires
        call_ensures(Phase::read, (value,), r),
    ensures
        match r {
            Some(Phase::Worktree) => {
                &&& is_called(value@, "Worktree"@)
            },
            Some(Phase::Implement) => {
                &&& is_called(value@, "Implement"@)
            },
            Some(Phase::Watch) => {
                &&& is_called(value@, "Watch"@)
            },
            Some(Phase::Review) => {
                &&& is_called(value@, "Review"@)
            },
            Some(Phase::Merge) => {
                &&& is_called(value@, "Merge"@)
            },
            Some(Phase::Close) => {
                &&& is_called(value@, "Close"@)
            },
            Some(Phase::Cleanup) => {
                &&& is_called(value@, "Cleanup"@)
            },
            None => true,
        },
{
}

/// Law: a verdict is read only from what says that it is that, part by
/// part.
pub proof fn a_verdict_is_read_by_its_own_name(value: &Json, r: Option<Verdict>)
    requires
        call_ensures(Verdict::read, (value,), r),
    ensures
        match r {
            Some(Verdict::Done) => {
                &&& is_called(value@, "Done"@)
            },
            Some(Verdict::Failed { report }) => {
                &&& carries(value@, "Failed"@)
                &&& within(value@, "report"@, JsonView::Text(report@))
            },
            None => true,
        },
{
}

/// Law: what happens in a run is read only from what says that it is that, part by
/// part.
pub proof fn a_runs_event_is_read_by_its_own_name(value: &Json, r: Option<RunEvent>)
    requires
        call_ensures(RunEvent::read, (value,), r),
    ensures
        match r {
            Some(RunEvent::Entered(_)) => {
                &&& carries(value@, "Entered"@)
            },
            Some(RunEvent::Agent(_)) => {
                &&& carries(value@, "Agent"@)
            },
            Some(RunEvent::Finished(_)) => {
                &&& carries(value@, "Finished"@)
            },
            None => true,
        },
{
}

/// Law: a phase of a feature is read only from what says that it is that, part by
/// part.
pub proof fn a_features_phase_is_read_by_its_own_name(value: &Json, r: Option<FeaturePhase>)
    requires
        call_ensures(FeaturePhase::read, (value,), r),
    ensures
        match r {
            Some(FeaturePhase::Graph) => {
                &&& is_called(value@, "Graph"@)
            },
            Some(FeaturePhase::Branch) => {
                &&& is_called(value@, "Branch"@)
            },
            Some(FeaturePhase::Schedule) => {
                &&& is_called(value@, "Schedule"@)
            },
            Some(FeaturePhase::Review) => {
                &&& is_called(value@, "Review"@)
            },
            None => true,
        },
{
}

/// Law: a verdict on a feature is read only from what says that it is that, part by
/// part.
pub proof fn a_features_verdict_is_read_by_its_own_name(value: &Json, r: Option<FeatureVerdict>)
    requires
        call_ensures(FeatureVerdict::read, (value,), r),
    ensures
        match r {
            Some(FeatureVerdict::Done { review }) => {
                &&& carries(value@, "Done"@)
                &&& within(value@, "review"@, JsonView::Whole(review as nat))
            },
            Some(FeatureVerdict::Failed { report }) => {
                &&& carries(value@, "Failed"@)
                &&& within(value@, "report"@, JsonView::Text(report@))
            },
            None => true,
        },
{
}

/// Law: what happens in a feature is read only from what says that it is that, part by
/// part.
pub proof fn a_features_event_is_read_by_its_own_name(value: &Json, r: Option<FeatureEvent>)
    requires
        call_ensures(FeatureEvent::read, (value,), r),
    ensures
        match r {
            Some(FeatureEvent::Entered(_)) => {
                &&& carries(value@, "Entered"@)
            },
            Some(FeatureEvent::Issue { number, event: _ }) => {
                &&& carries(value@, "Issue"@)
                &&& within(value@, "number"@, JsonView::Whole(number as nat))
            },
            Some(FeatureEvent::Retained { number, path, error }) => {
                &&& carries(value@, "Retained"@)
                &&& within(value@, "number"@, JsonView::Whole(number as nat))
                &&& within(value@, "path"@, JsonView::Text(path@))
                &&& value@->Object_0[0].1 is Object ==> maybe(
                    value@->Object_0[0].1.get("error"@),
                    error,
                )
            },
            Some(FeatureEvent::Finished(_)) => {
                &&& carries(value@, "Finished"@)
            },
            None => true,
        },
{
}

/// Law: what happens to an issue is read only from what says that it is that, part by
/// part.
pub proof fn an_issues_event_is_read_by_its_own_name(value: &Json, r: Option<Event>)
    requires
        call_ensures(Event::read, (value,), r),
    ensures
        match r {
            Some(Event::IssueStarted { id }) => {
                &&& carries(value@, "IssueStarted"@)
                &&& within(value@, "id"@, JsonView::Whole(id as nat))
            },
            Some(Event::IssueImplemented { id }) => {
                &&& carries(value@, "IssueImplemented"@)
                &&& within(value@, "id"@, JsonView::Whole(id as nat))
            },
            None => true,
        },
{
}

/// Law: what happens in a chat is read only from what says that it is that, part by
/// part.
pub proof fn a_chats_event_is_read_by_its_own_name(value: &Json, r: Option<ChatEvent>)
    requires
        call_ensures(ChatEvent::read, (value,), r),
    ensures
        match r {
            Some(ChatEvent::Delta { text }) => {
                &&& carries(value@, "Delta"@)
                &&& within(value@, "text"@, JsonView::Text(text@))
            },
            Some(ChatEvent::TurnFinished { usage: _ }) => {
                &&& carries(value@, "TurnFinished"@)
            },
            Some(ChatEvent::Failed { error }) => {
                &&& carries(value@, "Failed"@)
                &&& within(value@, "error"@, JsonView::Text(error@))
            },
            Some(ChatEvent::ToolCallStarted { id, name, arguments }) => {
                &&& carries(value@, "ToolCallStarted"@)
                &&& within(value@, "id"@, JsonView::Text(id@))
                &&& within(value@, "name"@, JsonView::Text(name@))
                &&& within(value@, "arguments"@, JsonView::Text(arguments@))
            },
            Some(ChatEvent::ToolCallFinished { id, content }) => {
                &&& carries(value@, "ToolCallFinished"@)
                &&& within(value@, "id"@, JsonView::Text(id@))
                &&& within(value@, "content"@, JsonView::Text(content@))
            },
            Some(ChatEvent::ToolCallRefused { id, error, remedy: _ }) => {
                &&& carries(value@, "ToolCallRefused"@)
                &&& within(value@, "id"@, JsonView::Text(id@))
                &&& within(value@, "error"@, JsonView::Text(error@))
            },
            None => true,
        },
{
}

/// Law: a speaker is read only from what says that it is that, part by
/// part.
pub proof fn a_speaker_is_read_by_its_own_name(value: &Json, r: Option<Role>)
    requires
        call_ensures(Role::read, (value,), r),
    ensures
        match r {
            Some(Role::User) => {
                &&& is_called(value@, "user"@)
            },
            Some(Role::Assistant) => {
                &&& is_called(value@, "assistant"@)
            },
            None => true,
        },
{
}

/// Law: a question is read only from what says that it is that, part by
/// part.
pub proof fn a_question_is_read_by_its_own_name(value: &Json, r: Option<Ask>)
    requires
        call_ensures(Ask::read, (value,), r),
    ensures
        match r {
            Some(Ask::Repository { prompt }) => {
                &&& under(value@, "kind"@, JsonView::Text("repository"@))
                &&& under(value@, "prompt"@, JsonView::Text(prompt@))
            },
            Some(Ask::Check { prompt, proposal }) => {
                &&& under(value@, "kind"@, JsonView::Text("check"@))
                &&& under(value@, "prompt"@, JsonView::Text(prompt@))
                &&& value@ is Object ==> maybe(value@.get("proposal"@), proposal)
            },
            None => true,
        },
{
}

/// Law: an answer is read only from what says that it is that, part by
/// part.
pub proof fn an_answer_is_read_by_its_own_name(value: &Json, r: Option<Answer>)
    requires
        call_ensures(Answer::read, (value,), r),
    ensures
        match r {
            Some(Answer::Repository { url }) => {
                &&& under(value@, "kind"@, JsonView::Text("repository"@))
                &&& under(value@, "url"@, JsonView::Text(url@))
            },
            Some(Answer::Check { command }) => {
                &&& under(value@, "kind"@, JsonView::Text("check"@))
                &&& under(value@, "command"@, JsonView::Text(command@))
            },
            Some(Answer::Declined) => {
                &&& under(value@, "kind"@, JsonView::Text("declined"@))
            },
            None => true,
        },
{
}

/// Law: an item of a transcript is read only from what says that it is that, part by
/// part.
pub proof fn an_item_is_read_by_its_own_name(value: &Json, r: Option<TranscriptItem>)
    requires
        call_ensures(TranscriptItem::read, (value,), r),
    ensures
        match r {
            Some(TranscriptItem::Message { role: _, text }) => {
                &&& under(value@, "kind"@, JsonView::Text("message"@))
                &&& under(value@, "text"@, JsonView::Text(text@))
            },
            Some(TranscriptItem::AssistantDelta { text }) => {
                &&& under(value@, "kind"@, JsonView::Text("assistant_delta"@))
                &&& under(value@, "text"@, JsonView::Text(text@))
            },
            Some(TranscriptItem::TurnFailed { reason }) => {
                &&& under(value@, "kind"@, JsonView::Text("turn_failed"@))
                &&& under(value@, "reason"@, JsonView::Text(reason@))
            },
            Some(TranscriptItem::ToolCall { name, arguments }) => {
                &&& under(value@, "kind"@, JsonView::Text("tool_call"@))
                &&& under(value@, "name"@, JsonView::Text(name@))
                &&& under(value@, "arguments"@, JsonView::Text(arguments@))
            },
            Some(TranscriptItem::ToolResult { name, ok, content }) => {
                &&& under(value@, "kind"@, JsonView::Text("tool_result"@))
                &&& under(value@, "name"@, JsonView::Text(name@))
                &&& under(value@, "ok"@, JsonView::Bool(ok))
                &&& under(value@, "content"@, JsonView::Text(content@))
            },
            Some(TranscriptItem::Question { id, ask: _ }) => {
                &&& under(value@, "kind"@, JsonView::Text("question"@))
                &&& under(value@, "id"@, JsonView::Text(id@))
            },
            Some(TranscriptItem::QuestionResolved { id, ask: _, answer: _ }) => {
                &&& under(value@, "kind"@, JsonView::Text("question_resolved"@))
                &&& under(value@, "id"@, JsonView::Text(id@))
            },
            None => true,
        },
{
}

/// Law: a capability is read only from what says that it is that, part by
/// part.
pub proof fn a_capability_is_read_by_its_own_name(value: &Json, r: Option<Capability>)
    requires
        call_ensures(Capability::read, (value,), r),
    ensures
        match r {
            Some(Capability::Git) => {
                &&& is_called(value@, "Git"@)
            },
            Some(Capability::Agent { binary }) => {
                &&& carries(value@, "Agent"@)
                &&& within(value@, "binary"@, JsonView::Text(binary@))
            },
            Some(Capability::GithubToken) => {
                &&& is_called(value@, "GithubToken"@)
            },
            None => true,
        },
{
}

/// Law: a standing is read only from what says that it is that, part by
/// part.
pub proof fn a_standing_is_read_by_its_own_name(value: &Json, r: Option<Standing>)
    requires
        call_ensures(Standing::read, (value,), r),
    ensures
        match r {
            Some(Standing::Present { at }) => {
                &&& carries(value@, "Present"@)
                &&& within(value@, "at"@, JsonView::Text(at@))
            },
            Some(Standing::Absent { searched: _ }) => {
                &&& carries(value@, "Absent"@)
            },
            Some(Standing::Unfit { at, reason }) => {
                &&& carries(value@, "Unfit"@)
                &&& within(value@, "at"@, JsonView::Text(at@))
                &&& within(value@, "reason"@, JsonView::Text(reason@))
            },
            None => true,
        },
{
}

/// Law: a resolved key is read only from what says that it is that, part by
/// part.
pub proof fn a_resolved_key_is_read_by_its_own_name(value: &Json, r: Option<Resolved>)
    requires
        call_ensures(Resolved::read, (value,), r),
    ensures
        match r {
            Some(Resolved::Found(secret)) => {
                &&& carries(value@, "Found"@)
                &&& value@->Object_0[0].1 == JsonView::Text(secret.bytes())
            },
            Some(Resolved::Absent) => {
                &&& is_called(value@, "Absent"@)
            },
            Some(Resolved::Unreachable(reason)) => {
                &&& carries(value@, "Unreachable"@)
                &&& value@->Object_0[0].1 == JsonView::Text(reason@)
            },
            None => true,
        },
{
}

/// Law: a change of a build is read only from what says that it is that, part by
/// part.
pub proof fn a_change_is_read_by_its_own_name(value: &Json, r: Option<Change>)
    requires
        call_ensures(Change::read, (value,), r),
    ensures
        match r {
            Some(Change::Reserved { run, feature, repository, branch, base }) => {
                &&& under(value@, "change"@, JsonView::Text("reserved"@))
                &&& under(value@, "feature"@, JsonView::Text(feature@))
                &&& under(value@, "repository"@, JsonView::Text(repository@))
                &&& under(value@, "branch"@, JsonView::Text(branch@))
                &&& value@ is Object ==> maybe(value@.get("base"@), base)
                &&& under(value@, "run"@, JsonView::Whole(run.0 as nat))
            },
            Some(Change::Moved { run, issue, state: _ }) => {
                &&& under(value@, "change"@, JsonView::Text("moved"@))
                &&& under(value@, "run"@, JsonView::Whole(run.0 as nat))
                &&& under(value@, "issue"@, JsonView::Text(issue@))
            },
            Some(Change::Finished { run }) => {
                &&& under(value@, "change"@, JsonView::Text("finished"@))
                &&& under(value@, "run"@, JsonView::Whole(run.0 as nat))
            },
            Some(Change::Abandoned { run, reason }) => {
                &&& under(value@, "change"@, JsonView::Text("abandoned"@))
                &&& under(value@, "run"@, JsonView::Whole(run.0 as nat))
                &&& under(value@, "reason"@, JsonView::Text(reason@))
            },
            Some(Change::Started { run, plan: _, problems: _, states: _, check }) => {
                &&& under(value@, "change"@, JsonView::Text("started"@))
                &&& under(value@, "run"@, JsonView::Whole(run.0 as nat))
                &&& value@ is Object ==> maybe(value@.get("check"@), check)
            },
            None => true,
        },
{
}

/// Law: the state of an issue is read only from what says that it is that, part by
/// part.
pub proof fn a_state_is_read_by_its_own_name(value: &Json, r: Option<State>)
    requires
        call_ensures(State::read, (value,), r),
    ensures
        match r {
            Some(State::Waiting) => {
                &&& under(value@, "state"@, JsonView::Text("waiting"@))
            },
            Some(State::Running) => {
                &&& under(value@, "state"@, JsonView::Text("running"@))
            },
            Some(State::Merging) => {
                &&& under(value@, "state"@, JsonView::Text("merging"@))
            },
            Some(State::Merged { commit, checked }) => {
                &&& under(value@, "state"@, JsonView::Text("merged"@))
                &&& under(value@, "commit"@, JsonView::Text(commit@))
                &&& under(value@, "checked"@, JsonView::Bool(checked))
            },
            Some(State::Failed { report }) => {
                &&& under(value@, "state"@, JsonView::Text("failed"@))
                &&& under(value@, "report"@, JsonView::Text(report@))
            },
            Some(State::Skipped { reason }) => {
                &&& under(value@, "state"@, JsonView::Text("skipped"@))
                &&& under(value@, "reason"@, JsonView::Text(reason@))
            },
            None => true,
        },
{
}

/// Law: what an agent's line came to is read only from what says that it is that, part by
/// part.
pub proof fn an_update_is_read_by_its_own_name(value: &Json, r: Option<Update>)
    requires
        call_ensures(Update::read, (value,), r),
    ensures
        match r {
            Some(Update::Session { id, model }) => {
                &&& carries(value@, "Session"@)
                &&& within(value@, "id"@, JsonView::Text(id@))
                &&& within(value@, "model"@, JsonView::Text(model@))
            },
            Some(Update::Text { text }) => {
                &&& carries(value@, "Text"@)
                &&& within(value@, "text"@, JsonView::Text(text@))
            },
            Some(Update::ToolUse { name }) => {
                &&& carries(value@, "ToolUse"@)
                &&& within(value@, "name"@, JsonView::Text(name@))
            },
            Some(Update::Result { ok, text, cost_usd: _, input_tokens: _, output_tokens: _ }) => {
                &&& carries(value@, "Result"@)
                &&& within(value@, "ok"@, JsonView::Bool(ok))
                &&& within(value@, "text"@, JsonView::Text(text@))
            },
            None => true,
        },
{
}

} // verus!
