//! What everything that crosses is called there.
//!
//! What is told reads back as it was; these laws say under which names it
//! is told.

use crate::agent::coding::{AgentEvent, Stop};
use crate::agent::claude_code::Update;
use crate::chat::{Answer, Ask, Role, TranscriptItem};
use crate::crossing;
use crate::event::{ChatEvent, Event, Usage};
use crate::feature::tools;
use crate::feature::{Issue, Plan};
use crate::json;
use crate::json::{Json, JsonView};
use crate::keystore::Resolved;
use crate::monitor::{Change, Entry};
use crate::preflight::{Capability, CapabilityStatus, Standing};
use crate::run::{FeatureEvent, FeaturePhase, FeatureVerdict, Phase, RunEvent, Verdict};
use crate::text;
use vstd::prelude::*;

verus! {

/// An object of one member.
pub open spec fn one(key: Seq<char>, value: JsonView) -> JsonView {
    JsonView::Object(seq![(key, value)])
}

/// An optional text as JSON has it: null where there is none.
pub open spec fn text_or_null(text: Option<String>) -> JsonView {
    if text is Some {
        JsonView::Text((text->0)@)
    } else {
        JsonView::Null
    }
}

proof fn of_one(a: Seq<char>, x: JsonView)
    ensures
        JsonView::record().with(a, x) == one(a, x),
{
    assert(JsonView::record().with(a, x)->Object_0 =~= seq![(a, x)]);
}

proof fn of_two(
    a: (Seq<char>, JsonView),
    b: (Seq<char>, JsonView),
)
    ensures
        JsonView::record().with(a.0, a.1).with(b.0, b.1)
            == JsonView::Object(seq![a, b]),
{
    assert(JsonView::record().with(a.0, a.1).with(b.0, b.1)->Object_0
        =~= seq![a, b]);
}

proof fn of_three(
    a: (Seq<char>, JsonView),
    b: (Seq<char>, JsonView),
    c: (Seq<char>, JsonView),
)
    ensures
        JsonView::record().with(a.0, a.1).with(b.0, b.1).with(c.0, c.1)
            == JsonView::Object(seq![a, b, c]),
{
    assert(JsonView::record().with(a.0, a.1).with(b.0, b.1).with(c.0, c.1)->Object_0
        =~= seq![a, b, c]);
}

proof fn of_four(
    a: (Seq<char>, JsonView),
    b: (Seq<char>, JsonView),
    c: (Seq<char>, JsonView),
    d: (Seq<char>, JsonView),
)
    ensures
        JsonView::record().with(a.0, a.1).with(b.0, b.1).with(c.0, c.1).with(d.0, d.1)
            == JsonView::Object(seq![a, b, c, d]),
{
    assert(JsonView::record().with(a.0, a.1).with(b.0, b.1).with(c.0, c.1).with(d.0, d.1)->Object_0
        =~= seq![a, b, c, d]);
}

proof fn of_five(
    a: (Seq<char>, JsonView),
    b: (Seq<char>, JsonView),
    c: (Seq<char>, JsonView),
    d: (Seq<char>, JsonView),
    e: (Seq<char>, JsonView),
)
    ensures
        JsonView::record().with(a.0, a.1).with(b.0, b.1).with(c.0, c.1).with(d.0, d.1)
            .with(e.0, e.1)
            == JsonView::Object(seq![a, b, c, d, e]),
{
    assert(JsonView::record().with(a.0, a.1).with(b.0, b.1).with(c.0, c.1).with(d.0, d.1)
        .with(e.0, e.1)->Object_0
        =~= seq![a, b, c, d, e]);
}

proof fn of_six(
    a: (Seq<char>, JsonView),
    b: (Seq<char>, JsonView),
    c: (Seq<char>, JsonView),
    d: (Seq<char>, JsonView),
    e: (Seq<char>, JsonView),
    f: (Seq<char>, JsonView),
)
    ensures
        JsonView::record().with(a.0, a.1).with(b.0, b.1).with(c.0, c.1).with(d.0, d.1)
            .with(e.0, e.1).with(f.0, f.1)
            == JsonView::Object(seq![a, b, c, d, e, f]),
{
    assert(JsonView::record().with(a.0, a.1).with(b.0, b.1).with(c.0, c.1).with(d.0, d.1)
        .with(e.0, e.1).with(f.0, f.1)->Object_0
        =~= seq![a, b, c, d, e, f]);
}

/// Law: why an agent stopped is told by its own word.
pub proof fn an_agents_stop_is_told_by_name(
    stop: &Stop,
    r: Json,
)
    requires
        call_ensures(Stop::told, (stop,), r),
    ensures
        match *stop {
            Stop::Completed => r@ == JsonView::Text("Completed"@),
            Stop::Spent => r@ == JsonView::Text("Spent"@),
            Stop::Stalled => r@ == JsonView::Text("Stalled"@),
            Stop::Canceled => r@ == JsonView::Text("Canceled"@),
            Stop::Died { error } => r@ == one("Died"@, JsonView::Object(
                seq![
                    ("error"@, JsonView::Text(error@)),
                ],
            )),
        },
{
    match *stop {
        Stop::Completed => {},
        Stop::Spent => {},
        Stop::Stalled => {},
        Stop::Canceled => {},
        Stop::Died { error } => {
            of_one("error"@, JsonView::Text(error@));
            of_one("Died"@, JsonView::Object(
                seq![
                    ("error"@, JsonView::Text(error@)),
                ],
            ));
        },
    }
}

/// Law: what an agent says is told under the name of what it is.
pub proof fn an_agents_event_is_told_by_name(
    event: &AgentEvent,
    usage_told: Json,
    stop_told: Json,
    r: Json,
)
    requires
        call_ensures(AgentEvent::told, (event,), r),
        event matches AgentEvent::Usage(usage) ==> call_ensures(
            Usage::told,
            (usage,),
            usage_told,
        ),
        event matches AgentEvent::Finished(stop) ==> call_ensures(
            Stop::told,
            (stop,),
            stop_told,
        ),
    ensures
        match *event {
            AgentEvent::Started { agent } => r@ == one("Started"@, JsonView::Object(
                seq![
                    ("agent"@, JsonView::Text(agent@)),
                ],
            )),
            AgentEvent::Progress(said) => r@ == one("Progress"@, JsonView::Text(said@)),
            AgentEvent::Usage(usage) => r@ == one("Usage"@, usage_told@),
            AgentEvent::Finished(stop) => r@ == one("Finished"@, stop_told@),
        },
{
    match *event {
        AgentEvent::Started { agent } => {
            of_one("agent"@, JsonView::Text(agent@));
            of_one("Started"@, JsonView::Object(
                seq![
                    ("agent"@, JsonView::Text(agent@)),
                ],
            ));
        },
        AgentEvent::Progress(said) => {
            of_one("Progress"@, JsonView::Text(said@));
        },
        AgentEvent::Usage(usage) => {
            of_one("Usage"@, usage_told@);
        },
        AgentEvent::Finished(stop) => {
            of_one("Finished"@, stop_told@);
        },
    }
}

/// Law: a phase of a run is told by its own word.
pub proof fn a_runs_phase_is_told_by_name(
    phase: &Phase,
    r: Json,
)
    requires
        call_ensures(Phase::told, (phase,), r),
    ensures
        match *phase {
            Phase::Worktree => r@ == JsonView::Text("Worktree"@),
            Phase::Implement => r@ == JsonView::Text("Implement"@),
            Phase::Watch => r@ == JsonView::Text("Watch"@),
            Phase::Review => r@ == JsonView::Text("Review"@),
            Phase::Merge => r@ == JsonView::Text("Merge"@),
            Phase::Close => r@ == JsonView::Text("Close"@),
            Phase::Cleanup => r@ == JsonView::Text("Cleanup"@),
        },
{
    match *phase {
        Phase::Worktree => {},
        Phase::Implement => {},
        Phase::Watch => {},
        Phase::Review => {},
        Phase::Merge => {},
        Phase::Close => {},
        Phase::Cleanup => {},
    }
}

/// Law: a verdict is told by its own word, a failure with its report.
pub proof fn a_runs_verdict_is_told_by_name(
    verdict: &Verdict,
    r: Json,
)
    requires
        call_ensures(Verdict::told, (verdict,), r),
    ensures
        match *verdict {
            Verdict::Done => r@ == JsonView::Text("Done"@),
            Verdict::Failed { report } => r@ == one("Failed"@, JsonView::Object(
                seq![
                    ("report"@, JsonView::Text(report@)),
                ],
            )),
        },
{
    match *verdict {
        Verdict::Done => {},
        Verdict::Failed { report } => {
            of_one("report"@, JsonView::Text(report@));
            of_one("Failed"@, JsonView::Object(
                seq![
                    ("report"@, JsonView::Text(report@)),
                ],
            ));
        },
    }
}

/// Law: what happens in a run is told under the name of what it is.
pub proof fn a_runs_event_is_told_by_name(
    event: &RunEvent,
    phase_told: Json,
    event_told: Json,
    verdict_told: Json,
    r: Json,
)
    requires
        call_ensures(RunEvent::told, (event,), r),
        event matches RunEvent::Entered(phase) ==> call_ensures(
            Phase::told,
            (phase,),
            phase_told,
        ),
        event matches RunEvent::Agent(event) ==> call_ensures(
            AgentEvent::told,
            (event,),
            event_told,
        ),
        event matches RunEvent::Finished(verdict) ==> call_ensures(
            Verdict::told,
            (verdict,),
            verdict_told,
        ),
    ensures
        match *event {
            RunEvent::Entered(phase) => r@ == one("Entered"@, phase_told@),
            RunEvent::Agent(event) => r@ == one("Agent"@, event_told@),
            RunEvent::Finished(verdict) => r@ == one("Finished"@, verdict_told@),
        },
{
    match *event {
        RunEvent::Entered(phase) => {
            of_one("Entered"@, phase_told@);
        },
        RunEvent::Agent(event) => {
            of_one("Agent"@, event_told@);
        },
        RunEvent::Finished(verdict) => {
            of_one("Finished"@, verdict_told@);
        },
    }
}

/// Law: a phase of a feature is told by its own word.
pub proof fn a_features_phase_is_told_by_name(
    phase: &FeaturePhase,
    r: Json,
)
    requires
        call_ensures(FeaturePhase::told, (phase,), r),
    ensures
        match *phase {
            FeaturePhase::Graph => r@ == JsonView::Text("Graph"@),
            FeaturePhase::Branch => r@ == JsonView::Text("Branch"@),
            FeaturePhase::Schedule => r@ == JsonView::Text("Schedule"@),
            FeaturePhase::Review => r@ == JsonView::Text("Review"@),
        },
{
    match *phase {
        FeaturePhase::Graph => {},
        FeaturePhase::Branch => {},
        FeaturePhase::Schedule => {},
        FeaturePhase::Review => {},
    }
}

/// Law: a verdict on a feature is told with the review it ends in, or with its
/// report.
pub proof fn a_features_verdict_is_told_by_name(
    verdict: &FeatureVerdict,
    r: Json,
)
    requires
        call_ensures(FeatureVerdict::told, (verdict,), r),
    ensures
        match *verdict {
            FeatureVerdict::Done { review } => r@ == one("Done"@, JsonView::Object(
                seq![
                    ("review"@, JsonView::Whole(review as nat)),
                ],
            )),
            FeatureVerdict::Failed { report } => r@ == one("Failed"@, JsonView::Object(
                seq![
                    ("report"@, JsonView::Text(report@)),
                ],
            )),
        },
{
    match *verdict {
        FeatureVerdict::Done { review } => {
            of_one("review"@, JsonView::Whole(review as nat));
            of_one("Done"@, JsonView::Object(
                seq![
                    ("review"@, JsonView::Whole(review as nat)),
                ],
            ));
        },
        FeatureVerdict::Failed { report } => {
            of_one("report"@, JsonView::Text(report@));
            of_one("Failed"@, JsonView::Object(
                seq![
                    ("report"@, JsonView::Text(report@)),
                ],
            ));
        },
    }
}

/// Law: what happens in a feature is told under the name of what it is, with
/// the number of its issue.
pub proof fn a_features_event_is_told_by_name(
    event: &FeatureEvent,
    phase_told: Json,
    event_told: Json,
    verdict_told: Json,
    r: Json,
)
    requires
        call_ensures(FeatureEvent::told, (event,), r),
        event matches FeatureEvent::Entered(phase) ==> call_ensures(
            FeaturePhase::told,
            (phase,),
            phase_told,
        ),
        event matches FeatureEvent::Issue { number, event } ==> call_ensures(
            RunEvent::told,
            (event,),
            event_told,
        ),
        event matches FeatureEvent::Finished(verdict) ==> call_ensures(
            FeatureVerdict::told,
            (verdict,),
            verdict_told,
        ),
    ensures
        match *event {
            FeatureEvent::Entered(phase) => r@ == one("Entered"@, phase_told@),
            FeatureEvent::Issue { number, event } => r@ == one("Issue"@, JsonView::Object(
                seq![
                    ("number"@, JsonView::Whole(number as nat)),
                    ("event"@, event_told@),
                ],
            )),
            FeatureEvent::Retained { number, path, error } => r@
                == one("Retained"@, JsonView::Object(
                seq![
                    ("number"@, JsonView::Whole(number as nat)),
                    ("path"@, JsonView::Text(path@)),
                    ("error"@, text_or_null(error)),
                ],
            )),
            FeatureEvent::Finished(verdict) => r@ == one("Finished"@, verdict_told@),
        },
{
    match *event {
        FeatureEvent::Entered(phase) => {
            of_one("Entered"@, phase_told@);
        },
        FeatureEvent::Issue { number, event } => {
            of_two(
                ("number"@, JsonView::Whole(number as nat)),
                ("event"@, event_told@),
            );
            of_one("Issue"@, JsonView::Object(
                seq![
                    ("number"@, JsonView::Whole(number as nat)),
                    ("event"@, event_told@),
                ],
            ));
        },
        FeatureEvent::Retained { number, path, error } => {
            of_three(
                ("number"@, JsonView::Whole(number as nat)),
                ("path"@, JsonView::Text(path@)),
                ("error"@, text_or_null(error)),
            );
            of_one("Retained"@, JsonView::Object(
                seq![
                    ("number"@, JsonView::Whole(number as nat)),
                    ("path"@, JsonView::Text(path@)),
                    ("error"@, text_or_null(error)),
                ],
            ));
        },
        FeatureEvent::Finished(verdict) => {
            of_one("Finished"@, verdict_told@);
        },
    }
}

/// Law: what happens to an issue is told under the name of what it is, with
/// its id.
pub proof fn an_issues_event_is_told_by_name(
    event: &Event,
    r: Json,
)
    requires
        call_ensures(Event::told, (event,), r),
    ensures
        match *event {
            Event::IssueStarted { id } => r@ == one("IssueStarted"@, JsonView::Object(
                seq![
                    ("id"@, JsonView::Whole(id as nat)),
                ],
            )),
            Event::IssueImplemented { id } => r@ == one("IssueImplemented"@, JsonView::Object(
                seq![
                    ("id"@, JsonView::Whole(id as nat)),
                ],
            )),
        },
{
    match *event {
        Event::IssueStarted { id } => {
            of_one("id"@, JsonView::Whole(id as nat));
            of_one("IssueStarted"@, JsonView::Object(
                seq![
                    ("id"@, JsonView::Whole(id as nat)),
                ],
            ));
        },
        Event::IssueImplemented { id } => {
            of_one("id"@, JsonView::Whole(id as nat));
            of_one("IssueImplemented"@, JsonView::Object(
                seq![
                    ("id"@, JsonView::Whole(id as nat)),
                ],
            ));
        },
    }
}

/// Law: what happens in a chat is told under the name of what it is, with
/// the id of the call it is of.
pub proof fn a_chats_event_is_told_by_name(
    event: &ChatEvent,
    usage_told: Json,
    r: Json,
)
    requires
        call_ensures(ChatEvent::told, (event,), r),
        *event is TurnFinished && event->usage is Some ==> call_ensures(
            Usage::told,
            (&event->usage->0,),
            usage_told,
        ),
    ensures
        match *event {
            ChatEvent::Delta { text } => r@ == one("Delta"@, JsonView::Object(
                seq![
                    ("text"@, JsonView::Text(text@)),
                ],
            )),
            ChatEvent::TurnFinished { usage } => r@ == one("TurnFinished"@, JsonView::Object(
                seq![
                    ("usage"@, if usage is Some {
                        usage_told@
                    } else {
                        JsonView::Null
                    }),
                ],
            )),
            ChatEvent::Failed { error } => r@ == one("Failed"@, JsonView::Object(
                seq![
                    ("error"@, JsonView::Text(error@)),
                ],
            )),
            ChatEvent::ToolCallStarted { id, name, arguments } => r@
                == one("ToolCallStarted"@, JsonView::Object(
                seq![
                    ("id"@, JsonView::Text(id@)),
                    ("name"@, JsonView::Text(name@)),
                    ("arguments"@, JsonView::Text(arguments@)),
                ],
            )),
            ChatEvent::ToolCallFinished { id, content } => r@
                == one("ToolCallFinished"@, JsonView::Object(
                seq![
                    ("id"@, JsonView::Text(id@)),
                    ("content"@, JsonView::Text(content@)),
                ],
            )),
            ChatEvent::ToolCallRefused { id, error, remedy } => r@
                == one("ToolCallRefused"@, JsonView::Object(
                seq![
                    ("id"@, JsonView::Text(id@)),
                    ("error"@, JsonView::Text(error@)),
                    ("remedy"@, if remedy is Some {
                        JsonView::Text("GithubToken"@)
                    } else {
                        JsonView::Null
                    }),
                ],
            )),
        },
{
    match *event {
        ChatEvent::Delta { text } => {
            of_one("text"@, JsonView::Text(text@));
            of_one("Delta"@, JsonView::Object(
                seq![
                    ("text"@, JsonView::Text(text@)),
                ],
            ));
        },
        ChatEvent::TurnFinished { usage } => {
            of_one("usage"@, if usage is Some {
                        usage_told@
                    } else {
                        JsonView::Null
                    });
            of_one("TurnFinished"@, JsonView::Object(
                seq![
                    ("usage"@, if usage is Some {
                        usage_told@
                    } else {
                        JsonView::Null
                    }),
                ],
            ));
        },
        ChatEvent::Failed { error } => {
            of_one("error"@, JsonView::Text(error@));
            of_one("Failed"@, JsonView::Object(
                seq![
                    ("error"@, JsonView::Text(error@)),
                ],
            ));
        },
        ChatEvent::ToolCallStarted { id, name, arguments } => {
            of_three(
                ("id"@, JsonView::Text(id@)),
                ("name"@, JsonView::Text(name@)),
                ("arguments"@, JsonView::Text(arguments@)),
            );
            of_one("ToolCallStarted"@, JsonView::Object(
                seq![
                    ("id"@, JsonView::Text(id@)),
                    ("name"@, JsonView::Text(name@)),
                    ("arguments"@, JsonView::Text(arguments@)),
                ],
            ));
        },
        ChatEvent::ToolCallFinished { id, content } => {
            of_two(
                ("id"@, JsonView::Text(id@)),
                ("content"@, JsonView::Text(content@)),
            );
            of_one("ToolCallFinished"@, JsonView::Object(
                seq![
                    ("id"@, JsonView::Text(id@)),
                    ("content"@, JsonView::Text(content@)),
                ],
            ));
        },
        ChatEvent::ToolCallRefused { id, error, remedy } => {
            of_three(
                ("id"@, JsonView::Text(id@)),
                ("error"@, JsonView::Text(error@)),
                ("remedy"@, if remedy is Some {
                        JsonView::Text("GithubToken"@)
                    } else {
                        JsonView::Null
                    }),
            );
            of_one("ToolCallRefused"@, JsonView::Object(
                seq![
                    ("id"@, JsonView::Text(id@)),
                    ("error"@, JsonView::Text(error@)),
                    ("remedy"@, if remedy is Some {
                        JsonView::Text("GithubToken"@)
                    } else {
                        JsonView::Null
                    }),
                ],
            ));
        },
    }
}

/// Law: a speaker is told by its own word.
pub proof fn a_speaker_is_told_by_name(
    role: &Role,
    r: Json,
)
    requires
        call_ensures(Role::told, (role,), r),
    ensures
        match *role {
            Role::User => r@ == JsonView::Text("user"@),
            Role::Assistant => r@ == JsonView::Text("assistant"@),
        },
{
    match *role {
        Role::User => {},
        Role::Assistant => {},
    }
}

/// Law: a question is told by its kind, in its own words.
pub proof fn a_question_is_told_by_its_kind(
    ask: &Ask,
    r: Json,
)
    requires
        call_ensures(Ask::told, (ask,), r),
    ensures
        match *ask {
            Ask::Repository { prompt } => r@ == JsonView::Object(
                seq![
                    ("kind"@, JsonView::Text("repository"@)),
                    ("prompt"@, JsonView::Text(prompt@)),
                ],
            ),
            Ask::Check { prompt, proposal } => r@ == JsonView::Object(
                seq![
                    ("kind"@, JsonView::Text("check"@)),
                    ("prompt"@, JsonView::Text(prompt@)),
                    ("proposal"@, text_or_null(proposal)),
                ],
            ),
        },
{
    match *ask {
        Ask::Repository { prompt } => {
            of_two(
                ("kind"@, JsonView::Text("repository"@)),
                ("prompt"@, JsonView::Text(prompt@)),
            );
        },
        Ask::Check { prompt, proposal } => {
            of_three(
                ("kind"@, JsonView::Text("check"@)),
                ("prompt"@, JsonView::Text(prompt@)),
                ("proposal"@, text_or_null(proposal)),
            );
        },
    }
}

/// Law: an answer is told by its kind, with what was answered.
pub proof fn an_answer_is_told_by_its_kind(
    answer: &Answer,
    r: Json,
)
    requires
        call_ensures(Answer::told, (answer,), r),
    ensures
        match *answer {
            Answer::Repository { url } => r@ == JsonView::Object(
                seq![
                    ("kind"@, JsonView::Text("repository"@)),
                    ("url"@, JsonView::Text(url@)),
                ],
            ),
            Answer::Check { command } => r@ == JsonView::Object(
                seq![
                    ("kind"@, JsonView::Text("check"@)),
                    ("command"@, JsonView::Text(command@)),
                ],
            ),
            Answer::Declined => r@ == JsonView::Object(
                seq![
                    ("kind"@, JsonView::Text("declined"@)),
                ],
            ),
        },
{
    match *answer {
        Answer::Repository { url } => {
            of_two(
                ("kind"@, JsonView::Text("repository"@)),
                ("url"@, JsonView::Text(url@)),
            );
        },
        Answer::Check { command } => {
            of_two(
                ("kind"@, JsonView::Text("check"@)),
                ("command"@, JsonView::Text(command@)),
            );
        },
        Answer::Declined => {
            of_one("kind"@, JsonView::Text("declined"@));
        },
    }
}

/// Law: an item of a transcript is told by its kind, with what belongs to it.
pub proof fn an_item_is_told_by_its_kind(
    item: &TranscriptItem,
    role_told: Json,
    ask_told: Json,
    questionresolved_ask_told: Json,
    answer_told: Json,
    r: Json,
)
    requires
        call_ensures(TranscriptItem::told, (item,), r),
        item matches TranscriptItem::Message { role, text } ==> call_ensures(
            Role::told,
            (role,),
            role_told,
        ),
        item matches TranscriptItem::Question { id, ask } ==> call_ensures(
            Ask::told,
            (ask,),
            ask_told,
        ),
        item matches TranscriptItem::QuestionResolved { id, ask, answer } ==> call_ensures(
            Ask::told,
            (ask,),
            questionresolved_ask_told,
        ),
        item matches TranscriptItem::QuestionResolved { id, ask, answer } ==> call_ensures(
            Answer::told,
            (answer,),
            answer_told,
        ),
    ensures
        match *item {
            TranscriptItem::Message { role, text } => r@ == JsonView::Object(
                seq![
                    ("kind"@, JsonView::Text("message"@)),
                    ("role"@, role_told@),
                    ("text"@, JsonView::Text(text@)),
                ],
            ),
            TranscriptItem::AssistantDelta { text } => r@ == JsonView::Object(
                seq![
                    ("kind"@, JsonView::Text("assistant_delta"@)),
                    ("text"@, JsonView::Text(text@)),
                ],
            ),
            TranscriptItem::TurnFailed { reason } => r@ == JsonView::Object(
                seq![
                    ("kind"@, JsonView::Text("turn_failed"@)),
                    ("reason"@, JsonView::Text(reason@)),
                ],
            ),
            TranscriptItem::ToolCall { name, arguments } => r@ == JsonView::Object(
                seq![
                    ("kind"@, JsonView::Text("tool_call"@)),
                    ("name"@, JsonView::Text(name@)),
                    ("arguments"@, JsonView::Text(arguments@)),
                ],
            ),
            TranscriptItem::ToolResult { name, ok, content } => r@ == JsonView::Object(
                seq![
                    ("kind"@, JsonView::Text("tool_result"@)),
                    ("name"@, JsonView::Text(name@)),
                    ("ok"@, JsonView::Bool(ok)),
                    ("content"@, JsonView::Text(content@)),
                ],
            ),
            TranscriptItem::Question { id, ask } => r@ == JsonView::Object(
                seq![
                    ("kind"@, JsonView::Text("question"@)),
                    ("id"@, JsonView::Text(id@)),
                    ("ask"@, ask_told@),
                ],
            ),
            TranscriptItem::QuestionResolved { id, ask, answer } => r@ == JsonView::Object(
                seq![
                    ("kind"@, JsonView::Text("question_resolved"@)),
                    ("id"@, JsonView::Text(id@)),
                    ("ask"@, questionresolved_ask_told@),
                    ("answer"@, answer_told@),
                ],
            ),
        },
{
    match *item {
        TranscriptItem::Message { role, text } => {
            of_three(
                ("kind"@, JsonView::Text("message"@)),
                ("role"@, role_told@),
                ("text"@, JsonView::Text(text@)),
            );
        },
        TranscriptItem::AssistantDelta { text } => {
            of_two(
                ("kind"@, JsonView::Text("assistant_delta"@)),
                ("text"@, JsonView::Text(text@)),
            );
        },
        TranscriptItem::TurnFailed { reason } => {
            of_two(
                ("kind"@, JsonView::Text("turn_failed"@)),
                ("reason"@, JsonView::Text(reason@)),
            );
        },
        TranscriptItem::ToolCall { name, arguments } => {
            of_three(
                ("kind"@, JsonView::Text("tool_call"@)),
                ("name"@, JsonView::Text(name@)),
                ("arguments"@, JsonView::Text(arguments@)),
            );
        },
        TranscriptItem::ToolResult { name, ok, content } => {
            of_four(
                ("kind"@, JsonView::Text("tool_result"@)),
                ("name"@, JsonView::Text(name@)),
                ("ok"@, JsonView::Bool(ok)),
                ("content"@, JsonView::Text(content@)),
            );
        },
        TranscriptItem::Question { id, ask } => {
            of_three(
                ("kind"@, JsonView::Text("question"@)),
                ("id"@, JsonView::Text(id@)),
                ("ask"@, ask_told@),
            );
        },
        TranscriptItem::QuestionResolved { id, ask, answer } => {
            of_four(
                ("kind"@, JsonView::Text("question_resolved"@)),
                ("id"@, JsonView::Text(id@)),
                ("ask"@, questionresolved_ask_told@),
                ("answer"@, answer_told@),
            );
        },
    }
}

/// Law: a capability is told by its own word, an Agent with its binary.
pub proof fn a_capability_is_told_by_name(
    capability: &Capability,
    r: Json,
)
    requires
        call_ensures(Capability::told, (capability,), r),
    ensures
        match *capability {
            Capability::Git => r@ == JsonView::Text("Git"@),
            Capability::Agent { binary } => r@ == one("Agent"@, JsonView::Object(
                seq![
                    ("binary"@, JsonView::Text(binary@)),
                ],
            )),
            Capability::GithubToken => r@ == JsonView::Text("GithubToken"@),
        },
{
    match *capability {
        Capability::Git => {},
        Capability::Agent { binary } => {
            of_one("binary"@, JsonView::Text(binary@));
            of_one("Agent"@, JsonView::Object(
                seq![
                    ("binary"@, JsonView::Text(binary@)),
                ],
            ));
        },
        Capability::GithubToken => {},
    }
}

/// Law: a standing is told by its own word, with where it is and why.
pub proof fn a_standing_is_told_by_name(
    standing: &Standing,
    r: Json,
)
    requires
        call_ensures(Standing::told, (standing,), r),
    ensures
        match *standing {
            Standing::Present { at } => r@ == one("Present"@, JsonView::Object(
                seq![
                    ("at"@, JsonView::Text(at@)),
                ],
            )),
            Standing::Absent { searched } => r@ == one("Absent"@, JsonView::Object(
                seq![
                    ("searched"@, json::texts_of(text::views(searched@))),
                ],
            )),
            Standing::Unfit { at, reason } => r@ == one("Unfit"@, JsonView::Object(
                seq![
                    ("at"@, JsonView::Text(at@)),
                    ("reason"@, JsonView::Text(reason@)),
                ],
            )),
        },
{
    match *standing {
        Standing::Present { at } => {
            of_one("at"@, JsonView::Text(at@));
            of_one("Present"@, JsonView::Object(
                seq![
                    ("at"@, JsonView::Text(at@)),
                ],
            ));
        },
        Standing::Absent { searched } => {
            of_one("searched"@, json::texts_of(text::views(searched@)));
            of_one("Absent"@, JsonView::Object(
                seq![
                    ("searched"@, json::texts_of(text::views(searched@))),
                ],
            ));
        },
        Standing::Unfit { at, reason } => {
            of_two(
                ("at"@, JsonView::Text(at@)),
                ("reason"@, JsonView::Text(reason@)),
            );
            of_one("Unfit"@, JsonView::Object(
                seq![
                    ("at"@, JsonView::Text(at@)),
                    ("reason"@, JsonView::Text(reason@)),
                ],
            ));
        },
    }
}

/// Law: a key is told as found, absent or out of reach, each by its own word.
pub proof fn a_resolved_key_is_told_by_name(
    resolved: &Resolved,
    r: Json,
)
    requires
        call_ensures(Resolved::told, (resolved,), r),
    ensures
        match *resolved {
            Resolved::Found(secret) => r@ == one("Found"@, JsonView::Text(secret.bytes())),
            Resolved::Absent => r@ == JsonView::Text("Absent"@),
            Resolved::Unreachable(reason) => r@ == one("Unreachable"@, JsonView::Text(reason@)),
        },
{
    match *resolved {
        Resolved::Found(secret) => {
            of_one("Found"@, JsonView::Text(secret.bytes()));
        },
        Resolved::Absent => {},
        Resolved::Unreachable(reason) => {
            of_one("Unreachable"@, JsonView::Text(reason@));
        },
    }
}

/// Law: a status is told by its capability and by its standing.
pub proof fn a_status_is_told_by_what_it_is_of(
    status: &CapabilityStatus,
    capability: Json,
    standing: Json,
    r: Json,
)
    requires
        call_ensures(CapabilityStatus::told, (status,), r),
        call_ensures(Capability::told, (&status.capability,), capability),
        call_ensures(Standing::told, (&status.standing,), standing),
    ensures
        r@ == JsonView::Object(
            seq![("capability"@, capability@), ("standing"@, standing@)],
        ),
{
    of_two(("capability"@, capability@), ("standing"@, standing@));
}

/// Law: a change of a build is told by the name of what it is, of its own
/// run, with what belongs to it.
pub proof fn a_builds_change_is_told_by_name(change: &Change, r: Json, state: Json)
    requires
        change.wf(),
        call_ensures(Change::told, (change,), r),
        change matches Change::Moved { state: to, .. } ==> call_ensures(
            tools::state_json,
            (to,),
            state,
        ),
    ensures
        match *change {
            Change::Reserved { run, feature, repository, branch, base } => r@ == JsonView::Object(
                seq![
                    ("change"@, JsonView::Text("reserved"@)),
                    ("run"@, JsonView::Whole(run.0 as nat)),
                    ("feature"@, JsonView::Text(feature@)),
                    ("repository"@, JsonView::Text(repository@)),
                    ("branch"@, JsonView::Text(branch@)),
                    ("base"@, text_or_null(base)),
                ],
            ),
            Change::Started { run, plan, problems, states, check } => {
                &&& r@ is Object
                &&& r@->Object_0.len() == 6
                &&& r@->Object_0[0] == ("change"@, JsonView::Text("started"@))
                &&& r@->Object_0[1] == ("run"@, JsonView::Whole(run.0 as nat))
                &&& r@->Object_0[2].0 == "plan"@
                &&& r@->Object_0[3] == ("problems"@, json::texts_of(text::views(problems@)))
                &&& r@->Object_0[4].0 == "states"@
                &&& r@->Object_0[5] == ("check"@, text_or_null(check))
            },
            Change::Moved { run, issue, state: _ } => r@ == JsonView::Object(
                seq![
                    ("change"@, JsonView::Text("moved"@)),
                    ("run"@, JsonView::Whole(run.0 as nat)),
                    ("issue"@, JsonView::Text(issue@)),
                    ("state"@, state@),
                ],
            ),
            Change::Finished { run } => r@ == JsonView::Object(
                seq![
                    ("change"@, JsonView::Text("finished"@)),
                    ("run"@, JsonView::Whole(run.0 as nat)),
                ],
            ),
            Change::Abandoned { run, reason } => r@ == JsonView::Object(
                seq![
                    ("change"@, JsonView::Text("abandoned"@)),
                    ("run"@, JsonView::Whole(run.0 as nat)),
                    ("reason"@, JsonView::Text(reason@)),
                ],
            ),
        },
{
    match *change {
        Change::Reserved { run, feature, repository, branch, base } => {
            of_six(
                ("change"@, JsonView::Text("reserved"@)),
                ("run"@, JsonView::Whole(run.0 as nat)),
                ("feature"@, JsonView::Text(feature@)),
                ("repository"@, JsonView::Text(repository@)),
                ("branch"@, JsonView::Text(branch@)),
                ("base"@, text_or_null(base)),
            );
        },
        Change::Started { .. } => {},
        Change::Moved { run, issue, state: _ } => {
            of_four(
                ("change"@, JsonView::Text("moved"@)),
                ("run"@, JsonView::Whole(run.0 as nat)),
                ("issue"@, JsonView::Text(issue@)),
                ("state"@, state@),
            );
        },
        Change::Finished { run } => {
            of_two(
                ("change"@, JsonView::Text("finished"@)),
                ("run"@, JsonView::Whole(run.0 as nat)),
            );
        },
        Change::Abandoned { run, reason } => {
            of_three(
                ("change"@, JsonView::Text("abandoned"@)),
                ("run"@, JsonView::Whole(run.0 as nat)),
                ("reason"@, JsonView::Text(reason@)),
            );
        },
    }
}

/// Law: an entry is told with its number, its stamp and its change.
pub proof fn an_entry_is_told_with_its_number(entry: &Entry, change: Json, r: Json)
    requires
        entry.change.wf(),
        call_ensures(Entry::told, (entry,), r),
        call_ensures(Change::told, (&entry.change,), change),
    ensures
        r@ == JsonView::Object(
            seq![
                ("seq"@, JsonView::Whole(entry.seq as nat)),
                ("at"@, JsonView::Whole(entry.at as nat)),
                ("change"@, change@),
            ],
        ),
{
    of_three(
        ("seq"@, JsonView::Whole(entry.seq as nat)),
        ("at"@, JsonView::Whole(entry.at as nat)),
        ("change"@, change@),
    );
}

/// Law: what an agent's line came to is told by the name of what it is, and
/// a result with whether it went well and what it says.
pub proof fn an_update_is_told_by_name(update: &Update, r: Json)
    requires
        call_ensures(Update::told, (update,), r),
    ensures
        match *update {
            Update::Session { id, model } => r@ == one(
                "Session"@,
                JsonView::Object(
                    seq![("id"@, JsonView::Text(id@)), ("model"@, JsonView::Text(model@))],
                ),
            ),
            Update::Text { text } => r@ == one("Text"@, one("text"@, JsonView::Text(text@))),
            Update::ToolUse { name } => r@ == one(
                "ToolUse"@,
                one("name"@, JsonView::Text(name@)),
            ),
            Update::Result { ok, text, .. } => {
                &&& r@ is Object
                &&& r@->Object_0.len() == 1
                &&& r@->Object_0[0].0 == "Result"@
                &&& r@->Object_0[0].1 is Object
                &&& r@->Object_0[0].1->Object_0.len() == 5
                &&& r@->Object_0[0].1->Object_0[0] == ("ok"@, JsonView::Bool(ok))
                &&& r@->Object_0[0].1->Object_0[1] == ("text"@, JsonView::Text(text@))
                &&& r@->Object_0[0].1->Object_0[2].0 == "cost_usd"@
                &&& r@->Object_0[0].1->Object_0[3].0 == "input_tokens"@
                &&& r@->Object_0[0].1->Object_0[4].0 == "output_tokens"@
            },
        },
{
    match *update {
        Update::Session { id, model } => {
            of_two(("id"@, JsonView::Text(id@)), ("model"@, JsonView::Text(model@)));
            of_one(
                "Session"@,
                JsonView::Object(
                    seq![("id"@, JsonView::Text(id@)), ("model"@, JsonView::Text(model@))],
                ),
            );
        },
        Update::Text { text } => {
            of_one("text"@, JsonView::Text(text@));
            of_one("Text"@, one("text"@, JsonView::Text(text@)));
        },
        Update::ToolUse { name } => {
            of_one("name"@, JsonView::Text(name@));
            of_one("ToolUse"@, one("name"@, JsonView::Text(name@)));
        },
        Update::Result { .. } => {},
    }
}

/// Whether an object tells of an issue of a plan.
pub open spec fn tells_issue(told: JsonView, issue: Issue) -> bool {
    told == JsonView::Object(
        seq![
            ("id"@, JsonView::Text(issue.id@)),
            ("title"@, JsonView::Text(issue.title@)),
            ("closed"@, JsonView::Bool(issue.closed)),
        ],
    )
}

proof fn an_issue_is_told(issue: Issue)
    ensures
        tells_issue(crossing::plans::told_issue(issue), issue),
{
    of_three(
        ("id"@, JsonView::Text(issue.id@)),
        ("title"@, JsonView::Text(issue.title@)),
        ("closed"@, JsonView::Bool(issue.closed)),
    );
}

/// Law: a plan is told as a tree, the edges and what stands outside it: the
/// feature at the root of the tree; every edge in order, from the issue to
/// its blocker; and every issue outside, in order.
pub proof fn a_plan_is_told_edge_by_edge(plan: &Plan, r: Json)
    requires
        call_ensures(Plan::told, (plan,), r),
    ensures
        r@ is Object,
        r@->Object_0.len() == 3,
        r@->Object_0[0].0 == "tree"@,
        r@->Object_0[0].1 is Object,
        r@->Object_0[0].1->Object_0.len() == 2,
        r@->Object_0[0].1->Object_0[0].0 == "value"@,
        tells_issue(r@->Object_0[0].1->Object_0[0].1, plan.tree.value),
        r@->Object_0[0].1->Object_0[1].0 == "children"@,
        r@->Object_0[1].0 == "blocking"@,
        r@->Object_0[1].1 is Array,
        r@->Object_0[1].1->Array_0.len() == plan.blocking@.len(),
        forall|k: int|
            0 <= k < plan.blocking@.len() ==> r@->Object_0[1].1->Array_0[k] == JsonView::Object(
                seq![
                    ("issue"@, JsonView::Text((#[trigger] plan.blocking@[k]).issue@)),
                    ("blocker"@, JsonView::Text(plan.blocking@[k].blocker@)),
                ],
            ),
        r@->Object_0[2].0 == "outside"@,
        r@->Object_0[2].1 is Array,
        r@->Object_0[2].1->Array_0.len() == plan.outside@.len(),
        forall|k: int|
            0 <= k < plan.outside@.len() ==> tells_issue(
                r@->Object_0[2].1->Array_0[k],
                #[trigger] plan.outside@[k],
            ),
{
    an_issue_is_told(plan.tree.value);
    assert forall|k: int| 0 <= k < plan.blocking@.len() implies r@->Object_0[1].1->Array_0[k]
        == JsonView::Object(
        seq![
            ("issue"@, JsonView::Text((#[trigger] plan.blocking@[k]).issue@)),
            ("blocker"@, JsonView::Text(plan.blocking@[k].blocker@)),
        ],
    ) by {
        of_two(
            ("issue"@, JsonView::Text(plan.blocking@[k].issue@)),
            ("blocker"@, JsonView::Text(plan.blocking@[k].blocker@)),
        );
    }
    assert forall|k: int| 0 <= k < plan.outside@.len() implies tells_issue(
        r@->Object_0[2].1->Array_0[k],
        #[trigger] plan.outside@[k],
    ) by {
        an_issue_is_told(plan.outside@[k]);
    }
}

} // verus!
