//! The event vocabularies: a chat's, an agent's, a run's and a feature's.

use crate::agent::coding::{AgentEvent, Stop};
use crate::crossing;
use crate::event;
use crate::event::{ChatEvent, Event, Money, Remedy, Usage};
use crate::json;
use crate::json::{Json, JsonView};
use crate::run::{FeatureEvent, FeaturePhase, FeatureVerdict, Phase, RunEvent, Verdict};
use crate::text;
use vstd::prelude::*;

verus! {

// ----- usage -----

/// A usage, as JSON: a count with nothing new to say has no member for it.
pub open spec fn told_usage(usage: Usage) -> JsonView {
    let counted = JsonView::record().with(
        "prompt_tokens"@,
        JsonView::Whole(usage.prompt_tokens as nat),
    ).with("completion_tokens"@, JsonView::Whole(usage.completion_tokens as nat));
    let cached = match usage.cache_tokens {
        Some(n) => counted.with("cache_tokens"@, JsonView::Whole(n as nat)),
        None => counted,
    };
    match usage.cost {
        Some(cost) => cached.with("cost"@, told_money(cost)),
        None => cached,
    }
}

/// An amount of money, as JSON.
pub open spec fn told_money(money: Money) -> JsonView {
    JsonView::record().with("micro_usd"@, JsonView::Whole(money.micro_usd as nat))
}

impl Usage {
    /// A usage, as JSON.
    pub fn told(&self) -> (r: Json)
        ensures
            r@ == told_usage(*self),
    {
        let counted = Json::record().with(
            "prompt_tokens",
            Json::Whole(self.prompt_tokens as u64),
        ).with("completion_tokens", Json::Whole(self.completion_tokens as u64));
        let cached = match self.cache_tokens {
            Some(n) => counted.with("cache_tokens", Json::Whole(n as u64)),
            None => counted,
        };
        match self.cost {
            Some(cost) => cached.with(
                "cost",
                Json::record().with("micro_usd", Json::Whole(cost.micro_usd)),
            ),
            None => cached,
        }
    }
}

/// Law: what is told of a usage is read back as it was.
pub proof fn told_usage_reads_back(usage: Usage)
    ensures
        event::usage_of(told_usage(usage)) == Some(usage),
{
    reveal_strlit("prompt_tokens");
    reveal_strlit("completion_tokens");
    reveal_strlit("cache_tokens");
    reveal_strlit("cost");
    reveal_strlit("micro_usd");
    assert("prompt_tokens"@.len() != "completion_tokens"@.len());
    assert("prompt_tokens"@.len() != "cache_tokens"@.len());
    assert("prompt_tokens"@.len() != "cost"@.len());
    assert("completion_tokens"@.len() != "cache_tokens"@.len());
    assert("completion_tokens"@.len() != "cost"@.len());
    assert("cache_tokens"@.len() != "cost"@.len());
    let record = JsonView::record();
    crossing::put(record, "prompt_tokens"@, JsonView::Whole(usage.prompt_tokens as nat));
    let record = record.with("prompt_tokens"@, JsonView::Whole(usage.prompt_tokens as nat));
    crossing::put(record, "completion_tokens"@, JsonView::Whole(usage.completion_tokens as nat));
    let counted = record.with(
        "completion_tokens"@,
        JsonView::Whole(usage.completion_tokens as nat),
    );
    let cached = match usage.cache_tokens {
        Some(n) => counted.with("cache_tokens"@, JsonView::Whole(n as nat)),
        None => counted,
    };
    if usage.cache_tokens is Some {
        crossing::put(counted, "cache_tokens"@, JsonView::Whole(usage.cache_tokens->0 as nat));
    }
    if usage.cost is Some {
        crossing::put(
            JsonView::record(),
            "micro_usd"@,
            JsonView::Whole((usage.cost->0).micro_usd as nat),
        );
        crossing::put(cached, "cost"@, told_money(usage.cost->0));
    }
}

/// A usage that must be there.
pub open spec fn read_needed_usage(part: Option<JsonView>) -> Option<Usage> {
    match part {
        Some(value) => event::usage_of(value),
        None => None,
    }
}

fn needed_usage(part: Option<&Json>) -> (r: Option<Usage>)
    ensures
        r == read_needed_usage(json::part_view(part)),
{
    match part {
        Some(value) => Usage::read(value),
        None => None,
    }
}

/// A usage, or null.
pub open spec fn told_optional_usage(usage: Option<Usage>) -> JsonView {
    match usage {
        Some(usage) => told_usage(usage),
        None => JsonView::Null,
    }
}

/// A usage that may be left out, or null.
pub open spec fn read_optional_usage(part: Option<JsonView>) -> Option<Option<Usage>> {
    match part {
        None => Some(None),
        Some(JsonView::Null) => Some(None),
        Some(value) => match event::usage_of(value) {
            Some(usage) => Some(Some(usage)),
            None => None,
        },
    }
}

fn tell_optional_usage(usage: &Option<Usage>) -> (r: Json)
    ensures
        r@ == told_optional_usage(*usage),
{
    match usage {
        Some(usage) => usage.told(),
        None => Json::Null,
    }
}

fn optional_usage(part: Option<&Json>) -> (r: Option<Option<Usage>>)
    ensures
        r == read_optional_usage(json::part_view(part)),
{
    match part {
        None => Some(None),
        Some(Json::Null) => Some(None),
        Some(value) => match Usage::read(value) {
            Some(usage) => Some(Some(usage)),
            None => None,
        },
    }
}

/// A usage that may be left out is read back as it was told.
proof fn told_optional_usage_reads_back(usage: Option<Usage>)
    ensures
        read_optional_usage(Some(told_optional_usage(usage))) == Some(usage),
{
    match usage {
        Some(usage) => {
            told_usage_reads_back(usage);
        },
        None => {},
    }
}

// ----- a stop -----

/// A [`Stop`] over sequences.
pub enum StopView {
    Completed,
    Spent,
    Stalled,
    Canceled,
    Died { error: Seq<char> },
}

impl View for Stop {
    type V = StopView;

    open spec fn view(&self) -> StopView {
        match self {
            Stop::Completed => StopView::Completed,
            Stop::Spent => StopView::Spent,
            Stop::Stalled => StopView::Stalled,
            Stop::Canceled => StopView::Canceled,
            Stop::Died { error } => StopView::Died {
                error: error@,
            },
        }
    }
}

/// A stop, as JSON.
pub open spec fn told_stop(stop: StopView) -> JsonView {
    match stop {
        StopView::Completed => JsonView::Text("Completed"@),
        StopView::Spent => JsonView::Text("Spent"@),
        StopView::Stalled => JsonView::Text("Stalled"@),
        StopView::Canceled => JsonView::Text("Canceled"@),
        StopView::Died { error } => crossing::variant(
            "Died"@,
            JsonView::record().with(
                "error"@,
                JsonView::Text(error),
            ),
        ),
    }
}

/// A stop out of JSON, when the value is one.
pub open spec fn stop_of(value: JsonView) -> Option<StopView> {
    if value.word() == Some("Completed"@) {
        Some(StopView::Completed)
    } else if value.word() == Some("Spent"@) {
        Some(StopView::Spent)
    } else if value.word() == Some("Stalled"@) {
        Some(StopView::Stalled)
    } else if value.word() == Some("Canceled"@) {
        Some(StopView::Canceled)
    } else if crossing::carried(value, "Died"@) is Some {
        let body = crossing::carried(value, "Died"@)->0;
        let error = json::needed_text(body.part(0, "error"@));
        if body.fills(1) && error is Some {
            Some(
                StopView::Died { error: error->0 },
            )
        } else {
            None
        }
    } else {
        None
    }
}

/// A stop that must be there.
pub open spec fn read_needed_stop(part: Option<JsonView>) -> Option<StopView> {
    match part {
        Some(value) => stop_of(value),
        None => None,
    }
}

/// A stop that may have been read.
pub open spec fn stop_result(read: Option<Stop>) -> Option<StopView> {
    match read {
        Some(stop) => Some(stop@),
        None => None,
    }
}

fn needed_stop(part: Option<&Json>) -> (r: Option<Stop>)
    ensures
        stop_result(r) == read_needed_stop(json::part_view(part)),
{
    match part {
        Some(value) => Stop::read(value),
        None => None,
    }
}

impl Stop {
    /// A stop, as JSON.
    pub fn told(&self) -> (r: Json)
        ensures
            r@ == told_stop(self@),
    {
        match self {
            Stop::Completed => Json::string("Completed"),
            Stop::Spent => Json::string("Spent"),
            Stop::Stalled => Json::string("Stalled"),
            Stop::Canceled => Json::string("Canceled"),
            Stop::Died { error } => Json::record().with(
                "Died",
                Json::record().with(
                    "error",
                    Json::string(error.as_str()),
                ),
            ),
        }
    }

    /// A stop out of JSON, when the value is one.
    pub fn read(value: &Json) -> (r: Option<Stop>)
        ensures
            stop_result(r) == stop_of(value@),
    {
        if crossing::is_word(value, "Completed") {
            return Some(Stop::Completed);
        }
        if crossing::is_word(value, "Spent") {
            return Some(Stop::Spent);
        }
        if crossing::is_word(value, "Stalled") {
            return Some(Stop::Stalled);
        }
        if crossing::is_word(value, "Canceled") {
            return Some(Stop::Canceled);
        }
        if let Some(body) = crossing::content(value, "Died") {
            if !body.fills(1) {
                return None;
            }
            let error = match json::read_text(body.part(0, "error")) {
                Some(error) => error,
                None => return None,
            };
            return Some(Stop::Died { error });
        }
        None
    }
}

/// Law: what is told of a stop is read back as it was.
pub proof fn told_stop_reads_back(stop: StopView)
    ensures
        stop_of(told_stop(stop)) == Some(stop),
{
    reveal_strlit("Completed");
    reveal_strlit("Spent");
    reveal_strlit("Stalled");
    reveal_strlit("Canceled");
    reveal_strlit("Died");
    reveal_strlit("error");
    assert("Completed"@.len() != "Spent"@.len());
    assert("Completed"@.len() != "Stalled"@.len());
    assert("Completed"@.len() != "Canceled"@.len());
    assert("Completed"@.len() != "Died"@.len());
    assert("Spent"@.len() != "Stalled"@.len());
    assert("Spent"@.len() != "Canceled"@.len());
    assert("Spent"@.len() != "Died"@.len());
    assert("Stalled"@.len() != "Canceled"@.len());
    assert("Stalled"@.len() != "Died"@.len());
    assert("Canceled"@.len() != "Died"@.len());
    match stop {
        StopView::Completed => {},
        StopView::Spent => {},
        StopView::Stalled => {},
        StopView::Canceled => {},
        StopView::Died { error } => {
            let record = JsonView::record();
            crossing::put(record, "error"@, JsonView::Text(error));
        },
    }
}

// ----- an agent's event -----

/// A [`AgentEvent`] over sequences.
pub enum AgentEventView {
    Started { agent: Seq<char> },
    Progress(Seq<char>),
    Usage(Usage),
    Finished(StopView),
}

impl View for AgentEvent {
    type V = AgentEventView;

    open spec fn view(&self) -> AgentEventView {
        match self {
            AgentEvent::Started { agent } => AgentEventView::Started {
                agent: agent@,
            },
            AgentEvent::Progress(said) => AgentEventView::Progress(said@),
            AgentEvent::Usage(usage) => AgentEventView::Usage(*usage),
            AgentEvent::Finished(stop) => AgentEventView::Finished(stop@),
        }
    }
}

/// An agent's event, as JSON.
pub open spec fn told_agent_event(agent_event: AgentEventView) -> JsonView {
    match agent_event {
        AgentEventView::Started { agent } => crossing::variant(
            "Started"@,
            JsonView::record().with(
                "agent"@,
                JsonView::Text(agent),
            ),
        ),
        AgentEventView::Progress(said) => crossing::variant("Progress"@, JsonView::Text(said)),
        AgentEventView::Usage(usage) => crossing::variant("Usage"@, told_usage(usage)),
        AgentEventView::Finished(stop) => crossing::variant("Finished"@, told_stop(stop)),
    }
}

/// An agent's event out of JSON, when the value is one.
pub open spec fn agent_event_of(value: JsonView) -> Option<AgentEventView> {
    if crossing::carried(value, "Started"@) is Some {
        let body = crossing::carried(value, "Started"@)->0;
        let agent = json::needed_text(body.part(0, "agent"@));
        if body.fills(1) && agent is Some {
            Some(
                AgentEventView::Started { agent: agent->0 },
            )
        } else {
            None
        }
    } else if crossing::carried(value, "Progress"@) is Some {
        match json::needed_text(crossing::carried(value, "Progress"@)) {
            Some(said) => Some(AgentEventView::Progress(said)),
            None => None,
        }
    } else if crossing::carried(value, "Usage"@) is Some {
        match read_needed_usage(crossing::carried(value, "Usage"@)) {
            Some(usage) => Some(AgentEventView::Usage(usage)),
            None => None,
        }
    } else if crossing::carried(value, "Finished"@) is Some {
        match read_needed_stop(crossing::carried(value, "Finished"@)) {
            Some(stop) => Some(AgentEventView::Finished(stop)),
            None => None,
        }
    } else {
        None
    }
}

/// An agent's event that must be there.
pub open spec fn read_needed_agent_event(part: Option<JsonView>) -> Option<AgentEventView> {
    match part {
        Some(value) => agent_event_of(value),
        None => None,
    }
}

/// An agent's event that may have been read.
pub open spec fn agent_event_result(read: Option<AgentEvent>) -> Option<AgentEventView> {
    match read {
        Some(agent_event) => Some(agent_event@),
        None => None,
    }
}

fn needed_agent_event(part: Option<&Json>) -> (r: Option<AgentEvent>)
    ensures
        agent_event_result(r) == read_needed_agent_event(json::part_view(part)),
{
    match part {
        Some(value) => AgentEvent::read(value),
        None => None,
    }
}

impl AgentEvent {
    /// An agent's event, as JSON.
    pub fn told(&self) -> (r: Json)
        ensures
            r@ == told_agent_event(self@),
    {
        match self {
            AgentEvent::Started { agent } => Json::record().with(
                "Started",
                Json::record().with(
                    "agent",
                    Json::string(agent.as_str()),
                ),
            ),
            AgentEvent::Progress(said) => Json::record().with(
                "Progress",
                Json::string(said.as_str()),
            ),
            AgentEvent::Usage(usage) => Json::record().with("Usage", usage.told()),
            AgentEvent::Finished(stop) => Json::record().with("Finished", stop.told()),
        }
    }

    /// An agent's event out of JSON, when the value is one.
    pub fn read(value: &Json) -> (r: Option<AgentEvent>)
        ensures
            agent_event_result(r) == agent_event_of(value@),
    {
        if let Some(body) = crossing::content(value, "Started") {
            if !body.fills(1) {
                return None;
            }
            let agent = match json::read_text(body.part(0, "agent")) {
                Some(agent) => agent,
                None => return None,
            };
            return Some(AgentEvent::Started { agent });
        }
        let part = crossing::content(value, "Progress");
        if part.is_some() {
            return match json::read_text(part) {
                Some(said) => Some(AgentEvent::Progress(said)),
                None => None,
            };
        }
        let part = crossing::content(value, "Usage");
        if part.is_some() {
            return match needed_usage(part) {
                Some(usage) => Some(AgentEvent::Usage(usage)),
                None => None,
            };
        }
        let part = crossing::content(value, "Finished");
        if part.is_some() {
            return match needed_stop(part) {
                Some(stop) => Some(AgentEvent::Finished(stop)),
                None => None,
            };
        }
        None
    }
}

/// Law: what is told of an agent's event is read back as it was.
pub proof fn told_agent_event_reads_back(agent_event: AgentEventView)
    ensures
        agent_event_of(told_agent_event(agent_event)) == Some(agent_event),
{
    reveal_strlit("Started");
    reveal_strlit("Progress");
    reveal_strlit("Usage");
    reveal_strlit("Finished");
    reveal_strlit("agent");
    assert("Started"@.len() != "Progress"@.len());
    assert("Started"@.len() != "Usage"@.len());
    assert("Started"@.len() != "Finished"@.len());
    assert("Progress"@.len() != "Usage"@.len());
    assert("Progress"@[0] != "Finished"@[0]);
    assert("Usage"@.len() != "Finished"@.len());
    match agent_event {
        AgentEventView::Started { agent } => {
            let record = JsonView::record();
            crossing::put(record, "agent"@, JsonView::Text(agent));
        },
        AgentEventView::Progress(said) => {},
        AgentEventView::Usage(usage) => {
            told_usage_reads_back(usage);
        },
        AgentEventView::Finished(stop) => {
            told_stop_reads_back(stop);
        },
    }
}

// ----- a phase -----

/// A phase, as JSON.
pub open spec fn told_phase(phase: Phase) -> JsonView {
    match phase {
        Phase::Worktree => JsonView::Text("Worktree"@),
        Phase::Implement => JsonView::Text("Implement"@),
        Phase::Watch => JsonView::Text("Watch"@),
        Phase::Review => JsonView::Text("Review"@),
        Phase::Merge => JsonView::Text("Merge"@),
        Phase::Close => JsonView::Text("Close"@),
        Phase::Cleanup => JsonView::Text("Cleanup"@),
    }
}

/// A phase out of JSON, when the value is one.
pub open spec fn phase_of(value: JsonView) -> Option<Phase> {
    if value.word() == Some("Worktree"@) {
        Some(Phase::Worktree)
    } else if value.word() == Some("Implement"@) {
        Some(Phase::Implement)
    } else if value.word() == Some("Watch"@) {
        Some(Phase::Watch)
    } else if value.word() == Some("Review"@) {
        Some(Phase::Review)
    } else if value.word() == Some("Merge"@) {
        Some(Phase::Merge)
    } else if value.word() == Some("Close"@) {
        Some(Phase::Close)
    } else if value.word() == Some("Cleanup"@) {
        Some(Phase::Cleanup)
    } else {
        None
    }
}

/// A phase that must be there.
pub open spec fn read_needed_phase(part: Option<JsonView>) -> Option<Phase> {
    match part {
        Some(value) => phase_of(value),
        None => None,
    }
}

fn needed_phase(part: Option<&Json>) -> (r: Option<Phase>)
    ensures
        r == read_needed_phase(json::part_view(part)),
{
    match part {
        Some(value) => Phase::read(value),
        None => None,
    }
}

impl Phase {
    /// A phase, as JSON.
    pub fn told(&self) -> (r: Json)
        ensures
            r@ == told_phase(*self),
    {
        match self {
            Phase::Worktree => Json::string("Worktree"),
            Phase::Implement => Json::string("Implement"),
            Phase::Watch => Json::string("Watch"),
            Phase::Review => Json::string("Review"),
            Phase::Merge => Json::string("Merge"),
            Phase::Close => Json::string("Close"),
            Phase::Cleanup => Json::string("Cleanup"),
        }
    }

    /// A phase out of JSON, when the value is one.
    pub fn read(value: &Json) -> (r: Option<Phase>)
        ensures
            r == phase_of(value@),
    {
        if crossing::is_word(value, "Worktree") {
            return Some(Phase::Worktree);
        }
        if crossing::is_word(value, "Implement") {
            return Some(Phase::Implement);
        }
        if crossing::is_word(value, "Watch") {
            return Some(Phase::Watch);
        }
        if crossing::is_word(value, "Review") {
            return Some(Phase::Review);
        }
        if crossing::is_word(value, "Merge") {
            return Some(Phase::Merge);
        }
        if crossing::is_word(value, "Close") {
            return Some(Phase::Close);
        }
        if crossing::is_word(value, "Cleanup") {
            return Some(Phase::Cleanup);
        }
        None
    }
}

/// Law: what is told of a phase is read back as it was.
pub proof fn told_phase_reads_back(phase: Phase)
    ensures
        phase_of(told_phase(phase)) == Some(phase),
{
    reveal_strlit("Worktree");
    reveal_strlit("Implement");
    reveal_strlit("Watch");
    reveal_strlit("Review");
    reveal_strlit("Merge");
    reveal_strlit("Close");
    reveal_strlit("Cleanup");
    assert("Worktree"@.len() != "Implement"@.len());
    assert("Worktree"@.len() != "Watch"@.len());
    assert("Worktree"@.len() != "Review"@.len());
    assert("Worktree"@.len() != "Merge"@.len());
    assert("Worktree"@.len() != "Close"@.len());
    assert("Worktree"@.len() != "Cleanup"@.len());
    assert("Implement"@.len() != "Watch"@.len());
    assert("Implement"@.len() != "Review"@.len());
    assert("Implement"@.len() != "Merge"@.len());
    assert("Implement"@.len() != "Close"@.len());
    assert("Implement"@.len() != "Cleanup"@.len());
    assert("Watch"@.len() != "Review"@.len());
    assert("Watch"@[0] != "Merge"@[0]);
    assert("Watch"@[0] != "Close"@[0]);
    assert("Watch"@.len() != "Cleanup"@.len());
    assert("Review"@.len() != "Merge"@.len());
    assert("Review"@.len() != "Close"@.len());
    assert("Review"@.len() != "Cleanup"@.len());
    assert("Merge"@[0] != "Close"@[0]);
    assert("Merge"@.len() != "Cleanup"@.len());
    assert("Close"@.len() != "Cleanup"@.len());
    match phase {
        Phase::Worktree => {},
        Phase::Implement => {},
        Phase::Watch => {},
        Phase::Review => {},
        Phase::Merge => {},
        Phase::Close => {},
        Phase::Cleanup => {},
    }
}

// ----- a verdict -----

/// A [`Verdict`] over sequences.
pub enum VerdictView {
    Done,
    Failed { report: Seq<char> },
}

impl View for Verdict {
    type V = VerdictView;

    open spec fn view(&self) -> VerdictView {
        match self {
            Verdict::Done => VerdictView::Done,
            Verdict::Failed { report } => VerdictView::Failed {
                report: report@,
            },
        }
    }
}

/// A verdict, as JSON.
pub open spec fn told_verdict(verdict: VerdictView) -> JsonView {
    match verdict {
        VerdictView::Done => JsonView::Text("Done"@),
        VerdictView::Failed { report } => crossing::variant(
            "Failed"@,
            JsonView::record().with(
                "report"@,
                JsonView::Text(report),
            ),
        ),
    }
}

/// A verdict out of JSON, when the value is one.
pub open spec fn verdict_of(value: JsonView) -> Option<VerdictView> {
    if value.word() == Some("Done"@) {
        Some(VerdictView::Done)
    } else if crossing::carried(value, "Failed"@) is Some {
        let body = crossing::carried(value, "Failed"@)->0;
        let report = json::needed_text(body.part(0, "report"@));
        if body.fills(1) && report is Some {
            Some(
                VerdictView::Failed { report: report->0 },
            )
        } else {
            None
        }
    } else {
        None
    }
}

/// A verdict that must be there.
pub open spec fn read_needed_verdict(part: Option<JsonView>) -> Option<VerdictView> {
    match part {
        Some(value) => verdict_of(value),
        None => None,
    }
}

/// A verdict that may have been read.
pub open spec fn verdict_result(read: Option<Verdict>) -> Option<VerdictView> {
    match read {
        Some(verdict) => Some(verdict@),
        None => None,
    }
}

fn needed_verdict(part: Option<&Json>) -> (r: Option<Verdict>)
    ensures
        verdict_result(r) == read_needed_verdict(json::part_view(part)),
{
    match part {
        Some(value) => Verdict::read(value),
        None => None,
    }
}

impl Verdict {
    /// A verdict, as JSON.
    pub fn told(&self) -> (r: Json)
        ensures
            r@ == told_verdict(self@),
    {
        match self {
            Verdict::Done => Json::string("Done"),
            Verdict::Failed { report } => Json::record().with(
                "Failed",
                Json::record().with(
                    "report",
                    Json::string(report.as_str()),
                ),
            ),
        }
    }

    /// A verdict out of JSON, when the value is one.
    pub fn read(value: &Json) -> (r: Option<Verdict>)
        ensures
            verdict_result(r) == verdict_of(value@),
    {
        if crossing::is_word(value, "Done") {
            return Some(Verdict::Done);
        }
        if let Some(body) = crossing::content(value, "Failed") {
            if !body.fills(1) {
                return None;
            }
            let report = match json::read_text(body.part(0, "report")) {
                Some(report) => report,
                None => return None,
            };
            return Some(Verdict::Failed { report });
        }
        None
    }
}

/// Law: what is told of a verdict is read back as it was.
pub proof fn told_verdict_reads_back(verdict: VerdictView)
    ensures
        verdict_of(told_verdict(verdict)) == Some(verdict),
{
    reveal_strlit("Done");
    reveal_strlit("Failed");
    reveal_strlit("report");
    assert("Done"@.len() != "Failed"@.len());
    match verdict {
        VerdictView::Done => {},
        VerdictView::Failed { report } => {
            let record = JsonView::record();
            crossing::put(record, "report"@, JsonView::Text(report));
        },
    }
}

// ----- a run's event -----

/// A [`RunEvent`] over sequences.
pub enum RunEventView {
    Entered(Phase),
    Agent(AgentEventView),
    Finished(VerdictView),
}

impl View for RunEvent {
    type V = RunEventView;

    open spec fn view(&self) -> RunEventView {
        match self {
            RunEvent::Entered(phase) => RunEventView::Entered(*phase),
            RunEvent::Agent(event) => RunEventView::Agent(event@),
            RunEvent::Finished(verdict) => RunEventView::Finished(verdict@),
        }
    }
}

/// A run's event, as JSON.
pub open spec fn told_run_event(run_event: RunEventView) -> JsonView {
    match run_event {
        RunEventView::Entered(phase) => crossing::variant("Entered"@, told_phase(phase)),
        RunEventView::Agent(event) => crossing::variant("Agent"@, told_agent_event(event)),
        RunEventView::Finished(verdict) => crossing::variant("Finished"@, told_verdict(verdict)),
    }
}

/// A run's event out of JSON, when the value is one.
pub open spec fn run_event_of(value: JsonView) -> Option<RunEventView> {
    if crossing::carried(value, "Entered"@) is Some {
        match read_needed_phase(crossing::carried(value, "Entered"@)) {
            Some(phase) => Some(RunEventView::Entered(phase)),
            None => None,
        }
    } else if crossing::carried(value, "Agent"@) is Some {
        match read_needed_agent_event(crossing::carried(value, "Agent"@)) {
            Some(event) => Some(RunEventView::Agent(event)),
            None => None,
        }
    } else if crossing::carried(value, "Finished"@) is Some {
        match read_needed_verdict(crossing::carried(value, "Finished"@)) {
            Some(verdict) => Some(RunEventView::Finished(verdict)),
            None => None,
        }
    } else {
        None
    }
}

/// A run's event that must be there.
pub open spec fn read_needed_run_event(part: Option<JsonView>) -> Option<RunEventView> {
    match part {
        Some(value) => run_event_of(value),
        None => None,
    }
}

/// A run's event that may have been read.
pub open spec fn run_event_result(read: Option<RunEvent>) -> Option<RunEventView> {
    match read {
        Some(run_event) => Some(run_event@),
        None => None,
    }
}

fn needed_run_event(part: Option<&Json>) -> (r: Option<RunEvent>)
    ensures
        run_event_result(r) == read_needed_run_event(json::part_view(part)),
{
    match part {
        Some(value) => RunEvent::read(value),
        None => None,
    }
}

impl RunEvent {
    /// A run's event, as JSON.
    pub fn told(&self) -> (r: Json)
        ensures
            r@ == told_run_event(self@),
    {
        match self {
            RunEvent::Entered(phase) => Json::record().with("Entered", phase.told()),
            RunEvent::Agent(event) => Json::record().with("Agent", event.told()),
            RunEvent::Finished(verdict) => Json::record().with("Finished", verdict.told()),
        }
    }

    /// A run's event out of JSON, when the value is one.
    pub fn read(value: &Json) -> (r: Option<RunEvent>)
        ensures
            run_event_result(r) == run_event_of(value@),
    {
        let part = crossing::content(value, "Entered");
        if part.is_some() {
            return match needed_phase(part) {
                Some(phase) => Some(RunEvent::Entered(phase)),
                None => None,
            };
        }
        let part = crossing::content(value, "Agent");
        if part.is_some() {
            return match needed_agent_event(part) {
                Some(event) => Some(RunEvent::Agent(event)),
                None => None,
            };
        }
        let part = crossing::content(value, "Finished");
        if part.is_some() {
            return match needed_verdict(part) {
                Some(verdict) => Some(RunEvent::Finished(verdict)),
                None => None,
            };
        }
        None
    }
}

/// Law: what is told of a run's event is read back as it was.
pub proof fn told_run_event_reads_back(run_event: RunEventView)
    ensures
        run_event_of(told_run_event(run_event)) == Some(run_event),
{
    reveal_strlit("Entered");
    reveal_strlit("Agent");
    reveal_strlit("Finished");
    assert("Entered"@.len() != "Agent"@.len());
    assert("Entered"@.len() != "Finished"@.len());
    assert("Agent"@.len() != "Finished"@.len());
    match run_event {
        RunEventView::Entered(phase) => {
            told_phase_reads_back(phase);
        },
        RunEventView::Agent(event) => {
            told_agent_event_reads_back(event);
        },
        RunEventView::Finished(verdict) => {
            told_verdict_reads_back(verdict);
        },
    }
}

// ----- a feature's phase -----

/// A feature's phase, as JSON.
pub open spec fn told_feature_phase(feature_phase: FeaturePhase) -> JsonView {
    match feature_phase {
        FeaturePhase::Graph => JsonView::Text("Graph"@),
        FeaturePhase::Branch => JsonView::Text("Branch"@),
        FeaturePhase::Schedule => JsonView::Text("Schedule"@),
        FeaturePhase::Review => JsonView::Text("Review"@),
    }
}

/// A feature's phase out of JSON, when the value is one.
pub open spec fn feature_phase_of(value: JsonView) -> Option<FeaturePhase> {
    if value.word() == Some("Graph"@) {
        Some(FeaturePhase::Graph)
    } else if value.word() == Some("Branch"@) {
        Some(FeaturePhase::Branch)
    } else if value.word() == Some("Schedule"@) {
        Some(FeaturePhase::Schedule)
    } else if value.word() == Some("Review"@) {
        Some(FeaturePhase::Review)
    } else {
        None
    }
}

/// A feature's phase that must be there.
pub open spec fn read_needed_feature_phase(part: Option<JsonView>) -> Option<FeaturePhase> {
    match part {
        Some(value) => feature_phase_of(value),
        None => None,
    }
}

fn needed_feature_phase(part: Option<&Json>) -> (r: Option<FeaturePhase>)
    ensures
        r == read_needed_feature_phase(json::part_view(part)),
{
    match part {
        Some(value) => FeaturePhase::read(value),
        None => None,
    }
}

impl FeaturePhase {
    /// A feature's phase, as JSON.
    pub fn told(&self) -> (r: Json)
        ensures
            r@ == told_feature_phase(*self),
    {
        match self {
            FeaturePhase::Graph => Json::string("Graph"),
            FeaturePhase::Branch => Json::string("Branch"),
            FeaturePhase::Schedule => Json::string("Schedule"),
            FeaturePhase::Review => Json::string("Review"),
        }
    }

    /// A feature's phase out of JSON, when the value is one.
    pub fn read(value: &Json) -> (r: Option<FeaturePhase>)
        ensures
            r == feature_phase_of(value@),
    {
        if crossing::is_word(value, "Graph") {
            return Some(FeaturePhase::Graph);
        }
        if crossing::is_word(value, "Branch") {
            return Some(FeaturePhase::Branch);
        }
        if crossing::is_word(value, "Schedule") {
            return Some(FeaturePhase::Schedule);
        }
        if crossing::is_word(value, "Review") {
            return Some(FeaturePhase::Review);
        }
        None
    }
}

/// Law: what is told of a feature's phase is read back as it was.
pub proof fn told_feature_phase_reads_back(feature_phase: FeaturePhase)
    ensures
        feature_phase_of(told_feature_phase(feature_phase)) == Some(feature_phase),
{
    reveal_strlit("Graph");
    reveal_strlit("Branch");
    reveal_strlit("Schedule");
    reveal_strlit("Review");
    assert("Graph"@.len() != "Branch"@.len());
    assert("Graph"@.len() != "Schedule"@.len());
    assert("Graph"@.len() != "Review"@.len());
    assert("Branch"@.len() != "Schedule"@.len());
    assert("Branch"@[0] != "Review"@[0]);
    assert("Schedule"@.len() != "Review"@.len());
    match feature_phase {
        FeaturePhase::Graph => {},
        FeaturePhase::Branch => {},
        FeaturePhase::Schedule => {},
        FeaturePhase::Review => {},
    }
}

// ----- a feature's verdict -----

/// A [`FeatureVerdict`] over sequences.
pub enum FeatureVerdictView {
    Done { review: nat },
    Failed { report: Seq<char> },
}

impl View for FeatureVerdict {
    type V = FeatureVerdictView;

    open spec fn view(&self) -> FeatureVerdictView {
        match self {
            FeatureVerdict::Done { review } => FeatureVerdictView::Done {
                review: *review as nat,
            },
            FeatureVerdict::Failed { report } => FeatureVerdictView::Failed {
                report: report@,
            },
        }
    }
}

/// A feature's verdict, as JSON.
pub open spec fn told_feature_verdict(feature_verdict: FeatureVerdictView) -> JsonView {
    match feature_verdict {
        FeatureVerdictView::Done { review } => crossing::variant(
            "Done"@,
            JsonView::record().with(
                "review"@,
                JsonView::Whole(review),
            ),
        ),
        FeatureVerdictView::Failed { report } => crossing::variant(
            "Failed"@,
            JsonView::record().with(
                "report"@,
                JsonView::Text(report),
            ),
        ),
    }
}

/// A feature's verdict out of JSON, when the value is one.
pub open spec fn feature_verdict_of(value: JsonView) -> Option<FeatureVerdictView> {
    if crossing::carried(value, "Done"@) is Some {
        let body = crossing::carried(value, "Done"@)->0;
        let review = json::needed_whole(body.part(0, "review"@));
        if body.fills(1) && review is Some {
            Some(
                FeatureVerdictView::Done { review: review->0 },
            )
        } else {
            None
        }
    } else if crossing::carried(value, "Failed"@) is Some {
        let body = crossing::carried(value, "Failed"@)->0;
        let report = json::needed_text(body.part(0, "report"@));
        if body.fills(1) && report is Some {
            Some(
                FeatureVerdictView::Failed { report: report->0 },
            )
        } else {
            None
        }
    } else {
        None
    }
}

/// A feature's verdict that must be there.
pub open spec fn read_needed_feature_verdict(part: Option<JsonView>) -> Option<FeatureVerdictView> {
    match part {
        Some(value) => feature_verdict_of(value),
        None => None,
    }
}

/// A feature's verdict that may have been read.
pub open spec fn feature_verdict_result(
    read: Option<FeatureVerdict>,
) -> Option<FeatureVerdictView> {
    match read {
        Some(feature_verdict) => Some(feature_verdict@),
        None => None,
    }
}

fn needed_feature_verdict(part: Option<&Json>) -> (r: Option<FeatureVerdict>)
    ensures
        feature_verdict_result(r) == read_needed_feature_verdict(json::part_view(part)),
{
    match part {
        Some(value) => FeatureVerdict::read(value),
        None => None,
    }
}

impl FeatureVerdict {
    /// A feature's verdict, as JSON.
    pub fn told(&self) -> (r: Json)
        ensures
            r@ == told_feature_verdict(self@),
    {
        match self {
            FeatureVerdict::Done { review } => Json::record().with(
                "Done",
                Json::record().with(
                    "review",
                    Json::Whole(*review),
                ),
            ),
            FeatureVerdict::Failed { report } => Json::record().with(
                "Failed",
                Json::record().with(
                    "report",
                    Json::string(report.as_str()),
                ),
            ),
        }
    }

    /// A feature's verdict out of JSON, when the value is one.
    pub fn read(value: &Json) -> (r: Option<FeatureVerdict>)
        ensures
            feature_verdict_result(r) == feature_verdict_of(value@),
    {
        if let Some(body) = crossing::content(value, "Done") {
            if !body.fills(1) {
                return None;
            }
            let review = match json::read_whole(body.part(0, "review")) {
                Some(review) => review,
                None => return None,
            };
            return Some(FeatureVerdict::Done { review });
        }
        if let Some(body) = crossing::content(value, "Failed") {
            if !body.fills(1) {
                return None;
            }
            let report = match json::read_text(body.part(0, "report")) {
                Some(report) => report,
                None => return None,
            };
            return Some(FeatureVerdict::Failed { report });
        }
        None
    }
}

/// Law: what is told of a feature's verdict is read back as it was.
pub proof fn told_feature_verdict_reads_back(feature_verdict: FeatureVerdictView)
    ensures
        feature_verdict_of(told_feature_verdict(feature_verdict)) == Some(feature_verdict),
{
    reveal_strlit("Done");
    reveal_strlit("Failed");
    reveal_strlit("review");
    reveal_strlit("report");
    assert("Done"@.len() != "Failed"@.len());
    match feature_verdict {
        FeatureVerdictView::Done { review } => {
            let record = JsonView::record();
            crossing::put(record, "review"@, JsonView::Whole(review));
        },
        FeatureVerdictView::Failed { report } => {
            let record = JsonView::record();
            crossing::put(record, "report"@, JsonView::Text(report));
        },
    }
}

// ----- a feature's event -----

/// A [`FeatureEvent`] over sequences.
pub enum FeatureEventView {
    Entered(FeaturePhase),
    Issue { number: nat, event: RunEventView },
    Retained { number: nat, path: Seq<char>, error: Option<Seq<char>> },
    Finished(FeatureVerdictView),
}

impl View for FeatureEvent {
    type V = FeatureEventView;

    open spec fn view(&self) -> FeatureEventView {
        match self {
            FeatureEvent::Entered(phase) => FeatureEventView::Entered(*phase),
            FeatureEvent::Issue { number, event } => FeatureEventView::Issue {
                number: *number as nat,
                event: event@,
            },
            FeatureEvent::Retained { number, path, error } => FeatureEventView::Retained {
                number: *number as nat,
                path: path@,
                error: text::optional(*error),
            },
            FeatureEvent::Finished(verdict) => FeatureEventView::Finished(verdict@),
        }
    }
}

/// A feature's event, as JSON.
pub open spec fn told_feature_event(feature_event: FeatureEventView) -> JsonView {
    match feature_event {
        FeatureEventView::Entered(phase) => crossing::variant(
            "Entered"@,
            told_feature_phase(phase),
        ),
        FeatureEventView::Issue { number, event } => crossing::variant(
            "Issue"@,
            JsonView::record().with(
                "number"@,
                JsonView::Whole(number),
            ).with(
                "event"@,
                told_run_event(event),
            ),
        ),
        FeatureEventView::Retained { number, path, error } => crossing::variant(
            "Retained"@,
            JsonView::record().with(
                "number"@,
                JsonView::Whole(number),
            ).with(
                "path"@,
                JsonView::Text(path),
            ).with(
                "error"@,
                json::text_or_null(error),
            ),
        ),
        FeatureEventView::Finished(verdict) => crossing::variant(
            "Finished"@,
            told_feature_verdict(verdict),
        ),
    }
}

/// A feature's event out of JSON, when the value is one.
pub open spec fn feature_event_of(value: JsonView) -> Option<FeatureEventView> {
    if crossing::carried(value, "Entered"@) is Some {
        match read_needed_feature_phase(crossing::carried(value, "Entered"@)) {
            Some(phase) => Some(FeatureEventView::Entered(phase)),
            None => None,
        }
    } else if crossing::carried(value, "Issue"@) is Some {
        let body = crossing::carried(value, "Issue"@)->0;
        let number = json::needed_whole(body.part(0, "number"@));
        let event = read_needed_run_event(body.part(1, "event"@));
        if body.fills(2) && number is Some && event is Some {
            Some(
                FeatureEventView::Issue { number: number->0, event: event->0 },
            )
        } else {
            None
        }
    } else if crossing::carried(value, "Retained"@) is Some {
        let body = crossing::carried(value, "Retained"@)->0;
        let number = json::needed_whole(body.part(0, "number"@));
        let path = json::needed_text(body.part(1, "path"@));
        let error = json::optional_text(body.part(2, "error"@));
        if body.fills(3) && number is Some && path is Some && error is Some {
            Some(
                FeatureEventView::Retained { number: number->0, path: path->0, error: error->0 },
            )
        } else {
            None
        }
    } else if crossing::carried(value, "Finished"@) is Some {
        match read_needed_feature_verdict(crossing::carried(value, "Finished"@)) {
            Some(verdict) => Some(FeatureEventView::Finished(verdict)),
            None => None,
        }
    } else {
        None
    }
}

/// A feature's event that may have been read.
pub open spec fn feature_event_result(read: Option<FeatureEvent>) -> Option<FeatureEventView> {
    match read {
        Some(feature_event) => Some(feature_event@),
        None => None,
    }
}

impl FeatureEvent {
    /// A feature's event, as JSON.
    pub fn told(&self) -> (r: Json)
        ensures
            r@ == told_feature_event(self@),
    {
        match self {
            FeatureEvent::Entered(phase) => Json::record().with("Entered", phase.told()),
            FeatureEvent::Issue { number, event } => Json::record().with(
                "Issue",
                Json::record().with(
                    "number",
                    Json::Whole(*number),
                ).with(
                    "event",
                    event.told(),
                ),
            ),
            FeatureEvent::Retained { number, path, error } => Json::record().with(
                "Retained",
                Json::record().with(
                    "number",
                    Json::Whole(*number),
                ).with(
                    "path",
                    Json::string(path.as_str()),
                ).with(
                    "error",
                    Json::string_or_null(error),
                ),
            ),
            FeatureEvent::Finished(verdict) => Json::record().with("Finished", verdict.told()),
        }
    }

    /// A feature's event out of JSON, when the value is one.
    pub fn read(value: &Json) -> (r: Option<FeatureEvent>)
        ensures
            feature_event_result(r) == feature_event_of(value@),
    {
        let part = crossing::content(value, "Entered");
        if part.is_some() {
            return match needed_feature_phase(part) {
                Some(phase) => Some(FeatureEvent::Entered(phase)),
                None => None,
            };
        }
        if let Some(body) = crossing::content(value, "Issue") {
            if !body.fills(2) {
                return None;
            }
            let number = match json::read_whole(body.part(0, "number")) {
                Some(number) => number,
                None => return None,
            };
            let event = match needed_run_event(body.part(1, "event")) {
                Some(event) => event,
                None => return None,
            };
            return Some(FeatureEvent::Issue { number, event });
        }
        if let Some(body) = crossing::content(value, "Retained") {
            if !body.fills(3) {
                return None;
            }
            let number = match json::read_whole(body.part(0, "number")) {
                Some(number) => number,
                None => return None,
            };
            let path = match json::read_text(body.part(1, "path")) {
                Some(path) => path,
                None => return None,
            };
            let error = match json::read_optional_text(body.part(2, "error")) {
                Some(error) => error,
                None => return None,
            };
            return Some(FeatureEvent::Retained { number, path, error });
        }
        let part = crossing::content(value, "Finished");
        if part.is_some() {
            return match needed_feature_verdict(part) {
                Some(verdict) => Some(FeatureEvent::Finished(verdict)),
                None => None,
            };
        }
        None
    }
}

/// Law: what is told of a feature's event is read back as it was.
pub proof fn told_feature_event_reads_back(feature_event: FeatureEventView)
    ensures
        feature_event_of(told_feature_event(feature_event)) == Some(feature_event),
{
    reveal_strlit("Entered");
    reveal_strlit("Issue");
    reveal_strlit("Retained");
    reveal_strlit("Finished");
    reveal_strlit("number");
    reveal_strlit("event");
    reveal_strlit("path");
    reveal_strlit("error");
    assert("Entered"@.len() != "Issue"@.len());
    assert("Entered"@.len() != "Retained"@.len());
    assert("Entered"@.len() != "Finished"@.len());
    assert("Issue"@.len() != "Retained"@.len());
    assert("Issue"@.len() != "Finished"@.len());
    assert("Retained"@[0] != "Finished"@[0]);
    assert("number"@.len() != "event"@.len());
    assert("number"@.len() != "path"@.len());
    assert("number"@.len() != "error"@.len());
    assert("path"@.len() != "error"@.len());
    match feature_event {
        FeatureEventView::Entered(phase) => {
            told_feature_phase_reads_back(phase);
        },
        FeatureEventView::Issue { number, event } => {
            told_run_event_reads_back(event);
            let record = JsonView::record();
            crossing::put(record, "number"@, JsonView::Whole(number));
            let record = record.with("number"@, JsonView::Whole(number));
            crossing::put(record, "event"@, told_run_event(event));
        },
        FeatureEventView::Retained { number, path, error } => {
            let record = JsonView::record();
            crossing::put(record, "number"@, JsonView::Whole(number));
            let record = record.with("number"@, JsonView::Whole(number));
            crossing::put(record, "path"@, JsonView::Text(path));
            let record = record.with("path"@, JsonView::Text(path));
            crossing::put(record, "error"@, json::text_or_null(error));
        },
        FeatureEventView::Finished(verdict) => {
            told_feature_verdict_reads_back(verdict);
        },
    }
}

// ----- an event -----

/// An event, as JSON.
pub open spec fn told_event(event: Event) -> JsonView {
    match event {
        Event::IssueStarted { id } => crossing::variant(
            "IssueStarted"@,
            JsonView::record().with(
                "id"@,
                JsonView::Whole(id as nat),
            ),
        ),
        Event::IssueImplemented { id } => crossing::variant(
            "IssueImplemented"@,
            JsonView::record().with(
                "id"@,
                JsonView::Whole(id as nat),
            ),
        ),
    }
}

/// An event out of JSON, when the value is one.
pub open spec fn event_of(value: JsonView) -> Option<Event> {
    if crossing::carried(value, "IssueStarted"@) is Some {
        let body = crossing::carried(value, "IssueStarted"@)->0;
        let id = event::small(json::needed_whole(body.part(0, "id"@)));
        if body.fills(1) && id is Some {
            Some(
                Event::IssueStarted { id: id->0 },
            )
        } else {
            None
        }
    } else if crossing::carried(value, "IssueImplemented"@) is Some {
        let body = crossing::carried(value, "IssueImplemented"@)->0;
        let id = event::small(json::needed_whole(body.part(0, "id"@)));
        if body.fills(1) && id is Some {
            Some(
                Event::IssueImplemented { id: id->0 },
            )
        } else {
            None
        }
    } else {
        None
    }
}

impl Event {
    /// An event, as JSON.
    pub fn told(&self) -> (r: Json)
        ensures
            r@ == told_event(*self),
    {
        match self {
            Event::IssueStarted { id } => Json::record().with(
                "IssueStarted",
                Json::record().with(
                    "id",
                    Json::Whole(*id as u64),
                ),
            ),
            Event::IssueImplemented { id } => Json::record().with(
                "IssueImplemented",
                Json::record().with(
                    "id",
                    Json::Whole(*id as u64),
                ),
            ),
        }
    }

    /// An event out of JSON, when the value is one.
    pub fn read(value: &Json) -> (r: Option<Event>)
        ensures
            r == event_of(value@),
    {
        if let Some(body) = crossing::content(value, "IssueStarted") {
            if !body.fills(1) {
                return None;
            }
            let id = match event::read_small(json::read_whole(body.part(0, "id"))) {
                Some(id) => id,
                None => return None,
            };
            return Some(Event::IssueStarted { id });
        }
        if let Some(body) = crossing::content(value, "IssueImplemented") {
            if !body.fills(1) {
                return None;
            }
            let id = match event::read_small(json::read_whole(body.part(0, "id"))) {
                Some(id) => id,
                None => return None,
            };
            return Some(Event::IssueImplemented { id });
        }
        None
    }
}

/// Law: what is told of an event is read back as it was.
pub proof fn told_event_reads_back(event: Event)
    ensures
        event_of(told_event(event)) == Some(event),
{
    reveal_strlit("IssueStarted");
    reveal_strlit("IssueImplemented");
    reveal_strlit("id");
    assert("IssueStarted"@.len() != "IssueImplemented"@.len());
    match event {
        Event::IssueStarted { id } => {
            let record = JsonView::record();
            crossing::put(record, "id"@, JsonView::Whole(id as nat));
        },
        Event::IssueImplemented { id } => {
            let record = JsonView::record();
            crossing::put(record, "id"@, JsonView::Whole(id as nat));
        },
    }
}

// ----- a remedy -----

/// A remedy, as JSON.
pub open spec fn told_remedy(remedy: Remedy) -> JsonView {
    match remedy {
        Remedy::GithubToken => JsonView::Text("GithubToken"@),
    }
}

/// A remedy out of JSON, when the value is one.
pub open spec fn remedy_of(value: JsonView) -> Option<Remedy> {
    if value.word() == Some("GithubToken"@) {
        Some(Remedy::GithubToken)
    } else {
        None
    }
}

impl Remedy {
    /// A remedy, as JSON.
    pub fn told(&self) -> (r: Json)
        ensures
            r@ == told_remedy(*self),
    {
        match self {
            Remedy::GithubToken => Json::string("GithubToken"),
        }
    }

    /// A remedy out of JSON, when the value is one.
    pub fn read(value: &Json) -> (r: Option<Remedy>)
        ensures
            r == remedy_of(value@),
    {
        if crossing::is_word(value, "GithubToken") {
            return Some(Remedy::GithubToken);
        }
        None
    }
}

/// Law: what is told of a remedy is read back as it was.
pub proof fn told_remedy_reads_back(remedy: Remedy)
    ensures
        remedy_of(told_remedy(remedy)) == Some(remedy),
{
    reveal_strlit("GithubToken");
    match remedy {
        Remedy::GithubToken => {},
    }
}

/// A remedy, or null.
pub open spec fn told_optional_remedy(remedy: Option<Remedy>) -> JsonView {
    match remedy {
        Some(remedy) => told_remedy(remedy),
        None => JsonView::Null,
    }
}

/// A remedy that may be left out, or null.
pub open spec fn read_optional_remedy(part: Option<JsonView>) -> Option<Option<Remedy>> {
    match part {
        None => Some(None),
        Some(JsonView::Null) => Some(None),
        Some(value) => match remedy_of(value) {
            Some(remedy) => Some(Some(remedy)),
            None => None,
        },
    }
}

fn tell_optional_remedy(remedy: &Option<Remedy>) -> (r: Json)
    ensures
        r@ == told_optional_remedy(*remedy),
{
    match remedy {
        Some(remedy) => remedy.told(),
        None => Json::Null,
    }
}

fn optional_remedy(part: Option<&Json>) -> (r: Option<Option<Remedy>>)
    ensures
        r == read_optional_remedy(json::part_view(part)),
{
    match part {
        None => Some(None),
        Some(Json::Null) => Some(None),
        Some(value) => match Remedy::read(value) {
            Some(remedy) => Some(Some(remedy)),
            None => None,
        },
    }
}

/// A remedy that may be left out is read back as it was told.
proof fn told_optional_remedy_reads_back(remedy: Option<Remedy>)
    ensures
        read_optional_remedy(Some(told_optional_remedy(remedy))) == Some(remedy),
{
    match remedy {
        Some(remedy) => {
            told_remedy_reads_back(remedy);
        },
        None => {},
    }
}

// ----- a chat's event -----

/// A [`ChatEvent`] over sequences.
pub enum ChatEventView {
    Delta { text: Seq<char> },
    TurnFinished { usage: Option<Usage> },
    Failed { error: Seq<char> },
    ToolCallStarted { id: Seq<char>, name: Seq<char>, arguments: Seq<char> },
    ToolCallFinished { id: Seq<char>, content: Seq<char> },
    ToolCallRefused { id: Seq<char>, error: Seq<char>, remedy: Option<Remedy> },
}

impl View for ChatEvent {
    type V = ChatEventView;

    open spec fn view(&self) -> ChatEventView {
        match self {
            ChatEvent::Delta { text } => ChatEventView::Delta {
                text: text@,
            },
            ChatEvent::TurnFinished { usage } => ChatEventView::TurnFinished {
                usage: *usage,
            },
            ChatEvent::Failed { error } => ChatEventView::Failed {
                error: error@,
            },
            ChatEvent::ToolCallStarted { id, name, arguments } => ChatEventView::ToolCallStarted {
                id: id@,
                name: name@,
                arguments: arguments@,
            },
            ChatEvent::ToolCallFinished { id, content } => ChatEventView::ToolCallFinished {
                id: id@,
                content: content@,
            },
            ChatEvent::ToolCallRefused { id, error, remedy } => ChatEventView::ToolCallRefused {
                id: id@,
                error: error@,
                remedy: *remedy,
            },
        }
    }
}

/// A chat's event, as JSON.
pub open spec fn told_chat_event(chat_event: ChatEventView) -> JsonView {
    match chat_event {
        ChatEventView::Delta { text } => crossing::variant(
            "Delta"@,
            JsonView::record().with(
                "text"@,
                JsonView::Text(text),
            ),
        ),
        ChatEventView::TurnFinished { usage } => crossing::variant(
            "TurnFinished"@,
            JsonView::record().with(
                "usage"@,
                told_optional_usage(usage),
            ),
        ),
        ChatEventView::Failed { error } => crossing::variant(
            "Failed"@,
            JsonView::record().with(
                "error"@,
                JsonView::Text(error),
            ),
        ),
        ChatEventView::ToolCallStarted { id, name, arguments } => crossing::variant(
            "ToolCallStarted"@,
            JsonView::record().with(
                "id"@,
                JsonView::Text(id),
            ).with(
                "name"@,
                JsonView::Text(name),
            ).with(
                "arguments"@,
                JsonView::Text(arguments),
            ),
        ),
        ChatEventView::ToolCallFinished { id, content } => crossing::variant(
            "ToolCallFinished"@,
            JsonView::record().with(
                "id"@,
                JsonView::Text(id),
            ).with(
                "content"@,
                JsonView::Text(content),
            ),
        ),
        ChatEventView::ToolCallRefused { id, error, remedy } => crossing::variant(
            "ToolCallRefused"@,
            JsonView::record().with(
                "id"@,
                JsonView::Text(id),
            ).with(
                "error"@,
                JsonView::Text(error),
            ).with(
                "remedy"@,
                told_optional_remedy(remedy),
            ),
        ),
    }
}

/// A chat's event out of JSON, when the value is one.
pub open spec fn chat_event_of(value: JsonView) -> Option<ChatEventView> {
    if crossing::carried(value, "Delta"@) is Some {
        let body = crossing::carried(value, "Delta"@)->0;
        let text = json::needed_text(body.part(0, "text"@));
        if body.fills(1) && text is Some {
            Some(
                ChatEventView::Delta { text: text->0 },
            )
        } else {
            None
        }
    } else if crossing::carried(value, "TurnFinished"@) is Some {
        let body = crossing::carried(value, "TurnFinished"@)->0;
        let usage = read_optional_usage(body.part(0, "usage"@));
        if body.fills(1) && usage is Some {
            Some(
                ChatEventView::TurnFinished { usage: usage->0 },
            )
        } else {
            None
        }
    } else if crossing::carried(value, "Failed"@) is Some {
        let body = crossing::carried(value, "Failed"@)->0;
        let error = json::needed_text(body.part(0, "error"@));
        if body.fills(1) && error is Some {
            Some(
                ChatEventView::Failed { error: error->0 },
            )
        } else {
            None
        }
    } else if crossing::carried(value, "ToolCallStarted"@) is Some {
        let body = crossing::carried(value, "ToolCallStarted"@)->0;
        let id = json::needed_text(body.part(0, "id"@));
        let name = json::needed_text(body.part(1, "name"@));
        let arguments = json::needed_text(body.part(2, "arguments"@));
        if body.fills(3) && id is Some && name is Some && arguments is Some {
            Some(
                ChatEventView::ToolCallStarted { id: id->0, name: name->0, arguments: arguments->0 },
            )
        } else {
            None
        }
    } else if crossing::carried(value, "ToolCallFinished"@) is Some {
        let body = crossing::carried(value, "ToolCallFinished"@)->0;
        let id = json::needed_text(body.part(0, "id"@));
        let content = json::needed_text(body.part(1, "content"@));
        if body.fills(2) && id is Some && content is Some {
            Some(
                ChatEventView::ToolCallFinished { id: id->0, content: content->0 },
            )
        } else {
            None
        }
    } else if crossing::carried(value, "ToolCallRefused"@) is Some {
        let body = crossing::carried(value, "ToolCallRefused"@)->0;
        let id = json::needed_text(body.part(0, "id"@));
        let error = json::needed_text(body.part(1, "error"@));
        let remedy = read_optional_remedy(body.part(2, "remedy"@));
        if body.fills(3) && id is Some && error is Some && remedy is Some {
            Some(
                ChatEventView::ToolCallRefused { id: id->0, error: error->0, remedy: remedy->0 },
            )
        } else {
            None
        }
    } else {
        None
    }
}

/// A chat's event that may have been read.
pub open spec fn chat_event_result(read: Option<ChatEvent>) -> Option<ChatEventView> {
    match read {
        Some(chat_event) => Some(chat_event@),
        None => None,
    }
}

impl ChatEvent {
    /// A chat's event, as JSON.
    pub fn told(&self) -> (r: Json)
        ensures
            r@ == told_chat_event(self@),
    {
        match self {
            ChatEvent::Delta { text } => Json::record().with(
                "Delta",
                Json::record().with(
                    "text",
                    Json::string(text.as_str()),
                ),
            ),
            ChatEvent::TurnFinished { usage } => Json::record().with(
                "TurnFinished",
                Json::record().with(
                    "usage",
                    tell_optional_usage(usage),
                ),
            ),
            ChatEvent::Failed { error } => Json::record().with(
                "Failed",
                Json::record().with(
                    "error",
                    Json::string(error.as_str()),
                ),
            ),
            ChatEvent::ToolCallStarted { id, name, arguments } => Json::record().with(
                "ToolCallStarted",
                Json::record().with(
                    "id",
                    Json::string(id.as_str()),
                ).with(
                    "name",
                    Json::string(name.as_str()),
                ).with(
                    "arguments",
                    Json::string(arguments.as_str()),
                ),
            ),
            ChatEvent::ToolCallFinished { id, content } => Json::record().with(
                "ToolCallFinished",
                Json::record().with(
                    "id",
                    Json::string(id.as_str()),
                ).with(
                    "content",
                    Json::string(content.as_str()),
                ),
            ),
            ChatEvent::ToolCallRefused { id, error, remedy } => Json::record().with(
                "ToolCallRefused",
                Json::record().with(
                    "id",
                    Json::string(id.as_str()),
                ).with(
                    "error",
                    Json::string(error.as_str()),
                ).with(
                    "remedy",
                    tell_optional_remedy(remedy),
                ),
            ),
        }
    }

    /// A chat's event out of JSON, when the value is one.
    pub fn read(value: &Json) -> (r: Option<ChatEvent>)
        ensures
            chat_event_result(r) == chat_event_of(value@),
    {
        if let Some(body) = crossing::content(value, "Delta") {
            if !body.fills(1) {
                return None;
            }
            let text = match json::read_text(body.part(0, "text")) {
                Some(text) => text,
                None => return None,
            };
            return Some(ChatEvent::Delta { text });
        }
        if let Some(body) = crossing::content(value, "TurnFinished") {
            if !body.fills(1) {
                return None;
            }
            let usage = match optional_usage(body.part(0, "usage")) {
                Some(usage) => usage,
                None => return None,
            };
            return Some(ChatEvent::TurnFinished { usage });
        }
        if let Some(body) = crossing::content(value, "Failed") {
            if !body.fills(1) {
                return None;
            }
            let error = match json::read_text(body.part(0, "error")) {
                Some(error) => error,
                None => return None,
            };
            return Some(ChatEvent::Failed { error });
        }
        if let Some(body) = crossing::content(value, "ToolCallStarted") {
            if !body.fills(3) {
                return None;
            }
            let id = match json::read_text(body.part(0, "id")) {
                Some(id) => id,
                None => return None,
            };
            let name = match json::read_text(body.part(1, "name")) {
                Some(name) => name,
                None => return None,
            };
            let arguments = match json::read_text(body.part(2, "arguments")) {
                Some(arguments) => arguments,
                None => return None,
            };
            return Some(ChatEvent::ToolCallStarted { id, name, arguments });
        }
        if let Some(body) = crossing::content(value, "ToolCallFinished") {
            if !body.fills(2) {
                return None;
            }
            let id = match json::read_text(body.part(0, "id")) {
                Some(id) => id,
                None => return None,
            };
            let content = match json::read_text(body.part(1, "content")) {
                Some(content) => content,
                None => return None,
            };
            return Some(ChatEvent::ToolCallFinished { id, content });
        }
        if let Some(body) = crossing::content(value, "ToolCallRefused") {
            if !body.fills(3) {
                return None;
            }
            let id = match json::read_text(body.part(0, "id")) {
                Some(id) => id,
                None => return None,
            };
            let error = match json::read_text(body.part(1, "error")) {
                Some(error) => error,
                None => return None,
            };
            let remedy = match optional_remedy(body.part(2, "remedy")) {
                Some(remedy) => remedy,
                None => return None,
            };
            return Some(ChatEvent::ToolCallRefused { id, error, remedy });
        }
        None
    }
}

/// Law: what is told of a chat's event is read back as it was.
pub proof fn told_chat_event_reads_back(chat_event: ChatEventView)
    ensures
        chat_event_of(told_chat_event(chat_event)) == Some(chat_event),
{
    reveal_strlit("Delta");
    reveal_strlit("TurnFinished");
    reveal_strlit("Failed");
    reveal_strlit("ToolCallStarted");
    reveal_strlit("ToolCallFinished");
    reveal_strlit("ToolCallRefused");
    reveal_strlit("text");
    reveal_strlit("usage");
    reveal_strlit("error");
    reveal_strlit("id");
    reveal_strlit("name");
    reveal_strlit("arguments");
    reveal_strlit("content");
    reveal_strlit("remedy");
    assert("Delta"@.len() != "TurnFinished"@.len());
    assert("Delta"@.len() != "Failed"@.len());
    assert("Delta"@.len() != "ToolCallStarted"@.len());
    assert("Delta"@.len() != "ToolCallFinished"@.len());
    assert("Delta"@.len() != "ToolCallRefused"@.len());
    assert("TurnFinished"@.len() != "Failed"@.len());
    assert("TurnFinished"@.len() != "ToolCallStarted"@.len());
    assert("TurnFinished"@.len() != "ToolCallFinished"@.len());
    assert("TurnFinished"@.len() != "ToolCallRefused"@.len());
    assert("Failed"@.len() != "ToolCallStarted"@.len());
    assert("Failed"@.len() != "ToolCallFinished"@.len());
    assert("Failed"@.len() != "ToolCallRefused"@.len());
    assert("ToolCallStarted"@.len() != "ToolCallFinished"@.len());
    assert("ToolCallStarted"@[8] != "ToolCallRefused"@[8]);
    assert("ToolCallFinished"@.len() != "ToolCallRefused"@.len());
    assert("id"@.len() != "name"@.len());
    assert("id"@.len() != "arguments"@.len());
    assert("name"@.len() != "arguments"@.len());
    assert("id"@.len() != "content"@.len());
    assert("id"@.len() != "error"@.len());
    assert("id"@.len() != "remedy"@.len());
    assert("error"@.len() != "remedy"@.len());
    match chat_event {
        ChatEventView::Delta { text } => {
            let record = JsonView::record();
            crossing::put(record, "text"@, JsonView::Text(text));
        },
        ChatEventView::TurnFinished { usage } => {
            told_optional_usage_reads_back(usage);
            let record = JsonView::record();
            crossing::put(record, "usage"@, told_optional_usage(usage));
        },
        ChatEventView::Failed { error } => {
            let record = JsonView::record();
            crossing::put(record, "error"@, JsonView::Text(error));
        },
        ChatEventView::ToolCallStarted { id, name, arguments } => {
            let record = JsonView::record();
            crossing::put(record, "id"@, JsonView::Text(id));
            let record = record.with("id"@, JsonView::Text(id));
            crossing::put(record, "name"@, JsonView::Text(name));
            let record = record.with("name"@, JsonView::Text(name));
            crossing::put(record, "arguments"@, JsonView::Text(arguments));
        },
        ChatEventView::ToolCallFinished { id, content } => {
            let record = JsonView::record();
            crossing::put(record, "id"@, JsonView::Text(id));
            let record = record.with("id"@, JsonView::Text(id));
            crossing::put(record, "content"@, JsonView::Text(content));
        },
        ChatEventView::ToolCallRefused { id, error, remedy } => {
            told_optional_remedy_reads_back(remedy);
            let record = JsonView::record();
            crossing::put(record, "id"@, JsonView::Text(id));
            let record = record.with("id"@, JsonView::Text(id));
            crossing::put(record, "error"@, JsonView::Text(error));
            let record = record.with("error"@, JsonView::Text(error));
            crossing::put(record, "remedy"@, told_optional_remedy(remedy));
        },
    }
}

} // verus!
