//! The vocabularies as lines of text: what is told in a line, and what is
//! heard from one.

use crate::agent::coding::{AgentEvent, Stop};
use crate::chat::{Answer, Ask, Role, TranscriptItem};
use crate::crossing;
use crate::crossing::capabilities;
use crate::crossing::events;
use crate::crossing::transcript;
use crate::event;
use crate::event::{ChatEvent, ConversationId, Envelope, Event, Remedy, Usage};
use crate::json;
use crate::json::spelling;
use crate::json::{Json, JsonView};
use crate::keystore::Resolved;
use crate::logging::Wire;
use crate::preflight::{Capability, CapabilityStatus, Standing};
use crate::run::{FeatureEvent, FeaturePhase, FeatureVerdict, Phase, RunEvent, Verdict};
use crate::text;
use vstd::prelude::*;

verus! {

impl Wire for Usage {
    fn tell(&self) -> (r: String)
        ensures
            r@ == spelling::text_of(events::told_usage(*self)),
    {
        spelling::spell(&self.told())
    }
}

impl Usage {
    /// A usage out of a line of text, when the line
    /// tells one. What was told comes back as it was.
    pub fn hear(line: &str) -> (r: Option<Usage>)
        ensures
            match json::read_as(line@) {
                Ok(value) => r == event::usage_of(value),
                Err(_) => r is None,
            },
            forall|usage: Usage|
                line@ == #[trigger] spelling::text_of(
                    events::told_usage(usage),
                ) ==> r == Some(usage),
    {
        let parsed = Json::parse(line);
        let heard = match &parsed {
            Ok(value) => Usage::read(value),
            Err(_) => None,
        };
        proof {
            assert forall|usage: Usage| line@ == #[trigger] spelling::text_of(
                events::told_usage(usage),
            ) implies heard == Some(usage) by {
                usage_is_plain(usage, spelling::depth());
                events::told_usage_reads_back(usage);
                usage_alike(events::told_usage(usage), parsed->Ok_0@);
            }
        }
        heard
    }
}

impl Wire for Event {
    fn tell(&self) -> (r: String)
        ensures
            r@ == spelling::text_of(events::told_event(*self)),
    {
        spelling::spell(&self.told())
    }
}

impl Event {
    /// An event out of a line of text, when the line
    /// tells one. What was told comes back as it was.
    pub fn hear(line: &str) -> (r: Option<Event>)
        ensures
            match json::read_as(line@) {
                Ok(value) => r == events::event_of(value),
                Err(_) => r is None,
            },
            forall|event: Event|
                line@ == #[trigger] spelling::text_of(
                    events::told_event(event),
                ) ==> r == Some(event),
    {
        let parsed = Json::parse(line);
        let heard = match &parsed {
            Ok(value) => Event::read(value),
            Err(_) => None,
        };
        proof {
            assert forall|event: Event| line@ == #[trigger] spelling::text_of(
                events::told_event(event),
            ) implies heard == Some(event) by {
                event_is_plain(event, spelling::depth());
                events::told_event_reads_back(event);
                event_alike(events::told_event(event), parsed->Ok_0@);
            }
        }
        heard
    }
}

impl Wire for ChatEvent {
    fn tell(&self) -> (r: String)
        ensures
            r@ == spelling::text_of(events::told_chat_event(self@)),
    {
        spelling::spell(&self.told())
    }
}

impl ChatEvent {
    /// A chat's event out of a line of text, when the line
    /// tells one. What was told comes back as it was.
    pub fn hear(line: &str) -> (r: Option<ChatEvent>)
        ensures
            match json::read_as(line@) {
                Ok(value) => events::chat_event_result(r) == events::chat_event_of(value),
                Err(_) => r is None,
            },
            forall|chat_event: ChatEvent|
                line@ == #[trigger] spelling::text_of(
                    events::told_chat_event(chat_event@),
                ) ==> events::chat_event_result(r) == Some(chat_event@),
    {
        let parsed = Json::parse(line);
        let heard = match &parsed {
            Ok(value) => ChatEvent::read(value),
            Err(_) => None,
        };
        proof {
            assert forall|chat_event: ChatEvent| line@ == #[trigger] spelling::text_of(
                events::told_chat_event(chat_event@),
            ) implies events::chat_event_result(heard) == Some(chat_event@) by {
                chat_event_is_plain(chat_event, spelling::depth());
                events::told_chat_event_reads_back(chat_event@);
                chat_event_alike(events::told_chat_event(chat_event@), parsed->Ok_0@);
            }
        }
        heard
    }
}

impl Wire for AgentEvent {
    fn tell(&self) -> (r: String)
        ensures
            r@ == spelling::text_of(events::told_agent_event(self@)),
    {
        spelling::spell(&self.told())
    }
}

impl AgentEvent {
    /// An agent's event out of a line of text, when the line
    /// tells one. What was told comes back as it was.
    pub fn hear(line: &str) -> (r: Option<AgentEvent>)
        ensures
            match json::read_as(line@) {
                Ok(value) => events::agent_event_result(r) == events::agent_event_of(value),
                Err(_) => r is None,
            },
            forall|agent_event: AgentEvent|
                line@ == #[trigger] spelling::text_of(
                    events::told_agent_event(agent_event@),
                ) ==> events::agent_event_result(r) == Some(agent_event@),
    {
        let parsed = Json::parse(line);
        let heard = match &parsed {
            Ok(value) => AgentEvent::read(value),
            Err(_) => None,
        };
        proof {
            assert forall|agent_event: AgentEvent| line@ == #[trigger] spelling::text_of(
                events::told_agent_event(agent_event@),
            ) implies events::agent_event_result(heard) == Some(agent_event@) by {
                agent_event_is_plain(agent_event, spelling::depth());
                events::told_agent_event_reads_back(agent_event@);
                agent_event_alike(events::told_agent_event(agent_event@), parsed->Ok_0@);
            }
        }
        heard
    }
}

impl Wire for RunEvent {
    fn tell(&self) -> (r: String)
        ensures
            r@ == spelling::text_of(events::told_run_event(self@)),
    {
        spelling::spell(&self.told())
    }
}

impl RunEvent {
    /// A run's event out of a line of text, when the line
    /// tells one. What was told comes back as it was.
    pub fn hear(line: &str) -> (r: Option<RunEvent>)
        ensures
            match json::read_as(line@) {
                Ok(value) => events::run_event_result(r) == events::run_event_of(value),
                Err(_) => r is None,
            },
            forall|run_event: RunEvent|
                line@ == #[trigger] spelling::text_of(
                    events::told_run_event(run_event@),
                ) ==> events::run_event_result(r) == Some(run_event@),
    {
        let parsed = Json::parse(line);
        let heard = match &parsed {
            Ok(value) => RunEvent::read(value),
            Err(_) => None,
        };
        proof {
            assert forall|run_event: RunEvent| line@ == #[trigger] spelling::text_of(
                events::told_run_event(run_event@),
            ) implies events::run_event_result(heard) == Some(run_event@) by {
                run_event_is_plain(run_event, spelling::depth());
                events::told_run_event_reads_back(run_event@);
                run_event_alike(events::told_run_event(run_event@), parsed->Ok_0@);
            }
        }
        heard
    }
}

impl Wire for FeatureEvent {
    fn tell(&self) -> (r: String)
        ensures
            r@ == spelling::text_of(events::told_feature_event(self@)),
    {
        spelling::spell(&self.told())
    }
}

impl FeatureEvent {
    /// A feature's event out of a line of text, when the line
    /// tells one. What was told comes back as it was.
    pub fn hear(line: &str) -> (r: Option<FeatureEvent>)
        ensures
            match json::read_as(line@) {
                Ok(value) => events::feature_event_result(r) == events::feature_event_of(value),
                Err(_) => r is None,
            },
            forall|feature_event: FeatureEvent|
                line@ == #[trigger] spelling::text_of(
                    events::told_feature_event(feature_event@),
                ) ==> events::feature_event_result(r) == Some(feature_event@),
    {
        let parsed = Json::parse(line);
        let heard = match &parsed {
            Ok(value) => FeatureEvent::read(value),
            Err(_) => None,
        };
        proof {
            assert forall|feature_event: FeatureEvent| line@ == #[trigger] spelling::text_of(
                events::told_feature_event(feature_event@),
            ) implies events::feature_event_result(heard) == Some(feature_event@) by {
                feature_event_is_plain(feature_event, spelling::depth());
                events::told_feature_event_reads_back(feature_event@);
                feature_event_alike(events::told_feature_event(feature_event@), parsed->Ok_0@);
            }
        }
        heard
    }
}

impl Wire for Ask {
    fn tell(&self) -> (r: String)
        ensures
            r@ == spelling::text_of(transcript::told_ask(self@)),
    {
        spelling::spell(&self.told())
    }
}

impl Ask {
    /// A question out of a line of text, when the line
    /// tells one. What was told comes back as it was.
    pub fn hear(line: &str) -> (r: Option<Ask>)
        ensures
            match json::read_as(line@) {
                Ok(value) => transcript::ask_result(r) == transcript::ask_of(value, false),
                Err(_) => r is None,
            },
            forall|ask: Ask|
                line@ == #[trigger] spelling::text_of(
                    transcript::told_ask(ask@),
                ) ==> transcript::ask_result(r) == Some(ask@),
    {
        let parsed = Json::parse(line);
        let heard = match &parsed {
            Ok(value) => Ask::read(value),
            Err(_) => None,
        };
        proof {
            assert forall|ask: Ask| line@ == #[trigger] spelling::text_of(
                transcript::told_ask(ask@),
            ) implies transcript::ask_result(heard) == Some(ask@) by {
                ask_is_plain(ask, spelling::depth());
                transcript::told_ask_reads_back(ask@, false);
                ask_alike(transcript::told_ask(ask@), parsed->Ok_0@, false);
            }
        }
        heard
    }
}

impl Wire for Answer {
    fn tell(&self) -> (r: String)
        ensures
            r@ == spelling::text_of(transcript::told_answer(self@)),
    {
        spelling::spell(&self.told())
    }
}

impl Answer {
    /// An answer out of a line of text, when the line
    /// tells one. What was told comes back as it was.
    pub fn hear(line: &str) -> (r: Option<Answer>)
        ensures
            match json::read_as(line@) {
                Ok(value) => transcript::answer_result(r) == transcript::answer_of(value, false),
                Err(_) => r is None,
            },
            forall|answer: Answer|
                line@ == #[trigger] spelling::text_of(
                    transcript::told_answer(answer@),
                ) ==> transcript::answer_result(r) == Some(answer@),
    {
        let parsed = Json::parse(line);
        let heard = match &parsed {
            Ok(value) => Answer::read(value),
            Err(_) => None,
        };
        proof {
            assert forall|answer: Answer| line@ == #[trigger] spelling::text_of(
                transcript::told_answer(answer@),
            ) implies transcript::answer_result(heard) == Some(answer@) by {
                answer_is_plain(answer, spelling::depth());
                transcript::told_answer_reads_back(answer@, false);
                answer_alike(transcript::told_answer(answer@), parsed->Ok_0@, false);
            }
        }
        heard
    }
}

impl Wire for TranscriptItem {
    fn tell(&self) -> (r: String)
        ensures
            r@ == spelling::text_of(transcript::told_item(self@)),
    {
        spelling::spell(&self.told())
    }
}

impl TranscriptItem {
    /// An item of the transcript out of a line of text, when the line
    /// tells one. What was told comes back as it was.
    pub fn hear(line: &str) -> (r: Option<TranscriptItem>)
        ensures
            match json::read_as(line@) {
                Ok(value) => transcript::item_result(r) == transcript::item_of(value),
                Err(_) => r is None,
            },
            forall|item: TranscriptItem|
                line@ == #[trigger] spelling::text_of(
                    transcript::told_item(item@),
                ) ==> transcript::item_result(r) == Some(item@),
    {
        let parsed = Json::parse(line);
        let heard = match &parsed {
            Ok(value) => TranscriptItem::read(value),
            Err(_) => None,
        };
        proof {
            assert forall|item: TranscriptItem| line@ == #[trigger] spelling::text_of(
                transcript::told_item(item@),
            ) implies transcript::item_result(heard) == Some(item@) by {
                item_is_plain(item, spelling::depth());
                transcript::told_item_reads_back(item@);
                item_alike(transcript::told_item(item@), parsed->Ok_0@);
            }
        }
        heard
    }
}

impl Wire for CapabilityStatus {
    fn tell(&self) -> (r: String)
        ensures
            r@ == spelling::text_of(capabilities::told_status(self@)),
    {
        spelling::spell(&self.told())
    }
}

impl CapabilityStatus {
    /// A status out of a line of text, when the line
    /// tells one. What was told comes back as it was.
    pub fn hear(line: &str) -> (r: Option<CapabilityStatus>)
        ensures
            match json::read_as(line@) {
                Ok(value) => capabilities::status_result(r) == capabilities::status_of(value),
                Err(_) => r is None,
            },
            forall|status: CapabilityStatus|
                line@ == #[trigger] spelling::text_of(
                    capabilities::told_status(status@),
                ) ==> capabilities::status_result(r) == Some(status@),
    {
        let parsed = Json::parse(line);
        let heard = match &parsed {
            Ok(value) => CapabilityStatus::read(value),
            Err(_) => None,
        };
        proof {
            assert forall|status: CapabilityStatus| line@ == #[trigger] spelling::text_of(
                capabilities::told_status(status@),
            ) implies capabilities::status_result(heard) == Some(status@) by {
                status_is_plain(status, spelling::depth());
                capabilities::told_status_reads_back(status@);
                status_alike(capabilities::told_status(status@), parsed->Ok_0@);
            }
        }
        heard
    }
}

impl Wire for Resolved {
    fn tell(&self) -> (r: String)
        ensures
            r@ == spelling::text_of(capabilities::told_resolved(self@)),
    {
        spelling::spell(&self.told())
    }
}

impl Resolved {
    /// A resolution out of a line of text, when the line
    /// tells one. What was told comes back as it was.
    pub fn hear(line: &str) -> (r: Option<Resolved>)
        ensures
            match json::read_as(line@) {
                Ok(value) => capabilities::resolved_result(r) == capabilities::resolved_of(value),
                Err(_) => r is None,
            },
            forall|resolved: Resolved|
                line@ == #[trigger] spelling::text_of(
                    capabilities::told_resolved(resolved@),
                ) ==> capabilities::resolved_result(r) == Some(resolved@),
    {
        let parsed = Json::parse(line);
        let heard = match &parsed {
            Ok(value) => Resolved::read(value),
            Err(_) => None,
        };
        proof {
            assert forall|resolved: Resolved| line@ == #[trigger] spelling::text_of(
                capabilities::told_resolved(resolved@),
            ) implies capabilities::resolved_result(heard) == Some(resolved@) by {
                resolved_is_plain(resolved, spelling::depth());
                capabilities::told_resolved_reads_back(resolved@);
                resolved_alike(capabilities::told_resolved(resolved@), parsed->Ok_0@);
            }
        }
        heard
    }
}

// ----- in an envelope -----

impl Envelope<Event> {
    /// An envelope out of a line of text, when the line tells one with
    /// an event in it. What was told comes back as it was.
    pub fn hear(line: &str) -> (r: Option<Envelope<Event>>)
        ensures
            match json::read_as(line@) {
                Ok(value) => match crossing::unwrapped(value) {
                    Some((conversation, event)) => match r {
                        Some(envelope) => envelope.conversation.0 == conversation
                            && events::event_of(event) == Some(envelope.event),
                        None => events::event_of(event) is None,
                    },
                    None => r is None,
                },
                Err(_) => r is None,
            },
            forall|conversation: ConversationId, event: Event|
                line@ == #[trigger] event::enveloped(
                    conversation,
                    spelling::text_of(events::told_event(event)),
                ) ==> r is Some && (r->0).conversation == conversation && (r->0).event == event,
    {
        let parsed = Json::parse(line);
        let opened = match &parsed {
            Ok(value) => crossing::unwrap(value),
            Err(_) => None,
        };
        let heard = match opened {
            Some((conversation, event)) => match Event::read(event) {
                Some(event) => Some(Envelope { conversation, event }),
                None => None,
            },
            None => None,
        };
        proof {
            assert forall|conversation: ConversationId, event: Event|
                line@ == #[trigger] event::enveloped(
                    conversation,
                    spelling::text_of(events::told_event(event)),
                ) implies heard is Some && (heard->0).conversation == conversation && (
            heard->0).event == event by {
                let told = events::told_event(event);
                event_is_plain(event, (spelling::depth() - 1) as nat);
                wrapped_is_plain(conversation, told, spelling::depth());
                crossing::an_envelope_is_one_text(conversation, told);
                wrapped_alike(conversation, told, parsed->Ok_0@);
                events::told_event_reads_back(event);
                event_alike(told, (crossing::unwrapped(parsed->Ok_0@)->0).1);
            }
        }
        heard
    }
}

impl Envelope<ChatEvent> {
    /// An envelope out of a line of text, when the line tells one with
    /// a chat's event in it. What was told comes back as it was.
    pub fn hear(line: &str) -> (r: Option<Envelope<ChatEvent>>)
        ensures
            match json::read_as(line@) {
                Ok(value) => match crossing::unwrapped(value) {
                    Some((conversation, event)) => match r {
                        Some(envelope) => envelope.conversation.0 == conversation
                            && events::chat_event_of(event) == Some(envelope.event@),
                        None => events::chat_event_of(event) is None,
                    },
                    None => r is None,
                },
                Err(_) => r is None,
            },
            forall|conversation: ConversationId, chat_event: ChatEvent|
                line@ == #[trigger] event::enveloped(
                    conversation,
                    spelling::text_of(events::told_chat_event(chat_event@)),
                ) ==> r is Some && (r->0).conversation == conversation
                    && (r->0).event@ == chat_event@,
    {
        let parsed = Json::parse(line);
        let opened = match &parsed {
            Ok(value) => crossing::unwrap(value),
            Err(_) => None,
        };
        let heard = match opened {
            Some((conversation, event)) => match ChatEvent::read(event) {
                Some(event) => Some(Envelope { conversation, event }),
                None => None,
            },
            None => None,
        };
        proof {
            assert forall|conversation: ConversationId, chat_event: ChatEvent|
                line@ == #[trigger] event::enveloped(
                    conversation,
                    spelling::text_of(events::told_chat_event(chat_event@)),
                ) implies heard is Some && (heard->0).conversation == conversation && (
            heard->0).event@ == chat_event@ by {
                let told = events::told_chat_event(chat_event@);
                chat_event_is_plain(chat_event, (spelling::depth() - 1) as nat);
                wrapped_is_plain(conversation, told, spelling::depth());
                crossing::an_envelope_is_one_text(conversation, told);
                wrapped_alike(conversation, told, parsed->Ok_0@);
                events::told_chat_event_reads_back(chat_event@);
                chat_event_alike(told, (crossing::unwrapped(parsed->Ok_0@)->0).1);
            }
        }
        heard
    }
}

impl Envelope<RunEvent> {
    /// An envelope out of a line of text, when the line tells one with
    /// a run's event in it. What was told comes back as it was.
    pub fn hear(line: &str) -> (r: Option<Envelope<RunEvent>>)
        ensures
            match json::read_as(line@) {
                Ok(value) => match crossing::unwrapped(value) {
                    Some((conversation, event)) => match r {
                        Some(envelope) => envelope.conversation.0 == conversation
                            && events::run_event_of(event) == Some(envelope.event@),
                        None => events::run_event_of(event) is None,
                    },
                    None => r is None,
                },
                Err(_) => r is None,
            },
            forall|conversation: ConversationId, run_event: RunEvent|
                line@ == #[trigger] event::enveloped(
                    conversation,
                    spelling::text_of(events::told_run_event(run_event@)),
                ) ==> r is Some && (r->0).conversation == conversation
                    && (r->0).event@ == run_event@,
    {
        let parsed = Json::parse(line);
        let opened = match &parsed {
            Ok(value) => crossing::unwrap(value),
            Err(_) => None,
        };
        let heard = match opened {
            Some((conversation, event)) => match RunEvent::read(event) {
                Some(event) => Some(Envelope { conversation, event }),
                None => None,
            },
            None => None,
        };
        proof {
            assert forall|conversation: ConversationId, run_event: RunEvent|
                line@ == #[trigger] event::enveloped(
                    conversation,
                    spelling::text_of(events::told_run_event(run_event@)),
                ) implies heard is Some && (heard->0).conversation == conversation && (
            heard->0).event@ == run_event@ by {
                let told = events::told_run_event(run_event@);
                run_event_is_plain(run_event, (spelling::depth() - 1) as nat);
                wrapped_is_plain(conversation, told, spelling::depth());
                crossing::an_envelope_is_one_text(conversation, told);
                wrapped_alike(conversation, told, parsed->Ok_0@);
                events::told_run_event_reads_back(run_event@);
                run_event_alike(told, (crossing::unwrapped(parsed->Ok_0@)->0).1);
            }
        }
        heard
    }
}

impl Envelope<FeatureEvent> {
    /// An envelope out of a line of text, when the line tells one with
    /// a feature's event in it. What was told comes back as it was.
    pub fn hear(line: &str) -> (r: Option<Envelope<FeatureEvent>>)
        ensures
            match json::read_as(line@) {
                Ok(value) => match crossing::unwrapped(value) {
                    Some((conversation, event)) => match r {
                        Some(envelope) => envelope.conversation.0 == conversation
                            && events::feature_event_of(event) == Some(envelope.event@),
                        None => events::feature_event_of(event) is None,
                    },
                    None => r is None,
                },
                Err(_) => r is None,
            },
            forall|conversation: ConversationId, feature_event: FeatureEvent|
                line@ == #[trigger] event::enveloped(
                    conversation,
                    spelling::text_of(events::told_feature_event(feature_event@)),
                ) ==> r is Some && (r->0).conversation == conversation
                    && (r->0).event@ == feature_event@,
    {
        let parsed = Json::parse(line);
        let opened = match &parsed {
            Ok(value) => crossing::unwrap(value),
            Err(_) => None,
        };
        let heard = match opened {
            Some((conversation, event)) => match FeatureEvent::read(event) {
                Some(event) => Some(Envelope { conversation, event }),
                None => None,
            },
            None => None,
        };
        proof {
            assert forall|conversation: ConversationId, feature_event: FeatureEvent|
                line@ == #[trigger] event::enveloped(
                    conversation,
                    spelling::text_of(events::told_feature_event(feature_event@)),
                ) implies heard is Some && (heard->0).conversation == conversation && (
            heard->0).event@ == feature_event@ by {
                let told = events::told_feature_event(feature_event@);
                feature_event_is_plain(feature_event, (spelling::depth() - 1) as nat);
                wrapped_is_plain(conversation, told, spelling::depth());
                crossing::an_envelope_is_one_text(conversation, told);
                wrapped_alike(conversation, told, parsed->Ok_0@);
                events::told_feature_event_reads_back(feature_event@);
                feature_event_alike(told, (crossing::unwrapped(parsed->Ok_0@)->0).1);
            }
        }
        heard
    }
}

// ----- what is told can be read -----

/// A member more leaves an object as readable as it was, and is found in
/// it.
pub(crate) proof fn put_plain(record: JsonView, key: Seq<char>, value: JsonView, room: nat)
    requires
        record is Object,
        record.get(key) is None,
        room > 0,
        spelling::plain(record, room),
        spelling::plain(value, (room - 1) as nat),
    ensures
        spelling::plain(record.with(key, value), room),
        record.with(key, value) is Object,
        forall|other: Seq<char>|
            other != key ==> #[trigger] json::member(record.with(key, value)->Object_0, other)
                == json::member(record->Object_0, other),
{
    crossing::put(record, key, value);
    spelling::plain_with(record, key, value, room);
}

proof fn wrapped_is_plain(conversation: ConversationId, event: JsonView, room: nat)
    requires
        room > 0,
        spelling::plain(event, (room - 1) as nat),
    ensures
        spelling::plain(crossing::wrapped(conversation, event), room),
{
    reveal_strlit("conversation");
    reveal_strlit("event");
    assert("conversation"@.len() != "event"@.len());
    let number = JsonView::Whole(conversation.0 as nat);
    put_plain(JsonView::record(), "conversation"@, number, room);
    put_plain(JsonView::record().with("conversation"@, number), "event"@, event, room);
}

proof fn usage_is_plain(usage: Usage, room: nat)
    requires
        room >= 2,
    ensures
        spelling::plain(events::told_usage(usage), room),
{
    reveal_strlit("prompt_tokens");
    reveal_strlit("completion_tokens");
    reveal_strlit("cache_tokens");
    reveal_strlit("cost");
    assert("prompt_tokens"@.len() != "completion_tokens"@.len());
    assert("prompt_tokens"@.len() != "cache_tokens"@.len());
    assert("prompt_tokens"@.len() != "cost"@.len());
    assert("completion_tokens"@.len() != "cache_tokens"@.len());
    assert("completion_tokens"@.len() != "cost"@.len());
    assert("cache_tokens"@.len() != "cost"@.len());
    let record = JsonView::record();
    let prompt = JsonView::Whole(usage.prompt_tokens as nat);
    let completion = JsonView::Whole(usage.completion_tokens as nat);
    put_plain(record, "prompt_tokens"@, prompt, room);
    let record = record.with("prompt_tokens"@, prompt);
    put_plain(record, "completion_tokens"@, completion, room);
    let counted = record.with("completion_tokens"@, completion);
    if usage.cache_tokens is Some {
        put_plain(counted, "cache_tokens"@, JsonView::Whole(usage.cache_tokens->0 as nat), room);
    }
    if usage.cost is Some {
        let cost = usage.cost->0;
        let cached = match usage.cache_tokens {
            Some(n) => counted.with("cache_tokens"@, JsonView::Whole(n as nat)),
            None => counted,
        };
        put_plain(
            JsonView::record(),
            "micro_usd"@,
            JsonView::Whole(cost.micro_usd as nat),
            (room - 1) as nat,
        );
        put_plain(cached, "cost"@, events::told_money(cost), room);
    }
}

pub(crate) proof fn texts_are_plain(texts: Seq<Seq<char>>, room: nat)
    requires
        room > 0,
    ensures
        spelling::plain(json::texts_of(texts), room),
{
    let items = json::texts_of(texts)->Array_0;
    assert forall|i: int| 0 <= i < items.len() implies spelling::plain(
        #[trigger] items[i],
        (room - 1) as nat,
    ) by {
        assert(items[i] == JsonView::Text(texts[i]));
    }
}

proof fn stop_is_plain(stop: Stop, room: nat)
    requires
        room >= 2,
    ensures
        spelling::plain(events::told_stop(stop@), room),
{
    match stop {
        Stop::Completed => {},
        Stop::Spent => {},
        Stop::Stalled => {},
        Stop::Canceled => {},
        Stop::Died { error } => {
            let record = JsonView::record();
            put_plain(record, "error"@, JsonView::Text(error@), (room - 1) as nat);
            let record = record.with("error"@, JsonView::Text(error@));
            put_plain(JsonView::record(), "Died"@, record, room);
        },
    }
}

proof fn agent_event_is_plain(agent_event: AgentEvent, room: nat)
    requires
        room >= 3,
    ensures
        spelling::plain(events::told_agent_event(agent_event@), room),
{
    match agent_event {
        AgentEvent::Started { agent } => {
            let record = JsonView::record();
            put_plain(record, "agent"@, JsonView::Text(agent@), (room - 1) as nat);
            let record = record.with("agent"@, JsonView::Text(agent@));
            put_plain(JsonView::record(), "Started"@, record, room);
        },
        AgentEvent::Progress(said) => {
            put_plain(JsonView::record(), "Progress"@, JsonView::Text(said@), room);
        },
        AgentEvent::Usage(usage) => {
            usage_is_plain(usage, (room - 1) as nat);
            put_plain(JsonView::record(), "Usage"@, events::told_usage(usage), room);
        },
        AgentEvent::Finished(stop) => {
            stop_is_plain(stop, (room - 1) as nat);
            put_plain(JsonView::record(), "Finished"@, events::told_stop(stop@), room);
        },
    }
}

proof fn phase_is_plain(phase: Phase, room: nat)
    ensures
        spelling::plain(events::told_phase(phase), room),
{
}

proof fn verdict_is_plain(verdict: Verdict, room: nat)
    requires
        room >= 2,
    ensures
        spelling::plain(events::told_verdict(verdict@), room),
{
    match verdict {
        Verdict::Done => {},
        Verdict::Failed { report } => {
            let record = JsonView::record();
            put_plain(record, "report"@, JsonView::Text(report@), (room - 1) as nat);
            let record = record.with("report"@, JsonView::Text(report@));
            put_plain(JsonView::record(), "Failed"@, record, room);
        },
    }
}

proof fn run_event_is_plain(run_event: RunEvent, room: nat)
    requires
        room >= 4,
    ensures
        spelling::plain(events::told_run_event(run_event@), room),
{
    match run_event {
        RunEvent::Entered(phase) => {
            phase_is_plain(phase, (room - 1) as nat);
            put_plain(JsonView::record(), "Entered"@, events::told_phase(phase), room);
        },
        RunEvent::Agent(event) => {
            agent_event_is_plain(event, (room - 1) as nat);
            put_plain(JsonView::record(), "Agent"@, events::told_agent_event(event@), room);
        },
        RunEvent::Finished(verdict) => {
            verdict_is_plain(verdict, (room - 1) as nat);
            put_plain(JsonView::record(), "Finished"@, events::told_verdict(verdict@), room);
        },
    }
}

proof fn feature_phase_is_plain(feature_phase: FeaturePhase, room: nat)
    ensures
        spelling::plain(events::told_feature_phase(feature_phase), room),
{
}

proof fn feature_verdict_is_plain(feature_verdict: FeatureVerdict, room: nat)
    requires
        room >= 2,
    ensures
        spelling::plain(events::told_feature_verdict(feature_verdict@), room),
{
    match feature_verdict {
        FeatureVerdict::Done { review } => {
            let record = JsonView::record();
            put_plain(record, "review"@, JsonView::Whole(review as nat), (room - 1) as nat);
            let record = record.with("review"@, JsonView::Whole(review as nat));
            put_plain(JsonView::record(), "Done"@, record, room);
        },
        FeatureVerdict::Failed { report } => {
            let record = JsonView::record();
            put_plain(record, "report"@, JsonView::Text(report@), (room - 1) as nat);
            let record = record.with("report"@, JsonView::Text(report@));
            put_plain(JsonView::record(), "Failed"@, record, room);
        },
    }
}

proof fn feature_event_is_plain(feature_event: FeatureEvent, room: nat)
    requires
        room >= 6,
    ensures
        spelling::plain(events::told_feature_event(feature_event@), room),
{
    reveal_strlit("number");
    reveal_strlit("event");
    reveal_strlit("path");
    reveal_strlit("error");
    assert("number"@.len() != "event"@.len());
    assert("number"@.len() != "path"@.len());
    assert("number"@.len() != "error"@.len());
    assert("path"@.len() != "error"@.len());
    match feature_event {
        FeatureEvent::Entered(phase) => {
            feature_phase_is_plain(phase, (room - 1) as nat);
            put_plain(JsonView::record(), "Entered"@, events::told_feature_phase(phase), room);
        },
        FeatureEvent::Issue { number, event } => {
            run_event_is_plain(event, (room - 2) as nat);
            let record = JsonView::record();
            put_plain(record, "number"@, JsonView::Whole(number as nat), (room - 1) as nat);
            let record = record.with("number"@, JsonView::Whole(number as nat));
            put_plain(record, "event"@, events::told_run_event(event@), (room - 1) as nat);
            let record = record.with("event"@, events::told_run_event(event@));
            put_plain(JsonView::record(), "Issue"@, record, room);
        },
        FeatureEvent::Retained { number, path, error } => {
            let record = JsonView::record();
            put_plain(record, "number"@, JsonView::Whole(number as nat), (room - 1) as nat);
            let record = record.with("number"@, JsonView::Whole(number as nat));
            put_plain(record, "path"@, JsonView::Text(path@), (room - 1) as nat);
            let record = record.with("path"@, JsonView::Text(path@));
            put_plain(
                record,
                "error"@,
                json::text_or_null(text::optional(error)),
                (room - 1) as nat,
            );
            let record = record.with("error"@, json::text_or_null(text::optional(error)));
            put_plain(JsonView::record(), "Retained"@, record, room);
        },
        FeatureEvent::Finished(verdict) => {
            feature_verdict_is_plain(verdict, (room - 1) as nat);
            put_plain(
                JsonView::record(),
                "Finished"@,
                events::told_feature_verdict(verdict@),
                room,
            );
        },
    }
}

proof fn event_is_plain(event: Event, room: nat)
    requires
        room >= 2,
    ensures
        spelling::plain(events::told_event(event), room),
{
    match event {
        Event::IssueStarted { id } => {
            let record = JsonView::record();
            put_plain(record, "id"@, JsonView::Whole(id as nat), (room - 1) as nat);
            let record = record.with("id"@, JsonView::Whole(id as nat));
            put_plain(JsonView::record(), "IssueStarted"@, record, room);
        },
        Event::IssueImplemented { id } => {
            let record = JsonView::record();
            put_plain(record, "id"@, JsonView::Whole(id as nat), (room - 1) as nat);
            let record = record.with("id"@, JsonView::Whole(id as nat));
            put_plain(JsonView::record(), "IssueImplemented"@, record, room);
        },
    }
}

proof fn remedy_is_plain(remedy: Remedy, room: nat)
    ensures
        spelling::plain(events::told_remedy(remedy), room),
{
}

proof fn chat_event_is_plain(chat_event: ChatEvent, room: nat)
    requires
        room >= 4,
    ensures
        spelling::plain(events::told_chat_event(chat_event@), room),
{
    reveal_strlit("id");
    reveal_strlit("name");
    reveal_strlit("arguments");
    reveal_strlit("content");
    reveal_strlit("error");
    reveal_strlit("remedy");
    assert("id"@.len() != "name"@.len());
    assert("id"@.len() != "arguments"@.len());
    assert("name"@.len() != "arguments"@.len());
    assert("id"@.len() != "content"@.len());
    assert("id"@.len() != "error"@.len());
    assert("id"@.len() != "remedy"@.len());
    assert("error"@.len() != "remedy"@.len());
    match chat_event {
        ChatEvent::Delta { text } => {
            let record = JsonView::record();
            put_plain(record, "text"@, JsonView::Text(text@), (room - 1) as nat);
            let record = record.with("text"@, JsonView::Text(text@));
            put_plain(JsonView::record(), "Delta"@, record, room);
        },
        ChatEvent::TurnFinished { usage } => {
            if usage is Some {
                usage_is_plain(usage->0, (room - 2) as nat);
            }
            let record = JsonView::record();
            put_plain(record, "usage"@, events::told_optional_usage(usage), (room - 1) as nat);
            let record = record.with("usage"@, events::told_optional_usage(usage));
            put_plain(JsonView::record(), "TurnFinished"@, record, room);
        },
        ChatEvent::Failed { error } => {
            let record = JsonView::record();
            put_plain(record, "error"@, JsonView::Text(error@), (room - 1) as nat);
            let record = record.with("error"@, JsonView::Text(error@));
            put_plain(JsonView::record(), "Failed"@, record, room);
        },
        ChatEvent::ToolCallStarted { id, name, arguments } => {
            let record = JsonView::record();
            put_plain(record, "id"@, JsonView::Text(id@), (room - 1) as nat);
            let record = record.with("id"@, JsonView::Text(id@));
            put_plain(record, "name"@, JsonView::Text(name@), (room - 1) as nat);
            let record = record.with("name"@, JsonView::Text(name@));
            put_plain(record, "arguments"@, JsonView::Text(arguments@), (room - 1) as nat);
            let record = record.with("arguments"@, JsonView::Text(arguments@));
            put_plain(JsonView::record(), "ToolCallStarted"@, record, room);
        },
        ChatEvent::ToolCallFinished { id, content } => {
            let record = JsonView::record();
            put_plain(record, "id"@, JsonView::Text(id@), (room - 1) as nat);
            let record = record.with("id"@, JsonView::Text(id@));
            put_plain(record, "content"@, JsonView::Text(content@), (room - 1) as nat);
            let record = record.with("content"@, JsonView::Text(content@));
            put_plain(JsonView::record(), "ToolCallFinished"@, record, room);
        },
        ChatEvent::ToolCallRefused { id, error, remedy } => {
            if remedy is Some {
                remedy_is_plain(remedy->0, (room - 2) as nat);
            }
            let record = JsonView::record();
            put_plain(record, "id"@, JsonView::Text(id@), (room - 1) as nat);
            let record = record.with("id"@, JsonView::Text(id@));
            put_plain(record, "error"@, JsonView::Text(error@), (room - 1) as nat);
            let record = record.with("error"@, JsonView::Text(error@));
            put_plain(record, "remedy"@, events::told_optional_remedy(remedy), (room - 1) as nat);
            let record = record.with("remedy"@, events::told_optional_remedy(remedy));
            put_plain(JsonView::record(), "ToolCallRefused"@, record, room);
        },
    }
}

proof fn role_is_plain(role: Role, room: nat)
    ensures
        spelling::plain(transcript::told_role(role), room),
{
}

proof fn ask_is_plain(ask: Ask, room: nat)
    requires
        room >= 1,
    ensures
        spelling::plain(transcript::told_ask(ask@), room),
{
    reveal_strlit("kind");
    reveal_strlit("prompt");
    reveal_strlit("proposal");
    assert("kind"@.len() != "prompt"@.len());
    assert("kind"@.len() != "proposal"@.len());
    assert("prompt"@.len() != "proposal"@.len());
    match ask {
        Ask::Repository { prompt } => {
            let record = JsonView::record();
            put_plain(record, "kind"@, JsonView::Text("repository"@), room);
            let record = record.with("kind"@, JsonView::Text("repository"@));
            put_plain(record, "prompt"@, JsonView::Text(prompt@), room);
        },
        Ask::Check { prompt, proposal } => {
            let record = JsonView::record();
            put_plain(record, "kind"@, JsonView::Text("check"@), room);
            let record = record.with("kind"@, JsonView::Text("check"@));
            put_plain(record, "prompt"@, JsonView::Text(prompt@), room);
            let record = record.with("prompt"@, JsonView::Text(prompt@));
            put_plain(record, "proposal"@, json::text_or_null(text::optional(proposal)), room);
        },
    }
}

proof fn answer_is_plain(answer: Answer, room: nat)
    requires
        room >= 1,
    ensures
        spelling::plain(transcript::told_answer(answer@), room),
{
    reveal_strlit("kind");
    reveal_strlit("url");
    reveal_strlit("command");
    assert("kind"@.len() != "url"@.len());
    assert("kind"@.len() != "command"@.len());
    match answer {
        Answer::Repository { url } => {
            let record = JsonView::record();
            put_plain(record, "kind"@, JsonView::Text("repository"@), room);
            let record = record.with("kind"@, JsonView::Text("repository"@));
            put_plain(record, "url"@, JsonView::Text(url@), room);
        },
        Answer::Check { command } => {
            let record = JsonView::record();
            put_plain(record, "kind"@, JsonView::Text("check"@), room);
            let record = record.with("kind"@, JsonView::Text("check"@));
            put_plain(record, "command"@, JsonView::Text(command@), room);
        },
        Answer::Declined => {
            let record = JsonView::record();
            put_plain(record, "kind"@, JsonView::Text("declined"@), room);
        },
    }
}

proof fn item_is_plain(item: TranscriptItem, room: nat)
    requires
        room >= 2,
    ensures
        spelling::plain(transcript::told_item(item@), room),
{
    reveal_strlit("kind");
    reveal_strlit("role");
    reveal_strlit("text");
    reveal_strlit("reason");
    reveal_strlit("name");
    reveal_strlit("arguments");
    reveal_strlit("ok");
    reveal_strlit("content");
    reveal_strlit("id");
    reveal_strlit("ask");
    reveal_strlit("answer");
    assert("kind"@[0] != "role"@[0]);
    assert("kind"@[0] != "text"@[0]);
    assert("role"@[0] != "text"@[0]);
    assert("kind"@.len() != "reason"@.len());
    assert("kind"@[0] != "name"@[0]);
    assert("kind"@.len() != "arguments"@.len());
    assert("name"@.len() != "arguments"@.len());
    assert("kind"@.len() != "ok"@.len());
    assert("kind"@.len() != "content"@.len());
    assert("name"@.len() != "ok"@.len());
    assert("name"@.len() != "content"@.len());
    assert("ok"@.len() != "content"@.len());
    assert("kind"@.len() != "id"@.len());
    assert("kind"@.len() != "ask"@.len());
    assert("id"@.len() != "ask"@.len());
    assert("kind"@.len() != "answer"@.len());
    assert("id"@.len() != "answer"@.len());
    assert("ask"@.len() != "answer"@.len());
    match item {
        TranscriptItem::Message { role, text } => {
            role_is_plain(role, (room - 1) as nat);
            let record = JsonView::record();
            put_plain(record, "kind"@, JsonView::Text("message"@), room);
            let record = record.with("kind"@, JsonView::Text("message"@));
            put_plain(record, "role"@, transcript::told_role(role), room);
            let record = record.with("role"@, transcript::told_role(role));
            put_plain(record, "text"@, JsonView::Text(text@), room);
        },
        TranscriptItem::AssistantDelta { text } => {
            let record = JsonView::record();
            put_plain(record, "kind"@, JsonView::Text("assistant_delta"@), room);
            let record = record.with("kind"@, JsonView::Text("assistant_delta"@));
            put_plain(record, "text"@, JsonView::Text(text@), room);
        },
        TranscriptItem::TurnFailed { reason } => {
            let record = JsonView::record();
            put_plain(record, "kind"@, JsonView::Text("turn_failed"@), room);
            let record = record.with("kind"@, JsonView::Text("turn_failed"@));
            put_plain(record, "reason"@, JsonView::Text(reason@), room);
        },
        TranscriptItem::ToolCall { name, arguments } => {
            let record = JsonView::record();
            put_plain(record, "kind"@, JsonView::Text("tool_call"@), room);
            let record = record.with("kind"@, JsonView::Text("tool_call"@));
            put_plain(record, "name"@, JsonView::Text(name@), room);
            let record = record.with("name"@, JsonView::Text(name@));
            put_plain(record, "arguments"@, JsonView::Text(arguments@), room);
        },
        TranscriptItem::ToolResult { name, ok, content } => {
            let record = JsonView::record();
            put_plain(record, "kind"@, JsonView::Text("tool_result"@), room);
            let record = record.with("kind"@, JsonView::Text("tool_result"@));
            put_plain(record, "name"@, JsonView::Text(name@), room);
            let record = record.with("name"@, JsonView::Text(name@));
            put_plain(record, "ok"@, JsonView::Bool(ok), room);
            let record = record.with("ok"@, JsonView::Bool(ok));
            put_plain(record, "content"@, JsonView::Text(content@), room);
        },
        TranscriptItem::Question { id, ask } => {
            ask_is_plain(ask, (room - 1) as nat);
            let record = JsonView::record();
            put_plain(record, "kind"@, JsonView::Text("question"@), room);
            let record = record.with("kind"@, JsonView::Text("question"@));
            put_plain(record, "id"@, JsonView::Text(id@), room);
            let record = record.with("id"@, JsonView::Text(id@));
            put_plain(record, "ask"@, transcript::told_ask(ask@), room);
        },
        TranscriptItem::QuestionResolved { id, ask, answer } => {
            ask_is_plain(ask, (room - 1) as nat);
            answer_is_plain(answer, (room - 1) as nat);
            let record = JsonView::record();
            put_plain(record, "kind"@, JsonView::Text("question_resolved"@), room);
            let record = record.with("kind"@, JsonView::Text("question_resolved"@));
            put_plain(record, "id"@, JsonView::Text(id@), room);
            let record = record.with("id"@, JsonView::Text(id@));
            put_plain(record, "ask"@, transcript::told_ask(ask@), room);
            let record = record.with("ask"@, transcript::told_ask(ask@));
            put_plain(record, "answer"@, transcript::told_answer(answer@), room);
        },
    }
}

proof fn capability_is_plain(capability: Capability, room: nat)
    requires
        room >= 2,
    ensures
        spelling::plain(capabilities::told_capability(capability@), room),
{
    match capability {
        Capability::Git => {},
        Capability::Agent { binary } => {
            let record = JsonView::record();
            put_plain(record, "binary"@, JsonView::Text(binary@), (room - 1) as nat);
            let record = record.with("binary"@, JsonView::Text(binary@));
            put_plain(JsonView::record(), "Agent"@, record, room);
        },
        Capability::GithubToken => {},
    }
}

proof fn standing_is_plain(standing: Standing, room: nat)
    requires
        room >= 3,
    ensures
        spelling::plain(capabilities::told_standing(standing@), room),
{
    reveal_strlit("at");
    reveal_strlit("reason");
    assert("at"@.len() != "reason"@.len());
    match standing {
        Standing::Present { at } => {
            let record = JsonView::record();
            put_plain(record, "at"@, JsonView::Text(at@), (room - 1) as nat);
            let record = record.with("at"@, JsonView::Text(at@));
            put_plain(JsonView::record(), "Present"@, record, room);
        },
        Standing::Absent { searched } => {
            texts_are_plain(text::views(searched@), (room - 2) as nat);
            let record = JsonView::record();
            put_plain(
                record,
                "searched"@,
                json::texts_of(text::views(searched@)),
                (room - 1) as nat,
            );
            let record = record.with("searched"@, json::texts_of(text::views(searched@)));
            put_plain(JsonView::record(), "Absent"@, record, room);
        },
        Standing::Unfit { at, reason } => {
            let record = JsonView::record();
            put_plain(record, "at"@, JsonView::Text(at@), (room - 1) as nat);
            let record = record.with("at"@, JsonView::Text(at@));
            put_plain(record, "reason"@, JsonView::Text(reason@), (room - 1) as nat);
            let record = record.with("reason"@, JsonView::Text(reason@));
            put_plain(JsonView::record(), "Unfit"@, record, room);
        },
    }
}

proof fn status_is_plain(status: CapabilityStatus, room: nat)
    requires
        room >= 4,
    ensures
        spelling::plain(capabilities::told_status(status@), room),
{
    reveal_strlit("capability");
    reveal_strlit("standing");
    assert("capability"@.len() != "standing"@.len());
    capability_is_plain(status.capability, (room - 1) as nat);
    standing_is_plain(status.standing, (room - 1) as nat);
    let record = JsonView::record();
    put_plain(record, "capability"@, capabilities::told_capability(status.capability@), room);
    let record = record.with("capability"@, capabilities::told_capability(status.capability@));
    put_plain(record, "standing"@, capabilities::told_standing(status.standing@), room);
}

proof fn resolved_is_plain(resolved: Resolved, room: nat)
    requires
        room >= 1,
    ensures
        spelling::plain(capabilities::told_resolved(resolved@), room),
{
    match resolved {
        Resolved::Found(secret) => {
            put_plain(JsonView::record(), "Found"@, JsonView::Text(secret.bytes()), room);
        },
        Resolved::Absent => {},
        Resolved::Unreachable(reason) => {
            put_plain(JsonView::record(), "Unreachable"@, JsonView::Text(reason@), room);
        },
    }
}

// ----- what says the same is read as the same -----

pub(crate) proof fn texts_alike(one: Option<JsonView>, other: Option<JsonView>)
    requires
        spelling::both_alike(one, other),
    ensures
        capabilities::needed_texts(one) == capabilities::needed_texts(other),
{
    match (one, other) {
        (Some(JsonView::Array(a)), Some(JsonView::Array(b))) => {
            spelling::alike_texts(a, b);
        },
        _ => {},
    }
}

proof fn wrapped_alike(conversation: ConversationId, event: JsonView, read: JsonView)
    requires
        spelling::alike(crossing::wrapped(conversation, event), read),
    ensures
        crossing::unwrapped(read) is Some,
        (crossing::unwrapped(read)->0).0 == conversation.0,
        spelling::alike(event, (crossing::unwrapped(read)->0).1),
{
    crossing::an_envelope_is_opened_as_it_was_closed(conversation, event);
    spelling::alike_fields(crossing::wrapped(conversation, event), read);
}

proof fn usage_alike(one: JsonView, other: JsonView)
    requires
        spelling::alike(one, other),
    ensures
        event::usage_of(one) == event::usage_of(other),
{
    spelling::alike_fields(one, other);
    if one.part(3, "cost"@) is Some {
        spelling::alike_fields(one.part(3, "cost"@)->0, other.part(3, "cost"@)->0);
    }
}

proof fn stop_alike(one: JsonView, other: JsonView)
    requires
        spelling::alike(one, other),
    ensures
        events::stop_of(one) == events::stop_of(other),
{
    spelling::alike_fields(one, other);
    crossing::alike_variants(one, other);
    if crossing::carried(one, "Died"@) is Some {
        let a = crossing::carried(one, "Died"@)->0;
        let b = crossing::carried(other, "Died"@)->0;
        spelling::alike_fields(a, b);
    }
}

proof fn agent_event_alike(one: JsonView, other: JsonView)
    requires
        spelling::alike(one, other),
    ensures
        events::agent_event_of(one) == events::agent_event_of(other),
{
    spelling::alike_fields(one, other);
    crossing::alike_variants(one, other);
    if crossing::carried(one, "Started"@) is Some {
        let a = crossing::carried(one, "Started"@)->0;
        let b = crossing::carried(other, "Started"@)->0;
        spelling::alike_fields(a, b);
    }
    if crossing::carried(one, "Usage"@) is Some {
        usage_alike(crossing::carried(one, "Usage"@)->0, crossing::carried(other, "Usage"@)->0);
    }
    if crossing::carried(one, "Finished"@) is Some {
        stop_alike(
            crossing::carried(one, "Finished"@)->0,
            crossing::carried(other, "Finished"@)->0,
        );
    }
}

proof fn phase_alike(one: JsonView, other: JsonView)
    requires
        spelling::alike(one, other),
    ensures
        events::phase_of(one) == events::phase_of(other),
{
    spelling::alike_fields(one, other);
}

proof fn verdict_alike(one: JsonView, other: JsonView)
    requires
        spelling::alike(one, other),
    ensures
        events::verdict_of(one) == events::verdict_of(other),
{
    spelling::alike_fields(one, other);
    crossing::alike_variants(one, other);
    if crossing::carried(one, "Failed"@) is Some {
        let a = crossing::carried(one, "Failed"@)->0;
        let b = crossing::carried(other, "Failed"@)->0;
        spelling::alike_fields(a, b);
    }
}

proof fn run_event_alike(one: JsonView, other: JsonView)
    requires
        spelling::alike(one, other),
    ensures
        events::run_event_of(one) == events::run_event_of(other),
{
    spelling::alike_fields(one, other);
    crossing::alike_variants(one, other);
    if crossing::carried(one, "Entered"@) is Some {
        phase_alike(crossing::carried(one, "Entered"@)->0, crossing::carried(other, "Entered"@)->0);
    }
    if crossing::carried(one, "Agent"@) is Some {
        agent_event_alike(
            crossing::carried(one, "Agent"@)->0,
            crossing::carried(other, "Agent"@)->0,
        );
    }
    if crossing::carried(one, "Finished"@) is Some {
        verdict_alike(
            crossing::carried(one, "Finished"@)->0,
            crossing::carried(other, "Finished"@)->0,
        );
    }
}

proof fn feature_phase_alike(one: JsonView, other: JsonView)
    requires
        spelling::alike(one, other),
    ensures
        events::feature_phase_of(one) == events::feature_phase_of(other),
{
    spelling::alike_fields(one, other);
}

proof fn feature_verdict_alike(one: JsonView, other: JsonView)
    requires
        spelling::alike(one, other),
    ensures
        events::feature_verdict_of(one) == events::feature_verdict_of(other),
{
    spelling::alike_fields(one, other);
    crossing::alike_variants(one, other);
    if crossing::carried(one, "Done"@) is Some {
        let a = crossing::carried(one, "Done"@)->0;
        let b = crossing::carried(other, "Done"@)->0;
        spelling::alike_fields(a, b);
    }
    if crossing::carried(one, "Failed"@) is Some {
        let a = crossing::carried(one, "Failed"@)->0;
        let b = crossing::carried(other, "Failed"@)->0;
        spelling::alike_fields(a, b);
    }
}

proof fn feature_event_alike(one: JsonView, other: JsonView)
    requires
        spelling::alike(one, other),
    ensures
        events::feature_event_of(one) == events::feature_event_of(other),
{
    spelling::alike_fields(one, other);
    crossing::alike_variants(one, other);
    if crossing::carried(one, "Entered"@) is Some {
        feature_phase_alike(
            crossing::carried(one, "Entered"@)->0,
            crossing::carried(other, "Entered"@)->0,
        );
    }
    if crossing::carried(one, "Issue"@) is Some {
        let a = crossing::carried(one, "Issue"@)->0;
        let b = crossing::carried(other, "Issue"@)->0;
        spelling::alike_fields(a, b);
        if a.part(1, "event"@) is Some {
            run_event_alike(a.part(1, "event"@)->0, b.part(1, "event"@)->0);
        }
    }
    if crossing::carried(one, "Retained"@) is Some {
        let a = crossing::carried(one, "Retained"@)->0;
        let b = crossing::carried(other, "Retained"@)->0;
        spelling::alike_fields(a, b);
    }
    if crossing::carried(one, "Finished"@) is Some {
        feature_verdict_alike(
            crossing::carried(one, "Finished"@)->0,
            crossing::carried(other, "Finished"@)->0,
        );
    }
}

proof fn event_alike(one: JsonView, other: JsonView)
    requires
        spelling::alike(one, other),
    ensures
        events::event_of(one) == events::event_of(other),
{
    spelling::alike_fields(one, other);
    crossing::alike_variants(one, other);
    if crossing::carried(one, "IssueStarted"@) is Some {
        let a = crossing::carried(one, "IssueStarted"@)->0;
        let b = crossing::carried(other, "IssueStarted"@)->0;
        spelling::alike_fields(a, b);
    }
    if crossing::carried(one, "IssueImplemented"@) is Some {
        let a = crossing::carried(one, "IssueImplemented"@)->0;
        let b = crossing::carried(other, "IssueImplemented"@)->0;
        spelling::alike_fields(a, b);
    }
}

proof fn remedy_alike(one: JsonView, other: JsonView)
    requires
        spelling::alike(one, other),
    ensures
        events::remedy_of(one) == events::remedy_of(other),
{
    spelling::alike_fields(one, other);
}

proof fn chat_event_alike(one: JsonView, other: JsonView)
    requires
        spelling::alike(one, other),
    ensures
        events::chat_event_of(one) == events::chat_event_of(other),
{
    spelling::alike_fields(one, other);
    crossing::alike_variants(one, other);
    if crossing::carried(one, "Delta"@) is Some {
        let a = crossing::carried(one, "Delta"@)->0;
        let b = crossing::carried(other, "Delta"@)->0;
        spelling::alike_fields(a, b);
    }
    if crossing::carried(one, "TurnFinished"@) is Some {
        let a = crossing::carried(one, "TurnFinished"@)->0;
        let b = crossing::carried(other, "TurnFinished"@)->0;
        spelling::alike_fields(a, b);
        if a.part(0, "usage"@) is Some {
            usage_alike(a.part(0, "usage"@)->0, b.part(0, "usage"@)->0);
        }
    }
    if crossing::carried(one, "Failed"@) is Some {
        let a = crossing::carried(one, "Failed"@)->0;
        let b = crossing::carried(other, "Failed"@)->0;
        spelling::alike_fields(a, b);
    }
    if crossing::carried(one, "ToolCallStarted"@) is Some {
        let a = crossing::carried(one, "ToolCallStarted"@)->0;
        let b = crossing::carried(other, "ToolCallStarted"@)->0;
        spelling::alike_fields(a, b);
    }
    if crossing::carried(one, "ToolCallFinished"@) is Some {
        let a = crossing::carried(one, "ToolCallFinished"@)->0;
        let b = crossing::carried(other, "ToolCallFinished"@)->0;
        spelling::alike_fields(a, b);
    }
    if crossing::carried(one, "ToolCallRefused"@) is Some {
        let a = crossing::carried(one, "ToolCallRefused"@)->0;
        let b = crossing::carried(other, "ToolCallRefused"@)->0;
        spelling::alike_fields(a, b);
        if a.part(2, "remedy"@) is Some {
            remedy_alike(a.part(2, "remedy"@)->0, b.part(2, "remedy"@)->0);
        }
    }
}

proof fn role_alike(one: JsonView, other: JsonView, within: bool)
    requires
        spelling::alike(one, other),
    ensures
        transcript::role_of(one, within) == transcript::role_of(other, within),
{
    spelling::alike_fields(one, other);
    crossing::alike_variants(one, other);
}

proof fn ask_alike(one: JsonView, other: JsonView, within: bool)
    requires
        spelling::alike(one, other),
    ensures
        transcript::ask_of(one, within) == transcript::ask_of(other, within),
{
    spelling::alike_fields(one, other);
}

proof fn answer_alike(one: JsonView, other: JsonView, within: bool)
    requires
        spelling::alike(one, other),
    ensures
        transcript::answer_of(one, within) == transcript::answer_of(other, within),
{
    spelling::alike_fields(one, other);
}

proof fn item_alike(one: JsonView, other: JsonView)
    requires
        spelling::alike(one, other),
    ensures
        transcript::item_of(one) == transcript::item_of(other),
{
    spelling::alike_fields(one, other);
    if one.part(1, "role"@) is Some {
        role_alike(one.part(1, "role"@)->0, other.part(1, "role"@)->0, true);
    }
    if one.part(2, "ask"@) is Some {
        ask_alike(one.part(2, "ask"@)->0, other.part(2, "ask"@)->0, true);
    }
    if one.part(3, "answer"@) is Some {
        answer_alike(one.part(3, "answer"@)->0, other.part(3, "answer"@)->0, true);
    }
}

proof fn capability_alike(one: JsonView, other: JsonView)
    requires
        spelling::alike(one, other),
    ensures
        capabilities::capability_of(one) == capabilities::capability_of(other),
{
    spelling::alike_fields(one, other);
    crossing::alike_variants(one, other);
    if crossing::carried(one, "Agent"@) is Some {
        let a = crossing::carried(one, "Agent"@)->0;
        let b = crossing::carried(other, "Agent"@)->0;
        spelling::alike_fields(a, b);
    }
}

proof fn standing_alike(one: JsonView, other: JsonView)
    requires
        spelling::alike(one, other),
    ensures
        capabilities::standing_of(one) == capabilities::standing_of(other),
{
    spelling::alike_fields(one, other);
    crossing::alike_variants(one, other);
    if crossing::carried(one, "Present"@) is Some {
        let a = crossing::carried(one, "Present"@)->0;
        let b = crossing::carried(other, "Present"@)->0;
        spelling::alike_fields(a, b);
    }
    if crossing::carried(one, "Absent"@) is Some {
        let a = crossing::carried(one, "Absent"@)->0;
        let b = crossing::carried(other, "Absent"@)->0;
        spelling::alike_fields(a, b);
        texts_alike(a.part(0, "searched"@), b.part(0, "searched"@));
    }
    if crossing::carried(one, "Unfit"@) is Some {
        let a = crossing::carried(one, "Unfit"@)->0;
        let b = crossing::carried(other, "Unfit"@)->0;
        spelling::alike_fields(a, b);
    }
}

proof fn status_alike(one: JsonView, other: JsonView)
    requires
        spelling::alike(one, other),
    ensures
        capabilities::status_of(one) == capabilities::status_of(other),
{
    spelling::alike_fields(one, other);
    if one.part(0, "capability"@) is Some {
        capability_alike(one.part(0, "capability"@)->0, other.part(0, "capability"@)->0);
    }
    if one.part(1, "standing"@) is Some {
        standing_alike(one.part(1, "standing"@)->0, other.part(1, "standing"@)->0);
    }
}

proof fn resolved_alike(one: JsonView, other: JsonView)
    requires
        spelling::alike(one, other),
    ensures
        capabilities::resolved_of(one) == capabilities::resolved_of(other),
{
    spelling::alike_fields(one, other);
    crossing::alike_variants(one, other);
}

} // verus!
