//! The vocabularies as they cross a process boundary, and come back.

use epik::agent::claude_code::Update;
use epik::agent::coding::{AgentEvent, Stop};
use epik::chat::{Answer, Ask, Role, TranscriptItem};
use epik::crossing::{unwrap, wrap};
use epik::event::{ChatEvent, ConversationId, Envelope, Event, Money, Remedy, Usage};
use epik::feature::{Blocking, Issue, IssueId, Plan, Problem, RunId, State};
use epik::ids::IdMap;
use epik::json::spelling::spell;
use epik::json::Json;
use epik::keystore::Resolved;
use epik::logging::{JsonLines, Log, Wire};
use epik::monitor::{Change, Entry};
use epik::preflight::{Capability, CapabilityStatus, Standing};
use epik::run::{FeatureEvent, FeaturePhase, FeatureVerdict, Phase, RunEvent, Verdict};
use epik::tree::Tree;

fn parsed(text: &str) -> Json {
    Json::parse(text).unwrap()
}

#[test]
fn run_events_round_trip_through_json() {
    let events = [
        RunEvent::Entered(Phase::Worktree),
        RunEvent::Agent(AgentEvent::Progress("compiling".to_owned())),
        RunEvent::Entered(Phase::Cleanup),
        RunEvent::Finished(Verdict::Failed {
            report: "issue #7 is still open".to_owned(),
        }),
        RunEvent::Finished(Verdict::Done),
    ];
    for event in events {
        let json = event.tell();
        assert_eq!(RunEvent::hear(&json), Some(event));
    }
}

#[test]
fn every_moment_of_an_agents_run_comes_back() {
    let events = [
        AgentEvent::Started {
            agent: "scripted".to_owned(),
        },
        AgentEvent::Usage(Usage {
            cache_tokens: Some(4),
            cost: Some(Money { micro_usd: 7 }),
            ..Usage::tokens(18, 6)
        }),
        AgentEvent::Usage(Usage::tokens(1, 2)),
        AgentEvent::Finished(Stop::Spent),
        AgentEvent::Finished(Stop::Died {
            error: "gone".to_owned(),
        }),
    ];
    for event in events {
        assert_eq!(AgentEvent::hear(&event.tell()), Some(event));
    }
}

#[test]
fn the_envelope_channel_carries_the_run_vocabulary_as_promised() {
    let event = RunEvent::Entered(Phase::Implement);
    let json = spell(&wrap(ConversationId(3), event.told()));
    assert_eq!(json, r#"{"conversation":3,"event":{"Entered":"Implement"}}"#);
    let envelope = Envelope {
        conversation: ConversationId(3),
        event,
    };
    assert_eq!(envelope.tell(), json);
    assert_eq!(
        Envelope::<RunEvent>::hear(&json),
        Some(envelope),
        "the second vocabulary, same channel"
    );
}

#[test]
fn feature_events_round_trip_through_json() {
    let events = [
        FeatureEvent::Entered(FeaturePhase::Graph),
        FeatureEvent::Entered(FeaturePhase::Branch),
        FeatureEvent::Entered(FeaturePhase::Schedule),
        FeatureEvent::Issue {
            number: 7,
            event: RunEvent::Agent(AgentEvent::Progress("compiling".to_owned())),
        },
        FeatureEvent::Retained {
            number: 7,
            path: "work/epik-agent/Epik/issue-7".to_owned(),
            error: None,
        },
        FeatureEvent::Entered(FeaturePhase::Review),
        FeatureEvent::Finished(FeatureVerdict::Done { review: 41 }),
        FeatureEvent::Finished(FeatureVerdict::Failed {
            report: "no sub-issue is ready".to_owned(),
        }),
    ];
    for event in events {
        let json = event.tell();
        assert_eq!(FeatureEvent::hear(&json), Some(event));
    }
}

#[test]
fn the_envelope_channel_carries_the_feature_vocabulary_too() {
    let event = FeatureEvent::Issue {
        number: 7,
        event: RunEvent::Entered(Phase::Worktree),
    };
    let envelope = Envelope {
        conversation: ConversationId(3),
        event,
    };
    assert_eq!(
        Envelope::<FeatureEvent>::hear(&envelope.tell()),
        Some(envelope),
        "the third vocabulary, same channel"
    );
}

#[test]
fn a_log_parses_back_into_the_vocabulary_it_carried() {
    let mut log = JsonLines::new(String::new());
    log.emit(RunEvent::Entered(Phase::Worktree));
    log.emit(RunEvent::Finished(Verdict::Done));
    let events: Vec<RunEvent> = log
        .into_inner()
        .lines()
        .map(|line| RunEvent::hear(line).unwrap())
        .collect();
    assert_eq!(
        events,
        [
            RunEvent::Entered(Phase::Worktree),
            RunEvent::Finished(Verdict::Done)
        ]
    );
}

#[test]
fn events_round_trip_through_json() {
    let event = Event::IssueStarted { id: 7 };
    assert_eq!(Event::hear(&event.tell()), Some(event));
    assert_eq!(
        spell(&event.told()),
        event.tell(),
        "the value and the line are one text"
    );
}

#[test]
fn a_refusal_carries_its_remedy_through_json() {
    let event = ChatEvent::ToolCallRefused {
        id: "call-1".to_owned(),
        error: "no GitHub token".to_owned(),
        remedy: Some(Remedy::GithubToken),
    };
    let back = ChatEvent::hear(&event.tell());
    assert_eq!(back, Some(event), "the typed case survives the boundary");
}

#[test]
fn every_moment_of_a_turn_comes_back() {
    let events = [
        ChatEvent::Delta {
            text: "Hello \"you\"\n".to_owned(),
        },
        ChatEvent::TurnFinished { usage: None },
        ChatEvent::TurnFinished {
            usage: Some(Usage::tokens(1, 2)),
        },
        ChatEvent::Failed {
            error: "cut off".to_owned(),
        },
        ChatEvent::ToolCallStarted {
            id: "1".to_owned(),
            name: "f".to_owned(),
            arguments: "{}".to_owned(),
        },
        ChatEvent::ToolCallFinished {
            id: "1".to_owned(),
            content: "ok".to_owned(),
        },
        ChatEvent::ToolCallRefused {
            id: "1".to_owned(),
            error: "no".to_owned(),
            remedy: None,
        },
    ];
    for event in events {
        assert_eq!(ChatEvent::hear(&event.tell()), Some(event));
    }
    assert_eq!(ChatEvent::read(&parsed(r#"{"Unheard":{}}"#)), None);
}

#[test]
fn an_envelope_round_trips_with_its_conversation_intact() {
    let event = ChatEvent::Delta {
        text: "Hello".to_owned(),
    };
    let value = wrap(ConversationId(3), event.told());
    let (conversation, inside) = unwrap(&value).unwrap();
    assert_eq!(conversation, ConversationId(3));
    assert_eq!(ChatEvent::read(inside).as_ref(), Some(&event));

    let envelope = Envelope {
        conversation: ConversationId(3),
        event,
    };
    assert_eq!(
        Envelope::<ChatEvent>::hear(&envelope.tell()),
        Some(envelope)
    );
    assert_eq!(Envelope::<ChatEvent>::hear(r#"{"conversation":3}"#), None);
    assert_eq!(Envelope::<ChatEvent>::hear("{"), None);
}

#[test]
fn one_envelope_carries_either_vocabulary() {
    let run = wrap(ConversationId(0), Event::IssueStarted { id: 7 }.told());
    let chat = wrap(
        ConversationId(0),
        ChatEvent::TurnFinished { usage: None }.told(),
    );
    let told = Envelope {
        conversation: ConversationId(0),
        event: Event::IssueStarted { id: 7 },
    }
    .tell();
    assert_eq!(told, spell(&run));
    assert!(Envelope::<Event>::hear(&told).is_some());
    assert!(Envelope::<ChatEvent>::hear(&told).is_none());
    // Same wrapper, same field name: a second vocabulary on this channel
    // costs a client nothing but a second match arm.
    assert!(spell(&run).contains("conversation"));
    assert!(spell(&chat).contains("conversation"));
}

fn message(role: Role, text: &str) -> TranscriptItem {
    TranscriptItem::Message {
        role,
        text: text.to_owned(),
    }
}

/// The tag in the JSON is the forward-compatibility contract: a
/// future item kind is a new tag value, and an old reader can see
/// what it is not, rather than misread what it is.
#[test]
fn every_transcript_item_crosses_the_wire_tagged() {
    for (item, tag) in [
        (message(Role::User, "hello"), r#""kind":"message""#),
        (
            TranscriptItem::AssistantDelta {
                text: "he".to_owned(),
            },
            r#""kind":"assistant_delta""#,
        ),
        (
            TranscriptItem::TurnFailed {
                reason: "no route".to_owned(),
            },
            r#""kind":"turn_failed""#,
        ),
        (
            TranscriptItem::ToolCall {
                name: "current_time".to_owned(),
                arguments: "{}".to_owned(),
            },
            r#""kind":"tool_call""#,
        ),
        (
            TranscriptItem::ToolResult {
                name: "current_time".to_owned(),
                ok: true,
                content: "{\"local\":\"…\"}".to_owned(),
            },
            r#""kind":"tool_result""#,
        ),
        (
            TranscriptItem::Question {
                id: "1".to_owned(),
                ask: Ask::Repository {
                    prompt: "Where should this live?".to_owned(),
                },
            },
            r#""kind":"question""#,
        ),
        (
            TranscriptItem::QuestionResolved {
                id: "1".to_owned(),
                ask: Ask::Repository {
                    prompt: "Where should this live?".to_owned(),
                },
                answer: Answer::Repository {
                    url: "/tmp/wumpus.git".to_owned(),
                },
            },
            r#""kind":"question_resolved""#,
        ),
        (
            TranscriptItem::QuestionResolved {
                id: "2".to_owned(),
                ask: Ask::Repository {
                    prompt: "Where?".to_owned(),
                },
                answer: Answer::Declined,
            },
            r#""kind":"question_resolved""#,
        ),
        (
            TranscriptItem::QuestionResolved {
                id: "3".to_owned(),
                ask: Ask::Check {
                    prompt: "What says green?".to_owned(),
                    proposal: Some("cargo test".to_owned()),
                },
                answer: Answer::Check {
                    command: "cargo test --workspace".to_owned(),
                },
            },
            r#""kind":"question_resolved""#,
        ),
    ] {
        let wire = item.tell();
        assert!(wire.contains(tag), "{wire}");
        assert_eq!(TranscriptItem::hear(&wire), Some(item));
    }
}

/// Asks and answers are tagged inside the item, one tag each.
#[test]
fn asks_and_answers_carry_their_own_tags() {
    let ask = Ask::Repository {
        prompt: "Where?".to_owned(),
    }
    .tell();
    assert_eq!(ask, r#"{"kind":"repository","prompt":"Where?"}"#);
    let check = Ask::Check {
        prompt: "What says green?".to_owned(),
        proposal: None,
    }
    .tell();
    assert_eq!(
        check,
        r#"{"kind":"check","prompt":"What says green?","proposal":null}"#
    );
    assert_eq!(
        Answer::Check {
            command: "make test".to_owned(),
        }
        .tell(),
        r#"{"kind":"check","command":"make test"}"#
    );
    assert_eq!(Answer::Declined.tell(), r#"{"kind":"declined"}"#);
}

/// A newer build's question kind does not decode here: an unknown tag is
/// no ask and no answer. Acceptable — both ends of the barrier ship
/// together — and documented rather than papered over with an `Unknown`.
#[test]
fn an_ask_kind_from_a_newer_build_fails_to_decode() {
    assert!(Ask::read(&parsed(r#"{"kind":"colour","prompt":"?"}"#)).is_none());
    assert!(Answer::read(&parsed(r#"{"kind":"colour","value":"red"}"#)).is_none());
}

#[test]
fn the_roles_cross_by_their_wire_protocol_names() {
    assert_eq!(spell(&Role::Assistant.told()), r#""assistant""#);
    assert_eq!(spell(&Role::User.told()), r#""user""#);
    assert_eq!(Role::read(&parsed(r#""user""#)), Some(Role::User));
    assert_eq!(Role::read(&parsed(r#""system""#)), None);
}

#[test]
fn the_vocabulary_round_trips_through_json() {
    let statuses = [
        CapabilityStatus {
            capability: Capability::Git,
            standing: Standing::Present {
                at: "/usr/bin/git".to_owned(),
            },
        },
        CapabilityStatus {
            capability: Capability::Agent {
                binary: "coder".to_owned(),
            },
            standing: Standing::Absent {
                searched: vec!["/opt/bin/coder".to_owned()],
            },
        },
        CapabilityStatus {
            capability: Capability::GithubToken,
            standing: Standing::Unfit {
                at: "the Epik/github keyring entry".to_owned(),
                reason: "no secret service".to_owned(),
            },
        },
    ];
    for status in statuses {
        let json = spell(&status.told());
        assert_eq!(CapabilityStatus::hear(&json), Some(status));
    }
}

/// Telling is the one deliberate door out: a resolution crosses the wire
/// with its bytes intact and comes back the same resolution.
#[test]
fn a_resolution_crosses_the_wire_and_comes_back_itself() {
    let sent = Resolved::Found("sk-super-secret".into());
    let wire = spell(&sent.told());
    let received = Resolved::hear(&wire).unwrap();

    assert!(wire.contains("sk-super-secret"), "the wire carries bytes");
    assert!(received == sent);
    assert!(Resolved::read(&parsed(r#""Absent""#)).unwrap() == Resolved::Absent);
    let broken = Resolved::Unreachable("broken".to_owned());
    assert!(Resolved::read(&broken.told()).unwrap() == broken);
}

#[test]
fn a_value_is_spelled_in_the_order_it_was_made() {
    let value = Json::record()
        .with("z", Json::Null)
        .with("a\"b", Json::Bool(false))
        .with(
            "m",
            Json::list(vec![
                Json::Whole(1),
                Json::Other("-0.5".to_owned()),
                Json::Bool(true),
                Json::string("\u{1}é"),
                Json::record(),
            ]),
        );
    assert_eq!(
        spell(&value),
        "{\"z\":null,\"a\\\"b\":false,\"m\":[1,-0.5,true,\"\\u0001é\",{}]}"
    );
}

fn id(n: u64) -> IssueId {
    IssueId::from(n)
}

fn planned(n: u64, closed: bool) -> Issue {
    Issue {
        id: id(n),
        title: format!("issue {n}"),
        closed,
    }
}

/// A feature over two issues, the second waiting on the first and on one
/// outside.
fn two_then_three() -> Plan {
    Plan {
        tree: Tree {
            value: planned(1, false),
            children: vec![Tree::new(planned(2, false)), Tree::new(planned(3, false))],
        },
        blocking: vec![
            Blocking {
                issue: id(3),
                blocker: id(2),
            },
            Blocking {
                issue: id(3),
                blocker: id(9),
            },
        ],
        outside: vec![planned(9, true)],
    }
}

#[test]
fn a_change_serializes_tagged_by_its_word_and_reads_back() {
    let change = Change::Moved {
        run: RunId(1),
        issue: id(2),
        state: State::Running,
    };
    let wire = change.told();
    assert_eq!(
        spell(&wire),
        r#"{"change":"moved","run":1,"issue":"2","state":{"state":"running"}}"#
    );
    assert_eq!(Change::read(&wire), Some(change));

    let mut states = IdMap::new();
    states.insert(id(3), State::Waiting);
    states.insert(id(2), State::Waiting);
    let entry = Entry {
        seq: 3,
        at: 1_000,
        change: Change::Started {
            run: RunId(1),
            plan: two_then_three(),
            problems: Vec::new(),
            states,
            check: None,
        },
    };
    assert_eq!(Entry::hear(&entry.tell()), Some(entry));
}

#[test]
fn every_entry_of_the_log_comes_back() {
    let run = RunId(4);
    let moves = [
        State::Waiting,
        State::Merging,
        State::Merged {
            commit: "abc".to_owned(),
            checked: true,
        },
        State::Failed {
            report: "red".to_owned(),
        },
        State::Skipped {
            reason: "blocked by 2".to_owned(),
        },
    ];
    let mut changes = vec![
        Change::Reserved {
            run,
            feature: id(1),
            repository: "/w".to_owned(),
            branch: "feature-1".to_owned(),
            base: Some("main".to_owned()),
        },
        Change::Reserved {
            run,
            feature: id(1),
            repository: "/w".to_owned(),
            branch: "feature-1".to_owned(),
            base: None,
        },
        Change::Finished { run },
        Change::Abandoned {
            run,
            reason: "no plan".to_owned(),
        },
    ];
    for state in moves {
        changes.push(Change::Moved {
            run,
            issue: id(2),
            state,
        });
    }
    let mut seq = 0;
    for change in changes {
        let entry = Entry {
            seq,
            at: 7,
            change,
        };
        assert_eq!(Entry::hear(&entry.tell()), Some(entry));
        seq += 1;
    }
    assert_eq!(Entry::hear(r#"{"seq":0,"at":1,"change":{"change":"lost"}}"#), None);
    assert_eq!(
        State::read(&parsed(r#"{"state":"merged","commit":"abc"}"#)),
        None
    );
}

/// A feature of so many levels.
fn deep(levels: u64) -> Plan {
    let mut tree = Tree::new(planned(levels, false));
    let mut n = levels;
    while n > 1 {
        n -= 1;
        tree = Tree {
            value: planned(n, false),
            children: vec![tree],
        };
    }
    Plan {
        tree,
        blocking: Vec::new(),
        outside: Vec::new(),
    }
}

#[test]
fn a_plan_comes_back_as_deep_as_a_text_can_hold() {
    for (levels, heard) in [(62, true), (63, false)] {
        let entry = Entry {
            seq: 0,
            at: 0,
            change: Change::Started {
                run: RunId(1),
                plan: deep(levels),
                problems: vec!["no work".to_owned()],
                states: IdMap::new(),
                check: Some("make test".to_owned()),
            },
        };
        assert_eq!(Entry::hear(&entry.tell()).is_some(), heard, "{levels}");
        assert_eq!(Entry::read(&entry.told()), Some(entry));
    }
}

#[test]
fn problems_serialize_as_their_words() {
    assert_eq!(
        Problem::NoWork.told(),
        Json::string("every issue is already settled: the plan has no work in it")
    );
}

#[test]
fn an_update_round_trips_through_serde() {
    let update = Update::Result {
        ok: false,
        text: "ran aground".to_owned(),
        cost_usd: Some("0.25".to_owned()),
        input_tokens: None,
        output_tokens: Some(7),
    };
    let wire = spell(&update.told());
    assert_eq!(Update::read(&parsed(&wire)), Some(update));
    for update in [
        Update::Session {
            id: "1".to_owned(),
            model: "m".to_owned(),
        },
        Update::Text {
            text: "onwards".to_owned(),
        },
        Update::ToolUse {
            name: "Write".to_owned(),
        },
    ] {
        assert_eq!(Update::read(&update.told()), Some(update));
    }
}

#[test]
fn a_tagged_value_may_come_as_a_row() {
    assert_eq!(
        Ask::hear(r#"["check","What says green?",null]"#),
        Some(Ask::Check {
            prompt: "What says green?".to_owned(),
            proposal: None,
        })
    );
    assert_eq!(Ask::hear(r#"["check","What says green?"]"#), None, "none left out");
    assert_eq!(Ask::hear(r#"["repository","Where?","and"]"#), None, "none too many");
    assert_eq!(Answer::hear(r#"["declined"]"#), Some(Answer::Declined));
    assert_eq!(Answer::hear(r#"["declined",1]"#), None);
    assert_eq!(
        Change::read(&parsed(r#"["moved",1,"2",["merged","abc",true]]"#)),
        Some(Change::Moved {
            run: RunId(1),
            issue: id(2),
            state: State::Merged {
                commit: "abc".to_owned(),
                checked: true,
            },
        })
    );
    assert_eq!(
        TranscriptItem::hear(r#"["message","user","hi"]"#),
        Some(message(Role::User, "hi"))
    );
}

#[test]
fn a_tag_within_may_be_a_place() {
    let item = r#"{"kind":"question","id":"1","ask":{"kind":0,"prompt":"Where?"}}"#;
    assert_eq!(
        TranscriptItem::hear(item),
        Some(TranscriptItem::Question {
            id: "1".to_owned(),
            ask: Ask::Repository {
                prompt: "Where?".to_owned(),
            },
        })
    );
    assert_eq!(Ask::hear(r#"{"kind":0,"prompt":"Where?"}"#), None, "outside it is a word");
    assert_eq!(
        TranscriptItem::hear(r#"{"kind":"message","role":{"user":{}},"text":"hi"}"#),
        Some(message(Role::User, "hi"))
    );
    assert_eq!(Role::read(&parsed(r#"{"user":{}}"#)), None);
    assert_eq!(Role::read(&parsed(r#"{"user":null}"#)), Some(Role::User));
}

#[test]
fn a_row_leaves_out_nothing_that_has_no_default() {
    assert_eq!(ChatEvent::hear(r#"{"TurnFinished":[]}"#), None);
    assert_eq!(
        ChatEvent::hear(r#"{"TurnFinished":{}}"#),
        Some(ChatEvent::TurnFinished { usage: None })
    );
    assert_eq!(
        ChatEvent::hear(r#"{"TurnFinished":[[1,2]]}"#),
        Some(ChatEvent::TurnFinished {
            usage: Some(Usage::tokens(1, 2))
        })
    );
}

#[test]
fn a_whole_bill_is_told_with_its_point() {
    let update = Update::read(&parsed(
        r#"{"Result":{"ok":true,"text":"t","cost_usd":2,"input_tokens":1,"output_tokens":2}}"#,
    ))
    .unwrap();
    assert_eq!(
        spell(&update.told()),
        r#"{"Result":{"ok":true,"text":"t","cost_usd":2.0,"input_tokens":1,"output_tokens":2}}"#
    );
    assert_eq!(Update::read(&update.told()), Some(update));
}
