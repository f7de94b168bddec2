//! Processes and the agents that are made of them.

use epik::agent::claude_code::{interpret, understand, ClaudeCode, Update};
use epik::agent::coding::{AgentEvent, Budget, CodingAgent, Play, Scripted, Stop, Task, TaskKind};
use epik::agent::conformance::{conforms, nondecreasing, scenarios, NOT_ONE_END, TWO_STORIES};
use epik::agent::scripted::Scripted as Shell;
use epik::agent::{
    child_finished, decode, killed, program, stripped, wait, Agent, Exit, Finished, Line, Wait,
};
use epik::chat::StopToken;
use epik::event::{Money, Usage};
use epik::json::Json;
use epik::keystore::Secret;

// ----- what a process said, and how it ended -----

#[test]
fn no_program_is_an_error() {
    assert_eq!(program(&Vec::new()), Err("no program to run".to_owned()));
    assert_eq!(
        program(&vec!["sh".to_owned(), "-c".to_owned()]),
        Ok("sh".to_owned())
    );
}

fn line(bytes: &[u8]) -> String {
    decode(&bytes.to_vec())
}

#[test]
fn output_without_trailing_newline_is_delivered() {
    assert_eq!(line(b"no newline"), "no newline");
}

#[test]
fn carriage_returns_before_newlines_are_dropped() {
    assert_eq!(line(b"a\r\n"), "a");
    assert_eq!(line(b"\n"), "");
    assert_eq!(line(b"b\n"), "b");
}

#[test]
fn only_a_line_ending_is_stripped() {
    assert_eq!(stripped(&b"a\r\r\n".to_vec()), b"a\r".to_vec());
    assert_eq!(stripped(&b"a\n\n".to_vec()), b"a\n".to_vec());
    assert_eq!(stripped(&Vec::new()), Vec::<u8>::new());
}

#[test]
fn bytes_that_are_not_utf8_are_replaced() {
    assert_eq!(line(b"\xff\xfe\0"), "\u{fffd}\u{fffd}\0");
}

#[test]
fn a_line_longer_than_any_buffer_arrives_whole() {
    let said = line(&vec![0u8; 100_000]);
    assert_eq!(said.len(), 100_000);
    assert!(said.bytes().all(|b| b == 0));
}

#[test]
fn exit_code_is_reported() {
    assert_eq!(Exit::of(None, Some(3), "exit status: 3"), Ok(Exit::Code(3)));
}

#[test]
fn a_signal_is_reported_as_one() {
    assert_eq!(
        Exit::of(Some(15), None, "signal: 15"),
        Ok(Exit::Signal(15))
    );
}

#[test]
fn an_end_that_is_neither_is_an_error() {
    assert!(Exit::of(None, None, "stopped").is_err());
}

#[test]
fn finish_collects_the_exit_and_the_words_stdout_before_stderr() {
    let finished = Finished::of(
        Exit::Code(3),
        &vec![
            Line::Stdout("out".to_owned()),
            Line::Stderr("err".to_owned()),
            Line::Stdout("out again".to_owned()),
        ],
    );
    assert_eq!(finished.exit, Exit::Code(3));
    assert!(!finished.exit.success());
    assert_eq!(finished.output, "out\nout again\nerr");

    let quiet = Finished::of(Exit::Code(0), &Vec::new());
    assert!(quiet.exit.success());
    assert_eq!(quiet.output, "");
    assert!(!Exit::Signal(0).success(), "a signal is never success");
}

#[test]
fn a_deadline_kills_a_process_that_will_not_finish_and_says_so() {
    assert_eq!(wait(false, 199, Some(200)), Wait::Sleep);
    assert_eq!(wait(false, 200, Some(200)), Wait::Kill);
    assert_eq!(
        killed("sh", "200ms"),
        "sh was killed after 200ms without finishing"
    );
}

#[test]
fn a_deadline_that_is_not_reached_changes_nothing() {
    assert_eq!(wait(true, 10_000, Some(200)), Wait::Reap);
    assert_eq!(wait(false, 10_000, None), Wait::Reap);
}

#[test]
fn a_child_that_outlived_its_time_is_named() {
    let late = child_finished("git", None, "", "", 60).unwrap_err();
    assert!(late.contains("git"), "{late}");
    assert!(late.contains("60"), "{late}");
    let (ok, said) = child_finished("git", Some(true), "out", "", 60).unwrap();
    assert!(ok);
    assert!(said.contains("out"), "{said}");
}

// ----- the shell scripts -----

#[test]
fn the_scripted_shells_carry_their_payload() {
    let counting = Shell::counting(3).task();
    assert_eq!(counting.argv[0], "sh");
    assert!(counting.argv[2].contains('3'), "{:?}", counting.argv);
    assert!(counting.env.is_empty());

    let echo = Shell::env_echo("TOKEN", Secret::from("hush")).task();
    assert_eq!(echo.env.len(), 1);
    assert_eq!(echo.env[0].0, "TOKEN");
    assert!(echo.env[0].1 == Secret::from("hush"));
    assert!(!echo.debug().contains("hush"), "{}", echo.debug());

    let stdin = Shell::stdin_echo("read me").task();
    assert_eq!(stdin.stdin.as_deref(), Some("read me"));
    assert_eq!(Shell::failing().task().stdin, None);
    assert_eq!(Shell::hanging().task().stdin, None);
}

// ----- the stream of the CLI -----

fn updates(stream: &str) -> Vec<Update> {
    stream.lines().flat_map(interpret).collect()
}

#[test]
fn a_session_interprets_to_its_four_updates() {
    let stream = r#"{"type":"system","subtype":"hook_started","hook_id":"h"}
{"type":"system","subtype":"init","session_id":"ed2b50bb","model":"fable-5","tools":["Write"]}
{"type":"assistant","message":{"content":[{"type":"thinking","thinking":"hmm"}]}}
{"type":"assistant","message":{"content":[{"type":"tool_use","name":"Write","input":{"a":1}}]}}
{"type":"user","message":{"content":[{"type":"tool_result"}]}}
{"type":"assistant","message":{"content":[{"type":"text","text":"Created `hello.txt`."}]}}
{"type":"result","is_error":false,"result":"Created `hello.txt`.","total_cost_usd":0.316251,"usage":{"input_tokens":4,"output_tokens":181}}"#;
    assert_eq!(
        updates(stream),
        vec![
            Update::Session {
                id: "ed2b50bb".to_owned(),
                model: "fable-5".to_owned(),
            },
            Update::ToolUse {
                name: "Write".to_owned(),
            },
            Update::Text {
                text: "Created `hello.txt`.".to_owned(),
            },
            Update::Result {
                ok: true,
                text: "Created `hello.txt`.".to_owned(),
                cost_usd: Some("0.316251".to_owned()),
                input_tokens: Some(4),
                output_tokens: Some(181),
            },
        ],
        "hooks, thinking, and tool results interpret to nothing"
    );
}

#[test]
fn lines_that_are_not_stream_json_interpret_to_nothing() {
    for line in [
        "",
        "not json at all",
        r#"{"type":"user","message":{"content":[{"type":"tool_result"}]}}"#,
        r#"{"type":"celebration","confetti":true}"#,
        r#"{"no_type_at_all":1}"#,
    ] {
        assert_eq!(interpret(line), vec![], "{line:?}");
    }
}

#[test]
fn unmodelled_fields_and_blocks_are_absorbed_not_fatal() {
    let line = r#"{"type":"assistant","message":{"content":[
            {"type":"thinking","thinking":"hmm"},
            {"type":"text","text":"onwards","novelty":42}],
            "future_field":{"deep":[1,2,3]}},"another":"one"}"#;
    assert_eq!(
        interpret(line),
        vec![Update::Text {
            text: "onwards".to_owned()
        }]
    );
    assert_eq!(
        understand(&Json::parse(line).unwrap()),
        interpret(line),
        "a line is what its JSON is understood as"
    );
}

// ----- the CLI as an agent -----

/// The model the host pins.
const PINNED: &str = "sonnet-4-5";

fn agent() -> ClaudeCode {
    ClaudeCode {
        binary: "/opt/homebrew/bin/coder".to_owned(),
        cwd: "/work/repo".to_owned(),
        prompt: "create a file\nnamed hello.txt".to_owned(),
        model: Some(PINNED.to_owned()),
        api_key: Some(Secret::from("sk-ant-hush-hush")),
    }
}

/// The isolation and skip-permissions flags are load-bearing;
/// the whole argv is pinned, and the prompt is not in it.
#[test]
fn the_argv_is_exactly_the_settled_posture() {
    assert_eq!(
        agent().task().argv,
        [
            "/opt/homebrew/bin/coder",
            "-p",
            "--output-format",
            "stream-json",
            "--verbose",
            "--model",
            PINNED,
            "--settings",
            "{}",
            "--strict-mcp-config",
            "--dangerously-skip-permissions",
        ]
    );

    let mut without_model = agent();
    without_model.model = None;
    assert_eq!(
        without_model.task().argv,
        [
            "/opt/homebrew/bin/coder",
            "-p",
            "--output-format",
            "stream-json",
            "--verbose",
            "--settings",
            "{}",
            "--strict-mcp-config",
            "--dangerously-skip-permissions",
        ]
    );
}

#[test]
fn the_prompt_rides_stdin_and_the_cwd_is_the_given_one() {
    let task = agent().task();
    assert_eq!(
        task.stdin.as_deref(),
        Some("create a file\nnamed hello.txt")
    );
    assert_eq!(task.cwd, "/work/repo");
}

#[test]
fn the_key_is_in_the_env_exactly_when_supplied() {
    let task = agent().task();
    assert_eq!(task.env.len(), 1);
    assert_eq!(task.env[0].0, "ANTHROPIC_API_KEY");
    assert!(task.env[0].1 == Secret::from("sk-ant-hush-hush"));

    let mut logged_in = agent();
    logged_in.api_key = None;
    assert!(
        logged_in.task().env.is_empty(),
        "no key means the CLI's own auth"
    );
}

#[test]
fn no_debug_output_carries_the_keys_bytes() {
    let agent = agent();
    for debugged in [agent.debug(), agent.task().debug()] {
        assert!(!debugged.contains("sk-ant-hush-hush"), "{debugged}");
    }
}

#[test]
fn a_task_prints_as_its_parts() {
    let task = agent().task();
    assert!(
        task.debug()
            .ends_with(", cwd: \"/work/repo\", stdin: Some(\"create a file\\nnamed hello.txt\") }"),
        "{}",
        task.debug()
    );
}

// ----- the run every coding agent makes -----

/// The acceptance gate: the scripted agent passes the same gauntlet
/// every future implementation will.
#[test]
fn scripted_conforms() {
    assert_eq!(conforms(Scripted::playing), Ok(()));
}

/// An agent that says it completed whatever it was told.
struct Yes;

impl CodingAgent for Yes {
    fn run(&self, _: &Task, _: &StopToken) -> (Vec<AgentEvent>, Stop) {
        (
            vec![
                AgentEvent::Started {
                    agent: "yes".to_owned(),
                },
                AgentEvent::Finished(Stop::Completed),
            ],
            Stop::Completed,
        )
    }
}

#[test]
fn an_agent_that_always_completes_does_not_conform() {
    assert!(conforms(|_: Vec<Play>| Yes).is_err());
}

#[test]
fn every_scenario_refuses_an_agent_that_never_ends() {
    for scenario in scenarios() {
        let never = vec![AgentEvent::Started {
            agent: "never".to_owned(),
        }];
        assert_eq!(
            scenario.judge(&never, &Stop::Completed),
            Err(NOT_ONE_END.to_owned()),
            "{}",
            scenario.clause
        );
    }
}

#[test]
fn the_stop_and_the_last_event_tell_one_story() {
    let scenario = &scenarios()[0];
    let split = vec![
        AgentEvent::Started {
            agent: "split".to_owned(),
        },
        AgentEvent::Finished(Stop::Completed),
    ];
    assert_eq!(
        scenario.judge(&split, &Stop::Canceled),
        Err(TWO_STORIES.to_owned())
    );
}

fn task(budget: Budget) -> Task {
    Task {
        kind: TaskKind::Implement,
        prompt: "do it".to_owned(),
        worktree: "/w".to_owned(),
        env: Vec::new(),
        budget,
    }
}

fn roomy() -> Budget {
    Budget {
        max_tokens: None,
        max_cost: None,
        stall: 60_000,
    }
}

#[test]
fn usage_never_runs_backward_whatever_the_feed_claims() {
    let agent = Scripted::playing(vec![
        Play::Usage(Usage::tokens(10, 5)),
        Play::Usage(Usage::tokens(4, 9)),
        Play::Finish(Stop::Completed),
    ]);
    let (events, stop) = agent.run(&task(roomy()), &StopToken::new());
    assert_eq!(stop, Stop::Completed);
    assert_eq!(
        events[1..],
        [
            AgentEvent::Usage(Usage::tokens(10, 5)),
            AgentEvent::Usage(Usage::tokens(10, 9)),
            AgentEvent::Finished(Stop::Completed),
        ]
    );
}

#[test]
fn a_reading_past_the_budget_ends_the_run_as_spent() {
    let spendthrift = || {
        Scripted::playing(vec![
            Play::Usage(Usage {
                cost: Some(Money { micro_usd: 11 }),
                ..Usage::tokens(10, 5)
            }),
            Play::Progress("never happens".to_owned()),
            Play::Finish(Stop::Completed),
        ])
    };
    let tokens = Budget {
        max_tokens: Some(14),
        ..roomy()
    };
    let money = Budget {
        max_cost: Some(Money { micro_usd: 10 }),
        ..roomy()
    };
    for budget in [tokens, money] {
        let (events, stop) = spendthrift().run(&task(budget), &StopToken::new());
        assert_eq!(stop, Stop::Spent);
        assert!(
            !events.contains(&AgentEvent::Progress("never happens".to_owned())),
            "{events:?}"
        );
    }
    let exact = Budget {
        max_tokens: Some(15),
        max_cost: Some(Money { micro_usd: 11 }),
        ..roomy()
    };
    let (_, stop) = spendthrift().run(&task(exact), &StopToken::new());
    assert_eq!(stop, Stop::Completed, "the ceiling itself is within it");
}

#[test]
fn silence_past_the_window_is_a_stall_and_a_set_token_cancels() {
    let quiet = Scripted::playing(vec![Play::Silence(60_001), Play::Finish(Stop::Completed)]);
    assert_eq!(quiet.run(&task(roomy()), &StopToken::new()).1, Stop::Stalled);

    let mut stop = StopToken::new();
    stop.stop();
    let eager = Scripted::playing(vec![
        Play::Progress("never happens".to_owned()),
        Play::Finish(Stop::Completed),
    ]);
    let (events, ended) = eager.run(&task(roomy()), &stop);
    assert_eq!(ended, Stop::Canceled);
    assert_eq!(events.len(), 2);
}

#[test]
fn a_feed_that_runs_dry_is_a_stall() {
    let (_, stop) = Scripted::playing(Vec::new()).run(&task(roomy()), &StopToken::new());
    assert_eq!(stop, Stop::Stalled);
}

#[test]
fn a_count_once_reported_neither_shrinks_nor_disappears() {
    let plain = Usage::tokens(1, 1);
    let cached = Usage {
        cache_tokens: Some(0),
        ..Usage::tokens(1, 1)
    };
    let priced = Usage {
        cost: Some(Money { micro_usd: 3 }),
        ..Usage::tokens(1, 1)
    };
    assert!(nondecreasing(&plain, &plain));
    assert!(nondecreasing(&plain, &cached));
    assert!(!nondecreasing(&cached, &plain));
    assert!(!nondecreasing(&priced, &plain));
    assert!(!nondecreasing(&Usage::tokens(2, 1), &plain));
}

#[test]
fn a_whole_bill_has_a_point() {
    let cost = |spelled: &str| {
        let line = format!(r#"{{"type":"result","result":"t","total_cost_usd":{spelled}}}"#);
        match interpret(&line).pop() {
            Some(Update::Result { cost_usd, .. }) => cost_usd,
            other => panic!("one result: {other:?}"),
        }
    };
    assert_eq!(cost("2").as_deref(), Some("2.0"));
    assert_eq!(cost("-3").as_deref(), Some("-3.0"));
    assert_eq!(cost("0.25").as_deref(), Some("0.25"));
    assert_eq!(cost("null"), None);
}
