//! What is said to a model, what it says back, and the vocabularies that
//! narrate it.

use epik::chat::openai::{
    message_record, replay, Message, OpenAiCompatible, Provider, ToolDeclaration, UNCOUNTABLE,
};
use epik::chat::scripted::Scripted;
use epik::chat::sse;
use epik::chat::stream::{api_message, models, models_url, refused, Calls, Heard, Hearing};
use epik::chat::wire::{request, role_name, step, Events, Step};
use epik::chat::{
    elide, ChatError, ChatMessage, Client, Conversation, ModelInfo, Reply, Role, StopToken,
    ToolCall, ToolSpec, TranscriptItem, TOOL_RESULT_CAP,
};
use epik::event::{ChatEvent, ConversationId, Envelope, Event, Money, Usage};
use epik::json::Json;
use epik::logging::{Enveloping, JsonLines, Log, Silent, Wire};

fn json(text: &str) -> Json {
    Json::parse(text).unwrap()
}

// ----- the client and the conversation -----

/// The model the host pins.
const PINNED: &str = "sonnet-4-5";

#[test]
fn anthropic_resolves_an_absent_model_to_the_pinned_default() {
    assert_eq!(Client::anthropic("k".into(), None, PINNED).model(), PINNED);
    assert_eq!(
        Client::anthropic("k".into(), Some("other".to_owned()), PINNED).model(),
        "other"
    );
}

#[test]
fn a_client_asks_at_its_endpoint_and_presents_its_key() {
    let client = Client::anthropic("k".into(), None, PINNED);
    assert_eq!(
        client.url(),
        "https://api.anthropic.com/v1/chat/completions"
    );
    assert_eq!(client.authorization().as_deref(), Some("Bearer k"));
    let bare = Client::new("http://localhost/v1".to_owned(), "m".to_owned(), None);
    assert_eq!(bare.authorization(), None);
    assert_eq!(
        bare.request("s", &vec![text(Role::User, "hi")], &Vec::new()),
        r#"{"model":"m","messages":[{"role":"system","content":"s"},{"role":"user","content":"hi"}],"stream":true}"#
    );
}

fn message(role: Role, text: &str) -> TranscriptItem {
    TranscriptItem::Message {
        role,
        text: text.to_owned(),
    }
}

#[test]
fn a_conversation_keeps_items_in_the_order_they_were_said() {
    let mut conversation = Conversation::default();
    conversation.push(message(Role::User, "first"));
    conversation.push(message(Role::Assistant, "second"));
    conversation.push(message(Role::User, "third"));

    let texts: Vec<_> = conversation
        .items()
        .iter()
        .map(|item| match item {
            TranscriptItem::Message { text, .. } => text.as_str(),
            _ => panic!("only messages were pushed"),
        })
        .collect();
    assert_eq!(texts, ["first", "second", "third"]);
}

#[test]
fn a_fresh_conversation_has_nothing_to_say() {
    assert_eq!(Conversation::default().items().iter().count(), 0);
}

#[test]
fn a_stop_token_is_set_once_and_for_all() {
    let mut stop = StopToken::new();
    assert!(!stop.is_stopped());
    stop.stop();
    stop.stop();
    assert!(stop.is_stopped());
}

// ----- the events of a stream, line by line -----

#[test]
fn sse_events_assemble_line_by_line() {
    let mut events = Events::default();
    assert_eq!(events.line("data: one"), None);
    assert_eq!(events.line(""), Some("one".to_owned()));
    assert_eq!(events.line("data: two"), None);
    assert_eq!(events.line(""), Some("two".to_owned()));
}

#[test]
fn multi_line_data_joins_with_newlines() {
    let mut events = Events::default();
    events.line("data: first");
    events.line("data: second");
    assert_eq!(events.line(""), Some("first\nsecond".to_owned()));
}

#[test]
fn other_sse_fields_comments_and_crlf_are_taken_in_stride() {
    let mut events = Events::default();
    events.line("event: message\r");
    events.line(": a comment");
    events.line("id: 7");
    events.line("data: payload\r");
    assert_eq!(events.line("\r"), Some("payload".to_owned()));
}

#[test]
fn a_blank_line_with_no_data_is_no_event() {
    let mut events = Events::default();
    assert_eq!(events.line(""), None);
}

#[test]
fn an_unterminated_final_event_still_flushes() {
    let mut events = Events::default();
    events.line("data: tail");
    assert_eq!(events.flush(), Some("tail".to_owned()));
    assert_eq!(events.flush(), None);
}

fn framed(stream: &str) -> Vec<String> {
    sse::events(stream)
        .into_iter()
        .map(|event| event.data)
        .collect()
}

#[test]
fn a_blank_line_dispatches_an_event() {
    assert_eq!(framed("data: one\n\ndata: two\n\n"), ["one", "two"]);
}

#[test]
fn comments_and_uninteresting_fields_are_skipped() {
    let stream = ": OPENROUTER PROCESSING\n\
                      event: message\n\
                      id: 4\n\
                      data: payload\n\n";
    assert_eq!(framed(stream), ["payload"]);
}

#[test]
fn multiple_data_lines_join_with_newlines() {
    assert_eq!(framed("data: first\ndata: second\n\n"), ["first\nsecond"]);
}

#[test]
fn one_optional_space_after_the_colon_is_framing_not_content() {
    assert_eq!(
        framed("data:tight\n\ndata:  loose\n\n"),
        ["tight", " loose"]
    );
}

#[test]
fn carriage_returns_are_line_endings_too() {
    assert_eq!(framed("data: one\r\n\r\n"), ["one"]);
}

#[test]
fn a_truncated_event_is_discarded() {
    assert_eq!(framed("data: complete\n\ndata: cut off"), ["complete"]);
}

// ----- the request -----

fn text(role: Role, text: &str) -> ChatMessage {
    ChatMessage::Text {
        role,
        text: text.to_owned(),
    }
}

#[test]
fn both_roles_speak_their_wire_protocol_names() {
    assert_eq!(role_name(Role::Assistant), "assistant");
    assert_eq!(role_name(Role::User), "user");
}

#[test]
fn the_request_leads_with_the_system_message_and_streams() {
    let messages = vec![text(Role::User, "hi"), text(Role::Assistant, "hi yourself")];
    let body = request("m", "be brief", &messages, &Vec::new(), None);
    assert_eq!(
        json(&body),
        json(
            r#"{
                "model": "m",
                "messages": [
                    { "role": "system", "content": "be brief" },
                    { "role": "user", "content": "hi" },
                    { "role": "assistant", "content": "hi yourself" }
                ],
                "stream": true
            }"#
        )
    );
}

/// The byte-identity contract: a request with no tools serializes to
/// exactly the JSON this client sent before tools existed.
#[test]
fn a_plain_request_is_byte_identical_to_the_pre_tools_shape() {
    let messages = vec![text(Role::User, "hi")];
    assert_eq!(
        request("m", "s", &messages, &Vec::new(), None),
        r#"{"model":"m","messages":[{"role":"system","content":"s"},{"role":"user","content":"hi"}],"stream":true}"#
    );
}

#[test]
fn tools_and_tool_choice_ride_along_when_present() {
    let tools = vec![ToolSpec::function(
        "current_time".to_owned(),
        "the local time".to_owned(),
        json(r#"{ "type": "object", "properties": {} }"#),
    )];
    let body = json(&request("m", "s", &Vec::new(), &tools, Some("auto")));
    assert_eq!(
        body.get("tools"),
        Some(&json(
            r#"[{
                "type": "function",
                "function": {
                    "name": "current_time",
                    "description": "the local time",
                    "parameters": { "type": "object", "properties": {} }
                }
            }]"#
        ))
    );
    assert_eq!(body.get("tool_choice"), Some(&json(r#""auto""#)));
}

#[test]
fn a_tool_turn_maps_to_an_assistant_call_and_an_addressed_answer() {
    let messages = vec![
        text(Role::User, "what time is it?"),
        ChatMessage::ToolCalls(vec![ToolCall {
            id: "call_1".to_owned(),
            name: "current_time".to_owned(),
            arguments: "{}".to_owned(),
        }]),
        ChatMessage::ToolResult {
            id: "call_1".to_owned(),
            content: "{\"local\":\"noon\"}".to_owned(),
        },
    ];
    let body = json(&request("m", "s", &messages, &Vec::new(), None));
    assert_eq!(
        body.get("messages"),
        Some(&json(
            r#"[
                { "role": "system", "content": "s" },
                { "role": "user", "content": "what time is it?" },
                {
                    "role": "assistant",
                    "tool_calls": [{
                        "id": "call_1",
                        "type": "function",
                        "function": { "name": "current_time", "arguments": "{}" }
                    }]
                },
                {
                    "role": "tool",
                    "content": "{\"local\":\"noon\"}",
                    "tool_call_id": "call_1"
                }
            ]"#
        ))
    );
}

#[test]
fn only_completed_messages_map_from_the_transcript() {
    let transcript = vec![
        TranscriptItem::AssistantDelta {
            text: "he".to_owned(),
        },
        TranscriptItem::TurnFailed {
            reason: "x".to_owned(),
        },
        TranscriptItem::ToolCall {
            name: "t".to_owned(),
            arguments: "{}".to_owned(),
        },
        TranscriptItem::ToolResult {
            name: "t".to_owned(),
            ok: true,
            content: "1".to_owned(),
        },
        message(Role::User, "hi"),
    ];
    assert_eq!(
        ChatMessage::from_transcript(&transcript),
        [text(Role::User, "hi")]
    );
}

// ----- the steps of a stream -----

#[test]
fn a_content_delta_steps_forward() {
    let step = step(r#"{"choices":[{"delta":{"content":"Hel"}}]}"#).unwrap();
    assert_eq!(step, Step::Delta("Hel".to_owned()));
}

#[test]
fn a_tool_call_delta_steps_into_fragments() {
    let step = step(
        r#"{"choices":[{"delta":{"tool_calls":[{"index":0,"id":"call_1","function":{"name":"f","arguments":"{\"a\""}}]}}]}"#,
    )
    .unwrap();
    assert!(
        matches!(step, Step::ToolCalls(ref f) if f.len() == 1),
        "{step:?}"
    );
}

#[test]
fn finish_reason_tool_calls_ends_the_speaking() {
    let step = step(r#"{"choices":[{"delta":{},"finish_reason":"tool_calls"}]}"#).unwrap();
    assert_eq!(step, Step::ToolsFinished);
}

fn assembled(payloads: &[&str]) -> Vec<ToolCall> {
    let mut calls = Calls::default();
    for payload in payloads {
        let Step::ToolCalls(fragments) = step(payload).unwrap() else {
            panic!("expected fragments");
        };
        calls.absorb(&fragments);
    }
    calls.finish()
}

/// The id and name arrive once per index; the arguments string
/// accumulates across as many fragments as the stream likes.
#[test]
fn fragmented_arguments_accumulate_into_one_call() {
    assert_eq!(
        assembled(&[
            r#"{"choices":[{"delta":{"tool_calls":[{"index":0,"id":"call_1","function":{"name":"f","arguments":""}}]}}]}"#,
            r#"{"choices":[{"delta":{"tool_calls":[{"index":0,"function":{"arguments":"{\"a\":"}}]}}]}"#,
            r#"{"choices":[{"delta":{"tool_calls":[{"index":0,"function":{"arguments":"1}"}}]}}]}"#,
        ]),
        [ToolCall {
            id: "call_1".to_owned(),
            name: "f".to_owned(),
            arguments: "{\"a\":1}".to_owned(),
        }]
    );
}

/// Two calls whose fragments interleave still come out whole, in
/// index order.
#[test]
fn interleaved_indexes_assemble_into_ordered_calls() {
    assert_eq!(
        assembled(&[
            r#"{"choices":[{"delta":{"tool_calls":[{"index":1,"id":"call_b","function":{"name":"beta","arguments":"{\"b\""}}]}}]}"#,
            r#"{"choices":[{"delta":{"tool_calls":[{"index":0,"id":"call_a","function":{"name":"alpha","arguments":"{}"}}]}}]}"#,
            r#"{"choices":[{"delta":{"tool_calls":[{"index":1,"function":{"arguments":":2}"}}]}}]}"#,
        ]),
        [
            ToolCall {
                id: "call_a".to_owned(),
                name: "alpha".to_owned(),
                arguments: "{}".to_owned(),
            },
            ToolCall {
                id: "call_b".to_owned(),
                name: "beta".to_owned(),
                arguments: "{\"b\":2}".to_owned(),
            },
        ]
    );
}

#[test]
fn a_role_announcement_is_housekeeping() {
    let step = step(r#"{"choices":[{"delta":{"role":"assistant"}}]}"#).unwrap();
    assert_eq!(step, Step::Skip);
}

#[test]
fn done_ends_the_stream() {
    assert_eq!(step("[DONE]").unwrap(), Step::Done);
}

#[test]
fn gibberish_is_a_malformed_stream_not_a_panic() {
    assert!(matches!(
        step("not json"),
        Err(ChatError::MalformedStream(_))
    ));
}

// ----- what reaches the transcript -----

#[test]
fn a_tool_call_item_pretty_prints_arguments_that_parse() {
    let item = TranscriptItem::tool_call(&ToolCall {
        id: "call_1".to_owned(),
        name: "f".to_owned(),
        arguments: r#"{"a":1}"#.to_owned(),
    });
    assert_eq!(
        item,
        TranscriptItem::ToolCall {
            name: "f".to_owned(),
            arguments: "{\n  \"a\": 1\n}".to_owned(),
        }
    );
}

#[test]
fn unparseable_arguments_reach_the_transcript_verbatim() {
    let item = TranscriptItem::tool_call(&ToolCall {
        id: "call_1".to_owned(),
        name: "f".to_owned(),
        arguments: "{\"a\":".to_owned(),
    });
    assert!(matches!(
        item,
        TranscriptItem::ToolCall { arguments, .. } if arguments == "{\"a\":"
    ));
}

#[test]
fn a_result_within_the_cap_is_kept_whole() {
    let item = TranscriptItem::tool_result("f", &Ok(json(r#"{ "a": 1 }"#)));
    assert_eq!(
        item,
        TranscriptItem::ToolResult {
            name: "f".to_owned(),
            ok: true,
            content: "{\n  \"a\": 1\n}".to_owned(),
        }
    );
}

#[test]
fn a_failed_result_carries_the_tools_words_and_is_not_ok() {
    let item = TranscriptItem::tool_result("f", &Err("no such day".to_owned()));
    assert_eq!(
        item,
        TranscriptItem::ToolResult {
            name: "f".to_owned(),
            ok: false,
            content: "no such day".to_owned(),
        }
    );
}

/// The boundary: exactly at the cap nothing is cut; one past it,
/// the transcript keeps the cap's worth plus an elision note.
#[test]
fn the_transcript_cap_cuts_only_past_the_boundary() {
    let at_cap = "x".repeat(TOOL_RESULT_CAP);
    let TranscriptItem::ToolResult { content, .. } =
        TranscriptItem::tool_result("f", &Err(at_cap.clone()))
    else {
        panic!("a result item");
    };
    assert_eq!(content, at_cap);

    let over = "x".repeat(TOOL_RESULT_CAP + 1);
    let TranscriptItem::ToolResult { content, .. } = TranscriptItem::tool_result("f", &Err(over))
    else {
        panic!("a result item");
    };
    assert_eq!(
        content,
        format!(
            "{}\n… (1 more characters elided)",
            "x".repeat(TOOL_RESULT_CAP)
        )
    );
}

#[test]
fn an_elision_counts_characters_and_not_bytes() {
    assert_eq!(elide("naïve", 5), "naïve");
    assert_eq!(elide("naïve", 3), "naï\n… (2 more characters elided)");
}

#[test]
fn the_apis_own_error_message_survives_verbatim() {
    let body = r#"{"error":{"message":"Your credit balance is too low.","type":"invalid_request_error"}}"#;
    assert_eq!(
        api_message("400 Bad Request", body),
        "Your credit balance is too low."
    );
    assert_eq!(api_message("500", "backend melted"), "backend melted");
    assert_eq!(api_message("502 Bad Gateway", "  "), "502 Bad Gateway");
}

#[test]
fn every_chat_error_has_words() {
    for (error, word) in [
        (ChatError::NoKey, "key"),
        (ChatError::Transport("no route".to_owned()), "no route"),
        (ChatError::Api("too low".to_owned()), "too low"),
        (ChatError::MalformedStream("what".to_owned()), "what"),
        (ChatError::ToolLoop { limit: 25 }, "25"),
    ] {
        assert!(error.to_string().contains(word), "{}", error.to_string());
    }
}

// ----- a whole reply, heard -----

/// Hears a stream to its end, as the host does over a socket.
fn hear(stream: &str) -> Result<(Reply, Vec<String>), ChatError> {
    let mut hearing = Hearing::default();
    let mut deltas = Vec::new();
    for line in stream.lines() {
        match hearing.line(line)? {
            Heard::Delta(delta) => deltas.push(delta),
            Heard::Nothing => {}
            Heard::Done => return Ok((hearing.finish(), deltas)),
        }
    }
    let (reply, heard) = hearing.cut_off()?;
    if let Heard::Delta(delta) = heard {
        deltas.push(delta);
    }
    Ok((reply, deltas))
}

#[test]
fn deltas_arrive_in_order_and_concatenate_into_the_reply() {
    let (reply, deltas) = hear(
        "data: {\"choices\":[{\"delta\":{\"role\":\"assistant\"}}]}\n\n\
         data: {\"choices\":[{\"delta\":{\"content\":\"Hel\"}}]}\n\n\
         data: {\"choices\":[{\"delta\":{\"content\":\"lo\"}}]}\n\n\
         data: [DONE]\n\n",
    )
    .unwrap();
    assert_eq!(deltas, ["Hel", "lo"]);
    assert_eq!(reply, Reply::Text("Hello".to_owned()));
}

#[test]
fn an_api_error_carries_the_bodys_message() {
    let body = r#"{"error":{"message":"Your credit balance is too low."}}"#;
    assert_eq!(
        refused("402 Payment Required", body),
        ChatError::Api("Your credit balance is too low.".to_owned())
    );
}

#[test]
fn gibberish_mid_stream_is_a_malformed_stream_error() {
    let error = hear("data: what protocol\n\n").unwrap_err();
    assert!(matches!(error, ChatError::MalformedStream(_)), "{error:?}");
}

#[test]
fn the_model_list_comes_back_in_the_apis_order_with_extra_fields_absorbed() {
    let body = r#"{"data":[{"id":"new","display_name":"New","type":"model","created_at":"2026-01-01T00:00:00Z"},{"id":"old","display_name":"Old"}],"has_more":false,"first_id":"new","last_id":"old"}"#;
    let listed = models(true, "200 OK", body).unwrap();
    assert_eq!(
        listed,
        [
            ModelInfo {
                id: "new".to_owned(),
                display_name: "New".to_owned(),
            },
            ModelInfo {
                id: "old".to_owned(),
                display_name: "Old".to_owned(),
            },
        ]
    );
}

#[test]
fn a_refused_model_list_carries_the_apis_words() {
    let body = r#"{"type":"error","error":{"type":"authentication_error","message":"invalid x-api-key"}}"#;
    assert_eq!(
        models(false, "401 Unauthorized", body),
        Err(ChatError::Api("invalid x-api-key".to_owned()))
    );
}

#[test]
fn a_model_list_of_another_shape_is_a_malformed_one() {
    assert!(matches!(
        models(true, "200 OK", "{\"data\":[{\"id\":7}]}"),
        Err(ChatError::MalformedStream(_))
    ));
    assert!(models(true, "200 OK", "not json").is_err());
    assert!(models_url("https://api.anthropic.com/v1").starts_with("https://api.anthropic.com/v1/models"));
}

#[test]
fn interleaved_fragmented_tool_calls_come_back_whole_and_ordered() {
    let (reply, deltas) = hear(
        r#"data: {"choices":[{"delta":{"tool_calls":[{"index":0,"id":"call_a","function":{"name":"alpha","arguments":"{\"a\""}}]}}]}

data: {"choices":[{"delta":{"tool_calls":[{"index":1,"id":"call_b","function":{"name":"beta","arguments":""}}]}}]}

data: {"choices":[{"delta":{"tool_calls":[{"index":0,"function":{"arguments":":1}"}},{"index":1,"function":{"arguments":"{}"}}]}}]}

data: {"choices":[{"delta":{},"finish_reason":"tool_calls"}]}

data: [DONE]

"#,
    )
    .unwrap();
    assert_eq!(deltas, Vec::<String>::new());
    assert_eq!(
        reply,
        Reply::ToolCalls(vec![
            ToolCall {
                id: "call_a".to_owned(),
                name: "alpha".to_owned(),
                arguments: "{\"a\":1}".to_owned(),
            },
            ToolCall {
                id: "call_b".to_owned(),
                name: "beta".to_owned(),
                arguments: "{}".to_owned(),
            },
        ])
    );
}

#[test]
fn a_truncated_stream_still_yields_what_it_said() {
    let (reply, _) = hear(
        "data: {\"choices\":[{\"delta\":{\"content\":\"Hel\"}}]}\n\ndata: {\"choices\":[{\"delta\":{\"content\":\"lo\"}}]}\n\n",
    )
    .unwrap();
    assert_eq!(reply, Reply::Text("Hello".to_owned()));

    let (reply, deltas) =
        hear("data: {\"choices\":[{\"delta\":{\"content\":\"tail\"}}]}").unwrap();
    assert_eq!(reply, Reply::Text("tail".to_owned()));
    assert_eq!(deltas, ["tail"], "the last event needs no blank line");
}

#[test]
fn garbage_json_is_a_malformed_stream_error() {
    let error = hear("data: {not json\n\n").unwrap_err();
    assert!(matches!(error, ChatError::MalformedStream(_)), "{error:?}");
}

#[test]
fn a_stopped_turn_keeps_the_text_so_far() {
    let mut hearing = Hearing::default();
    hearing
        .line("data: {\"choices\":[{\"delta\":{\"content\":\"Hel\"}}]}")
        .unwrap();
    hearing.line("").unwrap();
    assert_eq!(hearing.stopped(), Reply::Text("Hel".to_owned()));
}

// ----- the other client -----

/// Replays a stream through the decoding path. Every delta emitted must
/// add up to the assembled reply, whichever provider produced it.
fn replayed(stream: &str) -> Result<epik::chat::openai::Reply, String> {
    let mut log = Vec::new();
    let reply = replay(stream, &mut log)?;
    let emitted: String = log
        .iter()
        .map(|event| match event {
            ChatEvent::Delta { text } => text.as_str(),
            _ => "",
        })
        .collect();
    assert_eq!(emitted, reply.text);
    Ok(reply)
}

#[test]
fn a_stream_decodes_to_its_text_and_its_usage() {
    let reply = replayed(
        "data: {\"choices\":[{\"index\":0,\"delta\":{\"role\":\"assistant\",\"content\":\"\"}}]}\n\n\
         data: {\"choices\":[{\"index\":0,\"delta\":{\"content\":\"Hello\"}}]}\n\n\
         data: {\"choices\":[{\"index\":0,\"delta\":{\"content\":\", I'm Epik.\"},\"finish_reason\":\"stop\"}]}\n\n\
         data: {\"choices\":[],\"usage\":{\"prompt_tokens\":18,\"completion_tokens\":6,\"total_tokens\":24}}\n\n\
         data: [DONE]\n\n",
    )
    .unwrap();
    assert_eq!(reply.text, "Hello, I'm Epik.");
    assert_eq!(reply.usage, Some(Usage::tokens(18, 6)));
    assert!(reply.tool_calls.is_empty());
}

#[test]
fn a_mixed_stream_keeps_both_the_text_and_the_calls() {
    let stream = "data: {\"choices\":[{\"index\":0,\"delta\":\
                      {\"content\":\"Checking.\"},\"finish_reason\":null}]}\n\n\
                      data: {\"choices\":[{\"index\":0,\"delta\":{\"tool_calls\":\
                      [{\"index\":0,\"id\":\"call_1\",\"type\":\"function\",\
                      \"function\":{\"name\":\"look\",\"arguments\":\"{}\"}}]},\
                      \"finish_reason\":null}]}\n\n\
                      data: {\"choices\":[{\"index\":0,\"delta\":{},\
                      \"finish_reason\":\"tool_calls\"}]}\n\n\
                      data: [DONE]\n\n";
    let reply = replayed(stream).unwrap();
    assert_eq!(reply.text, "Checking.");
    assert_eq!(reply.tool_calls, [ToolCall::new("call_1", "look", "{}")]);
}

#[test]
fn a_stream_cut_off_mid_call_surrenders_no_torn_arguments() {
    // The finish reason never arrives, so the fragments never become
    // calls: half a JSON string is not something to hand a tool.
    let stream = "data: {\"choices\":[{\"index\":0,\"delta\":{\"tool_calls\":\
                      [{\"index\":0,\"id\":\"call_1\",\"type\":\"function\",\
                      \"function\":{\"name\":\"look\",\"arguments\":\"{\\\"ci\"}}]},\
                      \"finish_reason\":null}]}\n\n";
    let reply = replayed(stream).unwrap();
    assert!(reply.tool_calls.is_empty());
}

#[test]
fn a_provider_that_reports_a_mid_stream_error_fails_the_turn() {
    let stream = "data: {\"error\":{\"message\":\"context length exceeded\"}}\n\n";
    let error = replayed(stream).expect_err("an in-band error ends the turn");
    assert!(error.contains("context length exceeded"));
}

#[test]
fn a_chunk_carrying_fields_this_client_never_heard_of_still_decodes() {
    let stream = "data: {\"choices\":[{\"index\":0,\"logprobs\":null,\
                      \"delta\":{\"content\":\"ok\",\"reasoning\":\"thinking\"}}],\
                      \"a_field_from_next_year\":true}\n\n";
    assert_eq!(replayed(stream).unwrap().text, "ok");
}

#[test]
fn a_call_no_machine_can_count_to_is_refused() {
    let stream = "data: {\"choices\":[{\"delta\":{\"tool_calls\":[{\"index\":18446744073709551615,\"id\":\"x\"}]}}]}\n\n";
    assert_eq!(replayed(stream), Err(UNCOUNTABLE.to_owned()));
}

fn client(model: &str, tools: Vec<ToolDeclaration>) -> OpenAiCompatible {
    let provider = Provider {
        base_url: "http://localhost:11434/v1".to_owned(),
        model: model.to_owned(),
    };
    let mut client = OpenAiCompatible::new(&provider, None);
    client.use_tools(tools);
    client
}

#[test]
fn a_request_offering_no_tools_is_byte_for_byte_what_it_always_was() {
    assert_eq!(
        client("smollm2:135m", Vec::new()).request(&vec![Message::user("Hi")]),
        r#"{"model":"smollm2:135m","messages":[{"role":"user","content":"Hi"}],"stream":true,"stream_options":{"include_usage":true}}"#,
        "with no tools registered, today's providers see today's request"
    );
}

#[test]
fn a_request_offering_tools_declares_each_as_a_function() {
    let weather = ToolDeclaration {
        name: "get_weather".to_owned(),
        description: "Today's weather in a city.".to_owned(),
        parameters: json(
            r#"{
                "type": "object",
                "properties": { "city": { "type": "string" } },
                "required": ["city"]
            }"#,
        ),
    };
    assert_eq!(
        client("gpt-4o-mini", vec![weather]).request(&Vec::new()),
        // The schema's keys arrive alphabetized: an opaque value keeps its
        // entries in map order, and that is fine — JSON objects are
        // unordered, and only the request's own field order is promised.
        r#"{"model":"gpt-4o-mini","messages":[],"tools":[{"type":"function","function":{"name":"get_weather","description":"Today's weather in a city.","parameters":{"properties":{"city":{"type":"string"}},"required":["city"],"type":"object"}}}],"stream":true,"stream_options":{"include_usage":true}}"#
    );
}

#[test]
fn a_transcript_with_tool_traffic_serializes_as_a_provider_expects() {
    let ask = message_record(&Message::tool_calls(
        "",
        vec![ToolCall::new(
            "call_1",
            "get_weather",
            r#"{"city":"Paris"}"#,
        )],
    ));
    let answer = message_record(&Message::tool_result("call_1", "12°C, clearing"));
    assert_eq!(
        format!("[{ask},{answer}]"),
        r#"[{"role":"assistant","tool_calls":[{"id":"call_1","type":"function","function":{"name":"get_weather","arguments":"{\"city\":\"Paris\"}"}}]},{"role":"tool","tool_call_id":"call_1","content":"12°C, clearing"}]"#,
        "the ask and the answer round through the transcript, keyed by call id"
    );
}

#[test]
fn the_base_url_keeps_exactly_one_slash_before_the_path() {
    for base_url in ["http://localhost:11434/v1", "http://localhost:11434/v1/"] {
        let provider = Provider {
            base_url: base_url.to_owned(),
            model: "smollm2:135m".to_owned(),
        };
        assert_eq!(
            OpenAiCompatible::new(&provider, None).endpoint(),
            "http://localhost:11434/v1/chat/completions"
        );
    }
}

#[test]
fn a_key_is_presented_once_there_is_one() {
    let mut keyless = client("m", Vec::new());
    assert_eq!(keyless.authorization(), None);
    keyless.use_key(Some("k".to_owned()));
    assert_eq!(keyless.authorization().as_deref(), Some("Bearer k"));
    assert!(keyless
        .refused("404 Not Found", "no such model")
        .contains("no such model"));
}

// ----- the scripted model -----

fn words(words: &[&str]) -> Vec<String> {
    words.iter().map(|word| (*word).to_owned()).collect()
}

#[test]
fn running_out_of_script_is_an_error_rather_than_silence() {
    let error = Scripted::default()
        .reply(&Vec::new(), &mut Vec::new(), &StopToken::new())
        .expect_err("an unscripted turn is a test bug, and should say so");
    assert!(error.contains("no turn left"));
}

#[test]
fn a_scripted_model_plays_its_turns_in_order_and_remembers_what_it_saw() {
    let usage = Usage::tokens(3, 4);
    let mut model = Scripted::saying(words(&["Hel", "lo"]))
        .reporting(usage)
        .asking(vec![ToolCall::new("c", "f", "{}")])
        .then_saying(words(&["Done."]))
        .then_failing("overloaded");
    let mut log = Vec::new();
    let stop = StopToken::new();
    let first = model
        .reply(&vec![Message::user("Hi")], &mut log, &stop)
        .unwrap();
    assert_eq!(first.text, "Hello");
    assert_eq!(first.usage, Some(usage));
    assert_eq!(first.tool_calls, [ToolCall::new("c", "f", "{}")]);
    assert_eq!(
        log,
        [
            ChatEvent::Delta {
                text: "Hel".to_owned()
            },
            ChatEvent::Delta {
                text: "lo".to_owned()
            },
        ]
    );
    let second = model.reply(&Vec::new(), &mut log, &stop).unwrap();
    assert_eq!(second.text, "Done.");
    assert_eq!(second.usage, None);
    let error = model.reply(&Vec::new(), &mut log, &stop).unwrap_err();
    assert!(error.contains("overloaded"), "{error}");
    assert_eq!(model.seen().len(), 3);
    assert_eq!(model.seen()[0], [Message::user("Hi")]);
}

#[test]
fn a_stopped_turn_is_interrupted_before_it_speaks() {
    let mut model = Scripted::saying(words(&["Hel", "lo"]));
    let mut stop = StopToken::new();
    stop.stop();
    let mut log = Vec::new();
    let reply = model.reply(&Vec::new(), &mut log, &stop).unwrap();
    assert!(reply.interrupted);
    assert_eq!(reply.text, "");
    assert!(log.is_empty());
    assert_eq!(model.key(), None);
    model.use_key(Some("k".to_owned()));
    assert_eq!(model.key(), Some("k"));
}

// ----- the vocabularies on the wire -----

#[test]
fn usage_on_the_wire_is_unchanged_until_there_is_something_new_to_say() {
    // What every provider already sends still deserializes ...
    let old = Usage::read(&json(r#"{"prompt_tokens":18,"completion_tokens":6}"#))
        .expect("yesterday's wire shape still reads");
    assert_eq!(old, Usage::tokens(18, 6));
    // ... and a count with nothing new to say serializes without the new
    // keys, so yesterday's readers keep reading.
    assert_eq!(old.tell(), r#"{"prompt_tokens":18,"completion_tokens":6}"#);
}

#[test]
fn a_reported_cost_rides_along_as_fixed_point() {
    let usage = Usage {
        cache_tokens: Some(4),
        cost: Some(Money {
            micro_usd: 3_500_000,
        }),
        ..Usage::tokens(18, 6)
    };
    let told = usage.tell();
    assert!(told.contains(r#""micro_usd":3500000"#), "{told}");
    assert_eq!(Usage::read(&json(&told)), Some(usage));
}

#[test]
fn usage_adds_up_and_keeps_its_high_water() {
    let a = Usage {
        cost: Some(Money { micro_usd: 5 }),
        ..Usage::tokens(1, 2)
    };
    let b = Usage {
        cache_tokens: Some(9),
        ..Usage::tokens(3, 1)
    };
    assert_eq!(
        a.plus(b),
        Usage {
            prompt_tokens: 4,
            completion_tokens: 3,
            cache_tokens: Some(9),
            cost: Some(Money { micro_usd: 5 }),
        }
    );
    assert_eq!(a.max(b).prompt_tokens, 3);
    assert_eq!(a.max(b).completion_tokens, 2);
    assert_eq!(Usage::tokens(u32::MAX, u32::MAX).total_tokens(), 8_589_934_590);
}

/// A second vocabulary, standing in for the ones to come: the same sinks
/// have to serve it with no new code.
#[derive(Debug)]
enum Noise {
    Hum,
}

impl Wire for Noise {
    fn tell(&self) -> String {
        match self {
            Noise::Hum => "\"Hum\"".to_owned(),
        }
    }
}

#[test]
fn one_json_lines_serves_every_vocabulary() {
    let mut log = JsonLines::new(String::new());
    Log::emit(&mut log, Event::IssueStarted { id: 1 });
    Log::emit(&mut log, Noise::Hum);
    assert_eq!(
        log.into_inner(),
        "{\"IssueStarted\":{\"id\":1}}\n\"Hum\"\n"
    );
}

#[test]
fn silent_swallows_every_vocabulary() {
    Log::emit(&mut Silent, Event::IssueStarted { id: 1 });
    Log::emit(&mut Silent, Noise::Hum);
}

#[test]
fn enveloping_stamps_the_conversation_onto_every_event() {
    let mut log = Enveloping::new(ConversationId(7), Vec::<Envelope<Event>>::new());
    log.emit(Event::IssueStarted { id: 1 });
    log.emit(Event::IssueImplemented { id: 1 });
    assert_eq!(
        log.into_inner(),
        [
            Envelope {
                conversation: ConversationId(7),
                event: Event::IssueStarted { id: 1 }
            },
            Envelope {
                conversation: ConversationId(7),
                event: Event::IssueImplemented { id: 1 }
            },
        ]
    );
}

/// A `Log<Event>` is all the work being observed ever sees, so it can be
/// handed an enveloping sink without noticing.
fn observed<L: Log<Event>>(log: &mut L) {
    log.emit(Event::IssueStarted { id: 4 });
}

#[test]
fn what_emits_plain_events_needs_no_knowledge_of_the_envelope() {
    let mut log = Enveloping::new(ConversationId(0), Vec::<Envelope<Event>>::new());
    observed(&mut log);
    let collected = log.into_inner();

    assert_eq!(collected.len(), 1);
    assert_eq!(collected[0].conversation, ConversationId(0));
}

#[test]
fn an_envelope_is_told_with_its_conversation() {
    let envelope = Envelope {
        conversation: ConversationId(3),
        event: Event::IssueImplemented { id: 7 },
    };
    assert_eq!(
        envelope.tell(),
        r#"{"conversation":3,"event":{"IssueImplemented":{"id":7}}}"#
    );
}
