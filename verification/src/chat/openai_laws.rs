//! What holds of every turn over the chat-completions protocol: what is
//! asked, and what is assembled of the answer.

use crate::chat;
use crate::chat::laws;
use crate::chat::openai;
use crate::chat::openai::{
    Assembly, Choice, Chunk, Message, OpenAiCompatible, Provider, Reply, ToolDeclaration,
};
use crate::chat::sse;
use crate::chat::sse::Event;
use crate::chat::stream_laws;
use crate::chat::wire;
use crate::chat::wire::ToolCallFragment;
use crate::chat::ToolCall;
use crate::event::Usage;
use crate::json;
use crate::json::{Json, JsonView};
use crate::text;
use vstd::prelude::*;

verus! {

// ----- the vocabulary -----

/// Law: a call, and each message, holds what it was made of.
pub proof fn a_message_holds_what_it_was_made_of(
    id: &str,
    name: &str,
    content: &str,
    calls: Vec<ToolCall>,
    call: ToolCall,
    user: Message,
    asked: Message,
    answered: Message,
)
    requires
        call_ensures(ToolCall::new, (id, name, content), call),
        call_ensures(Message::user, (content,), user),
        call_ensures(Message::tool_calls, (content, calls), asked),
        call_ensures(Message::tool_result, (id, content), answered),
    ensures
        call.id@ == id@,
        call.name@ == name@,
        call.arguments@ == content@,
        user is User,
        user->User_content@ == content@,
        asked is Assistant,
        asked->Assistant_content@ == content@,
        asked->Assistant_tool_calls@.len() == calls@.len(),
        forall|k: int|
            0 <= k < calls@.len() ==> (#[trigger] asked->Assistant_tool_calls@[k])@ == calls@[k]@,
        answered is Tool,
        answered->tool_call_id@ == id@,
        answered->Tool_content@ == content@,
{
    let row = asked->Assistant_tool_calls@;
    assert(chat::call_views(row).len() == row.len());
    assert(chat::call_views(calls@).len() == calls@.len());
    assert forall|k: int| 0 <= k < calls@.len() implies (#[trigger] row[k])@ == calls@[k]@ by {
        assert(chat::call_views(row)[k] == chat::call_views(calls@)[k]);
    }
}

// ----- the request -----

/// Whether a text says words under the name of who said them.
pub open spec fn says(said: Seq<char>, role: Seq<char>, content: Seq<char>) -> bool {
    said == laws::object(
        seq![
            laws::member("role"@, laws::quoted(role)),
            laws::member("content"@, laws::quoted(content)),
        ],
    )
}

/// Whether a text says what a message says. An assistant that only asked
/// for tools has no content, and one that only spoke no calls.
pub open spec fn says_message(said: Seq<char>, message: Message) -> bool {
    match message {
        Message::System { content } => says(said, "system"@, content@),
        Message::User { content } => says(said, "user"@, content@),
        Message::Assistant { content, tool_calls } => if tool_calls@.len() == 0 {
            says(said, "assistant"@, content@)
        } else {
            exists|row: Seq<Seq<char>>|
                {
                    let asked = laws::member("tool_calls"@, #[trigger] laws::array(row));
                    &&& said == laws::object(
                        if content@.len() == 0 {
                            seq![laws::member("role"@, laws::quoted("assistant"@)), asked]
                        } else {
                            seq![
                                laws::member("role"@, laws::quoted("assistant"@)),
                                laws::member("content"@, laws::quoted(content@)),
                                asked,
                            ]
                        },
                    )
                    &&& row.len() == tool_calls@.len()
                    &&& forall|k: int|
                        0 <= k < row.len() ==> laws::asks_for(#[trigger] row[k], tool_calls@[k])
                }
        },
        Message::Tool { tool_call_id, content } => said == laws::object(
            seq![
                laws::member("role"@, laws::quoted("tool"@)),
                laws::member("tool_call_id"@, laws::quoted(tool_call_id@)),
                laws::member("content"@, laws::quoted(content@)),
            ],
        ),
    }
}

/// Law: a message is said under the name of who said it, with its own
/// words, its own calls, or the call it answers.
pub proof fn a_message_is_said_by_who_said_it(message: &Message, r: String)
    requires
        call_ensures(openai::message_record, (message,), r),
    ensures
        says_message(r@, *message),
{
    a_message_says(*message);
}

proof fn a_message_says(message: Message)
    ensures
        says_message(openai::message_text(message@), message),
{
    match message {
        Message::System { content } => {
            laws::two_members(
                ("role"@, laws::quoted("system"@)),
                ("content"@, laws::quoted(content@)),
            );
        },
        Message::User { content } => {
            laws::two_members(
                ("role"@, laws::quoted("user"@)),
                ("content"@, laws::quoted(content@)),
            );
        },
        Message::Assistant { content, tool_calls } => {
            let row = wire::call_texts(chat::call_views(tool_calls@));
            assert forall|k: int| 0 <= k < row.len() implies laws::asks_for(
                #[trigger] row[k],
                tool_calls@[k],
            ) by {
                laws::a_call_is_asked_for(tool_calls@[k]);
            }
            laws::two_members(
                ("role"@, laws::quoted("assistant"@)),
                ("content"@, laws::quoted(content@)),
            );
            laws::two_members(
                ("role"@, laws::quoted("assistant"@)),
                ("tool_calls"@, laws::array(row)),
            );
            laws::three_members(
                ("role"@, laws::quoted("assistant"@)),
                ("content"@, laws::quoted(content@)),
                ("tool_calls"@, laws::array(row)),
            );
        },
        Message::Tool { tool_call_id, content } => {
            laws::three_members(
                ("role"@, laws::quoted("tool"@)),
                ("tool_call_id"@, laws::quoted(tool_call_id@)),
                ("content"@, laws::quoted(content@)),
            );
        },
    }
}

/// Whether a text offers a tool: its name, what it is for, and what it
/// takes.
pub open spec fn offers(said: Seq<char>, tool: ToolDeclaration) -> bool {
    said == laws::object(
        seq![
            laws::member("type"@, laws::quoted("function"@)),
            laws::member(
                "function"@,
                laws::object(
                    seq![
                        laws::member("name"@, laws::quoted(tool.name@)),
                        laws::member("description"@, laws::quoted(tool.description@)),
                        laws::member("parameters"@, json::written_as(tool.parameters@)),
                    ],
                ),
            ),
        ],
    )
}

proof fn a_tool_is_offered(tool: ToolDeclaration)
    ensures
        offers(openai::tool_text(tool), tool),
{
    laws::three_members(
        ("name"@, laws::quoted(tool.name@)),
        ("description"@, laws::quoted(tool.description@)),
        ("parameters"@, json::written_as(tool.parameters@)),
    );
    laws::two_members(
        ("type"@, laws::quoted("function"@)),
        (
            "function"@,
            json::record_text(
                seq![
                    ("name"@, wire::string_text(tool.name@)),
                    ("description"@, wire::string_text(tool.description@)),
                    ("parameters"@, json::written_as(tool.parameters@)),
                ],
            ),
        ),
    );
}

/// Whether a request's text is made of these messages and these tools.
pub open spec fn is_made_of(
    request: Seq<char>,
    model: Seq<char>,
    said: Seq<Seq<char>>,
    offered: Seq<Seq<char>>,
) -> bool {
    let model = laws::member("model"@, laws::quoted(model));
    let messages = laws::member("messages"@, laws::array(said));
    let streamed = laws::member("stream"@, "true"@);
    let counted = laws::member(
        "stream_options"@,
        laws::object(seq![laws::member("include_usage"@, "true"@)]),
    );
    request == laws::object(
        if offered.len() == 0 {
            seq![model, messages, streamed, counted]
        } else {
            seq![
                model,
                messages,
                laws::member("tools"@, laws::array(offered)),
                streamed,
                counted,
            ]
        },
    )
}

/// Law: a request is for the model, streamed, with its usage counted; it
/// carries every message of the transcript in its order, and offers every
/// tool in its order, or does not speak of tools where there is none.
pub proof fn a_request_carries_the_transcript(
    model: &str,
    messages: &Vec<Message>,
    tools: &Vec<ToolDeclaration>,
    r: String,
)
    requires
        call_ensures(openai::request, (model, messages, tools), r),
    ensures
        exists|said: Seq<Seq<char>>, offered: Seq<Seq<char>>|
            {
                &&& #[trigger] is_made_of(r@, model@, said, offered)
                &&& said.len() == messages@.len()
                &&& forall|k: int|
                    0 <= k < messages@.len() ==> says_message(said[k], #[trigger] messages@[k])
                &&& offered.len() == tools@.len()
                &&& forall|k: int|
                    0 <= k < tools@.len() ==> offers(offered[k], #[trigger] tools@[k])
            },
{
    let said = openai::message_texts(openai::message_views(messages@));
    let offered = openai::tool_texts(tools@);
    assert forall|k: int| 0 <= k < messages@.len() implies says_message(
        said[k],
        #[trigger] messages@[k],
    ) by {
        a_message_says(messages@[k]);
    }
    assert forall|k: int| 0 <= k < tools@.len() implies offers(
        offered[k],
        #[trigger] tools@[k],
    ) by {
        a_tool_is_offered(tools@[k]);
    }
    let counted = json::record_text(seq![("include_usage"@, "true"@)]);
    laws::a_record_is_its_members(seq![("include_usage"@, "true"@)]);
    assert(Seq::new(
        1,
        |i: int|
            laws::member(
                seq![("include_usage"@, "true"@)][i].0,
                seq![("include_usage"@, "true"@)][i].1,
            ),
    ) =~= seq![laws::member("include_usage"@, "true"@)]);
    let plain = seq![
        ("model"@, laws::quoted(model@)),
        ("messages"@, laws::array(said)),
        ("stream"@, "true"@),
        ("stream_options"@, counted),
    ];
    let offering = seq![
        ("model"@, laws::quoted(model@)),
        ("messages"@, laws::array(said)),
        ("tools"@, laws::array(offered)),
        ("stream"@, "true"@),
        ("stream_options"@, counted),
    ];
    let fields = if tools@.len() == 0 {
        plain
    } else {
        offering
    };
    let opened = seq![
        ("model"@, laws::quoted(model@)),
        ("messages"@, laws::array(said)),
    ];
    assert(opened.push(("stream"@, "true"@)).push(("stream_options"@, counted)) =~= plain);
    assert(opened.push(("tools"@, laws::array(offered))).push(("stream"@, "true"@)).push(
        ("stream_options"@, counted),
    ) =~= offering);
    assert(r@ == json::record_text(fields));
    laws::a_record_is_its_members(fields);
    let members = Seq::new(fields.len(), |i: int| laws::member(fields[i].0, fields[i].1));
    if tools@.len() == 0 {
        assert(members =~= seq![
            laws::member("model"@, laws::quoted(model@)),
            laws::member("messages"@, laws::array(said)),
            laws::member("stream"@, "true"@),
            laws::member("stream_options"@, counted),
        ]);
    } else {
        assert(members =~= seq![
            laws::member("model"@, laws::quoted(model@)),
            laws::member("messages"@, laws::array(said)),
            laws::member("tools"@, laws::array(offered)),
            laws::member("stream"@, "true"@),
            laws::member("stream_options"@, counted),
        ]);
    }
    assert(is_made_of(r@, model@, said, offered));
}

/// Law: a client asks its provider: under the provider's own base, for the
/// provider's own model, with its own key where it has one.
pub proof fn a_client_asks_its_provider(
    provider: &Provider,
    key: Option<String>,
    client: &OpenAiCompatible,
    endpoint: &str,
    header: Option<String>,
    status: &str,
    body: &str,
    refusal: String,
)
    requires
        call_ensures(OpenAiCompatible::new, (provider, key), *client),
        call_ensures(OpenAiCompatible::endpoint, (client,), endpoint),
        call_ensures(OpenAiCompatible::authorization, (client,), header),
        call_ensures(OpenAiCompatible::refused, (client, status, body), refusal),
    ensures
        laws::lies_under(endpoint@, provider.base_url@, "/chat/completions"@),
        header is Some <==> key is Some,
        key is Some ==> (header->0)@ == "Bearer "@ + (key->0)@,
        refusal@ == endpoint@ + " refused with "@ + status@ + ": "@ + text::trimmed(body@),
{
    laws::a_path_lies_under_its_base(provider.base_url@, "/chat/completions"@);
}

/// Law: a client that was offered no tools requests a reply from its own
/// model to that transcript, and offers none.
pub proof fn a_client_requests_a_reply_to_the_transcript(
    provider: &Provider,
    key: Option<String>,
    client: &OpenAiCompatible,
    transcript: &Vec<Message>,
    none: &Vec<ToolDeclaration>,
    model: &str,
    r: String,
    plain: String,
)
    requires
        call_ensures(OpenAiCompatible::new, (provider, key), *client),
        call_ensures(OpenAiCompatible::request, (client, transcript), r),
        none@.len() == 0,
        model@ == provider.model@,
        call_ensures(openai::request, (model, transcript, none), plain),
    ensures
        r@ == plain@,
{
    assert(none@ =~= Seq::empty());
}

// ----- what comes back -----

/// Whether a fragment is what an object says of one; one without an index
/// is of the first call.
pub open spec fn fragment_tells(read: ToolCallFragment, value: JsonView) -> bool {
    &&& value.get("index"@) is None ==> read.index == 0
    &&& value.get("index"@) is Some ==> value.get("index"@) == Some(
        JsonView::Whole(read.index as nat),
    )
    &&& stream_laws::tells(read.id, value.get("id"@))
    &&& value.get("function"@) is Some && value.get("function"@)->0 is Object ==> {
        let function = value.get("function"@)->0;
        &&& stream_laws::tells(read.name, function.get("name"@))
        &&& stream_laws::tells(read.arguments, function.get("arguments"@))
    }
    &&& value.get("function"@) is None ==> read.name is None && read.arguments is None
}

/// Whether a choice is what an object says of one.
pub open spec fn choice_tells(read: Choice, value: JsonView) -> bool {
    &&& stream_laws::tells(read.finish_reason, value.get("finish_reason"@))
    &&& value.get("delta"@) is None ==> read.content is None && read.tool_calls@.len() == 0
    &&& value.get("delta"@) is Some && value.get("delta"@)->0 is Object ==> {
        let delta = value.get("delta"@)->0;
        &&& stream_laws::tells(read.content, delta.get("content"@))
        &&& delta.get("tool_calls"@) is None ==> read.tool_calls@.len() == 0
        &&& delta.get("tool_calls"@) is Some ==> {
            let row = (delta.get("tool_calls"@)->0)->Array_0;
            &&& delta.get("tool_calls"@)->0 is Array
            &&& read.tool_calls@.len() == row.len()
            &&& forall|k: int|
                0 <= k < row.len() && (#[trigger] row[k]) is Object ==> fragment_tells(
                    read.tool_calls@[k],
                    row[k],
                )
        }
    }
}

proof fn every_fragment_is_read(items: Seq<JsonView>)
    ensures
        match openai::fragments_of(items) {
            Some(fragments) => fragments.len() == items.len() && forall|k: int|
                0 <= k < items.len() ==> openai::fragment_of(#[trigger] items[k]) == Some(
                    fragments[k],
                ),
            None => true,
        },
    decreases items.len(),
{
    if items.len() > 0 {
        every_fragment_is_read(items.drop_last());
        if openai::fragments_of(items) is Some {
            assert forall|k: int| 0 <= k < items.len() implies openai::fragment_of(
                #[trigger] items[k],
            ) == Some(openai::fragments_of(items)->0[k]) by {
                if k < items.len() - 1 {
                    assert(items.drop_last()[k] == items[k]);
                }
            }
        }
    }
}

proof fn every_choice_is_read(items: Seq<JsonView>)
    ensures
        match openai::choices_of(items) {
            Some(choices) => choices.len() == items.len() && forall|k: int|
                0 <= k < items.len() ==> openai::choice_of(#[trigger] items[k]) == Some(
                    choices[k],
                ),
            None => true,
        },
    decreases items.len(),
{
    if items.len() > 0 {
        every_choice_is_read(items.drop_last());
        if openai::choices_of(items) is Some {
            assert forall|k: int| 0 <= k < items.len() implies openai::choice_of(
                #[trigger] items[k],
            ) == Some(openai::choices_of(items)->0[k]) by {
                if k < items.len() - 1 {
                    assert(items.drop_last()[k] == items[k]);
                }
            }
        }
    }
}

proof fn a_choice_tells(read: Choice, value: JsonView)
    requires
        openai::choice_of(value) == Some(read@),
        value is Object,
    ensures
        choice_tells(read, value),
{
    let fragments = read.tool_calls@;
    assert(wire::fragment_views(fragments).len() == fragments.len());
    if value.get("delta"@) is Some && value.get("delta"@)->0 is Object {
        let delta = value.get("delta"@)->0;
        if delta.get("tool_calls"@) is Some {
            let row = (delta.get("tool_calls"@)->0)->Array_0;
            every_fragment_is_read(row);
            assert forall|k: int| 0 <= k < row.len() && (#[trigger] row[k]) is Object implies
                fragment_tells(fragments[k], row[k]) by {
                assert(wire::fragment_views(fragments)[k] == fragments[k]@);
                assert(openai::fragment_of(row[k]) == Some(fragments[k]@));
            }
        }
    }
}

/// Law: a chunk holds every choice the value lists, in order, and each says
/// what its object says; the usage is the one the value reports. A chunk in
/// which the provider reports an error is none: the error is told.
pub proof fn a_chunk_is_read_choice_by_choice(
    value: &Json,
    payload: &str,
    r: Result<Chunk, String>,
    usage: Option<Usage>,
    reported: &Json,
)
    requires
        call_ensures(Chunk::of, (value, payload), r),
        value@ is Object,
        call_ensures(Usage::read, (reported,), usage),
    ensures
        r is Ok ==> {
            &&& value@.get("error"@) is None || value@.get("error"@) == Some(JsonView::Null)
            &&& value@.get("choices"@) is None ==> r->Ok_0.choices@.len() == 0
            &&& value@.get("choices"@) is Some ==> {
                let items = (value@.get("choices"@)->0)->Array_0;
                &&& value@.get("choices"@)->0 is Array
                &&& r->Ok_0.choices@.len() == items.len()
                &&& forall|k: int|
                    0 <= k < items.len() && (#[trigger] items[k]) is Object ==> choice_tells(
                        r->Ok_0.choices@[k],
                        items[k],
                    )
            }
            &&& value@.get("usage"@) is None || value@.get("usage"@) == Some(JsonView::Null)
                ==> r->Ok_0.usage is None
            &&& value@.get("usage"@) == Some(reported@) && !(reported@ is Null)
                ==> r->Ok_0.usage is Some && r->Ok_0.usage == usage
        },
        r is Err ==> r->Err_0@ == "decoding a chunk of the reply: "@ + payload@ || (
        value@.get("error"@) is Some && r->Err_0@
            == "the provider reported an error mid-stream: "@ + json::written_as(
            value@.get("error"@)->0,
        )),
{
    if r is Ok && value@.get("choices"@) is Some {
        let items = (value@.get("choices"@)->0)->Array_0;
        let choices = r->Ok_0.choices@;
        every_choice_is_read(items);
        assert(openai::choice_views(choices).len() == choices.len());
        assert forall|k: int| 0 <= k < items.len() && (#[trigger] items[k]) is Object implies
            choice_tells(choices[k], items[k]) by {
            assert(openai::choice_views(choices)[k] == choices[k]@);
            a_choice_tells(choices[k], items[k]);
        }
    }
    if r is Ok && value@.get("choices"@) is None {
        assert(openai::choice_views(r->Ok_0.choices@).len() == r->Ok_0.choices@.len());
    }
}

/// Law: a value whose choices are of words, with no error in it and no
/// usage, is a chunk.
pub proof fn a_chunk_of_words_is_read(
    value: &Json,
    payload: &str,
    items: Seq<JsonView>,
    r: Result<Chunk, String>,
)
    requires
        call_ensures(Chunk::of, (value, payload), r),
        value@ is Object,
        value@.get("error"@) is None,
        value@.get("usage"@) is None,
        value@.get("choices"@) == Some(JsonView::Array(items)),
        forall|k: int|
            0 <= k < items.len() ==> {
                &&& (#[trigger] items[k]) is Object
                &&& items[k].get("delta"@) is Some
                &&& items[k].get("delta"@)->0 is Object
                &&& items[k].get("delta"@)->0.get("content"@) is Some
                &&& items[k].get("delta"@)->0.get("content"@)->0 is Text
                &&& items[k].get("delta"@)->0.get("tool_calls"@) is None
                &&& items[k].get("finish_reason"@) is None
            },
    ensures
        r is Ok,
{
    words_are_choices(items);
}

proof fn words_are_choices(items: Seq<JsonView>)
    requires
        forall|k: int|
            0 <= k < items.len() ==> {
                &&& (#[trigger] items[k]) is Object
                &&& items[k].get("delta"@) is Some
                &&& items[k].get("delta"@)->0 is Object
                &&& items[k].get("delta"@)->0.get("content"@) is Some
                &&& items[k].get("delta"@)->0.get("content"@)->0 is Text
                &&& items[k].get("delta"@)->0.get("tool_calls"@) is None
                &&& items[k].get("finish_reason"@) is None
            },
    ensures
        openai::choices_of(items) is Some,
    decreases items.len(),
{
    if items.len() > 0 {
        let front = items.drop_last();
        assert forall|k: int| 0 <= k < front.len() implies {
            &&& (#[trigger] front[k]) is Object
            &&& front[k].get("delta"@) is Some
            &&& front[k].get("delta"@)->0 is Object
            &&& front[k].get("delta"@)->0.get("content"@) is Some
            &&& front[k].get("delta"@)->0.get("content"@)->0 is Text
            &&& front[k].get("delta"@)->0.get("tool_calls"@) is None
            &&& front[k].get("finish_reason"@) is None
        } by {
            assert(front[k] == items[k]);
        }
        words_are_choices(front);
        assert(items[items.len() - 1] is Object);
    }
}

/// Law: a payload is the end of the stream just when it is the sentinel;
/// any other is the chunk its value is, and one that is no JSON is quoted
/// in the words of the failure.
pub proof fn a_payload_is_the_chunk_its_value_is(
    payload: &str,
    r: Result<Option<Chunk>, String>,
    value: &Json,
    chunk: Result<Chunk, String>,
)
    requires
        call_ensures(Chunk::decode, (payload,), r),
        call_ensures(Chunk::of, (value, payload), chunk),
    ensures
        (r is Ok && r->Ok_0 is None) <==> text::trimmed(payload@) == "[DONE]"@,
        text::trimmed(payload@) != "[DONE]"@ && json::read_as(payload@) is Err ==> r is Err
            && r->Err_0@ == "decoding a chunk of the reply: "@ + payload@,
        text::trimmed(payload@) != "[DONE]"@ && json::read_as(payload@) == Ok::<
            JsonView,
            Seq<char>,
        >(value@) ==> {
            &&& r is Ok <==> chunk is Ok
            &&& r is Ok ==> (r->Ok_0->0)@ == chunk->Ok_0@
            &&& r is Err ==> r->Err_0@ == chunk->Err_0@
        },
{
}

/// Law: what is assembled of one more chunk of one choice is the text
/// before and then what the choice says; the newest usage that was
/// reported; and that it asks for tools once any choice said so.
pub proof fn a_chunk_adds_what_it_says(
    assembly: openai::AssemblyView,
    choice: openai::ChoiceView,
    usage: Option<Usage>,
)
    ensures
        ({
            let chunk = openai::ChunkView { choices: seq![choice], usage };
            let after = assembly.absorbed(chunk);
            &&& choice.content is Some ==> after.text == assembly.text + choice.content->0
            &&& choice.content is None ==> after.text == assembly.text
            &&& usage is Some ==> after.usage == usage
            &&& usage is None ==> after.usage == assembly.usage
            &&& after.interrupted == assembly.interrupted
            &&& after.asked_for_tools <==> assembly.asked_for_tools || choice.finish_reason == Some(
                "tool_calls"@,
            )
            &&& choice.tool_calls.len() == 0 ==> after.calls == assembly.calls
        }),
{
    let row = seq![choice];
    assert(row.drop_last() =~= Seq::empty());
    assert(row.last() == choice);
    reveal_with_fuel(openai::said, 2);
    reveal_with_fuel(openai::called, 2);
    reveal_with_fuel(openai::gathered, 1);
    assert(openai::said(row) =~= openai::saying(choice.content));
    assert(assembly.text + Seq::empty() =~= assembly.text);
    assert(row[0] == choice);
    if choice.finish_reason == Some("tool_calls"@) {
        assert(openai::asks(row));
    }
}

/// Law: a fragment goes to the call of its own index, after what that call
/// had, and leaves every other call as it was.
pub proof fn a_fragment_goes_to_its_own_call(
    calls: Seq<chat::ToolCallView>,
    fragment: wire::FragmentView,
    k: int,
)
    ensures
        ({
            let after = openai::touched(calls, fragment);
            let at = fragment.index as int;
            let had = |s: Option<Seq<char>>, before: Seq<char>, now: Seq<char>|
                now == (if s is Some {
                    before + s->0
                } else {
                    before
                });
            &&& after.len() == (if calls.len() > at {
                calls.len() as int
            } else {
                at + 1
            })
            &&& 0 <= k < calls.len() && k != at ==> after[k] == calls[k]
            &&& at < calls.len() ==> had(fragment.id, calls[at].id, after[at].id)
            &&& at < calls.len() ==> had(fragment.name, calls[at].name, after[at].name)
            &&& at < calls.len() ==> had(
                fragment.arguments,
                calls[at].arguments,
                after[at].arguments,
            )
            &&& at >= calls.len() ==> had(fragment.id, Seq::empty(), after[at].id)
            &&& at >= calls.len() ==> had(fragment.name, Seq::empty(), after[at].name)
            &&& at >= calls.len() ==> had(fragment.arguments, Seq::empty(), after[at].arguments)
        }),
{
    let at = fragment.index as int;
    let call = openai::roomy(calls, fragment.index + 1)[at];
    assert(call.id + Seq::empty() =~= call.id);
    assert(call.name + Seq::empty() =~= call.name);
    assert(call.arguments + Seq::empty() =~= call.arguments);
}

/// Law: a finished turn is all the text that came, and the calls just where
/// the turn said it asked for them.
pub proof fn a_finished_turn_is_what_came(assembly: Assembly, r: Reply)
    requires
        call_ensures(Assembly::finish, (assembly,), r),
    ensures
        r.text@ == assembly@.text,
        r.usage == assembly@.usage,
        r.interrupted == assembly@.interrupted,
        !assembly@.asked_for_tools ==> r.tool_calls@.len() == 0,
        assembly@.asked_for_tools ==> r.tool_calls@.len() == assembly@.calls.len() && forall|k: int|
            0 <= k < r.tool_calls@.len() ==> (#[trigger] r.tool_calls@[k])@ == assembly@.calls[k],
{
    let calls = r.tool_calls@;
    assert(chat::call_views(calls).len() == calls.len());
    assert forall|k: int| 0 <= k < calls.len() && assembly@.asked_for_tools implies (
    #[trigger] calls[k])@ == assembly@.calls[k] by {
        assert(chat::call_views(calls)[k] == calls[k]@);
    }
}

// ----- the framing -----

/// Law: a line of data is kept without what frames it, after what the event
/// already had and on a line of its own; a comment, and a field this client
/// does not care for, change nothing; a blank line dispatches what there
/// is.
pub proof fn an_event_is_its_data(pending: Option<Seq<char>>, data: Seq<char>)
    requires
        data.len() > 0 ==> data.last() != '\n' && data.last() != '\r',
    ensures
        sse::framed_line(pending, "data: "@ + data) == (
            Some(
                if pending is Some {
                    pending->0 + "\n"@ + data
                } else {
                    data
                },
            ),
            None::<Seq<char>>,
        ),
        sse::framed_line(pending, Seq::empty()) == (None::<Seq<char>>, pending),
        sse::framed_line(pending, "\r\n"@) == (None::<Seq<char>>, pending),
        sse::framed_line(pending, ":"@ + data) == (pending, None::<Seq<char>>),
        sse::framed_line(pending, "event: "@ + data) == (pending, None::<Seq<char>>),
{
    reveal_strlit("data: ");
    reveal_strlit("data");
    reveal_strlit("event: ");
    reveal_strlit("event");
    reveal_strlit(":");
    reveal_strlit("\r\n");
    let line = "data: "@ + data;
    assert(line.last() != '\n' && line.last() != '\r');
    text::first_of_goes_on(line, ':', 0);
    text::found_first(line, ':', 4);
    assert(line.take(4) =~= "data"@);
    assert(line.skip(5) =~= seq![' '] + data);
    assert((seq![' '] + data)[0] == ' ');
    assert((seq![' '] + data).skip(1) =~= data);
    let comment = ":"@ + data;
    assert(comment.last() != '\n' && comment.last() != '\r');
    let named = "event: "@ + data;
    assert(named.last() != '\n' && named.last() != '\r');
    text::found_first(named, ':', 5);
    assert(named.take(5) =~= "event"@);
    assert("event"@.len() != "data"@.len());
    let blank = "\r\n"@;
    assert(blank.drop_last().drop_last() =~= Seq::empty());
    reveal_with_fuel(sse::bare, 3);
}

proof fn lines_after_an_event(first: Seq<Seq<char>>, more: Seq<Seq<char>>)
    requires
        sse::framed_lines(first).0 is None,
    ensures
        sse::framed_lines(first + more).1 == sse::framed_lines(first).1 + sse::framed_lines(more).1,
        sse::framed_lines(first + more).0 == sse::framed_lines(more).0,
    decreases more.len(),
{
    let none = Seq::<Seq<char>>::empty();
    if more.len() == 0 {
        assert(first + more =~= first);
        assert(sse::framed_lines(first).1 + none =~= sse::framed_lines(first).1);
    } else {
        lines_after_an_event(first, more.drop_last());
        assert((first + more).drop_last() =~= first + more.drop_last());
        assert((first + more).last() == more.last());
        assert(sse::framed_lines(first + more).1 =~= sse::framed_lines(first).1
            + sse::framed_lines(more).1);
    }
}

/// Law: a stream that opens with one event is that event, with its data
/// and nothing of what frames it, and then the events of the rest.
pub proof fn a_stream_is_its_events_in_order(
    stream: &str,
    rest: &str,
    data: Seq<char>,
    r: Vec<Event>,
    after: Vec<Event>,
)
    requires
        call_ensures(sse::events, (stream,), r),
        call_ensures(sse::events, (rest,), after),
        stream@ == "data: "@ + data + "\n\n"@ + rest@,
        !data.contains('\n'),
        data.len() > 0 ==> data.last() != '\r',
    ensures
        r@.len() == after@.len() + 1,
        r@[0].data@ == data,
        forall|k: int| 0 <= k < after@.len() ==> r@[k + 1].data@ == (#[trigger] after@[k]).data@,
{
    reveal_strlit("data: ");
    reveal_strlit("\n\n");
    let line = "data: "@ + data;
    let n = line.len() as int;
    let whole = stream@;
    assert(whole[n] == '\n');
    assert(whole[n + 1] == '\n');
    assert forall|i: int| 0 <= i < n implies #[trigger] whole[i] != '\n' by {
        if i >= 6 {
            assert(whole[i] == data[i - 6]);
            assert(data.contains(data[i - 6]));
        } else {
            assert(whole[i] == "data: "@[i]);
        }
    }
    text::found_first(whole, '\n', n);
    let first = whole.take(n + 1);
    let blank = whole.skip(n + 1);
    assert(first =~= line.push('\n'));
    assert(blank[0] == '\n');
    text::found_first(blank, '\n', 0);
    assert(blank.take(1) =~= seq!['\n']);
    assert(blank.skip(1) =~= rest@);
    let more = sse::raw_lines(rest@);
    let opening = seq![first, seq!['\n']];
    assert(sse::raw_lines(whole) == seq![first] + sse::raw_lines(blank));
    assert(sse::raw_lines(blank) == seq![blank.take(1)] + sse::raw_lines(blank.skip(1)));
    assert(sse::raw_lines(whole) =~= opening + more);
    assert(first.drop_last() =~= line);
    assert(line.last() != '\n' && line.last() != '\r') by {
        if data.len() > 0 {
            assert(line.last() == data.last());
            assert(data.contains(data[data.len() - 1]));
        }
    }
    reveal_with_fuel(sse::bare, 2);
    assert(sse::bare(first) == line);
    assert(seq!['\n'].drop_last() =~= Seq::empty());
    assert(sse::bare(seq!['\n']) =~= Seq::empty());
    an_event_is_its_data(None, data);
    assert(sse::bare(line) == line);
    assert(sse::framed_line(None, first) == (Some(data), None::<Seq<char>>));
    assert(sse::framed_line(Some(data), seq!['\n']) == (None::<Seq<char>>, Some(data)));
    reveal_with_fuel(sse::framed_lines, 3);
    let one = opening.drop_last();
    assert(one.drop_last() =~= Seq::empty());
    assert(one.last() == first);
    assert(opening.last() == seq!['\n']);
    assert(sse::framed_lines(one) == (Some(data), Seq::<Seq<char>>::empty()));
    assert(sse::framed_lines(opening).0 is None);
    assert(sse::framed_lines(opening).1 =~= seq![data]);
    lines_after_an_event(opening, more);
    let all = sse::data_of(r@);
    let later = sse::data_of(after@);
    assert(all =~= seq![data] + later);
    assert(all.len() == r@.len());
    assert(later.len() == after@.len());
    assert(all[0] == r@[0].data@);
    assert forall|k: int| 0 <= k < after@.len() implies r@[k + 1].data@ == (
    #[trigger] after@[k]).data@ by {
        assert(all[k + 1] == later[k]);
    }
}

} // verus!
