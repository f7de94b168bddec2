//! What holds of every conversation: what goes out on the wire of what was
//! said, and what is heard of what comes back.

use crate::chat;
use crate::chat::stream;
use crate::chat::wire;
use crate::chat::{ChatError, ChatMessage, Client, ToolCall, ToolSpec, TranscriptItem};
use crate::json;
use crate::json::{Json, JsonView};
use crate::keystore::Secret;
use crate::text;
use vstd::prelude::*;

verus! {

// ----- the transcript -----

/// The utterances of a transcript.
pub open spec fn utterances(transcript: Seq<TranscriptItem>) -> Seq<TranscriptItem> {
    transcript.filter(|item: TranscriptItem| item is Message)
}

proof fn completed_are_the_utterances(transcript: Seq<TranscriptItem>)
    ensures
        chat::completed(transcript).len() == utterances(transcript).len(),
        forall|k: int|
            0 <= k < utterances(transcript).len() ==> {
                &&& (#[trigger] utterances(transcript)[k]) is Message
                &&& chat::completed(transcript)[k] == (chat::ChatMessageView::Text {
                    role: utterances(transcript)[k]->Message_role,
                    text: utterances(transcript)[k]->Message_text@,
                })
            },
    decreases transcript.len(),
{
    reveal(Seq::filter);
    if transcript.len() > 0 {
        completed_are_the_utterances(transcript.drop_last());
    }
}

/// Law: what goes on the wire of a transcript is its utterances and nothing
/// else: as many messages as there were, in their order, each said by who
/// said it and in their words.
pub proof fn the_wire_says_what_was_said(
    transcript: &Vec<TranscriptItem>,
    r: Vec<ChatMessage>,
)
    requires
        call_ensures(ChatMessage::from_transcript, (transcript,), r),
    ensures
        r@.len() == utterances(transcript@).len(),
        forall|k: int|
            0 <= k < r@.len() ==> {
                &&& (#[trigger] r@[k]) is Text
                &&& r@[k]->Text_role == utterances(transcript@)[k]->Message_role
                &&& r@[k]->Text_text@ == utterances(transcript@)[k]->Message_text@
            },
{
    completed_are_the_utterances(transcript@);
    assert forall|k: int| 0 <= k < r@.len() implies {
        &&& (#[trigger] r@[k]) is Text
        &&& r@[k]->Text_role == utterances(transcript@)[k]->Message_role
        &&& r@[k]->Text_text@ == utterances(transcript@)[k]->Message_text@
    } by {
        assert(chat::message_views(r@)[k] == r@[k]@);
        assert(utterances(transcript@)[k] is Message);
    }
    assert(chat::message_views(r@).len() == r@.len());
}

/// Law: a transcript said in two parts is the messages of the one and then
/// those of the other.
pub proof fn what_is_said_later_comes_later(
    first: &Vec<TranscriptItem>,
    second: &Vec<TranscriptItem>,
    whole: &Vec<TranscriptItem>,
    a: Vec<ChatMessage>,
    b: Vec<ChatMessage>,
    r: Vec<ChatMessage>,
)
    requires
        whole@ == first@ + second@,
        call_ensures(ChatMessage::from_transcript, (first,), a),
        call_ensures(ChatMessage::from_transcript, (second,), b),
        call_ensures(ChatMessage::from_transcript, (whole,), r),
    ensures
        r@.len() == a@.len() + b@.len(),
        forall|k: int| 0 <= k < a@.len() ==> (#[trigger] r@[k])@ == a@[k]@,
        forall|k: int| 0 <= k < b@.len() ==> r@[a@.len() + k]@ == (#[trigger] b@[k])@,
{
    completed_splits(first@, second@);
    assert(chat::message_views(r@) == chat::message_views(a@) + chat::message_views(b@));
    assert(chat::message_views(r@).len() == r@.len());
    assert(chat::message_views(a@).len() == a@.len());
    assert(chat::message_views(b@).len() == b@.len());
    assert forall|k: int| 0 <= k < a@.len() implies (#[trigger] r@[k])@ == a@[k]@ by {
        assert(chat::message_views(r@)[k] == chat::message_views(a@)[k]);
    }
    assert forall|k: int| 0 <= k < b@.len() implies r@[a@.len() + k]@ == (#[trigger] b@[k])@ by {
        assert(chat::message_views(r@)[a@.len() + k] == chat::message_views(b@)[k]);
    }
}

proof fn completed_splits(first: Seq<TranscriptItem>, second: Seq<TranscriptItem>)
    ensures
        chat::completed(first + second) == chat::completed(first) + chat::completed(second),
    decreases second.len(),
{
    if second.len() == 0 {
        assert(first + second =~= first);
        assert(chat::completed(first) + chat::completed(second) =~= chat::completed(first));
    } else {
        completed_splits(first, second.drop_last());
        assert((first + second).drop_last() =~= first + second.drop_last());
        assert(chat::completed(first + second) =~= chat::completed(first) + chat::completed(
            second,
        ));
    }
}

/// Law: what fits is shown as it is; what does not is cut at the cap, and
/// says how much was left out.
pub proof fn what_is_cut_says_so(shown: &str, cap: usize, r: String)
    requires
        call_ensures(chat::elide, (shown, cap), r),
    ensures
        shown@.len() <= cap ==> r@ == shown@,
        shown@.len() > cap ==> {
            &&& r@.take(cap as int) == shown@.take(cap as int)
            &&& r@.skip(cap as int) == "\n… ("@ + text::decimal((shown@.len() - cap) as nat)
                + " more characters elided)"@
        },
{
    if shown@.len() > cap {
        assert(r@.take(cap as int) =~= shown@.take(cap as int));
        assert(r@.skip(cap as int) =~= "\n… ("@ + text::decimal((shown@.len() - cap) as nat)
            + " more characters elided)"@);
    }
}

/// Law: the record of a call is under the tool's name, with its arguments
/// printed for reading where they were read, and verbatim where not.
pub proof fn a_call_is_recorded_under_its_name(
    call: &ToolCall,
    parsed: &Result<Json, String>,
    r: TranscriptItem,
)
    requires
        call_ensures(TranscriptItem::called, (call, parsed), r),
    ensures
        r is ToolCall,
        r->ToolCall_name@ == call.name@,
        *parsed is Ok ==> r->ToolCall_arguments@ == json::printed_as(parsed->Ok_0@),
        *parsed is Err ==> r->ToolCall_arguments@ == call.arguments@,
{
}

/// Law: the record of an answer says which tool gave it and whether it was
/// one; a refusal that fits is in the tool's own words.
pub proof fn an_answer_is_recorded_as_it_was(
    name: &str,
    result: &Result<Json, String>,
    r: TranscriptItem,
)
    requires
        call_ensures(TranscriptItem::tool_result, (name, result), r),
    ensures
        r is ToolResult,
        r->ToolResult_name@ == name@,
        r->ToolResult_ok <==> *result is Ok,
        *result is Err && result->Err_0@.len() <= 2000 ==> r->ToolResult_content@
            == result->Err_0@,
        *result is Err && result->Err_0@.len() > 2000 ==> r->ToolResult_content@.take(2000)
            == result->Err_0@.take(2000),
        *result is Ok && json::printed_as(result->Ok_0@).len() <= 2000
            ==> r->ToolResult_content@ == json::printed_as(result->Ok_0@),
{
    if *result is Err && result->Err_0@.len() > 2000 {
        assert(r->ToolResult_content@.take(2000) =~= result->Err_0@.take(2000));
    }
}

/// Law: an error is told with what it was given: the API's own words
/// verbatim, and the others after what they are.
pub proof fn an_error_keeps_its_words(error: &ChatError, r: String)
    requires
        call_ensures(ChatError::to_string, (error,), r),
    ensures
        *error is Api ==> r@ == error->Api_0@,
        *error is Transport ==> r@ == "could not reach the model: "@ + error->Transport_0@,
        *error is MalformedStream ==> r@ == "the reply stopped speaking the protocol: "@
            + error->MalformedStream_0@,
        *error is NoKey ==> r@ == "no API key is set"@,
        *error is ToolLoop ==> r@ == "the turn hit the cap of "@ + text::decimal(
            error->limit as nat,
        ) + " rounds of tool calls without an answer"@,
{
}

// ----- the client -----

/// Whether `url` is `path` under `base`, with no slash but the path's own
/// between them.
pub open spec fn lies_under(url: Seq<char>, base: Seq<char>, path: Seq<char>) -> bool {
    exists|n: int|
        {
            &&& 0 <= n <= base.len()
            &&& url == #[trigger] base.take(n) + path
            &&& n > 0 ==> base[n - 1] != '/'
            &&& forall|i: int| n <= i < base.len() ==> base[i] == '/'
        }
}

proof fn trimmed_of_slashes(base: Seq<char>) -> (n: int)
    ensures
        0 <= n <= base.len(),
        text::trim_end_of(base, '/') == base.take(n),
        n > 0 ==> base[n - 1] != '/',
        forall|i: int| n <= i < base.len() ==> base[i] == '/',
    decreases base.len(),
{
    if base.len() > 0 && base.last() == '/' {
        let n = trimmed_of_slashes(base.drop_last());
        assert(base.drop_last().take(n) =~= base.take(n));
        assert forall|i: int| n <= i < base.len() implies base[i] == '/' by {
            if i < base.len() - 1 {
                assert(base.drop_last()[i] == base[i]);
            }
        }
        n
    } else {
        assert(base.take(base.len() as int) =~= base);
        base.len() as int
    }
}

pub(crate) proof fn a_path_lies_under_its_base(base: Seq<char>, path: Seq<char>)
    ensures
        lies_under(chat::under(base, path), base, path),
{
    let n = trimmed_of_slashes(base);
    assert(base.take(n) + path == chat::under(base, path));
}

/// Law: a client asks for a reply under the base it was given, with one
/// slash before the path whatever the base ends in; it speaks to the model
/// it was given, and presents its key as a bearer, or nothing where it has
/// none.
pub proof fn a_client_asks_where_it_was_told(
    base_url: String,
    model: String,
    key: Option<Secret>,
    client: &Client,
    url: String,
    spoken_to: &str,
    header: Option<String>,
)
    requires
        call_ensures(Client::new, (base_url, model, key), *client),
        call_ensures(Client::url, (client,), url),
        call_ensures(Client::model, (client,), spoken_to),
        call_ensures(Client::authorization, (client,), header),
    ensures
        lies_under(url@, base_url@, "/chat/completions"@),
        spoken_to@ == model@,
        header is Some <==> key is Some,
        key is Some ==> (header->0)@ == "Bearer "@ + (key->0).bytes(),
{
    a_path_lies_under_its_base(base_url@, "/chat/completions"@);
}

/// Law: Anthropic's client asks Anthropic, with the key it was given, for
/// the model that was stated, or for the pinned one where none was.
pub proof fn anthropic_is_asked_with_its_key(
    key: Secret,
    model: Option<String>,
    pinned: &str,
    client: &Client,
    url: String,
    spoken_to: &str,
    header: Option<String>,
)
    requires
        call_ensures(Client::anthropic, (key, model, pinned), *client),
        call_ensures(Client::url, (client,), url),
        call_ensures(Client::model, (client,), spoken_to),
        call_ensures(Client::authorization, (client,), header),
    ensures
        url@ == "https://api.anthropic.com/v1"@ + "/chat/completions"@,
        model is Some ==> spoken_to@ == (model->0)@,
        model is None ==> spoken_to@ == pinned@,
        header is Some,
        (header->0)@ == "Bearer "@ + key.bytes(),
{
    reveal_strlit("https://api.anthropic.com/v1");
    assert("https://api.anthropic.com/v1"@.last() != '/');
}

/// Law: the models are asked for under the base.
pub proof fn models_are_asked_for_under_the_base(base_url: &str, r: String)
    requires
        call_ensures(stream::models_url, (base_url,), r),
    ensures
        lies_under(r@, base_url@, "/models?limit=1000"@),
{
    a_path_lies_under_its_base(base_url@, "/models?limit=1000"@);
}

// ----- the request -----

/// A name in quotes, a colon, and a value's text.
pub open spec fn member(name: Seq<char>, value: Seq<char>) -> Seq<char> {
    "\""@ + name + "\":"@ + value
}

/// A string as JSON spells it.
pub open spec fn quoted(s: Seq<char>) -> Seq<char> {
    json::written_as(JsonView::Text(s))
}

/// The members of an object, in braces.
pub open spec fn object(members: Seq<Seq<char>>) -> Seq<char> {
    "{"@ + text::join(members, ","@) + "}"@
}

/// The items of an array, in brackets.
pub open spec fn array(items: Seq<Seq<char>>) -> Seq<char> {
    "["@ + text::join(items, ","@) + "]"@
}

/// Whether a text says that a tool was asked for: by its id, its name, and
/// the arguments as the model wrote them.
pub open spec fn asks_for(said: Seq<char>, call: ToolCall) -> bool {
    said == object(
        seq![
            member("id"@, quoted(call.id@)),
            member("type"@, quoted("function"@)),
            member(
                "function"@,
                object(
                    seq![
                        member("name"@, quoted(call.name@)),
                        member("arguments"@, quoted(call.arguments@)),
                    ],
                ),
            ),
        ],
    )
}

/// Whether a text says what a message says: its words under the name of
/// who said them, the calls it makes in their order under the assistant's,
/// or a tool's answer under the id of the call it answers.
pub open spec fn says_message(said: Seq<char>, message: ChatMessage) -> bool {
    match message {
        ChatMessage::Text { role, text } => said == object(
            seq![
                member(
                    "role"@,
                    quoted(
                        if role is User {
                            "user"@
                        } else {
                            "assistant"@
                        },
                    ),
                ),
                member("content"@, quoted(text@)),
            ],
        ),
        ChatMessage::ToolCalls(calls) => exists|row: Seq<Seq<char>>|
            {
                &&& said == object(
                    seq![
                        member("role"@, quoted("assistant"@)),
                        member("tool_calls"@, #[trigger] array(row)),
                    ],
                )
                &&& row.len() == calls@.len()
                &&& forall|k: int| 0 <= k < row.len() ==> asks_for(#[trigger] row[k], calls@[k])
            },
        ChatMessage::ToolResult { id, content } => said == object(
            seq![
                member("role"@, quoted("tool"@)),
                member("content"@, quoted(content@)),
                member("tool_call_id"@, quoted(id@)),
            ],
        ),
    }
}

/// Whether a text offers a tool: its name, what it is for, and what it
/// takes.
pub open spec fn offers(said: Seq<char>, tool: ToolSpec) -> bool {
    said == object(
        seq![
            member("type"@, quoted("function"@)),
            member(
                "function"@,
                object(
                    seq![
                        member("name"@, quoted(tool@.name)),
                        member("description"@, quoted(tool@.description)),
                        member("parameters"@, json::written_as(tool@.parameters)),
                    ],
                ),
            ),
        ],
    )
}

pub(crate) proof fn a_record_is_its_members(fields: Seq<(Seq<char>, Seq<char>)>)
    ensures
        json::record_text(fields) == object(
            Seq::new(fields.len(), |i: int| member(fields[i].0, fields[i].1)),
        ),
{
    let members = Seq::new(fields.len(), |i: int| member(fields[i].0, fields[i].1));
    assert(fields.map_values(
        |f: (Seq<char>, Seq<char>)| json::field_text(f.0, f.1),
    ) =~= members);
}

pub(crate) proof fn two_members(a: (Seq<char>, Seq<char>), b: (Seq<char>, Seq<char>))
    ensures
        json::record_text(seq![a, b]) == object(seq![member(a.0, a.1), member(b.0, b.1)]),
{
    a_record_is_its_members(seq![a, b]);
    assert(Seq::new(2, |i: int| member(seq![a, b][i].0, seq![a, b][i].1)) =~= seq![
        member(a.0, a.1),
        member(b.0, b.1),
    ]);
}

pub(crate) proof fn three_members(
    a: (Seq<char>, Seq<char>),
    b: (Seq<char>, Seq<char>),
    c: (Seq<char>, Seq<char>),
)
    ensures
        json::record_text(seq![a, b, c]) == object(
            seq![member(a.0, a.1), member(b.0, b.1), member(c.0, c.1)],
        ),
{
    a_record_is_its_members(seq![a, b, c]);
    assert(Seq::new(3, |i: int| member(seq![a, b, c][i].0, seq![a, b, c][i].1)) =~= seq![
        member(a.0, a.1),
        member(b.0, b.1),
        member(c.0, c.1),
    ]);
}

pub(crate) proof fn a_call_is_asked_for(call: ToolCall)
    ensures
        asks_for(wire::call_text(call@), call),
{
    two_members(("name"@, quoted(call.name@)), ("arguments"@, quoted(call.arguments@)));
    three_members(
        ("id"@, quoted(call.id@)),
        ("type"@, quoted("function"@)),
        (
            "function"@,
            json::record_text(
                seq![
                    ("name"@, wire::string_text(call.name@)),
                    ("arguments"@, wire::string_text(call.arguments@)),
                ],
            ),
        ),
    );
}

proof fn a_message_is_said(message: ChatMessage)
    ensures
        says_message(wire::message_text(message@), message),
{
    match message {
        ChatMessage::Text { role, text } => {
            two_members(("role"@, quoted(wire::role_word(role))), ("content"@, quoted(text@)));
        },
        ChatMessage::ToolCalls(calls) => {
            let row = wire::call_texts(chat::call_views(calls@));
            assert forall|k: int| 0 <= k < row.len() implies asks_for(
                #[trigger] row[k],
                calls@[k],
            ) by {
                a_call_is_asked_for(calls@[k]);
            }
            two_members(("role"@, quoted("assistant"@)), ("tool_calls"@, array(row)));
        },
        ChatMessage::ToolResult { id, content } => {
            three_members(
                ("role"@, quoted("tool"@)),
                ("content"@, quoted(content@)),
                ("tool_call_id"@, quoted(id@)),
            );
        },
    }
}

proof fn a_tool_is_offered(tool: ToolSpec)
    ensures
        offers(wire::tool_text(tool@), tool),
{
    three_members(
        ("name"@, quoted(tool@.name)),
        ("description"@, quoted(tool@.description)),
        ("parameters"@, json::written_as(tool@.parameters)),
    );
    two_members(
        ("type"@, quoted("function"@)),
        (
            "function"@,
            json::record_text(
                seq![
                    ("name"@, wire::string_text(tool@.name)),
                    ("description"@, wire::string_text(tool@.description)),
                    ("parameters"@, json::written_as(tool@.parameters)),
                ],
            ),
        ),
    );
}

/// Whether a request's text is made of these messages and these tools.
pub open spec fn is_made_of(
    request: Seq<char>,
    model: Seq<char>,
    said: Seq<Seq<char>>,
    offered: Seq<Seq<char>>,
    tool_choice: Option<&str>,
) -> bool {
    let plain = seq![
        member("model"@, quoted(model)),
        member("messages"@, array(said)),
        member("stream"@, "true"@),
    ];
    let with_tools = if offered.len() == 0 {
        plain
    } else {
        plain.push(member("tools"@, array(offered)))
    };
    request == object(
        if tool_choice is None {
            with_tools
        } else {
            with_tools.push(member("tool_choice"@, quoted((tool_choice->0)@)))
        },
    )
}

/// Law: a request is for the model, streamed; its messages are the system's
/// words and then every message in its order, each as it is said; every
/// tool is offered, in its order, and where there is none the request does
/// not speak of tools at all.
pub proof fn a_request_says_everything_in_order(
    model: &str,
    system: &str,
    messages: &Vec<ChatMessage>,
    tools: &Vec<ToolSpec>,
    tool_choice: Option<&str>,
    r: String,
)
    requires
        call_ensures(wire::request, (model, system, messages, tools, tool_choice), r),
    ensures
        exists|said: Seq<Seq<char>>, offered: Seq<Seq<char>>|
            {
                &&& #[trigger] is_made_of(r@, model@, said, offered, tool_choice)
                &&& said.len() == messages@.len() + 1
                &&& said[0] == object(
                    seq![member("role"@, quoted("system"@)), member("content"@, quoted(system@))],
                )
                &&& forall|k: int|
                    0 <= k < messages@.len() ==> says_message(
                        said[k + 1],
                        #[trigger] messages@[k],
                    )
                &&& offered.len() == tools@.len()
                &&& forall|k: int|
                    0 <= k < tools@.len() ==> offers(offered[k], #[trigger] tools@[k])
            },
{
    let texts = wire::message_texts(chat::message_views(messages@));
    let said = seq![wire::said_text("system"@, system@)] + texts;
    let offered = wire::tool_texts(wire::tool_views(tools@));
    two_members(("role"@, quoted("system"@)), ("content"@, quoted(system@)));
    assert forall|k: int| 0 <= k < messages@.len() implies says_message(
        said[k + 1],
        #[trigger] messages@[k],
    ) by {
        a_message_is_said(messages@[k]);
        assert(said[k + 1] == texts[k]);
    }
    assert forall|k: int| 0 <= k < tools@.len() implies offers(
        offered[k],
        #[trigger] tools@[k],
    ) by {
        a_tool_is_offered(tools@[k]);
    }
    let choice = match tool_choice {
        Some(choice) => Some(choice@),
        None => None,
    };
    let fields = wire::request_fields(
        model@,
        system@,
        chat::message_views(messages@),
        wire::tool_views(tools@),
        choice,
    );
    a_record_is_its_members(fields);
    let plain = seq![
        member("model"@, quoted(model@)),
        member("messages"@, array(said)),
        member("stream"@, "true"@),
    ];
    let with_tools = if tools@.len() == 0 {
        plain
    } else {
        plain.push(member("tools"@, array(offered)))
    };
    let with_choice = if tool_choice is None {
        with_tools
    } else {
        with_tools.push(member("tool_choice"@, quoted((tool_choice->0)@)))
    };
    assert(Seq::new(fields.len(), |i: int| member(fields[i].0, fields[i].1)) =~= with_choice);
    assert(is_made_of(r@, model@, said, offered, tool_choice));
}

/// Law: a client's request is the request for its own model, and leaves the
/// choice of tools to it.
pub proof fn a_client_requests_its_model(
    base_url: String,
    model: String,
    key: Option<Secret>,
    client: &Client,
    system: &str,
    messages: &Vec<ChatMessage>,
    tools: &Vec<ToolSpec>,
    r: String,
    named: &str,
    plain: String,
)
    requires
        call_ensures(Client::new, (base_url, model, key), *client),
        call_ensures(Client::request, (client, system, messages, tools), r),
        named@ == model@,
        call_ensures(wire::request, (named, system, messages, tools, None::<&str>), plain),
    ensures
        r@ == plain@,
{
}

} // verus!
