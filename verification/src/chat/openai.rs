//! One hand-rolled client for the OpenAI chat-completions wire format.
//!
//! That single format covers OpenAI, Ollama (local and free), Groq, Gemini,
//! OpenRouter, and Anthropic's compatibility endpoint, which is where
//! model-agnosticism actually comes from here — the protocol, not a
//! framework crate. The surface needed is small, the seam is Epik's own,
//! and provider quirks are ours to absorb rather than a dependency's to
//! reinterpret.
//!
//! Decoding is unknown-tolerant on purpose. Unmodelled fields are ignored,
//! `choices` may be empty (Ollama sends a final usage-only chunk that way),
//! and empty deltas are dropped rather than emitted.

use crate::chat;
use crate::chat::sse;
use crate::chat::stream;
use crate::chat::wire;
use crate::chat::wire::{FragmentView, ToolCallFragment};
use crate::chat::{ToolCall, ToolCallView};
use crate::event;
use crate::event::{ChatEvent, Usage};
use crate::json;
use crate::json::{Json, JsonView, RecordText};
use crate::text;
use vstd::prelude::*;
use vstd::string::StringExecFns;

verus! {

// ----- the vocabulary -----

/// Where a model is, and which one.
#[derive(Clone, Debug, Eq, PartialEq)]
pub struct Provider {
    pub base_url: String,
    pub model: String,
}

/// A tool as it is offered to the model.
#[derive(Debug, Eq, PartialEq)]
pub struct ToolDeclaration {
    pub name: String,
    pub description: String,
    pub parameters: Json,
}

/// One message of the transcript.
#[derive(Debug, Eq, PartialEq)]
pub enum Message {
    System { content: String },
    User { content: String },
    /// What the assistant said, the calls it asked for, or both.
    Assistant { content: String, tool_calls: Vec<ToolCall> },
    /// A tool's answer, keyed by the call's id.
    Tool { tool_call_id: String, content: String },
}

/// A [`Message`] over sequences.
pub enum MessageView {
    System { content: Seq<char> },
    User { content: Seq<char> },
    Assistant { content: Seq<char>, tool_calls: Seq<ToolCallView> },
    Tool { tool_call_id: Seq<char>, content: Seq<char> },
}

impl View for Message {
    type V = MessageView;

    open spec fn view(&self) -> MessageView {
        match self {
            Message::System { content } => MessageView::System { content: content@ },
            Message::User { content } => MessageView::User { content: content@ },
            Message::Assistant { content, tool_calls } => MessageView::Assistant {
                content: content@,
                tool_calls: chat::call_views(tool_calls@),
            },
            Message::Tool { tool_call_id, content } => MessageView::Tool {
                tool_call_id: tool_call_id@,
                content: content@,
            },
        }
    }
}

impl Clone for Message {
    fn clone(&self) -> (r: Self)
        ensures
            r@ == self@,
    {
        match self {
            Message::System { content } => Message::System { content: content.clone() },
            Message::User { content } => Message::User { content: content.clone() },
            Message::Assistant { content, tool_calls } => {
                let calls = tool_calls.clone();
                proof {
                    assert(chat::call_views(calls@) =~= chat::call_views(tool_calls@));
                }
                Message::Assistant { content: content.clone(), tool_calls: calls }
            },
            Message::Tool { tool_call_id, content } => Message::Tool {
                tool_call_id: tool_call_id.clone(),
                content: content.clone(),
            },
        }
    }
}

/// The views of a row of messages.
pub open spec fn message_views(messages: Seq<Message>) -> Seq<MessageView> {
    messages.map_values(|message: Message| message@)
}

impl ToolCall {
    /// A call to `name`, answered under `id`.
    pub fn new(id: &str, name: &str, arguments: &str) -> (r: Self)
        ensures
            r@ == (ToolCallView { id: id@, name: name@, arguments: arguments@ }),
    {
        ToolCall { id: id.to_owned(), name: name.to_owned(), arguments: arguments.to_owned() }
    }
}

impl Message {
    /// What the user said.
    pub fn user(content: &str) -> (r: Self)
        ensures
            r@ == (MessageView::User { content: content@ }),
    {
        Message::User { content: content.to_owned() }
    }

    /// What the assistant said on its way to asking for `calls`.
    pub fn tool_calls(content: &str, calls: Vec<ToolCall>) -> (r: Self)
        ensures
            r@ == (MessageView::Assistant {
                content: content@,
                tool_calls: chat::call_views(calls@),
            }),
    {
        Message::Assistant { content: content.to_owned(), tool_calls: calls }
    }

    /// What a tool answered to the call `id`.
    pub fn tool_result(id: &str, content: &str) -> (r: Self)
        ensures
            r@ == (MessageView::Tool { tool_call_id: id@, content: content@ }),
    {
        Message::Tool { tool_call_id: id.to_owned(), content: content.to_owned() }
    }
}

/// A model's reply: what it said, the tools it asked for, what it cost,
/// and whether it was cut off.
#[derive(Debug, Eq, PartialEq)]
pub struct Reply {
    pub text: String,
    pub tool_calls: Vec<ToolCall>,
    pub usage: Option<Usage>,
    pub interrupted: bool,
}

/// A [`Reply`] over sequences.
pub struct ReplyView {
    pub text: Seq<char>,
    pub tool_calls: Seq<ToolCallView>,
    pub usage: Option<Usage>,
    pub interrupted: bool,
}

impl View for Reply {
    type V = ReplyView;

    open spec fn view(&self) -> ReplyView {
        ReplyView {
            text: self.text@,
            tool_calls: chat::call_views(self.tool_calls@),
            usage: self.usage,
            interrupted: self.interrupted,
        }
    }
}

impl Clone for Reply {
    fn clone(&self) -> (r: Self)
        ensures
            r@ == self@,
    {
        let tool_calls = self.tool_calls.clone();
        proof {
            assert(chat::call_views(tool_calls@) =~= chat::call_views(self.tool_calls@));
        }
        Reply {
            text: self.text.clone(),
            tool_calls,
            usage: self.usage,
            interrupted: self.interrupted,
        }
    }
}

impl Default for Reply {
    /// A reply that says nothing.
    fn default() -> (r: Self)
        ensures
            r@ == (ReplyView {
                text: Seq::empty(),
                tool_calls: Seq::empty(),
                usage: None,
                interrupted: false,
            }),
    {
        let text = String::new();
        let tool_calls: Vec<ToolCall> = Vec::new();
        proof {
            assert(text@ =~= Seq::empty());
            assert(chat::call_views(tool_calls@) =~= Seq::empty());
        }
        Reply { text, tool_calls, usage: None, interrupted: false }
    }
}

// ----- the request -----

/// One message, as a provider expects it: an assistant that only asked
/// has no content.
pub open spec fn message_text(message: MessageView) -> Seq<char> {
    match message {
        MessageView::System { content } => wire::said_text("system"@, content),
        MessageView::User { content } => wire::said_text("user"@, content),
        MessageView::Assistant { content, tool_calls } => if tool_calls.len() == 0 {
            wire::said_text("assistant"@, content)
        } else if content.len() == 0 {
            json::record_text(
                seq![
                    ("role"@, wire::string_text("assistant"@)),
                    ("tool_calls"@, json::array_text(wire::call_texts(tool_calls))),
                ],
            )
        } else {
            json::record_text(
                seq![
                    ("role"@, wire::string_text("assistant"@)),
                    ("content"@, wire::string_text(content)),
                    ("tool_calls"@, json::array_text(wire::call_texts(tool_calls))),
                ],
            )
        },
        MessageView::Tool { tool_call_id, content } => json::record_text(
            seq![
                ("role"@, wire::string_text("tool"@)),
                ("tool_call_id"@, wire::string_text(tool_call_id)),
                ("content"@, wire::string_text(content)),
            ],
        ),
    }
}

/// The texts of a row of messages.
pub open spec fn message_texts(messages: Seq<MessageView>) -> Seq<Seq<char>> {
    messages.map_values(|message: MessageView| message_text(message))
}

/// A tool's declaration in the wire's clothing.
pub open spec fn tool_text(tool: ToolDeclaration) -> Seq<char> {
    wire::tool_text(
        chat::ToolSpecView {
            name: tool.name@,
            description: tool.description@,
            parameters: tool.parameters@,
        },
    )
}

/// The texts of a row of tools.
pub open spec fn tool_texts(tools: Seq<ToolDeclaration>) -> Seq<Seq<char>> {
    tools.map_values(|tool: ToolDeclaration| tool_text(tool))
}

/// What goes out. The transcript is resent every turn: the protocol is
/// stateless, so the caller's history *is* the model's memory. `tools` is
/// omitted entirely when none are on offer, so a provider that has never
/// heard of tools sees byte-for-byte the request it always did.
pub open spec fn request_text(
    model: Seq<char>,
    messages: Seq<MessageView>,
    tools: Seq<ToolDeclaration>,
) -> Seq<char> {
    let opened = seq![
        ("model"@, wire::string_text(model)),
        ("messages"@, json::array_text(message_texts(messages))),
    ];
    let offered = if tools.len() == 0 {
        opened
    } else {
        opened.push(("tools"@, json::array_text(tool_texts(tools))))
    };
    json::record_text(
        offered.push(("stream"@, "true"@)).push(
            ("stream_options"@, json::record_text(seq![("include_usage"@, "true"@)])),
        ),
    )
}

/// A message's text.
pub fn message_record(message: &Message) -> (r: String)
    ensures
        r@ == message_text(message@),
{
    match message {
        Message::System { content } => wire::said_record("system", content.as_str()),
        Message::User { content } => wire::said_record("user", content.as_str()),
        Message::Assistant { content, tool_calls } => {
            proof {
                assert(chat::call_views(tool_calls@).len() == tool_calls@.len());
            }
            if tool_calls.len() == 0 {
                return wire::said_record("assistant", content.as_str());
            }
            let calls = wire::calls_array(tool_calls);
            if text::is_empty(content.as_str()) {
                let record = RecordText::new().with_string("role", "assistant").with(
                    "tool_calls",
                    calls.as_str(),
                );
                proof {
                    assert(record.fields() =~= seq![
                        ("role"@, wire::string_text("assistant"@)),
                        ("tool_calls"@, calls@),
                    ]);
                }
                record.text()
            } else {
                let record = RecordText::new().with_string("role", "assistant").with_string(
                    "content",
                    content.as_str(),
                ).with("tool_calls", calls.as_str());
                proof {
                    assert(record.fields() =~= seq![
                        ("role"@, wire::string_text("assistant"@)),
                        ("content"@, wire::string_text(content@)),
                        ("tool_calls"@, calls@),
                    ]);
                }
                record.text()
            }
        },
        Message::Tool { tool_call_id, content } => {
            let record = RecordText::new().with_string("role", "tool").with_string(
                "tool_call_id",
                tool_call_id.as_str(),
            ).with_string("content", content.as_str());
            proof {
                assert(record.fields() =~= seq![
                    ("role"@, wire::string_text("tool"@)),
                    ("tool_call_id"@, wire::string_text(tool_call_id@)),
                    ("content"@, wire::string_text(content@)),
                ]);
            }
            record.text()
        },
    }
}

fn tool_record(tool: &ToolDeclaration) -> (r: String)
    ensures
        r@ == tool_text(*tool),
{
    let parameters = json::written(&tool.parameters);
    let inner = RecordText::new().with_string("name", tool.name.as_str()).with_string(
        "description",
        tool.description.as_str(),
    ).with("parameters", parameters.as_str());
    let function = inner.text();
    proof {
        assert(inner.fields() =~= seq![
            ("name"@, wire::string_text(tool.name@)),
            ("description"@, wire::string_text(tool.description@)),
            ("parameters"@, parameters@),
        ]);
    }
    let outer = RecordText::new().with_string("type", "function").with(
        "function",
        function.as_str(),
    );
    proof {
        assert(outer.fields() =~= seq![
            ("type"@, wire::string_text("function"@)),
            ("function"@, function@),
        ]);
    }
    outer.text()
}

/// What goes out: the whole transcript, the tools on offer if any, and
/// the ask for a stream that counts its tokens — providers withhold token
/// counts from a stream unless asked.
pub fn request(model: &str, messages: &Vec<Message>, tools: &Vec<ToolDeclaration>) -> (r: String)
    ensures
        r@ == request_text(model@, message_views(messages@), tools@),
{
    let ghost texts = message_texts(message_views(messages@));
    let mut parts: Vec<String> = Vec::new();
    let mut i: usize = 0;
    while i < messages.len()
        invariant
            i <= messages@.len() == texts.len(),
            parts@.len() == i,
            forall|k: int|
                0 <= k < messages@.len() ==> #[trigger] texts[k] == message_text(messages@[k]@),
            forall|k: int| 0 <= k < i ==> (#[trigger] parts@[k])@ == texts[k],
        decreases messages@.len() - i,
    {
        parts.push(message_record(&messages[i]));
        i = i + 1;
    }
    proof {
        assert(text::views(parts@) =~= texts);
    }
    let array = json::array(&parts);
    let mut record = RecordText::new().with_string("model", model).with("messages", array.as_str());
    proof {
        assert(record.fields() =~= seq![
            ("model"@, wire::string_text(model@)),
            ("messages"@, array@),
        ]);
    }
    if tools.len() > 0 {
        let ghost offers = tool_texts(tools@);
        let mut written: Vec<String> = Vec::new();
        let mut j: usize = 0;
        while j < tools.len()
            invariant
                j <= tools@.len() == offers.len(),
                written@.len() == j,
                forall|k: int|
                    0 <= k < tools@.len() ==> #[trigger] offers[k] == tool_text(tools@[k]),
                forall|k: int| 0 <= k < j ==> (#[trigger] written@[k])@ == offers[k],
            decreases tools@.len() - j,
        {
            written.push(tool_record(&tools[j]));
            j = j + 1;
        }
        proof {
            assert(text::views(written@) =~= offers);
        }
        let offered = json::array(&written);
        record = record.with("tools", offered.as_str());
    }
    let counted = RecordText::new().with("include_usage", "true");
    proof {
        assert(counted.fields() =~= seq![("include_usage"@, "true"@)]);
    }
    let options = counted.text();
    record = record.with("stream", "true").with("stream_options", options.as_str());
    record.text()
}

/// A model reached over the OpenAI chat-completions protocol.
pub struct OpenAiCompatible {
    endpoint: String,
    model: String,
    key: Option<String>,
    tools: Vec<ToolDeclaration>,
}

impl OpenAiCompatible {
    /// Where a request goes.
    pub closed spec fn asked_at(&self) -> Seq<char> {
        self.endpoint@
    }

    /// The model asked for.
    pub closed spec fn speaks_to(&self) -> Seq<char> {
        self.model@
    }

    /// The key presented.
    pub closed spec fn presents(&self) -> Option<Seq<char>> {
        text::optional(self.key)
    }

    /// The tools on offer.
    pub closed spec fn offers(&self) -> Seq<ToolDeclaration> {
        self.tools@
    }

    /// A client for `provider`, authenticating with `key` when there is one.
    ///
    /// A missing key is not an error here: local servers want none, and for
    /// the ones that do, the refusal belongs to the provider's answer rather
    /// than to this constructor.
    pub fn new(provider: &Provider, key: Option<String>) -> (r: Self)
        ensures
            r.asked_at() == chat::under(provider.base_url@, "/chat/completions"@),
            r.speaks_to() == provider.model@,
            r.presents() == text::optional(key),
            r.offers() == Seq::<ToolDeclaration>::empty(),
    {
        let base = text::trim_end_matches(provider.base_url.as_str(), '/');
        OpenAiCompatible {
            endpoint: text::cat2(base.as_str(), "/chat/completions"),
            model: provider.model.clone(),
            key,
            tools: Vec::new(),
        }
    }

    /// The endpoint this client posts to — useful in an error message, and in
    /// a test that wants to know where a request would have gone.
    pub fn endpoint(&self) -> (r: &str)
        ensures
            r@ == self.asked_at(),
    {
        self.endpoint.as_str()
    }

    /// Offers `tools` to the model on every request from here on. The default
    /// is none, which keeps `tools` off the wire entirely.
    pub fn use_tools(&mut self, tools: Vec<ToolDeclaration>)
        ensures
            final(self).offers() == tools@,
            final(self).asked_at() == old(self).asked_at(),
            final(self).speaks_to() == old(self).speaks_to(),
            final(self).presents() == old(self).presents(),
    {
        self.tools = tools;
    }

    /// The next request authenticates with `key`. The connection is per-turn,
    /// so nothing has to be torn down for this to take.
    pub fn use_key(&mut self, key: Option<String>)
        ensures
            final(self).presents() == text::optional(key),
            final(self).asked_at() == old(self).asked_at(),
            final(self).speaks_to() == old(self).speaks_to(),
            final(self).offers() == old(self).offers(),
    {
        self.key = key;
    }

    /// The `authorization` header a request carries, when there is a key.
    pub fn authorization(&self) -> (r: Option<String>)
        ensures
            text::optional(r) == (match self.presents() {
                Some(key) => Some("Bearer "@ + key),
                None => None,
            }),
    {
        match &self.key {
            Some(key) => Some(text::cat2("Bearer ", key.as_str())),
            None => None,
        }
    }

    /// The body of a request for a reply to `transcript`.
    pub fn request(&self, transcript: &Vec<Message>) -> (r: String)
        ensures
            r@ == request_text(self.speaks_to(), message_views(transcript@), self.offers()),
    {
        request(self.model.as_str(), transcript, &self.tools)
    }

    /// What an answer that is no success means: the provider's own words.
    pub fn refused(&self, status: &str, body: &str) -> (r: String)
        ensures
            r@ == self.asked_at() + " refused with "@ + status@ + ": "@ + text::trimmed(body@),
    {
        let words = text::trim(body);
        text::cat5(self.endpoint.as_str(), " refused with ", status, ": ", words.as_str())
    }
}

// ----- what comes back -----

/// The sentinel that ends a chat-completions stream.
pub const DONE: &'static str = "[DONE]";

/// What `finish_reason` says when the turn ended asking for tools.
pub const ASKED_FOR_TOOLS: &'static str = "tool_calls";

/// One choice of a chunk: what was said, the fragments of calls, and why
/// it ended.
#[derive(Debug)]
pub struct Choice {
    pub content: Option<String>,
    /// Tool calls arrive in fragments — an opening one carrying the id and
    /// the function name, then pieces of the argument string — all keyed to
    /// their call by `index`.
    pub tool_calls: Vec<ToolCallFragment>,
    /// `"stop"` for a turn that ended in text, `"tool_calls"` for one that
    /// ended asking for tools.
    pub finish_reason: Option<String>,
}

/// What comes back, chunk by chunk — modelling only the fields Epik reads.
#[derive(Debug)]
pub struct Chunk {
    /// Empty on the usage-only chunk that ends an Ollama stream.
    pub choices: Vec<Choice>,
    pub usage: Option<Usage>,
}

/// A [`Choice`] over sequences.
pub struct ChoiceView {
    pub content: Option<Seq<char>>,
    pub tool_calls: Seq<FragmentView>,
    pub finish_reason: Option<Seq<char>>,
}

/// A [`Chunk`] over sequences.
pub struct ChunkView {
    pub choices: Seq<ChoiceView>,
    pub usage: Option<Usage>,
}

impl View for Choice {
    type V = ChoiceView;

    open spec fn view(&self) -> ChoiceView {
        ChoiceView {
            content: text::optional(self.content),
            tool_calls: wire::fragment_views(self.tool_calls@),
            finish_reason: text::optional(self.finish_reason),
        }
    }
}

/// The views of a row of choices.
pub open spec fn choice_views(choices: Seq<Choice>) -> Seq<ChoiceView> {
    choices.map_values(|choice: Choice| choice@)
}

impl View for Chunk {
    type V = ChunkView;

    open spec fn view(&self) -> ChunkView {
        ChunkView { choices: choice_views(self.choices@), usage: self.usage }
    }
}

/// An index that is zero where it is absent, and `None` where the field
/// holds something else.
pub open spec fn index_of(part: Option<JsonView>) -> Option<nat> {
    match part {
        None => Some(0),
        Some(value) => value.whole(),
    }
}

/// The name and the arguments of a function fragment.
pub open spec fn function_of(part: Option<JsonView>) -> Option<
    (Option<Seq<char>>, Option<Seq<char>>),
> {
    match part {
        None => Some((None, None)),
        Some(value) => {
            let name = json::optional_text(value.part(0, "name"@));
            let arguments = json::optional_text(value.part(1, "arguments"@));
            if value.holds(2) && name is Some && arguments is Some {
                Some((name->0, arguments->0))
            } else {
                None
            }
        },
    }
}

/// A fragment of a tool call, when the value is one.
pub open spec fn fragment_of(value: JsonView) -> Option<FragmentView> {
    let index = index_of(value.part(0, "index"@));
    let id = json::optional_text(value.part(1, "id"@));
    let function = function_of(value.part(2, "function"@));
    if value.holds(3) && index is Some && id is Some && function is Some {
        Some(
            FragmentView {
                index: index->0,
                id: id->0,
                name: (function->0).0,
                arguments: (function->0).1,
            },
        )
    } else {
        None
    }
}

/// A row of fragments, when every item is one.
pub open spec fn fragments_of(items: Seq<JsonView>) -> Option<Seq<FragmentView>>
    decreases items.len(),
{
    if items.len() == 0 {
        Some(Seq::empty())
    } else {
        match (fragments_of(items.drop_last()), fragment_of(items.last())) {
            (Some(front), Some(fragment)) => Some(front.push(fragment)),
            _ => None,
        }
    }
}

/// The content and the fragments of a delta.
pub open spec fn delta_of(part: Option<JsonView>) -> Option<
    (Option<Seq<char>>, Seq<FragmentView>),
> {
    match part {
        None => Some((None, Seq::empty())),
        Some(value) => {
            let content = json::optional_text(value.part(0, "content"@));
            let fragments = match value.part(1, "tool_calls"@) {
                None => Some(Seq::empty()),
                Some(JsonView::Array(items)) => fragments_of(items),
                Some(_) => None,
            };
            if value.holds(2) && content is Some && fragments is Some {
                Some((content->0, fragments->0))
            } else {
                None
            }
        },
    }
}

/// A choice, when the value is one.
pub open spec fn choice_of(value: JsonView) -> Option<ChoiceView> {
    let delta = delta_of(value.part(0, "delta"@));
    let finish_reason = json::optional_text(value.part(1, "finish_reason"@));
    if value.holds(2) && delta is Some && finish_reason is Some {
        Some(
            ChoiceView {
                content: (delta->0).0,
                tool_calls: (delta->0).1,
                finish_reason: finish_reason->0,
            },
        )
    } else {
        None
    }
}

/// A row of choices, when every item is one.
pub open spec fn choices_of(items: Seq<JsonView>) -> Option<Seq<ChoiceView>>
    decreases items.len(),
{
    if items.len() == 0 {
        Some(Seq::empty())
    } else {
        match (choices_of(items.drop_last()), choice_of(items.last())) {
            (Some(front), Some(choice)) => Some(front.push(choice)),
            _ => None,
        }
    }
}

/// An optional usage.
pub open spec fn optional_usage(part: Option<JsonView>) -> Option<Option<Usage>> {
    match part {
        None => Some(None),
        Some(JsonView::Null) => Some(None),
        Some(value) => match event::usage_of(value) {
            Some(usage) => Some(Some(usage)),
            None => None,
        },
    }
}

/// A chunk and the failure reported in it, when the value is one: some
/// providers report a mid-stream failure in-band rather than by breaking
/// the connection.
pub open spec fn chunk_of(value: JsonView) -> Option<(ChunkView, Option<JsonView>)> {
    let choices = match value.part(0, "choices"@) {
        None => Some(Seq::empty()),
        Some(JsonView::Array(items)) => choices_of(items),
        Some(_) => None,
    };
    let usage = optional_usage(value.part(1, "usage"@));
    let error = match value.part(2, "error"@) {
        None => None,
        Some(JsonView::Null) => None,
        Some(error) => Some(error),
    };
    if value.holds(3) && choices is Some && usage is Some {
        Some((ChunkView { choices: choices->0, usage: usage->0 }, error))
    } else {
        None
    }
}

/// The words for a payload that is not a chunk at all.
pub open spec fn undecoded(payload: Seq<char>) -> Seq<char> {
    "decoding a chunk of the reply: "@ + payload
}

/// What a decoded value comes to: the chunk, or words.
pub open spec fn settled(value: JsonView, payload: Seq<char>) -> Result<ChunkView, Seq<char>> {
    match chunk_of(value) {
        Some((chunk, None)) => Ok(chunk),
        Some((_, Some(error))) => Err(
            "the provider reported an error mid-stream: "@ + json::written_as(error),
        ),
        None => Err(undecoded(payload)),
    }
}

/// What one `data:` payload comes to: the chunk, nothing for the
/// end-of-stream sentinel, or words.
pub open spec fn decoded(payload: Seq<char>) -> Result<Option<ChunkView>, Seq<char>> {
    if text::trimmed(payload) == DONE@ {
        Ok(None)
    } else {
        match json::read_as(payload) {
            Ok(value) => match settled(value, payload) {
                Ok(chunk) => Ok(Some(chunk)),
                Err(words) => Err(words),
            },
            Err(_) => Err(undecoded(payload)),
        }
    }
}

fn read_index(part: Option<&Json>) -> (r: Option<u64>)
    ensures
        match r {
            Some(n) => index_of(json::part_view(part)) == Some(n as nat),
            None => index_of(json::part_view(part)) is None,
        },
{
    match part {
        None => Some(0),
        Some(value) => value.whole(),
    }
}

fn read_function(part: Option<&Json>) -> (r: Option<(Option<String>, Option<String>)>)
    ensures
        match r {
            Some(function) => function_of(json::part_view(part)) == Some(
                (text::optional(function.0), text::optional(function.1)),
            ),
            None => function_of(json::part_view(part)) is None,
        },
{
    match part {
        None => Some((None, None)),
        Some(value) => {
            if !value.holds(2) {
                return None;
            }
            match (
                json::read_optional_text(value.part(0, "name")),
                json::read_optional_text(value.part(1, "arguments")),
            ) {
                (Some(name), Some(arguments)) => Some((name, arguments)),
                _ => None,
            }
        },
    }
}

fn read_fragment(value: &Json) -> (r: Option<ToolCallFragment>)
    ensures
        match r {
            Some(fragment) => fragment_of(value@) == Some(fragment@),
            None => fragment_of(value@) is None,
        },
{
    if !value.holds(3) {
        return None;
    }
    match (
        read_index(value.part(0, "index")),
        json::read_optional_text(value.part(1, "id")),
        read_function(value.part(2, "function")),
    ) {
        (Some(index), Some(id), Some((name, arguments))) => Some(
            ToolCallFragment { index, id, name, arguments },
        ),
        _ => None,
    }
}

/// A longer row is not all fragments where a shorter one is not.
proof fn fragments_to_the_end(items: Seq<JsonView>, i: int)
    requires
        0 <= i <= items.len(),
        fragments_of(items.take(i)) is None,
    ensures
        fragments_of(items) is None,
    decreases items.len() - i,
{
    if i == items.len() {
        assert(items.take(i) =~= items);
    } else {
        assert(items.take(i + 1).drop_last() =~= items.take(i));
        fragments_to_the_end(items, i + 1);
    }
}

fn read_fragments(items: &Vec<Json>) -> (r: Option<Vec<ToolCallFragment>>)
    ensures
        match r {
            Some(fragments) => fragments_of(json::items_view(items@)) == Some(
                wire::fragment_views(fragments@),
            ),
            None => fragments_of(json::items_view(items@)) is None,
        },
{
    let ghost view = json::items_view(items@);
    proof {
        json::item_views(items@);
    }
    let mut fragments: Vec<ToolCallFragment> = Vec::new();
    let mut i: usize = 0;
    proof {
        assert(wire::fragment_views(fragments@) =~= Seq::empty());
    }
    while i < items.len()
        invariant
            i <= items@.len() == view.len(),
            view == json::items_view(items@),
            forall|k: int| 0 <= k < items@.len() ==> #[trigger] view[k] == items@[k]@,
            fragments_of(view.take(i as int)) == Some(wire::fragment_views(fragments@)),
        decreases items@.len() - i,
    {
        proof {
            assert(view.take(i + 1).drop_last() =~= view.take(i as int));
            assert(view.take(i + 1).last() == view[i as int]);
        }
        match read_fragment(&items[i]) {
            Some(fragment) => {
                let ghost before = wire::fragment_views(fragments@);
                let ghost shown = fragment@;
                fragments.push(fragment);
                proof {
                    assert(wire::fragment_views(fragments@) =~= before.push(shown));
                }
            },
            None => {
                proof {
                    fragments_to_the_end(view, i + 1);
                }
                return None;
            },
        }
        i = i + 1;
    }
    proof {
        assert(view.take(i as int) =~= view);
    }
    Some(fragments)
}

fn read_choice(value: &Json) -> (r: Option<Choice>)
    ensures
        match r {
            Some(choice) => choice_of(value@) == Some(choice@),
            None => choice_of(value@) is None,
        },
{
    if !value.holds(2) {
        return None;
    }
    let finish_reason = match json::read_optional_text(value.part(1, "finish_reason")) {
        Some(finish_reason) => finish_reason,
        None => return None,
    };
    let none: Vec<ToolCallFragment> = Vec::new();
    proof {
        assert(wire::fragment_views(none@) =~= Seq::empty());
    }
    match value.part(0, "delta") {
        None => Some(Choice { content: None, tool_calls: none, finish_reason }),
        Some(delta) => {
            if !delta.holds(2) {
                return None;
            }
            let content = match json::read_optional_text(delta.part(0, "content")) {
                Some(content) => content,
                None => return None,
            };
            match delta.part(1, "tool_calls") {
                None => Some(Choice { content, tool_calls: none, finish_reason }),
                Some(Json::Array(items)) => match read_fragments(items) {
                    Some(tool_calls) => Some(Choice { content, tool_calls, finish_reason }),
                    None => None,
                },
                Some(_) => None,
            }
        },
    }
}

/// A longer row is not all choices where a shorter one is not.
proof fn choices_to_the_end(items: Seq<JsonView>, i: int)
    requires
        0 <= i <= items.len(),
        choices_of(items.take(i)) is None,
    ensures
        choices_of(items) is None,
    decreases items.len() - i,
{
    if i == items.len() {
        assert(items.take(i) =~= items);
    } else {
        assert(items.take(i + 1).drop_last() =~= items.take(i));
        choices_to_the_end(items, i + 1);
    }
}

fn read_choices(items: &Vec<Json>) -> (r: Option<Vec<Choice>>)
    ensures
        match r {
            Some(choices) => choices_of(json::items_view(items@)) == Some(choice_views(choices@)),
            None => choices_of(json::items_view(items@)) is None,
        },
{
    let ghost view = json::items_view(items@);
    proof {
        json::item_views(items@);
    }
    let mut choices: Vec<Choice> = Vec::new();
    let mut i: usize = 0;
    proof {
        assert(choice_views(choices@) =~= Seq::empty());
    }
    while i < items.len()
        invariant
            i <= items@.len() == view.len(),
            view == json::items_view(items@),
            forall|k: int| 0 <= k < items@.len() ==> #[trigger] view[k] == items@[k]@,
            choices_of(view.take(i as int)) == Some(choice_views(choices@)),
        decreases items@.len() - i,
    {
        proof {
            assert(view.take(i + 1).drop_last() =~= view.take(i as int));
            assert(view.take(i + 1).last() == view[i as int]);
        }
        match read_choice(&items[i]) {
            Some(choice) => {
                let ghost before = choice_views(choices@);
                let ghost shown = choice@;
                choices.push(choice);
                proof {
                    assert(choice_views(choices@) =~= before.push(shown));
                }
            },
            None => {
                proof {
                    choices_to_the_end(view, i + 1);
                }
                return None;
            },
        }
        i = i + 1;
    }
    proof {
        assert(view.take(i as int) =~= view);
    }
    Some(choices)
}

impl Chunk {
    /// A chunk from its decoded value.
    ///
    /// # Errors
    ///
    /// A value that is no chunk, and a chunk in which the provider
    /// reported a failure.
    pub fn of(value: &Json, payload: &str) -> (r: Result<Chunk, String>)
        ensures
            match r {
                Ok(chunk) => settled(value@, payload@) == Ok::<ChunkView, Seq<char>>(chunk@),
                Err(words) => settled(value@, payload@) == Err::<ChunkView, Seq<char>>(words@),
            },
    {
        if !value.holds(3) {
            return Err(text::cat2("decoding a chunk of the reply: ", payload));
        }
        let none: Vec<Choice> = Vec::new();
        proof {
            assert(choice_views(none@) =~= Seq::empty());
        }
        let choices = match value.part(0, "choices") {
            None => Some(none),
            Some(Json::Array(items)) => read_choices(items),
            Some(_) => None,
        };
        let usage = match value.part(1, "usage") {
            None => Some(None),
            Some(part) => if part.is_null() {
                Some(None)
            } else {
                match Usage::read(part) {
                    Some(usage) => Some(Some(usage)),
                    None => None,
                }
            },
        };
        match (choices, usage) {
            (Some(choices), Some(usage)) => {
                match value.part(2, "error") {
                    Some(error) => if !error.is_null() {
                        let words = json::written(error);
                        return Err(
                            text::cat2(
                                "the provider reported an error mid-stream: ",
                                words.as_str(),
                            ),
                        );
                    },
                    None => {},
                }
                Ok(Chunk { choices, usage })
            },
            _ => Err(text::cat2("decoding a chunk of the reply: ", payload)),
        }
    }

    /// Decodes one `data:` payload. `None` for the end-of-stream sentinel.
    ///
    /// # Errors
    ///
    /// Words for a payload that is not a chunk at all, and for a chunk in
    /// which the provider reported a failure.
    pub fn decode(payload: &str) -> (r: Result<Option<Chunk>, String>)
        ensures
            match r {
                Ok(Some(chunk)) => decoded(payload@) == Ok::<Option<ChunkView>, Seq<char>>(
                    Some(chunk@),
                ),
                Ok(None) => decoded(payload@) == Ok::<Option<ChunkView>, Seq<char>>(None),
                Err(words) => decoded(payload@) == Err::<Option<ChunkView>, Seq<char>>(words@),
            },
    {
        if text::same(text::trim(payload).as_str(), DONE) {
            return Ok(None);
        }
        match json::read(payload) {
            Ok(value) => match Chunk::of(&value, payload) {
                Ok(chunk) => Ok(Some(chunk)),
                Err(words) => Err(words),
            },
            Err(_) => Err(text::cat2("decoding a chunk of the reply: ", payload)),
        }
    }

    /// Whether every call the chunk speaks of has an index a machine can
    /// count to.
    pub fn fits(&self) -> (r: bool)
        ensures
            r == can_hold(self@),
    {
        let mut i: usize = 0;
        while i < self.choices.len()
            invariant
                i <= self.choices@.len(),
                forall|c: int, f: int|
                    0 <= c < i && 0 <= f < self.choices@[c].tool_calls@.len() ==> (
                    #[trigger] self.choices@[c].tool_calls@[f]).index < usize::MAX,
            decreases self.choices@.len() - i,
        {
            let fragments: &Vec<ToolCallFragment> = &self.choices[i].tool_calls;
            let mut j: usize = 0;
            while j < fragments.len()
                invariant
                    i < self.choices@.len(),
                    *fragments == self.choices@[i as int].tool_calls,
                    j <= fragments@.len(),
                    forall|f: int|
                        0 <= f < j ==> (#[trigger] fragments@[f]).index < usize::MAX,
                decreases fragments@.len() - j,
            {
                if fragments[j].index >= usize::MAX as u64 {
                    proof {
                        let c = self@.choices[i as int];
                        assert(c.tool_calls[j as int] == fragments@[j as int]@);
                    }
                    return false;
                }
                j = j + 1;
            }
            i = i + 1;
        }
        proof {
            assert forall|c: int, f: int|
                0 <= c < self@.choices.len() && 0 <= f < self@.choices[c].tool_calls.len() implies (
            #[trigger] self@.choices[c].tool_calls[f]).index < usize::MAX by {
                assert(self@.choices[c].tool_calls[f]
                    == self.choices@[c].tool_calls@[f]@);
            }
        }
        true
    }
}

/// Whether every call a chunk speaks of has an index a machine can count
/// to.
pub open spec fn can_hold(chunk: ChunkView) -> bool {
    forall|c: int, f: int|
        0 <= c < chunk.choices.len() && 0 <= f < chunk.choices[c].tool_calls.len() ==> (
        #[trigger] chunk.choices[c].tool_calls[f]).index < usize::MAX
}

// ----- the assembly -----

/// Folds a stream of chunks into one [`Reply`].
///
/// Text is emitted as it arrives; tool calls are accumulated as fragments
/// and become calls only once a finish reason has said the turn ended asking
/// for them — so an interrupted or torn stream can never hand a tool half an
/// argument string.
#[derive(Debug)]
pub struct Assembly {
    text: String,
    usage: Option<Usage>,
    interrupted: bool,
    calls: Vec<ToolCall>,
    asked_for_tools: bool,
}

/// An [`Assembly`] over sequences.
pub struct AssemblyView {
    pub text: Seq<char>,
    pub usage: Option<Usage>,
    pub interrupted: bool,
    pub calls: Seq<ToolCallView>,
    pub asked_for_tools: bool,
}

impl View for Assembly {
    type V = AssemblyView;

    closed spec fn view(&self) -> AssemblyView {
        AssemblyView {
            text: self.text@,
            usage: self.usage,
            interrupted: self.interrupted,
            calls: chat::call_views(self.calls@),
            asked_for_tools: self.asked_for_tools,
        }
    }
}

/// What an optional text says.
pub open spec fn saying(text: Option<Seq<char>>) -> Seq<char> {
    match text {
        Some(text) => text,
        None => Seq::empty(),
    }
}

/// A call with one more of its fragments: each piece follows what was
/// there.
pub open spec fn pieced(call: ToolCallView, fragment: FragmentView) -> ToolCallView {
    ToolCallView {
        id: call.id + saying(fragment.id),
        name: call.name + saying(fragment.name),
        arguments: call.arguments + saying(fragment.arguments),
    }
}

/// The calls, with room for so many.
pub open spec fn roomy(calls: Seq<ToolCallView>, count: nat) -> Seq<ToolCallView> {
    if calls.len() >= count {
        calls
    } else {
        calls + Seq::new((count - calls.len()) as nat, |i: int| stream::unsaid())
    }
}

/// The calls after one more fragment.
pub open spec fn touched(calls: Seq<ToolCallView>, fragment: FragmentView) -> Seq<ToolCallView> {
    let calls = roomy(calls, fragment.index + 1);
    calls.update(fragment.index as int, pieced(calls[fragment.index as int], fragment))
}

/// The calls after a row of fragments.
pub open spec fn gathered(calls: Seq<ToolCallView>, fragments: Seq<FragmentView>) -> Seq<
    ToolCallView,
>
    decreases fragments.len(),
{
    if fragments.len() == 0 {
        calls
    } else {
        touched(gathered(calls, fragments.drop_last()), fragments.last())
    }
}

/// The text a row of choices adds.
pub open spec fn said(choices: Seq<ChoiceView>) -> Seq<char>
    decreases choices.len(),
{
    if choices.len() == 0 {
        Seq::empty()
    } else {
        said(choices.drop_last()) + saying(choices.last().content)
    }
}

/// The calls after a row of choices.
pub open spec fn called(calls: Seq<ToolCallView>, choices: Seq<ChoiceView>) -> Seq<ToolCallView>
    decreases choices.len(),
{
    if choices.len() == 0 {
        calls
    } else {
        gathered(called(calls, choices.drop_last()), choices.last().tool_calls)
    }
}

/// Whether a choice ended asking for tools.
pub open spec fn asks(choices: Seq<ChoiceView>) -> bool {
    exists|i: int|
        0 <= i < choices.len() && (#[trigger] choices[i]).finish_reason == Some(ASKED_FOR_TOOLS@)
}

impl AssemblyView {
    /// Nothing has come yet.
    pub open spec fn fresh() -> AssemblyView {
        AssemblyView {
            text: Seq::empty(),
            usage: None,
            interrupted: false,
            calls: Seq::empty(),
            asked_for_tools: false,
        }
    }

    /// After one more chunk.
    pub open spec fn absorbed(self, chunk: ChunkView) -> AssemblyView {
        AssemblyView {
            text: self.text + said(chunk.choices),
            usage: if chunk.usage is Some {
                chunk.usage
            } else {
                self.usage
            },
            interrupted: self.interrupted,
            calls: called(self.calls, chunk.choices),
            asked_for_tools: self.asked_for_tools || asks(chunk.choices),
        }
    }

    /// The assembled reply, with the calls finalized when the turn asked
    /// for them.
    pub open spec fn finished(self) -> ReplyView {
        ReplyView {
            text: self.text,
            tool_calls: if self.asked_for_tools {
                self.calls
            } else {
                Seq::empty()
            },
            usage: self.usage,
            interrupted: self.interrupted,
        }
    }
}

impl Default for Assembly {
    /// Nothing has come yet.
    fn default() -> (r: Self)
        ensures
            r@ == AssemblyView::fresh(),
    {
        let text = String::new();
        let calls: Vec<ToolCall> = Vec::new();
        proof {
            assert(text@ =~= Seq::empty());
            assert(chat::call_views(calls@) =~= Seq::empty());
        }
        Assembly { text, usage: None, interrupted: false, calls, asked_for_tools: false }
    }
}

/// Whether `after` is `before` with one event more where `text` says
/// anything — a delta of that text — and just `before` where it does not.
pub open spec fn spoke(before: Seq<ChatEvent>, text: Seq<char>, after: Seq<ChatEvent>) -> bool {
    if text.len() == 0 {
        after == before
    } else {
        &&& after.len() == before.len() + 1
        &&& after.drop_last() == before
        &&& after.last() is Delta
        &&& after.last()->Delta_text@ == text
    }
}

impl Assembly {
    /// Folds one chunk in, emitting whatever text it adds as a delta and
    /// skipping the empty deltas that accompany a finish reason.
    pub fn absorb(&mut self, chunk: &Chunk, log: &mut Vec<ChatEvent>)
        requires
            can_hold(chunk@),
        ensures
            final(self)@ == old(self)@.absorbed(chunk@),
            spoke(old(log)@, said(chunk@.choices), final(log)@),
    {
        let ghost view = chunk@.choices;
        let ghost calls = self@.calls;
        let ghost asked = self.asked_for_tools;
        let ghost before = self@;
        let ghost logged = log@;
        if chunk.usage.is_some() {
            self.usage = chunk.usage;
        }
        let mut text = String::new();
        let mut i: usize = 0;
        proof {
            assert(text@ =~= Seq::empty());
        }
        while i < chunk.choices.len()
            invariant
                i <= chunk.choices@.len() == view.len(),
                view == chunk@.choices,
                can_hold(chunk@),
                text@ == said(view.take(i as int)),
                self@.text == before.text,
                self@.interrupted == before.interrupted,
                self@.usage == (if chunk.usage is Some {
                    chunk.usage
                } else {
                    before.usage
                }),
                self@.calls == called(calls, view.take(i as int)),
                self@.asked_for_tools == (asked || asks(view.take(i as int))),
            decreases chunk.choices@.len() - i,
        {
            let choice: &Choice = &chunk.choices[i];
            proof {
                assert(view.take(i + 1).drop_last() =~= view.take(i as int));
                assert(view.take(i + 1).last() == choice@);
            }
            let asks_now = match &choice.finish_reason {
                Some(reason) => text::same(reason.as_str(), ASKED_FOR_TOOLS),
                None => false,
            };
            proof {
                let now = view.take(i + 1);
                let then = view.take(i as int);
                if asks(then) {
                    let k = choose|k: int|
                        0 <= k < then.len() && (#[trigger] then[k]).finish_reason == Some(
                            ASKED_FOR_TOOLS@,
                        );
                    assert(now[k].finish_reason == Some(ASKED_FOR_TOOLS@));
                }
                if asks_now {
                    assert(now[i as int].finish_reason == Some(ASKED_FOR_TOOLS@));
                }
                if asks(now) && !asks_now {
                    let k = choose|k: int|
                        0 <= k < now.len() && (#[trigger] now[k]).finish_reason == Some(
                            ASKED_FOR_TOOLS@,
                        );
                    assert(then[k].finish_reason == Some(ASKED_FOR_TOOLS@));
                }
            }
            if asks_now {
                self.asked_for_tools = true;
            }
            match &choice.content {
                Some(content) => {
                    text.append(content.as_str());
                },
                None => {
                    proof {
                        assert(text@ + Seq::empty() =~= text@);
                    }
                },
            }
            proof {
                assert forall|f: int| 0 <= f < choice.tool_calls@.len() implies (
                #[trigger] choice.tool_calls@[f]).index < usize::MAX by {
                    assert(view[i as int].tool_calls[f] == choice.tool_calls@[f]@);
                }
            }
            self.gather(&choice.tool_calls);
            i = i + 1;
        }
        proof {
            assert(view.take(i as int) =~= view);
        }
        if !text::is_empty(text.as_str()) {
            self.text.append(text.as_str());
            log.push(ChatEvent::Delta { text });
            proof {
                assert(log@.drop_last() =~= logged);
            }
        } else {
            proof {
                assert(before.text + text@ =~= before.text);
            }
        }
    }

    fn gather(&mut self, fragments: &Vec<ToolCallFragment>)
        requires
            forall|f: int|
                0 <= f < fragments@.len() ==> (#[trigger] fragments@[f]).index < usize::MAX,
        ensures
            final(self)@ == (AssemblyView {
                calls: gathered(old(self)@.calls, wire::fragment_views(fragments@)),
                ..old(self)@
            }),
    {
        let ghost view = wire::fragment_views(fragments@);
        let ghost calls = self@.calls;
        let ghost before = self@;
        let mut j: usize = 0;
        while j < fragments.len()
            invariant
                j <= fragments@.len() == view.len(),
                view == wire::fragment_views(fragments@),
                forall|f: int|
                    0 <= f < fragments@.len() ==> (#[trigger] fragments@[f]).index < usize::MAX,
                self@ == (AssemblyView { calls: gathered(calls, view.take(j as int)), ..before }),
            decreases fragments@.len() - j,
        {
            let fragment: &ToolCallFragment = &fragments[j];
            proof {
                assert(view.take(j + 1).drop_last() =~= view.take(j as int));
                assert(view.take(j + 1).last() == fragment@);
            }
            let index: usize = fragment.index as usize;
            let ghost so_far = self@.calls;
            while self.calls.len() <= index
                invariant
                    index < usize::MAX,
                    self@ == (AssemblyView { calls: self@.calls, ..before }),
                    self@.calls.len() == self.calls@.len(),
                    so_far.len() <= self@.calls.len(),
                    self@.calls.len() > so_far.len() ==> self@.calls.len() <= index + 1,
                    self@.calls == so_far + Seq::new(
                        (self@.calls.len() - so_far.len()) as nat,
                        |i: int| stream::unsaid(),
                    ),
                decreases index + 1 - self.calls@.len(),
            {
                let none = ToolCall {
                    id: String::new(),
                    name: String::new(),
                    arguments: String::new(),
                };
                let ghost old_calls = self@.calls;
                proof {
                    assert(none@.id =~= Seq::empty());
                    assert(none@.name =~= Seq::empty());
                    assert(none@.arguments =~= Seq::empty());
                }
                self.calls.push(none);
                proof {
                    assert(self@.calls =~= old_calls.push(stream::unsaid()));
                    assert(self@.calls =~= so_far + Seq::new(
                        (self@.calls.len() - so_far.len()) as nat,
                        |i: int| stream::unsaid(),
                    ));
                }
            }
            proof {
                assert(self@.calls =~= roomy(so_far, (index + 1) as nat));
            }
            let ghost room = self@.calls;
            let call = piece(&self.calls[index], fragment);
            let ghost shown = call@;
            self.calls.set(index, call);
            proof {
                assert(self@.calls =~= room.update(index as int, shown));
            }
            j = j + 1;
        }
        proof {
            assert(view.take(j as int) =~= view);
        }
    }

    /// The turn was stopped: whatever arrived so far stands.
    pub fn interrupt(&mut self)
        ensures
            final(self)@ == (AssemblyView { interrupted: true, ..old(self)@ }),
    {
        self.interrupted = true;
    }

    /// The assembled reply, with the calls finalized when the turn asked for
    /// them.
    pub fn finish(self) -> (r: Reply)
        ensures
            r@ == self@.finished(),
    {
        let tool_calls = if self.asked_for_tools {
            self.calls
        } else {
            let none: Vec<ToolCall> = Vec::new();
            proof {
                assert(chat::call_views(none@) =~= Seq::empty());
            }
            none
        };
        Reply { text: self.text, tool_calls, usage: self.usage, interrupted: self.interrupted }
    }
}

/// A call with one more of its fragments.
fn piece(call: &ToolCall, fragment: &ToolCallFragment) -> (r: ToolCall)
    ensures
        r@ == pieced(call@, fragment@),
{
    let mut id = call.id.clone();
    let mut name = call.name.clone();
    let mut arguments = call.arguments.clone();
    proof {
        assert(id@ + Seq::empty() =~= id@);
        assert(name@ + Seq::empty() =~= name@);
        assert(arguments@ + Seq::empty() =~= arguments@);
    }
    match &fragment.id {
        Some(more) => {
            id.append(more.as_str());
        },
        None => {},
    }
    match &fragment.name {
        Some(more) => {
            name.append(more.as_str());
        },
        None => {},
    }
    match &fragment.arguments {
        Some(more) => {
            arguments.append(more.as_str());
        },
        None => {},
    }
    ToolCall { id, name, arguments }
}

/// An interrupted or torn stream can never hand a tool half an argument
/// string: a reply has calls only where the turn said it asked for them.
pub proof fn nothing_torn_is_handed_over(assembly: AssemblyView)
    ensures
        !assembly.asked_for_tools ==> assembly.finished().tool_calls.len() == 0,
{
}

/// The text a row of events tells: its deltas, one after the other.
pub open spec fn told(events: Seq<ChatEvent>) -> Seq<char>
    decreases events.len(),
{
    if events.len() == 0 {
        Seq::empty()
    } else {
        match events.last() {
            ChatEvent::Delta { text } => told(events.drop_last()) + text@,
            _ => told(events.drop_last()),
        }
    }
}

/// The words for a call no machine can count to.
pub const UNCOUNTABLE: &'static str = "a tool call's index is past what can be held";

/// What a row of payloads assembles to, up to the end-of-stream sentinel.
pub open spec fn replayed(assembly: AssemblyView, payloads: Seq<Seq<char>>) -> Result<
    AssemblyView,
    Seq<char>,
>
    decreases payloads.len(),
{
    if payloads.len() == 0 {
        Ok(assembly)
    } else {
        match decoded(payloads[0]) {
            Err(words) => Err(words),
            Ok(None) => Ok(assembly),
            Ok(Some(chunk)) => if can_hold(chunk) {
                replayed(assembly.absorbed(chunk), payloads.skip(1))
            } else {
                Err(UNCOUNTABLE@)
            },
        }
    }
}

/// The pieces of text a row of payloads says, up to its end or to what is
/// wrong with it: one for each chunk that says anything.
pub open spec fn spoken(payloads: Seq<Seq<char>>) -> Seq<Seq<char>>
    decreases payloads.len(),
{
    if payloads.len() == 0 {
        Seq::empty()
    } else {
        match decoded(payloads[0]) {
            Ok(Some(chunk)) => if !can_hold(chunk) {
                Seq::empty()
            } else if said(chunk.choices).len() == 0 {
                spoken(payloads.skip(1))
            } else {
                seq![said(chunk.choices)] + spoken(payloads.skip(1))
            },
            _ => Seq::empty(),
        }
    }
}

/// Whether `after` is `before` with a delta more for each of `pieces`, in
/// order.
pub open spec fn emitted(
    before: Seq<ChatEvent>,
    pieces: Seq<Seq<char>>,
    after: Seq<ChatEvent>,
) -> bool {
    &&& after.len() == before.len() + pieces.len()
    &&& after.take(before.len() as int) == before
    &&& forall|i: int|
        before.len() <= i < after.len() ==> (#[trigger] after[i]) is Delta && after[i]->Delta_text@
            == pieces[i - before.len()]
}

/// A whole stream, assembled: the reply, with a delta emitted for every
/// piece of text as it came.
///
/// # Errors
///
/// Words for a payload that is not a chunk, for a failure the provider
/// reported, and for a call no machine can count to.
pub fn replay(stream: &str, log: &mut Vec<ChatEvent>) -> (r: Result<Reply, String>)
    ensures
        match r {
            Ok(reply) => {
                let whole = replayed(AssemblyView::fresh(), sse::framed(stream@));
                whole is Ok && reply@ == whole->Ok_0.finished() && told(final(log)@) == told(
                    old(log)@,
                ) + reply@.text
            },
            Err(words) => replayed(AssemblyView::fresh(), sse::framed(stream@)) == Err::<
                AssemblyView,
                Seq<char>,
            >(words@),
        },
        emitted(old(log)@, spoken(sse::framed(stream@)), final(log)@),
{
    let events = sse::events(stream);
    let ghost payloads = sse::framed(stream@);
    let ghost logged = told(log@);
    let ghost mut pieces: Seq<Seq<char>> = Seq::empty();
    let mut assembly = Assembly::default();
    let mut i: usize = 0;
    proof {
        assert(log@.take(log@.len() as int) =~= log@);
        assert(pieces + spoken(payloads) =~= spoken(payloads));
        assert(payloads.skip(0) =~= payloads);
        assert(logged + Seq::empty() =~= logged);
    }
    while i < events.len()
        invariant
            i <= events@.len() == payloads.len(),
            sse::data_of(events@) == payloads,
            payloads == sse::framed(stream@),
            replayed(AssemblyView::fresh(), payloads) == replayed(
                assembly@,
                payloads.skip(i as int),
            ),
            logged == told(old(log)@),
            told(log@) == logged + assembly@.text,
            emitted(old(log)@, pieces, log@),
            spoken(payloads) == pieces + spoken(payloads.skip(i as int)),
        decreases events@.len() - i,
    {
        proof {
            assert(payloads.skip(i as int)[0] == events@[i as int].data@);
            assert(payloads.skip(i as int).skip(1) =~= payloads.skip(i + 1));
            assert(pieces + Seq::empty() =~= pieces);
        }
        match Chunk::decode(events[i].data.as_str()) {
            Err(words) => return Err(words),
            Ok(None) => return Ok(assembly.finish()),
            Ok(Some(chunk)) => {
                if !chunk.fits() {
                    return Err(UNCOUNTABLE.to_owned());
                }
                let ghost before = assembly@;
                let ghost shorter = log@;
                assembly.absorb(&chunk, log);
                proof {
                    let more = said(chunk@.choices);
                    let rest = spoken(payloads.skip(i + 1));
                    if more.len() == 0 {
                        assert(before.text + more =~= before.text);
                    } else {
                        assert((logged + before.text) + more =~= logged + (before.text + more));
                        assert(pieces + (seq![more] + rest) =~= pieces.push(more) + rest);
                        pieces = pieces.push(more);
                        let n = old(log)@.len() as int;
                        assert(log@.take(n) =~= shorter.take(n));
                        assert forall|k: int| n <= k < log@.len() implies (#[trigger] log@[k])
                            is Delta && log@[k]->Delta_text@ == pieces[k - n] by {
                            if k < shorter.len() {
                                assert(log@.drop_last()[k] == shorter[k]);
                            }
                        }
                    }
                }
            },
        }
        i = i + 1;
    }
    proof {
        assert(pieces + Seq::empty() =~= pieces);
    }
    Ok(assembly.finish())
}

} // verus!
