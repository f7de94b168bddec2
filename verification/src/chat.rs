//! The chat vocabulary and the client that speaks it.
//!
//! [`TranscriptItem`] is the unit that crosses the IPC barrier and gets
//! folded into a window's view of the conversation: new kinds of item
//! become new variants on the same event channel and new arms in the same
//! fold, never a schema break.
//!
//! [`Client`] holds a conversation with an OpenAI-compatible
//! chat-completions endpoint — transcript in, streamed deltas out. It is
//! provider-agnostic data: a base URL, a model, a key. Provider
//! specificity lives only in constructors, of which there is exactly one
//! today, [`Client::anthropic`]. What is asked and what an answer means
//! are decided in [`wire`] and [`stream`]; the host carries the bytes.

use crate::json;
use crate::json::{Json, JsonView};
use crate::keystore;
use crate::keystore::Secret;
use crate::text;
use vstd::prelude::*;

pub mod laws;
pub mod openai;
pub mod openai_laws;
pub mod scripted;
pub mod sse;
pub mod stream;
pub mod stream_laws;
pub mod turn_laws;
pub mod wire;

verus! {

/// A speaker, by its wire-protocol name.
#[derive(Clone, Copy, Debug, Eq, PartialEq, Structural)]
pub enum Role {
    User,
    Assistant,
}

/// One entry on the transcript channel.
#[derive(Clone, Debug, Eq, PartialEq)]
pub enum TranscriptItem {
    /// A complete utterance, said by `role`. The only variant a
    /// [`Conversation`] holds.
    Message { role: Role, text: String },
    /// A streaming fragment of the assistant's reply in progress.
    /// Ephemeral: it exists on the event channel and nowhere else.
    AssistantDelta { text: String },
    /// A turn that came to grief instead of a reply. Not conversation
    /// content — the failure is news, not something anybody said.
    TurnFailed { reason: String },
    /// The model reached for a tool: an observed act, not an utterance.
    /// `arguments` is pretty-printed JSON, for reading.
    ToolCall { name: String, arguments: String },
    /// What the tool said back. `content` is capped for the transcript —
    /// the model gets the whole thing on the wire; the transcript gets
    /// enough to see what happened.
    ToolResult { name: String, ok: bool, content: String },
    /// The persona is asking the user something and the turn is waiting
    /// on the answer. Ephemeral like a delta: it exists on the event
    /// channel and is never pushed into a [`Conversation`] — the settled
    /// record is [`QuestionResolved`](Self::QuestionResolved).
    Question { id: String, ask: Ask },
    /// A question and what the user answered — the settled record,
    /// appended and emitted exactly like a tool call and its result.
    QuestionResolved { id: String, ask: Ask, answer: Answer },
}

/// What the persona needs from the user, in modality-free terms: the
/// backend says *what* it wants, never how to collect it — every input
/// modality is the frontend's. Tagged like [`TranscriptItem`], so a new
/// kind of question is a new variant, never a schema break.
#[derive(Clone, Debug, Eq, PartialEq)]
pub enum Ask {
    /// Where a repository should live. `prompt` is the persona's own
    /// wording of the question.
    Repository { prompt: String },
    /// The check command a feature build will be judged by. `prompt` is
    /// the build machinery's wording — the card is raised as the build's
    /// first act, never by the persona — and `proposal` is what
    /// detection prefilled, absent when no marker matched.
    Check { prompt: String, proposal: Option<String> },
}

/// What the user answered. A decline is a first-class answer — the
/// persona reads it and reacts — not an error.
#[derive(Clone, Debug, Eq, PartialEq)]
pub enum Answer {
    /// A repository location: a git URL, of which a path is one.
    Repository { url: String },
    /// The check command in force: the user confirmed or edited it.
    Check { command: String },
    /// The user would rather not say. For a check, the decline is the
    /// skip: the build runs on observation alone.
    Declined,
}

/// The event channel transcript items arrive on, backend to window.
pub const TRANSCRIPT_EVENT: &'static str = "transcript";

/// The canonical transcript: what was actually said, in order. One holder
/// per conversation — in the app, the backend. Completed [`Message`]s
/// only; deltas and failures never land here.
///
/// [`Message`]: TranscriptItem::Message
#[derive(Debug)]
pub struct Conversation(Vec<TranscriptItem>);

impl Default for Conversation {
    /// Nothing has been said.
    fn default() -> (r: Self)
        ensures
            r.said() == Seq::<TranscriptItem>::empty(),
    {
        Conversation(Vec::new())
    }
}

impl Conversation {
    /// What was said, oldest first.
    pub closed spec fn said(&self) -> Seq<TranscriptItem> {
        self.0@
    }

    /// Appends `item`. The transcript only ever grows.
    pub fn push(&mut self, item: TranscriptItem)
        ensures
            final(self).said() == old(self).said().push(item),
    {
        self.0.push(item);
    }

    /// The transcript, oldest first.
    pub fn items(&self) -> (r: &Vec<TranscriptItem>)
        ensures
            r@ == self.said(),
    {
        &self.0
    }
}

/// One completed tool call, as the model asked for it: the id the result
/// must answer to, the tool's name, and the arguments exactly as the
/// model wrote them — a raw JSON string, parsed only at dispatch.
#[derive(Debug, Eq, PartialEq)]
pub struct ToolCall {
    pub id: String,
    pub name: String,
    pub arguments: String,
}

/// A [`ToolCall`] over sequences.
pub struct ToolCallView {
    pub id: Seq<char>,
    pub name: Seq<char>,
    pub arguments: Seq<char>,
}

impl View for ToolCall {
    type V = ToolCallView;

    open spec fn view(&self) -> ToolCallView {
        ToolCallView { id: self.id@, name: self.name@, arguments: self.arguments@ }
    }
}

impl Clone for ToolCall {
    fn clone(&self) -> (r: Self)
        ensures
            r == *self,
    {
        ToolCall {
            id: self.id.clone(),
            name: self.name.clone(),
            arguments: self.arguments.clone(),
        }
    }
}

/// The views of a row of calls.
pub open spec fn call_views(calls: Seq<ToolCall>) -> Seq<ToolCallView> {
    calls.map_values(|call: ToolCall| call@)
}

/// What a reply turned out to be: the model either spoke or reached for
/// tools, never both.
#[derive(Debug, Eq, PartialEq)]
pub enum Reply {
    /// The final text, assembled from the deltas.
    Text(String),
    /// The calls the model wants made, in index order.
    ToolCalls(Vec<ToolCall>),
}

/// A [`Reply`] over sequences.
pub enum ReplyView {
    Text(Seq<char>),
    ToolCalls(Seq<ToolCallView>),
}

impl View for Reply {
    type V = ReplyView;

    open spec fn view(&self) -> ReplyView {
        match self {
            Reply::Text(text) => ReplyView::Text(text@),
            Reply::ToolCalls(calls) => ReplyView::ToolCalls(call_views(calls@)),
        }
    }
}

impl Clone for Reply {
    fn clone(&self) -> (r: Self)
        ensures
            r@ == self@,
    {
        match self {
            Reply::Text(text) => Reply::Text(text.clone()),
            Reply::ToolCalls(calls) => {
                let copy = calls.clone();
                proof {
                    assert(call_views(copy@) =~= call_views(calls@));
                }
                Reply::ToolCalls(copy)
            },
        }
    }
}

/// One tool as the wire advertises it: the OpenAI function-tool shape.
#[derive(Debug)]
pub struct ToolSpec {
    name: String,
    description: String,
    parameters: Json,
}

/// A [`ToolSpec`] over sequences.
pub struct ToolSpecView {
    pub name: Seq<char>,
    pub description: Seq<char>,
    pub parameters: JsonView,
}

impl View for ToolSpec {
    type V = ToolSpecView;

    closed spec fn view(&self) -> ToolSpecView {
        ToolSpecView {
            name: self.name@,
            description: self.description@,
            parameters: self.parameters@,
        }
    }
}

impl Clone for ToolSpec {
    fn clone(&self) -> (r: Self)
        ensures
            r@ == self@,
    {
        ToolSpec {
            name: self.name.clone(),
            description: self.description.clone(),
            parameters: self.parameters.clone(),
        }
    }
}

impl ToolSpec {
    /// A function tool: `parameters` is its arguments' JSON Schema.
    pub fn function(name: String, description: String, parameters: Json) -> (r: Self)
        ensures
            r@ == (ToolSpecView {
                name: name@,
                description: description@,
                parameters: parameters@,
            }),
    {
        ToolSpec { name, description, parameters }
    }

    /// The tool's name.
    pub fn name(&self) -> (r: &str)
        ensures
            r@ == self@.name,
    {
        self.name.as_str()
    }

    /// What the tool is for, in the words the model reads.
    pub fn description(&self) -> (r: &str)
        ensures
            r@ == self@.description,
    {
        self.description.as_str()
    }

    /// The JSON Schema of the tool's arguments.
    pub fn parameters(&self) -> (r: &Json)
        ensures
            r@ == self@.parameters,
    {
        &self.parameters
    }
}

/// One message as the request will carry it. The transcript's completed
/// messages map to [`Text`]; the other two forms exist only inside a tool
/// turn, where the loop appends what it did so the model can go on.
///
/// [`Text`]: ChatMessage::Text
#[derive(Clone, Debug, Eq, PartialEq)]
pub enum ChatMessage {
    /// An utterance, from the transcript.
    Text { role: Role, text: String },
    /// The assistant's turn that was tool calls instead of words.
    ToolCalls(Vec<ToolCall>),
    /// A tool's answer, addressed to the call by its id. `content` is the
    /// whole answer — the wire never truncates.
    ToolResult { id: String, content: String },
}

/// A [`ChatMessage`] over sequences.
pub enum ChatMessageView {
    Text { role: Role, text: Seq<char> },
    ToolCalls(Seq<ToolCallView>),
    ToolResult { id: Seq<char>, content: Seq<char> },
}

impl View for ChatMessage {
    type V = ChatMessageView;

    open spec fn view(&self) -> ChatMessageView {
        match self {
            ChatMessage::Text { role, text } => ChatMessageView::Text { role: *role, text: text@ },
            ChatMessage::ToolCalls(calls) => ChatMessageView::ToolCalls(call_views(calls@)),
            ChatMessage::ToolResult { id, content } => ChatMessageView::ToolResult {
                id: id@,
                content: content@,
            },
        }
    }
}

/// The views of a row of messages.
pub open spec fn message_views(messages: Seq<ChatMessage>) -> Seq<ChatMessageView> {
    messages.map_values(|message: ChatMessage| message@)
}

/// The completed messages of a transcript, in order, as wire messages.
pub open spec fn completed(transcript: Seq<TranscriptItem>) -> Seq<ChatMessageView>
    decreases transcript.len(),
{
    if transcript.len() == 0 {
        Seq::empty()
    } else {
        let front = completed(transcript.drop_last());
        match transcript.last() {
            TranscriptItem::Message { role, text } => front.push(
                ChatMessageView::Text { role, text: text@ },
            ),
            _ => front,
        }
    }
}

impl ChatMessage {
    /// The transcript's completed messages, in order, as wire messages.
    /// Deltas and failures are not conversation; tool items are the
    /// transcript's record of past turns, already summarized by the
    /// assistant text that followed them, and carry no call ids — so
    /// none of them go to the wire.
    pub fn from_transcript(transcript: &Vec<TranscriptItem>) -> (r: Vec<ChatMessage>)
        ensures
            message_views(r@) == completed(transcript@),
    {
        let mut messages: Vec<ChatMessage> = Vec::new();
        let mut i: usize = 0;
        proof {
            assert(message_views(messages@) =~= Seq::empty());
        }
        while i < transcript.len()
            invariant
                i <= transcript@.len(),
                message_views(messages@) == completed(transcript@.take(i as int)),
            decreases transcript@.len() - i,
        {
            proof {
                assert(transcript@.take(i + 1).drop_last() =~= transcript@.take(i as int));
                assert(transcript@.take(i + 1).last() == transcript@[i as int]);
            }
            let ghost before = message_views(messages@);
            match &transcript[i] {
                TranscriptItem::Message { role, text } => {
                    messages.push(ChatMessage::Text { role: *role, text: text.clone() });
                    proof {
                        assert(message_views(messages@) =~= before.push(
                            ChatMessageView::Text { role: *role, text: text@ },
                        ));
                    }
                },
                _ => {},
            }
            i = i + 1;
        }
        proof {
            assert(transcript@.take(i as int) =~= transcript@);
        }
        messages
    }
}

/// How much of a tool's answer the transcript keeps. The model always
/// gets all of it; this cap is only for what a window shows and stores.
pub const TOOL_RESULT_CAP: usize = 2000;

/// The first `cap` characters of `text`, with a note about the rest —
/// or `text` itself when it already fits.
pub open spec fn elided(text: Seq<char>, cap: nat) -> Seq<char> {
    if text.len() <= cap {
        text
    } else {
        text.take(cap as int) + "\n… ("@ + text::decimal((text.len() - cap) as nat)
            + " more characters elided)"@
    }
}

/// The first `cap` characters of `text`, with a note about the rest —
/// or `text` itself when it already fits.
pub fn elide(text: &str, cap: usize) -> (r: String)
    ensures
        r@ == elided(text@, cap as nat),
{
    let chars: Vec<char> = text::chars_of(text);
    let total: usize = chars.len();
    if total <= cap {
        return text.to_owned();
    }
    let kept = text::string_of(&chars, 0, cap);
    let more = text::number((total - cap) as u64);
    proof {
        assert(kept@ =~= text@.take(cap as int));
    }
    text::cat4(kept.as_str(), "\n… (", more.as_str(), " more characters elided)")
}

/// A tool's arguments, for reading: pretty-printed when they parse,
/// verbatim when they don't.
pub open spec fn readable(arguments: Seq<char>) -> Seq<char> {
    match json::read_as(arguments) {
        Ok(value) => json::printed_as(value),
        Err(_) => arguments,
    }
}

/// What a tool's answer is shown as: its value, printed, or its words.
pub open spec fn shown(result: Result<JsonView, Seq<char>>) -> Seq<char> {
    match result {
        Ok(value) => json::printed_as(value),
        Err(reason) => reason,
    }
}

/// A tool's answer over sequences.
pub open spec fn answer_view(result: Result<Json, String>) -> Result<JsonView, Seq<char>> {
    match result {
        Ok(value) => Ok(value@),
        Err(reason) => Err(reason@),
    }
}

impl TranscriptItem {
    /// The transcript's record of `call`: its arguments pretty-printed
    /// when they parse, verbatim when they don't.
    pub fn tool_call(call: &ToolCall) -> (r: Self)
        ensures
            r is ToolCall,
            r->ToolCall_name@ == call.name@,
            r->ToolCall_arguments@ == readable(call.arguments@),
    {
        let parsed = json::read(call.arguments.as_str());
        Self::called(call, &parsed)
    }

    /// The transcript's record of `call`, whose arguments came to `parsed`.
    pub fn called(call: &ToolCall, parsed: &Result<Json, String>) -> (r: Self)
        ensures
            r is ToolCall,
            r->ToolCall_name@ == call.name@,
            r->ToolCall_arguments@ == (match *parsed {
                Ok(value) => json::printed_as(value@),
                Err(_) => call.arguments@,
            }),
    {
        let arguments = match parsed {
            Ok(value) => json::printed(value),
            Err(_) => call.arguments.clone(),
        };
        TranscriptItem::ToolCall { name: call.name.clone(), arguments }
    }

    /// The transcript's record of what `name` answered, capped at
    /// [`TOOL_RESULT_CAP`] characters.
    pub fn tool_result(name: &str, result: &Result<Json, String>) -> (r: Self)
        ensures
            r is ToolResult,
            r->ToolResult_name@ == name@,
            r->ToolResult_ok == result.is_ok(),
            r->ToolResult_content@ == elided(shown(answer_view(*result)), TOOL_RESULT_CAP as nat),
    {
        let (ok, content) = match result {
            Ok(value) => (true, json::printed(value)),
            Err(reason) => (false, reason.clone()),
        };
        TranscriptItem::ToolResult {
            name: name.to_owned(),
            ok,
            content: elide(content.as_str(), TOOL_RESULT_CAP),
        }
    }
}

/// What a turn can die of. The key never appears in any of it.
#[derive(Debug, Eq, PartialEq)]
pub enum ChatError {
    /// There is no key to present.
    NoKey,
    /// The wire failed beneath the protocol: no route, no socket, no
    /// answer.
    Transport(String),
    /// The API answered with an error of its own, quoted verbatim —
    /// its wording reaches the user intact.
    Api(String),
    /// The answer stopped speaking the protocol.
    MalformedStream(String),
    /// The turn kept asking for tools past `limit` rounds without ever
    /// arriving at an answer.
    ToolLoop { limit: usize },
}

/// A [`ChatError`] over sequences.
pub enum ChatErrorView {
    NoKey,
    Transport(Seq<char>),
    Api(Seq<char>),
    MalformedStream(Seq<char>),
    ToolLoop { limit: nat },
}

impl View for ChatError {
    type V = ChatErrorView;

    open spec fn view(&self) -> ChatErrorView {
        match self {
            ChatError::NoKey => ChatErrorView::NoKey,
            ChatError::Transport(reason) => ChatErrorView::Transport(reason@),
            ChatError::Api(message) => ChatErrorView::Api(message@),
            ChatError::MalformedStream(detail) => ChatErrorView::MalformedStream(detail@),
            ChatError::ToolLoop { limit } => ChatErrorView::ToolLoop { limit: *limit as nat },
        }
    }
}

impl Clone for ChatError {
    fn clone(&self) -> (r: Self)
        ensures
            r == *self,
    {
        match self {
            ChatError::NoKey => ChatError::NoKey,
            ChatError::Transport(reason) => ChatError::Transport(reason.clone()),
            ChatError::Api(message) => ChatError::Api(message.clone()),
            ChatError::MalformedStream(detail) => ChatError::MalformedStream(detail.clone()),
            ChatError::ToolLoop { limit } => ChatError::ToolLoop { limit: *limit },
        }
    }
}

impl ChatErrorView {
    /// The error in words.
    pub open spec fn words(self) -> Seq<char> {
        match self {
            ChatErrorView::NoKey => "no API key is set"@,
            ChatErrorView::Transport(reason) => "could not reach the model: "@ + reason,
            ChatErrorView::Api(message) => message,
            ChatErrorView::MalformedStream(detail) => "the reply stopped speaking the protocol: "@
                + detail,
            ChatErrorView::ToolLoop { limit } => "the turn hit the cap of "@ + text::decimal(limit)
                + " rounds of tool calls without an answer"@,
        }
    }
}

impl ChatError {
    /// The error in words.
    pub fn to_string(&self) -> (r: String)
        ensures
            r@ == self@.words(),
    {
        match self {
            ChatError::NoKey => "no API key is set".to_owned(),
            ChatError::Transport(reason) => text::cat2(
                "could not reach the model: ",
                reason.as_str(),
            ),
            ChatError::Api(message) => message.clone(),
            ChatError::MalformedStream(detail) => text::cat2(
                "the reply stopped speaking the protocol: ",
                detail.as_str(),
            ),
            ChatError::ToolLoop { limit } => {
                let count = text::number(*limit as u64);
                text::cat3(
                    "the turn hit the cap of ",
                    count.as_str(),
                    " rounds of tool calls without an answer",
                )
            },
        }
    }
}

/// A client for one OpenAI-compatible chat-completions endpoint: where to
/// ask, what to ask for, and what to present at the door.
pub struct Client {
    base_url: String,
    model: String,
    key: Option<Secret>,
}

/// A [`Client`] over sequences.
pub struct ClientView {
    pub base_url: Seq<char>,
    pub model: Seq<char>,
    pub key: Option<Seq<char>>,
}

impl View for Client {
    type V = ClientView;

    closed spec fn view(&self) -> ClientView {
        ClientView {
            base_url: self.base_url@,
            model: self.model@,
            key: keystore::bytes_of(self.key),
        }
    }
}

/// Where an API's path stands, with exactly one slash before it.
pub open spec fn under(base_url: Seq<char>, path: Seq<char>) -> Seq<char> {
    text::trim_end_of(base_url, '/') + path
}

impl Client {
    /// A client for `model` behind `base_url` — the prefix ending in
    /// `/v1` — presenting `key` when there is one. A local server that
    /// wants no key gets no header.
    pub fn new(base_url: String, model: String, key: Option<Secret>) -> (r: Self)
        ensures
            r@ == (ClientView {
                base_url: base_url@,
                model: model@,
                key: keystore::bytes_of(key),
            }),
    {
        Client { base_url, model, key }
    }

    /// The one provider constructor so far: Anthropic's OpenAI-compatible
    /// endpoint, speaking to `model` — or to the default that the host pins,
    /// when none is stated.
    pub fn anthropic(key: Secret, model: Option<String>, pinned: &str) -> (r: Self)
        ensures
            r@ == (ClientView {
                base_url: "https://api.anthropic.com/v1"@,
                model: match model {
                    Some(model) => model@,
                    None => pinned@,
                },
                key: Some(key.bytes()),
            }),
    {
        let model = match model {
            Some(model) => model,
            None => pinned.to_owned(),
        };
        Self::new("https://api.anthropic.com/v1".to_owned(), model, Some(key))
    }

    /// The model the client speaks to.
    pub fn model(&self) -> (r: &str)
        ensures
            r@ == self@.model,
    {
        self.model.as_str()
    }

    /// Where a request for a reply goes.
    pub fn url(&self) -> (r: String)
        ensures
            r@ == under(self@.base_url, "/chat/completions"@),
    {
        let base = text::trim_end_matches(self.base_url.as_str(), '/');
        text::cat2(base.as_str(), "/chat/completions")
    }

    /// The `authorization` header a request carries, when there is a key.
    pub fn authorization(&self) -> (r: Option<String>)
        ensures
            text::optional(r) == (match self@.key {
                Some(key) => Some("Bearer "@ + key),
                None => None,
            }),
    {
        match &self.key {
            Some(key) => Some(text::cat2("Bearer ", key.expose())),
            None => None,
        }
    }

    /// The body of a request for a reply: the system message first, then
    /// `messages` in order, with `tools` on offer when there are any.
    pub fn request(
        &self,
        system: &str,
        messages: &Vec<ChatMessage>,
        tools: &Vec<ToolSpec>,
    ) -> (r: String)
        ensures
            r@ == wire::request_text(
                self@.model,
                system@,
                message_views(messages@),
                wire::tool_views(tools@),
                None,
            ),
    {
        wire::request(self.model.as_str(), system, messages, tools, None)
    }
}

/// One model a provider will answer for: the id the configuration
/// states and the name a dropdown shows.
///
/// Unknown fields are absorbed, in the manner of the other wire types:
/// the Models endpoint says more about a model than a dropdown needs.
#[derive(Clone, Debug, Eq, PartialEq)]
pub struct ModelInfo {
    pub id: String,
    pub display_name: String,
}

/// Anthropic's native API, where the Models endpoint lives. Distinct from
/// the OpenAI-compatible `/v1` the chat client speaks to: each is used
/// where it is documented.
pub const ANTHROPIC_API: &'static str = "https://api.anthropic.com/v1";

/// The native API's version header, sent on every request to it.
pub const ANTHROPIC_VERSION: &'static str = "2023-06-01";

/// Whether a turn has been asked to stop.
#[derive(Debug)]
pub struct StopToken {
    stopped: bool,
}

impl StopToken {
    /// Whether the turn has been asked to stop.
    pub closed spec fn set(&self) -> bool {
        self.stopped
    }

    /// A token nobody has set.
    pub fn new() -> (r: Self)
        ensures
            !r.set(),
    {
        StopToken { stopped: false }
    }

    /// Asks the turn to stop. There is no taking it back.
    pub fn stop(&mut self)
        ensures
            final(self).set(),
    {
        self.stopped = true;
    }

    /// Whether the turn has been asked to stop.
    pub fn is_stopped(&self) -> (r: bool)
        ensures
            r == self.set(),
    {
        self.stopped
    }
}

} // verus!
