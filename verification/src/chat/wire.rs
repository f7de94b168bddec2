//! The wire shapes of the OpenAI-compatible chat-completions protocol,
//! and the mappings in and out of them: the request's text, the
//! server-sent events a reply streams as, and what each of them means.

use crate::chat;
use crate::chat::{
    ChatError, ChatErrorView, ChatMessage, ChatMessageView, Role, ToolCall, ToolCallView, ToolSpec,
    ToolSpecView,
};
use crate::json;
use crate::json::{Json, JsonView, RecordText};
use crate::text;
use vstd::prelude::*;

verus! {

// ----- the request -----

/// A speaker's wire-protocol name.
pub open spec fn role_word(role: Role) -> Seq<char> {
    match role {
        Role::User => "user"@,
        Role::Assistant => "assistant"@,
    }
}

/// A speaker's wire-protocol name.
pub fn role_name(role: Role) -> (r: &'static str)
    ensures
        r@ == role_word(role),
{
    match role {
        Role::User => "user",
        Role::Assistant => "assistant",
    }
}

/// The text of a string.
pub open spec fn string_text(s: Seq<char>) -> Seq<char> {
    json::written_as(JsonView::Text(s))
}

/// A completed call inside an assistant message, echoed back to the
/// model exactly as it asked for it.
pub open spec fn call_text(call: ToolCallView) -> Seq<char> {
    json::record_text(
        seq![
            ("id"@, string_text(call.id)),
            ("type"@, string_text("function"@)),
            (
                "function"@,
                json::record_text(
                    seq![
                        ("name"@, string_text(call.name)),
                        ("arguments"@, string_text(call.arguments)),
                    ],
                ),
            ),
        ],
    )
}

/// A message with nothing but words in it.
pub open spec fn said_text(role: Seq<char>, content: Seq<char>) -> Seq<char> {
    json::record_text(seq![("role"@, string_text(role)), ("content"@, string_text(content))])
}

/// The texts of a row of calls.
pub open spec fn call_texts(calls: Seq<ToolCallView>) -> Seq<Seq<char>> {
    calls.map_values(|call: ToolCallView| call_text(call))
}

/// One message of the request.
pub open spec fn message_text(message: ChatMessageView) -> Seq<char> {
    match message {
        ChatMessageView::Text { role, text } => said_text(role_word(role), text),
        ChatMessageView::ToolCalls(calls) => json::record_text(
            seq![
                ("role"@, string_text("assistant"@)),
                ("tool_calls"@, json::array_text(call_texts(calls))),
            ],
        ),
        ChatMessageView::ToolResult { id, content } => json::record_text(
            seq![
                ("role"@, string_text("tool"@)),
                ("content"@, string_text(content)),
                ("tool_call_id"@, string_text(id)),
            ],
        ),
    }
}

/// One tool on offer.
pub open spec fn tool_text(tool: ToolSpecView) -> Seq<char> {
    json::record_text(
        seq![
            ("type"@, string_text("function"@)),
            (
                "function"@,
                json::record_text(
                    seq![
                        ("name"@, string_text(tool.name)),
                        ("description"@, string_text(tool.description)),
                        ("parameters"@, json::written_as(tool.parameters)),
                    ],
                ),
            ),
        ],
    )
}

/// The views of a row of tools.
pub open spec fn tool_views(tools: Seq<ToolSpec>) -> Seq<ToolSpecView> {
    tools.map_values(|tool: ToolSpec| tool@)
}

/// The texts of a row of tools.
pub open spec fn tool_texts(tools: Seq<ToolSpecView>) -> Seq<Seq<char>> {
    tools.map_values(|tool: ToolSpecView| tool_text(tool))
}

/// The texts of a row of messages.
pub open spec fn message_texts(messages: Seq<ChatMessageView>) -> Seq<Seq<char>> {
    messages.map_values(|message: ChatMessageView| message_text(message))
}

/// The fields of the request: `tools` and `tool_choice` only when there
/// are any, so a plain request's text stays what it was before there
/// were tools.
pub open spec fn request_fields(
    model: Seq<char>,
    system: Seq<char>,
    messages: Seq<ChatMessageView>,
    tools: Seq<ToolSpecView>,
    tool_choice: Option<Seq<char>>,
) -> Seq<(Seq<char>, Seq<char>)> {
    let plain = seq![
        ("model"@, string_text(model)),
        (
            "messages"@,
            json::array_text(seq![said_text("system"@, system)] + message_texts(messages)),
        ),
        ("stream"@, "true"@),
    ];
    let offered = if tools.len() == 0 {
        plain
    } else {
        plain.push(("tools"@, json::array_text(tool_texts(tools))))
    };
    match tool_choice {
        Some(choice) => offered.push(("tool_choice"@, string_text(choice))),
        None => offered,
    }
}

/// The request body: the system message first, then `messages` in
/// order — utterances, the assistant's tool-call turns, and tools'
/// answers addressed by call id.
pub open spec fn request_text(
    model: Seq<char>,
    system: Seq<char>,
    messages: Seq<ChatMessageView>,
    tools: Seq<ToolSpecView>,
    tool_choice: Option<Seq<char>>,
) -> Seq<char> {
    json::record_text(request_fields(model, system, messages, tools, tool_choice))
}

fn call_record(call: &ToolCall) -> (r: String)
    ensures
        r@ == call_text(call@),
{
    let inner = RecordText::new().with_string("name", call.name.as_str()).with_string(
        "arguments",
        call.arguments.as_str(),
    );
    let function = inner.text();
    proof {
        assert(inner.fields() =~= seq![
            ("name"@, string_text(call.name@)),
            ("arguments"@, string_text(call.arguments@)),
        ]);
    }
    let outer = RecordText::new().with_string("id", call.id.as_str()).with_string(
        "type",
        "function",
    ).with("function", function.as_str());
    proof {
        assert(outer.fields() =~= seq![
            ("id"@, string_text(call.id@)),
            ("type"@, string_text("function"@)),
            ("function"@, function@),
        ]);
    }
    outer.text()
}

pub(crate) fn said_record(role: &str, content: &str) -> (r: String)
    ensures
        r@ == said_text(role@, content@),
{
    let record = RecordText::new().with_string("role", role).with_string("content", content);
    proof {
        assert(record.fields() =~= seq![
            ("role"@, string_text(role@)),
            ("content"@, string_text(content@)),
        ]);
    }
    record.text()
}

pub(crate) fn calls_array(calls: &Vec<ToolCall>) -> (r: String)
    ensures
        r@ == json::array_text(call_texts(chat::call_views(calls@))),
{
    let ghost texts = call_texts(chat::call_views(calls@));
    let mut parts: Vec<String> = Vec::new();
    let mut i: usize = 0;
    while i < calls.len()
        invariant
            i <= calls@.len() == texts.len(),
            parts@.len() == i,
            forall|k: int| 0 <= k < calls@.len() ==> #[trigger] texts[k] == call_text(calls@[k]@),
            forall|k: int| 0 <= k < i ==> (#[trigger] parts@[k])@ == texts[k],
        decreases calls@.len() - i,
    {
        parts.push(call_record(&calls[i]));
        i = i + 1;
    }
    proof {
        assert(text::views(parts@) =~= texts);
    }
    json::array(&parts)
}

fn message_record(message: &ChatMessage) -> (r: String)
    ensures
        r@ == message_text(message@),
{
    match message {
        ChatMessage::Text { role, text } => said_record(role_name(*role), text.as_str()),
        ChatMessage::ToolCalls(calls) => {
            let array = calls_array(calls);
            let record = RecordText::new().with_string("role", "assistant").with(
                "tool_calls",
                array.as_str(),
            );
            proof {
                assert(record.fields() =~= seq![
                    ("role"@, string_text("assistant"@)),
                    ("tool_calls"@, array@),
                ]);
            }
            record.text()
        },
        ChatMessage::ToolResult { id, content } => {
            let record = RecordText::new().with_string("role", "tool").with_string(
                "content",
                content.as_str(),
            ).with_string("tool_call_id", id.as_str());
            proof {
                assert(record.fields() =~= seq![
                    ("role"@, string_text("tool"@)),
                    ("content"@, string_text(content@)),
                    ("tool_call_id"@, string_text(id@)),
                ]);
            }
            record.text()
        },
    }
}

fn tool_record(tool: &ToolSpec) -> (r: String)
    ensures
        r@ == tool_text(tool@),
{
    let parameters = json::written(tool.parameters());
    let inner = RecordText::new().with_string("name", tool.name()).with_string(
        "description",
        tool.description(),
    ).with("parameters", parameters.as_str());
    let function = inner.text();
    proof {
        assert(inner.fields() =~= seq![
            ("name"@, string_text(tool@.name)),
            ("description"@, string_text(tool@.description)),
            ("parameters"@, parameters@),
        ]);
    }
    let outer = RecordText::new().with_string("type", "function").with(
        "function",
        function.as_str(),
    );
    proof {
        assert(outer.fields() =~= seq![
            ("type"@, string_text("function"@)),
            ("function"@, function@),
        ]);
    }
    outer.text()
}

/// The request body: the system message first, then `messages` in
/// order — utterances, the assistant's tool-call turns, and tools'
/// answers addressed by call id.
pub fn request(
    model: &str,
    system: &str,
    messages: &Vec<ChatMessage>,
    tools: &Vec<ToolSpec>,
    tool_choice: Option<&str>,
) -> (r: String)
    ensures
        r@ == request_text(
            model@,
            system@,
            chat::message_views(messages@),
            tool_views(tools@),
            match tool_choice {
                Some(choice) => Some(choice@),
                None => None,
            },
        ),
{
    let ghost wire = seq![said_text("system"@, system@)] + message_texts(
        chat::message_views(messages@),
    );
    let mut parts: Vec<String> = Vec::new();
    parts.push(said_record("system", system));
    let mut i: usize = 0;
    while i < messages.len()
        invariant
            i <= messages@.len(),
            wire.len() == messages@.len() + 1,
            parts@.len() == i + 1,
            parts@[0]@ == wire[0],
            forall|k: int|
                0 <= k < messages@.len() ==> #[trigger] wire[k + 1] == message_text(messages@[k]@),
            forall|k: int| 0 <= k <= i ==> (#[trigger] parts@[k])@ == wire[k],
        decreases messages@.len() - i,
    {
        parts.push(message_record(&messages[i]));
        proof {
            assert(wire[i + 1] == message_text(messages@[i as int]@));
        }
        i = i + 1;
    }
    proof {
        assert(text::views(parts@) =~= wire);
    }
    let array = json::array(&parts);
    let mut record = RecordText::new().with_string("model", model).with(
        "messages",
        array.as_str(),
    ).with("stream", "true");
    let ghost plain = seq![
        ("model"@, string_text(model@)),
        ("messages"@, json::array_text(wire)),
        ("stream"@, "true"@),
    ];
    proof {
        assert(record.fields() =~= plain);
    }
    if tools.len() > 0 {
        let ghost texts = tool_texts(tool_views(tools@));
        let mut offers: Vec<String> = Vec::new();
        let mut j: usize = 0;
        while j < tools.len()
            invariant
                j <= tools@.len() == texts.len(),
                offers@.len() == j,
                forall|k: int|
                    0 <= k < tools@.len() ==> #[trigger] texts[k] == tool_text(tools@[k]@),
                forall|k: int| 0 <= k < j ==> (#[trigger] offers@[k])@ == texts[k],
            decreases tools@.len() - j,
        {
            offers.push(tool_record(&tools[j]));
            j = j + 1;
        }
        proof {
            assert(text::views(offers@) =~= texts);
        }
        let offered = json::array(&offers);
        record = record.with("tools", offered.as_str());
    }
    match tool_choice {
        Some(choice) => {
            record = record.with_string("tool_choice", choice);
        },
        None => {},
    }
    record.text()
}

// ----- the events -----

/// Assembles server-sent-event lines into event data payloads.
///
/// Fed one line at a time: `data:` lines accumulate, a blank line
/// completes the event and hands back its payload (multiple data lines
/// joined with newlines, per the SSE contract), and every other field —
/// event names, ids, comments — is ignored, which is all the protocol
/// this stream speaks.
#[derive(Debug)]
pub struct Events {
    data: Vec<String>,
}

/// The data a line adds to the event in progress, if it adds any.
pub open spec fn datum(line: Seq<char>) -> Option<Seq<char>> {
    match text::after_prefix(line, "data:"@) {
        Some(data) => Some(text::without_first(data, ' ')),
        None => None,
    }
}

/// The event a row of data is.
pub open spec fn payload(data: Seq<Seq<char>>) -> Option<Seq<char>> {
    if data.len() == 0 {
        None
    } else {
        Some(text::join(data, "\n"@))
    }
}

/// The data in progress after a line, and the payload the line completes.
pub open spec fn after_line(data: Seq<Seq<char>>, line: Seq<char>) -> (
    Seq<Seq<char>>,
    Option<Seq<char>>,
) {
    let line = text::without_last(line, '\r');
    if line.len() == 0 {
        (Seq::empty(), payload(data))
    } else {
        match datum(line) {
            Some(more) => (data.push(more), None),
            None => (data, None),
        }
    }
}

impl Default for Events {
    /// No event in progress.
    fn default() -> (r: Self)
        ensures
            r.pending() == Seq::<Seq<char>>::empty(),
    {
        let data: Vec<String> = Vec::new();
        proof {
            assert(text::views(data@) =~= Seq::empty());
        }
        Events { data }
    }
}

impl Events {
    /// The data of the event in progress.
    pub closed spec fn pending(&self) -> Seq<Seq<char>> {
        text::views(self.data@)
    }

    /// One line in; the payload of the event it completes, if any.
    pub fn line(&mut self, line: &str) -> (r: Option<String>)
        ensures
            (final(self).pending(), text::optional(r)) == after_line(old(self).pending(), line@),
    {
        let line = text::strip_last(line, '\r');
        if text::is_empty(line.as_str()) {
            return self.flush();
        }
        match text::strip_prefix(line.as_str(), "data:") {
            Some(data) => {
                let ghost before = self.pending();
                let more = text::strip_first(data.as_str(), ' ');
                let ghost shown = more@;
                self.data.push(more);
                proof {
                    assert(self.pending() =~= before.push(shown));
                }
            },
            None => {},
        }
        None
    }

    /// The event in progress, for a stream that ended without its blank
    /// line.
    pub fn flush(&mut self) -> (r: Option<String>)
        ensures
            final(self).pending() == Seq::<Seq<char>>::empty(),
            text::optional(r) == payload(old(self).pending()),
    {
        proof {
            assert(self.pending().len() == self.data@.len());
        }
        if self.data.len() == 0 {
            proof {
                assert(self.pending() =~= Seq::empty());
            }
            None
        } else {
            let payload = text::joined(&self.data, "\n");
            self.data = Vec::new();
            proof {
                assert(self.pending() =~= Seq::empty());
            }
            Some(payload)
        }
    }
}

// ----- one payload -----

/// One delta's worth of one tool call: the id and name arrive once
/// per index, the arguments in as many pieces as the stream likes.
#[derive(Debug, Eq, PartialEq)]
pub struct ToolCallFragment {
    pub index: u64,
    pub id: Option<String>,
    pub name: Option<String>,
    pub arguments: Option<String>,
}

/// A [`ToolCallFragment`] over sequences.
pub struct FragmentView {
    pub index: nat,
    pub id: Option<Seq<char>>,
    pub name: Option<Seq<char>>,
    pub arguments: Option<Seq<char>>,
}

impl View for ToolCallFragment {
    type V = FragmentView;

    open spec fn view(&self) -> FragmentView {
        FragmentView {
            index: self.index as nat,
            id: text::optional(self.id),
            name: text::optional(self.name),
            arguments: text::optional(self.arguments),
        }
    }
}

/// The views of a row of fragments.
pub open spec fn fragment_views(fragments: Seq<ToolCallFragment>) -> Seq<FragmentView> {
    fragments.map_values(|fragment: ToolCallFragment| fragment@)
}

/// What one SSE data payload means to the stream.
#[derive(Debug, Eq, PartialEq)]
pub enum Step {
    /// A fragment of the reply.
    Delta(String),
    /// Fragments of tool calls, to be accumulated by index.
    ToolCalls(Vec<ToolCallFragment>),
    /// The model finished by asking for tools instead of speaking.
    ToolsFinished,
    /// The end of the stream.
    Done,
    /// Protocol housekeeping with nothing to say — a role announcement,
    /// an empty choice.
    Skip,
}

/// A [`Step`] over sequences.
pub enum StepView {
    Delta(Seq<char>),
    ToolCalls(Seq<FragmentView>),
    ToolsFinished,
    Done,
    Skip,
}

impl View for Step {
    type V = StepView;

    open spec fn view(&self) -> StepView {
        match self {
            Step::Delta(text) => StepView::Delta(text@),
            Step::ToolCalls(fragments) => StepView::ToolCalls(fragment_views(fragments@)),
            Step::ToolsFinished => StepView::ToolsFinished,
            Step::Done => StepView::Done,
            Step::Skip => StepView::Skip,
        }
    }
}

/// The name and the arguments of an optional function fragment.
pub open spec fn function_of(part: Option<JsonView>) -> Option<
    (Option<Seq<char>>, Option<Seq<char>>),
> {
    match part {
        None => Some((None, None)),
        Some(JsonView::Null) => Some((None, None)),
        Some(value) => {
            let name = json::optional_text(value.part(0, "name"@));
            let arguments = json::optional_text(value.part(1, "arguments"@));
            if value.holds(2) && name is Some && arguments is Some {
                Some((name->0, arguments->0))
            } else {
                None
            }
        },
    }
}

/// A fragment of a tool call, when the value is one.
pub open spec fn fragment_of(value: JsonView) -> Option<FragmentView> {
    let index = json::needed_whole(value.part(0, "index"@));
    let id = json::optional_text(value.part(1, "id"@));
    let function = function_of(value.part(2, "function"@));
    if value.holds(3) && index is Some && id is Some && function is Some {
        Some(
            FragmentView {
                index: index->0,
                id: id->0,
                name: (function->0).0,
                arguments: (function->0).1,
            },
        )
    } else {
        None
    }
}

/// A row of fragments, when every item is one.
pub open spec fn fragments_of(items: Seq<JsonView>) -> Option<Seq<FragmentView>>
    decreases items.len(),
{
    if items.len() == 0 {
        Some(Seq::empty())
    } else {
        match (fragments_of(items.drop_last()), fragment_of(items.last())) {
            (Some(front), Some(fragment)) => Some(front.push(fragment)),
            _ => None,
        }
    }
}

/// An optional row of fragments.
pub open spec fn optional_fragments(part: Option<JsonView>) -> Option<Option<Seq<FragmentView>>> {
    match part {
        None => Some(None),
        Some(JsonView::Null) => Some(None),
        Some(JsonView::Array(items)) => match fragments_of(items) {
            Some(fragments) => Some(Some(fragments)),
            None => None,
        },
        Some(_) => None,
    }
}

/// A choice as the stream spells it.
pub struct ChoiceView {
    pub content: Option<Seq<char>>,
    pub tool_calls: Option<Seq<FragmentView>>,
    pub finish_reason: Option<Seq<char>>,
}

/// A choice, when the value is one.
pub open spec fn choice_of(value: JsonView) -> Option<ChoiceView> {
    let delta = value.part(0, "delta"@);
    let finish_reason = json::optional_text(value.part(1, "finish_reason"@));
    if value.holds(2) && delta is Some && finish_reason is Some && (delta->0).holds(2) {
        let content = json::optional_text((delta->0).part(0, "content"@));
        let tool_calls = optional_fragments((delta->0).part(1, "tool_calls"@));
        if content is Some && tool_calls is Some {
            Some(
                ChoiceView {
                    content: content->0,
                    tool_calls: tool_calls->0,
                    finish_reason: finish_reason->0,
                },
            )
        } else {
            None
        }
    } else {
        None
    }
}

/// The first choice of a row: `None` where some item is no choice, and
/// nothing where there is none.
pub open spec fn first_choice(items: Seq<JsonView>) -> Option<Option<ChoiceView>>
    decreases items.len(),
{
    if items.len() == 0 {
        Some(None)
    } else {
        match (first_choice(items.drop_last()), choice_of(items.last())) {
            (Some(Some(choice)), Some(_)) => Some(Some(choice)),
            (Some(None), Some(choice)) => Some(Some(choice)),
            _ => None,
        }
    }
}

/// What a choice means to the stream.
pub open spec fn choice_step(choice: ChoiceView) -> StepView {
    if choice.tool_calls is Some {
        StepView::ToolCalls(choice.tool_calls->0)
    } else if choice.content is Some {
        StepView::Delta(choice.content->0)
    } else if choice.finish_reason == Some("tool_calls"@) {
        StepView::ToolsFinished
    } else {
        StepView::Skip
    }
}

/// What a chunk means to the stream: nothing where the value is none.
pub open spec fn chunk_step(value: JsonView) -> Option<StepView> {
    if !value.holds(1) {
        None
    } else {
        match value.part(0, "choices"@) {
            Some(JsonView::Array(items)) => match first_choice(items) {
                Some(Some(choice)) => Some(choice_step(choice)),
                Some(None) => Some(StepView::Skip),
                None => None,
            },
            _ => None,
        }
    }
}

/// What one data payload means to the stream.
pub open spec fn stepped(payload: Seq<char>) -> Result<StepView, ChatErrorView> {
    if text::trimmed(payload) == "[DONE]"@ {
        Ok(StepView::Done)
    } else {
        match json::read_as(payload) {
            Ok(value) => match chunk_step(value) {
                Some(step) => Ok(step),
                None => Err(ChatErrorView::MalformedStream(payload)),
            },
            Err(_) => Err(ChatErrorView::MalformedStream(payload)),
        }
    }
}

/// Reads one data payload of the stream.
///
/// # Errors
///
/// A payload that is not a chunk of a reply, quoted.
pub fn step(payload: &str) -> (r: Result<Step, ChatError>)
    ensures
        match r {
            Ok(step) => stepped(payload@) == Ok::<StepView, ChatErrorView>(step@),
            Err(error) => stepped(payload@) == Err::<StepView, ChatErrorView>(error@),
        },
{
    if text::same(text::trim(payload).as_str(), "[DONE]") {
        return Ok(Step::Done);
    }
    match json::read(payload) {
        Ok(value) => match step_of(&value) {
            Some(step) => Ok(step),
            None => Err(ChatError::MalformedStream(payload.to_owned())),
        },
        Err(_) => Err(ChatError::MalformedStream(payload.to_owned())),
    }
}

/// What a decoded chunk means to the stream; nothing where it is none.
pub fn step_of(value: &Json) -> (r: Option<Step>)
    ensures
        match r {
            Some(step) => chunk_step(value@) == Some(step@),
            None => chunk_step(value@) is None,
        },
{
    if !value.holds(1) {
        return None;
    }
    match value.part(0, "choices") {
        Some(Json::Array(items)) => match read_first_choice(items) {
            Some(Some(choice)) => Some(choice_means(choice)),
            Some(None) => Some(Step::Skip),
            None => None,
        },
        _ => None,
    }
}

struct Choice {
    content: Option<String>,
    tool_calls: Option<Vec<ToolCallFragment>>,
    finish_reason: Option<String>,
}

spec fn choice_view(choice: Choice) -> ChoiceView {
    ChoiceView {
        content: text::optional(choice.content),
        tool_calls: match choice.tool_calls {
            Some(fragments) => Some(fragment_views(fragments@)),
            None => None,
        },
        finish_reason: text::optional(choice.finish_reason),
    }
}

fn choice_means(choice: Choice) -> (r: Step)
    ensures
        r@ == choice_step(choice_view(choice)),
{
    match choice.tool_calls {
        Some(fragments) => Step::ToolCalls(fragments),
        None => match choice.content {
            Some(content) => Step::Delta(content),
            None => {
                let asked = match &choice.finish_reason {
                    Some(reason) => text::same(reason.as_str(), "tool_calls"),
                    None => false,
                };
                if asked {
                    Step::ToolsFinished
                } else {
                    Step::Skip
                }
            },
        },
    }
}

fn read_function(part: Option<&Json>) -> (r: Option<(Option<String>, Option<String>)>)
    ensures
        match r {
            Some(function) => function_of(json::part_view(part)) == Some(
                (text::optional(function.0), text::optional(function.1)),
            ),
            None => function_of(json::part_view(part)) is None,
        },
{
    match part {
        None => Some((None, None)),
        Some(value) => {
            if value.is_null() {
                return Some((None, None));
            }
            if !value.holds(2) {
                return None;
            }
            match (
                json::read_optional_text(value.part(0, "name")),
                json::read_optional_text(value.part(1, "arguments")),
            ) {
                (Some(name), Some(arguments)) => Some((name, arguments)),
                _ => None,
            }
        },
    }
}

fn read_fragment(value: &Json) -> (r: Option<ToolCallFragment>)
    ensures
        match r {
            Some(fragment) => fragment_of(value@) == Some(fragment@),
            None => fragment_of(value@) is None,
        },
{
    if !value.holds(3) {
        return None;
    }
    match (
        json::read_whole(value.part(0, "index")),
        json::read_optional_text(value.part(1, "id")),
        read_function(value.part(2, "function")),
    ) {
        (Some(index), Some(id), Some((name, arguments))) => Some(
            ToolCallFragment { index, id, name, arguments },
        ),
        _ => None,
    }
}

/// A longer row is not all fragments where a shorter one is not.
proof fn fragments_to_the_end(items: Seq<JsonView>, i: int)
    requires
        0 <= i <= items.len(),
        fragments_of(items.take(i)) is None,
    ensures
        fragments_of(items) is None,
    decreases items.len() - i,
{
    if i == items.len() {
        assert(items.take(i) =~= items);
    } else {
        assert(items.take(i + 1).drop_last() =~= items.take(i));
        fragments_to_the_end(items, i + 1);
    }
}

fn read_fragments(items: &Vec<Json>) -> (r: Option<Vec<ToolCallFragment>>)
    ensures
        match r {
            Some(fragments) => fragments_of(json::items_view(items@)) == Some(
                fragment_views(fragments@),
            ),
            None => fragments_of(json::items_view(items@)) is None,
        },
{
    let ghost view = json::items_view(items@);
    proof {
        json::item_views(items@);
    }
    let mut fragments: Vec<ToolCallFragment> = Vec::new();
    let mut i: usize = 0;
    proof {
        assert(fragment_views(fragments@) =~= Seq::empty());
    }
    while i < items.len()
        invariant
            i <= items@.len() == view.len(),
            view == json::items_view(items@),
            forall|k: int| 0 <= k < items@.len() ==> #[trigger] view[k] == items@[k]@,
            fragments_of(view.take(i as int)) == Some(fragment_views(fragments@)),
        decreases items@.len() - i,
    {
        proof {
            assert(view.take(i + 1).drop_last() =~= view.take(i as int));
            assert(view.take(i + 1).last() == view[i as int]);
        }
        match read_fragment(&items[i]) {
            Some(fragment) => {
                let ghost before = fragment_views(fragments@);
                let ghost shown = fragment@;
                fragments.push(fragment);
                proof {
                    assert(fragment_views(fragments@) =~= before.push(shown));
                }
            },
            None => {
                proof {
                    fragments_to_the_end(view, i + 1);
                }
                return None;
            },
        }
        i = i + 1;
    }
    proof {
        assert(view.take(i as int) =~= view);
    }
    Some(fragments)
}

fn read_choice(value: &Json) -> (r: Option<Choice>)
    ensures
        match r {
            Some(choice) => choice_of(value@) == Some(choice_view(choice)),
            None => choice_of(value@) is None,
        },
{
    if !value.holds(2) {
        return None;
    }
    let finish_reason = match json::read_optional_text(value.part(1, "finish_reason")) {
        Some(finish_reason) => finish_reason,
        None => return None,
    };
    let delta: &Json = match value.part(0, "delta") {
        Some(delta) => delta,
        None => return None,
    };
    if !delta.holds(2) {
        return None;
    }
    let content = match json::read_optional_text(delta.part(0, "content")) {
        Some(content) => content,
        None => return None,
    };
    match delta.part(1, "tool_calls") {
        None => Some(Choice { content, tool_calls: None, finish_reason }),
        Some(Json::Null) => Some(Choice { content, tool_calls: None, finish_reason }),
        Some(Json::Array(items)) => match read_fragments(items) {
            Some(fragments) => Some(Choice { content, tool_calls: Some(fragments), finish_reason }),
            None => None,
        },
        Some(_) => None,
    }
}

/// A longer row has no choice to read where a shorter one has none.
proof fn choices_to_the_end(items: Seq<JsonView>, i: int)
    requires
        0 <= i <= items.len(),
        first_choice(items.take(i)) is None,
    ensures
        first_choice(items) is None,
    decreases items.len() - i,
{
    if i == items.len() {
        assert(items.take(i) =~= items);
    } else {
        assert(items.take(i + 1).drop_last() =~= items.take(i));
        choices_to_the_end(items, i + 1);
    }
}

fn read_first_choice(items: &Vec<Json>) -> (r: Option<Option<Choice>>)
    ensures
        match r {
            Some(Some(choice)) => first_choice(json::items_view(items@)) == Some(
                Some(choice_view(choice)),
            ),
            Some(None) => first_choice(json::items_view(items@)) == Some(None::<ChoiceView>),
            None => first_choice(json::items_view(items@)) is None,
        },
{
    let ghost view = json::items_view(items@);
    proof {
        json::item_views(items@);
    }
    let mut first: Option<Choice> = None;
    let mut i: usize = 0;
    while i < items.len()
        invariant
            i <= items@.len() == view.len(),
            view == json::items_view(items@),
            forall|k: int| 0 <= k < items@.len() ==> #[trigger] view[k] == items@[k]@,
            first_choice(view.take(i as int)) == Some(
                match first {
                    Some(choice) => Some(choice_view(choice)),
                    None => None,
                },
            ),
            i > 0 ==> first is Some,
        decreases items@.len() - i,
    {
        proof {
            assert(view.take(i + 1).drop_last() =~= view.take(i as int));
            assert(view.take(i + 1).last() == view[i as int]);
        }
        match read_choice(&items[i]) {
            Some(choice) => {
                if i == 0 {
                    first = Some(choice);
                }
            },
            None => {
                proof {
                    choices_to_the_end(view, i + 1);
                }
                return None;
            },
        }
        i = i + 1;
    }
    proof {
        assert(view.take(i as int) =~= view);
    }
    Some(first)
}

} // verus!
