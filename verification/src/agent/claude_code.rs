//! The first real engine: an [`Agent`] whose child is a coding CLI in
//! headless print mode, and a typed reading of what it says.
//!
//! [`ClaudeCode`] is data — a binary path, a working directory, a
//! prompt, and optionally a model and an API key. Its Task pins Epik's
//! settled isolation posture: the agent runs with Epik's configuration
//! (`--settings '{}'`, `--strict-mcp-config`), never the machine-wide
//! setup, and with `--dangerously-skip-permissions` —
//! deliberate autonomy, because events only flow *out* of an agent;
//! there is no channel to answer a permission prompt, so the agent must
//! never ask one. Its containment is the working directory and the
//! environment it is handed. The prompt rides the Task's stdin payload,
//! not argv: stdin is the CLI's file-like channel, the right fit for
//! multi-line prompts of arbitrary length.
//!
//! The CLI's stream-json arrives as lines; [`interpret`] layers the
//! engine's meaning on top as a pure function over lines — modelling
//! only the fields Epik reads, absorbing everything else. A line that is
//! not JSON, or JSON of an unmodelled shape, interprets to nothing;
//! nothing a newer CLI says can break decoding.

use crate::agent;
use crate::agent::{Agent, Task};
use crate::json;
use crate::json::{Json, JsonView};
use crate::keystore;
use crate::keystore::Secret;
use crate::text;
use vstd::prelude::*;

verus! {

/// One thing Epik understands from the CLI's stream, in the order
/// said. The typed view is deliberately small: enough to narrate
/// progress and settle the outcome, no more.
#[derive(Debug, Eq, PartialEq)]
pub enum Update {
    /// The session opened: its id, and the model actually speaking.
    Session { id: String, model: String },
    /// The engine said something — progress narration.
    Text { text: String },
    /// The engine reached for a tool: enough to say "it's editing
    /// files" or "it's running tests", no more.
    ToolUse { name: String },
    /// The terminal line: how the run ended, in the engine's own words,
    /// with the bill when one was presented — in dollars, as the number
    /// is spelled.
    Result {
        ok: bool,
        text: String,
        cost_usd: Option<String>,
        input_tokens: Option<u64>,
        output_tokens: Option<u64>,
    },
}

/// An [`Update`] over sequences.
pub enum UpdateView {
    Session { id: Seq<char>, model: Seq<char> },
    Text { text: Seq<char> },
    ToolUse { name: Seq<char> },
    Result {
        ok: bool,
        text: Seq<char>,
        cost_usd: Option<Seq<char>>,
        input_tokens: Option<nat>,
        output_tokens: Option<nat>,
    },
}

/// A count over the naturals.
pub open spec fn counted(n: Option<u64>) -> Option<nat> {
    match n {
        Some(n) => Some(n as nat),
        None => None,
    }
}

impl View for Update {
    type V = UpdateView;

    open spec fn view(&self) -> UpdateView {
        match self {
            Update::Session { id, model } => UpdateView::Session { id: id@, model: model@ },
            Update::Text { text } => UpdateView::Text { text: text@ },
            Update::ToolUse { name } => UpdateView::ToolUse { name: name@ },
            Update::Result { ok, text, cost_usd, input_tokens, output_tokens } =>
                UpdateView::Result {
                ok: *ok,
                text: text@,
                cost_usd: text::optional(*cost_usd),
                input_tokens: counted(*input_tokens),
                output_tokens: counted(*output_tokens),
            },
        }
    }
}

impl Clone for Update {
    fn clone(&self) -> (r: Self)
        ensures
            r@ == self@,
    {
        match self {
            Update::Session { id, model } => Update::Session {
                id: id.clone(),
                model: model.clone(),
            },
            Update::Text { text } => Update::Text { text: text.clone() },
            Update::ToolUse { name } => Update::ToolUse { name: name.clone() },
            Update::Result { ok, text, cost_usd, input_tokens, output_tokens } => Update::Result {
                ok: *ok,
                text: text.clone(),
                cost_usd: cost_usd.clone(),
                input_tokens: *input_tokens,
                output_tokens: *output_tokens,
            },
        }
    }
}

/// The updates of a row.
pub open spec fn update_views(updates: Seq<Update>) -> Seq<UpdateView> {
    updates.map_values(|update: Update| update@)
}

// ----- the wire: only the fields Epik reads, everything else absorbed -----

/// A content block as the wire spells it.
pub struct BlockView {
    pub kind: Seq<char>,
    pub text: Option<Seq<char>>,
    pub name: Option<Seq<char>>,
}

/// A line as the wire spells it.
pub struct LineView {
    pub kind: Seq<char>,
    pub subtype: Seq<char>,
    pub session_id: Option<Seq<char>>,
    pub model: Option<Seq<char>>,
    pub message: Option<Seq<BlockView>>,
    pub is_error: Option<bool>,
    pub result: Option<Seq<char>>,
    pub errors: Seq<Seq<char>>,
    pub total_cost_usd: Option<Seq<char>>,
    pub usage: Option<(Option<nat>, Option<nat>)>,
}

/// A content block, when the value is one.
pub open spec fn block_of(value: JsonView) -> Option<BlockView> {
    let kind = json::text_or_empty(value.part(0, "type"@));
    let text = json::optional_text(value.part(1, "text"@));
    let name = json::optional_text(value.part(2, "name"@));
    if value.holds(3) && kind is Some && text is Some && name is Some {
        Some(BlockView { kind: kind->0, text: text->0, name: name->0 })
    } else {
        None
    }
}

/// A row of content blocks, when every item is one.
pub open spec fn blocks_of(items: Seq<JsonView>) -> Option<Seq<BlockView>>
    decreases items.len(),
{
    if items.len() == 0 {
        Some(Seq::empty())
    } else {
        match (blocks_of(items.drop_last()), block_of(items.last())) {
            (Some(front), Some(block)) => Some(front.push(block)),
            _ => None,
        }
    }
}

/// A message's content, when the value is a message.
pub open spec fn message_of(value: JsonView) -> Option<Seq<BlockView>> {
    if !value.holds(1) {
        None
    } else {
        match value.part(0, "content"@) {
            None => Some(Seq::empty()),
            Some(JsonView::Array(items)) => blocks_of(items),
            Some(_) => None,
        }
    }
}

/// An optional message.
pub open spec fn optional_message(part: Option<JsonView>) -> Option<Option<Seq<BlockView>>> {
    match part {
        None => Some(None),
        Some(JsonView::Null) => Some(None),
        Some(value) => match message_of(value) {
            Some(content) => Some(Some(content)),
            None => None,
        },
    }
}

/// An optional usage.
pub open spec fn optional_usage(part: Option<JsonView>) -> Option<
    Option<(Option<nat>, Option<nat>)>,
> {
    match part {
        None => Some(None),
        Some(JsonView::Null) => Some(None),
        Some(value) => {
            let input = json::optional_whole(value.part(0, "input_tokens"@));
            let output = json::optional_whole(value.part(1, "output_tokens"@));
            if value.holds(2) && input is Some && output is Some {
                Some(Some((input->0, output->0)))
            } else {
                None
            }
        },
    }
}

/// A line, when the value is one.
pub open spec fn line_of(value: JsonView) -> Option<LineView> {
    let kind = json::text_or_empty(value.part(0, "type"@));
    let subtype = json::text_or_empty(value.part(1, "subtype"@));
    let session_id = json::optional_text(value.part(2, "session_id"@));
    let model = json::optional_text(value.part(3, "model"@));
    let message = optional_message(value.part(4, "message"@));
    let is_error = json::optional_flag(value.part(5, "is_error"@));
    let result = json::optional_text(value.part(6, "result"@));
    let errors = json::texts_or_empty(value.part(7, "errors"@));
    let total_cost_usd = json::optional_number(value.part(8, "total_cost_usd"@));
    let usage = optional_usage(value.part(9, "usage"@));
    if value.holds(10) && kind is Some && subtype is Some && session_id is Some && model is Some
        && message is Some && is_error is Some && result is Some && errors is Some
        && total_cost_usd is Some && usage is Some {
        Some(
            LineView {
                kind: kind->0,
                subtype: subtype->0,
                session_id: session_id->0,
                model: model->0,
                message: message->0,
                is_error: is_error->0,
                result: result->0,
                errors: errors->0,
                total_cost_usd: total_cost_usd->0,
                usage: usage->0,
            },
        )
    } else {
        None
    }
}

/// The update a content block carries, if Epik models it.
pub open spec fn block_update(block: BlockView) -> Option<UpdateView> {
    if block.kind == "text"@ && block.text is Some {
        Some(UpdateView::Text { text: block.text->0 })
    } else if block.kind == "tool_use"@ && block.kind != "text"@ && block.name is Some {
        Some(UpdateView::ToolUse { name: block.name->0 })
    } else {
        None
    }
}

/// The updates a row of content blocks carries, in order.
pub open spec fn block_updates(blocks: Seq<BlockView>) -> Seq<UpdateView>
    decreases blocks.len(),
{
    if blocks.len() == 0 {
        Seq::empty()
    } else {
        match block_update(blocks.last()) {
            Some(update) => block_updates(blocks.drop_last()).push(update),
            None => block_updates(blocks.drop_last()),
        }
    }
}

/// The terminal update of a `result` line.
pub open spec fn result_of(line: LineView) -> UpdateView {
    UpdateView::Result {
        ok: line.is_error != Some(true),
        text: match line.result {
            Some(text) => text,
            None => text::join(line.errors, "; "@),
        },
        cost_usd: line.total_cost_usd,
        input_tokens: match line.usage {
            Some(usage) => usage.0,
            None => None,
        },
        output_tokens: match line.usage {
            Some(usage) => usage.1,
            None => None,
        },
    }
}

/// The updates a line carries.
pub open spec fn updates_of(line: LineView) -> Seq<UpdateView> {
    if line.kind == "system"@ && line.subtype == "init"@ {
        if line.session_id is Some && line.model is Some {
            seq![UpdateView::Session { id: line.session_id->0, model: line.model->0 }]
        } else {
            Seq::empty()
        }
    } else if line.kind == "assistant"@ {
        match line.message {
            Some(content) => block_updates(content),
            None => Seq::empty(),
        }
    } else if line.kind == "result"@ {
        seq![result_of(line)]
    } else {
        Seq::empty()
    }
}

/// The updates a value carries: those of a line, or none.
pub open spec fn understood(value: JsonView) -> Seq<UpdateView> {
    match line_of(value) {
        Some(line) => updates_of(line),
        None => Seq::empty(),
    }
}

/// The updates a text carries.
pub open spec fn interpreted(line: Seq<char>) -> Seq<UpdateView> {
    match json::read_as(line) {
        Ok(value) => understood(value),
        Err(_) => Seq::empty(),
    }
}

/// Reads one stream-json line into the [`Update`]s it carries — usually
/// one, but an assistant message holds a list of content blocks, and
/// every modelled block is an update. Unmodelled shapes — hooks,
/// thinking, tool results, whatever a newer CLI invents — interpret to
/// an empty Vec, never an error.
pub fn interpret(line: &str) -> (r: Vec<Update>)
    ensures
        update_views(r@) == interpreted(line@),
{
    match json::read(line) {
        Ok(value) => understand(&value),
        Err(_) => {
            let none: Vec<Update> = Vec::new();
            assert(update_views(none@) =~= Seq::empty());
            none
        },
    }
}

struct Block {
    kind: String,
    text: Option<String>,
    name: Option<String>,
}

spec fn block_view(block: Block) -> BlockView {
    BlockView {
        kind: block.kind@,
        text: text::optional(block.text),
        name: text::optional(block.name),
    }
}

spec fn block_views(blocks: Seq<Block>) -> Seq<BlockView> {
    blocks.map_values(|block: Block| block_view(block))
}

fn read_block(value: &Json) -> (r: Option<Block>)
    ensures
        match r {
            Some(block) => block_of(value@) == Some(block_view(block)),
            None => block_of(value@) is None,
        },
{
    if !value.holds(3) {
        return None;
    }
    match (
        json::read_text_or_empty(value.part(0, "type")),
        json::read_optional_text(value.part(1, "text")),
        json::read_optional_text(value.part(2, "name")),
    ) {
        (Some(kind), Some(text), Some(name)) => Some(Block { kind, text, name }),
        _ => None,
    }
}

/// A longer row is not all blocks where a shorter one is not.
proof fn blocks_to_the_end(items: Seq<JsonView>, i: int)
    requires
        0 <= i <= items.len(),
        blocks_of(items.take(i)) is None,
    ensures
        blocks_of(items) is None,
    decreases items.len() - i,
{
    if i == items.len() {
        assert(items.take(i) =~= items);
    } else {
        assert(items.take(i + 1).drop_last() =~= items.take(i));
        blocks_to_the_end(items, i + 1);
    }
}

fn read_blocks(items: &Vec<Json>) -> (r: Option<Vec<Block>>)
    ensures
        match r {
            Some(blocks) => blocks_of(json::items_view(items@)) == Some(block_views(blocks@)),
            None => blocks_of(json::items_view(items@)) is None,
        },
{
    let ghost view = json::items_view(items@);
    proof {
        json::item_views(items@);
    }
    let mut blocks: Vec<Block> = Vec::new();
    let mut i: usize = 0;
    proof {
        assert(block_views(blocks@) =~= Seq::empty());
    }
    while i < items.len()
        invariant
            i <= items@.len() == view.len(),
            view == json::items_view(items@),
            forall|k: int| 0 <= k < items@.len() ==> #[trigger] view[k] == items@[k]@,
            blocks_of(view.take(i as int)) == Some(block_views(blocks@)),
        decreases items@.len() - i,
    {
        proof {
            assert(view.take(i + 1).drop_last() =~= view.take(i as int));
            assert(view.take(i + 1).last() == view[i as int]);
        }
        match read_block(&items[i]) {
            Some(block) => {
                let ghost before = block_views(blocks@);
                let ghost shown = block_view(block);
                blocks.push(block);
                proof {
                    assert(block_views(blocks@) =~= before.push(shown));
                }
            },
            None => {
                proof {
                    blocks_to_the_end(view, i + 1);
                }
                return None;
            },
        }
        i = i + 1;
    }
    proof {
        assert(view.take(i as int) =~= view);
    }
    Some(blocks)
}

fn read_message(part: Option<&Json>) -> (r: Option<Option<Vec<Block>>>)
    ensures
        match r {
            Some(Some(blocks)) => optional_message(json::part_view(part)) == Some(
                Some(block_views(blocks@)),
            ),
            Some(None) => optional_message(json::part_view(part)) == Some(None::<Seq<BlockView>>),
            None => optional_message(json::part_view(part)) is None,
        },
{
    match part {
        None => Some(None),
        Some(value) => {
            if value.is_null() {
                return Some(None);
            }
            if !value.holds(1) {
                return None;
            }
            match value.part(0, "content") {
                None => {
                    let none: Vec<Block> = Vec::new();
                    assert(block_views(none@) =~= Seq::empty());
                    Some(Some(none))
                },
                Some(Json::Array(items)) => match read_blocks(items) {
                    Some(blocks) => Some(Some(blocks)),
                    None => None,
                },
                Some(_) => None,
            }
        },
    }
}

fn read_usage(part: Option<&Json>) -> (r: Option<Option<(Option<u64>, Option<u64>)>>)
    ensures
        match r {
            Some(Some(usage)) => optional_usage(json::part_view(part)) == Some(
                Some((counted(usage.0), counted(usage.1))),
            ),
            Some(None) => optional_usage(json::part_view(part)) == Some(
                None::<(Option<nat>, Option<nat>)>,
            ),
            None => optional_usage(json::part_view(part)) is None,
        },
{
    match part {
        None => Some(None),
        Some(value) => {
            if value.is_null() {
                return Some(None);
            }
            if !value.holds(2) {
                return None;
            }
            match (
                json::read_optional_whole(value.part(0, "input_tokens")),
                json::read_optional_whole(value.part(1, "output_tokens")),
            ) {
                (Some(input), Some(output)) => Some(Some((input, output))),
                _ => None,
            }
        },
    }
}

/// Reads one decoded line into the [`Update`]s it carries.
pub fn understand(value: &Json) -> (r: Vec<Update>)
    ensures
        update_views(r@) == understood(value@),
{
    let mut updates: Vec<Update> = Vec::new();
    proof {
        assert(update_views(updates@) =~= Seq::empty());
    }
    if !value.holds(10) {
        return updates;
    }
    let kind = match json::read_text_or_empty(value.part(0, "type")) {
        Some(kind) => kind,
        None => return updates,
    };
    let subtype = match json::read_text_or_empty(value.part(1, "subtype")) {
        Some(subtype) => subtype,
        None => return updates,
    };
    let session_id = match json::read_optional_text(value.part(2, "session_id")) {
        Some(session_id) => session_id,
        None => return updates,
    };
    let model = match json::read_optional_text(value.part(3, "model")) {
        Some(model) => model,
        None => return updates,
    };
    let message = match read_message(value.part(4, "message")) {
        Some(message) => message,
        None => return updates,
    };
    let is_error = match json::read_optional_flag(value.part(5, "is_error")) {
        Some(is_error) => is_error,
        None => return updates,
    };
    let result = match json::read_optional_text(value.part(6, "result")) {
        Some(result) => result,
        None => return updates,
    };
    let errors = match json::read_texts_or_empty(value.part(7, "errors")) {
        Some(errors) => errors,
        None => return updates,
    };
    let total_cost_usd = match json::read_optional_number(value.part(8, "total_cost_usd")) {
        Some(total_cost_usd) => total_cost_usd,
        None => return updates,
    };
    let usage = match read_usage(value.part(9, "usage")) {
        Some(usage) => usage,
        None => return updates,
    };
    let ghost line = line_of(value@)->0;
    assert(line_of(value@) is Some);
    if text::same(kind.as_str(), "system") && text::same(subtype.as_str(), "init") {
        match (session_id, model) {
            (Some(id), Some(model)) => {
                let ghost opened = UpdateView::Session { id: id@, model: model@ };
                updates.push(Update::Session { id, model });
                assert(update_views(updates@) =~= seq![opened]);
                updates
            },
            _ => updates,
        }
    } else if text::same(kind.as_str(), "assistant") {
        match message {
            Some(blocks) => updates_in(&blocks),
            None => updates,
        }
    } else if text::same(kind.as_str(), "result") {
        let text = match result {
            Some(text) => text,
            None => text::joined(&errors, "; "),
        };
        let ok = match is_error {
            Some(is_error) => !is_error,
            None => true,
        };
        let (input_tokens, output_tokens) = match usage {
            Some((input, output)) => (input, output),
            None => (None, None),
        };
        updates.push(
            Update::Result { ok, text, cost_usd: total_cost_usd, input_tokens, output_tokens },
        );
        assert(update_views(updates@) =~= seq![result_of(line)]);
        updates
    } else {
        updates
    }
}

fn updates_in(blocks: &Vec<Block>) -> (r: Vec<Update>)
    ensures
        update_views(r@) == block_updates(block_views(blocks@)),
{
    let ghost view = block_views(blocks@);
    let mut updates: Vec<Update> = Vec::new();
    let mut i: usize = 0;
    proof {
        assert(update_views(updates@) =~= Seq::empty());
    }
    while i < blocks.len()
        invariant
            i <= blocks@.len() == view.len(),
            view == block_views(blocks@),
            update_views(updates@) == block_updates(view.take(i as int)),
        decreases blocks@.len() - i,
    {
        let block: &Block = &blocks[i];
        proof {
            assert(view.take(i + 1).drop_last() =~= view.take(i as int));
            assert(view.take(i + 1).last() == block_view(*block));
        }
        let ghost before = update_views(updates@);
        if text::same(block.kind.as_str(), "text") {
            match &block.text {
                Some(text) => {
                    updates.push(Update::Text { text: text.clone() });
                    proof {
                        assert(update_views(updates@) =~= before.push(
                            UpdateView::Text { text: text@ },
                        ));
                    }
                },
                None => {},
            }
        } else if text::same(block.kind.as_str(), "tool_use") {
            match &block.name {
                Some(name) => {
                    updates.push(Update::ToolUse { name: name.clone() });
                    proof {
                        assert(update_views(updates@) =~= before.push(
                            UpdateView::ToolUse { name: name@ },
                        ));
                    }
                },
                None => {},
            }
        }
        proof {
            different_words();
        }
        i = i + 1;
    }
    proof {
        assert(view.take(i as int) =~= view);
    }
    updates
}

/// The two kinds of block are two words.
proof fn different_words()
    ensures
        "text"@ != "tool_use"@,
{
    reveal_strlit("text");
    reveal_strlit("tool_use");
    assert("text"@.len() != "tool_use"@.len());
}

/// The CLI as an Agent. Data only: the caller supplies the
/// binary's absolute path — no PATH divination — and resolves any API
/// key itself; this type never touches the keystore. With no key, the
/// CLI's own logged-in auth applies; both are legitimate.
#[derive(Clone)]
pub struct ClaudeCode {
    pub binary: String,
    pub cwd: String,
    pub prompt: String,
    pub model: Option<String>,
    pub api_key: Option<Secret>,
}

/// The command line of the CLI: the settled posture, with the model where
/// one is stated — and the prompt not in it.
pub open spec fn posture(binary: Seq<char>, model: Option<Seq<char>>) -> Seq<Seq<char>> {
    seq![binary, "-p"@, "--output-format"@, "stream-json"@, "--verbose"@] + (match model {
        Some(model) => seq!["--model"@, model],
        None => Seq::empty(),
    }) + seq![
        "--settings"@,
        "{}"@,
        "--strict-mcp-config"@,
        "--dangerously-skip-permissions"@,
    ]
}

impl ClaudeCode {
    /// The Agent as it is printed: its key is not.
    pub fn debug(&self) -> (r: String)
        ensures
            r@ == "ClaudeCode { binary: "@ + text::quoted_as(self.binary@) + ", cwd: "@
                + text::quoted_as(self.cwd@) + ", prompt: "@ + text::quoted_as(self.prompt@)
                + ", model: "@ + agent::optional_shown(text::optional(self.model)) + ", api_key: "@
                + (if self.api_key is Some {
                "Some("@ + keystore::REDACTED@ + ")"@
            } else {
                "None"@
            }) + " }"@,
    {
        let binary = text::quoted(self.binary.as_str());
        let cwd = text::quoted(self.cwd.as_str());
        let prompt = text::quoted(self.prompt.as_str());
        let model = agent::show_optional(&self.model);
        let key = match &self.api_key {
            Some(key) => {
                let hidden = key.debug();
                text::cat3("Some(", hidden.as_str(), ")")
            },
            None => "None".to_owned(),
        };
        let first = text::cat5(
            "ClaudeCode { binary: ",
            binary.as_str(),
            ", cwd: ",
            cwd.as_str(),
            ", prompt: ",
        );
        let second = text::cat5(
            first.as_str(),
            prompt.as_str(),
            ", model: ",
            model.as_str(),
            ", api_key: ",
        );
        text::cat3(second.as_str(), key.as_str(), " }")
    }
}

impl Agent for ClaudeCode {
    /// The prompt is stdin, never an argument: file-like, any length, any
    /// number of lines.
    fn task(&self) -> (r: Task)
        ensures
            text::views(r.argv@) == posture(self.binary@, text::optional(self.model)),
            agent::env_view(r.env@) == (match self.api_key {
                Some(key) => seq![("ANTHROPIC_API_KEY"@, key.bytes())],
                None => Seq::empty(),
            }),
            r.cwd@ == self.cwd@,
            text::optional(r.stdin) == Some(self.prompt@),
    {
        let mut argv: Vec<String> = vec![
            self.binary.clone(),
            "-p".to_owned(),
            "--output-format".to_owned(),
            "stream-json".to_owned(),
            // Stream output requires it.
            "--verbose".to_owned(),
        ];
        match &self.model {
            Some(model) => {
                argv.push("--model".to_owned());
                argv.push(model.clone());
            },
            None => {},
        }
        // Epik's isolation posture: the agent runs with Epik's
        // configuration, not the user's machine-wide setup...
        argv.push("--settings".to_owned());
        argv.push("{}".to_owned());
        argv.push("--strict-mcp-config".to_owned());
        // ...and with deliberate autonomy: no channel exists to answer a
        // prompt, so none may be asked.
        argv.push("--dangerously-skip-permissions".to_owned());
        proof {
            assert(text::views(argv@) =~= posture(self.binary@, text::optional(self.model)));
        }
        let mut env: Vec<(String, Secret)> = Vec::new();
        match &self.api_key {
            Some(key) => {
                env.push(("ANTHROPIC_API_KEY".to_owned(), key.clone()));
                proof {
                    assert(agent::env_view(env@) =~= seq![("ANTHROPIC_API_KEY"@, key.bytes())]);
                }
            },
            None => {
                proof {
                    assert(agent::env_view(env@) =~= Seq::empty());
                }
            },
        }
        Task { argv, env, cwd: self.cwd.clone(), stdin: Some(self.prompt.clone()) }
    }
}

} // verus!
