//! What is understood from an agent's stream, as it crosses.

use crate::agent::claude_code;
use crate::agent::claude_code::{Update, UpdateView};
use crate::crossing;
use crate::json;
use crate::json::{Json, JsonView};
use crate::text;
use vstd::prelude::*;

verus! {

/// A number as it is spelled, or null.
pub open spec fn number_or_null(spelled: Option<Seq<char>>) -> JsonView {
    match spelled {
        Some(spelled) => JsonView::Other(spelled),
        None => JsonView::Null,
    }
}

/// A whole number, or null.
pub open spec fn whole_or_null(n: Option<nat>) -> JsonView {
    match n {
        Some(n) => JsonView::Whole(n),
        None => JsonView::Null,
    }
}

fn tell_number(spelled: &Option<String>) -> (r: Json)
    ensures
        r@ == number_or_null(text::optional(*spelled)),
{
    match spelled {
        Some(spelled) => Json::Other(spelled.clone()),
        None => Json::Null,
    }
}

fn tell_whole(n: &Option<u64>) -> (r: Json)
    ensures
        r@ == whole_or_null(claude_code::counted(*n)),
{
    match n {
        Some(n) => Json::Whole(*n),
        None => Json::Null,
    }
}

/// An update, as JSON.
pub open spec fn told_update(update: UpdateView) -> JsonView {
    match update {
        UpdateView::Session { id, model } => crossing::variant(
            "Session"@,
            JsonView::record().with(
                "id"@,
                JsonView::Text(id),
            ).with(
                "model"@,
                JsonView::Text(model),
            ),
        ),
        UpdateView::Text { text } => crossing::variant(
            "Text"@,
            JsonView::record().with(
                "text"@,
                JsonView::Text(text),
            ),
        ),
        UpdateView::ToolUse { name } => crossing::variant(
            "ToolUse"@,
            JsonView::record().with(
                "name"@,
                JsonView::Text(name),
            ),
        ),
        UpdateView::Result { ok, text, cost_usd, input_tokens, output_tokens } => crossing::variant(
            "Result"@,
            JsonView::record().with(
                "ok"@,
                JsonView::Bool(ok),
            ).with(
                "text"@,
                JsonView::Text(text),
            ).with(
                "cost_usd"@,
                number_or_null(cost_usd),
            ).with(
                "input_tokens"@,
                whole_or_null(input_tokens),
            ).with(
                "output_tokens"@,
                whole_or_null(output_tokens),
            ),
        ),
    }
}

/// An update out of JSON, when the value is one.
pub open spec fn update_of(value: JsonView) -> Option<UpdateView> {
    if crossing::carried(value, "Session"@) is Some {
        let body = crossing::carried(value, "Session"@)->0;
        let id = json::needed_text(body.part(0, "id"@));
        let model = json::needed_text(body.part(1, "model"@));
        if body.fills(2) && id is Some && model is Some {
            Some(
                UpdateView::Session { id: id->0, model: model->0 },
            )
        } else {
            None
        }
    } else if crossing::carried(value, "Text"@) is Some {
        let body = crossing::carried(value, "Text"@)->0;
        let text = json::needed_text(body.part(0, "text"@));
        if body.fills(1) && text is Some {
            Some(
                UpdateView::Text { text: text->0 },
            )
        } else {
            None
        }
    } else if crossing::carried(value, "ToolUse"@) is Some {
        let body = crossing::carried(value, "ToolUse"@)->0;
        let name = json::needed_text(body.part(0, "name"@));
        if body.fills(1) && name is Some {
            Some(
                UpdateView::ToolUse { name: name->0 },
            )
        } else {
            None
        }
    } else if crossing::carried(value, "Result"@) is Some {
        let body = crossing::carried(value, "Result"@)->0;
        let ok = crossing::needed_flag(body.part(0, "ok"@));
        let text = json::needed_text(body.part(1, "text"@));
        let cost_usd = json::optional_number(body.part(2, "cost_usd"@));
        let input_tokens = json::optional_whole(body.part(3, "input_tokens"@));
        let output_tokens = json::optional_whole(body.part(4, "output_tokens"@));
        if body.fills(5) && ok is Some && text is Some && cost_usd is Some && input_tokens is Some
            && output_tokens is Some {
            Some(
                UpdateView::Result {
                    ok: ok->0,
                    text: text->0,
                    cost_usd: cost_usd->0,
                    input_tokens: input_tokens->0,
                    output_tokens: output_tokens->0,
                },
            )
        } else {
            None
        }
    } else {
        None
    }
}

/// An update that may have been read.
pub open spec fn update_result(read: Option<Update>) -> Option<UpdateView> {
    match read {
        Some(update) => Some(update@),
        None => None,
    }
}

impl Update {
    /// An update, as JSON.
    pub fn told(&self) -> (r: Json)
        ensures
            r@ == told_update(self@),
    {
        match self {
            Update::Session { id, model } => Json::record().with(
                "Session",
                Json::record().with(
                    "id",
                    Json::string(id.as_str()),
                ).with(
                    "model",
                    Json::string(model.as_str()),
                ),
            ),
            Update::Text { text } => Json::record().with(
                "Text",
                Json::record().with(
                    "text",
                    Json::string(text.as_str()),
                ),
            ),
            Update::ToolUse { name } => Json::record().with(
                "ToolUse",
                Json::record().with(
                    "name",
                    Json::string(name.as_str()),
                ),
            ),
            Update::Result { ok, text, cost_usd, input_tokens, output_tokens } => Json::record().with(
                "Result",
                Json::record().with(
                    "ok",
                    Json::Bool(*ok),
                ).with(
                    "text",
                    Json::string(text.as_str()),
                ).with(
                    "cost_usd",
                    tell_number(cost_usd),
                ).with(
                    "input_tokens",
                    tell_whole(input_tokens),
                ).with(
                    "output_tokens",
                    tell_whole(output_tokens),
                ),
            ),
        }
    }

    /// An update out of JSON, when the value is one.
    pub fn read(value: &Json) -> (r: Option<Update>)
        ensures
            update_result(r) == update_of(value@),
    {
        if let Some(body) = crossing::content(value, "Session") {
            if !body.fills(2) {
                return None;
            }
            let id = match json::read_text(body.part(0, "id")) {
                Some(id) => id,
                None => return None,
            };
            let model = match json::read_text(body.part(1, "model")) {
                Some(model) => model,
                None => return None,
            };
            return Some(Update::Session { id, model });
        }
        if let Some(body) = crossing::content(value, "Text") {
            if !body.fills(1) {
                return None;
            }
            let text = match json::read_text(body.part(0, "text")) {
                Some(text) => text,
                None => return None,
            };
            return Some(Update::Text { text });
        }
        if let Some(body) = crossing::content(value, "ToolUse") {
            if !body.fills(1) {
                return None;
            }
            let name = match json::read_text(body.part(0, "name")) {
                Some(name) => name,
                None => return None,
            };
            return Some(Update::ToolUse { name });
        }
        if let Some(body) = crossing::content(value, "Result") {
            if !body.fills(5) {
                return None;
            }
            let ok = match crossing::read_flag(body.part(0, "ok")) {
                Some(ok) => ok,
                None => return None,
            };
            let text = match json::read_text(body.part(1, "text")) {
                Some(text) => text,
                None => return None,
            };
            let cost_usd = match json::read_optional_number(body.part(2, "cost_usd")) {
                Some(cost_usd) => cost_usd,
                None => return None,
            };
            let input_tokens = match json::read_optional_whole(body.part(3, "input_tokens")) {
                Some(input_tokens) => input_tokens,
                None => return None,
            };
            let output_tokens = match json::read_optional_whole(body.part(4, "output_tokens")) {
                Some(output_tokens) => output_tokens,
                None => return None,
            };
            return Some(Update::Result { ok, text, cost_usd, input_tokens, output_tokens });
        }
        None
    }
}

/// Law: what is told of an update is read back as it was, a bill being
/// spelled as one is, with a point or an exponent.
pub proof fn told_update_reads_back(update: UpdateView)
    requires
        update is Result && update->cost_usd is Some ==> !json::integral(update->cost_usd->0),
    ensures
        update_of(told_update(update)) == Some(update),
{
    reveal_strlit("Session");
    reveal_strlit("Text");
    reveal_strlit("ToolUse");
    reveal_strlit("Result");
    reveal_strlit("id");
    reveal_strlit("model");
    reveal_strlit("text");
    reveal_strlit("name");
    reveal_strlit("ok");
    reveal_strlit("cost_usd");
    reveal_strlit("input_tokens");
    reveal_strlit("output_tokens");
    assert("Session"@.len() != "Text"@.len());
    assert("Session"@[0] != "ToolUse"@[0]);
    assert("Session"@.len() != "Result"@.len());
    assert("Text"@.len() != "ToolUse"@.len());
    assert("Text"@.len() != "Result"@.len());
    assert("ToolUse"@.len() != "Result"@.len());
    assert("id"@.len() != "model"@.len());
    assert("ok"@.len() != "text"@.len());
    assert("ok"@.len() != "cost_usd"@.len());
    assert("ok"@.len() != "input_tokens"@.len());
    assert("ok"@.len() != "output_tokens"@.len());
    assert("text"@.len() != "cost_usd"@.len());
    assert("text"@.len() != "input_tokens"@.len());
    assert("text"@.len() != "output_tokens"@.len());
    assert("cost_usd"@.len() != "input_tokens"@.len());
    assert("cost_usd"@.len() != "output_tokens"@.len());
    assert("input_tokens"@.len() != "output_tokens"@.len());
    match update {
        UpdateView::Session { id, model } => {
            let record = JsonView::record();
            crossing::put(record, "id"@, JsonView::Text(id));
            let record = record.with("id"@, JsonView::Text(id));
            crossing::put(record, "model"@, JsonView::Text(model));
        },
        UpdateView::Text { text } => {
            let record = JsonView::record();
            crossing::put(record, "text"@, JsonView::Text(text));
        },
        UpdateView::ToolUse { name } => {
            let record = JsonView::record();
            crossing::put(record, "name"@, JsonView::Text(name));
        },
        UpdateView::Result { ok, text, cost_usd, input_tokens, output_tokens } => {
            let record = JsonView::record();
            crossing::put(record, "ok"@, JsonView::Bool(ok));
            let record = record.with("ok"@, JsonView::Bool(ok));
            crossing::put(record, "text"@, JsonView::Text(text));
            let record = record.with("text"@, JsonView::Text(text));
            crossing::put(record, "cost_usd"@, number_or_null(cost_usd));
            let record = record.with("cost_usd"@, number_or_null(cost_usd));
            crossing::put(record, "input_tokens"@, whole_or_null(input_tokens));
            let record = record.with("input_tokens"@, whole_or_null(input_tokens));
            crossing::put(record, "output_tokens"@, whole_or_null(output_tokens));
        },
    }
}

} // verus!
