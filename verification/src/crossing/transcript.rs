//! The transcript channel: its items, and the questions and answers in
//! them.

use crate::chat::{Answer, Ask, Role, TranscriptItem};
use crate::crossing;
use crate::json;
use crate::json::{Json, JsonView};
use crate::text;
use vstd::prelude::*;

verus! {

// ----- a role -----

/// A role, as JSON.
pub open spec fn told_role(role: Role) -> JsonView {
    match role {
        Role::User => JsonView::Text("user"@),
        Role::Assistant => JsonView::Text("assistant"@),
    }
}

/// A role out of JSON, when the value is one.
pub open spec fn role_of(value: JsonView, within: bool) -> Option<Role> {
    if crossing::worded(value, "user"@, within) {
        Some(Role::User)
    } else if crossing::worded(value, "assistant"@, within) {
        Some(Role::Assistant)
    } else {
        None
    }
}

/// A role that must be there.
pub open spec fn read_needed_role(part: Option<JsonView>) -> Option<Role> {
    match part {
        Some(value) => role_of(value, true),
        None => None,
    }
}

fn needed_role(part: Option<&Json>) -> (r: Option<Role>)
    ensures
        r == read_needed_role(json::part_view(part)),
{
    match part {
        Some(value) => Role::read_either(value, true),
        None => None,
    }
}

impl Role {
    /// A role, as JSON.
    pub fn told(&self) -> (r: Json)
        ensures
            r@ == told_role(*self),
    {
        match self {
            Role::User => Json::string("user"),
            Role::Assistant => Json::string("assistant"),
        }
    }

    /// A role out of JSON, when the value is one.
    pub fn read(value: &Json) -> (r: Option<Role>)
        ensures
            r == role_of(value@, false),
    {
        Role::read_either(value, false)
    }

    fn read_either(value: &Json, within: bool) -> (r: Option<Role>)
        ensures
            r == role_of(value@, within),
    {
        if crossing::is_worded(value, "user", within) {
            return Some(Role::User);
        }
        if crossing::is_worded(value, "assistant", within) {
            return Some(Role::Assistant);
        }
        None
    }
}

/// Law: what is told of a role is read back as it was.
pub proof fn told_role_reads_back(role: Role, within: bool)
    ensures
        role_of(told_role(role), within) == Some(role),
{
    reveal_strlit("user");
    reveal_strlit("assistant");
    assert("user"@.len() != "assistant"@.len());
    match role {
        Role::User => {},
        Role::Assistant => {},
    }
}

// ----- a question -----

/// A [`Ask`] over sequences.
pub enum AskView {
    Repository { prompt: Seq<char> },
    Check { prompt: Seq<char>, proposal: Option<Seq<char>> },
}

impl View for Ask {
    type V = AskView;

    open spec fn view(&self) -> AskView {
        match self {
            Ask::Repository { prompt } => AskView::Repository {
                prompt: prompt@,
            },
            Ask::Check { prompt, proposal } => AskView::Check {
                prompt: prompt@,
                proposal: text::optional(*proposal),
            },
        }
    }
}

/// A question, as JSON.
pub open spec fn told_ask(ask: AskView) -> JsonView {
    match ask {
        AskView::Repository { prompt } => JsonView::record().with(
            "kind"@,
            JsonView::Text("repository"@),
        ).with(
            "prompt"@,
            JsonView::Text(prompt),
        ),
        AskView::Check { prompt, proposal } => JsonView::record().with(
            "kind"@,
            JsonView::Text("check"@),
        ).with(
            "prompt"@,
            JsonView::Text(prompt),
        ).with(
            "proposal"@,
            json::text_or_null(proposal),
        ),
    }
}

/// A question out of JSON, when the value is one.
pub open spec fn ask_of(value: JsonView, within: bool) -> Option<AskView> {
    if crossing::tagged(value, "kind"@, "repository"@, 0, within) {
        let prompt = json::needed_text(value.part(1, "prompt"@));
        if value.fills(2) && prompt is Some {
            Some(
                AskView::Repository { prompt: prompt->0 },
            )
        } else {
            None
        }
    } else if crossing::tagged(value, "kind"@, "check"@, 1, within) {
        let prompt = json::needed_text(value.part(1, "prompt"@));
        let proposal = json::optional_text(value.part(2, "proposal"@));
        if value.fills(3) && prompt is Some && proposal is Some {
            Some(
                AskView::Check { prompt: prompt->0, proposal: proposal->0 },
            )
        } else {
            None
        }
    } else {
        None
    }
}

/// A question that must be there.
pub open spec fn read_needed_ask(part: Option<JsonView>) -> Option<AskView> {
    match part {
        Some(value) => ask_of(value, true),
        None => None,
    }
}

/// A question that may have been read.
pub open spec fn ask_result(read: Option<Ask>) -> Option<AskView> {
    match read {
        Some(ask) => Some(ask@),
        None => None,
    }
}

fn needed_ask(part: Option<&Json>) -> (r: Option<Ask>)
    ensures
        ask_result(r) == read_needed_ask(json::part_view(part)),
{
    match part {
        Some(value) => Ask::read_either(value, true),
        None => None,
    }
}

impl Ask {
    /// A question, as JSON.
    pub fn told(&self) -> (r: Json)
        ensures
            r@ == told_ask(self@),
    {
        match self {
            Ask::Repository { prompt } => Json::record().with(
                "kind",
                Json::string("repository"),
            ).with(
                "prompt",
                Json::string(prompt.as_str()),
            ),
            Ask::Check { prompt, proposal } => Json::record().with(
                "kind",
                Json::string("check"),
            ).with(
                "prompt",
                Json::string(prompt.as_str()),
            ).with(
                "proposal",
                Json::string_or_null(proposal),
            ),
        }
    }

    /// A question out of JSON, when the value is one.
    pub fn read(value: &Json) -> (r: Option<Ask>)
        ensures
            ask_result(r) == ask_of(value@, false),
    {
        Ask::read_either(value, false)
    }

    fn read_either(value: &Json, within: bool) -> (r: Option<Ask>)
        ensures
            ask_result(r) == ask_of(value@, within),
    {
        if crossing::is_tagged(value, "kind", "repository", 0, within) {
            if !value.fills(2) {
                return None;
            }
            let prompt = match json::read_text(value.part(1, "prompt")) {
                Some(prompt) => prompt,
                None => return None,
            };
            return Some(Ask::Repository { prompt });
        }
        if crossing::is_tagged(value, "kind", "check", 1, within) {
            if !value.fills(3) {
                return None;
            }
            let prompt = match json::read_text(value.part(1, "prompt")) {
                Some(prompt) => prompt,
                None => return None,
            };
            let proposal = match json::read_optional_text(value.part(2, "proposal")) {
                Some(proposal) => proposal,
                None => return None,
            };
            return Some(Ask::Check { prompt, proposal });
        }
        None
    }
}

/// Law: what is told of a question is read back as it was.
pub proof fn told_ask_reads_back(ask: AskView, within: bool)
    ensures
        ask_of(told_ask(ask), within) == Some(ask),
{
    reveal_strlit("repository");
    reveal_strlit("check");
    reveal_strlit("kind");
    reveal_strlit("prompt");
    reveal_strlit("proposal");
    assert("repository"@.len() != "check"@.len());
    assert("kind"@.len() != "prompt"@.len());
    assert("kind"@.len() != "proposal"@.len());
    assert("prompt"@.len() != "proposal"@.len());
    match ask {
        AskView::Repository { prompt } => {
            let record = JsonView::record();
            crossing::put(record, "kind"@, JsonView::Text("repository"@));
            let record = record.with("kind"@, JsonView::Text("repository"@));
            crossing::put(record, "prompt"@, JsonView::Text(prompt));
        },
        AskView::Check { prompt, proposal } => {
            let record = JsonView::record();
            crossing::put(record, "kind"@, JsonView::Text("check"@));
            let record = record.with("kind"@, JsonView::Text("check"@));
            crossing::put(record, "prompt"@, JsonView::Text(prompt));
            let record = record.with("prompt"@, JsonView::Text(prompt));
            crossing::put(record, "proposal"@, json::text_or_null(proposal));
        },
    }
}

// ----- an answer -----

/// A [`Answer`] over sequences.
pub enum AnswerView {
    Repository { url: Seq<char> },
    Check { command: Seq<char> },
    Declined,
}

impl View for Answer {
    type V = AnswerView;

    open spec fn view(&self) -> AnswerView {
        match self {
            Answer::Repository { url } => AnswerView::Repository {
                url: url@,
            },
            Answer::Check { command } => AnswerView::Check {
                command: command@,
            },
            Answer::Declined => AnswerView::Declined,
        }
    }
}

/// An answer, as JSON.
pub open spec fn told_answer(answer: AnswerView) -> JsonView {
    match answer {
        AnswerView::Repository { url } => JsonView::record().with(
            "kind"@,
            JsonView::Text("repository"@),
        ).with(
            "url"@,
            JsonView::Text(url),
        ),
        AnswerView::Check { command } => JsonView::record().with(
            "kind"@,
            JsonView::Text("check"@),
        ).with(
            "command"@,
            JsonView::Text(command),
        ),
        AnswerView::Declined => JsonView::record().with("kind"@, JsonView::Text("declined"@)),
    }
}

/// An answer out of JSON, when the value is one.
pub open spec fn answer_of(value: JsonView, within: bool) -> Option<AnswerView> {
    if crossing::tagged(value, "kind"@, "repository"@, 0, within) {
        let url = json::needed_text(value.part(1, "url"@));
        if value.fills(2) && url is Some {
            Some(
                AnswerView::Repository { url: url->0 },
            )
        } else {
            None
        }
    } else if crossing::tagged(value, "kind"@, "check"@, 1, within) {
        let command = json::needed_text(value.part(1, "command"@));
        if value.fills(2) && command is Some {
            Some(
                AnswerView::Check { command: command->0 },
            )
        } else {
            None
        }
    } else if crossing::tagged(value, "kind"@, "declined"@, 2, within) {
        if value.fills(1) {
            Some(AnswerView::Declined)
        } else {
            None
        }
    } else {
        None
    }
}

/// An answer that must be there.
pub open spec fn read_needed_answer(part: Option<JsonView>) -> Option<AnswerView> {
    match part {
        Some(value) => answer_of(value, true),
        None => None,
    }
}

/// An answer that may have been read.
pub open spec fn answer_result(read: Option<Answer>) -> Option<AnswerView> {
    match read {
        Some(answer) => Some(answer@),
        None => None,
    }
}

fn needed_answer(part: Option<&Json>) -> (r: Option<Answer>)
    ensures
        answer_result(r) == read_needed_answer(json::part_view(part)),
{
    match part {
        Some(value) => Answer::read_either(value, true),
        None => None,
    }
}

impl Answer {
    /// An answer, as JSON.
    pub fn told(&self) -> (r: Json)
        ensures
            r@ == told_answer(self@),
    {
        match self {
            Answer::Repository { url } => Json::record().with(
                "kind",
                Json::string("repository"),
            ).with(
                "url",
                Json::string(url.as_str()),
            ),
            Answer::Check { command } => Json::record().with("kind", Json::string("check")).with(
                "command",
                Json::string(command.as_str()),
            ),
            Answer::Declined => Json::record().with("kind", Json::string("declined")),
        }
    }

    /// An answer out of JSON, when the value is one.
    pub fn read(value: &Json) -> (r: Option<Answer>)
        ensures
            answer_result(r) == answer_of(value@, false),
    {
        Answer::read_either(value, false)
    }

    fn read_either(value: &Json, within: bool) -> (r: Option<Answer>)
        ensures
            answer_result(r) == answer_of(value@, within),
    {
        if crossing::is_tagged(value, "kind", "repository", 0, within) {
            if !value.fills(2) {
                return None;
            }
            let url = match json::read_text(value.part(1, "url")) {
                Some(url) => url,
                None => return None,
            };
            return Some(Answer::Repository { url });
        }
        if crossing::is_tagged(value, "kind", "check", 1, within) {
            if !value.fills(2) {
                return None;
            }
            let command = match json::read_text(value.part(1, "command")) {
                Some(command) => command,
                None => return None,
            };
            return Some(Answer::Check { command });
        }
        if crossing::is_tagged(value, "kind", "declined", 2, within) {
            if !value.fills(1) {
                return None;
            }
            return Some(Answer::Declined);
        }
        None
    }
}

/// Law: what is told of an answer is read back as it was.
pub proof fn told_answer_reads_back(answer: AnswerView, within: bool)
    ensures
        answer_of(told_answer(answer), within) == Some(answer),
{
    reveal_strlit("repository");
    reveal_strlit("check");
    reveal_strlit("declined");
    reveal_strlit("kind");
    reveal_strlit("url");
    reveal_strlit("command");
    assert("repository"@.len() != "check"@.len());
    assert("repository"@.len() != "declined"@.len());
    assert("check"@.len() != "declined"@.len());
    assert("kind"@.len() != "url"@.len());
    assert("kind"@.len() != "command"@.len());
    match answer {
        AnswerView::Repository { url } => {
            let record = JsonView::record();
            crossing::put(record, "kind"@, JsonView::Text("repository"@));
            let record = record.with("kind"@, JsonView::Text("repository"@));
            crossing::put(record, "url"@, JsonView::Text(url));
        },
        AnswerView::Check { command } => {
            let record = JsonView::record();
            crossing::put(record, "kind"@, JsonView::Text("check"@));
            let record = record.with("kind"@, JsonView::Text("check"@));
            crossing::put(record, "command"@, JsonView::Text(command));
        },
        AnswerView::Declined => {
            let record = JsonView::record();
            crossing::put(record, "kind"@, JsonView::Text("declined"@));
            let record = record.with("kind"@, JsonView::Text("declined"@));
        },
    }
}

// ----- an item of the transcript -----

/// A [`TranscriptItem`] over sequences.
pub enum TranscriptItemView {
    Message { role: Role, text: Seq<char> },
    AssistantDelta { text: Seq<char> },
    TurnFailed { reason: Seq<char> },
    ToolCall { name: Seq<char>, arguments: Seq<char> },
    ToolResult { name: Seq<char>, ok: bool, content: Seq<char> },
    Question { id: Seq<char>, ask: AskView },
    QuestionResolved { id: Seq<char>, ask: AskView, answer: AnswerView },
}

impl View for TranscriptItem {
    type V = TranscriptItemView;

    open spec fn view(&self) -> TranscriptItemView {
        match self {
            TranscriptItem::Message { role, text } => TranscriptItemView::Message {
                role: *role,
                text: text@,
            },
            TranscriptItem::AssistantDelta { text } => TranscriptItemView::AssistantDelta {
                text: text@,
            },
            TranscriptItem::TurnFailed { reason } => TranscriptItemView::TurnFailed {
                reason: reason@,
            },
            TranscriptItem::ToolCall { name, arguments } => TranscriptItemView::ToolCall {
                name: name@,
                arguments: arguments@,
            },
            TranscriptItem::ToolResult { name, ok, content } => TranscriptItemView::ToolResult {
                name: name@,
                ok: *ok,
                content: content@,
            },
            TranscriptItem::Question { id, ask } => TranscriptItemView::Question {
                id: id@,
                ask: ask@,
            },
            TranscriptItem::QuestionResolved { id, ask, answer } => TranscriptItemView::QuestionResolved {
                id: id@,
                ask: ask@,
                answer: answer@,
            },
        }
    }
}

/// An item of the transcript, as JSON.
pub open spec fn told_item(item: TranscriptItemView) -> JsonView {
    match item {
        TranscriptItemView::Message { role, text } => JsonView::record().with(
            "kind"@,
            JsonView::Text("message"@),
        ).with(
            "role"@,
            told_role(role),
        ).with(
            "text"@,
            JsonView::Text(text),
        ),
        TranscriptItemView::AssistantDelta { text } => JsonView::record().with(
            "kind"@,
            JsonView::Text("assistant_delta"@),
        ).with(
            "text"@,
            JsonView::Text(text),
        ),
        TranscriptItemView::TurnFailed { reason } => JsonView::record().with(
            "kind"@,
            JsonView::Text("turn_failed"@),
        ).with(
            "reason"@,
            JsonView::Text(reason),
        ),
        TranscriptItemView::ToolCall { name, arguments } => JsonView::record().with(
            "kind"@,
            JsonView::Text("tool_call"@),
        ).with(
            "name"@,
            JsonView::Text(name),
        ).with(
            "arguments"@,
            JsonView::Text(arguments),
        ),
        TranscriptItemView::ToolResult { name, ok, content } => JsonView::record().with(
            "kind"@,
            JsonView::Text("tool_result"@),
        ).with(
            "name"@,
            JsonView::Text(name),
        ).with(
            "ok"@,
            JsonView::Bool(ok),
        ).with(
            "content"@,
            JsonView::Text(content),
        ),
        TranscriptItemView::Question { id, ask } => JsonView::record().with(
            "kind"@,
            JsonView::Text("question"@),
        ).with(
            "id"@,
            JsonView::Text(id),
        ).with(
            "ask"@,
            told_ask(ask),
        ),
        TranscriptItemView::QuestionResolved { id, ask, answer } => JsonView::record().with(
            "kind"@,
            JsonView::Text("question_resolved"@),
        ).with(
            "id"@,
            JsonView::Text(id),
        ).with(
            "ask"@,
            told_ask(ask),
        ).with(
            "answer"@,
            told_answer(answer),
        ),
    }
}

/// An item of the transcript out of JSON, when the value is one.
pub open spec fn item_of(value: JsonView) -> Option<TranscriptItemView> {
    if crossing::tagged(value, "kind"@, "message"@, 0, false) {
        let role = read_needed_role(value.part(1, "role"@));
        let text = json::needed_text(value.part(2, "text"@));
        if value.fills(3) && role is Some && text is Some {
            Some(
                TranscriptItemView::Message { role: role->0, text: text->0 },
            )
        } else {
            None
        }
    } else if crossing::tagged(value, "kind"@, "assistant_delta"@, 1, false) {
        let text = json::needed_text(value.part(1, "text"@));
        if value.fills(2) && text is Some {
            Some(
                TranscriptItemView::AssistantDelta { text: text->0 },
            )
        } else {
            None
        }
    } else if crossing::tagged(value, "kind"@, "turn_failed"@, 2, false) {
        let reason = json::needed_text(value.part(1, "reason"@));
        if value.fills(2) && reason is Some {
            Some(
                TranscriptItemView::TurnFailed { reason: reason->0 },
            )
        } else {
            None
        }
    } else if crossing::tagged(value, "kind"@, "tool_call"@, 3, false) {
        let name = json::needed_text(value.part(1, "name"@));
        let arguments = json::needed_text(value.part(2, "arguments"@));
        if value.fills(3) && name is Some && arguments is Some {
            Some(
                TranscriptItemView::ToolCall { name: name->0, arguments: arguments->0 },
            )
        } else {
            None
        }
    } else if crossing::tagged(value, "kind"@, "tool_result"@, 4, false) {
        let name = json::needed_text(value.part(1, "name"@));
        let ok = crossing::needed_flag(value.part(2, "ok"@));
        let content = json::needed_text(value.part(3, "content"@));
        if value.fills(4) && name is Some && ok is Some && content is Some {
            Some(
                TranscriptItemView::ToolResult { name: name->0, ok: ok->0, content: content->0 },
            )
        } else {
            None
        }
    } else if crossing::tagged(value, "kind"@, "question"@, 5, false) {
        let id = json::needed_text(value.part(1, "id"@));
        let ask = read_needed_ask(value.part(2, "ask"@));
        if value.fills(3) && id is Some && ask is Some {
            Some(
                TranscriptItemView::Question { id: id->0, ask: ask->0 },
            )
        } else {
            None
        }
    } else if crossing::tagged(value, "kind"@, "question_resolved"@, 6, false) {
        let id = json::needed_text(value.part(1, "id"@));
        let ask = read_needed_ask(value.part(2, "ask"@));
        let answer = read_needed_answer(value.part(3, "answer"@));
        if value.fills(4) && id is Some && ask is Some && answer is Some {
            Some(
                TranscriptItemView::QuestionResolved { id: id->0, ask: ask->0, answer: answer->0 },
            )
        } else {
            None
        }
    } else {
        None
    }
}

/// An item of the transcript that may have been read.
pub open spec fn item_result(read: Option<TranscriptItem>) -> Option<TranscriptItemView> {
    match read {
        Some(item) => Some(item@),
        None => None,
    }
}

impl TranscriptItem {
    /// An item of the transcript, as JSON.
    pub fn told(&self) -> (r: Json)
        ensures
            r@ == told_item(self@),
    {
        match self {
            TranscriptItem::Message { role, text } => Json::record().with(
                "kind",
                Json::string("message"),
            ).with(
                "role",
                role.told(),
            ).with(
                "text",
                Json::string(text.as_str()),
            ),
            TranscriptItem::AssistantDelta { text } => Json::record().with(
                "kind",
                Json::string("assistant_delta"),
            ).with(
                "text",
                Json::string(text.as_str()),
            ),
            TranscriptItem::TurnFailed { reason } => Json::record().with(
                "kind",
                Json::string("turn_failed"),
            ).with(
                "reason",
                Json::string(reason.as_str()),
            ),
            TranscriptItem::ToolCall { name, arguments } => Json::record().with(
                "kind",
                Json::string("tool_call"),
            ).with(
                "name",
                Json::string(name.as_str()),
            ).with(
                "arguments",
                Json::string(arguments.as_str()),
            ),
            TranscriptItem::ToolResult { name, ok, content } => Json::record().with(
                "kind",
                Json::string("tool_result"),
            ).with(
                "name",
                Json::string(name.as_str()),
            ).with(
                "ok",
                Json::Bool(*ok),
            ).with(
                "content",
                Json::string(content.as_str()),
            ),
            TranscriptItem::Question { id, ask } => Json::record().with(
                "kind",
                Json::string("question"),
            ).with(
                "id",
                Json::string(id.as_str()),
            ).with(
                "ask",
                ask.told(),
            ),
            TranscriptItem::QuestionResolved { id, ask, answer } => Json::record().with(
                "kind",
                Json::string("question_resolved"),
            ).with(
                "id",
                Json::string(id.as_str()),
            ).with(
                "ask",
                ask.told(),
            ).with(
                "answer",
                answer.told(),
            ),
        }
    }

    /// An item of the transcript out of JSON, when the value is one.
    pub fn read(value: &Json) -> (r: Option<TranscriptItem>)
        ensures
            item_result(r) == item_of(value@),
    {
        if crossing::is_tagged(value, "kind", "message", 0, false) {
            if !value.fills(3) {
                return None;
            }
            let role = match needed_role(value.part(1, "role")) {
                Some(role) => role,
                None => return None,
            };
            let text = match json::read_text(value.part(2, "text")) {
                Some(text) => text,
                None => return None,
            };
            return Some(TranscriptItem::Message { role, text });
        }
        if crossing::is_tagged(value, "kind", "assistant_delta", 1, false) {
            if !value.fills(2) {
                return None;
            }
            let text = match json::read_text(value.part(1, "text")) {
                Some(text) => text,
                None => return None,
            };
            return Some(TranscriptItem::AssistantDelta { text });
        }
        if crossing::is_tagged(value, "kind", "turn_failed", 2, false) {
            if !value.fills(2) {
                return None;
            }
            let reason = match json::read_text(value.part(1, "reason")) {
                Some(reason) => reason,
                None => return None,
            };
            return Some(TranscriptItem::TurnFailed { reason });
        }
        if crossing::is_tagged(value, "kind", "tool_call", 3, false) {
            if !value.fills(3) {
                return None;
            }
            let name = match json::read_text(value.part(1, "name")) {
                Some(name) => name,
                None => return None,
            };
            let arguments = match json::read_text(value.part(2, "arguments")) {
                Some(arguments) => arguments,
                None => return None,
            };
            return Some(TranscriptItem::ToolCall { name, arguments });
        }
        if crossing::is_tagged(value, "kind", "tool_result", 4, false) {
            if !value.fills(4) {
                return None;
            }
            let name = match json::read_text(value.part(1, "name")) {
                Some(name) => name,
                None => return None,
            };
            let ok = match crossing::read_flag(value.part(2, "ok")) {
                Some(ok) => ok,
                None => return None,
            };
            let content = match json::read_text(value.part(3, "content")) {
                Some(content) => content,
                None => return None,
            };
            return Some(TranscriptItem::ToolResult { name, ok, content });
        }
        if crossing::is_tagged(value, "kind", "question", 5, false) {
            if !value.fills(3) {
                return None;
            }
            let id = match json::read_text(value.part(1, "id")) {
                Some(id) => id,
                None => return None,
            };
            let ask = match needed_ask(value.part(2, "ask")) {
                Some(ask) => ask,
                None => return None,
            };
            return Some(TranscriptItem::Question { id, ask });
        }
        if crossing::is_tagged(value, "kind", "question_resolved", 6, false) {
            if !value.fills(4) {
                return None;
            }
            let id = match json::read_text(value.part(1, "id")) {
                Some(id) => id,
                None => return None,
            };
            let ask = match needed_ask(value.part(2, "ask")) {
                Some(ask) => ask,
                None => return None,
            };
            let answer = match needed_answer(value.part(3, "answer")) {
                Some(answer) => answer,
                None => return None,
            };
            return Some(TranscriptItem::QuestionResolved { id, ask, answer });
        }
        None
    }
}

/// Law: what is told of an item of the transcript is read back as it was.
pub proof fn told_item_reads_back(item: TranscriptItemView)
    ensures
        item_of(told_item(item)) == Some(item),
{
    reveal_strlit("message");
    reveal_strlit("assistant_delta");
    reveal_strlit("turn_failed");
    reveal_strlit("tool_call");
    reveal_strlit("tool_result");
    reveal_strlit("question");
    reveal_strlit("question_resolved");
    reveal_strlit("kind");
    reveal_strlit("role");
    reveal_strlit("text");
    reveal_strlit("reason");
    reveal_strlit("name");
    reveal_strlit("arguments");
    reveal_strlit("ok");
    reveal_strlit("content");
    reveal_strlit("id");
    reveal_strlit("ask");
    reveal_strlit("answer");
    assert("message"@.len() != "assistant_delta"@.len());
    assert("message"@.len() != "turn_failed"@.len());
    assert("message"@.len() != "tool_call"@.len());
    assert("message"@.len() != "tool_result"@.len());
    assert("message"@.len() != "question"@.len());
    assert("message"@.len() != "question_resolved"@.len());
    assert("assistant_delta"@.len() != "turn_failed"@.len());
    assert("assistant_delta"@.len() != "tool_call"@.len());
    assert("assistant_delta"@.len() != "tool_result"@.len());
    assert("assistant_delta"@.len() != "question"@.len());
    assert("assistant_delta"@.len() != "question_resolved"@.len());
    assert("turn_failed"@.len() != "tool_call"@.len());
    assert("turn_failed"@[1] != "tool_result"@[1]);
    assert("turn_failed"@.len() != "question"@.len());
    assert("turn_failed"@.len() != "question_resolved"@.len());
    assert("tool_call"@.len() != "tool_result"@.len());
    assert("tool_call"@.len() != "question"@.len());
    assert("tool_call"@.len() != "question_resolved"@.len());
    assert("tool_result"@.len() != "question"@.len());
    assert("tool_result"@.len() != "question_resolved"@.len());
    assert("question"@.len() != "question_resolved"@.len());
    assert("kind"@[0] != "role"@[0]);
    assert("kind"@[0] != "text"@[0]);
    assert("role"@[0] != "text"@[0]);
    assert("kind"@.len() != "reason"@.len());
    assert("kind"@[0] != "name"@[0]);
    assert("kind"@.len() != "arguments"@.len());
    assert("name"@.len() != "arguments"@.len());
    assert("kind"@.len() != "ok"@.len());
    assert("kind"@.len() != "content"@.len());
    assert("name"@.len() != "ok"@.len());
    assert("name"@.len() != "content"@.len());
    assert("ok"@.len() != "content"@.len());
    assert("kind"@.len() != "id"@.len());
    assert("kind"@.len() != "ask"@.len());
    assert("id"@.len() != "ask"@.len());
    assert("kind"@.len() != "answer"@.len());
    assert("id"@.len() != "answer"@.len());
    assert("ask"@.len() != "answer"@.len());
    match item {
        TranscriptItemView::Message { role, text } => {
            told_role_reads_back(role, true);
            let record = JsonView::record();
            crossing::put(record, "kind"@, JsonView::Text("message"@));
            let record = record.with("kind"@, JsonView::Text("message"@));
            crossing::put(record, "role"@, told_role(role));
            let record = record.with("role"@, told_role(role));
            crossing::put(record, "text"@, JsonView::Text(text));
        },
        TranscriptItemView::AssistantDelta { text } => {
            let record = JsonView::record();
            crossing::put(record, "kind"@, JsonView::Text("assistant_delta"@));
            let record = record.with("kind"@, JsonView::Text("assistant_delta"@));
            crossing::put(record, "text"@, JsonView::Text(text));
        },
        TranscriptItemView::TurnFailed { reason } => {
            let record = JsonView::record();
            crossing::put(record, "kind"@, JsonView::Text("turn_failed"@));
            let record = record.with("kind"@, JsonView::Text("turn_failed"@));
            crossing::put(record, "reason"@, JsonView::Text(reason));
        },
        TranscriptItemView::ToolCall { name, arguments } => {
            let record = JsonView::record();
            crossing::put(record, "kind"@, JsonView::Text("tool_call"@));
            let record = record.with("kind"@, JsonView::Text("tool_call"@));
            crossing::put(record, "name"@, JsonView::Text(name));
            let record = record.with("name"@, JsonView::Text(name));
            crossing::put(record, "arguments"@, JsonView::Text(arguments));
        },
        TranscriptItemView::ToolResult { name, ok, content } => {
            let record = JsonView::record();
            crossing::put(record, "kind"@, JsonView::Text("tool_result"@));
            let record = record.with("kind"@, JsonView::Text("tool_result"@));
            crossing::put(record, "name"@, JsonView::Text(name));
            let record = record.with("name"@, JsonView::Text(name));
            crossing::put(record, "ok"@, JsonView::Bool(ok));
            let record = record.with("ok"@, JsonView::Bool(ok));
            crossing::put(record, "content"@, JsonView::Text(content));
        },
        TranscriptItemView::Question { id, ask } => {
            told_ask_reads_back(ask, true);
            let record = JsonView::record();
            crossing::put(record, "kind"@, JsonView::Text("question"@));
            let record = record.with("kind"@, JsonView::Text("question"@));
            crossing::put(record, "id"@, JsonView::Text(id));
            let record = record.with("id"@, JsonView::Text(id));
            crossing::put(record, "ask"@, told_ask(ask));
        },
        TranscriptItemView::QuestionResolved { id, ask, answer } => {
            told_ask_reads_back(ask, true);
            told_answer_reads_back(answer, true);
            let record = JsonView::record();
            crossing::put(record, "kind"@, JsonView::Text("question_resolved"@));
            let record = record.with("kind"@, JsonView::Text("question_resolved"@));
            crossing::put(record, "id"@, JsonView::Text(id));
            let record = record.with("id"@, JsonView::Text(id));
            crossing::put(record, "ask"@, told_ask(ask));
            let record = record.with("ask"@, told_ask(ask));
            crossing::put(record, "answer"@, told_answer(answer));
        },
    }
}

} // verus!
