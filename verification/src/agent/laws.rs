//! What holds of everything an agent is started with, and of everything
//! that is understood of what it says.

use crate::agent;
use crate::agent::claude_code;
use crate::agent::claude_code::{ClaudeCode, Update};
use crate::agent::{Agent, Exit, Finished, Line, Task, Wait};
use crate::json;
use crate::json::{Json, JsonView};
use crate::text;
use vstd::prelude::*;

verus! {

// ----- what a stream says -----

/// Whether a field may be read as an optional string.
pub open spec fn maybe_text(part: Option<JsonView>) -> bool {
    part is None || part->0 is Null || part->0 is Text
}

/// Whether a row holds strings and nothing else.
pub open spec fn all_text(items: Seq<JsonView>) -> bool {
    forall|i: int| 0 <= i < items.len() ==> (#[trigger] items[i]) is Text
}

proof fn texts_of_a_row(items: Seq<JsonView>)
    requires
        all_text(items),
    ensures
        json::all_texts(items) is Some,
        json::all_texts(items)->0.len() == items.len(),
        forall|i: int|
            0 <= i < items.len() ==> json::all_texts(items)->0[i] == (#[trigger] items[i])->Text_0,
    decreases items.len(),
{
    if items.len() > 0 {
        let front = items.drop_last();
        assert forall|i: int| 0 <= i < front.len() implies (#[trigger] front[i]) is Text by {
            assert(front[i] == items[i]);
        }
        texts_of_a_row(front);
        assert(items[items.len() - 1] is Text);
        assert forall|i: int| 0 <= i < items.len() implies json::all_texts(items)->0[i] == (
        #[trigger] items[i])->Text_0 by {
            if i < front.len() {
                assert(front[i] == items[i]);
            }
        }
    }
}

/// Whether the fields of a `result` line are each of its type.
pub open spec fn whole_result(value: JsonView) -> bool {
    &&& value is Object
    &&& value.get("type"@) == Some(JsonView::Text("result"@))
    &&& value.get("subtype"@) is None || value.get("subtype"@)->0 is Text
    &&& maybe_text(value.get("session_id"@))
    &&& maybe_text(value.get("model"@))
    &&& value.get("message"@) is None
    &&& value.get("is_error"@) is None || value.get("is_error"@)->0 is Null || value.get(
        "is_error"@,
    )->0 is Bool
    &&& maybe_text(value.get("result"@))
    &&& value.get("errors"@) is None || (value.get("errors"@)->0 is Array && all_text(
        value.get("errors"@)->0->Array_0,
    ))
    &&& json::optional_number(value.get("total_cost_usd"@)) is Some
    &&& value.get("usage"@) is None || value.get("usage"@)->0 is Null || (value.get(
        "usage"@,
    )->0 is Object && maybe_count(value.get("usage"@)->0.get("input_tokens"@)) && maybe_count(
        value.get("usage"@)->0.get("output_tokens"@),
    ))
}

/// Whether a field may be read as an optional count.
pub open spec fn maybe_count(part: Option<JsonView>) -> bool {
    part is None || part->0 is Null || part->0 is Whole
}

/// What a count is read as: the number, or none.
pub open spec fn count_in(part: Option<JsonView>) -> Option<nat> {
    if part is Some && part->0 is Whole {
        Some(part->0->Whole_0)
    } else {
        None
    }
}

/// Law: a line of type `result` whose fields are of their types is one
/// terminal update.
pub proof fn a_result_line_is_one_result(value: &Json, r: Vec<Update>)
    requires
        call_ensures(claude_code::understand, (value,), r),
        whole_result(value@),
    ensures
        r@.len() == 1,
        r@[0] is Result,
{
    reveal_strlit("system");
    reveal_strlit("assistant");
    reveal_strlit("result");
    reveal_strlit("init");
    assert("system"@.len() != "assistant"@.len());
    assert("system"@[0] != "result"@[0]);
    assert("system"@.len() != "init"@.len());
    assert("assistant"@.len() != "result"@.len());
    assert("assistant"@.len() != "init"@.len());
    assert("result"@.len() != "init"@.len());
    if value@.get("errors"@) is Some {
        texts_of_a_row(value@.get("errors"@)->0->Array_0);
    }
    let views = claude_code::update_views(r@);
    assert(views.len() == r@.len());
    assert(views[0] == r@[0]@);
}

/// Law: whatever line of type `result` is understood at all is one terminal
/// update. It is no success just when the line says that it is an error;
/// its words are the result's own where there are any; its bill and its
/// counts are those the line presents.
pub proof fn a_result_says_how_the_run_ended(value: &Json, r: Vec<Update>)
    requires
        call_ensures(claude_code::understand, (value,), r),
        value@ is Object,
        value@.get("type"@) == Some(JsonView::Text("result"@)),
    ensures
        r@.len() <= 1,
        r@.len() == 1 ==> r@[0] is Result,
        r@.len() == 1 ==> (!r@[0]->ok <==> value@.get("is_error"@) == Some(JsonView::Bool(true))),
        r@.len() == 1 && value@.get("result"@) is Some && !(value@.get("result"@)->0 is Null)
            ==> value@.get("result"@) == Some(JsonView::Text(r@[0]->Result_text@)),
        r@.len() == 1 ==> json::optional_number(value@.get("total_cost_usd"@)) == Some(
            text::optional(r@[0]->cost_usd),
        ),
        r@.len() == 1 && value@.get("usage"@) is None ==> r@[0]->input_tokens is None
            && r@[0]->output_tokens is None,
        r@.len() == 1 && value@.get("usage"@) is Some && value@.get("usage"@)->0 is Object ==> {
            &&& count_in(value@.get("usage"@)->0.get("input_tokens"@)) == (
            match r@[0]->input_tokens {
                Some(n) => Some(n as nat),
                None => None,
            })
            &&& count_in(value@.get("usage"@)->0.get("output_tokens"@)) == (
            match r@[0]->output_tokens {
                Some(n) => Some(n as nat),
                None => None,
            })
        },
{
    reveal_strlit("system");
    reveal_strlit("assistant");
    reveal_strlit("result");
    reveal_strlit("init");
    assert("system"@.len() != "assistant"@.len());
    assert("system"@[0] != "result"@[0]);
    assert("system"@.len() != "init"@.len());
    assert("assistant"@.len() != "result"@.len());
    assert("assistant"@.len() != "init"@.len());
    assert("result"@.len() != "init"@.len());
    let views = claude_code::update_views(r@);
    assert(views.len() == r@.len());
    if r@.len() > 0 {
        assert(views[0] == r@[0]@);
    }
}

/// Law: a result that has no words of its own has those of its errors: a
/// lone error's are said as they are, and of several each is in it.
pub proof fn a_result_without_words_says_its_errors(
    value: &Json,
    r: Vec<Update>,
    errors: Seq<JsonView>,
)
    requires
        call_ensures(claude_code::understand, (value,), r),
        whole_result(value@),
        value@.get("result"@) is None,
        value@.get("errors"@) == Some(JsonView::Array(errors)),
    ensures
        r@.len() == 1,
        r@[0] is Result,
        errors.len() == 0 ==> r@[0]->Result_text@.len() == 0,
        errors.len() == 1 ==> errors[0] == JsonView::Text(r@[0]->Result_text@),
        errors.len() == 2 ==> r@[0]->Result_text@ == errors[0]->Text_0 + "; "@
            + errors[1]->Text_0,
{
    a_result_line_is_one_result(value, r);
    reveal_strlit("system");
    reveal_strlit("assistant");
    reveal_strlit("result");
    reveal_strlit("init");
    assert("system"@.len() != "assistant"@.len());
    assert("system"@[0] != "result"@[0]);
    assert("system"@.len() != "init"@.len());
    assert("assistant"@.len() != "result"@.len());
    assert("assistant"@.len() != "init"@.len());
    assert("result"@.len() != "init"@.len());
    texts_of_a_row(errors);
    let views = claude_code::update_views(r@);
    assert(views[0] == r@[0]@);
    let texts = json::all_texts(errors)->0;
    if errors.len() == 1 {
        assert(errors[0] is Text);
    }
    if errors.len() == 2 {
        assert(texts.drop_last() =~= seq![texts[0]]);
        assert(errors[0] is Text && errors[1] is Text);
        assert(text::join(seq![texts[0]], "; "@) == texts[0]);
    }
}

/// Whether a line says its type and these things, and nothing else that is
/// read.
pub open spec fn quiet_but(value: JsonView, first: Seq<char>, second: Seq<char>, third: Seq<
    char,
>) -> bool {
    &&& value is Object
    &&& forall|key: Seq<char>|
        key != "type"@ && key != first && key != second && key != third ==> #[trigger] value.get(
            key,
        ) is None
}

/// Law: the line that opens a session is the session it names, and the
/// model that speaks in it.
pub proof fn a_session_is_the_one_that_opened(value: &Json, r: Vec<Update>)
    requires
        call_ensures(claude_code::understand, (value,), r),
        quiet_but(value@, "subtype"@, "session_id"@, "model"@),
        value@.get("type"@) == Some(JsonView::Text("system"@)),
        value@.get("subtype"@) == Some(JsonView::Text("init"@)),
        value@.get("session_id"@) is Some && value@.get("session_id"@)->0 is Text,
        value@.get("model"@) is Some && value@.get("model"@)->0 is Text,
    ensures
        r@.len() == 1,
        r@[0] is Session,
        value@.get("session_id"@) == Some(JsonView::Text(r@[0]->id@)),
        value@.get("model"@) == Some(JsonView::Text(r@[0]->model@)),
{
    reveal_strlit("system");
    reveal_strlit("assistant");
    reveal_strlit("result");
    reveal_strlit("init");
    assert("system"@.len() != "assistant"@.len());
    assert("system"@[0] != "result"@[0]);
    assert("system"@.len() != "init"@.len());
    assert("assistant"@.len() != "result"@.len());
    assert("assistant"@.len() != "init"@.len());
    assert("result"@.len() != "init"@.len());
    reveal_strlit("type");
    reveal_strlit("subtype");
    reveal_strlit("session_id");
    reveal_strlit("model");
    reveal_strlit("message");
    reveal_strlit("is_error");
    reveal_strlit("result");
    reveal_strlit("errors");
    reveal_strlit("total_cost_usd");
    reveal_strlit("usage");
    assert("type"@.len() != "subtype"@.len());
    assert("type"@.len() != "session_id"@.len());
    assert("type"@.len() != "model"@.len());
    assert("type"@.len() != "message"@.len());
    assert("type"@.len() != "is_error"@.len());
    assert("type"@.len() != "result"@.len());
    assert("type"@.len() != "errors"@.len());
    assert("type"@.len() != "total_cost_usd"@.len());
    assert("type"@.len() != "usage"@.len());
    assert("subtype"@.len() != "session_id"@.len());
    assert("subtype"@.len() != "model"@.len());
    assert("subtype"@[0] != "message"@[0]);
    assert("subtype"@.len() != "is_error"@.len());
    assert("subtype"@.len() != "result"@.len());
    assert("subtype"@.len() != "errors"@.len());
    assert("subtype"@.len() != "total_cost_usd"@.len());
    assert("subtype"@.len() != "usage"@.len());
    assert("session_id"@.len() != "model"@.len());
    assert("session_id"@.len() != "message"@.len());
    assert("session_id"@.len() != "is_error"@.len());
    assert("session_id"@.len() != "result"@.len());
    assert("session_id"@.len() != "errors"@.len());
    assert("session_id"@.len() != "total_cost_usd"@.len());
    assert("session_id"@.len() != "usage"@.len());
    assert("model"@.len() != "message"@.len());
    assert("model"@.len() != "is_error"@.len());
    assert("model"@.len() != "result"@.len());
    assert("model"@.len() != "errors"@.len());
    assert("model"@.len() != "total_cost_usd"@.len());
    assert("model"@[0] != "usage"@[0]);
    assert("message"@.len() != "is_error"@.len());
    assert("message"@.len() != "result"@.len());
    assert("message"@.len() != "errors"@.len());
    assert("message"@.len() != "total_cost_usd"@.len());
    assert("message"@.len() != "usage"@.len());
    assert("is_error"@.len() != "result"@.len());
    assert("is_error"@.len() != "errors"@.len());
    assert("is_error"@.len() != "total_cost_usd"@.len());
    assert("is_error"@.len() != "usage"@.len());
    assert("result"@[0] != "errors"@[0]);
    assert("result"@.len() != "total_cost_usd"@.len());
    assert("result"@.len() != "usage"@.len());
    assert("errors"@.len() != "total_cost_usd"@.len());
    assert("errors"@.len() != "usage"@.len());
    assert("total_cost_usd"@.len() != "usage"@.len());
    assert(value@.get("message"@) is None);
    assert(value@.get("is_error"@) is None);
    assert(value@.get("result"@) is None);
    assert(value@.get("errors"@) is None);
    assert(value@.get("total_cost_usd"@) is None);
    assert(value@.get("usage"@) is None);
    let views = claude_code::update_views(r@);
    assert(views.len() == r@.len());
    assert(views[0] == r@[0]@);
}

/// Law: a line of a type nobody has modelled says nothing.
pub proof fn an_unmodelled_line_says_nothing(value: &Json, r: Vec<Update>, kind: Seq<char>)
    requires
        call_ensures(claude_code::understand, (value,), r),
        value@ is Object,
        value@.get("type"@) == Some(JsonView::Text(kind)),
        kind != "system"@,
        kind != "assistant"@,
        kind != "result"@,
    ensures
        r@.len() == 0,
{
    assert(claude_code::update_views(r@).len() == r@.len());
}

/// Whether a line is an assistant's message of these blocks, and nothing
/// else.
pub open spec fn speaks(value: JsonView, blocks: Seq<JsonView>) -> bool {
    &&& quiet_but(value, "message"@, "message"@, "message"@)
    &&& value.get("type"@) == Some(JsonView::Text("assistant"@))
    &&& value.get("message"@) is Some
    &&& value.get("message"@)->0 is Object
    &&& value.get("message"@)->0.get("content"@) == Some(JsonView::Array(blocks))
}

proof fn a_message_is_its_blocks(value: &Json, r: Vec<Update>, blocks: Seq<JsonView>)
    requires
        call_ensures(claude_code::understand, (value,), r),
        speaks(value@, blocks),
    ensures
        claude_code::update_views(r@) == (match claude_code::blocks_of(blocks) {
            Some(content) => claude_code::block_updates(content),
            None => Seq::empty(),
        }),
{
    reveal_strlit("system");
    reveal_strlit("assistant");
    reveal_strlit("result");
    reveal_strlit("init");
    assert("system"@.len() != "assistant"@.len());
    assert("system"@[0] != "result"@[0]);
    assert("system"@.len() != "init"@.len());
    assert("assistant"@.len() != "result"@.len());
    assert("assistant"@.len() != "init"@.len());
    assert("result"@.len() != "init"@.len());
    reveal_strlit("type");
    reveal_strlit("subtype");
    reveal_strlit("session_id");
    reveal_strlit("model");
    reveal_strlit("message");
    reveal_strlit("is_error");
    reveal_strlit("result");
    reveal_strlit("errors");
    reveal_strlit("total_cost_usd");
    reveal_strlit("usage");
    assert("type"@.len() != "subtype"@.len());
    assert("type"@.len() != "session_id"@.len());
    assert("type"@.len() != "model"@.len());
    assert("type"@.len() != "message"@.len());
    assert("type"@.len() != "is_error"@.len());
    assert("type"@.len() != "result"@.len());
    assert("type"@.len() != "errors"@.len());
    assert("type"@.len() != "total_cost_usd"@.len());
    assert("type"@.len() != "usage"@.len());
    assert("subtype"@.len() != "session_id"@.len());
    assert("subtype"@.len() != "model"@.len());
    assert("subtype"@[0] != "message"@[0]);
    assert("subtype"@.len() != "is_error"@.len());
    assert("subtype"@.len() != "result"@.len());
    assert("subtype"@.len() != "errors"@.len());
    assert("subtype"@.len() != "total_cost_usd"@.len());
    assert("subtype"@.len() != "usage"@.len());
    assert("session_id"@.len() != "model"@.len());
    assert("session_id"@.len() != "message"@.len());
    assert("session_id"@.len() != "is_error"@.len());
    assert("session_id"@.len() != "result"@.len());
    assert("session_id"@.len() != "errors"@.len());
    assert("session_id"@.len() != "total_cost_usd"@.len());
    assert("session_id"@.len() != "usage"@.len());
    assert("model"@.len() != "message"@.len());
    assert("model"@.len() != "is_error"@.len());
    assert("model"@.len() != "result"@.len());
    assert("model"@.len() != "errors"@.len());
    assert("model"@.len() != "total_cost_usd"@.len());
    assert("model"@[0] != "usage"@[0]);
    assert("message"@.len() != "is_error"@.len());
    assert("message"@.len() != "result"@.len());
    assert("message"@.len() != "errors"@.len());
    assert("message"@.len() != "total_cost_usd"@.len());
    assert("message"@.len() != "usage"@.len());
    assert("is_error"@.len() != "result"@.len());
    assert("is_error"@.len() != "errors"@.len());
    assert("is_error"@.len() != "total_cost_usd"@.len());
    assert("is_error"@.len() != "usage"@.len());
    assert("result"@[0] != "errors"@[0]);
    assert("result"@.len() != "total_cost_usd"@.len());
    assert("result"@.len() != "usage"@.len());
    assert("errors"@.len() != "total_cost_usd"@.len());
    assert("errors"@.len() != "usage"@.len());
    assert("total_cost_usd"@.len() != "usage"@.len());
    assert(value@.get("subtype"@) is None);
    assert(value@.get("session_id"@) is None);
    assert(value@.get("model"@) is None);
    assert(value@.get("is_error"@) is None);
    assert(value@.get("result"@) is None);
    assert(value@.get("errors"@) is None);
    assert(value@.get("total_cost_usd"@) is None);
    assert(value@.get("usage"@) is None);
}

/// Law: a block of text is what was said, a tool's use is the tool that was
/// reached for, and any other block says nothing.
pub proof fn a_block_is_what_it_says(value: &Json, r: Vec<Update>, block: JsonView)
    requires
        call_ensures(claude_code::understand, (value,), r),
        speaks(value@, seq![block]),
        block is Object,
        maybe_text(block.get("text"@)),
        maybe_text(block.get("name"@)),
        block.get("type"@) is Some && block.get("type"@)->0 is Text,
    ensures
        block.get("type"@)->0->Text_0 == "text"@ && block.get("text"@) is Some && block.get(
            "text"@,
        )->0 is Text ==> r@.len() == 1 && r@[0] is Text && block.get("text"@) == Some(
            JsonView::Text(r@[0]->Text_text@),
        ),
        block.get("type"@)->0->Text_0 == "tool_use"@ && block.get("name"@) is Some && block.get(
            "name"@,
        )->0 is Text ==> r@.len() == 1 && r@[0] is ToolUse && block.get("name"@) == Some(
            JsonView::Text(r@[0]->name@),
        ),
        block.get("type"@)->0->Text_0 != "text"@ && block.get("type"@)->0->Text_0 != "tool_use"@
            ==> r@.len() == 0,
{
    a_message_is_its_blocks(value, r, seq![block]);
    reveal_strlit("text");
    reveal_strlit("tool_use");
    assert("text"@.len() != "tool_use"@.len());
    let none = Seq::<JsonView>::empty();
    assert(seq![block].drop_last() =~= none);
    assert(seq![block].last() == block);
    assert(claude_code::blocks_of(none) == Some(Seq::<claude_code::BlockView>::empty()));
    let content = claude_code::blocks_of(seq![block])->0;
    assert(content.drop_last() =~= Seq::<claude_code::BlockView>::empty());
    let views = claude_code::update_views(r@);
    assert(views.len() == r@.len());
    assert(claude_code::block_updates(content.drop_last()) =~= Seq::empty());
    if r@.len() > 0 {
        assert(views[0] == r@[0]@);
    }
}

proof fn blocks_in_two(one: Seq<JsonView>, two: Seq<JsonView>)
    ensures
        claude_code::blocks_of(one) is Some && claude_code::blocks_of(two) is Some
            ==> claude_code::blocks_of(one + two) == Some(
            claude_code::blocks_of(one)->0 + claude_code::blocks_of(two)->0,
        ),
    decreases two.len(),
{
    if two.len() == 0 {
        assert(one + two =~= one);
        if claude_code::blocks_of(one) is Some {
            let front = claude_code::blocks_of(one)->0;
            assert(front + Seq::<claude_code::BlockView>::empty() =~= front);
        }
    } else {
        assert((one + two).drop_last() =~= one + two.drop_last());
        assert((one + two).last() == two.last());
        blocks_in_two(one, two.drop_last());
        if claude_code::blocks_of(one) is Some && claude_code::blocks_of(two) is Some {
            let a = claude_code::blocks_of(one)->0;
            let b = claude_code::blocks_of(two.drop_last())->0;
            let c = claude_code::block_of(two.last())->0;
            assert((a + b).push(c) =~= a + b.push(c));
        }
    }
}

proof fn updates_in_two(one: Seq<claude_code::BlockView>, two: Seq<claude_code::BlockView>)
    ensures
        claude_code::block_updates(one + two) == claude_code::block_updates(one)
            + claude_code::block_updates(two),
    decreases two.len(),
{
    if two.len() == 0 {
        assert(one + two =~= one);
        assert(claude_code::block_updates(one) + claude_code::block_updates(two)
            =~= claude_code::block_updates(one));
    } else {
        assert((one + two).drop_last() =~= one + two.drop_last());
        assert((one + two).last() == two.last());
        updates_in_two(one, two.drop_last());
        assert(claude_code::block_updates(one + two) =~= claude_code::block_updates(one)
            + claude_code::block_updates(two));
    }
}

/// Law: a message says what its blocks say, one after the other: of two
/// rows of blocks together, what the first says and then what the second
/// says.
pub proof fn a_message_says_its_blocks_in_order(
    one: &Json,
    two: &Json,
    both: &Json,
    said_by_one: Vec<Update>,
    said_by_two: Vec<Update>,
    said: Vec<Update>,
    first: Seq<JsonView>,
    second: Seq<JsonView>,
)
    requires
        call_ensures(claude_code::understand, (one,), said_by_one),
        call_ensures(claude_code::understand, (two,), said_by_two),
        call_ensures(claude_code::understand, (both,), said),
        speaks(one@, first),
        speaks(two@, second),
        speaks(both@, first + second),
        claude_code::blocks_of(first) is Some,
        claude_code::blocks_of(second) is Some,
    ensures
        said@.len() == said_by_one@.len() + said_by_two@.len(),
        forall|i: int|
            0 <= i < said_by_one@.len() ==> (#[trigger] said@[i])@ == said_by_one@[i]@,
        forall|i: int|
            0 <= i < said_by_two@.len() ==> (#[trigger] said_by_two@[i])@
                == said@[said_by_one@.len() + i]@,
{
    a_message_is_its_blocks(one, said_by_one, first);
    a_message_is_its_blocks(two, said_by_two, second);
    a_message_is_its_blocks(both, said, first + second);
    blocks_in_two(first, second);
    updates_in_two(claude_code::blocks_of(first)->0, claude_code::blocks_of(second)->0);
    let a = claude_code::update_views(said_by_one@);
    let b = claude_code::update_views(said_by_two@);
    let c = claude_code::update_views(said@);
    assert(c == a + b);
    assert forall|i: int| 0 <= i < said_by_one@.len() implies (#[trigger] said@[i])@
        == said_by_one@[i]@ by {
        assert(c[i] == said@[i]@ && a[i] == said_by_one@[i]@);
    }
    assert forall|i: int| 0 <= i < said_by_two@.len() implies (#[trigger] said_by_two@[i])@
        == said@[said_by_one@.len() + i]@ by {
        assert(b[i] == said_by_two@[i]@);
        assert(c[a.len() + i] == said@[said_by_one@.len() + i]@);
    }
}

/// Law: a line of text says what the value it spells says, and one that
/// spells no value says nothing.
pub proof fn a_line_says_what_its_value_says(
    line: &str,
    r: Vec<Update>,
    value: Json,
    understood: Vec<Update>,
)
    requires
        call_ensures(claude_code::interpret, (line,), r),
        call_ensures(claude_code::understand, (&value,), understood),
    ensures
        json::read_as(line@) is Err ==> r@.len() == 0,
        json::read_as(line@) == Ok::<JsonView, Seq<char>>(value@) ==> {
            &&& r@.len() == understood@.len()
            &&& forall|i: int| 0 <= i < r@.len() ==> (#[trigger] r@[i])@ == understood@[i]@
        },
{
    let a = claude_code::update_views(r@);
    let b = claude_code::update_views(understood@);
    assert(a.len() == r@.len() && b.len() == understood@.len());
    if json::read_as(line@) == Ok::<JsonView, Seq<char>>(value@) {
        assert forall|i: int| 0 <= i < r@.len() implies (#[trigger] r@[i])@ == understood@[i]@ by {
            assert(a[i] == r@[i]@ && b[i] == understood@[i]@);
        }
    }
}

// ----- what an agent is started with -----

/// Whether `flag` stands on a command line with `value` right behind it.
pub open spec fn flagged(argv: Seq<String>, flag: Seq<char>, value: Seq<char>) -> bool {
    exists|i: int|
        0 <= i < argv.len() - 1 && (#[trigger] argv[i])@ == flag && argv[i + 1]@ == value
}

/// Whether `word` stands on a command line.
pub open spec fn worded(argv: Seq<String>, word: Seq<char>) -> bool {
    exists|i: int| 0 <= i < argv.len() && (#[trigger] argv[i])@ == word
}

/// Law: an agent is started as its binary, where it is to work, with its
/// prompt on stdin; it prints, streams JSON, asks nobody, and keeps to no
/// settings but its own.
pub proof fn an_agent_is_started_as_it_is_stated(agent: &ClaudeCode, r: Task)
    requires
        call_ensures(ClaudeCode::task, (agent,), r),
    ensures
        r.argv@.len() > 0,
        r.argv@[0]@ == agent.binary@,
        r.cwd@ == agent.cwd@,
        r.stdin is Some,
        r.stdin->0@ == agent.prompt@,
        worded(r.argv@, "-p"@),
        worded(r.argv@, "--verbose"@),
        worded(r.argv@, "--strict-mcp-config"@),
        worded(r.argv@, "--dangerously-skip-permissions"@),
        flagged(r.argv@, "--output-format"@, "stream-json"@),
        flagged(r.argv@, "--settings"@, "{}"@),
        agent.model is Some ==> flagged(r.argv@, "--model"@, agent.model->0@),
        agent.model is None ==> agent.binary@ != "--model"@ ==> !worded(r.argv@, "--model"@),
{
    let argv = text::views(r.argv@);
    assert(argv.len() == r.argv@.len());
    assert forall|i: int| 0 <= i < argv.len() implies #[trigger] argv[i] == r.argv@[i]@ by {}
    assert(argv[0] == r.argv@[0]@);
    assert(argv[1] == r.argv@[1]@ && argv[2] == r.argv@[2]@ && argv[3] == r.argv@[3]@ && argv[4]
        == r.argv@[4]@);
    let n = if agent.model is Some { 7int } else { 5int };
    assert(argv[n] == r.argv@[n]@ && argv[n + 1] == r.argv@[n + 1]@);
    assert(argv[n + 2] == r.argv@[n + 2]@ && argv[n + 3] == r.argv@[n + 3]@);
    if agent.model is Some {
        assert(argv[5] == r.argv@[5]@ && argv[6] == r.argv@[6]@);
    } else {
        reveal_strlit("--model");
        reveal_strlit("-p");
        reveal_strlit("--output-format");
        reveal_strlit("stream-json");
        reveal_strlit("--verbose");
        reveal_strlit("--settings");
        reveal_strlit("{}");
        reveal_strlit("--strict-mcp-config");
        reveal_strlit("--dangerously-skip-permissions");
        assert("--model"@.len() != "-p"@.len());
        assert("--model"@.len() != "--output-format"@.len());
        assert("--model"@.len() != "stream-json"@.len());
        assert("--model"@.len() != "--verbose"@.len());
        assert("--model"@.len() != "--settings"@.len());
        assert("--model"@.len() != "{}"@.len());
        assert("--model"@.len() != "--strict-mcp-config"@.len());
        assert("--model"@.len() != "--dangerously-skip-permissions"@.len());
        if agent.binary@ != "--model"@ && worded(r.argv@, "--model"@) {
            let i = choose|i: int|
                0 <= i < r.argv@.len() && (#[trigger] r.argv@[i])@ == "--model"@;
            assert(argv[i] == "--model"@);
        }
    }
}

/// Law: an agent's environment has the key it was given under the name it
/// looks for, and nothing else.
pub proof fn an_agent_is_given_its_key_and_nothing_else(agent: &ClaudeCode, r: Task)
    requires
        call_ensures(ClaudeCode::task, (agent,), r),
    ensures
        agent.api_key is None ==> r.env@.len() == 0,
        agent.api_key is Some ==> r.env@.len() == 1 && r.env@[0].0@ == "ANTHROPIC_API_KEY"@
            && r.env@[0].1.bytes() == agent.api_key->0.bytes(),
{
    let env = agent::env_view(r.env@);
    assert(env.len() == r.env@.len());
    if r.env@.len() > 0 {
        assert(env[0] == (r.env@[0].0@, r.env@[0].1.bytes()));
    }
}

// ----- how a process ends -----

/// Law: a process that a signal took ended by that signal, one that did not
/// ended by its code, and zero is the one code of success.
pub proof fn an_exit_is_how_the_process_ended(
    signal: Option<i32>,
    code: Option<i32>,
    status: &str,
    r: Result<Exit, String>,
    success: bool,
)
    requires
        call_ensures(Exit::of, (signal, code, status), r),
        r is Ok ==> call_ensures(Exit::success, (r->Ok_0,), success),
    ensures
        r is Err <==> signal is None && code is None,
        signal is Some ==> r == Ok::<Exit, String>(Exit::Signal(signal->0)),
        signal is None && code is Some ==> r == Ok::<Exit, String>(Exit::Code(code->0)),
        r is Ok ==> (success <==> signal is None && code == Some(0i32)),
{
}

/// Law: a process under a deadline is killed only past it and only while it
/// runs, is waited for until then, and is reaped once it has ended.
pub proof fn a_process_is_killed_only_past_its_deadline(
    ended: bool,
    now: u64,
    deadline: Option<u64>,
    r: Wait,
)
    requires
        call_ensures(agent::wait, (ended, now, deadline), r),
    ensures
        r is Kill <==> !ended && deadline is Some && now >= deadline->0,
        r is Sleep <==> !ended && deadline is Some && now < deadline->0,
        ended ==> r is Reap,
{
}

proof fn streams_apart(lines: Seq<Line>)
    ensures
        lines.filter(|line: Line| line is Stdout).map_values(|line: Line| said_in(line))
            == agent::stdout_of(lines),
        lines.filter(|line: Line| line is Stderr).map_values(|line: Line| said_in(line))
            == agent::stderr_of(lines),
    decreases lines.len(),
{
    reveal(Seq::filter);
    let said = |line: Line| said_in(line);
    if lines.len() > 0 {
        streams_apart(lines.drop_last());
        let front = lines.drop_last().filter(|line: Line| line is Stdout);
        let other = lines.drop_last().filter(|line: Line| line is Stderr);
        assert(front.push(lines.last()).map_values(said) =~= front.map_values(said).push(
            said_in(lines.last()),
        ));
        assert(other.push(lines.last()).map_values(said) =~= other.map_values(said).push(
            said_in(lines.last()),
        ));
    } else {
        assert(lines.filter(|line: Line| line is Stdout).map_values(said) =~= Seq::empty());
        assert(lines.filter(|line: Line| line is Stderr).map_values(said) =~= Seq::empty());
    }
}

/// What a line says, on either stream.
pub open spec fn said_in(line: Line) -> Seq<char> {
    match line {
        Line::Stdout(text) => text@,
        Line::Stderr(text) => text@,
    }
}

/// Law: what a finished process said is every line of its stdout and then
/// every line of its stderr, each in order and on a line of its own.
pub proof fn a_transcript_is_stdout_and_then_stderr(exit: Exit, lines: &Vec<Line>, r: Finished)
    requires
        call_ensures(Finished::of, (exit, lines), r),
    ensures
        r.exit == exit,
        ({
            let said = |line: Line| said_in(line);
            let out = text::join(
                lines@.filter(|line: Line| line is Stdout).map_values(said),
                "\n"@,
            );
            let err = text::join(
                lines@.filter(|line: Line| line is Stderr).map_values(said),
                "\n"@,
            );
            &&& out.len() == 0 ==> r.output@ == err
            &&& lines@.filter(|line: Line| line is Stderr).len() == 0 ==> r.output@ == out
            &&& out.len() > 0 && err.len() > 0 ==> r.output@ == out + "\n"@ + err
        }),
{
    streams_apart(lines@);
    let said = |line: Line| said_in(line);
    let out = text::join(agent::stdout_of(lines@), "\n"@);
    let err = text::join(agent::stderr_of(lines@), "\n"@);
    assert(Seq::<char>::empty() + err =~= err);
    if out.len() == 0 {
        assert(out + err =~= err);
    }
    if lines@.filter(|line: Line| line is Stderr).len() == 0 {
        assert(agent::stderr_of(lines@).len() == 0);
        assert(out + err =~= out);
    }
}

/// Law: the text of a line is its bytes but for the newline that ends it,
/// and a carriage return before that.
pub proof fn a_line_loses_only_its_end(bytes: &Vec<u8>, r: Vec<u8>)
    requires
        call_ensures(agent::stripped, (bytes,), r),
    ensures
        r@.len() <= bytes@.len(),
        r@ == bytes@.take(r@.len() as int),
        ({
            let end = bytes@.skip(r@.len() as int);
            end.len() == 0 || end == seq![10u8] || end == seq![13u8] || end == seq![13u8, 10u8]
        }),
        bytes@.len() > 0 && bytes@.last() == 10 ==> r@.len() < bytes@.len(),
        bytes@.len() > 1 && bytes@.last() == 10 && bytes@[bytes@.len() - 2] == 13 ==> r@.len()
            == bytes@.len() - 2,
{
    let end = bytes@.skip(r@.len() as int);
    assert(r@ =~= bytes@.take(r@.len() as int));
    if end.len() == 1 {
        assert(end =~= seq![end[0]]);
    }
    if end.len() == 2 {
        assert(end =~= seq![end[0], end[1]]);
    }
}

} // verus!
