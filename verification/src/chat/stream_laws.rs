//! What holds of every reply as it streams in, whatever the stream says.

use crate::chat;
use crate::chat::stream;
use crate::chat::stream::{Heard, Hearing};
use crate::chat::wire;
use crate::chat::wire::{Step, ToolCallFragment};
use crate::chat::{ChatError, ChatErrorView, ModelInfo, Reply};
use crate::json;
use crate::json::{Json, JsonView};
use crate::text;
use vstd::prelude::*;

verus! {

/// Whether an optional text is what an object's member says: that text, or
/// none where the member is absent or null.
pub open spec fn tells(read: Option<String>, part: Option<JsonView>) -> bool {
    &&& read is Some <==> part is Some && part->0 is Text
    &&& read is Some ==> part == Some(JsonView::Text((read->0)@))
    &&& read is None ==> part is None || part == Some(JsonView::Null)
}

/// Whether a fragment is what an object says of one: its index, its id, and
/// what the function in it says of the name and the arguments.
pub open spec fn fragment_tells(read: ToolCallFragment, value: JsonView) -> bool {
    &&& value.get("index"@) == Some(JsonView::Whole(read.index as nat))
    &&& tells(read.id, value.get("id"@))
    &&& value.get("function"@) is Some && value.get("function"@)->0 is Object ==> tells(
        read.name,
        value.get("function"@)->0.get("name"@),
    ) && tells(read.arguments, value.get("function"@)->0.get("arguments"@))
    &&& value.get("function"@) is None ==> read.name is None && read.arguments is None
}

proof fn every_fragment_is_read(items: Seq<JsonView>)
    ensures
        match wire::fragments_of(items) {
            Some(fragments) => fragments.len() == items.len() && forall|k: int|
                0 <= k < items.len() ==> wire::fragment_of(#[trigger] items[k]) == Some(
                    fragments[k],
                ),
            None => true,
        },
    decreases items.len(),
{
    if items.len() > 0 {
        every_fragment_is_read(items.drop_last());
        if wire::fragments_of(items) is Some {
            assert forall|k: int| 0 <= k < items.len() implies wire::fragment_of(
                #[trigger] items[k],
            ) == Some(wire::fragments_of(items)->0[k]) by {
                if k < items.len() - 1 {
                    assert(items.drop_last()[k] == items[k]);
                }
            }
        }
    }
}

proof fn the_first_choice_is_the_first(items: Seq<JsonView>)
    ensures
        match wire::first_choice(items) {
            Some(Some(choice)) => items.len() > 0 && wire::choice_of(items[0]) == Some(choice),
            Some(None) => items.len() == 0,
            None => items.len() > 0,
        },
        (forall|k: int| 0 <= k < items.len() ==> wire::choice_of(#[trigger] items[k]) is Some) ==>
            wire::first_choice(items) is Some,
    decreases items.len(),
{
    if items.len() > 0 {
        let front = items.drop_last();
        the_first_choice_is_the_first(front);
        if forall|k: int| 0 <= k < items.len() ==> wire::choice_of(#[trigger] items[k]) is Some {
            assert forall|k: int| 0 <= k < front.len() implies wire::choice_of(
                #[trigger] front[k],
            ) is Some by {
                assert(front[k] == items[k]);
            }
            assert(wire::choice_of(items[items.len() - 1]) is Some);
        }
        if items.len() > 1 {
            assert(front[0] == items[0]);
        }
    }
}

/// Law: a chunk that lists no choices says nothing, and one that lists none
/// at all is no chunk.
pub proof fn a_chunk_lists_its_choices(value: &Json, r: Option<Step>)
    requires
        call_ensures(wire::step_of, (value,), r),
        value@ is Object,
    ensures
        r is Some ==> value@.get("choices"@) is Some && value@.get("choices"@)->0 is Array,
        value@.get("choices"@) == Some(JsonView::Array(Seq::empty())) ==> r == Some(Step::Skip),
{
    if r is Some {
        let items = value@.get("choices"@)->0->Array_0;
        the_first_choice_is_the_first(items);
    }
}

/// Law: a chunk means what its first choice says: fragments of tool calls,
/// every one of them and in order, where it has a row of them; else the
/// content, where it has any; else that the model finished by asking for
/// tools, just when that is why it finished.
pub proof fn a_chunk_means_what_its_first_choice_says(
    value: &Json,
    items: Seq<JsonView>,
    delta: JsonView,
    r: Option<Step>,
)
    requires
        call_ensures(wire::step_of, (value,), r),
        value@ is Object,
        value@.get("choices"@) == Some(JsonView::Array(items)),
        items.len() > 0,
        items[0] is Object,
        items[0].get("delta"@) == Some(delta),
        delta is Object,
        r is Some,
    ensures
        match delta.get("tool_calls"@) {
            Some(JsonView::Array(row)) => {
                &&& r->0 is ToolCalls
                &&& r->0->ToolCalls_0@.len() == row.len()
                &&& forall|k: int|
                    0 <= k < row.len() && (#[trigger] row[k]) is Object ==> fragment_tells(
                        r->0->ToolCalls_0@[k],
                        row[k],
                    )
            },
            _ => match delta.get("content"@) {
                Some(JsonView::Text(said)) => r->0 is Delta && r->0->Delta_0@ == said,
                _ => {
                    &&& r->0 is ToolsFinished || r->0 is Skip
                    &&& r->0 is ToolsFinished <==> items[0].get("finish_reason"@) == Some(
                        JsonView::Text("tool_calls"@),
                    )
                },
            },
        },
{
    the_first_choice_is_the_first(items);
    match delta.get("tool_calls"@) {
        Some(JsonView::Array(row)) => {
            every_fragment_is_read(row);
            let fragments = r->0->ToolCalls_0@;
            assert(wire::fragment_views(fragments).len() == fragments.len());
            assert forall|k: int| 0 <= k < row.len() && (#[trigger] row[k]) is Object implies
                fragment_tells(fragments[k], row[k]) by {
                assert(wire::fragment_views(fragments)[k] == fragments[k]@);
                assert(wire::fragment_of(row[k]) == Some(fragments[k]@));
            }
        },
        _ => {},
    }
}

/// Law: a chunk whose choices all have a delta that speaks the protocol is
/// one.
pub proof fn a_chunk_of_words_is_heard(
    value: &Json,
    items: Seq<JsonView>,
    r: Option<Step>,
)
    requires
        call_ensures(wire::step_of, (value,), r),
        value@ is Object,
        value@.get("choices"@) == Some(JsonView::Array(items)),
        forall|k: int|
            0 <= k < items.len() ==> {
                &&& (#[trigger] items[k]) is Object
                &&& items[k].get("delta"@) is Some
                &&& items[k].get("delta"@)->0 is Object
                &&& items[k].get("delta"@)->0.get("content"@) is Some
                &&& items[k].get("delta"@)->0.get("content"@)->0 is Text
                &&& items[k].get("delta"@)->0.get("tool_calls"@) is None
                &&& items[k].get("finish_reason"@) is None
            },
    ensures
        r is Some,
{
    the_first_choice_is_the_first(items);
    assert forall|k: int| 0 <= k < items.len() implies wire::choice_of(
        #[trigger] items[k],
    ) is Some by {
        assert(items[k] is Object);
    }
}

/// Law: a payload is the end of the stream just when it is the sentinel;
/// any other is what its value means, and one that means nothing is
/// quoted whole in the error.
pub proof fn a_payload_means_what_its_value_means(
    payload: &str,
    r: Result<Step, ChatError>,
    value: &Json,
    meant: Option<Step>,
)
    requires
        call_ensures(wire::step, (payload,), r),
        call_ensures(wire::step_of, (value,), meant),
    ensures
        (r is Ok && r->Ok_0 is Done) <==> text::trimmed(payload@) == "[DONE]"@,
        r is Err ==> r->Err_0 is MalformedStream && r->Err_0->MalformedStream_0@ == payload@,
        text::trimmed(payload@) != "[DONE]"@ && json::read_as(payload@) is Err ==> r is Err,
        text::trimmed(payload@) != "[DONE]"@ && json::read_as(payload@) == Ok::<
            JsonView,
            Seq<char>,
        >(value@) ==> (r is Ok <==> meant is Some) && (r is Ok ==> r->Ok_0@ == (meant->0)@),
{
}

/// Law: a line of data goes to the event in progress without what frames
/// it, and a blank line ends the event, which is its data, line by line.
pub proof fn data_is_taken_out_of_its_frame(pending: Seq<Seq<char>>, data: Seq<char>)
    requires
        data.len() > 0 ==> data.last() != '\r',
    ensures
        wire::after_line(pending, "data: "@ + data) == (pending.push(data), None::<Seq<char>>),
        wire::after_line(pending, Seq::empty()).0 == Seq::<Seq<char>>::empty(),
        wire::after_line(seq![data], Seq::empty()).1 == Some(data),
        wire::after_line(Seq::empty(), Seq::empty()).1 is None,
        wire::after_line(pending, ":"@ + data) == (pending, None::<Seq<char>>),
{
    reveal_strlit("data: ");
    reveal_strlit("data:");
    reveal_strlit(":");
    let line = "data: "@ + data;
    assert(line.last() != '\r');
    assert(line.take(5) =~= "data:"@);
    assert(line.skip(5) =~= seq![' '] + data);
    assert((seq![' '] + data)[0] == ' ');
    assert((seq![' '] + data).skip(1) =~= data);
    let comment = ":"@ + data;
    assert(comment.last() != '\r');
    assert(comment[0] == ':');
    assert("data:"@[0] != ':');
    assert(comment.len() >= 5 ==> comment.take(5)[0] == ':');
    assert(wire::datum(comment) is None);
    assert(seq![data].len() == 1);
    assert(seq![data][0] == data);
}

/// Law: what a payload says is kept with what was said before and is shown
/// at once; calls are kept aside; and nothing is forgotten.
pub proof fn what_is_heard_is_kept(hearing: stream::HearingView, payload: Seq<char>)
    ensures
        match (wire::stepped(payload), hearing.read(Some(payload))) {
            (Ok(step), Ok((after, heard))) => {
                &&& step is Delta <==> heard is Delta
                &&& step is Done <==> heard is Done
                &&& step is Delta ==> heard->Delta_0 == step->Delta_0 && after.reply
                    == hearing.reply + step->Delta_0
                &&& !(step is Delta) ==> after.reply == hearing.reply
                &&& !(step is ToolCalls) ==> after.calls == hearing.calls
                &&& after.tools_finished <==> hearing.tools_finished || step is ToolsFinished
                &&& after.pending == hearing.pending
            },
            (Err(error), Err(told)) => error == told,
            _ => false,
        },
        hearing.read(None) == Ok::<_, ChatErrorView>((hearing, stream::HeardView::Nothing)),
{
}

/// Law: a call's fragments may come in any number of pieces: its arguments
/// are the pieces in the order they came, and its id and its name the last
/// that were given.
pub proof fn a_call_is_its_pieces(
    fragments: Seq<wire::FragmentView>,
    last: wire::FragmentView,
    more: Seq<char>,
)
    requires
        last.arguments == Some(more),
        stream::assembled(fragments, last.index) is Some,
    ensures
        ({
            let before = stream::assembled(fragments, last.index)->0;
            let after = stream::assembled(fragments.push(last), last.index);
            &&& after is Some
            &&& (after->0).arguments == before.arguments + more
            &&& (after->0).id == (if last.id is Some {
                last.id->0
            } else {
                before.id
            })
            &&& (after->0).name == (if last.name is Some {
                last.name->0
            } else {
                before.name
            })
        }),
{
    assert(fragments.push(last).drop_last() =~= fragments);
}

/// Law: a reply is the calls where any came or where the model said it
/// finished by asking for them, and its words where not; one that was
/// stopped is the words so far.
pub proof fn a_reply_is_calls_or_words(hearing: Hearing, r: Reply, stopped: Reply)
    requires
        call_ensures(Hearing::finish, (hearing,), r),
        call_ensures(Hearing::stopped, (hearing,), stopped),
    ensures
        r is ToolCalls <==> hearing@.tools_finished || hearing@.calls.len() > 0,
        r is ToolCalls ==> {
            &&& r->ToolCalls_0@.len() == hearing@.calls.len()
            &&& forall|k: int|
                0 <= k < r->ToolCalls_0@.len() ==> {
                    &&& (#[trigger] r->ToolCalls_0@[k]).id@ == hearing@.calls[k].1.id
                    &&& r->ToolCalls_0@[k].name@ == hearing@.calls[k].1.name
                    &&& r->ToolCalls_0@[k].arguments@ == hearing@.calls[k].1.arguments
                }
        },
        r is Text ==> r->Text_0@ == hearing@.reply,
        stopped is Text,
        stopped->Text_0@ == hearing@.reply,
{
    if r is ToolCalls {
        let calls = r->ToolCalls_0@;
        assert(chat::call_views(calls).len() == calls.len());
        assert forall|k: int| 0 <= k < calls.len() implies {
            &&& (#[trigger] calls[k]).id@ == hearing@.calls[k].1.id
            &&& calls[k].name@ == hearing@.calls[k].1.name
            &&& calls[k].arguments@ == hearing@.calls[k].1.arguments
        } by {
            assert(chat::call_views(calls)[k] == calls[k]@);
        }
    }
}

// ----- the other answers -----

/// Law: a refusal is in the API's own words where its body carries them.
pub proof fn a_refusal_is_in_the_apis_own_words(
    status: &str,
    body: &str,
    error: JsonView,
    words: Seq<char>,
    r: ChatError,
)
    requires
        call_ensures(stream::refused, (status, body), r),
        json::read_as(body@) is Ok,
        json::read_as(body@)->Ok_0 is Object,
        json::read_as(body@)->Ok_0.get("error"@) == Some(error),
        error is Object,
        error.get("message"@) == Some(JsonView::Text(words)),
    ensures
        r is Api,
        r->Api_0@ == words,
{
}

/// Law: a refusal whose body is not JSON is the body, or the status where
/// the body is blank.
pub proof fn a_refusal_in_no_words_is_its_body(status: &str, body: &str, r: ChatError)
    requires
        call_ensures(stream::refused, (status, body), r),
        json::read_as(body@) is Err,
    ensures
        r is Api,
        r->Api_0@ == (if text::trimmed(body@).len() == 0 {
            status@
        } else {
            body@
        }),
{
}

proof fn every_model_is_read(items: Seq<JsonView>)
    ensures
        match stream::models_of(items) {
            Some(models) => models.len() == items.len() && forall|k: int|
                0 <= k < items.len() ==> stream::model_of(#[trigger] items[k]) == Some(models[k]),
            None => exists|k: int|
                0 <= k < items.len() && stream::model_of(#[trigger] items[k]) is None,
        },
    decreases items.len(),
{
    if items.len() > 0 {
        let front = items.drop_last();
        every_model_is_read(front);
        match stream::models_of(items) {
            Some(models) => {
                assert forall|k: int| 0 <= k < items.len() implies stream::model_of(
                    #[trigger] items[k],
                ) == Some(models[k]) by {
                    if k < items.len() - 1 {
                        assert(front[k] == items[k]);
                    }
                }
            },
            None => {
                if stream::models_of(front) is None {
                    let k = choose|k: int|
                        0 <= k < front.len() && stream::model_of(#[trigger] front[k]) is None;
                    assert(items[k] == front[k]);
                } else {
                    assert(items[items.len() - 1] == items.last());
                }
            },
        }
    }
}

/// Law: the models are those the page lists under `data`, all of them, in
/// the order the API gives, each by its own id and the name to show; an
/// answer that is no success lists none.
pub proof fn every_model_is_listed(
    success: bool,
    status: &str,
    body: &str,
    r: Result<Vec<ModelInfo>, ChatError>,
)
    requires
        call_ensures(stream::models, (success, status, body), r),
    ensures
        r is Ok ==> success && json::read_as(body@) is Ok,
        r is Ok && json::read_as(body@)->Ok_0 is Object ==> {
            let data = json::read_as(body@)->Ok_0.get("data"@);
            &&& data is Some
            &&& data->0 is Array
            &&& r->Ok_0@.len() == (data->0)->Array_0.len()
            &&& forall|k: int|
                0 <= k < r->Ok_0@.len() && (data->0)->Array_0[k] is Object ==> {
                    let item = (data->0)->Array_0[k];
                    &&& item.get("id"@) == Some(JsonView::Text((#[trigger] r->Ok_0@[k]).id@))
                    &&& item.get("display_name"@) == Some(
                        JsonView::Text(r->Ok_0@[k].display_name@),
                    )
                }
        },
        !success ==> r is Err && r->Err_0 is Api,
        success && r is Err ==> r->Err_0 is MalformedStream,
{
    if r is Ok && json::read_as(body@)->Ok_0 is Object {
        let items = (json::read_as(body@)->Ok_0.get("data"@)->0)->Array_0;
        every_model_is_read(items);
        let models = r->Ok_0@;
        assert(stream::model_views(models).len() == models.len());
        assert forall|k: int| 0 <= k < models.len() && items[k] is Object implies {
            &&& items[k].get("id"@) == Some(JsonView::Text((#[trigger] models[k]).id@))
            &&& items[k].get("display_name"@) == Some(JsonView::Text(models[k].display_name@))
        } by {
            assert(stream::model_views(models)[k] == (models[k].id@, models[k].display_name@));
            assert(stream::model_of(items[k]) == Some(stream::model_views(models)[k]));
        }
    }
}

/// Law: a stream that ends without saying it was done is what was heard of
/// it: its last event still counts, and where there is none the reply is
/// the one that was under way.
pub proof fn a_stream_that_is_cut_off_is_what_was_heard(
    hearing: Hearing,
    r: Result<(Reply, Heard), ChatError>,
    finished: Reply,
)
    requires
        call_ensures(Hearing::cut_off, (hearing,), r),
        call_ensures(Hearing::finish, (hearing,), finished),
    ensures
        hearing@.pending.len() == 0 ==> r is Ok && (r->Ok_0).0@ == finished@ && (r->Ok_0).1
            is Nothing,
        hearing@.pending.len() == 1 && wire::stepped(hearing@.pending[0]) is Err ==> r is Err,
        hearing@.pending.len() == 1 && r is Ok && finished is Text && (r->Ok_0).1 is Delta ==> (
        r->Ok_0).0 is Text && (r->Ok_0).0->Text_0@ == finished->Text_0@ + (
        r->Ok_0).1->Delta_0@,
{
}

} // verus!
