//! What holds of everything that keeps a conversation.

use crate::chat;
use crate::chat::openai;
use crate::chat::openai::{Assembly, Chunk, Message, OpenAiCompatible, Reply, ToolDeclaration};
use crate::chat::scripted::Scripted;
use crate::chat::stream;
use crate::chat::stream::{Calls, Heard, Hearing};
use crate::chat::wire;
use crate::chat::wire::ToolCallFragment;
use crate::chat::{
    ChatError, Conversation, Role, StopToken, ToolCall, ToolSpec, TranscriptItem,
};
use crate::event::{ChatEvent, Usage};
use crate::json;
use crate::json::Json;
use crate::text;
use vstd::prelude::*;

verus! {

/// Law: a conversation grows by what is said and loses nothing: every item
/// stays where it was, and the new one is last.
pub proof fn a_conversation_only_grows(
    conversation: &mut Conversation,
    item: TranscriptItem,
    items: &Vec<TranscriptItem>,
)
    requires
        call_ensures(Conversation::push, (conversation, item), ()),
        call_ensures(Conversation::items, (&*old(conversation),), items),
    ensures
        final(conversation).said().len() == items@.len() + 1,
        final(conversation).said().last() == item,
        forall|i: int|
            0 <= i < items@.len() ==> final(conversation).said()[i] == #[trigger] items@[i],
{
}

/// Law: nobody is stopped until they are told to, and then they are.
pub proof fn a_stop_is_a_stop(fresh: StopToken, token: &mut StopToken, asked: bool)
    requires
        call_ensures(StopToken::new, (), fresh),
        call_ensures(StopToken::stop, (token,), ()),
        call_ensures(StopToken::is_stopped, (&fresh,), asked),
    ensures
        !asked,
        final(token).set(),
{
}

/// Law: the tools and the key of a client are those it was last given, and
/// giving it one leaves the other.
pub proof fn a_client_uses_what_it_was_given(
    client: &mut OpenAiCompatible,
    tools: Vec<ToolDeclaration>,
    other: &mut OpenAiCompatible,
    key: Option<String>,
)
    requires
        call_ensures(OpenAiCompatible::use_tools, (client, tools), ()),
        call_ensures(OpenAiCompatible::use_key, (other, key), ()),
    ensures
        final(client).offers() == tools@,
        final(client).presents() == old(client).presents(),
        final(client).speaks_to() == old(client).speaks_to(),
        final(client).asked_at() == old(client).asked_at(),
        key is Some ==> final(other).presents() == Some((key->0)@),
        key is None ==> final(other).presents() is None,
        final(other).offers() == old(other).offers(),
        final(other).speaks_to() == old(other).speaks_to(),
        final(other).asked_at() == old(other).asked_at(),
{
}

/// Law: a line of data is heard only once its event ends, and then as what
/// the event means: words are shown and kept, after what was said before.
pub proof fn a_line_is_heard_when_its_event_ends(
    hearing: &mut Hearing,
    line: &str,
    r: Result<Heard, ChatError>,
    data: Seq<char>,
)
    requires
        call_ensures(Hearing::line, (hearing, line), r),
        line@ == "data: "@ + data,
        data.len() > 0,
        data.last() != '\r',
    ensures
        r is Ok,
        r->Ok_0 is Nothing,
        final(hearing)@.pending == old(hearing)@.pending.push(data),
        final(hearing)@.reply == old(hearing)@.reply,
        final(hearing)@.calls == old(hearing)@.calls,
        final(hearing)@.tools_finished == old(hearing)@.tools_finished,
{
    crate::chat::stream_laws::data_is_taken_out_of_its_frame(old(hearing)@.pending, data);
}

/// Law: a blank line ends the event: what is shown of it is what is added
/// to the reply, and nothing is left pending.
pub proof fn a_blank_line_ends_the_event(
    hearing: &mut Hearing,
    line: &str,
    r: Result<Heard, ChatError>,
)
    requires
        call_ensures(Hearing::line, (hearing, line), r),
        line@.len() == 0,
        r is Ok,
    ensures
        final(hearing)@.pending.len() == 0,
        r->Ok_0 is Delta ==> final(hearing)@.reply == old(hearing)@.reply + r->Ok_0->Delta_0@,
        !(r->Ok_0 is Delta) ==> final(hearing)@.reply == old(hearing)@.reply,
        old(hearing)@.pending.len() == 0 ==> r->Ok_0 is Nothing,
        old(hearing)@.pending.len() == 1 ==> {
            let meant = wire::stepped(old(hearing)@.pending[0]);
            &&& meant is Ok
            &&& r->Ok_0 is Done <==> meant->Ok_0 is Done
            &&& meant->Ok_0 is Delta ==> r->Ok_0 is Delta && r->Ok_0->Delta_0@
                == meant->Ok_0->Delta_0
        },
{
}

/// Law: what a chunk says is told at once as one delta, and is added to the
/// text; a chunk that says nothing is not told.
pub proof fn a_chunk_is_told_as_it_comes(
    assembly: &mut Assembly,
    chunk: &Chunk,
    log: &mut Vec<ChatEvent>,
)
    requires
        call_ensures(Assembly::absorb, (assembly, chunk, log), ()),
        chunk.choices@.len() == 1,
    ensures
        ({
            let content = chunk.choices@[0].content;
            let said = if content is Some {
                (content->0)@
            } else {
                Seq::empty()
            };
            &&& final(assembly)@.text == old(assembly)@.text + said
            &&& said.len() == 0 ==> final(log)@ == old(log)@
            &&& said.len() > 0 ==> {
                &&& final(log)@.len() == old(log)@.len() + 1
                &&& final(log)@.drop_last() == old(log)@
                &&& final(log)@.last() is Delta
                &&& final(log)@.last()->Delta_text@ == said
            }
        }),
        chunk.usage is Some ==> final(assembly)@.usage == chunk.usage,
        chunk.usage is None ==> final(assembly)@.usage == old(assembly)@.usage,
        final(assembly)@.interrupted == old(assembly)@.interrupted,
{
    let choices = chunk@.choices;
    assert(choices.len() == 1);
    assert(choices[0] == chunk.choices@[0]@);
    assert(choices.drop_last() =~= Seq::empty());
    reveal_with_fuel(openai::said, 2);
    assert(openai::said(choices) =~= openai::saying(choices[0].content));
}

/// Law: an interrupted turn says so, and keeps what came.
pub proof fn an_interrupted_turn_keeps_what_came(assembly: &mut Assembly)
    requires
        call_ensures(Assembly::interrupt, (assembly,), ()),
    ensures
        final(assembly)@.interrupted,
        final(assembly)@.text == old(assembly)@.text,
        final(assembly)@.calls == old(assembly)@.calls,
        final(assembly)@.usage == old(assembly)@.usage,
        final(assembly)@.asked_for_tools == old(assembly)@.asked_for_tools,
{
}

/// Law: a stream assembles to a reply just where every payload of it is a
/// chunk, and what was told of it on the way is, put together, the text of
/// the reply.
pub proof fn what_was_told_is_the_reply(
    replayed: &str,
    log: &mut Vec<ChatEvent>,
    r: Result<Reply, String>,
)
    requires
        call_ensures(openai::replay, (replayed, log), r),
        r is Ok,
        old(log)@.len() == 0,
    ensures
        openai::told(final(log)@) == r->Ok_0.text@,
        forall|i: int| 0 <= i < final(log)@.len() ==> (#[trigger] final(log)@[i]) is Delta,
{
    assert(openai::told(old(log)@) =~= Seq::empty());
    assert(Seq::<char>::empty() + r->Ok_0@.text =~= r->Ok_0@.text);
}

// ----- the scripted model -----

/// Law: a script plays its turns in the order they were queued: a reply
/// that says what it was given to say, or a failure in its own words.
pub proof fn a_script_is_queued_in_order(
    script: Scripted,
    deltas: Vec<String>,
    error: &str,
    said: Scripted,
    failed: Scripted,
)
    requires
        call_ensures(Scripted::then_saying, (script, deltas), said),
        call_ensures(Scripted::then_failing, (script, error), failed),
    ensures
        said@.turns.len() == script@.turns.len() + 1,
        said@.turns.drop_last() == script@.turns,
        said@.turns.last() is Reply,
        said@.turns.last()->deltas == text::views(deltas@),
        said@.turns.last()->tool_calls.len() == 0,
        said@.turns.last()->usage is None,
        failed@.turns.len() == script@.turns.len() + 1,
        failed@.turns.drop_last() == script@.turns,
        failed@.turns.last() is Failure,
        failed@.turns.last()->Failure_0 == error@,
        said@.seen == script@.seen,
        failed@.seen == script@.seen,
{
    assert(said@.turns.drop_last() =~= script@.turns);
    assert(failed@.turns.drop_last() =~= script@.turns);
}

/// Law: calls and a usage are put to the last turn, which otherwise stays.
pub proof fn calls_are_put_to_the_last_turn(
    script: Scripted,
    calls: Vec<ToolCall>,
    reported: Usage,
    asked: Scripted,
    counted: Scripted,
)
    requires
        call_ensures(Scripted::asking, (script, calls), asked),
        call_ensures(Scripted::reporting, (script, reported), counted),
        script@.turns.len() > 0,
        script@.turns.last() is Reply,
    ensures
        asked@.turns.last() is Reply,
        asked@.turns.last()->tool_calls.len() == calls@.len(),
        asked@.turns.last()->deltas == script@.turns.last()->deltas,
        asked@.turns.last()->usage == script@.turns.last()->usage,
        counted@.turns.last() is Reply,
        counted@.turns.last()->usage == Some(reported),
        counted@.turns.last()->deltas == script@.turns.last()->deltas,
        counted@.turns.last()->tool_calls == script@.turns.last()->tool_calls,
{
}

/// Law: a reply takes the first turn and leaves the others; it is told
/// delta by delta, all of them unless it was stopped before the first; and
/// the transcript it was asked with is seen, whatever came of it.
pub proof fn a_turn_is_played_once(
    script: &mut Scripted,
    transcript: &Vec<Message>,
    log: &mut Vec<ChatEvent>,
    stop: &StopToken,
    r: Result<Reply, String>,
)
    requires
        call_ensures(Scripted::reply, (script, transcript, log, stop), r),
    ensures
        final(script)@.seen.len() == old(script)@.seen.len() + 1,
        final(script)@.seen.last() == openai::message_views(transcript@),
        old(script)@.turns.len() > 0 ==> final(script)@.turns == old(script)@.turns.skip(1),
        r is Ok <==> old(script)@.turns.len() > 0 && old(script)@.turns[0] is Reply,
        r is Err && old(script)@.turns.len() > 0 ==> r->Err_0@
            == old(script)@.turns[0]->Failure_0,
        r is Err ==> final(log)@ == old(log)@,
        r is Ok && !stop.set() ==> {
            let turn = old(script)@.turns[0];
            &&& r->Ok_0.text@ == text::join(turn->deltas, Seq::empty())
            &&& !r->Ok_0.interrupted
            &&& r->Ok_0.usage == turn->usage
            &&& r->Ok_0.tool_calls@.len() == turn->tool_calls.len()
            &&& final(log)@.len() == old(log)@.len() + turn->deltas.len()
            &&& forall|i: int|
                0 <= i < turn->deltas.len() ==> final(log)@[old(log)@.len() + i] is Delta && (
                final(log)@[old(log)@.len() + i])->Delta_text@ == #[trigger] turn->deltas[i]
        },
        r is Ok && stop.set() && old(script)@.turns[0]->deltas.len() > 0 ==> {
            &&& r->Ok_0.interrupted
            &&& r->Ok_0.text@.len() == 0
            &&& final(log)@.len() == old(log)@.len()
        },
{
    if r is Ok {
        assert(chat::call_views(r->Ok_0.tool_calls@).len() == r->Ok_0.tool_calls@.len());
        if !stop.set() {
            let turn = old(script)@.turns[0];
            let n = old(log)@.len() as int;
            assert forall|i: int| 0 <= i < turn->deltas.len() implies final(log)@[n + i]
                is Delta && (final(log)@[n + i])->Delta_text@ == #[trigger] turn->deltas[i] by {
                assert(final(log)@[n + i] is Delta);
            }
        }
    }
}

/// Law: each speaker has its own name on the wire.
pub proof fn a_speaker_has_its_own_name(role: Role, r: &'static str)
    requires
        call_ensures(wire::role_name, (role,), r),
    ensures
        r@ == "user"@ <==> role is User,
        r@ == "assistant"@ <==> role is Assistant,
{
    reveal_strlit("user");
    reveal_strlit("assistant");
    assert("user"@.len() != "assistant"@.len());
}

/// Law: a tool is told by the name, the words and the schema it was made
/// of.
pub proof fn a_tool_is_what_it_was_made_of(
    name: String,
    description: String,
    parameters: Json,
    tool: ToolSpec,
    told_name: &str,
    told_words: &str,
    told_schema: &Json,
)
    requires
        call_ensures(ToolSpec::function, (name, description, parameters), tool),
        call_ensures(ToolSpec::name, (&tool,), told_name),
        call_ensures(ToolSpec::description, (&tool,), told_words),
        call_ensures(ToolSpec::parameters, (&tool,), told_schema),
    ensures
        told_name@ == name@,
        told_words@ == description@,
        told_schema@ == parameters@,
{
}

/// Law: a call is recorded under the tool's name, with its arguments
/// printed where they are JSON and verbatim where they are not.
pub proof fn a_call_is_recorded_as_it_was_made(call: &ToolCall, r: TranscriptItem)
    requires
        call_ensures(TranscriptItem::tool_call, (call,), r),
    ensures
        r is ToolCall,
        r->ToolCall_name@ == call.name@,
        json::read_as(call.arguments@) is Ok ==> r->ToolCall_arguments@ == json::printed_as(
            json::read_as(call.arguments@)->Ok_0,
        ),
        json::read_as(call.arguments@) is Err ==> r->ToolCall_arguments@ == call.arguments@,
{
}

/// Law: a line that is not blank completes nothing; a blank one hands back
/// the data that was pending, and leaves none.
pub proof fn an_event_is_handed_back_once(
    events: &mut wire::Events,
    line: &str,
    r: Option<String>,
)
    requires
        call_ensures(wire::Events::line, (events, line), r),
    ensures
        line@.len() > 0 && line@ != seq!['\r'] ==> r is None,
        line@.len() == 0 ==> final(events).pending().len() == 0,
        line@.len() == 0 && old(events).pending().len() == 1 ==> r is Some && (r->0)@
            == old(events).pending()[0],
        line@.len() == 0 && old(events).pending().len() == 0 ==> r is None,
{
    if line@.len() == 1 && line@.last() == '\r' {
        assert(line@ =~= seq!['\r']);
    }
}

/// Law: the calls that are kept come out in their order, each as it was
/// assembled.
pub proof fn the_calls_come_out_in_order(calls: Calls, r: Vec<ToolCall>, k: int)
    requires
        call_ensures(Calls::finish, (calls,), r),
    ensures
        r@.len() == calls.kept().len(),
        0 <= k < r@.len() ==> r@[k]@ == calls.kept()[k].1,
{
    let views = chat::call_views(r@);
    assert(views.len() == r@.len());
    if 0 <= k < r@.len() {
        assert(views[k] == r@[k]@);
    }
}

/// Law: fragments are kept by their index: the call of an index grows by
/// its own fragment, and every other stays.
pub proof fn a_fragment_grows_its_own_call(
    calls: &mut Calls,
    fragments: &Vec<ToolCallFragment>,
    more: Seq<char>,
)
    requires
        call_ensures(Calls::absorb, (calls, fragments), ()),
        old(calls).kept().len() == 0,
        fragments@.len() == 1,
        fragments@[0].arguments is Some,
        (fragments@[0].arguments->0)@ == more,
    ensures
        final(calls).kept().len() == 1,
        final(calls).kept()[0].0 == fragments@[0].index,
        final(calls).kept()[0].1.arguments == more,
        fragments@[0].id is Some ==> final(calls).kept()[0].1.id == (fragments@[0].id->0)@,
        fragments@[0].name is Some ==> final(calls).kept()[0].1.name == (fragments@[0].name->0)@,
{
    let views = wire::fragment_views(fragments@);
    assert(views.len() == 1);
    assert(views[0] == fragments@[0]@);
    assert(views.drop_last() =~= Seq::empty());
    reveal_with_fuel(stream::absorbed, 2);
    let none = old(calls).kept();
    assert(none =~= Seq::empty());
    assert(Seq::<char>::empty() + more =~= more);
    assert(final(calls).kept() == stream::touched(none, views[0]));
}

} // verus!
