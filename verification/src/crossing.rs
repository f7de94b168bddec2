//! The vocabularies as they cross a process boundary: every event, item and
//! status as the JSON that stands for it, and read back from it.
//!
//! A variant that carries nothing is its name; one that carries something
//! is an object with the one member of its name. The transcript's items
//! say their kind in a member of their own. The fields of a record are
//! found by their names, and what is not modelled is absorbed.

use crate::event;
use crate::event::ConversationId;
use crate::json;
use crate::json::spelling;
use crate::json::{Json, JsonView};
use crate::text;
use vstd::prelude::*;

pub mod builds;
pub mod capabilities;
pub mod events;
pub mod lines;
pub mod line_laws;
pub mod naming_laws;
pub mod reading_laws;
pub mod plans;
pub mod transcript;
pub mod updates;

verus! {

/// A variant that carries something.
pub open spec fn variant(name: Seq<char>, content: JsonView) -> JsonView {
    JsonView::record().with(name, content)
}

/// What the variant called `name` carries, when the value is one.
pub open spec fn carried(value: JsonView, name: Seq<char>) -> Option<JsonView> {
    match value {
        JsonView::Object(members) => if members.len() == 1 && members[0].0 == name {
            Some(members[0].1)
        } else {
            None
        },
        _ => None,
    }
}

/// What the variant called `name` carries, when the value is one.
pub(crate) fn content<'a>(value: &'a Json, name: &str) -> (r: Option<&'a Json>)
    ensures
        match r {
            Some(content) => carried(value@, name@) == Some(content@),
            None => carried(value@, name@) is None,
        },
{
    match value {
        Json::Object(members) => {
            proof {
                json::member_views(members@);
            }
            if members.len() == 1 && text::same(members[0].0.as_str(), name) {
                Some(&members[0].1)
            } else {
                None
            }
        },
        _ => None,
    }
}

/// Whether the value is the variant called `name`, which carries nothing.
pub(crate) fn is_word(value: &Json, name: &str) -> (r: bool)
    ensures
        r == (value@.word() == Some(name@)),
{
    match value.word() {
        Some(word) => text::same(word.as_str(), name),
        None => false,
    }
}

/// Whether the value says that it is of the kind `name`, the one at place
/// `at` among the kinds: in its member `tag`, or, where it is an array, in
/// the first item. A value `within` another of a tagged vocabulary may say
/// its kind by the place.
pub open spec fn tagged(
    value: JsonView,
    tag: Seq<char>,
    name: Seq<char>,
    at: nat,
    within: bool,
) -> bool {
    match value.part(0, tag) {
        Some(JsonView::Text(text)) => text == name,
        Some(JsonView::Whole(n)) => within && n == at,
        _ => false,
    }
}

/// Whether the value says that it is of the kind `name`.
pub(crate) fn is_tagged(value: &Json, tag: &str, name: &str, at: u64, within: bool) -> (r: bool)
    ensures
        r == tagged(value@, tag@, name@, at as nat, within),
{
    match value.part(0, tag) {
        Some(Json::Text(text)) => text::same(text.as_str(), name),
        Some(Json::Whole(n)) => within && *n == at,
        _ => false,
    }
}

/// Whether the value is the variant called `name`, which carries nothing.
/// `within` a value of a tagged vocabulary it may carry an empty object.
pub open spec fn worded(value: JsonView, name: Seq<char>, within: bool) -> bool {
    value.word() == Some(name) || (within && match carried(value, name) {
        Some(JsonView::Object(members)) => members.len() == 0,
        _ => false,
    })
}

/// Whether the value is the variant called `name`, which carries nothing.
pub(crate) fn is_worded(value: &Json, name: &str, within: bool) -> (r: bool)
    ensures
        r == worded(value@, name@, within),
{
    if is_word(value, name) {
        return true;
    }
    if !within {
        return false;
    }
    match content(value, name) {
        Some(Json::Object(members)) => {
            proof {
                json::member_views(members@);
            }
            members.len() == 0
        },
        _ => false,
    }
}

/// A boolean that must be there.
pub open spec fn needed_flag(part: Option<JsonView>) -> Option<bool> {
    match part {
        Some(JsonView::Bool(b)) => Some(b),
        _ => None,
    }
}

/// A boolean that must be there.
pub(crate) fn read_flag(part: Option<&Json>) -> (r: Option<bool>)
    ensures
        r == needed_flag(json::part_view(part)),
{
    match part {
        Some(Json::Bool(b)) => Some(*b),
        _ => None,
    }
}

/// A member that was put in is there, and the others are as they were.
pub(crate) proof fn put(record: JsonView, key: Seq<char>, value: JsonView)
    requires
        record is Object,
        record.get(key) is None,
    ensures
        record.with(key, value) is Object,
        record.with(key, value).get(key) == Some(value),
        forall|other: Seq<char>|
            other != key ==> #[trigger] json::member(record.with(key, value)->Object_0, other)
                == json::member(record->Object_0, other),
{
    put_among(record->Object_0, key, value);
}

proof fn put_among(members: Seq<(Seq<char>, JsonView)>, key: Seq<char>, value: JsonView)
    requires
        json::member(members, key) is None,
    ensures
        json::member(members.push((key, value)), key) == Some(value),
        forall|other: Seq<char>|
            other != key ==> #[trigger] json::member(members.push((key, value)), other)
                == json::member(members, other),
    decreases members.len(),
{
    let more = members.push((key, value));
    if members.len() == 0 {
        assert(more.skip(1) =~= Seq::empty());
        assert forall|other: Seq<char>| other != key implies #[trigger] json::member(more, other)
            == json::member(members, other) by {
            assert(json::member(more.skip(1), other) is None);
        }
    } else {
        let rest = members.skip(1);
        put_among(rest, key, value);
        assert(more.skip(1) =~= rest.push((key, value)));
        assert(more[0] == members[0]);
        assert forall|other: Seq<char>| other != key implies #[trigger] json::member(more, other)
            == json::member(members, other) by {
            assert(json::member(rest.push((key, value)), other) == json::member(rest, other));
        }
    }
}

/// Values that say the same carry the same, as every variant.
pub(crate) proof fn alike_variants(one: JsonView, other: JsonView)
    requires
        spelling::alike(one, other),
    ensures
        forall|name: Seq<char>|
            spelling::both_alike(carried(one, name), #[trigger] carried(other, name)),
{
    match (one, other) {
        (JsonView::Object(a), JsonView::Object(b)) => {
            if a.len() == 1 {
                spelling::alike_singles(a, b);
            }
        },
        _ => {},
    }
}

// ----- the envelope -----

/// An envelope around an event.
pub open spec fn wrapped(conversation: ConversationId, event: JsonView) -> JsonView {
    JsonView::record().with("conversation"@, JsonView::Whole(conversation.0 as nat)).with(
        "event"@,
        event,
    )
}

/// The conversation an envelope is stamped with, and the event in it.
pub open spec fn unwrapped(value: JsonView) -> Option<(nat, JsonView)> {
    match (json::needed_whole(value.part(0, "conversation"@)), value.part(1, "event"@)) {
        (Some(conversation), Some(event)) => if value.fills(2) {
            Some((conversation, event))
        } else {
            None
        },
        _ => None,
    }
}

/// An envelope around an event.
pub fn wrap(conversation: ConversationId, event: Json) -> (r: Json)
    ensures
        r@ == wrapped(conversation, event@),
{
    Json::record().with("conversation", Json::Whole(conversation.0)).with("event", event)
}

/// The conversation an envelope is stamped with, and the event in it.
pub fn unwrap<'a>(value: &'a Json) -> (r: Option<(ConversationId, &'a Json)>)
    ensures
        match r {
            Some((conversation, event)) => unwrapped(value@) == Some(
                (conversation.0 as nat, event@),
            ),
            None => unwrapped(value@) is None,
        },
{
    let conversation = match json::read_whole(value.part(0, "conversation")) {
        Some(conversation) => conversation,
        None => return None,
    };
    match value.part(1, "event") {
        Some(event) => if value.fills(2) {
            Some((ConversationId(conversation), event))
        } else {
            None
        },
        None => None,
    }
}

/// Law: what goes into an envelope comes out of it, with its conversation
/// intact, whatever the vocabulary.
pub proof fn an_envelope_is_opened_as_it_was_closed(conversation: ConversationId, event: JsonView)
    ensures
        unwrapped(wrapped(conversation, event)) == Some((conversation.0 as nat, event)),
{
    reveal_strlit("conversation");
    reveal_strlit("event");
    assert("conversation"@.len() != "event"@.len());
    let first = JsonView::record().with(
        "conversation"@,
        JsonView::Whole(conversation.0 as nat),
    );
    put(JsonView::record(), "conversation"@, JsonView::Whole(conversation.0 as nat));
    put(first, "event"@, event);
}

/// Law: an envelope is told around an event's text as the whole would be
/// told.
pub proof fn an_envelope_is_one_text(conversation: ConversationId, event: JsonView)
    ensures
        spelling::text_of(wrapped(conversation, event)) == event::enveloped(
            conversation,
            spelling::text_of(event),
        ),
{
    let number = JsonView::Whole(conversation.0 as nat);
    let none = JsonView::record()->Object_0;
    let first = none.push(("conversation"@, number));
    let both = first.push(("event"@, event));
    assert(wrapped(conversation, event) == JsonView::Object(both));
    assert(both.drop_last() =~= first);
    assert(first.drop_last() =~= none);
    let texts = spelling::member_texts(both);
    assert(spelling::member_texts(none) =~= Seq::empty());
    assert(texts.drop_last() =~= spelling::member_texts(first));
    let stamp = spelling::member_text("conversation"@, text::decimal(conversation.0 as nat));
    assert(first.last() == ("conversation"@, number));
    assert(spelling::text_of(number) == text::decimal(conversation.0 as nat));
    assert(spelling::member_texts(first) =~= seq![stamp]);
    assert(text::join(seq![stamp], ","@) == stamp);
    assert(spelling::text_of(wrapped(conversation, event)) =~= event::enveloped(
        conversation,
        spelling::text_of(event),
    ));
}

} // verus!
