//! A value's text with the members of its objects in the order they are in,
//! and what is read back from such a text.

use crate::json;
use crate::json::{Json, JsonView};
use crate::text;
use vstd::prelude::*;

verus! {

/// One member of an object, by the text of its value.
pub open spec fn member_text(name: Seq<char>, value: Seq<char>) -> Seq<char> {
    json::written_as(JsonView::Text(name)) + ":"@ + value
}

/// The texts of a row of values.
pub open spec fn item_texts(items: Seq<JsonView>) -> Seq<Seq<char>>
    decreases items,
{
    if items.len() == 0 {
        Seq::empty()
    } else {
        item_texts(items.drop_last()).push(text_of(items.last()))
    }
}

/// The texts of a row of members.
pub open spec fn member_texts(members: Seq<(Seq<char>, JsonView)>) -> Seq<Seq<char>>
    decreases members,
{
    if members.len() == 0 {
        Seq::empty()
    } else {
        member_texts(members.drop_last()).push(
            member_text(members.last().0, text_of(members.last().1)),
        )
    }
}

/// A value's text, with the members of its objects in the order they are
/// in.
pub open spec fn text_of(value: JsonView) -> Seq<char>
    decreases value,
{
    match value {
        JsonView::Null => "null"@,
        JsonView::Bool(b) => if b {
            "true"@
        } else {
            "false"@
        },
        JsonView::Whole(n) => text::decimal(n),
        JsonView::Other(spelled) => spelled,
        JsonView::Text(text) => json::written_as(JsonView::Text(text)),
        JsonView::Array(items) => "["@ + text::join(item_texts(items), ","@) + "]"@,
        JsonView::Object(members) => "{"@ + text::join(member_texts(members), ","@) + "}"@,
    }
}

fn quoted(text: &str) -> (r: String)
    ensures
        r@ == json::written_as(JsonView::Text(text@)),
{
    json::written(&Json::string(text))
}

/// One member of an object, by the text of its value.
pub(crate) fn spell_member(name: &str, value: &str) -> (r: String)
    ensures
        r@ == member_text(name@, value@),
{
    let key = quoted(name);
    text::cat3(key.as_str(), ":", value)
}

fn spell_items(items: &Vec<Json>) -> (r: Vec<String>)
    ensures
        text::views(r@) == item_texts(json::items_view(items@)),
    decreases items,
{
    let ghost view = json::items_view(items@);
    let mut spelled: Vec<String> = Vec::new();
    let mut i: usize = 0;
    proof {
        json::item_views(items@);
        assert(view.take(0) =~= Seq::empty());
        assert(text::views(spelled@) =~= Seq::empty());
    }
    while i < items.len()
        invariant
            i <= items@.len() == view.len(),
            forall|k: int| 0 <= k < items@.len() ==> #[trigger] view[k] == items@[k]@,
            text::views(spelled@) == item_texts(view.take(i as int)),
        decreases items@.len() - i,
    {
        let ghost before = text::views(spelled@);
        spelled.push(spell(&items[i]));
        proof {
            assert(view[i as int] == items@[i as int]@);
            assert(view.take(i + 1).drop_last() =~= view.take(i as int));
            assert(view.take(i + 1).last() == view[i as int]);
            assert(text::views(spelled@) =~= before.push(text_of(items@[i as int]@)));
        }
        i = i + 1;
    }
    proof {
        assert(view.take(i as int) =~= view);
    }
    spelled
}

fn spell_members(members: &Vec<(String, Json)>) -> (r: Vec<String>)
    ensures
        text::views(r@) == member_texts(json::members_view(members@)),
    decreases members,
{
    let ghost view = json::members_view(members@);
    let mut spelled: Vec<String> = Vec::new();
    let mut i: usize = 0;
    proof {
        json::member_views(members@);
        assert(view.take(0) =~= Seq::empty());
        assert(text::views(spelled@) =~= Seq::empty());
    }
    while i < members.len()
        invariant
            i <= members@.len() == view.len(),
            forall|k: int|
                0 <= k < members@.len() ==> #[trigger] view[k] == (
                    members@[k].0@,
                    members@[k].1@,
                ),
            text::views(spelled@) == member_texts(view.take(i as int)),
        decreases members@.len() - i,
    {
        let ghost before = text::views(spelled@);
        let value = spell(&members[i].1);
        let text = spell_member(members[i].0.as_str(), value.as_str());
        let ghost shown = text@;
        spelled.push(text);
        proof {
            assert(view[i as int] == (members@[i as int].0@, members@[i as int].1@));
            assert(view.take(i + 1).drop_last() =~= view.take(i as int));
            assert(view.take(i + 1).last() == view[i as int]);
            assert(text::views(spelled@) =~= before.push(shown));
        }
        i = i + 1;
    }
    proof {
        assert(view.take(i as int) =~= view);
    }
    spelled
}

/// A value's text, with the members of its objects in the order they are
/// in.
pub fn spell(value: &Json) -> (r: String)
    ensures
        r@ == text_of(value@),
    decreases value,
{
    match value {
        Json::Null => "null".to_owned(),
        Json::Bool(b) => if *b {
            "true".to_owned()
        } else {
            "false".to_owned()
        },
        Json::Whole(n) => text::number(*n),
        Json::Other(spelled) => spelled.clone(),
        Json::Text(text) => quoted(text.as_str()),
        Json::Array(items) => {
            let spelled = spell_items(items);
            let joined = text::joined(&spelled, ",");
            text::cat3("[", joined.as_str(), "]")
        },
        Json::Object(members) => {
            let spelled = spell_members(members);
            let joined = text::joined(&spelled, ",");
            text::cat3("{", joined.as_str(), "}")
        },
    }
}

// ----- what is read back -----

/// Whether a value's text can be read back: it nests at most `room` deep,
/// no object of it has two members of one name, and its numbers are whole
/// and fit in 64 bits.
pub open spec fn plain(value: JsonView, room: nat) -> bool
    decreases room,
{
    match value {
        JsonView::Null => true,
        JsonView::Bool(_) => true,
        JsonView::Whole(n) => n <= u64::MAX,
        JsonView::Other(_) => false,
        JsonView::Text(_) => true,
        JsonView::Array(items) => {
            &&& room > 0
            &&& forall|i: int|
                0 <= i < items.len() ==> plain(#[trigger] items[i], (room - 1) as nat)
        },
        JsonView::Object(members) => {
            &&& room > 0
            &&& forall|i: int|
                0 <= i < members.len() ==> plain((#[trigger] members[i]).1, (room - 1) as nat)
            &&& forall|i: int, j: int|
                0 <= i < j < members.len() ==> (#[trigger] members[i]).0 != (
                #[trigger] members[j]).0
        },
    }
}

/// How deep a text may nest and still be read.
pub open spec fn depth() -> nat {
    127
}

/// Whether the other value says the same as the one: they differ in
/// nothing but the order in which their objects have their members, and
/// no object of the other has two of one name.
pub open spec fn alike(one: JsonView, other: JsonView) -> bool
    decreases one,
{
    match (one, other) {
        (JsonView::Array(a), JsonView::Array(b)) => {
            &&& a.len() == b.len()
            &&& forall|i: int| 0 <= i < a.len() ==> alike(#[trigger] a[i], b[i])
        },
        (JsonView::Object(a), JsonView::Object(b)) => {
            &&& a.len() == b.len()
            &&& forall|i: int|
                0 <= i < a.len() ==> {
                    &&& json::member(b, (#[trigger] a[i]).0) is Some
                    &&& alike(a[i].1, json::member(b, a[i].0)->0)
                }
            &&& forall|j: int|
                0 <= j < b.len() ==> json::member(a, (#[trigger] b[j]).0) is Some
            &&& forall|i: int, j: int|
                0 <= i < j < b.len() ==> (#[trigger] b[i]).0 != (#[trigger] b[j]).0
        },
        _ => one == other,
    }
}

/// Whether two fields say the same: both are absent, or neither is.
pub open spec fn both_alike(one: Option<JsonView>, other: Option<JsonView>) -> bool {
    match (one, other) {
        (Some(one), Some(other)) => alike(one, other),
        (None, None) => true,
        _ => false,
    }
}

/// The member of a name is the one at some place, and there is none where
/// no place has the name.
pub(crate) proof fn member_placed(members: Seq<(Seq<char>, JsonView)>, key: Seq<char>)
    ensures
        json::member(members, key) is Some ==> exists|i: int|
            0 <= i < members.len() && (#[trigger] members[i]).0 == key && members[i].1
                == json::member(members, key)->0,
        json::member(members, key) is None ==> forall|i: int|
            0 <= i < members.len() ==> (#[trigger] members[i]).0 != key,
    decreases members.len(),
{
    if members.len() > 0 && members[0].0 != key {
        let rest = members.skip(1);
        member_placed(rest, key);
        if json::member(rest, key) is Some {
            let i = choose|i: int|
                0 <= i < rest.len() && (#[trigger] rest[i]).0 == key && rest[i].1
                    == json::member(rest, key)->0;
            assert(members[i + 1] == rest[i]);
        } else {
            assert forall|i: int| 0 <= i < members.len() implies (#[trigger] members[i]).0
                != key by {
                if i > 0 {
                    assert(rest[i - 1] == members[i]);
                }
            }
        }
    }
}

/// Objects that say the same have the same members.
pub(crate) proof fn alike_members(
    a: Seq<(Seq<char>, JsonView)>,
    b: Seq<(Seq<char>, JsonView)>,
    key: Seq<char>,
)
    requires
        alike(JsonView::Object(a), JsonView::Object(b)),
    ensures
        both_alike(json::member(a, key), json::member(b, key)),
{
    member_placed(a, key);
    member_placed(b, key);
    if json::member(a, key) is Some {
        let i = choose|i: int|
            0 <= i < a.len() && (#[trigger] a[i]).0 == key && a[i].1 == json::member(a, key)->0;
        assert(alike(a[i].1, json::member(b, a[i].0)->0));
    } else if json::member(b, key) is Some {
        let j = choose|j: int|
            0 <= j < b.len() && (#[trigger] b[j]).0 == key && b[j].1 == json::member(b, key)->0;
        assert(json::member(a, b[j].0) is Some);
    }
}

/// Values that say the same have the same fields, and are the same word.
pub(crate) proof fn alike_fields(one: JsonView, other: JsonView)
    requires
        alike(one, other),
    ensures
        forall|fields: nat| one.holds(fields) == #[trigger] other.holds(fields),
        forall|fields: nat| one.fills(fields) == #[trigger] other.fills(fields),
        forall|at: nat, key: Seq<char>|
            both_alike(one.part(at, key), #[trigger] other.part(at, key)),
        forall|key: Seq<char>| both_alike(one.get(key), #[trigger] other.get(key)),
        one.word() == other.word(),
{
    match (one, other) {
        (JsonView::Object(a), JsonView::Object(b)) => {
            assert forall|key: Seq<char>| both_alike(
                json::member(a, key),
                #[trigger] json::member(b, key),
            ) by {
                alike_members(a, b, key);
            }
            assert forall|at: nat, key: Seq<char>| both_alike(
                one.part(at, key),
                #[trigger] other.part(at, key),
            ) by {
                assert(both_alike(json::member(a, key), json::member(b, key)));
            }
            assert forall|key: Seq<char>| both_alike(
                one.get(key),
                #[trigger] other.get(key),
            ) by {
                assert(both_alike(json::member(a, key), json::member(b, key)));
            }
            if a.len() == 1 {
                alike_singles(a, b);
            }
        },
        _ => {},
    }
}

/// Objects of one member that say the same have it under the same name.
pub(crate) proof fn alike_singles(a: Seq<(Seq<char>, JsonView)>, b: Seq<(Seq<char>, JsonView)>)
    requires
        alike(JsonView::Object(a), JsonView::Object(b)),
        a.len() == 1,
    ensures
        b.len() == 1,
        b[0].0 == a[0].0,
        alike(a[0].1, b[0].1),
{
    member_placed(b, a[0].0);
}

/// Rows that say the same hold the same strings.
pub(crate) proof fn alike_texts(a: Seq<JsonView>, b: Seq<JsonView>)
    requires
        alike(JsonView::Array(a), JsonView::Array(b)),
    ensures
        json::all_texts(a) == json::all_texts(b),
    decreases a.len(),
{
    if a.len() > 0 {
        let front = a.drop_last();
        let rest = b.drop_last();
        assert forall|i: int| 0 <= i < front.len() implies alike(#[trigger] front[i], rest[i]) by {
            assert(alike(a[i], b[i]));
        }
        alike_texts(front, rest);
        assert(alike(a[a.len() - 1], b[b.len() - 1]));
    }
}

/// A member more leaves an object as readable as it was.
pub(crate) proof fn plain_with(record: JsonView, key: Seq<char>, value: JsonView, room: nat)
    requires
        record is Object,
        plain(record, room),
        record.get(key) is None,
        plain(value, (room - 1) as nat),
    ensures
        plain(record.with(key, value), room),
{
    let members = record->Object_0;
    let more = members.push((key, value));
    member_placed(members, key);
    assert forall|i: int| 0 <= i < more.len() implies plain(
        (#[trigger] more[i]).1,
        (room - 1) as nat,
    ) by {
        if i < members.len() {
            assert(more[i] == members[i]);
        }
    }
    assert forall|i: int, j: int| 0 <= i < j < more.len() implies (#[trigger] more[i]).0 != (
    #[trigger] more[j]).0 by {
        assert(more[i] == members[i]);
        if j < members.len() {
            assert(more[j] == members[j]);
        }
    }
}

} // verus!
