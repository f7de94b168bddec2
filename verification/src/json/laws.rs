//! What holds of every JSON value that is made and of every part that is
//! read out of one.

use crate::json;
use crate::json::{Json, JsonView, RecordText};
use vstd::prelude::*;

verus! {

/// Law: a value is what it was made of: a string its text, nothing where
/// there is none, and a row its items in their order.
pub proof fn a_value_is_what_it_was_made_of(
    text: &str,
    maybe: &Option<String>,
    texts: &Vec<String>,
    items: Vec<Json>,
    a: Json,
    b: Json,
    c: Json,
    d: Json,
    k: int,
)
    requires
        call_ensures(Json::string, (text,), a),
        call_ensures(Json::string_or_null, (maybe,), b),
        call_ensures(Json::strings, (texts,), c),
        call_ensures(Json::list, (items,), d),
    ensures
        a@ == JsonView::Text(text@),
        *maybe is Some ==> b@ == JsonView::Text((maybe->0)@),
        *maybe is None ==> b@ == JsonView::Null,
        c@ is Array,
        c@->Array_0.len() == texts@.len(),
        0 <= k < texts@.len() ==> c@->Array_0[k] == JsonView::Text(texts@[k]@),
        d@ is Array,
        d@->Array_0.len() == items@.len(),
        0 <= k < items@.len() ==> d@->Array_0[k] == items@[k]@,
{
    json::item_views(items@);
}

/// Law: an object grows by its members, last to last, and a row by its
/// items; both open empty.
pub proof fn an_object_grows_by_its_members(
    fresh: Json,
    row: Json,
    value: Json,
    key: &str,
    part: Json,
    item: &str,
    more: Json,
    longer: Json,
)
    requires
        call_ensures(Json::record, (), fresh),
        call_ensures(Json::row, (), row),
        call_ensures(Json::with, (value, key, part), more),
        call_ensures(Json::also, (value, item), longer),
    ensures
        fresh@ is Object && fresh@->Object_0.len() == 0,
        row@ is Array && row@->Array_0.len() == 0,
        more@ is Object,
        more@->Object_0.last() == (key@, part@),
        value@ is Object ==> more@->Object_0.drop_last() == value@->Object_0,
        longer@ is Array,
        longer@->Array_0.last() == JsonView::Text(item@),
        value@ is Array ==> longer@->Array_0.drop_last() == value@->Array_0,
{
    if value@ is Object {
        assert(more@->Object_0.drop_last() =~= value@->Object_0);
    }
    if value@ is Array {
        assert(longer@->Array_0.drop_last() =~= value@->Array_0);
    }
}

proof fn the_first_is_found(members: Seq<(Seq<char>, JsonView)>, key: Seq<char>)
    ensures
        match json::member(members, key) {
            Some(value) => exists|i: int|
                0 <= i < members.len() && #[trigger] members[i] == (key, value) && forall|j: int|
                    0 <= j < i ==> (#[trigger] members[j]).0 != key,
            None => forall|j: int| 0 <= j < members.len() ==> (#[trigger] members[j]).0 != key,
        },
    decreases members.len(),
{
    if members.len() > 0 {
        let rest = members.skip(1);
        the_first_is_found(rest, key);
        if members[0].0 == key {
            assert(members[0] == (key, members[0].1));
        } else {
            match json::member(rest, key) {
                Some(value) => {
                    let i = choose|i: int|
                        0 <= i < rest.len() && #[trigger] rest[i] == (key, value) && forall|j: int|
                            0 <= j < i ==> (#[trigger] rest[j]).0 != key;
                    assert(members[i + 1] == (key, value));
                    assert forall|j: int| 0 <= j < i + 1 implies (#[trigger] members[j]).0
                        != key by {
                        if j > 0 {
                            assert(rest[j - 1] == members[j]);
                        }
                    }
                },
                None => {
                    assert forall|j: int| 0 <= j < members.len() implies (#[trigger] members[j]).0
                        != key by {
                        if j > 0 {
                            assert(rest[j - 1] == members[j]);
                        }
                    }
                },
            }
        }
    }
}

/// Law: a member is the first of its name, and there is none just where no
/// member has the name, or where the value is no object.
pub proof fn a_member_is_the_first_of_its_name(value: &Json, key: &str, r: Option<&Json>)
    requires
        call_ensures(Json::get, (value, key), r),
    ensures
        !(value@ is Object) ==> r is None,
        value@ is Object && r is Some ==> exists|i: int|
            0 <= i < value@->Object_0.len() && #[trigger] value@->Object_0[i] == (key@, (r->0)@)
                && forall|j: int|
                0 <= j < i ==> (#[trigger] value@->Object_0[j]).0 != key@,
        value@ is Object && r is None ==> forall|j: int|
            0 <= j < value@->Object_0.len() ==> (#[trigger] value@->Object_0[j]).0 != key@,
{
    if value@ is Object {
        the_first_is_found(value@->Object_0, key@);
    }
}

/// Law: a part of a record is its member of that name, or, where the record
/// is written as a row, the item in its place.
pub proof fn a_part_is_a_member_or_an_item(
    value: &Json,
    at: usize,
    key: &str,
    part: Option<&Json>,
    member: Option<&Json>,
)
    requires
        call_ensures(Json::part, (value, at, key), part),
        call_ensures(Json::get, (value, key), member),
    ensures
        value@ is Object ==> (part is Some <==> member is Some) && (part is Some ==> (part->0)@ == (
        member->0)@),
        value@ is Array ==> (part is Some <==> at < value@->Array_0.len()) && (part is Some ==> (
        part->0)@ == value@->Array_0[at as int]),
        !(value@ is Object) && !(value@ is Array) ==> part is None,
{
}

/// Law: a value is read as what it is and as nothing else.
pub proof fn a_value_is_read_as_what_it_is(
    value: &Json,
    text: Option<&String>,
    whole: Option<u64>,
    flag: Option<bool>,
    nothing: bool,
)
    requires
        call_ensures(Json::text, (value,), text),
        call_ensures(Json::whole, (value,), whole),
        call_ensures(Json::boolean, (value,), flag),
        call_ensures(Json::is_null, (value,), nothing),
    ensures
        text is Some <==> value@ is Text,
        text is Some ==> value@ == JsonView::Text((text->0)@),
        whole is Some <==> value@ is Whole,
        whole is Some ==> value@ == JsonView::Whole((whole->0) as nat),
        flag is Some <==> value@ is Bool,
        flag is Some ==> value@ == JsonView::Bool(flag->0),
        nothing <==> value@ is Null,
{
}

/// Law: what must be there is read just where it is there and is of its
/// kind.
pub proof fn what_must_be_there_is_there(
    part: &Json,
    text: Option<String>,
    whole: Option<u64>,
    no_text: Option<String>,
    no_whole: Option<u64>,
)
    requires
        call_ensures(json::read_text, (Some(part),), text),
        call_ensures(json::read_whole, (Some(part),), whole),
        call_ensures(json::read_text, (None::<&Json>,), no_text),
        call_ensures(json::read_whole, (None::<&Json>,), no_whole),
    ensures
        text is Some <==> part@ is Text,
        text is Some ==> part@ == JsonView::Text((text->0)@),
        whole is Some <==> part@ is Whole,
        whole is Some ==> part@ == JsonView::Whole((whole->0) as nat),
        no_text is None,
        no_whole is None,
{
}

/// Law: what may be left out is none where it is absent or null, is read
/// where it is of its kind, and is refused where it is of another.
pub proof fn what_may_be_left_out_is_read_where_it_is(
    part: &Json,
    text: Option<Option<String>>,
    whole: Option<Option<u64>>,
    flag: Option<Option<bool>>,
    no_text: Option<Option<String>>,
    no_whole: Option<Option<u64>>,
    no_flag: Option<Option<bool>>,
)
    requires
        call_ensures(json::read_optional_text, (Some(part),), text),
        call_ensures(json::read_optional_whole, (Some(part),), whole),
        call_ensures(json::read_optional_flag, (Some(part),), flag),
        call_ensures(json::read_optional_text, (None::<&Json>,), no_text),
        call_ensures(json::read_optional_whole, (None::<&Json>,), no_whole),
        call_ensures(json::read_optional_flag, (None::<&Json>,), no_flag),
    ensures
        no_text is Some && no_text->0 is None,
        no_whole is Some && no_whole->0 is None,
        no_flag is Some && no_flag->0 is None,
        (text is Some && text->0 is None) <==> part@ is Null,
        (text is Some && text->0 is Some) <==> part@ is Text,
        part@ is Text ==> part@ == JsonView::Text((text->0->0)@),
        (whole is Some && whole->0 is None) <==> part@ is Null,
        (whole is Some && whole->0 is Some) <==> part@ is Whole,
        part@ is Whole ==> part@ == JsonView::Whole((whole->0->0) as nat),
        (flag is Some && flag->0 is None) <==> part@ is Null,
        (flag is Some && flag->0 is Some) <==> part@ is Bool,
        part@ is Bool ==> part@ == JsonView::Bool(flag->0->0),
{
}

/// Law: a text that is empty where it is absent is refused where it is
/// something else; null is nothing only where that is allowed.
pub proof fn an_absent_text_is_empty(
    part: &Json,
    strict: Option<String>,
    lenient: Option<String>,
    none: Option<String>,
    nothing: Option<String>,
)
    requires
        call_ensures(json::read_text_or_empty, (Some(part),), strict),
        call_ensures(json::read_text_or_nothing, (Some(part),), lenient),
        call_ensures(json::read_text_or_empty, (None::<&Json>,), none),
        call_ensures(json::read_text_or_nothing, (None::<&Json>,), nothing),
    ensures
        none is Some && (none->0)@.len() == 0,
        nothing is Some && (nothing->0)@.len() == 0,
        strict is Some <==> part@ is Text,
        strict is Some ==> part@ == JsonView::Text((strict->0)@),
        lenient is Some <==> part@ is Text || part@ is Null,
        part@ is Text ==> part@ == JsonView::Text((lenient->0)@),
        part@ is Null ==> (lenient->0)@.len() == 0,
{
}

/// Law: a record's text is its members in braces, in the order they were
/// put, each as its name in quotes and the text it was given.
pub proof fn a_records_text_is_its_members(
    record: RecordText,
    name: &str,
    value: &str,
    more: RecordText,
    worded: RecordText,
    fresh: RecordText,
)
    requires
        call_ensures(RecordText::new, (), fresh),
        call_ensures(RecordText::with, (record, name, value), more),
        call_ensures(RecordText::with_string, (record, name, value), worded),
    ensures
        fresh.fields().len() == 0,
        more.fields() == record.fields().push((name@, value@)),
        worded.fields() == record.fields().push(
            (name@, json::written_as(JsonView::Text(value@))),
        ),
{
}

} // verus!
