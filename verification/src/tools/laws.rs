//! What holds of every tool's schema and of how a call's arguments are
//! read.

use crate::crossing;
use crate::json::{Json, JsonView};
use crate::text;
use crate::tools;
use vstd::prelude::*;

verus! {

/// Law: a schema is of an object, with its properties and those of them
/// that a call must give.
pub proof fn a_schema_says_what_a_call_must_give(properties: Json, required: Json, r: Json)
    requires
        call_ensures(tools::schema, (properties, required), r),
    ensures
        r@.get("type"@) == Some(JsonView::Text("object"@)),
        r@.get("properties"@) == Some(properties@),
        r@.get("required"@) == Some(required@),
{
    reveal_strlit("type");
    reveal_strlit("properties");
    reveal_strlit("required");
    assert("type"@.len() != "properties"@.len());
    assert("type"@.len() != "required"@.len());
    assert("properties"@.len() != "required"@.len());
    let record = JsonView::record();
    crossing::put(record, "type"@, JsonView::Text("object"@));
    let record = record.with("type"@, JsonView::Text("object"@));
    crossing::put(record, "properties"@, properties@);
    let record = record.with("properties"@, properties@);
    crossing::put(record, "required"@, required@);
}

/// Law: an argument is described as what it is, in the words given.
pub proof fn an_argument_is_described_as_what_it_is(description: &str, words: Json, number: Json)
    requires
        call_ensures(tools::string_arg, (description,), words),
        call_ensures(tools::number_arg, (description,), number),
    ensures
        words@.get("type"@) == Some(JsonView::Text("string"@)),
        words@.get("description"@) == Some(JsonView::Text(description@)),
        number@.get("type"@) == Some(JsonView::Text("integer"@)),
        number@.get("description"@) == Some(JsonView::Text(description@)),
{
    reveal_strlit("type");
    reveal_strlit("description");
    assert("type"@.len() != "description"@.len());
    let record = JsonView::record();
    crossing::put(record, "type"@, JsonView::Text("string"@));
    let record = record.with("type"@, JsonView::Text("string"@));
    crossing::put(record, "description"@, JsonView::Text(description@));
    let record = JsonView::record();
    crossing::put(record, "type"@, JsonView::Text("integer"@));
    let record = record.with("type"@, JsonView::Text("integer"@));
    crossing::put(record, "description"@, JsonView::Text(description@));
}

/// Law: a string is read just where the call gives one under that name, as
/// it was given.
pub proof fn a_string_is_read_as_it_was_given(
    arguments: &Json,
    name: &str,
    r: Result<String, String>,
)
    requires
        call_ensures(tools::string, (arguments, name), r),
    ensures
        r is Ok <==> arguments@.get(name@) is Some && arguments@.get(name@)->0 is Text,
        r is Ok ==> arguments@.get(name@) == Some(JsonView::Text(r->Ok_0@)),
        r is Err ==> r->Err_0@ == "the "@ + name@ + " argument must be "@ + "a string"@,
{
}

/// Law: a string that may not be empty is read just where the call gives
/// one that is not blank, as it was given.
pub proof fn a_blank_string_is_none(arguments: &Json, name: &str, r: Result<String, String>)
    requires
        call_ensures(tools::non_empty, (arguments, name), r),
    ensures
        r is Ok ==> arguments@.get(name@) == Some(JsonView::Text(r->Ok_0@)) && text::trimmed(
            r->Ok_0@,
        ).len() > 0,
        r is Err ==> !(arguments@.get(name@) is Some && arguments@.get(name@)->0 is Text
            && text::trimmed((arguments@.get(name@)->0)->Text_0).len() > 0),
        r is Err ==> r->Err_0@ == "the "@ + name@ + " argument must be "@ + "a non-empty string"@,
{
}

/// Law: a number is read just where the call gives a whole one under that
/// name, and is that number.
pub proof fn a_number_is_the_one_given(arguments: &Json, name: &str, r: Result<u64, String>)
    requires
        call_ensures(tools::number, (arguments, name), r),
    ensures
        r is Ok <==> arguments@.get(name@) is Some && arguments@.get(name@)->0 is Whole,
        r is Ok ==> arguments@.get(name@) == Some(JsonView::Whole(r->Ok_0 as nat)),
        r is Err ==> r->Err_0@ == "the "@ + name@ + " argument must be "@ + "a whole number"@,
{
}

/// Law: an argument that may be left out is none where it is absent or
/// null, and must be a string that is not blank where it is there.
pub proof fn what_may_be_left_out_is_none(
    arguments: &Json,
    name: &str,
    r: Result<Option<String>, String>,
    there: Result<String, String>,
)
    requires
        call_ensures(tools::optional, (arguments, name), r),
        call_ensures(tools::non_empty, (arguments, name), there),
    ensures
        (r is Ok && r->Ok_0 is None) <==> arguments@.get(name@) is None || arguments@.get(name@)
            == Some(JsonView::Null),
        r is Ok && r->Ok_0 is Some ==> there is Ok && (r->Ok_0->0)@ == there->Ok_0@,
        r is Err ==> there is Err && r->Err_0@ == there->Err_0@,
{
}

} // verus!
