//! What every tool the model can call is made of: the schema its arguments
//! are described by, and how they are read when a call comes in.
//!
//! Arguments arrive as JSON; a missing or ill-typed one is an Err result in
//! plain words, never a panic.

use crate::json::{Json, JsonView};
use crate::text;
use vstd::prelude::*;

pub mod laws;

verus! {

// ----- the schema -----

/// A schema of an object with these properties.
pub open spec fn schema_of(properties: JsonView, required: JsonView) -> JsonView {
    JsonView::record().with("type"@, JsonView::Text("object"@)).with("properties"@, properties).with(
        "required"@,
        required,
    )
}

/// A property of a type, described.
pub open spec fn property_of(kind: Seq<char>, description: Seq<char>) -> JsonView {
    JsonView::record().with("type"@, JsonView::Text(kind)).with(
        "description"@,
        JsonView::Text(description),
    )
}

/// A schema of an object with these properties, of which some must be
/// there.
pub fn schema(properties: Json, required: Json) -> (r: Json)
    ensures
        r@ == schema_of(properties@, required@),
{
    Json::record().with("type", Json::string("object")).with("properties", properties).with(
        "required",
        required,
    )
}

/// A property that is a string.
pub fn string_arg(description: &str) -> (r: Json)
    ensures
        r@ == property_of("string"@, description@),
{
    Json::record().with("type", Json::string("string")).with(
        "description",
        Json::string(description),
    )
}

/// A property that is a whole number.
pub fn number_arg(description: &str) -> (r: Json)
    ensures
        r@ == property_of("integer"@, description@),
{
    Json::record().with("type", Json::string("integer")).with(
        "description",
        Json::string(description),
    )
}

// ----- the arguments -----

/// The words for an argument that is not of its type.
pub open spec fn must_be(name: Seq<char>, kind: Seq<char>) -> Seq<char> {
    "the "@ + name + " argument must be "@ + kind
}

/// A string argument.
pub open spec fn string_of(arguments: JsonView, name: Seq<char>) -> Result<Seq<char>, Seq<char>> {
    match arguments.text_at(name) {
        Some(text) => Ok(text),
        None => Err(must_be(name, "a string"@)),
    }
}

/// A string argument that says something.
pub open spec fn filled_of(arguments: JsonView, name: Seq<char>) -> Result<Seq<char>, Seq<char>> {
    match arguments.text_at(name) {
        Some(text) => if text::trimmed(text).len() > 0 {
            Ok(text)
        } else {
            Err(must_be(name, "a non-empty string"@))
        },
        None => Err(must_be(name, "a non-empty string"@)),
    }
}

/// A whole-number argument.
pub open spec fn number_of(arguments: JsonView, name: Seq<char>) -> Result<nat, Seq<char>> {
    match arguments.whole_at(name) {
        Some(n) => Ok(n),
        None => Err(must_be(name, "a whole number"@)),
    }
}

/// A string argument that may be left out, and says something where it is
/// not.
pub open spec fn optional_of(arguments: JsonView, name: Seq<char>) -> Result<
    Option<Seq<char>>,
    Seq<char>,
> {
    match arguments.get(name) {
        None => Ok(None),
        Some(JsonView::Null) => Ok(None),
        Some(_) => match filled_of(arguments, name) {
            Ok(text) => Ok(Some(text)),
            Err(words) => Err(words),
        },
    }
}

/// A text, or words.
pub open spec fn text_result(r: Result<String, String>) -> Result<Seq<char>, Seq<char>> {
    match r {
        Ok(text) => Ok(text@),
        Err(words) => Err(words@),
    }
}

/// A string argument.
///
/// # Errors
///
/// Words that name an argument that is missing or is no string.
pub fn string(arguments: &Json, name: &str) -> (r: Result<String, String>)
    ensures
        text_result(r) == string_of(arguments@, name@),
{
    match arguments.text_at(name) {
        Some(text) => Ok(text.clone()),
        None => Err(text::cat4("the ", name, " argument must be ", "a string")),
    }
}

/// A string argument that says something.
///
/// # Errors
///
/// Words that name an argument that is missing, is no string, or is empty.
pub fn non_empty(arguments: &Json, name: &str) -> (r: Result<String, String>)
    ensures
        text_result(r) == filled_of(arguments@, name@),
{
    match arguments.text_at(name) {
        Some(text) => {
            let trimmed = text::trim(text.as_str());
            if text::is_empty(trimmed.as_str()) {
                Err(text::cat4("the ", name, " argument must be ", "a non-empty string"))
            } else {
                Ok(text.clone())
            }
        },
        None => Err(text::cat4("the ", name, " argument must be ", "a non-empty string")),
    }
}

/// A whole-number argument.
///
/// # Errors
///
/// Words that name an argument that is missing or is no whole number.
pub fn number(arguments: &Json, name: &str) -> (r: Result<u64, String>)
    ensures
        match r {
            Ok(n) => number_of(arguments@, name@) == Ok::<nat, Seq<char>>(n as nat),
            Err(words) => number_of(arguments@, name@) == Err::<nat, Seq<char>>(words@),
        },
{
    match arguments.whole_at(name) {
        Some(n) => Ok(n),
        None => Err(text::cat4("the ", name, " argument must be ", "a whole number")),
    }
}

/// A string argument that may be left out.
///
/// # Errors
///
/// Words that name an argument that is there and is no string.
pub fn optional(arguments: &Json, name: &str) -> (r: Result<Option<String>, String>)
    ensures
        match r {
            Ok(text) => optional_of(arguments@, name@) == Ok::<Option<Seq<char>>, Seq<char>>(
                text::optional(text),
            ),
            Err(words) => optional_of(arguments@, name@) == Err::<Option<Seq<char>>, Seq<char>>(
                words@,
            ),
        },
{
    match arguments.get(name) {
        None => Ok(None),
        Some(Json::Null) => Ok(None),
        Some(_) => match non_empty(arguments, name) {
            Ok(text) => Ok(Some(text)),
            Err(words) => Err(words),
        },
    }
}

} // verus!
