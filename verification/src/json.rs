//! JSON as plain values.
//!
//! [`Json`] is the one shape every payload takes inside the library: what
//! a model sends for arguments, what a server answers, what a tool says
//! back. `serde_json` reads the text and writes it; what a payload means
//! is decided here and above, on these values.

use crate::text;
use vstd::prelude::*;

pub mod laws;
pub mod spelling;

verus! {

/// A JSON value.
#[derive(Debug, Eq, PartialEq)]
pub enum Json {
    Null,
    Bool(bool),
    /// A whole number, from 0 up to the largest `u64`.
    Whole(u64),
    /// Any other number, as it is spelled.
    Other(String),
    Text(String),
    Array(Vec<Json>),
    /// The members of an object, in order.
    Object(Vec<(String, Json)>),
}

/// A [`Json`] over sequences.
pub enum JsonView {
    Null,
    Bool(bool),
    Whole(nat),
    Other(Seq<char>),
    Text(Seq<char>),
    Array(Seq<JsonView>),
    Object(Seq<(Seq<char>, JsonView)>),
}

/// The views of a row of values.
pub open spec fn items_view(items: Seq<Json>) -> Seq<JsonView>
    decreases items,
{
    if items.len() == 0 {
        Seq::empty()
    } else {
        items_view(items.drop_last()).push(items.last().shape())
    }
}

/// The views of a row of members.
pub open spec fn members_view(members: Seq<(String, Json)>) -> Seq<(Seq<char>, JsonView)>
    decreases members,
{
    if members.len() == 0 {
        Seq::empty()
    } else {
        members_view(members.drop_last()).push((members.last().0@, members.last().1.shape()))
    }
}

/// The value of the first member called `key`.
pub open spec fn member(members: Seq<(Seq<char>, JsonView)>, key: Seq<char>) -> Option<JsonView>
    decreases members.len(),
{
    if members.len() == 0 {
        None
    } else if members[0].0 == key {
        Some(members[0].1)
    } else {
        member(members.skip(1), key)
    }
}

/// A row of values has one view for each.
pub(crate) proof fn item_views(items: Seq<Json>)
    ensures
        items_view(items).len() == items.len(),
        forall|i: int| 0 <= i < items.len() ==> #[trigger] items_view(items)[i] == items[i]@,
    decreases items.len(),
{
    if items.len() > 0 {
        let front = items.drop_last();
        item_views(front);
        assert forall|i: int| 0 <= i < items.len() implies #[trigger] items_view(items)[i]
            == items[i]@ by {
            if i < front.len() {
                assert(items_view(front)[i] == front[i]@);
            }
        }
    }
}

/// A row of members has one view for each.
pub(crate) proof fn member_views(members: Seq<(String, Json)>)
    ensures
        members_view(members).len() == members.len(),
        forall|i: int|
            0 <= i < members.len() ==> #[trigger] members_view(members)[i] == (
                members[i].0@,
                members[i].1@,
            ),
    decreases members.len(),
{
    if members.len() > 0 {
        let front = members.drop_last();
        member_views(front);
        assert forall|i: int| 0 <= i < members.len() implies #[trigger] members_view(members)[i]
            == (members[i].0@, members[i].1@) by {
            if i < front.len() {
                assert(members_view(front)[i] == (front[i].0@, front[i].1@));
            }
        }
    }
}

impl JsonView {
    /// The object with no members.
    pub open spec fn record() -> JsonView {
        JsonView::Object(Seq::empty())
    }

    /// The object with one more member.
    pub open spec fn with(self, key: Seq<char>, value: JsonView) -> JsonView {
        JsonView::Object(self->Object_0.push((key, value)))
    }

    /// The array with no items.
    pub open spec fn row() -> JsonView {
        JsonView::Array(Seq::empty())
    }

    /// The array with one more item, a string.
    pub open spec fn also(self, text: Seq<char>) -> JsonView {
        JsonView::Array(self->Array_0.push(JsonView::Text(text)))
    }

    /// The member called `key`, when this is an object that has one.
    pub open spec fn get(self, key: Seq<char>) -> Option<JsonView> {
        match self {
            JsonView::Object(members) => member(members, key),
            _ => None,
        }
    }

    /// The string, when this is one.
    pub open spec fn text(self) -> Option<Seq<char>> {
        match self {
            JsonView::Text(text) => Some(text),
            _ => None,
        }
    }

    /// The whole number, when this is one.
    pub open spec fn whole(self) -> Option<nat> {
        match self {
            JsonView::Whole(n) => Some(n),
            _ => None,
        }
    }

    /// The boolean, when this is one.
    pub open spec fn boolean(self) -> Option<bool> {
        match self {
            JsonView::Bool(b) => Some(b),
            _ => None,
        }
    }

    /// The string of the member called `key`, when there is one.
    pub open spec fn text_at(self, key: Seq<char>) -> Option<Seq<char>> {
        match self.get(key) {
            Some(value) => value.text(),
            None => None,
        }
    }

    /// The whole number of the member called `key`, when there is one.
    pub open spec fn whole_at(self, key: Seq<char>) -> Option<nat> {
        match self.get(key) {
            Some(value) => value.whole(),
            None => None,
        }
    }

    /// Whether this can be read as a record of `fields` fields: as an
    /// object, or as an array that gives at most so many in order.
    pub open spec fn holds(self, fields: nat) -> bool {
        match self {
            JsonView::Object(_) => true,
            JsonView::Array(items) => items.len() <= fields,
            _ => false,
        }
    }

    /// Whether this can be read as a record of `fields` fields none of which
    /// an array may leave out: as an object, or as an array of so many.
    pub open spec fn fills(self, fields: nat) -> bool {
        match self {
            JsonView::Object(_) => true,
            JsonView::Array(items) => items.len() == fields,
            _ => false,
        }
    }

    /// The field of a record: the member called `key` of an object, the
    /// item at `at` of an array.
    pub open spec fn part(self, at: nat, key: Seq<char>) -> Option<JsonView> {
        match self {
            JsonView::Object(members) => member(members, key),
            JsonView::Array(items) => if at < items.len() {
                Some(items[at as int])
            } else {
                None
            },
            _ => None,
        }
    }

    /// The word of an enumeration: a string, or an object with that one
    /// member, null.
    pub open spec fn word(self) -> Option<Seq<char>> {
        match self {
            JsonView::Text(text) => Some(text),
            JsonView::Object(members) => if members.len() == 1 && members[0].1 is Null {
                Some(members[0].0)
            } else {
                None
            },
            _ => None,
        }
    }
}

impl View for Json {
    type V = JsonView;

    open spec fn view(&self) -> JsonView {
        self.shape()
    }
}

impl Json {
    /// The value over sequences.
    pub open spec fn shape(&self) -> JsonView
        decreases self,
    {
        match self {
            Json::Null => JsonView::Null,
            Json::Bool(b) => JsonView::Bool(*b),
            Json::Whole(n) => JsonView::Whole(*n as nat),
            Json::Other(spelling) => JsonView::Other(spelling@),
            Json::Text(text) => JsonView::Text(text@),
            Json::Array(items) => JsonView::Array(items_view(items@)),
            Json::Object(members) => JsonView::Object(members_view(members@)),
        }
    }

    /// A string.
    pub fn string(text: &str) -> (r: Json)
        ensures
            r@ == JsonView::Text(text@),
    {
        Json::Text(text.to_owned())
    }

    /// A string, or null.
    pub fn string_or_null(text: &Option<String>) -> (r: Json)
        ensures
            r@ == text_or_null(text::optional(*text)),
    {
        match text {
            Some(text) => Json::string(text.as_str()),
            None => Json::Null,
        }
    }

    /// An array of strings.
    pub fn strings(texts: &Vec<String>) -> (r: Json)
        ensures
            r@ == texts_of(text::views(texts@)),
    {
        let mut items: Vec<Json> = Vec::new();
        let mut i: usize = 0;
        while i < texts.len()
            invariant
                i <= texts@.len(),
                items@.len() == i,
                forall|k: int| 0 <= k < i ==> (#[trigger] items@[k])@ == JsonView::Text(texts@[k]@),
            decreases texts@.len() - i,
        {
            items.push(Json::string(texts[i].as_str()));
            i = i + 1;
        }
        proof {
            item_views(items@);
            assert(items_view(items@) =~= text::views(texts@).map_values(
                |s: Seq<char>| JsonView::Text(s),
            ));
        }
        Json::Array(items)
    }

    /// An array.
    pub fn list(items: Vec<Json>) -> (r: Json)
        ensures
            r@ == JsonView::Array(items_view(items@)),
    {
        Json::Array(items)
    }

    /// The object with no members.
    pub fn record() -> (r: Json)
        ensures
            r@ == JsonView::record(),
    {
        Json::Object(Vec::new())
    }

    /// This object with one more member; any other value becomes an
    /// object of that member alone.
    pub fn with(self, key: &str, value: Json) -> (r: Json)
        ensures
            self@ is Object ==> r@ == self@.with(key@, value@),
            !(self@ is Object) ==> r@ == JsonView::record().with(key@, value@),
    {
        let mut members: Vec<(String, Json)> = match self {
            Json::Object(members) => members,
            _ => Vec::new(),
        };
        let ghost before = members@;
        members.push((key.to_owned(), value));
        proof {
            assert(members@.drop_last() =~= before);
            if before.len() == 0 {
                assert(members_view(before) =~= Seq::empty());
            }
        }
        Json::Object(members)
    }

    /// The array with no items.
    pub fn row() -> (r: Json)
        ensures
            r@ == JsonView::row(),
    {
        Json::Array(Vec::new())
    }

    /// This array with one more item, a string; any other value becomes an
    /// array of that item alone.
    pub fn also(self, text: &str) -> (r: Json)
        ensures
            self@ is Array ==> r@ == self@.also(text@),
            !(self@ is Array) ==> r@ == JsonView::row().also(text@),
    {
        let mut items: Vec<Json> = match self {
            Json::Array(items) => items,
            _ => Vec::new(),
        };
        let ghost before = items@;
        items.push(Json::string(text));
        proof {
            assert(items@.drop_last() =~= before);
            if before.len() == 0 {
                assert(items_view(before) =~= Seq::empty());
            }
        }
        Json::Array(items)
    }

    /// The member called `key`, when this is an object that has one.
    pub fn get(&self, key: &str) -> (r: Option<&Json>)
        ensures
            match r {
                Some(value) => self@.get(key@) == Some(value@),
                None => self@.get(key@) is None,
            },
    {
        match self {
            Json::Object(members) => find(members, key),
            _ => None,
        }
    }

    /// The string, when this is one.
    pub fn text(&self) -> (r: Option<&String>)
        ensures
            match r {
                Some(text) => self@.text() == Some(text@),
                None => self@.text() is None,
            },
    {
        match self {
            Json::Text(text) => Some(text),
            _ => None,
        }
    }

    /// The whole number, when this is one.
    pub fn whole(&self) -> (r: Option<u64>)
        ensures
            match r {
                Some(n) => self@.whole() == Some(n as nat),
                None => self@.whole() is None,
            },
    {
        match self {
            Json::Whole(n) => Some(*n),
            _ => None,
        }
    }

    /// The boolean, when this is one.
    pub fn boolean(&self) -> (r: Option<bool>)
        ensures
            r == self@.boolean(),
    {
        match self {
            Json::Bool(b) => Some(*b),
            _ => None,
        }
    }

    /// Whether this is null.
    pub fn is_null(&self) -> (r: bool)
        ensures
            r == (self@ is Null),
    {
        match self {
            Json::Null => true,
            _ => false,
        }
    }

    /// The string of the member called `key`, when there is one.
    pub fn text_at(&self, key: &str) -> (r: Option<&String>)
        ensures
            match r {
                Some(text) => self@.text_at(key@) == Some(text@),
                None => self@.text_at(key@) is None,
            },
    {
        match self.get(key) {
            Some(value) => value.text(),
            None => None,
        }
    }

    /// The whole number of the member called `key`, when there is one.
    pub fn whole_at(&self, key: &str) -> (r: Option<u64>)
        ensures
            match r {
                Some(n) => self@.whole_at(key@) == Some(n as nat),
                None => self@.whole_at(key@) is None,
            },
    {
        match self.get(key) {
            Some(value) => value.whole(),
            None => None,
        }
    }

    /// Whether this can be read as a record of `fields` fields none of which
    /// an array may leave out.
    pub fn fills(&self, fields: usize) -> (r: bool)
        ensures
            r == self@.fills(fields as nat),
    {
        match self {
            Json::Object(_) => true,
            Json::Array(items) => {
                proof {
                    item_views(items@);
                }
                items.len() == fields
            },
            _ => false,
        }
    }

    /// Whether this can be read as a record of `fields` fields.
    pub fn holds(&self, fields: usize) -> (r: bool)
        ensures
            r == self@.holds(fields as nat),
    {
        match self {
            Json::Object(_) => true,
            Json::Array(items) => {
                proof {
                    item_views(items@);
                }
                items.len() <= fields
            },
            _ => false,
        }
    }

    /// The field of a record: the member called `key` of an object, the
    /// item at `at` of an array.
    pub fn part(&self, at: usize, key: &str) -> (r: Option<&Json>)
        ensures
            match r {
                Some(value) => self@.part(at as nat, key@) == Some(value@),
                None => self@.part(at as nat, key@) is None,
            },
    {
        match self {
            Json::Object(members) => find(members, key),
            Json::Array(items) => {
                proof {
                    item_views(items@);
                }
                if at < items.len() {
                    Some(&items[at])
                } else {
                    None
                }
            },
            _ => None,
        }
    }

    /// The word of an enumeration: a string, or an object with that one
    /// member, null.
    pub fn word(&self) -> (r: Option<&String>)
        ensures
            match r {
                Some(word) => self@.word() == Some(word@),
                None => self@.word() is None,
            },
    {
        match self {
            Json::Text(text) => Some(text),
            Json::Object(members) => {
                proof {
                    member_views(members@);
                }
                if members.len() == 1 && members[0].1.is_null() {
                    Some(&members[0].0)
                } else {
                    None
                }
            },
            _ => None,
        }
    }
}

/// A string, or null.
pub open spec fn text_or_null(text: Option<Seq<char>>) -> JsonView {
    match text {
        Some(text) => JsonView::Text(text),
        None => JsonView::Null,
    }
}

/// An array of strings.
pub open spec fn texts_of(texts: Seq<Seq<char>>) -> JsonView {
    JsonView::Array(texts.map_values(|s: Seq<char>| JsonView::Text(s)))
}

/// The first member called `key`.
fn find<'a>(members: &'a Vec<(String, Json)>, key: &str) -> (r: Option<&'a Json>)
    ensures
        match r {
            Some(value) => member(members_view(members@), key@) == Some(value@),
            None => member(members_view(members@), key@) is None,
        },
{
    let ghost view = members_view(members@);
    proof {
        member_views(members@);
        assert(view.skip(0) =~= view);
    }
    let mut i: usize = 0;
    while i < members.len()
        invariant
            i <= members@.len() == view.len(),
            view == members_view(members@),
            forall|k: int|
                0 <= k < members@.len() ==> #[trigger] view[k] == (members@[k].0@, members@[k].1@),
            member(view, key@) == member(view.skip(i as int), key@),
        decreases members@.len() - i,
    {
        let rest: &(String, Json) = &members[i];
        proof {
            assert(view.skip(i as int)[0] == view[i as int]);
            assert(view.skip(i as int).skip(1) =~= view.skip(i + 1));
        }
        if text::same(rest.0.as_str(), key) {
            return Some(&rest.1);
        }
        i = i + 1;
    }
    None
}

impl Clone for Json {
    fn clone(&self) -> (r: Self)
        ensures
            r@ == self@,
        decreases self,
    {
        match self {
            Json::Null => Json::Null,
            Json::Bool(b) => Json::Bool(*b),
            Json::Whole(n) => Json::Whole(*n),
            Json::Other(spelling) => Json::Other(spelling.clone()),
            Json::Text(text) => Json::Text(text.clone()),
            Json::Array(items) => Json::Array(copied(items)),
            Json::Object(members) => Json::Object(members_copied(members)),
        }
    }
}

/// A copy of a row of values.
fn copied(items: &Vec<Json>) -> (r: Vec<Json>)
    ensures
        items_view(r@) == items_view(items@),
    decreases items,
{
    let mut copies: Vec<Json> = Vec::new();
    let mut i: usize = 0;
    while i < items.len()
        invariant
            i <= items@.len(),
            copies@.len() == i,
            forall|k: int| 0 <= k < i ==> (#[trigger] copies@[k])@ == items@[k]@,
        decreases items@.len() - i,
    {
        copies.push(items[i].clone());
        i = i + 1;
    }
    proof {
        item_views(items@);
        item_views(copies@);
        assert(items_view(items@) =~= items_view(copies@));
    }
    copies
}

/// A copy of a row of members.
fn members_copied(members: &Vec<(String, Json)>) -> (r: Vec<(String, Json)>)
    ensures
        members_view(r@) == members_view(members@),
    decreases members,
{
    let mut copies: Vec<(String, Json)> = Vec::new();
    let mut i: usize = 0;
    while i < members.len()
        invariant
            i <= members@.len(),
            copies@.len() == i,
            forall|k: int|
                0 <= k < i ==> (#[trigger] copies@[k]).0@ == members@[k].0@ && copies@[k].1@
                    == members@[k].1@,
        decreases members@.len() - i,
    {
        let one: &(String, Json) = &members[i];
        copies.push((one.0.clone(), one.1.clone()));
        i = i + 1;
    }
    proof {
        member_views(members@);
        member_views(copies@);
        assert(members_view(members@) =~= members_view(copies@));
    }
    copies
}

// ----- the text -----

/// What `serde_json` reads in a text: the value, or its words on why
/// there is none.
pub uninterp spec fn read_as(text: Seq<char>) -> Result<JsonView, Seq<char>>;

/// How `serde_json` writes a value, without a space too many.
pub uninterp spec fn written_as(value: JsonView) -> Seq<char>;

/// How `serde_json` writes a value for reading.
pub uninterp spec fn printed_as(value: JsonView) -> Seq<char>;

/// How `serde_json` writes a number read as one with a point, where the
/// text is a number.
pub uninterp spec fn float_as(text: Seq<char>) -> Option<Seq<char>>;

/// `serde_json::Value`, which a text is read into and written from.
#[verifier::external_type_specification]
#[verifier::external_body]
pub struct OutsideValue(serde_json::Value);

/// A `serde_json::Value` as a [`Json`], variant for variant: a number
/// that `as_u64` gives is whole, any other is kept as it is spelled.
/// Nothing is claimed of the result here; [`read`] names it.
#[verifier::external_body]
fn taken(value: serde_json::Value) -> Json {
    match value {
        serde_json::Value::Null => Json::Null,
        serde_json::Value::Bool(b) => Json::Bool(b),
        serde_json::Value::Number(n) => n.as_u64().map_or_else(|| Json::Other(n.to_string()), Json::Whole),
        serde_json::Value::String(text) => Json::Text(text),
        serde_json::Value::Array(items) => Json::Array(items.into_iter().map(taken).collect()),
        serde_json::Value::Object(members) =>
            Json::Object(members.into_iter().map(|(key, value)| (key, taken(value))).collect()),
    }
}

/// A [`Json`] as a `serde_json::Value`, variant for variant. Nothing is
/// claimed of the result here; [`written`] and [`printed`] name its text.
#[verifier::external_body]
fn given(json: &Json) -> serde_json::Value {
    match json {
        Json::Null => serde_json::Value::Null,
        Json::Bool(b) => serde_json::Value::Bool(*b),
        Json::Whole(n) => serde_json::Value::from(*n),
        Json::Other(spelling) => serde_json::from_str(spelling).unwrap_or_default(),
        Json::Text(text) => serde_json::Value::String(text.clone()),
        Json::Array(items) => serde_json::Value::Array(items.iter().map(given).collect()),
        Json::Object(members) =>
            serde_json::Value::Object(members.iter().map(|(key, value)| (key.clone(), given(value))).collect()),
    }
}

/// `serde_json::from_str`, into a value: what comes back is what
/// [`read_as`] names, the value or the error's own words. A text that
/// spells a value in the library's own way, and nests no deeper than
/// `serde_json` goes, is read as that value; the members of its objects
/// come in an order of `serde_json`'s.
#[verifier::external_body]
pub(crate) fn read(text: &str) -> (r: Result<Json, String>)
    ensures
        match r {
            Ok(value) => read_as(text@) == Ok::<JsonView, Seq<char>>(value@),
            Err(words) => read_as(text@) == Err::<JsonView, Seq<char>>(words@),
        },
        forall|value: JsonView|
            text@ == #[trigger] spelling::text_of(value) && spelling::plain(
                value,
                spelling::depth(),
            ) ==> r is Ok && spelling::alike(value, r->Ok_0@),
{
    serde_json::from_str::<serde_json::Value>(text).map(taken).map_err(|error| error.to_string())
}

/// `serde_json::Value::to_string`: the text is what [`written_as`] names.
#[verifier::external_body]
pub(crate) fn written(value: &Json) -> (r: String)
    ensures
        r@ == written_as(value@),
{
    given(value).to_string()
}

/// `serde_json::to_string_pretty`, which does not fail on a value: the
/// text is what [`printed_as`] names.
#[verifier::external_body]
pub(crate) fn printed(value: &Json) -> (r: String)
    ensures
        r@ == printed_as(value@),
{
    serde_json::to_string_pretty(&given(value)).unwrap_or_default()
}

/// `serde_json::Number::from_f64` of what `Value::as_f64` gives for the
/// number that the text is: what it is written as is what [`float_as`]
/// names, and has a point or an exponent.
#[verifier::external_body]
fn floated(text: &str) -> (r: Option<String>)
    ensures
        text::optional(r) == float_as(text@),
        r matches Some(written) ==> !integral(written@),
{
    let value: serde_json::Value = serde_json::from_str(text).ok()?;
    value.as_f64().and_then(serde_json::Number::from_f64).map(|number| number.to_string())
}

impl Json {
    /// The value a text spells.
    ///
    /// # Errors
    ///
    /// A text that is not JSON, in `serde_json`'s words.
    pub fn parse(text: &str) -> (r: Result<Json, String>)
        ensures
            match r {
                Ok(value) => read_as(text@) == Ok::<JsonView, Seq<char>>(value@),
                Err(words) => read_as(text@) == Err::<JsonView, Seq<char>>(words@),
            },
            forall|value: JsonView|
                text@ == #[trigger] spelling::text_of(value) && spelling::plain(
                    value,
                    spelling::depth(),
                ) ==> r is Ok && spelling::alike(value, r->Ok_0@),
    {
        read(text)
    }

    /// The value's text.
    pub fn to_string(&self) -> (r: String)
        ensures
            r@ == written_as(self@),
    {
        written(self)
    }
}

/// A record as its text spells it: each field's name and the text of its
/// value, in order.
pub open spec fn record_text(fields: Seq<(Seq<char>, Seq<char>)>) -> Seq<char> {
    "{"@ + text::join(fields.map_values(|f: (Seq<char>, Seq<char>)| field_text(f.0, f.1)), ","@)
        + "}"@
}

/// One field of a record.
pub open spec fn field_text(name: Seq<char>, value: Seq<char>) -> Seq<char> {
    "\""@ + name + "\":"@ + value
}

/// The text of one field: its name, which needs no escape, and the text
/// of its value.
pub(crate) fn field(name: &str, value: &str) -> (r: String)
    ensures
        r@ == field_text(name@, value@),
{
    text::cat4("\"", name, "\":", value)
}

/// A row of texts between brackets, as an array spells them.
pub open spec fn array_text(items: Seq<Seq<char>>) -> Seq<char> {
    "["@ + text::join(items, ","@) + "]"@
}

// ----- the fields of a record -----

/// An optional string: absent or null is none, and `None` where the
/// field holds something else.
pub open spec fn optional_text(part: Option<JsonView>) -> Option<Option<Seq<char>>> {
    match part {
        None => Some(None),
        Some(JsonView::Null) => Some(None),
        Some(JsonView::Text(text)) => Some(Some(text)),
        Some(_) => None,
    }
}

/// A string that is empty where it is absent, and `None` where the field
/// holds something else.
pub open spec fn text_or_empty(part: Option<JsonView>) -> Option<Seq<char>> {
    match part {
        None => Some(Seq::empty()),
        Some(JsonView::Text(text)) => Some(text),
        Some(_) => None,
    }
}

/// A string that is empty where it is absent or null, and `None` where
/// the field holds something else.
pub open spec fn text_or_nothing(part: Option<JsonView>) -> Option<Seq<char>> {
    match part {
        None => Some(Seq::empty()),
        Some(JsonView::Null) => Some(Seq::empty()),
        Some(JsonView::Text(text)) => Some(text),
        Some(_) => None,
    }
}

/// A string that must be there.
pub open spec fn needed_text(part: Option<JsonView>) -> Option<Seq<char>> {
    match part {
        Some(JsonView::Text(text)) => Some(text),
        _ => None,
    }
}

/// A whole number that must be there.
pub open spec fn needed_whole(part: Option<JsonView>) -> Option<nat> {
    match part {
        Some(JsonView::Whole(n)) => Some(n),
        _ => None,
    }
}

/// An optional whole number.
pub open spec fn optional_whole(part: Option<JsonView>) -> Option<Option<nat>> {
    match part {
        None => Some(None),
        Some(JsonView::Null) => Some(None),
        Some(JsonView::Whole(n)) => Some(Some(n)),
        Some(_) => None,
    }
}

/// An optional boolean.
pub open spec fn optional_flag(part: Option<JsonView>) -> Option<Option<bool>> {
    match part {
        None => Some(None),
        Some(JsonView::Null) => Some(None),
        Some(JsonView::Bool(b)) => Some(Some(b)),
        Some(_) => None,
    }
}

/// Whether a number is spelled as an integer: without a point and without
/// an exponent.
pub open spec fn integral(spelling: Seq<char>) -> bool {
    forall|i: int|
        0 <= i < spelling.len() ==> (#[trigger] spelling[i]) != '.' && spelling[i] != 'e'
            && spelling[i] != 'E'
}

/// How a number is spelled where it is read as one with a point.
pub open spec fn with_point(spelling: Seq<char>) -> Option<Seq<char>> {
    if integral(spelling) {
        float_as(spelling)
    } else {
        Some(spelling)
    }
}

/// An optional number of any kind, as it is spelled with a point.
pub open spec fn optional_number(part: Option<JsonView>) -> Option<Option<Seq<char>>> {
    match part {
        None => Some(None),
        Some(JsonView::Null) => Some(None),
        Some(JsonView::Whole(n)) => match with_point(text::decimal(n)) {
            Some(spelling) => Some(Some(spelling)),
            None => None,
        },
        Some(JsonView::Other(spelling)) => match with_point(spelling) {
            Some(spelling) => Some(Some(spelling)),
            None => None,
        },
        Some(_) => None,
    }
}

/// The strings of an array, when it holds nothing else.
pub open spec fn all_texts(items: Seq<JsonView>) -> Option<Seq<Seq<char>>>
    decreases items.len(),
{
    if items.len() == 0 {
        Some(Seq::empty())
    } else {
        match (all_texts(items.drop_last()), items.last()) {
            (Some(front), JsonView::Text(text)) => Some(front.push(text)),
            _ => None,
        }
    }
}

/// An array of strings that is empty where it is absent, and `None`
/// where the field holds something else.
pub open spec fn texts_or_empty(part: Option<JsonView>) -> Option<Seq<Seq<char>>> {
    match part {
        None => Some(Seq::empty()),
        Some(JsonView::Array(items)) => all_texts(items),
        Some(_) => None,
    }
}

/// The view of a field.
pub open spec fn part_view(part: Option<&Json>) -> Option<JsonView> {
    match part {
        Some(value) => Some(value@),
        None => None,
    }
}

/// The texts of what an optional string came to.
pub open spec fn twice_optional(r: Option<Option<String>>) -> Option<Option<Seq<char>>> {
    match r {
        Some(Some(s)) => Some(Some(s@)),
        Some(None) => Some(None),
        None => None,
    }
}

/// An optional string.
pub fn read_optional_text(part: Option<&Json>) -> (r: Option<Option<String>>)
    ensures
        twice_optional(r) == optional_text(part_view(part)),
{
    match part {
        None => Some(None),
        Some(Json::Null) => Some(None),
        Some(Json::Text(text)) => Some(Some(text.clone())),
        Some(_) => None,
    }
}

/// A string that is empty where it is absent.
pub fn read_text_or_empty(part: Option<&Json>) -> (r: Option<String>)
    ensures
        text::optional(r) == text_or_empty(part_view(part)),
{
    match part {
        None => {
            let s = String::new();
            assert(s@ =~= Seq::empty());
            Some(s)
        },
        Some(Json::Text(text)) => Some(text.clone()),
        Some(_) => None,
    }
}

/// A string that is empty where it is absent or null.
pub fn read_text_or_nothing(part: Option<&Json>) -> (r: Option<String>)
    ensures
        text::optional(r) == text_or_nothing(part_view(part)),
{
    match part {
        None => {
            let s = String::new();
            assert(s@ =~= Seq::empty());
            Some(s)
        },
        Some(Json::Null) => {
            let s = String::new();
            assert(s@ =~= Seq::empty());
            Some(s)
        },
        Some(Json::Text(text)) => Some(text.clone()),
        Some(_) => None,
    }
}

/// A string that must be there.
pub fn read_text(part: Option<&Json>) -> (r: Option<String>)
    ensures
        text::optional(r) == needed_text(part_view(part)),
{
    match part {
        Some(Json::Text(text)) => Some(text.clone()),
        _ => None,
    }
}

/// A whole number that must be there.
pub fn read_whole(part: Option<&Json>) -> (r: Option<u64>)
    ensures
        match r {
            Some(n) => needed_whole(part_view(part)) == Some(n as nat),
            None => needed_whole(part_view(part)) is None,
        },
{
    match part {
        Some(Json::Whole(n)) => Some(*n),
        _ => None,
    }
}

/// An optional whole number.
pub fn read_optional_whole(part: Option<&Json>) -> (r: Option<Option<u64>>)
    ensures
        match r {
            Some(Some(n)) => optional_whole(part_view(part)) == Some(Some(n as nat)),
            Some(None) => optional_whole(part_view(part)) == Some(None::<nat>),
            None => optional_whole(part_view(part)) is None,
        },
{
    match part {
        None => Some(None),
        Some(Json::Null) => Some(None),
        Some(Json::Whole(n)) => Some(Some(*n)),
        Some(_) => None,
    }
}

/// An optional boolean.
pub fn read_optional_flag(part: Option<&Json>) -> (r: Option<Option<bool>>)
    ensures
        r == optional_flag(part_view(part)),
{
    match part {
        None => Some(None),
        Some(Json::Null) => Some(None),
        Some(Json::Bool(b)) => Some(Some(*b)),
        Some(_) => None,
    }
}

/// Whether a number is spelled as an integer.
fn is_integral(spelling: &str) -> (r: bool)
    ensures
        r == integral(spelling@),
{
    let chars = text::chars_of(spelling);
    let mut i: usize = 0;
    while i < chars.len()
        invariant
            i <= chars@.len(),
            chars@ == spelling@,
            forall|k: int|
                0 <= k < i ==> (#[trigger] chars@[k]) != '.' && chars@[k] != 'e' && chars@[k]
                    != 'E',
        decreases chars@.len() - i,
    {
        if chars[i] == '.' || chars[i] == 'e' || chars[i] == 'E' {
            return false;
        }
        i = i + 1;
    }
    true
}

/// How a number is spelled where it is read as one with a point.
fn pointed(spelling: &str) -> (r: Option<String>)
    ensures
        text::optional(r) == with_point(spelling@),
{
    if is_integral(spelling) {
        floated(spelling)
    } else {
        Some(spelling.to_owned())
    }
}

/// An optional number of any kind, as it is spelled with a point.
pub fn read_optional_number(part: Option<&Json>) -> (r: Option<Option<String>>)
    ensures
        twice_optional(r) == optional_number(part_view(part)),
{
    let spelling = match part {
        None => return Some(None),
        Some(Json::Null) => return Some(None),
        Some(Json::Whole(n)) => text::number(*n),
        Some(Json::Other(spelling)) => spelling.clone(),
        Some(_) => return None,
    };
    match pointed(spelling.as_str()) {
        Some(spelling) => Some(Some(spelling)),
        None => None,
    }
}

/// An array of strings that is empty where it is absent.
pub fn read_texts_or_empty(part: Option<&Json>) -> (r: Option<Vec<String>>)
    ensures
        match r {
            Some(texts) => texts_or_empty(part_view(part)) == Some(text::views(texts@)),
            None => texts_or_empty(part_view(part)) is None,
        },
{
    match part {
        None => {
            let texts: Vec<String> = Vec::new();
            assert(text::views(texts@) =~= Seq::empty());
            Some(texts)
        },
        Some(Json::Array(items)) => read_texts(items),
        Some(_) => None,
    }
}

/// A longer row is not all strings where a shorter one is not.
proof fn texts_to_the_end(items: Seq<JsonView>, i: int)
    requires
        0 <= i <= items.len(),
        all_texts(items.take(i)) is None,
    ensures
        all_texts(items) is None,
    decreases items.len() - i,
{
    if i == items.len() {
        assert(items.take(i) =~= items);
    } else {
        assert(items.take(i + 1).drop_last() =~= items.take(i));
        texts_to_the_end(items, i + 1);
    }
}

/// The strings of an array, when it holds nothing else.
pub fn read_texts(items: &Vec<Json>) -> (r: Option<Vec<String>>)
    ensures
        match r {
            Some(texts) => all_texts(items_view(items@)) == Some(text::views(texts@)),
            None => all_texts(items_view(items@)) is None,
        },
{
    let ghost view = items_view(items@);
    proof {
        item_views(items@);
    }
    let mut texts: Vec<String> = Vec::new();
    let mut i: usize = 0;
    proof {
        assert(text::views(texts@) =~= Seq::empty());
    }
    while i < items.len()
        invariant
            i <= items@.len() == view.len(),
            view == items_view(items@),
            forall|k: int| 0 <= k < items@.len() ==> #[trigger] view[k] == items@[k]@,
            all_texts(view.take(i as int)) == Some(text::views(texts@)),
        decreases items@.len() - i,
    {
        proof {
            assert(view.take(i + 1).drop_last() =~= view.take(i as int));
            assert(view.take(i + 1).last() == view[i as int]);
        }
        match &items[i] {
            Json::Text(text) => {
                let ghost before = text::views(texts@);
                texts.push(text.clone());
                proof {
                    assert(text::views(texts@) =~= before.push(text@));
                }
            },
            _ => {
                proof {
                    texts_to_the_end(view, i + 1);
                }
                return None;
            },
        }
        i = i + 1;
    }
    proof {
        assert(view.take(i as int) =~= view);
    }
    Some(texts)
}

/// A record's text, as it is put together field by field.
pub struct RecordText {
    parts: Vec<String>,
    fields: Ghost<Seq<(Seq<char>, Seq<char>)>>,
}

/// The texts of the fields of a record.
pub open spec fn field_texts(fields: Seq<(Seq<char>, Seq<char>)>) -> Seq<Seq<char>> {
    fields.map_values(|f: (Seq<char>, Seq<char>)| field_text(f.0, f.1))
}

impl RecordText {
    /// The fields so far: each one's name and the text of its value.
    pub closed spec fn fields(&self) -> Seq<(Seq<char>, Seq<char>)> {
        self.fields@
    }

    #[verifier::type_invariant]
    closed spec fn sound(&self) -> bool {
        text::views(self.parts@) == field_texts(self.fields@)
    }

    /// A record with no fields.
    pub fn new() -> (r: Self)
        ensures
            r.fields() == Seq::<(Seq<char>, Seq<char>)>::empty(),
    {
        let parts: Vec<String> = Vec::new();
        proof {
            assert(text::views(parts@) =~= field_texts(Seq::empty()));
        }
        RecordText { parts, fields: Ghost(Seq::empty()) }
    }

    /// The record with one more field.
    pub fn with(self, name: &str, value: &str) -> (r: Self)
        ensures
            r.fields() == self.fields().push((name@, value@)),
    {
        proof {
            use_type_invariant(&self);
        }
        let ghost fields = self.fields@;
        let mut parts = self.parts;
        let ghost before = text::views(parts@);
        parts.push(field(name, value));
        proof {
            assert(text::views(parts@) =~= before.push(field_text(name@, value@)));
            assert(field_texts(fields.push((name@, value@))) =~= field_texts(fields).push(
                field_text(name@, value@),
            ));
        }
        RecordText { parts, fields: Ghost(fields.push((name@, value@))) }
    }

    /// The record with one more field, whose value is a string.
    pub fn with_string(self, name: &str, value: &str) -> (r: Self)
        ensures
            r.fields() == self.fields().push((name@, written_as(JsonView::Text(value@)))),
    {
        let written = written(&Json::string(value));
        self.with(name, written.as_str())
    }

    /// The record's text.
    pub fn text(&self) -> (r: String)
        ensures
            r@ == record_text(self.fields()),
    {
        proof {
            use_type_invariant(self);
            assert(field_texts(self.fields@) =~= self.fields@.map_values(
                |f: (Seq<char>, Seq<char>)| field_text(f.0, f.1),
            ));
        }
        let body = text::joined(&self.parts, ",");
        text::cat3("{", body.as_str(), "}")
    }
}

/// A row of texts between brackets.
pub fn array(items: &Vec<String>) -> (r: String)
    ensures
        r@ == array_text(text::views(items@)),
{
    let body = text::joined(items, ",");
    text::cat3("[", body.as_str(), "]")
}

} // verus!
