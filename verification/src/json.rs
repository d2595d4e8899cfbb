//! JSON values and what is read off them.
use serde_json::{Number, Value};
use vstd::prelude::*;
use vstd::string::*;

use crate::model;
use crate::text;

verus! {

/// A JSON number.
#[derive(Debug, PartialEq)]
pub enum JsonNumber<S = String> {
    /// An integer that fits 64 bits without a sign.
    Natural(u64),
    /// A negative integer that fits 64 bits with a sign.
    Negative(i64),
    /// Any other number, in its shortest notation.
    Other(S),
}

/// A JSON value.
#[derive(Debug, PartialEq)]
pub enum Json {
    Null,
    Bool(bool),
    Number(JsonNumber),
    Text(String),
    Array(Vec<Json>),
    Object(Vec<(String, Json)>),
}

/// What a JSON value says: strings are character sequences, arrays are sequences, and objects
/// are sequences of named fields.
pub ghost enum JsonView {
    Null,
    Bool(bool),
    Number(JsonNumber<Seq<char>>),
    Text(Seq<char>),
    Array(Seq<JsonView>),
    Object(Seq<(Seq<char>, JsonView)>),
}

impl DeepView for JsonNumber {
    type V = JsonNumber<Seq<char>>;

    open spec fn deep_view(&self) -> JsonNumber<Seq<char>> {
        match *self {
            JsonNumber::Natural(n) => JsonNumber::Natural(n),
            JsonNumber::Negative(n) => JsonNumber::Negative(n),
            JsonNumber::Other(s) => JsonNumber::Other(s@),
        }
    }
}

/// What a JSON value says.
pub open spec fn json_view(v: Json) -> JsonView
    decreases v,
{
    match v {
        Json::Null => JsonView::Null,
        Json::Bool(b) => JsonView::Bool(b),
        Json::Number(n) => JsonView::Number(n.deep_view()),
        Json::Text(s) => JsonView::Text(s@),
        Json::Array(items) => JsonView::Array(
            Seq::new(
                items@.len(),
                |i: int|
                    if 0 <= i < items@.len() {
                        json_view(items@[i])
                    } else {
                        JsonView::Null
                    },
            ),
        ),
        Json::Object(fields) => JsonView::Object(
            Seq::new(
                fields@.len(),
                |i: int|
                    if 0 <= i < fields@.len() {
                        (fields@[i].0@, json_view(fields@[i].1))
                    } else {
                        (Seq::empty(), JsonView::Null)
                    },
            ),
        ),
    }
}

impl DeepView for Json {
    type V = JsonView;

    open spec fn deep_view(&self) -> JsonView {
        json_view(*self)
    }
}

/// The value of the first field of the given name from position `i` on.
pub open spec fn field_from(fields: Seq<(Seq<char>, JsonView)>, key: Seq<char>, i: int) -> Option<
    JsonView,
>
    decreases fields.len() - i,
{
    if i < 0 || i >= fields.len() {
        None
    } else if fields[i].0 == key {
        Some(fields[i].1)
    } else {
        field_from(fields, key, i + 1)
    }
}

impl JsonView {
    /// The field of the given name, where the value is an object that has one.
    pub open spec fn field(self, key: Seq<char>) -> Option<JsonView> {
        match self {
            JsonView::Object(fields) => field_from(fields, key, 0),
            _ => None,
        }
    }

    /// The text, where the value is one.
    pub open spec fn as_text(self) -> Option<Seq<char>> {
        match self {
            JsonView::Text(s) => Some(s),
            _ => None,
        }
    }

    /// The integer, where the value is a number that fits 64 bits with a sign.
    pub open spec fn as_integer(self) -> Option<i64> {
        match self {
            JsonView::Number(JsonNumber::Natural(n)) => if n <= i64::MAX {
                Some(n as i64)
            } else {
                None
            },
            JsonView::Number(JsonNumber::Negative(n)) => Some(n),
            _ => None,
        }
    }

    /// The items, where the value is an array.
    pub open spec fn as_items(self) -> Option<Seq<JsonView>> {
        match self {
            JsonView::Array(items) => Some(items),
            _ => None,
        }
    }
}

/// The field of the given name of an optional value.
pub open spec fn opt_field(v: Option<JsonView>, key: Seq<char>) -> Option<JsonView> {
    match v {
        Some(v) => v.field(key),
        None => None,
    }
}

/// The text of an optional value.
pub open spec fn opt_text(v: Option<JsonView>) -> Option<Seq<char>> {
    match v {
        Some(v) => v.as_text(),
        None => None,
    }
}

/// The integer of an optional value.
pub open spec fn opt_integer(v: Option<JsonView>) -> Option<i64> {
    match v {
        Some(v) => v.as_integer(),
        None => None,
    }
}

/// The items of an optional value.
pub open spec fn opt_items(v: Option<JsonView>) -> Option<Seq<JsonView>> {
    match v {
        Some(v) => v.as_items(),
        None => None,
    }
}

impl Json {
    /// Reads a JSON text.
    pub fn parse(s: &str) -> (res: Result<Json, String>)
        ensures
            model::result_view(res) == json_of_text(s@),
    {
        parse_value(s)
    }

    /// Reads a JSON text that is to hold an array, and gives its items.
    pub fn parse_items(s: &str) -> (res: Result<Vec<Json>, String>)
        ensures
            model::result_view(res) == json_items_of_text(s@),
    {
        parse_values(s)
    }

    /// Writes the value on one line.
    pub fn to_line(&self) -> (res: String)
        ensures
            res@ == json_line(self.deep_view()),
    {
        value_line(self)
    }

    /// Writes the value for a reader who looks for what is wrong with it.
    pub fn to_debug(&self) -> (res: String)
        ensures
            res@ == json_debug(self.deep_view()),
    {
        value_debug(self)
    }

    /// The field of the given name, where the value is an object that has one.
    pub fn get(&self, key: &str) -> (res: Option<&Json>)
        ensures
            res.deep_view() == self.deep_view().field(key@),
    {
        match self {
            Json::Object(fields) => {
                let ghost all = self.deep_view()->Object_0;
                for i in 0..fields.len()
                    invariant
                        self.deep_view() == JsonView::Object(all),
                        *self == Json::Object(*fields),
                        all.len() == fields@.len(),
                        field_from(all, key@, 0) == field_from(all, key@, i as int),
                {
                    assert(all[i as int] == (fields@[i as int].0@, fields@[i as int].1.deep_view()));
                    if text::str_eq(fields[i].0.as_str(), key) {
                        return Some(&fields[i].1);
                    }
                }
                None
            },
            _ => None,
        }
    }

    /// The text, where the value is one.
    pub fn as_str(&self) -> (res: Option<&str>)
        ensures
            res.deep_view() == self.deep_view().as_text(),
    {
        match self {
            Json::Text(s) => Some(s.as_str()),
            _ => None,
        }
    }

    /// The integer, where the value is a number that fits 64 bits with a sign.
    pub fn as_i64(&self) -> (res: Option<i64>)
        ensures
            res == self.deep_view().as_integer(),
    {
        match self {
            Json::Number(JsonNumber::Natural(n)) => {
                if *n <= i64::MAX as u64 {
                    Some(*n as i64)
                } else {
                    None
                }
            },
            Json::Number(JsonNumber::Negative(n)) => Some(*n),
            _ => None,
        }
    }

    /// The items, where the value is an array.
    pub fn as_array(&self) -> (res: Option<&Vec<Json>>)
        ensures
            res.deep_view() == self.deep_view().as_items(),
    {
        match self {
            Json::Array(items) => {
                assert(items.deep_view() =~= self.deep_view()->Array_0);
                Some(items)
            },
            _ => None,
        }
    }

    /// Whether the value is an object.
    pub fn is_object(&self) -> (res: bool)
        ensures
            res == (self.deep_view() is Object),
    {
        match self {
            Json::Object(_) => true,
            _ => false,
        }
    }

    /// A value that says the same.
    pub fn copy(&self) -> (res: Json)
        ensures
            res.deep_view() == self.deep_view(),
        decreases self,
    {
        match self {
            Json::Null => Json::Null,
            Json::Bool(b) => Json::Bool(*b),
            Json::Number(n) => Json::Number(
                match n {
                    JsonNumber::Natural(n) => JsonNumber::Natural(*n),
                    JsonNumber::Negative(n) => JsonNumber::Negative(*n),
                    JsonNumber::Other(s) => JsonNumber::Other(s.clone()),
                },
            ),
            Json::Text(s) => Json::Text(s.clone()),
            Json::Array(items) => {
                let mut out: Vec<Json> = Vec::new();
                for i in 0..items.len()
                    invariant
                        *self == Json::Array(*items),
                        out@.len() == i,
                        forall|j: int|
                            0 <= j < i ==> (#[trigger] out@[j]).deep_view()
                                == items@[j].deep_view(),
                {
                    assert(decreases_to!(self => self->Array_0));
                    assert(decreases_to!(items@ => items@[i as int]));
                    out.push(items[i].copy());
                }
                let res = Json::Array(out);
                assert(res.deep_view()->Array_0 =~= self.deep_view()->Array_0);
                res
            },
            Json::Object(fields) => {
                let mut out: Vec<(String, Json)> = Vec::new();
                for i in 0..fields.len()
                    invariant
                        *self == Json::Object(*fields),
                        out@.len() == i,
                        forall|j: int|
                            0 <= j < i ==> (#[trigger] out@[j]).0@ == fields@[j].0@
                                && out@[j].1.deep_view() == fields@[j].1.deep_view(),
                {
                    assert(decreases_to!(self => self->Object_0));
                    assert(decreases_to!(fields@ => fields@[i as int]));
                    assert(decreases_to!(fields@[i as int] => fields@[i as int].1));
                    out.push((fields[i].0.clone(), fields[i].1.copy()));
                }
                let res = Json::Object(out);
                assert(res.deep_view()->Object_0 =~= self.deep_view()->Object_0);
                res
            },
        }
    }
}

/// The field of the given name of an optional value.
pub fn get_opt<'a>(v: Option<&'a Json>, key: &str) -> (res: Option<&'a Json>)
    ensures
        res.deep_view() == opt_field(v.deep_view(), key@),
{
    match v {
        Some(v) => v.get(key),
        None => None,
    }
}

/// The text of an optional value.
pub fn str_opt<'a>(v: Option<&'a Json>) -> (res: Option<&'a str>)
    ensures
        res.deep_view() == opt_text(v.deep_view()),
{
    match v {
        Some(v) => v.as_str(),
        None => None,
    }
}

/// The integer of an optional value.
pub fn i64_opt(v: Option<&Json>) -> (res: Option<i64>)
    ensures
        res == opt_integer(v.deep_view()),
{
    match v {
        Some(v) => v.as_i64(),
        None => None,
    }
}

/// The text of an optional value, or a default, as a string of its own.
pub fn string_or(v: Option<&Json>, default: &str) -> (res: String)
    ensures
        res@ == model::value_or(opt_text(v.deep_view()), default@),
{
    match str_opt(v) {
        Some(s) => text::owned(s),
        None => text::owned(default),
    }
}

// ---------------------------------------------------------------------------
// Records
// ---------------------------------------------------------------------------

/// Whether a value can be read as a record of `n` members: an object, whose members have names, or
/// an array of at most `n` items, whose members have positions.
pub open spec fn is_record(v: JsonView, n: int) -> bool {
    match v {
        JsonView::Object(_) => true,
        JsonView::Array(items) => items.len() <= n,
        _ => false,
    }
}

/// The member of a record with the given name or position.
pub open spec fn member(v: JsonView, name: Seq<char>, position: int) -> Option<JsonView> {
    match v {
        JsonView::Object(_) => v.field(name),
        JsonView::Array(items) => if 0 <= position < items.len() {
            Some(items[position])
        } else {
            None
        },
        _ => None,
    }
}

/// The text that an optional member holds, if it is read well: nothing where it is absent or null.
pub open spec fn optional_text(v: Option<JsonView>) -> Option<Option<Seq<char>>> {
    match v {
        None => Some(None),
        Some(JsonView::Null) => Some(None),
        Some(JsonView::Text(s)) => Some(Some(s)),
        Some(_) => None,
    }
}

/// The value that an optional member holds: nothing where it is absent or null.
pub open spec fn optional_value(v: Option<JsonView>) -> Option<JsonView> {
    match v {
        Some(JsonView::Null) => None,
        _ => v,
    }
}

/// Whether a value can be read as a record of `n` members.
pub fn record(v: &Json, n: usize) -> (res: bool)
    ensures
        res == is_record(v.deep_view(), n as int),
{
    match v {
        Json::Object(_) => true,
        Json::Array(items) => items.len() <= n,
        _ => false,
    }
}

/// The member of a record with the given name or position.
pub fn get_member<'a>(v: &'a Json, name: &str, position: usize) -> (res: Option<&'a Json>)
    ensures
        res.deep_view() == member(v.deep_view(), name@, position as int),
{
    match v {
        Json::Object(_) => v.get(name),
        Json::Array(items) => {
            if position < items.len() {
                assert(v.deep_view()->Array_0[position as int] == items@[position as int].deep_view());
                Some(&items[position])
            } else {
                None
            }
        },
        _ => None,
    }
}

/// The text that a member holds, where it is one.
pub fn get_text(v: &Json, name: &str, position: usize) -> (res: Option<String>)
    ensures
        res.deep_view() == opt_text(member(v.deep_view(), name@, position as int)),
{
    match str_opt(get_member(v, name, position)) {
        Some(s) => Some(text::owned(s)),
        None => None,
    }
}

/// The text that an optional member holds, if it is read well.
pub fn get_optional_text(v: &Json, name: &str, position: usize) -> (res: Option<Option<String>>)
    ensures
        res.deep_view() == optional_text(member(v.deep_view(), name@, position as int)),
{
    match get_member(v, name, position) {
        None => Some(None),
        Some(Json::Null) => Some(None),
        Some(Json::Text(s)) => Some(Some(s.clone())),
        Some(_) => None,
    }
}

/// The value that an optional member holds.
pub fn get_optional_value(v: &Json, name: &str, position: usize) -> (res: Option<Json>)
    ensures
        res.deep_view() == optional_value(member(v.deep_view(), name@, position as int)),
{
    match get_member(v, name, position) {
        None => None,
        Some(Json::Null) => None,
        Some(value) => Some(value.copy()),
    }
}

// ---------------------------------------------------------------------------
// Reading and writing JSON text
// ---------------------------------------------------------------------------

/// What `serde_json::from_str` makes of a text: the value, or what the error says.
pub uninterp spec fn json_of_text(s: Seq<char>) -> Result<JsonView, Seq<char>>;

/// What `serde_json::from_str` makes of a text that is to hold an array: its items, or what the
/// error says.
pub uninterp spec fn json_items_of_text(s: Seq<char>) -> Result<Seq<JsonView>, Seq<char>>;

/// What `serde_json` writes for a value on one line.
pub uninterp spec fn json_line(v: JsonView) -> Seq<char>;

/// What `serde_json` writes for a value in its alternate debugging form.
pub uninterp spec fn json_debug(v: JsonView) -> Seq<char>;

/// `serde_json::Value`, which is carried from the parser to the conversion and back.
#[verifier::external_type_specification]
#[verifier::external_body]
pub struct ExValue(serde_json::Value);

/// Takes a `serde_json::Value` apart, one for one: a number is what `as_u64` or `as_i64` returns, or
/// else its notation. Nothing is claimed of the result here.
#[verifier::external_body]
fn json_of_value(value: Value) -> (res: Json) {
    match value {
        Value::Null => Json::Null,
        Value::Bool(b) => Json::Bool(b),
        Value::Number(n) => Json::Number(
            n.as_u64().map(JsonNumber::Natural).or(n.as_i64().map(JsonNumber::Negative)).unwrap_or(
                JsonNumber::Other(n.to_string()),
            ),
        ),
        Value::String(s) => Json::Text(s),
        Value::Array(a) => Json::Array(a.into_iter().map(json_of_value).collect()),
        Value::Object(m) => Json::Object(
            m.into_iter().map(|f| (f.0, json_of_value(f.1))).collect(),
        ),
    }
}

/// Puts a `serde_json::Value` together, one for one: a number that is no integer is the one whose
/// shortest notation it has. Nothing is claimed of the result here.
#[verifier::external_body]
fn value_of_json(json: &Json) -> (res: Value) {
    match json {
        Json::Null => Value::Null,
        Json::Bool(b) => Value::Bool(*b),
        Json::Number(JsonNumber::Natural(n)) => Value::from(*n),
        Json::Number(JsonNumber::Negative(n)) => Value::from(*n),
        Json::Number(JsonNumber::Other(s)) => Value::from(s.parse().ok().and_then(Number::from_f64)),
        Json::Text(s) => Value::String(s.clone()),
        Json::Array(a) => Value::Array(a.iter().map(value_of_json).collect()),
        Json::Object(m) => Value::Object(
            m.iter().map(|f| (f.0.clone(), value_of_json(&f.1))).collect(),
        ),
    }
}

/// Reads a JSON text with `serde_json::from_str`. The contract claims that the value, or what the
/// error says, is a function of the text.
#[verifier::external_body]
fn parse_value(s: &str) -> (res: Result<Json, String>)
    ensures
        model::result_view(res) == json_of_text(s@),
{
    serde_json::from_str::<Value>(s).map(json_of_value).map_err(|e| e.to_string())
}

/// Reads a JSON text that is to hold an array with `serde_json::from_str`. The contract claims
/// that the items, or what the error says, are a function of the text.
#[verifier::external_body]
fn parse_values(s: &str) -> (res: Result<Vec<Json>, String>)
    ensures
        model::result_view(res) == json_items_of_text(s@),
{
    serde_json::from_str::<Vec<Value>>(s).map(
        |a| a.into_iter().map(json_of_value).collect(),
    ).map_err(|e| e.to_string())
}

/// Writes a value on one line, as the `Display` form of `serde_json::Value` does. The contract
/// claims that the text is a function of the value.
#[verifier::external_body]
fn value_line(json: &Json) -> (res: String)
    ensures
        res@ == json_line(json.deep_view()),
{
    value_of_json(json).to_string()
}

/// Writes a value in the alternate `Debug` form of `serde_json::Value`. The contract claims that
/// the text is a function of the value.
#[verifier::external_body]
fn value_debug(json: &Json) -> (res: String)
    ensures
        res@ == json_debug(json.deep_view()),
{
    format!("{:#?}", value_of_json(json))
}

/// The field of an object is the first of its name, and there is none where no field has the name.
pub proof fn lemma_field(fields: Seq<(Seq<char>, JsonView)>, key: Seq<char>, k: int)
    ensures
        0 <= k < fields.len() && fields[k].0 == key && (forall|j: int|
            0 <= j < k ==> (#[trigger] fields[j]).0 != key) ==> JsonView::Object(fields).field(key)
            == Some(fields[k].1),
        (forall|j: int| 0 <= j < fields.len() ==> (#[trigger] fields[j]).0 != key)
            ==> JsonView::Object(fields).field(key) is None,
{
    lemma_field_from(fields, key, 0);
}

proof fn lemma_field_from(fields: Seq<(Seq<char>, JsonView)>, key: Seq<char>, i: int)
    requires
        0 <= i <= fields.len(),
    ensures
        field_from(fields, key, i) is None ==> forall|j: int|
            i <= j < fields.len() ==> (#[trigger] fields[j]).0 != key,
        field_from(fields, key, i) matches Some(v) ==> exists|k: int|
            i <= k < fields.len() && (#[trigger] fields[k]) == (key, v) && forall|j: int|
                i <= j < k ==> (#[trigger] fields[j]).0 != key,
    decreases fields.len() - i,
{
    if i < fields.len() {
        if fields[i].0 == key {
            assert(fields[i] == (key, fields[i].1));
        } else {
            lemma_field_from(fields, key, i + 1);
            if let Some(v) = field_from(fields, key, i) {
                let k = choose|k: int|
                    i + 1 <= k < fields.len() && (#[trigger] fields[k]) == (key, v) && forall|
                        j: int,
                    |
                        i + 1 <= j < k ==> (#[trigger] fields[j]).0 != key;
                assert(fields[k] == (key, v));
            }
        }
    }
}

/// A member of a record that is null is taken for absent, and a text for what it says; an array is a
/// record of the members in their order, and one that is too long is none.
pub proof fn lemma_members(items: Seq<JsonView>, name: Seq<char>, said: Seq<char>, n: int)
    ensures
        optional_text(Some(JsonView::Null)) == optional_text(None),
        optional_text(None) == Some(None::<Seq<char>>),
        optional_text(Some(JsonView::Text(said))) == Some(Some(said)),
        optional_value(Some(JsonView::Null)) is None,
        optional_value(Some(JsonView::Text(said))) == Some(JsonView::Text(said)),
        0 <= n < items.len() ==> member(JsonView::Array(items), name, n) == Some(items[n]),
        n >= items.len() ==> member(JsonView::Array(items), name, n) is None,
        is_record(JsonView::Array(items), n) <==> items.len() <= n,
{
}

} // verus!
