//! JSON text, read and written by `serde_json`.

use vstd::prelude::*;
use crate::value::{Number, NumberView, Value, ValueView};

verus! {

/// The shape of a parsed JSON document, as far as the engine reads it: a
/// number keeps its numeral, and its value if it is a 64-bit signed
/// integer; arrays and objects keep nothing of their members.
#[derive(Debug, Clone, PartialEq, Eq)]
pub enum Json {
    Null,
    Bool(bool),
    Number { text: String, integer: Option<i64> },
    Text(String),
    Array,
    Object,
}

/// The mathematical content of a [`Json`].
pub enum JsonView {
    Null,
    Bool(bool),
    Number { text: Seq<char>, integer: Option<i64> },
    Text(Seq<char>),
    Array,
    Object,
}

impl View for Json {
    type V = JsonView;

    open spec fn view(&self) -> JsonView {
        match *self {
            Json::Null => JsonView::Null,
            Json::Bool(b) => JsonView::Bool(b),
            Json::Number { text, integer } => JsonView::Number { text: text@, integer },
            Json::Text(s) => JsonView::Text(s@),
            Json::Array => JsonView::Array,
            Json::Object => JsonView::Object,
        }
    }
}

/// `serde_json::Error`: what `serde_json` reports when it cannot read or
/// write. The engine hands it on unread.
#[verifier::external_type_specification]
#[verifier::external_body]
pub struct ExJsonError(serde_json::Error);

/// What `serde_json::from_str` makes of a text: the shape of the document,
/// or `None` where it reports an error. For a number, the numeral is what
/// `Display` of `serde_json::Number` prints and the integer is what
/// `serde_json::Number::as_i64` gives.
pub uninterp spec fn json_parse(text: Seq<char>) -> Option<JsonView>;

/// What `serde_json::to_string` writes for a value, or `None` where an
/// error is reported.
pub uninterp spec fn json_text(value: ValueView) -> Option<Seq<char>>;

/// The values whose writing cannot fail: all but the numbers held as a
/// numeral, which has to be read as a number first.
pub open spec fn writable(value: ValueView) -> bool {
    !(value matches ValueView::Number(NumberView::Numeral(_)))
}

/// Calls `serde_json::from_str` for a `serde_json::Value` and keeps the
/// document's shape; of a number it keeps what `to_string` and `as_i64` of
/// `serde_json::Number` give. Unproved: that the outcome is `json_parse` of
/// the text, that is, that parsing depends on the text alone.
#[verifier::external_body]
pub(crate) fn parse_json(text: &str) -> (r: Result<Json, serde_json::Error>)
    ensures
        match r {
            Ok(j) => json_parse(text@) == Some(j@),
            Err(_) => json_parse(text@) is None,
        },
{
    match serde_json::from_str::<serde_json::Value>(text) {
        Ok(serde_json::Value::Null) => Ok(Json::Null),
        Ok(serde_json::Value::Bool(b)) => Ok(Json::Bool(b)),
        Ok(serde_json::Value::Number(n)) => Ok(
            Json::Number { text: n.to_string(), integer: n.as_i64() },
        ),
        Ok(serde_json::Value::String(s)) => Ok(Json::Text(s)),
        Ok(serde_json::Value::Array(_)) => Ok(Json::Array),
        Ok(serde_json::Value::Object(_)) => Ok(Json::Object),
        Err(e) => Err(e),
    }
}

/// Calls `serde_json::to_string` on the `serde_json::Value` that holds the
/// same boolean, number or string; a numeral becomes a number through
/// `str::parse` for `serde_json::Number`, whose error is handed on.
/// Unproved: that the outcome is `json_text` of the value, that is, that
/// writing depends on the value alone; and that writing a boolean, an
/// integer or a string succeeds, since `serde_json` writes them into a byte
/// vector, which takes every write.
#[verifier::external_body]
pub(crate) fn write_json(value: &Value) -> (r: Result<String, serde_json::Error>)
    ensures
        match r {
            Ok(s) => json_text(value@) == Some(s@),
            Err(_) => json_text(value@) is None,
        },
        writable(value@) ==> r is Ok,
{
    let json = match value {
        Value::Bool(b) => serde_json::Value::Bool(*b),
        Value::Number(Number::Integer(i)) => serde_json::Value::Number(serde_json::Number::from(*i)),
        Value::Number(Number::Numeral(t)) => serde_json::Value::Number(
            t.parse::<serde_json::Number>()?,
        ),
        Value::Str(s) => serde_json::Value::String(s.clone()),
    };
    serde_json::to_string(&json)
}

} // verus!
