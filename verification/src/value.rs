//! The closed set of values that continuation chains transform, and their
//! passage to and from JSON text.

use vstd::prelude::*;
use crate::error::{Failure, Kind};
use crate::json::{json_parse, json_text, parse_json, writable, write_json, Json, JsonView};

verus! {

/// A number: a 64-bit signed integer, or any other number as its numeral.
#[derive(Debug, Clone, PartialEq, Eq)]
pub enum Number {
    /// A number that is a 64-bit signed integer.
    Integer(i64),
    /// A number that is none, such as `2.5` or `18446744073709551615`, held
    /// as the numeral that stands for it in JSON text.
    Numeral(String),
}

/// The mathematical content of a [`Number`].
pub enum NumberView {
    Integer(i64),
    Numeral(Seq<char>),
}

impl View for Number {
    type V = NumberView;

    open spec fn view(&self) -> NumberView {
        match *self {
            Number::Integer(i) => NumberView::Integer(i),
            Number::Numeral(text) => NumberView::Numeral(text@),
        }
    }
}

impl Number {
    /// A copy with the same content.
    pub fn duplicate(&self) -> (r: Number)
        ensures
            r@ == self@,
    {
        match self {
            Number::Integer(i) => Number::Integer(*i),
            Number::Numeral(text) => Number::Numeral(text.clone()),
        }
    }
}

/// A value that a continuation chain takes or gives.
#[derive(Debug, Clone, PartialEq, Eq)]
pub enum Value {
    Bool(bool),
    Number(Number),
    Str(String),
}

/// The mathematical content of a [`Value`].
pub enum ValueView {
    Bool(bool),
    Number(NumberView),
    Str(Seq<char>),
}

impl ValueView {
    pub open spec fn kind(self) -> Kind {
        match self {
            ValueView::Bool(_) => Kind::Bool,
            ValueView::Number(_) => Kind::Number,
            ValueView::Str(_) => Kind::Str,
        }
    }
}

impl View for Value {
    type V = ValueView;

    open spec fn view(&self) -> ValueView {
        match *self {
            Value::Bool(b) => ValueView::Bool(b),
            Value::Number(n) => ValueView::Number(n@),
            Value::Str(s) => ValueView::Str(s@),
        }
    }
}

impl Value {
    /// The kind of this value.
    pub fn kind(&self) -> (k: Kind)
        ensures
            k == self@.kind(),
    {
        match self {
            Value::Bool(_) => Kind::Bool,
            Value::Number(_) => Kind::Number,
            Value::Str(_) => Kind::Str,
        }
    }

    /// A copy with the same content.
    pub fn duplicate(&self) -> (r: Value)
        ensures
            r@ == self@,
    {
        match self {
            Value::Bool(b) => Value::Bool(*b),
            Value::Number(n) => Value::Number(n.duplicate()),
            Value::Str(s) => Value::Str(s.clone()),
        }
    }
}

/// The number that a parsed numeral stands for: the integer where the
/// parser found a 64-bit signed one, the numeral itself otherwise.
pub open spec fn number_of(text: Seq<char>, integer: Option<i64>) -> NumberView {
    match integer {
        Some(i) => NumberView::Integer(i),
        None => NumberView::Numeral(text),
    }
}

/// The value that a parsed document stands for: every boolean, number and
/// string is one; null, arrays and objects are not.
pub open spec fn value_of_json(json: JsonView) -> Result<ValueView, Failure> {
    match json {
        JsonView::Bool(b) => Ok(ValueView::Bool(b)),
        JsonView::Number { text, integer } => Ok(ValueView::Number(number_of(text, integer))),
        JsonView::Text(s) => Ok(ValueView::Str(s)),
        _ => Err(Failure::UnsupportedValueKind),
    }
}

/// The value that a JSON text stands for.
pub open spec fn decode_spec(text: Seq<char>) -> Result<ValueView, Failure> {
    match json_parse(text) {
        Some(json) => value_of_json(json),
        None => Err(Failure::MalformedJson),
    }
}

/// The JSON text of a value.
pub open spec fn encode_spec(value: ValueView) -> Result<Seq<char>, Failure> {
    match json_text(value) {
        Some(text) => Ok(text),
        None => Err(Failure::Unserializable),
    }
}

/// The content of an outcome that holds a [`Value`].
pub open spec fn outcome_view(r: Result<Value, Failure>) -> Result<ValueView, Failure> {
    match r {
        Ok(v) => Ok(v@),
        Err(e) => Err(e),
    }
}

/// The content of an outcome that holds a text.
pub open spec fn text_view(r: Result<String, Failure>) -> Result<Seq<char>, Failure> {
    match r {
        Ok(s) => Ok(s@),
        Err(e) => Err(e),
    }
}

/// Turns a parsed document into a value: booleans, numbers and strings are
/// kept, everything else is refused.
pub fn json_to_value(json: Json) -> (r: Result<Value, Failure>)
    ensures
        outcome_view(r) == value_of_json(json@),
{
    match json {
        Json::Bool(b) => Ok(Value::Bool(b)),
        Json::Number { text, integer } => match integer {
            Some(i) => Ok(Value::Number(Number::Integer(i))),
            None => Ok(Value::Number(Number::Numeral(text))),
        },
        Json::Text(s) => Ok(Value::Str(s)),
        _ => Err(Failure::UnsupportedValueKind),
    }
}

/// Reads a value from JSON text.
pub fn decode_value(text: &str) -> (r: Result<Value, Failure>)
    ensures
        outcome_view(r) == decode_spec(text@),
{
    match parse_json(text) {
        Ok(json) => json_to_value(json),
        Err(_) => Err(Failure::MalformedJson),
    }
}

/// Writes a value as JSON text. Writing fails only for a number whose
/// numeral is no JSON number.
pub fn encode_value(value: &Value) -> (r: Result<String, Failure>)
    ensures
        text_view(r) == encode_spec(value@),
        writable(value@) ==> r is Ok,
{
    match write_json(value) {
        Ok(text) => Ok(text),
        Err(_) => Err(Failure::Unserializable),
    }
}

} // verus!
