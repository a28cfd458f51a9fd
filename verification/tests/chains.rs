use substantial::error::{Failure, Kind};
use substantial::promise::{Promise, PromisedResult, Registry};
use substantial::transform::{run_chain, Mismatch, Transform};
use substantial::value::{decode_value, encode_value, json_to_value, Number, Value};
use substantial::json::Json;

fn text(s: &str) -> String {
    s.to_string()
}

#[test]
fn transforms_apply_in_registration_order() {
    let mut registry = Registry::new();
    let promise = Promise::bind(&mut registry, text("0")).unwrap();
    let promise = promise.map(&mut registry, Transform::Append(text("1"))).unwrap();
    let promise = promise.map(&mut registry, Transform::Prepend(text("<"))).unwrap();
    let promise = promise.map(&mut registry, Transform::Append(text("2"))).unwrap();
    let out = Promise::resolve(&registry, promise.ref_guest, Value::Str(text("x"))).unwrap();
    assert_eq!(out, Value::Str(text("<x12")));
}

#[test]
fn uppercase_then_append_gives_the_final_value() {
    let mut registry = Registry::new();
    let h1 = Promise::bind(&mut registry, text("0")).unwrap();
    let h1 = h1.map(&mut registry, Transform::Uppercase).unwrap();
    let h1 = h1.map(&mut registry, Transform::Append(text("!"))).unwrap();
    let out = Promise::resolve(&registry, h1.ref_guest, Value::Str(text("HelloWorld"))).unwrap();
    assert_eq!(out, Value::Str(text("HELLOWORLD!")));
}

#[test]
fn resolving_an_unknown_handle_is_reported() {
    let registry = Registry::new();
    assert_eq!(
        Promise::resolve(&registry, 1, Value::Bool(true)),
        Err(Failure::UnknownCorrelationId)
    );
    assert_eq!(
        Promise::resolve(&registry, 0, Value::Bool(true)),
        Err(Failure::UnknownCorrelationId)
    );
    let mut registry = Registry::new();
    let promise = Promise::bind(&mut registry, text("0")).unwrap();
    assert_eq!(promise.ref_guest, 1);
    assert_eq!(
        Promise::resolve(&registry, 2, Value::Number(Number::Integer(1))),
        Err(Failure::UnknownCorrelationId)
    );
}

#[test]
fn number_chain_refuses_a_string() {
    let mut registry = Registry::new();
    let promise = Promise::bind(&mut registry, text("0")).unwrap();
    let promise = promise.map(&mut registry, Transform::Add(1)).unwrap();
    assert_eq!(
        Promise::resolve(&registry, promise.ref_guest, Value::Str(text("seven"))),
        Err(Failure::TypeMismatch { handle: 1, expected: Kind::Number, actual: Kind::Str })
    );
    assert_eq!(
        Promise::resolve(&registry, promise.ref_guest, Value::Number(Number::Integer(6))),
        Ok(Value::Number(Number::Integer(7)))
    );
}

#[test]
fn mismatch_in_the_middle_of_a_chain_is_reported() {
    let chain = vec![Transform::Not, Transform::Uppercase, Transform::Not];
    assert_eq!(
        run_chain(&chain, Value::Bool(true)),
        Err(Mismatch { expected: Kind::Str, actual: Kind::Bool })
    );
}

#[test]
fn empty_chain_gives_the_input_back() {
    let mut registry = Registry::new();
    let promise = Promise::bind(&mut registry, text("0")).unwrap();
    assert_eq!(
        Promise::resolve(&registry, promise.ref_guest, Value::Number(Number::Integer(-3))),
        Ok(Value::Number(Number::Integer(-3)))
    );
}

#[test]
fn resolve_gives_the_same_output_again() {
    let mut registry = Registry::new();
    let promise = Promise::bind(&mut registry, text("0")).unwrap();
    let promise = promise.map(&mut registry, Transform::Not).unwrap();
    let first = Promise::resolve(&registry, promise.ref_guest, Value::Bool(false));
    let second = Promise::resolve(&registry, promise.ref_guest, Value::Bool(false));
    assert_eq!(first, Ok(Value::Bool(true)));
    assert_eq!(first, second);
}

#[test]
fn each_transform_computes_its_function() {
    assert_eq!(Transform::Not.apply(Value::Bool(true)), Ok(Value::Bool(false)));
    assert_eq!(Transform::Add(5).apply(Value::Number(Number::Integer(37))), Ok(Value::Number(Number::Integer(42))));
    assert_eq!(Transform::Add(-5).apply(Value::Number(Number::Integer(2))), Ok(Value::Number(Number::Integer(-3))));
    assert_eq!(
        Transform::Uppercase.apply(Value::Str(text("straße é"))),
        Ok(Value::Str(text("STRASSE É")))
    );
    assert_eq!(
        Transform::Append(text("b")).apply(Value::Str(text("a"))),
        Ok(Value::Str(text("ab")))
    );
    assert_eq!(
        Transform::Prepend(text("b")).apply(Value::Str(text("a"))),
        Ok(Value::Str(text("ba")))
    );
    assert_eq!(Transform::Not.input_kind(), Kind::Bool);
    assert_eq!(Transform::Add(0).input_kind(), Kind::Number);
    assert_eq!(Transform::Uppercase.input_kind(), Kind::Str);
}

#[test]
fn addition_stops_at_the_bounds() {
    assert_eq!(Transform::Add(1).apply(Value::Number(Number::Integer(i64::MAX))), Ok(Value::Number(Number::Integer(i64::MAX))));
    assert_eq!(Transform::Add(-1).apply(Value::Number(Number::Integer(i64::MIN))), Ok(Value::Number(Number::Integer(i64::MIN))));
    assert_eq!(
        Transform::Add(i64::MIN).apply(Value::Number(Number::Integer(i64::MAX))),
        Ok(Value::Number(Number::Integer(-1)))
    );
}

#[test]
fn attaching_to_an_unknown_or_released_handle_fails() {
    let mut registry = Registry::new();
    let ghost = Promise { ref_host: text("9"), ref_guest: 9 };
    assert_eq!(ghost.map(&mut registry, Transform::Not), Err(Failure::UnknownCorrelationId));
    let promise = Promise::bind(&mut registry, text("0")).unwrap();
    assert!(registry.is_pending(promise.ref_guest));
    assert_eq!(registry.release(promise.ref_guest), Ok(()));
    assert!(!registry.is_pending(promise.ref_guest));
    assert_eq!(registry.release(promise.ref_guest), Err(Failure::UnknownCorrelationId));
    assert_eq!(registry.attach(1, Transform::Not), Err(Failure::UnknownCorrelationId));
    assert_eq!(
        registry.resolve(1, Value::Bool(true)),
        Err(Failure::UnknownCorrelationId)
    );
    let next = Promise::bind(&mut registry, text("1")).unwrap();
    assert_eq!(next.ref_guest, 2);
    assert_eq!(registry.issued(), 2);
}

#[test]
fn chains_of_different_handles_do_not_mix() {
    let mut registry = Registry::new();
    let a = Promise::bind(&mut registry, text("0")).unwrap();
    let b = Promise::bind(&mut registry, text("1")).unwrap();
    let a = a.map(&mut registry, Transform::Append(text("a"))).unwrap();
    let b = b.map(&mut registry, Transform::Append(text("b"))).unwrap();
    assert_eq!(
        registry.resolve(a.ref_guest, Value::Str(text("x"))),
        Ok(Value::Str(text("xa")))
    );
    assert_eq!(
        registry.resolve(b.ref_guest, Value::Str(text("x"))),
        Ok(Value::Str(text("xb")))
    );
}

#[test]
fn promise_crosses_the_boundary_unchanged() {
    let promise = Promise { ref_host: text("12"), ref_guest: 4 };
    let promised: PromisedResult = promise.into();
    assert_eq!(promised, PromisedResult { ref_host: text("12"), ref_guest: 4 });
}

#[test]
fn json_text_becomes_a_value() {
    assert_eq!(decode_value("true"), Ok(Value::Bool(true)));
    assert_eq!(decode_value(" 42 "), Ok(Value::Number(Number::Integer(42))));
    assert_eq!(decode_value("-7"), Ok(Value::Number(Number::Integer(-7))));
    assert_eq!(decode_value("\"a\\nb\""), Ok(Value::Str(text("a\nb"))));
}

#[test]
fn unsupported_json_is_refused() {
    assert_eq!(decode_value("null"), Err(Failure::UnsupportedValueKind));
    assert_eq!(decode_value("[1,2]"), Err(Failure::UnsupportedValueKind));
    assert_eq!(decode_value("{\"a\":1}"), Err(Failure::UnsupportedValueKind));
    assert_eq!(json_to_value(Json::Null), Err(Failure::UnsupportedValueKind));
    assert_eq!(json_to_value(Json::Array), Err(Failure::UnsupportedValueKind));
    assert_eq!(json_to_value(Json::Object), Err(Failure::UnsupportedValueKind));
    assert_eq!(json_to_value(Json::Bool(false)), Ok(Value::Bool(false)));
    assert_eq!(json_to_value(Json::Text(text("t"))), Ok(Value::Str(text("t"))));
}

#[test]
fn every_json_number_is_a_value() {
    assert_eq!(decode_value("1.5"), Ok(Value::Number(Number::Numeral(text("1.5")))));
    assert_eq!(decode_value("2.5").map(|v| v.kind()), Ok(Kind::Number));
    assert_eq!(
        decode_value("18446744073709551615"),
        Ok(Value::Number(Number::Numeral(text("18446744073709551615"))))
    );
    assert_eq!(decode_value("1e3"), Ok(Value::Number(Number::Numeral(text("1000.0")))));
    assert_eq!(
        decode_value("9223372036854775807"),
        Ok(Value::Number(Number::Integer(i64::MAX)))
    );
    assert_eq!(decode_value("-0"), Ok(Value::Number(Number::Numeral(text("-0.0")))));
    assert_eq!(
        json_to_value(Json::Number { text: text("3"), integer: Some(3) }),
        Ok(Value::Number(Number::Integer(3)))
    );
    assert_eq!(
        json_to_value(Json::Number { text: text("0.25"), integer: None }),
        Ok(Value::Number(Number::Numeral(text("0.25"))))
    );
}

#[test]
fn a_number_passes_an_empty_chain_unchanged() {
    let mut registry = Registry::new();
    let promise = Promise::bind(&mut registry, text("n")).unwrap();
    let promised: PromisedResult = promise.into();
    assert_eq!(
        substantial::Substantial::evaluate_guest(&registry, promised.clone(), text("2.5")),
        Ok(text("2.5"))
    );
    assert_eq!(
        substantial::Substantial::evaluate_guest(&registry, promised.clone(), text("-7")),
        Ok(text("-7"))
    );
    assert_eq!(
        substantial::Substantial::evaluate_guest(
            &registry,
            promised,
            text("18446744073709551615")
        ),
        Ok(text("18446744073709551615"))
    );
}

#[test]
fn addition_leaves_a_number_without_integer_value() {
    assert_eq!(
        Transform::Add(1).apply(Value::Number(Number::Numeral(text("2.5")))),
        Ok(Value::Number(Number::Numeral(text("2.5"))))
    );
    assert_eq!(
        Transform::Not.apply(Value::Number(Number::Numeral(text("2.5")))),
        Err(Mismatch { expected: Kind::Bool, actual: Kind::Number })
    );
}

#[test]
fn a_numeral_that_is_no_number_cannot_be_written() {
    assert_eq!(
        encode_value(&Value::Number(Number::Numeral(text("two")))),
        Err(Failure::Unserializable)
    );
    assert_eq!(encode_value(&Value::Number(Number::Numeral(text("")))), Err(Failure::Unserializable));
    assert_eq!(encode_value(&Value::Number(Number::Numeral(text("0.5")))), Ok(text("0.5")));
}

#[test]
fn malformed_json_is_refused() {
    assert_eq!(decode_value("{"), Err(Failure::MalformedJson));
    assert_eq!(decode_value(""), Err(Failure::MalformedJson));
    assert_eq!(decode_value("tru"), Err(Failure::MalformedJson));
}

#[test]
fn values_are_written_as_json() {
    assert_eq!(encode_value(&Value::Bool(false)), Ok(text("false")));
    assert_eq!(encode_value(&Value::Number(Number::Integer(-12))), Ok(text("-12")));
    assert_eq!(encode_value(&Value::Str(text("a\"b"))), Ok(text("\"a\\\"b\"")));
    assert_eq!(Value::Str(text("k")).kind(), Kind::Str);
    assert_eq!(Value::Number(Number::Integer(1)).duplicate(), Value::Number(Number::Integer(1)));
}
