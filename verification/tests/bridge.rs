use substantial::error::Failure;
use substantial::host::{Delivery, Host, HostCall, Resolution};
use substantial::json::Json;
use substantial::promise::{Promise, PromisedResult, Registry};
use substantial::value::Value;
use substantial::Substantial;

fn text(s: &str) -> String {
    s.to_string()
}

#[test]
fn dispatch_records_the_intent_and_issues_fresh_ids() {
    let mut host = Host::new();
    let mut registry = Registry::new();
    let a = host.dispatch(&mut registry, text("sum"), vec![text("1"), text("2")]).unwrap();
    let b = host.concat(&mut registry, vec![text("x")]).unwrap();
    assert_eq!(a.ref_host, "0");
    assert_eq!(a.ref_guest, 1);
    assert_eq!(b.ref_host, "1");
    assert_eq!(b.ref_guest, 2);
    assert_eq!(host.dispatched(), 2);
    let calls = host.take_outbox();
    assert_eq!(
        calls,
        vec![
            HostCall::Dispatch {
                host_ref: text("0"),
                op_name: text("sum"),
                args: vec![text("1"), text("2")]
            },
            HostCall::Dispatch {
                host_ref: text("1"),
                op_name: text("concat"),
                args: vec![text("x")]
            },
        ]
    );
    assert_eq!(host.take_outbox(), vec![]);
}

#[test]
fn correlation_ids_count_in_decimal() {
    let mut host = Host::new();
    let mut registry = Registry::new();
    let mut last = text("");
    for _ in 0..123 {
        last = host.dispatch(&mut registry, text("op"), vec![]).unwrap().ref_host;
    }
    assert_eq!(last, "122");
    assert_eq!(substantial::correlation::correlation_text(0), "0");
    assert_eq!(substantial::correlation::correlation_text(10), "10");
    assert_eq!(substantial::correlation::correlation_text(907), "907");
    assert_eq!(
        substantial::correlation::correlation_text(u64::MAX),
        "18446744073709551615"
    );
}

#[test]
fn print_and_eprint_are_handed_to_the_host() {
    let mut host = Host::new();
    host.print(text("out"));
    host.eprint(text("err"));
    assert_eq!(
        host.take_outbox(),
        vec![HostCall::Print(text("out")), HostCall::Eprint(text("err"))]
    );
}

#[test]
fn resolve_suspends_until_the_host_reports() {
    let mut host = Host::new();
    let mut registry = Registry::new();
    let p = host.concat(&mut registry, vec![]).unwrap();
    assert_eq!(host.resolve(p.ref_host.clone()), Ok(Resolution::Suspended));
    assert_eq!(host.resolve(p.ref_host.clone()), Ok(Resolution::Suspended));
    assert_eq!(host.notify_result(p.ref_host.clone(), text("\"ab\"")), Ok(()));
    assert_eq!(
        host.resolve(p.ref_host.clone()),
        Ok(Resolution::Ready(Delivery::Value(text("\"ab\""))))
    );
}

#[test]
fn second_resolve_is_refused() {
    let mut host = Host::new();
    let mut registry = Registry::new();
    let p = host.concat(&mut registry, vec![]).unwrap();
    host.notify_result(p.ref_host.clone(), text("1")).unwrap();
    assert!(host.resolve(p.ref_host.clone()).is_ok());
    assert_eq!(host.resolve(p.ref_host.clone()), Err(Failure::DoubleResolve));
    assert_eq!(
        host.notify_result(p.ref_host.clone(), text("2")),
        Err(Failure::DoubleResolve)
    );
}

#[test]
fn second_report_is_refused() {
    let mut host = Host::new();
    let mut registry = Registry::new();
    let p = host.concat(&mut registry, vec![]).unwrap();
    assert_eq!(host.notify_error(p.ref_host.clone(), text("\"boom\"")), Ok(()));
    assert_eq!(
        host.notify_result(p.ref_host.clone(), text("1")),
        Err(Failure::DoubleResolve)
    );
    assert_eq!(
        host.resolve(p.ref_host.clone()),
        Ok(Resolution::Ready(Delivery::Error(text("\"boom\""))))
    );
}

#[test]
fn unknown_correlation_id_is_reported() {
    let mut host = Host::new();
    let mut registry = Registry::new();
    assert_eq!(host.resolve(text("0")), Err(Failure::UnknownCorrelationId));
    assert_eq!(host.notify_result(text("0"), text("1")), Err(Failure::UnknownCorrelationId));
    assert_eq!(host.notify_error(text("x"), text("1")), Err(Failure::UnknownCorrelationId));
    assert_eq!(host.cancel(&mut registry, text("0")), Err(Failure::UnknownCorrelationId));
    assert_eq!(host.handle_of(&text("0")), None);
}

#[test]
fn cancel_releases_the_chain_and_forgets_the_id() {
    let mut host = Host::new();
    let mut registry = Registry::new();
    let p = host.concat(&mut registry, vec![]).unwrap();
    let q = host.concat(&mut registry, vec![]).unwrap();
    assert_eq!(host.handle_of(&p.ref_host), Some(1));
    assert_eq!(host.cancel(&mut registry, p.ref_host.clone()), Ok(()));
    assert!(!registry.is_pending(p.ref_guest));
    assert!(registry.is_pending(q.ref_guest));
    assert_eq!(host.handle_of(&p.ref_host), None);
    assert_eq!(host.resolve(p.ref_host.clone()), Err(Failure::UnknownCorrelationId));
    assert_eq!(
        host.notify_result(p.ref_host.clone(), text("1")),
        Err(Failure::UnknownCorrelationId)
    );
    assert_eq!(
        host.cancel(&mut registry, p.ref_host.clone()),
        Err(Failure::UnknownCorrelationId)
    );
    assert_eq!(host.resolve(q.ref_host.clone()), Ok(Resolution::Suspended));
}

#[test]
fn a_taken_outcome_cannot_be_cancelled() {
    let mut host = Host::new();
    let mut registry = Registry::new();
    let p = host.concat(&mut registry, vec![]).unwrap();
    host.notify_result(p.ref_host.clone(), text("1")).unwrap();
    host.resolve(p.ref_host.clone()).unwrap();
    assert_eq!(host.cancel(&mut registry, p.ref_host.clone()), Err(Failure::DoubleResolve));
    assert!(registry.is_pending(p.ref_guest));
}

#[test]
fn concat_then_uppercase_builds_the_chain() {
    let mut host = Host::new();
    let mut registry = Registry::new();
    let promise =
        Substantial::concat_then_uppercase(&mut host, &mut registry, vec![text("a"), text("b")])
            .unwrap();
    assert_eq!(promise, Promise { ref_host: text("0"), ref_guest: 1 });
    assert_eq!(
        host.take_outbox(),
        vec![HostCall::Dispatch {
            host_ref: text("0"),
            op_name: text("concat"),
            args: vec![text("a"), text("b")]
        }]
    );
    let promised = host.acknowledge(promise.ref_host, text("c1")).unwrap();
    assert_eq!(promised, PromisedResult { ref_host: text("c1"), ref_guest: 1 });
    assert_eq!(
        Substantial::evaluate_guest(&registry, promised, text("\"HelloWorld\"")),
        Ok(text("\"HELLOWORLDAB\""))
    );
}

#[test]
fn the_promise_that_leaves_the_guest_carries_the_host_reference() {
    let mut host = Host::new();
    let mut registry = Registry::new();
    let first = host.concat(&mut registry, vec![text("x")]).unwrap();
    let second = host.concat(&mut registry, vec![text("y")]).unwrap();
    assert_eq!(host.correlation_of(&text("h-2")), None);
    assert_eq!(
        host.acknowledge(second.ref_host.clone(), text("h-2")),
        Ok(PromisedResult { ref_host: text("h-2"), ref_guest: 2 })
    );
    assert_eq!(
        host.acknowledge(first.ref_host.clone(), text("h-1")),
        Ok(PromisedResult { ref_host: text("h-1"), ref_guest: 1 })
    );
    assert_eq!(host.correlation_of(&text("h-1")), Some(text("0")));
    assert_eq!(host.correlation_of(&text("h-2")), Some(text("1")));
    assert_eq!(host.correlation_of(&text("0")), None);
    assert_eq!(
        host.acknowledge(first.ref_host.clone(), text("again")),
        Err(Failure::AlreadyAcknowledged)
    );
    assert_eq!(host.acknowledge(text("7"), text("h-7")), Err(Failure::UnknownCorrelationId));
    let id = host.correlation_of(&text("h-2")).unwrap();
    assert_eq!(host.notify_result(id.clone(), text("1")), Ok(()));
    assert_eq!(host.resolve(id), Ok(Resolution::Ready(Delivery::Value(text("1")))));
    assert_eq!(host.cancel(&mut registry, text("0")), Ok(()));
    assert_eq!(host.correlation_of(&text("h-1")), None);
    assert_eq!(host.acknowledge(text("0"), text("late")), Err(Failure::UnknownCorrelationId));
}

#[test]
fn evaluate_guest_reports_each_failure() {
    let mut host = Host::new();
    let mut registry = Registry::new();
    let promise = Substantial::concat_then_uppercase(&mut host, &mut registry, vec![]).unwrap();
    let promised = host.acknowledge(promise.ref_host, text("c1")).unwrap();
    assert_eq!(
        Substantial::evaluate_guest(&registry, promised.clone(), text("not json")),
        Err(Failure::MalformedJson)
    );
    assert_eq!(
        Substantial::evaluate_guest(&registry, promised.clone(), text("null")),
        Err(Failure::UnsupportedValueKind)
    );
    assert_eq!(
        Substantial::evaluate_guest(&registry, promised.clone(), text("[\"a\"]")),
        Err(Failure::UnsupportedValueKind)
    );
    assert_eq!(
        Substantial::evaluate_guest(&registry, promised.clone(), text("3")),
        Err(Failure::TypeMismatch {
            handle: 1,
            expected: substantial::error::Kind::Str,
            actual: substantial::error::Kind::Number
        })
    );
    let unknown = PromisedResult { ref_host: text("5"), ref_guest: 6 };
    assert_eq!(
        Substantial::evaluate_guest(&registry, unknown, text("true")),
        Err(Failure::UnknownCorrelationId)
    );
}

#[test]
fn evaluate_parsed_takes_the_parsed_document() {
    let mut host = Host::new();
    let mut registry = Registry::new();
    let promise = Substantial::concat_then_uppercase(&mut host, &mut registry, vec![]).unwrap();
    let promised = host.acknowledge(promise.ref_host, text("c1")).unwrap();
    assert_eq!(
        Substantial::evaluate_parsed(&registry, &promised, Json::Text(text("q"))),
        Ok(Value::Str(text("QAB")))
    );
    assert_eq!(
        Substantial::evaluate_parsed(&registry, &promised, Json::Object),
        Err(Failure::UnsupportedValueKind)
    );
    assert_eq!(
        Substantial::evaluate_parsed(
            &registry,
            &promised,
            Json::Number { text: text("2.5"), integer: None }
        ),
        Err(Failure::TypeMismatch {
            handle: 1,
            expected: substantial::error::Kind::Str,
            actual: substantial::error::Kind::Number
        })
    );
}
