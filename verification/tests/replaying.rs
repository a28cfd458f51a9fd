use substantial::error::{Failure, Kind};
use substantial::protocol::{Event, EventKind, Timestamp};
use substantial::replay::{replay, Execution, Output};
use substantial::transform::Transform;

fn text(s: &str) -> String {
    s.to_string()
}

fn event(seq: u64, kind: EventKind, payload: &str) -> Event {
    Event {
        run_id: text("run"),
        sequence_number: seq,
        kind,
        payload: text(payload),
        timestamp: Timestamp { millis: seq as i64 },
    }
}

fn history() -> Vec<Event> {
    vec![
        event(0, EventKind::Dispatched { host_ref: text("0") }, "concat Hello World"),
        event(1, EventKind::Attached { host_ref: text("0"), transform: Transform::Uppercase }, ""),
        event(
            2,
            EventKind::Attached { host_ref: text("0"), transform: Transform::Append(text("!")) },
            "",
        ),
        event(3, EventKind::Noted { name: text("tick") }, ""),
        event(4, EventKind::Resolved { host_ref: text("0") }, "\"HelloWorld\""),
        event(5, EventKind::Completed { host_ref: text("0") }, "\"HELLOWORLD!\""),
    ]
}

#[test]
fn replay_rebuilds_the_outputs() {
    let mut execution = replay(&history()).unwrap();
    assert_eq!(
        execution.outputs,
        vec![Output { host_ref: text("0"), value: Ok(text("\"HELLOWORLD!\"")) }]
    );
    assert_eq!(execution.output_of(&text("0")), Some(Ok(text("\"HELLOWORLD!\""))));
    assert_eq!(execution.output_of(&text("1")), None);
    assert_eq!(execution.host.take_outbox(), vec![]);
    assert_eq!(execution.host.resolve(text("0")), Err(Failure::DoubleResolve));
}

#[test]
fn two_replays_of_one_history_agree() {
    let first = replay(&history()).unwrap();
    let second = replay(&history()).unwrap();
    assert_eq!(first.outputs, second.outputs);
    assert_eq!(first.registry.issued(), second.registry.issued());
    assert_eq!(first.host.dispatched(), second.host.dispatched());
}

#[test]
fn replay_then_resume_equals_replay_of_all() {
    let all = history();
    let mut stepwise = replay(&all[..3].to_vec()).unwrap();
    stepwise.resume(&all[3..].to_vec()).unwrap();
    let at_once = replay(&all).unwrap();
    assert_eq!(stepwise.outputs, at_once.outputs);
}

#[test]
fn diverging_completion_is_a_determinism_violation() {
    let mut events = history();
    events[5].payload = text("\"HELLOWORLD?\"");
    assert_eq!(
        replay(&events).err(),
        Some(Failure::DeterminismViolation { sequence_number: 5 })
    );
}

#[test]
fn completion_without_result_is_a_determinism_violation() {
    let events = vec![
        event(0, EventKind::Dispatched { host_ref: text("0") }, ""),
        event(1, EventKind::Completed { host_ref: text("0") }, "1"),
    ];
    assert_eq!(
        replay(&events).err(),
        Some(Failure::DeterminismViolation { sequence_number: 1 })
    );
}

#[test]
fn dispatch_under_another_id_is_a_determinism_violation() {
    let events = vec![event(7, EventKind::Dispatched { host_ref: text("1") }, "")];
    assert_eq!(
        replay(&events).err(),
        Some(Failure::DeterminismViolation { sequence_number: 7 })
    );
}

#[test]
fn replay_stops_at_the_first_failure() {
    let events = vec![
        event(0, EventKind::Resolved { host_ref: text("0") }, "1"),
        event(1, EventKind::Dispatched { host_ref: text("0") }, ""),
    ];
    assert_eq!(replay(&events).err(), Some(Failure::UnknownCorrelationId));
    let events = vec![
        event(0, EventKind::Dispatched { host_ref: text("0") }, ""),
        event(1, EventKind::Resolved { host_ref: text("0") }, "1"),
        event(2, EventKind::Resolved { host_ref: text("0") }, "1"),
    ];
    assert_eq!(replay(&events).err(), Some(Failure::DoubleResolve));
    let events = vec![event(
        0,
        EventKind::Attached { host_ref: text("0"), transform: Transform::Not },
        "",
    )];
    assert_eq!(replay(&events).err(), Some(Failure::UnknownCorrelationId));
}

#[test]
fn failed_evaluation_is_replayed_as_an_output() {
    let events = vec![
        event(0, EventKind::Dispatched { host_ref: text("0") }, ""),
        event(1, EventKind::Attached { host_ref: text("0"), transform: Transform::Add(1) }, ""),
        event(2, EventKind::Resolved { host_ref: text("0") }, "\"seven\""),
    ];
    let execution = replay(&events).unwrap();
    assert_eq!(
        execution.outputs,
        vec![Output {
            host_ref: text("0"),
            value: Err(Failure::TypeMismatch {
                handle: 1,
                expected: Kind::Number,
                actual: Kind::Str
            })
        }]
    );
}

#[test]
fn cancelled_and_failed_operations_are_replayed() {
    let events = vec![
        event(0, EventKind::Dispatched { host_ref: text("0") }, ""),
        event(1, EventKind::Dispatched { host_ref: text("1") }, ""),
        event(2, EventKind::Cancelled { host_ref: text("0") }, ""),
        event(3, EventKind::Failed { host_ref: text("1") }, "\"boom\""),
    ];
    let mut execution = replay(&events).unwrap();
    assert!(!execution.registry.is_pending(1));
    assert!(execution.registry.is_pending(2));
    assert_eq!(execution.host.resolve(text("0")), Err(Failure::UnknownCorrelationId));
    assert_eq!(execution.host.resolve(text("1")), Err(Failure::DoubleResolve));
    assert_eq!(execution.outputs, vec![]);
    let after = vec![event(4, EventKind::Resolved { host_ref: text("0") }, "1")];
    assert_eq!(execution.resume(&after), Err(Failure::UnknownCorrelationId));
}

#[test]
fn the_host_reference_is_rebuilt_from_the_log() {
    let events = vec![
        event(0, EventKind::Dispatched { host_ref: text("0") }, "concat"),
        event(
            1,
            EventKind::Acknowledged { host_ref: text("0"), reference: text("c1") },
            "",
        ),
    ];
    let mut execution = replay(&events).unwrap();
    assert_eq!(execution.host.correlation_of(&text("c1")), Some(text("0")));
    assert_eq!(
        execution.host.acknowledge(text("0"), text("c2")),
        Err(Failure::AlreadyAcknowledged)
    );
    let twice = vec![
        event(0, EventKind::Dispatched { host_ref: text("0") }, "concat"),
        event(1, EventKind::Acknowledged { host_ref: text("0"), reference: text("a") }, ""),
        event(2, EventKind::Acknowledged { host_ref: text("0"), reference: text("b") }, ""),
    ];
    assert_eq!(replay(&twice).err(), Some(Failure::AlreadyAcknowledged));
    let unknown =
        vec![event(0, EventKind::Acknowledged { host_ref: text("3"), reference: text("a") }, "")];
    assert_eq!(replay(&unknown).err(), Some(Failure::UnknownCorrelationId));
}

#[test]
fn a_recorded_number_is_replayed_as_it_came() {
    let events = vec![
        event(0, EventKind::Dispatched { host_ref: text("0") }, "measure"),
        event(1, EventKind::Resolved { host_ref: text("0") }, "2.5"),
        event(2, EventKind::Completed { host_ref: text("0") }, "2.5"),
    ];
    let execution = replay(&events).unwrap();
    assert_eq!(
        execution.outputs,
        vec![Output { host_ref: text("0"), value: Ok(text("2.5")) }]
    );
}

#[test]
fn empty_history_rebuilds_an_empty_execution() {
    let execution = replay(&vec![]).unwrap();
    assert_eq!(execution.outputs, vec![]);
    assert_eq!(execution.registry.issued(), 0);
    assert_eq!(execution.host.dispatched(), 0);
    let fresh = Execution::new();
    assert_eq!(fresh.outputs, execution.outputs);
}

#[test]
fn a_failed_step_leaves_the_execution_as_it_was() {
    let mut execution = Execution::new();
    let bad = event(0, EventKind::Dispatched { host_ref: text("5") }, "");
    assert_eq!(
        execution.apply(&bad),
        Err(Failure::DeterminismViolation { sequence_number: 0 })
    );
    assert_eq!(execution.host.dispatched(), 0);
    assert_eq!(execution.registry.issued(), 0);
    let good = event(0, EventKind::Dispatched { host_ref: text("0") }, "");
    assert_eq!(execution.apply(&good), Ok(()));
    assert_eq!(execution.host.dispatched(), 1);
}
