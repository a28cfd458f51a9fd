use substantial::backends::fs::Fs;
use substantial::backends::Backend;
use substantial::error::Failure;
use substantial::host::HostCall;
use substantial::protocol::{Event, EventKind, Timestamp};
use substantial::replay::{dispatch, record, recover, Execution};
use substantial::transform::Transform;

fn text(s: &str) -> String {
    s.to_string()
}

fn event(kind: EventKind, payload: &str, millis: i64) -> Event {
    Event {
        run_id: text(""),
        sequence_number: 0,
        kind,
        payload: text(payload),
        timestamp: Timestamp { millis },
    }
}

#[test]
fn a_recorded_run_is_recovered_from_its_log() {
    let mut fs = Fs::new();
    let mut live = Execution::new();
    let h1 = dispatch(
        &mut live,
        &mut fs,
        text("run-7"),
        text("concat"),
        vec![text("Hello"), text("World")],
        Timestamp { millis: 1 },
    )
    .unwrap();
    assert_eq!(h1.ref_host, "0");
    assert_eq!(h1.ref_guest, 1);
    record(
        &mut live,
        &mut fs,
        text("run-7"),
        event(
            EventKind::Attached { host_ref: h1.ref_host.clone(), transform: Transform::Uppercase },
            "",
            2,
        ),
    )
    .unwrap();
    record(
        &mut live,
        &mut fs,
        text("run-7"),
        event(
            EventKind::Attached {
                host_ref: h1.ref_host.clone(),
                transform: Transform::Append(text("!")),
            },
            "",
            3,
        ),
    )
    .unwrap();
    record(
        &mut live,
        &mut fs,
        text("run-7"),
        event(EventKind::Resolved { host_ref: h1.ref_host.clone() }, "\"HelloWorld\"", 4),
    )
    .unwrap();
    let output = live.output_of(&h1.ref_host).unwrap().unwrap();
    assert_eq!(output, "\"HELLOWORLD!\"");
    record(
        &mut live,
        &mut fs,
        text("run-7"),
        event(EventKind::Completed { host_ref: h1.ref_host.clone() }, &output, 5),
    )
    .unwrap();

    let log = fs.read_events(text("run-7")).unwrap();
    assert_eq!(log.len(), 5);
    for (i, stored) in log.iter().enumerate() {
        assert_eq!(stored.sequence_number, i as u64);
        assert_eq!(stored.run_id, "run-7");
    }
    assert_eq!(log[0].kind, EventKind::Dispatched { host_ref: text("0") });
    assert_eq!(log[0].payload, "concat");

    let mut recovered = recover(&fs, text("run-7")).unwrap();
    assert_eq!(recovered.outputs, live.outputs);
    assert_eq!(recovered.registry.issued(), live.registry.issued());
    assert_eq!(recovered.host.dispatched(), live.host.dispatched());
    assert_eq!(recovered.host.take_outbox(), vec![]);
    assert_eq!(
        live.host.take_outbox(),
        vec![HostCall::Dispatch {
            host_ref: text("0"),
            op_name: text("concat"),
            args: vec![text("Hello"), text("World")]
        }]
    );
    assert_eq!(fs.read_events(text("run-7")).unwrap(), log);
}

#[test]
fn a_refused_event_is_not_recorded() {
    let mut fs = Fs::new();
    let mut live = Execution::new();
    assert_eq!(
        record(
            &mut live,
            &mut fs,
            text("r"),
            event(EventKind::Resolved { host_ref: text("0") }, "1", 1),
        ),
        Err(Failure::UnknownCorrelationId)
    );
    assert_eq!(fs.read_events(text("r")), Ok(vec![]));
    assert_eq!(live.host.dispatched(), 0);
}

#[test]
fn a_wrong_completion_is_refused_while_running() {
    let mut fs = Fs::new();
    let mut live = Execution::new();
    let p = dispatch(&mut live, &mut fs, text("r"), text("op"), vec![], Timestamp { millis: 1 })
        .unwrap();
    record(
        &mut live,
        &mut fs,
        text("r"),
        event(EventKind::Resolved { host_ref: p.ref_host.clone() }, "41", 2),
    )
    .unwrap();
    assert_eq!(
        record(
            &mut live,
            &mut fs,
            text("r"),
            event(EventKind::Completed { host_ref: p.ref_host.clone() }, "42", 3),
        ),
        Err(Failure::DeterminismViolation { sequence_number: 0 })
    );
    assert_eq!(fs.read_events(text("r")).unwrap().len(), 2);
}

#[test]
fn recovering_an_unknown_run_gives_an_empty_execution() {
    let fs = Fs::new();
    let recovered = recover(&fs, text("nobody")).unwrap();
    assert_eq!(recovered.outputs, vec![]);
    assert_eq!(recovered.host.dispatched(), 0);
}

#[test]
fn runs_in_one_process_do_not_share_handles() {
    let mut fs = Fs::new();
    let mut first = Execution::new();
    let mut second = Execution::new();
    let a = dispatch(&mut first, &mut fs, text("a"), text("op"), vec![], Timestamp { millis: 1 })
        .unwrap();
    let b = dispatch(&mut second, &mut fs, text("b"), text("op"), vec![], Timestamp { millis: 1 })
        .unwrap();
    assert_eq!(a, b);
    record(
        &mut first,
        &mut fs,
        text("a"),
        event(EventKind::Attached { host_ref: text("0"), transform: Transform::Not }, "", 2),
    )
    .unwrap();
    record(
        &mut second,
        &mut fs,
        text("b"),
        event(EventKind::Resolved { host_ref: text("0") }, "true", 2),
    )
    .unwrap();
    assert_eq!(second.output_of(&text("0")), Some(Ok(text("true"))));
    assert_eq!(first.output_of(&text("0")), None);
}

#[test]
fn a_recorded_acknowledgement_is_recovered() {
    let mut fs = Fs::new();
    let mut live = Execution::new();
    let p = dispatch(&mut live, &mut fs, text("r"), text("concat"), vec![], Timestamp { millis: 1 })
        .unwrap();
    record(
        &mut live,
        &mut fs,
        text("r"),
        event(
            EventKind::Acknowledged { host_ref: p.ref_host.clone(), reference: text("c1") },
            "",
            2,
        ),
    )
    .unwrap();
    assert_eq!(live.host.correlation_of(&text("c1")), Some(text("0")));
    let recovered = recover(&fs, text("r")).unwrap();
    assert_eq!(recovered.host.correlation_of(&text("c1")), Some(text("0")));
    assert_eq!(recovered.host.handle_of(&text("0")), Some(p.ref_guest));
}
