//! The replay engine: the state of an execution, rebuilt from the events of
//! its run without asking the host for anything.

use vstd::prelude::*;
use crate::backends::Backend;
use crate::correlation::{correlation_id, correlation_text};
use crate::error::Failure;
use crate::host::{
    entry_with, lemma_set_status_keeps_ids, released, texts_view, DeliveryView, Host, HostView,
    Resolution, Status,
};
use crate::promise::{Promise, PromisedResult, Registry, RegistryView};
use crate::protocol::{
    events_view, stamp_all, Event, EventKind, EventKindView, EventView, Timestamp,
};
use crate::table::{find_first, lemma_find_first, lemma_find_first_is};
use crate::utils::evaluate_spec;
use crate::value::text_view;
use crate::Substantial;

verus! {

/// What the chain of an operation gave for the host's result: the final
/// value as JSON text, or the failure of the evaluation.
#[derive(Debug, PartialEq, Eq)]
pub struct Output {
    pub host_ref: String,
    pub value: Result<String, Failure>,
}

/// The mathematical content of an [`Output`].
pub struct OutputView {
    pub host_ref: Seq<char>,
    pub value: Result<Seq<char>, Failure>,
}

impl View for Output {
    type V = OutputView;

    open spec fn view(&self) -> OutputView {
        OutputView { host_ref: self.host_ref@, value: text_view(self.value) }
    }
}

/// The contents of a sequence of outputs, in order.
pub open spec fn outputs_view(outputs: Seq<Output>) -> Seq<OutputView> {
    outputs.map_values(|o: Output| o@)
}

/// The outputs of the operation with a correlation id.
pub open spec fn output_for(id: Seq<char>) -> spec_fn(OutputView) -> bool {
    |output: OutputView| output.host_ref == id
}

/// The state of one execution: its bridge to the host, its continuation
/// registry, and the outputs of the chains evaluated so far, oldest first.
#[derive(Debug)]
pub struct Execution {
    pub host: Host,
    pub registry: Registry,
    pub outputs: Vec<Output>,
}

/// The mathematical content of an [`Execution`].
pub struct ExecutionView {
    pub host: HostView,
    pub registry: RegistryView,
    pub outputs: Seq<OutputView>,
}

impl View for Execution {
    type V = ExecutionView;

    open spec fn view(&self) -> ExecutionView {
        ExecutionView {
            host: self.host@,
            registry: self.registry@,
            outputs: outputs_view(self.outputs@),
        }
    }
}

impl ExecutionView {
    /// The bridge is well formed.
    pub open spec fn wf(self) -> bool {
        self.host.wf()
    }

    /// The state without the calls that wait for the host. Replay rebuilds
    /// a state in which none waits.
    pub open spec fn settled(self) -> ExecutionView {
        ExecutionView { host: HostView { outbox: Seq::empty(), ..self.host }, ..self }
    }

    /// The state after an operation was dispatched: it has a fresh handle
    /// with an empty chain, awaits its outcome, and the host is asked to
    /// run it.
    pub open spec fn dispatched(self, op_name: Seq<char>, args: Seq<Seq<char>>) -> ExecutionView {
        ExecutionView {
            host: self.host.dispatch((self.registry.issued() + 1) as u32, op_name, args),
            registry: self.registry.register(),
            ..self
        }
    }

    /// What the chain of the operation with a correlation id gave, if it
    /// was evaluated.
    pub open spec fn output_of(self, id: Seq<char>) -> Option<Result<Seq<char>, Failure>> {
        match find_first(self.outputs, output_for(id)) {
            Some(i) => Some(self.outputs[i].value),
            None => None,
        }
    }

    /// The state after the host's report for `id` was recorded and taken.
    pub open spec fn delivered(self, id: Seq<char>, delivery: DeliveryView) -> Result<
        ExecutionView,
        Failure,
    > {
        match self.host.notify(id, delivery) {
            Ok(notified) => Ok(
                ExecutionView { host: notified.set_status(id, Status::Taken), ..self },
            ),
            Err(e) => Err(e),
        }
    }

    /// The state after one recorded event, or the failure that ends the
    /// replay.
    ///
    /// A dispatch recreates the operation and its empty chain, and must
    /// carry the correlation id that dispatching would give it now. An
    /// acknowledgement records the host's reference for the operation. An
    /// attachment extends the chain. A result is recorded, taken, and
    /// driven through the chain, whose outcome joins the outputs. A
    /// completion must repeat the output that the chain gave. A failure is
    /// recorded and taken. A cancellation gives the operation up and
    /// releases its chain. Any other event changes nothing.
    pub open spec fn step(self, event: EventView) -> Result<ExecutionView, Failure> {
        match event.kind {
            EventKindView::Dispatched { host_ref } => {
                if self.registry.issued() >= u32::MAX {
                    Err(Failure::HandlesExhausted)
                } else if host_ref != correlation_id(self.host.entries.len()) {
                    Err(Failure::DeterminismViolation { sequence_number: event.sequence_number })
                } else {
                    Ok(
                        ExecutionView {
                            host: self.host.restore((self.registry.issued() + 1) as u32),
                            registry: self.registry.register(),
                            ..self
                        },
                    )
                }
            },
            EventKindView::Acknowledged { host_ref, reference } => {
                match self.host.acknowledge(host_ref, reference) {
                    Ok(host) => Ok(ExecutionView { host, ..self }),
                    Err(e) => Err(e),
                }
            },
            EventKindView::Attached { host_ref, transform } => {
                if self.host.status(host_ref) is None || self.registry.chain_of(
                    self.host.guest_ref(host_ref),
                ) is None {
                    Err(Failure::UnknownCorrelationId)
                } else {
                    Ok(
                        ExecutionView {
                            registry: self.registry.attach(self.host.guest_ref(host_ref), transform),
                            ..self
                        },
                    )
                }
            },
            EventKindView::Resolved { host_ref } => {
                match self.delivered(host_ref, DeliveryView::Value(event.payload)) {
                    Ok(next) => Ok(
                        ExecutionView {
                            outputs: self.outputs.push(
                                OutputView {
                                    host_ref,
                                    value: evaluate_spec(
                                        self.registry,
                                        self.host.guest_ref(host_ref),
                                        event.payload,
                                    ),
                                },
                            ),
                            ..next
                        },
                    ),
                    Err(e) => Err(e),
                }
            },
            EventKindView::Completed { host_ref } => {
                if self.output_of(host_ref) == Some(Ok::<Seq<char>, Failure>(event.payload)) {
                    Ok(self)
                } else {
                    Err(Failure::DeterminismViolation { sequence_number: event.sequence_number })
                }
            },
            EventKindView::Failed { host_ref } => self.delivered(
                host_ref,
                DeliveryView::Error(event.payload),
            ),
            EventKindView::Cancelled { host_ref } => {
                match self.host.cancel(host_ref) {
                    Ok(host) => Ok(
                        ExecutionView {
                            host,
                            registry: released(self.registry, self.host.guest_ref(host_ref)),
                            ..self
                        },
                    ),
                    Err(e) => Err(e),
                }
            },
            EventKindView::Noted { name } => Ok(self),
        }
    }

    /// The state after a sequence of recorded events, taken in order; the
    /// first failure ends it.
    pub open spec fn resume(self, events: Seq<EventView>) -> Result<ExecutionView, Failure>
        decreases events.len(),
    {
        if events.len() == 0 {
            Ok(self)
        } else {
            match self.resume(events.drop_last()) {
                Ok(state) => state.step(events.last()),
                Err(e) => Err(e),
            }
        }
    }
}

/// The state of an execution in which nothing has happened.
pub open spec fn initial() -> ExecutionView {
    ExecutionView {
        host: HostView { entries: Seq::empty(), outbox: Seq::empty() },
        registry: RegistryView { chains: Seq::empty() },
        outputs: Seq::empty(),
    }
}

/// The state that the history of a run rebuilds.
pub open spec fn replay_spec(events: Seq<EventView>) -> Result<ExecutionView, Failure> {
    initial().resume(events)
}

/// Resuming over two stretches of events, one after the other, is resuming
/// over both at once; a failure in the first stretch is the outcome of
/// both.
pub proof fn lemma_resume_concat(
    state: ExecutionView,
    first: Seq<EventView>,
    second: Seq<EventView>,
)
    ensures
        state.resume(first + second) == match state.resume(first) {
            Ok(next) => next.resume(second),
            Err(e) => Err(e),
        },
    decreases second.len(),
{
    if second.len() > 0 {
        assert((first + second).drop_last() =~= first + second.drop_last());
        lemma_resume_concat(state, first, second.drop_last());
    }
}

/// An execution that rebuilt its state from a history and then takes new
/// events is in the state that the longer history rebuilds: nothing
/// tells a replayed execution from one that ran without a break.
pub proof fn lemma_replay_then_resume(history: Seq<EventView>, later: Seq<EventView>)
    ensures
        replay_spec(history + later) == match replay_spec(history) {
            Ok(state) => state.resume(later),
            Err(e) => Err(e),
        },
{
    lemma_resume_concat(initial(), history, later);
}

/// What `replay` promises of its result.
pub open spec fn replayed(events: Seq<EventView>, r: Result<Execution, Failure>) -> bool {
    match r {
        Ok(execution) => replay_spec(events) == Ok::<ExecutionView, Failure>(execution@),
        Err(e) => replay_spec(events) == Err::<ExecutionView, Failure>(e),
    }
}

/// Replay is deterministic: two replays of one history end alike, with the
/// same outputs in the same order, the same chains and the same pending
/// operations, or with the same failure.
pub proof fn lemma_replay_is_deterministic(
    events: Seq<EventView>,
    first: Result<Execution, Failure>,
    second: Result<Execution, Failure>,
)
    requires
        replayed(events, first),
        replayed(events, second),
    ensures
        first is Ok <==> second is Ok,
        first is Ok ==> first->Ok_0@ == second->Ok_0@,
        first is Ok ==> first->Ok_0@.outputs == second->Ok_0@.outputs,
        first is Err ==> first->Err_0 == second->Err_0,
{
}

/// A step reads the kind and the payload of an event: its run and its
/// instant take no part, and its sequence number only names the event in
/// the report of a violation.
pub proof fn lemma_step_reads_kind_and_payload(state: ExecutionView, a: EventView, b: EventView)
    requires
        a.kind == b.kind,
        a.payload == b.payload,
    ensures
        state.step(a) is Ok <==> state.step(b) is Ok,
        state.step(a) is Ok ==> state.step(a) == state.step(b),
        a.sequence_number == b.sequence_number ==> state.step(a) == state.step(b),
{
}

/// No step reads the calls that wait for the host, and none adds one.
pub proof fn lemma_step_ignores_outbox(state: ExecutionView, event: EventView)
    ensures
        state.settled().step(event) == match state.step(event) {
            Ok(next) => Ok::<ExecutionView, Failure>(next.settled()),
            Err(e) => Err(e),
        },
{
}

/// The event that records a dispatch: it names the operation by its
/// correlation id and carries the operation's name.
pub open spec fn dispatch_event(
    host_ref: Seq<char>,
    op_name: Seq<char>,
    run_id: Seq<char>,
    timestamp: Timestamp,
) -> EventView {
    EventView {
        run_id,
        sequence_number: 0,
        kind: EventKindView::Dispatched { host_ref },
        payload: op_name,
        timestamp,
    }
}

/// Dispatching moves the state as the step of the event that records it,
/// but for the call that now waits for the host.
pub proof fn lemma_dispatch_is_its_step(
    state: ExecutionView,
    op_name: Seq<char>,
    args: Seq<Seq<char>>,
    run_id: Seq<char>,
    timestamp: Timestamp,
)
    requires
        state.registry.issued() < u32::MAX,
    ensures
        state.settled().step(
            dispatch_event(correlation_id(state.host.entries.len()), op_name, run_id, timestamp),
        ) == Ok::<ExecutionView, Failure>(state.dispatched(op_name, args).settled()),
{
}

/// An execution that ran without a break and recorded each of its events
/// is in the state that a replay of the record rebuilds, but for the calls
/// that still wait for the host: if the log so far replays to the state of
/// the execution, and the execution takes one more event, then the log
/// with that event appended, stamped by the backend, replays to the new
/// state.
pub proof fn lemma_recorded_run_replays(
    log: Seq<EventView>,
    state: ExecutionView,
    event: EventView,
    run_id: Seq<char>,
)
    requires
        replay_spec(log) == Ok::<ExecutionView, Failure>(state.settled()),
        state.step(event) is Ok,
    ensures
        replay_spec(log + stamp_all(seq![event], run_id, log.len() as int)) == Ok::<
            ExecutionView,
            Failure,
        >(state.step(event)->Ok_0.settled()),
{
    let stamped = stamp_all(seq![event], run_id, log.len() as int);
    let longer = log + stamped;
    assert(longer.drop_last() =~= log);
}

/// The same for a dispatch: the log with the event of the dispatch appended
/// replays to the state after the dispatch, but for the calls that wait for
/// the host.
pub proof fn lemma_recorded_dispatch_replays(
    log: Seq<EventView>,
    state: ExecutionView,
    op_name: Seq<char>,
    args: Seq<Seq<char>>,
    run_id: Seq<char>,
    timestamp: Timestamp,
)
    requires
        replay_spec(log) == Ok::<ExecutionView, Failure>(state.settled()),
        state.registry.issued() < u32::MAX,
    ensures
        replay_spec(
            log + stamp_all(
                seq![
                    dispatch_event(
                        correlation_id(state.host.entries.len()),
                        op_name,
                        run_id,
                        timestamp,
                    ),
                ],
                run_id,
                log.len() as int,
            ),
        ) == Ok::<ExecutionView, Failure>(state.dispatched(op_name, args).settled()),
{
    let event = dispatch_event(correlation_id(state.host.entries.len()), op_name, run_id, timestamp);
    let stamped = stamp_all(seq![event], run_id, log.len() as int);
    let longer = log + stamped;
    assert(longer.drop_last() =~= log);
}

fn same_text(a: &String, b: &String) -> (r: bool)
    ensures
        r == (a@ == b@),
{
    *a == *b
}

impl Execution {
    /// An execution in which nothing has happened.
    pub fn new() -> (r: Execution)
        ensures
            r@ == initial(),
            r@.wf(),
    {
        let r = Execution { host: Host::new(), registry: Registry::new(), outputs: Vec::new() };
        proof {
            assert(r@.outputs =~= Seq::empty());
        }
        r
    }

    /// What the chain of the operation with a correlation id gave, if it
    /// was evaluated.
    pub fn output_of(&self, correlation_id: &String) -> (r: Option<Result<String, Failure>>)
        ensures
            match r {
                Some(value) => self@.output_of(correlation_id@) == Some(text_view(value)),
                None => self@.output_of(correlation_id@) is None,
            },
    {
        let ghost outputs = outputs_view(self.outputs@);
        let mut i: usize = 0;
        while i < self.outputs.len()
            invariant
                i <= self.outputs.len(),
                outputs == outputs_view(self.outputs@),
                forall|k: int| 0 <= k < i ==> !output_for(correlation_id@)(#[trigger] outputs[k]),
            decreases self.outputs.len() - i,
        {
            if same_text(&self.outputs[i].host_ref, correlation_id) {
                proof {
                    lemma_find_first_is(outputs, output_for(correlation_id@), i as int);
                }
                return Some(
                    match &self.outputs[i].value {
                        Ok(text) => Ok(text.clone()),
                        Err(e) => Err(*e),
                    },
                );
            }
            i += 1;
        }
        proof {
            lemma_find_first(outputs, output_for(correlation_id@));
        }
        None
    }

    /// Records what the host reported for an operation and takes it.
    fn deliver(&mut self, host_ref: &String, payload: &String, failed: bool) -> (r: Result<
        (),
        Failure,
    >)
        requires
            old(self)@.wf(),
        ensures
            final(self)@.wf(),
            ({
                let delivery = if failed {
                    DeliveryView::Error(payload@)
                } else {
                    DeliveryView::Value(payload@)
                };
                match r {
                    Ok(()) => old(self)@.delivered(host_ref@, delivery) == Ok::<
                        ExecutionView,
                        Failure,
                    >(final(self)@),
                    Err(e) => old(self)@.delivered(host_ref@, delivery) == Err::<
                        ExecutionView,
                        Failure,
                    >(e) && final(self)@ == old(self)@,
                }
            }),
    {
        let ghost delivery = if failed {
            DeliveryView::Error(payload@)
        } else {
            DeliveryView::Value(payload@)
        };
        let notified = if failed {
            self.host.notify_error(host_ref.clone(), payload.clone())
        } else {
            self.host.notify_result(host_ref.clone(), payload.clone())
        };
        match notified {
            Err(e) => Err(e),
            Ok(()) => {
                proof {
                    lemma_set_status_keeps_ids(
                        old(self)@.host,
                        host_ref@,
                        Status::Ready(delivery),
                        host_ref@,
                    );
                    lemma_find_first(old(self)@.host.entries, entry_with(host_ref@));
                }
                match self.host.resolve(host_ref.clone()) {
                    Ok(_) => Ok(()),
                    Err(e) => Err(e),
                }
            },
        }
    }

    /// Takes one recorded event: the state moves as [`ExecutionView::step`]
    /// says, and a failure leaves it as it was. The host is asked for
    /// nothing.
    pub fn apply(&mut self, event: &Event) -> (r: Result<(), Failure>)
        requires
            old(self)@.wf(),
        ensures
            final(self)@.wf(),
            match r {
                Ok(()) => old(self)@.step(event@) == Ok::<ExecutionView, Failure>(final(self)@),
                Err(e) => {
                    &&& old(self)@.step(event@) == Err::<ExecutionView, Failure>(e)
                    &&& final(self)@ == old(self)@
                },
            },
    {
        match &event.kind {
            EventKind::Dispatched { host_ref } => {
                if self.registry.issued() >= u32::MAX as usize {
                    return Err(Failure::HandlesExhausted);
                }
                let expected = correlation_text(self.host.dispatched() as u64);
                if !same_text(host_ref, &expected) {
                    return Err(
                        Failure::DeterminismViolation { sequence_number: event.sequence_number },
                    );
                }
                match self.host.restore(&mut self.registry) {
                    Ok(_) => Ok(()),
                    Err(e) => Err(e),
                }
            },
            EventKind::Acknowledged { host_ref, reference } => {
                match self.host.acknowledge(host_ref.clone(), reference.clone()) {
                    Ok(_) => Ok(()),
                    Err(e) => Err(e),
                }
            },
            EventKind::Attached { host_ref, transform } => {
                match self.host.handle_of(host_ref) {
                    None => Err(Failure::UnknownCorrelationId),
                    Some(handle) => self.registry.attach(handle, transform.duplicate()),
                }
            },
            EventKind::Resolved { host_ref } => {
                let handle = match self.host.handle_of(host_ref) {
                    None => {
                        return Err(Failure::UnknownCorrelationId);
                    },
                    Some(handle) => handle,
                };
                match self.deliver(host_ref, &event.payload, false) {
                    Err(e) => Err(e),
                    Ok(()) => {
                        let value = Substantial::evaluate_guest(
                            &self.registry,
                            PromisedResult { ref_host: host_ref.clone(), ref_guest: handle },
                            event.payload.clone(),
                        );
                        let ghost before = self.outputs@;
                        self.outputs.push(Output { host_ref: host_ref.clone(), value });
                        proof {
                            assert(outputs_view(self.outputs@) =~= outputs_view(before).push(
                                self.outputs@.last()@,
                            ));
                        }
                        Ok(())
                    },
                }
            },
            EventKind::Completed { host_ref } => {
                let repeated = match self.output_of(host_ref) {
                    Some(Ok(text)) => same_text(&text, &event.payload),
                    _ => false,
                };
                if repeated {
                    Ok(())
                } else {
                    Err(Failure::DeterminismViolation { sequence_number: event.sequence_number })
                }
            },
            EventKind::Failed { host_ref } => self.deliver(host_ref, &event.payload, true),
            EventKind::Cancelled { host_ref } => self.host.cancel(
                &mut self.registry,
                host_ref.clone(),
            ),
            EventKind::Noted { name } => Ok(()),
        }
    }

    /// Takes recorded events in order, and stops at the first failure.
    pub fn resume(&mut self, events: &Vec<Event>) -> (r: Result<(), Failure>)
        requires
            old(self)@.wf(),
        ensures
            final(self)@.wf(),
            match r {
                Ok(()) => old(self)@.resume(events_view(events@)) == Ok::<ExecutionView, Failure>(
                    final(self)@,
                ),
                Err(e) => old(self)@.resume(events_view(events@)) == Err::<ExecutionView, Failure>(e),
            },
    {
        let ghost start = self@;
        let ghost all = events_view(events@);
        let mut i: usize = 0;
        while i < events.len()
            invariant
                i <= events.len(),
                all == events_view(events@),
                start == old(self)@,
                self@.wf(),
                start.resume(all.take(i as int)) == Ok::<ExecutionView, Failure>(self@),
            decreases events.len() - i,
        {
            proof {
                assert(all.take(i + 1).drop_last() =~= all.take(i as int));
            }
            match self.apply(&events[i]) {
                Ok(()) => {},
                Err(e) => {
                    proof {
                        lemma_resume_concat(start, all.take(i + 1), all.skip(i + 1));
                        assert(all.take(i + 1) + all.skip(i + 1) =~= all);
                    }
                    return Err(e);
                },
            }
            i += 1;
        }
        proof {
            assert(all.take(i as int) =~= all);
        }
        Ok(())
    }
}

/// Rebuilds the state of an execution from a history. The events are taken
/// in the order given; nothing is dispatched to the host and nothing is
/// appended. The first failure ends the replay and is its outcome.
pub fn replay(events: &Vec<Event>) -> (r: Result<Execution, Failure>)
    ensures
        replayed(events_view(events@), r),
        r is Ok ==> r->Ok_0@.wf(),
{
    let mut execution = Execution::new();
    match execution.resume(events) {
        Ok(()) => Ok(execution),
        Err(e) => Err(e),
    }
}

/// Resumes a run: reads its whole history from the backend and rebuilds
/// the state of its execution. The backend is only read.
pub fn recover<B: Backend>(backend: &B, run_id: String) -> (r: Result<Execution, Failure>)
    requires
        backend.state().wf(),
    ensures
        match r {
            Ok(execution) => {
                &&& replay_spec(backend.state().events[run_id@]) == Ok::<ExecutionView, Failure>(
                    execution@,
                )
                &&& execution@.wf()
            },
            Err(e) => e == Failure::StorageFailure || replay_spec(backend.state().events[run_id@])
                == Err::<ExecutionView, Failure>(e),
        },
{
    match backend.read_events(run_id) {
        Ok(events) => replay(&events),
        Err(e) => Err(e),
    }
}

/// Takes one event in a running execution and appends it to the log of
/// the run. An event that the execution refuses is not appended and
/// changes nothing. When the backend fails the execution has taken the
/// event and the log has not: the caller appends it again or gives the
/// execution up.
pub fn record<B: Backend>(
    execution: &mut Execution,
    backend: &mut B,
    run_id: String,
    event: Event,
) -> (r: Result<(), Failure>)
    requires
        old(execution)@.wf(),
        old(backend).state().wf(),
    ensures
        final(execution)@.wf(),
        final(backend).state().wf(),
        match r {
            Ok(()) => {
                &&& old(execution)@.step(event@) == Ok::<ExecutionView, Failure>(final(execution)@)
                &&& final(backend).state() == old(backend).state().append_events(
                    run_id@,
                    seq![event@],
                )
            },
            Err(e) => {
                &&& final(backend).state() == old(backend).state()
                &&& if old(execution)@.step(event@) is Ok {
                    &&& e == Failure::StorageFailure
                    &&& old(execution)@.step(event@) == Ok::<ExecutionView, Failure>(
                        final(execution)@,
                    )
                } else {
                    &&& old(execution)@.step(event@) == Err::<ExecutionView, Failure>(e)
                    &&& final(execution)@ == old(execution)@
                }
            },
        },
{
    match execution.apply(&event) {
        Ok(()) => {},
        Err(e) => {
            return Err(e);
        },
    }
    let mut records: Vec<Event> = Vec::new();
    records.push(event);
    proof {
        assert(events_view(records@) =~= seq![event@]);
    }
    backend.write_events(run_id, records)
}

/// Dispatches an operation in a running execution and appends the event
/// that records it to the log of the run. When no handle is left nothing
/// changes. When the backend fails the operation is dispatched and the
/// log has no record of it: the caller appends the event again or gives
/// the execution up.
pub fn dispatch<B: Backend>(
    execution: &mut Execution,
    backend: &mut B,
    run_id: String,
    op_name: String,
    args: Vec<String>,
    timestamp: Timestamp,
) -> (r: Result<Promise, Failure>)
    requires
        old(execution)@.wf(),
        old(backend).state().wf(),
    ensures
        final(execution)@.wf(),
        final(backend).state().wf(),
        match r {
            Ok(promise) => {
                &&& old(execution)@.registry.issued() < u32::MAX
                &&& promise.ref_host@ == correlation_id(old(execution)@.host.entries.len())
                &&& promise.ref_guest == old(execution)@.registry.issued() + 1
                &&& final(execution)@ == old(execution)@.dispatched(op_name@, texts_view(args@))
                &&& final(backend).state() == old(backend).state().append_events(
                    run_id@,
                    seq![dispatch_event(promise.ref_host@, op_name@, run_id@, timestamp)],
                )
            },
            Err(e) => {
                &&& final(backend).state() == old(backend).state()
                &&& if old(execution)@.registry.issued() < u32::MAX {
                    &&& e == Failure::StorageFailure
                    &&& final(execution)@ == old(execution)@.dispatched(op_name@, texts_view(args@))
                } else {
                    &&& e == Failure::HandlesExhausted
                    &&& final(execution)@ == old(execution)@
                }
            },
        },
{
    let payload = op_name.clone();
    let promise = match execution.host.dispatch(&mut execution.registry, op_name, args) {
        Ok(promise) => promise,
        Err(e) => {
            return Err(e);
        },
    };
    let event = Event {
        run_id: run_id.clone(),
        sequence_number: 0,
        kind: EventKind::Dispatched { host_ref: promise.ref_host.clone() },
        payload,
        timestamp,
    };
    let mut records: Vec<Event> = Vec::new();
    let ghost recorded = event@;
    records.push(event);
    proof {
        assert(events_view(records@) =~= seq![recorded]);
    }
    match backend.write_events(run_id, records) {
        Ok(()) => Ok(promise),
        Err(e) => Err(e),
    }
}

} // verus!
