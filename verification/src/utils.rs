//! The entry points that the guest offers: building chains on dispatched
//! operations, evaluating them on the host's results, and reaching a
//! backend.

use vstd::prelude::*;
use crate::backends::{optional_event_view, schedule_key, Backend};
use crate::correlation::correlation_id;
use crate::error::Failure;
use crate::host::{texts_view, Host};
use crate::json::{writable, Json};
use crate::promise::{Promise, PromisedResult, Registry, RegistryView};
use crate::protocol::{events_view, metadata_view, Event, Metadata, MetadataView, Records, Timestamp};
use crate::transform::{Transform, TransformView};
use crate::value::{
    decode_spec, decode_value, encode_spec, encode_value, json_to_value, outcome_view, text_view,
    value_of_json, Value, ValueView,
};
use crate::Substantial;

verus! {

/// What evaluating the chain of `handle` on a value gives, as JSON text.
pub open spec fn evaluate_value_spec(registry: RegistryView, handle: u32, input: ValueView)
    -> Result<Seq<char>, Failure> {
    match registry.resolve(handle, input) {
        Ok(output) => encode_spec(output),
        Err(e) => Err(e),
    }
}

/// What evaluating the chain of `handle` on the host's JSON text gives, as
/// JSON text: the text is read first, then the chain is folded over the
/// value, then the outcome is written.
pub open spec fn evaluate_spec(registry: RegistryView, handle: u32, text: Seq<char>) -> Result<
    Seq<char>,
    Failure,
> {
    match decode_spec(text) {
        Ok(input) => evaluate_value_spec(registry, handle, input),
        Err(e) => Err(e),
    }
}

/// What evaluating the chain of `handle` on a parsed document gives.
pub open spec fn evaluate_parsed_spec(registry: RegistryView, handle: u32, json: crate::json::JsonView)
    -> Result<ValueView, Failure> {
    match value_of_json(json) {
        Ok(input) => registry.resolve(handle, input),
        Err(e) => Err(e),
    }
}

impl Substantial {
    /// Dispatches the concatenation of `items` and attaches three
    /// transformations to its result: upper case, then an `A` behind it,
    /// then a `B` behind that. The promise names the operation by its
    /// correlation id; once the host has answered the dispatch,
    /// [`Host::acknowledge`] gives the promise that leaves the guest.
    pub fn concat_then_uppercase(
        host: &mut Host,
        registry: &mut Registry,
        items: Vec<String>,
    ) -> (r: Result<Promise, Failure>)
        requires
            old(host)@.wf(),
        ensures
            final(host)@.wf(),
            match r {
                Ok(promised) => {
                    let handle = (old(registry)@.issued() + 1) as u32;
                    &&& old(registry)@.issued() < u32::MAX
                    &&& promised.ref_host@ == correlation_id(old(host)@.entries.len())
                    &&& promised.ref_guest == handle
                    &&& final(host)@ == old(host)@.dispatch(handle, "concat"@, texts_view(items@))
                    &&& final(registry)@ == old(registry)@.register().attach(
                        handle,
                        TransformView::Uppercase,
                    ).attach(handle, TransformView::Append("A"@)).attach(
                        handle,
                        TransformView::Append("B"@),
                    )
                },
                Err(e) => {
                    &&& old(registry)@.issued() >= u32::MAX
                    &&& e == Failure::HandlesExhausted
                    &&& final(registry)@ == old(registry)@
                    &&& final(host)@ == old(host)@
                },
            },
    {
        let promise = match host.concat(registry, items) {
            Ok(promise) => promise,
            Err(e) => {
                return Err(e);
            },
        };
        let promise = match promise.map(registry, Transform::Uppercase) {
            Ok(promise) => promise,
            Err(e) => {
                return Err(e);
            },
        };
        let promise = match promise.map(registry, Transform::Append("A".to_owned())) {
            Ok(promise) => promise,
            Err(e) => {
                return Err(e);
            },
        };
        match promise.map(registry, Transform::Append("B".to_owned())) {
            Ok(promise) => Ok(promise),
            Err(e) => Err(e),
        }
    }

    /// Folds the chain of a promise over the value of a parsed document.
    /// Null, arrays and objects are refused before the registry is asked.
    pub fn evaluate_parsed(registry: &Registry, promised: &PromisedResult, output: Json) -> (r:
        Result<Value, Failure>)
        ensures
            outcome_view(r) == evaluate_parsed_spec(registry@, promised.ref_guest, output@),
    {
        match json_to_value(output) {
            Ok(input) => Promise::resolve(registry, promised.ref_guest, input),
            Err(e) => Err(e),
        }
    }

    /// Evaluates the chain of a promise on the JSON text that the host
    /// supplied, and gives the outcome as JSON text. Once the text is read
    /// and the chain has given its value, writing fails only for a number
    /// whose numeral is no JSON number.
    pub fn evaluate_guest(registry: &Registry, promised: PromisedResult, first_output: String) -> (r:
        Result<String, Failure>)
        ensures
            text_view(r) == evaluate_spec(registry@, promised.ref_guest, first_output@),
            r is Err ==> {
                ||| decode_spec(first_output@) is Err
                ||| registry@.resolve(promised.ref_guest, decode_spec(first_output@)->Ok_0) is Err
                ||| !writable(
                    registry@.resolve(promised.ref_guest, decode_spec(first_output@)->Ok_0)->Ok_0,
                )
            },
    {
        let input = match decode_value(first_output.as_str()) {
            Ok(input) => input,
            Err(e) => {
                return Err(e);
            },
        };
        match Promise::resolve(registry, promised.ref_guest, input) {
            Ok(output) => encode_value(&output),
            Err(e) => Err(e),
        }
    }

    /// The whole history of a run, from whichever backend is given.
    pub fn read_events<B: Backend>(backend: &B, run_id: String) -> (r: Result<Records, Failure>)
        requires
            backend.state().wf(),
        ensures
            match r {
                Ok(records) => events_view(records@) == backend.state().events[run_id@],
                Err(e) => e == Failure::StorageFailure,
            },
    {
        backend.read_events(run_id)
    }

    /// Appends events to the history of a run.
    pub fn write_events<B: Backend>(backend: &mut B, run_id: String, content: Records) -> (r:
        Result<(), Failure>)
        requires
            old(backend).state().wf(),
        ensures
            final(backend).state().wf(),
            match r {
                Ok(()) => final(backend).state() == old(backend).state().append_events(
                    run_id@,
                    events_view(content@),
                ),
                Err(e) => e == Failure::StorageFailure && final(backend).state() == old(
                    backend,
                ).state(),
            },
    {
        backend.write_events(run_id, content)
    }

    /// All annotations of a run.
    pub fn read_all_metadata<B: Backend>(backend: &B, run_id: String) -> (r: Result<
        Vec<Metadata>,
        Failure,
    >)
        requires
            backend.state().wf(),
        ensures
            match r {
                Ok(entries) => metadata_view(entries@) == backend.state().metadata[run_id@],
                Err(e) => e == Failure::StorageFailure,
            },
    {
        backend.read_all_metadata(run_id)
    }

    /// Appends an annotation to a run.
    pub fn append_metadata<B: Backend>(
        backend: &mut B,
        run_id: String,
        schedule: Timestamp,
        content: String,
    ) -> (r: Result<(), Failure>)
        requires
            old(backend).state().wf(),
        ensures
            final(backend).state().wf(),
            match r {
                Ok(()) => final(backend).state() == old(backend).state().append_metadata(
                    MetadataView { run_id: run_id@, timestamp: schedule, content: content@ },
                ),
                Err(e) => e == Failure::StorageFailure && final(backend).state() == old(
                    backend,
                ).state(),
            },
    {
        backend.append_metadata(run_id, schedule, content)
    }

    /// Adds a schedule.
    pub fn add_schedule<B: Backend>(
        backend: &mut B,
        queue: String,
        run_id: String,
        schedule: Timestamp,
        content: Option<Event>,
    ) -> (r: Result<(), Failure>)
        requires
            old(backend).state().wf(),
        ensures
            final(backend).state().wf(),
            match r {
                Ok(()) => {
                    let key = schedule_key(queue@, run_id@, schedule);
                    &&& !(old(backend).state().schedules[key] is Open)
                    &&& final(backend).state() == old(backend).state().add_schedule(
                        key,
                        optional_event_view(content),
                    )
                },
                Err(e) => {
                    &&& final(backend).state() == old(backend).state()
                    &&& e == Failure::DuplicateSchedule || e == Failure::StorageFailure
                    &&& e == Failure::DuplicateSchedule ==> old(backend).state().schedules[schedule_key(
                        queue@,
                        run_id@,
                        schedule,
                    )] is Open
                },
            },
    {
        backend.add_schedule(queue, run_id, schedule, content)
    }

    /// The event of an open schedule.
    pub fn read_schedule<B: Backend>(
        backend: &B,
        queue: String,
        run_id: String,
        schedule: Timestamp,
    ) -> (r: Result<Option<Event>, Failure>)
        requires
            backend.state().wf(),
        ensures
            match r {
                Ok(event) => optional_event_view(event) == backend.state().read_schedule(
                    schedule_key(queue@, run_id@, schedule),
                ),
                Err(e) => e == Failure::StorageFailure,
            },
    {
        backend.read_schedule(queue, run_id, schedule)
    }

    /// Closes a schedule for good.
    pub fn close_schedule<B: Backend>(
        backend: &mut B,
        queue: String,
        run_id: String,
        schedule: Timestamp,
    ) -> (r: Result<(), Failure>)
        requires
            old(backend).state().wf(),
        ensures
            final(backend).state().wf(),
            match r {
                Ok(()) => final(backend).state() == old(backend).state().close_schedule(
                    schedule_key(queue@, run_id@, schedule),
                ),
                Err(e) => e == Failure::StorageFailure && final(backend).state() == old(
                    backend,
                ).state(),
            },
    {
        backend.close_schedule(queue, run_id, schedule)
    }
}

} // verus!
