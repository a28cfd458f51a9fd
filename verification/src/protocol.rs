//! What a backend persists: events, metadata and the instants of schedules.

use vstd::prelude::*;
use crate::transform::{Transform, TransformView};

verus! {

/// An instant, in milliseconds since the start of 1970 in UTC.
#[derive(Clone, Copy, PartialEq, Eq, Structural, Debug)]
pub struct Timestamp {
    pub millis: i64,
}

/// What an event records. Every kind that concerns an operation names the
/// operation by its correlation id; the event's payload holds the rest.
#[derive(Debug, Clone, PartialEq, Eq)]
pub enum EventKind {
    /// An operation was handed to the host; the payload is the request.
    Dispatched { host_ref: String },
    /// The host answered the dispatch with the reference under which it
    /// knows the operation.
    Acknowledged { host_ref: String, reference: String },
    /// A transformation was attached to the operation's chain.
    Attached { host_ref: String, transform: Transform },
    /// The host supplied the operation's result; the payload is its JSON text.
    Resolved { host_ref: String },
    /// The chain gave its final value; the payload is its JSON text.
    Completed { host_ref: String },
    /// The host reported that the operation failed; the payload is the error.
    Failed { host_ref: String },
    /// The caller gave the operation up before its result came.
    Cancelled { host_ref: String },
    /// Any other fact of the run, under a name of the caller's choice.
    Noted { name: String },
}

/// The mathematical content of an [`EventKind`].
pub enum EventKindView {
    Dispatched { host_ref: Seq<char> },
    Acknowledged { host_ref: Seq<char>, reference: Seq<char> },
    Attached { host_ref: Seq<char>, transform: TransformView },
    Resolved { host_ref: Seq<char> },
    Completed { host_ref: Seq<char> },
    Failed { host_ref: Seq<char> },
    Cancelled { host_ref: Seq<char> },
    Noted { name: Seq<char> },
}

impl View for EventKind {
    type V = EventKindView;

    open spec fn view(&self) -> EventKindView {
        match *self {
            EventKind::Dispatched { host_ref } => EventKindView::Dispatched { host_ref: host_ref@ },
            EventKind::Acknowledged { host_ref, reference } => EventKindView::Acknowledged {
                host_ref: host_ref@,
                reference: reference@,
            },
            EventKind::Attached { host_ref, transform } => EventKindView::Attached {
                host_ref: host_ref@,
                transform: transform@,
            },
            EventKind::Resolved { host_ref } => EventKindView::Resolved { host_ref: host_ref@ },
            EventKind::Completed { host_ref } => EventKindView::Completed { host_ref: host_ref@ },
            EventKind::Failed { host_ref } => EventKindView::Failed { host_ref: host_ref@ },
            EventKind::Cancelled { host_ref } => EventKindView::Cancelled { host_ref: host_ref@ },
            EventKind::Noted { name } => EventKindView::Noted { name: name@ },
        }
    }
}

impl EventKind {
    /// A copy with the same content.
    pub fn duplicate(&self) -> (r: EventKind)
        ensures
            r@ == self@,
    {
        match self {
            EventKind::Dispatched { host_ref } => EventKind::Dispatched {
                host_ref: host_ref.clone(),
            },
            EventKind::Acknowledged { host_ref, reference } => EventKind::Acknowledged {
                host_ref: host_ref.clone(),
                reference: reference.clone(),
            },
            EventKind::Attached { host_ref, transform } => EventKind::Attached {
                host_ref: host_ref.clone(),
                transform: transform.duplicate(),
            },
            EventKind::Resolved { host_ref } => EventKind::Resolved { host_ref: host_ref.clone() },
            EventKind::Completed { host_ref } => EventKind::Completed {
                host_ref: host_ref.clone(),
            },
            EventKind::Failed { host_ref } => EventKind::Failed { host_ref: host_ref.clone() },
            EventKind::Cancelled { host_ref } => EventKind::Cancelled {
                host_ref: host_ref.clone(),
            },
            EventKind::Noted { name } => EventKind::Noted { name: name.clone() },
        }
    }
}

/// One immutable fact of a run's history. The backend sets `run_id` and
/// `sequence_number` when it appends the event.
#[derive(Debug, Clone, PartialEq, Eq)]
pub struct Event {
    pub run_id: String,
    pub sequence_number: u64,
    pub kind: EventKind,
    pub payload: String,
    pub timestamp: Timestamp,
}

/// The mathematical content of an [`Event`].
pub struct EventView {
    pub run_id: Seq<char>,
    pub sequence_number: u64,
    pub kind: EventKindView,
    pub payload: Seq<char>,
    pub timestamp: Timestamp,
}

impl EventView {
    /// The event as the backend stores it at position `index` of the log of
    /// `run_id`.
    pub open spec fn stamped(self, run_id: Seq<char>, index: int) -> EventView {
        EventView { run_id, sequence_number: index as u64, ..self }
    }
}

impl View for Event {
    type V = EventView;

    open spec fn view(&self) -> EventView {
        EventView {
            run_id: self.run_id@,
            sequence_number: self.sequence_number,
            kind: self.kind@,
            payload: self.payload@,
            timestamp: self.timestamp,
        }
    }
}

impl Event {
    /// A copy with the same content.
    pub fn duplicate(&self) -> (r: Event)
        ensures
            r@ == self@,
    {
        Event {
            run_id: self.run_id.clone(),
            sequence_number: self.sequence_number,
            kind: self.kind.duplicate(),
            payload: self.payload.clone(),
            timestamp: self.timestamp,
        }
    }
}

/// The ordered events of one run.
pub type Records = Vec<Event>;

/// The contents of a sequence of events, in order.
pub open spec fn events_view(events: Seq<Event>) -> Seq<EventView> {
    events.map_values(|e: Event| e@)
}

/// The events `records` as the backend stores them behind a log that
/// already holds `start` events of `run_id`.
pub open spec fn stamp_all(records: Seq<EventView>, run_id: Seq<char>, start: int) -> Seq<
    EventView,
> {
    Seq::new(records.len(), |i: int| records[i].stamped(run_id, start + i))
}

/// A log of `run_id` in which the event at each position carries that
/// position as its sequence number: the numbers start at 0, rise by one
/// and leave no gap.
pub open spec fn sequenced(log: Seq<EventView>, run_id: Seq<char>) -> bool {
    forall|i: int|
        0 <= i < log.len() ==> (#[trigger] log[i]).sequence_number == i && log[i].run_id == run_id
}

/// Copies a sequence of events.
pub fn duplicate_events(events: &Vec<Event>) -> (r: Vec<Event>)
    ensures
        events_view(r@) == events_view(events@),
{
    let mut copy: Vec<Event> = Vec::new();
    let mut i: usize = 0;
    while i < events.len()
        invariant
            i <= events.len(),
            copy.len() == i,
            forall|k: int| 0 <= k < i ==> copy@[k]@ == events@[k]@,
        decreases events.len() - i,
    {
        copy.push(events[i].duplicate());
        i += 1;
    }
    copy
}

/// A free-form annotation of a run. It takes no part in replay.
#[derive(Debug, Clone, PartialEq, Eq)]
pub struct Metadata {
    pub run_id: String,
    pub timestamp: Timestamp,
    pub content: String,
}

/// The mathematical content of a [`Metadata`].
pub struct MetadataView {
    pub run_id: Seq<char>,
    pub timestamp: Timestamp,
    pub content: Seq<char>,
}

impl View for Metadata {
    type V = MetadataView;

    open spec fn view(&self) -> MetadataView {
        MetadataView { run_id: self.run_id@, timestamp: self.timestamp, content: self.content@ }
    }
}

impl Metadata {
    /// A copy with the same content.
    pub fn duplicate(&self) -> (r: Metadata)
        ensures
            r@ == self@,
    {
        Metadata {
            run_id: self.run_id.clone(),
            timestamp: self.timestamp,
            content: self.content.clone(),
        }
    }
}

/// The contents of a sequence of annotations, in order.
pub open spec fn metadata_view(entries: Seq<Metadata>) -> Seq<MetadataView> {
    entries.map_values(|m: Metadata| m@)
}

/// What identifies a schedule: its queue, its run and the instant at which
/// it fires.
pub struct ScheduleKey {
    pub queue: Seq<char>,
    pub run_id: Seq<char>,
    pub fire_at: Timestamp,
}

/// The state of the schedule under one key.
pub enum ScheduleState {
    /// No schedule was ever added under the key.
    Absent,
    /// The schedule waits to fire, with the event that it will inject.
    Open(Option<EventView>),
    /// The schedule was closed. This state is final.
    Closed,
}

} // verus!
