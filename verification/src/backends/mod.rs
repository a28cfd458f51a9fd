//! The storage contract: what every backend keeps for a run, and how each
//! operation changes it.

use vstd::prelude::*;
use crate::error::Failure;
use crate::protocol::{
    events_view, metadata_view, sequenced, stamp_all, Event, EventView, Metadata, MetadataView,
    Records, ScheduleKey, ScheduleState, Timestamp,
};

pub mod fs;

verus! {

/// The content of an event that may be absent.
pub open spec fn optional_event_view(event: Option<Event>) -> Option<EventView> {
    match event {
        Some(e) => Some(e@),
        None => None,
    }
}

/// The key of the schedule of `run_id` in `queue` that fires at `fire_at`.
pub open spec fn schedule_key(queue: Seq<char>, run_id: Seq<char>, fire_at: Timestamp)
    -> ScheduleKey {
    ScheduleKey { queue, run_id, fire_at }
}

/// The state that a backend keeps, as a mathematical value: for every
/// run its log and its annotations, oldest first and empty for an unknown
/// run, and for every key the state of its schedule. The three maps are
/// total.
pub struct StorageView {
    pub events: Map<Seq<char>, Seq<EventView>>,
    pub metadata: Map<Seq<char>, Seq<MetadataView>>,
    pub schedules: Map<ScheduleKey, ScheduleState>,
}

impl StorageView {
    /// The state of a backend that holds nothing.
    pub open spec fn empty() -> StorageView {
        StorageView {
            events: Map::total(|run_id: Seq<char>| Seq::<EventView>::empty()),
            metadata: Map::total(|run_id: Seq<char>| Seq::<MetadataView>::empty()),
            schedules: Map::total(|key: ScheduleKey| ScheduleState::Absent),
        }
    }

    /// The maps are total, and in every log the events carry their run and
    /// their positions: sequence numbers start at 0, rise by one and leave
    /// no gap.
    pub open spec fn wf(self) -> bool {
        &&& self.events.dom() == Set::<Seq<char>>::full()
        &&& self.metadata.dom() == Set::<Seq<char>>::full()
        &&& self.schedules.dom() == Set::<ScheduleKey>::full()
        &&& forall|run_id: Seq<char>| sequenced(#[trigger] self.events[run_id], run_id)
    }

    /// The state after `records` were appended to the log of `run_id`, each
    /// stamped with the run and its position.
    pub open spec fn append_events(self, run_id: Seq<char>, records: Seq<EventView>) -> StorageView {
        StorageView {
            events: self.events.insert(
                run_id,
                self.events[run_id] + stamp_all(records, run_id, self.events[run_id].len() as int),
            ),
            ..self
        }
    }

    /// The state after one annotation was appended to those of its run.
    pub open spec fn append_metadata(self, entry: MetadataView) -> StorageView {
        StorageView {
            metadata: self.metadata.insert(entry.run_id, self.metadata[entry.run_id].push(entry)),
            ..self
        }
    }

    /// The state after a schedule with `event` was added under `key`: an
    /// absent schedule opens, a closed one stays closed.
    pub open spec fn add_schedule(self, key: ScheduleKey, event: Option<EventView>) -> StorageView {
        StorageView {
            schedules: self.schedules.insert(key, after_add(self.schedules[key], event)),
            ..self
        }
    }

    /// The state after the schedule under `key` was closed.
    pub open spec fn close_schedule(self, key: ScheduleKey) -> StorageView {
        StorageView {
            schedules: self.schedules.insert(key, after_close(self.schedules[key])),
            ..self
        }
    }

    /// What reading the schedule under `key` gives.
    pub open spec fn read_schedule(self, key: ScheduleKey) -> Option<EventView> {
        schedule_event(self.schedules[key])
    }
}

/// The state in which adding a schedule with `event` leaves a key: an
/// absent schedule opens, a closed one stays closed.
pub open spec fn after_add(state: ScheduleState, event: Option<EventView>) -> ScheduleState {
    match state {
        ScheduleState::Absent => ScheduleState::Open(event),
        _ => state,
    }
}

/// The state in which closing leaves a key: an open schedule closes, an
/// absent or closed one stays as it is.
pub open spec fn after_close(state: ScheduleState) -> ScheduleState {
    match state {
        ScheduleState::Open(_) => ScheduleState::Closed,
        _ => state,
    }
}

/// What reading a schedule gives: the event of an open schedule, and nothing
/// for an absent or closed one.
pub open spec fn schedule_event(state: ScheduleState) -> Option<EventView> {
    match state {
        ScheduleState::Open(event) => event,
        _ => None,
    }
}

/// The persistent state of runs: an append-only event log and a list of
/// annotations for each run, and the schedules. Every implementation shows
/// the same behaviour; an operation fails with
/// [`Failure::StorageFailure`] when the store cannot be reached, and then
/// leaves the state as it was.
pub trait Backend: Sized {
    /// The state that the backend keeps.
    spec fn state(&self) -> StorageView;

    /// The whole history of a run, in the order of appending; empty for an
    /// unknown run.
    fn read_events(&self, run_id: String) -> (r: Result<Records, Failure>)
        requires
            self.state().wf(),
        ensures
            match r {
                Ok(records) => events_view(records@) == self.state().events[run_id@],
                Err(e) => e == Failure::StorageFailure,
            },
    ;

    /// Appends events to the history of a run. The backend sets the run and
    /// the sequence number of each.
    fn write_events(&mut self, run_id: String, content: Records) -> (r: Result<(), Failure>)
        requires
            old(self).state().wf(),
        ensures
            final(self).state().wf(),
            match r {
                Ok(()) => final(self).state() == old(self).state().append_events(
                    run_id@,
                    events_view(content@),
                ),
                Err(e) => e == Failure::StorageFailure && final(self).state() == old(self).state(),
            },
    ;

    /// All annotations of a run, in the order of appending.
    fn read_all_metadata(&self, run_id: String) -> (r: Result<Vec<Metadata>, Failure>)
        requires
            self.state().wf(),
        ensures
            match r {
                Ok(entries) => metadata_view(entries@) == self.state().metadata[run_id@],
                Err(e) => e == Failure::StorageFailure,
            },
    ;

    /// Appends an annotation to a run.
    fn append_metadata(&mut self, run_id: String, schedule: Timestamp, content: String) -> (r:
        Result<(), Failure>)
        requires
            old(self).state().wf(),
        ensures
            final(self).state().wf(),
            match r {
                Ok(()) => final(self).state() == old(self).state().append_metadata(
                    MetadataView { run_id: run_id@, timestamp: schedule, content: content@ },
                ),
                Err(e) => e == Failure::StorageFailure && final(self).state() == old(self).state(),
            },
    ;

    /// Adds a schedule. An open schedule under the same key is a
    /// duplicate; a closed one stays closed.
    fn add_schedule(
        &mut self,
        queue: String,
        run_id: String,
        schedule: Timestamp,
        content: Option<Event>,
    ) -> (r: Result<(), Failure>)
        requires
            old(self).state().wf(),
        ensures
            final(self).state().wf(),
            match r {
                Ok(()) => {
                    let key = schedule_key(queue@, run_id@, schedule);
                    &&& !(old(self).state().schedules[key] is Open)
                    &&& final(self).state() == old(self).state().add_schedule(
                        key,
                        optional_event_view(content),
                    )
                },
                Err(e) => {
                    &&& final(self).state() == old(self).state()
                    &&& e == Failure::DuplicateSchedule || e == Failure::StorageFailure
                    &&& e == Failure::DuplicateSchedule ==> old(self).state().schedules[schedule_key(
                        queue@,
                        run_id@,
                        schedule,
                    )] is Open
                },
            },
    ;

    /// The event of an open schedule. The schedule stays as it is.
    fn read_schedule(&self, queue: String, run_id: String, schedule: Timestamp) -> (r: Result<
        Option<Event>,
        Failure,
    >)
        requires
            self.state().wf(),
        ensures
            match r {
                Ok(event) => optional_event_view(event) == self.state().read_schedule(
                    schedule_key(queue@, run_id@, schedule),
                ),
                Err(e) => e == Failure::StorageFailure,
            },
    ;

    /// Closes a schedule for good. Closing an absent or closed schedule
    /// changes nothing.
    fn close_schedule(&mut self, queue: String, run_id: String, schedule: Timestamp) -> (r:
        Result<(), Failure>)
        requires
            old(self).state().wf(),
        ensures
            final(self).state().wf(),
            match r {
                Ok(()) => final(self).state() == old(self).state().close_schedule(
                    schedule_key(queue@, run_id@, schedule),
                ),
                Err(e) => e == Failure::StorageFailure && final(self).state() == old(self).state(),
            },
    ;
}

/// Reading a run after a write gives what the log held before, followed by
/// the written events in the order in which they were given, each with
/// its own kind, payload and timestamp; the sequence numbers of the whole
/// log are its positions, so they rise by one from event to event and leave
/// no gap. The other runs read as before.
pub proof fn lemma_write_then_read(store: StorageView, run_id: Seq<char>, records: Seq<EventView>)
    requires
        store.wf(),
        store.events[run_id].len() + records.len() <= u64::MAX,
    ensures
        ({
            let before = store.events[run_id];
            let after = store.append_events(run_id, records).events[run_id];
            &&& after.len() == before.len() + records.len()
            &&& after.take(before.len() as int) == before
            &&& forall|i: int|
                0 <= i < records.len() ==> {
                    &&& (#[trigger] after[before.len() + i]).kind == records[i].kind
                    &&& after[before.len() + i].payload == records[i].payload
                    &&& after[before.len() + i].timestamp == records[i].timestamp
                }
            &&& sequenced(after, run_id)
            &&& forall|i: int|
                0 <= i < after.len() - 1 ==> (#[trigger] after[i]).sequence_number + 1 == after[i
                    + 1].sequence_number
        }),
        forall|other: Seq<char>|
            other != run_id ==> #[trigger] store.append_events(run_id, records).events[other]
                == store.events[other],
        store.append_events(run_id, records).wf(),
{
    let before = store.events[run_id];
    let after = store.append_events(run_id, records).events[run_id];
    assert forall|i: int| 0 <= i < records.len() implies {
        &&& (#[trigger] after[before.len() + i]).kind == records[i].kind
        &&& after[before.len() + i].payload == records[i].payload
        &&& after[before.len() + i].timestamp == records[i].timestamp
    } by {
    }
    let grown = store.append_events(run_id, records);
    assert(grown.events.dom() =~= Set::<Seq<char>>::full());
}

/// Closing is idempotent, and a closed schedule is never read again: once
/// an open schedule was closed its key stays closed whatever is appended,
/// added or closed afterwards, and reading it gives nothing.
pub proof fn lemma_closed_schedule_is_final(
    store: StorageView,
    key: ScheduleKey,
    other: ScheduleKey,
    event: Option<EventView>,
    run_id: Seq<char>,
    records: Seq<EventView>,
    entry: MetadataView,
)
    requires
        store.wf(),
    ensures
        store.close_schedule(key).close_schedule(key) == store.close_schedule(key),
        store.close_schedule(key).read_schedule(key) is None,
        store.schedules[key] is Closed ==> store.close_schedule(key) == store,
        store.schedules[key] is Open ==> store.close_schedule(key).schedules[key] is Closed,
        store.schedules[key] is Closed ==> {
            &&& store.read_schedule(key) is None
            &&& store.add_schedule(other, event).schedules[key] is Closed
            &&& store.close_schedule(other).schedules[key] is Closed
            &&& store.append_events(run_id, records).schedules[key] is Closed
            &&& store.append_metadata(entry).schedules[key] is Closed
        },
{
    assert(store.close_schedule(key).close_schedule(key).schedules =~= store.close_schedule(
        key,
    ).schedules);
    if store.schedules[key] is Closed {
        assert(store.close_schedule(key).schedules =~= store.schedules);
    }
}

/// A schedule added under a key that has none is open and reads as the
/// event it was added with; adding under the same key again then meets an
/// open schedule, which every backend refuses as a duplicate.
pub proof fn lemma_added_schedule_is_open(
    store: StorageView,
    key: ScheduleKey,
    event: Option<EventView>,
)
    requires
        store.wf(),
        store.schedules[key] is Absent,
    ensures
        store.add_schedule(key, event).schedules[key] == ScheduleState::Open(event),
        store.add_schedule(key, event).read_schedule(key) == event,
{
}

} // verus!
