//! The local backend: the runs and schedules of one directory, held in
//! memory. Loading and storing them is left to the caller.

use vstd::prelude::*;
use crate::backends::{
    after_add, after_close, optional_event_view, schedule_key, Backend, StorageView,
};
use crate::error::Failure;
use crate::protocol::{
    duplicate_events, events_view, metadata_view, sequenced, stamp_all, Event, EventView,
    Metadata, MetadataView, Records, ScheduleKey, ScheduleState, Timestamp,
};
use crate::table::{find_first, lemma_find_first};

verus! {

/// What the backend keeps for one run.
#[derive(Debug)]
struct RunFile {
    run_id: String,
    events: Vec<Event>,
    metadata: Vec<Metadata>,
}

/// What the backend keeps for one schedule.
#[derive(Debug)]
struct ScheduleFile {
    queue: String,
    run_id: String,
    fire_at: Timestamp,
    event: Option<Event>,
    closed: bool,
}

impl ScheduleFile {
    spec fn key(self) -> ScheduleKey {
        schedule_key(self.queue@, self.run_id@, self.fire_at)
    }

    spec fn state(self) -> ScheduleState {
        if self.closed {
            ScheduleState::Closed
        } else {
            ScheduleState::Open(optional_event_view(self.event))
        }
    }
}

/// The local backend.
#[derive(Debug)]
pub struct Fs {
    runs: Vec<RunFile>,
    schedules: Vec<ScheduleFile>,
}

spec fn run_named(run_id: Seq<char>) -> spec_fn(RunFile) -> bool {
    |file: RunFile| file.run_id@ == run_id
}

spec fn schedule_keyed(key: ScheduleKey) -> spec_fn(ScheduleFile) -> bool {
    |file: ScheduleFile| file.key() == key
}

spec fn events_in(runs: Seq<RunFile>, run_id: Seq<char>) -> Seq<EventView> {
    match find_first(runs, run_named(run_id)) {
        Some(i) => events_view(runs[i].events@),
        None => Seq::empty(),
    }
}

spec fn metadata_in(runs: Seq<RunFile>, run_id: Seq<char>) -> Seq<MetadataView> {
    match find_first(runs, run_named(run_id)) {
        Some(i) => metadata_view(runs[i].metadata@),
        None => Seq::empty(),
    }
}

spec fn schedule_in(schedules: Seq<ScheduleFile>, key: ScheduleKey) -> ScheduleState {
    match find_first(schedules, schedule_keyed(key)) {
        Some(i) => schedules[i].state(),
        None => ScheduleState::Absent,
    }
}

spec fn state_of(runs: Seq<RunFile>, schedules: Seq<ScheduleFile>) -> StorageView {
    StorageView {
        events: Map::total(|run_id: Seq<char>| events_in(runs, run_id)),
        metadata: Map::total(|run_id: Seq<char>| metadata_in(runs, run_id)),
        schedules: Map::total(|key: ScheduleKey| schedule_in(schedules, key)),
    }
}

/// Two lists of run files with the same content, the second of which may
/// hold one more run, without events or annotations, hold the same state.
proof fn lemma_same_runs(before: Seq<RunFile>, after: Seq<RunFile>, run_id: Seq<char>)
    requires
        before.len() <= after.len(),
        forall|k: int|
            0 <= k < before.len() ==> {
                &&& (#[trigger] after[k]).run_id@ == before[k].run_id@
                &&& events_view(after[k].events@) == events_view(before[k].events@)
                &&& metadata_view(after[k].metadata@) == metadata_view(before[k].metadata@)
            },
        forall|k: int|
            before.len() <= k < after.len() ==> {
                &&& (#[trigger] after[k]).events@.len() == 0
                &&& after[k].metadata@.len() == 0
            },
    ensures
        events_in(after, run_id) == events_in(before, run_id),
        metadata_in(after, run_id) == metadata_in(before, run_id),
{
    lemma_find_first(before, run_named(run_id));
    lemma_find_first(after, run_named(run_id));
    match find_first(after, run_named(run_id)) {
        Some(i) => {
            if i < before.len() {
                assert(find_first(before, run_named(run_id)) == Some(i)) by {
                    assert forall|k: int| 0 <= k < i implies !run_named(run_id)(
                        #[trigger] before[k],
                    ) by {
                        assert(!run_named(run_id)(after[k]));
                    }
                }
            } else {
                assert(find_first(before, run_named(run_id)) is None) by {
                    if find_first(before, run_named(run_id)) is Some {
                        let j = find_first(before, run_named(run_id)).unwrap();
                        assert(run_named(run_id)(after[j]));
                    }
                }
            }
        },
        None => {
            assert(find_first(before, run_named(run_id)) is None) by {
                if find_first(before, run_named(run_id)) is Some {
                    let j = find_first(before, run_named(run_id)).unwrap();
                    assert(run_named(run_id)(after[j]));
                }
            }
        },
    }
}

/// Changing what one run file holds changes the state of its run alone,
/// when the file is the first of its run.
proof fn lemma_run_updated(
    before: Seq<RunFile>,
    after: Seq<RunFile>,
    index: int,
    run_id: Seq<char>,
)
    requires
        before.len() == after.len(),
        find_first(before, run_named(before[index].run_id@)) == Some(index),
        0 <= index < before.len(),
        forall|k: int| 0 <= k < before.len() ==> (#[trigger] after[k]).run_id@ == before[k].run_id@,
        forall|k: int|
            0 <= k < before.len() && k != index ==> {
                &&& events_view((#[trigger] after[k]).events@) == events_view(before[k].events@)
                &&& metadata_view(after[k].metadata@) == metadata_view(before[k].metadata@)
            },
    ensures
        find_first(after, run_named(run_id)) == find_first(before, run_named(run_id)),
        run_id != before[index].run_id@ ==> events_in(after, run_id) == events_in(before, run_id),
        run_id != before[index].run_id@ ==> metadata_in(after, run_id) == metadata_in(
            before,
            run_id,
        ),
{
    lemma_find_first(before, run_named(run_id));
    lemma_find_first(after, run_named(run_id));
    match find_first(before, run_named(run_id)) {
        Some(i) => {
            crate::table::lemma_find_first_is(after, run_named(run_id), i);
        },
        None => {},
    }
}

/// The schedules after the file at `index`, the first of its key, changed
/// its state, or after a file of a key that had none was put behind them.
proof fn lemma_schedule_updated(
    before: Seq<ScheduleFile>,
    after: Seq<ScheduleFile>,
    changed: ScheduleKey,
    key: ScheduleKey,
)
    requires
        before.len() <= after.len() <= before.len() + 1,
        forall|k: int| 0 <= k < before.len() ==> (#[trigger] after[k]).key() == before[k].key(),
        forall|k: int|
            0 <= k < before.len() && before[k].key() != changed ==> (#[trigger] after[k]).state()
                == before[k].state(),
        after.len() > before.len() ==> after.last().key() == changed && find_first(
            before,
            schedule_keyed(changed),
        ) is None,
    ensures
        key != changed ==> schedule_in(after, key) == schedule_in(before, key),
        find_first(before, schedule_keyed(key)) is Some ==> find_first(
            after,
            schedule_keyed(key),
        ) == find_first(before, schedule_keyed(key)),
        find_first(before, schedule_keyed(key)) is None && after.len() > before.len() && key
            == changed ==> find_first(after, schedule_keyed(key)) == Some(before.len() as int),
{
    lemma_find_first(before, schedule_keyed(key));
    lemma_find_first(after, schedule_keyed(key));
    match find_first(before, schedule_keyed(key)) {
        Some(i) => {
            crate::table::lemma_find_first_is(after, schedule_keyed(key), i);
        },
        None => {},
    }
}

fn same_text(a: &String, b: &String) -> (r: bool)
    ensures
        r == (a@ == b@),
{
    *a == *b
}

impl Fs {
    /// A backend that holds nothing.
    pub fn new() -> (r: Fs)
        ensures
            r.state() == StorageView::empty(),
            r.state().wf(),
    {
        let r = Fs { runs: Vec::new(), schedules: Vec::new() };
        proof {
            assert(r.state().events =~= StorageView::empty().events);
            assert(r.state().metadata =~= StorageView::empty().metadata);
            assert(r.state().schedules =~= StorageView::empty().schedules);
        }
        r
    }

    /// The index of the file of a run.
    fn find_run(&self, run_id: &String) -> (r: Option<usize>)
        ensures
            match r {
                Some(i) => i < self.runs@.len() && find_first(self.runs@, run_named(run_id@))
                    == Some(i as int),
                None => find_first(self.runs@, run_named(run_id@)) is None,
            },
    {
        let mut i: usize = 0;
        while i < self.runs.len()
            invariant
                i <= self.runs.len(),
                forall|k: int| 0 <= k < i ==> !run_named(run_id@)(#[trigger] self.runs@[k]),
            decreases self.runs.len() - i,
        {
            if same_text(&self.runs[i].run_id, run_id) {
                proof {
                    crate::table::lemma_find_first_is(self.runs@, run_named(run_id@), i as int);
                }
                return Some(i);
            }
            i += 1;
        }
        proof {
            lemma_find_first(self.runs@, run_named(run_id@));
        }
        None
    }

    /// The index of the file of a run, which is made if the run has none.
    fn open_run(&mut self, run_id: &String) -> (i: usize)
        ensures
            i < final(self).runs@.len(),
            find_first(final(self).runs@, run_named(run_id@)) == Some(i as int),
            final(self).runs@[i as int].run_id@ == run_id@,
            final(self).state() == old(self).state(),
            events_view(final(self).runs@[i as int].events@) == old(self).state().events[run_id@],
            metadata_view(final(self).runs@[i as int].metadata@) == old(self).state().metadata[run_id@],
    {
        match self.find_run(run_id) {
            Some(i) => {
                proof {
                    lemma_find_first(self.runs@, run_named(run_id@));
                }
                i
            },
            None => {
                self.runs.push(RunFile { run_id: run_id.clone(), events: Vec::new(), metadata: Vec::new() });
                let i = self.runs.len() - 1;
                proof {
                    lemma_find_first(old(self).runs@, run_named(run_id@));
                    crate::table::lemma_find_first_is(self.runs@, run_named(run_id@), i as int);
                    assert forall|r: Seq<char>| events_in(self.runs@, r) == events_in(
                        old(self).runs@,
                        r,
                    ) && metadata_in(self.runs@, r) == metadata_in(old(self).runs@, r) by {
                        lemma_same_runs(old(self).runs@, self.runs@, r);
                    }
                    assert(self.state().events =~= old(self).state().events);
                    assert(self.state().metadata =~= old(self).state().metadata);
                }
                i
            },
        }
    }

    /// The index of the file of a schedule.
    fn find_schedule(&self, queue: &String, run_id: &String, fire_at: Timestamp) -> (r: Option<
        usize,
    >)
        ensures
            match r {
                Some(i) => i < self.schedules@.len() && find_first(
                    self.schedules@,
                    schedule_keyed(schedule_key(queue@, run_id@, fire_at)),
                ) == Some(i as int),
                None => find_first(
                    self.schedules@,
                    schedule_keyed(schedule_key(queue@, run_id@, fire_at)),
                ) is None,
            },
    {
        let ghost key = schedule_key(queue@, run_id@, fire_at);
        let mut i: usize = 0;
        while i < self.schedules.len()
            invariant
                i <= self.schedules.len(),
                key == schedule_key(queue@, run_id@, fire_at),
                forall|k: int| 0 <= k < i ==> !schedule_keyed(key)(#[trigger] self.schedules@[k]),
            decreases self.schedules.len() - i,
        {
            let file = &self.schedules[i];
            if same_text(&file.queue, queue) && same_text(&file.run_id, run_id) && file.fire_at.millis
                == fire_at.millis {
                proof {
                    crate::table::lemma_find_first_is(self.schedules@, schedule_keyed(key), i as int);
                }
                return Some(i);
            }
            i += 1;
        }
        proof {
            lemma_find_first(self.schedules@, schedule_keyed(key));
        }
        None
    }
}

impl Backend for Fs {
    closed spec fn state(&self) -> StorageView {
        state_of(self.runs@, self.schedules@)
    }

    fn read_events(&self, run_id: String) -> (r: Result<Records, Failure>)
        ensures
            r is Ok,
    {
        match self.find_run(&run_id) {
            Some(i) => Ok(duplicate_events(&self.runs[i].events)),
            None => {
                let records: Records = Vec::new();
                Ok(records)
            },
        }
    }

    fn write_events(&mut self, run_id: String, content: Records) -> (r: Result<(), Failure>)
        ensures
            r is Ok,
    {
        let index = self.open_run(&run_id);
        let ghost opened = self.runs@;
        let ghost base = events_view(self.runs@[index as int].events@);
        let ghost records = events_view(content@);
        let mut log: Vec<Event> = Vec::new();
        std::mem::swap(&mut self.runs[index].events, &mut log);
        let mut i: usize = 0;
        while i < content.len()
            invariant
                i <= content.len(),
                records == events_view(content@),
                sequenced(base, run_id@),
                events_view(log@) == base + stamp_all(records.take(i as int), run_id@, base.len() as int),
            decreases content.len() - i,
        {
            let record = &content[i];
            let ghost before = log@;
            log.push(
                Event {
                    run_id: run_id.clone(),
                    sequence_number: log.len() as u64,
                    kind: record.kind.duplicate(),
                    payload: record.payload.clone(),
                    timestamp: record.timestamp,
                },
            );
            proof {
                assert(events_view(before.push(log@.last())) =~= events_view(before).push(
                    log@.last()@,
                ));
            }
            i += 1;
        }
        let ghost written = log@;
        assert(written.len() == log.len());
        self.runs[index].events = log;
        proof {
            let grown = base + stamp_all(records, run_id@, base.len() as int);
            assert(events_in(self.runs@, run_id@) == grown) by {
                lemma_run_updated(opened, self.runs@, index as int, run_id@);
            }
            assert forall|r: Seq<char>| r != run_id@ implies events_in(self.runs@, r) == events_in(
                opened,
                r,
            ) by {
                lemma_run_updated(opened, self.runs@, index as int, r);
            }
            assert forall|r: Seq<char>| metadata_in(self.runs@, r) == metadata_in(opened, r) by {
                lemma_run_updated(opened, self.runs@, index as int, r);
            }
            assert(self.state().events =~= old(self).state().append_events(run_id@, records).events);
            assert(self.state().metadata =~= old(self).state().metadata);
        }
        Ok(())
    }

    fn read_all_metadata(&self, run_id: String) -> (r: Result<Vec<Metadata>, Failure>)
        ensures
            r is Ok,
    {
        let mut entries: Vec<Metadata> = Vec::new();
        match self.find_run(&run_id) {
            Some(index) => {
                let stored = &self.runs[index].metadata;
                let mut i: usize = 0;
                while i < stored.len()
                    invariant
                        i <= stored.len(),
                        entries.len() == i,
                        forall|k: int| 0 <= k < i ==> entries@[k]@ == stored@[k]@,
                    decreases stored.len() - i,
                {
                    entries.push(stored[i].duplicate());
                    i += 1;
                }
            },
            None => {
            },
        }
        Ok(entries)
    }

    fn append_metadata(&mut self, run_id: String, schedule: Timestamp, content: String) -> (r:
        Result<(), Failure>)
        ensures
            r is Ok,
    {
        let index = self.open_run(&run_id);
        let ghost opened = self.runs@;
        let ghost entry = MetadataView { run_id: run_id@, timestamp: schedule, content: content@ };
        let ghost stored = self.runs@[index as int].metadata@;
        self.runs[index].metadata.push(Metadata { run_id, timestamp: schedule, content });
        proof {
            assert(metadata_in(self.runs@, entry.run_id) == metadata_view(stored).push(entry)) by {
                lemma_run_updated(opened, self.runs@, index as int, entry.run_id);
            }
            assert forall|r: Seq<char>| r != entry.run_id implies metadata_in(self.runs@, r)
                == metadata_in(opened, r) by {
                lemma_run_updated(opened, self.runs@, index as int, r);
            }
            assert forall|r: Seq<char>| events_in(self.runs@, r) == events_in(opened, r) by {
                lemma_run_updated(opened, self.runs@, index as int, r);
            }
            assert(self.state().metadata =~= old(self).state().append_metadata(entry).metadata);
            assert(self.state().events =~= old(self).state().events);
        }
        Ok(())
    }

    fn add_schedule(
        &mut self,
        queue: String,
        run_id: String,
        schedule: Timestamp,
        content: Option<Event>,
    ) -> (r: Result<(), Failure>)
        ensures
            r is Err <==> old(self).state().schedules[schedule_key(queue@, run_id@, schedule)] is Open,
            r is Err ==> r == Err::<(), Failure>(Failure::DuplicateSchedule),
    {
        let ghost key = schedule_key(queue@, run_id@, schedule);
        match self.find_schedule(&queue, &run_id, schedule) {
            Some(i) => {
                if self.schedules[i].closed {
                    proof {
                        assert(self.state().schedules =~= old(self).state().add_schedule(
                            key,
                            optional_event_view(content),
                        ).schedules);
                    }
                    Ok(())
                } else {
                    Err(Failure::DuplicateSchedule)
                }
            },
            None => {
                self.schedules.push(
                    ScheduleFile { queue, run_id, fire_at: schedule, event: content, closed: false },
                );
                proof {
                    assert forall|k: ScheduleKey|
                        schedule_in(self.schedules@, k) == old(self).state().add_schedule(
                            key,
                            optional_event_view(content),
                        ).schedules[k] by {
                        lemma_schedule_updated(old(self).schedules@, self.schedules@, key, k);
                    }
                    assert(self.state().schedules =~= old(self).state().add_schedule(
                        key,
                        optional_event_view(content),
                    ).schedules);
                }
                Ok(())
            },
        }
    }

    fn read_schedule(&self, queue: String, run_id: String, schedule: Timestamp) -> (r: Result<
        Option<Event>,
        Failure,
    >)
        ensures
            r is Ok,
    {
        match self.find_schedule(&queue, &run_id, schedule) {
            Some(i) => {
                let file = &self.schedules[i];
                if file.closed {
                    Ok(None)
                } else {
                    match &file.event {
                        Some(event) => Ok(Some(event.duplicate())),
                        None => Ok(None),
                    }
                }
            },
            None => Ok(None),
        }
    }

    fn close_schedule(&mut self, queue: String, run_id: String, schedule: Timestamp) -> (r:
        Result<(), Failure>)
        ensures
            r is Ok,
    {
        let ghost key = schedule_key(queue@, run_id@, schedule);
        match self.find_schedule(&queue, &run_id, schedule) {
            Some(i) => {
                self.schedules[i].closed = true;
                self.schedules[i].event = None;
                proof {
                    lemma_find_first(old(self).schedules@, schedule_keyed(key));
                    assert forall|k: ScheduleKey|
                        schedule_in(self.schedules@, k) == old(self).state().close_schedule(
                            key,
                        ).schedules[k] by {
                        lemma_schedule_updated(old(self).schedules@, self.schedules@, key, k);
                    }
                    assert(self.state().schedules =~= old(self).state().close_schedule(
                        key,
                    ).schedules);
                }
            },
            None => {
                proof {
                    assert(self.state().schedules =~= old(self).state().close_schedule(
                        key,
                    ).schedules);
                }
            },
        }
        Ok(())
    }
}

} // verus!
