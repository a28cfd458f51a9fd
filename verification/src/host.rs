//! The correlation bridge: operations handed to the host, the outcomes that
//! the host reports for them, and what the host is asked to do.

use vstd::prelude::*;
use crate::correlation::{correlation_id, correlation_text, lemma_correlation_ids_differ};
use crate::error::Failure;
use crate::promise::{Promise, PromiseView, PromisedResult, Registry, RegistryView};
use crate::table::{
    find_first, lemma_find_first, lemma_find_first_is, lemma_find_first_push,
    lemma_find_first_same,
};

verus! {

/// What the host is asked to do.
#[derive(Debug, Clone, PartialEq, Eq)]
pub enum HostCall {
    /// Write a message to the standard output.
    Print(String),
    /// Write a message to the standard error.
    Eprint(String),
    /// Run an operation and report its outcome under `host_ref`.
    Dispatch { host_ref: String, op_name: String, args: Vec<String> },
}

/// The mathematical content of a [`HostCall`].
pub enum HostCallView {
    Print(Seq<char>),
    Eprint(Seq<char>),
    Dispatch { host_ref: Seq<char>, op_name: Seq<char>, args: Seq<Seq<char>> },
}

/// The contents of a sequence of texts, in order.
pub open spec fn texts_view(texts: Seq<String>) -> Seq<Seq<char>> {
    texts.map_values(|t: String| t@)
}

impl View for HostCall {
    type V = HostCallView;

    open spec fn view(&self) -> HostCallView {
        match *self {
            HostCall::Print(message) => HostCallView::Print(message@),
            HostCall::Eprint(message) => HostCallView::Eprint(message@),
            HostCall::Dispatch { host_ref, op_name, args } => HostCallView::Dispatch {
                host_ref: host_ref@,
                op_name: op_name@,
                args: texts_view(args@),
            },
        }
    }
}

/// The contents of a sequence of calls, in order.
pub open spec fn calls_view(calls: Seq<HostCall>) -> Seq<HostCallView> {
    calls.map_values(|c: HostCall| c@)
}

/// What the host reported for an operation: its result or its error, as
/// JSON text.
#[derive(Debug, Clone, PartialEq, Eq)]
pub enum Delivery {
    Value(String),
    Error(String),
}

/// The mathematical content of a [`Delivery`].
pub enum DeliveryView {
    Value(Seq<char>),
    Error(Seq<char>),
}

impl View for Delivery {
    type V = DeliveryView;

    open spec fn view(&self) -> DeliveryView {
        match *self {
            Delivery::Value(text) => DeliveryView::Value(text@),
            Delivery::Error(text) => DeliveryView::Error(text@),
        }
    }
}

/// What resolving an operation gives.
#[derive(Debug, Clone, PartialEq, Eq)]
pub enum Resolution {
    /// The host has not reported yet: the caller suspends and asks again.
    Suspended,
    /// The host's report, handed out this once.
    Ready(Delivery),
}

/// The content of a resolution: the host's report, if it has come.
pub open spec fn resolution_view(resolution: Resolution) -> Option<DeliveryView> {
    match resolution {
        Resolution::Suspended => None,
        Resolution::Ready(delivery) => Some(delivery@),
    }
}

/// How far an operation has come.
pub enum Status {
    /// Dispatched; the host has not reported yet.
    Awaiting,
    /// The host has reported; nobody has taken the report yet.
    Ready(DeliveryView),
    /// The report was taken.
    Taken,
    /// The caller gave the operation up.
    Cancelled,
}

/// One dispatched operation, as a mathematical value: its correlation id,
/// its handle, the reference under which the host knows it, once the host
/// has answered the dispatch, and how far it has come.
pub struct EntryView {
    pub host_ref: Seq<char>,
    pub guest_ref: u32,
    pub reference: Option<Seq<char>>,
    pub status: Status,
}

/// The entries whose correlation id is `id`.
pub open spec fn entry_with(id: Seq<char>) -> spec_fn(EntryView) -> bool {
    |entry: EntryView| entry.host_ref == id
}

/// The entries that the host knows under `reference` and that were not
/// cancelled.
pub open spec fn entry_known_as(reference: Seq<char>) -> spec_fn(EntryView) -> bool {
    |entry: EntryView| entry.reference == Some(reference) && !(entry.status is Cancelled)
}

/// The state of the bridge as a mathematical value: the operations in the
/// order of their dispatch, and the calls that wait for the host.
pub struct HostView {
    pub entries: Seq<EntryView>,
    pub outbox: Seq<HostCallView>,
}

impl HostView {
    /// Every operation carries the correlation id of its position.
    pub open spec fn wf(self) -> bool {
        forall|i: int|
            0 <= i < self.entries.len() ==> (#[trigger] self.entries[i]).host_ref == correlation_id(
                i as nat,
            )
    }

    /// The position of the operation with a correlation id.
    pub open spec fn index_of(self, id: Seq<char>) -> Option<int> {
        find_first(self.entries, entry_with(id))
    }

    /// How far the operation with a correlation id has come; nothing for
    /// an id that was never dispatched or whose operation was cancelled.
    pub open spec fn status(self, id: Seq<char>) -> Option<Status> {
        match self.index_of(id) {
            Some(i) => if self.entries[i].status is Cancelled {
                None
            } else {
                Some(self.entries[i].status)
            },
            None => None,
        }
    }

    /// The handle of the operation with a correlation id.
    pub open spec fn guest_ref(self, id: Seq<char>) -> u32 {
        self.entries[self.index_of(id).unwrap()].guest_ref
    }

    /// The bridge with the operation of a known id in another status.
    pub open spec fn set_status(self, id: Seq<char>, status: Status) -> HostView {
        let i = self.index_of(id).unwrap();
        HostView {
            entries: self.entries.update(i, EntryView { status, ..self.entries[i] }),
            ..self
        }
    }

    /// The reference under which the host knows the operation with a
    /// correlation id, if the host has answered its dispatch.
    pub open spec fn reference(self, id: Seq<char>) -> Option<Seq<char>> {
        self.entries[self.index_of(id).unwrap()].reference
    }

    /// The correlation id of the first operation that the host knows under
    /// a reference and that was not cancelled.
    pub open spec fn correlation_of(self, reference: Seq<char>) -> Option<Seq<char>> {
        match find_first(self.entries, entry_known_as(reference)) {
            Some(i) => Some(self.entries[i].host_ref),
            None => None,
        }
    }

    /// The bridge after the host answered the dispatch of an operation with
    /// its reference: the reference is recorded. An unknown id is a
    /// failure, and so is a second answer.
    pub open spec fn acknowledge(self, id: Seq<char>, reference: Seq<char>) -> Result<
        HostView,
        Failure,
    > {
        if self.status(id) is None {
            Err(Failure::UnknownCorrelationId)
        } else if self.reference(id) is Some {
            Err(Failure::AlreadyAcknowledged)
        } else {
            let i = self.index_of(id).unwrap();
            Ok(
                HostView {
                    entries: self.entries.update(
                        i,
                        EntryView { reference: Some(reference), ..self.entries[i] },
                    ),
                    ..self
                },
            )
        }
    }

    /// The bridge with one more call for the host.
    pub open spec fn ask(self, call: HostCallView) -> HostView {
        HostView { outbox: self.outbox.push(call), ..self }
    }

    /// The bridge with one more operation, which awaits its outcome under
    /// the correlation id of its position.
    pub open spec fn restore(self, guest_ref: u32) -> HostView {
        HostView {
            entries: self.entries.push(
                EntryView {
                    host_ref: correlation_id(self.entries.len()),
                    guest_ref,
                    reference: None,
                    status: Status::Awaiting,
                },
            ),
            ..self
        }
    }

    /// The bridge after an operation was dispatched: the operation awaits
    /// its outcome, and the host is asked to run it.
    pub open spec fn dispatch(self, guest_ref: u32, op_name: Seq<char>, args: Seq<Seq<char>>)
        -> HostView {
        self.restore(guest_ref).ask(
            HostCallView::Dispatch { host_ref: correlation_id(self.entries.len()), op_name, args },
        )
    }

    /// The bridge after the host reported an outcome: an awaiting operation
    /// becomes ready; a second report and an unknown id are failures.
    pub open spec fn notify(self, id: Seq<char>, delivery: DeliveryView) -> Result<
        HostView,
        Failure,
    > {
        match self.status(id) {
            None => Err(Failure::UnknownCorrelationId),
            Some(Status::Awaiting) => Ok(self.set_status(id, Status::Ready(delivery))),
            Some(_) => Err(Failure::DoubleResolve),
        }
    }

    /// What resolving gives, and the bridge after it: a ready outcome is
    /// handed out and marked as taken, an awaiting operation gives nothing
    /// yet; a taken outcome and an unknown id are failures.
    pub open spec fn resolve(self, id: Seq<char>) -> Result<(HostView, Option<DeliveryView>), Failure> {
        match self.status(id) {
            None => Err(Failure::UnknownCorrelationId),
            Some(Status::Awaiting) => Ok((self, None)),
            Some(Status::Ready(delivery)) => Ok((self.set_status(id, Status::Taken), Some(delivery))),
            Some(_) => Err(Failure::DoubleResolve),
        }
    }

    /// The bridge after an operation was cancelled: an operation whose
    /// outcome nobody took is given up; a taken outcome and an unknown id
    /// are failures.
    pub open spec fn cancel(self, id: Seq<char>) -> Result<HostView, Failure> {
        match self.status(id) {
            None => Err(Failure::UnknownCorrelationId),
            Some(Status::Taken) => Err(Failure::DoubleResolve),
            Some(_) => Ok(self.set_status(id, Status::Cancelled)),
        }
    }
}

/// The registry after the handle of a cancelled operation was released, if
/// a chain waited under it.
pub open spec fn released(registry: RegistryView, handle: u32) -> RegistryView {
    if registry.chain_of(handle).is_some() {
        registry.release(handle)
    } else {
        registry
    }
}

/// Changing the status of an operation changes neither the correlation
/// ids nor where they are found.
pub proof fn lemma_set_status_keeps_ids(
    host: HostView,
    id: Seq<char>,
    status: Status,
    other: Seq<char>,
)
    requires
        host.index_of(id) is Some,
    ensures
        host.set_status(id, status).wf() == host.wf(),
        host.set_status(id, status).index_of(other) == host.index_of(other),
        host.set_status(id, status).entries.len() == host.entries.len(),
{
    let after = host.set_status(id, status);
    lemma_find_first(host.entries, entry_with(id));
    lemma_find_first_same(host.entries, after.entries, entry_with(other));
    if after.wf() {
        assert forall|k: int| 0 <= k < host.entries.len() implies (#[trigger] host.entries[k]).host_ref
            == correlation_id(k as nat) by {
            assert(after.entries[k].host_ref == host.entries[k].host_ref);
        }
    }
}

/// Recording the host's reference for an operation changes neither the
/// correlation ids nor where they are found, nor any status.
pub proof fn lemma_acknowledge_keeps_ids(
    host: HostView,
    id: Seq<char>,
    reference: Seq<char>,
    other: Seq<char>,
)
    requires
        host.acknowledge(id, reference) is Ok,
    ensures
        host.acknowledge(id, reference)->Ok_0.wf() == host.wf(),
        host.acknowledge(id, reference)->Ok_0.index_of(other) == host.index_of(other),
        host.acknowledge(id, reference)->Ok_0.status(other) == host.status(other),
        host.index_of(other) is Some ==> host.acknowledge(id, reference)->Ok_0.guest_ref(other)
            == host.guest_ref(other),
        host.acknowledge(id, reference)->Ok_0.reference(id) == Some(reference),
{
    let after = host.acknowledge(id, reference)->Ok_0;
    lemma_find_first(host.entries, entry_with(id));
    lemma_find_first(host.entries, entry_with(other));
    lemma_find_first_same(host.entries, after.entries, entry_with(other));
    lemma_find_first_same(host.entries, after.entries, entry_with(id));
    if after.wf() {
        assert forall|k: int| 0 <= k < host.entries.len() implies (#[trigger] host.entries[k]).host_ref
            == correlation_id(k as nat) by {
            assert(after.entries[k].host_ref == host.entries[k].host_ref);
        }
    }
}

#[derive(Debug)]
enum Slot {
    Awaiting,
    Ready(Delivery),
    Taken,
    Cancelled,
}

#[derive(Debug)]
struct Pending {
    host_ref: String,
    guest_ref: u32,
    reference: Option<String>,
    slot: Slot,
}

/// The content of a text that may be absent.
pub open spec fn optional_text_view(text: Option<String>) -> Option<Seq<char>> {
    match text {
        Some(t) => Some(t@),
        None => None,
    }
}

spec fn slot_status(slot: Slot) -> Status {
    match slot {
        Slot::Awaiting => Status::Awaiting,
        Slot::Ready(delivery) => Status::Ready(delivery@),
        Slot::Taken => Status::Taken,
        Slot::Cancelled => Status::Cancelled,
    }
}

spec fn entry_view(entry: Pending) -> EntryView {
    EntryView {
        host_ref: entry.host_ref@,
        guest_ref: entry.guest_ref,
        reference: optional_text_view(entry.reference),
        status: slot_status(entry.slot),
    }
}

/// The correlation bridge of one execution.
#[derive(Debug)]
pub struct Host {
    entries: Vec<Pending>,
    outbox: Vec<HostCall>,
}

impl View for Host {
    type V = HostView;

    closed spec fn view(&self) -> HostView {
        HostView {
            entries: self.entries@.map_values(|e: Pending| entry_view(e)),
            outbox: calls_view(self.outbox@),
        }
    }
}

impl Host {
    /// A bridge over which nothing was dispatched.
    pub fn new() -> (r: Host)
        ensures
            r@ == (HostView { entries: Seq::empty(), outbox: Seq::empty() }),
            r@.wf(),
    {
        let r = Host { entries: Vec::new(), outbox: Vec::new() };
        proof {
            assert(r@.entries =~= Seq::empty());
            assert(r@.outbox =~= Seq::empty());
        }
        r
    }

    /// Asks the host to write a message to the standard output.
    pub fn print(&mut self, message: String)
        ensures
            final(self)@ == old(self)@.ask(HostCallView::Print(message@)),
    {
        let ghost before = self.outbox@;
        self.outbox.push(HostCall::Print(message));
        proof {
            assert(calls_view(self.outbox@) =~= calls_view(before).push(
                HostCallView::Print(message@),
            ));
        }
    }

    /// Asks the host to write a message to the standard error.
    pub fn eprint(&mut self, message: String)
        ensures
            final(self)@ == old(self)@.ask(HostCallView::Eprint(message@)),
    {
        let ghost before = self.outbox@;
        self.outbox.push(HostCall::Eprint(message));
        proof {
            assert(calls_view(self.outbox@) =~= calls_view(before).push(
                HostCallView::Eprint(message@),
            ));
        }
    }

    /// Hands the calls that wait for the host to the caller, oldest first.
    pub fn take_outbox(&mut self) -> (calls: Vec<HostCall>)
        ensures
            calls_view(calls@) == old(self)@.outbox,
            final(self)@ == (HostView { outbox: Seq::empty(), ..old(self)@ }),
    {
        let mut calls: Vec<HostCall> = Vec::new();
        std::mem::swap(&mut self.outbox, &mut calls);
        proof {
            assert(calls_view(self.outbox@) =~= Seq::<HostCallView>::empty());
        }
        calls
    }

    /// The number of operations dispatched so far.
    pub fn dispatched(&self) -> (n: usize)
        ensures
            n == self@.entries.len(),
    {
        self.entries.len()
    }

    fn find(&self, id: &String) -> (r: Option<usize>)
        ensures
            match r {
                Some(i) => i < self.entries@.len() && self@.index_of(id@) == Some(i as int),
                None => self@.index_of(id@) is None,
            },
    {
        let mut i: usize = 0;
        while i < self.entries.len()
            invariant
                i <= self.entries.len(),
                forall|k: int| 0 <= k < i ==> !entry_with(id@)(#[trigger] self@.entries[k]),
            decreases self.entries.len() - i,
        {
            if self.entries[i].host_ref == *id {
                proof {
                    lemma_find_first_is(self@.entries, entry_with(id@), i as int);
                }
                return Some(i);
            }
            i += 1;
        }
        proof {
            lemma_find_first(self@.entries, entry_with(id@));
        }
        None
    }

    /// The handle of the operation with a correlation id, unless the id is
    /// unknown.
    pub fn handle_of(&self, correlation_id: &String) -> (r: Option<u32>)
        ensures
            r == match self@.status(correlation_id@) {
                Some(_) => Some(self@.guest_ref(correlation_id@)),
                None => None,
            },
    {
        match self.find(correlation_id) {
            None => None,
            Some(i) => match &self.entries[i].slot {
                Slot::Cancelled => None,
                _ => Some(self.entries[i].guest_ref),
            },
        }
    }

    fn set_slot(&mut self, Ghost(id): Ghost<Seq<char>>, i: usize, slot: Slot)
        requires
            i < old(self).entries@.len(),
            old(self)@.index_of(id) == Some(i as int),
        ensures
            final(self)@ == old(self)@.set_status(id, slot_status(slot)),
            final(self)@.wf() == old(self)@.wf(),
    {
        self.entries[i].slot = slot;
        proof {
            assert(self@.entries =~= old(self)@.set_status(id, slot_status(slot)).entries);
            lemma_set_status_keeps_ids(old(self)@, id, slot_status(slot), id);
        }
    }

    /// Records an operation that awaits its outcome, under a fresh handle
    /// with an empty chain, without asking the host for anything.
    pub fn restore(&mut self, registry: &mut Registry) -> (r: Result<Promise, Failure>)
        requires
            old(self)@.wf(),
        ensures
            final(self)@.wf(),
            match r {
                Ok(promise) => {
                    &&& old(registry)@.issued() < u32::MAX
                    &&& promise.ref_host@ == correlation_id(old(self)@.entries.len())
                    &&& promise.ref_guest == old(registry)@.issued() + 1
                    &&& final(registry)@ == old(registry)@.register()
                    &&& final(self)@ == old(self)@.restore(promise.ref_guest)
                },
                Err(e) => {
                    &&& old(registry)@.issued() >= u32::MAX
                    &&& e == Failure::HandlesExhausted
                    &&& final(registry)@ == old(registry)@
                    &&& final(self)@ == old(self)@
                },
            },
    {
        let promise = match Promise::bind(registry, correlation_text(self.entries.len() as u64)) {
            Ok(promise) => promise,
            Err(e) => {
                return Err(e);
            },
        };
        self.entries.push(
            Pending {
                host_ref: promise.ref_host.clone(),
                guest_ref: promise.ref_guest,
                reference: None,
                slot: Slot::Awaiting,
            },
        );
        proof {
            assert(self@.entries =~= old(self)@.restore(promise.ref_guest).entries);
        }
        Ok(promise)
    }

    /// Dispatches an operation: it gets a fresh correlation id and a fresh
    /// handle with an empty chain, and the host is asked to run it. Fails,
    /// and changes nothing, only when no further handle can be issued.
    pub fn dispatch(&mut self, registry: &mut Registry, op_name: String, args: Vec<String>) -> (r:
        Result<Promise, Failure>)
        requires
            old(self)@.wf(),
        ensures
            final(self)@.wf(),
            match r {
                Ok(promise) => {
                    &&& old(registry)@.issued() < u32::MAX
                    &&& promise.ref_host@ == correlation_id(old(self)@.entries.len())
                    &&& promise.ref_guest == old(registry)@.issued() + 1
                    &&& final(registry)@ == old(registry)@.register()
                    &&& final(self)@ == old(self)@.dispatch(
                        promise.ref_guest,
                        op_name@,
                        texts_view(args@),
                    )
                },
                Err(e) => {
                    &&& old(registry)@.issued() >= u32::MAX
                    &&& e == Failure::HandlesExhausted
                    &&& final(registry)@ == old(registry)@
                    &&& final(self)@ == old(self)@
                },
            },
    {
        let promise = match self.restore(registry) {
            Ok(promise) => promise,
            Err(e) => {
                return Err(e);
            },
        };
        let ghost before = self.outbox@;
        let ghost call = HostCallView::Dispatch {
            host_ref: promise.ref_host@,
            op_name: op_name@,
            args: texts_view(args@),
        };
        self.outbox.push(HostCall::Dispatch { host_ref: promise.ref_host.clone(), op_name, args });
        proof {
            assert(calls_view(self.outbox@) =~= calls_view(before).push(call));
        }
        Ok(promise)
    }

    /// Dispatches the concatenation of `items` to the host.
    pub fn concat(&mut self, registry: &mut Registry, items: Vec<String>) -> (r: Result<
        Promise,
        Failure,
    >)
        requires
            old(self)@.wf(),
        ensures
            final(self)@.wf(),
            match r {
                Ok(promise) => {
                    &&& old(registry)@.issued() < u32::MAX
                    &&& promise.ref_host@ == correlation_id(old(self)@.entries.len())
                    &&& promise.ref_guest == old(registry)@.issued() + 1
                    &&& final(registry)@ == old(registry)@.register()
                    &&& final(self)@ == old(self)@.dispatch(
                        promise.ref_guest,
                        "concat"@,
                        texts_view(items@),
                    )
                },
                Err(e) => {
                    &&& old(registry)@.issued() >= u32::MAX
                    &&& e == Failure::HandlesExhausted
                    &&& final(registry)@ == old(registry)@
                    &&& final(self)@ == old(self)@
                },
            },
    {
        self.dispatch(registry, "concat".to_owned(), items)
    }

    /// Records the reference with which the host answered the dispatch of
    /// an operation, and builds the promise that leaves the guest: it
    /// carries that reference and the operation's handle. An unknown id and
    /// a second answer are refused and change nothing.
    pub fn acknowledge(&mut self, correlation_id: String, reference: String) -> (r: Result<
        PromisedResult,
        Failure,
    >)
        ensures
            final(self)@.wf() == old(self)@.wf(),
            match r {
                Ok(promised) => {
                    &&& old(self)@.acknowledge(correlation_id@, reference@) == Ok::<
                        HostView,
                        Failure,
                    >(final(self)@)
                    &&& promised@ == (PromiseView {
                        ref_host: reference@,
                        ref_guest: old(self)@.guest_ref(correlation_id@),
                    })
                    &&& final(self)@.reference(correlation_id@) == Some(reference@)
                },
                Err(e) => {
                    &&& old(self)@.acknowledge(correlation_id@, reference@) == Err::<
                        HostView,
                        Failure,
                    >(e)
                    &&& final(self)@ == old(self)@
                },
            },
    {
        let i = match self.find(&correlation_id) {
            None => {
                return Err(Failure::UnknownCorrelationId);
            },
            Some(i) => i,
        };
        match &self.entries[i].slot {
            Slot::Cancelled => {
                return Err(Failure::UnknownCorrelationId);
            },
            _ => {},
        }
        if self.entries[i].reference.is_some() {
            return Err(Failure::AlreadyAcknowledged);
        }
        let ref_guest = self.entries[i].guest_ref;
        self.entries[i].reference = Some(reference.clone());
        proof {
            let after = old(self)@.acknowledge(correlation_id@, reference@)->Ok_0;
            assert(self@.entries =~= after.entries);
            lemma_acknowledge_keeps_ids(old(self)@, correlation_id@, reference@, correlation_id@);
        }
        Ok(PromisedResult::from(Promise { ref_host: reference, ref_guest }))
    }

    /// The correlation id of the operation that the host knows under a
    /// reference, so that what the host reports under its reference finds
    /// the operation.
    pub fn correlation_of(&self, reference: &String) -> (r: Option<String>)
        ensures
            optional_text_view(r) == self@.correlation_of(reference@),
    {
        let mut i: usize = 0;
        while i < self.entries.len()
            invariant
                i <= self.entries.len(),
                forall|k: int|
                    0 <= k < i ==> !entry_known_as(reference@)(#[trigger] self@.entries[k]),
            decreases self.entries.len() - i,
        {
            let entry = &self.entries[i];
            let known = match &entry.reference {
                Some(text) => *text == *reference,
                None => false,
            };
            let cancelled = match &entry.slot {
                Slot::Cancelled => true,
                _ => false,
            };
            if known && !cancelled {
                proof {
                    lemma_find_first_is(self@.entries, entry_known_as(reference@), i as int);
                }
                return Some(entry.host_ref.clone());
            }
            i += 1;
        }
        proof {
            lemma_find_first(self@.entries, entry_known_as(reference@));
        }
        None
    }

    fn notify(&mut self, correlation_id: String, delivery: Delivery) -> (r: Result<(), Failure>)
        ensures
            final(self)@.wf() == old(self)@.wf(),
            match r {
                Ok(()) => old(self)@.notify(correlation_id@, delivery@) == Ok::<HostView, Failure>(
                    final(self)@,
                ),
                Err(e) => old(self)@.notify(correlation_id@, delivery@) == Err::<HostView, Failure>(e)
                    && final(self)@ == old(self)@,
            },
    {
        match self.find(&correlation_id) {
            None => Err(Failure::UnknownCorrelationId),
            Some(i) => match &self.entries[i].slot {
                Slot::Cancelled => Err(Failure::UnknownCorrelationId),
                Slot::Awaiting => {
                    self.set_slot(Ghost(correlation_id@), i, Slot::Ready(delivery));
                    Ok(())
                },
                _ => Err(Failure::DoubleResolve),
            },
        }
    }

    /// Records the result that the host reports for an operation. A second
    /// report for the same operation, and a report for an unknown one, are
    /// refused and change nothing.
    pub fn notify_result(&mut self, correlation_id: String, json_value: String) -> (r: Result<
        (),
        Failure,
    >)
        ensures
            final(self)@.wf() == old(self)@.wf(),
            match r {
                Ok(()) => old(self)@.notify(correlation_id@, DeliveryView::Value(json_value@))
                    == Ok::<HostView, Failure>(final(self)@),
                Err(e) => old(self)@.notify(correlation_id@, DeliveryView::Value(json_value@))
                    == Err::<HostView, Failure>(e) && final(self)@ == old(self)@,
            },
    {
        self.notify(correlation_id, Delivery::Value(json_value))
    }

    /// Records the error that the host reports for an operation.
    pub fn notify_error(&mut self, correlation_id: String, json_error: String) -> (r: Result<
        (),
        Failure,
    >)
        ensures
            final(self)@.wf() == old(self)@.wf(),
            match r {
                Ok(()) => old(self)@.notify(correlation_id@, DeliveryView::Error(json_error@))
                    == Ok::<HostView, Failure>(final(self)@),
                Err(e) => old(self)@.notify(correlation_id@, DeliveryView::Error(json_error@))
                    == Err::<HostView, Failure>(e) && final(self)@ == old(self)@,
            },
    {
        self.notify(correlation_id, Delivery::Error(json_error))
    }

    /// Hands out what the host reported for an operation, once. While the
    /// host has not reported, the caller is told to suspend. Resolving
    /// again after the report was handed out, and resolving an unknown id,
    /// are refused and change nothing.
    pub fn resolve(&mut self, correlation_id: String) -> (r: Result<Resolution, Failure>)
        ensures
            final(self)@.wf() == old(self)@.wf(),
            match r {
                Ok(resolution) => old(self)@.resolve(correlation_id@) == Ok::<
                    (HostView, Option<DeliveryView>),
                    Failure,
                >((final(self)@, resolution_view(resolution))),
                Err(e) => old(self)@.resolve(correlation_id@) == Err::<
                    (HostView, Option<DeliveryView>),
                    Failure,
                >(e) && final(self)@ == old(self)@,
            },
    {
        let i = match self.find(&correlation_id) {
            None => {
                return Err(Failure::UnknownCorrelationId);
            },
            Some(i) => i,
        };
        match &self.entries[i].slot {
            Slot::Cancelled => Err(Failure::UnknownCorrelationId),
            Slot::Taken => Err(Failure::DoubleResolve),
            Slot::Awaiting => Ok(Resolution::Suspended),
            Slot::Ready(_) => {
                let mut slot = Slot::Taken;
                std::mem::swap(&mut self.entries[i].slot, &mut slot);
                proof {
                    assert(self@.entries =~= old(self)@.set_status(
                        correlation_id@,
                        Status::Taken,
                    ).entries);
                    lemma_set_status_keeps_ids(
                        old(self)@,
                        correlation_id@,
                        Status::Taken,
                        correlation_id@,
                    );
                }
                match slot {
                    Slot::Ready(delivery) => Ok(Resolution::Ready(delivery)),
                    _ => Ok(Resolution::Suspended),
                }
            },
        }
    }

    /// Gives an operation up: its correlation id is unknown from now on,
    /// and the chain that waited for its outcome is released. An operation
    /// whose outcome was taken, and an unknown id, are refused and change
    /// nothing.
    pub fn cancel(&mut self, registry: &mut Registry, correlation_id: String) -> (r: Result<
        (),
        Failure,
    >)
        ensures
            final(self)@.wf() == old(self)@.wf(),
            match r {
                Ok(()) => {
                    &&& old(self)@.cancel(correlation_id@) == Ok::<HostView, Failure>(final(self)@)
                    &&& final(registry)@ == released(
                        old(registry)@,
                        old(self)@.guest_ref(correlation_id@),
                    )
                },
                Err(e) => {
                    &&& old(self)@.cancel(correlation_id@) == Err::<HostView, Failure>(e)
                    &&& final(self)@ == old(self)@
                    &&& final(registry)@ == old(registry)@
                },
            },
    {
        let i = match self.find(&correlation_id) {
            None => {
                return Err(Failure::UnknownCorrelationId);
            },
            Some(i) => i,
        };
        match &self.entries[i].slot {
            Slot::Cancelled => Err(Failure::UnknownCorrelationId),
            Slot::Taken => Err(Failure::DoubleResolve),
            _ => {
                let handle = self.entries[i].guest_ref;
                self.set_slot(Ghost(correlation_id@), i, Slot::Cancelled);
                let _ = registry.release(handle);
                Ok(())
            },
        }
    }
}

/// Every dispatched operation is found under its own correlation id: no
/// two operations share one.
pub proof fn lemma_dispatched_id_is_found(host: HostView, i: int)
    requires
        host.wf(),
        0 <= i < host.entries.len(),
    ensures
        host.index_of(correlation_id(i as nat)) == Some(i),
{
    let id = correlation_id(i as nat);
    assert forall|k: int| 0 <= k < i implies !entry_with(id)(#[trigger] host.entries[k]) by {
        lemma_correlation_ids_differ(k as nat, i as nat);
    }
    lemma_find_first_is(host.entries, entry_with(id), i);
}

/// A freshly dispatched operation awaits its outcome under a correlation
/// id that no earlier operation has, and the dispatch leaves every
/// earlier operation as it was.
pub proof fn lemma_dispatch_is_fresh(
    host: HostView,
    guest_ref: u32,
    op_name: Seq<char>,
    args: Seq<Seq<char>>,
    other: Seq<char>,
)
    requires
        host.wf(),
    ensures
        host.dispatch(guest_ref, op_name, args).wf(),
        host.index_of(correlation_id(host.entries.len())) is None,
        host.dispatch(guest_ref, op_name, args).status(correlation_id(host.entries.len())) == Some(
            Status::Awaiting,
        ),
        host.dispatch(guest_ref, op_name, args).guest_ref(correlation_id(host.entries.len()))
            == guest_ref,
        other != correlation_id(host.entries.len()) ==> host.dispatch(
            guest_ref,
            op_name,
            args,
        ).status(other) == host.status(other),
{
    let fresh = correlation_id(host.entries.len());
    let entry = EntryView { host_ref: fresh, guest_ref, reference: None, status: Status::Awaiting };
    lemma_find_first(host.entries, entry_with(fresh));
    if host.index_of(fresh) is Some {
        let j = host.index_of(fresh).unwrap();
        lemma_correlation_ids_differ(j as nat, host.entries.len());
    }
    lemma_find_first_push(host.entries, entry, entry_with(fresh));
    lemma_find_first_push(host.entries, entry, entry_with(other));
    lemma_find_first(host.entries, entry_with(other));
}

/// The outcome of an operation is handed out exactly once: after the
/// resolve that gave it, another resolve of the same id is refused.
pub proof fn lemma_outcome_is_handed_out_once(host: HostView, id: Seq<char>)
    requires
        host.resolve(id) is Ok,
        host.resolve(id).unwrap().1 is Some,
    ensures
        host.resolve(id).unwrap().0.resolve(id) == Err::<(HostView, Option<DeliveryView>), Failure>(
            Failure::DoubleResolve,
        ),
{
    lemma_set_status_keeps_ids(host, id, Status::Taken, id);
    lemma_find_first(host.entries, entry_with(id));
}

/// A cancelled operation leaves no correlation id behind: resolving it,
/// reporting an outcome for it and cancelling it again are all refused as
/// unknown.
pub proof fn lemma_cancelled_is_unknown(host: HostView, id: Seq<char>, delivery: DeliveryView)
    requires
        host.cancel(id) is Ok,
    ensures
        host.cancel(id).unwrap().status(id) is None,
        host.cancel(id).unwrap().resolve(id) == Err::<(HostView, Option<DeliveryView>), Failure>(
            Failure::UnknownCorrelationId,
        ),
        host.cancel(id).unwrap().notify(id, delivery) == Err::<HostView, Failure>(
            Failure::UnknownCorrelationId,
        ),
        host.cancel(id).unwrap().cancel(id) == Err::<HostView, Failure>(
            Failure::UnknownCorrelationId,
        ),
{
    lemma_set_status_keeps_ids(host, id, Status::Cancelled, id);
    lemma_find_first(host.entries, entry_with(id));
}

/// What the host reports under its own reference finds the operation: once
/// the host's reference is recorded for an operation, and no other
/// operation is known under it, the reference leads to the operation's
/// correlation id.
pub proof fn lemma_acknowledged_is_found(host: HostView, id: Seq<char>, reference: Seq<char>)
    requires
        host.acknowledge(id, reference) is Ok,
        host.correlation_of(reference) is None,
    ensures
        host.acknowledge(id, reference)->Ok_0.correlation_of(reference) == Some(id),
        host.acknowledge(id, reference)->Ok_0.reference(id) == Some(reference),
{
    let after = host.acknowledge(id, reference)->Ok_0;
    let i = host.index_of(id).unwrap();
    lemma_find_first(host.entries, entry_with(id));
    lemma_find_first(host.entries, entry_known_as(reference));
    lemma_acknowledge_keeps_ids(host, id, reference, id);
    assert(entry_known_as(reference)(after.entries[i]));
    assert forall|k: int| 0 <= k < i implies !entry_known_as(reference)(
        #[trigger] after.entries[k],
    ) by {
        assert(!entry_known_as(reference)(host.entries[k]));
    }
    lemma_find_first_is(after.entries, entry_known_as(reference), i);
}

} // verus!
