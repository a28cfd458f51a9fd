//! Handles of pending operations and the chains of transformations that
//! wait for their results.

use vstd::prelude::*;
use vstd::std_specs::convert::FromSpecImpl;
use crate::error::Failure;
use crate::transform::{
    chain_view, fold_chain, lemma_chain_applies_in_order, lemma_fold_chain_concat, run_chain,
    Mismatch, Transform, TransformView,
};
use crate::value::{outcome_view, Value, ValueView};

verus! {

/// The continuation registry of one execution: for every handle issued so
/// far, the chain that waits for its result, or nothing once the handle was
/// released. Handles are issued from 1 upwards and never issued twice.
#[derive(Debug)]
pub struct Registry {
    chains: Vec<Option<Vec<Transform>>>,
}

/// The mathematical content of a [`Registry`]: the chain of handle `h` is
/// at index `h - 1`.
pub struct RegistryView {
    pub chains: Seq<Option<Seq<TransformView>>>,
}

impl RegistryView {
    /// The number of handles issued so far.
    pub open spec fn issued(self) -> nat {
        self.chains.len()
    }

    /// The chain that waits under a handle, if the handle is live.
    pub open spec fn chain_of(self, handle: u32) -> Option<Seq<TransformView>> {
        if 1 <= handle <= self.chains.len() {
            self.chains[handle - 1]
        } else {
            None
        }
    }

    /// The registry after one more handle was issued.
    pub open spec fn register(self) -> RegistryView {
        RegistryView { chains: self.chains.push(Some(Seq::empty())) }
    }

    /// The registry after a transformation was attached to a live handle.
    pub open spec fn attach(self, handle: u32, f: TransformView) -> RegistryView {
        RegistryView {
            chains: self.chains.update(handle - 1, Some(self.chain_of(handle).unwrap().push(f))),
        }
    }

    /// The registry after a live handle was released.
    pub open spec fn release(self, handle: u32) -> RegistryView {
        RegistryView { chains: self.chains.update(handle - 1, None) }
    }

    /// What resolving a handle with an input gives: the chain folded over
    /// the input from its first transformation to its last.
    pub open spec fn resolve(self, handle: u32, input: ValueView) -> Result<ValueView, Failure> {
        match self.chain_of(handle) {
            None => Err(Failure::UnknownCorrelationId),
            Some(chain) => match fold_chain(chain, input) {
                Ok(output) => Ok(output),
                Err(mismatch) => Err(
                    Failure::TypeMismatch {
                        handle,
                        expected: mismatch.expected,
                        actual: mismatch.actual,
                    },
                ),
            },
        }
    }
}

/// The content of one entry of the registry.
pub open spec fn slot_view(slot: Option<Vec<Transform>>) -> Option<Seq<TransformView>> {
    match slot {
        Some(chain) => Some(chain_view(chain@)),
        None => None,
    }
}

impl View for Registry {
    type V = RegistryView;

    closed spec fn view(&self) -> RegistryView {
        RegistryView { chains: self.chains@.map_values(|slot: Option<Vec<Transform>>| slot_view(slot)) }
    }
}

impl Registry {
    /// A registry that has issued no handle.
    pub fn new() -> (r: Registry)
        ensures
            r@ == (RegistryView { chains: Seq::empty() }),
    {
        let r = Registry { chains: Vec::new() };
        proof {
            assert(r@.chains =~= Seq::empty());
        }
        r
    }

    /// The number of handles issued so far.
    pub fn issued(&self) -> (n: usize)
        ensures
            n == self@.issued(),
    {
        self.chains.len()
    }

    /// Whether a chain waits under the handle.
    pub fn is_pending(&self, handle: u32) -> (b: bool)
        ensures
            b == self@.chain_of(handle).is_some(),
    {
        if handle == 0 || handle as usize > self.chains.len() {
            return false;
        }
        self.chains[handle as usize - 1].is_some()
    }

    /// Issues a fresh handle with an empty chain. Fails only when `u32::MAX`
    /// handles were issued.
    pub fn register(&mut self) -> (r: Result<u32, Failure>)
        ensures
            match r {
                Ok(handle) => {
                    &&& old(self)@.issued() < u32::MAX
                    &&& handle == old(self)@.issued() + 1
                    &&& final(self)@ == old(self)@.register()
                },
                Err(e) => {
                    &&& old(self)@.issued() >= u32::MAX
                    &&& e == Failure::HandlesExhausted
                    &&& final(self)@ == old(self)@
                },
            },
    {
        if self.chains.len() >= u32::MAX as usize {
            return Err(Failure::HandlesExhausted);
        }
        self.chains.push(Some(Vec::new()));
        proof {
            assert(chain_view(Seq::<Transform>::empty()) =~= Seq::<TransformView>::empty());
            assert(self@.chains =~= old(self)@.register().chains);
        }
        Ok(self.chains.len() as u32)
    }

    /// Appends a transformation to the chain of a live handle. Fails, and
    /// changes nothing, when no chain waits under the handle.
    pub fn attach(&mut self, handle: u32, f: Transform) -> (r: Result<(), Failure>)
        ensures
            match r {
                Ok(()) => {
                    &&& old(self)@.chain_of(handle).is_some()
                    &&& final(self)@ == old(self)@.attach(handle, f@)
                },
                Err(e) => {
                    &&& old(self)@.chain_of(handle).is_none()
                    &&& e == Failure::UnknownCorrelationId
                    &&& final(self)@ == old(self)@
                },
            },
    {
        if !self.is_pending(handle) {
            return Err(Failure::UnknownCorrelationId);
        }
        let index = handle as usize - 1;
        let mut slot: Option<Vec<Transform>> = None;
        std::mem::swap(&mut self.chains[index], &mut slot);
        let mut chain = slot.unwrap();
        let ghost before = chain@;
        chain.push(f);
        self.chains[index] = Some(chain);
        proof {
            assert(chain_view(before.push(f)) =~= chain_view(before).push(f@));
            assert(self@.chains =~= old(self)@.attach(handle, f@).chains);
        }
        Ok(())
    }

    /// Releases a live handle: its chain is dropped and the handle is never
    /// live again. Fails, and changes nothing, when no chain waits under it.
    pub fn release(&mut self, handle: u32) -> (r: Result<(), Failure>)
        ensures
            match r {
                Ok(()) => {
                    &&& old(self)@.chain_of(handle).is_some()
                    &&& final(self)@ == old(self)@.release(handle)
                },
                Err(e) => {
                    &&& old(self)@.chain_of(handle).is_none()
                    &&& e == Failure::UnknownCorrelationId
                    &&& final(self)@ == old(self)@
                },
            },
    {
        if !self.is_pending(handle) {
            return Err(Failure::UnknownCorrelationId);
        }
        let index = handle as usize - 1;
        self.chains[index] = None;
        proof {
            assert(self@.chains =~= old(self)@.release(handle).chains);
        }
        Ok(())
    }

    /// Folds the chain of a handle over an input. The registry is left as it
    /// is, so the same input gives the same output again.
    pub fn resolve(&self, handle: u32, input: Value) -> (r: Result<Value, Failure>)
        ensures
            outcome_view(r) == self@.resolve(handle, input@),
    {
        if handle == 0 || handle as usize > self.chains.len() {
            return Err(Failure::UnknownCorrelationId);
        }
        match &self.chains[handle as usize - 1] {
            None => Err(Failure::UnknownCorrelationId),
            Some(chain) => match run_chain(chain, input) {
                Ok(output) => Ok(output),
                Err(mismatch) => Err(
                    Failure::TypeMismatch {
                        handle,
                        expected: mismatch.expected,
                        actual: mismatch.actual,
                    },
                ),
            },
        }
    }
}

/// The guest's reference to an operation that the host has yet to finish:
/// the correlation id under which the bridge keeps the operation, and the
/// handle under which the registry of this execution keeps the chain.
#[derive(Debug, Clone, PartialEq, Eq)]
pub struct Promise {
    pub ref_host: String,
    pub ref_guest: u32,
}

/// The mathematical content of a [`Promise`] and of a [`PromisedResult`].
pub struct PromiseView {
    pub ref_host: Seq<char>,
    pub ref_guest: u32,
}

impl View for Promise {
    type V = PromiseView;

    open spec fn view(&self) -> PromiseView {
        PromiseView { ref_host: self.ref_host@, ref_guest: self.ref_guest }
    }
}

/// A promise in the form in which it leaves the guest: the reference
/// under which the host knows the operation, and the handle of its chain.
#[derive(Debug, Clone, PartialEq, Eq)]
pub struct PromisedResult {
    pub ref_host: String,
    pub ref_guest: u32,
}

impl View for PromisedResult {
    type V = PromiseView;

    open spec fn view(&self) -> PromiseView {
        PromiseView { ref_host: self.ref_host@, ref_guest: self.ref_guest }
    }
}

impl From<Promise> for PromisedResult {
    fn from(promise: Promise) -> (r: PromisedResult) {
        PromisedResult { ref_host: promise.ref_host, ref_guest: promise.ref_guest }
    }
}

impl FromSpecImpl<Promise> for PromisedResult {
    open spec fn obeys_from_spec() -> bool {
        true
    }

    open spec fn from_spec(promise: Promise) -> PromisedResult {
        PromisedResult { ref_host: promise.ref_host, ref_guest: promise.ref_guest }
    }
}

impl Promise {
    /// Binds a correlation id of the host to a fresh handle with an empty
    /// chain. Fails only when the registry can issue no further handle.
    pub fn bind(registry: &mut Registry, ref_host: String) -> (r: Result<Promise, Failure>)
        ensures
            match r {
                Ok(promise) => {
                    &&& old(registry)@.issued() < u32::MAX
                    &&& promise.ref_host == ref_host
                    &&& promise.ref_guest == old(registry)@.issued() + 1
                    &&& final(registry)@ == old(registry)@.register()
                },
                Err(e) => {
                    &&& old(registry)@.issued() >= u32::MAX
                    &&& e == Failure::HandlesExhausted
                    &&& final(registry)@ == old(registry)@
                },
            },
    {
        match registry.register() {
            Ok(ref_guest) => Ok(Promise { ref_host, ref_guest }),
            Err(e) => Err(e),
        }
    }

    /// Attaches a transformation behind those that already wait for the
    /// promised result, and hands the promise back. Fails, and changes
    /// nothing, when the registry holds no chain under the promise's handle.
    pub fn map(self, registry: &mut Registry, f: Transform) -> (r: Result<Promise, Failure>)
        ensures
            match r {
                Ok(promise) => {
                    &&& promise == self
                    &&& old(registry)@.chain_of(self.ref_guest).is_some()
                    &&& final(registry)@ == old(registry)@.attach(self.ref_guest, f@)
                },
                Err(e) => {
                    &&& old(registry)@.chain_of(self.ref_guest).is_none()
                    &&& e == Failure::UnknownCorrelationId
                    &&& final(registry)@ == old(registry)@
                },
            },
    {
        match registry.attach(self.ref_guest, f) {
            Ok(()) => Ok(self),
            Err(e) => Err(e),
        }
    }

    /// Folds the chain that waits under the handle `id` over the result that
    /// the host supplied: each transformation takes what the one before it
    /// gave. An unknown handle and a value of the wrong kind are reported,
    /// never fatal.
    pub fn resolve(registry: &Registry, id: u32, input: Value) -> (r: Result<Value, Failure>)
        ensures
            outcome_view(r) == registry@.resolve(id, input@),
    {
        registry.resolve(id, input)
    }
}

/// Resolving a handle under which no chain waits reports an unknown
/// correlation id, whatever the input.
pub proof fn lemma_unknown_handle_is_reported(
    registry: RegistryView,
    handle: u32,
    input: ValueView,
)
    requires
        registry.chain_of(handle).is_none(),
    ensures
        registry.resolve(handle, input) == Err::<ValueView, Failure>(
            Failure::UnknownCorrelationId,
        ),
{
}

/// Resolving a handle whose chain starts with a transformation of another
/// kind than the input reports the mismatch, with the handle and both
/// kinds.
pub proof fn lemma_wrong_kind_is_reported(registry: RegistryView, handle: u32, input: ValueView)
    requires
        registry.chain_of(handle).is_some(),
        registry.chain_of(handle).unwrap().len() > 0,
        registry.chain_of(handle).unwrap()[0].input_kind() != input.kind(),
    ensures
        registry.resolve(handle, input) == Err::<ValueView, Failure>(
            Failure::TypeMismatch {
                handle,
                expected: registry.chain_of(handle).unwrap()[0].input_kind(),
                actual: input.kind(),
            },
        ),
{
    let chain = registry.chain_of(handle).unwrap();
    let head = seq![chain[0]];
    assert(fold_chain(head.drop_last(), input) == Ok::<ValueView, Mismatch>(input));
    lemma_fold_chain_concat(head, chain.skip(1), input);
    assert(head + chain.skip(1) =~= chain);
}

/// Three transformations attached to a handle with an empty chain apply in
/// the order of their attachment: resolving with `x` gives `f3(f2(f1(x)))`.
pub proof fn lemma_attached_in_order(
    registry: RegistryView,
    handle: u32,
    f1: TransformView,
    f2: TransformView,
    f3: TransformView,
    x: ValueView,
)
    requires
        registry.chain_of(handle) == Some(Seq::<TransformView>::empty()),
        f1.input_kind() == x.kind(),
        f2.input_kind() == f1.apply(x).kind(),
        f3.input_kind() == f2.apply(f1.apply(x)).kind(),
    ensures
        registry.attach(handle, f1).attach(handle, f2).attach(handle, f3).resolve(handle, x)
            == Ok::<ValueView, Failure>(f3.apply(f2.apply(f1.apply(x)))),
{
    let r3 = registry.attach(handle, f1).attach(handle, f2).attach(handle, f3);
    assert(r3.chain_of(handle).unwrap() =~= seq![f1, f2, f3]);
    lemma_chain_applies_in_order(f1, f2, f3, x);
}

/// Attaching to one handle, or releasing it, leaves the chain of every
/// other handle as it was, and so does issuing a new handle, which is
/// none of those issued before.
pub proof fn lemma_handles_are_independent(
    registry: RegistryView,
    handle: u32,
    other: u32,
    f: TransformView,
)
    requires
        registry.chain_of(handle).is_some(),
        other != handle,
    ensures
        registry.attach(handle, f).chain_of(other) == registry.chain_of(other),
        registry.release(handle).chain_of(other) == registry.chain_of(other),
        other != registry.issued() + 1 ==> registry.register().chain_of(other)
            == registry.chain_of(other),
        registry.issued() < u32::MAX ==> registry.chain_of((registry.issued() + 1) as u32).is_none()
            && registry.register().chain_of((registry.issued() + 1) as u32) == Some(
            Seq::<TransformView>::empty(),
        ),
{
}

/// A released handle is never live again: neither issuing handles nor
/// attaching to or releasing others brings its chain back.
pub proof fn lemma_released_stays_released(
    registry: RegistryView,
    handle: u32,
    other: u32,
    f: TransformView,
)
    requires
        1 <= handle <= registry.issued(),
        registry.chain_of(handle).is_none(),
        registry.chain_of(other).is_some(),
    ensures
        registry.register().chain_of(handle).is_none(),
        registry.attach(other, f).chain_of(handle).is_none(),
        registry.release(other).chain_of(handle).is_none(),
{
}

} // verus!
