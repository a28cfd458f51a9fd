//! The failures that the engine reports, and the kinds of value it handles.

use vstd::prelude::*;

verus! {

/// The kind of a value that flows through a continuation chain.
#[derive(Clone, Copy, PartialEq, Eq, Structural, Debug)]
pub enum Kind {
    Bool,
    Number,
    Str,
}

/// Every failure that the engine reports to its caller.
#[derive(Clone, Copy, PartialEq, Eq, Structural, Debug)]
pub enum Failure {
    /// The backend could not read or persist its state.
    StorageFailure,
    /// An open schedule with the same queue, run and instant already exists.
    DuplicateSchedule,
    /// No pending operation is known under the given handle or correlation id.
    UnknownCorrelationId,
    /// The operation's outcome was already delivered or already consumed.
    DoubleResolve,
    /// A transformation of the chain of `handle` declares the input kind
    /// `expected`, but a value of kind `actual` reached it.
    TypeMismatch { handle: u32, expected: Kind, actual: Kind },
    /// The host supplied null, an array or an object.
    UnsupportedValueKind,
    /// Replaying the event with this sequence number gave another output
    /// than the one the log holds.
    DeterminismViolation { sequence_number: u64 },
    /// The text received from the host is not JSON.
    MalformedJson,
    /// A value could not be written as JSON text: it is a number whose
    /// numeral is no JSON number.
    Unserializable,
    /// No further handle can be issued in this execution.
    HandlesExhausted,
    /// The host's reference for the operation was already recorded.
    AlreadyAcknowledged,
}

} // verus!
