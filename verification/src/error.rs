//! The error taxonomy of the coordination engine.

use vstd::prelude::*;

verus! {

/// Why an operation was refused or failed.
#[derive(Clone, Copy, PartialEq, Eq, Structural, Debug)]
pub enum Error {
    /// The caller asked for something inconsistent with current state.
    PreconditionNotMet,
    /// A channel or resource limit was hit; retry may succeed.
    OutOfResources,
    /// A reliable write exceeded its blocking budget.
    Timeout,
    /// A remote endpoint advertised QoS this side cannot accept.
    IncompatibleQos,
    /// Lock poisoning or a failed selector registration; not recoverable.
    Fatal,
}

} // verus!
