//! Error taxonomy of the worker pipeline and the scheduling state machine.

use vstd::prelude::*;

verus! {

/// Errors of the off-chain worker pipeline.
#[derive(PartialEq, Eq, Structural, Clone, Copy, Debug)]
pub enum Error {
    /// The request payload could not be decoded into valid parameters.
    ArgParseFail,
    /// The entropy source yielded no bytes; the invocation is abandoned.
    SamplingFailure,
}

/// Errors of the on-chain scheduling state machine.
#[derive(PartialEq, Eq, Structural, Clone, Copy, Debug)]
pub enum RandomnessRequestError {
    /// The callback arrived before the scheduled due slot.
    RequestNotReady,
    /// The reported random result lies outside the accepted bounds.
    RandomResultOutOfBounds,
    /// The caller or the supplied request identity is not the one bound to
    /// the schedule record.
    AuthenticityMismatch,
    /// A privileged sub-call to an external service failed; the whole
    /// operation is abandoned with no partial state retained.
    ExternalServiceFailure,
}

} // verus!
