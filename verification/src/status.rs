//! Status codes: how the outcome of a host function crosses the host boundary.

use vstd::prelude::*;

verus! {

/// A recoverable failure of a host function. The contract that made the call
/// receives it as a non-zero status code and goes on; the host's own state is
/// as it was before the call.
#[derive(Clone, Copy, Debug, PartialEq, Eq, Structural)]
pub enum ApiFailure {
    /// The named argument is not among the arguments of the invocation.
    MissingArgument,
    /// The global value store holds nothing under the key.
    ValueNotFound,
    /// The stored value and the incoming value cannot be merged.
    TypeMismatch,
    /// The name is not in the named-key directory.
    MissingKey,
    /// The destination buffer has not the length that the call needs.
    BufferSizeMismatch,
}

/// A defect of the contract or of the harness. No status code stands for it:
/// the harness that receives one is expected to halt the run.
#[derive(Clone, Copy, Debug, PartialEq, Eq, Structural)]
pub enum Fault {
    /// An argument was asked for while no arguments are established.
    ArgsNotEstablished,
    /// The bytes given for a name are not a length-prefixed UTF-8 string.
    InvalidName,
    /// The bytes given for a key are not the encoding of a key.
    InvalidKey,
    /// The bytes given for a value are not the encoding of a typed value.
    InvalidValue,
    /// The value is too long for its length to be reported as 32 bits.
    ValueTooLarge,
}

/// The status code that stands for success.
pub const STATUS_OK: i32 = 0;

/// The status code of each recoverable failure.
pub open spec fn failure_code(failure: ApiFailure) -> i32 {
    match failure {
        ApiFailure::MissingArgument => 2,
        ApiFailure::ValueNotFound => 6,
        ApiFailure::TypeMismatch => 16,
        ApiFailure::MissingKey => 24,
        ApiFailure::BufferSizeMismatch => 32,
    }
}

/// The status code of an outcome: zero for success, else the failure's code.
pub open spec fn status_of(outcome: Result<(), ApiFailure>) -> i32 {
    match outcome {
        Ok(()) => STATUS_OK,
        Err(failure) => failure_code(failure),
    }
}

/// Calls `casper_types::api_error::i32_from` on the `ApiError` of the same
/// name (`TypeMismatch` is `ApiError::CLTypeMismatch`, `BufferSizeMismatch` is
/// `ApiError::BufferTooSmall`). The contract claims the numbers that the
/// documentation of `ApiError` gives for these variants.
#[verifier::external_body]
fn api_failure_code(failure: ApiFailure) -> (code: i32)
    ensures
        code == failure_code(failure),
{
    let error = match failure {
        ApiFailure::MissingArgument => casper_types::ApiError::MissingArgument,
        ApiFailure::ValueNotFound => casper_types::ApiError::ValueNotFound,
        ApiFailure::TypeMismatch => casper_types::ApiError::CLTypeMismatch,
        ApiFailure::MissingKey => casper_types::ApiError::MissingKey,
        ApiFailure::BufferSizeMismatch => casper_types::ApiError::BufferTooSmall,
    };
    casper_types::api_error::i32_from(Err::<(), casper_types::ApiError>(error))
}

/// Turns the outcome of a host function into the status code that the
/// calling contract sees.
pub fn status_code(outcome: Result<(), ApiFailure>) -> (code: i32)
    ensures
        code == status_of(outcome),
        (code == STATUS_OK) == outcome.is_ok(),
{
    match outcome {
        Ok(()) => STATUS_OK,
        Err(failure) => api_failure_code(failure),
    }
}

/// No two failures share a status code, and none has the code of success.
pub proof fn law_failure_codes_are_distinct(a: ApiFailure, b: ApiFailure)
    ensures
        failure_code(a) != STATUS_OK,
        failure_code(a) == failure_code(b) ==> a == b,
{
}

} // verus!
