//! The error taxonomy of the service, and its mapping to a stable external
//! surface: a status code and a message that leaks no internal detail.

use vstd::prelude::*;

verus! {

/// Why a worker's `embed` call failed. The worker stays usable afterwards and
/// is always returned to the pool.
#[derive(Clone, Copy, Debug, PartialEq, Eq, Structural)]
pub enum ComputeError {
    /// The inputs could not be encoded for the model.
    EncodeFailed,
    /// The model's output could not be converted to plain vectors.
    ConvertFailed,
}

/// The outcome of a failed request, one variant per stage that can fail.
#[derive(Clone, Copy, Debug, PartialEq, Eq, Structural)]
pub enum AppError {
    /// The request was malformed (an empty input sequence); it never reached
    /// admission or the pool.
    ValidationError,
    /// The admission gate could not grant a permit under its policy.
    AdmissionTimeout,
    /// The worker's `embed` call failed; the detail stays internal.
    ComputeFailed(ComputeError),
    /// An invariant was violated (a held permit but no free worker). This is
    /// unreachable while the pool's invariants hold.
    InternalError,
}

impl AppError {
    /// The stable external status: a client error for invalid input, a
    /// server-busy status when admission is refused, a generic server error
    /// for everything that fails inside.
    pub open spec fn status_spec(self) -> int {
        match self {
            AppError::ValidationError => 400,
            AppError::AdmissionTimeout => 503,
            AppError::ComputeFailed(_) => 500,
            AppError::InternalError => 500,
        }
    }

    /// The external message. Server-side failures all map to one generic
    /// sentence, so no internal detail can leak through it.
    pub open spec fn message_spec(self) -> Seq<char> {
        match self {
            AppError::ValidationError => "Invalid request"@,
            AppError::AdmissionTimeout => "Server busy"@,
            AppError::ComputeFailed(_) => "Something went wrong"@,
            AppError::InternalError => "Something went wrong"@,
        }
    }

    pub fn status_code(&self) -> (c: u16)
        ensures
            c as int == self.status_spec(),
    {
        match self {
            AppError::ValidationError => 400,
            AppError::AdmissionTimeout => 503,
            AppError::ComputeFailed(_) => 500,
            AppError::InternalError => 500,
        }
    }

    pub fn public_message(&self) -> (m: &'static str)
        ensures
            m@ == self.message_spec(),
    {
        match self {
            AppError::ValidationError => "Invalid request",
            AppError::AdmissionTimeout => "Server busy",
            AppError::ComputeFailed(_) => "Something went wrong",
            AppError::InternalError => "Something went wrong",
        }
    }
}

/// No internal detail leaks through the message: both compute failure kinds,
/// and an invariant violation, surface as the same generic sentence.
pub proof fn lemma_messages_do_not_leak(e: ComputeError, f: ComputeError)
    ensures
        AppError::ComputeFailed(e).message_spec() == AppError::ComputeFailed(f).message_spec(),
        AppError::ComputeFailed(e).message_spec() == AppError::InternalError.message_spec(),
{
}

} // verus!
