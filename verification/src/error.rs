//! The conditions that end a run.

use vstd::prelude::*;

verus! {

/// Why a run was aborted. Every one of these is fatal: a run either
/// completes or stops at the first of them.
#[derive(Clone, Copy, Debug, PartialEq, Eq, Structural)]
pub enum PipelineError {
    /// The program was not called with an input and an output path.
    UsageError,
    /// The input container has no video stream that can be decoded.
    NoVideoStream,
    /// Decoding ended without a single frame.
    EmptyStore,
    /// A decoded frame differs in size from the first one.
    DimensionMismatch,
    /// The output codec is not available.
    EncoderUnavailable,
    /// The input reports a frame rate whose numerator is zero.
    ZeroFrameRate,
    /// A decode, scale, encode or mux call failed.
    ExternalIOFailure,
}

} // verus!
