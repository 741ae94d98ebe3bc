//! Errors of decode sessions.

use crate::bits::BitError;
use crate::vardct_engine::jpeg_output::JpegReconstructionError;
use crate::vardct_engine::types::VarDctDecodeError;
use vstd::prelude::*;

verus! {

/// Why a decode session could not go on.
#[derive(Clone, Copy, Debug, PartialEq, Eq)]
pub enum Error {
    /// An engine broke its contract.
    EngineContract(&'static str),
    /// The session failed before.
    SessionPoisoned,
    /// A polled operation is still pending.
    OperationInProgress,
    /// All frame slots are held by returned frames.
    Backpressure { limit: usize },
    /// The stream ended before its last frame.
    MissingFinalFrame,
    /// Frames came out of order.
    UnexpectedFrameIndex { expected: usize, actual: usize },
    /// A frame's timing is not the stream's.
    FrameTimebaseMismatch { index: usize },
    /// There are more or fewer frames than declared.
    FrameCountMismatch { hint: usize, actual: usize },
    /// There is more than one acceleration index.
    DuplicateAccelerationIndex,
    /// Incremental input failed before.
    IncrementalInputPoisoned,
    /// Only the main image can be sought in.
    PreviewSelection,
    /// A frame index is inconsistent.
    FrameIndex,
    /// Bits could not be read.
    Bitstream(BitError),
    /// A GPU operation failed.
    Backend,
    /// A VarDCT frame failed.
    VarDct(VarDctDecodeError),
    /// A JPEG could not be reconstructed.
    JpegReconstruction(JpegReconstructionError),
}

} // verus!
