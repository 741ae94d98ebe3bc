//! Errors of the VarDCT engine.

use crate::bits::BitError;
use crate::progressive_dc::ProgressiveDcGpuError;
use crate::restoration::RestorationError;
use crate::vardct_artifact::{GpuVarDctLoweringError, VarDctArtifactError};
use crate::vardct_engine::jpeg::JpegCoefficientError;
use vstd::prelude::*;

verus! {

/// Why a VarDCT frame could not be prepared, submitted or validated.
#[allow(inconsistent_fields)]
#[derive(Clone, Copy, Debug, PartialEq, Eq)]
pub enum VarDctDecodeError {
    /// A size or offset does not fit its word.
    ArithmeticOverflow { field: &'static str },
    /// The artifact of a group cannot be laid out.
    Artifact(VarDctArtifactError),
    /// A lowered-task record disagrees with the submitted group.
    ArtifactStatus { field: &'static str, expected: u32, actual: u32 },
    /// Bits of the codestream could not be read.
    Codestream(BitError),
    /// A coefficient decoder reported a failure.
    CoefficientStatus { index: u32 },
    /// The frame was already submitted or its completion already taken.
    CompletionConsumed,
    /// A resource exceeds what the device offers.
    DeviceLimit { resource: &'static str, required: u64, available: u64 },
    /// An internal promise between two stages was broken.
    EngineContract { detail: &'static str },
    /// Bounded stream windows were broken.
    EntropyWindowContract { detail: &'static str },
    /// Two plans disagree in their number of groups.
    GroupPlanCount { component: &'static str, expected: usize, actual: usize },
    /// A stream window is smaller than the least window that makes progress.
    EntropyStreamWindowTooSmall { limit_bytes: u64, minimum_bytes: u64 },
    /// A selected extra channel is not declared.
    ExtraChannelIndex { index: u32, count: usize },
    /// The decoder of an extra channel reported a failure.
    ExtraModularStatus {
        stream: u32,
        code: u32,
        decoded_samples: u32,
        expected_samples: u32,
        cursor: u32,
        packet_end: u32,
    },
    /// Bits remain behind an extra channel.
    ExtraModularTrailingBits { stream: u32, cursor: u32, packet_end: u32 },
    /// The orientation is none of the eight.
    InvalidOrientation { orientation: u32 },
    /// A quant-matrix scale has more than three bits.
    InvalidQuantMatrixScale { channel: &'static str, scale: u32 },
    /// JPEG coefficient reconstruction was refused.
    Jpeg(JpegCoefficientError),
    /// A kernel policy chose a workgroup that the kernel cannot run.
    KernelPolicy { kernel: &'static str, message: &'static str },
    /// The lowering pass reported a failure.
    Lowering(GpuVarDctLoweringError),
    /// The frame cannot be admitted at any stream window.
    MemoryBudgetTooSmall { required_bytes: u64, limit_bytes: u64 },
    /// The image has no frame.
    MissingFrame,
    /// An XYB image declares no inverse opsin matrix.
    MissingInverseOpsin,
    /// A frame that refers to an LF frame was given none.
    MissingProgressiveDcSource,
    /// An extra channel could not be planned or decoded.
    ModularExtra { detail: &'static str },
    /// The output's own status record reported a failure.
    OutputStatus,
    /// A packet decoder reported a failure.
    PacketStatus { group: usize },
    /// LF dependency planes were refused.
    ProgressiveDc(ProgressiveDcGpuError),
    /// The decoder of a raw matrix reported a failure.
    RawHfDequantStatus {
        matrix: u32,
        code: u32,
        decoded_samples: u32,
        expected_samples: u32,
        cursor: u32,
        expected_cursor: u32,
    },
    /// A raw matrix holds a value that no matrix has.
    RawHfDequantValue { matrix: u32 },
    /// Restoration metadata cannot be lowered.
    Restoration(RestorationError),
    /// A mapped status record has the wrong shape.
    StatusAbi { status: &'static str },
    /// A frame that refers to no LF frame was given one.
    UnexpectedProgressiveDcSource,
    /// The colour encoding is not presented.
    UnsupportedColorEncoding,
    /// The format is not packed eight-bit samples.
    UnsupportedFormat,
    /// The orientation is not presented.
    UnsupportedOrientation { orientation: u32 },
    /// The output request is not presented.
    UnsupportedOutput,
    /// The output is not submitted yet.
    UnvalidatedOutputNotSubmitted,
}

} // verus!
