//! Bounded raw-quantization image execution and the following HF-global cursor.

use crate::vardct_engine::execution::side_image::{
    explained, is_explained, shrink_window, shrunk, SideImage, SideImageMemory, SideImageStatus,
};
use crate::vardct_engine::types::VarDctDecodeError;
use vstd::prelude::*;

verus! {

/// A broken promise between two stages.
pub open spec fn broken(detail: &'static str) -> VarDctDecodeError {
    VarDctDecodeError::EngineContract { detail }
}

/// What the packet holds of its next raw matrix.
#[derive(Clone, Copy, Debug)]
pub struct RawMatrixPlan {
    pub matrix_index: u32,
    pub image: Option<SideImage>,
    /// The packet that holds it is bounded.
    pub has_packet_end: bool,
}

/// The stream limit that a raw matrix is planned again with, where its first plan does not fit.
pub fn replan_limit(stream_limit: u64, memory: SideImageMemory, available: u64, minimum: u64) -> (limit:
    Option<u64>)
    requires
        memory.stream_bytes <= memory.memory_bytes,
    ensures
        limit == match shrunk(memory, available, minimum) {
            Some(limit) => Some(
                if limit < stream_limit {
                    limit
                } else {
                    stream_limit
                },
            ),
            None => None,
        },
{
    match shrink_window(memory, available, minimum) {
        Some(limit) => Some(
            if limit < stream_limit {
                limit
            } else {
                stream_limit
            },
        ),
        None => None,
    }
}

/// Windows of a raw matrix, of which one is submitted.
#[derive(Debug)]
pub struct RawMatrixWork {
    pub matrix_index: u32,
    pub image: SideImage,
    /// Ends of the windows, in bits behind the first token.
    pub window_ends: Vec<u32>,
    /// The window behind the submitted one.
    pub next_window: usize,
}

/// Why no raw matrix can be started.
pub open spec fn start_refusal(frame_pending: bool, plan: RawMatrixPlan, planned: u64, allocated: u64) -> Option<
    VarDctDecodeError,
> {
    if !frame_pending {
        Some(VarDctDecodeError::CompletionConsumed)
    } else if plan.image is None {
        Some(broken("raw HF dequant stage has no pending side image"))
    } else if !plan.has_packet_end {
        Some(broken("raw HF dequant stage has no bounded packet end"))
    } else if allocated != planned {
        Some(broken("raw HF dequant allocation disagrees with its byte admission"))
    } else {
        None
    }
}

/// Starts a raw matrix with the first of its windows.
pub fn start_raw_hf_dequant_stage(
    frame_pending: bool,
    plan: RawMatrixPlan,
    planned: u64,
    allocated: u64,
    window_ends: Vec<u32>,
) -> (r: Result<RawMatrixWork, VarDctDecodeError>)
    ensures
        match start_refusal(frame_pending, plan, planned, allocated) {
            Some(error) => r == Err::<RawMatrixWork, VarDctDecodeError>(error),
            None => r matches Ok(work) && work.matrix_index == plan.matrix_index && Some(work.image)
                == plan.image && work.window_ends == window_ends && work.next_window == 1,
        },
{
    if !frame_pending {
        return Err(VarDctDecodeError::CompletionConsumed);
    }
    let image = match plan.image {
        Some(image) => image,
        None => {
            return Err(
                VarDctDecodeError::EngineContract {
                    detail: "raw HF dequant stage has no pending side image",
                },
            );
        },
    };
    if !plan.has_packet_end {
        return Err(
            VarDctDecodeError::EngineContract {
                detail: "raw HF dequant stage has no bounded packet end",
            },
        );
    }
    if allocated != planned {
        return Err(
            VarDctDecodeError::EngineContract {
                detail: "raw HF dequant allocation disagrees with its byte admission",
            },
        );
    }
    Ok(
        RawMatrixWork {
            matrix_index: plan.matrix_index,
            image,
            window_ends,
            next_window: 1,
        },
    )
}

/// How the decoder of a raw matrix ended.
#[derive(Clone, Copy, Debug, PartialEq, Eq, Structural)]
pub struct RawMatrixCode {
    /// A decoded value is none of a matrix.
    pub value_error: bool,
    /// The code is one of success.
    pub completed: bool,
}

/// Why a report is refused after a window that ends `window_end` bits behind the first token.
pub open spec fn status_refusal(
    matrix_index: u32,
    image: SideImage,
    window_end: u32,
    code: RawMatrixCode,
    status: SideImageStatus,
) -> Option<VarDctDecodeError> {
    if code.value_error {
        Some(VarDctDecodeError::RawHfDequantValue { matrix: matrix_index })
    } else if image.token_bit_offset + window_end > u32::MAX {
        Some(broken("raw matrix window end overflows its cursor"))
    } else if !explained(image, image.token_bit_offset + window_end, code.completed, status) {
        Some(
            VarDctDecodeError::RawHfDequantStatus {
                matrix: matrix_index,
                code: status.code,
                decoded_samples: status.decoded_samples,
                expected_samples: image.decoded_words,
                cursor: status.cursor,
                expected_cursor: status.expected_cursor,
            },
        )
    } else {
        None
    }
}

/// Accepts the report of a window.
pub fn validate_status(
    matrix_index: u32,
    image: SideImage,
    window_end: u32,
    code: RawMatrixCode,
    status: SideImageStatus,
) -> (r: Result<(), VarDctDecodeError>)
    ensures
        match status_refusal(matrix_index, image, window_end, code, status) {
            Some(error) => r == Err::<(), VarDctDecodeError>(error),
            None => r is Ok,
        },
{
    if code.value_error {
        return Err(VarDctDecodeError::RawHfDequantValue { matrix: matrix_index });
    }
    let available_end: u32 = match image.token_bit_offset.checked_add(window_end) {
        Some(end) => end,
        None => {
            return Err(
                VarDctDecodeError::EngineContract {
                    detail: "raw matrix window end overflows its cursor",
                },
            );
        },
    };
    if !is_explained(image, available_end, code.completed, status) {
        return Err(
            VarDctDecodeError::RawHfDequantStatus {
                matrix: matrix_index,
                code: status.code,
                decoded_samples: status.decoded_samples,
                expected_samples: image.decoded_words,
                cursor: status.cursor,
                expected_cursor: status.expected_cursor,
            },
        );
    }
    Ok(())
}

/// What follows a completed window.
#[derive(Clone, Copy, Debug, PartialEq, Eq, Structural)]
pub enum RawMatrixStep {
    /// The next window is submitted.
    NextWindow { index: usize },
    /// The commands that end the image are submitted.
    Finalize,
    /// The HF-global prefix is parsed on from here.
    Resume { cursor: u32 },
}

/// What follows a completed window, or why nothing does.
pub open spec fn step_of(
    work: RawMatrixWork,
    code: RawMatrixCode,
    status: SideImageStatus,
    has_finalization: bool,
) -> Result<RawMatrixStep, VarDctDecodeError> {
    if work.next_window > work.window_ends@.len() {
        Err(broken("raw matrix has no submitted window"))
    } else {
        match status_refusal(
            work.matrix_index,
            work.image,
            work.window_ends@[work.next_window - 1],
            code,
            status,
        ) {
            Some(error) => Err(error),
            None => if status.is_in_progress {
                if work.next_window == work.window_ends@.len() {
                    Err(broken("raw matrix yielded after its final window"))
                } else {
                    Ok(RawMatrixStep::NextWindow { index: work.next_window })
                }
            } else if has_finalization {
                Ok(RawMatrixStep::Finalize)
            } else {
                Ok(RawMatrixStep::Resume { cursor: status.cursor })
            },
        }
    }
}

impl RawMatrixWork {
    /// Takes the report of the submitted window.
    pub fn finish_raw_hf_dequant_stage(
        &mut self,
        code: RawMatrixCode,
        status: SideImageStatus,
        has_finalization: bool,
    ) -> (r: Result<RawMatrixStep, VarDctDecodeError>)
        requires
            old(self).next_window > 0,
        ensures
            r == step_of(*old(self), code, status, has_finalization),
            final(self).matrix_index == old(self).matrix_index,
            final(self).image == old(self).image,
            final(self).window_ends == old(self).window_ends,
            final(self).next_window == old(self).next_window + if r matches Ok(
                RawMatrixStep::NextWindow { .. },
            ) {
                1int
            } else {
                0
            },
    {
        if self.next_window > self.window_ends.len() {
            return Err(
                VarDctDecodeError::EngineContract { detail: "raw matrix has no submitted window" },
            );
        }
        let window_end: u32 = self.window_ends[self.next_window - 1];
        match validate_status(self.matrix_index, self.image, window_end, code, status) {
            Ok(_) => {},
            Err(error) => {
                return Err(error);
            },
        }
        if status.is_in_progress {
            if self.next_window == self.window_ends.len() {
                return Err(
                    VarDctDecodeError::EngineContract {
                        detail: "raw matrix yielded after its final window",
                    },
                );
            }
            let index: usize = self.next_window;
            self.next_window = self.next_window + 1;
            return Ok(RawMatrixStep::NextWindow { index });
        }
        if has_finalization {
            return Ok(RawMatrixStep::Finalize);
        }
        Ok(RawMatrixStep::Resume { cursor: status.cursor })
    }
}

/// What follows the end of a raw matrix.
#[derive(Clone, Copy, Debug, PartialEq, Eq, Structural)]
pub enum AfterRawMatrix {
    /// The next raw matrix.
    NextMatrix,
    /// The coefficients.
    Coefficients,
}

/// What follows the end of a raw matrix, once the HF-global prefix is parsed on.
pub fn after_raw_matrix(another_pending: bool) -> (next: AfterRawMatrix)
    ensures
        next == if another_pending {
            AfterRawMatrix::NextMatrix
        } else {
            AfterRawMatrix::Coefficients
        },
{
    if another_pending {
        AfterRawMatrix::NextMatrix
    } else {
        AfterRawMatrix::Coefficients
    }
}

/// A prefix that is parsed on from a raw matrix starts inside the packet's submitted window, with
/// every sample of the matrix decoded where the code is plain success.
pub proof fn law_resumed_inside_window(
    work: RawMatrixWork,
    code: RawMatrixCode,
    status: SideImageStatus,
    has_finalization: bool,
    cursor: u32,
)
    requires
        work.next_window > 0,
        step_of(work, code, status, has_finalization) == Ok::<RawMatrixStep, VarDctDecodeError>(
            RawMatrixStep::Resume { cursor },
        ),
    ensures
        cursor == status.cursor,
        code.completed,
        work.image.token_bit_offset <= cursor <= work.image.token_bit_offset
            + work.window_ends@[work.next_window - 1],
        status.is_ok ==> status.decoded_samples == work.image.decoded_words,
{
}

} // verus!
