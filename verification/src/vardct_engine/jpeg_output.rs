//! Original JPEG bytes from validated resident coefficients, without a CPU entropy codec.

pub mod framing;
pub mod framing_laws;
pub mod gpu;
pub mod gpu_assemble;
pub mod gpu_laws;
pub mod gpu_scan;
pub mod metadata;
pub mod quantizer_laws;
pub mod quantizers;
pub mod runtime;
pub mod scan;
pub mod scan_laws;
pub mod scan_plan;
pub mod scan_walk;
pub mod segments;
pub mod table_laws;
pub mod tally;
pub mod template;

use crate::arith::round_up_4;
use vstd::layout::size_of;
use vstd::prelude::*;

verus! {

/// Why a JPEG could not be reconstructed.
#[derive(Clone, Copy, Debug, PartialEq, Eq)]
pub enum JpegReconstructionError {
    /// The metadata does not bind to the coefficients.
    Invalid(&'static str),
    /// The metadata declares a form that is not produced.
    Unsupported(&'static str),
    /// A declared size exceeds its configured bound.
    Limit { resource: &'static str, required: u64, limit: u64 },
    /// Host memory for a plan could not be reserved.
    Allocation,
    /// A GPU stage reported a failure.
    GpuStatus { stage: &'static str, status: [u32; 4] },
}

/// Bounds on the input that coefficients are reconstructed from.
#[derive(Clone, Copy, Debug, PartialEq, Eq, Structural)]
pub struct JpegCoefficientLimits {
    pub max_coefficient_words: u64,
    pub max_input_bytes: u64,
    pub max_codestream_bytes: u64,
    pub max_box_bytes: u64,
}

impl Default for JpegCoefficientLimits {
    fn default() -> (limits: Self)
        ensures
            limits.max_coefficient_words == 0x400_0000,
            limits.max_input_bytes == 0x100_0000,
            limits.max_codestream_bytes == 0x100_0000,
            limits.max_box_bytes == 0x100_0000,
    {
        JpegCoefficientLimits {
            max_coefficient_words: 0x400_0000,
            max_input_bytes: 0x100_0000,
            max_codestream_bytes: 0x100_0000,
            max_box_bytes: 0x100_0000,
        }
    }
}

/// Independent host planning, GPU counting and final JPEG byte limits.
#[derive(Clone, Copy, Debug, PartialEq, Eq, Structural)]
pub struct JpegReconstructionLimits {
    pub coefficients: JpegCoefficientLimits,
    pub max_tasks: u64,
    pub max_plan_bytes: u64,
    pub max_raw_scan_bytes: u64,
    pub max_output_bytes: u64,
}

impl Default for JpegReconstructionLimits {
    fn default() -> (limits: Self)
        ensures
            limits.coefficients.max_coefficient_words == 0x400_0000,
            limits.coefficients.max_input_bytes == 0x100_0000,
            limits.coefficients.max_codestream_bytes == 0x100_0000,
            limits.coefficients.max_box_bytes == 0x100_0000,
            limits.max_tasks == 0x10_0000,
            limits.max_plan_bytes == 0x400_0000,
            limits.max_raw_scan_bytes == 0x100_0000,
            limits.max_output_bytes == 0x400_0000,
    {
        JpegReconstructionLimits {
            coefficients: JpegCoefficientLimits::default(),
            max_tasks: 0x10_0000,
            max_plan_bytes: 0x400_0000,
            max_raw_scan_bytes: 0x100_0000,
            max_output_bytes: 0x400_0000,
        }
    }
}

/// `Vec::try_reserve_exact`: it makes room for `additional` more elements, or reports that they
/// cannot be had. Either way the elements stay as they are. No element asked for is always had,
/// and more bytes than `isize::MAX` in all never are. In between the allocator decides, which is
/// left unsaid, as is the room that it makes.
#[verifier::external_body]
fn try_reserve_exact<T>(vec: &mut Vec<T>, additional: usize) -> (r: Result<
    (),
    std::collections::TryReserveError,
>)
    ensures
        final(vec)@ == old(vec)@,
        additional == 0 ==> r is Ok,
        additional > 0 && (old(vec)@.len() + additional) * size_of::<T>() > isize::MAX
            ==> r is Err,
{
    vec.try_reserve_exact(additional)
}

/// An empty vector with room for `count` elements, or the refusal of the allocator. Elements that
/// no allocation can hold are refused, and a vector that needs none is not.
pub fn allocate<T>(count: usize) -> (r: Result<Vec<T>, JpegReconstructionError>)
    ensures
        match r {
            Ok(vec) => vec@ == Seq::<T>::empty(),
            Err(error) => error == JpegReconstructionError::Allocation,
        },
        count == 0 ==> r is Ok,
        count * size_of::<T>() > isize::MAX ==> r is Err,
{
    let mut result: Vec<T> = Vec::new();
    match try_reserve_exact(&mut result, count) {
        Ok(_) => Ok(result),
        Err(_) => Err(JpegReconstructionError::Allocation),
    }
}

/// What `check` returns.
pub open spec fn limit_outcome(resource: &'static str, required: u64, limit: u64) -> Result<
    (),
    JpegReconstructionError,
> {
    if required > limit {
        Err(JpegReconstructionError::Limit { resource, required, limit })
    } else {
        Ok(())
    }
}

/// Refuses a size above its limit.
pub fn check(resource: &'static str, required: u64, limit: u64) -> (r: Result<
    (),
    JpegReconstructionError,
>)
    ensures
        r == limit_outcome(resource, required, limit),
{
    if required > limit {
        Err(JpegReconstructionError::Limit { resource, required, limit })
    } else {
        Ok(())
    }
}

/// What `add` returns.
pub open spec fn sum_outcome(a: int, b: int) -> Result<u64, JpegReconstructionError> {
    if a + b > u64::MAX {
        Err(JpegReconstructionError::Invalid("size overflow"))
    } else {
        Ok((a + b) as u64)
    }
}

/// The sum of two sizes, refused where it does not fit.
pub fn add(a: u64, b: u64) -> (r: Result<u64, JpegReconstructionError>)
    ensures
        r == sum_outcome(a as int, b as int),
{
    match a.checked_add(b) {
        Some(sum) => Ok(sum),
        None => Err(JpegReconstructionError::Invalid("size overflow")),
    }
}

/// What `storage_bytes` returns.
pub open spec fn storage_outcome(bytes: int) -> Result<u64, JpegReconstructionError> {
    if bytes + 3 > u64::MAX {
        Err(JpegReconstructionError::Invalid("size overflow"))
    } else {
        Ok(round_up_4(bytes) as u64)
    }
}

/// Buffer sizes are whole words: `bytes` rounded up to a multiple of four.
pub fn storage_bytes(bytes: u64) -> (r: Result<u64, JpegReconstructionError>)
    ensures
        r == storage_outcome(bytes as int),
{
    match self::add(bytes, 3) {
        Ok(sum) => {
            assert(sum & !3u64 == sum / 4 * 4) by (bit_vector);
            Ok(sum & !3)
        },
        Err(error) => Err(error),
    }
}

} // verus!
