//! What a negotiated VarDCT frame profile declares, as plain values.

use crate::arith::{ceil_div, div_ceil_u32};
use vstd::arithmetic::power2::{lemma_pow2_pos, lemma_pow2_strictly_increases, pow2};
use vstd::prelude::*;

verus! {

/// Declared sample precision.
#[derive(Clone, Copy, Debug, PartialEq, Eq, Structural)]
pub enum SampleBitDepth {
    Integer { bits_per_sample: u32 },
    Float { bits_per_sample: u32, exponent_bits_per_sample: u32 },
}

/// Colour space of the coded planes.
#[derive(Clone, Copy, Debug, PartialEq, Eq, Structural)]
pub enum VarDctColorTransform {
    Xyb,
    Ycbcr,
    Rgb,
}

/// Binary subsampling of one channel.
#[derive(Clone, Copy, Debug, PartialEq, Eq, Structural)]
pub struct VarDctChannelShift {
    pub horizontal: u32,
    pub vertical: u32,
}

impl Default for VarDctChannelShift {
    fn default() -> (shift: Self)
        ensures
            shift == (VarDctChannelShift { horizontal: 0, vertical: 0 }),
    {
        VarDctChannelShift { horizontal: 0, vertical: 0 }
    }
}

/// Samples that remain of `size` after `shift` halvings, rounded up.
pub open spec fn shifted(size: int, shift: int) -> int {
    ceil_div(size, pow2(shift as nat) as int)
}

impl VarDctChannelShift {
    /// The channel has fewer samples than the frame in some direction.
    pub open spec fn subsampled(self) -> bool {
        self.horizontal != 0 || self.vertical != 0
    }

    pub fn is_subsampled(&self) -> (r: bool)
        ensures
            r == self.subsampled(),
    {
        self.horizontal != 0 || self.vertical != 0
    }

    /// The extent of this channel inside a frame of `width` by `height`; `None` where a shift
    /// is not smaller than the word size.
    pub open spec fn extent_of(self, width: u32, height: u32) -> Option<(int, int)> {
        if self.horizontal < 32 && self.vertical < 32 {
            Some(
                (
                    shifted(width as int, self.horizontal as int),
                    shifted(height as int, self.vertical as int),
                ),
            )
        } else {
            None
        }
    }

    pub fn shifted_extent(&self, width: u32, height: u32) -> (r: Option<[u32; 2]>)
        ensures
            match self.extent_of(width, height) {
                Some((w, h)) => r matches Some(e) && e[0] == w && e[1] == h,
                None => r is None,
            },
    {
        if self.horizontal < 32 && self.vertical < 32 {
            Some([shift_ceil(width, self.horizontal), shift_ceil(height, self.vertical)])
        } else {
            None
        }
    }
}

/// `value` halved `shift` times, rounded up.
pub fn shift_ceil(value: u32, shift: u32) -> (r: u32)
    requires
        shift < 32,
    ensures
        r == shifted(value as int, shift as int),
        r <= value,
{
    proof {
        lemma_one_shifted(shift);
        lemma_pow2_pos(shift as nat);
        crate::arith::lemma_ceil_div(value as int, pow2(shift as nat) as int);
    }
    div_ceil_u32(value, 1u32 << shift)
}

/// A one moved up by `shift` bits is that power of two.
pub proof fn lemma_one_shifted(shift: u32)
    requires
        shift < 32,
    ensures
        1u32 << shift == pow2(shift as nat),
{
    vstd::arithmetic::power2::lemma2_to64();
    lemma_pow2_strictly_increases(shift as nat, 32);
    vstd::bits::lemma_u32_shl_is_mul(1, shift);
}

/// A bounded standard VarDCT frame.
#[derive(Clone, Copy, Debug)]
pub struct StandardVarDctProfile {
    pub width: u32,
    pub height: u32,
    pub output_width: u32,
    pub output_height: u32,
    pub upsampling: u32,
    pub sample_bit_depth: SampleBitDepth,
    pub color_transform: VarDctColorTransform,
    pub channel_shifts: [VarDctChannelShift; 3],
    /// Binary logarithm of the block multiple that one minimum coded unit spans.
    pub jpeg_block_alignment: [u32; 2],
    pub group_count: u64,
    pub lf_level: u32,
    pub uses_lf_frame: bool,
    pub adaptive_lf_smoothing: bool,
}

} // verus!
