//! The fixed-size LF-global noise model; random samples are generated only by the GPU.

use crate::bits::{bit_count, bits_value, BitError, BitReader};
use vstd::arithmetic::power2::pow2;
use vstd::prelude::*;

verus! {

/// Eight unsigned 10-bit samples of the signaled luma-dependent noise strength.
#[derive(Clone, Copy, Debug, PartialEq, Eq)]
pub struct NoiseModel {
    values: [u16; 8],
}

/// What a GPU noise pass needs of a frame.
#[derive(Clone, Copy, Debug, PartialEq, Eq)]
pub struct NoiseParameters {
    /// Strengths in units of one part in 1024.
    pub strengths: [u16; 8],
    pub frame_seed: u64,
    pub group_dimension: u32,
}

/// Samples of a group in each direction; zero where the shift leaves no bit of 128.
pub open spec fn group_dimension(shift: u32) -> u32 {
    if shift < 32 {
        128u32 << shift
    } else {
        0
    }
}

impl NoiseModel {
    /// The samples in stream order.
    pub closed spec fn samples(&self) -> Seq<u16> {
        self.values@
    }

    /// Reads eight samples of ten bits each that all lie in front of bit `packet_end`.
    pub fn parse(reader: &mut BitReader, packet_end: u64) -> (r: Result<Self, BitError>)
        requires
            old(reader).wf(),
        ensures
            final(reader).wf(),
            final(reader).data == old(reader).data,
            if old(reader).offset + 80 <= bit_count(old(reader).data@) && old(reader).offset + 80
                <= packet_end {
                &&& r matches Ok(model) && model.samples().len() == 8 && forall|i: int|
                    0 <= i < 8 ==> #[trigger] model.samples()[i] == bits_value(
                        old(reader).data@,
                        old(reader).offset + 10 * i,
                        10,
                    )
                &&& final(reader).offset == old(reader).offset + 80
            } else {
                &&& r == Err::<Self, BitError>(BitError::UnexpectedEndOfBits)
                &&& final(reader).offset < old(reader).offset + 80
                &&& old(reader).offset <= packet_end ==> final(reader).offset <= packet_end
            },
    {
        let mut values: [u16; 8] = [0u16; 8];
        let ghost data = reader.data@;
        let ghost start = reader.offset as int;
        let mut i: usize = 0;
        while i < 8
            invariant
                reader.wf(),
                reader.data == old(reader).data,
                data == reader.data@,
                start == old(reader).offset,
                i <= 8,
                reader.offset == start + 10 * i,
                i > 0 ==> reader.offset <= packet_end,
                forall|k: int|
                    0 <= k < i ==> #[trigger] values@[k] == bits_value(data, start + 10 * k, 10),
            decreases 8 - i,
        {
            let value: u64 = match reader.read_bounded(10, packet_end) {
                Ok(value) => value,
                Err(error) => {
                    return Err(error);
                },
            };
            proof {
                crate::bits::lemma_bits_bound(data, start + 10 * i, 10);
                vstd::arithmetic::power2::lemma2_to64();
            }
            values[i] = value as u16;
            i = i + 1;
        }
        Ok(NoiseModel { values })
    }

    /// The samples in stream order.
    pub fn values(&self) -> (values: [u16; 8])
        ensures
            values@ == self.samples(),
    {
        self.values
    }

    /// The noise of a frame; none where every strength is zero.
    pub fn parameters(&self, frame_seed: u64, group_size_shift: u32) -> (r: Option<NoiseParameters>)
        ensures
            if exists|i: int| 0 <= i < 8 && #[trigger] self.samples()[i] != 0 {
                r matches Some(parameters) && parameters.strengths@ == self.samples()
                    && parameters.frame_seed == frame_seed && parameters.group_dimension
                    == group_dimension(group_size_shift)
            } else {
                r is None
            },
    {
        let mut i: usize = 0;
        while i < 8
            invariant
                i <= 8,
                forall|k: int| 0 <= k < i ==> #[trigger] self.samples()[k] == 0,
            decreases 8 - i,
        {
            if self.values[i] != 0 {
                assert(self.samples()[i as int] != 0);
                return Some(
                    NoiseParameters {
                        strengths: self.values,
                        frame_seed,
                        group_dimension: if group_size_shift < 32 {
                            128u32 << group_size_shift
                        } else {
                            0
                        },
                    },
                );
            }
            i = i + 1;
        }
        None
    }
}

/// The groups of a frame without a shift have 128 samples in each direction, and every step of the
/// shift doubles them, until no machine word can hold them.
pub proof fn law_noise_groups(
    model: &NoiseModel,
    frame_seed: u64,
    shift: u32,
    parameters: NoiseParameters,
)
    requires
        call_ensures(NoiseModel::parameters, (model, frame_seed, shift), Some(parameters)),
    ensures
        shift <= 24 ==> parameters.group_dimension == 128 * pow2(shift as nat),
        shift > 24 ==> parameters.group_dimension == 0,
        parameters.frame_seed == frame_seed,
        parameters.strengths@ == model.samples(),
        exists|i: int| 0 <= i < 8 && #[trigger] parameters.strengths@[i] != 0,
{
    if shift <= 24 {
        lemma_dimension_fits(shift);
        vstd::bits::lemma_u32_shl_is_mul(128, shift);
    } else if shift < 32 {
        assert(128u32 << shift == 0) by (bit_vector)
            requires
                24 < shift < 32,
        ;
    }
    let i = choose|i: int| 0 <= i < 8 && #[trigger] model.samples()[i] != 0;
    assert(parameters.strengths@[i] != 0);
}

/// A shift of at most 24 bits leaves 128 in a machine word.
proof fn lemma_dimension_fits(shift: u32)
    requires
        shift <= 24,
    ensures
        128 * pow2(shift as nat) <= u32::MAX,
{
    vstd::arithmetic::power2::lemma2_to64();
    if shift < 24 {
        vstd::arithmetic::power2::lemma_pow2_strictly_increases(shift as nat, 24);
    }
}

} // verus!
