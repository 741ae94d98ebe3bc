//! The lossless Modular profile: bounded image, frame and group metadata.
//!
//! Only the image header, the global Modular prefix and the fixed group headers are inspected.
//! Entropy symbols, residuals, predictors and pixels are left unread for the GPU kernel.

pub mod fields;
pub mod groups;
pub mod header;
pub mod header_laws;
pub mod laws;
pub mod standard;

use crate::bits::BitError;
use crate::vardct_frontend::SampleBitDepth;
use vstd::prelude::*;

verus! {

/// Samples along each side of a full group.
pub const GROUP_DIMENSION: u32 = 256;

/// A Modular transform that has no GPU kernel.
#[derive(Clone, Copy, Debug, PartialEq, Eq, Structural)]
pub enum ModularTransformFeature {
    Palette,
    Squeeze,
    ReversibleColor { begin_channel: u32, rct_type: u32 },
    Invalid,
}

/// Why a codestream is outside the lossless Modular profile.
#[derive(Clone, Copy, Debug, PartialEq, Eq)]
pub enum ProfileError {
    /// Bits could not be read.
    Bits(BitError),
    /// A property of the stream is not the profile's.
    Unsupported(&'static str),
    /// A header field does not hold the profile's value.
    Field { field: &'static str, expected: u64, actual: u64 },
    /// A declared precision is not the image's.
    BitDepth { field: &'static str, expected: u8, actual: u8 },
    /// The image header does not end where the inventory says.
    HeaderLength { grammar_end: u64, inventory: Option<u64> },
    /// A group of the frame has no section.
    MissingPassGroup { index: usize },
    /// Samples are not 1 through 16-bit integers.
    ModularBitDepth(u8),
    /// Only grayscale, RGB and RGBA are supported.
    ExtraChannels,
    /// More than one pass is coded.
    MultiplePasses,
    /// A transform is parsed but has no GPU kernel.
    ModularTransform(ModularTransformFeature),
}

/// Channels of a lossless image.
#[derive(Clone, Copy, Debug, PartialEq, Eq, Structural)]
pub enum ModularChannels {
    Gray,
    Rgb,
    Rgba,
}

/// A range of a codestream's bits.
#[derive(Clone, Copy, Debug, PartialEq, Eq, Structural)]
pub struct BitRange {
    pub offset: u64,
    pub length: u64,
}

impl BitRange {
    /// One past the last bit, where that can be addressed.
    pub open spec fn spec_end(self) -> Option<u64> {
        if self.offset + self.length <= u64::MAX {
            Some((self.offset + self.length) as u64)
        } else {
            None
        }
    }

    pub fn end(self) -> (end: Option<u64>)
        ensures
            end == self.spec_end(),
    {
        self.offset.checked_add(self.length)
    }
}

/// What the inventory found in an image header.
#[derive(Clone, Copy, Debug, PartialEq, Eq)]
pub struct ImageHeader {
    pub width: u32,
    pub height: u32,
    pub orientation: u32,
    pub has_intrinsic_size: bool,
    pub has_preview: bool,
    pub has_embedded_icc: bool,
    pub has_animation: bool,
    pub modular_16bit_buffers: bool,
    pub bit_depth: SampleBitDepth,
    pub grayscale: bool,
    pub extra_channel_count: u32,
    pub xyb_encoded: bool,
    pub bit_range: BitRange,
}

/// What a section of a frame holds.
#[derive(Clone, Copy, Debug, PartialEq, Eq, Structural)]
pub enum FrameSectionKind {
    Single,
    LowFrequencyGlobal,
    LowFrequencyGroup { group_index: u64 },
    HighFrequencyGlobal,
    PassGroup { pass_index: u32, group_index: u64 },
}

/// A section of a frame.
#[derive(Clone, Copy, Debug, PartialEq, Eq, Structural)]
pub struct FrameSection {
    pub kind: FrameSectionKind,
    pub bits: BitRange,
}

/// What the inventory found of a frame.
#[derive(Debug, PartialEq, Eq)]
pub struct FrameInventory {
    pub is_preview: bool,
    pub is_regular: bool,
    pub is_modular: bool,
    pub flags: u64,
    pub do_ycbcr: bool,
    pub jpeg_upsampling: [u32; 3],
    pub upsampling: u32,
    pub group_size_shift: u32,
    pub num_passes: u32,
    pub have_crop: bool,
    pub x0: i32,
    pub y0: i32,
    pub width: u32,
    pub height: u32,
    pub duration_ticks: u64,
    pub is_last: bool,
    pub save_as_reference: u32,
    pub save_before_color_transform: bool,
    pub name_bytes: usize,
    /// The colour channels replace what is below them, at full canvas.
    pub default_color_blend: bool,
    /// The same of each extra channel.
    pub default_extra_blends: Vec<bool>,
    pub group_count: u64,
    pub low_frequency_group_count: u64,
    pub sections: Vec<FrameSection>,
}

/// What the inventory found of a codestream.
#[derive(Debug, PartialEq, Eq)]
pub struct CodestreamInventory {
    pub image_header: ImageHeader,
    pub frames: Vec<FrameInventory>,
}

/// Where the tokens of one group are and which samples they code.
#[derive(Clone, Copy, Debug, PartialEq, Eq, Structural)]
pub struct ModularGroup {
    pub token_bit_offset: u64,
    pub token_bit_end: u64,
    pub x: u32,
    pub y: u32,
    pub width: u32,
    pub height: u32,
    pub stream_index: u32,
}

impl ModularGroup {
    /// Samples of the group in each channel.
    pub fn sample_count(self) -> (r: Result<u32, ProfileError>)
        ensures
            r == if self.width * self.height <= u32::MAX {
                Ok::<u32, ProfileError>((self.width * self.height) as u32)
            } else {
                Err::<u32, ProfileError>(
                    ProfileError::Unsupported("Modular group sample count overflow"),
                )
            },
    {
        match self.width.checked_mul(self.height) {
            Some(count) => Ok(count),
            None => Err(ProfileError::Unsupported("Modular group sample count overflow")),
        }
    }
}

/// A codestream of the lossless Modular profile.
#[derive(Debug, PartialEq, Eq)]
pub struct StandardModularProfile {
    pub width: u32,
    pub height: u32,
    pub bits_per_sample: u8,
    pub channels: ModularChannels,
    pub group_columns: u32,
    pub group_rows: u32,
    pub groups: Vec<ModularGroup>,
}

} // verus!
