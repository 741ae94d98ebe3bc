//! Recognition of the lossless Modular profile.
//!
//! The meta-adaptive tree and the weighted-predictor header are read by parsers of their own:
//! [`locate_tree`] says where the tree starts, [`select_tree`] where the predictor header starts
//! behind it, and [`parse_standard_modular_profile`] takes the positions at which they end.

use crate::arith::div_ceil_u32;
use crate::bits::{
    bit_count, bits_are_zero, bits_value, lemma_bits_bound, zero_bits, BitError, BitReader,
};
use crate::profile::fields::{
    expect, field, passed, ran, read_u32_selector, selected, Field, Variant,
};
use crate::profile::groups::{
    collect_groups, collect_refusal, collected, find_section, first_of, grid_count, group_axis,
    group_index, lemma_grid, coded_before,
};
use crate::profile::header::{header_refusal, validate_image_header};
use crate::profile::{
    CodestreamInventory, FrameInventory, FrameSectionKind, ImageHeader, ModularChannels,
    ModularGroup, ModularTransformFeature, ProfileError, StandardModularProfile, GROUP_DIMENSION,
};
use crate::vardct_frontend::SampleBitDepth;
use vstd::prelude::*;

verus! {

/// The precision of an image, or why it is refused.
pub open spec fn precision(image: ImageHeader) -> Result<u8, ProfileError> {
    match image.bit_depth {
        SampleBitDepth::Integer { bits_per_sample } => if 1 <= bits_per_sample <= 16 {
            Ok(bits_per_sample as u8)
        } else {
            Err(ProfileError::ModularBitDepth(clamped(bits_per_sample)))
        },
        SampleBitDepth::Float { bits_per_sample, .. } => Err(
            ProfileError::ModularBitDepth(clamped(bits_per_sample)),
        ),
    }
}

/// A precision as a byte.
pub open spec fn clamped(bits: u32) -> u8 {
    if bits <= 255 {
        bits as u8
    } else {
        255
    }
}

/// The channels of an image, or why they are refused.
pub open spec fn layout(image: ImageHeader) -> Result<ModularChannels, ProfileError> {
    if image.grayscale && image.extra_channel_count == 0 {
        Ok(ModularChannels::Gray)
    } else if !image.grayscale && image.extra_channel_count == 0 {
        Ok(ModularChannels::Rgb)
    } else if !image.grayscale && image.extra_channel_count == 1 {
        Ok(ModularChannels::Rgba)
    } else {
        Err(ProfileError::ExtraChannels)
    }
}

/// A final, uncropped, unblended frame of one pass.
pub open spec fn canonical_frame(frame: FrameInventory, image: ImageHeader, channels: ModularChannels) -> bool {
    &&& !frame.is_preview
    &&& frame.is_regular
    &&& frame.is_modular
    &&& frame.flags == 0
    &&& !frame.do_ycbcr
    &&& frame.jpeg_upsampling@[0] == 0
    &&& frame.jpeg_upsampling@[1] == 0
    &&& frame.jpeg_upsampling@[2] == 0
    &&& frame.upsampling == 1
    &&& frame.group_size_shift == 1
    &&& frame.num_passes == 1
    &&& !frame.have_crop
    &&& frame.x0 == 0
    &&& frame.y0 == 0
    &&& frame.width == image.width
    &&& frame.height == image.height
    &&& frame.duration_ticks == 0
    &&& frame.is_last
    &&& frame.save_as_reference == 0
    &&& !frame.save_before_color_transform
    &&& frame.name_bytes == 0
    &&& frame.default_color_blend
    &&& if channels == ModularChannels::Rgba {
        frame.default_extra_blends@.len() == 1 && frame.default_extra_blends@[0]
    } else {
        frame.default_extra_blends@.len() == 0
    }
}

/// The section that holds the global Modular prefix.
pub open spec fn global_kind(image: ImageHeader) -> FrameSectionKind {
    if grid_count(image) == 1 {
        FrameSectionKind::Single
    } else {
        FrameSectionKind::LowFrequencyGlobal
    }
}

/// Why the image and frame headers are outside the profile.
pub open spec fn headers_refusal(data: Seq<u8>, inventory: CodestreamInventory) -> Option<
    ProfileError,
> {
    let image = inventory.image_header;
    if image.width == 0 || image.height == 0 {
        Some(
            ProfileError::Unsupported(
                "the lossless Modular GPU profile requires a non-empty image",
            ),
        )
    } else {
        match (precision(image), layout(image)) {
            (Err(error), _) => Some(error),
            (_, Err(error)) => Some(error),
            (Ok(bits), Ok(channels)) => if image.xyb_encoded {
                Some(
                    ProfileError::Unsupported(
                        "the lossless Modular GPU profile does not use XYB metadata",
                    ),
                )
            } else if header_refusal(data, image, channels, bits) is Some {
                header_refusal(data, image, channels, bits)
            } else if inventory.frames@.len() != 1 {
                Some(
                    ProfileError::Unsupported(
                        "the lossless Modular GPU profile requires exactly one still-image frame",
                    ),
                )
            } else if !canonical_frame(inventory.frames@[0], image, channels) {
                Some(
                    ProfileError::Unsupported(
                        "the lossless Modular GPU profile requires one final uncropped regular frame with canonical grouping, replace blending, and no references",
                    ),
                )
            } else if inventory.frames@[0].group_count != grid_count(image) {
                Some(
                    ProfileError::Unsupported(
                        "frame inventory group count does not match the Modular canvas",
                    ),
                )
            } else if first_of(inventory.frames@[0].sections@, global_kind(image), 0) is None {
                Some(
                    ProfileError::Unsupported("the Modular frame is missing DC-global metadata"),
                )
            } else {
                None
            },
        }
    }
}

/// What the headers of an accepted image say.
#[derive(Clone, Copy, Debug)]
struct Headers {
    bits_per_sample: u8,
    channels: ModularChannels,
    group_columns: u32,
    group_rows: u32,
    /// The section that holds the global Modular prefix.
    global: usize,
}

impl Headers {
    spec fn of(self, inventory: CodestreamInventory) -> bool {
        let image = inventory.image_header;
        &&& image.width > 0
        &&& image.height > 0
        &&& inventory.frames@.len() == 1
        &&& precision(image) == Ok::<u8, ProfileError>(self.bits_per_sample)
        &&& layout(image) == Ok::<ModularChannels, ProfileError>(self.channels)
        &&& self.group_columns == group_axis(image.width)
        &&& self.group_rows == group_axis(image.height)
        &&& inventory.frames@[0].group_count == grid_count(image)
        &&& first_of(inventory.frames@[0].sections@, global_kind(image), 0) == Some(
            self.global as int,
        )
        &&& self.global < inventory.frames@[0].sections@.len()
    }
}

/// Whether a frame is the profile's.
fn is_canonical(frame: &FrameInventory, image: &ImageHeader, channels: ModularChannels) -> (r: bool)
    ensures
        r == canonical_frame(*frame, *image, channels),
{
    if frame.is_preview || !frame.is_regular || !frame.is_modular || frame.flags != 0
        || frame.do_ycbcr || frame.jpeg_upsampling[0] != 0 || frame.jpeg_upsampling[1] != 0
        || frame.jpeg_upsampling[2] != 0 || frame.upsampling != 1 || frame.group_size_shift != 1
        || frame.num_passes != 1 || frame.have_crop || frame.x0 != 0 || frame.y0 != 0 || frame.width
        != image.width || frame.height != image.height || frame.duration_ticks != 0
        || !frame.is_last || frame.save_as_reference != 0 || frame.save_before_color_transform
        || frame.name_bytes != 0 || !frame.default_color_blend {
        return false;
    }
    if channels == ModularChannels::Rgba {
        frame.default_extra_blends.len() == 1 && frame.default_extra_blends[0]
    } else {
        frame.default_extra_blends.len() == 0
    }
}

/// The precision of an image.
fn read_precision(image: &ImageHeader) -> (r: Result<u8, ProfileError>)
    ensures
        r == precision(*image),
{
    let bits: u32 = match image.bit_depth {
        SampleBitDepth::Integer { bits_per_sample } => {
            if 1 <= bits_per_sample && bits_per_sample <= 16 {
                return Ok(bits_per_sample as u8);
            }
            bits_per_sample
        },
        SampleBitDepth::Float { bits_per_sample, .. } => bits_per_sample,
    };
    Err(
        ProfileError::ModularBitDepth(
            if bits <= 255 {
                bits as u8
            } else {
                255
            },
        ),
    )
}

/// Holds the image and frame headers against the profile.
fn accept_headers(codestream: &[u8], inventory: &CodestreamInventory) -> (r: Result<
    Headers,
    ProfileError,
>)
    requires
        codestream@.len() * 8 <= u64::MAX,
    ensures
        match headers_refusal(codestream@, *inventory) {
            Some(error) => r == Err::<Headers, ProfileError>(error),
            None => r matches Ok(headers) && headers.of(*inventory),
        },
{
    let image = inventory.image_header;
    if image.width == 0 || image.height == 0 {
        return Err(
            ProfileError::Unsupported(
                "the lossless Modular GPU profile requires a non-empty image",
            ),
        );
    }
    let bits_per_sample: u8 = match read_precision(&image) {
        Ok(bits) => bits,
        Err(error) => {
            return Err(error);
        },
    };
    let channels = if image.grayscale && image.extra_channel_count == 0 {
        ModularChannels::Gray
    } else if !image.grayscale && image.extra_channel_count == 0 {
        ModularChannels::Rgb
    } else if !image.grayscale && image.extra_channel_count == 1 {
        ModularChannels::Rgba
    } else {
        return Err(ProfileError::ExtraChannels);
    };
    if image.xyb_encoded {
        return Err(
            ProfileError::Unsupported("the lossless Modular GPU profile does not use XYB metadata"),
        );
    }
    match validate_image_header(codestream, &image, channels, bits_per_sample) {
        Ok(_) => {},
        Err(error) => {
            return Err(error);
        },
    }
    if inventory.frames.len() != 1 {
        return Err(
            ProfileError::Unsupported(
                "the lossless Modular GPU profile requires exactly one still-image frame",
            ),
        );
    }
    let frame = &inventory.frames[0];
    if !is_canonical(frame, &image, channels) {
        return Err(
            ProfileError::Unsupported(
                "the lossless Modular GPU profile requires one final uncropped regular frame with canonical grouping, replace blending, and no references",
            ),
        );
    }
    proof {
        lemma_grid(image);
    }
    let group_columns: u32 = div_ceil_u32(image.width, GROUP_DIMENSION);
    let group_rows: u32 = div_ceil_u32(image.height, GROUP_DIMENSION);
    let count: u64 = group_columns as u64 * group_rows as u64;
    if frame.group_count != count {
        return Err(
            ProfileError::Unsupported(
                "frame inventory group count does not match the Modular canvas",
            ),
        );
    }
    let kind = if count == 1 {
        FrameSectionKind::Single
    } else {
        FrameSectionKind::LowFrequencyGlobal
    };
    match find_section(&frame.sections, kind) {
        Some(global) => Ok(
            Headers { bits_per_sample, channels, group_columns, group_rows, global },
        ),
        None => Err(ProfileError::Unsupported("the Modular frame is missing DC-global metadata")),
    }
}

/// The position behind the dequantization of the LF channels, which only VarDCT uses: a flag, and
/// three half-precision numbers where it is not set.
pub open spec fn lf_dequantization(data: Seq<u8>, at: int) -> Result<int, ProfileError> {
    match passed(data, at, 1) {
        Err(error) => Err(error),
        Ok(next) => if bits_value(data, at, 1) != 0 {
            Ok(next)
        } else {
            passed(data, next, 48)
        },
    }
}

/// Advances across the dequantization of the LF channels.
fn parse_lf_channel_dequantization(reader: &mut BitReader<'_>) -> (r: Result<(), ProfileError>)
    requires
        old(reader).wf(),
    ensures
        ran(
            *old(reader),
            *final(reader),
            lf_dequantization(old(reader).data@, old(reader).offset as int),
            r,
        ),
{
    let all_default: u64 = match reader.read_bits(1) {
        Ok(all_default) => all_default,
        Err(error) => {
            return Err(ProfileError::Bits(error));
        },
    };
    if all_default == 0 {
        let ghost start = reader.offset as int;
        let mut k: u32 = 0;
        while k < 3
            invariant
                reader.wf(),
                reader.data == old(reader).data,
                k <= 3,
                reader.offset == start + 16 * k,
                lf_dequantization(old(reader).data@, old(reader).offset as int) == passed(
                    reader.data@,
                    start,
                    48,
                ),
            decreases 3 - k,
        {
            match reader.read_bits(16) {
                Ok(_) => {},
                Err(error) => {
                    return Err(ProfileError::Bits(error));
                },
            }
            k = k + 1;
        }
    }
    Ok(())
}

/// Position of the meta-adaptive tree in the global section.
pub open spec fn tree_start(data: Seq<u8>, inventory: CodestreamInventory) -> Result<
    int,
    ProfileError,
> {
    match headers_refusal(data, inventory) {
        Some(error) => Err(error),
        None => match passed(data, 0, global_section(inventory).offset as int) {
            Err(error) => Err(error),
            Ok(at) => match lf_dequantization(data, at) {
                Err(error) => Err(error),
                Ok(at) => field(
                    data,
                    at,
                    Field { bits: 1, value: 1, name: "global Modular MA tree" },
                ),
            },
        },
    }
}

/// Bits of the section that holds the global Modular prefix.
pub open spec fn global_section(inventory: CodestreamInventory) -> crate::profile::BitRange {
    let sections = inventory.frames@[0].sections@;
    sections[first_of(sections, global_kind(inventory.image_header), 0)->0].bits
}

/// Finds the start of the meta-adaptive tree of accepted headers.
fn find_tree(codestream: &[u8], inventory: &CodestreamInventory) -> (r: Result<
    (Headers, u64),
    ProfileError,
>)
    requires
        codestream@.len() * 8 <= u64::MAX,
    ensures
        match tree_start(codestream@, *inventory) {
            Err(error) => r == Err::<(Headers, u64), ProfileError>(error),
            Ok(at) => r matches Ok((headers, start)) && start == at && headers.of(*inventory),
        },
{
    let headers = match accept_headers(codestream, inventory) {
        Ok(headers) => headers,
        Err(error) => {
            return Err(error);
        },
    };
    let mut reader = BitReader::new(codestream);
    let section = inventory.frames[0].sections[headers.global];
    match reader.skip_bits(section.bits.offset) {
        Ok(_) => {},
        Err(error) => {
            return Err(ProfileError::Bits(error));
        },
    }
    match parse_lf_channel_dequantization(&mut reader) {
        Ok(_) => {},
        Err(error) => {
            return Err(error);
        },
    }
    match expect(&mut reader, Field { bits: 1, value: 1, name: "global Modular MA tree" }) {
        Ok(_) => {},
        Err(error) => {
            return Err(error);
        },
    }
    Ok((headers, reader.bit_offset()))
}

/// Holds the headers against the profile and says where the meta-adaptive tree starts.
pub fn locate_tree(codestream: &[u8], inventory: &CodestreamInventory) -> (r: Result<
    u64,
    ProfileError,
>)
    requires
        codestream@.len() * 8 <= u64::MAX,
    ensures
        match tree_start(codestream@, *inventory) {
            Err(error) => r == Err::<u64, ProfileError>(error),
            Ok(at) => r matches Ok(start) && start == at,
        },
{
    match find_tree(codestream, inventory) {
        Ok((_, start)) => Ok(start),
        Err(error) => Err(error),
    }
}

/// The position of the predictor header behind a tree that ends at `tree_end`.
pub open spec fn tree_selected(data: Seq<u8>, tree_end: int) -> Result<int, ProfileError> {
    field(data, tree_end, Field { bits: 1, value: 1, name: "global Modular tree selection" })
}

/// A reader at a position that another parser reached.
fn reader_at<'a>(codestream: &'a [u8], at: u64) -> (r: Result<BitReader<'a>, ProfileError>)
    requires
        codestream@.len() * 8 <= u64::MAX,
    ensures
        match passed(codestream@, 0, at as int) {
            Err(error) => r == Err::<BitReader<'a>, ProfileError>(error),
            Ok(at) => r matches Ok(reader) && reader.wf() && reader.data == codestream
                && reader.offset == at,
        },
{
    let mut reader = BitReader::new(codestream);
    match reader.skip_bits(at) {
        Ok(_) => Ok(reader),
        Err(error) => Err(ProfileError::Bits(error)),
    }
}

/// Checks that the stream uses the tree that ends at `tree_end`, and says where the
/// weighted-predictor header starts.
pub fn select_tree(codestream: &[u8], tree_end: u64) -> (r: Result<u64, ProfileError>)
    requires
        codestream@.len() * 8 <= u64::MAX,
    ensures
        match tree_selected(codestream@, tree_end as int) {
            Err(error) => r == Err::<u64, ProfileError>(error),
            Ok(at) => r matches Ok(start) && start == at,
        },
{
    let mut reader = match reader_at(codestream, tree_end) {
        Ok(reader) => reader,
        Err(error) => {
            return Err(error);
        },
    };
    match expect(&mut reader, Field { bits: 1, value: 1, name: "global Modular tree selection" }) {
        Ok(_) => Ok(reader.bit_offset()),
        Err(error) => Err(error),
    }
}

/// How the number of transforms is coded.
pub open spec fn count_variants() -> Seq<Variant> {
    seq![
        Variant { base: 0, bits: 0 },
        Variant { base: 1, bits: 0 },
        Variant { base: 2, bits: 4 },
        Variant { base: 18, bits: 8 },
    ]
}

/// How the first channel of a colour transform is coded.
pub open spec fn begin_variants() -> Seq<Variant> {
    seq![
        Variant { base: 0, bits: 3 },
        Variant { base: 8, bits: 6 },
        Variant { base: 72, bits: 10 },
        Variant { base: 1096, bits: 13 },
    ]
}

/// How the kind of a colour transform is coded.
pub open spec fn rct_variants() -> Seq<Variant> {
    seq![
        Variant { base: 6, bits: 0 },
        Variant { base: 0, bits: 2 },
        Variant { base: 2, bits: 4 },
        Variant { base: 10, bits: 6 },
    ]
}

/// The position behind the one colour transform that has a kernel.
pub open spec fn color_transform(data: Seq<u8>, at: int) -> Result<int, ProfileError> {
    match passed(data, at, 2) {
        Err(error) => Err(error),
        Ok(next) => {
            let id = bits_value(data, at, 2);
            if id != 0 {
                Err(
                    ProfileError::ModularTransform(
                        if id == 1 {
                            ModularTransformFeature::Palette
                        } else if id == 2 {
                            ModularTransformFeature::Squeeze
                        } else {
                            ModularTransformFeature::Invalid
                        },
                    ),
                )
            } else {
                match selected(data, next, begin_variants()) {
                    Err(error) => Err(error),
                    Ok((begin, next)) => match selected(data, next, rct_variants()) {
                        Err(error) => Err(error),
                        Ok((kind, end)) => if begin == 0 && kind == 6 {
                            Ok(end)
                        } else {
                            Err(
                                ProfileError::ModularTransform(
                                    ModularTransformFeature::ReversibleColor {
                                        begin_channel: begin as u32,
                                        rct_type: kind as u32,
                                    },
                                ),
                            )
                        },
                    },
                }
            }
        },
    }
}

/// The position behind the transforms: none for grayscale, the colour transform otherwise.
pub open spec fn transforms(data: Seq<u8>, at: int, channels: ModularChannels) -> Result<
    int,
    ProfileError,
> {
    match passed(data, 0, at) {
        Err(error) => Err(error),
        Ok(at) => match selected(data, at, count_variants()) {
            Err(error) => Err(error),
            Ok((count, next)) => if channels == ModularChannels::Gray && count == 0 {
                Ok(next)
            } else if channels != ModularChannels::Gray && count == 1 {
                color_transform(data, next)
            } else if count == 0 {
                Err(
                    ProfileError::Unsupported(
                        "the standard Modular color profile requires its reversible color transform",
                    ),
                )
            } else {
                Err(ProfileError::ModularTransform(ModularTransformFeature::Invalid))
            },
        },
    }
}

/// Reads the one colour transform that has a kernel.
fn read_color_transform(reader: &mut BitReader<'_>) -> (r: Result<(), ProfileError>)
    requires
        old(reader).wf(),
    ensures
        ran(
            *old(reader),
            *final(reader),
            color_transform(old(reader).data@, old(reader).offset as int),
            r,
        ),
{
    proof {
        vstd::arithmetic::power2::lemma2_to64();
        lemma_bits_bound(reader.data@, reader.offset as int, 2);
    }
    let id: u64 = match reader.read_bits(2) {
        Ok(id) => id,
        Err(error) => {
            return Err(ProfileError::Bits(error));
        },
    };
    if id != 0 {
        return Err(
            ProfileError::ModularTransform(
                if id == 1 {
                    ModularTransformFeature::Palette
                } else if id == 2 {
                    ModularTransformFeature::Squeeze
                } else {
                    ModularTransformFeature::Invalid
                },
            ),
        );
    }
    let variants = vec![
        Variant { base: 0, bits: 3 },
        Variant { base: 8, bits: 6 },
        Variant { base: 72, bits: 10 },
        Variant { base: 1096, bits: 13 },
    ];
    assert(variants@ =~= begin_variants());
    let begin_channel: u32 = match read_u32_selector(reader, variants.as_slice()) {
        Ok(begin) => begin,
        Err(error) => {
            return Err(error);
        },
    };
    let variants = vec![
        Variant { base: 6, bits: 0 },
        Variant { base: 0, bits: 2 },
        Variant { base: 2, bits: 4 },
        Variant { base: 10, bits: 6 },
    ];
    assert(variants@ =~= rct_variants());
    let rct_type: u32 = match read_u32_selector(reader, variants.as_slice()) {
        Ok(kind) => kind,
        Err(error) => {
            return Err(error);
        },
    };
    if begin_channel != 0 || rct_type != 6 {
        return Err(
            ProfileError::ModularTransform(
                ModularTransformFeature::ReversibleColor { begin_channel, rct_type },
            ),
        );
    }
    Ok(())
}

/// Reads the end of the global Modular prefix, behind a predictor header that ends at
/// `predictor_end`, and says where it ends.
pub fn parse_dc_global_ir(codestream: &[u8], predictor_end: u64, channels: ModularChannels) -> (r:
    Result<u64, ProfileError>)
    requires
        codestream@.len() * 8 <= u64::MAX,
    ensures
        match transforms(codestream@, predictor_end as int, channels) {
            Err(error) => r == Err::<u64, ProfileError>(error),
            Ok(at) => r matches Ok(end) && end == at && end <= bit_count(codestream@),
        },
{
    let mut reader = match reader_at(codestream, predictor_end) {
        Ok(reader) => reader,
        Err(error) => {
            return Err(error);
        },
    };
    let variants = vec![
        Variant { base: 0, bits: 0 },
        Variant { base: 1, bits: 0 },
        Variant { base: 2, bits: 4 },
        Variant { base: 18, bits: 8 },
    ];
    assert(variants@ =~= count_variants());
    let count: u32 = match read_u32_selector(&mut reader, variants.as_slice()) {
        Ok(count) => count,
        Err(error) => {
            return Err(error);
        },
    };
    let gray = channels == ModularChannels::Gray;
    if gray && count == 0 {
        return Ok(reader.bit_offset());
    }
    if !gray && count == 1 {
        return match read_color_transform(&mut reader) {
            Ok(_) => Ok(reader.bit_offset()),
            Err(error) => Err(error),
        };
    }
    if count == 0 {
        return Err(
            ProfileError::Unsupported(
                "the standard Modular color profile requires its reversible color transform",
            ),
        );
    }
    Err(ProfileError::ModularTransform(ModularTransformFeature::Invalid))
}

/// The only group of an image that has no other.
pub open spec fn single_group(inventory: CodestreamInventory, start: int) -> ModularGroup {
    ModularGroup {
        token_bit_offset: start as u64,
        token_bit_end: global_section(inventory).spec_end()->0,
        x: 0,
        y: 0,
        width: inventory.image_header.width,
        height: inventory.image_header.height,
        stream_index: 0,
    }
}

/// Why the end of the global section is outside the profile, where its prefix ends at `start`.
pub open spec fn global_refusal(data: Seq<u8>, inventory: CodestreamInventory, start: int) -> Option<
    ProfileError,
> {
    match global_section(inventory).spec_end() {
        None => Some(ProfileError::Unsupported("DC-global bit range overflow")),
        Some(end) => if start > end {
            Some(
                ProfileError::Unsupported("Modular DC-global metadata exceeds its TOC section"),
            )
        } else if grid_count(inventory.image_header) == 1 {
            None
        } else if end > bit_count(data) {
            Some(ProfileError::Bits(BitError::UnexpectedEndOfBits))
        } else if !zero_bits(data, start, end as int) {
            Some(
                ProfileError::Unsupported(
                    "non-zero data follows the bounded DC-global prefix metadata",
                ),
            )
        } else {
            collect_refusal(data, inventory.image_header, inventory.frames@[0])
        },
    }
}

/// The groups of an accepted frame, where the global prefix ends at `start`.
pub open spec fn grouped(
    data: Seq<u8>,
    inventory: CodestreamInventory,
    start: int,
    groups: Seq<ModularGroup>,
) -> bool {
    if grid_count(inventory.image_header) == 1 {
        groups == seq![single_group(inventory, start)]
    } else {
        collected(data, inventory.image_header, inventory.frames@[0], groups)
    }
}

/// A group has samples, and tokens inside the codestream.
pub open spec fn usable_group(data: Seq<u8>, group: ModularGroup) -> bool {
    &&& group.width > 0
    &&& group.height > 0
    &&& group.token_bit_offset < group.token_bit_end
    &&& group.token_bit_end <= bit_count(data)
}

/// Every group is usable.
pub open spec fn usable(data: Seq<u8>, groups: Seq<ModularGroup>) -> bool {
    forall|g: int| 0 <= g < groups.len() ==> usable_group(data, #[trigger] groups[g])
}

/// Sides of a group are at most those of a full one.
pub open spec fn bounded_groups(groups: Seq<ModularGroup>) -> bool {
    forall|g: int|
        0 <= g < groups.len() ==> (#[trigger] groups[g]).width <= 256 && groups[g].height <= 256
}

/// No group is larger than a full one.
pub(crate) proof fn lemma_bounded(data: Seq<u8>, inventory: CodestreamInventory, start: int, groups: Seq<ModularGroup>)
    requires
        inventory.image_header.width > 0,
        inventory.image_header.height > 0,
        grouped(data, inventory, start, groups),
    ensures
        bounded_groups(groups),
{
    let image = inventory.image_header;
    lemma_grid(image);
    if grid_count(image) == 1 {
        let a = group_axis(image.width);
        let b = group_axis(image.height);
        assert(a == 1 && b == 1) by (nonlinear_arith)
            requires
                a >= 1,
                b >= 1,
                a * b == 1,
        ;
    } else {
        let sections = inventory.frames@[0].sections@;
        assert forall|g: int| 0 <= g < groups.len() implies (#[trigger] groups[g]).width <= 256
            && groups[g].height <= 256 by {
            assert(coded_before(sections, sections.len() as int, g as u64));
            let j = choose|j: int|
                0 <= j < sections.len() && group_index(#[trigger] sections[j]) == Some(g as u64);
            assert(group_index(sections[j]) == Some(g as u64));
            crate::profile::groups::lemma_group_sides(
                data,
                image,
                inventory.frames@[0],
                sections[j],
                g as u64,
            );
        }
    }
}

/// Takes the groups of an accepted frame.
fn take_groups(codestream: &[u8], inventory: &CodestreamInventory, headers: Headers, start: u64) -> (r:
    Result<Vec<ModularGroup>, ProfileError>)
    requires
        codestream@.len() * 8 <= u64::MAX,
        headers.of(*inventory),
    ensures
        match global_refusal(codestream@, *inventory, start as int) {
            Some(error) => r == Err::<Vec<ModularGroup>, ProfileError>(error),
            None => r matches Ok(groups) && grouped(
                codestream@,
                *inventory,
                start as int,
                groups@,
            ),
        },
{
    let frame = &inventory.frames[0];
    let image = inventory.image_header;
    let end: u64 = match frame.sections[headers.global].bits.end() {
        Some(end) => end,
        None => {
            return Err(ProfileError::Unsupported("DC-global bit range overflow"));
        },
    };
    if start > end {
        return Err(
            ProfileError::Unsupported("Modular DC-global metadata exceeds its TOC section"),
        );
    }
    if frame.group_count == 1 {
        let groups = vec![
            ModularGroup {
                token_bit_offset: start,
                token_bit_end: end,
                x: 0,
                y: 0,
                width: image.width,
                height: image.height,
                stream_index: 0,
            },
        ];
        assert(groups@ =~= seq![single_group(*inventory, start as int)]);
        return Ok(groups);
    }
    match bits_are_zero(codestream, start, end) {
        Ok(zero) => {
            if !zero {
                return Err(
                    ProfileError::Unsupported(
                        "non-zero data follows the bounded DC-global prefix metadata",
                    ),
                );
            }
        },
        Err(error) => {
            return Err(ProfileError::Bits(error));
        },
    }
    collect_groups(codestream, &image, frame)
}

/// Refuses groups without samples, or without tokens inside the codestream.
fn check_groups(codestream: &[u8], groups: &Vec<ModularGroup>) -> (r: Result<(), ProfileError>)
    requires
        codestream@.len() * 8 <= u64::MAX,
        bounded_groups(groups@),
    ensures
        r == if usable(codestream@, groups@) {
            Ok::<(), ProfileError>(())
        } else {
            Err::<(), ProfileError>(
                ProfileError::Unsupported("the Modular frame contains an invalid group token range"),
            )
        },
{
    let codestream_bits: u64 = codestream.len() as u64 * 8;
    let mut i: usize = 0;
    while i < groups.len()
        invariant
            i <= groups@.len(),
            codestream_bits == bit_count(codestream@),
            bounded_groups(groups@),
            forall|g: int| 0 <= g < i ==> usable_group(codestream@, #[trigger] groups@[g]),
        decreases groups@.len() - i,
    {
        let group = groups[i];
        if group.width == 0 || group.height == 0 || group.token_bit_offset >= group.token_bit_end
            || group.token_bit_end > codestream_bits {
            assert(!usable_group(codestream@, groups@[i as int]));
            return Err(
                ProfileError::Unsupported("the Modular frame contains an invalid group token range"),
            );
        }
        proof {
            let (w, h) = (group.width, group.height);
            assert(w * h <= 256 * 256) by (nonlinear_arith)
                requires
                    w <= 256,
                    h <= 256,
            ;
        }
        match group.sample_count() {
            Ok(_) => {},
            Err(error) => {
                return Err(error);
            },
        }
        i = i + 1;
    }
    Ok(())
}

/// The position behind the global Modular prefix.
pub open spec fn prefix_end(
    data: Seq<u8>,
    inventory: CodestreamInventory,
    tree_end: int,
    predictor_end: int,
) -> Result<int, ProfileError> {
    match tree_start(data, inventory) {
        Err(error) => Err(error),
        Ok(_) => match tree_selected(data, tree_end) {
            Err(error) => Err(error),
            Ok(_) => transforms(data, predictor_end, layout(inventory.image_header)->Ok_0),
        },
    }
}

/// Recognizes the lossless Modular grammar, where the meta-adaptive tree ends at `tree_end` and
/// the weighted-predictor header behind it ends at `predictor_end`.
pub fn parse_standard_modular_profile(
    codestream: &[u8],
    inventory: &CodestreamInventory,
    tree_end: u64,
    predictor_end: u64,
) -> (r: Result<StandardModularProfile, ProfileError>)
    requires
        codestream@.len() * 8 <= u64::MAX,
    ensures
        match prefix_end(codestream@, *inventory, tree_end as int, predictor_end as int) {
            Err(error) => r == Err::<StandardModularProfile, ProfileError>(error),
            Ok(start) => match global_refusal(codestream@, *inventory, start) {
                Some(error) => r == Err::<StandardModularProfile, ProfileError>(error),
                None => {
                    ||| r matches Ok(profile) && {
                        let image = inventory.image_header;
                        &&& profile.width == image.width
                        &&& profile.height == image.height
                        &&& precision(image) == Ok::<u8, ProfileError>(profile.bits_per_sample)
                        &&& layout(image) == Ok::<ModularChannels, ProfileError>(profile.channels)
                        &&& profile.group_columns == group_axis(image.width)
                        &&& profile.group_rows == group_axis(image.height)
                        &&& grouped(codestream@, *inventory, start, profile.groups@)
                        &&& usable(codestream@, profile.groups@)
                    }
                    ||| r == Err::<StandardModularProfile, ProfileError>(
                        ProfileError::Unsupported(
                            "the Modular frame contains an invalid group token range",
                        ),
                    ) && exists|groups: Seq<ModularGroup>|
                        {
                            &&& #[trigger] grouped(codestream@, *inventory, start, groups)
                            &&& !usable(codestream@, groups)
                        }
                },
            },
        },
{
    let (headers, _) = match find_tree(codestream, inventory) {
        Ok(found) => found,
        Err(error) => {
            return Err(error);
        },
    };
    match select_tree(codestream, tree_end) {
        Ok(_) => {},
        Err(error) => {
            return Err(error);
        },
    }
    let start: u64 = match parse_dc_global_ir(codestream, predictor_end, headers.channels) {
        Ok(start) => start,
        Err(error) => {
            return Err(error);
        },
    };
    let groups = match take_groups(codestream, inventory, headers, start) {
        Ok(groups) => groups,
        Err(error) => {
            return Err(error);
        },
    };
    proof {
        lemma_bounded(codestream@, *inventory, start as int, groups@);
    }
    match check_groups(codestream, &groups) {
        Ok(_) => {},
        Err(error) => {
            return Err(error);
        },
    }
    Ok(
        StandardModularProfile {
            width: inventory.image_header.width,
            height: inventory.image_header.height,
            bits_per_sample: headers.bits_per_sample,
            channels: headers.channels,
            group_columns: headers.group_columns,
            group_rows: headers.group_rows,
            groups,
        },
    )
}

} // verus!
