//! What holds of every codestream of the lossless Modular profile.

use crate::bits::bits_value;
use crate::profile::groups::{grid_count, group_axis, lemma_grid};
use crate::profile::header::{canonical_image, header_refusal};
use crate::profile::standard::{
    begin_variants, canonical_frame, count_variants, headers_refusal, layout, parse_dc_global_ir,
    parse_standard_modular_profile, precision, rct_variants,
};
use crate::profile::{
    CodestreamInventory, FrameSectionKind, ModularChannels, ProfileError, StandardModularProfile,
};
use crate::vardct_frontend::SampleBitDepth;
use vstd::prelude::*;

verus! {

/// The profile of a codestream repeats the declared extent, a declared integer precision of one to
/// sixteen bits, and the channels: one for grayscale, three otherwise, four with one extra
/// channel. Its groups of 256 by 256 samples cover the image and reach no further than they must;
/// none is empty, and the tokens of each lie in the codestream.
pub proof fn law_profile(
    codestream: &[u8],
    inventory: &CodestreamInventory,
    tree_end: u64,
    predictor_end: u64,
    profile: StandardModularProfile,
)
    requires
        codestream@.len() * 8 <= u64::MAX,
        call_ensures(
            parse_standard_modular_profile,
            (codestream, inventory, tree_end, predictor_end),
            Ok::<StandardModularProfile, ProfileError>(profile),
        ),
    ensures
        ({
            let image = inventory.image_header;
            &&& profile.width == image.width > 0
            &&& profile.height == image.height > 0
            &&& image.bit_depth == (SampleBitDepth::Integer {
                bits_per_sample: profile.bits_per_sample as u32,
            })
            &&& 1 <= profile.bits_per_sample <= 16
            &&& profile.channels == ModularChannels::Gray <==> image.grayscale
            &&& image.extra_channel_count == if profile.channels == ModularChannels::Rgba {
                1u32
            } else {
                0
            }
            &&& !image.xyb_encoded
            &&& 256 * (profile.group_columns - 1) < image.width <= 256 * profile.group_columns
            &&& 256 * (profile.group_rows - 1) < image.height <= 256 * profile.group_rows
            &&& profile.groups@.len() == profile.group_columns * profile.group_rows
            &&& inventory.frames@.len() == 1
            &&& inventory.frames@[0].group_count == profile.groups@.len()
            &&& forall|g: int|
                0 <= g < profile.groups@.len() ==> {
                    let group = #[trigger] profile.groups@[g];
                    &&& 0 < group.width <= 256
                    &&& 0 < group.height <= 256
                    &&& group.token_bit_offset < group.token_bit_end <= 8 * codestream@.len()
                }
        }),
{
    let image = inventory.image_header;
    let frame = inventory.frames@[0];
    lemma_grid(image);
    let start = crate::profile::standard::prefix_end(
        codestream@,
        *inventory,
        tree_end as int,
        predictor_end as int,
    )->Ok_0;
    crate::profile::standard::lemma_bounded(codestream@, *inventory, start, profile.groups@);
}

/// The frame of a profile is a final regular Modular frame of the image's own extent at its
/// origin, in one pass, that is neither cropped, scaled, subsampled, timed, named, blended nor
/// kept for reference.
pub proof fn law_profile_frame(
    codestream: &[u8],
    inventory: &CodestreamInventory,
    tree_end: u64,
    predictor_end: u64,
    profile: StandardModularProfile,
)
    requires
        codestream@.len() * 8 <= u64::MAX,
        call_ensures(
            parse_standard_modular_profile,
            (codestream, inventory, tree_end, predictor_end),
            Ok::<StandardModularProfile, ProfileError>(profile),
        ),
    ensures
        ({
            let image = inventory.image_header;
            let frame = inventory.frames@[0];
            &&& image.orientation == 1
            &&& !image.has_intrinsic_size && !image.has_preview && !image.has_embedded_icc
            &&& !image.has_animation
            &&& image.modular_16bit_buffers <==> profile.bits_per_sample <= 14
            &&& frame.is_regular && frame.is_modular && frame.is_last && !frame.is_preview
            &&& frame.width == image.width && frame.height == image.height
            &&& frame.x0 == 0 && frame.y0 == 0 && !frame.have_crop
            &&& frame.num_passes == 1 && frame.upsampling == 1 && frame.group_size_shift == 1
            &&& frame.flags == 0 && !frame.do_ycbcr && frame.name_bytes == 0
            &&& frame.jpeg_upsampling@[0] == 0
            &&& frame.jpeg_upsampling@[1] == 0
            &&& frame.jpeg_upsampling@[2] == 0
            &&& frame.duration_ticks == 0 && frame.save_as_reference == 0
            &&& !frame.save_before_color_transform && frame.default_color_blend
            &&& forall|i: int|
                0 <= i < frame.default_extra_blends@.len()
                    ==> #[trigger] frame.default_extra_blends@[i]
            &&& frame.default_extra_blends@.len() == image.extra_channel_count
        }),
{
    let image = inventory.image_header;
    let data = codestream@;
    assert(headers_refusal(data, *inventory) is None);
    let bits = precision(image)->Ok_0;
    let channels = layout(image)->Ok_0;
    assert(header_refusal(data, image, channels, bits) is None);
    assert(canonical_image(image, bits));
    assert(canonical_frame(inventory.frames@[0], image, channels));
}

/// An image of one group has it whole, as the global stream of its only section: its tokens end
/// with that section.
pub proof fn law_single_group(
    codestream: &[u8],
    inventory: &CodestreamInventory,
    tree_end: u64,
    predictor_end: u64,
    profile: StandardModularProfile,
)
    requires
        codestream@.len() * 8 <= u64::MAX,
        inventory.image_header.width <= 256,
        inventory.image_header.height <= 256,
        call_ensures(
            parse_standard_modular_profile,
            (codestream, inventory, tree_end, predictor_end),
            Ok::<StandardModularProfile, ProfileError>(profile),
        ),
    ensures
        profile.groups@.len() == 1,
        ({
            let image = inventory.image_header;
            let group = profile.groups@[0];
            &&& group.x == 0 && group.y == 0
            &&& group.width == image.width && group.height == image.height
            &&& group.stream_index == 0
            &&& group.token_bit_offset > predictor_end
            &&& exists|j: int|
                0 <= j < inventory.frames@[0].sections@.len() && {
                    let section = #[trigger] inventory.frames@[0].sections@[j];
                    &&& section.kind == FrameSectionKind::Single
                    &&& group.token_bit_end == section.bits.offset + section.bits.length
                }
        }),
{
    let image = inventory.image_header;
    let sections = inventory.frames@[0].sections@;
    lemma_grid(image);
    assert(group_axis(image.width) == 1 && group_axis(image.height) == 1);
    assert(grid_count(image) == 1);
    lemma_first_of(sections, FrameSectionKind::Single, 0);
    assert(profile.groups@[0] == crate::profile::standard::single_group(
        *inventory,
        crate::profile::standard::prefix_end(
            codestream@,
            *inventory,
            tree_end as int,
            predictor_end as int,
        )->Ok_0,
    ));
}

/// The first section of a kind is one of that kind.
proof fn lemma_first_of(
    sections: Seq<crate::profile::FrameSection>,
    kind: FrameSectionKind,
    from: int,
)
    requires
        0 <= from,
        crate::profile::groups::first_of(sections, kind, from) is Some,
    ensures
        ({
            let i = crate::profile::groups::first_of(sections, kind, from)->0;
            0 <= i < sections.len() && sections[i].kind == kind
        }),
    decreases sections.len() - from,
{
    if sections[from].kind != kind {
        lemma_first_of(sections, kind, from + 1);
    }
}

/// The global prefix of a grayscale image ends with two clear bits: it has no transform. That of
/// any other image has one transform of the first kind, which starts at the first channel and is
/// the sixth in number, spelled in one of two ways.
pub proof fn law_global_transforms(
    codestream: &[u8],
    predictor_end: u64,
    channels: ModularChannels,
    end: u64,
)
    requires
        codestream@.len() * 8 <= u64::MAX,
        call_ensures(
            parse_dc_global_ir,
            (codestream, predictor_end, channels),
            Ok::<u64, ProfileError>(end),
        ),
    ensures
        ({
            let data = codestream@;
            let at = predictor_end as int;
            &&& end <= 8 * data.len()
            &&& channels == ModularChannels::Gray ==> end == at + 2 && bits_value(data, at, 2) == 0
            &&& channels != ModularChannels::Gray ==> {
                &&& bits_value(data, at, 2) == 1
                &&& bits_value(data, at + 2, 2) == 0
                &&& bits_value(data, at + 4, 2) == 0
                &&& bits_value(data, at + 6, 3) == 0
                &&& end == at + 11 && bits_value(data, at + 9, 2) == 0 || end == at + 15
                    && bits_value(data, at + 9, 2) == 2 && bits_value(data, at + 11, 4) == 4
            }
        }),
{
    let data = codestream@;
    let at = predictor_end as int;
    vstd::arithmetic::power2::lemma2_to64();
    lemma_selected(data, at, count_variants());
    if channels != ModularChannels::Gray {
        assert(bits_value(data, at, 2) == 1);
        assert(bits_value(data, at + 2, 0) == 0);
        lemma_selected(data, at + 4, begin_variants());
        assert(bits_value(data, at + 4, 2) == 0);
        lemma_selected(data, at + 9, rct_variants());
    }
}

/// What a number that is coded in one of four ways takes.
proof fn lemma_selected(data: Seq<u8>, at: int, variants: Seq<crate::profile::fields::Variant>)
    ensures
        0 <= bits_value(data, at, 2) < 4,
        ({
            let variant = variants[bits_value(data, at, 2)];
            0 <= bits_value(data, at + 2, variant.bits as int) < vstd::arithmetic::power2::pow2(
                variant.bits as nat,
            )
        }),
{
    vstd::arithmetic::power2::lemma2_to64();
    crate::bits::lemma_bits_bound(data, at, 2);
    crate::bits::lemma_bits_bound(
        data,
        at + 2,
        variants[bits_value(data, at, 2)].bits as int,
    );
}

} // verus!
