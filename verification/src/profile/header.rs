//! The canonical image header.

use crate::bits::BitReader;
use crate::profile::fields::{
    expect_all, fields, integer_depth, ran, read_integer_bit_depth, read_size, size, Field,
};
use crate::profile::{ImageHeader, ModularChannels, ProfileError};
use vstd::prelude::*;

verus! {

/// A field of the grammar.
pub open spec fn fixed(bits: u32, value: u64, name: &'static str) -> Field {
    Field { bits, value, name }
}

/// What opens every codestream with an explicit size.
pub open spec fn opening() -> Seq<Field> {
    seq![fixed(16, 0x0aff, "JPEG XL codestream signature"), fixed(1, 0, "non-small image header")]
}

/// What stands between the size and the precision.
pub open spec fn metadata_fields() -> Seq<Field> {
    seq![
        fixed(1, 0, "non-default image metadata"),
        fixed(1, 0, "no extra metadata fields"),
    ]
}

/// What follows the precision, as far as the alpha channel's own precision.
pub open spec fn channel_fields(channels: ModularChannels, bits_per_sample: u8) -> Seq<Field> {
    let buffers = fixed(
        1,
        if bits_per_sample <= 14 {
            1
        } else {
            0
        },
        "canonical Modular buffer depth",
    );
    let alpha = channels == ModularChannels::Rgba;
    let extra = fixed(
        2,
        if alpha {
            1
        } else {
            0
        },
        "canonical extra-channel count",
    );
    if !alpha {
        seq![buffers, extra]
    } else if bits_per_sample == 8 {
        seq![buffers, extra, fixed(1, 1, "default unassociated alpha metadata")]
    } else {
        seq![
            buffers,
            extra,
            fixed(1, 0, "explicit alpha metadata"),
            fixed(2, 0, "alpha extra-channel type"),
        ]
    }
}

/// The alpha channel's precision is written out.
pub open spec fn explicit_alpha(channels: ModularChannels, bits_per_sample: u8) -> bool {
    channels == ModularChannels::Rgba && bits_per_sample != 8
}

/// What follows the precision of the alpha channel.
pub open spec fn alpha_fields() -> Seq<Field> {
    seq![
        fixed(2, 0, "full-resolution alpha"),
        fixed(2, 0, "empty alpha name"),
        fixed(1, 0, "unassociated alpha"),
    ]
}

/// The colour encoding and the end of the header.
pub open spec fn color_fields(channels: ModularChannels) -> Seq<Field> {
    if channels == ModularChannels::Gray {
        seq![
            fixed(1, 0, "non-XYB image"),
            fixed(1, 0, "non-default grayscale color encoding"),
            fixed(1, 0, "no ICC profile"),
            fixed(2, 1, "grayscale color space"),
            fixed(2, 1, "D65 white point"),
            fixed(1, 0, "enumerated transfer function"),
            fixed(2, 2, "transfer-function selector"),
            fixed(4, 11, "sRGB transfer function"),
            fixed(2, 1, "relative rendering intent"),
            fixed(2, 0, "no image extensions"),
            fixed(1, 1, "default transform data"),
        ]
    } else {
        seq![
            fixed(1, 0, "non-XYB image"),
            fixed(1, 1, "default sRGB color encoding"),
            fixed(2, 0, "no image extensions"),
            fixed(1, 1, "default transform data"),
        ]
    }
}

/// The position behind the size of an image, which must be the inventory's.
pub open spec fn extents(data: Seq<u8>, at: int, image: ImageHeader) -> Result<int, ProfileError> {
    match size(data, at, true) {
        Err(error) => Err(error),
        Ok((height, next)) => match size(data, next, false) {
            Err(error) => Err(error),
            Ok((width, end)) => if width == image.width && height == image.height {
                Ok(end)
            } else {
                Err(
                    ProfileError::Unsupported(
                        "standard image-header extent does not match its inventory",
                    ),
                )
            },
        },
    }
}

/// One grammar behind another.
pub open spec fn and_then_fields(data: Seq<u8>, before: Result<int, ProfileError>, list: Seq<Field>) -> Result<
    int,
    ProfileError,
> {
    match before {
        Err(error) => Err(error),
        Ok(at) => fields(data, at, list),
    }
}

/// A precision behind another grammar.
pub open spec fn and_then_depth(
    data: Seq<u8>,
    before: Result<int, ProfileError>,
    bits_per_sample: u8,
    name: &'static str,
) -> Result<int, ProfileError> {
    match before {
        Err(error) => Err(error),
        Ok(at) => integer_depth(data, at, bits_per_sample, name),
    }
}

/// The position behind the size and the precision.
pub open spec fn header_front(data: Seq<u8>, image: ImageHeader, bits_per_sample: u8) -> Result<
    int,
    ProfileError,
> {
    let sized = match fields(data, 0, opening()) {
        Err(error) => Err(error),
        Ok(at) => extents(data, at, image),
    };
    and_then_depth(
        data,
        and_then_fields(data, sized, metadata_fields()),
        bits_per_sample,
        "main image bit depth",
    )
}

/// The position behind the whole canonical image header.
pub open spec fn header_grammar(
    data: Seq<u8>,
    image: ImageHeader,
    channels: ModularChannels,
    bits_per_sample: u8,
) -> Result<int, ProfileError> {
    let described = and_then_fields(
        data,
        header_front(data, image, bits_per_sample),
        channel_fields(channels, bits_per_sample),
    );
    let alpha = if explicit_alpha(channels, bits_per_sample) {
        and_then_fields(
            data,
            and_then_depth(data, described, bits_per_sample, "alpha bit depth"),
            alpha_fields(),
        )
    } else {
        described
    };
    and_then_fields(data, alpha, color_fields(channels))
}

/// The inventory describes a plain still image.
pub open spec fn canonical_image(image: ImageHeader, bits_per_sample: u8) -> bool {
    &&& image.orientation == 1
    &&& !image.has_intrinsic_size
    &&& !image.has_preview
    &&& !image.has_embedded_icc
    &&& !image.has_animation
    &&& image.modular_16bit_buffers == (bits_per_sample <= 14)
}

/// Why an image header is outside the profile.
pub open spec fn header_refusal(
    data: Seq<u8>,
    image: ImageHeader,
    channels: ModularChannels,
    bits_per_sample: u8,
) -> Option<ProfileError> {
    if !canonical_image(image, bits_per_sample) {
        Some(
            ProfileError::Unsupported(
                "the lossless Modular GPU profile requires canonical still-image metadata",
            ),
        )
    } else {
        match header_grammar(data, image, channels, bits_per_sample) {
            Err(error) => Some(error),
            Ok(end) => if image.bit_range.offset != 0 || image.bit_range.spec_end() != Some(
                end as u64,
            ) {
                Some(
                    ProfileError::HeaderLength {
                        grammar_end: end as u64,
                        inventory: image.bit_range.spec_end(),
                    },
                )
            } else {
                None
            },
        }
    }
}

/// Reads the size of an image, which must be the inventory's.
fn read_extents(reader: &mut BitReader<'_>, image: &ImageHeader) -> (r: Result<(), ProfileError>)
    requires
        old(reader).wf(),
    ensures
        ran(
            *old(reader),
            *final(reader),
            extents(old(reader).data@, old(reader).offset as int, *image),
            r,
        ),
{
    let height: u32 = match read_size(reader, true) {
        Ok(height) => height,
        Err(error) => {
            return Err(error);
        },
    };
    let width: u32 = match read_size(reader, false) {
        Ok(width) => width,
        Err(error) => {
            return Err(error);
        },
    };
    if width != image.width || height != image.height {
        return Err(
            ProfileError::Unsupported("standard image-header extent does not match its inventory"),
        );
    }
    Ok(())
}

/// Reads the size and the precision of an image.
fn read_front(reader: &mut BitReader<'_>, image: &ImageHeader, bits_per_sample: u8) -> (r: Result<
    (),
    ProfileError,
>)
    requires
        old(reader).wf(),
        old(reader).offset == 0,
    ensures
        ran(
            *old(reader),
            *final(reader),
            header_front(old(reader).data@, *image, bits_per_sample),
            r,
        ),
{
    let list = vec![
        Field { bits: 16, value: 0x0aff, name: "JPEG XL codestream signature" },
        Field { bits: 1, value: 0, name: "non-small image header" },
    ];
    assert(list@ =~= opening());
    match expect_all(reader, list.as_slice()) {
        Ok(_) => {},
        Err(error) => {
            return Err(error);
        },
    }
    match read_extents(reader, image) {
        Ok(_) => {},
        Err(error) => {
            return Err(error);
        },
    }
    let list = vec![
        Field { bits: 1, value: 0, name: "non-default image metadata" },
        Field { bits: 1, value: 0, name: "no extra metadata fields" },
    ];
    assert(list@ =~= metadata_fields());
    match expect_all(reader, list.as_slice()) {
        Ok(_) => {},
        Err(error) => {
            return Err(error);
        },
    }
    read_integer_bit_depth(reader, bits_per_sample, "main image bit depth")
}

/// Reads what follows the precision, as far as the alpha channel's own precision.
fn read_channels(reader: &mut BitReader<'_>, channels: ModularChannels, bits_per_sample: u8) -> (r:
    Result<(), ProfileError>)
    requires
        old(reader).wf(),
    ensures
        ran(
            *old(reader),
            *final(reader),
            fields(
                old(reader).data@,
                old(reader).offset as int,
                channel_fields(channels, bits_per_sample),
            ),
            r,
        ),
{
    let has_alpha = channels == ModularChannels::Rgba;
    let mut list = vec![
        Field {
            bits: 1,
            value: if bits_per_sample <= 14 {
                1
            } else {
                0
            },
            name: "canonical Modular buffer depth",
        },
        Field {
            bits: 2,
            value: if has_alpha {
                1
            } else {
                0
            },
            name: "canonical extra-channel count",
        },
    ];
    if has_alpha {
        if bits_per_sample == 8 {
            list.push(Field { bits: 1, value: 1, name: "default unassociated alpha metadata" });
        } else {
            list.push(Field { bits: 1, value: 0, name: "explicit alpha metadata" });
            list.push(Field { bits: 2, value: 0, name: "alpha extra-channel type" });
        }
    }
    assert(list@ =~= channel_fields(channels, bits_per_sample));
    expect_all(reader, list.as_slice())
}

/// Reads the precision of the alpha channel and what follows it.
fn read_alpha(reader: &mut BitReader<'_>, bits_per_sample: u8) -> (r: Result<(), ProfileError>)
    requires
        old(reader).wf(),
    ensures
        ran(
            *old(reader),
            *final(reader),
            and_then_fields(
                old(reader).data@,
                integer_depth(
                    old(reader).data@,
                    old(reader).offset as int,
                    bits_per_sample,
                    "alpha bit depth",
                ),
                alpha_fields(),
            ),
            r,
        ),
{
    match read_integer_bit_depth(reader, bits_per_sample, "alpha bit depth") {
        Ok(_) => {},
        Err(error) => {
            return Err(error);
        },
    }
    let list = vec![
        Field { bits: 2, value: 0, name: "full-resolution alpha" },
        Field { bits: 2, value: 0, name: "empty alpha name" },
        Field { bits: 1, value: 0, name: "unassociated alpha" },
    ];
    assert(list@ =~= alpha_fields());
    expect_all(reader, list.as_slice())
}

/// Reads the colour encoding and the end of the header.
fn read_color(reader: &mut BitReader<'_>, channels: ModularChannels) -> (r: Result<(), ProfileError>)
    requires
        old(reader).wf(),
    ensures
        ran(
            *old(reader),
            *final(reader),
            fields(old(reader).data@, old(reader).offset as int, color_fields(channels)),
            r,
        ),
{
    let list = if channels == ModularChannels::Gray {
        vec![
            Field { bits: 1, value: 0, name: "non-XYB image" },
            Field { bits: 1, value: 0, name: "non-default grayscale color encoding" },
            Field { bits: 1, value: 0, name: "no ICC profile" },
            Field { bits: 2, value: 1, name: "grayscale color space" },
            Field { bits: 2, value: 1, name: "D65 white point" },
            Field { bits: 1, value: 0, name: "enumerated transfer function" },
            Field { bits: 2, value: 2, name: "transfer-function selector" },
            Field { bits: 4, value: 11, name: "sRGB transfer function" },
            Field { bits: 2, value: 1, name: "relative rendering intent" },
            Field { bits: 2, value: 0, name: "no image extensions" },
            Field { bits: 1, value: 1, name: "default transform data" },
        ]
    } else {
        vec![
            Field { bits: 1, value: 0, name: "non-XYB image" },
            Field { bits: 1, value: 1, name: "default sRGB color encoding" },
            Field { bits: 2, value: 0, name: "no image extensions" },
            Field { bits: 1, value: 1, name: "default transform data" },
        ]
    };
    assert(list@ =~= color_fields(channels));
    expect_all(reader, list.as_slice())
}

/// Whether two ends are the same.
fn same_end(a: Option<u64>, b: u64) -> (r: bool)
    ensures
        r == (a == Some(b)),
{
    match a {
        Some(a) => a == b,
        None => false,
    }
}

/// Holds the image header against the profile and against the inventory.
pub fn validate_image_header(
    codestream: &[u8],
    image: &ImageHeader,
    channels: ModularChannels,
    bits_per_sample: u8,
) -> (r: Result<(), ProfileError>)
    requires
        codestream@.len() * 8 <= u64::MAX,
    ensures
        match header_refusal(codestream@, *image, channels, bits_per_sample) {
            Some(error) => r == Err::<(), ProfileError>(error),
            None => r is Ok,
        },
{
    if image.orientation != 1 || image.has_intrinsic_size || image.has_preview
        || image.has_embedded_icc || image.has_animation || image.modular_16bit_buffers != (
    bits_per_sample <= 14) {
        return Err(
            ProfileError::Unsupported(
                "the lossless Modular GPU profile requires canonical still-image metadata",
            ),
        );
    }
    let mut reader = BitReader::new(codestream);
    match read_front(&mut reader, image, bits_per_sample) {
        Ok(_) => {},
        Err(error) => {
            return Err(error);
        },
    }
    match read_channels(&mut reader, channels, bits_per_sample) {
        Ok(_) => {},
        Err(error) => {
            return Err(error);
        },
    }
    if channels == ModularChannels::Rgba && bits_per_sample != 8 {
        match read_alpha(&mut reader, bits_per_sample) {
            Ok(_) => {},
            Err(error) => {
                return Err(error);
            },
        }
    }
    match read_color(&mut reader, channels) {
        Ok(_) => {},
        Err(error) => {
            return Err(error);
        },
    }
    let grammar_end: u64 = reader.bit_offset();
    if image.bit_range.offset != 0 || !same_end(image.bit_range.end(), grammar_end) {
        return Err(
            ProfileError::HeaderLength { grammar_end, inventory: image.bit_range.end() },
        );
    }
    match reader.align_to_byte() {
        Ok(_) => Ok(()),
        Err(error) => Err(ProfileError::Bits(error)),
    }
}

} // verus!
