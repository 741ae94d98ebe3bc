use jxl_wgpu_decode::bits::{BitError, BitReader};
use jxl_wgpu_decode::profile::fields::{
    read_integer_bit_depth, read_size, read_u32_selector, Variant,
};
use jxl_wgpu_decode::profile::standard::{
    locate_tree, parse_standard_modular_profile, select_tree,
};
use jxl_wgpu_decode::profile::{
    BitRange, CodestreamInventory, FrameInventory, FrameSection, FrameSectionKind, ImageHeader,
    ModularChannels, ModularGroup, ModularTransformFeature, ProfileError,
};
use jxl_wgpu_decode::vardct_frontend::SampleBitDepth;

struct Writer {
    bytes: Vec<u8>,
    used: u64,
}

impl Writer {
    fn new() -> Self {
        Writer { bytes: Vec::new(), used: 0 }
    }

    fn write(&mut self, bits: u32, value: u64) -> &mut Self {
        for place in 0..bits {
            if self.used % 8 == 0 {
                self.bytes.push(0);
            }
            *self.bytes.last_mut().unwrap() |= ((value >> place & 1) as u8) << (self.used % 8);
            self.used += 1;
        }
        self
    }
}

/// Tree bits stand in for a meta-adaptive tree, predictor bits for a weighted-predictor header.
struct Stream {
    bytes: Vec<u8>,
    inventory: CodestreamInventory,
    tree_start: u64,
    tree_end: u64,
    predictor_end: u64,
}

fn size(writer: &mut Writer, value: u32, ratio: bool) {
    writer.write(2, 1).write(13, u64::from(value - 1));
    if ratio {
        writer.write(3, 0);
    }
}

fn depth(writer: &mut Writer, bits: u8) {
    writer.write(1, 0);
    match bits {
        8 => writer.write(2, 0),
        10 => writer.write(2, 1),
        12 => writer.write(2, 2),
        _ => writer.write(2, 3).write(6, u64::from(bits) - 1),
    };
}

fn header(writer: &mut Writer, width: u32, height: u32, channels: ModularChannels, bits: u8) {
    writer.write(16, 0x0aff).write(1, 0);
    size(writer, height, true);
    size(writer, width, false);
    writer.write(2, 0);
    depth(writer, bits);
    writer.write(1, u64::from(bits <= 14));
    let alpha = channels == ModularChannels::Rgba;
    writer.write(2, u64::from(alpha));
    if alpha {
        if bits == 8 {
            writer.write(1, 1);
        } else {
            writer.write(1, 0).write(2, 0);
            depth(writer, bits);
            writer.write(2, 0).write(2, 0).write(1, 0);
        }
    }
    writer.write(1, 0);
    if channels == ModularChannels::Gray {
        writer.write(1, 0).write(1, 0).write(2, 1).write(2, 1).write(1, 0);
        writer.write(2, 2).write(4, 11).write(2, 1);
    } else {
        writer.write(1, 1);
    }
    writer.write(2, 0).write(1, 1);
}

fn stream(width: u32, height: u32, channels: ModularChannels, bits: u8) -> Stream {
    let mut writer = Writer::new();
    header(&mut writer, width, height, channels, bits);
    let bit_range = BitRange { offset: 0, length: writer.used };
    let columns = width.div_ceil(256);
    let groups = u64::from(columns * height.div_ceil(256));
    let global = writer.used;
    writer.write(1, 1).write(1, 1);
    let tree_start = writer.used;
    writer.write(11, 0x2a5);
    let tree_end = writer.used;
    writer.write(1, 1).write(1, 1);
    let predictor_end = writer.used;
    if channels == ModularChannels::Gray {
        writer.write(2, 0);
    } else {
        writer.write(2, 1).write(2, 0).write(2, 0).write(3, 0).write(2, 0);
    }
    let mut sections = Vec::new();
    if groups == 1 {
        writer.write(20, 0xfffff);
        sections.push(FrameSection {
            kind: FrameSectionKind::Single,
            bits: BitRange { offset: global, length: writer.used - global },
        });
    } else {
        sections.push(FrameSection {
            kind: FrameSectionKind::LowFrequencyGlobal,
            bits: BitRange { offset: global, length: writer.used - global },
        });
        sections.push(FrameSection {
            kind: FrameSectionKind::LowFrequencyGroup { group_index: 0 },
            bits: BitRange { offset: writer.used, length: 0 },
        });
        for group_index in (0..groups).rev() {
            let offset = writer.used;
            writer.write(1, 1).write(1, 1).write(2, 0).write(10, 0x3ff);
            sections.push(FrameSection {
                kind: FrameSectionKind::PassGroup { pass_index: 0, group_index },
                bits: BitRange { offset, length: 14 },
            });
        }
    }
    Stream {
        bytes: writer.bytes,
        inventory: CodestreamInventory {
            image_header: ImageHeader {
                width,
                height,
                orientation: 1,
                has_intrinsic_size: false,
                has_preview: false,
                has_embedded_icc: false,
                has_animation: false,
                modular_16bit_buffers: bits <= 14,
                bit_depth: SampleBitDepth::Integer { bits_per_sample: u32::from(bits) },
                grayscale: channels == ModularChannels::Gray,
                extra_channel_count: u32::from(channels == ModularChannels::Rgba),
                xyb_encoded: false,
                bit_range,
            },
            frames: vec![FrameInventory {
                is_preview: false,
                is_regular: true,
                is_modular: true,
                flags: 0,
                do_ycbcr: false,
                jpeg_upsampling: [0; 3],
                upsampling: 1,
                group_size_shift: 1,
                num_passes: 1,
                have_crop: false,
                x0: 0,
                y0: 0,
                width,
                height,
                duration_ticks: 0,
                is_last: true,
                save_as_reference: 0,
                save_before_color_transform: false,
                name_bytes: 0,
                default_color_blend: true,
                default_extra_blends: vec![true; usize::from(channels == ModularChannels::Rgba)],
                group_count: groups,
                low_frequency_group_count: 1,
                sections,
            }],
        },
        tree_start,
        tree_end,
        predictor_end,
    }
}

fn parse(stream: &Stream) -> Result<jxl_wgpu_decode::profile::StandardModularProfile, ProfileError> {
    parse_standard_modular_profile(
        &stream.bytes,
        &stream.inventory,
        stream.tree_end,
        stream.predictor_end,
    )
}

#[test]
fn every_channel_layout_and_depth_is_recognized() {
    for channels in [ModularChannels::Gray, ModularChannels::Rgb, ModularChannels::Rgba] {
        for bits in 1..=16 {
            let stream = stream(40, 30, channels, bits);
            assert_eq!(locate_tree(&stream.bytes, &stream.inventory), Ok(stream.tree_start));
            assert_eq!(select_tree(&stream.bytes, stream.tree_end), Ok(stream.tree_end + 1));
            let profile = parse(&stream).unwrap();
            assert_eq!((profile.width, profile.height), (40, 30));
            assert_eq!((profile.bits_per_sample, profile.channels), (bits, channels));
            assert_eq!((profile.group_columns, profile.group_rows), (1, 1));
            assert_eq!(profile.groups.len(), 1);
            assert_eq!(profile.groups[0].sample_count(), Ok(1200));
        }
    }
}

#[test]
fn groups_are_placed_by_their_index() {
    let stream = stream(600, 300, ModularChannels::Gray, 8);
    let profile = parse(&stream).unwrap();
    assert_eq!((profile.group_columns, profile.group_rows), (3, 2));
    let sections = &stream.inventory.frames[0].sections;
    for (index, group) in profile.groups.iter().enumerate() {
        let section = sections[2 + 5 - index];
        assert_eq!(
            *group,
            ModularGroup {
                token_bit_offset: section.bits.offset + 4,
                token_bit_end: section.bits.offset + 14,
                x: index as u32 % 3 * 256,
                y: index as u32 / 3 * 256,
                width: if index % 3 == 2 { 88 } else { 256 },
                height: if index / 3 == 1 { 44 } else { 256 },
                stream_index: 21 + index as u32,
            }
        );
    }
}

fn refused(change: fn(&mut Stream)) -> ProfileError {
    let mut stream = stream(600, 300, ModularChannels::Rgb, 8);
    change(&mut stream);
    parse(&stream).unwrap_err()
}

#[test]
fn streams_outside_the_profile_are_refused() {
    assert_eq!(
        refused(|s| s.inventory.image_header.width = 0),
        ProfileError::Unsupported("the lossless Modular GPU profile requires a non-empty image")
    );
    assert_eq!(
        refused(|s| s.inventory.image_header.bit_depth = SampleBitDepth::Integer { bits_per_sample: 17 }),
        ProfileError::ModularBitDepth(17)
    );
    assert_eq!(
        refused(|s| {
            s.inventory.image_header.bit_depth =
                SampleBitDepth::Float { bits_per_sample: 300, exponent_bits_per_sample: 5 }
        }),
        ProfileError::ModularBitDepth(255)
    );
    assert_eq!(
        refused(|s| s.inventory.image_header.extra_channel_count = 2),
        ProfileError::ExtraChannels
    );
    assert_eq!(
        refused(|s| s.inventory.image_header.xyb_encoded = true),
        ProfileError::Unsupported("the lossless Modular GPU profile does not use XYB metadata")
    );
    assert_eq!(
        refused(|s| s.inventory.image_header.orientation = 2),
        ProfileError::Unsupported(
            "the lossless Modular GPU profile requires canonical still-image metadata"
        )
    );
    assert_eq!(
        refused(|s| s.bytes[0] = 0xfe),
        ProfileError::Field {
            field: "JPEG XL codestream signature",
            expected: 0x0aff,
            actual: 0x0afe,
        }
    );
    assert_eq!(
        refused(|s| s.inventory.image_header.height = 301),
        ProfileError::Unsupported("standard image-header extent does not match its inventory")
    );
    assert!(matches!(
        refused(|s| s.inventory.image_header.bit_range.length += 1),
        ProfileError::HeaderLength { .. }
    ));
    assert_eq!(
        refused(|s| s.bytes.truncate(1)),
        ProfileError::Bits(BitError::UnexpectedEndOfBits)
    );
    assert_eq!(
        refused(|s| s.inventory.frames.clear()),
        ProfileError::Unsupported(
            "the lossless Modular GPU profile requires exactly one still-image frame"
        )
    );
    assert_eq!(
        refused(|s| s.inventory.frames[0].default_color_blend = false),
        ProfileError::Unsupported(
            "the lossless Modular GPU profile requires one final uncropped regular frame with canonical grouping, replace blending, and no references"
        )
    );
    assert_eq!(
        refused(|s| s.inventory.frames[0].group_count = 5),
        ProfileError::Unsupported("frame inventory group count does not match the Modular canvas")
    );
    assert_eq!(
        refused(|s| {
            s.inventory.frames[0].sections.remove(0);
        }),
        ProfileError::Unsupported("the Modular frame is missing DC-global metadata")
    );
}

#[test]
fn sections_that_do_not_code_each_group_once_are_refused() {
    assert_eq!(
        refused(|s| {
            s.inventory.frames[0].sections.pop();
        }),
        ProfileError::MissingPassGroup { index: 0 }
    );
    assert_eq!(
        refused(|s| {
            let first = s.inventory.frames[0].sections[2];
            s.inventory.frames[0].sections.push(first);
        }),
        ProfileError::Unsupported("the Modular frame contains a duplicate pass-group section")
    );
    assert_eq!(
        refused(|s| {
            s.inventory.frames[0].sections[2].kind =
                FrameSectionKind::PassGroup { pass_index: 0, group_index: 6 }
        }),
        ProfileError::Unsupported("Modular pass-group index exceeds the frame grid")
    );
    assert_eq!(
        refused(|s| {
            s.inventory.frames[0].sections[2].kind =
                FrameSectionKind::PassGroup { pass_index: 1, group_index: 5 }
        }),
        ProfileError::MultiplePasses
    );
    assert_eq!(
        refused(|s| s.inventory.frames[0].sections[1].bits = BitRange { offset: 0, length: 8 }),
        ProfileError::Unsupported(
            "the lossless Modular profile requires empty LF-group and HF-global sections"
        )
    );
    assert_eq!(
        refused(|s| s.inventory.frames[0].sections[0].bits.length += 2),
        ProfileError::Unsupported("non-zero data follows the bounded DC-global prefix metadata")
    );
    assert_eq!(
        refused(|s| s.inventory.frames[0].sections[0].bits.length = 3),
        ProfileError::Unsupported("Modular DC-global metadata exceeds its TOC section")
    );
    assert_eq!(
        refused(|s| s.inventory.frames[0].sections[2].bits.length = 4),
        ProfileError::Unsupported("the Modular frame contains an invalid group token range")
    );
    assert_eq!(
        refused(|s| s.inventory.frames[0].low_frequency_group_count = u64::MAX / 3),
        ProfileError::Unsupported("Modular stream index overflow")
    );
    assert_eq!(
        refused(|s| s.inventory.frames[0].low_frequency_group_count = 1 << 40),
        ProfileError::Unsupported("Modular stream index exceeds u32")
    );
}

#[test]
fn only_the_canonical_colour_transform_is_accepted() {
    let with = |write: fn(&mut Writer)| {
        let mut stream = stream(40, 30, ModularChannels::Rgb, 8);
        let mut writer = Writer::new();
        write(&mut writer);
        stream.bytes = writer_over(&stream, &writer);
        parse(&stream)
    };
    assert_eq!(
        with(|w| {
            w.write(2, 1).write(2, 1);
        }).unwrap_err(),
        ProfileError::ModularTransform(ModularTransformFeature::Palette)
    );
    assert_eq!(
        with(|w| {
            w.write(2, 1).write(2, 2);
        }).unwrap_err(),
        ProfileError::ModularTransform(ModularTransformFeature::Squeeze)
    );
    assert_eq!(
        with(|w| {
            w.write(2, 1).write(2, 0).write(2, 1).write(6, 3).write(2, 1).write(2, 2);
        }).unwrap_err(),
        ProfileError::ModularTransform(ModularTransformFeature::ReversibleColor {
            begin_channel: 11,
            rct_type: 2,
        })
    );
    assert_eq!(
        with(|w| {
            w.write(2, 0);
        }).unwrap_err(),
        ProfileError::Unsupported(
            "the standard Modular color profile requires its reversible color transform"
        )
    );
    assert_eq!(
        with(|w| {
            w.write(2, 2).write(4, 1);
        }).unwrap_err(),
        ProfileError::ModularTransform(ModularTransformFeature::Invalid)
    );
}

/// The stream with other bits behind its predictor header.
fn writer_over(stream: &Stream, tail: &Writer) -> Vec<u8> {
    let mut bytes = stream.bytes.clone();
    for place in 0..tail.used {
        let at = stream.predictor_end + place;
        let bit = tail.bytes[(place / 8) as usize] >> (place % 8) & 1;
        let byte = &mut bytes[(at / 8) as usize];
        *byte = *byte & !(1 << (at % 8)) | bit << (at % 8);
    }
    bytes
}

#[test]
fn numbers_are_coded_in_one_of_four_ways() {
    let mut writer = Writer::new();
    writer.write(2, 3).write(30, (1 << 30) - 1);
    assert_eq!(read_size(&mut BitReader::new(&writer.bytes), false), Ok(1 << 30));
    let mut writer = Writer::new();
    writer.write(2, 0).write(9, 6).write(3, 1);
    assert_eq!(
        read_size(&mut BitReader::new(&writer.bytes), true),
        Err(ProfileError::Field {
            field: "explicit width follows height",
            expected: 0,
            actual: 1,
        })
    );
    let mut writer = Writer::new();
    writer.write(1, 0).write(2, 3).write(6, 63);
    assert_eq!(
        read_integer_bit_depth(&mut BitReader::new(&writer.bytes), 16, "depth"),
        Err(ProfileError::BitDepth { field: "depth", expected: 16, actual: 64 })
    );
    let variants = [(0, 0), (1, 0), (2, 4), (u32::MAX, 1)].map(|(base, bits)| Variant { base, bits });
    let mut writer = Writer::new();
    writer.write(2, 2).write(4, 9).write(2, 3).write(1, 1);
    let mut reader = BitReader::new(&writer.bytes);
    assert_eq!(read_u32_selector(&mut reader, &variants), Ok(11));
    assert_eq!(
        read_u32_selector(&mut reader, &variants),
        Err(ProfileError::Unsupported("U32 field overflows"))
    );
}
