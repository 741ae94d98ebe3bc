//! What the bits of an accepted image header spell.

use crate::bits::{bit_count, bits_value, law_bits_spell_bytes};
use crate::profile::fields::{
    field, fields, integer_depth, law_precision_code, size, Field,
};
use crate::profile::header::{
    alpha_fields, channel_fields, color_fields, header_front, header_grammar, metadata_fields,
    opening, validate_image_header,
};
use crate::profile::{ImageHeader, ModularChannels, ProfileError};
use vstd::prelude::*;

verus! {

/// Bits of the first `n` fields of a list.
spec fn field_bits(list: Seq<Field>, n: int) -> int
    decreases n,
{
    if n <= 0 {
        0
    } else {
        field_bits(list, n - 1) + list[n - 1].bits
    }
}

/// Fields of a list without its first one.
proof fn lemma_field_bits(list: Seq<Field>, n: int)
    requires
        1 <= n <= list.len(),
    ensures
        field_bits(list, n) == list[0].bits + field_bits(list.skip(1), n - 1),
    decreases n,
{
    if n > 1 {
        lemma_field_bits(list, n - 1);
        assert(list.skip(1)[n - 2] == list[n - 1]);
    } else {
        assert(field_bits(list, 0) == 0);
        assert(field_bits(list.skip(1), 0) == 0);
    }
}

/// Field `i` of an accepted list stands behind the fields before it.
proof fn lemma_field(data: Seq<u8>, at: int, list: Seq<Field>, i: int)
    requires
        fields(data, at, list) is Ok,
        0 <= i < list.len(),
    ensures
        bits_value(data, at + field_bits(list, i), list[i].bits as int) == list[i].value,
        fields(data, at, list)->Ok_0 == at + field_bits(list, list.len() as int),
    decreases list.len(),
{
    assert(field(data, at, list[0]) is Ok);
    let next = at + list[0].bits;
    let rest = list.skip(1);
    lemma_field_bits(list, list.len() as int);
    if rest.len() > 0 {
        lemma_field(data, next, rest, if i > 0 { i - 1 } else { 0 });
    } else {
        assert(fields(data, next, rest) == Ok::<int, ProfileError>(next));
        assert(field_bits(rest, 0) == 0);
    }
    if i > 0 {
        lemma_field_bits(list, i);
        assert(rest[i - 1] == list[i]);
    } else {
        assert(field_bits(list, 0) == 0);
    }
}

/// Places of an accepted image header: behind its height, its width, its precision, and where its
/// colours start.
pub ghost struct HeaderPlaces {
    pub width: int,
    pub metadata: int,
    pub channels: int,
    pub color: int,
}

/// An accepted image header starts with the two bytes of a codestream and a clear bit. Height and
/// width follow, which are the inventory's, then two clear bits, the precision, a bit that is set
/// where samples have at most fourteen bits, and two bits that count extra channels. Alpha of eight
/// bits is one set bit; any other alpha is three clear bits, the same precision and five clear bits.
/// The colours come last, and the header is as long as the inventory says.
pub proof fn law_image_header(
    codestream: &[u8],
    image: &ImageHeader,
    channels: ModularChannels,
    bits: u8,
) -> (places: HeaderPlaces)
    requires
        codestream@.len() * 8 <= u64::MAX,
        call_ensures(
            validate_image_header,
            (codestream, image, channels, bits),
            Ok::<(), ProfileError>(()),
        ),
    ensures
        ({
            let data = codestream@;
            let alpha = channels == ModularChannels::Rgba;
            let end = image.bit_range.offset + image.bit_range.length;
            &&& data[0] == 0xff && data[1] == 0x0a
            &&& bits_value(data, 16, 1) == 0
            &&& size(data, 17, true) == Ok::<(int, int), ProfileError>(
                (image.height as int, places.width),
            )
            &&& size(data, places.width, false) == Ok::<(int, int), ProfileError>(
                (image.width as int, places.metadata),
            )
            &&& bits_value(data, places.metadata, 1) == 0
            &&& bits_value(data, places.metadata + 1, 1) == 0
            &&& bits_value(data, places.metadata + 2, 1) == 0
            &&& places.channels == places.metadata + 5 || places.channels == places.metadata + 11
            &&& bits_value(data, places.channels, 1) == if bits <= 14 { 1int } else { 0 }
            &&& bits_value(data, places.channels + 1, 2) == if alpha { 1int } else { 0 }
            &&& !alpha ==> places.color == places.channels + 3
            &&& alpha && bits == 8 ==> places.color == places.channels + 4 && bits_value(
                data,
                places.channels + 3,
                1,
            ) == 1
            &&& alpha && bits != 8 ==> {
                &&& places.color == places.channels + 6 + 8 || places.color == places.channels + 6
                    + 14
                &&& bits_value(data, places.channels + 3, 1) == 0
                &&& bits_value(data, places.channels + 4, 2) == 0
                &&& bits_value(data, places.channels + 6, 1) == 0
                &&& bits_value(data, places.color - 5, 2) == 0
                &&& bits_value(data, places.color - 3, 2) == 0
                &&& bits_value(data, places.color - 1, 1) == 0
            }
            &&& bits_value(data, places.color, 1) == 0
            &&& channels == ModularChannels::Gray ==> {
                &&& end == places.color + 19
                &&& bits_value(data, places.color + 1, 1) == 0
                &&& bits_value(data, places.color + 2, 1) == 0
                &&& bits_value(data, places.color + 3, 2) == 1
                &&& bits_value(data, places.color + 5, 2) == 1
                &&& bits_value(data, places.color + 7, 1) == 0
                &&& bits_value(data, places.color + 8, 2) == 2
                &&& bits_value(data, places.color + 10, 4) == 11
                &&& bits_value(data, places.color + 14, 2) == 1
                &&& bits_value(data, places.color + 16, 2) == 0
                &&& bits_value(data, places.color + 18, 1) == 1
            }
            &&& channels != ModularChannels::Gray ==> {
                &&& end == places.color + 5
                &&& bits_value(data, places.color + 1, 1) == 1
                &&& bits_value(data, places.color + 2, 2) == 0
                &&& bits_value(data, places.color + 4, 1) == 1
            }
            &&& image.bit_range.offset == 0
            &&& end <= bit_count(data)
        }),
{
    let data = codestream@;
    assert(header_grammar(data, *image, channels, bits) is Ok);
    assert(header_front(data, *image, bits) is Ok);
    let at = header_front(data, *image, bits)->Ok_0;
    let (width, metadata) = lemma_front(data, *image, bits, at);
    let color = lemma_color_start(data, *image, channels, bits, at);
    lemma_channels(data, at, channels, bits);
    lemma_colors(data, color, channels);
    lemma_fields_inside(data, color, color_fields(channels));
    HeaderPlaces { width, metadata, channels: at, color }
}

/// Accepted fields lie in the data.
proof fn lemma_fields_inside(data: Seq<u8>, at: int, list: Seq<Field>)
    requires
        fields(data, at, list) is Ok,
        list.len() > 0,
    ensures
        fields(data, at, list)->Ok_0 <= bit_count(data),
    decreases list.len(),
{
    let next = field(data, at, list[0])->Ok_0;
    if list.len() > 1 {
        lemma_fields_inside(data, next, list.skip(1));
    } else {
        assert(fields(data, next, list.skip(1)) == Ok::<int, ProfileError>(next));
    }
}

/// The front of an accepted header: its signature, its extent and its precision.
proof fn lemma_front(data: Seq<u8>, image: ImageHeader, bits: u8, at: int) -> (places: (int, int))
    requires
        header_front(data, image, bits) == Ok::<int, ProfileError>(at),
    ensures
        data.len() >= 2,
        data[0] == 0xff && data[1] == 0x0a,
        bits_value(data, 16, 1) == 0,
        size(data, 17, true) == Ok::<(int, int), ProfileError>((image.height as int, places.0)),
        size(data, places.0, false) == Ok::<(int, int), ProfileError>(
            (image.width as int, places.1),
        ),
        bits_value(data, places.1, 1) == 0,
        bits_value(data, places.1 + 1, 1) == 0,
        bits_value(data, places.1 + 2, 1) == 0,
        at == places.1 + 5 || at == places.1 + 11,
{
    let first = opening();
    assert(fields(data, 0, first) is Ok);
    reveal_with_fuel(field_bits, 4);
    lemma_field(data, 0, first, 0);
    lemma_field(data, 0, first, 1);
    lemma_fields_inside(data, 0, first);
    lemma_signature(data);
    let (_, width) = size(data, 17, true)->Ok_0;
    let (_, metadata) = size(data, width, false)->Ok_0;
    let list = metadata_fields();
    assert(fields(data, metadata, list) is Ok);
    lemma_field(data, metadata, list, 0);
    lemma_field(data, metadata, list, 1);
    law_precision_code(data, metadata + 2, bits, "main image bit depth", at);
    (width, metadata)
}

/// The first two bytes.
proof fn lemma_signature(data: Seq<u8>)
    requires
        bits_value(data, 0, 16) == 0x0aff,
        data.len() >= 2,
    ensures
        data[0] == 0xff,
        data[1] == 0x0a,
{
    law_bits_spell_bytes(data, 0);
    law_bits_spell_bytes(data, 1);
    crate::bits::law_bits_join(data, 0, 8, 8);
    vstd::arithmetic::power2::lemma2_to64();
    assert(bits_value(data, 0, 16) == data[0] + 256 * data[1]);
}

/// What follows the precision.
proof fn lemma_channels(data: Seq<u8>, at: int, channels: ModularChannels, bits: u8)
    requires
        fields(data, at, channel_fields(channels, bits)) is Ok,
    ensures
        ({
            let alpha = channels == ModularChannels::Rgba;
            let end = fields(data, at, channel_fields(channels, bits))->Ok_0;
            &&& bits_value(data, at, 1) == if bits <= 14 { 1int } else { 0 }
            &&& bits_value(data, at + 1, 2) == if alpha { 1int } else { 0 }
            &&& !alpha ==> end == at + 3
            &&& alpha && bits == 8 ==> end == at + 4 && bits_value(data, at + 3, 1) == 1
            &&& alpha && bits != 8 ==> end == at + 6 && bits_value(data, at + 3, 1) == 0
                && bits_value(data, at + 4, 2) == 0
        }),
{
    let list = channel_fields(channels, bits);
    reveal_with_fuel(field_bits, 6);
    lemma_field(data, at, list, 0);
    lemma_field(data, at, list, 1);
    if channels == ModularChannels::Rgba {
        lemma_field(data, at, list, 2);
        if bits != 8 {
            lemma_field(data, at, list, 3);
        }
    }
}

/// Where the colours start.
proof fn lemma_color_start(
    data: Seq<u8>,
    image: ImageHeader,
    channels: ModularChannels,
    bits: u8,
    at: int,
) -> (color: int)
    requires
        header_grammar(data, image, channels, bits) is Ok,
        header_front(data, image, bits) == Ok::<int, ProfileError>(at),
    ensures
        fields(data, color, color_fields(channels)) == header_grammar(data, image, channels, bits),
        ({
            let alpha = channels == ModularChannels::Rgba;
            let front = fields(data, at, channel_fields(channels, bits))->Ok_0;
            &&& fields(data, at, channel_fields(channels, bits)) is Ok
            &&& !alpha || bits == 8 ==> color == front
            &&& alpha && bits != 8 ==> {
                &&& color == front + 8 || color == front + 14
                &&& bits_value(data, front, 1) == 0
                &&& bits_value(data, color - 5, 2) == 0
                &&& bits_value(data, color - 3, 2) == 0
                &&& bits_value(data, color - 1, 1) == 0
            }
        }),
{
    let front = fields(data, at, channel_fields(channels, bits))->Ok_0;
    if channels == ModularChannels::Rgba && bits != 8 {
        let depth = integer_depth(data, front, bits, "alpha bit depth")->Ok_0;
        law_precision_code(data, front, bits, "alpha bit depth", depth);
        let list = alpha_fields();
        reveal_with_fuel(field_bits, 5);
        lemma_field(data, depth, list, 0);
        lemma_field(data, depth, list, 1);
        lemma_field(data, depth, list, 2);
        fields(data, depth, list)->Ok_0
    } else {
        front
    }
}

/// The bits of the colours.
proof fn lemma_colors(data: Seq<u8>, at: int, channels: ModularChannels) -> (end: int)
    requires
        fields(data, at, color_fields(channels)) is Ok,
    ensures
        fields(data, at, color_fields(channels)) == Ok::<int, ProfileError>(end),
        bits_value(data, at, 1) == 0,
        channels == ModularChannels::Gray ==> {
            &&& end == at + 19
            &&& bits_value(data, at + 1, 1) == 0
            &&& bits_value(data, at + 2, 1) == 0
            &&& bits_value(data, at + 3, 2) == 1
            &&& bits_value(data, at + 5, 2) == 1
            &&& bits_value(data, at + 7, 1) == 0
            &&& bits_value(data, at + 8, 2) == 2
            &&& bits_value(data, at + 10, 4) == 11
            &&& bits_value(data, at + 14, 2) == 1
            &&& bits_value(data, at + 16, 2) == 0
            &&& bits_value(data, at + 18, 1) == 1
        },
        channels != ModularChannels::Gray ==> {
            &&& end == at + 5
            &&& bits_value(data, at + 1, 1) == 1
            &&& bits_value(data, at + 2, 2) == 0
            &&& bits_value(data, at + 4, 1) == 1
        },
{
    let list = color_fields(channels);
    reveal_with_fuel(field_bits, 13);
    lemma_field(data, at, list, 0);
    lemma_field(data, at, list, 1);
    lemma_field(data, at, list, 2);
    lemma_field(data, at, list, 3);
    if channels == ModularChannels::Gray {
        lemma_field(data, at, list, 4);
        lemma_field(data, at, list, 5);
        lemma_field(data, at, list, 6);
        lemma_field(data, at, list, 7);
        lemma_field(data, at, list, 8);
        lemma_field(data, at, list, 9);
        lemma_field(data, at, list, 10);
    }
    at + field_bits(list, list.len() as int)
}

} // verus!
