//! What the coefficient layout of a JPEG frame guarantees.

use crate::arith::{ceil_div, lemma_ceil_div};
use crate::vardct_engine::jpeg::{
    component_order, component_plane, component_planes, lemma_planes, lemma_words_before, unit,
    words_before, JpegCoefficientError, JpegCoefficientLayout,
};
use crate::vardct_engine::output::FrameOutputMemory;
use crate::vardct_frontend::{SampleBitDepth, StandardVarDctProfile, VarDctColorTransform};
use vstd::prelude::*;

verus! {

/// `blocks` blocks of `samples` samples cover `size` samples, and one less does not.
pub open spec fn covers(blocks: int, samples: int, size: int) -> bool {
    samples * (blocks - 1) < size <= samples * blocks
}

/// One where a binary logarithm is zero, two otherwise, in blocks.
pub open spec fn doubled(log: u32, n: int) -> int {
    if log == 0 {
        n
    } else {
        n + n
    }
}

/// A division that was rounded up covers.
proof fn lemma_covers(size: int, log: u32)
    requires
        size >= 1,
    ensures
        covers(ceil_div(size, 8 * unit(log)), doubled(log, 8), size),
        8 * unit(log) == doubled(log, 8),
{
    let samples = 8 * unit(log);
    lemma_ceil_div(size, samples);
    let blocks = ceil_div(size, samples);
    assert(samples * (blocks - 1) == blocks * samples - samples && samples * blocks == blocks
        * samples) by (nonlinear_arith);
}

/// One number of blocks covers a size.
proof fn lemma_covers_once(a: int, b: int, log: u32, size: int)
    requires
        covers(a, doubled(log, 8), size),
        covers(b, doubled(log, 8), size),
    ensures
        a == b,
{
    if log == 0 {
        assert(doubled(log, 8) == 8);
    } else {
        assert(doubled(log, 8) == 16);
    }
}

/// The shape of one plane.
proof fn lemma_plane_shape(
    profile: &StandardVarDctProfile,
    channel: u32,
    before: int,
    mcus: (int, int),
)
    requires
        channel < 3,
        1 <= profile.width && 1 <= profile.height,
        profile.jpeg_block_alignment[0] <= 1 && profile.jpeg_block_alignment[1] <= 1,
        profile.channel_shifts[channel as int].horizontal <= profile.jpeg_block_alignment[0],
        profile.channel_shifts[channel as int].vertical <= profile.jpeg_block_alignment[1],
        covers(mcus.0, doubled(profile.jpeg_block_alignment@[0], 8), profile.width as int),
        covers(mcus.1, doubled(profile.jpeg_block_alignment@[1], 8), profile.height as int),
    ensures
        ({
            let plane = component_plane(profile, channel, before);
            let shift = profile.channel_shifts@[channel as int];
            let align = profile.jpeg_block_alignment@;
            &&& plane.channel == channel
            &&& plane.offset == 192 + before
            &&& plane.quantization == 64 * channel
            &&& covers(plane.real.0, doubled(shift.horizontal, 8), profile.width as int)
            &&& covers(plane.real.1, doubled(shift.vertical, 8), profile.height as int)
            &&& 1 <= plane.sampling.0 <= 2 && 1 <= plane.sampling.1 <= 2
            &&& plane.sampling.0 == 2 <==> align[0] == 1 && shift.horizontal == 0
            &&& plane.sampling.1 == 2 <==> align[1] == 1 && shift.vertical == 0
            &&& plane.columns == doubled((plane.sampling.0 - 1) as u32, mcus.0)
            &&& plane.rows == doubled((plane.sampling.1 - 1) as u32, mcus.1)
        }),
{
    let plane = component_plane(profile, channel, before);
    let align = profile.jpeg_block_alignment;
    let shift = profile.channel_shifts[channel as int];
    assert(profile.channel_shifts@[channel as int] == shift);
    lemma_covers(profile.width as int, align[0]);
    lemma_covers(profile.height as int, align[1]);
    lemma_covers(profile.width as int, shift.horizontal);
    lemma_covers(profile.height as int, shift.vertical);
    let mx = ceil_div(profile.width as int, 8 * unit(align[0]));
    let my = ceil_div(profile.height as int, 8 * unit(align[1]));
    lemma_covers_once(mx, mcus.0, align[0], profile.width as int);
    lemma_covers_once(my, mcus.1, align[1], profile.height as int);
    assert(plane.columns == mx * plane.sampling.0);
    assert(plane.rows == my * plane.sampling.1);
    assert(mx * 1 == mx && mx * 2 == mx + mx && my * 1 == my && my * 2 == my + my);
}

/// The planes of a layout: one of a grayscale frame, otherwise three in JPEG order. Each has the
/// quantizers of its own channel. Its real blocks of eight samples, or of sixteen where it is
/// halved, cover the frame. Its rows and columns of blocks are whole units, which cover the frame
/// too, and a unit has two blocks of it in a direction exactly where the unit is doubled there and
/// the channel is not halved. The first plane stands behind 192 quantizers and each other one
/// behind the sixty-four coefficients of every block before it.
pub proof fn law_component_planes(
    profile: &StandardVarDctProfile,
    grayscale: bool,
    groups: u32,
    limit: u64,
    layout: JpegCoefficientLayout,
    mcus: (int, int),
    i: int,
)
    requires
        call_ensures(
            JpegCoefficientLayout::new,
            (profile, grayscale, groups, limit),
            Ok::<JpegCoefficientLayout, JpegCoefficientError>(layout),
        ),
        covers(mcus.0, doubled(profile.jpeg_block_alignment@[0], 8), profile.width as int),
        covers(mcus.1, doubled(profile.jpeg_block_alignment@[1], 8), profile.height as int),
        0 <= i < layout@.planes.len(),
    ensures
        layout@.planes.len() == if grayscale { 1int } else { 3 },
        ({
            let plane = layout@.planes[i];
            let shift = profile.channel_shifts@[plane.channel];
            let align = profile.jpeg_block_alignment@;
            &&& plane.channel == if grayscale {
                1
            } else if profile.color_transform == VarDctColorTransform::Ycbcr && i < 2 {
                1 - i
            } else {
                i
            }
            &&& plane.quantization == 64 * plane.channel
            &&& covers(plane.real.0, doubled(shift.horizontal, 8), profile.width as int)
            &&& covers(plane.real.1, doubled(shift.vertical, 8), profile.height as int)
            &&& 1 <= plane.sampling.0 <= 2 && 1 <= plane.sampling.1 <= 2
            &&& plane.sampling.0 == 2 <==> align[0] == 1 && shift.horizontal == 0
            &&& plane.sampling.1 == 2 <==> align[1] == 1 && shift.vertical == 0
            &&& plane.columns == doubled((plane.sampling.0 - 1) as u32, mcus.0)
            &&& plane.rows == doubled((plane.sampling.1 - 1) as u32, mcus.1)
            &&& i == 0 ==> plane.offset == 192
            &&& plane.offset + 64 * (plane.columns * plane.rows) == if i + 1
                < layout@.planes.len() {
                layout@.planes[i + 1].offset
            } else {
                192 + layout@.words
            }
        }),
{
    let order = component_order(profile, grayscale);
    let n = order.len() as int;
    lemma_planes(profile, order, limit, n);
    let planes = layout@.planes;
    let plane = planes[i];
    assert(plane == component_plane(profile, order[i], words_before(planes, i)));
    lemma_plane_shape(profile, order[i], words_before(planes, i), mcus);
    let area = plane.columns * plane.rows;
    assert(plane.columns * plane.rows * 64 == 64 * area);
    assert(words_before(planes, i + 1) == words_before(planes, i) + plane.columns * plane.rows * 64);
    if i + 1 < n {
        assert(planes[i + 1] == component_plane(
            profile,
            order[i + 1],
            words_before(planes, i + 1),
        ));
    }
}

/// A layout is made of a frame of one to 65535 eight-bit samples in each direction that is not
/// coded as opponent colours, scaled, or made of another frame, whose units span one or two blocks
/// and one where there is one component, and whose channels are not coarser than units; and its
/// coefficients stay within the bound. It keeps the extent, is of primary colours where the frame
/// is, and predicts chroma where no channel is subsampled.
pub proof fn law_layout_accepted(
    profile: &StandardVarDctProfile,
    grayscale: bool,
    groups: u32,
    limit: u64,
    layout: JpegCoefficientLayout,
)
    requires
        call_ensures(
            JpegCoefficientLayout::new,
            (profile, grayscale, groups, limit),
            Ok::<JpegCoefficientLayout, JpegCoefficientError>(layout),
        ),
    ensures
        1 <= profile.width <= 65535 && 1 <= profile.height <= 65535,
        profile.upsampling == 1,
        profile.sample_bit_depth == (SampleBitDepth::Integer { bits_per_sample: 8 }),
        profile.lf_level == 0 && !profile.uses_lf_frame,
        profile.color_transform != VarDctColorTransform::Xyb,
        profile.jpeg_block_alignment@[0] <= 1 && profile.jpeg_block_alignment@[1] <= 1,
        grayscale ==> profile.jpeg_block_alignment@[0] == 0 && profile.jpeg_block_alignment@[1]
            == 0,
        forall|i: int|
            0 <= i < layout@.planes.len() ==> {
                let shift = profile.channel_shifts@[(#[trigger] layout@.planes[i]).channel];
                &&& shift.horizontal <= profile.jpeg_block_alignment@[0]
                &&& shift.vertical <= profile.jpeg_block_alignment@[1]
            },
        layout@.words <= limit,
        layout@.words <= u32::MAX - 192,
        layout@.extent == (profile.width as int, profile.height as int),
        layout@.groups == groups,
        layout@.rgb <==> profile.color_transform == VarDctColorTransform::Rgb,
        layout@.cfl ==> !grayscale,
        !grayscale ==> (layout@.cfl <==> forall|c: int|
            0 <= c < 3 ==> (#[trigger] profile.channel_shifts@[c]).horizontal == 0
                && profile.channel_shifts@[c].vertical == 0),
{
    let order = component_order(profile, grayscale);
    let n = order.len() as int;
    lemma_planes(profile, order, limit, n);
    assert forall|i: int| 0 <= i < layout@.planes.len() implies ({
        let shift = profile.channel_shifts@[(#[trigger] layout@.planes[i]).channel];
        &&& shift.horizontal <= profile.jpeg_block_alignment@[0]
        &&& shift.vertical <= profile.jpeg_block_alignment@[1]
    }) by {
        assert(component_planes(profile, order, n)[i] == layout@.planes[i]);
        assert(layout@.planes[i].channel == order[i]);
    }
    if !grayscale {
        assert(forall|c: int|
            0 <= c < 3 ==> (#[trigger] profile.channel_shifts@[c]) == profile.channel_shifts[c]);
        if layout@.cfl {
            assert forall|c: int| 0 <= c < 3 implies (#[trigger] profile.channel_shifts@[c]).horizontal
                == 0 && profile.channel_shifts@[c].vertical == 0 by {
                assert(!profile.channel_shifts[c].subsampled());
            }
        } else {
            let c = choose|c: int| 0 <= c < 3 && (#[trigger] profile.channel_shifts[c]).subsampled();
            assert(profile.channel_shifts@[c].subsampled());
        }
    }
}

/// A layout owns four bytes for each quantizer and coefficient, 192 bytes of parameters for every
/// group and a status of sixteen bytes.
pub proof fn law_layout_memory(
    layout: &JpegCoefficientLayout,
    bytes: u64,
    memory: FrameOutputMemory,
)
    requires
        call_ensures(JpegCoefficientLayout::storage_bytes, (layout,), bytes),
        call_ensures(JpegCoefficientLayout::memory, (layout,), memory),
    ensures
        bytes == 4 * (192 + layout@.words),
        memory.storage_bytes == bytes,
        memory.uniform_bytes == 192 * layout@.groups,
        memory.status_bytes == 16,
{
}

/// The status of a restoration is accepted exactly where 192 quantizers and every coefficient were
/// written and nothing else was counted.
pub proof fn law_restoration_status(
    layout: &JpegCoefficientLayout,
    actual: [u32; 4],
    r: Result<(), crate::vardct_engine::types::VarDctDecodeError>,
)
    requires
        layout@.wf(),
        call_ensures(JpegCoefficientLayout::check_status, (layout, actual), r),
    ensures
        r is Ok <==> actual@[0] == 192 && actual@[1] == 0 && actual@[2] == layout@.words
            && actual@[3] == 0,
{
    lemma_words_before(layout@, 0, layout@.planes.len() as int);
    if actual@[0] == 192 && actual@[1] == 0 && actual@[2] == layout@.words && actual@[3] == 0 {
        assert(actual@ =~= layout.complete_status());
    }
}

} // verus!
