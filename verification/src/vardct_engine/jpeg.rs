//! Validated GPU-resident input to JPEG reconstruction; this is not a JPEG byte stream.

use crate::arith::{ceil_div, div_ceil_u32, least, min_u64};
use crate::pod::{native_words, read_words};
use crate::vardct_engine::output::FrameOutputMemory;
use crate::vardct_engine::types::VarDctDecodeError;
use crate::vardct_frontend::{SampleBitDepth, StandardVarDctProfile, VarDctColorTransform};
use vstd::prelude::*;

verus! {

/// Words of quantizers in front of the coefficients.
pub const QUANTIZATION_WORDS: u32 = 192;

/// Bytes of the restoration status record.
pub const STATUS_BYTES: u64 = 16;

/// Bytes of one group's restoration parameters.
pub const RESTORE_UNIFORM_BYTES: u64 = 192;

/// Why a frame cannot be an input of JPEG reconstruction.
#[derive(Clone, Copy, Debug, PartialEq, Eq)]
pub enum JpegCoefficientError {
    /// There is no unique reconstruction box.
    MissingMetadata,
    /// The frame is of a form that no JPEG has.
    Unsupported { reason: &'static str },
    /// Coefficients and metadata disagree.
    Binding { reason: &'static str },
    /// The coefficients exceed the configured bound.
    CoefficientLimit { required: u64, limit: u64 },
    /// The GPU reported something other than a complete restoration.
    GpuStatus { expected: [u32; 4], actual: [u32; 4] },
}

/// One JPEG component in original component order. Coefficients use natural 8x8 raster order.
#[derive(Clone, Copy, Debug, PartialEq, Eq)]
pub struct JpegCoefficientPlane {
    /// Word offset in the retained buffer, including its 192-word quantization prefix.
    pub coefficient_word_offset: u32,
    /// Word offset of this component's 64 quantizers, also in natural raster order.
    pub quantization_word_offset: u32,
    pub blocks_per_row: u32,
    pub block_rows: u32,
    pub real_blocks: [u32; 2],
    pub sampling: [u32; 2],
    pub channel: u32,
}

/// The numbers of a [`JpegCoefficientPlane`].
pub ghost struct PlaneView {
    pub offset: int,
    pub quantization: int,
    pub columns: int,
    pub rows: int,
    pub real: (int, int),
    pub sampling: (int, int),
    pub channel: int,
}

impl View for JpegCoefficientPlane {
    type V = PlaneView;

    open spec fn view(&self) -> PlaneView {
        PlaneView {
            offset: self.coefficient_word_offset as int,
            quantization: self.quantization_word_offset as int,
            columns: self.blocks_per_row as int,
            rows: self.block_rows as int,
            real: (self.real_blocks[0] as int, self.real_blocks[1] as int),
            sampling: (self.sampling[0] as int, self.sampling[1] as int),
            channel: self.channel as int,
        }
    }
}

/// The numbers of a [`JpegCoefficientLayout`].
pub ghost struct LayoutView {
    pub planes: Seq<PlaneView>,
    pub words: int,
    pub extent: (int, int),
    pub groups: int,
    pub rgb: bool,
    pub cfl: bool,
}

/// Whole minimum coded units of the layout, from its first component.
pub open spec fn mcu_extent(planes: Seq<PlaneView>) -> (int, int) {
    (planes[0].columns / planes[0].sampling.0, planes[0].rows / planes[0].sampling.1)
}

/// Coefficients in front of plane `i`.
pub open spec fn words_before(planes: Seq<PlaneView>, i: int) -> int
    decreases i,
{
    if i <= 0 {
        0
    } else {
        words_before(planes, i - 1) + planes[i - 1].columns * planes[i - 1].rows * 64
    }
}

impl LayoutView {
    /// Plane `i` covers whole minimum coded units and follows the planes before it.
    pub open spec fn plane_wf(self, i: int) -> bool {
        let p = self.planes[i];
        let mcus = mcu_extent(self.planes);
        &&& p.offset == QUANTIZATION_WORDS + words_before(self.planes, i)
        &&& 0 <= p.channel < 3
        &&& p.quantization == p.channel * 64
        &&& 1 <= p.sampling.0 <= 2
        &&& 1 <= p.sampling.1 <= 2
        &&& p.columns == mcus.0 * p.sampling.0
        &&& p.rows == mcus.1 * p.sampling.1
        &&& 1 <= p.real.0 <= p.columns
        &&& 1 <= p.real.1 <= p.rows
    }

    /// A quantizer prefix followed by one to three coefficient planes without gaps.
    pub open spec fn wf(self) -> bool {
        &&& 1 <= self.planes.len() <= 3
        &&& 1 <= mcu_extent(self.planes).0 <= 8192
        &&& 1 <= mcu_extent(self.planes).1 <= 8192
        &&& forall|i: int| 0 <= i < self.planes.len() ==> #[trigger] self.plane_wf(i)
        &&& self.words == words_before(self.planes, self.planes.len() as int)
        &&& 1 <= self.extent.0 <= 65535
        &&& 1 <= self.extent.1 <= 65535
        &&& QUANTIZATION_WORDS + self.words <= u32::MAX
    }
}

/// Immutable checked layout for the quantization prefix and padded integer coefficient planes.
#[derive(Debug)]
pub struct JpegCoefficientLayout {
    planes: Vec<JpegCoefficientPlane>,
    coefficient_words: u32,
    extent: [u32; 2],
    groups: u32,
    rgb: bool,
    cfl: bool,
}

/// The frame is an 8-bit integer image in a colour space that JPEG codes directly.
pub open spec fn jpeg_frame(profile: &StandardVarDctProfile) -> bool {
    &&& 1 <= profile.width <= 65535
    &&& 1 <= profile.height <= 65535
    &&& profile.upsampling == 1
    &&& profile.sample_bit_depth == SampleBitDepth::Integer { bits_per_sample: 8 }
    &&& profile.lf_level == 0
    &&& !profile.uses_lf_frame
    &&& profile.color_transform != VarDctColorTransform::Xyb
}

/// A minimum coded unit spans one or two blocks in each direction, and one where there is a
/// single component.
pub open spec fn jpeg_alignment(profile: &StandardVarDctProfile, grayscale: bool) -> bool {
    &&& profile.jpeg_block_alignment[0] <= 1
    &&& profile.jpeg_block_alignment[1] <= 1
    &&& grayscale ==> profile.jpeg_block_alignment[0] == 0 && profile.jpeg_block_alignment[1] == 0
}

/// Frame channels in JPEG component order.
pub open spec fn component_order(profile: &StandardVarDctProfile, grayscale: bool) -> Seq<u32> {
    if grayscale {
        seq![1u32]
    } else if profile.color_transform == VarDctColorTransform::Ycbcr {
        seq![1u32, 0u32, 2u32]
    } else {
        seq![0u32, 1u32, 2u32]
    }
}

/// Planes grow the words before the next one.
pub(crate) proof fn lemma_words_before(layout: LayoutView, i: int, j: int)
    requires
        layout.wf(),
        0 <= i <= j <= layout.planes.len(),
    ensures
        0 <= words_before(layout.planes, i) <= words_before(layout.planes, j),
    decreases j,
{
    if j > 0 {
        assert(layout.plane_wf(j - 1));
        let plane = layout.planes[j - 1];
        assert(0 <= plane.columns * plane.rows) by (nonlinear_arith)
            requires
                0 <= plane.columns,
                0 <= plane.rows,
        ;
        if i < j {
            lemma_words_before(layout, i, j - 1);
        } else {
            lemma_words_before(layout, i - 1, i - 1);
        }
    }
}

/// The planes of a layout lie behind the quantizers, one behind the other, and end with the
/// storage.
pub proof fn law_planes_disjoint(layout: LayoutView, i: int, j: int)
    requires
        layout.wf(),
        0 <= i < j < layout.planes.len(),
    ensures
        ({
            let (a, b) = (layout.planes[i], layout.planes[j]);
            &&& 0 <= a.quantization
            &&& a.quantization + 64 <= QUANTIZATION_WORDS <= a.offset
            &&& a.offset + a.columns * a.rows * 64 <= b.offset
            &&& b.offset + b.columns * b.rows * 64 <= QUANTIZATION_WORDS + layout.words
        }),
{
    assert(layout.plane_wf(i));
    assert(layout.plane_wf(j));
    lemma_words_before(layout, 0, i);
    lemma_words_before(layout, i + 1, j);
    lemma_words_before(layout, j + 1, layout.planes.len() as int);
}

/// One or two, for a binary logarithm of zero or one.
pub open spec fn unit(log: u32) -> int {
    if log == 0 { 1 } else { 2 }
}

/// The component in place `i`, given the number of coefficients before it.
pub open spec fn component_plane(
    profile: &StandardVarDctProfile,
    channel: u32,
    before: int,
) -> PlaneView {
    let shift = profile.channel_shifts[channel as int];
    let align = profile.jpeg_block_alignment;
    let sampling = (
        unit((align[0] - shift.horizontal) as u32),
        unit((align[1] - shift.vertical) as u32),
    );
    PlaneView {
        offset: QUANTIZATION_WORDS + before,
        quantization: channel * 64,
        columns: ceil_div(profile.width as int, 8 * unit(align[0])) * sampling.0,
        rows: ceil_div(profile.height as int, 8 * unit(align[1])) * sampling.1,
        real: (
            ceil_div(profile.width as int, 8 * unit(shift.horizontal)),
            ceil_div(profile.height as int, 8 * unit(shift.vertical)),
        ),
        sampling,
        channel: channel as int,
    }
}

/// The first `n` components, each behind the one before it.
pub open spec fn component_planes(
    profile: &StandardVarDctProfile,
    order: Seq<u32>,
    n: int,
) -> Seq<PlaneView>
    decreases n,
{
    if n <= 0 {
        Seq::empty()
    } else {
        let front = component_planes(profile, order, n - 1);
        front.push(component_plane(profile, order[n - 1], words_before(front, n - 1)))
    }
}

/// Coefficient words that a layout may hold.
pub open spec fn word_cap(limit: u64) -> u64 {
    least(limit as int, u32::MAX - QUANTIZATION_WORDS) as u64
}

/// The first component at or after `i` that cannot be laid out, and why.
pub open spec fn component_refusal(
    profile: &StandardVarDctProfile,
    order: Seq<u32>,
    limit: u64,
    i: int,
) -> Option<JpegCoefficientError>
    decreases order.len() - i,
{
    if i >= order.len() {
        None
    } else {
        let shift = profile.channel_shifts[order[i] as int];
        let words = words_before(component_planes(profile, order, i + 1), i + 1);
        if shift.horizontal > profile.jpeg_block_alignment[0] || shift.vertical
            > profile.jpeg_block_alignment[1] {
            Some(
                JpegCoefficientError::Binding { reason: "component shift exceeds MCU alignment" },
            )
        } else if words > word_cap(limit) {
            Some(
                JpegCoefficientError::CoefficientLimit {
                    required: words as u64,
                    limit: word_cap(limit),
                },
            )
        } else {
            component_refusal(profile, order, limit, i + 1)
        }
    }
}

/// Why a frame has no coefficient layout.
pub open spec fn layout_refusal(
    profile: &StandardVarDctProfile,
    grayscale: bool,
    limit: u64,
) -> Option<JpegCoefficientError> {
    if !jpeg_frame(profile) {
        Some(
            JpegCoefficientError::Unsupported {
                reason: "8-bit integer non-XYB JPEG frame geometry",
            },
        )
    } else if !jpeg_alignment(profile, grayscale) {
        Some(JpegCoefficientError::Unsupported { reason: "JPEG sampling factors" })
    } else {
        component_refusal(profile, component_order(profile, grayscale), limit, 0)
    }
}

/// The layout of an accepted frame.
pub open spec fn layout_of(
    profile: &StandardVarDctProfile,
    grayscale: bool,
    groups: u32,
) -> LayoutView {
    let order = component_order(profile, grayscale);
    let planes = component_planes(profile, order, order.len() as int);
    LayoutView {
        planes,
        words: words_before(planes, order.len() as int),
        extent: (profile.width as int, profile.height as int),
        groups: groups as int,
        rgb: profile.color_transform == VarDctColorTransform::Rgb,
        cfl: !grayscale && forall|c: int|
            0 <= c < 3 ==> !(#[trigger] profile.channel_shifts[c]).subsampled(),
    }
}

/// Appending a plane leaves the words before it unchanged.
proof fn lemma_words_before_prefix(planes: Seq<PlaneView>, longer: Seq<PlaneView>, i: int)
    requires
        0 <= i <= planes.len() <= longer.len(),
        forall|k: int| 0 <= k < planes.len() ==> planes[k] == longer[k],
    ensures
        words_before(planes, i) == words_before(longer, i),
    decreases i,
{
    if i > 0 {
        lemma_words_before_prefix(planes, longer, i - 1);
    }
}

impl JpegCoefficientLayout {
    #[verifier::type_invariant]
    closed spec fn well_formed(self) -> bool {
        self@.wf()
    }
}

impl View for JpegCoefficientLayout {
    type V = LayoutView;

    closed spec fn view(&self) -> LayoutView {
        LayoutView {
            planes: self.planes@.map_values(|p: JpegCoefficientPlane| p@),
            words: self.coefficient_words as int,
            extent: (self.extent[0] as int, self.extent[1] as int),
            groups: self.groups as int,
            rgb: self.rgb,
            cfl: self.cfl,
        }
    }
}

/// Blocks that cover `size` samples, in units of one or two.
proof fn lemma_blocks(size: int, align: u32, shift: u32)
    requires
        1 <= size <= 65535,
        shift <= align <= 1,
    ensures
        1 <= ceil_div(size, 8 * unit(align)) <= 8192,
        1 <= ceil_div(size, 8 * unit(shift)) <= ceil_div(size, 8 * unit(align)) * unit(
            (align - shift) as u32,
        ),
        1 <= unit((align - shift) as u32) <= 2,
        ceil_div(size, 8 * unit(align)) * unit((align - shift) as u32) <= 16384,
{
    assert(unit(0) == 1 && unit(1) == 2);
    assert(ceil_div(size, 8) == (size + 7) / 8);
    assert(ceil_div(size, 16) == (size + 15) / 16);
    if align == 0 {
        assert(8 * unit(align) == 8);
        assert(8 * unit(shift) == 8);
    } else {
        assert(8 * unit(align) == 16);
        if shift == 0 {
            assert(8 * unit(shift) == 8);
        } else {
            assert(8 * unit(shift) == 16);
        }
    }
}

/// Every plane of an accepted frame covers whole minimum coded units.
proof fn lemma_layout_wf(profile: &StandardVarDctProfile, grayscale: bool, groups: u32, limit: u64)
    requires
        layout_refusal(profile, grayscale, limit) is None,
    ensures
        layout_of(profile, grayscale, groups).wf(),
{
    let order = component_order(profile, grayscale);
    let n = order.len() as int;
    let view = layout_of(profile, grayscale, groups);
    lemma_planes(profile, order, limit, n);
    let align = profile.jpeg_block_alignment;
    let mx = ceil_div(profile.width as int, 8 * unit(align[0]));
    let my = ceil_div(profile.height as int, 8 * unit(align[1]));
    lemma_blocks(profile.width as int, align[0], align[0]);
    lemma_blocks(profile.height as int, align[1], align[1]);
    let p0 = view.planes[0];
    assert(p0 == component_plane(profile, order[0], words_before(view.planes, 0)));
    assert(p0.columns / p0.sampling.0 == mx) by {
        vstd::arithmetic::div_mod::lemma_div_by_multiple(mx, p0.sampling.0);
    }
    assert(p0.rows / p0.sampling.1 == my) by {
        vstd::arithmetic::div_mod::lemma_div_by_multiple(my, p0.sampling.1);
    }
    assert forall|i: int| 0 <= i < n implies #[trigger] view.plane_wf(i) by {
        let p = view.planes[i];
        let shift = profile.channel_shifts[order[i] as int];
        assert(p == component_plane(profile, order[i], words_before(view.planes, i)));
        lemma_blocks(profile.width as int, align[0], shift.horizontal);
        lemma_blocks(profile.height as int, align[1], shift.vertical);
        assert(order[i] == 0 || order[i] == 1 || order[i] == 2);
    }
    let s0 = profile.channel_shifts[order[0] as int];
    lemma_blocks(profile.width as int, align[0], s0.horizontal);
    lemma_blocks(profile.height as int, align[1], s0.vertical);
}

/// The first `n` planes of an accepted frame, one by one.
pub(crate) proof fn lemma_planes(profile: &StandardVarDctProfile, order: Seq<u32>, limit: u64, n: int)
    requires
        0 <= n <= order.len(),
        component_refusal(profile, order, limit, 0) is None,
    ensures
        component_planes(profile, order, n).len() == n,
        component_refusal(profile, order, limit, n) is None,
        n > 0 ==> words_before(component_planes(profile, order, n), n) <= word_cap(limit),
        forall|i: int|
            #![trigger component_planes(profile, order, n)[i]]
            0 <= i < n ==> {
                let planes = component_planes(profile, order, n);
                let shift = profile.channel_shifts[order[i] as int];
                &&& planes[i] == component_plane(
                    profile,
                    order[i],
                    words_before(planes, i),
                )
                &&& shift.horizontal <= profile.jpeg_block_alignment[0]
                &&& shift.vertical <= profile.jpeg_block_alignment[1]
            },
    decreases n,
{
    if n > 0 {
        lemma_planes(profile, order, limit, n - 1);
        let front = component_planes(profile, order, n - 1);
        let planes = component_planes(profile, order, n);
        assert forall|i: int|
            #![trigger component_planes(profile, order, n)[i]]
            0 <= i < n implies ({
            let shift = profile.channel_shifts[order[i] as int];
            &&& planes[i] == component_plane(profile, order[i], words_before(planes, i))
            &&& shift.horizontal <= profile.jpeg_block_alignment[0]
            &&& shift.vertical <= profile.jpeg_block_alignment[1]
        }) by {
            lemma_words_before_prefix(front, planes, i);
            if i < n - 1 {
                assert(planes[i] == front[i]);
                assert(component_planes(profile, order, n - 1)[i] == front[i]);
            } else {
                assert(component_refusal(profile, order, limit, n - 1) is None);
            }
        }
    }
}

impl JpegCoefficientLayout {
    /// Lays out the coefficient planes of a JPEG frame, before any of them is allocated.
    pub fn new(
        profile: &StandardVarDctProfile,
        grayscale: bool,
        groups: u32,
        limit: u64,
    ) -> (r: Result<Self, JpegCoefficientError>)
        ensures
            match layout_refusal(profile, grayscale, limit) {
                Some(error) => r == Err::<Self, JpegCoefficientError>(error),
                None => r matches Ok(layout) && layout@ == layout_of(profile, grayscale, groups),
            },
    {
        let xyb = match profile.color_transform {
            VarDctColorTransform::Xyb => true,
            _ => false,
        };
        if profile.width == 0 || profile.height == 0 || profile.width > 65535 || profile.height
            > 65535 || profile.upsampling != 1 || profile.sample_bit_depth != (
        SampleBitDepth::Integer { bits_per_sample: 8 }) || profile.lf_level != 0
            || profile.uses_lf_frame || xyb {
            return Err(
                JpegCoefficientError::Unsupported {
                    reason: "8-bit integer non-XYB JPEG frame geometry",
                },
            );
        }
        let ycbcr = match profile.color_transform {
            VarDctColorTransform::Ycbcr => true,
            _ => false,
        };
        let order: Vec<u32> = if grayscale {
            vec![1]
        } else if ycbcr {
            vec![1, 0, 2]
        } else {
            vec![0, 1, 2]
        };
        assert(order@ =~= component_order(profile, grayscale));
        let horizontal: u32 = profile.jpeg_block_alignment[0];
        let vertical: u32 = profile.jpeg_block_alignment[1];
        if horizontal > 1 || vertical > 1 || (grayscale && horizontal + vertical != 0) {
            return Err(JpegCoefficientError::Unsupported { reason: "JPEG sampling factors" });
        }
        let mcus: [u32; 2] = [
            div_ceil_u32(profile.width, 8 * unit_of(horizontal)),
            div_ceil_u32(profile.height, 8 * unit_of(vertical)),
        ];
        proof {
            lemma_blocks(profile.width as int, horizontal, horizontal);
            lemma_blocks(profile.height as int, vertical, vertical);
        }
        let cap: u64 = min_u64(limit, (u32::MAX - QUANTIZATION_WORDS) as u64);
        let mut planes: Vec<JpegCoefficientPlane> = Vec::new();
        let mut words: u64 = 0;
        let mut index: usize = 0;
        while index < order.len()
            invariant
                order@ == component_order(profile, grayscale),
                jpeg_frame(profile),
                jpeg_alignment(profile, grayscale),
                horizontal == profile.jpeg_block_alignment[0],
                vertical == profile.jpeg_block_alignment[1],
                mcus[0] == ceil_div(profile.width as int, 8 * unit(horizontal)),
                mcus[1] == ceil_div(profile.height as int, 8 * unit(vertical)),
                mcus[0] <= 8192,
                mcus[1] <= 8192,
                cap == word_cap(limit),
                index <= order.len() <= 3,
                planes.len() == index,
                planes@.map_values(|p: JpegCoefficientPlane| p@) == component_planes(
                    profile,
                    order@,
                    index as int,
                ),
                words == words_before(component_planes(profile, order@, index as int), index as int),
                words <= cap,
                layout_refusal(profile, grayscale, limit) == component_refusal(
                    profile,
                    order@,
                    limit,
                    index as int,
                ),
            decreases order.len() - index,
        {
            let channel: u32 = order[index];
            let shift = profile.channel_shifts[channel as usize];
            if shift.horizontal > horizontal || shift.vertical > vertical {
                return Err(
                    JpegCoefficientError::Binding {
                        reason: "component shift exceeds MCU alignment",
                    },
                );
            }
            let sampling: [u32; 2] = [
                unit_of(horizontal - shift.horizontal),
                unit_of(vertical - shift.vertical),
            ];
            proof {
                lemma_blocks(profile.width as int, horizontal, shift.horizontal);
                lemma_blocks(profile.height as int, vertical, shift.vertical);
            }
            let stride: u32 = mcus[0] * sampling[0];
            let rows: u32 = mcus[1] * sampling[1];
            let ghost front = component_planes(profile, order@, index as int);
            let ghost p = component_plane(profile, channel, words as int);
            let ghost planes_after = component_planes(profile, order@, index + 1);
            assert(stride as int * rows as int <= 16384 * 16384) by (nonlinear_arith)
                requires
                    stride <= 16384,
                    rows <= 16384,
            ;
            let base: u64 = words;
            words = words + stride as u64 * rows as u64 * 64;
            proof {
                assert(planes_after == front.push(p));
                lemma_words_before_prefix(front, planes_after, index as int);
                assert(front.len() == planes@.len());
                assert(planes_after[index as int] == p);
                assert(p.columns == stride && p.rows == rows);
                assert(words_before(planes_after, index + 1) == words);
            }
            if words > cap {
                return Err(JpegCoefficientError::CoefficientLimit { required: words, limit: cap });
            }
            let plane = JpegCoefficientPlane {
                coefficient_word_offset: QUANTIZATION_WORDS + base as u32,
                quantization_word_offset: channel * 64,
                blocks_per_row: stride,
                block_rows: rows,
                real_blocks: [
                    div_ceil_u32(profile.width, 8 * unit_of(shift.horizontal)),
                    div_ceil_u32(profile.height, 8 * unit_of(shift.vertical)),
                ],
                sampling,
                channel,
            };
            planes.push(plane);
            assert(planes@.map_values(|p: JpegCoefficientPlane| p@) =~= planes_after);
            index = index + 1;
        }
        let cfl = !grayscale && !profile.channel_shifts[0].is_subsampled()
            && !profile.channel_shifts[1].is_subsampled()
            && !profile.channel_shifts[2].is_subsampled();
        let rgb = match profile.color_transform {
            VarDctColorTransform::Rgb => true,
            _ => false,
        };
        proof {
            lemma_layout_wf(profile, grayscale, groups, limit);
            let view = layout_of(profile, grayscale, groups);
            if cfl {
                assert forall|c: int| 0 <= c < 3 implies !(
                #[trigger] profile.channel_shifts[c]).subsampled() by {}
            } else if !grayscale {
                assert(exists|c: int|
                    0 <= c < 3 && (#[trigger] profile.channel_shifts[c]).subsampled());
            }
        }
        Ok(
            JpegCoefficientLayout {
                planes,
                coefficient_words: words as u32,
                extent: [profile.width, profile.height],
                groups,
                rgb,
                cfl,
            },
        )
    }

    /// The components, in JPEG order.
    pub fn planes(&self) -> (planes: &[JpegCoefficientPlane])
        ensures
            planes@.map_values(|p: JpegCoefficientPlane| p@) == self@.planes,
            self@.wf(),
    {
        proof {
            use_type_invariant(self);
        }
        self.planes.as_slice()
    }

    /// Width and height of the frame.
    pub fn extent(&self) -> (extent: [u32; 2])
        ensures
            (extent[0] as int, extent[1] as int) == self@.extent,
            self@.wf(),
    {
        proof {
            use_type_invariant(self);
        }
        self.extent
    }

    /// Coefficients of all planes.
    pub fn coefficient_words(&self) -> (words: u32)
        ensures
            words == self@.words,
            self@.wf(),
    {
        proof {
            use_type_invariant(self);
        }
        self.coefficient_words
    }

    /// The components are red, green and blue.
    pub fn is_rgb(&self) -> (r: bool)
        ensures
            r == self@.rgb,
    {
        self.rgb
    }

    /// Chroma is predicted from luma.
    pub fn uses_cfl(&self) -> (r: bool)
        ensures
            r == self@.cfl,
    {
        self.cfl
    }

    /// Components of the frame.
    pub fn component_count(&self) -> (components: usize)
        ensures
            components == self@.planes.len(),
    {
        self.planes.len()
    }

    /// Bytes of the quantizer prefix and all coefficients.
    pub fn storage_bytes(&self) -> (bytes: u64)
        ensures
            bytes == (QUANTIZATION_WORDS + self@.words) * 4,
            self@.wf(),
    {
        proof {
            use_type_invariant(self);
        }
        (QUANTIZATION_WORDS as u64 + self.coefficient_words as u64) * 4
    }

    /// What the coefficient output owns on the GPU.
    pub fn memory(&self) -> (memory: FrameOutputMemory)
        ensures
            memory.storage_bytes == (QUANTIZATION_WORDS + self@.words) * 4,
            memory.uniform_bytes == self@.groups * RESTORE_UNIFORM_BYTES,
            memory.status_bytes == STATUS_BYTES,
    {
        FrameOutputMemory {
            storage_bytes: self.storage_bytes(),
            uniform_bytes: self.groups as u64 * RESTORE_UNIFORM_BYTES,
            status_bytes: STATUS_BYTES,
        }
    }

    /// The record of a restoration that used every quantizer and wrote every coefficient.
    pub open spec fn complete_status(self) -> Seq<u32> {
        seq![QUANTIZATION_WORDS, 0u32, self@.words as u32, 0u32]
    }

    /// Accepts exactly the record of a complete restoration.
    pub fn check_status(&self, actual: [u32; 4]) -> (r: Result<(), VarDctDecodeError>)
        ensures
            r is Ok <==> actual@ == self.complete_status(),
            r matches Err(error) ==> (error matches VarDctDecodeError::Jpeg(
                JpegCoefficientError::GpuStatus { expected, actual: found },
            ) && expected@ == self.complete_status() && found == actual),
    {
        let expected: [u32; 4] = [QUANTIZATION_WORDS, 0, self.coefficient_words, 0];
        assert(expected@ =~= self.complete_status());
        if actual[0] != expected[0] || actual[1] != expected[1] || actual[2] != expected[2]
            || actual[3] != expected[3] {
            return Err(
                VarDctDecodeError::Jpeg(JpegCoefficientError::GpuStatus { expected, actual }),
            );
        }
        assert(actual@ =~= expected@);
        Ok(())
    }

    /// Reads the mapped restoration record and accepts exactly a complete one.
    pub fn validate_status(&self, bytes: &[u8]) -> (r: Result<(), VarDctDecodeError>)
        ensures
            bytes@.len() != 16 ==> r == Err::<(), VarDctDecodeError>(
                VarDctDecodeError::StatusAbi { status: "JPEG coefficient" },
            ),
            bytes@.len() == 16 ==> exists|words: [u32; 4]|
                #![trigger native_words(words@, bytes@)]
                {
                    &&& native_words(words@, bytes@)
                    &&& r is Ok <==> words@ == self.complete_status()
                    &&& r matches Err(error) ==> (error matches VarDctDecodeError::Jpeg(
                        JpegCoefficientError::GpuStatus { expected, actual },
                    ) && expected@ == self.complete_status() && actual == words)
                },
    {
        match read_words::<4>(bytes) {
            Ok(actual) => self.check_status(actual),
            Err(_) => Err(VarDctDecodeError::StatusAbi { status: "JPEG coefficient" }),
        }
    }
}

/// One or two, for a binary logarithm of zero or one.
fn unit_of(log: u32) -> (u: u32)
    requires
        log <= 1,
    ensures
        u == unit(log),
{
    if log == 0 {
        1
    } else {
        2
    }
}

} // verus!
