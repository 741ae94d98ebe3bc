//! Reconstruct and present one immutable coefficient state. Entropy accumulation is separate.

use crate::arith::{ceil_div, div_ceil_u32};
use crate::progressive_dc::{normalized_stride, stride_or_width, stride_refusal};
use crate::vardct_engine::restoration::{planes_after, PlaneSet, RestorationCursor};
use crate::vardct_engine::source::{GroupPlan, PacketGroup};
use crate::vardct_engine::types::VarDctDecodeError;
use crate::vardct_frontend::{SampleBitDepth, StandardVarDctProfile, VarDctChannelShift};
use vstd::prelude::*;

verus! {

/// Which image stages run between inverse transforms and output.
#[derive(Clone, Copy, Debug, PartialEq, Eq, Structural)]
pub struct RenderStages {
    /// Inverse transforms have planes to write to.
    pub resident_planes: bool,
    /// Subsampled channels are expanded before restoration.
    pub pre_restoration: bool,
    pub gaborish: bool,
    pub epf_passes: usize,
    pub upsampled: bool,
    /// Noise is added to the presented planes.
    pub noise: bool,
    /// Planes of the frame stay resident for a later stage.
    pub surface: bool,
    /// Extra channels were normalized to frame size.
    pub rendered_extra: bool,
    /// Extra planes that stay resident as they were decoded.
    pub extra_planes: usize,
    /// LF groups of the frame.
    pub groups: usize,
}

/// One expansion of a subsampled channel.
#[derive(Clone, Copy, Debug, PartialEq, Eq, Structural)]
pub struct ChromaUpsample {
    pub channel: usize,
    pub input_width: u32,
    pub input_height: u32,
    pub input_stride: u32,
    pub horizontal: bool,
    pub vertical: bool,
}

/// One restoration filter: what it is, and the planes that it reads and writes.
#[derive(Clone, Copy, Debug, PartialEq, Eq, Structural)]
pub struct FilterStep {
    /// Smoothing, or a pass of the edge-preserving filter.
    pub epf_pass: Option<usize>,
    pub input: PlaneSet,
    pub output: PlaneSet,
}

/// The planes that are presented.
#[derive(Clone, Copy, Debug, PartialEq, Eq, Structural)]
pub enum PresentedPlanes {
    Resident,
    PreRestoration,
    /// The scratch planes of the last filter.
    Scratch,
    Upsampled,
}

/// Where alpha comes from.
#[derive(Clone, Copy, Debug, PartialEq, Eq, Structural)]
pub enum AlphaSource {
    Absent,
    Rendered,
    Decoded,
}

/// One plane of the presented image.
#[derive(Clone, Copy, Debug, PartialEq, Eq, Structural)]
pub struct PlaneGeometry {
    pub width: u32,
    pub height: u32,
    pub stride: u32,
}

/// The rendering of one coefficient state.
#[derive(Debug)]
pub struct RenderPlan {
    pub padded_width: u32,
    pub padded_height: u32,
    pub correlation_width: u32,
    pub correlation_height: u32,
    /// What the inverse transforms write, where there is any group.
    pub resident: Option<[PlaneGeometry; 3]>,
    /// What expansions write and filters read and write.
    pub image: PlaneGeometry,
    /// Inverse sigmas of the edge-preserving filter.
    pub sigma: Option<PlaneGeometry>,
    /// What frame upsampling writes.
    pub upsample: Option<PlaneGeometry>,
    /// What noise is added to.
    pub noise: Option<PlaneGeometry>,
    pub chroma: Vec<ChromaUpsample>,
    pub filters: Vec<FilterStep>,
    pub presented: PresentedPlanes,
    pub geometry: [PlaneGeometry; 3],
    /// Channels that are still subsampled when colours are converted.
    pub presentation_shifts: [VarDctChannelShift; 3],
    pub alpha: AlphaSource,
    /// The final planes, where they are kept as the LF image of later frames.
    pub lf: Option<PlaneGeometry>,
}

/// No channel is subsampled.
pub open spec fn unshifted() -> VarDctChannelShift {
    VarDctChannelShift { horizontal: 0, vertical: 0 }
}

/// Channels are at full size when they are presented.
pub open spec fn expanded(stages: RenderStages) -> bool {
    stages.pre_restoration || stages.gaborish || stages.epf_passes != 0 || stages.upsampled
}

/// The subsampling of a channel when it is presented.
pub open spec fn presented_shift(
    profile: &StandardVarDctProfile,
    stages: RenderStages,
    channel: int,
) -> VarDctChannelShift {
    if expanded(stages) {
        unshifted()
    } else {
        profile.channel_shifts[channel]
    }
}

/// Samples in one row of the presented planes before subsampling.
pub open spec fn presented_stride(
    profile: &StandardVarDctProfile,
    stages: RenderStages,
    padded_width: int,
) -> int {
    if stages.upsampled {
        profile.output_width as int
    } else {
        padded_width
    }
}

/// Some shift among channels is no shift of a word.
pub open spec fn shift_overflow(shifts: [VarDctChannelShift; 3]) -> bool {
    exists|c: int|
        0 <= c < 3 && ((#[trigger] shifts[c]).horizontal >= 32 || shifts[c].vertical >= 32)
}

/// Why a colour image cannot be rendered.
pub open spec fn render_refusal(
    profile: &StandardVarDctProfile,
    blocks: [u32; 2],
    stages: RenderStages,
) -> Option<VarDctDecodeError> {
    if blocks[0] * 8 > u32::MAX {
        Some(VarDctDecodeError::ArithmeticOverflow { field: "padded output width" })
    } else if !stages.resident_planes {
        Some(
            VarDctDecodeError::EntropyWindowContract {
                detail: "color output lacks its resident planes",
            },
        )
    } else if blocks[1] * 8 > u32::MAX {
        Some(VarDctDecodeError::ArithmeticOverflow { field: "padded output height" })
    } else if stages.groups > 0 && shift_overflow(profile.channel_shifts) {
        Some(VarDctDecodeError::ArithmeticOverflow { field: "resident shifted channel extent" })
    } else if stages.pre_restoration && shift_overflow(profile.channel_shifts) {
        Some(VarDctDecodeError::ArithmeticOverflow { field: "pre-restoration input extent" })
    } else if !expanded(stages) && shift_overflow(profile.channel_shifts) {
        Some(VarDctDecodeError::ArithmeticOverflow { field: "presentation channel extent" })
    } else if profile.lf_level != 0 {
        match stride_refusal(
            profile.output_width,
            profile.output_height,
            presented_stride(profile, stages, blocks[0] * 8) as u32,
            "XYB output",
        ) {
            Some(error) => Some(VarDctDecodeError::ProgressiveDc(error)),
            None => None,
        }
    } else {
        None
    }
}

/// A geometry that is there or not.
pub open spec fn geometry_if(there: bool, width: u32, height: u32, stride: u32) -> Option<
    PlaneGeometry,
> {
    if there {
        Some(PlaneGeometry { width, height, stride })
    } else {
        None
    }
}

/// One plane that the inverse transforms write: a channel of the padded frame.
pub open spec fn resident_geometry(
    profile: &StandardVarDctProfile,
    blocks: [u32; 2],
    channel: int,
) -> PlaneGeometry {
    let (w, h) = profile.channel_shifts[channel].extent_of(
        (blocks[0] * 8) as u32,
        (blocks[1] * 8) as u32,
    )->0;
    PlaneGeometry { width: w as u32, height: h as u32, stride: w as u32 }
}

/// The expansion of one channel.
pub open spec fn chroma_step(
    profile: &StandardVarDctProfile,
    padded_width: u32,
    channel: int,
) -> ChromaUpsample {
    let shift = profile.channel_shifts[channel];
    let (w, h) = shift.extent_of(profile.width, profile.height)->0;
    ChromaUpsample {
        channel: channel as usize,
        input_width: w as u32,
        input_height: h as u32,
        input_stride: padded_width >> shift.horizontal,
        horizontal: shift.horizontal != 0,
        vertical: shift.vertical != 0,
    }
}

/// The expansions of the first `n` channels.
pub open spec fn chroma_steps(
    profile: &StandardVarDctProfile,
    padded_width: u32,
    n: int,
) -> Seq<ChromaUpsample>
    decreases n,
{
    if n <= 0 {
        Seq::empty()
    } else if profile.channel_shifts[n - 1].subsampled() {
        chroma_steps(profile, padded_width, n - 1).push(chroma_step(profile, padded_width, n - 1))
    } else {
        chroma_steps(profile, padded_width, n - 1)
    }
}

/// Filters of a frame: smoothing, then the passes of the edge-preserving filter.
pub open spec fn filter_count(stages: RenderStages) -> int {
    (if stages.gaborish { 1int } else { 0 }) + stages.epf_passes
}

/// Filter `k` of a frame.
pub open spec fn filter_step(stages: RenderStages, k: int) -> FilterStep {
    FilterStep {
        epf_pass: if stages.gaborish {
            if k == 0 {
                None
            } else {
                Some((k - 1) as usize)
            }
        } else {
            Some(k as usize)
        },
        input: planes_after(k as nat),
        output: planes_after((k + 1) as nat),
    }
}

/// The planes that are presented.
pub open spec fn presented_planes(stages: RenderStages) -> PresentedPlanes {
    if stages.upsampled {
        PresentedPlanes::Upsampled
    } else if planes_after(filter_count(stages) as nat) == PlaneSet::Scratch {
        PresentedPlanes::Scratch
    } else if stages.pre_restoration {
        PresentedPlanes::PreRestoration
    } else {
        PresentedPlanes::Resident
    }
}

/// Where alpha comes from: a resident surface keeps its planes apart.
pub open spec fn alpha_source(stages: RenderStages) -> AlphaSource {
    if stages.surface {
        AlphaSource::Absent
    } else if stages.rendered_extra {
        AlphaSource::Rendered
    } else if stages.extra_planes > 0 {
        AlphaSource::Decoded
    } else {
        AlphaSource::Absent
    }
}

/// The geometry of one presented plane.
pub open spec fn plane_geometry(
    profile: &StandardVarDctProfile,
    stages: RenderStages,
    padded_width: u32,
    channel: int,
) -> PlaneGeometry {
    let shift = presented_shift(profile, stages, channel);
    let (w, h) = shift.extent_of(profile.output_width, profile.output_height)->0;
    PlaneGeometry {
        width: w as u32,
        height: h as u32,
        stride: (presented_stride(profile, stages, padded_width as int) as u32)
            >> shift.horizontal,
    }
}

/// What a rendering plan says.
pub open spec fn renders(
    plan: RenderPlan,
    profile: &StandardVarDctProfile,
    blocks: [u32; 2],
    stages: RenderStages,
) -> bool {
    &&& plan.padded_width == blocks[0] * 8
    &&& plan.padded_height == blocks[1] * 8
    &&& plan.correlation_width == ceil_div(profile.width as int, 64)
    &&& plan.correlation_height == ceil_div(profile.height as int, 64)
    &&& match plan.resident {
        Some(planes) => stages.groups > 0 && forall|c: int|
            0 <= c < 3 ==> #[trigger] planes[c] == resident_geometry(profile, blocks, c),
        None => stages.groups == 0,
    }
    &&& plan.image == (PlaneGeometry {
        width: profile.width,
        height: profile.height,
        stride: plan.padded_width,
    })
    &&& plan.sigma == geometry_if(stages.epf_passes != 0, blocks[0], blocks[1], blocks[0])
    &&& plan.upsample == geometry_if(
        stages.upsampled,
        profile.output_width,
        profile.output_height,
        profile.output_width,
    )
    &&& plan.noise == geometry_if(
        stages.noise,
        profile.output_width,
        profile.output_height,
        presented_stride(profile, stages, plan.padded_width as int) as u32,
    )
    &&& plan.chroma@ == if stages.pre_restoration {
        chroma_steps(profile, plan.padded_width, 3)
    } else {
        Seq::empty()
    }
    &&& plan.filters@.len() == filter_count(stages)
    &&& forall|k: int|
        0 <= k < plan.filters@.len() ==> #[trigger] plan.filters@[k] == filter_step(stages, k)
    &&& plan.presented == presented_planes(stages)
    &&& forall|c: int|
        0 <= c < 3 ==> #[trigger] plan.presentation_shifts[c] == presented_shift(
            profile,
            stages,
            c,
        )
    &&& forall|c: int|
        0 <= c < 3 ==> #[trigger] plan.geometry[c] == plane_geometry(
            profile,
            stages,
            plan.padded_width,
            c,
        )
    &&& plan.alpha == alpha_source(stages)
    &&& plan.lf == geometry_if(
        profile.lf_level != 0,
        profile.output_width,
        profile.output_height,
        stride_or_width(
            profile.output_width,
            presented_stride(profile, stages, plan.padded_width as int) as u32,
        ),
    )
}

/// A geometry that is there or not.
fn plane_if(there: bool, width: u32, height: u32, stride: u32) -> (plane: Option<PlaneGeometry>)
    ensures
        plane == geometry_if(there, width, height, stride),
{
    if there {
        Some(PlaneGeometry { width, height, stride })
    } else {
        None
    }
}

/// One plane that the inverse transforms write.
fn resident_plane(shift: VarDctChannelShift, width: u32, height: u32) -> (plane: PlaneGeometry)
    requires
        shift.horizontal < 32,
        shift.vertical < 32,
    ensures
        plane.width == (shift.extent_of(width, height)->0).0,
        plane.height == (shift.extent_of(width, height)->0).1,
        plane.stride == plane.width,
{
    match shift.shifted_extent(width, height) {
        Some(extent) => PlaneGeometry { width: extent[0], height: extent[1], stride: extent[0] },
        None => PlaneGeometry { width: 0, height: 0, stride: 0 },
    }
}

/// Whether some shift is no shift of a word.
fn shifts_overflow(shifts: &[VarDctChannelShift; 3]) -> (r: bool)
    ensures
        r == shift_overflow(*shifts),
{
    let mut c: usize = 0;
    while c < 3
        invariant
            c <= 3,
            forall|k: int|
                0 <= k < c ==> (#[trigger] shifts[k]).horizontal < 32 && shifts[k].vertical < 32,
        decreases 3 - c,
    {
        if shifts[c].horizontal >= 32 || shifts[c].vertical >= 32 {
            assert(shifts[c as int].horizontal >= 32 || shifts[c as int].vertical >= 32);
            return true;
        }
        c = c + 1;
    }
    false
}

/// The expansions of all subsampled channels.
fn plan_chroma(profile: &StandardVarDctProfile, padded_width: u32) -> (chroma: Vec<ChromaUpsample>)
    requires
        !shift_overflow(profile.channel_shifts),
    ensures
        chroma@ == chroma_steps(profile, padded_width, 3),
{
    let mut chroma: Vec<ChromaUpsample> = Vec::new();
    assert(chroma@ =~= chroma_steps(profile, padded_width, 0));
    let mut c: usize = 0;
    while c < 3
        invariant
            c <= 3,
            !shift_overflow(profile.channel_shifts),
            chroma@ == chroma_steps(profile, padded_width, c as int),
        decreases 3 - c,
    {
        let shift = profile.channel_shifts[c];
        assert(profile.channel_shifts[c as int].horizontal < 32);
        if shift.is_subsampled() {
            let extent = shift.shifted_extent(profile.width, profile.height);
            match extent {
                Some(extent) => {
                    chroma.push(
                        ChromaUpsample {
                            channel: c,
                            input_width: extent[0],
                            input_height: extent[1],
                            input_stride: padded_width >> shift.horizontal,
                            horizontal: shift.horizontal != 0,
                            vertical: shift.vertical != 0,
                        },
                    );
                },
                None => {},
            }
        }
        assert(chroma@ =~= chroma_steps(profile, padded_width, c + 1));
        c = c + 1;
    }
    chroma
}

/// The filters of a frame, alternating between two sets of planes.
fn plan_filters(stages: RenderStages) -> (r: (Vec<FilterStep>, PlaneSet))
    requires
        stages.epf_passes < usize::MAX,
    ensures
        r.0@.len() == filter_count(stages),
        forall|k: int| 0 <= k < r.0@.len() ==> #[trigger] r.0@[k] == filter_step(stages, k),
        r.1 == planes_after(filter_count(stages) as nat),
{
    let mut filters: Vec<FilterStep> = Vec::new();
    let mut cursor = RestorationCursor::new();
    let count: usize = if stages.gaborish {
        stages.epf_passes + 1
    } else {
        stages.epf_passes
    };
    let mut k: usize = 0;
    while k < count
        invariant
            k <= count,
            count == filter_count(stages),
            cursor.current == planes_after(k as nat),
            filters@.len() == k,
            forall|i: int| 0 <= i < k ==> #[trigger] filters@[i] == filter_step(stages, i),
        decreases count - k,
    {
        let (input, output) = cursor.advance();
        let epf_pass: Option<usize> = if stages.gaborish {
            if k == 0 {
                None
            } else {
                Some(k - 1)
            }
        } else {
            Some(k)
        };
        filters.push(FilterStep { epf_pass, input, output });
        k = k + 1;
    }
    (filters, cursor.current())
}

/// The geometry of one presented plane.
fn plan_plane(shift: VarDctChannelShift, width: u32, height: u32, stride: u32) -> (plane: PlaneGeometry)
    requires
        shift.horizontal < 32,
        shift.vertical < 32,
    ensures
        plane.width == (shift.extent_of(width, height)->0).0,
        plane.height == (shift.extent_of(width, height)->0).1,
        plane.stride == stride >> shift.horizontal,
{
    match shift.shifted_extent(width, height) {
        Some(extent) => PlaneGeometry {
            width: extent[0],
            height: extent[1],
            stride: stride >> shift.horizontal,
        },
        None => PlaneGeometry { width: 0, height: 0, stride: 0 },
    }
}

/// Plans the rendering of a colour image.
pub fn encode_frame_render(profile: &StandardVarDctProfile, blocks: [u32; 2], stages: RenderStages) -> (r: Result<
    RenderPlan,
    VarDctDecodeError,
>)
    requires
        stages.epf_passes < usize::MAX,
    ensures
        match render_refusal(profile, blocks, stages) {
            Some(error) => r == Err::<RenderPlan, VarDctDecodeError>(error),
            None => r matches Ok(plan) && renders(plan, profile, blocks, stages),
        },
{
    let padded_width: u32 = match blocks[0].checked_mul(8) {
        Some(width) => width,
        None => {
            return Err(VarDctDecodeError::ArithmeticOverflow { field: "padded output width" });
        },
    };
    if !stages.resident_planes {
        return Err(
            VarDctDecodeError::EntropyWindowContract {
                detail: "color output lacks its resident planes",
            },
        );
    }
    let padded_height: u32 = match blocks[1].checked_mul(8) {
        Some(height) => height,
        None => {
            return Err(VarDctDecodeError::ArithmeticOverflow { field: "padded output height" });
        },
    };
    let overflow = shifts_overflow(&profile.channel_shifts);
    if stages.groups > 0 && overflow {
        return Err(
            VarDctDecodeError::ArithmeticOverflow { field: "resident shifted channel extent" },
        );
    }
    if stages.pre_restoration && overflow {
        return Err(
            VarDctDecodeError::ArithmeticOverflow { field: "pre-restoration input extent" },
        );
    }
    let full = stages.pre_restoration || stages.gaborish || stages.epf_passes != 0
        || stages.upsampled;
    if !full && overflow {
        return Err(
            VarDctDecodeError::ArithmeticOverflow { field: "presentation channel extent" },
        );
    }
    let presented_row: u32 = if stages.upsampled {
        profile.output_width
    } else {
        padded_width
    };
    let mut lf: Option<PlaneGeometry> = None;
    if profile.lf_level != 0 {
        match normalized_stride(
            profile.output_width,
            profile.output_height,
            presented_row,
            "XYB output",
        ) {
            Ok(stride) => {
                lf =
                Some(
                    PlaneGeometry {
                        width: profile.output_width,
                        height: profile.output_height,
                        stride,
                    },
                );
            },
            Err(error) => {
                return Err(VarDctDecodeError::ProgressiveDc(error));
            },
        }
    }
    let resident: Option<[PlaneGeometry; 3]> = if stages.groups > 0 {
        let shifts = profile.channel_shifts;
        assert(shifts[0].horizontal < 32 && shifts[1].horizontal < 32 && shifts[2].horizontal
            < 32);
        Some(
            [
                resident_plane(shifts[0], padded_width, padded_height),
                resident_plane(shifts[1], padded_width, padded_height),
                resident_plane(shifts[2], padded_width, padded_height),
            ],
        )
    } else {
        None
    };
    let chroma: Vec<ChromaUpsample> = if stages.pre_restoration {
        plan_chroma(profile, padded_width)
    } else {
        let none: Vec<ChromaUpsample> = Vec::new();
        assert(none@ =~= Seq::empty());
        none
    };
    let (filters, last) = plan_filters(stages);
    let presented = if stages.upsampled {
        PresentedPlanes::Upsampled
    } else {
        match last {
            PlaneSet::Scratch => PresentedPlanes::Scratch,
            PlaneSet::Image => {
                if stages.pre_restoration {
                    PresentedPlanes::PreRestoration
                } else {
                    PresentedPlanes::Resident
                }
            },
        }
    };
    let none = VarDctChannelShift { horizontal: 0, vertical: 0 };
    let presentation_shifts: [VarDctChannelShift; 3] = if full {
        [none, none, none]
    } else {
        profile.channel_shifts
    };
    let stride: u32 = presented_row;
    proof {
        assert forall|c: int| 0 <= c < 3 implies (
        #[trigger] presentation_shifts[c]).horizontal < 32 && presentation_shifts[c].vertical
            < 32 by {
            if !full {
                assert(profile.channel_shifts[c].horizontal < 32);
            }
        }
        assert(presentation_shifts[0].horizontal < 32 && presentation_shifts[1].horizontal < 32
            && presentation_shifts[2].horizontal < 32);
    }
    let geometry: [PlaneGeometry; 3] = [
        plan_plane(presentation_shifts[0], profile.output_width, profile.output_height, stride),
        plan_plane(presentation_shifts[1], profile.output_width, profile.output_height, stride),
        plan_plane(presentation_shifts[2], profile.output_width, profile.output_height, stride),
    ];
    let alpha = if stages.surface {
        AlphaSource::Absent
    } else if stages.rendered_extra {
        AlphaSource::Rendered
    } else if stages.extra_planes > 0 {
        AlphaSource::Decoded
    } else {
        AlphaSource::Absent
    };
    Ok(
        RenderPlan {
            padded_width,
            padded_height,
            correlation_width: div_ceil_u32(profile.width, 64),
            correlation_height: div_ceil_u32(profile.height, 64),
            resident,
            image: PlaneGeometry {
                width: profile.width,
                height: profile.height,
                stride: padded_width,
            },
            sigma: plane_if(stages.epf_passes != 0, blocks[0], blocks[1], blocks[0]),
            upsample: plane_if(
                stages.upsampled,
                profile.output_width,
                profile.output_height,
                profile.output_width,
            ),
            noise: plane_if(
                stages.noise,
                profile.output_width,
                profile.output_height,
                presented_row,
            ),
            chroma,
            filters,
            presented,
            geometry,
            presentation_shifts,
            alpha,
            lf,
        },
    )
}

/// Where the resources of a frame hold chroma-from-luma cells and LF samples.
#[derive(Clone, Copy, Debug, PartialEq, Eq)]
pub struct RenderResources {
    /// First chroma-from-luma cell of the frame.
    pub correlation_offset: u32,
    /// First LF sample of each channel, and samples of its rows.
    pub lf_offsets: [u32; 3],
    pub lf_strides: [u32; 3],
}

/// The inverse transforms of one LF group.
#[derive(Clone, Copy, Debug, PartialEq, Eq)]
pub struct GroupRender {
    /// First byte of the group's indirect dispatches.
    pub indirect_base_offset: u64,
    pub task_capacity: u32,
    pub scratch_scalars: u32,
    pub task_word_offset: u32,
    pub bucket_word_offset: u32,
    pub quant_offset: u32,
    /// Chroma-from-luma cells and LF samples of the whole frame.
    pub resources: RenderResources,
    pub correlation_width: u32,
    pub correlation_height: u32,
}

/// The inverse transforms of one LF group.
pub open spec fn group_render(
    profile: &StandardVarDctProfile,
    group: PacketGroup,
    plan: GroupPlan,
    resources: RenderResources,
) -> GroupRender {
    GroupRender {
        indirect_base_offset: (plan.artifact_layout.indirect_offset_words * 4) as u64,
        task_capacity: group.task_capacity,
        scratch_scalars: group.coefficient_words,
        task_word_offset: plan.artifact_layout.tasks_offset_words,
        bucket_word_offset: plan.artifact_layout.buckets_offset_words,
        quant_offset: plan.quant_offset,
        resources,
        correlation_width: ceil_div(profile.width as int, 64) as u32,
        correlation_height: ceil_div(profile.height as int, 64) as u32,
    }
}

/// The inverse transforms of every LF group.
pub fn plan_group_renders(
    profile: &StandardVarDctProfile,
    groups: &Vec<PacketGroup>,
    plans: &Vec<GroupPlan>,
    resources: RenderResources,
) -> (renders: Vec<GroupRender>)
    requires
        plans@.len() == groups@.len(),
    ensures
        renders@.len() == groups@.len(),
        forall|i: int|
            0 <= i < renders@.len() ==> #[trigger] renders@[i] == group_render(
                profile,
                groups@[i],
                plans@[i],
                resources,
            ),
{
    let correlation_width: u32 = div_ceil_u32(profile.width, 64);
    let correlation_height: u32 = div_ceil_u32(profile.height, 64);
    let mut renders: Vec<GroupRender> = Vec::new();
    let mut i: usize = 0;
    while i < groups.len()
        invariant
            i <= groups@.len() == plans@.len(),
            correlation_width == ceil_div(profile.width as int, 64),
            correlation_height == ceil_div(profile.height as int, 64),
            renders@.len() == i,
            forall|k: int|
                0 <= k < i ==> #[trigger] renders@[k] == group_render(
                    profile,
                    groups@[k],
                    plans@[k],
                    resources,
                ),
        decreases groups@.len() - i,
    {
        let group = groups[i];
        let plan = plans[i];
        renders.push(
            GroupRender {
                indirect_base_offset: plan.artifact_layout.indirect_offset_words as u64 * 4,
                task_capacity: group.task_capacity,
                scratch_scalars: group.coefficient_words,
                task_word_offset: plan.artifact_layout.tasks_offset_words,
                bucket_word_offset: plan.artifact_layout.buckets_offset_words,
                quant_offset: plan.quant_offset,
                resources,
                correlation_width,
                correlation_height,
            },
        );
        i = i + 1;
    }
    renders
}

/// Each filter reads what the one before it wrote, into planes that it does not read, and the
/// last one writes the planes that are presented.
pub proof fn law_filters_chain(stages: RenderStages, k: int)
    requires
        0 <= k,
    ensures
        filter_step(stages, k).input != filter_step(stages, k).output,
        filter_step(stages, k + 1).input == filter_step(stages, k).output,
        filter_count(stages) > 0 && !stages.upsampled ==> {
            let last = filter_step(stages, filter_count(stages) - 1).output;
            (last == PlaneSet::Scratch) == (presented_planes(stages) == PresentedPlanes::Scratch)
        },
{
    crate::vardct_engine::restoration::law_filters_alternate(k as nat);
}

/// What a scalar output reads.
#[derive(Clone, Copy, Debug, PartialEq, Eq, Structural)]
pub enum ScalarSource {
    /// Normalized samples.
    Rendered,
    /// Samples as they were decoded.
    Decoded,
}

/// A selected extra plane.
#[derive(Clone, Copy, Debug, PartialEq, Eq, Structural)]
pub struct ExtraPlane {
    pub index: u32,
    pub encoding: SampleBitDepth,
}

/// The samples that a scalar output of channel `index` reads.
pub fn plan_scalar(
    extra: Option<ExtraPlane>,
    index: u32,
    encoding: SampleBitDepth,
    rendered: bool,
) -> (r: Result<ScalarSource, VarDctDecodeError>)
    ensures
        match extra {
            None => r == Err::<ScalarSource, VarDctDecodeError>(
                VarDctDecodeError::EntropyWindowContract {
                    detail: "scalar output lacks its selected resident extra plane",
                },
            ),
            Some(plane) => if plane.encoding != encoding || plane.index != index {
                r == Err::<ScalarSource, VarDctDecodeError>(
                    VarDctDecodeError::EntropyWindowContract {
                        detail: "scalar output precision differs from the selected extra plane",
                    },
                )
            } else if rendered {
                r == Ok::<ScalarSource, VarDctDecodeError>(ScalarSource::Rendered)
            } else {
                r == Ok::<ScalarSource, VarDctDecodeError>(ScalarSource::Decoded)
            },
        },
{
    match extra {
        None => Err(
            VarDctDecodeError::EntropyWindowContract {
                detail: "scalar output lacks its selected resident extra plane",
            },
        ),
        Some(plane) => {
            if plane.encoding != encoding || plane.index != index {
                Err(
                    VarDctDecodeError::EntropyWindowContract {
                        detail: "scalar output precision differs from the selected extra plane",
                    },
                )
            } else if rendered {
                Ok(ScalarSource::Rendered)
            } else {
                Ok(ScalarSource::Decoded)
            }
        },
    }
}

/// A normalized extra plane.
#[derive(Clone, Copy, Debug, PartialEq, Eq, Structural)]
pub struct RenderedPlane {
    pub word_offset: u32,
    pub width: u32,
    pub height: u32,
}

/// One copy of a normalized extra plane into a resident surface.
#[derive(Clone, Copy, Debug, PartialEq, Eq, Structural)]
pub struct SurfaceCopy {
    pub source_offset: u64,
    pub offset: u64,
    pub bytes: u64,
}

/// The copy of one plane.
pub open spec fn surface_copy(plane: RenderedPlane, offset: u64) -> SurfaceCopy {
    SurfaceCopy {
        source_offset: (plane.word_offset * 4) as u64,
        offset,
        bytes: (plane.width * plane.height * 4) as u64,
    }
}

/// Why extra planes cannot be kept in a surface.
pub open spec fn surface_refusal(
    extras: int,
    planes: Option<Seq<RenderedPlane>>,
    storage: bool,
) -> Option<VarDctDecodeError> {
    if extras == 0 {
        None
    } else if planes is None {
        Some(
            VarDctDecodeError::EntropyWindowContract {
                detail: "frame surface lacks normalized extra planes",
            },
        )
    } else if !storage {
        Some(
            VarDctDecodeError::EntropyWindowContract {
                detail: "frame surface lacks normalized extra storage",
            },
        )
    } else if planes->0.len() != extras {
        Some(
            VarDctDecodeError::EntropyWindowContract {
                detail: "frame surface extra plane count changed",
            },
        )
    } else {
        None
    }
}

/// Executable view of normalized planes.
pub open spec fn planes_view(planes: Option<&Vec<RenderedPlane>>) -> Option<Seq<RenderedPlane>> {
    match planes {
        Some(planes) => Some(planes@),
        None => None,
    }
}

/// The copies that keep normalized extra planes in a surface at `offsets`.
pub fn plan_surface(offsets: &Vec<u64>, planes: Option<&Vec<RenderedPlane>>, storage: bool) -> (r: Result<
    Vec<SurfaceCopy>,
    VarDctDecodeError,
>)
    requires
        planes_view(planes) matches Some(planes) ==> forall|i: int|
            0 <= i < planes.len() ==> (#[trigger] planes[i]).width * planes[i].height * 4
                <= u64::MAX,
    ensures
        match surface_refusal(offsets@.len() as int, planes_view(planes), storage) {
            Some(error) => r == Err::<Vec<SurfaceCopy>, VarDctDecodeError>(error),
            None => r matches Ok(copies) && copies@.len() == offsets@.len() && forall|i: int|
                0 <= i < copies@.len() ==> #[trigger] copies@[i] == surface_copy(
                    planes_view(planes)->0[i],
                    offsets@[i],
                ),
        },
{
    let mut copies: Vec<SurfaceCopy> = Vec::new();
    let n: usize = offsets.len();
    if n == 0 {
        return Ok(copies);
    }
    let planes = match planes {
        Some(planes) => planes,
        None => {
            return Err(
                VarDctDecodeError::EntropyWindowContract {
                    detail: "frame surface lacks normalized extra planes",
                },
            );
        },
    };
    if !storage {
        return Err(
            VarDctDecodeError::EntropyWindowContract {
                detail: "frame surface lacks normalized extra storage",
            },
        );
    }
    if planes.len() != n {
        return Err(
            VarDctDecodeError::EntropyWindowContract {
                detail: "frame surface extra plane count changed",
            },
        );
    }
    let mut i: usize = 0;
    while i < n
        invariant
            i <= n,
            n == offsets@.len(),
            n == planes@.len(),
            forall|i: int|
                0 <= i < planes@.len() ==> (#[trigger] planes@[i]).width * planes@[i].height * 4
                    <= u64::MAX,
            copies@.len() == i,
            forall|k: int|
                0 <= k < i ==> #[trigger] copies@[k] == surface_copy(planes@[k], offsets@[k]),
        decreases n - i,
    {
        let plane = planes[i];
        assert(plane.width * plane.height * 4 <= u64::MAX);
        assert(0 <= plane.width * plane.height <= plane.width * plane.height * 4) by (nonlinear_arith);
        copies.push(
            SurfaceCopy {
                source_offset: plane.word_offset as u64 * 4,
                offset: offsets[i],
                bytes: plane.width as u64 * plane.height as u64 * 4,
            },
        );
        i = i + 1;
    }
    Ok(copies)
}

} // verus!
