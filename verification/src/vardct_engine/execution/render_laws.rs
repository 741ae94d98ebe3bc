//! What the rendering of a coefficient state guarantees.

use crate::arith::lemma_ceil_div;
use crate::vardct_engine::execution::render::{
    chroma_step, chroma_steps, encode_frame_render, expanded, filter_step, plan_group_renders, plan_scalar, plan_surface,
    plane_geometry, planes_view, presented_planes, resident_geometry, AlphaSource,
    ExtraPlane, GroupRender, PresentedPlanes, RenderPlan, RenderResources, RenderStages,
    RenderedPlane, ScalarSource, SurfaceCopy,
};
use crate::vardct_engine::restoration::{planes_after, PlaneSet};
use crate::vardct_engine::source::{GroupPlan, PacketGroup};
use crate::vardct_engine::types::VarDctDecodeError;
use crate::vardct_frontend::{
    shifted, SampleBitDepth, StandardVarDctProfile, VarDctChannelShift,
};
use vstd::arithmetic::power2::{lemma_pow2_pos, pow2};
use vstd::prelude::*;

verus! {

/// `samples` samples, each of them `halvings` times halved, cover `size`, and one less does not.
pub open spec fn halved(samples: int, halvings: u32, size: int) -> bool {
    (samples - 1) * pow2(halvings as nat) < size <= samples * pow2(halvings as nat)
}

/// A shifted extent covers.
proof fn lemma_halved(size: int, halvings: u32)
    requires
        0 <= size,
    ensures
        halved(shifted(size, halvings as int), halvings, size),
        0 <= shifted(size, halvings as int) <= size,
{
    lemma_pow2_pos(halvings as nat);
    let unit = pow2(halvings as nat) as int;
    lemma_ceil_div(size, unit);
    let q = shifted(size, halvings as int);
    assert((q - 1) * unit == q * unit - unit) by (nonlinear_arith);
}

/// The extent of a channel is the frame's, halved as often as the channel is shifted in each
/// direction and rounded up; there is none where a shift is not shorter than a word.
pub proof fn law_shifted_extent(
    shift: &VarDctChannelShift,
    width: u32,
    height: u32,
    r: Option<[u32; 2]>,
)
    requires
        call_ensures(VarDctChannelShift::shifted_extent, (shift, width, height), r),
    ensures
        r is Some <==> shift.horizontal < 32 && shift.vertical < 32,
        r matches Some(extent) ==> {
            &&& halved(extent@[0] as int, shift.horizontal, width as int)
            &&& halved(extent@[1] as int, shift.vertical, height as int)
        },
{
    lemma_halved(width as int, shift.horizontal);
    lemma_halved(height as int, shift.vertical);
}

/// A rendering works on whole blocks of eight by eight samples. Its planes are as large as their
/// channels, its filters and expansions as large as the frame, its enlargement and its noise as
/// large as the output. Chroma-from-luma cells of sixty-four samples cover the frame.
pub proof fn law_render_planes(
    profile: &StandardVarDctProfile,
    blocks: [u32; 2],
    stages: RenderStages,
    plan: RenderPlan,
    c: int,
)
    requires
        stages.epf_passes < usize::MAX,
        call_ensures(
            encode_frame_render,
            (profile, blocks, stages),
            Ok::<RenderPlan, VarDctDecodeError>(plan),
        ),
        0 <= c < 3,
    ensures
        plan.padded_width == 8 * blocks@[0],
        plan.padded_height == 8 * blocks@[1],
        64 * (plan.correlation_width - 1) < profile.width <= 64 * plan.correlation_width,
        64 * (plan.correlation_height - 1) < profile.height <= 64 * plan.correlation_height,
        plan.image.width == profile.width,
        plan.image.height == profile.height,
        plan.image.stride == plan.padded_width,
        plan.resident is Some <==> stages.groups > 0,
        plan.resident matches Some(planes) ==> {
            let shift = profile.channel_shifts@[c];
            &&& halved(planes@[c].width as int, shift.horizontal, plan.padded_width as int)
            &&& halved(planes@[c].height as int, shift.vertical, plan.padded_height as int)
            &&& planes@[c].stride == planes@[c].width
        },
        plan.sigma is Some <==> stages.epf_passes > 0,
        plan.sigma matches Some(plane) ==> plane.width == blocks@[0] && plane.height == blocks@[1]
            && plane.stride == blocks@[0],
        plan.upsample is Some <==> stages.upsampled,
        plan.upsample matches Some(plane) ==> plane.width == profile.output_width && plane.height
            == profile.output_height && plane.stride == profile.output_width,
        plan.noise is Some <==> stages.noise,
        plan.noise matches Some(plane) ==> {
            &&& plane.width == profile.output_width && plane.height == profile.output_height
            &&& plane.stride == if stages.upsampled {
                profile.output_width
            } else {
                plan.padded_width
            }
        },
        plan.lf is Some <==> profile.lf_level > 0,
        plan.lf matches Some(plane) ==> {
            &&& plane.width == profile.output_width && plane.height == profile.output_height
            &&& plane.stride >= plane.width
        },
{
    lemma_ceil_div(profile.width as int, 64);
    lemma_ceil_div(profile.height as int, 64);
    let shift = profile.channel_shifts[c];
    assert(shift == profile.channel_shifts@[c]);
    lemma_halved(plan.padded_width as int, shift.horizontal);
    lemma_halved(plan.padded_height as int, shift.vertical);
    if let Some(planes) = plan.resident {
        assert(planes[c] == resident_geometry(profile, blocks, c));
        assert(planes@[c] == planes[c]);
    }
}

/// The filters of a rendering: smoothing first, then the passes of the edge-preserving filter in
/// order. The first one reads the image, each other one what the one before it wrote, and none
/// reads what it writes. What is presented is the enlarged image where there is one, otherwise what
/// the last filter wrote, or the expanded or resident planes.
pub proof fn law_render_filters(
    profile: &StandardVarDctProfile,
    blocks: [u32; 2],
    stages: RenderStages,
    plan: RenderPlan,
    k: int,
)
    requires
        stages.epf_passes < usize::MAX,
        call_ensures(
            encode_frame_render,
            (profile, blocks, stages),
            Ok::<RenderPlan, VarDctDecodeError>(plan),
        ),
        0 <= k < plan.filters@.len(),
    ensures
        plan.filters@.len() == stages.epf_passes + if stages.gaborish { 1int } else { 0 },
        ({
            let filter = plan.filters@[k];
            let last = plan.filters@[plan.filters@.len() - 1];
            &&& filter.epf_pass is None <==> stages.gaborish && k == 0
            &&& filter.epf_pass matches Some(pass) ==> pass == k - if stages.gaborish {
                1int
            } else {
                0
            }
            &&& filter.input != filter.output
            &&& k == 0 ==> filter.input == PlaneSet::Image
            &&& k > 0 ==> filter.input == plan.filters@[k - 1].output
            &&& stages.upsampled ==> plan.presented == PresentedPlanes::Upsampled
            &&& !stages.upsampled && last.output == PlaneSet::Scratch ==> plan.presented
                == PresentedPlanes::Scratch
            &&& !stages.upsampled && last.output == PlaneSet::Image ==> plan.presented
                == if stages.pre_restoration {
                PresentedPlanes::PreRestoration
            } else {
                PresentedPlanes::Resident
            }
        }),
{
    let n = plan.filters@.len() as int;
    assert(plan.filters@[k] == filter_step(stages, k));
    assert(plan.filters@[n - 1] == filter_step(stages, n - 1));
    crate::vardct_engine::restoration::law_filters_alternate(k as nat);
    if k > 0 {
        assert(plan.filters@[k - 1] == filter_step(stages, k - 1));
    }
    assert(planes_after(0) == PlaneSet::Image);
    assert(plan.presented == presented_planes(stages));
}

/// Without a filter the expanded or resident planes are presented, or the enlarged image.
pub proof fn law_render_unfiltered(
    profile: &StandardVarDctProfile,
    blocks: [u32; 2],
    stages: RenderStages,
    plan: RenderPlan,
)
    requires
        stages.epf_passes == 0 && !stages.gaborish,
        call_ensures(
            encode_frame_render,
            (profile, blocks, stages),
            Ok::<RenderPlan, VarDctDecodeError>(plan),
        ),
    ensures
        plan.filters@.len() == 0,
        plan.presented == if stages.upsampled {
            PresentedPlanes::Upsampled
        } else if stages.pre_restoration {
            PresentedPlanes::PreRestoration
        } else {
            PresentedPlanes::Resident
        },
{
    assert(planes_after(0) == PlaneSet::Image);
}

/// Channels are presented at full size where something expanded them, and shifted as they are coded
/// otherwise; their planes are as large as the output at that shift. Alpha is kept apart by a
/// resident surface, and otherwise taken from normalized planes before decoded ones.
pub proof fn law_render_presentation(
    profile: &StandardVarDctProfile,
    blocks: [u32; 2],
    stages: RenderStages,
    plan: RenderPlan,
    c: int,
)
    requires
        stages.epf_passes < usize::MAX,
        call_ensures(
            encode_frame_render,
            (profile, blocks, stages),
            Ok::<RenderPlan, VarDctDecodeError>(plan),
        ),
        0 <= c < 3,
    ensures
        ({
            let full = stages.pre_restoration || stages.gaborish || stages.epf_passes > 0
                || stages.upsampled;
            let shift = plan.presentation_shifts@[c];
            let plane = plan.geometry@[c];
            &&& full ==> shift.horizontal == 0 && shift.vertical == 0
            &&& !full ==> shift == profile.channel_shifts@[c]
            &&& halved(plane.width as int, shift.horizontal, profile.output_width as int)
            &&& halved(plane.height as int, shift.vertical, profile.output_height as int)
            &&& plane.stride == (if stages.upsampled {
                profile.output_width
            } else {
                plan.padded_width
            }) >> shift.horizontal
        }),
        plan.alpha == AlphaSource::Absent <==> stages.surface || !stages.rendered_extra
            && stages.extra_planes == 0,
        plan.alpha == AlphaSource::Rendered <==> !stages.surface && stages.rendered_extra,
{
    assert(plan.presentation_shifts[c] == plan.presentation_shifts@[c]);
    assert(plan.geometry[c] == plan.geometry@[c]);
    assert(plan.geometry[c] == plane_geometry(profile, stages, plan.padded_width, c));
    let shift = plan.presentation_shifts[c];
    lemma_halved(profile.output_width as int, shift.horizontal);
    lemma_halved(profile.output_height as int, shift.vertical);
    if !expanded(stages) {
        assert(profile.channel_shifts[c] == profile.channel_shifts@[c]);
    }
}

/// Inverse transforms of every group: its own tuples, tasks, coefficients and quantizers in a frame
/// whose chroma-from-luma cells of sixty-four samples cover it.
pub proof fn law_group_renders(
    profile: &StandardVarDctProfile,
    groups: &Vec<PacketGroup>,
    plans: &Vec<GroupPlan>,
    resources: RenderResources,
    all: Vec<GroupRender>,
    i: int,
)
    requires
        plans@.len() == groups@.len(),
        call_ensures(plan_group_renders, (profile, groups, plans, resources), all),
        0 <= i < groups@.len(),
    ensures
        all@.len() == groups@.len(),
        ({
            let render = all@[i];
            let layout = plans@[i].artifact_layout;
            &&& render.indirect_base_offset == 4 * layout.indirect_offset_words
            &&& render.task_capacity == groups@[i].task_capacity
            &&& render.scratch_scalars == groups@[i].coefficient_words
            &&& render.task_word_offset == layout.tasks_offset_words
            &&& render.bucket_word_offset == layout.buckets_offset_words
            &&& render.quant_offset == plans@[i].quant_offset
            &&& render.resources == resources
            &&& 64 * (render.correlation_width - 1) < profile.width <= 64
                * render.correlation_width
            &&& 64 * (render.correlation_height - 1) < profile.height <= 64
                * render.correlation_height
        }),
{
    lemma_ceil_div(profile.width as int, 64);
    lemma_ceil_div(profile.height as int, 64);
    assert(all@[i] == all@[i]);
}

/// A scalar output reads the selected plane of its own channel and precision, normalized where it
/// was normalized.
pub proof fn law_scalar_source(
    extra: Option<ExtraPlane>,
    index: u32,
    encoding: SampleBitDepth,
    rendered: bool,
    r: Result<ScalarSource, VarDctDecodeError>,
)
    requires
        call_ensures(plan_scalar, (extra, index, encoding, rendered), r),
    ensures
        r is Ok <==> (extra matches Some(plane) && plane.index == index && plane.encoding
            == encoding),
        r matches Ok(source) ==> (source == ScalarSource::Rendered <==> rendered),
{
}

/// A surface keeps every normalized plane whole, four bytes a sample, from its own words to its own
/// place.
pub proof fn law_surface_copies(
    offsets: &Vec<u64>,
    planes: Option<&Vec<RenderedPlane>>,
    storage: bool,
    copies: Vec<SurfaceCopy>,
    i: int,
)
    requires
        planes_view(planes) matches Some(planes) ==> forall|i: int|
            0 <= i < planes.len() ==> (#[trigger] planes[i]).width * planes[i].height * 4
                <= u64::MAX,
        call_ensures(
            plan_surface,
            (offsets, planes, storage),
            Ok::<Vec<SurfaceCopy>, VarDctDecodeError>(copies),
        ),
        0 <= i < offsets@.len(),
    ensures
        storage && planes is Some && planes->0@.len() == offsets@.len(),
        copies@.len() == offsets@.len(),
        ({
            let plane = planes->0@[i];
            &&& copies@[i].source_offset == 4 * plane.word_offset
            &&& copies@[i].offset == offsets@[i]
            &&& copies@[i].bytes == 4 * (plane.width * plane.height)
        }),
{
    let plane = planes->0@[i];
    assert(copies@[i] == copies@[i]);
    assert(0 <= plane.width * plane.height) by (nonlinear_arith);
    assert(planes_view(planes)->0[i] == plane);
}

/// Expansions run in front of restoration, one for each subsampled channel in channel order, from
/// the channel's own extent of the frame, in the directions in which it is halved.
pub proof fn law_render_expansions(
    profile: &StandardVarDctProfile,
    blocks: [u32; 2],
    stages: RenderStages,
    plan: RenderPlan,
)
    requires
        stages.epf_passes < usize::MAX,
        call_ensures(
            encode_frame_render,
            (profile, blocks, stages),
            Ok::<RenderPlan, VarDctDecodeError>(plan),
        ),
    ensures
        !stages.pre_restoration ==> plan.chroma@.len() == 0,
        stages.pre_restoration ==> forall|c: int|
            0 <= c < 3 ==> ((exists|i: int|
                0 <= i < plan.chroma@.len() && (#[trigger] plan.chroma@[i]).channel == c) <==> (
            (#[trigger] profile.channel_shifts@[c]).horizontal > 0
                || profile.channel_shifts@[c].vertical > 0)),
        forall|i: int, j: int|
            0 <= i < j < plan.chroma@.len() ==> (#[trigger] plan.chroma@[i]).channel < (
            #[trigger] plan.chroma@[j]).channel < 3,
        forall|i: int|
            0 <= i < plan.chroma@.len() ==> {
                let step = #[trigger] plan.chroma@[i];
                let shift = profile.channel_shifts@[step.channel as int];
                &&& step.channel < 3
                &&& halved(step.input_width as int, shift.horizontal, profile.width as int)
                &&& halved(step.input_height as int, shift.vertical, profile.height as int)
                &&& step.input_stride == plan.padded_width >> shift.horizontal
                &&& step.horizontal <==> shift.horizontal > 0
                &&& step.vertical <==> shift.vertical > 0
            },
{
    if stages.pre_restoration {
        lemma_expansions(profile, plan.padded_width, 3);
    }
}

/// The expansions of the first channels.
proof fn lemma_expansions(profile: &StandardVarDctProfile, padded_width: u32, n: int)
    requires
        0 <= n <= 3,
    ensures
        ({
            let steps = chroma_steps(profile, padded_width, n);
            &&& forall|c: int|
                0 <= c < n ==> ((exists|i: int|
                    0 <= i < steps.len() && (#[trigger] steps[i]).channel == c) <==> ((
                #[trigger] profile.channel_shifts@[c]).horizontal > 0
                    || profile.channel_shifts@[c].vertical > 0))
            &&& forall|i: int, j: int|
                0 <= i < j < steps.len() ==> (#[trigger] steps[i]).channel < (
                #[trigger] steps[j]).channel
            &&& forall|i: int|
                0 <= i < steps.len() ==> {
                    let step = #[trigger] steps[i];
                    let shift = profile.channel_shifts@[step.channel as int];
                    &&& step.channel < n
                    &&& step == chroma_step(profile, padded_width, step.channel as int)
                    &&& shift.horizontal < 32 && shift.vertical < 32 ==> {
                        &&& halved(step.input_width as int, shift.horizontal, profile.width as int)
                        &&& halved(step.input_height as int, shift.vertical, profile.height as int)
                    }
                    &&& step.input_stride == padded_width >> shift.horizontal
                    &&& step.horizontal <==> shift.horizontal > 0
                    &&& step.vertical <==> shift.vertical > 0
                }
        }),
    decreases n,
{
    if n > 0 {
        lemma_expansions(profile, padded_width, n - 1);
        let front = chroma_steps(profile, padded_width, n - 1);
        let steps = chroma_steps(profile, padded_width, n);
        let shift = profile.channel_shifts[n - 1];
        assert(shift == profile.channel_shifts@[n - 1]);
        lemma_halved(profile.width as int, shift.horizontal);
        lemma_halved(profile.height as int, shift.vertical);
        if shift.subsampled() {
            let last = front.len() as int;
            assert(steps[last].channel == n - 1);
            assert forall|c: int| 0 <= c < n implies ((exists|i: int|
                0 <= i < steps.len() && (#[trigger] steps[i]).channel == c) <==> ((
            #[trigger] profile.channel_shifts@[c]).horizontal > 0
                || profile.channel_shifts@[c].vertical > 0)) by {
                if c < n - 1 {
                    if exists|i: int| 0 <= i < front.len() && (#[trigger] front[i]).channel == c {
                        let i = choose|i: int|
                            0 <= i < front.len() && (#[trigger] front[i]).channel == c;
                        assert(steps[i].channel == c);
                    }
                    if exists|i: int| 0 <= i < steps.len() && (#[trigger] steps[i]).channel == c {
                        let i = choose|i: int|
                            0 <= i < steps.len() && (#[trigger] steps[i]).channel == c;
                        assert(front[i].channel == c);
                    }
                }
            }
        } else {
            assert forall|c: int| 0 <= c < n implies ((exists|i: int|
                0 <= i < steps.len() && (#[trigger] steps[i]).channel == c) <==> ((
            #[trigger] profile.channel_shifts@[c]).horizontal > 0
                || profile.channel_shifts@[c].vertical > 0)) by {
                if c == n - 1 {
                    assert(forall|i: int|
                        0 <= i < steps.len() ==> (#[trigger] steps[i]).channel < n - 1);
                }
            }
        }
    }
}

} // verus!
