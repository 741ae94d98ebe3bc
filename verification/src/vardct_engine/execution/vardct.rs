//! The complete plan of a frame's first submission.

use crate::vardct_engine::execution::coefficients::{
    check_hf_windows, prepare_refusal, whole_range_dispatches, whole_range_refusal, HfWindowFacts,
    WholeRangeGroup,
};
use crate::vardct_engine::execution::extra::{
    arena_made, arena_refusal, prepare_frame_arena, ArenaPlan, FrameArena,
};
use crate::vardct_engine::execution::packet::{check_packet_windows, windows_refusal};
use crate::vardct_engine::execution::render::{
    group_render, plan_group_renders, encode_frame_render, plan_scalar, plan_surface, planes_view,
    render_refusal, renders, surface_copy, surface_refusal, ExtraPlane, GroupRender, RenderPlan, RenderResources,
    RenderStages, RenderedPlane, ScalarSource, SurfaceCopy,
};
use crate::vardct_engine::execution::stage::{
    launch, mapping_label, mapping_name, plan_launch, Launch,
};
use crate::vardct_engine::execution::submit::{
    buffers_of, decoder_bytes, expect_groups, group_buffers_refusal, hf_or_none, lf_route,
    packet_route, plan_group_buffers, plan_lf_route, plan_packet_route, plan_planes, plan_staging,
    plan_status, planes_match, staging_of, status_copy, status_refusal, validation_of,
    validations_refusal, GroupBuffers, ImageStages, LfRoute, PacketRoute, PacketWindows,
    PlaneBuffers, Staging, StatusCopy, VarDctGroupValidation,
};
use crate::vardct_engine::execution::upload::{chunk_start, plan_upload, upload_refusal};
use crate::vardct_engine::execution::validate::{
    map_extra_error, plan_streams, stream_validation, streams_refusal, HfValidation,
};
use crate::profile::BitRange;
use crate::vardct_engine::source::{
    hf_view, GroupPlan, HfGroupBytes, Packet, VarDctDecodeMemoryStats,
};
use crate::vardct_engine::types::VarDctDecodeError;
use crate::vardct_frontend::{SampleBitDepth, StandardVarDctProfile};
use vstd::prelude::*;

verus! {

/// Modular entropy of one group's packet.
#[derive(Clone, Copy, Debug, PartialEq, Eq, Structural)]
pub struct ModularEntropy {
    pub lz77_window_words: u32,
    pub self_correcting: bool,
}

/// Batches and groups of a windowed packet plan.
#[derive(Clone, Copy, Debug, PartialEq, Eq, Structural)]
pub struct PacketWindowPlan {
    pub batches: usize,
    pub groups: usize,
    /// One dispatch decodes LF and HF parts of a packet.
    pub fuses_stages: bool,
    /// Batches that read HF parts alone.
    pub hf_batches: usize,
}

/// What a frame is made of before anything is recorded.
pub struct FrameInputs<'a> {
    pub packet: &'a Packet,
    pub profile: &'a StandardVarDctProfile,
    /// Blocks of the frame.
    pub blocks: [u32; 2],
    pub plans: &'a Vec<GroupPlan>,
    pub memory: &'a VarDctDecodeMemoryStats,
    /// Chunks of the codestream and their sum.
    pub chunks: &'a Vec<usize>,
    pub logical_bytes: u64,
    /// The arena of extra channels, and whether it was admitted.
    pub arena: Option<ArenaPlan>,
    pub arena_admitted: bool,
    pub extra_indices: &'a Vec<usize>,
    /// Whether the precision of each declared extra channel is supported.
    pub extra_declared: &'a Vec<bool>,
    pub windows: Option<PacketWindowPlan>,
    /// Modular entropy of each group's own tree, where it has one.
    pub local_modular: &'a Vec<Option<ModularEntropy>>,
    /// Modular entropy of each group under the frame's tree.
    pub global_modular: &'a Vec<ModularEntropy>,
    /// Coefficient decoders of a known plan, and those that were admitted for a later one.
    pub hf: Option<&'a Vec<HfGroupBytes>>,
    pub deferred_hf: Option<&'a Vec<HfGroupBytes>>,
    /// Bytes of one packet status.
    pub packet_status: u64,
}

/// The Modular metadata buffers of the first `n` groups.
pub open spec fn local_buffers(modular: Seq<Option<ModularEntropy>>, n: int) -> int
    decreases n,
{
    if n <= 0 {
        0
    } else {
        local_buffers(modular, n - 1) + if modular[n - 1] is Some {
            1int
        } else {
            0
        }
    }
}

/// The windows of a frame's packets.
pub open spec fn packet_windows(windows: Option<PacketWindowPlan>) -> PacketWindows {
    match windows {
        Some(plan) => PacketWindows {
            windowed: true,
            fuses_stages: plan.fuses_stages,
            hf_batches: plan.hf_batches,
        },
        None => PacketWindows { windowed: false, fuses_stages: false, hf_batches: 0 },
    }
}

/// Why the packets of a frame cannot be recorded: windows without dispatches or control records,
/// or groups without Modular metadata of their own.
pub open spec fn packets_refusal(
    staging: Staging,
    windows: Option<PacketWindowPlan>,
    groups: int,
    buffers: int,
) -> Option<VarDctDecodeError> {
    if staging.lf_extras {
        None
    } else {
        match windows {
            Some(plan) => windows_refusal(plan.batches as int, plan.groups, groups as usize),
            None => if staging.group_metadata && buffers < groups {
                Some(
                    VarDctDecodeError::GroupPlanCount {
                        component: "LF-local Modular metadata",
                        expected: groups as usize,
                        actual: buffers as usize,
                    },
                )
            } else {
                None
            },
        }
    }
}

/// A broken promise of the extra channels, as a failure of them.
pub open spec fn as_extra(refusal: Option<VarDctDecodeError>) -> Option<VarDctDecodeError> {
    match refusal {
        Some(VarDctDecodeError::EngineContract { detail }) => Some(
            VarDctDecodeError::ModularExtra { detail },
        ),
        other => other,
    }
}

/// Why a frame's inputs are refused, in the order in which they are taken.
pub open spec fn inputs_refusal(inputs: FrameInputs<'_>) -> Option<VarDctDecodeError> {
    let n = inputs.packet.groups@.len() as int;
    let staging = staging_of(inputs.packet, packet_windows(inputs.windows));
    let upload = upload_refusal(
        inputs.chunks@,
        inputs.logical_bytes,
        inputs.memory.codestream_bytes,
    );
    let arena = as_extra(
        arena_refusal(
            inputs.arena,
            inputs.arena_admitted,
            inputs.extra_indices@,
            inputs.extra_declared@,
        ),
    );
    let groups = group_buffers_refusal(
        inputs.packet,
        inputs.plans@.len() as int,
        hf_view(inputs.hf),
        hf_view(inputs.deferred_hf),
    );
    if upload is Some {
        upload
    } else if arena is Some {
        arena
    } else if groups is Some {
        groups
    } else {
        packets_refusal(staging, inputs.windows, n, local_buffers(inputs.local_modular@, n))
    }
}

/// The Modular entropy that a group's packet is decoded with.
pub open spec fn packet_entropy(inputs: FrameInputs<'_>, i: int) -> ModularEntropy {
    if staging_of(inputs.packet, packet_windows(inputs.windows)).group_metadata {
        match inputs.local_modular@[i] {
            Some(entropy) => entropy,
            None => ModularEntropy { lz77_window_words: 0, self_correcting: false },
        }
    } else {
        ModularEntropy {
            lz77_window_words: inputs.global_modular@[i].lz77_window_words,
            self_correcting: inputs.packet.needs_self_correcting,
        }
    }
}

/// What accepted inputs are recorded with.
#[derive(Debug)]
pub struct FrameBuffers {
    /// Where each chunk of the codestream starts.
    pub upload: Vec<u64>,
    pub arena: Option<FrameArena>,
    pub staging: Staging,
    pub route: PacketRoute,
    pub groups: Vec<GroupBuffers>,
    pub entropy: Vec<ModularEntropy>,
}

/// What accepted inputs are recorded with.
pub open spec fn buffered(buffers: FrameBuffers, inputs: FrameInputs<'_>) -> bool {
    let n = inputs.packet.groups@.len() as int;
    let windows = packet_windows(inputs.windows);
    &&& buffers.upload@.len() == inputs.chunks@.len()
    &&& forall|i: int|
        0 <= i < buffers.upload@.len() ==> #[trigger] buffers.upload@[i] == chunk_start(
            inputs.chunks@,
            i,
        )
    &&& arena_made(buffers.arena, inputs.arena, inputs.extra_indices@)
    &&& buffers.staging == staging_of(inputs.packet, windows)
    &&& buffers.route == packet_route(inputs.packet, buffers.staging, windows.windowed)
    &&& buffers.groups@.len() == n
    &&& forall|i: int|
        0 <= i < n ==> #[trigger] buffers.groups@[i] == buffers_of(
            inputs.packet.groups@[i],
            inputs.plans@[i].artifact_layout,
            decoder_bytes(hf_view(inputs.hf), hf_view(inputs.deferred_hf), i),
            inputs.packet_status,
        )
    &&& buffers.entropy@.len() == n
    &&& forall|i: int|
        0 <= i < n ==> #[trigger] buffers.entropy@[i] == packet_entropy(inputs, i)
}

/// Counts the Modular metadata buffers of the groups.
fn count_local(modular: &Vec<Option<ModularEntropy>>) -> (n: usize)
    ensures
        n == local_buffers(modular@, modular@.len() as int),
{
    let mut n: usize = 0;
    let mut i: usize = 0;
    while i < modular.len()
        invariant
            i <= modular@.len(),
            n == local_buffers(modular@, i as int),
            n <= i,
        decreases modular@.len() - i,
    {
        if modular[i].is_some() {
            n = n + 1;
        }
        i = i + 1;
    }
    n
}

/// The Modular entropy of every group's packet.
fn collect_entropy(inputs: &FrameInputs<'_>, staging: Staging) -> (entropy: Vec<ModularEntropy>)
    requires
        staging == staging_of(inputs.packet, packet_windows(inputs.windows)),
        inputs.local_modular@.len() == inputs.packet.groups@.len(),
        inputs.global_modular@.len() == inputs.packet.groups@.len(),
    ensures
        entropy@.len() == inputs.packet.groups@.len(),
        forall|i: int|
            0 <= i < entropy@.len() ==> #[trigger] entropy@[i] == packet_entropy(*inputs, i),
{
    let mut entropy: Vec<ModularEntropy> = Vec::new();
    let n: usize = inputs.packet.groups.len();
    let mut i: usize = 0;
    while i < n
        invariant
            staging == staging_of(inputs.packet, packet_windows(inputs.windows)),
            n == inputs.packet.groups@.len(),
            inputs.local_modular@.len() == n,
            inputs.global_modular@.len() == n,
            i <= n,
            entropy@.len() == i,
            forall|k: int|
                0 <= k < i ==> #[trigger] entropy@[k] == packet_entropy(*inputs, k),
        decreases n - i,
    {
        let one = if staging.group_metadata {
            match inputs.local_modular[i] {
                Some(entropy) => entropy,
                None => ModularEntropy { lz77_window_words: 0, self_correcting: false },
            }
        } else {
            ModularEntropy {
                lz77_window_words: inputs.global_modular[i].lz77_window_words,
                self_correcting: inputs.packet.needs_self_correcting,
            }
        };
        entropy.push(one);
        i = i + 1;
    }
    entropy
}

/// Checks whether the packets of a frame can be recorded.
fn check_packets(
    staging: Staging,
    windows: Option<PacketWindowPlan>,
    groups: usize,
    buffers: usize,
) -> (r: Result<(), VarDctDecodeError>)
    ensures
        match packets_refusal(staging, windows, groups as int, buffers as int) {
            Some(error) => r == Err::<(), VarDctDecodeError>(error),
            None => r is Ok,
        },
{
    if staging.lf_extras {
        return Ok(());
    }
    match windows {
        Some(plan) => check_packet_windows(plan.batches, plan.groups, groups),
        None => {
            if staging.group_metadata && buffers < groups {
                return Err(
                    VarDctDecodeError::GroupPlanCount {
                        component: "LF-local Modular metadata",
                        expected: groups,
                        actual: buffers,
                    },
                );
            }
            Ok(())
        },
    }
}

/// Takes the inputs of a frame.
pub fn take_inputs(inputs: &FrameInputs<'_>) -> (r: Result<FrameBuffers, VarDctDecodeError>)
    requires
        inputs.local_modular@.len() == inputs.packet.groups@.len(),
        inputs.global_modular@.len() == inputs.packet.groups@.len(),
    ensures
        match inputs_refusal(*inputs) {
            Some(error) => r == Err::<FrameBuffers, VarDctDecodeError>(error),
            None => r matches Ok(buffers) && buffered(buffers, *inputs),
        },
{
    let windows = match inputs.windows {
        Some(plan) => PacketWindows {
            windowed: true,
            fuses_stages: plan.fuses_stages,
            hf_batches: plan.hf_batches,
        },
        None => PacketWindows { windowed: false, fuses_stages: false, hf_batches: 0 },
    };
    let upload = match plan_upload(
        inputs.chunks,
        inputs.logical_bytes,
        inputs.memory.codestream_bytes,
    ) {
        Ok(upload) => upload,
        Err(error) => {
            return Err(error);
        },
    };
    let arena = match prepare_frame_arena(
        inputs.arena,
        inputs.arena_admitted,
        inputs.extra_indices,
        inputs.extra_declared,
    ) {
        Ok(arena) => arena,
        Err(VarDctDecodeError::EngineContract { detail }) => {
            return Err(map_extra_error(detail));
        },
        Err(error) => {
            return Err(error);
        },
    };
    let groups = match plan_group_buffers(
        inputs.packet,
        inputs.plans,
        inputs.hf,
        inputs.deferred_hf,
        inputs.packet_status,
    ) {
        Ok(groups) => groups,
        Err(error) => {
            return Err(error);
        },
    };
    let staging = plan_staging(inputs.packet, windows);
    let buffers: usize = count_local(inputs.local_modular);
    match check_packets(staging, inputs.windows, inputs.packet.groups.len(), buffers) {
        Ok(_) => {},
        Err(error) => {
            return Err(error);
        },
    }
    let route = plan_packet_route(inputs.packet, staging, windows.windowed);
    let entropy = collect_entropy(inputs, staging);
    Ok(FrameBuffers { upload, arena, staging, route, groups, entropy })
}

/// How coefficients are decoded.
pub enum CoefficientSetup<'a> {
    /// A later plan decides.
    Later,
    /// By one dispatch for each group.
    Whole { groups: &'a Vec<WholeRangeGroup> },
    /// Through bounded stream windows.
    Windowed { facts: HfWindowFacts },
}

/// What a frame presents.
#[derive(Clone, Copy, Debug, PartialEq, Eq, Structural)]
pub enum OutputSetup {
    Color { stages: RenderStages },
    Extra { index: u32, encoding: SampleBitDepth, status_bytes: u64 },
}

/// What a frame is rendered with.
pub struct FrameStages<'a> {
    /// An earlier LF frame was handed over.
    pub external_lf: bool,
    /// LF samples are smoothed.
    pub smoothing: bool,
    /// Groups whose inverse sigmas are generated, where the edge-preserving filter runs.
    pub epf_sigma_groups: Option<usize>,
    pub resources: RenderResources,
    pub coefficients: CoefficientSetup<'a>,
    /// Decoded extra planes that are kept.
    pub extra_planes: &'a Vec<ExtraPlane>,
    /// Extra planes that are rendered at full size, where any are.
    pub rendered: Option<&'a Vec<RenderedPlane>>,
    pub output: OutputSetup,
    /// Places of the extra planes in a resident surface, where there is one.
    pub surface: Option<&'a Vec<u64>>,
}

/// Why coefficients cannot be decoded.
pub open spec fn coefficients_refusal(setup: CoefficientSetup<'_>) -> Option<VarDctDecodeError> {
    match setup {
        CoefficientSetup::Later => None,
        CoefficientSetup::Whole { groups } => whole_range_refusal(groups@, 0),
        CoefficientSetup::Windowed { facts } => prepare_refusal(facts),
    }
}

/// The stages of a colour image, with the extra planes that are there.
pub open spec fn color_stages(
    stages: FrameStages<'_>,
    color: RenderStages,
    groups: usize,
) -> RenderStages {
    RenderStages {
        rendered_extra: stages.rendered is Some,
        extra_planes: stages.extra_planes@.len() as usize,
        surface: stages.surface is Some,
        groups,
        ..color
    }
}

/// The extra plane that a scalar output shows.
pub open spec fn scalar_outcome(
    extra: Seq<ExtraPlane>,
    index: u32,
    encoding: SampleBitDepth,
    rendered: bool,
) -> Result<ScalarSource, VarDctDecodeError> {
    if extra.len() == 0 {
        Err(
            VarDctDecodeError::EntropyWindowContract {
                detail: "scalar output lacks its selected resident extra plane",
            },
        )
    } else if extra[0].encoding != encoding || extra[0].index != index {
        Err(
            VarDctDecodeError::EntropyWindowContract {
                detail: "scalar output precision differs from the selected extra plane",
            },
        )
    } else if rendered {
        Ok(ScalarSource::Rendered)
    } else {
        Ok(ScalarSource::Decoded)
    }
}

/// Why the output of a frame cannot be recorded.
pub open spec fn output_refusal(
    profile: &StandardVarDctProfile,
    blocks: [u32; 2],
    stages: FrameStages<'_>,
    groups: usize,
) -> Option<VarDctDecodeError> {
    match stages.output {
        OutputSetup::Color { stages: color } => render_refusal(
            profile,
            blocks,
            color_stages(stages, color, groups),
        ),
        OutputSetup::Extra { index, encoding, .. } => match scalar_outcome(
            stages.extra_planes@,
            index,
            encoding,
            stages.rendered is Some,
        ) {
            Err(error) => Some(error),
            Ok(_) => None,
        },
    }
}

/// Why extra planes cannot be kept in a resident surface.
pub open spec fn kept_refusal(stages: FrameStages<'_>) -> Option<VarDctDecodeError> {
    match stages.surface {
        Some(offsets) => surface_refusal(
            offsets@.len() as int,
            planes_view(stages.rendered),
            stages.rendered is Some,
        ),
        None => None,
    }
}

/// Why the stages of a frame are refused, in the order in which they are recorded.
pub open spec fn stages_refusal(
    packet: &Packet,
    profile: &StandardVarDctProfile,
    blocks: [u32; 2],
    memory: VarDctDecodeMemoryStats,
    stages: FrameStages<'_>,
) -> Option<VarDctDecodeError> {
    let n = packet.groups@.len() as int;
    let lf = lf_route(
        packet,
        stages.external_lf,
        stages.smoothing,
        memory.lf_temporary_bytes != 0,
        n,
    );
    if lf is Err {
        Some(lf->Err_0)
    } else if stages.epf_sigma_groups matches Some(sigmas) && sigmas != n {
        Some(
            VarDctDecodeError::GroupPlanCount {
                component: "EPF sigma",
                expected: n as usize,
                actual: stages.epf_sigma_groups->0,
            },
        )
    } else if coefficients_refusal(stages.coefficients) is Some {
        coefficients_refusal(stages.coefficients)
    } else if blocks[0] * 8 > u32::MAX {
        Some(VarDctDecodeError::ArithmeticOverflow { field: "padded output width" })
    } else if stages.rendered is Some && stages.extra_planes@.len() == 0 {
        Some(
            VarDctDecodeError::EntropyWindowContract {
                detail: "resampled output lacks its extra plane",
            },
        )
    } else if output_refusal(profile, blocks, stages, n as usize) is Some {
        output_refusal(profile, blocks, stages, n as usize)
    } else {
        kept_refusal(stages)
    }
}

/// What accepted stages are recorded with.
#[derive(Debug)]
pub struct FrameRecording {
    pub lf_route: LfRoute,
    /// Dispatches of each group's coefficients, where one decodes them all.
    pub dispatches: Option<Vec<u32>>,
    pub planes: PlaneBuffers,
    pub render: Option<RenderPlan>,
    /// Inverse transforms of each group of a colour image.
    pub groups: Vec<GroupRender>,
    pub scalar: Option<ScalarSource>,
    pub surface: Vec<SurfaceCopy>,
}

/// Which image stages have planes of their own.
pub open spec fn image_stages(stages: FrameStages<'_>) -> ImageStages {
    ImageStages {
        image: stages.output is Color,
        gaborish: stages.output matches OutputSetup::Color { stages } && stages.gaborish,
        epf: stages.epf_sigma_groups is Some,
        upsampled: stages.output matches OutputSetup::Color { stages } && stages.upsampled,
    }
}

/// What accepted stages are recorded with.
pub open spec fn recorded(
    recording: FrameRecording,
    packet: &Packet,
    profile: &StandardVarDctProfile,
    plans: Seq<GroupPlan>,
    blocks: [u32; 2],
    memory: VarDctDecodeMemoryStats,
    stages: FrameStages<'_>,
) -> bool {
    &&& lf_route(
        packet,
        stages.external_lf,
        stages.smoothing,
        memory.lf_temporary_bytes != 0,
        packet.groups@.len() as int,
    ) == Ok::<LfRoute, VarDctDecodeError>(recording.lf_route)
    &&& match stages.coefficients {
        CoefficientSetup::Whole { groups } => recording.dispatches matches Some(dispatches)
            && dispatches@.len() == groups@.len() && forall|i: int|
            0 <= i < groups@.len() ==> #[trigger] dispatches@[i] == groups@[i].streams,
        _ => recording.dispatches is None,
    }
    &&& planes_match(recording.planes, packet.channel_shifts, memory, image_stages(stages))
    &&& match stages.output {
        OutputSetup::Color { stages: color } => {
            &&& recording.render matches Some(render) && renders(
                render,
                profile,
                blocks,
                color_stages(stages, color, packet.groups@.len() as usize),
            )
            &&& recording.scalar is None
            &&& recording.groups@.len() == packet.groups@.len()
            &&& forall|i: int|
                0 <= i < recording.groups@.len() ==> #[trigger] recording.groups@[i]
                    == group_render(
                    profile,
                    packet.groups@[i],
                    plans[i],
                    stages.resources,
                )
        },
        OutputSetup::Extra { index, encoding, .. } => {
            &&& recording.render is None
            &&& recording.groups@.len() == 0
            &&& recording.scalar matches Some(scalar) && scalar_outcome(
                stages.extra_planes@,
                index,
                encoding,
                stages.rendered is Some,
            ) == Ok::<ScalarSource, VarDctDecodeError>(scalar)
        },
    }
    &&& match stages.surface {
        Some(offsets) => recording.surface@.len() == offsets@.len() && forall|i: int|
            0 <= i < offsets@.len() ==> #[trigger] recording.surface@[i] == surface_copy(
                planes_view(stages.rendered)->0[i],
                offsets@[i],
            ),
        None => recording.surface@.len() == 0,
    }
}

/// The filters of a colour image can be counted.
pub open spec fn passes_counted(output: OutputSetup) -> bool {
    match output {
        OutputSetup::Color { stages } => stages.epf_passes < usize::MAX,
        OutputSetup::Extra { .. } => true,
    }
}

/// Rendered planes can be copied.
pub open spec fn rendered_fit(stages: FrameStages<'_>) -> bool {
    planes_view(stages.rendered) matches Some(planes) ==> forall|i: int|
        0 <= i < planes.len() ==> (#[trigger] planes[i]).width * planes[i].height * 4 <= u64::MAX
}

/// Decides how coefficients are decoded.
fn take_coefficients(setup: &CoefficientSetup<'_>) -> (r: Result<
    Option<Vec<u32>>,
    VarDctDecodeError,
>)
    ensures
        match coefficients_refusal(*setup) {
            Some(error) => r == Err::<Option<Vec<u32>>, VarDctDecodeError>(error),
            None => r matches Ok(found) && match *setup {
                CoefficientSetup::Whole { groups } => found matches Some(dispatches)
                    && dispatches@.len() == groups@.len() && forall|i: int|
                    0 <= i < groups@.len() ==> #[trigger] dispatches@[i] == groups@[i].streams,
                _ => found is None,
            },
        },
{
    match setup {
        CoefficientSetup::Later => Ok(None),
        CoefficientSetup::Whole { groups } => match whole_range_dispatches(groups) {
            Ok(dispatches) => Ok(Some(dispatches)),
            Err(error) => Err(error),
        },
        CoefficientSetup::Windowed { facts } => match check_hf_windows(*facts) {
            Ok(_) => Ok(None),
            Err(error) => Err(error),
        },
    }
}

/// Decides what a frame shows.
fn take_output(
    profile: &StandardVarDctProfile,
    blocks: [u32; 2],
    stages: &FrameStages<'_>,
    groups: usize,
) -> (r: Result<(Option<RenderPlan>, Option<ScalarSource>), VarDctDecodeError>)
    requires
        passes_counted(stages.output),
    ensures
        match output_refusal(profile, blocks, *stages, groups) {
            Some(error) => r == Err::<
                (Option<RenderPlan>, Option<ScalarSource>),
                VarDctDecodeError,
            >(error),
            None => r matches Ok((render, scalar)) && match stages.output {
                OutputSetup::Color { stages: color } => {
                    &&& render matches Some(render) && renders(
                        render,
                        profile,
                        blocks,
                        color_stages(*stages, color, groups),
                    )
                    &&& scalar is None
                },
                OutputSetup::Extra { index, encoding, .. } => {
                    &&& render is None
                    &&& scalar matches Some(scalar) && scalar_outcome(
                        stages.extra_planes@,
                        index,
                        encoding,
                        stages.rendered is Some,
                    ) == Ok::<ScalarSource, VarDctDecodeError>(scalar)
                },
            },
        },
{
    match stages.output {
        OutputSetup::Color { stages: color } => {
            let full = RenderStages {
                resident_planes: color.resident_planes,
                pre_restoration: color.pre_restoration,
                gaborish: color.gaborish,
                epf_passes: color.epf_passes,
                upsampled: color.upsampled,
                noise: color.noise,
                surface: stages.surface.is_some(),
                rendered_extra: stages.rendered.is_some(),
                extra_planes: stages.extra_planes.len(),
                groups,
            };
            assert(full == color_stages(*stages, color, groups));
            match encode_frame_render(profile, blocks, full) {
                Ok(render) => Ok((Some(render), None)),
                Err(error) => Err(error),
            }
        },
        OutputSetup::Extra { index, encoding, .. } => {
            let first: Option<ExtraPlane> = if stages.extra_planes.len() == 0 {
                None
            } else {
                Some(stages.extra_planes[0])
            };
            match plan_scalar(first, index, encoding, stages.rendered.is_some()) {
                Ok(scalar) => Ok((None, Some(scalar))),
                Err(error) => Err(error),
            }
        },
    }
}

/// The copies into a resident surface.
fn take_surface(stages: &FrameStages<'_>) -> (r: Result<Vec<SurfaceCopy>, VarDctDecodeError>)
    requires
        rendered_fit(*stages),
    ensures
        match kept_refusal(*stages) {
            Some(error) => r == Err::<Vec<SurfaceCopy>, VarDctDecodeError>(error),
            None => r matches Ok(copies) && match stages.surface {
                Some(offsets) => copies@.len() == offsets@.len() && forall|i: int|
                    0 <= i < offsets@.len() ==> #[trigger] copies@[i] == surface_copy(
                        planes_view(stages.rendered)->0[i],
                        offsets@[i],
                    ),
                None => copies@.len() == 0,
            },
        },
{
    match stages.surface {
        Some(offsets) => plan_surface(offsets, stages.rendered, stages.rendered.is_some()),
        None => Ok(Vec::new()),
    }
}

/// Records the stages of a frame.
pub fn record_stages(
    packet: &Packet,
    profile: &StandardVarDctProfile,
    plans: &Vec<GroupPlan>,
    blocks: [u32; 2],
    memory: &VarDctDecodeMemoryStats,
    stages: &FrameStages<'_>,
) -> (r: Result<FrameRecording, VarDctDecodeError>)
    requires
        plans@.len() == packet.groups@.len(),
        passes_counted(stages.output),
        rendered_fit(*stages),
    ensures
        match stages_refusal(packet, profile, blocks, *memory, *stages) {
            Some(error) => r == Err::<FrameRecording, VarDctDecodeError>(error),
            None => r matches Ok(recording) && recorded(
                recording,
                packet,
                profile,
                plans@,
                blocks,
                *memory,
                *stages,
            ),
        },
{
    let n: usize = packet.groups.len();
    let lf = match plan_lf_route(
        packet,
        stages.external_lf,
        stages.smoothing,
        memory.lf_temporary_bytes != 0,
        n,
    ) {
        Ok(route) => route,
        Err(error) => {
            return Err(error);
        },
    };
    match stages.epf_sigma_groups {
        Some(sigmas) => {
            if sigmas != n {
                return Err(
                    VarDctDecodeError::GroupPlanCount {
                        component: "EPF sigma",
                        expected: n,
                        actual: sigmas,
                    },
                );
            }
        },
        None => {},
    }
    let dispatches = match take_coefficients(&stages.coefficients) {
        Ok(dispatches) => dispatches,
        Err(error) => {
            return Err(error);
        },
    };
    if blocks[0] > u32::MAX / 8 {
        return Err(VarDctDecodeError::ArithmeticOverflow { field: "padded output width" });
    }
    if stages.rendered.is_some() && stages.extra_planes.len() == 0 {
        return Err(
            VarDctDecodeError::EntropyWindowContract {
                detail: "resampled output lacks its extra plane",
            },
        );
    }
    let (render, scalar) = match take_output(profile, blocks, stages, n) {
        Ok(output) => output,
        Err(error) => {
            return Err(error);
        },
    };
    let surface = match take_surface(stages) {
        Ok(surface) => surface,
        Err(error) => {
            return Err(error);
        },
    };
    let (image, gaborish, upsampled) = match stages.output {
        OutputSetup::Color { stages: color } => (true, color.gaborish, color.upsampled),
        OutputSetup::Extra { .. } => (false, false, false),
    };
    let groups = if image {
        plan_group_renders(profile, &packet.groups, plans, stages.resources)
    } else {
        Vec::new()
    };
    let shape = ImageStages {
        image,
        gaborish,
        epf: stages.epf_sigma_groups.is_some(),
        upsampled,
    };
    assert(shape == image_stages(*stages));
    let planes = plan_planes(&packet.channel_shifts, memory, shape);
    Ok(FrameRecording { lf_route: lf, dispatches, planes, render, groups, scalar, surface })
}

/// Where the coefficient packets of a known plan are.
pub struct CoefficientPackets<'a> {
    /// Packets of each pass and group, once the HF-global prefix is parsed.
    pub ranges: Option<&'a Vec<Vec<BitRange>>>,
    pub spatial_groups: u64,
    pub windowed: bool,
    pub indices: &'a Vec<u32>,
    /// Which of them extra channels follow in.
    pub continuations: &'a Vec<bool>,
}

/// Why the coefficient streams of a frame cannot be validated later.
pub open spec fn packets_validation_refusal(packets: Option<CoefficientPackets<'_>>) -> Option<
    VarDctDecodeError,
> {
    match packets {
        None => None,
        Some(packets) => match packets.ranges {
            None => Some(
                VarDctDecodeError::ModularExtra { detail: "AC validation has no entropy plan" },
            ),
            Some(ranges) => streams_refusal(
                ranges@,
                packets.spatial_groups,
                packets.windowed,
                packets.indices@,
                packets.continuations@,
                0,
            ),
        },
    }
}

/// Where every coefficient stream must end.
pub open spec fn streams_expected(
    packets: Option<CoefficientPackets<'_>>,
    streams: Seq<HfValidation>,
) -> bool {
    match packets {
        None => streams.len() == 0,
        Some(packets) => streams.len() == packets.indices@.len() && forall|i: int|
            0 <= i < streams.len() ==> stream_validation(
                packets.ranges->0@,
                packets.spatial_groups,
                packets.windowed,
                packets.indices@[i],
                packets.continuations@[i],
            ) == Ok::<HfValidation, VarDctDecodeError>(#[trigger] streams[i]),
    }
}

/// Where every coefficient stream must end.
pub fn expect_streams(packets: &Option<CoefficientPackets<'_>>) -> (r: Result<
    Vec<HfValidation>,
    VarDctDecodeError,
>)
    requires
        packets matches Some(packets) ==> packets.spatial_groups > 0
            && packets.continuations@.len() == packets.indices@.len(),
    ensures
        match packets_validation_refusal(*packets) {
            Some(error) => r == Err::<Vec<HfValidation>, VarDctDecodeError>(error),
            None => r matches Ok(streams) && streams_expected(*packets, streams@),
        },
{
    match packets {
        None => Ok(Vec::new()),
        Some(packets) => match packets.ranges {
            None => Err(map_extra_error("AC validation has no entropy plan")),
            Some(ranges) => plan_streams(
                ranges,
                packets.spatial_groups,
                packets.windowed,
                packets.indices,
                packets.continuations,
            ),
        },
    }
}

/// The first submission of a frame.
#[derive(Debug)]
pub struct FrameSubmission {
    pub buffers: FrameBuffers,
    pub recording: FrameRecording,
    pub status: Vec<StatusCopy>,
    pub expected: Vec<VarDctGroupValidation>,
    pub expected_hf: Vec<HfValidation>,
    pub launch: Launch,
    /// What its mapping is called in a failure.
    pub mapping: &'static str,
}

/// Bytes of the output's own status.
pub open spec fn output_status(output: OutputSetup) -> u64 {
    match output {
        OutputSetup::Color { .. } => 0,
        OutputSetup::Extra { status_bytes, .. } => status_bytes,
    }
}

/// Why a frame cannot be submitted: the first reason in the order of its stages.
pub open spec fn submission_refusal(
    inputs: FrameInputs<'_>,
    stages: FrameStages<'_>,
    packets: Option<CoefficientPackets<'_>>,
) -> Option<VarDctDecodeError> {
    let n = inputs.packet.groups@.len() as int;
    let windows = packet_windows(inputs.windows);
    let staging = staging_of(inputs.packet, windows);
    let recording = stages_refusal(
        inputs.packet,
        inputs.profile,
        inputs.blocks,
        *inputs.memory,
        stages,
    );
    let status = status_refusal(
        n,
        inputs.memory.packet_status_bytes,
        hf_or_none(hf_view(inputs.hf)),
    );
    let first = launch(
        inputs.packet,
        staging,
        packet_route(inputs.packet, staging, windows.windowed),
        inputs.deferred_hf is Some,
        inputs.arena is Some,
    );
    if inputs_refusal(inputs) is Some {
        inputs_refusal(inputs)
    } else if recording is Some {
        recording
    } else if status is Some {
        status
    } else if validations_refusal(inputs.packet, 0) is Some {
        validations_refusal(inputs.packet, 0)
    } else if packets_validation_refusal(packets) is Some {
        packets_validation_refusal(packets)
    } else if first is Err {
        Some(first->Err_0)
    } else {
        None
    }
}

/// The submission of an accepted frame.
pub open spec fn submits(
    plan: FrameSubmission,
    inputs: FrameInputs<'_>,
    stages: FrameStages<'_>,
    packets: Option<CoefficientPackets<'_>>,
) -> bool {
    let n = inputs.packet.groups@.len() as int;
    let decoders = hf_or_none(hf_view(inputs.hf));
    let own_status = output_status(stages.output);
    &&& buffered(plan.buffers, inputs)
    &&& recorded(
        plan.recording,
        inputs.packet,
        inputs.profile,
        inputs.plans@,
        inputs.blocks,
        *inputs.memory,
        stages,
    )
    &&& plan.status@.len() == 2 * n + decoders.len() + if own_status != 0 {
        1int
    } else {
        0
    }
    &&& forall|k: int|
        0 <= k < plan.status@.len() ==> #[trigger] plan.status@[k] == status_copy(
            inputs.plans@,
            inputs.packet_status,
            inputs.memory.packet_status_bytes,
            decoders,
            own_status,
            inputs.memory.validation_staging_bytes,
            k,
        )
    &&& plan.expected@.len() == n
    &&& forall|i: int|
        0 <= i < n ==> #[trigger] plan.expected@[i] == validation_of(
            inputs.packet,
            inputs.packet.groups@[i],
        )
    &&& streams_expected(packets, plan.expected_hf@)
    &&& launch(
        inputs.packet,
        plan.buffers.staging,
        plan.buffers.route,
        inputs.deferred_hf is Some,
        inputs.arena is Some,
    ) == Ok::<Launch, VarDctDecodeError>(plan.launch)
    &&& plan.mapping == mapping_name(plan.buffers.staging)
}

/// Plans the first submission of a frame: its buffers, what is recorded for every stage, which
/// statuses are copied and expected, and the stage that it then waits for.
pub fn submit_vardct(
    inputs: &FrameInputs<'_>,
    stages: &FrameStages<'_>,
    packets: &Option<CoefficientPackets<'_>>,
) -> (r: Result<FrameSubmission, VarDctDecodeError>)
    requires
        inputs.packet_status <= 0x1_0000,
        inputs.packet.groups@.len() <= 0x1_0000_0000,
        inputs.local_modular@.len() == inputs.packet.groups@.len(),
        inputs.global_modular@.len() == inputs.packet.groups@.len(),
        output_status(stages.output) <= inputs.memory.validation_staging_bytes,
        passes_counted(stages.output),
        rendered_fit(*stages),
        packets matches Some(packets) ==> packets.spatial_groups > 0
            && packets.continuations@.len() == packets.indices@.len(),
    ensures
        match submission_refusal(*inputs, *stages, *packets) {
            Some(error) => r == Err::<FrameSubmission, VarDctDecodeError>(error),
            None => r matches Ok(plan) && submits(plan, *inputs, *stages, *packets),
        },
{
    let buffers = match take_inputs(inputs) {
        Ok(buffers) => buffers,
        Err(error) => {
            return Err(error);
        },
    };
    let recording = match record_stages(
        inputs.packet,
        inputs.profile,
        inputs.plans,
        inputs.blocks,
        inputs.memory,
        stages,
    ) {
        Ok(recording) => recording,
        Err(error) => {
            return Err(error);
        },
    };
    let own_status: u64 = match stages.output {
        OutputSetup::Color { .. } => 0,
        OutputSetup::Extra { status_bytes, .. } => status_bytes,
    };
    let status = match plan_status(
        inputs.plans,
        inputs.packet_status,
        inputs.memory.packet_status_bytes,
        inputs.hf,
        own_status,
        inputs.memory.validation_staging_bytes,
    ) {
        Ok(status) => status,
        Err(error) => {
            return Err(error);
        },
    };
    let expected = match expect_groups(inputs.packet) {
        Ok(expected) => expected,
        Err(error) => {
            return Err(error);
        },
    };
    let expected_hf = match expect_streams(packets) {
        Ok(expected) => expected,
        Err(error) => {
            return Err(error);
        },
    };
    let launch = match plan_launch(
        inputs.packet,
        buffers.staging,
        buffers.route,
        inputs.deferred_hf.is_some(),
        inputs.arena.is_some(),
    ) {
        Ok(launch) => launch,
        Err(error) => {
            return Err(error);
        },
    };
    let mapping = mapping_label(buffers.staging);
    Ok(
        FrameSubmission {
            buffers,
            recording,
            status,
            expected,
            expected_hf,
            launch,
            mapping,
        },
    )
}

/// A frame's inputs become buffers as their parts do: continuations, packets and groups as they are
/// planned alone, for the windows that the frame has. Groups with metadata of their own use the tree
/// of their own packet, and others that of the frame.
pub proof fn law_inputs_taken(
    inputs: &FrameInputs<'_>,
    buffers: FrameBuffers,
    windows: PacketWindows,
    staging: Staging,
    route: PacketRoute,
    groups: Vec<GroupBuffers>,
    i: int,
)
    requires
        inputs.local_modular@.len() == inputs.packet.groups@.len(),
        inputs.global_modular@.len() == inputs.packet.groups@.len(),
        call_ensures(take_inputs, (inputs,), Ok::<FrameBuffers, VarDctDecodeError>(buffers)),
        inputs.windows matches Some(plan) ==> windows.windowed && windows.fuses_stages
            == plan.fuses_stages && windows.hf_batches == plan.hf_batches,
        inputs.windows is None ==> !windows.windowed && !windows.fuses_stages && windows.hf_batches
            == 0,
        call_ensures(plan_staging, (inputs.packet, windows), staging),
        call_ensures(plan_packet_route, (inputs.packet, staging, windows.windowed), route),
        call_ensures(
            plan_group_buffers,
            (inputs.packet, inputs.plans, inputs.hf, inputs.deferred_hf, inputs.packet_status),
            Ok::<Vec<GroupBuffers>, VarDctDecodeError>(groups),
        ),
        0 <= i < inputs.packet.groups@.len(),
    ensures
        buffers.staging == staging,
        buffers.route == route,
        buffers.groups@.len() == groups@.len() == inputs.packet.groups@.len(),
        buffers.groups@[i] == groups@[i],
        buffers.upload@.len() == inputs.chunks@.len(),
        buffers.entropy@.len() == inputs.packet.groups@.len(),
        !staging.group_metadata ==> buffers.entropy@[i].lz77_window_words
            == inputs.global_modular@[i].lz77_window_words && buffers.entropy@[i].self_correcting
            == inputs.packet.needs_self_correcting,
        staging.group_metadata && inputs.local_modular@[i] is Some ==> buffers.entropy@[i]
            == inputs.local_modular@[i]->0,
{
    assert(buffers.groups@[i] == buffers.groups@[i]);
    assert(groups@[i] == groups@[i]);
    assert(buffers.entropy@[i] == packet_entropy(*inputs, i));
}

} // verus!
