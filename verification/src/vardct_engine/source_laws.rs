//! What an accepted frame guarantees to the device that decodes it.

use crate::arith::lemma_ceil_div;
use crate::vardct_artifact::{HfMetadataLoweringParams, VarDctArtifactLayout};
use crate::vardct_engine::restoration::dequant_matrix_multiplier;
use crate::vardct_engine::source::{
    admit_stream_window, artifact_config, begin_source, buffer_checks, check_limits, check_presentation, choose_control,
    choose_windows, exceeded, finish_source, frame_buffers, frame_submissions, frame_uniforms, frame_upsampling, hf_group, hf_view,
    lemma_group_accepted, lower_groups, maxima_of, plan_groups,
    reconstruction_bytes, reconstruction_overflows, resolve_stream_limit, staged_lf_submission_count, status_maximum_of,
    submissions_per_frame, subsampled_channels, validate_device_limits, AdaptiveStreamLimitDecision, BufferNeed, ControlStage,
    EntropyPlans, FrameFilters, PreparedSource, SourcePlan,
    DeviceLimits, FrameGeometry, GroupMaxima, GroupPlan, HfGroupBytes, LimitCheck, Packet,
    PacketGroup, PresentationFacts, RecordSizes, SubmissionCounts, VarDctDecodeMemoryStats,
    WindowChoice,
};
use crate::vardct_engine::types::VarDctDecodeError;
use vstd::prelude::*;

verus! {

/// The device holds a buffer of so many bytes and binds it as storage.
pub open spec fn storable(limits: DeviceLimits, bytes: int) -> bool {
    bytes <= limits.max_buffer_size && bytes <= limits.max_storage_buffer_binding_size
}

/// Nothing is exceeded exactly where every requirement is available.
proof fn lemma_exceeded(checks: Seq<LimitCheck>, i: int)
    requires
        0 <= i <= checks.len(),
    ensures
        exceeded(checks, i) is None <==> forall|k: int|
            i <= k < checks.len() ==> (#[trigger] checks[k]).required <= checks[k].available,
    decreases checks.len() - i,
{
    if i < checks.len() {
        lemma_exceeded(checks, i + 1);
    }
}

/// Every buffer that is needed fits the device.
spec fn needs_met(needs: Seq<BufferNeed>, limits: DeviceLimits, n: int) -> bool {
    forall|k: int|
        0 <= k < n ==> (#[trigger] needs[k]).bytes <= limits.max_buffer_size && (needs[k].storage
            ==> needs[k].bytes <= limits.max_storage_buffer_binding_size)
}

/// The bounds of buffers are met exactly where the buffers fit.
proof fn lemma_buffers(needs: Seq<BufferNeed>, limits: DeviceLimits, n: int)
    requires
        0 <= n <= needs.len(),
    ensures
        (forall|k: int|
            0 <= k < buffer_checks(needs, limits, n).len() ==> (#[trigger] buffer_checks(
                needs,
                limits,
                n,
            )[k]).required <= buffer_checks(needs, limits, n)[k].available) <==> needs_met(
            needs,
            limits,
            n,
        ),
    decreases n,
{
    if n > 0 {
        lemma_buffers(needs, limits, n - 1);
        let front = buffer_checks(needs, limits, n - 1);
        let all = buffer_checks(needs, limits, n);
        let m = front.len() as int;
        assert(forall|k: int| 0 <= k < m ==> #[trigger] all[k] == front[k]);
        if forall|k: int| 0 <= k < all.len() ==> (#[trigger] all[k]).required <= all[k].available {
            assert forall|k: int| 0 <= k < m implies (#[trigger] front[k]).required
                <= front[k].available by {
                assert(all[k] == front[k]);
            }
            assert(all[m].required <= all[m].available);
            if needs[n - 1].storage {
                assert(all[m + 1].required <= all[m + 1].available);
            }
            assert(needs_met(needs, limits, n));
        }
        if needs_met(needs, limits, n) {
            assert(needs_met(needs, limits, n - 1));
            assert(needs[n - 1].bytes <= limits.max_buffer_size);
            assert forall|k: int| 0 <= k < all.len() implies (#[trigger] all[k]).required
                <= all[k].available by {
                if k < m {
                    assert(all[k] == front[k]);
                }
            }
        }
    }
}

/// What each group binds fits the device.
pub open spec fn group_fits(
    limits: DeviceLimits,
    group: PacketGroup,
    layout: VarDctArtifactLayout,
    decoder: HfGroupBytes,
) -> bool {
    &&& storable(
        limits,
        4 * group.reconstructed_words + decoder.lz77_scratch + decoder.execution_state,
    )
    &&& storable(limits, 4 * group.raw_metadata_words)
    &&& storable(limits, 4 * group.coefficient_words)
    &&& storable(limits, layout.artifact_bytes as int)
    &&& storable(limits, layout.occupancy_bytes as int)
}

/// The maxima of groups.
spec fn maxima_fit(limits: DeviceLimits, maxima: GroupMaxima) -> bool {
    &&& storable(limits, maxima.reconstruction as int)
    &&& storable(limits, maxima.raw_metadata as int)
    &&& storable(limits, maxima.coefficients as int)
    &&& storable(limits, maxima.artifact as int)
    &&& storable(limits, maxima.occupancy as int)
}

/// The largest of each kind fits exactly where all do.
proof fn lemma_maxima(
    limits: DeviceLimits,
    groups: Seq<PacketGroup>,
    layouts: Seq<VarDctArtifactLayout>,
    hf: Option<Seq<HfGroupBytes>>,
    n: int,
)
    requires
        0 <= n <= groups.len(),
        layouts.len() == groups.len(),
        !reconstruction_overflows(groups, hf),
    ensures
        maxima_fit(limits, maxima_of(groups, layouts, hf, n)) <==> forall|i: int|
            0 <= i < n ==> group_fits(
                limits,
                #[trigger] groups[i],
                layouts[i],
                hf_group(hf, i),
            ),
        maxima_of(groups, layouts, hf, n).modular_metadata <= limits.max_buffer_size <==> forall|
            i: int,
        |
            0 <= i < n ==> 4 * (#[trigger] groups[i]).modular_metadata_words
                <= limits.max_buffer_size,
        maxima_of(groups, layouts, hf, n).modular_metadata
            <= limits.max_storage_buffer_binding_size <==> forall|i: int|
            0 <= i < n ==> 4 * (#[trigger] groups[i]).modular_metadata_words
                <= limits.max_storage_buffer_binding_size,
    decreases n,
{
    if n > 0 {
        lemma_maxima(limits, groups, layouts, hf, n - 1);
        assert(reconstruction_bytes(groups[n - 1], hf_group(hf, n - 1)) <= u64::MAX);
    }
}

/// The largest status fits exactly where all do.
proof fn lemma_statuses(groups: Seq<HfGroupBytes>, n: int, limit: int)
    requires
        0 <= n <= groups.len(),
        0 <= limit,
    ensures
        0 <= status_maximum_of(groups, n) <= u64::MAX,
        status_maximum_of(groups, n) <= limit <==> forall|i: int|
            0 <= i < n ==> (#[trigger] groups[i]).status <= limit,
    decreases n,
{
    if n > 0 {
        lemma_statuses(groups, n - 1, limit);
    }
}

/// A frame that the device accepts has a group, and for every group the device holds and binds
/// its LF samples with its decoder's state, its raw metadata, its coefficients, its artifact and
/// its occupancy, four bytes a word. It holds and binds every other buffer of the frame too.
pub proof fn law_device_holds(
    limits: DeviceLimits,
    memory: &VarDctDecodeMemoryStats,
    packet: &Packet,
    layouts: &Vec<VarDctArtifactLayout>,
    hf: Option<&Vec<HfGroupBytes>>,
    sizes: RecordSizes,
    i: int,
)
    requires
        layouts@.len() == packet.groups@.len(),
        call_ensures(
            validate_device_limits,
            (limits, memory, packet, layouts, hf, sizes),
            Ok::<(), VarDctDecodeError>(()),
        ),
        0 <= i < packet.groups@.len(),
    ensures
        group_fits(limits, packet.groups@[i], layouts@[i], hf_group(hf_view(hf), i)),
        packet.requires_lf_staging || packet.uses_lf_frame ==> storable(
            limits,
            4 * packet.groups@[i].modular_metadata_words,
        ),
        !(packet.requires_lf_staging || packet.uses_lf_frame) ==> storable(
            limits,
            memory.modular_metadata_bytes as int,
        ),
        hf matches Some(groups) ==> forall|k: int|
            0 <= k < groups@.len() ==> storable(limits, (#[trigger] groups@[k]).status as int),
        storable(limits, memory.codestream_bytes as int),
        storable(limits, sizes.packet_status as int),
        storable(limits, sizes.modular_params as int),
        storable(limits, memory.packet_stream_window_bytes as int),
        memory.validation_staging_bytes <= limits.max_buffer_size,
        storable(limits, memory.lf_temporary_bytes as int),
        storable(limits, memory.resource_bytes as int),
        storable(limits, memory.hf_entropy_bundle_bytes as int),
        storable(limits, memory.hf_stream_window_bytes as int),
        storable(limits, memory.hf_params_bytes as int),
        storable(limits, memory.hf_order_table_bytes as int),
        storable(limits, memory.resident_plane_bytes@[0] as int),
        storable(limits, memory.resident_plane_bytes@[1] as int),
        storable(limits, memory.resident_plane_bytes@[2] as int),
        storable(limits, memory.restoration_scratch_bytes as int / 3),
        storable(limits, memory.frame_upsample_image_bytes as int / 3),
        storable(limits, memory.frame_upsample_weight_bytes as int),
        storable(limits, memory.epf_sigma_bytes as int),
        storable(limits, memory.output_lease_bytes as int),
        subsampled_channels(packet.channel_shifts) > 0 ==> storable(
            limits,
            memory.component_upsample_bytes as int / subsampled_channels(packet.channel_shifts),
        ),
{
    let n = packet.groups@.len() as int;
    let view = hf_view(hf);
    let maxima = maxima_of(packet.groups@, layouts@, view, n);
    let status = crate::vardct_engine::source::largest_status(view);
    let needs = frame_buffers(packet, *memory, maxima, status, sizes);
    let checks = buffer_checks(needs, limits, needs.len() as int);
    assert(!reconstruction_overflows(packet.groups@, view));
    lemma_exceeded(checks, 0);
    lemma_buffers(needs, limits, needs.len() as int);
    assert(needs_met(needs, limits, needs.len() as int));
    assert(needs.len() == 25);
    assert(forall|k: int|
        0 <= k < 25 ==> (#[trigger] needs[k]).bytes <= limits.max_buffer_size && (needs[k].storage
            ==> needs[k].bytes <= limits.max_storage_buffer_binding_size));
    assert(storable(limits, needs[0].bytes as int) && storable(limits, needs[1].bytes as int));
    assert(storable(limits, needs[2].bytes as int) && storable(limits, needs[3].bytes as int));
    assert(storable(limits, needs[4].bytes as int) && storable(limits, needs[5].bytes as int));
    assert(storable(limits, needs[6].bytes as int) && storable(limits, needs[7].bytes as int));
    assert(needs[8].bytes <= limits.max_buffer_size && storable(limits, needs[9].bytes as int));
    assert(storable(limits, needs[10].bytes as int) && storable(limits, needs[11].bytes as int));
    assert(storable(limits, needs[12].bytes as int) && storable(limits, needs[13].bytes as int));
    assert(storable(limits, needs[14].bytes as int) && storable(limits, needs[15].bytes as int));
    assert(storable(limits, needs[16].bytes as int) && storable(limits, needs[17].bytes as int));
    assert(storable(limits, needs[18].bytes as int) && storable(limits, needs[19].bytes as int));
    assert(storable(limits, needs[20].bytes as int) && storable(limits, needs[21].bytes as int));
    assert(storable(limits, needs[22].bytes as int) && storable(limits, needs[23].bytes as int));
    assert(storable(limits, needs[24].bytes as int));
    lemma_maxima(limits, packet.groups@, layouts@, view, n);
    assert(maxima_fit(limits, maxima));
    assert(group_fits(limits, packet.groups@[i], layouts@[i], hf_group(view, i)));
    if let Some(groups) = hf {
        lemma_statuses(groups@, groups@.len() as int, limits.max_buffer_size as int);
        lemma_statuses(
            groups@,
            groups@.len() as int,
            limits.max_storage_buffer_binding_size as int,
        );
    }
}

/// A frame that the device accepts binds no uniform that is too large, and the adaptive LF pass
/// has its sixteen by sixteen invocations and its shared storage.
pub proof fn law_device_binds(
    limits: DeviceLimits,
    memory: &VarDctDecodeMemoryStats,
    packet: &Packet,
    layouts: &Vec<VarDctArtifactLayout>,
    hf: Option<&Vec<HfGroupBytes>>,
    sizes: RecordSizes,
)
    requires
        layouts@.len() == packet.groups@.len(),
        call_ensures(
            validate_device_limits,
            (limits, memory, packet, layouts, hf, sizes),
            Ok::<(), VarDctDecodeError>(()),
        ),
    ensures
        packet.groups@.len() > 0,
        ({
            let most = limits.max_uniform_buffer_binding_size;
            &&& sizes.packet_control <= most
            &&& sizes.resource_params <= most
            &&& memory.adaptive_lf_uniform_bytes <= most
            &&& 52 * 4 <= most
            &&& hf is Some ==> 16 <= most
            &&& memory.gaborish_uniform_bytes <= most
            &&& memory.component_upsample_uniform_bytes != 0 ==> sizes.component_upsample_uniform
                <= most
            &&& memory.epf_sigma_uniform_bytes as int / packet.groups@.len() as int <= most
            &&& memory.epf_filter_uniform_bytes != 0 ==> sizes.epf_uniform <= most
            &&& memory.frame_upsample_uniform_bytes <= most
            &&& memory.output_uniform_bytes <= most
        }),
        sizes.adaptive_lf_workgroup <= limits.max_compute_workgroup_storage_size,
        16 * 16 <= limits.max_compute_invocations_per_workgroup,
        16 <= limits.max_compute_workgroup_size_y,
{
    let n = packet.groups@.len() as int;
    assert(packet.groups.len() == n);
    vstd::arithmetic::div_mod::lemma_div_nonincreasing(memory.epf_sigma_uniform_bytes as int, n);
    vstd::arithmetic::div_mod::lemma_div_pos_is_pos(memory.epf_sigma_uniform_bytes as int, n);
    let checks = frame_uniforms(*memory, n as u64, hf_view(hf) is Some, sizes, limits);
    lemma_exceeded(checks, 0);
    assert(checks.len() == 14);
    assert(checks[0].required <= checks[0].available && checks[1].required <= checks[1].available);
    assert(checks[2].required <= checks[2].available && checks[3].required <= checks[3].available);
    assert(checks[4].required <= checks[4].available && checks[5].required <= checks[5].available);
    assert(checks[6].required <= checks[6].available && checks[7].required <= checks[7].available);
    assert(checks[8].required <= checks[8].available && checks[9].required <= checks[9].available);
    assert(checks[10].required <= checks[10].available && checks[11].required
        <= checks[11].available);
    assert(checks[12].required <= checks[12].available && checks[13].required
        <= checks[13].available);
}

/// The largest stream window is the least of what the caller asks for, what a buffer holds and
/// what can be bound; it is admitted exactly where it is not below the minimum.
pub proof fn law_stream_window(
    requested: Option<u64>,
    limits: DeviceLimits,
    minimum: u64,
    r: Result<u64, VarDctDecodeError>,
)
    requires
        call_ensures(admit_stream_window, (requested, limits, minimum), r),
    ensures
        r is Ok <==> {
            &&& minimum <= limits.max_buffer_size
            &&& minimum <= limits.max_storage_buffer_binding_size
            &&& requested is Some ==> minimum <= requested->0
        },
        r matches Ok(limit) ==> {
            &&& minimum <= limit
            &&& storable(limits, limit as int)
            &&& requested is Some ==> limit <= requested->0
            &&& limit == limits.max_buffer_size || limit == limits.max_storage_buffer_binding_size
                || requested == Some(limit)
        },
{
}

/// LF packets are windowed where local trees wait for them. Whole packets are windowed where
/// nothing else comes first: no staging, no LF frame and no raw matrix. A packet that does not
/// stop behind its LF samples, to find its HF-global prefix, starts with HF metadata where its LF
/// samples are external, and with both where nothing waits for its LF samples.
pub proof fn law_windows(
    packet: &Packet,
    choice: WindowChoice,
    external_lf: bool,
    combined: bool,
    stage: ControlStage,
)
    requires
        call_ensures(choose_windows, (packet,), choice),
        call_ensures(choose_control, (packet, external_lf, combined), stage),
    ensures
        choice.lf <==> packet.requires_lf_staging,
        choice.combined <==> !(packet.requires_lf_staging || packet.uses_lf_frame
            || packet.pending_raw_matrix),
        ({
            let stopped = packet.requires_hf_global_staging && !combined && !packet.uses_lf_frame;
            &&& stage == ControlStage::Hf <==> external_lf && !stopped
            &&& stage == ControlStage::Whole <==> !external_lf && !stopped
                && !packet.requires_lf_staging
        }),
{
}

/// A frame is presented exactly where packed eight-bit colours are asked for of a frame that is
/// there, upright and of standard colours.
pub proof fn law_presentation(facts: PresentationFacts, r: Result<(), VarDctDecodeError>)
    requires
        call_ensures(check_presentation, (facts,), r),
    ensures
        r is Ok <==> facts.color_request && facts.packed_format && facts.orientation == 1
            && facts.srgb && facts.frames > 0,
{
}

/// Submissions of a frame whose coefficients are decided up front: the batches of local LF
/// packets, or one; every batch of whole packets but the last, which ends the frame; and where
/// coefficients are windowed, one more in front of them and one for each of their batches.
pub proof fn law_submissions_up_front(packet: &Packet, counts: SubmissionCounts, n: usize)
    requires
        !counts.deferred_hf,
        frame_submissions(packet, counts) <= usize::MAX,
        call_ensures(submissions_per_frame, (packet, counts), n),
    ensures
        ({
            let local = if !packet.requires_lf_staging {
                0
            } else if counts.lf_batches is Some {
                counts.lf_batches->0 as int
            } else {
                1
            };
            let whole = if counts.combined_batches is Some && counts.combined_batches->0 > 0 {
                counts.combined_batches->0 as int
            } else {
                1
            };
            let coefficients = if counts.coefficient_batches is Some {
                1 + counts.coefficient_batches->0
            } else {
                0
            };
            n == local + whole + coefficients
        }),
{
}

/// Submissions of a frame whose coefficients are decided later: one where a raw matrix comes
/// first, two behind an LF frame, otherwise those of the LF packets, of the coefficients and two
/// more.
pub proof fn law_submissions_deferred(
    packet: &Packet,
    counts: SubmissionCounts,
    n: usize,
    staged: usize,
)
    requires
        counts.deferred_hf,
        frame_submissions(packet, counts) <= usize::MAX,
        call_ensures(submissions_per_frame, (packet, counts), n),
        call_ensures(staged_lf_submission_count, (packet, counts), staged),
    ensures
        staged == if packet.uses_lf_frame {
            0
        } else if counts.lf_batches is Some {
            counts.lf_batches->0
        } else {
            1
        },
        packet.pending_raw_matrix && !packet.requires_lf_staging ==> n == 1,
        !(packet.pending_raw_matrix && !packet.requires_lf_staging) && packet.uses_lf_frame ==> n
            == 2,
        ({
            let batches = if counts.coefficient_batches is Some {
                counts.coefficient_batches->0 as int
            } else {
                0
            };
            !(packet.pending_raw_matrix && !packet.requires_lf_staging) && !packet.uses_lf_frame
                && staged + batches + 2 <= usize::MAX ==> n == staged + batches + 2
        }),
{
}

/// The first group's quantizers stand at the frame's, and each other group's behind the tasks of
/// the group before. Every group has a layout of its own blocks and entries.
pub proof fn law_group_resources(
    groups: &Vec<PacketGroup>,
    frame: &FrameGeometry,
    limits: DeviceLimits,
    plans: Vec<GroupPlan>,
    n: int,
)
    requires
        call_ensures(
            plan_groups,
            (groups, frame, limits),
            Ok::<Vec<GroupPlan>, VarDctDecodeError>(plans),
        ),
        0 <= n < groups@.len(),
    ensures
        plans@.len() == groups@.len(),
        n == 0 ==> plans@[n].quant_offset == frame.resources.quant_offset,
        n > 0 ==> plans@[n].quant_offset == plans@[n - 1].quant_offset + groups@[n
            - 1].task_capacity,
        plans@[n].artifact_layout.block_count == groups@[n].blocks@[0] * groups@[n].blocks@[1],
        plans@[n].artifact_layout.task_capacity <= groups@[n].task_capacity,
        frame.blocks_x >= groups@[n].blocks@[0] > 0,
{
    lemma_group_accepted(groups@, *frame, limits, 0, n);
    if n > 0 {
        crate::vardct_engine::source::law_quantizers_tile(groups@, *frame, limits, n - 1);
    }
}

/// The lowering parameters of every group: its own blocks, entries and metadata rows, in a frame
/// of its stride and pass groups, with as many chroma-from-luma cells in a row as it takes to
/// cover the group's width, and the samples at its place.
pub proof fn law_groups_lowered(
    groups: &Vec<PacketGroup>,
    frame: &FrameGeometry,
    plans: &Vec<GroupPlan>,
    lowering: Vec<HfMetadataLoweringParams>,
    n: int,
)
    requires
        plans@.len() == groups@.len(),
        frame.pass_group_dim_blocks != 0,
        call_ensures(
            lower_groups,
            (groups, frame, plans),
            Ok::<Vec<HfMetadataLoweringParams>, VarDctDecodeError>(lowering),
        ),
        0 <= n < groups@.len(),
    ensures
        lowering@.len() == groups@.len(),
        ({
            let params = lowering@[n];
            let group = groups@[n];
            &&& params.dimensions@[0] == group.blocks@[0]
            &&& params.dimensions@[1] == group.blocks@[1]
            &&& params.dimensions@[2] == group.task_capacity
            &&& params.dimensions@[3] == frame.pass_group_dim_blocks
            &&& 64 * (params.capacities@[3] - 1) < group.width <= 64 * params.capacities@[3]
            &&& params.image@[0] == frame.blocks_x
            &&& params.image@[1] == group.x
            &&& params.image@[2] == group.y
            &&& params.image@[3] == frame.resources.afv_basis_offset
            &&& params.source_offsets@[0] == group.strategy_offset_words
            &&& params.source_offsets@[1] == group.hf_mul_offset_words
            &&& params.capacities@[0] == plans@[n].artifact_layout.task_capacity
        }),
{
    lemma_ceil_div(groups@[n].width as int, 64);
    let config = artifact_config(groups@[n], *frame);
    assert(crate::vardct_artifact::lowered(lowering@[n], config, plans@[n].artifact_layout));
    assert(config.destination_origin@ =~= seq![groups@[n].x, groups@[n].y]);
}

/// A planned frame agrees with its parts: the window that was admitted, the factors of its X and B
/// matrices with one in between, the smoothing that was declared, its packets' windows, and its
/// factor of enlargement, which is two, four or eight where there is one.
pub proof fn law_planned_frame(
    facts: PresentationFacts,
    filters: FrameFilters,
    requested: Option<u64>,
    limits: DeviceLimits,
    minimum: u64,
    packet: &Packet,
    frame: &FrameGeometry,
    sharpness: &Vec<u32>,
    output_blocks: [u32; 2],
    upsampling: u32,
    plan: SourcePlan,
    window: Result<u64, VarDctDecodeError>,
    x: Result<u32, VarDctDecodeError>,
    b: Result<u32, VarDctDecodeError>,
    windows: WindowChoice,
)
    requires
        sharpness@.len() == packet.groups@.len(),
        call_ensures(
            begin_source,
            (
                facts,
                filters,
                requested,
                limits,
                minimum,
                packet,
                frame,
                sharpness,
                output_blocks,
                upsampling,
            ),
            Ok::<SourcePlan, VarDctDecodeError>(plan),
        ),
        call_ensures(admit_stream_window, (requested, limits, minimum), window),
        call_ensures(dequant_matrix_multiplier, ("X", filters.x_qm_scale), x),
        call_ensures(dequant_matrix_multiplier, ("B", filters.b_qm_scale), b),
        call_ensures(choose_windows, (packet,), windows),
    ensures
        window == Ok::<u64, VarDctDecodeError>(plan.stream_limit),
        x == Ok::<u32, VarDctDecodeError>(plan.channel_scales@[0]),
        plan.channel_scales@[1] == 0x3f80_0000,
        b == Ok::<u32, VarDctDecodeError>(plan.channel_scales@[2]),
        plan.windows == windows,
        upsampling == 1 || upsampling == 2 || upsampling == 4 || upsampling == 8,
        plan.upsampling is None <==> upsampling == 1,
        plan.upsampling matches Some(factor) ==> factor == upsampling,
        facts.xyb ==> facts.has_inverse_opsin,
        facts.orientation == 1 && facts.srgb && facts.frames > 0,
        plan.epf is Some ==> plan.epf->0.passes@.len() >= 1 && plan.epf->0.sigma_groups@.len()
            == packet.groups@.len(),
{
}

/// A prepared frame keeps its plans; coefficients are deferred where a later prefix decides on
/// them and whole packets are not windowed, and every group has the control record of its stage.
pub proof fn law_prepared_frame(
    plan: SourcePlan,
    packet: &Packet,
    external_lf: &Vec<bool>,
    entropy: &EntropyPlans,
    memory_limit: u64,
    limits: DeviceLimits,
    sizes: RecordSizes,
    source: PreparedSource,
    n: int,
    stage: ControlStage,
)
    requires
        plan.groups@.len() == packet.groups@.len(),
        external_lf@.len() == packet.groups@.len(),
        call_ensures(
            finish_source,
            (plan, packet, external_lf, entropy, memory_limit, limits, sizes),
            Ok::<PreparedSource, VarDctDecodeError>(source),
        ),
        0 <= n < packet.groups@.len(),
        call_ensures(choose_control, (packet, external_lf@[n], entropy.combined_windows), stage),
    ensures
        source.groups == plan.groups,
        source.lowering == plan.lowering,
        source.deferred_hf <==> entropy.deferred_hf && !entropy.combined_windows,
        source.controls@[n] == stage,
        entropy.decision == AdaptiveStreamLimitDecision::Selected(source.stream_limit),
{
}

/// Bounds are met exactly where nothing requires more than is available; the first one that is not
/// met is named.
pub proof fn law_limits_checked(checks: &Vec<LimitCheck>, r: Result<(), VarDctDecodeError>, i: int)
    requires
        call_ensures(check_limits, (checks,), r),
    ensures
        r is Ok <==> forall|k: int|
            0 <= k < checks@.len() ==> (#[trigger] checks@[k]).required <= checks@[k].available,
        0 <= i < checks@.len() && checks@[i].required > checks@[i].available && (forall|k: int|
            0 <= k < i ==> (#[trigger] checks@[k]).required <= checks@[k].available) ==> r == Err::<
            (),
            VarDctDecodeError,
        >(
            VarDctDecodeError::DeviceLimit {
                resource: checks@[i].resource,
                required: checks@[i].required,
                available: checks@[i].available,
            },
        ),
{
    lemma_exceeded(checks@, 0);
    if 0 <= i < checks@.len() && checks@[i].required > checks@[i].available && (forall|k: int|
        0 <= k < i ==> (#[trigger] checks@[k]).required <= checks@[k].available) {
        lemma_first_exceeded(checks@, 0, i);
    }
}

/// The first bound that is not met is named.
proof fn lemma_first_exceeded(checks: Seq<LimitCheck>, from: int, i: int)
    requires
        0 <= from <= i < checks.len(),
        checks[i].required > checks[i].available,
        forall|k: int| from <= k < i ==> (#[trigger] checks[k]).required <= checks[k].available,
    ensures
        exceeded(checks, from) == exceeded(checks, i),
    decreases i - from,
{
    if from < i {
        assert(checks[from].required <= checks[from].available);
        lemma_first_exceeded(checks, from + 1, i);
    }
}

/// A frame is enlarged two, four or eight times, or not at all; a window is the selected one, or the
/// budget is too small for the bytes that are named.
pub proof fn law_selections(
    factor: u32,
    enlarged: Result<Option<u32>, VarDctDecodeError>,
    decision: AdaptiveStreamLimitDecision,
    memory_limit: u64,
    window: Result<u64, VarDctDecodeError>,
)
    requires
        call_ensures(frame_upsampling, (factor,), enlarged),
        call_ensures(resolve_stream_limit, (decision, memory_limit), window),
    ensures
        enlarged is Ok <==> factor == 1 || factor == 2 || factor == 4 || factor == 8,
        enlarged matches Ok(Some(times)) ==> times == factor && factor > 1,
        enlarged == Ok::<Option<u32>, VarDctDecodeError>(None) ==> factor == 1,
        decision matches AdaptiveStreamLimitDecision::Selected(limit) ==> window == Ok::<
            u64,
            VarDctDecodeError,
        >(limit),
        decision matches AdaptiveStreamLimitDecision::BudgetTooSmall { required_bytes }
            ==> window == Err::<u64, VarDctDecodeError>(
            VarDctDecodeError::MemoryBudgetTooSmall { required_bytes, limit_bytes: memory_limit },
        ),
{
}

} // verus!
