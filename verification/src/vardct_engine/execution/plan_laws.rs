//! What the plans of a frame's submissions guarantee.

use crate::arith::{ceil_div, lemma_ceil_div};
use crate::vardct_engine::execution::restore::{
    channel_output, encode_restore, restore_columns, restore_words, RestoreDispatch, RestoreGroup,
};
use crate::vardct_engine::execution::side_image::{shrink_window, SideImageMemory};
use crate::vardct_engine::execution::submit::{
    expect_groups, plan_group_buffers, plan_lf_route, plan_packet_route, plan_planes, plan_staging,
    plan_status, validations_refusal, validation_refusal, GroupBuffers, ImageStages, LfRoute,
    PacketEntry, PacketRoute, PacketWindows, PlaneBuffers, Staging, StatusCopy, StatusKind,
    VarDctGroupValidation,
};
use crate::vardct_engine::execution::upload::plan_upload;
use crate::vardct_engine::jpeg::{JpegCoefficientLayout, PlaneView};
use crate::vardct_engine::source::{
    hf_view, subsampled_channels, GroupPlan, HfGroupBytes, Packet,     VarDctDecodeMemoryStats,
};
use crate::vardct_engine::types::VarDctDecodeError;
use crate::vardct_frontend::VarDctChannelShift;
use vstd::prelude::*;

verus! {

/// The chunks of a codestream follow one another from the start of its buffer on and fill exactly
/// its logical bytes, in a buffer of whole words.
pub proof fn law_upload_fills(
    chunks: &Vec<usize>,
    logical: u64,
    padded: u64,
    starts: Vec<u64>,
    i: int,
)
    requires
        call_ensures(
            plan_upload,
            (chunks, logical, padded),
            Ok::<Vec<u64>, VarDctDecodeError>(starts),
        ),
        0 <= i < chunks@.len(),
    ensures
        starts@.len() == chunks@.len(),
        padded % 4 == 0 && logical <= padded,
        i == 0 ==> starts@[i] == 0,
        i + 1 < chunks@.len() ==> starts@[i + 1] == starts@[i] + chunks@[i],
        i + 1 == chunks@.len() ==> starts@[i] + chunks@[i] == logical,
{
    assert(starts@[i] == crate::vardct_engine::execution::upload::chunk_start(chunks@, i));
    if i + 1 < chunks@.len() {
        assert(starts@[i + 1] == crate::vardct_engine::execution::upload::chunk_start(
            chunks@,
            i + 1,
        ));
    }
    reveal_with_fuel(crate::vardct_engine::execution::upload::chunk_start, 2);
}

/// A window shrinks only where the whole does not fit, to the most whole words that fit beside the
/// rest, and only where progress can still be made with so many.
pub proof fn law_window_shrinks(
    memory: SideImageMemory,
    available: u64,
    minimum: u64,
    limit: Option<u64>,
)
    requires
        memory.stream_bytes <= memory.memory_bytes,
        call_ensures(shrink_window, (memory, available, minimum), limit),
    ensures
        memory.memory_bytes <= available ==> limit is None,
        ({
            let rest = memory.memory_bytes - memory.stream_bytes;
            &&& limit matches Some(window) ==> {
                &&& window % 4 == 0
                &&& window >= minimum || window >= memory.stream_bytes
                &&& window > 0 ==> rest + window <= available
                &&& rest <= available ==> rest + window + 4 > available
            }
            &&& memory.memory_bytes > available && rest + minimum + 3 <= available ==> limit is Some
        }),
{
}

/// Where the coefficients of a channel go, among the first planes.
proof fn lemma_channel_output(planes: Seq<PlaneView>, c: int, n: int, i: int)
    requires
        0 <= i < n <= planes.len(),
        planes[i].channel == c,
        forall|k: int| i < k < n ==> (#[trigger] planes[k]).channel != c,
    ensures
        channel_output(planes, c, n) == seq![
            planes[i].offset as u32,
            planes[i].columns as u32,
            planes[i].rows as u32,
            planes[i].quantization as u32,
        ],
    decreases n,
{
    if i < n - 1 {
        lemma_channel_output(planes, c, n - 1, i);
    }
}

/// A channel without a plane goes nowhere.
proof fn lemma_no_output(planes: Seq<PlaneView>, c: int, n: int)
    requires
        0 <= n <= planes.len(),
        forall|k: int| 0 <= k < n ==> (#[trigger] planes[k]).channel != c,
    ensures
        channel_output(planes, c, n) == seq![u32::MAX, 0u32, 0u32, 0u32],
    decreases n,
{
    if n > 0 {
        lemma_no_output(planes, c, n - 1);
    }
}

/// The restoration of a group runs one workgroup for each of its tasks, in rows that the device
/// permits, with less than a row to spare. Its parameters are forty-eight words: where the group's
/// LF samples are, where each channel's coefficients and quantizers go, how channels are shifted,
/// the group's block of eight samples and its blocks, its metadata, and its columns.
pub proof fn law_restore_dispatches(
    layout: &JpegCoefficientLayout,
    shifts: [VarDctChannelShift; 3],
    groups: &Vec<RestoreGroup>,
    most: u32,
    dispatches: Vec<RestoreDispatch>,
    i: int,
)
    requires
        layout@.wf(),
        call_ensures(
            encode_restore,
            (layout, shifts, groups, most),
            Ok::<Vec<RestoreDispatch>, VarDctDecodeError>(dispatches),
        ),
        0 <= i < groups@.len(),
    ensures
        dispatches@.len() == groups@.len(),
        ({
            let dispatch = dispatches@[i];
            let group = groups@[i];
            let (columns, rows) = (dispatch.columns as int, dispatch.rows as int);
            &&& 0 < columns <= most && rows <= most
            &&& group.task_capacity <= columns * rows < group.task_capacity + columns
            &&& dispatch.words@.len() == 48
            &&& forall|k: int| 0 <= k < 4 ==> {
                &&& #[trigger] dispatch.words@[k] == group.lf@[0]@[k]
            }
            &&& forall|k: int| 0 <= k < 4 ==> dispatch.words@[4 + k] == #[trigger] group.lf@[1]@[k]
            &&& forall|k: int| 0 <= k < 4 ==> dispatch.words@[8 + k] == #[trigger] group.lf@[2]@[k]
            &&& 8 * dispatch.words@[36] <= group.x < 8 * dispatch.words@[36] + 8
            &&& 8 * dispatch.words@[37] <= group.y < 8 * dispatch.words@[37] + 8
            &&& dispatch.words@[38] == group.blocks@[0]
            &&& dispatch.words@[39] == group.blocks@[1]
            &&& dispatch.words@[40] == group.task_metadata_offset_words
            &&& dispatch.words@[41] == group.status_offset_words
            &&& dispatch.words@[42] == group.task_capacity
            &&& dispatch.words@[43] == group.coefficient_words
            &&& dispatch.words@[44] == 1 <==> layout@.rgb
            &&& dispatch.words@[45] == 1 <==> layout@.cfl
            &&& dispatch.words@[46] == group.extra_precision
            &&& dispatch.words@[47] == columns
        }),
{
    let group = groups@[i];
    let columns = restore_columns(group, most);
    lemma_restore_accepted(groups@, most, 0, i);
    crate::vardct_engine::execution::restore::law_restore_covers(group, most);
    let words = restore_words(group, layout@.planes, shifts, layout@.rgb, layout@.cfl, columns);
    assert(dispatches@[i].columns == columns);
    let n = layout@.planes.len() as int;
    crate::vardct_engine::execution::restore::lemma_output_words(layout@.planes, 0, n);
    crate::vardct_engine::execution::restore::lemma_output_words(layout@.planes, 1, n);
    crate::vardct_engine::execution::restore::lemma_output_words(layout@.planes, 2, n);
}

/// No group of an accepted restoration is refused on its own.
proof fn lemma_restore_accepted(groups: Seq<RestoreGroup>, most: u32, from: int, i: int)
    requires
        0 <= from <= i < groups.len(),
        crate::vardct_engine::execution::restore::restore_refusal(groups, most, from) is None,
    ensures
        restore_columns(groups[i], most) > 0,
        ceil_div(groups[i].task_capacity as int, restore_columns(groups[i], most) as int) <= most,
    decreases i - from,
{
    if from < i {
        lemma_restore_accepted(groups, most, from + 1, i);
    }
}

/// Continuations wait for LF cursors and LF extra channels where the packet says so, for HF cursors
/// where an HF-global prefix follows stages that are not fused, or a raw matrix follows HF windows;
/// groups have metadata of their own where LF samples are staged or come from another frame.
pub proof fn law_staging(packet: &Packet, windows: PacketWindows, staging: Staging)
    requires
        call_ensures(plan_staging, (packet, windows), staging),
    ensures
        staging.lf <==> packet.requires_lf_staging,
        staging.lf_extras <==> packet.requires_lf_extra_staging,
        packet.requires_hf_global_staging && !windows.fuses_stages ==> staging.hf_global,
        packet.pending_raw_matrix && windows.hf_batches > 0 ==> staging.hf_global,
        staging.hf_global ==> packet.requires_hf_global_staging && !windows.fuses_stages
            || packet.pending_raw_matrix && windows.hf_batches > 0,
        staging.group_metadata <==> packet.requires_lf_staging || packet.uses_lf_frame,
{
}

/// Every group has its own buffers: four bytes for each word of its samples, metadata and
/// coefficients, with the state of its decoder behind its samples. A decoder that has a plan counts
/// as planned; one that has none as it was admitted.
pub proof fn law_group_buffers(
    packet: &Packet,
    plans: &Vec<GroupPlan>,
    hf: Option<&Vec<HfGroupBytes>>,
    deferred: Option<&Vec<HfGroupBytes>>,
    packet_status: u64,
    buffers: Vec<GroupBuffers>,
    i: int,
)
    requires
        call_ensures(
            plan_group_buffers,
            (packet, plans, hf, deferred, packet_status),
            Ok::<Vec<GroupBuffers>, VarDctDecodeError>(buffers),
        ),
        0 <= i < packet.groups@.len(),
    ensures
        buffers@.len() == packet.groups@.len() == plans@.len(),
        ({
            let group = packet.groups@[i];
            let buffer = buffers@[i];
            let decoder = if hf is Some && i < hf->0@.len() {
                hf->0@[i].lz77_scratch + hf->0@[i].execution_state
            } else if deferred is Some && i < deferred->0@.len() {
                deferred->0@[i].lz77_scratch + deferred->0@[i].execution_state
            } else {
                0
            };
            &&& buffer.reconstruction == 4 * group.reconstructed_words + decoder
            &&& buffer.raw_metadata == 4 * group.raw_metadata_words
            &&& buffer.coefficients == 4 * group.coefficient_words
            &&& buffer.packet_status == packet_status
            &&& buffer.artifact == plans@[i].artifact_layout.artifact_bytes
            &&& buffer.occupancy == plans@[i].artifact_layout.occupancy_bytes
        }),
{
    assert(buffers@[i] == buffers@[i]);
    assert(!crate::vardct_engine::execution::submit::buffers_overflow(
        packet.groups@,
        hf_view(hf),
        hf_view(deferred),
    ));
    assert(crate::vardct_engine::execution::submit::group_reconstruction(
        packet.groups@[i],
        crate::vardct_engine::execution::submit::decoder_bytes(hf_view(hf), hf_view(deferred), i),
    ) <= u64::MAX);
}

/// Packets are not decoded before LF extra channels; windows are used where they are planned;
/// otherwise each group has its dispatch, and its status is copied exactly where a continuation
/// waits for it. Packets behind an LF frame hold no LF samples.
pub proof fn law_packet_routes(
    packet: &Packet,
    staging: Staging,
    windowed: bool,
    route: PacketRoute,
)
    requires
        call_ensures(plan_packet_route, (packet, staging, windowed), route),
    ensures
        route == PacketRoute::ClearOnly <==> staging.lf_extras,
        !staging.lf_extras && windowed ==> route == (PacketRoute::Windowed {
            staged: staging.lf || staging.hf_global,
        }),
        route matches PacketRoute::Groups { entry, copy_status } ==> {
            &&& !windowed
            &&& copy_status <==> staging.lf || staging.hf_global
            &&& packet.uses_lf_frame <==> entry == PacketEntry::Hf || entry
                == PacketEntry::HfMetadata
            &&& entry == PacketEntry::HfMetadata ==> staging.hf_global
            &&& entry == PacketEntry::Hf ==> !staging.hf_global
            &&& entry == PacketEntry::Whole ==> !copy_status
            &&& entry == PacketEntry::Lf ==> copy_status
        },
{
}

/// LF samples come from another frame exactly where the packet says so and that frame is there;
/// otherwise they are smoothed through a temporary, or go straight into the resources.
pub proof fn law_lf_routes(
    packet: &Packet,
    external_lf: bool,
    smoothing: bool,
    temporary: bool,
    groups: usize,
    r: Result<LfRoute, VarDctDecodeError>,
)
    requires
        call_ensures(plan_lf_route, (packet, external_lf, smoothing, temporary, groups), r),
    ensures
        r is Ok <==> if packet.uses_lf_frame {
            external_lf
        } else {
            groups > 0 && (smoothing ==> temporary)
        },
        r == Ok::<LfRoute, VarDctDecodeError>(LfRoute::External) ==> packet.uses_lf_frame,
        r == Ok::<LfRoute, VarDctDecodeError>(LfRoute::Smoothed) ==> smoothing && temporary,
        r == Ok::<LfRoute, VarDctDecodeError>(LfRoute::Direct) ==> !smoothing
            && !packet.uses_lf_frame,
{
}

/// The planes of a frame: the resident ones where an image comes out; a full plane for every
/// subsampled channel, which share their bytes evenly; a third of the scratch where a filter runs;
/// a third of the enlarged image where there is one; and the sigmas of the edge-preserving filter.
pub proof fn law_planes(
    shifts: &[VarDctChannelShift; 3],
    memory: &VarDctDecodeMemoryStats,
    stages: ImageStages,
    planes: PlaneBuffers,
    c: int,
)
    requires
        call_ensures(plan_planes, (shifts, memory, stages), planes),
        0 <= c < 3,
    ensures
        planes.resident is Some <==> stages.image,
        planes.resident matches Some(bytes) ==> bytes@ == memory.resident_plane_bytes@,
        planes.restoration is Some <==> stages.gaborish || stages.epf,
        planes.restoration matches Some(bytes) ==> 3 * bytes <= memory.restoration_scratch_bytes < 3
            * bytes + 3,
        planes.frame_upsample is Some <==> stages.upsampled,
        planes.frame_upsample matches Some(bytes) ==> 3 * bytes
            <= memory.frame_upsample_image_bytes < 3 * bytes + 3,
        planes.epf_sigma is Some <==> stages.epf,
        planes.epf_sigma matches Some(bytes) ==> bytes == memory.epf_sigma_bytes,
        planes.lf_temporary is Some <==> memory.lf_temporary_bytes > 0,
        planes.stream_window is Some <==> memory.packet_stream_window_bytes > 0,
        planes.pre_restoration@[c] is Some <==> memory.component_upsample_bytes > 0 && (
        shifts@[c].horizontal > 0 || shifts@[c].vertical > 0),
        planes.pre_restoration@[c] matches Some(bytes) ==> bytes * subsampled_channels(*shifts)
            <= memory.component_upsample_bytes < (bytes + 1) * subsampled_channels(*shifts),
{
    assert(planes.pre_restoration[c] == planes.pre_restoration@[c]);
    assert(shifts[c] == shifts@[c]);
    let k = subsampled_channels(*shifts);
    if shifts[c].subsampled() {
        assert(c == 0 || c == 1 || c == 2);
        assert(k >= 1);
        let b = memory.component_upsample_bytes as int;
        vstd::arithmetic::div_mod::lemma_fundamental_div_mod(b, k);
        vstd::arithmetic::div_mod::lemma_mod_bound(b, k);
        vstd::arithmetic::div_mod::lemma_div_nonincreasing(b, k);
        vstd::arithmetic::div_mod::lemma_div_pos_is_pos(b, k);
        let q = b / k;
        assert(q * k == k * q && (q + 1) * k == k * q + k) by (nonlinear_arith);
    }
}

/// What the statuses of a group must report: the samples of its three LF channels, or none behind
/// an LF frame; its coefficients; its blocks; the cells of sixty-four by sixty-four samples that
/// cover it; and the frame's own quantization.
pub proof fn law_expected_statuses(
    packet: &Packet,
    expected: Vec<VarDctGroupValidation>,
    cells: (int, int),
    i: int,
)
    requires
        call_ensures(
            expect_groups,
            (packet,),
            Ok::<Vec<VarDctGroupValidation>, VarDctDecodeError>(expected),
        ),
        0 <= i < packet.groups@.len(),
        64 * (cells.0 - 1) < packet.groups@[i].width <= 64 * cells.0,
        64 * (cells.1 - 1) < packet.groups@[i].height <= 64 * cells.1,
    ensures
        expected@.len() == packet.groups@.len(),
        ({
            let group = packet.groups@[i];
            let extents = group.lf_extents@;
            let expect = expected@[i];
            &&& packet.uses_lf_frame ==> expect.expected_lf_samples == 0
            &&& !packet.uses_lf_frame ==> expect.expected_lf_samples == extents[0]@[0]
                * extents[0]@[1] + extents[1]@[0] * extents[1]@[1] + extents[2]@[0] * extents[2]@[1]
            &&& expect.expected_coefficients == group.coefficient_words
            &&& expect.expected_blocks == group.blocks@[0] * group.blocks@[1]
            &&& expect.correlation_samples == cells.0 * cells.1
            &&& expect.task_capacity == group.task_capacity
            &&& expect.expected_global_scale == packet.global_scale
            &&& expect.expected_quant_lf == packet.quant_lf
            &&& expect.expected_extra_precision == group.extra_precision
        }),
{
    let group = packet.groups@[i];
    lemma_validation_accepted(packet, 0, i);
    lemma_ceil_div(group.width as int, 64);
    lemma_ceil_div(group.height as int, 64);
    assert(ceil_div(group.width as int, 64) == cells.0);
    assert(ceil_div(group.height as int, 64) == cells.1);
    assert(0 <= cells.0 * cells.1) by (nonlinear_arith)
        requires
            0 <= cells.0,
            0 <= cells.1,
    ;
    let e = group.lf_extents;
    assert(e[0][0] * e[0][1] >= 0 && e[1][0] * e[1][1] >= 0 && e[2][0] * e[2][1] >= 0
        && group.blocks[0] * group.blocks[1] >= 0) by (nonlinear_arith);
}

/// No group of an accepted frame is refused on its own.
proof fn lemma_validation_accepted(packet: &Packet, from: int, i: int)
    requires
        0 <= from <= i < packet.groups@.len(),
        validations_refusal(packet, from) is None,
    ensures
        validation_refusal(packet, packet.groups@[i]) is None,
    decreases i - from,
{
    if from < i {
        lemma_validation_accepted(packet, from + 1, i);
    }
}

/// A restoration writes the coefficients of each component at its plane, in its rows and columns of
/// blocks, and its quantizers at theirs; a channel without a component is written nowhere. Each
/// channel has its own shift.
pub proof fn law_restore_outputs(
    layout: &JpegCoefficientLayout,
    shifts: [VarDctChannelShift; 3],
    groups: &Vec<RestoreGroup>,
    most: u32,
    dispatches: Vec<RestoreDispatch>,
    i: int,
    c: int,
)
    requires
        layout@.wf(),
        call_ensures(
            encode_restore,
            (layout, shifts, groups, most),
            Ok::<Vec<RestoreDispatch>, VarDctDecodeError>(dispatches),
        ),
        0 <= i < groups@.len(),
        0 <= c < 3,
    ensures
        ({
            let words = dispatches@[i].words@;
            &&& forall|p: int|
                0 <= p < layout@.planes.len() && (#[trigger] layout@.planes[p]).channel == c && (
                forall|q: int|
                    p < q < layout@.planes.len() ==> (#[trigger] layout@.planes[q]).channel != c)
                    ==> words.subrange(12 + 4 * c, 16 + 4 * c) == seq![
                    layout@.planes[p].offset as u32,
                    layout@.planes[p].columns as u32,
                    layout@.planes[p].rows as u32,
                    layout@.planes[p].quantization as u32,
                ]
            &&& (forall|p: int|
                0 <= p < layout@.planes.len() ==> (#[trigger] layout@.planes[p]).channel != c)
                ==> words[12 + 4 * c] == u32::MAX
            &&& words[24 + 4 * c] == shifts@[c].horizontal
            &&& words[25 + 4 * c] == shifts@[c].vertical
        }),
{
    let group = groups@[i];
    let columns = restore_columns(group, most);
    assert(dispatches@[i].columns == columns);
    let n = layout@.planes.len() as int;
    crate::vardct_engine::execution::restore::lemma_output_words(layout@.planes, 0, n);
    crate::vardct_engine::execution::restore::lemma_output_words(layout@.planes, 1, n);
    crate::vardct_engine::execution::restore::lemma_output_words(layout@.planes, 2, n);
    let words = dispatches@[i].words@;
    assert(words == restore_words(
        group,
        layout@.planes,
        shifts,
        layout@.rgb,
        layout@.cfl,
        columns,
    ));
    assert(c == 0 || c == 1 || c == 2);
    assert(words.subrange(12 + 4 * c, 16 + 4 * c) =~= channel_output(layout@.planes, c, n));
    assert forall|p: int|
        0 <= p < n && (#[trigger] layout@.planes[p]).channel == c && (forall|q: int|
            p < q < n ==> (#[trigger] layout@.planes[q]).channel != c) implies words.subrange(
        12 + 4 * c,
        16 + 4 * c,
    ) == seq![
        layout@.planes[p].offset as u32,
        layout@.planes[p].columns as u32,
        layout@.planes[p].rows as u32,
        layout@.planes[p].quantization as u32,
    ] by {
        lemma_channel_output(layout@.planes, c, n, p);
    }
    if forall|p: int| 0 <= p < n ==> (#[trigger] layout@.planes[p]).channel != c {
        lemma_no_output(layout@.planes, c, n);
        assert(words[12 + 4 * c] == words.subrange(12 + 4 * c, 16 + 4 * c)[0]);
    }
}

/// The statuses of a frame in one buffer: the packet records one behind the other from its start,
/// the artifact records of sixty-four bytes one behind the other from the end of the packet records,
/// taken from each artifact's own status, then the coefficient records one behind the other, and the
/// record of the output at the end of the buffer where there is one.
pub proof fn law_status_records(
    plans: &Vec<GroupPlan>,
    packet_status: u64,
    packet_end: u64,
    hf: Option<&Vec<HfGroupBytes>>,
    output_status: u64,
    staging: u64,
    copies: Vec<StatusCopy>,
    i: int,
    j: int,
)
    requires
        packet_status <= 0x1_0000,
        plans@.len() <= 0x1_0000_0000,
        output_status <= staging,
        call_ensures(
            plan_status,
            (plans, packet_status, packet_end, hf, output_status, staging),
            Ok::<Vec<StatusCopy>, VarDctDecodeError>(copies),
        ),
        0 <= i < plans@.len(),
        0 <= j,
    ensures
        ({
            let n = plans@.len() as int;
            let decoders = if hf is Some { hf->0@.len() as int } else { 0 };
            let (packet, artifact) = (copies@[2 * i], copies@[2 * i + 1]);
            &&& copies@.len() == 2 * n + decoders + if output_status > 0 { 1int } else { 0 }
            &&& packet.kind == StatusKind::Packet && packet.group == i
            &&& packet.bytes == packet_status && packet.source_offset == 0
            &&& i == 0 ==> packet.offset == 0
            &&& i + 1 < n ==> copies@[2 * i + 2].offset == packet.offset + packet_status
            &&& artifact.kind == StatusKind::Artifact && artifact.group == i
            &&& artifact.bytes == 64
            &&& artifact.source_offset == 4 * plans@[i].artifact_layout.status_offset_words
            &&& artifact.offset == packet_end + 64 * i
            &&& j < decoders ==> {
                let record = copies@[2 * n + j];
                &&& record.kind == StatusKind::Coefficients && record.group == j
                &&& record.bytes == hf->0@[j].status && record.source_offset == 0
                &&& j == 0 ==> record.offset == packet_end + 64 * n
                &&& j + 1 < decoders ==> copies@[2 * n + j + 1].offset == record.offset
                    + record.bytes
            }
            &&& output_status > 0 ==> {
                let record = copies@[2 * n + decoders];
                &&& record.kind == StatusKind::Output
                &&& record.bytes == output_status
                &&& record.offset + record.bytes == staging
            }
        }),
{
    let n = plans@.len() as int;
    let p = packet_status as int;
    let decoders = crate::vardct_engine::execution::submit::hf_or_none(hf_view(hf));
    assert((2 * i) % 2 == 0 && (2 * i) / 2 == i);
    assert((2 * i + 1) % 2 == 1 && (2 * i + 1) / 2 == i);
    assert((2 * i + 2) % 2 == 0 && (2 * i + 2) / 2 == i + 1);
    assert(plans.len() == n);
    if let Some(groups) = hf {
        assert(groups.len() == decoders.len());
    }
    assert(copies@[2 * i].offset == (i * p) as u64);
    assert((i + 1) * p == i * p + p) by (nonlinear_arith);
    assert(0 <= i * p <= 0x1_0000_0000 * 0x1_0000 && 0 * p == 0) by (nonlinear_arith)
        requires
            0 <= i <= 0x1_0000_0000,
            0 <= p <= 0x1_0000,
    ;
    if i + 1 < n {
        assert(copies@[2 * i + 2].offset == ((i + 1) * p) as u64);
    }
    assert(copies@[2 * i + 1].offset == (packet_end + i * 64) as u64);
    crate::vardct_engine::execution::submit::lemma_hf_status(
        decoders,
        0,
        decoders.len() as int,
    );
    if j < decoders.len() {
        crate::vardct_engine::execution::submit::lemma_hf_status(
            decoders,
            j,
            decoders.len() as int,
        );
        crate::vardct_engine::execution::submit::lemma_hf_status(
            decoders,
            j + 1,
            decoders.len() as int,
        );
        assert(copies@[2 * n + j] == copies@[2 * n + j]);
        if j + 1 < decoders.len() {
            assert(copies@[2 * n + j + 1] == copies@[2 * n + j + 1]);
        }
    }
    if output_status > 0 {
        assert(copies@[2 * n + decoders.len()] == copies@[2 * n + decoders.len()]);
    }
}

} // verus!
