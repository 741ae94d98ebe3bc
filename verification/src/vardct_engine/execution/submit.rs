//! Everything about a frame's submission that is known before its commands are recorded.

use crate::arith::{ceil_div, div_ceil_u32};
use crate::vardct_artifact::VarDctArtifactLayout;
use crate::vardct_engine::source::{
    hf_at, hf_group, hf_view, subsampled_channels, GroupPlan, HfGroupBytes, Packet, PacketGroup,
    VarDctDecodeMemoryStats,
};
use crate::vardct_engine::types::VarDctDecodeError;
use crate::vardct_frontend::VarDctChannelShift;
use vstd::prelude::*;

verus! {

/// Bytes of one group's lowering status.
pub const ARTIFACT_STATUS_BYTES: u64 = 64;

/// Which continuations wait for a mapped status.
#[derive(Clone, Copy, Debug, PartialEq, Eq, Structural)]
pub struct Staging {
    /// LF cursors are mapped before HF packets are parsed.
    pub lf: bool,
    /// LF extra channels are decoded before anything else.
    pub lf_extras: bool,
    /// HF-metadata cursors are mapped before the HF-global prefix is parsed.
    pub hf_global: bool,
    /// Every group has Modular metadata of its own.
    pub group_metadata: bool,
}

/// Packet windows of a frame.
#[derive(Clone, Copy, Debug, PartialEq, Eq, Structural)]
pub struct PacketWindows {
    /// Packets are read through stream windows.
    pub windowed: bool,
    /// One dispatch decodes LF and HF parts of a packet.
    pub fuses_stages: bool,
    /// Batches that read HF parts alone.
    pub hf_batches: usize,
}

/// HF-global staging follows a GPU cursor, and a raw matrix behind eager HF-only windows uses
/// the same continuation.
pub open spec fn staging_of(packet: &Packet, windows: PacketWindows) -> Staging {
    Staging {
        lf: packet.requires_lf_staging,
        lf_extras: packet.requires_lf_extra_staging,
        hf_global: (packet.requires_hf_global_staging && !windows.fuses_stages) || (
        packet.pending_raw_matrix && windows.hf_batches != 0),
        group_metadata: packet.requires_lf_staging || packet.uses_lf_frame,
    }
}

/// Which continuations wait for a mapped status.
pub fn plan_staging(packet: &Packet, windows: PacketWindows) -> (staging: Staging)
    ensures
        staging == staging_of(packet, windows),
{
    Staging {
        lf: packet.requires_lf_staging,
        lf_extras: packet.requires_lf_extra_staging,
        hf_global: (packet.requires_hf_global_staging && !windows.fuses_stages) || (
        packet.pending_raw_matrix && windows.hf_batches != 0),
        group_metadata: packet.requires_lf_staging || packet.uses_lf_frame,
    }
}

/// Buffers of one LF group.
#[derive(Clone, Copy, Debug, PartialEq, Eq, Structural)]
pub struct GroupBuffers {
    pub reconstruction: u64,
    pub raw_metadata: u64,
    pub coefficients: u64,
    pub packet_status: u64,
    pub artifact: u64,
    pub occupancy: u64,
}

/// Coefficient decoder bytes of group `i`: those of its plan, else those that were admitted
/// for a plan that is still to come.
pub open spec fn decoder_bytes(
    hf: Option<Seq<HfGroupBytes>>,
    deferred: Option<Seq<HfGroupBytes>>,
    i: int,
) -> HfGroupBytes {
    match hf {
        Some(groups) if 0 <= i < groups.len() => groups[i],
        _ => hf_group(deferred, i),
    }
}

/// Bytes of one group's LF reconstruction and decoder state.
pub open spec fn group_reconstruction(group: PacketGroup, decoder: HfGroupBytes) -> int {
    group.reconstructed_words * 4 + decoder.lz77_scratch + decoder.execution_state
}

/// The buffers of one group.
pub open spec fn buffers_of(
    group: PacketGroup,
    layout: VarDctArtifactLayout,
    decoder: HfGroupBytes,
    packet_status: u64,
) -> GroupBuffers {
    GroupBuffers {
        reconstruction: group_reconstruction(group, decoder) as u64,
        raw_metadata: (group.raw_metadata_words * 4) as u64,
        coefficients: (group.coefficient_words * 4) as u64,
        packet_status,
        artifact: layout.artifact_bytes,
        occupancy: layout.occupancy_bytes,
    }
}

/// Some group's reconstruction buffer does not fit a machine word.
pub open spec fn buffers_overflow(
    groups: Seq<PacketGroup>,
    hf: Option<Seq<HfGroupBytes>>,
    deferred: Option<Seq<HfGroupBytes>>,
) -> bool {
    exists|i: int|
        0 <= i < groups.len() && group_reconstruction(
            #[trigger] groups[i],
            decoder_bytes(hf, deferred, i),
        ) > u64::MAX
}

/// Why the groups of a frame have no buffers.
pub open spec fn group_buffers_refusal(
    packet: &Packet,
    plans: int,
    hf: Option<Seq<HfGroupBytes>>,
    deferred: Option<Seq<HfGroupBytes>>,
) -> Option<VarDctDecodeError> {
    let n = packet.groups@.len();
    if plans != n {
        Some(
            VarDctDecodeError::GroupPlanCount {
                component: "packet source",
                expected: n as usize,
                actual: plans as usize,
            },
        )
    } else if hf matches Some(groups) && groups.len() != n {
        Some(
            VarDctDecodeError::GroupPlanCount {
                component: "HF coefficient",
                expected: n as usize,
                actual: hf->0.len() as usize,
            },
        )
    } else if buffers_overflow(packet.groups@, hf, deferred) {
        Some(
            VarDctDecodeError::ArithmeticOverflow {
                field: "LF-group reconstruction, HF LZ77, and execution-state bytes",
            },
        )
    } else {
        None
    }
}

/// Coefficient decoder bytes of group `i`.
fn decoder_at(
    hf: Option<&Vec<HfGroupBytes>>,
    deferred: Option<&Vec<HfGroupBytes>>,
    i: usize,
) -> (bytes: HfGroupBytes)
    ensures
        bytes == decoder_bytes(hf_view(hf), hf_view(deferred), i as int),
{
    match hf {
        Some(groups) => {
            if i < groups.len() {
                groups[i]
            } else {
                hf_at(deferred, i)
            }
        },
        None => hf_at(deferred, i),
    }
}

/// The buffers of every LF group.
pub fn plan_group_buffers(
    packet: &Packet,
    plans: &Vec<GroupPlan>,
    hf: Option<&Vec<HfGroupBytes>>,
    deferred: Option<&Vec<HfGroupBytes>>,
    packet_status: u64,
) -> (r: Result<Vec<GroupBuffers>, VarDctDecodeError>)
    ensures
        match group_buffers_refusal(
            packet,
            plans@.len() as int,
            hf_view(hf),
            hf_view(deferred),
        ) {
            Some(error) => r == Err::<Vec<GroupBuffers>, VarDctDecodeError>(error),
            None => r matches Ok(buffers) && buffers@.len() == packet.groups@.len() && forall|
                i: int,
            |
                0 <= i < buffers@.len() ==> #[trigger] buffers@[i] == buffers_of(
                    packet.groups@[i],
                    plans@[i].artifact_layout,
                    decoder_bytes(hf_view(hf), hf_view(deferred), i),
                    packet_status,
                ),
        },
{
    let n: usize = packet.groups.len();
    if plans.len() != n {
        return Err(
            VarDctDecodeError::GroupPlanCount {
                component: "packet source",
                expected: n,
                actual: plans.len(),
            },
        );
    }
    match hf {
        Some(groups) => {
            if groups.len() != n {
                return Err(
                    VarDctDecodeError::GroupPlanCount {
                        component: "HF coefficient",
                        expected: n,
                        actual: groups.len(),
                    },
                );
            }
        },
        None => {},
    }
    let mut buffers: Vec<GroupBuffers> = Vec::new();
    let mut i: usize = 0;
    while i < n
        invariant
            n == packet.groups@.len(),
            n == plans@.len(),
            i <= n,
            hf_view(hf) matches Some(groups) ==> groups.len() == n,
            buffers@.len() == i,
            forall|k: int|
                0 <= k < i ==> group_reconstruction(
                    #[trigger] packet.groups@[k],
                    decoder_bytes(hf_view(hf), hf_view(deferred), k),
                ) <= u64::MAX,
            forall|k: int|
                0 <= k < i ==> #[trigger] buffers@[k] == buffers_of(
                    packet.groups@[k],
                    plans@[k].artifact_layout,
                    decoder_bytes(hf_view(hf), hf_view(deferred), k),
                    packet_status,
                ),
        decreases n - i,
    {
        let group = packet.groups[i];
        let layout = plans[i].artifact_layout;
        let decoder = decoder_at(hf, deferred, i);
        let words: u64 = group.reconstructed_words as u64 * 4;
        let sum: Option<u64> = match words.checked_add(decoder.lz77_scratch) {
            Some(sum) => sum.checked_add(decoder.execution_state),
            None => None,
        };
        let reconstruction: u64 = match sum {
            Some(sum) => sum,
            None => {
                assert(group_reconstruction(
                    packet.groups@[i as int],
                    decoder_bytes(hf_view(hf), hf_view(deferred), i as int),
                ) > u64::MAX);
                return Err(
                    VarDctDecodeError::ArithmeticOverflow {
                        field: "LF-group reconstruction, HF LZ77, and execution-state bytes",
                    },
                );
            },
        };
        buffers.push(
            GroupBuffers {
                reconstruction,
                raw_metadata: group.raw_metadata_words as u64 * 4,
                coefficients: group.coefficient_words as u64 * 4,
                packet_status,
                artifact: layout.artifact_bytes,
                occupancy: layout.occupancy_bytes,
            },
        );
        i = i + 1;
    }
    Ok(buffers)
}

/// Image planes of a frame; a missing size is no buffer.
#[derive(Clone, Copy, Debug, PartialEq, Eq)]
pub struct PlaneBuffers {
    pub resident: Option<[u64; 3]>,
    /// One full-size plane for each subsampled channel; the other channels keep their own.
    pub pre_restoration: [Option<u64>; 3],
    pub restoration: Option<u64>,
    pub frame_upsample: Option<u64>,
    pub epf_sigma: Option<u64>,
    pub lf_temporary: Option<u64>,
    pub stream_window: Option<u64>,
}

/// Which image stages a frame has.
#[derive(Clone, Copy, Debug, PartialEq, Eq, Structural)]
pub struct ImageStages {
    /// The output is an image.
    pub image: bool,
    pub gaborish: bool,
    pub epf: bool,
    pub upsampled: bool,
}

/// The full-size plane of one channel in front of restoration.
pub open spec fn pre_restoration_plane(
    shifts: [VarDctChannelShift; 3],
    bytes: u64,
    channel: int,
) -> Option<u64> {
    if bytes != 0 && shifts[channel].subsampled() {
        Some((bytes as int / subsampled_channels(shifts)) as u64)
    } else {
        None
    }
}

/// A buffer that exists where its size is not zero.
pub open spec fn nonzero(bytes: u64) -> Option<u64> {
    if bytes != 0 {
        Some(bytes)
    } else {
        None
    }
}

/// The planes of a frame.
pub open spec fn planes_match(
    planes: PlaneBuffers,
    shifts: [VarDctChannelShift; 3],
    memory: VarDctDecodeMemoryStats,
    stages: ImageStages,
) -> bool {
    &&& planes.resident == if stages.image {
        Some(memory.resident_plane_bytes)
    } else {
        None
    }
    &&& forall|c: int|
        0 <= c < 3 ==> #[trigger] planes.pre_restoration[c] == pre_restoration_plane(
            shifts,
            memory.component_upsample_bytes,
            c,
        )
    &&& planes.restoration == if stages.gaborish || stages.epf {
        Some((memory.restoration_scratch_bytes / 3) as u64)
    } else {
        None
    }
    &&& planes.frame_upsample == if stages.upsampled {
        Some((memory.frame_upsample_image_bytes / 3) as u64)
    } else {
        None
    }
    &&& planes.epf_sigma == if stages.epf {
        Some(memory.epf_sigma_bytes)
    } else {
        None
    }
    &&& planes.lf_temporary == nonzero(memory.lf_temporary_bytes)
    &&& planes.stream_window == nonzero(memory.packet_stream_window_bytes)
}

fn nonzero_bytes(bytes: u64) -> (r: Option<u64>)
    ensures
        r == nonzero(bytes),
{
    if bytes != 0 {
        Some(bytes)
    } else {
        None
    }
}

/// The planes of a frame.
pub fn plan_planes(
    shifts: &[VarDctChannelShift; 3],
    memory: &VarDctDecodeMemoryStats,
    stages: ImageStages,
) -> (planes: PlaneBuffers)
    ensures
        planes_match(planes, *shifts, *memory, stages),
{
    let bytes: u64 = memory.component_upsample_bytes;
    let x = shifts[0].is_subsampled();
    let y = shifts[1].is_subsampled();
    let b = shifts[2].is_subsampled();
    let mut shifted: u64 = 0;
    if x {
        shifted = shifted + 1;
    }
    if y {
        shifted = shifted + 1;
    }
    if b {
        shifted = shifted + 1;
    }
    let full: u64 = if shifted == 0 {
        0
    } else {
        bytes / shifted
    };
    let pre_restoration: [Option<u64>; 3] = [
        if bytes != 0 && x {
            Some(full)
        } else {
            None
        },
        if bytes != 0 && y {
            Some(full)
        } else {
            None
        },
        if bytes != 0 && b {
            Some(full)
        } else {
            None
        },
    ];
    PlaneBuffers {
        resident: if stages.image {
            Some(memory.resident_plane_bytes)
        } else {
            None
        },
        pre_restoration,
        restoration: if stages.gaborish || stages.epf {
            Some(memory.restoration_scratch_bytes / 3)
        } else {
            None
        },
        frame_upsample: if stages.upsampled {
            Some(memory.frame_upsample_image_bytes / 3)
        } else {
            None
        },
        epf_sigma: if stages.epf {
            Some(memory.epf_sigma_bytes)
        } else {
            None
        },
        lf_temporary: nonzero_bytes(memory.lf_temporary_bytes),
        stream_window: nonzero_bytes(memory.packet_stream_window_bytes),
    }
}

/// Entry point that a group's packet is decoded with.
#[derive(Clone, Copy, Debug, PartialEq, Eq, Structural)]
pub enum PacketEntry {
    /// LF samples alone.
    Lf,
    /// HF metadata up to the HF-global prefix.
    HfMetadata,
    /// HF metadata and coefficients behind an external LF image.
    Hf,
    /// Everything.
    Whole,
}

/// How the packets of a frame are decoded.
#[derive(Clone, Copy, Debug, PartialEq, Eq, Structural)]
pub enum PacketRoute {
    /// Nothing is decoded before the extra channels; the status buffer is cleared.
    ClearOnly,
    /// Stream windows, mapped where a continuation waits for them.
    Windowed { staged: bool },
    /// One dispatch for each group, whose status is copied where a continuation waits for it.
    Groups { entry: PacketEntry, copy_status: bool },
}

/// How the packets of a frame are decoded.
pub open spec fn packet_route(packet: &Packet, staging: Staging, windowed: bool) -> PacketRoute {
    let staged = staging.lf || staging.hf_global;
    if staging.lf_extras {
        PacketRoute::ClearOnly
    } else if windowed {
        PacketRoute::Windowed { staged }
    } else {
        PacketRoute::Groups {
            entry: if packet.uses_lf_frame {
                if staging.hf_global {
                    PacketEntry::HfMetadata
                } else {
                    PacketEntry::Hf
                }
            } else if staged {
                PacketEntry::Lf
            } else {
                PacketEntry::Whole
            },
            copy_status: staged,
        }
    }
}

/// How the packets of a frame are decoded.
pub fn plan_packet_route(packet: &Packet, staging: Staging, windowed: bool) -> (route: PacketRoute)
    ensures
        route == packet_route(packet, staging, windowed),
{
    let staged = staging.lf || staging.hf_global;
    if staging.lf_extras {
        PacketRoute::ClearOnly
    } else if windowed {
        PacketRoute::Windowed { staged }
    } else {
        let entry = if packet.uses_lf_frame {
            if staging.hf_global {
                PacketEntry::HfMetadata
            } else {
                PacketEntry::Hf
            }
        } else if staged {
            PacketEntry::Lf
        } else {
            PacketEntry::Whole
        };
        PacketRoute::Groups { entry, copy_status: staged }
    }
}

/// Where dequantized LF samples come from and go to.
#[derive(Clone, Copy, Debug, PartialEq, Eq, Structural)]
pub enum LfRoute {
    /// An earlier LF frame is packed into the resources.
    External,
    /// Samples go straight into the resources.
    Direct,
    /// Samples go into a temporary, then smoothed into the resources.
    Smoothed,
}

/// The route of LF samples, or why there is none.
pub open spec fn lf_route(
    packet: &Packet,
    external_lf: bool,
    smoothing: bool,
    temporary: bool,
    groups: int,
) -> Result<LfRoute, VarDctDecodeError> {
    if packet.uses_lf_frame {
        if external_lf {
            Ok(LfRoute::External)
        } else {
            Err(VarDctDecodeError::MissingProgressiveDcSource)
        }
    } else if smoothing && !temporary {
        Err(
            VarDctDecodeError::EngineContract {
                detail: "adaptive LF smoothing has no temporary buffer",
            },
        )
    } else if groups == 0 {
        Err(
            VarDctDecodeError::GroupPlanCount {
                component: "packet source",
                expected: 1,
                actual: 0,
            },
        )
    } else if smoothing {
        Ok(LfRoute::Smoothed)
    } else {
        Ok(LfRoute::Direct)
    }
}

/// The route of LF samples.
pub fn plan_lf_route(
    packet: &Packet,
    external_lf: bool,
    smoothing: bool,
    temporary: bool,
    groups: usize,
) -> (r: Result<LfRoute, VarDctDecodeError>)
    ensures
        r == lf_route(packet, external_lf, smoothing, temporary, groups as int),
{
    if packet.uses_lf_frame {
        if external_lf {
            return Ok(LfRoute::External);
        }
        return Err(VarDctDecodeError::MissingProgressiveDcSource);
    }
    if smoothing && !temporary {
        return Err(
            VarDctDecodeError::EngineContract {
                detail: "adaptive LF smoothing has no temporary buffer",
            },
        );
    }
    if groups == 0 {
        return Err(
            VarDctDecodeError::GroupPlanCount {
                component: "packet source",
                expected: 1,
                actual: 0,
            },
        );
    }
    if smoothing {
        Ok(LfRoute::Smoothed)
    } else {
        Ok(LfRoute::Direct)
    }
}

/// Whose status a record is.
#[derive(Clone, Copy, Debug, PartialEq, Eq, Structural)]
pub enum StatusKind {
    Packet,
    Artifact,
    Coefficients,
    Output,
}

/// One status record that is copied into the validation buffer.
#[derive(Clone, Copy, Debug, PartialEq, Eq, Structural)]
pub struct StatusCopy {
    pub kind: StatusKind,
    pub group: usize,
    pub source_offset: u64,
    pub offset: u64,
    pub bytes: u64,
}

/// Bytes of the coefficient statuses of the first `n` groups.
pub open spec fn hf_status_bytes(hf: Seq<HfGroupBytes>, n: int) -> int
    decreases n,
{
    if n <= 0 {
        0
    } else {
        hf_status_bytes(hf, n - 1) + hf[n - 1].status
    }
}

/// End of the packet and artifact records of `groups` groups.
pub open spec fn artifact_end(packet_end: int, groups: int) -> int {
    packet_end + groups * ARTIFACT_STATUS_BYTES
}

/// Record `k` of a frame: packet and artifact records alternate group by group, then follow the
/// coefficient records, then the record of the output.
pub open spec fn status_copy(
    plans: Seq<GroupPlan>,
    packet_status: u64,
    packet_end: u64,
    hf: Seq<HfGroupBytes>,
    output_status: u64,
    staging: u64,
    k: int,
) -> StatusCopy {
    let n = plans.len();
    if k < 2 * n {
        let i = k / 2;
        if k % 2 == 0 {
            StatusCopy {
                kind: StatusKind::Packet,
                group: i as usize,
                source_offset: 0,
                offset: (i * packet_status) as u64,
                bytes: packet_status,
            }
        } else {
            StatusCopy {
                kind: StatusKind::Artifact,
                group: i as usize,
                source_offset: (plans[i].artifact_layout.status_offset_words * 4) as u64,
                offset: artifact_end(packet_end as int, i) as u64,
                bytes: ARTIFACT_STATUS_BYTES,
            }
        }
    } else if k < 2 * n + hf.len() {
        let i = k - 2 * n;
        StatusCopy {
            kind: StatusKind::Coefficients,
            group: i as usize,
            source_offset: 0,
            offset: (artifact_end(packet_end as int, n as int) + hf_status_bytes(hf, i)) as u64,
            bytes: hf[i].status,
        }
    } else {
        StatusCopy {
            kind: StatusKind::Output,
            group: 0,
            source_offset: 0,
            offset: (staging - output_status) as u64,
            bytes: output_status,
        }
    }
}

/// Why status records cannot be collected.
pub open spec fn status_refusal(groups: int, packet_end: u64, hf: Seq<HfGroupBytes>) -> Option<
    VarDctDecodeError,
> {
    if artifact_end(packet_end as int, groups) > u64::MAX {
        Some(VarDctDecodeError::ArithmeticOverflow { field: "artifact status staging end" })
    } else if artifact_end(packet_end as int, groups) + hf_status_bytes(hf, hf.len() as int)
        > u64::MAX {
        Some(VarDctDecodeError::ArithmeticOverflow { field: "HF status staging offset" })
    } else {
        None
    }
}

pub(crate) proof fn lemma_hf_status(hf: Seq<HfGroupBytes>, i: int, n: int)
    requires
        0 <= i <= n <= hf.len(),
    ensures
        0 <= hf_status_bytes(hf, i) <= hf_status_bytes(hf, n),
    decreases n,
{
    if n > 0 {
        if i < n {
            lemma_hf_status(hf, i, n - 1);
        } else {
            lemma_hf_status(hf, n - 1, n - 1);
        }
    }
}

/// Coefficient decoders that a frame has so far.
pub open spec fn hf_or_none(hf: Option<Seq<HfGroupBytes>>) -> Seq<HfGroupBytes> {
    match hf {
        Some(groups) => groups,
        None => Seq::empty(),
    }
}

/// Where every status record of a frame is collected.
pub fn plan_status(
    plans: &Vec<GroupPlan>,
    packet_status: u64,
    packet_end: u64,
    hf: Option<&Vec<HfGroupBytes>>,
    output_status: u64,
    staging: u64,
) -> (r: Result<Vec<StatusCopy>, VarDctDecodeError>)
    requires
        packet_status <= 0x1_0000,
        plans@.len() <= 0x1_0000_0000,
        output_status <= staging,
    ensures
        match status_refusal(plans@.len() as int, packet_end, hf_or_none(hf_view(hf))) {
            Some(error) => r == Err::<Vec<StatusCopy>, VarDctDecodeError>(error),
            None => r matches Ok(copies) && ({
                let decoders = hf_or_none(hf_view(hf));
                let records = 2 * plans@.len() + decoders.len();
                &&& copies@.len() == records + if output_status != 0 {
                    1int
                } else {
                    0
                }
                &&& forall|k: int|
                    0 <= k < copies@.len() ==> #[trigger] copies@[k] == status_copy(
                        plans@,
                        packet_status,
                        packet_end,
                        decoders,
                        output_status,
                        staging,
                        k,
                    )
            }),
        },
{
    let ghost decoders = hf_or_none(hf_view(hf));
    let n: usize = plans.len();
    let end: u64 = match packet_end.checked_add(n as u64 * ARTIFACT_STATUS_BYTES) {
        Some(end) => end,
        None => {
            return Err(
                VarDctDecodeError::ArithmeticOverflow { field: "artifact status staging end" },
            );
        },
    };
    let mut copies: Vec<StatusCopy> = Vec::new();
    let mut i: usize = 0;
    while i < n
        invariant
            n == plans@.len(),
            n <= 0x1_0000_0000,
            packet_status <= 0x1_0000,
            end == artifact_end(packet_end as int, n as int),
            i <= n,
            copies@.len() == 2 * i,
            forall|k: int|
                0 <= k < copies@.len() ==> #[trigger] copies@[k] == status_copy(
                    plans@,
                    packet_status,
                    packet_end,
                    decoders,
                    output_status,
                    staging,
                    k,
                ),
        decreases n - i,
    {
        assert(0 <= i * packet_status <= 0x1_0000_0000 * 0x1_0000) by (nonlinear_arith)
            requires
                i <= 0x1_0000_0000,
                packet_status <= 0x1_0000,
        ;
        let ghost k = 2 * i as int;
        assert(k % 2 == 0 && k / 2 == i && (k + 1) % 2 == 1 && (k + 1) / 2 == i);
        copies.push(
            StatusCopy {
                kind: StatusKind::Packet,
                group: i,
                source_offset: 0,
                offset: i as u64 * packet_status,
                bytes: packet_status,
            },
        );
        copies.push(
            StatusCopy {
                kind: StatusKind::Artifact,
                group: i,
                source_offset: plans[i].artifact_layout.status_offset_words as u64 * 4,
                offset: packet_end + i as u64 * ARTIFACT_STATUS_BYTES,
                bytes: ARTIFACT_STATUS_BYTES,
            },
        );
        i = i + 1;
    }
    match hf {
        Some(groups) => {
            assert(decoders == groups@);
            let mut offset: u64 = end;
            let mut i: usize = 0;
            while i < groups.len()
                invariant
                    decoders == groups@,
                    n == plans@.len(),
                    end == artifact_end(packet_end as int, n as int),
                    i <= groups@.len(),
                    offset == end + hf_status_bytes(decoders, i as int),
                    copies@.len() == 2 * n + i,
                    decoders == hf_or_none(hf_view(hf)),
                    forall|k: int|
                        0 <= k < copies@.len() ==> #[trigger] copies@[k] == status_copy(
                            plans@,
                            packet_status,
                            packet_end,
                            decoders,
                            output_status,
                            staging,
                            k,
                        ),
                decreases groups@.len() - i,
            {
                let bytes: u64 = groups[i].status;
                copies.push(
                    StatusCopy {
                        kind: StatusKind::Coefficients,
                        group: i,
                        source_offset: 0,
                        offset,
                        bytes,
                    },
                );
                proof {
                    lemma_hf_status(decoders, i + 1, decoders.len() as int);
                }
                offset =
                match offset.checked_add(bytes) {
                    Some(offset) => offset,
                    None => {
                        return Err(
                            VarDctDecodeError::ArithmeticOverflow {
                                field: "HF status staging offset",
                            },
                        );
                    },
                };
                i = i + 1;
            }
        },
        None => {},
    }
    if output_status != 0 {
        copies.push(
            StatusCopy {
                kind: StatusKind::Output,
                group: 0,
                source_offset: 0,
                offset: staging - output_status,
                bytes: output_status,
            },
        );
    }
    Ok(copies)
}

/// Records of a frame do not overlap: packet records end at `packet_end`, artifact records fill
/// the space behind it, coefficient records follow one another, and where the validation buffer
/// is as large as all records the output record ends it.
pub proof fn law_status_tiles(
    plans: Seq<GroupPlan>,
    packet_status: u64,
    hf: Seq<HfGroupBytes>,
    output_status: u64,
    i: int,
    j: int,
)
    requires
        plans.len() <= 0x1_0000_0000,
        packet_status <= 0x1_0000,
        0 <= i < plans.len(),
        0 <= j < hf.len(),
        plans.len() * (packet_status + ARTIFACT_STATUS_BYTES) + hf_status_bytes(
            hf,
            hf.len() as int,
        ) + output_status <= u64::MAX,
    ensures
        ({
            let n = plans.len() as int;
            let packet_end = (n * packet_status) as u64;
            let staging = (n * (packet_status + ARTIFACT_STATUS_BYTES) + hf_status_bytes(
                hf,
                hf.len() as int,
            ) + output_status) as u64;
            let at = |k: int|
                status_copy(plans, packet_status, packet_end, hf, output_status, staging, k);
            let end = |k: int| at(k).offset + at(k).bytes;
            &&& at(0).offset == 0
            &&& i + 1 < n ==> end(2 * i) == at(2 * (i + 1)).offset
            &&& i + 1 == n ==> end(2 * i) == at(1).offset
            &&& i + 1 < n ==> end(2 * i + 1) == at(2 * (i + 1) + 1).offset
            &&& i + 1 == n ==> end(2 * i + 1) == at(2 * n).offset
            &&& end(2 * n + j) == at(2 * n + j + 1).offset
            &&& end(2 * n + hf.len() as int) == staging
        }),
{
    let n = plans.len() as int;
    let p = packet_status as int;
    let packet_end = n * p;
    lemma_hf_status(hf, j, hf.len() as int);
    lemma_hf_status(hf, j + 1, hf.len() as int);
    lemma_hf_status(hf, 0, hf.len() as int);
    assert(n * (p + 64) == n * p + n * 64) by (nonlinear_arith);
    assert((i + 1) * p == i * p + p) by (nonlinear_arith);
    assert(0 <= i * p && i * p + p <= n * p) by (nonlinear_arith)
        requires
            0 <= i < n,
            0 <= p,
    ;
    assert(0 * p == 0) by (nonlinear_arith);
    assert((2 * i) % 2 == 0 && (2 * i) / 2 == i);
    assert((2 * i + 1) % 2 == 1 && (2 * i + 1) / 2 == i);
    assert((2 * (i + 1)) % 2 == 0 && (2 * (i + 1)) / 2 == i + 1);
    assert((2 * (i + 1) + 1) % 2 == 1 && (2 * (i + 1) + 1) / 2 == i + 1);
}

/// What the statuses of one group must report.
#[derive(Clone, Copy, Debug, PartialEq, Eq, Structural)]
pub struct VarDctGroupValidation {
    pub expected_lf_samples: u32,
    pub expected_coefficients: u32,
    pub expected_blocks: u32,
    pub correlation_samples: u32,
    pub task_capacity: u32,
    pub expected_global_scale: u32,
    pub expected_quant_lf: u32,
    pub expected_extra_precision: u8,
}

/// LF samples of one group's three channels.
pub open spec fn lf_samples(group: PacketGroup) -> int {
    group.lf_extents[0][0] * group.lf_extents[0][1] + group.lf_extents[1][0]
        * group.lf_extents[1][1] + group.lf_extents[2][0] * group.lf_extents[2][1]
}

/// Chroma-from-luma cells of one group.
pub open spec fn correlation_cells(group: PacketGroup) -> int {
    ceil_div(group.width as int, 64) * ceil_div(group.height as int, 64)
}

/// Why the statuses of a group cannot be predicted.
pub open spec fn validation_refusal(packet: &Packet, group: PacketGroup) -> Option<
    VarDctDecodeError,
> {
    if group.blocks[0] * group.blocks[1] > u32::MAX {
        Some(VarDctDecodeError::ArithmeticOverflow { field: "LF-group validation block count" })
    } else if correlation_cells(group) > u32::MAX {
        Some(
            VarDctDecodeError::ArithmeticOverflow {
                field: "LF-group validation correlation samples",
            },
        )
    } else if !packet.uses_lf_frame && lf_samples(group) > u32::MAX {
        Some(VarDctDecodeError::ArithmeticOverflow { field: "LF-group validation sample count" })
    } else {
        None
    }
}

/// What the statuses of one group must report.
pub open spec fn validation_of(packet: &Packet, group: PacketGroup) -> VarDctGroupValidation {
    VarDctGroupValidation {
        expected_lf_samples: if packet.uses_lf_frame {
            0
        } else {
            lf_samples(group) as u32
        },
        expected_coefficients: group.coefficient_words,
        expected_blocks: (group.blocks[0] * group.blocks[1]) as u32,
        correlation_samples: correlation_cells(group) as u32,
        task_capacity: group.task_capacity,
        expected_global_scale: packet.global_scale,
        expected_quant_lf: packet.quant_lf,
        expected_extra_precision: group.extra_precision,
    }
}

/// The first group from `i` on whose statuses cannot be predicted.
pub open spec fn validations_refusal(packet: &Packet, i: int) -> Option<VarDctDecodeError>
    decreases packet.groups@.len() - i,
{
    if i >= packet.groups@.len() {
        None
    } else if validation_refusal(packet, packet.groups@[i]) is Some {
        validation_refusal(packet, packet.groups@[i])
    } else {
        validations_refusal(packet, i + 1)
    }
}

/// What the statuses of one group must report.
fn expect_group(packet: &Packet, group: &PacketGroup) -> (r: Result<
    VarDctGroupValidation,
    VarDctDecodeError,
>)
    ensures
        match validation_refusal(packet, *group) {
            Some(error) => r == Err::<VarDctGroupValidation, VarDctDecodeError>(error),
            None => r == Ok::<VarDctGroupValidation, VarDctDecodeError>(
                validation_of(packet, *group),
            ),
        },
{
    let expected_blocks: u32 = match group.blocks[0].checked_mul(group.blocks[1]) {
        Some(blocks) => blocks,
        None => {
            return Err(
                VarDctDecodeError::ArithmeticOverflow { field: "LF-group validation block count" },
            );
        },
    };
    let correlation_samples: u32 = match div_ceil_u32(group.width, 64).checked_mul(
        div_ceil_u32(group.height, 64),
    ) {
        Some(cells) => cells,
        None => {
            return Err(
                VarDctDecodeError::ArithmeticOverflow {
                    field: "LF-group validation correlation samples",
                },
            );
        },
    };
    let expected_lf_samples: u32 = if packet.uses_lf_frame {
        0
    } else {
        let x: [u32; 2] = group.lf_extents[0];
        let y: [u32; 2] = group.lf_extents[1];
        let b: [u32; 2] = group.lf_extents[2];
        let ghost total = lf_samples(*group);
        assert(0 <= x[0] * x[1] && 0 <= y[0] * y[1] && 0 <= b[0] * b[1]) by (nonlinear_arith);
        let samples: Option<u32> = match x[0].checked_mul(x[1]) {
            Some(x_samples) => match y[0].checked_mul(y[1]) {
                Some(y_samples) => match x_samples.checked_add(y_samples) {
                    Some(xy_samples) => match b[0].checked_mul(b[1]) {
                        Some(b_samples) => xy_samples.checked_add(b_samples),
                        None => None,
                    },
                    None => None,
                },
                None => None,
            },
            None => None,
        };
        match samples {
            Some(samples) => samples,
            None => {
                return Err(
                    VarDctDecodeError::ArithmeticOverflow {
                        field: "LF-group validation sample count",
                    },
                );
            },
        }
    };
    Ok(
        VarDctGroupValidation {
            expected_lf_samples,
            expected_coefficients: group.coefficient_words,
            expected_blocks,
            correlation_samples,
            task_capacity: group.task_capacity,
            expected_global_scale: packet.global_scale,
            expected_quant_lf: packet.quant_lf,
            expected_extra_precision: group.extra_precision,
        },
    )
}

/// What the statuses of every group must report.
pub fn expect_groups(packet: &Packet) -> (r: Result<Vec<VarDctGroupValidation>, VarDctDecodeError>)
    ensures
        match validations_refusal(packet, 0) {
            Some(error) => r == Err::<Vec<VarDctGroupValidation>, VarDctDecodeError>(error),
            None => r matches Ok(expected) && expected@.len() == packet.groups@.len() && forall|
                i: int,
            |
                0 <= i < expected@.len() ==> #[trigger] expected@[i] == validation_of(
                    packet,
                    packet.groups@[i],
                ),
        },
{
    let mut expected: Vec<VarDctGroupValidation> = Vec::new();
    let mut i: usize = 0;
    while i < packet.groups.len()
        invariant
            i <= packet.groups@.len(),
            expected@.len() == i,
            validations_refusal(packet, 0) == validations_refusal(packet, i as int),
            forall|k: int|
                0 <= k < i ==> #[trigger] expected@[k] == validation_of(packet, packet.groups@[k]),
        decreases packet.groups@.len() - i,
    {
        let validation = match expect_group(packet, &packet.groups[i]) {
            Ok(validation) => validation,
            Err(error) => {
                return Err(error);
            },
        };
        expected.push(validation);
        i = i + 1;
    }
    Ok(expected)
}

} // verus!
