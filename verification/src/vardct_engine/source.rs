//! Admission of one frame: stream windows, group resources and device limits.

use crate::arith::{ceil_div, div_ceil_u32, greatest, least, lemma_ceil_div, max_u64, min_u64};
use crate::vardct_artifact::{
    layout_of, layout_refusal, lowered, HfMetadataArtifactConfig, HfMetadataLoweringParams, LOWERING_PARAMS_BYTES, VarDctArtifactDeviceLimits, VarDctArtifactLayout,
};
use crate::restoration::{
    declared_filters, epf_matches, gaborish_of, restoration_config, EdgePreservingFilterInventory,
    EpfConfig, EpfPass, GaborishWeights, RestorationError, RestorationFilterInventory, ONE_BITS,
};
use crate::vardct_engine::restoration::{
    dequant_matrix_multiplier, matrix_multipliers, sigma_matches, VarDctEpfPlan,
};
use crate::vardct_engine::types::VarDctDecodeError;
use crate::vardct_frontend::VarDctChannelShift;
use vstd::prelude::*;

verus! {

/// What the device offers.
#[derive(Clone, Copy, Debug, PartialEq, Eq, Structural)]
pub struct DeviceLimits {
    pub max_buffer_size: u64,
    pub max_storage_buffer_binding_size: u64,
    pub max_uniform_buffer_binding_size: u64,
    pub max_compute_workgroup_storage_size: u32,
    pub max_compute_invocations_per_workgroup: u32,
    pub max_compute_workgroup_size_y: u32,
    pub max_compute_workgroups_per_dimension: u32,
    pub min_storage_buffer_offset_alignment: u32,
}

/// Bytes of the fixed records that cross the GPU boundary.
#[derive(Clone, Copy, Debug, PartialEq, Eq, Structural)]
pub struct RecordSizes {
    pub packet_status: u64,
    pub modular_params: u64,
    pub packet_control: u64,
    pub resource_params: u64,
    pub component_upsample_uniform: u64,
    pub epf_uniform: u64,
    pub adaptive_lf_workgroup: u64,
}

/// Bytes of one frame's GPU resources.
#[derive(Clone, Copy, Debug, PartialEq, Eq)]
pub struct VarDctDecodeMemoryStats {
    pub codestream_bytes: u64,
    pub modular_metadata_bytes: u64,
    pub packet_status_bytes: u64,
    pub packet_stream_window_bytes: u64,
    pub validation_staging_bytes: u64,
    pub lf_temporary_bytes: u64,
    pub resource_bytes: u64,
    pub hf_entropy_bundle_bytes: u64,
    pub hf_stream_window_bytes: u64,
    pub hf_params_bytes: u64,
    pub hf_order_table_bytes: u64,
    pub resident_plane_bytes: [u64; 3],
    pub component_upsample_bytes: u64,
    pub component_upsample_uniform_bytes: u64,
    pub restoration_scratch_bytes: u64,
    pub gaborish_uniform_bytes: u64,
    pub epf_sigma_bytes: u64,
    pub epf_sigma_uniform_bytes: u64,
    pub epf_filter_uniform_bytes: u64,
    pub frame_upsample_image_bytes: u64,
    pub frame_upsample_weight_bytes: u64,
    pub frame_upsample_uniform_bytes: u64,
    pub adaptive_lf_uniform_bytes: u64,
    pub output_uniform_bytes: u64,
    pub output_lease_bytes: u64,
    pub extra_arena_bytes: u64,
    pub transient_bytes: u64,
}

/// One LF group of a parsed packet.
#[derive(Clone, Copy, Debug, PartialEq, Eq)]
pub struct PacketGroup {
    pub x: u32,
    pub y: u32,
    pub width: u32,
    pub height: u32,
    pub blocks: [u32; 2],
    pub task_capacity: u32,
    pub coefficient_words: u32,
    /// Words of LF reconstruction, predictor state included where it is needed.
    pub reconstructed_words: u32,
    pub raw_metadata_words: u32,
    pub strategy_offset_words: u32,
    pub hf_mul_offset_words: u32,
    pub modular_metadata_words: u32,
    pub extra_precision: u8,
    /// Width and height of each LF channel.
    pub lf_extents: [[u32; 2]; 3],
    /// First bit of the group's packet.
    pub entry_bit_offset: u32,
}

/// Scratch and status bytes of one LF group's coefficient decoder.
#[derive(Clone, Copy, Debug, PartialEq, Eq, Structural)]
pub struct HfGroupBytes {
    pub lz77_scratch: u64,
    pub execution_state: u64,
    pub status: u64,
}

/// A packet as its parser left it.
#[derive(Debug)]
pub struct Packet {
    pub groups: Vec<PacketGroup>,
    pub uses_lf_frame: bool,
    pub needs_self_correcting: bool,
    /// LF cursors decide where local HF trees start.
    pub requires_lf_staging: bool,
    /// Extra channels are decoded before HF packets.
    pub requires_lf_extra_staging: bool,
    /// The HF-global prefix starts behind GPU-decoded metadata.
    pub requires_hf_global_staging: bool,
    /// The parser waits for a raw dequantization matrix.
    pub pending_raw_matrix: bool,
    pub channel_shifts: [VarDctChannelShift; 3],
    pub global_scale: u32,
    pub quant_lf: u32,
}

/// Refuses what the device does not offer.
pub fn check_limit(resource: &'static str, required: u64, available: u64) -> (r: Result<
    (),
    VarDctDecodeError,
>)
    ensures
        if required > available {
            r == Err::<(), VarDctDecodeError>(
                VarDctDecodeError::DeviceLimit { resource, required, available },
            )
        } else {
            r is Ok
        },
{
    if required > available {
        return Err(VarDctDecodeError::DeviceLimit { resource, required, available });
    }
    Ok(())
}

/// One bound on a resource.
#[derive(Clone, Copy, Debug, PartialEq, Eq)]
pub struct LimitCheck {
    pub resource: &'static str,
    pub required: u64,
    pub available: u64,
}

/// The first bound from `i` on that is exceeded.
pub open spec fn exceeded(checks: Seq<LimitCheck>, i: int) -> Option<VarDctDecodeError>
    decreases checks.len() - i,
{
    if i >= checks.len() {
        None
    } else if checks[i].required > checks[i].available {
        Some(
            VarDctDecodeError::DeviceLimit {
                resource: checks[i].resource,
                required: checks[i].required,
                available: checks[i].available,
            },
        )
    } else {
        exceeded(checks, i + 1)
    }
}

/// Refuses the first bound that is exceeded.
pub fn check_limits(checks: &Vec<LimitCheck>) -> (r: Result<(), VarDctDecodeError>)
    ensures
        match exceeded(checks@, 0) {
            Some(error) => r == Err::<(), VarDctDecodeError>(error),
            None => r is Ok,
        },
{
    let mut i: usize = 0;
    while i < checks.len()
        invariant
            i <= checks@.len(),
            exceeded(checks@, 0) == exceeded(checks@, i as int),
        decreases checks@.len() - i,
    {
        let bound = checks[i];
        match check_limit(bound.resource, bound.required, bound.available) {
            Ok(_) => {},
            Err(error) => {
                return Err(error);
            },
        }
        i = i + 1;
    }
    Ok(())
}

/// One GPU buffer and whether it is bound as storage.
#[derive(Clone, Copy, Debug, PartialEq, Eq)]
pub struct BufferNeed {
    pub resource: &'static str,
    pub bytes: u64,
    pub storage: bool,
}

/// Every buffer is bounded by its size, and a storage buffer by its binding too: the bounds of
/// the first `n` buffers.
pub open spec fn buffer_checks(needs: Seq<BufferNeed>, limits: DeviceLimits, n: int) -> Seq<
    LimitCheck,
>
    decreases n,
{
    if n <= 0 {
        Seq::empty()
    } else {
        let need = needs[n - 1];
        let size = buffer_checks(needs, limits, n - 1).push(
            LimitCheck {
                resource: need.resource,
                required: need.bytes,
                available: limits.max_buffer_size,
            },
        );
        if need.storage {
            size.push(
                LimitCheck {
                    resource: need.resource,
                    required: need.bytes,
                    available: limits.max_storage_buffer_binding_size,
                },
            )
        } else {
            size
        }
    }
}

/// Appends the bounds of buffers.
fn push_buffer_checks(needs: &Vec<BufferNeed>, limits: DeviceLimits) -> (checks: Vec<LimitCheck>)
    ensures
        checks@ == buffer_checks(needs@, limits, needs@.len() as int),
{
    let mut checks: Vec<LimitCheck> = Vec::new();
    let mut i: usize = 0;
    assert(checks@ =~= buffer_checks(needs@, limits, 0));
    while i < needs.len()
        invariant
            i <= needs@.len(),
            checks@ == buffer_checks(needs@, limits, i as int),
        decreases needs@.len() - i,
    {
        let need = needs[i];
        checks.push(
            LimitCheck {
                resource: need.resource,
                required: need.bytes,
                available: limits.max_buffer_size,
            },
        );
        if need.storage {
            checks.push(
                LimitCheck {
                    resource: need.resource,
                    required: need.bytes,
                    available: limits.max_storage_buffer_binding_size,
                },
            );
        }
        assert(checks@ =~= buffer_checks(needs@, limits, i + 1));
        i = i + 1;
    }
    checks
}

/// Coefficient decoder bytes of group `i`, or none.
pub open spec fn hf_group(hf: Option<Seq<HfGroupBytes>>, i: int) -> HfGroupBytes {
    match hf {
        Some(groups) if 0 <= i < groups.len() => groups[i],
        _ => HfGroupBytes { lz77_scratch: 0, execution_state: 0, status: 0 },
    }
}

/// Bytes of LF reconstruction and coefficient decoder state of one group.
pub open spec fn reconstruction_bytes(group: PacketGroup, hf: HfGroupBytes) -> int {
    group.reconstructed_words * 4 + hf.lz77_scratch + hf.execution_state
}

/// Subsampled channels.
pub open spec fn subsampled_channels(shifts: [VarDctChannelShift; 3]) -> int {
    (if shifts[0].subsampled() { 1int } else { 0 }) + (if shifts[1].subsampled() { 1int } else { 0 })
        + (if shifts[2].subsampled() { 1int } else { 0 })
}

/// The largest binding of each kind over all groups.
#[derive(Clone, Copy, Debug, PartialEq, Eq, Structural)]
pub struct GroupMaxima {
    pub reconstruction: u64,
    pub raw_metadata: u64,
    pub coefficients: u64,
    pub artifact: u64,
    pub occupancy: u64,
    pub modular_metadata: u64,
}

/// Executable view of the coefficient decoder bytes.
pub open spec fn hf_view(hf: Option<&Vec<HfGroupBytes>>) -> Option<Seq<HfGroupBytes>> {
    match hf {
        Some(groups) => Some(groups@),
        None => None,
    }
}

/// Some group's reconstruction does not fit a machine word.
pub open spec fn reconstruction_overflows(
    groups: Seq<PacketGroup>,
    hf: Option<Seq<HfGroupBytes>>,
) -> bool {
    exists|i: int|
        0 <= i < groups.len() && reconstruction_bytes(#[trigger] groups[i], hf_group(hf, i))
            > u64::MAX
}

/// The largest binding of each kind over the first `n` groups.
pub open spec fn maxima_of(
    groups: Seq<PacketGroup>,
    layouts: Seq<VarDctArtifactLayout>,
    hf: Option<Seq<HfGroupBytes>>,
    n: int,
) -> GroupMaxima
    decreases n,
{
    if n <= 0 {
        GroupMaxima {
            reconstruction: 0,
            raw_metadata: 0,
            coefficients: 0,
            artifact: 0,
            occupancy: 0,
            modular_metadata: 0,
        }
    } else {
        let before = maxima_of(groups, layouts, hf, n - 1);
        let group = groups[n - 1];
        GroupMaxima {
            reconstruction: greatest(
                before.reconstruction as int,
                reconstruction_bytes(group, hf_group(hf, n - 1)),
            ) as u64,
            raw_metadata: greatest(
                before.raw_metadata as int,
                group.raw_metadata_words * 4,
            ) as u64,
            coefficients: greatest(
                before.coefficients as int,
                group.coefficient_words * 4,
            ) as u64,
            artifact: greatest(
                before.artifact as int,
                layouts[n - 1].artifact_bytes as int,
            ) as u64,
            occupancy: greatest(
                before.occupancy as int,
                layouts[n - 1].occupancy_bytes as int,
            ) as u64,
            modular_metadata: greatest(
                before.modular_metadata as int,
                group.modular_metadata_words * 4,
            ) as u64,
        }
    }
}

/// The largest binding of each kind over all groups.
fn group_maxima(
    groups: &Vec<PacketGroup>,
    layouts: &Vec<VarDctArtifactLayout>,
    hf: Option<&Vec<HfGroupBytes>>,
) -> (r: Result<GroupMaxima, VarDctDecodeError>)
    requires
        layouts@.len() == groups@.len(),
    ensures
        if reconstruction_overflows(groups@, hf_view(hf)) {
            r == Err::<GroupMaxima, VarDctDecodeError>(
                VarDctDecodeError::ArithmeticOverflow {
                    field: "LF-group reconstruction binding bytes",
                },
            )
        } else {
            r == Ok::<GroupMaxima, VarDctDecodeError>(
                maxima_of(groups@, layouts@, hf_view(hf), groups@.len() as int),
            )
        },
{
    let mut maxima = GroupMaxima {
        reconstruction: 0,
        raw_metadata: 0,
        coefficients: 0,
        artifact: 0,
        occupancy: 0,
        modular_metadata: 0,
    };
    let mut i: usize = 0;
    while i < groups.len()
        invariant
            i <= groups@.len(),
            layouts@.len() == groups@.len(),
            maxima == maxima_of(groups@, layouts@, hf_view(hf), i as int),
            forall|k: int|
                0 <= k < i ==> reconstruction_bytes(
                    #[trigger] groups@[k],
                    hf_group(hf_view(hf), k),
                ) <= u64::MAX,
        decreases groups@.len() - i,
    {
        let group = groups[i];
        let layout = layouts[i];
        let decoder = hf_at(hf, i);
        let words: u64 = group.reconstructed_words as u64 * 4;
        let sum: Option<u64> = match words.checked_add(decoder.lz77_scratch) {
            Some(sum) => sum.checked_add(decoder.execution_state),
            None => None,
        };
        let reconstruction: u64 = match sum {
            Some(sum) => sum,
            None => {
                assert(reconstruction_bytes(groups@[i as int], hf_group(hf_view(hf), i as int))
                    > u64::MAX);
                return Err(
                    VarDctDecodeError::ArithmeticOverflow {
                        field: "LF-group reconstruction binding bytes",
                    },
                );
            },
        };
        maxima =
        GroupMaxima {
            reconstruction: max_u64(maxima.reconstruction, reconstruction),
            raw_metadata: max_u64(maxima.raw_metadata, group.raw_metadata_words as u64 * 4),
            coefficients: max_u64(maxima.coefficients, group.coefficient_words as u64 * 4),
            artifact: max_u64(maxima.artifact, layout.artifact_bytes),
            occupancy: max_u64(maxima.occupancy, layout.occupancy_bytes),
            modular_metadata: max_u64(
                maxima.modular_metadata,
                group.modular_metadata_words as u64 * 4,
            ),
        };
        i = i + 1;
    }
    Ok(maxima)
}

/// The largest coefficient status of the first `n` groups of a plan.
pub open spec fn status_maximum_of(groups: Seq<HfGroupBytes>, n: int) -> int
    decreases n,
{
    if n <= 0 {
        0
    } else {
        greatest(status_maximum_of(groups, n - 1), groups[n - 1].status as int)
    }
}

/// The largest coefficient status of all groups of a plan, or none.
pub open spec fn largest_status(hf: Option<Seq<HfGroupBytes>>) -> u64 {
    match hf {
        Some(groups) => status_maximum_of(groups, groups.len() as int) as u64,
        None => 0,
    }
}

/// The largest coefficient status of all groups of a plan, or none.
fn status_maximum(hf: Option<&Vec<HfGroupBytes>>) -> (bytes: u64)
    ensures
        bytes == largest_status(hf_view(hf)),
{
    match hf {
        None => 0,
        Some(groups) => {
            let mut bytes: u64 = 0;
            let mut i: usize = 0;
            while i < groups.len()
                invariant
                    i <= groups@.len(),
                    bytes == status_maximum_of(groups@, i as int),
                decreases groups@.len() - i,
            {
                bytes = max_u64(bytes, groups[i].status);
                i = i + 1;
            }
            bytes
        },
    }
}

/// Coefficient decoder bytes of group `i`, or none.
pub fn hf_at(hf: Option<&Vec<HfGroupBytes>>, i: usize) -> (bytes: HfGroupBytes)
    ensures
        bytes == hf_group(hf_view(hf), i as int),
{
    match hf {
        Some(groups) => {
            if i < groups.len() {
                groups[i]
            } else {
                HfGroupBytes { lz77_scratch: 0, execution_state: 0, status: 0 }
            }
        },
        None => HfGroupBytes { lz77_scratch: 0, execution_state: 0, status: 0 },
    }
}

/// Modular metadata bound at once: one group's where groups have their own trees, else all.
pub open spec fn modular_metadata_binding(
    packet: &Packet,
    memory: VarDctDecodeMemoryStats,
    maxima: GroupMaxima,
) -> u64 {
    if packet.requires_lf_staging || packet.uses_lf_frame {
        maxima.modular_metadata
    } else {
        memory.modular_metadata_bytes
    }
}

/// The largest of three planes.
pub open spec fn largest_plane(planes: [u64; 3]) -> u64 {
    greatest(greatest(planes[0] as int, planes[1] as int), planes[2] as int) as u64
}

/// One plane of the subsampled components, which share their bytes evenly.
pub open spec fn component_plane(
    shifts: [VarDctChannelShift; 3],
    memory: VarDctDecodeMemoryStats,
) -> u64 {
    if memory.component_upsample_bytes == 0 || subsampled_channels(shifts) == 0 {
        0
    } else {
        (memory.component_upsample_bytes as int / subsampled_channels(shifts)) as u64
    }
}

/// A buffer bound as storage.
pub open spec fn storage_need(resource: &'static str, bytes: u64) -> BufferNeed {
    BufferNeed { resource, bytes, storage: true }
}

/// All buffers of a frame, in the order in which they are checked.
pub open spec fn frame_buffers(
    packet: &Packet,
    memory: VarDctDecodeMemoryStats,
    maxima: GroupMaxima,
    hf_status: u64,
    sizes: RecordSizes,
) -> Seq<BufferNeed> {
    seq![
        storage_need("codestream upload", memory.codestream_bytes),
        storage_need("Modular metadata", modular_metadata_binding(packet, memory, maxima)),
        storage_need("LF reconstruction and HF LZ77 storage", maxima.reconstruction),
        storage_need("raw HF metadata", maxima.raw_metadata),
        storage_need("coefficients", maxima.coefficients),
        storage_need("packet status", sizes.packet_status),
        storage_need("Modular parameters", sizes.modular_params),
        storage_need("local-tree packet entropy stream window", memory.packet_stream_window_bytes),
        BufferNeed {
            resource: "validation staging",
            bytes: memory.validation_staging_bytes,
            storage: false,
        },
        storage_need("LF temporary", memory.lf_temporary_bytes),
        storage_need("VarDCT resources", memory.resource_bytes),
        storage_need("VarDCT artifact", maxima.artifact),
        storage_need("artifact occupancy", maxima.occupancy),
        storage_need("HF entropy bundle", memory.hf_entropy_bundle_bytes),
        storage_need("HF entropy stream window", memory.hf_stream_window_bytes),
        storage_need("HF pass-group parameters", memory.hf_params_bytes),
        storage_need("HF pass-group status", hf_status),
        storage_need("HF coefficient order table", memory.hf_order_table_bytes),
        storage_need("one resident component plane", largest_plane(memory.resident_plane_bytes)),
        storage_need(
            "one component upsample plane",
            component_plane(packet.channel_shifts, memory),
        ),
        storage_need("one restoration scratch plane", memory.restoration_scratch_bytes / 3),
        storage_need("one frame upsample plane", memory.frame_upsample_image_bytes / 3),
        storage_need("frame upsample weights", memory.frame_upsample_weight_bytes),
        storage_need("EPF sigma plane", memory.epf_sigma_bytes),
        storage_need("packed RGB8 output", memory.output_lease_bytes),
    ]
}

/// A bound on a uniform binding.
pub open spec fn uniform_check(resource: &'static str, bytes: u64, limits: DeviceLimits) -> LimitCheck {
    LimitCheck { resource, required: bytes, available: limits.max_uniform_buffer_binding_size }
}

/// Bytes that are bound only where something is there.
pub open spec fn present(there: bool, bytes: u64) -> u64 {
    if there {
        bytes
    } else {
        0
    }
}

/// All uniform bindings of a frame and the workgroup of the adaptive LF pass.
pub open spec fn frame_uniforms(
    memory: VarDctDecodeMemoryStats,
    groups: u64,
    hf: bool,
    sizes: RecordSizes,
    limits: DeviceLimits,
) -> Seq<LimitCheck> {
    seq![
        uniform_check("packet control uniform", sizes.packet_control, limits),
        uniform_check("LF resource uniform", sizes.resource_params, limits),
        uniform_check("adaptive LF uniform", memory.adaptive_lf_uniform_bytes, limits),
        uniform_check("artifact uniform", LOWERING_PARAMS_BYTES, limits),
        uniform_check("HF coefficient sink uniform", present(hf, 16), limits),
        uniform_check("Gaborish uniform", memory.gaborish_uniform_bytes, limits),
        uniform_check(
            "component upsample uniform",
            present(memory.component_upsample_uniform_bytes != 0, sizes.component_upsample_uniform),
            limits,
        ),
        uniform_check(
            "EPF sigma uniform",
            (memory.epf_sigma_uniform_bytes as int / groups as int) as u64,
            limits,
        ),
        uniform_check(
            "one EPF filter uniform",
            present(memory.epf_filter_uniform_bytes != 0, sizes.epf_uniform),
            limits,
        ),
        uniform_check("frame upsample uniform", memory.frame_upsample_uniform_bytes, limits),
        uniform_check("output uniform", memory.output_uniform_bytes, limits),
        LimitCheck {
            resource: "adaptive LF workgroup storage",
            required: sizes.adaptive_lf_workgroup,
            available: limits.max_compute_workgroup_storage_size as u64,
        },
        LimitCheck {
            resource: "adaptive LF workgroup invocations",
            required: 256,
            available: limits.max_compute_invocations_per_workgroup as u64,
        },
        LimitCheck {
            resource: "adaptive LF workgroup Y size",
            required: 16,
            available: limits.max_compute_workgroup_size_y as u64,
        },
    ]
}

/// Why the device cannot decode a frame.
pub open spec fn device_refusal(
    limits: DeviceLimits,
    memory: VarDctDecodeMemoryStats,
    packet: &Packet,
    layouts: Seq<VarDctArtifactLayout>,
    hf: Option<Seq<HfGroupBytes>>,
    sizes: RecordSizes,
) -> Option<VarDctDecodeError> {
    let n = packet.groups@.len() as int;
    let needs = frame_buffers(
        packet,
        memory,
        maxima_of(packet.groups@, layouts, hf, n),
        largest_status(hf),
        sizes,
    );
    let buffers = exceeded(buffer_checks(needs, limits, needs.len() as int), 0);
    if n == 0 {
        Some(
            VarDctDecodeError::GroupPlanCount {
                component: "device-limit source",
                expected: 1,
                actual: 0,
            },
        )
    } else if reconstruction_overflows(packet.groups@, hf) {
        Some(
            VarDctDecodeError::ArithmeticOverflow {
                field: "LF-group reconstruction binding bytes",
            },
        )
    } else if buffers is Some {
        buffers
    } else {
        exceeded(frame_uniforms(memory, n as u64, hf is Some, sizes, limits), 0)
    }
}

fn need(resource: &'static str, bytes: u64) -> (need: BufferNeed)
    ensures
        need == storage_need(resource, bytes),
{
    BufferNeed { resource, bytes, storage: true }
}

fn uniform(resource: &'static str, bytes: u64, limits: DeviceLimits) -> (check: LimitCheck)
    ensures
        check == uniform_check(resource, bytes, limits),
{
    LimitCheck { resource, required: bytes, available: limits.max_uniform_buffer_binding_size }
}

fn present_bytes(there: bool, bytes: u64) -> (r: u64)
    ensures
        r == present(there, bytes),
{
    if there {
        bytes
    } else {
        0
    }
}

/// One plane of the subsampled components.
fn component_plane_bytes(shifts: &[VarDctChannelShift; 3], bytes: u64) -> (r: u64)
    ensures
        r == if bytes == 0 || subsampled_channels(*shifts) == 0 {
            0
        } else {
            bytes as int / subsampled_channels(*shifts)
        },
{
    let mut shifted: u64 = 0;
    if shifts[0].is_subsampled() {
        shifted = shifted + 1;
    }
    if shifts[1].is_subsampled() {
        shifted = shifted + 1;
    }
    if shifts[2].is_subsampled() {
        shifted = shifted + 1;
    }
    if bytes == 0 || shifted == 0 {
        0
    } else {
        bytes / shifted
    }
}

/// Refuses a frame of which some resource exceeds the device.
pub fn validate_device_limits(
    limits: DeviceLimits,
    memory: &VarDctDecodeMemoryStats,
    packet: &Packet,
    layouts: &Vec<VarDctArtifactLayout>,
    hf: Option<&Vec<HfGroupBytes>>,
    sizes: RecordSizes,
) -> (r: Result<(), VarDctDecodeError>)
    requires
        layouts@.len() == packet.groups@.len(),
    ensures
        match device_refusal(limits, *memory, packet, layouts@, hf_view(hf), sizes) {
            Some(error) => r == Err::<(), VarDctDecodeError>(error),
            None => r is Ok,
        },
{
    let groups: u64 = packet.groups.len() as u64;
    if groups == 0 {
        return Err(
            VarDctDecodeError::GroupPlanCount {
                component: "device-limit source",
                expected: 1,
                actual: 0,
            },
        );
    }
    let maxima = match group_maxima(&packet.groups, layouts, hf) {
        Ok(maxima) => maxima,
        Err(error) => {
            return Err(error);
        },
    };
    let hf_status: u64 = status_maximum(hf);
    let modular: u64 = if packet.requires_lf_staging || packet.uses_lf_frame {
        maxima.modular_metadata
    } else {
        memory.modular_metadata_bytes
    };
    let planes: [u64; 3] = memory.resident_plane_bytes;
    let needs: Vec<BufferNeed> = vec![
        need("codestream upload", memory.codestream_bytes),
        need("Modular metadata", modular),
        need("LF reconstruction and HF LZ77 storage", maxima.reconstruction),
        need("raw HF metadata", maxima.raw_metadata),
        need("coefficients", maxima.coefficients),
        need("packet status", sizes.packet_status),
        need("Modular parameters", sizes.modular_params),
        need("local-tree packet entropy stream window", memory.packet_stream_window_bytes),
        BufferNeed {
            resource: "validation staging",
            bytes: memory.validation_staging_bytes,
            storage: false,
        },
        need("LF temporary", memory.lf_temporary_bytes),
        need("VarDCT resources", memory.resource_bytes),
        need("VarDCT artifact", maxima.artifact),
        need("artifact occupancy", maxima.occupancy),
        need("HF entropy bundle", memory.hf_entropy_bundle_bytes),
        need("HF entropy stream window", memory.hf_stream_window_bytes),
        need("HF pass-group parameters", memory.hf_params_bytes),
        need("HF pass-group status", hf_status),
        need("HF coefficient order table", memory.hf_order_table_bytes),
        need("one resident component plane", max_u64(max_u64(planes[0], planes[1]), planes[2])),
        need(
            "one component upsample plane",
            component_plane_bytes(&packet.channel_shifts, memory.component_upsample_bytes),
        ),
        need("one restoration scratch plane", memory.restoration_scratch_bytes / 3),
        need("one frame upsample plane", memory.frame_upsample_image_bytes / 3),
        need("frame upsample weights", memory.frame_upsample_weight_bytes),
        need("EPF sigma plane", memory.epf_sigma_bytes),
        need("packed RGB8 output", memory.output_lease_bytes),
    ];
    assert(needs@ =~= frame_buffers(packet, *memory, maxima, hf_status, sizes));
    let checks = push_buffer_checks(&needs, limits);
    match check_limits(&checks) {
        Ok(_) => {},
        Err(error) => {
            return Err(error);
        },
    }
    let uniforms: Vec<LimitCheck> = vec![
        uniform("packet control uniform", sizes.packet_control, limits),
        uniform("LF resource uniform", sizes.resource_params, limits),
        uniform("adaptive LF uniform", memory.adaptive_lf_uniform_bytes, limits),
        uniform("artifact uniform", LOWERING_PARAMS_BYTES, limits),
        uniform("HF coefficient sink uniform", present_bytes(hf.is_some(), 16), limits),
        uniform("Gaborish uniform", memory.gaborish_uniform_bytes, limits),
        uniform(
            "component upsample uniform",
            present_bytes(
                memory.component_upsample_uniform_bytes != 0,
                sizes.component_upsample_uniform,
            ),
            limits,
        ),
        uniform("EPF sigma uniform", memory.epf_sigma_uniform_bytes / groups, limits),
        uniform(
            "one EPF filter uniform",
            present_bytes(memory.epf_filter_uniform_bytes != 0, sizes.epf_uniform),
            limits,
        ),
        uniform("frame upsample uniform", memory.frame_upsample_uniform_bytes, limits),
        uniform("output uniform", memory.output_uniform_bytes, limits),
        LimitCheck {
            resource: "adaptive LF workgroup storage",
            required: sizes.adaptive_lf_workgroup,
            available: limits.max_compute_workgroup_storage_size as u64,
        },
        LimitCheck {
            resource: "adaptive LF workgroup invocations",
            required: 256,
            available: limits.max_compute_invocations_per_workgroup as u64,
        },
        LimitCheck {
            resource: "adaptive LF workgroup Y size",
            required: 16,
            available: limits.max_compute_workgroup_size_y as u64,
        },
    ];
    assert(uniforms@ =~= frame_uniforms(*memory, groups, hf is Some, sizes, limits));
    check_limits(&uniforms)
}

/// A frame that the device accepts exceeds none of its bounds.
pub proof fn law_accepted_within(checks: Seq<LimitCheck>, i: int, k: int)
    requires
        0 <= i <= k < checks.len(),
        exceeded(checks, i) is None,
    ensures
        checks[k].required <= checks[k].available,
    decreases k - i,
{
    if i < k {
        law_accepted_within(checks, i + 1, k);
    }
}

/// What of the image decides whether a frame can be presented as packed eight-bit RGB.
#[derive(Clone, Copy, Debug, PartialEq, Eq, Structural)]
pub struct PresentationFacts {
    /// The request is a colour mapping.
    pub color_request: bool,
    /// The requested format is packed eight-bit samples.
    pub packed_format: bool,
    /// The planes are XYB.
    pub xyb: bool,
    /// The image declares an inverse opsin matrix.
    pub has_inverse_opsin: bool,
    pub orientation: u32,
    /// RGB samples with sRGB primaries, white point and transfer function.
    pub srgb: bool,
    pub frames: usize,
}

/// The largest stream window that the caller and the device allow.
pub open spec fn stream_limit(requested: Option<u64>, limits: DeviceLimits) -> u64 {
    let device = least(
        limits.max_buffer_size as int,
        limits.max_storage_buffer_binding_size as int,
    );
    match requested {
        Some(limit) => least(limit as int, device) as u64,
        None => device as u64,
    }
}

/// Why a frame is not prepared at all.
pub open spec fn presentation_refusal(facts: PresentationFacts) -> Option<VarDctDecodeError> {
    if !facts.color_request {
        Some(VarDctDecodeError::UnsupportedOutput)
    } else if !facts.packed_format {
        Some(VarDctDecodeError::UnsupportedFormat)
    } else if facts.orientation != 1 {
        Some(VarDctDecodeError::UnsupportedOrientation { orientation: facts.orientation })
    } else if !facts.srgb {
        Some(VarDctDecodeError::UnsupportedColorEncoding)
    } else if facts.frames == 0 {
        Some(VarDctDecodeError::MissingFrame)
    } else {
        None
    }
}

/// Refuses a frame that cannot be presented as it is asked for.
pub fn check_presentation(facts: PresentationFacts) -> (r: Result<(), VarDctDecodeError>)
    ensures
        match presentation_refusal(facts) {
            Some(error) => r == Err::<(), VarDctDecodeError>(error),
            None => r is Ok,
        },
{
    if !facts.color_request {
        return Err(VarDctDecodeError::UnsupportedOutput);
    }
    if !facts.packed_format {
        return Err(VarDctDecodeError::UnsupportedFormat);
    }
    if facts.orientation != 1 {
        return Err(VarDctDecodeError::UnsupportedOrientation { orientation: facts.orientation });
    }
    if !facts.srgb {
        return Err(VarDctDecodeError::UnsupportedColorEncoding);
    }
    if facts.frames == 0 {
        return Err(VarDctDecodeError::MissingFrame);
    }
    Ok(())
}

/// The largest stream window, or why it is too small.
pub open spec fn window_outcome(requested: Option<u64>, limits: DeviceLimits, minimum: u64) -> Result<
    u64,
    VarDctDecodeError,
> {
    if stream_limit(requested, limits) < minimum {
        Err(
            VarDctDecodeError::EntropyStreamWindowTooSmall {
                limit_bytes: stream_limit(requested, limits),
                minimum_bytes: minimum,
            },
        )
    } else {
        Ok(stream_limit(requested, limits))
    }
}

/// The largest stream window that the caller and the device allow.
pub fn admit_stream_window(requested: Option<u64>, limits: DeviceLimits, minimum: u64) -> (r: Result<
    u64,
    VarDctDecodeError,
>)
    ensures
        r == window_outcome(requested, limits, minimum),
{
    let device: u64 = min_u64(limits.max_buffer_size, limits.max_storage_buffer_binding_size);
    let limit: u64 = match requested {
        Some(limit) => min_u64(limit, device),
        None => device,
    };
    if limit < minimum {
        return Err(
            VarDctDecodeError::EntropyStreamWindowTooSmall {
                limit_bytes: limit,
                minimum_bytes: minimum,
            },
        );
    }
    Ok(limit)
}

/// Where the shared resource vectors of a frame start.
#[derive(Clone, Copy, Debug, PartialEq, Eq)]
pub struct ResourceLayout {
    pub quant_offset: u32,
    pub correlation_offset: u32,
    pub afv_basis_offset: u32,
    pub matrix_offsets: [u32; 27],
}

/// What the groups of a frame share.
#[derive(Clone, Copy, Debug, PartialEq, Eq)]
pub struct FrameGeometry {
    /// Blocks across the frame.
    pub blocks_x: u32,
    /// Samples across the frame.
    pub width: u32,
    pub pass_group_dim_blocks: u32,
    pub resources: ResourceLayout,
}

/// One planned LF group.
#[derive(Clone, Copy, Debug, PartialEq, Eq, Structural)]
pub struct GroupPlan {
    pub quant_offset: u32,
    pub correlation_offset: u32,
    pub artifact_layout: VarDctArtifactLayout,
}

/// Tasks of the groups before group `n`.
pub open spec fn tasks_before(groups: Seq<PacketGroup>, n: int) -> int
    decreases n,
{
    if n <= 0 {
        0
    } else {
        tasks_before(groups, n - 1) + groups[n - 1].task_capacity
    }
}

/// Where a group's chroma-from-luma cells start in the frame's grid of 64 by 64 samples.
pub open spec fn correlation_start(group: PacketGroup, frame: FrameGeometry) -> int {
    frame.resources.correlation_offset + (group.y / 64) * ceil_div(frame.width as int, 64)
        + group.x / 64
}

/// The artifact of one group.
pub open spec fn artifact_config(group: PacketGroup, frame: FrameGeometry) -> HfMetadataArtifactConfig {
    HfMetadataArtifactConfig {
        blocks_width: group.blocks[0],
        blocks_height: group.blocks[1],
        block_info_entries: group.task_capacity,
        strategy_offset_words: group.strategy_offset_words,
        hf_mul_offset_words: group.hf_mul_offset_words,
        raw_metadata_words: group.raw_metadata_words as u64,
        pass_group_dim_blocks: frame.pass_group_dim_blocks,
        lf_stride: frame.blocks_x,
        correlation_width: ceil_div(group.width as int, 64) as u32,
        correlation_height: ceil_div(group.height as int, 64) as u32,
        destination_origin: [group.x, group.y],
        afv_basis_offset: frame.resources.afv_basis_offset,
        matrix_offsets: frame.resources.matrix_offsets,
    }
}

/// The limits that an artifact is held to.
pub open spec fn artifact_limits(limits: DeviceLimits) -> VarDctArtifactDeviceLimits {
    VarDctArtifactDeviceLimits {
        max_buffer_size: limits.max_buffer_size,
        max_storage_buffer_binding_size: limits.max_storage_buffer_binding_size,
        storage_binding_alignment: greatest(
            limits.min_storage_buffer_offset_alignment as int,
            256,
        ) as u64,
    }
}

/// Why group `n` cannot be planned.
pub open spec fn group_refusal(
    groups: Seq<PacketGroup>,
    frame: FrameGeometry,
    limits: DeviceLimits,
    n: int,
) -> Option<VarDctDecodeError> {
    let group = groups[n];
    if correlation_start(group, frame) > u32::MAX {
        Some(
            VarDctDecodeError::ArithmeticOverflow {
                field: "LF-group correlation resource offset",
            },
        )
    } else {
        match layout_refusal(&artifact_config(group, frame), artifact_limits(limits)) {
            Some(error) => Some(VarDctDecodeError::Artifact(error)),
            None => if frame.resources.quant_offset + tasks_before(groups, n + 1) > u32::MAX {
                Some(
                    VarDctDecodeError::ArithmeticOverflow {
                        field: "LF-group quantization resource range",
                    },
                )
            } else {
                None
            },
        }
    }
}

/// The first group from `i` on that cannot be planned.
pub open spec fn groups_refusal(
    groups: Seq<PacketGroup>,
    frame: FrameGeometry,
    limits: DeviceLimits,
    i: int,
) -> Option<VarDctDecodeError>
    decreases groups.len() - i,
{
    if i >= groups.len() {
        None
    } else if group_refusal(groups, frame, limits, i) is Some {
        group_refusal(groups, frame, limits, i)
    } else {
        groups_refusal(groups, frame, limits, i + 1)
    }
}

/// The plan of group `n`: its quantizers stand behind those of the groups before it.
pub open spec fn group_plan(
    groups: Seq<PacketGroup>,
    frame: FrameGeometry,
    limits: DeviceLimits,
    n: int,
) -> GroupPlan {
    GroupPlan {
        quant_offset: (frame.resources.quant_offset + tasks_before(groups, n)) as u32,
        correlation_offset: correlation_start(groups[n], frame) as u32,
        artifact_layout: layout_of(&artifact_config(groups[n], frame), artifact_limits(limits)),
    }
}

/// Plans the resources of every LF group.
pub fn plan_groups(groups: &Vec<PacketGroup>, frame: &FrameGeometry, limits: DeviceLimits) -> (r: Result<
    Vec<GroupPlan>,
    VarDctDecodeError,
>)
    ensures
        match groups_refusal(groups@, *frame, limits, 0) {
            Some(error) => r == Err::<Vec<GroupPlan>, VarDctDecodeError>(error),
            None => r matches Ok(plans) && plans@.len() == groups@.len() && forall|n: int|
                0 <= n < groups@.len() ==> #[trigger] plans@[n] == group_plan(
                    groups@,
                    *frame,
                    limits,
                    n,
                ),
        },
{
    let mut plans: Vec<GroupPlan> = Vec::new();
    let mut quant_offset: u32 = frame.resources.quant_offset;
    let cells: u32 = div_ceil_u32(frame.width, 64);
    let mut n: usize = 0;
    while n < groups.len()
        invariant
            n <= groups@.len(),
            cells == ceil_div(frame.width as int, 64),
            cells <= 0x400_0000,
            quant_offset == frame.resources.quant_offset + tasks_before(groups@, n as int),
            groups_refusal(groups@, *frame, limits, 0) == groups_refusal(
                groups@,
                *frame,
                limits,
                n as int,
            ),
            plans@.len() == n,
            forall|k: int|
                0 <= k < n ==> #[trigger] plans@[k] == group_plan(groups@, *frame, limits, k),
        decreases groups@.len() - n,
    {
        let group = groups[n];
        let row: u32 = group.y / 64;
        assert(0 <= row * cells <= 0x400_0000 * 0x400_0000) by (nonlinear_arith)
            requires
                row <= 0x400_0000,
                cells <= 0x400_0000,
        ;
        let correlation: u64 = frame.resources.correlation_offset as u64 + row as u64
            * cells as u64 + (group.x / 64) as u64;
        if correlation > u32::MAX as u64 {
            return Err(
                VarDctDecodeError::ArithmeticOverflow {
                    field: "LF-group correlation resource offset",
                },
            );
        }
        let config = config_of(&group, frame);
        let artifact_layout = match VarDctArtifactLayout::plan(
            &config,
            VarDctArtifactDeviceLimits::new(
                limits.max_buffer_size,
                limits.max_storage_buffer_binding_size,
                limits.min_storage_buffer_offset_alignment,
            ),
        ) {
            Ok(layout) => layout,
            Err(error) => {
                return Err(VarDctDecodeError::Artifact(error));
            },
        };
        plans.push(
            GroupPlan { quant_offset, correlation_offset: correlation as u32, artifact_layout },
        );
        quant_offset =
        match quant_offset.checked_add(group.task_capacity) {
            Some(next) => next,
            None => {
                return Err(
                    VarDctDecodeError::ArithmeticOverflow {
                        field: "LF-group quantization resource range",
                    },
                );
            },
        };
        n = n + 1;
    }
    Ok(plans)
}

/// An accepted artifact has a pass-group dimension.
proof fn lemma_pass_groups(
    groups: Seq<PacketGroup>,
    frame: FrameGeometry,
    limits: DeviceLimits,
    n: int,
)
    requires
        0 <= n < groups.len(),
        groups_refusal(groups, frame, limits, 0) is None,
    ensures
        frame.pass_group_dim_blocks != 0,
{
    lemma_group_accepted(groups, frame, limits, 0, n);
}

/// The lowering parameters of every LF group, for its artifact and its planned layout.
pub open spec fn groups_lowered(
    lowering: Seq<HfMetadataLoweringParams>,
    groups: Seq<PacketGroup>,
    frame: FrameGeometry,
    plans: Seq<GroupPlan>,
) -> bool {
    &&& lowering.len() == groups.len()
    &&& forall|n: int|
        0 <= n < groups.len() ==> lowered(
            #[trigger] lowering[n],
            artifact_config(groups[n], frame),
            plans[n].artifact_layout,
        )
}

/// The artifact of one group.
fn config_of(group: &PacketGroup, frame: &FrameGeometry) -> (config: HfMetadataArtifactConfig)
    ensures
        config == artifact_config(*group, *frame),
{
    let config = HfMetadataArtifactConfig {
        blocks_width: group.blocks[0],
        blocks_height: group.blocks[1],
        block_info_entries: group.task_capacity,
        strategy_offset_words: group.strategy_offset_words,
        hf_mul_offset_words: group.hf_mul_offset_words,
        raw_metadata_words: group.raw_metadata_words as u64,
        pass_group_dim_blocks: frame.pass_group_dim_blocks,
        lf_stride: frame.blocks_x,
        correlation_width: div_ceil_u32(group.width, 64),
        correlation_height: div_ceil_u32(group.height, 64),
        destination_origin: [group.x, group.y],
        afv_basis_offset: frame.resources.afv_basis_offset,
        matrix_offsets: frame.resources.matrix_offsets,
    };
    assert(config.destination_origin@ =~= artifact_config(*group, *frame).destination_origin@);
    config
}

/// The lowering parameters of every planned LF group.
pub fn lower_groups(groups: &Vec<PacketGroup>, frame: &FrameGeometry, plans: &Vec<GroupPlan>) -> (r:
    Result<Vec<HfMetadataLoweringParams>, VarDctDecodeError>)
    requires
        plans@.len() == groups@.len(),
        groups@.len() > 0 ==> frame.pass_group_dim_blocks != 0,
    ensures
        r matches Ok(lowering) && groups_lowered(lowering@, groups@, *frame, plans@),
{
    let mut lowering: Vec<HfMetadataLoweringParams> = Vec::new();
    let mut n: usize = 0;
    while n < groups.len()
        invariant
            n <= groups@.len(),
            plans@.len() == groups@.len(),
            groups@.len() > 0 ==> frame.pass_group_dim_blocks != 0,
            lowering@.len() == n,
            forall|k: int|
                0 <= k < n ==> lowered(
                    #[trigger] lowering@[k],
                    artifact_config(groups@[k], *frame),
                    plans@[k].artifact_layout,
                ),
        decreases groups@.len() - n,
    {
        let config = config_of(&groups[n], frame);
        match HfMetadataLoweringParams::new(&config, plans[n].artifact_layout) {
            Ok(params) => {
                lowering.push(params);
            },
            Err(error) => {
                return Err(VarDctDecodeError::Artifact(error));
            },
        }
        n = n + 1;
    }
    Ok(lowering)
}

/// The quantizers of all groups follow one another without gaps.
pub proof fn law_quantizers_tile(
    groups: Seq<PacketGroup>,
    frame: FrameGeometry,
    limits: DeviceLimits,
    n: int,
)
    requires
        0 <= n < groups.len() - 1,
        groups_refusal(groups, frame, limits, 0) is None,
    ensures
        group_plan(groups, frame, limits, n + 1).quant_offset == group_plan(
            groups,
            frame,
            limits,
            n,
        ).quant_offset + groups[n].task_capacity,
{
    lemma_group_accepted(groups, frame, limits, 0, n);
    lemma_group_accepted(groups, frame, limits, 0, n + 1);
    lemma_tasks_before(groups, n);
}

pub(crate) proof fn lemma_group_accepted(
    groups: Seq<PacketGroup>,
    frame: FrameGeometry,
    limits: DeviceLimits,
    i: int,
    n: int,
)
    requires
        0 <= i <= n < groups.len(),
        groups_refusal(groups, frame, limits, i) is None,
    ensures
        group_refusal(groups, frame, limits, n) is None,
    decreases n - i,
{
    if i < n {
        lemma_group_accepted(groups, frame, limits, i + 1, n);
    }
}

proof fn lemma_tasks_before(groups: Seq<PacketGroup>, n: int)
    requires
        0 <= n <= groups.len(),
    ensures
        0 <= tasks_before(groups, n),
    decreases n,
{
    if n > 0 {
        lemma_tasks_before(groups, n - 1);
    }
}

/// The chroma-from-luma cells of a frame lie in one row-major grid of 64 by 64 samples, whose
/// rows have as many cells as it takes to cover the frame's width. The cells of a group that
/// starts on a cell are those of its own samples, and all of them lie in the grid.
pub proof fn law_correlation_places(
    groups: &Vec<PacketGroup>,
    frame: &FrameGeometry,
    limits: DeviceLimits,
    plans: Vec<GroupPlan>,
    height: int,
    grid: (int, int),
    n: int,
    column: int,
    row: int,
)
    requires
        call_ensures(
            plan_groups,
            (groups, frame, limits),
            Ok::<Vec<GroupPlan>, VarDctDecodeError>(plans),
        ),
        64 * (grid.0 - 1) < frame.width <= 64 * grid.0,
        64 * (grid.1 - 1) < height <= 64 * grid.1,
        0 <= n < groups@.len(),
        groups@[n].x % 64 == 0 && groups@[n].y % 64 == 0,
        groups@[n].x + groups@[n].width <= frame.width,
        groups@[n].y + groups@[n].height <= height,
        0 <= column && 64 * column < groups@[n].width,
        0 <= row && 64 * row < groups@[n].height,
    ensures
        plans@.len() == groups@.len(),
        ({
            let first = frame.resources.correlation_offset;
            let cell = plans@[n].correlation_offset + row * grid.0 + column;
            &&& first <= cell < first + grid.0 * grid.1
            &&& (cell - first) % grid.0 * 64 == groups@[n].x + 64 * column
            &&& (cell - first) / grid.0 * 64 == groups@[n].y + 64 * row
        }),
{
    lemma_group_accepted(groups@, *frame, limits, 0, n);
    lemma_cell_of_place(groups@[n], *frame, height, grid, column, row);
}

/// No two groups that start on cells and overlap nowhere share a chroma-from-luma cell.
pub proof fn law_correlation_cells_distinct(
    groups: &Vec<PacketGroup>,
    frame: &FrameGeometry,
    limits: DeviceLimits,
    plans: Vec<GroupPlan>,
    height: int,
    grid: (int, int),
    a: (int, int, int),
    b: (int, int, int),
)
    requires
        call_ensures(
            plan_groups,
            (groups, frame, limits),
            Ok::<Vec<GroupPlan>, VarDctDecodeError>(plans),
        ),
        64 * (grid.0 - 1) < frame.width <= 64 * grid.0,
        64 * (grid.1 - 1) < height <= 64 * grid.1,
        forall|n: int|
            0 <= n < groups@.len() ==> {
                let group = #[trigger] groups@[n];
                &&& group.x % 64 == 0 && group.y % 64 == 0
                &&& group.x + group.width <= frame.width
                &&& group.y + group.height <= height
            },
        0 <= a.0 < groups@.len(),
        0 <= b.0 < groups@.len(),
        0 <= a.1 && 64 * a.1 < groups@[a.0].width,
        0 <= a.2 && 64 * a.2 < groups@[a.0].height,
        0 <= b.1 && 64 * b.1 < groups@[b.0].width,
        0 <= b.2 && 64 * b.2 < groups@[b.0].height,
        ({
            let one = groups@[a.0];
            let other = groups@[b.0];
            ||| one.x + one.width <= other.x
            ||| other.x + other.width <= one.x
            ||| one.y + one.height <= other.y
            ||| other.y + other.height <= one.y
        }),
    ensures
        plans@[a.0].correlation_offset + a.2 * grid.0 + a.1 != plans@[b.0].correlation_offset + b.2
            * grid.0 + b.1,
{
    law_correlation_places(groups, frame, limits, plans, height, grid, a.0, a.1, a.2);
    law_correlation_places(groups, frame, limits, plans, height, grid, b.0, b.1, b.2);
}

/// A cell's number gives its place in the grid.
proof fn lemma_cell_of_place(
    group: PacketGroup,
    frame: FrameGeometry,
    height: int,
    grid: (int, int),
    column: int,
    row: int,
)
    requires
        64 * (grid.0 - 1) < frame.width <= 64 * grid.0,
        64 * (grid.1 - 1) < height <= 64 * grid.1,
        group.x % 64 == 0 && group.y % 64 == 0,
        group.x + group.width <= frame.width,
        group.y + group.height <= height,
        0 <= column && 64 * column < group.width,
        0 <= row && 64 * row < group.height,
    ensures
        ({
            let cell = correlation_start(group, frame) + row * grid.0 + column
                - frame.resources.correlation_offset;
            &&& grid.0 > 0
            &&& 0 <= cell < grid.0 * grid.1
            &&& cell % grid.0 * 64 == group.x + 64 * column
            &&& cell / grid.0 * 64 == group.y + 64 * row
            &&& correlation_start(group, frame) >= 0
        }),
{
    lemma_ceil_div(frame.width as int, 64);
    let across = group.x as int / 64 + column;
    let down = group.y as int / 64 + row;
    let cell = correlation_start(group, frame) + row * grid.0 + column
        - frame.resources.correlation_offset;
    assert(cell == down * grid.0 + across) by (nonlinear_arith)
        requires
            cell == (group.y as int / 64) * grid.0 + group.x as int / 64 + row * grid.0 + column,
            across == group.x as int / 64 + column,
            down == group.y as int / 64 + row,
    ;
    vstd::arithmetic::div_mod::lemma_fundamental_div_mod_converse(cell, grid.0, down, across);
    assert(0 <= cell < grid.0 * grid.1) by (nonlinear_arith)
        requires
            cell == down * grid.0 + across,
            0 <= across < grid.0,
            0 <= down < grid.1,
    ;
    assert(0 <= (group.y as int / 64) * grid.0) by (nonlinear_arith)
        requires
            group.y as int / 64 >= 0,
            grid.0 > 0,
    ;
}

/// Which packets of a frame are read through bounded stream windows.
#[derive(Clone, Copy, Debug, PartialEq, Eq, Structural)]
pub struct WindowChoice {
    /// LF packets in front of local HF trees.
    pub lf: bool,
    /// Whole packets of one shared tree.
    pub combined: bool,
}

/// Local trees window their LF packets. Whole packets are windowed where nothing waits for a
/// cursor.
pub open spec fn window_choice(packet: &Packet) -> WindowChoice {
    WindowChoice {
        lf: packet.requires_lf_staging,
        combined: !packet.requires_lf_staging && !packet.uses_lf_frame
            && !packet.pending_raw_matrix,
    }
}

/// Which packets of a frame are read through bounded stream windows.
pub fn choose_windows(packet: &Packet) -> (choice: WindowChoice)
    ensures
        choice == window_choice(packet),
{
    WindowChoice {
        lf: packet.requires_lf_staging,
        combined: !packet.requires_lf_staging && !packet.uses_lf_frame
            && !packet.pending_raw_matrix,
    }
}

/// Which control record a group's packet starts with.
#[derive(Clone, Copy, Debug, PartialEq, Eq, Structural)]
pub enum ControlStage {
    /// HF metadata behind an external LF image.
    Hf,
    /// LF samples alone.
    Lf,
    /// LF samples and HF metadata at once.
    Whole,
}

/// The control record of a group once stream windows are known: a packet whose HF-global prefix
/// is still to be found stops behind its LF samples.
pub open spec fn control_stage(packet: &Packet, external_lf: bool, combined_windows: bool) -> ControlStage {
    if packet.requires_hf_global_staging && !combined_windows && !packet.uses_lf_frame {
        ControlStage::Lf
    } else if external_lf {
        ControlStage::Hf
    } else if packet.requires_lf_staging {
        ControlStage::Lf
    } else {
        ControlStage::Whole
    }
}

/// The control record of a group once stream windows are known.
pub fn choose_control(packet: &Packet, external_lf: bool, combined_windows: bool) -> (stage:
    ControlStage)
    ensures
        stage == control_stage(packet, external_lf, combined_windows),
{
    if packet.requires_hf_global_staging && !combined_windows && !packet.uses_lf_frame {
        ControlStage::Lf
    } else if external_lf {
        ControlStage::Hf
    } else if packet.requires_lf_staging {
        ControlStage::Lf
    } else {
        ControlStage::Whole
    }
}

/// The outcome of fitting a stream window into the memory budget.
#[derive(Clone, Copy, Debug, PartialEq, Eq, Structural)]
pub enum AdaptiveStreamLimitDecision {
    Selected(u64),
    BudgetTooSmall { required_bytes: u64 },
}

/// The stream window that fits the memory budget, or the refusal of the frame.
pub fn resolve_stream_limit(decision: AdaptiveStreamLimitDecision, memory_limit: u64) -> (r: Result<
    u64,
    VarDctDecodeError,
>)
    ensures
        match decision {
            AdaptiveStreamLimitDecision::Selected(limit) => r == Ok::<u64, VarDctDecodeError>(
                limit,
            ),
            AdaptiveStreamLimitDecision::BudgetTooSmall { required_bytes } => r == Err::<
                u64,
                VarDctDecodeError,
            >(
                VarDctDecodeError::MemoryBudgetTooSmall {
                    required_bytes,
                    limit_bytes: memory_limit,
                },
            ),
        },
{
    match decision {
        AdaptiveStreamLimitDecision::Selected(limit) => Ok(limit),
        AdaptiveStreamLimitDecision::BudgetTooSmall { required_bytes } => Err(
            VarDctDecodeError::MemoryBudgetTooSmall { required_bytes, limit_bytes: memory_limit },
        ),
    }
}

/// The factor by which a frame is enlarged, if it is.
pub fn frame_upsampling(factor: u32) -> (r: Result<Option<u32>, VarDctDecodeError>)
    ensures
        if factor == 1 {
            r == Ok::<Option<u32>, VarDctDecodeError>(None)
        } else if factor == 2 || factor == 4 || factor == 8 {
            r == Ok::<Option<u32>, VarDctDecodeError>(Some(factor))
        } else {
            r == Err::<Option<u32>, VarDctDecodeError>(
                VarDctDecodeError::EngineContract {
                    detail: "parsed frame upsampling factor is not 1, 2, 4, or 8",
                },
            )
        },
{
    if factor == 1 {
        Ok(None)
    } else if factor == 2 || factor == 4 || factor == 8 {
        Ok(Some(factor))
    } else {
        Err(
            VarDctDecodeError::EngineContract {
                detail: "parsed frame upsampling factor is not 1, 2, 4, or 8",
            },
        )
    }
}

/// Batches of the stream windows of a frame, where it has them.
#[derive(Clone, Copy, Debug, PartialEq, Eq, Structural)]
pub struct SubmissionCounts {
    /// A later HF-global prefix decides on coefficients.
    pub deferred_hf: bool,
    pub lf_batches: Option<usize>,
    pub combined_batches: Option<usize>,
    /// Coefficient batches where coefficients are windowed.
    pub coefficient_batches: Option<usize>,
}

/// Submissions that decode LF packets ahead of anything else.
pub open spec fn staged_lf_submissions(packet: &Packet, counts: SubmissionCounts) -> int {
    if packet.uses_lf_frame {
        0
    } else {
        match counts.lf_batches {
            Some(batches) => batches as int,
            None => 1,
        }
    }
}

/// Queue submissions of a frame that are known up front. Each raw side image adds its own as the
/// parser discovers it.
pub open spec fn frame_submissions(packet: &Packet, counts: SubmissionCounts) -> int {
    let coefficients = match counts.coefficient_batches {
        Some(batches) => batches as int,
        None => 0,
    };
    if counts.deferred_hf {
        if packet.pending_raw_matrix && !packet.requires_lf_staging {
            1
        } else if packet.uses_lf_frame {
            2
        } else {
            least(staged_lf_submissions(packet, counts) + coefficients + 2, usize::MAX as int)
        }
    } else {
        let local_lf = if packet.requires_lf_staging {
            match counts.lf_batches {
                Some(batches) => batches as int,
                None => 1,
            }
        } else {
            0
        };
        let combined = match counts.combined_batches {
            Some(batches) if batches > 0 => batches - 1,
            _ => 0,
        };
        local_lf + combined + if counts.coefficient_batches is Some {
            2 + coefficients
        } else {
            1
        }
    }
}

/// Submissions that decode LF packets ahead of anything else.
pub fn staged_lf_submission_count(packet: &Packet, counts: SubmissionCounts) -> (n: usize)
    ensures
        n == staged_lf_submissions(packet, counts),
{
    if packet.uses_lf_frame {
        0
    } else {
        match counts.lf_batches {
            Some(batches) => batches,
            None => 1,
        }
    }
}

/// Queue submissions of a frame that are known up front.
pub fn submissions_per_frame(packet: &Packet, counts: SubmissionCounts) -> (n: usize)
    requires
        frame_submissions(packet, counts) <= usize::MAX,
    ensures
        n == frame_submissions(packet, counts),
{
    let coefficients: usize = match counts.coefficient_batches {
        Some(batches) => batches,
        None => 0,
    };
    if counts.deferred_hf {
        if packet.pending_raw_matrix && !packet.requires_lf_staging {
            return 1;
        }
        if packet.uses_lf_frame {
            return 2;
        }
        return staged_lf_submission_count(packet, counts).saturating_add(
            coefficients,
        ).saturating_add(2);
    }
    let local_lf: usize = if packet.requires_lf_staging {
        match counts.lf_batches {
            Some(batches) => batches,
            None => 1,
        }
    } else {
        0
    };
    let combined: usize = match counts.combined_batches {
        Some(batches) => {
            if batches > 0 {
                batches - 1
            } else {
                0
            }
        },
        None => 0,
    };
    match counts.coefficient_batches {
        Some(_) => local_lf + combined + 2 + coefficients,
        None => local_lf + combined + 1,
    }
}

/// What a frame header declares of restoration and quantization.
#[derive(Clone, Copy, Debug)]
pub struct FrameFilters {
    pub restoration: RestorationFilterInventory,
    pub x_qm_scale: u32,
    pub b_qm_scale: u32,
}

/// A frame whose groups are planned, before its entropy plans exist.
#[derive(Debug)]
pub struct SourcePlan {
    /// The largest stream window that entropy plans may use.
    pub stream_limit: u64,
    pub groups: Vec<GroupPlan>,
    /// Lowering parameters of every LF group.
    pub lowering: Vec<HfMetadataLoweringParams>,
    pub windows: WindowChoice,
    pub upsampling: Option<u32>,
    pub gaborish: Option<GaborishWeights>,
    pub epf: Option<VarDctEpfPlan>,
    /// Factors of the dequantization matrices of X, Y and B.
    pub channel_scales: [u32; 3],
}

/// Why the filters of a frame are refused.
pub open spec fn filters_refusal(filters: FrameFilters) -> Option<VarDctDecodeError> {
    let (_, epf) = declared_filters(filters.restoration);
    if epf matches EdgePreservingFilterInventory::Enabled { iterations, .. } && !(1 <= iterations
        <= 3) {
        Some(
            VarDctDecodeError::Restoration(
                RestorationError::InvalidEpfIterations { iterations: epf->iterations },
            ),
        )
    } else if filters.x_qm_scale >= 8 {
        Some(
            VarDctDecodeError::InvalidQuantMatrixScale {
                channel: "X",
                scale: filters.x_qm_scale,
            },
        )
    } else if filters.b_qm_scale >= 8 {
        Some(
            VarDctDecodeError::InvalidQuantMatrixScale {
                channel: "B",
                scale: filters.b_qm_scale,
            },
        )
    } else {
        None
    }
}

/// The edge-preserving filter of a frame is planned as it is declared.
pub open spec fn epf_planned(
    plan: Option<VarDctEpfPlan>,
    filters: FrameFilters,
    packet: &Packet,
    plans: Seq<GroupPlan>,
    sharpness: Seq<u32>,
    output_blocks: [u32; 2],
) -> bool {
    let (_, declared) = declared_filters(filters.restoration);
    match declared {
        EdgePreservingFilterInventory::Disabled => plan is None,
        EdgePreservingFilterInventory::Enabled { iterations, sharp_lut, channel_scale, sigma } => {
            &&& plan matches Some(plan) && exists|config: EpfConfig|
                {
                    &&& #[trigger] epf_matches(
                        config,
                        iterations,
                        sharp_lut,
                        channel_scale,
                        sigma,
                    )
                    &&& plan.passes@ == config.pass_order().map_values(
                        |pass: EpfPass| config.pass(pass),
                    )
                    &&& plan.sigma_groups@.len() == packet.groups@.len()
                    &&& forall|i: int|
                        0 <= i < packet.groups@.len() ==> #[trigger] sigma_matches(
                            plan.sigma_groups@[i],
                            config,
                            packet.groups@[i],
                            plans[i],
                            sharpness[i],
                            output_blocks,
                            packet.global_scale,
                        )
                }
        },
    }
}

/// Why a frame cannot be planned.
pub open spec fn source_refusal(
    facts: PresentationFacts,
    filters: FrameFilters,
    requested: Option<u64>,
    limits: DeviceLimits,
    minimum: u64,
    packet: &Packet,
    frame: FrameGeometry,
    upsampling: u32,
) -> Option<VarDctDecodeError> {
    let window = window_outcome(requested, limits, minimum);
    if presentation_refusal(facts) is Some {
        presentation_refusal(facts)
    } else if filters_refusal(filters) is Some {
        filters_refusal(filters)
    } else if window is Err {
        Some(window->Err_0)
    } else if groups_refusal(packet.groups@, frame, limits, 0) is Some {
        groups_refusal(packet.groups@, frame, limits, 0)
    } else if upsampling != 1 && upsampling != 2 && upsampling != 4 && upsampling != 8 {
        Some(
            VarDctDecodeError::EngineContract {
                detail: "parsed frame upsampling factor is not 1, 2, 4, or 8",
            },
        )
    } else if facts.xyb && !facts.has_inverse_opsin {
        Some(VarDctDecodeError::MissingInverseOpsin)
    } else {
        None
    }
}

/// Checks what is asked for and plans every LF group. `sharpness` says where each group keeps
/// the sharpness of its blocks.
pub fn begin_source(
    facts: PresentationFacts,
    filters: FrameFilters,
    requested: Option<u64>,
    limits: DeviceLimits,
    minimum: u64,
    packet: &Packet,
    frame: &FrameGeometry,
    sharpness: &Vec<u32>,
    output_blocks: [u32; 2],
    upsampling: u32,
) -> (r: Result<SourcePlan, VarDctDecodeError>)
    requires
        sharpness@.len() == packet.groups@.len(),
    ensures
        match source_refusal(
            facts,
            filters,
            requested,
            limits,
            minimum,
            packet,
            *frame,
            upsampling,
        ) {
            Some(error) => r == Err::<SourcePlan, VarDctDecodeError>(error),
            None => r matches Ok(plan) && ({
                &&& plan.stream_limit == stream_limit(requested, limits)
                &&& plan.groups@.len() == packet.groups@.len()
                &&& forall|n: int|
                    0 <= n < packet.groups@.len() ==> #[trigger] plan.groups@[n] == group_plan(
                        packet.groups@,
                        *frame,
                        limits,
                        n,
                    )
                &&& groups_lowered(plan.lowering@, packet.groups@, *frame, plan.groups@)
                &&& plan.windows == window_choice(packet)
                &&& plan.upsampling == if upsampling == 1 {
                    None
                } else {
                    Some(upsampling)
                }
                &&& plan.gaborish == gaborish_of(declared_filters(filters.restoration).0)
                &&& epf_planned(
                    plan.epf,
                    filters,
                    packet,
                    plan.groups@,
                    sharpness@,
                    output_blocks,
                )
                &&& plan.channel_scales@ == seq![
                    matrix_multipliers()[filters.x_qm_scale as int],
                    ONE_BITS,
                    matrix_multipliers()[filters.b_qm_scale as int],
                ]
            }),
        },
{
    match check_presentation(facts) {
        Ok(_) => {},
        Err(error) => {
            return Err(error);
        },
    }
    let (gaborish, header) = match restoration_config(filters.restoration) {
        Ok(config) => config,
        Err(error) => {
            return Err(VarDctDecodeError::Restoration(error));
        },
    };
    let x_scale: u32 = match dequant_matrix_multiplier("X", filters.x_qm_scale) {
        Ok(scale) => scale,
        Err(error) => {
            return Err(error);
        },
    };
    let b_scale: u32 = match dequant_matrix_multiplier("B", filters.b_qm_scale) {
        Ok(scale) => scale,
        Err(error) => {
            return Err(error);
        },
    };
    let stream_limit: u64 = match admit_stream_window(requested, limits, minimum) {
        Ok(limit) => limit,
        Err(error) => {
            return Err(error);
        },
    };
    let groups = match plan_groups(&packet.groups, frame, limits) {
        Ok(groups) => groups,
        Err(error) => {
            return Err(error);
        },
    };
    proof {
        if packet.groups@.len() > 0 {
            lemma_pass_groups(packet.groups@, *frame, limits, 0);
        }
    }
    let lowering = match lower_groups(&packet.groups, frame, &groups) {
        Ok(lowering) => lowering,
        Err(error) => {
            return Err(error);
        },
    };
    let epf: Option<VarDctEpfPlan> = match header {
        Some(config) => Some(
            config.plan(&packet.groups, &groups, sharpness, output_blocks, packet.global_scale),
        ),
        None => None,
    };
    let upsampling = match frame_upsampling(upsampling) {
        Ok(upsampling) => upsampling,
        Err(error) => {
            return Err(error);
        },
    };
    if facts.xyb && !facts.has_inverse_opsin {
        return Err(VarDctDecodeError::MissingInverseOpsin);
    }
    let channel_scales: [u32; 3] = [x_scale, ONE_BITS, b_scale];
    assert(channel_scales@ =~= seq![
        matrix_multipliers()[filters.x_qm_scale as int],
        ONE_BITS,
        matrix_multipliers()[filters.b_qm_scale as int],
    ]);
    Ok(
        SourcePlan {
            stream_limit,
            groups,
            lowering,
            windows: choose_windows(packet),
            upsampling,
            gaborish,
            epf,
            channel_scales,
        },
    )
}

/// The entropy plans of a frame at its selected stream window.
#[derive(Debug)]
pub struct EntropyPlans {
    pub decision: AdaptiveStreamLimitDecision,
    pub memory: VarDctDecodeMemoryStats,
    /// Whole packets are read through stream windows.
    pub combined_windows: bool,
    /// A later HF-global prefix decides on coefficients.
    pub deferred_hf: bool,
    pub hf: Option<Vec<HfGroupBytes>>,
}

/// A frame that can be submitted.
#[derive(Debug)]
pub struct PreparedSource {
    pub stream_limit: u64,
    pub groups: Vec<GroupPlan>,
    pub lowering: Vec<HfMetadataLoweringParams>,
    pub controls: Vec<ControlStage>,
    pub deferred_hf: bool,
}

/// The artifact layouts of planned groups.
pub open spec fn plan_layouts(groups: Seq<GroupPlan>) -> Seq<VarDctArtifactLayout> {
    Seq::new(groups.len(), |n: int| groups[n].artifact_layout)
}

/// Why a planned frame cannot be submitted.
pub open spec fn finish_refusal(
    plan: SourcePlan,
    packet: &Packet,
    entropy: EntropyPlans,
    memory_limit: u64,
    limits: DeviceLimits,
    sizes: RecordSizes,
) -> Option<VarDctDecodeError> {
    match entropy.decision {
        AdaptiveStreamLimitDecision::BudgetTooSmall { required_bytes } => Some(
            VarDctDecodeError::MemoryBudgetTooSmall { required_bytes, limit_bytes: memory_limit },
        ),
        AdaptiveStreamLimitDecision::Selected(_) => device_refusal(
            limits,
            entropy.memory,
            packet,
            plan_layouts(plan.groups@),
            match entropy.hf {
                Some(groups) => Some(groups@),
                None => None,
            },
            sizes,
        ),
    }
}

/// Fixes the stream window and the control records of a planned frame and holds all of its
/// resources to the device.
pub fn finish_source(
    plan: SourcePlan,
    packet: &Packet,
    external_lf: &Vec<bool>,
    entropy: &EntropyPlans,
    memory_limit: u64,
    limits: DeviceLimits,
    sizes: RecordSizes,
) -> (r: Result<PreparedSource, VarDctDecodeError>)
    requires
        plan.groups@.len() == packet.groups@.len(),
        external_lf@.len() == packet.groups@.len(),
    ensures
        match finish_refusal(plan, packet, *entropy, memory_limit, limits, sizes) {
            Some(error) => r == Err::<PreparedSource, VarDctDecodeError>(error),
            None => r matches Ok(source) && ({
                &&& entropy.decision == AdaptiveStreamLimitDecision::Selected(source.stream_limit)
                &&& source.groups == plan.groups
                &&& source.lowering == plan.lowering
                &&& source.deferred_hf == (entropy.deferred_hf && !entropy.combined_windows)
                &&& source.controls@.len() == packet.groups@.len()
                &&& forall|n: int|
                    0 <= n < packet.groups@.len() ==> #[trigger] source.controls@[n]
                        == control_stage(packet, external_lf@[n], entropy.combined_windows)
            }),
        },
{
    let stream_limit: u64 = match resolve_stream_limit(entropy.decision, memory_limit) {
        Ok(limit) => limit,
        Err(error) => {
            return Err(error);
        },
    };
    let mut controls: Vec<ControlStage> = Vec::new();
    let mut layouts: Vec<VarDctArtifactLayout> = Vec::new();
    let mut n: usize = 0;
    while n < packet.groups.len()
        invariant
            n <= packet.groups@.len(),
            plan.groups@.len() == packet.groups@.len(),
            external_lf@.len() == packet.groups@.len(),
            controls@.len() == n,
            layouts@.len() == n,
            forall|k: int|
                0 <= k < n ==> #[trigger] controls@[k] == control_stage(
                    packet,
                    external_lf@[k],
                    entropy.combined_windows,
                ),
            forall|k: int| 0 <= k < n ==> #[trigger] layouts@[k] == plan.groups@[k].artifact_layout,
        decreases packet.groups@.len() - n,
    {
        controls.push(choose_control(packet, external_lf[n], entropy.combined_windows));
        layouts.push(plan.groups[n].artifact_layout);
        n = n + 1;
    }
    assert(layouts@ =~= plan_layouts(plan.groups@));
    match validate_device_limits(
        limits,
        &entropy.memory,
        packet,
        &layouts,
        entropy.hf.as_ref(),
        sizes,
    ) {
        Ok(_) => {},
        Err(error) => {
            return Err(error);
        },
    }
    Ok(
        PreparedSource {
            stream_limit,
            groups: plan.groups,
            lowering: plan.lowering,
            controls,
            deferred_hf: entropy.deferred_hf && !entropy.combined_windows,
        },
    )
}

} // verus!
