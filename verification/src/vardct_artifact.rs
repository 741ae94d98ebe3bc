//! GPU-resident artifacts between JPEG XL entropy reconstruction and inverse VarDCT.
//!
//! One buffer holds, in this order and each at a binding boundary, the status of the lowering
//! pass, the transform buckets, the tasks, their indirect dispatches, the entropy-side task
//! metadata and the map from blocks to tasks.

pub mod laws;

use crate::arith::{
    ceil_div, div_ceil_u32, div_ceil_u64, greatest, is_power_of_two, least, lemma_ceil_div, max_u64,
    min_u32,
};
use vstd::arithmetic::power2::is_pow2;
use vstd::prelude::*;

verus! {

pub const VAR_DCT_STRATEGY_COUNT: usize = 27;

pub const HF_ORDER_COUNT: usize = 13;

pub const HF_ORDER_CHANNELS: usize = 3;

/// Extent of the coefficients that each order visits.
pub const HF_ORDER_EXTENTS: [[u32; 2]; 13] = [
    [8, 8],
    [8, 8],
    [16, 16],
    [32, 32],
    [16, 8],
    [32, 8],
    [32, 16],
    [64, 64],
    [64, 32],
    [128, 128],
    [128, 64],
    [256, 256],
    [256, 128],
];

pub const GENERAL_TASK_BYTES: u64 = 64;

pub const INDIRECT_STAGE_COUNT: usize = 3;

pub const ARTIFACT_STATUS_WORDS: u32 = 16;

pub const BACKEND_REQUIREMENT_FREQUENCY_CFL_GRID: u32 = 1;

/// Bytes of the lowering pass parameters.
pub const LOWERING_PARAMS_BYTES: u64 = 208;

const PORTABLE_BINDING_ALIGNMENT: u64 = 256;

const COEFFICIENTS_PER_BLOCK: u64 = 192;

/// Failure while planning a GPU-resident VarDCT artifact.
#[derive(Clone, Copy, Debug, PartialEq, Eq)]
pub enum VarDctArtifactError {
    ZeroDimension { axis: &'static str },
    ZeroBlockInfoEntries,
    ZeroPassGroupDimension,
    InvalidGeometry { field: &'static str },
    ArithmeticOverflow { field: &'static str },
    BufferLimit { resource: &'static str, required: u64, maximum: u64 },
    StorageBindingLimit { resource: &'static str, required: u64, maximum: u64 },
    RawMetadataRange { end: u64, available: u64 },
    InvalidBindingAlignment { alignment: u64 },
    InvalidBucket { field: &'static str },
}

/// Device limits relevant to the buffers in [`VarDctArtifactLayout`].
#[derive(Clone, Copy, Debug, PartialEq, Eq, Structural)]
pub struct VarDctArtifactDeviceLimits {
    pub max_buffer_size: u64,
    pub max_storage_buffer_binding_size: u64,
    pub storage_binding_alignment: u64,
}

impl VarDctArtifactDeviceLimits {
    /// The limits of a device, with offsets aligned for every portable device.
    pub fn new(
        max_buffer_size: u64,
        max_storage_buffer_binding_size: u64,
        min_storage_buffer_offset_alignment: u32,
    ) -> (limits: Self)
        ensures
            limits.max_buffer_size == max_buffer_size,
            limits.max_storage_buffer_binding_size == max_storage_buffer_binding_size,
            limits.storage_binding_alignment == greatest(
                min_storage_buffer_offset_alignment as int,
                256,
            ),
    {
        VarDctArtifactDeviceLimits {
            max_buffer_size,
            max_storage_buffer_binding_size,
            storage_binding_alignment: max_u64(
                min_storage_buffer_offset_alignment as u64,
                PORTABLE_BINDING_ALIGNMENT,
            ),
        }
    }
}

/// Geometry and source-channel offsets for one decoded LF group.
#[derive(Clone, Copy, Debug, PartialEq, Eq)]
pub struct HfMetadataArtifactConfig {
    pub blocks_width: u32,
    pub blocks_height: u32,
    /// Number of entries in each row of the raw `block_info` channel.
    pub block_info_entries: u32,
    /// Word offset of the strategy row in the generic Modular reconstruction buffer.
    pub strategy_offset_words: u32,
    /// Word offset of the `hf_mul - 1` row in the reconstruction buffer.
    pub hf_mul_offset_words: u32,
    /// Number of words in the reconstruction buffer bound at group 0, binding 0.
    pub raw_metadata_words: u64,
    /// Blocks in each direction of a pass group.
    pub pass_group_dim_blocks: u32,
    pub lf_stride: u32,
    pub correlation_width: u32,
    pub correlation_height: u32,
    pub destination_origin: [u32; 2],
    /// Offset of the immutable AFV basis in the general VarDCT resource-vector buffer.
    pub afv_basis_offset: u32,
    /// Resource-vector offsets for the dequant matrix selected by each wire strategy.
    pub matrix_offsets: [u32; 27],
}

/// Byte/word offsets for the single GPU artifact buffer and its coefficient/workspace buffers.
#[derive(Clone, Copy, Debug, PartialEq, Eq, Structural)]
pub struct VarDctArtifactLayout {
    pub status_offset_words: u32,
    pub buckets_offset_words: u32,
    pub tasks_offset_words: u32,
    pub indirect_offset_words: u32,
    pub task_metadata_offset_words: u32,
    pub block_task_map_offset_words: u32,
    pub artifact_bytes: u64,
    pub occupancy_bytes: u64,
    pub coefficient_bytes: u64,
    pub task_capacity: u32,
    pub block_count: u32,
    pub coefficient_capacity_words: u32,
    pub binding_alignment_bytes: u64,
}

/// The least multiple of `alignment` that is not below `value`.
pub open spec fn aligned(value: int, alignment: int) -> int {
    ceil_div(value, alignment) * alignment
}

/// The boundary at which sections start.
pub open spec fn section_alignment(limits: VarDctArtifactDeviceLimits) -> u64 {
    greatest(limits.storage_binding_alignment as int, 256) as u64
}

/// Blocks of a group.
pub open spec fn group_blocks(config: &HfMetadataArtifactConfig) -> int {
    config.blocks_width * config.blocks_height
}

/// Tasks of a group: one for each entry, and never more than blocks.
pub open spec fn group_tasks(config: &HfMetadataArtifactConfig) -> int {
    least(config.block_info_entries as int, group_blocks(config))
}

/// Bytes of each section of the artifact.
pub open spec fn section_bytes(config: &HfMetadataArtifactConfig, section: int) -> int {
    if section == 0 {
        16int * 4
    } else if section == 1 {
        27int * 16
    } else if section == 2 {
        group_tasks(config) * 64
    } else if section == 3 {
        27int * 3 * 12
    } else if section == 4 {
        group_tasks(config) * 48
    } else {
        group_blocks(config) * 4
    }
}

/// Where each section of the artifact starts: status, buckets, tasks, indirect dispatches, task
/// metadata and the block-task map; then the end of the artifact.
pub open spec fn section_start(
    config: &HfMetadataArtifactConfig,
    alignment: int,
    section: int,
) -> int
    decreases section,
{
    if section <= 0 {
        0
    } else {
        aligned(
            section_start(config, alignment, section - 1) + section_bytes(config, section - 1),
            alignment,
        )
    }
}

/// What the offset of a section is called.
pub open spec fn section_field(section: int) -> &'static str {
    if section == 0 {
        "status offset"
    } else if section == 1 {
        "bucket offset"
    } else if section == 2 {
        "task offset"
    } else if section == 3 {
        "indirect offset"
    } else if section == 4 {
        "task metadata offset"
    } else if section == 5 {
        "block-task map offset"
    } else {
        "artifact bytes"
    }
}

/// The first section whose start cannot be computed in a machine word.
pub open spec fn section_overflow(
    config: &HfMetadataArtifactConfig,
    alignment: int,
    section: int,
) -> Option<VarDctArtifactError>
    decreases 7 - section,
{
    if section > 6 {
        None
    } else if section_start(config, alignment, section - 1) + section_bytes(config, section - 1)
        + alignment - 1 > u64::MAX {
        Some(VarDctArtifactError::ArithmeticOverflow { field: section_field(section) })
    } else {
        section_overflow(config, alignment, section + 1)
    }
}

/// The first section whose start is no GPU word address.
pub open spec fn section_unaddressable(
    config: &HfMetadataArtifactConfig,
    alignment: int,
    section: int,
) -> Option<VarDctArtifactError>
    decreases 6 - section,
{
    if section > 5 {
        None
    } else if section_start(config, alignment, section) / 4 > u32::MAX {
        Some(VarDctArtifactError::ArithmeticOverflow { field: section_field(section) })
    } else {
        section_unaddressable(config, alignment, section + 1)
    }
}

/// What is wrong with the geometry of a group.
pub open spec fn geometry_refusal(config: &HfMetadataArtifactConfig) -> Option<
    VarDctArtifactError,
> {
    if config.blocks_width == 0 {
        Some(VarDctArtifactError::ZeroDimension { axis: "horizontal" })
    } else if config.blocks_height == 0 {
        Some(VarDctArtifactError::ZeroDimension { axis: "vertical" })
    } else if config.block_info_entries == 0 {
        Some(VarDctArtifactError::ZeroBlockInfoEntries)
    } else if config.pass_group_dim_blocks == 0 {
        Some(VarDctArtifactError::ZeroPassGroupDimension)
    } else if config.lf_stride < config.blocks_width {
        Some(
            VarDctArtifactError::InvalidGeometry {
                field: "LF stride is smaller than the block width",
            },
        )
    } else if config.correlation_width < ceil_div(config.blocks_width as int, 8)
        || config.correlation_height < ceil_div(config.blocks_height as int, 8) {
        Some(
            VarDctArtifactError::InvalidGeometry {
                field: "correlation grid does not cover the LF group",
            },
        )
    } else if config.destination_origin[0] + config.blocks_width * 8 > u32::MAX {
        Some(VarDctArtifactError::ArithmeticOverflow { field: "horizontal destination extent" })
    } else if config.destination_origin[1] + config.blocks_height * 8 > u32::MAX {
        Some(VarDctArtifactError::ArithmeticOverflow { field: "vertical destination extent" })
    } else {
        None
    }
}

/// What of a buffer exceeds the device.
pub open spec fn device_refusal(
    resource: &'static str,
    bytes: int,
    limits: VarDctArtifactDeviceLimits,
) -> Option<VarDctArtifactError> {
    if bytes > limits.max_buffer_size {
        Some(
            VarDctArtifactError::BufferLimit {
                resource,
                required: bytes as u64,
                maximum: limits.max_buffer_size,
            },
        )
    } else if bytes > limits.max_storage_buffer_binding_size {
        Some(
            VarDctArtifactError::StorageBindingLimit {
                resource,
                required: bytes as u64,
                maximum: limits.max_storage_buffer_binding_size,
            },
        )
    } else {
        None
    }
}

/// Bytes of one bit for each block, in whole words.
pub open spec fn occupancy_size(config: &HfMetadataArtifactConfig) -> int {
    ceil_div(group_blocks(config), 32) * 4
}

/// Bytes of all coefficients.
pub open spec fn coefficient_size(config: &HfMetadataArtifactConfig) -> int {
    group_blocks(config) * 192 * 4
}

/// One past the last raw metadata word that the lowering pass reads.
pub open spec fn raw_metadata_end(config: &HfMetadataArtifactConfig) -> int {
    greatest(config.strategy_offset_words as int, config.hf_mul_offset_words as int)
        + config.block_info_entries
}

/// The first of two refusals.
pub open spec fn first_refusal(
    first: Option<VarDctArtifactError>,
    next: Option<VarDctArtifactError>,
) -> Option<VarDctArtifactError> {
    if first is Some {
        first
    } else {
        next
    }
}

/// Why a group has no artifact layout.
pub open spec fn layout_refusal(
    config: &HfMetadataArtifactConfig,
    limits: VarDctArtifactDeviceLimits,
) -> Option<VarDctArtifactError> {
    let alignment = section_alignment(limits);
    if geometry_refusal(config) is Some {
        geometry_refusal(config)
    } else if !is_pow2(alignment as int) {
        Some(VarDctArtifactError::InvalidBindingAlignment { alignment })
    } else if group_blocks(config) > u32::MAX {
        Some(VarDctArtifactError::ArithmeticOverflow { field: "GPU block count" })
    } else if group_blocks(config) * 192 > u32::MAX {
        Some(VarDctArtifactError::ArithmeticOverflow { field: "GPU coefficient word count" })
    } else if section_overflow(config, alignment as int, 1) is Some {
        section_overflow(config, alignment as int, 1)
    } else {
        first_refusal(
            device_refusal(
                "VarDCT artifact",
                section_start(config, alignment as int, 6),
                limits,
            ),
            first_refusal(
                device_refusal("VarDCT occupancy workspace", occupancy_size(config), limits),
                first_refusal(
                    device_refusal("VarDCT coefficients", coefficient_size(config), limits),
                    if raw_metadata_end(config) > config.raw_metadata_words {
                        Some(
                            VarDctArtifactError::RawMetadataRange {
                                end: raw_metadata_end(config) as u64,
                                available: config.raw_metadata_words,
                            },
                        )
                    } else {
                        section_unaddressable(config, alignment as int, 0)
                    },
                ),
            ),
        )
    }
}

/// The artifact layout of an accepted group.
pub open spec fn layout_of(
    config: &HfMetadataArtifactConfig,
    limits: VarDctArtifactDeviceLimits,
) -> VarDctArtifactLayout {
    let alignment = section_alignment(limits);
    let words = |section: int| (section_start(config, alignment as int, section) / 4) as u32;
    VarDctArtifactLayout {
        status_offset_words: words(0),
        buckets_offset_words: words(1),
        tasks_offset_words: words(2),
        indirect_offset_words: words(3),
        task_metadata_offset_words: words(4),
        block_task_map_offset_words: words(5),
        artifact_bytes: section_start(config, alignment as int, 6) as u64,
        occupancy_bytes: occupancy_size(config) as u64,
        coefficient_bytes: coefficient_size(config) as u64,
        task_capacity: group_tasks(config) as u32,
        block_count: group_blocks(config) as u32,
        coefficient_capacity_words: (group_blocks(config) * 192) as u32,
        binding_alignment_bytes: alignment,
    }
}

/// Rounds `value` up to a multiple of `alignment`.
fn align_up(value: u64, alignment: u64, field: &'static str) -> (r: Result<
    u64,
    VarDctArtifactError,
>)
    requires
        alignment > 0,
    ensures
        if value + alignment - 1 > u64::MAX {
            r == Err::<u64, VarDctArtifactError>(VarDctArtifactError::ArithmeticOverflow { field })
        } else {
            r matches Ok(up) && up == aligned(value as int, alignment as int) && value <= up < value
                + alignment
        },
{
    match value.checked_add(alignment - 1) {
        Some(sum) => {
            proof {
                lemma_ceil_div(value as int, alignment as int);
                vstd::arithmetic::div_mod::lemma_fundamental_div_mod(sum as int, alignment as int);
                let q = sum as int / alignment as int;
                assert(q * alignment == alignment * q) by (nonlinear_arith);
            }
            Ok(sum / alignment * alignment)
        },
        None => Err(VarDctArtifactError::ArithmeticOverflow { field }),
    }
}

/// A byte offset as a GPU word address.
fn word_offset(value: u64, field: &'static str) -> (r: Result<u32, VarDctArtifactError>)
    ensures
        if value / 4 > u32::MAX {
            r == Err::<u32, VarDctArtifactError>(VarDctArtifactError::ArithmeticOverflow { field })
        } else {
            r == Ok::<u32, VarDctArtifactError>((value / 4) as u32)
        },
{
    if value / 4 > u32::MAX as u64 {
        return Err(VarDctArtifactError::ArithmeticOverflow { field });
    }
    Ok((value / 4) as u32)
}

fn check_buffer_limit(resource: &'static str, required: u64, maximum: u64) -> (r: Result<
    (),
    VarDctArtifactError,
>)
    ensures
        if required > maximum {
            r == Err::<(), VarDctArtifactError>(
                VarDctArtifactError::BufferLimit { resource, required, maximum },
            )
        } else {
            r is Ok
        },
{
    if required > maximum {
        return Err(VarDctArtifactError::BufferLimit { resource, required, maximum });
    }
    Ok(())
}

fn check_storage_limit(resource: &'static str, required: u64, maximum: u64) -> (r: Result<
    (),
    VarDctArtifactError,
>)
    ensures
        if required > maximum {
            r == Err::<(), VarDctArtifactError>(
                VarDctArtifactError::StorageBindingLimit { resource, required, maximum },
            )
        } else {
            r is Ok
        },
{
    if required > maximum {
        return Err(VarDctArtifactError::StorageBindingLimit { resource, required, maximum });
    }
    Ok(())
}

/// Refuses a buffer that the device cannot hold or bind.
fn check_device(resource: &'static str, bytes: u64, limits: VarDctArtifactDeviceLimits) -> (r: Result<
    (),
    VarDctArtifactError,
>)
    ensures
        match device_refusal(resource, bytes as int, limits) {
            Some(error) => r == Err::<(), VarDctArtifactError>(error),
            None => r is Ok,
        },
{
    match check_buffer_limit(resource, bytes, limits.max_buffer_size) {
        Ok(_) => check_storage_limit(resource, bytes, limits.max_storage_buffer_binding_size),
        Err(error) => Err(error),
    }
}

/// Refuses a geometry that no group has.
fn check_geometry(config: &HfMetadataArtifactConfig) -> (r: Result<(), VarDctArtifactError>)
    ensures
        match geometry_refusal(config) {
            Some(error) => r == Err::<(), VarDctArtifactError>(error),
            None => r is Ok,
        },
{
    if config.blocks_width == 0 {
        return Err(VarDctArtifactError::ZeroDimension { axis: "horizontal" });
    }
    if config.blocks_height == 0 {
        return Err(VarDctArtifactError::ZeroDimension { axis: "vertical" });
    }
    if config.block_info_entries == 0 {
        return Err(VarDctArtifactError::ZeroBlockInfoEntries);
    }
    if config.pass_group_dim_blocks == 0 {
        return Err(VarDctArtifactError::ZeroPassGroupDimension);
    }
    if config.lf_stride < config.blocks_width {
        return Err(
            VarDctArtifactError::InvalidGeometry {
                field: "LF stride is smaller than the block width",
            },
        );
    }
    if config.correlation_width < div_ceil_u32(config.blocks_width, 8) || config.correlation_height
        < div_ceil_u32(config.blocks_height, 8) {
        return Err(
            VarDctArtifactError::InvalidGeometry {
                field: "correlation grid does not cover the LF group",
            },
        );
    }
    if config.destination_origin[0] as u64 + config.blocks_width as u64 * 8 > u32::MAX as u64 {
        return Err(
            VarDctArtifactError::ArithmeticOverflow { field: "horizontal destination extent" },
        );
    }
    if config.destination_origin[1] as u64 + config.blocks_height as u64 * 8 > u32::MAX as u64 {
        return Err(
            VarDctArtifactError::ArithmeticOverflow { field: "vertical destination extent" },
        );
    }
    Ok(())
}

/// The start of the next section, which is `bytes` behind `start`.
fn next_section(start: u64, bytes: u64, alignment: u64, field: &'static str) -> (r: Result<
    u64,
    VarDctArtifactError,
>)
    requires
        alignment > 0,
    ensures
        if start + bytes + alignment - 1 > u64::MAX {
            r == Err::<u64, VarDctArtifactError>(VarDctArtifactError::ArithmeticOverflow { field })
        } else {
            r matches Ok(up) && up == aligned(start + bytes, alignment as int)
        },
{
    match start.checked_add(bytes) {
        Some(end) => align_up(end, alignment, field),
        None => Err(VarDctArtifactError::ArithmeticOverflow { field }),
    }
}

impl VarDctArtifactLayout {
    /// Lays out the artifact of one group.
    pub fn plan(config: &HfMetadataArtifactConfig, limits: VarDctArtifactDeviceLimits) -> (r: Result<
        Self,
        VarDctArtifactError,
    >)
        ensures
            match layout_refusal(config, limits) {
                Some(error) => r == Err::<Self, VarDctArtifactError>(error),
                None => r == Ok::<Self, VarDctArtifactError>(layout_of(config, limits)),
            },
    {
        match check_geometry(config) {
            Ok(_) => {},
            Err(error) => {
                return Err(error);
            },
        }
        let alignment: u64 = max_u64(limits.storage_binding_alignment, PORTABLE_BINDING_ALIGNMENT);
        if !is_power_of_two(alignment) {
            return Err(VarDctArtifactError::InvalidBindingAlignment { alignment });
        }
        let ghost a = alignment as int;
        assert(0 < group_blocks(config) <= 0x2000_0000 * 0x2000_0000) by (nonlinear_arith)
            requires
                group_blocks(config) == config.blocks_width * config.blocks_height,
                0 < config.blocks_width <= 0x2000_0000,
                0 < config.blocks_height <= 0x2000_0000,
        ;
        let blocks: u64 = config.blocks_width as u64 * config.blocks_height as u64;
        if blocks > u32::MAX as u64 {
            return Err(VarDctArtifactError::ArithmeticOverflow { field: "GPU block count" });
        }
        let tasks: u32 = min_u32(config.block_info_entries, blocks as u32);
        let coefficients: u64 = blocks * COEFFICIENTS_PER_BLOCK;
        if coefficients > u32::MAX as u64 {
            return Err(
                VarDctArtifactError::ArithmeticOverflow { field: "GPU coefficient word count" },
            );
        }
        let coefficient_bytes: u64 = coefficients * 4;
        proof {
            reveal_with_fuel(section_overflow, 7);
            reveal_with_fuel(section_unaddressable, 7);
            reveal_with_fuel(section_start, 7);
            lemma_sections(config, a);
        }
        let buckets: u64 = match next_section(0, 64, alignment, "bucket offset") {
            Ok(start) => start,
            Err(error) => {
                return Err(error);
            },
        };
        let task_start: u64 = match next_section(buckets, 432, alignment, "task offset") {
            Ok(start) => start,
            Err(error) => {
                return Err(error);
            },
        };
        let indirect: u64 = match next_section(
            task_start,
            tasks as u64 * 64,
            alignment,
            "indirect offset",
        ) {
            Ok(start) => start,
            Err(error) => {
                return Err(error);
            },
        };
        let task_metadata: u64 = match next_section(
            indirect,
            972,
            alignment,
            "task metadata offset",
        ) {
            Ok(start) => start,
            Err(error) => {
                return Err(error);
            },
        };
        let block_map: u64 = match next_section(
            task_metadata,
            tasks as u64 * 48,
            alignment,
            "block-task map offset",
        ) {
            Ok(start) => start,
            Err(error) => {
                return Err(error);
            },
        };
        let artifact_bytes: u64 = match next_section(
            block_map,
            blocks * 4,
            alignment,
            "artifact bytes",
        ) {
            Ok(start) => start,
            Err(error) => {
                return Err(error);
            },
        };
        proof {
            lemma_ceil_div(blocks as int, 32);
        }
        let occupancy_bytes: u64 = div_ceil_u64(blocks, 32) * 4;
        match check_device("VarDCT artifact", artifact_bytes, limits) {
            Ok(_) => {},
            Err(error) => {
                return Err(error);
            },
        }
        match check_device("VarDCT occupancy workspace", occupancy_bytes, limits) {
            Ok(_) => {},
            Err(error) => {
                return Err(error);
            },
        }
        match check_device("VarDCT coefficients", coefficient_bytes, limits) {
            Ok(_) => {},
            Err(error) => {
                return Err(error);
            },
        }
        let raw_end: u64 = max_u64(
            config.strategy_offset_words as u64,
            config.hf_mul_offset_words as u64,
        ) + config.block_info_entries as u64;
        if raw_end > config.raw_metadata_words {
            return Err(
                VarDctArtifactError::RawMetadataRange {
                    end: raw_end,
                    available: config.raw_metadata_words,
                },
            );
        }
        let buckets_offset_words: u32 = match word_offset(buckets, "bucket offset") {
            Ok(words) => words,
            Err(error) => {
                return Err(error);
            },
        };
        let tasks_offset_words: u32 = match word_offset(task_start, "task offset") {
            Ok(words) => words,
            Err(error) => {
                return Err(error);
            },
        };
        let indirect_offset_words: u32 = match word_offset(indirect, "indirect offset") {
            Ok(words) => words,
            Err(error) => {
                return Err(error);
            },
        };
        let task_metadata_offset_words: u32 = match word_offset(
            task_metadata,
            "task metadata offset",
        ) {
            Ok(words) => words,
            Err(error) => {
                return Err(error);
            },
        };
        let block_task_map_offset_words: u32 = match word_offset(
            block_map,
            "block-task map offset",
        ) {
            Ok(words) => words,
            Err(error) => {
                return Err(error);
            },
        };
        Ok(
            VarDctArtifactLayout {
                status_offset_words: 0,
                buckets_offset_words,
                tasks_offset_words,
                indirect_offset_words,
                task_metadata_offset_words,
                block_task_map_offset_words,
                artifact_bytes,
                occupancy_bytes,
                coefficient_bytes,
                task_capacity: tasks,
                block_count: blocks as u32,
                coefficient_capacity_words: coefficients as u32,
                binding_alignment_bytes: alignment,
            },
        )
    }
}

/// The starts of all sections, spelled out.
pub(crate) proof fn lemma_sections(config: &HfMetadataArtifactConfig, a: int)
    ensures
        section_start(config, a, 0) == 0,
        section_start(config, a, 1) == aligned(64, a),
        section_start(config, a, 2) == aligned(section_start(config, a, 1) + 432, a),
        section_start(config, a, 3) == aligned(
            section_start(config, a, 2) + group_tasks(config) * 64,
            a,
        ),
        section_start(config, a, 4) == aligned(section_start(config, a, 3) + 972, a),
        section_start(config, a, 5) == aligned(
            section_start(config, a, 4) + group_tasks(config) * 48,
            a,
        ),
        section_start(config, a, 6) == aligned(
            section_start(config, a, 5) + group_blocks(config) * 4,
            a,
        ),
{
    reveal_with_fuel(section_start, 8);
}

/// General-VarDCT dispatch stage represented by one standard 12-byte indirect tuple.
#[derive(Clone, Copy, Debug, PartialEq, Eq, Structural)]
pub enum HfDispatchStage {
    Dequantize,
    Horizontal,
    Vertical,
}

/// Place of a stage among the indirect tuples of its strategy.
pub open spec fn stage_index(stage: HfDispatchStage) -> int {
    match stage {
        HfDispatchStage::Dequantize => 0,
        HfDispatchStage::Horizontal => 1,
        HfDispatchStage::Vertical => 2,
    }
}

/// Inverse transform of one varblock, in the order of the wire strategies.
#[derive(Clone, Copy, Debug, PartialEq, Eq, Structural)]
pub enum TransformKind {
    Dct8,
    Hornuss,
    Dct2,
    Dct4,
    Dct16,
    Dct32,
    Dct16x8,
    Dct8x16,
    Dct32x8,
    Dct8x32,
    Dct32x16,
    Dct16x32,
    Dct4x8,
    Dct8x4,
    Afv0,
    Afv1,
    Afv2,
    Afv3,
    Dct64,
    Dct64x32,
    Dct32x64,
    Dct128,
    Dct128x64,
    Dct64x128,
    Dct256,
    Dct256x128,
    Dct128x256,
}

impl TransformKind {
    /// The wire strategy of a transform.
    pub open spec fn wire(self) -> int {
        match self {
            TransformKind::Dct8 => 0,
            TransformKind::Hornuss => 1,
            TransformKind::Dct2 => 2,
            TransformKind::Dct4 => 3,
            TransformKind::Dct16 => 4,
            TransformKind::Dct32 => 5,
            TransformKind::Dct16x8 => 6,
            TransformKind::Dct8x16 => 7,
            TransformKind::Dct32x8 => 8,
            TransformKind::Dct8x32 => 9,
            TransformKind::Dct32x16 => 10,
            TransformKind::Dct16x32 => 11,
            TransformKind::Dct4x8 => 12,
            TransformKind::Dct8x4 => 13,
            TransformKind::Afv0 => 14,
            TransformKind::Afv1 => 15,
            TransformKind::Afv2 => 16,
            TransformKind::Afv3 => 17,
            TransformKind::Dct64 => 18,
            TransformKind::Dct64x32 => 19,
            TransformKind::Dct32x64 => 20,
            TransformKind::Dct128 => 21,
            TransformKind::Dct128x64 => 22,
            TransformKind::Dct64x128 => 23,
            TransformKind::Dct256 => 24,
            TransformKind::Dct256x128 => 25,
            TransformKind::Dct128x256 => 26,
        }
    }

    /// The transform of a wire strategy.
    pub fn from_wire(strategy: u32) -> (r: Option<Self>)
        ensures
            match r {
                Some(kind) => kind.wire() == strategy,
                None => strategy >= 27,
            },
    {
        match strategy {
            0 => Some(TransformKind::Dct8),
            1 => Some(TransformKind::Hornuss),
            2 => Some(TransformKind::Dct2),
            3 => Some(TransformKind::Dct4),
            4 => Some(TransformKind::Dct16),
            5 => Some(TransformKind::Dct32),
            6 => Some(TransformKind::Dct16x8),
            7 => Some(TransformKind::Dct8x16),
            8 => Some(TransformKind::Dct32x8),
            9 => Some(TransformKind::Dct8x32),
            10 => Some(TransformKind::Dct32x16),
            11 => Some(TransformKind::Dct16x32),
            12 => Some(TransformKind::Dct4x8),
            13 => Some(TransformKind::Dct8x4),
            14 => Some(TransformKind::Afv0),
            15 => Some(TransformKind::Afv1),
            16 => Some(TransformKind::Afv2),
            17 => Some(TransformKind::Afv3),
            18 => Some(TransformKind::Dct64),
            19 => Some(TransformKind::Dct64x32),
            20 => Some(TransformKind::Dct32x64),
            21 => Some(TransformKind::Dct128),
            22 => Some(TransformKind::Dct128x64),
            23 => Some(TransformKind::Dct64x128),
            24 => Some(TransformKind::Dct256),
            25 => Some(TransformKind::Dct256x128),
            26 => Some(TransformKind::Dct128x256),
            _ => None,
        }
    }
}

/// One transform bucket in wire-strategy order.
#[derive(Clone, Copy, Debug, PartialEq, Eq, Structural)]
pub struct GpuVarDctBucket {
    pub strategy: u32,
    pub task_offset: u32,
    pub task_count: u32,
    pub indirect_word_offset: u32,
}

/// Typed, buffer-relative dispatch view for one transform bucket.
#[derive(Clone, Copy, Debug, PartialEq, Eq, Structural)]
pub struct VarDctBucketDispatch {
    pub transform: TransformKind,
    pub task_offset: u32,
    pub task_count: u32,
    pub dequantize_indirect_offset: u64,
    pub horizontal_indirect_offset: u64,
    pub vertical_indirect_offset: u64,
}

impl VarDctArtifactLayout {
    /// Byte offset of the indirect tuple of a strategy and stage.
    pub open spec fn indirect_start(self, strategy: int, stage: HfDispatchStage) -> int {
        self.indirect_offset_words * 4 + (strategy * 3 + stage_index(stage)) * 12
    }

    /// Bytes that stay resident while the frame decodes.
    pub fn persistent_bytes(self) -> (bytes: u64)
        ensures
            bytes == least(self.artifact_bytes + self.coefficient_bytes, u64::MAX as int),
    {
        self.artifact_bytes.saturating_add(self.coefficient_bytes)
    }

    /// Bytes that only the lowering pass uses.
    pub fn transient_bytes(self) -> (bytes: u64)
        ensures
            bytes == least(self.occupancy_bytes + LOWERING_PARAMS_BYTES, u64::MAX as int),
    {
        self.occupancy_bytes.saturating_add(LOWERING_PARAMS_BYTES)
    }

    /// Byte offset and size of the task section.
    pub fn task_binding(self) -> (binding: (u64, u64))
        ensures
            binding.0 == self.tasks_offset_words * 4,
            binding.1 == self.task_capacity * GENERAL_TASK_BYTES,
    {
        (self.tasks_offset_words as u64 * 4, self.task_capacity as u64 * GENERAL_TASK_BYTES)
    }

    /// Byte offset of the indirect tuple of a strategy and stage.
    pub fn indirect_offset(self, strategy: usize, stage: HfDispatchStage) -> (offset: Option<u64>)
        ensures
            if strategy < VAR_DCT_STRATEGY_COUNT {
                offset matches Some(at) && at == self.indirect_start(strategy as int, stage)
            } else {
                offset is None
            },
    {
        if strategy >= VAR_DCT_STRATEGY_COUNT {
            return None;
        }
        let place: u64 = match stage {
            HfDispatchStage::Dequantize => 0,
            HfDispatchStage::Horizontal => 1,
            HfDispatchStage::Vertical => 2,
        };
        let index: u64 = strategy as u64 * 3 + place;
        Some(self.indirect_offset_words as u64 * 4 + index * 12)
    }

    /// The boundary at which sections start.
    pub fn binding_alignment(self) -> (alignment: u64)
        ensures
            alignment == self.binding_alignment_bytes,
    {
        self.binding_alignment_bytes
    }

    /// What is wrong with a bucket.
    pub open spec fn bucket_refusal(self, bucket: GpuVarDctBucket) -> Option<&'static str> {
        if bucket.strategy >= 27 {
            Some("wire strategy")
        } else if bucket.task_offset + bucket.task_count > self.task_capacity {
            Some("task range")
        } else if bucket.indirect_word_offset * 4 != self.indirect_start(
            bucket.strategy as int,
            HfDispatchStage::Dequantize,
        ) {
            Some("indirect offset")
        } else {
            None
        }
    }

    /// Validates one GPU-produced bucket and resolves its typed inverse-transform dispatches.
    pub fn bucket_dispatch(self, bucket: GpuVarDctBucket) -> (r: Result<
        VarDctBucketDispatch,
        VarDctArtifactError,
    >)
        ensures
            match self.bucket_refusal(bucket) {
                Some(field) => r == Err::<VarDctBucketDispatch, VarDctArtifactError>(
                    VarDctArtifactError::InvalidBucket { field },
                ),
                None => r matches Ok(dispatch) && ({
                    let strategy = bucket.strategy as int;
                    &&& dispatch.transform.wire() == strategy
                    &&& dispatch.task_offset == bucket.task_offset
                    &&& dispatch.task_count == bucket.task_count
                    &&& dispatch.dequantize_indirect_offset == self.indirect_start(
                        strategy,
                        HfDispatchStage::Dequantize,
                    )
                    &&& dispatch.horizontal_indirect_offset == self.indirect_start(
                        strategy,
                        HfDispatchStage::Horizontal,
                    )
                    &&& dispatch.vertical_indirect_offset == self.indirect_start(
                        strategy,
                        HfDispatchStage::Vertical,
                    )
                }),
            },
    {
        let transform = match TransformKind::from_wire(bucket.strategy) {
            Some(transform) => transform,
            None => {
                return Err(VarDctArtifactError::InvalidBucket { field: "wire strategy" });
            },
        };
        let strategy: usize = bucket.strategy as usize;
        if bucket.task_offset as u64 + bucket.task_count as u64 > self.task_capacity as u64 {
            return Err(VarDctArtifactError::InvalidBucket { field: "task range" });
        }
        let dequantize = self.indirect_offset(strategy, HfDispatchStage::Dequantize);
        let horizontal = self.indirect_offset(strategy, HfDispatchStage::Horizontal);
        let vertical = self.indirect_offset(strategy, HfDispatchStage::Vertical);
        match (dequantize, horizontal, vertical) {
            (Some(dequantize), Some(horizontal), Some(vertical)) => {
                if dequantize / 4 != bucket.indirect_word_offset as u64 {
                    return Err(VarDctArtifactError::InvalidBucket { field: "indirect offset" });
                }
                Ok(
                    VarDctBucketDispatch {
                        transform,
                        task_offset: bucket.task_offset,
                        task_count: bucket.task_count,
                        dequantize_indirect_offset: dequantize,
                        horizontal_indirect_offset: horizontal,
                        vertical_indirect_offset: vertical,
                    },
                )
            },
            _ => Err(VarDctArtifactError::InvalidBucket { field: "indirect offset" }),
        }
    }
}

/// Status written by the metadata-lowering shader.
#[derive(Clone, Copy, Debug, PartialEq, Eq)]
pub struct GpuVarDctArtifactStatus {
    pub error_code: u32,
    pub error_x: u32,
    pub error_y: u32,
    pub error_value: u32,
    pub task_count: u32,
    pub coefficient_words: u32,
    pub covered_blocks: u32,
    pub consumed_block_info_entries: u32,
    pub backend_requirements: u32,
    pub reserved: [u32; 7],
}

/// Typed validation failure reported by the metadata-lowering compute pass.
#[allow(inconsistent_fields)]
#[derive(Clone, Copy, Debug, PartialEq, Eq, Structural)]
pub enum GpuVarDctLoweringError {
    InvalidStrategy { x: u32, y: u32, value: u32 },
    NonPositiveHfMultiplier { x: u32, y: u32, value: i32 },
    BlockInfoExhausted { x: u32, y: u32, consumed: u32 },
    TransformOutsideLfGroup { x: u32, y: u32, strategy: u32 },
    PassGroupCrossing { x: u32, y: u32, strategy: u32 },
    TransformOverlap { x: u32, y: u32, strategy: u32 },
    TaskCapacity { required: u32 },
    CoefficientCapacity { required_words: u32 },
    UnknownStatus { code: u32 },
}

/// The failure that a status record reports.
pub open spec fn lowering_failure(status: GpuVarDctArtifactStatus) -> Option<GpuVarDctLoweringError> {
    let (x, y, value) = (status.error_x, status.error_y, status.error_value);
    let code = status.error_code;
    if code == 0 {
        None
    } else if code == 1 {
        Some(GpuVarDctLoweringError::InvalidStrategy { x, y, value })
    } else if code == 2 {
        Some(
            GpuVarDctLoweringError::NonPositiveHfMultiplier {
                x,
                y,
                value: if value < 0x8000_0000 {
                    value as i32
                } else {
                    (value - 0x1_0000_0000) as i32
                },
            },
        )
    } else if code == 3 {
        Some(GpuVarDctLoweringError::BlockInfoExhausted { x, y, consumed: value })
    } else if code == 4 {
        Some(GpuVarDctLoweringError::TransformOutsideLfGroup { x, y, strategy: value })
    } else if code == 5 {
        Some(GpuVarDctLoweringError::PassGroupCrossing { x, y, strategy: value })
    } else if code == 6 {
        Some(GpuVarDctLoweringError::TransformOverlap { x, y, strategy: value })
    } else if code == 7 {
        Some(GpuVarDctLoweringError::TaskCapacity { required: value })
    } else if code == 8 {
        Some(GpuVarDctLoweringError::CoefficientCapacity { required_words: value })
    } else {
        Some(GpuVarDctLoweringError::UnknownStatus { code })
    }
}

/// A word as a two's complement number.
fn signed(value: u32) -> (r: i32)
    ensures
        r == if value < 0x8000_0000 {
            value as int
        } else {
            value - 0x1_0000_0000
        },
{
    if value < 0x8000_0000 {
        value as i32
    } else {
        -((u32::MAX - value) as i32) - 1
    }
}

impl GpuVarDctArtifactStatus {
    /// The record that sixteen words hold.
    pub fn from_words(words: [u32; 16]) -> (status: Self)
        ensures
            status.error_code == words[0],
            status.error_x == words[1],
            status.error_y == words[2],
            status.error_value == words[3],
            status.task_count == words[4],
            status.coefficient_words == words[5],
            status.covered_blocks == words[6],
            status.consumed_block_info_entries == words[7],
            status.backend_requirements == words[8],
            status.reserved@ == words@.subrange(9, 16),
    {
        let status = GpuVarDctArtifactStatus {
            error_code: words[0],
            error_x: words[1],
            error_y: words[2],
            error_value: words[3],
            task_count: words[4],
            coefficient_words: words[5],
            covered_blocks: words[6],
            consumed_block_info_entries: words[7],
            backend_requirements: words[8],
            reserved: [words[9], words[10], words[11], words[12], words[13], words[14], words[15]],
        };
        assert(status.reserved@ =~= words@.subrange(9, 16));
        status
    }

    /// Accepts exactly the record of a pass without a failure.
    pub fn validate(self) -> (r: Result<(), GpuVarDctLoweringError>)
        ensures
            match lowering_failure(self) {
                Some(error) => r == Err::<(), GpuVarDctLoweringError>(error),
                None => r is Ok,
            },
    {
        let x: u32 = self.error_x;
        let y: u32 = self.error_y;
        let value: u32 = self.error_value;
        match self.error_code {
            0 => Ok(()),
            1 => Err(GpuVarDctLoweringError::InvalidStrategy { x, y, value }),
            2 => Err(
                GpuVarDctLoweringError::NonPositiveHfMultiplier { x, y, value: signed(value) },
            ),
            3 => Err(GpuVarDctLoweringError::BlockInfoExhausted { x, y, consumed: value }),
            4 => Err(GpuVarDctLoweringError::TransformOutsideLfGroup { x, y, strategy: value }),
            5 => Err(GpuVarDctLoweringError::PassGroupCrossing { x, y, strategy: value }),
            6 => Err(GpuVarDctLoweringError::TransformOverlap { x, y, strategy: value }),
            7 => Err(GpuVarDctLoweringError::TaskCapacity { required: value }),
            8 => Err(GpuVarDctLoweringError::CoefficientCapacity { required_words: value }),
            code => Err(GpuVarDctLoweringError::UnknownStatus { code }),
        }
    }
}

/// Exact 64-byte record of one transform task.
#[derive(Clone, Copy, Debug, PartialEq, Eq, Structural)]
pub struct GpuGeneralVarDctTask {
    pub coefficient_offset: u32,
    pub scratch_or_basis_offset: u32,
    pub matrix_offset: u32,
    pub quant_index: u32,
    pub correlation_index: u32,
    pub lf_offset: u32,
    pub channel_mask: u32,
    pub pad0: u32,
    pub destination_x_x: u32,
    pub destination_y_x: u32,
    pub destination_x_y: u32,
    pub destination_y_y: u32,
    pub destination_x_b: u32,
    pub destination_y_b: u32,
    pub pad1: u32,
    pub pad2: u32,
}

/// Entropy-side metadata parallel to the compact general-transform task array.
#[derive(Clone, Copy, Debug, PartialEq, Eq, Structural)]
pub struct GpuHfTaskMetadata {
    pub strategy: u32,
    pub raster_index: u32,
    pub block_x: u32,
    pub block_y: u32,
    pub block_width: u32,
    pub block_height: u32,
    pub hf_mul: u32,
    pub pass_group: u32,
    pub coefficient_offset: u32,
    pub coefficient_words: u32,
    pub order_id: u32,
    /// Bit 0 is coefficient transposition; bit 1 selects a special 8x8 inverse.
    pub flags: u32,
}

/// Fixed-size indirect dispatch tuple accepted by WebGPU.
#[derive(Clone, Copy, Debug, PartialEq, Eq, Structural)]
pub struct GpuDispatchIndirectArgs {
    pub x: u32,
    pub y: u32,
    pub z: u32,
}

/// Parameters of the metadata-lowering pass.
#[derive(Clone, Copy, Debug, PartialEq, Eq)]
pub struct HfMetadataLoweringParams {
    pub dimensions: [u32; 4],
    pub capacities: [u32; 4],
    pub image: [u32; 4],
    pub artifact_offsets: [u32; 4],
    pub metadata_offsets: [u32; 4],
    pub source_offsets: [u32; 4],
    pub matrix_offsets: [[u32; 4]; 7],
}

/// The parameters of the metadata-lowering pass for one group and its layout.
pub open spec fn lowered(
    params: HfMetadataLoweringParams,
    config: HfMetadataArtifactConfig,
    layout: VarDctArtifactLayout,
) -> bool {
    &&& params.dimensions@ == seq![
        config.blocks_width,
        config.blocks_height,
        config.block_info_entries,
        config.pass_group_dim_blocks,
    ]
    &&& params.capacities@ == seq![
        layout.task_capacity,
        layout.coefficient_capacity_words,
        ceil_div(
            config.blocks_width as int,
            config.pass_group_dim_blocks as int,
        ) as u32,
        config.correlation_width,
    ]
    &&& params.image@ == seq![
        config.lf_stride,
        config.destination_origin[0],
        config.destination_origin[1],
        config.afv_basis_offset,
    ]
    &&& params.artifact_offsets@ == seq![
        layout.status_offset_words,
        layout.buckets_offset_words,
        layout.tasks_offset_words,
        layout.indirect_offset_words,
    ]
    &&& params.metadata_offsets@ == seq![
        layout.task_metadata_offset_words,
        layout.block_task_map_offset_words,
        0u32,
        0u32,
    ]
    &&& params.source_offsets@ == seq![
        config.strategy_offset_words,
        config.hf_mul_offset_words,
        0u32,
        0u32,
    ]
    &&& forall|k: int|
        0 <= k < 28 ==> #[trigger] params.matrix_offsets[k / 4][k % 4] == if k < 27 {
            config.matrix_offsets[k]
        } else {
            0
        }
}

impl HfMetadataLoweringParams {
    /// The parameters for one group and its layout.
    pub fn new(config: &HfMetadataArtifactConfig, layout: VarDctArtifactLayout) -> (r: Result<
        Self,
        VarDctArtifactError,
    >)
        requires
            config.pass_group_dim_blocks != 0,
        ensures
            r matches Ok(params) && lowered(params, *config, layout),
    {
        let groups_per_row: u32 = div_ceil_u32(config.blocks_width, config.pass_group_dim_blocks);
        let m: [u32; 27] = config.matrix_offsets;
        let matrix_offsets: [[u32; 4]; 7] = [
            [m[0], m[1], m[2], m[3]],
            [m[4], m[5], m[6], m[7]],
            [m[8], m[9], m[10], m[11]],
            [m[12], m[13], m[14], m[15]],
            [m[16], m[17], m[18], m[19]],
            [m[20], m[21], m[22], m[23]],
            [m[24], m[25], m[26], 0],
        ];
        let params = HfMetadataLoweringParams {
            dimensions: [
                config.blocks_width,
                config.blocks_height,
                config.block_info_entries,
                config.pass_group_dim_blocks,
            ],
            capacities: [
                layout.task_capacity,
                layout.coefficient_capacity_words,
                groups_per_row,
                config.correlation_width,
            ],
            image: [
                config.lf_stride,
                config.destination_origin[0],
                config.destination_origin[1],
                config.afv_basis_offset,
            ],
            artifact_offsets: [
                layout.status_offset_words,
                layout.buckets_offset_words,
                layout.tasks_offset_words,
                layout.indirect_offset_words,
            ],
            metadata_offsets: [
                layout.task_metadata_offset_words,
                layout.block_task_map_offset_words,
                0,
                0,
            ],
            source_offsets: [config.strategy_offset_words, config.hf_mul_offset_words, 0, 0],
            matrix_offsets,
        };
        proof {
            assert(params.dimensions@ =~= seq![
                config.blocks_width,
                config.blocks_height,
                config.block_info_entries,
                config.pass_group_dim_blocks,
            ]);
            assert(params.capacities@ =~= seq![
                layout.task_capacity,
                layout.coefficient_capacity_words,
                groups_per_row,
                config.correlation_width,
            ]);
            assert(params.image@ =~= seq![
                config.lf_stride,
                config.destination_origin[0],
                config.destination_origin[1],
                config.afv_basis_offset,
            ]);
            assert(params.artifact_offsets@ =~= seq![
                layout.status_offset_words,
                layout.buckets_offset_words,
                layout.tasks_offset_words,
                layout.indirect_offset_words,
            ]);
            assert(params.metadata_offsets@ =~= seq![
                layout.task_metadata_offset_words,
                layout.block_task_map_offset_words,
                0u32,
                0u32,
            ]);
            assert(params.source_offsets@ =~= seq![
                config.strategy_offset_words,
                config.hf_mul_offset_words,
                0u32,
                0u32,
            ]);
        }
        Ok(params)
    }
}

/// Uniform used by the composable HF coefficient sink fragment.
#[derive(Clone, Copy, Debug, PartialEq, Eq, Structural)]
pub struct HfCoefficientSinkParams {
    pub task_metadata_offset_words: u32,
    pub task_count: u32,
    pub coefficient_words: u32,
    pub order_descriptor_count: u32,
}

/// One channel/order range in a GPU-populated JPEG XL coefficient-order table.
#[derive(Clone, Copy, Debug, PartialEq, Eq, Structural)]
pub struct GpuHfOrderDescriptor {
    pub offset: u32,
    pub len: u32,
    pub width: u32,
    pub height: u32,
}

/// Extent of the coefficients that one order visits.
pub open spec fn order_extent(order_id: int) -> (int, int) {
    if order_id == 0 || order_id == 1 {
        (8, 8)
    } else if order_id == 2 {
        (16, 16)
    } else if order_id == 3 {
        (32, 32)
    } else if order_id == 4 {
        (16, 8)
    } else if order_id == 5 {
        (32, 8)
    } else if order_id == 6 {
        (32, 16)
    } else if order_id == 7 {
        (64, 64)
    } else if order_id == 8 {
        (64, 32)
    } else if order_id == 9 {
        (128, 128)
    } else if order_id == 10 {
        (128, 64)
    } else if order_id == 11 {
        (256, 256)
    } else {
        (256, 128)
    }
}

/// Coefficients that one order visits.
pub open spec fn order_area(order_id: int) -> int {
    order_extent(order_id).0 * order_extent(order_id).1
}

/// Words in front of an order: all three channels of every order before it.
pub open spec fn order_start(order_id: int) -> int
    decreases order_id,
{
    if order_id <= 0 {
        0
    } else {
        order_start(order_id - 1) + 3 * order_area(order_id - 1)
    }
}

/// The range of one order and channel.
pub open spec fn order_descriptor(order_id: int, channel: int) -> GpuHfOrderDescriptor {
    GpuHfOrderDescriptor {
        offset: (order_start(order_id) + channel * order_area(order_id)) as u32,
        len: order_area(order_id) as u32,
        width: order_extent(order_id).0 as u32,
        height: order_extent(order_id).1 as u32,
    }
}

/// Layout for entropy-decoded custom order permutations.
#[derive(Clone, Debug, PartialEq, Eq)]
pub struct HfOrderTableLayout {
    pub used_orders: u16,
    pub descriptors: Vec<GpuHfOrderDescriptor>,
    pub coordinate_words: u32,
}

/// Extent of the coefficients that one order visits.
fn extent_of_order(order_id: usize) -> (extent: [u32; 2])
    requires
        order_id < HF_ORDER_COUNT,
    ensures
        (extent[0] as int, extent[1] as int) == order_extent(order_id as int),
        extent[0] <= 256,
        extent[1] <= 256,
{
    HF_ORDER_EXTENTS[order_id]
}

impl HfOrderTableLayout {
    /// One range for every order and channel.
    pub open spec fn wf(&self) -> bool {
        &&& self.descriptors@.len() == 39
        &&& forall|k: int|
            0 <= k < 39 ==> #[trigger] self.descriptors@[k] == order_descriptor(k / 3, k % 3)
        &&& self.coordinate_words == order_start(13)
    }

    /// The table layout, with the orders that are used.
    pub fn new(used_orders: u16) -> (r: Result<Self, VarDctArtifactError>)
        ensures
            r matches Ok(layout) && layout.wf() && layout.used_orders == used_orders & 0x1fff,
    {
        let mut descriptors: Vec<GpuHfOrderDescriptor> = Vec::new();
        let mut cursor: u32 = 0;
        let mut order_id: usize = 0;
        while order_id < HF_ORDER_COUNT
            invariant
                order_id <= 13,
                descriptors@.len() == 3 * order_id,
                cursor == order_start(order_id as int),
                cursor <= order_id * 3 * 65536,
                forall|k: int|
                    0 <= k < descriptors@.len() ==> #[trigger] descriptors@[k] == order_descriptor(
                        k / 3,
                        k % 3,
                    ),
            decreases 13 - order_id,
        {
            let extent: [u32; 2] = extent_of_order(order_id);
            assert(0 <= extent[0] * extent[1] <= 65536) by (nonlinear_arith)
                requires
                    extent[0] <= 256,
                    extent[1] <= 256,
            ;
            let len: u32 = extent[0] * extent[1];
            let ghost start = cursor;
            let mut channel: u32 = 0;
            while channel < 3
                invariant
                    order_id < 13,
                    channel <= 3,
                    len == order_area(order_id as int),
                    len <= 65536,
                    (extent[0] as int, extent[1] as int) == order_extent(order_id as int),
                    start == order_start(order_id as int),
                    start <= order_id * 3 * 65536,
                    cursor == start + channel * len,
                    cursor <= start + channel * 65536,
                    descriptors@.len() == 3 * order_id + channel,
                    forall|k: int|
                        0 <= k < descriptors@.len() ==> #[trigger] descriptors@[k]
                            == order_descriptor(k / 3, k % 3),
                decreases 3 - channel,
            {
                let ghost k = 3 * order_id + channel;
                assert(k / 3 == order_id && k % 3 == channel);
                descriptors.push(
                    GpuHfOrderDescriptor {
                        offset: cursor,
                        len,
                        width: extent[0],
                        height: extent[1],
                    },
                );
                assert((channel + 1) * len == channel * len + len) by (nonlinear_arith);
                cursor = cursor + len;
                channel = channel + 1;
            }
            order_id = order_id + 1;
        }
        Ok(
            HfOrderTableLayout {
                used_orders: used_orders & 0x1fff,
                descriptors,
                coordinate_words: cursor,
            },
        )
    }

    /// The range of one order and channel.
    pub fn descriptor(&self, order_id: usize, channel: usize) -> (r: Option<GpuHfOrderDescriptor>)
        requires
            self.wf(),
        ensures
            if order_id < HF_ORDER_COUNT && channel < HF_ORDER_CHANNELS {
                r == Some(order_descriptor(order_id as int, channel as int))
            } else {
                r is None
            },
    {
        if order_id >= HF_ORDER_COUNT || channel >= HF_ORDER_CHANNELS {
            return None;
        }
        let k: usize = order_id * 3 + channel;
        assert(k / 3 == order_id && k % 3 == channel);
        Some(self.descriptors[k])
    }

    /// Whether an order is decoded rather than natural.
    pub fn custom(&self, order_id: usize) -> (r: bool)
        ensures
            r == (order_id < HF_ORDER_COUNT && (self.used_orders & (1u16 << (order_id as u16)))
                != 0),
    {
        order_id < HF_ORDER_COUNT && (self.used_orders & (1u16 << (order_id as u16))) != 0
    }
}

/// Sections of an artifact start at binding boundaries and do not overlap.
pub proof fn law_sections_disjoint(
    config: &HfMetadataArtifactConfig,
    limits: VarDctArtifactDeviceLimits,
    section: int,
)
    requires
        0 <= section < 6,
    ensures
        ({
            let a = section_alignment(limits) as int;
            &&& 0 <= section_start(config, a, section)
            &&& section_start(config, a, section) + section_bytes(config, section)
                <= section_start(config, a, section + 1)
            &&& section_start(config, a, section) % a == 0
        }),
    decreases section,
{
    let a = section_alignment(limits) as int;
    let start = section_start(config, a, section);
    let bytes = section_bytes(config, section);
    assert(0 <= group_blocks(config)) by (nonlinear_arith)
        requires
            group_blocks(config) == config.blocks_width * config.blocks_height,
    ;
    if section > 0 {
        law_sections_disjoint(config, limits, section - 1);
        let before = section_start(config, a, section - 1) + section_bytes(config, section - 1);
        vstd::arithmetic::div_mod::lemma_mod_multiples_basic(ceil_div(before, a), a);
    }
    lemma_ceil_div(start + bytes, a);
}

/// The ranges of all orders and channels follow one another without gaps.
pub proof fn law_orders_tile(order_id: int, channel: int)
    requires
        0 <= order_id < 13,
        0 <= channel < 3,
    ensures
        ({
            let range = order_descriptor(order_id, channel);
            let end = range.offset + range.len;
            &&& range.len > 0
            &&& channel < 2 ==> end == order_descriptor(order_id, channel + 1).offset
            &&& channel == 2 && order_id < 12 ==> end == order_descriptor(order_id + 1, 0).offset
            &&& channel == 2 && order_id == 12 ==> end == order_start(13)
        }),
{
    lemma_order_start(order_id);
    lemma_order_start(order_id + 1);
    lemma_order_area(order_id);
    let area = order_area(order_id);
    assert(0 * area == 0 && 1 * area == area && 2 * area == area + area) by (nonlinear_arith);
    assert(channel == 0 || channel == 1 || channel == 2);
}

/// An order visits at most the coefficients of the largest transform.
pub(crate) proof fn lemma_order_area(order_id: int)
    ensures
        1 <= order_area(order_id) <= 65536,
{
    let (w, h) = order_extent(order_id);
    assert(1 <= w * h <= 65536) by (nonlinear_arith)
        requires
            1 <= w <= 256,
            1 <= h <= 256,
    ;
}

proof fn lemma_order_start(order_id: int)
    requires
        0 <= order_id,
    ensures
        0 <= order_start(order_id) <= order_id * 3 * 65536,
    decreases order_id,
{
    if order_id > 0 {
        lemma_order_start(order_id - 1);
        lemma_order_area(order_id - 1);
    }
}

} // verus!
