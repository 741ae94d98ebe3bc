//! What the layout of an artifact, its dispatches and its order tables guarantee.

use crate::arith::{ceil_div, lemma_ceil_div};
use crate::vardct_artifact::{
    aligned, group_blocks, group_tasks, layout_refusal, lemma_sections, section_alignment,
    section_overflow, section_start, section_unaddressable, GpuHfOrderDescriptor, GpuVarDctBucket,
    GpuVarDctArtifactStatus, GpuVarDctLoweringError, HfDispatchStage, HfMetadataArtifactConfig,
    HfMetadataLoweringParams, HfOrderTableLayout, TransformKind, VarDctArtifactDeviceLimits,
    VarDctArtifactError, VarDctArtifactLayout, VarDctBucketDispatch,
};
use vstd::arithmetic::power2::is_pow2;
use vstd::prelude::*;

verus! {

/// `next` is the first boundary at or behind `end`.
pub open spec fn boundary_behind(end: int, next: int, alignment: int) -> bool {
    &&& end <= next < end + alignment
    &&& next % alignment == 0
}

/// Rounding up reaches the next boundary.
proof fn lemma_aligned(value: int, alignment: int)
    requires
        0 <= value,
        0 < alignment,
    ensures
        boundary_behind(value, aligned(value, alignment), alignment),
{
    lemma_ceil_div(value, alignment);
    vstd::arithmetic::div_mod::lemma_mod_multiples_basic(ceil_div(value, alignment), alignment);
}

/// The blocks of a group can be counted.
proof fn lemma_blocks(config: &HfMetadataArtifactConfig)
    ensures
        0 <= group_blocks(config),
        0 <= group_tasks(config) <= group_blocks(config),
{
    assert(0 <= group_blocks(config)) by (nonlinear_arith)
        requires
            group_blocks(config) == config.blocks_width * config.blocks_height,
    ;
}

/// The sections of an artifact are sixteen status words, a bucket of four words for each of
/// twenty-seven strategies, a task of sixteen words for each task, an indirect tuple of three
/// words for each of three stages of every strategy, metadata of twelve words for each task and a
/// word for each block. Each starts at the first binding boundary behind the one before. A block
/// has three times sixty-four coefficients of one word, and one bit of occupancy, in whole words.
pub proof fn law_artifact_rooms(
    config: &HfMetadataArtifactConfig,
    limits: VarDctArtifactDeviceLimits,
    layout: VarDctArtifactLayout,
)
    requires
        call_ensures(
            VarDctArtifactLayout::plan,
            (config, limits),
            Ok::<VarDctArtifactLayout, VarDctArtifactError>(layout),
        ),
    ensures
        ({
            let a = layout.binding_alignment_bytes as int;
            let blocks = config.blocks_width * config.blocks_height;
            let tasks = layout.task_capacity as int;
            &&& a >= 256 && a >= limits.storage_binding_alignment
            &&& a == 256 || a == limits.storage_binding_alignment
            &&& layout.block_count == blocks
            &&& tasks <= blocks && tasks <= config.block_info_entries
            &&& tasks == blocks || tasks == config.block_info_entries
            &&& layout.status_offset_words == 0
            &&& boundary_behind(64, 4 * layout.buckets_offset_words, a)
            &&& boundary_behind(
                4 * layout.buckets_offset_words + 27 * 4 * 4,
                4 * layout.tasks_offset_words,
                a,
            )
            &&& boundary_behind(
                4 * layout.tasks_offset_words + tasks * 16 * 4,
                4 * layout.indirect_offset_words,
                a,
            )
            &&& boundary_behind(
                4 * layout.indirect_offset_words + 27 * 3 * 3 * 4,
                4 * layout.task_metadata_offset_words,
                a,
            )
            &&& boundary_behind(
                4 * layout.task_metadata_offset_words + tasks * 12 * 4,
                4 * layout.block_task_map_offset_words,
                a,
            )
            &&& boundary_behind(
                4 * layout.block_task_map_offset_words + blocks * 4,
                layout.artifact_bytes as int,
                a,
            )
            &&& layout.coefficient_capacity_words == 3 * 64 * blocks
            &&& layout.coefficient_bytes == 4 * layout.coefficient_capacity_words
            &&& layout.occupancy_bytes % 4 == 0
            &&& 8 * (layout.occupancy_bytes - 4) < blocks <= 8 * layout.occupancy_bytes
        }),
{
    let a = section_alignment(limits) as int;
    lemma_blocks(config);
    lemma_unaddressable(config, a, 0);
    lemma_sections(config, a);
    let tasks = group_tasks(config);
    let blocks = group_blocks(config);
    lemma_aligned(64, a);
    lemma_aligned(section_start(config, a, 1) + 432, a);
    lemma_aligned(section_start(config, a, 2) + tasks * 64, a);
    lemma_aligned(section_start(config, a, 3) + 972, a);
    lemma_aligned(section_start(config, a, 4) + tasks * 48, a);
    lemma_aligned(section_start(config, a, 5) + blocks * 4, a);
    lemma_ceil_div(blocks, 32);
    lemma_words(config, limits);
    lemma_overflow(config, a, 1);
    assert(section_start(config, a, 6 - 1) + blocks * 4 + a - 1 <= u64::MAX) by {
        assert(section_start(config, a, 6 - 1) + crate::vardct_artifact::section_bytes(
            config,
            6 - 1,
        ) + a - 1 <= u64::MAX);
    }
    assert(4 * layout.buckets_offset_words == section_start(config, a, 1));
    assert(4 * layout.tasks_offset_words == section_start(config, a, 2));
    assert(4 * layout.indirect_offset_words == section_start(config, a, 3));
    assert(4 * layout.task_metadata_offset_words == section_start(config, a, 4));
    assert(4 * layout.block_task_map_offset_words == section_start(config, a, 5));
    assert(layout.artifact_bytes == section_start(config, a, 6));
    assert(layout.block_count == blocks && layout.task_capacity == tasks);
    assert(layout.coefficient_capacity_words == 192 * blocks);
    assert(layout.coefficient_bytes == 768 * blocks);
    assert(layout.occupancy_bytes == ceil_div(blocks, 32) * 4);
}

/// Sections of an accepted group start at words.
proof fn lemma_words(config: &HfMetadataArtifactConfig, limits: VarDctArtifactDeviceLimits)
    requires
        layout_refusal(config, limits) is None,
    ensures
        forall|section: int|
            0 <= section < 6 ==> #[trigger] section_start(
                config,
                section_alignment(limits) as int,
                section,
            ) % 4 == 0,
{
    let a = section_alignment(limits) as int;
    lemma_pow2_words(a);
    assert forall|section: int| 0 <= section < 6 implies #[trigger] section_start(
        config,
        a,
        section,
    ) % 4 == 0 by {
        crate::vardct_artifact::law_sections_disjoint(config, limits, section);
        let start = section_start(config, a, section);
        let (k, q) = (start / a, a / 4);
        vstd::arithmetic::div_mod::lemma_fundamental_div_mod(start, a);
        assert(start == 4 * (q * k)) by (nonlinear_arith)
            requires
                start == a * k,
                a == 4 * q,
        ;
    }
}

/// A power of two of at least 256 is a multiple of four.
proof fn lemma_pow2_words(a: int)
    requires
        is_pow2(a),
        a >= 256,
    ensures
        a % 4 == 0,
{
    reveal(is_pow2);
    reveal_with_fuel(is_pow2, 4);
    assert(is_pow2(a / 2));
    assert((a / 2) % 2 == 0);
}

/// Every section of an addressable artifact starts at a word address.
proof fn lemma_unaddressable(config: &HfMetadataArtifactConfig, a: int, section: int)
    requires
        0 <= section <= 6,
        section_unaddressable(config, a, section) is None,
    ensures
        forall|k: int|
            section <= k < 6 ==> #[trigger] section_start(config, a, k) / 4 <= u32::MAX,
    decreases 6 - section,
{
    if section < 6 {
        lemma_unaddressable(config, a, section + 1);
    }
}

/// A group with blocks, entries and pass groups, whose rows and whose chroma-from-luma cells of
/// eight by eight blocks cover it and whose samples can be addressed, has a layout wherever the
/// raw metadata hold both of its rows and the device holds its buffers.
pub proof fn law_artifact_owed(
    config: &HfMetadataArtifactConfig,
    limits: VarDctArtifactDeviceLimits,
    r: Result<VarDctArtifactLayout, VarDctArtifactError>,
)
    requires
        call_ensures(VarDctArtifactLayout::plan, (config, limits), r),
        config.blocks_width > 0 && config.blocks_height > 0 && config.block_info_entries > 0,
        config.pass_group_dim_blocks > 0,
        config.lf_stride >= config.blocks_width,
        8 * config.correlation_width >= config.blocks_width,
        8 * config.correlation_height >= config.blocks_height,
        config.destination_origin@[0] + 8 * config.blocks_width <= u32::MAX,
        config.destination_origin@[1] + 8 * config.blocks_height <= u32::MAX,
        config.strategy_offset_words + config.block_info_entries <= config.raw_metadata_words,
        config.hf_mul_offset_words + config.block_info_entries <= config.raw_metadata_words,
        limits.storage_binding_alignment <= 256,
        config.blocks_width * config.blocks_height <= 0x100_0000,
        768 * (config.blocks_width * config.blocks_height) + 4096 <= limits.max_buffer_size,
        768 * (config.blocks_width * config.blocks_height) + 4096
            <= limits.max_storage_buffer_binding_size,
    ensures
        r is Ok,
{
    lemma_blocks(config);
    let a = section_alignment(limits) as int;
    assert(a == 256);
    assert(is_pow2(256)) by {
        reveal(is_pow2);
        reveal_with_fuel(is_pow2, 10);
    }
    let tasks = group_tasks(config);
    let blocks = group_blocks(config);
    lemma_sections(config, a);
    lemma_aligned(64, a);
    lemma_aligned(section_start(config, a, 1) + 432, a);
    lemma_aligned(section_start(config, a, 2) + tasks * 64, a);
    lemma_aligned(section_start(config, a, 3) + 972, a);
    lemma_aligned(section_start(config, a, 4) + tasks * 48, a);
    lemma_aligned(section_start(config, a, 5) + blocks * 4, a);
    lemma_ceil_div(blocks, 32);
    lemma_ceil_div(config.blocks_width as int, 8);
    lemma_ceil_div(config.blocks_height as int, 8);
    reveal_with_fuel(section_overflow, 8);
    reveal_with_fuel(section_unaddressable, 8);
    assert(blocks >= 1) by (nonlinear_arith)
        requires
            blocks == config.blocks_width * config.blocks_height,
            config.blocks_width >= 1,
            config.blocks_height >= 1,
    ;
    assert(section_start(config, a, 6) <= 64 + 432 + 972 + 112 * tasks + 4 * blocks + 6 * 256);
}

/// A layout fits the device: no buffer is larger than the device permits, nor than it can bind,
/// and the raw metadata hold both rows that are read.
pub proof fn law_artifact_within(
    config: &HfMetadataArtifactConfig,
    limits: VarDctArtifactDeviceLimits,
    layout: VarDctArtifactLayout,
)
    requires
        call_ensures(
            VarDctArtifactLayout::plan,
            (config, limits),
            Ok::<VarDctArtifactLayout, VarDctArtifactError>(layout),
        ),
    ensures
        layout.artifact_bytes <= limits.max_buffer_size,
        layout.occupancy_bytes <= limits.max_buffer_size,
        layout.coefficient_bytes <= limits.max_buffer_size,
        layout.artifact_bytes <= limits.max_storage_buffer_binding_size,
        layout.occupancy_bytes <= limits.max_storage_buffer_binding_size,
        layout.coefficient_bytes <= limits.max_storage_buffer_binding_size,
        config.strategy_offset_words + config.block_info_entries <= config.raw_metadata_words,
        config.hf_mul_offset_words + config.block_info_entries <= config.raw_metadata_words,
        config.lf_stride >= config.blocks_width > 0,
        config.blocks_height > 0 && config.block_info_entries > 0,
        config.pass_group_dim_blocks > 0,
        8 * config.correlation_width >= config.blocks_width,
        8 * config.correlation_height >= config.blocks_height,
        config.destination_origin@[0] + 8 * config.blocks_width <= u32::MAX,
        config.destination_origin@[1] + 8 * config.blocks_height <= u32::MAX,
{
    lemma_blocks(config);
    lemma_ceil_div(config.blocks_width as int, 8);
    lemma_ceil_div(config.blocks_height as int, 8);
    lemma_ceil_div(group_blocks(config), 32);
    let a = section_alignment(limits) as int;
    lemma_sections(config, a);
    lemma_overflow(config, a, 1);
    let tasks = group_tasks(config);
    let blocks = group_blocks(config);
    lemma_aligned(64, a);
    lemma_aligned(section_start(config, a, 1) + 432, a);
    lemma_aligned(section_start(config, a, 2) + tasks * 64, a);
    lemma_aligned(section_start(config, a, 3) + 972, a);
    lemma_aligned(section_start(config, a, 4) + tasks * 48, a);
    lemma_aligned(section_start(config, a, 5) + blocks * 4, a);
}

/// Starts that were computed fit a machine word.
proof fn lemma_overflow(config: &HfMetadataArtifactConfig, a: int, section: int)
    requires
        1 <= section <= 7,
        section_overflow(config, a, section) is None,
    ensures
        forall|k: int|
            section <= k < 7 ==> #[trigger] section_start(config, a, k - 1)
                + crate::vardct_artifact::section_bytes(config, k - 1) + a - 1 <= u64::MAX,
    decreases 7 - section,
{
    if section < 7 {
        lemma_overflow(config, a, section + 1);
    }
}

/// The indirect tuples of twelve bytes follow one another from the start of their section on:
/// strategy by strategy, and of each dequantization, rows and columns. No other strategy has one.
pub proof fn law_indirect_tuples(
    layout: VarDctArtifactLayout,
    strategy: usize,
    dequantize: Option<u64>,
    horizontal: Option<u64>,
    vertical: Option<u64>,
    next: Option<u64>,
)
    requires
        strategy < usize::MAX,
        call_ensures(
            VarDctArtifactLayout::indirect_offset,
            (layout, strategy, HfDispatchStage::Dequantize),
            dequantize,
        ),
        call_ensures(
            VarDctArtifactLayout::indirect_offset,
            (layout, strategy, HfDispatchStage::Horizontal),
            horizontal,
        ),
        call_ensures(
            VarDctArtifactLayout::indirect_offset,
            (layout, strategy, HfDispatchStage::Vertical),
            vertical,
        ),
        call_ensures(
            VarDctArtifactLayout::indirect_offset,
            ((layout, (strategy + 1) as usize, HfDispatchStage::Dequantize)),
            next,
        ),
    ensures
        dequantize is Some <==> strategy < 27,
        horizontal is Some <==> strategy < 27,
        vertical is Some <==> strategy < 27,
        strategy == 0 ==> dequantize == Some((4 * layout.indirect_offset_words) as u64),
        strategy < 27 ==> {
            &&& horizontal->0 == dequantize->0 + 12
            &&& vertical->0 == horizontal->0 + 12
            &&& strategy < 26 ==> next->0 == vertical->0 + 12
        },
{
}

/// Tasks of sixty-four bytes are bound where their section starts; what stays resident is the
/// artifact with its coefficients, and what does not is the occupancy with fifty-two words of
/// parameters.
pub proof fn law_artifact_bytes(
    layout: VarDctArtifactLayout,
    binding: (u64, u64),
    persistent: u64,
    transient: u64,
)
    requires
        call_ensures(VarDctArtifactLayout::task_binding, (layout,), binding),
        call_ensures(VarDctArtifactLayout::persistent_bytes, (layout,), persistent),
        call_ensures(VarDctArtifactLayout::transient_bytes, (layout,), transient),
    ensures
        binding.0 == 4 * layout.tasks_offset_words,
        binding.1 == 64 * layout.task_capacity,
        layout.artifact_bytes + layout.coefficient_bytes <= u64::MAX ==> persistent
            == layout.artifact_bytes + layout.coefficient_bytes,
        layout.occupancy_bytes + 4 * 52 <= u64::MAX ==> transient == layout.occupancy_bytes + 4
            * 52,
{
}

/// The transforms in the order of their strategies.
pub open spec fn transforms() -> Seq<TransformKind> {
    seq![
        TransformKind::Dct8,
        TransformKind::Hornuss,
        TransformKind::Dct2,
        TransformKind::Dct4,
        TransformKind::Dct16,
        TransformKind::Dct32,
        TransformKind::Dct16x8,
        TransformKind::Dct8x16,
        TransformKind::Dct32x8,
        TransformKind::Dct8x32,
        TransformKind::Dct32x16,
        TransformKind::Dct16x32,
        TransformKind::Dct4x8,
        TransformKind::Dct8x4,
        TransformKind::Afv0,
        TransformKind::Afv1,
        TransformKind::Afv2,
        TransformKind::Afv3,
        TransformKind::Dct64,
        TransformKind::Dct64x32,
        TransformKind::Dct32x64,
        TransformKind::Dct128,
        TransformKind::Dct128x64,
        TransformKind::Dct64x128,
        TransformKind::Dct256,
        TransformKind::Dct256x128,
        TransformKind::Dct128x256,
    ]
}

/// Every strategy below twenty-seven has its own transform, and no other has one.
pub proof fn law_strategies(strategy: u32, r: Option<TransformKind>)
    requires
        call_ensures(TransformKind::from_wire, (strategy,), r),
    ensures
        r is Some <==> strategy < 27,
        strategy < 27 ==> r == Some(transforms()[strategy as int]),
{
    assert(transforms().len() == 27);
    match r {
        Some(kind) => {
            assert(transforms()[kind.wire()] == kind);
        },
        None => {},
    }
}

/// A bucket is dispatched where its tasks lie in the task section and its tuples are those of its
/// strategy: its transform, its own tasks and three tuples in a row come back.
pub proof fn law_buckets(
    layout: VarDctArtifactLayout,
    bucket: GpuVarDctBucket,
    r: Result<VarDctBucketDispatch, VarDctArtifactError>,
    first: Option<u64>,
)
    requires
        call_ensures(VarDctArtifactLayout::bucket_dispatch, (layout, bucket), r),
        call_ensures(
            VarDctArtifactLayout::indirect_offset,
            (layout, bucket.strategy as usize, HfDispatchStage::Dequantize),
            first,
        ),
    ensures
        r is Ok <==> bucket.strategy < 27 && bucket.task_offset + bucket.task_count
            <= layout.task_capacity && first == Some((4 * bucket.indirect_word_offset) as u64),
        r matches Ok(dispatch) ==> {
            &&& dispatch.transform == transforms()[bucket.strategy as int]
            &&& dispatch.task_offset == bucket.task_offset
            &&& dispatch.task_count == bucket.task_count
            &&& dispatch.dequantize_indirect_offset == 4 * bucket.indirect_word_offset
            &&& dispatch.horizontal_indirect_offset == dispatch.dequantize_indirect_offset + 12
            &&& dispatch.vertical_indirect_offset == dispatch.dequantize_indirect_offset + 24
        },
{
    if let Ok(dispatch) = r {
        assert(transforms().len() == 27);
        assert(transforms()[dispatch.transform.wire()] == dispatch.transform);
    }
}

/// A status record succeeds exactly where its first word is zero. Otherwise that word names the
/// failure, the next two its place and the fourth what it was about.
pub proof fn law_lowering_status(
    words: [u32; 16],
    status: GpuVarDctArtifactStatus,
    r: Result<(), GpuVarDctLoweringError>,
)
    requires
        call_ensures(GpuVarDctArtifactStatus::from_words, (words,), status),
        call_ensures(GpuVarDctArtifactStatus::validate, (status,), r),
    ensures
        r is Ok <==> words@[0] == 0,
        r matches Err(error) ==> {
            let (x, y, value) = (words@[1], words@[2], words@[3]);
            match error {
                GpuVarDctLoweringError::InvalidStrategy { x: a, y: b, value: v } => words@[0] == 1
                    && a == x && b == y && v == value,
                GpuVarDctLoweringError::NonPositiveHfMultiplier { x: a, y: b, value: v } => {
                    &&& words@[0] == 2 && a == x && b == y
                    &&& v == value || v == value - 0x1_0000_0000
                },
                GpuVarDctLoweringError::BlockInfoExhausted { x: a, y: b, consumed } => words@[0] == 3
                    && a == x && b == y && consumed == value,
                GpuVarDctLoweringError::TransformOutsideLfGroup { x: a, y: b, strategy } => words@[0]
                    == 4 && a == x && b == y && strategy == value,
                GpuVarDctLoweringError::PassGroupCrossing { x: a, y: b, strategy } => words@[0] == 5
                    && a == x && b == y && strategy == value,
                GpuVarDctLoweringError::TransformOverlap { x: a, y: b, strategy } => words@[0] == 6
                    && a == x && b == y && strategy == value,
                GpuVarDctLoweringError::TaskCapacity { required } => words@[0] == 7 && required
                    == value,
                GpuVarDctLoweringError::CoefficientCapacity { required_words } => words@[0] == 8
                    && required_words == value,
                GpuVarDctLoweringError::UnknownStatus { code } => words@[0] == code && code > 8,
            }
        },
        status.task_count == words@[4],
        status.coefficient_words == words@[5],
        status.covered_blocks == words@[6],
        status.consumed_block_info_entries == words@[7],
        status.backend_requirements == words@[8],
{
}

/// The parameters of the lowering pass: the group's blocks, its entries and the blocks of a pass
/// group; its capacities, the pass groups that it takes to cover a row, and the cells in a row;
/// where its samples, its sections and its metadata rows start; and one matrix for each strategy.
pub proof fn law_lowering_parameters(
    config: &HfMetadataArtifactConfig,
    layout: VarDctArtifactLayout,
    params: HfMetadataLoweringParams,
)
    requires
        config.pass_group_dim_blocks != 0,
        call_ensures(
            HfMetadataLoweringParams::new,
            (config, layout),
            Ok::<HfMetadataLoweringParams, VarDctArtifactError>(params),
        ),
    ensures
        params.dimensions@[0] == config.blocks_width,
        params.dimensions@[1] == config.blocks_height,
        params.dimensions@[2] == config.block_info_entries,
        params.dimensions@[3] == config.pass_group_dim_blocks,
        params.capacities@[0] == layout.task_capacity,
        params.capacities@[1] == layout.coefficient_capacity_words,
        params.capacities@[2] * config.pass_group_dim_blocks >= config.blocks_width,
        params.capacities@[2] > 0 ==> (params.capacities@[2] - 1) * config.pass_group_dim_blocks
            < config.blocks_width,
        params.capacities@[3] == config.correlation_width,
        params.image@[0] == config.lf_stride,
        params.image@[1] == config.destination_origin@[0],
        params.image@[2] == config.destination_origin@[1],
        params.image@[3] == config.afv_basis_offset,
        params.artifact_offsets@[0] == layout.status_offset_words,
        params.artifact_offsets@[1] == layout.buckets_offset_words,
        params.artifact_offsets@[2] == layout.tasks_offset_words,
        params.artifact_offsets@[3] == layout.indirect_offset_words,
        params.metadata_offsets@[0] == layout.task_metadata_offset_words,
        params.metadata_offsets@[1] == layout.block_task_map_offset_words,
        params.source_offsets@[0] == config.strategy_offset_words,
        params.source_offsets@[1] == config.hf_mul_offset_words,
        forall|k: int|
            0 <= k < 27 ==> params.matrix_offsets@[k / 4]@[k % 4]
                == #[trigger] config.matrix_offsets@[k],
{
    let (w, d) = (config.blocks_width as int, config.pass_group_dim_blocks as int);
    lemma_ceil_div(w, d);
    let q = ceil_div(w, d);
    assert((q - 1) * d == q * d - d) by (nonlinear_arith);
    assert forall|k: int| 0 <= k < 27 implies params.matrix_offsets@[k / 4]@[k % 4]
        == #[trigger] config.matrix_offsets@[k] by {
        assert(params.matrix_offsets[k / 4][k % 4] == config.matrix_offsets[k]);
    }
}

/// The widths and heights of the orders.
pub open spec fn order_extents() -> Seq<(int, int)> {
    seq![
        (8int, 8int),
        (8, 8),
        (16, 16),
        (32, 32),
        (16, 8),
        (32, 8),
        (32, 16),
        (64, 64),
        (64, 32),
        (128, 128),
        (128, 64),
        (256, 256),
        (256, 128),
    ]
}

/// The order tables: thirteen orders of three channels, one behind the other, each with as many
/// words as its extent has coefficients.
pub proof fn law_order_tables(used_orders: u16, layout: HfOrderTableLayout)
    requires
        call_ensures(
            HfOrderTableLayout::new,
            (used_orders,),
            Ok::<HfOrderTableLayout, VarDctArtifactError>(layout),
        ),
    ensures
        layout.descriptors@.len() == 39,
        layout.descriptors@[0].offset == 0,
        forall|k: int|
            0 <= k < 39 ==> {
                let order = #[trigger] layout.descriptors@[k];
                &&& (order.width as int, order.height as int) == order_extents()[k / 3]
                &&& order.len == order.width * order.height
                &&& order.offset + order.len == if k < 38 {
                    layout.descriptors@[k + 1].offset
                } else {
                    layout.coordinate_words
                }
            },
{
    assert forall|k: int| 0 <= k < 39 implies ({
        let order = #[trigger] layout.descriptors@[k];
        &&& (order.width as int, order.height as int) == order_extents()[k / 3]
        &&& order.len == order.width * order.height
        &&& order.offset + order.len == if k < 38 {
            layout.descriptors@[k + 1].offset
        } else {
            layout.coordinate_words
        }
    }) by {
        crate::vardct_artifact::law_orders_tile(k / 3, k % 3);
        if k < 38 {
            assert(layout.descriptors@[k + 1] == crate::vardct_artifact::order_descriptor(
                (k + 1) / 3,
                (k + 1) % 3,
            ));
        }
        let order = layout.descriptors@[k];
        crate::vardct_artifact::lemma_order_area(k / 3);
    }
}

/// Three channels of one order stand side by side in the table, and an order is custom exactly
/// where its own bit of the declared mask is set.
pub proof fn law_orders_found(
    used_orders: u16,
    layout: &HfOrderTableLayout,
    order_id: usize,
    channel: usize,
    r: Option<GpuHfOrderDescriptor>,
    custom: bool,
)
    requires
        call_ensures(
            HfOrderTableLayout::new,
            (used_orders,),
            Ok::<HfOrderTableLayout, VarDctArtifactError>(*layout),
        ),
        call_ensures(HfOrderTableLayout::descriptor, (layout, order_id, channel), r),
        call_ensures(HfOrderTableLayout::custom, (layout, order_id), custom),
    ensures
        r is Some <==> order_id < 13 && channel < 3,
        r is Some ==> r->0 == layout.descriptors@[3 * order_id + channel],
        custom <==> order_id < 13 && (used_orders >> (order_id as u16)) & 1 == 1,
{
    if order_id < 13 && channel < 3 {
        let k = 3 * order_id + channel;
        assert(k / 3 == order_id && k % 3 == channel);
        assert(layout.descriptors@[k] == crate::vardct_artifact::order_descriptor(k / 3, k % 3));
    }
    if order_id < 13 {
        let order = order_id as u16;
        let mask = layout.used_orders;
        assert((mask & (1u16 << order)) != 0 <==> (used_orders >> order) & 1 == 1) by (bit_vector)
            requires
                mask == used_orders & 0x1fff,
                order < 13,
        ;
    }
}

} // verus!
