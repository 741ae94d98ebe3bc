//! Restoration filters of one VarDCT frame.

use crate::restoration::{EpfConfig, EpfParameters, EpfPass};
use crate::vardct_engine::source::{GroupPlan, PacketGroup};
use crate::vardct_engine::types::VarDctDecodeError;
use vstd::prelude::*;

verus! {

/// Inverse-sigma generation of one LF group.
#[derive(Clone, Copy, Debug, PartialEq, Eq)]
pub struct EpfSigmaConfig {
    pub blocks: [u32; 2],
    pub output_blocks: [u32; 2],
    pub output_origin: [u32; 2],
    pub task_count: u32,
    pub sharpness_offset_words: u32,
    pub artifact_status_offset_words: u32,
    pub task_metadata_offset_words: u32,
    pub global_scale: u32,
    pub quant_mul: u32,
    pub sharp_lut: [u32; 8],
}

/// The edge-preserving filter of a frame.
#[derive(Debug)]
pub struct VarDctEpfPlan {
    pub sigma_groups: Vec<EpfSigmaConfig>,
    pub passes: Vec<EpfParameters>,
}

/// Inverse-sigma generation of one LF group.
pub open spec fn sigma_matches(
    config: EpfSigmaConfig,
    epf: EpfConfig,
    group: PacketGroup,
    plan: GroupPlan,
    sharpness_offset_words: u32,
    output_blocks: [u32; 2],
    global_scale: u32,
) -> bool {
    &&& config.blocks == group.blocks
    &&& config.output_blocks == output_blocks
    &&& config.output_origin@ == seq![group.x / 8, group.y / 8]
    &&& config.task_count == group.task_capacity
    &&& config.sharpness_offset_words == sharpness_offset_words
    &&& config.artifact_status_offset_words == plan.artifact_layout.status_offset_words
    &&& config.task_metadata_offset_words == plan.artifact_layout.task_metadata_offset_words
    &&& config.global_scale == global_scale
    &&& config.quant_mul == epf.quant_mul
    &&& config.sharp_lut == epf.sharp_lut
}

impl EpfConfig {
    /// The passes of the filter and the inverse sigmas of every group.
    pub fn plan(
        self,
        groups: &Vec<PacketGroup>,
        plans: &Vec<GroupPlan>,
        sharpness_offsets: &Vec<u32>,
        output_blocks: [u32; 2],
        global_scale: u32,
    ) -> (plan: VarDctEpfPlan)
        requires
            plans@.len() == groups@.len(),
            sharpness_offsets@.len() == groups@.len(),
        ensures
            plan.passes@ == self.pass_order().map_values(|pass: EpfPass| self.pass(pass)),
            plan.sigma_groups@.len() == groups@.len(),
            forall|i: int|
                0 <= i < groups@.len() ==> #[trigger] sigma_matches(
                    plan.sigma_groups@[i],
                    self,
                    groups@[i],
                    plans@[i],
                    sharpness_offsets@[i],
                    output_blocks,
                    global_scale,
                ),
            forall|i: int|
                0 <= i < groups@.len() ==> {
                    let sigma = #[trigger] plan.sigma_groups@[i];
                    let layout = plans@[i].artifact_layout;
                    &&& sigma.blocks@ == groups@[i].blocks@
                    &&& sigma.output_blocks@ == output_blocks@
                    &&& 8 * sigma.output_origin@[0] <= groups@[i].x < 8 * sigma.output_origin@[0]
                        + 8
                    &&& 8 * sigma.output_origin@[1] <= groups@[i].y < 8 * sigma.output_origin@[1]
                        + 8
                    &&& sigma.task_count == groups@[i].task_capacity
                    &&& sigma.sharpness_offset_words == sharpness_offsets@[i]
                    &&& sigma.artifact_status_offset_words == layout.status_offset_words
                    &&& sigma.task_metadata_offset_words == layout.task_metadata_offset_words
                    &&& sigma.global_scale == global_scale
                    &&& sigma.quant_mul == self.quant_mul
                    &&& sigma.sharp_lut@ == self.sharp_lut@
                },
    {
        let passes = self.passes();
        let mut sigma_groups: Vec<EpfSigmaConfig> = Vec::new();
        let mut i: usize = 0;
        while i < groups.len()
            invariant
                i <= groups@.len(),
                plans@.len() == groups@.len(),
                sharpness_offsets@.len() == groups@.len(),
                sigma_groups@.len() == i,
                forall|k: int|
                    0 <= k < i ==> #[trigger] sigma_matches(
                        sigma_groups@[k],
                        self,
                        groups@[k],
                        plans@[k],
                        sharpness_offsets@[k],
                        output_blocks,
                        global_scale,
                    ),
            decreases groups@.len() - i,
        {
            let group = groups[i];
            let layout = plans[i].artifact_layout;
            let config = EpfSigmaConfig {
                blocks: group.blocks,
                output_blocks,
                output_origin: [group.x / 8, group.y / 8],
                task_count: group.task_capacity,
                sharpness_offset_words: sharpness_offsets[i],
                artifact_status_offset_words: layout.status_offset_words,
                task_metadata_offset_words: layout.task_metadata_offset_words,
                global_scale,
                quant_mul: self.quant_mul,
                sharp_lut: self.sharp_lut,
            };
            assert(config.output_origin@ =~= seq![group.x / 8, group.y / 8]);
            assert(sigma_matches(
                config,
                self,
                groups@[i as int],
                plans@[i as int],
                sharpness_offsets@[i as int],
                output_blocks,
                global_scale,
            ));
            sigma_groups.push(config);
            i = i + 1;
        }
        let plan = VarDctEpfPlan { sigma_groups, passes };
        assert forall|i: int| 0 <= i < groups@.len() implies ({
                    let sigma = #[trigger] plan.sigma_groups@[i];
                    let layout = plans@[i].artifact_layout;
                    &&& sigma.blocks@ == groups@[i].blocks@
                    &&& sigma.output_blocks@ == output_blocks@
                    &&& 8 * sigma.output_origin@[0] <= groups@[i].x < 8 * sigma.output_origin@[0]
                        + 8
                    &&& 8 * sigma.output_origin@[1] <= groups@[i].y < 8 * sigma.output_origin@[1]
                        + 8
                    &&& sigma.task_count == groups@[i].task_capacity
                    &&& sigma.sharpness_offset_words == sharpness_offsets@[i]
                    &&& sigma.artifact_status_offset_words == layout.status_offset_words
                    &&& sigma.task_metadata_offset_words == layout.task_metadata_offset_words
                    &&& sigma.global_scale == global_scale
                    &&& sigma.quant_mul == self.quant_mul
                    &&& sigma.sharp_lut@ == self.sharp_lut@
                }) by {
            assert(sigma_matches(
                plan.sigma_groups@[i],
                self,
                groups@[i],
                plans@[i],
                sharpness_offsets@[i],
                output_blocks,
                global_scale,
            ));
        }
        plan
    }
}

/// Powers of four fifths from the second negative one on, as binary32 bit patterns.
pub open spec fn matrix_multipliers() -> Seq<u32> {
    seq![
        0x3fc8_0000u32, 0x3fa0_0000, 0x3f80_0000, 0x3f4c_cccd, 0x3f23_d70a, 0x3f03_126f,
        0x3ed1_b717, 0x3ea7_c5ac,
    ]
}

/// The factor of a three-bit quant-matrix scale.
pub fn dequant_matrix_multiplier(channel: &'static str, scale: u32) -> (r: Result<
    u32,
    VarDctDecodeError,
>)
    ensures
        if scale < 8 {
            r == Ok::<u32, VarDctDecodeError>(matrix_multipliers()[scale as int])
        } else {
            r == Err::<u32, VarDctDecodeError>(
                VarDctDecodeError::InvalidQuantMatrixScale { channel, scale },
            )
        },
{
    match scale {
        0 => Ok(0x3fc8_0000),
        1 => Ok(0x3fa0_0000),
        2 => Ok(0x3f80_0000),
        3 => Ok(0x3f4c_cccd),
        4 => Ok(0x3f23_d70a),
        5 => Ok(0x3f03_126f),
        6 => Ok(0x3ed1_b717),
        7 => Ok(0x3ea7_c5ac),
        _ => Err(VarDctDecodeError::InvalidQuantMatrixScale { channel, scale }),
    }
}

/// One of the two sets of planes that filters alternate between.
#[derive(Clone, Copy, Debug, PartialEq, Eq, Structural)]
pub enum PlaneSet {
    Image,
    Scratch,
}

impl PlaneSet {
    /// The other set.
    pub open spec fn other(self) -> PlaneSet {
        match self {
            PlaneSet::Image => PlaneSet::Scratch,
            PlaneSet::Scratch => PlaneSet::Image,
        }
    }
}

/// Where the current image of a filter chain is.
#[derive(Clone, Copy, Debug, PartialEq, Eq, Structural)]
pub struct RestorationCursor {
    pub current: PlaneSet,
}

impl RestorationCursor {
    /// Before the first filter.
    pub fn new() -> (cursor: Self)
        ensures
            cursor.current == PlaneSet::Image,
    {
        RestorationCursor { current: PlaneSet::Image }
    }

    /// The planes that the next filter reads and those that it writes.
    pub fn advance(&mut self) -> (pair: (PlaneSet, PlaneSet))
        ensures
            pair.0 == old(self).current,
            pair.1 == old(self).current.other(),
            final(self).current == pair.1,
    {
        let pair = match self.current {
            PlaneSet::Image => (PlaneSet::Image, PlaneSet::Scratch),
            PlaneSet::Scratch => (PlaneSet::Scratch, PlaneSet::Image),
        };
        self.current = pair.1;
        pair
    }

    /// The planes of the last filter.
    pub fn current(&self) -> (planes: PlaneSet)
        ensures
            planes == self.current,
    {
        self.current
    }
}

/// The planes that hold the image after `n` filters.
pub open spec fn planes_after(n: nat) -> PlaneSet
    decreases n,
{
    if n == 0 {
        PlaneSet::Image
    } else {
        planes_after((n - 1) as nat).other()
    }
}

/// No filter reads the planes that it writes, each reads what the one before it wrote, and an
/// even number of filters leaves the image in its own planes.
pub proof fn law_filters_alternate(n: nat)
    ensures
        planes_after(n) != planes_after(n + 1),
        planes_after(n) == if n % 2 == 0 {
            PlaneSet::Image
        } else {
            PlaneSet::Scratch
        },
    decreases n,
{
    if n > 0 {
        law_filters_alternate((n - 1) as nat);
    }
}

/// The significand of a binary32 number between one quarter and two, in units of its last place
/// below one half.
pub open spec fn significand(bits: u32) -> int {
    let fraction = 0x80_0000 + bits as int % 0x80_0000;
    let exponent = bits as int / 0x80_0000;
    if exponent == 125 {
        fraction
    } else if exponent == 126 {
        2 * fraction
    } else {
        4 * fraction
    }
}

/// Scale two is the factor one, and every step of the scale multiplies it by four fifths, up to
/// the rounding of the numbers.
pub proof fn law_matrix_multipliers(channel: &'static str, scale: u32, r: Result<
    u32,
    VarDctDecodeError,
>, next: Result<u32, VarDctDecodeError>)
    requires
        scale < u32::MAX,
        call_ensures(dequant_matrix_multiplier, (channel, scale), r),
        call_ensures(dequant_matrix_multiplier, (channel, (scale + 1) as u32), next),
    ensures
        r is Ok <==> scale < 8,
        scale == 2 ==> r == Ok::<u32, VarDctDecodeError>(0x3f80_0000),
        next matches Ok(after) ==> -10 <= 5 * significand(after) - 4 * significand(r->Ok_0) <= 10,
{
    if scale < 7 {
        assert(scale == 0 || scale == 1 || scale == 2 || scale == 3 || scale == 4 || scale == 5
            || scale == 6);
    }
}

/// The inverse sigmas of a group are made of its own blocks, tasks and sharpness, and stand at its
/// block of eight by eight samples in those of the whole frame.
pub proof fn law_sigma_groups(
    config: EpfConfig,
    groups: &Vec<PacketGroup>,
    plans: &Vec<GroupPlan>,
    sharpness: &Vec<u32>,
    output_blocks: [u32; 2],
    global_scale: u32,
    plan: VarDctEpfPlan,
    passes: Vec<EpfParameters>,
    i: int,
)
    requires
        plans@.len() == groups@.len(),
        sharpness@.len() == groups@.len(),
        call_ensures(
            EpfConfig::plan,
            (config, groups, plans, sharpness, output_blocks, global_scale),
            plan,
        ),
        call_ensures(EpfConfig::passes, (config,), passes),
        0 <= i < groups@.len(),
    ensures
        plan.passes@ == passes@,
        plan.sigma_groups@.len() == groups@.len(),
        ({
            let sigma = plan.sigma_groups@[i];
            let layout = plans@[i].artifact_layout;
            &&& sigma.blocks@ == groups@[i].blocks@
            &&& sigma.output_blocks@ == output_blocks@
            &&& 8 * sigma.output_origin@[0] <= groups@[i].x < 8 * sigma.output_origin@[0] + 8
            &&& 8 * sigma.output_origin@[1] <= groups@[i].y < 8 * sigma.output_origin@[1] + 8
            &&& sigma.task_count == groups@[i].task_capacity
            &&& sigma.sharpness_offset_words == sharpness@[i]
            &&& sigma.artifact_status_offset_words == layout.status_offset_words
            &&& sigma.task_metadata_offset_words == layout.task_metadata_offset_words
            &&& sigma.global_scale == global_scale
            &&& sigma.quant_mul == config.quant_mul
            &&& sigma.sharp_lut@ == config.sharp_lut@
        }),
{
}

} // verus!
