use jxl_wgpu_decode::profile::BitRange;
use jxl_wgpu_decode::vardct_engine::execution::coefficients::{HfWindowFacts, WholeRangeGroup};
use jxl_wgpu_decode::vardct_engine::execution::extra::ArenaPlan;
use jxl_wgpu_decode::vardct_engine::execution::render::{
    ExtraPlane, RenderResources, RenderStages, RenderedPlane, ScalarSource,
};
use jxl_wgpu_decode::vardct_engine::execution::stage::{FirstSubmission, PendingStage};
use jxl_wgpu_decode::vardct_engine::execution::submit::LfRoute;
use jxl_wgpu_decode::vardct_engine::execution::vardct::{
    submit_vardct, CoefficientPackets, CoefficientSetup, FrameInputs, FrameStages,
    FrameSubmission, ModularEntropy, OutputSetup, PacketWindowPlan,
};
use jxl_wgpu_decode::vardct_engine::source::{
    plan_groups, DeviceLimits, FrameGeometry, GroupPlan, HfGroupBytes, Packet, PacketGroup,
    ResourceLayout, VarDctDecodeMemoryStats,
};
use jxl_wgpu_decode::vardct_engine::types::VarDctDecodeError;
use jxl_wgpu_decode::vardct_frontend::{
    SampleBitDepth, StandardVarDctProfile, VarDctChannelShift, VarDctColorTransform,
};

const INTEGER: SampleBitDepth = SampleBitDepth::Integer { bits_per_sample: 8 };

const SHIFT: VarDctChannelShift = VarDctChannelShift { horizontal: 0, vertical: 0 };

fn packet() -> Packet {
    Packet {
        groups: vec![PacketGroup {
            x: 0,
            y: 0,
            width: 64,
            height: 64,
            blocks: [8, 8],
            task_capacity: 64,
            coefficient_words: 64 * 192,
            reconstructed_words: 192,
            raw_metadata_words: 400,
            strategy_offset_words: 100,
            hf_mul_offset_words: 200,
            modular_metadata_words: 50,
            extra_precision: 0,
            lf_extents: [[8, 8]; 3],
            entry_bit_offset: 40,
        }],
        uses_lf_frame: false,
        needs_self_correcting: true,
        requires_lf_staging: false,
        requires_lf_extra_staging: false,
        requires_hf_global_staging: false,
        pending_raw_matrix: false,
        channel_shifts: [SHIFT; 3],
        global_scale: 1000,
        quant_lf: 16,
    }
}

fn profile() -> StandardVarDctProfile {
    StandardVarDctProfile {
        width: 64,
        height: 64,
        output_width: 64,
        output_height: 64,
        upsampling: 1,
        sample_bit_depth: SampleBitDepth::Integer { bits_per_sample: 8 },
        color_transform: VarDctColorTransform::Xyb,
        channel_shifts: [SHIFT; 3],
        jpeg_block_alignment: [0, 0],
        group_count: 1,
        lf_level: 0,
        uses_lf_frame: false,
        adaptive_lf_smoothing: false,
    }
}

fn plans(packet: &Packet) -> Vec<GroupPlan> {
    let frame = FrameGeometry {
        blocks_x: 8,
        width: 64,
        pass_group_dim_blocks: 32,
        resources: ResourceLayout {
            quant_offset: 1000,
            correlation_offset: 2000,
            afv_basis_offset: 3000,
            matrix_offsets: [7; 27],
        },
    };
    let limits = DeviceLimits {
        max_buffer_size: 1 << 28,
        max_storage_buffer_binding_size: 1 << 27,
        max_uniform_buffer_binding_size: 1 << 16,
        max_compute_workgroup_storage_size: 1 << 14,
        max_compute_invocations_per_workgroup: 256,
        max_compute_workgroup_size_y: 256,
        max_compute_workgroups_per_dimension: 65535,
        min_storage_buffer_offset_alignment: 256,
    };
    plan_groups(&packet.groups, &frame, limits).unwrap()
}

fn memory() -> VarDctDecodeMemoryStats {
    VarDctDecodeMemoryStats {
        codestream_bytes: 8,
        modular_metadata_bytes: 200,
        packet_status_bytes: 32,
        packet_stream_window_bytes: 0,
        validation_staging_bytes: 32 + 64 + 16,
        lf_temporary_bytes: 0,
        resource_bytes: 4096,
        hf_entropy_bundle_bytes: 0,
        hf_stream_window_bytes: 0,
        hf_params_bytes: 0,
        hf_order_table_bytes: 0,
        resident_plane_bytes: [16384; 3],
        component_upsample_bytes: 0,
        component_upsample_uniform_bytes: 0,
        restoration_scratch_bytes: 0,
        gaborish_uniform_bytes: 0,
        epf_sigma_bytes: 0,
        epf_sigma_uniform_bytes: 0,
        epf_filter_uniform_bytes: 0,
        frame_upsample_image_bytes: 0,
        frame_upsample_weight_bytes: 0,
        frame_upsample_uniform_bytes: 0,
        adaptive_lf_uniform_bytes: 0,
        output_uniform_bytes: 0,
        output_lease_bytes: 12288,
        extra_arena_bytes: 0,
        transient_bytes: 1 << 20,
    }
}

fn color() -> OutputSetup {
    OutputSetup::Color {
        stages: RenderStages {
            resident_planes: true,
            pre_restoration: false,
            gaborish: false,
            epf_passes: 0,
            upsampled: false,
            noise: true,
            surface: false,
            rendered_extra: false,
            extra_planes: 0,
            groups: 0,
        },
    }
}

/// Everything that a frame refers to.
struct Frame {
    packet: Packet,
    profile: StandardVarDctProfile,
    memory: VarDctDecodeMemoryStats,
    chunks: Vec<usize>,
    arena: Option<ArenaPlan>,
    admitted: bool,
    windows: Option<PacketWindowPlan>,
    local: Vec<Option<ModularEntropy>>,
    hf: Vec<HfGroupBytes>,
    dispatches: Option<Vec<WholeRangeGroup>>,
    sigmas: Option<usize>,
    output: OutputSetup,
    planes: Vec<ExtraPlane>,
    rendered: Option<Vec<RenderedPlane>>,
    surface: Option<Vec<u64>>,
    ranges: Option<Vec<Vec<BitRange>>>,
}

impl Frame {
    fn new() -> Self {
        Frame {
            packet: packet(),
            profile: profile(),
            memory: memory(),
            chunks: vec![3, 4],
            arena: None,
            admitted: false,
            windows: None,
            local: vec![None],
            hf: vec![HfGroupBytes { lz77_scratch: 64, execution_state: 32, status: 16 }],
            dispatches: Some(vec![WholeRangeGroup { has_params: true, streams: 5 }]),
            sigmas: None,
            output: color(),
            planes: Vec::new(),
            rendered: None,
            surface: None,
            ranges: Some(vec![vec![BitRange { offset: 100, length: 50 }]]),
        }
    }

    fn submit(&self) -> Result<FrameSubmission, VarDctDecodeError> {
        let plans = plans(&self.packet);
        let global = vec![ModularEntropy { lz77_window_words: 9, self_correcting: false }];
        let inputs = FrameInputs {
            packet: &self.packet,
            profile: &self.profile,
            blocks: [8, 8],
            plans: &plans,
            memory: &self.memory,
            chunks: &self.chunks,
            logical_bytes: 7,
            arena: self.arena,
            arena_admitted: self.admitted,
            extra_indices: &vec![0],
            extra_declared: &vec![true],
            windows: self.windows,
            local_modular: &self.local,
            global_modular: &global,
            hf: Some(&self.hf),
            deferred_hf: None,
            packet_status: 32,
        };
        let facts = HfWindowFacts {
            stream_window_bytes: 64,
            batch_count: 0,
            max_group_count: 1,
            passes: 1,
        };
        let stages = FrameStages {
            external_lf: false,
            smoothing: false,
            epf_sigma_groups: self.sigmas,
            resources: RenderResources {
                correlation_offset: 2000,
                lf_offsets: [1, 2, 3],
                lf_strides: [16; 3],
            },
            coefficients: match &self.dispatches {
                Some(groups) => CoefficientSetup::Whole { groups },
                None => CoefficientSetup::Windowed { facts },
            },
            extra_planes: &self.planes,
            rendered: self.rendered.as_ref(),
            output: self.output,
            surface: self.surface.as_ref(),
        };
        let packets = CoefficientPackets {
            ranges: self.ranges.as_ref(),
            spatial_groups: 1,
            windowed: false,
            indices: &vec![0],
            continuations: &vec![false],
        };
        submit_vardct(&inputs, &stages, &Some(packets))
    }
}

#[test]
fn a_plain_frame_is_recorded_and_submitted_at_once() {
    let plan = Frame::new().submit().unwrap();
    assert_eq!(plan.buffers.upload, [0, 3]);
    assert_eq!(plan.buffers.arena, None);
    assert_eq!(plan.buffers.groups[0].reconstruction, 192 * 4 + 96);
    assert_eq!(
        plan.buffers.entropy,
        [ModularEntropy { lz77_window_words: 9, self_correcting: true }]
    );
    assert_eq!(plan.recording.lf_route, LfRoute::Direct);
    assert_eq!(plan.recording.dispatches, Some(vec![5]));
    assert_eq!(plan.recording.planes.resident, Some([16384; 3]));
    let render = plan.recording.render.unwrap();
    assert_eq!(render.noise.unwrap().stride, 64);
    assert_eq!(plan.recording.groups[0].quant_offset, 1000);
    assert_eq!(plan.recording.groups[0].resources.correlation_offset, 2000);
    assert_eq!(plan.recording.groups[0].resources.lf_offsets, [1, 2, 3]);
    assert_eq!(plan.status.len(), 3);
    assert_eq!(plan.expected[0].expected_lf_samples, 192);
    assert_eq!((plan.expected_hf[0].token_start, plan.expected_hf[0].token_end), (100, 150));
    assert_eq!(plan.launch.submission, FirstSubmission::Downstream);
    assert_eq!(plan.launch.stage, PendingStage::Final);
    assert_eq!(plan.mapping, "VarDCT validation mapping");
}

#[test]
fn scalar_outputs_report_a_status_of_their_own() {
    let mut frame = Frame::new();
    frame.output = OutputSetup::Extra { index: 0, encoding: INTEGER, status_bytes: 16 };
    frame.memory.validation_staging_bytes += 16;
    frame.planes = vec![ExtraPlane { index: 0, encoding: INTEGER }];
    frame.arena = Some(ArenaPlan { bytes: 4096, final_planes: 1 });
    frame.admitted = true;
    let plan = frame.submit().unwrap();
    assert_eq!(plan.recording.scalar, Some(ScalarSource::Decoded));
    assert!(plan.recording.render.is_none() && plan.recording.groups.is_empty());
    assert_eq!(plan.buffers.arena.map(|arena| arena.bytes), Some(4096));
    assert_eq!(plan.status.len(), 4);
    assert_eq!(plan.launch.stage, PendingStage::AcExtra);
}

fn refused(change: fn(&mut Frame)) -> VarDctDecodeError {
    let mut frame = Frame::new();
    change(&mut frame);
    frame.submit().unwrap_err()
}

fn window(detail: &'static str) -> VarDctDecodeError {
    VarDctDecodeError::EntropyWindowContract { detail }
}

#[test]
fn the_first_broken_stage_refuses_a_frame() {
    assert_eq!(
        refused(|f| {
            f.chunks.pop();
            f.admitted = true;
        }),
        window("codestream spans did not fill the logical mapped range")
    );
    assert_eq!(
        refused(|f| {
            f.admitted = true;
            f.hf.clear();
        }),
        VarDctDecodeError::ModularExtra { detail: "extra arena admitted without a plan" }
    );
    assert_eq!(
        refused(|f| {
            f.hf.clear();
            f.packet.requires_lf_staging = true;
        }),
        VarDctDecodeError::GroupPlanCount {
            component: "HF coefficient",
            expected: 1,
            actual: 0,
        }
    );
    assert_eq!(
        refused(|f| {
            f.packet.requires_lf_staging = true;
            f.sigmas = Some(2);
        }),
        VarDctDecodeError::GroupPlanCount {
            component: "LF-local Modular metadata",
            expected: 1,
            actual: 0,
        }
    );
    assert_eq!(
        refused(|f| {
            f.windows = Some(PacketWindowPlan {
                batches: 0,
                groups: 1,
                fuses_stages: false,
                hf_batches: 0,
            })
        }),
        window("windowed packet execution has no dispatch")
    );
    assert_eq!(
        refused(|f| {
            f.sigmas = Some(2);
            f.dispatches = None;
        }),
        VarDctDecodeError::GroupPlanCount { component: "EPF sigma", expected: 1, actual: 2 }
    );
    assert_eq!(
        refused(|f| {
            f.dispatches = None;
            f.rendered = Some(vec![]);
        }),
        window("windowed HF coefficient plan has no batches")
    );
    assert_eq!(
        refused(|f| f.dispatches.as_mut().unwrap()[0].has_params = false),
        window("whole-range AC plan has no parameter buffer")
    );
    assert_eq!(
        refused(|f| {
            f.rendered = Some(vec![]);
            f.surface = Some(vec![0]);
        }),
        window("resampled output lacks its extra plane")
    );
    assert_eq!(
        refused(|f| {
            f.output = OutputSetup::Extra { index: 0, encoding: INTEGER, status_bytes: 0 };
            f.surface = Some(vec![0]);
        }),
        window("scalar output lacks its selected resident extra plane")
    );
    assert_eq!(
        refused(|f| {
            f.surface = Some(vec![0]);
            f.ranges = None;
        }),
        window("frame surface lacks normalized extra planes")
    );
    assert_eq!(
        refused(|f| f.ranges = None),
        VarDctDecodeError::ModularExtra { detail: "AC validation has no entropy plan" }
    );
    assert!(matches!(
        refused(|f| f.packet.pending_raw_matrix = true),
        VarDctDecodeError::EngineContract { .. }
    ));
}
