use jxl_wgpu_decode::profile::BitRange;
use jxl_wgpu_decode::progressive_dc::ProgressiveDcGpuError;
use jxl_wgpu_decode::vardct_artifact::{GpuVarDctArtifactStatus, GpuVarDctLoweringError};
use jxl_wgpu_decode::vardct_engine::execution::deferred::{
    admit_deferred, collect_deferred_status, count_deferred_submissions,
    submit_deferred_hf_coefficients, DeferredHfCoefficientLayout, DeferredInputs,
    DeferredPresence, HfCoefficientPlan, HfRecordSizes, MatrixUpload, MatrixWrite,
};
use jxl_wgpu_decode::vardct_engine::execution::hf::{
    after_hf_metadata, collect_cursors, submit_hf_from_cursors, submit_hf_global_stage,
    submit_hf_stage, AfterHfMetadata, AfterLf, HfContinuations, HfResources, HfWindow,
};
use jxl_wgpu_decode::vardct_engine::execution::upload::plan_upload;
use jxl_wgpu_decode::vardct_engine::execution::render::{
    encode_frame_render, plan_scalar, plan_surface, AlphaSource, ExtraPlane, PresentedPlanes,
    RenderStages, RenderedPlane, ScalarSource,
};
use jxl_wgpu_decode::vardct_engine::execution::stage::{
    after_coefficients_stage, mapping_label, plan_launch, Continuation, FirstSubmission,
    FramePendingFrame, PendingStage, PostLf,
};
use jxl_wgpu_decode::vardct_engine::execution::submit::{
    PacketEntry, PacketRoute, Staging, VarDctGroupValidation,
};
use jxl_wgpu_decode::vardct_engine::execution::validate::{
    check_group, check_streams, finish_statuses, plan_streams, read_artifact, FrameStatuses, HfReport,
    HfValidation, PacketReport,
};
use jxl_wgpu_decode::vardct_engine::restoration::PlaneSet;
use jxl_wgpu_decode::vardct_engine::source::{DeviceLimits, HfGroupBytes, Packet};
use jxl_wgpu_decode::vardct_engine::types::VarDctDecodeError;
use jxl_wgpu_decode::vardct_frontend::{
    SampleBitDepth, StandardVarDctProfile, VarDctChannelShift, VarDctColorTransform,
};

fn integer(bits_per_sample: u32) -> SampleBitDepth {
    SampleBitDepth::Integer { bits_per_sample }
}

fn limits() -> DeviceLimits {
    DeviceLimits {
        max_buffer_size: 1 << 20,
        max_storage_buffer_binding_size: 1 << 19,
        max_uniform_buffer_binding_size: 1 << 16,
        max_compute_workgroup_storage_size: 1 << 14,
        max_compute_invocations_per_workgroup: 256,
        max_compute_workgroup_size_y: 256,
        max_compute_workgroups_per_dimension: 65535,
        min_storage_buffer_offset_alignment: 256,
    }
}

fn packet() -> Packet {
    Packet {
        groups: Vec::new(),
        uses_lf_frame: false,
        needs_self_correcting: false,
        requires_lf_staging: false,
        requires_lf_extra_staging: false,
        requires_hf_global_staging: false,
        pending_raw_matrix: false,
        channel_shifts: [VarDctChannelShift::default(); 3],
        global_scale: 1,
        quant_lf: 1,
    }
}

fn contract(detail: &'static str) -> VarDctDecodeError {
    VarDctDecodeError::EngineContract { detail }
}

const PLAIN: Staging =
    Staging { lf: false, lf_extras: false, hf_global: false, group_metadata: false };

#[test]
fn frames_launch_what_is_recorded() {
    let whole = PacketRoute::Groups { entry: PacketEntry::Whole, copy_status: false };
    let launch = plan_launch(&packet(), PLAIN, whole, false, false).unwrap();
    assert_eq!(launch.submission, FirstSubmission::Downstream);
    assert_eq!(launch.stage, PendingStage::Final);
    let launch = plan_launch(&packet(), PLAIN, whole, false, true).unwrap();
    assert_eq!(launch.stage, PendingStage::AcExtra);
    assert_eq!(
        plan_launch(&packet(), PLAIN, whole, true, false),
        Err(contract("VarDCT execution is missing downstream commands"))
    );
    let raw = Packet { pending_raw_matrix: true, ..packet() };
    assert_eq!(
        plan_launch(&raw, PLAIN, whole, true, false).unwrap().stage,
        PendingStage::RawHfDequant
    );
    let staged = PacketRoute::Groups { entry: PacketEntry::Lf, copy_status: true };
    let local = Staging { lf: true, ..PLAIN };
    assert_eq!(
        plan_launch(&packet(), local, staged, false, false).unwrap().stage,
        PendingStage::LocalLf { post_lf: PostLf::Direct }
    );
    assert_eq!(mapping_label(local), "VarDCT LF cursor mapping");
    assert_eq!(after_coefficients_stage(true), PendingStage::AcExtra);
}

#[test]
fn pending_frames_continue_until_the_last_stage() {
    let mut frame = FramePendingFrame {
        stage: PendingStage::HfGlobal,
        alive: true,
        retains_lf_planes: false,
    };
    assert_eq!(
        frame.unvalidated_gpu_frame(),
        Err(VarDctDecodeError::UnvalidatedOutputNotSubmitted)
    );
    assert_eq!(frame.next_dependency(), Ok(Some(Continuation::SubmitHfGlobal)));
    frame.enter(PendingStage::RawHfDequant);
    assert_eq!(frame.stage.name(), "raw-hf-dequant");
    assert_eq!(frame.take_staged_packet(), Some(Continuation::FinishRawMatrix));
    assert_eq!(frame.next_dependency(), Ok(None));
    assert_eq!(frame.unvalidated_gpu_frame(), Ok(()));
    assert_eq!(
        frame.progressive_dc_planes(),
        Err(VarDctDecodeError::UnvalidatedOutputNotSubmitted)
    );
    let groups = vec![expected()];
    let packets = vec![PacketReport { first_blocks: Some(3), coefficient_words: 768 }];
    let mapped = group_statuses();
    let streams = Vec::new();
    let reports = Vec::new();
    let statuses = FrameStatuses {
        mapped: &mapped,
        packet_status: 32,
        hf_status: 40,
        output_status: 0,
        expected: &groups,
        packets: &packets,
        streams: &streams,
        reports: &reports,
        scalar: None,
    };
    let mut refused = frame;
    let scalar = FrameStatuses { scalar: Some(false), ..statuses };
    assert_eq!(
        refused.finish(&scalar, "name".into(), 7_u32).unwrap_err(),
        VarDctDecodeError::OutputStatus
    );
    assert_eq!(
        refused.finish(&statuses, "name".into(), 7_u32).unwrap_err(),
        VarDctDecodeError::CompletionConsumed
    );
    let finished = frame.finish(&statuses, "name".into(), 7_u32).unwrap();
    assert_eq!((finished.output, finished.metadata.name.as_str()), (7, "name"));
    assert!(finished.metadata.is_last);
    assert_eq!(
        frame.finish(&statuses, String::new(), 7_u32).unwrap_err(),
        VarDctDecodeError::CompletionConsumed
    );
    assert_eq!(frame.unvalidated_gpu_frame(), Err(VarDctDecodeError::CompletionConsumed));
}

#[test]
fn hf_packets_reserve_only_what_is_new() {
    let hf = HfContinuations {
        metadata_words: vec![10, 20],
        window: Some(HfWindow { stream_bytes: 256, batches: 3, groups: 2 }),
    };
    let resources =
        HfResources {
            alive: true,
            stream_window: Some(512),
            modular_metadata: 100,
            submissions: 4,
            packet_status: 32,
        };
    let plan = submit_hf_from_cursors(&hf, resources, limits(), PostLf::Direct, false).unwrap();
    assert_eq!(plan.additional_bytes, Some(20));
    assert_eq!(plan.submissions, 6);
    assert!(!plan.metadata_stop && plan.downstream);
    assert_eq!(plan.entry, PacketEntry::Hf);
    assert_eq!(plan.stage, PendingStage::Final);
    let deferred = submit_hf_from_cursors(&hf, resources, limits(), PostLf::DeferredHfGlobal, false).unwrap();
    assert_eq!(deferred.stage, PendingStage::HfGlobal);
    assert_eq!(deferred.status_offsets, [0, 32]);
    assert!(plan.status_offsets.is_empty());
    assert_eq!(
        submit_hf_from_cursors(
            &hf,
            HfResources { stream_window: Some(255), ..resources },
            limits(),
            PostLf::Direct,
            false
        ),
        Err(VarDctDecodeError::DeviceLimit {
            resource: "shared local-tree packet stream window",
            required: 256,
            available: 255,
        })
    );
    let empty = HfContinuations {
        metadata_words: vec![],
        window: Some(HfWindow { stream_bytes: 256, batches: 0, groups: 0 }),
    };
    assert_eq!(
        submit_hf_from_cursors(&empty, resources, limits(), PostLf::Direct, false),
        Err(VarDctDecodeError::EntropyWindowContract {
            detail: "windowed packet execution has no dispatch"
        })
    );
    let consumed = HfResources { alive: false, ..resources };
    assert_eq!(
        submit_hf_from_cursors(&hf, consumed, limits(), PostLf::Direct, false),
        Err(VarDctDecodeError::CompletionConsumed)
    );
    let large = HfContinuations { metadata_words: vec![1 << 18], window: None };
    assert!(matches!(
        submit_hf_from_cursors(&large, resources, limits(), PostLf::Direct, false),
        Err(VarDctDecodeError::DeviceLimit { .. })
    ));
    let reports = vec![Some(5), Some(6)];
    assert_eq!(
        submit_hf_stage(true, 64, 32, &reports, true),
        Ok(AfterLf::LfExtras { cursors: vec![5, 6] })
    );
    assert_eq!(
        submit_hf_stage(true, 64, 32, &reports, false),
        Ok(AfterLf::Hf { cursors: vec![5, 6] })
    );
    assert_eq!(
        submit_hf_stage(false, 64, 32, &reports, false),
        Err(VarDctDecodeError::CompletionConsumed)
    );
    assert_eq!(
        submit_hf_stage(true, 63, 32, &reports, false),
        Err(VarDctDecodeError::StatusAbi { status: "LF cursor" })
    );
    assert_eq!(
        submit_hf_global_stage(true, 32, 32, &vec![Some(9)], false),
        Ok(AfterHfMetadata::Parse { cursor: 9 })
    );
    assert_eq!(
        submit_hf_global_stage(true, 64, 32, &reports, true),
        Ok(AfterHfMetadata::RawMatrix)
    );
    assert_eq!(
        submit_hf_global_stage(true, 31, 32, &vec![Some(9)], false),
        Err(VarDctDecodeError::StatusAbi { status: "HF-metadata cursor" })
    );
    assert_eq!(
        submit_hf_global_stage(true, 32, 32, &vec![None], true),
        Err(VarDctDecodeError::PacketStatus { group: 0 })
    );
    assert_eq!(after_hf_metadata(true, &vec![1, 2]), Ok(AfterHfMetadata::RawMatrix));
    assert_eq!(after_hf_metadata(false, &vec![7]), Ok(AfterHfMetadata::Parse { cursor: 7 }));
    assert_eq!(
        after_hf_metadata(false, &vec![7, 8]),
        Err(VarDctDecodeError::GroupPlanCount {
            component: "single-entry progressive-DC packet",
            expected: 1,
            actual: 2,
        })
    );
    assert_eq!(collect_cursors(64, 32, "LF cursor", &vec![Some(5), Some(6)]), Ok(vec![5, 6]));
    assert_eq!(
        collect_cursors(63, 32, "LF cursor", &vec![Some(5), Some(6)]),
        Err(VarDctDecodeError::StatusAbi { status: "LF cursor" })
    );
    assert_eq!(
        collect_cursors(64, 32, "LF cursor", &vec![Some(5), None]),
        Err(VarDctDecodeError::PacketStatus { group: 1 })
    );
}

fn decoder(status: u64) -> HfGroupBytes {
    HfGroupBytes { lz77_scratch: 8, execution_state: 4, status }
}

fn late_plan() -> HfCoefficientPlan {
    HfCoefficientPlan {
        groups: vec![decoder(16), decoder(32)],
        group_params: vec![2, 3],
        entropy_words: 100,
        order_words: 50,
        windows: None,
    }
}

fn admitted() -> DeferredHfCoefficientLayout {
    DeferredHfCoefficientLayout {
        groups: vec![decoder(16), decoder(32)],
        status_bytes: 48,
        params_bytes: 400,
        sink_uniform_bytes: 64,
    }
}

const SIZES: HfRecordSizes = HfRecordSizes { pass_params: 80, sink_params: 32 };

#[test]
fn late_coefficients_stay_inside_their_admission() {
    let bytes = admit_deferred(&late_plan(), &admitted(), SIZES, limits()).unwrap();
    assert_eq!((bytes.entropy, bytes.order, bytes.stream), (400, 200, 0));
    assert_eq!((bytes.params, bytes.sinks, bytes.status), (400, 64, 48));
    assert_eq!(bytes.dynamic, 600);
    let refused = |change: fn(&mut HfCoefficientPlan, &mut DeferredHfCoefficientLayout)| {
        let (mut plan, mut layout) = (late_plan(), admitted());
        change(&mut plan, &mut layout);
        admit_deferred(&plan, &layout, SIZES, limits()).unwrap_err()
    };
    assert!(matches!(
        refused(|plan, _| {
            plan.groups.pop();
        }),
        VarDctDecodeError::GroupPlanCount { expected: 2, actual: 1, .. }
    ));
    assert_eq!(
        refused(|plan, _| plan.groups[1].lz77_scratch = 9),
        contract("deferred HF coefficient scratch exceeded its conservative admission")
    );
    assert_eq!(
        refused(|_, layout| layout.status_bytes = 47),
        contract("deferred HF coefficient status exceeded its conservative admission")
    );
    assert_eq!(
        refused(|_, layout| layout.params_bytes = 399),
        contract("deferred HF parameters exceeded their conservative admission")
    );
    assert_eq!(
        refused(|_, layout| layout.sink_uniform_bytes = 63),
        contract("deferred HF sink uniforms exceeded their conservative admission")
    );
    assert_eq!(
        refused(|plan, _| plan.entropy_words = u64::MAX),
        VarDctDecodeError::ArithmeticOverflow { field: "deferred HF entropy bytes" }
    );
    assert!(matches!(
        refused(|plan, _| plan.order_words = 1 << 18),
        VarDctDecodeError::DeviceLimit { resource: "deferred HF order table", .. }
    ));
    let groups = late_plan().groups;
    assert_eq!(collect_deferred_status(&groups, 32, 8, 248), Ok(vec![192, 208]));
    assert_eq!(
        collect_deferred_status(&groups, 32, 8, 249),
        Err(contract("deferred HF status aggregation disagrees with admitted staging"))
    );
    assert_eq!(count_deferred_submissions(3, None), Ok(3));
    assert_eq!(count_deferred_submissions(3, Some(4)), Ok(7));
    assert!(count_deferred_submissions(3, Some(0)).is_err());
    let presence =
        DeferredPresence { alive: true, entropy: true, layout: true, installed: false };
    let (late, layout) = (late_plan(), admitted());
    let ranges = vec![(10, 14), (20, 21)];
    let inputs = |batches| DeferredInputs {
        matrices: MatrixUpload { ranges: &ranges, first: 8, words: 13 },
        plan: &late,
        deferred: &layout,
        sizes: SIZES,
        limits: limits(),
        packet_status: 32,
        output_status: 8,
        staging: 248,
        submissions: 3,
        batches,
        has_before: true,
        extra_output: false,
    };
    let windowed = submit_deferred_hf_coefficients(presence, &inputs(Some(2)), &None).unwrap();
    assert_eq!(windowed.submissions, 5);
    assert_eq!(
        windowed.matrix_writes,
        [
            MatrixWrite { offset: 160, from: 2, to: 6 },
            MatrixWrite { offset: 320, from: 12, to: 13 },
        ]
    );
    assert_eq!(windowed.dispatches, None);
    let order: Vec<(bool, Option<usize>, bool)> =
        windowed.queue.iter().map(|step| (step.before, step.batch, step.tail)).collect();
    assert_eq!(order, [(true, Some(0), false), (false, Some(1), false), (false, None, true)]);
    let installed = DeferredPresence { installed: true, ..presence };
    assert_eq!(
        submit_deferred_hf_coefficients(installed, &inputs(None), &None).unwrap_err(),
        contract("deferred HF coefficient buffers were already installed")
    );
    let absent = DeferredPresence { layout: false, ..presence };
    assert_eq!(
        submit_deferred_hf_coefficients(absent, &inputs(None), &None).unwrap_err(),
        contract("deferred HF-global stage has no admitted scratch layout")
    );
    let plan = submit_deferred_hf_coefficients(presence, &inputs(None), &None).unwrap();
    assert_eq!(plan.dispatches, Some(vec![2, 3]));
    assert_eq!(plan.queue.len(), 1);
    assert!(plan.queue[0].before && plan.queue[0].whole && plan.queue[0].tail);
    assert_eq!(plan.stage, PendingStage::Final);
    assert_eq!((plan.status_offsets, plan.submissions), (vec![192, 208], 3));
}

fn profile() -> StandardVarDctProfile {
    StandardVarDctProfile {
        width: 60,
        height: 30,
        output_width: 60,
        output_height: 30,
        upsampling: 1,
        sample_bit_depth: SampleBitDepth::Integer { bits_per_sample: 8 },
        color_transform: VarDctColorTransform::Ycbcr,
        channel_shifts: [
            VarDctChannelShift { horizontal: 1, vertical: 1 },
            VarDctChannelShift::default(),
            VarDctChannelShift { horizontal: 1, vertical: 1 },
        ],
        jpeg_block_alignment: [1, 1],
        group_count: 1,
        lf_level: 0,
        uses_lf_frame: false,
        adaptive_lf_smoothing: false,
    }
}

fn stages() -> RenderStages {
    RenderStages {
        resident_planes: true,
        pre_restoration: false,
        gaborish: false,
        epf_passes: 0,
        upsampled: false,
        noise: false,
        surface: false,
        rendered_extra: false,
        extra_planes: 0,
        groups: 1,
    }
}

#[test]
fn subsampled_images_keep_their_planes_until_a_filter_runs() {
    let plan = encode_frame_render(&profile(), [8, 4], stages()).unwrap();
    assert_eq!((plan.padded_width, plan.padded_height), (64, 32));
    assert_eq!(plan.presented, PresentedPlanes::Resident);
    assert_eq!(
        (plan.geometry[0].width, plan.geometry[0].height, plan.geometry[0].stride),
        (30, 15, 32)
    );
    assert_eq!((plan.geometry[1].width, plan.geometry[1].stride), (60, 64));
    let resident = plan.resident.unwrap();
    assert_eq!((resident[0].width, resident[0].height, resident[0].stride), (32, 16, 32));
    assert_eq!((resident[1].width, resident[1].stride), (64, 64));
    assert!(plan.sigma.is_none() && plan.upsample.is_none() && plan.lf.is_none());
    assert!(plan.chroma.is_empty() && plan.filters.is_empty());
    let filtered = RenderStages {
        pre_restoration: true,
        gaborish: true,
        epf_passes: 2,
        extra_planes: 1,
        ..stages()
    };
    let plan = encode_frame_render(&profile(), [8, 4], filtered).unwrap();
    assert_eq!(plan.chroma.len(), 2);
    assert_eq!((plan.chroma[0].channel, plan.chroma[1].channel), (0, 2));
    assert_eq!(plan.chroma[0].input_stride, 32);
    let planes: Vec<(PlaneSet, PlaneSet)> =
        plan.filters.iter().map(|filter| (filter.input, filter.output)).collect();
    assert_eq!(
        planes,
        [
            (PlaneSet::Image, PlaneSet::Scratch),
            (PlaneSet::Scratch, PlaneSet::Image),
            (PlaneSet::Image, PlaneSet::Scratch),
        ]
    );
    assert_eq!(plan.filters[0].epf_pass, None);
    assert_eq!(plan.filters[2].epf_pass, Some(1));
    assert_eq!(plan.presented, PresentedPlanes::Scratch);
    assert_eq!(plan.alpha, AlphaSource::Decoded);
    assert_eq!(plan.geometry[0].width, 60);
    let sigma = plan.sigma.unwrap();
    assert_eq!((sigma.width, sigma.height, sigma.stride), (8, 4, 8));
    let dependency = StandardVarDctProfile { lf_level: 1, ..profile() };
    let lf = encode_frame_render(&dependency, [8, 4], filtered).unwrap().lf.unwrap();
    assert_eq!((lf.width, lf.height, lf.stride), (60, 30, 64));
    let empty = StandardVarDctProfile { output_width: 0, ..dependency };
    assert_eq!(
        encode_frame_render(&empty, [8, 4], filtered).unwrap_err(),
        VarDctDecodeError::ProgressiveDc(ProgressiveDcGpuError::EmptyExtent {
            role: "XYB output",
            axis: "width",
        })
    );
    assert!(encode_frame_render(&profile(), [u32::MAX, 4], stages()).is_err());
    assert!(encode_frame_render(
        &profile(),
        [8, 4],
        RenderStages { resident_planes: false, ..stages() }
    )
    .is_err());
}

#[test]
fn scalar_and_surface_outputs_check_their_planes() {
    let plane = Some(ExtraPlane { index: 2, encoding: integer(8) });
    assert_eq!(plan_scalar(plane, 2, integer(8), true), Ok(ScalarSource::Rendered));
    assert_eq!(plan_scalar(plane, 2, integer(8), false), Ok(ScalarSource::Decoded));
    assert!(plan_scalar(plane, 2, integer(16), false).is_err());
    let half = SampleBitDepth::Float { bits_per_sample: 8, exponent_bits_per_sample: 5 };
    assert!(plan_scalar(plane, 2, half, false).is_err());
    assert!(plan_scalar(None, 2, integer(8), false).is_err());
    let planes = vec![RenderedPlane { word_offset: 10, width: 4, height: 3 }];
    let copies = plan_surface(&vec![256], Some(&planes), true).unwrap();
    assert_eq!(
        (copies[0].source_offset, copies[0].offset, copies[0].bytes),
        (40, 256, 48)
    );
    assert!(plan_surface(&vec![], None, false).unwrap().is_empty());
    assert!(plan_surface(&vec![256], None, true).is_err());
    assert!(plan_surface(&vec![256], Some(&planes), false).is_err());
    assert!(plan_surface(&vec![256, 512], Some(&planes), true).is_err());
}

#[test]
fn codestreams_fill_their_upload() {
    assert_eq!(plan_upload(&vec![3, 0, 4], 7, 8), Ok(vec![0, 3, 3]));
    assert!(plan_upload(&vec![3, 4], 7, 6).is_err());
    assert!(plan_upload(&vec![3, 4], 7, 9).is_err());
    assert!(plan_upload(&vec![3, 3], 7, 8).is_err());
    assert!(plan_upload(&vec![3, 9], 7, 8).is_err());
}

fn expected() -> VarDctGroupValidation {
    VarDctGroupValidation {
        expected_lf_samples: 12,
        expected_coefficients: 768,
        expected_blocks: 4,
        correlation_samples: 1,
        task_capacity: 4,
        expected_global_scale: 1,
        expected_quant_lf: 1,
        expected_extra_precision: 0,
    }
}

fn artifact_words() -> [u32; 16] {
    let mut words = [0; 16];
    words[4..8].copy_from_slice(&[3, 768, 4, 3]);
    words
}

fn group_statuses() -> Vec<u8> {
    let mut mapped = vec![0; 32];
    mapped.extend(artifact_words().iter().flat_map(|word| word.to_ne_bytes()));
    mapped
}

#[test]
fn group_statuses_must_agree_with_the_submission() {
    let packet = PacketReport { first_blocks: Some(3), coefficient_words: 768 };
    let good = GpuVarDctArtifactStatus::from_words(artifact_words());
    assert_eq!(check_group(1, &expected(), packet, &good), Ok(()));
    assert_eq!(
        check_group(1, &expected(), PacketReport { first_blocks: None, ..packet }, &good),
        Err(VarDctDecodeError::PacketStatus { group: 1 })
    );
    let failed = GpuVarDctArtifactStatus { error_code: 7, error_value: 9, ..good };
    assert_eq!(
        check_group(1, &expected(), packet, &failed),
        Err(VarDctDecodeError::Lowering(GpuVarDctLoweringError::TaskCapacity { required: 9 }))
    );
    let short = GpuVarDctArtifactStatus { covered_blocks: 3, ..good };
    assert_eq!(
        check_group(1, &expected(), packet, &short),
        Err(VarDctDecodeError::ArtifactStatus { field: "covered_blocks", expected: 4, actual: 3 })
    );
}

#[test]
fn mapped_statuses_are_accepted_as_a_whole() {
    let mut mapped = group_statuses();
    assert_eq!(
        read_artifact(&mapped, 32),
        Ok(GpuVarDctArtifactStatus::from_words(artifact_words()))
    );
    assert_eq!(
        read_artifact(&mapped, 33),
        Err(VarDctDecodeError::StatusAbi { status: "artifact" })
    );
    let ranges = vec![vec![BitRange { offset: 1000, length: 90 }]];
    let streams = plan_streams(&ranges, 1, true, &vec![0], &vec![false]).unwrap();
    assert_eq!(
        streams,
        [HfValidation {
            index: 0,
            token_start: 0,
            token_end: 90,
            cursor_base: 1000,
            continuation: false,
        }]
    );
    let whole = plan_streams(&ranges, 1, false, &vec![0], &vec![false]).unwrap();
    assert_eq!((whole[0].token_start, whole[0].cursor_base), (1000, 0));
    assert!(plan_streams(&ranges, 1, true, &vec![1], &vec![false]).is_err());
    let packets = vec![PacketReport { first_blocks: Some(3), coefficient_words: 768 }];
    let reports = vec![HfReport { cursor: Some(90), complete: true }];
    let groups = vec![expected()];
    let finish = |mapped: &[u8], reports: &Vec<HfReport>, scalar, completed| {
        let statuses = FrameStatuses {
            mapped,
            packet_status: 32,
            hf_status: 40,
            output_status: 16,
            expected: &groups,
            packets: &packets,
            streams: &streams,
            reports,
            scalar,
        };
        finish_statuses(&statuses, completed)
    };
    mapped.extend([0; 40 + 16]);
    assert_eq!(finish(&mapped, &reports, Some(true), None), Ok(()));
    assert_eq!(finish(&mapped, &reports, None, None), Ok(()));
    assert_eq!(
        finish(&mapped, &reports, Some(false), None),
        Err(VarDctDecodeError::OutputStatus)
    );
    assert_eq!(
        finish(&mapped[..95], &reports, None, None),
        Err(VarDctDecodeError::StatusAbi { status: "artifact" })
    );
    assert_eq!(
        finish(&mapped[..150], &reports, None, None),
        Err(VarDctDecodeError::StatusAbi { status: "HF coefficient" })
    );
    assert_eq!(
        finish(&mapped[..112], &reports, None, None),
        Err(VarDctDecodeError::StatusAbi { status: "HF coefficient count" })
    );
    let open = vec![HfReport { cursor: Some(80), complete: false }];
    assert_eq!(
        finish(&mapped, &open, None, None),
        Err(VarDctDecodeError::CoefficientStatus { index: 0 })
    );
    assert_eq!(finish(&mapped[..112], &vec![], None, Some((0, 1))), Ok(()));
    assert_eq!(
        finish(&mapped, &open, None, Some((1, 1))),
        Err(VarDctDecodeError::CoefficientStatus { index: 0 })
    );
    assert_eq!(
        check_streams(&streams, &vec![], None),
        Err(VarDctDecodeError::StatusAbi { status: "HF coefficient count" })
    );
}
