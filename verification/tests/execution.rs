use jxl_wgpu_decode::bits::BitError;
use jxl_wgpu_decode::progressive_dc::{GpuBuffer, ProgressiveDcGpuError, ProgressiveDcXybPlanes};
use jxl_wgpu_decode::session::SubmittedGpuUpdate;
use jxl_wgpu_decode::vardct_engine::execution::coefficients::{
    encode_hf_pass, prepare_hf_windows, HfBatch, HfGroupPasses, HfWindowFacts, HfWindowResources,
};
use jxl_wgpu_decode::vardct_engine::execution::downstream::{
    create_hf_coefficient_job_buffers, submit_vardct_downstream, DownstreamSubmission, HfJobGroup,
    HfJobPlan, VarDctDownstreamCommands,
};
use jxl_wgpu_decode::vardct_engine::execution::extra::{
    finish_ac_extra, prepare_frame_arena, start_lf_extras, submit_extra_output, ArenaPlan,
    ExtraQueue, ExtraRequest, ExtraResume, ExtraStep, ExtraWork, FrameArena, HfRecords,
    SelectedPlane,
};
use jxl_wgpu_decode::vardct_engine::execution::map::{MapState, Reported};
use jxl_wgpu_decode::vardct_engine::execution::packet::{
    prepare_packet_windows, submit_packet_windows, PacketResources, PacketStage, WindowKernel,
};
use jxl_wgpu_decode::vardct_engine::execution::progression::{
    attach_hf_status, copy_hf_status, poll_intermediate, record_intermediates, submit_dc,
    submit_passes, IntermediateCommands, IntermediateFrame, PassBoundary, PassCoefficients,
    PassSubmission, StatusShape,
};
use jxl_wgpu_decode::vardct_engine::execution::progression_extra::{
    start, AfterExtraPass, CoefficientSubmission, ExtraPhase, FirstStep,
};
use jxl_wgpu_decode::vardct_engine::execution::raw_matrix::{
    after_raw_matrix, replan_limit, start_raw_hf_dequant_stage, AfterRawMatrix, RawMatrixCode,
    RawMatrixPlan, RawMatrixStep,
};
use jxl_wgpu_decode::vardct_engine::execution::restore::{encode_restore, RestoreGroup};
use jxl_wgpu_decode::vardct_engine::execution::session::{
    FrameBudget, FrameDecodeSession, FrameOutputScratch, FramePressure, FrameSource,
};
use jxl_wgpu_decode::vardct_engine::execution::side_image::{
    shrink_window, SideImage, SideImageMemory, SideImageStatus,
};
use jxl_wgpu_decode::vardct_engine::execution::validate::{FrameStatuses, HfReport, HfValidation};
use jxl_wgpu_decode::vardct_engine::jpeg::{JpegCoefficientError, JpegCoefficientLayout};
use jxl_wgpu_decode::vardct_engine::jpeg_open::{
    admit_headers, admit_packet, clamp_limit, JpegHeaders, JpegPacket, LfCorrelation,
};
use jxl_wgpu_decode::vardct_engine::pipeline::{
    check_raw_matrix_workgroup, open_source, VarDctSubmissionEngine,
};
use jxl_wgpu_decode::vardct_engine::source::VarDctDecodeMemoryStats;
use jxl_wgpu_decode::vardct_engine::types::VarDctDecodeError;
use jxl_wgpu_decode::vardct_frontend::{
    SampleBitDepth, StandardVarDctProfile, VarDctChannelShift, VarDctColorTransform,
};

fn contract(detail: &'static str) -> VarDctDecodeError {
    VarDctDecodeError::EngineContract { detail }
}

fn window(detail: &'static str) -> VarDctDecodeError {
    VarDctDecodeError::EntropyWindowContract { detail }
}

#[test]
fn the_first_report_of_a_mapping_stands_until_it_is_taken() {
    let mut state: MapState<&str, u32> = MapState::new();
    assert!(state.poll(7).is_none());
    match state.complete(Err("lost")) {
        Reported::Stored { waker } => assert_eq!(waker, Some(7)),
        Reported::Ignored => panic!("first report was ignored"),
    }
    assert!(matches!(state.complete(Ok(())), Reported::Ignored));
    assert_eq!(state.poll(8), Some(Err("lost")));
    assert_eq!(state.waker, None);
    assert_eq!(state.take(), None);
}

#[test]
fn side_images_shrink_to_what_is_left() {
    let memory = SideImageMemory { memory_bytes: 1000, stream_bytes: 600 };
    assert_eq!(shrink_window(memory, 1000, 64), None);
    assert_eq!(shrink_window(memory, 999, 64), Some(596));
    assert_eq!(shrink_window(memory, 464, 64), Some(64));
    assert_eq!(shrink_window(memory, 463, 64), None);
    assert_eq!(shrink_window(memory, 10, 0), Some(0));
    assert_eq!(replan_limit(100, memory, 999, 64), Some(100));
    assert_eq!(replan_limit(4096, memory, 999, 64), Some(596));
    assert_eq!(replan_limit(4096, memory, 1000, 64), None);
}

fn image() -> SideImage {
    SideImage { decoded_words: 64, token_bit_offset: 100, packet_end: 900 }
}

fn progress(cursor: u32) -> SideImageStatus {
    SideImageStatus {
        code: 5,
        is_ok: false,
        is_in_progress: true,
        decoded_samples: 10,
        cursor,
        expected_cursor: 900,
    }
}

fn ended(cursor: u32) -> SideImageStatus {
    SideImageStatus {
        code: 0,
        is_ok: true,
        is_in_progress: false,
        decoded_samples: 64,
        cursor,
        expected_cursor: 900,
    }
}

const RUNNING: RawMatrixCode = RawMatrixCode { value_error: false, completed: false };
const DONE: RawMatrixCode = RawMatrixCode { value_error: false, completed: true };

#[test]
fn raw_matrices_take_their_windows_in_order() {
    let plan = RawMatrixPlan { matrix_index: 3, image: Some(image()), has_packet_end: true };
    let mut work = start_raw_hf_dequant_stage(true, plan, 64, 64, vec![200, 400]).unwrap();
    assert_eq!(
        work.finish_raw_hf_dequant_stage(RUNNING, progress(250), false),
        Ok(RawMatrixStep::NextWindow { index: 1 })
    );
    assert_eq!(
        work.finish_raw_hf_dequant_stage(RUNNING, progress(400), false),
        Err(contract("raw matrix yielded after its final window"))
    );
    assert_eq!(
        work.finish_raw_hf_dequant_stage(DONE, ended(500), true),
        Ok(RawMatrixStep::Finalize)
    );
    assert_eq!(
        work.finish_raw_hf_dequant_stage(DONE, ended(500), false),
        Ok(RawMatrixStep::Resume { cursor: 500 })
    );
    assert_eq!(
        work.finish_raw_hf_dequant_stage(DONE, ended(501), false),
        Err(VarDctDecodeError::RawHfDequantStatus {
            matrix: 3,
            code: 0,
            decoded_samples: 64,
            expected_samples: 64,
            cursor: 501,
            expected_cursor: 900,
        })
    );
    let invalid = RawMatrixCode { value_error: true, completed: true };
    assert_eq!(
        work.finish_raw_hf_dequant_stage(invalid, ended(500), false),
        Err(VarDctDecodeError::RawHfDequantValue { matrix: 3 })
    );
    work.window_ends = vec![u32::MAX; 2];
    assert_eq!(
        work.finish_raw_hf_dequant_stage(DONE, ended(500), false),
        Err(contract("raw matrix window end overflows its cursor"))
    );
    work.window_ends.clear();
    assert_eq!(
        work.finish_raw_hf_dequant_stage(DONE, ended(500), false),
        Err(contract("raw matrix has no submitted window"))
    );
    assert_eq!(after_raw_matrix(true), AfterRawMatrix::NextMatrix);
    assert_eq!(after_raw_matrix(false), AfterRawMatrix::Coefficients);
}

#[test]
fn raw_matrices_start_with_a_bounded_packet() {
    let plan = RawMatrixPlan { matrix_index: 3, image: Some(image()), has_packet_end: true };
    let start = |pending, plan, allocated| {
        start_raw_hf_dequant_stage(pending, plan, 64, allocated, vec![1]).unwrap_err()
    };
    assert_eq!(start(false, plan, 64), VarDctDecodeError::CompletionConsumed);
    assert_eq!(
        start(true, RawMatrixPlan { image: None, ..plan }, 64),
        contract("raw HF dequant stage has no pending side image")
    );
    assert_eq!(
        start(true, RawMatrixPlan { has_packet_end: false, ..plan }, 64),
        contract("raw HF dequant stage has no bounded packet end")
    );
    assert_eq!(
        start(true, plan, 63),
        contract("raw HF dequant allocation disagrees with its byte admission")
    );
}

#[test]
fn extra_arenas_hold_declared_channels() {
    let plan = Some(ArenaPlan { bytes: 4096, final_planes: 2 });
    assert_eq!(
        prepare_frame_arena(plan, true, &vec![1, 0], &vec![true, true]),
        Ok(Some(FrameArena {
            bytes: 4096,
            planes: vec![
                SelectedPlane { index: 1, plane: 1 },
                SelectedPlane { index: 0, plane: 0 },
            ],
        }))
    );
    assert_eq!(prepare_frame_arena(None, false, &vec![1], &vec![]), Ok(None));
    let refused = |plan, admitted, indices, declared| {
        prepare_frame_arena(plan, admitted, &indices, &declared).unwrap_err()
    };
    assert_eq!(
        refused(None, true, vec![], vec![]),
        contract("extra arena admitted without a plan")
    );
    assert_eq!(refused(plan, false, vec![], vec![]), contract("extra frame arena was not admitted"));
    assert_eq!(
        refused(plan, true, vec![0, 3], vec![true; 3]),
        contract("selected extra channel has no declaration")
    );
    assert_eq!(
        refused(plan, true, vec![0], vec![false]),
        contract("extra-channel profile changed precision")
    );
    assert_eq!(
        refused(plan, true, vec![2], vec![true; 3]),
        contract("selected extra channel has no reconstructed plane")
    );
}

#[test]
fn extra_subimages_are_asked_for_one_at_a_time() {
    assert_eq!(
        start_lf_extras(&vec![5, 9])[1],
        ExtraRequest { pass: None, group: 1, cursor: 9 }
    );
    let mut queue = ExtraQueue::for_lf(vec![5, 9]);
    let first = queue.start_extra_subimage().unwrap();
    queue.subimage_ended(first, 70);
    assert_eq!(queue.start_extra_subimage().unwrap().group, 1);
    assert_eq!(queue.start_extra_subimage(), None);
    match &queue.resume {
        ExtraResume::Lf { cursors } => assert_eq!(*cursors, [70, 9]),
        ExtraResume::Ac => panic!("LF packets resume HF packets"),
    }
    let stream = |index, continuation| HfValidation {
        index,
        token_start: 0,
        token_end: 90,
        cursor_base: 1000,
        continuation,
    };
    let expected = vec![stream(0, true), stream(1, false), stream(5, true)];
    let report = HfReport { cursor: Some(40), complete: true };
    let records = HfRecords { mapped: 100, offset: 40, bytes: 20 };
    let requests = finish_ac_extra(records, &expected, &vec![report; 3], 4).unwrap();
    assert_eq!(
        requests,
        [
            ExtraRequest { pass: Some(0), group: 0, cursor: 1040 },
            ExtraRequest { pass: Some(1), group: 1, cursor: 1040 },
        ]
    );
    assert!(matches!(ExtraQueue::for_ac(requests).resume, ExtraResume::Ac));
    let open = HfReport { cursor: Some(40), complete: false };
    assert_eq!(
        finish_ac_extra(records, &expected, &vec![report, open, report], 4).unwrap_err(),
        VarDctDecodeError::CoefficientStatus { index: 1 }
    );
    assert_eq!(
        finish_ac_extra(HfRecords { mapped: 99, ..records }, &expected, &vec![report; 3], 4)
            .unwrap_err(),
        VarDctDecodeError::StatusAbi { status: "AC extra cursor range" }
    );
}

fn subimage(pass: Option<u32>) -> ExtraWork {
    let current = ExtraRequest { pass, group: 0, cursor: 90 };
    ExtraWork::new(current, image(), 11, 2, 2, vec![200, 800], 64, 64).unwrap()
}

#[test]
fn extra_subimages_are_copied_when_complete() {
    let codestream = [0; 200];
    let mut work = subimage(Some(0));
    assert_eq!(
        work.finish_extra_subimage(&codestream, progress(300), true),
        Ok(ExtraStep::NextWindow { index: 1 })
    );
    assert_eq!(
        work.finish_extra_subimage(&codestream, progress(310), true),
        Err(contract("extra subimage yielded after its final window"))
    );
    assert_eq!(
        work.finish_extra_subimage(&codestream, ended(890), true),
        Err(VarDctDecodeError::ExtraModularTrailingBits { stream: 11, cursor: 890, packet_end: 900 })
    );
    let mut aligned = subimage(Some(0));
    aligned.image.packet_end = 896;
    aligned.next_window = 2;
    let status = SideImageStatus { expected_cursor: 896, ..ended(890) };
    assert_eq!(aligned.finish_extra_subimage(&codestream, status, true), Ok(ExtraStep::Copy));
    assert_eq!(
        aligned.finish_extra_subimage(&codestream, status, true),
        Ok(ExtraStep::Ended { cursor: 890 })
    );
    let mut short = subimage(Some(0));
    short.image.packet_end = 896;
    short.next_window = 2;
    assert_eq!(
        short.finish_extra_subimage(&[0; 111], status, true),
        Err(VarDctDecodeError::Codestream(BitError::UnexpectedEndOfBits))
    );
    let mut padding = [0; 200];
    padding[111] = 0x80;
    let mut dirty = subimage(Some(0));
    dirty.image.packet_end = 896;
    dirty.next_window = 2;
    assert!(matches!(
        dirty.finish_extra_subimage(&padding, status, true),
        Err(VarDctDecodeError::ExtraModularTrailingBits { .. })
    ));
    let mut lf = subimage(None);
    assert_eq!(lf.finish_extra_subimage(&codestream, ended(290), true), Ok(ExtraStep::Copy));
    assert_eq!(
        subimage(None).finish_extra_subimage(&codestream, ended(290), false),
        Err(contract("extra subimage has no retained frame arena"))
    );
    let mut uneven = subimage(None);
    uneven.targets = 1;
    assert_eq!(
        uneven.finish_extra_subimage(&codestream, ended(290), true),
        Err(contract("extra subimage reconstruction changed its output plane count"))
    );
    assert!(matches!(
        subimage(None).finish_extra_subimage(&codestream, ended(301), true),
        Err(VarDctDecodeError::ExtraModularStatus { .. })
    ));
    let current = ExtraRequest { pass: None, group: 0, cursor: 90 };
    assert_eq!(
        ExtraWork::new(current, image(), 11, 2, 2, vec![1], 64, 60).unwrap_err(),
        contract("extra subimage allocation disagrees with admission")
    );
    assert_eq!(
        submit_extra_output(false, true),
        Err(contract("assembled extra channels have no frame output commands"))
    );
    assert_eq!(submit_extra_output(true, false), Err(VarDctDecodeError::CompletionConsumed));
    assert_eq!(submit_extra_output(true, true), Ok(()));
}

#[test]
fn packet_windows_submit_setup_first_and_statuses_last() {
    let batches = vec![vec![0, 1], vec![1]];
    let windows =
        prepare_packet_windows(PacketStage::Hf, batches, 512, 2, 2, true, true).unwrap();
    let resources = PacketResources { has_stream: true, groups: 2, metadata: 2, packet_status: 32 };
    let submissions = submit_packet_windows(&windows, resources, true).unwrap();
    assert_eq!(submissions.len(), 2);
    assert!(submissions[0].setup && !submissions[1].setup);
    assert!(submissions[0].status_offsets.is_empty());
    assert_eq!(submissions[1].status_offsets, [0, 32]);
    assert_eq!((&submissions[0].segments[..], &submissions[1].segments[..]), (&[0, 1][..], &[1][..]));
    assert!(!submissions[0].downstream && submissions[1].downstream);
    assert_eq!(submissions[0].kernel, WindowKernel::HfMetadata);
    let refused = |resources| submit_packet_windows(&windows, resources, false).unwrap_err();
    assert_eq!(
        refused(PacketResources { has_stream: false, ..resources }),
        window("windowed packet commands have no retained stream upload")
    );
    assert_eq!(
        refused(PacketResources { groups: 1, ..resources }),
        window("windowed packet batch references an absent group")
    );
    assert_eq!(
        refused(PacketResources { metadata: 1, ..resources }),
        window("packet window has no Modular metadata")
    );
    assert_eq!(
        prepare_packet_windows(PacketStage::Lf, vec![], 512, 2, 2, false, false).unwrap_err(),
        window("windowed packet execution has no dispatch")
    );
    assert_eq!(
        prepare_packet_windows(PacketStage::Lf, vec![vec![0]], 512, 2, 1, false, false).unwrap_err(),
        VarDctDecodeError::GroupPlanCount {
            component: "packet window control",
            expected: 2,
            actual: 1,
        }
    );
    let combined =
        prepare_packet_windows(PacketStage::Combined, vec![vec![1]], 512, 2, 2, false, false).unwrap();
    let shared = PacketResources { metadata: 1, ..resources };
    assert_eq!(
        submit_packet_windows(&combined, shared, false).unwrap()[0].kernel,
        WindowKernel::Combined
    );
}

fn passes() -> Vec<HfGroupPasses> {
    vec![
        HfGroupPasses { streams: vec![4, 4], batches: vec![vec![4], vec![3, 1]] },
        HfGroupPasses { streams: vec![3, 3], batches: vec![vec![2, 1], vec![]] },
    ]
}

#[test]
fn coefficient_passes_cover_every_group() {
    let params = vec![Some(2), Some(2)];
    assert_eq!(encode_hf_pass(&passes(), &params, 2, 1), Ok(vec![4, 3]));
    assert_eq!(
        encode_hf_pass(&passes(), &params, 1, 1),
        Err(window("HF pass has inconsistent LF-group resources"))
    );
    assert_eq!(
        encode_hf_pass(&passes(), &params, 2, 2),
        Err(window("HF coefficient group has no requested pass"))
    );
    assert_eq!(
        encode_hf_pass(&passes(), &vec![Some(2), None], 2, 0),
        Err(window("whole-range HF pass has no parameter buffer"))
    );
    let facts = HfWindowFacts {
        stream_window_bytes: 512,
        batch_count: 5,
        max_group_count: 4,
        passes: 2,
    };
    let windows = prepare_hf_windows(passes(), facts).unwrap();
    let resources =
        HfWindowResources { has_stream: true, has_params: true, groups: 2, status_groups: 2 };
    assert_eq!(windows.pass_count(), 2);
    let batch = |group, batch, dispatch| HfBatch { group, batch, dispatch };
    assert_eq!(
        windows.submit_pass(resources, 0),
        Ok(vec![batch(0, 0, 4), batch(1, 0, 2), batch(1, 1, 1)])
    );
    assert_eq!(windows.submit_pass(resources, 1), Ok(vec![batch(0, 0, 3), batch(0, 1, 1)]));
    assert_eq!(windows.submit(resources).unwrap().len(), 5);
    assert_eq!(
        windows.submit(HfWindowResources { has_params: false, ..resources }),
        Err(window("HF batch has no parameter upload"))
    );
    assert_eq!(
        windows.submit(HfWindowResources { status_groups: 1, ..resources }),
        Err(window("HF coefficient batch has no status group"))
    );
    assert_eq!(
        prepare_hf_windows(passes(), HfWindowFacts { batch_count: 0, ..facts }).unwrap_err(),
        window("windowed HF coefficient plan has no batches")
    );
}

#[test]
fn downstream_batches_lie_between_two_recordings() {
    let plan = HfJobPlan {
        windowed: true,
        entropy_bytes: 100,
        order_bytes: 200,
        stream_window_bytes: 300,
        reusable_params_bytes: 400,
        groups: vec![HfJobGroup { params_bytes: 5, status_bytes: 6 }],
    };
    let buffers = create_hf_coefficient_job_buffers(&plan);
    assert_eq!((buffers.stream_window, buffers.params_window), (Some(300), Some(400)));
    assert_eq!((buffers.groups[0].params, buffers.groups[0].status), (None, 6));
    let whole = create_hf_coefficient_job_buffers(&HfJobPlan { windowed: false, ..plan });
    assert_eq!((whole.stream_window, whole.groups[0].params), (None, Some(5)));
    let windowed = VarDctDownstreamCommands::Windowed { batches: 2 };
    assert_eq!(
        submit_vardct_downstream(windowed, &Some(buffers)).unwrap(),
        [
            DownstreamSubmission::BeforeCoefficients,
            DownstreamSubmission::Batch { index: 0 },
            DownstreamSubmission::Batch { index: 1 },
            DownstreamSubmission::AfterCoefficients,
        ]
    );
    assert_eq!(
        submit_vardct_downstream(VarDctDownstreamCommands::Whole, &None).unwrap(),
        [DownstreamSubmission::Everything]
    );
    assert_eq!(
        submit_vardct_downstream(windowed, &None).unwrap_err(),
        window("windowed AC commands have no retained coefficient buffers")
    );
    assert_eq!(
        submit_vardct_downstream(windowed, &Some(whole)).unwrap_err(),
        window("windowed AC commands have no stream upload")
    );
}

fn boundary(completed_passes: u8) -> PassBoundary {
    PassBoundary {
        physical_frame_index: 0,
        completed_passes,
        total_passes: 3,
        intended_downsampling: 8,
    }
}

fn snapshot(completed_passes: u8) -> IntermediateFrame {
    IntermediateFrame {
        boundary: boundary(completed_passes),
        status_bytes: if completed_passes == 0 { 192 } else { 232 },
        submitted: false,
    }
}

#[test]
fn intermediate_images_follow_their_passes() {
    let shape = StatusShape { packet_status: 32, packet_bytes: 64, groups: 2 };
    let hf = vec![16, 24];
    let boundaries = vec![boundary(0), boundary(2)];
    let (mut frames, mut recordings) =
        record_intermediates(&boundaries, &vec![192, 232], shape, None, false, 2).unwrap();
    assert!(!recordings[0].needs_hf_status && recordings[1].needs_hf_status);
    assert_eq!(submit_dc(&mut frames, &recordings[0]), Ok(()));
    assert!(frames[0].submitted);
    assert_eq!(
        submit_dc(&mut frames, &recordings[0]),
        Err(contract("invalid deferred DC boundary"))
    );
    recordings.remove(0);
    let whole = PassCoefficients::Whole;
    assert_eq!(
        submit_passes(&mut frames, 1, 3, &recordings, whole),
        Err(contract("intermediate submissions lost a validation stage"))
    );
    assert_eq!(attach_hf_status(&frames, 1, &hf, 192, &mut recordings), Ok(()));
    assert_eq!(recordings[0].hf_offsets, [192, 208]);
    assert_eq!(
        submit_passes(
            &mut frames,
            1,
            3,
            &recordings,
            PassCoefficients::Windowed { retained: false }
        ),
        Err(contract("intermediate stream lost coefficient buffers"))
    );
    assert!(!frames[1].submitted);
    assert_eq!(
        submit_passes(&mut frames, 1, 3, &recordings, whole).unwrap(),
        [
            PassSubmission { from: 0, to: 2, image: Some(1) },
            PassSubmission { from: 2, to: 3, image: None },
        ]
    );
    assert!(frames[1].submitted);
    assert_eq!(
        submit_passes(&mut frames, 3, 3, &recordings, whole),
        Err(contract("intermediate submission start is out of range"))
    );
    assert_eq!(
        submit_passes(&mut vec![snapshot(2), snapshot(1)], 0, 3, &recordings, whole),
        Err(contract("invalid intermediate pass schedule"))
    );
    assert_eq!(
        attach_hf_status(&frames, 0, &hf, 192, &mut recordings),
        Err(contract("deferred intermediate count changed"))
    );
    let command = || IntermediateCommands {
        needs_hf_status: true,
        packet_offsets: vec![0, 32],
        artifact_offsets: vec![64, 128],
        hf_offsets: vec![],
    };
    let mut waiting = vec![command()];
    assert_eq!(
        attach_hf_status(&frames, 1, &hf, 191, &mut waiting),
        Err(contract("intermediate HF validation size changed"))
    );
    let uneven = vec![snapshot(1), snapshot(0)];
    let mut waiting = vec![command(), command()];
    assert!(attach_hf_status(&uneven, 0, &hf, 192, &mut waiting).is_err());
    assert_eq!(waiting[0].hf_offsets, [192, 208]);
    assert!(!waiting[0].needs_hf_status && waiting[1].needs_hf_status);
    assert_eq!(waiting[0].artifact_offsets, [64, 128]);
    assert_eq!(copy_hf_status(&hf, 192, 232), Ok(vec![192, 208]));
    let (_, copied) =
        record_intermediates(&boundaries, &vec![192, 232], shape, Some(&hf), false, 2).unwrap();
    assert!(copied[0].hf_offsets.is_empty());
    assert_eq!(copied[1].hf_offsets, [192, 208]);
    assert_eq!(copied[0].packet_offsets, [0, 32]);
    assert_eq!(copied[0].artifact_offsets, [64, 128]);
    for (sizes, keeps_lf, permits, detail) in [
        (
            [192, 232],
            false,
            1,
            "intermediate output admission differs from the pass schedule",
        ),
        ([191, 232], false, 2, "DC validation size changed"),
        ([192, 231], false, 2, "intermediate HF validation size changed"),
        (
            [192, 232],
            true,
            2,
            "intermediate image requires color-only main-frame validation",
        ),
    ] {
        assert_eq!(
            record_intermediates(&boundaries, &sizes.to_vec(), shape, Some(&hf), keeps_lf, permits)
                .unwrap_err(),
            contract(detail)
        );
    }
}

#[test]
fn intermediate_images_carry_their_boundary() {
    let frames = vec![snapshot(0), snapshot(2)];
    let none = Vec::new();
    let streams = vec![HfValidation {
        index: 9,
        token_start: 0,
        token_end: 90,
        cursor_base: 0,
        continuation: false,
    }];
    let reports = vec![HfReport { cursor: None, complete: false }];
    let packets = Vec::new();
    let statuses = FrameStatuses {
        mapped: &[0; 40],
        packet_status: 32,
        hf_status: 40,
        output_status: 0,
        expected: &none,
        packets: &packets,
        streams: &streams,
        reports: &reports,
        scalar: None,
    };
    let poll = |pending, next, statuses: &FrameStatuses, groups| {
        poll_intermediate(pending, &frames, next, statuses, groups, "name".into(), 9_u32)
    };
    assert_eq!(
        poll(true, 1, &statuses, 8).unwrap_err(),
        VarDctDecodeError::CoefficientStatus { index: 9 }
    );
    let (update, next) = poll(true, 1, &statuses, 4).unwrap();
    assert_eq!(next, 2);
    match update {
        SubmittedGpuUpdate::Intermediate { frame, progression } => {
            assert_eq!(frame.output, 9);
            assert_eq!(frame.metadata.name, "name");
            assert_eq!(progression.completed_passes(), Some(2));
        }
        SubmittedGpuUpdate::Complete(_) => panic!("a boundary is not the final image"),
    }
    assert_eq!(
        poll(true, 2, &statuses, 4).unwrap_err(),
        VarDctDecodeError::CompletionConsumed
    );
    assert_eq!(
        poll(false, 0, &statuses, 4).unwrap_err(),
        VarDctDecodeError::CompletionConsumed
    );
}

#[test]
fn extra_schedules_alternate_passes_and_images() {
    let mut frames = vec![snapshot(0), snapshot(2)];
    let (mut schedule, step) = start(false, &mut frames, 0, 3, 2, true, false).unwrap();
    assert!(frames[0].submitted && !frames[1].submitted);
    assert_eq!(step, FirstStep::Image { index: 0 });
    assert_eq!(
        schedule.submit_coefficients(&frames, true, false),
        Ok(CoefficientSubmission { from: 0, to: 2, is_last: false })
    );
    assert_eq!(schedule.phase, ExtraPhase::Coefficients);
    assert_eq!(schedule.finish_extra_pass(&mut frames), Ok(AfterExtraPass::Image { index: 1 }));
    assert!(frames[1].submitted);
    assert_eq!(schedule.phase, ExtraPhase::Image);
    assert_eq!(
        schedule.submit_coefficients(&frames, false, true),
        Err(contract("progressive extra pass lost its coefficient buffers"))
    );
    assert_eq!(
        schedule.submit_coefficients(&frames, true, true),
        Ok(CoefficientSubmission { from: 2, to: 3, is_last: true })
    );
    assert_eq!(schedule.finish_extra_pass(&mut frames), Ok(AfterExtraPass::Output));
    assert_eq!(
        schedule.submit_coefficients(&frames, true, false),
        Err(contract("invalid progressive extra pass boundary"))
    );
    assert_eq!(
        schedule.submit_image(&mut frames),
        Err(contract("progressive extra image has no admitted snapshot"))
    );
    let (_, step) = start(false, &mut frames, 1, 3, 1, true, false).unwrap();
    assert_eq!(
        step,
        FirstStep::Coefficients(CoefficientSubmission { from: 0, to: 2, is_last: false })
    );
    assert_eq!(
        start(false, &mut frames, 1, 3, 1, false, false).unwrap_err(),
        contract("progressive extra pass has no coefficient status")
    );
    assert_eq!(
        start(true, &mut frames, 0, 3, 2, true, false).unwrap_err(),
        contract("progressive extra schedule was already installed")
    );
    assert_eq!(
        start(false, &mut frames, 0, 3, 0, true, false).unwrap_err(),
        contract("progressive extra image lost its recording")
    );
    assert_eq!(
        start(false, &mut vec![snapshot(2)], 0, 3, 1, true, false).unwrap_err(),
        contract("progressive extra image disagrees with completed passes")
    );
}

fn profile() -> StandardVarDctProfile {
    StandardVarDctProfile {
        width: 17,
        height: 9,
        output_width: 17,
        output_height: 9,
        upsampling: 1,
        sample_bit_depth: SampleBitDepth::Integer { bits_per_sample: 8 },
        color_transform: VarDctColorTransform::Ycbcr,
        channel_shifts: [VarDctChannelShift::default(); 3],
        jpeg_block_alignment: [0, 0],
        group_count: 1,
        lf_level: 0,
        uses_lf_frame: false,
        adaptive_lf_smoothing: false,
    }
}

#[test]
fn restorations_place_every_channel_and_cover_their_tasks() {
    let layout = JpegCoefficientLayout::new(&profile(), true, 1, 1 << 20).unwrap();
    let group = RestoreGroup {
        lf: [[1, 2, 3, 4], [5, 6, 7, 8], [9, 10, 11, 12]],
        x: 64,
        y: 32,
        blocks: [3, 2],
        task_metadata_offset_words: 100,
        status_offset_words: 200,
        task_capacity: 6,
        coefficient_words: 384,
        extra_precision: 2,
    };
    let shift = VarDctChannelShift { horizontal: 1, vertical: 0 };
    let shifts = [shift, VarDctChannelShift::default(), shift];
    let dispatches = encode_restore(&layout, shifts, &vec![group], 4).unwrap();
    assert_eq!((dispatches[0].columns, dispatches[0].rows), (4, 2));
    assert_eq!(
        dispatches[0].words,
        [
            1, 2, 3, 4, 5, 6, 7, 8, 9, 10, 11, 12, //
            u32::MAX, 0, 0, 0, 192, 3, 2, 64, u32::MAX, 0, 0, 0, //
            1, 0, 0, 0, 0, 0, 0, 0, 1, 0, 0, 0, //
            8, 4, 3, 2, 100, 200, 6, 384, 0, 0, 2, 4,
        ]
    );
    let empty = RestoreGroup { task_capacity: 0, ..group };
    assert_eq!(
        encode_restore(&layout, shifts, &vec![empty], 4).unwrap_err(),
        contract("empty JPEG restoration dispatch")
    );
    let many = RestoreGroup { task_capacity: 17, ..group };
    assert_eq!(
        encode_restore(&layout, shifts, &vec![many], 4).unwrap_err(),
        VarDctDecodeError::DeviceLimit {
            resource: "JPEG restoration dispatch rows",
            required: 5,
            available: 4,
        }
    );
}

#[test]
fn jpeg_reconstruction_restoration_abi_and_shader_validate() {
    let layout = JpegCoefficientLayout::new(&profile(), true, 1, 1 << 20).unwrap();
    let group = RestoreGroup {
        lf: [[101, 2, 3, 4], [5, 6, 7, 8], [9, 10, 11, 12]],
        x: 64,
        y: 32,
        blocks: [3, 2],
        task_metadata_offset_words: 160,
        status_offset_words: 200,
        task_capacity: 6,
        coefficient_words: 384,
        extra_precision: 2,
    };
    let shift = VarDctChannelShift { horizontal: 1, vertical: 0 };
    let dispatches = encode_restore(&layout, [shift; 3], &vec![group], 4).unwrap();
    let words = &dispatches[0].words;
    assert_eq!(words.len() * 4, 192);
    let at = |byte: usize| words[byte / 4];
    assert_eq!(at(0), 101);
    assert_eq!(at(48 + 16), 192);
    assert_eq!(at(96), 1);
    assert_eq!((at(144), at(148)), (8, 4));
    assert_eq!(at(160), 160);
    assert_eq!(at(176 + 8), 2);
}

fn stats() -> VarDctDecodeMemoryStats {
    VarDctDecodeMemoryStats {
        codestream_bytes: 0,
        modular_metadata_bytes: 0,
        packet_status_bytes: 0,
        packet_stream_window_bytes: 0,
        validation_staging_bytes: 0,
        lf_temporary_bytes: 0,
        resource_bytes: 0,
        hf_entropy_bundle_bytes: 0,
        hf_stream_window_bytes: 0,
        hf_params_bytes: 0,
        hf_order_table_bytes: 0,
        resident_plane_bytes: [0; 3],
        component_upsample_bytes: 0,
        component_upsample_uniform_bytes: 0,
        restoration_scratch_bytes: 0,
        gaborish_uniform_bytes: 0,
        epf_sigma_bytes: 0,
        epf_sigma_uniform_bytes: 0,
        epf_filter_uniform_bytes: 0,
        frame_upsample_image_bytes: 0,
        frame_upsample_weight_bytes: 0,
        frame_upsample_uniform_bytes: 0,
        adaptive_lf_uniform_bytes: 0,
        output_uniform_bytes: 0,
        output_lease_bytes: 100,
        extra_arena_bytes: 30,
        transient_bytes: 500,
    }
}

#[test]
fn a_frame_is_submitted_once_with_its_reservations() {
    let source = FrameSource { uses_lf_frame: true, block_extent: [5, 3], external_lf: None };
    let mut session = open_source([40, 24], stats(), source).session;
    let permits = session.reservations().unwrap();
    assert_eq!((permits.output, permits.extra, permits.transient), (100, Some(30), 470));
    let storage = GpuBuffer { size: 1024, is_storage: true };
    let planes = ProgressiveDcXybPlanes::from_leases([storage; 3], 5, 3, 0).unwrap();
    let uneven = ProgressiveDcXybPlanes::from_leases([storage; 3], 4, 3, 0).unwrap();
    assert!(matches!(
        session.set_progressive_dc_source(uneven),
        Err(VarDctDecodeError::ProgressiveDc(ProgressiveDcGpuError::PlaneExtent { plane: 0, .. }))
    ));
    assert_eq!(session.set_progressive_dc_source(planes), Ok(()));
    let mut budget = FrameBudget { polls: 1, bytes: 599 };
    assert_eq!(
        session.submit_next(&mut budget).unwrap_err(),
        FramePressure::Memory { requested: 470, free: 469 }
    );
    assert_eq!(
        session.submit_next(&mut FrameBudget { polls: 0, bytes: 600 }).unwrap_err(),
        FramePressure::Poll
    );
    assert_eq!(budget, FrameBudget { polls: 1, bytes: 599 });
    budget.bytes = 700;
    let (source, permits) = session.submit_next(&mut budget).unwrap().unwrap();
    assert!(source.external_lf.is_some());
    assert_eq!(permits.transient, 470);
    assert_eq!(budget, FrameBudget { polls: 0, bytes: 100 });
    assert!(session.submit_next(&mut budget).unwrap().is_none());
    assert!(session.reservations().is_none());
    assert_eq!(
        session.set_progressive_dc_source(planes),
        Err(VarDctDecodeError::CompletionConsumed)
    );
    assert_eq!(session.memory_stats().transient_bytes, 500);
    let own = FrameSource { uses_lf_frame: false, block_extent: [5, 3], external_lf: None };
    let mut session = FrameDecodeSession { stats: stats(), source: Some(own) };
    assert_eq!(
        session.set_progressive_dc_source(planes),
        Err(VarDctDecodeError::UnexpectedProgressiveDcSource)
    );
    assert_eq!(FrameOutputScratch::Color.copy_status(64), None);
    let scalar = FrameOutputScratch::Extra { status_bytes: 16 };
    assert_eq!((scalar.status_bytes(), scalar.copy_status(64)), (16, Some(48)));
}

#[test]
fn engines_keep_their_settings() {
    let engine = VarDctSubmissionEngine::new(1 << 24, 'a')
        .with_stream_window_limit(4096)
        .with_subsampled_adaptive_lf_policy('b');
    assert_eq!(engine.stream_window_limit(), Some(4096));
    assert_eq!(engine.subsampled_adaptive_lf_policy(), 'b');
    assert_eq!(engine.parse_limits().max_boxes, 32);
    assert_eq!(engine.parse_limits().max_input_bytes, 1 << 24);
    assert_eq!(engine.inventory_limits().max_frames, 1);
    assert_eq!(engine.inventory_limits().max_total_section_bytes, 1 << 24);
    assert_eq!(check_raw_matrix_workgroup(1), Ok(()));
    assert_eq!(
        check_raw_matrix_workgroup(8),
        Err(VarDctDecodeError::KernelPolicy {
            kernel: "vardct_raw_matrix",
            message: "raw matrix decode requires a linear workgroup",
        })
    );
}

#[test]
fn jpeg_coefficients_are_admitted_from_plain_frames() {
    let headers = JpegHeaders {
        frames: 1,
        has_animation: false,
        extra_channels: 0,
        has_preview: false,
        grayscale: true,
    };
    assert_eq!(admit_headers(true, headers), Ok(()));
    assert_eq!(
        admit_headers(false, headers),
        Err(VarDctDecodeError::Jpeg(JpegCoefficientError::MissingMetadata))
    );
    assert!(admit_headers(true, JpegHeaders { extra_channels: 1, ..headers }).is_err());
    let correlation =
        LfCorrelation { colour_factor: 84, base_bits: [0, 0x8000_0000], lf_factors: [0, 0] };
    let packet = JpegPacket { global_modular: false, groups: 1, correlation };
    assert!(admit_packet(packet, &profile(), true, 1, 1 << 20).is_ok());
    let refused = |packet, components| {
        admit_packet(packet, &profile(), true, components, 1 << 20).unwrap_err()
    };
    assert_eq!(
        refused(packet, 3),
        VarDctDecodeError::Jpeg(JpegCoefficientError::Binding { reason: "jbrd component count" })
    );
    assert_eq!(
        refused(JpegPacket { global_modular: true, ..packet }, 1),
        VarDctDecodeError::Jpeg(JpegCoefficientError::Unsupported {
            reason: "global Modular prefix"
        })
    );
    for correlation in [
        LfCorrelation { colour_factor: 83, ..correlation },
        LfCorrelation { base_bits: [1.0_f32.to_bits(), 0], ..correlation },
        LfCorrelation { lf_factors: [0, -1], ..correlation },
    ] {
        assert_eq!(
            refused(JpegPacket { correlation, ..packet }, 1),
            VarDctDecodeError::Jpeg(JpegCoefficientError::Unsupported {
                reason: "JPEG fixed-point color correlation"
            })
        );
    }
    assert_eq!(clamp_limit(10, None, 99), 10);
    assert_eq!(clamp_limit(10, Some(104), 99), 5);
    assert_eq!(clamp_limit(10, Some(4), 99), 0);
}
