use jxl_wgpu_decode::vardct_engine::execution::session::{
    FrameBudget, FramePressure, FrameSource,
};
use jxl_wgpu_decode::vardct_engine::jpeg::{JpegCoefficientError, JpegCoefficientLayout};
use jxl_wgpu_decode::vardct_engine::jpeg_open::{JpegHeaders, JpegPacket, LfCorrelation};
use jxl_wgpu_decode::vardct_engine::jpeg_output::framing::{build, fill, measure, Extras};
use jxl_wgpu_decode::vardct_engine::jpeg_output::gpu::{
    dispatch_grid, read_status, upload_offsets, word, Allocator, JpegDeviceLimits,
};
use jxl_wgpu_decode::vardct_engine::jpeg_output::gpu_assemble::start as assemble;
use jxl_wgpu_decode::vardct_engine::jpeg_output::gpu_scan::{prefix, scratch_words, ScanPhase};
use jxl_wgpu_decode::vardct_engine::jpeg_output::metadata::{
    AppMarker, AppMarkerKind, HuffmanTable, JpegComponent, JpegReconstructionMetadata, JpegScan, QuantizationTable,
    ScanComponent,
};
use jxl_wgpu_decode::vardct_engine::jpeg_output::quantizers::bind_sources;
use jxl_wgpu_decode::vardct_engine::jpeg_output::runtime::{
    keep_padding, Action, Admission, CanvasBinding, JpegReconstructionPending, Plan,
};
use jxl_wgpu_decode::vardct_engine::jpeg_output::scan::Geometry;
use jxl_wgpu_decode::vardct_engine::jpeg_output::scan_plan::{
    fill_scans, fill_tasks, plan_tasks, PlannedScan,
};
use jxl_wgpu_decode::vardct_engine::jpeg_output::template::Plan as TemplatePlan;
use jxl_wgpu_decode::vardct_engine::jpeg_output::{
    allocate, check, storage_bytes, JpegReconstructionError, JpegReconstructionLimits,
};
use jxl_wgpu_decode::vardct_engine::jpeg_session::{
    open_jpeg_coefficients, GpuJpegCoefficients, GpuJpegFrame, JpegReconstructionSession,
    JpegSubmissionError,
};
use jxl_wgpu_decode::vardct_engine::source::VarDctDecodeMemoryStats;
use jxl_wgpu_decode::vardct_engine::types::VarDctDecodeError;
use jxl_wgpu_decode::vardct_frontend::{
    SampleBitDepth, StandardVarDctProfile, VarDctChannelShift, VarDctColorTransform,
};
use std::sync::Arc;

fn profile() -> StandardVarDctProfile {
    StandardVarDctProfile {
        width: 17,
        height: 9,
        output_width: 17,
        output_height: 9,
        upsampling: 1,
        sample_bit_depth: SampleBitDepth::Integer { bits_per_sample: 8 },
        color_transform: VarDctColorTransform::Ycbcr,
        channel_shifts: [VarDctChannelShift::default(); 3],
        jpeg_block_alignment: [0, 0],
        group_count: 1,
        lf_level: 0,
        uses_lf_frame: false,
        adaptive_lf_smoothing: false,
    }
}

fn layout() -> JpegCoefficientLayout {
    JpegCoefficientLayout::new(&profile(), true, 1, 1 << 20).unwrap()
}

fn huffman(ac: bool, last: bool) -> HuffmanTable {
    let mut counts = [0; 17];
    counts[1] = 1;
    counts[2] = 1;
    HuffmanTable { index: 0, ac, last, counts, values: vec![0, 256] }
}

fn header() -> JpegReconstructionMetadata {
    JpegReconstructionMetadata {
        markers: vec![0xdb, 0xc0, 0xc4, 0xda, 0xd9],
        components: vec![JpegComponent { id: 1, quant: 0 }],
        scans: vec![JpegScan {
            start: 0,
            end: 63,
            high: 0,
            low: 0,
            components: vec![ScanComponent { component: 0, dc: 0, ac: 0 }],
            last_pass: 0,
            resets: Vec::new(),
            extra_zeros: Vec::new(),
        }],
        huffman_tables: vec![huffman(false, false), huffman(true, true)],
        quantization_tables: vec![QuantizationTable { index: 0, precision: 0, last: true }],
        app_markers: Vec::new(),
        opaque_body: Vec::new(),
        comments: Vec::new(),
        intermarker_data: Vec::new(),
        tail: vec![0xaa],
        restart_interval: 0,
    }
}

const NOTHING: Extras<'static> = Extras { icc: &[], exif: &[], xmp: &[] };

fn canvas() -> CanvasBinding {
    CanvasBinding {
        image_width: 17,
        image_height: 9,
        x0: 0,
        y0: 0,
        upsampling: 1,
        replaces: true,
    }
}

#[test]
fn a_template_frames_its_scan_and_quantizers() {
    let plan = build(&header(), &layout(), &NOTHING, 1 << 20, 1 << 20).unwrap();
    let mut expected = vec![0xff, 0xd8, 0xff, 0xdb, 0, 0x43, 0];
    let table = expected.len();
    expected.extend([0; 64]);
    expected.extend([0xff, 0xc0, 0, 0x0b, 8, 0, 9, 0, 17, 1, 1, 0x11, 0]);
    expected.extend([0xff, 0xc4, 0, 0x26, 0, 1]);
    expected.extend([0; 15]);
    expected.extend([0, 0x10, 1]);
    expected.extend([0; 15]);
    expected.extend([0]);
    expected.extend([0xff, 0xda, 0, 8, 1, 1, 0, 0, 63, 0]);
    let scan = expected.len();
    expected.extend([0xff, 0xd9, 0xaa]);
    assert_eq!(plan.bytes, expected);
    assert_eq!(plan.scan_offsets, [scan as u32]);
    assert_eq!(plan.quantizers.len(), 1);
    assert_eq!(plan.quantizers[0][0], table as u32);
    assert_eq!(plan.quantizers[0][3], 0);
}

#[test]
fn a_template_respects_its_limits_and_uses_every_table() {
    assert!(matches!(
        build(&header(), &layout(), &NOTHING, 20, 1 << 20),
        Err(JpegReconstructionError::Limit { .. })
    ));
    let mut spare = header();
    spare.quantization_tables.push(QuantizationTable { index: 1, precision: 0, last: true });
    assert!(build(&spare, &layout(), &NOTHING, 1 << 20, 1 << 20).is_err());
    let mut open = header();
    open.quantization_tables[0].last = false;
    assert!(build(&open, &layout(), &NOTHING, 1 << 20, 1 << 20).is_err());
    assert_eq!(
        build(&header(), &layout(), &NOTHING, 1 << 20, 7).unwrap_err(),
        JpegReconstructionError::Limit { resource: "framing plan bytes", required: 8, limit: 7 }
    );
}

#[test]
fn a_template_places_every_scan_behind_the_one_before() {
    let mut header = header();
    header.markers = vec![0xdb, 0xc2, 0xc4, 0xda, 0xda, 0xdb, 0xd9];
    header.scans.push(JpegScan {
        start: 0,
        end: 0,
        high: 0,
        low: 0,
        components: vec![ScanComponent { component: 0, dc: 0, ac: 0 }],
        last_pass: 0,
        resets: Vec::new(),
        extra_zeros: Vec::new(),
    });
    header.quantization_tables.push(QuantizationTable { index: 1, precision: 1, last: true });
    let plan = build(&header, &layout(), &NOTHING, 1 << 20, 1 << 20).unwrap();
    assert_eq!(plan.scan_offsets.len(), 2);
    assert_eq!(plan.scan_offsets[1], plan.scan_offsets[0] + 10);
    assert_eq!(plan.quantizers.len(), 2);
    assert_eq!(plan.bytes[..2], [0xff, 0xd8]);
}

#[test]
fn a_template_is_bound_measured_and_filled_in_turn() {
    let header = header();
    let layout = layout();
    let sources = bind_sources(Vec::new(), &header, &layout).unwrap();
    assert_eq!(sources, [[64, 2]]);
    assert_eq!(keep_padding(Vec::new(), &[1, 2]), [1, 2]);
    let (length, owned) =
        measure(&header, &layout, &NOTHING, &sources, 1 << 20, 1 << 20).unwrap();
    assert_eq!(owned, length + 4 + 16);
    assert_eq!(
        measure(&header, &layout, &NOTHING, &sources, 1 << 20, owned + 7).unwrap_err(),
        JpegReconstructionError::Limit {
            resource: "framing plan bytes",
            required: owned + 8,
            limit: owned + 7,
        }
    );
    let room = TemplatePlan {
        bytes: Vec::new(),
        scan_offsets: Vec::new(),
        quantizers: Vec::new(),
        owned_bytes: owned,
    };
    let plan = fill(room, &header, &layout, &NOTHING, &sources, 1 << 20).unwrap();
    let built = build(&header, &layout, &NOTHING, 1 << 20, 1 << 20).unwrap();
    assert_eq!(plan.bytes.len() as u64, length);
    assert_eq!((plan.bytes, plan.scan_offsets), (built.bytes, built.scan_offsets));
    let mut unbound = self::header();
    unbound.quantization_tables.insert(0, QuantizationTable { index: 1, precision: 0, last: true });
    unbound.components[0].quant = 1;
    unbound.markers.insert(0, 0xdb);
    assert_eq!(
        bind_sources(Vec::new(), &unbound, &layout).unwrap_err(),
        JpegReconstructionError::Unsupported("unbound first quantization table")
    );
}

#[test]
fn metadata_is_declared_within_its_fields() {
    assert!(header().is_declared());
    let mut table = header();
    table.huffman_tables[0].index = 4;
    assert!(!table.is_declared());
    let mut precision = header();
    precision.quantization_tables[0].precision = 2;
    assert!(!precision.is_declared());
    let mut scan = header();
    scan.scans[0].components = (0..5).map(|_| ScanComponent { component: 0, dc: 0, ac: 0 }).collect();
    assert!(!scan.is_declared());
    let mut app = header();
    app.app_markers = vec![AppMarker { kind: AppMarkerKind::Icc, size: 16, body: None }];
    assert!(!app.is_declared());
    app.app_markers[0].size = 17;
    assert!(app.is_declared());
    app.app_markers[0].body = Some((0, 1));
    assert!(!app.is_declared());
}

#[test]
fn room_for_scans_is_filled_in_place() {
    let layout = layout();
    let planes = layout.planes();
    let first = planes[0];
    let geometry = Geometry {
        planes,
        components: planes.len(),
        mcus: [first.blocks_per_row, first.block_rows],
    };
    let rooms = vec![PlannedScan { parameters: 0, tasks: Vec::new(), tables: Vec::new() }];
    let filled = fill_scans(rooms, &header(), &geometry);
    let limits = JpegReconstructionLimits::default();
    let planned = plan(limits);
    assert_eq!(filled[0].tasks, planned.scans.scans[0].tasks);
    assert_eq!(filled[0].tables, planned.scans.scans[0].tables);
    assert_eq!(filled[0].parameters, 0x3f00);
    let tasks = plan_tasks(&header().scans[0], &geometry, 0, 6).unwrap();
    assert_eq!(tasks, fill_tasks(Vec::new(), &header().scans[0], &geometry, 0, 6));
    assert_eq!(tasks, filled[0].tasks);
}

fn plan(limits: JpegReconstructionLimits) -> Plan {
    let (header, layout) = (header(), layout());
    Admission::begin(canvas(), &header, 100, 0, &layout, limits)
        .unwrap()
        .boxes(1, 1, 10)
        .unwrap()
        .finish(&header, &layout, &NOTHING, 5, &[0xff], 3, true)
        .unwrap()
}

#[test]
fn admission_binds_the_canvas_and_charges_the_host() {
    let limits = JpegReconstructionLimits::default();
    let (header, layout) = (header(), layout());
    let shifted = CanvasBinding { x0: 1, ..canvas() };
    assert!(matches!(
        Admission::begin(shifted, &header, 100, 0, &layout, limits),
        Err(JpegReconstructionError::Unsupported("JPEG canvas binding"))
    ));
    assert!(matches!(
        Admission::begin(canvas(), &header, u64::MAX, 1, &layout, limits),
        Err(JpegReconstructionError::Invalid("size overflow"))
    ));
    assert!(matches!(
        Admission::begin(canvas(), &header, limits.max_plan_bytes, 1, &layout, limits),
        Err(JpegReconstructionError::Limit { resource: "host reconstruction plan bytes", .. })
    ));
    let admission = Admission::begin(canvas(), &header, 100, 20, &layout, limits).unwrap();
    assert_eq!(admission.owned, 120 + admission.scans.owned_bytes);
    assert_eq!(admission.retained_limit(50), 50);
    assert_eq!(admission.scans.scans.len(), 1);
    assert_eq!(admission.scans.scans[0].tasks.len(), 6);
    assert!(matches!(
        admission.boxes(2, 0, 0),
        Err(JpegReconstructionError::Invalid("duplicate JPEG metadata box"))
    ));
}

#[test]
fn interleaved_scans_visit_every_block_once() {
    let shift = VarDctChannelShift { horizontal: 1, vertical: 1 };
    let profile = StandardVarDctProfile {
        channel_shifts: [shift, VarDctChannelShift::default(), shift],
        jpeg_block_alignment: [1, 1],
        ..profile()
    };
    let layout = JpegCoefficientLayout::new(&profile, false, 1, 1 << 20).unwrap();
    let mut header = header();
    header.components = (0..3).map(|id| JpegComponent { id: id + 1, quant: 0 }).collect();
    header.scans[0].components =
        (0..3).map(|component| ScanComponent { component, dc: 0, ac: 0 }).collect();
    let limits = JpegReconstructionLimits::default();
    let admission = Admission::begin(canvas(), &header, 100, 0, &layout, limits).unwrap();
    let mut blocks: Vec<u32> =
        admission.scans.scans[0].tasks.iter().map(|task| task[0]).collect();
    assert_eq!(blocks.len(), 12);
    assert_eq!(blocks[..4], [192, 256, 192 + 256, 256 + 256]);
    blocks.sort();
    let mut expected: Vec<u32> = layout
        .planes()
        .iter()
        .flat_map(|plane| {
            let count = plane.blocks_per_row * plane.block_rows;
            (0..count).map(move |block| plane.coefficient_word_offset + block * 64)
        })
        .collect();
    expected.sort();
    assert_eq!(blocks, expected);
}

#[test]
fn a_reconstruction_counts_emits_packs_and_assembles() {
    let limits = JpegReconstructionLimits::default();
    let framed = plan(limits).framing.bytes.len() as u64;
    let mut pending = JpegReconstructionPending::new(plan(limits), Arc::new(layout()), 65535);
    assert!(matches!(
        pending.coefficients_ready(),
        Ok(Action::Scan { index: 0, .. })
    ));
    match pending.advance([0, 80, 10, 0]) {
        Ok(Action::Scan { index: 0, submission }) => {
            assert_eq!(submission.state.phase, ScanPhase::Emit);
            assert_eq!(submission.buffers[1], 12);
        }
        other => panic!("{other:?}"),
    }
    match pending.advance([0, 80, 10, 11]) {
        Ok(Action::Scan { index: 0, submission }) => {
            assert_eq!(submission.state.phase, ScanPhase::Pack);
            assert_eq!(submission.state.byte_len, 11);
            assert_eq!(submission.buffers, [12]);
        }
        other => panic!("{other:?}"),
    }
    assert!(pending.assembly().is_none());
    assert!(matches!(pending.advance([0, 80, 10, 11]), Ok(Action::Assemble)));
    let file = framed + 11;
    let assembly = pending.assembly().unwrap();
    assert_eq!((u64::from(assembly.byte_len), assembly.steps.len()), (file, 5));
    assert_eq!(assembly.metadata[12], 65535);
    match pending.advance([0, file as u32, 64, 384]) {
        Ok(Action::Complete { byte_len }) => assert_eq!(byte_len, file),
        other => panic!("{other:?}"),
    }
    assert_eq!(
        pending.advance([0; 4]).unwrap_err(),
        JpegReconstructionError::Invalid("completed pending JPEG")
    );
}

#[test]
fn a_session_submits_its_file_once() {
    let stats = VarDctDecodeMemoryStats {
        codestream_bytes: 0,
        modular_metadata_bytes: 0,
        packet_status_bytes: 0,
        packet_stream_window_bytes: 0,
        validation_staging_bytes: 0,
        lf_temporary_bytes: 0,
        resource_bytes: 0,
        hf_entropy_bundle_bytes: 0,
        hf_stream_window_bytes: 0,
        hf_params_bytes: 0,
        hf_order_table_bytes: 0,
        resident_plane_bytes: [0; 3],
        component_upsample_bytes: 0,
        component_upsample_uniform_bytes: 0,
        restoration_scratch_bytes: 0,
        gaborish_uniform_bytes: 0,
        epf_sigma_bytes: 0,
        epf_sigma_uniform_bytes: 0,
        epf_filter_uniform_bytes: 0,
        frame_upsample_image_bytes: 0,
        frame_upsample_weight_bytes: 0,
        frame_upsample_uniform_bytes: 0,
        adaptive_lf_uniform_bytes: 0,
        output_uniform_bytes: 0,
        output_lease_bytes: 9,
        extra_arena_bytes: 0,
        transient_bytes: 0,
    };
    let source = FrameSource { uses_lf_frame: false, block_extent: [3, 2], external_lf: None };
    let headers = JpegHeaders {
        frames: 1,
        has_animation: false,
        extra_channels: 0,
        has_preview: false,
        grayscale: true,
    };
    let correlation = LfCorrelation { colour_factor: 84, base_bits: [0; 2], lf_factors: [0; 2] };
    let packet = JpegPacket { global_modular: false, groups: 1, correlation };
    let open = |metadata, packet| {
        open_jpeg_coefficients(metadata, headers, packet, &profile(), 1 << 20, stats, source)
    };
    assert_eq!(
        open(None, packet).unwrap_err(),
        VarDctDecodeError::Jpeg(JpegCoefficientError::MissingMetadata)
    );
    assert!(open(Some(header()), JpegPacket { global_modular: true, ..packet }).is_err());
    let inner = open(Some(header()), packet).unwrap();
    assert_eq!(inner.layout().extent(), [17, 9]);
    assert_eq!(inner.memory_stats().output_lease_bytes, 9);
    assert_eq!(inner.metadata().markers.len(), 5);
    let coefficients = GpuJpegCoefficients::new(Arc::new(layout()), 'b');
    assert_eq!((coefficients.layout().coefficient_words(), *coefficients.buffer()), (384, 'b'));
    let plan = plan(JpegReconstructionLimits::default());
    let mut session = JpegReconstructionSession::new(inner, plan, 65535);
    let mut short = FrameBudget { polls: 1, bytes: 8 };
    assert_eq!(
        session.submit_next(&mut short).unwrap_err(),
        JpegSubmissionError::Pressure(FramePressure::Memory { requested: 9, free: 8 })
    );
    let mut budget = FrameBudget { polls: 2, bytes: 1000 };
    let (coefficients, mut pending) = session.submit_next(&mut budget).unwrap().unwrap();
    assert_eq!(coefficients.layout.coefficient_words(), 384);
    assert!(pending.coefficients_ready().is_ok());
    assert!(session.submit_next(&mut budget).unwrap().is_none());
    let frame = GpuJpegFrame::new('f', 77);
    assert_eq!((*frame.buffer(), frame.byte_len()), ('f', 77));
}

#[test]
fn refused_statuses_end_a_reconstruction() {
    let limits = JpegReconstructionLimits::default();
    let started = |limits| {
        let mut pending = JpegReconstructionPending::new(plan(limits), Arc::new(layout()), 65535);
        pending.coefficients_ready().unwrap();
        pending
    };
    for (status, stage) in [
        ([7, 80, 10, 0], "scan entropy"),
        ([0, 0, 0, 0], "raw count"),
        ([0, 81, 10, 0], "raw count"),
        ([0, 80, 11, 0], "raw count"),
    ] {
        let mut pending = started(limits);
        assert_eq!(
            pending.advance(status).unwrap_err(),
            JpegReconstructionError::GpuStatus { stage, status }
        );
        assert_eq!(
            pending.advance(status).unwrap_err(),
            JpegReconstructionError::Invalid("completed pending JPEG")
        );
    }
    let tight = JpegReconstructionLimits { max_raw_scan_bytes: 9, ..limits };
    assert_eq!(
        started(tight).advance([0, 80, 10, 0]).unwrap_err(),
        JpegReconstructionError::Limit { resource: "raw scan bytes", required: 10, limit: 9 }
    );
    let mut pending = started(limits);
    pending.advance([0, 80, 10, 0]).unwrap();
    let status = [0, 80, 10, 21];
    assert_eq!(
        pending.advance(status).unwrap_err(),
        JpegReconstructionError::GpuStatus { stage: "escaped count", status }
    );
    let mut pending = started(limits);
    pending.fail();
    assert!(pending.advance([0; 4]).is_err());
    let mut early = JpegReconstructionPending::new(plan(limits), Arc::new(layout()), 65535);
    assert_eq!(
        early.advance([0; 4]).unwrap_err(),
        JpegReconstructionError::Invalid("coefficient stage event")
    );
}

#[test]
fn dispatches_cover_their_groups_in_two_dimensions() {
    assert_eq!(dispatch_grid(0, 8, 8), Ok([0, 0]));
    assert_eq!(dispatch_grid(5, 8, 8), Ok([5, 1]));
    assert_eq!(dispatch_grid(17, 8, 8), Ok([8, 3]));
    assert_eq!(
        dispatch_grid(65, 8, 8),
        Err(JpegReconstructionError::Limit { resource: "dispatch rows", required: 9, limit: 8 })
    );
    assert!(matches!(
        dispatch_grid(1 << 26, 65535, 65535),
        Err(JpegReconstructionError::Limit { resource: "dispatch invocations", .. })
    ));
    assert_eq!(scratch_words(1), Ok(2));
    assert_eq!(word(1 << 32), Err(JpegReconstructionError::Invalid("GPU address overflow")));
}

#[test]
fn prefix_scans_stay_inside_their_scratch() {
    let mut steps = Vec::new();
    prefix(130, 1000, 2000, 5000, false, &mut steps);
    let phases: Vec<(usize, [u32; 4], u32)> =
        steps.iter().map(|step| (step.phase, step.words, step.groups)).collect();
    assert_eq!(
        phases,
        [
            (7, [1000, 2000, 130, 5000], 3),
            (7, [5000, 5003, 3, 5006], 1),
            (8, [5003, 2000, 130, 0], 3),
        ]
    );
    assert_eq!(scratch_words(130), Ok(8));
}

#[test]
fn an_assembly_tiles_its_file() {
    let plan = plan(JpegReconstructionLimits::default());
    let assembly =
        assemble(&plan.framing, &plan.scans.masks, &layout(), &vec![11], 65535, 1 << 20).unwrap();
    let total = plan.framing.bytes.len() as u32 + 11;
    assert_eq!((assembly.byte_len, assembly.output_bytes), (total, u64::from(total + 3) / 4 * 4));
    assert_eq!(assembly.expected, [0, total, 64, 384]);
    let mut end = 0;
    for step in assembly.steps.iter().filter(|step| step.phase == 0) {
        assert_eq!(step.params[2], end);
        end += step.params[0];
    }
    assert_eq!(end, total);
    let patch = assembly.steps.iter().find(|step| step.phase == 1).unwrap();
    assert_eq!((patch.params[0], patch.params[2]), (64, 7));
    assert_eq!(assembly.metadata[..4], [192, 384, 12, 0]);
    assert_eq!(assembly.metadata[12], 65535);
    assert_eq!(
        assemble(&plan.framing, &plan.scans.masks, &layout(), &vec![], 65535, 1 << 20).unwrap_err(),
        JpegReconstructionError::Invalid("scan count")
    );
    assert!(matches!(
        assemble(&plan.framing, &plan.scans.masks, &layout(), &vec![11], 65535, 100),
        Err(JpegReconstructionError::Limit { resource: "JPEG output bytes", .. })
    ));
    let crossed = TemplatePlan {
        bytes: vec![0; 9],
        scan_offsets: vec![5, 4],
        quantizers: vec![],
        owned_bytes: 0,
    };
    assert_eq!(
        assemble(&crossed, &plan.scans.masks, &layout(), &vec![1, 1], 65535, 100).unwrap_err(),
        JpegReconstructionError::Invalid("template offsets")
    );
    let far = TemplatePlan { scan_offsets: vec![5], quantizers: vec![[u32::MAX, 0, 1, 0]], ..crossed };
    assert_eq!(
        assemble(&far, &plan.scans.masks, &layout(), &vec![1], 65535, 100).unwrap_err(),
        JpegReconstructionError::Invalid("GPU address overflow")
    );
    assert!(assembly.finish([0, total, 64, 383]).is_err());
    assert_eq!(assembly.finish([0, total, 64, 384]), Ok(u64::from(total)));
}

#[test]
fn allocations_stay_inside_their_reservation() {
    let limits = JpegDeviceLimits {
        max_buffer_size: 64,
        max_storage_buffer_binding_size: 32,
        max_compute_workgroups_per_dimension: 8,
    };
    let mut allocator = Allocator::new(70, limits);
    assert_eq!(allocator.buffer(0, true), Ok(4));
    assert_eq!(allocator.buffer(5, true), Ok(8));
    assert!(matches!(
        allocator.buffer(33, true),
        Err(JpegReconstructionError::Limit { resource: "GPU storage binding bytes", .. })
    ));
    assert!(matches!(
        allocator.buffer(65, false),
        Err(JpegReconstructionError::Limit { resource: "GPU buffer bytes", .. })
    ));
    let (size, bytes) = allocator.uniform(&[1, 2, 3]).unwrap();
    assert_eq!((size, bytes.len()), (12, 12));
    assert_eq!(bytes[4..8], 2_u32.to_ne_bytes());
    assert_eq!(allocator.staging(), Ok(16));
    assert_eq!(
        allocator.buffer(40, false),
        Err(JpegReconstructionError::Invalid("allocation plan"))
    );
    assert_eq!(storage_bytes(5), Ok(8));
    assert_eq!(storage_bytes(u64::MAX), Err(JpegReconstructionError::Invalid("size overflow")));
    assert_eq!(
        check("work", 5, 4),
        Err(JpegReconstructionError::Limit { resource: "work", required: 5, limit: 4 })
    );
}

#[test]
fn host_allocations_may_be_refused() {
    let room: Vec<u64> = allocate(100).unwrap();
    assert!(room.is_empty());
    assert!(room.capacity() >= 100);
    assert_eq!(allocate::<u64>(0), Ok(Vec::new()));
    assert_eq!(allocate::<u64>(usize::MAX), Err(JpegReconstructionError::Allocation));
}

#[test]
fn mapped_statuses_are_read_as_words() {
    let bytes: Vec<u8> = [0_u32, 8, 1, 2].iter().flat_map(|word| word.to_ne_bytes()).collect();
    assert_eq!(read_status(&bytes, "scan entropy"), Ok([0, 8, 1, 2]));
    assert!(read_status(&bytes[..12], "scan entropy").is_err());
    let failed: Vec<u8> = [3_u32, 8, 1, 2].iter().flat_map(|word| word.to_ne_bytes()).collect();
    assert_eq!(
        read_status(&failed, "scan entropy"),
        Err(JpegReconstructionError::GpuStatus { stage: "scan entropy", status: [3, 8, 1, 2] })
    );
    assert_eq!(upload_offsets(10, &[3, 0, 7]), Ok(vec![0, 3, 3]));
    assert!(upload_offsets(9, &[3, 0, 7]).is_err());
}
