use jxl_wgpu_decode::restoration::{
    restoration_config, EdgePreservingFilterInventory, EpfPass, GaborishInventory,
    GaborishWeights, RestorationError, RestorationFilterInventory,
};
use jxl_wgpu_decode::vardct_engine::execution::submit::{
    expect_groups, plan_group_buffers, plan_lf_route, plan_packet_route, plan_staging,
    plan_status, LfRoute, PacketEntry, PacketRoute, PacketWindows, StatusKind,
};
use jxl_wgpu_decode::vardct_engine::output::{
    prepare_presentation, selected_extra_indices, ColorTransform, ExtraChannel,
    ImagePresentation, OutputMapping, OutputRequest, Presentation, QuantBias,
};
use jxl_wgpu_decode::vardct_engine::restoration::{
    dequant_matrix_multiplier, PlaneSet, RestorationCursor,
};
use jxl_wgpu_decode::vardct_engine::source::{
    admit_stream_window, begin_source, check_limit, check_limits, check_presentation,
    choose_control, choose_windows, frame_upsampling, lower_groups, plan_groups, resolve_stream_limit,
    staged_lf_submission_count, submissions_per_frame, AdaptiveStreamLimitDecision, ControlStage, DeviceLimits, FrameFilters,
    FrameGeometry,
    HfGroupBytes, LimitCheck, Packet, PacketGroup, PresentationFacts, ResourceLayout,
    SubmissionCounts,
};
use jxl_wgpu_decode::vardct_engine::types::VarDctDecodeError;
use jxl_wgpu_decode::vardct_frontend::{
    SampleBitDepth, StandardVarDctProfile, VarDctChannelShift, VarDctColorTransform,
};

fn limits() -> DeviceLimits {
    DeviceLimits {
        max_buffer_size: 1 << 28,
        max_storage_buffer_binding_size: 1 << 27,
        max_uniform_buffer_binding_size: 1 << 16,
        max_compute_workgroup_storage_size: 1 << 14,
        max_compute_invocations_per_workgroup: 256,
        max_compute_workgroup_size_y: 256,
        max_compute_workgroups_per_dimension: 65535,
        min_storage_buffer_offset_alignment: 256,
    }
}

fn group(x: u32) -> PacketGroup {
    PacketGroup {
        x,
        y: 0,
        width: 64,
        height: 64,
        blocks: [8, 8],
        task_capacity: 64,
        coefficient_words: 64 * 192,
        reconstructed_words: 192,
        raw_metadata_words: 400,
        strategy_offset_words: 100,
        hf_mul_offset_words: 200,
        modular_metadata_words: 50,
        extra_precision: 0,
        lf_extents: [[8, 8]; 3],
        entry_bit_offset: 40,
    }
}

fn packet() -> Packet {
    Packet {
        groups: vec![group(0), group(64)],
        uses_lf_frame: false,
        needs_self_correcting: false,
        requires_lf_staging: false,
        requires_lf_extra_staging: false,
        requires_hf_global_staging: false,
        pending_raw_matrix: false,
        channel_shifts: [VarDctChannelShift::default(); 3],
        global_scale: 1000,
        quant_lf: 16,
    }
}

fn frame() -> FrameGeometry {
    FrameGeometry {
        blocks_x: 16,
        width: 128,
        pass_group_dim_blocks: 32,
        resources: ResourceLayout {
            quant_offset: 1000,
            correlation_offset: 2000,
            afv_basis_offset: 3000,
            matrix_offsets: [7; 27],
        },
    }
}

fn facts() -> PresentationFacts {
    PresentationFacts {
        color_request: true,
        packed_format: true,
        xyb: true,
        has_inverse_opsin: true,
        orientation: 1,
        srgb: true,
        frames: 1,
    }
}

fn filters(iterations: u32) -> FrameFilters {
    FrameFilters {
        restoration: RestorationFilterInventory::Default {
            epf: EdgePreservingFilterInventory::Enabled {
                iterations,
                sharp_lut: None,
                channel_scale: None,
                sigma: None,
            },
        },
        x_qm_scale: 1,
        b_qm_scale: 3,
    }
}

fn profile() -> StandardVarDctProfile {
    StandardVarDctProfile {
        width: 128,
        height: 64,
        output_width: 128,
        output_height: 64,
        upsampling: 1,
        sample_bit_depth: SampleBitDepth::Integer { bits_per_sample: 8 },
        color_transform: VarDctColorTransform::Xyb,
        channel_shifts: [VarDctChannelShift::default(); 3],
        jpeg_block_alignment: [0, 0],
        group_count: 1,
        lf_level: 0,
        uses_lf_frame: false,
        adaptive_lf_smoothing: false,
    }
}

#[test]
fn groups_share_the_resource_table() {
    let plans = plan_groups(&packet().groups, &frame(), limits()).unwrap();
    assert_eq!(plans.len(), 2);
    assert_eq!((plans[0].quant_offset, plans[1].quant_offset), (1000, 1064));
    assert_eq!((plans[0].correlation_offset, plans[1].correlation_offset), (2000, 2001));
    assert_eq!(plans[0].artifact_layout.task_capacity, 64);
    let lowering = lower_groups(&packet().groups, &frame(), &plans).unwrap();
    assert_eq!(lowering.len(), 2);
    assert_eq!(lowering[1].dimensions, [8, 8, 64, 32]);
    assert_eq!(lowering[1].image, [16, 64, 0, 3000]);
    assert_eq!(lowering[1].source_offsets, [100, 200, 0, 0]);
    assert_eq!(lowering[1].artifact_offsets[2], plans[1].artifact_layout.tasks_offset_words);
    assert_eq!(lowering[1].matrix_offsets[6], [7, 7, 7, 0]);
    let mut broken = packet();
    broken.groups[1].blocks = [0, 8];
    assert!(matches!(
        plan_groups(&broken.groups, &frame(), limits()),
        Err(VarDctDecodeError::Artifact(_))
    ));
}

#[test]
fn frames_are_admitted_in_order() {
    assert_eq!(admit_stream_window(Some(4096), limits(), 1024), Ok(4096));
    assert_eq!(admit_stream_window(None, limits(), 1024), Ok(1 << 27));
    assert_eq!(
        admit_stream_window(Some(1000), limits(), 1024),
        Err(VarDctDecodeError::EntropyStreamWindowTooSmall {
            limit_bytes: 1000,
            minimum_bytes: 1024,
        })
    );
    for (facts, error) in [
        (
            PresentationFacts { color_request: false, packed_format: false, ..facts() },
            VarDctDecodeError::UnsupportedOutput,
        ),
        (
            PresentationFacts { packed_format: false, ..facts() },
            VarDctDecodeError::UnsupportedFormat,
        ),
        (
            PresentationFacts { orientation: 6, ..facts() },
            VarDctDecodeError::UnsupportedOrientation { orientation: 6 },
        ),
        (
            PresentationFacts { srgb: false, ..facts() },
            VarDctDecodeError::UnsupportedColorEncoding,
        ),
        (PresentationFacts { frames: 0, ..facts() }, VarDctDecodeError::MissingFrame),
    ] {
        assert_eq!(check_presentation(facts), Err(error));
    }
    let begin = |filters, requested, upsampling| {
        begin_source(
            facts(),
            filters,
            requested,
            limits(),
            1024,
            &packet(),
            &frame(),
            &vec![300, 310],
            [16, 8],
            upsampling,
        )
    };
    let plan = begin(filters(2), None, 4).unwrap();
    assert_eq!(plan.upsampling, Some(4));
    assert!(plan.windows.combined && !plan.windows.lf);
    assert_eq!(plan.gaborish, Some(GaborishWeights::Default));
    assert_eq!(plan.channel_scales.map(f32::from_bits), [1.25, 1.0, 0.8]);
    let epf = plan.epf.unwrap();
    assert_eq!(epf.passes.len(), 2);
    assert_eq!(epf.sigma_groups[1].sharpness_offset_words, 310);
    assert_eq!(epf.sigma_groups[1].output_origin, [8, 0]);
    assert_eq!(epf.sigma_groups[1].output_blocks, [16, 8]);
    assert_eq!(plan.lowering.len(), 2);
    assert!(begin(filters(2), None, 3).is_err());
    assert_eq!(
        begin_source(
            PresentationFacts { has_inverse_opsin: false, ..facts() },
            filters(2),
            None,
            limits(),
            1024,
            &packet(),
            &frame(),
            &vec![300, 310],
            [16, 8],
            1,
        )
        .unwrap_err(),
        VarDctDecodeError::MissingInverseOpsin
    );
    assert_eq!(
        begin(filters(4), Some(1), 1).unwrap_err(),
        VarDctDecodeError::Restoration(RestorationError::InvalidEpfIterations { iterations: 4 })
    );
    assert_eq!(
        begin(FrameFilters { b_qm_scale: 8, ..filters(2) }, Some(1), 1).unwrap_err(),
        VarDctDecodeError::InvalidQuantMatrixScale { channel: "B", scale: 8 }
    );
    assert!(matches!(
        begin(filters(2), Some(1), 3).unwrap_err(),
        VarDctDecodeError::EntropyStreamWindowTooSmall { .. }
    ));
    assert_eq!(frame_upsampling(1), Ok(None));
    assert_eq!(
        resolve_stream_limit(AdaptiveStreamLimitDecision::BudgetTooSmall { required_bytes: 9 }, 8),
        Err(VarDctDecodeError::MemoryBudgetTooSmall { required_bytes: 9, limit_bytes: 8 })
    );
    assert_eq!(resolve_stream_limit(AdaptiveStreamLimitDecision::Selected(5), 8), Ok(5));
}

#[test]
fn limits_are_checked_in_order() {
    assert_eq!(check_limit("buffer", 4, 4), Ok(()));
    assert_eq!(
        check_limit("buffer", 5, 4),
        Err(VarDctDecodeError::DeviceLimit { resource: "buffer", required: 5, available: 4 })
    );
    let checks = vec![
        LimitCheck { resource: "first", required: 1, available: 1 },
        LimitCheck { resource: "second", required: 3, available: 2 },
        LimitCheck { resource: "third", required: 9, available: 2 },
    ];
    assert_eq!(
        check_limits(&checks),
        Err(VarDctDecodeError::DeviceLimit { resource: "second", required: 3, available: 2 })
    );
}

#[test]
fn submissions_are_counted_up_front() {
    let counts = SubmissionCounts {
        deferred_hf: false,
        lf_batches: None,
        combined_batches: None,
        coefficient_batches: None,
    };
    assert_eq!(submissions_per_frame(&packet(), counts), 1);
    assert_eq!(staged_lf_submission_count(&packet(), counts), 1);
    let windowed = SubmissionCounts {
        combined_batches: Some(3),
        coefficient_batches: Some(5),
        ..counts
    };
    assert_eq!(submissions_per_frame(&packet(), windowed), 2 + 2 + 5);
    let staged = Packet { requires_lf_staging: true, ..packet() };
    let batches = SubmissionCounts { lf_batches: Some(4), ..counts };
    assert_eq!(submissions_per_frame(&staged, batches), 5);
    let deferred = SubmissionCounts { deferred_hf: true, coefficient_batches: Some(2), ..counts };
    assert_eq!(submissions_per_frame(&packet(), deferred), 1 + 2 + 2);
    let raw = Packet { pending_raw_matrix: true, ..packet() };
    assert_eq!(submissions_per_frame(&raw, deferred), 1);
    let external = Packet { uses_lf_frame: true, ..packet() };
    assert_eq!(submissions_per_frame(&external, deferred), 2);
    assert!(choose_windows(&packet()).combined);
    assert!(!choose_windows(&raw).combined);
    assert_eq!(choose_control(&packet(), true, false), ControlStage::Hf);
    assert_eq!(choose_control(&packet(), false, false), ControlStage::Whole);
    let global = Packet { requires_hf_global_staging: true, ..packet() };
    assert_eq!(choose_control(&global, false, false), ControlStage::Lf);
    assert_eq!(choose_control(&global, false, true), ControlStage::Whole);
}

#[test]
fn group_buffers_follow_the_packet_and_its_decoder() {
    let plans = plan_groups(&packet().groups, &frame(), limits()).unwrap();
    let hf = vec![HfGroupBytes { lz77_scratch: 64, execution_state: 32, status: 16 }; 2];
    let buffers = plan_group_buffers(&packet(), &plans, Some(&hf), None, 64).unwrap();
    assert_eq!(buffers.len(), 2);
    assert_eq!(buffers[0].reconstruction, 192 * 4 + 64 + 32);
    assert_eq!(buffers[0].packet_status, 64);
    assert_eq!(buffers[0].artifact, plans[0].artifact_layout.artifact_bytes);
    let expected = expect_groups(&packet()).unwrap();
    assert_eq!(expected[0].expected_lf_samples, 192);
    assert_eq!(expected[0].expected_blocks, 64);
    assert_eq!(expected[0].correlation_samples, 1);
    assert_eq!(expected[0].expected_global_scale, 1000);
}

#[test]
fn statuses_are_copied_behind_each_other() {
    let plans = plan_groups(&packet().groups, &frame(), limits()).unwrap();
    let hf = vec![HfGroupBytes { lz77_scratch: 0, execution_state: 0, status: 48 }; 2];
    let staging = 2 * (32 + 64 + 48) + 16;
    let copies = plan_status(&plans, 32, 64, Some(&hf), 16, staging).unwrap();
    assert_eq!(copies.len(), 7);
    let mut ends: Vec<(u64, u64)> = copies.iter().map(|copy| (copy.offset, copy.bytes)).collect();
    ends.sort();
    let mut end = 0;
    for (offset, bytes) in ends {
        assert_eq!(offset, end);
        end += bytes;
    }
    assert_eq!(end, staging);
    assert_eq!(copies.iter().filter(|copy| copy.kind == StatusKind::Output).count(), 1);
}

#[test]
fn packets_take_the_route_that_their_stages_ask_for() {
    let none = PacketWindows { windowed: false, fuses_stages: false, hf_batches: 0 };
    let staging = plan_staging(&packet(), none);
    assert_eq!(
        plan_packet_route(&packet(), staging, false),
        PacketRoute::Groups { entry: PacketEntry::Whole, copy_status: false }
    );
    assert_eq!(
        plan_packet_route(&packet(), staging, true),
        PacketRoute::Windowed { staged: false }
    );
    let local = Packet { requires_lf_staging: true, ..packet() };
    let staging = plan_staging(&local, none);
    assert_eq!(
        plan_packet_route(&local, staging, false),
        PacketRoute::Groups { entry: PacketEntry::Lf, copy_status: true }
    );
    let extras = Packet { requires_lf_extra_staging: true, ..packet() };
    assert_eq!(
        plan_packet_route(&extras, plan_staging(&extras, none), false),
        PacketRoute::ClearOnly
    );
    assert_eq!(plan_lf_route(&packet(), false, false, false, 2), Ok(LfRoute::Direct));
    let external = Packet { uses_lf_frame: true, ..packet() };
    assert_eq!(plan_lf_route(&external, true, false, false, 2), Ok(LfRoute::External));
    assert_eq!(
        plan_lf_route(&external, false, false, false, 2),
        Err(VarDctDecodeError::MissingProgressiveDcSource)
    );
}

#[test]
fn presentations_follow_the_request() {
    let request = OutputRequest {
        extra_channel: None,
        mapping: OutputMapping::Color,
        defers_frame_features: false,
        retains_frame_surface: false,
        encoded_surface: false,
        retains_lf_extras: false,
        keeps_orientation: false,
    };
    let image = ImagePresentation {
        orientation: 6,
        has_inverse_opsin: true,
        has_color_encoding: true,
        xyb_encoded: true,
    };
    let extras = vec![
        ExtraChannel { alpha: false, presentable: true },
        ExtraChannel { alpha: true, presentable: true },
    ];
    let plan = prepare_presentation(request, image, &extras, &profile()).unwrap();
    assert_eq!(plan.orientation, 6);
    assert_eq!(plan.quant_bias, QuantBias::Opsin);
    assert!(matches!(
        plan.presentation,
        Presentation::Color { transform: ColorTransform::InverseOpsin, .. }
    ));
    assert_eq!(
        prepare_presentation(
            request,
            ImagePresentation { orientation: 9, ..image },
            &extras,
            &profile()
        ),
        Err(VarDctDecodeError::InvalidOrientation { orientation: 9 })
    );
    let third = OutputRequest { extra_channel: Some(2), ..request };
    assert_eq!(
        prepare_presentation(third, image, &extras, &profile()),
        Err(VarDctDecodeError::ExtraChannelIndex { index: 2, count: 2 })
    );
    assert_eq!(selected_extra_indices(request, &extras, &profile()), [1]);
    let all = OutputRequest { retains_frame_surface: true, ..request };
    assert_eq!(selected_extra_indices(all, &extras, &profile()), [0, 1]);
    let lf = StandardVarDctProfile { lf_level: 1, ..profile() };
    assert!(selected_extra_indices(request, &extras, &lf).is_empty());
}

#[test]
fn restoration_defaults_are_the_documented_numbers() {
    let enabled = |iterations| EdgePreservingFilterInventory::Enabled {
        iterations,
        sharp_lut: None,
        channel_scale: None,
        sigma: None,
    };
    let (gaborish, epf) =
        restoration_config(RestorationFilterInventory::Default { epf: enabled(2) }).unwrap();
    assert_eq!(gaborish, Some(GaborishWeights::Default));
    let epf = epf.unwrap();
    for (index, bits) in epf.sharp_lut.iter().enumerate() {
        assert_eq!(f32::from_bits(*bits), index as f32 / 7.0);
    }
    assert_eq!(epf.channel_scale.map(f32::from_bits), [40.0, 5.0, 3.5]);
    assert_eq!(f32::from_bits(epf.quant_mul), 0.46);
    assert_eq!(f32::from_bits(epf.pass0_sigma_scale), 0.9);
    assert_eq!(f32::from_bits(epf.pass2_sigma_scale), 6.5);
    assert_eq!(f32::from_bits(epf.border_sad_mul), 2.0 / 3.0);
    let passes: Vec<EpfPass> = epf.passes().iter().map(|pass| pass.pass).collect();
    assert_eq!(passes, [EpfPass::Pass1, EpfPass::Pass2]);
    for iterations in [0, 4] {
        assert_eq!(
            restoration_config(RestorationFilterInventory::Custom {
                gaborish: GaborishInventory::Disabled,
                epf: enabled(iterations),
            }),
            Err(RestorationError::InvalidEpfIterations { iterations })
        );
    }
    assert_eq!(
        restoration_config(RestorationFilterInventory::Custom {
            gaborish: GaborishInventory::Disabled,
            epf: EdgePreservingFilterInventory::Disabled,
        }),
        Ok((None, None))
    );
}

#[test]
fn matrix_scales_are_powers_of_four_fifths() {
    let powers: [f32; 8] = [1.5625, 1.25, 1.0, 0.8, 0.64, 0.512, 0.4096, 0.32768];
    for (scale, power) in powers.into_iter().enumerate() {
        let bits = dequant_matrix_multiplier("x", scale as u32).unwrap();
        assert_eq!(f32::from_bits(bits), power);
    }
    assert_eq!(
        dequant_matrix_multiplier("b", 8),
        Err(VarDctDecodeError::InvalidQuantMatrixScale { channel: "b", scale: 8 })
    );
}

#[test]
fn filters_alternate_between_two_sets_of_planes() {
    let mut cursor = RestorationCursor::new();
    assert_eq!(cursor.advance(), (PlaneSet::Image, PlaneSet::Scratch));
    assert_eq!(cursor.current(), PlaneSet::Scratch);
    assert_eq!(cursor.advance(), (PlaneSet::Scratch, PlaneSet::Image));
    assert_eq!(cursor.current(), PlaneSet::Image);
}

#[test]
fn shifted_extents_round_up() {
    let shift = VarDctChannelShift { horizontal: 1, vertical: 2 };
    assert_eq!(shift.shifted_extent(17, 9), Some([9, 3]));
    assert!(shift.is_subsampled());
    assert_eq!(VarDctChannelShift { horizontal: 32, vertical: 0 }.shifted_extent(1, 1), None);
}
