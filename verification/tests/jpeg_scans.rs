use jxl_wgpu_decode::vardct_engine::jpeg::{
    JpegCoefficientError, JpegCoefficientLayout, JpegCoefficientPlane,
};
use jxl_wgpu_decode::vardct_engine::jpeg_output::metadata::{JpegScan, ScanComponent};
use jxl_wgpu_decode::vardct_engine::jpeg_output::scan::{scan_extent, update_progression, Geometry};
use jxl_wgpu_decode::vardct_engine::jpeg_output::{JpegCoefficientLimits, JpegReconstructionError};
use jxl_wgpu_decode::vardct_engine::types::VarDctDecodeError;
use jxl_wgpu_decode::vardct_frontend::{
    SampleBitDepth, StandardVarDctProfile, VarDctChannelShift, VarDctColorTransform,
};

fn scan(start: u8, end: u8, high: u8, low: u8) -> JpegScan {
    JpegScan {
        start,
        end,
        high,
        low,
        components: vec![ScanComponent { component: 0, dc: 0, ac: 0 }],
        last_pass: 0,
        resets: Vec::new(),
        extra_zeros: Vec::new(),
    }
}

#[test]
fn progression_rejects_ac_before_dc_duplicate_and_missing_refinement_predecessors() {
    let mut state = [[0; 64]; 3];
    assert!(update_progression(&scan(1, 63, 0, 0), &mut state).is_err());
    assert!(update_progression(&scan(0, 0, 1, 0), &mut state).is_err());
    update_progression(&scan(0, 0, 0, 2), &mut state).unwrap();
    assert!(update_progression(&scan(0, 0, 0, 2), &mut state).is_err());
    assert!(update_progression(&scan(0, 0, 1, 0), &mut state).is_err());
    update_progression(&scan(0, 0, 2, 1), &mut state).unwrap();
    update_progression(&scan(0, 0, 1, 0), &mut state).unwrap();
    update_progression(&scan(1, 63, 0, 1), &mut state).unwrap();
    update_progression(&scan(1, 63, 1, 0), &mut state).unwrap();
    assert_eq!(state[0], [65535; 64]);
}

#[test]
fn spectral_component_reset_and_zrl_contracts_precede_task_allocation() {
    let plane = JpegCoefficientPlane {
        coefficient_word_offset: 192,
        quantization_word_offset: 64,
        blocks_per_row: 2,
        block_rows: 2,
        real_blocks: [2, 2],
        sampling: [1, 1],
        channel: 1,
    };
    let geometry = Geometry { planes: &[plane], components: 1, mcus: [2, 2] };
    assert_eq!(
        scan_extent(&scan(0, 63, 0, 0), &geometry, false).unwrap(),
        ([2, 2], 4)
    );
    assert!(scan_extent(&scan(0, 63, 0, 0), &geometry, true).is_err());
    for invalid in [
        scan(1, 63, 0, 0),
        scan(0, 1, 0, 0),
        scan(0, 0, 3, 1),
        scan(0, 0, 0, 14),
    ] {
        assert!(scan_extent(&invalid, &geometry, false).is_err());
    }
    let mut duplicate = scan(0, 0, 0, 0);
    duplicate.components.push(duplicate.components[0]);
    assert!(scan_extent(&duplicate, &geometry, true).is_err());
    for resets in [vec![4], vec![1, 1], vec![2, 1]] {
        let mut invalid = scan(0, 0, 0, 0);
        invalid.resets = resets;
        assert!(scan_extent(&invalid, &geometry, true).is_err());
    }
    for extra in [
        vec![(4, 1)],
        vec![(0, 0)],
        vec![(0, 5)],
        vec![(1, 1), (1, 1)],
    ] {
        let mut invalid = scan(1, 63, 0, 0);
        invalid.extra_zeros = extra;
        assert!(scan_extent(&invalid, &geometry, true).is_err());
    }
    let mut refinement = scan(1, 63, 1, 0);
    refinement.extra_zeros.push((0, 1));
    assert!(matches!(
        scan_extent(&refinement, &geometry, true),
        Err(JpegReconstructionError::Unsupported(_))
    ));
}

fn profile() -> StandardVarDctProfile {
    StandardVarDctProfile {
        width: 17,
        height: 9,
        output_width: 17,
        output_height: 9,
        upsampling: 1,
        sample_bit_depth: SampleBitDepth::Integer { bits_per_sample: 8 },
        color_transform: VarDctColorTransform::Rgb,
        channel_shifts: [VarDctChannelShift::default(); 3],
        jpeg_block_alignment: [0, 0],
        group_count: 1,
        lf_level: 0,
        uses_lf_frame: false,
        adaptive_lf_smoothing: false,
    }
}

#[test]
fn jpeg_layout_rejects_floating_point_sample_declarations() {
    let limits = JpegCoefficientLimits::default();
    let mut profile = profile();
    assert!(JpegCoefficientLayout::new(&profile, false, 1, limits.max_coefficient_words).is_ok());
    for (bits_per_sample, exponent_bits_per_sample) in
        [(8, 2), (8, 3), (8, 4), (8, 5), (16, 5), (32, 8)]
    {
        profile.sample_bit_depth = SampleBitDepth::Float { bits_per_sample, exponent_bits_per_sample };
        assert!(matches!(
            JpegCoefficientLayout::new(&profile, false, 1, limits.max_coefficient_words),
            Err(JpegCoefficientError::Unsupported { .. })
        ));
    }
}

#[test]
fn jpeg_layout_places_planes_behind_the_quantizers() {
    let layout = JpegCoefficientLayout::new(&profile(), false, 1, 1 << 20).unwrap();
    let planes = layout.planes();
    assert_eq!(planes.len(), 3);
    for (index, plane) in planes.iter().enumerate() {
        assert_eq!((plane.blocks_per_row, plane.block_rows), (3, 2));
        assert_eq!(plane.coefficient_word_offset, 192 + index as u32 * 384);
        assert_eq!(plane.quantization_word_offset, plane.channel * 64);
    }
    assert_eq!(layout.extent(), [17, 9]);
    assert_eq!(layout.coefficient_words(), 1152);
    assert_eq!(layout.storage_bytes(), (192 + 1152) * 4);
    assert_eq!(layout.memory().uniform_bytes, 192);
    assert_eq!(
        JpegCoefficientLayout::new(&profile(), false, 1, 1151).unwrap_err(),
        JpegCoefficientError::CoefficientLimit { required: 1152, limit: 1151 }
    );
}

#[test]
fn jpeg_status_is_accepted_only_when_complete() {
    let layout = JpegCoefficientLayout::new(&profile(), false, 1, 1 << 20).unwrap();
    let record = |words: [u32; 4]| -> Vec<u8> {
        words.iter().flat_map(|word| word.to_ne_bytes()).collect()
    };
    assert_eq!(layout.validate_status(&record([192, 0, 1152, 0])), Ok(()));
    assert_eq!(
        layout.validate_status(&record([192, 0, 1151, 0])),
        Err(VarDctDecodeError::Jpeg(JpegCoefficientError::GpuStatus {
            expected: [192, 0, 1152, 0],
            actual: [192, 0, 1151, 0],
        }))
    );
    assert_eq!(
        layout.validate_status(&record([192, 0, 1152, 0])[..15]),
        Err(VarDctDecodeError::StatusAbi { status: "JPEG coefficient" })
    );
}
