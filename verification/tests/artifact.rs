use jxl_wgpu_decode::vardct_artifact::{
    GpuVarDctArtifactStatus, GpuVarDctBucket, GpuVarDctLoweringError, HfDispatchStage,
    HfMetadataArtifactConfig, HfMetadataLoweringParams, HfOrderTableLayout, TransformKind,
    VarDctArtifactDeviceLimits, VarDctArtifactError, VarDctArtifactLayout,
};

fn config() -> HfMetadataArtifactConfig {
    HfMetadataArtifactConfig {
        blocks_width: 5,
        blocks_height: 3,
        block_info_entries: 20,
        strategy_offset_words: 100,
        hf_mul_offset_words: 120,
        raw_metadata_words: 140,
        pass_group_dim_blocks: 4,
        lf_stride: 5,
        correlation_width: 1,
        correlation_height: 1,
        destination_origin: [8, 16],
        afv_basis_offset: 7,
        matrix_offsets: [9; 27],
    }
}

fn limits() -> VarDctArtifactDeviceLimits {
    VarDctArtifactDeviceLimits::new(1 << 28, 1 << 27, 64)
}

#[test]
fn sections_of_an_artifact_follow_each_other() {
    let layout = VarDctArtifactLayout::plan(&config(), limits()).unwrap();
    assert_eq!(layout.task_capacity, 15);
    assert_eq!(layout.block_count, 15);
    assert_eq!(layout.binding_alignment(), 256);
    assert_eq!(layout.status_offset_words, 0);
    assert_eq!(layout.buckets_offset_words, 64);
    assert_eq!(layout.tasks_offset_words, 192);
    assert_eq!(layout.indirect_offset_words, 448);
    assert_eq!(layout.task_metadata_offset_words, 704);
    assert_eq!(layout.block_task_map_offset_words, 896);
    assert_eq!(layout.artifact_bytes, 3840);
    assert_eq!(layout.occupancy_bytes, 4);
    assert_eq!(layout.coefficient_bytes, 15 * 768);
    assert_eq!(layout.persistent_bytes(), 3840 + 15 * 768);
    assert_eq!(layout.task_binding(), (768, 960));
    assert_eq!(layout.indirect_offset(0, HfDispatchStage::Dequantize), Some(1792));
    assert_eq!(layout.indirect_offset(27, HfDispatchStage::Dequantize), None);
    let stages = [
        HfDispatchStage::Dequantize,
        HfDispatchStage::Horizontal,
        HfDispatchStage::Vertical,
    ];
    for stage in stages {
        for other in stages {
            assert_eq!(
                layout.indirect_offset(3, stage) == layout.indirect_offset(3, other),
                stage == other
            );
        }
    }
}

#[test]
fn artifacts_outside_their_geometry_or_device_are_refused() {
    let refused = |change: fn(&mut HfMetadataArtifactConfig)| {
        let mut config = config();
        change(&mut config);
        VarDctArtifactLayout::plan(&config, limits()).unwrap_err()
    };
    assert_eq!(
        refused(|c| c.blocks_width = 0),
        VarDctArtifactError::ZeroDimension { axis: "horizontal" }
    );
    assert_eq!(
        refused(|c| c.blocks_height = 0),
        VarDctArtifactError::ZeroDimension { axis: "vertical" }
    );
    assert_eq!(refused(|c| c.block_info_entries = 0), VarDctArtifactError::ZeroBlockInfoEntries);
    assert_eq!(
        refused(|c| c.pass_group_dim_blocks = 0),
        VarDctArtifactError::ZeroPassGroupDimension
    );
    assert!(matches!(refused(|c| c.lf_stride = 4), VarDctArtifactError::InvalidGeometry { .. }));
    assert!(matches!(
        refused(|c| c.correlation_height = 0),
        VarDctArtifactError::InvalidGeometry { .. }
    ));
    assert!(matches!(
        refused(|c| c.destination_origin[0] = u32::MAX),
        VarDctArtifactError::ArithmeticOverflow { field: "horizontal destination extent" }
    ));
    assert_eq!(
        refused(|c| c.raw_metadata_words = 139),
        VarDctArtifactError::RawMetadataRange { end: 140, available: 139 }
    );
    assert!(matches!(
        VarDctArtifactLayout::plan(&config(), VarDctArtifactDeviceLimits::new(3839, 1 << 27, 64)),
        Err(VarDctArtifactError::BufferLimit { required: 3840, maximum: 3839, .. })
    ));
    assert!(matches!(
        VarDctArtifactLayout::plan(&config(), VarDctArtifactDeviceLimits::new(1 << 28, 3839, 64)),
        Err(VarDctArtifactError::StorageBindingLimit { required: 3840, maximum: 3839, .. })
    ));
    let odd = VarDctArtifactDeviceLimits { storage_binding_alignment: 384, ..limits() };
    assert_eq!(
        VarDctArtifactLayout::plan(&config(), odd),
        Err(VarDctArtifactError::InvalidBindingAlignment { alignment: 384 })
    );
}

#[test]
fn buckets_name_their_own_dispatches() {
    let layout = VarDctArtifactLayout::plan(&config(), limits()).unwrap();
    let offset = layout.indirect_offset(5, HfDispatchStage::Dequantize).unwrap();
    let bucket = GpuVarDctBucket {
        strategy: 5,
        task_offset: 3,
        task_count: 12,
        indirect_word_offset: (offset / 4) as u32,
    };
    let dispatch = layout.bucket_dispatch(bucket).unwrap();
    assert_eq!(dispatch.transform, TransformKind::Dct32);
    assert_eq!((dispatch.task_offset, dispatch.task_count), (3, 12));
    assert_eq!(dispatch.dequantize_indirect_offset, offset);
    for (bucket, field) in [
        (GpuVarDctBucket { strategy: 27, ..bucket }, "wire strategy"),
        (GpuVarDctBucket { task_count: 13, ..bucket }, "task range"),
        (GpuVarDctBucket { indirect_word_offset: 0, ..bucket }, "indirect offset"),
    ] {
        assert_eq!(
            layout.bucket_dispatch(bucket),
            Err(VarDctArtifactError::InvalidBucket { field })
        );
    }
    for strategy in 0..30 {
        assert_eq!(TransformKind::from_wire(strategy).is_some(), strategy < 27);
    }
}

#[test]
fn lowering_statuses_name_their_failure() {
    let status = |code, value| {
        let mut words = [0; 16];
        words[..4].copy_from_slice(&[code, 3, 4, value]);
        GpuVarDctArtifactStatus::from_words(words).validate()
    };
    assert_eq!(status(0, 9), Ok(()));
    let (x, y) = (3, 4);
    for (code, error) in [
        (1, GpuVarDctLoweringError::InvalidStrategy { x, y, value: 9 }),
        (2, GpuVarDctLoweringError::NonPositiveHfMultiplier { x, y, value: 9 }),
        (3, GpuVarDctLoweringError::BlockInfoExhausted { x, y, consumed: 9 }),
        (4, GpuVarDctLoweringError::TransformOutsideLfGroup { x, y, strategy: 9 }),
        (5, GpuVarDctLoweringError::PassGroupCrossing { x, y, strategy: 9 }),
        (6, GpuVarDctLoweringError::TransformOverlap { x, y, strategy: 9 }),
        (7, GpuVarDctLoweringError::TaskCapacity { required: 9 }),
        (8, GpuVarDctLoweringError::CoefficientCapacity { required_words: 9 }),
        (9, GpuVarDctLoweringError::UnknownStatus { code: 9 }),
    ] {
        assert_eq!(status(code, 9), Err(error));
    }
    assert_eq!(
        status(2, u32::MAX),
        Err(GpuVarDctLoweringError::NonPositiveHfMultiplier { x, y, value: -1 })
    );
}

#[test]
fn lowering_parameters_carry_the_layout() {
    let layout = VarDctArtifactLayout::plan(&config(), limits()).unwrap();
    let params = HfMetadataLoweringParams::new(&config(), layout).unwrap();
    assert_eq!(params.dimensions, [5, 3, 20, 4]);
    assert_eq!(params.capacities, [15, layout.coefficient_capacity_words, 2, 1]);
    assert_eq!(params.image, [5, 8, 16, 7]);
    assert_eq!(params.artifact_offsets, [0, 64, 192, 448]);
}

#[test]
fn order_tables_tile_their_coordinates() {
    let layout = HfOrderTableLayout::new(0xffff).unwrap();
    assert_eq!(layout.used_orders, 0x1fff);
    let mut end = 0;
    for order in 0..13 {
        assert!(layout.custom(order));
        for channel in 0..3 {
            let descriptor = layout.descriptor(order, channel).unwrap();
            assert_eq!(descriptor.offset, end);
            assert_eq!(descriptor.len, descriptor.width * descriptor.height);
            end += descriptor.len;
        }
    }
    assert_eq!(layout.coordinate_words, end);
    assert_eq!(layout.descriptor(13, 0), None);
    assert_eq!(layout.descriptor(0, 3), None);
    let none = HfOrderTableLayout::new(2).unwrap();
    assert!(none.custom(1) && !none.custom(0) && !none.custom(13));
}
