use jxl_wgpu_decode::progressive_dc::{
    normalized_stride, required_plane_scalars, uniform_bytes, validate_dispatch,
    validate_pack_inputs, validate_storage_binding, validate_uniform_limit, validate_variant,
    validate_xyb_outputs, GpuBuffer, PackLimits, PackVariant, ProgressiveDcGpuError,
    ProgressiveDcPackInputs, ProgressiveDcPackParams, ProgressiveDcXybPlanes, StorageBinding,
};

fn limits() -> PackLimits {
    PackLimits {
        min_storage_buffer_offset_alignment: 256,
        max_storage_buffer_binding_size: 1 << 20,
        max_uniform_buffer_binding_size: 1 << 14,
        max_compute_workgroups_per_dimension: 65535,
    }
}

fn variant() -> PackVariant {
    PackVariant { lanes: 64, is_linear: true, is_supported: true }
}

fn storage(size: u64) -> GpuBuffer {
    GpuBuffer { size, is_storage: true }
}

fn planes(stride: u32) -> ProgressiveDcXybPlanes {
    ProgressiveDcXybPlanes::from_leases([storage(1024); 3], 5, 3, stride).unwrap()
}

fn inputs() -> ProgressiveDcPackInputs {
    ProgressiveDcPackInputs {
        planes: planes(8),
        resources: StorageBinding { buffer: storage(4096), offset: 256, size: 1024 },
        lf_offset: 2,
        lf_stride: 6,
    }
}

#[test]
fn planes_take_a_stride_or_their_width() {
    assert_eq!(planes(0).planes[2].stride, 5);
    assert_eq!(planes(8).planes[1].required_scalars(), Ok(21));
    assert_eq!((planes(8).width(), planes(8).height()), (5, 3));
    assert_eq!(required_plane_scalars(5, 3, 8, "scalars"), Ok(21));
    assert_eq!(
        required_plane_scalars(u32::MAX, u32::MAX, u32::MAX, "scalars"),
        Ok(u64::from(u32::MAX) * u64::from(u32::MAX))
    );
    assert_eq!(
        required_plane_scalars(0, 3, 8, "scalars"),
        Err(ProgressiveDcGpuError::EmptyExtent { role: "plane", axis: "width" })
    );
    assert_eq!(
        normalized_stride(5, 0, 8, "XYB output"),
        Err(ProgressiveDcGpuError::EmptyExtent { role: "XYB output", axis: "height" })
    );
    assert_eq!(
        normalized_stride(5, 3, 4, "XYB output"),
        Err(ProgressiveDcGpuError::InvalidStride { role: "XYB output", stride: 4, width: 5 })
    );
    assert_eq!(planes(8).validate_extent([5, 3]), Ok(()));
    let mut uneven = planes(8);
    uneven.planes[1].height = 4;
    assert_eq!(
        uneven.validate_extent([5, 3]),
        Err(ProgressiveDcGpuError::PlaneExtent {
            plane: 1,
            actual_width: 5,
            actual_height: 4,
            expected_width: 5,
            expected_height: 3,
        })
    );
}

#[test]
fn packing_parameters_fill_twelve_words() {
    let params = validate_pack_inputs(limits(), &inputs(), variant()).unwrap();
    let words = params.words();
    assert_eq!(words, [5, 3, 15, 0, 8, 8, 8, 0, 2, 6, 0, 0]);
    let bytes = uniform_bytes(&words);
    assert_eq!(bytes.len(), 48);
    assert_eq!(std::mem::size_of::<ProgressiveDcPackParams>(), 48);
    assert_eq!(bytes[8..12], 15_u32.to_ne_bytes());
    assert_eq!(bytes[36..40], 6_u32.to_ne_bytes());
}

#[test]
fn parameter_abi_is_pod_and_wgsl_aligned() {
    let words = ProgressiveDcPackParams {
        geometry: [0; 4],
        input_strides: [0; 4],
        destination: [0; 4],
    }
    .words();
    assert_eq!(std::mem::size_of_val(&words), 48);
    assert_eq!(uniform_bytes(&words).len(), 48);
    let marked = ProgressiveDcPackParams {
        geometry: [1, 2, 3, 4],
        input_strides: [5, 6, 7, 8],
        destination: [9, 10, 11, 12],
    };
    let bytes = marked.words();
    for (offset, word) in [(0, 1), (16, 5), (32, 9)] {
        assert_eq!(uniform_bytes(&bytes)[offset..offset + 4], u32::to_ne_bytes(word));
    }
    assert_eq!(uniform_bytes(&bytes).len() % 16, 0);
}

#[test]
fn packing_refuses_what_the_kernel_cannot_take() {
    let refused = |change: fn(&mut ProgressiveDcPackInputs)| {
        let mut inputs = inputs();
        change(&mut inputs);
        validate_pack_inputs(limits(), &inputs, variant()).unwrap_err()
    };
    assert_eq!(
        refused(|inputs| inputs.lf_stride = 4),
        ProgressiveDcGpuError::InvalidLfStride { stride: 4, width: 5 }
    );
    assert_eq!(
        refused(|inputs| inputs.lf_offset = u32::MAX),
        ProgressiveDcGpuError::ResourceAddressSpace
    );
    assert_eq!(
        refused(|inputs| inputs.resources.size = 288),
        ProgressiveDcGpuError::BindingSize {
            role: "VarDCT LF resources",
            required: (2 + 2 * 6 + 5) * 16,
            available: 288,
        }
    );
    assert_eq!(
        refused(|inputs| inputs.resources.offset = 16),
        ProgressiveDcGpuError::BindingAlignment {
            role: "VarDCT LF resources",
            offset: 16,
            alignment: 256,
        }
    );
    assert_eq!(
        refused(|inputs| inputs.planes.planes[0].width = 0),
        ProgressiveDcGpuError::EmptyExtent { role: "LF pack", axis: "pixel" }
    );
    assert_eq!(
        refused(|inputs| {
            inputs.planes.planes[0].width = 1 << 16;
            inputs.planes.planes[0].height = 1 << 16;
        }),
        ProgressiveDcGpuError::ArithmeticOverflow { field: "LF pack pixel count" }
    );
    assert_eq!(
        refused(|inputs| inputs.planes.planes[2].buffer.size = 80),
        ProgressiveDcGpuError::BindingSize { role: "XYB output", required: 84, available: 80 }
    );
    let square = PackVariant { is_linear: false, ..variant() };
    assert_eq!(
        validate_variant(square),
        Err(ProgressiveDcGpuError::WorkgroupShape { lanes: 64 })
    );
    let large = PackVariant { is_supported: false, ..variant() };
    assert_eq!(
        validate_pack_inputs(limits(), &inputs(), large).unwrap_err(),
        ProgressiveDcGpuError::WorkgroupVariant { lanes: 64 }
    );
}

#[test]
fn bindings_stay_inside_their_buffer_and_device() {
    let check = |binding, required, alignment| {
        validate_storage_binding(limits(), "test", binding, required, alignment)
    };
    let binding = StorageBinding { buffer: storage(2048), offset: 512, size: 1024 };
    assert_eq!(check(binding, 1024, 4), Ok(()));
    assert_eq!(
        check(StorageBinding { size: 0, ..binding }, 0, 4),
        Err(ProgressiveDcGpuError::EmptyBuffer { role: "test" })
    );
    let private = GpuBuffer { is_storage: false, ..binding.buffer };
    assert_eq!(
        check(StorageBinding { buffer: private, ..binding }, 4, 4),
        Err(ProgressiveDcGpuError::MissingStorageUsage { role: "test" })
    );
    assert_eq!(
        check(StorageBinding { size: 2048, ..binding }, 4, 4),
        Err(ProgressiveDcGpuError::BindingRange {
            role: "test",
            offset: 512,
            end: 2560,
            available: 2048,
        })
    );
    assert_eq!(
        check(StorageBinding { size: u64::MAX, ..binding }, 4, 4),
        Err(ProgressiveDcGpuError::ArithmeticOverflow { field: "storage binding range" })
    );
    assert_eq!(
        check(StorageBinding { size: 1022, ..binding }, 4, 4),
        Err(ProgressiveDcGpuError::BindingSizeAlignment { role: "test", size: 1022, alignment: 4 })
    );
    let huge = StorageBinding { buffer: storage(1 << 30), offset: 0, size: 1 << 21 };
    assert_eq!(
        check(huge, 4, 4),
        Err(ProgressiveDcGpuError::StorageBindingLimit {
            role: "test",
            required: 1 << 21,
            available: 1 << 20,
        })
    );
    assert_eq!(
        validate_uniform_limit(PackLimits { max_uniform_buffer_binding_size: 47, ..limits() }, 48),
        Err(ProgressiveDcGpuError::UniformBindingLimit { required: 48, available: 47 })
    );
    assert_eq!(validate_dispatch(limits(), 65, variant()), Ok(2));
    assert_eq!(
        validate_dispatch(
            PackLimits { max_compute_workgroups_per_dimension: 1, ..limits() },
            65,
            variant()
        ),
        Err(ProgressiveDcGpuError::WorkgroupCount { required: 2, available: 1 })
    );
    assert_eq!(validate_xyb_outputs(limits(), &planes(8), 5, 3), Ok([8, 8, 8]));
    let mut empty = planes(8);
    empty.planes[0].buffer.size = 0;
    assert_eq!(
        validate_xyb_outputs(limits(), &empty, 5, 3),
        Err(ProgressiveDcGpuError::EmptyBuffer { role: "storage" })
    );
}
