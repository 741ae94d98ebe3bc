//! Owned pre-color-transform LF dependency planes and GPU packing into VarDCT LF resources.
//!
//! Producers reconstruct and retain `[X, Y, B]` planes of single-precision samples; this module
//! places them in the consumer's `[X, Y, B, 0]` resource table without host pixel transfers.

use crate::arith::{ceil_div, div_ceil_u32};
use crate::pod::{native_words, word_bytes};
use vstd::prelude::*;

verus! {

const SAMPLE_BYTES: u64 = 4;

const RESOURCE_VEC4_BYTES: u64 = 16;

/// Bytes of the packing parameters.
pub const PACK_PARAMS_BYTES: u64 = 48;

/// Stable kernel-policy key for the LF-resource packing pass.
pub const PROGRESSIVE_DC_KERNEL_KEY: &'static str = "progressive_dc";

/// Why a progressive-DC dispatch is not recorded.
#[derive(Clone, Copy, Debug, PartialEq, Eq)]
pub enum ProgressiveDcGpuError {
    /// The reservation of the planes could not be divided.
    MemoryPartition,
    EmptyExtent { role: &'static str, axis: &'static str },
    InvalidStride { role: &'static str, stride: u32, width: u32 },
    PlaneExtent {
        plane: usize,
        actual_width: u32,
        actual_height: u32,
        expected_width: u32,
        expected_height: u32,
    },
    EmptyBuffer { role: &'static str },
    MissingStorageUsage { role: &'static str },
    BindingAlignment { role: &'static str, offset: u64, alignment: u64 },
    BindingRange { role: &'static str, offset: u64, end: u64, available: u64 },
    BindingSizeAlignment { role: &'static str, size: u64, alignment: u64 },
    BindingSize { role: &'static str, required: u64, available: u64 },
    StorageBindingLimit { role: &'static str, required: u64, available: u64 },
    UniformBindingLimit { required: u64, available: u64 },
    InvalidLfStride { stride: u32, width: u32 },
    /// The LF resources exceed the 32-bit index space of the kernel.
    ResourceAddressSpace,
    ArithmeticOverflow { field: &'static str },
    /// The kernel needs a linear workgroup.
    WorkgroupShape { lanes: u32 },
    /// The workgroup exceeds the device's limits.
    WorkgroupVariant { lanes: u32 },
    WorkgroupCount { required: u32, available: u32 },
    /// The kernel policy could not name a variant.
    KernelPolicy,
}

/// What a device permits.
#[derive(Clone, Copy, Debug)]
pub struct PackLimits {
    pub min_storage_buffer_offset_alignment: u32,
    pub max_storage_buffer_binding_size: u64,
    pub max_uniform_buffer_binding_size: u64,
    pub max_compute_workgroups_per_dimension: u32,
}

/// A workgroup of the packing kernel.
#[derive(Clone, Copy, Debug)]
pub struct PackVariant {
    pub lanes: u32,
    pub is_linear: bool,
    /// The device can run it.
    pub is_supported: bool,
}

/// A GPU buffer.
#[derive(Clone, Copy, Debug, PartialEq, Eq, Structural)]
pub struct GpuBuffer {
    pub size: u64,
    /// It may be bound as storage.
    pub is_storage: bool,
}

/// A part of a buffer that is bound as storage.
#[derive(Clone, Copy, Debug, PartialEq, Eq, Structural)]
pub struct StorageBinding {
    pub buffer: GpuBuffer,
    pub offset: u64,
    pub size: u64,
}

/// Scalars from the first to the last one of a plane.
pub open spec fn plane_scalars(width: u32, height: u32, stride: u32) -> int {
    (height - 1) * stride + width
}

/// A plane's scalars can be addressed.
proof fn lemma_plane_scalars(width: u32, height: u32, stride: u32)
    requires
        width > 0,
        height > 0,
    ensures
        1 <= plane_scalars(width, height, stride) <= 0xffff_ffff * 0xffff_ffff,
{
    let (h, s) = (height - 1, stride as int);
    assert(0 <= h * s <= 0xffff_fffe * 0xffff_ffff) by (nonlinear_arith)
        requires
            0 <= h <= 0xffff_fffe,
            0 <= s <= 0xffff_ffff,
    ;
}

/// Scalars that a plane needs, or why it has none. Every product of two extents fits.
pub open spec fn scalars_needed(width: u32, height: u32, stride: u32) -> Result<
    u64,
    ProgressiveDcGpuError,
> {
    if width == 0 {
        Err(ProgressiveDcGpuError::EmptyExtent { role: "plane", axis: "width" })
    } else if height == 0 {
        Err(ProgressiveDcGpuError::EmptyExtent { role: "plane", axis: "height" })
    } else {
        Ok(plane_scalars(width, height, stride) as u64)
    }
}

/// Scalars that a plane needs.
pub fn required_plane_scalars(width: u32, height: u32, stride: u32, field: &'static str) -> (r: Result<
    u64,
    ProgressiveDcGpuError,
>)
    ensures
        r == scalars_needed(width, height, stride),
        r matches Ok(scalars) ==> scalars == plane_scalars(width, height, stride),
{
    if width == 0 {
        return Err(ProgressiveDcGpuError::EmptyExtent { role: "plane", axis: "width" });
    }
    if height == 0 {
        return Err(ProgressiveDcGpuError::EmptyExtent { role: "plane", axis: "height" });
    }
    proof {
        lemma_plane_scalars(width, height, stride);
    }
    let rows: Option<u64> = ((height - 1) as u64).checked_mul(stride as u64);
    let scalars: Option<u64> = match rows {
        Some(rows) => rows.checked_add(width as u64),
        None => None,
    };
    match scalars {
        Some(scalars) => Ok(scalars),
        None => Err(ProgressiveDcGpuError::ArithmeticOverflow { field }),
    }
}

/// The stride of a plane, where zero stands for its width.
pub open spec fn stride_or_width(width: u32, stride: u32) -> u32 {
    if stride == 0 {
        width
    } else {
        stride
    }
}

/// Why a plane of this geometry is refused.
pub open spec fn stride_refusal(width: u32, height: u32, stride: u32, role: &'static str) -> Option<
    ProgressiveDcGpuError,
> {
    if width == 0 {
        Some(ProgressiveDcGpuError::EmptyExtent { role, axis: "width" })
    } else if height == 0 {
        Some(ProgressiveDcGpuError::EmptyExtent { role, axis: "height" })
    } else if stride_or_width(width, stride) < width {
        Some(ProgressiveDcGpuError::InvalidStride { role, stride, width })
    } else {
        None
    }
}

/// The stride of a plane, at least its width.
pub fn normalized_stride(width: u32, height: u32, stride: u32, role: &'static str) -> (r: Result<
    u32,
    ProgressiveDcGpuError,
>)
    ensures
        match stride_refusal(width, height, stride, role) {
            Some(error) => r == Err::<u32, ProgressiveDcGpuError>(error),
            None => r == Ok::<u32, ProgressiveDcGpuError>(stride_or_width(width, stride)),
        },
{
    if width == 0 {
        return Err(ProgressiveDcGpuError::EmptyExtent { role, axis: "width" });
    }
    if height == 0 {
        return Err(ProgressiveDcGpuError::EmptyExtent { role, axis: "height" });
    }
    let stride: u32 = if stride == 0 {
        width
    } else {
        stride
    };
    if stride < width {
        return Err(ProgressiveDcGpuError::InvalidStride { role, stride, width });
    }
    match required_plane_scalars(width, height, stride, "plane scalar range") {
        Ok(_) => Ok(stride),
        Err(error) => Err(error),
    }
}

/// One owned GPU-resident XYB plane.
#[derive(Clone, Copy, Debug, PartialEq, Eq, Structural)]
pub struct ProgressiveDcXybPlane {
    pub buffer: GpuBuffer,
    pub width: u32,
    pub height: u32,
    pub stride: u32,
}

impl ProgressiveDcXybPlane {
    /// Returns the exclusive scalar count needed by this plane.
    pub fn required_scalars(&self) -> (r: Result<u64, ProgressiveDcGpuError>)
        ensures
            r == scalars_needed(self.width, self.height, self.stride),
            r matches Ok(scalars) ==> scalars == plane_scalars(
                self.width,
                self.height,
                self.stride,
            ),
    {
        required_plane_scalars(self.width, self.height, self.stride, "XYB plane scalars")
    }
}

/// Three owned GPU-resident planar buffers in `[X, Y, B]` order.
#[derive(Clone, Copy, Debug)]
pub struct ProgressiveDcXybPlanes {
    pub planes: [ProgressiveDcXybPlane; 3],
}

/// The first of the planes from `plane` on that has another extent.
pub open spec fn extent_refusal(
    planes: Seq<ProgressiveDcXybPlane>,
    plane: int,
    width: u32,
    height: u32,
) -> Option<ProgressiveDcGpuError>
    decreases planes.len() - plane,
{
    if plane < 0 || plane >= planes.len() {
        None
    } else if planes[plane].width != width || planes[plane].height != height {
        Some(
            ProgressiveDcGpuError::PlaneExtent {
                plane: plane as usize,
                actual_width: planes[plane].width,
                actual_height: planes[plane].height,
                expected_width: width,
                expected_height: height,
            },
        )
    } else {
        extent_refusal(planes, plane + 1, width, height)
    }
}

/// Planes of one extent are accepted at that extent.
proof fn lemma_same_extent(
    planes: Seq<ProgressiveDcXybPlane>,
    plane: int,
    width: u32,
    height: u32,
)
    requires
        0 <= plane <= planes.len(),
        forall|i: int|
            0 <= i < planes.len() ==> (#[trigger] planes[i]).width == width && planes[i].height
                == height,
    ensures
        extent_refusal(planes, plane, width, height) is None,
    decreases planes.len() - plane,
{
    if plane < planes.len() {
        lemma_same_extent(planes, plane + 1, width, height);
    }
}

impl ProgressiveDcXybPlanes {
    /// Refuses planes of another extent.
    pub fn validate_extent(&self, expected: [u32; 2]) -> (r: Result<(), ProgressiveDcGpuError>)
        ensures
            match extent_refusal(self.planes@, 0, expected@[0], expected@[1]) {
                Some(error) => r == Err::<(), ProgressiveDcGpuError>(error),
                None => r is Ok,
            },
    {
        let expected_width: u32 = expected[0];
        let expected_height: u32 = expected[1];
        let mut plane: usize = 0;
        while plane < 3
            invariant
                plane <= 3,
                expected_width == expected@[0],
                expected_height == expected@[1],
                extent_refusal(self.planes@, 0, expected_width, expected_height) == extent_refusal(
                    self.planes@,
                    plane as int,
                    expected_width,
                    expected_height,
                ),
            decreases 3 - plane,
        {
            let actual = self.planes[plane];
            if actual.width != expected_width || actual.height != expected_height {
                return Err(
                    ProgressiveDcGpuError::PlaneExtent {
                        plane,
                        actual_width: actual.width,
                        actual_height: actual.height,
                        expected_width,
                        expected_height,
                    },
                );
            }
            plane = plane + 1;
        }
        Ok(())
    }

    /// Three storage buffers as planes of one geometry. Usage, range and device limits are
    /// checked when the planes are packed.
    pub fn from_leases(buffers: [GpuBuffer; 3], width: u32, height: u32, stride: u32) -> (r: Result<
        Self,
        ProgressiveDcGpuError,
    >)
        ensures
            match stride_refusal(width, height, stride, "XYB output") {
                Some(error) => r == Err::<Self, ProgressiveDcGpuError>(error),
                None => r matches Ok(planes) && forall|i: int|
                    0 <= i < 3 ==> #[trigger] planes.planes@[i] == (ProgressiveDcXybPlane {
                        buffer: buffers@[i],
                        width,
                        height,
                        stride: stride_or_width(width, stride),
                    }),
            },
    {
        let stride: u32 = match normalized_stride(width, height, stride, "XYB output") {
            Ok(stride) => stride,
            Err(error) => {
                return Err(error);
            },
        };
        Ok(
            ProgressiveDcXybPlanes {
                planes: [
                    ProgressiveDcXybPlane { buffer: buffers[0], width, height, stride },
                    ProgressiveDcXybPlane { buffer: buffers[1], width, height, stride },
                    ProgressiveDcXybPlane { buffer: buffers[2], width, height, stride },
                ],
            },
        )
    }

    /// Returns the common plane width.
    pub fn width(&self) -> (width: u32)
        ensures
            width == self.planes@[0].width,
    {
        self.planes[0].width
    }

    /// Returns the common plane height.
    pub fn height(&self) -> (height: u32)
        ensures
            height == self.planes@[0].height,
    {
        self.planes[0].height
    }
}

/// Planes that were made together have one extent.
pub proof fn law_planes_share_extent(
    buffers: [GpuBuffer; 3],
    width: u32,
    height: u32,
    stride: u32,
    planes: ProgressiveDcXybPlanes,
)
    requires
        stride_refusal(width, height, stride, "XYB output") is None,
        forall|i: int|
            0 <= i < 3 ==> #[trigger] planes.planes@[i] == (ProgressiveDcXybPlane {
                buffer: buffers@[i],
                width,
                height,
                stride: stride_or_width(width, stride),
            }),
    ensures
        extent_refusal(planes.planes@, 0, width, height) is None,
{
    lemma_same_extent(planes.planes@, 0, width, height);
}

/// Inputs to the LF resource packing pass.
#[derive(Clone, Copy, Debug)]
pub struct ProgressiveDcPackInputs {
    /// Resident `[X, Y, B]` dependency planes to pack.
    pub planes: ProgressiveDcXybPlanes,
    /// Existing VarDCT resource table of four-component vectors.
    pub resources: StorageBinding,
    /// First destination vector, relative to `resources`.
    pub lf_offset: u32,
    /// Destination row stride in vectors.
    pub lf_stride: u32,
}

/// Parameters of the packing kernel.
#[derive(Clone, Copy, Debug)]
pub struct ProgressiveDcPackParams {
    /// Width, height, pixel count, and a reserved zero word.
    pub geometry: [u32; 4],
    /// Input row strides for X, Y, and B, plus a reserved zero word.
    pub input_strides: [u32; 4],
    /// First LF vector, LF row stride, and two reserved zero words.
    pub destination: [u32; 4],
}

impl ProgressiveDcPackParams {
    /// The words of the uniform, in order.
    pub open spec fn spec_words(&self) -> Seq<u32> {
        self.geometry@ + self.input_strides@ + self.destination@
    }

    /// The words of the uniform, in order.
    pub fn words(&self) -> (words: [u32; 12])
        ensures
            words@ == self.spec_words(),
    {
        let words: [u32; 12] = [
            self.geometry[0],
            self.geometry[1],
            self.geometry[2],
            self.geometry[3],
            self.input_strides[0],
            self.input_strides[1],
            self.input_strides[2],
            self.input_strides[3],
            self.destination[0],
            self.destination[1],
            self.destination[2],
            self.destination[3],
        ];
        assert(words@ =~= self.spec_words());
        words
    }
}

/// The bytes of a uniform, in the host's byte order.
pub fn uniform_bytes(words: &[u32]) -> (bytes: &[u8])
    ensures
        native_words(words@, bytes@),
{
    word_bytes(words)
}

/// Why a workgroup cannot pack.
pub open spec fn variant_refusal(variant: PackVariant) -> Option<ProgressiveDcGpuError> {
    if !variant.is_linear {
        Some(ProgressiveDcGpuError::WorkgroupShape { lanes: variant.lanes })
    } else if !variant.is_supported {
        Some(ProgressiveDcGpuError::WorkgroupVariant { lanes: variant.lanes })
    } else {
        None
    }
}

/// Refuses a workgroup that cannot pack.
pub fn validate_variant(variant: PackVariant) -> (r: Result<(), ProgressiveDcGpuError>)
    ensures
        match variant_refusal(variant) {
            Some(error) => r == Err::<(), ProgressiveDcGpuError>(error),
            None => r is Ok,
        },
{
    if !variant.is_linear {
        return Err(ProgressiveDcGpuError::WorkgroupShape { lanes: variant.lanes });
    }
    if !variant.is_supported {
        return Err(ProgressiveDcGpuError::WorkgroupVariant { lanes: variant.lanes });
    }
    Ok(())
}

/// Alignment of storage offsets.
pub open spec fn offset_alignment(limits: PackLimits) -> u64 {
    if limits.min_storage_buffer_offset_alignment > 4 {
        limits.min_storage_buffer_offset_alignment as u64
    } else {
        4
    }
}

/// Why a storage binding is refused.
pub open spec fn binding_refusal(
    limits: PackLimits,
    role: &'static str,
    binding: StorageBinding,
    required: u64,
    element_alignment: u64,
) -> Option<ProgressiveDcGpuError> {
    let end = binding.offset + binding.size;
    if binding.size == 0 {
        Some(ProgressiveDcGpuError::EmptyBuffer { role })
    } else if !binding.buffer.is_storage {
        Some(ProgressiveDcGpuError::MissingStorageUsage { role })
    } else if binding.offset % offset_alignment(limits) != 0 {
        Some(
            ProgressiveDcGpuError::BindingAlignment {
                role,
                offset: binding.offset,
                alignment: offset_alignment(limits),
            },
        )
    } else if end > u64::MAX {
        Some(ProgressiveDcGpuError::ArithmeticOverflow { field: "storage binding range" })
    } else if end > binding.buffer.size {
        Some(
            ProgressiveDcGpuError::BindingRange {
                role,
                offset: binding.offset,
                end: end as u64,
                available: binding.buffer.size,
            },
        )
    } else if binding.size % element_alignment != 0 {
        Some(
            ProgressiveDcGpuError::BindingSizeAlignment {
                role,
                size: binding.size,
                alignment: element_alignment,
            },
        )
    } else if binding.size < required {
        Some(
            ProgressiveDcGpuError::BindingSize { role, required, available: binding.size },
        )
    } else if binding.size > limits.max_storage_buffer_binding_size {
        Some(
            ProgressiveDcGpuError::StorageBindingLimit {
                role,
                required: binding.size,
                available: limits.max_storage_buffer_binding_size,
            },
        )
    } else {
        None
    }
}

/// Refuses a binding that is misplaced, too short or beyond the device.
pub fn validate_storage_binding(
    limits: PackLimits,
    role: &'static str,
    binding: StorageBinding,
    required: u64,
    element_alignment: u64,
) -> (r: Result<(), ProgressiveDcGpuError>)
    requires
        element_alignment > 0,
    ensures
        match binding_refusal(limits, role, binding, required, element_alignment) {
            Some(error) => r == Err::<(), ProgressiveDcGpuError>(error),
            None => r is Ok,
        },
{
    if binding.size == 0 {
        return Err(ProgressiveDcGpuError::EmptyBuffer { role });
    }
    if !binding.buffer.is_storage {
        return Err(ProgressiveDcGpuError::MissingStorageUsage { role });
    }
    let alignment: u64 = if limits.min_storage_buffer_offset_alignment > 4 {
        limits.min_storage_buffer_offset_alignment as u64
    } else {
        4
    };
    if binding.offset % alignment != 0 {
        return Err(
            ProgressiveDcGpuError::BindingAlignment { role, offset: binding.offset, alignment },
        );
    }
    let end: u64 = match binding.offset.checked_add(binding.size) {
        Some(end) => end,
        None => {
            return Err(
                ProgressiveDcGpuError::ArithmeticOverflow { field: "storage binding range" },
            );
        },
    };
    if end > binding.buffer.size {
        return Err(
            ProgressiveDcGpuError::BindingRange {
                role,
                offset: binding.offset,
                end,
                available: binding.buffer.size,
            },
        );
    }
    if binding.size % element_alignment != 0 {
        return Err(
            ProgressiveDcGpuError::BindingSizeAlignment {
                role,
                size: binding.size,
                alignment: element_alignment,
            },
        );
    }
    if binding.size < required {
        return Err(
            ProgressiveDcGpuError::BindingSize { role, required, available: binding.size },
        );
    }
    if binding.size > limits.max_storage_buffer_binding_size {
        return Err(
            ProgressiveDcGpuError::StorageBindingLimit {
                role,
                required: binding.size,
                available: limits.max_storage_buffer_binding_size,
            },
        );
    }
    Ok(())
}

/// Why a whole buffer cannot be bound as one plane.
pub open spec fn plane_refusal(
    limits: PackLimits,
    plane: usize,
    output: ProgressiveDcXybPlane,
    width: u32,
    height: u32,
) -> Option<ProgressiveDcGpuError> {
    if output.width == 0 {
        Some(ProgressiveDcGpuError::EmptyExtent { role: "XYB output", axis: "width" })
    } else if output.height == 0 {
        Some(ProgressiveDcGpuError::EmptyExtent { role: "XYB output", axis: "height" })
    } else if output.width != width || output.height != height {
        Some(
            ProgressiveDcGpuError::PlaneExtent {
                plane,
                actual_width: output.width,
                actual_height: output.height,
                expected_width: width,
                expected_height: height,
            },
        )
    } else if output.stride < width {
        Some(
            ProgressiveDcGpuError::InvalidStride {
                role: "XYB output",
                stride: output.stride,
                width,
            },
        )
    } else if plane_scalars(output.width, output.height, output.stride) * 4 > u64::MAX {
        Some(ProgressiveDcGpuError::ArithmeticOverflow { field: "XYB output bytes" })
    } else if output.buffer.size == 0 {
        Some(ProgressiveDcGpuError::EmptyBuffer { role: "storage" })
    } else {
        binding_refusal(
            limits,
            "XYB output",
            StorageBinding { buffer: output.buffer, offset: 0, size: output.buffer.size },
            (plane_scalars(output.width, output.height, output.stride) * 4) as u64,
            4,
        )
    }
}

/// The first refusal of the planes from `plane` on.
pub open spec fn outputs_refusal(
    limits: PackLimits,
    planes: Seq<ProgressiveDcXybPlane>,
    plane: int,
    width: u32,
    height: u32,
) -> Option<ProgressiveDcGpuError>
    decreases planes.len() - plane,
{
    if plane < 0 || plane >= planes.len() {
        None
    } else {
        match plane_refusal(limits, plane as usize, planes[plane], width, height) {
            Some(error) => Some(error),
            None => outputs_refusal(limits, planes, plane + 1, width, height),
        }
    }
}

/// Holds one plane against its geometry and the device.
fn validate_plane(
    limits: PackLimits,
    plane: usize,
    output: ProgressiveDcXybPlane,
    width: u32,
    height: u32,
) -> (r: Result<(), ProgressiveDcGpuError>)
    ensures
        match plane_refusal(limits, plane, output, width, height) {
            Some(error) => r == Err::<(), ProgressiveDcGpuError>(error),
            None => r is Ok,
        },
{
    if output.width == 0 {
        return Err(ProgressiveDcGpuError::EmptyExtent { role: "XYB output", axis: "width" });
    }
    if output.height == 0 {
        return Err(ProgressiveDcGpuError::EmptyExtent { role: "XYB output", axis: "height" });
    }
    if output.width != width || output.height != height {
        return Err(
            ProgressiveDcGpuError::PlaneExtent {
                plane,
                actual_width: output.width,
                actual_height: output.height,
                expected_width: width,
                expected_height: height,
            },
        );
    }
    if output.stride < width {
        return Err(
            ProgressiveDcGpuError::InvalidStride {
                role: "XYB output",
                stride: output.stride,
                width,
            },
        );
    }
    let scalars: u64 = match output.required_scalars() {
        Ok(scalars) => scalars,
        Err(error) => {
            return Err(error);
        },
    };
    let required: u64 = match scalars.checked_mul(SAMPLE_BYTES) {
        Some(required) => required,
        None => {
            return Err(ProgressiveDcGpuError::ArithmeticOverflow { field: "XYB output bytes" });
        },
    };
    if output.buffer.size == 0 {
        return Err(ProgressiveDcGpuError::EmptyBuffer { role: "storage" });
    }
    validate_storage_binding(
        limits,
        "XYB output",
        StorageBinding { buffer: output.buffer, offset: 0, size: output.buffer.size },
        required,
        SAMPLE_BYTES,
    )
}

/// Holds the planes against their geometry and the device, and gives their strides.
pub fn validate_xyb_outputs(
    limits: PackLimits,
    outputs: &ProgressiveDcXybPlanes,
    width: u32,
    height: u32,
) -> (r: Result<[u32; 3], ProgressiveDcGpuError>)
    ensures
        match outputs_refusal(limits, outputs.planes@, 0, width, height) {
            Some(error) => r == Err::<[u32; 3], ProgressiveDcGpuError>(error),
            None => r matches Ok(strides) && forall|i: int|
                0 <= i < 3 ==> #[trigger] strides@[i] == outputs.planes@[i].stride,
        },
{
    let mut plane: usize = 0;
    while plane < 3
        invariant
            plane <= 3,
            outputs_refusal(limits, outputs.planes@, 0, width, height) == outputs_refusal(
                limits,
                outputs.planes@,
                plane as int,
                width,
                height,
            ),
        decreases 3 - plane,
    {
        match validate_plane(limits, plane, outputs.planes[plane], width, height) {
            Ok(_) => {},
            Err(error) => {
                return Err(error);
            },
        }
        plane = plane + 1;
    }
    Ok([outputs.planes[0].stride, outputs.planes[1].stride, outputs.planes[2].stride])
}

/// Refuses a uniform of `required` bytes that the device cannot bind.
pub fn validate_uniform_limit(limits: PackLimits, required: u64) -> (r: Result<
    (),
    ProgressiveDcGpuError,
>)
    ensures
        r == if required > limits.max_uniform_buffer_binding_size {
            Err::<(), ProgressiveDcGpuError>(
                ProgressiveDcGpuError::UniformBindingLimit {
                    required,
                    available: limits.max_uniform_buffer_binding_size,
                },
            )
        } else {
            Ok::<(), ProgressiveDcGpuError>(())
        },
{
    let available: u64 = limits.max_uniform_buffer_binding_size;
    if required > available {
        return Err(ProgressiveDcGpuError::UniformBindingLimit { required, available });
    }
    Ok(())
}

/// Workgroups that cover the pixels, where the device permits them.
pub fn validate_dispatch(limits: PackLimits, pixel_count: u32, variant: PackVariant) -> (r: Result<
    u32,
    ProgressiveDcGpuError,
>)
    requires
        variant.lanes > 0,
    ensures
        ({
            let workgroups = ceil_div(pixel_count as int, variant.lanes as int);
            if workgroups > limits.max_compute_workgroups_per_dimension {
                r == Err::<u32, ProgressiveDcGpuError>(
                    ProgressiveDcGpuError::WorkgroupCount {
                        required: workgroups as u32,
                        available: limits.max_compute_workgroups_per_dimension,
                    },
                )
            } else {
                r matches Ok(n) && n == workgroups
            }
        }),
{
    let workgroups: u32 = div_ceil_u32(pixel_count, variant.lanes);
    let available: u32 = limits.max_compute_workgroups_per_dimension;
    if workgroups > available {
        return Err(ProgressiveDcGpuError::WorkgroupCount { required: workgroups, available });
    }
    Ok(workgroups)
}

/// Vectors of the resource table up to the last one that is written.
pub open spec fn resource_vectors(inputs: ProgressiveDcPackInputs, width: u32, height: u32) -> int {
    inputs.lf_offset + (height - 1) * inputs.lf_stride + width
}

/// Why the planes are not packed.
pub open spec fn pack_refusal(limits: PackLimits, inputs: ProgressiveDcPackInputs, variant: PackVariant) -> Option<
    ProgressiveDcGpuError,
> {
    let width = inputs.planes.planes@[0].width;
    let height = inputs.planes.planes@[0].height;
    let vectors = resource_vectors(inputs, width, height);
    let workgroups = ceil_div(width * height, variant.lanes as int);
    if variant_refusal(variant) is Some {
        variant_refusal(variant)
    } else if width * height > u32::MAX {
        Some(ProgressiveDcGpuError::ArithmeticOverflow { field: "LF pack pixel count" })
    } else if width * height == 0 {
        Some(ProgressiveDcGpuError::EmptyExtent { role: "LF pack", axis: "pixel" })
    } else if outputs_refusal(limits, inputs.planes.planes@, 0, width, height) is Some {
        outputs_refusal(limits, inputs.planes.planes@, 0, width, height)
    } else if inputs.lf_stride < width {
        Some(ProgressiveDcGpuError::InvalidLfStride { stride: inputs.lf_stride, width })
    } else if vectors > u32::MAX {
        Some(ProgressiveDcGpuError::ResourceAddressSpace)
    } else if binding_refusal(
        limits,
        "VarDCT LF resources",
        inputs.resources,
        (vectors * 16) as u64,
        16,
    ) is Some {
        binding_refusal(limits, "VarDCT LF resources", inputs.resources, (vectors * 16) as u64, 16)
    } else if 48 > limits.max_uniform_buffer_binding_size {
        Some(
            ProgressiveDcGpuError::UniformBindingLimit {
                required: 48,
                available: limits.max_uniform_buffer_binding_size,
            },
        )
    } else if workgroups > limits.max_compute_workgroups_per_dimension {
        Some(
            ProgressiveDcGpuError::WorkgroupCount {
                required: workgroups as u32,
                available: limits.max_compute_workgroups_per_dimension,
            },
        )
    } else {
        None
    }
}

/// The parameters of the packing kernel.
pub open spec fn pack_words(inputs: ProgressiveDcPackInputs) -> Seq<u32> {
    let planes = inputs.planes.planes@;
    seq![
        planes[0].width,
        planes[0].height,
        (planes[0].width * planes[0].height) as u32,
        0u32,
        planes[0].stride,
        planes[1].stride,
        planes[2].stride,
        0u32,
        inputs.lf_offset,
        inputs.lf_stride,
        0u32,
        0u32,
    ]
}

/// Refuses inputs that the packing kernel cannot take, and gives its parameters.
pub fn validate_pack_inputs(
    limits: PackLimits,
    inputs: &ProgressiveDcPackInputs,
    variant: PackVariant,
) -> (r: Result<ProgressiveDcPackParams, ProgressiveDcGpuError>)
    requires
        variant.lanes > 0,
    ensures
        match pack_refusal(limits, *inputs, variant) {
            Some(error) => r == Err::<ProgressiveDcPackParams, ProgressiveDcGpuError>(error),
            None => r matches Ok(params) && params.spec_words() == pack_words(*inputs),
        },
{
    match validate_variant(variant) {
        Ok(_) => {},
        Err(error) => {
            return Err(error);
        },
    }
    let width: u32 = inputs.planes.width();
    let height: u32 = inputs.planes.height();
    let pixel_count: u32 = match width.checked_mul(height) {
        Some(count) => count,
        None => {
            return Err(ProgressiveDcGpuError::ArithmeticOverflow { field: "LF pack pixel count" });
        },
    };
    if pixel_count == 0 {
        return Err(ProgressiveDcGpuError::EmptyExtent { role: "LF pack", axis: "pixel" });
    }
    assert(width > 0 && height > 0) by (nonlinear_arith)
        requires
            width as int * height as int != 0,
            width >= 0,
            height >= 0,
    ;
    let strides = match validate_xyb_outputs(limits, &inputs.planes, width, height) {
        Ok(strides) => strides,
        Err(error) => {
            return Err(error);
        },
    };
    if inputs.lf_stride < width {
        return Err(
            ProgressiveDcGpuError::InvalidLfStride { stride: inputs.lf_stride, width },
        );
    }
    proof {
        lemma_plane_scalars(width, height, inputs.lf_stride);
    }
    let rows: u64 = (height - 1) as u64 * inputs.lf_stride as u64;
    let vectors: u64 = inputs.lf_offset as u64 + rows + width as u64;
    if vectors > u32::MAX as u64 {
        return Err(ProgressiveDcGpuError::ResourceAddressSpace);
    }
    match validate_storage_binding(
        limits,
        "VarDCT LF resources",
        inputs.resources,
        vectors * RESOURCE_VEC4_BYTES,
        RESOURCE_VEC4_BYTES,
    ) {
        Ok(_) => {},
        Err(error) => {
            return Err(error);
        },
    }
    match validate_uniform_limit(limits, PACK_PARAMS_BYTES) {
        Ok(_) => {},
        Err(error) => {
            return Err(error);
        },
    }
    match validate_dispatch(limits, pixel_count, variant) {
        Ok(_) => {},
        Err(error) => {
            return Err(error);
        },
    }
    let params = ProgressiveDcPackParams {
        geometry: [width, height, pixel_count, 0],
        input_strides: [strides[0], strides[1], strides[2], 0],
        destination: [inputs.lf_offset, inputs.lf_stride, 0, 0],
    };
    assert(params.spec_words() =~= pack_words(*inputs));
    Ok(params)
}

/// Every vector that the packing kernel writes lies inside the resource binding, and no two pixels
/// share one.
pub proof fn law_packed_inside_resources(
    limits: PackLimits,
    inputs: ProgressiveDcPackInputs,
    variant: PackVariant,
    x: int,
    y: int,
    other_x: int,
    other_y: int,
)
    requires
        pack_refusal(limits, inputs, variant) is None,
        0 <= x < inputs.planes.planes@[0].width,
        0 <= y < inputs.planes.planes@[0].height,
        0 <= other_x < inputs.planes.planes@[0].width,
        0 <= other_y < inputs.planes.planes@[0].height,
    ensures
        inputs.lf_offset + y * inputs.lf_stride + x < u32::MAX,
        (inputs.lf_offset + y * inputs.lf_stride + x + 1) * 16 <= inputs.resources.size,
        y * inputs.lf_stride + x == other_y * inputs.lf_stride + other_x ==> x == other_x && y
            == other_y,
{
    let s = inputs.lf_stride as int;
    let h = inputs.planes.planes@[0].height as int;
    assert(y * s <= (h - 1) * s) by (nonlinear_arith)
        requires
            0 <= y <= h - 1,
            0 <= s,
    ;
    if y * s + x == other_y * s + other_x {
        assert(y == other_y) by (nonlinear_arith)
            requires
                y * s + x == other_y * s + other_x,
                0 <= x < s,
                0 <= other_x < s,
        ;
    }
}

/// Every sample of a validated plane lies inside its buffer.
pub proof fn law_samples_inside_plane(
    limits: PackLimits,
    plane: usize,
    output: ProgressiveDcXybPlane,
    x: int,
    y: int,
)
    requires
        plane_refusal(limits, plane, output, output.width, output.height) is None,
        0 <= x < output.width,
        0 <= y < output.height,
    ensures
        (y * output.stride + x + 1) * 4 <= output.buffer.size,
{
    let s = output.stride as int;
    let h = output.height as int;
    assert(y * s <= (h - 1) * s) by (nonlinear_arith)
        requires
            0 <= y <= h - 1,
            0 <= s,
    ;
}

/// A plane of `scalars` scalars holds its last sample as its last scalar, and with it every other
/// one.
pub proof fn law_scalars_reach_last_sample(
    width: u32,
    height: u32,
    stride: u32,
    field: &'static str,
    scalars: u64,
    x: int,
    y: int,
)
    requires
        call_ensures(
            required_plane_scalars,
            (width, height, stride, field),
            Ok::<u64, ProgressiveDcGpuError>(scalars),
        ),
        stride >= width,
        0 <= x < width,
        0 <= y < height,
    ensures
        y * stride + x < scalars,
        y == height - 1 && x == width - 1 ==> y * stride + x == scalars - 1,
{
    lemma_plane_scalars(width, height, stride);
    let (s, h) = (stride as int, height as int);
    assert(y * s <= (h - 1) * s) by (nonlinear_arith)
        requires
            0 <= y <= h - 1,
            0 <= s,
    ;
}

/// A part of a buffer that starts where the device permits it, ends in the buffer, holds whole
/// elements and as many bytes as are needed.
pub open spec fn bindable(
    limits: PackLimits,
    binding: StorageBinding,
    required: int,
    element: int,
) -> bool {
    &&& binding.buffer.is_storage
    &&& 0 < binding.size <= limits.max_storage_buffer_binding_size
    &&& limits.min_storage_buffer_offset_alignment > 4 ==> binding.offset as int
        % limits.min_storage_buffer_offset_alignment as int == 0
    &&& limits.min_storage_buffer_offset_alignment <= 4 ==> binding.offset % 4 == 0
    &&& binding.offset + binding.size <= binding.buffer.size
    &&& binding.size as int % element == 0
    &&& required <= binding.size
}

/// A storage binding is accepted exactly where it is bindable.
pub proof fn law_bindings(
    limits: PackLimits,
    role: &'static str,
    binding: StorageBinding,
    required: u64,
    element: u64,
    r: Result<(), ProgressiveDcGpuError>,
)
    requires
        element > 0,
        call_ensures(validate_storage_binding, (limits, role, binding, required, element), r),
    ensures
        r is Ok <==> bindable(limits, binding, required as int, element as int),
{
}

/// Planes are packed exactly where the workgroup can run, the planes have one extent, each buffer
/// holds every sample of its plane in four bytes, the resources hold sixteen bytes for every pixel
/// at its own place, the uniform can be bound and the workgroups reach every pixel. The parameters
/// give the extent, the pixels, the strides and the place.
pub proof fn law_packing(
    limits: PackLimits,
    inputs: &ProgressiveDcPackInputs,
    variant: PackVariant,
    r: Result<ProgressiveDcPackParams, ProgressiveDcGpuError>,
)
    requires
        variant.lanes > 0,
        call_ensures(validate_pack_inputs, (limits, inputs, variant), r),
    ensures
        ({
            let planes = inputs.planes.planes@;
            let (w, h) = (planes[0].width as int, planes[0].height as int);
            let last = inputs.lf_offset + (h - 1) * inputs.lf_stride + (w - 1);
            &&& r is Ok <==> {
                &&& variant.is_linear && variant.is_supported
                &&& 0 < w && 0 < h && w * h <= u32::MAX
                &&& forall|i: int|
                    0 <= i < 3 ==> {
                        let plane = #[trigger] planes[i];
                        &&& plane.width == w && plane.height == h && plane.stride >= w
                        &&& bindable(
                            limits,
                            StorageBinding {
                                buffer: plane.buffer,
                                offset: 0,
                                size: plane.buffer.size,
                            },
                            4 * ((h - 1) * plane.stride + (w - 1) + 1),
                            4,
                        )
                    }
                &&& inputs.lf_stride >= w
                &&& last < u32::MAX
                &&& bindable(limits, inputs.resources, 16 * (last + 1), 16)
                &&& 48 <= limits.max_uniform_buffer_binding_size
                &&& w * h <= limits.max_compute_workgroups_per_dimension * variant.lanes
            }
            &&& r matches Ok(params) ==> {
                &&& params.geometry@ == seq![w as u32, h as u32, (w * h) as u32, 0]
                &&& params.input_strides@ == seq![
                    planes[0].stride,
                    planes[1].stride,
                    planes[2].stride,
                    0,
                ]
                &&& params.destination@ == seq![inputs.lf_offset, inputs.lf_stride, 0, 0]
            }
        }),
{
    let planes = inputs.planes.planes@;
    let (width, height) = (planes[0].width, planes[0].height);
    let (w, h) = (width as int, height as int);
    let (lanes, groups) = (
        variant.lanes as int,
        limits.max_compute_workgroups_per_dimension as int,
    );
    assert(w * h == 0 <==> w == 0 || h == 0) by (nonlinear_arith)
        requires
            w >= 0,
            h >= 0,
    ;
    assert(w * h >= 0) by (nonlinear_arith)
        requires
            w >= 0,
            h >= 0,
    ;
    crate::arith::lemma_ceil_div(w * h, lanes);
    let count = ceil_div(w * h, lanes);
    assert(count <= groups <==> w * h <= groups * lanes) by (nonlinear_arith)
        requires
            w * h <= count * lanes < w * h + lanes,
            lanes > 0,
    ;
    if w > 0 && h > 0 {
        lemma_outputs(limits, planes, width, height);
        lemma_plane_scalars(width, height, inputs.lf_stride);
    }
    if let Ok(params) = r {
        let words = params.spec_words();
        assert(params.geometry@ =~= words.subrange(0, 4));
        assert(params.input_strides@ =~= words.subrange(4, 8));
        assert(params.destination@ =~= words.subrange(8, 12));
        assert(params.geometry@ =~= seq![w as u32, h as u32, (w * h) as u32, 0]);
        assert(params.input_strides@ =~= seq![
            planes[0].stride,
            planes[1].stride,
            planes[2].stride,
            0,
        ]);
        assert(params.destination@ =~= seq![inputs.lf_offset, inputs.lf_stride, 0, 0]);
    }
}

/// Planes are accepted where each of them is.
proof fn lemma_outputs(
    limits: PackLimits,
    planes: Seq<ProgressiveDcXybPlane>,
    width: u32,
    height: u32,
)
    requires
        planes.len() == 3,
        width > 0,
        height > 0,
    ensures
        outputs_refusal(limits, planes, 0, width, height) is None <==> forall|i: int|
            0 <= i < 3 ==> {
                let plane = #[trigger] planes[i];
                &&& plane.width == width && plane.height == height && plane.stride >= width
                &&& bindable(
                    limits,
                    StorageBinding { buffer: plane.buffer, offset: 0, size: plane.buffer.size },
                    4 * ((height - 1) * plane.stride + (width - 1) + 1),
                    4,
                )
            },
{
    reveal_with_fuel(outputs_refusal, 4);
    assert forall|i: int| 0 <= i < 3 implies (plane_refusal(
        limits,
        i as usize,
        #[trigger] planes[i],
        width,
        height,
    ) is None <==> {
        let plane = planes[i];
        &&& plane.width == width && plane.height == height && plane.stride >= width
        &&& bindable(
            limits,
            StorageBinding { buffer: plane.buffer, offset: 0, size: plane.buffer.size },
            4 * ((height - 1) * plane.stride + (width - 1) + 1),
            4,
        )
    }) by {
        lemma_plane_scalars(width, height, planes[i].stride);
    }
    let a = plane_refusal(limits, 0, planes[0], width, height);
    let b = plane_refusal(limits, 1, planes[1], width, height);
    let c = plane_refusal(limits, 2, planes[2], width, height);
    assert(outputs_refusal(limits, planes, 0, width, height) is None <==> a is None && b is None
        && c is None);
}

/// A stride of zero stands for the width, any other one is kept, and none is below the width.
pub proof fn law_strides(
    width: u32,
    height: u32,
    stride: u32,
    role: &'static str,
    r: Result<u32, ProgressiveDcGpuError>,
)
    requires
        call_ensures(normalized_stride, (width, height, stride, role), r),
    ensures
        r is Ok <==> width > 0 && height > 0 && (stride == 0 || stride >= width),
        r matches Ok(samples) ==> if stride == 0 {
            samples == width
        } else {
            samples == stride
        },
{
}

/// Workgroups reach every pixel, and one less would not; they are refused exactly where the device
/// permits fewer.
pub proof fn law_dispatch_reaches(
    limits: PackLimits,
    pixels: u32,
    variant: PackVariant,
    r: Result<u32, ProgressiveDcGpuError>,
)
    requires
        variant.lanes > 0,
        call_ensures(validate_dispatch, (limits, pixels, variant), r),
    ensures
        r is Ok <==> pixels <= limits.max_compute_workgroups_per_dimension * variant.lanes,
        r matches Ok(groups) ==> groups * variant.lanes >= pixels && (groups - 1) * variant.lanes
            < pixels || groups == 0 && pixels == 0,
{
    let (p, l, m) = (
        pixels as int,
        variant.lanes as int,
        limits.max_compute_workgroups_per_dimension as int,
    );
    crate::arith::lemma_ceil_div(p, l);
    let q = ceil_div(p, l);
    assert((q - 1) * l == q * l - l) by (nonlinear_arith);
    assert(q <= m <==> p <= m * l) by (nonlinear_arith)
        requires
            p <= q * l < p + l,
            l > 0,
    ;
}

} // verus!
