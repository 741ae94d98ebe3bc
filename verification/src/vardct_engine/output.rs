//! Color presentation and independently selected scalar output share frame validation.

use crate::vardct_engine::types::VarDctDecodeError;
use crate::vardct_frontend::{StandardVarDctProfile, VarDctColorTransform};
use vstd::prelude::*;

verus! {

/// GPU bytes that one frame output owns.
#[derive(Clone, Copy, Debug, PartialEq, Eq, Structural)]
pub struct FrameOutputMemory {
    pub storage_bytes: u64,
    pub uniform_bytes: u64,
    pub status_bytes: u64,
}

/// Width and height in samples.
#[derive(Clone, Copy, Debug, PartialEq, Eq, Structural)]
pub struct Extent2d {
    pub width: u32,
    pub height: u32,
}

/// What one frame is decoded into.
#[derive(Clone, Copy, Debug, PartialEq, Eq, Structural)]
pub enum VarDctFrameOutput {
    /// Packed colour samples.
    Color { extent: Extent2d, storage_bytes: u64, uniform_bytes: u64 },
    /// The coded components as they are.
    Components { extent: Extent2d, storage_bytes: u64 },
    /// One extra channel.
    Extra { index: u32, storage_bytes: u64, uniform_bytes: u64, status_bytes: u64 },
}

impl VarDctFrameOutput {
    /// The output needs inverse transforms.
    pub open spec fn is_image(self) -> bool {
        !(self is Extra)
    }

    pub fn requires_reconstruction(&self) -> (r: bool)
        ensures
            r == self.is_image(),
    {
        match self {
            VarDctFrameOutput::Extra { .. } => false,
            _ => true,
        }
    }

    pub fn retains_components(&self) -> (r: bool)
        ensures
            r == (self is Components),
    {
        match self {
            VarDctFrameOutput::Components { .. } => true,
            _ => false,
        }
    }

    /// The extent of an image output.
    pub fn extent(&self) -> (r: Option<Extent2d>)
        ensures
            match *self {
                VarDctFrameOutput::Color { extent, .. } => r == Some(extent),
                VarDctFrameOutput::Components { extent, .. } => r == Some(extent),
                VarDctFrameOutput::Extra { .. } => r is None,
            },
    {
        match self {
            VarDctFrameOutput::Color { extent, .. } => Some(*extent),
            VarDctFrameOutput::Components { extent, .. } => Some(*extent),
            VarDctFrameOutput::Extra { .. } => None,
        }
    }

    /// Only a scalar output has a status record of its own, and components need no parameters.
    pub fn memory(&self) -> (memory: FrameOutputMemory)
        ensures
            match *self {
                VarDctFrameOutput::Color { storage_bytes, uniform_bytes, .. } => memory == (
                FrameOutputMemory { storage_bytes, uniform_bytes, status_bytes: 0 }),
                VarDctFrameOutput::Components { storage_bytes, .. } => memory == (
                FrameOutputMemory { storage_bytes, uniform_bytes: 0, status_bytes: 0 }),
                VarDctFrameOutput::Extra { storage_bytes, uniform_bytes, status_bytes, .. } => memory
                    == (FrameOutputMemory { storage_bytes, uniform_bytes, status_bytes }),
            },
    {
        match self {
            VarDctFrameOutput::Color { storage_bytes, uniform_bytes, .. } => FrameOutputMemory {
                storage_bytes: *storage_bytes,
                uniform_bytes: *uniform_bytes,
                status_bytes: 0,
            },
            VarDctFrameOutput::Components { storage_bytes, .. } => FrameOutputMemory {
                storage_bytes: *storage_bytes,
                uniform_bytes: 0,
                status_bytes: 0,
            },
            VarDctFrameOutput::Extra { storage_bytes, uniform_bytes, status_bytes, .. } => {
                FrameOutputMemory {
                    storage_bytes: *storage_bytes,
                    uniform_bytes: *uniform_bytes,
                    status_bytes: *status_bytes,
                }
            },
        }
    }
}

/// What an output request asks of a frame.
#[derive(Clone, Copy, Debug, PartialEq, Eq, Structural)]
pub struct OutputRequest {
    /// A single extra channel is asked for.
    pub extra_channel: Option<u32>,
    pub mapping: OutputMapping,
    /// Frame upsampling and features are left to a later stage.
    pub defers_frame_features: bool,
    /// All planes of the frame stay resident.
    pub retains_frame_surface: bool,
    /// Resident planes hold coded samples.
    pub encoded_surface: bool,
    /// LF frames keep their extra channels.
    pub retains_lf_extras: bool,
    /// The request leaves the declared orientation to its consumer.
    pub keeps_orientation: bool,
}

/// How samples are mapped to the output format.
#[derive(Clone, Copy, Debug, PartialEq, Eq, Structural)]
pub enum OutputMapping {
    Color,
    Numeric,
}

/// Kind of an extra channel.
#[derive(Clone, Copy, Debug, PartialEq, Eq, Structural)]
pub struct ExtraChannel {
    pub alpha: bool,
    /// Samples of this precision can be presented.
    pub presentable: bool,
}

/// What the image header declares about presentation.
#[derive(Clone, Copy, Debug, PartialEq, Eq, Structural)]
pub struct ImagePresentation {
    /// One of the eight declared orientations.
    pub orientation: u32,
    pub has_inverse_opsin: bool,
    /// The original colour encoding can be presented.
    pub has_color_encoding: bool,
    pub xyb_encoded: bool,
}

/// Where coefficient biases come from.
#[derive(Clone, Copy, Debug, PartialEq, Eq, Structural)]
pub enum QuantBias {
    /// Scalar output has none.
    Zero,
    /// The declared inverse opsin matrix.
    Opsin,
    /// The defaults of images that declare none.
    Default,
}

/// Colour transform of a presented image.
#[derive(Clone, Copy, Debug, PartialEq, Eq, Structural)]
pub enum ColorTransform {
    InverseOpsin,
    Original,
    Ycbcr,
}

/// What is presented of a frame.
#[derive(Clone, Copy, Debug, PartialEq, Eq, Structural)]
pub enum Presentation {
    Extra { index: u32 },
    Components,
    Color {
        transform: ColorTransform,
        /// Reconstructed black is kept below the encoding's own.
        black_threshold: bool,
        /// Alpha stays as it is coded.
        preserves_alpha: bool,
    },
}

/// How a frame is presented.
#[derive(Clone, Copy, Debug, PartialEq, Eq, Structural)]
pub struct PresentationPlan {
    pub presentation: Presentation,
    /// Orientation that is carried out, one for none.
    pub orientation: u32,
    /// Extent before orientation.
    pub extent: Extent2d,
    pub quant_bias: QuantBias,
    /// Extra planes that stay resident beside the colour planes, where any planes do.
    pub surface_extras: Option<usize>,
}

/// The orientation that is carried out.
pub open spec fn resolved_orientation(request: OutputRequest, image: ImagePresentation) -> u32 {
    if request.keeps_orientation {
        1
    } else {
        image.orientation
    }
}

/// The extent of a frame before orientation.
pub open spec fn presented_extent(request: OutputRequest, profile: &StandardVarDctProfile) -> Extent2d {
    if request.extra_channel is None && request.defers_frame_features {
        Extent2d { width: profile.width, height: profile.height }
    } else {
        Extent2d { width: profile.output_width, height: profile.output_height }
    }
}

/// LF prediction can retain colour alone, unless extra planes are asked for explicitly.
pub open spec fn surface_planes(
    request: OutputRequest,
    profile: &StandardVarDctProfile,
    extras: int,
) -> Option<usize> {
    if !request.retains_frame_surface {
        None
    } else if profile.lf_level == 0 || request.retains_lf_extras {
        Some(extras as usize)
    } else {
        Some(0)
    }
}

/// Coded components are presented as they are.
pub open spec fn presents_components(request: OutputRequest) -> bool {
    request.retains_frame_surface && request.encoded_surface
}

/// Why a frame cannot be presented.
pub open spec fn presentation_refusal(
    request: OutputRequest,
    image: ImagePresentation,
    extras: Seq<ExtraChannel>,
    profile: &StandardVarDctProfile,
) -> Option<VarDctDecodeError> {
    let xyb = profile.color_transform == VarDctColorTransform::Xyb;
    if !(1 <= image.orientation <= 8) {
        Some(VarDctDecodeError::InvalidOrientation { orientation: image.orientation })
    } else {
        match request.extra_channel {
            Some(index) => if index >= extras.len() {
                Some(
                    VarDctDecodeError::ExtraChannelIndex { index, count: extras.len() as usize },
                )
            } else if !extras[index as int].presentable || request.mapping
                != OutputMapping::Numeric {
                Some(VarDctDecodeError::UnsupportedOutput)
            } else {
                None
            },
            None => if request.mapping != OutputMapping::Color {
                Some(VarDctDecodeError::UnsupportedOutput)
            } else if xyb && !image.has_inverse_opsin {
                Some(VarDctDecodeError::MissingInverseOpsin)
            } else if presents_components(request) {
                if resolved_orientation(request, image) != 1 {
                    Some(VarDctDecodeError::UnsupportedOutput)
                } else {
                    None
                }
            } else if !image.has_color_encoding {
                Some(VarDctDecodeError::UnsupportedColorEncoding)
            } else {
                None
            },
        }
    }
}

/// How an accepted frame is presented.
pub open spec fn presentation_of(
    request: OutputRequest,
    image: ImagePresentation,
    extras: Seq<ExtraChannel>,
    profile: &StandardVarDctProfile,
) -> PresentationPlan {
    let xyb = profile.color_transform == VarDctColorTransform::Xyb;
    PresentationPlan {
        presentation: match request.extra_channel {
            Some(index) => Presentation::Extra { index },
            None => if presents_components(request) {
                Presentation::Components
            } else {
                Presentation::Color {
                    transform: match profile.color_transform {
                        VarDctColorTransform::Xyb => ColorTransform::InverseOpsin,
                        VarDctColorTransform::Rgb => ColorTransform::Original,
                        VarDctColorTransform::Ycbcr => ColorTransform::Ycbcr,
                    },
                    black_threshold: image.xyb_encoded,
                    preserves_alpha: profile.lf_level != 0,
                }
            },
        },
        orientation: resolved_orientation(request, image),
        extent: presented_extent(request, profile),
        quant_bias: if request.extra_channel is Some {
            QuantBias::Zero
        } else if xyb {
            QuantBias::Opsin
        } else {
            QuantBias::Default
        },
        surface_extras: if request.extra_channel is Some {
            None
        } else {
            surface_planes(request, profile, extras.len() as int)
        },
    }
}

/// Decides how a frame is presented.
pub fn prepare_presentation(
    request: OutputRequest,
    image: ImagePresentation,
    extras: &Vec<ExtraChannel>,
    profile: &StandardVarDctProfile,
) -> (r: Result<PresentationPlan, VarDctDecodeError>)
    ensures
        match presentation_refusal(request, image, extras@, profile) {
            Some(error) => r == Err::<PresentationPlan, VarDctDecodeError>(error),
            None => r == Ok::<PresentationPlan, VarDctDecodeError>(
                presentation_of(request, image, extras@, profile),
            ),
        },
{
    if image.orientation < 1 || image.orientation > 8 {
        return Err(VarDctDecodeError::InvalidOrientation { orientation: image.orientation });
    }
    let orientation: u32 = if request.keeps_orientation {
        1
    } else {
        image.orientation
    };
    let presented = Extent2d { width: profile.output_width, height: profile.output_height };
    match request.extra_channel {
        Some(index) => {
            if index as usize >= extras.len() {
                return Err(VarDctDecodeError::ExtraChannelIndex { index, count: extras.len() });
            }
            if !extras[index as usize].presentable || request.mapping != OutputMapping::Numeric {
                return Err(VarDctDecodeError::UnsupportedOutput);
            }
            return Ok(
                PresentationPlan {
                    presentation: Presentation::Extra { index },
                    orientation,
                    extent: presented,
                    quant_bias: QuantBias::Zero,
                    surface_extras: None,
                },
            );
        },
        None => {},
    }
    if request.mapping != OutputMapping::Color {
        return Err(VarDctDecodeError::UnsupportedOutput);
    }
    let xyb = match profile.color_transform {
        VarDctColorTransform::Xyb => true,
        _ => false,
    };
    if xyb && !image.has_inverse_opsin {
        return Err(VarDctDecodeError::MissingInverseOpsin);
    }
    let quant_bias = if xyb {
        QuantBias::Opsin
    } else {
        QuantBias::Default
    };
    let extent = if request.defers_frame_features {
        Extent2d { width: profile.width, height: profile.height }
    } else {
        presented
    };
    let surface_extras: Option<usize> = if !request.retains_frame_surface {
        None
    } else if profile.lf_level == 0 || request.retains_lf_extras {
        Some(extras.len())
    } else {
        Some(0)
    };
    let presentation = if request.retains_frame_surface && request.encoded_surface {
        if orientation != 1 {
            return Err(VarDctDecodeError::UnsupportedOutput);
        }
        Presentation::Components
    } else {
        if !image.has_color_encoding {
            return Err(VarDctDecodeError::UnsupportedColorEncoding);
        }
        Presentation::Color {
            transform: match profile.color_transform {
                VarDctColorTransform::Xyb => ColorTransform::InverseOpsin,
                VarDctColorTransform::Rgb => ColorTransform::Original,
                VarDctColorTransform::Ycbcr => ColorTransform::Ycbcr,
            },
            black_threshold: image.xyb_encoded,
            preserves_alpha: profile.lf_level != 0,
        }
    };
    Ok(PresentationPlan { presentation, orientation, extent, quant_bias, surface_extras })
}

/// Places of `0..n`.
pub open spec fn all_places(n: int) -> Seq<usize> {
    Seq::new(n as nat, |i: int| i as usize)
}

/// The first alpha channel from `i` on.
pub open spec fn first_alpha(extras: Seq<ExtraChannel>, i: int) -> Option<usize>
    decreases extras.len() - i,
{
    if i >= extras.len() {
        None
    } else if extras[i].alpha {
        Some(i as usize)
    } else {
        first_alpha(extras, i + 1)
    }
}

/// Extra channels that a frame keeps: all of them beside resident planes, else the one that is
/// asked for or the first alpha channel. LF frames keep none unless they are asked to.
pub open spec fn kept_extras(
    request: OutputRequest,
    extras: Seq<ExtraChannel>,
    profile: &StandardVarDctProfile,
) -> Seq<usize> {
    if profile.lf_level != 0 && !request.retains_lf_extras {
        Seq::empty()
    } else if request.retains_frame_surface || request.retains_lf_extras {
        all_places(extras.len() as int)
    } else {
        match request.extra_channel {
            Some(index) => seq![index as usize],
            None => match first_alpha(extras, 0) {
                Some(index) => seq![index],
                None => Seq::empty(),
            },
        }
    }
}

/// Extra channels that a frame keeps.
pub fn selected_extra_indices(
    request: OutputRequest,
    extras: &Vec<ExtraChannel>,
    profile: &StandardVarDctProfile,
) -> (indices: Vec<usize>)
    ensures
        indices@ == kept_extras(request, extras@, profile),
{
    let mut indices: Vec<usize> = Vec::new();
    if profile.lf_level != 0 && !request.retains_lf_extras {
        assert(indices@ =~= Seq::empty());
        return indices;
    }
    if request.retains_frame_surface || request.retains_lf_extras {
        let mut i: usize = 0;
        while i < extras.len()
            invariant
                i <= extras@.len(),
                indices@ =~= all_places(i as int),
            decreases extras@.len() - i,
        {
            indices.push(i);
            i = i + 1;
        }
        return indices;
    }
    match request.extra_channel {
        Some(index) => {
            indices.push(index as usize);
            assert(indices@ =~= seq![index as usize]);
            return indices;
        },
        None => {},
    }
    let mut i: usize = 0;
    while i < extras.len()
        invariant
            i <= extras@.len(),
            indices@.len() == 0,
            first_alpha(extras@, 0) == first_alpha(extras@, i as int),
            kept_extras(request, extras@, profile) == (match first_alpha(extras@, 0) {
                Some(index) => seq![index],
                None => Seq::empty(),
            }),
        decreases extras@.len() - i,
    {
        if extras[i].alpha {
            indices.push(i);
            assert(indices@ =~= seq![i]);
            return indices;
        }
        i = i + 1;
    }
    assert(indices@ =~= Seq::empty());
    indices
}

/// A frame is presented upright where orientation is kept and as the image says otherwise, at its
/// own size where frame features are deferred and at its output size otherwise. An extra channel is
/// presented by numbers and without a quantization bias. Colours come from inverse opsin, as they
/// are, or from luma and chroma, as the frame codes them; coded components are presented as they
/// are, and only upright. Surfaces keep all extra planes, except those of an LF frame that is not
/// asked for them.
pub proof fn law_presentation_plan(
    request: OutputRequest,
    image: ImagePresentation,
    extras: &Vec<ExtraChannel>,
    profile: &StandardVarDctProfile,
    plan: PresentationPlan,
)
    requires
        call_ensures(
            prepare_presentation,
            (request, image, extras, profile),
            Ok::<PresentationPlan, VarDctDecodeError>(plan),
        ),
    ensures
        1 <= image.orientation <= 8,
        request.keeps_orientation ==> plan.orientation == 1,
        !request.keeps_orientation ==> plan.orientation == image.orientation,
        request.extra_channel matches Some(index) ==> {
            &&& index < extras@.len() && extras@[index as int].presentable
            &&& request.mapping == OutputMapping::Numeric
            &&& plan.presentation == Presentation::Extra { index }
            &&& plan.extent.width == profile.output_width
            &&& plan.extent.height == profile.output_height
            &&& plan.quant_bias == QuantBias::Zero
            &&& plan.surface_extras is None
        },
        request.extra_channel is None ==> {
            let xyb = profile.color_transform == VarDctColorTransform::Xyb;
            &&& request.mapping == OutputMapping::Color
            &&& xyb ==> image.has_inverse_opsin && plan.quant_bias == QuantBias::Opsin
            &&& !xyb ==> plan.quant_bias == QuantBias::Default
            &&& plan.extent.width == if request.defers_frame_features {
                profile.width
            } else {
                profile.output_width
            }
            &&& plan.extent.height == if request.defers_frame_features {
                profile.height
            } else {
                profile.output_height
            }
            &&& plan.surface_extras is Some <==> request.retains_frame_surface
            &&& plan.surface_extras matches Some(planes) ==> planes == if profile.lf_level > 0
                && !request.retains_lf_extras {
                0
            } else {
                extras@.len() as int
            }
            &&& plan.presentation == Presentation::Components <==> request.retains_frame_surface
                && request.encoded_surface
            &&& plan.presentation == Presentation::Components ==> plan.orientation == 1
            &&& plan.presentation matches Presentation::Color {
                transform,
                black_threshold,
                preserves_alpha,
            } ==> {
                &&& image.has_color_encoding
                &&& xyb <==> transform == ColorTransform::InverseOpsin
                &&& profile.color_transform == VarDctColorTransform::Rgb <==> transform
                    == ColorTransform::Original
                &&& black_threshold == image.xyb_encoded
                &&& preserves_alpha <==> profile.lf_level > 0
            }
        },
{
    assert(extras.len() == extras@.len());
}

/// The extra channels that a frame keeps: none of an LF frame that is not asked for them; all of
/// them beside resident planes; otherwise the one that is asked for, or the first one of alpha.
pub proof fn law_kept_extras(
    request: OutputRequest,
    extras: &Vec<ExtraChannel>,
    profile: &StandardVarDctProfile,
    indices: Vec<usize>,
)
    requires
        call_ensures(selected_extra_indices, (request, extras, profile), indices),
    ensures
        ({
            let none = profile.lf_level > 0 && !request.retains_lf_extras;
            let all = request.retains_frame_surface || request.retains_lf_extras;
            &&& none ==> indices@.len() == 0
            &&& !none && all ==> indices@.len() == extras@.len() && forall|i: int|
                0 <= i < indices@.len() ==> #[trigger] indices@[i] == i
            &&& !none && !all && request.extra_channel is Some ==> indices@ == seq![
                request.extra_channel->0 as usize,
            ]
            &&& !none && !all && request.extra_channel is None ==> {
                &&& indices@.len() <= 1
                &&& indices@.len() == 0 <==> forall|i: int|
                    0 <= i < extras@.len() ==> !(#[trigger] extras@[i]).alpha
                &&& indices@.len() == 1 ==> {
                    &&& indices@[0] < extras@.len()
                    &&& extras@[indices@[0] as int].alpha
                    &&& forall|i: int| 0 <= i < indices@[0] ==> !(#[trigger] extras@[i]).alpha
                }
            }
        }),
{
    assert(extras.len() == extras@.len());
    lemma_first_alpha(extras@, 0);
}

/// The first alpha channel is one, and none is in front of it.
proof fn lemma_first_alpha(extras: Seq<ExtraChannel>, i: int)
    requires
        0 <= i <= extras.len() <= usize::MAX,
    ensures
        match first_alpha(extras, i) {
            Some(at) => {
                &&& i <= at < extras.len()
                &&& extras[at as int].alpha
                &&& forall|k: int| i <= k < at ==> !(#[trigger] extras[k]).alpha
            },
            None => forall|k: int| i <= k < extras.len() ==> !(#[trigger] extras[k]).alpha,
        },
    decreases extras.len() - i,
{
    if i < extras.len() && !extras[i].alpha {
        lemma_first_alpha(extras, i + 1);
    }
}

} // verus!
