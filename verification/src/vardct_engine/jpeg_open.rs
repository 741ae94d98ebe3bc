//! Admission of coefficient reconstruction from a parsed container.

use crate::vardct_engine::jpeg::{
    layout_of, layout_refusal, JpegCoefficientError, JpegCoefficientLayout,
};
use crate::vardct_engine::types::VarDctDecodeError;
use crate::vardct_frontend::StandardVarDctProfile;
use vstd::prelude::*;

verus! {

/// The smaller of a limit and what a plan leaves for it.
pub open spec fn clamp(limit: u64, host_plan_limit: Option<u64>, used: u64) -> u64 {
    match host_plan_limit {
        None => limit,
        Some(plan) => {
            let left = if plan < used {
                0u64
            } else {
                (plan - used) as u64
            };
            if limit < left {
                limit
            } else {
                left
            }
        },
    }
}

/// A limit inside what a host plan leaves, of which `used` bytes are taken: nothing for the
/// reconstruction metadata, and the metadata for the retained ICC profile.
pub fn clamp_limit(limit: u64, host_plan_limit: Option<u64>, used: u64) -> (clamped: u64)
    ensures
        clamped == clamp(limit, host_plan_limit, used),
{
    match host_plan_limit {
        None => limit,
        Some(plan) => {
            let left: u64 = if plan < used {
                0
            } else {
                plan - used
            };
            if limit < left {
                limit
            } else {
                left
            }
        },
    }
}

/// What the headers of a codestream declare.
#[derive(Clone, Copy, Debug, PartialEq, Eq, Structural)]
pub struct JpegHeaders {
    pub frames: usize,
    pub has_animation: bool,
    pub extra_channels: usize,
    pub has_preview: bool,
    pub grayscale: bool,
}

/// Correlation of the LF channels; the bases are bit patterns of single-precision numbers.
#[derive(Clone, Copy, Debug, PartialEq, Eq)]
pub struct LfCorrelation {
    pub colour_factor: u32,
    pub base_bits: [u32; 2],
    pub lf_factors: [i32; 2],
}

/// A single-precision zero of either sign.
pub open spec fn is_zero_pattern(bits: u32) -> bool {
    bits == 0 || bits == 0x8000_0000
}

/// The correlation that JPEG reconstruction fixes.
pub open spec fn fixed_correlation(correlation: LfCorrelation) -> bool {
    &&& correlation.colour_factor == 84
    &&& is_zero_pattern(correlation.base_bits[0])
    &&& is_zero_pattern(correlation.base_bits[1])
    &&& correlation.lf_factors[0] == 0
    &&& correlation.lf_factors[1] == 0
}

/// Why the headers of a codestream are refused.
pub open spec fn headers_refusal(has_metadata: bool, headers: JpegHeaders) -> Option<
    JpegCoefficientError,
> {
    if !has_metadata {
        Some(JpegCoefficientError::MissingMetadata)
    } else if headers.frames != 1 || headers.has_animation || headers.extra_channels != 0
        || headers.has_preview {
        Some(
            JpegCoefficientError::Unsupported {
                reason: "one still frame without preview or extra channels",
            },
        )
    } else {
        None
    }
}

/// Accepts the headers of a codestream with a reconstruction box.
pub fn admit_headers(has_metadata: bool, headers: JpegHeaders) -> (r: Result<(), VarDctDecodeError>)
    ensures
        match headers_refusal(has_metadata, headers) {
            Some(error) => r == Err::<(), VarDctDecodeError>(VarDctDecodeError::Jpeg(error)),
            None => r is Ok,
        },
{
    if !has_metadata {
        return Err(VarDctDecodeError::Jpeg(JpegCoefficientError::MissingMetadata));
    }
    if headers.frames != 1 || headers.has_animation || headers.extra_channels != 0
        || headers.has_preview {
        return Err(
            VarDctDecodeError::Jpeg(
                JpegCoefficientError::Unsupported {
                    reason: "one still frame without preview or extra channels",
                },
            ),
        );
    }
    Ok(())
}

/// What a packet parser left of the frame.
#[derive(Clone, Copy, Debug)]
pub struct JpegPacket {
    /// The prefix holds a global Modular image.
    pub global_modular: bool,
    pub groups: usize,
    pub correlation: LfCorrelation,
}

/// Why coefficients cannot be reconstructed from a packet.
pub open spec fn packet_refusal(
    packet: JpegPacket,
    profile: &StandardVarDctProfile,
    grayscale: bool,
    components: usize,
    limit: u64,
) -> Option<VarDctDecodeError> {
    if packet.global_modular {
        Some(
            VarDctDecodeError::Jpeg(
                JpegCoefficientError::Unsupported { reason: "global Modular prefix" },
            ),
        )
    } else if packet.groups > u32::MAX {
        Some(VarDctDecodeError::ArithmeticOverflow { field: "JPEG LF group count" })
    } else {
        match layout_refusal(profile, grayscale, limit) {
            Some(error) => Some(VarDctDecodeError::Jpeg(error)),
            None => if components != layout_of(
                profile,
                grayscale,
                packet.groups as u32,
            ).planes.len() {
                Some(
                    VarDctDecodeError::Jpeg(
                        JpegCoefficientError::Binding { reason: "jbrd component count" },
                    ),
                )
            } else if !fixed_correlation(packet.correlation) {
                Some(
                    VarDctDecodeError::Jpeg(
                        JpegCoefficientError::Unsupported {
                            reason: "JPEG fixed-point color correlation",
                        },
                    ),
                )
            } else {
                None
            },
        }
    }
}

/// The coefficient layout of an accepted packet, with as many components as the reconstruction
/// metadata declares.
pub fn admit_packet(
    packet: JpegPacket,
    profile: &StandardVarDctProfile,
    grayscale: bool,
    components: usize,
    limit: u64,
) -> (r: Result<JpegCoefficientLayout, VarDctDecodeError>)
    ensures
        match packet_refusal(packet, profile, grayscale, components, limit) {
            Some(error) => r == Err::<JpegCoefficientLayout, VarDctDecodeError>(error),
            None => r matches Ok(layout) && layout@ == layout_of(
                profile,
                grayscale,
                packet.groups as u32,
            ),
        },
{
    if packet.global_modular {
        return Err(
            VarDctDecodeError::Jpeg(
                JpegCoefficientError::Unsupported { reason: "global Modular prefix" },
            ),
        );
    }
    if packet.groups > u32::MAX as usize {
        return Err(VarDctDecodeError::ArithmeticOverflow { field: "JPEG LF group count" });
    }
    let layout = match JpegCoefficientLayout::new(
        profile,
        grayscale,
        packet.groups as u32,
        limit,
    ) {
        Ok(layout) => layout,
        Err(error) => {
            return Err(VarDctDecodeError::Jpeg(error));
        },
    };
    if components != layout.component_count() {
        return Err(
            VarDctDecodeError::Jpeg(
                JpegCoefficientError::Binding { reason: "jbrd component count" },
            ),
        );
    }
    let correlation = packet.correlation;
    if correlation.colour_factor != 84 || !(correlation.base_bits[0] == 0
        || correlation.base_bits[0] == 0x8000_0000) || !(correlation.base_bits[1] == 0
        || correlation.base_bits[1] == 0x8000_0000) || correlation.lf_factors[0] != 0
        || correlation.lf_factors[1] != 0 {
        return Err(
            VarDctDecodeError::Jpeg(
                JpegCoefficientError::Unsupported { reason: "JPEG fixed-point color correlation" },
            ),
        );
    }
    Ok(layout)
}

/// A limit inside a host plan is neither above the limit nor above what the plan leaves, and one of
/// the two where the plan leaves anything.
pub proof fn law_clamped(limit: u64, plan: u64, used: u64, free: u64, clamped: u64)
    requires
        call_ensures(clamp_limit, (limit, None, used), free),
        call_ensures(clamp_limit, (limit, Some(plan), used), clamped),
    ensures
        free == limit,
        clamped <= limit,
        used <= plan ==> clamped + used <= plan,
        used <= plan ==> clamped == limit || clamped + used == plan,
        used > plan ==> clamped == 0,
{
}

/// Headers are admitted exactly where there is a reconstruction box and one still frame without a
/// preview or extra channels.
pub proof fn law_headers_admitted(has_metadata: bool, headers: JpegHeaders, r: Result<
    (),
    VarDctDecodeError,
>)
    requires
        call_ensures(admit_headers, (has_metadata, headers), r),
    ensures
        r is Ok <==> has_metadata && headers.frames == 1 && !headers.has_animation
            && headers.extra_channels == 0 && !headers.has_preview,
{
}

/// A packet is admitted without a global Modular prefix, with as many components as were declared
/// and with the one correlation that integers can carry: a factor of 84, zero bases of either sign
/// and zero factors.
pub proof fn law_packet_admitted(
    packet: JpegPacket,
    profile: &StandardVarDctProfile,
    grayscale: bool,
    components: usize,
    limit: u64,
    r: Result<JpegCoefficientLayout, VarDctDecodeError>,
    made: Result<JpegCoefficientLayout, JpegCoefficientError>,
)
    requires
        packet.groups <= u32::MAX,
        call_ensures(admit_packet, (packet, profile, grayscale, components, limit), r),
        call_ensures(
            JpegCoefficientLayout::new,
            (profile, grayscale, packet.groups as u32, limit),
            made,
        ),
    ensures
        r is Ok <==> {
            &&& !packet.global_modular
            &&& made is Ok
            &&& components == made->Ok_0@.planes.len()
            &&& packet.correlation.colour_factor == 84
            &&& packet.correlation.base_bits@[0] == 0 || packet.correlation.base_bits@[0]
                == 0x8000_0000
            &&& packet.correlation.base_bits@[1] == 0 || packet.correlation.base_bits@[1]
                == 0x8000_0000
            &&& packet.correlation.lf_factors@[0] == 0 && packet.correlation.lf_factors@[1] == 0
        },
        r matches Ok(layout) ==> layout@ == made->Ok_0@,
{
}

} // verus!
