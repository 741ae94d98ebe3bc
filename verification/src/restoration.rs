//! Shared lowering of JPEG XL restoration metadata for both coding modes.
//!
//! Weights are binary32 numbers, carried as their bit patterns.

use vstd::prelude::*;

verus! {

/// Why restoration metadata cannot be lowered.
#[derive(Clone, Copy, Debug, PartialEq, Eq, Structural)]
pub enum RestorationError {
    InvalidEpfIterations { iterations: u32 },
}

/// Gabor-like smoothing of a frame.
#[derive(Clone, Copy, Debug, PartialEq, Eq)]
pub enum GaborishInventory {
    Disabled,
    Default,
    Custom { weights: [[u32; 2]; 3] },
}

/// Sigma scales of the edge-preserving filter.
#[derive(Clone, Copy, Debug, PartialEq, Eq, Structural)]
pub struct EpfSigmaInventory {
    pub quant_mul: Option<u32>,
    pub pass0_sigma_scale: u32,
    pub pass2_sigma_scale: u32,
    pub border_sad_mul: u32,
}

/// Edge-preserving filter of a frame.
#[derive(Clone, Copy, Debug, PartialEq, Eq)]
pub enum EdgePreservingFilterInventory {
    Disabled,
    Enabled {
        iterations: u32,
        sharp_lut: Option<[u32; 8]>,
        channel_scale: Option<[u32; 3]>,
        sigma: Option<EpfSigmaInventory>,
    },
}

/// Restoration filters that a frame declares.
#[derive(Clone, Copy, Debug, PartialEq, Eq)]
pub enum RestorationFilterInventory {
    /// Default smoothing and the default filter, given here.
    Default { epf: EdgePreservingFilterInventory },
    Custom { gaborish: GaborishInventory, epf: EdgePreservingFilterInventory },
}

/// Smoothing that is carried out.
#[derive(Clone, Copy, Debug, PartialEq, Eq)]
pub enum GaborishWeights {
    Default,
    Custom { weights: [[u32; 2]; 3] },
}

/// One pass of the edge-preserving filter.
#[derive(Clone, Copy, Debug, PartialEq, Eq, Structural)]
pub enum EpfPass {
    Pass0,
    Pass1,
    Pass2,
}

/// Parameters of one pass.
#[derive(Clone, Copy, Debug, PartialEq, Eq)]
pub struct EpfParameters {
    pub pass: EpfPass,
    pub sigma_scale: u32,
    pub border_sad_mul: u32,
    pub channel_scale: [u32; 3],
}

/// The edge-preserving filter of a frame.
#[derive(Clone, Copy, Debug, PartialEq, Eq)]
pub struct EpfConfig {
    pub iterations: u32,
    pub sharp_lut: [u32; 8],
    pub channel_scale: [u32; 3],
    pub quant_mul: u32,
    pub pass0_sigma_scale: u32,
    pub pass2_sigma_scale: u32,
    pub border_sad_mul: u32,
}

/// One.
pub const ONE_BITS: u32 = 0x3f80_0000;

/// 0.46.
pub const QUANT_MUL_BITS: u32 = 0x3eeb_851f;

/// 0.9.
pub const PASS0_SIGMA_BITS: u32 = 0x3f66_6666;

/// 6.5.
pub const PASS2_SIGMA_BITS: u32 = 0x40d0_0000;

/// Two thirds.
pub const BORDER_SAD_BITS: u32 = 0x3f2a_aaab;

impl EpfConfig {
    /// The parameters of one pass.
    pub open spec fn pass(self, pass: EpfPass) -> EpfParameters {
        EpfParameters {
            pass,
            sigma_scale: match pass {
                EpfPass::Pass0 => self.pass0_sigma_scale,
                EpfPass::Pass1 => ONE_BITS,
                EpfPass::Pass2 => self.pass2_sigma_scale,
            },
            border_sad_mul: self.border_sad_mul,
            channel_scale: self.channel_scale,
        }
    }

    /// One iteration is the middle pass, two add the last and three the first.
    pub open spec fn pass_order(self) -> Seq<EpfPass> {
        if self.iterations == 0 {
            Seq::empty()
        } else if self.iterations == 1 {
            seq![EpfPass::Pass1]
        } else if self.iterations == 2 {
            seq![EpfPass::Pass1, EpfPass::Pass2]
        } else {
            seq![EpfPass::Pass0, EpfPass::Pass1, EpfPass::Pass2]
        }
    }

    /// The passes of the filter in execution order.
    pub fn passes(self) -> (passes: Vec<EpfParameters>)
        ensures
            passes@ == self.pass_order().map_values(|pass: EpfPass| self.pass(pass)),
            self.iterations <= 3 ==> passes@.len() == self.iterations,
    {
        let mut passes: Vec<EpfParameters> = Vec::new();
        if self.iterations >= 3 {
            passes.push(
                EpfParameters {
                    pass: EpfPass::Pass0,
                    sigma_scale: self.pass0_sigma_scale,
                    border_sad_mul: self.border_sad_mul,
                    channel_scale: self.channel_scale,
                },
            );
        }
        if self.iterations >= 1 {
            passes.push(
                EpfParameters {
                    pass: EpfPass::Pass1,
                    sigma_scale: ONE_BITS,
                    border_sad_mul: self.border_sad_mul,
                    channel_scale: self.channel_scale,
                },
            );
        }
        if self.iterations >= 2 {
            passes.push(
                EpfParameters {
                    pass: EpfPass::Pass2,
                    sigma_scale: self.pass2_sigma_scale,
                    border_sad_mul: self.border_sad_mul,
                    channel_scale: self.channel_scale,
                },
            );
        }
        assert(passes@ =~= self.pass_order().map_values(|pass: EpfPass| self.pass(pass)));
        passes
    }
}

/// The smoothing that a declaration asks for.
pub open spec fn gaborish_of(declared: GaborishInventory) -> Option<GaborishWeights> {
    match declared {
        GaborishInventory::Disabled => None,
        GaborishInventory::Default => Some(GaborishWeights::Default),
        GaborishInventory::Custom { weights } => Some(GaborishWeights::Custom { weights }),
    }
}

/// Sevenths from zero to one.
pub open spec fn default_sharp_lut() -> Seq<u32> {
    seq![
        0u32, 0x3e12_4925, 0x3e92_4925, 0x3edb_6db7, 0x3f12_4925, 0x3f36_db6e, 0x3f5b_6db7,
        0x3f80_0000,
    ]
}

/// Forty, five and three and a half.
pub open spec fn default_channel_scale() -> Seq<u32> {
    seq![0x4220_0000u32, 0x40a0_0000, 0x4060_0000]
}

/// The filter that a declaration of one to three iterations asks for: what it leaves out has
/// its default.
pub open spec fn epf_matches(
    config: EpfConfig,
    iterations: u32,
    sharp_lut: Option<[u32; 8]>,
    channel_scale: Option<[u32; 3]>,
    sigma: Option<EpfSigmaInventory>,
) -> bool {
    &&& config.iterations == iterations
    &&& config.sharp_lut@ == match sharp_lut {
        Some(lut) => lut@,
        None => default_sharp_lut(),
    }
    &&& config.channel_scale@ == match channel_scale {
        Some(scale) => scale@,
        None => default_channel_scale(),
    }
    &&& config.quant_mul == match sigma {
        Some(EpfSigmaInventory { quant_mul: Some(mul), .. }) => mul,
        _ => QUANT_MUL_BITS,
    }
    &&& config.pass0_sigma_scale == match sigma {
        Some(sigma) => sigma.pass0_sigma_scale,
        None => PASS0_SIGMA_BITS,
    }
    &&& config.pass2_sigma_scale == match sigma {
        Some(sigma) => sigma.pass2_sigma_scale,
        None => PASS2_SIGMA_BITS,
    }
    &&& config.border_sad_mul == match sigma {
        Some(sigma) => sigma.border_sad_mul,
        None => BORDER_SAD_BITS,
    }
}

/// The smoothing and filter declarations, with the default smoothing spelled out.
pub open spec fn declared_filters(restoration: RestorationFilterInventory) -> (
    GaborishInventory,
    EdgePreservingFilterInventory,
) {
    match restoration {
        RestorationFilterInventory::Default { epf } => (GaborishInventory::Default, epf),
        RestorationFilterInventory::Custom { gaborish, epf } => (gaborish, epf),
    }
}

/// The filters that a frame's restoration metadata ask for.
pub fn restoration_config(restoration: RestorationFilterInventory) -> (r: Result<
    (Option<GaborishWeights>, Option<EpfConfig>),
    RestorationError,
>)
    ensures
        ({
            let (gaborish, epf) = declared_filters(restoration);
            match epf {
                EdgePreservingFilterInventory::Disabled => r == Ok::<
                    (Option<GaborishWeights>, Option<EpfConfig>),
                    RestorationError,
                >((gaborish_of(gaborish), None)),
                EdgePreservingFilterInventory::Enabled {
                    iterations,
                    sharp_lut,
                    channel_scale,
                    sigma,
                } => if 1 <= iterations <= 3 {
                    r matches Ok((weights, Some(config))) && weights == gaborish_of(gaborish)
                        && epf_matches(config, iterations, sharp_lut, channel_scale, sigma)
                } else {
                    r == Err::<(Option<GaborishWeights>, Option<EpfConfig>), RestorationError>(
                        RestorationError::InvalidEpfIterations { iterations },
                    )
                },
            }
        }),
{
    let (gaborish, epf) = match restoration {
        RestorationFilterInventory::Default { epf } => (GaborishInventory::Default, epf),
        RestorationFilterInventory::Custom { gaborish, epf } => (gaborish, epf),
    };
    let weights = match gaborish {
        GaborishInventory::Disabled => None,
        GaborishInventory::Default => Some(GaborishWeights::Default),
        GaborishInventory::Custom { weights } => Some(GaborishWeights::Custom { weights }),
    };
    match epf {
        EdgePreservingFilterInventory::Disabled => Ok((weights, None)),
        EdgePreservingFilterInventory::Enabled { iterations, sharp_lut, channel_scale, sigma } => {
            if iterations < 1 || iterations > 3 {
                return Err(RestorationError::InvalidEpfIterations { iterations });
            }
            let sharp_lut: [u32; 8] = match sharp_lut {
                Some(lut) => lut,
                None => [
                    0,
                    0x3e12_4925,
                    0x3e92_4925,
                    0x3edb_6db7,
                    0x3f12_4925,
                    0x3f36_db6e,
                    0x3f5b_6db7,
                    0x3f80_0000,
                ],
            };
            let channel_scale: [u32; 3] = match channel_scale {
                Some(scale) => scale,
                None => [0x4220_0000, 0x40a0_0000, 0x4060_0000],
            };
            let config = match sigma {
                Some(sigma) => EpfConfig {
                    iterations,
                    sharp_lut,
                    channel_scale,
                    quant_mul: match sigma.quant_mul {
                        Some(mul) => mul,
                        None => QUANT_MUL_BITS,
                    },
                    pass0_sigma_scale: sigma.pass0_sigma_scale,
                    pass2_sigma_scale: sigma.pass2_sigma_scale,
                    border_sad_mul: sigma.border_sad_mul,
                },
                None => EpfConfig {
                    iterations,
                    sharp_lut,
                    channel_scale,
                    quant_mul: QUANT_MUL_BITS,
                    pass0_sigma_scale: PASS0_SIGMA_BITS,
                    pass2_sigma_scale: PASS2_SIGMA_BITS,
                    border_sad_mul: BORDER_SAD_BITS,
                },
            };
            assert(config.sharp_lut@.len() == 8 && config.channel_scale@.len() == 3);
            Ok((weights, Some(config)))
        },
    }
}

/// The passes of a declared filter: one iteration runs the middle pass alone, a second one adds
/// the last pass behind it and a third one the first pass in front. The first pass has the
/// declared scale of the first pass, or nine tenths; the middle pass has one; the last pass has
/// the declared scale of the last pass, or six and a half. All of them share the declared
/// border factor, or two thirds, and the declared channel scales, or forty, five and three and
/// a half.
pub proof fn law_declared_passes(
    gaborish: GaborishInventory,
    iterations: u32,
    sharp_lut: Option<[u32; 8]>,
    channel_scale: Option<[u32; 3]>,
    sigma: Option<EpfSigmaInventory>,
    restoration: RestorationFilterInventory,
    weights: Option<GaborishWeights>,
    config: EpfConfig,
    passes: Vec<EpfParameters>,
)
    requires
        ({
            let epf = EdgePreservingFilterInventory::Enabled {
                iterations,
                sharp_lut,
                channel_scale,
                sigma,
            };
            restoration == RestorationFilterInventory::Default { epf } || restoration == (
            RestorationFilterInventory::Custom { gaborish, epf })
        }),
        call_ensures(
            restoration_config,
            (restoration,),
            Ok::<(Option<GaborishWeights>, Option<EpfConfig>), RestorationError>(
                (weights, Some(config)),
            ),
        ),
        call_ensures(EpfConfig::passes, (config,), passes),
    ensures
        1 <= iterations <= 3,
        passes@.len() == iterations,
        passes@[if iterations == 3 { 1int } else { 0 }].pass == EpfPass::Pass1,
        iterations >= 2 ==> passes@[iterations - 1].pass == EpfPass::Pass2,
        iterations == 3 ==> passes@[0].pass == EpfPass::Pass0,
        forall|i: int| #![trigger passes@[i]]
            0 <= i < passes@.len() ==> {
                let pass = passes@[i];
                &&& pass.pass == EpfPass::Pass0 ==> pass.sigma_scale == (if sigma is Some {
                    sigma->0.pass0_sigma_scale
                } else {
                    0x3f66_6666
                })
                &&& pass.pass == EpfPass::Pass1 ==> pass.sigma_scale == 0x3f80_0000
                &&& pass.pass == EpfPass::Pass2 ==> pass.sigma_scale == (if sigma is Some {
                    sigma->0.pass2_sigma_scale
                } else {
                    0x40d0_0000
                })
                &&& pass.border_sad_mul == (if sigma is Some {
                    sigma->0.border_sad_mul
                } else {
                    0x3f2a_aaab
                })
                &&& channel_scale is Some ==> pass.channel_scale@ == channel_scale->0@
                &&& channel_scale is None ==> pass.channel_scale@ == seq![
                    0x4220_0000u32,
                    0x40a0_0000,
                    0x4060_0000,
                ]
            },
{
}

/// What a declaration asks for. The default declaration smooths by default, another one as it
/// says. A filter of one to three iterations is taken as it is declared, with a quantization factor
/// of 0.46 and sevenths from zero to one where it leaves them out; one of another number is
/// refused, and without a filter there is none.
pub proof fn law_declared_filters(
    restoration: RestorationFilterInventory,
    r: Result<(Option<GaborishWeights>, Option<EpfConfig>), RestorationError>,
)
    requires
        call_ensures(restoration_config, (restoration,), r),
    ensures
        ({
            let epf = match restoration {
                RestorationFilterInventory::Default { epf } => epf,
                RestorationFilterInventory::Custom { gaborish, epf } => epf,
            };
            &&& r is Ok <==> (epf matches EdgePreservingFilterInventory::Enabled {
                iterations,
                ..
            } ==> 1 <= iterations <= 3)
            &&& r matches Err(RestorationError::InvalidEpfIterations { iterations })
                ==> epf->iterations == iterations
            &&& r matches Ok((weights, config)) ==> {
                &&& config is None <==> epf == EdgePreservingFilterInventory::Disabled
                &&& match restoration {
                    RestorationFilterInventory::Default { .. }
                    | RestorationFilterInventory::Custom {
                        gaborish: GaborishInventory::Default,
                        ..
                    } => weights == Some(GaborishWeights::Default),
                    RestorationFilterInventory::Custom {
                        gaborish: GaborishInventory::Disabled,
                        ..
                    } => weights is None,
                    RestorationFilterInventory::Custom {
                        gaborish: GaborishInventory::Custom { weights: own },
                        ..
                    } => weights == Some(GaborishWeights::Custom { weights: own }),
                }
                &&& config matches Some(config) ==> {
                    &&& config.iterations == epf->iterations
                    &&& epf->sharp_lut matches Some(lut) ==> config.sharp_lut@ == lut@
                    &&& epf->sharp_lut is None ==> config.sharp_lut@ == seq![
                        0u32,
                        0x3e12_4925,
                        0x3e92_4925,
                        0x3edb_6db7,
                        0x3f12_4925,
                        0x3f36_db6e,
                        0x3f5b_6db7,
                        0x3f80_0000,
                    ]
                    &&& epf->sigma matches Some(EpfSigmaInventory { quant_mul: Some(mul), .. })
                        ==> config.quant_mul == mul
                    &&& !(epf->sigma matches Some(EpfSigmaInventory { quant_mul: Some(_), .. }))
                        ==> config.quant_mul == 0x3eeb_851f
                }
            }
        }),
{
}

} // verus!
