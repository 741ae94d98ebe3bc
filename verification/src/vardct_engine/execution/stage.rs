//! The stages that a submitted frame goes through until its last status is mapped.

use crate::session::{FrameDuration, FrameMetadata, SubmittedGpuFrame};
use crate::vardct_engine::execution::submit::{PacketRoute, Staging};
use crate::vardct_engine::execution::validate::{finish_statuses, statuses_checked, FrameStatuses};
use crate::vardct_engine::source::Packet;
use crate::vardct_engine::types::VarDctDecodeError;
use vstd::prelude::*;

verus! {

/// What a submitted frame waits for.
#[derive(Clone, Copy, Debug, PartialEq, Eq, Structural)]
pub enum PendingStage {
    /// The extra-channel arena, before LF extra channels are decoded.
    LfExtras { post_lf: PostLf },
    /// LF cursors, before HF packets are parsed.
    LocalLf { post_lf: PostLf },
    /// HF-metadata cursors, before the HF-global prefix is parsed.
    HfGlobal,
    /// A window of a raw dequantization matrix.
    RawHfDequant,
    /// Coefficients, before AC extra channels are decoded.
    AcExtra,
    /// A window of a Modular extra channel.
    ModularExtra,
    /// All statuses.
    Final,
}

/// What follows the decoding of LF packets.
#[derive(Clone, Copy, Debug, PartialEq, Eq, Structural)]
pub enum PostLf {
    /// Everything else, recorded already.
    Direct,
    /// The HF-global prefix.
    DeferredHfGlobal,
}

impl PendingStage {
    /// The name of a stage.
    pub fn name(&self) -> (name: &'static str)
        ensures
            name == match *self {
                PendingStage::LfExtras { .. } => "lf-extras",
                PendingStage::LocalLf { .. } => "local-lf",
                PendingStage::HfGlobal => "hf-global",
                PendingStage::RawHfDequant => "raw-hf-dequant",
                PendingStage::AcExtra => "ac-extra",
                PendingStage::ModularExtra => "modular-extra",
                PendingStage::Final => "final",
            },
    {
        match self {
            PendingStage::LfExtras { .. } => "lf-extras",
            PendingStage::LocalLf { .. } => "local-lf",
            PendingStage::HfGlobal => "hf-global",
            PendingStage::RawHfDequant => "raw-hf-dequant",
            PendingStage::AcExtra => "ac-extra",
            PendingStage::ModularExtra => "modular-extra",
            PendingStage::Final => "final",
        }
    }

    /// Every command of the frame is submitted.
    pub fn dependency_submission_ready(&self) -> (r: bool)
        ensures
            r == (*self == PendingStage::Final),
    {
        match self {
            PendingStage::Final => true,
            _ => false,
        }
    }
}

/// The stage behind coefficients.
pub open spec fn after_coefficients(extra_output: bool) -> PendingStage {
    if extra_output {
        PendingStage::AcExtra
    } else {
        PendingStage::Final
    }
}

/// The stage behind coefficients: assembled extra channels, or the last one.
pub fn after_coefficients_stage(extra_output: bool) -> (stage: PendingStage)
    ensures
        stage == after_coefficients(extra_output),
{
    if extra_output {
        PendingStage::AcExtra
    } else {
        PendingStage::Final
    }
}

/// What is submitted first.
#[derive(Clone, Copy, Debug, PartialEq, Eq, Structural)]
pub enum FirstSubmission {
    /// The first window of a raw matrix.
    RawMatrix,
    /// Packet commands alone.
    Packets,
    /// Packet windows and everything behind them.
    PacketsAndDownstream,
    /// One recording of everything.
    Downstream,
}

/// The first submission of a frame and the stage behind it.
#[derive(Clone, Copy, Debug, PartialEq, Eq, Structural)]
pub struct Launch {
    pub submission: FirstSubmission,
    pub stage: PendingStage,
}

/// Packet commands are submitted by themselves.
pub open spec fn separate_packets(route: PacketRoute) -> bool {
    match route {
        PacketRoute::ClearOnly => true,
        PacketRoute::Windowed { staged } => staged,
        PacketRoute::Groups { copy_status, .. } => copy_status,
    }
}

/// The first submission of a frame. `deferred` frames have no recording behind their packets
/// until the HF-global prefix is parsed.
pub open spec fn launch(
    packet: &Packet,
    staging: Staging,
    route: PacketRoute,
    deferred: bool,
    extra_output: bool,
) -> Result<Launch, VarDctDecodeError> {
    if separate_packets(route) {
        let waits = staging.hf_global || packet.pending_raw_matrix;
        if waits && packet.uses_lf_frame && !staging.lf_extras {
            Ok(
                Launch {
                    submission: FirstSubmission::Packets,
                    stage: if deferred {
                        PendingStage::HfGlobal
                    } else {
                        after_coefficients(extra_output)
                    },
                },
            )
        } else if waits && !deferred {
            Err(
                VarDctDecodeError::EngineContract {
                    detail: "regular fused packet has no deferred HF-global commands",
                },
            )
        } else if !waits && deferred {
            Ok(
                Launch {
                    submission: FirstSubmission::Packets,
                    stage: after_coefficients(extra_output),
                },
            )
        } else {
            let post_lf = if waits {
                PostLf::DeferredHfGlobal
            } else {
                PostLf::Direct
            };
            Ok(
                Launch {
                    submission: FirstSubmission::Packets,
                    stage: if staging.lf_extras {
                        PendingStage::LfExtras { post_lf }
                    } else {
                        PendingStage::LocalLf { post_lf }
                    },
                },
            )
        }
    } else if packet.pending_raw_matrix {
        if route is Windowed {
            Err(
                VarDctDecodeError::EntropyWindowContract {
                    detail:
                        "raw HF dequant side images require packet completion before their first window",
                },
            )
        } else if !deferred {
            Err(
                VarDctDecodeError::EngineContract {
                    detail:
                        "raw HF dequant side image unexpectedly has eager downstream commands",
                },
            )
        } else {
            Ok(
                Launch {
                    submission: FirstSubmission::RawMatrix,
                    stage: PendingStage::RawHfDequant,
                },
            )
        }
    } else if route is Windowed {
        if deferred {
            Err(
                VarDctDecodeError::EngineContract {
                    detail: "windowed packet execution is missing downstream commands",
                },
            )
        } else {
            Ok(
                Launch {
                    submission: FirstSubmission::PacketsAndDownstream,
                    stage: after_coefficients(extra_output),
                },
            )
        }
    } else if deferred {
        Err(
            VarDctDecodeError::EngineContract {
                detail: "VarDCT execution is missing downstream commands",
            },
        )
    } else {
        Ok(
            Launch {
                submission: FirstSubmission::Downstream,
                stage: after_coefficients(extra_output),
            },
        )
    }
}

/// The first submission of a frame and the stage behind it.
pub fn plan_launch(
    packet: &Packet,
    staging: Staging,
    route: PacketRoute,
    deferred: bool,
    extra_output: bool,
) -> (r: Result<Launch, VarDctDecodeError>)
    ensures
        r == launch(packet, staging, route, deferred, extra_output),
{
    let separate = match route {
        PacketRoute::ClearOnly => true,
        PacketRoute::Windowed { staged } => staged,
        PacketRoute::Groups { copy_status, .. } => copy_status,
    };
    let windowed = match route {
        PacketRoute::Windowed { .. } => true,
        _ => false,
    };
    let last = after_coefficients_stage(extra_output);
    if separate {
        let waits = staging.hf_global || packet.pending_raw_matrix;
        if waits && packet.uses_lf_frame && !staging.lf_extras {
            let stage = if deferred {
                PendingStage::HfGlobal
            } else {
                last
            };
            return Ok(Launch { submission: FirstSubmission::Packets, stage });
        }
        if waits && !deferred {
            return Err(
                VarDctDecodeError::EngineContract {
                    detail: "regular fused packet has no deferred HF-global commands",
                },
            );
        }
        if !waits && deferred {
            return Ok(Launch { submission: FirstSubmission::Packets, stage: last });
        }
        let post_lf = if waits {
            PostLf::DeferredHfGlobal
        } else {
            PostLf::Direct
        };
        let stage = if staging.lf_extras {
            PendingStage::LfExtras { post_lf }
        } else {
            PendingStage::LocalLf { post_lf }
        };
        return Ok(Launch { submission: FirstSubmission::Packets, stage });
    }
    if packet.pending_raw_matrix {
        if windowed {
            return Err(
                VarDctDecodeError::EntropyWindowContract {
                    detail:
                        "raw HF dequant side images require packet completion before their first window",
                },
            );
        }
        if !deferred {
            return Err(
                VarDctDecodeError::EngineContract {
                    detail:
                        "raw HF dequant side image unexpectedly has eager downstream commands",
                },
            );
        }
        return Ok(
            Launch { submission: FirstSubmission::RawMatrix, stage: PendingStage::RawHfDequant },
        );
    }
    if windowed {
        if deferred {
            return Err(
                VarDctDecodeError::EngineContract {
                    detail: "windowed packet execution is missing downstream commands",
                },
            );
        }
        return Ok(Launch { submission: FirstSubmission::PacketsAndDownstream, stage: last });
    }
    if deferred {
        return Err(
            VarDctDecodeError::EngineContract {
                detail: "VarDCT execution is missing downstream commands",
            },
        );
    }
    Ok(Launch { submission: FirstSubmission::Downstream, stage: last })
}

/// What the first mapping of a frame is called in a failure.
pub open spec fn mapping_name(staging: Staging) -> &'static str {
    if staging.lf_extras {
        "VarDCT LF-extra arena mapping"
    } else if staging.lf {
        "VarDCT LF cursor mapping"
    } else if staging.hf_global {
        "VarDCT HF-global cursor mapping"
    } else {
        "VarDCT validation mapping"
    }
}

/// What the first mapping of a frame is called in a failure.
pub fn mapping_label(staging: Staging) -> (label: &'static str)
    ensures
        label == mapping_name(staging),
{
    if staging.lf_extras {
        "VarDCT LF-extra arena mapping"
    } else if staging.lf {
        "VarDCT LF cursor mapping"
    } else if staging.hf_global {
        "VarDCT HF-global cursor mapping"
    } else {
        "VarDCT validation mapping"
    }
}

/// What a mapped stage is continued with.
#[derive(Clone, Copy, Debug, PartialEq, Eq, Structural)]
pub enum Continuation {
    /// Extra channels of LF groups, from the start of every packet.
    StartLfExtras { post_lf: PostLf },
    /// HF packets, from the cursors of mapped LF statuses.
    SubmitHf { post_lf: PostLf },
    /// The HF-global prefix, from the cursors of mapped HF-metadata statuses.
    SubmitHfGlobal,
    /// The rest of a raw matrix.
    FinishRawMatrix,
    /// AC extra channels, from the cursors of mapped coefficient statuses.
    FinishAcExtra,
    /// The rest of an extra channel.
    FinishExtraSubimage,
}

/// The continuation of a stage; the last stage has none.
pub open spec fn continuation_of(stage: PendingStage) -> Option<Continuation> {
    match stage {
        PendingStage::LfExtras { post_lf } => Some(Continuation::StartLfExtras { post_lf }),
        PendingStage::LocalLf { post_lf } => Some(Continuation::SubmitHf { post_lf }),
        PendingStage::HfGlobal => Some(Continuation::SubmitHfGlobal),
        PendingStage::RawHfDequant => Some(Continuation::FinishRawMatrix),
        PendingStage::AcExtra => Some(Continuation::FinishAcExtra),
        PendingStage::ModularExtra => Some(Continuation::FinishExtraSubimage),
        PendingStage::Final => None,
    }
}

/// A frame between two mappings. A continuation that fails leaves it in the last stage.
#[derive(Clone, Copy, Debug, PartialEq, Eq, Structural)]
pub struct FramePendingFrame {
    pub stage: PendingStage,
    /// The completion of the frame was not taken yet.
    pub alive: bool,
    /// LF planes are retained for later frames.
    pub retains_lf_planes: bool,
}

impl FramePendingFrame {
    /// Takes what the current stage is continued with, leaving the last stage behind.
    pub fn take_staged_packet(&mut self) -> (r: Option<Continuation>)
        ensures
            r == continuation_of(old(self).stage),
            *final(self) == (FramePendingFrame { stage: PendingStage::Final, ..*old(self) }),
    {
        let stage = self.stage;
        self.stage = PendingStage::Final;
        match stage {
            PendingStage::LfExtras { post_lf } => Some(Continuation::StartLfExtras { post_lf }),
            PendingStage::LocalLf { post_lf } => Some(Continuation::SubmitHf { post_lf }),
            PendingStage::HfGlobal => Some(Continuation::SubmitHfGlobal),
            PendingStage::RawHfDequant => Some(Continuation::FinishRawMatrix),
            PendingStage::AcExtra => Some(Continuation::FinishAcExtra),
            PendingStage::ModularExtra => Some(Continuation::FinishExtraSubimage),
            PendingStage::Final => None,
        }
    }

    /// The stage that a continuation submitted.
    pub fn enter(&mut self, stage: PendingStage)
        ensures
            *final(self) == (FramePendingFrame { stage, ..*old(self) }),
    {
        self.stage = stage;
    }

    /// One step of waiting until every command is submitted: done, or the continuation to run.
    /// A step without either would never end.
    pub fn next_dependency(&mut self) -> (r: Result<Option<Continuation>, VarDctDecodeError>)
        ensures
            old(self).stage == PendingStage::Final ==> r == Ok::<
                Option<Continuation>,
                VarDctDecodeError,
            >(None) && *final(self) == *old(self),
            old(self).stage != PendingStage::Final ==> r == Ok::<
                Option<Continuation>,
                VarDctDecodeError,
            >(continuation_of(old(self).stage)) && continuation_of(old(self).stage) is Some
                && *final(self) == (FramePendingFrame { stage: PendingStage::Final, ..*old(self) }),
    {
        if self.stage.dependency_submission_ready() {
            return Ok(None);
        }
        match self.take_staged_packet() {
            Some(continuation) => Ok(Some(continuation)),
            None => Err(
                VarDctDecodeError::EngineContract {
                    detail: "VarDCT dependency stage made no progress",
                },
            ),
        }
    }

    /// Takes the completion of a frame, once, and accepts its statuses. A frame is a still image
    /// of its own.
    pub fn finish<F>(&mut self, statuses: &FrameStatuses, name: String, output: F) -> (r: Result<
        SubmittedGpuFrame<F>,
        VarDctDecodeError,
    >)
        requires
            statuses.wf(),
        ensures
            *final(self) == (FramePendingFrame { alive: false, ..*old(self) }),
            if !old(self).alive {
                r == Err::<SubmittedGpuFrame<F>, VarDctDecodeError>(
                    VarDctDecodeError::CompletionConsumed,
                )
            } else {
                match r {
                    Err(error) => statuses_checked(*statuses, None, Err(error)),
                    Ok(frame) => statuses_checked(*statuses, None, Ok(())) && frame.output
                        == output && frame.metadata == still_metadata(name),
                }
            },
    {
        let alive = self.alive;
        self.alive = false;
        if !alive {
            return Err(VarDctDecodeError::CompletionConsumed);
        }
        match finish_statuses(statuses, None) {
            Ok(_) => Ok(SubmittedGpuFrame::new(FrameMetadata::still(name), output)),
            Err(error) => Err(error),
        }
    }

    /// Whether the output may be used before its statuses are validated.
    pub fn unvalidated_gpu_frame(&self) -> (r: Result<(), VarDctDecodeError>)
        ensures
            r == if self.stage != PendingStage::Final {
                Err::<(), VarDctDecodeError>(VarDctDecodeError::UnvalidatedOutputNotSubmitted)
            } else if !self.alive {
                Err::<(), VarDctDecodeError>(VarDctDecodeError::CompletionConsumed)
            } else {
                Ok(())
            },
    {
        if !self.stage.dependency_submission_ready() {
            return Err(VarDctDecodeError::UnvalidatedOutputNotSubmitted);
        }
        if !self.alive {
            return Err(VarDctDecodeError::CompletionConsumed);
        }
        Ok(())
    }

    /// Whether LF planes may be used by a later frame.
    pub fn progressive_dc_planes(&self) -> (r: Result<(), VarDctDecodeError>)
        ensures
            r == if self.stage != PendingStage::Final {
                Err::<(), VarDctDecodeError>(VarDctDecodeError::UnvalidatedOutputNotSubmitted)
            } else if !self.alive {
                Err::<(), VarDctDecodeError>(VarDctDecodeError::CompletionConsumed)
            } else if !self.retains_lf_planes {
                Err::<(), VarDctDecodeError>(VarDctDecodeError::UnvalidatedOutputNotSubmitted)
            } else {
                Ok(())
            },
    {
        match self.unvalidated_gpu_frame() {
            Ok(_) => {},
            Err(error) => {
                return Err(error);
            },
        }
        if !self.retains_lf_planes {
            return Err(VarDctDecodeError::UnvalidatedOutputNotSubmitted);
        }
        Ok(())
    }
}

/// Identity and timing of the one presentation of a still image.
pub open spec fn still_metadata(name: String) -> FrameMetadata {
    FrameMetadata {
        index: 0,
        duration: FrameDuration { ticks: 0, timebase: None },
        presentation_ticks: 0,
        timecode: None,
        is_last: true,
        is_keyframe: true,
        name,
    }
}

/// A frame waits for a raw matrix exactly where one was submitted first, a frame whose commands
/// were all submitted at once waits for what follows its coefficients, and only the last stage
/// has no continuation.
pub proof fn law_launched_stage(
    packet: &Packet,
    staging: Staging,
    route: PacketRoute,
    deferred: bool,
    extra_output: bool,
)
    requires
        launch(packet, staging, route, deferred, extra_output) is Ok,
    ensures
        ({
            let l = launch(packet, staging, route, deferred, extra_output)->Ok_0;
            &&& l.submission == FirstSubmission::RawMatrix <==> l.stage
                == PendingStage::RawHfDequant
            &&& l.submission == FirstSubmission::PacketsAndDownstream || l.submission
                == FirstSubmission::Downstream ==> l.stage == after_coefficients(extra_output)
            &&& continuation_of(l.stage) is None <==> l.stage == PendingStage::Final
        }),
{
}

} // verus!
