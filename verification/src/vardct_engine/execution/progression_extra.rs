//! Extra-channel continuations at the same barriers as color coefficients.

use crate::vardct_engine::execution::progression::{marked, IntermediateFrame};
use crate::vardct_engine::execution::raw_matrix::broken;
use crate::vardct_engine::types::VarDctDecodeError;
use vstd::prelude::*;

verus! {

/// What a schedule submitted last.
#[derive(Clone, Copy, Debug, PartialEq, Eq, Structural)]
pub enum ExtraPhase {
    Coefficients,
    Image,
}

/// A schedule of passes, extra channels and images.
#[derive(Debug, PartialEq, Eq)]
pub struct ExtraProgression {
    /// Images that are still recorded.
    pub recordings: usize,
    /// The next image to submit.
    pub next_image: usize,
    pub phase: ExtraPhase,
    /// Passes that are submitted.
    pub completed: usize,
    pub total: usize,
}

/// Passes that are submitted next, and what follows them.
#[derive(Clone, Copy, Debug, PartialEq, Eq, Structural)]
pub struct CoefficientSubmission {
    pub from: usize,
    pub to: usize,
    /// They are the last ones, and the rest of the frame follows them; otherwise the
    /// coefficient statuses are copied behind them.
    pub is_last: bool,
}

/// The pass that the next submission ends with.
pub open spec fn next_target(frames: Seq<IntermediateFrame>, schedule: ExtraProgression) -> int {
    if schedule.next_image < frames.len() {
        frames[schedule.next_image as int].boundary.completed_passes as int
    } else {
        schedule.total as int
    }
}

/// Why no passes can be submitted.
pub open spec fn coefficients_refusal(
    frames: Seq<IntermediateFrame>,
    schedule: ExtraProgression,
    has_coefficients: bool,
) -> Option<VarDctDecodeError> {
    let target = next_target(frames, schedule);
    if target <= schedule.completed || target > schedule.total {
        Some(broken("invalid progressive extra pass boundary"))
    } else if target != schedule.total && !has_coefficients {
        Some(broken("progressive extra pass has no coefficient status"))
    } else {
        None
    }
}

/// Why the next image cannot be submitted.
pub open spec fn image_refusal(frames: Seq<IntermediateFrame>, schedule: ExtraProgression) -> Option<
    VarDctDecodeError,
> {
    if schedule.next_image >= frames.len() {
        Some(broken("progressive extra image has no admitted snapshot"))
    } else if frames[schedule.next_image as int].boundary.completed_passes
        != schedule.completed {
        Some(broken("progressive extra image disagrees with completed passes"))
    } else if schedule.recordings == 0 {
        Some(broken("progressive extra image lost its recording"))
    } else {
        None
    }
}

/// What follows the extra channels of a pass.
#[derive(Clone, Copy, Debug, PartialEq, Eq, Structural)]
pub enum AfterExtraPass {
    /// The image behind that pass.
    Image { index: usize },
    /// The frame's output.
    Output,
}

/// The first submission of a schedule.
#[derive(Clone, Copy, Debug, PartialEq, Eq, Structural)]
pub enum FirstStep {
    Image { index: usize },
    Coefficients(CoefficientSubmission),
}

impl ExtraProgression {
    /// Submits the passes up to the next image, or all that are left. `windowed` passes are
    /// submitted one at a time.
    pub fn submit_coefficients(
        &mut self,
        frames: &Vec<IntermediateFrame>,
        has_coefficients: bool,
        windowed: bool,
    ) -> (r: Result<CoefficientSubmission, VarDctDecodeError>)
        ensures
            match coefficients_refusal(frames@, *old(self), has_coefficients) {
                Some(error) => r == Err::<CoefficientSubmission, VarDctDecodeError>(error)
                    && *final(self) == *old(self),
                None => if windowed && !has_coefficients {
                    r == Err::<CoefficientSubmission, VarDctDecodeError>(
                        broken("progressive extra pass lost its coefficient buffers"),
                    ) && *final(self) == *old(self)
                } else {
                    &&& r matches Ok(submission) && submission.from == old(self).completed
                        && submission.to == next_target(frames@, *old(self)) && submission.is_last
                        == (submission.to == old(self).total)
                    &&& *final(self) == (ExtraProgression {
                        completed: next_target(frames@, *old(self)) as usize,
                        phase: ExtraPhase::Coefficients,
                        ..*old(self)
                    })
                },
            },
    {
        let target: usize = if self.next_image < frames.len() {
            frames[self.next_image].boundary.completed_passes as usize
        } else {
            self.total
        };
        if target <= self.completed || target > self.total {
            return Err(
                VarDctDecodeError::EngineContract {
                    detail: "invalid progressive extra pass boundary",
                },
            );
        }
        let is_last = target == self.total;
        if !is_last && !has_coefficients {
            return Err(
                VarDctDecodeError::EngineContract {
                    detail: "progressive extra pass has no coefficient status",
                },
            );
        }
        if windowed && !has_coefficients {
            return Err(
                VarDctDecodeError::EngineContract {
                    detail: "progressive extra pass lost its coefficient buffers",
                },
            );
        }
        let from: usize = self.completed;
        self.completed = target;
        self.phase = ExtraPhase::Coefficients;
        Ok(CoefficientSubmission { from, to: target, is_last })
    }

    /// Submits the image behind the completed passes.
    pub fn submit_image(&mut self, frames: &mut Vec<IntermediateFrame>) -> (r: Result<
        usize,
        VarDctDecodeError,
    >)
        ensures
            match image_refusal(old(frames)@, *old(self)) {
                Some(error) => r == Err::<usize, VarDctDecodeError>(error) && *final(self) == *old(
                    self) && final(frames)@ == old(frames)@,
                None => {
                    &&& final(frames)@ == image_marked(old(frames)@, old(self).next_image as int)
                    &&& r == Ok::<usize, VarDctDecodeError>(old(self).next_image)
                    &&& *final(self) == (ExtraProgression {
                        recordings: (old(self).recordings - 1) as usize,
                        next_image: (old(self).next_image + 1) as usize,
                        phase: ExtraPhase::Image,
                        ..*old(self)
                    })
                },
            },
    {
        if self.next_image >= frames.len() {
            return Err(
                VarDctDecodeError::EngineContract {
                    detail: "progressive extra image has no admitted snapshot",
                },
            );
        }
        if frames[self.next_image].boundary.completed_passes as usize != self.completed {
            return Err(
                VarDctDecodeError::EngineContract {
                    detail: "progressive extra image disagrees with completed passes",
                },
            );
        }
        if self.recordings == 0 {
            return Err(
                VarDctDecodeError::EngineContract {
                    detail: "progressive extra image lost its recording",
                },
            );
        }
        let image: usize = self.next_image;
        let frame = frames[image];
        frames.set(
            image,
            IntermediateFrame {
                boundary: frame.boundary,
                status_bytes: frame.status_bytes,
                submitted: true,
            },
        );
        self.recordings = self.recordings - 1;
        self.next_image = self.next_image + 1;
        self.phase = ExtraPhase::Image;
        Ok(image)
    }

    /// What follows the extra channels of a pass: its image, or the frame's output behind the
    /// last one.
    pub fn finish_extra_pass(&mut self, frames: &mut Vec<IntermediateFrame>) -> (r: Result<
        AfterExtraPass,
        VarDctDecodeError,
    >)
        ensures
            if old(self).completed == old(self).total {
                r == Ok::<AfterExtraPass, VarDctDecodeError>(AfterExtraPass::Output)
                    && *final(self) == *old(self) && final(frames)@ == old(frames)@
            } else {
                match image_refusal(old(frames)@, *old(self)) {
                    Some(error) => r == Err::<AfterExtraPass, VarDctDecodeError>(error)
                        && *final(self) == *old(self) && final(frames)@ == old(frames)@,
                    None => {
                        &&& final(frames)@ == image_marked(
                            old(frames)@,
                            old(self).next_image as int,
                        )
                        &&& r == Ok::<AfterExtraPass, VarDctDecodeError>(
                            AfterExtraPass::Image { index: old(self).next_image },
                        )
                        &&& *final(self) == (ExtraProgression {
                            recordings: (old(self).recordings - 1) as usize,
                            next_image: (old(self).next_image + 1) as usize,
                            phase: ExtraPhase::Image,
                            ..*old(self)
                        })
                    },
                }
            },
    {
        if self.completed == self.total {
            return Ok(AfterExtraPass::Output);
        }
        match self.submit_image(frames) {
            Ok(index) => Ok(AfterExtraPass::Image { index }),
            Err(error) => Err(error),
        }
    }
}

/// The images with image `i` submitted.
pub open spec fn image_marked(frames: Seq<IntermediateFrame>, i: int) -> Seq<IntermediateFrame> {
    frames.update(i, marked(frames[i]))
}

/// A schedule that nothing was submitted of.
pub open spec fn fresh_schedule(first: usize, total: usize, recordings: usize) -> ExtraProgression {
    ExtraProgression {
        recordings,
        next_image: first,
        phase: ExtraPhase::Coefficients,
        completed: 0,
        total,
    }
}

/// Installs the schedule of a frame and makes its first submission: the DC image where it was
/// not submitted before, else the first passes.
pub fn start(
    installed: bool,
    frames: &mut Vec<IntermediateFrame>,
    first: usize,
    total: usize,
    recordings: usize,
    has_coefficients: bool,
    windowed: bool,
) -> (r: Result<(ExtraProgression, FirstStep), VarDctDecodeError>)
    ensures
        ({
            let fresh = fresh_schedule(first, total, recordings);
            if installed {
                r == Err::<(ExtraProgression, FirstStep), VarDctDecodeError>(
                    broken("progressive extra schedule was already installed"),
                )
            } else if first == 0 {
                match image_refusal(old(frames)@, fresh) {
                    Some(error) => r == Err::<(ExtraProgression, FirstStep), VarDctDecodeError>(
                        error,
                    ),
                    None => r matches Ok((schedule, step)) && step == (FirstStep::Image {
                        index: 0,
                    }) && schedule == (ExtraProgression {
                        recordings: (recordings - 1) as usize,
                        next_image: 1,
                        phase: ExtraPhase::Image,
                        ..fresh
                    }) && final(frames)@ == image_marked(old(frames)@, 0),
                }
            } else {
                match coefficients_refusal(old(frames)@, fresh, has_coefficients) {
                    Some(error) => r == Err::<(ExtraProgression, FirstStep), VarDctDecodeError>(
                        error,
                    ),
                    None => if windowed && !has_coefficients {
                        r == Err::<(ExtraProgression, FirstStep), VarDctDecodeError>(
                            broken("progressive extra pass lost its coefficient buffers"),
                        )
                    } else {
                        r matches Ok((schedule, step)) && step == FirstStep::Coefficients(
                            CoefficientSubmission {
                                from: 0,
                                to: next_target(old(frames)@, fresh) as usize,
                                is_last: next_target(old(frames)@, fresh) == total,
                            },
                        ) && schedule == (ExtraProgression {
                            completed: next_target(old(frames)@, fresh) as usize,
                            ..fresh
                        })
                    },
                }
            }
        }),
        installed || first != 0 || r is Err ==> final(frames)@ == old(frames)@,
{
    if installed {
        return Err(
            VarDctDecodeError::EngineContract {
                detail: "progressive extra schedule was already installed",
            },
        );
    }
    let mut progress = ExtraProgression {
        recordings,
        next_image: first,
        phase: ExtraPhase::Coefficients,
        completed: 0,
        total,
    };
    if first == 0 {
        match progress.submit_image(frames) {
            Ok(index) => Ok((progress, FirstStep::Image { index })),
            Err(error) => Err(error),
        }
    } else {
        match progress.submit_coefficients(frames, has_coefficients, windowed) {
            Ok(submission) => Ok((progress, FirstStep::Coefficients(submission))),
            Err(error) => Err(error),
        }
    }
}

/// Every submission of passes makes progress and stays inside the frame, and the image that may
/// follow it shows exactly the passes that are complete.
pub proof fn law_images_behind_their_passes(
    frames: Seq<IntermediateFrame>,
    before: ExtraProgression,
    has_coefficients: bool,
    after: ExtraProgression,
)
    requires
        coefficients_refusal(frames, before, has_coefficients) is None,
        after == (ExtraProgression {
            completed: next_target(frames, before) as usize,
            phase: ExtraPhase::Coefficients,
            ..before
        }),
    ensures
        before.completed < after.completed <= after.total,
        after.next_image < frames.len() ==> frames[after.next_image as int].boundary.completed_passes
            == after.completed,
        after.next_image >= frames.len() ==> after.completed == after.total,
        after.next_image < frames.len() && after.recordings > 0 ==> image_refusal(frames, after)
            is None,
{
}

/// Passes are submitted up to the next image, or to the last pass where no image is left; at least one
/// pass more than before and none that the frame does not have. An image is submitted only behind
/// exactly the passes that it shows, with a recording of its own.
pub proof fn law_extra_passes(
    frames: Seq<IntermediateFrame>,
    schedule: ExtraProgression,
    has_coefficients: bool,
)
    ensures
        coefficients_refusal(frames, schedule, has_coefficients) is None ==> {
            let target = if schedule.next_image < frames.len() {
                frames[schedule.next_image as int].boundary.completed_passes as int
            } else {
                schedule.total as int
            };
            &&& next_target(frames, schedule) == target
            &&& schedule.completed < target <= schedule.total
            &&& target < schedule.total ==> has_coefficients
        },
        image_refusal(frames, schedule) is None <==> schedule.next_image < frames.len()
            && frames[schedule.next_image as int].boundary.completed_passes == schedule.completed
            && schedule.recordings > 0,
{
}

} // verus!
