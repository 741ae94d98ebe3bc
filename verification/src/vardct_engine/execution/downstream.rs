//! What follows the packets of a frame: coefficients, whole or in windows, and the image.

use crate::vardct_engine::execution::packet::window_broken;
use crate::vardct_engine::types::VarDctDecodeError;
use vstd::prelude::*;

verus! {

/// Sizes of a coefficient plan.
#[derive(Debug)]
pub struct HfJobPlan {
    pub windowed: bool,
    pub entropy_bytes: u64,
    pub order_bytes: u64,
    pub stream_window_bytes: u64,
    pub reusable_params_bytes: u64,
    pub groups: Vec<HfJobGroup>,
}

/// Sizes of one LF group's coefficient decoder.
#[derive(Clone, Copy, Debug, PartialEq, Eq, Structural)]
pub struct HfJobGroup {
    pub params_bytes: u64,
    pub status_bytes: u64,
}

/// Buffers of one LF group's coefficient decoder.
#[derive(Clone, Copy, Debug, PartialEq, Eq)]
pub struct HfCoefficientGroupJobBuffers {
    pub params: Option<u64>,
    pub status: u64,
}

/// Buffers of a frame's coefficient decoders.
#[derive(Debug)]
pub struct HfCoefficientJobBuffers {
    pub entropy_bundle: u64,
    pub order_table: u64,
    pub stream_window: Option<u64>,
    pub params_window: Option<u64>,
    pub groups: Vec<HfCoefficientGroupJobBuffers>,
}

/// A buffer that is there or not.
pub open spec fn only_if(there: bool, bytes: u64) -> Option<u64> {
    if there {
        Some(bytes)
    } else {
        None
    }
}

fn when(there: bool, bytes: u64) -> (buffer: Option<u64>)
    ensures
        buffer == only_if(there, bytes),
{
    if there {
        Some(bytes)
    } else {
        None
    }
}

/// Sizes of all coefficient buffers. Windows share one reusable upload of stream and parameters;
/// whole ranges keep the parameters of each group.
pub fn create_hf_coefficient_job_buffers(plan: &HfJobPlan) -> (buffers: HfCoefficientJobBuffers)
    ensures
        buffers.entropy_bundle == plan.entropy_bytes,
        buffers.order_table == plan.order_bytes,
        buffers.stream_window == only_if(plan.windowed, plan.stream_window_bytes),
        buffers.params_window == only_if(plan.windowed, plan.reusable_params_bytes),
        buffers.groups@.len() == plan.groups@.len(),
        forall|i: int|
            0 <= i < buffers.groups@.len() ==> #[trigger] buffers.groups@[i] == (
            HfCoefficientGroupJobBuffers {
                params: only_if(!plan.windowed, plan.groups@[i].params_bytes),
                status: plan.groups@[i].status_bytes,
            }),
{
    let mut groups: Vec<HfCoefficientGroupJobBuffers> = Vec::new();
    let mut i: usize = 0;
    while i < plan.groups.len()
        invariant
            i <= plan.groups@.len(),
            groups@.len() == i,
            forall|k: int|
                0 <= k < i ==> #[trigger] groups@[k] == (HfCoefficientGroupJobBuffers {
                    params: only_if(!plan.windowed, plan.groups@[k].params_bytes),
                    status: plan.groups@[k].status_bytes,
                }),
        decreases plan.groups@.len() - i,
    {
        let group = plan.groups[i];
        groups.push(
            HfCoefficientGroupJobBuffers {
                params: when(!plan.windowed, group.params_bytes),
                status: group.status_bytes,
            },
        );
        i = i + 1;
    }
    HfCoefficientJobBuffers {
        entropy_bundle: plan.entropy_bytes,
        order_table: plan.order_bytes,
        stream_window: when(plan.windowed, plan.stream_window_bytes),
        params_window: when(plan.windowed, plan.reusable_params_bytes),
        groups,
    }
}

/// What follows the packets of a frame.
#[derive(Clone, Copy, Debug, PartialEq, Eq, Structural)]
pub enum VarDctDownstreamCommands {
    /// One recording.
    Whole,
    /// A recording in front of the coefficient batches and one behind them.
    Windowed { batches: usize },
}

/// One submission behind the packets.
#[derive(Clone, Copy, Debug, PartialEq, Eq, Structural)]
pub enum DownstreamSubmission {
    /// The recorded prefix and everything behind it.
    Everything,
    /// The recorded prefix and what precedes the coefficients.
    BeforeCoefficients,
    /// One batch of coefficient streams.
    Batch { index: usize },
    /// What follows the coefficients.
    AfterCoefficients,
}

/// Submission `i` of windowed coefficients.
pub open spec fn windowed_submission(batches: usize, i: int) -> DownstreamSubmission {
    if i == 0 {
        DownstreamSubmission::BeforeCoefficients
    } else if i <= batches {
        DownstreamSubmission::Batch { index: (i - 1) as usize }
    } else {
        DownstreamSubmission::AfterCoefficients
    }
}

/// Submissions behind the packets of a frame.
pub open spec fn submission_count(downstream: VarDctDownstreamCommands) -> int {
    match downstream {
        VarDctDownstreamCommands::Whole => 1,
        VarDctDownstreamCommands::Windowed { batches } => batches + 2,
    }
}

/// Why windowed coefficients cannot be submitted. The recording in front of them is submitted
/// already.
pub open spec fn downstream_refusal(
    downstream: VarDctDownstreamCommands,
    buffers: Option<HfCoefficientJobBuffers>,
) -> Option<VarDctDecodeError> {
    match downstream {
        VarDctDownstreamCommands::Whole => None,
        VarDctDownstreamCommands::Windowed { .. } => match buffers {
            None => window_broken("windowed AC commands have no retained coefficient buffers"),
            Some(buffers) => if buffers.stream_window is None {
                window_broken("windowed AC commands have no stream upload")
            } else if buffers.params_window is None {
                window_broken("windowed AC commands have no parameter upload")
            } else {
                None
            },
        },
    }
}

/// The submissions behind the packets of a frame, in order.
pub fn submit_vardct_downstream(
    downstream: VarDctDownstreamCommands,
    buffers: &Option<HfCoefficientJobBuffers>,
) -> (r: Result<Vec<DownstreamSubmission>, VarDctDecodeError>)
    requires
        submission_count(downstream) <= usize::MAX,
    ensures
        match downstream_refusal(downstream, *buffers) {
            Some(error) => r == Err::<Vec<DownstreamSubmission>, VarDctDecodeError>(error),
            None => r matches Ok(submissions) && match downstream {
                VarDctDownstreamCommands::Whole => submissions@ == seq![
                    DownstreamSubmission::Everything,
                ],
                VarDctDownstreamCommands::Windowed { batches } => submissions@.len() == batches + 2
                    && forall|i: int|
                    0 <= i < submissions@.len() ==> #[trigger] submissions@[i]
                        == windowed_submission(batches, i),
            },
        },
{
    let batches: usize = match downstream {
        VarDctDownstreamCommands::Whole => {
            let submissions = vec![DownstreamSubmission::Everything];
            assert(submissions@ =~= seq![DownstreamSubmission::Everything]);
            return Ok(submissions);
        },
        VarDctDownstreamCommands::Windowed { batches } => batches,
    };
    match buffers {
        None => {
            return Err(
                VarDctDecodeError::EntropyWindowContract {
                    detail: "windowed AC commands have no retained coefficient buffers",
                },
            );
        },
        Some(buffers) => {
            if buffers.stream_window.is_none() {
                return Err(
                    VarDctDecodeError::EntropyWindowContract {
                        detail: "windowed AC commands have no stream upload",
                    },
                );
            }
            if buffers.params_window.is_none() {
                return Err(
                    VarDctDecodeError::EntropyWindowContract {
                        detail: "windowed AC commands have no parameter upload",
                    },
                );
            }
        },
    }
    let mut submissions: Vec<DownstreamSubmission> = Vec::new();
    submissions.push(DownstreamSubmission::BeforeCoefficients);
    let mut i: usize = 0;
    while i < batches
        invariant
            i <= batches,
            submissions@.len() == i + 1,
            forall|k: int|
                0 <= k < submissions@.len() ==> #[trigger] submissions@[k] == windowed_submission(
                    batches,
                    k,
                ),
        decreases batches - i,
    {
        submissions.push(DownstreamSubmission::Batch { index: i });
        i = i + 1;
    }
    submissions.push(DownstreamSubmission::AfterCoefficients);
    Ok(submissions)
}

} // verus!
