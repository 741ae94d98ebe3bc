//! Image-wide coefficient passes, whole or in bounded stream windows.

use crate::vardct_engine::execution::packet::window_broken;
use crate::vardct_engine::types::VarDctDecodeError;
use vstd::prelude::*;

verus! {

/// Coefficient streams of one LF group.
#[derive(Debug)]
pub struct HfGroupPasses {
    /// Streams of each pass.
    pub streams: Vec<usize>,
    /// Streams of each batch of each pass, where windows are bounded.
    pub batches: Vec<Vec<usize>>,
}

/// Why a whole pass cannot be encoded, from group `i` on.
pub open spec fn pass_refusal(
    groups: Seq<HfGroupPasses>,
    params: Seq<Option<usize>>,
    pass: usize,
    i: int,
) -> Option<VarDctDecodeError>
    decreases groups.len() - i,
{
    if i < 0 || i >= groups.len() {
        None
    } else if pass >= groups[i].streams@.len() {
        window_broken("HF coefficient group has no requested pass")
    } else if !(params[i] matches Some(buffers) && pass < buffers) {
        window_broken("whole-range HF pass has no parameter buffer")
    } else if groups[i].streams@[pass as int] > u32::MAX {
        Some(VarDctDecodeError::ArithmeticOverflow { field: "HF pass dispatch count" })
    } else {
        pass_refusal(groups, params, pass, i + 1)
    }
}

/// Why a whole pass cannot be encoded.
pub open spec fn encode_refusal(
    groups: Seq<HfGroupPasses>,
    params: Seq<Option<usize>>,
    buffers: int,
    pass: usize,
) -> Option<VarDctDecodeError> {
    if groups.len() != params.len() || groups.len() != buffers {
        window_broken("HF pass has inconsistent LF-group resources")
    } else {
        pass_refusal(groups, params, pass, 0)
    }
}

/// Dispatches of one image-wide accumulation stage, one for each LF group. `params` counts the
/// parameter buffers of each group, where it has any.
pub fn encode_hf_pass(
    groups: &Vec<HfGroupPasses>,
    params: &Vec<Option<usize>>,
    buffers: usize,
    pass: usize,
) -> (r: Result<Vec<u32>, VarDctDecodeError>)
    ensures
        match encode_refusal(groups@, params@, buffers as int, pass) {
            Some(error) => r == Err::<Vec<u32>, VarDctDecodeError>(error),
            None => r matches Ok(dispatches) && dispatches@.len() == groups@.len() && forall|i: int|
                0 <= i < groups@.len() ==> #[trigger] dispatches@[i]
                    == groups@[i].streams@[pass as int],
        },
{
    if groups.len() != params.len() || groups.len() != buffers {
        return Err(
            VarDctDecodeError::EntropyWindowContract {
                detail: "HF pass has inconsistent LF-group resources",
            },
        );
    }
    let mut dispatches: Vec<u32> = Vec::new();
    let mut i: usize = 0;
    while i < groups.len()
        invariant
            i <= groups@.len() == params@.len(),
            groups@.len() == buffers,
            dispatches@.len() == i,
            forall|k: int|
                0 <= k < i ==> #[trigger] dispatches@[k] == groups@[k].streams@[pass as int],
            pass_refusal(groups@, params@, pass, 0) == pass_refusal(
                groups@,
                params@,
                pass,
                i as int,
            ),
        decreases groups@.len() - i,
    {
        if pass >= groups[i].streams.len() {
            return Err(
                VarDctDecodeError::EntropyWindowContract {
                    detail: "HF coefficient group has no requested pass",
                },
            );
        }
        let has_params = match params[i] {
            Some(buffers) => pass < buffers,
            None => false,
        };
        if !has_params {
            return Err(
                VarDctDecodeError::EntropyWindowContract {
                    detail: "whole-range HF pass has no parameter buffer",
                },
            );
        }
        let streams: usize = groups[i].streams[pass];
        if streams > u32::MAX as usize {
            return Err(
                VarDctDecodeError::ArithmeticOverflow { field: "HF pass dispatch count" },
            );
        }
        dispatches.push(streams as u32);
        i = i + 1;
    }
    Ok(dispatches)
}

/// One LF group whose coefficient streams are decoded by a single dispatch.
#[derive(Clone, Copy, Debug, PartialEq, Eq, Structural)]
pub struct WholeRangeGroup {
    pub has_params: bool,
    pub streams: usize,
}

/// Why group `i` or one behind it cannot be decoded by a single dispatch.
pub open spec fn whole_range_refusal(groups: Seq<WholeRangeGroup>, i: int) -> Option<
    VarDctDecodeError,
>
    decreases groups.len() - i,
{
    if i < 0 || i >= groups.len() {
        None
    } else if !groups[i].has_params {
        window_broken("whole-range AC plan has no parameter buffer")
    } else if groups[i].streams > u32::MAX {
        Some(
            VarDctDecodeError::ArithmeticOverflow { field: "LF-group HF pass-group dispatch count" },
        )
    } else {
        whole_range_refusal(groups, i + 1)
    }
}

/// Dispatches that decode all coefficient streams of a frame, one for each LF group.
pub fn whole_range_dispatches(groups: &Vec<WholeRangeGroup>) -> (r: Result<
    Vec<u32>,
    VarDctDecodeError,
>)
    ensures
        match whole_range_refusal(groups@, 0) {
            Some(error) => r == Err::<Vec<u32>, VarDctDecodeError>(error),
            None => r matches Ok(dispatches) && dispatches@.len() == groups@.len() && forall|i: int|
                0 <= i < groups@.len() ==> #[trigger] dispatches@[i] == groups@[i].streams,
        },
{
    let mut dispatches: Vec<u32> = Vec::new();
    let mut i: usize = 0;
    while i < groups.len()
        invariant
            i <= groups@.len(),
            dispatches@.len() == i,
            forall|k: int| 0 <= k < i ==> #[trigger] dispatches@[k] == groups@[k].streams,
            whole_range_refusal(groups@, 0) == whole_range_refusal(groups@, i as int),
        decreases groups@.len() - i,
    {
        let group = groups[i];
        if !group.has_params {
            return Err(
                VarDctDecodeError::EntropyWindowContract {
                    detail: "whole-range AC plan has no parameter buffer",
                },
            );
        }
        if group.streams > u32::MAX as usize {
            return Err(
                VarDctDecodeError::ArithmeticOverflow {
                    field: "LF-group HF pass-group dispatch count",
                },
            );
        }
        dispatches.push(group.streams as u32);
        i = i + 1;
    }
    Ok(dispatches)
}

/// One batch of coefficient streams as it is submitted.
#[derive(Clone, Copy, Debug, PartialEq, Eq, Structural)]
pub struct HfBatch {
    pub group: usize,
    pub batch: usize,
    /// Streams that are decoded at once.
    pub dispatch: u32,
}

/// The first `n` batches of a group, of these many streams.
pub open spec fn group_batches(group: int, streams: Seq<usize>, n: int) -> Seq<HfBatch> {
    Seq::new(
        n as nat,
        |i: int| HfBatch { group: group as usize, batch: i as usize, dispatch: streams[i] as u32 },
    )
}

/// Stream batches of one pass in the first `n` groups, in order.
pub open spec fn pass_batches(groups: Seq<HfGroupPasses>, pass: int, n: int) -> Seq<HfBatch>
    decreases n,
{
    if n <= 0 {
        Seq::empty()
    } else {
        let streams = groups[n - 1].batches@[pass]@;
        pass_batches(groups, pass, n - 1) + group_batches(n - 1, streams, streams.len() as int)
    }
}

/// Stream batches of the first `passes` passes, in order.
pub open spec fn all_batches(groups: Seq<HfGroupPasses>, passes: int) -> Seq<HfBatch>
    decreases passes,
{
    if passes <= 0 {
        Seq::empty()
    } else {
        all_batches(groups, passes - 1) + pass_batches(groups, passes - 1, groups.len() as int)
    }
}

/// Per-group parameter snapshots and immutable stream geometry. Work for each window is created
/// only when it is submitted.
#[derive(Debug)]
pub struct HfCoefficientWindowCommands {
    pub groups: Vec<HfGroupPasses>,
    pub stream_bytes: usize,
    pub max_group_count: usize,
    pub batch_count: usize,
    pub passes: usize,
}

/// Stream geometry of a windowed plan.
#[derive(Clone, Copy, Debug)]
pub struct HfWindowFacts {
    pub stream_window_bytes: u64,
    pub batch_count: usize,
    /// The most streams that share a batch.
    pub max_group_count: usize,
    pub passes: usize,
}

/// Why a windowed plan cannot be executed.
pub open spec fn prepare_refusal(facts: HfWindowFacts) -> Option<VarDctDecodeError> {
    if facts.stream_window_bytes > usize::MAX {
        Some(VarDctDecodeError::ArithmeticOverflow { field: "HF stream window host length" })
    } else if facts.batch_count == 0 || facts.max_group_count == 0 {
        window_broken("windowed HF coefficient plan has no batches")
    } else if facts.max_group_count > u32::MAX {
        Some(VarDctDecodeError::ArithmeticOverflow { field: "HF stream batch dispatch count" })
    } else {
        None
    }
}

/// Refuses a windowed plan that cannot be executed.
pub fn check_hf_windows(facts: HfWindowFacts) -> (r: Result<(), VarDctDecodeError>)
    ensures
        match prepare_refusal(facts) {
            Some(error) => r == Err::<(), VarDctDecodeError>(error),
            None => r is Ok,
        },
{
    if facts.stream_window_bytes > usize::MAX as u64 {
        return Err(
            VarDctDecodeError::ArithmeticOverflow { field: "HF stream window host length" },
        );
    }
    if facts.batch_count == 0 || facts.max_group_count == 0 {
        return Err(
            VarDctDecodeError::EntropyWindowContract {
                detail: "windowed HF coefficient plan has no batches",
            },
        );
    }
    if facts.max_group_count > u32::MAX as usize {
        return Err(
            VarDctDecodeError::ArithmeticOverflow { field: "HF stream batch dispatch count" },
        );
    }
    Ok(())
}

/// Prepares a windowed plan.
pub fn prepare_hf_windows(groups: Vec<HfGroupPasses>, facts: HfWindowFacts) -> (r: Result<
    HfCoefficientWindowCommands,
    VarDctDecodeError,
>)
    ensures
        match prepare_refusal(facts) {
            Some(error) => r == Err::<HfCoefficientWindowCommands, VarDctDecodeError>(error),
            None => r == Ok::<HfCoefficientWindowCommands, VarDctDecodeError>(
                HfCoefficientWindowCommands {
                    groups,
                    stream_bytes: facts.stream_window_bytes as usize,
                    max_group_count: facts.max_group_count,
                    batch_count: facts.batch_count,
                    passes: facts.passes,
                },
            ),
        },
{
    match check_hf_windows(facts) {
        Ok(_) => {},
        Err(error) => {
            return Err(error);
        },
    }
    Ok(
        HfCoefficientWindowCommands {
            groups,
            stream_bytes: facts.stream_window_bytes as usize,
            max_group_count: facts.max_group_count,
            batch_count: facts.batch_count,
            passes: facts.passes,
        },
    )
}

/// What a device holds for windowed coefficients.
#[derive(Clone, Copy, Debug)]
pub struct HfWindowResources {
    pub has_stream: bool,
    pub has_params: bool,
    /// Groups with reconstruction buffers.
    pub groups: usize,
    /// Groups with status buffers.
    pub status_groups: usize,
}

/// Why a pass cannot be submitted in windows, from group `i` on.
pub open spec fn window_pass_refusal(
    groups: Seq<HfGroupPasses>,
    resources: HfWindowResources,
    pass: usize,
    i: int,
) -> Option<VarDctDecodeError>
    decreases groups.len() - i,
{
    if i < 0 || i >= groups.len() {
        None
    } else if i >= resources.groups {
        window_broken("HF coefficient batch has no GPU group")
    } else if i >= resources.status_groups {
        window_broken("HF coefficient batch has no status group")
    } else if pass >= groups[i].batches@.len() {
        window_broken("HF coefficient group has no requested pass")
    } else {
        window_pass_refusal(groups, resources, pass, i + 1)
    }
}

/// Why a pass cannot be submitted in windows.
pub open spec fn submit_pass_refusal(
    groups: Seq<HfGroupPasses>,
    resources: HfWindowResources,
    pass: usize,
) -> Option<VarDctDecodeError> {
    if !resources.has_stream {
        window_broken("HF batch has no stream upload")
    } else if !resources.has_params {
        window_broken("HF batch has no parameter upload")
    } else {
        window_pass_refusal(groups, resources, pass, 0)
    }
}

impl HfCoefficientWindowCommands {
    /// No batch has more streams than the largest one.
    pub open spec fn wf(&self) -> bool {
        &&& self.max_group_count <= u32::MAX
        &&& forall|g: int, p: int, b: int|
            0 <= g < self.groups@.len() && 0 <= p < self.groups@[g].batches@.len() && 0 <= b
                < self.groups@[g].batches@[p]@.len() ==> #[trigger] self.groups@[g].batches@[p]@[b]
                <= self.max_group_count
    }

    pub fn pass_count(&self) -> (passes: usize)
        ensures
            passes == self.passes,
    {
        self.passes
    }

    /// Submissions of one pass: every batch of every LF group, in order. Later passes run only
    /// behind all of them.
    pub fn submit_pass(&self, resources: HfWindowResources, pass: usize) -> (r: Result<
        Vec<HfBatch>,
        VarDctDecodeError,
    >)
        requires
            self.wf(),
        ensures
            match submit_pass_refusal(self.groups@, resources, pass) {
                Some(error) => r == Err::<Vec<HfBatch>, VarDctDecodeError>(error),
                None => r matches Ok(batches) && batches@ == pass_batches(
                    self.groups@,
                    pass as int,
                    self.groups@.len() as int,
                ),
            },
    {
        if !resources.has_stream {
            return Err(
                VarDctDecodeError::EntropyWindowContract { detail: "HF batch has no stream upload" },
            );
        }
        if !resources.has_params {
            return Err(
                VarDctDecodeError::EntropyWindowContract {
                    detail: "HF batch has no parameter upload",
                },
            );
        }
        let mut batches: Vec<HfBatch> = Vec::new();
        let mut i: usize = 0;
        while i < self.groups.len()
            invariant
                self.wf(),
                i <= self.groups@.len(),
                resources.has_stream,
                resources.has_params,
                batches@ == pass_batches(self.groups@, pass as int, i as int),
                window_pass_refusal(self.groups@, resources, pass, 0) == window_pass_refusal(
                    self.groups@,
                    resources,
                    pass,
                    i as int,
                ),
            decreases self.groups@.len() - i,
        {
            if i >= resources.groups {
                return Err(
                    VarDctDecodeError::EntropyWindowContract {
                        detail: "HF coefficient batch has no GPU group",
                    },
                );
            }
            if i >= resources.status_groups {
                return Err(
                    VarDctDecodeError::EntropyWindowContract {
                        detail: "HF coefficient batch has no status group",
                    },
                );
            }
            if pass >= self.groups[i].batches.len() {
                return Err(
                    VarDctDecodeError::EntropyWindowContract {
                        detail: "HF coefficient group has no requested pass",
                    },
                );
            }
            let streams = &self.groups[i].batches[pass];
            let ghost before = batches@;
            let mut batch: usize = 0;
            assert(batches@ =~= before + group_batches(i as int, streams@, 0));
            while batch < streams.len()
                invariant
                    self.wf(),
                    i < self.groups@.len(),
                    pass < self.groups@[i as int].batches@.len(),
                    *streams == self.groups@[i as int].batches@[pass as int],
                    batch <= streams@.len(),
                    batches@ == before + group_batches(i as int, streams@, batch as int),
                decreases streams@.len() - batch,
            {
                assert(self.groups@[i as int].batches@[pass as int]@[batch as int]
                    <= self.max_group_count);
                batches.push(HfBatch { group: i, batch, dispatch: streams[batch] as u32 });
                batch = batch + 1;
                assert(batches@ =~= before + group_batches(i as int, streams@, batch as int));
            }
            i = i + 1;
        }
        Ok(batches)
    }

    /// Submissions of all passes, in order: every batch of the plan, once.
    pub fn submit(&self, resources: HfWindowResources) -> (r: Result<
        Vec<HfBatch>,
        VarDctDecodeError,
    >)
        requires
            self.wf(),
        ensures
            match passes_refusal(self.groups@, resources, self.passes as int) {
                Some(error) => r == Err::<Vec<HfBatch>, VarDctDecodeError>(error),
                None => r matches Ok(batches) && batches@ == all_batches(
                    self.groups@,
                    self.passes as int,
                ),
            },
    {
        let mut submitted: Vec<HfBatch> = Vec::new();
        let mut pass: usize = 0;
        while pass < self.passes
            invariant
                self.wf(),
                pass <= self.passes,
                submitted@ == all_batches(self.groups@, pass as int),
                passes_refusal(self.groups@, resources, pass as int) is None,
            decreases self.passes - pass,
        {
            proof {
                if passes_refusal(self.groups@, resources, pass + 1) is Some {
                    lemma_passes_refused(self.groups@, resources, pass + 1, self.passes as int);
                }
            }
            match self.submit_pass(resources, pass) {
                Ok(mut batches) => {
                    submitted.append(&mut batches);
                },
                Err(error) => {
                    return Err(error);
                },
            }
            pass = pass + 1;
        }
        Ok(submitted)
    }
}

/// The first refusal of the first `n` passes.
pub open spec fn passes_refusal(groups: Seq<HfGroupPasses>, resources: HfWindowResources, n: int) -> Option<
    VarDctDecodeError,
>
    decreases n,
{
    if n <= 0 {
        None
    } else {
        match passes_refusal(groups, resources, n - 1) {
            Some(error) => Some(error),
            None => submit_pass_refusal(groups, resources, (n - 1) as usize),
        }
    }
}

/// A refusal among the first passes is one of all.
proof fn lemma_passes_refused(
    groups: Seq<HfGroupPasses>,
    resources: HfWindowResources,
    n: int,
    all: int,
)
    requires
        0 <= n <= all,
        passes_refusal(groups, resources, n) is Some,
    ensures
        passes_refusal(groups, resources, all) == passes_refusal(groups, resources, n),
    decreases all - n,
{
    if n < all {
        lemma_passes_refused(groups, resources, n, all - 1);
    }
}

} // verus!
