//! Dispatches of one scan: counting, emission and packing.

use crate::arith::{
    ceil_div, div_ceil_u32, div_ceil_u64, least, lemma_ceil_div, min_u64, round_up_4,
};
use crate::vardct_engine::jpeg_output::gpu::{buffer_bytes, word};
use crate::vardct_engine::jpeg_output::scan_plan::PlannedScan;
use crate::vardct_engine::jpeg_output::{
    check, storage_bytes, JpegReconstructionError, JpegReconstructionLimits,
};
use vstd::prelude::*;

verus! {

/// One dispatch: the entry point, its parameters and its workgroups.
#[derive(Clone, Copy, Debug, PartialEq, Eq)]
pub struct Step {
    pub phase: usize,
    pub words: [u32; 4],
    pub groups: u32,
}

/// The numbers of a [`Step`].
pub ghost struct StepView {
    pub phase: int,
    pub words: (int, int, int, int),
    pub groups: int,
}

impl View for Step {
    type V = StepView;

    open spec fn view(&self) -> StepView {
        StepView {
            phase: self.phase as int,
            words: (
                self.words[0] as int,
                self.words[1] as int,
                self.words[2] as int,
                self.words[3] as int,
            ),
            groups: self.groups as int,
        }
    }
}

/// The numbers of a list of dispatches.
pub open spec fn step_views(steps: Seq<Step>) -> Seq<StepView> {
    steps.map_values(|s: Step| s@)
}

/// A dispatch without parameters.
pub open spec fn plain_step(phase: int, groups: int) -> StepView {
    StepView { phase, words: (0, 0, 0, 0), groups }
}

/// Words that the levels of a prefix scan over `count` values keep: two for each group of 64.
pub open spec fn scratch_size(count: int) -> int
    decreases count,
{
    let groups = ceil_div(count, 64);
    if groups <= 1 || count <= 64 {
        2 * groups
    } else {
        2 * groups + scratch_size(groups)
    }
}

/// The dispatches of a prefix scan: groups of 64, then the scan of the group results, then the
/// carries back into the groups.
pub open spec fn prefix_steps(
    count: int,
    source: int,
    destination: int,
    scratch: int,
    max: bool,
) -> Seq<StepView>
    decreases count,
{
    let groups = ceil_div(count, 64);
    let local = StepView {
        phase: if max { 12 } else { 7 },
        words: (source, destination, count, scratch),
        groups,
    };
    if groups <= 1 || count <= 64 {
        seq![local]
    } else {
        let carry = StepView {
            phase: if max { 13 } else { 8 },
            words: (scratch + groups, destination, count, 0),
            groups,
        };
        seq![local] + prefix_steps(groups, scratch, scratch + groups, scratch + groups * 2, max)
            + seq![carry]
    }
}

/// Groups of more than 64 values are fewer than the values.
pub(crate) proof fn lemma_groups(count: int)
    requires
        0 <= count,
    ensures
        0 <= ceil_div(count, 64) <= count,
        count > 64 <==> ceil_div(count, 64) > 1,
        count > 64 ==> ceil_div(count, 64) < count && 17 * ceil_div(count, 64) <= count,
        64 * ceil_div(count, 64) < count + 64,
{
    lemma_ceil_div(count, 64);
}

/// A prefix scan keeps less than an eighth of its input.
pub proof fn lemma_scratch_size(count: int)
    requires
        0 <= count,
    ensures
        0 <= 8 * scratch_size(count) <= count + 32,
    decreases count,
{
    lemma_groups(count);
    if count > 64 {
        lemma_scratch_size(ceil_div(count, 64));
    }
}

/// Words that the levels of a prefix scan over `count` values keep.
pub fn scratch_words(count: u32) -> (r: Result<u32, JpegReconstructionError>)
    ensures
        r == Ok::<u32, JpegReconstructionError>(scratch_size(count as int) as u32),
        scratch_size(count as int) <= 0x2000_0004,
{
    let mut rest: u32 = count;
    let mut words: u64 = 0;
    proof {
        lemma_scratch_size(count as int);
    }
    loop
        invariant
            words + scratch_size(rest as int) == scratch_size(count as int),
            0 <= scratch_size(rest as int),
            8 * scratch_size(count as int) <= count + 32,
        decreases rest,
    {
        proof {
            lemma_groups(rest as int);
            lemma_scratch_size(rest as int);
            lemma_scratch_size(ceil_div(rest as int, 64));
        }
        let groups: u32 = div_ceil_u32(rest, 64);
        words = match crate::vardct_engine::jpeg_output::add(words, groups as u64 * 2) {
            Ok(words) => words,
            Err(error) => {
                return Err(error);
            },
        };
        if groups <= 1 {
            return word(words);
        }
        rest = groups;
    }
}

/// Appends the dispatches of a prefix scan.
pub fn prefix(
    count: u32,
    source: u32,
    destination: u32,
    scratch: u32,
    max: bool,
    steps: &mut Vec<Step>,
)
    requires
        scratch + scratch_size(count as int) <= u32::MAX,
    ensures
        step_views(final(steps)@) == step_views(old(steps)@) + prefix_steps(
            count as int,
            source as int,
            destination as int,
            scratch as int,
            max,
        ),
    decreases count,
{
    proof {
        lemma_groups(count as int);
        lemma_scratch_size(ceil_div(count as int, 64));
    }
    let groups: u32 = div_ceil_u32(count, 64);
    let ghost start = step_views(steps@);
    let local = Step {
        phase: if max {
            12
        } else {
            7
        },
        words: [source, destination, count, scratch],
        groups,
    };
    steps.push(local);
    assert(step_views(steps@) =~= start + seq![local@]);
    if groups > 1 {
        prefix(groups, scratch, scratch + groups, scratch + groups * 2, max, steps);
        let ghost middle = step_views(steps@);
        let carry = Step {
            phase: if max {
                13
            } else {
                8
            },
            words: [scratch + groups, destination, count, 0],
            groups,
        };
        steps.push(carry);
        proof {
            let inner = prefix_steps(
                groups as int,
                scratch as int,
                scratch + groups,
                scratch + groups * 2,
                max,
            );
            assert(step_views(steps@) =~= middle + seq![carry@]);
            assert(step_views(steps@) =~= start + (seq![local@] + inner + seq![carry@]));
        }
    }
}

/// The dispatches that count a scan of `blocks` blocks.
pub open spec fn counting_steps(blocks: int, scratch: int) -> Seq<StepView> {
    let groups = ceil_div(blocks, 64);
    let progressive = 4 + blocks * 5;
    seq![plain_step(9, groups), plain_step(10, groups)] + prefix_steps(
        blocks,
        progressive + blocks,
        progressive + blocks * 2,
        scratch,
        true,
    ) + seq![plain_step(11, groups), plain_step(0, groups)] + prefix_steps(
        blocks,
        4,
        4 + blocks * 3,
        scratch,
        false,
    ) + seq![plain_step(1, groups)] + prefix_steps(
        blocks,
        4 + blocks * 4,
        4 + blocks,
        scratch,
        false,
    ) + seq![plain_step(2, groups)]
}

fn push_plain(steps: &mut Vec<Step>, phase: usize, groups: u32)
    ensures
        step_views(final(steps)@) == step_views(old(steps)@).push(
            plain_step(phase as int, groups as int),
        ),
{
    let step = Step { phase, words: [0, 0, 0, 0], groups };
    let ghost before = step_views(steps@);
    steps.push(step);
    assert(step_views(steps@) =~= before.push(step@));
}

/// The dispatches that count a scan of `blocks` blocks.
pub fn count_steps(blocks: u32, scratch: u32) -> (steps: Vec<Step>)
    requires
        4 + blocks * 9 <= u32::MAX,
        scratch + scratch_size(blocks as int) <= u32::MAX,
    ensures
        step_views(steps@) == counting_steps(blocks as int, scratch as int),
{
    let groups: u32 = div_ceil_u32(blocks, 64);
    let progressive: u32 = 4 + blocks * 5;
    let mut steps: Vec<Step> = Vec::new();
    push_plain(&mut steps, 9, groups);
    push_plain(&mut steps, 10, groups);
    prefix(blocks, progressive + blocks, progressive + blocks * 2, scratch, true, &mut steps);
    push_plain(&mut steps, 11, groups);
    push_plain(&mut steps, 0, groups);
    prefix(blocks, 4, 4 + blocks * 3, scratch, false, &mut steps);
    push_plain(&mut steps, 1, groups);
    prefix(blocks, 4 + blocks * 4, 4 + blocks, scratch, false, &mut steps);
    push_plain(&mut steps, 2, groups);
    assert(step_views(steps@) =~= counting_steps(blocks as int, scratch as int));
    steps
}

/// What a scan's entropy coder does next.
#[derive(Clone, Copy, Debug, PartialEq, Eq, Structural)]
pub enum ScanPhase {
    Count,
    Emit,
    Pack,
}

/// A scan between two submissions.
#[derive(Clone, Copy, Debug, PartialEq, Eq)]
pub struct ScanState {
    pub params: [u32; 12],
    pub phase: ScanPhase,
    /// Bytes of the packed scan, once they are known.
    pub byte_len: u32,
}

/// Padding bits of the original file and the place of the scan in it.
#[derive(Clone, Copy, Debug, PartialEq, Eq, Structural)]
pub struct ScanContext {
    /// Bytes that hold the padding bits.
    pub padding_bytes: u64,
    pub padding_bits: u32,
    pub has_padding: bool,
    /// No scan follows.
    pub last: bool,
    /// Words of the resident quantizers and coefficients.
    pub coefficient_words: u32,
    /// Workgroups in one row of a dispatch.
    pub width: u32,
}

/// One submission of a scan: the state behind it, its dispatches, the buffers it adds and the
/// bytes it reserves for them, its parameters and its status.
#[derive(Debug)]
pub struct ScanSubmission {
    pub state: ScanState,
    pub steps: Vec<Step>,
    pub buffers: Vec<u64>,
    pub reserved: u64,
}

/// Words that a scan of `blocks` blocks keeps between submissions.
pub open spec fn persistent_words(blocks: int) -> int {
    4 + blocks * 9
}

/// Bytes of the parameters, the status and one uniform for every dispatch.
pub open spec fn submission_overhead(steps: int) -> int {
    48 + 16 + steps * 16
}

/// Sum of the sizes of some buffers.
pub open spec fn total_bytes(buffers: Seq<u64>, n: int) -> int
    decreases n,
{
    if n <= 0 {
        0
    } else {
        total_bytes(buffers, n - 1) + buffers[n - 1]
    }
}

/// Buffers that the first submission of a scan adds: tables and padding, tasks, work, and one
/// word each for the raw and the packed scan.
pub open spec fn start_buffers(tables: int, tasks: int, padding: int) -> Seq<int> {
    seq![
        round_up_4(tables * 4 + padding),
        tasks * 48,
        (persistent_words(tasks) + scratch_size(tasks)) * 4,
        4,
        4,
    ]
}

/// Parameters of a scan before anything is counted.
pub open spec fn start_params(
    scan: PlannedScan,
    context: ScanContext,
    limits: JpegReconstructionLimits,
) -> Seq<u32> {
    let blocks = scan.tasks@.len() as int;
    seq![
        blocks as u32,
        context.coefficient_words,
        ceil_div(least(limits.max_raw_scan_bytes as int, 0x7ff_ffffint * 4), 4) as u32,
        ceil_div(least(limits.max_output_bytes as int, 0x3fff_ffffint * 4), 4) as u32,
        context.padding_bits,
        ((if context.has_padding { 1int } else { 0 }) + if context.last { 2int } else { 0 }) as u32,
        (4 + blocks * 5) as u32,
        scan.parameters,
        context.width,
        0u32,
        0u32,
        0u32,
    ]
}

/// Why a scan cannot be started.
pub open spec fn start_refusal(scan: PlannedScan, context: ScanContext) -> Option<
    JpegReconstructionError,
> {
    let blocks = scan.tasks@.len() as int;
    let tables = scan.tables@.len() as int;
    let address = JpegReconstructionError::Invalid("GPU address overflow");
    let overflow = JpegReconstructionError::Invalid("size overflow");
    let work = persistent_words(blocks) + scratch_size(blocks);
    let padded = tables * 4 + context.padding_bytes;
    if blocks > u32::MAX || persistent_words(blocks) > u32::MAX || work > u32::MAX {
        Some(address)
    } else if padded + 3 > u64::MAX {
        Some(overflow)
    } else if round_up_4(padded) + blocks * 48 + work * 4 + 8 + submission_overhead(
        counting_steps(blocks, persistent_words(blocks)).len() as int,
    ) > u64::MAX {
        Some(overflow)
    } else {
        None
    }
}

/// A prefix scan has fewer dispatches than values.
proof fn lemma_prefix_len(count: int, source: int, destination: int, scratch: int, max: bool)
    requires
        0 <= count,
    ensures
        1 <= prefix_steps(count, source, destination, scratch, max).len() <= count + 1,
    decreases count,
{
    lemma_groups(count);
    if count > 64 {
        let groups = ceil_div(count, 64);
        lemma_prefix_len(groups, scratch, scratch + groups, scratch + groups * 2, max);
    }
}

proof fn lemma_counting_len(blocks: int, scratch: int)
    requires
        0 <= blocks,
    ensures
        9 <= counting_steps(blocks, scratch).len() <= 3 * blocks + 9,
{
    let p = 4 + blocks * 5;
    lemma_prefix_len(blocks, p + blocks, p + blocks * 2, scratch, true);
    lemma_prefix_len(blocks, 4, 4 + blocks * 3, scratch, false);
    lemma_prefix_len(blocks, 4 + blocks * 4, 4 + blocks, scratch, false);
}

/// Plans the submission that counts a scan.
pub fn start(scan: &PlannedScan, context: ScanContext, limits: JpegReconstructionLimits) -> (r: Result<
    ScanSubmission,
    JpegReconstructionError,
>)
    requires
        scan.tables@.len() * 4 <= u64::MAX,
    ensures
        match start_refusal(*scan, context) {
            Some(error) => r == Err::<ScanSubmission, JpegReconstructionError>(error),
            None => r matches Ok(submission) && ({
                let blocks = scan.tasks@.len() as int;
                let buffers = start_buffers(
                    scan.tables@.len() as int,
                    blocks,
                    context.padding_bytes as int,
                );
                let steps = counting_steps(blocks, persistent_words(blocks));
                &&& submission.state.params@ == start_params(*scan, context, limits)
                &&& submission.state.phase == ScanPhase::Count
                &&& submission.state.byte_len == 0
                &&& step_views(submission.steps@) == steps
                &&& submission.buffers@.len() == 5
                &&& forall|i: int| 0 <= i < 5 ==> #[trigger] submission.buffers@[i] == buffers[i]
                &&& submission.reserved == total_bytes(submission.buffers@, 5)
                    + submission_overhead(steps.len() as int)
            }),
        },
{
    let blocks: u32 = match word(scan.tasks.len() as u64) {
        Ok(blocks) => blocks,
        Err(error) => {
            return Err(error);
        },
    };
    let persistent: u32 = match word(4 + blocks as u64 * 9) {
        Ok(persistent) => persistent,
        Err(error) => {
            return Err(error);
        },
    };
    let scratch: u32 = match scratch_words(blocks) {
        Ok(scratch) => scratch,
        Err(error) => {
            return Err(error);
        },
    };
    proof {
        lemma_scratch_size(blocks as int);
        lemma_counting_len(blocks as int, persistent as int);
    }
    let work: u32 = match word(persistent as u64 + scratch as u64) {
        Ok(work) => work,
        Err(error) => {
            return Err(error);
        },
    };
    let steps = count_steps(blocks, persistent);
    assert(steps@.len() == step_views(steps@).len());
    let padded: u64 = match crate::vardct_engine::jpeg_output::add(
        scan.tables.len() as u64 * 4,
        context.padding_bytes,
    ) {
        Ok(padded) => padded,
        Err(error) => {
            return Err(error);
        },
    };
    let table_bytes: u64 = match storage_bytes(padded) {
        Ok(bytes) => bytes,
        Err(error) => {
            return Err(error);
        },
    };
    let task_bytes: u64 = blocks as u64 * 48;
    let both: u64 = match crate::vardct_engine::jpeg_output::add(table_bytes, task_bytes) {
        Ok(both) => both,
        Err(error) => {
            return Err(error);
        },
    };
    let rest: u64 = work as u64 * 4 + 8 + 48 + 16 + steps.len() as u64 * 16;
    let reserved: u64 = match crate::vardct_engine::jpeg_output::add(both, rest) {
        Ok(reserved) => reserved,
        Err(error) => {
            return Err(error);
        },
    };
    let raw_limit: u64 = min_u64(limits.max_raw_scan_bytes, 0x7ff_ffff * 4);
    let output_limit: u64 = min_u64(limits.max_output_bytes, 0x3fff_ffff * 4);
    proof {
        lemma_ceil_div(raw_limit as int, 4);
        lemma_ceil_div(output_limit as int, 4);
    }
    let padding_flag: u32 = if context.has_padding {
        1
    } else {
        0
    };
    let last_flag: u32 = if context.last {
        2
    } else {
        0
    };
    let params: [u32; 12] = [
        blocks,
        context.coefficient_words,
        div_ceil_u64(raw_limit, 4) as u32,
        div_ceil_u64(output_limit, 4) as u32,
        context.padding_bits,
        padding_flag + last_flag,
        4 + blocks * 5,
        scan.parameters,
        context.width,
        0,
        0,
        0,
    ];
    assert(params@ =~= start_params(*scan, context, limits));
    let buffers: Vec<u64> = vec![table_bytes, task_bytes, work as u64 * 4, 4, 4];
    proof {
        reveal_with_fuel(total_bytes, 6);
    }
    Ok(
        ScanSubmission {
            state: ScanState { params, phase: ScanPhase::Count, byte_len: 0 },
            steps,
            buffers,
            reserved,
        },
    )
}

/// The raw bits of a scan are whole bytes within the limit.
pub open spec fn raw_refusal(status: [u32; 4], limits: JpegReconstructionLimits) -> Option<
    JpegReconstructionError,
> {
    if status[1] == 0 || status[1] % 8 != 0 || status[2] != status[1] / 8 {
        Some(JpegReconstructionError::GpuStatus { stage: "raw count", status })
    } else if status[2] > limits.max_raw_scan_bytes {
        Some(
            JpegReconstructionError::Limit {
                resource: "raw scan bytes",
                required: status[2] as u64,
                limit: limits.max_raw_scan_bytes,
            },
        )
    } else {
        None
    }
}

/// The dispatches that emit a scan of `bytes` raw bytes, rounded up to words.
pub open spec fn emission_steps(blocks: int, bytes: int) -> Seq<StepView> {
    let persistent = persistent_words(blocks);
    seq![plain_step(3, ceil_div(blocks, 64)), plain_step(4, ceil_div(bytes, 64))] + prefix_steps(
        bytes,
        persistent,
        persistent + bytes,
        persistent + bytes * 2,
        false,
    ) + seq![plain_step(5, 1)]
}

/// The dispatches that pack a scan of `bytes` raw bytes.
pub open spec fn packing_steps(bytes: int) -> Seq<StepView> {
    seq![plain_step(6, ceil_div(bytes, 64)), plain_step(14, 1)]
}

/// Words of work once `bytes` raw bytes are counted.
pub open spec fn emission_words(blocks: int, bytes: int) -> int {
    persistent_words(blocks) + bytes * 2 + scratch_size(bytes)
}

/// Why a scan cannot go on.
pub open spec fn advance_refusal(
    state: ScanState,
    status: [u32; 4],
    limits: JpegReconstructionLimits,
) -> Option<JpegReconstructionError> {
    let bytes = ceil_div(status[2] as int, 4) * 4;
    if raw_refusal(status, limits) is Some {
        raw_refusal(status, limits)
    } else {
        match state.phase {
            ScanPhase::Count => if bytes > u32::MAX || emission_words(
                state.params[0] as int,
                bytes,
            ) > u32::MAX {
                Some(JpegReconstructionError::Invalid("GPU address overflow"))
            } else {
                None
            },
            ScanPhase::Emit => if status[3] < status[2] || status[3] > status[2] * 2 {
                Some(JpegReconstructionError::GpuStatus { stage: "escaped count", status })
            } else if status[3] > limits.max_output_bytes {
                Some(
                    JpegReconstructionError::Limit {
                        resource: "escaped scan bytes",
                        required: status[3] as u64,
                        limit: limits.max_output_bytes,
                    },
                )
            } else {
                None
            },
            ScanPhase::Pack => Some(JpegReconstructionError::Invalid("completed scan advanced")),
        }
    }
}

/// What follows a completed submission of a scan: emission adds a larger work buffer and the
/// raw bytes, packing adds the escaped bytes.
pub open spec fn advanced(before: ScanState, status: [u32; 4], after: ScanSubmission) -> bool {
    let blocks = before.params[0] as int;
    let raw_words = ceil_div(status[2] as int, 4);
    let packed_words = ceil_div(status[3] as int, 4);
    &&& before.phase == ScanPhase::Count ==> {
        &&& after.state.params@ == before.params@.update(2, raw_words as u32)
        &&& after.state.phase == ScanPhase::Emit
        &&& after.state.byte_len == before.byte_len
        &&& step_views(after.steps@) == emission_steps(blocks, raw_words * 4)
        &&& after.buffers@.len() == 2
        &&& after.buffers@[0] == emission_words(blocks, raw_words * 4) * 4
        &&& after.buffers@[1] == raw_words * 4
    }
    &&& before.phase == ScanPhase::Emit ==> {
        &&& after.state.params@ == before.params@.update(3, packed_words as u32)
        &&& after.state.phase == ScanPhase::Pack
        &&& after.state.byte_len == status[3]
        &&& step_views(after.steps@) == packing_steps(status[2] as int)
        &&& after.buffers@.len() == 1
        &&& after.buffers@[0] == packed_words * 4
    }
    &&& after.reserved == total_bytes(after.buffers@, after.buffers@.len() as int)
        + submission_overhead(after.steps@.len() as int)
}

impl ScanState {
    /// Plans what follows a successful submission. No callback schedules further work.
    pub fn advance(&self, status: [u32; 4], limits: JpegReconstructionLimits) -> (r: Result<
        ScanSubmission,
        JpegReconstructionError,
    >)
        requires
            persistent_words(self.params[0] as int) <= u32::MAX,
        ensures
            match advance_refusal(*self, status, limits) {
                Some(error) => r == Err::<ScanSubmission, JpegReconstructionError>(error),
                None => r matches Ok(submission) && advanced(*self, status, submission),
            },
    {
        if status[1] == 0 || status[1] % 8 != 0 || status[2] != status[1] / 8 {
            return Err(JpegReconstructionError::GpuStatus { stage: "raw count", status });
        }
        match check("raw scan bytes", status[2] as u64, limits.max_raw_scan_bytes) {
            Ok(_) => {},
            Err(error) => {
                return Err(error);
            },
        }
        let persistent: u32 = 4 + self.params[0] * 9;
        let mut params: [u32; 12] = self.params;
        proof {
            lemma_ceil_div(status[2] as int, 4);
            lemma_ceil_div(status[3] as int, 4);
        }
        match self.phase {
            ScanPhase::Count => {
                let raw_words: u32 = div_ceil_u32(status[2], 4);
                params[2] = raw_words;
                let bytes: u32 = match word(raw_words as u64 * 4) {
                    Ok(bytes) => bytes,
                    Err(error) => {
                        return Err(error);
                    },
                };
                proof {
                    lemma_scratch_size(bytes as int);
                    lemma_prefix_len(
                        bytes as int,
                        persistent as int,
                        persistent + bytes,
                        persistent + bytes * 2,
                        false,
                    );
                }
                let scratch: u32 = match word(persistent as u64 + bytes as u64 * 2) {
                    Ok(scratch) => scratch,
                    Err(error) => {
                        return Err(error);
                    },
                };
                let levels: u32 = match scratch_words(bytes) {
                    Ok(levels) => levels,
                    Err(error) => {
                        return Err(error);
                    },
                };
                let work: u32 = match word(scratch as u64 + levels as u64) {
                    Ok(work) => work,
                    Err(error) => {
                        return Err(error);
                    },
                };
                let mut steps: Vec<Step> = Vec::new();
                push_plain(&mut steps, 3, div_ceil_u32(self.params[0], 64));
                push_plain(&mut steps, 4, div_ceil_u32(bytes, 64));
                prefix(bytes, persistent, persistent + bytes, scratch, false, &mut steps);
                push_plain(&mut steps, 5, 1);
                assert(step_views(steps@) =~= emission_steps(self.params[0] as int, bytes as int));
                assert(steps@.len() == step_views(steps@).len());
                let reserved: u64 = work as u64 * 4 + bytes as u64 + (48 + 16 + steps.len() as u64
                    * 16);
                let buffers: Vec<u64> = vec![work as u64 * 4, bytes as u64];
                proof {
                    reveal_with_fuel(total_bytes, 3);
                }
                Ok(
                    ScanSubmission {
                        state: ScanState { params, phase: ScanPhase::Emit, byte_len: self.byte_len },
                        steps,
                        buffers,
                        reserved,
                    },
                )
            },
            ScanPhase::Emit => {
                if status[3] < status[2] || status[3] as u64 > status[2] as u64 * 2 {
                    return Err(
                        JpegReconstructionError::GpuStatus { stage: "escaped count", status },
                    );
                }
                match check("escaped scan bytes", status[3] as u64, limits.max_output_bytes) {
                    Ok(_) => {},
                    Err(error) => {
                        return Err(error);
                    },
                }
                let packed_words: u32 = div_ceil_u32(status[3], 4);
                params[3] = packed_words;
                let mut steps: Vec<Step> = Vec::new();
                push_plain(&mut steps, 6, div_ceil_u32(status[2], 64));
                push_plain(&mut steps, 14, 1);
                assert(step_views(steps@) =~= packing_steps(status[2] as int));
                assert(steps@.len() == step_views(steps@).len());
                let packed_bytes: u64 = packed_words as u64 * 4;
                let buffers: Vec<u64> = vec![packed_bytes];
                proof {
                    reveal_with_fuel(total_bytes, 2);
                }
                Ok(
                    ScanSubmission {
                        state: ScanState { params, phase: ScanPhase::Pack, byte_len: status[3] },
                        steps,
                        buffers,
                        reserved: packed_bytes + (48 + 16 + 2 * 16),
                    },
                )
            },
            ScanPhase::Pack => Err(JpegReconstructionError::Invalid("completed scan advanced")),
        }
    }
}

/// A dispatch of a prefix scan touches only `length` input words, `length` output words and
/// the words that its levels keep.
pub open spec fn step_within(
    step: StepView,
    source: int,
    destination: int,
    count: int,
    scratch: int,
    end: int,
) -> bool {
    let (from, to, length, keep) = step.words;
    &&& 0 <= length <= count
    &&& (from == source && length == count) || (scratch <= from && from + length <= end) || (
    scratch <= from && from + step.groups <= end)
    &&& (to == destination && length == count) || (scratch <= to && to + length <= end)
    &&& keep == 0 || (scratch <= keep && keep + step.groups <= end)
    &&& step.groups == ceil_div(length, 64)
}

/// Every dispatch of a prefix scan stays inside its input, its output and the scratch words
/// that `scratch_size` reserves for it.
pub proof fn law_prefix_within(
    count: int,
    source: int,
    destination: int,
    scratch: int,
    max: bool,
    i: int,
)
    requires
        0 <= count,
        0 <= scratch,
        0 <= i < prefix_steps(count, source, destination, scratch, max).len(),
    ensures
        step_within(
            prefix_steps(count, source, destination, scratch, max)[i],
            source,
            destination,
            count,
            scratch,
            scratch + scratch_size(count),
        ),
    decreases count,
{
    lemma_groups(count);
    lemma_scratch_size(count);
    let steps = prefix_steps(count, source, destination, scratch, max);
    let groups = ceil_div(count, 64);
    if count > 64 {
        lemma_scratch_size(groups);
        let inner = prefix_steps(groups, scratch, scratch + groups, scratch + groups * 2, max);
        if 0 < i < steps.len() - 1 {
            assert(steps[i] == inner[i - 1]);
            law_prefix_within(groups, scratch, scratch + groups, scratch + groups * 2, max, i - 1);
        }
    }
}

/// The buffers of a submission are whole words, so that its reservation is used up exactly by
/// its buffers, its parameters, its status and the uniforms of its dispatches.
pub proof fn law_reservation_exact(
    scan: PlannedScan,
    context: ScanContext,
    submission: ScanSubmission,
)
    requires
        start_refusal(scan, context) is None,
        scan.tasks@.len() > 0,
        scan.tables@.len() > 0,
        submission.buffers@.len() == 5,
        forall|i: int|
            0 <= i < 5 ==> #[trigger] submission.buffers@[i] == start_buffers(
                scan.tables@.len() as int,
                scan.tasks@.len() as int,
                context.padding_bytes as int,
            )[i],
    ensures
        forall|i: int|
            0 <= i < 5 ==> #[trigger] submission.buffers@[i] == buffer_bytes(
                submission.buffers@[i] as int,
            ),
        buffer_bytes(48) + buffer_bytes(16) + submission.steps@.len() * buffer_bytes(16)
            == submission_overhead(submission.steps@.len() as int),
{
    let blocks = scan.tasks@.len() as int;
    let padded = scan.tables@.len() * 4 + context.padding_bytes;
    lemma_scratch_size(blocks);
    lemma_whole_words((padded + 3) / 4);
    lemma_whole_words(blocks * 12);
    lemma_whole_words(persistent_words(blocks) + scratch_size(blocks));
    lemma_whole_words(1);
    let buffers = submission.buffers@;
    assert(buffers[0] == (padded + 3) / 4 * 4);
    assert(buffers[1] == blocks * 12 * 4);
    assert(buffers[2] == (persistent_words(blocks) + scratch_size(blocks)) * 4);
    assert(buffers[3] == 4 && buffers[4] == 4);
    assert forall|i: int| 0 <= i < 5 implies #[trigger] buffers[i] == buffer_bytes(
        buffers[i] as int,
    ) by {
        assert(i == 0 || i == 1 || i == 2 || i == 3 || i == 4);
    }
    lemma_whole_words(12);
    lemma_whole_words(4);
}

/// A buffer of whole words has no padding.
proof fn lemma_whole_words(words: int)
    requires
        words >= 1,
    ensures
        buffer_bytes(words * 4) == words * 4,
{
}

} // verus!
