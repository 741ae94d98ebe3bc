//! Coefficients whose plan exists only after the HF-global prefix was parsed.

use crate::vardct_engine::execution::stage::{
    after_coefficients, after_coefficients_stage, PendingStage,
};
use crate::vardct_engine::execution::submit::ARTIFACT_STATUS_BYTES;
use crate::vardct_engine::execution::validate::HfValidation;
use crate::vardct_engine::execution::vardct::{
    expect_streams, packets_validation_refusal, streams_expected, CoefficientPackets,
};
use crate::vardct_engine::source::{
    check_limits, exceeded, DeviceLimits, HfGroupBytes, LimitCheck,
};
use crate::vardct_engine::types::VarDctDecodeError;
use vstd::prelude::*;

verus! {

/// What was admitted for coefficients before their plan existed.
#[derive(Debug)]
pub struct DeferredHfCoefficientLayout {
    pub groups: Vec<HfGroupBytes>,
    pub status_bytes: u64,
    pub params_bytes: u64,
    pub sink_uniform_bytes: u64,
}

/// A plan of coefficients.
#[derive(Debug)]
pub struct HfCoefficientPlan {
    pub groups: Vec<HfGroupBytes>,
    /// Parameter records of every group.
    pub group_params: Vec<u64>,
    pub entropy_words: u64,
    pub order_words: u64,
    /// Bytes of the reusable stream and parameter windows, where streams are windowed.
    pub windows: Option<(u64, u64)>,
}

/// Bytes of the parameter and sink records.
#[derive(Clone, Copy, Debug, PartialEq, Eq, Structural)]
pub struct HfRecordSizes {
    pub pass_params: u64,
    pub sink_params: u64,
}

/// Bytes of a late coefficient plan.
#[derive(Clone, Copy, Debug, PartialEq, Eq, Structural)]
pub struct DeferredBytes {
    pub entropy: u64,
    pub order: u64,
    pub stream: u64,
    pub params: u64,
    pub sinks: u64,
    pub status: u64,
    /// Bytes to reserve beyond what was admitted.
    pub dynamic: u64,
}

/// Bytes of the statuses of the first `n` groups.
pub open spec fn status_sum(groups: Seq<HfGroupBytes>, n: int) -> int
    decreases n,
{
    if n <= 0 {
        0
    } else {
        status_sum(groups, n - 1) + groups[n - 1].status
    }
}

/// Parameter records of the first `n` groups.
pub open spec fn params_sum(params: Seq<u64>, n: int) -> int
    decreases n,
{
    if n <= 0 {
        0
    } else {
        params_sum(params, n - 1) + params[n - 1]
    }
}

/// Some group needs more scratch than was admitted for it.
pub open spec fn scratch_exceeds(plan: Seq<HfGroupBytes>, admitted: Seq<HfGroupBytes>) -> bool {
    exists|i: int|
        0 <= i < plan.len() && ((#[trigger] plan[i]).lz77_scratch > admitted[i].lz77_scratch
            || plan[i].execution_state > admitted[i].execution_state)
}

/// Bytes of all parameter records.
pub open spec fn params_bytes(plan: HfCoefficientPlan, sizes: HfRecordSizes) -> int {
    match plan.windows {
        Some((_, params)) => params as int,
        None => params_sum(plan.group_params@, plan.group_params@.len() as int)
            * sizes.pass_params,
    }
}

/// Bytes of the stream window, where there is one.
pub open spec fn stream_bytes(plan: HfCoefficientPlan) -> int {
    match plan.windows {
        Some((stream, _)) => stream as int,
        None => 0,
    }
}

/// A broken promise between admission and plan.
pub open spec fn broken(detail: &'static str) -> Option<VarDctDecodeError> {
    Some(VarDctDecodeError::EngineContract { detail })
}

/// An overflow of a byte count.
pub open spec fn overflow(field: &'static str) -> Option<VarDctDecodeError> {
    Some(VarDctDecodeError::ArithmeticOverflow { field })
}

/// Buffers of a late coefficient plan: each is bounded by its size and by its binding.
pub open spec fn deferred_checks(bytes: DeferredBytes, limits: DeviceLimits) -> Seq<LimitCheck> {
    let size = |resource: &'static str, required: u64|
        LimitCheck { resource, required, available: limits.max_buffer_size };
    let storage = |resource: &'static str, required: u64|
        LimitCheck { resource, required, available: limits.max_storage_buffer_binding_size };
    let uniform = |resource: &'static str, required: u64|
        LimitCheck { resource, required, available: limits.max_uniform_buffer_binding_size };
    seq![
        size("deferred HF entropy bundle", bytes.entropy),
        storage("deferred HF entropy bundle", bytes.entropy),
        size("deferred HF order table", bytes.order),
        storage("deferred HF order table", bytes.order),
        size("deferred HF stream window", bytes.stream),
        storage("deferred HF stream window", bytes.stream),
        size("deferred HF parameters", bytes.params),
        storage("deferred HF parameters", bytes.params),
        size("deferred HF status", bytes.status),
        storage("deferred HF status", bytes.status),
        size("deferred HF sink uniform", bytes.sinks),
        uniform("deferred HF sink uniform", bytes.sinks),
    ]
}

/// The bytes of an accepted plan.
pub open spec fn deferred_bytes(plan: HfCoefficientPlan, sizes: HfRecordSizes) -> DeferredBytes {
    let n = plan.groups@.len() as int;
    DeferredBytes {
        entropy: (plan.entropy_words * 4) as u64,
        order: (plan.order_words * 4) as u64,
        stream: stream_bytes(plan) as u64,
        params: params_bytes(plan, sizes) as u64,
        sinks: (n * sizes.sink_params) as u64,
        status: status_sum(plan.groups@, n) as u64,
        dynamic: (plan.entropy_words * 4 + plan.order_words * 4 + stream_bytes(plan)) as u64,
    }
}

/// Why a late plan is refused before anything is reserved for it.
pub open spec fn admission_refusal(
    plan: HfCoefficientPlan,
    deferred: DeferredHfCoefficientLayout,
    sizes: HfRecordSizes,
) -> Option<VarDctDecodeError> {
    let n = plan.groups@.len() as int;
    if n != deferred.groups@.len() {
        Some(
            VarDctDecodeError::GroupPlanCount {
                component: "deferred HF coefficient",
                expected: deferred.groups@.len() as usize,
                actual: n as usize,
            },
        )
    } else if scratch_exceeds(plan.groups@, deferred.groups@) {
        broken("deferred HF coefficient scratch exceeded its conservative admission")
    } else if status_sum(plan.groups@, n) > deferred.status_bytes {
        broken("deferred HF coefficient status exceeded its conservative admission")
    } else if plan.entropy_words * 4 > u64::MAX {
        overflow("deferred HF entropy bytes")
    } else if plan.order_words * 4 > u64::MAX {
        overflow("deferred HF order bytes")
    } else if params_bytes(plan, sizes) > u64::MAX {
        overflow("deferred HF parameter bytes")
    } else if params_bytes(plan, sizes) > deferred.params_bytes {
        broken("deferred HF parameters exceeded their conservative admission")
    } else if n * sizes.sink_params > u64::MAX {
        overflow("deferred HF sink bytes")
    } else if n * sizes.sink_params > deferred.sink_uniform_bytes {
        broken("deferred HF sink uniforms exceeded their conservative admission")
    } else if plan.entropy_words * 4 + plan.order_words * 4 + stream_bytes(plan) > u64::MAX {
        overflow("deferred HF dynamic bytes")
    } else {
        None
    }
}

/// Why a late plan is refused.
pub open spec fn deferred_refusal(
    plan: HfCoefficientPlan,
    deferred: DeferredHfCoefficientLayout,
    sizes: HfRecordSizes,
    limits: DeviceLimits,
) -> Option<VarDctDecodeError> {
    if admission_refusal(plan, deferred, sizes) is Some {
        admission_refusal(plan, deferred, sizes)
    } else {
        exceeded(deferred_checks(deferred_bytes(plan, sizes), limits), 0)
    }
}

/// Whether some group needs more scratch than was admitted for it.
fn check_scratch(plan: &Vec<HfGroupBytes>, admitted: &Vec<HfGroupBytes>) -> (exceeds: bool)
    requires
        plan@.len() == admitted@.len(),
    ensures
        exceeds == scratch_exceeds(plan@, admitted@),
{
    let mut i: usize = 0;
    while i < plan.len()
        invariant
            i <= plan@.len(),
            plan@.len() == admitted@.len(),
            forall|k: int|
                0 <= k < i ==> (#[trigger] plan@[k]).lz77_scratch <= admitted@[k].lz77_scratch
                    && plan@[k].execution_state <= admitted@[k].execution_state,
        decreases plan@.len() - i,
    {
        if plan[i].lz77_scratch > admitted[i].lz77_scratch || plan[i].execution_state
            > admitted[i].execution_state {
            assert(plan@[i as int].lz77_scratch > admitted@[i as int].lz77_scratch
                || plan@[i as int].execution_state > admitted@[i as int].execution_state);
            return true;
        }
        i = i + 1;
    }
    false
}

proof fn lemma_status_sum(groups: Seq<HfGroupBytes>, i: int, n: int)
    requires
        0 <= i <= n <= groups.len(),
    ensures
        0 <= status_sum(groups, i) <= status_sum(groups, n),
    decreases n,
{
    if n > 0 {
        if i < n {
            lemma_status_sum(groups, i, n - 1);
        } else {
            lemma_status_sum(groups, n - 1, n - 1);
        }
    }
}

/// Bytes of the statuses of all groups, or none where they exceed `most`.
fn sum_status(groups: &Vec<HfGroupBytes>, most: u64) -> (r: Option<u64>)
    ensures
        match r {
            Some(sum) => sum == status_sum(groups@, groups@.len() as int) && sum <= most,
            None => status_sum(groups@, groups@.len() as int) > most,
        },
{
    let mut sum: u64 = 0;
    let mut i: usize = 0;
    while i < groups.len()
        invariant
            i <= groups@.len(),
            sum == status_sum(groups@, i as int),
            sum <= most,
        decreases groups@.len() - i,
    {
        proof {
            lemma_status_sum(groups@, i + 1, groups@.len() as int);
        }
        let bytes: u64 = groups[i].status;
        if bytes > most - sum {
            return None;
        }
        sum = sum + bytes;
        i = i + 1;
    }
    Some(sum)
}

proof fn lemma_params_sum(params: Seq<u64>, i: int, n: int)
    requires
        0 <= i <= n <= params.len(),
    ensures
        0 <= params_sum(params, i) <= params_sum(params, n),
    decreases n,
{
    if n > 0 {
        if i < n {
            lemma_params_sum(params, i, n - 1);
        } else {
            lemma_params_sum(params, n - 1, n - 1);
        }
    }
}

/// Bytes of all parameter records, where they fit a machine word.
fn sum_params(params: &Vec<u64>, size: u64) -> (r: Option<u64>)
    ensures
        match r {
            Some(sum) => sum == params_sum(params@, params@.len() as int) * size,
            None => params_sum(params@, params@.len() as int) * size > u64::MAX,
        },
{
    let mut sum: u64 = 0;
    let ghost total = params_sum(params@, params@.len() as int);
    let mut i: usize = 0;
    assert(0 * size == 0) by (nonlinear_arith);
    while i < params.len()
        invariant
            i <= params@.len(),
            total == params_sum(params@, params@.len() as int),
            sum == params_sum(params@, i as int) * size,
        decreases params@.len() - i,
    {
        let count: u64 = params[i];
        proof {
            lemma_params_sum(params@, i as int, params@.len() as int);
            lemma_params_sum(params@, i + 1, params@.len() as int);
            let before = params_sum(params@, i as int);
            let after = params_sum(params@, i + 1);
            assert(after * size == before * size + count * size) by (nonlinear_arith)
                requires
                    after == before + count,
            ;
            assert(after * size <= total * size) by (nonlinear_arith)
                requires
                    after <= total,
            ;
            assert(0 <= before * size) by (nonlinear_arith)
                requires
                    0 <= before,
            ;
        }
        let bytes: u64 = match count.checked_mul(size) {
            Some(bytes) => bytes,
            None => {
                return None;
            },
        };
        sum =
        match sum.checked_add(bytes) {
            Some(sum) => sum,
            None => {
                return None;
            },
        };
        i = i + 1;
    }
    Some(sum)
}

fn size_check(resource: &'static str, required: u64, limits: DeviceLimits) -> (check: LimitCheck)
    ensures
        check == (LimitCheck { resource, required, available: limits.max_buffer_size }),
{
    LimitCheck { resource, required, available: limits.max_buffer_size }
}

fn storage_check(resource: &'static str, required: u64, limits: DeviceLimits) -> (check: LimitCheck)
    ensures
        check == (LimitCheck {
            resource,
            required,
            available: limits.max_storage_buffer_binding_size,
        }),
{
    LimitCheck { resource, required, available: limits.max_storage_buffer_binding_size }
}

/// Holds a late plan to what was admitted for it and to the device.
pub fn admit_deferred(
    plan: &HfCoefficientPlan,
    deferred: &DeferredHfCoefficientLayout,
    sizes: HfRecordSizes,
    limits: DeviceLimits,
) -> (r: Result<DeferredBytes, VarDctDecodeError>)
    ensures
        match deferred_refusal(*plan, *deferred, sizes, limits) {
            Some(error) => r == Err::<DeferredBytes, VarDctDecodeError>(error),
            None => r == Ok::<DeferredBytes, VarDctDecodeError>(deferred_bytes(*plan, sizes)),
        },
{
    let n: usize = plan.groups.len();
    if n != deferred.groups.len() {
        return Err(
            VarDctDecodeError::GroupPlanCount {
                component: "deferred HF coefficient",
                expected: deferred.groups.len(),
                actual: n,
            },
        );
    }
    if check_scratch(&plan.groups, &deferred.groups) {
        return Err(
            VarDctDecodeError::EngineContract {
                detail: "deferred HF coefficient scratch exceeded its conservative admission",
            },
        );
    }
    let status: u64 = match sum_status(&plan.groups, deferred.status_bytes) {
        Some(status) => status,
        None => {
            return Err(
                VarDctDecodeError::EngineContract {
                    detail: "deferred HF coefficient status exceeded its conservative admission",
                },
            );
        },
    };
    let entropy: u64 = match plan.entropy_words.checked_mul(4) {
        Some(bytes) => bytes,
        None => {
            return Err(
                VarDctDecodeError::ArithmeticOverflow { field: "deferred HF entropy bytes" },
            );
        },
    };
    let order: u64 = match plan.order_words.checked_mul(4) {
        Some(bytes) => bytes,
        None => {
            return Err(VarDctDecodeError::ArithmeticOverflow { field: "deferred HF order bytes" });
        },
    };
    let stream: u64 = match plan.windows {
        Some((stream, _)) => stream,
        None => 0,
    };
    let params: u64 = match plan.windows {
        Some((_, params)) => params,
        None => {
            match sum_params(&plan.group_params, sizes.pass_params) {
                Some(params) => params,
                None => {
                    return Err(
                        VarDctDecodeError::ArithmeticOverflow {
                            field: "deferred HF parameter bytes",
                        },
                    );
                },
            }
        },
    };
    if params > deferred.params_bytes {
        return Err(
            VarDctDecodeError::EngineContract {
                detail: "deferred HF parameters exceeded their conservative admission",
            },
        );
    }
    let sinks: u64 = match (n as u64).checked_mul(sizes.sink_params) {
        Some(sinks) => sinks,
        None => {
            return Err(VarDctDecodeError::ArithmeticOverflow { field: "deferred HF sink bytes" });
        },
    };
    if sinks > deferred.sink_uniform_bytes {
        return Err(
            VarDctDecodeError::EngineContract {
                detail: "deferred HF sink uniforms exceeded their conservative admission",
            },
        );
    }
    let sum: Option<u64> = match entropy.checked_add(order) {
        Some(sum) => sum.checked_add(stream),
        None => None,
    };
    let dynamic: u64 = match sum {
        Some(dynamic) => dynamic,
        None => {
            return Err(
                VarDctDecodeError::ArithmeticOverflow { field: "deferred HF dynamic bytes" },
            );
        },
    };
    let bytes = DeferredBytes { entropy, order, stream, params, sinks, status, dynamic };
    let checks: Vec<LimitCheck> = vec![
        size_check("deferred HF entropy bundle", entropy, limits),
        storage_check("deferred HF entropy bundle", entropy, limits),
        size_check("deferred HF order table", order, limits),
        storage_check("deferred HF order table", order, limits),
        size_check("deferred HF stream window", stream, limits),
        storage_check("deferred HF stream window", stream, limits),
        size_check("deferred HF parameters", params, limits),
        storage_check("deferred HF parameters", params, limits),
        size_check("deferred HF status", status, limits),
        storage_check("deferred HF status", status, limits),
        size_check("deferred HF sink uniform", sinks, limits),
        LimitCheck {
            resource: "deferred HF sink uniform",
            required: sinks,
            available: limits.max_uniform_buffer_binding_size,
        },
    ];
    assert(checks@ =~= deferred_checks(bytes, limits));
    match check_limits(&checks) {
        Ok(_) => Ok(bytes),
        Err(error) => Err(error),
    }
}

/// Where the status of each group is copied, and why the records do not fit what was admitted.
pub open spec fn collection_refusal(
    groups: Seq<HfGroupBytes>,
    start: int,
    output_status: u64,
    staging: u64,
) -> Option<VarDctDecodeError> {
    if start > u64::MAX {
        overflow("deferred HF status offset")
    } else if start + status_sum(groups, groups.len() as int) > u64::MAX {
        overflow("deferred HF status end")
    } else if start + status_sum(groups, groups.len() as int) + output_status != staging {
        broken("deferred HF status aggregation disagrees with admitted staging")
    } else {
        None
    }
}

/// Where the coefficient status of each group is copied, behind the packet and artifact records
/// of all groups.
pub fn collect_deferred_status(
    groups: &Vec<HfGroupBytes>,
    packet_status: u64,
    output_status: u64,
    staging: u64,
) -> (r: Result<Vec<u64>, VarDctDecodeError>)
    requires
        packet_status <= 0x1_0000,
    ensures
        ({
            let start = groups@.len() * (packet_status + ARTIFACT_STATUS_BYTES);
            match collection_refusal(groups@, start, output_status, staging) {
                Some(error) => r == Err::<Vec<u64>, VarDctDecodeError>(error),
                None => r matches Ok(offsets) && offsets@.len() == groups@.len() && forall|i: int|
                    0 <= i < offsets@.len() ==> #[trigger] offsets@[i] == start + status_sum(
                        groups@,
                        i,
                    ),
            }
        }),
{
    let start: u64 = match (groups.len() as u64).checked_mul(
        packet_status + ARTIFACT_STATUS_BYTES,
    ) {
        Some(start) => start,
        None => {
            return Err(
                VarDctDecodeError::ArithmeticOverflow { field: "deferred HF status offset" },
            );
        },
    };
    let mut offsets: Vec<u64> = Vec::new();
    let mut offset: u64 = start;
    let mut i: usize = 0;
    while i < groups.len()
        invariant
            i <= groups@.len(),
            start == groups@.len() * (packet_status + ARTIFACT_STATUS_BYTES),
            offset == start + status_sum(groups@, i as int),
            offsets@.len() == i,
            forall|k: int|
                0 <= k < i ==> #[trigger] offsets@[k] == start + status_sum(groups@, k),
        decreases groups@.len() - i,
    {
        proof {
            lemma_status_sum(groups@, i + 1, groups@.len() as int);
        }
        offsets.push(offset);
        offset =
        match offset.checked_add(groups[i].status) {
            Some(offset) => offset,
            None => {
                return Err(
                    VarDctDecodeError::ArithmeticOverflow { field: "deferred HF status end" },
                );
            },
        };
        i = i + 1;
    }
    if offset > staging || output_status != staging - offset {
        return Err(
            VarDctDecodeError::EngineContract {
                detail: "deferred HF status aggregation disagrees with admitted staging",
            },
        );
    }
    Ok(offsets)
}

/// Queue submissions after `batches` newly discovered coefficient batches.
pub fn count_deferred_submissions(submissions: usize, batches: Option<usize>) -> (r: Result<
    usize,
    VarDctDecodeError,
>)
    ensures
        match batches {
            None => r == Ok::<usize, VarDctDecodeError>(submissions),
            Some(batches) => if batches == 0 {
                r == Err::<usize, VarDctDecodeError>(
                    VarDctDecodeError::EntropyWindowContract {
                        detail: "deferred windowed HF plan has no batches",
                    },
                )
            } else if submissions + batches > usize::MAX {
                r == Err::<usize, VarDctDecodeError>(
                    VarDctDecodeError::ArithmeticOverflow { field: "deferred HF submission count" },
                )
            } else {
                r == Ok::<usize, VarDctDecodeError>((submissions + batches) as usize)
            },
        },
{
    match batches {
        None => Ok(submissions),
        Some(batches) => {
            if batches == 0 {
                return Err(
                    VarDctDecodeError::EntropyWindowContract {
                        detail: "deferred windowed HF plan has no batches",
                    },
                );
            }
            match submissions.checked_add(batches) {
                Some(total) => Ok(total),
                None => Err(
                    VarDctDecodeError::ArithmeticOverflow { field: "deferred HF submission count" },
                ),
            }
        },
    }
}

/// What a deferred coefficient stage needs to exist.
#[derive(Clone, Copy, Debug, PartialEq, Eq, Structural)]
pub struct DeferredPresence {
    /// The frame was not completed.
    pub alive: bool,
    /// The HF-global prefix gave coefficient metadata.
    pub entropy: bool,
    /// Scratch was admitted.
    pub layout: bool,
    /// Coefficient buffers are already there.
    pub installed: bool,
}

/// One queue submission of late coefficients.
#[derive(Clone, Copy, Debug, PartialEq, Eq)]
pub struct DeferredQueue {
    /// What precedes the coefficients comes first.
    pub before: bool,
    /// All coefficients are decoded.
    pub whole: bool,
    /// One batch of coefficient streams is decoded.
    pub batch: Option<usize>,
    /// What follows the coefficients and the copies of their statuses come last.
    pub tail: bool,
}

/// Submission `k` of late coefficients.
pub open spec fn deferred_queue(before: bool, batches: Option<usize>, k: int) -> DeferredQueue {
    match batches {
        None => DeferredQueue { before, whole: true, batch: None, tail: true },
        Some(batches) => DeferredQueue {
            before: before && k == 0,
            whole: false,
            batch: if k < batches {
                Some(k as usize)
            } else {
                None
            },
            tail: k == batches,
        },
    }
}

/// Submissions of late coefficients: one where they are whole, else one for each batch and one
/// behind them.
pub open spec fn queue_length(batches: Option<usize>) -> int {
    match batches {
        None => 1,
        Some(batches) => batches + 1,
    }
}

/// The submissions of late coefficients, in order.
fn plan_queue(before: bool, batches: Option<usize>) -> (queue: Vec<DeferredQueue>)
    requires
        queue_length(batches) <= usize::MAX,
        batches != Some(0usize),
    ensures
        queue@.len() == queue_length(batches),
        forall|k: int|
            0 <= k < queue@.len() ==> #[trigger] queue@[k] == deferred_queue(before, batches, k),
{
    let mut queue: Vec<DeferredQueue> = Vec::new();
    match batches {
        None => {
            queue.push(DeferredQueue { before, whole: true, batch: None, tail: true });
        },
        Some(count) => {
            let mut k: usize = 0;
            while k < count
                invariant
                    batches == Some(count),
                    k <= count,
                    queue@.len() == k,
                    forall|i: int|
                        0 <= i < k ==> #[trigger] queue@[i] == deferred_queue(before, batches, i),
                decreases count - k,
            {
                queue.push(
                    DeferredQueue {
                        before: before && k == 0,
                        whole: false,
                        batch: Some(k),
                        tail: false,
                    },
                );
                k = k + 1;
            }
            queue.push(DeferredQueue { before: false, whole: false, batch: None, tail: true });
        },
    }
    queue
}

/// Each batch is submitted once and in order, what precedes the coefficients comes before all of
/// them, and what follows comes behind all of them.
pub proof fn law_queue_in_order(before: bool, batches: Option<usize>, k: int)
    requires
        batches != Some(0usize),
        0 <= k < queue_length(batches),
    ensures
        deferred_queue(before, batches, k).before == (before && k == 0),
        deferred_queue(before, batches, k).tail == (k == queue_length(batches) - 1),
        batches is None ==> deferred_queue(before, batches, k).whole,
        batches is Some && k < queue_length(batches) - 1 ==> deferred_queue(
            before,
            batches,
            k,
        ).batch == Some(k as usize),
{
}

/// Some group has more streams than a dispatch.
pub open spec fn dispatch_overflows(params: Seq<u64>) -> bool {
    exists|i: int| 0 <= i < params.len() && #[trigger] params[i] > u32::MAX
}

/// Dispatches that decode each group's streams at once.
fn whole_dispatches(params: &Vec<u64>) -> (r: Option<Vec<u32>>)
    ensures
        match r {
            Some(dispatches) => !dispatch_overflows(params@) && dispatches@.len() == params@.len()
                && forall|i: int|
                0 <= i < params@.len() ==> #[trigger] dispatches@[i] == params@[i],
            None => dispatch_overflows(params@),
        },
{
    let mut dispatches: Vec<u32> = Vec::new();
    let mut i: usize = 0;
    while i < params.len()
        invariant
            i <= params@.len(),
            dispatches@.len() == i,
            forall|k: int| 0 <= k < i ==> #[trigger] dispatches@[k] == params@[k],
            forall|k: int| 0 <= k < i ==> #[trigger] params@[k] <= u32::MAX,
        decreases params@.len() - i,
    {
        if params[i] > u32::MAX as u64 {
            assert(params@[i as int] > u32::MAX);
            return None;
        }
        dispatches.push(params[i] as u32);
        i = i + 1;
    }
    Some(dispatches)
}

/// Dequantization words behind the HF-global prefix, and the ranges of them that the host writes.
/// Raw matrices are written by the GPU.
#[derive(Clone, Copy, Debug)]
pub struct MatrixUpload<'a> {
    /// The first and one past the last resource record of each range.
    pub ranges: &'a Vec<(u32, u32)>,
    /// The resource record of the first matrix.
    pub first: u32,
    /// Records of all matrices.
    pub words: usize,
}

/// One write of dequantization words.
#[derive(Clone, Copy, Debug, PartialEq, Eq, Structural)]
pub struct MatrixWrite {
    /// The byte of the resources that is written first.
    pub offset: u64,
    /// The words that are written.
    pub from: usize,
    pub to: usize,
}

/// Range `i` lies among the matrices.
pub open spec fn range_inside(upload: MatrixUpload<'_>, i: int) -> bool {
    let (start, end) = upload.ranges@[i];
    upload.first <= start && start <= end && end - upload.first <= upload.words
}

/// The ranges lie among the matrices.
pub open spec fn ranges_inside(upload: MatrixUpload<'_>) -> bool {
    forall|i: int| 0 <= i < upload.ranges@.len() ==> #[trigger] range_inside(upload, i)
}

/// The first `n` writes.
pub open spec fn matrix_writes(upload: MatrixUpload<'_>, n: int) -> Seq<MatrixWrite> {
    Seq::new(
        n as nat,
        |i: int|
            MatrixWrite {
                offset: (upload.ranges@[i].0 * 16) as u64,
                from: (upload.ranges@[i].0 - upload.first) as usize,
                to: (upload.ranges@[i].1 - upload.first) as usize,
            },
    )
}

/// Writes every range of words to its records.
fn plan_matrix_writes(upload: MatrixUpload<'_>) -> (writes: Vec<MatrixWrite>)
    requires
        ranges_inside(upload),
    ensures
        writes@ == matrix_writes(upload, upload.ranges@.len() as int),
{
    let mut writes: Vec<MatrixWrite> = Vec::new();
    let mut i: usize = 0;
    while i < upload.ranges.len()
        invariant
            ranges_inside(upload),
            i <= upload.ranges@.len(),
            writes@ =~= matrix_writes(upload, i as int),
        decreases upload.ranges@.len() - i,
    {
        let (start, end) = upload.ranges[i];
        assert(range_inside(upload, i as int));
        writes.push(
            MatrixWrite {
                offset: start as u64 * 16,
                from: (start - upload.first) as usize,
                to: (end - upload.first) as usize,
            },
        );
        i = i + 1;
    }
    writes
}

/// The submission of late coefficients.
#[derive(Debug)]
pub struct DeferredSubmission {
    pub matrix_writes: Vec<MatrixWrite>,
    pub bytes: DeferredBytes,
    /// Dispatches of each group, where its streams are decoded at once.
    pub dispatches: Option<Vec<u32>>,
    pub status_offsets: Vec<u64>,
    pub expected_hf: Vec<HfValidation>,
    pub queue: Vec<DeferredQueue>,
    /// Queue submissions of the frame.
    pub submissions: usize,
    pub stage: PendingStage,
}

/// How late coefficients are submitted.
pub struct DeferredInputs<'a> {
    /// Dequantization words; without any there is no range.
    pub matrices: MatrixUpload<'a>,
    pub plan: &'a HfCoefficientPlan,
    pub deferred: &'a DeferredHfCoefficientLayout,
    pub sizes: HfRecordSizes,
    pub limits: DeviceLimits,
    pub packet_status: u64,
    pub output_status: u64,
    /// Bytes of all statuses.
    pub staging: u64,
    /// Queue submissions so far.
    pub submissions: usize,
    /// Stream batches, where windows are bounded.
    pub batches: Option<usize>,
    /// Commands are recorded that precede the coefficients.
    pub has_before: bool,
    /// The output waits for assembled extra channels.
    pub extra_output: bool,
}

/// Why late coefficients are not submitted: the first reason in order.
pub open spec fn late_refusal(
    presence: DeferredPresence,
    inputs: DeferredInputs<'_>,
    packets: Option<CoefficientPackets<'_>>,
) -> Option<VarDctDecodeError> {
    let plan = *inputs.plan;
    let start = plan.groups@.len() * (inputs.packet_status + ARTIFACT_STATUS_BYTES);
    let refused = deferred_refusal(plan, *inputs.deferred, inputs.sizes, inputs.limits);
    let collected = collection_refusal(
        plan.groups@,
        start,
        inputs.output_status,
        inputs.staging,
    );
    if !presence.alive {
        Some(VarDctDecodeError::CompletionConsumed)
    } else if !presence.entropy {
        broken("deferred HF-global parse did not produce coefficient metadata")
    } else if !presence.layout {
        broken("deferred HF-global stage has no admitted scratch layout")
    } else if refused is Some {
        refused
    } else if inputs.batches is None && dispatch_overflows(plan.group_params@) {
        overflow("deferred HF dispatch count")
    } else if collected is Some {
        collected
    } else if packets_validation_refusal(packets) is Some {
        packets_validation_refusal(packets)
    } else if presence.installed {
        broken("deferred HF coefficient buffers were already installed")
    } else if inputs.batches == Some(0usize) {
        Some(
            VarDctDecodeError::EntropyWindowContract {
                detail: "deferred windowed HF plan has no batches",
            },
        )
    } else if inputs.batches matches Some(count) && inputs.submissions + count > usize::MAX {
        overflow("deferred HF submission count")
    } else {
        None
    }
}

/// The submission of accepted late coefficients.
pub open spec fn late_submits(
    submission: DeferredSubmission,
    inputs: DeferredInputs<'_>,
    packets: Option<CoefficientPackets<'_>>,
) -> bool {
    let plan = *inputs.plan;
    let start = plan.groups@.len() * (inputs.packet_status + ARTIFACT_STATUS_BYTES);
    &&& submission.matrix_writes@ == matrix_writes(
        inputs.matrices,
        inputs.matrices.ranges@.len() as int,
    )
    &&& submission.bytes == deferred_bytes(plan, inputs.sizes)
    &&& match inputs.batches {
        None => submission.dispatches matches Some(dispatches) && dispatches@.len()
            == plan.group_params@.len() && forall|i: int|
            0 <= i < dispatches@.len() ==> #[trigger] dispatches@[i] == plan.group_params@[i],
        Some(_) => submission.dispatches is None,
    }
    &&& submission.status_offsets@.len() == plan.groups@.len()
    &&& forall|i: int|
        0 <= i < plan.groups@.len() ==> #[trigger] submission.status_offsets@[i] == start
            + status_sum(plan.groups@, i)
    &&& streams_expected(packets, submission.expected_hf@)
    &&& submission.queue@.len() == queue_length(inputs.batches)
    &&& forall|k: int|
        0 <= k < submission.queue@.len() ==> #[trigger] submission.queue@[k] == deferred_queue(
            inputs.has_before,
            inputs.batches,
            k,
        )
    &&& submission.submissions == inputs.submissions + match inputs.batches {
        Some(count) => count as int,
        None => 0,
    }
    &&& submission.stage == after_coefficients(inputs.extra_output)
}

/// Plans the submission of coefficients whose plan was found behind the HF-global prefix.
pub fn submit_deferred_hf_coefficients(
    presence: DeferredPresence,
    inputs: &DeferredInputs<'_>,
    packets: &Option<CoefficientPackets<'_>>,
) -> (r: Result<DeferredSubmission, VarDctDecodeError>)
    requires
        inputs.packet_status <= 0x1_0000,
        inputs.batches != Some(usize::MAX),
        ranges_inside(inputs.matrices),
        packets matches Some(packets) ==> packets.spatial_groups > 0
            && packets.continuations@.len() == packets.indices@.len(),
    ensures
        match late_refusal(presence, *inputs, *packets) {
            Some(error) => r == Err::<DeferredSubmission, VarDctDecodeError>(error),
            None => r matches Ok(submission) && late_submits(submission, *inputs, *packets),
        },
{
    if !presence.alive {
        return Err(VarDctDecodeError::CompletionConsumed);
    }
    if !presence.entropy {
        return Err(
            VarDctDecodeError::EngineContract {
                detail: "deferred HF-global parse did not produce coefficient metadata",
            },
        );
    }
    if !presence.layout {
        return Err(
            VarDctDecodeError::EngineContract {
                detail: "deferred HF-global stage has no admitted scratch layout",
            },
        );
    }
    let matrix_writes = plan_matrix_writes(inputs.matrices);
    let bytes = match admit_deferred(inputs.plan, inputs.deferred, inputs.sizes, inputs.limits) {
        Ok(bytes) => bytes,
        Err(error) => {
            return Err(error);
        },
    };
    let dispatches: Option<Vec<u32>> = match inputs.batches {
        Some(_) => None,
        None => match whole_dispatches(&inputs.plan.group_params) {
            Some(dispatches) => Some(dispatches),
            None => {
                return Err(
                    VarDctDecodeError::ArithmeticOverflow { field: "deferred HF dispatch count" },
                );
            },
        },
    };
    let status_offsets = match collect_deferred_status(
        &inputs.plan.groups,
        inputs.packet_status,
        inputs.output_status,
        inputs.staging,
    ) {
        Ok(offsets) => offsets,
        Err(error) => {
            return Err(error);
        },
    };
    let expected_hf = match expect_streams(packets) {
        Ok(expected) => expected,
        Err(error) => {
            return Err(error);
        },
    };
    if presence.installed {
        return Err(
            VarDctDecodeError::EngineContract {
                detail: "deferred HF coefficient buffers were already installed",
            },
        );
    }
    let submissions: usize = match count_deferred_submissions(inputs.submissions, inputs.batches) {
        Ok(submissions) => submissions,
        Err(error) => {
            return Err(error);
        },
    };
    let queue = plan_queue(inputs.has_before, inputs.batches);
    Ok(
        DeferredSubmission {
            matrix_writes,
            bytes,
            dispatches,
            status_offsets,
            expected_hf,
            queue,
            submissions,
            stage: after_coefficients_stage(inputs.extra_output),
        },
    )
}

} // verus!
