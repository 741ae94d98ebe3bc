//! What late coefficients, raw matrices and the submissions behind packets guarantee.

use crate::vardct_engine::execution::deferred::{
    admit_deferred, collect_deferred_status, count_deferred_submissions, params_sum,
    status_sum,
    submit_deferred_hf_coefficients, DeferredBytes,
    DeferredHfCoefficientLayout, DeferredInputs, DeferredPresence, DeferredSubmission,
    HfCoefficientPlan, HfRecordSizes,
};
use crate::vardct_engine::execution::downstream::{
    create_hf_coefficient_job_buffers, submit_vardct_downstream, DownstreamSubmission,
    HfCoefficientJobBuffers, HfJobPlan, VarDctDownstreamCommands,
};
use crate::vardct_engine::execution::raw_matrix::{
    replan_limit, start_raw_hf_dequant_stage, validate_status, RawMatrixCode, RawMatrixPlan,
    RawMatrixWork,
};
use crate::vardct_engine::execution::side_image::{
    shrink_window, SideImage, SideImageMemory, SideImageStatus,
};
use crate::vardct_engine::execution::stage::{
    after_coefficients_stage, plan_launch, FirstSubmission, Launch, PendingStage, PostLf,
};
use crate::vardct_engine::execution::submit::{PacketRoute, Staging};
use crate::vardct_engine::execution::vardct::CoefficientPackets;
use crate::vardct_engine::source::{DeviceLimits, HfGroupBytes, Packet};
use crate::vardct_engine::types::VarDctDecodeError;
use vstd::prelude::*;

verus! {

/// Bytes of statuses of the first `n` groups.
pub open spec fn statuses_before(groups: Seq<HfGroupBytes>, n: int) -> int
    decreases n,
{
    if n <= 0 {
        0
    } else {
        statuses_before(groups, n - 1) + groups[n - 1].status
    }
}

/// Both ways to add statuses agree.
proof fn lemma_statuses_before(groups: Seq<HfGroupBytes>, n: int)
    ensures
        statuses_before(groups, n) == status_sum(groups, n),
        0 <= statuses_before(groups, n),
    decreases n,
{
    if n > 0 {
        lemma_statuses_before(groups, n - 1);
    }
}

/// Parameter records of the first `n` groups.
pub open spec fn params_before(params: Seq<u64>, n: int) -> int
    decreases n,
{
    if n <= 0 {
        0
    } else {
        params_before(params, n - 1) + params[n - 1]
    }
}

/// Both ways to add parameter records agree.
proof fn lemma_params_before(params: Seq<u64>, n: int)
    ensures
        params_before(params, n) == params_sum(params, n),
        0 <= params_before(params, n),
    decreases n,
{
    if n > 0 {
        lemma_params_before(params, n - 1);
    }
}

/// A late plan is admitted with no more scratch, statuses or parameters than were admitted for it,
/// and with buffers that the device holds and binds: four bytes for each word of entropy tables and
/// orders. Beyond what was admitted it reserves its tables, its orders and its stream window.
pub proof fn law_late_plan(
    plan: &HfCoefficientPlan,
    deferred: &DeferredHfCoefficientLayout,
    sizes: HfRecordSizes,
    limits: DeviceLimits,
    bytes: DeferredBytes,
    i: int,
)
    requires
        call_ensures(
            admit_deferred,
            (plan, deferred, sizes, limits),
            Ok::<DeferredBytes, VarDctDecodeError>(bytes),
        ),
        0 <= i < plan.groups@.len(),
    ensures
        plan.groups@.len() == deferred.groups@.len(),
        plan.groups@[i].lz77_scratch <= deferred.groups@[i].lz77_scratch,
        plan.groups@[i].execution_state <= deferred.groups@[i].execution_state,
        bytes.status == statuses_before(plan.groups@, plan.groups@.len() as int),
        bytes.status <= deferred.status_bytes,
        bytes.entropy == 4 * plan.entropy_words,
        bytes.order == 4 * plan.order_words,
        plan.windows matches Some((stream, params)) ==> bytes.stream == stream && bytes.params
            == params,
        plan.windows is None ==> bytes.stream == 0 && bytes.params == params_before(
            plan.group_params@,
            plan.group_params@.len() as int,
        ) * sizes.pass_params,
        bytes.sinks == plan.groups@.len() * sizes.sink_params,
        bytes.params <= deferred.params_bytes,
        bytes.dynamic == bytes.entropy + bytes.order + bytes.stream,
        bytes.entropy <= limits.max_buffer_size && bytes.entropy
            <= limits.max_storage_buffer_binding_size,
        bytes.order <= limits.max_buffer_size && bytes.order
            <= limits.max_storage_buffer_binding_size,
        bytes.stream <= limits.max_buffer_size && bytes.stream
            <= limits.max_storage_buffer_binding_size,
        bytes.params <= limits.max_buffer_size && bytes.params
            <= limits.max_storage_buffer_binding_size,
        bytes.status <= limits.max_buffer_size && bytes.status
            <= limits.max_storage_buffer_binding_size,
        bytes.sinks <= limits.max_buffer_size && bytes.sinks
            <= limits.max_uniform_buffer_binding_size,
{
    lemma_statuses_before(plan.groups@, plan.groups@.len() as int);
    let records = plan.group_params@.len() as int;
    lemma_params_before(plan.group_params@, records);
    let (a, b) = (params_before(plan.group_params@, records), sizes.pass_params as int);
    let (n, c) = (plan.groups@.len() as int, sizes.sink_params as int);
    assert(0 <= a * b && 0 <= n * c) by (nonlinear_arith)
        requires
            0 <= a,
            0 <= b,
            0 <= n,
            0 <= c,
    ;
    let checks = crate::vardct_engine::execution::deferred::deferred_checks(bytes, limits);
    assert(checks.len() == 12);
    crate::vardct_engine::source::law_accepted_within(checks, 0, 0);
    crate::vardct_engine::source::law_accepted_within(checks, 0, 1);
    crate::vardct_engine::source::law_accepted_within(checks, 0, 2);
    crate::vardct_engine::source::law_accepted_within(checks, 0, 3);
    crate::vardct_engine::source::law_accepted_within(checks, 0, 4);
    crate::vardct_engine::source::law_accepted_within(checks, 0, 5);
    crate::vardct_engine::source::law_accepted_within(checks, 0, 6);
    crate::vardct_engine::source::law_accepted_within(checks, 0, 7);
    crate::vardct_engine::source::law_accepted_within(checks, 0, 8);
    crate::vardct_engine::source::law_accepted_within(checks, 0, 9);
    crate::vardct_engine::source::law_accepted_within(checks, 0, 10);
    crate::vardct_engine::source::law_accepted_within(checks, 0, 11);
}

/// Late statuses stand behind the packet record and the sixty-four bytes of artifact record of every
/// group, one behind the other, and end where the record of the output starts.
pub proof fn law_late_statuses(
    groups: &Vec<HfGroupBytes>,
    packet_status: u64,
    output_status: u64,
    staging: u64,
    offsets: Vec<u64>,
    i: int,
)
    requires
        packet_status <= 0x1_0000,
        call_ensures(
            collect_deferred_status,
            (groups, packet_status, output_status, staging),
            Ok::<Vec<u64>, VarDctDecodeError>(offsets),
        ),
        0 <= i < groups@.len(),
    ensures
        offsets@.len() == groups@.len(),
        i == 0 ==> offsets@[i] == groups@.len() * (packet_status + 64),
        i + 1 < groups@.len() ==> offsets@[i + 1] == offsets@[i] + groups@[i].status,
        i + 1 == groups@.len() ==> offsets@[i] + groups@[i].status + output_status == staging,
{
    reveal_with_fuel(status_sum, 2);
    let start = groups@.len() * (packet_status + 64);
    assert(offsets@[i] == start + status_sum(groups@, i));
    if i + 1 < groups@.len() {
        assert(offsets@[i + 1] == start + status_sum(groups@, i + 1));
    }
}

/// Late coefficients are submitted at once, or batch by batch: what comes before them with the first
/// submission and what comes behind them with the last.
pub proof fn law_late_queue(
    presence: DeferredPresence,
    inputs: &DeferredInputs<'_>,
    packets: &Option<CoefficientPackets<'_>>,
    submission: DeferredSubmission,
    k: int,
)
    requires
        inputs.packet_status <= 0x1_0000,
        inputs.batches != Some(usize::MAX),
        crate::vardct_engine::execution::deferred::ranges_inside(inputs.matrices),
        packets matches Some(packets) ==> packets.spatial_groups > 0
            && packets.continuations@.len() == packets.indices@.len(),
        call_ensures(
            submit_deferred_hf_coefficients,
            (presence, inputs, packets),
            Ok::<DeferredSubmission, VarDctDecodeError>(submission),
        ),
        0 <= k < submission.queue@.len(),
    ensures
        presence.alive && presence.entropy && presence.layout,
        inputs.batches is None ==> submission.queue@.len() == 1 && submission.queue@[0].whole
            && submission.queue@[0].batch is None && submission.queue@[0].tail,
        inputs.batches matches Some(batches) ==> {
            let step = submission.queue@[k];
            &&& submission.queue@.len() == batches + 1
            &&& !step.whole
            &&& k < batches ==> step.batch == Some(k as usize)
            &&& k == batches ==> step.batch is None
            &&& step.tail <==> k == batches
            &&& step.before ==> k == 0
        },
        submission.matrix_writes@.len() == inputs.matrices.ranges@.len(),
        forall|i: int|
            0 <= i < submission.matrix_writes@.len() ==> {
                let write = #[trigger] submission.matrix_writes@[i];
                let (start, end) = inputs.matrices.ranges@[i];
                &&& write.to - write.from == end - start
                &&& write.from + inputs.matrices.first == start
                &&& start * 16 <= u64::MAX ==> write.offset == 16 * start
            },
{
    assert(submission.queue@[k] == submission.queue@[k]);
    assert forall|i: int| 0 <= i < submission.matrix_writes@.len() implies ({
        let write = #[trigger] submission.matrix_writes@[i];
        let (start, end) = inputs.matrices.ranges@[i];
        &&& write.to - write.from == end - start
        &&& write.from + inputs.matrices.first == start
        &&& start * 16 <= u64::MAX ==> write.offset == 16 * start
    }) by {
        assert(crate::vardct_engine::execution::deferred::range_inside(inputs.matrices, i));
    }
}

/// Whole late coefficients add no submission; batches of them add one each.
pub proof fn law_late_submissions(submissions: usize, whole: Result<usize, VarDctDecodeError>, batches: usize, windowed: Result<usize, VarDctDecodeError>)
    requires
        call_ensures(count_deferred_submissions, (submissions, None), whole),
        call_ensures(count_deferred_submissions, (submissions, Some(batches)), windowed),
    ensures
        whole == Ok::<usize, VarDctDecodeError>(submissions),
        windowed is Ok <==> batches > 0 && submissions + batches <= usize::MAX,
        windowed matches Ok(n) ==> n == submissions + batches,
{
}

/// A raw matrix is planned anew with a window that fits, and with no longer one than before.
pub proof fn law_matrix_window(
    stream_limit: u64,
    memory: SideImageMemory,
    available: u64,
    minimum: u64,
    limit: Option<u64>,
    shrunk: Option<u64>,
)
    requires
        memory.stream_bytes <= memory.memory_bytes,
        call_ensures(replan_limit, (stream_limit, memory, available, minimum), limit),
        call_ensures(shrink_window, (memory, available, minimum), shrunk),
    ensures
        limit is Some <==> shrunk is Some,
        limit matches Some(window) ==> window <= stream_limit && window <= shrunk->0 && (window
            == stream_limit || window == shrunk->0),
{
}

/// A raw matrix is started for a frame that is there, from a bounded packet, with what was admitted
/// for it, at its first window.
pub proof fn law_matrix_started(
    frame_pending: bool,
    plan: RawMatrixPlan,
    planned: u64,
    allocated: u64,
    ends: Vec<u32>,
    r: Result<RawMatrixWork, VarDctDecodeError>,
)
    requires
        call_ensures(
            start_raw_hf_dequant_stage,
            (frame_pending, plan, planned, allocated, ends),
            r,
        ),
    ensures
        r is Ok <==> frame_pending && plan.image is Some && plan.has_packet_end && planned
            == allocated,
        r matches Ok(work) ==> work.next_window == 1 && work.window_ends@ == ends@
            && work.matrix_index == plan.matrix_index && plan.image == Some(work.image),
{
}

/// The status of a raw matrix is accepted where its values are good and its samples and its cursor
/// are what its windows so far allow: all samples where it is done, no cursor before its first token
/// or behind its windows, and the packet's own end.
pub proof fn law_matrix_status(
    matrix_index: u32,
    image: SideImage,
    window_end: u32,
    code: RawMatrixCode,
    status: SideImageStatus,
    r: Result<(), VarDctDecodeError>,
)
    requires
        call_ensures(validate_status, (matrix_index, image, window_end, code, status), r),
    ensures
        r is Ok <==> {
            &&& !code.value_error
            &&& image.token_bit_offset + window_end <= u32::MAX
            &&& code.completed || status.is_in_progress
            &&& status.decoded_samples <= image.decoded_words
            &&& status.is_ok ==> status.decoded_samples == image.decoded_words
            &&& image.token_bit_offset <= status.cursor
            &&& status.cursor <= image.token_bit_offset + window_end
            &&& status.expected_cursor == image.packet_end
        },
{
}

/// Windowed coefficients share one stream and one set of parameters; whole ones have parameters for
/// each group. Every group has its status.
pub proof fn law_job_buffers(plan: &HfJobPlan, buffers: HfCoefficientJobBuffers, i: int)
    requires
        call_ensures(create_hf_coefficient_job_buffers, (plan,), buffers),
        0 <= i < plan.groups@.len(),
    ensures
        buffers.entropy_bundle == plan.entropy_bytes,
        buffers.order_table == plan.order_bytes,
        buffers.groups@.len() == plan.groups@.len(),
        buffers.groups@[i].status == plan.groups@[i].status_bytes,
        plan.windowed ==> buffers.stream_window == Some(plan.stream_window_bytes)
            && buffers.params_window == Some(plan.reusable_params_bytes)
            && buffers.groups@[i].params is None,
        !plan.windowed ==> buffers.stream_window is None && buffers.params_window is None
            && buffers.groups@[i].params == Some(plan.groups@[i].params_bytes),
{
    assert(buffers.groups@[i] == buffers.groups@[i]);
}

/// Behind the packets everything is submitted at once, or what comes before coefficients, each of
/// their batches in order and what comes behind them, where both uploads are there.
pub proof fn law_downstream_order(
    downstream: VarDctDownstreamCommands,
    buffers: &Option<HfCoefficientJobBuffers>,
    submissions: Vec<DownstreamSubmission>,
    i: int,
)
    requires
        crate::vardct_engine::execution::downstream::submission_count(downstream) <= usize::MAX,
        call_ensures(
            submit_vardct_downstream,
            (downstream, buffers),
            Ok::<Vec<DownstreamSubmission>, VarDctDecodeError>(submissions),
        ),
        0 <= i < submissions@.len(),
    ensures
        downstream is Whole ==> submissions@ == seq![DownstreamSubmission::Everything],
        downstream matches VarDctDownstreamCommands::Windowed { batches } ==> {
            &&& submissions@.len() == batches + 2
            &&& i == 0 ==> submissions@[i] == DownstreamSubmission::BeforeCoefficients
            &&& i == batches + 1 ==> submissions@[i] == DownstreamSubmission::AfterCoefficients
            &&& 0 < i <= batches ==> submissions@[i] == (DownstreamSubmission::Batch {
                index: (i - 1) as usize,
            })
            &&& *buffers matches Some(buffers) && buffers.stream_window is Some
                && buffers.params_window is Some
        },
{
    assert(submissions@[i] == submissions@[i]);
}

/// What is submitted first, and what is waited for then. Nothing that waits for packets is submitted
/// with them; a raw matrix comes first where nothing else does; extra channels of LF groups come
/// before LF packets; a frame behind an LF frame that waits for its HF-global prefix waits for
/// nothing else.
pub proof fn law_first_submission(
    packet: &Packet,
    staging: Staging,
    route: PacketRoute,
    deferred: bool,
    extra_output: bool,
    first: Launch,
    last: PendingStage,
)
    requires
        call_ensures(
            plan_launch,
            (packet, staging, route, deferred, extra_output),
            Ok::<Launch, VarDctDecodeError>(first),
        ),
        call_ensures(after_coefficients_stage, (extra_output,), last),
    ensures
        extra_output <==> last == PendingStage::AcExtra,
        !extra_output <==> last == PendingStage::Final,
        ({
            let apart = match route {
                PacketRoute::ClearOnly => true,
                PacketRoute::Windowed { staged } => staged,
                PacketRoute::Groups { copy_status, .. } => copy_status,
            };
            let waits = staging.hf_global || packet.pending_raw_matrix;
            &&& apart <==> first.submission == FirstSubmission::Packets
            &&& !apart ==> (packet.pending_raw_matrix <==> first.submission
                == FirstSubmission::RawMatrix)
            &&& first.submission == FirstSubmission::RawMatrix ==> deferred
            &&& !apart && !packet.pending_raw_matrix && !deferred ==> first.stage == last
            &&& apart && waits && packet.uses_lf_frame && !staging.lf_extras ==> first.stage
                == if deferred {
                PendingStage::HfGlobal
            } else {
                last
            }
            &&& apart && waits && !(packet.uses_lf_frame && !staging.lf_extras) ==> deferred
                && first.stage == if staging.lf_extras {
                PendingStage::LfExtras { post_lf: PostLf::DeferredHfGlobal }
            } else {
                PendingStage::LocalLf { post_lf: PostLf::DeferredHfGlobal }
            }
            &&& apart && !waits && !deferred ==> first.stage == if staging.lf_extras {
                PendingStage::LfExtras { post_lf: PostLf::Direct }
            } else {
                PendingStage::LocalLf { post_lf: PostLf::Direct }
            }
        }),
{
}

} // verus!
