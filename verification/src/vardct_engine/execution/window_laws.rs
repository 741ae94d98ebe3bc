//! What the windows of packets and coefficients guarantee.

use crate::vardct_engine::execution::coefficients::{
    all_batches, encode_hf_pass, group_batches, pass_batches, whole_range_dispatches, HfBatch,
    HfCoefficientWindowCommands, HfGroupPasses, HfWindowResources, WholeRangeGroup,
};
use crate::vardct_engine::execution::hf::{
    collect_cursors, cursor_refusal, metadata_bytes, submit_hf_from_cursors, submit_hf_global_stage,
    submit_hf_stage, AfterHfMetadata, AfterLf, HfContinuations, HfResources, HfSubmission,
};
use crate::vardct_engine::execution::packet::{
    batches_refusal, is_packet_batch, plan_record_offsets, record_refusal, submit_packet_windows,
    upload_refusal, PacketBatch, PacketResources, PacketStage, PacketWindowCommands, WindowKernel,
};
use crate::vardct_engine::execution::stage::{PendingStage, PostLf};
use crate::vardct_engine::execution::submit::PacketEntry;
use crate::vardct_engine::source::DeviceLimits;
use crate::vardct_engine::types::VarDctDecodeError;
use vstd::prelude::*;

verus! {

/// Every group whose record is mapped whole and accepted gives its own cursor; one that is not
/// mapped whole, or not accepted, gives none for all.
pub proof fn law_cursors(
    mapped: usize,
    packet_status: usize,
    name: &'static str,
    reports: &Vec<Option<u32>>,
    r: Result<Vec<u32>, VarDctDecodeError>,
)
    requires
        call_ensures(collect_cursors, (mapped, packet_status, name, reports), r),
    ensures
        r is Ok <==> forall|i: int|
            0 <= i < reports@.len() ==> (#[trigger] reports@[i]) is Some && (i + 1) * packet_status
                <= mapped,
        r matches Ok(cursors) ==> cursors@.len() == reports@.len() && forall|i: int|
            0 <= i < reports@.len() ==> #[trigger] reports@[i] == Some(cursors@[i]),
{
    lemma_cursors(mapped as int, packet_status as int, name, reports@, 0);
    if let Ok(cursors) = r {
        assert forall|i: int| 0 <= i < reports@.len() implies #[trigger] reports@[i] == Some(
            cursors@[i],
        ) by {
            assert(reports@[i] == Some(cursors@[i]));
        }
    }
}

/// No group refuses exactly where all are mapped and accepted.
proof fn lemma_cursors(
    mapped: int,
    packet_status: int,
    name: &'static str,
    reports: Seq<Option<u32>>,
    i: int,
)
    requires
        0 <= i <= reports.len(),
    ensures
        cursor_refusal(mapped, packet_status, name, reports, i) is None <==> forall|k: int|
            i <= k < reports.len() ==> (#[trigger] reports[k]) is Some && (k + 1) * packet_status
                <= mapped,
    decreases reports.len() - i,
{
    if i < reports.len() {
        lemma_cursors(mapped, packet_status, name, reports, i + 1);
        if cursor_refusal(mapped, packet_status, name, reports, i) is Some {
            if (i + 1) * packet_status <= mapped && reports[i] is Some {
            } else {
                assert(!(reports[i] is Some && (i + 1) * packet_status <= mapped));
            }
        }
    }
}

/// Behind LF statuses, extra channels come first where there are any, and HF packets otherwise,
/// with every group's cursor. Behind HF-metadata statuses comes a known raw matrix, or the one
/// group's cursor to parse from.
pub proof fn law_stages_continue(
    alive: bool,
    mapped: usize,
    packet_status: usize,
    reports: &Vec<Option<u32>>,
    has_lf_extras: bool,
    lf: AfterLf,
    pending_raw_matrix: bool,
    hf: AfterHfMetadata,
)
    requires
        call_ensures(
            submit_hf_stage,
            (alive, mapped, packet_status, reports, has_lf_extras),
            Ok::<AfterLf, VarDctDecodeError>(lf),
        ),
        call_ensures(
            submit_hf_global_stage,
            (alive, mapped, packet_status, reports, pending_raw_matrix),
            Ok::<AfterHfMetadata, VarDctDecodeError>(hf),
        ),
    ensures
        alive,
        lf is LfExtras <==> has_lf_extras,
        ({
            let cursors = match lf {
                AfterLf::LfExtras { cursors } => cursors@,
                AfterLf::Hf { cursors } => cursors@,
            };
            cursors.len() == reports@.len() && forall|i: int|
                0 <= i < reports@.len() ==> #[trigger] reports@[i] == Some(cursors[i])
        }),
        hf is RawMatrix <==> pending_raw_matrix,
        hf matches AfterHfMetadata::Parse { cursor } ==> reports@ == seq![Some(cursor)],
{
    if let AfterHfMetadata::Parse { cursor } = hf {
        assert(reports@[0] == Some(lf.cursors()[0]));
        assert(reports@ =~= seq![Some(cursor)]);
    }
}

/// Packet records follow one another from the start of their buffer on.
pub proof fn law_record_offsets(groups: usize, packet_status: u64, offsets: Vec<u64>, i: int)
    requires
        groups * packet_status <= u64::MAX,
        call_ensures(plan_record_offsets, (groups, packet_status), offsets),
        0 <= i < groups,
    ensures
        offsets@.len() == groups,
        i == 0 ==> offsets@[i] == 0,
        i + 1 < groups ==> offsets@[i + 1] == offsets@[i] + packet_status,
{
    let p = packet_status as int;
    let g = groups as int;
    assert(0 * p == 0 && (i + 1) * p == i * p + p) by (nonlinear_arith);
    assert(0 <= i * p && (i + 1) * p <= g * p) by (nonlinear_arith)
        requires
            0 <= i < g,
            0 <= p,
    ;
}

/// Every batch of packets is submitted once and in order, for groups that are there and have control
/// records and metadata: the one shared metadata where stages are combined, else their own. What was
/// recorded comes before the first batch; records are copied and what follows is submitted behind
/// the last.
pub proof fn law_packet_batches(
    commands: &PacketWindowCommands,
    resources: PacketResources,
    has_downstream: bool,
    batches: Vec<PacketBatch>,
    i: int,
    s: int,
)
    requires
        resources.groups * resources.packet_status <= u64::MAX,
        call_ensures(
            submit_packet_windows,
            (commands, resources, has_downstream),
            Ok::<Vec<PacketBatch>, VarDctDecodeError>(batches),
        ),
        0 <= i < batches@.len(),
        0 <= s < batches@[i].segments@.len(),
    ensures
        batches@.len() == commands.batches@.len(),
        ({
            let batch = batches@[i];
            let segment = batch.segments@[s];
            let last = i == batches@.len() - 1;
            &&& batch.segments@ == commands.batches@[i]@
            &&& segment < resources.groups
            &&& segment < commands.controls
            &&& commands.stage == PacketStage::Combined ==> resources.metadata > 0
            &&& commands.stage != PacketStage::Combined ==> segment < resources.metadata
            &&& batch.setup <==> commands.has_setup && i == 0
            &&& batch.downstream <==> has_downstream && last
            &&& batch.status_offsets@.len() == if commands.status_boundary && last {
                resources.groups as int
            } else {
                0
            }
            &&& batch.kernel == WindowKernel::Lf <==> commands.stage == PacketStage::Lf
            &&& batch.kernel == WindowKernel::Combined <==> commands.stage == PacketStage::Combined
            &&& batch.kernel == WindowKernel::HfMetadata <==> commands.stage == PacketStage::Hf
                && commands.status_boundary
        }),
{
    assert(is_packet_batch(batches@[i], *commands, resources, has_downstream, i));
    lemma_batch_accepted(*commands, resources, 0, i);
    lemma_segment_accepted(
        commands.batches@[i]@,
        commands.controls,
        commands.stage,
        resources,
        0,
        s,
    );
}

/// No batch of accepted packets is refused on its own.
proof fn lemma_batch_accepted(
    commands: PacketWindowCommands,
    resources: PacketResources,
    from: int,
    i: int,
)
    requires
        0 <= from <= i < commands.batches@.len(),
        batches_refusal(commands, resources, from) is None,
    ensures
        upload_refusal(commands.batches@[i]@, commands.controls, resources, 0) is None,
        record_refusal(commands.batches@[i]@, commands.stage, resources, 0) is None,
    decreases i - from,
{
    if from < i {
        lemma_batch_accepted(commands, resources, from + 1, i);
    }
}

/// No segment of an accepted batch is refused on its own.
proof fn lemma_segment_accepted(
    segments: Seq<usize>,
    controls: usize,
    stage: PacketStage,
    resources: PacketResources,
    from: int,
    s: int,
)
    requires
        0 <= from <= s < segments.len(),
        upload_refusal(segments, controls, resources, from) is None,
        record_refusal(segments, stage, resources, from) is None,
    ensures
        segments[s] < resources.groups,
        segments[s] < controls,
        crate::vardct_engine::execution::packet::window_metadata(stage, segments[s])
            < resources.metadata,
    decreases s - from,
{
    if from < s {
        lemma_segment_accepted(segments, controls, stage, resources, from + 1, s);
    }
}

/// Bytes of metadata, four for each word of the first `n` buffers.
pub open spec fn metadata_total(words: Seq<u64>, n: int) -> int
    decreases n,
{
    if n <= 0 {
        0
    } else {
        metadata_total(words, n - 1) + 4 * words[n - 1]
    }
}

/// Both ways to add metadata agree.
proof fn lemma_metadata(words: Seq<u64>, n: int)
    ensures
        metadata_total(words, n) == metadata_bytes(words, n),
    decreases n,
{
    if n > 0 {
        lemma_metadata(words, n - 1);
    }
}

/// HF packets reserve what their metadata need beyond what is there. Every batch of windows but one
/// is a submission more. Packets that stop at their metadata have their records copied and wait for
/// an HF-global prefix; all others are followed by what comes next.
pub proof fn law_hf_packets(
    hf: &HfContinuations,
    resources: HfResources,
    post_lf: PostLf,
    extra_output: bool,
    limits: DeviceLimits,
    submission: HfSubmission,
)
    requires
        hf.metadata_words@.len() * resources.packet_status <= u64::MAX,
        call_ensures(
            submit_hf_from_cursors,
            (hf, resources, limits, post_lf, extra_output),
            Ok::<HfSubmission, VarDctDecodeError>(submission),
        ),
    ensures
        ({
            let bytes = metadata_total(hf.metadata_words@, hf.metadata_words@.len() as int);
            let stops = post_lf == PostLf::DeferredHfGlobal;
            &&& resources.alive
            &&& submission.additional_bytes is Some <==> bytes > resources.modular_metadata
            &&& submission.additional_bytes matches Some(more) ==> resources.modular_metadata + more
                == bytes
            &&& hf.window is None ==> submission.submissions == resources.submissions
            &&& hf.window matches Some(window) ==> {
                &&& window.batches > 0
                &&& submission.submissions == resources.submissions + window.batches - 1
                &&& resources.stream_window is Some ==> window.stream_bytes
                    <= resources.stream_window->0
                &&& resources.stream_window is None ==> window.stream_bytes == 0
            }
            &&& submission.metadata_stop <==> stops
            &&& submission.downstream <==> !stops
            &&& submission.entry == PacketEntry::HfMetadata <==> stops
            &&& submission.entry == PacketEntry::Hf <==> !stops
            &&& submission.stage == PendingStage::HfGlobal <==> stops
            &&& submission.status_offsets@.len() == if stops {
                hf.metadata_words@.len() as int
            } else {
                0
            }
        }),
{
    let words = hf.metadata_words@;
    lemma_metadata(words, words.len() as int);
    lemma_metadata_fits(words, 0);
    assert(hf.metadata_words.len() == words.len());
}

/// Metadata that were added fit a machine word.
proof fn lemma_metadata_fits(words: Seq<u64>, i: int)
    requires
        0 <= i <= words.len(),
        0 <= metadata_bytes(words, i) <= u64::MAX,
        crate::vardct_engine::execution::hf::metadata_overflow(words, i) is None,
    ensures
        0 <= metadata_bytes(words, words.len() as int) <= u64::MAX,
    decreases words.len() - i,
{
    if i < words.len() {
        lemma_metadata_fits(words, i + 1);
    }
}

/// One dispatch for each group decodes all of its streams, where it has parameters.
pub proof fn law_whole_ranges(groups: &Vec<WholeRangeGroup>, dispatches: Vec<u32>, i: int)
    requires
        call_ensures(
            whole_range_dispatches,
            (groups,),
            Ok::<Vec<u32>, VarDctDecodeError>(dispatches),
        ),
        0 <= i < groups@.len(),
    ensures
        dispatches@.len() == groups@.len(),
        dispatches@[i] == groups@[i].streams,
        groups@[i].has_params,
{
    lemma_whole_range(groups@, 0, i);
    assert(dispatches@[i] == groups@[i].streams);
}

/// No group of accepted ranges is refused on its own.
proof fn lemma_whole_range(groups: Seq<WholeRangeGroup>, from: int, i: int)
    requires
        0 <= from <= i < groups.len(),
        crate::vardct_engine::execution::coefficients::whole_range_refusal(groups, from) is None,
    ensures
        groups[i].has_params,
    decreases i - from,
{
    if from < i {
        lemma_whole_range(groups, from + 1, i);
    }
}

/// Batches of a pass ascend by group and batch.
spec fn ascend(a: HfBatch, b: HfBatch) -> bool {
    a.group < b.group || (a.group == b.group && a.batch < b.batch)
}

/// The batches of a pass.
proof fn lemma_pass_batches(groups: Seq<HfGroupPasses>, pass: int, n: int)
    requires
        0 <= n <= groups.len() <= usize::MAX,
        forall|g: int|
            0 <= g < groups.len() ==> pass < (#[trigger] groups[g]).batches@.len(),
        forall|g: int| 0 <= g < groups.len() ==> (#[trigger] groups[g]).batches@[pass]@.len() <= usize::MAX,
        0 <= pass,
    ensures
        ({
            let batches = pass_batches(groups, pass, n);
            &&& forall|i: int|
                0 <= i < batches.len() ==> (#[trigger] batches[i]).group < n
                    && batches[i].batch < groups[batches[i].group as int].batches@[pass]@.len()
                    && batches[i].dispatch == groups[batches[i].group as int].batches@[pass]@[batches[i].batch as int] as u32
            &&& forall|i: int, j: int|
                0 <= i < j < batches.len() ==> ascend(#[trigger] batches[i], #[trigger] batches[j])
        }),
    decreases n,
{
    if n > 0 {
        lemma_pass_batches(groups, pass, n - 1);
        let front = pass_batches(groups, pass, n - 1);
        let streams = groups[n - 1].batches@[pass]@;
        let own = group_batches(n - 1, streams, streams.len() as int);
        let batches = pass_batches(groups, pass, n);
        assert(batches == front + own);
    }
}

/// Where a batch of a group is submitted.
proof fn lemma_batch_found(groups: Seq<HfGroupPasses>, pass: int, n: int, g: int, b: int) -> (i: int)
    requires
        0 <= g < n <= groups.len() <= usize::MAX,
        0 <= pass,
        0 <= b < groups[g].batches@[pass]@.len() <= usize::MAX,
    ensures
        0 <= i < pass_batches(groups, pass, n).len(),
        pass_batches(groups, pass, n)[i].group == g,
        pass_batches(groups, pass, n)[i].batch == b,
    decreases n,
{
    let front = pass_batches(groups, pass, n - 1);
    let streams = groups[n - 1].batches@[pass]@;
    let own = group_batches(n - 1, streams, streams.len() as int);
    assert(pass_batches(groups, pass, n) == front + own);
    if g == n - 1 {
        assert((front + own)[front.len() + b] == own[b]);
        front.len() + b
    } else {
        lemma_batch_found(groups, pass, n - 1, g, b)
    }
}

/// A pass is submitted batch by batch in the order of its groups, every batch once and with all of
/// its streams.
pub proof fn law_pass_batches(
    commands: &HfCoefficientWindowCommands,
    resources: HfWindowResources,
    pass: usize,
    batches: Vec<HfBatch>,
    i: int,
    j: int,
    g: int,
    b: int,
)
    requires
        commands.wf(),
        call_ensures(
            HfCoefficientWindowCommands::submit_pass,
            (commands, resources, pass),
            Ok::<Vec<HfBatch>, VarDctDecodeError>(batches),
        ),
        0 <= i < batches@.len(),
    ensures
        resources.has_stream && resources.has_params,
        commands.groups@.len() <= resources.groups,
        commands.groups@.len() <= resources.status_groups,
        ({
            let batch = batches@[i];
            let streams = commands.groups@[batch.group as int].batches@[pass as int]@;
            &&& batch.group < commands.groups@.len()
            &&& batch.batch < streams.len()
            &&& batch.dispatch == streams[batch.batch as int]
        }),
        i < j < batches@.len() ==> batches@[i].group < batches@[j].group || batches@[i].group
            == batches@[j].group && batches@[i].batch < batches@[j].batch,
        0 <= g < commands.groups@.len() && 0 <= b < commands.groups@[g].batches@[pass as int]@.len()
            ==> exists|k: int|
            0 <= k < batches@.len() && (#[trigger] batches@[k]).group == g && batches@[k].batch == b,
{
    let groups = commands.groups@;
    assert(commands.groups.len() == groups.len());
    assert forall|g: int| 0 <= g < groups.len() implies pass < (
    #[trigger] groups[g]).batches@.len() && g < resources.groups && g < resources.status_groups by {
        lemma_window_pass(groups, resources, pass, 0, g);
    }
    assert forall|g: int| 0 <= g < groups.len() implies (#[trigger] groups[g]).batches@[pass as int]@.len()
        <= usize::MAX by {
        assert(groups[g].batches@[pass as int].len() == groups[g].batches@[pass as int]@.len());
    }
    lemma_pass_batches(groups, pass as int, groups.len() as int);
    if groups.len() > 0 {
        assert(pass < groups[groups.len() - 1].batches@.len());
    }
    let batch = batches@[i];
    assert(commands.groups@[batch.group as int].batches@[pass as int]@[batch.batch as int]
        <= commands.max_group_count);
    if i < j < batches@.len() {
        assert(ascend(batches@[i], batches@[j]));
    }
    if 0 <= g < groups.len() && 0 <= b < groups[g].batches@[pass as int]@.len() {
        assert(groups[g].batches@[pass as int]@.len() <= usize::MAX);
        let k = lemma_batch_found(groups, pass as int, groups.len() as int, g, b);
        assert(batches@[k].group == g);
    }
}

/// No group of an accepted pass is refused on its own.
proof fn lemma_window_pass(
    groups: Seq<HfGroupPasses>,
    resources: HfWindowResources,
    pass: usize,
    from: int,
    g: int,
)
    requires
        0 <= from <= g < groups.len(),
        crate::vardct_engine::execution::coefficients::window_pass_refusal(
            groups,
            resources,
            pass,
            from,
        ) is None,
    ensures
        pass < groups[g].batches@.len(),
        g < resources.groups,
        g < resources.status_groups,
    decreases g - from,
{
    if from < g {
        lemma_window_pass(groups, resources, pass, from + 1, g);
    }
}

/// A pass that is decoded whole has one dispatch for each group, with all streams that the group has
/// in that pass, where it has parameters for it.
pub proof fn law_whole_pass(
    groups: &Vec<HfGroupPasses>,
    params: &Vec<Option<usize>>,
    buffers: usize,
    pass: usize,
    dispatches: Vec<u32>,
    i: int,
)
    requires
        call_ensures(
            encode_hf_pass,
            (groups, params, buffers, pass),
            Ok::<Vec<u32>, VarDctDecodeError>(dispatches),
        ),
        0 <= i < groups@.len(),
    ensures
        groups@.len() == params@.len() == buffers,
        dispatches@.len() == groups@.len(),
        pass < groups@[i].streams@.len(),
        dispatches@[i] == groups@[i].streams@[pass as int],
        params@[i] is Some && pass < params@[i]->0,
{
    lemma_whole_pass(groups@, params@, pass, 0, i);
    assert(dispatches@[i] == groups@[i].streams@[pass as int]);
}

/// No group of an accepted pass is refused on its own.
proof fn lemma_whole_pass(
    groups: Seq<HfGroupPasses>,
    params: Seq<Option<usize>>,
    pass: usize,
    from: int,
    i: int,
)
    requires
        0 <= from <= i < groups.len(),
        crate::vardct_engine::execution::coefficients::pass_refusal(groups, params, pass, from)
            is None,
    ensures
        pass < groups[i].streams@.len(),
        params[i] is Some && pass < params[i]->0,
    decreases i - from,
{
    if from < i {
        lemma_whole_pass(groups, params, pass, from + 1, i);
    }
}

/// Batches of the first `n` passes.
pub open spec fn batches_before(groups: Seq<HfGroupPasses>, n: int) -> int
    decreases n,
{
    if n <= 0 {
        0
    } else {
        batches_before(groups, n - 1) + pass_batches(groups, n - 1, groups.len() as int).len()
    }
}

/// All passes are submitted one behind the other: each as it is submitted alone, behind the batches
/// of those before it, and none twice.
pub proof fn law_passes_submitted(
    commands: &HfCoefficientWindowCommands,
    resources: HfWindowResources,
    all: Vec<HfBatch>,
    pass: usize,
    own: Vec<HfBatch>,
)
    requires
        commands.wf(),
        call_ensures(
            HfCoefficientWindowCommands::submit,
            (commands, resources),
            Ok::<Vec<HfBatch>, VarDctDecodeError>(all),
        ),
        pass < commands.passes,
        call_ensures(
            HfCoefficientWindowCommands::submit_pass,
            (commands, resources, pass),
            Ok::<Vec<HfBatch>, VarDctDecodeError>(own),
        ),
    ensures
        all@.len() == batches_before(commands.groups@, commands.passes as int),
        ({
            let start = batches_before(commands.groups@, pass as int);
            &&& 0 <= start
            &&& start + own@.len() == batches_before(commands.groups@, pass + 1)
            &&& start + own@.len() <= all@.len()
            &&& all@.subrange(start, start + own@.len()) == own@
        }),
{
    lemma_passes_submitted(commands.groups@, pass as int, commands.passes as int);
}

/// The batches of a pass among those of all passes.
proof fn lemma_passes_submitted(groups: Seq<HfGroupPasses>, pass: int, passes: int)
    requires
        0 <= pass < passes,
    ensures
        all_batches(groups, passes).len() == batches_before(groups, passes),
        0 <= batches_before(groups, pass),
        ({
            let own = pass_batches(groups, pass, groups.len() as int);
            let start = batches_before(groups, pass);
            &&& start + own.len() <= all_batches(groups, passes).len()
            &&& all_batches(groups, passes).subrange(start, start + own.len()) == own
        }),
    decreases passes,
{
    lemma_batches_counted(groups, passes);
    lemma_batches_counted(groups, passes - 1);
    lemma_batches_counted(groups, pass);
    let own = pass_batches(groups, pass, groups.len() as int);
    let start = batches_before(groups, pass);
    let all = all_batches(groups, passes);
    if pass < passes - 1 {
        lemma_passes_submitted(groups, pass, passes - 1);
        let front = all_batches(groups, passes - 1);
        assert(all.subrange(start, start + own.len()) =~= front.subrange(start, start + own.len()));
    } else {
        assert(all.subrange(start, start + own.len()) =~= own);
    }
}

/// Batches are counted pass by pass.
proof fn lemma_batches_counted(groups: Seq<HfGroupPasses>, passes: int)
    ensures
        all_batches(groups, passes).len() == batches_before(groups, passes),
        0 <= batches_before(groups, passes),
    decreases passes,
{
    if passes > 0 {
        lemma_batches_counted(groups, passes - 1);
    }
}

} // verus!
