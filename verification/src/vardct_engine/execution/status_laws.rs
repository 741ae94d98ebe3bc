//! What accepted statuses and the requests behind them guarantee.

use crate::vardct_artifact::GpuVarDctArtifactStatus;
use crate::vardct_engine::execution::extra::{
    ac_requests_of, finish_ac_extra, start_lf_extras, ExtraRequest, HfRecords,
};
use crate::vardct_engine::execution::progression::{copy_hf_status, status_prefix};
use crate::vardct_engine::execution::submit::VarDctGroupValidation;
use crate::vardct_engine::execution::validate::{
    artifact_fields, check_group, check_streams, field_refusal, hf_outcome, plan_streams,
    stream_validation, streams_outcome, HfReport, HfValidation, PacketReport,
};
use crate::vardct_engine::types::VarDctDecodeError;
use crate::profile::BitRange;
use vstd::prelude::*;

verus! {

/// The statuses of a group are accepted exactly where its packet ended at its blocks, both records
/// count the coefficients that the group has, nothing failed, every block is covered, every task
/// and entry is accounted for and nothing more is required of the backend.
pub proof fn law_group_accepted(
    group: usize,
    expected: &VarDctGroupValidation,
    packet: PacketReport,
    artifact: &GpuVarDctArtifactStatus,
    r: Result<(), VarDctDecodeError>,
)
    requires
        call_ensures(check_group, (group, expected, packet, artifact), r),
    ensures
        r is Ok <==> {
            &&& packet.first_blocks is Some
            &&& packet.coefficient_words == expected.expected_coefficients
            &&& artifact.error_code == 0
            &&& artifact.task_count == packet.first_blocks->0
            &&& artifact.coefficient_words == expected.expected_coefficients
            &&& artifact.covered_blocks == expected.expected_blocks
            &&& artifact.consumed_block_info_entries == packet.first_blocks->0
            &&& artifact.backend_requirements == 0
        },
{
    if let Some(first_blocks) = packet.first_blocks {
        let fields = artifact_fields(*expected, first_blocks, *artifact);
        reveal_with_fuel(field_refusal, 6);
        assert(fields.len() == 5);
    }
}

/// A coefficient stream is accepted where its decoder gave a cursor, reached the end of its packet
/// unless extra channels follow there, and the bit that it ended at can be named: the cursor,
/// counted from the first bit of its window.
pub proof fn law_stream_accepted(
    expected: &HfValidation,
    report: HfReport,
    r: Result<u32, VarDctDecodeError>,
    passes: u8,
    groups: u64,
    completed: bool,
)
    requires
        passes * groups <= u64::MAX,
        call_ensures(HfValidation::validate, (expected, report), r),
        call_ensures(HfValidation::is_completed_by, (expected, passes, groups), completed),
    ensures
        r is Ok <==> report.cursor is Some && (expected.continuation || report.complete)
            && report.cursor->0 + expected.cursor_base <= u32::MAX,
        r matches Ok(bit) ==> bit == report.cursor->0 + expected.cursor_base,
        groups > 0 ==> (completed <==> (expected.index as int) / (groups as int) < passes),
{
    if groups > 0 {
        let (i, g, p) = (expected.index as int, groups as int, passes as int);
        vstd::arithmetic::div_mod::lemma_fundamental_div_mod(i, g);
        vstd::arithmetic::div_mod::lemma_mod_bound(i, g);
        let q = i / g;
        assert(i < p * g <==> q < p) by (nonlinear_arith)
            requires
                i == g * q + i % g,
                0 <= i % g < g,
        ;
    }
}

/// A stream is numbered by its pass and its group, pass by pass, and must end with the range of that
/// pass and group; in a window its bits count from the start of the range, and otherwise from the
/// start of the codestream.
pub proof fn law_planned_streams(
    ranges: &Vec<Vec<BitRange>>,
    groups: u64,
    windowed: bool,
    indices: &Vec<u32>,
    continuations: &Vec<bool>,
    streams: Vec<HfValidation>,
    i: int,
    pass: int,
    group: int,
)
    requires
        groups > 0,
        continuations@.len() == indices@.len(),
        call_ensures(
            plan_streams,
            (ranges, groups, windowed, indices, continuations),
            Ok::<Vec<HfValidation>, VarDctDecodeError>(streams),
        ),
        0 <= i < indices@.len(),
        indices@[i] == pass * groups + group,
        0 <= pass,
        0 <= group < groups,
    ensures
        streams@.len() == indices@.len(),
        pass < ranges@.len(),
        group < ranges@[pass]@.len(),
        ({
            let stream = streams@[i];
            let range = ranges@[pass]@[group];
            &&& stream.index == indices@[i]
            &&& stream.continuation == continuations@[i]
            &&& stream.token_start + stream.cursor_base == range.offset
            &&& stream.token_end - stream.token_start == range.length
            &&& windowed ==> stream.token_start == 0
            &&& !windowed ==> stream.cursor_base == 0
        }),
{
    vstd::arithmetic::div_mod::lemma_fundamental_div_mod_converse(
        indices@[i] as int,
        groups as int,
        pass,
        group,
    );
    assert(stream_validation(ranges@, groups, windowed, indices@[i], continuations@[i]) == Ok::<
        HfValidation,
        VarDctDecodeError,
    >(streams@[i]));
}

/// The streams of a frame are accepted where each of them is; where only some passes are complete,
/// those of later passes are not looked at.
pub proof fn law_streams_accepted(
    expected: &Vec<HfValidation>,
    reports: &Vec<HfReport>,
    completed: Option<(u8, u64)>,
    r: Result<(), VarDctDecodeError>,
)
    requires
        completed matches Some((passes, groups)) ==> passes * groups <= u64::MAX,
        call_ensures(check_streams, (expected, reports, completed), r),
    ensures
        r is Ok <==> reports@.len() == expected@.len() && forall|i: int|
            0 <= i < expected@.len() && counts((#[trigger] expected@[i]).index, completed)
                ==> stream_good(expected@[i], reports@[i]),
{
    if reports@.len() == expected@.len() {
        let limit = crate::vardct_engine::execution::validate::completed_streams(completed);
        lemma_streams(expected@, reports@, limit, 0);
    }
}

/// A stream is one of those that count.
pub open spec fn counts(index: u32, completed: Option<(u8, u64)>) -> bool {
    match completed {
        Some((passes, groups)) => index < passes * groups,
        None => true,
    }
}

/// A stream's report is one of success.
pub open spec fn stream_good(expected: HfValidation, report: HfReport) -> bool {
    &&& report.cursor is Some
    &&& expected.continuation || report.complete
    &&& report.cursor->0 + expected.cursor_base <= u32::MAX
}

/// Nothing refuses where every stream that counts is good.
proof fn lemma_streams(
    expected: Seq<HfValidation>,
    reports: Seq<HfReport>,
    limit: Option<int>,
    i: int,
)
    requires
        0 <= i <= expected.len(),
        reports.len() == expected.len(),
    ensures
        streams_outcome(expected, reports, limit, i) is None <==> forall|k: int|
            i <= k < expected.len() && (limit is Some ==> (#[trigger] expected[k]).index < limit->0)
                ==> stream_good(expected[k], reports[k]),
    decreases expected.len() - i,
{
    if i < expected.len() {
        lemma_streams(expected, reports, limit, i + 1);
        let counts = limit is Some ==> expected[i].index < limit->0;
        assert(hf_outcome(expected[i], reports[i]) is Ok <==> stream_good(expected[i], reports[i]));
        if counts && !stream_good(expected[i], reports[i]) {
            assert(streams_outcome(expected, reports, limit, i) is Some);
        }
    }
}

/// Every LF packet asks for its own extra channels, in order and from its own cursor, in no pass.
pub proof fn law_lf_requests(cursors: &Vec<u32>, requests: Vec<ExtraRequest>, i: int)
    requires
        cursors@.len() <= u32::MAX,
        call_ensures(start_lf_extras, (cursors,), requests),
        0 <= i < cursors@.len(),
    ensures
        requests@.len() == cursors@.len(),
        requests@[i].pass is None,
        requests@[i].group == i,
        requests@[i].cursor == cursors@[i],
{
}

/// Every AC packet that extra channels follow in asks for those of its own pass and group, in the
/// order of the packets, from the bit that its coefficients ended at; no other packet does.
pub proof fn law_ac_requests(
    records: HfRecords,
    expected: &Vec<HfValidation>,
    reports: &Vec<HfReport>,
    groups: u64,
    requests: Vec<ExtraRequest>,
    k: int,
)
    requires
        0 < groups <= u32::MAX,
        records.offset + expected@.len() * records.bytes <= usize::MAX,
        call_ensures(
            finish_ac_extra,
            (records, expected, reports, groups),
            Ok::<Vec<ExtraRequest>, VarDctDecodeError>(requests),
        ),
        0 <= k < expected@.len(),
    ensures
        requests@.len() == continued(expected@, expected@.len() as int),
        reports@.len() == expected@.len(),
        records.offset + expected@.len() * records.bytes <= records.mapped,
        expected@[k].continuation ==> {
            let request = requests@[continued(expected@, k)];
            &&& request.pass is Some
            &&& request.group < groups
            &&& request.pass->0 * groups + request.group == expected@[k].index
            &&& reports@[k].cursor is Some
            &&& request.cursor == reports@[k].cursor->0 + expected@[k].cursor_base
        },
{
    let n = expected@.len() as int;
    lemma_ac_requests(expected@, reports@, groups, n);
    lemma_ac_accepted(expected@, reports@, 0, k);
    if expected@[k].continuation {
        lemma_ac_place(expected@, reports@, groups, k, n);
        let (i, g) = (expected@[k].index as int, groups as int);
        vstd::arithmetic::div_mod::lemma_fundamental_div_mod(i, g);
        vstd::arithmetic::div_mod::lemma_mod_bound(i, g);
        vstd::arithmetic::div_mod::lemma_div_pos_is_pos(i, g);
        vstd::arithmetic::div_mod::lemma_div_nonincreasing(i, g);
        assert(g * (i / g) == (i / g) * g) by (nonlinear_arith);
    }
}

/// Packets among the first `n` that extra channels follow in.
pub open spec fn continued(expected: Seq<HfValidation>, n: int) -> int
    decreases n,
{
    if n <= 0 {
        0
    } else {
        continued(expected, n - 1) + if expected[n - 1].continuation { 1int } else { 0 }
    }
}

/// As many requests as packets that go on.
proof fn lemma_ac_requests(
    expected: Seq<HfValidation>,
    reports: Seq<HfReport>,
    groups: u64,
    n: int,
)
    ensures
        ac_requests_of(expected, reports, groups, n).len() == continued(expected, n),
    decreases n,
{
    if n > 0 {
        lemma_ac_requests(expected, reports, groups, n - 1);
    }
}

/// The request of a packet stands behind those of the packets before it.
proof fn lemma_ac_place(
    expected: Seq<HfValidation>,
    reports: Seq<HfReport>,
    groups: u64,
    k: int,
    n: int,
)
    requires
        0 <= k < n,
        expected[k].continuation,
    ensures
        0 <= continued(expected, k) < ac_requests_of(expected, reports, groups, n).len(),
        ac_requests_of(expected, reports, groups, n)[continued(expected, k)] == (ExtraRequest {
            pass: Some((expected[k].index as int / groups as int) as u32),
            group: (expected[k].index as int % groups as int) as u32,
            cursor: hf_outcome(expected[k], reports[k])->Ok_0,
        }),
    decreases n,
{
    lemma_ac_requests(expected, reports, groups, n);
    lemma_ac_requests(expected, reports, groups, n - 1);
    if k < n - 1 {
        lemma_ac_place(expected, reports, groups, k, n - 1);
    }
}

/// No packet of accepted ones refuses.
proof fn lemma_ac_accepted(expected: Seq<HfValidation>, reports: Seq<HfReport>, from: int, k: int)
    requires
        0 <= from <= k < expected.len(),
        crate::vardct_engine::execution::extra::ac_refusal(expected, reports, from) is None,
    ensures
        hf_outcome(expected[k], reports[k]) is Ok,
    decreases k - from,
{
    if from < k {
        lemma_ac_accepted(expected, reports, from + 1, k);
    }
}

/// Coefficient statuses are copied one behind the other from their offset to the end of the records
/// of their image.
pub proof fn law_hf_status_copies(
    sizes: &Vec<u64>,
    offset: u64,
    status_bytes: u64,
    offsets: Vec<u64>,
    i: int,
)
    requires
        offset + status_prefix(sizes@, sizes@.len() as int) <= u64::MAX,
        call_ensures(
            copy_hf_status,
            (sizes, offset, status_bytes),
            Ok::<Vec<u64>, VarDctDecodeError>(offsets),
        ),
        0 <= i < sizes@.len(),
    ensures
        offsets@.len() == sizes@.len(),
        i == 0 ==> offsets@[i] == offset,
        i + 1 < sizes@.len() ==> offsets@[i + 1] == offsets@[i] + sizes@[i],
        i + 1 == sizes@.len() ==> offsets@[i] + sizes@[i] == status_bytes,
{
    reveal_with_fuel(status_prefix, 2);
    assert(offsets@[i] == offset + status_prefix(sizes@, i));
    if i + 1 < sizes@.len() {
        assert(offsets@[i + 1] == offset + status_prefix(sizes@, i + 1));
    }
}

} // verus!
