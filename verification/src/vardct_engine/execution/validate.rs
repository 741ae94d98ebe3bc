//! Acceptance of the statuses that a frame's GPU stages report.

use crate::arith::least;
use crate::pod::{native_words, read_words};
use crate::profile::BitRange;
use crate::vardct_artifact::{lowering_failure, GpuVarDctArtifactStatus};
use crate::vardct_engine::execution::submit::VarDctGroupValidation;
use crate::vardct_engine::types::VarDctDecodeError;
use vstd::prelude::*;

verus! {

/// What one group's packet decoder reported.
#[derive(Clone, Copy, Debug, PartialEq, Eq, Structural)]
pub struct PacketReport {
    /// First blocks of its varblocks, unless it failed.
    pub first_blocks: Option<u32>,
    pub coefficient_words: u32,
}

/// One word of a lowering status and what it must be.
pub open spec fn artifact_fields(
    expected: VarDctGroupValidation,
    first_blocks: u32,
    artifact: GpuVarDctArtifactStatus,
) -> Seq<(&'static str, u32, u32)> {
    seq![
        ("task_count", first_blocks, artifact.task_count),
        ("coefficient_words", expected.expected_coefficients, artifact.coefficient_words),
        ("covered_blocks", expected.expected_blocks, artifact.covered_blocks),
        ("consumed_block_info_entries", first_blocks, artifact.consumed_block_info_entries),
        ("backend_requirements", 0u32, artifact.backend_requirements),
    ]
}

/// The first field from `i` on that is not what it must be.
pub open spec fn field_refusal(fields: Seq<(&'static str, u32, u32)>, i: int) -> Option<
    VarDctDecodeError,
>
    decreases fields.len() - i,
{
    if i >= fields.len() {
        None
    } else if fields[i].1 != fields[i].2 {
        Some(
            VarDctDecodeError::ArtifactStatus {
                field: fields[i].0,
                expected: fields[i].1,
                actual: fields[i].2,
            },
        )
    } else {
        field_refusal(fields, i + 1)
    }
}

/// Why the statuses of one group are refused.
pub open spec fn group_refusal(
    group: usize,
    expected: VarDctGroupValidation,
    packet: PacketReport,
    artifact: GpuVarDctArtifactStatus,
) -> Option<VarDctDecodeError> {
    match packet.first_blocks {
        None => Some(VarDctDecodeError::PacketStatus { group }),
        Some(first_blocks) => if packet.coefficient_words != expected.expected_coefficients {
            Some(
                VarDctDecodeError::ArtifactStatus {
                    field: "packet coefficient_words",
                    expected: expected.expected_coefficients,
                    actual: packet.coefficient_words,
                },
            )
        } else {
            match lowering_failure(artifact) {
                Some(error) => Some(VarDctDecodeError::Lowering(error)),
                None => field_refusal(artifact_fields(expected, first_blocks, artifact), 0),
            }
        },
    }
}

/// Accepts the statuses of one group.
pub fn check_group(
    group: usize,
    expected: &VarDctGroupValidation,
    packet: PacketReport,
    artifact: &GpuVarDctArtifactStatus,
) -> (r: Result<(), VarDctDecodeError>)
    ensures
        match group_refusal(group, *expected, packet, *artifact) {
            Some(error) => r == Err::<(), VarDctDecodeError>(error),
            None => r is Ok,
        },
{
    let first_blocks: u32 = match packet.first_blocks {
        Some(blocks) => blocks,
        None => {
            return Err(VarDctDecodeError::PacketStatus { group });
        },
    };
    if packet.coefficient_words != expected.expected_coefficients {
        return Err(
            VarDctDecodeError::ArtifactStatus {
                field: "packet coefficient_words",
                expected: expected.expected_coefficients,
                actual: packet.coefficient_words,
            },
        );
    }
    match artifact.validate() {
        Ok(_) => {},
        Err(error) => {
            return Err(VarDctDecodeError::Lowering(error));
        },
    }
    let fields: Vec<(&'static str, u32, u32)> = vec![
        ("task_count", first_blocks, artifact.task_count),
        ("coefficient_words", expected.expected_coefficients, artifact.coefficient_words),
        ("covered_blocks", expected.expected_blocks, artifact.covered_blocks),
        ("consumed_block_info_entries", first_blocks, artifact.consumed_block_info_entries),
        ("backend_requirements", 0u32, artifact.backend_requirements),
    ];
    let ghost all = artifact_fields(*expected, first_blocks, *artifact);
    assert(fields@ =~= all);
    let mut i: usize = 0;
    while i < fields.len()
        invariant
            i <= fields@.len(),
            fields@ == all,
            group_refusal(group, *expected, packet, *artifact) == field_refusal(all, 0),
            field_refusal(all, 0) == field_refusal(all, i as int),
        decreases fields@.len() - i,
    {
        let (field, wanted, actual) = fields[i];
        if wanted != actual {
            return Err(VarDctDecodeError::ArtifactStatus { field, expected: wanted, actual });
        }
        i = i + 1;
    }
    Ok(())
}

/// A lowering status and its sixteen words.
pub open spec fn status_of(status: GpuVarDctArtifactStatus, words: Seq<u32>) -> bool {
    &&& words.len() == 16
    &&& status.error_code == words[0]
    &&& status.error_x == words[1]
    &&& status.error_y == words[2]
    &&& status.error_value == words[3]
    &&& status.task_count == words[4]
    &&& status.coefficient_words == words[5]
    &&& status.covered_blocks == words[6]
    &&& status.consumed_block_info_entries == words[7]
    &&& status.backend_requirements == words[8]
}

/// Reads the lowering status at `offset` of the mapped records.
pub fn read_artifact(mapped: &[u8], offset: usize) -> (r: Result<
    GpuVarDctArtifactStatus,
    VarDctDecodeError,
>)
    ensures
        if offset + 64 <= mapped@.len() {
            r matches Ok(status) && exists|words: Seq<u32>|
                #[trigger] native_words(words, mapped@.subrange(offset as int, offset + 64))
                    && status_of(status, words)
        } else {
            r == Err::<GpuVarDctArtifactStatus, VarDctDecodeError>(
                VarDctDecodeError::StatusAbi { status: "artifact" },
            )
        },
{
    if offset > mapped.len() || mapped.len() - offset < 64 {
        return Err(VarDctDecodeError::StatusAbi { status: "artifact" });
    }
    let bytes = vstd::slice::slice_subrange(mapped, offset, offset + 64);
    match read_words::<16>(bytes) {
        Ok(words) => {
            let status = GpuVarDctArtifactStatus::from_words(words);
            assert(status_of(status, words@));
            Ok(status)
        },
        Err(_) => Err(VarDctDecodeError::StatusAbi { status: "artifact" }),
    }
}

/// A lowering status whose words are the mapped ones at byte `at`.
pub open spec fn reading(mapped: Seq<u8>, at: int, status: GpuVarDctArtifactStatus) -> bool {
    exists|words: Seq<u32>|
        #[trigger] native_words(words, mapped.subrange(at, at + 64)) && status_of(status, words)
}

/// Lowering statuses of all groups, whose words are the mapped ones behind byte `start`.
pub open spec fn readings(
    mapped: Seq<u8>,
    start: int,
    statuses: Seq<GpuVarDctArtifactStatus>,
) -> bool {
    forall|i: int| 0 <= i < statuses.len() ==> reading(mapped, start + i * 64, #[trigger] statuses[i])
}

/// The first of the read groups from `i` on whose statuses are refused, and why.
pub open spec fn groups_outcome(
    expected: Seq<VarDctGroupValidation>,
    packets: Seq<PacketReport>,
    statuses: Seq<GpuVarDctArtifactStatus>,
    i: int,
) -> Option<VarDctDecodeError>
    decreases statuses.len() - i,
{
    if i >= statuses.len() {
        None
    } else if group_refusal(i as usize, expected[i], packets[i], statuses[i]) is Some {
        group_refusal(i as usize, expected[i], packets[i], statuses[i])
    } else {
        groups_outcome(expected, packets, statuses, i + 1)
    }
}

/// A success or the refusal that stands for it.
pub open spec fn outcome_is(
    r: Result<(), VarDctDecodeError>,
    refusal: Option<VarDctDecodeError>,
) -> bool {
    match refusal {
        Some(error) => r == Err::<(), VarDctDecodeError>(error),
        None => r is Ok,
    }
}

/// Mapped records can be read as statuses from group `i` on.
proof fn lemma_readings_exist(
    mapped: Seq<u8>,
    start: int,
    known: Seq<GpuVarDctArtifactStatus>,
    n: int,
) -> (all: Seq<GpuVarDctArtifactStatus>)
    requires
        0 <= start,
        known.len() <= n,
        start + n * 64 <= mapped.len(),
        readings(mapped, start, known),
    ensures
        all.len() == n,
        readings(mapped, start, all),
        forall|i: int| 0 <= i < known.len() ==> #[trigger] all[i] == known[i],
    decreases n - known.len(),
{
    if known.len() == n {
        known
    } else {
        let at = start + known.len() * 64;
        let bytes = mapped.subrange(at, at + 64);
        let words = Seq::new(16, |k: int| crate::pod::word_le(bytes, k));
        let status = GpuVarDctArtifactStatus {
            error_code: words[0],
            error_x: words[1],
            error_y: words[2],
            error_value: words[3],
            task_count: words[4],
            coefficient_words: words[5],
            covered_blocks: words[6],
            consumed_block_info_entries: words[7],
            backend_requirements: words[8],
            reserved: arbitrary(),
        };
        assert(native_words(words, bytes));
        assert(status_of(status, words));
        assert(reading(mapped, at, status));
        let next = known.push(status);
        assert forall|i: int| 0 <= i < next.len() implies reading(
            mapped,
            start + i * 64,
            #[trigger] next[i],
        ) by {
            if i < known.len() {
                assert(next[i] == known[i]);
            }
        }
        let all = lemma_readings_exist(mapped, start, next, n);
        assert forall|i: int| 0 <= i < known.len() implies #[trigger] all[i] == known[i] by {
            assert(next[i] == known[i]);
        }
        all
    }
}

/// Statuses that agree up to group `i` are refused alike there.
proof fn lemma_groups_outcome(
    expected: Seq<VarDctGroupValidation>,
    packets: Seq<PacketReport>,
    a: Seq<GpuVarDctArtifactStatus>,
    b: Seq<GpuVarDctArtifactStatus>,
    from: int,
    i: int,
)
    requires
        0 <= from <= i < expected.len(),
        i < a.len(),
        i < b.len(),
        forall|k: int| from <= k <= i ==> #[trigger] a[k] == b[k],
        forall|k: int|
            from <= k < i ==> group_refusal(
                k as usize,
                expected[k],
                packets[k],
                #[trigger] a[k],
            ) is None,
        group_refusal(i as usize, expected[i], packets[i], a[i]) is Some,
    ensures
        groups_outcome(expected, packets, b, from) == group_refusal(
            i as usize,
            expected[i],
            packets[i],
            a[i],
        ),
    decreases i - from,
{
    assert(a[from] == b[from]);
    if from < i {
        lemma_groups_outcome(expected, packets, a, b, from + 1, i);
    }
}

/// Groups that are all accepted leave no refusal.
proof fn lemma_groups_accepted(
    expected: Seq<VarDctGroupValidation>,
    packets: Seq<PacketReport>,
    statuses: Seq<GpuVarDctArtifactStatus>,
    from: int,
)
    requires
        0 <= from,
        forall|k: int|
            from <= k < statuses.len() ==> group_refusal(
                k as usize,
                expected[k],
                packets[k],
                #[trigger] statuses[k],
            ) is None,
    ensures
        groups_outcome(expected, packets, statuses, from) is None,
    decreases statuses.len() - from,
{
    if from < statuses.len() {
        assert(group_refusal(from as usize, expected[from], packets[from], statuses[from]) is None);
        lemma_groups_accepted(expected, packets, statuses, from + 1);
    }
}

/// Groups whose lowering records are there, behind byte `start` of the mapped statuses.
pub open spec fn readable_groups(mapped: int, start: int, n: int) -> int {
    if mapped < start {
        0
    } else {
        least(n, (mapped - start) / 64)
    }
}

/// What the statuses of all groups come to: records that are there are accepted or refused by
/// what their words say, and the first one that is not there is refused.
pub open spec fn groups_checked(
    mapped: Seq<u8>,
    packet_status: int,
    expected: Seq<VarDctGroupValidation>,
    packets: Seq<PacketReport>,
    r: Result<(), VarDctDecodeError>,
) -> bool {
    let n = expected.len() as int;
    let start = n * packet_status;
    let readable = readable_groups(mapped.len() as int, start, n);
    if n > 0 && packet_status > mapped.len() {
        r == Err::<(), VarDctDecodeError>(VarDctDecodeError::StatusAbi { status: "packet" })
    } else {
        exists|statuses: Seq<GpuVarDctArtifactStatus>|
            #![trigger readings(mapped, start, statuses)]
            {
                &&& statuses.len() == readable
                &&& readings(mapped, start, statuses)
                &&& outcome_is(
                    r,
                    match groups_outcome(expected, packets, statuses, 0) {
                        Some(error) => Some(error),
                        None => if readable < n {
                            Some(VarDctDecodeError::StatusAbi { status: "artifact" })
                        } else {
                            None
                        },
                    },
                )
            }
    }
}

/// Accepts the statuses of every group: packet reports of records at the start of the mapped
/// statuses, and the lowering records behind all of them.
pub fn check_groups(
    mapped: &[u8],
    packet_status: usize,
    expected: &Vec<VarDctGroupValidation>,
    packets: &Vec<PacketReport>,
) -> (r: Result<(), VarDctDecodeError>)
    requires
        packets@.len() == expected@.len(),
        expected@.len() * (packet_status + 64) <= usize::MAX,
    ensures
        groups_checked(mapped@, packet_status as int, expected@, packets@, r),
{
    let n: usize = expected.len();
    assert(n * (packet_status + 64) == n * packet_status + n * 64) by (nonlinear_arith);
    let start: usize = n * packet_status;
    let ghost mut statuses: Seq<GpuVarDctArtifactStatus> = Seq::empty();
    let mut i: usize = 0;
    while i < n
        invariant
            n == expected@.len(),
            i <= n,
            packets@.len() == n,
            start == n * packet_status,
            start + n * 64 <= usize::MAX,
            i > 0 ==> packet_status <= mapped@.len() && start + i * 64 <= mapped@.len(),
            statuses.len() == i,
            readings(mapped@, start as int, statuses),
            forall|k: int|
                0 <= k < i ==> group_refusal(
                    k as usize,
                    expected@[k],
                    packets@[k],
                    #[trigger] statuses[k],
                ) is None,
        decreases n - i,
    {
        assert(0 <= i * packet_status && (i + 1) * packet_status <= start && (i + 1)
            * packet_status == i * packet_status + packet_status) by (nonlinear_arith)
            requires
                i < n,
                start == n * packet_status,
        ;
        if (i + 1) * packet_status > mapped.len() {
            assert(i == 0);
            assert((0 + 1) * packet_status == packet_status) by (nonlinear_arith);
            return Err(VarDctDecodeError::StatusAbi { status: "packet" });
        }
        assert(packet_status <= mapped@.len()) by (nonlinear_arith)
            requires
                (i + 1) * packet_status <= mapped@.len(),
                i >= 0,
                packet_status >= 0,
        ;
        let at: usize = start + i * 64;
        let status = match read_artifact(mapped, at) {
            Ok(status) => status,
            Err(error) => {
                proof {
                    assert(readable_groups(mapped@.len() as int, start as int, n as int) == i);
                    lemma_groups_accepted(expected@, packets@, statuses, 0);
                }
                return Err(error);
            },
        };
        proof {
            let before = statuses;
            statuses = statuses.push(status);
            assert forall|k: int| 0 <= k < statuses.len() implies reading(
                mapped@,
                start + k * 64,
                #[trigger] statuses[k],
            ) by {
                if k < before.len() {
                    assert(statuses[k] == before[k]);
                }
            }
        }
        match check_group(i, &expected[i], packets[i], &status) {
            Ok(_) => {},
            Err(error) => {
                proof {
                    let readable = readable_groups(mapped@.len() as int, start as int, n as int);
                    let all = lemma_readings_exist(mapped@, start as int, statuses, readable);
                    assert(statuses[i as int] == status);
                    lemma_groups_outcome(expected@, packets@, statuses, all, 0, i as int);
                    assert(readings(mapped@, start as int, all));
                }
                return Err(error);
            },
        }
        i = i + 1;
    }
    proof {
        lemma_groups_accepted(expected@, packets@, statuses, 0);
        assert(readings(mapped@, start as int, statuses));
    }
    Ok(())
}

/// Where one coefficient stream must end.
#[derive(Clone, Copy, Debug, PartialEq, Eq, Structural)]
pub struct HfValidation {
    /// Pass and spatial group in one number.
    pub index: u32,
    pub token_start: u32,
    pub token_end: u32,
    /// First bit of the stream's window.
    pub cursor_base: u32,
    /// Extra channels follow in the same packet.
    pub continuation: bool,
}

/// What one coefficient decoder reported.
#[derive(Clone, Copy, Debug, PartialEq, Eq, Structural)]
pub struct HfReport {
    /// Its cursor, unless it left the stream or failed.
    pub cursor: Option<u32>,
    /// It reached the end of its packet.
    pub complete: bool,
}

/// Why a coefficient stream is refused, or the bit that it ended at.
pub open spec fn hf_outcome(expected: HfValidation, report: HfReport) -> Result<
    u32,
    VarDctDecodeError,
> {
    match report.cursor {
        None => Err(VarDctDecodeError::CoefficientStatus { index: expected.index }),
        Some(cursor) => if !expected.continuation && !report.complete {
            Err(VarDctDecodeError::CoefficientStatus { index: expected.index })
        } else if cursor + expected.cursor_base > u32::MAX {
            Err(VarDctDecodeError::ModularExtra { detail: "AC cursor overflow" })
        } else {
            Ok((cursor + expected.cursor_base) as u32)
        },
    }
}

/// One past the last bit of a range.
pub open spec fn range_end(range: BitRange) -> int {
    range.offset + range.length
}

impl HfValidation {
    /// The stream belongs to one of the first `passes` passes.
    pub fn is_completed_by(&self, passes: u8, spatial_groups: u64) -> (r: bool)
        requires
            passes * spatial_groups <= u64::MAX,
        ensures
            r == (self.index < passes * spatial_groups),
    {
        (self.index as u64) < passes as u64 * spatial_groups
    }

    /// Accepts one coefficient stream and gives the bit that it ended at.
    pub fn validate(&self, report: HfReport) -> (r: Result<u32, VarDctDecodeError>)
        ensures
            r == hf_outcome(*self, report),
    {
        let cursor: u32 = match report.cursor {
            Some(cursor) => cursor,
            None => {
                return Err(VarDctDecodeError::CoefficientStatus { index: self.index });
            },
        };
        if !self.continuation && !report.complete {
            return Err(VarDctDecodeError::CoefficientStatus { index: self.index });
        }
        match cursor.checked_add(self.cursor_base) {
            Some(cursor) => Ok(cursor),
            None => Err(map_extra_error("AC cursor overflow")),
        }
    }
}

/// A failure of an extra channel as one of the frame.
pub fn map_extra_error(detail: &'static str) -> (error: VarDctDecodeError)
    ensures
        error == (VarDctDecodeError::ModularExtra { detail }),
{
    VarDctDecodeError::ModularExtra { detail }
}

/// The packet of one coefficient stream.
pub open spec fn stream_range(ranges: Seq<Vec<BitRange>>, groups: u64, index: u32) -> Option<
    BitRange,
> {
    let pass = index as int / groups as int;
    let group = index as int % groups as int;
    if pass < ranges.len() && group < ranges[pass]@.len() {
        Some(ranges[pass]@[group])
    } else {
        None
    }
}

/// Where one coefficient stream must end, or why that is not known.
pub open spec fn stream_validation(
    ranges: Seq<Vec<BitRange>>,
    groups: u64,
    windowed: bool,
    index: u32,
    continuation: bool,
) -> Result<HfValidation, VarDctDecodeError> {
    match stream_range(ranges, groups, index) {
        None => Err(
            VarDctDecodeError::ModularExtra { detail: "AC validation references an absent packet" },
        ),
        Some(range) => if range.offset > u32::MAX {
            Err(VarDctDecodeError::ModularExtra { detail: "AC packet start exceeds u32" })
        } else if range_end(range) > u32::MAX {
            Err(VarDctDecodeError::ModularExtra { detail: "AC packet end exceeds u32" })
        } else {
            let base = if windowed {
                range.offset as int
            } else {
                0
            };
            Ok(
                HfValidation {
                    index,
                    token_start: (range.offset - base) as u32,
                    token_end: (range_end(range) - base) as u32,
                    cursor_base: base as u32,
                    continuation,
                },
            )
        },
    }
}

/// The first stream from `i` on that cannot be validated.
pub open spec fn streams_refusal(
    ranges: Seq<Vec<BitRange>>,
    groups: u64,
    windowed: bool,
    indices: Seq<u32>,
    continuations: Seq<bool>,
    i: int,
) -> Option<VarDctDecodeError>
    decreases indices.len() - i,
{
    if i >= indices.len() {
        None
    } else {
        match stream_validation(ranges, groups, windowed, indices[i], continuations[i]) {
            Err(error) => Some(error),
            Ok(_) => streams_refusal(ranges, groups, windowed, indices, continuations, i + 1),
        }
    }
}

/// Where one coefficient stream must end.
fn validate_stream(
    ranges: &Vec<Vec<BitRange>>,
    groups: u64,
    windowed: bool,
    index: u32,
    continuation: bool,
) -> (r: Result<HfValidation, VarDctDecodeError>)
    requires
        groups > 0,
    ensures
        r == stream_validation(ranges@, groups, windowed, index, continuation),
{
    let pass: u64 = index as u64 / groups;
    let group: u64 = index as u64 % groups;
    if pass >= ranges.len() as u64 {
        return Err(map_extra_error("AC validation references an absent packet"));
    }
    let packets = &ranges[pass as usize];
    if group >= packets.len() as u64 {
        return Err(map_extra_error("AC validation references an absent packet"));
    }
    let range = packets[group as usize];
    if range.offset > u32::MAX as u64 {
        return Err(map_extra_error("AC packet start exceeds u32"));
    }
    let start: u32 = range.offset as u32;
    let end: u32 = match range.offset.checked_add(range.length) {
        Some(end) => {
            if end > u32::MAX as u64 {
                return Err(map_extra_error("AC packet end exceeds u32"));
            }
            end as u32
        },
        None => {
            return Err(map_extra_error("AC packet end exceeds u32"));
        },
    };
    let base: u32 = if windowed {
        start
    } else {
        0
    };
    Ok(
        HfValidation {
            index,
            token_start: start - base,
            token_end: end - base,
            cursor_base: base,
            continuation,
        },
    )
}

/// Where every coefficient stream of a frame must end.
pub fn plan_streams(
    ranges: &Vec<Vec<BitRange>>,
    groups: u64,
    windowed: bool,
    indices: &Vec<u32>,
    continuations: &Vec<bool>,
) -> (r: Result<Vec<HfValidation>, VarDctDecodeError>)
    requires
        groups > 0,
        continuations@.len() == indices@.len(),
    ensures
        match streams_refusal(ranges@, groups, windowed, indices@, continuations@, 0) {
            Some(error) => r == Err::<Vec<HfValidation>, VarDctDecodeError>(error),
            None => r matches Ok(streams) && streams@.len() == indices@.len() && forall|i: int|
                0 <= i < streams@.len() ==> stream_validation(
                    ranges@,
                    groups,
                    windowed,
                    indices@[i],
                    continuations@[i],
                ) == Ok::<HfValidation, VarDctDecodeError>(#[trigger] streams@[i]),
        },
{
    let mut streams: Vec<HfValidation> = Vec::new();
    let mut i: usize = 0;
    while i < indices.len()
        invariant
            groups > 0,
            continuations@.len() == indices@.len(),
            i <= indices@.len(),
            streams@.len() == i,
            streams_refusal(ranges@, groups, windowed, indices@, continuations@, 0)
                == streams_refusal(ranges@, groups, windowed, indices@, continuations@, i as int),
            forall|k: int|
                0 <= k < i ==> stream_validation(
                    ranges@,
                    groups,
                    windowed,
                    indices@[k],
                    continuations@[k],
                ) == Ok::<HfValidation, VarDctDecodeError>(#[trigger] streams@[k]),
        decreases indices@.len() - i,
    {
        let stream = match validate_stream(ranges, groups, windowed, indices[i], continuations[i]) {
            Ok(stream) => stream,
            Err(error) => {
                return Err(error);
            },
        };
        streams.push(stream);
        i = i + 1;
    }
    Ok(streams)
}

/// A stream position inside a window names the same bit of the codestream as without windows.
pub proof fn law_cursor_independent_of_windows(
    ranges: Seq<Vec<BitRange>>,
    groups: u64,
    index: u32,
    continuation: bool,
    bit: u32,
)
    requires
        stream_range(ranges, groups, index) matches Some(range) && range_end(range) <= u32::MAX
            && range.offset <= bit <= range_end(range),
    ensures
        ({
            let range = stream_range(ranges, groups, index)->0;
            let whole = stream_validation(ranges, groups, false, index, continuation)->Ok_0;
            let windowed = stream_validation(ranges, groups, true, index, continuation)->Ok_0;
            let inside = HfReport { cursor: Some((bit - range.offset) as u32), complete: true };
            let outside = HfReport { cursor: Some(bit), complete: true };
            &&& hf_outcome(windowed, inside) == hf_outcome(whole, outside)
            &&& hf_outcome(whole, outside) == Ok::<u32, VarDctDecodeError>(bit)
            &&& windowed.token_end - windowed.token_start == whole.token_end - whole.token_start
        }),
{
}

/// Why the coefficient streams of a frame are refused, from stream `i` on. Where only `passes`
/// passes are complete, later streams are not looked at.
pub open spec fn streams_outcome(
    expected: Seq<HfValidation>,
    reports: Seq<HfReport>,
    completed: Option<int>,
    i: int,
) -> Option<VarDctDecodeError>
    decreases expected.len() - i,
{
    if i >= expected.len() {
        None
    } else {
        let skipped = completed matches Some(limit) && expected[i].index >= limit;
        if !skipped && hf_outcome(expected[i], reports[i]) is Err {
            Some(hf_outcome(expected[i], reports[i])->Err_0)
        } else {
            streams_outcome(expected, reports, completed, i + 1)
        }
    }
}

/// Passes and spatial groups that are complete, as a number of streams.
pub open spec fn completed_streams(completed: Option<(u8, u64)>) -> Option<int> {
    match completed {
        Some((passes, groups)) => Some(passes * groups),
        None => None,
    }
}

/// Accepts the coefficient streams of a frame, or of its complete passes.
pub fn check_streams(
    expected: &Vec<HfValidation>,
    reports: &Vec<HfReport>,
    completed: Option<(u8, u64)>,
) -> (r: Result<(), VarDctDecodeError>)
    requires
        completed matches Some((passes, groups)) ==> passes * groups <= u64::MAX,
    ensures
        if reports@.len() != expected@.len() {
            r == Err::<(), VarDctDecodeError>(
                VarDctDecodeError::StatusAbi { status: "HF coefficient count" },
            )
        } else {
            match streams_outcome(expected@, reports@, completed_streams(completed), 0) {
                Some(error) => r == Err::<(), VarDctDecodeError>(error),
                None => r is Ok,
            }
        },
{
    if reports.len() != expected.len() {
        return Err(VarDctDecodeError::StatusAbi { status: "HF coefficient count" });
    }
    let ghost limit = completed_streams(completed);
    let mut i: usize = 0;
    while i < expected.len()
        invariant
            i <= expected@.len(),
            reports@.len() == expected@.len(),
            limit == completed_streams(completed),
            completed matches Some((passes, groups)) ==> passes * groups <= u64::MAX,
            streams_outcome(expected@, reports@, limit, 0) == streams_outcome(
                expected@,
                reports@,
                limit,
                i as int,
            ),
        decreases expected@.len() - i,
    {
        let looked_at = match completed {
            Some((passes, groups)) => expected[i].is_completed_by(passes, groups),
            None => true,
        };
        if looked_at {
            match expected[i].validate(reports[i]) {
                Ok(_) => {},
                Err(error) => {
                    return Err(error);
                },
            }
        }
        i = i + 1;
    }
    Ok(())
}

/// Why the statuses of `groups` groups cannot be addressed.
pub open spec fn shape_refusal(groups: int, packet_status: int) -> Option<VarDctDecodeError> {
    if groups * packet_status > usize::MAX {
        Some(VarDctDecodeError::StatusAbi { status: "packet count" })
    } else if groups * 64 > usize::MAX {
        Some(VarDctDecodeError::StatusAbi { status: "artifact count" })
    } else if groups * packet_status + groups * 64 > usize::MAX {
        Some(VarDctDecodeError::StatusAbi { status: "aggregate offset" })
    } else {
        None
    }
}

/// All statuses of a frame or of an intermediate image, and what they must be.
#[derive(Clone, Copy, Debug)]
pub struct FrameStatuses<'a> {
    pub mapped: &'a [u8],
    /// Bytes of one packet record.
    pub packet_status: usize,
    /// Bytes of one coefficient record.
    pub hf_status: usize,
    /// Bytes of the output's own record.
    pub output_status: usize,
    pub expected: &'a Vec<VarDctGroupValidation>,
    /// What the packet record of every group reports.
    pub packets: &'a Vec<PacketReport>,
    pub streams: &'a Vec<HfValidation>,
    /// What every coefficient record reports.
    pub reports: &'a Vec<HfReport>,
    /// Whether the output's own record is that of a complete scalar image; colour images have
    /// none.
    pub scalar: Option<bool>,
}

impl<'a> FrameStatuses<'a> {
    /// Every group has a packet record, and the output's record is mapped.
    pub open spec fn wf(&self) -> bool {
        &&& self.packets@.len() == self.expected@.len()
        &&& self.output_status <= self.mapped@.len()
        &&& self.hf_status > 0
    }

    /// Bytes of all coefficient records.
    pub open spec fn hf_bytes(&self) -> int {
        self.mapped@.len() - self.output_status - self.expected@.len() * (self.packet_status + 64)
    }
}

/// Coefficient records of an image behind some passes, or of a whole frame: without a pass there
/// is none.
pub open spec fn hf_records(streams: int, completed: Option<(u8, u64)>) -> int {
    match completed {
        Some((passes, _)) => if passes == 0 {
            0
        } else {
            streams
        },
        None => streams,
    }
}

/// What becomes of the statuses behind those of all groups.
pub open spec fn rest_refusal(statuses: FrameStatuses, completed: Option<(u8, u64)>) -> Option<
    VarDctDecodeError,
> {
    let bytes = statuses.hf_bytes();
    let records = hf_records(statuses.streams@.len() as int, completed);
    if bytes < 0 || bytes % statuses.hf_status as int != 0 {
        Some(VarDctDecodeError::StatusAbi { status: "HF coefficient" })
    } else if bytes / statuses.hf_status as int != records || statuses.reports@.len() != records {
        Some(VarDctDecodeError::StatusAbi { status: "HF coefficient count" })
    } else if records > 0 && streams_outcome(
        statuses.streams@,
        statuses.reports@,
        completed_streams(completed),
        0,
    ) is Some {
        streams_outcome(statuses.streams@, statuses.reports@, completed_streams(completed), 0)
    } else if statuses.scalar == Some(false) {
        Some(VarDctDecodeError::OutputStatus)
    } else {
        None
    }
}

/// What accepting the statuses comes to.
pub open spec fn statuses_checked(
    statuses: FrameStatuses,
    completed: Option<(u8, u64)>,
    r: Result<(), VarDctDecodeError>,
) -> bool {
    match shape_refusal(statuses.expected@.len() as int, statuses.packet_status as int) {
        Some(error) => r == Err::<(), VarDctDecodeError>(error),
        None => exists|groups: Result<(), VarDctDecodeError>|
            #[trigger] groups_checked(
                statuses.mapped@,
                statuses.packet_status as int,
                statuses.expected@,
                statuses.packets@,
                groups,
            ) && if groups is Err {
                r == groups
            } else {
                outcome_is(r, rest_refusal(statuses, completed))
            },
    }
}

/// Accepts all statuses of a frame: packet and lowering records of every group, then the
/// coefficient records between them and the output's own record, then that record.
pub fn finish_statuses(statuses: &FrameStatuses, completed: Option<(u8, u64)>) -> (r: Result<
    (),
    VarDctDecodeError,
>)
    requires
        statuses.wf(),
        completed matches Some((passes, groups)) ==> passes * groups <= u64::MAX,
    ensures
        statuses_checked(*statuses, completed, r),
{
    let packet_status: usize = statuses.packet_status;
    let groups: usize = statuses.expected.len();
    let artifacts: usize = match groups.checked_mul(packet_status) {
        Some(bytes) => bytes,
        None => {
            return Err(VarDctDecodeError::StatusAbi { status: "packet count" });
        },
    };
    let artifact_bytes: usize = match groups.checked_mul(64) {
        Some(bytes) => bytes,
        None => {
            return Err(VarDctDecodeError::StatusAbi { status: "artifact count" });
        },
    };
    let coefficients: usize = match artifacts.checked_add(artifact_bytes) {
        Some(bytes) => bytes,
        None => {
            return Err(VarDctDecodeError::StatusAbi { status: "aggregate offset" });
        },
    };
    assert(groups * (packet_status + 64) == groups * packet_status + groups * 64)
        by (nonlinear_arith);
    let checked = check_groups(
        statuses.mapped,
        packet_status,
        statuses.expected,
        statuses.packets,
    );
    match checked {
        Ok(_) => {},
        Err(error) => {
            return Err(error);
        },
    }
    let end: usize = statuses.mapped.len() - statuses.output_status;
    if coefficients > end || (end - coefficients) % statuses.hf_status != 0 {
        return Err(VarDctDecodeError::StatusAbi { status: "HF coefficient" });
    }
    let records: usize = match completed {
        Some((passes, _)) => if passes == 0 {
            0
        } else {
            statuses.streams.len()
        },
        None => statuses.streams.len(),
    };
    if (end - coefficients) / statuses.hf_status != records || statuses.reports.len() != records {
        return Err(VarDctDecodeError::StatusAbi { status: "HF coefficient count" });
    }
    if records > 0 {
        match check_streams(statuses.streams, statuses.reports, completed) {
            Ok(_) => {},
            Err(error) => {
                return Err(error);
            },
        }
    }
    match statuses.scalar {
        Some(complete) => if !complete {
            return Err(VarDctDecodeError::OutputStatus);
        },
        None => {},
    }
    Ok(())
}

/// The lowering record of an accepted group: it succeeded and counts what was submitted.
pub open spec fn group_accepted(
    expected: VarDctGroupValidation,
    packet: PacketReport,
    artifact: GpuVarDctArtifactStatus,
) -> bool {
    &&& packet.first_blocks == Some(artifact.task_count)
    &&& packet.coefficient_words == expected.expected_coefficients
    &&& lowering_failure(artifact) is None
    &&& artifact.coefficient_words == expected.expected_coefficients
    &&& artifact.covered_blocks == expected.expected_blocks
    &&& artifact.consumed_block_info_entries == artifact.task_count
    &&& artifact.backend_requirements == 0
}

/// Without a refusal every group is accepted.
proof fn lemma_each_group_accepted(
    expected: Seq<VarDctGroupValidation>,
    packets: Seq<PacketReport>,
    statuses: Seq<GpuVarDctArtifactStatus>,
    from: int,
    i: int,
)
    requires
        0 <= from <= i < statuses.len(),
        groups_outcome(expected, packets, statuses, from) is None,
    ensures
        group_accepted(expected[i], packets[i], statuses[i]),
    decreases i - from,
{
    if from < i {
        lemma_each_group_accepted(expected, packets, statuses, from + 1, i);
    } else {
        let fields = artifact_fields(expected[i], packets[i].first_blocks->0, statuses[i]);
        assert(field_refusal(fields, 0) is None);
        assert(field_refusal(fields, 1) is None);
        assert(field_refusal(fields, 2) is None);
        assert(field_refusal(fields, 3) is None);
        assert(field_refusal(fields, 4) is None);
    }
}

/// Without a refusal every stream that is looked at is accepted.
proof fn lemma_each_stream_accepted(
    expected: Seq<HfValidation>,
    reports: Seq<HfReport>,
    completed: Option<int>,
    from: int,
    i: int,
)
    requires
        0 <= from <= i < expected.len(),
        streams_outcome(expected, reports, completed, from) is None,
    ensures
        completed is None || expected[i].index < completed->0 ==> hf_outcome(
            expected[i],
            reports[i],
        ) is Ok,
    decreases i - from,
{
    if from < i {
        lemma_each_stream_accepted(expected, reports, completed, from + 1, i);
    }
}

/// Statuses are accepted only where the lowering record of every group succeeded and counts what
/// was submitted, every coefficient record that is looked at is accepted, there are as many of
/// them as streams, and the output's own record is that of a complete image.
pub proof fn law_accepted_statuses(statuses: FrameStatuses, completed: Option<(u8, u64)>)
    requires
        statuses.wf(),
        statuses_checked(statuses, completed, Ok(())),
    ensures
        exists|artifacts: Seq<GpuVarDctArtifactStatus>|
            #![trigger artifacts.len()]
            {
                &&& artifacts.len() == statuses.expected@.len()
                &&& readings(
                    statuses.mapped@,
                    statuses.expected@.len() * statuses.packet_status,
                    artifacts,
                )
                &&& forall|i: int|
                    0 <= i < artifacts.len() ==> group_accepted(
                        statuses.expected@[i],
                        statuses.packets@[i],
                        #[trigger] artifacts[i],
                    )
            },
        statuses.hf_bytes() == hf_records(statuses.streams@.len() as int, completed)
            * statuses.hf_status,
        statuses.reports@.len() == hf_records(statuses.streams@.len() as int, completed),
        forall|i: int|
            0 <= i < statuses.reports@.len() && (completed is None || statuses.streams@[i].index
                < completed_streams(completed)->0) ==> hf_outcome(
                statuses.streams@[i],
                #[trigger] statuses.reports@[i],
            ) is Ok,
        statuses.scalar != Some(false),
{
    let bytes = statuses.hf_bytes();
    let size = statuses.hf_status as int;
    vstd::arithmetic::div_mod::lemma_fundamental_div_mod(bytes, size);
    assert(size * (bytes / size) == (bytes / size) * size) by (nonlinear_arith);
    let mapped = statuses.mapped@;
    let n = statuses.expected@.len() as int;
    let start = n * statuses.packet_status;
    let readable = readable_groups(mapped.len() as int, start, n);
    let artifacts = choose|artifacts: Seq<GpuVarDctArtifactStatus>|
        #![trigger readings(mapped, start, artifacts)]
        {
            &&& artifacts.len() == readable
            &&& readings(mapped, start, artifacts)
            &&& groups_outcome(statuses.expected@, statuses.packets@, artifacts, 0) is None
            &&& readable >= n
        };
    assert forall|i: int| 0 <= i < artifacts.len() implies group_accepted(
        statuses.expected@[i],
        statuses.packets@[i],
        #[trigger] artifacts[i],
    ) by {
        lemma_each_group_accepted(statuses.expected@, statuses.packets@, artifacts, 0, i);
    }
    assert forall|i: int|
        0 <= i < statuses.reports@.len() && (completed is None || statuses.streams@[i].index
            < completed_streams(completed)->0) implies hf_outcome(
        statuses.streams@[i],
        #[trigger] statuses.reports@[i],
    ) is Ok by {
        lemma_each_stream_accepted(
            statuses.streams@,
            statuses.reports@,
            completed_streams(completed),
            0,
            i,
        );
    }
    assert(artifacts.len() == n);
}

/// The statuses of a frame fill their buffer: a packet record and sixty-four bytes of artifact record
/// for every group, one coefficient record for every stream, or none where no pass is shown, and the
/// record of the output.
pub proof fn law_statuses_fill(statuses: &FrameStatuses<'_>, completed: Option<(u8, u64)>)
    requires
        statuses.wf(),
        completed matches Some((passes, groups)) ==> passes * groups <= u64::MAX,
        call_ensures(finish_statuses, (statuses, completed), Ok::<(), VarDctDecodeError>(())),
    ensures
        ({
            let n = statuses.expected@.len() as int;
            let records = if completed is Some && completed_streams(completed)->0 == 0 && (
            completed matches Some((passes, _)) && passes == 0) {
                0
            } else {
                statuses.streams@.len() as int
            };
            &&& statuses.mapped@.len() == n * (statuses.packet_status + 64) + records
                * statuses.hf_status + statuses.output_status
            &&& statuses.reports@.len() == records
        }),
{
    law_accepted_statuses(*statuses, completed);
    if let Some((passes, groups)) = completed {
        let g = groups as int;
        assert(passes == 0 ==> passes * g == 0) by (nonlinear_arith)
            requires
                passes >= 0,
        ;
    }
}

} // verus!
