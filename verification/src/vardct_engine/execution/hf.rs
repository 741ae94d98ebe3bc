//! Continuation of a frame from GPU cursors into its HF packets.

use crate::vardct_engine::execution::packet::{
    check_packet_windows, plan_record_offsets, record_offsets, windows_refusal,
};
use crate::vardct_engine::execution::stage::{
    after_coefficients, after_coefficients_stage, PendingStage, PostLf,
};
use crate::vardct_engine::execution::submit::PacketEntry;
use crate::vardct_engine::source::{
    buffer_checks, check_limits, exceeded, BufferNeed, DeviceLimits, LimitCheck,
};
use crate::vardct_engine::types::VarDctDecodeError;
use vstd::prelude::*;

verus! {

/// The first group from `i` on without a cursor, and why.
pub open spec fn cursor_refusal(
    mapped: int,
    packet_status: int,
    name: &'static str,
    reports: Seq<Option<u32>>,
    i: int,
) -> Option<VarDctDecodeError>
    decreases reports.len() - i,
{
    if i >= reports.len() {
        None
    } else if (i + 1) * packet_status > mapped {
        Some(VarDctDecodeError::StatusAbi { status: name })
    } else if reports[i] is None {
        Some(VarDctDecodeError::PacketStatus { group: i as usize })
    } else {
        cursor_refusal(mapped, packet_status, name, reports, i + 1)
    }
}

/// The cursors that all groups reported in `mapped` bytes of statuses called `name`.
pub fn collect_cursors(
    mapped: usize,
    packet_status: usize,
    name: &'static str,
    reports: &Vec<Option<u32>>,
) -> (r: Result<Vec<u32>, VarDctDecodeError>)
    ensures
        match cursor_refusal(mapped as int, packet_status as int, name, reports@, 0) {
            Some(error) => r == Err::<Vec<u32>, VarDctDecodeError>(error),
            None => r matches Ok(cursors) && cursors@.len() == reports@.len() && forall|i: int|
                0 <= i < cursors@.len() ==> reports@[i] == Some(#[trigger] cursors@[i]),
        },
{
    let mut cursors: Vec<u32> = Vec::new();
    let mut offset: usize = 0;
    let mut i: usize = 0;
    while i < reports.len()
        invariant
            i <= reports@.len(),
            offset == i * packet_status,
            offset <= mapped,
            cursors@.len() == i,
            cursor_refusal(mapped as int, packet_status as int, name, reports@, 0)
                == cursor_refusal(mapped as int, packet_status as int, name, reports@, i as int),
            forall|k: int| 0 <= k < i ==> reports@[k] == Some(#[trigger] cursors@[k]),
        decreases reports@.len() - i,
    {
        assert((i + 1) * packet_status == offset + packet_status) by (nonlinear_arith)
            requires
                offset == i * packet_status,
        ;
        if packet_status > mapped - offset {
            return Err(VarDctDecodeError::StatusAbi { status: name });
        }
        offset = offset + packet_status;
        match reports[i] {
            Some(cursor) => {
                cursors.push(cursor);
            },
            None => {
                return Err(VarDctDecodeError::PacketStatus { group: i });
            },
        }
        i = i + 1;
    }
    Ok(cursors)
}

/// HF packets once their trees are parsed.
#[derive(Debug)]
pub struct HfContinuations {
    /// Words of every group's Modular metadata.
    pub metadata_words: Vec<u64>,
    /// The stream windows, where packets are windowed.
    pub window: Option<HfWindow>,
}

/// Stream windows of HF packets.
#[derive(Clone, Copy, Debug, PartialEq, Eq, Structural)]
pub struct HfWindow {
    pub stream_bytes: u64,
    pub batches: usize,
    pub groups: usize,
}

/// What a frame owns when its HF packets are parsed.
#[derive(Clone, Copy, Debug, PartialEq, Eq, Structural)]
pub struct HfResources {
    /// The frame was not completed.
    pub alive: bool,
    /// Bytes of the retained stream window.
    pub stream_window: Option<u64>,
    /// Bytes admitted for Modular metadata.
    pub modular_metadata: u64,
    /// Queue submissions so far.
    pub submissions: usize,
    /// Bytes of one packet record.
    pub packet_status: u64,
}

/// The submission of HF packets.
#[derive(Debug, PartialEq, Eq)]
pub struct HfSubmission {
    /// Bytes to reserve beyond what was admitted.
    pub additional_bytes: Option<u64>,
    /// Queue submissions of the frame.
    pub submissions: usize,
    /// Packets stop at HF metadata, whose status is copied behind the last of them and mapped.
    pub metadata_stop: bool,
    pub entry: PacketEntry,
    /// Everything behind the packets is submitted with them.
    pub downstream: bool,
    pub stage: PendingStage,
    pub mapping: &'static str,
    /// Where the packet record of each group is copied to behind the packets, if it is.
    pub status_offsets: Vec<u64>,
}

/// Bytes of the first `n` metadata buffers.
pub open spec fn metadata_bytes(words: Seq<u64>, n: int) -> int
    decreases n,
{
    if n <= 0 {
        0
    } else {
        metadata_bytes(words, n - 1) + words[n - 1] * 4
    }
}

/// The first overflow of the metadata from buffer `i` on.
pub open spec fn metadata_overflow(words: Seq<u64>, i: int) -> Option<VarDctDecodeError>
    decreases words.len() - i,
{
    if i >= words.len() {
        None
    } else if words[i] * 4 > u64::MAX {
        Some(VarDctDecodeError::ArithmeticOverflow { field: "HF-local Modular metadata bytes" })
    } else if metadata_bytes(words, i + 1) > u64::MAX {
        Some(VarDctDecodeError::ArithmeticOverflow { field: "HF-local Modular metadata total" })
    } else {
        metadata_overflow(words, i + 1)
    }
}

/// Metadata buffers of the HF packets.
pub open spec fn metadata_needs(words: Seq<u64>) -> Seq<BufferNeed> {
    Seq::new(
        words.len(),
        |i: int|
            BufferNeed {
                resource: "HF-local Modular metadata",
                bytes: (words[i] * 4) as u64,
                storage: true,
            },
    )
}

/// Why HF packets cannot be submitted.
pub open spec fn hf_refusal(
    hf: HfContinuations,
    resources: HfResources,
    limits: DeviceLimits,
) -> Option<VarDctDecodeError> {
    let words = hf.metadata_words@;
    let available = match resources.stream_window {
        Some(bytes) => bytes,
        None => 0,
    };
    let needs = metadata_needs(words);
    let buffers = exceeded(buffer_checks(needs, limits, needs.len() as int), 0);
    if !resources.alive {
        Some(VarDctDecodeError::CompletionConsumed)
    } else if hf.window matches Some(window) && window.stream_bytes > available {
        Some(
            VarDctDecodeError::DeviceLimit {
                resource: "shared local-tree packet stream window",
                required: (hf.window->0).stream_bytes,
                available,
            },
        )
    } else if metadata_overflow(words, 0) is Some {
        metadata_overflow(words, 0)
    } else if buffers is Some {
        buffers
    } else {
        match hf.window {
            Some(window) => if windows_refusal(
                window.batches as int,
                window.groups,
                words.len() as usize,
            ) is Some {
                windows_refusal(window.batches as int, window.groups, words.len() as usize)
            } else if resources.submissions + (window.batches - 1) > usize::MAX {
                Some(
                    VarDctDecodeError::ArithmeticOverflow {
                        field: "VarDCT dynamic submission count",
                    },
                )
            } else {
                None
            },
            None => None,
        }
    }
}

/// The submission of accepted HF packets. Every batch beyond the first adds a submission, and
/// packets that stop at HF metadata are followed by copies of their records.
pub open spec fn hf_submits(
    submission: HfSubmission,
    hf: HfContinuations,
    resources: HfResources,
    post_lf: PostLf,
    extra_output: bool,
) -> bool {
    let bytes = metadata_bytes(hf.metadata_words@, hf.metadata_words@.len() as int);
    let deferred = post_lf == PostLf::DeferredHfGlobal;
    &&& submission.additional_bytes == if bytes > resources.modular_metadata {
        Some((bytes - resources.modular_metadata) as u64)
    } else {
        None
    }
    &&& submission.submissions == match hf.window {
        Some(window) => resources.submissions + (window.batches - 1),
        None => resources.submissions as int,
    }
    &&& submission.metadata_stop == deferred
    &&& submission.entry == if deferred {
        PacketEntry::HfMetadata
    } else {
        PacketEntry::Hf
    }
    &&& submission.downstream == !deferred
    &&& submission.stage == if deferred {
        PendingStage::HfGlobal
    } else {
        after_coefficients(extra_output)
    }
    &&& submission.mapping == if deferred {
        "VarDCT HF-global cursor mapping"
    } else {
        "VarDCT final validation mapping"
    }
    &&& submission.status_offsets@ == if deferred {
        record_offsets(hf.metadata_words@.len() as int, resources.packet_status)
    } else {
        Seq::empty()
    }
}

/// Sums the metadata of HF packets.
fn sum_metadata(words: &Vec<u64>) -> (r: Result<u64, VarDctDecodeError>)
    ensures
        match metadata_overflow(words@, 0) {
            Some(error) => r == Err::<u64, VarDctDecodeError>(error),
            None => r matches Ok(bytes) && bytes == metadata_bytes(words@, words@.len() as int)
                && forall|i: int| 0 <= i < words@.len() ==> #[trigger] words@[i] * 4 <= u64::MAX,
        },
{
    let mut total: u64 = 0;
    let mut i: usize = 0;
    while i < words.len()
        invariant
            i <= words@.len(),
            total == metadata_bytes(words@, i as int),
            metadata_overflow(words@, 0) == metadata_overflow(words@, i as int),
            forall|k: int| 0 <= k < i ==> #[trigger] words@[k] * 4 <= u64::MAX,
        decreases words@.len() - i,
    {
        let bytes: u64 = match words[i].checked_mul(4) {
            Some(bytes) => bytes,
            None => {
                return Err(
                    VarDctDecodeError::ArithmeticOverflow {
                        field: "HF-local Modular metadata bytes",
                    },
                );
            },
        };
        total =
        match total.checked_add(bytes) {
            Some(total) => total,
            None => {
                return Err(
                    VarDctDecodeError::ArithmeticOverflow {
                        field: "HF-local Modular metadata total",
                    },
                );
            },
        };
        i = i + 1;
    }
    Ok(total)
}

/// Holds every metadata buffer to the device.
fn check_metadata(words: &Vec<u64>, limits: DeviceLimits) -> (r: Result<(), VarDctDecodeError>)
    requires
        forall|i: int| 0 <= i < words@.len() ==> #[trigger] words@[i] * 4 <= u64::MAX,
    ensures
        match exceeded(
            buffer_checks(metadata_needs(words@), limits, words@.len() as int),
            0,
        ) {
            Some(error) => r == Err::<(), VarDctDecodeError>(error),
            None => r is Ok,
        },
{
    let mut checks: Vec<LimitCheck> = Vec::new();
    let ghost needs = metadata_needs(words@);
    assert(checks@ =~= buffer_checks(needs, limits, 0));
    let mut i: usize = 0;
    while i < words.len()
        invariant
            i <= words@.len(),
            needs == metadata_needs(words@),
            forall|i: int| 0 <= i < words@.len() ==> #[trigger] words@[i] * 4 <= u64::MAX,
            checks@ == buffer_checks(needs, limits, i as int),
        decreases words@.len() - i,
    {
        let bytes: u64 = words[i] * 4;
        checks.push(
            LimitCheck {
                resource: "HF-local Modular metadata",
                required: bytes,
                available: limits.max_buffer_size,
            },
        );
        checks.push(
            LimitCheck {
                resource: "HF-local Modular metadata",
                required: bytes,
                available: limits.max_storage_buffer_binding_size,
            },
        );
        assert(checks@ =~= buffer_checks(needs, limits, i + 1));
        i = i + 1;
    }
    check_limits(&checks)
}

/// Plans the submission of HF packets whose trees were parsed from GPU cursors.
pub fn submit_hf_from_cursors(
    hf: &HfContinuations,
    resources: HfResources,
    limits: DeviceLimits,
    post_lf: PostLf,
    extra_output: bool,
) -> (r: Result<HfSubmission, VarDctDecodeError>)
    requires
        hf.metadata_words@.len() * resources.packet_status <= u64::MAX,
    ensures
        match hf_refusal(*hf, resources, limits) {
            Some(error) => r == Err::<HfSubmission, VarDctDecodeError>(error),
            None => r matches Ok(submission) && hf_submits(
                submission,
                *hf,
                resources,
                post_lf,
                extra_output,
            ),
        },
{
    if !resources.alive {
        return Err(VarDctDecodeError::CompletionConsumed);
    }
    match hf.window {
        Some(window) => {
            let required: u64 = window.stream_bytes;
            let available: u64 = match resources.stream_window {
                Some(bytes) => bytes,
                None => 0,
            };
            if required > available {
                return Err(
                    VarDctDecodeError::DeviceLimit {
                        resource: "shared local-tree packet stream window",
                        required,
                        available,
                    },
                );
            }
        },
        None => {},
    }
    let bytes: u64 = match sum_metadata(&hf.metadata_words) {
        Ok(bytes) => bytes,
        Err(error) => {
            return Err(error);
        },
    };
    match check_metadata(&hf.metadata_words, limits) {
        Ok(_) => {},
        Err(error) => {
            return Err(error);
        },
    }
    let submissions: usize = match hf.window {
        Some(window) => {
            match check_packet_windows(window.batches, window.groups, hf.metadata_words.len()) {
                Ok(_) => {},
                Err(error) => {
                    return Err(error);
                },
            }
            match resources.submissions.checked_add(window.batches - 1) {
                Some(submissions) => submissions,
                None => {
                    return Err(
                        VarDctDecodeError::ArithmeticOverflow {
                            field: "VarDCT dynamic submission count",
                        },
                    );
                },
            }
        },
        None => resources.submissions,
    };
    let additional_bytes: Option<u64> = if bytes > resources.modular_metadata {
        Some(bytes - resources.modular_metadata)
    } else {
        None
    };
    let deferred = match post_lf {
        PostLf::DeferredHfGlobal => true,
        PostLf::Direct => false,
    };
    let stage = if deferred {
        PendingStage::HfGlobal
    } else {
        after_coefficients_stage(extra_output)
    };
    let mapping = if deferred {
        "VarDCT HF-global cursor mapping"
    } else {
        "VarDCT final validation mapping"
    };
    let entry = if deferred {
        PacketEntry::HfMetadata
    } else {
        PacketEntry::Hf
    };
    let status_offsets: Vec<u64> = if deferred {
        plan_record_offsets(hf.metadata_words.len(), resources.packet_status)
    } else {
        Vec::new()
    };
    Ok(
        HfSubmission {
            additional_bytes,
            submissions,
            metadata_stop: deferred,
            entry,
            downstream: !deferred,
            stage,
            mapping,
            status_offsets,
        },
    )
}

/// What follows mapped LF statuses, with the bits at which the LF packets end.
#[derive(Debug, PartialEq, Eq)]
pub enum AfterLf {
    /// Extra channels of LF groups come first.
    LfExtras { cursors: Vec<u32> },
    /// HF packets.
    Hf { cursors: Vec<u32> },
}

impl AfterLf {
    /// The bits at which the LF packets end.
    pub open spec fn cursors(&self) -> Seq<u32> {
        match self {
            AfterLf::LfExtras { cursors } => cursors@,
            AfterLf::Hf { cursors } => cursors@,
        }
    }
}

/// Why mapped statuses called `name` do not continue a frame.
pub open spec fn stage_refusal(
    alive: bool,
    mapped: int,
    packet_status: int,
    name: &'static str,
    reports: Seq<Option<u32>>,
) -> Option<VarDctDecodeError> {
    if !alive {
        Some(VarDctDecodeError::CompletionConsumed)
    } else {
        cursor_refusal(mapped, packet_status, name, reports, 0)
    }
}

/// What follows `mapped` bytes of LF statuses, of `packet_status` bytes for each group.
/// `reports` holds the cursor that each status was accepted with.
pub fn submit_hf_stage(
    alive: bool,
    mapped: usize,
    packet_status: usize,
    reports: &Vec<Option<u32>>,
    has_lf_extras: bool,
) -> (r: Result<AfterLf, VarDctDecodeError>)
    ensures
        match stage_refusal(alive, mapped as int, packet_status as int, "LF cursor", reports@) {
            Some(error) => r == Err::<AfterLf, VarDctDecodeError>(error),
            None => r matches Ok(next) && next.cursors().len() == reports@.len() && (forall|i: int|
                0 <= i < reports@.len() ==> #[trigger] reports@[i] == Some(next.cursors()[i]))
                && (next is LfExtras <==> has_lf_extras),
        },
{
    if !alive {
        return Err(VarDctDecodeError::CompletionConsumed);
    }
    match collect_cursors(mapped, packet_status, "LF cursor", reports) {
        Ok(cursors) => if has_lf_extras {
            Ok(AfterLf::LfExtras { cursors })
        } else {
            Ok(AfterLf::Hf { cursors })
        },
        Err(error) => Err(error),
    }
}

/// What follows mapped HF-metadata statuses.
#[derive(Clone, Copy, Debug, PartialEq, Eq, Structural)]
pub enum AfterHfMetadata {
    /// A raw matrix is already known.
    RawMatrix,
    /// The HF-global prefix is parsed from this cursor.
    Parse { cursor: u32 },
}

/// What follows mapped HF-metadata statuses. Only a frame of one group has its HF-global prefix
/// behind its metadata.
pub fn after_hf_metadata(pending_raw_matrix: bool, cursors: &Vec<u32>) -> (r: Result<
    AfterHfMetadata,
    VarDctDecodeError,
>)
    ensures
        r == if pending_raw_matrix {
            Ok::<AfterHfMetadata, VarDctDecodeError>(AfterHfMetadata::RawMatrix)
        } else if cursors@.len() != 1 {
            Err::<AfterHfMetadata, VarDctDecodeError>(
                VarDctDecodeError::GroupPlanCount {
                    component: "single-entry progressive-DC packet",
                    expected: 1,
                    actual: cursors@.len() as usize,
                },
            )
        } else {
            Ok::<AfterHfMetadata, VarDctDecodeError>(
                AfterHfMetadata::Parse { cursor: cursors@[0] },
            )
        },
{
    if pending_raw_matrix {
        return Ok(AfterHfMetadata::RawMatrix);
    }
    if cursors.len() != 1 {
        return Err(
            VarDctDecodeError::GroupPlanCount {
                component: "single-entry progressive-DC packet",
                expected: 1,
                actual: cursors.len(),
            },
        );
    }
    Ok(AfterHfMetadata::Parse { cursor: cursors[0] })
}

/// What follows `mapped` bytes of HF-metadata statuses, of `packet_status` bytes for each
/// group. `reports` holds the cursor that each status was accepted with.
pub fn submit_hf_global_stage(
    alive: bool,
    mapped: usize,
    packet_status: usize,
    reports: &Vec<Option<u32>>,
    pending_raw_matrix: bool,
) -> (r: Result<AfterHfMetadata, VarDctDecodeError>)
    ensures
        r == match stage_refusal(
            alive,
            mapped as int,
            packet_status as int,
            "HF-metadata cursor",
            reports@,
        ) {
            Some(error) => Err::<AfterHfMetadata, VarDctDecodeError>(error),
            None => if pending_raw_matrix {
                Ok::<AfterHfMetadata, VarDctDecodeError>(AfterHfMetadata::RawMatrix)
            } else if reports@.len() != 1 {
                Err::<AfterHfMetadata, VarDctDecodeError>(
                    VarDctDecodeError::GroupPlanCount {
                        component: "single-entry progressive-DC packet",
                        expected: 1,
                        actual: reports@.len() as usize,
                    },
                )
            } else {
                Ok::<AfterHfMetadata, VarDctDecodeError>(
                    AfterHfMetadata::Parse { cursor: reports@[0]->0 },
                )
            },
        },
{
    if !alive {
        return Err(VarDctDecodeError::CompletionConsumed);
    }
    let cursors: Vec<u32> = match collect_cursors(
        mapped,
        packet_status,
        "HF-metadata cursor",
        reports,
    ) {
        Ok(cursors) => cursors,
        Err(error) => {
            return Err(error);
        },
    };
    proof {
        if cursors@.len() == 1 {
            assert(reports@[0] == Some(cursors@[0]));
        }
    }
    after_hf_metadata(pending_raw_matrix, &cursors)
}

} // verus!
