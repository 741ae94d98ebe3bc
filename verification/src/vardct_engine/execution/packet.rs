//! Bounded stream windows of packets.

use crate::vardct_engine::types::VarDctDecodeError;
use vstd::prelude::*;

verus! {

/// What the packets of a windowed plan hold.
#[derive(Clone, Copy, Debug, PartialEq, Eq, Structural)]
pub enum PacketStage {
    Lf,
    Hf,
    Combined,
}

/// The kernel that decodes a window.
#[derive(Clone, Copy, Debug, PartialEq, Eq, Structural)]
pub enum WindowKernel {
    Lf,
    HfMetadata,
    Hf,
    Combined,
}

/// Windows of packets, in batches that share one upload.
#[derive(Debug)]
pub struct PacketWindowCommands {
    pub stage: PacketStage,
    /// The groups of each batch's segments.
    pub batches: Vec<Vec<usize>>,
    /// Bytes of the upload.
    pub stream_bytes: u64,
    /// Control records, one for each group of the plan.
    pub controls: usize,
    /// The statuses are copied behind the last batch.
    pub status_boundary: bool,
    /// Commands are recorded that precede the first batch.
    pub has_setup: bool,
}

/// Why a windowed plan cannot be executed.
pub open spec fn windows_refusal(batches: int, groups: usize, controls: usize) -> Option<
    VarDctDecodeError,
> {
    if batches == 0 {
        Some(
            VarDctDecodeError::EntropyWindowContract {
                detail: "windowed packet execution has no dispatch",
            },
        )
    } else if controls != groups {
        Some(
            VarDctDecodeError::GroupPlanCount {
                component: "packet window control",
                expected: groups,
                actual: controls,
            },
        )
    } else {
        None
    }
}

/// Refuses a windowed plan without batches, or without one control record for each group.
pub fn check_packet_windows(batches: usize, groups: usize, controls: usize) -> (r: Result<
    (),
    VarDctDecodeError,
>)
    ensures
        match windows_refusal(batches as int, groups, controls) {
            Some(error) => r == Err::<(), VarDctDecodeError>(error),
            None => r is Ok,
        },
{
    if batches == 0 {
        return Err(
            VarDctDecodeError::EntropyWindowContract {
                detail: "windowed packet execution has no dispatch",
            },
        );
    }
    if controls != groups {
        return Err(
            VarDctDecodeError::GroupPlanCount {
                component: "packet window control",
                expected: groups,
                actual: controls,
            },
        );
    }
    Ok(())
}

/// Prepares a windowed plan for `groups` groups.
pub fn prepare_packet_windows(
    stage: PacketStage,
    batches: Vec<Vec<usize>>,
    stream_bytes: u64,
    groups: usize,
    controls: usize,
    status_boundary: bool,
    has_setup: bool,
) -> (r: Result<PacketWindowCommands, VarDctDecodeError>)
    ensures
        match windows_refusal(batches@.len() as int, groups, controls) {
            Some(error) => r == Err::<PacketWindowCommands, VarDctDecodeError>(error),
            None => r == Ok::<PacketWindowCommands, VarDctDecodeError>(
                PacketWindowCommands {
                    stage,
                    batches,
                    stream_bytes,
                    controls,
                    status_boundary,
                    has_setup,
                },
            ),
        },
{
    match check_packet_windows(batches.len(), groups, controls) {
        Ok(_) => {},
        Err(error) => {
            return Err(error);
        },
    }
    Ok(
        PacketWindowCommands {
            stage,
            batches,
            stream_bytes,
            controls,
            status_boundary,
            has_setup,
        },
    )
}

/// Where the packet record of each group is copied to.
pub open spec fn record_offsets(groups: int, packet_status: u64) -> Seq<u64> {
    Seq::new(groups as nat, |i: int| (i * packet_status) as u64)
}

/// Where the packet record of each group is copied to: one behind the other.
pub fn plan_record_offsets(groups: usize, packet_status: u64) -> (offsets: Vec<u64>)
    requires
        groups * packet_status <= u64::MAX,
    ensures
        offsets@ == record_offsets(groups as int, packet_status),
{
    let mut offsets: Vec<u64> = Vec::new();
    let mut i: usize = 0;
    while i < groups
        invariant
            i <= groups,
            groups * packet_status <= u64::MAX,
            offsets@ =~= record_offsets(i as int, packet_status),
        decreases groups - i,
    {
        assert(0 <= i * packet_status <= groups * packet_status) by (nonlinear_arith)
            requires
                0 <= i <= groups,
                0 <= packet_status,
        ;
        offsets.push(i as u64 * packet_status);
        i = i + 1;
    }
    offsets
}

/// What a device holds for windowed packets.
#[derive(Clone, Copy, Debug)]
pub struct PacketResources {
    /// A retained upload for the stream window.
    pub has_stream: bool,
    pub groups: usize,
    pub metadata: usize,
    /// Bytes of one packet record.
    pub packet_status: u64,
}

/// The Modular metadata of a group's packet.
pub open spec fn window_metadata(stage: PacketStage, group: usize) -> usize {
    if stage == PacketStage::Combined {
        0
    } else {
        group
    }
}

/// A window violation.
pub open spec fn window_broken(detail: &'static str) -> Option<VarDctDecodeError> {
    Some(VarDctDecodeError::EntropyWindowContract { detail })
}

/// Why a segment from `i` on cannot be uploaded.
pub open spec fn upload_refusal(
    segments: Seq<usize>,
    controls: usize,
    resources: PacketResources,
    i: int,
) -> Option<VarDctDecodeError>
    decreases segments.len() - i,
{
    if i < 0 || i >= segments.len() {
        None
    } else if segments[i] >= resources.groups {
        window_broken("windowed packet batch references an absent group")
    } else if segments[i] >= controls {
        window_broken("packet segment has no control record")
    } else {
        upload_refusal(segments, controls, resources, i + 1)
    }
}

/// Why a segment from `i` on cannot be recorded.
pub open spec fn record_refusal(
    segments: Seq<usize>,
    stage: PacketStage,
    resources: PacketResources,
    i: int,
) -> Option<VarDctDecodeError>
    decreases segments.len() - i,
{
    if i < 0 || i >= segments.len() {
        None
    } else if segments[i] >= resources.groups {
        window_broken("packet window has no GPU group")
    } else if window_metadata(stage, segments[i]) >= resources.metadata {
        window_broken("packet window has no Modular metadata")
    } else {
        record_refusal(segments, stage, resources, i + 1)
    }
}

/// The first refusal of the batches from `i` on.
pub open spec fn batches_refusal(commands: PacketWindowCommands, resources: PacketResources, i: int) -> Option<
    VarDctDecodeError,
>
    decreases commands.batches@.len() - i,
{
    if i < 0 || i >= commands.batches@.len() {
        None
    } else {
        let segments = commands.batches@[i]@;
        match upload_refusal(segments, commands.controls, resources, 0) {
            Some(error) => Some(error),
            None => match record_refusal(segments, commands.stage, resources, 0) {
                Some(error) => Some(error),
                None => batches_refusal(commands, resources, i + 1),
            },
        }
    }
}

/// One batch as it is submitted.
#[derive(Debug, PartialEq, Eq)]
pub struct PacketBatch {
    /// The recorded commands come first.
    pub setup: bool,
    pub kernel: WindowKernel,
    /// The groups whose packets are decoded, in order.
    pub segments: Vec<usize>,
    /// Where the packet record of each group is copied to behind it, if it is.
    pub status_offsets: Vec<u64>,
    /// What follows the packets is submitted with it.
    pub downstream: bool,
}

/// The kernel of a plan's windows.
pub open spec fn window_kernel(stage: PacketStage, status_boundary: bool) -> WindowKernel {
    match stage {
        PacketStage::Lf => WindowKernel::Lf,
        PacketStage::Hf => if status_boundary {
            WindowKernel::HfMetadata
        } else {
            WindowKernel::Hf
        },
        PacketStage::Combined => WindowKernel::Combined,
    }
}

/// Batch `i` as it is submitted: the recorded commands come before the first, and the copies of
/// packet records and what follows the packets behind the last.
pub open spec fn is_packet_batch(
    batch: PacketBatch,
    commands: PacketWindowCommands,
    resources: PacketResources,
    has_downstream: bool,
    i: int,
) -> bool {
    let last = i == commands.batches@.len() - 1;
    &&& batch.setup == (commands.has_setup && i == 0)
    &&& batch.kernel == window_kernel(commands.stage, commands.status_boundary)
    &&& batch.segments@ == commands.batches@[i]@
    &&& batch.status_offsets@ == if commands.status_boundary && last {
        record_offsets(resources.groups as int, resources.packet_status)
    } else {
        Seq::empty()
    }
    &&& batch.downstream == (has_downstream && last)
}

/// Why windowed packets cannot be submitted.
pub open spec fn submit_refusal(commands: PacketWindowCommands, resources: PacketResources) -> Option<
    VarDctDecodeError,
> {
    if !resources.has_stream {
        window_broken("windowed packet commands have no retained stream upload")
    } else if commands.stream_bytes > usize::MAX {
        Some(
            VarDctDecodeError::ArithmeticOverflow { field: "packet stream window host length" },
        )
    } else if batches_refusal(commands, resources, 0) is Some {
        batches_refusal(commands, resources, 0)
    } else if commands.batches@.len() == 0 {
        window_broken("windowed packet execution has no batches")
    } else {
        None
    }
}

/// Checks that the segments of a batch can be uploaded and recorded.
fn check_batch(
    segments: &Vec<usize>,
    controls: usize,
    stage: PacketStage,
    resources: PacketResources,
) -> (r: Result<(), VarDctDecodeError>)
    ensures
        match upload_refusal(segments@, controls, resources, 0) {
            Some(error) => r == Err::<(), VarDctDecodeError>(error),
            None => match record_refusal(segments@, stage, resources, 0) {
                Some(error) => r == Err::<(), VarDctDecodeError>(error),
                None => r is Ok,
            },
        },
{
    let mut i: usize = 0;
    while i < segments.len()
        invariant
            i <= segments@.len(),
            upload_refusal(segments@, controls, resources, 0) == upload_refusal(
                segments@,
                controls,
                resources,
                i as int,
            ),
        decreases segments@.len() - i,
    {
        if segments[i] >= resources.groups {
            return Err(
                VarDctDecodeError::EntropyWindowContract {
                    detail: "windowed packet batch references an absent group",
                },
            );
        }
        if segments[i] >= controls {
            return Err(
                VarDctDecodeError::EntropyWindowContract {
                    detail: "packet segment has no control record",
                },
            );
        }
        i = i + 1;
    }
    let mut k: usize = 0;
    while k < segments.len()
        invariant
            k <= segments@.len(),
            upload_refusal(segments@, controls, resources, 0) is None,
            record_refusal(segments@, stage, resources, 0) == record_refusal(
                segments@,
                stage,
                resources,
                k as int,
            ),
        decreases segments@.len() - k,
    {
        if segments[k] >= resources.groups {
            return Err(
                VarDctDecodeError::EntropyWindowContract {
                    detail: "packet window has no GPU group",
                },
            );
        }
        let metadata: usize = match stage {
            PacketStage::Combined => 0,
            _ => segments[k],
        };
        if metadata >= resources.metadata {
            return Err(
                VarDctDecodeError::EntropyWindowContract {
                    detail: "packet window has no Modular metadata",
                },
            );
        }
        k = k + 1;
    }
    Ok(())
}

/// The submissions of windowed packets, one for each batch.
pub fn submit_packet_windows(
    commands: &PacketWindowCommands,
    resources: PacketResources,
    has_downstream: bool,
) -> (r: Result<Vec<PacketBatch>, VarDctDecodeError>)
    requires
        resources.groups * resources.packet_status <= u64::MAX,
    ensures
        match submit_refusal(*commands, resources) {
            Some(error) => r == Err::<Vec<PacketBatch>, VarDctDecodeError>(error),
            None => r matches Ok(batches) && batches@.len() == commands.batches@.len()
                && forall|i: int|
                0 <= i < batches@.len() ==> is_packet_batch(
                    #[trigger] batches@[i],
                    *commands,
                    resources,
                    has_downstream,
                    i,
                ),
        },
{
    if !resources.has_stream {
        return Err(
            VarDctDecodeError::EntropyWindowContract {
                detail: "windowed packet commands have no retained stream upload",
            },
        );
    }
    if commands.stream_bytes > usize::MAX as u64 {
        return Err(
            VarDctDecodeError::ArithmeticOverflow { field: "packet stream window host length" },
        );
    }
    let kernel = match commands.stage {
        PacketStage::Lf => WindowKernel::Lf,
        PacketStage::Hf => if commands.status_boundary {
            WindowKernel::HfMetadata
        } else {
            WindowKernel::Hf
        },
        PacketStage::Combined => WindowKernel::Combined,
    };
    let mut batches: Vec<PacketBatch> = Vec::new();
    let mut i: usize = 0;
    while i < commands.batches.len()
        invariant
            resources.has_stream,
            resources.groups * resources.packet_status <= u64::MAX,
            commands.stream_bytes <= usize::MAX,
            i <= commands.batches@.len(),
            kernel == window_kernel(commands.stage, commands.status_boundary),
            batches@.len() == i,
            forall|k: int|
                0 <= k < i ==> is_packet_batch(
                    #[trigger] batches@[k],
                    *commands,
                    resources,
                    has_downstream,
                    k,
                ),
            batches_refusal(*commands, resources, 0) == batches_refusal(
                *commands,
                resources,
                i as int,
            ),
        decreases commands.batches@.len() - i,
    {
        match check_batch(&commands.batches[i], commands.controls, commands.stage, resources) {
            Ok(_) => {},
            Err(error) => {
                return Err(error);
            },
        }
        let last = i == commands.batches.len() - 1;
        let mut segments: Vec<usize> = Vec::new();
        segments.extend_from_slice(commands.batches[i].as_slice());
        assert(segments@ =~= commands.batches@[i as int]@);
        let status_offsets: Vec<u64> = if commands.status_boundary && last {
            plan_record_offsets(resources.groups, resources.packet_status)
        } else {
            Vec::new()
        };
        batches.push(
            PacketBatch {
                setup: commands.has_setup && i == 0,
                kernel,
                segments,
                status_offsets,
                downstream: has_downstream && last,
            },
        );
        i = i + 1;
    }
    if commands.batches.len() == 0 {
        return Err(
            VarDctDecodeError::EntropyWindowContract {
                detail: "windowed packet execution has no batches",
            },
        );
    }
    Ok(batches)
}

/// The recorded commands precede every window, and nothing that follows the packets precedes one.
pub proof fn law_windows_between_setup_and_downstream(
    batches: Seq<PacketBatch>,
    commands: PacketWindowCommands,
    resources: PacketResources,
    has_downstream: bool,
    i: int,
)
    requires
        batches.len() == commands.batches@.len(),
        0 <= i < batches.len(),
        forall|k: int|
            0 <= k < batches.len() ==> is_packet_batch(
                #[trigger] batches[k],
                commands,
                resources,
                has_downstream,
                k,
            ),
    ensures
        batches[i].setup ==> i == 0,
        batches[i].downstream ==> i == batches.len() - 1,
        batches[i].status_offsets@.len() > 0 ==> i == batches.len() - 1,
        batches[0].setup == commands.has_setup,
        batches.last().downstream == has_downstream,
{
    assert(is_packet_batch(batches[0], commands, resources, has_downstream, 0));
}

} // verus!
