//! Immutable pass images, copied validation evidence, and queue submission at image-wide barriers.

use crate::session::update::FrameProgression;
use crate::session::{FrameMetadata, SubmittedGpuFrame, SubmittedGpuUpdate};
use crate::vardct_engine::execution::packet::{plan_record_offsets, record_offsets};
use crate::vardct_engine::execution::raw_matrix::broken;
use crate::vardct_engine::execution::stage::still_metadata;
use crate::vardct_engine::execution::validate::{finish_statuses, statuses_checked, FrameStatuses};
use crate::vardct_engine::types::VarDctDecodeError;
use vstd::prelude::*;

verus! {

/// An image behind some of a frame's passes.
#[derive(Clone, Copy, Debug, PartialEq, Eq, Structural)]
pub struct PassBoundary {
    pub physical_frame_index: u32,
    pub completed_passes: u8,
    pub total_passes: u8,
    pub intended_downsampling: u32,
}

impl PassBoundary {
    pub open spec fn spec_progression(self) -> FrameProgression {
        FrameProgression::Coefficients {
            physical_frame_index: self.physical_frame_index,
            completed_passes: self.completed_passes,
            total_passes: self.total_passes,
            intended_downsampling: self.intended_downsampling,
        }
    }

    /// The boundary as it is reported with an image.
    pub fn progression(self) -> (progression: FrameProgression)
        ensures
            progression == self.spec_progression(),
    {
        FrameProgression::Coefficients {
            physical_frame_index: self.physical_frame_index,
            completed_passes: self.completed_passes,
            total_passes: self.total_passes,
            intended_downsampling: self.intended_downsampling,
        }
    }
}

/// An intermediate image and the statuses that validate it.
#[derive(Clone, Copy, Debug, PartialEq, Eq, Structural)]
pub struct IntermediateFrame {
    pub boundary: PassBoundary,
    /// Bytes of its copied statuses.
    pub status_bytes: u64,
    pub submitted: bool,
}

/// Commands of an intermediate image.
#[derive(Debug, PartialEq, Eq)]
pub struct IntermediateCommands {
    /// The coefficient statuses are not copied yet.
    pub needs_hf_status: bool,
    /// Where the packet record of each group is copied to.
    pub packet_offsets: Vec<u64>,
    /// Where the lowering record of each group is copied to.
    pub artifact_offsets: Vec<u64>,
    /// Where the coefficient statuses of each group are copied to.
    pub hf_offsets: Vec<u64>,
}

/// Coefficient statuses are copied one group behind the other, from `offset` on.
pub open spec fn copied_to(offsets: Seq<u64>, sizes: Seq<u64>, offset: int) -> bool {
    &&& offsets.len() == sizes.len()
    &&& forall|i: int|
        0 <= i < offsets.len() ==> #[trigger] offsets[i] == offset + status_prefix(sizes, i)
}

/// Bytes of the first `n` groups' coefficient statuses.
pub open spec fn status_prefix(sizes: Seq<u64>, n: int) -> int
    decreases n,
{
    if n <= 0 {
        0
    } else {
        status_prefix(sizes, n - 1) + sizes[n - 1]
    }
}

/// Statuses grow with groups.
proof fn lemma_status_prefix(sizes: Seq<u64>, n: int, m: int)
    requires
        0 <= n <= m,
    ensures
        0 <= status_prefix(sizes, n) <= status_prefix(sizes, m),
    decreases m,
{
    if n < m {
        lemma_status_prefix(sizes, n, m - 1);
    } else if n > 0 {
        lemma_status_prefix(sizes, n - 1, n - 1);
    }
}

/// The coefficient statuses fill what is left of an image's statuses.
pub open spec fn statuses_fill(sizes: Seq<u64>, offset: u64, status_bytes: u64) -> bool {
    offset + status_prefix(sizes, sizes.len() as int) == status_bytes
}

/// Where each group's coefficient statuses are copied to.
pub fn copy_hf_status(sizes: &Vec<u64>, offset: u64, status_bytes: u64) -> (r: Result<
    Vec<u64>,
    VarDctDecodeError,
>)
    requires
        offset + status_prefix(sizes@, sizes@.len() as int) <= u64::MAX,
    ensures
        if statuses_fill(sizes@, offset, status_bytes) {
            r matches Ok(offsets) && copied_to(offsets@, sizes@, offset as int)
        } else {
            r == Err::<Vec<u64>, VarDctDecodeError>(
                broken("intermediate HF validation size changed"),
            )
        },
{
    let mut offsets: Vec<u64> = Vec::new();
    let mut at: u64 = offset;
    let mut i: usize = 0;
    while i < sizes.len()
        invariant
            i <= sizes@.len(),
            offset + status_prefix(sizes@, sizes@.len() as int) <= u64::MAX,
            at == offset + status_prefix(sizes@, i as int),
            offsets@.len() == i,
            forall|k: int|
                0 <= k < i ==> #[trigger] offsets@[k] == offset + status_prefix(sizes@, k),
        decreases sizes@.len() - i,
    {
        proof {
            lemma_status_prefix(sizes@, i + 1, sizes@.len() as int);
        }
        offsets.push(at);
        at = at + sizes[i];
        i = i + 1;
    }
    if at != status_bytes {
        return Err(
            VarDctDecodeError::EngineContract { detail: "intermediate HF validation size changed" },
        );
    }
    Ok(offsets)
}

/// Status bytes of packets and lowered tasks.
#[derive(Clone, Copy, Debug)]
pub struct StatusShape {
    /// Bytes of one packet record, and of all of them.
    pub packet_status: u64,
    pub packet_bytes: u64,
    pub groups: u32,
}

/// Where coefficient statuses start.
pub open spec fn coefficient_offset(shape: StatusShape) -> int {
    shape.packet_bytes + shape.groups * 64
}

/// Where the lowering record of each group is copied to: behind all packet records.
pub open spec fn artifact_places(shape: StatusShape, groups: int) -> Seq<u64> {
    Seq::new(groups as nat, |i: int| (shape.packet_bytes + 64 * i) as u64)
}

/// Where the lowering record of each group is copied to.
fn plan_artifact_places(shape: StatusShape) -> (offsets: Vec<u64>)
    requires
        coefficient_offset(shape) <= u64::MAX,
    ensures
        offsets@ == artifact_places(shape, shape.groups as int),
{
    let mut offsets: Vec<u64> = Vec::new();
    let mut i: u32 = 0;
    while i < shape.groups
        invariant
            i <= shape.groups,
            coefficient_offset(shape) <= u64::MAX,
            offsets@ =~= artifact_places(shape, i as int),
        decreases shape.groups - i,
    {
        offsets.push(shape.packet_bytes + 64 * i as u64);
        i = i + 1;
    }
    offsets
}

/// Sizes of the coefficient statuses, where their buffers are made already.
pub open spec fn sizes_view(hf: Option<&Vec<u64>>) -> Option<Seq<u64>> {
    match hf {
        Some(sizes) => Some(sizes@),
        None => None,
    }
}

/// Why an intermediate image cannot be recorded.
pub open spec fn image_refusal(
    boundary: PassBoundary,
    status_bytes: u64,
    shape: StatusShape,
    hf: Option<Seq<u64>>,
    keeps_lf_planes: bool,
) -> Option<VarDctDecodeError> {
    if boundary.completed_passes != 0 && hf is Some && !statuses_fill(
        hf->0,
        coefficient_offset(shape) as u64,
        status_bytes,
    ) {
        Some(broken("intermediate HF validation size changed"))
    } else if boundary.completed_passes == 0 && coefficient_offset(shape) != status_bytes {
        Some(broken("DC validation size changed"))
    } else if keeps_lf_planes {
        Some(broken("intermediate image requires color-only main-frame validation"))
    } else {
        None
    }
}

/// The first refusal of the images from `i` on.
pub open spec fn images_refusal(
    boundaries: Seq<PassBoundary>,
    status_bytes: Seq<u64>,
    shape: StatusShape,
    hf: Option<Seq<u64>>,
    keeps_lf_planes: bool,
    i: int,
) -> Option<VarDctDecodeError>
    decreases boundaries.len() - i,
{
    if i < 0 || i >= boundaries.len() {
        None
    } else {
        match image_refusal(boundaries[i], status_bytes[i], shape, hf, keeps_lf_planes) {
            Some(error) => Some(error),
            None => images_refusal(boundaries, status_bytes, shape, hf, keeps_lf_planes, i + 1),
        }
    }
}

/// The commands of an image: the records of every group are copied, and its coefficient statuses
/// now, later, or not at all.
pub open spec fn recorded(
    recording: IntermediateCommands,
    boundary: PassBoundary,
    shape: StatusShape,
    hf: Option<Seq<u64>>,
) -> bool {
    &&& recording.packet_offsets@ == record_offsets(shape.groups as int, shape.packet_status)
    &&& recording.artifact_offsets@ == artifact_places(shape, shape.groups as int)
    &&& recording.needs_hf_status == (boundary.completed_passes != 0 && hf is None)
    &&& match hf {
        Some(sizes) => if boundary.completed_passes != 0 {
            copied_to(recording.hf_offsets@, sizes, coefficient_offset(shape))
        } else {
            recording.hf_offsets@.len() == 0
        },
        None => recording.hf_offsets@.len() == 0,
    }
}

/// Records the intermediate images of a frame.
pub fn record_intermediates(
    boundaries: &Vec<PassBoundary>,
    status_bytes: &Vec<u64>,
    shape: StatusShape,
    hf: Option<&Vec<u64>>,
    keeps_lf_planes: bool,
    permits: usize,
) -> (r: Result<(Vec<IntermediateFrame>, Vec<IntermediateCommands>), VarDctDecodeError>)
    requires
        status_bytes@.len() == boundaries@.len(),
        coefficient_offset(shape) <= u64::MAX,
        shape.groups * shape.packet_status <= u64::MAX,
        hf matches Some(sizes) ==> coefficient_offset(shape) + status_prefix(
            sizes@,
            sizes@.len() as int,
        ) <= u64::MAX,
    ensures
        if permits != boundaries@.len() {
            r == Err::<(Vec<IntermediateFrame>, Vec<IntermediateCommands>), VarDctDecodeError>(
                broken("intermediate output admission differs from the pass schedule"),
            )
        } else {
            match images_refusal(
                boundaries@,
                status_bytes@,
                shape,
                sizes_view(hf),
                keeps_lf_planes,
                0,
            ) {
                Some(error) => r == Err::<
                    (Vec<IntermediateFrame>, Vec<IntermediateCommands>),
                    VarDctDecodeError,
                >(error),
                None => r matches Ok((frames, recordings)) && {
                    &&& frames@.len() == boundaries@.len()
                    &&& recordings@.len() == boundaries@.len()
                    &&& forall|i: int|
                        0 <= i < frames@.len() ==> #[trigger] frames@[i] == (IntermediateFrame {
                            boundary: boundaries@[i],
                            status_bytes: status_bytes@[i],
                            submitted: false,
                        })
                    &&& forall|i: int|
                        0 <= i < recordings@.len() ==> recorded(
                            #[trigger] recordings@[i],
                            boundaries@[i],
                            shape,
                            sizes_view(hf),
                        )
                },
            }
        },
{
    if permits != boundaries.len() {
        return Err(
            VarDctDecodeError::EngineContract {
                detail: "intermediate output admission differs from the pass schedule",
            },
        );
    }
    let offset: u64 = shape.packet_bytes + shape.groups as u64 * 64;
    let ghost sizes = sizes_view(hf);
    let mut frames: Vec<IntermediateFrame> = Vec::new();
    let mut recordings: Vec<IntermediateCommands> = Vec::new();
    let mut i: usize = 0;
    while i < boundaries.len()
        invariant
            permits == boundaries@.len(),
            status_bytes@.len() == boundaries@.len(),
            i <= boundaries@.len(),
            offset == coefficient_offset(shape),
            coefficient_offset(shape) <= u64::MAX,
            shape.groups * shape.packet_status <= u64::MAX,
            sizes == sizes_view(hf),
            hf matches Some(sizes) ==> coefficient_offset(shape) + status_prefix(
                sizes@,
                sizes@.len() as int,
            ) <= u64::MAX,
            frames@.len() == i,
            recordings@.len() == i,
            forall|k: int|
                0 <= k < i ==> #[trigger] frames@[k] == (IntermediateFrame {
                    boundary: boundaries@[k],
                    status_bytes: status_bytes@[k],
                    submitted: false,
                }),
            forall|k: int|
                0 <= k < i ==> recorded(#[trigger] recordings@[k], boundaries@[k], shape, sizes),
            images_refusal(boundaries@, status_bytes@, shape, sizes, keeps_lf_planes, 0)
                == images_refusal(
                boundaries@,
                status_bytes@,
                shape,
                sizes,
                keeps_lf_planes,
                i as int,
            ),
        decreases boundaries@.len() - i,
    {
        let boundary = boundaries[i];
        let mut hf_offsets: Vec<u64> = Vec::new();
        if boundary.completed_passes != 0 {
            match hf {
                Some(sizes) => {
                    match copy_hf_status(sizes, offset, status_bytes[i]) {
                        Ok(offsets) => {
                            hf_offsets = offsets;
                        },
                        Err(error) => {
                            return Err(error);
                        },
                    }
                },
                None => {},
            }
        } else if offset != status_bytes[i] {
            return Err(VarDctDecodeError::EngineContract { detail: "DC validation size changed" });
        }
        if keeps_lf_planes {
            return Err(
                VarDctDecodeError::EngineContract {
                    detail: "intermediate image requires color-only main-frame validation",
                },
            );
        }
        frames.push(
            IntermediateFrame { boundary, status_bytes: status_bytes[i], submitted: false },
        );
        recordings.push(
            IntermediateCommands {
                needs_hf_status: boundary.completed_passes != 0 && hf.is_none(),
                packet_offsets: plan_record_offsets(shape.groups as usize, shape.packet_status),
                artifact_offsets: plan_artifact_places(shape),
                hf_offsets,
            },
        );
        i = i + 1;
    }
    Ok((frames, recordings))
}

/// Why a DC image is not submitted.
pub open spec fn dc_refusal(frames: Seq<IntermediateFrame>, recording: IntermediateCommands) -> Option<
    VarDctDecodeError,
> {
    if frames.len() == 0 {
        Some(broken("deferred DC has no admitted image"))
    } else if frames[0].boundary.completed_passes != 0 || recording.needs_hf_status
        || frames[0].submitted {
        Some(broken("invalid deferred DC boundary"))
    } else {
        None
    }
}

/// Submits the DC image, which depends on no coefficient, before any deferred HF-global tail is
/// parsed.
pub fn submit_dc(frames: &mut Vec<IntermediateFrame>, recording: &IntermediateCommands) -> (r: Result<
    (),
    VarDctDecodeError,
>)
    ensures
        match dc_refusal(old(frames)@, *recording) {
            Some(error) => r == Err::<(), VarDctDecodeError>(error) && final(frames)@ == old(
                frames)@,
            None => r is Ok && final(frames)@ == old(frames)@.update(
                0,
                IntermediateFrame { submitted: true, ..old(frames)@[0] },
            ),
        },
{
    if frames.len() == 0 {
        return Err(
            VarDctDecodeError::EngineContract { detail: "deferred DC has no admitted image" },
        );
    }
    let frame = frames[0];
    if frame.boundary.completed_passes != 0 || recording.needs_hf_status || frame.submitted {
        return Err(VarDctDecodeError::EngineContract { detail: "invalid deferred DC boundary" });
    }
    frames.set(
        0,
        IntermediateFrame {
            boundary: frame.boundary,
            status_bytes: frame.status_bytes,
            submitted: true,
        },
    );
    Ok(())
}

/// The first image from `i` on whose coefficient statuses do not fit, behind `first` images; all
/// of them where there is none.
pub open spec fn attach_stop(
    frames: Seq<IntermediateFrame>,
    first: int,
    recordings: Seq<IntermediateCommands>,
    sizes: Seq<u64>,
    offset: u64,
    i: int,
) -> int
    decreases recordings.len() - i,
{
    if i < 0 || i >= recordings.len() {
        recordings.len() as int
    } else if recordings[i].needs_hf_status && !statuses_fill(
        sizes,
        offset,
        frames[first + i].status_bytes,
    ) {
        i
    } else {
        attach_stop(frames, first, recordings, sizes, offset, i + 1)
    }
}

/// An image's commands with its coefficient statuses copied, where they were not yet.
pub open spec fn attached(
    before: IntermediateCommands,
    after: IntermediateCommands,
    sizes: Seq<u64>,
    offset: u64,
) -> bool {
    if before.needs_hf_status {
        &&& !after.needs_hf_status
        &&& copied_to(after.hf_offsets@, sizes, offset as int)
        &&& after.packet_offsets@ == before.packet_offsets@
        &&& after.artifact_offsets@ == before.artifact_offsets@
    } else {
        after == before
    }
}

/// Why coefficient statuses cannot be copied behind the images from `first` on.
pub open spec fn attach_refusal(
    frames: Seq<IntermediateFrame>,
    first: int,
    recordings: Seq<IntermediateCommands>,
    sizes: Seq<u64>,
    offset: u64,
) -> Option<VarDctDecodeError> {
    if first > frames.len() {
        Some(broken("deferred intermediate start is out of range"))
    } else if frames.len() - first != recordings.len() {
        Some(broken("deferred intermediate count changed"))
    } else if attach_stop(frames, first, recordings, sizes, offset, 0) < recordings.len() {
        Some(broken("intermediate HF validation size changed"))
    } else {
        None
    }
}

/// Copies the coefficient statuses behind the images that wait for them, up to the first that
/// they do not fit. Their buffers become available only after the DC image was submitted.
pub fn attach_hf_status(
    frames: &Vec<IntermediateFrame>,
    first: usize,
    sizes: &Vec<u64>,
    offset: u64,
    recordings: &mut Vec<IntermediateCommands>,
) -> (r: Result<(), VarDctDecodeError>)
    requires
        offset + status_prefix(sizes@, sizes@.len() as int) <= u64::MAX,
    ensures
        match attach_refusal(frames@, first as int, old(recordings)@, sizes@, offset) {
            Some(error) => r == Err::<(), VarDctDecodeError>(error),
            None => r is Ok,
        },
        final(recordings)@.len() == old(recordings)@.len(),
        ({
            let stop = if first <= frames@.len() && frames@.len() - first == old(recordings)@.len() {
                attach_stop(frames@, first as int, old(recordings)@, sizes@, offset, 0)
            } else {
                0
            };
            &&& forall|i: int|
                0 <= i < stop && i < final(recordings)@.len() ==> attached(
                    old(recordings)@[i],
                    #[trigger] final(recordings)@[i],
                    sizes@,
                    offset,
                )
            &&& forall|i: int|
                stop <= i < final(recordings)@.len() ==> #[trigger] final(recordings)@[i] == old(
                    recordings)@[i]
        }),
{
    if first > frames.len() {
        return Err(
            VarDctDecodeError::EngineContract {
                detail: "deferred intermediate start is out of range",
            },
        );
    }
    let count: usize = frames.len();
    if count - first != recordings.len() {
        return Err(
            VarDctDecodeError::EngineContract { detail: "deferred intermediate count changed" },
        );
    }
    let ghost all = recordings@;
    let mut i: usize = 0;
    while i < recordings.len()
        invariant
            all == old(recordings)@,
            recordings@.len() == all.len(),
            i <= all.len(),
            first + all.len() == frames@.len() == count,
            offset + status_prefix(sizes@, sizes@.len() as int) <= u64::MAX,
            forall|k: int|
                0 <= k < i ==> attached(all[k], #[trigger] recordings@[k], sizes@, offset),
            forall|k: int| i <= k < all.len() ==> #[trigger] recordings@[k] == all[k],
            attach_stop(frames@, first as int, all, sizes@, offset, 0) == attach_stop(
                frames@,
                first as int,
                all,
                sizes@,
                offset,
                i as int,
            ),
        decreases all.len() - i,
    {
        assert(recordings@[i as int] == all[i as int]);
        if recordings[i].needs_hf_status {
            match copy_hf_status(sizes, offset, frames[first + i].status_bytes) {
                Ok(hf_offsets) => {
                    let mut recording = IntermediateCommands {
                        needs_hf_status: false,
                        packet_offsets: Vec::new(),
                        artifact_offsets: Vec::new(),
                        hf_offsets: Vec::new(),
                    };
                    recordings.set_and_swap(i, &mut recording);
                    recordings.set(
                        i,
                        IntermediateCommands {
                            needs_hf_status: false,
                            packet_offsets: recording.packet_offsets,
                            artifact_offsets: recording.artifact_offsets,
                            hf_offsets,
                        },
                    );
                },
                Err(error) => {
                    return Err(error);
                },
            }
        }
        i = i + 1;
    }
    Ok(())
}

/// One submission: the passes `from..to`, then an image or the rest of the frame.
#[derive(Clone, Copy, Debug, PartialEq, Eq)]
pub struct PassSubmission {
    pub from: usize,
    pub to: usize,
    /// The intermediate image behind them; the last submission has none.
    pub image: Option<usize>,
}

/// Passes that precede image `i`.
pub open spec fn passes_before(frames: Seq<IntermediateFrame>, i: int) -> int {
    if i <= 0 {
        0
    } else {
        frames[i - 1].boundary.completed_passes as int
    }
}

/// The images from `i` on follow each other in a frame of `total` passes.
pub open spec fn scheduled(frames: Seq<IntermediateFrame>, total: int, i: int) -> bool {
    let boundary = frames[i].boundary;
    &&& boundary.total_passes == total
    &&& boundary.completed_passes < total
    &&& i > 0 ==> boundary.completed_passes > frames[i - 1].boundary.completed_passes
}

/// Every image follows the one before.
pub open spec fn schedule_valid(frames: Seq<IntermediateFrame>, total: int) -> bool {
    forall|i: int| 0 <= i < frames.len() ==> #[trigger] scheduled(frames, total, i)
}

/// No recording waits for a status.
pub open spec fn recordings_ready(recordings: Seq<IntermediateCommands>) -> bool {
    forall|i: int| 0 <= i < recordings.len() ==> !(#[trigger] recordings[i]).needs_hf_status
}

/// How the coefficients of a frame are recorded.
#[derive(Clone, Copy, Debug, PartialEq, Eq, Structural)]
pub enum PassCoefficients {
    /// Every pass is one recording.
    Whole,
    /// Every pass is streamed through windows, into buffers that are retained or not.
    Windowed { retained: bool },
}

/// Why the passes and images of a frame cannot be submitted.
pub open spec fn schedule_refusal(
    frames: Seq<IntermediateFrame>,
    first: int,
    total: int,
    recordings: Seq<IntermediateCommands>,
    coefficients: PassCoefficients,
) -> Option<VarDctDecodeError> {
    if first > frames.len() {
        Some(broken("intermediate submission start is out of range"))
    } else if !schedule_valid(frames.skip(first), total) {
        Some(broken("invalid intermediate pass schedule"))
    } else if recordings.len() != frames.len() - first || !recordings_ready(recordings) {
        Some(broken("intermediate submissions lost a validation stage"))
    } else if coefficients == (PassCoefficients::Windowed { retained: false }) {
        Some(broken("intermediate stream lost coefficient buffers"))
    } else {
        None
    }
}

/// The submission that ends with image `i`, or the last one.
pub open spec fn pass_submission(
    frames: Seq<IntermediateFrame>,
    first: int,
    total: int,
    i: int,
) -> PassSubmission {
    let left = frames.skip(first);
    PassSubmission {
        from: passes_before(left, i) as usize,
        to: if i < left.len() {
            left[i].boundary.completed_passes as usize
        } else {
            total as usize
        },
        image: if i < left.len() {
            Some((first + i) as usize)
        } else {
            None
        },
    }
}

/// Whether the images from `first` on follow each other.
fn is_scheduled(frames: &Vec<IntermediateFrame>, first: usize, total: usize) -> (r: bool)
    requires
        first <= frames@.len(),
    ensures
        r == schedule_valid(frames@.skip(first as int), total as int),
{
    let ghost left = frames@.skip(first as int);
    let mut i: usize = first;
    while i < frames.len()
        invariant
            left == frames@.skip(first as int),
            first <= i <= frames@.len(),
            forall|k: int| 0 <= k < i - first ==> #[trigger] scheduled(left, total as int, k),
        decreases frames@.len() - i,
    {
        let boundary = frames[i].boundary;
        assert(left[i - first] == frames@[i as int]);
        if i > first {
            assert(left[i - first - 1] == frames@[i - 1]);
        }
        if boundary.total_passes as usize != total || boundary.completed_passes as usize >= total
            || (i > first && boundary.completed_passes <= frames[i - 1].boundary.completed_passes) {
            assert(!scheduled(left, total as int, i - first));
            return false;
        }
        assert(scheduled(left, total as int, i - first));
        i = i + 1;
    }
    true
}

/// Whether no recording waits for a status.
fn is_ready(recordings: &Vec<IntermediateCommands>) -> (r: bool)
    ensures
        r == recordings_ready(recordings@),
{
    let mut i: usize = 0;
    while i < recordings.len()
        invariant
            i <= recordings@.len(),
            forall|k: int| 0 <= k < i ==> !(#[trigger] recordings@[k]).needs_hf_status,
        decreases recordings@.len() - i,
    {
        if recordings[i].needs_hf_status {
            return false;
        }
        i = i + 1;
    }
    true
}

/// A submitted image.
pub open spec fn marked(frame: IntermediateFrame) -> IntermediateFrame {
    IntermediateFrame { submitted: true, ..frame }
}

/// The images with those from `first` on submitted.
pub open spec fn marked_from(frames: Seq<IntermediateFrame>, first: int) -> Seq<IntermediateFrame> {
    Seq::new(
        frames.len(),
        |i: int|
            if i < first {
                frames[i]
            } else {
                marked(frames[i])
            },
    )
}

/// Submissions of all passes of a frame: each image behind exactly the passes that it shows. The
/// images are submitted then.
pub fn submit_passes(
    frames: &mut Vec<IntermediateFrame>,
    first: usize,
    total: usize,
    recordings: &Vec<IntermediateCommands>,
    coefficients: PassCoefficients,
) -> (r: Result<Vec<PassSubmission>, VarDctDecodeError>)
    ensures
        match schedule_refusal(
            old(frames)@,
            first as int,
            total as int,
            recordings@,
            coefficients,
        ) {
            Some(error) => r == Err::<Vec<PassSubmission>, VarDctDecodeError>(error) && final(
                frames)@ == old(frames)@,
            None => {
                &&& r matches Ok(submissions) && submissions@.len() == old(frames)@.len() - first
                    + 1 && forall|i: int|
                    0 <= i < submissions@.len() ==> #[trigger] submissions@[i] == pass_submission(
                        old(frames)@,
                        first as int,
                        total as int,
                        i,
                    )
                &&& final(frames)@ == marked_from(old(frames)@, first as int)
            },
        },
{
    if first > frames.len() {
        return Err(
            VarDctDecodeError::EngineContract {
                detail: "intermediate submission start is out of range",
            },
        );
    }
    if !is_scheduled(frames, first, total) {
        return Err(
            VarDctDecodeError::EngineContract { detail: "invalid intermediate pass schedule" },
        );
    }
    if recordings.len() != frames.len() - first || !is_ready(recordings) {
        return Err(
            VarDctDecodeError::EngineContract {
                detail: "intermediate submissions lost a validation stage",
            },
        );
    }
    match coefficients {
        PassCoefficients::Windowed { retained } => if !retained {
            return Err(
                VarDctDecodeError::EngineContract {
                    detail: "intermediate stream lost coefficient buffers",
                },
            );
        },
        PassCoefficients::Whole => {},
    }
    let ghost all = frames@;
    let ghost left = all.skip(first as int);
    let mut submissions: Vec<PassSubmission> = Vec::new();
    let mut completed: usize = 0;
    let mut i: usize = first;
    while i < frames.len()
        invariant
            all == old(frames)@,
            left == all.skip(first as int),
            frames@.len() == all.len(),
            first <= i <= all.len(),
            forall|k: int| 0 <= k < first ==> #[trigger] frames@[k] == all[k],
            forall|k: int| first <= k < i ==> #[trigger] frames@[k] == marked(all[k]),
            forall|k: int| i <= k < all.len() ==> #[trigger] frames@[k] == all[k],
            completed == passes_before(left, i - first),
            submissions@.len() == i - first,
            forall|k: int|
                0 <= k < i - first ==> #[trigger] submissions@[k] == pass_submission(
                    all,
                    first as int,
                    total as int,
                    k,
                ),
        decreases all.len() - i,
    {
        assert(left[i - first] == all[i as int]);
        assert(frames@[i as int] == all[i as int]);
        let frame = frames[i];
        let target: usize = frame.boundary.completed_passes as usize;
        submissions.push(PassSubmission { from: completed, to: target, image: Some(i) });
        frames.set(
            i,
            IntermediateFrame {
                boundary: frame.boundary,
                status_bytes: frame.status_bytes,
                submitted: true,
            },
        );
        completed = target;
        i = i + 1;
    }
    assert(frames@ =~= marked_from(all, first as int));
    submissions.push(PassSubmission { from: completed, to: total, image: None });
    Ok(submissions)
}

/// The submissions of a frame run every pass once, in order, and each image behind exactly the
/// passes that it shows.
pub proof fn law_passes_in_order(
    frames: Seq<IntermediateFrame>,
    first: int,
    total: int,
    recordings: Seq<IntermediateCommands>,
    coefficients: PassCoefficients,
    i: int,
)
    requires
        0 <= first <= frames.len(),
        0 <= total <= usize::MAX,
        frames.len() <= usize::MAX,
        schedule_refusal(frames, first, total, recordings, coefficients) is None,
        0 <= i <= frames.len() - first,
    ensures
        ({
            let this = pass_submission(frames, first, total, i);
            &&& this.from <= this.to <= total
            &&& i == 0 ==> this.from == 0
            &&& i > 0 ==> this.from == pass_submission(frames, first, total, i - 1).to
            &&& i == frames.len() - first ==> this.to == total && this.image is None
            &&& i < frames.len() - first ==> this.image == Some((first + i) as usize) && this.to
                == frames[first + i].boundary.completed_passes
        }),
{
    let left = frames.skip(first);
    if i < left.len() {
        assert(scheduled(left, total, i));
    }
    if i > 0 {
        assert(scheduled(left, total, i - 1));
    }
}

/// Accepts the statuses of the image that is waited for, and gives the image and the next one to
/// wait for. Streams behind the passes that it shows are not looked at.
pub fn poll_intermediate<F>(
    frame_pending: bool,
    frames: &Vec<IntermediateFrame>,
    next: usize,
    statuses: &FrameStatuses,
    spatial_groups: u64,
    name: String,
    output: F,
) -> (r: Result<(SubmittedGpuUpdate<F>, usize), VarDctDecodeError>)
    requires
        statuses.wf(),
        next < frames@.len() ==> frames@[next as int].boundary.completed_passes * spatial_groups
            <= u64::MAX,
    ensures
        if frame_pending && next < frames@.len() {
            let completed = Some((frames@[next as int].boundary.completed_passes, spatial_groups));
            match r {
                Err(error) => statuses_checked(*statuses, completed, Err(error)),
                Ok((SubmittedGpuUpdate::Intermediate { frame, progression }, following)) => {
                    &&& statuses_checked(*statuses, completed, Ok(()))
                    &&& following == next + 1
                    &&& progression == frames@[next as int].boundary.spec_progression()
                    &&& frame.output == output
                    &&& frame.metadata == still_metadata(name)
                },
                Ok(_) => false,
            }
        } else {
            r == Err::<(SubmittedGpuUpdate<F>, usize), VarDctDecodeError>(
                VarDctDecodeError::CompletionConsumed,
            )
        },
{
    if !frame_pending || next >= frames.len() {
        return Err(VarDctDecodeError::CompletionConsumed);
    }
    let boundary = frames[next].boundary;
    match finish_statuses(statuses, Some((boundary.completed_passes, spatial_groups))) {
        Ok(_) => {},
        Err(error) => {
            return Err(error);
        },
    }
    let progression = boundary.progression();
    let frame = SubmittedGpuFrame::new(FrameMetadata::still(name), output);
    Ok((SubmittedGpuUpdate::Intermediate { frame, progression }, next + 1))
}

/// The records of an intermediate image: packet records one behind the other from the start, then
/// artifact records of sixty-four bytes behind all packet bytes, then its coefficient records, where
/// it shows a pass. An image of no pass has no room for more.
pub proof fn law_intermediate_records(
    boundaries: &Vec<PassBoundary>,
    status_bytes: &Vec<u64>,
    shape: StatusShape,
    hf: Option<&Vec<u64>>,
    keeps_lf_planes: bool,
    permits: usize,
    frames: Vec<IntermediateFrame>,
    recordings: Vec<IntermediateCommands>,
    i: int,
    g: int,
)
    requires
        status_bytes@.len() == boundaries@.len(),
        shape.packet_bytes + 64 * shape.groups <= u64::MAX,
        shape.groups * shape.packet_status <= u64::MAX,
        hf matches Some(sizes) ==> shape.packet_bytes + 64 * shape.groups + status_prefix(
            sizes@,
            sizes@.len() as int,
        ) <= u64::MAX,
        call_ensures(
            record_intermediates,
            (boundaries, status_bytes, shape, hf, keeps_lf_planes, permits),
            Ok::<(Vec<IntermediateFrame>, Vec<IntermediateCommands>), VarDctDecodeError>(
                (frames, recordings),
            ),
        ),
        0 <= i < boundaries@.len(),
        0 <= g < shape.groups,
    ensures
        permits == boundaries@.len() == frames@.len() == recordings@.len(),
        !keeps_lf_planes,
        frames@[i].boundary == boundaries@[i],
        frames@[i].status_bytes == status_bytes@[i],
        !frames@[i].submitted,
        ({
            let recording = recordings@[i];
            let passes = boundaries@[i].completed_passes > 0;
            &&& recording.packet_offsets@.len() == shape.groups
            &&& recording.packet_offsets@[g] == g * shape.packet_status
            &&& recording.artifact_offsets@.len() == shape.groups
            &&& recording.artifact_offsets@[g] == shape.packet_bytes + 64 * g
            &&& recording.needs_hf_status <==> passes && hf is None
            &&& !passes ==> status_bytes@[i] == shape.packet_bytes + 64 * shape.groups
                && recording.hf_offsets@.len() == 0
            &&& passes && hf is Some ==> recording.hf_offsets@.len() == hf->0@.len()
            &&& passes && hf is Some && hf->0@.len() > 0 ==> recording.hf_offsets@[0]
                == shape.packet_bytes + 64 * shape.groups
        }),
{
    lemma_image_accepted(
        boundaries@,
        status_bytes@,
        shape,
        sizes_view(hf),
        keeps_lf_planes,
        0,
        i,
    );
    assert(recorded(recordings@[i], boundaries@[i], shape, sizes_view(hf)));
    assert(frames@[i] == frames@[i]);
    let (n, p) = (shape.groups as int, shape.packet_status as int);
    assert(0 <= g * p <= n * p) by (nonlinear_arith)
        requires
            0 <= g < n,
            0 <= p,
    ;
    assert(recordings@[i].packet_offsets@[g] == (g * p) as u64);
    assert(recordings@[i].artifact_offsets@[g] == (shape.packet_bytes + 64 * g) as u64);
    if let Some(sizes) = hf {
        assert(status_prefix(sizes@, 0) == 0);
        if boundaries@[i].completed_passes > 0 && sizes@.len() > 0 {
            assert(recordings@[i].hf_offsets@[0] == coefficient_offset(shape) + status_prefix(
                sizes@,
                0,
            ));
        }
    }
}

/// No image of recorded ones is refused on its own.
proof fn lemma_image_accepted(
    boundaries: Seq<PassBoundary>,
    status_bytes: Seq<u64>,
    shape: StatusShape,
    hf: Option<Seq<u64>>,
    keeps_lf_planes: bool,
    from: int,
    i: int,
)
    requires
        0 <= from <= i < boundaries.len(),
        images_refusal(boundaries, status_bytes, shape, hf, keeps_lf_planes, from) is None,
    ensures
        image_refusal(boundaries[i], status_bytes[i], shape, hf, keeps_lf_planes) is None,
    decreases i - from,
{
    if from < i {
        lemma_image_accepted(boundaries, status_bytes, shape, hf, keeps_lf_planes, from + 1, i);
    }
}

} // verus!
