//! GPU cursor continuations and bounded, sequential assembly of Modular extra channels.

use crate::bits::{bit_count, bits_are_zero, zero_bits, BitError};
use crate::vardct_engine::execution::raw_matrix::broken;
use crate::vardct_engine::execution::side_image::{
    explained, is_explained, SideImage, SideImageStatus,
};
use crate::vardct_engine::execution::validate::{hf_outcome, HfReport, HfValidation};
use crate::vardct_engine::types::VarDctDecodeError;
use vstd::prelude::*;

verus! {

/// The arena that extra channels are assembled in.
#[derive(Clone, Copy, Debug)]
pub struct ArenaPlan {
    pub bytes: u64,
    /// Planes that the inverse transforms leave.
    pub final_planes: usize,
}

/// A selected extra channel and the plane of the arena that holds it.
#[derive(Clone, Copy, Debug, PartialEq, Eq, Structural)]
pub struct SelectedPlane {
    pub index: u32,
    pub plane: usize,
}

/// The arena of a frame.
#[derive(Debug, PartialEq, Eq)]
pub struct FrameArena {
    pub bytes: u64,
    /// The planes of the selected extra channels, in the order of the selection.
    pub planes: Vec<SelectedPlane>,
}

/// The planes of the first `n` selected channels.
pub open spec fn selected_planes(indices: Seq<usize>, n: int) -> Seq<SelectedPlane> {
    Seq::new(n as nat, |i: int| SelectedPlane { index: indices[i] as u32, plane: indices[i] })
}

/// A frame has the arena that its plan asks for.
pub open spec fn arena_made(
    arena: Option<FrameArena>,
    plan: Option<ArenaPlan>,
    indices: Seq<usize>,
) -> bool {
    match plan {
        Some(plan) => arena matches Some(arena) && arena.bytes == plan.bytes && arena.planes@
            == selected_planes(indices, indices.len() as int),
        None => arena is None,
    }
}

/// Why selected channel `i` or one behind it cannot be kept. `declared` says of every declared
/// channel whether its precision is supported.
pub open spec fn channel_refusal(
    indices: Seq<usize>,
    declared: Seq<bool>,
    final_planes: int,
    i: int,
) -> Option<VarDctDecodeError>
    decreases indices.len() - i,
{
    if i < 0 || i >= indices.len() {
        None
    } else if indices[i] >= declared.len() {
        Some(broken("selected extra channel has no declaration"))
    } else if !declared[indices[i] as int] {
        Some(broken("extra-channel profile changed precision"))
    } else if indices[i] >= final_planes {
        Some(broken("selected extra channel has no reconstructed plane"))
    } else {
        channel_refusal(indices, declared, final_planes, i + 1)
    }
}

/// Why the arena of a frame cannot be made.
pub open spec fn arena_refusal(
    plan: Option<ArenaPlan>,
    admitted: bool,
    indices: Seq<usize>,
    declared: Seq<bool>,
) -> Option<VarDctDecodeError> {
    match plan {
        None => if admitted {
            Some(broken("extra arena admitted without a plan"))
        } else {
            None
        },
        Some(plan) => if !admitted {
            Some(broken("extra frame arena was not admitted"))
        } else {
            channel_refusal(indices, declared, plan.final_planes as int, 0)
        },
    }
}

/// The arena of a frame and its selected planes, where it has one.
pub fn prepare_frame_arena(
    plan: Option<ArenaPlan>,
    admitted: bool,
    indices: &Vec<usize>,
    declared: &Vec<bool>,
) -> (r: Result<Option<FrameArena>, VarDctDecodeError>)
    ensures
        match arena_refusal(plan, admitted, indices@, declared@) {
            Some(error) => r == Err::<Option<FrameArena>, VarDctDecodeError>(error),
            None => r matches Ok(arena) && arena_made(arena, plan, indices@),
        },
{
    let arena = match plan {
        Some(arena) => arena,
        None => {
            if admitted {
                return Err(
                    VarDctDecodeError::EngineContract {
                        detail: "extra arena admitted without a plan",
                    },
                );
            }
            return Ok(None);
        },
    };
    if !admitted {
        return Err(
            VarDctDecodeError::EngineContract { detail: "extra frame arena was not admitted" },
        );
    }
    let mut planes: Vec<SelectedPlane> = Vec::new();
    let mut i: usize = 0;
    while i < indices.len()
        invariant
            i <= indices@.len(),
            planes@ =~= selected_planes(indices@, i as int),
            plan == Some(arena),
            admitted,
            channel_refusal(indices@, declared@, arena.final_planes as int, 0) == channel_refusal(
                indices@,
                declared@,
                arena.final_planes as int,
                i as int,
            ),
        decreases indices@.len() - i,
    {
        let index: usize = indices[i];
        if index >= declared.len() {
            return Err(
                VarDctDecodeError::EngineContract {
                    detail: "selected extra channel has no declaration",
                },
            );
        }
        if !declared[index] {
            return Err(
                VarDctDecodeError::EngineContract {
                    detail: "extra-channel profile changed precision",
                },
            );
        }
        if index >= arena.final_planes {
            return Err(
                VarDctDecodeError::EngineContract {
                    detail: "selected extra channel has no reconstructed plane",
                },
            );
        }
        planes.push(SelectedPlane { index: index as u32, plane: index });
        i = i + 1;
    }
    Ok(Some(FrameArena { bytes: arena.bytes, planes }))
}

/// A packet that may hold a subimage of the extra channels.
#[derive(Clone, Copy, Debug, PartialEq, Eq)]
pub struct ExtraRequest {
    /// The pass of an AC packet; LF packets have none.
    pub pass: Option<u32>,
    pub group: u32,
    /// The bit at which the coefficients end.
    pub cursor: u32,
}

/// The requests of LF packets whose coefficients end at these bits.
pub open spec fn lf_requests_of(cursors: Seq<u32>) -> Seq<ExtraRequest> {
    Seq::new(
        cursors.len(),
        |i: int| ExtraRequest { pass: None, group: i as u32, cursor: cursors[i] },
    )
}

/// One request for each LF packet, in order.
pub fn start_lf_extras(cursors: &Vec<u32>) -> (requests: Vec<ExtraRequest>)
    requires
        cursors@.len() <= u32::MAX,
    ensures
        requests@ == lf_requests_of(cursors@),
{
    let mut requests: Vec<ExtraRequest> = Vec::new();
    let mut group: usize = 0;
    while group < cursors.len()
        invariant
            group <= cursors@.len() <= u32::MAX,
            requests@.len() == group,
            forall|i: int|
                0 <= i < group ==> #[trigger] requests@[i] == lf_requests_of(cursors@)[i],
        decreases cursors@.len() - group,
    {
        requests.push(ExtraRequest { pass: None, group: group as u32, cursor: cursors[group] });
        group = group + 1;
    }
    assert(requests@ =~= lf_requests_of(cursors@));
    requests
}

/// The requests of the first `n` AC packets, of those that extra channels follow in.
pub open spec fn ac_requests_of(
    expected: Seq<HfValidation>,
    reports: Seq<HfReport>,
    groups: u64,
    n: int,
) -> Seq<ExtraRequest>
    decreases n,
{
    if n <= 0 {
        Seq::empty()
    } else {
        let before = ac_requests_of(expected, reports, groups, n - 1);
        let last = expected[n - 1];
        if last.continuation {
            before.push(
                ExtraRequest {
                    pass: Some((last.index as int / groups as int) as u32),
                    group: (last.index as int % groups as int) as u32,
                    cursor: hf_outcome(last, reports[n - 1])->Ok_0,
                },
            )
        } else {
            before
        }
    }
}

/// The first refusal of the AC packets from `i` on.
pub open spec fn ac_refusal(expected: Seq<HfValidation>, reports: Seq<HfReport>, i: int) -> Option<
    VarDctDecodeError,
>
    decreases expected.len() - i,
{
    if i < 0 || i >= expected.len() {
        None
    } else {
        match hf_outcome(expected[i], reports[i]) {
            Err(error) => Some(error),
            Ok(_) => ac_refusal(expected, reports, i + 1),
        }
    }
}

/// Where the coefficient records of a frame lie among `mapped` bytes of statuses.
#[derive(Clone, Copy, Debug)]
pub struct HfRecords {
    pub mapped: usize,
    pub offset: usize,
    /// Bytes of one record.
    pub bytes: usize,
}

/// Why the AC packets have no requests: a record of theirs is not mapped or not read, or refuses.
pub open spec fn ac_extra_refusal(
    records: HfRecords,
    expected: Seq<HfValidation>,
    reports: Seq<HfReport>,
) -> Option<VarDctDecodeError> {
    if records.offset + expected.len() * records.bytes > records.mapped {
        Some(VarDctDecodeError::StatusAbi { status: "AC extra cursor range" })
    } else if reports.len() != expected.len() {
        Some(VarDctDecodeError::StatusAbi { status: "AC extra cursor" })
    } else {
        ac_refusal(expected, reports, 0)
    }
}

/// One request for each AC packet that extra channels follow in, in order. `reports` holds what
/// each mapped coefficient record was read as.
pub fn finish_ac_extra(
    records: HfRecords,
    expected: &Vec<HfValidation>,
    reports: &Vec<HfReport>,
    groups: u64,
) -> (r: Result<Vec<ExtraRequest>, VarDctDecodeError>)
    requires
        groups > 0,
        records.offset + expected@.len() * records.bytes <= usize::MAX,
    ensures
        match ac_extra_refusal(records, expected@, reports@) {
            Some(error) => r == Err::<Vec<ExtraRequest>, VarDctDecodeError>(error),
            None => r matches Ok(requests) && requests@ == ac_requests_of(
                expected@,
                reports@,
                groups,
                expected@.len() as int,
            ),
        },
{
    let count: usize = expected.len();
    assert(0 <= count * records.bytes) by (nonlinear_arith);
    if records.offset + count * records.bytes > records.mapped {
        return Err(VarDctDecodeError::StatusAbi { status: "AC extra cursor range" });
    }
    if reports.len() != count {
        return Err(VarDctDecodeError::StatusAbi { status: "AC extra cursor" });
    }
    let mut requests: Vec<ExtraRequest> = Vec::new();
    let mut i: usize = 0;
    while i < expected.len()
        invariant
            groups > 0,
            i <= expected@.len() == reports@.len(),
            requests@ == ac_requests_of(expected@, reports@, groups, i as int),
            ac_extra_refusal(records, expected@, reports@) == ac_refusal(expected@, reports@, 0),
            ac_refusal(expected@, reports@, 0) == ac_refusal(expected@, reports@, i as int),
        decreases expected@.len() - i,
    {
        let last = expected[i];
        let cursor: u32 = match last.validate(reports[i]) {
            Ok(cursor) => cursor,
            Err(error) => {
                return Err(error);
            },
        };
        if last.continuation {
            let index: u64 = last.index as u64;
            proof {
                vstd::arithmetic::div_mod::lemma_div_is_ordered_by_denominator(
                    index as int,
                    1,
                    groups as int,
                );
                vstd::arithmetic::div_mod::lemma_mod_decreases(index as nat, groups as nat);
                vstd::arithmetic::div_mod::lemma_div_pos_is_pos(index as int, groups as int);
            }
            requests.push(
                ExtraRequest {
                    pass: Some((index / groups) as u32),
                    group: (index % groups) as u32,
                    cursor,
                },
            );
        }
        i = i + 1;
    }
    Ok(requests)
}

/// What follows the last subimage.
#[derive(Debug)]
pub enum ExtraResume {
    /// HF packets, from the bits at which the LF packets end.
    Lf { cursors: Vec<u32> },
    /// The frame's output.
    Ac,
}

/// Subimages that are still to be decoded, one at a time.
#[derive(Debug)]
pub struct ExtraQueue {
    pub requests: Vec<ExtraRequest>,
    /// The first request that was not looked at.
    pub next: usize,
    pub resume: ExtraResume,
}

impl ExtraQueue {
    /// Every LF packet that is asked for has a cursor.
    pub open spec fn wf(&self) -> bool {
        &&& self.next <= self.requests@.len()
        &&& self.resume matches ExtraResume::Lf { cursors } ==> forall|i: int|
            0 <= i < self.requests@.len() ==> (#[trigger] self.requests@[i]).group < cursors@.len()
    }

    /// An LF packet has a cursor.
    pub open spec fn knows(&self, request: ExtraRequest) -> bool {
        match self.resume {
            ExtraResume::Lf { cursors } => request.group < cursors@.len(),
            ExtraResume::Ac => true,
        }
    }

    /// A queue of LF packets.
    pub fn for_lf(cursors: Vec<u32>) -> (queue: Self)
        requires
            cursors@.len() <= u32::MAX,
        ensures
            queue.wf(),
            queue.requests@ == lf_requests_of(cursors@),
            queue.next == 0,
            queue.resume == (ExtraResume::Lf { cursors }),
    {
        let requests = start_lf_extras(&cursors);
        ExtraQueue { requests, next: 0, resume: ExtraResume::Lf { cursors } }
    }

    /// A queue of AC packets.
    pub fn for_ac(requests: Vec<ExtraRequest>) -> (queue: Self)
        ensures
            queue.wf(),
            queue.requests == requests,
            queue.next == 0,
            queue.resume is Ac,
    {
        ExtraQueue { requests, next: 0, resume: ExtraResume::Ac }
    }

    /// The next packet to parse for a subimage; none is left when all were looked at.
    pub fn start_extra_subimage(&mut self) -> (r: Option<ExtraRequest>)
        requires
            old(self).wf(),
        ensures
            final(self).wf(),
            final(self).requests == old(self).requests,
            final(self).resume == old(self).resume,
            if old(self).next < old(self).requests@.len() {
                r == Some(old(self).requests@[old(self).next as int]) && final(self).next == old(
                    self).next + 1
            } else {
                r is None && final(self).next == old(self).next
            },
    {
        if self.next < self.requests.len() {
            let request = self.requests[self.next];
            self.next = self.next + 1;
            Some(request)
        } else {
            None
        }
    }

    /// Moves the end of an LF packet behind the subimage that was decoded from it. The end of an
    /// AC packet is not needed any more.
    pub fn subimage_ended(&mut self, current: ExtraRequest, cursor: u32)
        requires
            old(self).wf(),
            old(self).knows(current),
        ensures
            final(self).wf(),
            final(self).requests == old(self).requests,
            final(self).next == old(self).next,
            match old(self).resume {
                ExtraResume::Lf { cursors } => final(self).resume matches ExtraResume::Lf {
                    cursors: moved,
                } && moved@ == cursors@.update(current.group as int, cursor),
                ExtraResume::Ac => final(self).resume is Ac,
            },
    {
        match &mut self.resume {
            ExtraResume::Lf { cursors } => {
                cursors.set(current.group as usize, cursor);
            },
            ExtraResume::Ac => {},
        }
    }
}

/// A subimage that is being decoded.
#[derive(Debug)]
pub struct ExtraWork {
    pub current: ExtraRequest,
    pub image: SideImage,
    pub stream_index: u32,
    /// Planes that the decoder leaves, and planes of the arena that they are copied to.
    pub final_planes: usize,
    pub targets: usize,
    /// Ends of the windows, in bits behind the first token.
    pub window_ends: Vec<u32>,
    /// The window behind the submitted one.
    pub next_window: usize,
    /// Its planes were copied to the arena.
    pub copied: bool,
}

/// What follows a completed submission of a subimage.
#[derive(Clone, Copy, Debug, PartialEq, Eq, Structural)]
pub enum ExtraStep {
    /// The next subimage; this one ended at the cursor.
    Ended { cursor: u32 },
    /// The next window is submitted.
    NextWindow { index: usize },
    /// The planes are copied to the arena.
    Copy,
}

/// Why something other than padding follows the cursor in its packet: the packet does not end at
/// the next byte, or beyond the codestream, or a bit is set.
pub open spec fn padding_refusal(
    codestream: Seq<u8>,
    stream: u32,
    cursor: u32,
    packet_end: u32,
) -> Option<VarDctDecodeError> {
    if (cursor + 7) / 8 * 8 != packet_end {
        Some(VarDctDecodeError::ExtraModularTrailingBits { stream, cursor, packet_end })
    } else if packet_end > bit_count(codestream) {
        Some(VarDctDecodeError::Codestream(BitError::UnexpectedEndOfBits))
    } else if !zero_bits(codestream, cursor as int, packet_end as int) {
        Some(VarDctDecodeError::ExtraModularTrailingBits { stream, cursor, packet_end })
    } else {
        None
    }
}

/// What follows a completed submission of a subimage, or why nothing does.
pub open spec fn extra_step(
    work: ExtraWork,
    codestream: Seq<u8>,
    status: SideImageStatus,
    has_arena: bool,
) -> Result<ExtraStep, VarDctDecodeError> {
    if work.next_window > work.window_ends@.len() {
        Err(broken("extra subimage has no submitted window"))
    } else if !explained(
        work.image,
        work.image.token_bit_offset + work.window_ends@[work.next_window - 1],
        status.is_ok,
        status,
    ) {
        Err(
            VarDctDecodeError::ExtraModularStatus {
                stream: work.stream_index,
                code: status.code,
                decoded_samples: status.decoded_samples,
                expected_samples: work.image.decoded_words,
                cursor: status.cursor,
                packet_end: work.image.packet_end,
            },
        )
    } else if work.copied {
        Ok(ExtraStep::Ended { cursor: status.cursor })
    } else if status.is_in_progress {
        if work.next_window == work.window_ends@.len() {
            Err(broken("extra subimage yielded after its final window"))
        } else {
            Ok(ExtraStep::NextWindow { index: work.next_window })
        }
    } else if work.current.pass is Some && padding_refusal(
        codestream,
        work.stream_index,
        status.cursor,
        work.image.packet_end,
    ) is Some {
        Err(
            padding_refusal(
                codestream,
                work.stream_index,
                status.cursor,
                work.image.packet_end,
            )->0,
        )
    } else if work.final_planes != work.targets {
        Err(broken("extra subimage reconstruction changed its output plane count"))
    } else if !has_arena {
        Err(broken("extra subimage has no retained frame arena"))
    } else {
        Ok(ExtraStep::Copy)
    }
}

impl ExtraWork {
    /// One window is submitted, and every window and bit can be addressed.
    pub open spec fn wf(&self, codestream: Seq<u8>) -> bool {
        &&& self.next_window > 0
        &&& forall|i: int|
            0 <= i < self.window_ends@.len() ==> self.image.token_bit_offset
                + #[trigger] self.window_ends@[i] <= u32::MAX
        &&& codestream.len() * 8 <= u64::MAX
    }

    /// Starts a subimage with the first of its windows.
    pub fn new(
        current: ExtraRequest,
        image: SideImage,
        stream_index: u32,
        final_planes: usize,
        targets: usize,
        window_ends: Vec<u32>,
        planned: u64,
        allocated: u64,
    ) -> (r: Result<Self, VarDctDecodeError>)
        ensures
            if allocated != planned {
                r == Err::<Self, VarDctDecodeError>(
                    broken("extra subimage allocation disagrees with admission"),
                )
            } else {
                r == Ok::<Self, VarDctDecodeError>(
                    ExtraWork {
                        current,
                        image,
                        stream_index,
                        final_planes,
                        targets,
                        window_ends,
                        next_window: 1,
                        copied: false,
                    },
                )
            },
    {
        if allocated != planned {
            return Err(
                VarDctDecodeError::EngineContract {
                    detail: "extra subimage allocation disagrees with admission",
                },
            );
        }
        Ok(
            ExtraWork {
                current,
                image,
                stream_index,
                final_planes,
                targets,
                window_ends,
                next_window: 1,
                copied: false,
            },
        )
    }

    /// Takes the report of a completed submission.
    pub fn finish_extra_subimage(
        &mut self,
        codestream: &[u8],
        status: SideImageStatus,
        has_arena: bool,
    ) -> (r: Result<ExtraStep, VarDctDecodeError>)
        requires
            old(self).wf(codestream@),
        ensures
            final(self).wf(codestream@),
            r == extra_step(*old(self), codestream@, status, has_arena),
            *final(self) == (ExtraWork {
                next_window: final(self).next_window,
                copied: final(self).copied,
                ..*old(self)
            }),
            final(self).next_window == old(self).next_window + if r matches Ok(
                ExtraStep::NextWindow { .. },
            ) {
                1int
            } else {
                0
            },
            final(self).copied == (old(self).copied || r matches Ok(ExtraStep::Copy)),
    {
        if self.next_window > self.window_ends.len() {
            return Err(
                VarDctDecodeError::EngineContract {
                    detail: "extra subimage has no submitted window",
                },
            );
        }
        let window_end: u32 = self.window_ends[self.next_window - 1];
        let available_end: u32 = self.image.token_bit_offset + window_end;
        if !is_explained(self.image, available_end, status.is_ok, status) {
            return Err(
                VarDctDecodeError::ExtraModularStatus {
                    stream: self.stream_index,
                    code: status.code,
                    decoded_samples: status.decoded_samples,
                    expected_samples: self.image.decoded_words,
                    cursor: status.cursor,
                    packet_end: self.image.packet_end,
                },
            );
        }
        if self.copied {
            return Ok(ExtraStep::Ended { cursor: status.cursor });
        }
        if status.is_in_progress {
            if self.next_window == self.window_ends.len() {
                return Err(
                    VarDctDecodeError::EngineContract {
                        detail: "extra subimage yielded after its final window",
                    },
                );
            }
            let index: usize = self.next_window;
            self.next_window = self.next_window + 1;
            return Ok(ExtraStep::NextWindow { index });
        }
        if self.current.pass.is_some() {
            let aligned = (status.cursor as u64 + 7) / 8 * 8 == self.image.packet_end as u64;
            let padded = if !aligned {
                false
            } else {
                match bits_are_zero(
                    codestream,
                    status.cursor as u64,
                    self.image.packet_end as u64,
                ) {
                    Ok(zero) => zero,
                    Err(error) => {
                        return Err(VarDctDecodeError::Codestream(error));
                    },
                }
            };
            if !padded {
                return Err(
                    VarDctDecodeError::ExtraModularTrailingBits {
                        stream: self.stream_index,
                        cursor: status.cursor,
                        packet_end: self.image.packet_end,
                    },
                );
            }
        }
        if self.final_planes != self.targets {
            return Err(
                VarDctDecodeError::EngineContract {
                    detail: "extra subimage reconstruction changed its output plane count",
                },
            );
        }
        if !has_arena {
            return Err(
                VarDctDecodeError::EngineContract {
                    detail: "extra subimage has no retained frame arena",
                },
            );
        }
        self.copied = true;
        Ok(ExtraStep::Copy)
    }
}

/// Why the assembled extra channels cannot be presented.
pub fn submit_extra_output(has_commands: bool, frame_pending: bool) -> (r: Result<
    (),
    VarDctDecodeError,
>)
    ensures
        r == if !has_commands {
            Err::<(), VarDctDecodeError>(
                broken("assembled extra channels have no frame output commands"),
            )
        } else if !frame_pending {
            Err::<(), VarDctDecodeError>(VarDctDecodeError::CompletionConsumed)
        } else {
            Ok::<(), VarDctDecodeError>(())
        },
{
    if !has_commands {
        return Err(
            VarDctDecodeError::EngineContract {
                detail: "assembled extra channels have no frame output commands",
            },
        );
    }
    if !frame_pending {
        return Err(VarDctDecodeError::CompletionConsumed);
    }
    Ok(())
}

/// A subimage is copied to the arena only when all of its samples are decoded; behind an AC
/// packet nothing but zero padding is left.
pub proof fn law_copied_when_complete(
    work: ExtraWork,
    codestream: Seq<u8>,
    status: SideImageStatus,
    has_arena: bool,
)
    requires
        work.wf(codestream),
        extra_step(work, codestream, status, has_arena) == Ok::<ExtraStep, VarDctDecodeError>(
            ExtraStep::Copy,
        ),
    ensures
        status.is_ok,
        status.decoded_samples == work.image.decoded_words,
        work.final_planes == work.targets,
        work.current.pass is Some ==> status.cursor <= work.image.packet_end < status.cursor + 8
            && zero_bits(codestream, status.cursor as int, work.image.packet_end as int),
{
}

/// A frame has an arena exactly where one is planned and admitted; of the selected channels, each is
/// declared with a precision that is supported and has a plane of its own number, in the order of
/// the selection.
pub proof fn law_arena(
    plan: Option<ArenaPlan>,
    admitted: bool,
    indices: &Vec<usize>,
    declared: &Vec<bool>,
    arena: Option<FrameArena>,
    i: int,
)
    requires
        call_ensures(
            prepare_frame_arena,
            (plan, admitted, indices, declared),
            Ok::<Option<FrameArena>, VarDctDecodeError>(arena),
        ),
        0 <= i < indices@.len(),
    ensures
        plan is Some <==> admitted,
        plan is Some <==> arena is Some,
        arena matches Some(arena) ==> {
            &&& arena.bytes == plan->0.bytes
            &&& arena.planes@.len() == indices@.len()
            &&& arena.planes@[i].plane == indices@[i]
            &&& arena.planes@[i].index == indices@[i] as u32
            &&& indices@[i] < declared@.len() && declared@[indices@[i] as int]
            &&& indices@[i] < plan->0.final_planes
        },
{
    if let Some(plan) = plan {
        lemma_channel_accepted(indices@, declared@, plan.final_planes as int, 0, i);
    }
}

/// No channel of accepted ones is refused on its own.
proof fn lemma_channel_accepted(
    indices: Seq<usize>,
    declared: Seq<bool>,
    final_planes: int,
    from: int,
    i: int,
)
    requires
        0 <= from <= i < indices.len(),
        channel_refusal(indices, declared, final_planes, from) is None,
    ensures
        indices[i] < declared.len(),
        declared[indices[i] as int],
        indices[i] < final_planes,
    decreases i - from,
{
    if from < i {
        lemma_channel_accepted(indices, declared, final_planes, from + 1, i);
    }
}

} // verus!
