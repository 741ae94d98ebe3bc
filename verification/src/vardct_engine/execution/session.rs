//! One-frame submission state.

use crate::progressive_dc::{extent_refusal, ProgressiveDcXybPlanes};
use crate::vardct_engine::source::VarDctDecodeMemoryStats;
use crate::vardct_engine::types::VarDctDecodeError;
use vstd::prelude::*;

verus! {

/// What a prepared frame waits with.
#[derive(Clone, Copy, Debug)]
pub struct FrameSource {
    pub uses_lf_frame: bool,
    /// Blocks of the frame, which are the samples of its LF image.
    pub block_extent: [u32; 2],
    pub external_lf: Option<ProgressiveDcXybPlanes>,
}

/// One frame that is submitted once.
#[derive(Clone, Copy, Debug)]
pub struct FrameDecodeSession {
    pub stats: VarDctDecodeMemoryStats,
    /// The frame, until it is submitted.
    pub source: Option<FrameSource>,
}

/// Bytes that are reserved before a frame is submitted.
#[derive(Clone, Copy, Debug, PartialEq, Eq, Structural)]
pub struct VarDctMemoryPermits {
    pub output: u64,
    pub extra: Option<u64>,
    pub transient: u64,
}

/// What is free for submissions: slots of the submission poller and bytes of device memory.
#[derive(Clone, Copy, Debug, PartialEq, Eq, Structural)]
pub struct FrameBudget {
    pub polls: usize,
    pub bytes: u64,
}

/// Why a frame has to wait.
#[derive(Clone, Copy, Debug, PartialEq, Eq, Structural)]
pub enum FramePressure {
    /// No slot of the submission poller is free.
    Poll,
    /// Fewer bytes are free than a reservation asks for.
    Memory { requested: u64, free: u64 },
}

impl VarDctMemoryPermits {
    /// Bytes of all reservations.
    pub open spec fn total(self) -> int {
        self.output + self.transient + match self.extra {
            Some(extra) => extra as int,
            None => 0,
        }
    }
}

/// What a frame reserves.
pub open spec fn permits_of(stats: VarDctDecodeMemoryStats) -> VarDctMemoryPermits {
    VarDctMemoryPermits {
        output: stats.output_lease_bytes,
        extra: if stats.extra_arena_bytes != 0 {
            Some(stats.extra_arena_bytes)
        } else {
            None
        },
        transient: (stats.transient_bytes - stats.extra_arena_bytes) as u64,
    }
}

/// The first reservation that is refused, of output, extra channels and transient buffers in
/// this order.
pub open spec fn pressure(permits: VarDctMemoryPermits, budget: FrameBudget) -> Option<
    FramePressure,
> {
    let extra = match permits.extra {
        Some(extra) => extra,
        None => 0,
    };
    if budget.polls == 0 {
        Some(FramePressure::Poll)
    } else if permits.output > budget.bytes {
        Some(FramePressure::Memory { requested: permits.output, free: budget.bytes })
    } else if extra > budget.bytes - permits.output {
        Some(
            FramePressure::Memory {
                requested: extra,
                free: (budget.bytes - permits.output) as u64,
            },
        )
    } else if permits.transient > budget.bytes - permits.output - extra {
        Some(
            FramePressure::Memory {
                requested: permits.transient,
                free: (budget.bytes - permits.output - extra) as u64,
            },
        )
    } else {
        None
    }
}

/// What a submission does to a frame and to what is free: a refused reservation leaves both as
/// they were.
pub open spec fn frame_submitted(
    before: FrameDecodeSession,
    budget: FrameBudget,
    after: FrameDecodeSession,
    rest: FrameBudget,
    r: Result<Option<(FrameSource, VarDctMemoryPermits)>, FramePressure>,
) -> bool {
    match before.source {
        None => {
            &&& r == Ok::<Option<(FrameSource, VarDctMemoryPermits)>, FramePressure>(None)
            &&& after == before
            &&& rest == budget
        },
        Some(source) => match pressure(permits_of(before.stats), budget) {
            Some(refused) => {
                &&& r == Err::<Option<(FrameSource, VarDctMemoryPermits)>, FramePressure>(refused)
                &&& after == before
                &&& rest == budget
            },
            None => {
                &&& r == Ok::<Option<(FrameSource, VarDctMemoryPermits)>, FramePressure>(
                    Some((source, permits_of(before.stats))),
                )
                &&& after == (FrameDecodeSession { source: None, ..before })
                &&& rest.polls == budget.polls - 1
                &&& rest.bytes == budget.bytes - permits_of(before.stats).total()
            },
        },
    }
}

/// Why a frame's LF dependency is refused.
pub open spec fn lf_source_refusal(session: FrameDecodeSession, planes: ProgressiveDcXybPlanes) -> Option<
    VarDctDecodeError,
> {
    match session.source {
        None => Some(VarDctDecodeError::CompletionConsumed),
        Some(source) => if !source.uses_lf_frame {
            Some(VarDctDecodeError::UnexpectedProgressiveDcSource)
        } else {
            match extent_refusal(
                planes.planes@,
                0,
                source.block_extent@[0],
                source.block_extent@[1],
            ) {
                Some(error) => Some(VarDctDecodeError::ProgressiveDc(error)),
                None => None,
            }
        },
    }
}

impl FrameDecodeSession {
    pub fn memory_stats(&self) -> (stats: VarDctDecodeMemoryStats)
        ensures
            stats == self.stats,
    {
        self.stats
    }

    /// Gives the LF dependency to a frame that is not submitted yet.
    pub fn set_progressive_dc_source(&mut self, planes: ProgressiveDcXybPlanes) -> (r: Result<
        (),
        VarDctDecodeError,
    >)
        ensures
            final(self).stats == old(self).stats,
            match lf_source_refusal(*old(self), planes) {
                Some(error) => r == Err::<(), VarDctDecodeError>(error) && final(self).source == old(
                    self).source,
                None => r is Ok && final(self).source == Some(
                    FrameSource { external_lf: Some(planes), ..old(self).source->0 },
                ),
            },
    {
        let source = match self.source {
            Some(source) => source,
            None => {
                return Err(VarDctDecodeError::CompletionConsumed);
            },
        };
        if !source.uses_lf_frame {
            return Err(VarDctDecodeError::UnexpectedProgressiveDcSource);
        }
        match planes.validate_extent(source.block_extent) {
            Ok(_) => {},
            Err(error) => {
                return Err(VarDctDecodeError::ProgressiveDc(error));
            },
        }
        self.source = Some(
            FrameSource {
                uses_lf_frame: source.uses_lf_frame,
                block_extent: source.block_extent,
                external_lf: Some(planes),
            },
        );
        Ok(())
    }

    /// Bytes to reserve before the frame is submitted; a submitted frame needs none. Reservations
    /// that fail leave the frame to be submitted later.
    pub fn reservations(&self) -> (permits: Option<VarDctMemoryPermits>)
        requires
            self.stats.extra_arena_bytes <= self.stats.transient_bytes,
        ensures
            permits == match self.source {
                None => None,
                Some(_) => Some(permits_of(self.stats)),
            },
    {
        if self.source.is_none() {
            return None;
        }
        Some(
            VarDctMemoryPermits {
                output: self.stats.output_lease_bytes,
                extra: if self.stats.extra_arena_bytes != 0 {
                    Some(self.stats.extra_arena_bytes)
                } else {
                    None
                },
                transient: self.stats.transient_bytes - self.stats.extra_arena_bytes,
            },
        )
    }

    /// Reserves what the frame needs and takes it to submit it, once. A refused reservation gives
    /// back the ones before it and keeps the frame, to be submitted later.
    pub fn submit_next(&mut self, budget: &mut FrameBudget) -> (r: Result<
        Option<(FrameSource, VarDctMemoryPermits)>,
        FramePressure,
    >)
        requires
            old(self).stats.extra_arena_bytes <= old(self).stats.transient_bytes,
        ensures
            frame_submitted(*old(self), *old(budget), *final(self), *final(budget), r),
    {
        let permits = match self.reservations() {
            Some(permits) => permits,
            None => {
                return Ok(None);
            },
        };
        if budget.polls == 0 {
            return Err(FramePressure::Poll);
        }
        let free: u64 = budget.bytes;
        if permits.output > free {
            return Err(FramePressure::Memory { requested: permits.output, free });
        }
        let free: u64 = free - permits.output;
        let extra: u64 = match permits.extra {
            Some(extra) => extra,
            None => 0,
        };
        if extra > free {
            return Err(FramePressure::Memory { requested: extra, free });
        }
        let free: u64 = free - extra;
        if permits.transient > free {
            return Err(FramePressure::Memory { requested: permits.transient, free });
        }
        budget.polls = budget.polls - 1;
        budget.bytes = free - permits.transient;
        match self.source.take() {
            Some(source) => Ok(Some((source, permits))),
            None => Ok(None),
        }
    }
}

/// What a frame's output leaves behind.
#[derive(Clone, Copy, Debug, PartialEq, Eq, Structural)]
pub enum FrameOutputScratch {
    Color,
    /// A scalar output reports a status of its own.
    Extra { status_bytes: u64 },
}

impl FrameOutputScratch {
    pub open spec fn spec_status_bytes(self) -> u64 {
        match self {
            FrameOutputScratch::Color => 0,
            FrameOutputScratch::Extra { status_bytes } => status_bytes,
        }
    }

    /// Bytes of the output's status.
    pub fn status_bytes(&self) -> (bytes: u64)
        ensures
            bytes == self.spec_status_bytes(),
    {
        match self {
            FrameOutputScratch::Color => 0,
            FrameOutputScratch::Extra { status_bytes } => *status_bytes,
        }
    }

    /// Where the output's status is copied to: the last bytes of the mapped statuses.
    pub fn copy_status(&self, staging_bytes: u64) -> (offset: Option<u64>)
        requires
            self.spec_status_bytes() <= staging_bytes,
        ensures
            offset == match *self {
                FrameOutputScratch::Color => None,
                FrameOutputScratch::Extra { status_bytes } => Some(
                    (staging_bytes - status_bytes) as u64,
                ),
            },
    {
        match self {
            FrameOutputScratch::Color => None,
            FrameOutputScratch::Extra { status_bytes } => Some(staging_bytes - *status_bytes),
        }
    }
}

/// What a frame reserves adds up to its output and transient bytes.
pub proof fn law_reservations_cover(stats: VarDctDecodeMemoryStats)
    requires
        stats.extra_arena_bytes <= stats.transient_bytes,
    ensures
        permits_of(stats).total() == stats.output_lease_bytes + stats.transient_bytes,
{
}

/// A frame is refused exactly where no slot or too few bytes are free. A refused frame loses
/// nothing: with enough free bytes a later submission takes it, and every one after that finds
/// none.
pub proof fn law_refused_frame_is_kept(
    first: FrameDecodeSession,
    short: FrameBudget,
    second: FrameDecodeSession,
    short_rest: FrameBudget,
    refused: Result<Option<(FrameSource, VarDctMemoryPermits)>, FramePressure>,
    enough: FrameBudget,
    third: FrameDecodeSession,
    enough_rest: FrameBudget,
    taken: Result<Option<(FrameSource, VarDctMemoryPermits)>, FramePressure>,
    later: FrameBudget,
    last: FrameDecodeSession,
    later_rest: FrameBudget,
    none: Result<Option<(FrameSource, VarDctMemoryPermits)>, FramePressure>,
)
    requires
        first.stats.extra_arena_bytes <= first.stats.transient_bytes,
        first.source is Some,
        short.bytes < first.stats.output_lease_bytes + first.stats.transient_bytes || short.polls
            == 0,
        enough.bytes >= first.stats.output_lease_bytes + first.stats.transient_bytes,
        enough.polls > 0,
        frame_submitted(first, short, second, short_rest, refused),
        frame_submitted(second, enough, third, enough_rest, taken),
        frame_submitted(third, later, last, later_rest, none),
    ensures
        refused is Err,
        second == first,
        short_rest == short,
        taken == Ok::<Option<(FrameSource, VarDctMemoryPermits)>, FramePressure>(
            Some((first.source->0, permits_of(first.stats))),
        ),
        none == Ok::<Option<(FrameSource, VarDctMemoryPermits)>, FramePressure>(None),
        later_rest == later,
{
}

/// A frame that is submitted takes exactly its output, its extra channels and its transient buffers
/// out of the budget, with one poll. It is submitted exactly where all of them fit and a poll is
/// left.
pub proof fn law_budget_taken(
    before: FrameDecodeSession,
    budget: FrameBudget,
    after: FrameDecodeSession,
    rest: FrameBudget,
    r: Result<Option<(FrameSource, VarDctMemoryPermits)>, FramePressure>,
)
    requires
        before.source is Some,
        before.stats.extra_arena_bytes <= before.stats.transient_bytes,
        frame_submitted(before, budget, after, rest, r),
    ensures
        r is Ok <==> budget.polls > 0 && before.stats.output_lease_bytes
            + before.stats.transient_bytes <= budget.bytes,
        r is Ok ==> {
            &&& r->Ok_0 is Some
            &&& after.source is None
            &&& rest.bytes == budget.bytes - before.stats.output_lease_bytes
                - before.stats.transient_bytes
            &&& rest.polls == budget.polls - 1
        },
        r is Err ==> after == before && rest == budget,
{
}

/// A frame that is still to be submitted reserves its output, its extra channels where it has any, and
/// the rest of its transient bytes; one that was submitted reserves nothing. The record of a scalar
/// output ends the mapped statuses.
pub proof fn law_reserved(
    session: &FrameDecodeSession,
    permits: Option<VarDctMemoryPermits>,
    scratch: &FrameOutputScratch,
    staging: u64,
    offset: Option<u64>,
)
    requires
        session.stats.extra_arena_bytes <= session.stats.transient_bytes,
        call_ensures(FrameDecodeSession::reservations, (session,), permits),
        scratch.spec_status_bytes() <= staging,
        call_ensures(FrameOutputScratch::copy_status, (scratch, staging), offset),
    ensures
        permits is Some <==> session.source is Some,
        permits matches Some(permits) ==> {
            &&& permits.output == session.stats.output_lease_bytes
            &&& permits.extra is Some <==> session.stats.extra_arena_bytes > 0
            &&& permits.extra matches Some(extra) ==> extra == session.stats.extra_arena_bytes
            &&& permits.transient + session.stats.extra_arena_bytes == session.stats.transient_bytes
        },
        *scratch matches FrameOutputScratch::Extra { status_bytes } ==> (offset matches Some(at)
            && at + status_bytes == staging),
        *scratch == FrameOutputScratch::Color ==> offset is None,
{
}

} // verus!
