//! Settings of the VarDCT submission engine, and the sessions that it opens.

use crate::session::{AnimationMetadata, DecodeProfile, PreparedGpuSession};
use crate::vardct_engine::execution::session::{FrameDecodeSession, FrameSource};
use crate::vardct_engine::source::VarDctDecodeMemoryStats;
use crate::vardct_engine::types::VarDctDecodeError;
use vstd::prelude::*;

verus! {

/// Bounds on a container that is parsed at once.
#[derive(Clone, Copy, Debug, PartialEq, Eq, Structural)]
pub struct ParseLimits {
    pub max_input_bytes: u64,
    pub max_boxes: usize,
    pub max_box_bytes: u64,
    pub max_codestream_bytes: u64,
}

/// Bounds on the headers of a codestream.
#[derive(Clone, Copy, Debug, PartialEq, Eq, Structural)]
pub struct InventoryLimits {
    pub max_frames: usize,
    pub max_total_section_bytes: u64,
}

/// Settings of the submission engine for the bounded standard regular-VarDCT profile. `P` says
/// how adaptive LF smoothing treats subsampled frames.
#[derive(Clone, Copy, Debug)]
pub struct VarDctSubmissionEngine<P> {
    parse_limit_bytes: u64,
    window_limit: Option<u64>,
    policy: P,
}

impl<P: Copy> VarDctSubmissionEngine<P> {
    pub closed spec fn spec_parse_limit(&self) -> u64 {
        self.parse_limit_bytes
    }

    pub closed spec fn spec_window_limit(&self) -> Option<u64> {
        self.window_limit
    }

    pub closed spec fn spec_policy(&self) -> P {
        self.policy
    }

    /// An engine without a stream window limit of its own.
    pub fn new(parse_limit_bytes: u64, policy: P) -> (engine: Self)
        ensures
            engine.spec_parse_limit() == parse_limit_bytes,
            engine.spec_window_limit() is None,
            engine.spec_policy() == policy,
    {
        VarDctSubmissionEngine { parse_limit_bytes, window_limit: None, policy }
    }

    pub fn with_subsampled_adaptive_lf_policy(self, policy: P) -> (engine: Self)
        ensures
            engine.spec_parse_limit() == self.spec_parse_limit(),
            engine.spec_window_limit() == self.spec_window_limit(),
            engine.spec_policy() == policy,
    {
        VarDctSubmissionEngine {
            parse_limit_bytes: self.parse_limit_bytes,
            window_limit: self.window_limit,
            policy,
        }
    }

    pub fn subsampled_adaptive_lf_policy(&self) -> (policy: P)
        ensures
            policy == self.spec_policy(),
    {
        self.policy
    }

    /// Caps reusable VarDCT entropy uploads.
    ///
    /// Combined/global-tree packets, staged local-tree LF/HF packets, and AC pass groups enforce
    /// this caller upper bound. Device limits and the shared per-frame byte budget may resolve a
    /// smaller four-byte-aligned cap.
    pub fn with_stream_window_limit(self, limit: u64) -> (engine: Self)
        requires
            limit > 0,
        ensures
            engine.spec_parse_limit() == self.spec_parse_limit(),
            engine.spec_window_limit() == Some(limit),
            engine.spec_policy() == self.spec_policy(),
    {
        VarDctSubmissionEngine {
            parse_limit_bytes: self.parse_limit_bytes,
            window_limit: Some(limit),
            policy: self.policy,
        }
    }

    /// Returns the caller-supplied upper bound, not a session's budget-resolved cap.
    pub fn stream_window_limit(&self) -> (limit: Option<u64>)
        ensures
            limit == self.spec_window_limit(),
    {
        self.window_limit
    }

    pub fn parse_limits(&self) -> (limits: ParseLimits)
        ensures
            limits == (ParseLimits {
                max_input_bytes: self.spec_parse_limit(),
                max_boxes: 32,
                max_box_bytes: self.spec_parse_limit(),
                max_codestream_bytes: self.spec_parse_limit(),
            }),
    {
        ParseLimits {
            max_input_bytes: self.parse_limit_bytes,
            max_boxes: 32,
            max_box_bytes: self.parse_limit_bytes,
            max_codestream_bytes: self.parse_limit_bytes,
        }
    }

    pub fn inventory_limits(&self) -> (limits: InventoryLimits)
        ensures
            limits == (InventoryLimits {
                max_frames: 1,
                max_total_section_bytes: self.spec_parse_limit(),
            }),
    {
        InventoryLimits {
            max_frames: 1,
            max_total_section_bytes: self.parse_limits().max_codestream_bytes,
        }
    }
}

/// Refuses a raw-matrix workgroup with more than one row of lanes.
pub fn check_raw_matrix_workgroup(rows: u32) -> (r: Result<(), VarDctDecodeError>)
    ensures
        r == if rows != 1 {
            Err::<(), VarDctDecodeError>(
                VarDctDecodeError::KernelPolicy {
                    kernel: "vardct_raw_matrix",
                    message: "raw matrix decode requires a linear workgroup",
                },
            )
        } else {
            Ok::<(), VarDctDecodeError>(())
        },
{
    if rows != 1 {
        return Err(
            VarDctDecodeError::KernelPolicy {
                kernel: "vardct_raw_matrix",
                message: "raw matrix decode requires a linear workgroup",
            },
        );
    }
    Ok(())
}

/// A stream of one presentation.
pub open spec fn still_stream(extent: [u32; 2]) -> AnimationMetadata {
    AnimationMetadata {
        width: extent[0],
        height: extent[1],
        timebase: None,
        loop_count: None,
        has_timecodes: None,
        frame_count_hint: Some(1),
    }
}

/// Opens a session of one prepared frame.
pub fn open_source(
    extent: [u32; 2],
    stats: VarDctDecodeMemoryStats,
    source: FrameSource,
) -> (prepared: PreparedGpuSession<FrameDecodeSession>)
    ensures
        prepared.profile == (DecodeProfile::VarDct { bits_per_sample: 8 }),
        prepared.metadata == still_stream(extent),
        prepared.session.stats == stats,
        prepared.session.source == Some(source),
{
    PreparedGpuSession::new(
        DecodeProfile::VarDct { bits_per_sample: 8 },
        AnimationMetadata {
            width: extent[0],
            height: extent[1],
            timebase: None,
            loop_count: None,
            has_timecodes: None,
            frame_count_hint: Some(1),
        },
        FrameDecodeSession { stats, source: Some(source) },
    )
}

} // verus!
