//! Refinements share presentation identity and frame-slot ownership without advancing animation.

use crate::arith::is_power_of_two;
use vstd::arithmetic::power2::is_pow2;
use vstd::prelude::*;

verus! {

/// The validated physical boundary represented by an intermediate image. Completing an LF
/// dependency does not complete its presentation. Every image keeps the requested canvas extent.
#[derive(Clone, Copy, Debug, PartialEq, Eq, Structural)]
pub enum FrameProgression {
    /// Zero completed passes denotes DC; otherwise every logical group in these passes is valid.
    Coefficients {
        physical_frame_index: u32,
        completed_passes: u8,
        total_passes: u8,
        /// A nonzero power of two describing detail, not the output buffer's dimensions.
        intended_downsampling: u32,
    },
    /// A completely decoded LF dependency, including its restoration and frame resampling.
    LowFrequency {
        physical_frame_index: u32,
        /// JPEG XL LF level, from 1 through 4; intended downsampling is 8 to this power.
        level: u8,
    },
}

/// Eight to the power of an LF level from one to four, zero for any other level.
pub open spec fn lf_downsampling(level: u8) -> int {
    if level == 1 {
        8
    } else if level == 2 {
        64
    } else if level == 3 {
        512
    } else if level == 4 {
        4096
    } else {
        0
    }
}

impl FrameProgression {
    /// The frame that the boundary belongs to.
    pub open spec fn frame(self) -> int {
        match self {
            FrameProgression::Coefficients { physical_frame_index, .. } => {
                physical_frame_index as int
            },
            FrameProgression::LowFrequency { physical_frame_index, .. } => {
                physical_frame_index as int
            },
        }
    }

    /// The intended detail divisor, or zero for an invalid LF level.
    pub open spec fn divisor(self) -> int {
        match self {
            FrameProgression::Coefficients { intended_downsampling, .. } => {
                intended_downsampling as int
            },
            FrameProgression::LowFrequency { level, .. } => lf_downsampling(level),
        }
    }

    /// A real boundary: some passes of a frame are missing, or an LF level is one of four.
    pub open spec fn is_valid(self) -> bool {
        match self {
            FrameProgression::Coefficients {
                completed_passes,
                total_passes,
                intended_downsampling,
                ..
            } => completed_passes < total_passes && is_pow2(intended_downsampling as int),
            FrameProgression::LowFrequency { level, .. } => 1 <= level <= 4,
        }
    }

    /// The boundary may come after `previous`: it never lies in an earlier frame or has less
    /// detail, and in the same frame more passes of the same number are complete.
    pub open spec fn comes_after(self, previous: FrameProgression) -> bool {
        &&& self.frame() >= previous.frame()
        &&& self.divisor() <= previous.divisor()
        &&& self.frame() == previous.frame() ==> match (previous, self) {
            (
                FrameProgression::Coefficients {
                    completed_passes: before,
                    total_passes: before_total,
                    ..
                },
                FrameProgression::Coefficients {
                    completed_passes: after,
                    total_passes: after_total,
                    ..
                },
            ) => after > before && after_total == before_total,
            _ => false,
        }
    }

    /// The frame that the boundary belongs to.
    pub fn physical_frame_index(self) -> (index: u32)
        ensures
            index == self.frame(),
    {
        match self {
            FrameProgression::Coefficients { physical_frame_index, .. } => physical_frame_index,
            FrameProgression::LowFrequency { physical_frame_index, .. } => physical_frame_index,
        }
    }

    /// Returns the intended detail divisor, or zero for an invalid LF level.
    pub fn intended_downsampling(self) -> (divisor: u32)
        ensures
            divisor == self.divisor(),
    {
        match self {
            FrameProgression::Coefficients { intended_downsampling, .. } => intended_downsampling,
            FrameProgression::LowFrequency { level, .. } => match level {
                1 => 8,
                2 => 64,
                3 => 512,
                4 => 4096,
                _ => 0,
            },
        }
    }

    /// Completed coefficient passes; complete LF frames have no partial coefficient boundary.
    pub fn completed_passes(self) -> (passes: Option<u8>)
        ensures
            match self {
                FrameProgression::Coefficients { completed_passes, .. } => passes == Some(
                    completed_passes,
                ),
                FrameProgression::LowFrequency { .. } => passes is None,
            },
    {
        match self {
            FrameProgression::Coefficients { completed_passes, .. } => Some(completed_passes),
            FrameProgression::LowFrequency { .. } => None,
        }
    }

    /// Coefficient passes of the frame.
    pub fn total_passes(self) -> (passes: Option<u8>)
        ensures
            match self {
                FrameProgression::Coefficients { total_passes, .. } => passes == Some(
                    total_passes,
                ),
                FrameProgression::LowFrequency { .. } => passes is None,
            },
    {
        match self {
            FrameProgression::Coefficients { total_passes, .. } => Some(total_passes),
            FrameProgression::LowFrequency { .. } => None,
        }
    }

    /// Whether the boundary is a real one.
    pub fn valid(self) -> (r: bool)
        ensures
            r == self.is_valid(),
    {
        match self {
            FrameProgression::Coefficients {
                completed_passes,
                total_passes,
                intended_downsampling,
                ..
            } => total_passes != 0 && completed_passes < total_passes && is_power_of_two(
                intended_downsampling as u64,
            ),
            FrameProgression::LowFrequency { level, .. } => 1 <= level && level <= 4,
        }
    }

    /// Whether the boundary may come after `previous`.
    pub fn follows(self, previous: Self) -> (r: bool)
        ensures
            r == self.comes_after(previous),
    {
        if self.physical_frame_index() < previous.physical_frame_index()
            || self.intended_downsampling() > previous.intended_downsampling() {
            return false;
        }
        if self.physical_frame_index() != previous.physical_frame_index() {
            return true;
        }
        match (previous, self) {
            (
                FrameProgression::Coefficients {
                    completed_passes: before,
                    total_passes: before_total,
                    ..
                },
                FrameProgression::Coefficients {
                    completed_passes: after,
                    total_passes: after_total,
                    ..
                },
            ) => after > before && after_total == before_total,
            _ => false,
        }
    }
}

/// No boundary comes after itself, and of two different boundaries at most one comes after the
/// other.
pub proof fn law_boundaries_ordered(a: FrameProgression, b: FrameProgression)
    ensures
        !a.comes_after(a),
        !(a.comes_after(b) && b.comes_after(a)),
{
}

/// A boundary that comes after a second one comes after everything that the second one comes
/// after.
pub proof fn law_boundaries_transitive(
    a: FrameProgression,
    b: FrameProgression,
    c: FrameProgression,
)
    requires
        a.comes_after(b),
        b.comes_after(c),
    ensures
        a.comes_after(c),
{
}

/// A complete LF level is a real boundary, coarser levels come first, and one frame has a
/// single level.
pub proof fn law_lf_levels(frame: u32, later: u32, level: u8, finer: u8)
    ensures
        ({
            let boundary = FrameProgression::LowFrequency { physical_frame_index: frame, level };
            let next = FrameProgression::LowFrequency {
                physical_frame_index: later,
                level: finer,
            };
            &&& boundary.is_valid() <==> 1 <= level <= 4
            &&& boundary.is_valid() <==> boundary.divisor() != 0
            &&& boundary.is_valid() && next.is_valid() ==> (next.comes_after(boundary) <==> later
                > frame && finer <= level)
        }),
{
}

/// The first LF level divides detail by eight, and each further one by eight times as much, up to
/// the fourth; no other level divides it. Coefficients divide it as they declare.
pub proof fn law_detail(
    frame: u32,
    level: u8,
    divisor: u32,
    next: u32,
    completed_passes: u8,
    total_passes: u8,
    intended_downsampling: u32,
    declared: u32,
)
    requires
        level < 255,
        call_ensures(
            FrameProgression::intended_downsampling,
            (FrameProgression::LowFrequency { physical_frame_index: frame, level },),
            divisor,
        ),
        call_ensures(
            FrameProgression::intended_downsampling,
            (FrameProgression::LowFrequency {
                physical_frame_index: frame,
                level: (level + 1) as u8,
            },),
            next,
        ),
        call_ensures(
            FrameProgression::intended_downsampling,
            (FrameProgression::Coefficients {
                physical_frame_index: frame,
                completed_passes,
                total_passes,
                intended_downsampling,
            },),
            declared,
        ),
    ensures
        level == 0 ==> divisor == 0 && next == 8,
        1 <= level < 4 ==> next == 8 * divisor,
        level == 4 ==> divisor == 4096,
        level >= 4 ==> next == 0,
        declared == intended_downsampling,
{
}

/// A boundary is a real one where passes are missing and its divisor is a power of two, or where its
/// LF level is one of four. It follows another one in a later frame at no coarser detail, or in the
/// same frame with more of the same passes; nothing else follows.
pub proof fn law_boundaries(a: FrameProgression, b: FrameProgression, valid: bool, follows: bool)
    requires
        call_ensures(FrameProgression::valid, (a,), valid),
        call_ensures(FrameProgression::follows, (a, b), follows),
    ensures
        a matches FrameProgression::LowFrequency { level, .. } ==> (valid <==> level == 1 || level
            == 2 || level == 3 || level == 4),
        a matches FrameProgression::Coefficients {
            completed_passes,
            total_passes,
            intended_downsampling,
            ..
        } ==> (valid <==> completed_passes < total_passes && is_pow2(intended_downsampling as int)),
        follows ==> a.divisor() <= b.divisor() && b.frame() <= a.frame(),
        a.frame() > b.frame() && a.divisor() <= b.divisor() ==> follows,
        a.frame() == b.frame() ==> (follows <==> (a matches FrameProgression::Coefficients {
            completed_passes: more,
            total_passes: all,
            intended_downsampling: finer,
            ..
        } && b matches FrameProgression::Coefficients {
            completed_passes: fewer,
            total_passes: total,
            intended_downsampling: coarser,
            ..
        } && more > fewer && all == total && finer <= coarser)),
{
}

} // verus!
