//! Bounded windows of a Modular side image.

use vstd::prelude::*;

verus! {

/// Device memory of a side image.
#[derive(Clone, Copy, Debug, PartialEq, Eq, Structural)]
pub struct SideImageMemory {
    /// All of it.
    pub memory_bytes: u64,
    /// The reusable stream window, which is part of it.
    pub stream_bytes: u64,
}

/// The largest window, in whole words, that fits beside the rest of a side image.
pub open spec fn affordable(memory: SideImageMemory, available: u64) -> int {
    let fixed = memory.memory_bytes - memory.stream_bytes;
    if available < fixed {
        0
    } else {
        (available - fixed) / 4 * 4
    }
}

/// The least window that a side image makes progress with.
pub open spec fn least_window(memory: SideImageMemory, minimum: u64) -> u64 {
    if memory.stream_bytes < minimum {
        memory.stream_bytes
    } else {
        minimum
    }
}

/// The window that a side image must shrink to, where it does not fit but a smaller one does.
pub open spec fn shrunk(memory: SideImageMemory, available: u64, minimum: u64) -> Option<u64> {
    if memory.memory_bytes <= available {
        None
    } else if affordable(memory, available) >= least_window(memory, minimum) {
        Some(affordable(memory, available) as u64)
    } else {
        None
    }
}

/// The window that a side image must shrink to, where it does not fit but a smaller one does.
/// Otherwise its plan stands, and the reservation of its bytes decides.
pub fn shrink_window(memory: SideImageMemory, available: u64, minimum: u64) -> (limit: Option<u64>)
    requires
        memory.stream_bytes <= memory.memory_bytes,
    ensures
        limit == shrunk(memory, available, minimum),
{
    if memory.memory_bytes <= available {
        return None;
    }
    let fixed: u64 = memory.memory_bytes - memory.stream_bytes;
    let left: u64 = if available < fixed {
        0
    } else {
        available - fixed
    };
    let limit: u64 = left / 4 * 4;
    let least: u64 = if memory.stream_bytes < minimum {
        memory.stream_bytes
    } else {
        minimum
    };
    if limit >= least {
        Some(limit)
    } else {
        None
    }
}

/// A shrunk window is made of whole words, is shorter than the one that did not fit, and fits
/// where it is not empty.
pub proof fn law_shrunk_window_fits(memory: SideImageMemory, available: u64, minimum: u64)
    requires
        memory.stream_bytes <= memory.memory_bytes,
        shrunk(memory, available, minimum) is Some,
    ensures
        ({
            let limit = shrunk(memory, available, minimum)->0;
            &&& limit % 4 == 0
            &&& limit > 0 ==> memory.memory_bytes - memory.stream_bytes + limit <= available
            &&& limit < memory.stream_bytes || memory.stream_bytes == 0
        }),
{
}

/// What the decoder of a side image reported after a window.
#[derive(Clone, Copy, Debug, PartialEq, Eq, Structural)]
pub struct SideImageStatus {
    pub code: u32,
    /// It ended without a failure.
    pub is_ok: bool,
    /// It waits for its next window.
    pub is_in_progress: bool,
    pub decoded_samples: u32,
    pub cursor: u32,
    pub expected_cursor: u32,
}

/// Where the tokens of a side image are.
#[derive(Clone, Copy, Debug, PartialEq, Eq, Structural)]
pub struct SideImage {
    pub decoded_words: u32,
    pub token_bit_offset: u32,
    /// End of the packet that holds them.
    pub packet_end: u32,
}

/// A report that the image's plan explains, after a window that ends at `available_end`.
/// `completed` says that the code is one of success.
pub open spec fn explained(
    image: SideImage,
    available_end: int,
    completed: bool,
    status: SideImageStatus,
) -> bool {
    &&& completed || status.is_in_progress
    &&& status.decoded_samples <= image.decoded_words
    &&& status.is_ok ==> status.decoded_samples == image.decoded_words
    &&& image.token_bit_offset <= status.cursor <= available_end
    &&& status.expected_cursor == image.packet_end
}

/// Whether the image's plan explains a report.
pub fn is_explained(image: SideImage, available_end: u32, completed: bool, status: SideImageStatus) -> (r:
    bool)
    ensures
        r == explained(image, available_end as int, completed, status),
{
    (completed || status.is_in_progress) && status.decoded_samples <= image.decoded_words && (
    !status.is_ok || status.decoded_samples == image.decoded_words) && image.token_bit_offset
        <= status.cursor && status.cursor <= available_end && status.expected_cursor
        == image.packet_end
}

} // verus!
