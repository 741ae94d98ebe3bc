//! Sizes, grids and status records of the reconstruction's GPU submissions.

use crate::arith::{
    ceil_div, div_ceil_u32, greatest, least, lemma_ceil_div, max_u64, min_u32, round_up_4,
};
use crate::pod::{native_words, read_words, word_bytes};
use crate::vardct_engine::jpeg_output::{
    check, limit_outcome, storage_bytes, storage_outcome, JpegReconstructionError,
};
use vstd::prelude::*;

verus! {

/// What the device allows of one buffer and one dispatch.
#[derive(Clone, Copy, Debug, PartialEq, Eq, Structural)]
pub struct JpegDeviceLimits {
    pub max_buffer_size: u64,
    pub max_storage_buffer_binding_size: u64,
    pub max_compute_workgroups_per_dimension: u32,
}

/// A number that addresses a GPU word.
pub open spec fn word_outcome(value: int) -> Result<u32, JpegReconstructionError> {
    if value > u32::MAX {
        Err(JpegReconstructionError::Invalid("GPU address overflow"))
    } else {
        Ok(value as u32)
    }
}

/// A number as a GPU word.
pub fn word(value: u64) -> (r: Result<u32, JpegReconstructionError>)
    ensures
        r == word_outcome(value as int),
{
    if value > u32::MAX as u64 {
        Err(JpegReconstructionError::Invalid("GPU address overflow"))
    } else {
        Ok(value as u32)
    }
}

/// Columns and rows of workgroups, or why they cannot be dispatched. Even inactive lanes of the
/// last row need invocation numbers that do not wrap.
pub open spec fn grid_outcome(groups: u32, width: u32, most: u32) -> Result<
    (int, int),
    JpegReconstructionError,
> {
    let columns = least(groups as int, width as int);
    let rows = ceil_div(groups as int, width as int);
    match limit_outcome("dispatch rows", rows as u64, most as u64) {
        Err(error) => Err(error),
        Ok(_) => match limit_outcome(
            "dispatch invocations",
            (columns * rows * 64) as u64,
            u32::MAX as u64,
        ) {
            Err(error) => Err(error),
            Ok(_) => Ok((columns, rows)),
        },
    }
}

/// A rectangle of workgroups wastes less than one row.
pub(crate) proof fn lemma_grid_area(groups: int, width: int)
    requires
        0 <= groups <= u32::MAX,
        0 < width <= u32::MAX,
    ensures
        groups <= least(groups, width) * ceil_div(groups, width) < groups + width,
        0 <= ceil_div(groups, width) <= groups,
{
    lemma_ceil_div(groups, width);
    let rows = ceil_div(groups, width);
    if groups < width {
        assert(rows <= 1) by (nonlinear_arith)
            requires
                rows * width < groups + width,
                groups < width,
                0 < width,
                0 <= rows,
        ;
        if groups > 0 {
            assert(rows == 1);
        } else {
            assert(rows == 0);
        }
        assert(groups * rows == groups) by (nonlinear_arith)
            requires
                rows == 1 || groups == 0,
        ;
    } else {
        assert(width * rows == rows * width) by (nonlinear_arith);
    }
}

/// The rectangle of workgroups that covers `groups` of them.
pub fn dispatch_grid(groups: u32, width: u32, most: u32) -> (r: Result<
    [u32; 2],
    JpegReconstructionError,
>)
    requires
        width > 0,
    ensures
        match grid_outcome(groups, width, most) {
            Err(error) => r == Err::<[u32; 2], JpegReconstructionError>(error),
            Ok((columns, rows)) => r matches Ok(grid) && grid[0] == columns && grid[1] == rows,
        },
{
    proof {
        lemma_grid_area(groups as int, width as int);
    }
    let columns: u32 = min_u32(groups, width);
    let rows: u32 = div_ceil_u32(groups, width);
    match check("dispatch rows", rows as u64, most as u64) {
        Ok(_) => {},
        Err(error) => {
            return Err(error);
        },
    }
    match check("dispatch invocations", columns as u64 * rows as u64 * 64, u32::MAX as u64) {
        Ok(_) => {},
        Err(error) => {
            return Err(error);
        },
    }
    Ok([columns, rows])
}

/// All workgroups that were asked for run, and invocation numbers stay in one word.
pub proof fn law_grid_covers(groups: u32, width: u32, most: u32)
    requires
        width > 0,
        grid_outcome(groups, width, most) is Ok,
    ensures
        ({
            let (columns, rows) = grid_outcome(groups, width, most)->Ok_0;
            &&& groups <= columns * rows
            &&& columns * rows * 64 <= u32::MAX
            &&& columns <= width
            &&& rows <= most
        }),
{
    lemma_grid_area(groups as int, width as int);
}

/// Bytes of a buffer: whole words, and at least one.
pub open spec fn buffer_bytes(size: int) -> int {
    greatest(round_up_4(size), 4)
}

/// The size of a buffer taken out of `remaining` reserved bytes, or why it cannot be.
pub open spec fn buffer_outcome(
    remaining: u64,
    size: u64,
    storage: bool,
    limits: JpegDeviceLimits,
) -> Result<u64, JpegReconstructionError> {
    match storage_outcome(size as int) {
        Err(error) => Err(error),
        Ok(_) => {
            let bytes = buffer_bytes(size as int) as u64;
            if bytes > limits.max_buffer_size {
                Err(
                    JpegReconstructionError::Limit {
                        resource: "GPU buffer bytes",
                        required: bytes,
                        limit: limits.max_buffer_size,
                    },
                )
            } else if storage && bytes > limits.max_storage_buffer_binding_size {
                Err(
                    JpegReconstructionError::Limit {
                        resource: "GPU storage binding bytes",
                        required: bytes,
                        limit: limits.max_storage_buffer_binding_size,
                    },
                )
            } else if bytes > remaining {
                Err(JpegReconstructionError::Invalid("allocation plan"))
            } else {
                Ok(bytes)
            }
        },
    }
}

/// Bytes reserved for one submission, from which its buffers are taken.
#[derive(Debug)]
pub struct Allocator {
    remaining: u64,
    limits: JpegDeviceLimits,
}

impl Allocator {
    /// Bytes not yet taken.
    pub closed spec fn left(&self) -> u64 {
        self.remaining
    }

    /// What the device allows.
    pub closed spec fn device(&self) -> JpegDeviceLimits {
        self.limits
    }

    /// A reservation of `bytes` bytes.
    pub fn new(bytes: u64, limits: JpegDeviceLimits) -> (allocator: Self)
        ensures
            allocator.left() == bytes,
            allocator.device() == limits,
    {
        Allocator { remaining: bytes, limits }
    }

    /// Takes one buffer out of the reservation and gives its size.
    pub fn buffer(&mut self, size: u64, storage: bool) -> (r: Result<u64, JpegReconstructionError>)
        ensures
            final(self).device() == old(self).device(),
            match buffer_outcome(old(self).left(), size, storage, old(self).device()) {
                Err(error) => r == Err::<u64, JpegReconstructionError>(error) && final(self).left()
                    == old(self).left(),
                Ok(bytes) => r == Ok::<u64, JpegReconstructionError>(bytes) && final(self).left()
                    == old(self).left() - bytes,
            },
    {
        let size: u64 = match storage_bytes(size) {
            Ok(size) => max_u64(size, 4),
            Err(error) => {
                return Err(error);
            },
        };
        match check("GPU buffer bytes", size, self.limits.max_buffer_size) {
            Ok(_) => {},
            Err(error) => {
                return Err(error);
            },
        }
        if storage {
            match check(
                "GPU storage binding bytes",
                size,
                self.limits.max_storage_buffer_binding_size,
            ) {
                Ok(_) => {},
                Err(error) => {
                    return Err(error);
                },
            }
        }
        if size > self.remaining {
            return Err(JpegReconstructionError::Invalid("allocation plan"));
        }
        self.remaining = self.remaining - size;
        Ok(size)
    }

    /// Takes a uniform buffer for `words` and gives its size with the bytes to upload.
    pub fn uniform<'a>(&mut self, words: &'a [u32]) -> (r: Result<
        (u64, &'a [u8]),
        JpegReconstructionError,
    >)
        requires
            words@.len() * 4 <= u64::MAX,
        ensures
            final(self).device() == old(self).device(),
            match buffer_outcome(
                old(self).left(),
                (words@.len() * 4) as u64,
                false,
                old(self).device(),
            ) {
                Err(error) => {
                    &&& r == Err::<(u64, &'a [u8]), JpegReconstructionError>(error)
                    &&& final(self).left() == old(self).left()
                },
                Ok(bytes) => {
                    &&& r matches Ok((size, upload)) && size == bytes && native_words(
                        words@,
                        upload@,
                    )
                    &&& final(self).left() == old(self).left() - bytes
                },
            },
    {
        match self.buffer(words.len() as u64 * 4, false) {
            Ok(size) => Ok((size, word_bytes(words))),
            Err(error) => Err(error),
        }
    }

    /// Takes the buffer that a status record is mapped from.
    pub fn staging(&mut self) -> (r: Result<u64, JpegReconstructionError>)
        ensures
            final(self).device() == old(self).device(),
            match buffer_outcome(old(self).left(), 16, false, old(self).device()) {
                Err(error) => r == Err::<u64, JpegReconstructionError>(error) && final(self).left()
                    == old(self).left(),
                Ok(bytes) => r == Ok::<u64, JpegReconstructionError>(bytes) && final(self).left()
                    == old(self).left() - bytes,
            },
    {
        self.buffer(16, false)
    }
}

/// Bytes in front of part `i`.
pub open spec fn part_start(parts: Seq<usize>, i: int) -> int
    decreases i,
{
    if i <= 0 {
        0
    } else {
        part_start(parts, i - 1) + parts[i - 1]
    }
}

/// Where each part of an upload starts, one behind the other, in a mapping of `mapped` bytes.
pub fn upload_offsets(mapped: usize, parts: &[usize]) -> (r: Result<
    Vec<usize>,
    JpegReconstructionError,
>)
    ensures
        match r {
            Ok(starts) => {
                &&& part_start(parts@, parts@.len() as int) <= mapped
                &&& starts@.len() == parts@.len()
                &&& forall|i: int|
                    0 <= i < parts@.len() ==> #[trigger] starts@[i] == part_start(parts@, i)
            },
            Err(error) => {
                &&& error == JpegReconstructionError::Invalid("upload plan")
                &&& part_start(parts@, parts@.len() as int) > mapped
            },
        },
{
    let mut starts: Vec<usize> = Vec::new();
    let mut offset: usize = 0;
    let mut i: usize = 0;
    while i < parts.len()
        invariant
            i <= parts@.len(),
            starts@.len() == i,
            offset == part_start(parts@, i as int),
            offset <= mapped,
            forall|k: int| 0 <= k < i ==> #[trigger] starts@[k] == part_start(parts@, k),
        decreases parts@.len() - i,
    {
        let length: usize = parts[i];
        if length > mapped - offset {
            proof {
                lemma_part_start(parts@, i + 1, parts@.len() as int);
            }
            return Err(JpegReconstructionError::Invalid("upload plan"));
        }
        starts.push(offset);
        offset = offset + length;
        i = i + 1;
    }
    Ok(starts)
}

proof fn lemma_part_start(parts: Seq<usize>, i: int, n: int)
    requires
        0 <= i <= n <= parts.len(),
    ensures
        part_start(parts, i) <= part_start(parts, n),
    decreases n - i,
{
    if i < n {
        lemma_part_start(parts, i, n - 1);
    }
}

/// Accepts a status record whose first word reports no failure.
pub fn accept_status(status: [u32; 4], stage: &'static str) -> (r: Result<
    [u32; 4],
    JpegReconstructionError,
>)
    ensures
        status[0] == 0 ==> r == Ok::<[u32; 4], JpegReconstructionError>(status),
        status[0] != 0 ==> r == Err::<[u32; 4], JpegReconstructionError>(
            JpegReconstructionError::GpuStatus { stage, status },
        ),
{
    if status[0] != 0 {
        return Err(JpegReconstructionError::GpuStatus { stage, status });
    }
    Ok(status)
}

/// Reads a mapped status record and accepts one that reports no failure.
pub fn read_status(bytes: &[u8], stage: &'static str) -> (r: Result<
    [u32; 4],
    JpegReconstructionError,
>)
    ensures
        bytes@.len() != 16 ==> r == Err::<[u32; 4], JpegReconstructionError>(
            JpegReconstructionError::Invalid("status ABI"),
        ),
        bytes@.len() == 16 ==> match r {
            Ok(status) => native_words(status@, bytes@) && status[0] == 0,
            Err(error) => error matches JpegReconstructionError::GpuStatus { stage: at, status }
                && at == stage && native_words(status@, bytes@) && status[0] != 0,
        },
{
    match read_words::<4>(bytes) {
        Ok(status) => accept_status(status, stage),
        Err(_) => Err(JpegReconstructionError::Invalid("status ABI")),
    }
}

/// A buffer that is taken out of a reservation has whole words, at least one, and as few as hold its
/// bytes. It is taken exactly where the device permits it and the reservation holds it.
pub proof fn law_buffer_taken(
    remaining: u64,
    size: u64,
    storage: bool,
    limits: JpegDeviceLimits,
    bytes: u64,
)
    requires
        buffer_outcome(remaining, size, storage, limits) == Ok::<u64, JpegReconstructionError>(
            bytes,
        ),
    ensures
        bytes % 4 == 0,
        size > 0 ==> size <= bytes < size + 4,
        size == 0 ==> bytes == 4,
        bytes <= remaining,
        bytes <= limits.max_buffer_size,
        storage ==> bytes <= limits.max_storage_buffer_binding_size,
{
}

/// A buffer that fits the device and the reservation is not refused.
pub proof fn law_buffer_owed(remaining: u64, size: u64, storage: bool, limits: JpegDeviceLimits)
    requires
        size + 4 <= remaining,
        size + 4 <= limits.max_buffer_size,
        storage ==> size + 4 <= limits.max_storage_buffer_binding_size,
    ensures
        buffer_outcome(remaining, size, storage, limits) is Ok,
{
}

} // verus!
