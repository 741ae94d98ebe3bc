//! What the dispatches and buffers of a JPEG's scans and assembly guarantee.

use crate::arith::{ceil_div, lemma_ceil_div};
use crate::vardct_engine::jpeg::JpegCoefficientLayout;
use crate::vardct_engine::jpeg_output::framing::template_wf;
use crate::vardct_engine::jpeg_output::gpu::{dispatch_grid, upload_offsets, word};
use crate::vardct_engine::jpeg_output::gpu_assemble::{
    copy_count, copy_from, copy_to, gap_end, gap_start, is_copy, is_patch, law_copies_tile,
    law_patch_lands, patch_refusal, patch_to, patched_bytes, scan_bytes, start as assemble, template_of, AssemblyPlan,
    AssemblyStep, CopySource,
};
use crate::vardct_engine::jpeg_output::gpu_scan::{
    count_steps, lemma_groups, lemma_scratch_size, prefix_steps, scratch_size,
    scratch_words, start as begin, step_views, total_bytes, ScanContext, ScanPhase, ScanState,
    ScanSubmission, Step,
};
use crate::vardct_engine::jpeg_output::scan::planes_of;
use crate::vardct_engine::jpeg_output::scan_plan::PlannedScan;
use crate::vardct_engine::jpeg_output::template::{Plan, Template};
use crate::vardct_engine::jpeg_output::{
    storage_bytes, JpegReconstructionError, JpegReconstructionLimits,
};
use vstd::prelude::*;

verus! {

/// `groups` workgroups of sixty-four lanes cover `count` items, and one less does not.
pub open spec fn lanes_cover(groups: int, count: int) -> bool {
    64 * (groups - 1) < count <= 64 * groups
}

/// A division that was rounded up covers.
proof fn lemma_lanes(count: int)
    requires
        0 <= count,
    ensures
        lanes_cover(ceil_div(count, 64), count),
{
    lemma_ceil_div(count, 64);
}

/// A grid of workgroups is no wider than asked for, has a row more than a smaller one could, runs
/// at least the groups that it must and less than a row more, and numbers every lane in one word.
/// It is refused exactly where it has more rows than the device permits, or lanes than a word
/// numbers.
pub proof fn law_grid_rows(groups: u32, width: u32, most: u32, r: Result<
    [u32; 2],
    JpegReconstructionError,
>)
    requires
        width > 0,
        call_ensures(dispatch_grid, (groups, width, most), r),
    ensures
        r matches Ok(grid) ==> {
            let (columns, rows) = (grid@[0] as int, grid@[1] as int);
            &&& columns <= width && (groups >= width ==> columns == width)
            &&& groups <= columns * rows < groups + width
            &&& rows <= most
            &&& columns * rows * 64 <= u32::MAX
        },
        r is Err ==> groups > most * width || 64 * (groups + width) > u32::MAX,
{
    crate::vardct_engine::jpeg_output::gpu::lemma_grid_area(groups as int, width as int);
    lemma_ceil_div(groups as int, width as int);
    let rows = ceil_div(groups as int, width as int);
    let (w, m) = (width as int, most as int);
    if rows > most {
        assert(groups > m * w) by (nonlinear_arith)
            requires
                rows * w < groups + w,
                rows >= m + 1,
                w > 0,
        ;
    }
}

/// Storage is a whole number of words that hold the bytes, and one word less would not.
pub proof fn law_storage_words(bytes: u64, r: Result<u64, JpegReconstructionError>)
    requires
        call_ensures(storage_bytes, (bytes,), r),
    ensures
        r is Ok <==> bytes + 3 <= u64::MAX,
        r matches Ok(size) ==> size % 4 == 0 && bytes <= size < bytes + 4,
{
}

/// A number is a GPU word exactly where it fits.
pub proof fn law_words(value: u64, r: Result<u32, JpegReconstructionError>)
    requires
        call_ensures(word, (value,), r),
    ensures
        r is Ok <==> value <= 0xffff_ffff,
        r matches Ok(w) ==> w == value,
{
}

/// The parts of an upload follow one another from its start on.
pub proof fn law_upload_parts(mapped: usize, parts: &[usize], starts: Vec<usize>, i: int)
    requires
        call_ensures(
            upload_offsets,
            (mapped, parts),
            Ok::<Vec<usize>, JpegReconstructionError>(starts),
        ),
        0 <= i < parts@.len(),
    ensures
        starts@.len() == parts@.len(),
        i == 0 ==> starts@[i] == 0,
        i + 1 < parts@.len() ==> starts@[i + 1] == starts@[i] + parts@[i],
        i + 1 == parts@.len() ==> starts@[i] + parts@[i] <= mapped,
{
    reveal_with_fuel(crate::vardct_engine::jpeg_output::gpu::part_start, 2);
    assert(starts@[i] == crate::vardct_engine::jpeg_output::gpu::part_start(parts@, i));
    if i + 1 < parts@.len() {
        assert(starts@[i + 1] == crate::vardct_engine::jpeg_output::gpu::part_start(parts@, i + 1));
    }
}

/// A prefix scan of at most sixty-four values is one dispatch. Any other one scans groups of
/// sixty-four, keeps a result of each group, scans those results into the words behind them, with
/// further words behind both, and carries them back. It keeps two words for each group of every
/// level.
pub proof fn law_prefix_levels(
    count: int,
    source: int,
    destination: int,
    scratch: int,
    max: bool,
    groups: int,
)
    requires
        0 <= count,
        lanes_cover(groups, count),
    ensures
        ({
            let steps = prefix_steps(count, source, destination, scratch, max);
            let first = steps[0];
            let last = steps[steps.len() - 1];
            &&& first.phase == if max { 12int } else { 7 }
            &&& first.words == (source, destination, count, scratch)
            &&& first.groups == groups
            &&& count <= 64 ==> steps.len() == 1 && scratch_size(count) == 2 * groups
            &&& count > 64 ==> {
                let inner = prefix_steps(
                    groups,
                    scratch,
                    scratch + groups,
                    scratch + groups + groups,
                    max,
                );
                &&& last.phase == if max { 13int } else { 8 }
                &&& last.words == (scratch + groups, destination, count, 0int)
                &&& last.groups == groups
                &&& steps.len() == inner.len() + 2
                &&& steps.subrange(1, steps.len() - 1) == inner
                &&& scratch_size(count) == groups + groups + scratch_size(groups)
            }
        }),
{
    lemma_lanes(count);
    lemma_groups(count);
    let steps = prefix_steps(count, source, destination, scratch, max);
    if count > 64 {
        let inner = prefix_steps(groups, scratch, scratch + groups, scratch + groups * 2, max);
        assert(steps.subrange(1, steps.len() - 1) =~= inner);
    }
}

/// A scan is counted by preparing and classifying its blocks, finding the last relevant one in
/// front of each by a maximum scan, counting bits and their places by two sums, and totals: the
/// work words are a status of four, then five lists and four more of one word for each block.
#[verifier::rlimit(40)]
pub proof fn law_counting_order(blocks: u32, scratch: u32, steps: Vec<Step>, groups: int)
    requires
        4 + blocks * 9 <= u32::MAX,
        scratch + scratch_size(blocks as int) <= u32::MAX,
        lanes_cover(groups, blocks as int),
        call_ensures(count_steps, (blocks, scratch), steps),
    ensures
        ({
            let n = blocks as int;
            let list = |k: int| 4 + k * n;
            let latest = prefix_steps(n, list(6), list(7), scratch as int, true);
            let bits = prefix_steps(n, list(0), list(3), scratch as int, false);
            let places = prefix_steps(n, list(4), list(1), scratch as int, false);
            let a = 2 + latest.len() as int;
            let b = a + 2 + bits.len();
            let c = b + 1 + places.len();
            &&& steps@.len() == c + 1
            &&& steps@[0].phase == 9 && steps@[1].phase == 10
            &&& forall|i: int| 0 <= i < latest.len() ==> steps@[2 + i]@ == #[trigger] latest[i]
            &&& steps@[a].phase == 11 && steps@[a + 1].phase == 0
            &&& forall|i: int| 0 <= i < bits.len() ==> steps@[a + 2 + i]@ == #[trigger] bits[i]
            &&& steps@[b].phase == 1
            &&& forall|i: int| 0 <= i < places.len() ==> steps@[b + 1 + i]@ == #[trigger] places[i]
            &&& steps@[c].phase == 2
            &&& forall|i: int|
                i == 0 || i == 1 || i == a || i == a + 1 || i == b || i == c ==> (
                #[trigger] steps@[i]).groups == groups
        }),
{
    let n = blocks as int;
    lemma_lanes(n);
    let views = step_views(steps@);
    let latest = prefix_steps(n, 4 + n * 5 + n, 4 + n * 5 + n * 2, scratch as int, true);
    let bits = prefix_steps(n, 4, 4 + n * 3, scratch as int, false);
    let places = prefix_steps(n, 4 + n * 4, 4 + n, scratch as int, false);
    let a = 2 + latest.len() as int;
    let b = a + 2 + bits.len();
    let c = b + 1 + places.len();
    assert(6 * n == n * 5 + n && 7 * n == n * 5 + n * 2 && 3 * n == n * 3 && 4 * n == n * 4);
    assert(views.len() == c + 1);
    assert(views[0].phase == 9 && views[1].phase == 10);
    assert forall|i: int| 0 <= i < latest.len() implies steps@[2 + i]@ == #[trigger] latest[i] by {
        assert(views[2 + i] == latest[i]);
    }
    assert(views[a].phase == 11 && views[a + 1].phase == 0);
    assert forall|i: int| 0 <= i < bits.len() implies steps@[a + 2 + i]@ == #[trigger] bits[i] by {
        assert(views[a + 2 + i] == bits[i]);
    }
    assert(views[b].phase == 1);
    assert forall|i: int| 0 <= i < places.len() implies steps@[b + 1 + i]@ == #[trigger] places[
        i] by {
        assert(views[b + 1 + i] == places[i]);
    }
    assert(views[c].phase == 2);
    assert(views[0] == steps@[0]@ && views[1] == steps@[1]@ && views[a] == steps@[a]@ && views[a + 1]
        == steps@[a + 1]@ && views[b] == steps@[b]@ && views[c] == steps@[c]@);
}

/// What the first submission of a scan hands to the GPU: its blocks, the resident words, the words
/// that the raw and the escaped scan may have, the padding bits, whether there are any and whether
/// no scan follows, where the second lists start, the scan's parameters and the row of a dispatch.
/// Its buffers hold tables and padding in whole words, forty-eight bytes for each task, the work
/// and its scratch, and one word for each of the two scans to come. It reserves them with forty-eight
/// bytes of parameters, a status of sixteen and sixteen for every dispatch.
pub proof fn law_scan_start(
    scan: &PlannedScan,
    context: ScanContext,
    limits: JpegReconstructionLimits,
    submission: ScanSubmission,
    scratch: u32,
)
    requires
        scan.tables@.len() * 4 <= u64::MAX,
        call_ensures(
            begin,
            (scan, context, limits),
            Ok::<ScanSubmission, JpegReconstructionError>(submission),
        ),
        scan.tasks@.len() <= u32::MAX,
        call_ensures(
            scratch_words,
            (scan.tasks@.len() as u32,),
            Ok::<u32, JpegReconstructionError>(scratch),
        ),
    ensures
        ({
            let params = submission.state.params@;
            let blocks = scan.tasks@.len();
            &&& params[0] == blocks
            &&& params[1] == context.coefficient_words
            &&& limits.max_raw_scan_bytes <= 0x1fff_fffc ==> 4 * (params[2] - 1)
                < limits.max_raw_scan_bytes <= 4 * params[2]
            &&& limits.max_raw_scan_bytes > 0x1fff_fffc ==> params[2] == 0x7ff_ffff
            &&& limits.max_output_bytes <= 0xffff_fffc ==> 4 * (params[3] - 1)
                < limits.max_output_bytes <= 4 * params[3]
            &&& limits.max_output_bytes > 0xffff_fffc ==> params[3] == 0x3fff_ffff
            &&& params[4] == context.padding_bits
            &&& params[5] % 2 == 1 <==> context.has_padding
            &&& params[5] / 2 == if context.last { 1int } else { 0 }
            &&& params[6] == 4 + 5 * blocks
            &&& params[7] == scan.parameters
            &&& params[8] == context.width
        }),
        submission.state.phase == ScanPhase::Count,
        submission.state.byte_len == 0,
        submission.buffers@.len() == 5,
        submission.buffers@[0] % 4 == 0,
        4 * scan.tables@.len() + context.padding_bytes <= submission.buffers@[0] < 4
            * scan.tables@.len() + context.padding_bytes + 4,
        submission.buffers@[1] == 48 * scan.tasks@.len(),
        submission.buffers@[2] == 4 * (4 + 9 * scan.tasks@.len() + scratch),
        submission.buffers@[3] == 4 && submission.buffers@[4] == 4,
        submission.reserved == submission.buffers@[0] + submission.buffers@[1]
            + submission.buffers@[2] + submission.buffers@[3] + submission.buffers@[4] + 48 + 16
            + 16 * submission.steps@.len(),
{
    let blocks = scan.tasks@.len() as int;
    lemma_scratch_size(blocks);
    lemma_ceil_div(limits.max_raw_scan_bytes as int, 4);
    lemma_ceil_div(limits.max_output_bytes as int, 4);
    assert(ceil_div(0x7ff_ffffint * 4, 4) == 0x7ff_ffff);
    assert(ceil_div(0x3fff_ffffint * 4, 4) == 0x3fff_ffff);
    reveal_with_fuel(total_bytes, 6);
    let buffers = submission.buffers@;
    assert(buffers[0] == buffers[0] && buffers[1] == buffers[1] && buffers[2] == buffers[2]
        && buffers[3] == buffers[3] && buffers[4] == buffers[4]);
    assert(step_views(submission.steps@).len() == submission.steps@.len());
}

/// A counted scan is emitted where its bits are whole bytes, and an emitted one packed where its
/// escaped bytes are at most twice its raw ones; neither exceeds its limit. A packed scan does not
/// go on.
pub proof fn law_scan_goes_on(
    state: &ScanState,
    status: [u32; 4],
    limits: JpegReconstructionLimits,
    after: ScanSubmission,
)
    requires
        4 + 9 * state.params@[0] <= u32::MAX,
        call_ensures(
            ScanState::advance,
            (state, status, limits),
            Ok::<ScanSubmission, JpegReconstructionError>(after),
        ),
    ensures
        status@[1] > 0,
        status@[1] == 8 * status@[2],
        status@[2] <= limits.max_raw_scan_bytes,
        state.phase == ScanPhase::Count && after.state.phase == ScanPhase::Emit || state.phase
            == ScanPhase::Emit && after.state.phase == ScanPhase::Pack,
        state.phase == ScanPhase::Count ==> {
            let words = after.state.params@[2];
            &&& 4 * (words - 1) < status@[2] <= 4 * words
            &&& after.state.byte_len == state.byte_len
            &&& after.buffers@.len() == 2
            &&& after.buffers@[0] == 4 * (4 + 9 * state.params@[0] + 2 * (4 * words) + scratch_size(
                4 * words,
            ))
            &&& after.buffers@[1] == 4 * words
            &&& forall|i: int|
                0 <= i < 12 && i != 2 ==> #[trigger] after.state.params@[i] == state.params@[i]
        },
        state.phase == ScanPhase::Emit ==> {
            let words = after.state.params@[3];
            &&& status@[2] <= status@[3] <= 2 * status@[2]
            &&& status@[3] <= limits.max_output_bytes
            &&& 4 * (words - 1) < status@[3] <= 4 * words
            &&& after.state.byte_len == status@[3]
            &&& after.buffers@.len() == 1
            &&& after.buffers@[0] == 4 * words
            &&& forall|i: int|
                0 <= i < 12 && i != 3 ==> #[trigger] after.state.params@[i] == state.params@[i]
        },
        after.reserved == after.buffers@[0] + (if after.buffers@.len() == 2 {
            after.buffers@[1] as int
        } else {
            0
        }) + 48 + 16 + 16 * after.steps@.len(),
{
    lemma_ceil_div(status@[2] as int, 4);
    lemma_ceil_div(status@[3] as int, 4);
    reveal_with_fuel(total_bytes, 3);
}

/// The dispatches of an emission and of a packing: blocks, raw bytes, the sum of the escapes over
/// the raw bytes behind the words that are kept, and one that ends the file's bits; then raw bytes
/// once more, and the tail.
pub proof fn law_scan_dispatches(
    state: &ScanState,
    status: [u32; 4],
    limits: JpegReconstructionLimits,
    after: ScanSubmission,
)
    requires
        4 + 9 * state.params@[0] <= u32::MAX,
        call_ensures(
            ScanState::advance,
            (state, status, limits),
            Ok::<ScanSubmission, JpegReconstructionError>(after),
        ),
    ensures
        state.phase == ScanPhase::Count ==> {
            let kept = 4 + 9 * state.params@[0];
            let bytes = 4 * after.state.params@[2];
            let sums = prefix_steps(bytes, kept, kept + bytes, kept + bytes + bytes, false);
            &&& after.steps@.len() == 3 + sums.len()
            &&& after.steps@[0].phase == 3 && lanes_cover(
                after.steps@[0].groups as int,
                state.params@[0] as int,
            )
            &&& after.steps@[1].phase == 4 && lanes_cover(after.steps@[1].groups as int, bytes)
            &&& forall|i: int| 0 <= i < sums.len() ==> after.steps@[2 + i]@ == #[trigger] sums[i]
            &&& after.steps@[2 + sums.len() as int].phase == 5
            &&& after.steps@[2 + sums.len() as int].groups == 1
        },
        state.phase == ScanPhase::Emit ==> {
            &&& after.steps@.len() == 2
            &&& after.steps@[0].phase == 6 && lanes_cover(
                after.steps@[0].groups as int,
                status@[2] as int,
            )
            &&& after.steps@[1].phase == 14 && after.steps@[1].groups == 1
        },
{
    let views = step_views(after.steps@);
    lemma_lanes(state.params@[0] as int);
    lemma_lanes(status@[2] as int);
    lemma_ceil_div(status@[2] as int, 4);
    if state.phase == ScanPhase::Count {
        let kept = 4 + 9 * state.params@[0];
        let bytes = 4 * after.state.params@[2];
        lemma_lanes(bytes);
        let sums = prefix_steps(bytes, kept, kept + bytes, kept + bytes * 2, false);
        assert(views.len() == 3 + sums.len());
        assert(views[0] == after.steps@[0]@ && views[1] == after.steps@[1]@);
        assert forall|i: int| 0 <= i < sums.len() implies after.steps@[2 + i]@ == #[trigger] sums[
            i] by {
            assert(views[2 + i] == sums[i]);
        }
        assert(views[2 + sums.len() as int] == after.steps@[2 + sums.len() as int]@);
    } else {
        assert(views.len() == 2);
        assert(views[0] == after.steps@[0]@ && views[1] == after.steps@[1]@);
    }
}

/// The words of one copy.
proof fn lemma_copy_words(
    template: Template,
    scans: Seq<u32>,
    width: u32,
    step: AssemblyStep,
    k: int,
)
    requires
        template_wf(template),
        scans.len() == template.scans.len(),
        template.bytes.len() + scan_bytes(scans, scans.len() as int) <= u32::MAX,
        0 <= k <= 2 * scans.len(),
        is_copy(step, template, scans, width, k),
    ensures
        step.phase == 0,
        step.params@[0] == copy_count(template, scans, k),
        step.params@[1] == copy_from(template, k),
        step.params@[2] == copy_to(template, scans, k),
        step.params@[3] == width,
        lanes_cover(step.groups as int, copy_count(template, scans, k)),
{
    law_copies_tile(template, scans, k);
    lemma_copy_end(template, scans, k);
    lemma_lanes(copy_count(template, scans, k));
    if k % 2 == 1 {
        assert(copy_count(template, scans, k) == scans[k / 2]);
    }
}

/// The assembly copies the template up to each scan, that scan, and so on to the template's end:
/// the copies follow one another in the file from its start to its end, those of the template
/// follow one another in the template, and each scan is copied whole behind the template byte where
/// it belongs. Workgroups of sixty-four lanes cover every copy.
#[verifier::rlimit(40)]
pub proof fn law_assembly_copies(
    plan: &Plan,
    masks: &[[u32; 64]; 3],
    layout: &JpegCoefficientLayout,
    scans: &Vec<u32>,
    width: u32,
    limit: u64,
    assembly: AssemblyPlan,
    k: int,
)
    requires
        template_wf(template_of(*plan)),
        scans@.len() <= u64::MAX / 128,
        plan.quantizers@.len() <= u64::MAX / 128,
        call_ensures(
            assemble,
            (plan, masks, layout, scans, width, limit),
            Ok::<AssemblyPlan, JpegReconstructionError>(assembly),
        ),
        0 <= k <= 2 * scans@.len(),
    ensures
        scans@.len() == plan.scan_offsets@.len(),
        assembly.byte_len <= limit,
        assembly.steps@.len() == 2 * scans@.len() + 1 + plan.quantizers@.len() + 1,
        ({
            let params = assembly.steps@[k].params@;
            let (count, from, to) = (params[0], params[1], params[2]);
            let next = assembly.steps@[k + 1].params@;
            &&& assembly.steps@[k].phase == 0
            &&& lanes_cover(assembly.steps@[k].groups as int, count as int)
            &&& params[3] == width
            &&& k == 0 ==> from == 0 && to == 0
            &&& k < 2 * scans@.len() ==> next[2] == to + count
            &&& k == 2 * scans@.len() ==> to + count == assembly.byte_len && from + count
                == plan.bytes@.len()
            &&& k % 2 == 0 ==> assembly.steps@[k].source == CopySource::Template
            &&& k % 2 == 0 && k < 2 * scans@.len() ==> from + count == plan.scan_offsets@[k / 2]
            &&& k % 2 == 0 && k > 0 ==> from == plan.scan_offsets@[k / 2 - 1]
            &&& k % 2 == 1 ==> {
                &&& assembly.steps@[k].source == CopySource::Scan((k / 2) as usize)
                &&& from == 0
                &&& count == scans@[k / 2]
            }
        }),
{
    let template = template_of(*plan);
    assert(is_copy(assembly.steps@[k], template, scans@, width, k));
    lemma_copy_words(template, scans@, width, assembly.steps@[k], k);
    law_copies_tile(template, scans@, k);
    if k < 2 * scans@.len() {
        assert(is_copy(assembly.steps@[k + 1], template, scans@, width, k + 1));
        lemma_copy_words(template, scans@, width, assembly.steps@[k + 1], k + 1);
    }
    if k % 2 == 0 {
        assert(k / 2 <= scans@.len());
    }
}

/// No copy reaches beyond the file.
proof fn lemma_copy_end(template: Template, scans: Seq<u32>, k: int)
    requires
        template_wf(template),
        scans.len() == template.scans.len(),
        0 <= k <= 2 * scans.len(),
    ensures
        0 <= copy_from(template, k),
        0 <= copy_to(template, scans, k),
        copy_to(template, scans, k) + copy_count(template, scans, k) <= template.bytes.len()
            + scan_bytes(scans, scans.len() as int),
        copy_from(template, k) <= template.bytes.len(),
        k % 2 == 0 ==> copy_from(template, k) + copy_count(template, scans, k)
            <= template.bytes.len(),
    decreases 2 * scans.len() - k,
{
    law_copies_tile(template, scans, k);
    lemma_scan_bytes(scans, k / 2);
    if k < 2 * scans.len() {
        law_copies_tile(template, scans, k + 1);
        lemma_copy_end(template, scans, k + 1);
    }
    let i = k / 2;
    if i < scans.len() {
        assert(template.scans[i] <= template.bytes.len());
    }
    if i > 0 {
        assert(template.scans[i - 1] <= template.bytes.len());
    }
}

/// Scans have no negative bytes.
proof fn lemma_scan_bytes(scans: Seq<u32>, n: int)
    ensures
        0 <= scan_bytes(scans, n),
    decreases n,
{
    if n > 0 {
        lemma_scan_bytes(scans, n - 1);
    }
}

/// Every patch of an accepted assembly has a word address.
proof fn lemma_patch_address(template: Template, scans: Seq<u32>, n: int, i: int)
    requires
        0 <= i < n,
        patch_refusal(template, scans, n) is None,
    ensures
        patch_to(template, scans, template.quantizers[i][0] as int) <= u32::MAX,
    decreases n,
{
    if i < n - 1 {
        lemma_patch_address(template, scans, n - 1, i);
    }
}

/// A patch and the copy of its placeholder move by the same distance.
proof fn lemma_patch_moves(
    template: Template,
    scans: Seq<u32>,
    width: u32,
    patch: AssemblyStep,
    copy: AssemblyStep,
    i: int,
    gap: int,
)
    requires
        template_wf(template),
        scans.len() == template.scans.len(),
        template.bytes.len() + scan_bytes(scans, scans.len() as int) <= u32::MAX,
        patch_refusal(template, scans, template.quantizers.len() as int) is None,
        0 <= i < template.quantizers.len(),
        0 <= gap <= scans.len(),
        gap_start(template, gap) <= template.quantizers[i][0] < gap_end(template, gap),
        is_patch(patch, template, scans, width, i),
        is_copy(copy, template, scans, width, 2 * gap),
    ensures
        patch.params@[2] - copy.params@[2] == template.quantizers[i][0] - copy.params@[1],
{
    let offset = template.quantizers[i][0] as int;
    law_patch_lands(template, scans, offset, gap);
    lemma_copy_end(template, scans, 2 * gap);
    lemma_patch_address(template, scans, template.quantizers.len() as int, i);
    assert((2 * gap) / 2 == gap && (2 * gap) % 2 == 0);
    assert(copy.params@[2] == copy_to(template, scans, 2 * gap) as u32);
    assert(copy.params@[1] == copy_from(template, 2 * gap) as u32);
    law_copies_tile(template, scans, 2 * gap);
}

/// Each quantization table is patched by one step of sixty-four values where the copy of its
/// placeholder lands, from its own source and channels at its own precision.
pub proof fn law_assembly_patches(
    plan: &Plan,
    masks: &[[u32; 64]; 3],
    layout: &JpegCoefficientLayout,
    scans: &Vec<u32>,
    width: u32,
    limit: u64,
    assembly: AssemblyPlan,
    i: int,
    gap: int,
)
    requires
        template_wf(template_of(*plan)),
        scans@.len() <= u64::MAX / 128,
        plan.quantizers@.len() <= u64::MAX / 128,
        call_ensures(
            assemble,
            (plan, masks, layout, scans, width, limit),
            Ok::<AssemblyPlan, JpegReconstructionError>(assembly),
        ),
        0 <= i < plan.quantizers@.len(),
        0 <= gap <= scans@.len(),
        gap > 0 ==> plan.scan_offsets@[gap - 1] <= plan.quantizers@[i]@[0],
        plan.quantizers@[i]@[0] < if gap < plan.scan_offsets@.len() {
            plan.scan_offsets@[gap] as int
        } else {
            plan.bytes@.len() as int
        },
    ensures
        ({
            let step = assembly.steps@[2 * scans@.len() + 1 + i];
            let record = plan.quantizers@[i]@;
            let copy = assembly.steps@[2 * gap].params@;
            &&& step.phase == 1
            &&& step.groups == 1
            &&& step.params@[0] == 64
            &&& step.params@[1] == record[1]
            &&& step.params@[2] - copy[2] == record[0] - copy[1]
            &&& step.params@[3] == width
            &&& step.params@[4] == record[2]
            &&& step.params@[5] == record[3]
        }),
{
    let template = template_of(*plan);
    assert(template.quantizers[i] == plan.quantizers@[i]@);
    let patch = assembly.steps@[2 * scans@.len() + 1 + i];
    let copy = assembly.steps@[2 * gap];
    assert(is_patch(patch, template, scans@, width, i));
    assert(is_copy(copy, template, scans@, width, 2 * gap));
    lemma_patch_moves(template, scans@, width, patch, copy, i, gap);
}

/// Bytes of the first `n` tables: sixty-four, and sixty-four more for each byte of precision.
pub open spec fn table_bytes(quantizers: Seq<[u32; 4]>, n: int) -> int
    decreases n,
{
    if n <= 0 {
        0
    } else {
        table_bytes(quantizers, n - 1) + 64 + 64 * quantizers[n - 1]@[3]
    }
}

/// Patches write all bytes of their tables.
proof fn lemma_table_bytes(plan: Plan, n: int)
    requires
        0 <= n <= plan.quantizers@.len(),
    ensures
        patched_bytes(template_of(plan), n) == table_bytes(plan.quantizers@, n),
        0 <= table_bytes(plan.quantizers@, n),
    decreases n,
{
    if n > 0 {
        lemma_table_bytes(plan, n - 1);
        assert(template_of(plan).quantizers[n - 1] == plan.quantizers@[n - 1]@);
    }
}

/// The assembly validates every coefficient of every component in its last step, against a range
/// of words and sixty-four masks for each component, and expects as status no failure, all bytes of
/// the file, all bytes that patches write and all coefficients.
#[verifier::rlimit(40)]
pub proof fn law_assembly_validates(
    plan: &Plan,
    masks: &[[u32; 64]; 3],
    layout: &JpegCoefficientLayout,
    scans: &Vec<u32>,
    width: u32,
    limit: u64,
    assembly: AssemblyPlan,
    c: int,
    j: int,
)
    requires
        template_wf(template_of(*plan)),
        layout@.wf(),
        scans@.len() <= u64::MAX / 128,
        plan.quantizers@.len() <= u64::MAX / 128,
        call_ensures(
            assemble,
            (plan, masks, layout, scans, width, limit),
            Ok::<AssemblyPlan, JpegReconstructionError>(assembly),
        ),
        0 <= c < layout@.planes.len(),
        0 <= j < 64,
    ensures
        ({
            let step = assembly.steps@[assembly.steps@.len() - 1];
            let plane = layout@.planes[c];
            let metadata = assembly.metadata@;
            &&& step.phase == 2
            &&& step.params@[0] == layout@.words && step.params@[7] == layout@.words
            &&& step.params@[3] == width
            &&& step.params@[6] == layout@.planes.len()
            &&& lanes_cover(step.groups as int, layout@.words)
            &&& metadata.len() == 12 + 3 * 64
            &&& metadata[4 * c] == plane.offset
            &&& metadata[4 * c + 1] == 64 * (plane.columns * plane.rows)
            &&& metadata[4 * c + 2] + j < metadata.len()
            &&& metadata[metadata[4 * c + 2] + j] == masks@[c]@[j]
        }),
        assembly.expected@[0] == 0,
        assembly.expected@[1] == assembly.byte_len,
        assembly.expected@[2] == table_bytes(plan.quantizers@, plan.quantizers@.len() as int),
        assembly.expected@[3] == layout@.words,
        assembly.output_bytes % 4 == 0 && assembly.byte_len <= assembly.output_bytes
            < assembly.byte_len + 4,
        assembly.template_bytes % 4 == 0 && plan.bytes@.len() <= assembly.template_bytes
            < plan.bytes@.len() + 4,
        assembly.reserved == assembly.output_bytes + assembly.template_bytes + 4
            * assembly.metadata@.len() + 16 + 16 + 32 * assembly.steps@.len(),
{
    let metadata = assembly.metadata@;
    let plane = layout@.planes[c];
    lemma_table_bytes(*plan, plan.quantizers@.len() as int);
    crate::vardct_engine::jpeg::lemma_words_before(layout@, 0, layout@.planes.len() as int);
    lemma_lanes(layout@.words);
    assert(layout@.plane_wf(c));
    crate::vardct_engine::jpeg::lemma_words_before(layout@, 0, c);
    crate::vardct_engine::jpeg::lemma_words_before(layout@, c + 1, layout@.planes.len() as int);
    let area = plane.columns * plane.rows;
    assert(0 <= area) by (nonlinear_arith)
        requires
            area == plane.columns * plane.rows,
            plane.columns >= 0,
            plane.rows >= 0,
    ;
    assert((4 * c) / 4 == c && (4 * c) % 4 == 0);
    assert((4 * c + 1) / 4 == c && (4 * c + 1) % 4 == 1);
    assert((4 * c + 2) / 4 == c && (4 * c + 2) % 4 == 2);
    assert(metadata[4 * c] == plane.offset as u32);
    assert(metadata[4 * c + 1] == (area * 64) as u32);
    assert(metadata[4 * c + 2] == 12 + c * 64);
    let k = 12 + c * 64 + j;
    assert((k - 12) / 64 == c && (k - 12) % 64 == j);
    assert(metadata[k] == planes_of(*masks)[c][j]);
    assert(planes_of(*masks)[c] == masks@[c]@);
}

} // verus!
