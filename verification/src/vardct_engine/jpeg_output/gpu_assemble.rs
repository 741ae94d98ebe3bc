//! Assembly of the template, the packed scans and the quantizers into one file.

use crate::arith::{ceil_div, div_ceil_u32, round_up_4};
use crate::vardct_engine::jpeg::{JpegCoefficientLayout, JpegCoefficientPlane, LayoutView};
use crate::vardct_engine::jpeg_output::framing::template_wf;
use crate::vardct_engine::jpeg_output::gpu::word;
use crate::vardct_engine::jpeg_output::scan::planes_of;
use crate::vardct_engine::jpeg_output::template::{records, Plan, Template};
use crate::vardct_engine::jpeg_output::{check, storage_bytes, JpegReconstructionError};
use vstd::prelude::*;

verus! {

/// Where a copy reads from.
#[derive(Clone, Copy, Debug, PartialEq, Eq, Structural)]
pub enum CopySource {
    Template,
    Scan(usize),
}

/// One dispatch of the assembly: copy bytes, patch quantizers or validate coefficients.
#[derive(Clone, Copy, Debug, PartialEq, Eq)]
pub struct AssemblyStep {
    pub phase: usize,
    pub source: CopySource,
    pub params: [u32; 8],
    /// Workgroups; an empty gap has parameters but no dispatch.
    pub groups: u32,
}

/// The submission that assembles a file.
#[derive(Debug)]
pub struct AssemblyPlan {
    /// Bytes of the file.
    pub byte_len: u32,
    pub output_bytes: u64,
    pub template_bytes: u64,
    pub reserved: u64,
    pub metadata: Vec<u32>,
    pub steps: Vec<AssemblyStep>,
    /// The status record of a complete assembly.
    pub expected: [u32; 4],
}

/// Bytes of the first `n` scans.
pub open spec fn scan_bytes(scans: Seq<u32>, n: int) -> int
    decreases n,
{
    if n <= 0 {
        0
    } else {
        scan_bytes(scans, n - 1) + scans[n - 1]
    }
}

/// The template so far as a value.
pub open spec fn template_of(plan: Plan) -> Template {
    Template {
        bytes: plan.bytes@,
        scans: plan.scan_offsets@,
        quantizers: records(plan.quantizers@),
    }
}

/// First template byte behind scan `i - 1`.
pub open spec fn gap_start(template: Template, i: int) -> int {
    if i <= 0 {
        0
    } else {
        template.scans[i - 1] as int
    }
}

/// One past the last template byte in front of scan `i`, or the end of the template.
pub open spec fn gap_end(template: Template, i: int) -> int {
    if i < template.scans.len() {
        template.scans[i] as int
    } else {
        template.bytes.len() as int
    }
}

/// A copy of `count` bytes.
pub open spec fn copy_params(count: int, from: int, to: int, width: u32) -> Seq<u32> {
    seq![count as u32, from as u32, to as u32, width, 0u32, 0u32, 0u32, 0u32]
}

/// Copy `k` of the assembly: gaps of the template alternate with scans.
pub open spec fn copy_source(k: int) -> CopySource {
    if k % 2 == 0 {
        CopySource::Template
    } else {
        CopySource::Scan((k / 2) as usize)
    }
}

/// Where copy `k` starts reading.
pub open spec fn copy_from(template: Template, k: int) -> int {
    if k % 2 == 0 {
        gap_start(template, k / 2)
    } else {
        0
    }
}

/// Bytes of copy `k`.
pub open spec fn copy_count(template: Template, scans: Seq<u32>, k: int) -> int {
    if k % 2 == 0 {
        gap_end(template, k / 2) - gap_start(template, k / 2)
    } else {
        scans[k / 2] as int
    }
}

/// Where copy `k` starts writing.
pub open spec fn copy_to(template: Template, scans: Seq<u32>, k: int) -> int {
    if k % 2 == 0 {
        gap_start(template, k / 2) + scan_bytes(scans, k / 2)
    } else {
        gap_end(template, k / 2) + scan_bytes(scans, k / 2)
    }
}

/// Step `k` copies what copy `k` is.
pub open spec fn is_copy(
    step: AssemblyStep,
    template: Template,
    scans: Seq<u32>,
    width: u32,
    k: int,
) -> bool {
    let count = copy_count(template, scans, k);
    &&& step.phase == 0
    &&& step.source == copy_source(k)
    &&& step.params@ == copy_params(
        count,
        copy_from(template, k),
        copy_to(template, scans, k),
        width,
    )
    &&& step.groups == ceil_div(count, 64)
}

/// Bytes of the first `n` scans that stand at or before template byte `offset`.
pub open spec fn scans_through(template: Template, scans: Seq<u32>, offset: int, n: int) -> int
    decreases n,
{
    if n <= 0 {
        0
    } else {
        scans_through(template, scans, offset, n - 1) + if template.scans[n - 1] <= offset {
            scans[n - 1] as int
        } else {
            0
        }
    }
}

/// Where the placeholder at template byte `offset` lands in the file.
pub open spec fn patch_to(template: Template, scans: Seq<u32>, offset: int) -> int {
    offset + scans_through(template, scans, offset, template.scans.len() as int)
}

/// A step that fills placeholder `i`.
pub open spec fn is_patch(
    step: AssemblyStep,
    template: Template,
    scans: Seq<u32>,
    width: u32,
    i: int,
) -> bool {
    let record = template.quantizers[i];
    &&& step.phase == 1
    &&& step.source == CopySource::Template
    &&& step.params@ == seq![
        64u32,
        record[1],
        patch_to(template, scans, record[0] as int) as u32,
        width,
        record[2],
        record[3],
        0u32,
        0u32,
    ]
    &&& step.groups == 1
}

/// The step that validates all coefficients.
pub open spec fn is_validation(step: AssemblyStep, layout: LayoutView, width: u32) -> bool {
    let words = layout.words as u32;
    &&& step.phase == 2
    &&& step.source == CopySource::Template
    &&& step.params@ == seq![
        words,
        0u32,
        0u32,
        width,
        0u32,
        0u32,
        layout.planes.len() as u32,
        words,
    ]
    &&& step.groups == ceil_div(words as int, 64)
}

/// Bytes that the first `n` patches write.
pub open spec fn patched_bytes(template: Template, n: int) -> int
    decreases n,
{
    if n <= 0 {
        0
    } else {
        patched_bytes(template, n - 1) + 64 * (1 + template.quantizers[n - 1][3])
    }
}

/// No scan is placed in front of the scan before it.
pub open spec fn offsets_ascend(template: Template) -> bool {
    forall|i: int|
        0 < i < template.scans.len() ==> template.scans[i - 1] <= #[trigger] template.scans[i]
}

/// Why one of the first `n` patches cannot be placed or counted.
pub open spec fn patch_refusal(template: Template, scans: Seq<u32>, n: int) -> Option<
    JpegReconstructionError,
>
    decreases n,
{
    if n <= 0 {
        None
    } else if patch_refusal(template, scans, n - 1) is Some {
        patch_refusal(template, scans, n - 1)
    } else if patch_to(template, scans, template.quantizers[n - 1][0] as int) > u32::MAX {
        Some(JpegReconstructionError::Invalid("GPU address overflow"))
    } else if patched_bytes(template, n) > u64::MAX {
        Some(JpegReconstructionError::Invalid("size overflow"))
    } else {
        None
    }
}

/// Why the parts cannot be assembled.
pub open spec fn assembly_refusal(template: Template, scans: Seq<u32>, limit: u64) -> Option<
    JpegReconstructionError,
> {
    let length = template.bytes.len() + scan_bytes(scans, scans.len() as int);
    if scans.len() != template.scans.len() {
        Some(JpegReconstructionError::Invalid("scan count"))
    } else if length > u64::MAX {
        Some(JpegReconstructionError::Invalid("size overflow"))
    } else if length > limit {
        Some(
            JpegReconstructionError::Limit {
                resource: "JPEG output bytes",
                required: length as u64,
                limit,
            },
        )
    } else if length > u32::MAX {
        Some(JpegReconstructionError::Invalid("GPU address overflow"))
    } else if !offsets_ascend(template) {
        Some(JpegReconstructionError::Invalid("template offsets"))
    } else {
        match patch_refusal(template, scans, template.quantizers.len() as int) {
            Some(error) => Some(error),
            None => if patched_bytes(template, template.quantizers.len() as int) > u32::MAX {
                Some(JpegReconstructionError::Invalid("GPU address overflow"))
            } else {
                None
            },
        }
    }
}

/// Word `k` of the coefficient metadata: for each component its range and its masks.
pub open spec fn metadata_word(layout: LayoutView, masks: Seq<Seq<u32>>, k: int) -> u32 {
    if k < 12 {
        let i = k / 4;
        if i >= layout.planes.len() {
            0
        } else if k % 4 == 0 {
            layout.planes[i].offset as u32
        } else if k % 4 == 1 {
            (layout.planes[i].columns * layout.planes[i].rows * 64) as u32
        } else if k % 4 == 2 {
            (12 + i * 64) as u32
        } else {
            0
        }
    } else {
        let i = (k - 12) / 64;
        if i >= layout.planes.len() {
            0
        } else {
            masks[i][(k - 12) % 64]
        }
    }
}

/// The coefficient metadata of an assembly.
fn metadata_words(layout: &JpegCoefficientLayout, masks: &[[u32; 64]; 3]) -> (metadata: Vec<u32>)
    ensures
        metadata@.len() == 204,
        forall|k: int|
            0 <= k < 204 ==> #[trigger] metadata@[k] == metadata_word(
                layout@,
                planes_of(*masks),
                k,
            ),
{
    let planes = layout.planes();
    assert(planes@.len() == layout@.planes.len());
    let mut metadata: Vec<u32> = Vec::new();
    let mut k: usize = 0;
    while k < 204
        invariant
            k <= 204,
            layout@.wf(),
            planes@.len() == layout@.planes.len(),
            planes@.map_values(|p: JpegCoefficientPlane| p@) == layout@.planes,
            metadata@.len() == k,
            forall|i: int|
                0 <= i < k ==> #[trigger] metadata@[i] == metadata_word(
                    layout@,
                    planes_of(*masks),
                    i,
                ),
        decreases 204 - k,
    {
        let value: u32 = if k < 12 {
            let i: usize = k / 4;
            if i >= planes.len() {
                0
            } else {
                assert(layout@.planes[i as int] == planes@[i as int]@);
                let plane: JpegCoefficientPlane = planes[i];
                proof {
                    lemma_plane_words(layout@, i as int);
                }
                if k % 4 == 0 {
                    plane.coefficient_word_offset
                } else if k % 4 == 1 {
                    plane.blocks_per_row * plane.block_rows * 64
                } else if k % 4 == 2 {
                    12 + i as u32 * 64
                } else {
                    0
                }
            }
        } else {
            let i: usize = (k - 12) / 64;
            if i >= planes.len() {
                0
            } else {
                masks[i][(k - 12) % 64]
            }
        };
        metadata.push(value);
        k = k + 1;
    }
    metadata
}

/// A plane is not larger than all planes.
proof fn lemma_plane_words(layout: LayoutView, i: int)
    requires
        layout.wf(),
        0 <= i < layout.planes.len(),
    ensures
        0 <= layout.planes[i].columns * layout.planes[i].rows * 64 <= u32::MAX,
        0 <= layout.planes[i].columns * layout.planes[i].rows <= u32::MAX,
{
    let g = crate::vardct_engine::jpeg_output::scan_plan::layout_geometry(layout);
    crate::vardct_engine::jpeg_output::scan_plan::lemma_layout_geometry(layout);
    assert(crate::vardct_engine::jpeg_output::scan_plan::plane_resident(g, i));
    assert(layout.plane_wf(i));
    let p = layout.planes[i];
    assert(0 <= p.columns * p.rows) by (nonlinear_arith)
        requires
            0 <= p.columns,
            0 <= p.rows,
    ;
}

/// More scans are not shorter.
pub proof fn lemma_scan_bytes(scans: Seq<u32>, i: int, n: int)
    requires
        0 <= i <= n <= scans.len(),
    ensures
        0 <= scan_bytes(scans, i) <= scan_bytes(scans, n),
    decreases n,
{
    if n > 0 {
        if i < n {
            lemma_scan_bytes(scans, i, n - 1);
        } else {
            lemma_scan_bytes(scans, n - 1, n - 1);
        }
    }
}

/// Scans at or before a place are some of all scans.
proof fn lemma_scans_through(template: Template, scans: Seq<u32>, offset: int, n: int)
    requires
        0 <= n <= scans.len(),
        scans.len() == template.scans.len(),
    ensures
        0 <= scans_through(template, scans, offset, n) <= scan_bytes(scans, n),
    decreases n,
{
    if n > 0 {
        lemma_scans_through(template, scans, offset, n - 1);
    }
}

/// The refusal of an early patch stays the outcome.
proof fn lemma_patch_stop(template: Template, scans: Seq<u32>, i: int, n: int)
    requires
        0 <= i <= n,
    ensures
        patch_refusal(template, scans, i) is Some ==> patch_refusal(template, scans, n)
            == patch_refusal(template, scans, i),
    decreases n - i,
{
    if i < n {
        lemma_patch_stop(template, scans, i, n - 1);
    }
}

/// Dispatch parameters, padded with zeros.
fn step_of(phase: usize, source: CopySource, params: [u32; 8], groups: u32) -> (step: AssemblyStep)
    ensures
        step.phase == phase,
        step.source == source,
        step.params == params,
        step.groups == groups,
{
    AssemblyStep { phase, source, params, groups }
}

/// The copies of gaps and scans, unless a gap would end in front of its start.
fn copy_steps(plan: &Plan, scans: &Vec<u32>, width: u32) -> (r: Result<
    Vec<AssemblyStep>,
    JpegReconstructionError,
>)
    requires
        forall|i: int|
            0 <= i < plan.scan_offsets@.len() ==> #[trigger] plan.scan_offsets@[i]
                <= plan.bytes@.len(),
        scans@.len() == plan.scan_offsets@.len(),
        plan.bytes@.len() + scan_bytes(scans@, scans@.len() as int) <= u32::MAX,
    ensures
        if offsets_ascend(template_of(*plan)) {
            r matches Ok(steps) && steps@.len() == 2 * scans@.len() + 1 && forall|k: int|
                0 <= k < steps@.len() ==> #[trigger] is_copy(
                    steps@[k],
                    template_of(*plan),
                    scans@,
                    width,
                    k,
                )
        } else {
            r == Err::<Vec<AssemblyStep>, JpegReconstructionError>(
                JpegReconstructionError::Invalid("template offsets"),
            )
        },
{
    let ghost template = template_of(*plan);
    let mut steps: Vec<AssemblyStep> = Vec::new();
    let mut start: u32 = 0;
    let mut to: u32 = 0;
    let mut i: usize = 0;
    proof {
        lemma_scan_bytes(scans@, 0, scans@.len() as int);
    }
    while i < scans.len()
        invariant
            template == template_of(*plan),
            forall|i: int|
                0 <= i < plan.scan_offsets@.len() ==> #[trigger] plan.scan_offsets@[i]
                    <= plan.bytes@.len(),
            forall|j: int|
                0 < j < i ==> template.scans[j - 1] <= #[trigger] template.scans[j],
            scans@.len() == plan.scan_offsets@.len(),
            plan.bytes@.len() + scan_bytes(scans@, scans@.len() as int) <= u32::MAX,
            i <= scans@.len(),
            start == gap_start(template, i as int),
            start <= plan.bytes@.len(),
            to == start + scan_bytes(scans@, i as int),
            steps@.len() == 2 * i,
            forall|k: int|
                0 <= k < steps@.len() ==> #[trigger] is_copy(steps@[k], template, scans@, width, k),
        decreases scans@.len() - i,
    {
        proof {
            lemma_scan_bytes(scans@, i as int, scans@.len() as int);
            lemma_scan_bytes(scans@, i + 1, scans@.len() as int);
            assert(plan.scan_offsets@[i as int] <= plan.bytes@.len());
        }
        let offset: u32 = plan.scan_offsets[i];
        if offset < start {
            assert(template.scans[i as int] < template.scans[i - 1]);
            return Err(JpegReconstructionError::Invalid("template offsets"));
        }
        let bytes: u32 = scans[i];
        let count: u32 = offset - start;
        let ghost k = 2 * i as int;
        assert(k % 2 == 0 && k / 2 == i && (k + 1) % 2 == 1 && (k + 1) / 2 == i);
        let gap = step_of(
            0,
            CopySource::Template,
            [count, start, to, width, 0, 0, 0, 0],
            div_ceil_u32(count, 64),
        );
        assert(gap.params@ =~= copy_params(count as int, start as int, to as int, width));
        assert(is_copy(gap, template, scans@, width, k));
        steps.push(gap);
        to = to + count;
        let scan = step_of(
            0,
            CopySource::Scan(i),
            [bytes, 0, to, width, 0, 0, 0, 0],
            div_ceil_u32(bytes, 64),
        );
        assert(scan.params@ =~= copy_params(bytes as int, 0, to as int, width));
        assert(is_copy(scan, template, scans@, width, k + 1));
        steps.push(scan);
        to = to + bytes;
        start = offset;
        i = i + 1;
    }
    let remaining: u32 = plan.bytes.len() as u32 - start;
    let ghost k = 2 * i as int;
    assert(k % 2 == 0 && k / 2 == i);
    let rest = step_of(
        0,
        CopySource::Template,
        [remaining, start, to, width, 0, 0, 0, 0],
        div_ceil_u32(remaining, 64),
    );
    assert(rest.params@ =~= copy_params(remaining as int, start as int, to as int, width));
    assert(is_copy(rest, template, scans@, width, k));
    steps.push(rest);
    Ok(steps)
}

/// Where the placeholder at template byte `offset` lands.
fn patch_place(plan: &Plan, scans: &Vec<u32>, offset: u32) -> (to: u64)
    requires
        scans@.len() == plan.scan_offsets@.len(),
        plan.bytes@.len() + scan_bytes(scans@, scans@.len() as int) <= u32::MAX,
    ensures
        to == patch_to(template_of(*plan), scans@, offset as int),
{
    let ghost template = template_of(*plan);
    let mut to: u64 = offset as u64;
    let mut i: usize = 0;
    while i < scans.len()
        invariant
            template == template_of(*plan),
            scans@.len() == plan.scan_offsets@.len(),
            plan.bytes@.len() + scan_bytes(scans@, scans@.len() as int) <= u32::MAX,
            i <= scans@.len(),
            to == offset + scans_through(template, scans@, offset as int, i as int),
        decreases scans@.len() - i,
    {
        proof {
            lemma_scans_through(template, scans@, offset as int, i as int);
            lemma_scans_through(template, scans@, offset as int, i + 1);
            lemma_scan_bytes(scans@, i + 1, scans@.len() as int);
        }
        if plan.scan_offsets[i] <= offset {
            to = to + scans[i] as u64;
        }
        i = i + 1;
    }
    to
}

/// The submission that assembles a file: all copies, then all patches, then the validation.
pub open spec fn assembled(
    assembly: AssemblyPlan,
    template: Template,
    masks: Seq<Seq<u32>>,
    layout: LayoutView,
    scans: Seq<u32>,
    width: u32,
) -> bool {
    let copies = 2 * scans.len() + 1;
    let patches = template.quantizers.len();
    let length = template.bytes.len() + scan_bytes(scans, scans.len() as int);
    &&& assembly.byte_len == length
    &&& assembly.output_bytes == round_up_4(length)
    &&& assembly.template_bytes == round_up_4(template.bytes.len() as int)
    &&& assembly.reserved == assembly.output_bytes + assembly.template_bytes + 204 * 4 + 16 + 16
        + (copies + patches + 1) * 32
    &&& assembly.metadata@.len() == 204
    &&& forall|k: int|
        0 <= k < 204 ==> #[trigger] assembly.metadata@[k] == metadata_word(layout, masks, k)
    &&& assembly.steps@.len() == copies + patches + 1
    &&& forall|k: int|
        0 <= k < copies ==> #[trigger] is_copy(assembly.steps@[k], template, scans, width, k)
    &&& forall|i: int|
        0 <= i < patches ==> #[trigger] is_patch(
            assembly.steps@[copies + i],
            template,
            scans,
            width,
            i,
        )
    &&& is_validation(assembly.steps@[(copies + patches) as int], layout, width)
    &&& assembly.expected@ == seq![
        0u32,
        length as u32,
        patched_bytes(template, patches as int) as u32,
        layout.words as u32,
    ]
}

/// Plans the submission that assembles a file from its template and packed scans.
pub fn start(
    plan: &Plan,
    masks: &[[u32; 64]; 3],
    layout: &JpegCoefficientLayout,
    scans: &Vec<u32>,
    width: u32,
    limit: u64,
) -> (r: Result<AssemblyPlan, JpegReconstructionError>)
    requires
        forall|i: int|
            0 <= i < plan.scan_offsets@.len() ==> #[trigger] plan.scan_offsets@[i]
                <= plan.bytes@.len(),
        scans@.len() <= u64::MAX / 128,
        plan.quantizers@.len() <= u64::MAX / 128,
    ensures
        match assembly_refusal(template_of(*plan), scans@, limit) {
            Some(error) => r == Err::<AssemblyPlan, JpegReconstructionError>(error),
            None => r matches Ok(assembly) && assembled(
                assembly,
                template_of(*plan),
                planes_of(*masks),
                layout@,
                scans@,
                width,
            ),
        },
{
    let ghost template = template_of(*plan);
    if scans.len() != plan.scan_offsets.len() {
        return Err(JpegReconstructionError::Invalid("scan count"));
    }
    let mut length: u64 = plan.bytes.len() as u64;
    let mut i: usize = 0;
    while i < scans.len()
        invariant
            i <= scans@.len(),
            scans@.len() == plan.scan_offsets@.len(),
            template == template_of(*plan),
            length == plan.bytes@.len() + scan_bytes(scans@, i as int),
        decreases scans@.len() - i,
    {
        proof {
            lemma_scan_bytes(scans@, i + 1, scans@.len() as int);
        }
        length = match crate::vardct_engine::jpeg_output::add(length, scans[i] as u64) {
            Ok(length) => length,
            Err(error) => {
                return Err(error);
            },
        };
        i = i + 1;
    }
    match check("JPEG output bytes", length, limit) {
        Ok(_) => {},
        Err(error) => {
            return Err(error);
        },
    }
    let byte_len: u32 = match word(length) {
        Ok(byte_len) => byte_len,
        Err(error) => {
            return Err(error);
        },
    };
    proof {
        lemma_scan_bytes(scans@, 0, scans@.len() as int);
    }
    let output_bytes: u64 = match storage_bytes(length) {
        Ok(bytes) => bytes,
        Err(error) => {
            return Err(error);
        },
    };
    let template_bytes: u64 = match storage_bytes(plan.bytes.len() as u64) {
        Ok(bytes) => bytes,
        Err(error) => {
            return Err(error);
        },
    };
    assert(template.quantizers.len() == plan.quantizers@.len());
    let dispatches: u64 = scans.len() as u64 * 2 + 1 + plan.quantizers.len() as u64 + 1;
    let reserved: u64 = output_bytes + template_bytes + (204 * 4 + 16 + 16 + dispatches * 32);
    let metadata = metadata_words(layout, masks);
    let mut steps = match copy_steps(plan, scans, width) {
        Ok(steps) => steps,
        Err(error) => {
            return Err(error);
        },
    };
    let ghost copies = steps@;
    let mut patched: u64 = 0;
    let mut i: usize = 0;
    while i < plan.quantizers.len()
        invariant
            template == template_of(*plan),
            assembly_refusal(template, scans@, limit) == match patch_refusal(
                template,
                scans@,
                template.quantizers.len() as int,
            ) {
                Some(error) => Some(error),
                None => if patched_bytes(template, template.quantizers.len() as int) > u32::MAX {
                    Some(JpegReconstructionError::Invalid("GPU address overflow"))
                } else {
                    None
                },
            },
            template.quantizers.len() == plan.quantizers@.len(),
            patch_refusal(template, scans@, i as int) is None,
            scans@.len() == plan.scan_offsets@.len(),
            plan.bytes@.len() + scan_bytes(scans@, scans@.len() as int) <= u32::MAX,
            plan.bytes@.len() <= u32::MAX,
            i <= plan.quantizers@.len(),
            patched == patched_bytes(template, i as int),
            copies.len() == 2 * scans@.len() + 1,
            steps@.len() == copies.len() + i,
            forall|k: int| 0 <= k < copies.len() ==> #[trigger] steps@[k] == copies[k],
            forall|k: int|
                0 <= k < i ==> #[trigger] is_patch(
                    steps@[copies.len() + k],
                    template,
                    scans@,
                    width,
                    k,
                ),
        decreases plan.quantizers@.len() - i,
    {
        let record: [u32; 4] = plan.quantizers[i];
        assert(template.quantizers[i as int] == record@);
        proof {
            lemma_patch_stop(template, scans@, i + 1, template.quantizers.len() as int);
        }
        let to: u32 = match word(patch_place(plan, scans, record[0])) {
            Ok(to) => to,
            Err(error) => {
                return Err(error);
            },
        };
        let step = step_of(
            1,
            CopySource::Template,
            [64, record[1], to, width, record[2], record[3], 0, 0],
            1,
        );
        assert(step.params@ =~= seq![
            64u32,
            record[1],
            to,
            width,
            record[2],
            record[3],
            0u32,
            0u32,
        ]);
        assert(is_patch(step, template, scans@, width, i as int));
        steps.push(step);
        patched = match crate::vardct_engine::jpeg_output::add(patched, 64 * (1 + record[3] as u64)) {
            Ok(patched) => patched,
            Err(error) => {
                return Err(error);
            },
        };
        i = i + 1;
    }
    let words: u32 = layout.coefficient_words();
    let planes: u32 = layout.planes().len() as u32;
    let validation = step_of(
        2,
        CopySource::Template,
        [words, 0, 0, width, 0, 0, planes, words],
        div_ceil_u32(words, 64),
    );
    assert(validation.params@ =~= seq![words, 0u32, 0u32, width, 0u32, 0u32, planes, words]);
    steps.push(validation);
    let patched_word: u32 = match word(patched) {
        Ok(patched) => patched,
        Err(error) => {
            return Err(error);
        },
    };
    let expected: [u32; 4] = [0, byte_len, patched_word, words];
    assert(expected@ =~= seq![0u32, byte_len, patched_word, words]);
    Ok(
        AssemblyPlan {
            byte_len,
            output_bytes,
            template_bytes,
            reserved,
            metadata,
            steps,
            expected,
        },
    )
}

impl AssemblyPlan {
    /// Accepts exactly the status of a complete assembly and gives the bytes of the file.
    pub fn finish(&self, status: [u32; 4]) -> (r: Result<u64, JpegReconstructionError>)
        ensures
            status@ == self.expected@ ==> r == Ok::<u64, JpegReconstructionError>(
                self.byte_len as u64,
            ),
            status@ != self.expected@ ==> r == Err::<u64, JpegReconstructionError>(
                JpegReconstructionError::GpuStatus { stage: "assembly", status },
            ),
    {
        if status[0] != self.expected[0] || status[1] != self.expected[1] || status[2]
            != self.expected[2] || status[3] != self.expected[3] {
            return Err(JpegReconstructionError::GpuStatus { stage: "assembly", status });
        }
        assert(status@ =~= self.expected@);
        Ok(self.byte_len as u64)
    }
}

/// The copies tile the file: each starts where the one before it ended, the first at its start
/// and the last ending at its end.
pub proof fn law_copies_tile(template: Template, scans: Seq<u32>, k: int)
    requires
        template_wf(template),
        scans.len() == template.scans.len(),
        0 <= k <= 2 * scans.len(),
    ensures
        copy_to(template, scans, 0) == 0,
        copy_count(template, scans, k) >= 0,
        k < 2 * scans.len() ==> copy_to(template, scans, k + 1) == copy_to(template, scans, k)
            + copy_count(template, scans, k),
        copy_to(template, scans, 2 * scans.len() as int) + copy_count(
            template,
            scans,
            2 * scans.len() as int,
        ) == template.bytes.len() + scan_bytes(scans, scans.len() as int),
{
    let i = k / 2;
    if k % 2 == 0 {
        if 0 < i < scans.len() {
            assert(template.scans[i - 1] <= template.scans[i]);
        }
        if i > 0 {
            assert(template.scans[i - 1] <= template.bytes.len());
        }
        assert((k + 1) / 2 == i);
    } else {
        assert((k + 1) / 2 == i + 1 && (k + 1) % 2 == 0);
    }
    let n = scans.len() as int;
    assert((2 * n) % 2 == 0 && (2 * n) / 2 == n);
}

/// A quantizer is patched exactly where the copy of its placeholder lands.
pub proof fn law_patch_lands(template: Template, scans: Seq<u32>, offset: int, i: int)
    requires
        template_wf(template),
        scans.len() == template.scans.len(),
        0 <= i <= scans.len(),
        gap_start(template, i) <= offset < gap_end(template, i),
    ensures
        patch_to(template, scans, offset) == copy_to(template, scans, 2 * i) + (offset - copy_from(
            template,
            2 * i,
        )),
{
    assert((2 * i) % 2 == 0 && (2 * i) / 2 == i);
    lemma_through_gap(template, scans, offset, i, scans.len() as int);
}

proof fn lemma_through_gap(template: Template, scans: Seq<u32>, offset: int, i: int, n: int)
    requires
        template_wf(template),
        scans.len() == template.scans.len(),
        0 <= i <= scans.len(),
        gap_start(template, i) <= offset < gap_end(template, i),
        0 <= n <= scans.len(),
    ensures
        scans_through(template, scans, offset, n) == scan_bytes(scans, if n < i { n } else { i }),
    decreases n,
{
    if n > 0 {
        lemma_through_gap(template, scans, offset, i, n - 1);
        if n <= i {
            assert(template.scans[n - 1] <= template.scans[i - 1]);
        } else {
            assert(template.scans[i] <= template.scans[n - 1]);
        }
    }
}

} // verus!
