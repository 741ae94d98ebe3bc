//! Admission of a JPEG reconstruction and the order of its GPU submissions.

use crate::arith::{least, min_u64};
use crate::vardct_engine::jpeg::{JpegCoefficientLayout, LayoutView};
use crate::vardct_engine::jpeg_output::framing::{
    framing_outcome, law_framing, refused_first, template_bytes, template_wf, Extras,
};
use crate::vardct_engine::jpeg_output::gpu::accept_status;
use crate::vardct_engine::jpeg_output::gpu_assemble::{
    assembled, assembly_refusal, lemma_scan_bytes, scan_bytes, template_of, AssemblyPlan,
};
use crate::vardct_engine::jpeg_output::gpu_scan::{
    advance_refusal, advanced, counting_steps, persistent_words, start_buffers, start_params,
    start_refusal, step_views, submission_overhead, total_bytes, ScanContext, ScanPhase, ScanState, ScanSubmission,
};
use crate::vardct_engine::jpeg_output::metadata::JpegReconstructionMetadata;
use crate::vardct_engine::jpeg_output::scan::{planes_of, TABLE_WORDS};
use crate::vardct_engine::jpeg_output::scan_plan::{
    charged, layout_geometry, plan_refusal, planned, visits,
};
use crate::vardct_engine::jpeg_output::template::{keeps, Template};
use crate::vardct_engine::jpeg_output::{
    allocate, check, framing, gpu_assemble, gpu_scan, scan_plan, sum_outcome, template,
    JpegReconstructionError, JpegReconstructionLimits,
};
use std::sync::Arc;
use vstd::prelude::*;

verus! {

/// How the one frame lies on the image canvas.
#[derive(Clone, Copy, Debug, PartialEq, Eq, Structural)]
pub struct CanvasBinding {
    pub image_width: u32,
    pub image_height: u32,
    pub x0: i32,
    pub y0: i32,
    pub upsampling: u32,
    /// The frame replaces what is below it.
    pub replaces: bool,
}

/// The frame is the whole canvas.
pub open spec fn whole_canvas(canvas: CanvasBinding, layout: LayoutView) -> bool {
    &&& layout.extent == (canvas.image_width as int, canvas.image_height as int)
    &&& canvas.x0 == 0
    &&& canvas.y0 == 0
    &&& canvas.upsampling == 1
    &&& canvas.replaces
}

/// The limits that remain for scans behind `owned` bytes of metadata.
pub open spec fn scan_limits(limits: JpegReconstructionLimits, owned: int) -> JpegReconstructionLimits {
    JpegReconstructionLimits { max_plan_bytes: (limits.max_plan_bytes - owned) as u64, ..limits }
}

/// The refusal of a host plan of `owned` bytes.
pub open spec fn host_refusal(owned: int, limits: JpegReconstructionLimits) -> Option<
    JpegReconstructionError,
> {
    if owned > u64::MAX {
        Some(JpegReconstructionError::Invalid("size overflow"))
    } else if owned > limits.max_plan_bytes {
        Some(
            JpegReconstructionError::Limit {
                resource: "host reconstruction plan bytes",
                required: owned as u64,
                limit: limits.max_plan_bytes,
            },
        )
    } else {
        None
    }
}

/// Scans are planned; boxes of metadata are still to be read.
#[derive(Debug)]
pub struct Admission {
    pub scans: scan_plan::Plan,
    pub limits: JpegReconstructionLimits,
    /// Host bytes owned so far.
    pub owned: u64,
}

/// Why scans cannot be planned behind the serialized metadata and the ICC profile.
pub open spec fn admission_refusal(
    canvas: CanvasBinding,
    header: &JpegReconstructionMetadata,
    header_bytes: u64,
    icc_bytes: u64,
    layout: LayoutView,
    limits: JpegReconstructionLimits,
) -> Option<JpegReconstructionError> {
    let owned = header_bytes + icc_bytes;
    if !whole_canvas(canvas, layout) {
        Some(JpegReconstructionError::Unsupported("JPEG canvas binding"))
    } else if host_refusal(owned, limits) is Some {
        host_refusal(owned, limits)
    } else {
        plan_refusal(header, layout_geometry(layout), scan_limits(limits, owned))
    }
}

impl Admission {
    /// The scans and metadata so far fit the host limit.
    pub open spec fn wf(&self) -> bool {
        &&& self.owned <= self.limits.max_plan_bytes
        &&& 1 <= self.scans.scans@.len() <= u64::MAX / 128
        &&& forall|s: int|
            0 <= s < self.scans.scans@.len() ==> (#[trigger] self.scans.scans@[s]).tables@.len()
                == TABLE_WORDS
    }

    /// Charges the serialized metadata and the ICC profile, then plans the scans.
    pub fn begin(
        canvas: CanvasBinding,
        header: &JpegReconstructionMetadata,
        header_bytes: u64,
        icc_bytes: u64,
        layout: &JpegCoefficientLayout,
        limits: JpegReconstructionLimits,
    ) -> (r: Result<Self, JpegReconstructionError>)
        requires
            header.declared(),
        ensures
            match admission_refusal(canvas, header, header_bytes, icc_bytes, layout@, limits) {
                Some(error) => r == Err::<Self, JpegReconstructionError>(error),
                None => match r {
                    Err(error) => error == JpegReconstructionError::Allocation,
                    Ok(admission) => {
                        let g = layout_geometry(layout@);
                        let n = header.markers@.len() as int;
                        &&& admission.wf()
                        &&& admission.limits == limits
                        &&& admission.owned == header_bytes + icc_bytes
                            + admission.scans.owned_bytes
                        &&& planes_of(admission.scans.masks) == charged(
                            header,
                            g,
                            scan_limits(limits, header_bytes + icc_bytes),
                            n,
                        )->Ok_0.walk.planes
                        &&& admission.scans.owned_bytes == charged(
                            header,
                            g,
                            scan_limits(limits, header_bytes + icc_bytes),
                            n,
                        )->Ok_0.owned
                        &&& admission.scans.scans@.len() == header.scans@.len()
                        &&& forall|s: int|
                            0 <= s < admission.scans.scans@.len() ==> #[trigger] planned(
                                admission.scans.scans@[s],
                                header,
                                g,
                                visits(header, g, n)[s],
                            )
                    },
                },
            },
    {
        let extent: [u32; 2] = layout.extent();
        if extent[0] != canvas.image_width || extent[1] != canvas.image_height || canvas.x0 != 0
            || canvas.y0 != 0 || canvas.upsampling != 1 || !canvas.replaces {
            return Err(JpegReconstructionError::Unsupported("JPEG canvas binding"));
        }
        let owned: u64 = match crate::vardct_engine::jpeg_output::add(header_bytes, icc_bytes) {
            Ok(owned) => owned,
            Err(error) => {
                return Err(error);
            },
        };
        match check("host reconstruction plan bytes", owned, limits.max_plan_bytes) {
            Ok(_) => {},
            Err(error) => {
                return Err(error);
            },
        }
        let mut plan_limits = limits;
        plan_limits.max_plan_bytes = limits.max_plan_bytes - owned;
        assert(plan_limits == scan_limits(limits, owned as int));
        let scans = match scan_plan::build(header, layout, plan_limits) {
            Ok(scans) => scans,
            Err(error) => {
                return Err(error);
            },
        };
        proof {
            scan_plan::lemma_owned_within(header, layout_geometry(layout@), plan_limits);
            scan_plan::lemma_scans_exist(header, layout_geometry(layout@), plan_limits);
        }
        let owned: u64 = owned + scans.owned_bytes;
        Ok(Admission { scans, limits, owned })
    }

    /// Bytes that metadata boxes may retain.
    pub fn retained_limit(&self, most: u64) -> (limit: u64)
        requires
            self.wf(),
        ensures
            limit == least(most as int, self.limits.max_plan_bytes - self.owned),
    {
        min_u64(most, self.limits.max_plan_bytes - self.owned)
    }

    /// Charges the retained metadata boxes, of which each type occurs at most once.
    pub fn boxes(self, exif_boxes: usize, xmp_boxes: usize, retained: u64) -> (r: Result<
        Self,
        JpegReconstructionError,
    >)
        requires
            self.wf(),
            retained <= self.limits.max_plan_bytes - self.owned,
        ensures
            if exif_boxes > 1 || xmp_boxes > 1 {
                r == Err::<Self, JpegReconstructionError>(
                    JpegReconstructionError::Invalid("duplicate JPEG metadata box"),
                )
            } else {
                r matches Ok(next) && next.wf() && next.scans == self.scans && next.limits
                    == self.limits && next.owned == self.owned + retained
            },
    {
        if exif_boxes > 1 || xmp_boxes > 1 {
            return Err(JpegReconstructionError::Invalid("duplicate JPEG metadata box"));
        }
        Ok(Admission { scans: self.scans, limits: self.limits, owned: self.owned + retained })
    }

    /// Charges the decoded metadata and the padding bits, then frames the file.
    pub fn finish(
        self,
        header: &JpegReconstructionMetadata,
        layout: &JpegCoefficientLayout,
        extras: &Extras,
        decoded: u64,
        padding: &[u8],
        padding_bits: u32,
        has_padding: bool,
    ) -> (r: Result<Plan, JpegReconstructionError>)
        requires
            self.wf(),
            header.declared(),
            header.components@.len() == layout@.planes.len(),
        ensures
            match charge_refusal(self, decoded, padding@, padding_bits) {
                Some(error) => r == Err::<Plan, JpegReconstructionError>(error),
                None => match r {
                    Err(error) => error == JpegReconstructionError::Allocation || framing_outcome(
                        header,
                        layout@,
                        *extras,
                        self.limits.max_output_bytes,
                        (self.limits.max_plan_bytes - (self.owned + decoded
                            + padding@.len())) as u64,
                    ) == Err::<Template, JpegReconstructionError>(error),
                    Ok(plan) => framing_outcome(
                        header,
                        layout@,
                        *extras,
                        self.limits.max_output_bytes,
                        (self.limits.max_plan_bytes - (self.owned + decoded
                            + padding@.len())) as u64,
                    ) matches Ok(template) && ({
                        &&& plan.scans == self.scans
                        &&& plan.limits == self.limits
                        &&& plan.padding@ == padding@
                        &&& plan.padding_bits == padding_bits
                        &&& plan.has_padding == has_padding
                        &&& keeps(plan.framing, template)
                        &&& plan.wf()
                    }),
                },
            },
            charge_refusal(self, decoded, padding@, padding_bits) is None && padding@.len() == 0
                && refused_first(
                header,
                layout@,
                *extras,
                self.limits.max_output_bytes,
                (self.limits.max_plan_bytes - (self.owned + decoded)) as u64,
            ) ==> r == Err::<Plan, JpegReconstructionError>(
                framing_outcome(
                    header,
                    layout@,
                    *extras,
                    self.limits.max_output_bytes,
                    (self.limits.max_plan_bytes - (self.owned + decoded)) as u64,
                )->Err_0,
            ),
    {
        let owned: u64 = match crate::vardct_engine::jpeg_output::add(self.owned, decoded) {
            Ok(owned) => owned,
            Err(error) => {
                return Err(error);
            },
        };
        match check("padding bits", padding_bits as u64, u32::MAX as u64 - 31) {
            Ok(_) => {},
            Err(error) => {
                return Err(error);
            },
        }
        let owned: u64 = match crate::vardct_engine::jpeg_output::add(owned, padding.len() as u64) {
            Ok(owned) => owned,
            Err(error) => {
                return Err(error);
            },
        };
        match check("host reconstruction plan bytes", owned, self.limits.max_plan_bytes) {
            Ok(_) => {},
            Err(error) => {
                return Err(error);
            },
        }
        let kept: Vec<u8> = match allocate(padding.len()) {
            Ok(room) => keep_padding(room, padding),
            Err(error) => {
                return Err(error);
            },
        };
        let framing = match framing::build(
            header,
            layout,
            extras,
            self.limits.max_output_bytes,
            self.limits.max_plan_bytes - owned,
        ) {
            Ok(framing) => framing,
            Err(error) => {
                return Err(error);
            },
        };
        proof {
            law_framing(
                header,
                layout@,
                *extras,
                self.limits.max_output_bytes,
                (self.limits.max_plan_bytes - owned) as u64,
            );
        }
        Ok(
            Plan {
                scans: self.scans,
                framing,
                padding: kept,
                padding_bits,
                has_padding,
                limits: self.limits,
            },
        )
    }
}

/// Fills the room for the padding bits.
pub fn keep_padding(room: Vec<u8>, padding: &[u8]) -> (kept: Vec<u8>)
    requires
        room@.len() == 0,
    ensures
        kept@ == padding@,
{
    let mut kept = room;
    kept.extend_from_slice(padding);
    assert(kept@ =~= padding@);
    kept
}

/// Why the decoded metadata and the padding bits cannot be charged.
pub open spec fn charge_refusal(
    admission: Admission,
    decoded: u64,
    padding: Seq<u8>,
    padding_bits: u32,
) -> Option<JpegReconstructionError> {
    if admission.owned + decoded > u64::MAX {
        Some(JpegReconstructionError::Invalid("size overflow"))
    } else if padding_bits > u32::MAX - 31 {
        Some(
            JpegReconstructionError::Limit {
                resource: "padding bits",
                required: padding_bits as u64,
                limit: (u32::MAX - 31) as u64,
            },
        )
    } else {
        host_refusal(admission.owned + decoded + padding.len(), admission.limits)
    }
}

/// Everything that the host planned for one file.
#[derive(Debug)]
pub struct Plan {
    pub scans: scan_plan::Plan,
    pub framing: template::Plan,
    pub padding: Vec<u8>,
    pub padding_bits: u32,
    pub has_padding: bool,
    pub limits: JpegReconstructionLimits,
}

impl Plan {
    /// At least one scan, and a template whose places are in order.
    pub open spec fn wf(&self) -> bool {
        &&& 1 <= self.scans.scans@.len() <= u64::MAX / 128
        &&& forall|s: int|
            0 <= s < self.scans.scans@.len() ==> (#[trigger] self.scans.scans@[s]).tables@.len()
                == TABLE_WORDS
        &&& template_wf(template_of(self.framing))
        &&& self.framing.bytes@.len() <= u32::MAX
    }

    /// What surrounds scan `index`.
    pub open spec fn context(&self, layout: LayoutView, width: u32, index: int) -> ScanContext {
        ScanContext {
            padding_bytes: self.padding@.len() as u64,
            padding_bits: self.padding_bits,
            has_padding: self.has_padding,
            last: index + 1 == self.scans.scans@.len(),
            coefficient_words: (192 + layout.words) as u32,
            width,
        }
    }
}

/// Where a reconstruction stands between two GPU completions.
#[derive(Debug)]
pub enum Stage {
    /// Coefficients are being restored.
    Coefficients,
    /// Scan `index` is being coded; `outputs` are the bytes of the scans before it.
    Scan { index: usize, state: ScanState, outputs: Vec<u32> },
    /// The file is being assembled.
    Assembly { plan: AssemblyPlan },
}

/// What to submit next.
#[derive(Debug)]
pub enum Action {
    /// A submission of scan `index`.
    Scan { index: usize, submission: ScanSubmission },
    /// The assembly of the file.
    Assemble,
    /// Nothing: the file is complete.
    Complete { byte_len: u64 },
}

/// Pending reconstruction. It exposes no unvalidated byte output.
#[derive(Debug)]
pub struct JpegReconstructionPending {
    plan: Plan,
    layout: Arc<JpegCoefficientLayout>,
    width: u32,
    stage: Option<Stage>,
}

/// The values of a [`JpegReconstructionPending`].
pub ghost struct PendingView {
    pub plan: Plan,
    pub layout: LayoutView,
    pub width: u32,
    pub stage: Option<Stage>,
}

impl View for JpegReconstructionPending {
    type V = PendingView;

    closed spec fn view(&self) -> PendingView {
        PendingView {
            plan: self.plan,
            layout: (*self.layout)@,
            width: self.width,
            stage: self.stage,
        }
    }
}

/// Scan `index` was started as `submission`.
pub open spec fn scan_started(view: PendingView, index: int, submission: ScanSubmission) -> bool {
    let scan = view.plan.scans.scans@[index];
    let context = view.plan.context(view.layout, view.width, index);
    let blocks = scan.tasks@.len() as int;
    &&& start_refusal(scan, context) is None
    &&& submission.state.params@ == start_params(scan, context, view.plan.limits)
    &&& submission.state.phase == ScanPhase::Count
    &&& submission.state.byte_len == 0
    &&& step_views(submission.steps@) == counting_steps(blocks, persistent_words(blocks))
    &&& submission.buffers@.len() == 5
    &&& forall|i: int|
        0 <= i < 5 ==> #[trigger] submission.buffers@[i] == start_buffers(
            scan.tables@.len() as int,
            blocks,
            context.padding_bytes as int,
        )[i]
    &&& submission.reserved == total_bytes(submission.buffers@, 5) + submission_overhead(
        submission.steps@.len() as int,
    )
}

/// The stage is scan `index` in `state` behind scans of `outputs` bytes.
pub open spec fn at_scan(
    stage: Option<Stage>,
    index: int,
    state: ScanState,
    outputs: Seq<u32>,
) -> bool {
    stage matches Some(Stage::Scan { index: i, state: s, outputs: o }) && i == index && s == state
        && o@ == outputs
}

/// The status of a packed scan repeats what was counted.
pub open spec fn packed_status(state: ScanState, status: [u32; 4]) -> bool {
    &&& status[3] == state.byte_len
    &&& status[1] != 0
    &&& status[1] % 8 == 0
    &&& status[2] == status[1] / 8
}

/// What follows the completed packing of scan `index`: the next scan, or the assembly.
pub open spec fn scan_completed(
    before: PendingView,
    after: PendingView,
    index: int,
    outputs: Seq<u32>,
    r: Result<Action, JpegReconstructionError>,
) -> bool {
    if index + 1 == before.plan.scans.scans@.len() {
        let template = template_of(before.plan.framing);
        match assembly_refusal(template, outputs, before.plan.limits.max_output_bytes) {
            Some(error) => r == Err::<Action, JpegReconstructionError>(error) && after.stage is None,
            None => {
                &&& r == Ok::<Action, JpegReconstructionError>(Action::Assemble)
                &&& after.stage matches Some(Stage::Assembly { plan }) && assembled(
                    plan,
                    template,
                    planes_of(before.plan.scans.masks),
                    before.layout,
                    outputs,
                    before.width,
                )
            },
        }
    } else {
        let next = before.plan.scans.scans@[index + 1];
        match start_refusal(next, before.plan.context(before.layout, before.width, index + 1)) {
            Some(error) => r == Err::<Action, JpegReconstructionError>(error) && after.stage is None,
            None => r matches Ok(Action::Scan { index: i, submission }) && i == index + 1
                && scan_started(before, index + 1, submission) && at_scan(
                after.stage,
                index + 1,
                submission.state,
                outputs,
            ),
        }
    }
}

/// What a status record does to a reconstruction.
pub open spec fn stepped(
    before: PendingView,
    status: [u32; 4],
    after: PendingView,
    r: Result<Action, JpegReconstructionError>,
) -> bool {
    &&& after.plan == before.plan
    &&& after.layout == before.layout
    &&& after.width == before.width
    &&& match before.stage {
        None => r == Err::<Action, JpegReconstructionError>(
            JpegReconstructionError::Invalid("completed pending JPEG"),
        ) && after.stage is None,
        Some(Stage::Coefficients) => r == Err::<Action, JpegReconstructionError>(
            JpegReconstructionError::Invalid("coefficient stage event"),
        ) && after.stage is None,
        Some(Stage::Scan { index, state, outputs }) => {
            let file = before.plan.framing.bytes@.len() + scan_bytes(
                outputs@,
                outputs@.len() as int,
            ) + status[3];
            if status[0] != 0 {
                r == Err::<Action, JpegReconstructionError>(
                    JpegReconstructionError::GpuStatus { stage: "scan entropy", status },
                ) && after.stage is None
            } else if state.phase == ScanPhase::Emit && file > u64::MAX {
                r == Err::<Action, JpegReconstructionError>(
                    JpegReconstructionError::Invalid("size overflow"),
                ) && after.stage is None
            } else if state.phase == ScanPhase::Emit && file > before.plan.limits.max_output_bytes {
                r == Err::<Action, JpegReconstructionError>(
                    JpegReconstructionError::Limit {
                        resource: "JPEG output bytes",
                        required: file as u64,
                        limit: before.plan.limits.max_output_bytes,
                    },
                ) && after.stage is None
            } else if state.phase != ScanPhase::Pack {
                match advance_refusal(state, status, before.plan.limits) {
                    Some(error) => r == Err::<Action, JpegReconstructionError>(error)
                        && after.stage is None,
                    None => r matches Ok(Action::Scan { index: i, submission }) && i == index
                        && advanced(state, status, submission) && at_scan(
                        after.stage,
                        index as int,
                        submission.state,
                        outputs@,
                    ),
                }
            } else if !packed_status(state, status) {
                r == Err::<Action, JpegReconstructionError>(
                    JpegReconstructionError::GpuStatus { stage: "packed scan", status },
                ) && after.stage is None
            } else {
                scan_completed(before, after, index as int, outputs@.push(state.byte_len), r)
            }
        },
        Some(Stage::Assembly { plan }) => after.stage is None && if status[0] != 0 {
            r == Err::<Action, JpegReconstructionError>(
                JpegReconstructionError::GpuStatus { stage: "assembly", status },
            )
        } else if status@ != plan.expected@ {
            r == Err::<Action, JpegReconstructionError>(
                JpegReconstructionError::GpuStatus { stage: "assembly", status },
            )
        } else {
            r == Ok::<Action, JpegReconstructionError>(
                Action::Complete { byte_len: plan.byte_len as u64 },
            )
        },
    }
}

impl JpegReconstructionPending {
    /// The stage belongs to the plan.
    pub closed spec fn wf(&self) -> bool {
        &&& self.plan.wf()
        &&& self.stage matches Some(Stage::Scan { index, state, outputs }) ==> {
            &&& index < self.plan.scans.scans@.len()
            &&& outputs@.len() == index
            &&& persistent_words(state.params[0] as int) <= u32::MAX
        }
    }

    /// A reconstruction whose coefficients were submitted.
    pub fn new(plan: Plan, layout: Arc<JpegCoefficientLayout>, width: u32) -> (pending: Self)
        requires
            plan.wf(),
        ensures
            pending@.plan == plan,
            pending@.layout == (*layout)@,
            pending@.width == width,
            pending@.stage == Some(Stage::Coefficients),
            pending.wf(),
    {
        JpegReconstructionPending { plan, layout, width, stage: Some(Stage::Coefficients) }
    }

    /// Scan `index`, counted from the start.
    fn start_scan(&self, index: usize) -> (r: Result<ScanSubmission, JpegReconstructionError>)
        requires
            self.wf(),
            index < self@.plan.scans.scans@.len(),
        ensures
            match start_refusal(
                self@.plan.scans.scans@[index as int],
                self@.plan.context(self@.layout, self@.width, index as int),
            ) {
                Some(error) => r == Err::<ScanSubmission, JpegReconstructionError>(error),
                None => r matches Ok(submission) && scan_started(self@, index as int, submission)
                    && persistent_words(submission.state.params[0] as int) <= u32::MAX,
            },
    {
        let storage: u64 = self.layout.storage_bytes();
        let context = ScanContext {
            padding_bytes: self.plan.padding.len() as u64,
            padding_bits: self.plan.padding_bits,
            has_padding: self.plan.has_padding,
            last: index == self.plan.scans.scans.len() - 1,
            coefficient_words: (storage / 4) as u32,
            width: self.width,
        };
        let scan = &self.plan.scans.scans[index];
        assert(context == self@.plan.context(self@.layout, self@.width, index as int));
        let r = gpu_scan::start(scan, context, self.plan.limits);
        proof {
            if r is Ok {
                assert(r->Ok_0.state.params@[0] == scan.tasks@.len() as u32);
            }
        }
        r
    }

    /// The coefficients are restored and validated: the first scan is counted.
    pub fn coefficients_ready(&mut self) -> (r: Result<Action, JpegReconstructionError>)
        requires
            old(self).wf(),
        ensures
            final(self).wf(),
            final(self)@.plan == old(self)@.plan,
            final(self)@.layout == old(self)@.layout,
            final(self)@.width == old(self)@.width,
            match start_refusal(
                old(self)@.plan.scans.scans@[0],
                old(self)@.plan.context(old(self)@.layout, old(self)@.width, 0),
            ) {
                Some(error) => r == Err::<Action, JpegReconstructionError>(error) && final(
                    self)@.stage is None,
                None => r matches Ok(Action::Scan { index, submission }) && index == 0
                    && scan_started(old(self)@, 0, submission) && at_scan(
                    final(self)@.stage,
                    0,
                    submission.state,
                    Seq::empty(),
                ),
            },
    {
        self.stage = None;
        match self.start_scan(0) {
            Ok(submission) => {
                let outputs: Vec<u32> = Vec::new();
                assert(outputs@ =~= Seq::empty());
                self.stage = Some(Stage::Scan { index: 0, state: submission.state, outputs });
                Ok(Action::Scan { index: 0, submission })
            },
            Err(error) => Err(error),
        }
    }

    /// The submission that assembles the file, while it is the one that is waited for.
    pub fn assembly(&self) -> (assembly: Option<&AssemblyPlan>)
        ensures
            match self@.stage {
                Some(Stage::Assembly { plan }) => assembly == Some(&plan),
                _ => assembly is None,
            },
    {
        match &self.stage {
            Some(Stage::Assembly { plan }) => Some(plan),
            _ => None,
        }
    }

    /// A GPU stage could not be mapped: nothing more is submitted.
    pub fn fail(&mut self)
        requires
            old(self).wf(),
        ensures
            final(self).wf(),
            final(self)@ == (PendingView { stage: None, ..old(self)@ }),
    {
        self.stage = None;
    }

    /// Takes the status record of the submitted stage and says what to submit next. A refused
    /// record ends the reconstruction.
    #[verifier::rlimit(60)]
    pub fn advance(&mut self, status: [u32; 4]) -> (r: Result<Action, JpegReconstructionError>)
        requires
            old(self).wf(),
        ensures
            final(self).wf(),
            stepped(old(self)@, status, final(self)@, r),
    {
        let ghost before = self@;
        let stage = self.stage.take();
        match stage {
            None => Err(JpegReconstructionError::Invalid("completed pending JPEG")),
            Some(Stage::Coefficients) => Err(
                JpegReconstructionError::Invalid("coefficient stage event"),
            ),
            Some(Stage::Scan { index, state, mut outputs }) => {
                match accept_status(status, "scan entropy") {
                    Ok(_) => {},
                    Err(error) => {
                        return Err(error);
                    },
                }
                let emitting = match state.phase {
                    ScanPhase::Emit => true,
                    _ => false,
                };
                if emitting {
                    let retained: u64 = match sum_bytes(
                        self.plan.framing.bytes.len() as u64,
                        &outputs,
                    ) {
                        Ok(retained) => retained,
                        Err(error) => {
                            return Err(error);
                        },
                    };
                    let file: u64 = match crate::vardct_engine::jpeg_output::add(
                        retained,
                        status[3] as u64,
                    ) {
                        Ok(file) => file,
                        Err(error) => {
                            return Err(error);
                        },
                    };
                    match check("JPEG output bytes", file, self.plan.limits.max_output_bytes) {
                        Ok(_) => {},
                        Err(error) => {
                            return Err(error);
                        },
                    }
                }
                let packing = match state.phase {
                    ScanPhase::Pack => true,
                    _ => false,
                };
                if !packing {
                    match state.advance(status, self.plan.limits) {
                        Ok(submission) => {
                            assert(submission.state.params@[0] == state.params@[0]);
                            self.stage = Some(
                                Stage::Scan { index, state: submission.state, outputs },
                            );
                            Ok(Action::Scan { index, submission })
                        },
                        Err(error) => Err(error),
                    }
                } else {
                    if status[3] != state.byte_len || status[1] == 0 || status[1] % 8 != 0
                        || status[2] != status[1] / 8 {
                        return Err(
                            JpegReconstructionError::GpuStatus { stage: "packed scan", status },
                        );
                    }
                    outputs.push(state.byte_len);
                    let count: usize = self.plan.scans.scans.len();
                    let next: usize = index + 1;
                    proof {
                        let framing = self.plan.framing;
                        assert forall|i: int| 0 <= i < framing.scan_offsets@.len() implies (
                        #[trigger] framing.scan_offsets@[i]) <= framing.bytes@.len() by {
                            assert(template_of(framing).scans[i] <= template_of(framing).bytes.len());
                        }
                    }
                    if next == count {
                        match gpu_assemble::start(
                            &self.plan.framing,
                            &self.plan.scans.masks,
                            &*self.layout,
                            &outputs,
                            self.width,
                            self.plan.limits.max_output_bytes,
                        ) {
                            Ok(plan) => {
                                self.stage = Some(Stage::Assembly { plan });
                                Ok(Action::Assemble)
                            },
                            Err(error) => Err(error),
                        }
                    } else {
                        match self.start_scan(next) {
                            Ok(submission) => {
                                self.stage = Some(
                                    Stage::Scan { index: next, state: submission.state, outputs },
                                );
                                Ok(Action::Scan { index: next, submission })
                            },
                            Err(error) => Err(error),
                        }
                    }
                }
            },
            Some(Stage::Assembly { plan }) => {
                match accept_status(status, "assembly") {
                    Ok(_) => {},
                    Err(error) => {
                        return Err(error);
                    },
                }
                match plan.finish(status) {
                    Ok(byte_len) => Ok(Action::Complete { byte_len }),
                    Err(error) => Err(error),
                }
            },
        }
    }
}

/// The bytes of a file so far.
fn sum_bytes(template: u64, outputs: &Vec<u32>) -> (r: Result<u64, JpegReconstructionError>)
    ensures
        r == sum_outcome(template as int, scan_bytes(outputs@, outputs@.len() as int)),
        0 <= scan_bytes(outputs@, outputs@.len() as int),
{
    proof {
        lemma_scan_bytes(outputs@, 0, outputs@.len() as int);
    }
    let mut sum: u64 = template;
    let mut i: usize = 0;
    while i < outputs.len()
        invariant
            i <= outputs@.len(),
            sum == template + scan_bytes(outputs@, i as int),
        decreases outputs@.len() - i,
    {
        proof {
            lemma_scan_bytes(outputs@, i + 1, outputs@.len() as int);
        }
        sum = match crate::vardct_engine::jpeg_output::add(sum, outputs[i] as u64) {
            Ok(sum) => sum,
            Err(error) => {
                return Err(error);
            },
        };
        i = i + 1;
    }
    Ok(sum)
}

/// Once a reconstruction is complete or refused, it refuses every further status.
pub proof fn law_ended_stays_ended(
    before: PendingView,
    status: [u32; 4],
    after: PendingView,
    r: Result<Action, JpegReconstructionError>,
    later: [u32; 4],
    last: PendingView,
    r2: Result<Action, JpegReconstructionError>,
)
    requires
        stepped(before, status, after, r),
        r is Err || r matches Ok(Action::Complete { byte_len }),
        stepped(after, later, last, r2),
    ensures
        after.stage is None,
        last.stage is None,
        r2 == Err::<Action, JpegReconstructionError>(
            JpegReconstructionError::Invalid("completed pending JPEG"),
        ),
{
}

/// A file has a length only when the status of its assembly is the expected one.
pub proof fn law_bytes_only_after_validation(
    before: PendingView,
    status: [u32; 4],
    after: PendingView,
    r: Result<Action, JpegReconstructionError>,
    byte_len: u64,
)
    requires
        stepped(before, status, after, r),
        r == Ok::<Action, JpegReconstructionError>(Action::Complete { byte_len }),
    ensures
        before.stage matches Some(Stage::Assembly { plan }) && status@ == plan.expected@ && byte_len
            == plan.byte_len,
{
}

/// What the host keeps of a planned file, its template included, never exceeds the host limit.
pub proof fn law_host_plan_bounded(
    admission: Admission,
    header: &JpegReconstructionMetadata,
    layout: LayoutView,
    extras: Extras,
    decoded: u64,
    padding: Seq<u8>,
    padding_bits: u32,
)
    requires
        charge_refusal(admission, decoded, padding, padding_bits) is None,
        framing_outcome(
            header,
            layout,
            extras,
            admission.limits.max_output_bytes,
            (admission.limits.max_plan_bytes - (admission.owned + decoded + padding.len())) as u64,
        ) is Ok,
    ensures
        ({
            let owned = admission.owned + decoded + padding.len();
            let template = framing_outcome(
                header,
                layout,
                extras,
                admission.limits.max_output_bytes,
                (admission.limits.max_plan_bytes - owned) as u64,
            )->Ok_0;
            owned + template_bytes(header, template) <= admission.limits.max_plan_bytes
        }),
{
}

/// No scan is emitted beyond the limit on raw bytes, and no file is assembled beyond the limit on
/// output bytes.
pub proof fn law_outputs_within_limits(
    before: PendingView,
    status: [u32; 4],
    after: PendingView,
    r: Result<Action, JpegReconstructionError>,
)
    requires
        stepped(before, status, after, r),
    ensures
        r matches Ok(Action::Scan { index, submission }) && submission.state.phase
            == ScanPhase::Emit ==> status[2] <= before.plan.limits.max_raw_scan_bytes,
        r == Ok::<Action, JpegReconstructionError>(Action::Assemble) ==> (after.stage matches Some(
            Stage::Assembly { plan },
        ) && plan.byte_len <= before.plan.limits.max_output_bytes),
{
}

/// Scans are coded one by one. Each is counted, emitted and packed; its bytes are kept when the
/// status of its packing repeats them, and then the next one is counted. Behind the last one the
/// file is assembled from all of them, and is as long as its template and its scans.
pub proof fn law_scans_in_turn(
    before: PendingView,
    status: [u32; 4],
    after: PendingView,
    action: Action,
    index: usize,
    state: ScanState,
    outputs: Vec<u32>,
)
    requires
        stepped(before, status, after, Ok(action)),
        before.stage == Some(Stage::Scan { index, state, outputs }),
    ensures
        status@[0] == 0,
        state.phase != ScanPhase::Pack ==> {
            &&& action matches Action::Scan { index: i, submission }
            &&& i == index
            &&& state.phase == ScanPhase::Count ==> submission.state.phase == ScanPhase::Emit
            &&& state.phase == ScanPhase::Emit ==> submission.state.phase == ScanPhase::Pack
                && submission.state.byte_len == status@[3]
            &&& at_scan(after.stage, index as int, submission.state, outputs@)
        },
        state.phase == ScanPhase::Pack ==> status@[3] == state.byte_len && status@[1] == 8
            * status@[2],
        state.phase == ScanPhase::Pack && index + 1 < before.plan.scans.scans@.len() ==> {
            &&& action matches Action::Scan { index: i, submission }
            &&& i == index + 1
            &&& submission.state.phase == ScanPhase::Count
            &&& submission.state.params@[0] == before.plan.scans.scans@[index + 1].tasks@.len()
            &&& before.layout.wf() ==> submission.state.params@[1] == 192 + before.layout.words
            &&& submission.state.params@[4] == before.plan.padding_bits
            &&& submission.state.params@[7] == before.plan.scans.scans@[index + 1].parameters
            &&& submission.state.params@[8] == before.width
            &&& submission.state.params@[5] / 2 == if index + 2 == before.plan.scans.scans@.len() {
                1int
            } else {
                0
            }
            &&& at_scan(
                after.stage,
                index + 1,
                submission.state,
                outputs@.push(state.byte_len),
            )
        },
        state.phase == ScanPhase::Pack && index + 1 == before.plan.scans.scans@.len() ==> {
            &&& action == Action::Assemble
            &&& after.stage matches Some(Stage::Assembly { plan })
            &&& plan.byte_len == before.plan.framing.bytes@.len() + scan_bytes(
                outputs@.push(state.byte_len),
                (outputs@.len() + 1) as int,
            )
        },
{
    if state.phase == ScanPhase::Pack && index + 1 < before.plan.scans.scans@.len() {
        let next = before.plan.scans.scans@[index + 1];
        let context = before.plan.context(before.layout, before.width, index + 1);
        assert(start_refusal(next, context) is None);
        if before.layout.wf() {
            crate::vardct_engine::jpeg::lemma_words_before(
                before.layout,
                0,
                before.layout.planes.len() as int,
            );
        }
    }
}

} // verus!
