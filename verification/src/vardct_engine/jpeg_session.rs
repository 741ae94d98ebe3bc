//! Sessions of one JPEG-reconstruction frame.

use crate::vardct_engine::execution::session::{
    frame_submitted, FrameBudget, FrameDecodeSession, FramePressure, FrameSource,
    VarDctMemoryPermits,
};
use crate::vardct_engine::jpeg::{layout_of, JpegCoefficientLayout, LayoutView};
use crate::vardct_engine::jpeg_open::{
    admit_headers, admit_packet, headers_refusal, packet_refusal, JpegHeaders, JpegPacket,
};
use crate::vardct_engine::jpeg_output::metadata::JpegReconstructionMetadata;
use crate::vardct_engine::jpeg_output::runtime::{JpegReconstructionPending, Plan, Stage};
use crate::vardct_engine::jpeg_output::JpegReconstructionError;
use crate::vardct_engine::source::VarDctDecodeMemoryStats;
use crate::vardct_engine::types::VarDctDecodeError;
use crate::vardct_frontend::StandardVarDctProfile;
use std::sync::Arc;
use vstd::prelude::*;

verus! {

/// GPU-resident quantizers and signed coefficients, validated without a CPU codec or pixel output.
/// `B` owns the buffer.
#[derive(Debug)]
pub struct GpuJpegCoefficients<B> {
    planes: Arc<JpegCoefficientLayout>,
    lease: B,
}

impl<B> GpuJpegCoefficients<B> {
    pub closed spec fn spec_layout(&self) -> LayoutView {
        (*self.planes)@
    }

    pub closed spec fn spec_buffer(&self) -> B {
        self.lease
    }

    pub fn new(layout: Arc<JpegCoefficientLayout>, buffer: B) -> (coefficients: Self)
        ensures
            coefficients.spec_layout() == (*layout)@,
            coefficients.spec_buffer() == buffer,
    {
        GpuJpegCoefficients { planes: layout, lease: buffer }
    }

    pub fn layout(&self) -> (layout: &JpegCoefficientLayout)
        ensures
            layout@ == self.spec_layout(),
    {
        &*self.planes
    }

    /// Retain this lease for the full lifetime of any GPU consumer or explicit readback.
    pub fn buffer(&self) -> (buffer: &B)
        ensures
            *buffer == self.spec_buffer(),
    {
        &self.lease
    }
}

/// Validated original JPEG bytes. Storage is rounded to four bytes; `byte_len` excludes padding.
#[derive(Debug)]
pub struct GpuJpegFrame<B> {
    lease: B,
    length: u64,
}

impl<B> GpuJpegFrame<B> {
    pub closed spec fn spec_buffer(&self) -> B {
        self.lease
    }

    pub closed spec fn spec_byte_len(&self) -> u64 {
        self.length
    }

    pub fn new(buffer: B, byte_len: u64) -> (frame: Self)
        ensures
            frame.spec_buffer() == buffer,
            frame.spec_byte_len() == byte_len,
    {
        GpuJpegFrame { lease: buffer, length: byte_len }
    }

    /// Retain this lease through any GPU use or explicit readback.
    pub fn buffer(&self) -> (buffer: &B)
        ensures
            *buffer == self.spec_buffer(),
    {
        &self.lease
    }

    pub fn byte_len(&self) -> (length: u64)
        ensures
            length == self.spec_byte_len(),
    {
        self.length
    }
}

/// A coefficient frame to submit, with the layout of its output.
#[derive(Debug)]
pub struct JpegCoefficientPending {
    pub source: FrameSource,
    pub permits: VarDctMemoryPermits,
    pub layout: Arc<JpegCoefficientLayout>,
}

/// One complete still JPEG-reconstruction frame, with no image presentation request.
#[derive(Debug)]
pub struct JpegCoefficientSession {
    inner: FrameDecodeSession,
    planes: Arc<JpegCoefficientLayout>,
    header: JpegReconstructionMetadata,
}

impl JpegCoefficientSession {
    pub closed spec fn spec_inner(&self) -> FrameDecodeSession {
        self.inner
    }

    pub closed spec fn spec_layout(&self) -> LayoutView {
        (*self.planes)@
    }

    pub closed spec fn spec_metadata(&self) -> JpegReconstructionMetadata {
        self.header
    }

    pub fn memory_stats(&self) -> (stats: VarDctDecodeMemoryStats)
        ensures
            stats == self.spec_inner().stats,
    {
        self.inner.memory_stats()
    }

    pub fn layout(&self) -> (layout: &JpegCoefficientLayout)
        ensures
            layout@ == self.spec_layout(),
    {
        &*self.planes
    }

    pub fn metadata(&self) -> (metadata: &JpegReconstructionMetadata)
        ensures
            *metadata == self.spec_metadata(),
    {
        &self.header
    }

    /// Reserves what the frame needs and takes it to submit it, once. A refused reservation keeps
    /// the frame.
    pub fn submit_next(&mut self, budget: &mut FrameBudget) -> (r: Result<
        Option<JpegCoefficientPending>,
        FramePressure,
    >)
        requires
            old(self).spec_inner().stats.extra_arena_bytes
                <= old(self).spec_inner().stats.transient_bytes,
        ensures
            final(self).spec_layout() == old(self).spec_layout(),
            final(self).spec_metadata() == old(self).spec_metadata(),
            frame_submitted(
                old(self).spec_inner(),
                *old(budget),
                final(self).spec_inner(),
                *final(budget),
                taken_frame(r),
            ),
            r matches Ok(Some(pending)) ==> (*pending.layout)@ == old(self).spec_layout(),
    {
        match self.inner.submit_next(budget) {
            Ok(Some((source, permits))) => Ok(
                Some(JpegCoefficientPending { source, permits, layout: self.planes.clone() }),
            ),
            Ok(None) => Ok(None),
            Err(pressure) => Err(pressure),
        }
    }
}

/// The frame of a coefficient submission, without the layout of its output.
pub open spec fn taken_frame(r: Result<Option<JpegCoefficientPending>, FramePressure>) -> Result<
    Option<(FrameSource, VarDctMemoryPermits)>,
    FramePressure,
> {
    match r {
        Ok(Some(pending)) => Ok(Some((pending.source, pending.permits))),
        Ok(None) => Ok(None),
        Err(pressure) => Err(pressure),
    }
}

/// Why coefficient reconstruction is not opened.
pub open spec fn open_refusal(
    metadata: Option<JpegReconstructionMetadata>,
    headers: JpegHeaders,
    packet: JpegPacket,
    profile: &StandardVarDctProfile,
    limit: u64,
) -> Option<VarDctDecodeError> {
    match headers_refusal(metadata is Some, headers) {
        Some(error) => Some(VarDctDecodeError::Jpeg(error)),
        None => packet_refusal(
            packet,
            profile,
            headers.grayscale,
            metadata->0.components@.len() as usize,
            limit,
        ),
    }
}

/// Opens coefficient reconstruction of a complete input.
///
/// This bounded stage produces quantizers and coefficients, not original JPEG bytes. Orientation
/// and ICC color transforms do not apply to these integer values. Header and metadata admission
/// precede submission.
pub fn open_jpeg_coefficients(
    metadata: Option<JpegReconstructionMetadata>,
    headers: JpegHeaders,
    packet: JpegPacket,
    profile: &StandardVarDctProfile,
    limit: u64,
    stats: VarDctDecodeMemoryStats,
    source: FrameSource,
) -> (r: Result<JpegCoefficientSession, VarDctDecodeError>)
    ensures
        match open_refusal(metadata, headers, packet, profile, limit) {
            Some(error) => r == Err::<JpegCoefficientSession, VarDctDecodeError>(error),
            None => r matches Ok(session) && session.spec_layout() == layout_of(
                profile,
                headers.grayscale,
                packet.groups as u32,
            ) && Some(session.spec_metadata()) == metadata && session.spec_inner() == (
            FrameDecodeSession { stats, source: Some(source) }),
        },
{
    match admit_headers(metadata.is_some(), headers) {
        Ok(_) => {},
        Err(error) => {
            return Err(error);
        },
    }
    match metadata {
        Some(header) => {
            let layout = match admit_packet(
                packet,
                profile,
                headers.grayscale,
                header.components.len(),
                limit,
            ) {
                Ok(layout) => layout,
                Err(error) => {
                    return Err(error);
                },
            };
            Ok(
                JpegCoefficientSession {
                    inner: FrameDecodeSession { stats, source: Some(source) },
                    planes: Arc::new(layout),
                    header,
                },
            )
        },
        None => Err(
            VarDctDecodeError::Jpeg(
                crate::vardct_engine::jpeg::JpegCoefficientError::MissingMetadata,
            ),
        ),
    }
}

/// Why a reconstruction is not submitted.
#[derive(Clone, Copy, Debug, PartialEq, Eq)]
pub enum JpegSubmissionError {
    /// It has to wait.
    Pressure(FramePressure),
    Reconstruction(JpegReconstructionError),
}

/// A bounded original-JPEG reconstruction session. No CPU coefficient or entropy fallback exists.
#[derive(Debug)]
pub struct JpegReconstructionSession {
    inner: JpegCoefficientSession,
    plan: Option<Plan>,
    width: u32,
}

impl JpegReconstructionSession {
    pub closed spec fn spec_inner(&self) -> JpegCoefficientSession {
        self.inner
    }

    pub closed spec fn spec_plan(&self) -> Option<Plan> {
        self.plan
    }

    pub closed spec fn spec_width(&self) -> u32 {
        self.width
    }

    /// The plan of a file that is not taken yet is complete.
    pub open spec fn wf(&self) -> bool {
        self.spec_plan() matches Some(plan) ==> plan.wf()
    }

    /// A session over a planned file, on a device that permits `width` workgroups in a row.
    pub fn new(inner: JpegCoefficientSession, plan: Plan, width: u32) -> (session: Self)
        requires
            plan.wf(),
        ensures
            session.wf(),
            session.spec_inner() == inner,
            session.spec_plan() == Some(plan),
            session.spec_width() == width,
    {
        JpegReconstructionSession { inner, plan: Some(plan), width }
    }

    /// Reserves what the frame needs and takes it to submit its coefficients, once, and the
    /// reconstruction that follows them. A refused reservation keeps both.
    pub fn submit_next(&mut self, budget: &mut FrameBudget) -> (r: Result<
        Option<(JpegCoefficientPending, JpegReconstructionPending)>,
        JpegSubmissionError,
    >)
        requires
            old(self).wf(),
            old(self).spec_inner().spec_inner().stats.extra_arena_bytes
                <= old(self).spec_inner().spec_inner().stats.transient_bytes,
        ensures
            final(self).wf(),
            final(self).spec_width() == old(self).spec_width(),
            final(self).spec_inner().spec_layout() == old(self).spec_inner().spec_layout(),
            final(self).spec_inner().spec_metadata() == old(self).spec_inner().spec_metadata(),
            exists|taken: Result<Option<(FrameSource, VarDctMemoryPermits)>, FramePressure>|
                #[trigger] frame_submitted(
                    old(self).spec_inner().spec_inner(),
                    *old(budget),
                    final(self).spec_inner().spec_inner(),
                    *final(budget),
                    taken,
                ) && match taken {
                    Err(pressure) => r == Err::<
                        Option<(JpegCoefficientPending, JpegReconstructionPending)>,
                        JpegSubmissionError,
                    >(JpegSubmissionError::Pressure(pressure)) && final(self).spec_plan() == old(
                        self).spec_plan(),
                    Ok(None) => r == Ok::<
                        Option<(JpegCoefficientPending, JpegReconstructionPending)>,
                        JpegSubmissionError,
                    >(None) && final(self).spec_plan() == old(self).spec_plan(),
                    Ok(Some((source, permits))) => final(self).spec_plan() is None && match old(
                        self).spec_plan() {
                        None => r == Err::<
                            Option<(JpegCoefficientPending, JpegReconstructionPending)>,
                            JpegSubmissionError,
                        >(
                            JpegSubmissionError::Reconstruction(
                                JpegReconstructionError::Invalid("JPEG session exhausted"),
                            ),
                        ),
                        Some(plan) => r matches Ok(Some((coefficients, pending)))
                            && coefficients.source == source && coefficients.permits == permits
                            && (*coefficients.layout)@ == old(self).spec_inner().spec_layout()
                            && pending.wf() && pending@.plan == plan && pending@.layout == old(
                            self).spec_inner().spec_layout() && pending@.width == old(
                            self).spec_width() && pending@.stage == Some(Stage::Coefficients),
                    },
                },
    {
        let taken = self.inner.submit_next(budget);
        let ghost frame = taken_frame(taken);
        assert(frame_submitted(
            old(self).spec_inner().spec_inner(),
            *old(budget),
            self.spec_inner().spec_inner(),
            *budget,
            frame,
        ));
        let coefficients = match taken {
            Ok(Some(coefficients)) => coefficients,
            Ok(None) => {
                return Ok(None);
            },
            Err(pressure) => {
                return Err(JpegSubmissionError::Pressure(pressure));
            },
        };
        let plan = match self.plan.take() {
            Some(plan) => plan,
            None => {
                return Err(
                    JpegSubmissionError::Reconstruction(
                        JpegReconstructionError::Invalid("JPEG session exhausted"),
                    ),
                );
            },
        };
        let pending = JpegReconstructionPending::new(
            plan,
            coefficients.layout.clone(),
            self.width,
        );
        Ok(Some((coefficients, pending)))
    }
}

} // verus!
