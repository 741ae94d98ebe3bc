//! Sequential GPU-only decode sessions with bounded returned frame ownership.

pub mod seek;
pub mod update;

use crate::error::Error;
use crate::session::update::FrameProgression;
use std::sync::Arc;
use vstd::prelude::*;

verus! {

/// Unit of a stream's clock.
#[derive(Clone, Copy, Debug, PartialEq, Eq, Structural)]
pub struct Timebase {
    pub numerator: u32,
    pub denominator: u32,
}

/// How long a frame is shown.
#[derive(Clone, Copy, Debug, PartialEq, Eq, Structural)]
pub struct FrameDuration {
    pub ticks: u64,
    pub timebase: Option<Timebase>,
}

impl FrameDuration {
    /// A frame without timing.
    pub fn still() -> (duration: Self)
        ensures
            duration == (FrameDuration { ticks: 0, timebase: None }),
    {
        FrameDuration { ticks: 0, timebase: None }
    }
}

/// Identity and timing of one presentation.
#[derive(Debug, PartialEq, Eq)]
pub struct FrameMetadata {
    pub index: usize,
    pub duration: FrameDuration,
    pub presentation_ticks: u64,
    pub timecode: Option<u32>,
    pub is_last: bool,
    pub is_keyframe: bool,
    pub name: String,
}

/// The values of a [`FrameMetadata`].
pub ghost struct MetadataView {
    pub index: usize,
    pub duration: FrameDuration,
    pub presentation_ticks: u64,
    pub timecode: Option<u32>,
    pub is_last: bool,
    pub is_keyframe: bool,
    pub name: Seq<char>,
}

impl View for FrameMetadata {
    type V = MetadataView;

    open spec fn view(&self) -> MetadataView {
        MetadataView {
            index: self.index,
            duration: self.duration,
            presentation_ticks: self.presentation_ticks,
            timecode: self.timecode,
            is_last: self.is_last,
            is_keyframe: self.is_keyframe,
            name: self.name@,
        }
    }
}

impl FrameMetadata {
    /// Whether identity and timing are the same.
    pub fn same_as(&self, other: &Self) -> (r: bool)
        ensures
            r == (self@ == other@),
    {
        let timecodes = match (self.timecode, other.timecode) {
            (None, None) => true,
            (Some(a), Some(b)) => a == b,
            _ => false,
        };
        self.index == other.index && self.duration.ticks == other.duration.ticks && same_timebase(
            self.duration.timebase,
            other.duration.timebase,
        ) && self.presentation_ticks == other.presentation_ticks && timecodes && self.is_last
            == other.is_last && self.is_keyframe == other.is_keyframe && self.name == other.name
    }

    /// The one presentation of a still image.
    pub fn still(name: String) -> (metadata: Self)
        ensures
            metadata == (FrameMetadata {
                index: 0,
                duration: FrameDuration { ticks: 0, timebase: None },
                presentation_ticks: 0,
                timecode: None,
                is_last: true,
                is_keyframe: true,
                name,
            }),
    {
        FrameMetadata {
            index: 0,
            duration: FrameDuration::still(),
            presentation_ticks: 0,
            timecode: None,
            is_last: true,
            is_keyframe: true,
            name,
        }
    }

    /// The same identity and timing once more.
    pub fn duplicate(&self) -> (metadata: Self)
        ensures
            metadata == *self,
    {
        FrameMetadata {
            index: self.index,
            duration: self.duration,
            presentation_ticks: self.presentation_ticks,
            timecode: self.timecode,
            is_last: self.is_last,
            is_keyframe: self.is_keyframe,
            name: self.name.clone(),
        }
    }
}

/// What a stream declares of all its presentations.
#[derive(Clone, Copy, Debug, PartialEq, Eq, Structural)]
pub struct AnimationMetadata {
    pub width: u32,
    pub height: u32,
    pub timebase: Option<Timebase>,
    pub loop_count: Option<u32>,
    pub has_timecodes: Option<bool>,
    pub frame_count_hint: Option<usize>,
}

/// Coding mode of a stream.
#[derive(Clone, Copy, Debug, PartialEq, Eq, Structural)]
pub enum DecodeProfile {
    ModularLossless { bits_per_sample: u32 },
    VarDct { bits_per_sample: u32 },
}

/// What a caller asks of a session.
#[derive(Clone, Copy, Debug, PartialEq, Eq, Structural)]
pub struct GpuOutputRequest {
    /// Presentations that may be held at once.
    pub max_in_flight: usize,
    /// The preview is asked for rather than the main image.
    pub preview: bool,
}

/// GPU-resident frame returned by an engine before bounded lease wrapping.
#[derive(Debug)]
pub struct SubmittedGpuFrame<F> {
    pub metadata: FrameMetadata,
    pub output: F,
}

impl<F> SubmittedGpuFrame<F> {
    pub fn new(metadata: FrameMetadata, output: F) -> (frame: Self)
        ensures
            frame.metadata == metadata,
            frame.output == output,
    {
        SubmittedGpuFrame { metadata, output }
    }
}

/// One update from a pending engine frame. Only `Complete` advances presentation state.
#[derive(Debug)]
pub enum SubmittedGpuUpdate<F> {
    Intermediate { frame: SubmittedGpuFrame<F>, progression: FrameProgression },
    Complete(SubmittedGpuFrame<F>),
}

/// GPU session plus metadata produced after header/profile negotiation.
#[derive(Debug)]
pub struct PreparedGpuSession<S> {
    pub profile: DecodeProfile,
    pub metadata: AnimationMetadata,
    pub session: S,
}

impl<S> PreparedGpuSession<S> {
    pub fn new(profile: DecodeProfile, metadata: AnimationMetadata, session: S) -> (prepared: Self)
        ensures
            prepared.profile == profile,
            prepared.metadata == metadata,
            prepared.session == session,
    {
        PreparedGpuSession { profile, metadata, session }
    }
}

/// An operation that may not be complete yet.
#[derive(Debug)]
pub enum Progress<T> {
    Pending,
    Ready(T),
}

/// Per-codestream GPU submission state.
///
/// `next_frame` and `next_update` may wait for GPU completion. The polling forms must not block:
/// they arrange to be polled again before they report `Pending`.
pub trait GpuSubmissionSession {
    type Frame;

    fn next_frame(&mut self) -> Result<Option<SubmittedGpuFrame<Self::Frame>>, Error>;

    fn poll_next_frame(&mut self) -> Progress<
        Result<Option<SubmittedGpuFrame<Self::Frame>>, Error>,
    >;

    fn next_update(&mut self) -> Result<Option<SubmittedGpuUpdate<Self::Frame>>, Error>;

    fn poll_next_update(&mut self) -> Progress<
        Result<Option<SubmittedGpuUpdate<Self::Frame>>, Error>,
    >;
}

/// The frames of a codestream that an engine decodes.
#[derive(Clone, Copy, Debug, PartialEq, Eq, Structural)]
pub enum FrameSelection {
    /// Every frame.
    All,
    /// The frames `first..end`, from a dependency-complete anchor through a target.
    Interval { first: usize, end: usize },
}

/// Opens validated codestreams as GPU-only frame submission sessions.
///
/// The first presentation of a session is the first one of the selected frames.
pub trait GpuSubmissionEngine {
    type Session: GpuSubmissionSession;

    fn open(
        &self,
        codestream: &[u8],
        request: &GpuOutputRequest,
        selection: FrameSelection,
    ) -> Result<PreparedGpuSession<Self::Session>, Error>;
}

/// Bounded ownership wrapper for one GPU-resident output.
#[derive(Debug)]
pub struct GpuFrameLease<F> {
    pub metadata: FrameMetadata,
    pub frame_output: F,
    /// The boundary of an intermediate image.
    pub progression: Option<FrameProgression>,
}

impl<F> GpuFrameLease<F> {
    pub fn output(&self) -> (output: &F)
        ensures
            *output == self.frame_output,
    {
        &self.frame_output
    }

    /// The image is the final one of its presentation.
    pub fn is_complete(&self) -> (r: bool)
        ensures
            r == (self.progression is None),
    {
        self.progression.is_none()
    }
}

/// A stream's timing is that of a still image or that of an animation.
pub open spec fn timing_declared(metadata: AnimationMetadata) -> bool {
    ||| metadata.timebase is None && metadata.loop_count is None && metadata.has_timecodes is None
    ||| metadata.timebase is Some && metadata.loop_count is Some && metadata.has_timecodes is Some
}

/// Why a stream's declaration is refused.
pub open spec fn stream_refusal(metadata: AnimationMetadata) -> Option<Error> {
    if metadata.width == 0 || metadata.height == 0 {
        Some(Error::EngineContract("stream extent must be non-empty"))
    } else if !timing_declared(metadata) {
        Some(
            Error::EngineContract(
                "animation timebase, loop count, and timecode flag must be present together",
            ),
        )
    } else if metadata.frame_count_hint == Some(0usize) {
        Some(Error::EngineContract("frame count hint cannot declare zero visible frames"))
    } else {
        None
    }
}

/// Refuses a stream whose declaration is inconsistent.
pub fn validate_stream_metadata(metadata: &AnimationMetadata) -> (r: Result<(), Error>)
    ensures
        match stream_refusal(*metadata) {
            Some(error) => r == Err::<(), Error>(error),
            None => r is Ok,
        },
{
    if metadata.width == 0 || metadata.height == 0 {
        return Err(Error::EngineContract("stream extent must be non-empty"));
    }
    let still = metadata.timebase.is_none() && metadata.loop_count.is_none()
        && metadata.has_timecodes.is_none();
    let animation = metadata.timebase.is_some() && metadata.loop_count.is_some()
        && metadata.has_timecodes.is_some();
    if !still && !animation {
        return Err(
            Error::EngineContract(
                "animation timebase, loop count, and timecode flag must be present together",
            ),
        );
    }
    match metadata.frame_count_hint {
        Some(hint) => {
            if hint == 0 {
                return Err(
                    Error::EngineContract("frame count hint cannot declare zero visible frames"),
                );
            }
        },
        None => {},
    }
    Ok(())
}

/// Why a coding mode is refused.
pub open spec fn profile_refusal(profile: DecodeProfile) -> Option<Error> {
    match profile {
        DecodeProfile::ModularLossless { bits_per_sample } => if bits_per_sample == 8
            || bits_per_sample == 16 {
            None
        } else {
            Some(
                Error::EngineContract("prototype Modular profile must use 8 or 16 bits per sample"),
            )
        },
        DecodeProfile::VarDct { .. } => None,
    }
}

/// Refuses a coding mode of unsupported precision.
pub fn validate_profile(profile: DecodeProfile) -> (r: Result<(), Error>)
    ensures
        match profile_refusal(profile) {
            Some(error) => r == Err::<(), Error>(error),
            None => r is Ok,
        },
{
    match profile {
        DecodeProfile::ModularLossless { bits_per_sample } => {
            if bits_per_sample == 8 || bits_per_sample == 16 {
                Ok(())
            } else {
                Err(
                    Error::EngineContract(
                        "prototype Modular profile must use 8 or 16 bits per sample",
                    ),
                )
            }
        },
        DecodeProfile::VarDct { .. } => Ok(()),
    }
}

/// Why what an engine prepared is refused.
pub open spec fn prepared_refusal(profile: DecodeProfile, metadata: AnimationMetadata) -> Option<
    Error,
> {
    match stream_refusal(metadata) {
        Some(error) => Some(error),
        None => profile_refusal(profile),
    }
}

/// A container reduced to its codestream.
#[derive(Debug)]
pub struct ParsedInput {
    pub codestream: Vec<u8>,
    /// Acceleration-index boxes in the container; a bare codestream has none.
    pub index_boxes: usize,
}

/// Why an input is not opened.
pub open spec fn decoder_refusal(input: ParsedInput) -> Option<Error> {
    if input.index_boxes > 1 {
        Some(Error::DuplicateAccelerationIndex)
    } else {
        None
    }
}

impl ParsedInput {
    /// Refuses an input with more than one acceleration index.
    pub fn accept(&self) -> (r: Result<(), Error>)
        ensures
            match decoder_refusal(*self) {
                Some(error) => r == Err::<(), Error>(error),
                None => r is Ok,
            },
    {
        if self.index_boxes > 1 {
            return Err(Error::DuplicateAccelerationIndex);
        }
        Ok(())
    }
}

/// What starting a decode over a prepared engine session returns: why the session is refused, or
/// a decode over it that has asked for nothing yet.
pub open spec fn session_started<S: GpuSubmissionSession>(
    prepared: PreparedGpuSession<S>,
    request: GpuOutputRequest,
    r: Result<GpuDecodeSession<S>, Error>,
) -> bool {
    match prepared_refusal(prepared.profile, prepared.metadata) {
        Some(error) => r == Err::<GpuDecodeSession<S>, Error>(error),
        None => r matches Ok(session) && session.wf() && session.spec_engine() == prepared.session
            && session.spec_view() == SessionView::fresh(
            request,
            prepared.profile,
            prepared.metadata,
        ),
    }
}

/// What opening a decode returns where the engine answered `opened`: its error, or what becomes
/// of the session that it prepared.
pub open spec fn session_answered<S: GpuSubmissionSession>(
    opened: Result<PreparedGpuSession<S>, Error>,
    request: GpuOutputRequest,
    r: Result<GpuDecodeSession<S>, Error>,
) -> bool {
    match opened {
        Ok(prepared) => session_started(prepared, request, r),
        Err(error) => r == Err::<GpuDecodeSession<S>, Error>(error),
    }
}

/// GPU-required JPEG XL decoder. There is no CPU constructor or fallback policy.
pub struct GpuDecoder<E: GpuSubmissionEngine> {
    shared: Arc<E>,
}

impl<E: GpuSubmissionEngine> GpuDecoder<E> {
    pub closed spec fn spec_engine(&self) -> E {
        *self.shared
    }

    pub fn new(engine: E) -> (decoder: Self)
        ensures
            decoder.spec_engine() == engine,
    {
        GpuDecoder { shared: Arc::new(engine) }
    }

    pub fn from_shared(engine: Arc<E>) -> (decoder: Self)
        ensures
            decoder.spec_engine() == *engine,
    {
        GpuDecoder { shared: engine }
    }

    pub fn engine(&self) -> (engine: &E)
        ensures
            *engine == self.spec_engine(),
    {
        &*self.shared
    }

    /// Another handle to the same engine.
    pub fn share(&self) -> (decoder: Self)
        ensures
            decoder.spec_engine() == self.spec_engine(),
    {
        GpuDecoder { shared: self.shared.clone() }
    }

    /// Opens a GPU-only decode session over all frames of a canonicalized container. The engine
    /// is asked for its codestream and this request, and its answer decides.
    pub fn open(&self, input: &ParsedInput, request: GpuOutputRequest) -> (r: Result<
        GpuDecodeSession<E::Session>,
        Error,
    >)
        ensures
            decoder_refusal(*input) matches Some(error) ==> r == Err::<
                GpuDecodeSession<E::Session>,
                Error,
            >(error),
            decoder_refusal(*input) is None ==> exists|
                bytes: &[u8],
                opened: Result<PreparedGpuSession<E::Session>, Error>,
            | #[trigger]
                call_ensures(
                    E::open,
                    (&self.spec_engine(), bytes, &request, FrameSelection::All),
                    opened,
                ) && bytes@ == input.codestream@ && session_answered(opened, request, r),
            r matches Ok(session) ==> {
                let view = session.spec_view();
                &&& session.wf()
                &&& view == SessionView::fresh(request, view.profile, view.stream)
                &&& prepared_refusal(view.profile, view.stream) is None
            },
    {
        match input.accept() {
            Ok(_) => {},
            Err(error) => {
                return Err(error);
            },
        }
        match self.engine().open(input.codestream.as_slice(), &request, FrameSelection::All) {
            Ok(prepared) => GpuDecodeSession::new(prepared, request),
            Err(error) => Err(error),
        }
    }
}

impl<E: GpuSubmissionEngine> Clone for GpuDecoder<E> {
    /// Another handle to the same engine.
    fn clone(&self) -> (decoder: Self)
        ensures
            decoder.spec_engine() == self.spec_engine(),
    {
        self.share()
    }
}

/// Why a frame is not the next one of its stream.
pub open spec fn frame_refusal(stream: AnimationMetadata, next: usize, frame: FrameMetadata) -> Option<
    Error,
> {
    if frame.index != next {
        Some(Error::UnexpectedFrameIndex { expected: next, actual: frame.index })
    } else if frame.duration.timebase != stream.timebase {
        Some(Error::FrameTimebaseMismatch { index: frame.index })
    } else if stream.timebase is None && frame.duration.ticks != 0 {
        Some(Error::FrameTimebaseMismatch { index: frame.index })
    } else if stream.timebase is None && (frame.index != 0 || !frame.is_last) {
        Some(
            Error::EngineContract("still-image metadata requires exactly one final visible frame"),
        )
    } else if next == usize::MAX {
        Some(Error::EngineContract("visible frame index overflow"))
    } else {
        match stream.frame_count_hint {
            Some(hint) => if next + 1 > hint || (frame.is_last && next + 1 != hint) {
                Some(Error::FrameCountMismatch { hint, actual: (next + 1) as usize })
            } else {
                None
            },
            None => None,
        }
    }
}

/// The metadata that earlier images of the pending presentation carried, but not this frame.
pub open spec fn metadata_changes(session: SessionView, frame: FrameMetadata) -> bool {
    session.last_progression matches Some((kept, _)) && frame@ != kept@
}

/// A frame with other metadata than earlier images of its presentation.
pub open spec fn metadata_changed() -> Error {
    Error::EngineContract("updates of one presentation changed its metadata")
}

/// Why a frame is not the final image of the next presentation.
pub open spec fn final_refusal(session: SessionView, frame: FrameMetadata) -> Option<Error> {
    if frame_refusal(session.stream, session.next_index, frame) is Some {
        frame_refusal(session.stream, session.next_index, frame)
    } else if metadata_changes(session, frame) {
        Some(metadata_changed())
    } else {
        None
    }
}

/// Whether two clocks are the same.
fn same_timebase(a: Option<Timebase>, b: Option<Timebase>) -> (r: bool)
    ensures
        r == (a == b),
{
    match (a, b) {
        (None, None) => true,
        (Some(a), Some(b)) => a == b,
        _ => false,
    }
}

/// Sequential GPU-only decode session with bounded returned frame ownership.
#[derive(Debug)]
pub struct GpuDecodeSession<S: GpuSubmissionSession> {
    engine: S,
    output_request: GpuOutputRequest,
    decode_profile: DecodeProfile,
    stream: AnimationMetadata,
    held: usize,
    pending: bool,
    next_index: usize,
    finished: bool,
    failed: bool,
    shared: bool,
    last_progression: Option<(FrameMetadata, FrameProgression)>,
}

/// The values of a [`GpuDecodeSession`] besides its engine.
pub ghost struct SessionView {
    pub request: GpuOutputRequest,
    pub profile: DecodeProfile,
    pub stream: AnimationMetadata,
    /// Presentations that the caller holds.
    pub held: int,
    /// A presentation is being decoded in a slot of its own.
    pub pending: bool,
    pub next_index: usize,
    pub finished: bool,
    pub failed: bool,
    /// The caller holds intermediate images of the pending presentation, in its slot.
    pub shared: bool,
    /// The last intermediate image of the pending presentation.
    pub last_progression: Option<(FrameMetadata, FrameProgression)>,
}

impl SessionView {
    /// A session that has been asked for nothing.
    pub open spec fn fresh(
        request: GpuOutputRequest,
        profile: DecodeProfile,
        stream: AnimationMetadata,
    ) -> SessionView {
        SessionView {
            request,
            profile,
            stream,
            held: 0,
            pending: false,
            next_index: 0,
            finished: false,
            failed: false,
            shared: false,
            last_progression: None,
        }
    }

    /// Slots in use.
    pub open spec fn in_flight(self) -> int {
        self.held + if self.pending {
            1int
        } else {
            0
        }
    }

    /// The session after a failure. Intermediate images that the caller holds keep their slot.
    pub open spec fn poisoned(self) -> SessionView {
        SessionView {
            held: self.held + if self.shared {
                1int
            } else {
                0
            },
            failed: true,
            pending: false,
            shared: false,
            last_progression: None,
            ..self
        }
    }

    /// The session after an intermediate image of its pending presentation.
    pub open spec fn refined(self, metadata: FrameMetadata, progression: FrameProgression) -> SessionView {
        SessionView { shared: true, last_progression: Some((metadata, progression)), ..self }
    }

    /// The session after the final image of its next presentation.
    pub open spec fn presented(self, is_last: bool) -> SessionView {
        SessionView {
            held: self.held + 1,
            pending: false,
            next_index: (self.next_index + 1) as usize,
            finished: is_last,
            shared: false,
            last_progression: None,
            ..self
        }
    }
}

impl<S: GpuSubmissionSession> GpuDecodeSession<S> {
    pub closed spec fn spec_view(&self) -> SessionView {
        SessionView {
            request: self.output_request,
            profile: self.decode_profile,
            stream: self.stream,
            held: self.held as int,
            pending: self.pending,
            next_index: self.next_index,
            finished: self.finished,
            failed: self.failed,
            shared: self.shared,
            last_progression: self.last_progression,
        }
    }

    pub closed spec fn spec_engine(&self) -> S {
        self.engine
    }

    /// No more slots are in use than were asked for, and intermediate images are in the slot of
    /// the pending presentation.
    pub open spec fn wf(&self) -> bool {
        &&& self.spec_view().in_flight() <= self.spec_view().request.max_in_flight
        &&& self.spec_view().shared ==> self.spec_view().pending
    }

    /// A session over what an engine prepared.
    pub fn new(prepared: PreparedGpuSession<S>, request: GpuOutputRequest) -> (r: Result<Self, Error>)
        ensures
            session_started(prepared, request, r),
    {
        match validate_stream_metadata(&prepared.metadata) {
            Ok(_) => {},
            Err(error) => {
                return Err(error);
            },
        }
        match validate_profile(prepared.profile) {
            Ok(_) => {},
            Err(error) => {
                return Err(error);
            },
        }
        Ok(
            GpuDecodeSession {
                engine: prepared.session,
                output_request: request,
                decode_profile: prepared.profile,
                stream: prepared.metadata,
                held: 0,
                pending: false,
                next_index: 0,
                finished: false,
                failed: false,
                shared: false,
                last_progression: None,
            },
        )
    }

    pub fn profile(&self) -> (profile: DecodeProfile)
        ensures
            profile == self.spec_view().profile,
    {
        self.decode_profile
    }

    pub fn metadata(&self) -> (metadata: &AnimationMetadata)
        ensures
            *metadata == self.spec_view().stream,
    {
        &self.stream
    }

    pub fn request(&self) -> (request: &GpuOutputRequest)
        ensures
            *request == self.spec_view().request,
    {
        &self.output_request
    }

    /// Concrete GPU submission state, for backend-specific diagnostics such as memory accounting.
    pub fn submission_session(&self) -> (session: &S)
        ensures
            *session == self.spec_engine(),
    {
        &self.engine
    }

    pub fn frames_submitted(&self) -> (frames: usize)
        ensures
            frames == self.spec_view().next_index,
    {
        self.next_index
    }

    pub fn in_flight(&self) -> (slots: usize)
        requires
            self.wf(),
        ensures
            slots == self.spec_view().in_flight(),
    {
        if self.pending {
            self.held + 1
        } else {
            self.held
        }
    }

    /// Presentations that the caller holds.
    pub fn held(&self) -> (held: usize)
        ensures
            held == self.spec_view().held,
    {
        self.held
    }

    /// A failure ended the session.
    pub fn is_failed(&self) -> (r: bool)
        ensures
            r == self.spec_view().failed,
    {
        self.failed
    }

    pub fn is_finished(&self) -> (r: bool)
        ensures
            r == self.spec_view().finished,
    {
        self.finished
    }

    /// The caller dropped the last image of a presentation that it held.
    pub fn release(&mut self)
        requires
            old(self).wf(),
            old(self).spec_view().held > 0,
        ensures
            final(self).wf(),
            final(self).spec_engine() == old(self).spec_engine(),
            final(self).spec_view() == (SessionView {
                held: old(self).spec_view().held - 1,
                ..old(self).spec_view()
            }),
    {
        self.held = self.held - 1;
    }

    /// The caller dropped the last intermediate image of the pending presentation that it held.
    pub fn release_intermediates(&mut self)
        requires
            old(self).wf(),
        ensures
            final(self).wf(),
            final(self).spec_engine() == old(self).spec_engine(),
            final(self).spec_view() == (SessionView { shared: false, ..old(self).spec_view() }),
    {
        self.shared = false;
    }

    /// Takes a slot for the next presentation, unless one is taken already.
    fn acquire(&mut self) -> (r: Result<(), Error>)
        requires
            old(self).wf(),
        ensures
            final(self).wf(),
            final(self).spec_engine() == old(self).spec_engine(),
            if old(self).spec_view().pending {
                r is Ok && final(self).spec_view() == old(self).spec_view()
            } else if old(self).spec_view().held >= old(self).spec_view().request.max_in_flight {
                r == Err::<(), Error>(
                    Error::Backpressure { limit: old(self).spec_view().request.max_in_flight },
                ) && final(self).spec_view() == old(self).spec_view()
            } else {
                r is Ok && final(self).spec_view() == (SessionView {
                    pending: true,
                    ..old(self).spec_view()
                })
            },
    {
        if self.pending {
            return Ok(());
        }
        if self.held >= self.output_request.max_in_flight {
            return Err(Error::Backpressure { limit: self.output_request.max_in_flight });
        }
        self.pending = true;
        Ok(())
    }

    /// Ends the session with a failure.
    fn fail(&mut self)
        requires
            old(self).wf(),
        ensures
            final(self).wf(),
            final(self).spec_engine() == old(self).spec_engine(),
            final(self).spec_view() == old(self).spec_view().poisoned(),
    {
        if self.shared {
            self.held = self.held + 1;
        }
        self.failed = true;
        self.pending = false;
        self.shared = false;
        self.last_progression = None;
    }

    /// Whether a frame is the next one of its stream.
    fn validate_frame_metadata(&self, frame: &FrameMetadata) -> (r: Result<(), Error>)
        ensures
            match frame_refusal(self.spec_view().stream, self.spec_view().next_index, *frame) {
                Some(error) => r == Err::<(), Error>(error),
                None => r is Ok,
            },
    {
        if frame.index != self.next_index {
            return Err(
                Error::UnexpectedFrameIndex { expected: self.next_index, actual: frame.index },
            );
        }
        if !same_timebase(frame.duration.timebase, self.stream.timebase) {
            return Err(Error::FrameTimebaseMismatch { index: frame.index });
        }
        if self.stream.timebase.is_none() && frame.duration.ticks != 0 {
            return Err(Error::FrameTimebaseMismatch { index: frame.index });
        }
        if self.stream.timebase.is_none() && (frame.index != 0 || !frame.is_last) {
            return Err(
                Error::EngineContract(
                    "still-image metadata requires exactly one final visible frame",
                ),
            );
        }
        if self.next_index == usize::MAX {
            return Err(Error::EngineContract("visible frame index overflow"));
        }
        let next: usize = self.next_index + 1;
        match self.stream.frame_count_hint {
            Some(hint) => {
                if next > hint || (frame.is_last && next != hint) {
                    return Err(Error::FrameCountMismatch { hint, actual: next });
                }
            },
            None => {},
        }
        Ok(())
    }

    /// Whether a frame has other metadata than earlier images of its presentation.
    fn changes_metadata(&self, frame: &FrameMetadata) -> (r: bool)
        ensures
            r == metadata_changes(self.spec_view(), *frame),
    {
        match &self.last_progression {
            Some((kept, _)) => !frame.same_as(kept),
            None => false,
        }
    }

    /// Takes the final image of the pending presentation. Anything but the next frame of the
    /// stream ends the session.
    pub fn finish_frame(&mut self, submitted: Option<SubmittedGpuFrame<S::Frame>>) -> (r: Result<
        Option<GpuFrameLease<S::Frame>>,
        Error,
    >)
        requires
            old(self).wf(),
            old(self).spec_view().pending,
        ensures
            final(self).wf(),
            final(self).spec_engine() == old(self).spec_engine(),
            frame_taken(old(self).spec_view(), submitted, final(self).spec_view(), r),
    {
        let frame = match submitted {
            Some(frame) => frame,
            None => {
                self.fail();
                return Err(Error::MissingFinalFrame);
            },
        };
        match self.validate_frame_metadata(&frame.metadata) {
            Ok(_) => {},
            Err(error) => {
                self.fail();
                return Err(error);
            },
        }
        if self.changes_metadata(&frame.metadata) {
            self.fail();
            return Err(Error::EngineContract("updates of one presentation changed its metadata"));
        }
        self.held = self.held + 1;
        self.pending = false;
        self.next_index = self.next_index + 1;
        self.finished = frame.metadata.is_last;
        self.shared = false;
        self.last_progression = None;
        Ok(
            Some(
                GpuFrameLease {
                    metadata: frame.metadata,
                    frame_output: frame.output,
                    progression: None,
                },
            ),
        )
    }

    /// Takes an intermediate image of the pending presentation, which keeps its slot.
    pub fn finish_intermediate(
        &mut self,
        frame: SubmittedGpuFrame<S::Frame>,
        progression: FrameProgression,
    ) -> (r: Result<GpuFrameLease<S::Frame>, Error>)
        requires
            old(self).wf(),
        ensures
            final(self).wf(),
            final(self).spec_engine() == old(self).spec_engine(),
            match intermediate_refusal(old(self).spec_view(), frame.metadata, progression) {
                Some(error) => r == Err::<GpuFrameLease<S::Frame>, Error>(error) && final(
                    self).spec_view() == old(self).spec_view(),
                None => r matches Ok(lease) && lease.metadata == frame.metadata
                    && lease.frame_output == frame.output && lease.progression == Some(progression)
                    && final(self).spec_view() == old(self).spec_view().refined(
                    frame.metadata,
                    progression,
                ),
            },
    {
        match self.validate_frame_metadata(&frame.metadata) {
            Ok(_) => {},
            Err(error) => {
                return Err(error);
            },
        }
        if !progression.valid() {
            return Err(Error::EngineContract("invalid intermediate physical boundary"));
        }
        match &self.last_progression {
            Some((_, previous)) => {
                if !progression.follows(*previous) {
                    return Err(Error::EngineContract("progressive image updates are out of order"));
                }
            },
            None => {},
        }
        if self.changes_metadata(&frame.metadata) {
            return Err(Error::EngineContract("updates of one presentation changed its metadata"));
        }
        if !self.pending {
            return Err(Error::EngineContract("intermediate update has no pending frame"));
        }
        self.shared = true;
        self.last_progression = Some((frame.metadata.duplicate(), progression));
        Ok(
            GpuFrameLease {
                metadata: frame.metadata,
                frame_output: frame.output,
                progression: Some(progression),
            },
        )
    }

    /// Takes one update of the pending presentation. A refused update ends the session.
    pub fn finish_update(&mut self, update: Result<Option<SubmittedGpuUpdate<S::Frame>>, Error>) -> (r:
        Result<Option<GpuFrameLease<S::Frame>>, Error>)
        requires
            old(self).wf(),
            old(self).spec_view().pending,
        ensures
            final(self).wf(),
            final(self).spec_engine() == old(self).spec_engine(),
            updated(old(self).spec_view(), update, final(self).spec_view(), r),
    {
        match update {
            Err(error) => {
                self.fail();
                Err(error)
            },
            Ok(None) => {
                self.fail();
                Err(Error::MissingFinalFrame)
            },
            Ok(Some(SubmittedGpuUpdate::Complete(frame))) => self.finish_frame(Some(frame)),
            Ok(Some(SubmittedGpuUpdate::Intermediate { frame, progression })) => {
                match self.finish_intermediate(frame, progression) {
                    Ok(lease) => Ok(Some(lease)),
                    Err(error) => {
                        self.fail();
                        Err(error)
                    },
                }
            },
        }
    }

    /// Synchronously submits/waits for the next GPU frame according to the engine contract.
    pub fn next_frame(&mut self) -> (r: Result<Option<GpuFrameLease<S::Frame>>, Error>)
        requires
            old(self).wf(),
        ensures
            final(self).wf(),
            frame_requested(old(self).spec_view(), final(self).spec_view(), r),
            idle(old(self).spec_view(), true) ==> final(self).spec_engine()
                == old(self).spec_engine(),
            !idle(old(self).spec_view(), true) ==> exists|
                e: &mut S,
                answer: Result<Option<SubmittedGpuFrame<S::Frame>>, Error>,
            |
                *e == old(self).spec_engine() && *final(e) == final(self).spec_engine()
                    && #[trigger] call_ensures(S::next_frame, (e,), answer) && frame_resolved(
                    SessionView { pending: true, ..old(self).spec_view() },
                    answer,
                    final(self).spec_view(),
                    r,
                ),
    {
        if self.failed {
            return Err(Error::SessionPoisoned);
        }
        if self.finished {
            return Ok(None);
        }
        if self.pending {
            return Err(Error::OperationInProgress);
        }
        match self.acquire() {
            Ok(_) => {},
            Err(error) => {
                return Err(error);
            },
        }
        match self.engine.next_frame() {
            Ok(submitted) => self.finish_frame(submitted),
            Err(error) => {
                self.fail();
                Err(error)
            },
        }
    }

    /// Polls GPU submission/completion without blocking.
    pub fn poll_next_frame(&mut self) -> (r: Progress<
        Result<Option<GpuFrameLease<S::Frame>>, Error>,
    >)
        requires
            old(self).wf(),
        ensures
            final(self).wf(),
            polled(old(self).spec_view(), final(self).spec_view(), r),
            idle(old(self).spec_view(), false) ==> final(self).spec_engine()
                == old(self).spec_engine(),
            !idle(old(self).spec_view(), false) ==> exists|
                e: &mut S,
                answer: Progress<Result<Option<SubmittedGpuFrame<S::Frame>>, Error>>,
            |
                *e == old(self).spec_engine() && *final(e) == final(self).spec_engine()
                    && #[trigger] call_ensures(S::poll_next_frame, (e,), answer) && frame_poll_resolved(
                    SessionView { pending: true, ..old(self).spec_view() },
                    answer,
                    final(self).spec_view(),
                    r,
                ),
    {
        if self.failed {
            return Progress::Ready(Err(Error::SessionPoisoned));
        }
        if self.finished {
            return Progress::Ready(Ok(None));
        }
        match self.acquire() {
            Ok(_) => {},
            Err(_) => {
                return Progress::Pending;
            },
        }
        match self.engine.poll_next_frame() {
            Progress::Pending => Progress::Pending,
            Progress::Ready(Ok(submitted)) => Progress::Ready(self.finish_frame(submitted)),
            Progress::Ready(Err(error)) => {
                self.fail();
                Progress::Ready(Err(error))
            },
        }
    }

    /// Returns the next validated intermediate image or final frame. All updates of one
    /// presentation share its metadata and frame slot. Engines may provide only final frames.
    pub fn next_update(&mut self) -> (r: Result<Option<GpuFrameLease<S::Frame>>, Error>)
        requires
            old(self).wf(),
        ensures
            final(self).wf(),
            update_requested(old(self).spec_view(), final(self).spec_view(), r),
            idle(old(self).spec_view(), false) ==> final(self).spec_engine()
                == old(self).spec_engine(),
            !idle(old(self).spec_view(), false) ==> exists|
                e: &mut S,
                answer: Result<Option<SubmittedGpuUpdate<S::Frame>>, Error>,
            |
                *e == old(self).spec_engine() && *final(e) == final(self).spec_engine()
                    && #[trigger] call_ensures(S::next_update, (e,), answer) && updated(
                    SessionView { pending: true, ..old(self).spec_view() },
                    answer,
                    final(self).spec_view(),
                    r,
                ),
    {
        if self.failed {
            return Err(Error::SessionPoisoned);
        }
        if self.finished {
            return Ok(None);
        }
        match self.acquire() {
            Ok(_) => {},
            Err(error) => {
                return Err(error);
            },
        }
        let update = self.engine.next_update();
        self.finish_update(update)
    }

    /// Polls one update without consuming its pending frame until the final image is validated.
    pub fn poll_next_update(&mut self) -> (r: Progress<
        Result<Option<GpuFrameLease<S::Frame>>, Error>,
    >)
        requires
            old(self).wf(),
        ensures
            final(self).wf(),
            update_polled(old(self).spec_view(), final(self).spec_view(), r),
            idle(old(self).spec_view(), false) ==> final(self).spec_engine()
                == old(self).spec_engine(),
            !idle(old(self).spec_view(), false) ==> exists|
                e: &mut S,
                answer: Progress<Result<Option<SubmittedGpuUpdate<S::Frame>>, Error>>,
            |
                *e == old(self).spec_engine() && *final(e) == final(self).spec_engine()
                    && #[trigger] call_ensures(S::poll_next_update, (e,), answer) && update_poll_resolved(
                    SessionView { pending: true, ..old(self).spec_view() },
                    answer,
                    final(self).spec_view(),
                    r,
                ),
    {
        if self.failed {
            return Progress::Ready(Err(Error::SessionPoisoned));
        }
        if self.finished {
            return Progress::Ready(Ok(None));
        }
        match self.acquire() {
            Ok(_) => {},
            Err(error) => {
                return Progress::Ready(Err(error));
            },
        }
        match self.engine.poll_next_update() {
            Progress::Pending => Progress::Pending,
            Progress::Ready(update) => Progress::Ready(self.finish_update(update)),
        }
    }

    /// The next frame as a pending operation.
    pub fn next_frame_async(&mut self) -> (operation: NextGpuFrame<'_, S>)
        ensures
            *operation.session == *old(self),
            *final(self) == *final(operation.session),
    {
        NextGpuFrame { session: self }
    }

    /// The next update as a pending operation.
    pub fn next_update_async(&mut self) -> (operation: NextGpuUpdate<'_, S>)
        ensures
            *operation.session == *old(self),
            *final(self) == *final(operation.session),
    {
        NextGpuUpdate { session: self }
    }
}

/// The next frame of a session, polled until it is ready.
pub struct NextGpuFrame<'session, S: GpuSubmissionSession> {
    pub session: &'session mut GpuDecodeSession<S>,
}

impl<'session, S: GpuSubmissionSession> NextGpuFrame<'session, S> {
    /// Polls the frame without blocking.
    pub fn poll(&mut self) -> (r: Progress<Result<Option<GpuFrameLease<S::Frame>>, Error>>)
        requires
            old(self).session.wf(),
        ensures
            final(self).session.wf(),
            polled(old(self).session.spec_view(), final(self).session.spec_view(), r),
            idle(old(self).session.spec_view(), false) ==> final(self).session.spec_engine()
                == old(self).session.spec_engine(),
            !idle(old(self).session.spec_view(), false) ==> exists|
                e: &mut S,
                answer: Progress<Result<Option<SubmittedGpuFrame<S::Frame>>, Error>>,
            |
                *e == old(self).session.spec_engine() && *final(e) == final(self).session.spec_engine()
                    && #[trigger] call_ensures(S::poll_next_frame, (e,), answer) && frame_poll_resolved(
                    SessionView { pending: true, ..old(self).session.spec_view() },
                    answer,
                    final(self).session.spec_view(),
                    r,
                ),
    {
        self.session.poll_next_frame()
    }
}

/// The next update of a session, polled until it is ready.
pub struct NextGpuUpdate<'session, S: GpuSubmissionSession> {
    pub session: &'session mut GpuDecodeSession<S>,
}

impl<'session, S: GpuSubmissionSession> NextGpuUpdate<'session, S> {
    /// Polls the update without blocking.
    pub fn poll(&mut self) -> (r: Progress<Result<Option<GpuFrameLease<S::Frame>>, Error>>)
        requires
            old(self).session.wf(),
        ensures
            final(self).session.wf(),
            update_polled(old(self).session.spec_view(), final(self).session.spec_view(), r),
            idle(old(self).session.spec_view(), false) ==> final(self).session.spec_engine()
                == old(self).session.spec_engine(),
            !idle(old(self).session.spec_view(), false) ==> exists|
                e: &mut S,
                answer: Progress<Result<Option<SubmittedGpuUpdate<S::Frame>>, Error>>,
            |
                *e == old(self).session.spec_engine() && *final(e) == final(self).session.spec_engine()
                    && #[trigger] call_ensures(S::poll_next_update, (e,), answer) && update_poll_resolved(
                    SessionView { pending: true, ..old(self).session.spec_view() },
                    answer,
                    final(self).session.spec_view(),
                    r,
                ),
    {
        self.session.poll_next_update()
    }
}

/// What a poll for an update does: it waits with its slot taken, or answers as a request does.
pub open spec fn update_polled<F>(
    before: SessionView,
    after: SessionView,
    r: Progress<Result<Option<GpuFrameLease<F>>, Error>>,
) -> bool {
    match r {
        Progress::Pending => !before.failed && !before.finished && after == (SessionView {
            pending: true,
            ..before
        }),
        Progress::Ready(r) => update_requested(before, after, r),
    }
}

/// Why an intermediate image is refused.
pub open spec fn intermediate_refusal(
    session: SessionView,
    frame: FrameMetadata,
    progression: FrameProgression,
) -> Option<Error> {
    if frame_refusal(session.stream, session.next_index, frame) is Some {
        frame_refusal(session.stream, session.next_index, frame)
    } else if !progression.is_valid() {
        Some(Error::EngineContract("invalid intermediate physical boundary"))
    } else if session.last_progression matches Some((_, previous)) && !progression.comes_after(
        previous,
    ) {
        Some(Error::EngineContract("progressive image updates are out of order"))
    } else if metadata_changes(session, frame) {
        Some(metadata_changed())
    } else if !session.pending {
        Some(Error::EngineContract("intermediate update has no pending frame"))
    } else {
        None
    }
}

/// What the final image of a pending presentation does to a session.
pub open spec fn frame_taken<F>(
    before: SessionView,
    submitted: Option<SubmittedGpuFrame<F>>,
    after: SessionView,
    r: Result<Option<GpuFrameLease<F>>, Error>,
) -> bool {
    match submitted {
        None => r == Err::<Option<GpuFrameLease<F>>, Error>(Error::MissingFinalFrame) && after
            == before.poisoned(),
        Some(frame) => match final_refusal(before, frame.metadata) {
            Some(error) => r == Err::<Option<GpuFrameLease<F>>, Error>(error) && after
                == before.poisoned(),
            None => r matches Ok(Some(lease)) && lease.metadata == frame.metadata
                && lease.frame_output == frame.output && lease.progression is None && after
                == before.presented(frame.metadata.is_last),
        },
    }
}

/// What an engine's answer to a request for a frame does to a session.
pub open spec fn frame_resolved<F>(
    before: SessionView,
    answer: Result<Option<SubmittedGpuFrame<F>>, Error>,
    after: SessionView,
    r: Result<Option<GpuFrameLease<F>>, Error>,
) -> bool {
    match answer {
        Err(error) => r == Err::<Option<GpuFrameLease<F>>, Error>(error) && after
            == before.poisoned(),
        Ok(submitted) => frame_taken(before, submitted, after, r),
    }
}

/// What an engine's answer to a poll for a frame does to a session.
pub open spec fn frame_poll_resolved<F>(
    before: SessionView,
    answer: Progress<Result<Option<SubmittedGpuFrame<F>>, Error>>,
    after: SessionView,
    r: Progress<Result<Option<GpuFrameLease<F>>, Error>>,
) -> bool {
    match answer {
        Progress::Pending => r is Pending && after == before,
        Progress::Ready(answer) => r matches Progress::Ready(r) && frame_resolved(
            before,
            answer,
            after,
            r,
        ),
    }
}

/// What an engine's answer to a poll for an update does to a session.
pub open spec fn update_poll_resolved<F>(
    before: SessionView,
    answer: Progress<Result<Option<SubmittedGpuUpdate<F>>, Error>>,
    after: SessionView,
    r: Progress<Result<Option<GpuFrameLease<F>>, Error>>,
) -> bool {
    match answer {
        Progress::Pending => r is Pending && after == before,
        Progress::Ready(answer) => r matches Progress::Ready(r) && updated(
            before,
            answer,
            after,
            r,
        ),
    }
}

/// What an engine's update does to a session.
pub open spec fn updated<F>(
    before: SessionView,
    update: Result<Option<SubmittedGpuUpdate<F>>, Error>,
    after: SessionView,
    r: Result<Option<GpuFrameLease<F>>, Error>,
) -> bool {
    match update {
        Err(error) => r == Err::<Option<GpuFrameLease<F>>, Error>(error) && after
            == before.poisoned(),
        Ok(None) => r == Err::<Option<GpuFrameLease<F>>, Error>(Error::MissingFinalFrame) && after
            == before.poisoned(),
        Ok(Some(SubmittedGpuUpdate::Complete(frame))) => frame_taken(
            before,
            Some(frame),
            after,
            r,
        ),
        Ok(Some(SubmittedGpuUpdate::Intermediate { frame, progression })) => match
            intermediate_refusal(before, frame.metadata, progression) {
            Some(error) => r == Err::<Option<GpuFrameLease<F>>, Error>(error) && after
                == before.poisoned(),
            None => r matches Ok(Some(lease)) && lease.metadata == frame.metadata
                && lease.frame_output == frame.output && lease.progression == Some(progression)
                && after == before.refined(frame.metadata, progression),
        },
    }
}

/// A request that is answered without the engine.
pub open spec fn idle(session: SessionView, exclusive: bool) -> bool {
    session.failed || session.finished || (exclusive && session.pending) || (!session.pending
        && session.held >= session.request.max_in_flight)
}

/// What a session in a slot of its own becomes, whatever its engine answers: the next frame of
/// the stream, or a failure.
pub open spec fn answered<F>(
    before: SessionView,
    after: SessionView,
    r: Result<Option<GpuFrameLease<F>>, Error>,
) -> bool {
    match r {
        Ok(Some(lease)) => {
            &&& lease.progression is None
            &&& final_refusal(before, lease.metadata) is None
            &&& after == before.presented(lease.metadata.is_last)
        },
        Ok(None) => false,
        Err(_) => after == before.poisoned(),
    }
}

/// What a request for a frame does.
pub open spec fn frame_requested<F>(
    before: SessionView,
    after: SessionView,
    r: Result<Option<GpuFrameLease<F>>, Error>,
) -> bool {
    if before.failed {
        r == Err::<Option<GpuFrameLease<F>>, Error>(Error::SessionPoisoned) && after == before
    } else if before.finished {
        r == Ok::<Option<GpuFrameLease<F>>, Error>(None) && after == before
    } else if before.pending {
        r == Err::<Option<GpuFrameLease<F>>, Error>(Error::OperationInProgress) && after == before
    } else if before.held >= before.request.max_in_flight {
        r == Err::<Option<GpuFrameLease<F>>, Error>(
            Error::Backpressure { limit: before.request.max_in_flight },
        ) && after == before
    } else {
        answered(SessionView { pending: true, ..before }, after, r)
    }
}

/// What a poll for a frame does.
pub open spec fn polled<F>(
    before: SessionView,
    after: SessionView,
    r: Progress<Result<Option<GpuFrameLease<F>>, Error>>,
) -> bool {
    if before.failed {
        r == Progress::Ready(Err::<Option<GpuFrameLease<F>>, Error>(Error::SessionPoisoned))
            && after == before
    } else if before.finished {
        r == Progress::Ready(Ok::<Option<GpuFrameLease<F>>, Error>(None)) && after == before
    } else if !before.pending && before.held >= before.request.max_in_flight {
        r is Pending && after == before
    } else {
        match r {
            Progress::Pending => after == (SessionView { pending: true, ..before }),
            Progress::Ready(r) => answered(SessionView { pending: true, ..before }, after, r),
        }
    }
}

/// What a request for an update does, whatever the engine answers: an intermediate image that
/// may come next, the next frame of the stream, or a failure.
pub open spec fn update_requested<F>(
    before: SessionView,
    after: SessionView,
    r: Result<Option<GpuFrameLease<F>>, Error>,
) -> bool {
    let pending = SessionView { pending: true, ..before };
    if before.failed {
        r == Err::<Option<GpuFrameLease<F>>, Error>(Error::SessionPoisoned) && after == before
    } else if before.finished {
        r == Ok::<Option<GpuFrameLease<F>>, Error>(None) && after == before
    } else if !before.pending && before.held >= before.request.max_in_flight {
        r == Err::<Option<GpuFrameLease<F>>, Error>(
            Error::Backpressure { limit: before.request.max_in_flight },
        ) && after == before
    } else {
        match r {
            Ok(Some(lease)) => match lease.progression {
                Some(progression) => {
                    &&& intermediate_refusal(pending, lease.metadata, progression) is None
                    &&& after == pending.refined(lease.metadata, progression)
                },
                None => {
                    &&& final_refusal(pending, lease.metadata) is None
                    &&& after == pending.presented(lease.metadata.is_last)
                },
            },
            Ok(None) => false,
            Err(_) => after == pending.poisoned(),
        }
    }
}

/// A session that failed answers every request with the same refusal and stays as it is.
pub proof fn law_poisoned_stays_poisoned<F>(
    before: SessionView,
    after: SessionView,
    r: Result<Option<GpuFrameLease<F>>, Error>,
)
    requires
        before.failed,
        frame_requested(before, after, r) || update_requested(before, after, r),
    ensures
        after == before,
        r == Err::<Option<GpuFrameLease<F>>, Error>(Error::SessionPoisoned),
{
}

/// Only the final image of a presentation advances the stream, by one frame; an intermediate
/// image keeps presentation and slot.
pub proof fn law_only_final_images_advance<F>(
    before: SessionView,
    after: SessionView,
    r: Result<Option<GpuFrameLease<F>>, Error>,
)
    requires
        update_requested(before, after, r),
    ensures
        match r {
            Ok(Some(lease)) => {
                &&& lease.metadata.index == before.next_index
                &&& lease.progression is None ==> after.next_index == before.next_index + 1
                    && after.finished == lease.metadata.is_last
                &&& lease.progression is Some ==> after.next_index == before.next_index
                    && after.finished == before.finished && after.pending
            },
            _ => after.next_index == before.next_index,
        },
{
}

/// The boundary of a kept image.
pub open spec fn progression_of(kept: Option<(FrameMetadata, FrameProgression)>) -> Option<
    FrameProgression,
> {
    match kept {
        Some((_, progression)) => Some(progression),
        None => None,
    }
}

/// All updates of one presentation share its metadata and its slot: each carries the metadata of
/// the image before it, which the session keeps until the final image.
pub proof fn law_updates_share_presentation<F>(
    before: SessionView,
    after: SessionView,
    r: Result<Option<GpuFrameLease<F>>, Error>,
)
    requires
        update_requested(before, after, r),
        r is Ok,
        !before.finished,
    ensures
        r matches Ok(Some(lease)) && {
            &&& before.last_progression matches Some((kept, _)) ==> lease.metadata@ == kept@
            &&& lease.metadata.index == before.next_index
            &&& lease.metadata.duration.timebase == before.stream.timebase
            &&& before.pending ==> after.in_flight() == before.in_flight()
            &&& lease.progression matches Some(progression) ==> after.last_progression == Some(
                (lease.metadata, progression),
            )
            &&& lease.progression is None ==> after.last_progression is None
        },
{
}

/// A session never returns more presentations than were declared, and finishes exactly with the
/// last of them.
pub proof fn law_declared_count<F>(
    before: SessionView,
    after: SessionView,
    r: Result<Option<GpuFrameLease<F>>, Error>,
    hint: usize,
)
    requires
        before.stream.frame_count_hint == Some(hint),
        before.next_index <= hint,
        before.finished ==> before.next_index == hint,
        update_requested(before, after, r),
    ensures
        after.next_index <= hint,
        after.finished ==> after.next_index == hint,
{
}

/// A stream is declared with an extent, with all of its clock or none of it, and not without a
/// frame.
pub proof fn law_stream_declared(metadata: &AnimationMetadata, r: Result<(), Error>)
    requires
        call_ensures(validate_stream_metadata, (metadata,), r),
    ensures
        r is Ok <==> {
            &&& metadata.width > 0 && metadata.height > 0
            &&& metadata.timebase is Some <==> metadata.loop_count is Some
            &&& metadata.timebase is Some <==> metadata.has_timecodes is Some
            &&& metadata.frame_count_hint matches Some(frames) ==> frames > 0
        },
{
}

/// A lossless profile has eight or sixteen bits, and a lossy one any number.
pub proof fn law_profile_declared(profile: DecodeProfile, r: Result<(), Error>)
    requires
        call_ensures(validate_profile, (profile,), r),
    ensures
        r is Ok <==> (profile matches DecodeProfile::ModularLossless { bits_per_sample }
            ==> bits_per_sample == 8 || bits_per_sample == 16),
{
}

/// The final image of a presentation is the next one in order, on the stream's clock. A stream
/// without a clock has one image, which is its last and does not last. A declared count is reached
/// with the last image and not exceeded. The image takes over the slot of its presentation, so that
/// as many slots are in use as before; a refused one leaves no more in use.
pub proof fn law_final_image<F>(
    before: SessionView,
    submitted: Option<SubmittedGpuFrame<F>>,
    after: SessionView,
    r: Result<Option<GpuFrameLease<F>>, Error>,
)
    requires
        before.pending,
        before.held >= 0,
        frame_taken(before, submitted, after, r),
    ensures
        r is Ok ==> submitted is Some,
        r is Ok ==> {
            let frame = submitted->0.metadata;
            &&& frame.index == before.next_index
            &&& frame.duration.timebase == before.stream.timebase
            &&& before.stream.timebase is None ==> frame.index == 0 && frame.is_last
                && frame.duration.ticks == 0
            &&& before.stream.frame_count_hint matches Some(count) ==> frame.index < count && (
            frame.is_last ==> frame.index + 1 == count)
            &&& after.next_index == before.next_index + 1
            &&& after.finished == frame.is_last
            &&& after.held == before.held + 1
            &&& !after.pending && !after.shared
            &&& after.in_flight() == before.in_flight()
        },
        r is Err ==> after.failed && !after.pending && after.next_index == before.next_index,
        r is Err ==> after.in_flight() <= before.in_flight(),
{
}

/// An intermediate image belongs to the pending presentation, at a real boundary: some passes of a
/// frame are missing, or an LF level is one of four. Behind an earlier image it repeats its metadata,
/// lies in no earlier frame and has no less detail; in the same frame more of the same passes are
/// complete.
pub proof fn law_intermediate_image(
    session: SessionView,
    frame: FrameMetadata,
    progression: FrameProgression,
)
    requires
        intermediate_refusal(session, frame, progression) is None,
    ensures
        session.pending,
        frame.index == session.next_index,
        progression matches FrameProgression::Coefficients { completed_passes, total_passes, .. }
            ==> completed_passes < total_passes,
        progression matches FrameProgression::LowFrequency { level, .. } ==> 1 <= level <= 4,
        session.last_progression matches Some((kept, previous)) ==> {
            &&& frame.index == kept.index
            &&& progression.frame() >= previous.frame()
            &&& progression.divisor() <= previous.divisor()
            &&& progression.frame() == previous.frame() ==> {
                &&& progression matches FrameProgression::Coefficients {
                    completed_passes: more,
                    total_passes: all,
                    ..
                }
                &&& previous matches FrameProgression::Coefficients {
                    completed_passes: fewer,
                    total_passes: total,
                    ..
                }
                &&& fewer < more
                &&& all == total
            }
        },
{
    if let Some((kept, previous)) = session.last_progression {
        assert(frame@ == kept@);
        assert(frame@.index == kept@.index);
    }
}

} // verus!
