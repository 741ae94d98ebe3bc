//! One-target seeking through the ordinary validated session and its ownership contracts.

use crate::error::Error;
use crate::session::update::FrameProgression;
use crate::session::{
    decoder_refusal, final_refusal, intermediate_refusal, prepared_refusal, progression_of,
    FrameMetadata, FrameSelection, GpuDecodeSession, GpuDecoder, GpuFrameLease, GpuOutputRequest,
    GpuSubmissionEngine, GpuSubmissionSession, ParsedInput, PreparedGpuSession, Progress,
    SessionView, SubmittedGpuFrame, SubmittedGpuUpdate,
};
use vstd::prelude::*;

verus! {

/// The presentations to decode for one target, from its latest complete anchor.
#[derive(Debug)]
pub struct FrameSeekPlan {
    frames: FrameSelection,
    preroll: usize,
    requested: FrameMetadata,
}

impl FrameSeekPlan {
    pub closed spec fn spec_preroll(&self) -> usize {
        self.preroll
    }

    pub closed spec fn spec_target(&self) -> FrameMetadata {
        self.requested
    }

    pub closed spec fn spec_selection(&self) -> FrameSelection {
        self.frames
    }

    /// A plan that decodes the selected frames, of which `preroll` presentations come ahead of its
    /// target.
    pub fn new(selection: FrameSelection, preroll: usize, target: FrameMetadata) -> (plan: Self)
        ensures
            plan.spec_selection() == selection,
            plan.spec_preroll() == preroll,
            plan.spec_target() == target,
    {
        FrameSeekPlan { frames: selection, preroll, requested: target }
    }

    /// The frames from the latest complete anchor through the target.
    pub fn selection(&self) -> (selection: FrameSelection)
        ensures
            selection == self.spec_selection(),
    {
        self.frames
    }

    /// Presentations that are decoded and dropped.
    pub fn preroll_presentations(&self) -> (preroll: usize)
        ensures
            preroll == self.spec_preroll(),
    {
        self.preroll
    }

    /// Stream identity and timing of the requested presentation.
    pub fn target(&self) -> (target: &FrameMetadata)
        ensures
            *target == self.spec_target(),
    {
        &self.requested
    }
}

/// Decodes and drops the bounded preroll, then exposes only the requested presentation.
/// Returned metadata keeps the original index, clock, timecode and stream finality. `None`
/// after that presentation ends this seek operation; it does not mark a nonfinal frame as final.
pub struct GpuSeekSession<S: GpuSubmissionSession> {
    inner: Option<GpuDecodeSession<S>>,
    seek_plan: FrameSeekPlan,
    skipped: usize,
    submitted: usize,
}

/// The values of a [`GpuSeekSession`] besides its engine.
pub ghost struct SeekView {
    /// The decode session, until the target is complete.
    pub inner: Option<SessionView>,
    /// The frames that the engine was opened with.
    pub selection: FrameSelection,
    pub preroll: usize,
    pub target: FrameMetadata,
    /// Presentations decoded and dropped so far.
    pub skipped: usize,
    /// Presentations decoded when the target was complete.
    pub submitted: usize,
}

impl SeekView {
    /// Nothing but the target is ever held, and the target follows its whole preroll.
    pub open spec fn wf(self) -> bool {
        &&& self.skipped <= self.preroll
        &&& match self.inner {
            Some(session) => {
                &&& session.next_index == self.skipped
                &&& session.failed || session.held == 0
                &&& session.shared ==> session.pending
                &&& session.in_flight() <= session.request.max_in_flight
            },
            None => self.skipped == self.preroll && self.submitted == self.preroll + 1,
        }
    }
}

/// What becomes of a seek with a decoded image of its target.
pub open spec fn target_reached<F>(
    before: SeekView,
    frame: Option<GpuFrameLease<F>>,
    after: SeekView,
    r: Result<Option<GpuFrameLease<F>>, Error>,
) -> bool {
    match (frame, before.inner) {
        (Some(frame), Some(session)) => {
            &&& r matches Ok(Some(lease)) && lease.metadata == before.target && lease.frame_output
                == frame.frame_output && lease.progression == frame.progression
            &&& if frame.progression is None {
                after == (SeekView { inner: None, submitted: session.next_index, ..before })
            } else {
                after == before
            }
        },
        _ => r == Err::<Option<GpuFrameLease<F>>, Error>(Error::MissingFinalFrame) && after
            == before,
    }
}

/// What a request comes to, whatever the engine answers: the target with its own identity, or an
/// error that leaves the rest of the preroll to be decoded.
pub open spec fn seek_outcome<F>(
    before: SeekView,
    updates: bool,
    after: SeekView,
    r: Result<Option<GpuFrameLease<F>>, Error>,
) -> bool {
    &&& after.selection == before.selection
    &&& after.preroll == before.preroll
    &&& after.target == before.target
    &&& match before.inner {
        None => after == before && r == Ok::<Option<GpuFrameLease<F>>, Error>(None),
        Some(session) => match r {
            Ok(Some(lease)) => {
                &&& lease.metadata == before.target
                &&& lease.progression is Some ==> updates
                &&& after.skipped == before.preroll
                &&& !session.failed
                &&& !session.finished
                &&& lease.progression is None <==> after.inner is None
                &&& lease.progression is None ==> after.submitted == before.preroll + 1
                &&& lease.progression matches Some(progression) ==> {
                    &&& progression.is_valid()
                    &&& after.inner matches Some(now) && now.pending && !now.failed
                        && !now.finished && progression_of(now.last_progression) == Some(
                        progression,
                    )
                }
            },
            Ok(None) => false,
            Err(error) => {
                &&& before.skipped <= after.skipped
                &&& after.inner is Some
                &&& session.failed ==> error == Error::SessionPoisoned && after == before
                &&& !session.failed && session.finished ==> error == Error::MissingFinalFrame
                    && after == before
            },
        },
    }
}

/// The decode session could be asked for a frame, but has no slot at all.
pub open spec fn slotless(session: SessionView) -> bool {
    !session.failed && !session.finished && !session.pending && session.request.max_in_flight == 0
}

/// What a request does. A presentation that is being polled, and a session without a slot, refuse
/// it before the engine is asked.
pub open spec fn sought<F>(
    before: SeekView,
    updates: bool,
    after: SeekView,
    r: Result<Option<GpuFrameLease<F>>, Error>,
) -> bool {
    &&& seek_outcome(before, updates, after, r)
    &&& match before.inner {
        None => true,
        Some(session) => {
            &&& !session.failed && !session.finished && session.pending && (before.skipped
                < before.preroll || !updates) ==> r == Err::<Option<GpuFrameLease<F>>, Error>(
                Error::OperationInProgress,
            ) && after == before
            &&& slotless(session) ==> r == Err::<Option<GpuFrameLease<F>>, Error>(
                Error::Backpressure { limit: 0 },
            ) && after == before
        },
    }
}

/// What an engine may answer: the engine before, the engine after, and its answer.
pub type Answers<S, A> = spec_fn(S, S, A) -> bool;

/// An answer to a request for a frame.
pub type FrameAnswer<F> = Result<Option<SubmittedGpuFrame<F>>, Error>;

/// An answer to a request for an update.
pub type UpdateAnswer<F> = Result<Option<SubmittedGpuUpdate<F>>, Error>;

/// The session after a presentation that was decoded and dropped.
pub open spec fn skipped_one(session: SessionView) -> SessionView {
    SessionView {
        next_index: (session.next_index + 1) as usize,
        last_progression: None,
        ..session
    }
}

/// The next frame of a stream.
pub open spec fn frame_fits<F>(session: SessionView, answer: FrameAnswer<F>) -> bool {
    answer matches Ok(Some(frame)) && final_refusal(session, frame.metadata) is None
}

/// The next frame of a stream, and not its last.
pub open spec fn preroll_fits<F>(session: SessionView, answer: FrameAnswer<F>) -> bool {
    frame_fits(session, answer) && (answer matches Ok(Some(frame)) && !frame.metadata.is_last)
}

/// The next image of a stream.
pub open spec fn update_fits<F>(session: SessionView, answer: UpdateAnswer<F>) -> bool {
    match answer {
        Ok(Some(SubmittedGpuUpdate::Complete(frame))) => final_refusal(
            session,
            frame.metadata,
        ) is None,
        Ok(Some(SubmittedGpuUpdate::Intermediate { frame, progression })) => intermediate_refusal(
            SessionView { pending: true, ..session },
            frame.metadata,
            progression,
        ) is None,
        _ => false,
    }
}

/// Requests for `n` frames are answered with the next frames of the stream, and one more request
/// with its target.
pub open spec fn delivers<S: GpuSubmissionSession>(
    frames: Answers<S, FrameAnswer<S::Frame>>,
    updates: Answers<S, UpdateAnswer<S::Frame>>,
    wants_updates: bool,
    engine: S,
    session: SessionView,
    n: int,
) -> bool
    decreases n,
{
    if n <= 0 {
        if wants_updates {
            forall|after: S, answer: UpdateAnswer<S::Frame>| #[trigger]
                updates(engine, after, answer) ==> update_fits(session, answer)
        } else {
            forall|after: S, answer: FrameAnswer<S::Frame>| #[trigger]
                frames(engine, after, answer) ==> frame_fits(session, answer)
        }
    } else {
        forall|after: S, answer: FrameAnswer<S::Frame>| #[trigger]
            frames(engine, after, answer) ==> preroll_fits(session, answer) && delivers(
                frames,
                updates,
                wants_updates,
                after,
                skipped_one(session),
                n - 1,
            )
    }
}

/// The session in front of a request, behind `skipped` presentations: the one that the seek
/// started with, or what skipping left of it.
pub open spec fn reached(before: SeekView, skipped: usize) -> SessionView {
    let first = before.inner->0;
    if skipped == before.skipped {
        first
    } else {
        SessionView {
            pending: false,
            next_index: skipped,
            shared: false,
            last_progression: None,
            ..first
        }
    }
}

/// The session while the engine is asked.
pub open spec fn asking(before: SeekView, skipped: usize) -> SessionView {
    SessionView { pending: true, ..reached(before, skipped) }
}

/// A request that reaches the engine.
pub open spec fn asks(before: SeekView, updates: bool, polls: bool) -> bool {
    before.inner matches Some(session) && !session.failed && !session.finished && !slotless(
        session,
    ) && (polls || !session.pending || (updates && before.skipped == before.preroll))
}

/// An accepted presentation of the preroll, `skipped` with it, is the last one of its stream.
pub open spec fn is_last_preroll<F>(before: SeekView, skipped: usize, answer: FrameAnswer<F>) -> bool {
    &&& before.skipped < skipped <= before.preroll
    &&& answer matches Ok(Some(frame)) && frame.metadata.is_last && final_refusal(
        asking(before, (skipped - 1) as usize),
        frame.metadata,
    ) is None
}

/// The stream ended with a presentation of the preroll.
pub open spec fn ended_early<F>(
    before: SeekView,
    answer: FrameAnswer<F>,
    after: SeekView,
    r: Result<Option<GpuFrameLease<F>>, Error>,
) -> bool {
    &&& is_last_preroll(before, after.skipped, answer)
    &&& r == Err::<Option<GpuFrameLease<F>>, Error>(Error::MissingFinalFrame)
    &&& after == (SeekView {
        inner: Some(SessionView { finished: true, ..reached(before, after.skipped) }),
        skipped: after.skipped,
        ..before
    })
}

/// An answer ended the session.
pub open spec fn answered_badly<F>(
    before: SeekView,
    error: Error,
    after: SeekView,
    r: Result<Option<GpuFrameLease<F>>, Error>,
) -> bool {
    &&& r == Err::<Option<GpuFrameLease<F>>, Error>(error)
    &&& after == (SeekView {
        inner: Some(asking(before, after.skipped).poisoned()),
        skipped: after.skipped,
        ..before
    })
}

/// Why an answer to a request for a frame is refused.
pub open spec fn frame_failure<F>(session: SessionView, answer: FrameAnswer<F>) -> Option<Error> {
    match answer {
        Err(error) => Some(error),
        Ok(None) => Some(Error::MissingFinalFrame),
        Ok(Some(frame)) => final_refusal(session, frame.metadata),
    }
}

/// Why an answer to a request for an update is refused.
pub open spec fn update_failure<F>(session: SessionView, answer: UpdateAnswer<F>) -> Option<Error> {
    match answer {
        Err(error) => Some(error),
        Ok(None) => Some(Error::MissingFinalFrame),
        Ok(Some(SubmittedGpuUpdate::Complete(frame))) => final_refusal(session, frame.metadata),
        Ok(Some(SubmittedGpuUpdate::Intermediate { frame, progression })) => intermediate_refusal(
            session,
            frame.metadata,
            progression,
        ),
    }
}

/// The final image of the target: the engine's frame behind the preroll, under the identity of
/// the target. It ends the seek.
pub open spec fn completed_with<F>(
    before: SeekView,
    frame: SubmittedGpuFrame<F>,
    after: SeekView,
    r: Result<Option<GpuFrameLease<F>>, Error>,
) -> bool {
    &&& frame.metadata.index == before.preroll
    &&& r matches Ok(Some(lease)) && lease.metadata == before.target && lease.frame_output
        == frame.output && lease.progression is None
    &&& after == (SeekView {
        inner: None,
        skipped: before.preroll,
        submitted: (before.preroll + 1) as usize,
        ..before
    })
}

/// An intermediate image of the target: the engine's image behind the preroll, under the identity
/// of the target.
pub open spec fn refined_with<F>(
    before: SeekView,
    frame: SubmittedGpuFrame<F>,
    progression: FrameProgression,
    after: SeekView,
    r: Result<Option<GpuFrameLease<F>>, Error>,
) -> bool {
    &&& frame.metadata.index == before.preroll
    &&& r matches Ok(Some(lease)) && lease.metadata == before.target && lease.frame_output
        == frame.output && lease.progression == Some(progression)
    &&& after == (SeekView {
        inner: Some(asking(before, before.preroll).refined(frame.metadata, progression)),
        skipped: before.preroll,
        ..before
    })
}

/// What the last answer to a request for a frame makes of a seek inside its preroll: it is refused,
/// or it ends the stream.
pub open spec fn preroll_answered<F>(
    before: SeekView,
    answer: FrameAnswer<F>,
    after: SeekView,
    r: Result<Option<GpuFrameLease<F>>, Error>,
) -> bool {
    ||| ended_early(before, answer, after, r)
    ||| before.skipped <= after.skipped < before.preroll && (frame_failure(
        asking(before, after.skipped),
        answer,
    ) matches Some(error) && answered_badly(before, error, after, r))
}

/// What the last answer to a request for a frame makes of a seek: the end of the stream or a
/// refusal, inside the preroll or at the target, or the target.
pub open spec fn frame_answered<F>(
    before: SeekView,
    answer: FrameAnswer<F>,
    after: SeekView,
    r: Result<Option<GpuFrameLease<F>>, Error>,
) -> bool {
    ||| preroll_answered(before, answer, after, r)
    ||| after.skipped == before.preroll && match frame_failure(
        asking(before, before.preroll),
        answer,
    ) {
        Some(error) => answered_badly(before, error, after, r),
        None => answer matches Ok(Some(frame)) && completed_with(before, frame, after, r),
    }
}

/// What the answer to the request for an update of the target makes of a seek.
pub open spec fn update_answered<F>(
    before: SeekView,
    answer: UpdateAnswer<F>,
    after: SeekView,
    r: Result<Option<GpuFrameLease<F>>, Error>,
) -> bool {
    &&& after.skipped == before.preroll
    &&& match update_failure(asking(before, before.preroll), answer) {
        Some(error) => answered_badly(before, error, after, r),
        None => match answer {
            Ok(Some(SubmittedGpuUpdate::Complete(frame))) => completed_with(
                before,
                frame,
                after,
                r,
            ),
            Ok(Some(SubmittedGpuUpdate::Intermediate { frame, progression })) => refined_with(
                before,
                frame,
                progression,
                after,
                r,
            ),
            _ => false,
        },
    }
}

/// The seek waits where the engine was asked.
pub open spec fn waits(before: SeekView, after: SeekView) -> bool {
    &&& before.skipped <= after.skipped <= before.preroll
    &&& after == (SeekView {
        inner: Some(asking(before, after.skipped)),
        skipped: after.skipped,
        ..before
    })
}

/// What the last answer to a poll for a frame makes of a seek inside its preroll.
pub open spec fn preroll_poll_answered<F>(
    before: SeekView,
    answer: Progress<FrameAnswer<F>>,
    after: SeekView,
    r: Progress<Result<Option<GpuFrameLease<F>>, Error>>,
) -> bool {
    match answer {
        Progress::Pending => r is Pending && after.skipped < before.preroll && waits(before, after),
        Progress::Ready(answer) => r matches Progress::Ready(r) && preroll_answered(
            before,
            answer,
            after,
            r,
        ),
    }
}

/// What the last answer to a poll for a frame makes of a seek.
pub open spec fn frame_poll_answered<F>(
    before: SeekView,
    answer: Progress<FrameAnswer<F>>,
    after: SeekView,
    r: Progress<Result<Option<GpuFrameLease<F>>, Error>>,
) -> bool {
    match answer {
        Progress::Pending => r is Pending && waits(before, after),
        Progress::Ready(answer) => r matches Progress::Ready(r) && frame_answered(
            before,
            answer,
            after,
            r,
        ),
    }
}

/// What the answer to the poll for an update of the target makes of a seek.
pub open spec fn update_poll_answered<F>(
    before: SeekView,
    answer: Progress<UpdateAnswer<F>>,
    after: SeekView,
    r: Progress<Result<Option<GpuFrameLease<F>>, Error>>,
) -> bool {
    match answer {
        Progress::Pending => r is Pending && after.skipped == before.preroll && waits(
            before,
            after,
        ),
        Progress::Ready(answer) => r matches Progress::Ready(r) && update_answered(
            before,
            answer,
            after,
            r,
        ),
    }
}

/// A seek that could go on, over an engine that delivers its preroll and its target.
pub open spec fn served<S: GpuSubmissionSession>(
    seek: GpuSeekSession<S>,
    frames: Answers<S, FrameAnswer<S::Frame>>,
    updates: Answers<S, UpdateAnswer<S::Frame>>,
    wants_updates: bool,
) -> bool {
    match (seek.spec_inner(), seek.spec_view().inner) {
        (Some(inner), Some(session)) => {
            &&& !session.failed && !session.finished && !session.pending
            &&& session.request.max_in_flight > 0
            &&& delivers(
                frames,
                updates,
                wants_updates,
                inner.spec_engine(),
                session,
                seek.spec_view().preroll - seek.spec_view().skipped,
            )
        },
        _ => false,
    }
}

impl<S: GpuSubmissionSession> GpuSeekSession<S> {
    pub closed spec fn spec_view(&self) -> SeekView {
        SeekView {
            inner: match self.inner {
                Some(session) => Some(session.spec_view()),
                None => None,
            },
            selection: self.seek_plan.spec_selection(),
            preroll: self.seek_plan.spec_preroll(),
            target: self.seek_plan.spec_target(),
            skipped: self.skipped,
            submitted: self.submitted,
        }
    }

    pub closed spec fn spec_inner(&self) -> Option<GpuDecodeSession<S>> {
        self.inner
    }

    pub open spec fn wf(&self) -> bool {
        self.spec_view().wf()
    }

    /// A seek owns a decode session exactly while its target is not complete.
    pub proof fn law_session_while_active(&self)
        ensures
            match self.spec_inner() {
                Some(inner) => self.spec_view().inner == Some(inner.spec_view()),
                None => self.spec_view().inner is None,
            },
    {
    }

    /// Starts a seek over a fresh decode session.
    pub fn new(inner: GpuDecodeSession<S>, plan: FrameSeekPlan) -> (seek: Self)
        requires
            inner.wf(),
            inner.spec_view().next_index == 0,
            inner.spec_view().held == 0,
            !inner.spec_view().pending,
        ensures
            seek.wf(),
            seek.spec_inner() == Some(inner),
            seek.spec_view() == (SeekView {
                inner: Some(inner.spec_view()),
                selection: plan.spec_selection(),
                preroll: plan.spec_preroll(),
                target: plan.spec_target(),
                skipped: 0,
                submitted: 0,
            }),
    {
        GpuSeekSession { inner: Some(inner), seek_plan: plan, skipped: 0, submitted: 0 }
    }

    pub fn plan(&self) -> (plan: &FrameSeekPlan)
        ensures
            plan.spec_selection() == self.spec_view().selection,
            plan.spec_preroll() == self.spec_view().preroll,
            plan.spec_target() == self.spec_view().target,
    {
        &self.seek_plan
    }

    /// Presentations decoded for this seek.
    pub fn frames_submitted(&self) -> (frames: usize)
        requires
            self.wf(),
        ensures
            frames == match self.spec_view().inner {
                Some(session) => session.next_index,
                None => self.spec_view().submitted,
            },
    {
        match &self.inner {
            Some(inner) => inner.frames_submitted(),
            None => self.submitted,
        }
    }

    /// Existing backend diagnostics while this seek still owns an active decode session.
    pub fn submission_session(&self) -> (session: Option<&S>)
        ensures
            match self.spec_inner() {
                Some(inner) => session matches Some(session) && *session == inner.spec_engine(),
                None => session is None,
            },
            session is Some <==> self.spec_view().inner is Some,
    {
        match &self.inner {
            Some(inner) => Some(inner.submission_session()),
            None => None,
        }
    }

    /// Gives a decoded image of the target its stream identity, and ends the seek with the final
    /// one: references and temporary input are unnecessary once it validates.
    pub fn complete(&mut self, frame: Option<GpuFrameLease<S::Frame>>) -> (r: Result<
        Option<GpuFrameLease<S::Frame>>,
        Error,
    >)
        ensures
            target_reached(old(self).spec_view(), frame, final(self).spec_view(), r),
            final(self).spec_inner() is None || final(self).spec_inner() == old(self).spec_inner(),
    {
        let frame = match frame {
            Some(frame) => frame,
            None => {
                return Err(Error::MissingFinalFrame);
            },
        };
        let submitted: usize = match &self.inner {
            Some(inner) => inner.frames_submitted(),
            None => {
                return Err(Error::MissingFinalFrame);
            },
        };
        let metadata = self.seek_plan.target().duplicate();
        if frame.is_complete() {
            self.submitted = submitted;
            self.inner = None;
        }
        Ok(
            Some(
                GpuFrameLease {
                    metadata,
                    frame_output: frame.frame_output,
                    progression: frame.progression,
                },
            ),
        )
    }

    /// Decodes what is left of the preroll, then one image of the target.
    fn next(&mut self, wants_updates: bool) -> (r: Result<Option<GpuFrameLease<S::Frame>>, Error>)
        requires
            old(self).wf(),
        ensures
            final(self).wf(),
            sought(old(self).spec_view(), wants_updates, final(self).spec_view(), r),
            !wants_updates && asks(old(self).spec_view(), false, false) ==> ({
                ||| exists|e: &mut S, answer: FrameAnswer<S::Frame>|
                    {
                        &&& #[trigger] call_ensures(S::next_frame, (e,), answer)
                        &&& final(self).spec_inner() matches Some(inner) ==> inner.spec_engine()
                            == *final(e)
                        &&& frame_answered(
                            old(self).spec_view(),
                            answer,
                            final(self).spec_view(),
                            r,
                        )
                    }
            }),
            wants_updates && asks(old(self).spec_view(), true, false) ==> ({
                ||| (
                    exists|e: &mut S, answer: FrameAnswer<S::Frame>|
                        {
                            &&& #[trigger] call_ensures(S::next_frame, (e,), answer)
                            &&& final(self).spec_inner() matches Some(inner) ==> inner.spec_engine()
                                == *final(e)
                            &&& preroll_answered(
                                old(self).spec_view(),
                                answer,
                                final(self).spec_view(),
                                r,
                            )
                        })
                ||| exists|e: &mut S, answer: UpdateAnswer<S::Frame>|
                    {
                        &&& #[trigger] call_ensures(S::next_update, (e,), answer)
                        &&& final(self).spec_inner() matches Some(inner) ==> inner.spec_engine()
                            == *final(e)
                        &&& update_answered(
                            old(self).spec_view(),
                            answer,
                            final(self).spec_view(),
                            r,
                        )
                    }
            }),
            forall|
                frames: Answers<S, FrameAnswer<S::Frame>>,
                updates: Answers<S, UpdateAnswer<S::Frame>>,
            |
                ({
                    &&& !wants_updates && #[trigger] served(*old(self), frames, updates, false)
                    &&& forall|e: &mut S, answer: FrameAnswer<S::Frame>| #[trigger]
                        call_ensures(S::next_frame, (e,), answer) ==> frames(*e, *final(e), answer)
                }) ==> (r matches Ok(Some(lease)) && lease.progression is None),
            forall|
                frames: Answers<S, FrameAnswer<S::Frame>>,
                updates: Answers<S, UpdateAnswer<S::Frame>>,
            |
                ({
                    &&& wants_updates && #[trigger] served(*old(self), frames, updates, true)
                    &&& forall|e: &mut S, answer: FrameAnswer<S::Frame>| #[trigger]
                        call_ensures(S::next_frame, (e,), answer) ==> frames(*e, *final(e), answer)
                    &&& forall|e: &mut S, answer: UpdateAnswer<S::Frame>| #[trigger]
                        call_ensures(S::next_update, (e,), answer) ==> updates(*e, *final(e), answer)
                }) ==> r matches Ok(Some(_)),
    {
        let mut inner = match self.inner.take() {
            Some(inner) => inner,
            None => {
                return Ok(None);
            },
        };
        let ghost before = old(self).spec_view();
        let ghost first = before.inner->0;
        while self.skipped < self.seek_plan.preroll_presentations()
            invariant
                self.inner is None,
                before == old(self).spec_view(),
                before.wf(),
                before.inner == Some(first),
                self.seek_plan == old(self).seek_plan,
                self.submitted == old(self).submitted,
                before.skipped <= self.skipped <= self.seek_plan.spec_preroll(),
                inner.wf(),
                inner.spec_view().next_index == self.skipped,
                inner.spec_view().held == 0 || inner.spec_view().failed,
                inner.spec_view() == (SessionView {
                    finished: inner.spec_view().finished,
                    ..reached(before, self.skipped)
                }),
                self.skipped > before.skipped && inner.spec_view().finished ==> exists|
                    e: &mut S,
                    answer: FrameAnswer<S::Frame>,
                |
                    {
                        &&& #[trigger] call_ensures(S::next_frame, (e,), answer)
                        &&& inner.spec_engine() == *final(e)
                        &&& is_last_preroll(before, self.skipped, answer)
                    },
                self.skipped > before.skipped ==> !first.failed && !first.finished
                    && !first.pending && !slotless(first) && !inner.spec_view().pending
                    && !inner.spec_view().failed,
                self.skipped == before.skipped ==> inner.spec_view() == first,
                forall|
                    frames: Answers<S, FrameAnswer<S::Frame>>,
                    updates: Answers<S, UpdateAnswer<S::Frame>>,
                |
                    ({
                        &&& #[trigger] served(*old(self), frames, updates, wants_updates)
                        &&& forall|e: &mut S, answer: FrameAnswer<S::Frame>| #[trigger]
                            call_ensures(S::next_frame, (e,), answer) ==> frames(*e, *final(e), answer)
                    }) ==> {
                    &&& !inner.spec_view().failed
                    &&& !inner.spec_view().finished
                    &&& !inner.spec_view().pending
                    &&& first.request.max_in_flight > 0
                    &&& delivers(
                        frames,
                        updates,
                        wants_updates,
                        inner.spec_engine(),
                        inner.spec_view(),
                        self.seek_plan.spec_preroll() - self.skipped,
                    )
                },
            decreases self.seek_plan.spec_preroll() - self.skipped,
        {
            match inner.next_frame() {
                Ok(Some(_)) => {
                    inner.release();
                    self.skipped = self.skipped + 1;
                },
                Ok(None) => {
                    self.inner = Some(inner);
                    return Err(Error::MissingFinalFrame);
                },
                Err(error) => {
                    self.inner = Some(inner);
                    return Err(error);
                },
            }
        }
        let frame = if wants_updates {
            inner.next_update()
        } else {
            inner.next_frame()
        };
        self.finish(inner, frame)
    }

    /// Ends a request with what the decode session answered for the target.
    fn finish(
        &mut self,
        inner: GpuDecodeSession<S>,
        frame: Result<Option<GpuFrameLease<S::Frame>>, Error>,
    ) -> (r: Result<Option<GpuFrameLease<S::Frame>>, Error>)
        requires
            old(self).spec_view().inner is None,
        ensures
            ({
                let held = SeekView { inner: Some(inner.spec_view()), ..old(self).spec_view() };
                match frame {
                    Ok(frame) => target_reached(held, frame, final(self).spec_view(), r),
                    Err(error) => final(self).spec_view() == held && r == Err::<
                        Option<GpuFrameLease<S::Frame>>,
                        Error,
                    >(error),
                }
            }),
            final(self).spec_inner() is None || final(self).spec_inner() == Some(inner),
    {
        self.inner = Some(inner);
        match frame {
            Ok(frame) => self.complete(frame),
            Err(error) => Err(error),
        }
    }

    /// Decodes the preroll and returns the target. Over an engine that delivers every frame the
    /// first request returns it, and every later one ends without the engine.
    pub fn next_frame(&mut self) -> (r: Result<Option<GpuFrameLease<S::Frame>>, Error>)
        requires
            old(self).wf(),
        ensures
            final(self).wf(),
            sought(old(self).spec_view(), false, final(self).spec_view(), r),
            asks(old(self).spec_view(), false, false) ==> ({
                ||| exists|e: &mut S, answer: FrameAnswer<S::Frame>|
                    {
                        &&& #[trigger] call_ensures(S::next_frame, (e,), answer)
                        &&& final(self).spec_inner() matches Some(inner) ==> inner.spec_engine()
                            == *final(e)
                        &&& frame_answered(
                            old(self).spec_view(),
                            answer,
                            final(self).spec_view(),
                            r,
                        )
                    }
            }),
            forall|
                frames: Answers<S, FrameAnswer<S::Frame>>,
                updates: Answers<S, UpdateAnswer<S::Frame>>,
            |
                ({
                    &&& #[trigger] served(*old(self), frames, updates, false)
                    &&& forall|e: &mut S, answer: FrameAnswer<S::Frame>| #[trigger]
                        call_ensures(S::next_frame, (e,), answer) ==> frames(*e, *final(e), answer)
                }) ==> (r matches Ok(Some(lease)) && lease.progression is None),
    {
        self.next(false)
    }

    pub fn next_update(&mut self) -> (r: Result<Option<GpuFrameLease<S::Frame>>, Error>)
        requires
            old(self).wf(),
        ensures
            final(self).wf(),
            sought(old(self).spec_view(), true, final(self).spec_view(), r),
            asks(old(self).spec_view(), true, false) ==> ({
                ||| (
                    exists|e: &mut S, answer: FrameAnswer<S::Frame>|
                        {
                            &&& #[trigger] call_ensures(S::next_frame, (e,), answer)
                            &&& final(self).spec_inner() matches Some(inner) ==> inner.spec_engine()
                                == *final(e)
                            &&& preroll_answered(
                                old(self).spec_view(),
                                answer,
                                final(self).spec_view(),
                                r,
                            )
                        })
                ||| exists|e: &mut S, answer: UpdateAnswer<S::Frame>|
                    {
                        &&& #[trigger] call_ensures(S::next_update, (e,), answer)
                        &&& final(self).spec_inner() matches Some(inner) ==> inner.spec_engine()
                            == *final(e)
                        &&& update_answered(
                            old(self).spec_view(),
                            answer,
                            final(self).spec_view(),
                            r,
                        )
                    }
            }),
            forall|
                frames: Answers<S, FrameAnswer<S::Frame>>,
                updates: Answers<S, UpdateAnswer<S::Frame>>,
            |
                ({
                    &&& #[trigger] served(*old(self), frames, updates, true)
                    &&& forall|e: &mut S, answer: FrameAnswer<S::Frame>| #[trigger]
                        call_ensures(S::next_frame, (e,), answer) ==> frames(*e, *final(e), answer)
                    &&& forall|e: &mut S, answer: UpdateAnswer<S::Frame>| #[trigger]
                        call_ensures(S::next_update, (e,), answer) ==> updates(*e, *final(e), answer)
                }) ==> r matches Ok(Some(_)),
    {
        self.next(true)
    }

    /// Polls what is left of the preroll, then one image of the target.
    fn poll_next(&mut self, wants_updates: bool) -> (r: Progress<
        Result<Option<GpuFrameLease<S::Frame>>, Error>,
    >)
        requires
            old(self).wf(),
        ensures
            final(self).wf(),
            seek_polled(old(self).spec_view(), wants_updates, final(self).spec_view(), r),
            !wants_updates && asks(old(self).spec_view(), false, true) ==> ({
                ||| exists|e: &mut S, answer: Progress<FrameAnswer<S::Frame>>|
                    {
                        &&& #[trigger] call_ensures(S::poll_next_frame, (e,), answer)
                        &&& final(self).spec_inner() matches Some(inner) ==> inner.spec_engine()
                            == *final(e)
                        &&& frame_poll_answered(
                            old(self).spec_view(),
                            answer,
                            final(self).spec_view(),
                            r,
                        )
                    }
            }),
            wants_updates && asks(old(self).spec_view(), true, true) ==> ({
                ||| (
                    exists|e: &mut S, answer: Progress<FrameAnswer<S::Frame>>|
                        {
                            &&& #[trigger] call_ensures(S::poll_next_frame, (e,), answer)
                            &&& final(self).spec_inner() matches Some(inner) ==> inner.spec_engine()
                                == *final(e)
                            &&& preroll_poll_answered(
                                old(self).spec_view(),
                                answer,
                                final(self).spec_view(),
                                r,
                            )
                        })
                ||| exists|e: &mut S, answer: Progress<UpdateAnswer<S::Frame>>|
                    {
                        &&& #[trigger] call_ensures(S::poll_next_update, (e,), answer)
                        &&& final(self).spec_inner() matches Some(inner) ==> inner.spec_engine()
                            == *final(e)
                        &&& update_poll_answered(
                            old(self).spec_view(),
                            answer,
                            final(self).spec_view(),
                            r,
                        )
                    }
            }),
            forall|
                frames: Answers<S, FrameAnswer<S::Frame>>,
                updates: Answers<S, UpdateAnswer<S::Frame>>,
            |
                ({
                    &&& !wants_updates && #[trigger] served(*old(self), frames, updates, false)
                    &&& forall|e: &mut S, answer: Progress<FrameAnswer<S::Frame>>| #[trigger]
                        call_ensures(S::poll_next_frame, (e,), answer) ==> (
                            answer matches Progress::Ready(a) && frames(*e, *final(e), a))
                }) ==> (r matches Progress::Ready(Ok(Some(lease))) && lease.progression is None),
            forall|
                frames: Answers<S, FrameAnswer<S::Frame>>,
                updates: Answers<S, UpdateAnswer<S::Frame>>,
            |
                ({
                    &&& wants_updates && #[trigger] served(*old(self), frames, updates, true)
                    &&& forall|e: &mut S, answer: Progress<FrameAnswer<S::Frame>>| #[trigger]
                        call_ensures(S::poll_next_frame, (e,), answer) ==> (
                            answer matches Progress::Ready(a) && frames(*e, *final(e), a))
                    &&& forall|e: &mut S, answer: Progress<UpdateAnswer<S::Frame>>| #[trigger]
                        call_ensures(S::poll_next_update, (e,), answer) ==> (
                            answer matches Progress::Ready(a) && updates(*e, *final(e), a))
                }) ==> r matches Progress::Ready(Ok(Some(_))),
    {
        let mut inner = match self.inner.take() {
            Some(inner) => inner,
            None => {
                return Progress::Ready(Ok(None));
            },
        };
        let ghost before = old(self).spec_view();
        let ghost first = before.inner->0;
        while self.skipped < self.seek_plan.preroll_presentations()
            invariant
                self.inner is None,
                before == old(self).spec_view(),
                before.wf(),
                before.inner == Some(first),
                self.seek_plan == old(self).seek_plan,
                self.submitted == old(self).submitted,
                before.skipped <= self.skipped <= self.seek_plan.spec_preroll(),
                inner.wf(),
                inner.spec_view().next_index == self.skipped,
                inner.spec_view().held == 0 || inner.spec_view().failed,
                inner.spec_view() == (SessionView {
                    finished: inner.spec_view().finished,
                    ..reached(before, self.skipped)
                }),
                self.skipped > before.skipped && inner.spec_view().finished ==> exists|
                    e: &mut S,
                    answer: Progress<FrameAnswer<S::Frame>>,
                |
                    {
                        &&& #[trigger] call_ensures(S::poll_next_frame, (e,), answer)
                        &&& inner.spec_engine() == *final(e)
                        &&& answer matches Progress::Ready(answer) && is_last_preroll(
                            before,
                            self.skipped,
                            answer,
                        )
                    },
                self.skipped > before.skipped ==> !first.failed && !first.finished
                    && !inner.spec_view().pending && !slotless(first),
                self.skipped > before.skipped ==> !inner.spec_view().failed,
                self.skipped == before.skipped ==> inner.spec_view() == first,
                forall|
                    frames: Answers<S, FrameAnswer<S::Frame>>,
                    updates: Answers<S, UpdateAnswer<S::Frame>>,
                |
                    ({
                        &&& #[trigger] served(*old(self), frames, updates, wants_updates)
                        &&& forall|e: &mut S, answer: Progress<FrameAnswer<S::Frame>>| #[trigger]
                            call_ensures(S::poll_next_frame, (e,), answer) ==> (
                                answer matches Progress::Ready(a) && frames(*e, *final(e), a))
                    }) ==> {
                    &&& !inner.spec_view().failed
                    &&& !inner.spec_view().finished
                    &&& !inner.spec_view().pending
                    &&& first.request.max_in_flight > 0
                    &&& delivers(
                        frames,
                        updates,
                        wants_updates,
                        inner.spec_engine(),
                        inner.spec_view(),
                        self.seek_plan.spec_preroll() - self.skipped,
                    )
                },
            decreases self.seek_plan.spec_preroll() - self.skipped,
        {
            match inner.poll_next_frame() {
                Progress::Pending => {
                    self.inner = Some(inner);
                    return Progress::Pending;
                },
                Progress::Ready(Ok(Some(_))) => {
                    inner.release();
                    self.skipped = self.skipped + 1;
                },
                Progress::Ready(Ok(None)) => {
                    self.inner = Some(inner);
                    return Progress::Ready(Err(Error::MissingFinalFrame));
                },
                Progress::Ready(Err(error)) => {
                    self.inner = Some(inner);
                    return Progress::Ready(Err(error));
                },
            }
        }
        let polled = if wants_updates {
            inner.poll_next_update()
        } else {
            inner.poll_next_frame()
        };
        match polled {
            Progress::Pending => {
                self.inner = Some(inner);
                Progress::Pending
            },
            Progress::Ready(frame) => Progress::Ready(self.finish(inner, frame)),
        }
    }

    pub fn poll_next_frame(&mut self) -> (r: Progress<
        Result<Option<GpuFrameLease<S::Frame>>, Error>,
    >)
        requires
            old(self).wf(),
        ensures
            final(self).wf(),
            seek_polled(old(self).spec_view(), false, final(self).spec_view(), r),
            asks(old(self).spec_view(), false, true) ==> ({
                ||| exists|e: &mut S, answer: Progress<FrameAnswer<S::Frame>>|
                    {
                        &&& #[trigger] call_ensures(S::poll_next_frame, (e,), answer)
                        &&& final(self).spec_inner() matches Some(inner) ==> inner.spec_engine()
                            == *final(e)
                        &&& frame_poll_answered(
                            old(self).spec_view(),
                            answer,
                            final(self).spec_view(),
                            r,
                        )
                    }
            }),
            forall|
                frames: Answers<S, FrameAnswer<S::Frame>>,
                updates: Answers<S, UpdateAnswer<S::Frame>>,
            |
                ({
                    &&& #[trigger] served(*old(self), frames, updates, false)
                    &&& forall|e: &mut S, answer: Progress<FrameAnswer<S::Frame>>| #[trigger]
                        call_ensures(S::poll_next_frame, (e,), answer) ==> (
                            answer matches Progress::Ready(a) && frames(*e, *final(e), a))
                }) ==> (r matches Progress::Ready(Ok(Some(lease))) && lease.progression is None),
    {
        self.poll_next(false)
    }

    pub fn poll_next_update(&mut self) -> (r: Progress<
        Result<Option<GpuFrameLease<S::Frame>>, Error>,
    >)
        requires
            old(self).wf(),
        ensures
            final(self).wf(),
            seek_polled(old(self).spec_view(), true, final(self).spec_view(), r),
            asks(old(self).spec_view(), true, true) ==> ({
                ||| (
                    exists|e: &mut S, answer: Progress<FrameAnswer<S::Frame>>|
                        {
                            &&& #[trigger] call_ensures(S::poll_next_frame, (e,), answer)
                            &&& final(self).spec_inner() matches Some(inner) ==> inner.spec_engine()
                                == *final(e)
                            &&& preroll_poll_answered(
                                old(self).spec_view(),
                                answer,
                                final(self).spec_view(),
                                r,
                            )
                        })
                ||| exists|e: &mut S, answer: Progress<UpdateAnswer<S::Frame>>|
                    {
                        &&& #[trigger] call_ensures(S::poll_next_update, (e,), answer)
                        &&& final(self).spec_inner() matches Some(inner) ==> inner.spec_engine()
                            == *final(e)
                        &&& update_poll_answered(
                            old(self).spec_view(),
                            answer,
                            final(self).spec_view(),
                            r,
                        )
                    }
            }),
            forall|
                frames: Answers<S, FrameAnswer<S::Frame>>,
                updates: Answers<S, UpdateAnswer<S::Frame>>,
            |
                ({
                    &&& #[trigger] served(*old(self), frames, updates, true)
                    &&& forall|e: &mut S, answer: Progress<FrameAnswer<S::Frame>>| #[trigger]
                        call_ensures(S::poll_next_frame, (e,), answer) ==> (
                            answer matches Progress::Ready(a) && frames(*e, *final(e), a))
                    &&& forall|e: &mut S, answer: Progress<UpdateAnswer<S::Frame>>| #[trigger]
                        call_ensures(S::poll_next_update, (e,), answer) ==> (
                            answer matches Progress::Ready(a) && updates(*e, *final(e), a))
                }) ==> r matches Progress::Ready(Ok(Some(_))),
    {
        self.poll_next(true)
    }

    /// The target as a pending operation.
    pub fn next_frame_async(&mut self) -> (operation: NextSeekFrame<'_, S>)
        ensures
            *operation.session == *old(self),
            !operation.updates,
            *final(self) == *final(operation.session),
    {
        NextSeekFrame { session: self, updates: false }
    }

    /// The next image of the target as a pending operation.
    pub fn next_update_async(&mut self) -> (operation: NextSeekFrame<'_, S>)
        ensures
            *operation.session == *old(self),
            operation.updates,
            *final(self) == *final(operation.session),
    {
        NextSeekFrame { session: self, updates: true }
    }
}

/// What a poll does: it waits with its seek intact, or answers as a request does.
pub open spec fn seek_polled<F>(
    before: SeekView,
    updates: bool,
    after: SeekView,
    r: Progress<Result<Option<GpuFrameLease<F>>, Error>>,
) -> bool {
    match r {
        Progress::Pending => {
            &&& after.selection == before.selection
    &&& after.preroll == before.preroll
            &&& after.target == before.target
            &&& before.skipped <= after.skipped
            &&& before.inner matches Some(session) && !session.failed && !session.finished && (
            slotless(session) ==> after == before)
            &&& after.inner matches Some(session) && !session.failed && !session.finished
        },
        Progress::Ready(r) => {
            &&& seek_outcome(before, updates, after, r)
            &&& before.inner is Some && slotless(before.inner->0) ==> updates && before.skipped
                == before.preroll && r == Err::<Option<GpuFrameLease<F>>, Error>(
                Error::Backpressure { limit: 0 },
            ) && after == before
        },
    }
}

/// An image of a seek's target, polled until it is ready.
pub struct NextSeekFrame<'a, S: GpuSubmissionSession> {
    pub session: &'a mut GpuSeekSession<S>,
    pub updates: bool,
}

impl<'a, S: GpuSubmissionSession> NextSeekFrame<'a, S> {
    /// Polls the image without blocking.
    pub fn poll(&mut self) -> (r: Progress<Result<Option<GpuFrameLease<S::Frame>>, Error>>)
        requires
            old(self).session.wf(),
        ensures
            final(self).session.wf(),
            final(self).updates == old(self).updates,
            seek_polled(
                old(self).session.spec_view(),
                old(self).updates,
                final(self).session.spec_view(),
                r,
            ),
            !old(self).updates && asks(old(self).session.spec_view(), false, true) ==> ({
                ||| exists|e: &mut S, answer: Progress<FrameAnswer<S::Frame>>|
                    {
                        &&& #[trigger] call_ensures(S::poll_next_frame, (e,), answer)
                        &&& final(self).session.spec_inner() matches Some(inner) ==> inner.spec_engine()
                            == *final(e)
                        &&& frame_poll_answered(
                            old(self).session.spec_view(),
                            answer,
                            final(self).session.spec_view(),
                            r,
                        )
                    }
            }),
            old(self).updates && asks(old(self).session.spec_view(), true, true) ==> ({
                ||| (
                    exists|e: &mut S, answer: Progress<FrameAnswer<S::Frame>>|
                        {
                            &&& #[trigger] call_ensures(S::poll_next_frame, (e,), answer)
                            &&& final(self).session.spec_inner() matches Some(inner) ==> inner.spec_engine()
                                == *final(e)
                            &&& preroll_poll_answered(
                                old(self).session.spec_view(),
                                answer,
                                final(self).session.spec_view(),
                                r,
                            )
                        })
                ||| exists|e: &mut S, answer: Progress<UpdateAnswer<S::Frame>>|
                    {
                        &&& #[trigger] call_ensures(S::poll_next_update, (e,), answer)
                        &&& final(self).session.spec_inner() matches Some(inner) ==> inner.spec_engine()
                            == *final(e)
                        &&& update_poll_answered(
                            old(self).session.spec_view(),
                            answer,
                            final(self).session.spec_view(),
                            r,
                        )
                    }
            }),
            forall|
                frames: Answers<S, FrameAnswer<S::Frame>>,
                updates: Answers<S, UpdateAnswer<S::Frame>>,
            |
                ({
                    &&& !old(self).updates && #[trigger] served(*old(self).session, frames, updates, false)
                    &&& forall|e: &mut S, answer: Progress<FrameAnswer<S::Frame>>| #[trigger]
                        call_ensures(S::poll_next_frame, (e,), answer) ==> (
                            answer matches Progress::Ready(a) && frames(*e, *final(e), a))
                }) ==> (r matches Progress::Ready(Ok(Some(lease))) && lease.progression is None),
            forall|
                frames: Answers<S, FrameAnswer<S::Frame>>,
                updates: Answers<S, UpdateAnswer<S::Frame>>,
            |
                ({
                    &&& old(self).updates && #[trigger] served(*old(self).session, frames, updates, true)
                    &&& forall|e: &mut S, answer: Progress<FrameAnswer<S::Frame>>| #[trigger]
                        call_ensures(S::poll_next_frame, (e,), answer) ==> (
                            answer matches Progress::Ready(a) && frames(*e, *final(e), a))
                    &&& forall|e: &mut S, answer: Progress<UpdateAnswer<S::Frame>>| #[trigger]
                        call_ensures(S::poll_next_update, (e,), answer) ==> (
                            answer matches Progress::Ready(a) && updates(*e, *final(e), a))
                }) ==> r matches Progress::Ready(Ok(Some(_))),
    {
        self.session.poll_next(self.updates)
    }
}

/// What starting a seek over a prepared engine session returns: why the session is refused, or a
/// seek over it that has decoded nothing yet.
pub open spec fn seek_started<S: GpuSubmissionSession>(
    prepared: PreparedGpuSession<S>,
    request: GpuOutputRequest,
    plan: FrameSeekPlan,
    r: Result<GpuSeekSession<S>, Error>,
) -> bool {
    match prepared_refusal(prepared.profile, prepared.metadata) {
        Some(error) => r == Err::<GpuSeekSession<S>, Error>(error),
        None => r matches Ok(seek) && seek.wf() && seek.spec_view() == (SeekView {
            inner: Some(SessionView::fresh(request, prepared.profile, prepared.metadata)),
            selection: plan.spec_selection(),
            preroll: plan.spec_preroll(),
            target: plan.spec_target(),
            skipped: 0,
            submitted: 0,
        }) && seek.spec_inner() is Some && seek.spec_inner()->0.spec_engine() == prepared.session,
    }
}

/// Starts the seek that a prepared engine session serves.
pub fn start_seek<S: GpuSubmissionSession>(
    prepared: PreparedGpuSession<S>,
    request: GpuOutputRequest,
    plan: FrameSeekPlan,
) -> (r: Result<GpuSeekSession<S>, Error>)
    ensures
        seek_started(prepared, request, plan, r),
{
    match GpuDecodeSession::new(prepared, request) {
        Ok(session) => Ok(GpuSeekSession::new(session, plan)),
        Err(error) => Err(error),
    }
}

/// What opening a seek returns where the engine answered `opened`: its error, or what becomes of
/// the session that it prepared.
pub open spec fn seek_answered<S: GpuSubmissionSession>(
    opened: Result<PreparedGpuSession<S>, Error>,
    request: GpuOutputRequest,
    plan: FrameSeekPlan,
    r: Result<GpuSeekSession<S>, Error>,
) -> bool {
    match opened {
        Ok(prepared) => seek_started(prepared, request, plan, r),
        Err(error) => r == Err::<GpuSeekSession<S>, Error>(error),
    }
}

/// Opens the engine session for a seek, and starts the seek. The engine is asked for this
/// codestream, this request and the frames of this plan, and its answer decides.
fn open_seek_plan<E: GpuSubmissionEngine>(
    engine: &E,
    codestream: &[u8],
    request: GpuOutputRequest,
    plan: FrameSeekPlan,
) -> (r: Result<GpuSeekSession<E::Session>, Error>)
    ensures
        exists|opened: Result<PreparedGpuSession<E::Session>, Error>| #[trigger]
            call_ensures(
                E::open,
                (engine, codestream, &request, plan.spec_selection()),
                opened,
            ) && seek_answered(
                opened,
                request,
                plan,
                r,
            ),
        r matches Ok(seek) ==> seek_opened(seek, request, plan),
{
    match engine.open(codestream, &request, plan.selection()) {
        Ok(prepared) => start_seek(prepared, request, plan),
        Err(error) => Err(error),
    }
}

/// A seek that has decoded nothing yet, over an accepted stream.
pub open spec fn seek_opened<S: GpuSubmissionSession>(
    seek: GpuSeekSession<S>,
    request: GpuOutputRequest,
    plan: FrameSeekPlan,
) -> bool {
    &&& seek.wf()
    &&& seek.spec_view().inner matches Some(session) && session == SessionView::fresh(
        request,
        session.profile,
        session.stream,
    ) && prepared_refusal(session.profile, session.stream) is None
    &&& seek.spec_view().selection == plan.spec_selection()
    &&& seek.spec_view().preroll == plan.spec_preroll()
    &&& seek.spec_view().target == plan.spec_target()
    &&& seek.spec_view().skipped == 0
}

impl<E: GpuSubmissionEngine> GpuDecoder<E> {
    /// Opens one main-image presentation from the latest dependency-complete indexed anchor.
    pub fn open_seek(&self, input: &ParsedInput, request: GpuOutputRequest, plan: FrameSeekPlan) -> (r:
        Result<GpuSeekSession<E::Session>, Error>)
        ensures
            request.preview ==> r == Err::<GpuSeekSession<E::Session>, Error>(
                Error::PreviewSelection,
            ),
            !request.preview && decoder_refusal(*input) is Some ==> r == Err::<
                GpuSeekSession<E::Session>,
                Error,
            >(decoder_refusal(*input)->0),
            !request.preview && decoder_refusal(*input) is None ==> exists|
                bytes: &[u8],
                opened: Result<PreparedGpuSession<E::Session>, Error>,
            | #[trigger]
                call_ensures(
                    E::open,
                    (&self.spec_engine(), bytes, &request, plan.spec_selection()),
                    opened,
                ) && bytes@
                    == input.codestream@ && seek_answered(opened, request, plan, r),
            r matches Ok(seek) ==> seek_opened(seek, request, plan),
    {
        if request.preview {
            return Err(Error::PreviewSelection);
        }
        match input.accept() {
            Ok(_) => {},
            Err(error) => {
                return Err(error);
            },
        }
        open_seek_plan(self.engine(), input.codestream.as_slice(), request, plan)
    }
}

/// Whether incremental input and the index collected beside it are still usable.
///
/// Input byte and span pressure consumes neither frontend and can retry the identical event.
/// Other failures poison both frontends.
#[derive(Clone, Copy, Debug, PartialEq, Eq, Structural)]
pub struct GpuDecodeSeekStream {
    pub input_failed: bool,
    pub index_open: bool,
}

impl GpuDecodeSeekStream {
    /// Starts collecting input and index for a request on the main image.
    pub fn new(request: &GpuOutputRequest) -> (r: Result<Self, Error>)
        ensures
            r == if request.preview {
                Err::<Self, Error>(Error::PreviewSelection)
            } else {
                Ok::<Self, Error>(GpuDecodeSeekStream { input_failed: false, index_open: true })
            },
    {
        if request.preview {
            return Err(Error::PreviewSelection);
        }
        Ok(GpuDecodeSeekStream { input_failed: false, index_open: true })
    }

    /// Takes what the input frontend made of an event; `Ok` hands the event on to the index.
    pub fn input_pushed(&mut self, result: Result<(), Error>, failed: bool) -> (r: Result<(), Error>)
        ensures
            final(self).input_failed == failed,
            final(self).index_open == (old(self).index_open && !(result is Err && failed)),
            r == match result {
                Err(error) => Err::<(), Error>(error),
                Ok(_) => if old(self).index_open {
                    Ok::<(), Error>(())
                } else {
                    Err::<(), Error>(Error::IncrementalInputPoisoned)
                },
            },
    {
        self.input_failed = failed;
        match result {
            Err(error) => {
                if failed {
                    self.index_open = false;
                }
                Err(error)
            },
            Ok(_) => {
                if self.index_open {
                    Ok(())
                } else {
                    Err(Error::IncrementalInputPoisoned)
                }
            },
        }
    }

    /// Takes what the index made of an event.
    pub fn index_pushed(&mut self, result: Result<(), Error>) -> (r: Result<(), Error>)
        ensures
            r == result,
            *final(self) == if result is Err {
                GpuDecodeSeekStream { input_failed: true, index_open: false }
            } else {
                *old(self)
            },
    {
        if result.is_err() {
            self.index_open = false;
            self.input_failed = true;
        }
        result
    }

    /// Takes the index, once the input frontend has ended.
    pub fn finish(self) -> (r: Result<(), Error>)
        ensures
            r == if self.index_open {
                Ok::<(), Error>(())
            } else {
                Err::<(), Error>(Error::IncrementalInputPoisoned)
            },
    {
        if self.index_open {
            Ok(())
        } else {
            Err(Error::IncrementalInputPoisoned)
        }
    }
}

/// After the final image of its target, a seek answers every request with `None`.
pub proof fn law_target_ends_the_seek<F>(
    before: SeekView,
    updates: bool,
    between: SeekView,
    first: Result<Option<GpuFrameLease<F>>, Error>,
    later: bool,
    after: SeekView,
    second: Result<Option<GpuFrameLease<F>>, Error>,
)
    requires
        sought(before, updates, between, first),
        first matches Ok(Some(lease)) && lease.progression is None,
        sought(between, later, after, second),
    ensures
        second == Ok::<Option<GpuFrameLease<F>>, Error>(None),
        after == between,
{
}

/// Every image that a seek returns carries the identity of its target.
pub proof fn law_target_identity<F>(
    before: SeekView,
    updates: bool,
    after: SeekView,
    r: Result<Option<GpuFrameLease<F>>, Error>,
)
    requires
        sought(before, updates, after, r),
        r matches Ok(Some(_)),
    ensures
        r->Ok_0->Some_0.metadata == before.target,
        after.skipped == before.preroll,
{
}

} // verus!
