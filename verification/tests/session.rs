use jxl_wgpu_decode::error::Error;
use jxl_wgpu_decode::session::seek::{FrameSeekPlan, GpuDecodeSeekStream, GpuSeekSession};
use jxl_wgpu_decode::session::update::FrameProgression;
use jxl_wgpu_decode::session::{
    validate_profile, validate_stream_metadata, AnimationMetadata, DecodeProfile, FrameDuration,
    FrameMetadata, FrameSelection, GpuDecodeSession, GpuDecoder, GpuOutputRequest, GpuSubmissionEngine,
    GpuSubmissionSession, ParsedInput, PreparedGpuSession, Progress, SubmittedGpuFrame,
    SubmittedGpuUpdate, Timebase,
};
use std::collections::VecDeque;

/// An anchor and the end behind its target.
const INTERVAL: FrameSelection = FrameSelection::Interval { first: 4, end: 8 };

#[test]
fn complete_lf_boundaries_have_real_levels_and_precede_coefficient_refinements() {
    let lf = |physical_frame_index, level| FrameProgression::LowFrequency {
        physical_frame_index,
        level,
    };
    for level in 0..=u8::MAX {
        let boundary = lf(5, level);
        assert_eq!(boundary.valid(), (1..=4).contains(&level));
        assert_eq!(boundary.completed_passes(), None);
        assert_eq!(boundary.total_passes(), None);
        assert_eq!(
            boundary.intended_downsampling(),
            if (1..=4).contains(&level) {
                8_u32.pow(u32::from(level))
            } else {
                0
            }
        );
    }
    let levels = [
        lf(5, 4),
        lf(6, 3),
        lf(7, 2),
        lf(8, 1),
        FrameProgression::Coefficients {
            physical_frame_index: 9,
            completed_passes: 0,
            total_passes: 3,
            intended_downsampling: 8,
        },
        FrameProgression::Coefficients {
            physical_frame_index: 9,
            completed_passes: 1,
            total_passes: 3,
            intended_downsampling: 2,
        },
    ];
    for (index, current) in levels.iter().enumerate() {
        assert!(current.valid());
        assert!(!current.follows(*current), "duplicate boundary");
        for prior in &levels[..index] {
            assert!(current.follows(*prior));
            assert!(!prior.follows(*current));
        }
    }
    assert!(
        !lf(8, 1).follows(lf(8, 2)),
        "one physical LF cannot have two levels"
    );
    assert!(
        !lf(9, 2).follows(lf(8, 1)),
        "later LF may not reduce detail"
    );
}

#[test]
fn coefficient_boundaries_need_missing_passes_and_a_power_of_two() {
    let boundary = |completed_passes, total_passes, intended_downsampling| {
        FrameProgression::Coefficients {
            physical_frame_index: 1,
            completed_passes,
            total_passes,
            intended_downsampling,
        }
    };
    assert!(boundary(0, 1, 1).valid());
    assert!(boundary(2, 3, 8).valid());
    assert!(!boundary(3, 3, 8).valid());
    assert!(!boundary(0, 0, 8).valid());
    assert!(!boundary(0, 1, 0).valid());
    assert!(!boundary(0, 1, 12).valid());
    assert!(boundary(2, 3, 1).follows(boundary(1, 3, 2)));
    assert!(!boundary(2, 4, 1).follows(boundary(1, 3, 2)));
    assert!(!boundary(2, 3, 4).follows(boundary(1, 3, 2)));
    assert_eq!(boundary(2, 3, 4).physical_frame_index(), 1);
    assert_eq!(boundary(2, 3, 4).completed_passes(), Some(2));
    assert_eq!(boundary(2, 3, 4).total_passes(), Some(3));
}

/// Replays what it is given.
struct Script {
    frames: VecDeque<Result<Option<SubmittedGpuFrame<u32>>, Error>>,
    updates: VecDeque<Progress<Result<Option<SubmittedGpuUpdate<u32>>, Error>>>,
}

impl GpuSubmissionSession for Script {
    type Frame = u32;

    fn next_frame(&mut self) -> Result<Option<SubmittedGpuFrame<u32>>, Error> {
        self.frames.pop_front().unwrap()
    }

    fn poll_next_frame(&mut self) -> Progress<Result<Option<SubmittedGpuFrame<u32>>, Error>> {
        match self.frames.pop_front() {
            Some(answer) => Progress::Ready(answer),
            None => Progress::Pending,
        }
    }

    fn next_update(&mut self) -> Result<Option<SubmittedGpuUpdate<u32>>, Error> {
        match self.updates.pop_front() {
            Some(Progress::Ready(answer)) => answer,
            _ => Err(Error::Backend),
        }
    }

    fn poll_next_update(&mut self) -> Progress<Result<Option<SubmittedGpuUpdate<u32>>, Error>> {
        self.updates.pop_front().unwrap_or(Progress::Pending)
    }
}

fn request(max_in_flight: usize) -> GpuOutputRequest {
    GpuOutputRequest { max_in_flight, preview: false }
}

fn clock() -> Option<Timebase> {
    Some(Timebase { numerator: 1, denominator: 25 })
}

fn animation(hint: Option<usize>) -> AnimationMetadata {
    AnimationMetadata {
        width: 4,
        height: 4,
        timebase: clock(),
        loop_count: Some(0),
        has_timecodes: Some(false),
        frame_count_hint: hint,
    }
}

fn still() -> AnimationMetadata {
    AnimationMetadata {
        width: 4,
        height: 4,
        timebase: None,
        loop_count: None,
        has_timecodes: None,
        frame_count_hint: None,
    }
}

fn shown(index: usize, is_last: bool) -> FrameMetadata {
    FrameMetadata {
        index,
        duration: FrameDuration { ticks: 1, timebase: clock() },
        presentation_ticks: index as u64,
        timecode: None,
        is_last,
        is_keyframe: index == 0,
        name: format!("frame {index}"),
    }
}

fn frame(index: usize, is_last: bool) -> SubmittedGpuFrame<u32> {
    SubmittedGpuFrame::new(shown(index, is_last), 100 + index as u32)
}

fn prepared(
    metadata: AnimationMetadata,
    frames: Vec<Result<Option<SubmittedGpuFrame<u32>>, Error>>,
    updates: Vec<Progress<Result<Option<SubmittedGpuUpdate<u32>>, Error>>>,
) -> PreparedGpuSession<Script> {
    PreparedGpuSession::new(
        DecodeProfile::VarDct { bits_per_sample: 8 },
        metadata,
        Script { frames: frames.into(), updates: updates.into() },
    )
}

fn session(
    metadata: AnimationMetadata,
    frames: Vec<Result<Option<SubmittedGpuFrame<u32>>, Error>>,
    slots: usize,
) -> GpuDecodeSession<Script> {
    GpuDecodeSession::new(prepared(metadata, frames, Vec::new()), request(slots)).unwrap()
}

#[test]
fn frames_come_in_order_until_the_last_one() {
    let mut decode = session(
        animation(Some(2)),
        vec![Ok(Some(frame(0, false))), Ok(Some(frame(1, true)))],
        2,
    );
    assert_eq!(decode.frames_submitted(), 0);
    let first = decode.next_frame().unwrap().unwrap();
    assert_eq!(*first.output(), 100);
    assert!(first.is_complete());
    assert_eq!(first.metadata.name, "frame 0");
    assert_eq!(decode.in_flight(), 1);
    let second = decode.next_frame().unwrap().unwrap();
    assert_eq!(second.metadata.index, 1);
    assert!(decode.is_finished());
    assert_eq!(decode.frames_submitted(), 2);
    assert!(decode.next_frame().unwrap().is_none());
    decode.release();
    assert_eq!(decode.in_flight(), 1);
}

#[test]
fn held_frames_push_back_without_losing_the_stream() {
    let mut decode = session(
        animation(None),
        vec![Ok(Some(frame(0, false))), Ok(Some(frame(1, true)))],
        1,
    );
    assert!(decode.next_frame().unwrap().is_some());
    assert_eq!(decode.next_frame().unwrap_err(), Error::Backpressure { limit: 1 });
    decode.release();
    assert_eq!(decode.next_frame().unwrap().unwrap().metadata.index, 1);
}

fn refused(metadata: AnimationMetadata, answer: Result<Option<SubmittedGpuFrame<u32>>, Error>) -> Error {
    let mut decode = session(metadata, vec![answer], 1);
    let error = decode.next_frame().unwrap_err();
    assert_eq!(decode.next_frame().unwrap_err(), Error::SessionPoisoned);
    assert_eq!(decode.frames_submitted(), 0);
    assert_eq!(decode.in_flight(), 0);
    error
}

#[test]
fn every_broken_frame_poisons_the_session() {
    assert_eq!(refused(animation(None), Ok(None)), Error::MissingFinalFrame);
    assert_eq!(refused(animation(None), Err(Error::Backend)), Error::Backend);
    assert_eq!(
        refused(animation(None), Ok(Some(frame(1, false)))),
        Error::UnexpectedFrameIndex { expected: 0, actual: 1 }
    );
    assert_eq!(
        refused(still(), Ok(Some(frame(0, true)))),
        Error::FrameTimebaseMismatch { index: 0 }
    );
    let mut timed = frame(0, true);
    timed.metadata.duration = FrameDuration { ticks: 3, timebase: None };
    assert_eq!(refused(still(), Ok(Some(timed))), Error::FrameTimebaseMismatch { index: 0 });
    let mut early = frame(0, false);
    early.metadata.duration = FrameDuration::still();
    assert_eq!(
        refused(still(), Ok(Some(early))),
        Error::EngineContract("still-image metadata requires exactly one final visible frame")
    );
    assert_eq!(
        refused(animation(Some(2)), Ok(Some(frame(0, true)))),
        Error::FrameCountMismatch { hint: 2, actual: 1 }
    );
}

#[test]
fn streams_and_profiles_are_checked_before_any_frame() {
    let empty = AnimationMetadata { width: 0, ..still() };
    assert_eq!(
        validate_stream_metadata(&empty),
        Err(Error::EngineContract("stream extent must be non-empty"))
    );
    let mixed = AnimationMetadata { loop_count: Some(1), ..still() };
    assert_eq!(
        validate_stream_metadata(&mixed),
        Err(Error::EngineContract(
            "animation timebase, loop count, and timecode flag must be present together"
        ))
    );
    assert_eq!(
        validate_stream_metadata(&animation(Some(0))),
        Err(Error::EngineContract("frame count hint cannot declare zero visible frames"))
    );
    assert_eq!(validate_stream_metadata(&still()), Ok(()));
    assert_eq!(validate_stream_metadata(&animation(Some(1))), Ok(()));
    for bits_per_sample in 0..40 {
        assert_eq!(
            validate_profile(DecodeProfile::ModularLossless { bits_per_sample }).is_ok(),
            bits_per_sample == 8 || bits_per_sample == 16
        );
    }
    assert!(GpuDecodeSession::new(prepared(empty, Vec::new(), Vec::new()), request(1)).is_err());
}

fn boundary(completed_passes: u8) -> FrameProgression {
    FrameProgression::Coefficients {
        physical_frame_index: 0,
        completed_passes,
        total_passes: 3,
        intended_downsampling: 8 >> completed_passes,
    }
}

fn partial(index: usize, completed_passes: u8) -> Result<Option<SubmittedGpuUpdate<u32>>, Error> {
    Ok(Some(SubmittedGpuUpdate::Intermediate {
        frame: frame(index, true),
        progression: boundary(completed_passes),
    }))
}

#[test]
fn updates_refine_one_presentation_without_advancing_it() {
    let updates = vec![
        Progress::Ready(partial(0, 0)),
        Progress::Ready(partial(0, 2)),
        Progress::Ready(Ok(Some(SubmittedGpuUpdate::Complete(frame(0, true))))),
    ];
    let mut decode =
        GpuDecodeSession::new(prepared(animation(Some(1)), Vec::new(), updates), request(1)).unwrap();
    for passes in [0, 2] {
        let lease = decode.next_update().unwrap().unwrap();
        assert_eq!(lease.progression, Some(boundary(passes)));
        assert_eq!((decode.frames_submitted(), decode.in_flight()), (0, 1));
        assert_eq!(decode.next_frame().unwrap_err(), Error::OperationInProgress);
    }
    let last = decode.next_update().unwrap().unwrap();
    assert!(last.is_complete());
    assert_eq!((decode.frames_submitted(), decode.in_flight()), (1, 1));
    assert!(decode.next_update().unwrap().is_none());
}

#[test]
fn updates_out_of_order_poison_the_session() {
    let updates = vec![Progress::Ready(partial(0, 2)), Progress::Ready(partial(0, 1))];
    let mut decode =
        GpuDecodeSession::new(prepared(animation(None), Vec::new(), updates), request(1)).unwrap();
    assert!(decode.next_update().is_ok());
    assert_eq!(
        decode.next_update().unwrap_err(),
        Error::EngineContract("progressive image updates are out of order")
    );
    assert_eq!(decode.next_update().unwrap_err(), Error::SessionPoisoned);
    assert!(decode.is_failed());
    assert_eq!((decode.in_flight(), decode.held()), (1, 1));
    decode.release();
    assert_eq!(decode.in_flight(), 0);

    let updates = vec![Progress::Ready(partial(0, 2)), Progress::Ready(partial(0, 1))];
    let mut decode =
        GpuDecodeSession::new(prepared(animation(None), Vec::new(), updates), request(1)).unwrap();
    drop(decode.next_update().unwrap());
    decode.release_intermediates();
    assert_eq!(decode.in_flight(), 1);
    assert!(decode.next_update().is_err());
    assert_eq!(decode.in_flight(), 0);

    let invalid = vec![Progress::Ready(Ok(Some(SubmittedGpuUpdate::Intermediate {
        frame: frame(0, true),
        progression: FrameProgression::LowFrequency { physical_frame_index: 0, level: 5 },
    })))];
    let mut decode =
        GpuDecodeSession::new(prepared(animation(None), Vec::new(), invalid), request(1)).unwrap();
    assert_eq!(
        decode.next_update().unwrap_err(),
        Error::EngineContract("invalid intermediate physical boundary")
    );
    let mut idle = session(animation(None), Vec::new(), 1);
    assert_eq!(
        idle.finish_intermediate(frame(0, true), boundary(0)).unwrap_err(),
        Error::EngineContract("intermediate update has no pending frame")
    );
}

#[test]
fn updates_of_one_presentation_share_its_metadata() {
    let renamed = || {
        let mut frame = frame(0, true);
        frame.metadata.name = "renamed".into();
        frame
    };
    let changed = Error::EngineContract("updates of one presentation changed its metadata");
    for second in [
        SubmittedGpuUpdate::Complete(renamed()),
        SubmittedGpuUpdate::Intermediate { frame: renamed(), progression: boundary(2) },
    ] {
        let updates = vec![Progress::Ready(partial(0, 1)), Progress::Ready(Ok(Some(second)))];
        let mut decode =
            GpuDecodeSession::new(prepared(animation(None), Vec::new(), updates), request(1))
                .unwrap();
        let first = decode.next_update().unwrap().unwrap();
        assert!(!first.metadata.same_as(&renamed().metadata));
        assert_eq!(decode.next_update().unwrap_err(), changed);
        assert_eq!(decode.next_update().unwrap_err(), Error::SessionPoisoned);
    }
}

#[test]
fn polling_keeps_the_slot_until_the_frame_is_there() {
    let updates = vec![
        Progress::Pending,
        Progress::Ready(Ok(Some(SubmittedGpuUpdate::Complete(frame(0, true))))),
    ];
    let mut decode =
        GpuDecodeSession::new(prepared(animation(None), Vec::new(), updates), request(1)).unwrap();
    assert!(matches!(decode.poll_next_update(), Progress::Pending));
    assert_eq!(decode.in_flight(), 1);
    assert!(matches!(decode.poll_next_update(), Progress::Ready(Ok(Some(_)))));
    assert_eq!(decode.in_flight(), 1);
    assert!(matches!(decode.poll_next_update(), Progress::Ready(Ok(None))));

    let mut decode = session(animation(None), Vec::new(), 1);
    assert!(matches!(decode.poll_next_frame(), Progress::Pending));
    assert_eq!(decode.next_frame().unwrap_err(), Error::OperationInProgress);
    let mut full = session(animation(None), Vec::new(), 0);
    assert!(matches!(full.poll_next_frame(), Progress::Pending));
    assert_eq!(full.in_flight(), 0);
    assert!(matches!(full.next_frame_async().poll(), Progress::Pending));
    assert!(matches!(
        full.next_update_async().poll(),
        Progress::Ready(Err(Error::Backpressure { limit: 0 }))
    ));
}

#[test]
fn a_seek_drops_its_preroll_and_returns_one_target() {
    let frames = vec![
        Ok(Some(frame(0, false))),
        Ok(Some(frame(1, false))),
        Ok(Some(frame(2, false))),
    ];
    let plan = FrameSeekPlan::new(INTERVAL, 2, shown(7, false));
    let mut seek = GpuSeekSession::new(session(animation(None), frames, 1), plan);
    assert_eq!(seek.plan().preroll_presentations(), 2);
    assert_eq!(seek.plan().selection(), INTERVAL);
    assert!(seek.submission_session().is_some());
    let target = seek.next_frame().unwrap().unwrap();
    assert_eq!(target.metadata, shown(7, false));
    assert_eq!(*target.output(), 102);
    assert_eq!(seek.frames_submitted(), 3);
    assert!(seek.submission_session().is_none());
    assert!(seek.next_frame().unwrap().is_none());
    assert!(seek.next_update().unwrap().is_none());
}

#[test]
fn a_seek_polls_through_its_preroll_and_reports_a_short_stream() {
    let plan = FrameSeekPlan::new(INTERVAL, 1, shown(7, true));
    let mut seek = GpuSeekSession::new(
        session(animation(None), vec![Ok(Some(frame(0, false)))], 1),
        plan,
    );
    assert!(matches!(seek.poll_next_frame(), Progress::Pending));
    assert_eq!(seek.frames_submitted(), 1);
    let mut operation = seek.next_frame_async();
    assert!(!operation.updates);
    assert!(matches!(operation.poll(), Progress::Pending));
    assert!(seek.next_update_async().updates);

    let plan = FrameSeekPlan::new(INTERVAL, 2, shown(7, true));
    let mut short = GpuSeekSession::new(
        session(animation(None), vec![Ok(Some(frame(0, true)))], 1),
        plan,
    );
    let slotless = |preroll| {
        let plan = FrameSeekPlan::new(INTERVAL, preroll, shown(7, true));
        GpuSeekSession::new(session(animation(None), Vec::new(), 0), plan)
    };
    assert_eq!(slotless(1).next_frame().unwrap_err(), Error::Backpressure { limit: 0 });
    assert_eq!(slotless(0).next_update().unwrap_err(), Error::Backpressure { limit: 0 });
    assert!(matches!(slotless(1).poll_next_update(), Progress::Pending));
    assert!(matches!(
        slotless(0).poll_next_update(),
        Progress::Ready(Err(Error::Backpressure { limit: 0 }))
    ));
    assert_eq!(seek.next_frame().unwrap_err(), Error::OperationInProgress);
    assert_eq!(short.next_frame().unwrap_err(), Error::MissingFinalFrame);
    assert!(matches!(
        short.poll_next_update(),
        Progress::Ready(Err(Error::MissingFinalFrame))
    ));
}

#[test]
fn incremental_input_and_index_are_poisoned_together() {
    let mut stream = GpuDecodeSeekStream::new(&request(1)).unwrap();
    assert_eq!(stream.input_pushed(Err(Error::Backpressure { limit: 1 }), false), Err(Error::Backpressure { limit: 1 }));
    assert_eq!(stream.input_pushed(Ok(()), false), Ok(()));
    assert_eq!(stream.index_pushed(Ok(())), Ok(()));
    assert_eq!(stream.finish(), Ok(()));
    assert_eq!(stream.index_pushed(Err(Error::FrameIndex)), Err(Error::FrameIndex));
    assert!(stream.input_failed);
    assert_eq!(stream.finish(), Err(Error::IncrementalInputPoisoned));
    let mut stream = GpuDecodeSeekStream::new(&request(1)).unwrap();
    assert_eq!(stream.input_pushed(Err(Error::Backend), true), Err(Error::Backend));
    assert_eq!(stream.input_pushed(Ok(()), true), Err(Error::IncrementalInputPoisoned));
    let preview = GpuOutputRequest { max_in_flight: 1, preview: true };
    assert_eq!(GpuDecodeSeekStream::new(&preview), Err(Error::PreviewSelection));
}

struct Engine;

impl GpuSubmissionEngine for Engine {
    type Session = Script;

    fn open(
        &self,
        codestream: &[u8],
        _: &GpuOutputRequest,
        selection: FrameSelection,
    ) -> Result<PreparedGpuSession<Script>, Error> {
        if codestream.is_empty() {
            return Err(Error::Backend);
        }
        let mut only = frame(0, true);
        only.output = match selection {
            FrameSelection::All => 1,
            FrameSelection::Interval { first, end } => (10 * first + end) as u32,
        };
        Ok(prepared(animation(None), vec![Ok(Some(only))], Vec::new()))
    }
}

#[test]
fn a_decoder_opens_sessions_and_seeks() {
    let decoder = GpuDecoder::new(Engine);
    let shared = decoder.share();
    let input = |bytes: &[u8], index_boxes| ParsedInput { codestream: bytes.to_vec(), index_boxes };
    assert!(matches!(
        decoder.open(&input(&[1], 2), request(1)),
        Err(Error::DuplicateAccelerationIndex)
    ));
    assert!(matches!(decoder.open(&input(&[], 0), request(1)), Err(Error::Backend)));
    let mut decode = shared.open(&input(&[1], 1), request(1)).unwrap();
    assert!(decode.next_frame().unwrap().is_some());
    assert_eq!(decode.request().max_in_flight, 1);
    assert_eq!(decode.metadata().width, 4);
    assert_eq!(decode.profile(), DecodeProfile::VarDct { bits_per_sample: 8 });
    let plan = FrameSeekPlan::new(INTERVAL, 0, shown(3, true));
    let mut seek = shared.open_seek(&input(&[1], 0), request(1), plan).unwrap();
    let target = seek.next_frame().unwrap().unwrap();
    assert_eq!((target.metadata.index, *target.output()), (3, 48));
    let plan = FrameSeekPlan::new(INTERVAL, 0, shown(3, true));
    assert!(matches!(shared.open_seek(&input(&[], 0), request(1), plan), Err(Error::Backend)));
    let preview = GpuOutputRequest { max_in_flight: 1, preview: true };
    let plan = FrameSeekPlan::new(INTERVAL, 0, shown(3, true));
    assert!(matches!(
        shared.open_seek(&input(&[1], 0), preview, plan),
        Err(Error::PreviewSelection)
    ));
}
