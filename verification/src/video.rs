//! The course of one video through the pipeline, as a state machine: the caller performs
//! each action (a lookup, a tool run, a request, a write) and reports what happened; the
//! step function decides what comes next — resume, skip, work, cancel or fail.
use crate::models::VideoErrorCode;
use crate::pipeline::{translation_reusable, JobError};
use crate::text::push_str;
use vstd::prelude::*;

verus! {

/// Where a video stands.
#[derive(Debug, Clone, Copy, PartialEq, Eq, Structural)]
pub enum VideoPhase {
    /// Nothing has happened yet.
    Start,
    /// Looking for finished outputs of the same URL (local files only; not when the run
    /// overwrites).
    CheckingExisting,
    /// Reading the video's metadata.
    Fetching,
    /// Downloading the audio.
    Downloading,
    /// Looking for stored segments of an earlier run.
    LoadingSegments,
    /// Running whisper over the chunks.
    Transcribing,
    /// Writing the English transcript.
    WritingEnglish,
    /// Looking at the stored block translations.
    PlanningTranslation,
    /// Translating the blocks that still need it.
    Translating,
    /// Assembling the Chinese transcript from the stored blocks.
    Assembling,
    /// Writing the Chinese transcript.
    WritingChinese,
    /// Removing the downloaded audio (unless it is kept).
    CleaningUp,
    /// The video has its outcome; nothing more happens.
    Finished,
}

/// The state of one video run.
#[derive(Debug, Clone, Copy, PartialEq, Eq, Structural)]
pub struct VideoRun {
    pub phase: VideoPhase,
    /// `output.overwrite`: rerun every stage.
    pub overwrite: bool,
    /// The segments came from an earlier run instead of whisper.
    pub segments_reused: bool,
}

/// What the metadata fetch found.
#[derive(Debug, Clone, Copy, PartialEq, Eq, Structural)]
pub enum MetadataOutcome {
    /// One video.
    Single,
    /// A playlist or a livestream (those are expanded before the batch starts).
    Collection,
    /// Nothing could be read.
    Missing,
}

/// What the caller reports after an action.
pub enum VideoEvent {
    /// The run starts; whether an output root is configured, and the overwrite setting.
    Begin { has_root: bool, overwrite: bool },
    /// Whether a finished output of the same URL exists.
    ExistingOutputs { found: bool },
    /// The metadata fetch ended.
    Metadata { outcome: MetadataOutcome },
    /// The audio is downloaded; whether a cancel was requested since.
    Downloaded { cancelled: bool },
    /// Whether `segments.json` of an earlier run holds segments.
    SegmentsStored { found: bool },
    /// Whisper ran; how many segments it produced.
    Transcribed { segments: usize },
    /// The English transcript is written; whether a cancel was requested since.
    EnglishWritten { cancelled: bool },
    /// Whether the stored block translations cover the plan; whether a cancel was
    /// requested since the English transcript was written.
    BlocksStored { complete: bool, cancelled: bool },
    /// The pending blocks are translated; whether a cancel was requested since.
    Translated { cancelled: bool },
    /// Whether the stored blocks assembled into a Chinese transcript.
    Assembled { ok: bool },
    /// The Chinese transcript is written.
    ChineseWritten,
    /// The audio is removed (or kept).
    CleanedUp,
    /// The running action failed, or was cancelled.
    Failed(JobError),
}

/// Why a video failed.
#[derive(Debug, Clone, PartialEq, Eq)]
pub enum FailReason {
    /// No output root directory is configured.
    NoRootDir,
    /// The link is a playlist or livestream.
    NotSingleVideo,
    /// The metadata could not be read.
    NoMetadata,
    /// The stored block translations do not cover the planned paragraphs.
    BlocksDoNotCover,
    /// A stage failed with this message.
    Stage(String),
}

/// How a video ends.
#[derive(Debug, Clone, PartialEq, Eq)]
pub enum VideoEnd {
    /// Finished; `skipped` when no work was needed (finished outputs, or no speech).
    Done { skipped: bool },
    /// Failed with this code.
    Failed { code: VideoErrorCode, reason: FailReason },
    /// Cancelled; the work files stay for a later resume.
    Cancelled,
}

/// What the caller does next.
#[derive(Debug, Clone, PartialEq, Eq)]
pub enum VideoStep {
    /// Look for finished outputs of the URL.
    CheckExisting,
    /// Read the metadata.
    FetchMetadata,
    /// Write the source marker and download the audio.
    Download,
    /// Read `segments.json` of an earlier run.
    LoadSegments,
    /// Cut the audio into chunks, run whisper and store the merged segments.
    Transcribe,
    /// Write the English transcript.
    WriteEnglish,
    /// Plan the blocks and read `zh.blocks.json`.
    LoadBlocks,
    /// Translate the pending blocks.
    Translate,
    /// Assemble the Chinese transcript from the stored blocks.
    Assemble,
    /// Write the Chinese transcript.
    WriteChinese,
    /// Remove the downloaded audio unless it is kept.
    CleanUp,
    /// End the video.
    Finish(VideoEnd),
    /// Nothing to do.
    Idle,
}

/// Whether an action writes or removes files.
pub open spec fn writes_files(step: VideoStep) -> bool {
    step is Download || step is Transcribe || step is WriteEnglish || step is Translate
        || step is WriteChinese || step is CleanUp
}

/// Whether an action reaches the network.
pub open spec fn uses_network(step: VideoStep) -> bool {
    step is FetchMetadata || step is Download || step is Translate
}

/// The stored translation is reused: the transcription was reused too, the stored blocks
/// are complete and the run does not overwrite (see [`translation_reusable`]).
pub open spec fn reuses_translation(run: VideoRun, complete: bool) -> bool {
    run.segments_reused && complete && !run.overwrite
}

/// A run that has not started.
pub open spec fn fresh_run() -> VideoRun {
    VideoRun { phase: VideoPhase::Start, overwrite: false, segments_reused: false }
}

pub open spec fn finish(run: VideoRun, end: VideoEnd) -> (VideoRun, VideoStep) {
    (VideoRun { phase: VideoPhase::Finished, ..run }, VideoStep::Finish(end))
}

pub open spec fn go(run: VideoRun, phase: VideoPhase, step: VideoStep) -> (VideoRun, VideoStep) {
    (VideoRun { phase, ..run }, step)
}

/// The next state and action after `event`. Finished runs stay finished and do nothing;
/// an event that does not belong to the current phase changes nothing.
pub open spec fn video_next(run: VideoRun, event: VideoEvent) -> (VideoRun, VideoStep) {
    if run.phase == VideoPhase::Finished {
        (run, VideoStep::Idle)
    } else {
        match event {
            VideoEvent::Failed(JobError::Cancelled) => finish(run, VideoEnd::Cancelled),
            VideoEvent::Failed(JobError::Failed(code, message)) => finish(
                run,
                VideoEnd::Failed { code, reason: FailReason::Stage(message) },
            ),
            VideoEvent::Begin { has_root, overwrite } => if run.phase == VideoPhase::Start {
                if !has_root {
                    finish(
                        run,
                        VideoEnd::Failed {
                            code: VideoErrorCode::OutputWriteFailed,
                            reason: FailReason::NoRootDir,
                        },
                    )
                } else if overwrite {
                    (
                        VideoRun { phase: VideoPhase::Fetching, overwrite, segments_reused: false },
                        VideoStep::FetchMetadata,
                    )
                } else {
                    (
                        VideoRun {
                            phase: VideoPhase::CheckingExisting,
                            overwrite,
                            segments_reused: false,
                        },
                        VideoStep::CheckExisting,
                    )
                }
            } else {
                (run, VideoStep::Idle)
            },
            VideoEvent::ExistingOutputs { found } => if run.phase == VideoPhase::CheckingExisting {
                if found && !run.overwrite {
                    finish(run, VideoEnd::Done { skipped: true })
                } else {
                    go(run, VideoPhase::Fetching, VideoStep::FetchMetadata)
                }
            } else {
                (run, VideoStep::Idle)
            },
            VideoEvent::Metadata { outcome } => if run.phase == VideoPhase::Fetching {
                match outcome {
                    MetadataOutcome::Single => go(run, VideoPhase::Downloading, VideoStep::Download),
                    MetadataOutcome::Collection => finish(
                        run,
                        VideoEnd::Failed {
                            code: VideoErrorCode::FetchFailed,
                            reason: FailReason::NotSingleVideo,
                        },
                    ),
                    MetadataOutcome::Missing => finish(
                        run,
                        VideoEnd::Failed {
                            code: VideoErrorCode::FetchFailed,
                            reason: FailReason::NoMetadata,
                        },
                    ),
                }
            } else {
                (run, VideoStep::Idle)
            },
            VideoEvent::Downloaded { cancelled } => if run.phase == VideoPhase::Downloading {
                if cancelled {
                    finish(run, VideoEnd::Cancelled)
                } else if run.overwrite {
                    go(run, VideoPhase::Transcribing, VideoStep::Transcribe)
                } else {
                    go(run, VideoPhase::LoadingSegments, VideoStep::LoadSegments)
                }
            } else {
                (run, VideoStep::Idle)
            },
            VideoEvent::SegmentsStored { found } => if run.phase == VideoPhase::LoadingSegments {
                if found {
                    (
                        VideoRun { phase: VideoPhase::WritingEnglish, segments_reused: true, ..run },
                        VideoStep::WriteEnglish,
                    )
                } else {
                    go(run, VideoPhase::Transcribing, VideoStep::Transcribe)
                }
            } else {
                (run, VideoStep::Idle)
            },
            VideoEvent::Transcribed { segments } => if run.phase == VideoPhase::Transcribing {
                if segments == 0 {
                    finish(run, VideoEnd::Done { skipped: true })
                } else {
                    go(run, VideoPhase::WritingEnglish, VideoStep::WriteEnglish)
                }
            } else {
                (run, VideoStep::Idle)
            },
            VideoEvent::EnglishWritten { cancelled } => if run.phase == VideoPhase::WritingEnglish {
                if cancelled {
                    finish(run, VideoEnd::Cancelled)
                } else {
                    go(run, VideoPhase::PlanningTranslation, VideoStep::LoadBlocks)
                }
            } else {
                (run, VideoStep::Idle)
            },
            VideoEvent::BlocksStored { complete, cancelled } => if run.phase
                == VideoPhase::PlanningTranslation {
                if !reuses_translation(run, complete) {
                    go(run, VideoPhase::Translating, VideoStep::Translate)
                } else if cancelled {
                    finish(run, VideoEnd::Cancelled)
                } else {
                    go(run, VideoPhase::Assembling, VideoStep::Assemble)
                }
            } else {
                (run, VideoStep::Idle)
            },
            VideoEvent::Translated { cancelled } => if run.phase == VideoPhase::Translating {
                if cancelled {
                    finish(run, VideoEnd::Cancelled)
                } else {
                    go(run, VideoPhase::Assembling, VideoStep::Assemble)
                }
            } else {
                (run, VideoStep::Idle)
            },
            VideoEvent::Assembled { ok } => if run.phase == VideoPhase::Assembling {
                if ok {
                    go(run, VideoPhase::WritingChinese, VideoStep::WriteChinese)
                } else {
                    finish(
                        run,
                        VideoEnd::Failed {
                            code: VideoErrorCode::TranslationContractViolation,
                            reason: FailReason::BlocksDoNotCover,
                        },
                    )
                }
            } else {
                (run, VideoStep::Idle)
            },
            VideoEvent::ChineseWritten => if run.phase == VideoPhase::WritingChinese {
                go(run, VideoPhase::CleaningUp, VideoStep::CleanUp)
            } else {
                (run, VideoStep::Idle)
            },
            VideoEvent::CleanedUp => if run.phase == VideoPhase::CleaningUp {
                finish(run, VideoEnd::Done { skipped: false })
            } else {
                (run, VideoStep::Idle)
            },
        }
    }
}

impl VideoRun {
    /// A run that has not started.
    pub fn new() -> (r: Self)
        ensures
            r == fresh_run(),
    {
        VideoRun { phase: VideoPhase::Start, overwrite: false, segments_reused: false }
    }
}

fn finished(run: &mut VideoRun, end: VideoEnd) -> (r: VideoStep)
    ensures
        (*final(run), r) == finish(*old(run), end),
{
    run.phase = VideoPhase::Finished;
    VideoStep::Finish(end)
}

fn advance(run: &mut VideoRun, phase: VideoPhase, step: VideoStep) -> (r: VideoStep)
    ensures
        (*final(run), r) == go(*old(run), phase, step),
{
    run.phase = phase;
    step
}

/// Takes one step: records what `event` reports and returns the next action.
pub fn video_step(run: &mut VideoRun, event: VideoEvent) -> (action: VideoStep)
    ensures
        *final(run) == video_next(*old(run), event).0,
        action == video_next(*old(run), event).1,
{
    if run.phase == VideoPhase::Finished {
        return VideoStep::Idle;
    }
    match event {
        VideoEvent::Failed(JobError::Cancelled) => finished(run, VideoEnd::Cancelled),
        VideoEvent::Failed(JobError::Failed(code, message)) => finished(
            run,
            VideoEnd::Failed { code, reason: FailReason::Stage(message) },
        ),
        VideoEvent::Begin { has_root, overwrite } => {
            if run.phase != VideoPhase::Start {
                VideoStep::Idle
            } else if !has_root {
                finished(
                    run,
                    VideoEnd::Failed {
                        code: VideoErrorCode::OutputWriteFailed,
                        reason: FailReason::NoRootDir,
                    },
                )
            } else if overwrite {
                *run = VideoRun { phase: VideoPhase::Fetching, overwrite, segments_reused: false };
                VideoStep::FetchMetadata
            } else {
                *run = VideoRun {
                    phase: VideoPhase::CheckingExisting,
                    overwrite,
                    segments_reused: false,
                };
                VideoStep::CheckExisting
            }
        },
        VideoEvent::ExistingOutputs { found } => {
            if run.phase != VideoPhase::CheckingExisting {
                VideoStep::Idle
            } else if found && !run.overwrite {
                finished(run, VideoEnd::Done { skipped: true })
            } else {
                advance(run, VideoPhase::Fetching, VideoStep::FetchMetadata)
            }
        },
        VideoEvent::Metadata { outcome } => {
            if run.phase != VideoPhase::Fetching {
                VideoStep::Idle
            } else {
                match outcome {
                    MetadataOutcome::Single => advance(
                        run,
                        VideoPhase::Downloading,
                        VideoStep::Download,
                    ),
                    MetadataOutcome::Collection => finished(
                        run,
                        VideoEnd::Failed {
                            code: VideoErrorCode::FetchFailed,
                            reason: FailReason::NotSingleVideo,
                        },
                    ),
                    MetadataOutcome::Missing => finished(
                        run,
                        VideoEnd::Failed {
                            code: VideoErrorCode::FetchFailed,
                            reason: FailReason::NoMetadata,
                        },
                    ),
                }
            }
        },
        VideoEvent::Downloaded { cancelled } => {
            if run.phase != VideoPhase::Downloading {
                VideoStep::Idle
            } else if cancelled {
                finished(run, VideoEnd::Cancelled)
            } else if run.overwrite {
                advance(run, VideoPhase::Transcribing, VideoStep::Transcribe)
            } else {
                advance(run, VideoPhase::LoadingSegments, VideoStep::LoadSegments)
            }
        },
        VideoEvent::SegmentsStored { found } => {
            if run.phase != VideoPhase::LoadingSegments {
                VideoStep::Idle
            } else if found {
                run.phase = VideoPhase::WritingEnglish;
                run.segments_reused = true;
                VideoStep::WriteEnglish
            } else {
                advance(run, VideoPhase::Transcribing, VideoStep::Transcribe)
            }
        },
        VideoEvent::Transcribed { segments } => {
            if run.phase != VideoPhase::Transcribing {
                VideoStep::Idle
            } else if segments == 0 {
                finished(run, VideoEnd::Done { skipped: true })
            } else {
                advance(run, VideoPhase::WritingEnglish, VideoStep::WriteEnglish)
            }
        },
        VideoEvent::EnglishWritten { cancelled } => {
            if run.phase != VideoPhase::WritingEnglish {
                VideoStep::Idle
            } else if cancelled {
                finished(run, VideoEnd::Cancelled)
            } else {
                advance(run, VideoPhase::PlanningTranslation, VideoStep::LoadBlocks)
            }
        },
        VideoEvent::BlocksStored { complete, cancelled } => {
            if run.phase != VideoPhase::PlanningTranslation {
                VideoStep::Idle
            } else if !translation_reusable(run.segments_reused, complete, run.overwrite) {
                advance(run, VideoPhase::Translating, VideoStep::Translate)
            } else if cancelled {
                finished(run, VideoEnd::Cancelled)
            } else {
                advance(run, VideoPhase::Assembling, VideoStep::Assemble)
            }
        },
        VideoEvent::Translated { cancelled } => {
            if run.phase != VideoPhase::Translating {
                VideoStep::Idle
            } else if cancelled {
                finished(run, VideoEnd::Cancelled)
            } else {
                advance(run, VideoPhase::Assembling, VideoStep::Assemble)
            }
        },
        VideoEvent::Assembled { ok } => {
            if run.phase != VideoPhase::Assembling {
                VideoStep::Idle
            } else if ok {
                advance(run, VideoPhase::WritingChinese, VideoStep::WriteChinese)
            } else {
                finished(
                    run,
                    VideoEnd::Failed {
                        code: VideoErrorCode::TranslationContractViolation,
                        reason: FailReason::BlocksDoNotCover,
                    },
                )
            }
        },
        VideoEvent::ChineseWritten => {
            if run.phase != VideoPhase::WritingChinese {
                VideoStep::Idle
            } else {
                advance(run, VideoPhase::CleaningUp, VideoStep::CleanUp)
            }
        },
        VideoEvent::CleanedUp => {
            if run.phase != VideoPhase::CleaningUp {
                VideoStep::Idle
            } else {
                finished(run, VideoEnd::Done { skipped: false })
            }
        },
    }
}

/// The state and the actions after `events`, taken one after the other from `run`.
pub open spec fn run_events(run: VideoRun, events: Seq<VideoEvent>) -> (VideoRun, Seq<VideoStep>)
    decreases events.len(),
{
    if events.len() == 0 {
        (run, Seq::empty())
    } else {
        let before = run_events(run, events.drop_last());
        let next = video_next(before.0, events.last());
        (next.0, before.1.push(next.1))
    }
}

/// A finished video stays finished: whatever is reported afterwards changes nothing and
/// leads to no action, so nothing is written, fetched or requested any more.
pub proof fn law_finished_runs_do_nothing(run: VideoRun, events: Seq<VideoEvent>)
    requires
        run.phase == VideoPhase::Finished,
    ensures
        run_events(run, events).0 == run,
        run_events(run, events).1.len() == events.len(),
        forall|i: int|
            0 <= i < events.len() ==> #[trigger] run_events(run, events).1[i] == VideoStep::Idle,
    decreases events.len(),
{
    if events.len() > 0 {
        law_finished_runs_do_nothing(run, events.drop_last());
        let before = run_events(run, events.drop_last());
        assert forall|i: int| 0 <= i < events.len() implies #[trigger] run_events(run, events).1[i]
            == VideoStep::Idle by {
            if i < events.len() - 1 {
                assert(run_events(run, events).1[i] == before.1[i]);
            }
        }
    }
}

/// A cancel ends the video as cancelled from any unfinished phase: a cancelled stage, or a
/// cancel noticed after the download, after the English transcript, before the Chinese
/// transcript is assembled from reused blocks, or after the translation. After that no
/// action follows, in particular no write (the work files stay for a resume).
pub proof fn law_cancel_stops_every_write(run: VideoRun, event: VideoEvent, later: Seq<VideoEvent>)
    requires
        run.phase != VideoPhase::Finished,
        event is Failed && event->Failed_0 is Cancelled || (run.phase == VideoPhase::Downloading
            && event == (VideoEvent::Downloaded { cancelled: true })) || (run.phase
            == VideoPhase::WritingEnglish && event == (VideoEvent::EnglishWritten {
            cancelled: true,
        })) || (run.phase == VideoPhase::Translating && event == (VideoEvent::Translated {
            cancelled: true,
        })) || (run.phase == VideoPhase::PlanningTranslation && event is BlocksStored
            && event->BlocksStored_cancelled && reuses_translation(
            run,
            event->BlocksStored_complete,
        )),
    ensures
        video_next(run, event).1 == VideoStep::Finish(VideoEnd::Cancelled),
        video_next(run, event).0.phase == VideoPhase::Finished,
        forall|i: int|
            0 <= i < later.len() ==> !writes_files(
                #[trigger] run_events(video_next(run, event).0, later).1[i],
            ),
{
    law_finished_runs_do_nothing(video_next(run, event).0, later);
}

/// No speech means nothing to translate: zero segments end the video as done and
/// skipped, with no further write.
pub proof fn law_no_speech_is_skipped(run: VideoRun)
    requires
        run.phase == VideoPhase::Transcribing,
    ensures
        video_next(run, VideoEvent::Transcribed { segments: 0 }) == finish(
            run,
            VideoEnd::Done { skipped: true },
        ),
        !writes_files(video_next(run, VideoEvent::Transcribed { segments: 0 }).1),
{
}

/// The translation is skipped exactly when the stored translation is reusable (see
/// [`translation_reusable`]); otherwise the pending blocks are translated.
pub proof fn law_translation_skipped_exactly_when_reusable(
    run: VideoRun,
    complete: bool,
    cancelled: bool,
)
    requires
        run.phase == VideoPhase::PlanningTranslation,
    ensures
        (video_next(run, VideoEvent::BlocksStored { complete, cancelled }).1 == VideoStep::Translate)
            <==> !reuses_translation(run, complete),
{
}

proof fn lemma_early_phases(run: VideoRun, event: VideoEvent)
    requires
        video_next(run, event).0.phase == VideoPhase::Start || video_next(run, event).0.phase
            == VideoPhase::CheckingExisting,
    ensures
        run.phase == VideoPhase::Start || run.phase == VideoPhase::CheckingExisting,
        !uses_network(video_next(run, event).1),
{
}

proof fn lemma_no_network_before_fetching(events: Seq<VideoEvent>)
    requires
        run_events(fresh_run(), events).0.phase == VideoPhase::Start || run_events(
            fresh_run(),
            events,
        ).0.phase == VideoPhase::CheckingExisting,
    ensures
        forall|i: int|
            0 <= i < run_events(fresh_run(), events).1.len() ==> !uses_network(
                #[trigger] run_events(fresh_run(), events).1[i],
            ),
        run_events(fresh_run(), events).1.len() == events.len(),
    decreases events.len(),
{
    if events.len() > 0 {
        let before = run_events(fresh_run(), events.drop_last());
        lemma_early_phases(before.0, events.last());
        lemma_no_network_before_fetching(events.drop_last());
        let acts = run_events(fresh_run(), events).1;
        assert forall|i: int| 0 <= i < acts.len() implies !uses_network(#[trigger] acts[i]) by {
            if i < before.1.len() {
                assert(acts[i] == before.1[i]);
            }
        }
    }
}

/// A video with finished outputs is skipped before anything reaches the network: when a
/// run from the start ends as done and skipped while it looks for existing outputs, none
/// of its earlier actions fetched metadata, downloaded or translated.
pub proof fn law_existing_outputs_skip_without_network(events: Seq<VideoEvent>, last: VideoEvent)
    requires
        run_events(fresh_run(), events).0.phase == VideoPhase::CheckingExisting,
        video_next(run_events(fresh_run(), events).0, last).1 == VideoStep::Finish(
            VideoEnd::Done { skipped: true },
        ),
    ensures
        forall|i: int|
            0 <= i < events.len() ==> !uses_network(#[trigger] run_events(fresh_run(), events).1[i]),
        !uses_network(video_next(run_events(fresh_run(), events).0, last).1),
{
    lemma_no_network_before_fetching(events);
}

/// A video that cannot be fetched fails: while fetching, metadata that cannot be read or
/// names a playlist or livestream ends the video with `fetchFailed`, and only a single
/// video goes on to the download.
pub proof fn law_unreadable_metadata_fails(run: VideoRun, outcome: MetadataOutcome)
    requires
        run.phase == VideoPhase::Fetching,
    ensures
        outcome == MetadataOutcome::Missing ==> video_next(run, VideoEvent::Metadata { outcome }).1
            == VideoStep::Finish(
            VideoEnd::Failed { code: VideoErrorCode::FetchFailed, reason: FailReason::NoMetadata },
        ),
        outcome == MetadataOutcome::Collection ==> video_next(
            run,
            VideoEvent::Metadata { outcome },
        ).1 == VideoStep::Finish(
            VideoEnd::Failed {
                code: VideoErrorCode::FetchFailed,
                reason: FailReason::NotSingleVideo,
            },
        ),
        outcome == MetadataOutcome::Single <==> video_next(run, VideoEvent::Metadata { outcome }).1
            == VideoStep::Download,
{
}

/// A video ends as done and skipped for exactly two reasons: finished outputs of its URL
/// were found (and the run does not overwrite), or whisper found no speech. No other
/// state and event skips a video.
pub proof fn law_skips_have_only_two_causes(run: VideoRun, event: VideoEvent)
    ensures
        video_next(run, event).1 == VideoStep::Finish(VideoEnd::Done { skipped: true }) <==> (
        run.phase == VideoPhase::CheckingExisting && !run.overwrite && event == (
        VideoEvent::ExistingOutputs { found: true })) || (run.phase == VideoPhase::Transcribing
            && event == (VideoEvent::Transcribed { segments: 0 })),
{
}

/// A video ends as failed only on a missing output root, a failed or unusable fetch, a
/// failed stage, or stored blocks that do not cover the plan; and a failed stage ends
/// it with that stage's code and message.
pub proof fn law_failures_have_their_causes(run: VideoRun, event: VideoEvent)
    ensures
        video_next(run, event).1 is Finish && video_next(run, event).1->Finish_0 is Failed ==> (
        run.phase == VideoPhase::Start && event == (VideoEvent::Begin {
            has_root: false,
            overwrite: event->Begin_overwrite,
        })) || (run.phase == VideoPhase::Fetching && event is Metadata
            && event->Metadata_outcome != MetadataOutcome::Single) || (run.phase
            == VideoPhase::Assembling && event == (VideoEvent::Assembled { ok: false })) || (
        run.phase != VideoPhase::Finished && event is Failed && event->Failed_0 is Failed),
        run.phase != VideoPhase::Finished && event is Failed && event->Failed_0 is Failed
            ==> video_next(run, event).1 == VideoStep::Finish(
            VideoEnd::Failed {
                code: event->Failed_0->Failed_0,
                reason: FailReason::Stage(event->Failed_0->Failed_1),
            },
        ),
{
}

/// The text of each failure reason.
pub open spec fn fail_text(reason: FailReason) -> Seq<char> {
    match reason {
        FailReason::NoRootDir => "output root directory is not configured"@,
        FailReason::NotSingleVideo => "playlist and livestream links are expanded before the batch starts"@,
        FailReason::NoMetadata => "could not read video metadata"@,
        FailReason::BlocksDoNotCover => "stored block translations do not cover the planned paragraphs"@,
        FailReason::Stage(message) => message@,
    }
}

impl FailReason {
    /// The failure message logged and shown with the error code.
    pub fn message(&self) -> (r: String)
        ensures
            r@ == fail_text(*self),
    {
        match self {
            FailReason::NoRootDir => {
                let mut s = String::new();
                push_str(&mut s, "output root directory is not configured");
                s
            },
            FailReason::NotSingleVideo => {
                let mut s = String::new();
                push_str(&mut s, "playlist and livestream links are expanded before the batch starts");
                s
            },
            FailReason::NoMetadata => {
                let mut s = String::new();
                push_str(&mut s, "could not read video metadata");
                s
            },
            FailReason::BlocksDoNotCover => {
                let mut s = String::new();
                push_str(&mut s, "stored block translations do not cover the planned paragraphs");
                s
            },
            FailReason::Stage(message) => message.clone(),
        }
    }
}

} // verus!
