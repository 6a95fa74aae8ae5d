use ovd_transcribe::deepseek::authorization_bytes;
use ovd_transcribe::ffmpeg::FfmpegError;
use ovd_transcribe::models::VideoErrorCode;
use ovd_transcribe::pipeline::{probe_failure, JobError};
use ovd_transcribe::secrets::ApiKey;
use ovd_transcribe::video::{
    video_step, FailReason, MetadataOutcome, VideoEnd, VideoEvent, VideoPhase, VideoRun, VideoStep,
};

fn started(overwrite: bool) -> VideoRun {
    let mut run = VideoRun::new();
    let expected = if overwrite { VideoStep::FetchMetadata } else { VideoStep::CheckExisting };
    assert_eq!(video_step(&mut run, VideoEvent::Begin { has_root: true, overwrite }), expected);
    run
}

#[test]
fn a_full_run_walks_every_stage_in_order() {
    let mut run = started(false);
    let steps = [
        (VideoEvent::ExistingOutputs { found: false }, VideoStep::FetchMetadata),
        (VideoEvent::Metadata { outcome: MetadataOutcome::Single }, VideoStep::Download),
        (VideoEvent::Downloaded { cancelled: false }, VideoStep::LoadSegments),
        (VideoEvent::SegmentsStored { found: false }, VideoStep::Transcribe),
        (VideoEvent::Transcribed { segments: 3 }, VideoStep::WriteEnglish),
        (VideoEvent::EnglishWritten { cancelled: false }, VideoStep::LoadBlocks),
        (VideoEvent::BlocksStored { complete: true, cancelled: false }, VideoStep::Translate),
        (VideoEvent::Translated { cancelled: false }, VideoStep::Assemble),
        (VideoEvent::Assembled { ok: true }, VideoStep::WriteChinese),
        (VideoEvent::ChineseWritten, VideoStep::CleanUp),
        (VideoEvent::CleanedUp, VideoStep::Finish(VideoEnd::Done { skipped: false })),
    ];
    for (event, expected) in steps {
        assert_eq!(video_step(&mut run, event), expected);
    }
    assert_eq!(run.phase, VideoPhase::Finished);
    assert_eq!(video_step(&mut run, VideoEvent::CleanedUp), VideoStep::Idle);
}

#[test]
fn finished_outputs_are_skipped_before_any_fetch() {
    let mut run = started(false);
    assert_eq!(
        video_step(&mut run, VideoEvent::ExistingOutputs { found: true }),
        VideoStep::Finish(VideoEnd::Done { skipped: true })
    );
    let overwrite = started(true);
    assert_eq!(overwrite.phase, VideoPhase::Fetching);
}

#[test]
fn reused_segments_with_complete_blocks_skip_the_translation() {
    let mut run = started(false);
    video_step(&mut run, VideoEvent::ExistingOutputs { found: false });
    video_step(&mut run, VideoEvent::Metadata { outcome: MetadataOutcome::Single });
    video_step(&mut run, VideoEvent::Downloaded { cancelled: false });
    assert_eq!(video_step(&mut run, VideoEvent::SegmentsStored { found: true }), VideoStep::WriteEnglish);
    assert!(run.segments_reused);
    video_step(&mut run, VideoEvent::EnglishWritten { cancelled: false });
    assert_eq!(
        video_step(&mut run, VideoEvent::BlocksStored { complete: true, cancelled: false }),
        VideoStep::Assemble
    );
}

#[test]
fn no_speech_ends_as_skipped_and_cancel_ends_as_cancelled() {
    let mut run = started(true);
    video_step(&mut run, VideoEvent::Metadata { outcome: MetadataOutcome::Single });
    assert_eq!(video_step(&mut run, VideoEvent::Downloaded { cancelled: false }), VideoStep::Transcribe);
    assert_eq!(
        video_step(&mut run, VideoEvent::Transcribed { segments: 0 }),
        VideoStep::Finish(VideoEnd::Done { skipped: true })
    );

    let mut cancelled = started(false);
    video_step(&mut cancelled, VideoEvent::ExistingOutputs { found: false });
    video_step(&mut cancelled, VideoEvent::Metadata { outcome: MetadataOutcome::Single });
    assert_eq!(
        video_step(&mut cancelled, VideoEvent::Downloaded { cancelled: true }),
        VideoStep::Finish(VideoEnd::Cancelled)
    );
    assert_eq!(video_step(&mut cancelled, VideoEvent::ChineseWritten), VideoStep::Idle);
}

#[test]
fn failures_carry_their_code_and_reason() {
    let mut run = VideoRun::new();
    assert_eq!(
        video_step(&mut run, VideoEvent::Begin { has_root: false, overwrite: false }),
        VideoStep::Finish(VideoEnd::Failed { code: VideoErrorCode::OutputWriteFailed, reason: FailReason::NoRootDir })
    );
    assert_eq!(FailReason::NoRootDir.message(), "output root directory is not configured");

    let mut fetch = started(false);
    video_step(&mut fetch, VideoEvent::ExistingOutputs { found: false });
    assert_eq!(
        video_step(&mut fetch, VideoEvent::Metadata { outcome: MetadataOutcome::Collection }),
        VideoStep::Finish(VideoEnd::Failed { code: VideoErrorCode::FetchFailed, reason: FailReason::NotSingleVideo })
    );

    let mut stage = started(false);
    assert_eq!(
        video_step(&mut stage, VideoEvent::Failed(JobError::failed(VideoErrorCode::DownloadFailed, "boom".into()))),
        VideoStep::Finish(VideoEnd::Failed {
            code: VideoErrorCode::DownloadFailed,
            reason: FailReason::Stage("boom".into()),
        })
    );
}

#[test]
fn the_authorization_value_is_bearer_and_the_key() {
    assert_eq!(authorization_bytes(&ApiKey::new(b"sk-1".to_vec())), b"Bearer sk-1".to_vec());
}

#[test]
fn probe_failures_map_to_missing_tool_or_unknown_duration() {
    assert_eq!(
        probe_failure(&FfmpegError::SpawnFailed("no ffprobe".into())),
        (VideoErrorCode::FfmpegMissing, "no ffprobe".to_string())
    );
    assert_eq!(probe_failure(&FfmpegError::InvalidDuration).0, VideoErrorCode::DurationUnknown);
}
