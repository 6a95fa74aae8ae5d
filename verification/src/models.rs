//! Stage names, terminal codes and the payload shapes of the transcribe pipeline.
use crate::text::push_str;
use vstd::prelude::*;

verus! {

/// Stage names carried by `transcribe_stage`.
#[derive(Debug, Clone, Copy, PartialEq, Eq, Structural)]
pub enum TranscribeStage {
    DownloadingAudio,
    Transcribing,
    Translating,
    Writing,
}

pub open spec fn stage_name(stage: TranscribeStage) -> Seq<char> {
    match stage {
        TranscribeStage::DownloadingAudio => "downloadingAudio"@,
        TranscribeStage::Transcribing => "transcribing"@,
        TranscribeStage::Translating => "translating"@,
        TranscribeStage::Writing => "writing"@,
    }
}

impl TranscribeStage {
    pub fn as_str(self) -> (r: &'static str)
        ensures
            r@ == stage_name(self),
    {
        match self {
            TranscribeStage::DownloadingAudio => "downloadingAudio",
            TranscribeStage::Transcribing => "transcribing",
            TranscribeStage::Translating => "translating",
            TranscribeStage::Writing => "writing",
        }
    }
}

/// `transcribe_stage` payload.
#[derive(Debug, Clone)]
pub struct TranscribeStagePayload {
    pub id: String,
    pub group_id: String,
    pub stage: TranscribeStage,
}

/// `translate_progress` payload.
#[derive(Debug, Clone)]
pub struct TranslateProgressPayload {
    pub id: String,
    pub group_id: String,
    pub block_index: usize,
    pub block_total: usize,
    pub prompt_tokens: u64,
    pub completion_tokens: u64,
}

/// Which transcript an `artifact_written` event announces.
#[derive(Debug, Clone, Copy, PartialEq, Eq, Structural)]
pub enum ArtifactKind {
    En,
    Zh,
}

/// `artifact_written` payload.
#[derive(Debug, Clone)]
pub struct ArtifactWrittenPayload {
    pub id: String,
    pub group_id: String,
    pub kind: ArtifactKind,
    pub path: String,
}

/// Terminal status of one video in a batch (skipped is a marker on `Done`).
#[derive(Debug, Clone, Copy, PartialEq, Eq, Structural)]
pub enum VideoStatus {
    Done,
    Failed,
    Cancelled,
}

/// Stable error codes of the error table; every code has a log line.
#[derive(Debug, Clone, Copy, PartialEq, Eq, Structural)]
pub enum VideoErrorCode {
    WhisperMissing,
    WhisperOutOfMemory,
    WhisperFailed,
    FfmpegMissing,
    FfmpegChunkFailed,
    DurationUnknown,
    NoSpeechDetected,
    DeepseekAuthFailed,
    DeepseekRateLimited,
    DeepseekServerError,
    DeepseekTimeout,
    TranslationContractViolation,
    OutputWriteFailed,
    DownloadFailed,
    FetchFailed,
}

pub open spec fn code_name(code: VideoErrorCode) -> Seq<char> {
    match code {
        VideoErrorCode::WhisperMissing => "whisperMissing"@,
        VideoErrorCode::WhisperOutOfMemory => "whisperOutOfMemory"@,
        VideoErrorCode::WhisperFailed => "whisperFailed"@,
        VideoErrorCode::FfmpegMissing => "ffmpegMissing"@,
        VideoErrorCode::FfmpegChunkFailed => "ffmpegChunkFailed"@,
        VideoErrorCode::DurationUnknown => "durationUnknown"@,
        VideoErrorCode::NoSpeechDetected => "noSpeechDetected"@,
        VideoErrorCode::DeepseekAuthFailed => "deepseekAuthFailed"@,
        VideoErrorCode::DeepseekRateLimited => "deepseekRateLimited"@,
        VideoErrorCode::DeepseekServerError => "deepseekServerError"@,
        VideoErrorCode::DeepseekTimeout => "deepseekTimeout"@,
        VideoErrorCode::TranslationContractViolation => "translationContractViolation"@,
        VideoErrorCode::OutputWriteFailed => "outputWriteFailed"@,
        VideoErrorCode::DownloadFailed => "downloadFailed"@,
        VideoErrorCode::FetchFailed => "fetchFailed"@,
    }
}

/// Different error codes have different names, so a logged or summarised code names
/// exactly one error.
pub proof fn law_code_names_are_distinct(a: VideoErrorCode, b: VideoErrorCode)
    ensures
        code_name(a) == code_name(b) ==> a == b,
{
    reveal_strlit("whisperMissing");
    reveal_strlit("whisperOutOfMemory");
    reveal_strlit("whisperFailed");
    reveal_strlit("ffmpegMissing");
    reveal_strlit("ffmpegChunkFailed");
    reveal_strlit("durationUnknown");
    reveal_strlit("noSpeechDetected");
    reveal_strlit("deepseekAuthFailed");
    reveal_strlit("deepseekRateLimited");
    reveal_strlit("deepseekServerError");
    reveal_strlit("deepseekTimeout");
    reveal_strlit("translationContractViolation");
    reveal_strlit("outputWriteFailed");
    reveal_strlit("downloadFailed");
    reveal_strlit("fetchFailed");
    if code_name(a) == code_name(b) && a != b {
        let x = code_name(a);
        let y = code_name(b);
        assert(x.len() == y.len());
        assert(x[0] == y[0] && x[1] == y[1] && x[2] == y[2] && x[3] == y[3] && x[4] == y[4]);
        assert(x[8] == y[8] && x[9] == y[9]);
        assert(x[x.len() - 1] == y[y.len() - 1]);
    }
}

impl VideoErrorCode {
    pub fn as_str(self) -> (r: &'static str)
        ensures
            r@ == code_name(self),
    {
        match self {
            VideoErrorCode::WhisperMissing => "whisperMissing",
            VideoErrorCode::WhisperOutOfMemory => "whisperOutOfMemory",
            VideoErrorCode::WhisperFailed => "whisperFailed",
            VideoErrorCode::FfmpegMissing => "ffmpegMissing",
            VideoErrorCode::FfmpegChunkFailed => "ffmpegChunkFailed",
            VideoErrorCode::DurationUnknown => "durationUnknown",
            VideoErrorCode::NoSpeechDetected => "noSpeechDetected",
            VideoErrorCode::DeepseekAuthFailed => "deepseekAuthFailed",
            VideoErrorCode::DeepseekRateLimited => "deepseekRateLimited",
            VideoErrorCode::DeepseekServerError => "deepseekServerError",
            VideoErrorCode::DeepseekTimeout => "deepseekTimeout",
            VideoErrorCode::TranslationContractViolation => "translationContractViolation",
            VideoErrorCode::OutputWriteFailed => "outputWriteFailed",
            VideoErrorCode::DownloadFailed => "downloadFailed",
            VideoErrorCode::FetchFailed => "fetchFailed",
        }
    }

    /// The code as an owned string (what `Display` prints).
    pub fn to_text(self) -> (r: String)
        ensures
            r@ == code_name(self),
    {
        let mut out = String::new();
        push_str(&mut out, self.as_str());
        out
    }
}

/// One row of `summary.md` and of the `batch_summary` event.
#[derive(Debug, Clone)]
pub struct BatchSummaryItem {
    pub group_id: String,
    pub url: String,
    pub status: VideoStatus,
    pub error_code: Option<VideoErrorCode>,
    /// Written artifacts (`transcript.en.txt` / `transcript.zh.txt`).
    pub outputs: Vec<String>,
    /// True when the two transcripts already existed and the video was skipped.
    pub skipped: bool,
    pub prompt_tokens: u64,
    pub completion_tokens: u64,
}

/// `batch_summary` payload.
#[derive(Debug, Clone)]
pub struct BatchSummaryPayload {
    pub path: String,
    pub items: Vec<BatchSummaryItem>,
}

} // verus!
