//! Stable event codes of the file log. They are grep targets for troubleshooting, so the
//! strings never change.
use vstd::prelude::*;

verus! {

pub const RUN_START: &'static str = "run.start";

pub const RUN_END: &'static str = "run.end";

pub const PROBE_OK: &'static str = "probe.ok";

pub const PROBE_MISSING: &'static str = "probe.missing";

pub const STAGE_CHANGE: &'static str = "stage.change";

pub const PLAYLIST_EXPAND: &'static str = "playlist.expand";

pub const AUDIO_DOWNLOAD_START: &'static str = "audio.download.start";

pub const AUDIO_DOWNLOAD_OK: &'static str = "audio.download.ok";

pub const AUDIO_DOWNLOAD_FAIL: &'static str = "audio.download.fail";

pub const DURATION_RESOLVED: &'static str = "duration.resolved";

pub const DURATION_UNKNOWN: &'static str = "duration.unknown";

pub const CHUNK_PLAN: &'static str = "chunk.plan";

pub const CHUNK_CUT_OK: &'static str = "chunk.cut.ok";

pub const CHUNK_CUT_FAIL: &'static str = "chunk.cut.fail";

pub const WHISPER_START: &'static str = "whisper.start";

pub const WHISPER_OK: &'static str = "whisper.ok";

pub const WHISPER_FAIL: &'static str = "whisper.fail";

pub const WHISPER_OOM: &'static str = "whisper.oom";

pub const MERGE_OK: &'static str = "merge.ok";

pub const MERGE_COVERAGE_GAP: &'static str = "merge.coverage_gap";

pub const MERGE_BOUNDARY_RISK: &'static str = "merge.boundary_risk";

pub const TRANSCRIPT_EN_OK: &'static str = "transcript.en.ok";

pub const TRANSLATE_BLOCK_START: &'static str = "translate.block.start";

pub const TRANSLATE_BLOCK_OK: &'static str = "translate.block.ok";

pub const TRANSLATE_BLOCK_RETRY: &'static str = "translate.block.retry";

pub const TRANSLATE_BLOCK_FAIL: &'static str = "translate.block.fail";

pub const TRANSLATE_FIDELITY_WARNING: &'static str = "translate.fidelity_warning";

pub const TRANSCRIPT_ZH_OK: &'static str = "transcript.zh.ok";

pub const CLEANUP_OK: &'static str = "cleanup.ok";

pub const CLEANUP_SKIP: &'static str = "cleanup.skip";

pub const VIDEO_DONE: &'static str = "video.done";

pub const VIDEO_SKIP: &'static str = "video.skip";

pub const VIDEO_FAIL: &'static str = "video.fail";

pub const CANCEL_REQUESTED: &'static str = "cancel.requested";

pub const LOG_WRITE_FAILED: &'static str = "log.write_failed";

/// Raw tool output, only emitted when `logging.verbose` is enabled.
pub const TOOL_OUTPUT: &'static str = "tool.output";

} // verus!
