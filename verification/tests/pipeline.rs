use ovd_transcribe::blocks::{Block, BlockItem};
use ovd_transcribe::deepseek::{DeepseekError, TranslatedBlock, Usage};
use ovd_transcribe::ffmpeg::FfmpegError;
use ovd_transcribe::models::{BatchSummaryItem, TranscribeStage, VideoErrorCode, VideoStatus};
use ovd_transcribe::pipeline::{
    assign_batch, batch_counts, chunk_file, deepseek_failure_code, failure_text, ffmpeg_failure,
    render_summary, transcribe_start, translation_reusable, video_title, whisper_failure_code,
    BatchState, JobError, TranscribeEntry, VideoOutcome, NO_ROOT_DIR, NO_URLS, WHISPER_MISSING,
};
use ovd_transcribe::translate::TranslationRun;
use ovd_transcribe::validate::TranslationItem;
use ovd_transcribe::whisper::WhisperError;
use std::collections::BTreeMap;
use std::path::PathBuf;

fn item(
    url: &str,
    status: VideoStatus,
    skipped: bool,
    code: Option<VideoErrorCode>,
    tokens: (u64, u64),
) -> BatchSummaryItem {
    BatchSummaryItem {
        group_id: format!("group-{url}"),
        url: url.to_string(),
        status,
        error_code: code,
        outputs: vec![format!("{url}/transcript.en.txt")],
        skipped,
        prompt_tokens: tokens.0,
        completion_tokens: tokens.1,
    }
}

#[test]
fn summary_markdown_lists_statuses_codes_and_token_totals() {
    let items = vec![
        item("https://a", VideoStatus::Done, false, None, (100, 50)),
        item("https://b", VideoStatus::Done, true, None, (0, 0)),
        item(
            "https://c",
            VideoStatus::Failed,
            false,
            Some(VideoErrorCode::WhisperOutOfMemory),
            (10, 5),
        ),
        item("https://d", VideoStatus::Cancelled, false, None, (1, 1)),
    ];

    let markdown = render_summary(&items);

    assert!(markdown.contains("| 1 | https://a | done |"));
    assert!(markdown.contains("| 2 | https://b | skipped |"));
    assert!(markdown.contains("whisperOutOfMemory"));
    assert!(markdown.contains("| 4 | https://d | cancelled |"));
    assert!(markdown.contains("4 videos, 1 done, 1 skipped, 1 failed, 1 cancelled"));
    assert!(markdown.contains("tokens 111/56"));
}

#[test]
fn summary_rows_render_exactly() {
    let mut row = item("https://a", VideoStatus::Done, false, None, (7, 3));
    row.outputs.push("https://a/transcript.zh.txt".to_string());
    let markdown = render_summary(&[row]);

    assert_eq!(
        markdown,
        "# Transcribe summary\n\n| # | URL | Status | Output | Error | Tokens prompt/completion |\n| --- | --- | --- | --- | --- | --- |\n| 1 | https://a | done | https://a/transcript.en.txt<br>https://a/transcript.zh.txt | - | 7/3 |\n\nTotals: 1 videos, 1 done, 0 skipped, 0 failed, 0 cancelled; tokens 7/3 (prompt/completion).\n"
    );
    assert!(render_summary(&[]).ends_with("Totals: 0 videos, 0 done, 0 skipped, 0 failed, 0 cancelled; tokens 0/0 (prompt/completion).\n"));
}

#[test]
fn error_codes_match_the_design_table() {
    assert_eq!(
        whisper_failure_code(&WhisperError::OutOfMemory { tail: String::new() }),
        VideoErrorCode::WhisperOutOfMemory
    );
    assert_eq!(
        whisper_failure_code(&WhisperError::Failed { exit: Some(1), tail: String::new() }),
        VideoErrorCode::WhisperFailed
    );
    assert_eq!(deepseek_failure_code(&DeepseekError::AuthFailed), VideoErrorCode::DeepseekAuthFailed);
    assert_eq!(
        deepseek_failure_code(&DeepseekError::RateLimited),
        VideoErrorCode::DeepseekRateLimited
    );
    assert_eq!(
        deepseek_failure_code(&DeepseekError::InvalidResponse { reason: String::new() }),
        VideoErrorCode::TranslationContractViolation
    );
    assert_eq!(deepseek_failure_code(&DeepseekError::Timeout), VideoErrorCode::DeepseekTimeout);
    assert_eq!(
        deepseek_failure_code(&DeepseekError::ServerError { status: 503 }),
        VideoErrorCode::DeepseekServerError
    );
    assert_eq!(
        ffmpeg_failure(&FfmpegError::SpawnFailed("missing".into())).0,
        VideoErrorCode::FfmpegMissing
    );
    assert_eq!(ffmpeg_failure(&FfmpegError::InvalidDuration).0, VideoErrorCode::FfmpegChunkFailed);
}

#[test]
fn missing_tools_map_to_their_codes_and_messages() {
    assert_eq!(
        whisper_failure_code(&WhisperError::SpawnFailed("nope".into())),
        VideoErrorCode::WhisperMissing
    );
    assert_eq!(whisper_failure_code(&WhisperError::Cancelled), VideoErrorCode::WhisperFailed);
    assert_eq!(
        deepseek_failure_code(&DeepseekError::Network("reset".into())),
        VideoErrorCode::DeepseekServerError
    );
    assert_eq!(
        deepseek_failure_code(&DeepseekError::RequestRejected { status: 404 }),
        VideoErrorCode::DeepseekServerError
    );
    let (code, message) = ffmpeg_failure(&FfmpegError::SpawnFailed("missing".into()));
    assert_eq!((code, message.as_str()), (VideoErrorCode::FfmpegMissing, "missing"));
    let (_, message) = ffmpeg_failure(&FfmpegError::InvalidDuration);
    assert_eq!(message, "ffprobe returned no usable duration");
}

fn entry() -> TranscribeEntry {
    TranscribeEntry {
        batch_id: "batch".into(),
        group_id: "group".into(),
        id: "id".into(),
        url: "https://a".into(),
    }
}

#[test]
fn outcome_constructors_keep_the_contract() {
    let entry = entry();

    let done = VideoOutcome::done(
        entry.clone(),
        vec!["en".into()],
        false,
        Usage { prompt_tokens: 1, completion_tokens: 2 },
    );
    assert_eq!(done.status, VideoStatus::Done);
    assert_eq!(done.usage.completion_tokens, 2);

    let failed = VideoOutcome::failed(entry.clone(), VideoErrorCode::WhisperMissing);
    assert_eq!(failed.status, VideoStatus::Failed);
    assert_eq!(failed.error_code, Some(VideoErrorCode::WhisperMissing));

    let cancelled = VideoOutcome::cancelled(entry);
    assert_eq!(cancelled.status, VideoStatus::Cancelled);
    assert!(cancelled.outputs.is_empty());
}

#[test]
fn stage_errors_end_the_video_with_their_status() {
    assert!(matches!(
        JobError::failed(VideoErrorCode::DownloadFailed, "boom".into()),
        JobError::Failed(VideoErrorCode::DownloadFailed, _)
    ));

    assert_eq!(failure_text(VideoErrorCode::FetchFailed, "no metadata"), "fetchFailed: no metadata");
}

#[test]
fn batches_finish_when_the_last_video_reports() {
    let mut state = BatchState::new(PathBuf::from("/out"), 2);
    let first = VideoOutcome::done(entry(), vec!["en".into(), "zh".into()], false, Usage::default());
    assert!(!state.record(&first));
    let second = VideoOutcome::failed(entry(), VideoErrorCode::FetchFailed);
    assert!(state.record(&second));
    assert_eq!(state.items.len(), 2);
    assert_eq!(state.items[0].outputs, vec!["en".to_string(), "zh".to_string()]);
    assert_eq!(batch_counts(&state.items), (1, 1, 0));

    let mut empty = BatchState::new(PathBuf::from("/out"), 0);
    assert!(empty.record(&first));
    assert_eq!(empty.remaining, 0);
}

#[test]
fn batch_entries_get_the_batch_id() {
    let entries = assign_batch(&"b-1".to_string(), vec![entry(), entry()]);

    assert_eq!(entries.len(), 2);
    assert!(entries.iter().all(|e| e.batch_id == "b-1" && e.url == "https://a"));
}

#[test]
fn titles_chunk_names_and_reuse_follow_the_rules() {
    assert_eq!(video_title(Some("Talk".into()), &"id-1".to_string()), "Talk");
    assert_eq!(video_title(None, &"id-1".to_string()), "id-1");
    assert_eq!(chunk_file(0), "audio.000.m4a");
    assert_eq!(chunk_file(7), "audio.007.m4a");
    assert_eq!(chunk_file(42), "audio.042.m4a");
    assert_eq!(chunk_file(1234), "audio.1234.m4a");
    assert!(translation_reusable(true, true, false));
    assert!(!translation_reusable(false, true, false));
    assert!(!translation_reusable(true, true, true));
    assert_eq!(TranscribeStage::Translating.as_str(), "translating");
    assert_eq!(VideoErrorCode::NoSpeechDetected.as_str(), "noSpeechDetected");
}

fn block(index: usize, ids: &[usize], texts: &[&str]) -> Block {
    Block {
        index,
        paragraph_range: ids[0]..ids[ids.len() - 1] + 1,
        items: ids
            .iter()
            .zip(texts)
            .map(|(id, text)| BlockItem { id: *id, text: text.to_string() })
            .collect(),
    }
}

#[test]
fn a_translation_run_seeds_records_and_stores_blocks() {
    let paragraphs = vec!["One.".to_string(), "Two has 42.".to_string(), "Three.".to_string()];
    let plan = vec![block(0, &[0, 1], &["One.", "Two has 42."]), block(1, &[2], &["Three."])];
    let mut stored = BTreeMap::new();
    stored.insert(
        1,
        ovd_transcribe::artifacts::BlockTranslation {
            ids: vec![2],
            zh: vec!["三。".into()],
            usage: Usage::default(),
        },
    );

    let mut run = TranslationRun::new(paragraphs.len(), &plan, &stored);
    assert_eq!(run.translations(), &["".to_string(), "".to_string(), "三。".to_string()]);
    assert!(TranslationRun::is_pending(&plan[0], &stored));
    assert!(!TranslationRun::is_pending(&plan[1], &stored));

    let translated = TranslatedBlock {
        items: vec![
            TranslationItem { id: 0, zh: "一。".into() },
            TranslationItem { id: 1, zh: "二。".into() },
        ],
        usage: Usage { prompt_tokens: 9, completion_tokens: 4 },
    };
    let missing = run.record(&plan[0], &translated, &mut stored, &[]);
    assert_eq!(missing, vec!["42"]);
    assert_eq!(run.translations(), &["一。".to_string(), "二。".to_string(), "三。".to_string()]);
    assert!(!TranslationRun::is_pending(&plan[0], &stored));
    assert_eq!(stored[&0].ids, vec![0, 1]);
    assert_eq!(stored[&0].usage.prompt_tokens, 9);

    let context = run.context_for(&plan[1], &paragraphs);
    assert_eq!(context.previous.len(), 2);
    assert_eq!(context.previous[1].translation, "二。");
}

#[test]
fn start_trims_links_and_drops_blank_ones() {
    let urls = vec![
        "  https://a.example/v1 ".to_string(),
        "   ".to_string(),
        "https://b.example/v2\n".to_string(),
    ];
    let started = transcribe_start(urls, true, Some("/out".to_string())).expect("accepted");
    assert_eq!(started.root_dir, "/out");
    let links: Vec<&str> = started.entries.iter().map(|entry| entry.url.as_str()).collect();
    assert_eq!(links, vec!["https://a.example/v1", "https://b.example/v2"]);
    assert!(started.entries.iter().all(|entry| entry.batch_id == started.batch_id));
    assert_ne!(started.entries[0].group_id, started.entries[1].group_id);
    assert_ne!(started.entries[0].id, started.entries[1].id);
}

#[test]
fn start_refusals_come_in_order() {
    assert_eq!(
        transcribe_start(vec![" ".to_string()], false, None).err().as_deref(),
        Some(NO_URLS)
    );
    assert_eq!(
        transcribe_start(vec!["u".to_string()], false, None).err().as_deref(),
        Some(WHISPER_MISSING)
    );
    assert_eq!(
        transcribe_start(vec!["u".to_string()], true, None).err().as_deref(),
        Some(NO_ROOT_DIR)
    );
}
