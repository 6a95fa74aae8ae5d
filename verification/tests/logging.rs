use ovd_transcribe::events::{
    AUDIO_DOWNLOAD_FAIL, AUDIO_DOWNLOAD_OK, AUDIO_DOWNLOAD_START, CANCEL_REQUESTED, CHUNK_CUT_FAIL,
    CHUNK_CUT_OK, CHUNK_PLAN, CLEANUP_OK, CLEANUP_SKIP, DURATION_RESOLVED, DURATION_UNKNOWN,
    LOG_WRITE_FAILED, MERGE_BOUNDARY_RISK, MERGE_COVERAGE_GAP, MERGE_OK, PLAYLIST_EXPAND,
    PROBE_MISSING, PROBE_OK, RUN_END, RUN_START, STAGE_CHANGE, TOOL_OUTPUT, TRANSCRIPT_EN_OK,
    TRANSCRIPT_ZH_OK, TRANSLATE_BLOCK_FAIL, TRANSLATE_BLOCK_OK, TRANSLATE_BLOCK_RETRY,
    TRANSLATE_BLOCK_START, TRANSLATE_FIDELITY_WARNING, VIDEO_DONE, VIDEO_FAIL, VIDEO_SKIP,
    WHISPER_FAIL, WHISPER_OK, WHISPER_OOM, WHISPER_START,
};
use ovd_transcribe::log::{
    effective_max_files, field_limit, is_sensitive_field, log_dir, log_file_path, needs_rotation,
    rotated_name, rotation_moves, sanitize_excerpt, sanitize_field, sanitize_title,
    tool_output_line, truncate_chars, LogFields, LOG_FILE_NAME, RESPONSE_MAX_CHARS,
    TITLE_MAX_CHARS,
};
use std::path::Path;

#[test]
fn event_codes_match_the_design_table_verbatim() {
    let codes = [
        RUN_START,
        RUN_END,
        PROBE_OK,
        PROBE_MISSING,
        STAGE_CHANGE,
        PLAYLIST_EXPAND,
        AUDIO_DOWNLOAD_START,
        AUDIO_DOWNLOAD_OK,
        AUDIO_DOWNLOAD_FAIL,
        DURATION_RESOLVED,
        DURATION_UNKNOWN,
        CHUNK_PLAN,
        CHUNK_CUT_OK,
        CHUNK_CUT_FAIL,
        WHISPER_START,
        WHISPER_OK,
        WHISPER_FAIL,
        WHISPER_OOM,
        MERGE_OK,
        MERGE_COVERAGE_GAP,
        MERGE_BOUNDARY_RISK,
        TRANSCRIPT_EN_OK,
        TRANSLATE_BLOCK_START,
        TRANSLATE_BLOCK_OK,
        TRANSLATE_BLOCK_RETRY,
        TRANSLATE_BLOCK_FAIL,
        TRANSLATE_FIDELITY_WARNING,
        TRANSCRIPT_ZH_OK,
        CLEANUP_OK,
        CLEANUP_SKIP,
        VIDEO_DONE,
        VIDEO_SKIP,
        VIDEO_FAIL,
        CANCEL_REQUESTED,
        LOG_WRITE_FAILED,
        TOOL_OUTPUT,
    ];
    let expected = [
        "run.start",
        "run.end",
        "probe.ok",
        "probe.missing",
        "stage.change",
        "playlist.expand",
        "audio.download.start",
        "audio.download.ok",
        "audio.download.fail",
        "duration.resolved",
        "duration.unknown",
        "chunk.plan",
        "chunk.cut.ok",
        "chunk.cut.fail",
        "whisper.start",
        "whisper.ok",
        "whisper.fail",
        "whisper.oom",
        "merge.ok",
        "merge.coverage_gap",
        "merge.boundary_risk",
        "transcript.en.ok",
        "translate.block.start",
        "translate.block.ok",
        "translate.block.retry",
        "translate.block.fail",
        "translate.fidelity_warning",
        "transcript.zh.ok",
        "cleanup.ok",
        "cleanup.skip",
        "video.done",
        "video.skip",
        "video.fail",
        "cancel.requested",
        "log.write_failed",
        "tool.output",
    ];

    assert_eq!(codes, expected);
}

#[test]
fn file_log_collapses_control_characters_and_truncates_titles() {
    let long_title = "T".repeat(200);
    let mut fields = LogFields::new();
    fields.push("event", TRANSCRIPT_EN_OK.to_string());
    fields.push("group", "group-1".to_string());
    fields.push("title", format!("line one\nline two\t{long_title}"));

    let line = fields.render("event");
    assert!(line.contains("title=line one line two T"));
    let value = line.split(" title=").nth(1).expect("title field");
    assert_eq!(value.chars().count(), TITLE_MAX_CHARS);
    assert!(value.ends_with('…'));
}

#[test]
fn file_log_redacts_sensitive_fields_and_truncates_excerpts() {
    let long_body = "B".repeat(900);
    let mut fields = LogFields::new();
    fields.push("event", PROBE_MISSING.to_string());
    fields.push("apiKey", "sk-test-DO-NOT-LEAK".to_string());
    fields.push("password", "hunter2".to_string());
    fields.push("whisper", "missing".to_string());
    fields.push("reason", long_body);

    let content = fields.render("event");
    assert!(content.contains("apiKey=[redacted]"));
    assert!(content.contains("password=[redacted]"));
    assert!(!content.contains("sk-test-DO-NOT-LEAK"));
    assert!(!content.contains("hunter2"));
    assert!(content.contains("whisper=missing"));
    let reason = content.split(" reason=").nth(1).expect("reason field");
    assert_eq!(reason.trim_end().chars().count(), RESPONSE_MAX_CHARS);
    assert!(reason.trim_end().ends_with('…'));
}

#[test]
fn lines_show_the_ordered_slots_and_the_message() {
    let mut fields = LogFields::new();
    fields.push("chunk", "3".to_string());
    fields.push("stage", "transcribing".to_string());
    fields.push("event", STAGE_CHANGE.to_string());
    fields.push("run", "run-1".to_string());
    fields.push("group", "group-1".to_string());
    fields.push("message", "changed".to_string());
    assert_eq!(
        fields.render("event"),
        "stage.change | run=run-1 group=group-1 stage=transcribing chunk=3 msg=changed"
    );

    let mut plain = LogFields::new();
    plain.push("message", "hello".to_string());
    assert_eq!(plain.render("event"), "hello |");
    assert_eq!(LogFields::new().render("fallback"), "fallback |");
}

#[test]
fn sanitizing_and_truncation_are_character_based() {
    assert_eq!(sanitize_field("a\nb\rc\td\u{7}e"), "a b c de");
    assert_eq!(truncate_chars("héllo", 5), "héllo");
    assert_eq!(truncate_chars("héllo", 3), "hé…");
    assert_eq!(truncate_chars("abc", 0), "");
    assert_eq!(truncate_chars("", 0), "");
    assert_eq!(sanitize_title(&"x".repeat(100)).chars().count(), TITLE_MAX_CHARS);
    assert_eq!(sanitize_excerpt("a\nb", 10), "a b");
    assert!(is_sensitive_field("Authorization"));
    assert!(is_sensitive_field("VIDEO_PASSWORD"));
    assert!(!is_sensitive_field("title"));
    assert_eq!(field_limit("title"), 80);
    assert_eq!(field_limit("tail"), 2048);
    assert_eq!(field_limit("body"), 500);
    assert_eq!(field_limit("url"), 8192);
    assert_eq!(tool_output_line(false, "raw"), None);
    assert_eq!(tool_output_line(true, "raw\nline").as_deref(), Some("raw line"));
}

#[test]
fn rotation_keeps_at_most_the_configured_files() {
    assert!(!needs_rotation(0, 10_000, 100));
    assert!(needs_rotation(90, 11, 100));
    assert!(!needs_rotation(90, 10, 100));
    assert!(needs_rotation(200, 0, 100));
    assert_eq!(effective_max_files(0), 1);
    assert_eq!(effective_max_files(5), 5);
    assert_eq!(rotation_moves(5), vec![(3, 4), (2, 3), (1, 2), (0, 1)]);
    assert_eq!(rotation_moves(2), vec![(0, 1)]);
    assert!(rotation_moves(1).is_empty());
    assert_eq!(rotated_name(LOG_FILE_NAME, 2), "transcribe.log.2");
}

#[test]
fn log_helpers_resolve_paths_below_app_dir() {
    let app_dir = Path::new("/app");
    assert_eq!(log_dir(app_dir), app_dir.join("logs"));
    assert_eq!(log_file_path(app_dir), log_dir(app_dir).join(LOG_FILE_NAME));
}

#[test]
fn file_log_writes_one_line_with_stable_fields() {
    let mut fields = LogFields::new();
    fields.push("event", STAGE_CHANGE.to_string());
    fields.push("run", "run-1".to_string());
    fields.push("group", "group-1".to_string());
    fields.push("stage", "transcribing".to_string());
    fields.push("chunk", "3".to_string());

    let line = fields.render("event");
    assert_eq!(line.lines().count(), 1);
    assert!(line.starts_with("stage.change |"));
    assert!(line.contains("run=run-1 group=group-1 stage=transcribing chunk=3"));
}

#[test]
fn tool_output_is_only_logged_when_verbose() {
    assert_eq!(tool_output_line(false, "raw line that must not appear"), None);
    assert_eq!(
        tool_output_line(true, "raw line that must appear").as_deref(),
        Some("raw line that must appear")
    );
}
