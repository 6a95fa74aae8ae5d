use ovd_transcribe::config::{
    AuthSecrets, AuthSettings, Config, NetworkSettings, PlaylistMode, TranscriptionDevice,
    TranscriptionLanguage, TranscriptionModel, TranscriptionSettings,
};
use ovd_transcribe::ffmpeg::{ffprobe_duration_args, ffprobe_duration_args_for, tool_outcome, FfmpegError};
use ovd_transcribe::process::{tail_excerpt, LineBuffer, ProcessEvent, ProcessResult, TerminatedPayload};
use ovd_transcribe::probe::{
    configured_program, executable_names, executable_names_on, first_line, help_shows_usage,
    pip_version, probe_output,
};
use ovd_transcribe::whisper::{
    chunk_json_path, classify_whisper_failure, is_out_of_memory, model_arg, whisper_args,
    whisper_args_for,
    whisper_outcome, WhisperError,
};
use ovd_transcribe::ytdlp::{
    build_audio_download_args, build_auth_args, build_network_args, normalize_extractor_args,
    DownloadOverrides, InputFilterOverrides, NetworkOverrides,
};
use std::path::Path;

fn settings() -> TranscriptionSettings {
    TranscriptionSettings::default()
}

#[test]
fn default_args_match_the_design_contract() {
    let args = whisper_args(
        &settings(),
        Path::new("/out/.work/audio.000.m4a"),
        Path::new("/out/.work/chunks"),
    );

    assert_eq!(
        args,
        vec![
            "--model",
            "small",
            "--device",
            "cuda",
            "--task",
            "transcribe",
            "--output_format",
            "json",
            "--verbose",
            "True",
            "--condition_on_previous_text",
            "False",
            "--fp16",
            "True",
            "--language",
            "en",
            "--output_dir",
            "/out/.work/chunks",
            "/out/.work/audio.000.m4a",
        ]
    );
}

#[test]
fn cpu_device_does_not_enable_fp16() {
    let settings = TranscriptionSettings { device: TranscriptionDevice::Cpu, ..settings() };
    let args = whisper_args(&settings, Path::new("chunk.m4a"), Path::new("out"));

    let fp16 = args.iter().position(|arg| arg == "--fp16").expect("--fp16");
    assert_eq!(args[fp16 + 1], "False");
}

#[test]
fn language_auto_omits_the_language_flag() {
    let settings = TranscriptionSettings { language: TranscriptionLanguage::Auto, ..settings() };
    let args = whisper_args(&settings, Path::new("chunk.m4a"), Path::new("out"));

    assert!(!args.iter().any(|arg| arg == "--language"));
}

#[test]
fn detects_cuda_out_of_memory() {
    assert!(is_out_of_memory("RuntimeError: CUDA out of memory. Tried to allocate 1.20 GiB"));
    assert!(is_out_of_memory("torch.cuda.OutOfMemoryError: CUDA out of memory."));
    assert!(!is_out_of_memory("RuntimeError: unexpected EOF"));
}

#[test]
fn classifies_oom_before_generic_failure() {
    assert!(matches!(
        classify_whisper_failure(Some(1), "CUDA out of memory".to_string()),
        WhisperError::OutOfMemory { .. }
    ));
    assert!(matches!(
        classify_whisper_failure(Some(1), "unexpected EOF".to_string()),
        WhisperError::Failed { exit: Some(1), .. }
    ));
}

#[test]
fn chunk_json_path_uses_the_chunk_basename() {
    let json = chunk_json_path(Path::new("/out/.work/audio.000.m4a"), Path::new("/out/.work/chunks"));

    assert_eq!(json, Path::new("/out/.work/chunks").join("audio.000.json"));
}

#[test]
fn whisper_messages_quote_the_exit_and_tail() {
    let failed = WhisperError::Failed { exit: Some(-2), tail: "boom".into() };
    assert_eq!(failed.message(), "whisper failed (exit Some(-2)): boom");
    let unknown = WhisperError::Failed { exit: None, tail: "x".into() };
    assert_eq!(unknown.message(), "whisper failed (exit None): x");
    assert_eq!(WhisperError::Cancelled.message(), "cancelled");
}

fn finished(code: Option<i32>, stderr: &[&str]) -> ProcessResult {
    let mut result = ProcessResult::empty();
    for line in stderr {
        result.apply(ProcessEvent::Stderr(line.as_bytes().to_vec()));
    }
    result.apply(ProcessEvent::Terminated(TerminatedPayload { code }));
    result
}

#[test]
fn whisper_outcomes_cover_every_ending() {
    let ok = finished(Some(0), &[]);
    assert!(whisper_outcome(&ok, true, "/c/a.json").is_ok());
    match whisper_outcome(&ok, false, "/c/a.json") {
        Err(WhisperError::Failed { exit, tail }) => {
            assert_eq!(exit, Some(0));
            assert_eq!(tail, "whisper produced no /c/a.json output");
        }
        other => panic!("unexpected {other:?}"),
    }
    let oom = finished(Some(1), &["loading", "CUDA out of memory"]);
    match whisper_outcome(&oom, true, "/c/a.json") {
        Err(WhisperError::OutOfMemory { tail }) => assert_eq!(tail, "loading | CUDA out of memory"),
        other => panic!("unexpected {other:?}"),
    }
    let mut cancelled = finished(None, &[]);
    cancelled.cancelled = true;
    assert!(matches!(whisper_outcome(&cancelled, true, "x"), Err(WhisperError::Cancelled)));
}

#[test]
fn ffprobe_args_target_format_duration_as_json() {
    let args = ffprobe_duration_args(Path::new("/tmp/audio.m4a"));

    assert_eq!(
        args,
        vec!["-v", "error", "-show_entries", "format=duration", "-of", "json", "/tmp/audio.m4a",]
    );
}

#[test]
fn ffmpeg_outcomes_and_messages() {
    assert!(tool_outcome(&finished(Some(0), &[]), true).is_ok());
    match tool_outcome(&finished(Some(3), &["bad input"]), true) {
        Err(FfmpegError::ProbeFailed { exit, tail }) => {
            assert_eq!(exit, Some(3));
            assert_eq!(tail, "bad input");
        }
        other => panic!("unexpected {other:?}"),
    }
    let cut = tool_outcome(&finished(None, &[]), false).expect_err("cut failed");
    assert_eq!(cut.message(), "ffmpeg chunk cut failed (exit None): ");
    assert_eq!(cut.exit_code(), None);
    assert_eq!(FfmpegError::SpawnFailed("gone".into()).message(), "ffmpeg failed to start: gone");
}

#[test]
fn stderr_tail_keeps_the_last_lines() {
    let mut result = ProcessResult::empty();
    for index in 0..70 {
        result.apply(ProcessEvent::Stderr(format!("line {index}").into_bytes()));
    }
    let line = result.apply(ProcessEvent::Stdout(b"out".to_vec()));
    assert_eq!(line.as_deref(), Some("out"));
    assert_eq!(result.stdout, "out\n");
    assert_eq!(result.stderr_tail.len(), 64);
    assert_eq!(result.stderr_tail[0], "line 6");
    result.apply(ProcessEvent::Error("read failed".into()));
    assert_eq!(result.reader_error.as_deref(), Some("read failed"));
    assert_eq!(
        tail_excerpt(&["a".to_string(), "b".to_string(), "c".to_string()], 2),
        "b | c"
    );
    assert_eq!(tail_excerpt(&["a".to_string()], 8), "a");
}

#[test]
fn line_buffer_splits_on_line_ends_and_drops_empty_lines() {
    let mut buffer = LineBuffer::new();
    let mut lines = Vec::new();
    for byte in b"one\r\ntwo\n\nthree" {
        if let Some(line) = buffer.push_byte(*byte) {
            lines.push(line);
        }
    }
    if let Some(rest) = buffer.finish() {
        lines.push(rest);
    }
    assert_eq!(lines, vec![b"one".to_vec(), b"two".to_vec(), b"three".to_vec()]);
}

#[test]
fn auth_args_include_cookies_and_secrets_in_stable_order() {
    let auth = AuthSettings {
        cookie_file: Some("/tmp/cookies.txt".into()),
        cookie_browser: "firefox".into(),
    };
    let secrets = AuthSecrets {
        username: Some("user".into()),
        password: Some("pass".into()),
        video_password: Some("video".into()),
        bearer_token: Some("token".into()),
        headers: vec!["X-Test: 1".into()],
    };

    let args = build_auth_args(&auth, &secrets);

    assert_eq!(
        args,
        vec![
            "--cookies-from-browser",
            "firefox",
            "--cookies",
            "/tmp/cookies.txt",
            "--username",
            "user",
            "--password",
            "pass",
            "--video-password",
            "video",
            "--add-header",
            "Authorization:Bearer token",
            "--add-header",
            "X-Test: 1",
        ]
    );
}

#[test]
fn auth_args_are_empty_without_configuration() {
    let args = build_auth_args(&AuthSettings::default(), &AuthSecrets::default());

    assert!(args.is_empty());
}

#[test]
fn extractor_args_empty_returns_none() {
    assert_eq!(normalize_extractor_args(""), None);
    assert_eq!(normalize_extractor_args("   "), None);
}

#[test]
fn extractor_args_trim_whitespace() {
    assert_eq!(
        normalize_extractor_args(" youtube:player_js_variant=main "),
        Some("youtube:player_js_variant=main".into())
    );
}

#[test]
fn extractor_args_join_non_empty_lines_with_spaces() {
    assert_eq!(
        normalize_extractor_args(
            " youtube:player_js_variant=main \n\n youtube:skip=hls,dash \r\n generic:impersonate"
        ),
        Some("youtube:player_js_variant=main youtube:skip=hls,dash generic:impersonate".into())
    );
}

#[test]
fn network_args_include_proxy_impersonate_and_extractor_args() {
    let network = NetworkSettings {
        enable_proxy: Some(true),
        proxy: Some("http://127.0.0.1:8080".into()),
        impersonate: "chrome".into(),
        extractor_args: "youtube:player_js_variant=main".into(),
    };

    let args = build_network_args(&network);

    assert_eq!(
        args,
        vec![
            "--proxy",
            "http://127.0.0.1:8080",
            "--impersonate",
            "chrome",
            "--extractor-args",
            "youtube:player_js_variant=main",
        ]
    );
}

#[test]
fn network_args_are_empty_without_configuration() {
    let network = NetworkSettings {
        enable_proxy: Some(false),
        proxy: Some("http://127.0.0.1:8080".into()),
        ..NetworkSettings::default()
    };

    assert!(build_network_args(&network).is_empty());
}

#[test]
fn any_impersonation_passes_an_empty_target() {
    let network = NetworkSettings { impersonate: "any".into(), ..NetworkSettings::default() };

    assert_eq!(build_network_args(&network), vec!["--impersonate", ""]);
}

#[test]
fn audio_download_args_apply_overrides_and_playlist_choice() {
    let mut config = Config::default();
    config.input.prefer_video_in_mixed_links = true;
    let args = build_audio_download_args(&config, None, "/out/.work/audio.%(ext)s", &AuthSecrets::default());
    assert_eq!(args, vec!["-f", "ba/best", "-o", "/out/.work/audio.%(ext)s", "--no-playlist"]);

    let overrides = DownloadOverrides {
        network: Some(NetworkOverrides {
            enable_proxy: Some(true),
            proxy: Some("socks5://p".into()),
            impersonate: None,
            extractor_args: None,
        }),
        auth: None,
        input: None,
        input_filters: Some(InputFilterOverrides { playlist_mode: Some(PlaylistMode::Playlist) }),
    };
    let args = build_audio_download_args(&config, Some(&overrides), "o", &AuthSecrets::default());
    assert_eq!(args, vec!["-f", "ba/best", "-o", "o", "--yes-playlist", "--proxy", "socks5://p"]);
}

#[test]
fn executable_names_cover_windows_shims() {
    let names = executable_names("whisper");
    assert!(names.contains(&"whisper".to_string()));
}

#[test]
fn windows_names_try_the_script_shims_first() {
    assert_eq!(
        executable_names_on("whisper", true),
        vec!["whisper.exe", "whisper.cmd", "whisper.bat", "whisper"]
    );
    assert_eq!(executable_names_on("whisper", false), vec!["whisper"]);
}

#[test]
fn model_names_match_the_whisper_release() {
    assert_eq!(model_arg(TranscriptionModel::Small), "small");
    assert_eq!(model_arg(TranscriptionModel::Medium), "medium");
    assert_eq!(model_arg(TranscriptionModel::LargeV3), "large-v3");
}

#[test]
fn probe_answers_are_read_from_the_tool_output() {
    assert_eq!(configured_program(Some("  /bin/whisper ")).as_deref(), Some("/bin/whisper"));
    assert_eq!(configured_program(Some("   ")), None);
    assert_eq!(configured_program(None), None);
    assert!(help_shows_usage("USAGE: whisper [options]"));
    assert!(!help_shows_usage("command not found"));
    assert_eq!(
        pip_version("Name: openai-whisper\nVersion: 20240930 \nSummary: x").as_deref(),
        Some("20240930")
    );
    assert_eq!(pip_version("Name: x"), None);
    assert_eq!(first_line("  NVIDIA RTX 4090 \nsecond").as_deref(), Some("NVIDIA RTX 4090"));
    assert_eq!(first_line("   "), None);
    assert_eq!(probe_output(true, b" out \n", b"err").as_deref(), Some("out"));
    assert_eq!(probe_output(true, b"  ", b" err ").as_deref(), Some("err"));
    assert_eq!(probe_output(true, b"", b""), None);
    assert_eq!(probe_output(false, b"out", b""), None);
}

#[test]
fn rendered_paths_end_the_argument_lists_in_order() {
    let args = whisper_args_for(&settings(), "/out/.work/audio.000.m4a", "/out/.work/chunks");
    let n = args.len();
    assert_eq!(args[n - 3], "--output_dir");
    assert_eq!(args[n - 2], "/out/.work/chunks");
    assert_eq!(args[n - 1], "/out/.work/audio.000.m4a");
    assert_eq!(
        args,
        whisper_args(&settings(), Path::new("/out/.work/audio.000.m4a"), Path::new("/out/.work/chunks"))
    );

    assert_eq!(
        ffprobe_duration_args_for("/tmp/audio.m4a"),
        vec!["-v", "error", "-show_entries", "format=duration", "-of", "json", "/tmp/audio.m4a"]
    );
}
