//! whisper CLI arguments, failure classification and the outcome of one chunk run.
use crate::config::{TranscriptionDevice, TranscriptionLanguage, TranscriptionModel, TranscriptionSettings};
use crate::process::{excerpt, tail_excerpt, ProcessResult};
use crate::text::{
    ascii_lower_seq, contains, contains_chars, debug_exit, lowercase_ascii, push_debug_exit, push_str,
    to_chars, views,
};
use crate::tool_args::{path_text, push_arg};
use std::path::{Path, PathBuf};
use vstd::prelude::*;

verus! {

/// How many stderr lines a failure message quotes.
pub const STDERR_EXCERPT_LINES: usize = 8;

/// Why a whisper run did not produce its JSON.
#[derive(Debug)]
pub enum WhisperError {
    SpawnFailed(String),
    OutOfMemory { tail: String },
    Failed { exit: Option<i32>, tail: String },
    Cancelled,
}

pub open spec fn whisper_message(e: WhisperError) -> Seq<char> {
    match e {
        WhisperError::SpawnFailed(error) => "whisper failed to start: "@ + error@,
        WhisperError::OutOfMemory { tail } => "whisper ran out of GPU memory: "@ + tail@,
        WhisperError::Failed { exit, tail } => "whisper failed (exit "@ + debug_exit(exit) + "): "@
            + tail@,
        WhisperError::Cancelled => "cancelled"@,
    }
}

impl WhisperError {
    /// The error text.
    pub fn message(&self) -> (r: String)
        ensures
            r@ == whisper_message(*self),
    {
        let mut out = String::new();
        match self {
            WhisperError::SpawnFailed(error) => {
                push_str(&mut out, "whisper failed to start: ");
                push_str(&mut out, error.as_str());
            },
            WhisperError::OutOfMemory { tail } => {
                push_str(&mut out, "whisper ran out of GPU memory: ");
                push_str(&mut out, tail.as_str());
            },
            WhisperError::Failed { exit, tail } => {
                push_str(&mut out, "whisper failed (exit ");
                push_debug_exit(&mut out, *exit);
                push_str(&mut out, "): ");
                push_str(&mut out, tail.as_str());
            },
            WhisperError::Cancelled => push_str(&mut out, "cancelled"),
        }
        out
    }
}

pub open spec fn model_name(model: TranscriptionModel) -> Seq<char> {
    match model {
        TranscriptionModel::Small => "small"@,
        TranscriptionModel::Medium => "medium"@,
        TranscriptionModel::LargeV3 => "large-v3"@,
    }
}

pub open spec fn device_name(device: TranscriptionDevice) -> Seq<char> {
    match device {
        TranscriptionDevice::Cuda => "cuda"@,
        TranscriptionDevice::Cpu => "cpu"@,
    }
}

pub open spec fn bool_name(value: bool) -> Seq<char> {
    if value {
        "True"@
    } else {
        "False"@
    }
}

/// The model name whisper expects.
pub fn model_arg(model: TranscriptionModel) -> (r: &'static str)
    ensures
        r@ == model_name(model),
{
    match model {
        TranscriptionModel::Small => "small",
        TranscriptionModel::Medium => "medium",
        TranscriptionModel::LargeV3 => "large-v3",
    }
}

/// The device name whisper expects.
pub fn device_arg(device: TranscriptionDevice) -> (r: &'static str)
    ensures
        r@ == device_name(device),
{
    match device {
        TranscriptionDevice::Cuda => "cuda",
        TranscriptionDevice::Cpu => "cpu",
    }
}

/// A boolean as whisper's Python CLI spells it.
pub fn bool_arg(value: bool) -> (r: &'static str)
    ensures
        r@ == bool_name(value),
{
    if value {
        "True"
    } else {
        "False"
    }
}

/// The flags before the two paths: model, device, JSON output, verbose segment lines,
/// no conditioning unless configured, fp16 only on CUDA, and English unless the language
/// is detected.
pub open spec fn whisper_flags(s: TranscriptionSettings) -> Seq<Seq<char>> {
    let fp16 = s.fp16 && s.device == TranscriptionDevice::Cuda;
    seq![
        "--model"@,
        model_name(s.model),
        "--device"@,
        device_name(s.device),
        "--task"@,
        "transcribe"@,
        "--output_format"@,
        "json"@,
        "--verbose"@,
        "True"@,
        "--condition_on_previous_text"@,
        bool_name(s.condition_on_previous_text),
        "--fp16"@,
        bool_name(fp16),
    ] + (if s.language == TranscriptionLanguage::En {
        seq!["--language"@, "en"@]
    } else {
        Seq::empty()
    }) + seq!["--output_dir"@]
}

/// What whisper is told, flag by flag: the chosen model (`small`, `medium`, `large-v3`),
/// the chosen device (`cpu` or `cuda`), JSON output with verbose segment lines,
/// conditioning as configured, half precision only when asked for on CUDA, English only
/// when the language is fixed to English, and the output directory flag last.
pub proof fn law_whisper_flags_follow_the_settings(s: TranscriptionSettings)
    ensures
        ({
            let f = whisper_flags(s);
            &&& f.len() == if s.language == TranscriptionLanguage::En { 17nat } else { 15nat }
            &&& f[0] == "--model"@
            &&& f[1] == match s.model {
                TranscriptionModel::Small => "small"@,
                TranscriptionModel::Medium => "medium"@,
                TranscriptionModel::LargeV3 => "large-v3"@,
            }
            &&& f[2] == "--device"@
            &&& f[3] == if s.device == TranscriptionDevice::Cpu { "cpu"@ } else { "cuda"@ }
            &&& f[4] == "--task"@ && f[5] == "transcribe"@
            &&& f[6] == "--output_format"@ && f[7] == "json"@
            &&& f[8] == "--verbose"@ && f[9] == "True"@
            &&& f[10] == "--condition_on_previous_text"@
            &&& f[11] == if s.condition_on_previous_text { "True"@ } else { "False"@ }
            &&& f[12] == "--fp16"@
            &&& f[13] == if s.fp16 && s.device == TranscriptionDevice::Cuda {
                "True"@
            } else {
                "False"@
            }
            &&& s.language == TranscriptionLanguage::En ==> f[14] == "--language"@ && f[15]
                == "en"@
            &&& f[f.len() - 1] == "--output_dir"@
        }),
{
}

/// The whisper argv for one chunk, given the rendered output directory and chunk path:
/// [`whisper_flags`], then the output directory, then the chunk.
pub fn whisper_args_for(settings: &TranscriptionSettings, chunk: &str, output_dir: &str) -> (r: Vec<
    String,
>)
    ensures
        views(r@) == whisper_flags(*settings).push(output_dir@).push(chunk@),
{
    let fp16 = settings.fp16 && matches!(settings.device, TranscriptionDevice::Cuda);
    let mut args: Vec<String> = Vec::new();
    push_arg(&mut args, "--model");
    push_arg(&mut args, model_arg(settings.model));
    push_arg(&mut args, "--device");
    push_arg(&mut args, device_arg(settings.device));
    push_arg(&mut args, "--task");
    push_arg(&mut args, "transcribe");
    push_arg(&mut args, "--output_format");
    push_arg(&mut args, "json");
    push_arg(&mut args, "--verbose");
    push_arg(&mut args, "True");
    push_arg(&mut args, "--condition_on_previous_text");
    push_arg(&mut args, bool_arg(settings.condition_on_previous_text));
    push_arg(&mut args, "--fp16");
    push_arg(&mut args, bool_arg(fp16));
    if matches!(settings.language, TranscriptionLanguage::En) {
        push_arg(&mut args, "--language");
        push_arg(&mut args, "en");
    }
    push_arg(&mut args, "--output_dir");
    assert(views(args@) =~= whisper_flags(*settings));
    push_arg(&mut args, output_dir);
    push_arg(&mut args, chunk);
    args
}

/// Builds the whisper argv for one chunk: [`whisper_args_for`] with both paths rendered
/// as `Path::to_string_lossy` renders them (`output_dir` receives `<chunk stem>.json`).
pub fn whisper_args(settings: &TranscriptionSettings, chunk: &Path, output_dir: &Path) -> (r: Vec<
    String,
>)
    ensures
        r@.len() == whisper_flags(*settings).len() + 2,
        views(r@).take(whisper_flags(*settings).len() as int) == whisper_flags(*settings),
{
    let dir = path_text(output_dir);
    let file = path_text(chunk);
    let r = whisper_args_for(settings, file.as_str(), dir.as_str());
    assert(views(r@).len() == r@.len());
    assert(views(r@).take(whisper_flags(*settings).len() as int) =~= whisper_flags(*settings));
    r
}

/// The stderr of a CUDA out-of-memory failure, in any letter case.
pub open spec fn is_oom_text(s: Seq<char>) -> bool {
    contains(ascii_lower_seq(s), "cuda out of memory"@) || contains(
        ascii_lower_seq(s),
        "torch.cuda.outofmemoryerror"@,
    )
}

/// Whether whisper's stderr reports a CUDA out-of-memory failure.
pub fn is_out_of_memory(stderr: &str) -> (r: bool)
    ensures
        r == is_oom_text(stderr@),
{
    let lower = lowercase_ascii(&to_chars(stderr));
    let a = to_chars("cuda out of memory");
    let b = to_chars("torch.cuda.outofmemoryerror");
    contains_chars(&lower, &a) || contains_chars(&lower, &b)
}

pub open spec fn classified(exit: Option<i32>, tail: String) -> WhisperError {
    if is_oom_text(tail@) {
        WhisperError::OutOfMemory { tail }
    } else {
        WhisperError::Failed { exit, tail }
    }
}

/// Maps a failed whisper exit to the stable error kinds; out-of-memory wins.
pub fn classify_whisper_failure(exit: Option<i32>, tail: String) -> (r: WhisperError)
    ensures
        r == classified(exit, tail),
{
    if is_out_of_memory(tail.as_str()) {
        WhisperError::OutOfMemory { tail }
    } else {
        WhisperError::Failed { exit, tail }
    }
}

/// Calls `Path::file_stem` and renders the stem with `to_string_lossy` (empty when the
/// path has none).
#[verifier::external_body]
fn file_stem_text(path: &Path) -> String {
    path.file_stem().map(|stem| stem.to_string_lossy().into_owned()).unwrap_or_default()
}

/// `<stem>.json`.
pub fn json_file_name(stem: &str) -> (r: String)
    ensures
        r@ == stem@ + ".json"@,
{
    let mut name = stem.to_string();
    push_str(&mut name, ".json");
    name
}

/// Inputs of one whisper run.
pub struct WhisperChunkRequest<'a> {
    /// whisper executable (or shim) to run.
    pub program: &'a Path,
    /// Toolchain directory prepended to `PATH` (whisper shells out to ffmpeg).
    pub bin_dir: &'a Path,
    pub settings: &'a TranscriptionSettings,
    /// Chunk to transcribe; the JSON output is named after its file stem.
    pub chunk: &'a Path,
    pub output_dir: &'a Path,
}

/// whisper writes `--output_format json` into `output_dir` as `<chunk stem>.json` (the
/// whole stem: `audio.000.m4a` gives `audio.000.json`, see [`json_file_name`]). The path is
/// built by `Path::join`; a `PathBuf` has no view and is no plain value, so no name can
/// stand for it and the contract states nothing of it.
pub fn chunk_json_path(chunk: &Path, output_dir: &Path) -> PathBuf {
    let stem = file_stem_text(chunk);
    let name = json_file_name(stem.as_str());
    crate::artifacts::join_path(output_dir, name.as_str())
}

/// The outcome of a whisper run: a cancelled run is cancelled; a non-zero (or missing)
/// exit is classified with the last stderr lines; a clean exit without the JSON file is a
/// failure naming the file (`json_path` is its rendered path); otherwise the chunk is done.
pub fn whisper_outcome(result: &ProcessResult, json_exists: bool, json_path: &str) -> (r: Result<
    (),
    WhisperError,
>)
    ensures
        result.cancelled ==> r matches Err(WhisperError::Cancelled),
        !result.cancelled && result.code != Some(0i32) ==> match r {
            Err(WhisperError::OutOfMemory { tail }) => tail@ == excerpt(
                result.stderr_tail@,
                STDERR_EXCERPT_LINES as nat,
            ) && is_oom_text(tail@),
            Err(WhisperError::Failed { exit, tail }) => exit == result.code && tail@ == excerpt(
                result.stderr_tail@,
                STDERR_EXCERPT_LINES as nat,
            ) && !is_oom_text(tail@),
            _ => false,
        },
        !result.cancelled && result.code == Some(0i32) && !json_exists ==> match r {
            Err(WhisperError::Failed { exit, tail }) => exit == result.code && tail@
                == "whisper produced no "@ + json_path@ + " output"@,
            _ => false,
        },
        !result.cancelled && result.code == Some(0i32) && json_exists ==> r is Ok,
{
    if result.cancelled {
        return Err(WhisperError::Cancelled);
    }
    let tail = tail_excerpt(result.stderr_tail.as_slice(), STDERR_EXCERPT_LINES);
    let succeeded = match result.code {
        Some(code) => code == 0,
        None => false,
    };
    if !succeeded {
        return Err(classify_whisper_failure(result.code, tail));
    }
    if !json_exists {
        let mut message = String::new();
        push_str(&mut message, "whisper produced no ");
        push_str(&mut message, json_path);
        push_str(&mut message, " output");
        return Err(WhisperError::Failed { exit: result.code, tail: message });
    }
    Ok(())
}

} // verus!
