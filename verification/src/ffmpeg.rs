//! ffprobe/ffmpeg arguments and the outcome of a probe or a chunk cut.
use crate::process::{excerpt, tail_excerpt, ProcessResult};
use crate::text::{debug_exit, push_debug_exit, push_str, views};
use crate::tool_args::{path_text, push_arg};
use std::path::Path;
use vstd::prelude::*;

verus! {

/// How many stderr lines a failure message quotes.
pub const STDERR_EXCERPT_LINES: usize = 8;

/// Why a probe or a chunk cut failed.
#[derive(Debug)]
pub enum FfmpegError {
    SpawnFailed(String),
    ProbeFailed { exit: Option<i32>, tail: String },
    InvalidDuration,
    ChunkFailed { exit: Option<i32>, tail: String },
    Cancelled,
}

pub open spec fn ffmpeg_message(e: FfmpegError) -> Seq<char> {
    match e {
        FfmpegError::SpawnFailed(error) => "ffmpeg failed to start: "@ + error@,
        FfmpegError::ProbeFailed { exit, tail } => "ffprobe failed (exit "@ + debug_exit(exit)
            + "): "@ + tail@,
        FfmpegError::InvalidDuration => "ffprobe returned no usable duration"@,
        FfmpegError::ChunkFailed { exit, tail } => "ffmpeg chunk cut failed (exit "@ + debug_exit(
            exit,
        ) + "): "@ + tail@,
        FfmpegError::Cancelled => "cancelled"@,
    }
}

impl FfmpegError {
    /// The error text.
    pub fn message(&self) -> (r: String)
        ensures
            r@ == ffmpeg_message(*self),
    {
        let mut out = String::new();
        match self {
            FfmpegError::SpawnFailed(error) => {
                push_str(&mut out, "ffmpeg failed to start: ");
                push_str(&mut out, error.as_str());
            },
            FfmpegError::ProbeFailed { exit, tail } => {
                push_str(&mut out, "ffprobe failed (exit ");
                push_debug_exit(&mut out, *exit);
                push_str(&mut out, "): ");
                push_str(&mut out, tail.as_str());
            },
            FfmpegError::InvalidDuration => push_str(
                &mut out,
                "ffprobe returned no usable duration",
            ),
            FfmpegError::ChunkFailed { exit, tail } => {
                push_str(&mut out, "ffmpeg chunk cut failed (exit ");
                push_debug_exit(&mut out, *exit);
                push_str(&mut out, "): ");
                push_str(&mut out, tail.as_str());
            },
            FfmpegError::Cancelled => push_str(&mut out, "cancelled"),
        }
        out
    }

    /// The exit code a failed tool run reported, if the error carries one.
    pub fn exit_code(&self) -> (r: Option<i32>)
        ensures
            r == match *self {
                FfmpegError::ProbeFailed { exit, .. } => exit,
                FfmpegError::ChunkFailed { exit, .. } => exit,
                _ => None,
            },
    {
        match self {
            FfmpegError::ProbeFailed { exit, .. } => *exit,
            FfmpegError::ChunkFailed { exit, .. } => *exit,
            _ => None,
        }
    }
}

/// The ffprobe flags before the input: errors only, the container duration, as JSON.
pub open spec fn ffprobe_flags() -> Seq<Seq<char>> {
    seq!["-v"@, "error"@, "-show_entries"@, "format=duration"@, "-of"@, "json"@]
}

/// `ffprobe -v error -show_entries format=duration -of json <input>`, given the rendered
/// input path.
pub fn ffprobe_duration_args_for(input: &str) -> (r: Vec<String>)
    ensures
        views(r@) == ffprobe_flags().push(input@),
{
    let mut args: Vec<String> = Vec::new();
    push_arg(&mut args, "-v");
    push_arg(&mut args, "error");
    push_arg(&mut args, "-show_entries");
    push_arg(&mut args, "format=duration");
    push_arg(&mut args, "-of");
    push_arg(&mut args, "json");
    assert(views(args@) =~= ffprobe_flags());
    push_arg(&mut args, input);
    args
}

/// [`ffprobe_duration_args_for`] with the input rendered as `Path::to_string_lossy`
/// renders it.
pub fn ffprobe_duration_args(input: &Path) -> (r: Vec<String>)
    ensures
        r@.len() == 7,
        views(r@).take(6) == ffprobe_flags(),
{
    let text = path_text(input);
    let r = ffprobe_duration_args_for(text.as_str());
    assert(views(r@).len() == r@.len());
    assert(views(r@).take(6) =~= ffprobe_flags());
    r
}

/// How a probe or a cut ended: a cancelled run is cancelled, a non-zero (or missing) exit
/// is a failure quoting the last stderr lines (`probe` picks the probe or the cut error),
/// otherwise it succeeded.
pub fn tool_outcome(result: &ProcessResult, probe: bool) -> (r: Result<(), FfmpegError>)
    ensures
        result.cancelled ==> r matches Err(FfmpegError::Cancelled),
        !result.cancelled && result.code != Some(0i32) ==> match r {
            Err(FfmpegError::ProbeFailed { exit, tail }) => probe && exit == result.code && tail@
                == excerpt(result.stderr_tail@, STDERR_EXCERPT_LINES as nat),
            Err(FfmpegError::ChunkFailed { exit, tail }) => !probe && exit == result.code && tail@
                == excerpt(result.stderr_tail@, STDERR_EXCERPT_LINES as nat),
            _ => false,
        },
        !result.cancelled && result.code == Some(0i32) ==> r is Ok,
{
    if result.cancelled {
        return Err(FfmpegError::Cancelled);
    }
    let succeeded = match result.code {
        Some(code) => code == 0,
        None => false,
    };
    if !succeeded {
        let tail = tail_excerpt(result.stderr_tail.as_slice(), STDERR_EXCERPT_LINES);
        if probe {
            return Err(FfmpegError::ProbeFailed { exit: result.code, tail });
        } else {
            return Err(FfmpegError::ChunkFailed { exit: result.code, tail });
        }
    }
    Ok(())
}

} // verus!
