//! Verified core of the transcribe pipeline: text handling, translation planning and
//! validation, artifact decisions, log sanitizing and tool argument construction.

pub mod text;
pub mod validate;
pub mod config;
pub mod blocks;
pub mod secrets;
pub mod deepseek;
pub mod artifacts;
pub mod models;
pub mod process;
pub mod tool_args;
pub mod whisper;
pub mod ffmpeg;
pub mod pipeline;
pub mod translate;
pub mod ytdlp;
pub mod events;
pub mod notifications;
pub mod log;
pub mod probe;
pub mod fetch;
pub mod transcript;
pub mod chunks;
pub mod video;
