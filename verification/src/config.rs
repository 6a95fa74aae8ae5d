//! The configuration sections that the transcribe pipeline reads (network, auth, input,
//! output, transcription, translation, logging, notifications).
use vstd::prelude::*;

verus! {

/// Network flags shared by every yt-dlp invocation.
#[derive(Debug, Clone, PartialEq, Eq)]
pub struct NetworkSettings {
    pub enable_proxy: Option<bool>,
    pub proxy: Option<String>,
    /// `"none"`, `"any"` or a concrete impersonation target.
    pub impersonate: String,
    /// Multi-line `--extractor-args` text field.
    pub extractor_args: String,
}

impl NetworkSettings {
    pub fn default_settings() -> (r: Self)
        ensures
            r.enable_proxy == None::<bool>,
            r.proxy == None::<String>,
            r.impersonate@ == "none"@,
            r.extractor_args@ == Seq::<char>::empty(),
    {
        NetworkSettings {
            enable_proxy: None,
            proxy: None,
            impersonate: String::from_str("none"),
            extractor_args: String::new(),
        }
    }
}

/// Cookie settings of the auth section.
#[derive(Debug, Clone, PartialEq, Eq)]
pub struct AuthSettings {
    pub cookie_file: Option<String>,
    /// `"none"` or a browser name for `--cookies-from-browser`.
    pub cookie_browser: String,
}

impl AuthSettings {
    pub fn default_settings() -> (r: Self)
        ensures
            r.cookie_file == None::<String>,
            r.cookie_browser@ == "none"@,
    {
        AuthSettings { cookie_file: None, cookie_browser: String::from_str("none") }
    }
}

/// Secret auth values read from the vault; they only ever reach the yt-dlp argv.
#[derive(Debug, Clone, PartialEq, Eq)]
pub struct AuthSecrets {
    pub username: Option<String>,
    pub password: Option<String>,
    pub video_password: Option<String>,
    pub bearer_token: Option<String>,
    pub headers: Vec<String>,
}

impl AuthSecrets {
    pub fn empty() -> (r: Self)
        ensures
            r.username == None::<String>,
            r.password == None::<String>,
            r.video_password == None::<String>,
            r.bearer_token == None::<String>,
            r.headers@.len() == 0,
    {
        AuthSecrets {
            username: None,
            password: None,
            video_password: None,
            bearer_token: None,
            headers: Vec::new(),
        }
    }
}

/// Input handling preferences.
#[derive(Debug, Clone, Copy, PartialEq, Eq, Structural)]
pub struct InputSettings {
    /// A link that names both a video and a playlist downloads only the video.
    pub prefer_video_in_mixed_links: bool,
}

/// How a group treats playlist links.
#[derive(Debug, Clone, Copy, PartialEq, Eq, Structural)]
pub enum PlaylistMode {
    SingleVideo,
    Playlist,
}

/// Whisper model names.
#[derive(Debug, Clone, Copy, PartialEq, Eq, Structural)]
pub enum TranscriptionModel {
    Small,
    Medium,
    LargeV3,
}

/// Whisper device.
#[derive(Debug, Clone, Copy, PartialEq, Eq, Structural)]
pub enum TranscriptionDevice {
    Cuda,
    Cpu,
}

/// Whisper language selection.
#[derive(Debug, Clone, Copy, PartialEq, Eq, Structural)]
pub enum TranscriptionLanguage {
    En,
    Auto,
}

/// The `transcription` section.
#[derive(Debug, Clone, PartialEq, Eq)]
pub struct TranscriptionSettings {
    pub model: TranscriptionModel,
    pub device: TranscriptionDevice,
    pub language: TranscriptionLanguage,
    pub fp16: bool,
    pub condition_on_previous_text: bool,
    /// Chunk length; `0` keeps the audio in one chunk.
    pub chunk_minutes: u32,
    pub whisper_path: Option<String>,
    pub keep_audio: bool,
}

impl TranscriptionSettings {
    pub fn default_settings() -> (r: Self)
        ensures
            r.model == TranscriptionModel::Small,
            r.device == TranscriptionDevice::Cuda,
            r.language == TranscriptionLanguage::En,
            r.fp16,
            !r.condition_on_previous_text,
            r.chunk_minutes == 20,
            r.whisper_path == None::<String>,
            !r.keep_audio,
    {
        TranscriptionSettings {
            model: TranscriptionModel::Small,
            device: TranscriptionDevice::Cuda,
            language: TranscriptionLanguage::En,
            fp16: true,
            condition_on_previous_text: false,
            chunk_minutes: 20,
            whisper_path: None,
            keep_audio: false,
        }
    }
}

/// The `translation` section (the sampling temperature is kept by the HTTP client).
#[derive(Debug, PartialEq, Eq)]
pub struct TranslationSettings {
    pub base_url: String,
    pub model: String,
    pub max_segments_per_block: u32,
    pub max_chars_per_block: u32,
    pub max_retries: u32,
    pub drop_fillers: bool,
    /// One `source=target` pair per line.
    pub glossary: String,
}

impl Clone for TranslationSettings {
    fn clone(&self) -> (r: Self)
        ensures
            r == *self,
    {
        TranslationSettings {
            base_url: self.base_url.clone(),
            model: self.model.clone(),
            max_segments_per_block: self.max_segments_per_block,
            max_chars_per_block: self.max_chars_per_block,
            max_retries: self.max_retries,
            drop_fillers: self.drop_fillers,
            glossary: self.glossary.clone(),
        }
    }
}

impl TranslationSettings {
    pub fn default_settings() -> (r: Self)
        ensures
            r.base_url@ == "https://api.deepseek.com"@,
            r.model@ == "deepseek-chat"@,
            r.max_segments_per_block == 6,
            r.max_chars_per_block == 3000,
            r.max_retries == 3,
            r.drop_fillers,
            r.glossary@ == Seq::<char>::empty(),
    {
        TranslationSettings {
            base_url: String::from_str("https://api.deepseek.com"),
            model: String::from_str("deepseek-chat"),
            max_segments_per_block: 6,
            max_chars_per_block: 3000,
            max_retries: 3,
            drop_fillers: true,
            glossary: String::new(),
        }
    }
}

/// The `output` section.
#[derive(Debug, Clone, PartialEq, Eq)]
pub struct OutputSettings {
    pub download_dir: Option<String>,
    /// Directory that holds one folder per transcribed video.
    pub root_dir: Option<String>,
    pub overwrite: bool,
    pub restrict_filenames: bool,
}

/// The `logging` section.
#[derive(Debug, Clone, Copy, PartialEq, Eq, Structural)]
pub struct LoggingSettings {
    /// Raw tool output is written to the file log only when this is on.
    pub verbose: bool,
}

/// The configuration sections the transcribe pipeline reads.
#[derive(Debug, Clone, PartialEq, Eq)]
pub struct Config {
    pub network: NetworkSettings,
    pub auth: AuthSettings,
    pub input: InputSettings,
    pub output: OutputSettings,
    pub transcription: TranscriptionSettings,
    pub translation: TranslationSettings,
    pub logging: LoggingSettings,
}

/// Directory (inside the download dir) that holds the transcripts and their work files.
pub const TRANSCRIPT_DIR_NAME: &'static str = "ovd-transcripts";

/// Fills the output paths that depend on the host environment, and only those: a
/// configured path is kept as it is.
pub fn apply_path_defaults(value: &mut Config, base_dir: &std::path::Path)
    ensures
        old(value).output.download_dir is Some ==> final(value).output.download_dir == old(
            value,
        ).output.download_dir,
        old(value).output.root_dir is Some ==> final(value).output.root_dir == old(
            value,
        ).output.root_dir,
        final(value).output.download_dir is Some,
        final(value).output.root_dir is Some,
        final(value).network == old(value).network,
        final(value).auth == old(value).auth,
        final(value).input == old(value).input,
        final(value).output.overwrite == old(value).output.overwrite,
        final(value).output.restrict_filenames == old(value).output.restrict_filenames,
        final(value).transcription == old(value).transcription,
        final(value).translation == old(value).translation,
        final(value).logging == old(value).logging,
{
    if value.output.download_dir.is_none() {
        value.output.download_dir = Some(crate::tool_args::path_text(base_dir));
    }
    if value.output.root_dir.is_none() {
        let root = crate::artifacts::join_path(base_dir, TRANSCRIPT_DIR_NAME);
        value.output.root_dir = Some(crate::tool_args::path_text(crate::artifacts::as_path(&root)));
    }
}

/// A config without an explicit proxy switch enables the proxy exactly when a non-empty
/// proxy is configured; an explicit switch is kept.
pub fn default_proxy_switch(network: &mut NetworkSettings)
    ensures
        old(network).enable_proxy is Some ==> final(network).enable_proxy == old(
            network,
        ).enable_proxy,
        old(network).enable_proxy is None ==> final(network).enable_proxy == Some(
            match old(network).proxy {
                Some(p) => p@.len() > 0,
                None => false,
            },
        ),
        final(network).proxy == old(network).proxy,
        final(network).impersonate == old(network).impersonate,
        final(network).extractor_args == old(network).extractor_args,
{
    if network.enable_proxy.is_none() {
        let enabled = match &network.proxy {
            Some(p) => !p.as_str().is_empty(),
            None => false,
        };
        network.enable_proxy = Some(enabled);
    }
}

impl Default for NetworkSettings {
    fn default() -> (r: Self)
        ensures
            r.enable_proxy == None::<bool>,
            r.proxy == None::<String>,
            r.impersonate@ == "none"@,
            r.extractor_args@ == Seq::<char>::empty(),
    {
        NetworkSettings::default_settings()
    }
}

impl Default for AuthSettings {
    fn default() -> (r: Self)
        ensures
            r.cookie_file == None::<String>,
            r.cookie_browser@ == "none"@,
    {
        AuthSettings::default_settings()
    }
}

impl Default for AuthSecrets {
    fn default() -> (r: Self)
        ensures
            r.username == None::<String>,
            r.password == None::<String>,
            r.video_password == None::<String>,
            r.bearer_token == None::<String>,
            r.headers@.len() == 0,
    {
        AuthSecrets::empty()
    }
}

impl Default for TranscriptionSettings {
    fn default() -> (r: Self)
        ensures
            r.model == TranscriptionModel::Small,
            r.device == TranscriptionDevice::Cuda,
            r.language == TranscriptionLanguage::En,
            r.fp16,
            !r.condition_on_previous_text,
            r.chunk_minutes == 20,
            r.whisper_path == None::<String>,
            !r.keep_audio,
    {
        TranscriptionSettings::default_settings()
    }
}

impl Default for TranslationSettings {
    fn default() -> (r: Self)
        ensures
            r.base_url@ == "https://api.deepseek.com"@,
            r.model@ == "deepseek-chat"@,
            r.max_segments_per_block == 6,
            r.max_chars_per_block == 3000,
            r.max_retries == 3,
            r.drop_fillers,
            r.glossary@ == Seq::<char>::empty(),
    {
        TranslationSettings::default_settings()
    }
}

impl Default for InputSettings {
    fn default() -> (r: Self)
        ensures
            !r.prefer_video_in_mixed_links,
    {
        InputSettings { prefer_video_in_mixed_links: false }
    }
}

impl Default for OutputSettings {
    fn default() -> (r: Self)
        ensures
            r.download_dir == None::<String>,
            r.root_dir == None::<String>,
            !r.overwrite,
            !r.restrict_filenames,
    {
        OutputSettings {
            download_dir: None,
            root_dir: None,
            overwrite: false,
            restrict_filenames: false,
        }
    }
}

impl Default for LoggingSettings {
    fn default() -> (r: Self)
        ensures
            !r.verbose,
    {
        LoggingSettings { verbose: false }
    }
}

impl Default for Config {
    fn default() -> (r: Self)
        ensures
            r.output.download_dir == None::<String>,
            r.output.root_dir == None::<String>,
            !r.output.overwrite,
            !r.output.restrict_filenames,
            !r.logging.verbose,
            !r.input.prefer_video_in_mixed_links,
    {
        Config {
            network: NetworkSettings::default_settings(),
            auth: AuthSettings::default_settings(),
            input: InputSettings { prefer_video_in_mixed_links: false },
            output: OutputSettings {
                download_dir: None,
                root_dir: None,
                overwrite: false,
                restrict_filenames: false,
            },
            transcription: TranscriptionSettings::default_settings(),
            translation: TranslationSettings::default_settings(),
            logging: LoggingSettings { verbose: false },
        }
    }
}

} // verus!
