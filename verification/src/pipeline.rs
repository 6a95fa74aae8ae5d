//! Video-level decisions of the transcribe pipeline: batch entries, outcomes, the
//! mapping of tool failures to error codes, batch bookkeeping and `summary.md`.
//!
//! The pipeline itself (downloads, tool runs, HTTP, events) runs outside this crate; it
//! hands every decision to the functions here.
use crate::config::TranscriptionSettings;
use crate::deepseek::{DeepseekError, Usage};
use crate::ffmpeg::FfmpegError;
use crate::models::{code_name, BatchSummaryItem, VideoErrorCode, VideoStatus};
use crate::text::{decimal, join, join_strings, push_str, push_u64, trim, views};
use crate::whisper::{device_arg, device_name, model_arg, model_name, WhisperError};
use std::path::PathBuf;
use vstd::prelude::*;

verus! {

/// One video in a transcribe batch. `id` is the media id used by the IPC payloads.
#[derive(Clone, Debug)]
pub struct TranscribeEntry {
    pub batch_id: String,
    pub group_id: String,
    pub id: String,
    pub url: String,
}

/// A request to the transcribe dispatcher.
#[derive(Clone, Debug)]
pub enum TranscribeRequest {
    Batch { batch_id: String, root_dir: PathBuf, entries: Vec<TranscribeEntry> },
}

/// Stamps every entry of a batch with the batch id, keeping everything else and the order.
pub fn assign_batch(batch_id: &String, entries: Vec<TranscribeEntry>) -> (r: Vec<TranscribeEntry>)
    ensures
        r@.len() == entries@.len(),
        forall|i: int|
            0 <= i < r@.len() ==> (#[trigger] r@[i]).batch_id == *batch_id && r@[i].group_id
                == entries@[i].group_id && r@[i].id == entries@[i].id && r@[i].url
                == entries@[i].url,
{
    let mut out: Vec<TranscribeEntry> = Vec::new();
    let mut i: usize = 0;
    while i < entries.len()
        invariant
            i <= entries@.len(),
            out@.len() == i,
            forall|k: int|
                0 <= k < i ==> (#[trigger] out@[k]).batch_id == *batch_id && out@[k].group_id
                    == entries@[k].group_id && out@[k].id == entries@[k].id && out@[k].url
                    == entries@[k].url,
        decreases entries@.len() - i,
    {
        let e = &entries[i];
        out.push(
            TranscribeEntry {
                batch_id: batch_id.clone(),
                group_id: e.group_id.clone(),
                id: e.id.clone(),
                url: e.url.clone(),
            },
        );
        i += 1;
    }
    out
}

// ---------------------------------------------------------------------------
// Starting a batch
// ---------------------------------------------------------------------------

/// The answer to a start request without a usable link.
pub const NO_URLS: &'static str = "no urls provided";

/// The answer to a start request while whisper cannot be found.
pub const WHISPER_MISSING: &'static str = "whisperMissing";

/// The answer to a start request without an output root directory.
pub const NO_ROOT_DIR: &'static str = "output root directory is not configured";

/// The links of a start request: each trimmed, blank ones dropped, order kept.
pub open spec fn start_links(urls: Seq<Seq<char>>) -> Seq<Seq<char>>
    decreases urls.len(),
{
    if urls.len() == 0 {
        Seq::empty()
    } else if trim(urls.last()).len() > 0 {
        start_links(urls.drop_last()).push(trim(urls.last()))
    } else {
        start_links(urls.drop_last())
    }
}

/// Why a start request is refused, checked in this order; `None` when it is accepted.
pub open spec fn start_refusal(links: nat, whisper_found: bool, has_root: bool) -> Option<
    Seq<char>,
> {
    if links == 0 {
        Some(NO_URLS@)
    } else if !whisper_found {
        Some(WHISPER_MISSING@)
    } else if !has_root {
        Some(NO_ROOT_DIR@)
    } else {
        None
    }
}

/// A new batch: its id, its output root and one entry per link (fresh group and media
/// ids, in link order).
pub struct StartedBatch {
    pub batch_id: String,
    pub root_dir: String,
    pub entries: Vec<TranscribeEntry>,
}

/// Accepts a batch of links: refused without a non-blank link ([`NO_URLS`]), then while
/// whisper is missing ([`WHISPER_MISSING`]), then without an output root
/// ([`NO_ROOT_DIR`]); otherwise one entry per trimmed link, all stamped with one batch id.
pub fn transcribe_start(urls: Vec<String>, whisper_found: bool, root_dir: Option<String>) -> (r:
    Result<StartedBatch, String>)
    ensures
        match r {
            Err(e) => start_refusal(
                start_links(views(urls@)).len(),
                whisper_found,
                root_dir is Some,
            ) == Some(e@),
            Ok(b) => {
                &&& start_refusal(start_links(views(urls@)).len(), whisper_found, root_dir is Some)
                    is None
                &&& root_dir == Some(b.root_dir)
                &&& views_of_urls(b.entries@) == start_links(views(urls@))
                &&& forall|i: int|
                    0 <= i < b.entries@.len() ==> (#[trigger] b.entries@[i]).batch_id == b.batch_id
            },
        },
{
    let mut links: Vec<String> = Vec::new();
    let mut i: usize = 0;
    while i < urls.len()
        invariant
            i <= urls@.len(),
            views(links@) == start_links(views(urls@).take(i as int)),
        decreases urls@.len() - i,
    {
        proof {
            assert(views(urls@).take(i + 1).drop_last() =~= views(urls@).take(i as int));
            assert(views(urls@).take(i + 1).last() == urls@[i as int]@);
        }
        if !crate::text::is_blank(urls[i].as_str()) {
            let t = crate::text::trim_str(urls[i].as_str());
            links.push(t);
            proof { assert(views(links@) =~= start_links(views(urls@).take(i as int)).push(trim(urls@[i as int]@))); }
        }
        i += 1;
    }
    proof { assert(views(urls@).take(urls@.len() as int) =~= views(urls@)); }
    if links.len() == 0 {
        return Err(NO_URLS.to_string());
    }
    if !whisper_found {
        return Err(WHISPER_MISSING.to_string());
    }
    let root = match root_dir {
        Some(root) => root,
        None => {
            return Err(NO_ROOT_DIR.to_string());
        },
    };
    let batch_id = crate::fetch::fresh_id();
    let mut entries: Vec<TranscribeEntry> = Vec::new();
    let mut k: usize = 0;
    while k < links.len()
        invariant
            k <= links@.len(),
            entries@.len() == k,
            forall|j: int|
                0 <= j < k ==> (#[trigger] entries@[j]).url == links@[j] && entries@[j].batch_id
                    == batch_id,
        decreases links@.len() - k,
    {
        let group_id = crate::fetch::fresh_id();
        let id = crate::fetch::fresh_id();
        entries.push(
            TranscribeEntry { batch_id: batch_id.clone(), group_id, id, url: links[k].clone() },
        );
        k += 1;
    }
    proof {
        assert(views_of_urls(entries@) =~= views(links@));
    }
    Ok(StartedBatch { batch_id, root_dir: root, entries })
}

/// The links of a batch's entries, in order.
pub open spec fn views_of_urls(entries: Seq<TranscribeEntry>) -> Seq<Seq<char>> {
    Seq::new(entries.len(), |i: int| entries[i].url@)
}

// ---------------------------------------------------------------------------
// Outcomes
// ---------------------------------------------------------------------------

/// How one video ended.
pub struct VideoOutcome {
    pub entry: TranscribeEntry,
    pub status: VideoStatus,
    pub error_code: Option<VideoErrorCode>,
    pub outputs: Vec<String>,
    pub skipped: bool,
    pub usage: Usage,
}

impl VideoOutcome {
    /// A finished (or skipped) video with its transcripts and token usage.
    pub fn done(entry: TranscribeEntry, outputs: Vec<String>, skipped: bool, usage: Usage) -> (r:
        Self)
        ensures
            r.entry == entry,
            r.status == VideoStatus::Done,
            r.error_code is None,
            r.outputs == outputs,
            r.skipped == skipped,
            r.usage == usage,
    {
        VideoOutcome { entry, status: VideoStatus::Done, error_code: None, outputs, skipped, usage }
    }

    /// A failed video: its code, no outputs, no usage.
    pub fn failed(entry: TranscribeEntry, code: VideoErrorCode) -> (r: Self)
        ensures
            r.entry == entry,
            r.status == VideoStatus::Failed,
            r.error_code == Some(code),
            r.outputs@.len() == 0,
            !r.skipped,
            r.usage == (Usage { prompt_tokens: 0, completion_tokens: 0 }),
    {
        VideoOutcome {
            entry,
            status: VideoStatus::Failed,
            error_code: Some(code),
            outputs: Vec::new(),
            skipped: false,
            usage: Usage { prompt_tokens: 0, completion_tokens: 0 },
        }
    }

    /// A cancelled video: no code, no outputs, no usage (its work files stay for a resume).
    pub fn cancelled(entry: TranscribeEntry) -> (r: Self)
        ensures
            r.entry == entry,
            r.status == VideoStatus::Cancelled,
            r.error_code is None,
            r.outputs@.len() == 0,
            !r.skipped,
            r.usage == (Usage { prompt_tokens: 0, completion_tokens: 0 }),
    {
        VideoOutcome {
            entry,
            status: VideoStatus::Cancelled,
            error_code: None,
            outputs: Vec::new(),
            skipped: false,
            usage: Usage { prompt_tokens: 0, completion_tokens: 0 },
        }
    }
}

/// Failure inside one stage; `Cancelled` keeps the work files for a later resume.
pub enum JobError {
    Failed(VideoErrorCode, String),
    Cancelled,
}

impl JobError {
    pub fn failed(code: VideoErrorCode, message: String) -> (r: Self)
        ensures
            r == JobError::Failed(code, message),
    {
        JobError::Failed(code, message)
    }
}

/// `<code>: <message>`, the text of a `media_fatal` event.
pub fn failure_text(code: VideoErrorCode, message: &str) -> (r: String)
    ensures
        r@ == code_name(code) + ": "@ + message@,
{
    let mut out = String::new();
    push_str(&mut out, code.as_str());
    push_str(&mut out, ": ");
    push_str(&mut out, message);
    out
}

/// The title a video directory is named after: the fetched title, else the media id.
pub fn video_title(title: Option<String>, id: &String) -> (r: String)
    ensures
        r == match title {
            Some(t) => t,
            None => *id,
        },
{
    match title {
        Some(t) => t,
        None => id.clone(),
    }
}

/// A stored translation is reused only when the transcription was reused too (a new
/// transcription may change the paragraphs), the stored blocks are complete, and the run
/// does not overwrite.
pub fn translation_reusable(segments_reused: bool, blocks_complete: bool, overwrite: bool) -> (r:
    bool)
    ensures
        r == (segments_reused && blocks_complete && !overwrite),
{
    segments_reused && blocks_complete && !overwrite
}

/// With transcripts missing, a run reuses the translation exactly when the resume plan
/// skips both the transcription and the translation.
pub proof fn law_translation_reuse_follows_the_plan(
    segments_complete: bool,
    blocks_complete: bool,
    overwrite: bool,
)
    ensures
        ({
            let plan = crate::artifacts::skip_plan(
                crate::artifacts::ArtifactState {
                    en_exists: false,
                    zh_exists: false,
                    segments_complete,
                    blocks_complete,
                },
                overwrite,
            );
            let segments_reused = !overwrite && segments_complete;
            (segments_reused && blocks_complete && !overwrite) == plan.skip_translation
                && segments_reused == plan.skip_transcription
        }),
{
}

// ---------------------------------------------------------------------------
// Error codes of tool failures
// ---------------------------------------------------------------------------

pub open spec fn whisper_code(error: WhisperError) -> VideoErrorCode {
    match error {
        WhisperError::OutOfMemory { .. } => VideoErrorCode::WhisperOutOfMemory,
        WhisperError::SpawnFailed(_) => VideoErrorCode::WhisperMissing,
        _ => VideoErrorCode::WhisperFailed,
    }
}

/// The error code of a whisper failure.
pub fn whisper_failure_code(error: &WhisperError) -> (r: VideoErrorCode)
    ensures
        r == whisper_code(*error),
{
    match error {
        WhisperError::OutOfMemory { .. } => VideoErrorCode::WhisperOutOfMemory,
        WhisperError::SpawnFailed(_) => VideoErrorCode::WhisperMissing,
        _ => VideoErrorCode::WhisperFailed,
    }
}

pub open spec fn deepseek_code(error: DeepseekError) -> VideoErrorCode {
    match error {
        DeepseekError::AuthFailed => VideoErrorCode::DeepseekAuthFailed,
        DeepseekError::RateLimited => VideoErrorCode::DeepseekRateLimited,
        DeepseekError::Timeout => VideoErrorCode::DeepseekTimeout,
        DeepseekError::InvalidResponse { .. } => VideoErrorCode::TranslationContractViolation,
        DeepseekError::ServerError { .. } => VideoErrorCode::DeepseekServerError,
        DeepseekError::RequestRejected { .. } => VideoErrorCode::DeepseekServerError,
        DeepseekError::Network(_) => VideoErrorCode::DeepseekServerError,
    }
}

/// The error code of a translation failure.
pub fn deepseek_failure_code(error: &DeepseekError) -> (r: VideoErrorCode)
    ensures
        r == deepseek_code(*error),
{
    match error {
        DeepseekError::AuthFailed => VideoErrorCode::DeepseekAuthFailed,
        DeepseekError::RateLimited => VideoErrorCode::DeepseekRateLimited,
        DeepseekError::Timeout => VideoErrorCode::DeepseekTimeout,
        DeepseekError::InvalidResponse { .. } => VideoErrorCode::TranslationContractViolation,
        DeepseekError::ServerError { .. } => VideoErrorCode::DeepseekServerError,
        DeepseekError::RequestRejected { .. } => VideoErrorCode::DeepseekServerError,
        DeepseekError::Network(_) => VideoErrorCode::DeepseekServerError,
    }
}

/// The error code and message of an ffmpeg failure: a missing binary is `ffmpegMissing`
/// with the spawn error, anything else `ffmpegChunkFailed` with the error text.
pub fn ffmpeg_failure(error: &FfmpegError) -> (r: (VideoErrorCode, String))
    ensures
        match *error {
            FfmpegError::SpawnFailed(message) => r.0 == VideoErrorCode::FfmpegMissing && r.1
                == message,
            _ => r.0 == VideoErrorCode::FfmpegChunkFailed && r.1@
                == crate::ffmpeg::ffmpeg_message(*error),
        },
{
    match error {
        FfmpegError::SpawnFailed(message) => (VideoErrorCode::FfmpegMissing, message.clone()),
        _ => (VideoErrorCode::FfmpegChunkFailed, error.message()),
    }
}

/// The error code and message when the audio duration cannot be probed: a missing
/// binary is `ffmpegMissing` with the spawn error, anything else `durationUnknown` with the
/// error text.
pub fn probe_failure(error: &FfmpegError) -> (r: (VideoErrorCode, String))
    ensures
        match *error {
            FfmpegError::SpawnFailed(message) => r.0 == VideoErrorCode::FfmpegMissing && r.1
                == message,
            _ => r.0 == VideoErrorCode::DurationUnknown && r.1@ == crate::ffmpeg::ffmpeg_message(
                *error,
            ),
        },
{
    match error {
        FfmpegError::SpawnFailed(message) => (VideoErrorCode::FfmpegMissing, message.clone()),
        _ => (VideoErrorCode::DurationUnknown, error.message()),
    }
}

/// The model name logged when a chunk starts.
pub fn transcription_model(settings: &TranscriptionSettings) -> (r: &'static str)
    ensures
        r@ == model_name(settings.model),
{
    model_arg(settings.model)
}

/// The device name logged when a chunk starts.
pub fn transcription_device(settings: &TranscriptionSettings) -> (r: &'static str)
    ensures
        r@ == device_name(settings.device),
{
    device_arg(settings.device)
}

/// The file name of chunk `index`: `audio.<index, three digits or more>.m4a`.
pub open spec fn chunk_file_name(index: nat) -> Seq<char> {
    let d = decimal(index);
    let padded = if d.len() >= 3 {
        d
    } else if d.len() == 2 {
        seq!['0'] + d
    } else {
        seq!['0', '0'] + d
    };
    "audio."@ + padded + ".m4a"@
}

/// `format!("audio.{:03}.m4a", index)`.
pub fn chunk_file(index: usize) -> (r: String)
    ensures
        r@ == chunk_file_name(index as nat),
{
    let mut out = String::new();
    push_str(&mut out, "audio.");
    if index < 10 {
        push_str(&mut out, "00");
    } else if index < 100 {
        push_str(&mut out, "0");
    }
    push_u64(&mut out, index as u64);
    push_str(&mut out, ".m4a");
    proof {
        reveal_strlit("00");
        reveal_strlit("0");
        reveal_with_fuel(decimal, 3);
        let d = decimal(index as nat);
        if index < 10 {
            assert(d.len() == 1);
            assert(out@ =~= "audio."@ + (seq!['0', '0'] + d) + ".m4a"@);
        } else if index < 100 {
            assert(d.len() == 2);
            assert(out@ =~= "audio."@ + (seq!['0'] + d) + ".m4a"@);
        } else {
            lemma_decimal_len(index as nat);
        }
    }
    out
}

proof fn lemma_decimal_len(n: nat)
    requires
        n >= 100,
    ensures
        decimal(n).len() >= 3,
    decreases n,
{
    reveal_with_fuel(decimal, 3);
    if n >= 1000 {
        lemma_decimal_len(n / 10);
    } else {
        assert(n / 10 >= 10);
        assert(decimal(n / 10).len() == 2);
    }
}

// ---------------------------------------------------------------------------
// summary.md
// ---------------------------------------------------------------------------

/// The heading and table header of `summary.md`.
pub const SUMMARY_HEADER: &'static str = "# Transcribe summary\n\n| # | URL | Status | Output | Error | Tokens prompt/completion |\n| --- | --- | --- | --- | --- | --- |\n";

/// Which status column a row shows: cancelled and failed win, then the skip marker.
pub open spec fn status_label(item: BatchSummaryItem) -> Seq<char> {
    if item.status == VideoStatus::Cancelled {
        "cancelled"@
    } else if item.status == VideoStatus::Failed {
        "failed"@
    } else if item.skipped {
        "skipped"@
    } else {
        "done"@
    }
}

pub open spec fn outputs_cell(item: BatchSummaryItem) -> Seq<char> {
    if item.outputs@.len() == 0 {
        "-"@
    } else {
        join(views(item.outputs@), "<br>"@)
    }
}

pub open spec fn error_cell(item: BatchSummaryItem) -> Seq<char> {
    match item.error_code {
        Some(code) => code_name(code),
        None => "-"@,
    }
}

/// The cells of row `position` before the status: number (shown from one) and URL.
pub open spec fn row_head(position: nat, item: BatchSummaryItem) -> Seq<char> {
    "| "@ + decimal(position + 1) + " | "@ + item.url@ + " | "@
}

/// The token cell that ends a row.
pub open spec fn row_tail(item: BatchSummaryItem) -> Seq<char> {
    " | "@ + decimal(item.prompt_tokens as nat) + "/"@ + decimal(item.completion_tokens as nat)
        + " |\n"@
}

/// Row `position` (counted from zero, shown from one).
pub open spec fn summary_row(position: nat, item: BatchSummaryItem) -> Seq<char> {
    row_head(position, item) + status_label(item) + " | "@ + outputs_cell(item) + " | "@
        + error_cell(item) + row_tail(item)
}

pub open spec fn summary_rows(items: Seq<BatchSummaryItem>) -> Seq<char>
    decreases items.len(),
{
    if items.len() == 0 {
        Seq::empty()
    } else {
        summary_rows(items.drop_last()) + summary_row((items.len() - 1) as nat, items.last())
    }
}

/// How many rows show `label`.
pub open spec fn count_label(items: Seq<BatchSummaryItem>, label: Seq<char>) -> nat
    decreases items.len(),
{
    if items.len() == 0 {
        0
    } else {
        count_label(items.drop_last(), label) + if status_label(items.last()) == label {
            1nat
        } else {
            0nat
        }
    }
}

/// The prompt (`prompt`) or completion tokens of all rows.
pub open spec fn token_sum(items: Seq<BatchSummaryItem>, prompt: bool) -> nat
    decreases items.len(),
{
    if items.len() == 0 {
        0
    } else {
        token_sum(items.drop_last(), prompt) + if prompt {
            items.last().prompt_tokens as nat
        } else {
            items.last().completion_tokens as nat
        }
    }
}

/// The whole of `summary.md`: header, one row per video, and the totals line.
pub open spec fn summary_markdown(items: Seq<BatchSummaryItem>) -> Seq<char> {
    SUMMARY_HEADER@ + summary_rows(items) + totals_line(items)
}

/// The totals line that ends `summary.md`.
pub open spec fn totals_line(items: Seq<BatchSummaryItem>) -> Seq<char> {
    "\nTotals: "@ + decimal(items.len()) + " videos, "@ + decimal(count_label(items, "done"@))
        + " done, "@ + decimal(count_label(items, "skipped"@)) + " skipped, "@ + decimal(
        count_label(items, "failed"@),
    ) + " failed, "@ + decimal(count_label(items, "cancelled"@)) + " cancelled; tokens "@
        + decimal(token_sum(items, true)) + "/"@ + decimal(token_sum(items, false))
        + " (prompt/completion).\n"@
}

proof fn lemma_rows_prefix(items: Seq<BatchSummaryItem>, k: int)
    requires
        0 <= k <= items.len(),
    ensures
        summary_rows(items).len() >= summary_rows(items.take(k)).len(),
        summary_rows(items).take(summary_rows(items.take(k)).len() as int) == summary_rows(
            items.take(k),
        ),
    decreases items.len() - k,
{
    if k == items.len() {
        assert(items.take(k) =~= items);
        assert(summary_rows(items).take(summary_rows(items).len() as int) =~= summary_rows(items));
    } else {
        lemma_rows_prefix(items, k + 1);
        let a = items.take(k);
        let b = items.take(k + 1);
        assert(b.drop_last() =~= a);
        assert(summary_rows(b) == summary_rows(a) + summary_row(k as nat, items[k]));
        let rb = summary_rows(b);
        let ra = summary_rows(a);
        assert(summary_rows(items).take(ra.len() as int) =~= rb.take(ra.len() as int));
        assert(rb.take(ra.len() as int) =~= ra);
    }
}

proof fn lemma_row_in_summary(items: Seq<BatchSummaryItem>, k: int)
    requires
        0 <= k < items.len(),
    ensures
        ({
            let start = (SUMMARY_HEADER@.len() + summary_rows(items.take(k)).len()) as int;
            let row = summary_row(k as nat, items[k]);
            &&& start + row.len() <= summary_markdown(items).len()
            &&& summary_markdown(items).subrange(start, start + row.len() as int) == row
        }),
{
    lemma_rows_prefix(items, k + 1);
    let a = items.take(k);
    let b = items.take(k + 1);
    assert(b.drop_last() =~= a);
    assert(b.last() == items[k]);
    let row = summary_row(k as nat, items[k]);
    let ra = summary_rows(a);
    let rb = summary_rows(b);
    assert(rb == ra + row);
    let rows = summary_rows(items);
    let m = summary_markdown(items);
    let start = (SUMMARY_HEADER@.len() + ra.len()) as int;
    assert(rows.take(rb.len() as int) == rb);
    assert(m.subrange(start, start + row.len() as int) =~= rb.subrange(
        ra.len() as int,
        rb.len() as int,
    ));
    assert(rb.subrange(ra.len() as int, rb.len() as int) =~= row);
}

/// `summary.md` is the header, then one row per video in batch order, then the totals
/// line; row `k` sits right after the rows before it and opens with the number `k + 1`
/// and the URL.
pub proof fn law_summary_lists_every_video_in_order(items: Seq<BatchSummaryItem>)
    ensures
        summary_markdown(items) == SUMMARY_HEADER@ + summary_rows(items) + totals_line(items),
        forall|k: int|
            0 <= k < items.len() ==> {
                let start = (SUMMARY_HEADER@.len() + summary_rows(items.take(k)).len()) as int;
                let row = summary_row(k as nat, #[trigger] items[k]);
                &&& start + row.len() <= summary_markdown(items).len()
                &&& summary_markdown(items).subrange(start, start + row.len() as int) == row
                &&& row.take(row_head(k as nat, items[k]).len() as int) == "| "@ + decimal(
                    (k + 1) as nat,
                ) + " | "@ + items[k].url@ + " | "@
            },
{
    assert forall|k: int| 0 <= k < items.len() implies {
        let start = (SUMMARY_HEADER@.len() + summary_rows(items.take(k)).len()) as int;
        let row = summary_row(k as nat, #[trigger] items[k]);
        &&& start + row.len() <= summary_markdown(items).len()
        &&& summary_markdown(items).subrange(start, start + row.len() as int) == row
        &&& row.take(row_head(k as nat, items[k]).len() as int) == "| "@ + decimal((k + 1) as nat)
            + " | "@ + items[k].url@ + " | "@
    } by {
        lemma_row_in_summary(items, k);
        let row = summary_row(k as nat, items[k]);
        let head = row_head(k as nat, items[k]);
        assert(row.take(head.len() as int) =~= head);
    }
}

proof fn lemma_token_sum_prefix(items: Seq<BatchSummaryItem>, k: int, prompt: bool)
    requires
        0 <= k <= items.len(),
    ensures
        token_sum(items.take(k), prompt) <= token_sum(items, prompt),
    decreases items.len() - k,
{
    if k < items.len() {
        lemma_token_sum_prefix(items, k + 1, prompt);
        assert(items.take(k + 1).drop_last() =~= items.take(k));
    } else {
        assert(items.take(k) =~= items);
    }
}

proof fn lemma_count_bound(items: Seq<BatchSummaryItem>, label: Seq<char>)
    ensures
        count_label(items, label) <= items.len(),
    decreases items.len(),
{
    if items.len() > 0 {
        lemma_count_bound(items.drop_last(), label);
    }
}

/// Every row is counted under exactly one of the four statuses.
pub proof fn law_summary_counts_partition(items: Seq<BatchSummaryItem>)
    ensures
        count_label(items, "done"@) + count_label(items, "skipped"@) + count_label(
            items,
            "failed"@,
        ) + count_label(items, "cancelled"@) == items.len(),
    decreases items.len(),
{
    reveal_strlit("done");
    reveal_strlit("skipped");
    reveal_strlit("failed");
    reveal_strlit("cancelled");
    if items.len() > 0 {
        law_summary_counts_partition(items.drop_last());
        assert("done"@.len() == 4 && "skipped"@.len() == 7 && "failed"@.len() == 6
            && "cancelled"@.len() == 9);
        let label = status_label(items.last());
        assert(label == "done"@ || label == "skipped"@ || label == "failed"@ || label
            == "cancelled"@);
    }
}

fn push_row_head(out: &mut String, item: &BatchSummaryItem, position: usize)
    requires
        position < usize::MAX,
    ensures
        final(out)@ == old(out)@ + row_head(position as nat, *item),
{
    push_str(out, "| ");
    push_u64(out, (position + 1) as u64);
    push_str(out, " | ");
    push_str(out, item.url.as_str());
    push_str(out, " | ");
    assert(final(out)@ =~= old(out)@ + row_head(position as nat, *item));
}

fn push_row_tail(out: &mut String, item: &BatchSummaryItem)
    ensures
        final(out)@ == old(out)@ + row_tail(*item),
{
    push_str(out, " | ");
    push_u64(out, item.prompt_tokens);
    push_str(out, "/");
    push_u64(out, item.completion_tokens);
    push_str(out, " |\n");
    assert(final(out)@ =~= old(out)@ + row_tail(*item));
}

fn status_text(item: &BatchSummaryItem) -> (r: &'static str)
    ensures
        r@ == status_label(*item),
{
    if item.status == VideoStatus::Cancelled {
        "cancelled"
    } else if item.status == VideoStatus::Failed {
        "failed"
    } else if item.skipped {
        "skipped"
    } else {
        "done"
    }
}

fn push_outputs_cell(out: &mut String, item: &BatchSummaryItem)
    ensures
        final(out)@ == old(out)@ + outputs_cell(*item),
{
    if item.outputs.len() == 0 {
        push_str(out, "-");
    } else {
        let joined = join_strings(&item.outputs, "<br>");
        push_str(out, joined.as_str());
    }
}

fn push_error_cell(out: &mut String, item: &BatchSummaryItem)
    ensures
        final(out)@ == old(out)@ + error_cell(*item),
{
    match item.error_code {
        Some(code) => push_str(out, code.as_str()),
        None => push_str(out, "-"),
    }
}

fn push_cells(out: &mut String, item: &BatchSummaryItem, position: usize)
    requires
        position < usize::MAX,
    ensures
        final(out)@ == old(out)@ + summary_row(position as nat, *item),
{
    let ghost start = out@;
    push_row_head(out, item, position);
    push_str(out, status_text(item));
    push_str(out, " | ");
    push_outputs_cell(out, item);
    push_str(out, " | ");
    push_error_cell(out, item);
    push_row_tail(out, item);
    assert(out@ =~= start + summary_row(position as nat, *item));
}

/// `summary.md`: status, outputs, failure code and token usage per video, then the
/// totals (see [`summary_markdown`]). The token totals must fit in 64 bits.
pub fn render_summary(items: &[BatchSummaryItem]) -> (r: String)
    requires
        token_sum(items@, true) <= u64::MAX,
        token_sum(items@, false) <= u64::MAX,
    ensures
        r@ == summary_markdown(items@),
{
    let mut markdown = String::new();
    push_str(&mut markdown, SUMMARY_HEADER);
    let mut done: usize = 0;
    let mut skipped: usize = 0;
    let mut failed: usize = 0;
    let mut cancelled: usize = 0;
    let mut prompt: u64 = 0;
    let mut completion: u64 = 0;
    let mut i: usize = 0;
    while i < items.len()
        invariant
            i <= items@.len(),
            token_sum(items@, true) <= u64::MAX,
            token_sum(items@, false) <= u64::MAX,
            markdown@ == SUMMARY_HEADER@ + summary_rows(items@.take(i as int)),
            done == count_label(items@.take(i as int), "done"@),
            skipped == count_label(items@.take(i as int), "skipped"@),
            failed == count_label(items@.take(i as int), "failed"@),
            cancelled == count_label(items@.take(i as int), "cancelled"@),
            prompt == token_sum(items@.take(i as int), true),
            completion == token_sum(items@.take(i as int), false),
        decreases items@.len() - i,
    {
        let item = &items[i];
        let ghost before = items@.take(i as int);
        let ghost after = items@.take(i + 1);
        assert(after.drop_last() =~= before);
        assert(after.last() == *item);
        proof {
            reveal_strlit("done");
            reveal_strlit("skipped");
            reveal_strlit("failed");
            reveal_strlit("cancelled");
            lemma_count_bound(before, "done"@);
            lemma_count_bound(before, "skipped"@);
            lemma_count_bound(before, "failed"@);
            lemma_count_bound(before, "cancelled"@);
            lemma_token_sum_prefix(items@, i + 1, true);
            lemma_token_sum_prefix(items@, i + 1, false);
        }
        if item.status == VideoStatus::Cancelled {
            cancelled += 1;
        } else if item.status == VideoStatus::Failed {
            failed += 1;
        } else if item.skipped {
            skipped += 1;
        } else {
            done += 1;
        }
        push_cells(&mut markdown, item, i);
        prompt = prompt + item.prompt_tokens;
        completion = completion + item.completion_tokens;
        i += 1;
    }
    assert(items@.take(items@.len() as int) =~= items@);
    let mut totals = String::new();
    push_str(&mut totals, "\nTotals: ");
    push_u64(&mut totals, items.len() as u64);
    push_str(&mut totals, " videos, ");
    push_u64(&mut totals, done as u64);
    push_str(&mut totals, " done, ");
    push_u64(&mut totals, skipped as u64);
    push_str(&mut totals, " skipped, ");
    push_u64(&mut totals, failed as u64);
    push_str(&mut totals, " failed, ");
    push_u64(&mut totals, cancelled as u64);
    push_str(&mut totals, " cancelled; tokens ");
    push_u64(&mut totals, prompt);
    push_str(&mut totals, "/");
    push_u64(&mut totals, completion);
    push_str(&mut totals, " (prompt/completion).\n");
    assert(totals@ =~= totals_line(items@));
    push_str(&mut markdown, totals.as_str());
    assert(markdown@ =~= summary_markdown(items@));
    markdown
}

// ---------------------------------------------------------------------------
// Batch bookkeeping
// ---------------------------------------------------------------------------

/// `row` is the summary row of `outcome`: its url, group, status, error code, outputs,
/// skipped flag and token counts.
pub open spec fn is_summary_row(row: BatchSummaryItem, outcome: VideoOutcome) -> bool {
    &&& row.group_id == outcome.entry.group_id
    &&& row.url == outcome.entry.url
    &&& row.status == outcome.status
    &&& row.error_code == outcome.error_code
    &&& row.outputs@ == outcome.outputs@
    &&& row.skipped == outcome.skipped
    &&& row.prompt_tokens == outcome.usage.prompt_tokens
    &&& row.completion_tokens == outcome.usage.completion_tokens
}

/// The summary row of a finished video.
pub fn summary_item(outcome: &VideoOutcome) -> (r: BatchSummaryItem)
    ensures
        is_summary_row(r, *outcome),
        r.group_id == outcome.entry.group_id,
        r.url == outcome.entry.url,
        r.status == outcome.status,
        r.error_code == outcome.error_code,
        r.outputs@ == outcome.outputs@,
        r.skipped == outcome.skipped,
        r.prompt_tokens == outcome.usage.prompt_tokens,
        r.completion_tokens == outcome.usage.completion_tokens,
{
    let mut outputs: Vec<String> = Vec::new();
    let mut i: usize = 0;
    while i < outcome.outputs.len()
        invariant
            i <= outcome.outputs@.len(),
            outputs@ == outcome.outputs@.take(i as int),
        decreases outcome.outputs@.len() - i,
    {
        outputs.push(outcome.outputs[i].clone());
        assert(outputs@ =~= outcome.outputs@.take(i + 1));
        i += 1;
    }
    assert(outcome.outputs@.take(outcome.outputs@.len() as int) =~= outcome.outputs@);
    BatchSummaryItem {
        group_id: outcome.entry.group_id.clone(),
        url: outcome.entry.url.clone(),
        status: outcome.status,
        error_code: outcome.error_code,
        outputs,
        skipped: outcome.skipped,
        prompt_tokens: outcome.usage.prompt_tokens,
        completion_tokens: outcome.usage.completion_tokens,
    }
}

/// One running batch: how many videos are still out and the rows collected so far.
pub struct BatchState {
    pub remaining: usize,
    pub root_dir: PathBuf,
    pub items: Vec<BatchSummaryItem>,
}

impl BatchState {
    /// A batch of `total` videos writing its summary into `root_dir`.
    pub fn new(root_dir: PathBuf, total: usize) -> (r: Self)
        ensures
            r.remaining == total,
            r.items@.len() == 0,
    {
        BatchState { remaining: total, root_dir, items: Vec::new() }
    }

    /// Records a finished video; returns whether it was the last one (the summary is then
    /// due). The remaining count never drops below zero.
    pub fn record(&mut self, outcome: &VideoOutcome) -> (finished: bool)
        ensures
            final(self).items@.len() == old(self).items@.len() + 1,
            forall|i: int|
                0 <= i < old(self).items@.len() ==> #[trigger] final(self).items@[i] == old(
                    self,
                ).items@[i],
            final(self).remaining == if old(self).remaining > 0 {
                old(self).remaining - 1
            } else {
                0
            },
            finished == (final(self).remaining == 0),
            is_summary_row(final(self).items@.last(), *outcome),
            final(self).root_dir == old(self).root_dir,
    {
        let item = summary_item(outcome);
        self.items.push(item);
        self.remaining = self.remaining.saturating_sub(1);
        self.remaining == 0
    }
}

/// The counts logged when a batch ends: finished (not skipped), failed, skipped.
pub open spec fn run_end_counts(items: Seq<BatchSummaryItem>) -> (nat, nat, nat)
    decreases items.len(),
{
    if items.len() == 0 {
        (0, 0, 0)
    } else {
        let prev = run_end_counts(items.drop_last());
        let it = items.last();
        (
            prev.0 + if it.status == VideoStatus::Done && !it.skipped {
                1nat
            } else {
                0nat
            },
            prev.1 + if it.status == VideoStatus::Failed {
                1nat
            } else {
                0nat
            },
            prev.2 + if it.skipped {
                1nat
            } else {
                0nat
            },
        )
    }
}

/// Counts the finished, failed and skipped rows of a batch.
pub fn batch_counts(items: &[BatchSummaryItem]) -> (r: (usize, usize, usize))
    ensures
        r.0 == run_end_counts(items@).0,
        r.1 == run_end_counts(items@).1,
        r.2 == run_end_counts(items@).2,
{
    let mut done: usize = 0;
    let mut failed: usize = 0;
    let mut skipped: usize = 0;
    let mut i: usize = 0;
    while i < items.len()
        invariant
            i <= items@.len(),
            done == run_end_counts(items@.take(i as int)).0,
            failed == run_end_counts(items@.take(i as int)).1,
            skipped == run_end_counts(items@.take(i as int)).2,
            done <= i,
            failed <= i,
            skipped <= i,
        decreases items@.len() - i,
    {
        let item = &items[i];
        assert(items@.take(i + 1).drop_last() =~= items@.take(i as int));
        if item.status == VideoStatus::Done && !item.skipped {
            done += 1;
        }
        if item.status == VideoStatus::Failed {
            failed += 1;
        }
        if item.skipped {
            skipped += 1;
        }
        i += 1;
    }
    assert(items@.take(items@.len() as int) =~= items@);
    (done, failed, skipped)
}

// ---------------------------------------------------------------------------
// Audio download
// ---------------------------------------------------------------------------

/// The failure text when the yt-dlp event stream closes before the process ended.
pub const DOWNLOAD_STREAM_ENDED: &'static str = "yt-dlp event stream ended";

/// The failure text when a clean download left no `audio.*` file.
pub const DOWNLOAD_PRODUCED_NOTHING: &'static str = "yt-dlp produced no audio file";

/// What the download loop does with one yt-dlp event.
#[derive(Debug)]
pub enum DownloadStep {
    /// Keep reading; an output line is logged in verbose mode.
    Continue(String),
    /// The process exited cleanly.
    Finished,
    /// The download failed with this message (`downloadFailed`).
    Failed(String),
}

/// Maps one yt-dlp event to the next step: output lines are passed on, a clean exit
/// finishes, any other exit or a reader error fails the download.
pub fn download_event(event: crate::process::ProcessEvent) -> (r: DownloadStep)
    ensures
        match event {
            crate::process::ProcessEvent::Stdout(bytes) => r is Continue && (
            vstd::utf8::valid_utf8(bytes@) ==> r->Continue_0@ == vstd::utf8::decode_utf8(bytes@)),
            crate::process::ProcessEvent::Stderr(bytes) => r is Continue && (
            vstd::utf8::valid_utf8(bytes@) ==> r->Continue_0@ == vstd::utf8::decode_utf8(bytes@)),
            crate::process::ProcessEvent::Terminated(payload) => if payload.code == Some(0i32) {
                r is Finished
            } else {
                r matches DownloadStep::Failed(m) && m@ == "yt-dlp exited with code "@
                    + crate::text::debug_exit(payload.code)
            },
            crate::process::ProcessEvent::Error(message) => r == DownloadStep::Failed(message),
        },
{
    match event {
        crate::process::ProcessEvent::Stdout(bytes) => DownloadStep::Continue(
            crate::process::lossy_text(bytes.as_slice()),
        ),
        crate::process::ProcessEvent::Stderr(bytes) => DownloadStep::Continue(
            crate::process::lossy_text(bytes.as_slice()),
        ),
        crate::process::ProcessEvent::Terminated(payload) => {
            let clean = match payload.code {
                Some(code) => code == 0,
                None => false,
            };
            if clean {
                DownloadStep::Finished
            } else {
                let mut m = String::new();
                push_str(&mut m, "yt-dlp exited with code ");
                crate::text::push_debug_exit(&mut m, payload.code);
                DownloadStep::Failed(m)
            }
        },
        crate::process::ProcessEvent::Error(message) => DownloadStep::Failed(message),
    }
}

} // verus!
