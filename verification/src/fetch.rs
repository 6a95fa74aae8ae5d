//! Metadata fetch requests: how a request expands into one entry per video, and when a
//! playlist group is finished.
use crate::ytdlp::DownloadOverrides;
use vstd::prelude::*;

verus! {

/// One video of an expanded playlist.
#[derive(Debug, Clone, PartialEq, Eq)]
pub struct PlaylistEntry {
    pub video_url: String,
}

/// A request to the fetch dispatcher.
#[derive(Clone)]
pub enum FetchRequest {
    Initial { group_id: String, id: String, url: String, overrides: Box<Option<DownloadOverrides>> },
    Playlist {
        group_id: String,
        entries: Vec<PlaylistEntry>,
        overrides: Box<Option<DownloadOverrides>>,
    },
}

/// One metadata fetch; `total` is the size of its group.
#[derive(Clone)]
pub struct FetchEntry {
    pub group_id: String,
    pub id: String,
    pub url: String,
    pub total: usize,
    pub overrides: Option<DownloadOverrides>,
}

/// Calls `uuid::Uuid::new_v4().to_string()`: a fresh random id; nothing is stated of it.
#[verifier::external_body]
pub(crate) fn fresh_id() -> String {
    uuid::Uuid::new_v4().to_string()
}

fn copy_overrides(overrides: &Option<DownloadOverrides>) -> (r: Option<DownloadOverrides>)
    ensures
        r == *overrides,
{
    match overrides {
        Some(d) => Some(d.clone()),
        None => None,
    }
}

/// Expands a request into its fetches: a single link is one entry of a group of one; a
/// playlist gives one entry per video, in order, each with a fresh id and the group's
/// size.
pub fn expand_fetch_request(req: FetchRequest) -> (r: Vec<FetchEntry>)
    ensures
        match req {
            FetchRequest::Initial { group_id, id, url, overrides } => {
                &&& r@.len() == 1
                &&& r@[0].group_id == group_id
                &&& r@[0].id == id
                &&& r@[0].url == url
                &&& r@[0].total == 1
                &&& r@[0].overrides == *overrides
            },
            FetchRequest::Playlist { group_id, entries, overrides } => {
                &&& r@.len() == entries@.len()
                &&& forall|i: int|
                    0 <= i < r@.len() ==> (#[trigger] r@[i]).group_id == group_id && r@[i].url
                        == entries@[i].video_url && r@[i].total == entries@.len()
                        && r@[i].overrides == *overrides
            },
        },
{
    match req {
        FetchRequest::Initial { group_id, id, url, overrides } => {
            let mut out: Vec<FetchEntry> = Vec::new();
            out.push(FetchEntry { group_id, id, url, total: 1, overrides: *overrides });
            out
        },
        FetchRequest::Playlist { group_id, entries, overrides } => {
            let total = entries.len();
            let mut out: Vec<FetchEntry> = Vec::new();
            let mut i: usize = 0;
            while i < entries.len()
                invariant
                    i <= entries@.len(),
                    total == entries@.len(),
                    out@.len() == i,
                    forall|k: int|
                        0 <= k < i ==> (#[trigger] out@[k]).group_id == group_id && out@[k].url
                            == entries@[k].video_url && out@[k].total == total && out@[k].overrides
                            == *overrides,
                decreases entries@.len() - i,
            {
                out.push(
                    FetchEntry {
                        group_id: group_id.clone(),
                        id: fresh_id(),
                        url: entries[i].video_url.clone(),
                        total,
                        overrides: copy_overrides(&*overrides),
                    },
                );
                i += 1;
            }
            out
        },
    }
}

/// A playlist group's count of fetches still out, after one of them reported a video or
/// an unsupported livestream; the group is cleaned up when it reaches zero.
pub fn settle_group(remaining: usize) -> (r: (usize, bool))
    requires
        remaining > 0,
    ensures
        r.0 == remaining - 1,
        r.1 == (remaining == 1),
{
    let left = remaining - 1;
    (left, left == 0)
}

/// What a metadata fetch found for one entry.
#[derive(Debug, Clone, Copy, PartialEq, Eq)]
pub enum FetchResult {
    /// One video.
    Single,
    /// A playlist of `entries` videos.
    Playlist { entries: usize },
    /// A livestream, which is not supported.
    Livestream,
    /// The fetch failed; its events were already sent.
    Nothing,
}

/// What the fetch dispatcher does with one result.
#[derive(Debug, Clone, Copy, PartialEq, Eq)]
pub struct FetchStep {
    /// Send `media_add` with this group size.
    pub add_total: Option<usize>,
    /// Send `media_fatal` for an unsupported livestream.
    pub fatal: bool,
    /// Count the entry as settled in its playlist group (see [`settle_group`]).
    pub settle: bool,
}

/// The reaction to a fetch result: a video is added with the entry's group size and
/// settles it; a playlist is added with its own size (its videos are fetched next); a
/// livestream is refused and settles the entry; a failed fetch does nothing more.
pub fn fetch_step(result: FetchResult, total: usize) -> (r: FetchStep)
    ensures
        r == match result {
            FetchResult::Single => FetchStep { add_total: Some(total), fatal: false, settle: true },
            FetchResult::Playlist { entries } => FetchStep {
                add_total: Some(entries),
                fatal: false,
                settle: false,
            },
            FetchResult::Livestream => FetchStep { add_total: None, fatal: true, settle: true },
            FetchResult::Nothing => FetchStep { add_total: None, fatal: false, settle: false },
        },
{
    match result {
        FetchResult::Single => FetchStep { add_total: Some(total), fatal: false, settle: true },
        FetchResult::Playlist { entries } => FetchStep {
            add_total: Some(entries),
            fatal: false,
            settle: false,
        },
        FetchResult::Livestream => FetchStep { add_total: None, fatal: true, settle: true },
        FetchResult::Nothing => FetchStep { add_total: None, fatal: false, settle: false },
    }
}

} // verus!
