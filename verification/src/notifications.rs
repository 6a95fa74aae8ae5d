//! Notification kinds, their locale keys, and whether one is delivered.
use crate::text::push_str;
use vstd::prelude::*;

verus! {

/// What a notification is about.
#[derive(Debug, Clone, Copy, PartialEq, Eq, Structural)]
pub enum NotificationKind {
    QueueAdded,
    QueueDownloading,
    QueueFinished,
    VideoFinished,
    PlaylistFinished,
    VideoReady,
    PlaylistReady,
    DownloadFailed,
    BatchFinished,
}

pub open spec fn kind_name(kind: NotificationKind) -> Seq<char> {
    match kind {
        NotificationKind::QueueAdded => "queueAdded"@,
        NotificationKind::QueueDownloading => "queueDownloading"@,
        NotificationKind::QueueFinished => "queueFinished"@,
        NotificationKind::VideoFinished => "videoFinished"@,
        NotificationKind::PlaylistFinished => "playlistFinished"@,
        NotificationKind::VideoReady => "videoReady"@,
        NotificationKind::PlaylistReady => "playlistReady"@,
        NotificationKind::DownloadFailed => "downloadFailed"@,
        NotificationKind::BatchFinished => "batchFinished"@,
    }
}

impl NotificationKind {
    /// The kind's name in locale keys and settings.
    pub fn kind_str(&self) -> (r: &'static str)
        ensures
            r@ == kind_name(*self),
    {
        match self {
            NotificationKind::QueueAdded => "queueAdded",
            NotificationKind::QueueDownloading => "queueDownloading",
            NotificationKind::QueueFinished => "queueFinished",
            NotificationKind::VideoFinished => "videoFinished",
            NotificationKind::PlaylistFinished => "playlistFinished",
            NotificationKind::VideoReady => "videoReady",
            NotificationKind::PlaylistReady => "playlistReady",
            NotificationKind::DownloadFailed => "downloadFailed",
            NotificationKind::BatchFinished => "batchFinished",
        }
    }

    /// `notifications.<kind>.title`.
    pub fn title_key(&self) -> (r: String)
        ensures
            r@ == "notifications."@ + kind_name(*self) + ".title"@,
    {
        let mut key = String::new();
        push_str(&mut key, "notifications.");
        push_str(&mut key, self.kind_str());
        push_str(&mut key, ".title");
        key
    }

    /// `notifications.<kind>.body`.
    pub fn body_key(&self) -> (r: String)
        ensures
            r@ == "notifications."@ + kind_name(*self) + ".body"@,
    {
        let mut key = String::new();
        push_str(&mut key, "notifications.");
        push_str(&mut key, self.kind_str());
        push_str(&mut key, ".body");
        key
    }
}

/// When notifications are shown.
#[derive(Debug, Clone, Copy, PartialEq, Eq, Structural)]
pub enum NotificationBehavior {
    Always,
    Never,
    /// Only while the main window is neither visible nor focused (or when forced).
    OnBackground,
}

/// Whether a notification of `kind` is shown: never when the kind is disabled or the
/// behaviour is `Never`; with `OnBackground`, not while the main window is shown
/// (`window_shown` is `None` when there is no main window) unless `force`.
pub open spec fn delivers(
    disabled: Seq<NotificationKind>,
    behavior: NotificationBehavior,
    kind: NotificationKind,
    window_shown: Option<bool>,
    force: bool,
) -> bool {
    if disabled.contains(kind) {
        false
    } else {
        match behavior {
            NotificationBehavior::Always => true,
            NotificationBehavior::Never => false,
            NotificationBehavior::OnBackground => !(window_shown == Some(true) && !force),
        }
    }
}

/// Decides whether a notification is shown (see [`delivers`]).
pub fn should_notify(
    disabled: &[NotificationKind],
    behavior: NotificationBehavior,
    kind: NotificationKind,
    window_shown: Option<bool>,
    force: bool,
) -> (r: bool)
    ensures
        r == delivers(disabled@, behavior, kind, window_shown, force),
{
    let mut i: usize = 0;
    while i < disabled.len()
        invariant
            i <= disabled@.len(),
            forall|k: int| 0 <= k < i ==> disabled@[k] != kind,
        decreases disabled@.len() - i,
    {
        if disabled[i] == kind {
            assert(disabled@[i as int] == kind);
            return false;
        }
        i += 1;
    }
    match behavior {
        NotificationBehavior::Always => true,
        NotificationBehavior::Never => false,
        NotificationBehavior::OnBackground => {
            let shown = match window_shown {
                Some(v) => v,
                None => false,
            };
            !(shown && !force)
        },
    }
}

} // verus!
