//! Small helpers shared by the argv builders of yt-dlp, whisper and ffmpeg.
use crate::text::views;
use std::path::Path;
use vstd::prelude::*;

verus! {

/// Calls `Path::to_string_lossy` and copies the text. How a path is rendered depends on
/// the platform, so nothing is stated of the text.
#[verifier::external_body]
pub(crate) fn path_text(path: &Path) -> String {
    path.to_string_lossy().into_owned()
}

/// Appends an owned copy of `s` to `args`.
pub fn push_arg(args: &mut Vec<String>, s: &str)
    ensures
        final(args)@.len() == old(args)@.len() + 1,
        forall|i: int| 0 <= i < old(args)@.len() ==> #[trigger] final(args)@[i] == old(args)@[i],
        final(args)@[old(args)@.len() as int]@ == s@,
        views(final(args)@) == views(old(args)@).push(s@),
{
    let ghost before = args@;
    args.push(s.to_string());
    assert(views(args@) =~= views(before).push(s@));
}

} // verus!
