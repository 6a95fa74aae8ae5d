//! Artifact layout, directory naming, completeness and skip decisions for one video.
//!
//! Every deliverable is written `.tmp` → rename by the file-system layer, so a stored file
//! that exists is a finished one; this module decides what such files mean.
use crate::blocks::{item_ids, Block};
use crate::deepseek::Usage;
use crate::text::{
    ascii_lower, ascii_lower_seq, char_is_alphanumeric, char_is_control, from_chars, is_alphanumeric,
    is_control, join, lowercase_ascii, skip_back_while, to_chars, trim, trim_chars, trim_end_by,
    views,
};
use std::collections::BTreeMap;
use vstd::std_specs::iter::IteratorSpec;
use std::path::{Path, PathBuf};
use vstd::prelude::*;

verus! {

pub const WORK_DIR_NAME: &'static str = ".work";

pub const CHUNKS_DIR_NAME: &'static str = "chunks";

pub const AUDIO_STEM: &'static str = "audio";

pub const SEGMENTS_FILE_NAME: &'static str = "segments.json";

pub const ZH_BLOCKS_FILE_NAME: &'static str = "zh.blocks.json";

pub const EN_TRANSCRIPT_FILE_NAME: &'static str = "transcript.en.txt";

pub const ZH_TRANSCRIPT_FILE_NAME: &'static str = "transcript.zh.txt";

pub const SUMMARY_FILE_NAME: &'static str = "summary.md";

pub const SOURCE_FILE_NAME: &'static str = "source.json";

/// Longest directory name kept from a title (path limits, with room for `.work`).
pub const MAX_DIR_CHARS: usize = 120;

#[verifier::external_type_specification]
#[verifier::external_body]
pub struct ExPathBuf(PathBuf);

#[verifier::external_type_specification]
#[verifier::external_body]
pub struct ExPath(Path);

/// `PathBuf::clone` copies the path; nothing is stated of the copy.
pub assume_specification[ <PathBuf as Clone>::clone ](path: &PathBuf) -> PathBuf;

/// Calls `Path::join`. The joined path depends on the platform's separator rules, so
/// nothing is stated of it.
#[verifier::external_body]
pub(crate) fn join_path(base: &Path, name: &str) -> PathBuf {
    base.join(name)
}

/// Calls `PathBuf::as_path`.
#[verifier::external_body]
pub(crate) fn as_path(path: &PathBuf) -> &Path {
    path.as_path()
}

/// Where one video's artifacts live; the deliverable names are fixed.
#[derive(Debug, Clone, PartialEq, Eq)]
pub struct OutputPaths {
    pub dir: PathBuf,
    pub en: PathBuf,
    pub zh: PathBuf,
    pub work: PathBuf,
    pub chunks: PathBuf,
    pub segments: PathBuf,
    pub zh_blocks: PathBuf,
    /// The name `dir` was given below the output root, when the layout was built from a
    /// title by [`OutputPaths::new`].
    pub dir_name: Option<String>,
}

impl OutputPaths {
    /// The layout below `root` for a video titled `title` (see [`directory_name`]).
    pub fn new(root: &Path, title: &str, restrict_filenames: bool) -> (r: OutputPaths)
        ensures
            r.dir_name matches Some(n) && n@ == directory_name(title@, restrict_filenames),
    {
        let name = sanitize_directory_name(title, restrict_filenames);
        let mut paths = OutputPaths::for_dir(join_path(root, name.as_str()));
        paths.dir_name = Some(name);
        paths
    }

    /// The layout of a video directory: both transcripts in `dir`, the work files in
    /// `dir/.work`, the chunks in `dir/.work/chunks`.
    pub fn for_dir(dir: PathBuf) -> (r: OutputPaths)
        ensures
            r.dir == dir,
            r.dir_name is None,
    {
        let work = join_path(as_path(&dir), WORK_DIR_NAME);
        OutputPaths {
            en: join_path(as_path(&dir), EN_TRANSCRIPT_FILE_NAME),
            zh: join_path(as_path(&dir), ZH_TRANSCRIPT_FILE_NAME),
            chunks: join_path(as_path(&work), CHUNKS_DIR_NAME),
            segments: join_path(as_path(&work), SEGMENTS_FILE_NAME),
            zh_blocks: join_path(as_path(&work), ZH_BLOCKS_FILE_NAME),
            work,
            dir,
            dir_name: None,
        }
    }
}

// ---------------------------------------------------------------------------
// Directory names
// ---------------------------------------------------------------------------

/// Characters a directory name may not hold on the platforms the app supports.
pub open spec fn forbidden_char(c: char) -> bool {
    c == '<' || c == '>' || c == ':' || c == '"' || c == '/' || c == '\\' || c == '|' || c == '?'
        || c == '*'
}

/// Whether a title character is kept as it is; `restrict` narrows the set to Unicode
/// alphanumerics, `-` and `_`.
pub open spec fn kept_char(c: char, restrict: bool) -> bool {
    if restrict {
        char_is_alphanumeric(c) || c == '-' || c == '_'
    } else {
        !(char_is_control(c) || forbidden_char(c))
    }
}

/// Keeps the kept characters and replaces each run of other characters by one `_`; the
/// flag says whether the last step wrote such a fill.
pub open spec fn collapse(s: Seq<char>, restrict: bool) -> (Seq<char>, bool)
    decreases s.len(),
{
    if s.len() == 0 {
        (Seq::empty(), false)
    } else {
        let prev = collapse(s.drop_last(), restrict);
        let c = s.last();
        if kept_char(c, restrict) {
            (prev.0.push(c), false)
        } else if !prev.1 {
            (prev.0.push('_'), true)
        } else {
            prev
        }
    }
}

pub open spec fn dot_or_space() -> spec_fn(char) -> bool {
    |c: char| c == '.' || c == ' '
}

pub open spec fn dot_space_or_fill() -> spec_fn(char) -> bool {
    |c: char| c == '.' || c == ' ' || c == '_'
}

/// Names that some platforms refuse to create whatever their case: `CON`, `PRN`, `AUX`,
/// `NUL`, `COM1`–`COM9` and `LPT1`–`LPT9`.
pub open spec fn is_reserved_name(s: Seq<char>) -> bool {
    let l = ascii_lower_seq(s);
    (l.len() == 3 && (l =~= seq!['c', 'o', 'n'] || l =~= seq!['p', 'r', 'n'] || l =~= seq![
        'a',
        'u',
        'x',
    ] || l =~= seq!['n', 'u', 'l'])) || (l.len() == 4 && (l.take(3) =~= seq!['c', 'o', 'm']
        || l.take(3) =~= seq!['l', 'p', 't']) && '1' <= l[3] && l[3] <= '9')
}

/// The collapsed, trimmed name before the length cap.
pub open spec fn collapsed_name(title: Seq<char>, restrict: bool) -> Seq<char> {
    trim_end_by(collapse(trim(title), restrict).0, dot_or_space())
}

/// A name longer than the cap is cut to its first [`MAX_DIR_CHARS`] characters and loses
/// the dots, spaces and fills that then end it.
pub open spec fn capped_name(name: Seq<char>) -> Seq<char> {
    if name.len() > MAX_DIR_CHARS {
        trim_end_by(name.take(MAX_DIR_CHARS as int), dot_space_or_fill())
    } else {
        name
    }
}

/// The directory name for a title: the collapsed, trimmed and capped title, `untitled`
/// when nothing is left, and a leading `_` before a reserved name.
pub open spec fn directory_name(title: Seq<char>, restrict: bool) -> Seq<char> {
    let name = capped_name(collapsed_name(title, restrict));
    if name.len() == 0 {
        "untitled"@
    } else if is_reserved_name(name) {
        seq!['_'] + name
    } else {
        name
    }
}

fn forbidden(c: char) -> (r: bool)
    ensures
        r == forbidden_char(c),
{
    c == '<' || c == '>' || c == ':' || c == '"' || c == '/' || c == '\\' || c == '|' || c == '?'
        || c == '*'
}

fn keep(c: char, restrict: bool) -> (r: bool)
    ensures
        r == kept_char(c, restrict),
{
    if restrict {
        is_alphanumeric(c) || c == '-' || c == '_'
    } else {
        !(is_control(c) || forbidden(c))
    }
}

/// `v` without the trailing characters that are `.` or space (and `_` when `fill`).
fn trim_end_marks(v: &Vec<char>, fill: bool) -> (r: Vec<char>)
    ensures
        r@ == trim_end_by(
            v@,
            if fill {
                dot_space_or_fill()
            } else {
                dot_or_space()
            },
        ),
{
    let ghost p = if fill {
        dot_space_or_fill()
    } else {
        dot_or_space()
    };
    let mut j = v.len();
    while j > 0 && (v[j - 1] == '.' || v[j - 1] == ' ' || (fill && v[j - 1] == '_'))
        invariant
            j <= v@.len(),
            p == (if fill {
                dot_space_or_fill()
            } else {
                dot_or_space()
            }),
            skip_back_while(v@, 0, j as int, p) == skip_back_while(v@, 0, v@.len() as int, p),
        decreases j,
    {
        j -= 1;
    }
    crate::text::slice_chars(v, 0, j)
}

fn is_reserved(name: &Vec<char>) -> (r: bool)
    ensures
        r == is_reserved_name(name@),
{
    let l = lowercase_ascii(name);
    proof {
        assert(l@ == ascii_lower_seq(name@));
    }
    if l.len() == 3 {
        let (a, b, c) = (l[0], l[1], l[2]);
        let r = (a == 'c' && b == 'o' && c == 'n') || (a == 'p' && b == 'r' && c == 'n') || (a
            == 'a' && b == 'u' && c == 'x') || (a == 'n' && b == 'u' && c == 'l');
        proof {
            if r {
                if a == 'c' && b == 'o' && c == 'n' {
                    assert(l@ =~= seq!['c', 'o', 'n']);
                } else if a == 'p' && b == 'r' && c == 'n' {
                    assert(l@ =~= seq!['p', 'r', 'n']);
                } else if a == 'a' && b == 'u' && c == 'x' {
                    assert(l@ =~= seq!['a', 'u', 'x']);
                } else {
                    assert(l@ =~= seq!['n', 'u', 'l']);
                }
            }
        }
        r
    } else if l.len() == 4 {
        let (a, b, c, d) = (l[0], l[1], l[2], l[3]);
        let r = ((a == 'c' && b == 'o' && c == 'm') || (a == 'l' && b == 'p' && c == 't')) && '1'
            <= d && d <= '9';
        proof {
            if a == 'c' && b == 'o' && c == 'm' {
                assert(l@.take(3) =~= seq!['c', 'o', 'm']);
            }
            if a == 'l' && b == 'p' && c == 't' {
                assert(l@.take(3) =~= seq!['l', 'p', 't']);
            }
            if l@.take(3) =~= seq!['c', 'o', 'm'] {
                assert(l@.take(3)[0] == a);
            }
            if l@.take(3) =~= seq!['l', 'p', 't'] {
                assert(l@.take(3)[0] == a);
            }
        }
        r
    } else {
        false
    }
}

/// Builds a filesystem-safe directory name from a video title (see [`directory_name`]).
pub fn sanitize_directory_name(title: &str, restrict: bool) -> (r: String)
    ensures
        r@ == directory_name(title@, restrict),
{
    let chars = trim_chars(&to_chars(title));
    let mut name: Vec<char> = Vec::new();
    let mut last_was_fill = false;
    let mut i: usize = 0;
    while i < chars.len()
        invariant
            i <= chars@.len(),
            (name@, last_was_fill) == collapse(chars@.take(i as int), restrict),
        decreases chars@.len() - i,
    {
        let c = chars[i];
        assert(chars@.take(i + 1).drop_last() =~= chars@.take(i as int));
        if keep(c, restrict) {
            name.push(c);
            last_was_fill = false;
        } else if !last_was_fill {
            name.push('_');
            last_was_fill = true;
        }
        i += 1;
    }
    assert(chars@.take(chars@.len() as int) =~= chars@);
    let trimmed = trim_end_marks(&name, false);
    let capped = if trimmed.len() > MAX_DIR_CHARS {
        let head = crate::text::slice_chars(&trimmed, 0, MAX_DIR_CHARS);
        assert(head@ =~= trimmed@.take(MAX_DIR_CHARS as int));
        trim_end_marks(&head, true)
    } else {
        trimmed
    };
    if capped.len() == 0 {
        return String::from_str("untitled");
    }
    if is_reserved(&capped) {
        let mut out: Vec<char> = vec!['_'];
        let mut k: usize = 0;
        while k < capped.len()
            invariant
                k <= capped@.len(),
                out@ == seq!['_'] + capped@.take(k as int),
            decreases capped@.len() - k,
        {
            out.push(capped[k]);
            assert(seq!['_'] + capped@.take(k + 1) =~= (seq!['_'] + capped@.take(k as int)).push(
                capped@[k as int],
            ));
            k += 1;
        }
        assert(capped@.take(capped@.len() as int) =~= capped@);
        return from_chars(out.as_slice());
    }
    from_chars(capped.as_slice())
}

proof fn lemma_collapse_chars(s: Seq<char>, restrict: bool)
    ensures
        forall|i: int|
            0 <= i < collapse(s, restrict).0.len() ==> kept_char(
                #[trigger] collapse(s, restrict).0[i],
                restrict,
            ) || collapse(s, restrict).0[i] == '_',
    decreases s.len(),
{
    if s.len() > 0 {
        lemma_collapse_chars(s.drop_last(), restrict);
        let prev = collapse(s.drop_last(), restrict);
        let cur = collapse(s, restrict);
        assert forall|i: int| 0 <= i < cur.0.len() implies kept_char(#[trigger] cur.0[i], restrict)
            || cur.0[i] == '_' by {
            if i < prev.0.len() {
                assert(cur.0[i] == prev.0[i]);
            }
        }
    }
}

/// A directory name is never empty, never longer than [`MAX_DIR_CHARS`], never ends with
/// `.` or a space, and is not a reserved name. Without `restrict` it holds no control
/// character and none of `<>:"/\|?*`; with `restrict` every character is alphanumeric,
/// `-` or `_`, unless nothing of the title was left and the name is `untitled`.
pub proof fn law_directory_name_is_safe(title: Seq<char>, restrict: bool)
    ensures
        directory_name(title, restrict).len() > 0,
        directory_name(title, restrict).len() <= MAX_DIR_CHARS,
        directory_name(title, restrict).last() != '.',
        directory_name(title, restrict).last() != ' ',
        !is_reserved_name(directory_name(title, restrict)),
        !restrict ==> forall|i: int|
            0 <= i < directory_name(title, restrict).len() ==> !forbidden_char(
                #[trigger] directory_name(title, restrict)[i],
            ) && !char_is_control(directory_name(title, restrict)[i]),
        restrict && directory_name(title, restrict) != "untitled"@ ==> forall|i: int|
            0 <= i < directory_name(title, restrict).len() ==> kept_char(
                #[trigger] directory_name(title, restrict)[i],
                true,
            ),
{
    reveal_strlit("untitled");
    let c = collapse(trim(title), restrict).0;
    lemma_collapse_chars(trim(title), restrict);
    crate::text::lemma_skip_back_while_bounds(c, 0, c.len() as int, dot_or_space());
    let n = collapsed_name(title, restrict);
    assert forall|i: int| 0 <= i < n.len() implies kept_char(#[trigger] n[i], restrict) || n[i]
        == '_' by {
        assert(n[i] == c[i]);
    }
    if n.len() > 0 {
        assert(n.last() == c[n.len() - 1]);
    }
    let m = capped_name(n);
    if n.len() > MAX_DIR_CHARS {
        let h = n.take(MAX_DIR_CHARS as int);
        crate::text::lemma_skip_back_while_bounds(h, 0, h.len() as int, dot_space_or_fill());
        assert forall|i: int| 0 <= i < m.len() implies kept_char(#[trigger] m[i], restrict) || m[i]
            == '_' by {
            assert(m[i] == n[i]);
        }
        if m.len() > 0 {
            assert(m.last() == h[m.len() - 1]);
        }
    }
    assert(m.len() <= MAX_DIR_CHARS);
    let d = directory_name(title, restrict);
    if m.len() == 0 {
        assert(d =~= seq!['u', 'n', 't', 'i', 't', 'l', 'e', 'd']);
        assert(ascii_lower_seq(d).len() == 8);
    } else if is_reserved_name(m) {
        assert(ascii_lower_seq(m).len() == m.len());
        assert(d.last() == m.last());
        assert(ascii_lower_seq(d).len() == d.len());
        assert(d[0] == '_');
        assert(ascii_lower_seq(d)[0] == '_');
        if d.len() == 4 {
            assert(ascii_lower_seq(d).take(3)[0] == '_');
        }
    }
    assert forall|i: int| 0 <= i < d.len() implies kept_char(#[trigger] d[i], restrict) || d[i]
        == '_' || m.len() == 0 by {
        if m.len() == 0 {
        } else if is_reserved_name(m) {
            if i > 0 {
                assert(d[i] == m[i - 1]);
            }
        } else {
            assert(d[i] == m[i]);
        }
    }
    if !restrict {
        assert forall|i: int| 0 <= i < d.len() implies !forbidden_char(#[trigger] d[i])
            && !char_is_control(d[i]) by {
            if m.len() == 0 {
                assert('a' <= d[i] <= 'z') by {
                    assert(d[i] == seq!['u', 'n', 't', 'i', 't', 'l', 'e', 'd'][i]);
                }
            }
        }
    }
}

// ---------------------------------------------------------------------------
// Resume and skip decisions
// ---------------------------------------------------------------------------

/// What already exists on disk, used to decide resume/skip behaviour.
#[derive(Debug, Clone, Copy, Default, PartialEq, Eq)]
pub struct ArtifactState {
    pub en_exists: bool,
    pub zh_exists: bool,
    pub segments_complete: bool,
    pub blocks_complete: bool,
}

/// Which stages a run may leave out.
#[derive(Debug, Clone, Copy, Default, PartialEq, Eq)]
pub struct SkipPlan {
    /// Both transcripts exist and `overwrite=false`: do no work at all.
    pub skip_all: bool,
    /// Reuse `segments.json` instead of re-running whisper.
    pub skip_transcription: bool,
    /// Reuse `zh.blocks.json` instead of re-querying the model.
    pub skip_translation: bool,
}

/// Resume behaviour: `overwrite` reruns everything; a reused transcription lets the
/// translation be reused only when no new transcription could change the paragraphs.
pub open spec fn skip_plan(state: ArtifactState, overwrite: bool) -> SkipPlan {
    let skip_all = !overwrite && state.en_exists && state.zh_exists;
    let skip_transcription = skip_all || (!overwrite && state.segments_complete);
    let skip_translation = skip_transcription && (skip_all || (!overwrite
        && state.blocks_complete));
    SkipPlan { skip_all, skip_transcription, skip_translation }
}

/// Decides resume behaviour (see [`skip_plan`]).
pub fn plan_skips(state: ArtifactState, overwrite: bool) -> (r: SkipPlan)
    ensures
        r == skip_plan(state, overwrite),
{
    let skip_all = !overwrite && state.en_exists && state.zh_exists;
    let skip_transcription = skip_all || (!overwrite && state.segments_complete);
    let skip_translation = skip_transcription && (skip_all || (!overwrite
        && state.blocks_complete));
    SkipPlan { skip_all, skip_transcription, skip_translation }
}

/// `overwrite` reruns every stage; a stage is skipped only after the stages before it
/// are (a skipped translation implies a skipped transcription), and a translation is
/// never reused on top of a new transcription.
pub proof fn law_skips_are_monotone(state: ArtifactState, overwrite: bool)
    ensures
        overwrite ==> skip_plan(state, overwrite) == (SkipPlan {
            skip_all: false,
            skip_transcription: false,
            skip_translation: false,
        }),
        skip_plan(state, overwrite).skip_all ==> skip_plan(state, overwrite).skip_transcription,
        skip_plan(state, overwrite).skip_translation ==> skip_plan(
            state,
            overwrite,
        ).skip_transcription,
        !skip_plan(state, overwrite).skip_transcription ==> !skip_plan(
            state,
            overwrite,
        ).skip_translation,
        skip_plan(state, overwrite).skip_all <==> (!overwrite && state.en_exists
            && state.zh_exists),
{
}

/// URL → output-directory marker kept in `.work`, so a re-run can decide "already
/// exists" without any network request.
#[derive(Debug, Clone, PartialEq, Eq)]
pub struct SourceMarker {
    pub url: String,
    pub title: String,
}

// ---------------------------------------------------------------------------
// Stored block translations
// ---------------------------------------------------------------------------

/// One translated block as persisted in `zh.blocks.json`.
#[derive(Debug, Clone, PartialEq, Eq)]
pub struct BlockTranslation {
    pub ids: Vec<usize>,
    pub zh: Vec<String>,
    pub usage: Usage,
}

/// The stored entry of `b` translates exactly the planned ids, one text per id.
pub open spec fn stored_matches(m: Map<usize, BlockTranslation>, b: Block) -> bool {
    &&& m.contains_key(b.index)
    &&& m[b.index].ids@ == item_ids(b.items@)
    &&& m[b.index].zh@.len() == m[b.index].ids@.len()
}

/// A stored block is reusable when it matches and no text of it is blank.
pub open spec fn stored_complete(m: Map<usize, BlockTranslation>, b: Block) -> bool {
    &&& stored_matches(m, b)
    &&& forall|j: int|
        0 <= j < m[b.index].zh@.len() ==> trim(#[trigger] m[b.index].zh@[j]@).len() > 0
}

/// Every planned block has a reusable stored translation.
pub open spec fn blocks_complete(m: Map<usize, BlockTranslation>, plan: Seq<Block>) -> bool {
    forall|i: int| 0 <= i < plan.len() ==> stored_complete(m, #[trigger] plan[i])
}

/// Every planned block has a matching stored translation (texts may be blank).
pub open spec fn blocks_match(m: Map<usize, BlockTranslation>, plan: Seq<Block>) -> bool {
    forall|i: int| 0 <= i < plan.len() ==> stored_matches(m, #[trigger] plan[i])
}

/// The Chinese paragraphs of the planned blocks, in plan order.
pub open spec fn assembled(m: Map<usize, BlockTranslation>, plan: Seq<Block>) -> Seq<Seq<char>>
    decreases plan.len(),
{
    if plan.len() == 0 {
        Seq::empty()
    } else {
        assembled(m, plan.drop_last()) + views(m[plan.last().index].zh@)
    }
}

/// The number of paragraphs of the planned blocks.
pub open spec fn planned_paragraphs(plan: Seq<Block>) -> int
    decreases plan.len(),
{
    if plan.len() == 0 {
        0
    } else {
        planned_paragraphs(plan.drop_last()) + plan.last().items@.len()
    }
}

pub(crate) fn same_ids(a: &Vec<usize>, b: &Vec<usize>) -> (r: bool)
    ensures
        r == (a@ == b@),
{
    if a.len() != b.len() {
        return false;
    }
    let mut i: usize = 0;
    while i < a.len()
        invariant
            i <= a@.len(),
            a@.len() == b@.len(),
            forall|k: int| 0 <= k < i ==> a@[k] == b@[k],
        decreases a@.len() - i,
    {
        if a[i] != b[i] {
            return false;
        }
        i += 1;
    }
    assert(a@ =~= b@);
    true
}

/// Whether the stored entry for `block` matches it (see [`stored_matches`]), and the
/// entry when it does.
fn matching_entry<'a>(blocks: &'a BTreeMap<usize, BlockTranslation>, block: &Block) -> (r: Option<
    &'a BlockTranslation,
>)
    ensures
        r is Some <==> stored_matches(blocks@, *block),
        r matches Some(t) ==> *t == blocks@[block.index],
{
    match blocks.get(&block.index) {
        Some(stored) => {
            let ids = block.ids();
            if same_ids(&stored.ids, &ids) && stored.zh.len() == stored.ids.len() {
                Some(stored)
            } else {
                None
            }
        },
        None => None,
    }
}

/// A stored block set is reusable when every planned block has a matching entry whose
/// texts are all non-blank.
pub fn zh_blocks_complete(blocks: &BTreeMap<usize, BlockTranslation>, plan: &[Block]) -> (r: bool)
    ensures
        r == blocks_complete(blocks@, plan@),
{
    let mut i: usize = 0;
    while i < plan.len()
        invariant
            i <= plan@.len(),
            forall|k: int| 0 <= k < i ==> stored_complete(blocks@, #[trigger] plan@[k]),
        decreases plan@.len() - i,
    {
        let block = &plan[i];
        match matching_entry(blocks, block) {
            None => {
                return false;
            },
            Some(stored) => {
                let mut j: usize = 0;
                while j < stored.zh.len()
                    invariant
                        j <= stored.zh@.len(),
                        i < plan@.len(),
                        *stored == blocks@[plan@[i as int].index],
                        forall|k: int| 0 <= k < j ==> trim(#[trigger] stored.zh@[k]@).len() > 0,
                    decreases stored.zh@.len() - j,
                {
                    if crate::text::is_blank(stored.zh[j].as_str()) {
                        proof {
                            assert(!stored_complete(blocks@, plan@[i as int]));
                        }
                        return false;
                    }
                    j += 1;
                }
            },
        }
        i += 1;
    }
    true
}

/// Joins the stored block translations into the Chinese transcript: one paragraph per
/// planned paragraph, in plan order, separated by a blank line. `None` when a planned
/// block has no matching entry.
pub fn assemble_zh_transcript(plan: &[Block], blocks: &BTreeMap<usize, BlockTranslation>) -> (r:
    Option<String>)
    ensures
        r is Some <==> blocks_match(blocks@, plan@),
        r matches Some(s) ==> s@ == join(assembled(blocks@, plan@), "\n\n"@),
{
    let mut paragraphs: Vec<String> = Vec::new();
    let mut i: usize = 0;
    while i < plan.len()
        invariant
            i <= plan@.len(),
            forall|k: int| 0 <= k < i ==> stored_matches(blocks@, #[trigger] plan@[k]),
            views(paragraphs@) == assembled(blocks@, plan@.take(i as int)),
        decreases plan@.len() - i,
    {
        let block = &plan[i];
        match matching_entry(blocks, block) {
            None => {
                return None;
            },
            Some(stored) => {
                let ghost before = paragraphs@;
                let mut j: usize = 0;
                while j < stored.zh.len()
                    invariant
                        j <= stored.zh@.len(),
                        views(paragraphs@) == views(before) + views(stored.zh@.take(j as int)),
                    decreases stored.zh@.len() - j,
                {
                    let ghost prev = paragraphs@;
                    paragraphs.push(stored.zh[j].clone());
                    assert(paragraphs@ == prev.push(stored.zh@[j as int]));
                    assert(views(stored.zh@.take(j + 1)) =~= views(stored.zh@.take(j as int)).push(
                        stored.zh@[j as int]@,
                    ));
                    assert(views(paragraphs@) =~= views(prev).push(stored.zh@[j as int]@));
                    assert(views(paragraphs@) =~= views(before) + views(stored.zh@.take(j + 1)));
                    j += 1;
                }
                assert(stored.zh@.take(stored.zh@.len() as int) =~= stored.zh@);
                assert(plan@.take(i + 1).drop_last() =~= plan@.take(i as int));
            },
        }
        i += 1;
    }
    assert(plan@.take(plan@.len() as int) =~= plan@);
    Some(crate::text::join_strings(&paragraphs, "\n\n"))
}

proof fn lemma_assembled_len(m: Map<usize, BlockTranslation>, plan: Seq<Block>)
    requires
        blocks_match(m, plan),
    ensures
        assembled(m, plan).len() == planned_paragraphs(plan),
    decreases plan.len(),
{
    if plan.len() > 0 {
        assert(blocks_match(m, plan.drop_last())) by {
            assert forall|i: int| 0 <= i < plan.drop_last().len() implies stored_matches(
                m,
                #[trigger] plan.drop_last()[i],
            ) by {
                assert(plan.drop_last()[i] == plan[i]);
            }
        }
        lemma_assembled_len(m, plan.drop_last());
        assert(stored_matches(m, plan[plan.len() - 1]));
    }
}

/// The Chinese transcript keeps one paragraph per planned English paragraph: whenever it
/// can be assembled, it has exactly as many paragraphs as the plan.
pub proof fn law_assembly_is_one_to_one(m: Map<usize, BlockTranslation>, plan: Seq<Block>)
    requires
        blocks_match(m, plan),
    ensures
        assembled(m, plan).len() == planned_paragraphs(plan),
{
    lemma_assembled_len(m, plan);
}

proof fn lemma_planned_prefix(ps: Seq<Seq<char>>, mi: int, mc: int, plan: Seq<Block>, k: int)
    requires
        crate::blocks::greedy_plan(ps, mi, mc, plan),
        1 <= k <= plan.len(),
    ensures
        planned_paragraphs(plan.take(k)) == plan[k - 1].paragraph_range.end,
    decreases k,
{
    let t = plan.take(k);
    assert(t.drop_last() =~= plan.take(k - 1));
    assert(t.last() == plan[k - 1]);
    assert(crate::blocks::block_covers(ps, plan[k - 1], k - 1));
    let b = plan[k - 1];
    assert(b.items@.len() == b.paragraph_range.end - b.paragraph_range.start);
    assert(planned_paragraphs(t) == planned_paragraphs(plan.take(k - 1)) + b.items@.len());
    if k > 1 {
        lemma_planned_prefix(ps, mi, mc, plan, k - 1);
        assert(plan[k - 2].paragraph_range.end == plan[k - 1].paragraph_range.start);
    } else {
        assert(plan.take(0) =~= Seq::<Block>::empty());
        assert(planned_paragraphs(plan.take(0)) == 0);
        assert(plan[0].paragraph_range.start == 0);
    }
}

/// The Chinese transcript has exactly as many paragraphs as the English one: a greedy
/// block plan of the English paragraphs, once every block has a matching stored
/// translation, assembles into one Chinese paragraph per English paragraph.
pub proof fn law_chinese_paragraphs_match_english(
    ps: Seq<Seq<char>>,
    mi: int,
    mc: int,
    plan: Seq<Block>,
    m: Map<usize, BlockTranslation>,
)
    requires
        crate::blocks::greedy_plan(ps, mi, mc, plan),
        blocks_match(m, plan),
    ensures
        assembled(m, plan).len() == ps.len(),
{
    lemma_assembled_len(m, plan);
    if plan.len() > 0 {
        lemma_planned_prefix(ps, mi, mc, plan, plan.len() as int);
        assert(plan.take(plan.len() as int) =~= plan);
    }
}

/// Every reusable block set can be assembled.
pub proof fn law_complete_blocks_assemble(m: Map<usize, BlockTranslation>, plan: Seq<Block>)
    requires
        blocks_complete(m, plan),
    ensures
        blocks_match(m, plan),
{
    assert forall|i: int| 0 <= i < plan.len() implies stored_matches(m, #[trigger] plan[i]) by {
        assert(stored_complete(m, plan[i]));
    }
}

/// The tokens of the stored block with key `k` (zero when there is none); `prompt`
/// selects prompt or completion tokens.
pub open spec fn tokens_at(m: Map<usize, BlockTranslation>, k: int, prompt: bool) -> int {
    if 0 <= k <= usize::MAX && m.contains_key(k as usize) {
        if prompt {
            m[k as usize].usage.prompt_tokens as int
        } else {
            m[k as usize].usage.completion_tokens as int
        }
    } else {
        0
    }
}

/// The tokens of all stored blocks whose key is below `n`.
pub open spec fn tokens_below(m: Map<usize, BlockTranslation>, n: nat, prompt: bool) -> int
    decreases n,
{
    if n == 0 {
        0
    } else {
        tokens_below(m, (n - 1) as nat, prompt) + tokens_at(m, n - 1, prompt)
    }
}

/// The tokens of all stored blocks.
pub open spec fn total_tokens(m: Map<usize, BlockTranslation>, prompt: bool) -> int {
    tokens_below(m, usize::MAX as nat + 1, prompt)
}

proof fn lemma_tokens_below_skip(m: Map<usize, BlockTranslation>, a: nat, b: nat, prompt: bool)
    requires
        a <= b,
        forall|k: usize| a <= k < b ==> !m.contains_key(k),
    ensures
        tokens_below(m, b, prompt) == tokens_below(m, a, prompt),
    decreases b - a,
{
    if a < b {
        lemma_tokens_below_skip(m, a, (b - 1) as nat, prompt);
        if b - 1 <= usize::MAX {
            assert(!m.contains_key((b - 1) as usize));
        }
    }
}

proof fn lemma_tokens_nonneg(m: Map<usize, BlockTranslation>, a: nat, b: nat, prompt: bool)
    requires
        a <= b,
    ensures
        0 <= tokens_below(m, a, prompt) <= tokens_below(m, b, prompt),
    decreases b,
{
    if a < b {
        lemma_tokens_nonneg(m, a, (b - 1) as nat, prompt);
    } else if b > 0 {
        lemma_tokens_nonneg(m, 0, (b - 1) as nat, prompt);
    }
}

pub open spec fn pair_keys(pairs: Seq<(&usize, &BlockTranslation)>) -> Seq<usize> {
    pairs.map_values(|kv: (&usize, &BlockTranslation)| *kv.0)
}

proof fn lemma_keys_increase(pairs: Seq<(&usize, &BlockTranslation)>, i: int, j: int)
    requires
        vstd::std_specs::btree::increasing_seq(pair_keys(pairs)),
        0 <= i < j < pairs.len(),
    ensures
        *pairs[i].0 < *pairs[j].0,
{
    let ks = pair_keys(pairs);
    vstd::std_specs::btree::axiom_increasing_seq_meaning::<usize>(ks);
    assert(vstd::std_specs::cmp::OrdSpec::cmp_spec(&ks[i], &ks[j]) is Less);
    assert(ks[i] == *pairs[i].0);
    assert(ks[j] == *pairs[j].0);
}

/// The token usage of all stored blocks, summed; the sums must fit in 64 bits.
pub fn total_usage(blocks: &BTreeMap<usize, BlockTranslation>) -> (r: Usage)
    requires
        total_tokens(blocks@, true) <= u64::MAX,
        total_tokens(blocks@, false) <= u64::MAX,
    ensures
        r.prompt_tokens == total_tokens(blocks@, true),
        r.completion_tokens == total_tokens(blocks@, false),
{
    let ghost m = blocks@;
    let mut prompt: u64 = 0;
    let mut completion: u64 = 0;
    let ghost mut bound: nat = 0;
    let iter = blocks.iter();
    let ghost pairs = iter.remaining();
    assert(vstd::std_specs::btree::increasing_seq(pair_keys(pairs)));
    for kv in it: iter
        invariant
            m == blocks@,
            pairs == it.seq(),
            vstd::std_specs::btree::increasing_seq(pair_keys(pairs)),
            forall|i: int| 0 <= i < pairs.len() ==> m.contains_key(*pairs[i].0) && m[*pairs[i].0] == *pairs[i].1,
            forall|k: usize| #[trigger] m.contains_key(k) ==> pairs.contains((&k, &m[k])),
            bound == (if it.index() == 0 { 0 } else { *pairs[it.index() - 1].0 as nat + 1 }),
            forall|i: int| it.index() <= i < pairs.len() ==> bound <= *pairs[i].0,
            prompt == tokens_below(m, bound, true),
            completion == tokens_below(m, bound, false),
            total_tokens(m, true) <= u64::MAX,
            total_tokens(m, false) <= u64::MAX,
    {
        let (k, v) = kv;
        proof {
            let i = it.index();
            assert(forall|j: usize| bound <= j < *k ==> !m.contains_key(j)) by {
                assert forall|j: usize| bound <= j < *k implies !m.contains_key(j) by {
                    if m.contains_key(j) {
                        assert(pairs.contains((&j, &m[j])));
                        let w = choose|w: int| 0 <= w < pairs.len() && pairs[w] == (&j, &m[j]);
                        if w < i - 1 {
                            lemma_keys_increase(pairs, w, i - 1);
                        } else if w > i {
                            lemma_keys_increase(pairs, i, w);
                        }
                    }
                }
            }
            lemma_tokens_below_skip(m, bound, *k as nat, true);
            lemma_tokens_below_skip(m, bound, *k as nat, false);
            lemma_tokens_nonneg(m, *k as nat + 1, usize::MAX as nat + 1, true);
            lemma_tokens_nonneg(m, *k as nat + 1, usize::MAX as nat + 1, false);
        }
        prompt = prompt + v.usage.prompt_tokens;
        completion = completion + v.usage.completion_tokens;
        proof {
            let idx = it.index();
            assert(*pairs[idx].0 == *k);
            assert forall|i: int| idx + 1 <= i < pairs.len() implies *k as nat + 1 <= *pairs[i].0 by {
                lemma_keys_increase(pairs, idx, i);
            }
            bound = *k as nat + 1;
        }
    }
    proof {
        assert(forall|j: usize| bound <= j ==> !m.contains_key(j)) by {
            assert forall|j: usize| bound <= j implies !m.contains_key(j) by {
                if m.contains_key(j) {
                    assert(pairs.contains((&j, &m[j])));
                    let w = choose|w: int| 0 <= w < pairs.len() && pairs[w] == (&j, &m[j]);
                    if w < pairs.len() - 1 {
                        lemma_keys_increase(pairs, w, pairs.len() - 1);
                    }
                }
            }
        }
        lemma_tokens_below_skip(m, bound, usize::MAX as nat + 1, true);
        lemma_tokens_below_skip(m, bound, usize::MAX as nat + 1, false);
    }
    Usage { prompt_tokens: prompt, completion_tokens: completion }
}

} // verus!
