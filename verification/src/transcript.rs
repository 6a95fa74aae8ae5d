//! Mechanical English transcript formatting: it only decides where blank lines go and
//! never rewrites, drops or reorders a word.
//!
//! Whitespace-only segments carry no transcript and are skipped, so a silence is measured
//! from the last segment that carries speech; whether a silence exceeds the paragraph gap
//! is decided from the segment timestamps before the texts reach this module.
use crate::text::{from_chars, join, join_strings, to_chars, trim, trim_chars, views};
use crate::ytdlp::trimmed_lines;
use vstd::prelude::*;

verus! {

/// A paragraph closes once its rendered length reaches this many characters.
pub const PARAGRAPH_MAX_CHARS: usize = 700;

/// A paragraph closes once this many of its segments end with sentence punctuation.
pub const PARAGRAPH_SENTENCE_LIMIT: usize = 3;

/// One segment that carries speech.
#[derive(Debug, Clone, PartialEq, Eq)]
pub struct SpeechSegment {
    /// The trimmed, non-empty text.
    pub text: String,
    /// The silence since the previous speech segment exceeds the paragraph gap.
    pub long_gap: bool,
}

/// The indices of the segments whose text is not blank, in order.
pub open spec fn speech_indices(texts: Seq<Seq<char>>) -> Seq<int>
    decreases texts.len(),
{
    if texts.len() == 0 {
        Seq::empty()
    } else if trim(texts.last()).len() > 0 {
        speech_indices(texts.drop_last()).push(texts.len() - 1)
    } else {
        speech_indices(texts.drop_last())
    }
}

/// The indices and trimmed texts of the segments that carry speech.
pub fn speech_texts(texts: &[String]) -> (r: (Vec<usize>, Vec<String>))
    ensures
        r.0@.len() == speech_indices(views(texts@)).len(),
        forall|k: int| 0 <= k < r.0@.len() ==> r.0@[k] == #[trigger] speech_indices(views(texts@))[k],
        views(r.1@) == trimmed_lines(views(texts@)),
{
    let mut idx: Vec<usize> = Vec::new();
    let mut out: Vec<String> = Vec::new();
    let ghost all = views(texts@);
    let mut i: usize = 0;
    while i < texts.len()
        invariant
            i <= texts@.len(),
            all == views(texts@),
            idx@.len() == speech_indices(all.take(i as int)).len(),
            forall|k: int| 0 <= k < idx@.len() ==> idx@[k] == #[trigger] speech_indices(all.take(i as int))[k],
            views(out@) == trimmed_lines(all.take(i as int)),
        decreases texts@.len() - i,
    {
        let t = trim_chars(&to_chars(texts[i].as_str()));
        let ghost before = all.take(i as int);
        assert(all.take(i + 1).drop_last() =~= before);
        assert(all.take(i + 1).last() == texts@[i as int]@);
        if t.len() > 0 {
            let ghost old_idx = idx@;
            let ghost old_out = out@;
            idx.push(i);
            out.push(from_chars(t.as_slice()));
            assert(views(out@) =~= views(old_out).push(t@));
            assert forall|k: int| 0 <= k < idx@.len() implies idx@[k] == #[trigger] speech_indices(
                all.take(i + 1),
            )[k] by {
                if k < old_idx.len() {
                    assert(idx@[k] == old_idx[k]);
                }
            }
        }
        i += 1;
    }
    assert(all.take(texts@.len() as int) =~= all);
    (idx, out)
}

/// A segment ends a sentence when its last character is `.`, `!`, `?` or `…` (so `...`
/// and decimals inside a segment do not count).
pub open spec fn ends_sentence(t: Seq<char>) -> bool {
    t.len() > 0 && (t.last() == '.' || t.last() == '!' || t.last() == '?' || t.last() == '…')
}

/// The paragraphing state after some segments: finished paragraphs, the segments of the
/// open paragraph, its rendered length, its sentence ends, and whether its last segment
/// ends a sentence.
pub type Paragraphing = (Seq<Seq<char>>, Seq<Seq<char>>, nat, nat, bool);

/// A new paragraph starts before a segment when the silence before it is long, the open
/// paragraph reached the character cap, or it holds three sentence ends and its last
/// segment ends one.
pub open spec fn breaks_before(st: Paragraphing, long_gap: bool) -> bool {
    long_gap || st.2 >= PARAGRAPH_MAX_CHARS || (st.3 >= PARAGRAPH_SENTENCE_LIMIT && st.4)
}

pub open spec fn step(st: Paragraphing, text: Seq<char>, long_gap: bool) -> Paragraphing {
    let st1: Paragraphing = if breaks_before(st, long_gap) && st.1.len() > 0 {
        (st.0.push(join(st.1, " "@)), Seq::empty(), 0, 0, st.4)
    } else {
        st
    };
    let e = ends_sentence(text);
    (
        st1.0,
        st1.1.push(text),
        st1.2 + (if st1.1.len() > 0 {
            1nat
        } else {
            0nat
        }) + text.len(),
        st1.3 + (if e {
            1nat
        } else {
            0nat
        }),
        e,
    )
}

pub open spec fn walk(segs: Seq<SpeechSegment>) -> Paragraphing
    decreases segs.len(),
{
    if segs.len() == 0 {
        (Seq::empty(), Seq::empty(), 0, 0, false)
    } else {
        step(walk(segs.drop_last()), segs.last().text@, segs.last().long_gap)
    }
}

/// The paragraphs of a transcript: each is its segments joined with single spaces.
pub open spec fn paragraphs_of(segs: Seq<SpeechSegment>) -> Seq<Seq<char>> {
    let st = walk(segs);
    if st.1.len() > 0 {
        st.0.push(join(st.1, " "@))
    } else {
        st.0
    }
}

/// The texts of speech segments.
pub open spec fn seg_texts(segs: Seq<SpeechSegment>) -> Seq<Seq<char>> {
    segs.map_values(|s: SpeechSegment| s.text@)
}

/// The mechanical paragraphing result; `text` is `paragraphs` joined with a blank line.
#[derive(Debug, Clone, PartialEq, Eq)]
pub struct EnglishTranscript {
    pub paragraphs: Vec<String>,
    /// The deliverable text, without a trailing newline.
    pub text: String,
}

impl EnglishTranscript {
    pub fn paragraph_count(&self) -> (r: usize)
        ensures
            r == self.paragraphs@.len(),
    {
        self.paragraphs.len()
    }

    /// Unicode scalar count of the deliverable text.
    pub fn char_count(&self) -> (r: usize)
        ensures
            r == self.text@.len(),
    {
        self.text.as_str().unicode_len()
    }
}

/// Formats speech segments into paragraphs without touching a word (see
/// [`paragraphs_of`]). Each text must be shorter than the address space by a margin.
pub fn format_paragraphs(segs: &[SpeechSegment]) -> (r: EnglishTranscript)
    requires
        forall|i: int| 0 <= i < segs@.len() ==> (#[trigger] segs@[i]).text@.len() < usize::MAX / 2,
    ensures
        views(r.paragraphs@) == paragraphs_of(segs@),
        r.text@ == join(paragraphs_of(segs@), "\n\n"@),
{
    let mut paragraphs: Vec<String> = Vec::new();
    let mut current: Vec<String> = Vec::new();
    let mut chars: usize = 0;
    let mut ends: usize = 0;
    let mut last_ends = false;
    let mut i: usize = 0;
    while i < segs.len()
        invariant
            i <= segs@.len(),
            forall|k: int| 0 <= k < segs@.len() ==> (#[trigger] segs@[k]).text@.len() < usize::MAX / 2,
            walk(segs@.take(i as int)) == (views(paragraphs@), views(current@), chars as nat, ends as nat, last_ends),
            chars < PARAGRAPH_MAX_CHARS || (current@.len() > 0 && chars <= PARAGRAPH_MAX_CHARS + usize::MAX / 2),
            ends <= i,
        decreases segs@.len() - i,
    {
        let seg = &segs[i];
        let ghost st = walk(segs@.take(i as int));
        assert(segs@.take(i + 1).drop_last() =~= segs@.take(i as int));
        assert(segs@.take(i + 1).last() == *seg);
        let breaks = seg.long_gap || chars >= PARAGRAPH_MAX_CHARS || (ends >= PARAGRAPH_SENTENCE_LIMIT
            && last_ends);
        if breaks && current.len() > 0 {
            let joined = join_strings(&current, " ");
            let ghost old_paragraphs = paragraphs@;
            paragraphs.push(joined);
            assert(views(paragraphs@) =~= views(old_paragraphs).push(join(views(current@), " "@)));
            current = Vec::new();
            assert(views(current@) =~= Seq::<Seq<char>>::empty());
            chars = 0;
            ends = 0;
        }
        if current.len() > 0 {
            chars = chars + 1;
        }
        let len = seg.text.as_str().unicode_len();
        chars = chars + len;
        let t = to_chars(seg.text.as_str());
        let e = t.len() > 0 && (t[t.len() - 1] == '.' || t[t.len() - 1] == '!' || t[t.len() - 1] == '?'
            || t[t.len() - 1] == '…');
        if e {
            ends = ends + 1;
        }
        last_ends = e;
        let ghost old_current = current@;
        current.push(seg.text.clone());
        assert(views(current@) =~= views(old_current).push(seg.text@));
        i += 1;
    }
    assert(segs@.take(segs@.len() as int) =~= segs@);
    if current.len() > 0 {
        let joined = join_strings(&current, " ");
        let ghost old_paragraphs = paragraphs@;
        paragraphs.push(joined);
        assert(views(paragraphs@) =~= views(old_paragraphs).push(join(views(current@), " "@)));
    }
    let text = join_strings(&paragraphs, "\n\n");
    EnglishTranscript { paragraphs, text }
}

proof fn lemma_join_push(s: Seq<Seq<char>>, x: Seq<char>, sep: Seq<char>)
    ensures
        s.len() > 0 ==> join(s.push(x), sep) == join(s, sep) + sep + x,
        s.len() == 0 ==> join(s.push(x), sep) == x,
{
    assert(s.push(x).drop_last() =~= s);
    if s.len() == 0 {
        assert(s.push(x).len() == 1);
        assert(s.push(x)[0] == x);
    }
}

proof fn lemma_walk_keeps_words(segs: Seq<SpeechSegment>)
    ensures
        segs.len() > 0 ==> walk(segs).1.len() > 0 && join(
            walk(segs).0.push(join(walk(segs).1, " "@)),
            " "@,
        ) == join(seg_texts(segs), " "@),
        segs.len() == 0 ==> walk(segs).0.len() == 0 && walk(segs).1.len() == 0,
    decreases segs.len(),
{
    if segs.len() > 0 {
        let sep = " "@;
        let prev = walk(segs.drop_last());
        let t = segs.last().text@;
        lemma_walk_keeps_words(segs.drop_last());
        assert(seg_texts(segs) =~= seg_texts(segs.drop_last()).push(t));
        lemma_join_push(seg_texts(segs.drop_last()), t, sep);
        let cur = walk(segs);
        if prev.1.len() == 0 {
            assert(segs.drop_last().len() == 0);
            assert(cur.0.len() == 0);
            lemma_join_push(prev.1, t, sep);
            lemma_join_push(cur.0, join(cur.1, sep), sep);
            assert(seg_texts(segs.drop_last()) =~= Seq::<Seq<char>>::empty());
        } else if breaks_before(prev, segs.last().long_gap) {
            let closed = prev.0.push(join(prev.1, sep));
            assert(cur.0 == closed);
            assert(cur.1 =~= seq![t]);
            lemma_join_push(Seq::<Seq<char>>::empty(), t, sep);
            assert(Seq::<Seq<char>>::empty().push(t) =~= seq![t]);
            lemma_join_push(closed, t, sep);
        } else {
            assert(cur.0 == prev.0);
            assert(cur.1 == prev.1.push(t));
            lemma_join_push(prev.1, t, sep);
            let x = join(prev.1, sep);
            lemma_join_push(prev.0, x, sep);
            lemma_join_push(prev.0, x + sep + t, sep);
            if prev.0.len() > 0 {
                assert(join(prev.0, sep) + sep + (x + sep + t) =~= (join(prev.0, sep) + sep + x) + sep
                    + t);
            }
        }
    }
}

/// Paragraphing only inserts breaks: joining the paragraphs with spaces gives back the
/// segment texts joined with spaces, word for word and in order.
pub proof fn law_paragraphs_keep_every_word(segs: Seq<SpeechSegment>)
    ensures
        join(paragraphs_of(segs), " "@) == join(seg_texts(segs), " "@),
{
    lemma_walk_keeps_words(segs);
    if segs.len() == 0 {
        assert(seg_texts(segs) =~= Seq::<Seq<char>>::empty());
        assert(paragraphs_of(segs) =~= Seq::<Seq<char>>::empty());
    }
}

/// The segment texts of a run of paragraphs, one after the other.
pub open spec fn concat_all(runs: Seq<Seq<Seq<char>>>) -> Seq<Seq<char>>
    decreases runs.len(),
{
    if runs.len() == 0 {
        Seq::empty()
    } else {
        concat_all(runs.drop_last()) + runs.last()
    }
}

/// The segment texts of the paragraphs that are closed after `segs`.
pub open spec fn closed_runs(segs: Seq<SpeechSegment>) -> Seq<Seq<Seq<char>>>
    decreases segs.len(),
{
    if segs.len() == 0 {
        Seq::empty()
    } else {
        let prev = walk(segs.drop_last());
        if breaks_before(prev, segs.last().long_gap) && prev.1.len() > 0 {
            closed_runs(segs.drop_last()).push(prev.1)
        } else {
            closed_runs(segs.drop_last())
        }
    }
}

/// The segment texts of each paragraph of a transcript.
pub open spec fn paragraph_runs(segs: Seq<SpeechSegment>) -> Seq<Seq<Seq<char>>> {
    if walk(segs).1.len() > 0 {
        closed_runs(segs).push(walk(segs).1)
    } else {
        closed_runs(segs)
    }
}

proof fn lemma_runs(segs: Seq<SpeechSegment>)
    ensures
        closed_runs(segs).len() == walk(segs).0.len(),
        forall|q: int|
            0 <= q < closed_runs(segs).len() ==> walk(segs).0[q] == join(
                #[trigger] closed_runs(segs)[q],
                " "@,
            ) && closed_runs(segs)[q].len() > 0,
        concat_all(closed_runs(segs)) + walk(segs).1 == seg_texts(segs),
        segs.len() > 0 <==> walk(segs).1.len() > 0,
    decreases segs.len(),
{
    if segs.len() == 0 {
        assert(seg_texts(segs) =~= Seq::<Seq<char>>::empty());
        assert(concat_all(closed_runs(segs)) + walk(segs).1 =~= Seq::<Seq<char>>::empty());
    } else {
        let d = segs.drop_last();
        lemma_runs(d);
        let prev = walk(d);
        let t = segs.last().text@;
        assert(seg_texts(segs) =~= seg_texts(d).push(t));
        let c = closed_runs(d);
        if breaks_before(prev, segs.last().long_gap) && prev.1.len() > 0 {
            let c2 = c.push(prev.1);
            assert(c2.drop_last() =~= c);
            assert(concat_all(c2) == concat_all(c) + prev.1);
            assert(walk(segs).1 =~= seq![t]);
            assert(concat_all(c2) + walk(segs).1 =~= (concat_all(c) + prev.1).push(t));
            assert forall|q: int| 0 <= q < c2.len() implies walk(segs).0[q] == join(
                #[trigger] c2[q],
                " "@,
            ) && c2[q].len() > 0 by {
                if q < c.len() {
                    assert(c2[q] == c[q]);
                }
            }
        } else {
            assert(walk(segs).1 =~= prev.1.push(t));
            assert(concat_all(c) + walk(segs).1 =~= (concat_all(c) + prev.1).push(t));
        }
    }
}

/// Paragraphing cuts the segment texts into consecutive non-empty runs and joins each run
/// with single spaces: read in order, the runs give back every segment text exactly
/// once, and there is no paragraph exactly when there is no segment.
pub proof fn law_paragraphs_are_runs_of_segments(segs: Seq<SpeechSegment>)
    ensures
        paragraphs_of(segs).len() == paragraph_runs(segs).len(),
        forall|q: int|
            0 <= q < paragraph_runs(segs).len() ==> paragraphs_of(segs)[q] == join(
                #[trigger] paragraph_runs(segs)[q],
                " "@,
            ) && paragraph_runs(segs)[q].len() > 0,
        concat_all(paragraph_runs(segs)) == seg_texts(segs),
        paragraphs_of(segs).len() == 0 <==> segs.len() == 0,
{
    lemma_runs(segs);
    let c = closed_runs(segs);
    let w = walk(segs);
    if w.1.len() > 0 {
        let r = c.push(w.1);
        assert(r.drop_last() =~= c);
        assert forall|q: int| 0 <= q < r.len() implies paragraphs_of(segs)[q] == join(
            #[trigger] r[q],
            " "@,
        ) && r[q].len() > 0 by {
            if q < c.len() {
                assert(r[q] == c[q]);
            }
        }
    } else {
        assert(concat_all(c) + w.1 =~= concat_all(c));
    }
}

} // verus!
