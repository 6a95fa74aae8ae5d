//! Paragraph → block planning and prompt assembly for the translation.
//!
//! Paragraphs are never split: the Chinese transcript must stay 1:1 with the English one,
//! so a block is a consecutive run of paragraphs bounded by `max_segments_per_block` and
//! `max_chars_per_block`. A paragraph longer than the char budget still gets its own
//! block. All prompt text lives here, so the exact instructions can be read in one place.
use crate::config::TranslationSettings;
use crate::text::{
    contains, decimal, first_from, from_chars, lemma_first_from, lines, occurs_at, push_str, push_u64, slice_chars,
    split_lines, to_chars, trim, trim_chars, views,
};
use crate::validate::glossary_view;
use core::ops::Range;
use vstd::prelude::*;

verus! {

/// Number of already translated paragraphs sent as context before a block.
pub const CONTEXT_PARAGRAPHS: usize = 2;

/// One paragraph inside a block; the global paragraph index doubles as the response id.
#[derive(Debug, Clone, PartialEq, Eq)]
pub struct BlockItem {
    pub id: usize,
    pub text: String,
}

/// A consecutive run of paragraphs sent to the model in one request.
#[derive(Debug, PartialEq, Eq)]
pub struct Block {
    pub index: usize,
    /// Global paragraph range covered by this block (half-open).
    pub paragraph_range: Range<usize>,
    pub items: Vec<BlockItem>,
}

/// The ids of `items`, in order.
pub open spec fn item_ids(items: Seq<BlockItem>) -> Seq<usize> {
    items.map_values(|it: BlockItem| it.id)
}

/// Total character count of `items`.
pub open spec fn item_chars(items: Seq<BlockItem>) -> int
    decreases items.len(),
{
    if items.len() == 0 {
        0
    } else {
        item_chars(items.drop_last()) + items.last().text@.len()
    }
}

/// Total character count of paragraphs `a..b`.
pub open spec fn range_chars(ps: Seq<Seq<char>>, a: int, b: int) -> int
    decreases b - a,
{
    if b <= a {
        0
    } else {
        range_chars(ps, a, b - 1) + ps[b - 1].len()
    }
}

pub proof fn lemma_range_chars_mono(ps: Seq<Seq<char>>, a: int, b: int, c: int, d: int)
    requires
        c <= a <= b <= d,
    ensures
        range_chars(ps, a, b) <= range_chars(ps, c, d),
        range_chars(ps, a, b) >= 0,
    decreases (a - c) + (d - b),
{
    if d > b {
        lemma_range_chars_mono(ps, a, b, c, d - 1);
    } else if a > c {
        lemma_range_chars_split(ps, c, a, b);
        lemma_range_chars_mono(ps, a, b, a, b);
        lemma_range_chars_nonneg(ps, c, a);
    } else {
        lemma_range_chars_nonneg(ps, a, b);
    }
}

pub proof fn lemma_range_chars_nonneg(ps: Seq<Seq<char>>, a: int, b: int)
    ensures
        range_chars(ps, a, b) >= 0,
    decreases b - a,
{
    if b > a {
        lemma_range_chars_nonneg(ps, a, b - 1);
    }
}

pub proof fn lemma_range_chars_split(ps: Seq<Seq<char>>, a: int, m: int, b: int)
    requires
        a <= m <= b,
    ensures
        range_chars(ps, a, b) == range_chars(ps, a, m) + range_chars(ps, m, b),
    decreases b - m,
{
    if b > m {
        lemma_range_chars_split(ps, a, m, b - 1);
    }
}

impl Clone for Block {
    fn clone(&self) -> (r: Self)
        ensures
            r.index == self.index,
            r.paragraph_range == self.paragraph_range,
            r.items@.len() == self.items@.len(),
            forall|k: int|
                0 <= k < r.items@.len() ==> (#[trigger] r.items@[k]).id == self.items@[k].id
                    && r.items@[k].text == self.items@[k].text,
    {
        let mut items: Vec<BlockItem> = Vec::new();
        let mut i: usize = 0;
        while i < self.items.len()
            invariant
                i <= self.items@.len(),
                items@.len() == i,
                forall|k: int|
                    0 <= k < i ==> (#[trigger] items@[k]).id == self.items@[k].id
                        && items@[k].text == self.items@[k].text,
            decreases self.items@.len() - i,
        {
            items.push(BlockItem { id: self.items[i].id, text: self.items[i].text.clone() });
            i += 1;
        }
        Block {
            index: self.index,
            paragraph_range: Range {
                start: self.paragraph_range.start,
                end: self.paragraph_range.end,
            },
            items,
        }
    }
}

impl Block {
    /// The paragraph ids of this block.
    pub fn ids(&self) -> (r: Vec<usize>)
        ensures
            r@ == item_ids(self.items@),
    {
        let mut r: Vec<usize> = Vec::new();
        let mut i: usize = 0;
        while i < self.items.len()
            invariant
                i <= self.items@.len(),
                r@ == item_ids(self.items@.take(i as int)),
            decreases self.items@.len() - i,
        {
            r.push(self.items[i].id);
            assert(item_ids(self.items@.take(i + 1)) =~= item_ids(self.items@.take(i as int)).push(
                self.items@[i as int].id,
            ));
            i += 1;
        }
        assert(self.items@.take(self.items@.len() as int) =~= self.items@);
        r
    }

    /// The number of characters (Unicode scalars) of the block's paragraphs.
    pub fn chars(&self) -> (r: usize)
        requires
            item_chars(self.items@) <= usize::MAX,
        ensures
            r == item_chars(self.items@),
    {
        let mut total: usize = 0;
        let mut i: usize = 0;
        while i < self.items.len()
            invariant
                i <= self.items@.len(),
                total == item_chars(self.items@.take(i as int)),
                item_chars(self.items@) <= usize::MAX,
            decreases self.items@.len() - i,
        {
            assert(self.items@.take(i + 1).drop_last() =~= self.items@.take(i as int));
            proof {
                lemma_item_chars_prefix(self.items@, i + 1);
            }
            total = total + self.items[i].text.as_str().unicode_len();
            i += 1;
        }
        assert(self.items@.take(self.items@.len() as int) =~= self.items@);
        total
    }
}

pub proof fn lemma_item_chars_prefix(items: Seq<BlockItem>, k: int)
    requires
        0 <= k <= items.len(),
    ensures
        0 <= item_chars(items.take(k)) <= item_chars(items),
    decreases items.len(),
{
    if items.len() > 0 {
        if k == items.len() {
            assert(items.take(k) =~= items);
            lemma_item_chars_prefix(items.drop_last(), items.len() - 1);
            assert(items.drop_last().take(items.len() - 1) =~= items.drop_last());
        } else {
            lemma_item_chars_prefix(items.drop_last(), k);
            assert(items.drop_last().take(k) =~= items.take(k));
        }
    }
}

// ---------------------------------------------------------------------------
// Block planning
// ---------------------------------------------------------------------------

/// The item limit in force: `max_segments_per_block`, at least 1.
pub open spec fn item_limit(settings: TranslationSettings) -> int {
    if settings.max_segments_per_block == 0 {
        1
    } else {
        settings.max_segments_per_block as int
    }
}

/// The character budget in force: `max_chars_per_block`, at least 1.
pub open spec fn char_limit(settings: TranslationSettings) -> int {
    if settings.max_chars_per_block == 0 {
        1
    } else {
        settings.max_chars_per_block as int
    }
}

/// Block `b` covers paragraphs `start..end` (non-empty, in order, texts copied) and sits at
/// position `index` of the plan.
pub open spec fn block_covers(ps: Seq<Seq<char>>, b: Block, index: int) -> bool {
    let start = b.paragraph_range.start as int;
    let end = b.paragraph_range.end as int;
    &&& b.index == index
    &&& 0 <= start < end <= ps.len()
    &&& b.items@.len() == end - start
    &&& forall|k: int|
        0 <= k < b.items@.len() ==> (#[trigger] b.items@[k]).id == start + k && b.items@[k].text@
            == ps[start + k]
}

/// Block `b` respects the limits: at most `mi` paragraphs and at most `mc` characters,
/// unless it is a single paragraph.
pub open spec fn block_fits(ps: Seq<Seq<char>>, b: Block, mi: int, mc: int) -> bool {
    let start = b.paragraph_range.start as int;
    let end = b.paragraph_range.end as int;
    end - start <= mi && (end - start == 1 || range_chars(ps, start, end) <= mc)
}

/// Block `b` was closed because the paragraph right after it would not fit.
pub open spec fn block_closed(ps: Seq<Seq<char>>, b: Block, mi: int, mc: int) -> bool {
    let start = b.paragraph_range.start as int;
    let end = b.paragraph_range.end as int;
    end - start >= mi || range_chars(ps, start, end) + ps[end].len() > mc
}

/// The greedy plan: blocks tile `0..ps.len()` in order; each block fits the limits; a
/// block is only closed when the next paragraph would break a limit.
pub open spec fn greedy_plan(ps: Seq<Seq<char>>, mi: int, mc: int, bs: Seq<Block>) -> bool {
    &&& (ps.len() == 0 <==> bs.len() == 0)
    &&& bs.len() > 0 ==> bs[0].paragraph_range.start == 0 && bs.last().paragraph_range.end
        == ps.len()
    &&& forall|b: int|
        0 <= b < bs.len() ==> block_covers(ps, #[trigger] bs[b], b) && block_fits(
            ps,
            bs[b],
            mi,
            mc,
        )
    &&& forall|b: int|
        0 <= b < bs.len() - 1 ==> (#[trigger] bs[b]).paragraph_range.end == bs[b
            + 1].paragraph_range.start && block_closed(ps, bs[b], mi, mc)
}

proof fn lemma_plan_ordered(ps: Seq<Seq<char>>, mi: int, mc: int, bs: Seq<Block>, a: int, b: int)
    requires
        greedy_plan(ps, mi, mc, bs),
        0 <= a < b < bs.len(),
    ensures
        bs[a].paragraph_range.end <= bs[b].paragraph_range.start,
    decreases b - a,
{
    assert(block_covers(ps, bs[b - 1], b - 1));
    assert(bs[b - 1].paragraph_range.end == bs[b].paragraph_range.start);
    if a + 1 < b {
        lemma_plan_ordered(ps, mi, mc, bs, a, b - 1);
    }
}

proof fn lemma_plan_covers(ps: Seq<Seq<char>>, mi: int, mc: int, bs: Seq<Block>, m: int, i: int)
    requires
        greedy_plan(ps, mi, mc, bs),
        0 <= m < bs.len(),
        0 <= i < bs[m].paragraph_range.end,
    ensures
        exists|b: int|
            #![trigger bs[b]]
            0 <= b <= m && bs[b].paragraph_range.start <= i < bs[b].paragraph_range.end,
    decreases m,
{
    if i >= bs[m].paragraph_range.start {
        assert(bs[m].paragraph_range.start <= i < bs[m].paragraph_range.end);
    } else {
        assert(m > 0);
        assert(bs[m - 1].paragraph_range.end == bs[m].paragraph_range.start);
        lemma_plan_covers(ps, mi, mc, bs, m - 1, i);
    }
}

/// Some block of `bs` covers paragraph `i`.
pub open spec fn paragraph_planned(bs: Seq<Block>, i: int) -> bool {
    exists|b: int|
        #![trigger bs[b]]
        0 <= b < bs.len() && bs[b].paragraph_range.start <= i < bs[b].paragraph_range.end
}

/// A greedy plan puts every paragraph into exactly one block: each paragraph index lies
/// in the range of some block, and the ranges of two blocks never overlap (an earlier
/// block ends where or before a later one starts).
pub proof fn law_plan_covers_each_paragraph_once(
    ps: Seq<Seq<char>>,
    mi: int,
    mc: int,
    bs: Seq<Block>,
)
    requires
        greedy_plan(ps, mi, mc, bs),
    ensures
        forall|i: int| 0 <= i < ps.len() ==> #[trigger] paragraph_planned(bs, i),
        forall|a: int, b: int|
            0 <= a < b < bs.len() ==> (#[trigger] bs[a]).paragraph_range.end <= (
            #[trigger] bs[b]).paragraph_range.start,
{
    assert forall|i: int| 0 <= i < ps.len() implies #[trigger] paragraph_planned(bs, i) by {
        lemma_plan_covers(ps, mi, mc, bs, bs.len() - 1, i);
    }
    assert forall|a: int, b: int| 0 <= a < b < bs.len() implies (#[trigger] bs[a]).paragraph_range.end
        <= (#[trigger] bs[b]).paragraph_range.start by {
        lemma_plan_ordered(ps, mi, mc, bs, a, b);
    }
}

/// Splits transcript paragraphs into blocks; `0` limits are clamped to `1` so a
/// misconfigured setting can never produce an empty or infinitely growing block.
pub fn plan_blocks(paragraphs: &[String], settings: &TranslationSettings) -> (r: Vec<Block>)
    requires
        range_chars(views(paragraphs@), 0, paragraphs@.len() as int) <= usize::MAX,
    ensures
        greedy_plan(views(paragraphs@), item_limit(*settings), char_limit(*settings), r@),
{
    let ghost ps = views(paragraphs@);
    let ghost n = paragraphs@.len() as int;
    let max_items: usize = if settings.max_segments_per_block == 0 {
        1
    } else {
        settings.max_segments_per_block as usize
    };
    let max_chars: usize = if settings.max_chars_per_block == 0 {
        1
    } else {
        settings.max_chars_per_block as usize
    };
    let ghost mi = item_limit(*settings);
    let ghost mc = char_limit(*settings);

    let mut blocks: Vec<Block> = Vec::new();
    let mut items: Vec<BlockItem> = Vec::new();
    let mut chars: usize = 0;
    let mut start: usize = 0;
    let mut id: usize = 0;
    while id < paragraphs.len()
        invariant
            ps == views(paragraphs@),
            n == paragraphs@.len(),
            mi == max_items,
            mc == max_chars,
            mi >= 1,
            mc >= 1,
            range_chars(ps, 0, n) <= usize::MAX,
            start <= id <= n,
            items@.len() == id - start,
            chars == range_chars(ps, start as int, id as int),
            forall|k: int|
                0 <= k < items@.len() ==> (#[trigger] items@[k]).id == start + k
                    && items@[k].text@ == ps[start + k],
            items@.len() <= mi,
            items@.len() <= 1 || chars <= mc,
            blocks@.len() == 0 ==> start == 0,
            blocks@.len() > 0 ==> blocks@[0].paragraph_range.start == 0
                && blocks@.last().paragraph_range.end == start && items@.len() > 0,
            forall|b: int|
                0 <= b < blocks@.len() ==> block_covers(ps, #[trigger] blocks@[b], b)
                    && block_fits(ps, blocks@[b], mi, mc),
            forall|b: int|
                0 <= b < blocks@.len() ==> (#[trigger] blocks@[b]).paragraph_range.end < n
                    && block_closed(ps, blocks@[b], mi, mc),
            forall|b: int|
                0 <= b < blocks@.len() - 1 ==> (#[trigger] blocks@[b]).paragraph_range.end
                    == blocks@[b + 1].paragraph_range.start,
        decreases n - id,
    {
        let text_chars = paragraphs[id].as_str().unicode_len();
        proof {
            lemma_range_chars_mono(ps, start as int, id + 1, 0, n);
            assert(range_chars(ps, start as int, id + 1) == chars + text_chars);
        }
        let overflows = items.len() > 0 && (items.len() >= max_items || chars + text_chars
            > max_chars);
        if overflows {
            let ghost old_blocks = blocks@;
            let block = Block {
                index: blocks.len(),
                paragraph_range: Range { start: start, end: id },
                items: items,
            };
            assert(block_covers(ps, block, old_blocks.len() as int));
            blocks.push(block);
            assert(blocks@[old_blocks.len() as int] == block);
            assert forall|b: int| 0 <= b < blocks@.len() implies block_covers(
                ps,
                #[trigger] blocks@[b],
                b,
            ) && block_fits(ps, blocks@[b], mi, mc) by {
                if b < old_blocks.len() {
                    assert(blocks@[b] == old_blocks[b]);
                }
            }
            assert forall|b: int| 0 <= b < blocks@.len() implies (
            #[trigger] blocks@[b]).paragraph_range.end < n && block_closed(
                ps,
                blocks@[b],
                mi,
                mc,
            ) by {
                if b < old_blocks.len() {
                    assert(blocks@[b] == old_blocks[b]);
                }
            }
            assert forall|b: int| 0 <= b < blocks@.len() - 1 implies (
            #[trigger] blocks@[b]).paragraph_range.end == blocks@[b + 1].paragraph_range.start by {
                if b < old_blocks.len() - 1 {
                    assert(blocks@[b] == old_blocks[b]);
                    assert(blocks@[b + 1] == old_blocks[b + 1]);
                } else {
                    assert(blocks@[b] == old_blocks.last());
                }
            }
            items = Vec::new();
            chars = 0;
            start = id;
        }
        let ghost old_items = items@;
        items.push(BlockItem { id: id, text: paragraphs[id].clone() });
        assert forall|k: int| 0 <= k < items@.len() implies (#[trigger] items@[k]).id == start + k
            && items@[k].text@ == ps[start + k] by {
            if k < old_items.len() {
                assert(items@[k] == old_items[k]);
            }
        }
        proof {
            lemma_range_chars_mono(ps, start as int, id + 1, 0, n);
            assert(ps[id as int] == paragraphs@[id as int]@);
            assert(range_chars(ps, start as int, id as int) == chars);
            assert(range_chars(ps, start as int, id + 1) == chars + text_chars);
        }
        chars = chars + text_chars;
        id += 1;
    }
    if items.len() > 0 {
        let ghost old_blocks = blocks@;
        let block = Block {
            index: blocks.len(),
            paragraph_range: Range { start: start, end: id },
            items: items,
        };
        blocks.push(block);
        assert(blocks@[old_blocks.len() as int] == block);
        assert forall|b: int| 0 <= b < blocks@.len() implies block_covers(
            ps,
            #[trigger] blocks@[b],
            b,
        ) && block_fits(ps, blocks@[b], mi, mc) by {
            if b < old_blocks.len() {
                assert(blocks@[b] == old_blocks[b]);
            }
        }
        assert forall|b: int| 0 <= b < blocks@.len() - 1 implies (
        #[trigger] blocks@[b]).paragraph_range.end == blocks@[b + 1].paragraph_range.start
            && block_closed(ps, blocks@[b], mi, mc) by {
            assert(blocks@[b] == old_blocks[b]);
            if b < old_blocks.len() - 1 {
                assert(blocks@[b + 1] == old_blocks[b + 1]);
            }
        }
    }
    blocks
}

// ---------------------------------------------------------------------------
// Context
// ---------------------------------------------------------------------------

/// One previous paragraph with its finished translation, sent as context only.
#[derive(Debug, Clone, PartialEq, Eq)]
pub struct ContextParagraph {
    pub source: String,
    pub translation: String,
}

/// Up to [`CONTEXT_PARAGRAPHS`] paragraphs before the current block.
#[derive(Debug, Clone, PartialEq, Eq)]
pub struct BlockContext {
    pub previous: Vec<ContextParagraph>,
}

/// The paragraph ids used as context before a block starting at `end`: the last
/// [`CONTEXT_PARAGRAPHS`] ids before it that both lists cover.
pub open spec fn context_ids(end: int, paragraphs_len: int, translations_len: int) -> Seq<int> {
    let start = if end >= 2 {
        end - 2
    } else {
        0
    };
    Seq::new((end - start) as nat, |k: int| start + k).filter(
        |id: int| 0 <= id && id < paragraphs_len && id < translations_len,
    )
}

impl BlockContext {
    pub fn empty() -> (r: Self)
        ensures
            r.previous@.len() == 0,
    {
        BlockContext { previous: Vec::new() }
    }

    /// Builds the context for `block` from the full paragraph list and the translations
    /// produced so far (indexed by paragraph id).
    pub fn before(block: &Block, paragraphs: &[String], translations: &[String]) -> (r: Self)
        ensures
            ({
                let ids = context_ids(
                    block.paragraph_range.start as int,
                    paragraphs@.len() as int,
                    translations@.len() as int,
                );
                &&& r.previous@.len() == ids.len()
                &&& forall|k: int|
                    0 <= k < ids.len() ==> (#[trigger] r.previous@[k]).source@ == paragraphs@[ids[k]]@
                        && r.previous@[k].translation@ == translations@[ids[k]]@
            }),
    {
        let end = block.paragraph_range.start;
        let start = if end >= CONTEXT_PARAGRAPHS {
            end - CONTEXT_PARAGRAPHS
        } else {
            0
        };
        let ghost pl = paragraphs@.len() as int;
        let ghost tl = translations@.len() as int;
        let ghost all = Seq::new((end - start) as nat, |k: int| start + k);
        let ghost keep = |id: int| 0 <= id && id < pl && id < tl;
        let mut previous: Vec<ContextParagraph> = Vec::new();
        let mut id = start;
        while id < end
            invariant
                start <= id <= end,
                all == Seq::new((end - start) as nat, |k: int| start + k),
                keep == (|id: int| 0 <= id && id < pl && id < tl),
                pl == paragraphs@.len(),
                tl == translations@.len(),
                previous@.len() == all.take(id - start).filter(keep).len(),
                forall|k: int|
                    0 <= k < previous@.len() ==> (#[trigger] previous@[k]).source@
                        == paragraphs@[all.take(id - start).filter(keep)[k]]@
                        && previous@[k].translation@ == translations@[all.take(
                        id - start,
                    ).filter(keep)[k]]@,
            decreases end - id,
        {
            let ghost before = all.take(id - start);
            assert(all.take(id - start + 1) =~= before.push(id as int));
            assert(before.push(id as int).filter(keep) == if keep(id as int) {
                before.filter(keep).push(id as int)
            } else {
                before.filter(keep)
            }) by {
                reveal_with_fuel(Seq::filter, 1);
                assert(before.push(id as int).drop_last() =~= before);
            }
            if id < paragraphs.len() && id < translations.len() {
                let ghost old_prev = previous@;
                previous.push(
                    ContextParagraph {
                        source: paragraphs[id].clone(),
                        translation: translations[id].clone(),
                    },
                );
                assert forall|k: int| 0 <= k < previous@.len() implies (
                #[trigger] previous@[k]).source@ == paragraphs@[all.take(id - start + 1).filter(
                    keep,
                )[k]]@ && previous@[k].translation@ == translations@[all.take(
                    id - start + 1,
                ).filter(keep)[k]]@ by {
                    if k < old_prev.len() {
                        assert(previous@[k] == old_prev[k]);
                    }
                }
            }
            id += 1;
        }
        assert(all.take(end - start) =~= all);
        BlockContext { previous }
    }
}

// ---------------------------------------------------------------------------
// Glossary
// ---------------------------------------------------------------------------

/// Position of the first `=` in `line` (or its length).
pub open spec fn first_equals(line: Seq<char>) -> int {
    first_from(line.len() as int, 0, |k: int| line[k] == '=')
}

/// One glossary line: `source=target` split at the first `=`, both sides trimmed and
/// non-empty.
pub open spec fn glossary_entry(line: Seq<char>) -> Option<(Seq<char>, Seq<char>)> {
    let k = first_equals(line);
    if k >= line.len() {
        None
    } else {
        let source = trim(line.take(k));
        let target = trim(line.skip(k + 1));
        if source.len() == 0 || target.len() == 0 {
            None
        } else {
            Some((source, target))
        }
    }
}

/// The entries of the lines `ls`, in order, malformed lines skipped.
pub open spec fn glossary_of_lines(ls: Seq<Seq<char>>) -> Seq<(Seq<char>, Seq<char>)>
    decreases ls.len(),
{
    if ls.len() == 0 {
        Seq::empty()
    } else {
        let rest = glossary_of_lines(ls.drop_last());
        match glossary_entry(ls.last()) {
            Some(e) => rest.push(e),
            None => rest,
        }
    }
}

/// The glossary pairs of the plain-text glossary `g`.
pub open spec fn glossary_pairs(g: Seq<char>) -> Seq<(Seq<char>, Seq<char>)> {
    glossary_of_lines(lines(g))
}

fn find_equals(line: &Vec<char>) -> (r: usize)
    ensures
        r as int == first_equals(line@),
{
    let ghost p = |k: int| line@[k] == '=';
    let mut k: usize = 0;
    while k < line.len()
        invariant
            k <= line@.len(),
            p == (|k: int| line@[k] == '='),
            first_from(line@.len() as int, 0, p) == first_from(line@.len() as int, k as int, p),
        decreases line@.len() - k,
    {
        if line[k] == '=' {
            assert(p(k as int));
            return k;
        }
        assert(!p(k as int));
        k += 1;
    }
    k
}

/// Parses the plain-text glossary (one `source=target` pair per line). Blank lines and
/// lines without a non-empty pair are ignored.
pub fn parse_glossary(glossary: &str) -> (r: Vec<(String, String)>)
    ensures
        glossary_view(r@) == glossary_pairs(glossary@),
{
    let chars = to_chars(glossary);
    let ls = split_lines(&chars);
    let ghost lv = lines(glossary@);
    let mut r: Vec<(String, String)> = Vec::new();
    let mut i: usize = 0;
    assert(glossary_view(r@) =~= Seq::<(Seq<char>, Seq<char>)>::empty());
    while i < ls.len()
        invariant
            i <= ls@.len(),
            lv == lines(glossary@),
            ls@.len() == lv.len(),
            forall|j: int| 0 <= j < ls@.len() ==> #[trigger] ls@[j]@ == lv[j],
            glossary_view(r@) == glossary_of_lines(lv.take(i as int)),
        decreases ls@.len() - i,
    {
        let line = &ls[i];
        assert(lv.take(i + 1).drop_last() =~= lv.take(i as int));
        assert(lv.take(i + 1).last() == line@);
        let k = find_equals(line);
        if k < line.len() {
            let left = slice_chars(line, 0, k);
            let right = slice_chars(line, k + 1, line.len());
            let source = trim_chars(&left);
            let target = trim_chars(&right);
            assert(left@ =~= line@.take(k as int));
            assert(right@ =~= line@.skip(k + 1));
            if source.len() > 0 && target.len() > 0 {
                let ghost old_r = r@;
                r.push((from_chars(source.as_slice()), from_chars(target.as_slice())));
                assert(glossary_view(r@) =~= glossary_view(old_r).push((source@, target@)));
            }
        }
        i += 1;
    }
    assert(lv.take(ls@.len() as int) =~= lv);
    r
}

// ---------------------------------------------------------------------------
// Prompts
// ---------------------------------------------------------------------------

pub const ROLE: &'static str = "You are a professional translator. You translate English video transcripts into Simplified Chinese (zh-Hans) for a readable written transcript.";

pub const HARD_RULES: &'static str = "\nHard rules:\n- Preserve the meaning exactly: never add, omit, summarise, explain or annotate.\n- Do not add titles, headings, notes, markdown or any commentary.\n- Keep numbers, dates, times, URLs, code and proper names verbatim.\n- Keep exactly one Chinese paragraph per input paragraph, in the same id order.";

pub const FILLER_RULE: &'static str = "\n- Remove filler words (um, uh, you know, like, sort of) and clearly garbled phrases; make no other change.";

pub const GLOSSARY_HEADER: &'static str = "\nGlossary (use the target term whenever its source term appears):\n";

pub const OUTPUT_CONTRACT: &'static str = "\nOutput contract: reply with a single JSON object of the form {\"translations\":[{\"id\":<id>,\"zh\":\"<Chinese paragraph>\"}]}. Include every id in the input order, add no extra keys, and write no text outside the JSON.";

pub const CONTEXT_HEADER: &'static str = "Already translated context (use it only as reference, do not repeat it):\n";

pub const TRANSLATE_HEADER: &'static str = "Translate every paragraph below into Simplified Chinese. Return the JSON object described in the system prompt, one translation per id.\n\n";

/// `- source = target\n` for every glossary pair.
pub open spec fn glossary_lines(g: Seq<(Seq<char>, Seq<char>)>) -> Seq<char>
    decreases g.len(),
{
    if g.len() == 0 {
        Seq::empty()
    } else {
        glossary_lines(g.drop_last()) + "- "@ + g.last().0 + " = "@ + g.last().1 + "\n"@
    }
}

/// The system prompt: role, hard rules, optional filler rule, glossary and the JSON
/// output contract.
pub open spec fn system_prompt(drop_fillers: bool, glossary: Seq<char>) -> Seq<char> {
    let pairs = glossary_pairs(glossary);
    ROLE@ + HARD_RULES@ + (if drop_fillers {
        FILLER_RULE@
    } else {
        Seq::empty()
    }) + (if pairs.len() > 0 {
        GLOSSARY_HEADER@ + glossary_lines(pairs)
    } else {
        Seq::empty()
    }) + OUTPUT_CONTRACT@
}

/// One glossary line of the system prompt.
pub open spec fn glossary_line(pair: (Seq<char>, Seq<char>)) -> Seq<char> {
    "- "@ + pair.0 + " = "@ + pair.1 + "\n"@
}

proof fn lemma_contains_within(x: Seq<char>, needle: Seq<char>, pre: Seq<char>, post: Seq<char>)
    requires
        contains(x, needle),
    ensures
        contains(pre + x + post, needle),
{
    let i = choose|i: int| occurs_at(x, needle, i);
    let j = pre.len() + i;
    assert((pre + x + post).subrange(j, j + needle.len()) =~= x.subrange(i, i + needle.len()));
    assert(occurs_at(pre + x + post, needle, j));
}

proof fn lemma_contains_itself(x: Seq<char>)
    ensures
        contains(x, x),
{
    assert(x.subrange(0, x.len() as int) =~= x);
    assert(occurs_at(x, x, 0));
}

proof fn lemma_glossary_line_in(g: Seq<(Seq<char>, Seq<char>)>, k: int)
    requires
        0 <= k < g.len(),
    ensures
        contains(glossary_lines(g), glossary_line(g[k])),
    decreases g.len(),
{
    let d = g.drop_last();
    let tail = glossary_line(g.last());
    assert(glossary_lines(g) =~= glossary_lines(d) + tail + Seq::<char>::empty());
    if k == g.len() - 1 {
        lemma_contains_itself(tail);
        lemma_contains_within(tail, tail, glossary_lines(d), Seq::empty());
    } else {
        lemma_glossary_line_in(d, k);
        assert(d[k] == g[k]);
        lemma_contains_within(glossary_lines(d), glossary_line(g[k]), Seq::empty(), tail);
        assert(Seq::<char>::empty() + glossary_lines(d) + tail =~= glossary_lines(d) + tail
            + Seq::<char>::empty());
    }
}

/// The system prompt starts with the role, carries the hard rules, the filler rule when
/// fillers are dropped, one `- source = target` line per glossary pair, and ends with the
/// JSON output contract.
pub proof fn law_system_prompt_carries_its_parts(drop_fillers: bool, glossary: Seq<char>)
    ensures
        system_prompt(drop_fillers, glossary).len() >= ROLE@.len() + OUTPUT_CONTRACT@.len(),
        system_prompt(drop_fillers, glossary).take(ROLE@.len() as int) == ROLE@,
        system_prompt(drop_fillers, glossary).subrange(
            system_prompt(drop_fillers, glossary).len() - OUTPUT_CONTRACT@.len(),
            system_prompt(drop_fillers, glossary).len() as int,
        ) == OUTPUT_CONTRACT@,
        contains(system_prompt(drop_fillers, glossary), HARD_RULES@),
        drop_fillers ==> contains(system_prompt(drop_fillers, glossary), FILLER_RULE@),
        forall|k: int|
            0 <= k < glossary_pairs(glossary).len() ==> contains(
                system_prompt(drop_fillers, glossary),
                glossary_line(#[trigger] glossary_pairs(glossary)[k]),
            ),
{
    let pairs = glossary_pairs(glossary);
    let f = if drop_fillers {
        FILLER_RULE@
    } else {
        Seq::<char>::empty()
    };
    let gl = if pairs.len() > 0 {
        GLOSSARY_HEADER@ + glossary_lines(pairs)
    } else {
        Seq::<char>::empty()
    };
    let sp = system_prompt(drop_fillers, glossary);
    assert(sp == ROLE@ + HARD_RULES@ + f + gl + OUTPUT_CONTRACT@);
    assert(sp.take(ROLE@.len() as int) =~= ROLE@);
    assert(sp.subrange(sp.len() - OUTPUT_CONTRACT@.len(), sp.len() as int) =~= OUTPUT_CONTRACT@);
    lemma_contains_itself(HARD_RULES@);
    lemma_contains_within(HARD_RULES@, HARD_RULES@, ROLE@, f + gl + OUTPUT_CONTRACT@);
    assert(ROLE@ + HARD_RULES@ + (f + gl + OUTPUT_CONTRACT@) =~= sp);
    if drop_fillers {
        lemma_contains_itself(FILLER_RULE@);
        lemma_contains_within(FILLER_RULE@, FILLER_RULE@, ROLE@ + HARD_RULES@, gl + OUTPUT_CONTRACT@);
        assert(ROLE@ + HARD_RULES@ + FILLER_RULE@ + (gl + OUTPUT_CONTRACT@) =~= sp);
    }
    assert forall|k: int| 0 <= k < pairs.len() implies contains(
        sp,
        glossary_line(#[trigger] pairs[k]),
    ) by {
        lemma_glossary_line_in(pairs, k);
        lemma_contains_within(
            glossary_lines(pairs),
            glossary_line(pairs[k]),
            ROLE@ + HARD_RULES@ + f + GLOSSARY_HEADER@,
            OUTPUT_CONTRACT@,
        );
        assert(ROLE@ + HARD_RULES@ + f + GLOSSARY_HEADER@ + glossary_lines(pairs) + OUTPUT_CONTRACT@
            =~= sp);
    }
}

/// Builds the system prompt (role, hard rules, optional filler rule, glossary, output
/// contract).
pub fn build_system_prompt(settings: &TranslationSettings) -> (r: String)
    ensures
        r@ == system_prompt(settings.drop_fillers, settings.glossary@),
{
    let mut prompt = String::new();
    push_str(&mut prompt, ROLE);
    push_str(&mut prompt, HARD_RULES);
    if settings.drop_fillers {
        push_str(&mut prompt, FILLER_RULE);
    }
    let ghost head = prompt@;
    let glossary = parse_glossary(settings.glossary.as_str());
    let ghost g = glossary_view(glossary@);
    if glossary.len() > 0 {
        push_str(&mut prompt, GLOSSARY_HEADER);
        let ghost head2 = prompt@;
        let mut i: usize = 0;
        while i < glossary.len()
            invariant
                i <= glossary@.len(),
                g == glossary_view(glossary@),
                prompt@ == head2 + glossary_lines(g.take(i as int)),
            decreases glossary@.len() - i,
        {
            assert(g.take(i + 1).drop_last() =~= g.take(i as int));
            assert(g.take(i + 1).last() == (glossary@[i as int].0@, glossary@[i as int].1@));
            push_str(&mut prompt, "- ");
            push_str(&mut prompt, glossary[i].0.as_str());
            push_str(&mut prompt, " = ");
            push_str(&mut prompt, glossary[i].1.as_str());
            push_str(&mut prompt, "\n");
            assert(prompt@ =~= head2 + glossary_lines(g.take(i + 1)));
            i += 1;
        }
        assert(g.take(glossary@.len() as int) =~= g);
    }
    push_str(&mut prompt, OUTPUT_CONTRACT);
    assert(prompt@ =~= system_prompt(settings.drop_fillers, settings.glossary@));
    prompt
}

/// `- source: …\n  translation: …\n` for every context paragraph.
pub open spec fn context_lines(c: Seq<ContextParagraph>) -> Seq<char>
    decreases c.len(),
{
    if c.len() == 0 {
        Seq::empty()
    } else {
        context_lines(c.drop_last()) + "- source: "@ + c.last().source@ + "\n"@
            + "  translation: "@ + c.last().translation@ + "\n"@
    }
}

/// `[id] text\n` for every block item.
pub open spec fn item_lines(items: Seq<BlockItem>) -> Seq<char>
    decreases items.len(),
{
    if items.len() == 0 {
        Seq::empty()
    } else {
        item_lines(items.drop_last()) + "["@ + decimal(items.last().id as nat) + "] "@
            + items.last().text@ + "\n"@
    }
}

/// The user prompt: context paragraphs (not to be re-translated), then the current block
/// as `[id] text` lines.
pub open spec fn user_prompt(items: Seq<BlockItem>, context: Seq<ContextParagraph>) -> Seq<char> {
    (if context.len() > 0 {
        CONTEXT_HEADER@ + context_lines(context) + "\n"@
    } else {
        Seq::empty()
    }) + TRANSLATE_HEADER@ + item_lines(items)
}

/// The user prompt opens with the context section when there is context (with the
/// translate header otherwise) and ends with the translate header followed by the
/// block's `[id] text` lines.
pub proof fn law_user_prompt_shape(items: Seq<BlockItem>, context: Seq<ContextParagraph>)
    ensures
        ({
            let p = user_prompt(items, context);
            let tail = TRANSLATE_HEADER@ + item_lines(items);
            &&& p.len() >= tail.len()
            &&& p.subrange(p.len() - tail.len(), p.len() as int) == tail
            &&& context.len() > 0 ==> p.take(CONTEXT_HEADER@.len() as int) == CONTEXT_HEADER@
            &&& context.len() == 0 ==> p == tail
        }),
{
    let p = user_prompt(items, context);
    let tail = TRANSLATE_HEADER@ + item_lines(items);
    let head = if context.len() > 0 {
        CONTEXT_HEADER@ + context_lines(context) + "\n"@
    } else {
        Seq::<char>::empty()
    };
    assert(p == head + tail);
    assert(p.subrange(p.len() - tail.len(), p.len() as int) =~= tail);
    if context.len() > 0 {
        assert(p.take(CONTEXT_HEADER@.len() as int) =~= CONTEXT_HEADER@);
    } else {
        assert(p =~= tail);
    }
}

/// Builds the user prompt for `block` with its `context`.
pub fn build_user_prompt(block: &Block, context: &BlockContext) -> (r: String)
    ensures
        r@ == user_prompt(block.items@, context.previous@),
{
    let mut prompt = String::new();
    if context.previous.len() > 0 {
        push_str(&mut prompt, CONTEXT_HEADER);
        let ghost head = prompt@;
        let mut i: usize = 0;
        while i < context.previous.len()
            invariant
                i <= context.previous@.len(),
                prompt@ == head + context_lines(context.previous@.take(i as int)),
            decreases context.previous@.len() - i,
        {
            assert(context.previous@.take(i + 1).drop_last() =~= context.previous@.take(i as int));
            push_str(&mut prompt, "- source: ");
            push_str(&mut prompt, context.previous[i].source.as_str());
            push_str(&mut prompt, "\n");
            push_str(&mut prompt, "  translation: ");
            push_str(&mut prompt, context.previous[i].translation.as_str());
            push_str(&mut prompt, "\n");
            assert(prompt@ =~= head + context_lines(context.previous@.take(i + 1)));
            i += 1;
        }
        assert(context.previous@.take(context.previous@.len() as int) =~= context.previous@);
        push_str(&mut prompt, "\n");
    }
    push_str(&mut prompt, TRANSLATE_HEADER);
    let ghost head = prompt@;
    let mut j: usize = 0;
    while j < block.items.len()
        invariant
            j <= block.items@.len(),
            prompt@ == head + item_lines(block.items@.take(j as int)),
        decreases block.items@.len() - j,
    {
        assert(block.items@.take(j + 1).drop_last() =~= block.items@.take(j as int));
        push_str(&mut prompt, "[");
        push_u64(&mut prompt, block.items[j].id as u64);
        push_str(&mut prompt, "] ");
        push_str(&mut prompt, block.items[j].text.as_str());
        push_str(&mut prompt, "\n");
        assert(prompt@ =~= head + item_lines(block.items@.take(j + 1)));
        j += 1;
    }
    assert(block.items@.take(block.items@.len() as int) =~= block.items@);
    assert(prompt@ =~= user_prompt(block.items@, context.previous@));
    prompt
}

} // verus!
