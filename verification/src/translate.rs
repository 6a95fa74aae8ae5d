//! The block-by-block translation of one video, as a state that the (asynchronous) HTTP
//! loop drives: which blocks still need a request, the context each request carries, and
//! what a validated response changes.
use crate::artifacts::{same_ids, stored_matches, BlockTranslation};
use crate::blocks::{context_ids, item_ids, Block, BlockContext, BlockItem};
use crate::deepseek::TranslatedBlock;
use crate::text::{join, join_strings, views};
use crate::validate::{fidelity_gaps, glossary_view, TranslationItem};
use std::collections::BTreeMap;
use vstd::prelude::*;

verus! {

/// `(id, text)` pairs: the i-th id with the i-th text.
pub open spec fn pairs_of(ids: Seq<usize>, texts: Seq<Seq<char>>) -> Seq<(usize, Seq<char>)> {
    Seq::new(ids.len(), |i: int| (ids[i], texts[i]))
}

/// Writes each text at its id, in order (later pairs win); ids past the end are ignored.
pub open spec fn apply_pairs(t: Seq<Seq<char>>, pairs: Seq<(usize, Seq<char>)>) -> Seq<Seq<char>>
    decreases pairs.len(),
{
    if pairs.len() == 0 {
        t
    } else {
        let prev = apply_pairs(t, pairs.drop_last());
        let (id, text) = pairs.last();
        if id < prev.len() {
            prev.update(id as int, text)
        } else {
            prev
        }
    }
}

/// The translations known before any request: the texts of every stored entry that
/// matches its planned block, in plan order.
pub open spec fn seeded(t: Seq<Seq<char>>, plan: Seq<Block>, m: Map<usize, BlockTranslation>) -> Seq<
    Seq<char>,
>
    decreases plan.len(),
{
    if plan.len() == 0 {
        t
    } else {
        let prev = seeded(t, plan.drop_last(), m);
        let b = plan.last();
        if stored_matches(m, b) {
            apply_pairs(prev, pairs_of(m[b.index].ids@, views(m[b.index].zh@)))
        } else {
            prev
        }
    }
}

/// `n` empty translations.
pub open spec fn no_translations(n: nat) -> Seq<Seq<char>> {
    Seq::new(n, |i: int| Seq::<char>::empty())
}

/// The ids of response items.
pub open spec fn response_ids(items: Seq<TranslationItem>) -> Seq<usize> {
    items.map_values(|it: TranslationItem| it.id)
}

/// The texts of response items.
pub open spec fn response_texts(items: Seq<TranslationItem>) -> Seq<Seq<char>> {
    items.map_values(|it: TranslationItem| it.zh@)
}

/// The source texts of block items.
pub open spec fn item_texts(items: Seq<BlockItem>) -> Seq<Seq<char>> {
    items.map_values(|it: BlockItem| it.text@)
}

proof fn lemma_apply_pairs_len(t: Seq<Seq<char>>, pairs: Seq<(usize, Seq<char>)>)
    ensures
        apply_pairs(t, pairs).len() == t.len(),
    decreases pairs.len(),
{
    if pairs.len() > 0 {
        lemma_apply_pairs_len(t, pairs.drop_last());
    }
}

proof fn lemma_seeded_len(t: Seq<Seq<char>>, plan: Seq<Block>, m: Map<usize, BlockTranslation>)
    ensures
        seeded(t, plan, m).len() == t.len(),
    decreases plan.len(),
{
    if plan.len() > 0 {
        lemma_seeded_len(t, plan.drop_last(), m);
        let b = plan.last();
        if stored_matches(m, b) {
            lemma_apply_pairs_len(
                seeded(t, plan.drop_last(), m),
                pairs_of(m[b.index].ids@, views(m[b.index].zh@)),
            );
        }
    }
}

/// The translation state of one video.
pub struct TranslationRun {
    translations: Vec<String>,
}

/// Writes `texts[i]` at `ids[i]` for each `i` (see [`apply_pairs`]).
fn apply_texts(translations: &mut Vec<String>, ids: &Vec<usize>, texts: &Vec<String>)
    requires
        ids@.len() == texts@.len(),
    ensures
        views(final(translations)@) == apply_pairs(
            views(old(translations)@),
            pairs_of(ids@, views(texts@)),
        ),
{
    let ghost start = views(translations@);
    let ghost all = pairs_of(ids@, views(texts@));
    let mut i: usize = 0;
    while i < ids.len()
        invariant
            i <= ids@.len(),
            ids@.len() == texts@.len(),
            all == pairs_of(ids@, views(texts@)),
            views(translations@) == apply_pairs(start, all.take(i as int)),
        decreases ids@.len() - i,
    {
        let id = ids[i];
        proof {
            assert(all.take(i + 1).drop_last() =~= all.take(i as int));
            assert(all.take(i + 1).last() == (id, texts@[i as int]@));
            lemma_apply_pairs_len(start, all.take(i as int));
        }
        if id < translations.len() {
            let ghost before = translations@;
            translations.set(id, texts[i].clone());
            assert(views(translations@) =~= views(before).update(id as int, texts@[i as int]@));
        }
        i += 1;
    }
    assert(all.take(ids@.len() as int) =~= all);
}

impl TranslationRun {
    /// The translation of every paragraph so far (empty where none is known).
    pub closed spec fn texts(&self) -> Seq<Seq<char>> {
        views(self.translations@)
    }

    /// Starts a run over `paragraph_count` paragraphs, seeded with the texts of the stored
    /// entries that match their planned blocks.
    pub fn new(
        paragraph_count: usize,
        plan: &[Block],
        blocks: &BTreeMap<usize, BlockTranslation>,
    ) -> (r: Self)
        ensures
            r.texts() == seeded(no_translations(paragraph_count as nat), plan@, blocks@),
            r.texts().len() == paragraph_count,
    {
        let mut translations: Vec<String> = Vec::new();
        let mut k: usize = 0;
        while k < paragraph_count
            invariant
                k <= paragraph_count,
                views(translations@) == no_translations(k as nat),
            decreases paragraph_count - k,
        {
            let empty = String::new();
            let ghost before = translations@;
            translations.push(empty);
            assert(views(translations@) =~= views(before).push(Seq::<char>::empty()));
            assert(views(translations@) =~= no_translations((k + 1) as nat));
            k += 1;
        }
        let ghost start = views(translations@);
        let mut i: usize = 0;
        while i < plan.len()
            invariant
                i <= plan@.len(),
                start == no_translations(paragraph_count as nat),
                views(translations@) == seeded(start, plan@.take(i as int), blocks@),
            decreases plan@.len() - i,
        {
            let block = &plan[i];
            assert(plan@.take(i + 1).drop_last() =~= plan@.take(i as int));
            assert(plan@.take(i + 1).last() == *block);
            match blocks.get(&block.index) {
                Some(stored) => {
                    let ids = block.ids();
                    if same_ids(&stored.ids, &ids) && stored.zh.len() == stored.ids.len() {
                        apply_texts(&mut translations, &stored.ids, &stored.zh);
                    }
                },
                None => {},
            }
            i += 1;
        }
        assert(plan@.take(plan@.len() as int) =~= plan@);
        proof {
            lemma_seeded_len(start, plan@, blocks@);
        }
        TranslationRun { translations }
    }

    /// The translations so far, indexed by paragraph id.
    pub fn translations(&self) -> (r: &[String])
        ensures
            views(r@) == self.texts(),
    {
        self.translations.as_slice()
    }

    /// Whether `block` still needs a request: its stored entry is missing or does not
    /// match it.
    pub fn is_pending(block: &Block, blocks: &BTreeMap<usize, BlockTranslation>) -> (r: bool)
        ensures
            r == !stored_matches(blocks@, *block),
    {
        match blocks.get(&block.index) {
            Some(stored) => {
                let ids = block.ids();
                !(same_ids(&stored.ids, &ids) && stored.zh.len() == stored.ids.len())
            },
            None => true,
        }
    }

    /// The context sent with `block`: the last paragraphs before it with their current
    /// translations.
    pub fn context_for(&self, block: &Block, paragraphs: &[String]) -> (r: BlockContext)
        ensures
            ({
                let ids = context_ids(
                    block.paragraph_range.start as int,
                    paragraphs@.len() as int,
                    self.texts().len() as int,
                );
                &&& r.previous@.len() == ids.len()
                &&& forall|k: int|
                    0 <= k < ids.len() ==> (#[trigger] r.previous@[k]).source@ == paragraphs@[ids[k]]@
                        && r.previous@[k].translation@ == self.texts()[ids[k]]
            }),
    {
        let r = BlockContext::before(block, paragraphs, self.translations.as_slice());
        proof {
            let ids = context_ids(
                block.paragraph_range.start as int,
                paragraphs@.len() as int,
                self.translations@.len() as int,
            );
            assert(self.texts().len() == self.translations@.len());
            let start = block.paragraph_range.start as int;
            let lo = if start >= 2 {
                start - 2
            } else {
                0
            };
            let all = Seq::new((start - lo) as nat, |k: int| lo + k);
            let keep = |id: int| 0 <= id && id < paragraphs@.len() as int && id < self.translations@.len() as int;
            assert(ids == all.filter(keep));
            assert forall|k: int| 0 <= k < ids.len() implies r.previous@[k].translation@
                == self.texts()[ids[k]] by {
                all.lemma_filter_pred(keep, k);
                assert(0 <= ids[k]);
                assert(r.previous@[k].translation@ == self.translations@[ids[k]]@);
            }
        }
        r
    }

    /// Takes in the validated translation of `block`: its texts become the current
    /// translations of their ids, the entry is stored under the block index (replacing
    /// any older one), and the numbers of the block's source that the translation lost
    /// are returned (an advisory check).
    pub fn record(
        &mut self,
        block: &Block,
        translated: &TranslatedBlock,
        blocks: &mut BTreeMap<usize, BlockTranslation>,
        glossary: &[(String, String)],
    ) -> (missing: Vec<String>)
        ensures
            final(self).texts() == apply_pairs(
                old(self).texts(),
                pairs_of(response_ids(translated.items@), response_texts(translated.items@)),
            ),
            final(blocks)@.dom() == old(blocks)@.dom().insert(block.index),
            forall|k: usize|
                k != block.index && #[trigger] old(blocks)@.contains_key(k) ==> final(blocks)@[k]
                    == old(blocks)@[k],
            final(blocks)@[block.index].ids@ == response_ids(translated.items@),
            views(final(blocks)@[block.index].zh@) == response_texts(translated.items@),
            final(blocks)@[block.index].usage == translated.usage,
            response_ids(translated.items@) == item_ids(block.items@) ==> stored_matches(
                final(blocks)@,
                *block,
            ),
            views(missing@) == fidelity_gaps(
                join(item_texts(block.items@), " "@),
                join(response_texts(translated.items@), " "@),
                glossary_view(glossary@),
            ),
    {
        let items = &translated.items;
        let mut ids: Vec<usize> = Vec::new();
        let mut zh: Vec<String> = Vec::new();
        let mut i: usize = 0;
        while i < items.len()
            invariant
                i <= items@.len(),
                ids@ == response_ids(items@.take(i as int)),
                views(zh@) == response_texts(items@.take(i as int)),
            decreases items@.len() - i,
        {
            ids.push(items[i].id);
            zh.push(items[i].zh.clone());
            assert(response_ids(items@.take(i + 1)) =~= response_ids(items@.take(i as int)).push(
                items@[i as int].id,
            ));
            assert(response_texts(items@.take(i + 1)) =~= response_texts(
                items@.take(i as int),
            ).push(items@[i as int].zh@));
            assert(views(zh@) =~= response_texts(items@.take(i + 1)));
            i += 1;
        }
        assert(items@.take(items@.len() as int) =~= items@);
        apply_texts(&mut self.translations, &ids, &zh);

        let mut sources: Vec<String> = Vec::new();
        let mut j: usize = 0;
        while j < block.items.len()
            invariant
                j <= block.items@.len(),
                views(sources@) == item_texts(block.items@.take(j as int)),
            decreases block.items@.len() - j,
        {
            let ghost before = sources@;
            sources.push(block.items[j].text.clone());
            assert(views(sources@) =~= views(before).push(block.items@[j as int].text@));
            assert(item_texts(block.items@.take(j + 1)) =~= item_texts(block.items@.take(j as int)).push(
                block.items@[j as int].text@,
            ));
            j += 1;
        }
        assert(block.items@.take(block.items@.len() as int) =~= block.items@);
        let source = join_strings(&sources, " ");
        let target = join_strings(&zh, " ");
        let missing = crate::validate::check_numeric_fidelity(
            source.as_str(),
            target.as_str(),
            glossary,
        );
        let ghost zh_view = zh@;
        let ghost ids_view = ids@;
        blocks.insert(block.index, BlockTranslation { ids, zh, usage: translated.usage });
        proof {
            assert(final(blocks)@.dom() =~= old(blocks)@.dom().insert(block.index));
        }
        missing
    }
}

} // verus!
