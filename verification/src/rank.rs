//! The ranking engine: a pure function from a corpus snapshot, a query and
//! the options to the ranked list.
//!
//! The snapshot splits into entries at the delimiter; under the
//! case-insensitive option each entry is folded to lowercase before
//! scoring (the query is not folded, and the folded text is what the
//! ranked list carries). An entry survives when the query is empty or its
//! score lies strictly above the threshold; survivors are ordered by score
//! descending, then text length ascending, then original index ascending.

use vstd::prelude::*;

use crate::corpus::Corpus;
use crate::order::{
    all_wf, insert_item, item_le, lemma_insert_at, lemma_sort_items_props, sort_items, ItemModel,
};
use crate::score::{exceeds_threshold, score_ge, Score, Threshold};
use crate::text::texts_of;
use crate::utils::{fold_lower, lemma_spec_score_compatible, lower_of, spec_score, score_of};

verus! {

/// The immutable configuration of a session.
#[derive(Clone, Copy, Debug, PartialEq, Eq, Structural)]
pub struct Options {
    pub delimiter: char,
    pub case_insensitive: bool,
    pub threshold: Threshold,
}

impl Options {
    pub open spec fn wf(self) -> bool {
        self.threshold.wf()
    }

    /// Newline delimiter, case-sensitive matching, threshold one fifth.
    pub open spec fn default_options() -> Options {
        Options { delimiter: '\n', case_insensitive: false, threshold: Threshold { num: 1, den: 5 } }
    }
}

impl Default for Options {
    fn default() -> (r: Self)
        ensures
            r == Options::default_options(),
            r.wf(),
    {
        Options { delimiter: '\n', case_insensitive: false, threshold: Threshold { num: 1, den: 5 } }
    }
}

/// One ranked entry: the (possibly folded) text, the entry's original
/// index in the corpus, and its exact score.
#[derive(Debug, PartialEq)]
pub struct SortedListItem {
    pub text: Vec<char>,
    pub index: usize,
    pub score: Score,
}

impl SortedListItem {
    pub open spec fn model(self) -> ItemModel {
        ItemModel { original_index: self.index as int, text: self.text@, score: self.score }
    }
}

/// A ranked list, best entry first.
pub type SortedList = Vec<SortedListItem>;

/// The mathematical view of a ranked list.
pub open spec fn models(s: Seq<SortedListItem>) -> Seq<ItemModel> {
    s.map_values(|it: SortedListItem| it.model())
}

/// The text an entry is scored on and displayed as.
pub open spec fn folded(e: Seq<char>, case_insensitive: bool) -> Seq<char> {
    if case_insensitive {
        lower_of(e)
    } else {
        e
    }
}

/// Whether an entry with the given folded text survives filtering.
pub open spec fn keeps(q: Seq<char>, folded_text: Seq<char>, o: Options) -> bool {
    q.len() == 0 || o.threshold.exceeded_by(spec_score(q, folded_text))
}

/// The ranked-list item an entry produces.
pub open spec fn candidate(idx: int, q: Seq<char>, e: Seq<char>, o: Options) -> ItemModel {
    ItemModel {
        original_index: idx,
        text: folded(e, o.case_insensitive),
        score: spec_score(q, folded(e, o.case_insensitive)),
    }
}

/// The surviving entries in original order, scored and indexed.
pub open spec fn candidates(entries: Seq<Seq<char>>, q: Seq<char>, o: Options) -> Seq<ItemModel>
    decreases entries.len(),
{
    if entries.len() == 0 {
        Seq::empty()
    } else {
        let prefix = candidates(entries.drop_last(), q, o);
        if keeps(q, folded(entries.last(), o.case_insensitive), o) {
            prefix + seq![candidate(entries.len() - 1, q, entries.last(), o)]
        } else {
            prefix
        }
    }
}

/// What ranking returns: the surviving entries, sorted.
pub open spec fn spec_rank(entries: Seq<Seq<char>>, q: Seq<char>, o: Options) -> Seq<ItemModel> {
    sort_items(candidates(entries, q, o))
}

/// Lengths under which ranking these entries is meaningful: every text a
/// score is computed over is short enough to exist in memory. Entries
/// and queries held in executable vectors always satisfy this.
pub open spec fn rank_input_valid(entries: Seq<Seq<char>>, q: Seq<char>, o: Options) -> bool {
    &&& q.len() <= usize::MAX
    &&& forall|k: int|
        0 <= k < entries.len() ==> folded(#[trigger] entries[k], o.case_insensitive).len()
            <= usize::MAX
}

/// Every candidate of a valid input carries a well-formed score.
pub proof fn lemma_candidates_wf(entries: Seq<Seq<char>>, q: Seq<char>, o: Options)
    requires
        rank_input_valid(entries, q, o),
    ensures
        all_wf(candidates(entries, q, o)),
    decreases entries.len(),
{
    if entries.len() > 0 {
        let head = entries.drop_last();
        assert(rank_input_valid(head, q, o)) by {
            assert(forall|k: int| 0 <= k < head.len() ==> head[k] == entries[k]);
        }
        lemma_candidates_wf(head, q, o);
        crate::utils::lemma_spec_score_wf(q, folded(entries.last(), o.case_insensitive));
        let prefix = candidates(head, q, o);
        let c = candidates(entries, q, o);
        assert forall|k: int| 0 <= k < c.len() implies (#[trigger] c[k]).score.wf() by {
            if k < prefix.len() {
                assert(c[k] == prefix[k]);
            }
        }
    }
}

/// Candidate indices are the positions of surviving entries: all below
/// the entry count, and pairwise distinct.
pub proof fn lemma_candidates_indices(entries: Seq<Seq<char>>, q: Seq<char>, o: Options)
    ensures
        forall|k: int|
            0 <= k < candidates(entries, q, o).len() ==> 0 <= (#[trigger] candidates(
                entries,
                q,
                o,
            )[k]).original_index < entries.len(),
        crate::order::distinct_indices(candidates(entries, q, o)),
    decreases entries.len(),
{
    if entries.len() > 0 {
        let head = entries.drop_last();
        lemma_candidates_indices(head, q, o);
        let prefix = candidates(head, q, o);
        let c = candidates(entries, q, o);
        assert forall|k: int| 0 <= k < c.len() implies 0 <= (#[trigger] c[k]).original_index
            < entries.len() by {
            if k < prefix.len() {
                assert(c[k] == prefix[k]);
            }
        }
        assert forall|i: int, j: int|
            0 <= i < c.len() && 0 <= j < c.len() && i != j implies (#[trigger] c[i]).original_index
            != (#[trigger] c[j]).original_index by {
            if i < prefix.len() && j < prefix.len() {
            } else if i < prefix.len() {
                assert(c[i] == prefix[i]);
                assert(c[j].original_index == entries.len() - 1);
            } else {
                assert(c[j] == prefix[j]);
                assert(c[i].original_index == entries.len() - 1);
            }
        }
    }
}

/// `a` may stand at or before `b`, decided executably.
fn item_precedes(a: &SortedListItem, b: &SortedListItem) -> (r: bool)
    requires
        a.score.wf(),
        b.score.wf(),
        a.score.compatible(b.score),
    ensures
        r == item_le(a.model(), b.model()),
{
    let b_ge_a = score_ge(&b.score, &a.score);
    if !b_ge_a {
        true
    } else {
        let a_ge_b = score_ge(&a.score, &b.score);
        if a_ge_b {
            if a.text.len() < b.text.len() {
                true
            } else if a.text.len() == b.text.len() {
                a.index <= b.index
            } else {
                false
            }
        } else {
            false
        }
    }
}

/// Insertion sort under the ranking order; items must come from one
/// ranking pass, so their scores are mutually comparable.
fn sort_list(items: Vec<SortedListItem>) -> (r: Vec<SortedListItem>)
    requires
        all_wf(models(items@)),
        forall|k: int, l: int|
            0 <= k < items@.len() && 0 <= l < items@.len()
                ==> models(items@)[k].score.compatible(models(items@)[l].score),
    ensures
        models(r@) == sort_items(models(items@)),
{
    broadcast use vstd::seq_lib::group_to_multiset_ensures;

    let ghost orig = models(items@);
    let mut items = items;
    let mut out: Vec<SortedListItem> = Vec::new();
    let ghost mut done: int = 0;
    proof {
        assert(models(out@) =~= sort_items(orig.take(0)));
        assert(models(items@) =~= orig.skip(0));
    }
    while items.len() > 0
        invariant
            0 <= done <= orig.len(),
            models(items@) == orig.skip(done),
            models(out@) == sort_items(orig.take(done)),
            items@.len() == orig.len() - done,
            all_wf(orig),
            forall|k: int, l: int|
                0 <= k < orig.len() && 0 <= l < orig.len()
                    ==> orig[k].score.compatible(orig[l].score),
        decreases items@.len(),
    {
        let ghost out_models = models(out@);
        let ghost prefix = orig.take(done);
        proof {
            assert(all_wf(prefix)) by {
                assert(forall|k: int| 0 <= k < prefix.len() ==> prefix[k] == orig[k]);
            }
            lemma_sort_items_props(prefix);
        }
        let ghost items_before = items@;
        let x = items.remove(0);
        proof {
            assert(items@ =~= items_before.skip(1));
            assert(x.model() == orig.skip(done)[0]);
            assert(orig.skip(done)[0] == orig[done]);
            assert forall|p: int| 0 <= p < models(items@).len() implies models(items@)[p]
                == orig.skip(done + 1)[p] by {
                assert(models(items@)[p] == items_before.skip(1)[p].model());
                assert(items_before.skip(1)[p] == items_before[p + 1]);
                assert(models(items_before)[p + 1] == orig.skip(done)[p + 1]);
            }
            assert(models(items@) =~= orig.skip(done + 1));
            assert(x.model().score.wf());
            // every sorted element comes from the prefix, so it is
            // comparable with the next item
            assert forall|k: int| 0 <= k < out_models.len() implies {
                &&& (#[trigger] out_models[k]).score.wf()
                &&& out_models[k].score.compatible(x.model().score)
                &&& x.model().score.compatible(out_models[k].score)
            } by {
                broadcast use vstd::seq_lib::group_to_multiset_ensures;

                assert(out_models.contains(out_models[k]));
                assert(out_models.to_multiset().count(out_models[k]) > 0);
                assert(prefix.to_multiset().count(out_models[k]) > 0);
                assert(prefix.contains(out_models[k]));
                let m = choose|m: int| 0 <= m < prefix.len() && prefix[m] == out_models[k];
                assert(prefix[m] == orig[m]);
            }
        }
        let mut j: usize = 0;
        loop
            invariant
                0 <= j <= out@.len(),
                models(out@) == out_models,
                forall|k: int| 0 <= k < j ==> !item_le(x.model(), #[trigger] out_models[k]),
                x.score.wf(),
                forall|k: int| 0 <= k < out_models.len() ==> {
                    &&& (#[trigger] out_models[k]).score.wf()
                    &&& x.model().score.compatible(out_models[k].score)
                },
            ensures
                0 <= j <= out@.len(),
                models(out@) == out_models,
                forall|k: int| 0 <= k < j ==> !item_le(x.model(), #[trigger] out_models[k]),
                j < out@.len() ==> item_le(x.model(), out_models[j as int]),
            decreases out@.len() - j,
        {
            if j == out.len() {
                break;
            }
            proof {
                assert(out_models[j as int].score.wf());
                assert(x.model().score.compatible(out_models[j as int].score));
            }
            if item_precedes(&x, &out[j]) {
                break;
            }
            j += 1;
        }
        proof {
            lemma_insert_at(x.model(), out_models, j as int);
        }
        out.insert(j, x);
        proof {
            assert(models(out@) =~= out_models.insert(j as int, x.model()));
            let next = orig.take(done + 1);
            assert(next.drop_last() =~= prefix);
            assert(next.last() == orig[done]);
            assert(models(out@) == insert_item(orig[done], sort_items(prefix)));
            done = done + 1;
        }
    }
    proof {
        assert(orig.take(done) =~= orig);
    }
    out
}

/// Ranks a corpus snapshot against a query: a pure function of the
/// snapshot's entries, the query and the options. The result is exactly
/// the surviving entries, sorted under the ranking order.
pub fn rank(snapshot: &Corpus, query: &Vec<char>, options: &Options) -> (r: SortedList)
    requires
        options.wf(),
    ensures
        models(r@) == spec_rank(snapshot.entries(options.delimiter), query@, *options),
{
    let parts = snapshot.split(options.delimiter);
    let ghost entries = texts_of(parts@);
    let mut cands: Vec<SortedListItem> = Vec::new();
    let n = parts.len();
    proof {
        assert(models(cands@) =~= candidates(entries.take(0), query@, *options));
    }
    for i in 0..n
        invariant
            n == parts@.len(),
            entries == texts_of(parts@),
            options.wf(),
            models(cands@) == candidates(entries.take(i as int), query@, *options),
            forall|k: int| 0 <= k < cands@.len()
                ==> (#[trigger] models(cands@)[k]).score
                    == spec_score(query@, models(cands@)[k].text),
            all_wf(models(cands@)),
    {
        let ghost old_models = models(cands@);
        let entry = &parts[i];
        let text: Vec<char> = if options.case_insensitive {
            fold_lower(entry)
        } else {
            let t = entry.clone();
            proof {
                assert(t@ =~= entry@);
            }
            t
        };
        proof {
            assert(text@ == folded(entries[i as int], options.case_insensitive));
        }
        let score = score_of(query, &text);
        let keep = if query.len() == 0 {
            true
        } else {
            exceeds_threshold(&score, &options.threshold)
        };
        proof {
            assert(keep == keeps(query@, text@, *options));
        }
        if keep {
            let item = SortedListItem { text, index: i, score };
            proof {
                assert(item.model() == candidate(i as int, query@, entries[i as int], *options));
            }
            cands.push(item);
            proof {
                assert(models(cands@) =~= old_models.push(item.model()));
            }
        }
        proof {
            let next = entries.take(i + 1);
            assert(next.drop_last() =~= entries.take(i as int));
            assert(next.last() == entries[i as int]);
            if keep {
                assert(models(cands@) =~= candidates(next, query@, *options));
            } else {
                assert(models(cands@) == candidates(next, query@, *options));
            }
        }
    }
    proof {
        assert(entries.take(n as int) =~= entries);
        let ms = models(cands@);
        assert forall|k: int, l: int|
            0 <= k < cands@.len() && 0 <= l < cands@.len() implies ms[k].score.compatible(
            ms[l].score) by {
            lemma_spec_score_compatible(query@, ms[k].text, ms[l].text);
        }
    }
    sort_list(cands)
}

} // verus!
