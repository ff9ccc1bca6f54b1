//! The library's laws, stated and proved over the same specifications its
//! functions promise in their contracts.

use vstd::prelude::*;

use crate::order::{distinct_indices, items_sorted, lemma_distinct_preserved,
    lemma_sort_items_props, ItemModel};
use crate::rank::{candidates, lemma_candidates_indices, lemma_candidates_wf, rank_input_valid,
    spec_rank, Options};
use crate::score::lemma_wf_in_unit;

verus! {

/// Ranking is a pure function of the entries, the query and the options:
/// any two ranked lists of the same inputs are equal, so ranking an
/// unchanged snapshot twice can never produce a different list.
pub proof fn lemma_rank_deterministic(
    entries: Seq<Seq<char>>,
    q: Seq<char>,
    o: Options,
    r1: Seq<ItemModel>,
    r2: Seq<ItemModel>,
)
    requires
        r1 == spec_rank(entries, q, o),
        r2 == spec_rank(entries, q, o),
    ensures
        r1 == r2,
{
}

/// Every score a ranked list carries lies in [0, 1]: a positive
/// denominator and a numerator between zero and it. A raw containment
/// value outside that range never reaches the list — the scoring rule
/// normalises it to zero first.
pub proof fn lemma_rank_scores_in_unit(entries: Seq<Seq<char>>, q: Seq<char>, o: Options)
    requires
        rank_input_valid(entries, q, o),
    ensures
        forall|k: int|
            0 <= k < spec_rank(entries, q, o).len() ==> {
                let s = (#[trigger] spec_rank(entries, q, o)[k]).score;
                &&& 1 <= s.den()
                &&& 0 <= s.num() <= s.den()
            },
{
    lemma_candidates_wf(entries, q, o);
    lemma_sort_items_props(candidates(entries, q, o));
    let r = spec_rank(entries, q, o);
    assert forall|k: int| 0 <= k < r.len() implies {
        let s = (#[trigger] r[k]).score;
        &&& 1 <= s.den()
        &&& 0 <= s.num() <= s.den()
    } by {
        lemma_wf_in_unit(r[k].score);
    }
}

/// The ranked list is exactly the surviving entries — the same items, as
/// a multiset — ordered by the ranking order: score descending, then
/// text length ascending, then original index ascending.
pub proof fn lemma_rank_sorted_permutation(entries: Seq<Seq<char>>, q: Seq<char>, o: Options)
    requires
        rank_input_valid(entries, q, o),
    ensures
        items_sorted(spec_rank(entries, q, o)),
        spec_rank(entries, q, o).to_multiset() == candidates(entries, q, o).to_multiset(),
        spec_rank(entries, q, o).len() == candidates(entries, q, o).len(),
{
    lemma_candidates_wf(entries, q, o);
    lemma_sort_items_props(candidates(entries, q, o));
}

/// A ranked list never repeats an original index.
pub proof fn lemma_rank_distinct_indices(entries: Seq<Seq<char>>, q: Seq<char>, o: Options)
    requires
        rank_input_valid(entries, q, o),
    ensures
        distinct_indices(spec_rank(entries, q, o)),
{
    lemma_candidates_wf(entries, q, o);
    lemma_candidates_indices(entries, q, o);
    lemma_sort_items_props(candidates(entries, q, o));
    lemma_distinct_preserved(candidates(entries, q, o), spec_rank(entries, q, o));
}

/// The tie-break law: of two ranked entries with equal score, the one
/// with the shorter text stands first; with equal score and equal length,
/// the one with the smaller original index stands first.
pub proof fn lemma_rank_tie_break(
    entries: Seq<Seq<char>>,
    q: Seq<char>,
    o: Options,
    i: int,
    j: int,
)
    requires
        rank_input_valid(entries, q, o),
        0 <= i < j < spec_rank(entries, q, o).len(),
        spec_rank(entries, q, o)[i].score.same_value(spec_rank(entries, q, o)[j].score),
    ensures
        spec_rank(entries, q, o)[i].text.len() < spec_rank(entries, q, o)[j].text.len()
            || (spec_rank(entries, q, o)[i].text.len() == spec_rank(entries, q, o)[j].text.len()
            && spec_rank(entries, q, o)[i].original_index < spec_rank(
            entries,
            q,
            o,
        )[j].original_index),
{
    lemma_rank_sorted_permutation(entries, q, o);
    lemma_rank_distinct_indices(entries, q, o);
    let r = spec_rank(entries, q, o);
    assert(crate::order::item_le(r[i], r[j]));
    assert(!r[i].score.gt(r[j].score));
}

/// The append-only law: appending entries extends the sequence, leaving
/// every existing position in place.
pub proof fn lemma_append_extends(before: Seq<Seq<char>>, added: Seq<Seq<char>>)
    ensures
        before.is_prefix_of(before + added),
{
    assert(before =~= (before + added).subrange(0, before.len() as int));
}

/// A previously valid original index resolves to the same text in any
/// later corpus: prefixes preserve their entries.
pub proof fn lemma_original_index_stable(before: Seq<Seq<char>>, after: Seq<Seq<char>>, i: int)
    requires
        before.is_prefix_of(after),
        0 <= i < before.len(),
    ensures
        after[i] == before[i],
{
    assert(before[i] == after.subrange(0, before.len() as int)[i]);
}

/// Prefix extension composes, so index stability holds across any
/// sequence of appends.
pub proof fn lemma_prefix_trans(a: Seq<Seq<char>>, b: Seq<Seq<char>>, c: Seq<Seq<char>>)
    requires
        a.is_prefix_of(b),
        b.is_prefix_of(c),
    ensures
        a.is_prefix_of(c),
{
    assert forall|i: int| 0 <= i < a.len() implies a[i] == c.subrange(0, a.len() as int)[i] by {
        assert(a[i] == b.subrange(0, a.len() as int)[i]);
        assert(b[i] == c.subrange(0, b.len() as int)[i]);
    }
    assert(a =~= c.subrange(0, a.len() as int));
}

} // verus!
