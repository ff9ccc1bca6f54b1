//! The two scoring rules.
//!
//! A query of one or two characters is scored by containment: each query
//! character contributes every occurrence it has in the entry, and the
//! score is `1 - query_len / match_count`, normalised to zero when the raw
//! value would leave [0, 1]. A query of three or more characters is scored
//! by trigram similarity: the count of its padded three-character windows
//! that occur in the entry, over the query's window count. An empty query
//! scores zero.

use vstd::prelude::*;

use crate::score::{Score, MATCH_COUNT_MAX};
use crate::text::{
    entry_has_window, lemma_match_count_bound, lemma_shared_window_count_bound, match_count,
    match_count_of, shared_window_count, shared_windows, window_at, windows_eq,
};

verus! {

/// The lowercase form of a text, as `str::to_lowercase` produces it. Its
/// value on given characters is not axiomatised here; contracts that
/// depend on folding speak of this name.
pub uninterp spec fn lower_of(s: Seq<char>) -> Seq<char>;

/// Relies on str::to_lowercase: the lowercase form of a text depends on
/// its characters alone, so equal inputs fold equally.
#[verifier::external_body]
pub(crate) fn fold_lower(v: &Vec<char>) -> (r: Vec<char>)
    ensures
        r@ == lower_of(v@),
{
    let s: String = v.iter().collect();
    s.to_lowercase().chars().collect()
}

/// The containment score of query `q` against entry `e`.
pub open spec fn spec_containment_score(q: Seq<char>, e: Seq<char>) -> Score {
    let mc = match_count(q, e);
    if mc >= q.len() {
        Score::Containment { match_count: mc as u128, query_len: q.len() as u128 }
    } else {
        Score::Zero
    }
}

/// The trigram score of query `q` against entry `e`.
pub open spec fn spec_trigram_score(q: Seq<char>, e: Seq<char>) -> Score {
    Score::Trigram {
        shared: shared_windows(q, e) as u128,
        window_count: (q.len() + 1) as u128,
    }
}

/// The score of an entry against a query: zero for an empty query,
/// containment below three query characters, trigram similarity from
/// three on.
pub open spec fn spec_score(q: Seq<char>, e: Seq<char>) -> Score {
    if q.len() == 0 {
        Score::Zero
    } else if q.len() < 3 {
        spec_containment_score(q, e)
    } else {
        spec_trigram_score(q, e)
    }
}

/// Scores of one query are mutually comparable whatever the entries.
pub proof fn lemma_spec_score_compatible(q: Seq<char>, e1: Seq<char>, e2: Seq<char>)
    ensures
        spec_score(q, e1).compatible(spec_score(q, e2)),
{
}

/// On texts short enough to exist in memory, the scoring rules produce
/// well-formed scores.
pub proof fn lemma_spec_score_wf(q: Seq<char>, e: Seq<char>)
    requires
        q.len() <= usize::MAX,
        e.len() <= usize::MAX,
    ensures
        spec_score(q, e).wf(),
{
    assert(usize::MAX <= 0xffff_ffff_ffff_ffffu64);
    if q.len() == 0 {
    } else if q.len() < 3 {
        lemma_match_count_bound(q, e);
        let m = e.len() as int;
        assert(q.len() * m <= 2 * m) by (nonlinear_arith)
            requires
                0 <= m,
                q.len() <= 2,
        ;
        assert(2 * m <= MATCH_COUNT_MAX) by (nonlinear_arith)
            requires
                0 <= m <= 0xffff_ffff_ffff_ffffu128,
        ;
    } else {
        lemma_shared_window_count_bound(q, e, q.len() as int + 1);
    }
}

/// The padded three-character windows of a text, in order.
pub fn trigrams(s: &Vec<char>) -> (r: Vec<Vec<char>>)
    requires
        s@.len() < usize::MAX,
    ensures
        r@.len() == s@.len() + 1,
        forall|i: int| 0 <= i < r@.len() ==> #[trigger] r@[i]@ == window_at(s@, i),
{
    let n = s.len();
    let mut r: Vec<Vec<char>> = Vec::new();
    for i in 0..(n + 1)
        invariant
            n == s@.len(),
            n < usize::MAX,
            r@.len() == i,
            forall|k: int| 0 <= k < i ==> #[trigger] r@[k]@ == window_at(s@, k),
    {
        let mut w: Vec<char> = Vec::new();
        w.push(crate::text::window_char_at(s, i, 2));
        w.push(crate::text::window_char_at(s, i, 1));
        w.push(crate::text::window_char_at(s, i, 0));
        proof {
            assert(w@ =~= window_at(s@, i as int));
        }
        r.push(w);
    }
    r
}

/// How many of `a`'s windows occur somewhere in `b`, each counted once.
fn shared_windows_of(a: &Vec<char>, b: &Vec<char>) -> (r: u128)
    ensures
        r == shared_windows(a@, b@),
{
    let na = a.len();
    let nb = b.len();
    let mut shared: u128 = 0;
    let mut i: usize = 0;
    loop
        invariant_except_break
            shared == shared_window_count(a@, b@, i as int),
            shared <= i,
            i <= na,
        invariant
            na == a@.len(),
            nb == b@.len(),
        ensures
            shared == shared_windows(a@, b@),
        decreases na - i,
    {
        let mut found = false;
        let mut j: usize = 0;
        loop
            invariant_except_break
                j <= nb,
                found == exists|j0: int|
                    0 <= j0 < j && window_at(b@, j0) == window_at(a@, i as int),
            invariant
                na == a@.len(),
                nb == b@.len(),
            ensures
                found == entry_has_window(b@, window_at(a@, i as int)),
            decreases nb - j,
        {
            if windows_eq(a, i, b, j) {
                found = true;
            }
            if j == nb {
                proof {
                    if found {
                        assert(entry_has_window(b@, window_at(a@, i as int)));
                    } else {
                        assert(forall|j0: int|
                            0 <= j0 <= b@.len()
                                ==> window_at(b@, j0) != window_at(a@, i as int));
                    }
                }
                break;
            }
            j += 1;
        }
        if found {
            shared += 1;
        }
        if i == na {
            proof {
                assert(shared == shared_window_count(a@, b@, na as int + 1));
            }
            break;
        }
        i += 1;
    }
    shared
}

/// The trigram score of `a` against `b`: shared windows over `a`'s window
/// count, a value in [0, 1] by construction.
pub fn trigram_fuzzy_compare(a: &Vec<char>, b: &Vec<char>) -> (r: Score)
    ensures
        r == spec_trigram_score(a@, b@),
        r.wf(),
{
    let shared = shared_windows_of(a, b);
    let n = a.len();
    proof {
        lemma_shared_window_count_bound(a@, b@, a@.len() as int + 1);
    }
    Score::Trigram { shared, window_count: (n as u128) + 1 }
}

/// The containment score of `a` against `b`: a match count below the query
/// length leaves [0, 1] after normalisation and maps to zero.
pub fn contains_fuzzy_search(a: &Vec<char>, b: &Vec<char>) -> (r: Score)
    requires
        1 <= a@.len() <= 2,
    ensures
        r == spec_containment_score(a@, b@),
        r.wf(),
{
    let mc = match_count_of(a, b);
    let len = a.len() as u128;
    let entry_len = b.len();
    proof {
        lemma_match_count_bound(a@, b@);
        let m = entry_len as int;
        assert(a@.len() * m <= 2 * m) by (nonlinear_arith)
            requires
                0 <= m,
                a@.len() <= 2,
        ;
        assert(2 * m <= MATCH_COUNT_MAX) by (nonlinear_arith)
            requires
                0 <= m <= 0xffff_ffff_ffff_ffffu128,
        ;
    }
    if mc >= len {
        Score::Containment { match_count: mc, query_len: len }
    } else {
        Score::Zero
    }
}

/// The score of `entry` against `query` under the applicable rule.
pub fn score_of(query: &Vec<char>, entry: &Vec<char>) -> (r: Score)
    ensures
        r == spec_score(query@, entry@),
        r.wf(),
{
    let n = query.len();
    if n == 0 {
        Score::Zero
    } else if n < 3 {
        contains_fuzzy_search(query, entry)
    } else {
        trigram_fuzzy_compare(query, entry)
    }
}

} // verus!
