//! The ranking order and its sort.
//!
//! Ranked entries are ordered by score descending; entries of equal score
//! by text length ascending; entries of equal score and length by original
//! index ascending. On the distinct original indices a ranking pass
//! produces, this order is a strict total order, so the sorted list is
//! unique and ranking is deterministic.

use vstd::prelude::*;

use vstd::seq_lib::lemma_multiset_commutative;

use crate::score::{
    lemma_frac_ge_gt_trans, lemma_frac_ge_trans, lemma_frac_gt_ge_trans, Score,
};

verus! {

/// The mathematical view of one ranked entry.
pub ghost struct ItemModel {
    pub original_index: int,
    pub text: Seq<char>,
    pub score: Score,
}

/// `a` may stand at or before `b` in a ranked list.
pub open spec fn item_le(a: ItemModel, b: ItemModel) -> bool {
    ||| a.score.gt(b.score)
    ||| (a.score.same_value(b.score) && (a.text.len() < b.text.len() || (a.text.len()
        == b.text.len() && a.original_index <= b.original_index)))
}

/// The list is ordered by `item_le`.
pub open spec fn items_sorted(s: Seq<ItemModel>) -> bool {
    forall|i: int, j: int| 0 <= i < j < s.len() ==> item_le(s[i], s[j])
}

/// Every element carries a well-formed score.
pub open spec fn all_wf(s: Seq<ItemModel>) -> bool {
    forall|k: int| 0 <= k < s.len() ==> (#[trigger] s[k]).score.wf()
}

/// No two elements share an original index.
pub open spec fn distinct_indices(s: Seq<ItemModel>) -> bool {
    forall|i: int, j: int|
        0 <= i < s.len() && 0 <= j < s.len() && i != j
            ==> (#[trigger] s[i]).original_index != (#[trigger] s[j]).original_index
}

/// Any two items with well-formed scores are comparable.
pub proof fn lemma_item_le_total(a: ItemModel, b: ItemModel)
    requires
        a.score.wf(),
        b.score.wf(),
    ensures
        item_le(a, b) || item_le(b, a),
{
}

/// `item_le` is transitive on well-formed scores.
pub proof fn lemma_item_le_trans(a: ItemModel, b: ItemModel, c: ItemModel)
    requires
        a.score.wf(),
        b.score.wf(),
        c.score.wf(),
        item_le(a, b),
        item_le(b, c),
    ensures
        item_le(a, c),
{
    let (na, da) = (a.score.num(), a.score.den());
    let (nb, db) = (b.score.num(), b.score.den());
    let (nc, dc) = (c.score.num(), c.score.den());
    if a.score.gt(b.score) {
        if b.score.gt(c.score) {
            lemma_frac_gt_ge_trans(na, da, nb, db, nc, dc);
        } else {
            lemma_frac_gt_ge_trans(na, da, nb, db, nc, dc);
        }
    } else {
        if b.score.gt(c.score) {
            lemma_frac_ge_gt_trans(na, da, nb, db, nc, dc);
        } else {
            lemma_frac_ge_trans(na, da, nb, db, nc, dc);
            lemma_frac_ge_trans(nc, dc, nb, db, na, da);
        }
    }
}

/// Inserting an item into a list at its place in the order.
pub open spec fn insert_item(x: ItemModel, s: Seq<ItemModel>) -> Seq<ItemModel>
    decreases s.len(),
{
    if s.len() == 0 {
        seq![x]
    } else if item_le(x, s[0]) {
        seq![x] + s
    } else {
        seq![s[0]] + insert_item(x, s.skip(1))
    }
}

/// Sorting a list by repeated insertion, last element first.
pub open spec fn sort_items(s: Seq<ItemModel>) -> Seq<ItemModel>
    decreases s.len(),
{
    if s.len() == 0 {
        Seq::empty()
    } else {
        insert_item(s.last(), sort_items(s.drop_last()))
    }
}

pub proof fn lemma_insert_len(x: ItemModel, s: Seq<ItemModel>)
    ensures
        insert_item(x, s).len() == s.len() + 1,
    decreases s.len(),
{
    if s.len() > 0 && !item_le(x, s[0]) {
        lemma_insert_len(x, s.skip(1));
    }
}

/// Every element of the inserted list is the new item or one of the old.
pub proof fn lemma_insert_elements(x: ItemModel, s: Seq<ItemModel>)
    ensures
        forall|p: int|
            0 <= p < insert_item(x, s).len()
                ==> insert_item(x, s)[p] == x || s.contains(#[trigger] insert_item(x, s)[p]),
    decreases s.len(),
{
    let r = insert_item(x, s);
    if s.len() == 0 {
    } else if item_le(x, s[0]) {
        assert forall|p: int| 0 <= p < r.len() implies r[p] == x || s.contains(#[trigger] r[p]) by {
            if p > 0 {
                assert(r[p] == s[p - 1]);
            }
        }
    } else {
        lemma_insert_elements(x, s.skip(1));
        let r1 = insert_item(x, s.skip(1));
        assert forall|p: int| 0 <= p < r.len() implies r[p] == x || s.contains(#[trigger] r[p]) by {
            if p == 0 {
                assert(s.contains(s[0]));
            } else {
                assert(r[p] == r1[p - 1]);
                if r1[p - 1] != x {
                    let k = choose|k: int| 0 <= k < s.skip(1).len() && s.skip(1)[k] == r1[p - 1];
                    assert(s[k + 1] == r1[p - 1]);
                }
            }
        }
    }
}

/// Insertion preserves the multiset of items.
pub proof fn lemma_insert_multiset(x: ItemModel, s: Seq<ItemModel>)
    ensures
        insert_item(x, s).to_multiset() == s.to_multiset().insert(x),
    decreases s.len(),
{
    broadcast use vstd::seq_lib::group_to_multiset_ensures;

    let r = insert_item(x, s);
    if s.len() == 0 {
        assert(r =~= s.insert(0, x));
        vstd::seq_lib::to_multiset_insert(s, 0, x);
    } else if item_le(x, s[0]) {
        assert(r =~= s.insert(0, x));
        vstd::seq_lib::to_multiset_insert(s, 0, x);
    } else {
        let s1 = s.skip(1);
        lemma_insert_multiset(x, s1);
        let r1 = insert_item(x, s1);
        lemma_multiset_commutative(seq![s[0]], r1);
        lemma_multiset_commutative(seq![s[0]], s1);
        assert(s =~= seq![s[0]] + s1);
        assert(r =~= seq![s[0]] + r1);
        assert(seq![s[0]].to_multiset().add(s1.to_multiset().insert(x))
            =~= seq![s[0]].to_multiset().add(s1.to_multiset()).insert(x));
    }
}

/// Insertion into a sorted list of comparable items keeps it sorted and
/// keeps scores well-formed.
pub proof fn lemma_insert_sorted(x: ItemModel, s: Seq<ItemModel>)
    requires
        items_sorted(s),
        all_wf(s),
        x.score.wf(),
    ensures
        items_sorted(insert_item(x, s)),
        all_wf(insert_item(x, s)),
    decreases s.len(),
{
    let r = insert_item(x, s);
    lemma_insert_len(x, s);
    if s.len() == 0 {
    } else if item_le(x, s[0]) {
        assert forall|i: int, j: int| 0 <= i < j < r.len() implies item_le(r[i], r[j]) by {
            if i == 0 {
                assert(r[j] == s[j - 1]);
                if j == 1 {
                } else {
                    lemma_item_le_trans(x, s[0], s[j - 1]);
                }
            } else {
                assert(r[i] == s[i - 1] && r[j] == s[j - 1]);
            }
        }
        assert forall|k: int| 0 <= k < r.len() implies (#[trigger] r[k]).score.wf() by {
            if k > 0 {
                assert(r[k] == s[k - 1]);
            }
        }
    } else {
        let s1 = s.skip(1);
        assert(items_sorted(s1)) by {
            assert forall|i: int, j: int| 0 <= i < j < s1.len() implies item_le(s1[i], s1[j]) by {
                assert(s1[i] == s[i + 1] && s1[j] == s[j + 1]);
            }
        }
        assert(all_wf(s1)) by {
            assert forall|k: int| 0 <= k < s1.len() implies (#[trigger] s1[k]).score.wf() by {
                assert(s1[k] == s[k + 1]);
            }
        }
        lemma_insert_sorted(x, s1);
        lemma_insert_elements(x, s1);
        lemma_insert_len(x, s1);
        let r1 = insert_item(x, s1);
        lemma_item_le_total(x, s[0]);
        assert(item_le(s[0], x));
        assert forall|i: int, j: int| 0 <= i < j < r.len() implies item_le(r[i], r[j]) by {
            if i == 0 {
                assert(r[j] == r1[j - 1]);
                if r1[j - 1] == x {
                } else {
                    let k = choose|k: int| 0 <= k < s1.len() && s1[k] == r1[j - 1];
                    assert(s[k + 1] == s1[k]);
                    assert(item_le(s[0], s[k + 1]));
                }
            } else {
                assert(r[i] == r1[i - 1] && r[j] == r1[j - 1]);
            }
        }
        assert forall|k: int| 0 <= k < r.len() implies (#[trigger] r[k]).score.wf() by {
            if k > 0 {
                assert(r[k] == r1[k - 1]);
            }
        }
    }
}

/// The sorted list: same items as a multiset, same length, ordered, and
/// with well-formed scores throughout.
pub proof fn lemma_sort_items_props(s: Seq<ItemModel>)
    requires
        all_wf(s),
    ensures
        items_sorted(sort_items(s)),
        all_wf(sort_items(s)),
        sort_items(s).len() == s.len(),
        sort_items(s).to_multiset() == s.to_multiset(),
    decreases s.len(),
{
    broadcast use vstd::seq_lib::group_to_multiset_ensures;

    if s.len() == 0 {
        assert(sort_items(s).to_multiset() =~= s.to_multiset());
    } else {
        let s0 = s.drop_last();
        assert(all_wf(s0)) by {
            assert forall|k: int| 0 <= k < s0.len() implies (#[trigger] s0[k]).score.wf() by {
                assert(s0[k] == s[k]);
            }
        }
        lemma_sort_items_props(s0);
        assert(s.last().score.wf());
        lemma_insert_sorted(s.last(), sort_items(s0));
        lemma_insert_len(s.last(), sort_items(s0));
        lemma_insert_multiset(s.last(), sort_items(s0));
        assert(s =~= s0.push(s.last()));
        assert(s0.push(s.last()).to_multiset() =~= s0.to_multiset().insert(s.last()));
    }
}

/// A value occurring at two positions occurs at least twice in the multiset.
proof fn lemma_dup_count(s: Seq<ItemModel>, p: int, q: int)
    requires
        0 <= p < q < s.len(),
        s[p] == s[q],
    ensures
        s.to_multiset().count(s[p]) >= 2,
{
    broadcast use vstd::seq_lib::group_to_multiset_ensures;

    let t = s.remove(p);
    assert(t[q - 1] == s[q]);
    assert(t.contains(s[q]));
    assert(t.to_multiset() == s.to_multiset().remove(s[p]));
    assert(t.to_multiset().count(s[q]) > 0);
}

/// A value counted at least twice occurs at two positions.
proof fn lemma_count_dup(s: Seq<ItemModel>, v: ItemModel)
    requires
        s.to_multiset().count(v) >= 2,
    ensures
        exists|p: int, q: int| 0 <= p < q < s.len() && s[p] == v && s[q] == v,
{
    broadcast use vstd::seq_lib::group_to_multiset_ensures;

    assert(s.contains(v));
    let p0 = choose|p0: int| 0 <= p0 < s.len() && s[p0] == v;
    let t = s.remove(p0);
    assert(t.to_multiset() == s.to_multiset().remove(s[p0]));
    assert(t.to_multiset().count(v) >= 1);
    assert(t.contains(v));
    let q0 = choose|q0: int| 0 <= q0 < t.len() && t[q0] == v;
    if q0 < p0 {
        assert(s[q0] == t[q0]);
        assert(0 <= q0 < p0 < s.len() && s[q0] == v && s[p0] == v);
    } else {
        assert(s[q0 + 1] == t[q0]);
        assert(0 <= p0 < q0 + 1 < s.len() && s[p0] == v && s[q0 + 1] == v);
    }
}

/// Distinct original indices survive any permutation.
pub proof fn lemma_distinct_preserved(s1: Seq<ItemModel>, s2: Seq<ItemModel>)
    requires
        s1.to_multiset() == s2.to_multiset(),
        distinct_indices(s1),
    ensures
        distinct_indices(s2),
{
    broadcast use vstd::seq_lib::group_to_multiset_ensures;

    assert forall|i: int, j: int|
        0 <= i < s2.len() && 0 <= j < s2.len() && i != j implies (#[trigger] s2[i]).original_index
        != (#[trigger] s2[j]).original_index by {
        let a = s2[i];
        let b = s2[j];
        if a.original_index == b.original_index {
            if a == b {
                if i < j {
                    lemma_dup_count(s2, i, j);
                } else {
                    lemma_dup_count(s2, j, i);
                }
                lemma_count_dup(s1, a);
                let (p, q) = choose|p: int, q: int|
                    0 <= p < q < s1.len() && s1[p] == a && s1[q] == a;
                assert(s1[p].original_index != s1[q].original_index);
            } else {
                assert(s2.contains(a) && s2.contains(b));
                assert(s1.to_multiset().count(a) > 0);
                assert(s1.to_multiset().count(b) > 0);
                assert(s1.contains(a) && s1.contains(b));
                let p = choose|p: int| 0 <= p < s1.len() && s1[p] == a;
                let q = choose|q: int| 0 <= q < s1.len() && s1[q] == b;
                assert(p != q);
                assert(s1[p].original_index != s1[q].original_index);
            }
        }
    }
}

/// The position at which the exec scanner stops is where the spec insert
/// places the item: before the first element it may precede.
pub proof fn lemma_insert_at(x: ItemModel, s: Seq<ItemModel>, j: int)
    requires
        0 <= j <= s.len(),
        forall|k: int| 0 <= k < j ==> !item_le(x, #[trigger] s[k]),
        j < s.len() ==> item_le(x, s[j]),
    ensures
        insert_item(x, s) == s.insert(j, x),
    decreases j,
{
    if s.len() == 0 {
        assert(insert_item(x, s) =~= s.insert(0, x));
    } else if j == 0 {
        assert(insert_item(x, s) =~= s.insert(0, x));
    } else {
        let s1 = s.skip(1);
        assert(!item_le(x, s[0]));
        assert forall|k: int| 0 <= k < j - 1 implies !item_le(x, #[trigger] s1[k]) by {
            assert(s1[k] == s[k + 1]);
        }
        if j - 1 < s1.len() {
            assert(s1[j - 1] == s[j]);
        }
        lemma_insert_at(x, s1, j - 1);
        assert(insert_item(x, s) =~= seq![s[0]] + s1.insert(j - 1, x));
        assert(seq![s[0]] + s1.insert(j - 1, x) =~= s.insert(j, x));
    }
}

} // verus!
