//! The text model: entries are sequences of characters, a corpus buffer is
//! split into entries at a delimiter character, and scoring reads two views
//! of a text — its character counts and its padded three-character windows.

use vstd::prelude::*;

verus! {

/// The sequences of characters held by a vector of character vectors.
pub open spec fn texts_of(vs: Seq<Vec<char>>) -> Seq<Seq<char>> {
    vs.map_values(|v: Vec<char>| v@)
}

/// Splitting a buffer at a delimiter. Every delimiter separates two
/// entries, so an empty buffer holds one empty entry and a buffer of `n`
/// delimiters holds `n + 1` empty entries.
pub open spec fn split_entries(s: Seq<char>, delimiter: char) -> Seq<Seq<char>>
    decreases s.len(),
{
    if s.len() == 0 {
        seq![Seq::<char>::empty()]
    } else if s[0] == delimiter {
        seq![Seq::<char>::empty()] + split_entries(s.skip(1), delimiter)
    } else {
        let rest = split_entries(s.skip(1), delimiter);
        seq![seq![s[0]] + rest[0]] + rest.skip(1)
    }
}

pub proof fn lemma_split_nonempty(s: Seq<char>, delimiter: char)
    ensures
        split_entries(s, delimiter).len() >= 1,
    decreases s.len(),
{
    if s.len() == 0 {
    } else if s[0] == delimiter {
        lemma_split_nonempty(s.skip(1), delimiter);
    } else {
        lemma_split_nonempty(s.skip(1), delimiter);
    }
}

/// Prepending pending characters to the first entry of an already split
/// tail; the shape of the exec scanner's intermediate state.
pub open spec fn prepend_first(cur: Seq<char>, entries: Seq<Seq<char>>) -> Seq<Seq<char>> {
    seq![cur + entries[0]] + entries.skip(1)
}

/// Splitting distributes over a delimiter: the entries of `a + d + b` are
/// the entries of `a` followed by the entries of `b`.
pub proof fn lemma_split_concat(a: Seq<char>, b: Seq<char>, delimiter: char)
    ensures
        split_entries(a + seq![delimiter] + b, delimiter)
            == split_entries(a, delimiter) + split_entries(b, delimiter),
    decreases a.len(),
{
    let s = a + seq![delimiter] + b;
    lemma_split_nonempty(b, delimiter);
    if a.len() == 0 {
        assert(s[0] == delimiter);
        assert(s.skip(1) =~= b);
        assert(split_entries(a, delimiter) =~= seq![Seq::<char>::empty()]);
        assert(split_entries(s, delimiter)
            =~= split_entries(a, delimiter) + split_entries(b, delimiter));
    } else {
        let a1 = a.skip(1);
        lemma_split_concat(a1, b, delimiter);
        assert(s.skip(1) =~= a1 + seq![delimiter] + b);
        lemma_split_nonempty(a1, delimiter);
        if a[0] == delimiter {
            assert(s[0] == delimiter);
            assert(split_entries(s, delimiter)
                =~= split_entries(a, delimiter) + split_entries(b, delimiter));
        } else {
            let rest = split_entries(a1 + seq![delimiter] + b, delimiter);
            let ra = split_entries(a1, delimiter);
            let rb = split_entries(b, delimiter);
            assert(rest == ra + rb);
            assert(rest[0] == ra[0]);
            assert(rest.skip(1) =~= ra.skip(1) + rb);
            assert(split_entries(s, delimiter)
                =~= split_entries(a, delimiter) + split_entries(b, delimiter));
        }
    }
}

/// One scanner step at a delimiter: the pending characters close an entry.
proof fn lemma_scan_delimiter(cur: Seq<char>, s: Seq<char>, i: int, delimiter: char)
    requires
        0 <= i < s.len(),
        s[i] == delimiter,
    ensures
        prepend_first(cur, split_entries(s.skip(i), delimiter))
            == seq![cur] + prepend_first(Seq::empty(), split_entries(s.skip(i + 1), delimiter)),
{
    let tail = s.skip(i);
    assert(tail[0] == delimiter);
    assert(tail.skip(1) =~= s.skip(i + 1));
    lemma_split_nonempty(s.skip(i + 1), delimiter);
    let r = split_entries(s.skip(i + 1), delimiter);
    assert(split_entries(tail, delimiter) == seq![Seq::<char>::empty()] + r);
    assert((seq![Seq::<char>::empty()] + r)[0] =~= Seq::<char>::empty());
    assert(cur + (seq![Seq::<char>::empty()] + r)[0] =~= cur);
    assert((seq![Seq::<char>::empty()] + r).skip(1) =~= r);
    assert(Seq::empty() + r[0] =~= r[0]);
    assert(prepend_first(Seq::empty(), r) =~= r);
    assert(prepend_first(cur, split_entries(tail, delimiter)) =~= seq![cur] + r);
}

/// One scanner step at an ordinary character: it joins the pending entry.
proof fn lemma_scan_plain(cur: Seq<char>, s: Seq<char>, i: int, delimiter: char)
    requires
        0 <= i < s.len(),
        s[i] != delimiter,
    ensures
        prepend_first(cur, split_entries(s.skip(i), delimiter))
            == prepend_first(cur.push(s[i]), split_entries(s.skip(i + 1), delimiter)),
{
    let tail = s.skip(i);
    assert(tail[0] == s[i]);
    assert(tail.skip(1) =~= s.skip(i + 1));
    lemma_split_nonempty(s.skip(i + 1), delimiter);
    let r = split_entries(s.skip(i + 1), delimiter);
    assert(split_entries(tail, delimiter) == seq![seq![s[i]] + r[0]] + r.skip(1));
    assert(cur + (seq![s[i]] + r[0]) =~= cur.push(s[i]) + r[0]);
    assert((seq![seq![s[i]] + r[0]] + r.skip(1)).skip(1) =~= r.skip(1));
    assert(prepend_first(cur, split_entries(tail, delimiter))
        =~= prepend_first(cur.push(s[i]), r));
}

/// Splits a buffer into its entries.
pub fn split_chars(text: &Vec<char>, delimiter: char) -> (r: Vec<Vec<char>>)
    ensures
        texts_of(r@) == split_entries(text@, delimiter),
{
    let mut done: Vec<Vec<char>> = Vec::new();
    let mut cur: Vec<char> = Vec::new();
    let n = text.len();
    proof {
        assert(text@.skip(0) =~= text@);
        assert(texts_of(done@) =~= Seq::<Seq<char>>::empty());
    }
    for i in 0..n
        invariant
            n == text@.len(),
            split_entries(text@, delimiter)
                == texts_of(done@) + prepend_first(cur@, split_entries(text@.skip(i as int), delimiter)),
    {
        let c = text[i];
        if c == delimiter {
            proof {
                lemma_scan_delimiter(cur@, text@, i as int, delimiter);
            }
            let ghost old_done = done@;
            let ghost old_cur = cur@;
            done.push(cur);
            cur = Vec::new();
            proof {
                assert(texts_of(done@) =~= texts_of(old_done).push(old_cur));
                assert(texts_of(old_done) + (seq![old_cur]
                    + prepend_first(cur@, split_entries(text@.skip(i + 1), delimiter)))
                    =~= texts_of(done@)
                        + prepend_first(cur@, split_entries(text@.skip(i + 1), delimiter)));
            }
        } else {
            proof {
                lemma_scan_plain(cur@, text@, i as int, delimiter);
            }
            cur.push(c);
        }
    }
    proof {
        assert(text@.skip(n as int) =~= Seq::<char>::empty());
        let r0 = split_entries(Seq::<char>::empty(), delimiter);
        assert(r0 == seq![Seq::<char>::empty()]);
        assert(cur@ + r0[0] =~= cur@);
        assert(prepend_first(cur@, r0) =~= seq![cur@]);
    }
    let ghost old_done = done@;
    let ghost old_cur = cur@;
    done.push(cur);
    proof {
        assert(texts_of(done@) =~= texts_of(old_done).push(old_cur));
        assert(texts_of(old_done) + seq![old_cur] =~= texts_of(done@));
    }
    done
}

/// How often a character occurs in a text.
pub open spec fn count_char(s: Seq<char>, c: char) -> nat
    decreases s.len(),
{
    if s.len() == 0 {
        0
    } else {
        count_char(s.drop_last(), c) + if s.last() == c { 1nat } else { 0nat }
    }
}

pub proof fn lemma_count_char_le_len(s: Seq<char>, c: char)
    ensures
        count_char(s, c) <= s.len(),
    decreases s.len(),
{
    if s.len() > 0 {
        lemma_count_char_le_len(s.drop_last(), c);
    }
}

/// The containment match count: for each character of the query, every
/// occurrence anywhere in the entry counts, summed over query positions.
pub open spec fn match_count(q: Seq<char>, e: Seq<char>) -> nat
    decreases q.len(),
{
    if q.len() == 0 {
        0
    } else {
        match_count(q.drop_last(), e) + count_char(e, q.last())
    }
}

pub proof fn lemma_match_count_bound(q: Seq<char>, e: Seq<char>)
    ensures
        match_count(q, e) <= q.len() * e.len(),
    decreases q.len(),
{
    if q.len() == 0 {
    } else {
        lemma_match_count_bound(q.drop_last(), e);
        lemma_count_char_le_len(e, q.last());
        assert((q.len() - 1) * e.len() + e.len() == q.len() * e.len()) by (nonlinear_arith);
    }
}

/// Counts occurrences of a character in a text.
pub fn count_char_in(e: &Vec<char>, c: char) -> (r: usize)
    ensures
        r == count_char(e@, c),
{
    let mut r: usize = 0;
    let n = e.len();
    for i in 0..n
        invariant
            n == e@.len(),
            r == count_char(e@.take(i as int), c),
            r <= i,
    {
        proof {
            assert(e@.take(i + 1).drop_last() =~= e@.take(i as int));
            assert(e@.take(i + 1).last() == e@[i as int]);
            lemma_count_char_le_len(e@.take(i as int), c);
        }
        if e[i] == c {
            r = r + 1;
        }
    }
    proof {
        assert(e@.take(n as int) =~= e@);
    }
    r
}

/// Sums, over the characters of the query, their occurrence counts in the
/// entry.
pub fn match_count_of(q: &Vec<char>, e: &Vec<char>) -> (r: u128)
    ensures
        r == match_count(q@, e@),
{
    let mut r: u128 = 0;
    let n = q.len();
    let m = e.len();
    for i in 0..n
        invariant
            n == q@.len(),
            m == e@.len(),
            r == match_count(q@.take(i as int), e@),
            r <= (i as int) * e@.len(),
    {
        proof {
            assert(q@.take(i + 1).drop_last() =~= q@.take(i as int));
            assert(q@.take(i + 1).last() == q@[i as int]);
            lemma_count_char_le_len(e@, q@[i as int]);
            assert((i as int) * e@.len() + e@.len() == (i + 1) * e@.len()) by (nonlinear_arith);
            assert((i + 1) * e@.len() <= 0xffff_ffff_ffff_ffffu128 * 0xffff_ffff_ffff_ffffu128)
                by (nonlinear_arith)
                requires
                    0 <= i + 1 <= 0xffff_ffff_ffff_ffffu128,
                    0 <= e@.len() <= 0xffff_ffff_ffff_ffffu128,
            ;
        }
        let c = count_char_in(e, q[i]);
        r = r + (c as u128);
    }
    proof {
        assert(q@.take(n as int) =~= q@);
    }
    r
}

/// A character of the padded text: two leading and one trailing space pad
/// the text for windowing.
pub open spec fn padded_char(s: Seq<char>, j: int) -> char {
    if 0 <= j < s.len() {
        s[j]
    } else {
        ' '
    }
}

/// The three-character window ending at padded position `i`; a text of
/// length `n` has windows `0 ..= n`.
pub open spec fn window_at(s: Seq<char>, i: int) -> Seq<char> {
    seq![padded_char(s, i - 2), padded_char(s, i - 1), padded_char(s, i)]
}

/// Some window of the entry equals `w`.
pub open spec fn entry_has_window(e: Seq<char>, w: Seq<char>) -> bool {
    exists|j: int| 0 <= j <= e.len() && window_at(e, j) == w
}

/// How many of the query's first `upto` windows occur somewhere in the
/// entry; each query window counts at most once.
pub open spec fn shared_window_count(q: Seq<char>, e: Seq<char>, upto: int) -> nat
    decreases upto,
{
    if upto <= 0 {
        0
    } else {
        shared_window_count(q, e, upto - 1)
            + if entry_has_window(e, window_at(q, upto - 1)) { 1nat } else { 0nat }
    }
}

/// The trigram similarity numerator: shared windows over all of the
/// query's `len + 1` windows.
pub open spec fn shared_windows(q: Seq<char>, e: Seq<char>) -> nat {
    shared_window_count(q, e, q.len() as int + 1)
}

pub proof fn lemma_shared_window_count_bound(q: Seq<char>, e: Seq<char>, upto: int)
    ensures
        shared_window_count(q, e, upto) <= if upto <= 0 { 0int } else { upto },
    decreases upto,
{
    if upto > 0 {
        lemma_shared_window_count_bound(q, e, upto - 1);
    }
}

/// The character at `i - back` of the padded text.
pub fn window_char_at(s: &Vec<char>, i: usize, back: usize) -> (c: char)
    ensures
        c == padded_char(s@, i - back),
{
    if i >= back && i - back < s.len() {
        s[i - back]
    } else {
        ' '
    }
}

/// Whether window `i` of `a` equals window `j` of `b`.
pub fn windows_eq(a: &Vec<char>, i: usize, b: &Vec<char>, j: usize) -> (r: bool)
    ensures
        r == (window_at(a@, i as int) == window_at(b@, j as int)),
{
    let r = window_char_at(a, i, 2) == window_char_at(b, j, 2)
        && window_char_at(a, i, 1) == window_char_at(b, j, 1)
        && window_char_at(a, i, 0) == window_char_at(b, j, 0);
    proof {
        if r {
            assert(window_at(a@, i as int) =~= window_at(b@, j as int));
        } else {
            if window_at(a@, i as int) == window_at(b@, j as int) {
                assert(window_at(a@, i as int)[0] == window_at(b@, j as int)[0]);
                assert(window_at(a@, i as int)[1] == window_at(b@, j as int)[1]);
                assert(window_at(a@, i as int)[2] == window_at(b@, j as int)[2]);
            }
        }
    }
    r
}

} // verus!
