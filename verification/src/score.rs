//! Scores as exact rational numbers.
//!
//! The ranking pipeline never computes with floating point: a score is a
//! rational in [0, 1], kept in the shape the scoring rule produced it in.
//! A containment score compares a short query (one or two characters)
//! against an entry through a character match count; a trigram score counts
//! shared three-character windows. Keeping the shape lets two scores from
//! the same ranking pass be compared without any multiplication that could
//! overflow, while the specification-level value is the plain fraction
//! `num / den`.

use vstd::prelude::*;

verus! {

/// Largest match count a containment score can carry: at most two query
/// characters, each matched at most once per entry position.
pub const MATCH_COUNT_MAX: u128 = 0x1_FFFF_FFFF_FFFF_FFFE;

/// Largest window count a trigram score can carry: a query of at most
/// `usize::MAX` characters has one padded window per character plus one.
pub const WINDOW_COUNT_MAX: u128 = 0x1_0000_0000_0000_0000;

/// A score in [0, 1], kept as the exact fraction the scoring rule produced.
///
/// `Zero` stands both for an empty query (every entry scores 0) and for a
/// containment comparison whose raw value would fall outside [0, 1], which
/// is normalised to 0.
#[derive(Clone, Copy, Debug, PartialEq, Eq, Structural)]
pub enum Score {
    Zero,
    /// `1 - query_len / match_count`, i.e. `(match_count - query_len) / match_count`.
    Containment { match_count: u128, query_len: u128 },
    /// `shared / window_count`, where `window_count` is the query length plus one.
    Trigram { shared: u128, window_count: u128 },
}

impl Score {
    /// Well-formed scores denote fractions in [0, 1] and keep the bounds the
    /// scoring rules guarantee.
    pub open spec fn wf(self) -> bool {
        match self {
            Score::Zero => true,
            Score::Containment { match_count, query_len } => {
                &&& 1 <= query_len <= 2
                &&& query_len <= match_count
                &&& match_count <= MATCH_COUNT_MAX
            },
            Score::Trigram { shared, window_count } => {
                &&& 1 <= window_count <= WINDOW_COUNT_MAX
                &&& shared <= window_count
            },
        }
    }

    /// Numerator of the score's value.
    pub open spec fn num(self) -> int {
        match self {
            Score::Zero => 0,
            Score::Containment { match_count, query_len } => match_count - query_len,
            Score::Trigram { shared, window_count: _ } => shared as int,
        }
    }

    /// Denominator of the score's value; at least 1 for well-formed scores.
    pub open spec fn den(self) -> int {
        match self {
            Score::Zero => 1,
            Score::Containment { match_count, query_len: _ } => match_count as int,
            Score::Trigram { shared: _, window_count } => window_count as int,
        }
    }

    /// `self >= other` as rational values.
    pub open spec fn ge(self, other: Score) -> bool {
        self.num() * other.den() >= other.num() * self.den()
    }

    /// `self > other` as rational values.
    pub open spec fn gt(self, other: Score) -> bool {
        self.num() * other.den() > other.num() * self.den()
    }

    /// `self == other` as rational values (distinct shapes can denote the
    /// same fraction).
    pub open spec fn same_value(self, other: Score) -> bool {
        self.num() * other.den() == other.num() * self.den()
    }

    /// Two scores of one ranking pass: both were produced against the same
    /// query, so containment scores share their query length and trigram
    /// scores share their window count. Only such pairs are ever compared
    /// at run time.
    pub open spec fn compatible(self, other: Score) -> bool {
        match (self, other) {
            (Score::Zero, _) => true,
            (_, Score::Zero) => true,
            (
                Score::Containment { match_count: _, query_len: la },
                Score::Containment { match_count: _, query_len: lb },
            ) => la == lb,
            (
                Score::Trigram { shared: _, window_count: da },
                Score::Trigram { shared: _, window_count: db },
            ) => da == db,
            _ => false,
        }
    }
}

/// A filtering threshold in [0, 1], as the exact fraction `num / den`.
#[derive(Clone, Copy, Debug, PartialEq, Eq, Structural)]
pub struct Threshold {
    pub num: u32,
    pub den: u32,
}

impl Threshold {
    pub open spec fn wf(self) -> bool {
        1 <= self.den && self.num <= self.den
    }

    /// The score lies strictly above this threshold.
    pub open spec fn exceeded_by(self, s: Score) -> bool {
        s.num() * self.den > self.num * s.den()
    }
}

/// `self >= other` decided without leaving u128 range: scores of one
/// ranking pass are compared through their shape, never by cross
/// multiplication of unbounded numerators.
pub fn score_ge(a: &Score, b: &Score) -> (r: bool)
    requires
        a.wf(),
        b.wf(),
        a.compatible(*b),
    ensures
        r == a.ge(*b),
{
    match (a, b) {
        (Score::Zero, Score::Zero) => {
            assert(a.ge(*b));
            true
        },
        (Score::Zero, Score::Containment { match_count, query_len }) => {
            // 0 >= (m - l) / m  iff  m == l
            assert((*match_count == *query_len) == a.ge(*b));
            *match_count == *query_len
        },
        (Score::Zero, Score::Trigram { shared, window_count: _ }) => {
            proof {
                let bd = b.den();
                let bn = b.num();
                assert(0 * bd == 0) by (nonlinear_arith);
                assert(bn * 1 == bn) by (nonlinear_arith);
            }
            assert((*shared == 0) == a.ge(*b));
            *shared == 0
        },
        (Score::Containment { match_count: _, query_len: _ }, Score::Zero) => {
            assert(a.ge(*b));
            true
        },
        (Score::Trigram { shared: _, window_count: _ }, Score::Zero) => {
            assert(a.ge(*b));
            true
        },
        (
            Score::Containment { match_count: ma, query_len: la },
            Score::Containment { match_count: mb, query_len: _ },
        ) => {
            proof {
                lemma_containment_ge(*ma as int, *mb as int, *la as int);
            }
            assert((*ma >= *mb) == a.ge(*b));
            *ma >= *mb
        },
        (
            Score::Trigram { shared: sa, window_count: da },
            Score::Trigram { shared: sb, window_count: _ },
        ) => {
            proof {
                lemma_same_den_ge(*sa as int, *sb as int, *da as int);
            }
            assert((*sa >= *sb) == a.ge(*b));
            *sa >= *sb
        },
        _ => {
            proof {
                assert(false);  // excluded by compatibility
            }
            true
        },
    }
}

/// The score lies strictly above the threshold. The cross products stay
/// far below u128 range: score parts are bounded by `MATCH_COUNT_MAX` and
/// threshold parts by `u32::MAX`.
pub fn exceeds_threshold(s: &Score, t: &Threshold) -> (r: bool)
    requires
        s.wf(),
        t.wf(),
    ensures
        r == t.exceeded_by(*s),
{
    let (num, den): (u128, u128) = match s {
        Score::Zero => (0, 1),
        Score::Containment { match_count, query_len } => (*match_count - *query_len, *match_count),
        Score::Trigram { shared, window_count } => (*shared, *window_count),
    };
    proof {
        assert(num <= MATCH_COUNT_MAX && den <= MATCH_COUNT_MAX);
        assert(num * (t.den as int) <= MATCH_COUNT_MAX * 0xffff_ffff) by (nonlinear_arith)
            requires
                0 <= num <= MATCH_COUNT_MAX,
                0 <= t.den <= 0xffff_ffff,
        ;
        assert((t.num as int) * den <= 0xffff_ffff * MATCH_COUNT_MAX) by (nonlinear_arith)
            requires
                0 <= den <= MATCH_COUNT_MAX,
                0 <= t.num <= 0xffff_ffff,
        ;
    }
    num * (t.den as u128) > (t.num as u128) * den
}

/// For two containment scores of one query length `l`,
/// `(a - l)/a >= (b - l)/b` holds exactly when `a >= b`.
proof fn lemma_containment_ge(a: int, b: int, l: int)
    requires
        1 <= l,
        l <= a,
        l <= b,
    ensures
        ((a - l) * b >= (b - l) * a) == (a >= b),
{
    assert(((a - l) * b >= (b - l) * a) == (a >= b)) by (nonlinear_arith)
        requires
            1 <= l,
            l <= a,
            l <= b,
    ;
}

/// For two fractions over one positive denominator, comparing numerators
/// decides the comparison.
proof fn lemma_same_den_ge(sa: int, sb: int, d: int)
    requires
        1 <= d,
    ensures
        (sa * d >= sb * d) == (sa >= sb),
{
    assert((sa * d >= sb * d) == (sa >= sb)) by (nonlinear_arith)
        requires
            1 <= d,
    ;
}

/// A well-formed score denotes a fraction in [0, 1]: its denominator is
/// positive and its numerator lies between zero and the denominator.
pub proof fn lemma_wf_in_unit(s: Score)
    requires
        s.wf(),
    ensures
        1 <= s.den(),
        0 <= s.num() <= s.den(),
{
}

/// Transitivity of `>=` on fractions with positive denominators.
pub proof fn lemma_frac_ge_trans(n1: int, d1: int, n2: int, d2: int, n3: int, d3: int)
    requires
        1 <= d1,
        1 <= d2,
        1 <= d3,
        n1 * d2 >= n2 * d1,
        n2 * d3 >= n3 * d2,
    ensures
        n1 * d3 >= n3 * d1,
{
    assert(n1 * d3 >= n3 * d1) by (nonlinear_arith)
        requires
            1 <= d1,
            1 <= d2,
            1 <= d3,
            n1 * d2 >= n2 * d1,
            n2 * d3 >= n3 * d2,
    ;
}

/// Transitivity of `>=` against `>` on fractions with positive denominators.
pub proof fn lemma_frac_ge_gt_trans(n1: int, d1: int, n2: int, d2: int, n3: int, d3: int)
    requires
        1 <= d1,
        1 <= d2,
        1 <= d3,
        n1 * d2 >= n2 * d1,
        n2 * d3 > n3 * d2,
    ensures
        n1 * d3 > n3 * d1,
{
    assert(n1 * d3 > n3 * d1) by (nonlinear_arith)
        requires
            1 <= d1,
            1 <= d2,
            1 <= d3,
            n1 * d2 >= n2 * d1,
            n2 * d3 > n3 * d2,
    ;
}

/// Transitivity of `>` against `>=` on fractions with positive denominators.
pub proof fn lemma_frac_gt_ge_trans(n1: int, d1: int, n2: int, d2: int, n3: int, d3: int)
    requires
        1 <= d1,
        1 <= d2,
        1 <= d3,
        n1 * d2 > n2 * d1,
        n2 * d3 >= n3 * d2,
    ensures
        n1 * d3 > n3 * d1,
{
    assert(n1 * d3 > n3 * d1) by (nonlinear_arith)
        requires
            1 <= d1,
            1 <= d2,
            1 <= d3,
            n1 * d2 > n2 * d1,
            n2 * d3 >= n3 * d2,
    ;
}

} // verus!
