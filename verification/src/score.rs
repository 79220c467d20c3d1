//! Exact rational score values in the range [0, 100].

use vstd::prelude::*;

verus! {

/// A non-negative rational number `num / den`, used for match scores.
#[derive(Clone, Copy, Debug)]
pub struct Score {
    pub num: u64,
    pub den: u64,
}

/// A well-formed score has a positive denominator and a value of at most 100.
pub open spec fn score_wf(s: Score) -> bool {
    1 <= s.den && s.num <= 100 * s.den
}

/// `a < b` as rationals (cross-multiplied).
pub open spec fn score_lt(a: Score, b: Score) -> bool {
    a.num * b.den < b.num * a.den
}

/// `a <= b` as rationals (cross-multiplied).
pub open spec fn score_le(a: Score, b: Score) -> bool {
    a.num * b.den <= b.num * a.den
}

/// `a == b` as rationals (cross-multiplied).
pub open spec fn score_eqv(a: Score, b: Score) -> bool {
    a.num * b.den == b.num * a.den
}

impl Score {
    pub open spec fn wf(&self) -> bool {
        score_wf(*self)
    }

    /// The score worth exactly zero.
    pub fn zero() -> (r: Score)
        ensures
            r.num == 0,
            r.den == 1,
            r.wf(),
    {
        Score { num: 0, den: 1 }
    }

    /// Exact rational comparison: is `self` strictly below `other`?
    pub fn is_below(&self, other: &Score) -> (r: bool)
        ensures
            r == score_lt(*self, *other),
    {
        proof {
            lemma_mul_u64_fits(self.num, other.den);
            lemma_mul_u64_fits(other.num, self.den);
        }
        (self.num as u128) * (other.den as u128) < (other.num as u128) * (self.den as u128)
    }
}

/// The product of two `u64` values fits in a `u128`.
pub proof fn lemma_mul_u64_fits(a: u64, b: u64)
    ensures
        a * b <= u128::MAX,
{
    assert(a * b <= (u64::MAX as int) * (u64::MAX as int)) by (nonlinear_arith)
        requires
            a <= u64::MAX,
            b <= u64::MAX,
    ;
}

/// Rational `<=` is transitive when denominators are positive.
pub proof fn lemma_score_le_trans(a: Score, b: Score, c: Score)
    requires
        1 <= a.den,
        1 <= b.den,
        1 <= c.den,
        score_le(a, b),
        score_le(b, c),
    ensures
        score_le(a, c),
{
    assert(a.num * c.den <= c.num * a.den) by (nonlinear_arith)
        requires
            1 <= a.den,
            1 <= b.den,
            1 <= c.den,
            a.num * b.den <= b.num * a.den,
            b.num * c.den <= c.num * b.den,
    ;
}

/// Rational `a <= b` and `b < c` give `a < c` when denominators are
/// positive.
pub proof fn lemma_score_le_lt_trans(a: Score, b: Score, c: Score)
    requires
        1 <= a.den,
        1 <= b.den,
        1 <= c.den,
        score_le(a, b),
        score_lt(b, c),
    ensures
        score_lt(a, c),
{
    assert(a.num * c.den < c.num * a.den) by (nonlinear_arith)
        requires
            1 <= a.den,
            1 <= b.den,
            1 <= c.den,
            a.num * b.den <= b.num * a.den,
            b.num * c.den < c.num * b.den,
    ;
}

} // verus!
