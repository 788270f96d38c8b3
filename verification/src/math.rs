//! Integer helpers the simulation arithmetic rests on: truncating
//! (round-toward-zero) division, its bounds, and an integer square root.

use vstd::arithmetic::div_mod::{
    lemma_div_is_ordered, lemma_div_multiples_vanish, lemma_div_pos_is_pos,
    lemma_fundamental_div_mod,
};
use vstd::prelude::*;

verus! {

/// Absolute value of a mathematical integer.
pub open spec fn abs_i(a: int) -> int {
    if a >= 0 {
        a
    } else {
        -a
    }
}

/// Truncating (round-toward-zero) division by a positive divisor: the exact
/// meaning of every `/` the simulation performs. Agrees with `/` on `int`
/// (floor division) for a non-negative dividend.
pub open spec fn div_t(a: int, b: int) -> int {
    if a >= 0 {
        a / b
    } else {
        -((-a) / b)
    }
}

/// Truncating division on machine integers, for a positive divisor.
pub fn div_trunc(a: i64, b: i64) -> (q: i64)
    requires
        b > 0,
        a > i64::MIN,
    ensures
        q == div_t(a as int, b as int),
{
    if a >= 0 {
        proof {
            lemma_div_pos_is_pos(a as int, b as int);
            lemma_div_is_ordered(a as int, a as int, 1);
            lemma_div_by_one(a as int);
            lemma_div_shrinks(a as int, b as int);
        }
        ((a as u64) / (b as u64)) as i64
    } else {
        let m = -a;
        proof {
            lemma_div_pos_is_pos(m as int, b as int);
            lemma_div_shrinks(m as int, b as int);
        }
        -(((m as u64) / (b as u64)) as i64)
    }
}

/// Dividing a non-negative integer by one leaves it unchanged.
proof fn lemma_div_by_one(a: int)
    requires
        a >= 0,
    ensures
        a / 1 == a,
{
    lemma_div_multiples_vanish(a, 1);
}

/// A quotient by a positive divisor never exceeds a non-negative dividend.
proof fn lemma_div_shrinks(a: int, b: int)
    requires
        a >= 0,
        b > 0,
    ensures
        0 <= a / b <= a,
{
    lemma_div_pos_is_pos(a, b);
    lemma_fundamental_div_mod(a, b);
    assert(a == b * (a / b) + (a % b));
    assert(b * (a / b) >= 1 * (a / b)) by (nonlinear_arith)
        requires
            b >= 1,
            a / b >= 0,
    ;
}

/// If `-(m * b) <= a <= m * b` then the truncated quotient `a / b` lies in
/// `[-m, m]`.
pub proof fn lemma_div_t_bound(a: int, b: int, m: int)
    requires
        b > 0,
        m >= 0,
        -(m * b) <= a <= m * b,
    ensures
        -m <= div_t(a, b) <= m,
{
    if a >= 0 {
        lemma_div_pos_is_pos(a, b);
        lemma_div_is_ordered(a, m * b, b);
        lemma_div_multiples_vanish(m, b);
        assert((b * m) / b == m);
        assert(b * m == m * b) by (nonlinear_arith);
    } else {
        lemma_div_pos_is_pos(-a, b);
        lemma_div_is_ordered(-a, m * b, b);
        lemma_div_multiples_vanish(m, b);
        assert((b * m) / b == m);
        assert(b * m == m * b) by (nonlinear_arith);
    }
}

/// Truncated division by a positive divisor is monotone on non-negative
/// dividends.
pub proof fn lemma_div_t_ordered(a1: int, a2: int, b: int)
    requires
        0 <= a1 <= a2,
        b > 0,
    ensures
        div_t(a1, b) <= div_t(a2, b),
{
    lemma_div_is_ordered(a1, a2, b);
}

/// Negating the dividend negates the truncated quotient.
pub proof fn lemma_div_t_neg(a: int, b: int)
    requires
        b > 0,
    ensures
        div_t(-a, b) == -div_t(a, b),
{
    if a > 0 {
        lemma_div_pos_is_pos(a, b);
    } else {
        lemma_div_pos_is_pos(-a, b);
    }
}

/// The magnitude of a truncated quotient is the truncated quotient of the
/// magnitude.
pub proof fn lemma_div_t_abs(a: int, b: int)
    requires
        b > 0,
    ensures
        abs_i(div_t(a, b)) == div_t(abs_i(a), b),
{
    lemma_div_pos_is_pos(abs_i(a), b);
    lemma_div_t_neg(abs_i(a), b);
}

/// Floor of the square root: `r * r <= m < (r + 1) * (r + 1)`.
pub fn isqrt(m: u64) -> (r: u64)
    requires
        m <= 1_000_000,
    ensures
        r * r <= m < (r + 1) * (r + 1),
        r <= 1000,
{
    let mut r: u64 = 0;
    let mut sq: u64 = 1;
    while sq <= m
        invariant
            m <= 1_000_000,
            r * r <= m,
            r <= 1000,
            sq == (r + 1) * (r + 1),
        decreases m - r,
    {
        assert(r + 1 <= 1000) by (nonlinear_arith)
            requires
                (r + 1) * (r + 1) <= 1_000_000,
        ;
        assert((r + 2) * (r + 2) == (r + 1) * (r + 1) + 2 * r + 3) by (nonlinear_arith);
        assert(r + 1 <= (r + 1) * (r + 1)) by (nonlinear_arith);
        r = r + 1;
        sq = sq + 2 * r + 1;
    }
    r
}

} // verus!
