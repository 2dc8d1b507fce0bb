//! Exact integer roots and roundings that the hexagon geometry is built from.
use vstd::prelude::*;

verus! {

/// `s` is the integer part of the square root of `n`.
pub open spec fn is_floor_sqrt(n: int, s: int) -> bool {
    0 <= s && s * s <= n && n < (s + 1) * (s + 1)
}

/// The integer part of the square root of `n`, for `n >= 0`. Its value on a given
/// number is learnt from `lemma_floor_sqrt_is`.
pub open spec fn floor_sqrt(n: int) -> int {
    choose|s: int| is_floor_sqrt(n, s)
}

/// Squaring is monotone on the non-negative integers.
pub proof fn lemma_square_monotone(a: int, b: int)
    requires
        0 <= a <= b,
    ensures
        a * a <= b * b,
{
    assert(a * a <= b * b) by (nonlinear_arith)
        requires
            0 <= a <= b,
    ;
}

/// A number has at most one integer square root.
pub proof fn lemma_floor_sqrt_unique(n: int, s: int, t: int)
    requires
        is_floor_sqrt(n, s),
        is_floor_sqrt(n, t),
    ensures
        s == t,
{
    if s < t {
        lemma_square_monotone(s + 1, t);
    } else if t < s {
        lemma_square_monotone(t + 1, s);
    }
}

/// Every non-negative number has an integer square root, and `floor_sqrt` names it.
pub proof fn lemma_floor_sqrt(n: int)
    requires
        0 <= n,
    ensures
        is_floor_sqrt(n, floor_sqrt(n)),
    decreases n,
{
    if n == 0 {
        assert(is_floor_sqrt(0, 0));
    } else {
        lemma_floor_sqrt(n - 1);
        let s = floor_sqrt(n - 1);
        if (s + 1) * (s + 1) <= n {
            assert((s + 2) * (s + 2) > (s + 1) * (s + 1)) by (nonlinear_arith)
                requires
                    0 <= s,
            ;
            assert(is_floor_sqrt(n, s + 1));
        } else {
            assert(is_floor_sqrt(n, s));
        }
    }
}

/// Whatever satisfies `is_floor_sqrt` is the value of `floor_sqrt`.
pub proof fn lemma_floor_sqrt_is(n: int, s: int)
    requires
        is_floor_sqrt(n, s),
    ensures
        floor_sqrt(n) == s,
{
    lemma_floor_sqrt_unique(n, s, floor_sqrt(n));
}

/// Integer square root by bisection.
pub fn isqrt(n: u128) -> (s: u128)
    ensures
        s == floor_sqrt(n as int),
        is_floor_sqrt(n as int, s as int),
        s < 0x1_0000_0000_0000_0000,
{
    let mut lo: u128 = 0;
    let mut hi: u128 = 0x1_0000_0000_0000_0000;
    assert(n < hi * hi) by (nonlinear_arith)
        requires
            hi == 0x1_0000_0000_0000_0000,
            n <= u128::MAX,
    ;
    while hi - lo > 1
        invariant
            lo < hi <= 0x1_0000_0000_0000_0000,
            lo * lo <= n,
            n < hi * hi,
        decreases hi - lo,
    {
        let mid: u128 = lo + (hi - lo) / 2;
        assert(mid * mid < 0x1_0000_0000_0000_0000_0000_0000_0000_0000) by (nonlinear_arith)
            requires
                0 <= mid < 0x1_0000_0000_0000_0000,
        ;
        if mid * mid <= n {
            lo = mid;
        } else {
            hi = mid;
        }
    }
    proof {
        lemma_floor_sqrt_is(n as int, lo as int);
    }
    lo
}

/// The integer part of `sqrt(3) * m`, for any integer `m`.
///
/// For `m != 0` the product is irrational, so below zero the integer part is one
/// less than the negated integer part of the positive product.
pub open spec fn floor_sqrt3(m: int) -> int {
    if m >= 0 {
        floor_sqrt(3 * m * m)
    } else {
        -floor_sqrt(3 * m * m) - 1
    }
}

/// The integer nearest to `sqrt(3) * m / 2`, for `m >= 0`. The product is never
/// half way between two integers. Its value on a given number is learnt from
/// `lemma_half_sqrt3_is`.
pub open spec fn half_sqrt3(m: int) -> int {
    (floor_sqrt3(m) + 1) / 2
}

/// `v` is the integer nearest to `sqrt(3) * m / 2`: twice `v` differs from
/// `sqrt(3) * m` by less than one, stated over squares.
pub open spec fn is_half_sqrt3(m: int, v: int) -> bool {
    &&& 0 <= m
    &&& 0 <= v
    &&& v == 0 || 4 * v * v - 4 * v + 1 <= 3 * m * m
    &&& 3 * m * m < 4 * v * v + 4 * v + 1
}

/// The integer nearest to `p / q`, for `q > 0`; a quotient half way between two
/// integers goes to the one farther from zero.
pub open spec fn round_ratio(p: int, q: int) -> int {
    if p >= 0 {
        (2 * p + q) / (2 * q)
    } else {
        -((-2 * p + q) / (2 * q))
    }
}

/// `floor_sqrt3(m)` is the one integer `f` with `f <= sqrt(3) * m < f + 1`,
/// stated over squares.
pub proof fn lemma_floor_sqrt3(m: int)
    ensures
        m >= 0 ==> is_floor_sqrt(3 * m * m, floor_sqrt3(m)),
        m < 0 ==> is_floor_sqrt(3 * m * m, -floor_sqrt3(m) - 1),
        m >= 0 ==> 4 * m <= 4 * floor_sqrt3(m) <= 7 * m,
        m < 0 ==> 7 * m - 4 <= 4 * floor_sqrt3(m) < 4 * m,
{
    let n = 3 * m * m;
    assert(0 <= n) by (nonlinear_arith)
        requires
            n == 3 * m * m,
    ;
    lemma_floor_sqrt(n);
    let s = floor_sqrt(n);
    let a = if m >= 0 { m } else { -m };
    assert(n == 3 * a * a) by (nonlinear_arith)
        requires
            n == 3 * m * m,
            a == m || a == -m,
    ;
    assert(a <= s) by (nonlinear_arith)
        requires
            0 <= s,
            0 <= a,
            3 * a * a < (s + 1) * (s + 1),
    ;
    assert(4 * s <= 7 * a) by (nonlinear_arith)
        requires
            0 <= s,
            0 <= a,
            s * s <= 3 * a * a,
    ;
}

/// `round_ratio(p, q)` is `r` if `r` is nearest to `p / q`, and farther from zero
/// than the other where two integers are as near: stated without a division, for
/// the value of `round_ratio` on given numbers.
pub proof fn lemma_round_ratio_is(p: int, q: int, r: int)
    requires
        q > 0,
        p >= 0 ==> 2 * q * r - q <= 2 * p < 2 * q * r + q,
        p < 0 ==> 2 * q * r - q < 2 * p <= 2 * q * r + q,
    ensures
        round_ratio(p, q) == r,
{
    assert(2 * q * r == r * (2 * q) && 2 * q * (-r) == (-r) * (2 * q) && 2 * q * (-r) == -(2 * q
        * r)) by (nonlinear_arith);
    if p >= 0 {
        vstd::arithmetic::div_mod::lemma_fundamental_div_mod_converse(
            2 * p + q,
            2 * q,
            r,
            2 * p + q - 2 * q * r,
        );
    } else {
        vstd::arithmetic::div_mod::lemma_fundamental_div_mod_converse(
            -2 * p + q,
            2 * q,
            -r,
            -2 * p + q + 2 * q * r,
        );
    }
}

/// Whatever satisfies `is_half_sqrt3` is the value of `half_sqrt3`, and the value
/// of `half_sqrt3` satisfies it.
pub proof fn lemma_half_sqrt3_is(m: int, v: int)
    requires
        0 <= m,
    ensures
        is_half_sqrt3(m, half_sqrt3(m)),
        is_half_sqrt3(m, v) ==> half_sqrt3(m) == v,
{
    lemma_floor_sqrt3(m);
    let f = floor_sqrt3(m);
    let h = half_sqrt3(m);
    assert(2 * h - 1 <= f <= 2 * h);
    if h > 0 {
        lemma_square_monotone(2 * h - 1, f);
    }
    lemma_square_monotone(f + 1, 2 * h + 1);
    assert((2 * h - 1) * (2 * h - 1) == 4 * h * h - 4 * h + 1 && (2 * h + 1) * (2 * h + 1) == 4
        * h * h + 4 * h + 1 && (2 * v - 1) * (2 * v - 1) == 4 * v * v - 4 * v + 1 && (2 * v + 1)
        * (2 * v + 1) == 4 * v * v + 4 * v + 1) by (nonlinear_arith);
    if is_half_sqrt3(m, v) && v != h {
        if v < h {
            lemma_square_monotone(2 * v + 1, 2 * h - 1);
        } else {
            lemma_square_monotone(2 * h + 1, 2 * v - 1);
        }
    }
}

/// `floor_sqrt3(m)` is `f` if `f` is the integer part of `sqrt(3) * m`, stated over
/// squares: of the product itself for `m >= 0`, of its mirror image below zero.
pub proof fn lemma_floor_sqrt3_is(m: int, f: int)
    requires
        m >= 0 ==> is_floor_sqrt(3 * m * m, f),
        m < 0 ==> is_floor_sqrt(3 * m * m, -f - 1),
    ensures
        floor_sqrt3(m) == f,
{
    if m >= 0 {
        lemma_floor_sqrt_is(3 * m * m, f);
    } else {
        lemma_floor_sqrt_is(3 * m * m, -f - 1);
    }
}

/// `round_ratio(p, q)` is nearest to `p / q`: twice the distance is at most `q`
/// when both are scaled by `q`.
pub proof fn lemma_round_ratio(p: int, q: int)
    requires
        q > 0,
    ensures
        -q <= 2 * q * round_ratio(p, q) - 2 * p <= q,
        p >= 0 ==> round_ratio(p, q) >= 0,
        p <= 0 ==> round_ratio(p, q) <= 0,
        round_ratio(-p, q) == -round_ratio(p, q),
{
    let a = if p >= 0 { p } else { -p };
    let k = (2 * a + q) / (2 * q);
    let r = (2 * a + q) % (2 * q);
    vstd::arithmetic::div_mod::lemma_fundamental_div_mod(2 * a + q, 2 * q);
    vstd::arithmetic::div_mod::lemma_mod_bound(2 * a + q, 2 * q);
    vstd::arithmetic::div_mod::lemma_div_pos_is_pos(2 * a + q, 2 * q);
    assert(2 * q * k == (2 * q) * k && 2 * q * (-k) == -((2 * q) * k)) by (nonlinear_arith);
    assert(2 * a + q == (2 * q) * k + r);
    if p == 0 {
        assert(k == 0) by (nonlinear_arith)
            requires
                q > 0,
                0 <= k,
                q == (2 * q) * k + r,
                0 <= r,
        ;
    }
}

/// `floor_sqrt3` on machine integers, as far as doubled pixels and radii reach.
pub(crate) fn floor_sqrt3_exec(m: i64) -> (f: i64)
    requires
        -0x4_0000_0000 <= m <= 0x4_0000_0000,
    ensures
        f == floor_sqrt3(m as int),
{
    let a: u128 = if m >= 0 { m as u128 } else { (-m) as u128 };
    assert(3 * a * a == 3 * m * m && 3 * a * a < 0x40_0000_0000_0000_0000) by (nonlinear_arith)
        requires
            a == m || a == -m,
            0 <= a <= 0x4_0000_0000,
    ;
    let s = isqrt(3 * a * a);
    proof {
        lemma_floor_sqrt3(m as int);
    }
    if m >= 0 {
        s as i64
    } else {
        -(s as i64) - 1
    }
}

/// `round_ratio` on machine integers, as far as doubled pixels and radii reach.
pub(crate) fn round_ratio_exec(p: i64, q: i64) -> (r: i64)
    requires
        0 < q <= 0x4_0000_0000,
        -0x8_0000_0000 <= p <= 0x8_0000_0000,
    ensures
        r == round_ratio(p as int, q as int),
{
    proof {
        lemma_round_ratio(p as int, q as int);
    }
    if p >= 0 {
        (2 * p + q) / (2 * q)
    } else {
        -((-2 * p + q) / (2 * q))
    }
}

/// The quotient rounded towards minus infinity, for a positive divisor, as far as
/// doubled pixels and radii reach.
pub(crate) fn floor_div_exec(p: i64, q: i64) -> (r: i64)
    requires
        0 < q <= 0x10_0000_0000,
        -0x100_0000_0000 <= p <= 0x100_0000_0000,
    ensures
        r == p as int / q as int,
{
    if p >= 0 {
        p / q
    } else {
        let k = (-p + q - 1) / q;
        proof {
            let pi = p as int;
            let qi = q as int;
            let ki = k as int;
            let rem = (-pi + qi - 1) % qi;
            vstd::arithmetic::div_mod::lemma_fundamental_div_mod(-pi + qi - 1, qi);
            vstd::arithmetic::div_mod::lemma_mod_bound(-pi + qi - 1, qi);
            assert(-pi + qi - 1 == qi * ki + rem);
            assert((-ki) * qi == -(qi * ki)) by (nonlinear_arith);
            vstd::arithmetic::div_mod::lemma_fundamental_div_mod_converse(
                pi,
                qi,
                -ki,
                qi - 1 - rem,
            );
        }
        -k
    }
}

} // verus!
