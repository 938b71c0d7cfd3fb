//! Integer square roots, and the share of a component in a length.

use crate::scalar::UNIT;
use vstd::prelude::*;

verus! {

/// Whether `r` is the square root of `n`, rounded down.
pub open spec fn is_int_sqrt(n: int, r: int) -> bool {
    0 <= r && r * r <= n && n < (r + 1) * (r + 1)
}

/// The square root of a non-negative integer, rounded down.
pub open spec fn int_sqrt(n: int) -> int
    recommends
        n >= 0,
{
    choose|r: int| is_int_sqrt(n, r)
}

/// At most one integer is the rounded-down square root of `n`.
pub proof fn lemma_int_sqrt_unique(n: int, r: int, s: int)
    requires
        is_int_sqrt(n, r),
        is_int_sqrt(n, s),
    ensures
        r == s,
{
    if r < s {
        assert((r + 1) * (r + 1) <= s * s) by (nonlinear_arith)
            requires
                0 <= r + 1 <= s,
        ;
    }
    if s < r {
        assert((s + 1) * (s + 1) <= r * r) by (nonlinear_arith)
            requires
                0 <= s + 1 <= r,
        ;
    }
}

/// Every non-negative integer has a rounded-down square root, and `int_sqrt`
/// names it.
pub proof fn lemma_int_sqrt_exists(n: int)
    requires
        n >= 0,
    ensures
        is_int_sqrt(n, int_sqrt(n)),
    decreases n,
{
    if n == 0 {
        assert(is_int_sqrt(0, 0));
    } else {
        lemma_int_sqrt_exists(n - 1);
        let r = int_sqrt(n - 1);
        if (r + 1) * (r + 1) <= n {
            assert((r + 1) * (r + 1) < (r + 2) * (r + 2)) by (nonlinear_arith)
                requires
                    0 <= r,
            ;
            assert(is_int_sqrt(n, r + 1));
        } else {
            assert(is_int_sqrt(n, r));
        }
    }
}

/// An integer that brackets `n` between its square and the next square is
/// the rounded-down square root of `n`.
pub proof fn lemma_int_sqrt_is(n: int, r: int)
    requires
        0 <= r,
        r * r <= n,
        n < (r + 1) * (r + 1),
    ensures
        int_sqrt(n) == r,
{
    lemma_int_sqrt_unique(n, r, int_sqrt(n));
}

/// The rounded-down square root of a wide unsigned word, by bisection.
pub(crate) fn wide_sqrt(n: u128) -> (r: u64)
    ensures
        r == int_sqrt(n as int),
{
    let mut lo: u128 = 0;
    let mut hi: u128 = 0x1_0000_0000_0000_0000;
    assert(n < hi * hi) by (nonlinear_arith)
        requires
            hi == 0x1_0000_0000_0000_0000,
            n <= u128::MAX,
    ;
    while hi - lo > 1
        invariant
            lo < hi <= 0x1_0000_0000_0000_0000,
            lo * lo <= n,
            n < hi * hi,
        decreases hi - lo,
    {
        let mid: u128 = lo + (hi - lo) / 2;
        assert(mid * mid <= u128::MAX) by (nonlinear_arith)
            requires
                0 <= mid <= 0xffff_ffff_ffff_ffff,
        ;
        if mid * mid <= n {
            lo = mid;
        } else {
            hi = mid;
        }
    }
    proof {
        lemma_int_sqrt_is(n as int, lo as int);
    }
    lo as u64
}

/// Whether `q` is `|x| * UNIT / sqrt(n)` rounded down: `q * sqrt(n)` is at
/// most `|x| * UNIT`, and `(q + 1) * sqrt(n)` is more. Both sides are
/// squared, so that no root is taken.
pub open spec fn is_unit_share(x: int, n: int, q: int) -> bool {
    &&& 0 <= q
    &&& (q * q) * n <= (x * x) * (UNIT * UNIT)
    &&& (x * x) * (UNIT * UNIT) < ((q + 1) * (q + 1)) * n
}

/// `|x| * UNIT / sqrt(n)`, rounded down, for a positive `n`.
pub open spec fn unit_share(x: int, n: int) -> int
    recommends
        n > 0,
{
    choose|q: int| is_unit_share(x, n, q)
}

/// At most one integer is the rounded-down share of `x` in `sqrt(n)`.
pub proof fn lemma_unit_share_unique(x: int, n: int, q: int, r: int)
    requires
        n > 0,
        is_unit_share(x, n, q),
        is_unit_share(x, n, r),
    ensures
        q == r,
{
    if q < r {
        assert(((q + 1) * (q + 1)) * n <= (r * r) * n) by (nonlinear_arith)
            requires
                0 <= q + 1 <= r,
                n > 0,
        ;
    }
    if r < q {
        assert(((r + 1) * (r + 1)) * n <= (q * q) * n) by (nonlinear_arith)
            requires
                0 <= r + 1 <= q,
                n > 0,
        ;
    }
}

/// For a positive `n` the rounded-down share exists, and `unit_share` names
/// it.
pub proof fn lemma_unit_share_exists(x: int, n: int)
    requires
        n > 0,
    ensures
        is_unit_share(x, n, unit_share(x, n)),
{
    let a = (x * x) * (UNIT * UNIT);
    assert(a >= 0) by (nonlinear_arith)
        requires
            a == (x * x) * (UNIT * UNIT),
    ;
    let d = a / n;
    assert(d * n <= a && a < (d + 1) * n && d >= 0) by (nonlinear_arith)
        requires
            n > 0,
            a >= 0,
            d == a / n,
    ;
    lemma_int_sqrt_exists(d);
    let r = int_sqrt(d);
    assert((r * r) * n <= d * n) by (nonlinear_arith)
        requires
            r * r <= d,
            n > 0,
    ;
    assert((d + 1) * n <= ((r + 1) * (r + 1)) * n) by (nonlinear_arith)
        requires
            d + 1 <= (r + 1) * (r + 1),
            n > 0,
    ;
    assert(is_unit_share(x, n, r));
}

/// An integer that meets the two bounds is the rounded-down share.
pub proof fn lemma_unit_share_is(x: int, n: int, q: int)
    requires
        n > 0,
        0 <= q,
        (q * q) * n <= (x * x) * (UNIT * UNIT),
        (x * x) * (UNIT * UNIT) < ((q + 1) * (q + 1)) * n,
    ensures
        unit_share(x, n) == q,
{
    lemma_unit_share_exists(x, n);
    lemma_unit_share_unique(x, n, q, unit_share(x, n));
}

/// `m * k` as two words: `high * 2^128 + low`, for a factor `k` below `2^88`.
fn wide_times(m: u128, k: u128) -> (r: (u128, u128))
    requires
        k < 0x100_0000_0000_0000_0000_0000,
    ensures
        r.0 * 0x1_0000_0000_0000_0000_0000_0000_0000_0000 + r.1 == m * k,
{
    let m1: u128 = m / 0x1_0000_0000_0000_0000;
    let m0: u128 = m % 0x1_0000_0000_0000_0000;
    let k1: u128 = k / 0x1_0000_0000_0000_0000;
    let k0: u128 = k % 0x1_0000_0000_0000_0000;
    assert(m0 * k0 <= 0xffff_ffff_ffff_ffff * 0xffff_ffff_ffff_ffff) by (nonlinear_arith)
        requires
            m0 <= 0xffff_ffff_ffff_ffff,
            k0 <= 0xffff_ffff_ffff_ffff,
    ;
    assert(m1 * k0 <= 0xffff_ffff_ffff_ffff * 0xffff_ffff_ffff_ffff) by (nonlinear_arith)
        requires
            m1 <= 0xffff_ffff_ffff_ffff,
            k0 <= 0xffff_ffff_ffff_ffff,
    ;
    assert(m0 * k1 <= 0xffff_ffff_ffff_ffff * 0xff_ffff) by (nonlinear_arith)
        requires
            m0 <= 0xffff_ffff_ffff_ffff,
            k1 <= 0xff_ffff,
    ;
    assert(m1 * k1 <= 0xffff_ffff_ffff_ffff * 0xff_ffff) by (nonlinear_arith)
        requires
            m1 <= 0xffff_ffff_ffff_ffff,
            k1 <= 0xff_ffff,
    ;
    let p00: u128 = m0 * k0;
    let p01: u128 = m0 * k1;
    let p10: u128 = m1 * k0;
    let p11: u128 = m1 * k1;
    assert(m * k == p11 * 0x1_0000_0000_0000_0000_0000_0000_0000_0000 + (p01 + p10)
        * 0x1_0000_0000_0000_0000 + p00) by (nonlinear_arith)
        requires
            m == m1 * 0x1_0000_0000_0000_0000 + m0,
            k == k1 * 0x1_0000_0000_0000_0000 + k0,
            p00 == m0 * k0,
            p01 == m0 * k1,
            p10 == m1 * k0,
            p11 == m1 * k1,
    ;
    let middle: u128 = p00 / 0x1_0000_0000_0000_0000 + p01 % 0x1_0000_0000_0000_0000 + p10
        % 0x1_0000_0000_0000_0000;
    let low: u128 = (middle % 0x1_0000_0000_0000_0000) * 0x1_0000_0000_0000_0000 + p00
        % 0x1_0000_0000_0000_0000;
    let high: u128 = p11 + p01 / 0x1_0000_0000_0000_0000 + p10 / 0x1_0000_0000_0000_0000
        + middle / 0x1_0000_0000_0000_0000;
    (high, low)
}

/// Whether `(q * q) * n <= (x * x) * (UNIT * UNIT)`, where `square` is
/// `x * x`.
fn share_at_most(q: u64, n: u128, square: u128) -> (ok: bool)
    requires
        q <= UNIT + 1,
    ensures
        ok == ((q * q) * n <= square * (UNIT * UNIT)),
{
    assert(q * q <= 100_000_000_000_020_000_000_000_001) by (nonlinear_arith)
        requires
            q <= 10_000_000_000_001,
    ;
    let left = wide_times(n, (q as u128) * (q as u128));
    let right = wide_times(square, 100_000_000_000_000_000_000_000_000);
    assert((q * q) * n == n * (q * q)) by (nonlinear_arith);
    left.0 < right.0 || (left.0 == right.0 && left.1 <= right.1)
}

/// `|x| * UNIT / sqrt(n)`, rounded down, by bisection; `square` is `x * x`
/// and is at most `n`, which is positive.
pub(crate) fn unit_share_of(square: u128, n: u128, x: Ghost<int>) -> (q: u64)
    requires
        square == x@ * x@,
        square <= n,
        n > 0,
    ensures
        q == unit_share(x@, n as int),
        q <= UNIT,
{
    let mut lo: u64 = 0;
    let mut hi: u64 = 10_000_000_000_001;
    assert(square * (UNIT * UNIT) < (hi * hi) * n) by (nonlinear_arith)
        requires
            hi == 10_000_000_000_001,
            UNIT == 10_000_000_000_000,
            0 <= square <= n,
            n > 0,
    ;
    assert((lo * lo) * n <= square * (UNIT * UNIT)) by (nonlinear_arith)
        requires
            lo == 0,
            square >= 0,
            UNIT == 10_000_000_000_000,
    ;
    while hi - lo > 1
        invariant
            lo < hi <= 10_000_000_000_001,
            square == x@ * x@,
            (lo * lo) * n <= square * (UNIT * UNIT),
            square * (UNIT * UNIT) < (hi * hi) * n,
        decreases hi - lo,
    {
        let mid: u64 = lo + (hi - lo) / 2;
        if share_at_most(mid, n, square) {
            lo = mid;
        } else {
            hi = mid;
        }
    }
    proof {
        assert(hi == lo + 1);
        assert(is_unit_share(x@, n as int, lo as int));
        lemma_unit_share_is(x@, n as int, lo as int);
    }
    lo
}

} // verus!
