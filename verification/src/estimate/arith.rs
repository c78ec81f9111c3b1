//! Products and roundings of sizes.
//!
//! A product is counted however large it is: one that no machine word holds is
//! known to be larger than any.

use vstd::arithmetic::overflow::CheckedU64;
use vstd::prelude::*;

verus! {

/// `a * b`, however large.
pub(crate) fn product(a: u64, b: u64) -> (r: CheckedU64)
    ensures
        r@ == a * b,
{
    CheckedU64::new(a).mul_value(b)
}

/// `a * b * c`, however large.
pub(crate) fn product3(a: u64, b: u64, c: u64) -> (r: CheckedU64)
    ensures
        r@ == a * b * c,
{
    product(a, b).mul_value(c)
}

/// `a * b * c * d`, however large.
pub(crate) fn product4(a: u64, b: u64, c: u64, d: u64) -> (r: CheckedU64)
    ensures
        r@ == a * b * c * d,
{
    product3(a, b, c).mul_value(d)
}

/// The least multiple count of `d` that covers `n`.
pub open spec fn ceil_div(n: int, d: int) -> int {
    (n + d - 1) / d
}

/// The least multiple count of `d` that covers `n`.
pub fn div_up(n: u64, d: u64) -> (r: u64)
    requires
        d > 0,
    ensures
        r == ceil_div(n as int, d as int),
        r <= n,
{
    proof {
        vstd::arithmetic::div_mod::lemma_fundamental_div_mod(n as int, d as int);
        let q = n as int / d as int;
        let m = n as int % d as int;
        assert(0 <= q && (n >= 1 && m > 0 ==> q + 1 <= n)) by (nonlinear_arith)
            requires
                n as int == d as int * q + m,
                0 <= m < d,
                d > 0,
                n >= 0,
        ;
        if m == 0 {
            assert((n + d - 1) / d as int == q) by (nonlinear_arith)
                requires
                    n as int == d as int * q,
                    d > 0,
            ;
            assert(q <= n) by (nonlinear_arith)
                requires
                    n as int == d as int * q,
                    d > 0,
                    q >= 0,
            ;
        } else {
            assert((n + d - 1) / d as int == q + 1) by (nonlinear_arith)
                requires
                    n as int == d as int * q + m,
                    0 < m < d,
                    d > 0,
            ;
        }
    }
    let q: u64 = n / d;
    if n % d == 0 {
        q
    } else {
        q + 1
    }
}

/// The smaller of two sizes.
pub fn smaller(a: u64, b: u64) -> (r: u64)
    ensures
        r == if a <= b {
            a
        } else {
            b
        },
{
    if a <= b {
        a
    } else {
        b
    }
}

/// The smaller of two integers.
pub open spec fn least(a: int, b: int) -> int {
    if a <= b {
        a
    } else {
        b
    }
}

/// The larger of two integers.
pub open spec fn greatest(a: int, b: int) -> int {
    if a >= b {
        a
    } else {
        b
    }
}

/// `a - b`, not below zero.
pub open spec fn reduced(a: int, b: int) -> int {
    if a >= b {
        a - b
    } else {
        0
    }
}

/// `a + b`, not above what a `u64` holds.
pub open spec fn capped_sum(a: int, b: int) -> int {
    if a + b <= u64::MAX {
        a + b
    } else {
        u64::MAX as int
    }
}

} // verus!
