//! Exact integer square roots, and the cheap test that comes before them.

use crate::bigint::{
    ceiling_sqrt_of, equal, floor_sqrt_of, int_value, is_ceil_sqrt, is_floor_sqrt, square,
};
use crate::legendre::{lemma_squares_pass, probably_square, QuadraticResidueFilter};
use malachite::Integer;
use vstd::prelude::*;

verus! {

/// The floor of the square root of `v`, for `v >= 0`.
pub open spec fn floor_sqrt(v: int) -> int {
    choose|r: int| is_floor_sqrt(v, r)
}

/// The ceiling of the square root of `v`, for `v >= 0`: the floor where the
/// root is exact, one more where it is not.
pub open spec fn ceil_sqrt(v: int) -> int {
    let r = floor_sqrt(v);
    if r * r == v {
        r
    } else {
        r + 1
    }
}

/// Does `r` square to `v`?
pub open spec fn squares_to(r: int, v: int) -> bool {
    r * r == v
}

/// Is `v` the square of some integer?
pub open spec fn is_perfect_square(v: int) -> bool {
    exists|r: int| squares_to(r, v)
}

/// Squaring keeps the order of non-negative integers.
pub proof fn lemma_square_monotonic(x: int, y: int)
    requires
        0 <= x <= y,
    ensures
        x * x <= y * y,
        x < y ==> x * x < y * y,
{
    if x < y {
        assert(x * x < y * y) by (nonlinear_arith)
            requires
                0 <= x < y,
        ;
    }
}

/// Every non-negative integer has a floor square root.
pub proof fn lemma_floor_sqrt_exists(v: int)
    requires
        v >= 0,
    ensures
        is_floor_sqrt(v, floor_sqrt(v)),
    decreases v,
{
    if v == 0 {
        assert(is_floor_sqrt(0, 0));
    } else {
        lemma_floor_sqrt_exists(v - 1);
        let r = floor_sqrt(v - 1);
        assert((r + 2) * (r + 2) == (r + 1) * (r + 1) + 2 * r + 3) by (nonlinear_arith);
        if (r + 1) * (r + 1) <= v {
            assert(is_floor_sqrt(v, r + 1));
        } else {
            assert(is_floor_sqrt(v, r));
        }
    }
}

/// The floor square root is the only integer that brackets `v` between its
/// square and the next square.
pub proof fn lemma_floor_sqrt_unique(v: int, r: int)
    requires
        is_floor_sqrt(v, r),
    ensures
        r == floor_sqrt(v),
{
    let s = floor_sqrt(v);
    if r < s {
        lemma_square_monotonic(r + 1, s);
    } else if s < r {
        lemma_square_monotonic(s + 1, r);
    }
}

/// The ceiling square root is the only non-negative integer whose square
/// reaches `v` while the square before it does not.
pub proof fn lemma_ceil_sqrt_unique(v: int, r: int)
    requires
        v >= 0,
        is_ceil_sqrt(v, r),
    ensures
        r == ceil_sqrt(v),
{
    lemma_floor_sqrt_exists(v);
    let f = floor_sqrt(v);
    if f * f == v {
        if r < f {
            lemma_square_monotonic(r, f);
        } else if f < r {
            lemma_square_monotonic(f, r - 1);
        }
    } else {
        if r <= f {
            lemma_square_monotonic(r, f);
        } else if f + 1 < r {
            lemma_square_monotonic(f + 1, r - 1);
        }
    }
}

/// The ceiling square root is non-negative, its square reaches `v`, and no
/// smaller non-negative integer does.
pub proof fn lemma_ceil_sqrt_bounds(v: int)
    requires
        v >= 0,
    ensures
        is_ceil_sqrt(v, ceil_sqrt(v)),
{
    lemma_floor_sqrt_exists(v);
    let f = floor_sqrt(v);
    if f * f == v && f > 0 {
        lemma_square_monotonic(f - 1, f);
    }
}

/// A non-negative integer is a perfect square exactly when its floor square
/// root squares back to it; a negative integer never is one.
pub proof fn lemma_perfect_square(v: int)
    ensures
        v < 0 ==> !is_perfect_square(v),
        v >= 0 ==> (is_perfect_square(v) <==> floor_sqrt(v) * floor_sqrt(v) == v),
{
    if v < 0 {
        assert forall|r: int| !squares_to(r, v) by {
            assert(r * r >= 0) by (nonlinear_arith);
        }
    } else {
        let f = floor_sqrt(v);
        if f * f == v {
            assert(squares_to(f, v));
        } else {
            assert forall|r: int| !squares_to(r, v) by {
                if r * r == v {
                    let m = if r >= 0 {
                        r
                    } else {
                        -r
                    };
                    assert(m * m == r * r) by (nonlinear_arith)
                        requires
                            m == r || m == -r,
                    ;
                    assert((m + 1) * (m + 1) > m * m) by (nonlinear_arith)
                        requires
                            m >= 0,
                    ;
                    lemma_floor_sqrt_unique(v, m);
                }
            }
        }
    }
}

/// The floor square root of `n`, and whether it is exact.
pub fn sqrt_exact(n: &Integer) -> (res: (bool, Integer))
    requires
        int_value(*n) >= 0,
    ensures
        int_value(res.1) == floor_sqrt(int_value(*n)),
        res.0 == is_perfect_square(int_value(*n)),
{
    let root = floor_sqrt_of(n);
    let is_square = equal(&square(&root), n);
    proof {
        lemma_floor_sqrt_unique(int_value(*n), int_value(root));
        lemma_perfect_square(int_value(*n));
    }
    (is_square, root)
}

/// The smallest integer whose square is at least `n`.
pub fn sqrt_ceil(n: &Integer) -> (r: Integer)
    requires
        int_value(*n) >= 0,
    ensures
        int_value(r) == ceil_sqrt(int_value(*n)),
{
    let r = ceiling_sqrt_of(n);
    proof {
        lemma_ceil_sqrt_unique(int_value(*n), int_value(r));
    }
    r
}

/// A fast test that rejects most non-squares and never rejects a square:
/// `n` passes when it leaves the residue of a square modulo each prime of
/// the filter.
pub fn is_probably_square(n: &Integer) -> (b: bool)
    requires
        int_value(*n) >= 0,
    ensures
        b == probably_square(int_value(*n)),
        is_perfect_square(int_value(*n)) ==> b,
{
    let filter = QuadraticResidueFilter::new();
    proof {
        if is_perfect_square(int_value(*n)) {
            lemma_squares_pass(int_value(*n));
        }
    }
    filter.passes(n)
}

} // verus!
