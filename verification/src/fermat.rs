//! The mathematics of Fermat's method.
//!
//! To factor `n`, look for an `a` such that `a * a - n` is a perfect square
//! `x * x`; then `n == (a - x) * (a + x)`. The search starts at the ceiling
//! of the square root of `n` and tries one `a` after the other. Iteration
//! `i` of the search is the one that tries [`candidate`]`(n, i)`.
//!
//! This module says what the search finds, in terms of integers alone, and
//! proves what follows from that. The code that runs the search is in
//! [`crate::factor`].

use crate::sqrt::{
    ceil_sqrt, floor_sqrt, is_perfect_square, lemma_ceil_sqrt_bounds, lemma_ceil_sqrt_unique,
    lemma_floor_sqrt_exists, lemma_perfect_square, lemma_square_monotonic, squares_to,
};
use vstd::arithmetic::div_mod::lemma_mod_multiples_basic;
use vstd::prelude::*;

verus! {

/// Does the search succeed at `a`, that is, is `a * a - n` a perfect square?
pub open spec fn hits(n: int, a: int) -> bool {
    is_perfect_square(a * a - n)
}

/// Where a search that is at `a` comes to rest: the least `b >= a` that
/// either has left the range of the search (`b >= n`) or hits.
pub open spec fn stop_point(n: int, a: int) -> int
    decreases n - a,
{
    if a >= n || hits(n, a) {
        a
    } else {
        stop_point(n, a + 1)
    }
}

/// The smaller factor that a hit at `a` gives.
pub open spec fn low_factor(n: int, a: int) -> int {
    a - floor_sqrt(a * a - n)
}

/// The larger factor that a hit at `a` gives.
pub open spec fn high_factor(n: int, a: int) -> int {
    a + floor_sqrt(a * a - n)
}

/// A pair with `1` or `n` in it says nothing about `n`.
pub open spec fn is_trivial_pair(n: int, p: int, q: int) -> bool {
    p == 1 || q == 1 || p == n || q == n
}

/// A checkpoint below 1 counts as 1.
pub open spec fn clamp_checkpoint(k: int) -> int {
    if k < 1 {
        1
    } else {
        k
    }
}

/// The `a` that iteration `iteration` of the search for `n` tries.
pub open spec fn candidate(n: int, iteration: int) -> int {
    ceil_sqrt(n) + iteration - 1
}

/// The iteration that tries `a`.
pub open spec fn iteration_at(n: int, a: int) -> int {
    a - ceil_sqrt(n) + 1
}

/// What a search that is at `a` returns: the pair of the first hit, unless
/// there is none below `n` or the pair is trivial.
pub open spec fn search_result(n: int, a: int) -> Option<(int, int)> {
    let s = stop_point(n, a);
    if s < n && !is_trivial_pair(n, low_factor(n, s), high_factor(n, s)) {
        Some((low_factor(n, s), high_factor(n, s)))
    } else {
        None
    }
}

/// The iteration at which a search that starts from checkpoint `k` comes to
/// rest.
pub open spec fn final_iteration(n: int, k: int) -> int {
    iteration_at(n, stop_point(n, candidate(n, clamp_checkpoint(k))))
}

/// Is a progress report due at `iteration`, with one report every
/// `interval` iterations?
#[verifier::opaque]
pub open spec fn report_due(iteration: int, interval: int) -> bool {
    iteration % interval == 1
}

/// Where a search that is at `a` next has something to say: the least
/// `b >= a` that has left the range, hits, or is due for a report.
pub open spec fn pause_point(n: int, a: int, interval: int) -> int
    decreases n - a,
{
    if a >= n || hits(n, a) || report_due(iteration_at(n, a), interval) {
        a
    } else {
        pause_point(n, a + 1, interval)
    }
}

/// Does `d` divide `n`?
pub open spec fn divides(d: int, n: int) -> bool {
    n % d == 0
}

/// Is `n` a prime number?
pub open spec fn is_prime(n: int) -> bool {
    n > 1 && forall|d: int| 1 < d < n ==> !#[trigger] divides(d, n)
}

/// The search never moves backwards, rests only outside the range or on a
/// hit, and does not leave the range by more than it has to.
pub proof fn lemma_stop_point_bounds(n: int, a: int)
    ensures
        a <= stop_point(n, a),
        stop_point(n, a) >= n || hits(n, stop_point(n, a)),
        a <= n ==> stop_point(n, a) <= n,
        a >= n ==> stop_point(n, a) == a,
    decreases n - a,
{
    if !(a >= n || hits(n, a)) {
        lemma_stop_point_bounds(n, a + 1);
    }
}

/// Nothing before the point of rest is a hit or outside the range.
pub proof fn lemma_stop_point_least(n: int, a: int, b: int)
    requires
        a <= b < stop_point(n, a),
    ensures
        b < n,
        !hits(n, b),
    decreases b - a,
{
    if a < b {
        lemma_stop_point_least(n, a + 1, b);
    }
}

/// A search that is taken up anywhere before its point of rest comes to
/// rest at the same point.
pub proof fn lemma_stop_point_resume(n: int, a: int, b: int)
    requires
        a <= b <= stop_point(n, a),
    ensures
        stop_point(n, b) == stop_point(n, a),
    decreases b - a,
{
    if a < b {
        lemma_stop_point_resume(n, a + 1, b);
    }
}

/// The search pauses no later than it rests, and pausing loses nothing:
/// taken up at the pause, or one past a pause that is no rest, it rests
/// where it would have.
pub proof fn lemma_pause_point_bounds(n: int, a: int, interval: int)
    ensures
        a <= pause_point(n, a, interval) <= stop_point(n, a),
        stop_point(n, pause_point(n, a, interval)) == stop_point(n, a),
        pause_point(n, a, interval) < stop_point(n, a) ==> stop_point(
            n,
            pause_point(n, a, interval) + 1,
        ) == stop_point(n, a),
    decreases n - a,
{
    if a < n && !hits(n, a) {
        if report_due(iteration_at(n, a), interval) {
            lemma_stop_point_bounds(n, a);
        } else {
            lemma_pause_point_bounds(n, a + 1, interval);
        }
    }
}

/// No non-negative integer below the ceiling square root squares to `n` or
/// more.
pub proof fn lemma_ceil_sqrt_least(n: int, b: int)
    requires
        n >= 0,
        b >= 0,
        b * b >= n,
    ensures
        0 <= ceil_sqrt(n) <= b,
{
    lemma_ceil_sqrt_bounds(n);
    let c = ceil_sqrt(n);
    if b < c {
        lemma_square_monotonic(b, c - 1);
    }
}

/// A hit at a non-negative `a` splits `n` into two factors, the smaller of
/// them positive when `n` is.
pub proof fn lemma_hit_factors(n: int, a: int)
    requires
        a >= 0,
        hits(n, a),
    ensures
        low_factor(n, a) * high_factor(n, a) == n,
        low_factor(n, a) <= a <= high_factor(n, a),
        n > 0 ==> low_factor(n, a) >= 1,
{
    let v = a * a - n;
    lemma_perfect_square(v);
    lemma_floor_sqrt_exists(v);
    let x = floor_sqrt(v);
    assert((a - x) * (a + x) == a * a - x * x) by (nonlinear_arith);
    if n > 0 && x >= a {
        lemma_square_monotonic(a, x);
    }
}

/// Fermat's method finds a factor pair of every composite number that is
/// the difference of two squares. Those are the composite numbers that do
/// not leave the remainder 2 on division by 4: for an `n` that does, one
/// factor of each pair is even and the other odd, and no `a` ever hits.
/// The pair found has neither `1` nor `n` in it.
pub proof fn lemma_composite_is_factored(n: int, p: int, q: int)
    requires
        p > 1,
        q > 1,
        n == p * q,
        n % 4 != 2,
    ensures
        search_result(n, candidate(n, 1)) matches Some(pair) && pair.0 * pair.1 == n && pair.0 > 1
            && pair.1 > 1 && pair.0 != n && pair.1 != n,
{
    assert(n >= 4) by (nonlinear_arith)
        requires
            p >= 2,
            q >= 2,
            n == p * q,
    ;
    // a factor pair whose members are both odd or both even
    let u = if n % 2 == 1 {
        p
    } else {
        2
    };
    let v = if n % 2 == 1 {
        q
    } else {
        n / 2
    };
    if n % 2 == 1 {
        if p % 2 == 0 {
            lemma_mod_multiples_basic(q * (p / 2), 2);
            assert(q * (p / 2) * 2 == p * q) by (nonlinear_arith)
                requires
                    p == 2 * (p / 2),
            ;
        }
        if q % 2 == 0 {
            lemma_mod_multiples_basic(p * (q / 2), 2);
            assert(p * (q / 2) * 2 == p * q) by (nonlinear_arith)
                requires
                    q == 2 * (q / 2),
            ;
        }
    }
    assert(u > 1 && v > 1 && (u + v) % 2 == 0);
    assert(u * v == n);
    // their mean hits
    let b = (u + v) / 2;
    let y = v - b;
    assert(b * b - y * y == n) by (nonlinear_arith)
        requires
            u == b - y,
            v == b + y,
            n == u * v,
    ;
    assert(squares_to(y, b * b - n));
    assert(u + v <= u * v) by (nonlinear_arith)
        requires
            u >= 2,
            v >= 2,
    ;
    assert(y * y >= 0) by (nonlinear_arith);
    lemma_ceil_sqrt_least(n, b);
    // so the search rests on a hit no later than there
    let a0 = candidate(n, 1);
    let s = stop_point(n, a0);
    lemma_stop_point_bounds(n, a0);
    if b < s {
        lemma_stop_point_least(n, a0, b);
    }
    lemma_hit_factors(n, s);
    let lo = low_factor(n, s);
    let hi = high_factor(n, s);
    // and the pair of that hit is not the trivial one
    if lo == 1 {
        assert(hi == n) by (nonlinear_arith)
            requires
                lo == 1,
                lo * hi == n,
        ;
    }
    if lo == n || hi == 1 {
        assert(false) by (nonlinear_arith)
            requires
                lo == n || hi == 1,
                1 <= lo <= hi,
                lo * hi == n,
                n >= 4,
        ;
    }
    if hi == n {
        assert(lo == 1) by (nonlinear_arith)
            requires
                hi == n,
                lo * hi == n,
                n >= 4,
        ;
    }
}

/// Fermat's method never reports a factor pair of a prime number, from
/// whatever checkpoint it starts.
pub proof fn lemma_prime_is_not_factored(n: int, k: int)
    requires
        is_prime(n),
    ensures
        search_result(n, candidate(n, clamp_checkpoint(k))) is None,
{
    lemma_ceil_sqrt_bounds(n);
    let a0 = candidate(n, clamp_checkpoint(k));
    let s = stop_point(n, a0);
    lemma_stop_point_bounds(n, a0);
    if s < n {
        lemma_hit_factors(n, s);
        let lo = low_factor(n, s);
        let hi = high_factor(n, s);
        if lo != 1 {
            lemma_mod_multiples_basic(hi, lo);
            assert(divides(lo, n));
        }
    }
}

/// The search for the factors of 1 is over before it begins: it returns no
/// pair and does not advance.
pub proof fn lemma_one_stops_at_once(k: int)
    ensures
        search_result(1, candidate(1, clamp_checkpoint(k))) is None,
        final_iteration(1, k) == clamp_checkpoint(k),
{
    lemma_ceil_sqrt_unique(1, 1);
}

/// A search that is resumed from a checkpoint no later than the iteration
/// at which the search from the start comes to rest returns what that
/// search returns, at the same final iteration.
pub proof fn lemma_resumable(n: int, k: int)
    requires
        1 <= k <= final_iteration(n, 1),
    ensures
        search_result(n, candidate(n, k)) == search_result(n, candidate(n, 1)),
        final_iteration(n, k) == final_iteration(n, 1),
{
    lemma_stop_point_resume(n, candidate(n, 1), candidate(n, k));
}

} // verus!
