//! A residue test that needs no tables.

use crate::bigint::{equal, from_u64, int_value, remainder, trunc_div, trunc_rem};
use crate::legendre::{
    filter_primes, is_residue, lemma_filter_primes, lemma_squares_pass, probably_square,
    square_mod, FILTER_PRIMES, FILTER_SIZE,
};
use crate::sqrt::{is_perfect_square, lemma_perfect_square};
use malachite::Integer;
use vstd::arithmetic::div_mod::{lemma_fundamental_div_mod, lemma_mod_bound, lemma_small_mod};
use vstd::prelude::*;

verus! {

/// Is `q` the residue modulo `p` of the square of one of `from, .., p - 1`?
pub open spec fn has_root_from(q: int, p: int, from: int) -> bool {
    exists|j: int| from <= j < p && #[trigger] square_mod(j, p) == q
}

/// Does the remainder of `v` by each prime of the filter vanish or equal
/// the residue of a square of one of `1, .., p - 1`? The remainder is that
/// of the division that rounds towards zero, so a negative `v` passes only
/// where every prime divides it.
pub open spec fn passes_residue_test(v: int) -> bool {
    forall|i: int|
        0 <= i < filter_primes().len() ==> {
            let p = #[trigger] filter_primes()[i] as int;
            trunc_rem(v, p) == 0 || has_root_from(trunc_rem(v, p), p, 1)
        }
}

/// On non-negative integers the residue test and the table filter decide
/// alike.
pub proof fn lemma_tests_agree(v: int)
    requires
        v >= 0,
    ensures
        passes_residue_test(v) == probably_square(v),
{
    lemma_filter_primes();
    assert forall|i: int| 0 <= i < filter_primes().len() implies {
        let p = #[trigger] filter_primes()[i] as int;
        (trunc_rem(v, p) == 0 || has_root_from(trunc_rem(v, p), p, 1)) == is_residue(v % p, p)
    } by {
        let p = filter_primes()[i] as int;
        reveal(trunc_div);
        lemma_fundamental_div_mod(v, p);
        lemma_mod_bound(v, p);
        lemma_small_mod(0, p as nat);
        let q = v % p;
        assert(trunc_rem(v, p) == q);
        if q == 0 {
            assert(square_mod(0, p) == 0);
        } else if has_root_from(q, p, 1) {
            let j = choose|j: int| 1 <= j < p && #[trigger] square_mod(j, p) == q;
            assert(0 <= j < p && square_mod(j, p) == q);
        } else if is_residue(q, p) {
            let j = choose|j: int| 0 <= j < p && #[trigger] square_mod(j, p) == q;
            assert(square_mod(0, p) == 0);
            assert(1 <= j < p && square_mod(j, p) == q);
        }
    }
}

/// Whether `q` equals the residue modulo `p` of the square of one of
/// `1, .., p - 1`.
fn has_root(q: &Integer, p: u64) -> (b: bool)
    requires
        1 <= p <= 0xffff_ffff,
    ensures
        b == has_root_from(int_value(*q), p as int, 1),
{
    let mut j: u64 = 1;
    while j < p
        invariant
            1 <= j,
            1 <= p <= 0xffff_ffff,
            !has_root_from(int_value(*q), p as int, 1) || has_root_from(
                int_value(*q),
                p as int,
                j as int,
            ),
        decreases p - j,
    {
        assert(j * j <= 0xffff_ffff * 0xffff_ffff) by (nonlinear_arith)
            requires
                0 <= j <= 0xffff_ffff,
        ;
        if equal(&from_u64((j * j) % p), q) {
            assert(square_mod(j as int, p as int) == int_value(*q));
            return true;
        }
        proof {
            if has_root_from(int_value(*q), p as int, j as int) {
                let w = choose|w: int|
                    j <= w < p && #[trigger] square_mod(w, p as int) == int_value(*q);
                assert(j + 1 <= w < p && square_mod(w, p as int) == int_value(*q));
            }
        }
        j = j + 1;
    }
    false
}

/// Tests `n` against the quadratic residues of each prime of the filter,
/// squaring the residues afresh in place of looking them up.
pub fn sqr_perf(n: &Integer) -> (b: bool)
    ensures
        b == passes_residue_test(int_value(*n)),
        is_perfect_square(int_value(*n)) ==> b,
{
    proof {
        if is_perfect_square(int_value(*n)) {
            lemma_perfect_square(int_value(*n));
            lemma_squares_pass(int_value(*n));
            lemma_tests_agree(int_value(*n));
        }
    }
    let zero = from_u64(0);
    let mut i: usize = 0;
    while i < FILTER_SIZE
        invariant
            i <= FILTER_SIZE,
            int_value(zero) == 0,
            is_perfect_square(int_value(*n)) ==> passes_residue_test(int_value(*n)),
            forall|k: int|
                0 <= k < i ==> {
                    let p = #[trigger] filter_primes()[k] as int;
                    trunc_rem(int_value(*n), p) == 0 || has_root_from(
                        trunc_rem(int_value(*n), p),
                        p,
                        1,
                    )
                },
        decreases FILTER_SIZE - i,
    {
        proof {
            lemma_filter_primes();
        }
        let p = FILTER_PRIMES[i];
        let q = remainder(n, &from_u64(p));
        if !equal(&q, &zero) {
            if !has_root(&q, p) {
                return false;
            }
        }
        i = i + 1;
    }
    true
}

} // verus!
