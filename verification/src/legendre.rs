//! Quadratic-residue tables for a fixed set of small primes, and the filter
//! built from them.
//!
//! A perfect square leaves a quadratic residue modulo every prime, so a
//! number that leaves a non-residue modulo one of them cannot be a square.
//! The converse fails: the filter rejects, it never confirms.

use crate::bigint::{from_u64, int_value, low_u64, remainder, trunc_div};
use crate::sqrt::{is_perfect_square, squares_to};
use malachite::Integer;
use vstd::arithmetic::div_mod::{lemma_fundamental_div_mod, lemma_mul_mod_noop_general};
use vstd::prelude::*;

verus! {

/// Mark of a residue class that holds the square of some integer.
pub const RESIDUE: i8 = 1;

/// Mark of a residue class that holds no square.
pub const NON_RESIDUE: i8 = -1;

/// How many primes the filter consults.
pub const FILTER_SIZE: usize = 10;

/// The primes the filter consults, in the order in which it consults them.
pub const FILTER_PRIMES: [u64; 10] = [3, 5, 7, 11, 13, 17, 19, 23, 29, 31];

/// The primes the filter consults, as a sequence.
pub open spec fn filter_primes() -> Seq<u64> {
    FILTER_PRIMES@
}

/// The primes of the filter, one by one, and the range they lie in.
pub proof fn lemma_filter_primes()
    ensures
        filter_primes() =~= seq![3u64, 5u64, 7u64, 11u64, 13u64, 17u64, 19u64, 23u64, 29u64, 31u64],
        forall|i: int| 0 <= i < filter_primes().len() ==> 3 <= #[trigger] filter_primes()[i] <= 31,
{
}

/// The residue class of `s * s` modulo `p`.
pub open spec fn square_mod(s: int, p: int) -> int {
    (s * s) % p
}

/// Is `r` the residue of a square of one of `0, .., bound - 1` modulo `p`?
pub open spec fn is_residue_below(r: int, p: int, bound: int) -> bool {
    exists|s: int| 0 <= s < bound && #[trigger] square_mod(s, p) == r
}

/// Is `r` the residue of some square modulo `p`? The class of zero counts:
/// it is the residue of `0 * 0`.
pub open spec fn is_residue(r: int, p: int) -> bool {
    is_residue_below(r, p, p)
}

/// Does `v` leave a residue of a square modulo every prime of the filter?
pub open spec fn probably_square(v: int) -> bool {
    forall|i: int|
        0 <= i < filter_primes().len() ==> is_residue(
            v % (#[trigger] filter_primes()[i] as int),
            filter_primes()[i] as int,
        )
}

/// The square of any integer leaves the residue of a square.
pub proof fn lemma_square_is_residue(t: int, p: int)
    requires
        p > 0,
    ensures
        is_residue((t * t) % p, p),
{
    let s = t % p;
    lemma_mul_mod_noop_general(t, t, p);
    assert(square_mod(s, p) == (t * t) % p);
}

/// The filter has no false negatives: every perfect square passes it.
pub proof fn lemma_squares_pass(v: int)
    requires
        is_perfect_square(v),
    ensures
        probably_square(v),
{
    let t = choose|t: int| squares_to(t, v);
    assert forall|i: int| 0 <= i < filter_primes().len() implies is_residue(
        v % (#[trigger] filter_primes()[i] as int),
        filter_primes()[i] as int,
    ) by {
        lemma_square_is_residue(t, filter_primes()[i] as int);
    }
}

/// The residue classes of one prime, each marked [`RESIDUE`] or
/// [`NON_RESIDUE`].
pub struct LegendreTable {
    pub prime: u64,
    pub marks: Vec<i8>,
}

impl LegendreTable {
    /// The table has one mark for each residue class, and each mark says
    /// whether the class holds a square.
    pub open spec fn wf(&self) -> bool {
        &&& self.prime >= 1
        &&& self.marks@.len() == self.prime
        &&& forall|r: int|
            0 <= r < self.prime ==> #[trigger] self.marks@[r] == (if is_residue(
                r,
                self.prime as int,
            ) {
                RESIDUE
            } else {
                NON_RESIDUE
            })
    }

    /// Builds the table of `prime` by squaring every residue.
    pub fn build(prime: u64) -> (t: Self)
        requires
            1 <= prime <= 0xffff_ffff,
        ensures
            t.wf(),
            t.prime == prime,
    {
        let mut marks: Vec<i8> = Vec::new();
        let mut k: u64 = 0;
        while k < prime
            invariant
                k <= prime,
                marks@.len() == k,
                forall|r: int| 0 <= r < k ==> #[trigger] marks@[r] == NON_RESIDUE,
            decreases prime - k,
        {
            marks.push(NON_RESIDUE);
            k = k + 1;
        }
        let mut s: u64 = 0;
        while s < prime
            invariant
                1 <= prime <= 0xffff_ffff,
                s <= prime,
                marks@.len() == prime,
                forall|r: int|
                    0 <= r < prime ==> #[trigger] marks@[r] == (if is_residue_below(
                        r,
                        prime as int,
                        s as int,
                    ) {
                        RESIDUE
                    } else {
                        NON_RESIDUE
                    }),
            decreases prime - s,
        {
            assert(s * s <= 0xffff_ffff * 0xffff_ffff) by (nonlinear_arith)
                requires
                    0 <= s <= 0xffff_ffff,
            ;
            let class: u64 = (s * s) % prime;
            marks.set(class as usize, RESIDUE);
            proof {
                let p = prime as int;
                assert(square_mod(s as int, p) == class);
            }
            s = s + 1;
        }
        LegendreTable { prime, marks }
    }

    /// Does the class of `r` hold a square?
    pub fn holds_square(&self, r: u64) -> (b: bool)
        requires
            self.wf(),
            r < self.prime,
        ensures
            b == is_residue(r as int, self.prime as int),
    {
        let classes = self.marks.len();
        self.marks[r as usize] == RESIDUE
    }
}

/// The tables of the primes of [`filter_primes`], in that order.
pub fn legendre_tables() -> (tables: Vec<LegendreTable>)
    ensures
        tables@.len() == filter_primes().len(),
        forall|i: int|
            0 <= i < tables@.len() ==> (#[trigger] tables@[i]).wf() && tables@[i].prime
                == filter_primes()[i],
{
    let mut tables: Vec<LegendreTable> = Vec::new();
    let mut i: usize = 0;
    while i < FILTER_SIZE
        invariant
            i <= FILTER_SIZE,
            tables@.len() == i,
            forall|j: int|
                0 <= j < i ==> (#[trigger] tables@[j]).wf() && tables@[j].prime == filter_primes()[j],
        decreases FILTER_SIZE - i,
    {
        tables.push(LegendreTable::build(FILTER_PRIMES[i]));
        i = i + 1;
    }
    tables
}

/// The rejection filter: the tables of all the primes it consults.
pub struct QuadraticResidueFilter {
    pub tables: Vec<LegendreTable>,
}

impl QuadraticResidueFilter {
    /// The filter holds the table of each prime of [`filter_primes`].
    pub closed spec fn wf(&self) -> bool {
        &&& self.tables@.len() == filter_primes().len()
        &&& forall|i: int|
            0 <= i < self.tables@.len() ==> (#[trigger] self.tables@[i]).wf()
                && self.tables@[i].prime == filter_primes()[i]
    }

    /// Builds the filter.
    pub fn new() -> (f: Self)
        ensures
            f.wf(),
    {
        QuadraticResidueFilter { tables: legendre_tables() }
    }

    /// Whether `v` passes every table. The first table that marks the
    /// residue of `v` a non-residue settles it.
    pub fn passes(&self, v: &Integer) -> (b: bool)
        requires
            self.wf(),
            int_value(*v) >= 0,
        ensures
            b == probably_square(int_value(*v)),
    {
        let mut i: usize = 0;
        while i < self.tables.len()
            invariant
                self.wf(),
                int_value(*v) >= 0,
                i <= self.tables@.len(),
                forall|j: int|
                    0 <= j < i ==> is_residue(
                        int_value(*v) % (#[trigger] filter_primes()[j] as int),
                        filter_primes()[j] as int,
                    ),
            decreases self.tables@.len() - i,
        {
            let table = &self.tables[i];
            let class = low_u64(&remainder(v, &from_u64(table.prime)));
            proof {
                let p = table.prime as int;
                reveal(trunc_div);
                lemma_fundamental_div_mod(int_value(*v), p);
            }
            if !table.holds_square(class) {
                return false;
            }
            i = i + 1;
        }
        true
    }
}

} // verus!
