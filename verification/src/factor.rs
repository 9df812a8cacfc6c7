//! The search engine of Fermat's method.
//!
//! [`SearchState`] holds one search. [`SearchState::advance`] runs it up to
//! the next thing worth telling: a progress report that is due, a factor
//! pair, or the end of the range. Whoever drives the search decides what to
//! do with a report; [`difference_of_squares`] ignores them and runs to the
//! end.

use crate::bigint::{
    add_assign, copy_of, difference, equal, from_u64, int_value, less_than, low_u64, quotient,
    remainder, sci_string, sci_text, square, sum, trunc_div, Rounding,
};
use crate::fermat::{
    candidate, clamp_checkpoint, final_iteration, high_factor, hits, is_trivial_pair,
    iteration_at, lemma_hit_factors, lemma_pause_point_bounds, lemma_stop_point_bounds,
    low_factor, pause_point, report_due, search_result, stop_point,
};
use crate::legendre::{lemma_squares_pass, QuadraticResidueFilter};
use crate::sqrt::{
    ceil_sqrt, is_perfect_square, lemma_ceil_sqrt_bounds, lemma_square_monotonic, sqrt_ceil,
    sqrt_exact,
};
use malachite::Integer;
use vstd::arithmetic::div_mod::{lemma_fundamental_div_mod, lemma_fundamental_div_mod_converse};
use vstd::prelude::*;
use vstd::string::StringExecFns;

verus! {

/// How many iterations lie between two that are due for a progress
/// report, where the caller has no wish of its own.
pub const REPORT_INTERVAL: u64 = 1_000_000;

/// The numbers that a pair of `Integer`s holds.
pub open spec fn pair_values(r: Option<(Integer, Integer)>) -> Option<(int, int)> {
    match r {
        Some(pair) => Some((int_value(pair.0), int_value(pair.1))),
        None => None,
    }
}

/// The text of `n` in scientific notation with at most `prec` significant
/// digits, the rest cut off towards negative infinity, and a sign on every
/// exponent.
pub open spec fn scinot_text(n: int, prec: u64) -> Seq<char> {
    sci_text(n, prec, Rounding::Floor, true)
}

/// `n` in scientific notation with at most `prec` significant digits.
pub fn scinot(n: &Integer, prec: u64) -> (text: String)
    requires
        prec > 0,
    ensures
        text@ == scinot_text(int_value(*n), prec),
{
    sci_string(n, prec, Rounding::Floor, true)
}

/// The line of a progress report, from the three numbers already written
/// out.
pub open spec fn progress_text(iteration: Seq<char>, p: Seq<char>, q: Seq<char>) -> Seq<char> {
    "Iteration: "@ + iteration + " p = "@ + p + " q = "@ + q
}

/// Puts the line of a progress report together.
pub fn progress_line(iteration: &str, p: &str, q: &str) -> (line: String)
    ensures
        line@ == progress_text(iteration@, p@, q@),
{
    let mut line = String::from_str("Iteration: ");
    line.append(iteration);
    line.append(" p = ");
    line.append(p);
    line.append(" q = ");
    line.append(q);
    line
}

/// The line that reports `iteration` and the candidate factors `p` and `q`,
/// each in scientific notation with at most `prec` significant digits.
pub fn verbose(iteration: &Integer, p: &Integer, q: &Integer, prec: u64) -> (line: String)
    requires
        prec > 0,
    ensures
        line@ == progress_text(
            scinot_text(int_value(*iteration), prec),
            scinot_text(int_value(*p), prec),
            scinot_text(int_value(*q), prec),
        ),
{
    let iteration_text = scinot(iteration, prec);
    let p_text = scinot(p, prec);
    let q_text = scinot(q, prec);
    progress_line(iteration_text.as_str(), p_text.as_str(), q_text.as_str())
}

/// The candidate factors `(a - x) / p` and `(a + x) / q`, each quotient
/// rounded towards zero.
pub fn factor(a: &Integer, x: &Integer, p: Integer, q: Integer) -> (res: (Integer, Integer))
    requires
        int_value(p) != 0,
        int_value(q) != 0,
    ensures
        int_value(res.0) == trunc_div(int_value(*a) - int_value(*x), int_value(p)),
        int_value(res.1) == trunc_div(int_value(*a) + int_value(*x), int_value(q)),
{
    (quotient(&difference(a, x), &p), quotient(&sum(a, x), &q))
}

/// One search in progress.
pub struct SearchState {
    /// The candidate that the current iteration tries.
    pub a: Integer,
    /// `a * a - n`.
    pub x2: Integer,
    /// `2 * a`.
    pub double_a: Integer,
    /// The number of the current iteration, counted from 1.
    pub iteration: Integer,
}

/// What a search has to tell when it pauses.
pub enum SearchEvent {
    /// A report was due at iteration `iteration`, whose candidate `a` is no
    /// hit. `p` and `q` are `a` less and plus the floor of the square root
    /// of `a * a - n`. The search has moved on to the next candidate.
    Progress { iteration: Integer, a: Integer, p: Integer, q: Integer },
    /// The candidate hits, and `p * q == n` with neither `1` nor `n` in the
    /// pair.
    Found { p: Integer, q: Integer },
    /// The candidate hits, but its pair has `1` or `n` in it.
    Trivial,
    /// The candidates below `n` have run out.
    Exhausted,
}

/// The residue of `i + 1` from that of `i`.
proof fn lemma_next_phase(i: int, k: int)
    requires
        k > 0,
    ensures
        (i + 1) % k == (if i % k + 1 == k {
            0
        } else {
            i % k + 1
        }),
{
    lemma_fundamental_div_mod(i, k);
    let d = i / k;
    let r = i % k;
    if r + 1 == k {
        assert(i + 1 == (d + 1) * k + 0) by (nonlinear_arith)
            requires
                i == k * d + r,
                r + 1 == k,
        ;
        lemma_fundamental_div_mod_converse(i + 1, k, d + 1, 0);
    } else {
        assert(i + 1 == d * k + (r + 1)) by (nonlinear_arith)
            requires
                i == k * d + r,
        ;
        lemma_fundamental_div_mod_converse(i + 1, k, d, r + 1);
    }
}

/// A candidate at or past the ceiling square root has a non-negative gap.
proof fn lemma_gap_not_negative(n: int, a: int)
    requires
        n >= 0,
        a >= ceil_sqrt(n),
    ensures
        a * a - n >= 0,
        a >= 0,
{
    lemma_ceil_sqrt_bounds(n);
    lemma_square_monotonic(ceil_sqrt(n), a);
}

impl SearchState {
    /// The state is that of the search for `n` at iteration `iteration`:
    /// `a` is the candidate of that iteration, and `x2` and `double_a` are
    /// what their names say of it.
    pub open spec fn wf(&self, n: int) -> bool {
        &&& n >= 0
        &&& int_value(self.iteration) >= 1
        &&& int_value(self.a) == candidate(n, int_value(self.iteration))
        &&& int_value(self.x2) == int_value(self.a) * int_value(self.a) - n
        &&& int_value(self.double_a) == 2 * int_value(self.a)
    }

    /// The state at the iteration `checkpoint`, or at the first iteration
    /// where `checkpoint` is below 1.
    pub fn start(n: &Integer, checkpoint: &Integer) -> (s: Self)
        requires
            int_value(*n) >= 0,
        ensures
            s.wf(int_value(*n)),
            int_value(s.iteration) == clamp_checkpoint(int_value(*checkpoint)),
    {
        let one = from_u64(1);
        let mut a = sqrt_ceil(n);
        let iteration = if less_than(&one, checkpoint) {
            add_assign(&mut a, &difference(checkpoint, &one));
            copy_of(checkpoint)
        } else {
            one
        };
        let x2 = difference(&square(&a), n);
        let double_a = sum(&a, &a);
        SearchState { a, x2, double_a, iteration }
    }

    /// Moves on to the next candidate. The new gap comes from the old one
    /// by additions alone: `(a + 1) * (a + 1) == a * a + (2 * a + 1)`.
    fn step(&mut self, Ghost(n): Ghost<int>)
        requires
            old(self).wf(n),
        ensures
            final(self).wf(n),
            int_value(final(self).a) == int_value(old(self).a) + 1,
            int_value(final(self).iteration) == int_value(old(self).iteration) + 1,
    {
        let one = from_u64(1);
        let ghost a = int_value(self.a);
        add_assign(&mut self.a, &one);
        add_assign(&mut self.double_a, &one);
        add_assign(&mut self.x2, &self.double_a);
        add_assign(&mut self.double_a, &one);
        add_assign(&mut self.iteration, &one);
        assert((a + 1) * (a + 1) == a * a + (2 * a + 1)) by (nonlinear_arith);
    }

    /// Runs the search up to its next pause and says why it paused.
    ///
    /// A candidate is tested for an exact square root where the filter lets
    /// it pass, and at every iteration that is due for a report. After
    /// `Found`, `Trivial` or `Exhausted` the state stays where it is, and a
    /// further call returns the same again.
    pub fn advance(&mut self, n: &Integer, filter: &QuadraticResidueFilter, interval: u64) -> (event:
        SearchEvent)
        requires
            old(self).wf(int_value(*n)),
            filter.wf(),
            interval > 0,
        ensures
            final(self).wf(int_value(*n)),
            ({
                let nv = int_value(*n);
                let t = pause_point(nv, int_value(old(self).a), interval as int);
                let lo = low_factor(nv, t);
                let hi = high_factor(nv, t);
                match event {
                    SearchEvent::Exhausted => t >= nv && int_value(final(self).a) == t,
                    SearchEvent::Found { p, q } => t < nv && hits(nv, t) && !is_trivial_pair(
                        nv,
                        lo,
                        hi,
                    ) && int_value(p) == lo && int_value(q) == hi && int_value(p) * int_value(q)
                        == nv && int_value(final(self).a) == t,
                    SearchEvent::Trivial => t < nv && hits(nv, t) && is_trivial_pair(nv, lo, hi)
                        && int_value(final(self).a) == t,
                    SearchEvent::Progress { iteration, a, p, q } => t < nv && !hits(nv, t)
                        && int_value(iteration) == iteration_at(nv, t) && int_value(a) == t
                        && int_value(p) == lo && int_value(q) == hi && int_value(final(self).a)
                        == t + 1,
                }
            }),
    {
        let ghost nv = int_value(*n);
        let ghost target = pause_point(nv, int_value(self.a), interval as int);
        let one = from_u64(1);
        let mut phase: u64 = low_u64(&remainder(&self.iteration, &from_u64(interval)));
        proof {
            reveal(trunc_div);
            lemma_fundamental_div_mod(int_value(self.iteration), interval as int);
        }
        while less_than(&self.a, n)
            invariant
                self.wf(nv),
                nv == int_value(*n),
                filter.wf(),
                interval > 0,
                int_value(one) == 1,
                phase == int_value(self.iteration) % (interval as int),
                target == pause_point(nv, int_value(old(self).a), interval as int),
                pause_point(nv, int_value(self.a), interval as int) == target,
            decreases nv - int_value(self.a),
        {
            let ghost a = int_value(self.a);
            proof {
                lemma_gap_not_negative(nv, a);
                if is_perfect_square(a * a - nv) {
                    lemma_squares_pass(a * a - nv);
                }
                reveal(report_due);
            }
            let due = phase == 1;
            if due || filter.passes(&self.x2) {
                let (is_exact, x) = sqrt_exact(&self.x2);
                if is_exact || due {
                    let (p, q) = factor(&self.a, &x, from_u64(1), from_u64(1));
                    proof {
                        reveal(trunc_div);
                    }
                    if !is_exact {
                        let iteration = copy_of(&self.iteration);
                        let a = copy_of(&self.a);
                        self.step(Ghost(nv));
                        return SearchEvent::Progress { iteration, a, p, q };
                    }
                    if equal(&p, &one) || equal(&q, &one) || equal(&p, n) || equal(&q, n) {
                        return SearchEvent::Trivial;
                    }
                    proof {
                        lemma_hit_factors(nv, a);
                    }
                    return SearchEvent::Found { p, q };
                }
            }
            proof {
                lemma_next_phase(int_value(self.iteration), interval as int);
            }
            self.step(Ghost(nv));
            phase = if phase + 1 == interval {
                0
            } else {
                phase + 1
            };
        }
        SearchEvent::Exhausted
    }
}

/// Looks for two factors of `n` by Fermat's method, starting at the
/// iteration `*iteration` (at the first one where that is below 1).
///
/// Returns the pair of the first candidate that hits, or `None` where no
/// candidate below `n` hits or the pair has `1` or `n` in it. On return
/// `*iteration` is the iteration at which the search came to rest.
pub fn difference_of_squares(n: &Integer, iteration: &mut Integer) -> (result: Option<
    (Integer, Integer),
>)
    requires
        int_value(*n) >= 0,
    ensures
        pair_values(result) == search_result(
            int_value(*n),
            candidate(int_value(*n), clamp_checkpoint(int_value(*old(iteration)))),
        ),
        int_value(*final(iteration)) == final_iteration(int_value(*n), int_value(*old(iteration))),
        result matches Some(pair) ==> int_value(pair.0) * int_value(pair.1) == int_value(*n) && 1
            < int_value(pair.0) <= int_value(pair.1) < int_value(*n),
{
    let ghost nv = int_value(*n);
    let ghost first = candidate(nv, clamp_checkpoint(int_value(*iteration)));
    let filter = QuadraticResidueFilter::new();
    let mut state = SearchState::start(n, iteration);
    loop
        invariant
            state.wf(nv),
            nv == int_value(*n),
            filter.wf(),
            first == candidate(nv, clamp_checkpoint(int_value(*old(iteration)))),
            stop_point(nv, int_value(state.a)) == stop_point(nv, first),
        decreases nv - int_value(state.a),
    {
        let ghost a = int_value(state.a);
        proof {
            lemma_pause_point_bounds(nv, a, REPORT_INTERVAL as int);
        }
        match state.advance(n, &filter, REPORT_INTERVAL) {
            SearchEvent::Progress { iteration: _, a: _, p: _, q: _ } => {},
            SearchEvent::Found { p, q } => {
                proof {
                    let s = int_value(state.a);
                    lemma_gap_not_negative(nv, s);
                    lemma_hit_factors(nv, s);
                    assert(int_value(q) < nv) by (nonlinear_arith)
                        requires
                            int_value(p) * int_value(q) == nv,
                            1 < int_value(p) <= int_value(q),
                    ;
                }
                *iteration = state.iteration;
                return Some((p, q));
            },
            SearchEvent::Trivial => {
                *iteration = state.iteration;
                return None;
            },
            SearchEvent::Exhausted => {
                *iteration = state.iteration;
                return None;
            },
        }
    }
}

} // verus!
