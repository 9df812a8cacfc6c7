//! One job of a batch: a search of its own, from the first iteration, and
//! what is told of it afterwards.
//!
//! Jobs share nothing, so a batch may run them in any order and side by
//! side. A deadline does not stop a job; it only stops the wait for it. A
//! job that misses its deadline is reported as [`JobOutcome::Timeout`],
//! never as a failure.

use crate::bigint::{from_u64, int_value};
use crate::factor::difference_of_squares;
use crate::fermat::{candidate, final_iteration, search_result};
use malachite::Integer;
use vstd::prelude::*;

verus! {

/// How a job ended.
pub enum JobOutcome {
    /// The search found `p * q == n` after `iterations` iterations.
    Factored { p: Integer, q: Integer, iterations: Integer },
    /// The search came to rest at iteration `iterations` with nothing to
    /// report.
    Failed { iterations: Integer },
    /// The job did not end before its deadline.
    Timeout,
}

impl JobOutcome {
    /// The outcome of a search that returned `result` and came to rest at
    /// `iterations`.
    pub fn of_search(result: Option<(Integer, Integer)>, iterations: Integer) -> (outcome: Self)
        ensures
            outcome == (match result {
                Some(pair) => JobOutcome::Factored { p: pair.0, q: pair.1, iterations },
                None => JobOutcome::Failed { iterations },
            }),
    {
        match result {
            Some(pair) => JobOutcome::Factored { p: pair.0, q: pair.1, iterations },
            None => JobOutcome::Failed { iterations },
        }
    }

    /// The outcome to report of a job that was waited for until its
    /// deadline: its own where it ended in time, `Timeout` where it did not.
    pub fn of_race(finished: Option<JobOutcome>) -> (outcome: Self)
        ensures
            outcome == (match finished {
                Some(ended) => ended,
                None => JobOutcome::Timeout,
            }),
    {
        match finished {
            Some(ended) => ended,
            None => JobOutcome::Timeout,
        }
    }
}

/// Runs the search for `n` from the first iteration to its end.
pub fn run_job(n: &Integer) -> (outcome: JobOutcome)
    requires
        int_value(*n) >= 0,
    ensures
        match outcome {
            JobOutcome::Factored { p, q, iterations } => search_result(
                int_value(*n),
                candidate(int_value(*n), 1),
            ) == Some((int_value(p), int_value(q))) && int_value(p) * int_value(q) == int_value(*n)
                && int_value(iterations) == final_iteration(int_value(*n), 1),
            JobOutcome::Failed { iterations } => search_result(
                int_value(*n),
                candidate(int_value(*n), 1),
            ) is None && int_value(iterations) == final_iteration(int_value(*n), 1),
            JobOutcome::Timeout => false,
        },
{
    let mut iterations = from_u64(1);
    let result = difference_of_squares(n, &mut iterations);
    JobOutcome::of_search(result, iterations)
}

} // verus!
