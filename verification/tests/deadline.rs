use diffsquare::batch::{run_job, JobOutcome};
use malachite::Integer;
use std::str::FromStr;
use std::sync::mpsc::channel;
use std::time::Duration;

#[test]
fn tiny_deadline_on_a_large_modulus_is_a_timeout() {
    // 2^127 - 1 is prime: the search would take some 2^126 iterations
    let n = Integer::from_str("170141183460469231731687303715884105727").unwrap();
    let (sender, receiver) = channel();
    rayon::spawn(move || {
        let _ = sender.send(run_job(&n));
    });
    let finished = receiver.recv_timeout(Duration::from_millis(5)).ok();
    let outcome = JobOutcome::of_race(finished);
    assert!(matches!(outcome, JobOutcome::Timeout));
    assert!(!matches!(outcome, JobOutcome::Failed { .. }));
}
