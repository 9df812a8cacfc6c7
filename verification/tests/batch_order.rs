use diffsquare::batch::{run_job, JobOutcome};
use malachite::Integer;
use rayon::iter::{IntoParallelRefIterator, ParallelIterator};

#[test]
fn batch_result_does_not_depend_on_input_order() {
    let numbers: Vec<u64> = vec![
        4357328471891213977,
        3669851121098875703,
        2761929023323646159,
        3088042782711408869,
        2704267100962222513,
        5959,
        101,
        1,
    ];
    let forward: Vec<Integer> = numbers.iter().map(|&n| Integer::from(n)).collect();
    let backward: Vec<Integer> = numbers.iter().rev().map(|&n| Integer::from(n)).collect();
    let pairs = |outcomes: Vec<JobOutcome>| -> Vec<Option<(Integer, Integer)>> {
        outcomes
            .into_iter()
            .map(|o| match o {
                JobOutcome::Factored { p, q, .. } => Some((p, q)),
                JobOutcome::Failed { .. } => None,
                JobOutcome::Timeout => panic!("no deadline was set"),
            })
            .collect()
    };
    let first = pairs(forward.par_iter().map(run_job).collect());
    let mut second = pairs(backward.par_iter().map(run_job).collect());
    second.reverse();
    assert_eq!(first, second);
    assert_eq!(first[5], Some((Integer::from(59), Integer::from(101))));
    assert_eq!(first[6], None);
    assert_eq!(first[7], None);
}
