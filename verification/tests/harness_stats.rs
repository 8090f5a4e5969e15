use sync_primitives::harness::{collect_samples, fib, sort_samples, summarize};

#[test]
fn fib_matches_the_recurrence() {
    assert_eq!(fib(0), 0);
    assert_eq!(fib(1), 1);
    assert_eq!(fib(2), 1);
    assert_eq!(fib(10), 55);
    assert_eq!(fib(12), 144);
}

#[test]
fn collector_drops_no_sample() {
    // 3 workers, 2 iterations each: exactly 3 * 2 samples, in order
    let per_worker: Vec<Vec<u64>> = vec![vec![1, 2], vec![3, 4], vec![5, 6]];
    let all = collect_samples(&per_worker);
    assert_eq!(all.len(), 3 * 2);
    assert_eq!(all, vec![1, 2, 3, 4, 5, 6]);

    // workers that reported nothing contribute nothing
    let ragged: Vec<Vec<u64>> = vec![vec![], vec![9], vec![]];
    assert_eq!(collect_samples(&ragged), vec![9]);
}

#[test]
fn sorting_orders_and_keeps_every_sample() {
    let samples: Vec<u64> = vec![3, 1, 2, 2, 9, 0];
    assert_eq!(sort_samples(&samples), vec![0, 1, 2, 2, 3, 9]);
    assert_eq!(sort_samples(&vec![]), vec![]);
    assert_eq!(sort_samples(&vec![5]), vec![5]);
}

#[test]
fn statistics_of_an_odd_count() {
    // sorted: [1, 2, 3, 4, 5]; median 3
    let samples: Vec<u64> = vec![5, 1, 4, 2, 3];
    let stats = summarize(&samples);
    assert_eq!(stats.count, 5);
    assert_eq!(stats.total, 15);
    assert_eq!(stats.min, 1);
    assert_eq!(stats.max, 5);
    assert_eq!(stats.median_twice, 6);
    // the mean the report prints: total / count = 3.0
    assert_eq!(stats.total / stats.count as u128, 3);
}

#[test]
fn statistics_of_an_even_count_interpolate_the_median() {
    // sorted: [1, 2, 3, 4]; the two middle samples average to 2.5
    let samples: Vec<u64> = vec![4, 1, 3, 2];
    let stats = summarize(&samples);
    assert_eq!(stats.count, 4);
    assert_eq!(stats.total, 10);
    assert_eq!(stats.min, 1);
    assert_eq!(stats.max, 4);
    assert_eq!(stats.median_twice, 5);
    assert_eq!(stats.median_twice as f64 / 2.0, 2.5);
}

#[test]
fn statistics_of_one_sample() {
    let samples: Vec<u64> = vec![17];
    let stats = summarize(&samples);
    assert_eq!(stats.count, 1);
    assert_eq!(stats.total, 17);
    assert_eq!(stats.min, 17);
    assert_eq!(stats.max, 17);
    assert_eq!(stats.median_twice, 34);
}

#[test]
fn a_full_collection_pass() {
    // per-worker latency lists as the channel would deliver them
    let per_worker: Vec<Vec<u64>> = vec![vec![30, 10], vec![20, 40]];
    let all = collect_samples(&per_worker);
    assert_eq!(all.len(), 2 * 2);
    let stats = summarize(&all);
    assert_eq!(stats.count, 4);
    assert_eq!(stats.total, 100);
    assert_eq!(stats.min, 10);
    assert_eq!(stats.max, 40);
    assert_eq!(stats.median_twice, 50);
}
