use sync_primitives::atomic_usize::AtomicUsize;
use sync_primitives::contention::concurrent_fetch_adds;

#[test]
fn test_store() {
    let mut counter = AtomicUsize::new(0);
    counter.store(10);
    assert_eq!(counter.load(), 10);
}

#[test]
fn test_compare_exchange() {
    let mut atomic = AtomicUsize::new(42);

    // a successful compare_exchange
    assert_eq!(atomic.compare_exchange(42, 100), Ok(42));
    assert_eq!(atomic.load(), 100);

    // a failed compare_exchange
    assert_eq!(atomic.compare_exchange(42, 200), Err(100));
    assert_eq!(atomic.load(), 100);
}

#[test]
fn test_swap() {
    let mut atomic = AtomicUsize::new(42);
    assert_eq!(atomic.load(), 42);

    assert_eq!(atomic.swap(100), 42);
    assert_eq!(atomic.load(), 100);

    assert_eq!(atomic.swap(200), 100);
    assert_eq!(atomic.load(), 200);
}

#[test]
fn test_fetch_add() {
    let mut counter = AtomicUsize::new(0);
    assert_eq!(counter.fetch_add(1), 0);
    assert_eq!(counter.fetch_add(1), 1);
    assert_eq!(counter.load(), 2);

    // 4 workers, 1_000_000 additions each, under a scrambled interleaving
    let schedule: Vec<usize> = (0..4000usize).map(|i| (i * 7 + i / 13) % 4).collect();
    assert_eq!(concurrent_fetch_adds(4, 1_000_000, &schedule), 4_000_000);
}

#[test]
fn fetch_add_wraps_like_the_hardware_add() {
    let mut counter = AtomicUsize::new(usize::MAX);
    assert_eq!(counter.fetch_add(1), usize::MAX);
    assert_eq!(counter.load(), 0);
}

#[test]
fn swap_llsc_retries_through_interference() {
    // a quiet first attempt behaves like the single-instruction swap
    let mut cell = AtomicUsize::new(42);
    assert_eq!(cell.swap_llsc(100, &vec![], 1000), Some(42));
    assert_eq!(cell.load(), 100);

    // two intervening writes cost two retries; the third attempt loads the
    // last write and completes
    let mut cell = AtomicUsize::new(1);
    let interference = vec![Some(7), Some(9), None];
    assert_eq!(cell.swap_llsc(5, &interference, 1000), Some(9));
    assert_eq!(cell.load(), 5);
}

#[test]
fn swap_llsc_gives_up_past_the_bound() {
    let mut cell = AtomicUsize::new(1);
    let interference: Vec<Option<usize>> = (0..4).map(|i| Some(i)).collect();
    assert_eq!(cell.swap_llsc(5, &interference, 3), None);
    // the cell holds the last intervening write
    assert_eq!(cell.load(), 3);
}

#[test]
fn compare_exchange_llsc_completes_under_bounded_contention() {
    // writes of the expected value keep the store failing, but a quiet
    // attempt within the bound completes with success
    let mut cell = AtomicUsize::new(42);
    let interference = vec![Some(42), Some(42), None];
    assert_eq!(cell.compare_exchange_llsc(42, 100, &interference, 10), Some(Ok(42)));
    assert_eq!(cell.load(), 100);

    // a write of anything else settles the comparison as failure
    let mut cell = AtomicUsize::new(42);
    assert_eq!(cell.compare_exchange_llsc(42, 100, &vec![Some(13)], 10), Some(Err(13)));
    assert_eq!(cell.load(), 13);

    // a mismatched cell fails at the first linked load
    let mut cell = AtomicUsize::new(7);
    assert_eq!(cell.compare_exchange_llsc(42, 100, &vec![], 10), Some(Err(7)));
    assert_eq!(cell.load(), 7);
}

#[test]
fn compare_exchange_llsc_aborts_deterministically_past_the_bound() {
    // an adversary rewriting the expected value on every attempt exhausts the
    // retry budget: max_retries failures plus the one attempt past it
    let mut cell = AtomicUsize::new(42);
    let adversarial: Vec<Option<usize>> = (0..11).map(|_| Some(42)).collect();
    assert_eq!(cell.compare_exchange_llsc(42, 100, &adversarial, 10), None);

    // one fewer interfering write and the same budget completes instead
    let mut cell = AtomicUsize::new(42);
    let shorter: Vec<Option<usize>> = (0..10).map(|_| Some(42)).collect();
    assert_eq!(cell.compare_exchange_llsc(42, 100, &shorter, 10), Some(Ok(42)));
    assert_eq!(cell.load(), 100);
}
