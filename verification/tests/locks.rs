use sync_primitives::contention::{
    contended_increments, contended_increments_ttas, ContendedRun, StepResult,
};
use sync_primitives::mutex::{Mutex, MutexError};
use sync_primitives::not_optimized_spinlock::{SpinLock, SpinLockError};
use sync_primitives::optimized_spinlock::{next_backoff, BackoffAction, OptimizedSpinLock};

#[test]
fn test_mutex() {
    // one worker's critical sections through the guard API
    let mut mutex = Mutex::new(0usize);
    for _ in 0..1_000_000usize {
        let mut counter = mutex.lock().unwrap();
        counter.data += 1;
        mutex.unlock(counter);
    }
    assert_eq!(mutex.lock().unwrap().data, 1_000_000);

    // 4 workers of 1_000_000 increments each, interleaved arbitrarily: the
    // run retires every increment, whatever the schedule
    let schedule: Vec<usize> = (0..4000usize).map(|i| (i * 13 + i / 7) % 4).collect();
    assert_eq!(contended_increments(4, 1_000_000, &schedule), 4_000_000);
}

#[test]
fn not_optimized_spinlock_test_mutex() {
    let mut mutex = SpinLock::new(0usize);
    for _ in 0..1_000_000usize {
        let mut counter = mutex.lock().unwrap();
        counter.data += 1;
        mutex.unlock(counter);
    }
    assert_eq!(mutex.lock().unwrap().data, 1_000_000);
}

#[test]
fn optimized_spinlock_loses_no_update_either() {
    // the same four-worker workload through the test-and-test-and-set lock
    let schedule: Vec<usize> = (0..4000usize).map(|i| (i * 11 + i / 5) % 4).collect();
    assert_eq!(contended_increments_ttas(4, 1_000_000, &schedule), 4_000_000);
}

#[test]
fn poisoned_mutex_refuses_every_later_lock() {
    let mut mutex = Mutex::new(7usize);
    let guard = mutex.lock().unwrap();
    // the holder fails abnormally before releasing
    mutex.poison(guard);
    assert!(matches!(mutex.lock(), Err(MutexError::Poisoned)));
    assert!(matches!(mutex.lock(), Err(MutexError::Poisoned)));
    assert!(matches!(mutex.lock(), Err(MutexError::Poisoned)));
}

#[test]
fn poisoned_spinlock_refuses_every_later_lock() {
    let mut lock = SpinLock::new(7usize);
    let guard = lock.lock().unwrap();
    lock.poison(guard);
    assert!(matches!(lock.lock(), Err(SpinLockError::Poisoned)));
    assert!(matches!(lock.lock(), Err(SpinLockError::Poisoned)));
}

#[test]
fn crash_inside_critical_section_poisons_the_run() {
    let mut run = ContendedRun::new(3, 10);
    // worker 1 acquires; workers 0 and 2 spin against it
    assert_eq!(run.step(1, false), StepResult::Acquired);
    assert_eq!(run.step(0, false), StepResult::Contended);
    assert_eq!(run.step(2, false), StepResult::Contended);
    // the holder crashes inside its critical section
    assert_eq!(run.step(1, true), StepResult::Crashed);
    // every later acquisition attempt, from any worker, gets the error
    assert_eq!(run.step(0, false), StepResult::Poisoned);
    assert_eq!(run.step(2, false), StepResult::Poisoned);
    assert_eq!(run.step(1, false), StepResult::Poisoned);
    // and nothing was counted for the crashed section
    assert_eq!(run.counter(), 0);
}

#[test]
fn contended_run_counts_released_sections_only() {
    let mut run = ContendedRun::new(2, 2);
    assert_eq!(run.step(0, false), StepResult::Acquired);
    assert_eq!(run.step(0, false), StepResult::Released);
    assert_eq!(run.counter(), 1);
    assert_eq!(run.step(1, false), StepResult::Acquired);
    assert_eq!(run.step(1, false), StepResult::Released);
    assert_eq!(run.step(1, false), StepResult::Acquired);
    assert_eq!(run.step(1, false), StepResult::Released);
    // worker 1 has retired both its increments
    assert_eq!(run.step(1, false), StepResult::Idle);
    assert_eq!(run.counter(), 3);
}

#[test]
fn optimized_spinlock_try_lock_and_data() {
    let mut lock = OptimizedSpinLock::new(0usize);
    assert!(lock.try_lock());
    // a second attempt fails fast on the plain read
    assert!(!lock.try_lock());
    *lock.data() += 1;
    lock.unlock();

    lock.lock();
    assert_eq!(*lock.data(), 1);
    *lock.data() += 41;
    lock.unlock();

    lock.lock();
    assert_eq!(*lock.data(), 42);
    lock.unlock();
}

#[test]
fn backoff_pauses_then_yields() {
    // the first 16 failed attempts pause and push the count up
    let mut spin_count = 0usize;
    for expected in 1..=16usize {
        let (action, next) = next_backoff(spin_count);
        assert_eq!(action, BackoffAction::Pause);
        assert_eq!(next, expected);
        spin_count = next;
    }
    // the attempt that reaches the threshold yields and resets
    let (action, next) = next_backoff(spin_count);
    assert_eq!(action, BackoffAction::Yield);
    assert_eq!(next, 0);
}
