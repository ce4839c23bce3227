use cfr_atlas::{ThreadPoolConfig, ThreadPoolExecutor};

#[test]
fn jobs_run_in_consecutive_batches_of_the_thread_count() {
    let executor = ThreadPoolExecutor::new(ThreadPoolConfig::new(3).unwrap());
    assert_eq!(executor.batches(7), vec![0..3, 3..6, 6..7]);
    assert_eq!(executor.batches(6), vec![0..3, 3..6]);
    assert_eq!(executor.batches(2), vec![0..2]);
    assert!(executor.batches(0).is_empty());
    let idle = ThreadPoolExecutor::new(ThreadPoolConfig { threads: 0 });
    assert!(idle.batches(5).is_empty());
    assert_eq!(
        ThreadPoolConfig::new(0),
        Err(cfr_atlas::CfrError::InvalidConfig("thread count must be non-zero"))
    );
}
