use tps_bench::metrics::{Metrics, RETENTION_NANOS};

const SEC: u64 = 1_000_000_000;

#[test]
fn window_eviction() {
    let mut m = Metrics::new(100);
    assert_eq!(m.duration(), RETENTION_NANOS);
    m.add_sample(1 * SEC, 10);
    m.add_sample(4 * SEC, 20);
    m.add_sample(5 * SEC, 30);
    m.add_sample(9 * SEC, 40);
    m.prune_staled(10 * SEC);
    // 1 s is nine seconds old; 5 s is exactly five seconds old and stays.
    assert_eq!(m.sample_count(), 2);
    assert_eq!(m.average_elapsed(), 35);
}

#[test]
fn empty_window_average_is_zero() {
    let mut m = Metrics::new(3);
    assert_eq!(m.average_elapsed(), 0);
    m.add_sample(0, 99);
    assert_eq!(m.stat(60 * SEC), 0);
    assert_eq!(m.sample_count(), 0);
    assert_eq!(m.total_txs_count(), 3);
}

#[test]
fn future_samples_are_kept() {
    let mut m = Metrics::with_window(1, 2 * SEC);
    m.add_sample(100 * SEC, 7);
    m.add_sample(1, 8);
    assert_eq!(m.stat(50 * SEC), 7);
    assert_eq!(m.sample_count(), 1);
}

#[test]
fn average_truncates() {
    let mut m = Metrics::new(1);
    m.add_sample(5, 1);
    m.add_sample(5, 2);
    m.add_sample(5, u64::MAX);
    assert_eq!(m.stat(5), ((u64::MAX as u128 + 3) / 3) as u64);
}
