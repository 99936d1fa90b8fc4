use redline::stats::{round_sqrt_ratio, ObservationsStats, StreamingStats};
use redline::results::BenchStatistics;

fn shuffled(n: u32) -> Vec<u32> {
    // a fixed permutation of 1..=n
    let mut v: Vec<u32> = (1..=n).collect();
    let len = v.len();
    for i in 0..len {
        let j = (i * 7919 + 13) % len;
        v.swap(i, j);
    }
    v
}

#[test]
fn summary_of_one_to_hundred() {
    let s = ObservationsStats::new(shuffled(100), false);
    assert_eq!(s.count, 100);
    assert_eq!(s.min, 1);
    assert_eq!(s.max, 100);
    assert_eq!(s.avg, 51);
    assert_eq!(s.median, 51);
    assert_eq!(s.quantile95, 95);
    assert_eq!(s.stddev, 29);
}

#[test]
fn inverted_quantile_is_taken_from_the_low_end() {
    let s = ObservationsStats::new(shuffled(100), true);
    assert_eq!(s.quantile95, 5);
    let one = ObservationsStats::new(vec![7], true);
    assert_eq!(one.quantile95, 7);
}

#[test]
fn empty_series_gives_zero_record() {
    let s = ObservationsStats::new(vec![], false);
    assert_eq!(s, ObservationsStats::default());
    assert_eq!(s.count, 0);
}

#[test]
fn single_observation() {
    let s = ObservationsStats::new(vec![42], false);
    assert_eq!((s.count, s.min, s.max, s.avg, s.median, s.quantile95, s.stddev), (1, 42, 42, 42, 42, 42, 0));
}

#[test]
fn extreme_values_do_not_overflow() {
    let s = ObservationsStats::new(vec![u32::MAX, u32::MAX, 0, 0], false);
    assert_eq!(s.avg, 2147483648);
    assert_eq!(s.stddev, 2147483648);
    assert_eq!(s.max, u32::MAX);
}

#[test]
fn rounded_square_roots() {
    assert_eq!(round_sqrt_ratio(0, 1), 0);
    assert_eq!(round_sqrt_ratio(1, 1), 1);
    assert_eq!(round_sqrt_ratio(2, 1), 1);
    assert_eq!(round_sqrt_ratio(3, 1), 2);
    assert_eq!(round_sqrt_ratio(108, 16), 3);
    assert_eq!(round_sqrt_ratio(25, 4), 3);
    assert_eq!(round_sqrt_ratio(24, 4), 2);
    let m = 4294967295u128;
    assert_eq!(round_sqrt_ratio(m * m, 1), 4294967295);
}

#[test]
fn standard_deviation_rounds_the_exact_root() {
    let s = ObservationsStats::new(vec![0, 0, 0, 6], false);
    assert_eq!(s.stddev, 3);
    assert_eq!(s.avg, 2);
    assert_eq!(ObservationsStats::new(vec![1, 2], false).stddev, 1);
}

fn stat(count: usize, min: u32, max: u32, v: u32) -> ObservationsStats {
    ObservationsStats { count, median: v, min, max, avg: v, quantile95: v, stddev: v }
}

#[test]
fn latency_merge() {
    let m = ObservationsStats::merge(vec![stat(10, 5, 50, 20), stat(30, 2, 40, 31)]);
    assert_eq!(m.count, 40);
    assert_eq!(m.min, 2);
    assert_eq!(m.max, 50);
    assert_eq!(m.avg, 25);
    assert_eq!(m.median, 25);
    assert_eq!(ObservationsStats::merge(vec![]), ObservationsStats::default());
}

#[test]
fn latency_merge_is_commutative_and_associative() {
    let a = stat(10, 5, 50, 20);
    let b = stat(30, 2, 40, 31);
    let c = stat(7, 9, 90, 3);
    assert_eq!(ObservationsStats::merge(vec![a, b]), ObservationsStats::merge(vec![b, a]));
    let left = ObservationsStats::merge(vec![ObservationsStats::merge(vec![a, b]), c]);
    let right = ObservationsStats::merge(vec![a, ObservationsStats::merge(vec![b, c])]);
    assert_eq!((left.count, left.min, left.max), (right.count, right.min, right.max));
}

#[test]
fn throughput_merge_sums() {
    let m = ObservationsStats::merge_rates(vec![stat(5, 90, 110, 100), stat(5, 95, 105, 99)]);
    assert_eq!((m.count, m.min, m.max, m.avg, m.median), (10, 185, 215, 199, 199));
}

#[test]
fn streaming_stats_match_whole_series_while_reservoir_holds_all() {
    let mut s = StreamingStats::new(1000);
    for x in shuffled(100) {
        s.record(x);
    }
    assert_eq!(s.count(), 100);
    assert_eq!(s.finalize(false), ObservationsStats::new(shuffled(100), false));
    assert_eq!(StreamingStats::new(10).finalize(false), ObservationsStats::default());
}

#[test]
fn reservoir_replaces_the_drawn_slot() {
    let mut s = StreamingStats::new(2);
    s.record_at(10, 0);
    s.record_at(20, 0);
    s.record_at(30, 1);
    s.record_at(40, 3);
    let f = s.finalize(false);
    assert_eq!(f.count, 4);
    assert_eq!(f.min, 10);
    assert_eq!(f.max, 40);
    assert_eq!(f.avg, 25);
    assert_eq!(f.median, 30);
}

#[test]
fn reservoir_percentiles_track_the_stream() {
    let mut s = StreamingStats::new(10000);
    for x in shuffled(200000) {
        s.record(x);
    }
    let f = s.finalize(false);
    assert_eq!(f.count, 200000);
    assert!((f.median as i64 - 100000).abs() < 4000, "median {}", f.median);
    assert!((f.quantile95 as i64 - 190000).abs() < 4000, "q95 {}", f.quantile95);
}

fn engine(kind: &str, n: usize, rate: u32) -> BenchStatistics {
    BenchStatistics {
        request_stats: vec![(kind.to_string(), stat(n, 1000, 9000, 4000))],
        signature_confirmation_latency: ObservationsStats::default(),
        account_update_latency: stat(n, 100, 900, 400),
        rps: stat(5, rate - 5, rate + 5, rate),
    }
}

#[test]
fn four_engines_merge() {
    let all = vec![
        engine("SimpleByteSet", 500, 100),
        engine("SimpleByteSet", 500, 100),
        engine("SimpleByteSet", 500, 100),
        engine("GetBalance", 500, 100),
    ];
    let m = BenchStatistics::merge(all);
    assert_eq!(m.request_stats.len(), 2);
    let sbs = m.request_stats.iter().find(|e| e.0 == "SimpleByteSet").unwrap();
    assert_eq!(sbs.1.count, 1500);
    let gb = m.request_stats.iter().find(|e| e.0 == "GetBalance").unwrap();
    assert_eq!(gb.1.count, 500);
    assert_eq!(m.account_update_latency.count, 2000);
    assert_eq!(m.rps.avg, 400);
    assert!(m.rps.avg >= 380 && m.rps.avg <= 420);
}

#[test]
fn merging_no_engine_gives_an_empty_record() {
    let m = BenchStatistics::merge(vec![]);
    assert!(m.request_stats.is_empty());
    assert_eq!(m.rps, ObservationsStats::default());
    assert_eq!(m.account_update_latency, ObservationsStats::default());
}

#[test]
fn merge_overflow_is_detected() {
    let big = BenchStatistics {
        request_stats: vec![],
        signature_confirmation_latency: ObservationsStats::default(),
        account_update_latency: ObservationsStats::default(),
        rps: stat(1, u32::MAX, u32::MAX, 1),
    };
    let small = engine("GetBalance", 1, 10);
    assert!(!BenchStatistics::can_merge(&vec![big, small]));
    assert!(BenchStatistics::can_merge(&vec![engine("GetBalance", 1, 10), engine("GetBalance", 2, 10)]));
    assert!(BenchStatistics::can_merge(&vec![]));
}
