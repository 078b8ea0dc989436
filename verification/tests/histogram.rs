use pg_hierarchy_bench::errors::BenchError;
use pg_hierarchy_bench::hist::LatencyHistogram;

#[test]
fn empty_histogram_has_no_percentiles() {
    let h = LatencyHistogram::new();
    assert_eq!(h.total_count(), 0);
    assert_eq!(h.percentile(500), Err(BenchError::EmptyHistogram));
    assert_eq!(h.percentile(999), Err(BenchError::EmptyHistogram));
}

#[test]
fn small_samples_are_answered_exactly() {
    // Samples below 2^10 land in width-one buckets, so percentiles are exact.
    let mut h = LatencyHistogram::new();
    h.record(5).unwrap();
    assert_eq!(h.percentile(500), Ok(5));
    h.record(1).unwrap();
    h.record(9).unwrap();
    assert_eq!(h.total_count(), 3);
    // Rank 1 of 3 at p0, rank 3 of 3 at p100.
    assert_eq!(h.percentile(0), Ok(1));
    assert_eq!(h.percentile(1000), Ok(9));
    assert_eq!(h.percentile(500), Ok(5));
}

#[test]
fn out_of_range_sample_is_rejected_and_ignored() {
    let mut h = LatencyHistogram::new();
    assert_eq!(h.record(u64::MAX), Err(BenchError::InvalidSample));
    assert_eq!(h.total_count(), 0);
    // The largest trackable sample is 2^63 - 1.
    assert_eq!(h.record((1u64 << 63) - 1), Ok(()));
    assert_eq!(h.total_count(), 1);
}

#[test]
fn large_samples_keep_bounded_relative_error() {
    let mut h = LatencyHistogram::new();
    let v: u64 = 1_000_000;
    h.record(v).unwrap();
    let p = h.percentile(1000).unwrap();
    // The answer is the upper bound of the sample's bucket: at least the
    // sample, and within one part in 2^10 of it.
    assert!(p >= v);
    assert!(p <= v + v / 1024 + 1);
}

#[test]
fn merge_is_commutative_for_percentiles() {
    let mut a1 = LatencyHistogram::new();
    let mut b1 = LatencyHistogram::new();
    for v in [10u64, 2_000, 300_000] {
        a1.record(v).unwrap();
    }
    for v in [7u64, 44, 5_000_000] {
        b1.record(v).unwrap();
    }
    let mut a2 = LatencyHistogram::new();
    let mut b2 = LatencyHistogram::new();
    for v in [10u64, 2_000, 300_000] {
        a2.record(v).unwrap();
    }
    for v in [7u64, 44, 5_000_000] {
        b2.record(v).unwrap();
    }
    a1.merge(&b1).unwrap();
    b2.merge(&a2).unwrap();
    for p in [0u32, 100, 500, 900, 990, 999, 1000] {
        assert_eq!(a1.percentile(p), b2.percentile(p));
    }
    assert_eq!(a1.total_count(), b2.total_count());
}

#[test]
fn merge_is_associative_for_percentiles() {
    let samples_a = [1u64, 50, 1_024, 99_999];
    let samples_b = [3u64, 3, 3];
    let samples_c = [123_456_789u64, 2];
    let build = |samples: &[u64]| {
        let mut h = LatencyHistogram::new();
        for &v in samples {
            h.record(v).unwrap();
        }
        h
    };
    // (A + B) + C
    let mut left = build(&samples_a);
    left.merge(&build(&samples_b)).unwrap();
    left.merge(&build(&samples_c)).unwrap();
    // A + (B + C)
    let mut bc = build(&samples_b);
    bc.merge(&build(&samples_c)).unwrap();
    let mut right = build(&samples_a);
    right.merge(&bc).unwrap();
    for p in [0u32, 250, 500, 750, 900, 990, 999, 1000] {
        assert_eq!(left.percentile(p), right.percentile(p));
    }
}

#[test]
fn merge_conserves_sample_counts() {
    let mut a = LatencyHistogram::new();
    let mut b = LatencyHistogram::new();
    for v in 0..17u64 {
        a.record(v * 31).unwrap();
    }
    for v in 0..9u64 {
        b.record(v * 1000 + 5).unwrap();
    }
    let ta = a.total_count();
    let tb = b.total_count();
    a.merge(&b).unwrap();
    assert_eq!(a.total_count(), ta + tb);
}

#[test]
fn incompatible_configurations_do_not_merge() {
    let mut a = LatencyHistogram::new();
    let b = LatencyHistogram::with_config(7, 40);
    a.record(12).unwrap();
    assert_eq!(a.merge(&b), Err(BenchError::IncompatibleHistogram));
    // The failed merge changed nothing.
    assert_eq!(a.total_count(), 1);
    assert_eq!(a.percentile(500), Ok(12));
}

#[test]
fn percentiles_are_monotone_in_the_requested_rank() {
    let mut h = LatencyHistogram::new();
    for v in [9u64, 88, 777, 6_666, 55_555, 444_444, 3_333_333] {
        h.record(v).unwrap();
    }
    let mut prev = h.percentile(0).unwrap();
    for p in 1..=1000u32 {
        let cur = h.percentile(p).unwrap();
        assert!(prev <= cur, "percentile fell from {prev} to {cur} at p {p}");
        prev = cur;
    }
}

#[test]
fn error_messages_name_the_failure() {
    assert!(BenchError::EmptyHistogram.message().contains("histogram"));
    assert!(BenchError::NoResults.message().contains("no worker"));
}

#[test]
fn percentile_ranks_follow_the_ceiling_rule() {
    // Ten exact samples: the percentile of rank ceil(total * p / 1000).
    let mut h = LatencyHistogram::new();
    for v in 1..=10u64 {
        h.record(v).unwrap();
    }
    assert_eq!(h.percentile(500), Ok(5));
    assert_eq!(h.percentile(900), Ok(9));
    assert_eq!(h.percentile(990), Ok(10));
    assert_eq!(h.percentile(999), Ok(10));
    assert_eq!(h.percentile(101), Ok(2));
}
