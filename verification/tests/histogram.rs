use latency_collector::histogram::{bucket_floor_ms, bucket_index, LatencyCollector, BUCKET_COUNT};

fn observed(latencies: &[u64]) -> LatencyCollector {
    let mut collector = LatencyCollector::new();
    for latency in latencies {
        collector.observe(*latency);
    }
    collector
}

#[test]
fn new_collector_is_empty() {
    let collector = LatencyCollector::new();
    assert_eq!(collector.total_msgs(), 0);
    assert_eq!(collector.min_latency(), u64::MAX);
    assert_eq!(collector.max_latency(), 0);
    assert_eq!(collector.total_latency(), 0);
    assert_eq!(collector.bucket_counts(), [0u64; 8]);
}

#[test]
fn five_latencies_are_tallied() {
    let collector = observed(&[100, 450, 900, 1999, 2500]);
    assert_eq!(collector.total_msgs(), 5);
    assert_eq!(collector.min_latency(), 100);
    assert_eq!(collector.max_latency(), 2500);
    assert_eq!(collector.total_latency(), 5949);
    assert_eq!(collector.bucket_counts(), [1, 1, 1, 0, 0, 0, 1, 1]);
}

#[test]
fn bucket_counts_add_up_to_count() {
    let latencies = [0, 399, 400, 799, 800, 1000, 1199, 1200, 1500, 1800, 2000, 5000, u64::MAX];
    let mut collector = LatencyCollector::new();
    for (n, latency) in latencies.iter().enumerate() {
        collector.observe(*latency);
        let counts = collector.bucket_counts();
        assert_eq!(counts.iter().sum::<u64>(), collector.total_msgs());
        assert_eq!(collector.total_msgs(), n as u64 + 1);
    }
}

#[test]
fn each_latency_goes_to_the_range_that_holds_it() {
    let edges: [(u64, usize); 17] = [
        (0, 0),
        (399, 0),
        (400, 1),
        (799, 1),
        (800, 2),
        (999, 2),
        (1000, 3),
        (1199, 3),
        (1200, 4),
        (1499, 4),
        (1500, 5),
        (1799, 5),
        (1800, 6),
        (1999, 6),
        (2000, 7),
        (2001, 7),
        (u64::MAX, 7),
    ];
    for (latency, index) in edges {
        assert_eq!(bucket_index(latency), index);
        let collector = observed(&[latency]);
        let mut expected = [0u64; 8];
        expected[index] = 1;
        assert_eq!(collector.bucket_counts(), expected);
    }
}

#[test]
fn bucket_floors_are_the_range_starts() {
    let floors: Vec<u64> = (0..BUCKET_COUNT).map(bucket_floor_ms).collect();
    assert_eq!(floors, vec![0, 400, 800, 1000, 1200, 1500, 1800, 2000]);
}

#[test]
fn min_and_max_are_the_true_extremes() {
    let collector = observed(&[700, 3, 9000, 3, 41]);
    assert_eq!(collector.min_latency(), 3);
    assert_eq!(collector.max_latency(), 9000);
    let single = observed(&[u64::MAX]);
    assert_eq!(single.min_latency(), u64::MAX);
    assert_eq!(single.max_latency(), u64::MAX);
    let zero = observed(&[0]);
    assert_eq!(zero.min_latency(), 0);
    assert_eq!(zero.max_latency(), 0);
}

#[test]
fn latency_is_clamped_at_zero() {
    let collector = LatencyCollector::new();
    assert_eq!(collector.calculate_latency(1_000, 400), 0);
    assert_eq!(collector.calculate_latency(400, 1_000), 600);
    assert_eq!(collector.calculate_latency(7, 7), 0);
    assert_eq!(collector.calculate_latency(u64::MAX, 0), 0);
    assert_eq!(collector.calculate_latency(0, u64::MAX), u64::MAX);
}

#[test]
fn collect_data_observes_the_clamped_latency() {
    let mut collector = LatencyCollector::new();
    collector.collect_data(1_000, 1_450);
    collector.collect_data(2_000, 1_000);
    assert_eq!(collector.total_msgs(), 2);
    assert_eq!(collector.min_latency(), 0);
    assert_eq!(collector.max_latency(), 450);
    assert_eq!(collector.total_latency(), 450);
    assert_eq!(collector.bucket_counts(), [1, 1, 0, 0, 0, 0, 0, 0]);
}

#[test]
fn sum_stays_at_the_largest_value() {
    let collector = observed(&[u64::MAX, 1, u64::MAX]);
    assert_eq!(collector.total_latency(), u64::MAX);
    assert_eq!(collector.total_msgs(), 3);
    assert_eq!(collector.bucket_counts(), [1, 0, 0, 0, 0, 0, 0, 2]);
}

#[test]
fn report_of_nothing_is_all_zero() {
    let report = LatencyCollector::new().generate_report();
    assert_eq!(report.total_msgs, 0);
    assert_eq!(report.total_latency, 0);
    assert_eq!(report.min_latency, u64::MAX);
    assert_eq!(report.max_latency, 0);
    assert_eq!(report.mean_hundredths, 0);
    assert_eq!(report.buckets.len(), 8);
    for bucket in &report.buckets {
        assert_eq!(bucket.count, 0);
        assert_eq!(bucket.percent_hundredths, 0);
    }
}

#[test]
fn report_gives_mean_and_shares() {
    let report = observed(&[100, 450, 900, 1999, 2500]).generate_report();
    assert_eq!(report.total_msgs, 5);
    assert_eq!(report.total_latency, 5949);
    assert_eq!(report.min_latency, 100);
    assert_eq!(report.max_latency, 2500);
    assert_eq!(report.mean_hundredths, 118_980);
    let counts: Vec<u64> = report.buckets.iter().map(|b| b.count).collect();
    assert_eq!(counts, vec![1, 1, 1, 0, 0, 0, 1, 1]);
    let shares: Vec<u64> = report.buckets.iter().map(|b| b.percent_hundredths).collect();
    assert_eq!(shares, vec![2000, 2000, 2000, 0, 0, 0, 2000, 2000]);
}

#[test]
fn report_rounds_down() {
    let report = observed(&[1, 1, 2]).generate_report();
    assert_eq!(report.mean_hundredths, 133);
    assert_eq!(report.buckets[0].percent_hundredths, 10_000);
    let thirds = observed(&[10, 500, 2500]).generate_report();
    assert_eq!(thirds.buckets[0].percent_hundredths, 3333);
    assert_eq!(thirds.buckets[1].percent_hundredths, 3333);
    assert_eq!(thirds.buckets[7].percent_hundredths, 3333);
    assert_eq!(thirds.mean_hundredths, 100_333);
}

#[test]
fn report_names_the_ranges() {
    let report = LatencyCollector::new().generate_report();
    let bounds: Vec<(u64, Option<u64>)> =
        report.buckets.iter().map(|b| (b.floor, b.ceiling)).collect();
    assert_eq!(
        bounds,
        vec![
            (0, Some(400)),
            (400, Some(800)),
            (800, Some(1000)),
            (1000, Some(1200)),
            (1200, Some(1500)),
            (1500, Some(1800)),
            (1800, Some(2000)),
            (2000, None),
        ]
    );
}

#[test]
fn report_of_huge_sum_does_not_overflow() {
    let report = observed(&[u64::MAX]).generate_report();
    assert_eq!(report.mean_hundredths, u64::MAX as u128 * 100);
    assert_eq!(report.buckets[7].percent_hundredths, 10_000);
}
