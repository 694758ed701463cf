use dipstick::{Log, MetricAggregator, OutputScope, StatsFunction, StatsMap};

fn make_stats(stats_fn: StatsFunction) -> StatsMap {
    // The bucket's first period starts at the clock's zero; the flush
    // below happens three seconds later.
    let mut metrics = MetricAggregator::new().with_prefix("test");

    let counter = metrics.counter("counter_a");
    let timer = metrics.timer("timer_a");
    let gauge = metrics.gauge("gauge_a");
    let marker = metrics.marker("marker_a");

    metrics.write(&marker, 1);
    metrics.write(&marker, 1);
    metrics.write(&marker, 1);

    metrics.write(&counter, 10);
    metrics.write(&counter, 20);

    metrics.write(&timer, 10_000_000);
    metrics.write(&timer, 20_000_000);

    metrics.write(&gauge, 10);
    metrics.write(&gauge, 20);

    let mut out = OutputScope::Stats(StatsMap::new());
    metrics.flush_to(&mut out, stats_fn, 3_000_000);
    match out {
        OutputScope::Stats(map) => map,
        _ => panic!("the publish scope kept its shape"),
    }
}

#[test]
fn external_aggregate_all_stats() {
    let map = make_stats(StatsFunction::All);

    assert_eq!(map.get("test.counter_a.count"), Some(2));
    assert_eq!(map.get("test.counter_a.sum"), Some(30));
    assert_eq!(map.get("test.counter_a.mean"), Some(15));
    assert_eq!(map.get("test.counter_a.rate"), Some(10));

    assert_eq!(map.get("test.timer_a.count"), Some(2));
    assert_eq!(map.get("test.timer_a.sum"), Some(30_000_000));
    assert_eq!(map.get("test.timer_a.min"), Some(10_000_000));
    assert_eq!(map.get("test.timer_a.max"), Some(20_000_000));
    assert_eq!(map.get("test.timer_a.mean"), Some(15_000_000));
    assert_eq!(map.get("test.timer_a.rate"), Some(1));

    assert_eq!(map.get("test.gauge_a.mean"), Some(15));
    assert_eq!(map.get("test.gauge_a.min"), Some(10));
    assert_eq!(map.get("test.gauge_a.max"), Some(20));

    assert_eq!(map.get("test.marker_a.count"), Some(3));
    assert_eq!(map.get("test.marker_a.rate"), Some(1));
}

#[test]
fn external_aggregate_summary() {
    let map = make_stats(StatsFunction::Summary);

    assert_eq!(map.get("test.counter_a"), Some(30));
    assert_eq!(map.get("test.timer_a"), Some(30_000_000));
    assert_eq!(map.get("test.gauge_a"), Some(15));
    assert_eq!(map.get("test.marker_a"), Some(3));
    assert_eq!(map.len(), 4);
}

#[test]
fn external_aggregate_average() {
    let map = make_stats(StatsFunction::Average);

    assert_eq!(map.get("test.counter_a"), Some(15));
    assert_eq!(map.get("test.timer_a"), Some(15_000_000));
    assert_eq!(map.get("test.gauge_a"), Some(15));
    assert_eq!(map.get("test.marker_a"), Some(3));
}

#[test]
fn empty_bucket_publishes_nothing() {
    let mut metrics = MetricAggregator::new().with_prefix("test");
    let _idle = metrics.counter("idle");
    let mut out = OutputScope::Stats(StatsMap::new());
    metrics.flush_to(&mut out, StatsFunction::All, 1_000_000);
    match out {
        OutputScope::Stats(map) => assert_eq!(map.len(), 0),
        _ => panic!("the publish scope kept its shape"),
    }
}

#[test]
fn level_summary_is_accumulated_sum() {
    let mut metrics = MetricAggregator::new();
    let level = metrics.level("depth");
    metrics.write(&level, 3);
    metrics.write(&level, 4);
    let mut out = OutputScope::Stats(StatsMap::new());
    metrics.flush_to(&mut out, StatsFunction::Summary, 1_000_000);
    match out {
        OutputScope::Stats(map) => {
            assert_eq!(map.get("depth"), Some(7));
            assert_eq!(map.len(), 1);
        },
        _ => panic!("the publish scope kept its shape"),
    }
}

#[test]
fn second_period_counts_fresh_values() {
    let mut metrics = MetricAggregator::new();
    let c = metrics.counter("c");
    metrics.write(&c, 5);
    let mut out = OutputScope::Stats(StatsMap::new());
    metrics.flush_to(&mut out, StatsFunction::Summary, 1_000_000);
    metrics.write(&c, 7);
    metrics.write(&c, 8);
    let mut out2 = OutputScope::Stats(StatsMap::new());
    metrics.flush_to(&mut out2, StatsFunction::Summary, 2_000_000);
    match out2 {
        OutputScope::Stats(map) => assert_eq!(map.get("c"), Some(15)),
        _ => panic!("the publish scope kept its shape"),
    }
}

#[test]
fn period_metadata_timer_is_published() {
    let mut metrics = MetricAggregator::new();
    metrics.publish_metadata(true);
    let c = metrics.counter("c");
    metrics.write(&c, 5);
    let mut out = OutputScope::Stats(StatsMap::new());
    metrics.flush_to(&mut out, StatsFunction::Summary, 2_000_000);
    match out {
        OutputScope::Stats(map) => {
            // Two seconds of period: 2000 milliseconds, published as the
            // synthetic timer's sum.
            assert_eq!(map.get("_period_length"), Some(2000));
            assert_eq!(map.get("c"), Some(5));
        },
        _ => panic!("the publish scope kept its shape"),
    }
}

#[test]
fn bucket_flush_reaches_own_output() {
    let mut metrics = MetricAggregator::new();
    metrics.set_output(OutputScope::Stats(StatsMap::new()));
    metrics.set_stats(StatsFunction::Summary);
    let c = metrics.counter("c");
    metrics.write(&c, 9);
    let flushed = metrics.flush(1_000_000);
    assert!(flushed.is_ok());
}

#[test]
fn flush_publishes_in_ascending_name_order() {
    // Declaration order is bb before aa; publication order is by name.
    let mut metrics = MetricAggregator::new();
    let bb = metrics.counter("bb");
    let aa = metrics.counter("aa");
    metrics.write(&bb, 5);
    metrics.write(&aa, 7);
    let mut out = OutputScope::Log(Log::to_log().new_scope());
    metrics.flush_to(&mut out, StatsFunction::Summary, 1_000_000);
    match out {
        OutputScope::Log(mut scope) => {
            let lines = scope.take_sink();
            assert_eq!(lines.len(), 2);
            assert_eq!(lines[0], b"aa 7\n".to_vec());
            assert_eq!(lines[1], b"bb 5\n".to_vec());
        },
        _ => panic!("the publish scope kept its shape"),
    }
}

#[test]
fn late_written_names_sort_in_too() {
    // A handle unknown to the bucket lands on a fresh scoreboard at its
    // sorted place.
    let mut donor = MetricAggregator::new();
    let mm = donor.counter("mm");
    let mut metrics = MetricAggregator::new();
    let zz = metrics.counter("zz");
    let av = metrics.counter("aa");
    metrics.write(&zz, 1);
    metrics.write(&mm, 2);
    metrics.write(&av, 3);
    let mut out = OutputScope::Log(Log::to_log().new_scope());
    metrics.flush_to(&mut out, StatsFunction::Summary, 1_000_000);
    match out {
        OutputScope::Log(mut scope) => {
            let lines = scope.take_sink();
            assert_eq!(lines.len(), 3);
            assert_eq!(lines[0], b"aa 3\n".to_vec());
            assert_eq!(lines[1], b"mm 2\n".to_vec());
            assert_eq!(lines[2], b"zz 1\n".to_vec());
        },
        _ => panic!("the publish scope kept its shape"),
    }
}
