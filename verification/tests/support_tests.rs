use dipstick::{
    all_stats, average, next_fire_after, scale_score, summary, InputCache, InputKind, InputScope,
    LabelOp, Labels, LineOp, LineTemplate, MetricAggregator, MetricName, OutputScope, Pcg32,
    RawScores, SampledInputScope, Sampling, ScheduledTask, Scheduler, Scoreboard, ScoreType,
    StatsFunction, StatsMap,
};

#[test]
fn names_join_with_separator() {
    let mut n = MetricName::from_segment("app");
    n.append("db");
    assert_eq!(n.join("."), "app.db");
    n.prepend("root");
    assert_eq!(n.join("."), "root.app.db");
    assert_eq!(n.len(), 3);
    let m = MetricName::from_segment("app");
    assert_eq!(m.join("."), "app");
    assert_eq!(MetricName::empty().join("."), "");
}

#[test]
fn scoreboard_conserves_count_and_sum() {
    let mut board = Scoreboard::new(MetricName::empty(), InputKind::Counter, "c".to_string());
    board.update(10);
    board.update(20);
    board.update(5);
    let raw = board.snapshot().unwrap();
    assert_eq!(raw.count, 3);
    assert_eq!(raw.sum, 35);
    assert_eq!(raw.max, 20);
    assert_eq!(raw.min, 5);
}

#[test]
fn scoreboard_empty_snapshot_reports_no_data() {
    let mut board = Scoreboard::new(MetricName::empty(), InputKind::Gauge, "g".to_string());
    assert!(board.snapshot().is_none());
    board.update(7);
    assert!(board.snapshot().is_some());
    // Snapshot idempotence on empty: no intervening updates, no data.
    assert!(board.snapshot().is_none());
}

#[test]
fn scoreboard_marker_keeps_blank_extremes() {
    let mut board = Scoreboard::new(MetricName::empty(), InputKind::Marker, "m".to_string());
    board.update(1);
    board.update(1);
    let raw = board.snapshot().unwrap();
    assert_eq!(raw.count, 2);
    assert_eq!(raw.sum, 0);
    assert_eq!(raw.max, 0);
    assert_eq!(raw.min, u64::MAX);
}

#[test]
fn scoreboard_reset_derives_rounded_stats() {
    let mut board = Scoreboard::new(MetricName::empty(), InputKind::Timer, "t".to_string());
    board.update(10_000_000);
    board.update(20_000_000);
    // Two timer hits over three seconds: rate 2/3 rounds to 1.
    let scores = board.reset(3_000_000).unwrap();
    assert_eq!(scores.len(), 6);
    assert!(matches!(scores[0], ScoreType::Count(2)));
    assert!(matches!(scores[1], ScoreType::Sum(30_000_000)));
    assert!(matches!(scores[2], ScoreType::Max(20_000_000)));
    assert!(matches!(scores[3], ScoreType::Min(10_000_000)));
    assert!(matches!(scores[4], ScoreType::Mean(15_000_000)));
    assert!(matches!(scores[5], ScoreType::Rate(1)));
}

#[test]
fn stats_functions_route_scores() {
    let name = MetricName::from_segment("x");
    let all = all_stats(InputKind::Counter, name, ScoreType::Count(2)).unwrap();
    assert_eq!(all.0, InputKind::Counter);
    assert_eq!(all.1.join("."), "x.count");
    assert_eq!(all.2, 2);

    let s = summary(InputKind::Gauge, MetricName::from_segment("g"), ScoreType::Mean(15)).unwrap();
    assert_eq!(s.1.join("."), "g");
    assert_eq!(s.2, 15);
    assert!(summary(InputKind::Gauge, MetricName::from_segment("g"), ScoreType::Max(20)).is_none());

    let a = average(InputKind::Marker, MetricName::from_segment("m"), ScoreType::Count(3)).unwrap();
    assert_eq!(a.0, InputKind::Counter);
    assert_eq!(a.2, 3);
    assert!(average(InputKind::Timer, MetricName::from_segment("t"), ScoreType::Sum(9)).is_none());
}

#[test]
fn templates_render_values_and_labels() {
    let mut ops: Vec<LineOp> = Vec::new();
    ops.push(LineOp::Literal(b"v=".to_vec()));
    ops.push(LineOp::ValueAsText);
    let mut sub: Vec<LabelOp> = Vec::new();
    sub.push(LabelOp::Literal(b" ".to_vec()));
    sub.push(LabelOp::LabelKey);
    sub.push(LabelOp::Literal(b":".to_vec()));
    sub.push(LabelOp::LabelValue);
    ops.push(LineOp::LabelExists("host".to_string(), sub));
    ops.push(LineOp::NewLine);
    let template = LineTemplate::new(ops);

    let mut labels = Labels::none();
    labels.push("host".to_string(), "a1".to_string());
    assert_eq!(template.print(1234, &labels), b"v=1234 host:a1\n".to_vec());
    // A missing key elides the sub-template entirely.
    assert_eq!(template.print(0, &Labels::none()), b"v=0\n".to_vec());
}

#[test]
fn cache_returns_equal_handles_and_evicts() {
    let mut cache = InputCache::new(8);
    let first = cache.get_or_create(MetricName::from_segment("x"), InputKind::Counter);
    let again = cache.get_or_create(MetricName::from_segment("x"), InputKind::Counter);
    assert!(first.metric_id() == again.metric_id());
    // Fill past capacity with distinct names: the oldest goes, nothing
    // fails.
    let names = ["a", "b", "c", "d", "e", "f", "g", "h", "i"];
    for n in names {
        let handle = cache.get_or_create(MetricName::from_segment(n), InputKind::Counter);
        assert_eq!(handle.metric_id().kind(), InputKind::Counter);
    }
}

#[test]
fn sampling_full_rate_passes_everything() {
    let mut rng = Pcg32::seeded(42);
    let full = Sampling::full();
    for _ in 0..100 {
        assert!(full.accept(&mut rng));
    }
}

#[test]
fn sampling_half_rate_is_near_half() {
    let mut rng = Pcg32::seeded(7);
    let half = Sampling::of_ppm(500_000);
    let mut hits: u32 = 0;
    for _ in 0..10_000 {
        if half.accept(&mut rng) {
            hits += 1;
        }
    }
    // Expected 5000 out of 10000 draws, within a few standard deviations.
    assert!(hits > 4700 && hits < 5300, "hits = {}", hits);
}

#[test]
fn scheduler_pops_earliest_due_task_and_avoids_catch_up() {
    assert_eq!(next_fire_after(1_000, 100), 1_100);
    let mut sched = Scheduler::new();
    sched.schedule(100, 1, 0);
    sched.schedule(50, 2, 0);
    assert_eq!(sched.pop_due(40), None);
    let first: ScheduledTask = sched.pop_due(60).unwrap();
    assert_eq!(first.task_id, 2);
    assert_eq!(first.next_fire_us, 50);
    // The task overran until time 230: it fires again at 280, one period
    // from now, with no catch-up burst.
    sched.reschedule(&first, 230);
    assert_eq!(sched.pop_due(100).unwrap().task_id, 1);
    assert_eq!(sched.pop_due(279), None);
    assert_eq!(sched.pop_due(280).unwrap().next_fire_us, 280);
}

#[test]
fn raw_scores_compare_by_fields() {
    let a = RawScores { count: 1, sum: 2, max: 3, min: 4 };
    let b = RawScores { count: 1, sum: 2, max: 3, min: 4 };
    assert_eq!(a, b);
}

#[test]
fn sampled_scope_forwards_about_the_rate() {
    let bucket = InputScope::Bucket(MetricAggregator::new());
    let mut sampled = SampledInputScope::new(Sampling::of_ppm(500_000), 99, bucket);
    let m = sampled.new_metric(MetricName::from_segment("hits"), InputKind::Marker);
    for _ in 0..10_000 {
        sampled.write(&m, 1, &Labels::none());
    }
    match sampled.into_inner() {
        InputScope::Bucket(mut bucket) => {
            let mut out = OutputScope::Stats(StatsMap::new());
            bucket.flush_to(&mut out, StatsFunction::Summary, 1_000_000);
            match out {
                OutputScope::Stats(map) => {
                    // A marker's summary value is its hit count: close to
                    // half the writes at the half rate.
                    let hits = map.get("hits").unwrap();
                    assert!(hits > 4700 && hits < 5300, "hits = {}", hits);
                },
                _ => panic!("the publish scope kept its shape"),
            }
        },
        _ => panic!("the bucket keeps its shape"),
    }
}

#[test]
fn label_resolution_prefers_the_write() {
    let mut per_write = Labels::none();
    per_write.push("host".to_string(), "write".to_string());
    let mut scope_labels = Labels::none();
    scope_labels.push("host".to_string(), "scope".to_string());
    scope_labels.push("region".to_string(), "eu".to_string());
    let resolved = per_write.extended(&scope_labels);
    assert_eq!(resolved.lookup("host").unwrap(), "write");
    assert_eq!(resolved.lookup("region").unwrap(), "eu");
    assert!(resolved.lookup("absent").is_none());
}

#[test]
fn scaled_stats_recover_sampled_magnitudes() {
    // Half rate: 500000 parts per million is exactly half of the draw
    // space, so counters and timers double.
    let half = Sampling::of_ppm(500_000);
    assert!(matches!(
        scale_score(InputKind::Counter, ScoreType::Sum(10), half),
        ScoreType::Sum(20)
    ));
    assert!(matches!(
        scale_score(InputKind::Timer, ScoreType::Count(3), half),
        ScoreType::Count(6)
    ));
    // Witnessed values and markers stay as recorded.
    assert!(matches!(
        scale_score(InputKind::Counter, ScoreType::Max(9), half),
        ScoreType::Max(9)
    ));
    assert!(matches!(
        scale_score(InputKind::Marker, ScoreType::Count(3), half),
        ScoreType::Count(3)
    ));
    // The full rate changes nothing.
    assert!(matches!(
        scale_score(InputKind::Counter, ScoreType::Sum(10), Sampling::full()),
        ScoreType::Sum(10)
    ));
    // Through the stats function: a sampled counter publishes its scaled
    // sum under its own name.
    let r = StatsFunction::Summary
        .apply_scaled(InputKind::Counter, MetricName::from_segment("c"), ScoreType::Sum(10), half)
        .unwrap();
    assert_eq!(r.1.join("."), "c");
    assert_eq!(r.2, 20);
}
