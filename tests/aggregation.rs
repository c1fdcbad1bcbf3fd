use k6::{
    align, merge, Config, DataMetric, DataPoint, DurationStat, MeasurementPoint, Pipeline,
    PipelineError, Record, Timestamp,
};

fn ts(secs: i64, nanos: u32) -> Timestamp {
    Timestamp { secs, nanos }
}

fn point(metric: &str, secs: i64, nanos: u32, value: f64) -> Record<f64> {
    Record::Point { data: DataPoint { time: ts(secs, nanos), value }, metric: metric.to_owned() }
}

fn descriptor(metric: &str) -> Record<f64> {
    Record::Metric {
        data: DataMetric { typ: "trend".to_owned(), contains: "time".to_owned() },
        metric: metric.to_owned(),
    }
}

fn config(chunk_size: usize) -> Config {
    let mut c = Config::new();
    c.chunk_size = chunk_size;
    c
}

/// Feeds every record, then drains; returns all duration runs and vu samples.
fn run(
    chunk_size: usize,
    records: Vec<Record<f64>>,
) -> Result<(Vec<(Timestamp, Vec<f64>)>, Vec<(Timestamp, f64)>), PipelineError> {
    let mut p: Pipeline<f64> = Pipeline::new(config(chunk_size));
    let mut durations = Vec::new();
    let mut vus = Vec::new();
    for r in records {
        let f = p.push(r)?;
        durations.extend(f.durations);
        vus.extend(f.vus);
    }
    let f = p.finish()?;
    durations.extend(f.durations);
    vus.extend(f.vus);
    Ok((durations, vus))
}

fn mean(values: &[f64]) -> f64 {
    values.iter().sum::<f64>() / values.len() as f64
}

#[test]
fn truncation_drops_sub_second_part() {
    assert_eq!(ts(100, 625_742_514).truncated(), ts(100, 0));
    assert_eq!(ts(-5, 999_999_999).truncated(), ts(-5, 0));
    assert_eq!(ts(7, 1_500_000_000).truncated(), ts(7, 1_000_000_000));
}

#[test]
fn default_config() {
    let c = Config::new();
    assert_eq!(c.chunk_size, 10_000);
    assert_eq!(c.duration_metric, "http_req_duration");
    assert_eq!(c.vu_metric, "vus");
}

#[test]
fn single_second_scenario() {
    let (durations, vus) = run(
        10_000,
        vec![
            descriptor("http_req_duration"),
            point("http_req_duration", 10, 100, 50.0),
            point("vus", 10, 500, 4.0),
            point("http_req_duration", 10, 900, 150.0),
            point("iterations", 10, 950, 1.0),
        ],
    )
    .unwrap();
    assert_eq!(durations, vec![(ts(10, 0), vec![50.0, 150.0])]);
    assert_eq!(vus, vec![(ts(10, 0), 4.0)]);
    let stats: Vec<DurationStat<f64>> = durations
        .iter()
        .map(|(t, v)| DurationStat { time: *t, count: v.len(), stats: mean(v) })
        .collect();
    let vu: Vec<(Timestamp, i64)> = vus.iter().map(|(t, v)| (*t, *v as i64)).collect();
    let points = align(&stats, &vu);
    assert_eq!(points.len(), 1);
    assert_eq!(points[0].t, ts(10, 0));
    assert_eq!(points[0].vu, 4);
    assert_eq!(points[0].rps, 2);
    assert_eq!(points[0].stats, 100.0);
}

#[test]
fn mean_of_one_bucket() {
    let (durations, _) = run(
        10_000,
        vec![
            point("http_req_duration", 3, 1, 100.0),
            point("http_req_duration", 3, 2, 200.0),
            point("http_req_duration", 3, 3, 300.0),
        ],
    )
    .unwrap();
    assert_eq!(durations.len(), 1);
    assert_eq!(mean(&durations[0].1), 200.0);
}

#[test]
fn two_vu_samples_in_one_second_fail() {
    let r = run(10_000, vec![point("vus", 5, 1, 3.0), point("vus", 5, 2, 4.0)]);
    assert_eq!(r.unwrap_err(), PipelineError::DuplicateVuSample);
}

#[test]
fn two_vu_samples_fail_at_chunk_flush_and_keep_state() {
    let mut p: Pipeline<f64> = Pipeline::new(config(2));
    assert!(p.push(point("vus", 5, 1, 3.0)).is_ok());
    assert_eq!(p.push(point("vus", 5, 2, 4.0)).unwrap_err(), PipelineError::DuplicateVuSample);
    assert_eq!(p.vu_buf, vec![(ts(5, 0), 3.0)]);
    assert_eq!(p.last_ts, Some(ts(5, 0)));
}

#[test]
fn vu_buffer_flushes_at_chunk_size() {
    let mut p: Pipeline<f64> = Pipeline::new(config(2));
    let f = p.push(point("vus", 1, 0, 3.0)).unwrap();
    assert!(f.vus.is_empty());
    let f = p.push(point("vus", 2, 0, 5.0)).unwrap();
    assert_eq!(f.vus, vec![(ts(1, 0), 3.0), (ts(2, 0), 5.0)]);
    assert!(p.vu_buf.is_empty());
}

#[test]
fn duration_buffer_waits_for_new_second() {
    let mut p: Pipeline<f64> = Pipeline::new(config(2));
    assert!(p.push(point("http_req_duration", 1, 0, 1.0)).unwrap().durations.is_empty());
    // Full, and a new second began: flush.
    let f = p.push(point("http_req_duration", 2, 0, 2.0)).unwrap();
    assert_eq!(f.durations, vec![(ts(1, 0), vec![1.0]), (ts(2, 0), vec![2.0])]);
    assert!(p.push(point("http_req_duration", 3, 0, 3.0)).unwrap().durations.is_empty());
    // Full, but still the same second: no flush.
    let f = p.push(point("http_req_duration", 3, 5, 4.0)).unwrap();
    assert!(f.durations.is_empty());
    assert_eq!(p.duration_buf.len(), 2);
    // A point of another metric in a new second triggers the flush.
    let f = p.push(point("checks", 4, 0, 1.0)).unwrap();
    assert_eq!(f.durations, vec![(ts(3, 0), vec![3.0, 4.0])]);
}

#[test]
fn descriptors_change_nothing() {
    let mut p: Pipeline<f64> = Pipeline::new(config(1));
    let f = p.push(descriptor("vus")).unwrap();
    assert!(f.durations.is_empty() && f.vus.is_empty());
    assert_eq!(p.last_ts, None);
}

#[test]
fn final_drain_after_one_short_of_a_chunk() {
    let records: Vec<Record<f64>> =
        (0..4).map(|i| point("http_req_duration", i / 2, 0, i as f64)).collect();
    let mut p: Pipeline<f64> = Pipeline::new(config(5));
    for r in records {
        assert!(p.push(r).unwrap().durations.is_empty());
    }
    let f = p.finish().unwrap();
    assert_eq!(f.durations, vec![(ts(0, 0), vec![0.0, 1.0]), (ts(1, 0), vec![2.0, 3.0])]);
    assert!(p.duration_buf.is_empty());
}

#[test]
fn repeated_second_forms_separate_runs() {
    let (durations, _) = run(
        100,
        vec![
            point("http_req_duration", 1, 0, 1.0),
            point("http_req_duration", 2, 0, 2.0),
            point("http_req_duration", 1, 3, 3.0),
        ],
    )
    .unwrap();
    assert_eq!(
        durations,
        vec![(ts(1, 0), vec![1.0]), (ts(2, 0), vec![2.0]), (ts(1, 0), vec![3.0])]
    );
}

#[test]
fn merge_two_points_of_one_second() {
    let points = vec![
        MeasurementPoint { t: ts(9, 0), vu: 3, stats: 10.0, rps: 5 },
        MeasurementPoint { t: ts(9, 0), vu: 9, stats: 20.0, rps: 7 },
        MeasurementPoint { t: ts(10, 0), vu: 1, stats: 4.0, rps: 1 },
    ];
    let merged = merge(&points);
    assert_eq!(merged.len(), 2);
    assert_eq!(merged[0].t, ts(9, 0));
    assert_eq!(merged[0].vu, 9);
    assert_eq!(merged[0].rps, 12);
    assert_eq!(merged[0].stats, vec![10.0, 20.0]);
    assert_eq!(mean(&merged[0].stats), 15.0);
    assert_eq!(merged[1].rps, 1);
    assert_eq!(merged[1].stats, vec![4.0]);
}

#[test]
fn align_stops_at_shorter_series() {
    let stats = vec![
        DurationStat { time: ts(1, 0), count: 2, stats: 1.5 },
        DurationStat { time: ts(2, 0), count: 4, stats: 2.5 },
    ];
    let vus = vec![(ts(7, 0), 11)];
    let points = align(&stats, &vus);
    assert_eq!(points.len(), 1);
    assert_eq!(points[0].t, ts(1, 0));
    assert_eq!(points[0].vu, 11);
    assert_eq!(points[0].rps, 2);
}

#[test]
fn request_counts_add_up() {
    let mut records = Vec::new();
    for i in 0..25i64 {
        records.push(point("http_req_duration", i / 3, (i % 3) as u32, i as f64));
        if i % 3 == 0 {
            records.push(point("vus", i / 3, 0, 2.0));
        }
    }
    let (durations, vus) = run(4, records).unwrap();
    let total: usize = durations.iter().map(|(_, v)| v.len()).sum();
    assert_eq!(total, 25);
    let stats: Vec<DurationStat<f64>> = durations
        .iter()
        .map(|(t, v)| DurationStat { time: *t, count: v.len(), stats: mean(v) })
        .collect();
    let vu: Vec<(Timestamp, i64)> = vus.iter().map(|(t, v)| (*t, *v as i64)).collect();
    let points = align(&stats, &vu);
    let kept: usize = stats.iter().take(vu.len()).map(|s| s.count).sum();
    assert_eq!(points.len(), stats.len().min(vu.len()));
    let merged = merge(&points);
    assert_eq!(merged.iter().map(|m| m.rps).sum::<usize>(), kept);
    assert!(kept < 25);
}

#[test]
fn request_counts_add_up_without_truncation() {
    let mut records = Vec::new();
    for i in 0..12i64 {
        records.push(point("vus", i, 0, 1.0));
        records.push(point("http_req_duration", i, 1, 1.0));
        records.push(point("http_req_duration", i, 2, 2.0));
    }
    let (durations, vus) = run(5, records).unwrap();
    let stats: Vec<DurationStat<f64>> = durations
        .iter()
        .map(|(t, v)| DurationStat { time: *t, count: v.len(), stats: mean(v) })
        .collect();
    let vu: Vec<(Timestamp, i64)> = vus.iter().map(|(t, v)| (*t, *v as i64)).collect();
    assert!(vu.len() >= stats.len());
    let merged = merge(&align(&stats, &vu));
    assert_eq!(merged.iter().map(|m| m.rps).sum::<usize>(), 24);
}

#[test]
fn same_input_same_output() {
    let make = || {
        vec![
            point("http_req_duration", 1, 5, 12.5),
            point("vus", 1, 6, 1.0),
            point("http_req_duration", 2, 5, 7.25),
            point("vus", 2, 6, 2.0),
        ]
    };
    assert_eq!(run(1, make()).unwrap(), run(1, make()).unwrap());
}

#[test]
fn record_equality_and_order() {
    let a = point("vus", 1, 0, 1.0);
    let b = point("vus", 1, 0, 2.0);
    let c = point("http_req_duration", 1, 0, 1.0);
    let d = point("vus", 2, 0, 1.0);
    assert!(a.eq(&b));
    assert!(a.eq(&c));
    assert!(!a.eq(&d));
    assert!(descriptor("vus").eq(&descriptor("http_req_duration")));
    assert!(!descriptor("vus").eq(&a));
    assert_eq!(a.cmp(&d), std::cmp::Ordering::Less);
    assert_eq!(d.cmp(&a), std::cmp::Ordering::Greater);
    assert_eq!(a.cmp(&c), std::cmp::Ordering::Equal);
    assert_eq!(descriptor("vus").cmp(&a), std::cmp::Ordering::Less);
    assert_eq!(a.cmp(&descriptor("vus")), std::cmp::Ordering::Greater);
    assert_eq!(a.partial_cmp(&descriptor("vus")), Some(std::cmp::Ordering::Greater));
    assert_eq!(descriptor("vus").partial_cmp(&a), Some(std::cmp::Ordering::Less));
    assert_eq!(a.partial_cmp(&d), Some(std::cmp::Ordering::Less));
    assert_eq!(descriptor("a").partial_cmp(&descriptor("b")), Some(std::cmp::Ordering::Equal));
}

#[test]
fn data_points_equal_by_time() {
    let a = DataPoint { time: ts(4, 10), value: 1.0 };
    let b = DataPoint { time: ts(4, 10), value: 2.0 };
    let c = DataPoint { time: ts(4, 11), value: 1.0 };
    assert!(a.eq(&b));
    assert!(!a.eq(&c));
}
