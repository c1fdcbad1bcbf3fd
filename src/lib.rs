//! Per-second aggregation of a load-test event log: events are routed by
//! metric name into two buffers, flushed in chunks, grouped into one-second
//! runs, aligned into one series and merged where seconds repeat.

mod grouping;
mod pipeline;
mod record;
mod series;

pub use grouping::{
    lemma_equal_neighbours_share_run, lemma_runs_last_key, lemma_runs_nonempty, lemma_runs_total,
    lemma_runs_values, runs, runs_view, total_len, values_of,
};
pub use pipeline::{
    lemma_duplicate_vu_sample_fails, lemma_final_drain_keeps_all, lemma_step_deterministic, route, samples_of, single_samples, Config, Flush, Pipeline, PipelineError, Route, CHUNK_SIZE,
};
pub use record::{DataMetric, DataPoint, Record, Timestamp, NANOS_PER_SECOND};
pub use series::{
    align, aligned, duration_stat, folds_to, keyed, lemma_merge_keeps_rps, lemma_requests_conserved, merge,
    point_of, runs_rps, sum_rps, DurationStat, MeasurementPoint, MergedPoint,
};
