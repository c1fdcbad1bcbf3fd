use vstd::prelude::*;
use crate::grouping::{
    group_runs, lemma_equal_neighbours_share_run, lemma_runs_last_key, lemma_runs_total, runs, runs_view, total_len,
};
use crate::record::{Record, Timestamp};

verus! {

/// Default number of buffered samples that triggers a flush.
pub const CHUNK_SIZE: usize = 10_000;

/// Tunable settings of the aggregation.
#[derive(Debug)]
pub struct Config {
    pub chunk_size: usize,
    /// Name of the response-time metric.
    pub duration_metric: String,
    /// Name of the concurrent-users metric.
    pub vu_metric: String,
}

impl Config {
    pub fn new() -> (r: Config)
        ensures
            r.chunk_size == CHUNK_SIZE,
            r.duration_metric@ == "http_req_duration"@,
            r.vu_metric@ == "vus"@,
    {
        Config {
            chunk_size: CHUNK_SIZE,
            duration_metric: "http_req_duration".to_owned(),
            vu_metric: "vus".to_owned(),
        }
    }
}

/// Where a sample of a given metric goes.
#[derive(Clone, Copy, Debug, PartialEq, Eq, Structural)]
pub enum Route {
    Duration,
    Vu,
    Dropped,
}

pub open spec fn route(cfg: Config, metric: Seq<char>) -> Route {
    if metric == cfg.duration_metric@ {
        Route::Duration
    } else if metric == cfg.vu_metric@ {
        Route::Vu
    } else {
        Route::Dropped
    }
}

/// The fatal input condition: one second with more than one
/// concurrent-users sample.
#[derive(Clone, Copy, Debug, PartialEq, Eq, Structural)]
pub enum PipelineError {
    DuplicateVuSample,
}

/// Every run of the buffer holds exactly one sample.
pub open spec fn single_samples<V>(u: Seq<(Timestamp, V)>) -> bool {
    forall|j: int| 0 <= j < runs(u).len() ==> #[trigger] runs(u)[j].1.len() == 1
}

/// The one sample of each run, with its second.
pub open spec fn samples_of<V>(u: Seq<(Timestamp, V)>) -> Seq<(Timestamp, V)> {
    runs(u).map_values(|g: (Timestamp, Seq<V>)| (g.0, g.1[0]))
}

/// Two samples of one second next to each other in a concurrent-users
/// buffer make its flush fail: one of them is never picked silently.
pub proof fn lemma_duplicate_vu_sample_fails<V>(u: Seq<(Timestamp, V)>, i: int)
    requires
        0 <= i,
        i + 1 < u.len(),
        u[i].0 == u[i + 1].0,
    ensures
        !single_samples(u),
{
    lemma_equal_neighbours_share_run(u, i);
}

/// What one flush hands on: the duration runs and the concurrent-users
/// samples, each with its second.
#[derive(Debug)]
pub struct Flush<V> {
    pub durations: Vec<(Timestamp, Vec<V>)>,
    pub vus: Vec<(Timestamp, V)>,
}

/// Turns a drained concurrent-users buffer into one sample per second.
fn vu_samples<V: Copy>(u: &Vec<(Timestamp, V)>) -> (r: Result<Vec<(Timestamp, V)>, PipelineError>)
    ensures
        r is Ok <==> single_samples(u@),
        r is Ok ==> r->Ok_0@ == samples_of(u@),
{
    let groups = group_runs(u);
    let mut out: Vec<(Timestamp, V)> = Vec::new();
    let mut j: usize = 0;
    while j < groups.len()
        invariant
            j <= groups.len(),
            runs_view(groups@) == runs(u@),
            out@ == samples_of(u@).take(j as int),
            forall|i: int| 0 <= i < j ==> #[trigger] runs(u@)[i].1.len() == 1,
        decreases groups.len() - j,
    {
        assert(runs(u@)[j as int] == (groups@[j as int].0, groups@[j as int].1@));
        if groups[j].1.len() != 1 {
            assert(runs(u@)[j as int].1.len() != 1);
            return Err(PipelineError::DuplicateVuSample);
        }
        out.push((groups[j].0, groups[j].1[0]));
        j += 1;
        assert(out@ =~= samples_of(u@).take(j as int));
    }
    assert(out@ =~= samples_of(u@));
    Ok(out)
}

/// The streaming state: two buffers and the second of the last point seen.
#[derive(Debug)]
pub struct Pipeline<V> {
    pub config: Config,
    pub duration_buf: Vec<(Timestamp, V)>,
    pub vu_buf: Vec<(Timestamp, V)>,
    pub last_ts: Option<Timestamp>,
}

impl<V: Copy> Pipeline<V> {
    pub fn new(config: Config) -> (r: Pipeline<V>)
        ensures
            r.config == config,
            r.duration_buf@.len() == 0,
            r.vu_buf@.len() == 0,
            r.last_ts is None,
    {
        Pipeline { config, duration_buf: Vec::new(), vu_buf: Vec::new(), last_ts: None }
    }

    /// Equal settings, buffers and last second.
    pub open spec fn same_state(&self, other: &Pipeline<V>) -> bool {
        &&& self.config == other.config
        &&& self.duration_buf@ == other.duration_buf@
        &&& self.vu_buf@ == other.vu_buf@
        &&& self.last_ts == other.last_ts
    }

    /// The duration buffer once `rec` is routed.
    pub open spec fn duration_after(&self, rec: Record<V>) -> Seq<(Timestamp, V)> {
        match rec {
            Record::Point { data, metric } => if route(self.config, metric@) == Route::Duration {
                self.duration_buf@.push((data.time.spec_truncated(), data.value))
            } else {
                self.duration_buf@
            },
            _ => self.duration_buf@,
        }
    }

    /// The concurrent-users buffer once `rec` is routed.
    pub open spec fn vu_after(&self, rec: Record<V>) -> Seq<(Timestamp, V)> {
        match rec {
            Record::Point { data, metric } => if route(self.config, metric@) == Route::Vu {
                self.vu_buf@.push((data.time.spec_truncated(), data.value))
            } else {
                self.vu_buf@
            },
            _ => self.vu_buf@,
        }
    }

    /// The duration buffer is flushed once it holds a chunk and a new
    /// second begins.
    pub open spec fn flushes_durations(&self, rec: Record<V>) -> bool {
        match rec {
            Record::Point { data, .. } => self.duration_after(rec).len() >= self.config.chunk_size
                && self.last_ts != Some(data.time.spec_truncated()),
            _ => false,
        }
    }

    /// The concurrent-users buffer is flushed as soon as it holds a chunk.
    pub open spec fn flushes_vus(&self, rec: Record<V>) -> bool {
        rec is Point && self.vu_after(rec).len() == self.config.chunk_size
    }

    /// Routes one event and flushes what is due. Descriptors change nothing.
    /// The call fails, and leaves the state as it was, when a flushed
    /// concurrent-users buffer holds two samples in one run.
    pub fn push(&mut self, rec: Record<V>) -> (r: Result<Flush<V>, PipelineError>)
        ensures
            rec is Metric ==> final(self).same_state(old(self)) && r is Ok && r->Ok_0.durations@.len()
                == 0 && r->Ok_0.vus@.len() == 0,
            rec is Point && old(self).flushes_vus(rec) && !single_samples(old(self).vu_after(rec))
                ==> r == Err::<Flush<V>, PipelineError>(PipelineError::DuplicateVuSample)
                && final(self).same_state(old(self)),
            rec is Point && !(old(self).flushes_vus(rec) && !single_samples(old(self).vu_after(rec)))
                ==> {
                &&& r is Ok
                &&& final(self).config == old(self).config
                &&& final(self).last_ts == Some(rec->Point_data.time.spec_truncated())
                &&& final(self).duration_buf@ == if old(self).flushes_durations(rec) {
                    Seq::empty()
                } else {
                    old(self).duration_after(rec)
                }
                &&& final(self).vu_buf@ == if old(self).flushes_vus(rec) {
                    Seq::empty()
                } else {
                    old(self).vu_after(rec)
                }
                &&& runs_view(r->Ok_0.durations@) == if old(self).flushes_durations(rec) {
                    runs(old(self).duration_after(rec))
                } else {
                    Seq::empty()
                }
                &&& r->Ok_0.vus@ == if old(self).flushes_vus(rec) {
                    samples_of(old(self).vu_after(rec))
                } else {
                    Seq::empty()
                }
                &&& total_len(runs_view(r->Ok_0.durations@)) + final(self).duration_buf@.len()
                    == old(self).duration_after(rec).len()
            },
    {
        match rec {
            Record::Metric { .. } => Ok(Flush { durations: Vec::new(), vus: Vec::new() }),
            Record::Point { data, metric } => {
                let ts = data.time.truncated();
                let to_duration = metric.eq(&self.config.duration_metric);
                let to_vu = !to_duration && metric.eq(&self.config.vu_metric);
                if to_vu {
                    self.vu_buf.push((ts, data.value));
                }
                assert(self.vu_buf@ == old(self).vu_after(rec));
                let mut vus: Vec<(Timestamp, V)> = Vec::new();
                if self.vu_buf.len() == self.config.chunk_size {
                    match vu_samples(&self.vu_buf) {
                        Ok(s) => {
                            vus = s;
                        },
                        Err(e) => {
                            if to_vu {
                                self.vu_buf.pop();
                            }
                            assert(self.vu_buf@ =~= old(self).vu_buf@);
                            return Err(e);
                        },
                    }
                    self.vu_buf = Vec::new();
                }
                if to_duration {
                    self.duration_buf.push((ts, data.value));
                }
                let mut durations: Vec<(Timestamp, Vec<V>)> = Vec::new();
                let boundary = match self.last_ts {
                    Some(prev) => prev != ts,
                    None => true,
                };
                if self.duration_buf.len() >= self.config.chunk_size && boundary {
                    proof {
                        lemma_runs_total(self.duration_buf@);
                    }
                    durations = group_runs(&self.duration_buf);
                    self.duration_buf = Vec::new();
                }
                self.last_ts = Some(ts);
                Ok(Flush { durations, vus })
            },
        }
    }

    /// Drains both buffers at the end of the input. Fails, and leaves the
    /// state as it was, when the concurrent-users buffer holds two samples
    /// in one run.
    pub fn finish(&mut self) -> (r: Result<Flush<V>, PipelineError>)
        ensures
            !single_samples(old(self).vu_buf@) ==> r == Err::<Flush<V>, PipelineError>(
                PipelineError::DuplicateVuSample,
            ) && final(self).same_state(old(self)),
            single_samples(old(self).vu_buf@) ==> {
                &&& r is Ok
                &&& final(self).config == old(self).config
                &&& final(self).last_ts == old(self).last_ts
                &&& final(self).duration_buf@.len() == 0
                &&& final(self).vu_buf@.len() == 0
                &&& runs_view(r->Ok_0.durations@) == runs(old(self).duration_buf@)
                &&& r->Ok_0.vus@ == samples_of(old(self).vu_buf@)
                &&& total_len(runs_view(r->Ok_0.durations@)) == old(self).duration_buf@.len()
            },
    {
        let vus = match vu_samples(&self.vu_buf) {
            Ok(s) => s,
            Err(e) => {
                return Err(e);
            },
        };
        proof {
            lemma_runs_total(self.duration_buf@);
        }
        let durations = group_runs(&self.duration_buf);
        self.duration_buf = Vec::new();
        self.vu_buf = Vec::new();
        Ok(Flush { durations, vus })
    }
}

/// Two pipelines in the same state route an event into equal buffers and
/// take the same flush decisions for it.
pub proof fn lemma_step_deterministic<V: Copy>(a: Pipeline<V>, b: Pipeline<V>, rec: Record<V>)
    requires
        a.same_state(&b),
    ensures
        a.duration_after(rec) == b.duration_after(rec),
        a.vu_after(rec) == b.vu_after(rec),
        a.flushes_durations(rec) == b.flushes_durations(rec),
        a.flushes_vus(rec) == b.flushes_vus(rec),
{
}

/// At the end of the input a non-empty duration buffer is drained into at
/// least one run, and the runs hold every buffered sample; `finish` owes this
/// result whenever the concurrent-users buffer has one sample per run.
pub proof fn lemma_final_drain_keeps_all<V: Copy>(p: Pipeline<V>)
    requires
        p.duration_buf@.len() > 0,
    ensures
        runs(p.duration_buf@).len() > 0,
        total_len(runs(p.duration_buf@)) == p.duration_buf@.len(),
{
    lemma_runs_last_key(p.duration_buf@);
    lemma_runs_total(p.duration_buf@);
}

} // verus!
