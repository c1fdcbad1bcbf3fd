use vstd::prelude::*;
use crate::grouping::{group_runs, lemma_runs_total, runs, runs_view, total_len};
use crate::record::Timestamp;

verus! {

/// Statistics of one second of response times: the second, the number of
/// requests in it, and the figures `S` computed from its values.
#[derive(Clone, Copy, Debug)]
pub struct DurationStat<S> {
    pub time: Timestamp,
    pub count: usize,
    pub stats: S,
}

/// The statistics of one duration run: its second and its number of
/// requests, with the figures the caller computed from its values.
pub fn duration_stat<V, S>(run: &(Timestamp, Vec<V>), stats: S) -> (r: DurationStat<S>)
    ensures
        r.time == run.0,
        r.count == run.1@.len(),
        r.stats == stats,
{
    DurationStat { time: run.0, count: run.1.len(), stats }
}

/// One second of the output series.
#[derive(Clone, Copy, Debug)]
pub struct MeasurementPoint<S> {
    pub t: Timestamp,
    pub vu: i64,
    pub stats: S,
    pub rps: usize,
}

/// The points of one run of equal seconds, folded: the concurrent users of
/// the last point, the summed request count, and each point's figures, to be
/// averaged by the caller.
#[derive(Debug)]
pub struct MergedPoint<S> {
    pub t: Timestamp,
    pub vu: i64,
    pub rps: usize,
    pub stats: Vec<S>,
}

pub open spec fn point_of<S>(d: DurationStat<S>, vu: (Timestamp, i64)) -> MeasurementPoint<S> {
    MeasurementPoint { t: d.time, vu: vu.1, stats: d.stats, rps: d.count }
}

pub open spec fn min_len(a: int, b: int) -> int {
    if a < b {
        a
    } else {
        b
    }
}

/// The positional pairing of the two series.
pub open spec fn aligned<S>(durations: Seq<DurationStat<S>>, vus: Seq<(Timestamp, i64)>) -> Seq<
    MeasurementPoint<S>,
> {
    Seq::new(
        min_len(durations.len() as int, vus.len() as int) as nat,
        |i: int| point_of(durations[i], vus[i]),
    )
}

/// Pairs the two series by position, as far as the shorter one reaches.
/// The seconds of the concurrent-users series are not compared.
pub fn align<S: Copy>(durations: &Vec<DurationStat<S>>, vus: &Vec<(Timestamp, i64)>) -> (r: Vec<
    MeasurementPoint<S>,
>)
    ensures
        r@.len() == min_len(durations@.len() as int, vus@.len() as int),
        forall|i: int| 0 <= i < r@.len() ==> #[trigger] r@[i] == point_of(durations@[i], vus@[i]),
        r@ == aligned(durations@, vus@),
{
    let n = if durations.len() < vus.len() {
        durations.len()
    } else {
        vus.len()
    };
    let mut out: Vec<MeasurementPoint<S>> = Vec::new();
    let mut i: usize = 0;
    while i < n
        invariant
            i <= n,
            n == min_len(durations@.len() as int, vus@.len() as int),
            out@.len() == i,
            forall|k: int| 0 <= k < i ==> #[trigger] out@[k] == point_of(durations@[k], vus@[k]),
        decreases n - i,
    {
        let d = durations[i];
        out.push(MeasurementPoint { t: d.time, vu: vus[i].1, stats: d.stats, rps: d.count });
        i += 1;
    }
    assert(out@ =~= aligned(durations@, vus@));
    out
}

/// Sum of the request counts.
pub open spec fn sum_rps<S>(ps: Seq<MeasurementPoint<S>>) -> int
    decreases ps.len(),
{
    if ps.len() == 0 {
        0
    } else {
        sum_rps(ps.drop_last()) + ps.last().rps
    }
}

/// Sum of the request counts over all runs.
pub open spec fn runs_rps<S>(groups: Seq<(Timestamp, Seq<MeasurementPoint<S>>)>) -> int
    decreases groups.len(),
{
    if groups.len() == 0 {
        0
    } else {
        runs_rps(groups.drop_last()) + sum_rps(groups.last().1)
    }
}

/// Each point keyed by its second.
pub open spec fn keyed<S>(ps: Seq<MeasurementPoint<S>>) -> Seq<(Timestamp, MeasurementPoint<S>)> {
    ps.map_values(|p: MeasurementPoint<S>| (p.t, p))
}

/// What one run of equal seconds folds into.
pub open spec fn folds_to<S>(m: MergedPoint<S>, g: (Timestamp, Seq<MeasurementPoint<S>>)) -> bool {
    &&& m.t == g.0
    &&& m.vu == g.1.last().vu
    &&& m.rps == sum_rps(g.1)
    &&& m.stats@ == g.1.map_values(|p: MeasurementPoint<S>| p.stats)
}

proof fn lemma_sum_rps_nonneg<S>(ps: Seq<MeasurementPoint<S>>)
    ensures
        sum_rps(ps) >= 0,
    decreases ps.len(),
{
    if ps.len() > 0 {
        lemma_sum_rps_nonneg(ps.drop_last());
    }
}

proof fn lemma_runs_rps_take<S>(groups: Seq<(Timestamp, Seq<MeasurementPoint<S>>)>, j: int)
    requires
        0 <= j < groups.len(),
    ensures
        runs_rps(groups.take(j + 1)) == runs_rps(groups.take(j)) + sum_rps(groups[j].1),
{
    assert(groups.take(j + 1).drop_last() =~= groups.take(j));
    assert(groups.take(j + 1).last() == groups[j]);
}

proof fn lemma_runs_rps_take_le<S>(groups: Seq<(Timestamp, Seq<MeasurementPoint<S>>)>, j: int)
    requires
        0 <= j < groups.len(),
    ensures
        runs_rps(groups.take(j + 1)) <= runs_rps(groups),
    decreases groups.len(),
{
    if j + 1 < groups.len() {
        lemma_runs_rps_take_le(groups.drop_last(), j);
        assert(groups.drop_last().take(j + 1) =~= groups.take(j + 1));
        lemma_sum_rps_nonneg(groups.last().1);
    } else {
        assert(groups.take(j + 1) =~= groups);
    }
}

/// Merging the runs of equal seconds keeps the total request count.
pub proof fn lemma_merge_keeps_rps<S>(points: Seq<MeasurementPoint<S>>)
    ensures
        runs_rps(runs(keyed(points))) == sum_rps(points),
    decreases points.len(),
{
    if points.len() > 0 {
        let items = keyed(points);
        assert(items.drop_last() =~= keyed(points.drop_last()));
        lemma_merge_keeps_rps(points.drop_last());
        let prev = runs(items.drop_last());
        let k = items.last().0;
        let p = items.last().1;
        if prev.len() > 0 && prev.last().0 == k {
            let upd = prev.update(prev.len() - 1, (k, prev.last().1.push(p)));
            assert(upd.drop_last() =~= prev.drop_last());
            assert(upd.last() == (k, prev.last().1.push(p)));
            assert(prev.last().1.push(p).drop_last() =~= prev.last().1);
            assert(p == points.last());
            assert(runs(items) == upd);
            assert(sum_rps(prev.last().1.push(p)) == sum_rps(prev.last().1) + p.rps);
            assert(runs_rps(prev) == runs_rps(prev.drop_last()) + sum_rps(prev.last().1));
        } else {
            assert(prev.push((k, seq![p])).drop_last() =~= prev);
            assert(seq![p].drop_last() =~= Seq::<MeasurementPoint<S>>::empty());
            assert(p == points.last());
            assert(runs(items) == prev.push((k, seq![p])));
            assert(sum_rps(Seq::<MeasurementPoint<S>>::empty()) == 0);
            assert(sum_rps(seq![p]) == p.rps);
        }
    }
}

/// Folds each run of points with the same second into one point.
pub fn merge<S: Copy>(points: &Vec<MeasurementPoint<S>>) -> (r: Vec<MergedPoint<S>>)
    requires
        sum_rps(points@) <= usize::MAX,
    ensures
        r@.len() == runs(keyed(points@)).len(),
        forall|j: int| 0 <= j < r@.len() ==> folds_to(#[trigger] r@[j], runs(keyed(points@))[j]),
{
    let mut items: Vec<(Timestamp, MeasurementPoint<S>)> = Vec::new();
    let mut i: usize = 0;
    while i < points.len()
        invariant
            i <= points.len(),
            items@ == keyed(points@).take(i as int),
        decreases points.len() - i,
    {
        items.push((points[i].t, points[i]));
        i += 1;
        assert(items@ =~= keyed(points@).take(i as int));
    }
    assert(items@ =~= keyed(points@));
    let groups = group_runs(&items);
    let ghost gs = runs(keyed(points@));
    proof {
        lemma_merge_keeps_rps(points@);
        crate::grouping::lemma_runs_nonempty(keyed(points@));
    }
    let mut out: Vec<MergedPoint<S>> = Vec::new();
    let mut j: usize = 0;
    while j < groups.len()
        invariant
            j <= groups.len(),
            runs_view(groups@) == gs,
            gs == runs(keyed(points@)),
            runs_rps(gs) <= usize::MAX,
            forall|x: int| 0 <= x < gs.len() ==> #[trigger] gs[x].1.len() > 0,
            out@.len() == j,
            forall|x: int| 0 <= x < j ==> folds_to(#[trigger] out@[x], gs[x]),
        decreases groups.len() - j,
    {
        let ghost g = gs[j as int];
        assert(g == (groups@[j as int].0, groups@[j as int].1@));
        proof {
            lemma_runs_rps_take(gs, j as int);
            lemma_sum_rps_nonneg(g.1);
            lemma_runs_rps_take_le(gs, j as int);
            lemma_runs_rps_nonneg(gs.take(j as int));
        }
        let members = &groups[j].1;
        let mut rps: usize = 0;
        let mut stats: Vec<S> = Vec::new();
        let mut k: usize = 0;
        while k < members.len()
            invariant
                k <= members.len(),
                members@ == g.1,
                sum_rps(g.1) <= usize::MAX,
                rps == sum_rps(g.1.take(k as int)),
                stats@ == g.1.map_values(|p: MeasurementPoint<S>| p.stats).take(k as int),
            decreases members.len() - k,
        {
            proof {
                assert(g.1.take(k as int + 1).drop_last() =~= g.1.take(k as int));
                lemma_sum_take_le(g.1, k as int + 1);
            }
            rps = rps + members[k].rps;
            stats.push(members[k].stats);
            k += 1;
            assert(stats@ =~= g.1.map_values(|p: MeasurementPoint<S>| p.stats).take(k as int));
        }
        assert(g.1.take(k as int) =~= g.1);
        assert(stats@ =~= g.1.map_values(|p: MeasurementPoint<S>| p.stats));
        let last = members.len() - 1;
        out.push(MergedPoint { t: groups[j].0, vu: members[last].vu, rps, stats });
        j += 1;
    }
    out
}

proof fn lemma_runs_rps_nonneg<S>(groups: Seq<(Timestamp, Seq<MeasurementPoint<S>>)>)
    ensures
        runs_rps(groups) >= 0,
    decreases groups.len(),
{
    if groups.len() > 0 {
        lemma_runs_rps_nonneg(groups.drop_last());
        lemma_sum_rps_nonneg(groups.last().1);
    }
}

proof fn lemma_counts_sum<V, S>(ps: Seq<MeasurementPoint<S>>, gs: Seq<(Timestamp, Seq<V>)>)
    requires
        ps.len() == gs.len(),
        forall|i: int| 0 <= i < ps.len() ==> #[trigger] ps[i].rps == gs[i].1.len(),
    ensures
        sum_rps(ps) == total_len(gs),
    decreases ps.len(),
{
    if ps.len() > 0 {
        lemma_counts_sum(ps.drop_last(), gs.drop_last());
        assert(ps.last().rps == gs.last().1.len());
    }
}

/// Requests are neither lost nor invented between the duration buffer and
/// the merged series: when each statistic counts one run of the buffer and
/// the concurrent-users series is at least as long, the merged points'
/// request counts add up to the number of samples in the buffer.
pub proof fn lemma_requests_conserved<V, S>(
    buf: Seq<(Timestamp, V)>,
    durations: Seq<DurationStat<S>>,
    vus: Seq<(Timestamp, i64)>,
)
    requires
        durations.len() == runs(buf).len(),
        forall|i: int| 0 <= i < durations.len() ==> #[trigger] durations[i].count == runs(buf)[i].1.len(),
        vus.len() >= durations.len(),
    ensures
        sum_rps(aligned(durations, vus)) == buf.len(),
        runs_rps(runs(keyed(aligned(durations, vus)))) == buf.len(),
{
    let ps = aligned(durations, vus);
    assert forall|i: int| 0 <= i < ps.len() implies #[trigger] ps[i].rps == runs(buf)[i].1.len() by {
        assert(ps[i] == point_of(durations[i], vus[i]));
    }
    lemma_counts_sum(ps, runs(buf));
    lemma_runs_total(buf);
    lemma_merge_keeps_rps(ps);
}

proof fn lemma_sum_take_le<S>(ps: Seq<MeasurementPoint<S>>, k: int)
    requires
        0 <= k <= ps.len(),
    ensures
        sum_rps(ps.take(k)) <= sum_rps(ps),
    decreases ps.len(),
{
    if k < ps.len() {
        assert(ps.drop_last().take(k) =~= ps.take(k));
        lemma_sum_take_le(ps.drop_last(), k);
    } else {
        assert(ps.take(k) =~= ps);
    }
}

} // verus!
