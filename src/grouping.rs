use itertools::Itertools;
use vstd::prelude::*;
use crate::record::Timestamp;

verus! {

/// Splits keyed items into maximal runs of consecutive items with equal
/// keys, keeping their order: each run is its key and its values.
pub open spec fn runs<T>(items: Seq<(Timestamp, T)>) -> Seq<(Timestamp, Seq<T>)>
    decreases items.len(),
{
    if items.len() == 0 {
        seq![]
    } else {
        let prev = runs(items.drop_last());
        let k = items.last().0;
        let v = items.last().1;
        if prev.len() > 0 && prev.last().0 == k {
            prev.update(prev.len() - 1, (k, prev.last().1.push(v)))
        } else {
            prev.push((k, seq![v]))
        }
    }
}

/// Number of values over all runs.
pub open spec fn total_len<T>(groups: Seq<(Timestamp, Seq<T>)>) -> int
    decreases groups.len(),
{
    if groups.len() == 0 {
        0
    } else {
        total_len(groups.drop_last()) + groups.last().1.len()
    }
}

pub open spec fn runs_view<T>(r: Seq<(Timestamp, Vec<T>)>) -> Seq<(Timestamp, Seq<T>)> {
    r.map_values(|g: (Timestamp, Vec<T>)| (g.0, g.1@))
}

/// Relies on itertools::Itertools::group_by: consecutive items whose keys
/// are equal form one group, groups come in input order, and each group
/// yields its items in order.
#[verifier::external_body]
pub(crate) fn group_runs<T: Copy>(items: &Vec<(Timestamp, T)>) -> (r: Vec<(Timestamp, Vec<T>)>)
    ensures
        runs_view(r@) == runs(items@),
{
    items.iter().group_by(|p| p.0).into_iter().map(|(k, g)| (k, g.map(|p| p.1).collect())).collect()
}

/// Grouping into runs neither loses nor adds a value.
pub proof fn lemma_runs_total<T>(items: Seq<(Timestamp, T)>)
    ensures
        total_len(runs(items)) == items.len(),
    decreases items.len(),
{
    if items.len() > 0 {
        let prev = runs(items.drop_last());
        lemma_runs_total(items.drop_last());
        let k = items.last().0;
        if prev.len() > 0 && prev.last().0 == k {
            let upd = prev.update(prev.len() - 1, (k, prev.last().1.push(items.last().1)));
            assert(upd.drop_last() =~= prev.drop_last());
        } else {
            assert(prev.push((k, seq![items.last().1])).drop_last() =~= prev);
        }
    }
}

/// Every run holds at least one value.
pub proof fn lemma_runs_nonempty<T>(items: Seq<(Timestamp, T)>)
    ensures
        forall|j: int| 0 <= j < runs(items).len() ==> #[trigger] runs(items)[j].1.len() > 0,
    decreases items.len(),
{
    if items.len() > 0 {
        lemma_runs_nonempty(items.drop_last());
        let prev = runs(items.drop_last());
        let k = items.last().0;
        if prev.len() > 0 && prev.last().0 == k {
            let upd = prev.update(prev.len() - 1, (k, prev.last().1.push(items.last().1)));
            assert forall|j: int| 0 <= j < upd.len() implies #[trigger] upd[j].1.len() > 0 by {
                if j < upd.len() - 1 {
                    assert(upd[j] == prev[j]);
                }
            }
        } else {
            let pushed = prev.push((k, seq![items.last().1]));
            assert forall|j: int| 0 <= j < pushed.len() implies #[trigger] pushed[j].1.len() > 0 by {
                if j < prev.len() {
                    assert(pushed[j] == prev[j]);
                }
            }
        }
    }
}

/// The last run carries the key of the last item.
pub proof fn lemma_runs_last_key<T>(items: Seq<(Timestamp, T)>)
    requires
        items.len() > 0,
    ensures
        runs(items).len() > 0,
        runs(items).last().0 == items.last().0,
{
}

/// Two neighbouring items with one key fall into one run, which then holds
/// at least two values.
pub proof fn lemma_equal_neighbours_share_run<T>(items: Seq<(Timestamp, T)>, i: int)
    requires
        0 <= i,
        i + 1 < items.len(),
        items[i].0 == items[i + 1].0,
    ensures
        exists|j: int| 0 <= j < runs(items).len() && #[trigger] runs(items)[j].1.len() >= 2,
    decreases items.len(),
{
    let init = items.drop_last();
    let prev = runs(init);
    let k = items.last().0;
    let v = items.last().1;
    lemma_runs_nonempty(init);
    if i + 1 == items.len() - 1 {
        lemma_runs_last_key(init);
        let upd = prev.update(prev.len() - 1, (k, prev.last().1.push(v)));
        assert(runs(items) == upd);
        assert(prev.last().1.len() > 0);
        assert(runs(items)[prev.len() - 1].1.len() >= 2);
    } else {
        lemma_equal_neighbours_share_run(init, i);
        let j = choose|j: int| 0 <= j < prev.len() && #[trigger] prev[j].1.len() >= 2;
        if prev.len() > 0 && prev.last().0 == k {
            let upd = prev.update(prev.len() - 1, (k, prev.last().1.push(v)));
            assert(runs(items) == upd);
            assert(runs(items)[j].1.len() >= 2);
        } else {
            assert(runs(items) == prev.push((k, seq![v])));
            assert(runs(items)[j] == prev[j]);
        }
    }
}

/// The values of all runs, one run after the other.
pub open spec fn values_of<T>(groups: Seq<(Timestamp, Seq<T>)>) -> Seq<T>
    decreases groups.len(),
{
    if groups.len() == 0 {
        seq![]
    } else {
        values_of(groups.drop_last()) + groups.last().1
    }
}

/// The runs, put back one after the other, give the input's values in order.
pub proof fn lemma_runs_values<T>(items: Seq<(Timestamp, T)>)
    ensures
        values_of(runs(items)) == items.map_values(|p: (Timestamp, T)| p.1),
    decreases items.len(),
{
    if items.len() > 0 {
        let init = items.drop_last();
        lemma_runs_values(init);
        let prev = runs(init);
        let k = items.last().0;
        let v = items.last().1;
        assert(items.map_values(|p: (Timestamp, T)| p.1) =~= init.map_values(
            |p: (Timestamp, T)| p.1,
        ).push(v));
        if prev.len() > 0 && prev.last().0 == k {
            let upd = prev.update(prev.len() - 1, (k, prev.last().1.push(v)));
            assert(runs(items) == upd);
            assert(upd.drop_last() =~= prev.drop_last());
            assert(values_of(upd) =~= values_of(prev).push(v));
        } else {
            let pushed = prev.push((k, seq![v]));
            assert(runs(items) == pushed);
            assert(pushed.drop_last() =~= prev);
            assert(values_of(pushed) =~= values_of(prev).push(v));
        }
    }
}

} // verus!
