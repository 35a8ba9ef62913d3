//! The series behind the charts of an exercise: per-date sums and averages
//! of what the training sessions report.

use crate::date::Date;
use crate::series::ascending;
use crate::series::average;
use crate::series::collect_by_day;
use crate::series::collects;
use crate::series::group_by_date;
use crate::series::groups;
use crate::series::has_date;
use crate::series::lemma_filter_map_series;
use crate::series::lemma_mean_bound;
use crate::series::maps_to;
use crate::series::mean;
use crate::series::sum;
use crate::series::total;
use crate::series::values_on;
use crate::series::Point;
use crate::session::Metric;
use crate::session::SessionMetrics;
use vstd::prelude::*;

verus! {

broadcast use vstd::std_specs::btree::group_btree_axioms;

/// The average repetitions and the average exertions reported on one date.
#[derive(Clone, Debug, PartialEq, Eq)]
pub struct RepsRpe {
    pub reps: Vec<u32>,
    pub rpe: Vec<u32>,
}

/// What the sessions add up to per date, before any average is taken.
#[derive(Clone, Debug, PartialEq, Eq)]
pub struct Aggregates {
    pub set_volume: Vec<Point<u128>>,
    pub volume_load: Vec<Point<u128>>,
    pub tut: Vec<Point<u128>>,
    pub reps_rpe: Vec<Point<RepsRpe>>,
    pub weight: Vec<Point<Vec<u32>>>,
    pub time: Vec<Point<Vec<u32>>>,
}

/// Whether `series` holds, for exactly the dates on which a session
/// contributes to `metric`, the sum of the contributions, ordered by date.
pub open spec fn totals_of(
    series: Seq<Point<u128>>,
    sessions: Seq<SessionMetrics>,
    metric: Metric,
) -> bool {
    &&& ascending(series)
    &&& forall|i: int|
        0 <= i < series.len() ==> {
            &&& (#[trigger] series[i]).value == total(
                values_on(sessions, metric, series[i].date),
            )
            &&& values_on(sessions, metric, series[i].date).len() > 0
        }
    &&& forall|date: Date|
        (#[trigger] values_on(sessions, metric, date)).len() > 0 ==> has_date(series, date)
}

/// Whether `series` holds, for exactly the dates on which a session reports
/// average repetitions, the averages of repetitions and of exertion that the
/// sessions of the date report, ordered by date.
pub open spec fn reps_rpe_of(series: Seq<Point<RepsRpe>>, sessions: Seq<SessionMetrics>) -> bool {
    &&& ascending(series)
    &&& forall|i: int|
        0 <= i < series.len() ==> {
            &&& (#[trigger] series[i]).value.reps@ == values_on(
                sessions,
                Metric::Reps,
                series[i].date,
            )
            &&& series[i].value.rpe@ == values_on(sessions, Metric::Rpe, series[i].date)
            &&& series[i].value.reps@.len() > 0
        }
    &&& forall|date: Date|
        (#[trigger] values_on(sessions, Metric::Reps, date)).len() > 0 ==> has_date(series, date)
}

/// The sums of the grouped values, date by date.
fn totals(grouped: &Vec<Point<Vec<u32>>>) -> (series: Vec<Point<u128>>)
    ensures
        series@.len() == grouped@.len(),
        forall|i: int|
            0 <= i < series@.len() ==> {
                &&& (#[trigger] series@[i]).date == grouped@[i].date
                &&& series@[i].value == total(grouped@[i].value@)
            },
{
    let mut series: Vec<Point<u128>> = Vec::new();
    let mut k: usize = 0;
    while k < grouped.len()
        invariant
            k <= grouped.len(),
            series@.len() == k,
            forall|i: int|
                0 <= i < k ==> {
                    &&& (#[trigger] series@[i]).date == grouped@[i].date
                    &&& series@[i].value == total(grouped@[i].value@)
                },
        decreases grouped.len() - k,
    {
        let value = sum(&grouped[k].value);
        series.push(Point { date: grouped[k].date, value });
        k += 1;
    }
    series
}

/// The per-date sums of what the sessions contribute to `metric`.
pub fn sum_by_date(sessions: &[SessionMetrics], metric: Metric) -> (series: Vec<Point<u128>>)
    ensures
        totals_of(series@, sessions@, metric),
{
    let grouped = group_by_date(sessions, metric);
    let series = totals(&grouped);
    proof {
        assert forall|date: Date| (#[trigger] values_on(sessions@, metric, date)).len()
            > 0 implies has_date(series@, date) by {
            assert(has_date(grouped@, date));
            let i = choose|i: int| 0 <= i < grouped@.len() && (#[trigger] grouped@[i]).date == date;
            assert(series@[i].date == date);
        }
        assert forall|i: int| 0 <= i < series@.len() implies (#[trigger] series@[i]).value
            == total(values_on(sessions@, metric, series@[i].date)) && values_on(
            sessions@,
            metric,
            series@[i].date,
        ).len() > 0 by {
            assert(grouped@[i].value@ == values_on(sessions@, metric, grouped@[i].date));
        }
        assert forall|i: int, j: int| 0 <= i < j < series@.len() implies series@[i].date@
            < series@[j].date@ by {
            assert(grouped@[i].date@ < grouped@[j].date@);
        }
    }
    series
}

/// A copy of the values.
fn copy_of(values: &Vec<u32>) -> (r: Vec<u32>)
    ensures
        r@ == values@,
{
    let mut r: Vec<u32> = Vec::new();
    let mut k: usize = 0;
    while k < values.len()
        invariant
            k <= values.len(),
            r@ == values@.take(k as int),
        decreases values.len() - k,
    {
        r.push(values[k]);
        proof {
            assert(r@ =~= values@.take(k + 1));
        }
        k += 1;
    }
    proof {
        assert(values@.take(k as int) =~= values@);
    }
    r
}

/// The averages of repetitions and of exertion, per date on which average
/// repetitions are reported.
pub fn reps_rpe_by_date(sessions: &[SessionMetrics]) -> (series: Vec<Point<RepsRpe>>)
    ensures
        reps_rpe_of(series@, sessions@),
{
    let reps = group_by_date(sessions, Metric::Reps);
    let rpe = collect_by_day(sessions, Metric::Rpe);
    let mut series: Vec<Point<RepsRpe>> = Vec::new();
    let mut k: usize = 0;
    while k < reps.len()
        invariant
            k <= reps.len(),
            series@.len() == k,
            groups(reps@, sessions@, Metric::Reps),
            collects(rpe@, sessions@, Metric::Rpe),
            forall|i: int|
                0 <= i < k ==> {
                    &&& (#[trigger] series@[i]).date == reps@[i].date
                    &&& series@[i].value.reps@ == reps@[i].value@
                    &&& series@[i].value.rpe@ == values_on(sessions@, Metric::Rpe, reps@[i].date)
                },
        decreases reps.len() - k,
    {
        let date = reps[k].date;
        let reps_values = copy_of(&reps[k].value);
        let rpe_values = match rpe.get(&date.day) {
            Some(values) => copy_of(values),
            None => Vec::new(),
        };
        proof {
            if !rpe@.contains_key(date.day) {
                assert(values_on(sessions@, Metric::Rpe, date).len() == 0);
                assert(rpe_values@ =~= values_on(sessions@, Metric::Rpe, date));
            }
        }
        series.push(Point { date, value: RepsRpe { reps: reps_values, rpe: rpe_values } });
        k += 1;
    }
    proof {
        assert forall|date: Date| (#[trigger] values_on(sessions@, Metric::Reps, date)).len()
            > 0 implies has_date(series@, date) by {
            assert(has_date(reps@, date));
            let i = choose|i: int| 0 <= i < reps@.len() && (#[trigger] reps@[i]).date == date;
            assert(series@[i].date == date);
        }
        assert forall|i: int, j: int| 0 <= i < j < series@.len() implies series@[i].date@
            < series@[j].date@ by {
            assert(reps@[i].date@ < reps@[j].date@);
        }
        assert forall|i: int| 0 <= i < series@.len() implies {
            &&& (#[trigger] series@[i]).value.reps@ == values_on(
                sessions@,
                Metric::Reps,
                series@[i].date,
            )
            &&& series@[i].value.rpe@ == values_on(sessions@, Metric::Rpe, series@[i].date)
            &&& series@[i].value.reps@.len() > 0
        } by {
            assert(reps@[i].value@ == values_on(sessions@, Metric::Reps, reps@[i].date));
        }
    }
    series
}

/// Adds up, date by date, what the sessions report: sums of set volume,
/// volume load and time under tension (a session without the latter counts
/// as zero), and the lists of averages that are still to be averaged.
pub fn aggregate_by_date(sessions: &[SessionMetrics]) -> (r: Aggregates)
    ensures
        totals_of(r.set_volume@, sessions@, Metric::SetVolume),
        totals_of(r.volume_load@, sessions@, Metric::VolumeLoad),
        totals_of(r.tut@, sessions@, Metric::Tut),
        reps_rpe_of(r.reps_rpe@, sessions@),
        groups(r.weight@, sessions@, Metric::Weight),
        groups(r.time@, sessions@, Metric::Time),
{
    Aggregates {
        set_volume: sum_by_date(sessions, Metric::SetVolume),
        volume_load: sum_by_date(sessions, Metric::VolumeLoad),
        tut: sum_by_date(sessions, Metric::Tut),
        reps_rpe: reps_rpe_by_date(sessions),
        weight: group_by_date(sessions, Metric::Weight),
        time: group_by_date(sessions, Metric::Time),
    }
}

/// Ten on the scale of perceived exertion, in thousandths: the exertion at
/// which no repetition is left in reserve.
pub const MAX_RPE: u32 = 10_000;

/// The series that come of the lists of averages.
#[derive(Clone, Debug, PartialEq, Eq)]
pub struct Averages {
    /// Mean of the average repetitions, per date.
    pub repetitions: Vec<Point<u32>>,
    /// Mean repetitions plus repetitions in reserve, per date; kept only
    /// where exertion is shown.
    pub reserve: Option<Vec<Point<i64>>>,
    /// Mean of the average weights, per date.
    pub weight: Vec<Point<u32>>,
    /// Mean of the average times, per date.
    pub time: Vec<Point<u32>>,
}

/// The mean of an entry's values under the entry's date; nothing for an
/// entry without values.
pub open spec fn mean_point(p: Point<Vec<u32>>) -> Option<Point<u32>> {
    if p.value@.len() > 0 {
        Some(Point { date: p.date, value: mean(p.value@) as u32 })
    } else {
        None
    }
}

/// The mean of an entry's repetitions under the entry's date; nothing for an
/// entry without repetitions.
pub open spec fn reps_point(p: Point<RepsRpe>) -> Option<Point<u32>> {
    if p.value.reps@.len() > 0 {
        Some(Point { date: p.date, value: mean(p.value.reps@) as u32 })
    } else {
        None
    }
}

/// Mean repetitions plus what is left in reserve at the mean exertion, that
/// is `mean(reps) + 10 - mean(rpe)` in thousandths, under the entry's date;
/// nothing for an entry that lacks repetitions or exertions.
pub open spec fn reserve_point(p: Point<RepsRpe>) -> Option<Point<i64>> {
    if p.value.reps@.len() > 0 && p.value.rpe@.len() > 0 {
        Some(
            Point {
                date: p.date,
                value: (mean(p.value.reps@) + MAX_RPE - mean(p.value.rpe@)) as i64,
            },
        )
    } else {
        None
    }
}

/// The means of the entries that have values, in the order of the entries.
pub open spec fn mean_series(series: Seq<Point<Vec<u32>>>) -> Seq<Point<u32>> {
    series.filter_map(|p: Point<Vec<u32>>| mean_point(p))
}

/// The mean repetitions of the entries that have any, in the order of the
/// entries.
pub open spec fn reps_series(series: Seq<Point<RepsRpe>>) -> Seq<Point<u32>> {
    series.filter_map(|p: Point<RepsRpe>| reps_point(p))
}

/// The reserve values of the entries that have repetitions and exertions, in
/// the order of the entries.
pub open spec fn reserve_series(series: Seq<Point<RepsRpe>>) -> Seq<Point<i64>> {
    series.filter_map(|p: Point<RepsRpe>| reserve_point(p))
}

/// Replaces each list of values by its mean, leaving out empty lists.
pub fn mean_by_date(series: &Vec<Point<Vec<u32>>>) -> (r: Vec<Point<u32>>)
    ensures
        r@ == mean_series(series@),
{
    let mut r: Vec<Point<u32>> = Vec::new();
    let mut k: usize = 0;
    proof {
        assert(series@.take(0) =~= Seq::empty());
    }
    while k < series.len()
        invariant
            k <= series.len(),
            r@ == mean_series(series@.take(k as int)),
        decreases series.len() - k,
    {
        proof {
            series@.lemma_filter_map_take_succ(|p: Point<Vec<u32>>| mean_point(p), k as int);
        }
        if series[k].value.len() > 0 {
            r.push(Point { date: series[k].date, value: average(&series[k].value) });
        }
        k += 1;
    }
    proof {
        assert(series@.take(k as int) =~= series@);
    }
    r
}

/// The mean repetitions per date, leaving out dates without repetitions.
pub fn repetitions_by_date(series: &Vec<Point<RepsRpe>>) -> (r: Vec<Point<u32>>)
    ensures
        r@ == reps_series(series@),
{
    let mut r: Vec<Point<u32>> = Vec::new();
    let mut k: usize = 0;
    proof {
        assert(series@.take(0) =~= Seq::empty());
    }
    while k < series.len()
        invariant
            k <= series.len(),
            r@ == reps_series(series@.take(k as int)),
        decreases series.len() - k,
    {
        proof {
            series@.lemma_filter_map_take_succ(|p: Point<RepsRpe>| reps_point(p), k as int);
        }
        if series[k].value.reps.len() > 0 {
            r.push(Point { date: series[k].date, value: average(&series[k].value.reps) });
        }
        k += 1;
    }
    proof {
        assert(series@.take(k as int) =~= series@);
    }
    r
}

/// Mean repetitions plus repetitions in reserve per date, leaving out dates
/// that lack repetitions or exertions.
pub fn reserve_by_date(series: &Vec<Point<RepsRpe>>) -> (r: Vec<Point<i64>>)
    ensures
        r@ == reserve_series(series@),
{
    let mut r: Vec<Point<i64>> = Vec::new();
    let mut k: usize = 0;
    proof {
        assert(series@.take(0) =~= Seq::empty());
    }
    while k < series.len()
        invariant
            k <= series.len(),
            r@ == reserve_series(series@.take(k as int)),
        decreases series.len() - k,
    {
        proof {
            series@.lemma_filter_map_take_succ(|p: Point<RepsRpe>| reserve_point(p), k as int);
        }
        if series[k].value.reps.len() > 0 && series[k].value.rpe.len() > 0 {
            let reps: i64 = average(&series[k].value.reps) as i64;
            let rpe: i64 = average(&series[k].value.rpe) as i64;
            let ten: i64 = MAX_RPE as i64;
            r.push(Point { date: series[k].date, value: reps + ten - rpe });
        }
        k += 1;
    }
    proof {
        assert(series@.take(k as int) =~= series@);
    }
    r
}

/// Takes the averages: the mean of each date's weights, times and
/// repetitions, and, where `show_rpe` is set, mean repetitions plus
/// repetitions in reserve for the dates that report an exertion.
pub fn finalize_averages(
    reps_rpe: &Vec<Point<RepsRpe>>,
    weight: &Vec<Point<Vec<u32>>>,
    time: &Vec<Point<Vec<u32>>>,
    show_rpe: bool,
) -> (r: Averages)
    ensures
        r.repetitions@ == reps_series(reps_rpe@),
        match r.reserve {
            Some(reserve) => show_rpe && reserve@ == reserve_series(reps_rpe@),
            None => !show_rpe,
        },
        r.weight@ == mean_series(weight@),
        r.time@ == mean_series(time@),
{
    Averages {
        repetitions: repetitions_by_date(reps_rpe),
        reserve: if show_rpe {
            Some(reserve_by_date(reps_rpe))
        } else {
            None
        },
        weight: mean_by_date(weight),
        time: mean_by_date(time),
    }
}

/// Whether `series` holds, for exactly the dates on which a session
/// contributes to `metric`, the mean of the contributions, ordered by date.
pub open spec fn means_of(
    series: Seq<Point<u32>>,
    sessions: Seq<SessionMetrics>,
    metric: Metric,
) -> bool {
    &&& ascending(series)
    &&& forall|i: int|
        0 <= i < series.len() ==> {
            &&& (#[trigger] series[i]).value == mean(values_on(sessions, metric, series[i].date))
            &&& values_on(sessions, metric, series[i].date).len() > 0
        }
    &&& forall|date: Date|
        (#[trigger] values_on(sessions, metric, date)).len() > 0 ==> has_date(series, date)
}

/// Whether `series` holds, for exactly the dates on which some session
/// reports average repetitions and some session reports an exertion, the
/// value `mean(reps) + 10 - mean(rpe)` in thousandths, ordered by date.
pub open spec fn reserve_of(series: Seq<Point<i64>>, sessions: Seq<SessionMetrics>) -> bool {
    &&& ascending(series)
    &&& forall|i: int|
        0 <= i < series.len() ==> {
            &&& (#[trigger] series[i]).value == mean(
                values_on(sessions, Metric::Reps, series[i].date),
            ) + MAX_RPE - mean(values_on(sessions, Metric::Rpe, series[i].date))
            &&& values_on(sessions, Metric::Reps, series[i].date).len() > 0
            &&& values_on(sessions, Metric::Rpe, series[i].date).len() > 0
        }
    &&& forall|date: Date|
        (#[trigger] values_on(sessions, Metric::Reps, date)).len() > 0 && values_on(
            sessions,
            Metric::Rpe,
            date,
        ).len() > 0 ==> has_date(series, date)
}

/// The means of a grouping are the per-date means of the sessions.
pub proof fn lemma_means_of_groups(
    grouped: Seq<Point<Vec<u32>>>,
    sessions: Seq<SessionMetrics>,
    metric: Metric,
)
    requires
        groups(grouped, sessions, metric),
    ensures
        means_of(mean_series(grouped), sessions, metric),
{
    let f = |p: Point<Vec<u32>>| mean_point(p);
    let out = mean_series(grouped);
    lemma_filter_map_series(grouped, f);
    assert forall|j: int| 0 <= j < out.len() implies {
        &&& (#[trigger] out[j]).value == mean(values_on(sessions, metric, out[j].date))
        &&& values_on(sessions, metric, out[j].date).len() > 0
    } by {
        assert(maps_to(grouped, f, out[j]));
        let i = choose|i: int| 0 <= i < grouped.len() && f(#[trigger] grouped[i]) == Some(out[j]);
        lemma_mean_bound(grouped[i].value@);
    }
    assert forall|date: Date| (#[trigger] values_on(sessions, metric, date)).len()
        > 0 implies has_date(out, date) by {
        assert(has_date(grouped, date));
        let i = choose|i: int| 0 <= i < grouped.len() && (#[trigger] grouped[i]).date == date;
        let q = f(grouped[i]).unwrap();
        assert(out.contains(q));
        let j = choose|j: int| 0 <= j < out.len() && out[j] == q;
        assert(out[j].date == date);
    }
}

/// The mean repetitions of the per-date lists are the per-date means of the
/// sessions' average repetitions.
pub proof fn lemma_repetitions_of(series: Seq<Point<RepsRpe>>, sessions: Seq<SessionMetrics>)
    requires
        reps_rpe_of(series, sessions),
    ensures
        means_of(reps_series(series), sessions, Metric::Reps),
{
    let f = |p: Point<RepsRpe>| reps_point(p);
    let out = reps_series(series);
    lemma_filter_map_series(series, f);
    assert forall|j: int| 0 <= j < out.len() implies {
        &&& (#[trigger] out[j]).value == mean(values_on(sessions, Metric::Reps, out[j].date))
        &&& values_on(sessions, Metric::Reps, out[j].date).len() > 0
    } by {
        assert(maps_to(series, f, out[j]));
        let i = choose|i: int| 0 <= i < series.len() && f(#[trigger] series[i]) == Some(out[j]);
        lemma_mean_bound(series[i].value.reps@);
    }
    assert forall|date: Date| (#[trigger] values_on(sessions, Metric::Reps, date)).len()
        > 0 implies has_date(out, date) by {
        assert(has_date(series, date));
        let i = choose|i: int| 0 <= i < series.len() && (#[trigger] series[i]).date == date;
        let q = f(series[i]).unwrap();
        assert(out.contains(q));
        let j = choose|j: int| 0 <= j < out.len() && out[j] == q;
        assert(out[j].date == date);
    }
}

/// The reserve values of the per-date lists are those of the sessions.
pub proof fn lemma_reserve_of(series: Seq<Point<RepsRpe>>, sessions: Seq<SessionMetrics>)
    requires
        reps_rpe_of(series, sessions),
    ensures
        reserve_of(reserve_series(series), sessions),
{
    let f = |p: Point<RepsRpe>| reserve_point(p);
    let out = reserve_series(series);
    lemma_filter_map_series(series, f);
    assert forall|j: int| 0 <= j < out.len() implies {
        &&& (#[trigger] out[j]).value == mean(values_on(sessions, Metric::Reps, out[j].date))
            + MAX_RPE - mean(values_on(sessions, Metric::Rpe, out[j].date))
        &&& values_on(sessions, Metric::Reps, out[j].date).len() > 0
        &&& values_on(sessions, Metric::Rpe, out[j].date).len() > 0
    } by {
        assert(maps_to(series, f, out[j]));
        let i = choose|i: int| 0 <= i < series.len() && f(#[trigger] series[i]) == Some(out[j]);
        lemma_mean_bound(series[i].value.reps@);
        lemma_mean_bound(series[i].value.rpe@);
    }
    assert forall|date: Date|
        (#[trigger] values_on(sessions, Metric::Reps, date)).len() > 0 && values_on(
            sessions,
            Metric::Rpe,
            date,
        ).len() > 0 implies has_date(out, date) by {
        assert(has_date(series, date));
        let i = choose|i: int| 0 <= i < series.len() && (#[trigger] series[i]).date == date;
        let q = f(series[i]).unwrap();
        assert(out.contains(q));
        let j = choose|j: int| 0 <= j < out.len() && out[j] == q;
        assert(out[j].date == date);
    }
}

/// The series of the charts of an exercise.
#[derive(Clone, Debug, PartialEq, Eq)]
pub struct Charts {
    /// Sets per date.
    pub set_volume: Vec<Point<u128>>,
    /// Load moved per date.
    pub volume_load: Vec<Point<u128>>,
    /// Seconds under tension per date; kept only where time is shown.
    pub tut: Option<Vec<Point<u128>>>,
    /// Mean repetitions per date, in thousandths.
    pub repetitions: Vec<Point<u32>>,
    /// Mean repetitions plus repetitions in reserve per date, in
    /// thousandths; kept only where exertion is shown.
    pub reserve: Option<Vec<Point<i64>>>,
    /// Mean weight per date, in thousandths of a kilogram.
    pub weight: Vec<Point<u32>>,
    /// Mean time per date, in thousandths of a second; kept only where time
    /// is shown.
    pub time: Option<Vec<Point<u32>>>,
}

/// Computes the series of all charts from the training sessions of one
/// exercise. `show_rpe` adds the reserve series, `show_tut` the two series
/// that speak of time.
pub fn view_charts(training_sessions: &[SessionMetrics], show_rpe: bool, show_tut: bool) -> (r:
    Charts)
    ensures
        totals_of(r.set_volume@, training_sessions@, Metric::SetVolume),
        totals_of(r.volume_load@, training_sessions@, Metric::VolumeLoad),
        match r.tut {
            Some(tut) => show_tut && totals_of(tut@, training_sessions@, Metric::Tut),
            None => !show_tut,
        },
        means_of(r.repetitions@, training_sessions@, Metric::Reps),
        match r.reserve {
            Some(reserve) => show_rpe && reserve_of(reserve@, training_sessions@),
            None => !show_rpe,
        },
        means_of(r.weight@, training_sessions@, Metric::Weight),
        match r.time {
            Some(time) => show_tut && means_of(time@, training_sessions@, Metric::Time),
            None => !show_tut,
        },
{
    let sums = aggregate_by_date(training_sessions);
    let averages = finalize_averages(&sums.reps_rpe, &sums.weight, &sums.time, show_rpe);
    proof {
        lemma_repetitions_of(sums.reps_rpe@, training_sessions@);
        lemma_reserve_of(sums.reps_rpe@, training_sessions@);
        lemma_means_of_groups(sums.weight@, training_sessions@, Metric::Weight);
        lemma_means_of_groups(sums.time@, training_sessions@, Metric::Time);
    }
    Charts {
        set_volume: sums.set_volume,
        volume_load: sums.volume_load,
        tut: if show_tut {
            Some(sums.tut)
        } else {
            None
        },
        repetitions: averages.repetitions,
        reserve: averages.reserve,
        weight: averages.weight,
        time: if show_tut {
            Some(averages.time)
        } else {
            None
        },
    }
}

} // verus!
