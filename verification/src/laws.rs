//! What holds of the aggregation as a whole.

use crate::calendar::day_load;
use crate::calendar::greatest_load;
use crate::calendar::intensities_of;
use crate::calendar::is_greatest_load;
use crate::calendar::is_least_load;
use crate::calendar::least_load;
use crate::calendar::spans;
use crate::calendar::lemma_greatest_load;
use crate::calendar::lemma_intensity_rounds_down;
use crate::calendar::lemma_least_load;
use crate::calendar::lemma_load_range_exists;
use crate::calendar::trained_on;
use crate::calendar::within;
use crate::calendar::FULL_INTENSITY;
use crate::calendar::LEAST_INTENSITY;
use crate::charts::means_of;
use crate::charts::reserve_of;
use crate::charts::totals_of;
use crate::date::Date;
use crate::date::Interval;
use crate::exercise::shows;
use crate::exercise::Content;
use crate::exercise::Model;
use crate::series::contributes;
use crate::series::has_date;
use crate::series::lemma_contributes;
use crate::series::lemma_filter_map_rearranged;
use crate::series::lemma_series_unique;
use crate::series::lemma_total_concat;
use crate::series::lemma_values_on_concat;
use crate::series::total;
use crate::series::values_on;
use crate::series::Point;
use crate::session::Metric;
use crate::session::SessionMetrics;
use vstd::prelude::*;

verus! {

/// What a series of sums holds for `date`: the value of its entry, or zero
/// where it has none.
pub open spec fn value_at(series: Seq<Point<u128>>, date: Date) -> nat {
    if has_date(series, date) {
        let i = choose|i: int| 0 <= i < series.len() && (#[trigger] series[i]).date == date;
        series[i].value as nat
    } else {
        0
    }
}

/// A series of per-date sums holds for every date the sum of what the
/// sessions contribute on it.
pub proof fn lemma_value_at(
    series: Seq<Point<u128>>,
    sessions: Seq<SessionMetrics>,
    metric: Metric,
    date: Date,
)
    requires
        totals_of(series, sessions, metric),
    ensures
        value_at(series, date) == total(values_on(sessions, metric, date)),
        has_date(series, date) <==> values_on(sessions, metric, date).len() > 0,
{
    if has_date(series, date) {
        let i = choose|i: int| 0 <= i < series.len() && (#[trigger] series[i]).date == date;
        assert(series[i].value == total(values_on(sessions, metric, series[i].date)));
    }
}

/// The sessions determine their per-date sums: two series that hold the
/// sums of the same sessions are the same series.
pub proof fn lemma_sums_determined(
    a: Seq<Point<u128>>,
    b: Seq<Point<u128>>,
    sessions: Seq<SessionMetrics>,
    metric: Metric,
)
    requires
        totals_of(a, sessions, metric),
        totals_of(b, sessions, metric),
    ensures
        a == b,
{
    assert forall|date: Date| has_date(a, date) <==> has_date(b, date) by {
        lemma_value_at(a, sessions, metric, date);
        lemma_value_at(b, sessions, metric, date);
    }
    lemma_series_unique(a, b);
}

/// The sessions determine their per-date means: two series that hold the
/// means of the same sessions are the same series.
pub proof fn lemma_means_determined(
    a: Seq<Point<u32>>,
    b: Seq<Point<u32>>,
    sessions: Seq<SessionMetrics>,
    metric: Metric,
)
    requires
        means_of(a, sessions, metric),
        means_of(b, sessions, metric),
    ensures
        a == b,
{
    assert forall|date: Date| has_date(a, date) <==> has_date(b, date) by {
        if has_date(a, date) {
            let i = choose|i: int| 0 <= i < a.len() && (#[trigger] a[i]).date == date;
            assert(values_on(sessions, metric, a[i].date).len() > 0);
        }
        if has_date(b, date) {
            let i = choose|i: int| 0 <= i < b.len() && (#[trigger] b[i]).date == date;
            assert(values_on(sessions, metric, b[i].date).len() > 0);
        }
    }
    lemma_series_unique(a, b);
}

/// The sessions determine the series of repetitions with those in reserve:
/// two series that hold it for the same sessions are the same series.
pub proof fn lemma_reserve_determined(
    a: Seq<Point<i64>>,
    b: Seq<Point<i64>>,
    sessions: Seq<SessionMetrics>,
)
    requires
        reserve_of(a, sessions),
        reserve_of(b, sessions),
    ensures
        a == b,
{
    assert forall|date: Date| has_date(a, date) <==> has_date(b, date) by {
        if has_date(a, date) {
            let i = choose|i: int| 0 <= i < a.len() && (#[trigger] a[i]).date == date;
            assert(values_on(sessions, Metric::Reps, a[i].date).len() > 0);
        }
        if has_date(b, date) {
            let i = choose|i: int| 0 <= i < b.len() && (#[trigger] b[i]).date == date;
            assert(values_on(sessions, Metric::Reps, b[i].date).len() > 0);
        }
    }
    lemma_series_unique(a, b);
}

/// Additivity: aggregating one collection of sessions followed by another
/// gives, for every date, the sum of what each collection gives alone, and
/// an entry for the date exactly if one of the two has one.
pub proof fn lemma_aggregate_additive(
    a: Seq<SessionMetrics>,
    b: Seq<SessionMetrics>,
    metric: Metric,
    of_a: Seq<Point<u128>>,
    of_b: Seq<Point<u128>>,
    of_both: Seq<Point<u128>>,
    date: Date,
)
    requires
        totals_of(of_a, a, metric),
        totals_of(of_b, b, metric),
        totals_of(of_both, a + b, metric),
    ensures
        value_at(of_both, date) == value_at(of_a, date) + value_at(of_b, date),
        has_date(of_both, date) <==> has_date(of_a, date) || has_date(of_b, date),
{
    lemma_value_at(of_a, a, metric, date);
    lemma_value_at(of_b, b, metric, date);
    lemma_value_at(of_both, a + b, metric, date);
    lemma_values_on_concat(a, b, metric, date);
    lemma_total_concat(values_on(a, metric, date), values_on(b, metric, date));
}

/// A session that contributes nothing to a metric does not bring its date
/// into the series of that metric: the date has an entry exactly if another
/// session on the same date contributes.
pub proof fn lemma_silent_session_adds_no_date(
    sessions: Seq<SessionMetrics>,
    metric: Metric,
    series: Seq<Point<u32>>,
    k: int,
)
    requires
        0 <= k < sessions.len(),
        sessions[k].contribution(metric) is None,
        means_of(series, sessions, metric),
    ensures
        has_date(series, sessions[k].date) <==> exists|j: int|
            0 <= j < sessions.len() && j != k && (#[trigger] sessions[j]).date == sessions[k].date
                && sessions[j].contribution(metric) is Some,
{
    let date = sessions[k].date;
    lemma_contributes(sessions, metric, date);
    if has_date(series, date) {
        let i = choose|i: int| 0 <= i < series.len() && (#[trigger] series[i]).date == date;
        assert(values_on(sessions, metric, series[i].date).len() > 0);
        assert(contributes(sessions, metric, date));
        let j = choose|j: int|
            0 <= j < sessions.len() && (#[trigger] sessions[j]).date == date
                && sessions[j].contribution(metric) is Some;
        assert(j != k);
    }
    if exists|j: int|
        0 <= j < sessions.len() && j != k && (#[trigger] sessions[j]).date == date
            && sessions[j].contribution(metric) is Some {
        let j = choose|j: int|
            0 <= j < sessions.len() && j != k && (#[trigger] sessions[j]).date == date
                && sessions[j].contribution(metric) is Some;
        assert(contributes(sessions, metric, date));
    }
}

/// A session without an average weight does not bring its date into the
/// weight series: the date is there exactly if another session on the same
/// date reports an average weight.
pub proof fn lemma_weight_series_excludes(
    sessions: Seq<SessionMetrics>,
    series: Seq<Point<u32>>,
    k: int,
)
    requires
        0 <= k < sessions.len(),
        sessions[k].avg_weight is None,
        means_of(series, sessions, Metric::Weight),
    ensures
        has_date(series, sessions[k].date) <==> exists|j: int|
            0 <= j < sessions.len() && j != k && (#[trigger] sessions[j]).date == sessions[k].date
                && sessions[j].avg_weight is Some,
{
    lemma_silent_session_adds_no_date(sessions, Metric::Weight, series, k);
    let date = sessions[k].date;
    if exists|j: int|
        0 <= j < sessions.len() && j != k && (#[trigger] sessions[j]).date == date
            && sessions[j].contribution(Metric::Weight) is Some {
        let j = choose|j: int|
            0 <= j < sessions.len() && j != k && (#[trigger] sessions[j]).date == date
                && sessions[j].contribution(Metric::Weight) is Some;
        assert(sessions[j].avg_weight is Some);
    }
    if exists|j: int|
        0 <= j < sessions.len() && j != k && (#[trigger] sessions[j]).date == date
            && sessions[j].avg_weight is Some {
        let j = choose|j: int|
            0 <= j < sessions.len() && j != k && (#[trigger] sessions[j]).date == date
                && sessions[j].avg_weight is Some;
        assert(sessions[j].contribution(Metric::Weight) is Some);
    }
}

/// What the sessions within an interval contribute on a date, taken
/// straight from all sessions.
pub open spec fn pick(interval: Interval, metric: Metric, date: Date) -> spec_fn(
    SessionMetrics,
) -> Option<u32> {
    |s: SessionMetrics|
        if interval.spec_contains(s.date) && s.date == date {
            s.contribution(metric)
        } else {
            None
        }
}

/// Filtering by interval and then collecting the values of a date is one
/// pass over the sessions.
pub proof fn lemma_values_within(
    sessions: Seq<SessionMetrics>,
    interval: Interval,
    metric: Metric,
    date: Date,
)
    ensures
        values_on(within(sessions, interval), metric, date) == sessions.filter_map(
            pick(interval, metric, date),
        ),
    decreases sessions.len(),
{
    reveal(Seq::filter);
    if sessions.len() > 0 {
        let rest = sessions.drop_last();
        let last = sessions.last();
        lemma_values_within(rest, interval, metric, date);
        if interval.spec_contains(last.date) {
            assert(within(sessions, interval) == within(rest, interval).push(last));
            assert(within(sessions, interval).drop_last() =~= within(rest, interval));
        }
    }
}

/// Filtering twice by the same interval changes nothing after the first
/// time.
pub proof fn lemma_filter_idempotent(sessions: Seq<SessionMetrics>, interval: Interval)
    ensures
        within(within(sessions, interval), interval) == within(sessions, interval),
    decreases sessions.len(),
{
    reveal(Seq::filter);
    if sessions.len() > 0 {
        let rest = sessions.drop_last();
        let last = sessions.last();
        lemma_filter_idempotent(rest, interval);
        if interval.spec_contains(last.date) {
            let once = within(rest, interval);
            once.lemma_filter_push(last, |s: SessionMetrics| interval.spec_contains(s.date));
        }
    }
}

/// An interval that ends before it begins keeps no session.
pub proof fn lemma_reversed_interval_keeps_none(sessions: Seq<SessionMetrics>, interval: Interval)
    requires
        interval.first@ > interval.last@,
    ensures
        within(sessions, interval).len() == 0,
    decreases sessions.len(),
{
    reveal(Seq::filter);
    if sessions.len() > 0 {
        lemma_reversed_interval_keeps_none(sessions.drop_last(), interval);
    }
}

/// Every session that is kept lies within the interval.
pub proof fn lemma_kept_are_within(sessions: Seq<SessionMetrics>, interval: Interval, i: int)
    requires
        0 <= i < within(sessions, interval).len(),
    ensures
        interval.spec_contains(within(sessions, interval)[i].date),
        sessions.contains(within(sessions, interval)[i]),
{
    let pred = |s: SessionMetrics| interval.spec_contains(s.date);
    sessions.lemma_filter_pred(pred, i);
    let kept = sessions.filter(pred);
    assert(kept.contains(kept[i]));
    sessions.lemma_filter_contains_rev(pred, kept[i]);
}

/// Only one interval spans the sessions.
pub proof fn lemma_span_determined(a: Interval, b: Interval, sessions: Seq<SessionMetrics>)
    requires
        spans(a, sessions),
        spans(b, sessions),
    ensures
        a == b,
{
    if sessions.len() > 0 {
        let i = choose|i: int| 0 <= i < sessions.len() && (#[trigger] sessions[i]).date == a.first;
        let j = choose|j: int| 0 <= j < sessions.len() && (#[trigger] sessions[j]).date == b.first;
        assert(a.first@ <= sessions[j].date@ && b.first@ <= sessions[i].date@);
        let k = choose|k: int| 0 <= k < sessions.len() && (#[trigger] sessions[k]).date == a.last;
        let l = choose|l: int| 0 <= l < sessions.len() && (#[trigger] sessions[l]).date == b.last;
        assert(sessions[l].date@ <= a.last@ && sessions[k].date@ <= b.last@);
    }
}

/// What the page of an exercise passes on to its charts, calendar, table and
/// sets is filtered already: filtering it once more by the interval of the
/// page changes nothing. With an interval that ends before it begins nothing
/// is passed on.
pub proof fn lemma_view_passes_on_filtered(
    model: Model,
    sessions: Seq<SessionMetrics>,
    no_exercises: bool,
    loading_exercises: bool,
    content: Content,
)
    requires
        shows(model, sessions, no_exercises, loading_exercises, content),
    ensures
        content matches Content::Showing { shown, .. } ==> {
            &&& within(shown@, model.interval) == shown@
            &&& model.interval.first@ > model.interval.last@ ==> shown@.len() == 0
            &&& forall|i: int|
                0 <= i < shown@.len() ==> model.interval.spec_contains((#[trigger] shown@[i]).date)
        },
{
    if let Content::Showing { shown, .. } = content {
        lemma_filter_idempotent(sessions, model.interval);
        if model.interval.first@ > model.interval.last@ {
            lemma_reversed_interval_keeps_none(sessions, model.interval);
        }
        assert forall|i: int| 0 <= i < shown@.len() implies model.interval.spec_contains(
            (#[trigger] shown@[i]).date,
        ) by {
            lemma_kept_are_within(sessions, model.interval, i);
        }
    }
}

/// The page of an exercise shows one thing only: two contents that it may
/// show of the same sessions have the same kind, pass on the same sessions
/// and give the same exercise interval.
pub proof fn lemma_view_determined(
    model: Model,
    sessions: Seq<SessionMetrics>,
    no_exercises: bool,
    loading_exercises: bool,
    a: Content,
    b: Content,
)
    requires
        shows(model, sessions, no_exercises, loading_exercises, a),
        shows(model, sessions, no_exercises, loading_exercises, b),
    ensures
        match a {
            Content::Showing { exercise_interval, shown } => b matches Content::Showing {
                exercise_interval: other_interval,
                shown: other_shown,
            } && exercise_interval == other_interval && shown@ == other_shown@,
            _ => a == b,
        },
{
    if let Content::Showing { exercise_interval, shown } = a {
        if let Content::Showing { exercise_interval: other_interval, shown: other_shown } = b {
            lemma_span_determined(exercise_interval, other_interval, sessions);
        }
    }
}

/// The calendar does not depend on the order of the sessions: two
/// arrangements of the same sessions have the same calendar.
pub proof fn lemma_calendar_order_invariant(
    a: Seq<SessionMetrics>,
    b: Seq<SessionMetrics>,
    interval: Interval,
    of_a: Seq<Point<u32>>,
    of_b: Seq<Point<u32>>,
)
    requires
        a.to_multiset() == b.to_multiset(),
        intensities_of(of_a, a, interval),
        intensities_of(of_b, b, interval),
    ensures
        of_a == of_b,
{
    let in_a = within(a, interval);
    let in_b = within(b, interval);
    assert forall|date: Date|
        trained_on(in_a, date) == trained_on(in_b, date) && day_load(in_a, date) == day_load(
            in_b,
            date,
        ) by {
        lemma_values_within(a, interval, Metric::VolumeLoad, date);
        lemma_values_within(b, interval, Metric::VolumeLoad, date);
        lemma_filter_map_rearranged(a, b, pick(interval, Metric::VolumeLoad, date));
    }
    lemma_load_range_exists(in_a);
    let lo = least_load(in_a);
    let hi = greatest_load(in_a);
    assert(is_least_load(in_b, lo)) by {
        if exists|date: Date| #[trigger] trained_on(in_a, date) && day_load(in_a, date) == lo {
            let date = choose|date: Date| #[trigger]
                trained_on(in_a, date) && day_load(in_a, date) == lo;
            assert(trained_on(in_b, date) && day_load(in_b, date) == lo);
        }
    }
    assert(is_greatest_load(in_b, hi)) by {
        if exists|date: Date| #[trigger] trained_on(in_a, date) && day_load(in_a, date) == hi {
            let date = choose|date: Date| #[trigger]
                trained_on(in_a, date) && day_load(in_a, date) == hi;
            assert(trained_on(in_b, date) && day_load(in_b, date) == hi);
        }
    }
    lemma_least_load(in_b, lo);
    lemma_greatest_load(in_b, hi);
    assert forall|date: Date| has_date(of_a, date) <==> has_date(of_b, date) by {
        if has_date(of_a, date) {
            let i = choose|i: int| 0 <= i < of_a.len() && (#[trigger] of_a[i]).date == date;
            assert(trained_on(in_a, of_a[i].date));
            assert(trained_on(in_b, date));
        }
        if has_date(of_b, date) {
            let i = choose|i: int| 0 <= i < of_b.len() && (#[trigger] of_b[i]).date == date;
            assert(trained_on(in_b, of_b[i].date));
            assert(trained_on(in_a, date));
        }
    }
    lemma_series_unique(of_a, of_b);
}

/// Every intensity of the calendar lies between 0.2 and 1.
pub proof fn lemma_intensity_in_range(
    sessions: Seq<SessionMetrics>,
    interval: Interval,
    series: Seq<Point<u32>>,
)
    requires
        intensities_of(series, sessions, interval),
    ensures
        forall|i: int|
            0 <= i < series.len() ==> LEAST_INTENSITY <= (#[trigger] series[i]).value
                <= FULL_INTENSITY,
{
    let inside = within(sessions, interval);
    lemma_load_range_exists(inside);
    let lo = least_load(inside) as int;
    let hi = greatest_load(inside) as int;
    assert forall|i: int| 0 <= i < series.len() implies LEAST_INTENSITY <= (
    #[trigger] series[i]).value <= FULL_INTENSITY by {
        assert(trained_on(inside, series[i].date));
        if lo < hi {
            lemma_intensity_rounds_down(day_load(inside, series[i].date) as int, lo, hi);
        }
    }
}

/// Where every day with a session in the interval has the same load, every
/// day of the calendar has full intensity.
pub proof fn lemma_equal_loads_full_intensity(
    sessions: Seq<SessionMetrics>,
    interval: Interval,
    series: Seq<Point<u32>>,
)
    requires
        intensities_of(series, sessions, interval),
        forall|d: Date, e: Date|
            #![trigger trained_on(within(sessions, interval), d), trained_on(within(sessions, interval), e)]
            trained_on(within(sessions, interval), d) && trained_on(within(sessions, interval), e)
                ==> day_load(within(sessions, interval), d) == day_load(
                within(sessions, interval),
                e,
            ),
    ensures
        forall|i: int| 0 <= i < series.len() ==> (#[trigger] series[i]).value == FULL_INTENSITY,
{
    let inside = within(sessions, interval);
    lemma_load_range_exists(inside);
    assert forall|i: int| 0 <= i < series.len() implies (#[trigger] series[i]).value
        == FULL_INTENSITY by {
        let date = series[i].date;
        assert(trained_on(inside, date));
        let d = choose|d: Date| #[trigger]
            trained_on(inside, d) && day_load(inside, d) == least_load(inside);
        let e = choose|e: Date| #[trigger]
            trained_on(inside, e) && day_load(inside, e) == greatest_load(inside);
        assert(trained_on(inside, d) && trained_on(inside, e));
    }
}

/// Where the loads of the days differ, a day with the least load has
/// intensity 0.2 and a day with the greatest load has intensity 1, and the
/// calendar has a day of each kind.
pub proof fn lemma_extreme_intensities(
    sessions: Seq<SessionMetrics>,
    interval: Interval,
    series: Seq<Point<u32>>,
)
    requires
        intensities_of(series, sessions, interval),
        greatest_load(within(sessions, interval)) > least_load(within(sessions, interval)),
    ensures
        forall|i: int|
            0 <= i < series.len() && day_load(
                within(sessions, interval),
                (#[trigger] series[i]).date,
            ) == least_load(within(sessions, interval)) ==> series[i].value == LEAST_INTENSITY,
        forall|i: int|
            0 <= i < series.len() && day_load(
                within(sessions, interval),
                (#[trigger] series[i]).date,
            ) == greatest_load(within(sessions, interval)) ==> series[i].value == FULL_INTENSITY,
        exists|i: int| 0 <= i < series.len() && (#[trigger] series[i]).value == LEAST_INTENSITY,
        exists|i: int| 0 <= i < series.len() && (#[trigger] series[i]).value == FULL_INTENSITY,
{
    let inside = within(sessions, interval);
    let lo = least_load(inside) as int;
    let hi = greatest_load(inside) as int;
    let span = hi - lo;
    assert(0int * 800 / span == 0) by (nonlinear_arith)
        requires
            span > 0,
    ;
    assert(span * 800 / span == 800) by (nonlinear_arith)
        requires
            span > 0,
    ;
    assert forall|i: int|
        0 <= i < series.len() && day_load(inside, (#[trigger] series[i]).date)
            == lo implies series[i].value == LEAST_INTENSITY by {
        assert((day_load(inside, series[i].date) - lo) * 800 / span == 0);
    }
    assert forall|i: int|
        0 <= i < series.len() && day_load(inside, (#[trigger] series[i]).date)
            == hi implies series[i].value == FULL_INTENSITY by {
        assert((day_load(inside, series[i].date) - lo) * 800 / span == 800);
    }
    lemma_load_range_exists(inside);
    let d = choose|d: Date| #[trigger] trained_on(inside, d) && day_load(inside, d) == lo;
    assert(has_date(series, d));
    let i = choose|i: int| 0 <= i < series.len() && (#[trigger] series[i]).date == d;
    assert(series[i].value == LEAST_INTENSITY);
    let e = choose|e: Date| #[trigger] trained_on(inside, e) && day_load(inside, e) == hi;
    assert(has_date(series, e));
    let j = choose|j: int| 0 <= j < series.len() && (#[trigger] series[j]).date == e;
    assert(series[j].value == FULL_INTENSITY);
}

} // verus!
