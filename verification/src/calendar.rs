//! Interval filtering and the calendar of training intensity.

use crate::charts::sum_by_date;
use crate::date::Date;
use crate::date::Interval;
use crate::date::EPOCH_DAY;
use crate::series::ascending;
use crate::series::has_date;
use crate::series::lemma_contributes;
use crate::series::lemma_total_bound;
use crate::series::total;
use crate::series::values_on;
use crate::series::Point;
use crate::session::Metric;
use crate::session::SessionMetrics;
use vstd::prelude::*;

verus! {

/// The sessions whose date lies in the interval, in their order.
pub open spec fn within(sessions: Seq<SessionMetrics>, interval: Interval) -> Seq<SessionMetrics> {
    sessions.filter(|s: SessionMetrics| interval.spec_contains(s.date))
}

/// Keeps the sessions whose date lies in the interval, both ends included,
/// in their order. An interval that ends before it begins keeps none.
pub fn filter_by_interval(sessions: &[SessionMetrics], interval: &Interval) -> (r: Vec<
    SessionMetrics,
>)
    ensures
        r@ == within(sessions@, *interval),
{
    let mut r: Vec<SessionMetrics> = Vec::new();
    let mut k: usize = 0;
    proof {
        assert(sessions@.take(0) =~= Seq::empty());
        reveal(Seq::filter);
    }
    while k < sessions.len()
        invariant
            k <= sessions.len(),
            r@ == within(sessions@.take(k as int), *interval),
        decreases sessions.len() - k,
    {
        proof {
            assert(sessions@.take(k + 1) =~= sessions@.take(k as int).push(sessions@[k as int]));
            sessions@.take(k as int).lemma_filter_push(
                sessions@[k as int],
                |s: SessionMetrics| interval.spec_contains(s.date),
            );
        }
        if interval.contains(sessions[k].date) {
            r.push(sessions[k]);
        }
        k += 1;
    }
    proof {
        assert(sessions@.take(k as int) =~= sessions@);
    }
    r
}

/// Whether the interval goes from the earliest to the latest date of the
/// sessions; where there is no session, whether it is the one day January
/// 1, 1970.
pub open spec fn spans(interval: Interval, sessions: Seq<SessionMetrics>) -> bool {
    if sessions.len() == 0 {
        interval.first.day == EPOCH_DAY && interval.last.day == EPOCH_DAY
    } else {
        &&& exists|i: int| 0 <= i < sessions.len() && (#[trigger] sessions[i]).date == interval.first
        &&& exists|i: int| 0 <= i < sessions.len() && (#[trigger] sessions[i]).date == interval.last
        &&& forall|i: int|
            0 <= i < sessions.len() ==> interval.first@ <= (#[trigger] sessions[i]).date@
                <= interval.last@
    }
}

/// The interval from the earliest to the latest date of the sessions; where
/// there is no session, the one day January 1, 1970.
pub fn exercise_interval(sessions: &[SessionMetrics]) -> (r: Interval)
    ensures
        spans(r, sessions@),
{
    if sessions.len() == 0 {
        return Interval { first: Date::epoch(), last: Date::epoch() };
    }
    let mut first = sessions[0].date;
    let mut last = sessions[0].date;
    let mut k: usize = 1;
    while k < sessions.len()
        invariant
            1 <= k <= sessions.len(),
            exists|i: int| 0 <= i < k && (#[trigger] sessions@[i]).date == first,
            exists|i: int| 0 <= i < k && (#[trigger] sessions@[i]).date == last,
            forall|i: int| 0 <= i < k ==> first@ <= (#[trigger] sessions@[i]).date@ <= last@,
        decreases sessions.len() - k,
    {
        let date = sessions[k].date;
        if date.day < first.day {
            first = date;
        }
        if date.day > last.day {
            last = date;
        }
        k += 1;
    }
    Interval { first, last }
}

/// Whether a session of `sessions` took place on `date`.
pub open spec fn trained_on(sessions: Seq<SessionMetrics>, date: Date) -> bool {
    values_on(sessions, Metric::VolumeLoad, date).len() > 0
}

/// The volume load of all sessions on `date` together.
pub open spec fn day_load(sessions: Seq<SessionMetrics>, date: Date) -> nat {
    total(values_on(sessions, Metric::VolumeLoad, date))
}

/// Whether `lo` is the least load of any day with a session; zero where
/// there is no session.
pub open spec fn is_least_load(sessions: Seq<SessionMetrics>, lo: nat) -> bool {
    &&& forall|date: Date| #[trigger] trained_on(sessions, date) ==> lo <= day_load(sessions, date)
    &&& {
        ||| exists|date: Date| #[trigger]
            trained_on(sessions, date) && day_load(sessions, date) == lo
        ||| lo == 0 && forall|date: Date| !#[trigger] trained_on(sessions, date)
    }
}

/// Whether `hi` is the greatest load of any day with a session; zero where
/// there is no session.
pub open spec fn is_greatest_load(sessions: Seq<SessionMetrics>, hi: nat) -> bool {
    &&& forall|date: Date| #[trigger] trained_on(sessions, date) ==> day_load(sessions, date) <= hi
    &&& {
        ||| exists|date: Date| #[trigger]
            trained_on(sessions, date) && day_load(sessions, date) == hi
        ||| hi == 0 && forall|date: Date| !#[trigger] trained_on(sessions, date)
    }
}

/// The least load of any day with a session; zero where there is none.
pub open spec fn least_load(sessions: Seq<SessionMetrics>) -> nat {
    choose|lo: nat| is_least_load(sessions, lo)
}

/// The greatest load of any day with a session; zero where there is none.
pub open spec fn greatest_load(sessions: Seq<SessionMetrics>) -> nat {
    choose|hi: nat| is_greatest_load(sessions, hi)
}

/// Only one number is the least load.
pub proof fn lemma_least_load(sessions: Seq<SessionMetrics>, lo: nat)
    requires
        is_least_load(sessions, lo),
    ensures
        least_load(sessions) == lo,
{
    let other = least_load(sessions);
    assert(is_least_load(sessions, other));
}

/// Only one number is the greatest load.
pub proof fn lemma_greatest_load(sessions: Seq<SessionMetrics>, hi: nat)
    requires
        is_greatest_load(sessions, hi),
    ensures
        greatest_load(sessions) == hi,
{
    let other = greatest_load(sessions);
    assert(is_greatest_load(sessions, other));
}

/// The least load among the days of the first `n` sessions; zero for none.
spec fn least_load_among(sessions: Seq<SessionMetrics>, n: nat) -> nat
    decreases n,
{
    if n == 0 {
        0
    } else if n == 1 {
        day_load(sessions, sessions[0].date)
    } else {
        let rest = least_load_among(sessions, (n - 1) as nat);
        let here = day_load(sessions, sessions[n - 1].date);
        if here < rest {
            here
        } else {
            rest
        }
    }
}

/// The greatest load among the days of the first `n` sessions; zero for none.
spec fn greatest_load_among(sessions: Seq<SessionMetrics>, n: nat) -> nat
    decreases n,
{
    if n == 0 {
        0
    } else if n == 1 {
        day_load(sessions, sessions[0].date)
    } else {
        let rest = greatest_load_among(sessions, (n - 1) as nat);
        let here = day_load(sessions, sessions[n - 1].date);
        if here > rest {
            here
        } else {
            rest
        }
    }
}

/// Among the days of the first sessions, one has the least load and one the
/// greatest.
proof fn lemma_load_among(sessions: Seq<SessionMetrics>, n: nat)
    requires
        1 <= n <= sessions.len(),
    ensures
        exists|i: int|
            0 <= i < n && day_load(sessions, (#[trigger] sessions[i]).date) == least_load_among(
                sessions,
                n,
            ),
        exists|i: int|
            0 <= i < n && day_load(sessions, (#[trigger] sessions[i]).date) == greatest_load_among(
                sessions,
                n,
            ),
        forall|i: int|
            0 <= i < n ==> least_load_among(sessions, n) <= day_load(
                sessions,
                (#[trigger] sessions[i]).date,
            ) <= greatest_load_among(sessions, n),
    decreases n,
{
    if n == 1 {
        assert(day_load(sessions, sessions[0].date) == least_load_among(sessions, n));
        assert(day_load(sessions, sessions[0].date) == greatest_load_among(sessions, n));
    } else {
        let m = (n - 1) as nat;
        lemma_load_among(sessions, m);
        let i = choose|i: int|
            0 <= i < m && day_load(sessions, (#[trigger] sessions[i]).date) == least_load_among(
                sessions,
                m,
            );
        let j = choose|j: int|
            0 <= j < m && day_load(sessions, (#[trigger] sessions[j]).date) == greatest_load_among(
                sessions,
                m,
            );
        let here = day_load(sessions, sessions[n - 1].date);
        if here < least_load_among(sessions, m) {
            assert(day_load(sessions, sessions[n - 1].date) == least_load_among(sessions, n));
        } else {
            assert(day_load(sessions, sessions[i].date) == least_load_among(sessions, n));
        }
        if here > greatest_load_among(sessions, m) {
            assert(day_load(sessions, sessions[n - 1].date) == greatest_load_among(sessions, n));
        } else {
            assert(day_load(sessions, sessions[j].date) == greatest_load_among(sessions, n));
        }
    }
}

/// Every collection of sessions has a least and a greatest load.
pub proof fn lemma_load_range_exists(sessions: Seq<SessionMetrics>)
    ensures
        is_least_load(sessions, least_load(sessions)),
        is_greatest_load(sessions, greatest_load(sessions)),
{
    let n = sessions.len();
    let lo = least_load_among(sessions, n);
    let hi = greatest_load_among(sessions, n);
    assert forall|date: Date| #[trigger] trained_on(sessions, date) implies lo <= day_load(
        sessions,
        date,
    ) <= hi && n > 0 by {
        lemma_contributes(sessions, Metric::VolumeLoad, date);
        let i = choose|i: int|
            0 <= i < sessions.len() && (#[trigger] sessions[i]).date == date
                && sessions[i].contribution(Metric::VolumeLoad) is Some;
        lemma_load_among(sessions, n);
    }
    if n > 0 {
        lemma_load_among(sessions, n);
        let i = choose|i: int|
            0 <= i < n && day_load(sessions, (#[trigger] sessions[i]).date) == lo;
        lemma_contributes(sessions, Metric::VolumeLoad, sessions[i].date);
        assert(trained_on(sessions, sessions[i].date));
        let j = choose|j: int|
            0 <= j < n && day_load(sessions, (#[trigger] sessions[j]).date) == hi;
        lemma_contributes(sessions, Metric::VolumeLoad, sessions[j].date);
        assert(trained_on(sessions, sessions[j].date));
    }
    assert(is_least_load(sessions, lo));
    assert(is_greatest_load(sessions, hi));
}

/// The intensity at full scale, in thousandths.
pub const FULL_INTENSITY: u32 = 1000;

/// The intensity of the day with the least load, in thousandths.
pub const LEAST_INTENSITY: u32 = 200;

/// The intensity of a day with load `value` where the loads of all days
/// range from `lo` to `hi`, in thousandths: from 0.2 for the least load to 1
/// for the greatest, linear in between and rounded down; 1 where all days
/// have the same load.
pub open spec fn intensity(value: int, lo: int, hi: int) -> int {
    if hi > lo {
        (value - lo) * (FULL_INTENSITY - LEAST_INTENSITY) / (hi - lo) + LEAST_INTENSITY
    } else {
        FULL_INTENSITY as int
    }
}

/// The intensity is the exact value of `0.2 + 0.8 * (value - lo) / (hi -
/// lo)` in thousandths, rounded down: it falls short of it by less than one
/// thousandth.
pub proof fn lemma_intensity_rounds_down(value: int, lo: int, hi: int)
    requires
        lo <= value <= hi,
        lo < hi,
    ensures
        (intensity(value, lo, hi) - LEAST_INTENSITY) * (hi - lo) <= (value - lo) * (FULL_INTENSITY
            - LEAST_INTENSITY) < (intensity(value, lo, hi) - LEAST_INTENSITY + 1) * (hi - lo),
        LEAST_INTENSITY <= intensity(value, lo, hi) <= FULL_INTENSITY,
{
    let span = hi - lo;
    let scaled = (value - lo) * 800;
    assert((scaled / span) * span <= scaled < (scaled / span + 1) * span) by (nonlinear_arith)
        requires
            span > 0,
            scaled >= 0,
    ;
    assert(0 <= scaled / span <= 800) by (nonlinear_arith)
        requires
            span > 0,
            0 <= scaled <= span * 800,
    ;
}

/// Whether `series` holds, for exactly the dates of the sessions in the
/// interval, the intensity of the day among them, ordered by date.
pub open spec fn intensities_of(
    series: Seq<Point<u32>>,
    sessions: Seq<SessionMetrics>,
    interval: Interval,
) -> bool {
    let inside = within(sessions, interval);
    &&& ascending(series)
    &&& forall|i: int|
        0 <= i < series.len() ==> {
            &&& (#[trigger] series[i]).value == intensity(
                day_load(inside, series[i].date) as int,
                least_load(inside) as int,
                greatest_load(inside) as int,
            )
            &&& trained_on(inside, series[i].date)
        }
    &&& forall|date: Date| #[trigger] trained_on(inside, date) ==> has_date(series, date)
}

/// No more values are contributed on a date than there are sessions.
pub proof fn lemma_values_on_len(sessions: Seq<SessionMetrics>, metric: Metric, date: Date)
    ensures
        values_on(sessions, metric, date).len() <= sessions.len(),
    decreases sessions.len(),
{
    if sessions.len() > 0 {
        lemma_values_on_len(sessions.drop_last(), metric, date);
    }
}

/// The least and the greatest value of a series; zero twice for none.
fn value_range(series: &Vec<Point<u128>>) -> (r: (u128, u128))
    ensures
        series@.len() == 0 ==> r.0 == 0 && r.1 == 0,
        series@.len() > 0 ==> {
            &&& exists|i: int| 0 <= i < series@.len() && (#[trigger] series@[i]).value == r.0
            &&& exists|i: int| 0 <= i < series@.len() && (#[trigger] series@[i]).value == r.1
        },
        forall|i: int| 0 <= i < series@.len() ==> r.0 <= (#[trigger] series@[i]).value <= r.1,
{
    if series.len() == 0 {
        return (0, 0);
    }
    let mut lo = series[0].value;
    let mut hi = series[0].value;
    let mut k: usize = 1;
    while k < series.len()
        invariant
            1 <= k <= series.len(),
            exists|i: int| 0 <= i < k && (#[trigger] series@[i]).value == lo,
            exists|i: int| 0 <= i < k && (#[trigger] series@[i]).value == hi,
            forall|i: int| 0 <= i < k ==> lo <= (#[trigger] series@[i]).value <= hi,
        decreases series.len() - k,
    {
        let value = series[k].value;
        if value < lo {
            lo = value;
        }
        if value > hi {
            hi = value;
        }
        k += 1;
    }
    (lo, hi)
}

/// The greatest sum of as many values as a slice can hold sessions.
spec fn max_load() -> nat {
    (usize::MAX * u32::MAX) as nat
}

/// The intensity of `value` among loads from `lo` to `hi`.
fn normalize(value: u128, lo: u128, hi: u128) -> (r: u32)
    requires
        lo <= value <= hi <= max_load(),
    ensures
        r == intensity(value as int, lo as int, hi as int),
        LEAST_INTENSITY <= r <= FULL_INTENSITY,
{
    if hi > lo {
        let offset: u128 = value - lo;
        let span: u128 = hi - lo;
        proof {
            assert(offset * 800 <= span * 800 <= u128::MAX) by (nonlinear_arith)
                requires
                    0 <= offset <= span <= usize::MAX * u32::MAX,
                    usize::MAX <= 0xffff_ffff_ffff_ffff,
                    u32::MAX == 0xffff_ffff,
            ;
            assert((offset * 800) / (span as int) <= 800) by (nonlinear_arith)
                requires
                    0 <= offset <= span,
                    span > 0,
            ;
            assert((offset * 800) / (span as int) >= 0) by (nonlinear_arith)
                requires
                    0 <= offset,
                    span > 0,
            ;
        }
        let scaled: u128 = offset * 800 / span;
        (scaled as u32) + LEAST_INTENSITY
    } else {
        FULL_INTENSITY
    }
}

/// The intensity of each day on which a session in the interval took place:
/// the volume loads of a day are added up, and each day's sum is put on a
/// scale from 0.2 (the least sum) to 1 (the greatest), in thousandths. Where
/// all days have the same sum, each has intensity 1.
pub fn calendar_intensity(sessions: &[SessionMetrics], interval: &Interval) -> (series: Vec<
    Point<u32>,
>)
    ensures
        intensities_of(series@, sessions@, *interval),
{
    let inside = filter_by_interval(sessions, interval);
    let loads = sum_by_date(inside.as_slice(), Metric::VolumeLoad);
    let (lo, hi) = value_range(&loads);
    proof {
        assert(inside@.len() == inside.len() <= usize::MAX);
        assert forall|i: int| 0 <= i < loads@.len() implies (#[trigger] loads@[i]).value
            <= max_load() by {
            let values = values_on(inside@, Metric::VolumeLoad, loads@[i].date);
            lemma_total_bound(values);
            lemma_values_on_len(inside@, Metric::VolumeLoad, loads@[i].date);
            assert(values.len() * u32::MAX <= usize::MAX * u32::MAX) by (nonlinear_arith)
                requires
                    values.len() <= usize::MAX,
            ;
        }
        assert forall|date: Date| #[trigger] trained_on(inside@, date) implies lo <= day_load(
            inside@,
            date,
        ) <= hi by {
            assert(has_date(loads@, date));
            let i = choose|i: int| 0 <= i < loads@.len() && (#[trigger] loads@[i]).date == date;
            assert(loads@[i].value == day_load(inside@, date));
        }
        if loads@.len() > 0 {
            let i = choose|i: int| 0 <= i < loads@.len() && (#[trigger] loads@[i]).value == lo;
            assert(trained_on(inside@, loads@[i].date) && day_load(inside@, loads@[i].date) == lo);
            let j = choose|j: int| 0 <= j < loads@.len() && (#[trigger] loads@[j]).value == hi;
            assert(trained_on(inside@, loads@[j].date) && day_load(inside@, loads@[j].date) == hi);
        } else {
            assert forall|date: Date| !#[trigger] trained_on(inside@, date) by {
                if trained_on(inside@, date) {
                    assert(has_date(loads@, date));
                }
            }
        }
        assert(is_least_load(inside@, lo as nat));
        assert(is_greatest_load(inside@, hi as nat));
        lemma_least_load(inside@, lo as nat);
        lemma_greatest_load(inside@, hi as nat);
    }
    let mut series: Vec<Point<u32>> = Vec::new();
    let mut k: usize = 0;
    while k < loads.len()
        invariant
            k <= loads.len(),
            series@.len() == k,
            forall|i: int| 0 <= i < loads@.len() ==> lo <= (#[trigger] loads@[i]).value <= hi,
            hi <= max_load() || loads@.len() == 0,
            forall|i: int|
                0 <= i < k ==> {
                    &&& (#[trigger] series@[i]).date == loads@[i].date
                    &&& series@[i].value == intensity(
                        loads@[i].value as int,
                        lo as int,
                        hi as int,
                    )
                },
        decreases loads.len() - k,
    {
        let value = normalize(loads[k].value, lo, hi);
        series.push(Point { date: loads[k].date, value });
        k += 1;
    }
    proof {
        assert forall|date: Date| #[trigger] trained_on(inside@, date) implies has_date(
            series@,
            date,
        ) by {
            assert(has_date(loads@, date));
            let i = choose|i: int| 0 <= i < loads@.len() && (#[trigger] loads@[i]).date == date;
            assert(series@[i].date == date);
        }
        assert forall|i: int, j: int| 0 <= i < j < series@.len() implies series@[i].date@
            < series@[j].date@ by {
            assert(loads@[i].date@ < loads@[j].date@);
        }
        assert forall|i: int| 0 <= i < series@.len() implies {
            &&& (#[trigger] series@[i]).value == intensity(
                day_load(inside@, series@[i].date) as int,
                least_load(inside@) as int,
                greatest_load(inside@) as int,
            )
            &&& trained_on(inside@, series@[i].date)
        } by {
            assert(loads@[i].value == day_load(inside@, loads@[i].date));
        }
    }
    series
}

} // verus!
