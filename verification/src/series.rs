//! Series keyed by date, and the grouping of what sessions contribute.

use crate::date::Date;
use crate::ordered::days_in_order;
use crate::session::Metric;
use crate::session::SessionMetrics;
use std::collections::BTreeMap;
use vstd::prelude::*;
use vstd::seq_lib::to_multiset_build;
use vstd::seq_lib::to_multiset_contains;
use vstd::seq_lib::to_multiset_len;
use vstd::seq_lib::to_multiset_remove;

verus! {

broadcast use vstd::std_specs::btree::group_btree_axioms;

/// One entry of a series: a date and what the series holds for it.
#[derive(Clone, Debug, PartialEq, Eq)]
pub struct Point<V> {
    pub date: Date,
    pub value: V,
}

/// Whether a series is ordered by date, each date occurring once.
pub open spec fn ascending<V>(series: Seq<Point<V>>) -> bool {
    forall|i: int, j: int| 0 <= i < j < series.len() ==> series[i].date@ < series[j].date@
}

/// Whether a series has an entry for `date`.
pub open spec fn has_date<V>(series: Seq<Point<V>>, date: Date) -> bool {
    exists|i: int| 0 <= i < series.len() && (#[trigger] series[i]).date == date
}

/// The values that the sessions on `date` contribute to `metric`, in the
/// order of the sessions.
pub open spec fn values_on(sessions: Seq<SessionMetrics>, metric: Metric, date: Date) -> Seq<u32> {
    sessions.filter_map(
        |s: SessionMetrics|
            if s.date == date {
                s.contribution(metric)
            } else {
                None
            },
    )
}

/// Whether `series` is the grouping of `sessions` by date for `metric`: it is
/// ordered by date, has an entry for exactly the dates on which a session
/// contributes, and each entry lists the contributions of its date.
pub open spec fn groups(
    series: Seq<Point<Vec<u32>>>,
    sessions: Seq<SessionMetrics>,
    metric: Metric,
) -> bool {
    &&& ascending(series)
    &&& forall|i: int|
        0 <= i < series.len() ==> {
            &&& (#[trigger] series[i]).value@ == values_on(sessions, metric, series[i].date)
            &&& series[i].value@.len() > 0
        }
    &&& forall|date: Date|
        (#[trigger] values_on(sessions, metric, date)).len() > 0 ==> has_date(series, date)
}

/// Adding a session appends its contribution to the values of its own date
/// and leaves the values of every other date as they were.
pub proof fn lemma_values_on_step(
    sessions: Seq<SessionMetrics>,
    k: int,
    metric: Metric,
    date: Date,
)
    requires
        0 <= k < sessions.len(),
    ensures
        values_on(sessions.take(k + 1), metric, date) == if sessions[k].date == date {
            match sessions[k].contribution(metric) {
                Some(v) => values_on(sessions.take(k), metric, date).push(v),
                None => values_on(sessions.take(k), metric, date),
            }
        } else {
            values_on(sessions.take(k), metric, date)
        },
{
    let f = |s: SessionMetrics|
        if s.date == date {
            s.contribution(metric)
        } else {
            None
        };
    sessions.lemma_filter_map_take_succ(f, k);
}

/// Whether some entry of `series` is mapped to `point` by `f`.
pub open spec fn maps_to<V, W>(
    series: Seq<Point<V>>,
    f: spec_fn(Point<V>) -> Option<Point<W>>,
    point: Point<W>,
) -> bool {
    exists|i: int| 0 <= i < series.len() && f(#[trigger] series[i]) == Some(point)
}

/// Mapping the entries of a series ordered by date, and dropping some, gives
/// a series ordered by date, as long as each entry keeps its date. What comes
/// out is exactly what the entries are mapped to.
pub proof fn lemma_filter_map_series<V, W>(
    series: Seq<Point<V>>,
    f: spec_fn(Point<V>) -> Option<Point<W>>,
)
    requires
        ascending(series),
        forall|p: Point<V>| (#[trigger] f(p)) matches Some(q) ==> q.date == p.date,
    ensures
        ascending(series.filter_map(f)),
        forall|j: int|
            0 <= j < series.filter_map(f).len() ==> maps_to(
                series,
                f,
                #[trigger] series.filter_map(f)[j],
            ),
        forall|i: int|
            0 <= i < series.len() ==> (f(#[trigger] series[i]) matches Some(q)
                ==> series.filter_map(f).contains(q)),
    decreases series.len(),
{
    let out = series.filter_map(f);
    if series.len() > 0 {
        let rest = series.drop_last();
        let last = series.last();
        let rest_out = rest.filter_map(f);
        lemma_filter_map_series(rest, f);
        assert forall|j: int| 0 <= j < rest_out.len() implies maps_to(
            series,
            f,
            #[trigger] rest_out[j],
        ) && rest_out[j].date@ < last.date@ by {
            assert(maps_to(rest, f, rest_out[j]));
            let i = choose|i: int|
                0 <= i < rest.len() && f(#[trigger] rest[i]) == Some(rest_out[j]);
            assert(series[i] == rest[i]);
            assert(series[i].date@ < series[series.len() - 1].date@);
        }
        match f(last) {
            Some(q) => {
                assert(out == rest_out.push(q));
                assert(f(series[series.len() - 1]) == Some(q));
                assert(out[out.len() - 1] == q);
                assert forall|j: int| 0 <= j < out.len() implies maps_to(
                    series,
                    f,
                    #[trigger] out[j],
                ) by {
                    if j < rest_out.len() {
                        assert(out[j] == rest_out[j]);
                    }
                }
                assert forall|i: int, j: int| 0 <= i < j < out.len() implies out[i].date@
                    < out[j].date@ by {
                    if j < rest_out.len() {
                        assert(out[i] == rest_out[i] && out[j] == rest_out[j]);
                    } else {
                        assert(out[i] == rest_out[i]);
                    }
                }
            },
            None => {
                assert(out == rest_out);
            },
        }
        assert forall|i: int| 0 <= i < series.len() implies (f(#[trigger] series[i]) matches Some(
            q,
        ) ==> out.contains(q)) by {
            if let Some(q) = f(series[i]) {
                if i < rest.len() {
                    assert(rest[i] == series[i]);
                    assert(rest_out.contains(q));
                    let j = choose|j: int| 0 <= j < rest_out.len() && rest_out[j] == q;
                    assert(out[j] == q);
                } else {
                    assert(out[out.len() - 1] == q);
                }
            }
        }
    }
}

/// Mapping and filtering a concatenation is the same as doing so to each
/// part.
pub proof fn lemma_filter_map_concat<A, B>(a: Seq<A>, b: Seq<A>, f: spec_fn(A) -> Option<B>)
    ensures
        (a + b).filter_map(f) == a.filter_map(f) + b.filter_map(f),
    decreases b.len(),
{
    if b.len() == 0 {
        assert(a + b =~= a);
        assert(a.filter_map(f) + b.filter_map(f) =~= a.filter_map(f));
    } else {
        assert((a + b).drop_last() =~= a + b.drop_last());
        assert((a + b).last() == b.last());
        lemma_filter_map_concat(a, b.drop_last(), f);
        match f(b.last()) {
            Some(v) => {
                assert((a + b).filter_map(f) =~= a.filter_map(f) + b.filter_map(f));
            },
            None => {},
        }
    }
}

/// The values contributed on a date by two collections of sessions, one
/// after the other, are those of the first followed by those of the second.
pub proof fn lemma_values_on_concat(
    a: Seq<SessionMetrics>,
    b: Seq<SessionMetrics>,
    metric: Metric,
    date: Date,
)
    ensures
        values_on(a + b, metric, date) == values_on(a, metric, date) + values_on(b, metric, date),
{
    let f = |s: SessionMetrics|
        if s.date == date {
            s.contribution(metric)
        } else {
            None
        };
    lemma_filter_map_concat(a, b, f);
}

/// Whether some session on `date` contributes to `metric`.
pub open spec fn contributes(sessions: Seq<SessionMetrics>, metric: Metric, date: Date) -> bool {
    exists|i: int|
        0 <= i < sessions.len() && (#[trigger] sessions[i]).date == date && sessions[i].contribution(
            metric,
        ) is Some
}

/// A date has values exactly if some session on that date contributes.
pub proof fn lemma_contributes(sessions: Seq<SessionMetrics>, metric: Metric, date: Date)
    ensures
        values_on(sessions, metric, date).len() > 0 <==> contributes(sessions, metric, date),
    decreases sessions.len(),
{
    if sessions.len() > 0 {
        let rest = sessions.drop_last();
        let last = sessions.last();
        lemma_contributes(rest, metric, date);
        if contributes(rest, metric, date) {
            let i = choose|i: int|
                0 <= i < rest.len() && (#[trigger] rest[i]).date == date && rest[i].contribution(
                    metric,
                ) is Some;
            assert(sessions[i] == rest[i]);
        }
        if last.date == date && last.contribution(metric) is Some {
            assert(sessions[sessions.len() - 1] == last);
        }
        if contributes(sessions, metric, date) {
            let i = choose|i: int|
                0 <= i < sessions.len() && (#[trigger] sessions[i]).date == date
                    && sessions[i].contribution(metric) is Some;
            if i < rest.len() {
                assert(rest[i] == sessions[i]);
            }
        }
    }
}

/// Two series ordered by date that have entries for the same dates, with the
/// same value wherever their dates agree, are the same series.
pub proof fn lemma_series_unique<V>(a: Seq<Point<V>>, b: Seq<Point<V>>)
    requires
        ascending(a),
        ascending(b),
        forall|date: Date| has_date(a, date) <==> has_date(b, date),
        forall|i: int, j: int|
            0 <= i < a.len() && 0 <= j < b.len() && (#[trigger] a[i]).date == (#[trigger] b[j]).date
                ==> a[i].value == b[j].value,
    ensures
        a == b,
    decreases a.len(),
{
    if a.len() == 0 {
        if b.len() > 0 {
            assert(b[0].date == b[0].date);
            assert(has_date(b, b[0].date));
        }
        assert(a =~= b);
    } else {
        let n = a.len() - 1;
        assert(has_date(a, a[n].date));
        let j = choose|j: int| 0 <= j < b.len() && (#[trigger] b[j]).date == a[n].date;
        if j < b.len() - 1 {
            let m = b.len() - 1;
            assert(has_date(b, b[m].date));
            let i = choose|i: int| 0 <= i < a.len() && (#[trigger] a[i]).date == b[m].date;
            assert(a[i].date@ <= a[n].date@);
            assert(b[j].date@ < b[m].date@);
        }
        let a0 = a.drop_last();
        let b0 = b.drop_last();
        assert forall|date: Date| has_date(a0, date) <==> has_date(b0, date) by {
            if has_date(a0, date) {
                let i = choose|i: int| 0 <= i < a0.len() && (#[trigger] a0[i]).date == date;
                assert(a[i] == a0[i]);
                assert(has_date(a, date));
                let k = choose|k: int| 0 <= k < b.len() && (#[trigger] b[k]).date == date;
                assert(a[i].date@ < a[n].date@);
                assert(b0[k] == b[k]);
            }
            if has_date(b0, date) {
                let k = choose|k: int| 0 <= k < b0.len() && (#[trigger] b0[k]).date == date;
                assert(b[k] == b0[k]);
                assert(has_date(b, date));
                let i = choose|i: int| 0 <= i < a.len() && (#[trigger] a[i]).date == date;
                assert(b[k].date@ < b[j].date@);
                assert(a0[i] == a[i]);
            }
        }
        assert forall|i: int, k: int|
            0 <= i < a0.len() && 0 <= k < b0.len() && (#[trigger] a0[i]).date == (
            #[trigger] b0[k]).date implies a0[i].value == b0[k].value by {
            assert(a[i] == a0[i] && b[k] == b0[k]);
        }
        lemma_series_unique(a0, b0);
        assert(a[n].date == b[j].date);
        assert(a[n] == b[j]);
        assert(a =~= a0.push(a[n]));
        assert(b =~= b0.push(b[j]));
    }
}

/// What a rearrangement of the sessions gives under a filtering map has the
/// same number of values and the same sum.
pub proof fn lemma_filter_map_rearranged(
    a: Seq<SessionMetrics>,
    b: Seq<SessionMetrics>,
    f: spec_fn(SessionMetrics) -> Option<u32>,
)
    requires
        a.to_multiset() == b.to_multiset(),
    ensures
        a.filter_map(f).len() == b.filter_map(f).len(),
        total(a.filter_map(f)) == total(b.filter_map(f)),
    decreases a.len(),
{
    broadcast use vstd::multiset::group_multiset_axioms;

    to_multiset_len(a);
    to_multiset_len(b);
    if a.len() > 0 {
        let x = a.last();
        let a0 = a.drop_last();
        assert(a =~= a0.push(x));
        to_multiset_build(a0, x);
        to_multiset_contains(b, x);
        assert(a.to_multiset().count(x) > 0);
        assert(b.contains(x));
        let j = choose|j: int| 0 <= j < b.len() && b[j] == x;
        let b0 = b.remove(j);
        to_multiset_remove(b, j);
        assert(a0.to_multiset() =~= a.to_multiset().remove(x));
        lemma_filter_map_rearranged(a0, b0, f);
        let head = b.take(j);
        let tail = b.skip(j + 1);
        assert(b =~= head + seq![x] + tail);
        assert(b0 =~= head + tail);
        lemma_filter_map_concat(head, seq![x], f);
        lemma_filter_map_concat(head + seq![x], tail, f);
        lemma_filter_map_concat(head, tail, f);
        Seq::lemma_filter_map_singleton(x, f);
        lemma_total_concat(head.filter_map(f), seq![x].filter_map(f));
        lemma_total_concat(head.filter_map(f) + seq![x].filter_map(f), tail.filter_map(f));
        lemma_total_concat(head.filter_map(f), tail.filter_map(f));
        match f(x) {
            Some(v) => {
                assert(a.filter_map(f) == a0.filter_map(f) + seq![v]);
                lemma_total_concat(a0.filter_map(f), seq![v]);
                assert(seq![v].drop_last() =~= Seq::<u32>::empty());
                assert(total(seq![v]) == v) by {
                    reveal_with_fuel(total, 2);
                }
            },
            None => {
                assert(total(Seq::<u32>::empty()) == 0);
            },
        }
    }
}

/// Whether the map holds, under the day of exactly the dates on which a
/// session contributes, the contributions of the date.
pub open spec fn collects(
    map: Map<i32, Vec<u32>>,
    sessions: Seq<SessionMetrics>,
    metric: Metric,
) -> bool {
    &&& forall|day: i32| #[trigger]
        map.contains_key(day) ==> {
            &&& map[day]@ == values_on(sessions, metric, Date { day })
            &&& map[day]@.len() > 0
        }
    &&& forall|date: Date|
        (#[trigger] values_on(sessions, metric, date)).len() > 0 ==> map.contains_key(date.day)
}

/// Collects what the sessions contribute to `metric` under the day of their
/// date: the first contribution of a day opens its list, every further one
/// is added to it.
pub fn collect_by_day(sessions: &[SessionMetrics], metric: Metric) -> (map: BTreeMap<
    i32,
    Vec<u32>,
>)
    ensures
        collects(map@, sessions@, metric),
{
    let mut map: BTreeMap<i32, Vec<u32>> = BTreeMap::new();
    let mut k: usize = 0;
    proof {
        assert(sessions@.take(0) =~= Seq::empty());
    }
    while k < sessions.len()
        invariant
            k <= sessions.len(),
            collects(map@, sessions@.take(k as int), metric),
        decreases sessions.len() - k,
    {
        let session = sessions[k];
        let ghost before = map@;
        match session.value(metric) {
            None => {},
            Some(v) => {
                let day = session.date.day;
                let mut values = match map.remove(&day) {
                    Some(values) => values,
                    None => Vec::new(),
                };
                proof {
                    lemma_values_on_step(sessions@, k as int, metric, session.date);
                    if !before.contains_key(day) {
                        assert(values_on(sessions@.take(k as int), metric, session.date).len()
                            == 0);
                        assert(values@ =~= values_on(
                            sessions@.take(k as int),
                            metric,
                            session.date,
                        ));
                    }
                }
                values.push(v);
                map.insert(day, values);
            },
        }
        proof {
            assert forall|day: i32| #[trigger] map@.contains_key(day) implies {
                &&& map@[day]@ == values_on(sessions@.take(k + 1), metric, Date { day })
                &&& map@[day]@.len() > 0
            } by {
                lemma_values_on_step(sessions@, k as int, metric, Date { day });
                if !(session.contribution(metric) is Some && day == session.date.day) {
                    assert(before.contains_key(day));
                }
            }
            assert forall|date: Date|
                (#[trigger] values_on(sessions@.take(k + 1), metric, date)).len()
                    > 0 implies map@.contains_key(date.day) by {
                lemma_values_on_step(sessions@, k as int, metric, date);
            }
        }
        k += 1;
    }
    proof {
        assert(sessions@.take(k as int) =~= sessions@);
    }
    map
}

/// Groups what the sessions contribute to `metric` by date.
pub fn group_by_date(sessions: &[SessionMetrics], metric: Metric) -> (series: Vec<Point<Vec<u32>>>)
    ensures
        groups(series@, sessions@, metric),
{
    let mut map = collect_by_day(sessions, metric);
    let days = days_in_order(&map);
    let mut series: Vec<Point<Vec<u32>>> = Vec::new();
    let mut k: usize = 0;
    while k < days.len()
        invariant
            k <= days.len(),
            series@.len() == k,
            forall|i: int, j: int| 0 <= i < j < days@.len() ==> days@[i] < days@[j],
            forall|i: int|
                k <= i < days@.len() ==> {
                    &&& map@.contains_key(#[trigger] days@[i])
                    &&& map@[days@[i]]@ == values_on(sessions@, metric, Date { day: days@[i] })
                    &&& map@[days@[i]]@.len() > 0
                },
            forall|i: int|
                0 <= i < k ==> {
                    &&& (#[trigger] series@[i]).date.day == days@[i]
                    &&& series@[i].value@ == values_on(sessions@, metric, series@[i].date)
                    &&& series@[i].value@.len() > 0
                },
        decreases days.len() - k,
    {
        let day = days[k];
        let ghost before = map@;
        let values = match map.remove(&day) {
            Some(values) => values,
            None => Vec::new(),
        };
        proof {
            assert(before.contains_key(days@[k as int]));
            assert forall|i: int| k + 1 <= i < days@.len() implies {
                &&& map@.contains_key(#[trigger] days@[i])
                &&& map@[days@[i]]@ == values_on(sessions@, metric, Date { day: days@[i] })
                &&& map@[days@[i]]@.len() > 0
            } by {
                assert(days@[k as int] < days@[i]);
                assert(before.contains_key(days@[i]));
            }
        }
        series.push(Point { date: Date { day }, value: values });
        k += 1;
    }
    proof {
        assert forall|date: Date|
            (#[trigger] values_on(sessions@, metric, date)).len() > 0 implies has_date(
            series@,
            date,
        ) by {
            assert(days@.contains(date.day));
            let i = choose|i: int| 0 <= i < days@.len() && days@[i] == date.day;
            assert(series@[i].date == date);
        }
    }
    series
}

/// The sum of the values.
pub open spec fn total(values: Seq<u32>) -> nat
    decreases values.len(),
{
    if values.len() == 0 {
        0
    } else {
        total(values.drop_last()) + values.last() as nat
    }
}

/// The arithmetic mean of the values, rounded down to a whole number; zero
/// for no values.
pub open spec fn mean(values: Seq<u32>) -> nat {
    if values.len() == 0 {
        0
    } else {
        total(values) / values.len()
    }
}

/// A sum is at most the largest possible value times the number of values.
pub proof fn lemma_total_bound(values: Seq<u32>)
    ensures
        total(values) <= values.len() * u32::MAX,
    decreases values.len(),
{
    if values.len() > 0 {
        lemma_total_bound(values.drop_last());
        assert((values.len() - 1) * u32::MAX + u32::MAX == values.len() * u32::MAX)
            by (nonlinear_arith);
    }
}

/// The sum of a concatenation is the sum of the sums.
pub proof fn lemma_total_concat(a: Seq<u32>, b: Seq<u32>)
    ensures
        total(a + b) == total(a) + total(b),
    decreases b.len(),
{
    if b.len() == 0 {
        assert(a + b =~= a);
    } else {
        assert((a + b).drop_last() =~= a + b.drop_last());
        lemma_total_concat(a, b.drop_last());
    }
}

/// A mean is no larger than the largest possible value.
pub proof fn lemma_mean_bound(values: Seq<u32>)
    ensures
        mean(values) <= u32::MAX,
{
    if values.len() > 0 {
        lemma_total_bound(values);
        let n = values.len() as int;
        let t = total(values) as int;
        assert(t / n <= u32::MAX) by (nonlinear_arith)
            requires
                n > 0,
                0 <= t <= n * u32::MAX,
        ;
    }
}

/// The mean is the exact quotient of sum and count, rounded down: it falls
/// short of the quotient by less than one.
pub proof fn lemma_mean_rounds_down(values: Seq<u32>)
    requires
        values.len() > 0,
    ensures
        mean(values) * values.len() <= total(values) < (mean(values) + 1) * values.len(),
{
    let n = values.len() as int;
    let t = total(values) as int;
    assert((t / n) * n <= t < (t / n + 1) * n) by (nonlinear_arith)
        requires
            n > 0,
            t >= 0,
    ;
}

/// Adds up the values.
pub fn sum(values: &Vec<u32>) -> (r: u128)
    ensures
        r == total(values@),
{
    let mut r: u128 = 0;
    let mut k: usize = 0;
    proof {
        assert(values@.take(0) =~= Seq::empty());
    }
    while k < values.len()
        invariant
            k <= values.len(),
            r == total(values@.take(k as int)),
        decreases values.len() - k,
    {
        proof {
            assert(values@.take(k + 1).drop_last() =~= values@.take(k as int));
            lemma_total_bound(values@.take(k as int));
            assert(k * u32::MAX <= usize::MAX * u32::MAX) by (nonlinear_arith)
                requires
                    k <= usize::MAX,
            ;
            assert(usize::MAX * u32::MAX < 0x1_0000_0000_0000_0000_0000_0000) by (nonlinear_arith)
                requires
                    usize::MAX <= 0xffff_ffff_ffff_ffff,
                    u32::MAX == 0xffff_ffff,
            ;
        }
        r = r + values[k] as u128;
        k += 1;
    }
    proof {
        assert(values@.take(k as int) =~= values@);
    }
    r
}

/// The mean of the values, rounded down; zero for no values.
pub fn average(values: &Vec<u32>) -> (r: u32)
    ensures
        r == mean(values@),
{
    if values.len() == 0 {
        0
    } else {
        proof {
            lemma_mean_bound(values@);
        }
        let n: u128 = values.len() as u128;
        let m: u128 = sum(values) / n;
        m as u32
    }
}

} // verus!
