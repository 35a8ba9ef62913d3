use chrono::Datelike;
use chrono::NaiveDate;
use valens_frontend::calendar::calendar_intensity;
use valens_frontend::calendar::exercise_interval;
use valens_frontend::calendar::filter_by_interval;
use valens_frontend::charts::aggregate_by_date;
use valens_frontend::charts::finalize_averages;
use valens_frontend::charts::view_charts;
use valens_frontend::charts::RepsRpe;
use valens_frontend::date::Date;
use valens_frontend::date::Interval;
use valens_frontend::date::EPOCH_DAY;
use std::collections::BTreeMap;
use valens_frontend::ordered::days_in_order;
use valens_frontend::series::average;
use valens_frontend::series::collect_by_day;
use valens_frontend::series::group_by_date;
use valens_frontend::series::sum;
use valens_frontend::series::Point;
use valens_frontend::session::Metric;
use valens_frontend::session::SessionMetrics;

fn date(year: i32, month: u32, day: u32) -> Date {
    Date::from_ymd_opt(year, month, day).unwrap()
}

fn session(on: Date) -> SessionMetrics {
    SessionMetrics {
        id: 0,
        date: on,
        set_volume: 0,
        volume_load: 0,
        tut: None,
        avg_reps: None,
        avg_rpe: None,
        avg_weight: None,
        avg_time: None,
    }
}

fn loaded(on: Date, volume_load: u32) -> SessionMetrics {
    SessionMetrics { volume_load, ..session(on) }
}

fn point<V>(on: Date, value: V) -> Point<V> {
    Point { date: on, value }
}

fn as_real(thousandths: i64) -> f64 {
    thousandths as f64 / 1000.0
}

#[test]
fn date_counts_days_as_chrono_does() {
    assert_eq!(date(1970, 1, 1).day, 719_163);
    assert_eq!(date(1970, 1, 1), Date::epoch());
    assert_eq!(Date::epoch().day, EPOCH_DAY);
    assert_eq!(date(1, 1, 1).day, 1);
    assert_eq!(date(2024, 3, 1).day, date(2024, 2, 29).day + 1);
    let theirs = NaiveDate::from_ymd_opt(2024, 1, 2).unwrap();
    assert_eq!(date(2024, 1, 2).day, theirs.num_days_from_ce());
    assert_eq!(Date::from_day(theirs.num_days_from_ce()), date(2024, 1, 2));
}

#[test]
fn date_rejects_what_the_calendar_lacks() {
    assert_eq!(Date::from_ymd_opt(2023, 2, 29), None);
    assert_eq!(Date::from_ymd_opt(2023, 4, 31), None);
    assert_eq!(Date::from_ymd_opt(2023, 0, 1), None);
    assert_eq!(Date::from_ymd_opt(2023, 13, 1), None);
    assert_eq!(Date::from_ymd_opt(400_000, 1, 1), None);
    assert!(Date::from_ymd_opt(2024, 2, 29).is_some());
}

#[test]
fn days_since_is_signed() {
    assert_eq!(date(2024, 1, 2).days_since(&date(2024, 1, 1)), 1);
    assert_eq!(date(2024, 1, 1).days_since(&date(2024, 1, 1)), 0);
    assert_eq!(date(2024, 1, 1).days_since(&date(2024, 1, 31)), -30);
    assert_eq!(
        Date::from_day(i32::MAX).days_since(&Date::from_day(i32::MIN)),
        i64::from(u32::MAX)
    );
}

#[test]
fn interval_includes_both_ends() {
    let january = Interval { first: date(2024, 1, 1), last: date(2024, 1, 31) };
    assert!(january.contains(date(2024, 1, 1)));
    assert!(january.contains(date(2024, 1, 31)));
    assert!(january.contains(date(2024, 1, 15)));
    assert!(!january.contains(date(2023, 12, 31)));
    assert!(!january.contains(date(2024, 2, 1)));
}

#[test]
fn calendar_scales_two_days_from_a_fifth_to_one() {
    let sessions = vec![loaded(date(2024, 1, 1), 100), loaded(date(2024, 1, 2), 300)];
    let interval = Interval { first: date(2024, 1, 1), last: date(2024, 1, 2) };
    let calendar = calendar_intensity(&sessions, &interval);
    assert_eq!(calendar, vec![point(date(2024, 1, 1), 200), point(date(2024, 1, 2), 1000)]);
    assert_eq!(as_real(i64::from(calendar[0].value)), 0.2);
    assert_eq!(as_real(i64::from(calendar[1].value)), 1.0);
}

#[test]
fn calendar_is_linear_between_the_extremes() {
    let sessions = vec![
        loaded(date(2024, 1, 3), 300),
        loaded(date(2024, 1, 1), 100),
        loaded(date(2024, 1, 2), 150),
        loaded(date(2024, 1, 2), 50),
        loaded(date(2024, 1, 4), 101),
    ];
    let interval = Interval { first: date(2024, 1, 1), last: date(2024, 1, 31) };
    assert_eq!(
        calendar_intensity(&sessions, &interval),
        vec![
            point(date(2024, 1, 1), 200),
            point(date(2024, 1, 2), 600),
            point(date(2024, 1, 3), 1000),
            point(date(2024, 1, 4), 204),
        ]
    );
}

#[test]
fn calendar_of_equal_loads_is_full() {
    let sessions = vec![
        loaded(date(2024, 1, 1), 70),
        loaded(date(2024, 1, 2), 30),
        loaded(date(2024, 1, 2), 40),
        loaded(date(2024, 1, 5), 70),
    ];
    let interval = Interval { first: date(2024, 1, 1), last: date(2024, 1, 31) };
    assert_eq!(
        calendar_intensity(&sessions, &interval),
        vec![
            point(date(2024, 1, 1), 1000),
            point(date(2024, 1, 2), 1000),
            point(date(2024, 1, 5), 1000),
        ]
    );
    let single = vec![loaded(date(2024, 1, 9), 0)];
    assert_eq!(calendar_intensity(&single, &interval), vec![point(date(2024, 1, 9), 1000)]);
}

#[test]
fn calendar_ignores_sessions_outside_the_interval() {
    let sessions = vec![
        loaded(date(2023, 12, 31), 1),
        loaded(date(2024, 1, 1), 100),
        loaded(date(2024, 1, 2), 300),
        loaded(date(2024, 2, 1), 9000),
    ];
    let interval = Interval { first: date(2024, 1, 1), last: date(2024, 1, 31) };
    assert_eq!(
        calendar_intensity(&sessions, &interval),
        vec![point(date(2024, 1, 1), 200), point(date(2024, 1, 2), 1000)]
    );
}

#[test]
fn calendar_does_not_depend_on_the_order() {
    let a = loaded(date(2024, 1, 1), 100);
    let b = loaded(date(2024, 1, 2), 150);
    let c = loaded(date(2024, 1, 2), 50);
    let d = loaded(date(2024, 1, 3), 300);
    let interval = Interval { first: date(2024, 1, 1), last: date(2024, 1, 31) };
    let expected = calendar_intensity(&[a, b, c, d], &interval);
    assert_eq!(calendar_intensity(&[d, c, b, a], &interval), expected);
    assert_eq!(calendar_intensity(&[c, a, d, b], &interval), expected);
    assert_eq!(calendar_intensity(&[b, d, a, c], &interval), expected);
}

#[test]
fn calendar_takes_the_largest_loads() {
    let sessions = vec![
        loaded(date(2024, 1, 1), u32::MAX),
        loaded(date(2024, 1, 1), u32::MAX),
        loaded(date(2024, 1, 2), 0),
        loaded(date(2024, 1, 3), u32::MAX),
    ];
    let interval = Interval { first: date(2024, 1, 1), last: date(2024, 1, 31) };
    assert_eq!(
        calendar_intensity(&sessions, &interval),
        vec![
            point(date(2024, 1, 1), 1000),
            point(date(2024, 1, 2), 200),
            point(date(2024, 1, 3), 600),
        ]
    );
}

#[test]
fn reserve_adds_what_is_left_to_ten() {
    let on = date(2024, 3, 1);
    let sessions = vec![
        SessionMetrics { avg_reps: Some(8000), avg_rpe: Some(7000), ..session(on) },
        SessionMetrics { avg_reps: Some(10_000), avg_rpe: Some(9000), ..session(on) },
    ];
    let charts = view_charts(&sessions, true, false);
    assert_eq!(charts.repetitions, vec![point(on, 9000)]);
    let reserve = charts.reserve.unwrap();
    assert_eq!(reserve, vec![point(on, 11_000)]);
    assert_eq!(as_real(reserve[0].value), 11.0);
}

#[test]
fn reserve_leaves_out_dates_without_exertion() {
    let first = date(2024, 3, 1);
    let second = date(2024, 3, 2);
    let third = date(2024, 3, 3);
    let sessions = vec![
        SessionMetrics { avg_reps: Some(8000), ..session(first) },
        SessionMetrics { avg_reps: Some(5000), avg_rpe: Some(8500), ..session(second) },
        SessionMetrics { avg_rpe: Some(8500), ..session(third) },
    ];
    let charts = view_charts(&sessions, true, true);
    assert_eq!(charts.repetitions, vec![point(first, 8000), point(second, 5000)]);
    assert_eq!(charts.reserve, Some(vec![point(second, 6500)]));
}

#[test]
fn reserve_counts_every_exertion_of_the_date() {
    let on = date(2024, 3, 1);
    let sessions = vec![
        SessionMetrics { avg_rpe: Some(6000), ..session(on) },
        SessionMetrics { avg_reps: Some(8000), avg_rpe: Some(8000), ..session(on) },
    ];
    let sums = aggregate_by_date(&sessions);
    assert_eq!(
        sums.reps_rpe,
        vec![point(on, RepsRpe { reps: vec![8000], rpe: vec![6000, 8000] })]
    );
    assert_eq!(view_charts(&sessions, true, false).reserve, Some(vec![point(on, 11_000)]));
}

#[test]
fn reserve_may_fall_below_the_repetitions() {
    let on = date(2024, 3, 1);
    let sessions = vec![SessionMetrics { avg_reps: Some(0), avg_rpe: Some(12_000), ..session(on) }];
    assert_eq!(view_charts(&sessions, true, false).reserve, Some(vec![point(on, -2000)]));
}

#[test]
fn empty_collection_gives_empty_series() {
    let none: Vec<SessionMetrics> = Vec::new();
    let sums = aggregate_by_date(&none);
    assert!(sums.set_volume.is_empty());
    assert!(sums.volume_load.is_empty());
    assert!(sums.tut.is_empty());
    assert!(sums.reps_rpe.is_empty());
    assert!(sums.weight.is_empty());
    assert!(sums.time.is_empty());
    let charts = view_charts(&none, true, true);
    assert!(charts.set_volume.is_empty());
    assert!(charts.volume_load.is_empty());
    assert_eq!(charts.tut, Some(Vec::new()));
    assert!(charts.repetitions.is_empty());
    assert_eq!(charts.reserve, Some(Vec::new()));
    assert!(charts.weight.is_empty());
    assert_eq!(charts.time, Some(Vec::new()));
    let interval = Interval { first: date(2024, 1, 1), last: date(2024, 12, 31) };
    assert!(calendar_intensity(&none, &interval).is_empty());
    assert!(filter_by_interval(&none, &interval).is_empty());
}

#[test]
fn sums_accumulate_per_date() {
    let first = date(2024, 1, 1);
    let second = date(2024, 1, 2);
    let sessions = vec![
        SessionMetrics { set_volume: 3, volume_load: 100, tut: Some(40), ..session(second) },
        SessionMetrics { set_volume: 4, volume_load: 250, tut: None, ..session(first) },
        SessionMetrics { set_volume: 5, volume_load: 50, tut: Some(2), ..session(second) },
    ];
    let sums = aggregate_by_date(&sessions);
    assert_eq!(sums.set_volume, vec![point(first, 4), point(second, 8)]);
    assert_eq!(sums.volume_load, vec![point(first, 250), point(second, 150)]);
    assert_eq!(sums.tut, vec![point(first, 0), point(second, 42)]);
}

#[test]
fn sums_do_not_overflow() {
    let on = date(2024, 1, 1);
    let sessions = vec![
        SessionMetrics { volume_load: u32::MAX, ..session(on) },
        SessionMetrics { volume_load: u32::MAX, ..session(on) },
        SessionMetrics { volume_load: 2, ..session(on) },
    ];
    assert_eq!(aggregate_by_date(&sessions).volume_load, vec![point(on, 8_589_934_592)]);
}

#[test]
fn sums_are_additive() {
    let first = date(2024, 1, 1);
    let second = date(2024, 1, 2);
    let third = date(2024, 1, 3);
    let a = vec![
        SessionMetrics { set_volume: 1, volume_load: 10, tut: Some(5), ..session(first) },
        SessionMetrics { set_volume: 2, volume_load: 20, tut: None, ..session(second) },
    ];
    let b = vec![
        SessionMetrics { set_volume: 4, volume_load: 40, tut: Some(7), ..session(second) },
        SessionMetrics { set_volume: 8, volume_load: 80, tut: Some(9), ..session(third) },
    ];
    let mut both = a.clone();
    both.extend(b.iter().copied());
    let of_a = aggregate_by_date(&a);
    let of_b = aggregate_by_date(&b);
    let of_both = aggregate_by_date(&both);
    assert_eq!(of_a.set_volume, vec![point(first, 1), point(second, 2)]);
    assert_eq!(of_b.set_volume, vec![point(second, 4), point(third, 8)]);
    assert_eq!(of_both.set_volume, vec![point(first, 1), point(second, 6), point(third, 8)]);
    assert_eq!(of_both.volume_load, vec![point(first, 10), point(second, 60), point(third, 80)]);
    assert_eq!(of_both.tut, vec![point(first, 5), point(second, 7), point(third, 9)]);
}

#[test]
fn weight_series_needs_a_value() {
    let first = date(2024, 1, 1);
    let second = date(2024, 1, 2);
    let third = date(2024, 1, 3);
    let sessions = vec![
        SessionMetrics { avg_weight: None, ..session(first) },
        SessionMetrics { avg_weight: None, ..session(second) },
        SessionMetrics { avg_weight: Some(62_500), ..session(second) },
        SessionMetrics { avg_weight: Some(60_000), ..session(third) },
        SessionMetrics { avg_weight: Some(65_001), ..session(third) },
    ];
    let sums = aggregate_by_date(&sessions);
    assert_eq!(
        sums.weight,
        vec![point(second, vec![62_500]), point(third, vec![60_000, 65_001])]
    );
    let charts = view_charts(&sessions, false, false);
    assert_eq!(charts.weight, vec![point(second, 62_500), point(third, 62_500)]);
    assert_eq!(charts.reserve, None);
    assert_eq!(charts.tut, None);
    assert_eq!(charts.time, None);
}

#[test]
fn time_series_shows_with_tut() {
    let first = date(2024, 1, 1);
    let sessions = vec![
        SessionMetrics { tut: Some(30), avg_time: Some(3000), ..session(first) },
        SessionMetrics { tut: Some(12), avg_time: Some(4000), ..session(first) },
    ];
    let charts = view_charts(&sessions, false, true);
    assert_eq!(charts.tut, Some(vec![point(first, 42)]));
    assert_eq!(charts.time, Some(vec![point(first, 3500)]));
}

#[test]
fn grouping_keeps_the_order_of_the_sessions() {
    let first = date(2024, 1, 1);
    let second = date(2024, 1, 2);
    let sessions = vec![
        SessionMetrics { avg_reps: Some(3), ..session(second) },
        SessionMetrics { avg_reps: Some(1), ..session(first) },
        SessionMetrics { avg_reps: None, ..session(first) },
        SessionMetrics { avg_reps: Some(2), ..session(second) },
        SessionMetrics { avg_reps: Some(1), ..session(second) },
    ];
    assert_eq!(
        group_by_date(&sessions, Metric::Reps),
        vec![point(first, vec![1]), point(second, vec![3, 2, 1])]
    );
    assert_eq!(group_by_date(&sessions, Metric::Rpe), Vec::new());
}

#[test]
fn session_value_follows_the_metric() {
    let s = SessionMetrics {
        id: 9,
        date: date(2024, 1, 1),
        set_volume: 1,
        volume_load: 2,
        tut: Some(3),
        avg_reps: Some(4),
        avg_rpe: Some(5),
        avg_weight: Some(6),
        avg_time: Some(7),
    };
    assert_eq!(s.value(Metric::SetVolume), Some(1));
    assert_eq!(s.value(Metric::VolumeLoad), Some(2));
    assert_eq!(s.value(Metric::Tut), Some(3));
    assert_eq!(s.value(Metric::Reps), Some(4));
    assert_eq!(s.value(Metric::Rpe), Some(5));
    assert_eq!(s.value(Metric::Weight), Some(6));
    assert_eq!(s.value(Metric::Time), Some(7));
    let blank = session(date(2024, 1, 1));
    assert_eq!(blank.value(Metric::SetVolume), Some(0));
    assert_eq!(blank.value(Metric::Tut), Some(0));
    assert_eq!(blank.value(Metric::Reps), None);
    assert_eq!(blank.value(Metric::Time), None);
}

#[test]
fn mean_rounds_down() {
    assert_eq!(average(&vec![1, 2]), 1);
    assert_eq!(average(&vec![7]), 7);
    assert_eq!(average(&vec![1000, 1000, 1001]), 1000);
    assert_eq!(average(&vec![u32::MAX, u32::MAX]), u32::MAX);
    assert_eq!(average(&Vec::new()), 0);
    assert_eq!(sum(&vec![1, 2, 3]), 6);
    assert_eq!(sum(&Vec::new()), 0);
}

#[test]
fn finalize_skips_empty_lists() {
    let first = date(2024, 1, 1);
    let second = date(2024, 1, 2);
    let reps_rpe = vec![
        point(first, RepsRpe { reps: vec![], rpe: vec![9000] }),
        point(second, RepsRpe { reps: vec![6000, 7000], rpe: vec![] }),
    ];
    let weight = vec![point(first, vec![]), point(second, vec![10, 20, 31])];
    let time = vec![point(first, vec![5]), point(second, vec![])];
    let averages = finalize_averages(&reps_rpe, &weight, &time, true);
    assert_eq!(averages.repetitions, vec![point(second, 6500)]);
    assert_eq!(averages.reserve, Some(Vec::new()));
    assert_eq!(averages.weight, vec![point(second, 20)]);
    assert_eq!(averages.time, vec![point(first, 5)]);
    assert_eq!(finalize_averages(&reps_rpe, &weight, &time, false).reserve, None);
}

#[test]
fn filter_keeps_the_order_and_is_idempotent() {
    let sessions = vec![
        loaded(date(2024, 2, 1), 1),
        loaded(date(2024, 1, 31), 2),
        loaded(date(2024, 1, 1), 3),
        loaded(date(2023, 12, 31), 4),
        loaded(date(2024, 1, 15), 5),
    ];
    let interval = Interval { first: date(2024, 1, 1), last: date(2024, 1, 31) };
    let once = filter_by_interval(&sessions, &interval);
    assert_eq!(
        once,
        vec![
            loaded(date(2024, 1, 31), 2),
            loaded(date(2024, 1, 1), 3),
            loaded(date(2024, 1, 15), 5),
        ]
    );
    assert_eq!(filter_by_interval(&once, &interval), once);
}

#[test]
fn filter_with_reversed_interval_is_empty() {
    let sessions = vec![loaded(date(2024, 1, 1), 3), loaded(date(2024, 1, 15), 5)];
    let interval = Interval { first: date(2024, 1, 31), last: date(2024, 1, 1) };
    assert!(filter_by_interval(&sessions, &interval).is_empty());
    assert!(calendar_intensity(&sessions, &interval).is_empty());
}

#[test]
fn exercise_interval_spans_all_sessions() {
    let sessions = vec![
        loaded(date(2024, 2, 1), 1),
        loaded(date(2023, 12, 31), 4),
        loaded(date(2024, 1, 15), 5),
    ];
    assert_eq!(
        exercise_interval(&sessions),
        Interval { first: date(2023, 12, 31), last: date(2024, 2, 1) }
    );
    assert_eq!(
        exercise_interval(&[]),
        Interval { first: date(1970, 1, 1), last: date(1970, 1, 1) }
    );
}

#[test]
fn collecting_adds_to_the_list_of_the_day() {
    let first = date(2024, 1, 1);
    let second = date(2024, 1, 2);
    let sessions = vec![
        SessionMetrics { avg_time: Some(3), ..session(second) },
        SessionMetrics { avg_time: Some(1), ..session(first) },
        SessionMetrics { avg_time: None, ..session(first) },
        SessionMetrics { avg_time: Some(2), ..session(second) },
    ];
    let expected: BTreeMap<i32, Vec<u32>> =
        [(first.day, vec![1]), (second.day, vec![3, 2])].into_iter().collect();
    assert_eq!(collect_by_day(&sessions, Metric::Time), expected);
    assert_eq!(collect_by_day(&sessions, Metric::Weight), BTreeMap::new());
    assert_eq!(
        group_by_date(&sessions, Metric::Time),
        vec![point(first, vec![1]), point(second, vec![3, 2])]
    );
}

#[test]
fn days_come_in_increasing_order() {
    let map: BTreeMap<i32, u8> =
        [(5, 0), (-3, 1), (i32::MAX, 2), (0, 3), (i32::MIN, 4)].into_iter().collect();
    assert_eq!(days_in_order(&map), vec![i32::MIN, -3, 0, 5, i32::MAX]);
    assert_eq!(days_in_order(&BTreeMap::<i32, u8>::new()), Vec::<i32>::new());
}
