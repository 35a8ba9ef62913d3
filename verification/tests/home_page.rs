use valens_frontend::date::Date;
use valens_frontend::home::init;
use valens_frontend::home::last_update;
use valens_frontend::home::last_update_days;
use valens_frontend::home::update;
use valens_frontend::home::view;
use valens_frontend::home::Action;
use valens_frontend::home::BodyFat;
use valens_frontend::home::BodyWeight;
use valens_frontend::home::Model;
use valens_frontend::home::Msg;
use valens_frontend::home::Session;

fn date(year: i32, month: u32, day: u32) -> Date {
    Date::from_ymd_opt(year, month, day).unwrap()
}

fn weight(on: Date, weight: u32) -> BodyWeight {
    BodyWeight { date: on, weight }
}

fn fat(on: Date, jp3: u32) -> BodyFat {
    BodyFat {
        date: on,
        chest: 1,
        abdominal: 2,
        tigh: 3,
        tricep: 4,
        subscapular: 5,
        suprailiac: 6,
        midaxillary: 7,
        jp3,
        jp7: 0,
    }
}

fn start() -> Model {
    init(Session { sex: 1 }).0
}

#[test]
fn starts_by_fetching_both() {
    let (model, first, second) = init(Session { sex: 0 });
    assert_eq!(
        model,
        Model { session: Session { sex: 0 }, body_weight: None, body_fat: None, errors: vec![] }
    );
    assert_eq!(first, Msg::FetchBodyWeight);
    assert_eq!(second, Msg::FetchBodyFat);
    let mut model = model;
    assert_eq!(update(first, &mut model), Action::FetchBodyWeight);
    assert_eq!(update(second, &mut model), Action::FetchBodyFat);
}

#[test]
fn fetch_messages_ask_for_the_fetch() {
    let mut model = start();
    assert_eq!(update(Msg::FetchBodyWeight, &mut model), Action::FetchBodyWeight);
    assert_eq!(update(Msg::FetchBodyFat, &mut model), Action::FetchBodyFat);
    assert_eq!(model, start());
}

#[test]
fn keeps_the_last_value_fetched() {
    let mut model = start();
    let weights = vec![weight(date(2024, 1, 1), 80_000), weight(date(2024, 1, 2), 79_500)];
    assert_eq!(update(Msg::BodyWeightFetched(Ok(weights)), &mut model), Action::Nothing);
    assert_eq!(model.body_weight, Some(weight(date(2024, 1, 2), 79_500)));
    let fats = vec![fat(date(2024, 1, 3), 12_300)];
    assert_eq!(update(Msg::BodyFatFetched(Ok(fats)), &mut model), Action::Nothing);
    assert_eq!(model.body_fat, Some(fat(date(2024, 1, 3), 12_300)));
    assert_eq!(update(Msg::BodyWeightFetched(Ok(vec![])), &mut model), Action::Nothing);
    assert_eq!(model.body_weight, None);
    assert_eq!(update(Msg::BodyFatFetched(Ok(vec![])), &mut model), Action::Nothing);
    assert_eq!(model.body_fat, None);
    assert!(model.errors.is_empty());
}

#[test]
fn collects_and_closes_errors() {
    let mut model = start();
    let failed = Msg::BodyWeightFetched(Err(String::from("no network")));
    assert_eq!(update(failed, &mut model), Action::Nothing);
    let failed = Msg::BodyFatFetched(Err(String::from("status 500")));
    assert_eq!(update(failed, &mut model), Action::Nothing);
    assert_eq!(
        model.errors,
        vec![
            String::from("Failed to fetch body weight: no network"),
            String::from("Failed to fetch body fat: status 500"),
        ]
    );
    assert_eq!(update(Msg::CloseErrorDialog, &mut model), Action::Nothing);
    assert_eq!(model.errors, vec![String::from("Failed to fetch body fat: status 500")]);
    assert_eq!(update(Msg::CloseErrorDialog, &mut model), Action::Nothing);
    assert!(model.errors.is_empty());
    assert_eq!(model.body_weight, None);
    assert_eq!(model.body_fat, None);
}

#[test]
fn last_update_names_today_and_yesterday() {
    assert_eq!(last_update(0), "Last update <strong>today</strong>.");
    assert_eq!(last_update(1), "Last update <strong>yesterday</strong>.");
    assert_eq!(last_update(2), "Last update <strong>2 days</strong> ago.");
    assert_eq!(last_update(365), "Last update <strong>365 days</strong> ago.");
    assert_eq!(last_update(-1), "Last update <strong>-1 days</strong> ago.");
    assert_eq!(
        last_update(i64::MIN),
        "Last update <strong>-9223372036854775808 days</strong> ago."
    );
    assert_eq!(last_update_days(String::from("many")), "Last update <strong>many days</strong> ago.");
}

#[test]
fn view_counts_the_days_since_each_value() {
    let mut model = init(Session { sex: 0 }).0;
    let today = date(2024, 3, 1);
    let content = view(&model, today);
    assert_eq!(content.body_weight_content, "");
    assert_eq!(content.body_fat_content, "");
    assert!(content.period);
    model.body_weight = Some(weight(date(2024, 2, 29), 80_000));
    model.body_fat = Some(fat(date(2024, 1, 1), 12_000));
    let content = view(&model, today);
    assert_eq!(content.body_weight_content, "Last update <strong>yesterday</strong>.");
    assert_eq!(content.body_fat_content, "Last update <strong>60 days</strong> ago.");
    model.body_weight = Some(weight(today, 80_000));
    assert_eq!(view(&model, today).body_weight_content, "Last update <strong>today</strong>.");
    model.session = Session { sex: 1 };
    assert!(!view(&model, today).period);
}
