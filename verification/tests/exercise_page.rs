use std::collections::BTreeMap;
use valens_frontend::date::Date;
use valens_frontend::date::Interval;
use valens_frontend::exercise::checked_name;
use valens_frontend::exercise::enter_name;
use valens_frontend::exercise::find_exercise;
use valens_frontend::exercise::init;
use valens_frontend::exercise::is_name_taken;
use valens_frontend::muscle::level;
use valens_frontend::muscle::muscles_of_model;
use valens_frontend::muscle::muscles_with_stimulus;
use valens_frontend::number::parse_u32;
use valens_frontend::session::SessionMetrics;
use valens_frontend::muscle::rank_muscles;
use valens_frontend::exercise::update;
use valens_frontend::exercise::update_model;
use valens_frontend::exercise::view;
use valens_frontend::exercise::view_muscles;
use valens_frontend::exercise::Action;
use valens_frontend::exercise::Content;
use valens_frontend::exercise::Data;
use valens_frontend::exercise::Dialog;
use valens_frontend::exercise::Event;
use valens_frontend::exercise::Exercise;
use valens_frontend::muscle::ExerciseMuscle;
use valens_frontend::exercise::InputField;
use valens_frontend::muscle::Level;
use valens_frontend::exercise::Model;
use valens_frontend::exercise::Msg;
use valens_frontend::exercise::Muscles;
use valens_frontend::exercise::Target;

fn date(year: i32, month: u32, day: u32) -> Date {
    Date::from_ymd_opt(year, month, day).unwrap()
}

fn muscle(muscle_id: u8, stimulus: u8) -> ExerciseMuscle {
    ExerciseMuscle { muscle_id, stimulus }
}

fn exercise(id: u32, name: &str, muscles: Vec<ExerciseMuscle>) -> Exercise {
    Exercise { id, name: String::from(name), muscles }
}

fn data() -> Data {
    Data {
        exercises: vec![
            exercise(1, "Squat", vec![muscle(7, 100), muscle(9, 50)]),
            exercise(2, "Bench Press", vec![muscle(2, 100), muscle(1, 50), muscle(2, 60)]),
            exercise(3, "Deadlift", vec![]),
        ],
        interval: Interval { first: date(2024, 1, 1), last: date(2024, 3, 31) },
    }
}

fn field(input: &str, parsed: Option<&str>, orig: &str) -> InputField {
    InputField {
        input: String::from(input),
        parsed: parsed.map(String::from),
        orig: String::from(orig),
    }
}

fn stimulus(entries: &[(u8, u8)]) -> BTreeMap<u8, u8> {
    entries.iter().copied().collect()
}

fn squat() -> Model {
    init(Some("1"), None, &data())
}

#[test]
fn parse_u32_reads_what_the_standard_library_reads() {
    let texts = [
        "", "0", "7", "007", "42", "+42", "+", "-", "-1", "++1", "+-1", "1+", "4294967295",
        "4294967296", "+4294967295", "42949672950", "99999999999999999999999", "12a", "a12",
        " 12", "12 ", "1 2", "１２", "٣", "0x10", "1e3", "1.0", "+0", "00000000000000000001",
    ];
    for text in texts {
        assert_eq!(parse_u32(text), text.parse::<u32>().ok());
    }
    assert_eq!(parse_u32("4294967295"), Some(u32::MAX));
    assert_eq!(parse_u32("4294967296"), None);
    assert_eq!(parse_u32("+17"), Some(17));
    assert_eq!(parse_u32(""), None);
}

#[test]
fn init_reads_the_address() {
    let model = init(Some("2"), Some("edit"), &data());
    assert_eq!(
        model,
        Model {
            interval: data().interval,
            exercise_id: 2,
            name: field("Bench Press", Some("Bench Press"), "Bench Press"),
            muscle_stimulus: stimulus(&[(1, 50), (2, 60)]),
            dialog: Dialog::Hidden,
            editing: true,
            loading: false,
        }
    );
    assert!(!init(Some("2"), Some("Edit"), &data()).editing);
    assert!(!init(Some("2"), Some("edit "), &data()).editing);
    assert!(!init(Some("2"), None, &data()).editing);
}

#[test]
fn init_without_an_exercise_is_blank() {
    for part in [None, Some(""), Some("x"), Some("-3"), Some("9")] {
        let model = init(part, None, &data());
        assert_eq!(model.exercise_id, if part == Some("9") { 9 } else { 0 });
        assert_eq!(model.name, field("", None, ""));
        assert!(model.muscle_stimulus.is_empty());
        assert_eq!(model.interval, data().interval);
        assert_eq!(model.dialog, Dialog::Hidden);
        assert!(!model.loading);
    }
}

#[test]
fn edit_goes_to_the_form() {
    let mut model = squat();
    let action = update(Msg::EditExercise, &mut model, &data());
    assert_eq!(action, Action::GoAndPush(Target::ExerciseEdit(1)));
    assert_eq!(model, Model { editing: true, ..squat() });
}

#[test]
fn save_asks_for_the_exercise_to_be_replaced() {
    let mut model = squat();
    update(Msg::NameChanged(String::from(" Front Squat ")), &mut model, &data());
    update(Msg::SetMuscleStimulus(3, 25), &mut model, &data());
    let before = model.clone();
    let action = update(Msg::SaveExercise, &mut model, &data());
    assert_eq!(
        action,
        Action::ReplaceExercise(exercise(
            1,
            "Front Squat",
            vec![muscle(3, 25), muscle(7, 100), muscle(9, 50)]
        ))
    );
    assert_eq!(model, Model { loading: true, ..before });
}

#[test]
fn dialog_opens_and_closes() {
    let mut model = squat();
    let action = update(Msg::ShowDeleteTrainingSessionDialog(12), &mut model, &data());
    assert_eq!(action, Action::Nothing);
    assert_eq!(model, Model { dialog: Dialog::DeleteTrainingSession(12), ..squat() });
    let action = update(Msg::DeleteTrainingSession(12), &mut model, &data());
    assert_eq!(action, Action::DeleteTrainingSession(12));
    assert!(model.loading);
    assert_eq!(model.dialog, Dialog::DeleteTrainingSession(12));
    let action = update(Msg::DataEvent(Event::TrainingSessionDeletedOk), &mut model, &data());
    assert_eq!(action, Action::SendCloseDialog);
    assert!(!model.loading);
    assert_eq!(model.dialog, Dialog::DeleteTrainingSession(12));
    model.loading = true;
    let action = update(Msg::CloseDialog, &mut model, &data());
    assert_eq!(action, Action::GoAndReplace(Target::Routine(1)));
    assert_eq!(model, squat());
}

#[test]
fn name_is_trimmed_and_must_be_new() {
    let mut model = squat();
    let cases = [
        ("  Front Squat\t", Some("Front Squat")),
        ("Front Squat", Some("Front Squat")),
        ("Squat", Some("Squat")),
        (" Squat ", Some("Squat")),
        ("Bench Press", None),
        ("\n Bench Press", None),
        ("bench press", Some("bench press")),
        ("Bench  Press", Some("Bench  Press")),
        ("", None),
        ("   ", None),
        ("\u{a0}\u{2003}", None),
        ("\u{a0}Lunge\u{2003}", Some("Lunge")),
    ];
    for (input, parsed) in cases {
        let action = update(Msg::NameChanged(String::from(input)), &mut model, &data());
        assert_eq!(action, Action::Nothing);
        assert_eq!(model, Model { name: field(input, parsed, "Squat"), ..squat() });
    }
}

#[test]
fn checked_name_decides_on_the_trimmed_name() {
    let exercises = data().exercises;
    let check = |input: &str, name: &str, orig: &str| {
        checked_name(String::from(input), String::from(name), String::from(orig), &exercises)
    };
    assert_eq!(check(" a ", "a", "b"), field(" a ", Some("a"), "b"));
    assert_eq!(check(" a ", "", "b"), field(" a ", None, "b"));
    assert_eq!(check("x", "Squat", "Squat"), field("x", Some("Squat"), "Squat"));
    assert_eq!(check("x", "Squat", "Lunge"), field("x", None, "Lunge"));
    assert_eq!(check("", "", ""), field("", None, ""));
    assert_eq!(
        enter_name(&field("old", None, "Squat"), String::from(" Deadlift "), &exercises),
        field(" Deadlift ", None, "Squat")
    );
    assert!(is_name_taken(&exercises, &String::from("Deadlift")));
    assert!(!is_name_taken(&exercises, &String::from("deadlift")));
    assert!(!is_name_taken(&Vec::new(), &String::from("Deadlift")));
}

#[test]
fn stimulus_is_set_removed_or_ignored() {
    let mut model = squat();
    assert_eq!(model.muscle_stimulus, stimulus(&[(7, 100), (9, 50)]));
    let steps: [((u8, u8), &[(u8, u8)]); 8] = [
        ((3, 1), &[(3, 1), (7, 100), (9, 50)]),
        ((3, 100), &[(3, 100), (7, 100), (9, 50)]),
        ((7, 50), &[(3, 100), (7, 50), (9, 50)]),
        ((9, 101), &[(3, 100), (7, 50), (9, 50)]),
        ((4, 255), &[(3, 100), (7, 50), (9, 50)]),
        ((9, 0), &[(3, 100), (7, 50)]),
        ((9, 0), &[(3, 100), (7, 50)]),
        ((0, 99), &[(0, 99), (3, 100), (7, 50)]),
    ];
    for ((muscle_id, value), expected) in steps {
        let action = update(Msg::SetMuscleStimulus(muscle_id, value), &mut model, &data());
        assert_eq!(action, Action::Nothing);
        assert_eq!(model, Model { muscle_stimulus: stimulus(expected), ..squat() });
    }
}

#[test]
fn data_change_brings_the_page_up_to_date() {
    let mut model = squat();
    update(Msg::NameChanged(String::from("Bench Press")), &mut model, &data());
    update(Msg::SetMuscleStimulus(3, 25), &mut model, &data());
    update(Msg::EditExercise, &mut model, &data());
    model.loading = true;
    let mut changed = data();
    changed.exercises[0] = exercise(1, "Back Squat", vec![muscle(7, 90)]);
    changed.interval = Interval { first: date(2023, 6, 1), last: date(2024, 6, 1) };
    let action = update(Msg::DataEvent(Event::DataChanged), &mut model, &changed);
    assert_eq!(action, Action::Nothing);
    assert_eq!(
        model,
        Model {
            interval: changed.interval,
            exercise_id: 1,
            name: field("Back Squat", Some("Back Squat"), "Back Squat"),
            muscle_stimulus: stimulus(&[(7, 90)]),
            dialog: Dialog::Hidden,
            editing: true,
            loading: false,
        }
    );
}

#[test]
fn data_change_without_the_exercise_keeps_name_and_muscles() {
    let mut model = squat();
    update(Msg::NameChanged(String::from("Lunge")), &mut model, &data());
    let before = model.clone();
    let gone = Data {
        exercises: vec![exercise(2, "Bench Press", vec![])],
        interval: Interval { first: date(2020, 1, 1), last: date(2020, 1, 2) },
    };
    update_model(&mut model, &gone);
    assert_eq!(model, Model { interval: gone.interval, ..before });
    assert_eq!(find_exercise(&gone.exercises, 1), None);
    assert_eq!(find_exercise(&gone.exercises, 2), Some(0));
    assert_eq!(find_exercise(&data().exercises, 3), Some(2));
}

#[test]
fn saved_exercise_leaves_the_form() {
    let mut model = squat();
    update(Msg::EditExercise, &mut model, &data());
    update(Msg::NameChanged(String::from(" Front Squat")), &mut model, &data());
    assert!(model.has_unsaved_changes());
    update(Msg::SaveExercise, &mut model, &data());
    let action = update(Msg::DataEvent(Event::ExerciseReplacedOk), &mut model, &data());
    assert_eq!(action, Action::GoAndPush(Target::Exercise(1)));
    assert_eq!(
        model,
        Model { name: field("Front Squat", Some("Front Squat"), "Front Squat"), ..squat() }
    );
    assert!(!model.has_unsaved_changes());
}

#[test]
fn other_events_only_end_the_loading() {
    let mut model = squat();
    model.loading = true;
    let action = update(Msg::DataEvent(Event::Other), &mut model, &data());
    assert_eq!(action, Action::Nothing);
    assert_eq!(model, squat());
}

#[test]
fn interval_changes() {
    let mut model = squat();
    let first = date(2024, 2, 1);
    let last = date(2024, 2, 29);
    let action = update(Msg::ChangeInterval(first, last), &mut model, &data());
    assert_eq!(action, Action::Nothing);
    assert_eq!(model, Model { interval: Interval { first, last }, ..squat() });
}

#[test]
fn model_knows_its_changes() {
    let mut model = squat();
    assert!(!model.has_unsaved_changes());
    assert!(!model.saving_disabled());
    model.name = field("Squats", Some("Squats"), "Squat");
    assert!(model.has_unsaved_changes());
    assert!(!model.saving_disabled());
    assert!(model.name.valid());
    assert!(model.name.changed());
    model.loading = true;
    assert!(model.saving_disabled());
    model.loading = false;
    model.mark_as_unchanged();
    assert_eq!(model.name, field("Squats", Some("Squats"), "Squats"));
    model.name = field("", None, "Squats");
    assert!(model.saving_disabled());
    assert!(!model.name.valid());
}

#[test]
fn muscles_follow_the_stimulus() {
    let bench = exercise(2, "Bench Press", vec![muscle(2, 100), muscle(1, 50), muscle(2, 60)]);
    assert_eq!(bench.muscle_stimulus(), stimulus(&[(1, 50), (2, 60)]));
    assert_eq!(exercise(3, "Deadlift", vec![]).muscle_stimulus(), BTreeMap::new());
    assert_eq!(
        muscles_with_stimulus(&stimulus(&[(255, 1), (0, 2), (17, 0)])),
        vec![muscle(0, 2), muscle(17, 0), muscle(255, 1)]
    );
    assert_eq!(muscles_with_stimulus(&BTreeMap::new()), Vec::new());
    assert_eq!(
        muscles_of_model(&[3, 1, 2, 1], &stimulus(&[(1, 50), (2, 60)])),
        vec![muscle(3, 0), muscle(1, 50), muscle(2, 60), muscle(1, 50)]
    );
}

#[test]
fn muscles_are_ranked_by_stimulus() {
    let muscles = vec![
        muscle(1, 50),
        muscle(2, 0),
        muscle(3, 100),
        muscle(4, 50),
        muscle(5, 255),
        muscle(6, 1),
        muscle(7, 100),
    ];
    assert_eq!(
        rank_muscles(&muscles),
        vec![
            muscle(5, 255),
            muscle(3, 100),
            muscle(7, 100),
            muscle(1, 50),
            muscle(4, 50),
            muscle(6, 1),
        ]
    );
    let mut sorted: Vec<ExerciseMuscle> = muscles.iter().copied().filter(|m| m.stimulus > 0).collect();
    sorted.sort_by(|a, b| b.stimulus.cmp(&a.stimulus));
    assert_eq!(rank_muscles(&muscles), sorted);
    assert_eq!(rank_muscles(&vec![muscle(2, 0)]), Vec::new());
}

#[test]
fn view_muscles_depends_on_editing() {
    let mut model = squat();
    let ids = [1, 7, 8, 9];
    assert_eq!(view_muscles(&model, &ids), Muscles::Tags(vec![muscle(7, 100), muscle(9, 50)]));
    model.editing = true;
    assert_eq!(
        view_muscles(&model, &ids),
        Muscles::Form(vec![muscle(1, 0), muscle(7, 100), muscle(8, 0), muscle(9, 50)])
    );
    assert_eq!(level(100), Level::Primary);
    assert_eq!(level(99), Level::Secondary);
    assert_eq!(level(1), Level::Secondary);
    assert_eq!(level(0), Level::Unused);
    assert_eq!(level(101), Level::Unknown);
}

fn session(id: u32, on: Date) -> SessionMetrics {
    SessionMetrics {
        id,
        date: on,
        set_volume: 1,
        volume_load: 100,
        tut: None,
        avg_reps: Some(8000),
        avg_rpe: None,
        avg_weight: None,
        avg_time: None,
    }
}

fn around_january() -> Vec<SessionMetrics> {
    vec![
        session(1, date(2023, 12, 31)),
        session(2, date(2024, 1, 1)),
        session(3, date(2024, 1, 15)),
        session(4, date(2024, 1, 31)),
        session(5, date(2024, 2, 1)),
    ]
}

fn january() -> Interval {
    Interval { first: date(2024, 1, 1), last: date(2024, 1, 31) }
}

#[test]
fn view_decides_what_is_shown() {
    let mut model = squat();
    let sessions = around_january();
    assert_eq!(view(&model, &sessions, true, true), Content::Loading);
    assert!(matches!(view(&model, &sessions, true, false), Content::Showing { .. }));
    assert!(matches!(view(&model, &sessions, false, true), Content::Showing { .. }));
    model.editing = true;
    assert_eq!(
        view(&model, &sessions, false, false),
        Content::Editing { loading: false, saving_disabled: false }
    );
    model.loading = true;
    assert_eq!(
        view(&model, &sessions, false, false),
        Content::Editing { loading: true, saving_disabled: true }
    );
    model.loading = false;
    model.name = field(" ", None, "Squat");
    assert_eq!(
        view(&model, &sessions, false, false),
        Content::Editing { loading: false, saving_disabled: true }
    );
    model.exercise_id = 0;
    assert_eq!(view(&model, &sessions, false, false), Content::NotFound);
    assert_eq!(view(&model, &sessions, true, true), Content::Loading);
}

#[test]
fn view_passes_on_the_sessions_within_the_interval() {
    let mut model = squat();
    model.interval = january();
    let sessions = around_january();
    assert_eq!(
        view(&model, &sessions, false, false),
        Content::Showing {
            exercise_interval: Interval { first: date(2023, 12, 31), last: date(2024, 2, 1) },
            shown: vec![
                session(2, date(2024, 1, 1)),
                session(3, date(2024, 1, 15)),
                session(4, date(2024, 1, 31)),
            ],
        }
    );
}

#[test]
fn view_keeps_the_order_of_the_sessions() {
    let mut model = squat();
    model.interval = january();
    let sessions = vec![
        session(4, date(2024, 1, 31)),
        session(5, date(2024, 2, 1)),
        session(3, date(2024, 1, 15)),
        session(6, date(2024, 1, 15)),
        session(2, date(2024, 1, 1)),
    ];
    let Content::Showing { shown, .. } = view(&model, &sessions, false, false) else {
        panic!("the sessions are shown");
    };
    assert_eq!(
        shown,
        vec![
            session(4, date(2024, 1, 31)),
            session(3, date(2024, 1, 15)),
            session(6, date(2024, 1, 15)),
            session(2, date(2024, 1, 1)),
        ]
    );
}

#[test]
fn view_passes_on_what_is_filtered_already() {
    let mut model = squat();
    model.interval = january();
    let Content::Showing { shown, .. } = view(&model, &around_january(), false, false) else {
        panic!("the sessions are shown");
    };
    let Content::Showing { shown: again, .. } = view(&model, &shown, false, false) else {
        panic!("the sessions are shown");
    };
    assert_eq!(again, shown);
}

#[test]
fn view_spans_all_sessions_whatever_the_interval() {
    let mut model = squat();
    let all = Interval { first: date(2023, 12, 31), last: date(2024, 2, 1) };
    for chosen in [
        january(),
        Interval { first: date(2024, 1, 10), last: date(2024, 1, 20) },
        Interval { first: date(2030, 1, 1), last: date(2030, 1, 2) },
        Interval { first: date(2024, 1, 31), last: date(2024, 1, 1) },
    ] {
        model.interval = chosen;
        let Content::Showing { exercise_interval, .. } =
            view(&model, &around_january(), false, false)
        else {
            panic!("the sessions are shown");
        };
        assert_eq!(exercise_interval, all);
    }
    assert_eq!(
        view(&model, &[], false, false),
        Content::Showing {
            exercise_interval: Interval { first: date(1970, 1, 1), last: date(1970, 1, 1) },
            shown: vec![],
        }
    );
}

#[test]
fn view_with_a_reversed_interval_passes_on_nothing() {
    let mut model = squat();
    model.interval = Interval { first: date(2024, 1, 31), last: date(2024, 1, 1) };
    let Content::Showing { shown, .. } = view(&model, &around_january(), false, false) else {
        panic!("the sessions are shown");
    };
    assert!(shown.is_empty());
}
